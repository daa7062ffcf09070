//! Ownership models for a tree of files. An exclusive-ownership tree
//! reaches a deep node by walking down from the root, handing an
//! exclusive borrow from parent to child; an observer-style file pushes
//! every content change to the observers registered on it; and a shared
//! buffer collects one entry from each of several workers, whatever
//! order the workers reach it in.

use vstd::prelude::*;

verus! {

/// A file that owns its children outright: every node has exactly one
/// parent, so the only way to a deep node is down from the root.
pub struct BoxFile {
    pub name: String,
    pub content: String,
    pub children: Vec<Box<BoxFile>>,
}

/// `i` is the position of the first child called `name`.
pub open spec fn first_match(children: Seq<Box<BoxFile>>, name: Seq<char>, i: int) -> bool {
    &&& 0 <= i < children.len()
    &&& children[i].name@ == name
    &&& forall|j: int| 0 <= j < i ==> children[j].name@ != name
}

/// How a tree looks after the file at `path` (a trail of child names
/// below `old_t`) has its content replaced by `c`. An empty trail names
/// `old_t` itself. At each step the walk enters the first child carrying
/// the next name and leaves every other child untouched; a name with no
/// matching child leaves the whole tree unchanged.
pub open spec fn tree_updated(old_t: BoxFile, new_t: BoxFile, path: Seq<Seq<char>>, c: Seq<char>) -> bool
    decreases path.len(),
{
    if path.len() == 0 {
        &&& new_t.name == old_t.name
        &&& new_t.content@ == c
        &&& new_t.children == old_t.children
    } else if exists|i: int| first_match(old_t.children@, path[0], i) {
        &&& new_t.name == old_t.name
        &&& new_t.content == old_t.content
        &&& new_t.children@.len() == old_t.children@.len()
        &&& exists|i: int|
            {
                &&& #[trigger] first_match(old_t.children@, path[0], i)
                &&& forall|j: int|
                    0 <= j < old_t.children@.len() && j != i ==> new_t.children@[j]
                        == old_t.children@[j]
                &&& tree_updated(*old_t.children@[i], *new_t.children@[i], path.drop_first(), c)
            }
    } else {
        new_t == old_t
    }
}

impl BoxFile {
    /// A fresh file with the given name, empty content and no children.
    pub fn new(name: &str) -> (r: BoxFile)
        ensures
            r.name@ == name@,
            r.content@ == Seq::<char>::empty(),
            r.children@.len() == 0,
    {
        BoxFile { name: name.to_owned(), content: String::new(), children: vec![] }
    }

    /// Replaces the content of the file at `path` below this node, where
    /// each path element names the first child to enter. Reaching the
    /// deep node needs an exclusive borrow at every level on the way
    /// down; a path element with no matching child leaves the tree as it
    /// was.
    pub fn update_deep_file(&mut self, path: &[String], new_content: String)
        ensures
            tree_updated(*old(self), *final(self), path.deep_view(), new_content@),
        decreases path@.len(),
    {
        if path.len() == 0 {
            self.content = new_content;
            return ;
        }

        let ghost names = path.deep_view();
        let mut idx: usize = 0;
        while idx < self.children.len()
            invariant
                *self == *old(self),
                idx <= self.children@.len(),
                names == path.deep_view(),
                names.len() > 0,
                forall|j: int| 0 <= j < idx ==> self.children@[j].name@ != names[0],
            decreases self.children@.len() - idx,
        {
            if self.children[idx].name == path[0] {
                proof {
                    assert(first_match(self.children@, names[0], idx as int));
                }
                let rest = &path[1..path.len()];
                proof {
                    assert(rest.deep_view() =~= names.drop_first());
                }
                self.children[idx].update_deep_file(rest, new_content);
                return ;
            }
            idx += 1;
        }
    }
}

/// Builds a small exclusive-ownership tree (a root holding a directory
/// holding one file) and rewrites the deep file's content from the root.
pub fn box_example() -> (root: BoxFile)
    ensures
        root.name@ == "root"@,
        root.content@ == Seq::<char>::empty(),
        root.children@.len() == 1,
        root.children@[0].name@ == "docs"@,
        root.children@[0].content@ == Seq::<char>::empty(),
        root.children@[0].children@.len() == 1,
        root.children@[0].children@[0].name@ == "file1.txt"@,
        root.children@[0].children@[0].content@ == "new content"@,
        root.children@[0].children@[0].children@.len() == 0,
{
    let mut root = BoxFile::new("root");
    let mut docs = BoxFile::new("docs");
    docs.children.push(Box::new(BoxFile::new("file1.txt")));
    root.children.push(Box::new(docs));

    let path = vec!["docs".to_owned(), "file1.txt".to_owned()];
    let ghost pre = root;
    let ghost names = path.deep_view();
    root.update_deep_file(path.as_slice(), "new content".to_owned());
    proof {
        // Unfold the update relation level by level: each node has one
        // child, so the first match can only sit at position 0.
        let c = "new content"@;
        assert(names =~= seq!["docs"@, "file1.txt"@]);
        assert(first_match(pre.children@, names[0], 0));
        let docs_pre = *pre.children@[0];
        let docs_new = *root.children@[0];
        assert(tree_updated(docs_pre, docs_new, names.drop_first(), c));
        assert(first_match(docs_pre.children@, names.drop_first()[0], 0));
        assert(tree_updated(
            *docs_pre.children@[0],
            *docs_new.children@[0],
            names.drop_first().drop_first(),
            c,
        ));
        assert(names.drop_first().drop_first().len() == 0);
    }
    root
}

/// An observer registered on a shared file: it keeps every content
/// change it was told about, oldest first. (The exclusive-ownership tree
/// above could not support observers at all: a second handle on a node
/// is exactly what single ownership rules out.)
pub struct Observer {
    pub notifications: Vec<String>,
}

/// A file meant to be shared: besides its name and content it carries
/// child handles that other owners may also hold, and a list of
/// observers, each of which is told about every content change.
pub struct RcFile {
    pub name: String,
    pub content: String,
    pub children: Vec<std::rc::Rc<RcFile>>,
    pub observers: Vec<Observer>,
}

impl RcFile {
    /// A fresh shared file: empty content, no children, no observers.
    pub fn new(name: &str) -> (r: RcFile)
        ensures
            r.name@ == name@,
            r.content@ == Seq::<char>::empty(),
            r.children@.len() == 0,
            r.observers@.len() == 0,
    {
        RcFile {
            name: name.to_owned(),
            content: String::new(),
            children: vec![],
            observers: vec![],
        }
    }

    /// Registers one more observer; everything else stays as it was.
    pub fn add_observer(&mut self, observer: Observer)
        ensures
            final(self).observers@ == old(self).observers@.push(observer),
            final(self).name == old(self).name,
            final(self).content == old(self).content,
            final(self).children == old(self).children,
    {
        self.observers.push(observer);
    }

    /// Replaces the content and tells every observer the new content:
    /// each observer's record grows by exactly that one entry, in
    /// registration order.
    pub fn update_content(&mut self, new_content: String)
        ensures
            final(self).content == new_content,
            final(self).name == old(self).name,
            final(self).children == old(self).children,
            final(self).observers@.len() == old(self).observers@.len(),
            forall|i: int|
                0 <= i < old(self).observers@.len() ==> final(self).observers@[i].notifications@
                    =~= old(self).observers@[i].notifications@.push(new_content),
    {
        self.content = new_content;
        let mut i: usize = 0;
        while i < self.observers.len()
            invariant
                i <= self.observers@.len(),
                self.observers@.len() == old(self).observers@.len(),
                self.content == new_content,
                self.name == old(self).name,
                self.children == old(self).children,
                forall|j: int|
                    0 <= j < i ==> self.observers@[j].notifications@ =~= old(
                        self,
                    ).observers@[j].notifications@.push(self.content),
                forall|j: int|
                    i <= j < self.observers@.len() ==> self.observers@[j] == old(
                        self,
                    ).observers@[j],
            decreases self.observers@.len() - i,
        {
            let note = self.content.clone();
            self.observers[i].notifications.push(note);
            i += 1;
        }
    }
}

/// The observer demonstration: one shared file gets two observers, then
/// its content becomes "Hello" and then "World". Both observers are told
/// of both changes, in order, and the file ends up saying "World".
pub fn rc_example() -> (file: RcFile)
    ensures
        file.name@ == "example.txt"@,
        file.content@ == "World"@,
        file.children@.len() == 0,
        file.observers@.len() == 2,
        forall|i: int|
            0 <= i < 2 ==> file.observers@[i].notifications.deep_view() =~= seq![
                "Hello"@,
                "World"@,
            ],
{
    let mut file = RcFile::new("example.txt");
    file.add_observer(Observer { notifications: vec![] });
    file.add_observer(Observer { notifications: vec![] });

    file.update_content("Hello".to_owned());
    file.update_content("World".to_owned());
    file
}

/// A file that several workers append to. The workers run outside this
/// library behind a lock; each one, once it holds the lock, calls
/// `append_entry` with its own index. Everything proved here holds
/// whatever order the workers acquired the lock in.
pub struct AsyncFile {
    pub name: String,
    pub content: String,
}

/// The line worker `i` appends to the shared buffer.
pub open spec fn label(i: int) -> Seq<char> {
    if i == 0 {
        "Thread 0 wrote this\n"@
    } else if i == 1 {
        "Thread 1 wrote this\n"@
    } else {
        "Thread 2 wrote this\n"@
    }
}

/// The buffer after the workers listed in `order` have appended their
/// lines, first listed first.
pub open spec fn buffer_content(order: Seq<usize>) -> Seq<char>
    decreases order.len(),
{
    if order.len() == 0 {
        Seq::empty()
    } else {
        buffer_content(order.drop_last()) + label(order.last() as int)
    }
}

/// Appends worker `i`'s line to the shared buffer. The caller holds the
/// buffer exclusively (outside this library: it holds the lock).
pub fn append_entry(file: &mut AsyncFile, i: usize)
    requires
        i < 3,
    ensures
        final(file).name == old(file).name,
        final(file).content@ == old(file).content@ + label(i as int),
{
    let line: &str = if i == 0 {
        "Thread 0 wrote this\n"
    } else if i == 1 {
        "Thread 1 wrote this\n"
    } else {
        "Thread 2 wrote this\n"
    };
    file.content.append(line);
}

/// Replays the three-worker demonstration for one lock-acquisition
/// order: a fresh shared file takes the appends of the workers in
/// `order`, first element first.
pub fn run_appends(order: &[usize]) -> (file: AsyncFile)
    requires
        forall|k: int| 0 <= k < order@.len() ==> order@[k] < 3,
    ensures
        file.name@ == "async.txt"@,
        file.content@ == buffer_content(order@),
{
    let mut file = AsyncFile { name: "async.txt".to_owned(), content: String::new() };
    let n = order.len();
    let mut k: usize = 0;
    while k < n
        invariant
            n == order@.len(),
            k <= n,
            forall|j: int| 0 <= j < n ==> order@[j] < 3,
            file.name@ == "async.txt"@,
            file.content@ == buffer_content(order@.take(k as int)),
        decreases n - k,
    {
        append_entry(&mut file, order[k]);
        proof {
            assert(order@.take(k + 1 as int).drop_last() =~= order@.take(k as int));
        }
        k += 1;
    }
    proof {
        assert(order@.take(n as int) =~= order@);
    }
    file
}

/// The three workers' lines are pairwise different.
pub proof fn lemma_labels_distinct()
    ensures
        label(0) != label(1),
        label(0) != label(2),
        label(1) != label(2),
        forall|i: int| label(i).len() == 20,
{
    reveal_strlit("Thread 0 wrote this\n");
    reveal_strlit("Thread 1 wrote this\n");
    reveal_strlit("Thread 2 wrote this\n");
    assert(label(0)[7] == '0' && label(1)[7] == '1' && label(2)[7] == '2');
}

/// What the three-worker demonstration guarantees however the workers
/// were scheduled: when each of the three indices appears exactly once
/// in the acquisition order, the final buffer consists of exactly three
/// lines, and each worker's line stands in it exactly once — at the
/// position its worker held in the acquisition order, and nowhere else.
pub proof fn lemma_three_appends_once_each(order: Seq<usize>)
    requires
        order.len() == 3,
        forall|k: int| 0 <= k < 3 ==> order[k] < 3,
        order[0] != order[1],
        order[0] != order[2],
        order[1] != order[2],
    ensures
        buffer_content(order).len() == 60,
        forall|k: int|
            0 <= k < 3 ==> buffer_content(order).subrange(20 * k, 20 * (k + 1)) == label(
                order[k] as int,
            ),
        forall|i: int|
            #![trigger label(i)]
            0 <= i < 3 ==> exists|k: int|
                0 <= k < 3 && (#[trigger] order[k]) == i && buffer_content(order).subrange(
                    20 * k,
                    20 * (k + 1),
                ) == label(i),
        forall|k1: int, k2: int|
            #![trigger buffer_content(order).subrange(20 * k1, 20 * (k1 + 1)), buffer_content(order).subrange(20 * k2, 20 * (k2 + 1))]
            0 <= k1 < 3 && 0 <= k2 < 3 && k1 != k2 ==> buffer_content(order).subrange(
                20 * k1,
                20 * (k1 + 1),
            ) != buffer_content(order).subrange(20 * k2, 20 * (k2 + 1)),
{
    lemma_labels_distinct();
    let buf = buffer_content(order);
    let o01 = order.drop_last();
    let o0 = seq![order[0]];
    assert(o01.len() == 2 && o01.last() == order[1]);
    assert(buf == buffer_content(o01) + label(order[2] as int));
    assert(o01.drop_last() =~= o0);
    assert(buffer_content(o01) == buffer_content(o0) + label(order[1] as int));
    assert(o0.drop_last() =~= Seq::<usize>::empty());
    assert(buffer_content(o0) == buffer_content(Seq::<usize>::empty()) + label(order[0] as int));
    assert(buffer_content(Seq::<usize>::empty()) == Seq::<char>::empty());
    assert(buf =~= label(order[0] as int) + label(order[1] as int) + label(order[2] as int));
    assert forall|k: int| 0 <= k < 3 implies buf.subrange(20 * k, 20 * (k + 1)) == label(
        order[k] as int,
    ) by {
        assert(buf.subrange(0, 20) =~= label(order[0] as int));
        assert(buf.subrange(20, 40) =~= label(order[1] as int));
        assert(buf.subrange(40, 60) =~= label(order[2] as int));
    }
    assert forall|i: int| #![trigger label(i)] 0 <= i < 3 implies exists|k: int|
        0 <= k < 3 && (#[trigger] order[k]) == i && buf.subrange(20 * k, 20 * (k + 1)) == label(
        i,
    ) by {
        let k = if order[0] == i {
            0int
        } else if order[1] == i {
            1int
        } else {
            2int
        };
        assert(order[k] == i);
        assert(0 <= k < 3 && order[k] == i && buf.subrange(20 * k, 20 * (k + 1)) == label(i));
    }
}

} // verus!
