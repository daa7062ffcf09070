use mechanics::ownership::{
    append_entry, box_example, rc_example, run_appends, AsyncFile, BoxFile, Observer, RcFile,
};

#[test]
fn box_example_rewrites_the_deep_file() {
    let root = box_example();
    assert_eq!(root.name, "root");
    assert_eq!(root.children.len(), 1);
    let docs = &root.children[0];
    assert_eq!(docs.name, "docs");
    assert_eq!(docs.children.len(), 1);
    let file1 = &docs.children[0];
    assert_eq!(file1.name, "file1.txt");
    assert_eq!(file1.content, "new content");
}

#[test]
fn update_with_empty_path_rewrites_the_node_itself() {
    let mut root = BoxFile::new("root");
    root.update_deep_file(&[], "hello".to_string());
    assert_eq!(root.content, "hello");
}

#[test]
fn update_with_unknown_name_changes_nothing() {
    let mut root = BoxFile::new("root");
    root.children.push(Box::new(BoxFile::new("docs")));
    root.update_deep_file(&["pics".to_string()], "hello".to_string());
    assert_eq!(root.content, "");
    assert_eq!(root.children[0].content, "");
}

#[test]
fn update_with_equal_names_rewrites_only_the_first() {
    let mut root = BoxFile::new("root");
    root.children.push(Box::new(BoxFile::new("twin")));
    root.children.push(Box::new(BoxFile::new("twin")));
    root.update_deep_file(&["twin".to_string()], "first only".to_string());
    assert_eq!(root.children[0].content, "first only");
    assert_eq!(root.children[1].content, "");
}

#[test]
fn rc_example_tells_both_observers_about_both_changes() {
    let file = rc_example();
    assert_eq!(file.name, "example.txt");
    assert_eq!(file.content, "World");
    assert_eq!(file.observers.len(), 2);
    for observer in &file.observers {
        assert_eq!(observer.notifications, vec!["Hello", "World"]);
    }
}

#[test]
fn update_content_notifies_in_registration_order() {
    let mut file = RcFile::new("example.txt");
    file.add_observer(Observer { notifications: vec![] });
    file.update_content("one".to_string());
    file.add_observer(Observer { notifications: vec![] });
    file.update_content("two".to_string());
    assert_eq!(file.observers[0].notifications, vec!["one", "two"]);
    assert_eq!(file.observers[1].notifications, vec!["two"]);
}

#[test]
fn update_content_without_observers_only_sets_content() {
    let mut file = RcFile::new("quiet.txt");
    file.update_content("text".to_string());
    assert_eq!(file.content, "text");
    assert!(file.observers.is_empty());
}

#[test]
fn append_entry_appends_the_worker_label() {
    let mut file = AsyncFile { name: "async.txt".to_string(), content: String::new() };
    append_entry(&mut file, 1);
    assert_eq!(file.content, "Thread 1 wrote this\n");
    append_entry(&mut file, 0);
    assert_eq!(file.content, "Thread 1 wrote this\nThread 0 wrote this\n");
}

#[test]
fn every_order_of_three_workers_leaves_each_label_exactly_once() {
    let orders: [[usize; 3]; 6] = [
        [0, 1, 2],
        [0, 2, 1],
        [1, 0, 2],
        [1, 2, 0],
        [2, 0, 1],
        [2, 1, 0],
    ];
    for order in &orders {
        let file = run_appends(order);
        assert_eq!(file.name, "async.txt");
        assert_eq!(file.content.len(), 60);
        for i in 0..3 {
            let label = format!("Thread {} wrote this\n", i);
            assert_eq!(file.content.matches(&label).count(), 1, "order {:?}", order);
        }
    }
}

#[test]
fn run_appends_concatenates_in_lock_order() {
    let file = run_appends(&[2, 0, 1]);
    assert_eq!(
        file.content,
        "Thread 2 wrote this\nThread 0 wrote this\nThread 1 wrote this\n"
    );
}
