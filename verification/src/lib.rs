//! Small verified demonstrations of core language mechanics: passing
//! functions and boxed closures as values, static dispatch through a
//! generic shape trait, lifetimes of borrowed data, exclusive-ownership
//! trees against observer-style shared state, and a shared buffer that
//! several workers append to.

pub mod closures;
pub mod life;
pub mod ownership;
pub mod practice;
pub mod read_and_write;
pub mod shapes;
