pub mod timer;
pub mod todo;
