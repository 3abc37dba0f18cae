pub mod console;
pub mod limits;
pub mod reactor;
pub mod token;
