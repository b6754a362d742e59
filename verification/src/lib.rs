pub mod chars;
pub mod controller;
pub mod date;
pub mod parser;
pub mod roundtrip;
pub mod task;

pub use controller::App;
pub use controller::Event;
pub use date::Date;
pub use task::Task;
