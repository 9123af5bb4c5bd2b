pub mod date;
pub mod task;

pub use date::DateFormatError;
pub use task::Task;
