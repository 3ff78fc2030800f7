pub mod queue;
pub mod protocol;
pub mod fanout;
pub mod bloom;
pub mod strike_tracker;
