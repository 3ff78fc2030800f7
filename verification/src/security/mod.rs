pub mod events;
pub mod rate_limit;
