pub mod connection;
pub mod power;
