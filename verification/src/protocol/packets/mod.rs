pub mod connection;
pub mod open_connection;
pub mod ping;
pub mod refusal;
