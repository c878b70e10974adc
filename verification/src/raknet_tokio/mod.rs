//! A server that runs as a task of its own: what its owner can ask of it, and what the task
//! does with each thing that happens.

pub mod server;
