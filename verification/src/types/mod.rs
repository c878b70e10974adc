pub mod priority;
pub mod reliability;
