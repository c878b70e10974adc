pub mod codec;
pub mod packets;
pub mod rules;
