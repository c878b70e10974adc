pub mod addr_index;
pub mod addr_map;
pub mod addr_text;
pub mod constants;
pub mod flags;
pub mod packet_id;
pub mod rules;
pub mod serde_time;
pub mod session_ids;
pub mod socket_addr;
pub mod text_rules;
