//! The first byte of each packet.

use vstd::prelude::*;

verus! {

pub const UNCONNECTED_PING: u8 = 0x01;

pub const OPEN_CONNECTION_REQUEST_1: u8 = 0x05;

pub const OPEN_CONNECTION_REPLY_1: u8 = 0x06;

pub const OPEN_CONNECTION_REQUEST_2: u8 = 0x07;

pub const OPEN_CONNECTION_REPLY_2: u8 = 0x08;

pub const CONNECTION_REQUEST: u8 = 0x09;

pub const CONNECTION_REQUEST_ACCEPTED: u8 = 0x10;

pub const CONNECTION_ATTEMPT_FAILED: u8 = 0x11;

pub const ALREADY_CONNECTED: u8 = 0x12;

pub const NEW_INCOMING_CONNECTION: u8 = 0x13;

pub const NO_FREE_INCOMING_CONNECTIONS: u8 = 0x14;

pub const INCOMPATIBLE_PROTOCOL: u8 = 0x19;

pub const IP_RECENTLY_CONNECTED: u8 = 0x1a;

pub const UNCONNECTED_PONG: u8 = 0x1c;

} // verus!
