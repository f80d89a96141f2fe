use vstd::prelude::*;

use std::sync::Arc;

use crate::hexcode::{decode_payload_hex, is_strict_hex, msg_invalid_hex, strict_hex_bytes};

verus! {

/// The bytes that a TCP run sends on each tick.
#[derive(Debug, Clone)]
pub struct TcpSendData {
    pub data: Arc<Vec<u8>>,
}

impl TcpSendData {
    /// The payload given as strict hexadecimal text.
    pub fn from_hex(text: &str) -> (r: Result<TcpSendData, String>)
        ensures
            is_strict_hex(text@) ==> (r matches Ok(d) && d.data@ == strict_hex_bytes(text@)),
            !is_strict_hex(text@) ==> (r matches Err(e) && e@ == msg_invalid_hex()),
    {
        match decode_payload_hex(text) {
            Ok(v) => Ok(TcpSendData { data: Arc::new(v) }),
            Err(e) => Err(e),
        }
    }
}

/// The TCP settings of a run; TCP needs none beyond the common ones.
#[derive(Debug, Clone)]
pub struct TcpConfig {}

/// One TCP connection of the fleet, as the library sees it: the socket is
/// held by the caller.
#[derive(Debug)]
pub struct TcpConn {}

/// A text answer of a TCP peer.
#[derive(Debug)]
pub struct ResponseData {
    pub data: String,
}

} // verus!
