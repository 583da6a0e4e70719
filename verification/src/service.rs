//! The per-connection decision of the handler.
//!
//! After TLS termination the handler reads one initial chunk and must pick
//! one of three actions: forward the chunk untouched to the default
//! upstream, drop the connection, or connect to the destination the frame
//! names.  `dispatch` makes that choice; the surrounding binary performs
//! the chosen action and then relays bytes.

use crate::config::{credential_known, Config};
use crate::protocol::{parser_trojan, spec_parse};
use crate::trojan::Address;
use crate::utility::copy_bytes;
use vstd::prelude::*;

verus! {

/// The command byte that asks for a TCP connection; every other command
/// degrades to fallback forwarding.
pub const CMD_TCP_CONNECT: u8 = 1;

/// What the handler owes for one initial chunk.
pub enum Decision {
    /// Forward the held bytes, untouched, to the default upstream, then
    /// relay.
    Fallback(Vec<u8>),
    /// Shut the client stream down and forward nothing anywhere.
    Close,
    /// Connect to the destination, write the inline payload first, then
    /// relay.
    Connect(Address, Vec<u8>),
}

/// The action owed for the initial chunk `buf`:
/// - a chunk that is no frame, or a frame with an unsupported command,
///   falls back, carrying the whole original chunk;
/// - a frame asking for a TCP connection with an unknown credential closes
///   the connection, and nothing is forwarded anywhere;
/// - a frame asking for a TCP connection with a known credential connects
///   to the frame's destination, carrying the inline payload.
pub fn dispatch(config: &Config, buf: Vec<u8>) -> (d: Decision)
    ensures
        match spec_parse(buf@) {
            Err(_) => d matches Decision::Fallback(b) && b@ == buf@,
            Ok(f) => if f.cmd != CMD_TCP_CONNECT {
                d matches Decision::Fallback(b) && b@ == buf@
            } else if !credential_known(config@.password, f.pwd) {
                d is Close
            } else {
                d matches Decision::Connect(a, p) && a@ == f.address && p@ == f.payload
            },
        },
{
    let kept = copy_bytes(&buf);
    match parser_trojan(buf) {
        Err(_) => Decision::Fallback(kept),
        Ok(tro) => {
            if *tro.command() != CMD_TCP_CONNECT {
                Decision::Fallback(kept)
            } else if !config.hash_pwd(tro.password()) {
                Decision::Close
            } else {
                let address = tro.address();
                let payload = copy_bytes(tro.payload());
                Decision::Connect(address, payload)
            }
        },
    }
}

} // verus!
