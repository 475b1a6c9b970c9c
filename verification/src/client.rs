//! Decisions of the tunnel client: which service ids can be asked for, when a
//! cached gateway connection is reused and when it is dropped.

use vstd::prelude::*;
use vstd::utf8::encode_utf8;

use crate::stream::IoFailure;
use crate::text::{contains_text, decimal_of, join3};
use crate::tunnel::MAX_SERVICE_ID_LEN;

verus! {

/// Refuse a service id that the wire protocol or the gateway's service map can
/// never accept, before a listener advertises it.
pub fn check_service(service: &str) -> (res: Result<(), String>)
    ensures
        match res {
            Ok(_) => 0 < encode_utf8(service@).len() <= MAX_SERVICE_ID_LEN,
            Err(e) => if encode_utf8(service@).len() == 0 {
                e@ == "--service must not be empty"@
            } else {
                encode_utf8(service@).len() > MAX_SERVICE_ID_LEN && e@ == "--service exceeds "@
                    + crate::text::decimal(MAX_SERVICE_ID_LEN as nat) + " bytes"@
            },
        },
{
    let n = service.as_bytes().len();
    if n == 0 {
        return Err("--service must not be empty".to_owned());
    }
    if n > MAX_SERVICE_ID_LEN as usize {
        let max = decimal_of(MAX_SERVICE_ID_LEN as u64);
        return Err(join3("--service exceeds ", max.as_str(), " bytes"));
    }
    Ok(())
}

/// Whether a failure kind means that the connection is lost.
pub open spec fn lost_kind(kind: IoFailure) -> bool {
    kind == IoFailure::ConnectionReset || kind == IoFailure::NotConnected
}

/// Whether a failed tunnel means that the gateway connection is lost, from the
/// I/O failures among its causes and its message.
pub fn is_connection_lost(causes: &Vec<IoFailure>, message: &str) -> (res: bool)
    ensures
        res == ((exists|i: int| 0 <= i < causes@.len() && lost_kind(#[trigger] causes@[i]))
            || exists|at: int| crate::text::occurs_at(message@, "connection lost"@, at)),
{
    let mut i: usize = 0;
    while i < causes.len()
        invariant
            i <= causes@.len(),
            forall|k: int| 0 <= k < i ==> !lost_kind(#[trigger] causes@[k]),
        decreases causes@.len() - i,
    {
        match causes[i] {
            IoFailure::ConnectionReset => {
                assert(lost_kind(causes@[i as int]));
                return true;
            },
            IoFailure::NotConnected => {
                assert(lost_kind(causes@[i as int]));
                return true;
            },
            _ => {},
        }
        i = i + 1;
    }
    contains_text(message, "connection lost")
}

/// The gateway connection in the client's cache.
#[derive(Debug, Clone, Copy, PartialEq, Eq, Structural)]
pub enum Cached {
    Empty,
    Live,
    Closed,
}

/// Whether the cached connection is used: before dialing in place of a dial,
/// after dialing in place of the fresh connection, which is cached otherwise.
/// Concurrent dials may race; whichever lands first keeps the slot.
pub fn get_or_dial(cached: Cached) -> (reuse: bool)
    ensures
        reuse == (cached == Cached::Live),
{
    cached == Cached::Live
}

/// Whether a failed tunnel empties the cache: the connection is lost and the
/// cache still holds a closed one. A healthy replacement that another tunnel
/// dialed meanwhile stays.
pub fn evicts(connection_lost: bool, cached: Cached) -> (res: bool)
    ensures
        res == (connection_lost && cached == Cached::Closed),
{
    connection_lost && cached == Cached::Closed
}

// ---------------------------------------------------------------------------
// Laws
// ---------------------------------------------------------------------------

/// A reset connection and one that is not there any more are lost; a closed
/// pipe, an early end and anything else say nothing of the connection.
pub proof fn law_lost_kinds()
    ensures
        lost_kind(IoFailure::ConnectionReset),
        lost_kind(IoFailure::NotConnected),
        !lost_kind(IoFailure::BrokenPipe),
        !lost_kind(IoFailure::UnexpectedEof),
        !lost_kind(IoFailure::Other),
        MAX_SERVICE_ID_LEN == 256,
{
}

} // verus!
