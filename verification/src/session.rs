//! The per-message step of the channel-accept session: decode the requesting
//! peer's identity, consult the decision engine, and hand back either the
//! decision to enqueue or the error that ends the session.

use crate::decision::{ChannelDecision, decide, spec_confs_for, spec_decide};
use crate::peer::{normalize_peer_identity, pubkey_hex, pubkey_valid};
use crate::whitelist::Whitelist;
use vstd::prelude::*;

verus! {

/// Capacity of the bounded outbound decision queue that decouples a
/// session's read path from its stream's write side; enqueueing suspends
/// when it is full. A tunable, not a protocol constant.
pub const OUTBOUND_QUEUE_CAPACITY: usize = 1024;

/// One inbound channel-open request, reduced to the fields the engine reads.
/// `wants_zero_conf` is carried for completeness; the decision depends on the
/// whitelist entry alone.
pub struct ChannelOpenRequest {
    pub pending_chan_id: Vec<u8>,
    pub node_pubkey: Vec<u8>,
    pub wants_zero_conf: bool,
}

/// The error that is fatal to the enclosing session: the supervisor tears the
/// stream down and retries after the fixed delay.
#[derive(PartialEq, Eq, Structural, Clone, Copy, Debug)]
pub enum SessionError {
    /// The peer identity bytes of an inbound message do not decode as a
    /// public key.
    MalformedPeerIdentity,
}

/// Answer one channel-open request: a decision for a well-formed peer
/// identity, and the session-fatal error for a malformed one.
pub fn handle_channel_request(w: &Whitelist, req: ChannelOpenRequest) -> (r: Result<
    ChannelDecision,
    SessionError,
>)
    ensures
        r is Ok <==> pubkey_valid(req.node_pubkey@),
        r matches Ok(d) ==> d@ == spec_decide(
            spec_confs_for(w@, pubkey_hex(req.node_pubkey@)),
            req.pending_chan_id@,
        ),
        r matches Err(e) ==> e == SessionError::MalformedPeerIdentity,
{
    match normalize_peer_identity(req.node_pubkey.as_slice()) {
        Some(identity) => Ok(decide(w, identity.as_str(), req.pending_chan_id)),
        None => Err(SessionError::MalformedPeerIdentity),
    }
}

} // verus!
