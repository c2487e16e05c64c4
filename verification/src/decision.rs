//! The decision engine: a pure function from (whitelist, canonical peer
//! identity) to a channel decision. Negative configured confirmations deny
//! the channel, zero grants a zero-conf accept, positive sets the required
//! confirmation depth, and an unknown peer falls back to the default policy.

use crate::DEFAULT_UNKNOWN_CONFS;
use crate::whitelist::Whitelist;
use vstd::prelude::*;

verus! {

/// Decision returned for one channel-open request. All advisory fields that
/// the engine does not negotiate are held at neutral defaults by the caller
/// that puts the decision on the wire.
pub struct ChannelDecision {
    pub accept: bool,
    pub pending_chan_id: Vec<u8>,
    pub zero_conf: bool,
    pub min_accept_depth: u32,
    pub error_message: String,
}

/// Mathematical content of a `ChannelDecision`.
pub struct DecisionView {
    pub accept: bool,
    pub pending_chan_id: Seq<u8>,
    pub zero_conf: bool,
    pub min_accept_depth: u32,
    pub error_message: Seq<char>,
}

impl View for ChannelDecision {
    type V = DecisionView;

    open spec fn view(&self) -> DecisionView {
        DecisionView {
            accept: self.accept,
            pending_chan_id: self.pending_chan_id@,
            zero_conf: self.zero_conf,
            min_accept_depth: self.min_accept_depth,
            error_message: self.error_message@,
        }
    }
}

/// The confirmation policy that applies to an identity: its whitelist entry,
/// or the default policy for peers the whitelist does not name.
pub open spec fn spec_confs_for(w: Map<Seq<char>, i8>, peer_identity: Seq<char>) -> int {
    if w.contains_key(peer_identity) {
        w[peer_identity] as int
    } else {
        DEFAULT_UNKNOWN_CONFS as int
    }
}

/// The decision mandated by a confirmation policy value, echoing the pending
/// channel id of the request it answers.
pub open spec fn spec_decide(confs: int, pending_chan_id: Seq<u8>) -> DecisionView {
    DecisionView {
        accept: confs >= 0,
        pending_chan_id: pending_chan_id,
        zero_conf: confs == 0,
        min_accept_depth: if confs > 0 {
            confs as u32
        } else {
            0u32
        },
        error_message: Seq::empty(),
    }
}

/// Decide one channel-open request from a peer with the given canonical
/// identity.
pub fn decide(w: &Whitelist, peer_identity: &str, pending_chan_id: Vec<u8>) -> (d: ChannelDecision)
    ensures
        d@ == spec_decide(spec_confs_for(w@, peer_identity@), pending_chan_id@),
{
    let confs: i8 = match w.lookup(peer_identity) {
        Some(c) => c,
        None => DEFAULT_UNKNOWN_CONFS,
    };
    let empty_message = String::new();
    if confs < 0 {
        ChannelDecision {
            accept: false,
            pending_chan_id,
            zero_conf: false,
            min_accept_depth: 0,
            error_message: empty_message.clone(),
        }
    } else {
        ChannelDecision {
            accept: true,
            pending_chan_id,
            zero_conf: confs == 0,
            min_accept_depth: confs as u32,
            error_message: empty_message.clone(),
        }
    }
}

/// A peer whose whitelist entry is negative is denied outright.
pub proof fn lemma_negative_entry_denied(w: Map<Seq<char>, i8>, id: Seq<char>, pending: Seq<u8>)
    requires
        w.contains_key(id),
        w[id] < 0,
    ensures
        !spec_decide(spec_confs_for(w, id), pending).accept,
        !spec_decide(spec_confs_for(w, id), pending).zero_conf,
        spec_decide(spec_confs_for(w, id), pending).min_accept_depth == 0,
{
}

/// A peer whose whitelist entry is exactly zero gets a zero-conf accept.
pub proof fn lemma_zero_entry_zero_conf(w: Map<Seq<char>, i8>, id: Seq<char>, pending: Seq<u8>)
    requires
        w.contains_key(id),
        w[id] == 0,
    ensures
        spec_decide(spec_confs_for(w, id), pending).accept,
        spec_decide(spec_confs_for(w, id), pending).zero_conf,
        spec_decide(spec_confs_for(w, id), pending).min_accept_depth == 0,
{
}

/// A peer whose whitelist entry is positive is accepted without zero-conf,
/// at exactly the configured depth.
pub proof fn lemma_positive_entry_depth(w: Map<Seq<char>, i8>, id: Seq<char>, pending: Seq<u8>)
    requires
        w.contains_key(id),
        w[id] > 0,
    ensures
        spec_decide(spec_confs_for(w, id), pending).accept,
        !spec_decide(spec_confs_for(w, id), pending).zero_conf,
        spec_decide(spec_confs_for(w, id), pending).min_accept_depth == w[id],
{
}

/// A peer the whitelist does not name is accepted without zero-conf at the
/// default confirmation depth.
pub proof fn lemma_unknown_peer_default(w: Map<Seq<char>, i8>, id: Seq<char>, pending: Seq<u8>)
    requires
        !w.contains_key(id),
    ensures
        spec_decide(spec_confs_for(w, id), pending).accept,
        !spec_decide(spec_confs_for(w, id), pending).zero_conf,
        spec_decide(spec_confs_for(w, id), pending).min_accept_depth == DEFAULT_UNKNOWN_CONFS,
{
}

/// The engine is deterministic: two decisions pinned to the same whitelist,
/// identity and pending channel id are equal.
pub proof fn lemma_decide_deterministic(
    d1: DecisionView,
    d2: DecisionView,
    w: Map<Seq<char>, i8>,
    id: Seq<char>,
    pending: Seq<u8>,
)
    requires
        d1 == spec_decide(spec_confs_for(w, id), pending),
        d2 == spec_decide(spec_confs_for(w, id), pending),
    ensures
        d1 == d2,
{
}

} // verus!
