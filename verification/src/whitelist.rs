//! The per-peer whitelist: an immutable mapping from canonical peer identity
//! (lower-case hex of the compressed public key) to the signed confirmation
//! policy. It is built once at session start from the ordered configuration
//! entries; a later entry for the same peer overwrites an earlier one.

use crate::config::ChannelAcceptanceParams;
use crate::text::str_eq;
use vstd::prelude::*;

verus! {

/// The view of one configured entry: canonical identity and policy value.
pub open spec fn entry_views(s: Seq<ChannelAcceptanceParams>) -> Seq<(Seq<char>, i8)> {
    s.map_values(|p: ChannelAcceptanceParams| (p.pubkey@, p.confs))
}

/// The mapping denoted by an ordered entry list: entries are inserted in
/// order, so a later entry for the same identity overwrites an earlier one.
pub open spec fn whitelist_map(entries: Seq<(Seq<char>, i8)>) -> Map<Seq<char>, i8>
    decreases entries.len(),
{
    if entries.len() == 0 {
        Map::empty()
    } else {
        whitelist_map(entries.drop_last()).insert(entries.last().0, entries.last().1)
    }
}

/// Immutable per-session whitelist. The entry list is fixed at construction;
/// lookups answer according to `whitelist_map` of the configured order.
#[derive(Clone)]
pub struct Whitelist {
    entries: Vec<ChannelAcceptanceParams>,
}

impl View for Whitelist {
    type V = Map<Seq<char>, i8>;

    closed spec fn view(&self) -> Map<Seq<char>, i8> {
        whitelist_map(entry_views(self.entries@))
    }
}

/// Extending the entry list by one entry inserts that entry's pair into the
/// denoted mapping.
proof fn lemma_whitelist_map_step(s: Seq<ChannelAcceptanceParams>, i: int)
    requires
        0 <= i < s.len(),
    ensures
        whitelist_map(entry_views(s.subrange(0, i + 1))) == whitelist_map(
            entry_views(s.subrange(0, i)),
        ).insert(s[i].pubkey@, s[i].confs),
{
    let t = entry_views(s.subrange(0, i + 1));
    assert(t.len() == i + 1);
    assert(t.drop_last() =~= entry_views(s.subrange(0, i)));
    assert(t.last() == (s[i].pubkey@, s[i].confs));
}

impl Whitelist {
    /// Build the whitelist from the ordered configuration entries.
    pub fn from_params(params: Vec<ChannelAcceptanceParams>) -> (w: Whitelist)
        ensures
            w@ == whitelist_map(entry_views(params@)),
    {
        Whitelist { entries: params }
    }

    /// Look up the configured confirmation policy of a canonical peer
    /// identity: the policy of its latest entry, or `None` if no entry names
    /// it.
    pub fn lookup(&self, peer_identity: &str) -> (r: Option<i8>)
        ensures
            match r {
                Some(c) => self@.contains_key(peer_identity@) && self@[peer_identity@] == c,
                None => !self@.contains_key(peer_identity@),
            },
    {
        let ghost full = entry_views(self.entries@);
        let ghost id = peer_identity@;
        let mut i: usize = self.entries.len();
        proof {
            assert(self.entries@.subrange(0, self.entries@.len() as int) =~= self.entries@);
        }
        while i > 0
            invariant
                i <= self.entries@.len(),
                whitelist_map(full).contains_key(id) == whitelist_map(
                    entry_views(self.entries@.subrange(0, i as int)),
                ).contains_key(id),
                whitelist_map(entry_views(self.entries@.subrange(0, i as int))).contains_key(id)
                    ==> whitelist_map(full)[id] == whitelist_map(
                    entry_views(self.entries@.subrange(0, i as int)),
                )[id],
                full == entry_views(self.entries@),
                id == peer_identity@,
            decreases i,
        {
            i -= 1;
            proof {
                lemma_whitelist_map_step(self.entries@, i as int);
            }
            let entry = &self.entries[i];
            if str_eq(entry.pubkey.as_str(), peer_identity) {
                return Some(entry.confs);
            }
        }
        proof {
            assert(entry_views(self.entries@.subrange(0, 0)) =~= Seq::<(Seq<char>, i8)>::empty());
        }
        None
    }
}

} // verus!
