//! The peer directory: which session identity holds which numeric id in the
//! current room, in both directions.

use vstd::prelude::*;
use vstd::utf8::*;
use crate::codec::same_bytes;
use crate::protocol::{PeerInfo, duplicate_peers, peers_view};

verus! {

/// The identity listed with numeric id `n`; the last such entry wins.
pub open spec fn identity_of(peers: Seq<(Seq<char>, u32)>, n: u32) -> Option<Seq<char>>
    decreases peers.len(),
{
    if peers.len() == 0 {
        None
    } else if peers.last().1 == n {
        Some(peers.last().0)
    } else {
        identity_of(peers.drop_last(), n)
    }
}

/// The numeric id listed with identity `id`; the last such entry wins.
pub open spec fn numeric_of(peers: Seq<(Seq<char>, u32)>, id: Seq<char>) -> Option<u32>
    decreases peers.len(),
{
    if peers.len() == 0 {
        None
    } else if peers.last().0 == id {
        Some(peers.last().1)
    } else {
        numeric_of(peers.drop_last(), id)
    }
}

/// No numeric id and no identity is listed twice.
pub open spec fn distinct_members(peers: Seq<(Seq<char>, u32)>) -> bool {
    forall|i: int, j: int|
        0 <= i < peers.len() && 0 <= j < peers.len() && i != j ==> peers[i].0 != peers[j].0
            && peers[i].1 != peers[j].1
}

/// Whether two strings hold the same characters, compared byte by byte.
pub fn same_text(a: &str, b: &str) -> (r: bool)
    ensures
        r == (a@ == b@),
{
    proof {
        encode_utf8_decode_utf8(a@);
        encode_utf8_decode_utf8(b@);
    }
    same_bytes(a.as_bytes(), b.as_bytes())
}

/// Maps numeric peer ids to session identities and back, for the room as
/// the relay last listed it.
pub struct PeerDirectory {
    peers: Vec<PeerInfo>,
}

impl View for PeerDirectory {
    type V = Seq<(Seq<char>, u32)>;

    closed spec fn view(&self) -> Seq<(Seq<char>, u32)> {
        peers_view(self.peers@)
    }
}

impl PeerDirectory {
    /// A directory with no members.
    pub fn new() -> (r: PeerDirectory)
        ensures
            r@ == Seq::<(Seq<char>, u32)>::empty(),
    {
        let r = PeerDirectory { peers: Vec::new() };
        assert(r@ =~= Seq::<(Seq<char>, u32)>::empty());
        r
    }

    /// Replaces every entry by the members of `peer_list`.
    pub fn rebuild(&mut self, peer_list: &Vec<PeerInfo>)
        ensures
            final(self)@ == peers_view(peer_list@),
    {
        self.peers = duplicate_peers(peer_list);
    }

    /// Drops every entry.
    pub fn clear(&mut self)
        ensures
            final(self)@ == Seq::<(Seq<char>, u32)>::empty(),
    {
        self.peers = Vec::new();
        assert(self@ =~= Seq::<(Seq<char>, u32)>::empty());
    }

    /// The identity that holds `numeric_id`, if a member does.
    pub fn resolve_to_identity(&self, numeric_id: u32) -> (r: Option<String>)
        ensures
            match r {
                Some(s) => identity_of(self@, numeric_id) == Some(s@),
                None => identity_of(self@, numeric_id) is None,
            },
    {
        let mut i: usize = self.peers.len();
        proof {
            assert(self.peers@.subrange(0, i as int) == self.peers@);
        }
        while i > 0
            invariant
                i <= self.peers@.len(),
                identity_of(self@, numeric_id) == identity_of(
                    peers_view(self.peers@.subrange(0, i as int)),
                    numeric_id,
                ),
            decreases i,
        {
            let ghost v = peers_view(self.peers@.subrange(0, i as int));
            assert(v.drop_last() == peers_view(self.peers@.subrange(0, i - 1)));
            if self.peers[i - 1].numeric_id == numeric_id {
                return Some(self.peers[i - 1].online_id.clone());
            }
            i -= 1;
        }
        assert(peers_view(self.peers@.subrange(0, 0)) =~= Seq::<(Seq<char>, u32)>::empty());
        None
    }

    /// The numeric id that `online_id` holds, if it is a member.
    pub fn resolve_to_numeric(&self, online_id: &str) -> (r: Option<u32>)
        ensures
            r == numeric_of(self@, online_id@),
    {
        let mut i: usize = self.peers.len();
        proof {
            assert(self.peers@.subrange(0, i as int) == self.peers@);
        }
        while i > 0
            invariant
                i <= self.peers@.len(),
                numeric_of(self@, online_id@) == numeric_of(
                    peers_view(self.peers@.subrange(0, i as int)),
                    online_id@,
                ),
            decreases i,
        {
            let ghost v = peers_view(self.peers@.subrange(0, i as int));
            assert(v.drop_last() == peers_view(self.peers@.subrange(0, i - 1)));
            if same_text(self.peers[i - 1].online_id.as_str(), online_id) {
                return Some(self.peers[i - 1].numeric_id);
            }
            i -= 1;
        }
        assert(peers_view(self.peers@.subrange(0, 0)) =~= Seq::<(Seq<char>, u32)>::empty());
        None
    }
}

/// Every listed entry is found by the lookups, when no later entry shadows it.
proof fn lemma_lookup_member(peers: Seq<(Seq<char>, u32)>, k: int)
    requires
        distinct_members(peers),
        0 <= k < peers.len(),
    ensures
        identity_of(peers, peers[k].1) == Some(peers[k].0),
        numeric_of(peers, peers[k].0) == Some(peers[k].1),
    decreases peers.len(),
{
    if k != peers.len() - 1 {
        let init = peers.drop_last();
        assert(peers.last() == peers[peers.len() - 1]);
        assert(distinct_members(init)) by {
            assert forall|i: int, j: int|
                0 <= i < init.len() && 0 <= j < init.len() && i != j implies init[i].0
                != init[j].0 && init[i].1 != init[j].1 by {
                assert(init[i] == peers[i] && init[j] == peers[j]);
            }
        }
        lemma_lookup_member(init, k);
        assert(init[k] == peers[k]);
    }
}

/// What the lookups find is listed.
proof fn lemma_lookup_listed(peers: Seq<(Seq<char>, u32)>, n: u32, id: Seq<char>)
    ensures
        identity_of(peers, n) == Some(id) ==> peers.contains((id, n)),
        numeric_of(peers, id) == Some(n) ==> peers.contains((id, n)),
    decreases peers.len(),
{
    if peers.len() > 0 {
        let init = peers.drop_last();
        lemma_lookup_listed(init, n, id);
        if init.contains((id, n)) {
            let k = choose|k: int| 0 <= k < init.len() && init[k] == (id, n);
            assert(peers[k] == (id, n));
        }
        assert(peers[peers.len() - 1] == peers.last());
    }
}

/// Once rebuilt from a list whose members are distinct, the directory's two
/// lookups are inverse to each other on exactly the listed members: numeric
/// id `n` resolves to identity `id`, and `id` to `n`, exactly when `(id, n)`
/// is listed; anything not listed stays unresolved.
pub proof fn lemma_directory_consistent(peers: Seq<(Seq<char>, u32)>)
    requires
        distinct_members(peers),
    ensures
        forall|id: Seq<char>, n: u32|
            #![trigger identity_of(peers, n), numeric_of(peers, id)]
            (identity_of(peers, n) == Some(id) <==> peers.contains((id, n))) && (numeric_of(
                peers,
                id,
            ) == Some(n) <==> peers.contains((id, n))),
{
    assert forall|id: Seq<char>, n: u32|
        #![trigger identity_of(peers, n), numeric_of(peers, id)]
        (identity_of(peers, n) == Some(id) <==> peers.contains((id, n))) && (numeric_of(
            peers,
            id,
        ) == Some(n) <==> peers.contains((id, n))) by {
        lemma_lookup_listed(peers, n, id);
        if peers.contains((id, n)) {
            let k = choose|k: int| 0 <= k < peers.len() && peers[k] == (id, n);
            lemma_lookup_member(peers, k);
        }
    }
}

} // verus!
