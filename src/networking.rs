//! The registry of known peers and the targets of gossip.

use crate::utils::{contains_str, has_substring};
use vstd::prelude::*;
use vstd::string::*;

verus! {

/// The set of peer base endpoints known to this node, together with the
/// node's own resolved address, which is never admitted by registration.
pub struct PeerRegistry {
    peers: Vec<String>,
    self_address: String,
}

/// The characters of each string, in order.
pub open spec fn views(v: Seq<String>) -> Seq<Seq<char>> {
    v.map_values(|s: String| s@)
}

/// `targets` is `base` with `suffix` appended to each element.
pub open spec fn with_suffix(targets: Seq<Seq<char>>, base: Seq<Seq<char>>, suffix: Seq<char>) -> bool {
    &&& targets.len() == base.len()
    &&& forall|i: int| 0 <= i < base.len() ==> #[trigger] targets[i] == base[i] + suffix
}

/// `peer` would be refused as the node itself: its text contains the node's
/// own address.
pub open spec fn is_self(self_address: Seq<char>, peer: Seq<char>) -> bool {
    has_substring(peer, self_address)
}

proof fn lemma_views_push(v: Seq<String>, s: String)
    ensures
        views(v.push(s)) == views(v).push(s@),
{
    assert(views(v.push(s)) =~= views(v).push(s@));
}

impl PeerRegistry {
    /// The known peers, in the registry's internal order.
    pub closed spec fn peer_seq(&self) -> Seq<Seq<char>> {
        views(self.peers@)
    }

    /// The known peers.
    pub open spec fn peer_set(&self) -> Set<Seq<char>> {
        self.peer_seq().to_set()
    }

    /// The node's own resolved address.
    pub closed spec fn self_address(&self) -> Seq<char> {
        self.self_address@
    }

    /// No peer is stored twice.
    pub open spec fn wf(&self) -> bool {
        self.peer_seq().no_duplicates()
    }

    /// An empty registry for a node whose resolved address is `self_address`.
    pub fn new(self_address: String) -> (r: PeerRegistry)
        ensures
            r.wf(),
            r.peer_seq() == Seq::<Seq<char>>::empty(),
            r.self_address() == self_address@,
    {
        let r = PeerRegistry { peers: Vec::new(), self_address };
        assert(r.peer_seq() =~= Seq::<Seq<char>>::empty());
        r
    }

    /// A registry holding the persisted peers `initial`, duplicates dropped.
    pub fn with_peers(self_address: String, initial: Vec<String>) -> (r: PeerRegistry)
        ensures
            r.wf(),
            r.peer_set() == views(initial@).to_set(),
            r.self_address() == self_address@,
    {
        let mut r = PeerRegistry::new(self_address);
        let mut i: usize = 0;
        while i < initial.len()
            invariant
                r.wf(),
                r.self_address() == self_address@,
                i <= initial@.len(),
                r.peer_set() == views(initial@.subrange(0, i as int)).to_set(),
            decreases initial@.len() - i,
        {
            let p = initial[i].clone();
            r.insert(p);
            proof {
                assert(initial@.subrange(0, i + 1) =~= initial@.subrange(0, i as int).push(
                    initial@[i as int],
                ));
                lemma_views_push(initial@.subrange(0, i as int), initial@[i as int]);
                views(initial@.subrange(0, i as int)).lemma_push_to_set_commute(initial@[i as int]@);
                assert(views(initial@.subrange(0, i + 1)).to_set() =~= views(
                    initial@.subrange(0, i as int),
                ).to_set().insert(initial@[i as int]@));
            }
            i = i + 1;
        }
        assert(initial@.subrange(0, i as int) =~= initial@);
        r
    }

    /// Tells whether `peer` is stored.
    fn holds(&self, peer: &String) -> (r: bool)
        ensures
            r == self.peer_set().contains(peer@),
    {
        let mut i: usize = 0;
        while i < self.peers.len()
            invariant
                i <= self.peers@.len(),
                forall|j: int| 0 <= j < i ==> self.peers@[j]@ != peer@,
            decreases self.peers@.len() - i,
        {
            if self.peers[i] == *peer {
                assert(self.peer_seq()[i as int] == peer@);
                return true;
            }
            i = i + 1;
        }
        assert(!self.peer_seq().contains(peer@));
        false
    }

    /// Stores `peer` unless it is already there; reports whether it was new.
    fn insert(&mut self, peer: String) -> (added: bool)
        requires
            old(self).wf(),
        ensures
            final(self).wf(),
            added == !old(self).peer_set().contains(peer@),
            final(self).peer_set() == old(self).peer_set().insert(peer@),
            final(self).self_address() == old(self).self_address(),
    {
        if self.holds(&peer) {
            assert(self.peer_set().insert(peer@) =~= self.peer_set());
            return false;
        }
        let ghost before = self.peers@;
        self.peers.push(peer);
        proof {
            lemma_views_push(before, peer);
            assert(self.peer_seq() == views(before).push(peer@));
            views(before).lemma_push_to_set_commute(peer@);
            assert(self.peer_set() =~= old(self).peer_set().insert(peer@));
        }
        true
    }
}

/// Adds `peer_url` to the registry unless it names the node itself.
pub fn add_peer(registry: &mut PeerRegistry, peer_url: &str)
    requires
        old(registry).wf(),
    ensures
        final(registry).wf(),
        final(registry).self_address() == old(registry).self_address(),
        final(registry).peer_set() == if is_self(old(registry).self_address(), peer_url@) {
            old(registry).peer_set()
        } else {
            old(registry).peer_set().insert(peer_url@)
        },
{
    register_peer(registry, String::from_str(peer_url));
}

/// Registers `peer`: refused when its text contains the node's own address,
/// otherwise stored. Returns whether the registry gained a peer; the caller
/// then persists the set and announces the newcomer.
pub fn register_peer(registry: &mut PeerRegistry, peer: String) -> (added: bool)
    requires
        old(registry).wf(),
    ensures
        final(registry).wf(),
        final(registry).self_address() == old(registry).self_address(),
        added == (!is_self(old(registry).self_address(), peer@) && !old(
            registry,
        ).peer_set().contains(peer@)),
        final(registry).peer_set() == if is_self(old(registry).self_address(), peer@) {
            old(registry).peer_set()
        } else {
            old(registry).peer_set().insert(peer@)
        },
{
    if contains_str(peer.as_str(), registry.self_address.as_str()) {
        return false;
    }
    registry.insert(peer)
}

/// A snapshot of the known peers.
pub fn get_peers(registry: &PeerRegistry) -> (r: Vec<String>)
    ensures
        views(r@) == registry.peer_seq(),
{
    let mut r: Vec<String> = Vec::new();
    let mut i: usize = 0;
    while i < registry.peers.len()
        invariant
            i <= registry.peers@.len(),
            views(r@) == views(registry.peers@.subrange(0, i as int)),
        decreases registry.peers@.len() - i,
    {
        let ghost before = r@;
        r.push(registry.peers[i].clone());
        proof {
            lemma_views_push(before, registry.peers@[i as int]);
            lemma_views_push(registry.peers@.subrange(0, i as int), registry.peers@[i as int]);
            assert(registry.peers@.subrange(0, i + 1) =~= registry.peers@.subrange(
                0,
                i as int,
            ).push(registry.peers@[i as int]));
        }
        i = i + 1;
    }
    assert(registry.peers@.subrange(0, i as int) =~= registry.peers@);
    r
}

/// The URL of `peer` followed by `suffix`.
fn endpoint(peer: &String, suffix: &str) -> (r: String)
    ensures
        r@ == peer@ + suffix@,
{
    let mut u = peer.clone();
    u.append(suffix);
    u
}

/// The URLs to which a new block is posted: every known peer's `/block`.
pub fn block_targets(registry: &PeerRegistry) -> (r: Vec<String>)
    ensures
        with_suffix(views(r@), registry.peer_seq(), seq!['/', 'b', 'l', 'o', 'c', 'k']),
{
    proof {
        reveal_strlit("/block");
    }
    let mut r: Vec<String> = Vec::new();
    let mut i: usize = 0;
    while i < registry.peers.len()
        invariant
            "/block"@ == seq!['/', 'b', 'l', 'o', 'c', 'k'],
            i <= registry.peers@.len(),
            with_suffix(
                views(r@),
                views(registry.peers@.subrange(0, i as int)),
                seq!['/', 'b', 'l', 'o', 'c', 'k'],
            ),
        decreases registry.peers@.len() - i,
    {
        let ghost before = r@;
        r.push(endpoint(&registry.peers[i], "/block"));
        proof {
            lemma_views_push(before, r@.last());
            assert(r@ == before.push(r@.last()));
            lemma_views_push(registry.peers@.subrange(0, i as int), registry.peers@[i as int]);
            assert(registry.peers@.subrange(0, i + 1) =~= registry.peers@.subrange(
                0,
                i as int,
            ).push(registry.peers@[i as int]));
        }
        i = i + 1;
    }
    assert(registry.peers@.subrange(0, i as int) =~= registry.peers@);
    r
}

/// The URLs to which the arrival of `peer` is announced: the `/add_peer` of
/// every other known peer, in the registry's order.
pub fn announce_targets(registry: &PeerRegistry, peer: &str) -> (r: Vec<String>)
    ensures
        with_suffix(
            views(r@),
            registry.peer_seq().filter(|p: Seq<char>| p != peer@),
            seq!['/', 'a', 'd', 'd', '_', 'p', 'e', 'e', 'r'],
        ),
{
    proof {
        reveal_strlit("/add_peer");
    }
    let newcomer = String::from_str(peer);
    let ghost keep = |p: Seq<char>| p != peer@;
    let ghost suffix = seq!['/', 'a', 'd', 'd', '_', 'p', 'e', 'e', 'r'];
    let mut r: Vec<String> = Vec::new();
    let mut i: usize = 0;
    while i < registry.peers.len()
        invariant
            "/add_peer"@ == suffix,
            newcomer@ == peer@,
            keep == (|p: Seq<char>| p != peer@),
            i <= registry.peers@.len(),
            with_suffix(views(r@), views(registry.peers@.subrange(0, i as int)).filter(keep), suffix),
        decreases registry.peers@.len() - i,
    {
        let ghost before = r@;
        let ghost prefix = views(registry.peers@.subrange(0, i as int));
        proof {
            lemma_views_push(registry.peers@.subrange(0, i as int), registry.peers@[i as int]);
            assert(registry.peers@.subrange(0, i + 1) =~= registry.peers@.subrange(
                0,
                i as int,
            ).push(registry.peers@[i as int]));
            prefix.lemma_filter_push(registry.peers@[i as int]@, keep);
        }
        if registry.peers[i] != newcomer {
            r.push(endpoint(&registry.peers[i], "/add_peer"));
            proof {
                lemma_views_push(before, r@.last());
                assert(r@ == before.push(r@.last()));
            }
        }
        i = i + 1;
    }
    assert(registry.peers@.subrange(0, i as int) =~= registry.peers@);
    r
}

} // verus!
