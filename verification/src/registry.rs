//! The closed roster of stations.
//!
//! A station is known by the address its connection comes from. The roster
//! is fixed when the hub is configured; a station's place in it is its
//! identifier, and the order of the roster is the order of every export.

use vstd::prelude::*;

verus! {

/// A station of the roster, by its place in it.
#[derive(Clone, Copy, Debug, PartialEq, Eq, Structural)]
pub struct StationId {
    pub index: usize,
}

/// Whether `station` is the answer for `peer` on `roster`: the place where
/// `peer` stands, or nothing where it stands nowhere.
pub open spec fn classified(roster: Seq<u32>, peer: u32, station: Option<StationId>) -> bool {
    match station {
        Some(id) => id.index < roster.len() && roster[id.index as int] == peer,
        None => !roster.contains(peer),
    }
}

/// On a roster without repetition every peer has one answer.
pub proof fn lemma_classified_unique(
    roster: Seq<u32>,
    peer: u32,
    first: Option<StationId>,
    second: Option<StationId>,
)
    requires
        roster.no_duplicates(),
        classified(roster, peer, first),
        classified(roster, peer, second),
    ensures
        first == second,
{
    match (first, second) {
        (Some(a), Some(b)) => {
            assert(a.index == b.index);
        },
        (Some(a), None) => {
            assert(roster.contains(roster[a.index as int]));
        },
        (None, Some(b)) => {
            assert(roster.contains(roster[b.index as int]));
        },
        (None, None) => {},
    }
}

/// The roster: the peer address of each station, as a big-endian IPv4
/// address in one integer. No address stands in it twice.
pub struct Registry {
    peers: Vec<u32>,
}

impl View for Registry {
    type V = Seq<u32>;

    closed spec fn view(&self) -> Seq<u32> {
        self.peers@
    }
}

impl Registry {
    #[verifier::type_invariant]
    spec fn distinct(self) -> bool {
        self.peers@.no_duplicates()
    }

    /// Makes the roster of `peers`, in their order. An address that stands
    /// twice in `peers` would leave a station without connections of its
    /// own: such a list is refused.
    pub fn new(peers: Vec<u32>) -> (registry: Option<Registry>)
        ensures
            registry.is_some() <==> peers@.no_duplicates(),
            registry matches Some(r) ==> r@ == peers@,
    {
        let mut i: usize = 0;
        while i < peers.len()
            invariant
                i <= peers.len(),
                forall|a: int, b: int| 0 <= a < b < i ==> peers@[a] != peers@[b],
            decreases peers.len() - i,
        {
            let mut j: usize = 0;
            while j < i
                invariant
                    j <= i < peers.len(),
                    forall|a: int| 0 <= a < j ==> peers@[a] != peers@[i as int],
                decreases i - j,
            {
                if peers[j] == peers[i] {
                    return None;
                }
                j += 1;
            }
            i += 1;
        }
        Some(Registry { peers })
    }

    /// The number of stations. No address stands twice among theirs.
    pub fn len(&self) -> (count: usize)
        ensures
            count == self@.len(),
            self@.no_duplicates(),
    {
        proof {
            use_type_invariant(self);
        }
        self.peers.len()
    }

    /// The peer address of `station`, where the roster has such a station.
    pub fn peer_of(&self, station: StationId) -> (peer: Option<u32>)
        ensures
            peer == if station.index < self@.len() {
                Some(self@[station.index as int])
            } else {
                None
            },
    {
        if station.index < self.peers.len() {
            Some(self.peers[station.index])
        } else {
            None
        }
    }

    /// The station that connects from `peer`, or nothing where `peer` is
    /// not on the roster. As no address stands twice in a roster, no other
    /// answer is right.
    pub fn classify(&self, peer: u32) -> (station: Option<StationId>)
        ensures
            classified(self@, peer, station),
            self@.no_duplicates(),
    {
        proof {
            use_type_invariant(self);
        }
        let mut i: usize = 0;
        while i < self.peers.len()
            invariant
                i <= self.peers.len(),
                self.peers@.no_duplicates(),
                forall|a: int| 0 <= a < i ==> self.peers@[a] != peer,
            decreases self.peers.len() - i,
        {
            if self.peers[i] == peer {
                return Some(StationId { index: i });
            }
            i += 1;
        }
        None
    }
}

} // verus!
