//! Ranking of the candidates by the distance at which the pointer ray meets
//! them.

use vstd::prelude::*;

use crate::eventhandling::EntityId;

verus! {

/// Key of the largest distance: the bit pattern of positive infinity.
pub const MAX_DISTANCE_BITS: u32 = 0x7F80_0000;

/// A strictly positive distance along the pointer ray.
///
/// The distance is held by its key, the bit pattern of the IEEE 754
/// single-precision number that measures it. Among positive numbers the
/// patterns are ordered as the numbers are, and equal numbers have equal
/// patterns, so nothing but the key is needed to rank hits.
#[derive(Clone, Copy, Debug, PartialEq, Eq, Structural)]
pub struct Distance {
    bits: u32,
}

impl Distance {
    #[verifier::type_invariant]
    spec fn positive(self) -> bool {
        0 < self.bits <= MAX_DISTANCE_BITS
    }

    /// The key by which distances are ordered.
    pub closed spec fn key(self) -> nat {
        self.bits as nat
    }

    /// The distance with the given bit pattern, if the pattern is that of a
    /// strictly positive number: not a zero, not negative, not a NaN.
    pub fn from_bits(bits: u32) -> (distance: Option<Distance>)
        ensures
            distance is Some <==> 0 < bits <= MAX_DISTANCE_BITS,
            distance matches Some(d) ==> d.key() == bits,
    {
        if 0 < bits && bits <= MAX_DISTANCE_BITS {
            Some(Distance { bits })
        } else {
            None
        }
    }

    /// The bit pattern this distance was made from.
    pub fn bits(&self) -> (bits: u32)
        ensures
            bits == self.key(),
            0 < bits <= MAX_DISTANCE_BITS,
    {
        proof {
            use_type_invariant(self);
        }
        self.bits
    }

    /// Whether this distance is strictly shorter than `other`.
    pub fn closer_than(&self, other: &Distance) -> (closer: bool)
        ensures
            closer == (self.key() < other.key()),
    {
        self.bits < other.bits
    }
}

/// One hoverable object as seen in the current frame: its handle, its hover
/// handler, and where the pointer ray meets its bounding volume, if it does.
pub struct Candidate<H> {
    pub entity: EntityId,
    pub handler: H,
    pub distance: Option<Distance>,
}

impl<H> Candidate<H> {
    /// Whether the pointer ray meets this candidate.
    pub open spec fn is_hit(self) -> bool {
        self.distance is Some
    }

    /// The key of the distance at which the ray meets this candidate.
    pub open spec fn key(self) -> nat
        recommends
            self.is_hit(),
    {
        self.distance->0.key()
    }
}

/// Candidate `i` is the nearest hit: the ray meets it, meets no candidate at a
/// shorter distance, and meets every candidate before it at a strictly longer
/// one.
pub open spec fn is_nearest<H>(candidates: Seq<Candidate<H>>, i: int) -> bool {
    &&& 0 <= i < candidates.len()
    &&& candidates[i].is_hit()
    &&& forall|j: int|
        0 <= j < candidates.len() && #[trigger] candidates[j].is_hit() ==> candidates[i].key()
            <= candidates[j].key()
    &&& forall|j: int|
        0 <= j < i && #[trigger] candidates[j].is_hit() ==> candidates[i].key()
            < candidates[j].key()
}

/// The ray meets none of the candidates.
pub open spec fn no_hit<H>(candidates: Seq<Candidate<H>>) -> bool {
    forall|j: int| 0 <= j < candidates.len() ==> !#[trigger] candidates[j].is_hit()
}

/// Index of the nearest hit among `candidates`, if the ray meets any.
pub open spec fn nearest<H>(candidates: Seq<Candidate<H>>) -> Option<int> {
    if exists|i: int| is_nearest(candidates, i) {
        Some(choose|i: int| is_nearest(candidates, i))
    } else {
        None
    }
}

/// Handle of the nearest hit among `candidates`, if the ray meets any.
pub open spec fn nearest_entity<H>(candidates: Seq<Candidate<H>>) -> Option<EntityId> {
    match nearest(candidates) {
        Some(i) => Some(candidates[i].entity),
        None => None,
    }
}

/// At most one candidate is the nearest hit.
pub proof fn lemma_nearest_unique<H>(candidates: Seq<Candidate<H>>, i: int, j: int)
    requires
        is_nearest(candidates, i),
        is_nearest(candidates, j),
    ensures
        i == j,
{
}

/// Finds the nearest hit by one pass over the candidates, keeping the first of
/// those that are equally near.
pub fn nearest_hit<H>(candidates: &Vec<Candidate<H>>) -> (found: Option<usize>)
    ensures
        nearest(candidates@) == match found {
            Some(i) => Some(i as int),
            None => None::<int>,
        },
        found matches Some(i) ==> is_nearest(candidates@, i as int),
        found is None ==> no_hit(candidates@),
{
    let mut best: Option<(usize, Distance)> = None;
    let mut i: usize = 0;
    while i < candidates.len()
        invariant
            i <= candidates.len(),
            best matches Some((b, shortest)) ==> b < i && candidates@[b as int].distance == Some(
                shortest,
            ) && is_nearest(candidates@.take(i as int), b as int),
            best is None ==> no_hit(candidates@.take(i as int)),
        decreases candidates.len() - i,
    {
        let ghost seen = candidates@.take(i as int);
        let ghost next = candidates@.take(i + 1);
        assert(forall|j: int| 0 <= j < i ==> next[j] == seen[j]);
        if let Some(distance) = candidates[i].distance {
            let closer = match best {
                Some((_, shortest)) => distance.closer_than(&shortest),
                None => true,
            };
            if closer {
                best = Some((i, distance));
            }
        }
        i = i + 1;
    }
    assert(candidates@.take(i as int) =~= candidates@);
    match best {
        Some((b, _)) => {
            proof {
                lemma_nearest_determined(candidates@, b as int);
            }
            Some(b)
        },
        None => {
            assert forall|k: int| !is_nearest(candidates@, k) by {
                if 0 <= k < candidates@.len() {
                    assert(!candidates@[k].is_hit());
                }
            }
            None
        },
    }
}

/// If the ray meets any candidate, one of them is the nearest hit.
proof fn lemma_nearest_exists<H>(candidates: Seq<Candidate<H>>)
    requires
        !no_hit(candidates),
    ensures
        exists|i: int| is_nearest(candidates, i),
    decreases candidates.len(),
{
    let last = candidates.len() - 1;
    let front = candidates.drop_last();
    assert(forall|j: int| 0 <= j < last ==> front[j] == candidates[j]);
    if no_hit(front) {
        assert(candidates[last].is_hit());
        assert(is_nearest(candidates, last));
    } else {
        lemma_nearest_exists(front);
        let b = choose|i: int| is_nearest(front, i);
        if candidates[last].is_hit() && candidates[last].key() < candidates[b].key() {
            assert(is_nearest(candidates, last));
        } else {
            assert(is_nearest(candidates, b));
        }
    }
}

/// The nearest hit is a hit at the least distance of all hits, and the first
/// such; there is none exactly when the ray meets no candidate.
pub proof fn lemma_nearest_is_minimum<H>(candidates: Seq<Candidate<H>>)
    ensures
        match nearest(candidates) {
            Some(i) => is_nearest(candidates, i),
            None => no_hit(candidates),
        },
{
    if !no_hit(candidates) {
        lemma_nearest_exists(candidates);
    }
}

/// A candidate that satisfies the description of the nearest hit is the one
/// that is found.
pub proof fn lemma_nearest_determined<H>(candidates: Seq<Candidate<H>>, i: int)
    requires
        is_nearest(candidates, i),
    ensures
        nearest(candidates) == Some(i),
        nearest_entity(candidates) == Some(candidates[i].entity),
{
    lemma_nearest_unique(candidates, i, choose|k: int| is_nearest(candidates, k));
}

/// Of two candidates that the ray meets at the same distance, the later one
/// is never the nearest hit.
pub proof fn lemma_tie_goes_to_first<H>(candidates: Seq<Candidate<H>>, i: int, j: int)
    requires
        0 <= i < j < candidates.len(),
        candidates[i].is_hit(),
        candidates[j].is_hit(),
        candidates[i].key() == candidates[j].key(),
    ensures
        !is_nearest(candidates, j),
        nearest(candidates) != Some(j),
{
    lemma_nearest_is_minimum(candidates);
}

/// The nearest hit depends on nothing but the handles and distances of the
/// candidates, in their order: two lists that agree on these have the same
/// nearest hit, whatever their handlers are.
pub proof fn lemma_nearest_depends_on_hits<H, K>(a: Seq<Candidate<H>>, b: Seq<Candidate<K>>)
    requires
        a.len() == b.len(),
        forall|j: int|
            0 <= j < a.len() ==> (#[trigger] a[j]).entity == b[j].entity && a[j].distance
                == b[j].distance,
    ensures
        nearest(a) == nearest(b),
        nearest_entity(a) == nearest_entity(b),
{
    lemma_nearest_is_minimum(a);
    lemma_nearest_is_minimum(b);
    match nearest(a) {
        Some(i) => {
            assert forall|j: int| 0 <= j < b.len() && #[trigger] b[j].is_hit() implies b[i].key()
                <= b[j].key() by {
                assert(a[j].is_hit());
            }
            assert forall|j: int| 0 <= j < i && #[trigger] b[j].is_hit() implies b[i].key()
                < b[j].key() by {
                assert(a[j].is_hit());
            }
            assert(is_nearest(b, i));
            lemma_nearest_determined(b, i);
        },
        None => {
            assert forall|k: int| !is_nearest(b, k) by {
                if 0 <= k < b.len() {
                    assert(!a[k].is_hit());
                }
            }
        },
    }
}

} // verus!
