//! The chain of segments as a whole: what the walk of one step does to it,
//! said directly, and what it means for the chain to hang together.

use vstd::prelude::*;
use crate::engine::{advanced, follow, walk, Carried};
use crate::snake::{lookup, BodySnake};
use crate::vector::Point;

verus! {

/// No identifier occurs twice.
pub open spec fn distinct(tail: Seq<usize>) -> bool {
    forall|i: int, j: int| 0 <= i < j < tail.len() ==> tail[i] != tail[j]
}

/// What the `n`-th segment of the chain is handed in a step: the place and
/// the direction that the nearest segment before it had, one that is still
/// there; those of the head, `start`, where there is none.
pub open spec fn source(
    bodies: Seq<Option<BodySnake>>,
    tail: Seq<usize>,
    start: Carried,
    n: nat,
) -> Carried
    decreases n,
{
    if n == 0 {
        start
    } else {
        match lookup(bodies, tail[n - 1]) {
            Some(b) => Carried { position: b.position, direction: b.direction },
            None => source(bodies, tail, start, (n - 1) as nat),
        }
    }
}

/// Follow the leader. Where no identifier occurs twice, the walk leaves every
/// segment of the chain with what the nearest segment before it had; it
/// removes and adds no segment, and touches none outside the chain.
pub proof fn lemma_walk_follows_leader(
    bodies: Seq<Option<BodySnake>>,
    tail: Seq<usize>,
    start: Carried,
    n: nat,
)
    requires
        n <= tail.len(),
        distinct(tail),
    ensures
        walk(bodies, tail, start, n).bodies.len() == bodies.len(),
        walk(bodies, tail, start, n).carried == source(bodies, tail, start, n),
        forall|i: int|
            0 <= i < n ==> #[trigger] lookup(walk(bodies, tail, start, n).bodies, tail[i])
                == match lookup(bodies, tail[i]) {
                Some(b) => Some(
                    follow(b, source(bodies, tail, start, i as nat), i + 1 == tail.len()),
                ),
                None => None,
            },
        forall|i: int|
            n <= i < tail.len() ==> #[trigger] lookup(
                walk(bodies, tail, start, n).bodies,
                tail[i],
            ) == lookup(bodies, tail[i]),
        forall|k: usize|
            !tail.contains(k) ==> #[trigger] lookup(walk(bodies, tail, start, n).bodies, k)
                == lookup(bodies, k),
    decreases n,
{
    if n > 0 {
        lemma_walk_follows_leader(bodies, tail, start, (n - 1) as nat);
        let before = walk(bodies, tail, start, (n - 1) as nat);
        let after = walk(bodies, tail, start, n);
        let id = tail[n - 1];
        assert(lookup(before.bodies, id) == lookup(bodies, id));
        assert(tail.contains(id));
        match lookup(before.bodies, id) {
            Some(segment) => {
                assert forall|i: int| 0 <= i < n implies #[trigger] lookup(after.bodies, tail[i])
                    == match lookup(bodies, tail[i]) {
                    Some(b) => Some(
                        follow(b, source(bodies, tail, start, i as nat), i + 1 == tail.len()),
                    ),
                    None => None,
                } by {
                    if i < n - 1 {
                        assert(tail[i] != id);
                        assert(lookup(after.bodies, tail[i]) == lookup(before.bodies, tail[i]));
                    }
                }
                assert forall|i: int| n <= i < tail.len() implies #[trigger] lookup(
                    after.bodies,
                    tail[i],
                ) == lookup(bodies, tail[i]) by {
                    assert(tail[i] != id);
                    assert(lookup(after.bodies, tail[i]) == lookup(before.bodies, tail[i]));
                }
                assert forall|k: usize| !tail.contains(k) implies #[trigger] lookup(
                    after.bodies,
                    k,
                ) == lookup(bodies, k) by {
                    assert(k != id);
                    assert(lookup(after.bodies, k) == lookup(before.bodies, k));
                }
            },
            None => {},
        }
    }
}

/// The segment that the `i`-th identifier of the chain finds.
pub open spec fn segment(bodies: Seq<Option<BodySnake>>, tail: Seq<usize>, i: int) -> BodySnake {
    lookup(bodies, tail[i]).unwrap()
}

/// Every identifier of the chain finds a segment, and none occurs twice.
pub open spec fn resolves(bodies: Seq<Option<BodySnake>>, tail: Seq<usize>) -> bool {
    &&& distinct(tail)
    &&& forall|i: int| 0 <= i < tail.len() ==> (#[trigger] lookup(bodies, tail[i])) is Some
}

/// What lies before the `i`-th segment: the segment before it, or the head.
pub open spec fn leader(
    head: Point,
    bodies: Seq<Option<BodySnake>>,
    tail: Seq<usize>,
    i: int,
) -> Point {
    if i == 0 {
        head
    } else {
        segment(bodies, tail, i - 1).position@
    }
}

/// The chain hangs together: each segment is one cell behind what lies
/// before it, against its own direction.
pub open spec fn linked(
    head: Point,
    bodies: Seq<Option<BodySnake>>,
    tail: Seq<usize>,
    unit: int,
) -> bool {
    &&& resolves(bodies, tail)
    &&& forall|i: int|
        0 <= i < tail.len() ==> advanced(
            (#[trigger] segment(bodies, tail, i)).position@,
            segment(bodies, tail, i).direction,
            unit,
        ) == leader(head, bodies, tail, i)
}

/// In a chain whose identifiers all find a segment, each segment is handed
/// what the one just before it had, and the first what the head had.
pub proof fn lemma_source_of_whole_chain(
    bodies: Seq<Option<BodySnake>>,
    tail: Seq<usize>,
    start: Carried,
    i: int,
)
    requires
        resolves(bodies, tail),
        0 <= i <= tail.len(),
    ensures
        source(bodies, tail, start, i as nat) == if i == 0 {
            start
        } else {
            Carried {
                position: segment(bodies, tail, i - 1).position,
                direction: segment(bodies, tail, i - 1).direction,
            }
        },
{
    if i > 0 {
        assert(lookup(bodies, tail[i - 1]) is Some);
    }
}

} // verus!
