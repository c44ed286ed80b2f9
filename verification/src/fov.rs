//! The two field-of-view primitives: the unobstructed disc, which this
//! module computes, and the terrain-aware field of view, which the caller
//! supplies as a function.

use crate::geometry::{distance, hex_distance, lemma_positions_cover, MapPos, Size2};
use crate::state::GameState;
use vstd::prelude::*;

verus! {

/// The tiles of a map of the given size that lie within `range` hexes of
/// `origin`.
pub open spec fn disc(size: Size2, origin: MapPos, range: int) -> Set<MapPos> {
    Set::new(|pos: MapPos| size.spec_contains(pos) && hex_distance(origin, pos) <= range)
}

/// A filter keeps a sequence free of duplicates, and keeps exactly its
/// elements that pass.
proof fn lemma_filter_distinct<A>(s: Seq<A>, pred: spec_fn(A) -> bool)
    requires
        s.no_duplicates(),
    ensures
        s.filter(pred).no_duplicates(),
        forall|a: A| s.filter(pred).contains(a) <==> s.contains(a) && pred(a),
    decreases s.len(),
{
    reveal(Seq::filter);
    if s.len() > 0 {
        let head = s.drop_last();
        let kept = head.filter(pred);
        lemma_filter_distinct(head, pred);
        assert forall|a: A| s.contains(a) <==> head.contains(a) || a == s.last() by {
            if s.contains(a) {
                let i = s.index_of(a);
                if i < head.len() {
                    assert(head[i] == a);
                }
            }
            if head.contains(a) {
                assert(s[head.index_of(a)] == a);
            }
            if a == s.last() {
                assert(s[s.len() - 1] == a);
            }
        }
        assert(!head.contains(s.last())) by {
            if head.contains(s.last()) {
                assert(s[head.index_of(s.last())] == s[s.len() - 1]);
            }
        }
        if pred(s.last()) {
            assert forall|a: A| kept.push(s.last()).contains(a) <==> kept.contains(a) || a
                == s.last() by {
                kept.lemma_push_to_set_commute(s.last());
                assert(kept.push(s.last()).to_set().contains(a) <==> kept.to_set().insert(
                    s.last(),
                ).contains(a));
            }
        }
    }
}

/// The unobstructed field of view: every tile of the map within `range`
/// hexes of `origin`, each once, in row-major order.
pub fn simple_fov(state: &GameState, origin: MapPos, range: i32) -> (seen: Vec<MapPos>)
    requires
        state.wf(),
    ensures
        seen@ == state.size().spec_positions().filter(
            |pos: MapPos| hex_distance(origin, pos) <= range,
        ),
        seen@.no_duplicates(),
        seen@.to_set() == disc(state.size(), origin, range as int),
{
    let size = state.map().size();
    let positions = size.positions();
    let ghost in_range = |pos: MapPos| hex_distance(origin, pos) <= range;
    let mut seen: Vec<MapPos> = Vec::new();
    let mut i: usize = 0;
    while i < positions.len()
        invariant
            0 <= i <= positions@.len(),
            in_range == |pos: MapPos| hex_distance(origin, pos) <= range,
            seen@ == positions@.take(i as int).filter(in_range),
        decreases positions@.len() - i,
    {
        let pos = positions[i];
        proof {
            let earlier = positions@.take(i as int);
            assert(positions@.take(i + 1) =~= earlier.push(pos));
            earlier.lemma_filter_push(pos, in_range);
        }
        if distance(origin, pos) <= range as i64 {
            seen.push(pos);
        }
        i = i + 1;
    }
    proof {
        assert(positions@.take(i as int) =~= positions@);
        lemma_positions_cover(size);
        lemma_filter_distinct(positions@, in_range);
        assert forall|pos: MapPos| seen@.to_set().contains(pos) <==> disc(
            size,
            origin,
            range as int,
        ).contains(pos) by {
            assert(positions@.to_set().contains(pos) <==> size.tiles().contains(pos));
        }
    }
    seen
}

/// `los` describes the field of view `fov` in `state`: whatever `fov`
/// returns for an origin and a range holds exactly the tiles that `los`
/// gives for them.
pub open spec fn describes<F: Fn(&GameState, MapPos, i32) -> Vec<MapPos>>(
    fov: &F,
    state: &GameState,
    los: spec_fn(MapPos, i32) -> Set<MapPos>,
) -> bool {
    forall|origin: MapPos, range: i32, seen: Vec<MapPos>| #[trigger]
        fov.ensures((state, origin, range), seen) ==> seen@.to_set() == los(origin, range)
}

/// What the field of view `fov` sees in `state`, by origin and range: the
/// set of the tiles in a result of `fov`.
pub open spec fn sight_of<F: Fn(&GameState, MapPos, i32) -> Vec<MapPos>>(
    fov: &F,
    state: &GameState,
) -> spec_fn(MapPos, i32) -> Set<MapPos> {
    |origin: MapPos, range: i32|
        (choose|seen: Vec<MapPos>| fov.ensures((state, origin, range), seen))@.to_set()
}

/// `fov` can serve as the terrain-aware field of view in `state`: it can be
/// called with every origin and range, it returns tiles of the map only, and
/// what it sees is determined by the origin and the range, so that
/// `sight_of` describes it.
pub open spec fn is_fov_primitive<F: Fn(&GameState, MapPos, i32) -> Vec<MapPos>>(
    fov: &F,
    state: &GameState,
) -> bool {
    &&& forall|origin: MapPos, range: i32| fov.requires((state, origin, range))
    &&& forall|origin: MapPos, range: i32, seen: Vec<MapPos>| #[trigger]
        fov.ensures((state, origin, range), seen) ==> forall|i: int|
            0 <= i < seen@.len() ==> state.on_map(#[trigger] seen@[i])
    &&& describes(fov, state, sight_of(fov, state))
}

/// The unobstructed disc, by origin and range, on a map of the given size.
pub open spec fn disc_of(size: Size2) -> spec_fn(MapPos, i32) -> Set<MapPos> {
    |origin: MapPos, range: i32| disc(size, origin, range as int)
}

/// The unobstructed field of view can itself serve as the terrain-aware
/// one, as on a map where nothing blocks the sight. The disc describes it.
pub proof fn lemma_simple_fov_is_primitive(state: &GameState)
    requires
        state.wf(),
    ensures
        is_fov_primitive(&simple_fov, state),
        describes(&simple_fov, state, disc_of(state.size())),
{
    assert forall|origin: MapPos, range: i32, seen: Vec<MapPos>| #[trigger]
        simple_fov.ensures((state, origin, range), seen) implies {
        &&& forall|i: int| 0 <= i < seen@.len() ==> state.on_map(#[trigger] seen@[i])
        &&& seen@.to_set() == sight_of(&simple_fov, state)(origin, range)
    } by {
        assert forall|i: int| 0 <= i < seen@.len() implies state.on_map(#[trigger] seen@[i]) by {
            assert(seen@.to_set().contains(seen@[i]));
        }
    }
}

} // verus!
