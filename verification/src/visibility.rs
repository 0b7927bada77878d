//! Presentation-only field of view: sight spreads over walkable cells and reveals the
//! sight-blocking cells that border them.

use vstd::prelude::*;
use vstd::arithmetic::div_mod::{
    lemma_fundamental_div_mod, lemma_fundamental_div_mod_converse, lemma_mod_pos_bound,
    lemma_div_pos_is_pos,
};

use crate::geometry::Position;
use crate::world::{spec_tile_at, tile_index, ActorId, TileMap};

verus! {

/// Whether both coordinates of `q` can be held by a `Position`.
pub open spec fn in_coordinate_range(q: (int, int)) -> bool {
    0 <= q.0 <= i32::MAX && 0 <= q.1 <= i32::MAX
}

/// A cell that exists on the map and may be walked on.
pub open spec fn walkable_cell(map: TileMap, q: (int, int)) -> bool {
    &&& in_coordinate_range(q)
    &&& spec_tile_at(map, q.0, q.1) matches Some(t) && t.spec_is_walkable()
}

/// A cell that exists on the map and stops sight.
pub open spec fn sight_blocking_cell(map: TileMap, q: (int, int)) -> bool {
    &&& in_coordinate_range(q)
    &&& spec_tile_at(map, q.0, q.1) matches Some(t) && t.spec_blocks_sight()
}

/// Whether one of the four cardinal neighbours of `q` belongs to `s`.
pub open spec fn next_to(s: Set<(int, int)>, q: (int, int)) -> bool {
    ||| s.contains((q.0 - 1, q.1))
    ||| s.contains((q.0 + 1, q.1))
    ||| s.contains((q.0, q.1 - 1))
    ||| s.contains((q.0, q.1 + 1))
}

/// One cardinal step of sight: `s` together with every walkable cell next to it.
pub open spec fn sight_step(map: TileMap, s: Set<(int, int)>) -> Set<(int, int)> {
    s.union(Set::new(|q: (int, int)| walkable_cell(map, q) && next_to(s, q)))
}

/// The walkable cells reachable from `origin` in at most `steps` cardinal steps over walkable
/// cells.
pub open spec fn sight_reach(map: TileMap, origin: (int, int), steps: nat) -> Set<(int, int)>
    decreases steps,
{
    if steps == 0 {
        set![origin]
    } else {
        sight_step(map, sight_reach(map, origin, (steps - 1) as nat))
    }
}

/// The field of view of radius `radius` from `origin`: nothing when `origin` is not a walkable
/// cell; otherwise the reachable walkable cells and the sight-blocking cells next to them.
pub open spec fn spec_visible(map: TileMap, origin: (int, int), radius: nat) -> Set<(int, int)> {
    if !walkable_cell(map, origin) {
        Set::empty()
    } else {
        let seen = sight_reach(map, origin, radius);
        Set::new(|q: (int, int)| seen.contains(q) || (sight_blocking_cell(map, q) && next_to(seen, q)))
    }
}

/// Whether `a` comes strictly before `b` in row-major order.
pub open spec fn row_major_before(a: Position, b: Position) -> bool {
    a.y < b.y || (a.y == b.y && a.x < b.x)
}

/// Whether the list holds a position with the coordinates `q`.
pub open spec fn lists(s: Seq<Position>, q: (int, int)) -> bool {
    exists|j: int| 0 <= j < s.len() && #[trigger] s[j].x == q.0 && s[j].y == q.1
}

/// The coordinates of a position.
pub open spec fn coords(p: Position) -> (int, int) {
    (p.x as int, p.y as int)
}

/// The cell stored at row-major index `i` of a map `w` cells wide.
pub open spec fn cell_of(i: int, w: int) -> (int, int) {
    (i % w, i / w)
}

/// Whether the cell `q` is marked in a row-major flag vector of a map `w` cells wide.
pub open spec fn marked(flags: Seq<bool>, w: int, q: (int, int)) -> bool {
    flags[q.1 * w + q.0]
}

/// Every walkable neighbour of `p` is marked.
pub open spec fn neighbours_marked(map: TileMap, flags: Seq<bool>, p: (int, int)) -> bool {
    let w = map.width as int;
    &&& walkable_cell(map, (p.0 - 1, p.1)) ==> marked(flags, w, (p.0 - 1, p.1))
    &&& walkable_cell(map, (p.0 + 1, p.1)) ==> marked(flags, w, (p.0 + 1, p.1))
    &&& walkable_cell(map, (p.0, p.1 - 1)) ==> marked(flags, w, (p.0, p.1 - 1))
    &&& walkable_cell(map, (p.0, p.1 + 1)) ==> marked(flags, w, (p.0, p.1 + 1))
}

/// Flags agree with membership in `s` for every stored cell.
pub open spec fn flags_match(map: TileMap, flags: Seq<bool>, s: Set<(int, int)>) -> bool {
    &&& flags.len() == map.tiles@.len()
    &&& forall|i: int|
        0 <= i < flags.len() ==> (#[trigger] flags[i] <==> s.contains(cell_of(i, map.width as int)))
}

proof fn lemma_cell_of_index(x: int, y: int, w: int)
    requires
        0 <= x < w,
        0 <= y,
    ensures
        cell_of(y * w + x, w) == (x, y),
{
    lemma_fundamental_div_mod_converse(y * w + x, w, y, x);
}

proof fn lemma_index_of_cell(i: int, w: int)
    requires
        0 <= i,
        0 < w,
    ensures
        (i / w) * w + i % w == i,
        0 <= i % w < w,
        0 <= i / w,
{
    lemma_fundamental_div_mod(i, w);
    lemma_mod_pos_bound(i, w);
    lemma_div_pos_is_pos(i, w);
    assert(w * (i / w) == (i / w) * w) by (nonlinear_arith);
}

proof fn lemma_row_major_order(a: int, b: int, w: int)
    requires
        0 <= a < b,
        0 < w,
    ensures
        a / w < b / w || (a / w == b / w && a % w < b % w),
{
    lemma_index_of_cell(a, w);
    lemma_index_of_cell(b, w);
    let qa = a / w;
    let qb = b / w;
    if qa > qb {
        assert(qa * w >= (qb + 1) * w) by (nonlinear_arith)
            requires
                qa >= qb + 1,
                w > 0,
        ;
        assert((qb + 1) * w == qb * w + w) by (nonlinear_arith);
    }
}

/// A stored cell has index `y * w + x` and lies inside the map exactly when its row does.
proof fn lemma_stored_cell(map: TileMap, i: int)
    requires
        0 <= i < map.tiles@.len(),
        map.width > 0,
    ensures
        ({
            let c = cell_of(i, map.width as int);
            &&& c.1 * map.width + c.0 == i
            &&& 0 <= c.0 < map.width
            &&& 0 <= c.1
            &&& (spec_tile_at(map, c.0, c.1) is Some <==> c.1 < map.height)
            &&& (c.1 < map.height ==> spec_tile_at(map, c.0, c.1) == Some(map.tiles@[i]))
        }),
{
    lemma_index_of_cell(i, map.width as int);
}

/// An existing cell is stored at index `y * w + x`, and that index maps back to it.
proof fn lemma_cell_round_trip(map: TileMap, q: (int, int))
    requires
        spec_tile_at(map, q.0, q.1) is Some,
    ensures
        0 <= q.1 * map.width + q.0 < map.tiles@.len(),
        cell_of(q.1 * map.width + q.0, map.width as int) == q,
{
    lemma_cell_of_index(q.0, q.1, map.width as int);
    assert(0 <= q.1 * map.width) by (nonlinear_arith)
        requires
            0 <= q.1,
            0 <= map.width,
    ;
}

proof fn lemma_reach_is_walkable(map: TileMap, origin: (int, int), steps: nat)
    requires
        walkable_cell(map, origin),
    ensures
        forall|q: (int, int)| #[trigger] sight_reach(map, origin, steps).contains(q) ==> walkable_cell(map, q),
    decreases steps,
{
    if steps > 0 {
        let prev = sight_reach(map, origin, (steps - 1) as nat);
        lemma_reach_is_walkable(map, origin, (steps - 1) as nat);
        assert(sight_reach(map, origin, steps) == sight_step(map, prev));
        assert forall|q: (int, int)| #[trigger] sight_reach(map, origin, steps).contains(q) implies walkable_cell(map, q) by {
            if prev.contains(q) {
            }
        }
    }
}

proof fn lemma_reach_grows(map: TileMap, origin: (int, int), steps: nat)
    ensures
        sight_reach(map, origin, steps).subset_of(sight_reach(map, origin, steps + 1)),
{
}

proof fn lemma_reach_settles(map: TileMap, origin: (int, int), settled: nat, steps: nat)
    requires
        sight_reach(map, origin, settled + 1) == sight_reach(map, origin, settled),
        settled <= steps,
    ensures
        sight_reach(map, origin, steps) == sight_reach(map, origin, settled),
    decreases steps - settled,
{
    if steps > settled {
        lemma_reach_settles(map, origin, settled, (steps - 1) as nat);
        assert(sight_reach(map, origin, steps) == sight_step(
            map,
            sight_reach(map, origin, (steps - 1) as nat),
        ));
    }
}

proof fn lemma_reach_monotone(map: TileMap, origin: (int, int), s1: nat, s2: nat)
    requires
        s1 <= s2,
    ensures
        sight_reach(map, origin, s1).subset_of(sight_reach(map, origin, s2)),
    decreases s2 - s1,
{
    if s1 < s2 {
        lemma_reach_monotone(map, origin, s1, (s2 - 1) as nat);
        lemma_reach_grows(map, origin, (s2 - 1) as nat);
    }
}

/// The field of view grows with the radius: every cell seen with a radius is seen with any
/// larger one.
pub proof fn lemma_field_grows(map: TileMap, origin: Position, r1: nat, r2: nat)
    requires
        r1 <= r2,
    ensures
        spec_visible(map, coords(origin), r1).subset_of(spec_visible(map, coords(origin), r2)),
{
    let o = coords(origin);
    if walkable_cell(map, o) {
        lemma_reach_monotone(map, o, r1, r2);
        let a = sight_reach(map, o, r1);
        let b = sight_reach(map, o, r2);
        assert forall|q: (int, int)| spec_visible(map, o, r1).contains(q) implies spec_visible(map, o, r2).contains(q) by {
            if !a.contains(q) {
                if a.contains((q.0 - 1, q.1)) {
                    assert(b.contains((q.0 - 1, q.1)));
                } else if a.contains((q.0 + 1, q.1)) {
                    assert(b.contains((q.0 + 1, q.1)));
                } else if a.contains((q.0, q.1 - 1)) {
                    assert(b.contains((q.0, q.1 - 1)));
                } else {
                    assert(b.contains((q.0, q.1 + 1)));
                }
            }
        }
    }
}

/// The field of view is empty exactly when the origin is not a walkable map cell; otherwise it
/// holds the origin. Every cell in it is a cell of the map: walkable, or stopping sight.
pub proof fn lemma_field_cells(map: TileMap, origin: Position, radius: nat)
    ensures
        spec_visible(map, coords(origin), radius).contains(coords(origin)) <==> walkable_cell(map, coords(origin)),
        !walkable_cell(map, coords(origin)) ==> spec_visible(map, coords(origin), radius) == Set::<(int, int)>::empty(),
        forall|q: (int, int)|
            #[trigger] spec_visible(map, coords(origin), radius).contains(q) ==> walkable_cell(map, q)
                || sight_blocking_cell(map, q),
{
    let o = coords(origin);
    if walkable_cell(map, o) {
        lemma_reach_monotone(map, o, 0, radius);
        assert(sight_reach(map, o, 0).contains(o));
        lemma_reach_is_walkable(map, o, radius);
    } else {
        assert(spec_visible(map, o, radius) =~= Set::<(int, int)>::empty());
    }
}

/// Marks the walkable cell `(qx, qy)` as reached in the next layer unless it already is.
fn mark_step(
    map: &TileMap,
    reached: &mut Vec<bool>,
    next: &mut Vec<Position>,
    qx: i32,
    qy: i32,
    Ghost(current): Ghost<Set<(int, int)>>,
    Ghost(following): Ghost<Set<(int, int)>>,
)
    requires
        map.width > 0,
        old(reached)@.len() == map.tiles@.len(),
        current.subset_of(following),
        forall|q: (int, int)| #[trigger] following.contains(q) ==> walkable_cell(*map, q),
        walkable_cell(*map, (qx as int, qy as int)) ==> following.contains((qx as int, qy as int)),
        forall|i: int|
            0 <= i < old(reached)@.len() ==> (#[trigger] old(reached)@[i] ==> following.contains(
                cell_of(i, map.width as int),
            )),
        forall|i: int|
            0 <= i < old(reached)@.len() ==> (current.contains(cell_of(i, map.width as int))
                ==> #[trigger] old(reached)@[i]),
        forall|i: int|
            0 <= i < old(reached)@.len() ==> (#[trigger] old(reached)@[i] && !current.contains(
                cell_of(i, map.width as int),
            ) ==> lists(old(next)@, cell_of(i, map.width as int))),
        forall|m: int|
            0 <= m < old(next)@.len() ==> following.contains(coords(#[trigger] old(next)@[m]))
                && !current.contains(coords(old(next)@[m])),
    ensures
        final(reached)@.len() == old(reached)@.len(),
        forall|i: int| 0 <= i < old(reached)@.len() ==> #[trigger] old(reached)@[i] ==> final(reached)@[i],
        walkable_cell(*map, (qx as int, qy as int)) ==> marked(
            final(reached)@,
            map.width as int,
            (qx as int, qy as int),
        ),
        forall|i: int|
            0 <= i < final(reached)@.len() ==> (#[trigger] final(reached)@[i] ==> following.contains(
                cell_of(i, map.width as int),
            )),
        forall|i: int|
            0 <= i < final(reached)@.len() ==> (current.contains(cell_of(i, map.width as int))
                ==> #[trigger] final(reached)@[i]),
        forall|i: int|
            0 <= i < final(reached)@.len() ==> (#[trigger] final(reached)@[i] && !current.contains(
                cell_of(i, map.width as int),
            ) ==> lists(final(next)@, cell_of(i, map.width as int))),
        forall|m: int|
            0 <= m < final(next)@.len() ==> following.contains(coords(#[trigger] final(next)@[m]))
                && !current.contains(coords(final(next)@[m])),
{
    let ghost w = map.width as int;
    if let Some(i) = tile_index(map, qx, qy) {
        proof {
            lemma_cell_round_trip(*map, (qx as int, qy as int));
        }
        if map.tiles[i].is_walkable() && !reached[i] {
            let ghost before = next@;
            reached.set(i, true);
            next.push(Position { x: qx, y: qy });
            proof {
                assert(next@[next@.len() - 1] == Position { x: qx, y: qy });
                assert forall|k: int|
                    0 <= k < reached@.len() && #[trigger] reached@[k] && !current.contains(
                        cell_of(k, w),
                    ) implies lists(next@, cell_of(k, w)) by {
                    if k == i {
                        assert(next@[next@.len() - 1].x == qx);
                    } else {
                        assert(old(reached)@[k]);
                        let j = choose|j: int|
                            0 <= j < before.len() && #[trigger] before[j].x == cell_of(k, w).0
                                && before[j].y == cell_of(k, w).1;
                        assert(next@[j] == before[j]);
                    }
                }
                assert forall|m: int| 0 <= m < next@.len() implies following.contains(
                    coords(#[trigger] next@[m]),
                ) && !current.contains(coords(next@[m])) by {
                    if m < before.len() {
                        assert(next@[m] == before[m]);
                    } else {
                        assert(!current.contains(cell_of(i as int, w)));
                    }
                }
            }
        }
    }
}

/// Returns the field of view of radius `radius` from `origin`, in row-major order.
pub fn visible_positions(map: &TileMap, origin: Position, radius: u32) -> (r: Vec<Position>)
    ensures
        forall|q: (int, int)|
            spec_visible(*map, coords(origin), radius as nat).contains(q) <==> lists(r@, q),
        forall|a: int, b: int| 0 <= a < b < r@.len() ==> row_major_before(r@[a], r@[b]),
{
    let ghost o = coords(origin);
    let origin_index = match tile_index(map, origin.x, origin.y) {
        Some(i) => i,
        None => {
            proof {
                assert(spec_visible(*map, o, radius as nat) =~= Set::empty());
            }
            return Vec::new();
        },
    };
    if !map.tiles[origin_index].is_walkable() {
        proof {
            assert(spec_visible(*map, o, radius as nat) =~= Set::empty());
        }
        return Vec::new();
    }
    let n = map.tiles.len();
    let w = map.width as usize;
    let ghost wi = w as int;
    proof {
        lemma_cell_round_trip(*map, o);
    }
    let mut reached: Vec<bool> = Vec::new();
    let mut k: usize = 0;
    while k < n
        invariant
            k <= n,
            reached@.len() == k,
            forall|i: int| 0 <= i < k ==> !#[trigger] reached@[i],
        decreases n - k,
    {
        reached.push(false);
        k += 1;
    }
    reached.set(origin_index, true);
    let mut frontier: Vec<Position> = Vec::new();
    frontier.push(origin);
    let mut steps: u32 = 0;
    proof {
        assert forall|i: int| 0 <= i < reached@.len() implies (#[trigger] reached@[i]
            <==> sight_reach(*map, o, 0).contains(cell_of(i, wi))) by {
            lemma_stored_cell(*map, i);
            if cell_of(i, wi) == o {
                assert(i == origin_index);
            }
        }
        assert(lists(frontier@, o)) by {
            assert(frontier@[0].x == o.0);
        }
    }
    while steps < radius && frontier.len() > 0
        invariant
            n == map.tiles@.len(),
            w == map.width,
            wi == w as int,
            o == coords(origin),
            w > 0,
            walkable_cell(*map, o),
            steps <= radius,
            flags_match(*map, reached@, sight_reach(*map, o, steps as nat)),
            steps == 0 ==> frontier@.len() == 1 && frontier@[0] == origin,
            forall|m: int|
                0 <= m < frontier@.len() ==> sight_reach(*map, o, steps as nat).contains(
                    coords(#[trigger] frontier@[m]),
                ) && (steps > 0 ==> !sight_reach(*map, o, (steps - 1) as nat).contains(
                    coords(frontier@[m]),
                )),
            steps > 0 ==> forall|q: (int, int)|
                sight_reach(*map, o, steps as nat).contains(q) && !sight_reach(
                    *map,
                    o,
                    (steps - 1) as nat,
                ).contains(q) ==> #[trigger] lists(frontier@, q),
            frontier@.len() == 0 ==> steps > 0 && sight_reach(*map, o, steps as nat) == sight_reach(
                *map,
                o,
                (steps - 1) as nat,
            ),
        decreases radius - steps,
    {
        let ghost current = sight_reach(*map, o, steps as nat);
        let ghost following = sight_reach(*map, o, (steps + 1) as nat);
        proof {
            lemma_reach_is_walkable(*map, o, (steps + 1) as nat);
            lemma_reach_grows(*map, o, steps as nat);
        }
        let mut next: Vec<Position> = Vec::new();
        let mut j: usize = 0;
        while j < frontier.len()
            invariant
                n == map.tiles@.len(),
                w == map.width,
                wi == w as int,
                w > 0,
                walkable_cell(*map, o),
                current == sight_reach(*map, o, steps as nat),
                following == sight_reach(*map, o, (steps + 1) as nat),
                following == sight_step(*map, current),
                current.subset_of(following),
                forall|q: (int, int)| #[trigger] following.contains(q) ==> walkable_cell(*map, q),
                j <= frontier@.len(),
                forall|m: int|
                    0 <= m < frontier@.len() ==> current.contains(coords(#[trigger] frontier@[m])),
                reached@.len() == n,
                forall|i: int|
                    0 <= i < reached@.len() ==> (#[trigger] reached@[i] ==> following.contains(
                        cell_of(i, wi),
                    )),
                forall|i: int|
                    0 <= i < reached@.len() ==> (current.contains(cell_of(i, wi))
                        ==> #[trigger] reached@[i]),
                forall|i: int|
                    0 <= i < reached@.len() ==> (#[trigger] reached@[i] && !current.contains(
                        cell_of(i, wi),
                    ) ==> lists(next@, cell_of(i, wi))),
                forall|m: int|
                    0 <= m < next@.len() ==> following.contains(coords(#[trigger] next@[m]))
                        && !current.contains(coords(next@[m])),
                forall|m: int|
                    0 <= m < j ==> neighbours_marked(*map, reached@, coords(#[trigger] frontier@[m])),
            decreases frontier@.len() - j,
        {
            let p = frontier[j];
            let ghost pc = coords(p);
            let ghost before = reached@;
            if p.y > 0 {
                mark_step(map, &mut reached, &mut next, p.x, p.y - 1, Ghost(current), Ghost(following));
            }
            let ghost r1 = reached@;
            if p.y < i32::MAX {
                mark_step(map, &mut reached, &mut next, p.x, p.y + 1, Ghost(current), Ghost(following));
            }
            let ghost r2 = reached@;
            if p.x > 0 {
                mark_step(map, &mut reached, &mut next, p.x - 1, p.y, Ghost(current), Ghost(following));
            }
            let ghost r3 = reached@;
            if p.x < i32::MAX {
                mark_step(map, &mut reached, &mut next, p.x + 1, p.y, Ghost(current), Ghost(following));
            }
            proof {
                assert forall|m: int| 0 <= m < j + 1 implies neighbours_marked(
                    *map,
                    reached@,
                    coords(#[trigger] frontier@[m]),
                ) by {
                    let c = coords(frontier@[m]);
                    let qs = seq![(c.0 - 1, c.1), (c.0 + 1, c.1), (c.0, c.1 - 1), (c.0, c.1 + 1)];
                    assert forall|t: int| 0 <= t < 4 && walkable_cell(*map, qs[t]) implies marked(
                        reached@,
                        wi,
                        qs[t],
                    ) by {
                        lemma_cell_round_trip(*map, qs[t]);
                        let idx = qs[t].1 * wi + qs[t].0;
                        if m < j {
                            assert(before[idx]);
                        }
                        assert(r1[idx] ==> r2[idx]);
                        assert(r2[idx] ==> r3[idx]);
                        assert(r3[idx] ==> reached@[idx]);
                        assert(before[idx] ==> r1[idx]);
                    }
                    assert(walkable_cell(*map, qs[0]) ==> marked(reached@, wi, qs[0]));
                    assert(walkable_cell(*map, qs[1]) ==> marked(reached@, wi, qs[1]));
                    assert(walkable_cell(*map, qs[2]) ==> marked(reached@, wi, qs[2]));
                    assert(walkable_cell(*map, qs[3]) ==> marked(reached@, wi, qs[3]));
                }
            }
            j += 1;
        }
        proof {
            assert forall|i: int| 0 <= i < reached@.len() implies (#[trigger] reached@[i]
                <==> following.contains(cell_of(i, wi))) by {
                let c = cell_of(i, wi);
                lemma_stored_cell(*map, i);
                if following.contains(c) && !current.contains(c) {
                    assert(next_to(current, c));
                    let p = if current.contains((c.0 - 1, c.1)) {
                        (c.0 - 1, c.1)
                    } else if current.contains((c.0 + 1, c.1)) {
                        (c.0 + 1, c.1)
                    } else if current.contains((c.0, c.1 - 1)) {
                        (c.0, c.1 - 1)
                    } else {
                        (c.0, c.1 + 1)
                    };
                    assert(current.contains(p));
                    let pm: int = if steps == 0 {
                        assert(p == o);
                        0
                    } else {
                        let prev = sight_reach(*map, o, (steps - 1) as nat);
                        if prev.contains(p) {
                            assert(current == sight_step(*map, prev));
                            assert(next_to(prev, c));
                            assert(current.contains(c));
                        }
                        assert(lists(frontier@, p));
                        choose|m: int|
                            0 <= m < frontier@.len() && #[trigger] frontier@[m].x == p.0
                                && frontier@[m].y == p.1
                    };
                    assert(coords(frontier@[pm]) == p);
                    assert(neighbours_marked(*map, reached@, p));
                    assert(walkable_cell(*map, c));
                    assert(marked(reached@, wi, c));
                }
            }
            assert forall|q: (int, int)|
                following.contains(q) && !current.contains(q) implies #[trigger] lists(next@, q) by {
                lemma_cell_round_trip(*map, q);
                let idx = q.1 * wi + q.0;
                assert(reached@[idx]);
            }
            if next@.len() == 0 {
                assert forall|q: (int, int)| following.contains(q) implies current.contains(q) by {
                    if !current.contains(q) {
                        assert(lists(next@, q));
                    }
                }
                assert(following =~= current);
            }
        }
        frontier = next;
        steps += 1;
    }
    let ghost seen = sight_reach(*map, o, radius as nat);
    proof {
        if steps < radius {
            lemma_reach_settles(*map, o, (steps - 1) as nat, radius as nat);
        }
        lemma_reach_is_walkable(*map, o, radius as nat);
        assert(flags_match(*map, reached@, seen));
    }
    let ghost vis = spec_visible(*map, o, radius as nat);
    let h = map.height as usize;
    let mut out: Vec<Position> = Vec::new();
    let ghost mut idxs: Seq<int> = Seq::empty();
    let mut i: usize = 0;
    while i < n
        invariant
            n == map.tiles@.len(),
            w == map.width,
            wi == w as int,
            h == map.height,
            w > 0,
            walkable_cell(*map, o),
            vis == spec_visible(*map, o, radius as nat),
            seen == sight_reach(*map, o, radius as nat),
            vis == Set::new(|q: (int, int)| seen.contains(q) || (sight_blocking_cell(*map, q) && next_to(seen, q))),
            forall|q: (int, int)| #[trigger] seen.contains(q) ==> walkable_cell(*map, q),
            flags_match(*map, reached@, seen),
            i <= n,
            idxs.len() == out@.len(),
            forall|m: int| 0 <= m < out@.len() ==> 0 <= #[trigger] idxs[m] < i,
            forall|m: int| 0 <= m < out@.len() ==> coords(#[trigger] out@[m]) == cell_of(idxs[m], wi),
            forall|a: int, b: int| 0 <= a < b < out@.len() ==> idxs[a] < idxs[b],
            forall|m: int| 0 <= m < out@.len() ==> vis.contains(coords(#[trigger] out@[m])),
            forall|t: int|
                0 <= t < i && vis.contains(cell_of(t, wi)) ==> exists|m: int|
                    0 <= m < out@.len() && #[trigger] idxs[m] == t,
        decreases n - i,
    {
        let x = i % w;
        let y = i / w;
        proof {
            lemma_stored_cell(*map, i as int);
        }
        let ghost c = cell_of(i as int, wi);
        let ghost idxs_before = idxs;
        let ghost out_before = out@;
        if y < h && x <= i32::MAX as usize && y <= i32::MAX as usize {
            let west = x > 0 && reached[i - 1];
            let east = x + 1 < w && i + 1 < n && reached[i + 1];
            let north = y > 0 && i >= w && reached[i - w];
            let south = w < n - i && reached[i + w];
            let show = reached[i] || (map.tiles[i].blocks_sight() && (west || east || north || south));
            proof {
                if x > 0 {
                    lemma_cell_of_index(c.0 - 1, c.1, wi);
                }
                if x + 1 < w {
                    lemma_cell_of_index(c.0 + 1, c.1, wi);
                }
                if y > 0 {
                    assert((c.1 - 1) * wi + c.0 == i - wi && i >= wi) by (nonlinear_arith)
                        requires
                            c.1 * wi + c.0 == i,
                            c.1 >= 1,
                            c.0 >= 0,
                    ;
                    lemma_cell_of_index(c.0, c.1 - 1, wi);
                }
                assert((c.1 + 1) * wi + c.0 == i + wi) by (nonlinear_arith)
                    requires
                        c.1 * wi + c.0 == i,
                ;
                lemma_cell_of_index(c.0, c.1 + 1, wi);
                if !(x + 1 < w && i + 1 < n) {
                    if seen.contains((c.0 + 1, c.1)) {
                        lemma_cell_round_trip(*map, (c.0 + 1, c.1));
                    }
                }
                if !(w < n - i) {
                    if seen.contains((c.0, c.1 + 1)) {
                        lemma_cell_round_trip(*map, (c.0, c.1 + 1));
                    }
                }
                assert(reached@[i as int] == seen.contains(c));
                assert(show == vis.contains(c));
            }
            if show {
                out.push(Position { x: x as i32, y: y as i32 });
                proof {
                    idxs = idxs.push(i as int);
                }
            }
        } else {
            proof {
                if seen.contains(c) {
                    assert(walkable_cell(*map, c));
                }
                assert(!vis.contains(c));
            }
        }
        proof {
            assert forall|t: int|
                0 <= t < i + 1 && vis.contains(cell_of(t, wi)) implies exists|m: int|
                0 <= m < out@.len() && #[trigger] idxs[m] == t by {
                if t == i {
                    assert(idxs[out@.len() - 1] == t);
                } else {
                    let m = choose|m: int| 0 <= m < out_before.len() && #[trigger] idxs_before[m] == t;
                    assert(idxs[m] == t);
                }
            }
        }
        i += 1;
    }
    proof {
        assert forall|q: (int, int)| vis.contains(q) <==> lists(out@, q) by {
            if vis.contains(q) {
                if seen.contains(q) {
                    assert(walkable_cell(*map, q));
                }
                lemma_cell_round_trip(*map, q);
                let t = q.1 * wi + q.0;
                let m = choose|m: int| 0 <= m < out@.len() && #[trigger] idxs[m] == t;
                assert(out@[m].x == q.0);
            }
            if lists(out@, q) {
                let m = choose|m: int| 0 <= m < out@.len() && #[trigger] out@[m].x == q.0 && out@[m].y == q.1;
                assert(coords(out@[m]) == q);
            }
        }
        assert forall|a: int, b: int| 0 <= a < b < out@.len() implies row_major_before(
            out@[a],
            out@[b],
        ) by {
            lemma_row_major_order(idxs[a], idxs[b], wi);
        }
    }
    out
}

/// Presentation-only field-of-view projection for one actor.
///
/// While inactive every position counts as visible; once refreshed from a map and a known
/// anchor position it lists exactly the field of view in row-major order.
#[derive(Clone, Debug, PartialEq, Eq)]
pub struct PresentationVisibility {
    pub actor: ActorId,
    pub radius: u32,
    pub active: bool,
    pub positions: Vec<Position>,
}

impl PresentationVisibility {
    /// Creates an inactive field-of-view request for one actor and cardinal step radius.
    pub fn new(actor: ActorId, radius: u32) -> (r: Self)
        ensures
            r.actor == actor,
            r.radius == radius,
            !r.active,
            r.positions@.len() == 0,
    {
        PresentationVisibility { actor, radius, active: false, positions: Vec::new() }
    }

    /// Returns the actor whose position anchors the projection.
    pub fn actor(&self) -> (r: ActorId)
        ensures
            r == self.actor,
    {
        self.actor
    }

    /// Returns the maximum number of cardinal floor steps revealed from the anchor.
    pub fn radius(&self) -> (r: u32)
        ensures
            r == self.radius,
    {
        self.radius
    }

    /// Returns whether the projection has been populated.
    pub fn is_active(&self) -> (r: bool)
        ensures
            r == self.active,
    {
        self.active
    }

    /// Returns visible positions in row-major order.
    pub fn visible_positions(&self) -> (r: &[Position])
        ensures
            r@ == self.positions@,
    {
        self.positions.as_slice()
    }

    /// Returns whether a position is visible; an inactive projection hides nothing.
    pub fn is_visible(&self, position: Position) -> (r: bool)
        ensures
            r == (!self.active || lists(self.positions@, coords(position))),
    {
        if !self.active {
            return true;
        }
        let mut j: usize = 0;
        while j < self.positions.len()
            invariant
                j <= self.positions@.len(),
                forall|m: int| 0 <= m < j ==> #[trigger] self.positions@[m] != position,
            decreases self.positions@.len() - j,
        {
            if self.positions[j] == position {
                assert(self.positions@[j as int].x == position.x);
                return true;
            }
            j += 1;
        }
        proof {
            if lists(self.positions@, coords(position)) {
                let m = choose|m: int|
                    0 <= m < self.positions@.len() && #[trigger] self.positions@[m].x == position.x
                        && self.positions@[m].y == position.y;
                assert(self.positions@[m] == position);
            }
        }
        false
    }

    /// Clears the projection when the controlled actor or the runtime is unavailable.
    pub fn deactivate(&mut self)
        ensures
            final(self).actor == old(self).actor,
            final(self).radius == old(self).radius,
            !final(self).active,
            final(self).positions@.len() == 0,
    {
        self.active = false;
        self.positions = Vec::new();
    }

    /// Refreshes the projection for `actor` standing at `anchor` on `map`.
    ///
    /// An unknown anchor leaves the projection inactive and empty; a known one activates it with
    /// the field of view of the stored radius.
    pub fn refresh(&mut self, actor: ActorId, anchor: Option<Position>, map: &TileMap)
        ensures
            final(self).actor == actor,
            final(self).radius == old(self).radius,
            final(self).active == anchor is Some,
            anchor is None ==> final(self).positions@.len() == 0,
            anchor matches Some(a) ==> forall|q: (int, int)|
                spec_visible(*map, coords(a), old(self).radius as nat).contains(q)
                    <==> lists(final(self).positions@, q),
            anchor is Some ==> forall|a: int, b: int|
                0 <= a < b < final(self).positions@.len() ==> row_major_before(
                    final(self).positions@[a],
                    final(self).positions@[b],
                ),
    {
        self.actor = actor;
        match anchor {
            None => {
                self.active = false;
                self.positions = Vec::new();
            },
            Some(a) => {
                self.positions = visible_positions(map, a, self.radius);
                self.active = true;
            },
        }
    }
}

} // verus!
