//! The dungeon generator: rejection-sampled room placement, corridor carving,
//! and entity placement, together with the mathematical model that makes one
//! generation run a function of the values drawn from the randomness source.

use vstd::prelude::*;

use crate::geometry::{on_segment, Rect, Segment};
use crate::grid::{all_wall, gheight, grid_wf, gview, gwidth};
use crate::object::Object;
use crate::render::{color_darker_green, color_desaturated_green, ColorRgb};
use crate::rng::{rand_bool, rand_in_range};
use crate::tile::Tile;
use crate::{MAX_ROOM_MONSTERS, PLAYER};

verus! {

/// The values drawn from the randomness source in one placement attempt: the
/// candidate's width, height and position, and the corridor-orientation coin
/// (left at `false` on attempts where no corridor is dug, and then ignored).
pub struct AttemptDraw {
    pub w: i32,
    pub h: i32,
    pub x: i32,
    pub y: i32,
    pub horizontal_first: bool,
}

/// The generation-run state that is a function of the draws alone: the grid,
/// the accepted rooms in order, the carved corridor segments in order, and
/// the viewer's position.
#[verifier::ext_equal]
pub struct GenState {
    pub grid: Seq<Seq<Tile>>,
    pub rooms: Seq<Rect>,
    pub corridors: Seq<Segment>,
    pub viewer: (int, int),
}

/// The candidate rectangle of one attempt.
pub open spec fn rect_of(d: AttemptDraw) -> Rect {
    Rect { x1: d.x, y1: d.y, x2: (d.x + d.w) as i32, y2: (d.y + d.h) as i32 }
}

/// The ranges the generator draws from: side lengths in
/// `[min_size, max_size]` and a position keeping the whole rectangle, border
/// included, strictly inside the grid.
pub open spec fn draw_wf(d: AttemptDraw, width: int, height: int, min_size: int, max_size: int) -> bool {
    &&& min_size <= d.w <= max_size
    &&& min_size <= d.h <= max_size
    &&& 0 <= d.x < width - d.w
    &&& 0 <= d.y < height - d.h
}

/// The candidate overlaps some previously accepted room under the
/// closed-interval test, and is rejected.
pub open spec fn conflicts(rooms: Seq<Rect>, r: Rect) -> bool {
    exists|i: int| 0 <= i < rooms.len() && r.intersects_spec(#[trigger] rooms[i])
}

/// The two segments of one dogleg corridor from `prev` to `cur`: either a
/// horizontal run at `prev`'s row followed by a vertical run at `cur`'s
/// column, or the vertical run at `prev`'s column first.
pub open spec fn dogleg_segments(prev: (int, int), cur: (int, int), horizontal_first: bool) -> (
    Segment,
    Segment,
) {
    if horizontal_first {
        (
            Segment { horizontal: true, a: prev.0, b: cur.0, cross: prev.1 },
            Segment { horizontal: false, a: prev.1, b: cur.1, cross: cur.0 },
        )
    } else {
        (
            Segment { horizontal: false, a: prev.1, b: cur.1, cross: prev.0 },
            Segment { horizontal: true, a: prev.0, b: cur.0, cross: cur.1 },
        )
    }
}

/// `s1` and `s2` form one dogleg corridor between the two centers, in one of
/// the two allowed orderings.
pub open spec fn dogleg_connects(s1: Segment, s2: Segment, prev: (int, int), cur: (int, int)) -> bool {
    (s1, s2) == dogleg_segments(prev, cur, true) || (s1, s2) == dogleg_segments(prev, cur, false)
}

/// What one attempt does to the generation state. A conflicting candidate
/// changes nothing; an accepted one has its interior carved and is appended,
/// the first accepted room receives the viewer at its center, and every later
/// one is joined to its predecessor's center by a dogleg corridor.
pub open spec fn gen_step(st: GenState, d: AttemptDraw) -> GenState {
    let r = rect_of(d);
    if conflicts(st.rooms, r) {
        st
    } else {
        let g1 = carve_interior(st.grid, r);
        let c = r.center_spec();
        if st.rooms.len() == 0 {
            GenState { grid: g1, rooms: st.rooms.push(r), corridors: st.corridors, viewer: c }
        } else {
            let prev = st.rooms.last().center_spec();
            let segs = dogleg_segments(prev, c, d.horizontal_first);
            GenState {
                grid: carve_segment(carve_segment(g1, segs.0), segs.1),
                rooms: st.rooms.push(r),
                corridors: st.corridors.push(segs.0).push(segs.1),
                viewer: st.viewer,
            }
        }
    }
}

/// The state a generation run starts from: an all-wall grid, no rooms, no
/// corridors, and the viewer wherever the caller left it.
pub open spec fn gen_init(width: int, height: int, viewer: (int, int)) -> GenState {
    GenState {
        grid: all_wall(width, height),
        rooms: Seq::empty(),
        corridors: Seq::empty(),
        viewer,
    }
}

/// The whole run: the attempts applied in order. The final grid, room list,
/// corridor list and viewer position are a function of the start state and
/// the draw sequence, and of nothing else.
pub open spec fn gen_fold(st: GenState, draws: Seq<AttemptDraw>) -> GenState
    decreases draws.len(),
{
    if draws.len() == 0 {
        st
    } else {
        gen_fold(gen_step(st, draws[0]), draws.drop_first())
    }
}

pub proof fn lemma_gen_fold_snoc(st: GenState, draws: Seq<AttemptDraw>, d: AttemptDraw)
    ensures
        gen_fold(st, draws.push(d)) == gen_step(gen_fold(st, draws), d),
    decreases draws.len(),
{
    if draws.len() == 0 {
        assert(draws.push(d)[0] == d);
        assert(draws.push(d).drop_first() =~= Seq::<AttemptDraw>::empty());
        assert(gen_fold(st, draws.push(d)) == gen_fold(
            gen_step(st, d),
            Seq::<AttemptDraw>::empty(),
        ));
        assert(gen_fold(gen_step(st, d), Seq::<AttemptDraw>::empty()) == gen_step(st, d));
        assert(gen_fold(st, draws) == st);
    } else {
        assert(draws.push(d)[0] == draws[0]);
        assert(draws.push(d).drop_first() =~= draws.drop_first().push(d));
        lemma_gen_fold_snoc(gen_step(st, draws[0]), draws.drop_first(), d);
        assert(gen_fold(st, draws.push(d)) == gen_fold(
            gen_step(st, draws[0]),
            draws.drop_first().push(d),
        ));
        assert(gen_fold(st, draws) == gen_fold(gen_step(st, draws[0]), draws.drop_first()));
    }
}

/// Determinism of generation: any two results of folding the same draw
/// sequence from the same start state are equal — the grid, room list,
/// corridor list and viewer position depend on the recorded draws alone.
pub proof fn lemma_generation_deterministic(
    init: GenState,
    draws: Seq<AttemptDraw>,
    a: GenState,
    b: GenState,
)
    requires
        a == gen_fold(init, draws),
        b == gen_fold(init, draws),
    ensures
        a == b,
{
}

/// `(x, y)` is carved ground: strictly inside some accepted room, or on some
/// corridor segment.
pub open spec fn covered(rooms: Seq<Rect>, corridors: Seq<Segment>, x: int, y: int) -> bool {
    (exists|i: int| 0 <= i < rooms.len() && (#[trigger] rooms[i]).contains_interior(x, y))
        || (exists|i: int| 0 <= i < corridors.len() && on_segment(#[trigger] corridors[i], x, y))
}

/// An accepted room: sampled side lengths, and the whole rectangle, border
/// included, strictly inside the grid.
pub open spec fn room_wf_in(r: Rect, width: int, height: int, min_size: int, max_size: int) -> bool {
    &&& r.wf()
    &&& r.x2 < width
    &&& r.y2 < height
    &&& min_size <= r.x2 - r.x1 <= max_size
    &&& min_size <= r.y2 - r.y1 <= max_size
}

/// Everything the generator guarantees of a (partial or finished) run:
/// a rectangular grid of the requested dimensions; every accepted room
/// well-formed and in bounds; every pair of accepted rooms non-intersecting
/// under the closed-interval test; a tile is floor exactly when it is
/// strictly inside an accepted room or on a corridor segment, and wall
/// otherwise, with no tile explored yet; and the corridor list is exactly one
/// dogleg per accepted room after the first, joining consecutive centers.
pub open spec fn generated_wf(st: GenState, width: int, height: int, min_size: int, max_size: int) -> bool {
    &&& grid_wf(st.grid)
    &&& gwidth(st.grid) == width
    &&& gheight(st.grid) == height
    &&& forall|i: int|
        0 <= i < st.rooms.len() ==> room_wf_in(#[trigger] st.rooms[i], width, height, min_size, max_size)
    &&& forall|i: int, j: int|
        0 <= i < j < st.rooms.len() ==> !(#[trigger] st.rooms[i]).intersects_spec(#[trigger] st.rooms[j])
    &&& forall|x: int, y: int|
        #![trigger st.grid[x][y]]
        0 <= x < width && 0 <= y < height ==> st.grid[x][y] == (
        if covered(st.rooms, st.corridors, x, y) {
            Tile::empty_spec()
        } else {
            Tile::wall_spec()
        })
    &&& st.corridors.len() == (if st.rooms.len() == 0 {
        0int
    } else {
        2 * (st.rooms.len() - 1)
    })
    &&& forall|k: int|
        0 <= k < st.rooms.len() - 1 ==> dogleg_connects(
            #[trigger] st.corridors[2 * k],
            st.corridors[2 * k + 1],
            st.rooms[k].center_spec(),
            st.rooms[k + 1].center_spec(),
        )
}


/// The grid after the open interior of `r` is carved to floor; every other
/// cell keeps its old tile.
pub open spec fn carve_interior(g: Seq<Seq<Tile>>, r: Rect) -> Seq<Seq<Tile>> {
    Seq::new(
        g.len(),
        |x: int|
            Seq::new(
                g[x].len(),
                |y: int|
                    if r.contains_interior(x, y) {
                        Tile::empty_spec()
                    } else {
                        g[x][y]
                    },
            ),
    )
}

/// The grid after the line of `s` is carved to floor, ends included; every
/// cell off the line keeps its old tile.
pub open spec fn carve_segment(g: Seq<Seq<Tile>>, s: Segment) -> Seq<Seq<Tile>> {
    Seq::new(
        g.len(),
        |x: int|
            Seq::new(
                g[x].len(),
                |y: int|
                    if on_segment(s, x, y) {
                        Tile::empty_spec()
                    } else {
                        g[x][y]
                    },
            ),
    )
}

/// Carves the open interior of `room` to floor tiles, leaving the one-tile
/// border and everything else untouched.
pub fn create_room(room: Rect, map: &mut Vec<Vec<Tile>>)
    requires
        room.wf(),
        grid_wf(gview(*old(map))),
        room.x2 < gwidth(gview(*old(map))),
        room.y2 < gheight(gview(*old(map))),
    ensures
        gview(*final(map)) == carve_interior(gview(*old(map)), room),
{
    let ghost g0 = gview(*old(map));
    let mut x: i32 = room.x1 + 1;
    while x < room.x2
        invariant
            room.x1 + 1 <= x <= room.x2,
            map@.len() == g0.len(),
            forall|i: int| 0 <= i < g0.len() ==> (#[trigger] map@[i])@.len() == g0[i].len(),
            forall|i: int, j: int|
                #![trigger map@[i]@[j]]
                0 <= i < g0.len() && 0 <= j < g0[i].len() ==> map@[i]@[j] == (
                if room.contains_interior(i, j) && i < x {
                    Tile::empty_spec()
                } else {
                    g0[i][j]
                }),
        decreases room.x2 - x,
    {
        let mut y: i32 = room.y1 + 1;
        while y < room.y2
            invariant
                room.x1 + 1 <= x < room.x2,
                room.y1 + 1 <= y <= room.y2,
                map@.len() == g0.len(),
                forall|i: int| 0 <= i < g0.len() ==> (#[trigger] map@[i])@.len() == g0[i].len(),
                forall|i: int, j: int|
                    #![trigger map@[i]@[j]]
                    0 <= i < g0.len() && 0 <= j < g0[i].len() ==> map@[i]@[j] == (
                    if room.contains_interior(i, j) && (i < x || (i == x && j < y)) {
                        Tile::empty_spec()
                    } else {
                        g0[i][j]
                    }),
            decreases room.y2 - y,
        {
            map[x as usize][y as usize] = Tile::empty();
            y = y + 1;
        }
        x = x + 1;
    }
    proof {
        assert(gview(*map) =~~= carve_interior(g0, room));
    }
}

/// Carves a horizontal corridor at row `y` covering every column between
/// `x1` and `x2` inclusive, in either order; all other cells keep their tile.
pub fn create_h_tunnel(x1: i32, x2: i32, y: i32, map: &mut Vec<Vec<Tile>>)
    requires
        grid_wf(gview(*old(map))),
        0 <= x1 < gwidth(gview(*old(map))),
        0 <= x2 < gwidth(gview(*old(map))),
        0 <= y < gheight(gview(*old(map))),
    ensures
        gview(*final(map)) == carve_segment(
            gview(*old(map)),
            Segment { horizontal: true, a: x1 as int, b: x2 as int, cross: y as int },
        ),
{
    let ghost g0 = gview(*old(map));
    let lo = if x1 <= x2 {
        x1
    } else {
        x2
    };
    let hi = if x1 <= x2 {
        x2
    } else {
        x1
    };
    let mut x = lo;
    while x < hi
        invariant
            lo <= x <= hi,
            map@.len() == g0.len(),
            forall|i: int| 0 <= i < g0.len() ==> (#[trigger] map@[i])@.len() == g0[i].len(),
            forall|i: int, j: int|
                #![trigger map@[i]@[j]]
                0 <= i < g0.len() && 0 <= j < g0[i].len() ==> map@[i]@[j] == (
                if j == y && lo <= i < x {
                    Tile::empty_spec()
                } else {
                    g0[i][j]
                }),
        decreases hi - x,
    {
        map[x as usize][y as usize] = Tile::empty();
        x = x + 1;
    }
    map[hi as usize][y as usize] = Tile::empty();
    proof {
        assert(gview(*map) =~~= carve_segment(
            g0,
            Segment { horizontal: true, a: x1 as int, b: x2 as int, cross: y as int },
        ));
    }
}

/// Carves a vertical corridor at column `x` covering every row between `y1`
/// and `y2` inclusive, in either order; all other cells keep their tile.
pub fn create_v_tunnel(y1: i32, y2: i32, x: i32, map: &mut Vec<Vec<Tile>>)
    requires
        grid_wf(gview(*old(map))),
        0 <= y1 < gheight(gview(*old(map))),
        0 <= y2 < gheight(gview(*old(map))),
        0 <= x < gwidth(gview(*old(map))),
    ensures
        gview(*final(map)) == carve_segment(
            gview(*old(map)),
            Segment { horizontal: false, a: y1 as int, b: y2 as int, cross: x as int },
        ),
{
    let ghost g0 = gview(*old(map));
    let lo = if y1 <= y2 {
        y1
    } else {
        y2
    };
    let hi = if y1 <= y2 {
        y2
    } else {
        y1
    };
    let mut y = lo;
    while y < hi
        invariant
            lo <= y <= hi,
            map@.len() == g0.len(),
            forall|i: int| 0 <= i < g0.len() ==> (#[trigger] map@[i])@.len() == g0[i].len(),
            forall|i: int, j: int|
                #![trigger map@[i]@[j]]
                0 <= i < g0.len() && 0 <= j < g0[i].len() ==> map@[i]@[j] == (
                if i == x && lo <= j < y {
                    Tile::empty_spec()
                } else {
                    g0[i][j]
                }),
        decreases hi - y,
    {
        map[x as usize][y as usize] = Tile::empty();
        y = y + 1;
    }
    map[x as usize][hi as usize] = Tile::empty();
    proof {
        assert(gview(*map) =~~= carve_segment(
            g0,
            Segment { horizontal: false, a: y1 as int, b: y2 as int, cross: x as int },
        ));
    }
}

/// One attempt preserves the generator's guarantees, and changes the room
/// list, the viewer and the corridor list only in the stated way.
pub proof fn lemma_step_preserves_generated(
    st: GenState,
    d: AttemptDraw,
    width: int,
    height: int,
    min_size: int,
    max_size: int,
)
    requires
        generated_wf(st, width, height, min_size, max_size),
        draw_wf(d, width, height, min_size, max_size),
        2 <= min_size,
        width <= i32::MAX,
        height <= i32::MAX,
    ensures
        generated_wf(gen_step(st, d), width, height, min_size, max_size),
        conflicts(st.rooms, rect_of(d)) ==> gen_step(st, d) == st,
        !conflicts(st.rooms, rect_of(d)) ==> gen_step(st, d).rooms == st.rooms.push(rect_of(d)),
        gen_step(st, d).viewer == (if st.rooms.len() == 0 && !conflicts(st.rooms, rect_of(d)) {
            rect_of(d).center_spec()
        } else {
            st.viewer
        }),
        gen_step(st, d).rooms.len() >= st.rooms.len(),
        forall|i: int| 0 <= i < st.rooms.len() ==> gen_step(st, d).rooms[i] == st.rooms[i],
{
    let r = rect_of(d);
    assert(r.x2 == d.x + d.w && r.y2 == d.y + d.h);
    if conflicts(st.rooms, r) {
    } else {
        let st1 = gen_step(st, d);
        assert(room_wf_in(r, width, height, min_size, max_size));
        assert forall|i: int, j: int| 0 <= i < j < st1.rooms.len() implies !(#[trigger] st1.rooms[i]).intersects_spec(
            #[trigger] st1.rooms[j],
        ) by {
            if j == st.rooms.len() {
                assert(!r.intersects_spec(st.rooms[i]));
            }
        }
        if st.rooms.len() == 0 {
            assert forall|x: int, y: int|
                #![trigger st1.grid[x][y]]
                0 <= x < width && 0 <= y < height implies st1.grid[x][y] == (
            if covered(st1.rooms, st1.corridors, x, y) {
                Tile::empty_spec()
            } else {
                Tile::wall_spec()
            }) by {
                assert(st1.grid[x][y] == (if r.contains_interior(x, y) {
                    Tile::empty_spec()
                } else {
                    st.grid[x][y]
                }));
                if covered(st1.rooms, st1.corridors, x, y) {
                    if r.contains_interior(x, y) {
                    } else {
                        assert(covered(st.rooms, st.corridors, x, y));
                    }
                } else {
                    assert(!r.contains_interior(x, y)) by {
                        if r.contains_interior(x, y) {
                            assert(st1.rooms[0].contains_interior(x, y));
                        }
                    }
                    assert(!covered(st.rooms, st.corridors, x, y)) by {
                        if exists|i: int|
                            0 <= i < st.corridors.len() && on_segment(#[trigger] st.corridors[i], x, y) {
                            let i = choose|i: int|
                                0 <= i < st.corridors.len() && on_segment(
                                    #[trigger] st.corridors[i],
                                    x,
                                    y,
                                );
                            assert(on_segment(st1.corridors[i], x, y));
                        }
                    }
                }
            }
        } else {
            let prev = st.rooms.last().center_spec();
            let c = r.center_spec();
            let segs = dogleg_segments(prev, c, d.horizontal_first);
            assert(st1.corridors == st.corridors.push(segs.0).push(segs.1));
            assert forall|k: int| 0 <= k < st1.rooms.len() - 1 implies dogleg_connects(
                #[trigger] st1.corridors[2 * k],
                st1.corridors[2 * k + 1],
                st1.rooms[k].center_spec(),
                st1.rooms[k + 1].center_spec(),
            ) by {
                if k < st.rooms.len() - 1 {
                    assert(st1.corridors[2 * k] == st.corridors[2 * k]);
                    assert(st1.corridors[2 * k + 1] == st.corridors[2 * k + 1]);
                } else {
                    assert(k == st.rooms.len() - 1);
                    assert(st1.corridors[2 * k] == segs.0);
                    assert(st1.corridors[2 * k + 1] == segs.1);
                    assert(st1.rooms[k] == st.rooms.last());
                    assert(st1.rooms[k + 1] == r);
                }
            }
            assert forall|x: int, y: int|
                #![trigger st1.grid[x][y]]
                0 <= x < width && 0 <= y < height implies st1.grid[x][y] == (
            if covered(st1.rooms, st1.corridors, x, y) {
                Tile::empty_spec()
            } else {
                Tile::wall_spec()
            }) by {
                let g1 = carve_interior(st.grid, r);
                let g2 = carve_segment(g1, segs.0);
                assert(g1[x].len() == st.grid[x].len());
                assert(g2[x].len() == st.grid[x].len());
                assert(st1.grid[x][y] == (if on_segment(segs.1, x, y) {
                    Tile::empty_spec()
                } else if on_segment(segs.0, x, y) {
                    Tile::empty_spec()
                } else if r.contains_interior(x, y) {
                    Tile::empty_spec()
                } else {
                    st.grid[x][y]
                }));
                if covered(st1.rooms, st1.corridors, x, y) {
                    if on_segment(segs.1, x, y) || on_segment(segs.0, x, y) || r.contains_interior(
                        x,
                        y,
                    ) {
                    } else {
                        assert(covered(st.rooms, st.corridors, x, y)) by {
                            if exists|i: int|
                                0 <= i < st1.rooms.len() && (#[trigger] st1.rooms[i]).contains_interior(
                                    x,
                                    y,
                                ) {
                                let i = choose|i: int|
                                    0 <= i < st1.rooms.len() && (#[trigger] st1.rooms[i]).contains_interior(
                                        x,
                                        y,
                                    );
                                assert(i < st.rooms.len());
                                assert(st.rooms[i].contains_interior(x, y));
                            } else {
                                let i = choose|i: int|
                                    0 <= i < st1.corridors.len() && on_segment(
                                        #[trigger] st1.corridors[i],
                                        x,
                                        y,
                                    );
                                assert(i < st.corridors.len());
                                assert(on_segment(st.corridors[i], x, y));
                            }
                        }
                    }
                } else {
                    assert(!r.contains_interior(x, y)) by {
                        if r.contains_interior(x, y) {
                            assert(st1.rooms[st.rooms.len() as int].contains_interior(x, y));
                        }
                    }
                    assert(!on_segment(segs.0, x, y)) by {
                        if on_segment(segs.0, x, y) {
                            assert(on_segment(st1.corridors[st.corridors.len() as int], x, y));
                        }
                    }
                    assert(!on_segment(segs.1, x, y)) by {
                        if on_segment(segs.1, x, y) {
                            assert(on_segment(st1.corridors[st.corridors.len() + 1 as int], x, y));
                        }
                    }
                    assert(!covered(st.rooms, st.corridors, x, y)) by {
                        if exists|i: int|
                            0 <= i < st.rooms.len() && (#[trigger] st.rooms[i]).contains_interior(
                                x,
                                y,
                            ) {
                            let i = choose|i: int|
                                0 <= i < st.rooms.len() && (#[trigger] st.rooms[i]).contains_interior(
                                    x,
                                    y,
                                );
                            assert(st1.rooms[i].contains_interior(x, y));
                        }
                        if exists|i: int|
                            0 <= i < st.corridors.len() && on_segment(#[trigger] st.corridors[i], x, y) {
                            let i = choose|i: int|
                                0 <= i < st.corridors.len() && on_segment(
                                    #[trigger] st.corridors[i],
                                    x,
                                    y,
                                );
                            assert(on_segment(st1.corridors[i], x, y));
                        }
                    }
                }
            }
        }
    }
}

/// Separation of accepted rooms: any two distinct rooms accepted in one
/// generation run fail even the closed-interval intersection test, so at
/// least one wall tile separates them on every axis.
pub proof fn lemma_rooms_disjoint(
    st: GenState,
    width: int,
    height: int,
    min_size: int,
    max_size: int,
    i: int,
    j: int,
)
    requires
        generated_wf(st, width, height, min_size, max_size),
        0 <= i < st.rooms.len(),
        0 <= j < st.rooms.len(),
        i != j,
    ensures
        !st.rooms[i].intersects_spec(st.rooms[j]),
{
}

/// Tiles of an accepted room: every tile strictly inside its rectangle is
/// floor, and every tile on its border is still wall unless some corridor
/// segment runs over that tile.
pub proof fn lemma_room_tiles(
    st: GenState,
    width: int,
    height: int,
    min_size: int,
    max_size: int,
    i: int,
    x: int,
    y: int,
)
    requires
        generated_wf(st, width, height, min_size, max_size),
        0 <= i < st.rooms.len(),
    ensures
        st.rooms[i].contains_interior(x, y) ==> st.grid[x][y] == Tile::empty_spec(),
        (st.rooms[i].on_border(x, y) && (forall|k: int|
            0 <= k < st.corridors.len() ==> !on_segment(#[trigger] st.corridors[k], x, y)))
            ==> st.grid[x][y] == Tile::wall_spec(),
{
    let r = st.rooms[i];
    assert(room_wf_in(r, width, height, min_size, max_size));
    if r.contains_interior(x, y) {
        assert(0 <= x < width && 0 <= y < height);
        assert(covered(st.rooms, st.corridors, x, y));
    }
    if r.on_border(x, y) && (forall|k: int|
        0 <= k < st.corridors.len() ==> !on_segment(#[trigger] st.corridors[k], x, y)) {
        assert(0 <= x < width && 0 <= y < height);
        assert(!covered(st.rooms, st.corridors, x, y)) by {
            assert forall|j: int| 0 <= j < st.rooms.len() implies !(#[trigger] st.rooms[j]).contains_interior(
                x,
                y,
            ) by {
                if j != i && st.rooms[j].contains_interior(x, y) {
                    if i < j {
                        crate::geometry::lemma_separated(st.rooms[i], st.rooms[j], x, y);
                    } else {
                        crate::geometry::lemma_separated(st.rooms[j], st.rooms[i], x, y);
                    }
                }
            }
        }
    }
}

/// `o` is a secondary entity as spawned in `room`: an orc or a troll at a
/// position with the x-coordinate strictly inside the room and the
/// y-coordinate allowed flush against the top and bottom walls (the original
/// asymmetric bounds, kept deliberately), blocking movement, not yet alive.
pub open spec fn is_room_monster(o: Object, room: Rect) -> bool {
    &&& room.x1 + 1 <= o.x < room.x2
    &&& room.y1 <= o.y < room.y2
    &&& o.blocks
    &&& !o.alive
    &&& (is_orc(o) || is_troll(o))
}

/// An orc: glyph 'o', desaturated green.
pub open spec fn is_orc(o: Object) -> bool {
    o.char == 'o' && o.name@ == "orc"@ && o.color == color_desaturated_green()
}

/// A troll: glyph 'T', darker green.
pub open spec fn is_troll(o: Object) -> bool {
    o.char == 'T' && o.name@ == "troll"@ && o.color == color_darker_green()
}

/// Fills `room` with a uniformly drawn number of secondary entities, up to
/// `MAX_ROOM_MONSTERS`, each at a uniformly drawn position in the room and
/// each an orc with weight 80 in 100, a troll otherwise. Existing entities
/// are untouched; collisions with them are permitted and not checked.
pub fn place_objects(room: Rect, objects: &mut Vec<Object>, rng: &mut rand::rngs::StdRng)
    requires
        room.wf(),
        room.x1 + 1 < room.x2,
    ensures
        old(objects)@.len() <= final(objects)@.len() <= old(objects)@.len() + MAX_ROOM_MONSTERS,
        forall|i: int| 0 <= i < old(objects)@.len() ==> final(objects)@[i] == old(objects)@[i],
        forall|i: int|
            old(objects)@.len() <= i < final(objects)@.len() ==> is_room_monster(
                #[trigger] final(objects)@[i],
                room,
            ),
{
    let num_monsters = rand_in_range(rng, 0, MAX_ROOM_MONSTERS);
    let mut placed: i32 = 0;
    while placed < num_monsters
        invariant
            0 <= placed <= num_monsters,
            objects@.len() == old(objects)@.len() + placed,
            forall|i: int| 0 <= i < old(objects)@.len() ==> objects@[i] == old(objects)@[i],
            forall|i: int|
                old(objects)@.len() <= i < objects@.len() ==> is_room_monster(
                    #[trigger] objects@[i],
                    room,
                ),
        decreases num_monsters - placed,
    {
        let x = rand_in_range(rng, room.x1 + 1, room.x2 - 1);
        let y = rand_in_range(rng, room.y1, room.y2 - 1);
        let roll = rand_in_range(rng, 0, 99);
        let monster = if roll < 80 {
            Object::new(x, y, 'o', "orc", ColorRgb { r: 63, g: 127, b: 63 }, true)
        } else {
            Object::new(x, y, 'T', "troll", ColorRgb { r: 0, g: 127, b: 0 }, true)
        };
        objects.push(monster);
        placed = placed + 1;
    }
}

/// Places the entity at index `i` of the collection at `(x, y)`, leaving
/// every other entity and every other field untouched.
fn set_object_pos(objects: &mut Vec<Object>, i: usize, x: i32, y: i32)
    requires
        i < old(objects).len(),
    ensures
        final(objects)@.len() == old(objects)@.len(),
        final(objects)@[i as int].x == x,
        final(objects)@[i as int].y == y,
        final(objects)@[i as int].char == old(objects)@[i as int].char,
        final(objects)@[i as int].color == old(objects)@[i as int].color,
        final(objects)@[i as int].name == old(objects)@[i as int].name,
        final(objects)@[i as int].blocks == old(objects)@[i as int].blocks,
        final(objects)@[i as int].alive == old(objects)@[i as int].alive,
        forall|j: int|
            0 <= j < old(objects)@.len() && j != i ==> final(objects)@[j] == old(objects)@[j],
{
    let o = &mut objects[i];
    o.x = x;
    o.y = y;
}

proof fn lemma_carve_interior_dims(g: Seq<Seq<Tile>>, r: Rect)
    ensures
        carve_interior(g, r).len() == g.len(),
        forall|x: int| 0 <= x < g.len() ==> (#[trigger] carve_interior(g, r)[x]).len() == g[x].len(),
{
}

proof fn lemma_carve_segment_dims(g: Seq<Seq<Tile>>, s: Segment)
    ensures
        carve_segment(g, s).len() == g.len(),
        forall|x: int| 0 <= x < g.len() ==> (#[trigger] carve_segment(g, s)[x]).len() == g[x].len(),
{
}

/// One full generation run: starting from an all-wall `width` by `height`
/// grid, makes exactly `max_rooms` placement attempts, each with a uniformly
/// drawn candidate rectangle; accepts a candidate iff it intersects no
/// previously accepted room, carving its interior, populating it with
/// entities, placing the viewer (entity `PLAYER`) at the first accepted
/// room's center and joining every later room to its predecessor by a dogleg
/// corridor. Returns the carved grid, the accepted rooms in order, and the
/// recorded draw sequence; grid, room list and viewer position are exactly
/// the fold of the recorded draws, so equal draws give equal results.
/// Zero accepted rooms is legal: the grid stays all wall and the viewer
/// keeps its caller-supplied position.
pub fn make_map(
    width: i32,
    height: i32,
    room_min_size: i32,
    room_max_size: i32,
    max_rooms: i32,
    objects: &mut Vec<Object>,
    rng: &mut rand::rngs::StdRng,
) -> (out: (Vec<Vec<Tile>>, Vec<Rect>, Ghost<Seq<AttemptDraw>>))
    requires
        2 <= room_min_size <= room_max_size,
        room_max_size < width,
        room_max_size < height,
        2 * width <= i32::MAX,
        2 * height <= i32::MAX,
        0 <= max_rooms,
        old(objects).len() >= 1,
    ensures
        ({
            let g = gview(out.0);
            let rooms = out.1@;
            let draws = out.2@;
            let init = gen_init(
                width as int,
                height as int,
                (old(objects)@[PLAYER as int].x as int, old(objects)@[PLAYER as int].y as int),
            );
            let st = gen_fold(init, draws);
            &&& draws.len() == max_rooms
            &&& forall|i: int|
                0 <= i < draws.len() ==> draw_wf(
                    #[trigger] draws[i],
                    width as int,
                    height as int,
                    room_min_size as int,
                    room_max_size as int,
                )
            &&& g == st.grid
            &&& rooms == st.rooms
            &&& generated_wf(
                st,
                width as int,
                height as int,
                room_min_size as int,
                room_max_size as int,
            )
            &&& rooms.len() <= max_rooms
            &&& (final(objects)@[PLAYER as int].x as int, final(objects)@[PLAYER as int].y as int)
                == st.viewer
            &&& (rooms.len() > 0 ==> st.viewer == rooms[0].center_spec())
            &&& (rooms.len() == 0 ==> st.viewer == init.viewer && g == all_wall(
                width as int,
                height as int,
            ) && final(objects)@ == old(objects)@)
            &&& final(objects)@.len() >= old(objects)@.len()
            &&& forall|i: int| 1 <= i < old(objects)@.len() ==> final(objects)@[i] == old(objects)@[i]
            &&& final(objects)@[PLAYER as int].char == old(objects)@[PLAYER as int].char
            &&& final(objects)@[PLAYER as int].color == old(objects)@[PLAYER as int].color
            &&& final(objects)@[PLAYER as int].name == old(objects)@[PLAYER as int].name
            &&& final(objects)@[PLAYER as int].blocks == old(objects)@[PLAYER as int].blocks
            &&& final(objects)@[PLAYER as int].alive == old(objects)@[PLAYER as int].alive
            &&& forall|i: int|
                old(objects)@.len() <= i < final(objects)@.len() ==> exists|j: int|
                    0 <= j < rooms.len() && is_room_monster(
                        #[trigger] final(objects)@[i],
                        rooms[j],
                    )
        }),
{
    let ghost init = gen_init(
        width as int,
        height as int,
        (old(objects)@[PLAYER as int].x as int, old(objects)@[PLAYER as int].y as int),
    );
    let mut map = crate::grid::wall_grid(width, height);
    let mut rooms: Vec<Rect> = Vec::new();
    let ghost mut draws: Seq<AttemptDraw> = Seq::empty();
    let ghost mut corridors: Seq<Segment> = Seq::empty();
    let ghost n0 = old(objects)@.len() as int;
    proof {
        assert forall|x: int, y: int|
            #![trigger init.grid[x][y]]
            0 <= x < width && 0 <= y < height implies init.grid[x][y] == (
        if covered(init.rooms, init.corridors, x, y) {
            Tile::empty_spec()
        } else {
            Tile::wall_spec()
        }) by {
            assert(init.grid[x][y] == Tile::wall_spec());
            assert(!covered(init.rooms, init.corridors, x, y));
        }
        assert(generated_wf(
            init,
            width as int,
            height as int,
            room_min_size as int,
            room_max_size as int,
        ));
    }
    let mut attempt: i32 = 0;
    while attempt < max_rooms
        invariant
            0 <= attempt <= max_rooms,
            draws.len() == attempt,
            forall|i: int|
                0 <= i < draws.len() ==> draw_wf(
                    #[trigger] draws[i],
                    width as int,
                    height as int,
                    room_min_size as int,
                    room_max_size as int,
                ),
            ({
                let st = gen_fold(init, draws);
                &&& gview(map) == st.grid
                &&& rooms@ == st.rooms
                &&& corridors == st.corridors
                &&& generated_wf(
                    st,
                    width as int,
                    height as int,
                    room_min_size as int,
                    room_max_size as int,
                )
                &&& (objects@[PLAYER as int].x as int, objects@[PLAYER as int].y as int)
                    == st.viewer
                &&& (rooms@.len() > 0 ==> st.viewer == rooms@[0].center_spec())
                &&& (rooms@.len() == 0 ==> st.viewer == init.viewer)
            }),
            rooms@.len() <= attempt,
            objects@.len() >= n0,
            n0 == old(objects)@.len(),
            n0 >= 1,
            forall|i: int| 1 <= i < n0 ==> objects@[i] == old(objects)@[i],
            objects@[PLAYER as int].char == old(objects)@[PLAYER as int].char,
            objects@[PLAYER as int].color == old(objects)@[PLAYER as int].color,
            objects@[PLAYER as int].name == old(objects)@[PLAYER as int].name,
            objects@[PLAYER as int].blocks == old(objects)@[PLAYER as int].blocks,
            objects@[PLAYER as int].alive == old(objects)@[PLAYER as int].alive,
            rooms@.len() == 0 ==> objects@ == old(objects)@,
            forall|i: int|
                n0 <= i < objects@.len() ==> exists|j: int|
                    0 <= j < rooms@.len() && is_room_monster(#[trigger] objects@[i], rooms@[j]),
        decreases max_rooms - attempt,
    {
        let w = rand_in_range(rng, room_min_size, room_max_size);
        let h = rand_in_range(rng, room_min_size, room_max_size);
        let x = rand_in_range(rng, 0, width - w - 1);
        let y = rand_in_range(rng, 0, height - h - 1);
        let new_room = Rect::new(x, y, w, h);
        let ghost st_before = gen_fold(init, draws);
        let ghost mut d = AttemptDraw { w, h, x, y, horizontal_first: false };
        proof {
            assert(new_room == rect_of(d));
            assert(draw_wf(
                d,
                width as int,
                height as int,
                room_min_size as int,
                room_max_size as int,
            ));
        }
        let mut failed = false;
        let mut k: usize = 0;
        while k < rooms.len()
            invariant
                0 <= k <= rooms@.len(),
                failed == (exists|i: int|
                    0 <= i < k && new_room.intersects_spec(#[trigger] rooms@[i])),
            decreases rooms@.len() - k,
        {
            if new_room.intersects_with(&rooms[k]) {
                failed = true;
            }
            k = k + 1;
        }
        proof {
            assert(failed == conflicts(rooms@, new_room));
        }
        let ghost m0 = objects@.len() as int;
        if !failed {
            create_room(new_room, &mut map);
            proof {
                lemma_carve_interior_dims(st_before.grid, new_room);
            }
            place_objects(new_room, objects, rng);
            let (new_x, new_y) = new_room.center();
            if rooms.len() == 0 {
                set_object_pos(objects, PLAYER, new_x, new_y);
            } else {
                let prev_room = rooms[rooms.len() - 1];
                let (prev_x, prev_y) = prev_room.center();
                let coin = rand_bool(rng);
                proof {
                    d = AttemptDraw { horizontal_first: coin, ..d };
                    assert(new_room == rect_of(d));
                }
                let ghost segs = dogleg_segments(
                    prev_room.center_spec(),
                    new_room.center_spec(),
                    coin,
                );
                if coin {
                    create_h_tunnel(prev_x, new_x, prev_y, &mut map);
                    proof {
                        lemma_carve_segment_dims(carve_interior(st_before.grid, new_room), segs.0);
                    }
                    create_v_tunnel(prev_y, new_y, new_x, &mut map);
                } else {
                    create_v_tunnel(prev_y, new_y, prev_x, &mut map);
                    proof {
                        lemma_carve_segment_dims(carve_interior(st_before.grid, new_room), segs.0);
                    }
                    create_h_tunnel(prev_x, new_x, new_y, &mut map);
                }
                proof {
                    corridors = corridors.push(segs.0).push(segs.1);
                }
            }
            rooms.push(new_room);
        }
        proof {
            lemma_step_preserves_generated(
                st_before,
                d,
                width as int,
                height as int,
                room_min_size as int,
                room_max_size as int,
            );
            lemma_gen_fold_snoc(init, draws, d);
            draws = draws.push(d);
            let st_after = gen_fold(init, draws);
            assert(st_after == gen_step(st_before, d));
            assert(gview(map) == st_after.grid);
            assert(rooms@ =~= st_after.rooms);
            assert(corridors =~= st_after.corridors);
            assert forall|i: int| n0 <= i < objects@.len() implies exists|j: int|
                0 <= j < rooms@.len() && is_room_monster(#[trigger] objects@[i], rooms@[j]) by {
                if i < m0 {
                    let j = choose|j: int|
                        0 <= j < st_before.rooms.len() && is_room_monster(
                            objects@[i],
                            st_before.rooms[j],
                        );
                    assert(rooms@[j] == st_before.rooms[j]);
                    assert(is_room_monster(objects@[i], rooms@[j]));
                } else {
                    assert(is_room_monster(objects@[i], rooms@[rooms@.len() - 1]));
                }
            }
        }
        attempt = attempt + 1;
    }
    proof {
        let st = gen_fold(init, draws);
        if rooms@.len() == 0 {
            assert forall|x: int, y: int|
                #![trigger st.grid[x][y]]
                0 <= x < width && 0 <= y < height implies st.grid[x][y] == Tile::wall_spec() by {
                assert(!covered(st.rooms, st.corridors, x, y));
            }
            assert(gview(map) =~~= all_wall(width as int, height as int));
        }
    }
    (map, rooms, Ghost(draws))
}

} // verus!
