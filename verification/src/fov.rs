//! The visibility/exploration tracker: decides when the external
//! field-of-view oracle must be re-queried, and folds each oracle verdict
//! into the grid's persistent, monotonic `explored` flags.

use vstd::prelude::*;

use crate::grid::{gheight, grid_wf, gview, gwidth};
use crate::tile::Tile;

verus! {

/// The only history the tracker keeps: the viewer's position at the previous
/// tick. The starting sentinel `(-1, -1)` matches no grid position, so the
/// first tick always recomputes.
pub struct FovTracker {
    pub prev_x: i32,
    pub prev_y: i32,
}

/// The view of a per-tile visibility field handed back by the oracle,
/// laid out like the grid: `vis[x][y]` is the verdict for `(x, y)`.
pub open spec fn vview(v: Vec<Vec<bool>>) -> Seq<Seq<bool>> {
    Seq::new(v@.len(), |x: int| v@[x]@)
}

/// The grid after one oracle verdict is folded in: every visible tile
/// becomes explored, explored tiles stay explored, and no other tile state
/// changes.
pub open spec fn apply_vis_spec(g: Seq<Seq<Tile>>, vis: Seq<Seq<bool>>) -> Seq<Seq<Tile>> {
    Seq::new(
        g.len(),
        |x: int|
            Seq::new(
                g[x].len(),
                |y: int|
                    Tile {
                        explored: g[x][y].explored || vis[x][y],
                        ..g[x][y]
                    },
            ),
    )
}

/// The grid after a whole sequence of ticks' verdicts, applied in order.
pub open spec fn run_ticks(g: Seq<Seq<Tile>>, fields: Seq<Seq<Seq<bool>>>) -> Seq<Seq<Tile>>
    decreases fields.len(),
{
    if fields.len() == 0 {
        g
    } else {
        run_ticks(apply_vis_spec(g, fields[0]), fields.drop_first())
    }
}

proof fn lemma_run_ticks_snoc(g: Seq<Seq<Tile>>, fields: Seq<Seq<Seq<bool>>>, f: Seq<Seq<bool>>)
    ensures
        run_ticks(g, fields.push(f)) == apply_vis_spec(run_ticks(g, fields), f),
    decreases fields.len(),
{
    if fields.len() == 0 {
        assert(fields.push(f)[0] == f);
        assert(fields.push(f).drop_first() =~= Seq::<Seq<Seq<bool>>>::empty());
        assert(run_ticks(g, fields.push(f)) == run_ticks(
            apply_vis_spec(g, f),
            Seq::<Seq<Seq<bool>>>::empty(),
        ));
        assert(run_ticks(g, fields) == g);
    } else {
        assert(fields.push(f)[0] == fields[0]);
        assert(fields.push(f).drop_first() =~= fields.drop_first().push(f));
        lemma_run_ticks_snoc(apply_vis_spec(g, fields[0]), fields.drop_first(), f);
        assert(run_ticks(g, fields.push(f)) == run_ticks(
            apply_vis_spec(g, fields[0]),
            fields.drop_first().push(f),
        ));
        assert(run_ticks(g, fields) == run_ticks(apply_vis_spec(g, fields[0]), fields.drop_first()));
    }
}

proof fn lemma_run_ticks_dims(g: Seq<Seq<Tile>>, fields: Seq<Seq<Seq<bool>>>)
    ensures
        run_ticks(g, fields).len() == g.len(),
        forall|x: int|
            0 <= x < g.len() ==> (#[trigger] run_ticks(g, fields)[x]).len() == g[x].len(),
    decreases fields.len(),
{
    if fields.len() == 0 {
    } else {
        lemma_run_ticks_dims(apply_vis_spec(g, fields[0]), fields.drop_first());
    }
}

/// Monotonicity of exploration: a tile explored after the first `j` ticks is
/// still explored after any later tick `k` of the same run, whatever the
/// oracle reported in between — `explored`, once true, is never cleared.
pub proof fn lemma_explored_monotonic(
    g: Seq<Seq<Tile>>,
    fields: Seq<Seq<Seq<bool>>>,
    j: int,
    k: int,
    x: int,
    y: int,
)
    requires
        0 <= j <= k <= fields.len(),
        0 <= x < g.len(),
        0 <= y < g[x].len(),
        run_ticks(g, fields.take(j))[x][y].explored,
    ensures
        run_ticks(g, fields.take(k))[x][y].explored,
    decreases k - j,
{
    if j < k {
        lemma_run_ticks_dims(g, fields.take(j));
        assert(fields.take(j + 1) =~= fields.take(j).push(fields[j]));
        lemma_run_ticks_snoc(g, fields.take(j), fields[j]);
        assert(run_ticks(g, fields.take(j + 1))[x][y].explored);
        lemma_explored_monotonic(g, fields, j + 1, k, x, y);
    }
}

impl FovTracker {
    /// A fresh tracker whose sentinel forces the first recomputation.
    pub fn new() -> (t: FovTracker)
        ensures
            t.prev_x == -1,
            t.prev_y == -1,
    {
        FovTracker { prev_x: -1, prev_y: -1 }
    }

    /// One tick's dirty check: reports whether the oracle must be re-queried
    /// — exactly when the viewer's position differs from the previous tick's
    /// — and records the position for the next tick.
    pub fn tick(&mut self, x: i32, y: i32) -> (recompute: bool)
        ensures
            recompute == !(old(self).prev_x == x && old(self).prev_y == y),
            final (self).prev_x == x,
            final (self).prev_y == y,
    {
        let recompute = !(self.prev_x == x && self.prev_y == y);
        self.prev_x = x;
        self.prev_y = y;
        recompute
    }
}

/// Folds one oracle verdict into the grid: sets `explored` on every tile the
/// oracle marked visible, leaves it set where it already was, and changes
/// nothing else about any tile.
pub fn apply_visibility(map: &mut Vec<Vec<Tile>>, visible: &Vec<Vec<bool>>)
    requires
        grid_wf(gview(*old(map))),
        visible@.len() == gwidth(gview(*old(map))),
        forall|x: int|
            0 <= x < visible@.len() ==> (#[trigger] visible@[x])@.len() == gheight(
                gview(*old(map)),
            ),
    ensures
        gview(*final(map)) == apply_vis_spec(gview(*old(map)), vview(*visible)),
        forall|x: int, y: int|
            #![trigger gview(*final(map))[x][y]]
            0 <= x < gwidth(gview(*old(map))) && 0 <= y < gheight(gview(*old(map))) ==> {
                let t0 = gview(*old(map))[x][y];
                let t1 = gview(*final(map))[x][y];
                &&& t1.blocked == t0.blocked
                &&& t1.block_sight == t0.block_sight
                &&& t1.explored == (t0.explored || vview(*visible)[x][y])
            },
{
    let ghost g0 = gview(*old(map));
    let w = map.len();
    let mut x: usize = 0;
    while x < w
        invariant
            0 <= x <= w,
            w == g0.len(),
            map@.len() == g0.len(),
            forall|i: int| 0 <= i < g0.len() ==> (#[trigger] map@[i])@.len() == g0[i].len(),
            forall|i: int, j: int|
                #![trigger map@[i]@[j]]
                0 <= i < g0.len() && 0 <= j < g0[i].len() ==> map@[i]@[j] == (
                if i < x {
                    Tile { explored: g0[i][j].explored || vview(*visible)[i][j], ..g0[i][j] }
                } else {
                    g0[i][j]
                }),
        decreases w - x,
    {
        let hcol = map[x].len();
        let mut y: usize = 0;
        while y < hcol
            invariant
                0 <= y <= hcol,
                x < w,
                w == g0.len(),
                hcol == g0[x as int].len(),
                map@.len() == g0.len(),
                forall|i: int| 0 <= i < g0.len() ==> (#[trigger] map@[i])@.len() == g0[i].len(),
                forall|i: int, j: int|
                    #![trigger map@[i]@[j]]
                    0 <= i < g0.len() && 0 <= j < g0[i].len() ==> map@[i]@[j] == (
                    if i < x || (i == x && j < y) {
                        Tile { explored: g0[i][j].explored || vview(*visible)[i][j], ..g0[i][j] }
                    } else {
                        g0[i][j]
                    }),
            decreases hcol - y,
        {
            if visible[x][y] {
                let t = map[x][y];
                map[x][y] = Tile { blocked: t.blocked, block_sight: t.block_sight, explored: true };
            }
            y = y + 1;
        }
        x = x + 1;
    }
    proof {
        assert(gview(*map) =~~= apply_vis_spec(g0, vview(*visible)));
    }
}

} // verus!
