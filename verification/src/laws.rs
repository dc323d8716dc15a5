//! The properties the library promises, proved once and for all over the
//! model in `life`.

use vstd::prelude::*;
use crate::life::{
    wrap_add, lin, toggled, nbr, live_neighbors, stepped, all_dead, all_alive,
    lemma_lin_bounds, lemma_wrap_range, lemma_lin_inverse,
};

verus! {

/// Toggling a cell is its own inverse: toggling the same cell twice gives
/// back the original grid.
pub proof fn lemma_toggle_twice(g: Seq<bool>, k: int)
    requires
        0 <= k < g.len(),
    ensures
        toggled(toggled(g, k), k) == g,
{
    assert(toggled(toggled(g, k), k) =~= g);
}

/// On an all-dead grid no cell has a live neighbor.
proof fn lemma_nbr_dead(g: Seq<bool>, w: int, h: int, row: int, col: int, dr: int, dc: int)
    requires
        w >= 1,
        h >= 1,
        g.len() == w * h,
        all_dead(g),
    ensures
        nbr(g, w, h, row, col, dr, dc) == 0,
{
    lemma_wrap_range(row, dr, h);
    lemma_wrap_range(col, dc, w);
    lemma_lin_bounds(wrap_add(row, dr, h), wrap_add(col, dc, w), w, h);
}

/// On an all-dead grid every neighbor count is zero.
pub proof fn lemma_all_dead_no_neighbors(g: Seq<bool>, w: int, h: int, row: int, col: int)
    requires
        w >= 1,
        h >= 1,
        g.len() == w * h,
        all_dead(g),
    ensures
        live_neighbors(g, w, h, row, col) == 0,
{
    lemma_nbr_dead(g, w, h, row, col, -1, -1);
    lemma_nbr_dead(g, w, h, row, col, -1, 0);
    lemma_nbr_dead(g, w, h, row, col, -1, 1);
    lemma_nbr_dead(g, w, h, row, col, 0, -1);
    lemma_nbr_dead(g, w, h, row, col, 0, 1);
    lemma_nbr_dead(g, w, h, row, col, 1, -1);
    lemma_nbr_dead(g, w, h, row, col, 1, 0);
    lemma_nbr_dead(g, w, h, row, col, 1, 1);
}

/// No spontaneous generation: one tick of an all-dead grid leaves every cell
/// dead.
pub proof fn lemma_tick_all_dead(g: Seq<bool>, w: int, h: int)
    requires
        w >= 0,
        h >= 0,
        g.len() == w * h,
        all_dead(g),
    ensures
        all_dead(stepped(g, w, h)),
{
    assert forall|k: int| 0 <= k < stepped(g, w, h).len() implies !stepped(g, w, h)[k] by {
        assert(w >= 1 && h >= 1) by (nonlinear_arith)
            requires
                w >= 0,
                h >= 0,
                0 <= k < w * h,
        ;
        lemma_all_dead_no_neighbors(g, w, h, k / w, k % w);
    }
}

/// Underpopulation: a cell with fewer than two live neighbors is dead after
/// one tick, whatever its own state was; in particular a lone live cell with
/// no live neighbors dies.
pub proof fn lemma_underpopulation(g: Seq<bool>, w: int, h: int, row: int, col: int)
    requires
        w >= 1,
        h >= 1,
        g.len() == w * h,
        0 <= row < h,
        0 <= col < w,
        live_neighbors(g, w, h, row, col) < 2,
    ensures
        !stepped(g, w, h)[lin(row, col, w)],
{
    lemma_lin_bounds(row, col, w, h);
    lemma_lin_inverse(row, col, w);
}

/// On a fully alive grid every neighbor of every cell is alive.
proof fn lemma_nbr_alive(g: Seq<bool>, w: int, h: int, row: int, col: int, dr: int, dc: int)
    requires
        w >= 1,
        h >= 1,
        g.len() == w * h,
        all_alive(g),
    ensures
        nbr(g, w, h, row, col, dr, dc) == 1,
{
    lemma_wrap_range(row, dr, h);
    lemma_wrap_range(col, dc, w);
    lemma_lin_bounds(wrap_add(row, dr, h), wrap_add(col, dc, w), w, h);
}

/// Toroidal wraparound in full: on a fully alive grid every cell, edge and
/// corner cells included, counts exactly eight live neighbors.
pub proof fn lemma_full_grid_eight_neighbors(g: Seq<bool>, w: int, h: int, row: int, col: int)
    requires
        w >= 1,
        h >= 1,
        g.len() == w * h,
        all_alive(g),
    ensures
        live_neighbors(g, w, h, row, col) == 8,
{
    lemma_nbr_alive(g, w, h, row, col, -1, -1);
    lemma_nbr_alive(g, w, h, row, col, -1, 0);
    lemma_nbr_alive(g, w, h, row, col, -1, 1);
    lemma_nbr_alive(g, w, h, row, col, 0, -1);
    lemma_nbr_alive(g, w, h, row, col, 0, 1);
    lemma_nbr_alive(g, w, h, row, col, 1, -1);
    lemma_nbr_alive(g, w, h, row, col, 1, 0);
    lemma_nbr_alive(g, w, h, row, col, 1, 1);
}

} // verus!
