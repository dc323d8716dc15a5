//! The mathematical model of the game: toroidal coordinate wrapping, the
//! B3/S23 next-state rule, neighbor counting, stamp placement and the
//! printable rendering, all as spec functions over a flat row-major
//! `Seq<bool>` of `width * height` cells, plus the arithmetic lemmas the
//! implementation's proofs lean on.

use vstd::prelude::*;
use vstd::arithmetic::div_mod::{lemma_fundamental_div_mod, lemma_fundamental_div_mod_converse};

verus! {

/// `center + offset`, wrapped into `[0, m)`; the offset may reach one full
/// revolution either way, so a single added `m` keeps the numerator
/// nonnegative.
pub open spec fn wrap_add(center: int, offset: int, m: int) -> int {
    (center + offset + m) % m
}

/// The linear index of `(row, col)` on a grid `w` cells wide.
pub open spec fn lin(row: int, col: int, w: int) -> int {
    row * w + col
}

/// One cell toggled, the rest untouched.
pub open spec fn toggled(g: Seq<bool>, k: int) -> Seq<bool> {
    g.update(k, !g[k])
}

/// 1 if the toroidal neighbor of `(row, col)` at offset `(dr, dc)` is alive.
pub open spec fn nbr(g: Seq<bool>, w: int, h: int, row: int, col: int, dr: int, dc: int) -> int {
    if g[lin(wrap_add(row, dr, h), wrap_add(col, dc, w), w)] {
        1int
    } else {
        0int
    }
}

/// How many of the eight toroidal neighbors of `(row, col)` are alive.
pub open spec fn live_neighbors(g: Seq<bool>, w: int, h: int, row: int, col: int) -> int {
    nbr(g, w, h, row, col, -1, -1) + nbr(g, w, h, row, col, -1, 0) + nbr(g, w, h, row, col, -1, 1)
        + nbr(g, w, h, row, col, 0, -1) + nbr(g, w, h, row, col, 0, 1)
        + nbr(g, w, h, row, col, 1, -1) + nbr(g, w, h, row, col, 1, 0)
        + nbr(g, w, h, row, col, 1, 1)
}

/// The B3/S23 rule: a live cell survives with two or three live neighbors,
/// a dead cell is born with exactly three.
pub open spec fn next_state(alive: bool, neighbors: int) -> bool {
    if alive {
        neighbors == 2 || neighbors == 3
    } else {
        neighbors == 3
    }
}

/// One synchronous generation: every cell judged against the same snapshot.
pub open spec fn stepped(g: Seq<bool>, w: int, h: int) -> Seq<bool> {
    Seq::new((w * h) as nat, |k: int| next_state(g[k], live_neighbors(g, w, h, k / w, k % w)))
}

/// Where stamp cell `(dr, dc)` of an odd `dh` by `dw` stamp centered at
/// `(cr, cc)` lands on the grid.
pub open spec fn stamp_target(
    cr: int,
    cc: int,
    dh: int,
    dw: int,
    dr: int,
    dc: int,
    w: int,
    h: int,
) -> int {
    lin(wrap_add(cr, dr - (dh - 1) / 2, h), wrap_add(cc, dc - (dw - 1) / 2, w), w)
}

/// Whether grid index `k` lies under the stamp's footprint.
pub open spec fn in_stamp(cr: int, cc: int, dh: int, dw: int, w: int, h: int, k: int) -> bool {
    exists|dr: int, dc: int|
        0 <= dr < dh && 0 <= dc < dw && stamp_target(cr, cc, dh, dw, dr, dc, w, h) == k
}

/// Whether some listed `(row, col)` pair maps to linear index `k`.
pub open spec fn listed(l: Seq<(u32, u32)>, w: int, k: int) -> bool {
    exists|i: int| 0 <= i < l.len() && lin(l[i].0 as int, l[i].1 as int, w) == k
}

/// Every cell dead.
pub open spec fn all_dead(g: Seq<bool>) -> bool {
    forall|k: int| 0 <= k < g.len() ==> !g[k]
}

/// Every cell alive.
pub open spec fn all_alive(g: Seq<bool>) -> bool {
    forall|k: int| 0 <= k < g.len() ==> g[k]
}

/// The 5 by 5 glider stamp, row-major.
pub open spec fn glider_pattern() -> Seq<u8> {
    seq![
        0u8, 0, 0, 0, 0,
        0, 0, 1, 0, 0,
        0, 0, 0, 1, 0,
        0, 1, 1, 1, 0,
        0, 0, 0, 0, 0,
    ]
}

/// The 15 by 15 pulsar stamp, row-major.
pub open spec fn pulsar_pattern() -> Seq<u8> {
    seq![
        0u8, 0, 0, 0, 0, 0, 0, 0, 0, 0, 0, 0, 0, 0, 0,
        0, 0, 0, 1, 1, 1, 0, 0, 0, 1, 1, 1, 0, 0, 0,
        0, 0, 0, 0, 0, 0, 0, 0, 0, 0, 0, 0, 0, 0, 0,
        0, 1, 0, 0, 0, 0, 1, 0, 1, 0, 0, 0, 0, 1, 0,
        0, 1, 0, 0, 0, 0, 1, 0, 1, 0, 0, 0, 0, 1, 0,
        0, 1, 0, 0, 0, 0, 1, 0, 1, 0, 0, 0, 0, 1, 0,
        0, 0, 0, 1, 1, 1, 0, 0, 0, 1, 1, 1, 0, 0, 0,
        0, 0, 0, 0, 0, 0, 0, 0, 0, 0, 0, 0, 0, 0, 0,
        0, 0, 0, 1, 1, 1, 0, 0, 0, 1, 1, 1, 0, 0, 0,
        0, 1, 0, 0, 0, 0, 1, 0, 1, 0, 0, 0, 0, 1, 0,
        0, 1, 0, 0, 0, 0, 1, 0, 1, 0, 0, 0, 0, 1, 0,
        0, 1, 0, 0, 0, 0, 1, 0, 1, 0, 0, 0, 0, 1, 0,
        0, 0, 0, 0, 0, 0, 0, 0, 0, 0, 0, 0, 0, 0, 0,
        0, 0, 0, 1, 1, 1, 0, 0, 0, 1, 1, 1, 0, 0, 0,
        0, 0, 0, 0, 0, 0, 0, 0, 0, 0, 0, 0, 0, 0, 0,
    ]
}

/// The glyph a cell prints as.
pub open spec fn glyph(alive: bool) -> char {
    if alive {
        '◼'
    } else {
        '◻'
    }
}

/// The first `ncols` glyphs of row `row`.
pub open spec fn render_row(g: Seq<bool>, w: int, row: int, ncols: int) -> Seq<char>
    decreases ncols,
{
    if ncols <= 0 {
        Seq::empty()
    } else {
        render_row(g, w, row, ncols - 1).push(glyph(g[lin(row, ncols - 1, w)]))
    }
}

/// The first `nrows` rows, each of `w` glyphs and a terminating newline.
pub open spec fn render_rows(g: Seq<bool>, w: int, nrows: int) -> Seq<char>
    decreases nrows,
{
    if nrows <= 0 {
        Seq::empty()
    } else {
        render_rows(g, w, nrows - 1) + render_row(g, w, nrows - 1, w).push('\n')
    }
}

/// A linear index built from in-range row and column lies within the grid.
pub proof fn lemma_lin_bounds(row: int, col: int, w: int, h: int)
    requires
        0 <= row < h,
        0 <= col < w,
    ensures
        0 <= lin(row, col, w) < w * h,
{
    assert(0 <= row * w + col < w * h) by (nonlinear_arith)
        requires
            0 <= row < h,
            0 <= col < w,
    ;
}

/// Wrapping always lands in `[0, m)`.
pub proof fn lemma_wrap_range(center: int, offset: int, m: int)
    requires
        m >= 1,
    ensures
        0 <= wrap_add(center, offset, m) < m,
{
}

/// A linear index determines its row and column.
pub proof fn lemma_lin_inverse(row: int, col: int, w: int)
    requires
        0 <= col < w,
        0 <= row,
    ensures
        lin(row, col, w) / w == row,
        lin(row, col, w) % w == col,
{
    lemma_fundamental_div_mod_converse(row * w + col, w, row, col);
}

/// Two numbers less than one revolution apart with equal residues are equal.
pub proof fn lemma_mod_injective(x1: int, x2: int, m: int)
    requires
        m >= 1,
        x1 % m == x2 % m,
        -m < x1 - x2 < m,
    ensures
        x1 == x2,
{
    lemma_fundamental_div_mod(x1, m);
    lemma_fundamental_div_mod(x2, m);
    assert(x1 - x2 == m * (x1 / m) - m * (x2 / m));
    assert(x1 == x2) by (nonlinear_arith)
        requires
            m >= 1,
            -m < x1 - x2 < m,
            x1 - x2 == m * (x1 / m) - m * (x2 / m),
    ;
}

/// Distinct stamp cells land on distinct grid cells: the stamp spans at most
/// one revolution in each direction, so wrapping cannot fold it onto itself.
pub proof fn lemma_stamp_target_injective(
    cr: int,
    cc: int,
    dh: int,
    dw: int,
    dr1: int,
    dc1: int,
    dr2: int,
    dc2: int,
    w: int,
    h: int,
)
    requires
        cr >= 0,
        cc >= 0,
        1 <= dh <= h,
        1 <= dw <= w,
        0 <= dr1 < dh,
        0 <= dc1 < dw,
        0 <= dr2 < dh,
        0 <= dc2 < dw,
        stamp_target(cr, cc, dh, dw, dr1, dc1, w, h) == stamp_target(cr, cc, dh, dw, dr2, dc2, w, h),
    ensures
        dr1 == dr2,
        dc1 == dc2,
{
    let r1 = wrap_add(cr, dr1 - (dh - 1) / 2, h);
    let c1 = wrap_add(cc, dc1 - (dw - 1) / 2, w);
    let r2 = wrap_add(cr, dr2 - (dh - 1) / 2, h);
    let c2 = wrap_add(cc, dc2 - (dw - 1) / 2, w);
    lemma_wrap_range(cr, dr1 - (dh - 1) / 2, h);
    lemma_wrap_range(cc, dc1 - (dw - 1) / 2, w);
    lemma_wrap_range(cr, dr2 - (dh - 1) / 2, h);
    lemma_wrap_range(cc, dc2 - (dw - 1) / 2, w);
    assert(r1 == r2 && c1 == c2) by {
        lemma_lin_inverse(r1, c1, w);
        lemma_lin_inverse(r2, c2, w);
    }
    lemma_mod_injective(cr + (dr1 - (dh - 1) / 2) + h, cr + (dr2 - (dh - 1) / 2) + h, h);
    lemma_mod_injective(cc + (dc1 - (dw - 1) / 2) + w, cc + (dc2 - (dw - 1) / 2) + w, w);
}

} // verus!
