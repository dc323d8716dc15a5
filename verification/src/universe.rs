//! The `Universe`: a dense bit-packed toroidal grid with synchronous
//! generation advance, cell toggling, destructive resize and pattern
//! stamping.

use vstd::prelude::*;
use vstd::string::StringExecFns;
use fixedbitset::FixedBitSet;
use crate::bitset::{bits_of, bits_new, bits_get, bits_set, bits_clone};
use crate::life::{
    wrap_add, lin, toggled, live_neighbors, stepped, stamp_target, in_stamp, listed,
    glider_pattern, pulsar_pattern, render_row, render_rows, lemma_lin_bounds,
    lemma_wrap_range, lemma_lin_inverse, lemma_stamp_target_injective,
};

verus! {

/// A single cell: alive or dead.
#[derive(Clone, Copy, Debug, PartialEq, Eq, Structural)]
pub struct Cell(bool);

impl Cell {
    /// Whether the cell is alive.
    pub closed spec fn is_alive(self) -> bool {
        self.0
    }

    /// Flips alive to dead and dead to alive.
    fn toggle(&mut self)
        ensures
            final(self).is_alive() == !old(self).is_alive(),
    {
        self.0 = !self.0;
    }
}

/// The grid: `width * height` cells, one bit each, row-major.
pub struct Universe {
    width: u32,
    height: u32,
    cells: FixedBitSet,
}

impl View for Universe {
    type V = Seq<bool>;

    closed spec fn view(&self) -> Seq<bool> {
        bits_of(self.cells)
    }
}

impl Universe {
    /// The grid's width, for contracts.
    pub closed spec fn spec_width(self) -> u32 {
        self.width
    }

    /// The grid's height, for contracts.
    pub closed spec fn spec_height(self) -> u32 {
        self.height
    }

    /// Well-formed: the buffer holds exactly one bit per cell, and the cell
    /// count fits the 32-bit index arithmetic.
    pub open spec fn wf(self) -> bool {
        self@.len() == self.spec_width() * self.spec_height()
        && self.spec_width() * self.spec_height() <= u32::MAX
    }

    /// The grid's width.
    pub fn width(&self) -> (w: u32)
        ensures
            w == self.spec_width(),
    {
        self.width
    }

    /// The grid's height.
    pub fn height(&self) -> (h: u32)
        ensures
            h == self.spec_height(),
    {
        self.height
    }

    /// Read-only view of the packed cell buffer, for an external renderer.
    pub fn get_cells(&self) -> (r: &FixedBitSet)
        ensures
            bits_of(*r) == self@,
    {
        &self.cells
    }

    /// A fresh 64 by 64 universe whose cells take the given initial states,
    /// row-major; the caller injects them, e.g. from a random source.
    pub fn new(seed: Vec<bool>) -> (u: Universe)
        requires
            seed@.len() == 64 * 64,
        ensures
            u.wf(),
            u.spec_width() == 64,
            u.spec_height() == 64,
            u@ == seed@,
    {
        let width: u32 = 64;
        let height: u32 = 64;
        let size: usize = 64 * 64;
        let mut cells = bits_new(size);
        for i in 0..size
            invariant
                size == 64 * 64,
                seed@.len() == size,
                bits_of(cells).len() == size,
                forall|k: int| 0 <= k < i ==> bits_of(cells)[k] == seed@[k],
        {
            bits_set(&mut cells, i, seed[i]);
        }
        proof {
            assert(bits_of(cells) =~= seed@);
        }
        Universe { width, height, cells }
    }

    /// The linear index of in-range coordinates; no wraparound.
    fn get_index(&self, row: u32, col: u32) -> (idx: usize)
        requires
            self.wf(),
            row < self.spec_height(),
            col < self.spec_width(),
        ensures
            idx == lin(row as int, col as int, self.spec_width() as int),
            idx < self@.len(),
    {
        proof {
            lemma_lin_bounds(row as int, col as int, self.width as int, self.height as int);
        }
        (row as usize) * (self.width as usize) + (col as usize)
    }

    /// The linear index of the cell an offset away from a center, with both
    /// coordinates wrapped toroidally; the offset may not exceed one full
    /// revolution in either direction.
    fn get_index_with_offset(
        &self,
        center_row: u32,
        center_col: u32,
        row_offset: i32,
        col_offset: i32,
    ) -> (idx: usize)
        requires
            self.wf(),
            self.spec_width() >= 1,
            self.spec_height() >= 1,
            -(self.spec_height() as int) <= row_offset as int <= self.spec_height() as int,
            -(self.spec_width() as int) <= col_offset as int <= self.spec_width() as int,
        ensures
            idx == lin(
                wrap_add(center_row as int, row_offset as int, self.spec_height() as int),
                wrap_add(center_col as int, col_offset as int, self.spec_width() as int),
                self.spec_width() as int,
            ),
            idx < self@.len(),
    {
        let h = self.height as i64;
        let w = self.width as i64;
        let row = ((center_row as i64 + row_offset as i64 + h) % h) as u32;
        let col = ((center_col as i64 + col_offset as i64 + w) % w) as u32;
        proof {
            lemma_wrap_range(center_row as int, row_offset as int, self.spec_height() as int);
            lemma_wrap_range(center_col as int, col_offset as int, self.spec_width() as int);
            lemma_lin_bounds(row as int, col as int, self.width as int, self.height as int);
        }
        (row as usize) * (self.width as usize) + (col as usize)
    }

    /// How many of the eight toroidal neighbors of in-range `(row, col)` are
    /// alive; on a grid one or two cells across, wraparound can make a cell
    /// count itself or count a neighbor twice.
    pub fn live_neighbor_count(&self, row: u32, col: u32) -> (n: u8)
        requires
            self.wf(),
            self.spec_width() >= 1,
            self.spec_height() >= 1,
            row < self.spec_height(),
            col < self.spec_width(),
        ensures
            n as int == live_neighbors(
                self@,
                self.spec_width() as int,
                self.spec_height() as int,
                row as int,
                col as int,
            ),
            n <= 8,
    {
        let mut count: u8 = 0;
        let i0 = self.get_index_with_offset(row, col, -1, -1);
        if bits_get(&self.cells, i0) {
            count += 1;
        }
        let i1 = self.get_index_with_offset(row, col, -1, 0);
        if bits_get(&self.cells, i1) {
            count += 1;
        }
        let i2 = self.get_index_with_offset(row, col, -1, 1);
        if bits_get(&self.cells, i2) {
            count += 1;
        }
        let i3 = self.get_index_with_offset(row, col, 0, -1);
        if bits_get(&self.cells, i3) {
            count += 1;
        }
        let i4 = self.get_index_with_offset(row, col, 0, 1);
        if bits_get(&self.cells, i4) {
            count += 1;
        }
        let i5 = self.get_index_with_offset(row, col, 1, -1);
        if bits_get(&self.cells, i5) {
            count += 1;
        }
        let i6 = self.get_index_with_offset(row, col, 1, 0);
        if bits_get(&self.cells, i6) {
            count += 1;
        }
        let i7 = self.get_index_with_offset(row, col, 1, 1);
        if bits_get(&self.cells, i7) {
            count += 1;
        }
        count
    }

    /// Flips the cell at in-range `(row, col)`.
    pub fn toggle_cell(&mut self, row: u32, col: u32)
        requires
            old(self).wf(),
            row < old(self).spec_height(),
            col < old(self).spec_width(),
        ensures
            final(self).wf(),
            final(self).spec_width() == old(self).spec_width(),
            final(self).spec_height() == old(self).spec_height(),
            final(self)@ == toggled(
                old(self)@,
                lin(row as int, col as int, old(self).spec_width() as int),
            ),
    {
        let idx = self.get_index(row, col);
        let mut cell = Cell(bits_get(&self.cells, idx));
        cell.toggle();
        bits_set(&mut self.cells, idx, cell.0);
    }

    /// Stamps an odd-dimensioned 0/1 pattern, centered at the given toroidal
    /// coordinate: every grid cell under the footprint takes the stamp's
    /// value, ones forcing cells alive and zeros forcing them dead.
    fn insert(
        &mut self,
        center_row: u32,
        center_col: u32,
        data_height: u32,
        data_width: u32,
        data: &[u8],
    )
        requires
            old(self).wf(),
            data_height % 2 == 1,
            data_width % 2 == 1,
            data_height <= old(self).spec_height(),
            data_width <= old(self).spec_width(),
            data@.len() == data_height * data_width,
        ensures
            final(self).wf(),
            final(self).spec_width() == old(self).spec_width(),
            final(self).spec_height() == old(self).spec_height(),
            forall|dr: int, dc: int|
                0 <= dr < data_height && 0 <= dc < data_width ==> final(self)@[stamp_target(
                    center_row as int,
                    center_col as int,
                    data_height as int,
                    data_width as int,
                    dr,
                    dc,
                    old(self).spec_width() as int,
                    old(self).spec_height() as int,
                )] == (data@[dr * data_width + dc] == 1),
            forall|k: int|
                0 <= k < old(self)@.len() && !in_stamp(
                    center_row as int,
                    center_col as int,
                    data_height as int,
                    data_width as int,
                    old(self).spec_width() as int,
                    old(self).spec_height() as int,
                    k,
                ) ==> final(self)@[k] == old(self)@[k],
    {
        let w = self.width;
        let h = self.height;
        let ghost g0 = self@;
        let ghost wi = w as int;
        let ghost hi = h as int;
        let ghost cri = center_row as int;
        let ghost cci = center_col as int;
        let ghost dhi = data_height as int;
        let ghost dwi = data_width as int;
        let half_h = (data_height - 1) / 2;
        let half_w = (data_width - 1) / 2;
        let dlen = data.len();
        for dr in 0..data_height
            invariant
                self.wf(),
                self.spec_width() == w,
                self.spec_height() == h,
                wi == w as int,
                hi == h as int,
                cri == center_row as int,
                cci == center_col as int,
                dhi == data_height as int,
                dwi == data_width as int,
                half_h == (dhi - 1) / 2,
                half_w == (dwi - 1) / 2,
                1 <= dhi <= hi,
                1 <= dwi <= wi,
                dlen == data@.len(),
                data@.len() == dhi * dwi,
                self@.len() == g0.len(),
                forall|r2: int, c2: int|
                    0 <= r2 < dr && 0 <= c2 < dwi ==> self@[stamp_target(
                        cri, cci, dhi, dwi, r2, c2, wi, hi,
                    )] == (data@[r2 * dwi + c2] == 1),
                forall|k: int|
                    0 <= k < g0.len() && !in_stamp(cri, cci, dhi, dwi, wi, hi, k) ==> self@[k]
                        == g0[k],
        {
            for dc in 0..data_width
                invariant
                    self.wf(),
                    self.spec_width() == w,
                    self.spec_height() == h,
                    wi == w as int,
                    hi == h as int,
                    cri == center_row as int,
                    cci == center_col as int,
                    dhi == data_height as int,
                    dwi == data_width as int,
                    half_h == (dhi - 1) / 2,
                    half_w == (dwi - 1) / 2,
                    1 <= dhi <= hi,
                    1 <= dwi <= wi,
                    dr < data_height,
                    dlen == data@.len(),
                    data@.len() == dhi * dwi,
                    self@.len() == g0.len(),
                    forall|r2: int, c2: int|
                        0 <= r2 < dr && 0 <= c2 < dwi ==> self@[stamp_target(
                            cri, cci, dhi, dwi, r2, c2, wi, hi,
                        )] == (data@[r2 * dwi + c2] == 1),
                    forall|c2: int|
                        0 <= c2 < dc ==> self@[stamp_target(
                            cri, cci, dhi, dwi, dr as int, c2, wi, hi,
                        )] == (data@[dr as int * dwi + c2] == 1),
                    forall|k: int|
                        0 <= k < g0.len() && !in_stamp(cri, cci, dhi, dwi, wi, hi, k) ==> self@[k]
                            == g0[k],
            {
                let row_offset = (dr as i64 - half_h as i64) as i32;
                let col_offset = (dc as i64 - half_w as i64) as i32;
                let universe_idx = self.get_index_with_offset(
                    center_row,
                    center_col,
                    row_offset,
                    col_offset,
                );
                proof {
                    lemma_lin_bounds(dr as int, dc as int, dwi, dhi);
                    assert(dwi * dhi == dhi * dwi) by (nonlinear_arith);
                }
                let data_idx = (dr as usize) * (data_width as usize) + (dc as usize);
                let alive = data[data_idx] == 1;
                bits_set(&mut self.cells, universe_idx, alive);
                proof {
                    let t = stamp_target(cri, cci, dhi, dwi, dr as int, dc as int, wi, hi);
                    assert(universe_idx as int == t);
                    assert(in_stamp(cri, cci, dhi, dwi, wi, hi, t));
                    assert forall|r2: int, c2: int|
                        0 <= r2 < dhi && 0 <= c2 < dwi && !(r2 == dr as int && c2 == dc as int)
                            implies 0 <= #[trigger] stamp_target(cri, cci, dhi, dwi, r2, c2, wi, hi)
                        < self@.len() && stamp_target(cri, cci, dhi, dwi, r2, c2, wi, hi) != t by {
                        lemma_wrap_range(cri, r2 - (dhi - 1) / 2, hi);
                        lemma_wrap_range(cci, c2 - (dwi - 1) / 2, wi);
                        lemma_lin_bounds(
                            wrap_add(cri, r2 - (dhi - 1) / 2, hi),
                            wrap_add(cci, c2 - (dwi - 1) / 2, wi),
                            wi,
                            hi,
                        );
                        if stamp_target(cri, cci, dhi, dwi, r2, c2, wi, hi) == t {
                            lemma_stamp_target_injective(
                                cri, cci, dhi, dwi, r2, c2, dr as int, dc as int, wi, hi,
                            );
                        }
                    }
                }
            }
        }
    }

    /// Stamps the 5 by 5 glider, centered at the given toroidal coordinate.
    pub fn insert_glider(&mut self, center_row: u32, center_col: u32)
        requires
            old(self).wf(),
            5 <= old(self).spec_width(),
            5 <= old(self).spec_height(),
        ensures
            final(self).wf(),
            final(self).spec_width() == old(self).spec_width(),
            final(self).spec_height() == old(self).spec_height(),
            forall|dr: int, dc: int|
                0 <= dr < 5 && 0 <= dc < 5 ==> final(self)@[stamp_target(
                    center_row as int,
                    center_col as int,
                    5,
                    5,
                    dr,
                    dc,
                    old(self).spec_width() as int,
                    old(self).spec_height() as int,
                )] == (glider_pattern()[dr * 5 + dc] == 1),
            forall|k: int|
                0 <= k < old(self)@.len() && !in_stamp(
                    center_row as int,
                    center_col as int,
                    5,
                    5,
                    old(self).spec_width() as int,
                    old(self).spec_height() as int,
                    k,
                ) ==> final(self)@[k] == old(self)@[k],
    {
        let glider: Vec<u8> = vec![
            0, 0, 0, 0, 0,
            0, 0, 1, 0, 0,
            0, 0, 0, 1, 0,
            0, 1, 1, 1, 0,
            0, 0, 0, 0, 0,
        ];
        proof {
            assert(glider@ =~= glider_pattern());
        }
        self.insert(center_row, center_col, 5, 5, glider.as_slice());
    }

    /// Stamps the 15 by 15 pulsar, centered at the given toroidal coordinate.
    #[verifier::rlimit(30)]
    pub fn insert_pulsar(&mut self, center_row: u32, center_col: u32)
        requires
            old(self).wf(),
            15 <= old(self).spec_width(),
            15 <= old(self).spec_height(),
        ensures
            final(self).wf(),
            final(self).spec_width() == old(self).spec_width(),
            final(self).spec_height() == old(self).spec_height(),
            forall|dr: int, dc: int|
                0 <= dr < 15 && 0 <= dc < 15 ==> final(self)@[stamp_target(
                    center_row as int,
                    center_col as int,
                    15,
                    15,
                    dr,
                    dc,
                    old(self).spec_width() as int,
                    old(self).spec_height() as int,
                )] == (pulsar_pattern()[dr * 15 + dc] == 1),
            forall|k: int|
                0 <= k < old(self)@.len() && !in_stamp(
                    center_row as int,
                    center_col as int,
                    15,
                    15,
                    old(self).spec_width() as int,
                    old(self).spec_height() as int,
                    k,
                ) ==> final(self)@[k] == old(self)@[k],
    {
        let pulsar: Vec<u8> = vec![
            0, 0, 0, 0, 0, 0, 0, 0, 0, 0, 0, 0, 0, 0, 0,
            0, 0, 0, 1, 1, 1, 0, 0, 0, 1, 1, 1, 0, 0, 0,
            0, 0, 0, 0, 0, 0, 0, 0, 0, 0, 0, 0, 0, 0, 0,
            0, 1, 0, 0, 0, 0, 1, 0, 1, 0, 0, 0, 0, 1, 0,
            0, 1, 0, 0, 0, 0, 1, 0, 1, 0, 0, 0, 0, 1, 0,
            0, 1, 0, 0, 0, 0, 1, 0, 1, 0, 0, 0, 0, 1, 0,
            0, 0, 0, 1, 1, 1, 0, 0, 0, 1, 1, 1, 0, 0, 0,
            0, 0, 0, 0, 0, 0, 0, 0, 0, 0, 0, 0, 0, 0, 0,
            0, 0, 0, 1, 1, 1, 0, 0, 0, 1, 1, 1, 0, 0, 0,
            0, 1, 0, 0, 0, 0, 1, 0, 1, 0, 0, 0, 0, 1, 0,
            0, 1, 0, 0, 0, 0, 1, 0, 1, 0, 0, 0, 0, 1, 0,
            0, 1, 0, 0, 0, 0, 1, 0, 1, 0, 0, 0, 0, 1, 0,
            0, 0, 0, 0, 0, 0, 0, 0, 0, 0, 0, 0, 0, 0, 0,
            0, 0, 0, 1, 1, 1, 0, 0, 0, 1, 1, 1, 0, 0, 0,
            0, 0, 0, 0, 0, 0, 0, 0, 0, 0, 0, 0, 0, 0, 0,
        ];
        proof {
            assert(pulsar@ =~= pulsar_pattern());
        }
        self.insert(center_row, center_col, 15, 15, pulsar.as_slice());
    }

    /// Marks every listed in-range `(row, col)` alive; all other cells keep
    /// their state.
    pub fn set_cells(&mut self, cells: &[(u32, u32)])
        requires
            old(self).wf(),
            forall|i: int|
                0 <= i < cells@.len() ==> (cells@[i].0 < old(self).spec_height() && cells@[i].1
                    < old(self).spec_width()),
        ensures
            final(self).wf(),
            final(self).spec_width() == old(self).spec_width(),
            final(self).spec_height() == old(self).spec_height(),
            forall|i: int|
                0 <= i < cells@.len() ==> final(self)@[lin(
                    cells@[i].0 as int,
                    cells@[i].1 as int,
                    old(self).spec_width() as int,
                )],
            forall|k: int|
                0 <= k < old(self)@.len() && !listed(cells@, old(self).spec_width() as int, k)
                    ==> final(self)@[k] == old(self)@[k],
    {
        let w = self.width;
        let h = self.height;
        let ghost g0 = self@;
        let ghost wi = w as int;
        let n = cells.len();
        for i in 0..n
            invariant
                self.wf(),
                self.spec_width() == w,
                self.spec_height() == h,
                wi == w as int,
                n == cells@.len(),
                self@.len() == g0.len(),
                forall|i2: int|
                    0 <= i2 < cells@.len() ==> (cells@[i2].0 < h && cells@[i2].1 < w),
                forall|j: int|
                    0 <= j < i ==> self@[lin(cells@[j].0 as int, cells@[j].1 as int, wi)],
                forall|k: int|
                    0 <= k < g0.len() && !listed(cells@, wi, k) ==> self@[k] == g0[k],
        {
            let pair = cells[i];
            let idx = self.get_index(pair.0, pair.1);
            bits_set(&mut self.cells, idx, true);
            proof {
                assert(listed(cells@, wi, idx as int));
                assert forall|j: int| 0 <= j < i + 1 implies self@[#[trigger] lin(
                    cells@[j].0 as int,
                    cells@[j].1 as int,
                    wi,
                )] by {
                    lemma_lin_bounds(cells@[j].0 as int, cells@[j].1 as int, wi, h as int);
                }
            }
        }
    }

    /// Advances one generation: every cell is judged by the B3/S23 rule
    /// against the same pre-tick snapshot, then the new grid replaces the old
    /// one atomically.
    #[verifier::rlimit(30)]
    pub fn tick(&mut self)
        requires
            old(self).wf(),
        ensures
            final(self).wf(),
            final(self).spec_width() == old(self).spec_width(),
            final(self).spec_height() == old(self).spec_height(),
            final(self)@ == stepped(
                old(self)@,
                old(self).spec_width() as int,
                old(self).spec_height() as int,
            ),
    {
        let w = self.width;
        let h = self.height;
        let ghost g0 = self@;
        let ghost wi = w as int;
        let ghost hi = h as int;
        let mut next = bits_clone(&self.cells);
        proof {
            assert(0 * wi == 0) by (nonlinear_arith);
        }
        for row in 0..h
            invariant
                *self == *old(self),
                self.wf(),
                self.spec_width() == w,
                self.spec_height() == h,
                g0 == self@,
                wi == w as int,
                hi == h as int,
                bits_of(next).len() == g0.len(),
                forall|k: int| 0 <= k < row * wi ==> bits_of(next)[k] == stepped(g0, wi, hi)[k],
                forall|k: int| row * wi <= k < g0.len() ==> bits_of(next)[k] == g0[k],
        {
            for col in 0..w
                invariant
                    *self == *old(self),
                    self.wf(),
                    self.spec_width() == w,
                    self.spec_height() == h,
                    g0 == self@,
                    wi == w as int,
                    hi == h as int,
                    row < h,
                    bits_of(next).len() == g0.len(),
                    forall|k: int|
                        0 <= k < row * wi + col ==> bits_of(next)[k] == stepped(g0, wi, hi)[k],
                    forall|k: int| row * wi + col <= k < g0.len() ==> bits_of(next)[k] == g0[k],
            {
                let idx = self.get_index(row, col);
                let cell = bits_get(&self.cells, idx);
                let live_neighbors = self.live_neighbor_count(row, col);
                let alive_next = if cell {
                    live_neighbors == 2 || live_neighbors == 3
                } else {
                    live_neighbors == 3
                };
                bits_set(&mut next, idx, alive_next);
                proof {
                    lemma_lin_bounds(row as int, col as int, wi, hi);
                    lemma_lin_inverse(row as int, col as int, wi);
                    assert(hi * wi == wi * hi) by (nonlinear_arith);
                    assert(bits_of(next)[idx as int] == stepped(g0, wi, hi)[idx as int]);
                }
            }
            proof {
                assert((row + 1) * wi == row * wi + wi) by (nonlinear_arith);
            }
        }
        proof {
            assert(hi * wi == wi * hi) by (nonlinear_arith);
            assert(bits_of(next) =~= stepped(g0, wi, hi));
        }
        self.cells = next;
    }

    /// The grid as printable text: one glyph per cell, filled for alive and
    /// hollow for dead, each row ended by a newline.
    pub fn render(&self) -> (s: String)
        requires
            self.wf(),
        ensures
            s@ == render_rows(self@, self.spec_width() as int, self.spec_height() as int),
    {
        let w = self.width;
        let h = self.height;
        let ghost wi = w as int;
        let ghost hi = h as int;
        let ghost g = self@;
        let mut s = String::new();
        for row in 0..h
            invariant
                self.wf(),
                self.spec_width() == w,
                self.spec_height() == h,
                wi == w as int,
                hi == h as int,
                g == self@,
                s@ == render_rows(g, wi, row as int),
        {
            for col in 0..w
                invariant
                    self.wf(),
                    self.spec_width() == w,
                    self.spec_height() == h,
                    wi == w as int,
                    hi == h as int,
                    g == self@,
                    row < h,
                    s@ == render_rows(g, wi, row as int) + render_row(
                        g,
                        wi,
                        row as int,
                        col as int,
                    ),
            {
                let idx = self.get_index(row, col);
                if bits_get(&self.cells, idx) {
                    s.append("◼");
                } else {
                    s.append("◻");
                }
                proof {
                    reveal_strlit("◼");
                    reveal_strlit("◻");
                    assert(s@ =~= render_rows(g, wi, row as int) + render_row(
                        g,
                        wi,
                        row as int,
                        col as int + 1,
                    ));
                }
            }
            s.append("\n");
            proof {
                reveal_strlit("\n");
                assert(s@ =~= render_rows(g, wi, row as int + 1));
            }
        }
        s
    }

    /// Sets the width; reallocates the buffer and resets every cell to dead.
    pub fn set_width(&mut self, width: u32)
        requires
            width * old(self).spec_height() <= u32::MAX,
        ensures
            final(self).wf(),
            final(self).spec_width() == width,
            final(self).spec_height() == old(self).spec_height(),
            final(self)@ == Seq::new(
                (width * old(self).spec_height()) as nat,
                |i: int| false,
            ),
    {
        let size: usize = (width * self.height) as usize;
        self.width = width;
        self.cells = bits_new(size);
        proof {
            assert(bits_of(self.cells) =~= Seq::new(
                (width * old(self).spec_height()) as nat,
                |i: int| false,
            ));
        }
    }

    /// Sets the height; reallocates the buffer and resets every cell to dead.
    pub fn set_height(&mut self, height: u32)
        requires
            old(self).spec_width() * height <= u32::MAX,
        ensures
            final(self).wf(),
            final(self).spec_width() == old(self).spec_width(),
            final(self).spec_height() == height,
            final(self)@ == Seq::new(
                (old(self).spec_width() * height) as nat,
                |i: int| false,
            ),
    {
        let size: usize = (self.width * height) as usize;
        self.height = height;
        self.cells = bits_new(size);
        proof {
            assert(bits_of(self.cells) =~= Seq::new(
                (old(self).spec_width() * height) as nat,
                |i: int| false,
            ));
        }
    }
}

} // verus!
