//! A single piece: its kind, pose (anchor position and rotation) and color.

use crate::interface::{cell_col, cell_fits, cell_row};
use vstd::prelude::*;

verus! {

/// Relies on rand::random to draw a byte; nothing is assumed of the value.
pub assume_specification<T>[ rand::random::<T> ]() -> (r: T)
    where
        rand::distributions::Standard: rand::distributions::Distribution<T>,
;

/// A piece.  Its absolute occupied cells are always derived on demand from
/// `kind`, `direc` and `position` through the shape table, never stored.
#[derive(Clone, Copy, Debug, PartialEq, Eq)]
pub struct Tetris {
    /// 0..7 select the T, S, Z, J, L, I, O shapes.
    pub kind: usize,
    /// Anchor cell: `position[0]` is the row (may be negative while the
    /// piece is still above the visible board), `position[1]` the column.
    pub position: [i32; 2],
    /// Rotation index 0..4: clockwise quarter-turns from spawn orientation.
    pub direc: usize,
    /// Color identifier 1..9, assigned cyclically at spawn.
    pub color: u8,
}

impl Tetris {
    /// Spawn a piece: kind and rotation are drawn at random, the anchor is
    /// the fixed spawn cell (-2, 5), and the color is the next value of the
    /// cyclic 1..9 sequence driven by `color_turn`.
    pub fn new(color_turn: &mut u8) -> (t: Tetris)
        requires
            *old(color_turn) <= 8,
        ensures
            t.kind < 7,
            t.direc < 4,
            t.position@[0] == -2 && t.position@[1] == 5,
            *final(color_turn) == (*old(color_turn) + 1) % 8,
            t.color == *final(color_turn) + 1,
            1 <= t.color <= 8,
    {
        let kind = (rand::random::<u8>() % 7) as usize;
        let direc = (rand::random::<u8>() % 4) as usize;
        *color_turn = (*color_turn + 1) % 8;
        Tetris { kind, position: [-2, 5], direc, color: *color_turn + 1 }
    }

    /// One clockwise quarter-turn: the rotation index advances by 1 mod 4.
    pub fn turn_right(&mut self)
        requires
            old(self).direc < 4,
        ensures
            final(self).direc == (old(self).direc + 1) % 4,
            final(self).kind == old(self).kind,
            final(self).position == old(self).position,
            final(self).color == old(self).color,
    {
        self.direc += 1;
        self.direc %= 4;
    }

    /// One counter-clockwise quarter-turn: the rotation index advances by 3
    /// mod 4, the exact inverse of `turn_right`.
    pub fn turn_left(&mut self)
        requires
            old(self).direc < 4,
        ensures
            final(self).direc == (old(self).direc + 3) % 4,
            final(self).kind == old(self).kind,
            final(self).position == old(self).position,
            final(self).color == old(self).color,
    {
        self.direc += 3;
        self.direc %= 4;
    }

    /// The four absolute cells the piece occupies, in shape-table order.
    pub fn occupied_cells(&self) -> (r: Vec<(i32, i32)>)
        requires
            self.kind < 7,
            forall|i: int| 0 <= i < 4 ==> #[trigger] cell_fits(*self, i),
        ensures
            r@.len() == 4,
            forall|i: int|
                0 <= i < 4 ==> r@[i].0 == cell_row(*self, i) && r@[i].1 == cell_col(*self, i),
    {
        let mut r: Vec<(i32, i32)> = Vec::new();
        let mut i: usize = 0;
        while i < 4
            invariant
                i <= 4,
                r@.len() == i,
                self.kind < 7,
                forall|k: int| 0 <= k < 4 ==> #[trigger] cell_fits(*self, k),
                forall|k: int|
                    0 <= k < i ==> r@[k].0 == cell_row(*self, k) && r@[k].1 == cell_col(*self, k),
            decreases 4 - i,
        {
            let c = crate::interface::piece_cell(self, i);
            r.push(c);
            i += 1;
        }
        r
    }
}

/// Every piece occupies exactly 4 distinct cells: for any two different
/// indices the derived absolute cells differ.
pub proof fn lemma_occupied_cells_distinct(t: Tetris)
    requires
        t.kind < 7,
    ensures
        forall|i: int, j: int|
            0 <= i < 4 && 0 <= j < 4 && i != j ==> !(cell_row(t, i) == cell_row(t, j) && cell_col(
                t,
                j,
            ) == cell_col(t, i)),
{
}

/// Four clockwise quarter-turns are the identity on the rotation index.
pub proof fn lemma_turn_right_four_times_identity(d: nat)
    requires
        d < 4,
    ensures
        ((((((d + 1) % 4) + 1) % 4 + 1) % 4 + 1) % 4) == d,
{
}

/// The counter-clockwise turn is the exact inverse of the clockwise turn at
/// every rotation index, in both orders of application.
pub proof fn lemma_turn_left_inverts_turn_right(d: nat)
    requires
        d < 4,
    ensures
        ((d + 1) % 4 + 3) % 4 == d,
        ((d + 3) % 4 + 1) % 4 == d,
{
}

} // verus!
