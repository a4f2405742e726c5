//! The board/game engine: a 20x10 occupancy grid, the active and next
//! piece, the score and the lifecycle state, with collision-checked move,
//! rotate and drop operations, locking, line clears and scoring.

use crate::interface::{cell_col, cell_fits, cell_row, piece_cell, GameState};
use crate::tetris::Tetris;
use vstd::arithmetic::power::{lemma_pow_increases, pow};
use vstd::prelude::*;

verus! {

/// The whole game: board, active piece, next piece, score and state.  The
/// cyclic color counter that drives piece colors is part of the game rather
/// than ambient global state.
pub struct Game {
    /// Lifecycle state.
    pub state: GameState,
    /// The 20x10 grid, row 0 at the top: 0 is empty, 1..9 a color.
    pub blockes: Vec<Vec<u8>>,
    /// The falling piece.
    pub curter: Tetris,
    /// The piece that replaces `curter` at the next lock.
    pub nxtter: Tetris,
    /// Score: grows only on line clears.
    pub scores: u128,
    /// Cyclic counter behind the spawn colors, always at most 8.
    pub color_turn: u8,
}

/// The grid as a sequence of rows of cells.
pub open spec fn board_of(b: Vec<Vec<u8>>) -> Seq<Seq<u8>> {
    Seq::new(b@.len(), |r: int| b@[r]@)
}

/// 20 rows of 10 cells each.
pub open spec fn board_wf(b: Seq<Seq<u8>>) -> bool {
    b.len() == 20 && forall|r: int| 0 <= r < 20 ==> (#[trigger] b[r]).len() == 10
}

/// No cell of the visible board is occupied.
pub open spec fn board_empty(b: Seq<Seq<u8>>) -> bool {
    forall|r: int, c: int| 0 <= r < 20 && 0 <= c < 10 ==> b[r][c] == 0
}

/// Cell `i` of piece `t`, displaced by `(dr, dc)`, may not be taken: it
/// would leave the board through a side or the bottom, or land on an
/// occupied cell.  Cells above the visible board (row < 0) are never
/// checked against occupancy.
pub open spec fn cell_blocked_at(b: Seq<Seq<u8>>, t: Tetris, i: int, dr: int, dc: int) -> bool {
    let r = cell_row(t, i) + dr;
    let c = cell_col(t, i) + dc;
    c < 0 || c >= 10 || r >= 20 || (r >= 0 && b[r][c] != 0)
}

/// The piece displaced by `(dr, dc)` collides with a wall, the floor or an
/// occupied cell.
pub open spec fn piece_blocked_at(b: Seq<Seq<u8>>, t: Tetris, dr: int, dc: int) -> bool {
    exists|i: int| 0 <= i < 4 && cell_blocked_at(b, t, i, dr, dc)
}

/// The piece cannot move down one more row.
pub open spec fn grounded(b: Seq<Seq<u8>>, t: Tetris) -> bool {
    piece_blocked_at(b, t, 1, 0)
}

/// Grounding while a cell is still off the top or the left edge: the game
/// is over.
pub open spec fn lock_overflow(t: Tetris) -> bool {
    exists|i: int| 0 <= i < 4 && (cell_row(t, i) < 0 || cell_col(t, i) < 0)
}

/// Piece `t` occupies absolute cell `(r, c)`.
pub open spec fn has_cell(t: Tetris, r: int, c: int) -> bool {
    exists|i: int| 0 <= i < 4 && cell_row(t, i) == r && cell_col(t, i) == c
}

/// The board after writing the piece's color into all its occupied cells.
pub open spec fn locked(b: Seq<Seq<u8>>, t: Tetris) -> Seq<Seq<u8>> {
    Seq::new(
        b.len(),
        |r: int|
            Seq::new(
                b[r].len(),
                |c: int| if has_cell(t, r, c) { t.color } else { b[r][c] },
            ),
    )
}

/// Every cell of the row is occupied.
pub open spec fn row_full(row: Seq<u8>) -> bool {
    forall|c: int| 0 <= c < row.len() ==> row[c] != 0
}

/// A row of 10 empty cells.
pub open spec fn empty_row() -> Seq<u8> {
    Seq::new(10, |c: int| 0u8)
}

/// The rows that survive a clear scan, in order: every full row is removed,
/// the others keep their relative order.
pub open spec fn keep_rows(b: Seq<Seq<u8>>) -> Seq<Seq<u8>>
    decreases b.len(),
{
    if b.len() == 0 {
        Seq::empty()
    } else if row_full(b.last()) {
        keep_rows(b.drop_last())
    } else {
        keep_rows(b.drop_last()).push(b.last())
    }
}

/// How many rows of the board are full.
pub open spec fn full_rows(b: Seq<Seq<u8>>) -> nat
    decreases b.len(),
{
    if b.len() == 0 {
        0
    } else if row_full(b.last()) {
        full_rows(b.drop_last()) + 1
    } else {
        full_rows(b.drop_last())
    }
}

/// The board after a clear scan: one fresh empty row at the top for every
/// full row removed, then the surviving rows in order — so every row above
/// a removed row moves down and rows below it stay in place.
pub open spec fn cleared(b: Seq<Seq<u8>>) -> Seq<Seq<u8>> {
    Seq::new(full_rows(b), |r: int| empty_row()) + keep_rows(b)
}

/// A structurally sound piece: indices in range, color in 1..9, and all
/// four cells inside the side walls and above the floor (rows may still be
/// negative while the piece hangs above the visible board).
pub open spec fn piece_wf(t: Tetris) -> bool {
    &&& t.kind < 7
    &&& t.direc < 4
    &&& 1 <= t.color <= 8
    &&& -2 <= t.position@[0]
    &&& forall|i: int|
        #![trigger cell_col(t, i)]
        #![trigger cell_row(t, i)]
        0 <= i < 4 ==> 0 <= cell_col(t, i) < 10 && cell_row(t, i) < 20
}

/// Piece `t` occupies absolute cell `(r, c)` through one of its first `n`
/// cells.
pub open spec fn has_cell_upto(t: Tetris, r: int, c: int, n: int) -> bool {
    exists|i: int| 0 <= i < n && cell_row(t, i) == r && cell_col(t, i) == c
}

/// The piece after one clockwise quarter-turn.
pub open spec fn rotated_right(t: Tetris) -> Tetris {
    Tetris { direc: ((t.direc + 1) % 4) as usize, ..t }
}

/// A piece as `Tetris::new` places it: at the spawn anchor (-2, 5).
pub open spec fn spawned_at(t: Tetris) -> bool {
    &&& t.kind < 7
    &&& t.direc < 4
    &&& 1 <= t.color <= 8
    &&& t.position@[0] == -2
    &&& t.position@[1] == 5
}


/// A discrete input command, from the player or the gravity timer.
#[derive(Clone, Copy, Debug, PartialEq, Eq, Structural)]
pub enum Command {
    /// Move the active piece one column left.
    MoveLeft,
    /// Move the active piece one column right.
    MoveRight,
    /// One gravity step.
    MoveDown,
    /// Rotate the active piece clockwise.
    RotateClockwise,
    /// Pause a running game, resume a paused one, start a stopped one.
    TogglePauseOrStart,
}

/// How a left/right move changes a game: everything but the piece's column
/// is untouched; a blocked move changes nothing, an open one moves the
/// anchor by `moved`.
pub open spec fn shift_rel(pre: Game, post: Game, moved: int) -> bool {
    &&& post.state == pre.state
    &&& post.blockes == pre.blockes
    &&& post.scores == pre.scores
    &&& post.nxtter == pre.nxtter
    &&& post.color_turn == pre.color_turn
    &&& post.curter.kind == pre.curter.kind
    &&& post.curter.direc == pre.curter.direc
    &&& post.curter.color == pre.curter.color
    &&& (piece_blocked_at(pre.board(), pre.curter, 0, moved) ==> post == pre)
    &&& (!piece_blocked_at(pre.board(), pre.curter, 0, moved) ==> post.curter.position@
        == pre.curter.position@.update(1, (pre.curter.position@[1] + moved) as i32))
}

/// How a clockwise rotation changes a game: a blocked rotation is rolled
/// back and changes nothing, an open one advances the rotation index.
pub open spec fn turn_rel(pre: Game, post: Game) -> bool {
    &&& post.state == pre.state
    &&& post.blockes == pre.blockes
    &&& post.scores == pre.scores
    &&& post.nxtter == pre.nxtter
    &&& post.color_turn == pre.color_turn
    &&& (piece_blocked_at(pre.board(), rotated_right(pre.curter), 0, 0) ==> post == pre)
    &&& (!piece_blocked_at(pre.board(), rotated_right(pre.curter), 0, 0) ==> post.curter
        == rotated_right(pre.curter))
}

/// How one gravity step changes a game.  A falling piece moves down one
/// row.  A grounded piece with a cell off the top or left edge only stops
/// the game.  Otherwise the piece is locked, full rows are cleared, n > 0
/// cleared rows award 20^n points, the next piece becomes active and a
/// fresh one is spawned.
pub open spec fn down_rel(pre: Game, post: Game) -> bool {
    &&& (!grounded(pre.board(), pre.curter) ==> {
        &&& post.blockes == pre.blockes
        &&& post.state == pre.state
        &&& post.scores == pre.scores
        &&& post.nxtter == pre.nxtter
        &&& post.color_turn == pre.color_turn
        &&& post.curter.kind == pre.curter.kind
        &&& post.curter.direc == pre.curter.direc
        &&& post.curter.color == pre.curter.color
        &&& post.curter.position@ == pre.curter.position@.update(
            0,
            (pre.curter.position@[0] + 1) as i32,
        )
    })
    &&& (grounded(pre.board(), pre.curter) && lock_overflow(pre.curter) ==> post == (Game {
        state: GameState::Stopped,
        ..pre
    }))
    &&& (grounded(pre.board(), pre.curter) && !lock_overflow(pre.curter) ==> {
        let lb = locked(pre.board(), pre.curter);
        &&& post.board() == cleared(lb)
        &&& post.scores == pre.scores + if full_rows(lb) == 0 {
            0int
        } else {
            pow(20, full_rows(lb))
        }
        &&& post.curter == pre.nxtter
        &&& post.state == pre.state
        &&& post.color_turn == (pre.color_turn + 1) % 8
        &&& spawned_at(post.nxtter)
        &&& post.nxtter.color == post.color_turn + 1
    })
}

/// How the pause/start toggle changes a game, and whether a gravity timer
/// must be started afterwards.
pub open spec fn trans_rel(pre: Game, post: Game, started: bool) -> bool {
    &&& (pre.state == GameState::Playing ==> !started && post == (Game {
        state: GameState::Pausing,
        ..pre
    }))
    &&& (pre.state == GameState::Pausing ==> started && post == (Game {
        state: GameState::Playing,
        ..pre
    }))
    &&& (pre.state == GameState::Stopped ==> started && post.state == GameState::Playing
        && post.scores == 0 && board_empty(post.board()) && spawned_at(post.curter) && spawned_at(
        post.nxtter,
    ))
}

impl Game {
    /// The grid of this game as a sequence of rows.
    pub open spec fn board(self) -> Seq<Seq<u8>> {
        board_of(self.blockes)
    }

    /// Well-formed game: sound board, sound pieces, the next piece still at
    /// its spawn anchor, and the color counter in range.
    pub open spec fn wf(self) -> bool {
        &&& board_wf(self.board())
        &&& piece_wf(self.curter)
        &&& piece_wf(self.nxtter)
        &&& spawned_at(self.nxtter)
        &&& self.color_turn <= 8
    }
}

/// The anchor offset of every kind is (0, 0), so the anchor cell is the
/// position itself, and every cell lies within 2 rows and 2 columns of it.
pub proof fn lemma_cells_near_anchor(t: Tetris)
    requires
        t.kind < 7,
    ensures
        cell_row(t, 0) == t.position@[0],
        cell_col(t, 0) == t.position@[1],
        forall|i: int|
            #![trigger cell_col(t, i)]
            #![trigger cell_row(t, i)]
            0 <= i < 4 ==> t.position@[0] - 2 <= cell_row(t, i) <= t.position@[0] + 2
                && t.position@[1] - 2 <= cell_col(t, i) <= t.position@[1] + 2,
{
}

/// A piece at the spawn anchor is well formed: its columns fall in 3..8 and
/// its rows in -4..1, whatever its kind and rotation.
pub proof fn lemma_spawn_piece_wf(t: Tetris)
    requires
        spawned_at(t),
    ensures
        piece_wf(t),
        forall|i: int| 0 <= i < 4 ==> #[trigger] cell_row(t, i) <= 0,
{
    lemma_cells_near_anchor(t);
}

/// A well-formed piece has every cell coordinate within `i32`.
pub proof fn lemma_piece_wf_fits(t: Tetris)
    requires
        piece_wf(t),
    ensures
        forall|i: int| 0 <= i < 4 ==> #[trigger] cell_fits(t, i),
        t.position@[0] < 20,
        0 <= t.position@[1] < 10,
{
    lemma_cells_near_anchor(t);
}

/// The rows surviving a clear scan of a well-formed set of rows: as many
/// as were not full, each 10 cells wide and not full.
pub proof fn lemma_keep_rows_wf(b: Seq<Seq<u8>>)
    requires
        forall|i: int| 0 <= i < b.len() ==> (#[trigger] b[i]).len() == 10,
    ensures
        keep_rows(b).len() + full_rows(b) == b.len(),
        forall|j: int|
            0 <= j < keep_rows(b).len() ==> (#[trigger] keep_rows(b)[j]).len() == 10 && !row_full(
                keep_rows(b)[j],
            ),
    decreases b.len(),
{
    if b.len() > 0 {
        assert(forall|i: int|
            0 <= i < b.drop_last().len() ==> (#[trigger] b.drop_last()[i]).len() == 10);
        lemma_keep_rows_wf(b.drop_last());
    }
}

/// A fresh row of 10 empty cells.
fn make_empty_row() -> (r: Vec<u8>)
    ensures
        r@ == empty_row(),
{
    let mut r: Vec<u8> = Vec::new();
    let mut c: usize = 0;
    while c < 10
        invariant
            c <= 10,
            r@.len() == c,
            forall|k: int| 0 <= k < c ==> r@[k] == 0u8,
        decreases 10 - c,
    {
        r.push(0);
        c += 1;
    }
    proof {
        assert(r@ =~= empty_row());
    }
    r
}

/// A copy of a row of cells.
fn copy_row(src: &Vec<u8>) -> (r: Vec<u8>)
    ensures
        r@ == src@,
{
    let mut r: Vec<u8> = Vec::new();
    let mut c: usize = 0;
    while c < src.len()
        invariant
            c <= src@.len(),
            r@.len() == c,
            forall|k: int| 0 <= k < c ==> r@[k] == src@[k],
        decreases src@.len() - c,
    {
        r.push(src[c]);
        c += 1;
    }
    proof {
        assert(r@ =~= src@);
    }
    r
}

/// Whether the board cell at `(r, c)` is occupied.
fn cell_occupied(b: &Vec<Vec<u8>>, r: usize, c: usize) -> (occ: bool)
    requires
        board_wf(board_of(*b)),
        r < 20,
        c < 10,
    ensures
        occ == (board_of(*b)[r as int][c as int] != 0),
{
    proof {
        assert(board_of(*b).len() == b@.len());
        assert(board_of(*b)[r as int] == b@[r as int]@);
    }
    b[r][c] != 0
}

/// 20 raised to `n`, used for the line-clear award.
fn pow20(n: usize) -> (r: u128)
    requires
        n <= 20,
    ensures
        r == pow(20, n as nat),
{
    proof {
        lemma_pow20_in_range();
        reveal(pow);
        assert(pow(20, 0) == 1);
    }
    let mut r: u128 = 1;
    let mut i: usize = 0;
    while i < n
        invariant
            i <= n <= 20,
            r == pow(20, i as nat),
            pow(20, 20) < u128::MAX,
        decreases n - i,
    {
        proof {
            lemma_pow_increases(20, (i + 1) as nat, 20);
            reveal(pow);
            assert(pow(20, (i + 1) as nat) == 20 * pow(20, i as nat));
        }
        r = r * 20;
        i += 1;
    }
    r
}

/// The largest possible single award, 20 to the 20th, fits well inside
/// `u128`.
pub proof fn lemma_pow20_in_range()
    ensures
        pow(20, 20) == 104857600000000000000000000,
{
    reveal_with_fuel(pow, 21);
}

impl Game {
    /// A new game: stopped, empty board, zero score, and a freshly spawned
    /// active and next piece colored by a fresh cyclic counter.
    pub fn new() -> (g: Game)
        ensures
            g.wf(),
            g.state == GameState::Stopped,
            g.scores == 0,
            board_empty(g.board()),
            spawned_at(g.curter),
            spawned_at(g.nxtter),
            g.curter.color == 2,
            g.nxtter.color == 3,
            g.color_turn == 2,
    {
        let mut color_turn: u8 = 8;
        let curter = Tetris::new(&mut color_turn);
        let nxtter = Tetris::new(&mut color_turn);
        let mut blockes: Vec<Vec<u8>> = Vec::new();
        let mut r: usize = 0;
        while r < 20
            invariant
                r <= 20,
                blockes@.len() == r,
                forall|k: int| 0 <= k < r ==> (#[trigger] blockes@[k])@ == empty_row(),
            decreases 20 - r,
        {
            blockes.push(make_empty_row());
            r += 1;
        }
        let g = Game { state: GameState::Stopped, blockes, curter, nxtter, scores: 0, color_turn };
        proof {
            lemma_spawn_piece_wf(g.curter);
            lemma_spawn_piece_wf(g.nxtter);
        }
        g
    }

    /// Move the active piece one column left (`moved == -1`) or right
    /// (`moved == 1`).  A move into a wall or an occupied cell is rejected
    /// and leaves the game unchanged.
    pub fn shift(&mut self, moved: i32)
        requires
            old(self).wf(),
            moved == -1 || moved == 1,
        ensures
            final(self).wf(),
            shift_rel(*old(self), *final(self), moved as int),
    {
        proof {
            lemma_piece_wf_fits(self.curter);
        }
        let mut i: usize = 0;
        while i < 4
            invariant
                self == old(self),
                old(self).wf(),
                moved == -1 || moved == 1,
                i <= 4,
                forall|k: int|
                    0 <= k < i ==> !cell_blocked_at(
                        old(self).board(),
                        old(self).curter,
                        k,
                        0,
                        moved as int,
                    ),
            decreases 4 - i,
        {
            proof {
                lemma_piece_wf_fits(self.curter);
            }
            let (xt, yt) = piece_cell(&self.curter, i);
            let yt = yt + moved;
            let hit = if yt < 0 || yt >= 10 {
                true
            } else if xt < 0 {
                false
            } else if xt >= 20 {
                true
            } else {
                cell_occupied(&self.blockes, xt as usize, yt as usize)
            };
            if hit {
                // the move collides: reject it, the piece stays put
                proof {
                    assert(cell_blocked_at(self.board(), self.curter, i as int, 0, moved as int));
                }
                return ;
            }
            i += 1;
        }
        let p1 = self.curter.position[1];
        self.curter.position[1] = p1 + moved;
        proof {
            assert(!piece_blocked_at(old(self).board(), old(self).curter, 0, moved as int));
            assert(self.curter.position@ == old(self).curter.position@.update(
                1,
                (old(self).curter.position@[1] + moved) as i32,
            ));
            assert forall|k: int|
                #![trigger cell_col(self.curter, k)]
                #![trigger cell_row(self.curter, k)]
                0 <= k < 4 implies 0 <= cell_col(self.curter, k) < 10 && cell_row(self.curter, k)
                < 20 by {
                assert(!cell_blocked_at(old(self).board(), old(self).curter, k, 0, moved as int));
                assert(cell_row(self.curter, k) == cell_row(old(self).curter, k));
                assert(cell_col(self.curter, k) == cell_col(old(self).curter, k) + moved);
            }
        }
    }

    /// Rotate the active piece one quarter-turn clockwise.  If the rotated
    /// piece would leave the side walls or the floor, or land on an
    /// occupied cell, the rotation is rolled back with a counter-clockwise
    /// turn and the game is unchanged; no wall kicks are attempted.
    pub fn turn(&mut self)
        requires
            old(self).wf(),
        ensures
            final(self).wf(),
            turn_rel(*old(self), *final(self)),
    {
        self.curter.turn_right();
        proof {
            assert(self.curter == rotated_right(old(self).curter));
        }
        let mut i: usize = 0;
        while i < 4
            invariant
                old(self).wf(),
                i <= 4,
                self.blockes == old(self).blockes,
                self.state == old(self).state,
                self.scores == old(self).scores,
                self.nxtter == old(self).nxtter,
                self.color_turn == old(self).color_turn,
                self.curter == rotated_right(old(self).curter),
                forall|k: int|
                    0 <= k < i ==> !cell_blocked_at(old(self).board(), self.curter, k, 0, 0),
            decreases 4 - i,
        {
            proof {
                lemma_piece_wf_fits(old(self).curter);
                lemma_cells_near_anchor(self.curter);
                assert(forall|k: int| 0 <= k < 4 ==> #[trigger] cell_fits(self.curter, k));
            }
            let (xt, yt) = piece_cell(&self.curter, i);
            let hit = if yt < 0 || yt >= 10 {
                true
            } else if xt < 0 {
                false
            } else if xt >= 20 {
                true
            } else {
                cell_occupied(&self.blockes, xt as usize, yt as usize)
            };
            if hit {
                // the rotated pose collides: roll the rotation back
                proof {
                    assert(cell_blocked_at(old(self).board(), self.curter, i as int, 0, 0));
                }
                self.curter.turn_left();
                proof {
                    assert(self.curter == old(self).curter);
                    assert(*self == *old(self));
                }
                return ;
            }
            i += 1;
        }
        proof {
            assert(!piece_blocked_at(old(self).board(), self.curter, 0, 0));
            assert forall|k: int|
                #![trigger cell_col(self.curter, k)]
                #![trigger cell_row(self.curter, k)]
                0 <= k < 4 implies 0 <= cell_col(self.curter, k) < 10 && cell_row(self.curter, k)
                < 20 by {
                assert(!cell_blocked_at(old(self).board(), self.curter, k, 0, 0));
            }
        }
    }

    /// One gravity step.  A piece that can still fall moves down one row
    /// and nothing else changes.  A grounded piece either ends the game
    /// (when a cell is still off the top or left edge nothing is written
    /// and the state becomes Stopped), or is locked into the board, full
    /// rows are removed with every row above them moving down one, 20^n
    /// points are awarded for n > 0 cleared rows, and the next piece
    /// becomes active while a fresh one is spawned.
    pub fn down(&mut self)
        requires
            old(self).wf(),
            old(self).scores + pow(20, 20) <= u128::MAX,
        ensures
            final(self).wf(),
            down_rel(*old(self), *final(self)),
    {
        proof {
            lemma_piece_wf_fits(self.curter);
        }
        // can the piece still fall?
        let mut bottom = false;
        let mut i: usize = 0;
        while i < 4
            invariant
                old(self).wf(),
                *self == *old(self),
                i <= 4,
                bottom <==> exists|k: int|
                    0 <= k < i && cell_blocked_at(old(self).board(), old(self).curter, k, 1, 0),
            decreases 4 - i,
        {
            proof {
                lemma_piece_wf_fits(self.curter);
            }
            let (xt, yt) = piece_cell(&self.curter, i);
            let xt = xt + 1;
            let hit = if xt < 0 {
                false
            } else if xt >= 20 {
                true
            } else {
                cell_occupied(&self.blockes, xt as usize, yt as usize)
            };
            proof {
                assert(hit == cell_blocked_at(old(self).board(), old(self).curter, i as int, 1, 0));
            }
            if hit {
                bottom = true;
            }
            i += 1;
        }
        if bottom {
            // would a locked cell fall off the top or the left edge?
            let mut ovf = false;
            let mut i: usize = 0;
            while i < 4
                invariant
                    old(self).wf(),
                    *self == *old(self),
                    i <= 4,
                    ovf <==> exists|k: int|
                        0 <= k < i && (cell_row(old(self).curter, k) < 0 || cell_col(
                            old(self).curter,
                            k,
                        ) < 0),
                decreases 4 - i,
            {
                proof {
                    lemma_piece_wf_fits(self.curter);
                }
                let (xt, yt) = piece_cell(&self.curter, i);
                if xt < 0 || yt < 0 {
                    ovf = true;
                }
                i += 1;
            }
            if ovf {
                // the piece locked while overflowing the board: game over
                self.state = GameState::Stopped;
                proof {
                    assert(*self == Game { state: GameState::Stopped, ..*old(self) });
                }
                return ;
            }
            // write the piece into the board
            let ghost b0 = old(self).board();
            let ghost t = old(self).curter;
            let color = self.curter.color;
            let mut i: usize = 0;
            while i < 4
                invariant
                    old(self).wf(),
                    i <= 4,
                    self.curter == old(self).curter,
                    self.nxtter == old(self).nxtter,
                    self.state == old(self).state,
                    self.scores == old(self).scores,
                    self.color_turn == old(self).color_turn,
                    color == t.color,
                    t == old(self).curter,
                    b0 == old(self).board(),
                    forall|k: int|
                        #![trigger cell_row(t, k)]
                        #![trigger cell_col(t, k)]
                        0 <= k < 4 ==> 0 <= cell_row(t, k) && 0 <= cell_col(t, k),
                    self.blockes@.len() == 20,
                    forall|rr: int| 0 <= rr < 20 ==> (#[trigger] self.board()[rr]).len() == 10,
                    forall|rr: int, cc: int|
                        0 <= rr < 20 && 0 <= cc < 10 ==> #[trigger] self.board()[rr][cc] == (
                        if has_cell_upto(t, rr, cc, i as int) {
                            t.color
                        } else {
                            b0[rr][cc]
                        }),
                decreases 4 - i,
            {
                proof {
                    lemma_piece_wf_fits(self.curter);
                }
                let (xt, yt) = piece_cell(&self.curter, i);
                proof {
                    assert(0 <= cell_row(t, i as int) < 20);
                    assert(0 <= cell_col(t, i as int) < 10);
                }
                let rr = xt as usize;
                let cc = yt as usize;
                let ghost prev = self.board();
                proof {
                    assert(prev[rr as int].len() == 10);
                    assert(self.blockes@[rr as int]@.len() == 10);
                }
                self.blockes[rr][cc] = color;
                proof {
                    assert forall|r2: int| 0 <= r2 < 20 implies (#[trigger] self.board()[r2]).len()
                        == 10 by {
                        if r2 == rr as int {
                            assert(self.board()[r2] == prev[r2].update(cc as int, color));
                        } else {
                            assert(self.board()[r2] == prev[r2]);
                        }
                        assert(prev[r2].len() == 10);
                    }
                    assert forall|r2: int, c2: int|
                        0 <= r2 < 20 && 0 <= c2 < 10 implies #[trigger] self.board()[r2][c2] == (
                    if has_cell_upto(t, r2, c2, i as int + 1) {
                        t.color
                    } else {
                        b0[r2][c2]
                    }) by {
                        if r2 == rr as int {
                            assert(self.board()[r2] == prev[r2].update(cc as int, color));
                        } else {
                            assert(self.board()[r2] == prev[r2]);
                        }
                        assert(prev[r2][c2] == (if has_cell_upto(t, r2, c2, i as int) {
                            t.color
                        } else {
                            b0[r2][c2]
                        }));
                        if r2 == rr as int && c2 == cc as int {
                            assert(has_cell_upto(t, r2, c2, i as int + 1));
                        } else {
                            assert(has_cell_upto(t, r2, c2, i as int + 1) == has_cell_upto(
                                t,
                                r2,
                                c2,
                                i as int,
                            ));
                        }
                    }
                }
                i += 1;
            }
            let ghost lb = locked(b0, t);
            proof {
                assert forall|rr: int, cc: int|
                    0 <= rr < 20 && 0 <= cc < 10 implies #[trigger] self.board()[rr][cc]
                    == lb[rr][cc] by {
                    assert(has_cell_upto(t, rr, cc, 4) == has_cell(t, rr, cc));
                }
                assert forall|rr: int| 0 <= rr < 20 implies #[trigger] self.board()[rr]
                    == lb[rr] by {
                    assert(self.board()[rr] =~= lb[rr]);
                }
                assert(self.board() =~= lb);
                assert(board_wf(lb));
            }
            // remove the full rows, keeping the others in order
            let mut kept: Vec<Vec<u8>> = Vec::new();
            let mut full_n: usize = 0;
            let mut r: usize = 0;
            while r < 20
                invariant
                    old(self).wf(),
                    r <= 20,
                    full_n + kept@.len() == r,
                    self.curter == old(self).curter,
                    self.nxtter == old(self).nxtter,
                    self.state == old(self).state,
                    self.scores == old(self).scores,
                    self.color_turn == old(self).color_turn,
                    self.board() == lb,
                    self.blockes@.len() == 20,
                    board_wf(lb),
                    board_of(kept) == keep_rows(lb.subrange(0, r as int)),
                    full_n == full_rows(lb.subrange(0, r as int)),
                decreases 20 - r,
            {
                let mut filled = true;
                let mut c: usize = 0;
                while c < 10
                    invariant
                        c <= 10,
                        r < 20,
                        self.board() == lb,
                        self.blockes@.len() == 20,
                        board_wf(lb),
                        filled <==> (forall|k: int| 0 <= k < c ==> lb[r as int][k] != 0),
                    decreases 10 - c,
                {
                    let occ = cell_occupied(&self.blockes, r, c);
                    filled = filled && occ;
                    c += 1;
                }
                proof {
                    assert(filled == row_full(lb[r as int]));
                    assert(lb.subrange(0, r as int + 1).drop_last() =~= lb.subrange(0, r as int));
                    assert(lb.subrange(0, r as int + 1).last() == lb[r as int]);
                }
                if filled {
                    full_n += 1;
                } else {
                    let row = copy_row(&self.blockes[r]);
                    kept.push(row);
                    proof {
                        assert(board_of(kept) =~= keep_rows(lb.subrange(0, r as int + 1)));
                    }
                }
                r += 1;
            }
            proof {
                assert(lb.subrange(0, 20) =~= lb);
                lemma_keep_rows_wf(lb);
            }
            // rebuild the board: one empty row on top per cleared row
            let mut nb: Vec<Vec<u8>> = Vec::new();
            let mut k: usize = 0;
            while k < full_n
                invariant
                    k <= full_n,
                    nb@.len() == k,
                    forall|j: int| 0 <= j < k ==> (#[trigger] nb@[j])@ == empty_row(),
                decreases full_n - k,
            {
                nb.push(make_empty_row());
                k += 1;
            }
            let ghost keptv = board_of(kept);
            let ghost nfull = full_n as int;
            nb.append(&mut kept);
            self.blockes = nb;
            proof {
                assert(self.blockes@.len() == 20);
                assert forall|j: int| 0 <= j < 20 implies #[trigger] self.board()[j] == cleared(
                    lb,
                )[j] by {
                    if j < nfull {
                        assert(self.board()[j] == empty_row());
                        assert(cleared(lb)[j] == empty_row());
                    } else {
                        assert(self.board()[j] == self.blockes@[j]@);
                        assert(self.board()[j] == keptv[j - nfull]);
                        assert(cleared(lb)[j] == keep_rows(lb)[j - nfull]);
                    }
                }
                assert(self.board() =~= cleared(lb));
            }
            // award the cleared rows
            if full_n > 0 {
                proof {
                    lemma_pow_increases(20, full_n as nat, 20);
                    lemma_pow20_in_range();
                }
                let award = pow20(full_n);
                self.scores = self.scores + award;
            }
            // the next piece becomes active; spawn a fresh next piece
            self.curter = self.nxtter;
            let mut ct = self.color_turn;
            let newt = Tetris::new(&mut ct);
            self.color_turn = ct;
            self.nxtter = newt;
            proof {
                lemma_spawn_piece_wf(self.nxtter);
            }
        } else {
            let p0 = self.curter.position[0];
            self.curter.position[0] = p0 + 1;
            proof {
                assert(!piece_blocked_at(old(self).board(), old(self).curter, 1, 0));
                assert forall|k: int|
                    #![trigger cell_col(self.curter, k)]
                    #![trigger cell_row(self.curter, k)]
                    0 <= k < 4 implies 0 <= cell_col(self.curter, k) < 10 && cell_row(
                    self.curter,
                    k,
                ) < 20 by {
                    assert(!cell_blocked_at(old(self).board(), old(self).curter, k, 1, 0));
                    assert(cell_row(self.curter, k) == cell_row(old(self).curter, k) + 1);
                    assert(cell_col(self.curter, k) == cell_col(old(self).curter, k));
                }
            }
        }
    }

    /// The pause/start toggle.  Playing pauses (the caller must let the
    /// gravity timer die).  Pausing resumes.  Stopped starts a brand-new
    /// game: fresh board, zero score, fresh pieces.  The result says
    /// whether a new gravity timer must be started.
    pub fn trans(&mut self) -> (started: bool)
        requires
            old(self).wf(),
        ensures
            final(self).wf(),
            trans_rel(*old(self), *final(self), started),
    {
        if self.state == GameState::Playing {
            self.state = GameState::Pausing;
            false
        } else {
            if self.state == GameState::Stopped {
                *self = Game::new();
            }
            self.state = GameState::Playing;
            true
        }
    }

    /// Feed one player or timer command to the engine.  Move, rotate and
    /// drop commands are accepted only while Playing and are no-ops in any
    /// other state; the pause/start toggle always acts.  The result says
    /// whether a new gravity timer must be started.
    pub fn apply(&mut self, cmd: Command) -> (started: bool)
        requires
            old(self).wf(),
            old(self).scores + pow(20, 20) <= u128::MAX,
        ensures
            final(self).wf(),
            cmd != Command::TogglePauseOrStart && old(self).state != GameState::Playing
                ==> *final(self) == *old(self) && !started,
            cmd == Command::TogglePauseOrStart ==> trans_rel(*old(self), *final(self), started),
            cmd == Command::MoveLeft && old(self).state == GameState::Playing ==> shift_rel(
                *old(self),
                *final(self),
                -1,
            ) && !started,
            cmd == Command::MoveRight && old(self).state == GameState::Playing ==> shift_rel(
                *old(self),
                *final(self),
                1,
            ) && !started,
            cmd == Command::MoveDown && old(self).state == GameState::Playing ==> down_rel(
                *old(self),
                *final(self),
            ) && !started,
            cmd == Command::RotateClockwise && old(self).state == GameState::Playing ==> turn_rel(
                *old(self),
                *final(self),
            ) && !started,
    {
        match cmd {
            Command::TogglePauseOrStart => self.trans(),
            Command::MoveLeft => {
                if self.state == GameState::Playing {
                    self.shift(-1);
                }
                false
            },
            Command::MoveRight => {
                if self.state == GameState::Playing {
                    self.shift(1);
                }
                false
            },
            Command::MoveDown => {
                if self.state == GameState::Playing {
                    self.down();
                }
                false
            },
            Command::RotateClockwise => {
                if self.state == GameState::Playing {
                    self.turn();
                }
                false
            },
        }
    }
}

/// A left move, then a right move, from a position where the piece neither
/// overlaps the board nor is blocked on its left, restore the original
/// position and leave board, score and state untouched (a blocked move
/// leaves the game unchanged by `shift_rel` alone).
pub proof fn lemma_shift_round_trip(g: Game, g1: Game, g2: Game)
    requires
        g.wf(),
        !piece_blocked_at(g.board(), g.curter, 0, 0),
        !piece_blocked_at(g.board(), g.curter, 0, -1),
        shift_rel(g, g1, -1),
        shift_rel(g1, g2, 1),
    ensures
        !piece_blocked_at(g1.board(), g1.curter, 0, 1),
        g2.curter.position@ == g.curter.position@,
        g2.curter.kind == g.curter.kind,
        g2.curter.direc == g.curter.direc,
        g2.blockes == g.blockes,
        g2.scores == g.scores,
        g2.state == g.state,
{
    lemma_piece_wf_fits(g.curter);
    lemma_cells_near_anchor(g.curter);
    assert forall|k: int| 0 <= k < 4 implies !cell_blocked_at(g1.board(), g1.curter, k, 0, 1) by {
        assert(!cell_blocked_at(g.board(), g.curter, k, 0, 0));
        assert(!cell_blocked_at(g.board(), g.curter, k, 0, -1));
        assert(cell_row(g1.curter, k) == cell_row(g.curter, k));
        assert(cell_col(g1.curter, k) == cell_col(g.curter, k) - 1);
    }
    assert(g2.curter.position@ =~= g.curter.position@);
}

/// On an empty board a grounded piece rests on the floor: all four of its
/// cells lie inside the visible 20x10 board, so locking it cannot overflow
/// and cannot stop the game.
pub proof fn lemma_ground_on_empty_board(b: Seq<Seq<u8>>, t: Tetris)
    requires
        board_wf(b),
        board_empty(b),
        piece_wf(t),
        grounded(b, t),
    ensures
        forall|i: int|
            #![trigger cell_row(t, i)]
            #![trigger cell_col(t, i)]
            0 <= i < 4 ==> 0 <= cell_row(t, i) < 20 && 0 <= cell_col(t, i) < 10,
        !lock_overflow(t),
{
    let j = choose|i: int| 0 <= i < 4 && cell_blocked_at(b, t, i, 1, 0);
    assert(cell_row(t, j) == 19);
    lemma_cells_near_anchor(t);
}

/// A scan of rows none of which is full removes nothing.
pub proof fn lemma_keep_rows_none_full(b: Seq<Seq<u8>>)
    requires
        forall|i: int| 0 <= i < b.len() ==> !row_full(#[trigger] b[i]),
    ensures
        keep_rows(b) == b,
        full_rows(b) == 0,
    decreases b.len(),
{
    if b.len() > 0 {
        assert(forall|i: int|
            0 <= i < b.drop_last().len() ==> !row_full(#[trigger] b.drop_last()[i]));
        lemma_keep_rows_none_full(b.drop_last());
        assert(keep_rows(b) =~= b);
    }
}

/// Rows without a full one among them pass through a clear scan unchanged
/// behind any prefix.
pub proof fn lemma_keep_rows_append(x: Seq<Seq<u8>>, y: Seq<Seq<u8>>)
    requires
        forall|i: int| 0 <= i < y.len() ==> !row_full(#[trigger] y[i]),
    ensures
        keep_rows(x + y) == keep_rows(x) + y,
        full_rows(x + y) == full_rows(x),
    decreases y.len(),
{
    if y.len() == 0 {
        assert(x + y =~= x);
        assert(keep_rows(x) + y =~= keep_rows(x));
    } else {
        assert(forall|i: int|
            0 <= i < y.drop_last().len() ==> !row_full(#[trigger] y.drop_last()[i]));
        lemma_keep_rows_append(x, y.drop_last());
        assert((x + y).drop_last() =~= x + y.drop_last());
        assert((x + y).last() == y[y.len() - 1]);
        assert(!row_full((x + y).last()));
        assert(keep_rows(x + y) == keep_rows(x + y.drop_last()).push(y.last()));
        assert(keep_rows(x) + y =~= (keep_rows(x) + y.drop_last()).push(y.last()));
    }
}

/// Clearing a board whose only full row is `r` removes exactly that row:
/// one empty row appears on top, every row above `r` moves down one, and
/// every row below `r` stays in place.
pub proof fn lemma_clear_single_row(b: Seq<Seq<u8>>, r: int)
    requires
        board_wf(b),
        0 <= r < 20,
        row_full(b[r]),
        forall|j: int| 0 <= j < 20 && j != r ==> !row_full(#[trigger] b[j]),
    ensures
        full_rows(b) == 1,
        cleared(b) == seq![empty_row()] + b.subrange(0, r) + b.subrange(r + 1, 20),
        cleared(b)[0] == empty_row(),
        forall|i: int| 0 <= i < r ==> cleared(b)[i + 1] == b[i],
        forall|i: int| r < i < 20 ==> cleared(b)[i] == b[i],
{
    let x = b.subrange(0, r + 1);
    let y = b.subrange(r + 1, 20);
    assert(b =~= x + y);
    assert(forall|i: int| 0 <= i < y.len() ==> !row_full(#[trigger] y[i]));
    lemma_keep_rows_append(x, y);
    assert(x.drop_last() =~= b.subrange(0, r));
    assert(x.last() == b[r]);
    assert(keep_rows(x) == keep_rows(b.subrange(0, r)));
    assert(full_rows(x) == full_rows(b.subrange(0, r)) + 1);
    assert(forall|i: int|
        0 <= i < b.subrange(0, r).len() ==> !row_full(#[trigger] b.subrange(0, r)[i]));
    lemma_keep_rows_none_full(b.subrange(0, r));
    assert(cleared(b) =~= seq![empty_row()] + b.subrange(0, r) + b.subrange(r + 1, 20));
}

/// On an empty board a piece that is not yet grounded sits with its anchor
/// strictly above row 19; each gravity step moves the anchor down one row,
/// so repeated steps must reach grounding.
pub proof fn lemma_descent_reaches_ground(b: Seq<Seq<u8>>, t: Tetris)
    requires
        board_wf(b),
        board_empty(b),
        piece_wf(t),
        !grounded(b, t),
    ensures
        t.position@[0] < 19,
{
    lemma_cells_near_anchor(t);
    assert(!cell_blocked_at(b, t, 0, 1, 0));
}

/// The score never decreases over a gravity step: a lock awards either
/// nothing or a positive power of 20.
pub proof fn lemma_score_never_decreases(pre: Game, post: Game)
    requires
        down_rel(pre, post),
    ensures
        post.scores >= pre.scores,
{
    if grounded(pre.board(), pre.curter) && !lock_overflow(pre.curter) {
        let lb = locked(pre.board(), pre.curter);
        if full_rows(lb) > 0 {
            vstd::arithmetic::power::lemma_pow_positive(20, full_rows(lb));
        }
    }
}

} // verus!
