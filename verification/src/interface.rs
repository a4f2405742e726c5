//! The shape table and the coordinate transform: for each of the 7 piece
//! kinds, 4 cell offsets relative to the rotation anchor, and the pure
//! function that maps a relative offset through one of the 4 clockwise
//! rotations and the piece's anchor to an absolute board cell.

use crate::frame::{border_mask, glyph, FrameWork};
use crate::tetris::Tetris;
use vstd::prelude::*;

verus! {

/// A character grid as a sequence of rows.
pub open spec fn chars_of(v: Vec<Vec<char>>) -> Seq<Seq<char>> {
    Seq::new(v@.len(), |i: int| v@[i]@)
}

/// A row with the text `s` laid over it starting at column `left`.
pub open spec fn overlay(row: Seq<char>, left: int, s: Seq<char>) -> Seq<char> {
    Seq::new(row.len(), |j: int| if left <= j < left + s.len() { s[j - left] } else { row[j] })
}

/// A character grid with the text `s` written into row `top` at column
/// `left`.
pub open spec fn write_spec(g: Seq<Seq<char>>, left: int, top: int, s: Seq<char>) -> Seq<Seq<
    char,
>> {
    g.update(top, overlay(g[top], left, s))
}

/// A mask grid rendered as box-drawing characters.
pub open spec fn glyph_grid(g: Seq<Seq<usize>>) -> Seq<Seq<char>> {
    Seq::new(g.len(), |i: int| Seq::new(g[i].len(), |j: int| glyph(g[i][j] as int)))
}

/// The 30x70 mask grid of the game's screen: the outer border, the board
/// well, and the next-piece box.
pub open spec fn menu_masks() -> Seq<Seq<usize>> {
    Seq::new(
        30,
        |i: int|
            Seq::new(
                70,
                |j: int|
                    ((border_mask(0, 29, 0, 69, i, j) | border_mask(0, 29, 0, 39, i, j))
                        | border_mask(6, 27, 9, 30, i, j)) | border_mask(4, 12, 48, 61, i, j),
            ),
    )
}

/// The full start-up screen: the frame's characters with the captions of
/// the next-piece box and the key bindings written over them.
pub open spec fn iface_chars() -> Seq<Seq<char>> {
    write_spec(
        write_spec(
            write_spec(
                write_spec(
                    write_spec(
                        write_spec(
                            write_spec(
                                write_spec(glyph_grid(menu_masks()), 49, 2, "Next Tetris"@),
                                43,
                                14,
                                "Operations:"@,
                            ),
                            43,
                            16,
                            "space:"@,
                        ),
                        47,
                        17,
                        "pause the game"@,
                    ),
                    43,
                    18,
                    "q:"@,
                ),
                47,
                19,
                "quit the game"@,
            ),
            43,
            20,
            "↑↓←→:"@,
        ),
        47,
        21,
        "control the tertris"@,
    )
}

/// Lifecycle of a game: exactly one state holds at a time.
#[derive(Clone, Copy, Debug, PartialEq, Eq, Structural)]
pub enum GameState {
    /// Initial state, and terminal state on loss.
    Stopped,
    /// The engine accepts move/rotate/drop commands.
    Playing,
    /// Frozen; only a pause toggle resumes.
    Pausing,
}

/// Relative cell offsets (row, col) of each piece kind at rotation 0.
/// Kinds 0..7 are T, S, Z, J, L, I, O; cell 0 is the rotation anchor (0, 0).
pub open spec fn shape_offset(kind: int, i: int) -> (int, int) {
    if kind == 0 {
        // T
        if i == 0 { (0, 0) } else if i == 1 { (0, -1) } else if i == 2 { (0, 1) } else { (1, 0) }
    } else if kind == 1 {
        // S
        if i == 0 { (0, 0) } else if i == 1 { (0, 1) } else if i == 2 { (1, 0) } else { (1, -1) }
    } else if kind == 2 {
        // Z
        if i == 0 { (0, 0) } else if i == 1 { (0, -1) } else if i == 2 { (1, 0) } else { (1, 1) }
    } else if kind == 3 {
        // J
        if i == 0 { (0, 0) } else if i == 1 { (-1, 0) } else if i == 2 { (1, 0) } else { (1, -1) }
    } else if kind == 4 {
        // L
        if i == 0 { (0, 0) } else if i == 1 { (-1, 0) } else if i == 2 { (1, 0) } else { (1, 1) }
    } else if kind == 5 {
        // I
        if i == 0 { (0, 0) } else if i == 1 { (-1, 0) } else if i == 2 { (1, 0) } else { (-2, 0) }
    } else {
        // O
        if i == 0 { (0, 0) } else if i == 1 { (1, 0) } else if i == 2 { (0, 1) } else { (1, 1) }
    }
}

/// Row component of a relative offset (p0, p1) after `direc` clockwise
/// quarter-turns about the anchor.  Rotation 0 is the identity; every value
/// of `direc` from 3 upward selects the third quarter-turn, as the transform
/// treats any direction outside 0..3 like 3.
pub open spec fn rot_row(p0: int, p1: int, direc: int) -> int {
    if direc == 0 {
        p0
    } else if direc == 1 {
        -p1
    } else if direc == 2 {
        -p0
    } else {
        p1
    }
}

/// Column component of a relative offset (p0, p1) after `direc` clockwise
/// quarter-turns about the anchor.
pub open spec fn rot_col(p0: int, p1: int, direc: int) -> int {
    if direc == 0 {
        p1
    } else if direc == 1 {
        p0
    } else if direc == 2 {
        -p1
    } else {
        -p0
    }
}

/// Absolute board row of cell `i` (0..4) of piece `t`.
pub open spec fn cell_row(t: Tetris, i: int) -> int {
    t.position@[0] + rot_row(
        shape_offset(t.kind as int, i).0,
        shape_offset(t.kind as int, i).1,
        t.direc as int,
    )
}

/// Absolute board column of cell `i` (0..4) of piece `t`.
pub open spec fn cell_col(t: Tetris, i: int) -> int {
    t.position@[1] + rot_col(
        shape_offset(t.kind as int, i).0,
        shape_offset(t.kind as int, i).1,
        t.direc as int,
    )
}

/// Cell `i` of piece `t` has both coordinates representable as `i32`.
pub open spec fn cell_fits(t: Tetris, i: int) -> bool {
    i32::MIN <= cell_row(t, i) <= i32::MAX && i32::MIN <= cell_col(t, i) <= i32::MAX
}

/// The shape table as executable data: relative offset `i` (0..4) of `kind`.
pub fn tetris_points(kind: usize, i: usize) -> (p: [i32; 2])
    requires
        kind < 7,
        i < 4,
    ensures
        p@[0] == shape_offset(kind as int, i as int).0,
        p@[1] == shape_offset(kind as int, i as int).1,
{
    match kind {
        0 => match i {
            0 => [0, 0],
            1 => [0, -1],
            2 => [0, 1],
            _ => [1, 0],
        },
        1 => match i {
            0 => [0, 0],
            1 => [0, 1],
            2 => [1, 0],
            _ => [1, -1],
        },
        2 => match i {
            0 => [0, 0],
            1 => [0, -1],
            2 => [1, 0],
            _ => [1, 1],
        },
        3 => match i {
            0 => [0, 0],
            1 => [-1, 0],
            2 => [1, 0],
            _ => [1, -1],
        },
        4 => match i {
            0 => [0, 0],
            1 => [-1, 0],
            2 => [1, 0],
            _ => [1, 1],
        },
        5 => match i {
            0 => [0, 0],
            1 => [-1, 0],
            2 => [1, 0],
            _ => [-2, 0],
        },
        _ => match i {
            0 => [0, 0],
            1 => [1, 0],
            2 => [0, 1],
            _ => [1, 1],
        },
    }
}

/// Absolute cell of a relative offset under the piece's rotation and anchor:
/// `(row, col) = position + rotate(points, direc)`.
pub fn xt_yt(points: &[i32; 2], t: &Tetris) -> (r: (i32, i32))
    requires
        -i32::MAX <= points@[0],
        -i32::MAX <= points@[1],
        i32::MIN <= t.position@[0] + rot_row(points@[0] as int, points@[1] as int, t.direc as int)
            <= i32::MAX,
        i32::MIN <= t.position@[1] + rot_col(points@[0] as int, points@[1] as int, t.direc as int)
            <= i32::MAX,
    ensures
        r.0 == t.position@[0] + rot_row(points@[0] as int, points@[1] as int, t.direc as int),
        r.1 == t.position@[1] + rot_col(points@[0] as int, points@[1] as int, t.direc as int),
{
    (
        t.position[0] + match t.direc {
            0 => points[0],
            1 => -points[1],
            2 => -points[0],
            _ => points[1],
        },
        t.position[1] + match t.direc {
            0 => points[1],
            1 => points[0],
            2 => -points[1],
            _ => -points[0],
        },
    )
}

/// Absolute cell `i` (0..4) of piece `t`, via the shape table and `xt_yt`.
pub fn piece_cell(t: &Tetris, i: usize) -> (r: (i32, i32))
    requires
        t.kind < 7,
        i < 4,
        cell_fits(*t, i as int),
    ensures
        r.0 == cell_row(*t, i as int),
        r.1 == cell_col(*t, i as int),
{
    let p = tetris_points(t.kind, i);
    xt_yt(&p, t)
}

/// Write the characters of `words` into row `top` starting at column
/// `left`; everything else stays in place.
pub fn write_text(interface: &mut Vec<Vec<char>>, left: usize, top: usize, words: &str)
    requires
        top < old(interface)@.len(),
        left + words@.len() < old(interface)@[top as int]@.len(),
    ensures
        chars_of(*final(interface)) == write_spec(
            chars_of(*old(interface)),
            left as int,
            top as int,
            words@,
        ),
        final(interface)@.len() == old(interface)@.len(),
        forall|i: int|
            0 <= i < old(interface)@.len() ==> (#[trigger] final(interface)@[i])@.len() == old(
                interface,
            )@[i]@.len(),
{
    let ghost g0 = chars_of(*old(interface));
    let n = words.unicode_len();
    let mut k: usize = 0;
    while k < n
        invariant
            n == words@.len(),
            k <= n,
            top < interface@.len(),
            interface@.len() == g0.len(),
            g0 == chars_of(*old(interface)),
            left + n < g0[top as int].len(),
            forall|i: int|
                0 <= i < interface@.len() && i != top ==> #[trigger] interface@[i] == old(
                    interface,
                )@[i],
            interface@[top as int]@.len() == g0[top as int].len(),
            forall|b: int|
                0 <= b < g0[top as int].len() ==> #[trigger] interface@[top as int]@[b] == (
                if left <= b < left + k {
                    words@[b - left]
                } else {
                    g0[top as int][b]
                }),
        decreases n - k,
    {
        let ch = words.get_char(k);
        let row_len = interface[top].len();
        proof {
            assert(row_len == interface@[top as int]@.len());
            assert(left + k < row_len);
        }
        let ghost prevrow = interface@[top as int]@;
        interface[top][left + k] = ch;
        proof {
            assert(interface@[top as int]@ =~= prevrow.update(left + k as int, ch));
        }
        k += 1;
    }
    proof {
        assert(chars_of(*interface)[top as int] =~= overlay(g0[top as int], left as int, words@));
        assert forall|i: int| 0 <= i < g0.len() implies #[trigger] chars_of(*interface)[i]
            == write_spec(g0, left as int, top as int, words@)[i] by {
            assert(chars_of(*interface)[i] == interface@[i]@);
        }
        assert(chars_of(*interface) =~= write_spec(g0, left as int, top as int, words@));
    }
}

/// The text screen around the game: a fixed character grid that the
/// outside renderer paints the board and pieces into.
pub struct InterFace {
    /// The rows of the screen, each one a line of text.
    pub interface: Vec<Vec<char>>,
    /// Number of columns, 70.
    pub width: usize,
    /// Number of rows, 30.
    pub height: usize,
}

impl InterFace {
    /// The start-up screen: the outer border, the board well, the
    /// next-piece box, and the key-binding captions.
    pub fn new() -> (t: InterFace)
        ensures
            t.width == 70,
            t.height == 30,
            t.interface@.len() == 30,
            forall|i: int| 0 <= i < 30 ==> (#[trigger] t.interface@[i])@.len() == 70,
            chars_of(t.interface) == iface_chars(),
    {
        let mut frame = FrameWork::new(30, 70);
        frame.rdraw(0, 29, 0, 39);
        frame.rdraw(6, 27, 9, 30);
        frame.rdraw(4, 12, 48, 61);
        proof {
            assert forall|i: int, j: int| 0 <= i < 30 && 0 <= j < 70 implies #[trigger] frame.grid()[i][j]
                == menu_masks()[i][j] by {
                assert(menu_masks()[i][j] == ((border_mask(0, 29, 0, 69, i, j) | border_mask(
                    0,
                    29,
                    0,
                    39,
                    i,
                    j,
                )) | border_mask(6, 27, 9, 30, i, j)) | border_mask(4, 12, 48, 61, i, j));
            }
            assert forall|i: int| 0 <= i < 30 implies #[trigger] frame.grid()[i] == menu_masks()[i] by {
                assert(frame.grid()[i] =~= menu_masks()[i]);
            }
            assert(frame.grid() =~= menu_masks());
        }
        let mut interface = frame.get_vec();
        proof {
            assert forall|i: int| 0 <= i < 30 implies #[trigger] chars_of(interface)[i]
                == glyph_grid(menu_masks())[i] by {
                assert(chars_of(interface)[i] =~= glyph_grid(menu_masks())[i]);
            }
            assert(chars_of(interface) =~= glyph_grid(menu_masks()));
            reveal_strlit("Next Tetris");
            reveal_strlit("Operations:");
            reveal_strlit("space:");
            reveal_strlit("pause the game");
            reveal_strlit("q:");
            reveal_strlit("quit the game");
            reveal_strlit("↑↓←→:");
            reveal_strlit("control the tertris");
        }
        write_text(&mut interface, 49, 2, "Next Tetris");
        write_text(&mut interface, 43, 14, "Operations:");
        write_text(&mut interface, 43, 16, "space:");
        write_text(&mut interface, 47, 17, "pause the game");
        write_text(&mut interface, 43, 18, "q:");
        write_text(&mut interface, 47, 19, "quit the game");
        write_text(&mut interface, 43, 20, "↑↓←→:");
        write_text(&mut interface, 47, 21, "control the tertris");
        InterFace { width: 70, height: 30, interface }
    }
}

/// The rotation mappings form a clockwise rotation group: applying one more
/// quarter-turn to the mapping for `direc` equals turning its result by 90
/// degrees clockwise, which sends (row, col) to (-col, row).
pub proof fn lemma_rotation_group(p0: int, p1: int, direc: int)
    requires
        0 <= direc < 4,
    ensures
        rot_row(p0, p1, (direc + 1) % 4) == -rot_col(p0, p1, direc),
        rot_col(p0, p1, (direc + 1) % 4) == rot_row(p0, p1, direc),
{
}

} // verus!
