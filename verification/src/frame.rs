//! The frame grid behind the text interface: a rectangle of 4-bit masks,
//! one bit per line direction leaving a cell, later mapped to box-drawing
//! characters.  Drawing a border sets the matching bits along its edges and
//! corners; crossing borders merge into junction characters.

use vstd::prelude::*;

verus! {

/// The grid of a frame as a sequence of rows of masks.
pub open spec fn masks_of(v: Vec<Vec<usize>>) -> Seq<Seq<usize>> {
    Seq::new(v@.len(), |i: int| v@[i]@)
}

/// The arguments describe a border that fits the grid: all four edges
/// inside it, and no degenerate (zero-width or zero-height) rectangle.
pub open spec fn border_ok(height: int, width: int, up: int, down: int, left: int, right: int) -> bool {
    up < height && down < height && left < width && right < width && left != right && up != down
}

/// The mask a border with edge rows `up`/`down` and edge columns
/// `left`/`right` contributes to cell `(i, j)`: bits 0/1 ask for a vertical
/// line, bits 2/3 for a horizontal one, corners for both of their sides.
pub open spec fn border_mask(up: int, down: int, left: int, right: int, i: int, j: int) -> usize {
    if i == up && j == left {
        6
    } else if i == up && j == right {
        10
    } else if i == down && j == left {
        5
    } else if i == down && j == right {
        9
    } else if (j == left || j == right) && up < i < down {
        3
    } else if (i == up || i == down) && left < j < right {
        12
    } else {
        0
    }
}

/// The box-drawing character of a mask: bit 0 asks for a line upward, bit 1
/// downward, bit 2 leftward, bit 3 rightward.
pub open spec fn glyph(x: int) -> char {
    if x == 0 {
        ' '
    } else if x == 1 {
        '上'
    } else if x == 2 {
        '下'
    } else if x == 3 {
        '║'
    } else if x == 4 {
        '左'
    } else if x == 5 {
        '╚'
    } else if x == 6 {
        '╔'
    } else if x == 7 {
        '╠'
    } else if x == 8 {
        '右'
    } else if x == 9 {
        '╝'
    } else if x == 10 {
        '╗'
    } else if x == 11 {
        '╣'
    } else if x == 12 {
        '═'
    } else if x == 13 {
        '╩'
    } else if x == 14 {
        '╦'
    } else {
        '╬'
    }
}

/// Any two 4-bit masks combine to a 4-bit mask.
pub proof fn lemma_or_mask(x: usize, m: usize)
    requires
        x < 16,
        m < 16,
    ensures
        x | m < 16,
{
    assert(x < 16 && m < 16 ==> (x | m) < 16) by (bit_vector);
}

/// An empty mask changes nothing.
pub proof fn lemma_or_zero(x: usize)
    requires
        x < 16,
    ensures
        x | 0 == x,
        0 | x == x,
{
    assert(x | 0 == x && 0 | x == x) by (bit_vector);
}

/// The frame: a `height` x `width` grid of masks, every entry below 16.
pub struct FrameWork {
    /// Number of rows of the grid.
    pub height: usize,
    /// Number of columns of the grid.
    pub width: usize,
    /// The mask of each cell.
    pub stringify: Vec<Vec<usize>>,
}

/// How drawing a border changes a frame: out-of-grid or degenerate
/// arguments change nothing, otherwise each cell picks up the border's mask.
pub open spec fn rdraw_rel(
    pre: FrameWork,
    post: FrameWork,
    up: int,
    down: int,
    left: int,
    right: int,
) -> bool {
    &&& post.height == pre.height
    &&& post.width == pre.width
    &&& (!border_ok(pre.height as int, pre.width as int, up, down, left, right) ==> post == pre)
    &&& (border_ok(pre.height as int, pre.width as int, up, down, left, right)
        ==> forall|i: int, j: int|
            0 <= i < pre.height && 0 <= j < pre.width ==> #[trigger] post.grid()[i][j] == (
            pre.grid()[i][j] | border_mask(up, down, left, right, i, j)))
}

impl FrameWork {
    /// The grid as a sequence of rows of masks.
    pub open spec fn grid(self) -> Seq<Seq<usize>> {
        masks_of(self.stringify)
    }

    /// `height` rows of `width` masks, all below 16.
    pub open spec fn wf(self) -> bool {
        &&& self.grid().len() == self.height
        &&& forall|i: int| 0 <= i < self.height ==> (#[trigger] self.grid()[i]).len() == self.width
        &&& forall|i: int, j: int|
            0 <= i < self.height && 0 <= j < self.width ==> #[trigger] self.grid()[i][j] < 16
}

    /// A fresh frame of the given dimensions with its outermost border
    /// drawn (for a single row or column there is no border to draw).
    pub fn new(horizontal: usize, vertical: usize) -> (f: FrameWork)
        requires
            1 <= horizontal,
            1 <= vertical,
        ensures
            f.wf(),
            f.height == horizontal,
            f.width == vertical,
            forall|i: int, j: int|
                0 <= i < horizontal && 0 <= j < vertical ==> #[trigger] f.grid()[i][j] == (
                if 1 < horizontal && 1 < vertical {
                    border_mask(0, horizontal - 1, 0, vertical - 1, i, j)
                } else {
                    0
                }),
    {
        let mut stringify: Vec<Vec<usize>> = Vec::new();
        let mut i: usize = 0;
        while i < horizontal
            invariant
                i <= horizontal,
                stringify@.len() == i,
                forall|a: int|
                    0 <= a < i ==> (#[trigger] stringify@[a])@ == Seq::new(
                        vertical as nat,
                        |b: int| 0usize,
                    ),
            decreases horizontal - i,
        {
            let mut row: Vec<usize> = Vec::new();
            let mut j: usize = 0;
            while j < vertical
                invariant
                    j <= vertical,
                    row@.len() == j,
                    forall|b: int| 0 <= b < j ==> row@[b] == 0usize,
                decreases vertical - j,
            {
                row.push(0);
                j += 1;
            }
            proof {
                assert(row@ =~= Seq::new(vertical as nat, |b: int| 0usize));
            }
            stringify.push(row);
            i += 1;
        }
        let mut temp = FrameWork { height: horizontal, width: vertical, stringify };
        proof {
            assert forall|a: int, b: int|
                0 <= a < horizontal && 0 <= b < vertical implies #[trigger] temp.grid()[a][b]
                == 0usize && temp.grid()[a].len() == vertical by {
                assert(temp.grid()[a] == temp.stringify@[a]@);
            }
        }
        temp.draw(0, 0, vertical - 1, horizontal - 1);
        proof {
            assert forall|a: int, b: int|
                0 <= a < horizontal && 0 <= b < vertical implies #[trigger] temp.grid()[a][b] == (
            if 1 < horizontal && 1 < vertical {
                border_mask(0, horizontal - 1, 0, vertical - 1, a, b)
            } else {
                0
            }) by {
                if 1 < horizontal && 1 < vertical {
                    lemma_or_zero(border_mask(0, horizontal - 1, 0, vertical - 1, a, b));
                }
            }
        }
        temp
    }

    /// Draw a border along the rows `up` and `down` and the columns `left`
    /// and `right`.  Arguments outside the grid, or a degenerate rectangle,
    /// draw nothing.
    pub fn rdraw(&mut self, up: usize, down: usize, left: usize, right: usize)
        requires
            old(self).wf(),
        ensures
            final(self).wf(),
            rdraw_rel(*old(self), *final(self), up as int, down as int, left as int, right as int),
    {
        if up >= self.height || down >= self.height || left >= self.width || right >= self.width
            || left == right || up == down {
            return ;
        }
        let mut ng: Vec<Vec<usize>> = Vec::new();
        let mut i: usize = 0;
        while i < self.height
            invariant
                old(self).wf(),
                *self == *old(self),
                border_ok(
                    self.height as int,
                    self.width as int,
                    up as int,
                    down as int,
                    left as int,
                    right as int,
                ),
                i <= self.height,
                ng@.len() == i,
                forall|a: int| 0 <= a < i ==> (#[trigger] ng@[a])@.len() == self.width,
                forall|a: int, b: int|
                    0 <= a < i && 0 <= b < self.width ==> #[trigger] ng@[a]@[b] == (
                    self.grid()[a][b] | border_mask(
                        up as int,
                        down as int,
                        left as int,
                        right as int,
                        a,
                        b,
                    )) && ng@[a]@[b] < 16,
            decreases self.height - i,
        {
            let mut row: Vec<usize> = Vec::new();
            let mut j: usize = 0;
            while j < self.width
                invariant
                    old(self).wf(),
                    *self == *old(self),
                    i < self.height,
                    j <= self.width,
                    row@.len() == j,
                    forall|b: int|
                        0 <= b < j ==> #[trigger] row@[b] == (self.grid()[i as int][b]
                            | border_mask(
                            up as int,
                            down as int,
                            left as int,
                            right as int,
                            i as int,
                            b,
                        )) && row@[b] < 16,
                decreases self.width - j,
            {
                let m = border_mask_at(up, down, left, right, i, j);
                proof {
                    assert(self.grid()[i as int] == self.stringify@[i as int]@);
                }
                let v = self.stringify[i][j];
                proof {
                    lemma_or_mask(v, m);
                }
                row.push(v | m);
                j += 1;
            }
            ng.push(row);
            i += 1;
        }
        self.stringify = ng;
        proof {
            assert(self.grid().len() == self.height);
            assert forall|a: int| 0 <= a < self.height implies (#[trigger] self.grid()[a]).len()
                == self.width by {
                assert(self.grid()[a] == self.stringify@[a]@);
            }
        }
    }

    /// Draw a border whose lower-left corner sits `y` rows above the bottom
    /// edge at column `x`, spanning `width` columns and `height` rows.
    pub fn draw(&mut self, x: usize, y: usize, width: usize, height: usize)
        requires
            old(self).wf(),
            y + height < old(self).height,
            x + width <= usize::MAX,
        ensures
            final(self).wf(),
            rdraw_rel(
                *old(self),
                *final(self),
                old(self).height - 1 - y - height,
                old(self).height - 1 - y,
                x as int,
                x + width,
            ),
    {
        let up = self.height - 1 - y - height;
        let down = self.height - 1 - y;
        self.rdraw(up, down, x, x + width)
    }

    /// The grid as box-drawing characters, one row of text per grid row.
    pub fn get_vec(&self) -> (r: Vec<Vec<char>>)
        requires
            self.wf(),
        ensures
            r@.len() == self.height,
            forall|i: int| 0 <= i < self.height ==> (#[trigger] r@[i])@.len() == self.width,
            forall|i: int, j: int|
                0 <= i < self.height && 0 <= j < self.width ==> #[trigger] r@[i]@[j] == glyph(
                    self.grid()[i][j] as int,
                ),
    {
        let mut r: Vec<Vec<char>> = Vec::new();
        let mut i: usize = 0;
        while i < self.height
            invariant
                self.wf(),
                i <= self.height,
                r@.len() == i,
                forall|a: int| 0 <= a < i ==> (#[trigger] r@[a])@.len() == self.width,
                forall|a: int, b: int|
                    0 <= a < i && 0 <= b < self.width ==> #[trigger] r@[a]@[b] == glyph(
                        self.grid()[a][b] as int,
                    ),
            decreases self.height - i,
        {
            let mut row: Vec<char> = Vec::new();
            let mut j: usize = 0;
            while j < self.width
                invariant
                    self.wf(),
                    i < self.height,
                    j <= self.width,
                    row@.len() == j,
                    forall|b: int|
                        0 <= b < j ==> #[trigger] row@[b] == glyph(self.grid()[i as int][b] as int),
                decreases self.width - j,
            {
                proof {
                    assert(self.grid()[i as int] == self.stringify@[i as int]@);
                }
                let x = self.stringify[i][j];
                row.push(glyph_of(x));
                j += 1;
            }
            r.push(row);
            i += 1;
        }
        r
    }
}

/// The mask a border contributes to one cell, as executable code.
fn border_mask_at(up: usize, down: usize, left: usize, right: usize, i: usize, j: usize) -> (m:
    usize)
    ensures
        m == border_mask(up as int, down as int, left as int, right as int, i as int, j as int),
        m < 16,
{
    if i == up && j == left {
        6
    } else if i == up && j == right {
        10
    } else if i == down && j == left {
        5
    } else if i == down && j == right {
        9
    } else if (j == left || j == right) && up < i && i < down {
        3
    } else if (i == up || i == down) && left < j && j < right {
        12
    } else {
        0
    }
}

/// The box-drawing character of a mask, as executable code.
fn glyph_of(x: usize) -> (c: char)
    requires
        x < 16,
    ensures
        c == glyph(x as int),
{
    if x == 0 {
        ' '
    } else if x == 1 {
        '上'
    } else if x == 2 {
        '下'
    } else if x == 3 {
        '║'
    } else if x == 4 {
        '左'
    } else if x == 5 {
        '╚'
    } else if x == 6 {
        '╔'
    } else if x == 7 {
        '╠'
    } else if x == 8 {
        '右'
    } else if x == 9 {
        '╝'
    } else if x == 10 {
        '╗'
    } else if x == 11 {
        '╣'
    } else if x == 12 {
        '═'
    } else if x == 13 {
        '╩'
    } else if x == 14 {
        '╦'
    } else {
        '╬'
    }
}

} // verus!
