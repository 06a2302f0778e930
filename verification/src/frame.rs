//! Frame geometry: the size of the pixel buffer, the row and column of each
//! of its slots, and where a pixel lies on the screen.

use vstd::prelude::*;

verus! {

/// Row and column of slot `index` in a row-major buffer of the given width.
pub open spec fn position_of(width: nat, index: nat) -> (nat, nat)
    recommends
        width > 0,
{
    (index / width, index % width)
}

/// The slot of the pixel at `row` and `col` in a row-major buffer of the
/// given width.
pub open spec fn slot_of(width: nat, row: nat, col: nat) -> nat {
    row * width + col
}

/// A point of the screen as a pair of fractions with a common denominator:
/// the point `(num_x / den, num_y / den)`.
#[derive(Clone, Copy, Debug, PartialEq, Eq, Structural)]
pub struct ScreenPoint {
    pub num_x: i128,
    pub num_y: i128,
    pub den: i128,
}

/// Where the pixel at `row` and `col` lies on a screen of the given size,
/// measured from the screen's midpoint in units of its height.
pub open spec fn screen_point_of(width: nat, height: nat, row: nat, col: nat) -> ScreenPoint {
    ScreenPoint {
        num_x: (2 * col - width) as i128,
        num_y: (2 * row - height) as i128,
        den: (2 * height) as i128,
    }
}

/// The size of a pixel buffer, fixed when it is made. Its pixel count fits a
/// `usize`.
#[derive(Clone, Copy, Debug)]
pub struct Frame {
    width: usize,
    height: usize,
}

impl Frame {
    #[verifier::type_invariant]
    spec fn fits(self) -> bool {
        self.width * self.height <= usize::MAX
    }

    /// The number of columns.
    pub closed spec fn columns(self) -> nat {
        self.width as nat
    }

    /// The number of rows.
    pub closed spec fn rows(self) -> nat {
        self.height as nat
    }

    /// The number of pixels.
    pub open spec fn area(self) -> nat {
        self.columns() * self.rows()
    }

    /// A frame of `width` columns and `height` rows, if its pixel count fits
    /// a `usize`.
    pub fn new(width: usize, height: usize) -> (frame: Option<Frame>)
        ensures
            frame is Some <==> width * height <= usize::MAX,
            frame matches Some(f) ==> f.columns() == width && f.rows() == height,
    {
        match width.checked_mul(height) {
            Some(_) => Some(Frame { width, height }),
            None => None,
        }
    }

    /// The number of columns.
    pub fn width(&self) -> (w: usize)
        ensures
            w == self.columns(),
    {
        self.width
    }

    /// The number of rows.
    pub fn height(&self) -> (h: usize)
        ensures
            h == self.rows(),
    {
        self.height
    }

    /// The number of pixels, which is the length of the frame's buffer.
    pub fn pixel_count(&self) -> (n: usize)
        ensures
            n == self.area(),
    {
        proof {
            use_type_invariant(self);
        }
        self.width * self.height
    }

    /// A buffer for this frame with every pixel black.
    pub fn blank(&self) -> (buffer: Vec<u32>)
        ensures
            buffer@.len() == self.area(),
            forall|k: int| 0 <= k < buffer@.len() ==> buffer@[k] == 0,
    {
        let n = self.pixel_count();
        let mut buffer: Vec<u32> = Vec::new();
        while buffer.len() < n
            invariant
                buffer@.len() <= n,
                forall|k: int| 0 <= k < buffer@.len() ==> buffer@[k] == 0,
            decreases n - buffer@.len(),
        {
            buffer.push(0);
        }
        buffer
    }

    /// Row and column of the pixel that slot `index` of the buffer holds.
    pub fn position(&self, index: usize) -> (at: (usize, usize))
        requires
            index < self.area(),
        ensures
            (at.0 as nat, at.1 as nat) == position_of(self.columns(), index as nat),
            at.0 < self.rows(),
            at.1 < self.columns(),
            slot_of(self.columns(), at.0 as nat, at.1 as nat) == index,
    {
        proof {
            lemma_position_in_frame(self.columns(), self.rows(), index as nat);
        }
        (index / self.width, index % self.width)
    }

    /// Where the pixel at `row` and `col` lies on the screen: its offset from
    /// the screen's midpoint, across and down, in units of the frame's
    /// height. Both fractions share one denominator, so a step of one pixel
    /// is as long across as it is down.
    pub fn screen_point(&self, row: usize, col: usize) -> (p: ScreenPoint)
        ensures
            p == screen_point_of(self.columns(), self.rows(), row as nat, col as nat),
            p.num_x == 2 * col - self.columns(),
            p.num_y == 2 * row - self.rows(),
            p.den == 2 * self.rows(),
    {
        ScreenPoint {
            num_x: 2 * (col as i128) - (self.width as i128),
            num_y: 2 * (row as i128) - (self.height as i128),
            den: 2 * (self.height as i128),
        }
    }
}

/// Every slot of a buffer of `width * height` pixels has its row below
/// `height` and its column below `width`, and is the slot of that row and
/// column.
pub proof fn lemma_position_in_frame(width: nat, height: nat, index: nat)
    requires
        index < width * height,
    ensures
        width > 0,
        position_of(width, index).0 < height,
        position_of(width, index).1 < width,
        slot_of(width, position_of(width, index).0, position_of(width, index).1) == index,
{
    assert(width > 0) by (nonlinear_arith)
        requires
            index < width * height,
    ;
    let w = width as int;
    let i = index as int;
    vstd::arithmetic::div_mod::lemma_fundamental_div_mod(i, w);
    vstd::arithmetic::div_mod::lemma_mod_bound(i, w);
    vstd::arithmetic::div_mod::lemma_div_pos_is_pos(i, w);
    assert(i / w < height) by (nonlinear_arith)
        requires
            i == w * (i / w) + i % w,
            0 <= i % w,
            i < w * height,
            w > 0,
    ;
    assert((i / w) * w == w * (i / w)) by (nonlinear_arith);
}

/// Every pixel of the frame has a slot of its own in the buffer, and that
/// slot leads back to the pixel.
pub proof fn lemma_slot_in_frame(width: nat, height: nat, row: nat, col: nat)
    requires
        row < height,
        col < width,
    ensures
        slot_of(width, row, col) < width * height,
        position_of(width, slot_of(width, row, col)) == (row, col),
{
    let w = width as int;
    let r = row as int;
    let c = col as int;
    assert(r * w + c < w * height) by (nonlinear_arith)
        requires
            0 <= r < height,
            0 <= c < w,
    ;
    vstd::arithmetic::div_mod::lemma_fundamental_div_mod_converse(r * w + c, w, r, c);
}

/// Two pixels share a slot only if they are the same pixel.
pub proof fn lemma_slots_differ(width: nat, height: nat, row_a: nat, col_a: nat, row_b: nat, col_b: nat)
    requires
        row_a < height,
        col_a < width,
        row_b < height,
        col_b < width,
        slot_of(width, row_a, col_a) == slot_of(width, row_b, col_b),
    ensures
        row_a == row_b,
        col_a == col_b,
{
    lemma_slot_in_frame(width, height, row_a, col_a);
    lemma_slot_in_frame(width, height, row_b, col_b);
}

/// A pixel lies within half the frame's height of the midpoint, up and down,
/// and within half its width, left and right; the pixel in the middle row and
/// column of a frame of even size lies on the midpoint itself.
pub proof fn lemma_screen_point_bounds(width: nat, height: nat, row: nat, col: nat)
    requires
        row < height,
        col < width,
        2 * width <= i128::MAX,
        2 * height <= i128::MAX,
    ensures
        ({
            let p = screen_point_of(width, height, row, col);
            &&& -(width as int) <= p.num_x < width
            &&& -(height as int) <= p.num_y < height
            &&& p.den == 2 * height
            &&& (2 * col == width ==> p.num_x == 0)
            &&& (2 * row == height ==> p.num_y == 0)
        }),
{
}

} // verus!
