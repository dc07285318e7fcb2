use vstd::prelude::*;

use crate::game_error::GameError;

verus! {

/// A signed (row, column) offset between two grid coordinates.
#[derive(Debug, Clone, Copy, PartialEq, Eq, PartialOrd, Ord, Hash)]
pub struct PositionDelta {
    pub delta_height: i32,
    pub delta_width: i32,
}

impl PositionDelta {
    pub fn new(height: i32, width: i32) -> (r: Self)
        ensures
            r.delta_height == height,
            r.delta_width == width,
    {
        Self { delta_height: height, delta_width: width }
    }

    /// The same direction, twice as far: one step over the wall-segment cell
    /// onto the next space cell.
    pub fn doubled(self) -> (r: Self)
        requires
            i32::MIN <= 2 * self.delta_height <= i32::MAX,
            i32::MIN <= 2 * self.delta_width <= i32::MAX,
        ensures
            r.delta_height == 2 * self.delta_height,
            r.delta_width == 2 * self.delta_width,
    {
        Self::new(self.delta_height * 2, self.delta_width * 2)
    }

    /// The row offset doubled and the column offset tripled.
    pub fn tripled(self) -> (r: Self)
        requires
            i32::MIN <= 2 * self.delta_height <= i32::MAX,
            i32::MIN <= 3 * self.delta_width <= i32::MAX,
        ensures
            r.delta_height == 2 * self.delta_height,
            r.delta_width == 3 * self.delta_width,
    {
        Self::new(self.delta_height * 2, self.delta_width * 3)
    }
}

/// A coordinate on a `H` x `W` grid.
///
/// A value exists only for `row < H`, `col < W`, and only on grids whose cell
/// count fits in a `usize`, so that its linear index never overflows.
#[derive(Debug, Clone, Copy, PartialEq, Eq, PartialOrd, Ord, Hash)]
pub struct Position<const H: usize, const W: usize> {
    height: usize,
    width: usize,
}

impl<const H: usize, const W: usize> Position<H, W> {
    #[verifier::type_invariant]
    closed spec fn in_bounds(self) -> bool {
        &&& self.height < H
        &&& self.width < W
        &&& H * W <= usize::MAX
    }

    /// The row of the coordinate.
    pub closed spec fn row(self) -> int {
        self.height as int
    }

    /// The column of the coordinate.
    pub closed spec fn col(self) -> int {
        self.width as int
    }

    /// The position at (`height`, `width`), where one exists.
    pub closed spec fn spec_new(height: int, width: int) -> Option<Self> {
        if 0 <= height < H && 0 <= width < W && H * W <= usize::MAX {
            Some(Position { height: height as usize, width: width as usize })
        } else {
            None
        }
    }

    /// Row-major linear index: `row * W + col`.
    pub open spec fn index(self) -> int {
        self.row() * W + self.col()
    }

    /// The position whose linear index is `value`, or the error for an index
    /// outside the grid.
    pub open spec fn spec_from_index(value: usize) -> Result<Self, GameError> {
        if W == 0 {
            Err(GameError::IndexToPositionError(value))
        } else {
            match Self::spec_new((value / W) as int, (value % W) as int) {
                Some(p) => Ok(p),
                None => Err(GameError::IndexToPositionError(value)),
            }
        }
    }

    /// The position `(dh, dw)` away, or the out-of-bounds error that names this
    /// position and `delta`.
    pub open spec fn shifted(self, dh: int, dw: int, delta: PositionDelta) -> Result<Self, GameError> {
        match Self::spec_new(self.row() + dh, self.col() + dw) {
            Some(p) => Ok(p),
            None => Err(
                GameError::TriedToGoOutOfBounds((self.row() as usize, self.col() as usize), delta),
            ),
        }
    }

    /// A position made by `spec_new` exists exactly for in-range coordinates,
    /// and sits at the coordinates it was made from.
    pub broadcast proof fn lemma_spec_new(height: int, width: int)
        ensures
            #[trigger] Self::spec_new(height, width) is Some <==> (0 <= height < H && 0 <= width
                < W && H * W <= usize::MAX),
            Self::spec_new(height, width) matches Some(p) ==> p.row() == height && p.col()
                == width,
    {
    }

    /// The position at (`height`, `width`); `None` when either coordinate is out
    /// of range, or when the grid has more cells than a `usize` can count.
    pub fn new(height: usize, width: usize) -> (r: Option<Self>)
        ensures
            r == Self::spec_new(height as int, width as int),
            r is Some <==> (height < H && width < W && H * W <= usize::MAX),
            r matches Some(p) ==> p.row() == height && p.col() == width,
    {
        if height >= H || width >= W {
            None
        } else if H.checked_mul(W).is_none() {
            None
        } else {
            Some(Self { height, width })
        }
    }

    pub fn width(&self) -> (r: usize)
        ensures
            r == self.col(),
            r < W,
            self.row() < H,
            H * W <= usize::MAX,
    {
        proof {
            use_type_invariant(self);
        }
        self.width
    }

    pub fn height(&self) -> (r: usize)
        ensures
            r == self.row(),
            r < H,
            self.col() < W,
            H * W <= usize::MAX,
    {
        proof {
            use_type_invariant(self);
        }
        self.height
    }

    /// One column to the right; `None` at the right edge.
    pub fn step_right(&self) -> (r: Option<Self>)
        ensures
            r == Self::spec_new(self.row(), self.col() + 1),
    {
        proof {
            use_type_invariant(self);
        }
        Position::new(self.height, self.width + 1)
    }

    /// One row down; `None` at the bottom edge.
    pub fn step_down(&self) -> (r: Option<Self>)
        ensures
            r == Self::spec_new(self.row() + 1, self.col()),
    {
        proof {
            use_type_invariant(self);
        }
        Position::new(self.height + 1, self.width)
    }

    /// One column to the left; `None` at column zero.
    pub fn step_left(&self) -> (r: Option<Self>)
        ensures
            r == Self::spec_new(self.row(), self.col() - 1),
    {
        if self.width == 0 {
            return None;
        }
        Position::new(self.height, self.width - 1)
    }

    /// One row up; `None` at row zero.
    pub fn step_up(&self) -> (r: Option<Self>)
        ensures
            r == Self::spec_new(self.row() - 1, self.col()),
    {
        if self.height == 0 {
            return None;
        }
        Position::new(self.height - 1, self.width)
    }

    pub fn as_tuple(&self) -> (r: (usize, usize))
        ensures
            r.0 == self.row(),
            r.1 == self.col(),
    {
        (self.height, self.width)
    }

    /// Every in-range coordinate comes back unchanged from its linear index.
    pub proof fn lemma_index_round_trip(height: usize, width: usize)
        requires
            height < H,
            width < W,
            H * W <= usize::MAX,
        ensures
            (Self::spec_new(height as int, width as int) matches Some(p) && Self::spec_from_index(
                p.index() as usize,
            ) == Ok::<Self, GameError>(p)),
    {
        let p = Position::<H, W> { height, width };
        lemma_index_parts(height as int, width as int, H as int, W as int);
        assert(Self::spec_new(height as int, width as int) == Some(p));
    }

    /// On a grid whose cell count fits in a `usize`, every index below `H * W`
    /// names a position that encodes back to it; every index at or past `H * W`
    /// is rejected with the index it was given.
    pub proof fn lemma_index_range(value: usize)
        ensures
            value < H * W <= usize::MAX ==> (Self::spec_from_index(value) matches Ok(q) && q.index() == value),
            value >= H * W ==> Self::spec_from_index(value) == Err::<Self, GameError>(
                GameError::IndexToPositionError(value),
            ),
    {
        if W > 0 {
            if value < H * W {
                lemma_div_row(value as int, H as int, W as int);
            } else {
                lemma_div_past_end(value as int, H as int, W as int);
            }
        }
    }
}

/// `row * w + col` splits back into `row` and `col` and stays below `h * w`.
pub(crate) proof fn lemma_index_parts(row: int, col: int, h: int, w: int)
    requires
        0 <= row < h,
        0 <= col < w,
    ensures
        (row * w + col) / w == row,
        (row * w + col) % w == col,
        row * w + col < h * w,
        0 <= row * w + col,
{
    vstd::arithmetic::div_mod::lemma_fundamental_div_mod_converse(row * w + col, w, row, col);
    vstd::arithmetic::mul::lemma_mul_inequality(row + 1, h, w);
    vstd::arithmetic::mul::lemma_mul_is_distributive_add_other_way(w, row, 1);
    vstd::arithmetic::mul::lemma_mul_nonnegative(row, w);
}

/// An index below `h * w` has a row below `h`, and re-encodes to itself.
proof fn lemma_div_row(value: int, h: int, w: int)
    requires
        0 <= value < h * w,
        0 < w,
    ensures
        0 <= value / w < h,
        0 <= value % w < w,
        (value / w) * w + value % w == value,
{
    vstd::arithmetic::div_mod::lemma_fundamental_div_mod(value, w);
    vstd::arithmetic::div_mod::lemma_div_pos_is_pos(value, w);
    vstd::arithmetic::div_mod::lemma_mod_bound(value, w);
    vstd::arithmetic::mul::lemma_mul_is_commutative(value / w, w);
    if value / w >= h {
        vstd::arithmetic::mul::lemma_mul_inequality(h, value / w, w);
    }
}

/// An index at or past `h * w` has a row at or past `h`.
proof fn lemma_div_past_end(value: int, h: int, w: int)
    requires
        0 <= h,
        0 < w,
        value >= h * w,
    ensures
        value / w >= h,
{
    vstd::arithmetic::div_mod::lemma_div_is_ordered(h * w, value, w);
    vstd::arithmetic::div_mod::lemma_div_multiples_vanish(h, w);
    vstd::arithmetic::mul::lemma_mul_is_commutative(h, w);
}

impl<const H: usize, const W: usize> TryFrom<usize> for Position<H, W> {
    type Error = GameError;

    fn try_from(value: usize) -> (r: Result<Self, GameError>) {
        if W == 0 {
            return Err(GameError::IndexToPositionError(value));
        }
        let height = value / W;
        let width = value % W;
        match Self::new(height, width) {
            Some(pos) => Ok(pos),
            None => Err(GameError::IndexToPositionError(value)),
        }
    }
}

impl<const H: usize, const W: usize> vstd::std_specs::convert::TryFromSpecImpl<usize> for Position<H, W> {
    open spec fn obeys_try_from_spec() -> bool {
        true
    }

    open spec fn try_from_spec(v: usize) -> Result<Self, GameError> {
        Self::spec_from_index(v)
    }
}

impl<const H: usize, const W: usize> From<Position<H, W>> for usize {
    fn from(value: Position<H, W>) -> (r: usize) {
        proof {
            use_type_invariant(&value);
            lemma_index_parts(value.height as int, value.width as int, H as int, W as int);
        }
        (value.height * W) + value.width
    }
}

impl<const H: usize, const W: usize> vstd::std_specs::convert::FromSpecImpl<Position<H, W>> for usize {
    open spec fn obeys_from_spec() -> bool {
        true
    }

    open spec fn from_spec(v: Position<H, W>) -> usize {
        v.index() as usize
    }
}

impl<const H: usize, const W: usize> std::ops::Add<PositionDelta> for Position<H, W> {
    type Output = Result<Position<H, W>, GameError>;

    fn add(self, rhs: PositionDelta) -> (r: Result<Position<H, W>, GameError>) {
        proof {
            use_type_invariant(&self);
        }
        let height: i128 = self.height as i128 + rhs.delta_height as i128;
        let width: i128 = self.width as i128 + rhs.delta_width as i128;
        if 0 <= height && height < H as i128 && 0 <= width && width < W as i128 {
            if let Some(pos) = Position::new(height as usize, width as usize) {
                return Ok(pos);
            }
        }
        Err(GameError::TriedToGoOutOfBounds((self.height, self.width), rhs))
    }
}

impl<const H: usize, const W: usize> vstd::std_specs::ops::AddSpecImpl<PositionDelta> for Position<H, W> {
    open spec fn obeys_add_spec() -> bool {
        true
    }

    open spec fn add_req(self, rhs: PositionDelta) -> bool {
        true
    }

    open spec fn add_spec(self, rhs: PositionDelta) -> Result<Position<H, W>, GameError> {
        self.shifted(rhs.delta_height as int, rhs.delta_width as int, rhs)
    }
}

impl<const H: usize, const W: usize> std::ops::Sub<PositionDelta> for Position<H, W> {
    type Output = Result<Position<H, W>, GameError>;

    fn sub(self, rhs: PositionDelta) -> (r: Result<Position<H, W>, GameError>) {
        proof {
            use_type_invariant(&self);
        }
        let height: i128 = self.height as i128 - rhs.delta_height as i128;
        let width: i128 = self.width as i128 - rhs.delta_width as i128;
        if 0 <= height && height < H as i128 && 0 <= width && width < W as i128 {
            if let Some(pos) = Position::new(height as usize, width as usize) {
                return Ok(pos);
            }
        }
        Err(GameError::TriedToGoOutOfBounds((self.height, self.width), rhs))
    }
}

impl<const H: usize, const W: usize> vstd::std_specs::ops::SubSpecImpl<PositionDelta> for Position<H, W> {
    open spec fn obeys_sub_spec() -> bool {
        true
    }

    open spec fn sub_req(self, rhs: PositionDelta) -> bool {
        true
    }

    open spec fn sub_spec(self, rhs: PositionDelta) -> Result<Position<H, W>, GameError> {
        self.shifted(-rhs.delta_height, -rhs.delta_width, rhs)
    }
}

} // verus!
