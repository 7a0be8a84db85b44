use vstd::prelude::*;

use crate::geometry::{ScreenPoint, ScreenRect};
use crate::text::{chars_of, decimal, push_chars, push_decimal};

verus! {

pub const MIN_GRID_DIMENSION: u16 = 1;

pub const MAX_GRID_DIMENSION: u16 = 64;

/// Column or row index of a grid cell.
#[derive(Debug, Clone, Copy, PartialEq, Eq, Structural)]
pub struct GridCell {
    pub column: u16,
    pub row: u16,
}

impl GridCell {
    pub fn new(column: u16, row: u16) -> (c: Self)
        ensures
            c.column == column,
            c.row == row,
    {
        Self { column, row }
    }
}

/// Why a requested grid size was rejected.
#[derive(Debug, Clone, Copy, PartialEq, Eq, Structural)]
pub enum GridError {
    ZeroColumns,
    ZeroRows,
    TooManyColumns { actual: u16, max: u16 },
    TooManyRows { actual: u16, max: u16 },
}

impl GridError {
    /// The message that describes the error to a user.
    pub open spec fn message(self) -> Seq<char> {
        match self {
            GridError::ZeroColumns => "grid must have at least one column"@,
            GridError::ZeroRows => "grid must have at least one row"@,
            GridError::TooManyColumns { actual, max } => "grid has "@ + decimal(actual as nat)
                + " columns, but the maximum is "@ + decimal(max as nat),
            GridError::TooManyRows { actual, max } => "grid has "@ + decimal(actual as nat)
                + " rows, but the maximum is "@ + decimal(max as nat),
        }
    }

    pub fn to_string(&self) -> (s: String)
        ensures
            s@ == self.message(),
    {
        let mut s = String::new();
        match *self {
            GridError::ZeroColumns => {
                let m = chars_of("grid must have at least one column");
                push_chars(&mut s, m.as_slice());
            },
            GridError::ZeroRows => {
                let m = chars_of("grid must have at least one row");
                push_chars(&mut s, m.as_slice());
            },
            GridError::TooManyColumns { actual, max } => {
                let a = chars_of("grid has ");
                let b = chars_of(" columns, but the maximum is ");
                push_chars(&mut s, a.as_slice());
                push_decimal(&mut s, actual as u64);
                push_chars(&mut s, b.as_slice());
                push_decimal(&mut s, max as u64);
            },
            GridError::TooManyRows { actual, max } => {
                let a = chars_of("grid has ");
                let b = chars_of(" rows, but the maximum is ");
                push_chars(&mut s, a.as_slice());
                push_decimal(&mut s, actual as u64);
                push_chars(&mut s, b.as_slice());
                push_decimal(&mut s, max as u64);
            },
        }
        proof {
            assert(Seq::<char>::empty() + "grid has "@ == "grid has "@);
            assert(Seq::<char>::empty() + "grid must have at least one column"@
                == "grid must have at least one column"@);
            assert(Seq::<char>::empty() + "grid must have at least one row"@
                == "grid must have at least one row"@);
        }
        s
    }
}

/// A validated grid size: between one and `MAX_GRID_DIMENSION` columns and rows.
#[derive(Debug, Clone, Copy, PartialEq, Eq, Structural)]
pub struct GridSpec {
    columns: u16,
    rows: u16,
}

/// `value` limited to the valid range of grid dimensions.
pub open spec fn spec_clamp_dimension(value: u16) -> u16 {
    if value < MIN_GRID_DIMENSION {
        MIN_GRID_DIMENSION
    } else if value > MAX_GRID_DIMENSION {
        MAX_GRID_DIMENSION
    } else {
        value
    }
}

pub open spec fn valid_dimension(value: int) -> bool {
    MIN_GRID_DIMENSION <= value <= MAX_GRID_DIMENSION
}

/// The outcome `GridSpec::new` gives for a requested size, in its order of checks.
pub open spec fn spec_grid_new(columns: u16, rows: u16) -> Result<(u16, u16), GridError> {
    if columns < MIN_GRID_DIMENSION {
        Err(GridError::ZeroColumns)
    } else if rows < MIN_GRID_DIMENSION {
        Err(GridError::ZeroRows)
    } else if columns > MAX_GRID_DIMENSION {
        Err(GridError::TooManyColumns { actual: columns, max: MAX_GRID_DIMENSION })
    } else if rows > MAX_GRID_DIMENSION {
        Err(GridError::TooManyRows { actual: rows, max: MAX_GRID_DIMENSION })
    } else {
        Ok((columns, rows))
    }
}

/// Screen coordinate of the left edge of `column` (a column index may equal the
/// column count, giving the monitor's right edge).
pub open spec fn spec_column_boundary(monitor: ScreenRect, columns: int, column: int) -> int {
    monitor.x + (monitor.width * column) / columns
}

pub open spec fn spec_row_boundary(monitor: ScreenRect, rows: int, row: int) -> int {
    monitor.y + (monitor.height * row) / rows
}

/// The cell of a grid of `columns` x `rows` that covers the point `(px, py)`.
pub open spec fn spec_cell_of(
    columns: int,
    rows: int,
    monitor: ScreenRect,
    px: int,
    py: int,
) -> GridCell {
    GridCell {
        column: ((px - monitor.x) * columns / (monitor.width as int)) as u16,
        row: ((py - monitor.y) * rows / (monitor.height as int)) as u16,
    }
}

pub open spec fn fits_i32(v: int) -> bool {
    i32::MIN <= v <= i32::MAX
}

pub open spec fn fits_u32(v: int) -> bool {
    0 <= v <= u32::MAX
}

pub open spec fn fits_i64(v: int) -> bool {
    i64::MIN <= v <= i64::MAX
}

/// The rectangle with the given edges, when each of its fields can hold it.
pub open spec fn spec_rect_from_bounds(left: int, top: int, right: int, bottom: int) -> Option<
    ScreenRect,
> {
    if fits_i64(right - left) && fits_i64(bottom - top) && fits_i32(left) && fits_i32(top)
        && fits_u32(right - left) && fits_u32(bottom - top) {
        Some(
            ScreenRect {
                x: left as i32,
                y: top as i32,
                width: (right - left) as u32,
                height: (bottom - top) as u32,
            },
        )
    } else {
        None
    }
}

/// `value` clamped into `[low, high]` (requires `low <= high`).
pub open spec fn clamp_int(value: int, low: int, high: int) -> int {
    if value < low {
        low
    } else if value > high {
        high
    } else {
        value
    }
}

impl GridSpec {
    #[verifier::type_invariant]
    spec fn inv(self) -> bool {
        valid_dimension(self.columns as int) && valid_dimension(self.rows as int)
    }

    pub closed spec fn spec_columns(self) -> u16 {
        self.columns
    }

    pub closed spec fn spec_rows(self) -> u16 {
        self.rows
    }

    /// The grid `clamped` makes.
    pub closed spec fn spec_clamped(columns: u16, rows: u16) -> GridSpec {
        GridSpec { columns: spec_clamp_dimension(columns), rows: spec_clamp_dimension(rows) }
    }

    pub open spec fn spec_contains_cell(self, cell: GridCell) -> bool {
        cell.column < self.spec_columns() && cell.row < self.spec_rows()
    }

    pub open spec fn spec_cell_of(self, monitor: ScreenRect, px: int, py: int) -> GridCell {
        spec_cell_of(self.spec_columns() as int, self.spec_rows() as int, monitor, px, py)
    }

    pub open spec fn spec_cell_rect(self, monitor: ScreenRect, cell: GridCell) -> Option<
        ScreenRect,
    > {
        if !self.spec_contains_cell(cell) || monitor.spec_is_empty() {
            None
        } else {
            spec_rect_from_bounds(
                spec_column_boundary(monitor, self.spec_columns() as int, cell.column as int),
                spec_row_boundary(monitor, self.spec_rows() as int, cell.row as int),
                spec_column_boundary(monitor, self.spec_columns() as int, cell.column + 1),
                spec_row_boundary(monitor, self.spec_rows() as int, cell.row + 1),
            )
        }
    }

    /// The cell that `cell_at_clamped` reports for a point on a non-empty monitor.
    pub open spec fn spec_clamped_cell(self, monitor: ScreenRect, point: ScreenPoint) -> GridCell {
        self.spec_cell_of(
            monitor,
            clamp_int(point.x as int, monitor.x as int, monitor.spec_right() - 1),
            clamp_int(point.y as int, monitor.y as int, monitor.spec_bottom() - 1),
        )
    }

    /// Creates a validated grid specification.
    ///
    /// The upper bound keeps accidental settings corruption from creating an
    /// unusably dense overlay or overflowing intermediate selection math.
    pub fn new(columns: u16, rows: u16) -> (r: Result<Self, GridError>)
        ensures
            match (r, spec_grid_new(columns, rows)) {
                (Ok(g), Ok((c, w))) => g.spec_columns() == c && g.spec_rows() == w && g
                    == Self::spec_clamped(columns, rows),
                (Err(e), Err(f)) => e == f,
                _ => false,
            },
    {
        if columns < MIN_GRID_DIMENSION {
            return Err(GridError::ZeroColumns);
        }
        if rows < MIN_GRID_DIMENSION {
            return Err(GridError::ZeroRows);
        }
        if columns > MAX_GRID_DIMENSION {
            return Err(GridError::TooManyColumns { actual: columns, max: MAX_GRID_DIMENSION });
        }
        if rows > MAX_GRID_DIMENSION {
            return Err(GridError::TooManyRows { actual: rows, max: MAX_GRID_DIMENSION });
        }
        Ok(Self { columns, rows })
    }

    /// A grid whose dimensions are the requested ones clamped into the valid range.
    pub fn clamped(columns: u16, rows: u16) -> (g: Self)
        ensures
            g == Self::spec_clamped(columns, rows),
            g.spec_columns() == spec_clamp_dimension(columns),
            g.spec_rows() == spec_clamp_dimension(rows),
    {
        Self { columns: clamp_dimension(columns), rows: clamp_dimension(rows) }
    }

    pub fn columns(self) -> (c: u16)
        ensures
            c == self.spec_columns(),
            valid_dimension(c as int),
    {
        proof {
            use_type_invariant(self);
        }
        self.columns
    }

    pub fn rows(self) -> (r: u16)
        ensures
            r == self.spec_rows(),
            valid_dimension(r as int),
    {
        proof {
            use_type_invariant(self);
        }
        self.rows
    }

    /// Screen x coordinate of the left edge of `column`.
    pub fn column_boundary(self, monitor: ScreenRect, column: u16) -> (b: i64)
        requires
            column <= self.spec_columns(),
        ensures
            b == spec_column_boundary(monitor, self.spec_columns() as int, column as int),
            monitor.x <= b <= monitor.spec_right(),
    {
        proof {
            use_type_invariant(self);
            lemma_boundary_offset(
                monitor.width as int,
                column as int,
                self.columns as int,
                self.columns as int,
            );
            vstd::arithmetic::mul::lemma_mul_upper_bound(
                monitor.width as int,
                u32::MAX as int,
                column as int,
                u16::MAX as int,
            );
        }
        let offset = (monitor.width as u64 * column as u64) / (self.columns as u64);
        monitor.x as i64 + offset as i64
    }

    /// Screen y coordinate of the top edge of `row`.
    pub fn row_boundary(self, monitor: ScreenRect, row: u16) -> (b: i64)
        requires
            row <= self.spec_rows(),
        ensures
            b == spec_row_boundary(monitor, self.spec_rows() as int, row as int),
            monitor.y <= b <= monitor.spec_bottom(),
    {
        proof {
            use_type_invariant(self);
            lemma_boundary_offset(monitor.height as int, row as int, self.rows as int, self.rows as int);
            vstd::arithmetic::mul::lemma_mul_upper_bound(
                monitor.height as int,
                u32::MAX as int,
                row as int,
                u16::MAX as int,
            );
        }
        let offset = (monitor.height as u64 * row as u64) / (self.rows as u64);
        monitor.y as i64 + offset as i64
    }

    /// The cell covering a point that lies on the monitor.
    fn cell_at_unchecked(self, monitor: ScreenRect, point: ScreenPoint) -> (c: GridCell)
        requires
            monitor.spec_contains(point),
        ensures
            c == self.spec_cell_of(monitor, point.x as int, point.y as int),
            self.spec_contains_cell(c),
    {
        proof {
            use_type_invariant(self);
            lemma_scaled_index(
                point.x - monitor.x,
                monitor.width as int,
                self.columns as int,
            );
            lemma_scaled_index(point.y - monitor.y, monitor.height as int, self.rows as int);
            vstd::arithmetic::mul::lemma_mul_upper_bound(
                point.x - monitor.x,
                u32::MAX as int,
                self.columns as int,
                u16::MAX as int,
            );
            vstd::arithmetic::mul::lemma_mul_upper_bound(
                point.y - monitor.y,
                u32::MAX as int,
                self.rows as int,
                u16::MAX as int,
            );
        }
        let relative_x = (point.x as i64 - monitor.x as i64) as u64;
        let relative_y = (point.y as i64 - monitor.y as i64) as u64;

        let column = relative_x * (self.columns as u64) / (monitor.width as u64);
        let row = relative_y * (self.rows as u64) / (monitor.height as u64);

        GridCell::new(column as u16, row as u16)
    }

    /// The cell covering `point`, or `None` when the point is off the monitor.
    pub fn cell_at(self, monitor: ScreenRect, point: ScreenPoint) -> (c: Option<GridCell>)
        ensures
            c == (if monitor.spec_contains(point) {
                Some(self.spec_cell_of(monitor, point.x as int, point.y as int))
            } else {
                None
            }),
            c matches Some(cell) ==> self.spec_contains_cell(cell),
    {
        if !monitor.contains(point) {
            return None;
        }
        Some(self.cell_at_unchecked(monitor, point))
    }

    /// Returns the nearest cell for a point, clamping points outside the monitor
    /// to the closest monitor edge.
    pub fn cell_at_clamped(self, monitor: ScreenRect, point: ScreenPoint) -> (c: Option<GridCell>)
        ensures
            c == (if monitor.spec_is_empty() {
                None
            } else {
                Some(self.spec_clamped_cell(monitor, point))
            }),
            c matches Some(cell) ==> self.spec_contains_cell(cell),
    {
        if monitor.is_empty() {
            return None;
        }

        let left = monitor.x as i64;
        let top = monitor.y as i64;
        let right = monitor.right();
        let bottom = monitor.bottom();

        let px = point.x as i64;
        let py = point.y as i64;
        let x = if px < left {
            left
        } else if px > right - 1 {
            right - 1
        } else {
            px
        };
        let y = if py < top {
            top
        } else if py > bottom - 1 {
            bottom - 1
        } else {
            py
        };

        Some(self.cell_at_unchecked(monitor, ScreenPoint::new(x as i32, y as i32)))
    }

    /// The screen rectangle of `cell`, or `None` when the cell is outside the grid,
    /// the monitor is empty, or the rectangle does not fit the coordinate types.
    pub fn cell_rect(self, monitor: ScreenRect, cell: GridCell) -> (r: Option<ScreenRect>)
        ensures
            r == self.spec_cell_rect(monitor, cell),
    {
        if !self.contains_cell(cell) || monitor.is_empty() {
            return None;
        }

        let left = self.column_boundary(monitor, cell.column);
        let right = self.column_boundary(monitor, cell.column + 1);
        let top = self.row_boundary(monitor, cell.row);
        let bottom = self.row_boundary(monitor, cell.row + 1);

        rect_from_bounds(left, top, right, bottom)
    }

    pub fn contains_cell(self, cell: GridCell) -> (b: bool)
        ensures
            b == self.spec_contains_cell(cell),
    {
        cell.column < self.columns && cell.row < self.rows
    }
}

/// For `0 <= a < w` and `c > 0`, the scaled index `a * c / w` lies in `[0, c)`.
pub proof fn lemma_scaled_index(a: int, w: int, c: int)
    requires
        0 <= a < w,
        0 < c,
    ensures
        0 <= a * c / w < c,
{
    vstd::arithmetic::mul::lemma_mul_strict_inequality(a, w, c);
    vstd::arithmetic::mul::lemma_mul_nonnegative(a, c);
    vstd::arithmetic::div_mod::lemma_multiply_divide_lt(a * c, w, c);
    vstd::arithmetic::div_mod::lemma_div_pos_is_pos(a * c, w);
}

/// For `0 <= i <= c`, the boundary offset `w * i / c` lies in `[0, w]`, and it grows with `i`.
pub proof fn lemma_boundary_offset(w: int, i: int, j: int, c: int)
    requires
        0 <= w,
        0 <= i <= j <= c,
        0 < c,
    ensures
        0 <= w * i / c <= w * j / c <= w,
        w * c / c == w,
{
    vstd::arithmetic::mul::lemma_mul_inequality(i, j, w);
    vstd::arithmetic::mul::lemma_mul_inequality(j, c, w);
    vstd::arithmetic::mul::lemma_mul_is_commutative(w, i);
    vstd::arithmetic::mul::lemma_mul_is_commutative(w, j);
    vstd::arithmetic::mul::lemma_mul_is_commutative(w, c);
    vstd::arithmetic::mul::lemma_mul_nonnegative(w, i);
    vstd::arithmetic::div_mod::lemma_div_pos_is_pos(w * i, c);
    vstd::arithmetic::div_mod::lemma_div_is_ordered(w * i, w * j, c);
    vstd::arithmetic::div_mod::lemma_div_is_ordered(w * j, w * c, c);
    vstd::arithmetic::div_mod::lemma_div_multiples_vanish(w, c);
}

/// The rectangle with the given edges, or `None` when a field cannot hold it.
pub fn rect_from_bounds(left: i64, top: i64, right: i64, bottom: i64) -> (r: Option<ScreenRect>)
    ensures
        r == spec_rect_from_bounds(left as int, top as int, right as int, bottom as int),
{
    let width = match right.checked_sub(left) {
        Some(w) => w,
        None => return None,
    };
    let height = match bottom.checked_sub(top) {
        Some(h) => h,
        None => return None,
    };
    if left < i32::MIN as i64 || left > i32::MAX as i64 || top < i32::MIN as i64 || top
        > i32::MAX as i64 {
        return None;
    }
    if width < 0 || width > u32::MAX as i64 || height < 0 || height > u32::MAX as i64 {
        return None;
    }
    Some(ScreenRect::new(left as i32, top as i32, width as u32, height as u32))
}

pub fn clamp_dimension(value: u16) -> (r: u16)
    ensures
        r == spec_clamp_dimension(value),
        valid_dimension(r as int),
{
    if value < MIN_GRID_DIMENSION {
        MIN_GRID_DIMENSION
    } else if value > MAX_GRID_DIMENSION {
        MAX_GRID_DIMENSION
    } else {
        value
    }
}

} // verus!

verus! {

/// Clamping agrees with validation: every clamped size is valid, and on sizes that
/// `GridSpec::new` accepts, `GridSpec::clamped` keeps the requested dimensions.
pub proof fn lemma_clamped_agrees_with_new(columns: u16, rows: u16)
    ensures
        valid_dimension(spec_clamp_dimension(columns) as int),
        valid_dimension(spec_clamp_dimension(rows) as int),
        spec_grid_new(columns, rows) is Ok <==> (valid_dimension(columns as int)
            && valid_dimension(rows as int)),
        spec_grid_new(columns, rows) is Ok ==> spec_grid_new(columns, rows) == Ok::<
            (u16, u16),
            GridError,
        >((spec_clamp_dimension(columns), spec_clamp_dimension(rows))),
{
}

/// Two grids with the same number of columns and rows are the same grid.
pub proof fn lemma_grid_ext(a: GridSpec, b: GridSpec)
    requires
        a.spec_columns() == b.spec_columns(),
        a.spec_rows() == b.spec_rows(),
    ensures
        a == b,
{
}

/// The grid that clamping makes has the clamped columns and rows; clamping again what
/// clamping gave changes nothing, and `GridSpec::new` accepts those dimensions and gives
/// that same grid.
pub proof fn lemma_clamped_dimensions(columns: u16, rows: u16)
    ensures
        GridSpec::spec_clamped(columns, rows).spec_columns() == spec_clamp_dimension(columns),
        GridSpec::spec_clamped(columns, rows).spec_rows() == spec_clamp_dimension(rows),
        GridSpec::spec_clamped(spec_clamp_dimension(columns), spec_clamp_dimension(rows))
            == GridSpec::spec_clamped(columns, rows),
        spec_grid_new(spec_clamp_dimension(columns), spec_clamp_dimension(rows)) == Ok::<
            (u16, u16),
            GridError,
        >((spec_clamp_dimension(columns), spec_clamp_dimension(rows))),
{
}

/// On sizes that `GridSpec::new` accepts, it gives the same grid as clamping.
pub proof fn lemma_new_is_clamped(columns: u16, rows: u16)
    requires
        valid_dimension(columns as int),
        valid_dimension(rows as int),
    ensures
        spec_grid_new(columns, rows) == Ok::<(u16, u16), GridError>((columns, rows)),
        GridSpec::spec_clamped(columns, rows).spec_columns() == columns,
        GridSpec::spec_clamped(columns, rows).spec_rows() == rows,
{
}

/// For a point on the monitor, the clamped lookup finds the same cell as the plain lookup.
pub proof fn lemma_clamped_cell_on_monitor(grid: GridSpec, monitor: ScreenRect, point: ScreenPoint)
    requires
        monitor.spec_contains(point),
    ensures
        grid.spec_clamped_cell(monitor, point) == grid.spec_cell_of(
            monitor,
            point.x as int,
            point.y as int,
        ),
{
}

/// `b` starts where `a` ends on the right, with the same vertical extent.
pub open spec fn meets_on_right(a: ScreenRect, b: ScreenRect) -> bool {
    a.spec_right() == b.x && a.y == b.y && a.height == b.height
}

/// `b` starts where `a` ends at the bottom, with the same horizontal extent.
pub open spec fn meets_below(a: ScreenRect, b: ScreenRect) -> bool {
    a.spec_bottom() == b.y && a.x == b.x && a.width == b.width
}

/// The cell rectangles of a grid tile the monitor without gaps: the first column starts at
/// the monitor's left edge, each column ends where the next one starts, and the last column
/// ends at the monitor's right edge; rows likewise.
pub proof fn lemma_cell_rects_tile_monitor(grid: GridSpec, monitor: ScreenRect, cell: GridCell)
    requires
        valid_dimension(grid.spec_columns() as int),
        valid_dimension(grid.spec_rows() as int),
        grid.spec_contains_cell(cell),
    ensures
        grid.spec_cell_rect(monitor, cell) matches Some(r) ==> {
            &&& (cell.column == 0 ==> r.x == monitor.x)
            &&& (cell.row == 0 ==> r.y == monitor.y)
            &&& (cell.column + 1 == grid.spec_columns() ==> r.spec_right() == monitor.spec_right())
            &&& (cell.row + 1 == grid.spec_rows() ==> r.spec_bottom() == monitor.spec_bottom())
        },
        cell.column + 1 < grid.spec_columns() && grid.spec_cell_rect(monitor, cell) is Some
            && grid.spec_cell_rect(monitor, GridCell { column: (cell.column + 1) as u16, ..cell })
            is Some ==> meets_on_right(
            grid.spec_cell_rect(monitor, cell)->0,
            grid.spec_cell_rect(monitor, GridCell { column: (cell.column + 1) as u16, ..cell })->0,
        ),
        cell.row + 1 < grid.spec_rows() && grid.spec_cell_rect(monitor, cell) is Some
            && grid.spec_cell_rect(monitor, GridCell { row: (cell.row + 1) as u16, ..cell })
            is Some ==> meets_below(
            grid.spec_cell_rect(monitor, cell)->0,
            grid.spec_cell_rect(monitor, GridCell { row: (cell.row + 1) as u16, ..cell })->0,
        ),
{
    let c = grid.spec_columns() as int;
    let w = grid.spec_rows() as int;
    lemma_boundary_offset(monitor.width as int, 0, 0, c);
    lemma_boundary_offset(monitor.height as int, 0, 0, w);
    vstd::arithmetic::div_mod::lemma_div_of0(c);
    vstd::arithmetic::div_mod::lemma_div_of0(w);
    assert(monitor.width * 0 == 0);
    assert(monitor.height * 0 == 0);
    if cell.column + 1 < c {
        let next = GridCell { column: (cell.column + 1) as u16, ..cell };
        assert(next.column as int == cell.column + 1);
        if grid.spec_cell_rect(monitor, cell) is Some && grid.spec_cell_rect(monitor, next) is Some {
            let r = grid.spec_cell_rect(monitor, cell)->0;
            let n = grid.spec_cell_rect(monitor, next)->0;
            assert(r.spec_right() == spec_column_boundary(monitor, c, cell.column + 1));
            assert(n.x == spec_column_boundary(monitor, c, cell.column + 1));
        }
    }
    if cell.row + 1 < w {
        let below = GridCell { row: (cell.row + 1) as u16, ..cell };
        assert(below.row as int == cell.row + 1);
        if grid.spec_cell_rect(monitor, cell) is Some && grid.spec_cell_rect(monitor, below) is Some {
            let r = grid.spec_cell_rect(monitor, cell)->0;
            let b = grid.spec_cell_rect(monitor, below)->0;
            assert(r.spec_bottom() == spec_row_boundary(monitor, w, cell.row + 1));
            assert(b.y == spec_row_boundary(monitor, w, cell.row + 1));
        }
    }
}

/// When the monitor's width and height are whole multiples of the column and row counts,
/// the cell that `cell_at` reports for a point on the monitor is the cell whose rectangle
/// holds the point.
pub proof fn lemma_cell_rect_holds_point(grid: GridSpec, monitor: ScreenRect, point: ScreenPoint)
    requires
        valid_dimension(grid.spec_columns() as int),
        valid_dimension(grid.spec_rows() as int),
        monitor.spec_contains(point),
        (monitor.width as int) % (grid.spec_columns() as int) == 0,
        (monitor.height as int) % (grid.spec_rows() as int) == 0,
    ensures
        grid.spec_contains_cell(grid.spec_cell_of(monitor, point.x as int, point.y as int)),
        grid.spec_cell_rect(monitor, grid.spec_cell_of(monitor, point.x as int, point.y as int))
            matches Some(r) ==> r.spec_contains(point),
{
    let c = grid.spec_columns() as int;
    let w = grid.spec_rows() as int;
    let rx = point.x - monitor.x;
    let ry = point.y - monitor.y;
    lemma_scaled_index(rx, monitor.width as int, c);
    lemma_scaled_index(ry, monitor.height as int, w);
    lemma_cell_edges_hold_offset(rx, monitor.width as int, c);
    lemma_cell_edges_hold_offset(ry, monitor.height as int, w);
}

/// For any monitor, the point lies inside the rectangle of the cell that `cell_at` reports,
/// or on its right or bottom edge: the edges of a cell are rounded down, so a point just
/// before an edge that falls between two pixels is reported in the cell that ends there.
pub proof fn lemma_cell_rect_reaches_point(grid: GridSpec, monitor: ScreenRect, point: ScreenPoint)
    requires
        valid_dimension(grid.spec_columns() as int),
        valid_dimension(grid.spec_rows() as int),
        monitor.spec_contains(point),
    ensures
        grid.spec_contains_cell(grid.spec_cell_of(monitor, point.x as int, point.y as int)),
        grid.spec_cell_rect(monitor, grid.spec_cell_of(monitor, point.x as int, point.y as int))
            matches Some(r) ==> {
            &&& r.x <= point.x <= r.spec_right()
            &&& r.y <= point.y <= r.spec_bottom()
        },
{
    let c = grid.spec_columns() as int;
    let w = grid.spec_rows() as int;
    let rx = point.x - monitor.x;
    let ry = point.y - monitor.y;
    lemma_scaled_index(rx, monitor.width as int, c);
    lemma_scaled_index(ry, monitor.height as int, w);
    lemma_cell_edges_reach_offset(rx, monitor.width as int, c);
    lemma_cell_edges_reach_offset(ry, monitor.height as int, w);
}

/// The offset `a` lies between the (rounded down) edges of its scaled index, the right edge
/// included.
proof fn lemma_cell_edges_reach_offset(a: int, w: int, c: int)
    requires
        0 <= a < w,
        0 < c,
    ensures
        w * (a * c / w) / c <= a <= w * (a * c / w + 1) / c,
{
    let i = a * c / w;
    vstd::arithmetic::div_mod::lemma_fundamental_div_mod(a * c, w);
    vstd::arithmetic::div_mod::lemma_mod_pos_bound(a * c, w);
    assert(w * i <= a * c < w * i + w) by (nonlinear_arith)
        requires
            a * c == w * i + (a * c) % w,
            0 <= (a * c) % w < w,
    ;
    assert(w * i <= a * c && a * c <= w * (i + 1)) by (nonlinear_arith)
        requires
            w * i <= a * c < w * i + w,
    ;
    vstd::arithmetic::div_mod::lemma_div_is_ordered(w * i, a * c, c);
    vstd::arithmetic::div_mod::lemma_div_is_ordered(a * c, w * (i + 1), c);
    vstd::arithmetic::mul::lemma_mul_is_commutative(a, c);
    vstd::arithmetic::div_mod::lemma_div_multiples_vanish(a, c);
}

/// With `w` a multiple of `c`, the offset `a` lies between the edges of its scaled index.
proof fn lemma_cell_edges_hold_offset(a: int, w: int, c: int)
    requires
        0 <= a < w,
        0 < c,
        w % c == 0,
    ensures
        w * (a * c / w) / c <= a < w * (a * c / w + 1) / c,
{
    let k = w / c;
    vstd::arithmetic::div_mod::lemma_fundamental_div_mod(w, c);
    assert(w == c * k);
    assert(k > 0) by (nonlinear_arith)
        requires
            w == c * k,
            w > 0,
            c > 0,
    ;
    let i = a * c / w;
    // a * c / (c * k) == a / k
    vstd::arithmetic::div_mod::lemma_div_denominator(a * c, c, k);
    vstd::arithmetic::mul::lemma_mul_is_commutative(a, c);
    vstd::arithmetic::div_mod::lemma_div_multiples_vanish(a, c);
    assert(i == a / k);
    vstd::arithmetic::div_mod::lemma_fundamental_div_mod(a, k);
    // w * i / c == k * i and w * (i + 1) / c == k * (i + 1)
    assert(w * i == (k * i) * c) by (nonlinear_arith)
        requires
            w == c * k,
    ;
    assert(w * (i + 1) == (k * (i + 1)) * c) by (nonlinear_arith)
        requires
            w == c * k,
    ;
    vstd::arithmetic::div_mod::lemma_div_multiples_vanish(k * i, c);
    vstd::arithmetic::div_mod::lemma_div_multiples_vanish(k * (i + 1), c);
    vstd::arithmetic::mul::lemma_mul_is_commutative(c, k * i);
    vstd::arithmetic::mul::lemma_mul_is_commutative(c, k * (i + 1));
    vstd::arithmetic::div_mod::lemma_mod_pos_bound(a, k);
    assert(k * (i + 1) == k * i + k) by (nonlinear_arith);
}

} // verus!
