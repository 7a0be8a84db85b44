use vstd::prelude::*;

use crate::geometry::{ScreenPoint, ScreenRect};
use crate::grid::{
    lemma_boundary_offset, valid_dimension,
    rect_from_bounds, spec_column_boundary, spec_rect_from_bounds, spec_row_boundary, GridCell,
    GridSpec,
};

verus! {

/// A selection between the cell where it started (`anchor`) and the cell the
/// pointer is over now (`focus`).
#[derive(Debug, Clone, Copy, PartialEq, Eq, Structural)]
pub struct GridSelection {
    pub anchor: GridCell,
    pub focus: GridCell,
}

/// A normalized grid area using exclusive right/bottom bounds.
#[derive(Debug, Clone, Copy, PartialEq, Eq, Structural)]
pub struct GridArea {
    pub left: u16,
    pub top: u16,
    pub right: u16,
    pub bottom: u16,
}

pub open spec fn min_u16(a: u16, b: u16) -> u16 {
    if a <= b {
        a
    } else {
        b
    }
}

pub open spec fn max_u16(a: u16, b: u16) -> u16 {
    if a >= b {
        a
    } else {
        b
    }
}

/// `v + 1`, saturating at `u16::MAX`.
pub open spec fn succ_saturating(v: u16) -> u16 {
    if v == u16::MAX {
        u16::MAX
    } else {
        (v + 1) as u16
    }
}

/// The smallest area holding both cells of a selection.
pub open spec fn spec_area(selection: GridSelection) -> GridArea {
    GridArea {
        left: min_u16(selection.anchor.column, selection.focus.column),
        top: min_u16(selection.anchor.row, selection.focus.row),
        right: succ_saturating(max_u16(selection.anchor.column, selection.focus.column)),
        bottom: succ_saturating(max_u16(selection.anchor.row, selection.focus.row)),
    }
}

/// The screen rectangle an area covers on a monitor, or `None` when the monitor is empty,
/// the area is empty or reaches past the grid, or the rectangle does not fit the coordinate types.
pub open spec fn spec_area_rect(area: GridArea, grid: GridSpec, monitor: ScreenRect) -> Option<
    ScreenRect,
> {
    if monitor.spec_is_empty() || area.left >= area.right || area.top >= area.bottom || area.right
        > grid.spec_columns() || area.bottom > grid.spec_rows() {
        None
    } else {
        let columns = grid.spec_columns() as int;
        let rows = grid.spec_rows() as int;
        spec_rect_from_bounds(
            spec_column_boundary(monitor, columns, area.left as int),
            spec_row_boundary(monitor, rows, area.top as int),
            spec_column_boundary(monitor, columns, area.right as int),
            spec_row_boundary(monitor, rows, area.bottom as int),
        )
    }
}

impl GridSelection {
    pub fn new(anchor: GridCell, focus: GridCell) -> (s: Self)
        ensures
            s.anchor == anchor,
            s.focus == focus,
    {
        Self { anchor, focus }
    }

    pub fn area(self) -> (a: GridArea)
        ensures
            a == spec_area(self),
    {
        GridArea::from_selection(self)
    }

    pub fn screen_rect(self, grid: GridSpec, monitor: ScreenRect) -> (r: Option<ScreenRect>)
        ensures
            r == spec_area_rect(spec_area(self), grid, monitor),
    {
        self.area().screen_rect(grid, monitor)
    }
}

impl GridArea {
    pub fn from_selection(selection: GridSelection) -> (a: Self)
        ensures
            a == spec_area(selection),
    {
        let anchor = selection.anchor;
        let focus = selection.focus;
        let left = if anchor.column <= focus.column {
            anchor.column
        } else {
            focus.column
        };
        let top = if anchor.row <= focus.row {
            anchor.row
        } else {
            focus.row
        };
        let right = if anchor.column >= focus.column {
            anchor.column
        } else {
            focus.column
        }.saturating_add(1);
        let bottom = if anchor.row >= focus.row {
            anchor.row
        } else {
            focus.row
        }.saturating_add(1);

        Self { left, top, right, bottom }
    }

    pub fn screen_rect(self, grid: GridSpec, monitor: ScreenRect) -> (r: Option<ScreenRect>)
        ensures
            r == spec_area_rect(self, grid, monitor),
    {
        if monitor.is_empty() || self.left >= self.right || self.top >= self.bottom || self.right
            > grid.columns() || self.bottom > grid.rows() {
            return None;
        }

        let left = grid.column_boundary(monitor, self.left);
        let right = grid.column_boundary(monitor, self.right);
        let top = grid.row_boundary(monitor, self.top);
        let bottom = grid.row_boundary(monitor, self.bottom);

        rect_from_bounds(left, top, right, bottom)
    }
}

/// Follows a pointer across a monitor's grid while a selection is being made.
#[derive(Debug, Clone, Copy, PartialEq, Eq, Structural)]
pub struct SelectionTracker {
    grid: GridSpec,
    monitor: ScreenRect,
    anchor: Option<GridCell>,
    focus: Option<GridCell>,
}

impl SelectionTracker {
    pub closed spec fn spec_grid(self) -> GridSpec {
        self.grid
    }

    pub closed spec fn spec_monitor(self) -> ScreenRect {
        self.monitor
    }

    pub closed spec fn spec_anchor(self) -> Option<GridCell> {
        self.anchor
    }

    pub closed spec fn spec_focus(self) -> Option<GridCell> {
        self.focus
    }

    /// Both ends of the selection are known or neither is; while they are, the monitor
    /// is not empty and both ends are cells of the grid.
    pub open spec fn spec_well_formed(self) -> bool {
        &&& valid_dimension(self.spec_grid().spec_columns() as int)
        &&& valid_dimension(self.spec_grid().spec_rows() as int)
        &&& (self.spec_anchor() is Some <==> self.spec_focus() is Some)
        &&& self.spec_anchor() is Some ==> {
            &&& !self.spec_monitor().spec_is_empty()
            &&& self.spec_grid().spec_contains_cell(self.spec_anchor()->0)
            &&& self.spec_grid().spec_contains_cell(self.spec_focus()->0)
        }
    }

    #[verifier::type_invariant]
    spec fn tracker_invariant(self) -> bool {
        self.spec_well_formed()
    }

    /// The selection made so far: present once both ends are known.
    pub open spec fn spec_selection(self) -> Option<GridSelection> {
        match (self.spec_anchor(), self.spec_focus()) {
            (Some(a), Some(f)) => Some(GridSelection { anchor: a, focus: f }),
            _ => None,
        }
    }

    /// The tracker after `begin(point)`, and the selection it reports.
    pub closed spec fn spec_begun(self, point: ScreenPoint) -> (Self, Option<GridSelection>) {
        if self.monitor.spec_is_empty() {
            (self, None)
        } else {
            let cell = self.grid.spec_clamped_cell(self.monitor, point);
            (
                SelectionTracker { anchor: Some(cell), focus: Some(cell), ..self },
                Some(GridSelection { anchor: cell, focus: cell }),
            )
        }
    }

    /// The tracker after `update(point)`, and the selection it reports.
    pub closed spec fn spec_updated(self, point: ScreenPoint) -> (Self, Option<GridSelection>) {
        if self.monitor.spec_is_empty() || self.anchor is None {
            (self, None)
        } else {
            let cell = self.grid.spec_clamped_cell(self.monitor, point);
            (
                SelectionTracker { focus: Some(cell), ..self },
                Some(GridSelection { anchor: self.anchor->0, focus: cell }),
            )
        }
    }

    /// A fresh tracker for `grid` on `monitor`.
    pub closed spec fn spec_new(grid: GridSpec, monitor: ScreenRect) -> Self {
        SelectionTracker { grid, monitor, anchor: None, focus: None }
    }

    pub fn new(grid: GridSpec, monitor: ScreenRect) -> (t: Self)
        ensures
            t == Self::spec_new(grid, monitor),
            t.spec_grid() == grid,
            t.spec_monitor() == monitor,
            t.spec_anchor() is None,
            t.spec_focus() is None,
            t.spec_well_formed(),
    {
        let _columns = grid.columns();
        let _rows = grid.rows();
        Self { grid, monitor, anchor: None, focus: None }
    }

    pub fn current_selection(self) -> (s: Option<GridSelection>)
        ensures
            s == self.spec_selection(),
            self.spec_well_formed(),
            s matches Some(sel) ==> {
                &&& !self.spec_monitor().spec_is_empty()
                &&& self.spec_grid().spec_contains_cell(sel.anchor)
                &&& self.spec_grid().spec_contains_cell(sel.focus)
                &&& (self.spec_monitor().spec_right() <= i32::MAX && self.spec_monitor().spec_bottom()
                    <= i32::MAX ==> spec_area_rect(
                    spec_area(sel),
                    self.spec_grid(),
                    self.spec_monitor(),
                ) is Some)
            },
    {
        proof {
            use_type_invariant(self);
            lemma_well_formed_selection_has_rect(self);
        }
        match (self.anchor, self.focus) {
            (Some(anchor), Some(focus)) => Some(GridSelection::new(anchor, focus)),
            _ => None,
        }
    }

    /// Starts a selection at the cell nearest `point`: both ends move to that cell.
    /// Nothing changes when the monitor is empty.
    pub fn begin(&mut self, point: ScreenPoint) -> (s: Option<GridSelection>)
        ensures
            (*final(self), s) == old(self).spec_begun(point),
            final(self).spec_grid() == old(self).spec_grid(),
            final(self).spec_monitor() == old(self).spec_monitor(),
            old(self).spec_monitor().spec_is_empty() ==> *final(self) == *old(self) && s is None,
            !old(self).spec_monitor().spec_is_empty() ==> {
                let cell = old(self).spec_grid().spec_clamped_cell(old(self).spec_monitor(), point);
                &&& final(self).spec_anchor() == Some(cell)
                &&& final(self).spec_focus() == Some(cell)
                &&& s == Some(GridSelection { anchor: cell, focus: cell })
            },
            old(self).spec_well_formed(),
            final(self).spec_well_formed(),
    {
        proof {
            use_type_invariant(&*self);
        }
        let cell = match self.grid.cell_at_clamped(self.monitor, point) {
            Some(cell) => cell,
            None => return None,
        };
        *self = SelectionTracker { anchor: Some(cell), focus: Some(cell), ..*self };
        proof {
            use_type_invariant(&*self);
        }
        self.current_selection()
    }

    /// Moves the selection's focus to the cell nearest `point`. Before a selection has
    /// begun, or on an empty monitor, nothing changes and `None` is returned.
    pub fn update(&mut self, point: ScreenPoint) -> (s: Option<GridSelection>)
        ensures
            (*final(self), s) == old(self).spec_updated(point),
            final(self).spec_grid() == old(self).spec_grid(),
            final(self).spec_monitor() == old(self).spec_monitor(),
            final(self).spec_anchor() == old(self).spec_anchor(),
            (old(self).spec_monitor().spec_is_empty() || old(self).spec_anchor() is None) ==> {
                &&& *final(self) == *old(self)
                &&& s is None
            },
            !(old(self).spec_monitor().spec_is_empty() || old(self).spec_anchor() is None) ==> {
                let cell = old(self).spec_grid().spec_clamped_cell(old(self).spec_monitor(), point);
                &&& final(self).spec_focus() == Some(cell)
                &&& s == Some(GridSelection { anchor: old(self).spec_anchor()->0, focus: cell })
            },
            old(self).spec_well_formed(),
            final(self).spec_well_formed(),
    {
        proof {
            use_type_invariant(&*self);
        }
        let cell = match self.grid.cell_at_clamped(self.monitor, point) {
            Some(cell) => cell,
            None => return None,
        };
        if self.anchor.is_none() {
            return None;
        }
        self.focus = Some(cell);
        proof {
            use_type_invariant(&*self);
        }
        self.current_selection()
    }

    /// Ends the selection, returning what had been selected.
    pub fn finish(&mut self) -> (s: Option<GridSelection>)
        ensures
            s == old(self).spec_selection(),
            final(self).spec_grid() == old(self).spec_grid(),
            final(self).spec_monitor() == old(self).spec_monitor(),
            final(self).spec_anchor() is None,
            final(self).spec_focus() is None,
            *final(self) == Self::spec_new(old(self).spec_grid(), old(self).spec_monitor()),
            old(self).spec_well_formed(),
            final(self).spec_well_formed(),
    {
        proof {
            use_type_invariant(&*self);
        }
        let selection = self.current_selection();
        self.clear();
        selection
    }

    /// Forgets the selection.
    pub fn clear(&mut self)
        ensures
            final(self).spec_grid() == old(self).spec_grid(),
            final(self).spec_monitor() == old(self).spec_monitor(),
            final(self).spec_anchor() is None,
            final(self).spec_focus() is None,
            *final(self) == Self::spec_new(old(self).spec_grid(), old(self).spec_monitor()),
            old(self).spec_well_formed(),
            final(self).spec_well_formed(),
    {
        proof {
            use_type_invariant(&*self);
        }
        *self = SelectionTracker { anchor: None, focus: None, ..*self };
        proof {
            use_type_invariant(&*self);
        }
    }
}

} // verus!

verus! {

/// While a well-formed tracker holds a selection, that selection has a screen rectangle on
/// its monitor, for monitors whose right and bottom edges are valid coordinates.
pub proof fn lemma_well_formed_selection_has_rect(t: SelectionTracker)
    requires
        t.spec_well_formed(),
    ensures
        t.spec_selection() matches Some(sel) ==> (t.spec_monitor().spec_right() <= i32::MAX
            && t.spec_monitor().spec_bottom() <= i32::MAX ==> spec_area_rect(
            spec_area(sel),
            t.spec_grid(),
            t.spec_monitor(),
        ) is Some),
{
    if let Some(sel) = t.spec_selection() {
        let grid = t.spec_grid();
        let monitor = t.spec_monitor();
        if monitor.spec_right() <= i32::MAX && monitor.spec_bottom() <= i32::MAX {
            lemma_area_within_grid(sel, grid);
            let a = spec_area(sel);
            let c = grid.spec_columns() as int;
            let r = grid.spec_rows() as int;
            lemma_boundary_offset(monitor.width as int, a.left as int, a.right as int, c);
            lemma_boundary_offset(monitor.width as int, a.right as int, c, c);
            lemma_boundary_offset(monitor.height as int, a.top as int, a.bottom as int, r);
            lemma_boundary_offset(monitor.height as int, a.bottom as int, r, r);
        }
    }
}

/// Two trackers that agree on grid, monitor and both ends of the selection are the same.
pub proof fn lemma_tracker_ext(a: SelectionTracker, b: SelectionTracker)
    requires
        a.spec_grid() == b.spec_grid(),
        a.spec_monitor() == b.spec_monitor(),
        a.spec_anchor() == b.spec_anchor(),
        a.spec_focus() == b.spec_focus(),
    ensures
        a == b,
{
}

/// A fresh tracker holds no selection, on the grid and monitor it was made for.
pub proof fn lemma_spec_new(grid: GridSpec, monitor: ScreenRect)
    ensures
        SelectionTracker::spec_new(grid, monitor).spec_grid() == grid,
        SelectionTracker::spec_new(grid, monitor).spec_monitor() == monitor,
        SelectionTracker::spec_new(grid, monitor).spec_anchor() is None,
        SelectionTracker::spec_new(grid, monitor).spec_focus() is None,
{
}

/// A selection covers the same area whichever of its two cells it started from.
pub proof fn lemma_area_ignores_direction(first: GridCell, second: GridCell)
    ensures
        spec_area(GridSelection { anchor: first, focus: second }) == spec_area(
            GridSelection { anchor: second, focus: first },
        ),
{
}

/// A selection whose cells both lie in the grid spans a non-empty area inside the grid.
pub proof fn lemma_area_within_grid(selection: GridSelection, grid: GridSpec)
    requires
        valid_dimension(grid.spec_columns() as int),
        valid_dimension(grid.spec_rows() as int),
        grid.spec_contains_cell(selection.anchor),
        grid.spec_contains_cell(selection.focus),
    ensures
        ({
            let a = spec_area(selection);
            &&& a.left < a.right <= grid.spec_columns()
            &&& a.top < a.bottom <= grid.spec_rows()
        }),
{
}

/// Selecting a single cell snaps to exactly that cell's rectangle.
pub proof fn lemma_single_cell_selection(grid: GridSpec, monitor: ScreenRect, cell: GridCell)
    requires
        valid_dimension(grid.spec_columns() as int),
        valid_dimension(grid.spec_rows() as int),
        grid.spec_contains_cell(cell),
    ensures
        spec_area_rect(spec_area(GridSelection { anchor: cell, focus: cell }), grid, monitor)
            == grid.spec_cell_rect(monitor, cell),
{
}

/// The rectangle of any area stays on the monitor.
pub proof fn lemma_area_rect_on_monitor(area: GridArea, grid: GridSpec, monitor: ScreenRect)
    requires
        valid_dimension(grid.spec_columns() as int),
        valid_dimension(grid.spec_rows() as int),
    ensures
        spec_area_rect(area, grid, monitor) matches Some(r) ==> {
            &&& monitor.x <= r.x
            &&& r.spec_right() <= monitor.spec_right()
            &&& monitor.y <= r.y
            &&& r.spec_bottom() <= monitor.spec_bottom()
        },
{
    if spec_area_rect(area, grid, monitor) is Some {
        lemma_boundary_offset(
            monitor.width as int,
            area.left as int,
            area.right as int,
            grid.spec_columns() as int,
        );
        lemma_boundary_offset(
            monitor.width as int,
            area.right as int,
            grid.spec_columns() as int,
            grid.spec_columns() as int,
        );
        lemma_boundary_offset(
            monitor.height as int,
            area.top as int,
            area.bottom as int,
            grid.spec_rows() as int,
        );
        lemma_boundary_offset(
            monitor.height as int,
            area.bottom as int,
            grid.spec_rows() as int,
            grid.spec_rows() as int,
        );
    }
}

} // verus!
