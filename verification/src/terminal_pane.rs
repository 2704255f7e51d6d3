//! The pane that shows the output of a task, and the size of the
//! pseudo-terminals that fit into it.

use vstd::prelude::*;

verus! {

/// A rectangle of terminal cells.
#[derive(Clone, Copy, Debug, PartialEq, Eq, Structural)]
pub struct PaneArea {
    pub x: u16,
    pub y: u16,
    pub width: u16,
    pub height: u16,
}

/// The size that is assumed for the terminal when it cannot be asked, as
/// (columns, rows).
pub const FALLBACK_TERMINAL_SIZE: (u16, u16) = (80, 24);

/// The rectangle at (`x`, `y`) whose width and height are cut so that its
/// right and bottom edges stay within `u16`.
pub open spec fn clamped_area(x: u16, y: u16, width: u16, height: u16) -> PaneArea {
    PaneArea {
        x,
        y,
        width: if width > u16::MAX - x { (u16::MAX - x) as u16 } else { width },
        height: if height > u16::MAX - y { (u16::MAX - y) as u16 } else { height },
    }
}

/// The part of a terminal of `width` columns and `height` rows that is given
/// to task output: two thirds of the width, rounded down to a multiple of
/// two columns, and the full height.
pub open spec fn output_area_of(width: u16, height: u16) -> PaneArea {
    PaneArea { x: 0, y: 0, width: ((width / 3) * 2) as u16, height }
}

/// The size of a pseudo-terminal, as (rows, columns), for a terminal of the
/// given size, as (columns, rows); the fallback size stands in for a
/// terminal whose size is unknown.
pub open spec fn pty_dimensions_of(terminal_size: Option<(u16, u16)>) -> (u16, u16) {
    let size = match terminal_size {
        Some(size) => size,
        None => FALLBACK_TERMINAL_SIZE,
    };
    (size.1, ((size.0 / 3) * 2) as u16)
}

/// The pseudo-terminal has the full height of the terminal and two thirds of
/// its width, rounded down to an even number of columns: never more than
/// the terminal has, and none below three columns. A terminal of 80 columns
/// and 24 rows, which is also what stands in for an unknown size, gives 24
/// rows and 52 columns.
pub proof fn law_pty_dimensions(width: u16, height: u16)
    ensures
        pty_dimensions_of(Some((width, height))).0 == height,
        pty_dimensions_of(Some((width, height))).1 == (width / 3) * 2,
        pty_dimensions_of(Some((width, height))).1 <= width,
        pty_dimensions_of(Some((width, height))).1 <= 43690,
        width < 3 ==> pty_dimensions_of(Some((width, height))).1 == 0,
        pty_dimensions_of(Some((80, 24))) == (24u16, 52u16),
        pty_dimensions_of(None) == (24u16, 52u16),
{
}

/// Calls `ratatui::layout::Rect::new` and copies the four fields of the
/// rectangle out. `Rect::new` keeps `x` and `y` and cuts `width` to at most
/// `u16::MAX - x` and `height` to at most `u16::MAX - y`.
#[verifier::external_body]
fn rect_new(x: u16, y: u16, width: u16, height: u16) -> (area: PaneArea)
    ensures
        area == clamped_area(x, y, width, height),
{
    let rect = ratatui::layout::Rect::new(x, y, width, height);
    PaneArea { x: rect.x, y: rect.y, width: rect.width, height: rect.height }
}

/// The part of the terminal that is given to task output.
pub fn output_area(width: u16, height: u16) -> (area: PaneArea)
    ensures
        area == output_area_of(width, height),
{
    let output_width = (width / 3) * 2;
    rect_new(0, 0, output_width, height)
}

/// The size of the pseudo-terminal of a task that starts now, as (rows,
/// columns), from the size of the terminal as (columns, rows).
pub fn pty_dimensions(terminal_size: Option<(u16, u16)>) -> (dimensions: (u16, u16))
    ensures
        dimensions == pty_dimensions_of(terminal_size),
{
    let (width, height) = match terminal_size {
        Some(size) => size,
        None => FALLBACK_TERMINAL_SIZE,
    };
    TerminalPane::calculate_pty_dimensions(output_area(width, height))
}

/// The pane that shows task output.
#[derive(Clone, Copy, Debug, PartialEq, Eq, Structural)]
pub struct TerminalPane {
    pub area: PaneArea,
}

impl TerminalPane {
    /// A pane that has not been laid out yet.
    pub fn new() -> (pane: Self)
        ensures
            pane.area == (PaneArea { x: 0, y: 0, width: 0, height: 0 }),
    {
        TerminalPane { area: PaneArea { x: 0, y: 0, width: 0, height: 0 } }
    }

    /// The size of a pseudo-terminal that fills `area`, as (rows, columns).
    pub fn calculate_pty_dimensions(area: PaneArea) -> (dimensions: (u16, u16))
        ensures
            dimensions == (area.height, area.width),
    {
        (area.height, area.width)
    }

    /// Lays the pane out for a terminal of the given size and returns the
    /// size, as (rows, columns), that the pseudo-terminals take from now on.
    pub fn handle_resize(&mut self, width: u16, height: u16) -> (dimensions: (u16, u16))
        ensures
            final(self).area == output_area_of(width, height),
            dimensions == pty_dimensions_of(Some((width, height))),
    {
        self.area = output_area(width, height);
        TerminalPane::calculate_pty_dimensions(self.area)
    }
}

} // verus!
