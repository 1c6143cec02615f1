//! What one frame shows, as values: the hint line, the path box and its
//! cursor, the status line and the chart's axes. Drawing it is the caller's.

use vstd::prelude::*;
use crate::bounds::{is_extent, AxisBounds};
use crate::controller::{App, AppView, InputMode};

verus! {

/// A piece of the hint line; key names are shown in bold.
pub struct HintSpan {
    pub text: String,
    pub bold: bool,
}

/// Everything one frame shows.
pub struct DrawPlan {
    /// The hint line, piece by piece.
    pub hint: Vec<HintSpan>,
    /// Whether the hint line blinks, to draw the eye in normal mode.
    pub hint_blinks: bool,
    /// The text of the path box.
    pub path: String,
    /// Whether the path box is highlighted, as it is while editing.
    pub path_highlighted: bool,
    /// Where the terminal cursor goes, shown only while editing.
    pub cursor: Option<(u16, u16)>,
    /// The status line.
    pub status: String,
    /// Whether the status line is an alert.
    pub status_alert: bool,
    /// The chart's horizontal axis, in units.
    pub x_axis: AxisBounds,
    /// The chart's vertical axis, in units.
    pub y_axis: AxisBounds,
}

pub open spec fn hint_of(mode: InputMode) -> Seq<(Seq<char>, bool)> {
    match mode {
        InputMode::Normal => seq![
            ("Press "@, false),
            ("q"@, true),
            (" to exit, "@, false),
            ("e"@, true),
            (" to start editing."@, false),
        ],
        InputMode::Editing => seq![
            ("Press "@, false),
            ("Esc"@, true),
            (" to stop editing, "@, false),
            ("Enter"@, true),
            (" to record the message"@, false),
        ],
    }
}

pub open spec fn hint_view(spans: Seq<HintSpan>) -> Seq<(Seq<char>, bool)> {
    spans.map_values(|h: HintSpan| (h.text@, h.bold))
}

pub open spec fn clamp_u16(n: int) -> u16 {
    if n > 65535 {
        65535
    } else {
        n as u16
    }
}

/// The cursor sits just past the typed text, one line below the box's top
/// border, when editing; each coordinate stops at the largest `u16`.
pub open spec fn cursor_of(mode: InputMode, box_x: u16, box_y: u16, typed: nat) -> Option<
    (u16, u16),
> {
    if mode == InputMode::Editing {
        Some((clamp_u16(box_x + typed + 1), clamp_u16(box_y + 1)))
    } else {
        None
    }
}

/// The words shown when no error is.
pub open spec fn placeholder() -> Seq<char> {
    "Enter a CSV path (e.g., test.csv) and press Enter"@
}

pub open spec fn status_of(s: AppView) -> Seq<char> {
    match s.error {
        Some(e) => e,
        None => placeholder(),
    }
}

fn span(text: &str, bold: bool) -> (r: HintSpan)
    ensures
        r.text@ == text@,
        r.bold == bold,
{
    HintSpan { text: String::from_str(text), bold }
}

/// The hint line of a mode.
pub fn hint_for(mode: InputMode) -> (r: Vec<HintSpan>)
    ensures
        hint_view(r@) == hint_of(mode),
{
    let r = match mode {
        InputMode::Normal => vec![
            span("Press ", false),
            span("q", true),
            span(" to exit, ", false),
            span("e", true),
            span(" to start editing.", false),
        ],
        InputMode::Editing => vec![
            span("Press ", false),
            span("Esc", true),
            span(" to stop editing, ", false),
            span("Enter", true),
            span(" to record the message", false),
        ],
    };
    assert(hint_view(r@) =~= hint_of(mode));
    r
}

/// Where the cursor goes for a path box whose top-left corner is at
/// (`box_x`, `box_y`) holding `typed` characters.
pub fn cursor_position(mode: InputMode, box_x: u16, box_y: u16, typed: usize) -> (r: Option<
    (u16, u16),
>)
    ensures
        r == cursor_of(mode, box_x, box_y, typed as nat),
{
    match mode {
        InputMode::Normal => None,
        InputMode::Editing => {
            let col: u16 = if typed >= 65535 || box_x as usize + typed + 1 > 65535 {
                65535
            } else {
                (box_x as usize + typed + 1) as u16
            };
            let row: u16 = if box_y == 65535 {
                65535
            } else {
                box_y + 1
            };
            Some((col, row))
        },
    }
}

impl App {
    /// What the frame shows for this state, with the path box's top-left
    /// corner at (`box_x`, `box_y`).
    pub fn plan(&self, box_x: u16, box_y: u16) -> (p: DrawPlan)
        ensures
            hint_view(p.hint@) == hint_of(self@.mode),
            p.hint_blinks == (self@.mode == InputMode::Normal),
            p.path@ == self@.input,
            p.path_highlighted == (self@.mode == InputMode::Editing),
            p.cursor == cursor_of(self@.mode, box_x, box_y, self@.input.len()),
            p.status@ == status_of(self@),
            p.status_alert == (self@.error is Some),
            is_extent(self@.data, true, p.x_axis),
            is_extent(self@.data, false, p.y_axis),
    {
        let mode = self.mode();
        let path = self.input();
        let typed = path.as_str().unicode_len();
        let error = self.error_message();
        let status_alert = error.is_some();
        let status = match error {
            Some(e) => e,
            None => String::from_str("Enter a CSV path (e.g., test.csv) and press Enter"),
        };
        DrawPlan {
            hint: hint_for(mode),
            hint_blinks: mode == InputMode::Normal,
            path,
            path_highlighted: mode == InputMode::Editing,
            cursor: cursor_position(mode, box_x, box_y, typed),
            status,
            status_alert,
            x_axis: self.get_x_bounds(),
            y_axis: self.get_y_bounds(),
        }
    }
}

} // verus!
