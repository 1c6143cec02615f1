//! The application state and the two-mode input state machine that drives it.
//!
//! A key press moves the state by `key_step`. Enter in editing mode also asks
//! the caller to read the file that the path buffer names; the caller hands
//! back the bytes or the reason it could not read them, and `load_step` says
//! what the state becomes.

use vstd::prelude::*;
use crate::bounds::{is_extent, x_bounds, y_bounds, AxisBounds};
use crate::number::lemma_decimal_range;
use crate::records::{
    csv_rows_of, lemma_all_rows_kept, load_of, load_points, point_of, points_of, points_view,
};

verus! {

/// Whether keys move around or edit the path.
#[derive(Debug, Clone, Copy, PartialEq, Eq, Structural)]
pub enum InputMode {
    Normal,
    Editing,
}

/// A key press, as far as the application tells keys apart.
#[derive(Debug, Clone, Copy, PartialEq, Eq, Structural)]
pub enum Key {
    Char(char),
    Enter,
    Backspace,
    Esc,
    Other,
}

/// What the caller must do after a key press.
#[derive(Debug, Clone, Copy, PartialEq, Eq, Structural)]
pub enum Action {
    /// Nothing beyond drawing the next frame.
    Nothing,
    /// Read the file that the path buffer names and hand the result to
    /// `App::finish_load`.
    Load,
}

/// The whole state of the application.
pub struct App {
    running: bool,
    input_mode: InputMode,
    input: String,
    data: Vec<(i128, i128)>,
    error_message: Option<String>,
}

/// The state of the application as values.
pub struct AppView {
    pub running: bool,
    pub mode: InputMode,
    pub input: Seq<char>,
    pub data: Seq<(i128, i128)>,
    pub error: Option<Seq<char>>,
}

pub open spec fn opt_string_view(s: Option<String>) -> Option<Seq<char>> {
    match s {
        Some(t) => Some(t@),
        None => None,
    }
}

impl View for App {
    type V = AppView;

    closed spec fn view(&self) -> AppView {
        AppView {
            running: self.running,
            mode: self.input_mode,
            input: self.input@,
            data: self.data@,
            error: opt_string_view(self.error_message),
        }
    }
}

/// The state at start-up: running, not editing, nothing typed or loaded.
pub open spec fn initial_state() -> AppView {
    AppView { running: true, mode: InputMode::Normal, input: seq![], data: seq![], error: None }
}

/// The state after one key press.
pub open spec fn key_step(s: AppView, key: Key) -> AppView {
    match s.mode {
        InputMode::Normal => match key {
            Key::Char('e') => AppView { mode: InputMode::Editing, ..s },
            Key::Char('q') => AppView { running: false, ..s },
            _ => s,
        },
        InputMode::Editing => match key {
            Key::Char(c) => AppView { input: s.input.push(c), ..s },
            Key::Backspace => if s.input.len() > 0 {
                AppView { input: s.input.drop_last(), ..s }
            } else {
                s
            },
            Key::Esc => AppView { mode: InputMode::Normal, ..s },
            _ => s,
        },
    }
}

/// What a key press asks of the caller.
pub open spec fn key_action(s: AppView, key: Key) -> Action {
    if s.mode == InputMode::Editing && key == Key::Enter {
        Action::Load
    } else {
        Action::Nothing
    }
}

pub open spec fn error_text(detail: Seq<char>) -> Seq<char> {
    "Error: "@ + detail
}

/// The state after the caller tried to read the file: `Ok` with its bytes,
/// or `Err` with why it could not.
pub open spec fn load_step(s: AppView, outcome: Result<Seq<u8>, Seq<char>>) -> AppView {
    match outcome {
        Err(why) => AppView { error: Some(error_text(why)), ..s },
        Ok(content) => match load_of(content) {
            Ok(points) => AppView {
                mode: InputMode::Normal,
                data: points_as_units(points),
                error: None,
                ..s
            },
            Err(e) => AppView { error: Some(error_text(e.spec_message())), ..s },
        },
    }
}

/// Points of mathematical integers that fit, as machine integers.
pub open spec fn points_as_units(points: Seq<(int, int)>) -> Seq<(i128, i128)> {
    points.map_values(|p: (int, int)| (p.0 as i128, p.1 as i128))
}

pub open spec fn outcome_view(outcome: Result<Vec<u8>, String>) -> Result<Seq<u8>, Seq<char>> {
    match outcome {
        Ok(bytes) => Ok(bytes@),
        Err(why) => Err(why@),
    }
}

/// Relies on `String::push`: appends one character.
#[verifier::external_body]
fn push_char(s: &mut String, c: char)
    ensures
        final(s)@ == old(s)@.push(c),
{
    s.push(c)
}

/// Relies on `String::pop`: removes and returns the last character, or
/// returns `None` and leaves an empty string as it is.
#[verifier::external_body]
fn pop_char(s: &mut String) -> (r: Option<char>)
    ensures
        old(s)@.len() == 0 ==> r is None && final(s)@ == old(s)@,
        old(s)@.len() > 0 ==> r == Some(old(s)@.last()) && final(s)@ == old(s)@.drop_last(),
{
    s.pop()
}

impl App {
    /// A running application in normal mode with nothing typed or loaded.
    pub fn new() -> (r: App)
        ensures
            r@ == initial_state(),
    {
        App {
            running: true,
            input_mode: InputMode::Normal,
            input: String::new(),
            data: Vec::new(),
            error_message: None,
        }
    }

    /// Stops the application after this event.
    pub fn quit(&mut self)
        ensures
            final(self)@ == (AppView { running: false, ..old(self)@ }),
    {
        self.running = false;
    }

    /// Applies one key press and says whether the caller must now load the
    /// file named by the path buffer.
    pub fn on_key_event(&mut self, key: Key) -> (action: Action)
        ensures
            final(self)@ == key_step(old(self)@, key),
            action == key_action(old(self)@, key),
    {
        match self.input_mode {
            InputMode::Normal => {
                match key {
                    Key::Char(c) => {
                        if c == 'e' {
                            self.input_mode = InputMode::Editing;
                        } else if c == 'q' {
                            self.quit();
                        }
                    },
                    _ => {},
                }
                Action::Nothing
            },
            InputMode::Editing => match key {
                Key::Enter => Action::Load,
                Key::Char(c) => {
                    push_char(&mut self.input, c);
                    Action::Nothing
                },
                Key::Backspace => {
                    let _ = pop_char(&mut self.input);
                    Action::Nothing
                },
                Key::Esc => {
                    self.input_mode = InputMode::Normal;
                    Action::Nothing
                },
                Key::Other => Action::Nothing,
            },
        }
    }

    fn fail(&mut self, detail: &str)
        ensures
            final(self)@ == (AppView { error: Some(error_text(detail@)), ..old(self)@ }),
    {
        self.error_message = Some(String::from_str("Error: ").concat(detail));
    }

    /// Whether the application goes on after this event.
    pub fn is_running(&self) -> (r: bool)
        ensures
            r == self@.running,
    {
        self.running
    }

    /// The current input mode.
    pub fn mode(&self) -> (r: InputMode)
        ensures
            r == self@.mode,
    {
        self.input_mode
    }

    /// The path typed so far.
    pub fn input(&self) -> (r: String)
        ensures
            r@ == self@.input,
    {
        self.input.clone()
    }

    /// The loaded series, in units.
    pub fn data(&self) -> (r: &Vec<(i128, i128)>)
        ensures
            r@ == self@.data,
    {
        &self.data
    }

    /// The message of the last failed load, if the last load failed.
    pub fn error_message(&self) -> (r: Option<String>)
        ensures
            opt_string_view(r) == self@.error,
    {
        match &self.error_message {
            Some(e) => Some(e.clone()),
            None => None,
        }
    }

    /// The extent of the loaded series on the horizontal axis.
    pub fn get_x_bounds(&self) -> (r: AxisBounds)
        ensures
            is_extent(self@.data, true, r),
    {
        x_bounds(&self.data)
    }

    /// The extent of the loaded series on the vertical axis.
    pub fn get_y_bounds(&self) -> (r: AxisBounds)
        ensures
            is_extent(self@.data, false, r),
    {
        y_bounds(&self.data)
    }

    /// Takes the result of reading the file: on a series, shows it and goes
    /// back to normal mode; otherwise shows why, and stays where it was.
    pub fn finish_load(&mut self, outcome: Result<Vec<u8>, String>)
        ensures
            final(self)@ == load_step(old(self)@, outcome_view(outcome)),
    {
        match outcome {
            Err(why) => self.fail(why.as_str()),
            Ok(content) => match load_points(&content) {
                Ok(points) => {
                    proof {
                        assert(points_as_units(points_view(points@)) =~= points@);
                    }
                    self.data = points;
                    self.error_message = None;
                    self.input_mode = InputMode::Normal;
                },
                Err(e) => {
                    let m = e.message();
                    self.fail(m.as_str());
                },
            },
        }
    }
}


/// The state after a sequence of key presses, from `s`.
pub open spec fn run_keys(s: AppView, keys: Seq<Key>) -> AppView
    decreases keys.len(),
{
    if keys.len() == 0 {
        s
    } else {
        key_step(run_keys(s, keys.drop_last()), keys.last())
    }
}

/// The number of characters typed among `keys`.
pub open spec fn appends(keys: Seq<Key>) -> nat
    decreases keys.len(),
{
    if keys.len() == 0 {
        0
    } else {
        appends(keys.drop_last()) + if keys.last() is Char {
            1nat
        } else {
            0nat
        }
    }
}

/// The number of backspaces among `keys` that met a non-empty path buffer
/// when pressed from `s`.
pub open spec fn erasures(s: AppView, keys: Seq<Key>) -> nat
    decreases keys.len(),
{
    if keys.len() == 0 {
        0
    } else {
        erasures(s, keys.drop_last()) + if keys.last() is Backspace && run_keys(
            s,
            keys.drop_last(),
        ).input.len() > 0 {
            1nat
        } else {
            0nat
        }
    }
}

/// Whatever keys are pressed, the application is in one of its two modes.
pub proof fn lemma_two_modes(s: AppView, keys: Seq<Key>)
    requires
        s.mode == InputMode::Normal || s.mode == InputMode::Editing,
    ensures
        run_keys(s, keys).mode == InputMode::Normal || run_keys(s, keys).mode
            == InputMode::Editing,
    decreases keys.len(),
{
    if keys.len() > 0 {
        lemma_two_modes(s, keys.drop_last());
    }
}

/// Typing and erasing in editing mode: the path buffer's length is its first
/// length plus the characters typed minus the backspaces that met a non-empty
/// buffer, and a backspace on an empty buffer changes nothing.
pub proof fn lemma_edit_length(s: AppView, keys: Seq<Key>)
    requires
        s.mode == InputMode::Editing,
        forall|i: int| 0 <= i < keys.len() ==> (#[trigger] keys[i] is Char || keys[i] is Backspace),
    ensures
        run_keys(s, keys).mode == InputMode::Editing,
        run_keys(s, keys).input.len() + erasures(s, keys) == s.input.len() + appends(keys),
    decreases keys.len(),
{
    if keys.len() > 0 {
        let front = keys.drop_last();
        assert forall|i: int| 0 <= i < front.len() implies (#[trigger] front[i] is Char
            || front[i] is Backspace) by {
            assert(front[i] == keys[i]);
        }
        lemma_edit_length(s, front);
        assert(keys[keys.len() - 1] is Char || keys[keys.len() - 1] is Backspace);
    }
}

/// Loading the same outcome twice leaves the state as loading it once:
/// a reload replaces the series, it never adds to it.
pub proof fn lemma_reload_idempotent(s: AppView, outcome: Result<Seq<u8>, Seq<char>>)
    ensures
        load_step(load_step(s, outcome), outcome) == load_step(s, outcome),
{
}

/// A file that cannot be read, or that holds no usable row, leaves the
/// application in editing mode with an error to show and the series as it was.
pub proof fn lemma_failed_load_keeps_editing(s: AppView, outcome: Result<Seq<u8>, Seq<char>>)
    requires
        s.mode == InputMode::Editing,
        outcome is Err || load_of(outcome->Ok_0) is Err,
    ensures
        load_step(s, outcome).mode == InputMode::Editing,
        load_step(s, outcome).error is Some,
        load_step(s, outcome).data == s.data,
        load_step(s, outcome).input == s.input,
{
}

/// Loading a file whose rows are all usable shows exactly its rows as
/// points, in row order, and returns to normal mode without an error.
pub proof fn lemma_load_round_trip(s: AppView, content: Seq<u8>, rows: Seq<Seq<Seq<u8>>>)
    requires
        csv_rows_of(content) == Some(rows),
        rows.len() > 0,
        forall|i: int| 0 <= i < rows.len() ==> (#[trigger] point_of(rows[i])) is Some,
    ensures
        load_step(s, Ok(content)).mode == InputMode::Normal,
        load_step(s, Ok(content)).error is None,
        load_step(s, Ok(content)).data.len() == rows.len(),
        forall|i: int|
            0 <= i < rows.len() ==> Some(
                (
                    (#[trigger] load_step(s, Ok(content)).data[i]).0 as int,
                    load_step(s, Ok(content)).data[i].1 as int,
                ),
            ) == point_of(rows[i]),
{
    lemma_all_rows_kept(rows);
    let pts = points_of(rows);
    assert(pts.len() > 0);
    assert forall|i: int| 0 <= i < rows.len() implies Some(
        (
            (#[trigger] load_step(s, Ok(content)).data[i]).0 as int,
            load_step(s, Ok(content)).data[i].1 as int,
        ),
    ) == point_of(rows[i]) by {
        assert(Some(pts[i]) == point_of(rows[i]));
        lemma_decimal_range(rows[i][0]);
        lemma_decimal_range(rows[i][1]);
    }
}

/// In normal mode, `q` stops the application and asks for no load.
pub proof fn lemma_q_quits(s: AppView)
    requires
        s.mode == InputMode::Normal,
    ensures
        !key_step(s, Key::Char('q')).running,
        key_action(s, Key::Char('q')) == Action::Nothing,
{
}

} // verus!
