use csv_chart::bounds::AxisBounds;
use csv_chart::category::{bar_colors, color_index, load_bars, parse_count};
use csv_chart::controller::{Action, App, InputMode, Key};
use csv_chart::number::parse_decimal;
use csv_chart::records::{load_points, LoadError};

const U: i128 = 1_000_000_000;

fn editing_app() -> App {
    let mut app = App::new();
    assert_eq!(app.on_key_event(Key::Char('e')), Action::Nothing);
    assert_eq!(app.mode(), InputMode::Editing);
    app
}

fn type_text(app: &mut App, text: &str) {
    for c in text.chars() {
        app.on_key_event(Key::Char(c));
    }
}

#[test]
fn new_app_starts_in_normal_mode() {
    let app = App::new();
    assert!(app.is_running());
    assert_eq!(app.mode(), InputMode::Normal);
    assert_eq!(app.input(), "");
    assert!(app.data().is_empty());
    assert_eq!(app.error_message(), None);
}

#[test]
fn numeric_file_skips_malformed_row() {
    let mut app = editing_app();
    type_text(&mut app, "a.csv");
    assert_eq!(app.on_key_event(Key::Enter), Action::Load);
    app.finish_load(Ok(b"1,2\n3,4\ninvalid,9\n5,6".to_vec()));
    assert_eq!(app.data(), &vec![(U, 2 * U), (3 * U, 4 * U), (5 * U, 6 * U)]);
    assert_eq!(app.get_x_bounds(), AxisBounds { min: U, max: 5 * U });
    assert_eq!(app.get_y_bounds(), AxisBounds { min: 2 * U, max: 6 * U });
    assert_eq!(app.mode(), InputMode::Normal);
    assert_eq!(app.error_message(), None);
}

#[test]
fn file_without_valid_rows_keeps_editing() {
    let mut app = editing_app();
    app.finish_load(Ok(b"1,2".to_vec()));
    app.on_key_event(Key::Char('e'));
    assert_eq!(app.on_key_event(Key::Enter), Action::Load);
    app.finish_load(Ok(b"x,y,z".to_vec()));
    assert_eq!(app.error_message(), Some("Error: No valid data found in CSV".to_string()));
    assert_eq!(app.mode(), InputMode::Editing);
    assert_eq!(app.data(), &vec![(U, 2 * U)]);
}

#[test]
fn categorical_file_keeps_row_order_and_colors() {
    let bars = load_bars(&b"\"a\",3\n\"b\",7\n\"c\",1".to_vec()).unwrap();
    assert_eq!(bars, vec![(b"a".to_vec(), 3), (b"b".to_vec(), 7), (b"c".to_vec(), 1)]);
    assert_eq!(bar_colors(bars.len()), vec![0, 1, 2]);
}

#[test]
fn q_in_normal_mode_quits() {
    let mut app = App::new();
    assert_eq!(app.on_key_event(Key::Char('x')), Action::Nothing);
    assert!(app.is_running());
    assert_eq!(app.on_key_event(Key::Char('q')), Action::Nothing);
    assert!(!app.is_running());
}

#[test]
fn q_while_editing_is_typed() {
    let mut app = editing_app();
    app.on_key_event(Key::Char('q'));
    assert!(app.is_running());
    assert_eq!(app.input(), "q");
}

#[test]
fn missing_file_keeps_editing_with_error() {
    let mut app = editing_app();
    type_text(&mut app, "nope.csv");
    app.finish_load(Err("No such file or directory".to_string()));
    assert_eq!(app.error_message(), Some("Error: No such file or directory".to_string()));
    assert_eq!(app.mode(), InputMode::Editing);
    assert_eq!(app.input(), "nope.csv");
}

#[test]
fn empty_file_keeps_editing_with_error() {
    let mut app = editing_app();
    app.finish_load(Ok(Vec::new()));
    assert_eq!(app.error_message(), Some("Error: No valid data found in CSV".to_string()));
    assert_eq!(app.mode(), InputMode::Editing);
    assert!(app.data().is_empty());
}

#[test]
fn successful_load_clears_error() {
    let mut app = editing_app();
    app.finish_load(Err("denied".to_string()));
    assert!(app.error_message().is_some());
    app.finish_load(Ok(b"0,0".to_vec()));
    assert_eq!(app.error_message(), None);
    assert_eq!(app.mode(), InputMode::Normal);
}

#[test]
fn typing_and_backspace_track_length() {
    let mut app = editing_app();
    app.on_key_event(Key::Backspace);
    assert_eq!(app.input(), "");
    type_text(&mut app, "abc");
    app.on_key_event(Key::Backspace);
    assert_eq!(app.input(), "ab");
    app.on_key_event(Key::Backspace);
    app.on_key_event(Key::Backspace);
    app.on_key_event(Key::Backspace);
    assert_eq!(app.input(), "");
    type_text(&mut app, "é1");
    assert_eq!(app.input(), "é1");
    assert_eq!(app.mode(), InputMode::Editing);
}

#[test]
fn esc_leaves_editing_and_keeps_buffer() {
    let mut app = editing_app();
    type_text(&mut app, "x.csv");
    assert_eq!(app.on_key_event(Key::Esc), Action::Nothing);
    assert_eq!(app.mode(), InputMode::Normal);
    assert_eq!(app.input(), "x.csv");
    assert_eq!(app.on_key_event(Key::Enter), Action::Nothing);
    assert_eq!(app.on_key_event(Key::Other), Action::Nothing);
    assert_eq!(app.mode(), InputMode::Normal);
}

#[test]
fn reload_gives_identical_series() {
    let content = b"1,1\n2,4\n3,9".to_vec();
    let mut app = editing_app();
    app.finish_load(Ok(content.clone()));
    let first = app.data().clone();
    assert_eq!(first.len(), 3);
    app.finish_load(Ok(content));
    assert_eq!(app.data(), &first);
}

#[test]
fn well_formed_rows_all_kept_in_order() {
    let points = load_points(&b"5,1\n-1,2\n3.25,-0.5\n".to_vec()).unwrap();
    assert_eq!(points, vec![(5 * U, U), (-U, 2 * U), (3_250_000_000, -500_000_000)]);
}

#[test]
fn extra_columns_and_quotes_are_handled() {
    let points = load_points(&b"\"1\",\"2\",ignored\n\"4\",\"8\"\nonly\n".to_vec()).unwrap();
    assert_eq!(points, vec![(U, 2 * U), (4 * U, 8 * U)]);
}

#[test]
fn header_row_is_skipped_as_malformed() {
    let points = load_points(&b"x,y\n7,8\n".to_vec()).unwrap();
    assert_eq!(points, vec![(7 * U, 8 * U)]);
}

#[test]
fn no_valid_rows_is_an_error() {
    assert_eq!(load_points(&b"a,b\nc".to_vec()), Err(LoadError::NoValidData));
    assert_eq!(load_bars(&b"a,b\nc".to_vec()), Err(LoadError::NoValidData));
}

#[test]
fn load_error_messages() {
    assert_eq!(LoadError::NoValidData.message(), "No valid data found in CSV");
    assert!(!LoadError::Unreadable.message().is_empty());
}

#[test]
fn bounds_cover_every_point() {
    let mut app = editing_app();
    app.finish_load(Ok(b"3,-2\n-7,5\n0,5\n".to_vec()));
    assert_eq!(app.get_x_bounds(), AxisBounds { min: -7 * U, max: 3 * U });
    assert_eq!(app.get_y_bounds(), AxisBounds { min: -2 * U, max: 5 * U });
}

#[test]
fn bounds_default_when_empty_and_degenerate_when_equal() {
    let app = App::new();
    assert_eq!(app.get_x_bounds(), AxisBounds { min: 0, max: 10 * U });
    assert_eq!(app.get_y_bounds(), AxisBounds { min: 0, max: 10 * U });
    let mut app = editing_app();
    app.finish_load(Ok(b"2,1\n2,9".to_vec()));
    assert_eq!(app.get_x_bounds(), AxisBounds { min: 2 * U, max: 2 * U });
}

#[test]
fn decimal_fields() {
    let p = |s: &str| parse_decimal(&s.as_bytes().to_vec());
    assert_eq!(p("1.5"), Some(1_500_000_000));
    assert_eq!(p("-2"), Some(-2 * U));
    assert_eq!(p("+3."), Some(3 * U));
    assert_eq!(p(".5"), Some(500_000_000));
    assert_eq!(p("0.000000001"), Some(1));
    assert_eq!(p("007"), Some(7 * U));
    assert_eq!(p(""), None);
    assert_eq!(p("."), None);
    assert_eq!(p("-"), None);
    assert_eq!(p("1e3"), None);
    assert_eq!(p(" 1"), None);
    assert_eq!(p("1.2.3"), None);
    assert_eq!(p("1.0000000001"), None);
    assert_eq!(p("invalid"), None);
    assert_eq!(p("170141183460469231731687303715.884105727"), Some(i128::MAX));
    assert_eq!(p("-170141183460469231731687303715.884105727"), Some(-i128::MAX));
    assert_eq!(p("170141183460469231731687303715.884105728"), None);
    assert_eq!(p("999999999999999999999999999999999999999999"), None);
}

#[test]
fn count_fields() {
    let p = |s: &str| parse_count(&s.as_bytes().to_vec());
    assert_eq!(p("42"), Some(42));
    assert_eq!(p("0"), Some(0));
    assert_eq!(p("18446744073709551615"), Some(u64::MAX));
    assert_eq!(p("18446744073709551616"), None);
    assert_eq!(p(""), None);
    assert_eq!(p("-1"), None);
    assert_eq!(p("1.5"), None);
}

#[test]
fn palette_rotates_every_six() {
    assert_eq!(color_index(0), 0);
    assert_eq!(color_index(5), 5);
    assert_eq!(color_index(6), 0);
    assert_eq!(color_index(13), 1);
    assert_eq!(bar_colors(8), vec![0, 1, 2, 3, 4, 5, 0, 1]);
    assert!(bar_colors(0).is_empty());
}

#[test]
fn repeated_labels_each_make_a_bar() {
    let bars = load_bars(&b"a,1\na,2\nb,x\n".to_vec()).unwrap();
    assert_eq!(bars, vec![(b"a".to_vec(), 1), (b"a".to_vec(), 2)]);
}

#[test]
fn mixed_keys_only_switch_between_two_modes() {
    let mut app = App::new();
    let keys = [
        Key::Char('x'),
        Key::Char('e'),
        Key::Char('e'),
        Key::Backspace,
        Key::Enter,
        Key::Esc,
        Key::Esc,
        Key::Backspace,
        Key::Char('e'),
        Key::Other,
    ];
    let expected = [
        InputMode::Normal,
        InputMode::Editing,
        InputMode::Editing,
        InputMode::Editing,
        InputMode::Editing,
        InputMode::Normal,
        InputMode::Normal,
        InputMode::Normal,
        InputMode::Editing,
        InputMode::Editing,
    ];
    for (key, mode) in keys.iter().zip(expected.iter()) {
        app.on_key_event(*key);
        assert_eq!(app.mode(), *mode);
    }
    assert_eq!(app.input(), "");
    assert!(app.is_running());
}
