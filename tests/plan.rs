use csv_chart::bounds::AxisBounds;
use csv_chart::controller::{App, Key};

fn hint_texts(app: &App) -> Vec<(String, bool)> {
    app.plan(0, 0).hint.into_iter().map(|h| (h.text, h.bold)).collect()
}

#[test]
fn normal_mode_plan() {
    let app = App::new();
    let plan = app.plan(2, 3);
    assert_eq!(
        hint_texts(&app),
        vec![
            ("Press ".to_string(), false),
            ("q".to_string(), true),
            (" to exit, ".to_string(), false),
            ("e".to_string(), true),
            (" to start editing.".to_string(), false),
        ]
    );
    assert!(plan.hint_blinks);
    assert!(!plan.path_highlighted);
    assert_eq!(plan.cursor, None);
    assert_eq!(plan.status, "Enter a CSV path (e.g., test.csv) and press Enter");
    assert!(!plan.status_alert);
    assert_eq!(plan.x_axis, AxisBounds { min: 0, max: 10_000_000_000 });
}

#[test]
fn editing_mode_plan() {
    let mut app = App::new();
    app.on_key_event(Key::Char('e'));
    for c in "ab.csv".chars() {
        app.on_key_event(Key::Char(c));
    }
    let plan = app.plan(2, 3);
    assert_eq!(hint_texts(&app)[1], ("Esc".to_string(), true));
    assert_eq!(hint_texts(&app)[4], (" to record the message".to_string(), false));
    assert!(!plan.hint_blinks);
    assert!(plan.path_highlighted);
    assert_eq!(plan.path, "ab.csv");
    assert_eq!(plan.cursor, Some((9, 4)));
}

#[test]
fn cursor_stops_at_largest_column() {
    let mut app = App::new();
    app.on_key_event(Key::Char('e'));
    app.on_key_event(Key::Char('z'));
    assert_eq!(app.plan(65534, 65535).cursor, Some((65535, 65535)));
}

#[test]
fn error_shows_as_alert() {
    let mut app = App::new();
    app.on_key_event(Key::Char('e'));
    app.finish_load(Err("gone".to_string()));
    let plan = app.plan(0, 0);
    assert_eq!(plan.status, "Error: gone");
    assert!(plan.status_alert);
}
