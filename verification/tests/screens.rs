use lifelog::app::{handle_key, App, Key, Screen};
use lifelog::render::{menu_entries, menu_lines, today_lines};
use lifelog::types::Timestamp;
use lifelog::{Commit, Pillar, Trailer};

#[test]
fn app_opens_on_the_dashboard() {
    let app = App::new();
    assert_eq!(app.screen, Screen::Dashboard);
    assert!(!app.should_quit);
}

#[test]
fn keys_move_between_screens() {
    let mut app = App::new();
    handle_key(Key::Char('x'), &mut app);
    assert_eq!(app.screen, Screen::Dashboard);
    handle_key(Key::Esc, &mut app);
    assert_eq!(app.screen, Screen::Dashboard);
    handle_key(Key::Char('t'), &mut app);
    assert_eq!(app.screen, Screen::Today);
    handle_key(Key::Char('t'), &mut app);
    assert_eq!(app.screen, Screen::Today);
    handle_key(Key::Other, &mut app);
    assert_eq!(app.screen, Screen::Today);
    assert!(!app.should_quit);
    handle_key(Key::Esc, &mut app);
    assert_eq!(app.screen, Screen::Dashboard);
}

#[test]
fn q_quits_everywhere() {
    let mut app = App::new();
    handle_key(Key::Char('q'), &mut app);
    assert!(app.should_quit);
    assert_eq!(app.screen, Screen::Dashboard);
    let mut app = App::new();
    handle_key(Key::Char('t'), &mut app);
    handle_key(Key::Char('q'), &mut app);
    assert!(app.should_quit);
    assert_eq!(app.screen, Screen::Today);
}

fn commit(scope: Option<&str>, star: bool, trailers: &[(&str, &str)]) -> Commit {
    Commit {
        id: 1,
        pillar: Pillar::Work,
        scope: scope.map(|s| s.to_string()),
        subject: "finished the draft".to_string(),
        body: None,
        trailers: trailers
            .iter()
            .map(|(k, v)| Trailer { key: k.to_string(), value: v.to_string() })
            .collect(),
        is_highlight: star,
        created_at: Timestamp { secs: 1_781_600_000, nanos: 0 },
    }
}

#[test]
fn log_lines() {
    let c = commit(Some("report"), false, &[("Mins", "120"), ("Spent", "1450")]);
    assert_eq!(
        c.log_line("10:13"),
        "10:13  work(report): finished the draft \u{2022} Mins 120 \u{2022} Spent 1450"
    );
    let c = commit(None, true, &[]);
    assert_eq!(c.log_line("07:05"), "07:05  \u{2726} work: finished the draft");
}

#[test]
fn render_uses_the_local_clock() {
    let c = commit(None, false, &[]);
    let expected_clock = chrono::DateTime::from_timestamp(1_781_600_000, 0)
        .unwrap()
        .with_timezone(&chrono::Local)
        .format("%H:%M")
        .to_string();
    assert_eq!(c.render(), format!("{expected_clock}  work: finished the draft"));
}

#[test]
fn today_screen_lines() {
    let lines = today_lines(&Vec::new());
    assert_eq!(lines, vec!["nothing logged yet today".to_string()]);
    let cs = vec![commit(None, false, &[]), commit(Some("x"), false, &[("Reps", "3")])];
    let lines = today_lines(&cs);
    assert_eq!(lines.len(), 2);
    assert!(lines[0].ends_with("  work: finished the draft"));
    assert!(lines[1].ends_with("  work(x): finished the draft \u{2022} Reps 3"));
}

#[test]
fn menu_labels_line_up() {
    let entries = menu_entries();
    let labels: Vec<&str> = entries.iter().map(|e| e.label.as_str()).collect();
    assert_eq!(labels, vec!["today", "grid", "status", "push", "log a commit", "quit"]);
    let keys: Vec<&str> = entries.iter().map(|e| e.key.as_str()).collect();
    assert_eq!(keys, vec!["t", "g", "s", "p", "c", "q"]);
    let lines = menu_lines(&entries);
    assert_eq!(lines.len(), 6);
    assert_eq!(lines[0].text, "today          ");
    assert_eq!(lines[4].text, "log a commit   ");
    assert_eq!(lines[0].key, "t");
    for (l, e) in lines.iter().zip(entries.iter()) {
        assert_eq!(l.text, format!("{:<width$}   ", e.label, width = 12));
    }
}

#[test]
fn log_lines_at_an_offset() {
    let c = commit(None, false, &[]);
    assert_eq!(c.log_line_at(0), "08:53  work: finished the draft");
    assert_eq!(c.log_line_at(3600), "09:53  work: finished the draft");
    assert_eq!(c.log_line_at(-9 * 3600), "23:53  work: finished the draft");
    assert_eq!(c.log_line_at(15 * 3600 + 7 * 60), "00:00  work: finished the draft");
    assert_eq!(lifelog::render::clock_at(Timestamp { secs: -1, nanos: 0 }, 0), "23:59");
    assert_eq!(lifelog::render::clock_at(Timestamp { secs: 1_483_228_799, nanos: 1_500_000_000 }, 0), "23:59");
}
