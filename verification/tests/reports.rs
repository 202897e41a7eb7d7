use lifelog::day::{DayStatus, PushResult};
use lifelog::report::{day_header, decimal_text, push_message, status_message, tile};

#[test]
fn decimals() {
    assert_eq!(decimal_text(0), "0");
    assert_eq!(decimal_text(7), "7");
    assert_eq!(decimal_text(10), "10");
    assert_eq!(decimal_text(1234567890), "1234567890");
    assert_eq!(decimal_text(u64::MAX), u64::MAX.to_string());
}

#[test]
fn push_reports() {
    assert_eq!(push_message("2026-06-16", &PushResult::Sealed(4)), "sealed 2026-06-16, 4 commits");
    assert_eq!(
        push_message("2026-06-16", &PushResult::Resealed(6, 2)),
        "re-sealed 2026-06-16, 6 commits (2 new)"
    );
    assert_eq!(
        push_message("2026-06-16", &PushResult::NothingNew("x".to_string())),
        "already sealed - nothing new to push"
    );
    assert_eq!(push_message("2026-06-16", &PushResult::Empty), "nothing to seal - log something first");
}

#[test]
fn status_reports() {
    assert_eq!(
        status_message("16 June 2026", DayStatus::Sealed(3)),
        "16 June 2026 \u{2022} sealed \u{2022} 3 commits"
    );
    assert_eq!(
        status_message("16 June 2026", DayStatus::Draft(1)),
        "16 June 2026 \u{2022} draft \u{2022} 1 commits - not pushed yet"
    );
    assert_eq!(status_message("16 June 2026", DayStatus::Empty), "16 June 2026 \u{2022} nothing logged yet");
}

#[test]
fn headers_count_commits() {
    assert_eq!(day_header("16 June 2026", 0), "\n16 June 2026  (0 commits)\n");
    assert_eq!(day_header("16 June 2026", 1), "\n16 June 2026  (1 commit)\n");
    assert_eq!(day_header("16 June 2026", 12), "\n16 June 2026  (12 commits)\n");
}

#[test]
fn tiles_are_coloured_cells() {
    assert_eq!(tile(0), "\x1b[48;2;22;33;28m  \x1b[0m");
    assert_eq!(tile(9), "\x1b[48;2;52;209;127m  \x1b[0m");
}
