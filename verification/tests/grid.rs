use chrono::Datelike;
use lifelog::counts::DayCounts;
use lifelog::grid::{grid_rows, shade_for, weekday_of, GridPlan};

fn day_number(y: i32, m: u32, d: u32) -> i32 {
    chrono::NaiveDate::from_ymd_opt(y, m, d).unwrap().num_days_from_ce()
}

fn counts_of(pairs: &[(&str, u32)]) -> DayCounts {
    let mut counts = DayCounts::new();
    for (day, n) in pairs {
        counts.insert(day.to_string(), *n);
    }
    counts
}

#[test]
fn shades_by_count() {
    assert_eq!(shade_for(0), (22, 33, 28));
    assert_eq!(shade_for(1), (15, 61, 42));
    assert_eq!(shade_for(2), (15, 61, 42));
    assert_eq!(shade_for(3), (28, 125, 82));
    assert_eq!(shade_for(4), (28, 125, 82));
    assert_eq!(shade_for(5), (39, 163, 111));
    assert_eq!(shade_for(7), (39, 163, 111));
    assert_eq!(shade_for(8), (52, 209, 127));
    assert_eq!(shade_for(u32::MAX), (52, 209, 127));
}

#[test]
fn busier_days_are_brighter() {
    let mut last = shade_for(0);
    for n in 1..20 {
        let s = shade_for(n);
        assert!(s.1 >= last.1 && s.2 >= last.2);
        last = s;
    }
}

#[test]
fn counts_are_found_by_key() {
    let counts = counts_of(&[("2026-06-15", 2), ("2026-06-16", 5), ("2026-06-15", 7)]);
    assert_eq!(counts.count(&"2026-06-16".to_string()), 5);
    assert_eq!(counts.count(&"2026-06-15".to_string()), 7);
    assert_eq!(counts.count(&"2026-06-14".to_string()), 0);
    assert_eq!(DayCounts::new().count(&"2026-06-14".to_string()), 0);
}

#[test]
fn plan_covers_thirty_days_from_monday() {
    let today = day_number(2026, 6, 16);
    let counts = counts_of(&[("2026-05-18", 1), ("2026-06-16", 9), ("2026-05-17", 4), ("2026-06-01", 3)]);
    let plan = GridPlan::for_days(today, &counts);
    assert_eq!(plan.pad, 0);
    assert_eq!(plan.tiles.len(), 30);
    assert_eq!(plan.tiles[0], 1);
    assert_eq!(plan.tiles[29], 9);
    assert_eq!(plan.tiles[14], 3);
    assert_eq!(plan.tiles.iter().sum::<u32>(), 13);
}

#[test]
fn plan_pads_to_the_first_weekday() {
    for (y, m, d) in [(2026, 6, 20), (2024, 2, 29), (1970, 1, 1), (2000, 3, 1)] {
        let today = day_number(y, m, d);
        let plan = GridPlan::for_days(today, &DayCounts::new());
        let start = chrono::NaiveDate::from_ymd_opt(y, m, d).unwrap() - chrono::Duration::days(29);
        assert_eq!(plan.pad, start.weekday().num_days_from_monday());
        assert!(plan.tiles.iter().all(|t| *t == 0));
    }
}

#[test]
fn rows_hold_weeks() {
    let tiles: Vec<u32> = (0..30).collect();
    let rows = grid_rows(3, &tiles);
    assert_eq!(rows.len(), 5);
    assert_eq!(rows[0], vec![None, None, None, Some(0), Some(1), Some(2), Some(3)]);
    assert_eq!(rows[1][0], Some(4));
    assert_eq!(rows[4], vec![Some(25), Some(26), Some(27), Some(28), Some(29)]);
    let rows = grid_rows(5, &tiles);
    assert_eq!(rows.len(), 5);
    assert_eq!(rows[4].len(), 7);
    let rows = grid_rows(6, &tiles);
    assert_eq!(rows.len(), 6);
    assert_eq!(rows[5], vec![Some(29)]);
    let rows = grid_rows(0, &Vec::new());
    assert!(rows.is_empty());
}

#[test]
fn weekdays_match_the_calendar() {
    for (y, m, d) in [(1, 1, 1), (1970, 1, 1), (2026, 6, 16), (-44, 3, 15), (2000, 2, 29), (9999, 12, 31)] {
        let date = chrono::NaiveDate::from_ymd_opt(y, m, d).unwrap();
        assert_eq!(weekday_of(date.num_days_from_ce()), date.weekday().num_days_from_monday());
    }
    assert_eq!(weekday_of(1), 0);
    assert_eq!(weekday_of(0), 6);
    assert_eq!(weekday_of(i32::MIN), ((i32::MIN as i64 - 1).rem_euclid(7)) as u32);
}
