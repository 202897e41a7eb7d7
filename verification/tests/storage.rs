use lifelog::store::CommitRow;
use lifelog::types::Timestamp;
use lifelog::{Commit, Pillar, Trailer};

fn sample(secs: i64, nanos: u32) -> Commit {
    Commit {
        id: 0x67e5_5044_10b1_426f_9247_bb68_0e5f_e0c8,
        pillar: Pillar::Work,
        scope: Some("report".to_string()),
        subject: "finished the draft".to_string(),
        body: None,
        trailers: vec![Trailer { key: "Mins".to_string(), value: "120".to_string() }],
        is_highlight: false,
        created_at: Timestamp { secs, nanos },
    }
}

fn same(a: &Commit, b: &Commit) {
    assert_eq!(a.id, b.id);
    assert_eq!(a.pillar, b.pillar);
    assert_eq!(a.scope, b.scope);
    assert_eq!(a.subject, b.subject);
    assert_eq!(a.body, b.body);
    assert_eq!(a.is_highlight, b.is_highlight);
    assert_eq!(a.created_at, b.created_at);
    assert_eq!(a.trailers.len(), b.trailers.len());
    for (x, y) in a.trailers.iter().zip(b.trailers.iter()) {
        assert_eq!(x.key, y.key);
        assert_eq!(x.value, y.value);
    }
}

#[test]
fn row_columns() {
    let c = sample(1_781_600_000, 123_000_000);
    let row = c.to_row();
    assert_eq!(row.id, "67e55044-10b1-426f-9247-bb680e5fe0c8");
    assert_eq!(row.pillar, "work");
    assert_eq!(row.scope.as_deref(), Some("report"));
    assert_eq!(row.subject, "finished the draft");
    assert_eq!(row.body, None);
    assert!(!row.is_highlight);
    let expected = chrono::DateTime::from_timestamp(1_781_600_000, 123_000_000).unwrap().to_rfc3339();
    assert_eq!(row.created_at, expected);
    assert_eq!(row.created_at, "2026-06-16T08:53:20.123+00:00");
}

#[test]
fn row_reads_back() {
    for (secs, nanos) in [
        (1_781_600_000, 123_000_000),
        (0, 0),
        (-1, 999_999_999),
        (1_781_600_000, 1),
        (253_402_300_799, 0),
        (-62_167_219_200, 0),
        (1_483_228_799, 1_500_000_000),
    ] {
        let c = sample(secs, nanos);
        let row = c.to_row();
        let trailers = c.trailers.clone();
        let back = Commit::from_row(row, trailers).expect("reads back");
        same(&c, &back);
    }
}

#[test]
fn unknown_pillar_reads_as_life() {
    let mut row = sample(0, 0).to_row();
    row.pillar = "garden".to_string();
    let back = Commit::from_row(row, Vec::new()).unwrap();
    assert_eq!(back.pillar, Pillar::Life);
    assert!(back.trailers.is_empty());
}

#[test]
fn unreadable_rows_give_none() {
    let good = sample(0, 0).to_row();
    let mut bad_id: CommitRow = good.clone();
    bad_id.id = "not-a-uuid".to_string();
    assert!(Commit::from_row(bad_id, Vec::new()).is_none());
    let mut bad_time = good.clone();
    bad_time.created_at = "yesterday".to_string();
    assert!(Commit::from_row(bad_time, Vec::new()).is_none());
}

#[test]
fn other_uuid_and_time_spellings_are_read() {
    let mut row = sample(0, 0).to_row();
    row.id = "67E5504410B1426F9247BB680E5FE0C8".to_string();
    row.created_at = "2026-06-16T10:53:20+02:00".to_string();
    let back = Commit::from_row(row, Vec::new()).unwrap();
    assert_eq!(back.id, 0x67e5_5044_10b1_426f_9247_bb68_0e5f_e0c8);
    assert_eq!(back.created_at, Timestamp { secs: 1_781_600_000, nanos: 0 });
}

#[test]
fn day_keys_are_utc_dates() {
    assert_eq!(sample(0, 0).day_key(), "1970-01-01");
    assert_eq!(sample(-1, 0).day_key(), "1969-12-31");
    assert_eq!(sample(86_399, 0).day_key(), "1970-01-01");
    assert_eq!(sample(86_400, 0).day_key(), "1970-01-02");
    assert_eq!(sample(1_781_600_000, 0).day_key(), "2026-06-16");
}

#[test]
fn five_digit_years_do_not_read_back() {
    let c = sample(253_402_300_800, 0);
    let row = c.to_row();
    assert_eq!(row.created_at, "+10000-01-01T00:00:00+00:00");
    assert!(Commit::from_row(row, Vec::new()).is_none());
}
