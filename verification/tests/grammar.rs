use lifelog::parse::{parse_line, ParsedLine};
use lifelog::{Commit, ParseError, Pillar};

fn ok(line: &str) -> ParsedLine {
    match parse_line(line) {
        Ok(p) => p,
        Err(e) => panic!("{line:?} was refused: {e:?}"),
    }
}

fn trailers(p: &ParsedLine) -> Vec<(String, String)> {
    p.trailers.iter().map(|t| (t.key.clone(), t.value.clone())).collect()
}

fn pair(k: &str, v: &str) -> (String, String) {
    (k.to_string(), v.to_string())
}

#[test]
fn make_with_plain_subject() {
    let p = ok("make shipped the dark mode toggle");
    assert_eq!(p.pillar, Pillar::Make);
    assert_eq!(p.scope, None);
    assert_eq!(p.subject, "shipped the dark mode toggle");
    assert!(p.trailers.is_empty());
}

#[test]
fn scoped_verb_with_minutes() {
    let p = ok("work:report finished the Q2 draft -t 120");
    assert_eq!(p.pillar, Pillar::Work);
    assert_eq!(p.scope.as_deref(), Some("report"));
    assert_eq!(p.subject, "finished the Q2 draft");
    assert_eq!(trailers(&p), vec![pair("Mins", "120")]);
}

#[test]
fn body_run_with_minutes() {
    let p = ok("body ran 5k -t 32");
    assert_eq!(p.pillar, Pillar::Body);
    assert_eq!(p.subject, "ran 5k");
    assert_eq!(trailers(&p), vec![pair("Mins", "32")]);
}

#[test]
fn life_with_spent() {
    let p = ok("life groceries + pharmacy -s 1450");
    assert_eq!(p.pillar, Pillar::Life);
    assert_eq!(p.subject, "groceries + pharmacy");
    assert_eq!(trailers(&p), vec![pair("Spent", "1450")]);
}

#[test]
fn every_default_flag() {
    let p = ok("body a -t 1 -s 2 -d 3 -l 4 -c 5 -k 6 -p 7 -w 8 -r 9 z");
    assert_eq!(p.subject, "a z");
    assert_eq!(
        trailers(&p),
        vec![
            pair("Mins", "1"),
            pair("Spent", "2"),
            pair("Dist", "3"),
            pair("Loc", "4"),
            pair("Carbs", "5"),
            pair("Kcal", "6"),
            pair("Protein", "7"),
            pair("With", "8"),
            pair("Reps", "9"),
        ]
    );
}

#[test]
fn flags_between_words_and_unknown_flags_stay() {
    let p = ok("mind read -t 20 two chapters -x 3");
    assert_eq!(p.pillar, Pillar::Mind);
    assert_eq!(p.subject, "read two chapters -x 3");
    assert_eq!(trailers(&p), vec![pair("Mins", "20")]);
}

#[test]
fn a_flag_takes_the_next_word_whatever_it_is() {
    let p = ok("body x -t -s");
    assert_eq!(p.subject, "x");
    assert_eq!(trailers(&p), vec![pair("Mins", "-s")]);
}

#[test]
fn bare_verb_has_empty_subject() {
    let p = ok("mind");
    assert_eq!(p.pillar, Pillar::Mind);
    assert_eq!(p.scope, None);
    assert_eq!(p.subject, "");
    assert!(p.trailers.is_empty());
}

#[test]
fn whitespace_runs_collapse() {
    let p = ok("  life \t walked\u{3000}the   dog \n");
    assert_eq!(p.subject, "walked the dog");
}

#[test]
fn empty_scope_and_second_colon() {
    let p = ok("work: call");
    assert_eq!(p.scope.as_deref(), Some(""));
    let p = ok("work:a:b call");
    assert_eq!(p.scope.as_deref(), Some("a:b"));
}

#[test]
fn empty_line_is_refused() {
    assert!(matches!(parse_line(""), Err(ParseError::EmptyInput)));
    assert!(matches!(parse_line(" \t\n "), Err(ParseError::EmptyInput)));
}

#[test]
fn unknown_verb_is_named() {
    match parse_line("eat lunch") {
        Err(ParseError::UnknownVerb(v)) => assert_eq!(v, "eat"),
        other => panic!("{other:?}"),
    }
    match parse_line("play:chess won") {
        Err(ParseError::UnknownVerb(v)) => assert_eq!(v, "play"),
        other => panic!("{other:?}"),
    }
    match parse_line("Body ran") {
        Err(ParseError::UnknownVerb(v)) => assert_eq!(v, "Body"),
        other => panic!("{other:?}"),
    }
}

#[test]
fn flag_without_value_is_named() {
    match parse_line("body ran -t") {
        Err(ParseError::FlagMissingValue(f)) => assert_eq!(f, "-t"),
        other => panic!("{other:?}"),
    }
    match parse_line("life shop -s 3 -w") {
        Err(ParseError::FlagMissingValue(f)) => assert_eq!(f, "-w"),
        other => panic!("{other:?}"),
    }
}

#[test]
fn unknown_verb_is_reported_before_flags() {
    assert!(matches!(parse_line("nap -t"), Err(ParseError::UnknownVerb(_))));
}

#[test]
fn parse_makes_a_fresh_commit() {
    let before = chrono::Utc::now().timestamp();
    let a = Commit::parse("work:report finished -t 120").unwrap();
    let b = Commit::parse("work:report finished -t 120").unwrap();
    let after = chrono::Utc::now().timestamp();
    assert_eq!(a.pillar, Pillar::Work);
    assert_eq!(a.scope.as_deref(), Some("report"));
    assert_eq!(a.subject, "finished");
    assert_eq!(a.body, None);
    assert!(!a.is_highlight);
    assert_eq!(a.trailers.len(), 1);
    assert_eq!(a.trailers[0].key, "Mins");
    assert_eq!(a.trailers[0].value, "120");
    assert_ne!(a.id, b.id);
    assert_eq!(uuid::Uuid::from_u128(a.id).get_version_num(), 4);
    assert_eq!(uuid::Uuid::from_u128(a.id).get_variant(), uuid::Variant::RFC4122);
    assert_eq!((a.id >> 76) & 0xf, 4);
    assert_eq!((a.id >> 62) & 0x3, 0b10);
    assert!(before <= a.created_at.secs && a.created_at.secs <= after);
    assert!(a.created_at.nanos < 1_000_000_000);
}

#[test]
fn parse_refuses_like_parse_line() {
    assert!(matches!(Commit::parse(""), Err(ParseError::EmptyInput)));
    assert!(matches!(Commit::parse("run fast"), Err(ParseError::UnknownVerb(_))));
}

#[test]
fn pillar_names_read_back() {
    for p in [Pillar::Body, Pillar::Work, Pillar::Make, Pillar::Mind, Pillar::Life] {
        assert_eq!(Pillar::from_str(p.as_str()), p);
    }
    assert_eq!(Pillar::Make.as_str(), "make");
    assert_eq!(Pillar::from_str("sleep"), Pillar::Life);
    assert_eq!(Pillar::from_str(""), Pillar::Life);
    assert_eq!(Pillar::from_str("WORK"), Pillar::Life);
}

#[test]
fn appended_flag_adds_a_trailer() {
    let before = ok("work:report finished the draft");
    let after = ok("work:report finished the draft -k 450");
    assert_eq!(after.pillar, before.pillar);
    assert_eq!(after.scope, before.scope);
    assert_eq!(after.subject, before.subject);
    assert_eq!(trailers(&after), vec![pair("Kcal", "450")]);
}

#[test]
fn appended_word_extends_the_subject() {
    assert_eq!(ok("body ran").subject, "ran");
    assert_eq!(ok("body ran far").subject, "ran far");
    assert_eq!(ok("body").subject, "");
    assert_eq!(ok("body far").subject, "far");
    assert_eq!(ok("body -t 5 far").subject, "far");
}
