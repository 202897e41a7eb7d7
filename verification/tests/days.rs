use lifelog::day::{DayStatus, PushAction, PushEvent, PushResult, PushStage};

#[test]
fn status_of_days() {
    assert_eq!(DayStatus::of_day(0, None), DayStatus::Empty);
    assert_eq!(DayStatus::of_day(0, Some(true)), DayStatus::Empty);
    assert_eq!(DayStatus::of_day(3, Some(true)), DayStatus::Sealed(3));
    assert_eq!(DayStatus::of_day(3, Some(false)), DayStatus::Draft(3));
    assert_eq!(DayStatus::of_day(2, None), DayStatus::Draft(2));
}

fn run(total: u32, sealed_at: Option<&str>, since: u32) -> (PushAction, usize) {
    let (mut stage, mut action) = PushStage::start();
    let mut questions = 0;
    loop {
        let event = match &action {
            PushAction::CountAll => PushEvent::Counted(total),
            PushAction::FindSeal => PushEvent::SealFound(sealed_at.map(|s| s.to_string())),
            PushAction::CountSince(at) => {
                assert_eq!(Some(at.as_str()), sealed_at);
                PushEvent::Counted(since)
            }
            _ => return (action, questions),
        };
        questions += 1;
        let (s, a) = stage.step(event);
        stage = s;
        action = a;
    }
}

#[test]
fn push_on_an_empty_day() {
    let (a, q) = run(0, None, 0);
    assert!(matches!(a, PushAction::Report(PushResult::Empty)));
    assert_eq!(q, 1);
}

#[test]
fn first_push_seals() {
    let (a, q) = run(4, None, 0);
    assert!(matches!(a, PushAction::InsertSeal(PushResult::Sealed(4))));
    assert_eq!(q, 2);
}

#[test]
fn push_again_with_nothing_new() {
    let (a, q) = run(4, Some("2026-06-16T20:00:00+00:00"), 0);
    match a {
        PushAction::Report(PushResult::NothingNew(at)) => assert_eq!(at, "2026-06-16T20:00:00+00:00"),
        other => panic!("{other:?}"),
    }
    assert_eq!(q, 3);
}

#[test]
fn push_again_with_new_commits_reseals() {
    let (a, _) = run(6, Some("2026-06-16T20:00:00+00:00"), 2);
    assert!(matches!(a, PushAction::UpdateSeal(PushResult::Resealed(6, 2))));
}

#[test]
fn answers_that_do_not_fit_stall() {
    let (stage, _) = PushStage::start();
    let (stage, a) = stage.step(PushEvent::SealFound(None));
    assert!(matches!(a, PushAction::Stalled));
    assert!(matches!(stage, PushStage::Done));
    let (_, a) = PushStage::Done.step(PushEvent::Counted(1));
    assert!(matches!(a, PushAction::Stalled));
}
