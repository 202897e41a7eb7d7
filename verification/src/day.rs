//! Where a day stands, and what `push` does to it.
use vstd::prelude::*;

verus! {

/// Where the day stands: sealed with its commit count, a draft with its
/// commit count, or nothing logged.
#[derive(Debug, Clone, Copy, PartialEq, Eq, Structural)]
pub enum DayStatus {
    Sealed(u32),
    Draft(u32),
    Empty,
}

/// The status of a day with `total` commits, given the day's stored sealed
/// flag (`None` when the day has no stored flag).
pub open spec fn status_of(total: u32, sealed: Option<bool>) -> DayStatus {
    if total == 0 {
        DayStatus::Empty
    } else if sealed == Some(true) {
        DayStatus::Sealed(total)
    } else {
        DayStatus::Draft(total)
    }
}

impl DayStatus {
    /// The status of a day with `total` commits and the given stored sealed
    /// flag.
    pub fn of_day(total: u32, sealed: Option<bool>) -> (r: DayStatus)
        ensures
            r == status_of(total, sealed),
    {
        if total == 0 {
            return DayStatus::Empty;
        }
        match sealed {
            Some(true) => DayStatus::Sealed(total),
            _ => DayStatus::Draft(total),
        }
    }
}

/// What a push did: sealed the day with its count; re-sealed it with its
/// count and the count of commits new since the last push; found nothing new
/// since the last push (given with its time); or found nothing to seal.
#[derive(Debug)]
pub enum PushResult {
    Sealed(u32),
    Resealed(u32, u32),
    NothingNew(String),
    Empty,
}

/// The model of a push result.
pub enum PushOutcome {
    Sealed(u32),
    Resealed(u32, u32),
    NothingNew(Seq<char>),
    Empty,
}

impl View for PushResult {
    type V = PushOutcome;

    open spec fn view(&self) -> PushOutcome {
        match self {
            PushResult::Sealed(n) => PushOutcome::Sealed(*n),
            PushResult::Resealed(t, n) => PushOutcome::Resealed(*t, *n),
            PushResult::NothingNew(at) => PushOutcome::NothingNew(at@),
            PushResult::Empty => PushOutcome::Empty,
        }
    }
}

/// How far a push has got: counting the day's commits; looking for the
/// day's seal, with the count; counting the commits made since the seal's
/// time; finished.
#[derive(Debug)]
pub enum PushStage {
    CountingAll,
    FindingSeal { total: u32 },
    CountingSince { total: u32, pushed_at: String },
    Done,
}

/// What the store answered: a count of commits, or the time of the day's
/// seal if it is sealed.
#[derive(Debug)]
pub enum PushEvent {
    Counted(u32),
    SealFound(Option<String>),
}

/// What the store is asked to do next: count the day's commits; look up the
/// day's seal; count the commits made after the given time; store a new seal
/// (stamped now) and report; move the seal's time to now and report; report
/// without writing; or nothing, as the answer did not fit the question.
#[derive(Debug)]
pub enum PushAction {
    CountAll,
    FindSeal,
    CountSince(String),
    InsertSeal(PushResult),
    UpdateSeal(PushResult),
    Report(PushResult),
    Stalled,
}

/// The model of a push stage.
pub enum StageView {
    CountingAll,
    FindingSeal { total: u32 },
    CountingSince { total: u32, pushed_at: Seq<char> },
    Done,
}

/// The model of an answer.
pub enum EventView {
    Counted(u32),
    SealFound(Option<Seq<char>>),
}

/// The model of an action.
pub enum ActionView {
    CountAll,
    FindSeal,
    CountSince(Seq<char>),
    InsertSeal(PushOutcome),
    UpdateSeal(PushOutcome),
    Report(PushOutcome),
    Stalled,
}

impl View for PushStage {
    type V = StageView;

    open spec fn view(&self) -> StageView {
        match self {
            PushStage::CountingAll => StageView::CountingAll,
            PushStage::FindingSeal { total } => StageView::FindingSeal { total: *total },
            PushStage::CountingSince { total, pushed_at } => StageView::CountingSince {
                total: *total,
                pushed_at: pushed_at@,
            },
            PushStage::Done => StageView::Done,
        }
    }
}

impl View for PushEvent {
    type V = EventView;

    open spec fn view(&self) -> EventView {
        match self {
            PushEvent::Counted(n) => EventView::Counted(*n),
            PushEvent::SealFound(Some(at)) => EventView::SealFound(Some(at@)),
            PushEvent::SealFound(None) => EventView::SealFound(None),
        }
    }
}

impl View for PushAction {
    type V = ActionView;

    open spec fn view(&self) -> ActionView {
        match self {
            PushAction::CountAll => ActionView::CountAll,
            PushAction::FindSeal => ActionView::FindSeal,
            PushAction::CountSince(at) => ActionView::CountSince(at@),
            PushAction::InsertSeal(r) => ActionView::InsertSeal(r@),
            PushAction::UpdateSeal(r) => ActionView::UpdateSeal(r@),
            PushAction::Report(r) => ActionView::Report(r@),
            PushAction::Stalled => ActionView::Stalled,
        }
    }
}

/// One step of a push: from where it stands and the store's answer, where it
/// goes and what it asks next.
pub open spec fn push_next(stage: StageView, event: EventView) -> (StageView, ActionView) {
    match (stage, event) {
        (StageView::CountingAll, EventView::Counted(total)) => if total == 0 {
            (StageView::Done, ActionView::Report(PushOutcome::Empty))
        } else {
            (StageView::FindingSeal { total }, ActionView::FindSeal)
        },
        (StageView::FindingSeal { total }, EventView::SealFound(None)) => (
            StageView::Done,
            ActionView::InsertSeal(PushOutcome::Sealed(total)),
        ),
        (StageView::FindingSeal { total }, EventView::SealFound(Some(at))) => (
            StageView::CountingSince { total, pushed_at: at },
            ActionView::CountSince(at),
        ),
        (StageView::CountingSince { total, pushed_at }, EventView::Counted(n)) => if n == 0 {
            (StageView::Done, ActionView::Report(PushOutcome::NothingNew(pushed_at)))
        } else {
            (StageView::Done, ActionView::UpdateSeal(PushOutcome::Resealed(total, n)))
        },
        _ => (StageView::Done, ActionView::Stalled),
    }
}

impl PushStage {
    /// A push begins by counting the day's commits.
    pub fn start() -> (r: (PushStage, PushAction))
        ensures
            r.0@ == StageView::CountingAll,
            r.1@ == ActionView::CountAll,
    {
        (PushStage::CountingAll, PushAction::CountAll)
    }

    /// One step of a push.
    pub fn step(self, event: PushEvent) -> (r: (PushStage, PushAction))
        ensures
            (r.0@, r.1@) == push_next(self@, event@),
    {
        match (self, event) {
            (PushStage::CountingAll, PushEvent::Counted(total)) => if total == 0 {
                (PushStage::Done, PushAction::Report(PushResult::Empty))
            } else {
                (PushStage::FindingSeal { total }, PushAction::FindSeal)
            },
            (PushStage::FindingSeal { total }, PushEvent::SealFound(None)) => (
                PushStage::Done,
                PushAction::InsertSeal(PushResult::Sealed(total)),
            ),
            (PushStage::FindingSeal { total }, PushEvent::SealFound(Some(at))) => {
                let asked = at.clone();
                (PushStage::CountingSince { total, pushed_at: at }, PushAction::CountSince(asked))
            },
            (PushStage::CountingSince { total, pushed_at }, PushEvent::Counted(n)) => if n == 0 {
                (PushStage::Done, PushAction::Report(PushResult::NothingNew(pushed_at)))
            } else {
                (PushStage::Done, PushAction::UpdateSeal(PushResult::Resealed(total, n)))
            },
            _ => (PushStage::Done, PushAction::Stalled),
        }
    }
}

/// The last action of a push whose store answers `total` commits for the
/// day, the seal time `sealed_at`, and `since` commits after that time.
pub open spec fn push_run(total: u32, sealed_at: Option<Seq<char>>, since: u32) -> ActionView {
    let (s1, a1) = push_next(StageView::CountingAll, EventView::Counted(total));
    match a1 {
        ActionView::FindSeal => {
            let (s2, a2) = push_next(s1, EventView::SealFound(sealed_at));
            match a2 {
                ActionView::CountSince(_) => push_next(s2, EventView::Counted(since)).1,
                _ => a2,
            }
        },
        _ => a1,
    }
}

/// A day is empty exactly when it has no commit; a day with commits is
/// sealed, with its count, exactly when its stored flag says sealed, and a
/// draft with its count otherwise.
pub proof fn law_status_follows_count_and_flag(total: u32, sealed: Option<bool>)
    ensures
        (status_of(total, sealed) == DayStatus::Empty) <==> total == 0,
        total > 0 && sealed == Some(true) ==> status_of(total, sealed) == DayStatus::Sealed(total),
        total > 0 && sealed != Some(true) ==> status_of(total, sealed) == DayStatus::Draft(total),
        status_of(total, sealed) matches DayStatus::Sealed(n) ==> n == total && sealed == Some(
            true,
        ),
        status_of(total, sealed) matches DayStatus::Draft(n) ==> n == total && n > 0 && sealed
            != Some(true),
{
}

/// `push` seals the day: a day with nothing logged is reported empty and not
/// written; a day not yet sealed gets a seal with its count; a sealed day
/// with nothing new since the seal is reported as such and not written; a
/// sealed day with new commits has its seal moved on, with the total and the
/// new count.
pub proof fn law_push_seals_the_day(total: u32, sealed_at: Option<Seq<char>>, since: u32)
    ensures
        total == 0 ==> push_run(total, sealed_at, since) == ActionView::Report(PushOutcome::Empty),
        total > 0 && sealed_at is None ==> push_run(total, sealed_at, since)
            == ActionView::InsertSeal(PushOutcome::Sealed(total)),
        total > 0 && sealed_at is Some && since == 0 ==> push_run(total, sealed_at, since)
            == ActionView::Report(PushOutcome::NothingNew(sealed_at->0)),
        total > 0 && sealed_at is Some && since > 0 ==> push_run(total, sealed_at, since)
            == ActionView::UpdateSeal(PushOutcome::Resealed(total, since)),
{
}

} // verus!
