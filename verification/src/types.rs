//! The core data: pillars, trailers, instants and commits, with their models.
use vstd::prelude::*;

verus! {

/// The five life-areas a commit can belong to.
#[derive(Debug, Clone, Copy, PartialEq, Eq, Structural)]
pub enum Pillar {
    Body,
    Work,
    Make,
    Mind,
    Life,
}

/// The lower-case name of a pillar, as typed and as stored.
pub open spec fn pillar_name(p: Pillar) -> Seq<char> {
    match p {
        Pillar::Body => seq!['b', 'o', 'd', 'y'],
        Pillar::Work => seq!['w', 'o', 'r', 'k'],
        Pillar::Make => seq!['m', 'a', 'k', 'e'],
        Pillar::Mind => seq!['m', 'i', 'n', 'd'],
        Pillar::Life => seq!['l', 'i', 'f', 'e'],
    }
}

/// The pillar whose name is exactly `v`, if any.
pub open spec fn pillar_named(v: Seq<char>) -> Option<Pillar> {
    if v == pillar_name(Pillar::Body) {
        Some(Pillar::Body)
    } else if v == pillar_name(Pillar::Work) {
        Some(Pillar::Work)
    } else if v == pillar_name(Pillar::Make) {
        Some(Pillar::Make)
    } else if v == pillar_name(Pillar::Mind) {
        Some(Pillar::Mind)
    } else if v == pillar_name(Pillar::Life) {
        Some(Pillar::Life)
    } else {
        None
    }
}

/// Reading a stored pillar name back: anything unrecognised lands in `Life`.
pub open spec fn pillar_or_life(v: Seq<char>) -> Pillar {
    match pillar_named(v) {
        Some(p) => p,
        None => Pillar::Life,
    }
}

/// One key/value fact attached to a commit, e.g. `Mins` = `120`.
#[derive(Debug, Clone)]
pub struct Trailer {
    pub key: String,
    pub value: String,
}

impl View for Trailer {
    type V = (Seq<char>, Seq<char>);

    open spec fn view(&self) -> (Seq<char>, Seq<char>) {
        (self.key@, self.value@)
    }
}

/// The models of a list of trailers.
pub open spec fn trailer_views(ts: Seq<Trailer>) -> Seq<(Seq<char>, Seq<char>)> {
    ts.map_values(|t: Trailer| t@)
}

/// The model of an optional text.
pub open spec fn opt_text(o: Option<String>) -> Option<Seq<char>> {
    match o {
        Some(s) => Some(s@),
        None => None,
    }
}

/// The first day number (counted from January 1 of year 1, which is day 1)
/// that the calendar can hold.
pub open spec fn min_day() -> int {
    -95746129
}

/// The last day number that the calendar can hold.
pub open spec fn max_day() -> int {
    95745399
}

/// Day 1 of the Unix epoch, 1970-01-01, counted from January 1 of year 1.
pub open spec fn epoch_day() -> int {
    719163
}

/// The calendar day (counted from January 1 of year 1) on which a Unix
/// timestamp falls, in UTC.
pub open spec fn utc_day(secs: int) -> int {
    secs / 86400 + epoch_day()
}

/// A moment in UTC: whole non-leap seconds since 1970-01-01T00:00:00Z and the
/// nanoseconds past them (a leap second shows as nanoseconds past 1e9).
#[derive(Debug, Clone, Copy, PartialEq, Eq, Structural)]
pub struct Timestamp {
    pub secs: i64,
    pub nanos: u32,
}

impl Timestamp {
    /// The moment falls on a representable calendar day, and its nanoseconds
    /// reach past a second only during the last second of a minute.
    pub open spec fn valid(self) -> bool {
        &&& min_day() <= utc_day(self.secs as int) <= max_day()
        &&& (self.nanos < 1_000_000_000 || (self.nanos < 2_000_000_000 && (self.secs as int
            % 86400) % 60 == 59))
    }

    /// The moment falls in a year from 0 to 9999, written with four digits.
    pub open spec fn four_digit_year(self) -> bool {
        0 <= utc_day(self.secs as int) - first_day_of_year_zero() < days_in_years_zero_to_9999()
    }
}

/// January 1 of year 0 (1 BCE), as a day number.
pub open spec fn first_day_of_year_zero() -> int {
    -365
}

/// The number of days from January 1 of year 0 to December 31 of year 9999.
pub open spec fn days_in_years_zero_to_9999() -> int {
    3652425
}

/// One thing you did and logged.
#[derive(Debug, Clone)]
pub struct Commit {
    /// The 128 bits of the commit's UUID.
    pub id: u128,
    pub pillar: Pillar,
    pub scope: Option<String>,
    pub subject: String,
    pub body: Option<String>,
    pub trailers: Vec<Trailer>,
    pub is_highlight: bool,
    pub created_at: Timestamp,
}

/// The model of a commit: its texts as character sequences.
pub struct CommitView {
    pub id: u128,
    pub pillar: Pillar,
    pub scope: Option<Seq<char>>,
    pub subject: Seq<char>,
    pub body: Option<Seq<char>>,
    pub trailers: Seq<(Seq<char>, Seq<char>)>,
    pub is_highlight: bool,
    pub created_at: Timestamp,
}

impl View for Commit {
    type V = CommitView;

    open spec fn view(&self) -> CommitView {
        CommitView {
            id: self.id,
            pillar: self.pillar,
            scope: opt_text(self.scope),
            subject: self.subject@,
            body: opt_text(self.body),
            trailers: trailer_views(self.trailers@),
            is_highlight: self.is_highlight,
            created_at: self.created_at,
        }
    }
}

impl Pillar {
    /// The pillar's lower-case name.
    pub fn as_str(&self) -> (r: &'static str)
        ensures
            r@ == pillar_name(*self),
    {
        match self {
            Pillar::Body => {
                proof {
                    reveal_strlit("body");
                }
                "body"
            },
            Pillar::Work => {
                proof {
                    reveal_strlit("work");
                }
                "work"
            },
            Pillar::Make => {
                proof {
                    reveal_strlit("make");
                }
                "make"
            },
            Pillar::Mind => {
                proof {
                    reveal_strlit("mind");
                }
                "mind"
            },
            Pillar::Life => {
                proof {
                    reveal_strlit("life");
                }
                "life"
            },
        }
    }

    /// The pillar named by the characters `v`, if any.
    pub fn named(v: &Vec<char>) -> (r: Option<Pillar>)
        ensures
            r == pillar_named(v@),
    {
        let p = Pillar::Body;
        if crate::text::spells(v, p.as_str()) {
            return Some(p);
        }
        let p = Pillar::Work;
        if crate::text::spells(v, p.as_str()) {
            return Some(p);
        }
        let p = Pillar::Make;
        if crate::text::spells(v, p.as_str()) {
            return Some(p);
        }
        let p = Pillar::Mind;
        if crate::text::spells(v, p.as_str()) {
            return Some(p);
        }
        let p = Pillar::Life;
        if crate::text::spells(v, p.as_str()) {
            return Some(p);
        }
        None
    }

    /// Reads a stored pillar name back; any text that names no pillar gives
    /// `Life`.
    pub fn from_str(s: &str) -> (p: Pillar)
        ensures
            p == pillar_or_life(s@),
    {
        let v = crate::text::chars_of(s);
        match Pillar::named(&v) {
            Some(p) => p,
            None => Pillar::Life,
        }
    }
}

/// A pillar's name reads back as that pillar.
pub proof fn law_pillar_name_reads_back(p: Pillar)
    ensures
        pillar_named(pillar_name(p)) == Some(p),
        pillar_or_life(pillar_name(p)) == p,
{
    assert(pillar_name(Pillar::Body) != pillar_name(Pillar::Work));
    assert(pillar_name(Pillar::Body) != pillar_name(Pillar::Make));
    assert(pillar_name(Pillar::Body) != pillar_name(Pillar::Mind));
    assert(pillar_name(Pillar::Body) != pillar_name(Pillar::Life));
    assert(pillar_name(Pillar::Work) != pillar_name(Pillar::Make));
    assert(pillar_name(Pillar::Work) != pillar_name(Pillar::Mind));
    assert(pillar_name(Pillar::Work) != pillar_name(Pillar::Life));
    assert(pillar_name(Pillar::Make) != pillar_name(Pillar::Mind));
    assert(pillar_name(Pillar::Make) != pillar_name(Pillar::Life));
    assert(pillar_name(Pillar::Mind) != pillar_name(Pillar::Life));
}

} // verus!
