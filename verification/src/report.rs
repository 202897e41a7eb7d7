//! The lines the command line prints: push and status reports, the day's
//! header, the grid's tiles.
use vstd::prelude::*;
use vstd::string::StringExecFns;
use crate::day::{DayStatus, PushOutcome, PushResult};
use crate::grid::{shade, shade_for};

verus! {

/// The decimal digit character for a value below 10.
pub open spec fn digit_char(d: int) -> char {
    seq!['0', '1', '2', '3', '4', '5', '6', '7', '8', '9'][d]
}

/// The decimal text of a natural number, without leading zeros.
pub open spec fn decimal(n: nat) -> Seq<char>
    decreases n,
{
    if n < 10 {
        seq![digit_char(n as int)]
    } else {
        decimal(n / 10).push(digit_char((n % 10) as int))
    }
}

/// The character of a decimal digit.
pub(crate) fn digit_of(d: u64) -> (c: char)
    requires
        d < 10,
    ensures
        c == digit_char(d as int),
{
    match d {
        0 => '0',
        1 => '1',
        2 => '2',
        3 => '3',
        4 => '4',
        5 => '5',
        6 => '6',
        7 => '7',
        8 => '8',
        _ => '9',
    }
}

/// The decimal text of `n`.
pub fn decimal_text(n: u64) -> (s: String)
    ensures
        s@ == decimal(n as nat),
{
    let mut m: u64 = n;
    let mut low: Vec<char> = Vec::new();
    while m >= 10
        invariant
            decimal(n as nat) == decimal(m as nat) + low@,
        decreases m,
    {
        let d = digit_of(m % 10);
        let ghost before = low@;
        low.insert(0, d);
        assert(decimal(m as nat) == decimal((m / 10) as nat).push(d));
        assert(decimal((m / 10) as nat).push(d) + before =~= decimal((m / 10) as nat) + low@);
        m = m / 10;
    }
    let mut all: Vec<char> = Vec::new();
    all.push(digit_of(m));
    all.append(&mut low);
    assert(all@ =~= decimal(n as nat));
    crate::text::string_of(&all)
}

/// What `push` reports for today's date text `today`.
pub open spec fn push_text(today: Seq<char>, r: PushOutcome) -> Seq<char> {
    match r {
        PushOutcome::Sealed(n) => "sealed "@ + today + ", "@ + decimal(n as nat) + " commits"@,
        PushOutcome::Resealed(total, new) => "re-sealed "@ + today + ", "@ + decimal(total as nat)
            + " commits ("@ + decimal(new as nat) + " new)"@,
        PushOutcome::NothingNew(_) => "already sealed - nothing new to push"@,
        PushOutcome::Empty => "nothing to seal - log something first"@,
    }
}

/// The report of a push on the day `today`.
pub fn push_message(today: &str, r: &PushResult) -> (s: String)
    ensures
        s@ == push_text(today@, r@),
{
    match r {
        PushResult::Sealed(n) => {
            let mut s = String::from_str("sealed ");
            s.append(today);
            s.append(", ");
            let d = decimal_text(*n as u64);
            s.append(d.as_str());
            s.append(" commits");
            s
        },
        PushResult::Resealed(total, new) => {
            let mut s = String::from_str("re-sealed ");
            s.append(today);
            s.append(", ");
            let d = decimal_text(*total as u64);
            s.append(d.as_str());
            s.append(" commits (");
            let k = decimal_text(*new as u64);
            s.append(k.as_str());
            s.append(" new)");
            s
        },
        PushResult::NothingNew(_) => String::from_str("already sealed - nothing new to push"),
        PushResult::Empty => String::from_str("nothing to seal - log something first"),
    }
}

/// What `status` reports for the day whose date reads `date`.
pub open spec fn status_text(date: Seq<char>, s: DayStatus) -> Seq<char> {
    match s {
        DayStatus::Sealed(n) => date + " \u{2022} sealed \u{2022} "@ + decimal(n as nat) + " commits"@,
        DayStatus::Draft(n) => date + " \u{2022} draft \u{2022} "@ + decimal(n as nat)
            + " commits - not pushed yet"@,
        DayStatus::Empty => date + " \u{2022} nothing logged yet"@,
    }
}

/// The report of where the day whose date reads `date` stands.
pub fn status_message(date: &str, status: DayStatus) -> (s: String)
    ensures
        s@ == status_text(date@, status),
{
    let mut s = String::from_str(date);
    match status {
        DayStatus::Sealed(n) => {
            s.append(" \u{2022} sealed \u{2022} ");
            let d = decimal_text(n as u64);
            s.append(d.as_str());
            s.append(" commits");
        },
        DayStatus::Draft(n) => {
            s.append(" \u{2022} draft \u{2022} ");
            let d = decimal_text(n as u64);
            s.append(d.as_str());
            s.append(" commits - not pushed yet");
        },
        DayStatus::Empty => {
            s.append(" \u{2022} nothing logged yet");
        },
    }
    s
}

/// The header of `log`: a blank line, the date and the number of commits
/// ("commit" for exactly one), and a blank line.
pub open spec fn header_text(date: Seq<char>, n: nat) -> Seq<char> {
    "\n"@ + date + "  ("@ + decimal(n) + " "@ + (if n == 1 {
        "commit"@
    } else {
        "commits"@
    }) + ")\n"@
}

/// The header `log` prints above the day's commits.
pub fn day_header(date: &str, n: u64) -> (s: String)
    ensures
        s@ == header_text(date@, n as nat),
{
    let mut s = String::from_str("\n");
    s.append(date);
    s.append("  (");
    let d = decimal_text(n);
    s.append(d.as_str());
    s.append(" ");
    if n == 1 {
        s.append("commit");
    } else {
        s.append("commits");
    }
    s.append(")\n");
    s
}

/// The terminal text of a grid tile: two spaces on a true-colour background
/// of the day's shade, then the colour reset.
pub open spec fn tile_text(count: u32) -> Seq<char> {
    let (r, g, b) = shade(count);
    "\u{1b}[48;2;"@ + decimal(r as nat) + ";"@ + decimal(g as nat) + ";"@ + decimal(b as nat)
        + "m  \u{1b}[0m"@
}

/// The terminal text of a tile of the colour (`r`, `g`, `b`).
pub open spec fn coloured_cell(r: nat, g: nat, b: nat) -> Seq<char> {
    "\u{1b}[48;2;"@ + decimal(r) + ";"@ + decimal(g) + ";"@ + decimal(b) + "m  \u{1b}[0m"@
}

/// Each tile has the colour of its own count: dark for no commit, then
/// greener and bluer as the day holds 1-2, 3-4, 5-7 and 8 or more commits;
/// a day with any commit is never drawn in the colour of an empty day.
pub proof fn law_tile_colour_follows_count(count: u32)
    ensures
        count == 0 ==> tile_text(count) == coloured_cell(22, 33, 28),
        1 <= count <= 2 ==> tile_text(count) == coloured_cell(15, 61, 42),
        3 <= count <= 4 ==> tile_text(count) == coloured_cell(28, 125, 82),
        5 <= count <= 7 ==> tile_text(count) == coloured_cell(39, 163, 111),
        8 <= count ==> tile_text(count) == coloured_cell(52, 209, 127),
        count > 0 ==> tile_text(count) != tile_text(0),
{
    reveal_strlit("\u{1b}[48;2;");
    let pre = "\u{1b}[48;2;"@;
    assert(pre.len() == 7);
    reveal_with_fuel(decimal, 3);
    assert(decimal(22) =~= seq!['2', '2']);
    assert(decimal(15) =~= seq!['1', '5']);
    assert(decimal(28) =~= seq!['2', '8']);
    assert(decimal(39) =~= seq!['3', '9']);
    assert(decimal(52) =~= seq!['5', '2']);
    let empty = tile_text(0);
    assert(empty[7] == '2' && empty[8] == '2');
    if count > 0 {
        let t = tile_text(count);
        if count <= 2 {
            assert(t[7] == '1');
        } else if count <= 4 {
            assert(t[8] == '8');
        } else if count <= 7 {
            assert(t[7] == '3');
        } else {
            assert(t[7] == '5');
        }
    }
}

/// The tile printed for a day with `count` commits.
pub fn tile(count: u32) -> (s: String)
    ensures
        s@ == tile_text(count),
{
    let (r, g, b) = shade_for(count);
    let mut s = String::from_str("\u{1b}[48;2;");
    let t = decimal_text(r as u64);
    s.append(t.as_str());
    s.append(";");
    let t = decimal_text(g as u64);
    s.append(t.as_str());
    s.append(";");
    let t = decimal_text(b as u64);
    s.append(t.as_str());
    s.append("m  \u{1b}[0m");
    s
}

} // verus!
