//! How commits and the dashboard read on screen.
use vstd::prelude::*;
use vstd::string::StringExecFns;
use crate::bridge::local_offset;
use crate::report::{digit_char, digit_of};
use crate::types::Timestamp;
use crate::text::push_char;
use crate::types::{pillar_name, Commit, CommitView};

verus! {

/// A commit's head: the pillar, with its scope in brackets if it has one,
/// e.g. `work(report)`.
pub open spec fn head_text(c: CommitView) -> Seq<char> {
    match c.scope {
        Some(s) => pillar_name(c.pillar) + "("@ + s + ")"@,
        None => pillar_name(c.pillar),
    }
}

/// The trailers as they follow a log line: ` • key value` for each.
pub open spec fn trailers_text(ts: Seq<(Seq<char>, Seq<char>)>) -> Seq<char>
    decreases ts.len(),
{
    if ts.len() == 0 {
        seq![]
    } else {
        trailers_text(ts.drop_last()) + " \u{2022} "@ + ts.last().0 + " "@ + ts.last().1
    }
}

/// A commit's log line at the clock time `clock`, e.g.
/// `10:13  work(report): finished the draft • Mins 120`; a starred commit
/// has `✦ ` before its head.
pub open spec fn log_line_text(c: CommitView, clock: Seq<char>) -> Seq<char> {
    clock + "  "@ + (if c.is_highlight {
        "\u{2726} "@
    } else {
        seq![]
    }) + head_text(c) + ": "@ + c.subject + trailers_text(c.trailers)
}

/// A number below 100 as two decimal digits.
pub open spec fn two_digits(n: int) -> Seq<char> {
    seq![digit_char(n / 10), digit_char(n % 10)]
}

/// The hour and minute, `HH:MM`, that a clock `offset` seconds ahead of UTC
/// shows at `secs` seconds after the Unix epoch.
pub open spec fn clock_text(secs: int, offset: int) -> Seq<char> {
    let of_day = (secs + offset) % 86400;
    two_digits(of_day / 3600) + seq![':'] + two_digits((of_day / 60) % 60)
}

/// A clock offset from UTC that chrono can hold: less than a day.
pub open spec fn is_offset(offset: int) -> bool {
    -86400 < offset < 86400
}

/// `line` is the commit's log line on a clock at some offset from UTC.
pub open spec fn shows(line: Seq<char>, c: CommitView) -> bool {
    exists|offset: int|
        is_offset(offset) && line == log_line_text(c, clock_text(c.created_at.secs as int, offset))
}

/// The two digits of a number below 100.
fn push_two_digits(s: &mut String, n: i64)
    requires
        0 <= n < 100,
    ensures
        final(s)@ == old(s)@ + two_digits(n as int),
{
    push_char(s, digit_of((n / 10) as u64));
    push_char(s, digit_of((n % 10) as u64));
}

/// The clock time `HH:MM` of the moment `t` on a clock `offset` seconds
/// ahead of UTC.
pub fn clock_at(t: Timestamp, offset: i32) -> (s: String)
    requires
        t.valid(),
        is_offset(offset as int),
    ensures
        s@ == clock_text(t.secs as int, offset as int),
{
    let local: i64 = t.secs + offset as i64;
    let of_day: i64 = local.checked_rem_euclid(86400).unwrap();
    let mut s = String::new();
    push_two_digits(&mut s, of_day / 3600);
    push_char(&mut s, ':');
    push_two_digits(&mut s, (of_day / 60) % 60);
    assert(s@ =~= clock_text(t.secs as int, offset as int));
    s
}

/// Every trailer shows in the log line, whatever the scope: giving a commit
/// one more trailer appends ` • key value` to its log line and changes
/// nothing before; a commit without trailers ends its line with its subject.
pub proof fn law_trailers_end_the_line(c: CommitView, clock: Seq<char>, t: (Seq<char>, Seq<char>))
    ensures
        log_line_text(CommitView { trailers: c.trailers.push(t), ..c }, clock) == log_line_text(
            c,
            clock,
        ) + " \u{2022} "@ + t.0 + " "@ + t.1,
        c.trailers.len() == 0 ==> log_line_text(c, clock).len() >= c.subject.len()
            && log_line_text(c, clock).skip(log_line_text(c, clock).len() - c.subject.len())
            == c.subject,
{
    let d = CommitView { trailers: c.trailers.push(t), ..c };
    assert(d.trailers.drop_last() =~= c.trailers);
    assert(head_text(d) == head_text(c));
    let line = log_line_text(c, clock);
    if c.trailers.len() == 0 {
        assert(trailers_text(c.trailers) =~= Seq::<char>::empty());
        assert(line.skip(line.len() - c.subject.len()) =~= c.subject);
    }
}

/// A log line starts with the clock and two spaces, then the pillar's
/// name; starring a commit puts `✦ ` before the pillar's name and changes
/// nothing else.
pub proof fn law_line_starts_with_clock(c: CommitView, clock: Seq<char>)
    ensures
        log_line_text(c, clock).take(clock.len() + 2int) == clock + "  "@,
        !c.is_highlight ==> log_line_text(c, clock).skip(clock.len() + 2int).take(
            pillar_name(c.pillar).len() as int,
        ) == pillar_name(c.pillar),
        !c.is_highlight ==> log_line_text(CommitView { is_highlight: true, ..c }, clock) == clock
            + "  "@ + "\u{2726} "@ + log_line_text(c, clock).skip(clock.len() + 2int),
{
    reveal_strlit("  ");
    let line = log_line_text(c, clock);
    assert(line.take(clock.len() + 2int) =~= clock + "  "@);
    if !c.is_highlight {
        let rest = head_text(c) + ": "@ + c.subject + trailers_text(c.trailers);
        assert(line =~= clock + "  "@ + rest);
        assert(line.skip(clock.len() + 2int) =~= rest);
        assert(rest.take(pillar_name(c.pillar).len() as int) =~= pillar_name(c.pillar));
        let d = CommitView { is_highlight: true, ..c };
        assert(head_text(d) == head_text(c));
        assert(log_line_text(d, clock) =~= clock + "  "@ + "\u{2726} "@ + rest);
    }
}

impl Commit {
    /// The commit's log line, shown at the clock time `clock`.
    pub fn log_line(&self, clock: &str) -> (s: String)
        ensures
            s@ == log_line_text(self@, clock@),
    {
        let mut s = String::from_str(clock);
        s.append("  ");
        if self.is_highlight {
            s.append("\u{2726} ");
        }
        s.append(self.pillar.as_str());
        match &self.scope {
            Some(scope) => {
                s.append("(");
                s.append(scope.as_str());
                s.append(")");
            },
            None => {},
        }
        s.append(": ");
        s.append(self.subject.as_str());
        let ghost base = s@;
        let ghost tv = self@.trailers;
        let mut i: usize = 0;
        while i < self.trailers.len()
            invariant
                i <= self.trailers@.len(),
                tv == self@.trailers,
                s@ == base + trailers_text(tv.take(i as int)),
            decreases self.trailers@.len() - i,
        {
            let t = &self.trailers[i];
            s.append(" \u{2022} ");
            s.append(t.key.as_str());
            s.append(" ");
            s.append(t.value.as_str());
            assert(tv.take(i + 1).drop_last() =~= tv.take(i as int));
            assert(tv.take(i + 1).last() == self.trailers@[i as int]@);
            i = i + 1;
        }
        assert(tv.take(self.trailers@.len() as int) =~= tv);
        s
    }

    /// The commit's log line at the time of day at which it was made, on a
    /// clock `offset` seconds ahead of UTC.
    pub fn log_line_at(&self, offset: i32) -> (s: String)
        requires
            self.created_at.valid(),
            is_offset(offset as int),
        ensures
            s@ == log_line_text(self@, clock_text(self.created_at.secs as int, offset as int)),
    {
        let clock = clock_at(self.created_at, offset);
        self.log_line(clock.as_str())
    }

    /// The commit's log line at the time of day, on this machine's clock, at
    /// which it was made.
    pub fn render(&self) -> (s: String)
        requires
            self.created_at.valid(),
        ensures
            shows(s@, self@),
    {
        let offset = local_offset(self.created_at);
        let s = self.log_line_at(offset);
        assert(is_offset(offset as int) && s@ == log_line_text(
            self@,
            clock_text(self.created_at.secs as int, offset as int),
        ));
        s
    }
}

/// The lines of the today screen: a note when nothing is logged, else one
/// log line per commit, in order.
pub fn today_lines(commits: &Vec<Commit>) -> (lines: Vec<String>)
    requires
        forall|i: int| 0 <= i < commits@.len() ==> (#[trigger] commits@[i]).created_at.valid(),
    ensures
        commits@.len() == 0 ==> lines@.len() == 1 && lines@[0]@ == "nothing logged yet today"@,
        commits@.len() > 0 ==> lines@.len() == commits@.len(),
        commits@.len() > 0 ==> forall|i: int|
            0 <= i < commits@.len() ==> shows((#[trigger] lines@[i])@, commits@[i]@),
{
    let mut lines: Vec<String> = Vec::new();
    if commits.len() == 0 {
        lines.push(String::from_str("nothing logged yet today"));
        return lines;
    }
    let mut i: usize = 0;
    while i < commits.len()
        invariant
            i <= commits@.len(),
            lines@.len() == i,
            forall|j: int| 0 <= j < commits@.len() ==> (#[trigger] commits@[j]).created_at.valid(),
            forall|j: int| 0 <= j < i ==> shows((#[trigger] lines@[j])@, commits@[j]@),
        decreases commits@.len() - i,
    {
        let line = commits[i].render();
        let ghost before = lines@;
        lines.push(line);
        assert forall|j: int| 0 <= j < i + 1 implies shows((#[trigger] lines@[j])@, commits@[j]@) by {
            if j < i {
                assert(lines@[j] == before[j]);
            }
        }
        i = i + 1;
    }
    lines
}

/// An entry of the dashboard's menu: what it does, and its key.
#[derive(Debug, Clone)]
pub struct MenuEntry {
    pub label: String,
    pub key: String,
}

/// The dashboard's menu, in order.
pub open spec fn menu_spec() -> Seq<(Seq<char>, Seq<char>)> {
    seq![
        ("today"@, "t"@),
        ("grid"@, "g"@),
        ("status"@, "s"@),
        ("push"@, "p"@),
        ("log a commit"@, "c"@),
        ("quit"@, "q"@),
    ]
}

/// The models of menu entries.
pub open spec fn entry_views(es: Seq<MenuEntry>) -> Seq<(Seq<char>, Seq<char>)> {
    es.map_values(|e: MenuEntry| (e.label@, e.key@))
}

fn entry(label: &str, key: &str) -> (e: MenuEntry)
    ensures
        e.label@ == label@,
        e.key@ == key@,
{
    MenuEntry { label: String::from_str(label), key: String::from_str(key) }
}

/// The dashboard's menu entries.
pub fn menu_entries() -> (es: Vec<MenuEntry>)
    ensures
        entry_views(es@) == menu_spec(),
{
    let mut es: Vec<MenuEntry> = Vec::new();
    es.push(entry("today", "t"));
    es.push(entry("grid", "g"));
    es.push(entry("status", "s"));
    es.push(entry("push", "p"));
    es.push(entry("log a commit", "c"));
    es.push(entry("quit", "q"));
    assert(entry_views(es@) =~= menu_spec());
    es
}

/// The length of the longest label, 0 for no labels.
pub open spec fn widest(es: Seq<(Seq<char>, Seq<char>)>) -> nat
    decreases es.len(),
{
    if es.len() == 0 {
        0
    } else {
        let w: nat = widest(es.drop_last());
        if es.last().0.len() > w {
            es.last().0.len()
        } else {
            w
        }
    }
}

/// `n` spaces.
pub open spec fn spaces(n: nat) -> Seq<char> {
    Seq::new(n, |i: int| ' ')
}

/// A label padded with spaces to `width` characters, then three more spaces.
pub open spec fn padded(label: Seq<char>, width: nat) -> Seq<char> {
    label + spaces((if width > label.len() { width - label.len() } else { 0int }) as nat)
        + spaces(3)
}

/// A line of the dashboard's menu: the padded label and the key.
#[derive(Debug, Clone)]
pub struct MenuLine {
    pub text: String,
    pub key: String,
}

/// The menu's lines: every label padded to the width of the widest, then
/// three spaces, so that the keys line up.
pub fn menu_lines(entries: &Vec<MenuEntry>) -> (lines: Vec<MenuLine>)
    ensures
        lines@.len() == entries@.len(),
        forall|i: int|
            0 <= i < entries@.len() ==> {
                &&& (#[trigger] lines@[i]).text@ == padded(
                    entries@[i].label@,
                    widest(entry_views(entries@)),
                )
                &&& lines@[i].key@ == entries@[i].key@
            },
{
    let ghost ev = entry_views(entries@);
    let mut width: usize = 0;
    let mut i: usize = 0;
    while i < entries.len()
        invariant
            i <= entries@.len(),
            ev == entry_views(entries@),
            width == widest(ev.take(i as int)),
        decreases entries@.len() - i,
    {
        let n: usize = crate::text::chars_of(entries[i].label.as_str()).len();
        assert(ev.take(i + 1).drop_last() =~= ev.take(i as int));
        assert(ev.take(i + 1).last().0 == entries@[i as int].label@);
        if n > width {
            width = n;
        }
        i = i + 1;
    }
    assert(ev.take(entries@.len() as int) =~= ev);
    let mut lines: Vec<MenuLine> = Vec::new();
    let mut k: usize = 0;
    while k < entries.len()
        invariant
            k <= entries@.len(),
            ev == entry_views(entries@),
            width == widest(ev),
            lines@.len() == k,
            forall|j: int|
                0 <= j < k ==> {
                    &&& (#[trigger] lines@[j]).text@ == padded(entries@[j].label@, width as nat)
                    &&& lines@[j].key@ == entries@[j].key@
                },
        decreases entries@.len() - k,
    {
        let e = &entries[k];
        let mut text = e.label.clone();
        let len: usize = crate::text::chars_of(e.label.as_str()).len();
        let fill: usize = if width > len {
            width - len
        } else {
            0
        };
        let mut f: usize = 0;
        while f < fill
            invariant
                f <= fill,
                text@ == e.label@ + spaces(f as nat),
            decreases fill - f,
        {
            push_char(&mut text, ' ');
            f = f + 1;
            assert(text@ =~= e.label@ + spaces(f as nat));
        }
        let ghost filled = text@;
        text.append("   ");
        proof {
            reveal_strlit("   ");
            assert("   "@ =~= spaces(3));
        }
        assert(text@ =~= padded(e.label@, width as nat));
        lines.push(MenuLine { text, key: e.key.clone() });
        k = k + 1;
    }
    lines
}

/// No label is wider than the widest.
pub proof fn lemma_widest_bounds(es: Seq<(Seq<char>, Seq<char>)>, i: int)
    requires
        0 <= i < es.len(),
    ensures
        es[i].0.len() <= widest(es),
    decreases es.len(),
{
    if i < es.len() - 1 {
        lemma_widest_bounds(es.drop_last(), i);
    }
}

/// The keys of the menu line up: every padded label is three characters
/// wider than the widest label, and starts with its label.
pub proof fn law_menu_keys_line_up(es: Seq<(Seq<char>, Seq<char>)>, i: int)
    requires
        0 <= i < es.len(),
    ensures
        padded(es[i].0, widest(es)).len() == widest(es) + 3,
        padded(es[i].0, widest(es)).take(es[i].0.len() as int) == es[i].0,
{
    lemma_widest_bounds(es, i);
    assert(padded(es[i].0, widest(es)).take(es[i].0.len() as int) =~= es[i].0);
}

} // verus!
