//! How a commit is written as a stored row, and read back from one.
use vstd::prelude::*;
use vstd::string::StringExecFns;
use crate::bridge::{
    date_key, instant_from_text, iso_date_text, rfc3339_instant, rfc3339_of, rfc3339_text,
    uuid_from_text, uuid_parsed, uuid_text, uuid_to_text,
};
use crate::types::{
    law_pillar_name_reads_back, opt_text, pillar_name, pillar_or_life, trailer_views, utc_day,
    Commit, CommitView, Pillar, Timestamp, Trailer,
};

verus! {

/// The stored columns of a commit (its trailers are stored apart).
#[derive(Debug, Clone)]
pub struct CommitRow {
    pub id: String,
    pub pillar: String,
    pub scope: Option<String>,
    pub subject: String,
    pub body: Option<String>,
    pub is_highlight: bool,
    pub created_at: String,
}

/// The model of a stored row.
pub struct RowView {
    pub id: Seq<char>,
    pub pillar: Seq<char>,
    pub scope: Option<Seq<char>>,
    pub subject: Seq<char>,
    pub body: Option<Seq<char>>,
    pub is_highlight: bool,
    pub created_at: Seq<char>,
}

impl View for CommitRow {
    type V = RowView;

    open spec fn view(&self) -> RowView {
        RowView {
            id: self.id@,
            pillar: self.pillar@,
            scope: opt_text(self.scope),
            subject: self.subject@,
            body: opt_text(self.body),
            is_highlight: self.is_highlight,
            created_at: self.created_at@,
        }
    }
}

/// The row written for a commit: its id as hyphenated text, its pillar's
/// name, its moment as RFC 3339 text, the rest as it is.
pub open spec fn row_of(c: CommitView) -> RowView {
    RowView {
        id: uuid_text(c.id),
        pillar: pillar_name(c.pillar),
        scope: c.scope,
        subject: c.subject,
        body: c.body,
        is_highlight: c.is_highlight,
        created_at: rfc3339_text(c.created_at.secs as int, c.created_at.nanos as int),
    }
}

/// The commit read from a row and its trailers, given what the id and moment
/// texts were read as.
pub open spec fn commit_of_row(
    row: RowView,
    trailers: Seq<(Seq<char>, Seq<char>)>,
    id: Option<u128>,
    at: Option<(i64, u32)>,
) -> Option<CommitView> {
    match (id, at) {
        (Some(id), Some((secs, nanos))) => Some(
            CommitView {
                id,
                pillar: pillar_or_life(row.pillar),
                scope: row.scope,
                subject: row.subject,
                body: row.body,
                trailers,
                is_highlight: row.is_highlight,
                created_at: Timestamp { secs, nanos },
            },
        ),
        _ => None,
    }
}

/// The text of a day key: the UTC calendar day of a moment, `YYYY-MM-DD`.
pub open spec fn day_key_text(t: Timestamp) -> Seq<char> {
    iso_date_text(utc_day(t.secs as int))
}

/// A copy of an optional text.
fn copy_opt(o: &Option<String>) -> (r: Option<String>)
    ensures
        opt_text(r) == opt_text(*o),
{
    match o {
        Some(s) => Some(s.clone()),
        None => None,
    }
}

impl Commit {
    /// The row stored for this commit.
    pub fn to_row(&self) -> (r: CommitRow)
        requires
            self.created_at.valid(),
        ensures
            r@ == row_of(self@),
    {
        CommitRow {
            id: uuid_to_text(self.id),
            pillar: String::from_str(self.pillar.as_str()),
            scope: copy_opt(&self.scope),
            subject: self.subject.clone(),
            body: copy_opt(&self.body),
            is_highlight: self.is_highlight,
            created_at: rfc3339_of(self.created_at),
        }
    }

    /// The key of the UTC calendar day the commit was made on, `YYYY-MM-DD`:
    /// the day it is filed under.
    pub fn day_key(&self) -> (r: String)
        requires
            self.created_at.valid(),
        ensures
            r@ == day_key_text(self.created_at),
    {
        let q: i64 = self.created_at.secs.checked_div_euclid(86400).unwrap();
        let day: i32 = (q + 719163) as i32;
        date_key(day)
    }

    /// Reads a commit back from its stored row and trailers. `None` where the
    /// id or the moment text cannot be read. A row written for a commit of a
    /// year from 0 to 9999, with that commit's trailers, reads back as that
    /// very commit.
    pub fn from_row(row: CommitRow, trailers: Vec<Trailer>) -> (r: Option<Commit>)
        ensures
            match r {
                Some(c) => commit_of_row(
                    row@,
                    trailer_views(trailers@),
                    uuid_parsed(row.id@),
                    rfc3339_instant(row.created_at@),
                ) == Some(c@) && c.created_at.valid(),
                None => commit_of_row(
                    row@,
                    trailer_views(trailers@),
                    uuid_parsed(row.id@),
                    rfc3339_instant(row.created_at@),
                ) is None,
            },
            forall|c: CommitView|
                #![trigger row_of(c)]
                row@ == row_of(c) && c.created_at.valid() && c.created_at.four_digit_year()
                    && trailer_views(trailers@) == c.trailers ==> (r matches Some(d) && d@ == c),
    {
        let ghost rv = row@;
        let ghost tv = trailer_views(trailers@);
        let id = uuid_from_text(row.id.as_str());
        let at = instant_from_text(row.created_at.as_str());
        let pillar = Pillar::from_str(row.pillar.as_str());
        proof {
            assert forall|c: CommitView|
                #![trigger row_of(c)]
                rv == row_of(c) && c.created_at.valid() && c.created_at.four_digit_year() && tv
                    == c.trailers implies id == Some(c.id) && at == Some(c.created_at)
                && pillar == c.pillar by {
                law_pillar_name_reads_back(c.pillar);
            }
        }
        match (id, at) {
            (Some(id), Some(at)) => Some(
                Commit {
                    id,
                    pillar,
                    scope: row.scope,
                    subject: row.subject,
                    body: row.body,
                    trailers,
                    is_highlight: row.is_highlight,
                    created_at: at,
                },
            ),
            _ => None,
        }
    }
}

} // verus!
