//! The contribution grid: one tile per day for the last 30 days, laid out
//! in weeks from Monday, brighter the busier the day.
use vstd::prelude::*;
use crate::bridge::{date_key, iso_date_text};
use crate::counts::{count_in, DayCounts};
use crate::store::day_key_text;
use crate::types::{max_day, min_day, utc_day, Timestamp};

verus! {

/// The colour of a day's tile, by how many commits it holds.
pub open spec fn shade(count: u32) -> (u8, u8, u8) {
    if count == 0 {
        (22, 33, 28)
    } else if count <= 2 {
        (15, 61, 42)
    } else if count <= 4 {
        (28, 125, 82)
    } else if count <= 7 {
        (39, 163, 111)
    } else {
        (52, 209, 127)
    }
}

/// The tile colour (red, green, blue) for a day with `count` commits.
pub fn shade_for(count: u32) -> (r: (u8, u8, u8))
    ensures
        r == shade(count),
{
    if count == 0 {
        (22, 33, 28)
    } else if count <= 2 {
        (15, 61, 42)
    } else if count <= 4 {
        (28, 125, 82)
    } else if count <= 7 {
        (39, 163, 111)
    } else {
        (52, 209, 127)
    }
}

/// Busier days are brighter: more commits never give a tile less green or
/// less blue, and any commit at all gives more green than none.
pub proof fn law_busier_is_brighter(a: u32, b: u32)
    requires
        a <= b,
    ensures
        shade(a).1 <= shade(b).1,
        shade(a).2 <= shade(b).2,
        a == 0 && b > 0 ==> shade(a).1 < shade(b).1,
{
}

/// The number of days the grid shows.
pub open spec fn grid_days() -> int {
    30
}

/// The weekday of a day, 0 for Monday up to 6 for Sunday: day 1, January 1
/// of year 1, is a Monday in the proleptic Gregorian calendar, and the
/// weekdays repeat every seven days from there.
pub open spec fn weekday(day: int) -> int {
    (day - 1) % 7
}

/// The weekday of a day number, 0 for Monday up to 6 for Sunday.
pub fn weekday_of(day: i32) -> (r: u32)
    ensures
        r as int == weekday(day as int),
{
    let w: i64 = (day as i64 - 1).checked_rem_euclid(7).unwrap();
    w as u32
}

/// The grid to draw: how many blank cells come before the first day so that
/// it sits under its weekday, and each day's count, oldest first.
#[derive(Debug)]
pub struct GridPlan {
    pub pad: u32,
    pub tiles: Vec<u32>,
}

/// The first day the grid shows when today is `today`.
pub open spec fn grid_start(today: int) -> int {
    today - (grid_days() - 1)
}

impl GridPlan {
    /// The grid of the 30 days up to and including `today` (counted from
    /// January 1 of year 1), with the given stored counts per day key.
    pub fn for_days(today: i32, counts: &DayCounts) -> (r: GridPlan)
        requires
            min_day() + grid_days() - 1 <= today <= max_day(),
            counts.well_formed(),
        ensures
            r.pad as int == weekday(grid_start(today as int)),
            r.tiles@.len() == grid_days(),
            forall|i: int|
                0 <= i < grid_days() ==> r.tiles@[i] == count_in(
                    counts@,
                    iso_date_text(grid_start(today as int) + i),
                ),
    {
        let start: i32 = today - 29;
        let pad: u32 = weekday_of(start);
        let mut tiles: Vec<u32> = Vec::new();
        let mut i: i32 = 0;
        while i < 30
            invariant
                0 <= i <= 30,
                start == grid_start(today as int),
                min_day() <= start,
                start + 29 <= max_day(),
                tiles@.len() == i,
                forall|j: int|
                    0 <= j < i ==> tiles@[j] == count_in(
                        counts@,
                        iso_date_text(start + j),
                    ),
                counts.well_formed(),
            decreases 30 - i,
        {
            let key = date_key(start + i);
            let n: u32 = counts.count(&key);
            tiles.push(n);
            i = i + 1;
        }
        GridPlan { pad, tiles }
    }
}

/// The cells of the grid in reading order: `pad` blanks, then the tiles.
pub open spec fn grid_cells(pad: int, tiles: Seq<u32>) -> Seq<Option<u32>> {
    Seq::new(pad as nat, |i: int| None::<u32>) + tiles.map_values(|t: u32| Some(t))
}

/// How many rows of seven hold `n` cells.
pub open spec fn rows_for(n: int) -> int {
    (n + 6) / 7
}

/// Row `r` of the grid: cells `7r` up to `7r + 7`, or to the last cell.
pub open spec fn grid_row(cells: Seq<Option<u32>>, r: int) -> Seq<Option<u32>> {
    cells.subrange(7 * r, if 7 * r + 7 < cells.len() { 7 * r + 7 } else { cells.len() as int })
}

/// Lays the tiles out in weeks: a row per week, Monday first, the first row
/// starting with `pad` blank cells. Day `i` sits in row `(pad + i) / 7`,
/// column `(pad + i) % 7`.
pub fn grid_rows(pad: u32, tiles: &Vec<u32>) -> (rows: Vec<Vec<Option<u32>>>)
    requires
        pad < 7,
        tiles@.len() + 14 <= usize::MAX,
    ensures
        rows@.len() == rows_for(pad + tiles@.len()),
        forall|r: int|
            0 <= r < rows@.len() ==> #[trigger] rows@[r]@ == grid_row(
                grid_cells(pad as int, tiles@),
                r,
            ),
        forall|i: int|
            0 <= i < tiles@.len() ==> rows@[(pad + i) / 7]@[(pad + i) % 7] == Some(
                #[trigger] tiles@[i],
            ),
{
    let ghost cells = grid_cells(pad as int, tiles@);
    let mut flat: Vec<Option<u32>> = Vec::new();
    let mut k: u32 = 0;
    while k < pad
        invariant
            k <= pad,
            flat@ == Seq::new(k as nat, |i: int| None::<u32>),
        decreases pad - k,
    {
        flat.push(None);
        k = k + 1;
        assert(flat@ =~= Seq::new(k as nat, |i: int| None::<u32>));
    }
    let mut j: usize = 0;
    while j < tiles.len()
        invariant
            j <= tiles@.len(),
            flat@ == grid_cells(pad as int, tiles@.take(j as int)),
        decreases tiles@.len() - j,
    {
        flat.push(Some(tiles[j]));
        j = j + 1;
        assert(flat@ =~= grid_cells(pad as int, tiles@.take(j as int)));
    }
    assert(tiles@.take(tiles@.len() as int) =~= tiles@);
    assert(flat@ == cells);
    let n: usize = flat.len();
    let mut rows: Vec<Vec<Option<u32>>> = Vec::new();
    let mut start: usize = 0;
    while start < n
        invariant
            flat@ == cells,
            n == cells.len(),
            n <= usize::MAX - 7,
            start == 7 * rows@.len(),
            start <= n + 6,
            start < n || rows@.len() == rows_for(n as int),
            forall|r: int| 0 <= r < rows@.len() ==> #[trigger] rows@[r]@ == grid_row(cells, r),
        decreases n + 7 - start,
    {
        let end: usize = if start + 7 < n {
            start + 7
        } else {
            n
        };
        let mut row: Vec<Option<u32>> = Vec::new();
        let mut c: usize = start;
        while c < end
            invariant
                start <= c <= end <= n,
                n == cells.len(),
                flat@ == cells,
                row@ == cells.subrange(start as int, c as int),
            decreases end - c,
        {
            row.push(flat[c]);
            c = c + 1;
            assert(row@ =~= cells.subrange(start as int, c as int));
        }
        let ghost before = rows@;
        rows.push(row);
        assert(rows@[before.len() as int]@ == grid_row(cells, before.len() as int));
        start = start + 7;
    }
    assert forall|i: int| 0 <= i < tiles@.len() implies rows@[(pad + i) / 7]@[(pad + i) % 7]
        == Some(#[trigger] tiles@[i]) by {
        let r: int = (pad + i) / 7;
        let c: int = (pad + i) % 7;
        assert(7 * r + c == pad + i);
        assert(cells[pad + i] == Some(tiles@[i]));
        assert(0 <= r < rows@.len());
        assert(rows@[r]@ == grid_row(cells, r));
    }
    rows
}

/// Each day of the grid sits under its own weekday: the column of day `i`
/// (counted from the grid's first day, after `pad` blanks) is that day's
/// weekday.
pub proof fn law_tiles_sit_under_their_weekday(today: int, i: int)
    requires
        0 <= i < grid_days(),
    ensures
        (weekday(grid_start(today)) + i) % 7 == weekday(grid_start(today) + i),
{
}

/// A commit lights the tile of the day it was made on: when its UTC day is
/// the grid's `i`-th day, the count that tile shows is the count stored under
/// the commit's day key.
pub proof fn law_commit_lights_its_day(
    today: int,
    i: int,
    t: Timestamp,
    counts: Map<Seq<char>, u32>,
)
    requires
        0 <= i < grid_days(),
        utc_day(t.secs as int) == grid_start(today) + i,
    ensures
        count_in(counts, iso_date_text(grid_start(today) + i)) == count_in(
            counts,
            day_key_text(t),
        ),
{
}

} // verus!
