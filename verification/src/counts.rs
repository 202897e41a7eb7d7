//! The commit count of each day, keyed by the day's `YYYY-MM-DD` text, each
//! day at most once.
use vstd::prelude::*;

verus! {

/// The map that a list of (day, count) pairs describes; a later pair for a
/// day replaces an earlier one.
pub open spec fn map_of(s: Seq<(Seq<char>, u32)>) -> Map<Seq<char>, u32>
    decreases s.len(),
{
    if s.len() == 0 {
        Map::empty()
    } else {
        map_of(s.drop_last()).insert(s.last().0, s.last().1)
    }
}

/// No day occurs twice in the list.
pub open spec fn days_unique(s: Seq<(Seq<char>, u32)>) -> bool {
    forall|i: int, j: int| 0 <= i < j < s.len() ==> s[i].0 != s[j].0
}

/// How many commits the day `key` holds: its stored count, 0 if it has none.
pub open spec fn count_in(m: Map<Seq<char>, u32>, key: Seq<char>) -> u32 {
    if m.contains_key(key) {
        m[key]
    } else {
        0
    }
}

/// The commit counts of days, as the store groups them.
pub struct DayCounts {
    entries: Vec<(String, u32)>,
}

impl DayCounts {
    /// The models of the stored pairs, in order.
    pub closed spec fn pairs(self) -> Seq<(Seq<char>, u32)> {
        self.entries@.map_values(|e: (String, u32)| (e.0@, e.1))
    }

    /// Each day is stored at most once.
    pub closed spec fn well_formed(self) -> bool {
        days_unique(self.pairs())
    }
}

impl View for DayCounts {
    type V = Map<Seq<char>, u32>;

    closed spec fn view(&self) -> Map<Seq<char>, u32> {
        map_of(self.pairs())
    }
}

/// A day is in the map of a list exactly when some pair names it; with no day
/// twice, its count is that pair's.
proof fn lemma_map_of_lookup(s: Seq<(Seq<char>, u32)>, k: Seq<char>)
    ensures
        map_of(s).contains_key(k) <==> exists|j: int| 0 <= j < s.len() && s[j].0 == k,
        days_unique(s) ==> forall|j: int|
            0 <= j < s.len() && s[j].0 == k ==> map_of(s)[k] == #[trigger] s[j].1,
    decreases s.len(),
{
    if s.len() > 0 {
        let d = s.drop_last();
        lemma_map_of_lookup(d, k);
        if map_of(s).contains_key(k) && s.last().0 != k {
            let j = choose|j: int| 0 <= j < d.len() && d[j].0 == k;
            assert(s[j] == d[j]);
        }
        if exists|j: int| 0 <= j < s.len() && s[j].0 == k {
            let j = choose|j: int| 0 <= j < s.len() && s[j].0 == k;
            if j < s.len() - 1 {
                assert(d[j] == s[j]);
            }
        }
        if days_unique(s) {
            assert(days_unique(d)) by {
                assert forall|a: int, b: int| 0 <= a < b < d.len() implies d[a].0 != d[b].0 by {
                    assert(d[a] == s[a] && d[b] == s[b]);
                }
            }
            assert forall|j: int| 0 <= j < s.len() && s[j].0 == k implies map_of(s)[k]
                == #[trigger] s[j].1 by {
                if j < s.len() - 1 {
                    assert(d[j] == s[j]);
                    assert(s.last().0 != k);
                }
            }
        }
    }
}

/// Changing the count of a day already in a list without repeats changes
/// only that day in its map.
proof fn lemma_map_of_update(s: Seq<(Seq<char>, u32)>, i: int, c: u32)
    requires
        days_unique(s),
        0 <= i < s.len(),
    ensures
        map_of(s.update(i, (s[i].0, c))) == map_of(s).insert(s[i].0, c),
    decreases s.len(),
{
    let k = s[i].0;
    let u = s.update(i, (k, c));
    let d = s.drop_last();
    if i == s.len() - 1 {
        assert(u.drop_last() =~= d);
        assert(map_of(u) =~= map_of(s).insert(k, c));
    } else {
        assert(days_unique(d)) by {
            assert forall|a: int, b: int| 0 <= a < b < d.len() implies d[a].0 != d[b].0 by {
                assert(d[a] == s[a] && d[b] == s[b]);
            }
        }
        assert(d[i] == s[i]);
        lemma_map_of_update(d, i, c);
        assert(u.drop_last() =~= d.update(i, (k, c)));
        assert(u.last() == s.last());
        assert(s.last().0 != k);
        assert(map_of(u) =~= map_of(s).insert(k, c));
    }
}

impl DayCounts {
    /// No days yet.
    pub fn new() -> (r: DayCounts)
        ensures
            r.well_formed(),
            r@ == Map::<Seq<char>, u32>::empty(),
    {
        let r = DayCounts { entries: Vec::new() };
        assert(r.pairs() =~= Seq::<(Seq<char>, u32)>::empty());
        r
    }

    /// Stores `count` for `day`, replacing any count it had.
    pub fn insert(&mut self, day: String, count: u32)
        requires
            old(self).well_formed(),
        ensures
            final(self).well_formed(),
            final(self)@ == old(self)@.insert(day@, count),
    {
        let ghost s = self.pairs();
        let mut i: usize = 0;
        while i < self.entries.len()
            invariant
                s == self.pairs(),
                s == old(self).pairs(),
                days_unique(s),
                i <= self.entries@.len(),
                forall|j: int| 0 <= j < i ==> s[j].0 != day@,
            decreases self.entries@.len() - i,
        {
            assert(s[i as int] == (self.entries@[i as int].0@, self.entries@[i as int].1));
            if self.entries[i].0 == day {
                proof {
                    lemma_map_of_update(s, i as int, count);
                }
                let ghost u = s.update(i as int, (day@, count));
                assert(days_unique(u)) by {
                    assert forall|a: int, b: int| 0 <= a < b < u.len() implies u[a].0 != u[b].0 by {
                        assert(u[a].0 == s[a].0 && u[b].0 == s[b].0);
                    }
                }
                assert(s[i as int].0 == day@);
                assert(u == s.update(i as int, (s[i as int].0, count)));
                self.entries.set(i, (day, count));
                assert(self.pairs() =~= u);
                assert(map_of(self.pairs()) == map_of(s).insert(day@, count));
                return;
            }
            i = i + 1;
        }
        let ghost u = s.push((day@, count));
        assert(days_unique(u)) by {
            assert forall|a: int, b: int| 0 <= a < b < u.len() implies u[a].0 != u[b].0 by {
                if b == s.len() {
                    assert(u[a] == s[a]);
                } else {
                    assert(u[a] == s[a] && u[b] == s[b]);
                }
            }
        }
        self.entries.push((day, count));
        assert(self.pairs() =~= u);
        assert(u.drop_last() =~= s);
    }

    /// The count stored for `day`, 0 if it has none.
    pub fn count(&self, day: &String) -> (r: u32)
        requires
            self.well_formed(),
        ensures
            r == count_in(self@, day@),
    {
        let ghost s = self.pairs();
        let mut i: usize = 0;
        while i < self.entries.len()
            invariant
                s == self.pairs(),
                days_unique(s),
                i <= self.entries@.len(),
                forall|j: int| 0 <= j < i ==> s[j].0 != day@,
            decreases self.entries@.len() - i,
        {
            assert(s[i as int] == (self.entries@[i as int].0@, self.entries@[i as int].1));
            if self.entries[i].0 == *day {
                proof {
                    lemma_map_of_lookup(s, day@);
                    assert(s[i as int].1 == self.entries@[i as int].1);
                }
                return self.entries[i].1;
            }
            i = i + 1;
        }
        proof {
            lemma_map_of_lookup(s, day@);
        }
        0
    }
}

} // verus!
