//! Snapshots of the ranking and their history.

use vstd::prelude::*;

use crate::date::Iso8601Date;
use crate::id::{GameId, GameIdView};

verus! {

/// One snapshot of the ranking: identities by rank, the top first.
#[derive(Debug)]
pub struct List(pub Vec<GameId>);

impl List {
    /// The identities of the snapshot, by rank.
    pub open spec fn ids(self) -> Seq<GameIdView> {
        self.0@.map_values(|g: GameId| g@)
    }
}

/// Entries strictly ordered by date.
pub open spec fn dates_increasing(s: Seq<(Iso8601Date, List)>) -> bool {
    forall|i: int, j: int| 0 <= i < j < s.len() ==> s[i].0.day < s[j].0.day
}

/// The history of snapshots, one per observation date, oldest first.
#[derive(Debug)]
pub struct Lists {
    entries: Vec<(Iso8601Date, List)>,
}

impl View for Lists {
    type V = Seq<(Iso8601Date, List)>;

    closed spec fn view(&self) -> Seq<(Iso8601Date, List)> {
        self.entries@
    }
}

impl Lists {
    /// Dates are unique and entries ordered by them.
    pub open spec fn wf(&self) -> bool {
        dates_increasing(self@)
    }

    /// An empty history.
    pub fn new() -> (r: Lists)
        ensures
            r.wf(),
            r@ == Seq::<(Iso8601Date, List)>::empty(),
    {
        Lists { entries: Vec::new() }
    }

    /// The number of snapshots.
    pub fn len(&self) -> (r: usize)
        ensures
            r == self@.len(),
    {
        self.entries.len()
    }

    /// The snapshots with their dates, oldest first.
    pub fn entries(&self) -> (r: &Vec<(Iso8601Date, List)>)
        ensures
            r@ == self@,
    {
        &self.entries
    }

    /// Records the snapshot `list` of `date`, replacing any snapshot of the
    /// same date.
    pub fn insert(&mut self, date: Iso8601Date, list: List)
        requires
            old(self).wf(),
        ensures
            final(self).wf(),
            final(self)@.contains((date, list)),
            forall|e: (Iso8601Date, List)|
                old(self)@.contains(e) && e.0 != date ==> final(self)@.contains(e),
            forall|e: (Iso8601Date, List)|
                final(self)@.contains(e) ==> e == (date, list) || (old(self)@.contains(e) && e.0
                    != date),
    {
        let ghost before = self@;
        let mut p: usize = 0;
        while p < self.entries.len() && self.entries[p].0.day < date.day
            invariant
                p <= self.entries@.len(),
                self.entries@ == before,
                forall|k: int| 0 <= k < p ==> before[k].0.day < date.day,
            decreases self.entries@.len() - p,
        {
            p += 1;
        }
        if p < self.entries.len() && self.entries[p].0.day == date.day {
            self.entries.set(p, (date, list));
            proof {
                let after = self@;
                assert(after[p as int] == (date, list));
                assert forall|e: (Iso8601Date, List)|
                    before.contains(e) && e.0 != date implies after.contains(e) by {
                    let k = choose|k: int| 0 <= k < before.len() && before[k] == e;
                    assert(k != p);
                    assert(after[k] == e);
                }
                assert forall|e: (Iso8601Date, List)| after.contains(e) implies e == (date, list)
                    || (before.contains(e) && e.0 != date) by {
                    let k = choose|k: int| 0 <= k < after.len() && after[k] == e;
                    if k != p {
                        assert(before[k] == e);
                        if k < p {
                            assert(before[k].0.day < date.day);
                        } else {
                            assert(before[p as int].0.day < before[k].0.day);
                        }
                    }
                }
            }
        } else {
            proof {
                assert forall|k: int| p <= k < before.len() implies before[k].0.day
                    > date.day by {
                    if k > p {
                        assert(before[p as int].0.day < before[k].0.day);
                    }
                }
            }
            self.entries.insert(p, (date, list));
            proof {
                let after = self@;
                assert(after[p as int] == (date, list));
                assert forall|e: (Iso8601Date, List)|
                    before.contains(e) && e.0 != date implies after.contains(e) by {
                    let k = choose|k: int| 0 <= k < before.len() && before[k] == e;
                    if k < p {
                        assert(after[k] == e);
                    } else {
                        assert(after[k + 1] == e);
                    }
                }
                assert forall|e: (Iso8601Date, List)| after.contains(e) implies e == (date, list)
                    || (before.contains(e) && e.0 != date) by {
                    let k = choose|k: int| 0 <= k < after.len() && after[k] == e;
                    if k < p {
                        assert(before[k] == e);
                    } else if k > p {
                        assert(before[k - 1] == e);
                    }
                }
                assert forall|i: int, j: int| 0 <= i < j < after.len() implies after[i].0.day
                    < after[j].0.day by {
                    if j < p {
                    } else if j == p {
                        assert(after[i] == before[i]);
                    } else if i < p {
                        assert(after[i] == before[i] && after[j] == before[j - 1]);
                    } else if i == p {
                        assert(after[j] == before[j - 1]);
                    } else {
                        assert(after[i] == before[i - 1] && after[j] == before[j - 1]);
                    }
                }
            }
        }
    }

    /// The snapshot of the latest date, if there is any snapshot.
    pub fn latest(&self) -> (r: Option<&List>)
        ensures
            r is Some <==> self@.len() > 0,
            r matches Some(l) ==> *l == self@.last().1,
    {
        if self.entries.len() == 0 {
            None
        } else {
            Some(&self.entries[self.entries.len() - 1].1)
        }
    }

    /// The snapshot of the second-latest date, if there are two snapshots.
    pub fn penultimate(&self) -> (r: Option<&List>)
        ensures
            r is Some <==> self@.len() > 1,
            r matches Some(l) ==> *l == self@[self@.len() - 2].1,
    {
        if self.entries.len() < 2 {
            None
        } else {
            Some(&self.entries[self.entries.len() - 2].1)
        }
    }

    /// All observation dates, in increasing order.
    pub fn dates(&self) -> (r: Vec<Iso8601Date>)
        ensures
            r@ == self@.map_values(|e: (Iso8601Date, List)| e.0),
    {
        let mut r: Vec<Iso8601Date> = Vec::new();
        let mut i: usize = 0;
        while i < self.entries.len()
            invariant
                i <= self.entries@.len(),
                r@ == self.entries@.subrange(0, i as int).map_values(
                    |e: (Iso8601Date, List)| e.0,
                ),
            decreases self.entries@.len() - i,
        {
            r.push(self.entries[i].0);
            proof {
                assert(self.entries@.subrange(0, i + 1).map_values(|e: (Iso8601Date, List)| e.0)
                    =~= r@);
            }
            i += 1;
        }
        proof {
            assert(self.entries@.subrange(0, i as int) =~= self.entries@);
        }
        r
    }
}

} // verus!
