//! The metadata store.

use vstd::prelude::*;

use crate::id::{GameId, GameIdView};
use crate::meta::Meta;

verus! {

/// Whether some record of `s` has the identity `id`.
pub open spec fn has_id(s: Seq<Meta>, id: GameIdView) -> bool {
    exists|i: int| 0 <= i < s.len() && s[i].id@ == id
}

/// No two records of `s` share an identity.
pub open spec fn unique_ids(s: Seq<Meta>) -> bool {
    forall|i: int, j: int| 0 <= i < j < s.len() ==> s[i].id@ != s[j].id@
}

/// The records `s` after storing `m`: it takes the place of the record with
/// the same identity, or else comes last.
pub open spec fn with_record(s: Seq<Meta>, m: Meta) -> Seq<Meta> {
    if has_id(s, m.id@) {
        s.update(choose|i: int| 0 <= i < s.len() && s[i].id@ == m.id@, m)
    } else {
        s.push(m)
    }
}

/// The records `s` after storing each of `new` in turn (a later record with
/// an identity seen before replaces the earlier one).
pub open spec fn with_records(s: Seq<Meta>, new: Seq<Meta>) -> Seq<Meta>
    decreases new.len(),
{
    if new.len() == 0 {
        s
    } else {
        with_record(with_records(s, new.drop_last()), new.last())
    }
}

/// The metadata store: one record per identity, in the order in which the
/// identities were first stored.
#[derive(Debug)]
pub struct Metas {
    records: Vec<Meta>,
}

impl View for Metas {
    type V = Seq<Meta>;

    closed spec fn view(&self) -> Seq<Meta> {
        self.records@
    }
}

proof fn lemma_with_record_unique(s: Seq<Meta>, m: Meta)
    requires
        unique_ids(s),
    ensures
        unique_ids(with_record(s, m)),
        has_id(with_record(s, m), m.id@),
        forall|id: GameIdView| has_id(s, id) ==> has_id(with_record(s, m), id),
        forall|id: GameIdView|
            #[trigger] has_id(with_record(s, m), id) ==> has_id(s, id) || id == m.id@,
{
    let r = with_record(s, m);
    if has_id(s, m.id@) {
        let k = choose|i: int| 0 <= i < s.len() && s[i].id@ == m.id@;
        assert(r[k] == m);
        assert forall|id: GameIdView| has_id(s, id) implies has_id(r, id) by {
            let i = choose|i: int| 0 <= i < s.len() && s[i].id@ == id;
            if i == k {
                assert(r[k].id@ == id);
            } else {
                assert(r[i].id@ == id);
            }
        }
        assert forall|id: GameIdView| #[trigger] has_id(r, id) implies has_id(s, id) || id == m.id@ by {
            let i = choose|i: int| 0 <= i < r.len() && r[i].id@ == id;
            if i != k {
                assert(s[i].id@ == id);
            }
        }
    } else {
        assert(r[s.len() as int] == m);
        assert forall|id: GameIdView| has_id(s, id) implies has_id(r, id) by {
            let i = choose|i: int| 0 <= i < s.len() && s[i].id@ == id;
            assert(r[i].id@ == id);
        }
        assert forall|id: GameIdView| #[trigger] has_id(r, id) implies has_id(s, id) || id == m.id@ by {
            let i = choose|i: int| 0 <= i < r.len() && r[i].id@ == id;
            if i < s.len() {
                assert(s[i].id@ == id);
            }
        }
    }
}

proof fn lemma_store_distinct(s: Seq<Meta>)
    requires
        unique_ids(s),
    ensures
        with_records(Seq::empty(), s) == s,
    decreases s.len(),
{
    if s.len() > 0 {
        let front = s.drop_last();
        assert(unique_ids(front));
        lemma_store_distinct(front);
        assert(!has_id(front, s.last().id@)) by {
            if has_id(front, s.last().id@) {
                let i = choose|i: int| 0 <= i < front.len() && front[i].id@ == s.last().id@;
                assert(s[i].id@ == s[s.len() - 1].id@);
            }
        }
        assert(front.push(s.last()) =~= s);
    }
}

/// Writing a well-formed store out as its list of records and reading that
/// list back gives the same store, record for record and in the same order.
pub proof fn lemma_round_trip(m: Metas)
    requires
        m.wf(),
    ensures
        with_records(Seq::empty(), m@) == m@,
{
    lemma_store_distinct(m@);
}

impl Metas {
    /// Each identity has at most one record.
    pub open spec fn wf(&self) -> bool {
        unique_ids(self@)
    }

    /// An empty store.
    pub fn new() -> (r: Metas)
        ensures
            r.wf(),
            r@ == Seq::<Meta>::empty(),
    {
        Metas { records: Vec::new() }
    }

    /// The number of records.
    pub fn len(&self) -> (r: usize)
        ensures
            r == self@.len(),
    {
        self.records.len()
    }

    /// The records, in store order.
    pub fn records(&self) -> (r: &Vec<Meta>)
        ensures
            r@ == self@,
    {
        &self.records
    }

    /// The position of the record with identity `id`, if there is one.
    fn position(&self, id: &GameId) -> (r: Option<usize>)
        ensures
            r is Some <==> has_id(self@, id@),
            r matches Some(i) ==> i < self@.len() && self@[i as int].id@ == id@,
    {
        let mut i: usize = 0;
        while i < self.records.len()
            invariant
                i <= self.records@.len(),
                forall|k: int| 0 <= k < i ==> self.records@[k].id@ != id@,
            decreases self.records@.len() - i,
        {
            if self.records[i].id == *id {
                return Some(i);
            }
            i += 1;
        }
        None
    }

    /// Whether the store has a record for `id`.
    pub fn contains(&self, id: &GameId) -> (r: bool)
        ensures
            r == has_id(self@, id@),
    {
        self.position(id).is_some()
    }

    /// The record for `id`, if there is one.
    pub fn get(&self, id: &GameId) -> (r: Option<&Meta>)
        ensures
            r is Some <==> has_id(self@, id@),
            r matches Some(m) ==> m.id@ == id@ && self@.contains(*m),
    {
        match self.position(id) {
            Some(i) => {
                proof {
                    assert(self@[i as int] == self.records@[i as int]);
                }
                Some(&self.records[i])
            },
            None => None,
        }
    }

    /// Stores `meta`: it replaces the record with the same identity, or else
    /// is added last.
    pub fn insert(&mut self, meta: Meta)
        requires
            old(self).wf(),
        ensures
            final(self).wf(),
            final(self)@ == with_record(old(self)@, meta),
    {
        proof {
            lemma_with_record_unique(self@, meta);
        }
        match self.position(&meta.id) {
            Some(i) => {
                proof {
                    let k = choose|k: int| 0 <= k < self@.len() && self@[k].id@ == meta.id@;
                    assert(self@[k].id@ == self@[i as int].id@);
                }
                self.records.set(i, meta);
            },
            None => {
                self.records.push(meta);
            },
        }
    }

    /// Stores each record of `records` in turn.
    pub fn extend(&mut self, records: Vec<Meta>)
        requires
            old(self).wf(),
        ensures
            final(self).wf(),
            final(self)@ == with_records(old(self)@, records@),
    {
        let ghost start = self@;
        let ghost all = records@;
        let ghost mut k: int = 0;
        let mut records = records;
        while records.len() > 0
            invariant
                self.wf(),
                0 <= k <= all.len(),
                records@ == all.subrange(k, all.len() as int),
                self@ == with_records(start, all.subrange(0, k)),
            decreases records.len(),
        {
            let m = records.remove(0);
            proof {
                assert(all.subrange(0, k + 1).drop_last() =~= all.subrange(0, k));
                assert(all.subrange(0, k + 1).last() == m);
                assert(records@ =~= all.subrange(k + 1, all.len() as int));
            }
            self.insert(m);
            proof {
                k = k + 1;
            }
        }
        proof {
            assert(all.subrange(0, k) =~= all);
        }
    }

    /// The store holding `records`, read in order: a later record with an
    /// identity seen before replaces the earlier one.
    pub fn from_records(records: Vec<Meta>) -> (r: Metas)
        ensures
            r.wf(),
            r@ == with_records(Seq::empty(), records@),
    {
        let mut m = Metas::new();
        m.extend(records);
        m
    }
}

impl Default for Metas {
    fn default() -> (r: Metas)
        ensures
            r.wf(),
            r@ == Seq::<Meta>::empty(),
    {
        Metas::new()
    }
}

} // verus!
