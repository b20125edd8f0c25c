//! Derived views over the history and the store: time at the extremes,
//! rankings by rating, rank differences, most common attributes, release
//! date range.

use vstd::prelude::*;

use crate::data::{latest_ids, Data};
use crate::date::Iso8601Date;
use crate::id::{GameId, GameIdView};
use crate::lists::List;
use crate::meta::{rating_key, Meta, Rating, RatingKind};
use crate::order::{is_stable_desc_order, sorted_desc, stable_desc_order, stable_desc_order_of};
use crate::tally::{index_in, lemma_index_in_first, tally, tally_keys};

verus! {

/// The identity at the top (`top`) or at the bottom of a snapshot.
pub open spec fn extremum(l: List, top: bool) -> GameIdView {
    if top {
        l.ids()[0]
    } else {
        l.ids().last()
    }
}

/// For each pair of consecutive dates: the identity at the extremum of the
/// earlier snapshot, and the days until the later date.
pub open spec fn spans(lists: Seq<(Iso8601Date, List)>, top: bool) -> Seq<(GameIdView, (), int)> {
    Seq::new(
        if lists.len() > 0 {
            (lists.len() - 1) as nat
        } else {
            0
        },
        |k: int| (extremum(lists[k].1, top), (), lists[k + 1].0.day - lists[k].0.day),
    )
}

/// Each identity that held the extremum, with the days it held it, longest
/// first (identities with equal totals in the order they first held it).
pub open spec fn extrema_of(lists: Seq<(Iso8601Date, List)>, top: bool) -> Seq<(GameIdView, int)> {
    let t = tally(spans(lists, top));
    sorted_desc(
        t.map_values(|q: (GameIdView, (), int)| (q.0, q.2)),
        t.map_values(|q: (GameIdView, (), int)| q.2 as i128),
    )
}

/// Every snapshot but the latest has an extremum.
pub open spec fn earlier_lists_nonempty(lists: Seq<(Iso8601Date, List)>) -> bool {
    forall|k: int| 0 <= k < lists.len() - 1 ==> (#[trigger] lists[k]).1.0@.len() > 0
}

/// Whether `lo` and `hi` are the least and the greatest release date of
/// `records`.
pub open spec fn is_release_range(records: Seq<Meta>, lo: i64, hi: i64) -> bool {
    &&& exists|i: int| 0 <= i < records.len() && records[i].first_release_date == lo
    &&& exists|i: int| 0 <= i < records.len() && records[i].first_release_date == hi
    &&& forall|i: int|
        0 <= i < records.len() ==> lo <= #[trigger] records[i].first_release_date <= hi
}

/// The records of `s` that have a rating of the given kind, in store order.
pub open spec fn rated(s: Seq<Meta>, kind: RatingKind) -> Seq<Meta>
    decreases s.len(),
{
    if s.len() == 0 {
        Seq::empty()
    } else if s.last().spec_rating(kind) is Some {
        rated(s.drop_last(), kind).push(s.last())
    } else {
        rated(s.drop_last(), kind)
    }
}

/// The sort key of a record's rating of the given kind.
pub open spec fn rating_order(m: Meta, kind: RatingKind) -> i128 {
    match m.spec_rating(kind) {
        Some(x) => rating_key(x.bits) as i128,
        None => 0,
    }
}

/// The rated records of `s`, highest rating first, equal ratings in store
/// order.
pub open spec fn ranked(s: Seq<Meta>, kind: RatingKind) -> Seq<Meta> {
    let r = rated(s, kind);
    sorted_desc(r, r.map_values(|m: Meta| rating_order(m, kind)))
}

proof fn lemma_rated_len(s: Seq<Meta>, kind: RatingKind)
    ensures
        rated(s, kind).len() <= s.len(),
    decreases s.len(),
{
    if s.len() > 0 {
        lemma_rated_len(s.drop_last(), kind);
    }
}

/// For each record of the ranking: its position in the snapshot `latest`
/// minus its position in the ranking.
pub open spec fn rank_diffs(latest: Seq<GameIdView>, ranking: Seq<Meta>) -> Seq<(int, Meta)> {
    Seq::new(ranking.len(), |a: int| (index_in(latest, ranking[a].id@) - a, ranking[a]))
}

/// Every record of the ranking is in the snapshot `latest`.
pub open spec fn all_listed(latest: Seq<GameIdView>, ranking: Seq<Meta>) -> bool {
    forall|a: int| 0 <= a < ranking.len() ==> index_in(latest, #[trigger] ranking[a].id@) >= 0
}

/// The rank differences, smallest first, equal differences in ranking
/// order.
pub open spec fn diffs_of(latest: Seq<GameIdView>, ranking: Seq<Meta>) -> Seq<(int, Meta)> {
    let d = rank_diffs(latest, ranking);
    sorted_desc(d, d.map_values(|p: (int, Meta)| (-p.0) as i128))
}

/// The sequences of `s` one after the other.
pub open spec fn concat_all<T>(s: Seq<Seq<T>>) -> Seq<T>
    decreases s.len(),
{
    if s.len() == 0 {
        Seq::empty()
    } else {
        concat_all(s.drop_last()) + s.last()
    }
}

proof fn lemma_concat_prefix_len<T>(s: Seq<Seq<T>>, i: int)
    requires
        0 <= i <= s.len(),
    ensures
        concat_all(s.subrange(0, i)).len() <= concat_all(s).len(),
    decreases s.len(),
{
    if i < s.len() {
        assert(s.drop_last().subrange(0, i) =~= s.subrange(0, i));
        lemma_concat_prefix_len(s.drop_last(), i);
    } else {
        assert(s.subrange(0, i) =~= s);
    }
}

/// What `extract` returns for a record.
pub open spec fn extract_of<'a, T: 'a, FE: Fn(&'a Meta) -> &'a Vec<T>>(
    m: Meta,
    extract: FE,
) -> Seq<T> {
    (choose|v: &'a Vec<T>| extract.ensures((&m,), v))@
}

/// What `extract` returns for each record of `records`, one after the other.
pub open spec fn extracted<'a, T: 'a, FE: Fn(&'a Meta) -> &'a Vec<T>>(
    records: Seq<Meta>,
    extract: FE,
) -> Seq<T> {
    concat_all(records.map_values(|m: Meta| extract_of(m, extract)))
}

/// The text of the key that `key` gives an item.
pub open spec fn key_of<'a, T: 'a, FK: Fn(&'a T) -> &'a str>(t: T, key: FK) -> Seq<char> {
    (choose|k: &'a str| key.ensures((&t,), k))@
}

/// Each item under its key, with its position and a weight of one.
pub open spec fn keyed<'a, T: 'a, FK: Fn(&'a T) -> &'a str>(items: Seq<T>, key: FK) -> Seq<
    (Seq<char>, int, int),
> {
    Seq::new(items.len(), |i: int| (key_of(items[i], key), i, 1int))
}

/// The groups of a tally of `items`: the size of each and its first item.
pub open spec fn group_sizes<T>(items: Seq<T>, t: Seq<(Seq<char>, int, int)>) -> Seq<(int, T)> {
    t.map_values(|q: (Seq<char>, int, int)| (q.2, items[q.1]))
}

/// For each key of `items`: how many items have it and the first of them;
/// most frequent first, equal counts in the order of the keys' first items.
pub open spec fn most_common_of<'a, T: 'a, FK: Fn(&'a T) -> &'a str>(
    items: Seq<T>,
    key: FK,
) -> Seq<(int, T)> {
    let t = tally(keyed(items, key));
    sorted_desc(group_sizes(items, t), t.map_values(|q: (Seq<char>, int, int)| q.2 as i128))
}

/// Counting no items gives no groups.
pub proof fn lemma_most_common_empty<'a, T: 'a, FK: Fn(&'a T) -> &'a str>(items: Seq<T>, key: FK)
    requires
        items.len() == 0,
    ensures
        most_common_of(items, key) == Seq::<(int, T)>::empty(),
{
    let t = tally(keyed(items, key));
    assert(keyed(items, key) =~= Seq::<(Seq<char>, int, int)>::empty());
    let keys = t.map_values(|q: (Seq<char>, int, int)| q.2 as i128);
    assert(is_stable_desc_order(keys, Seq::<usize>::empty()));
    assert(most_common_of(items, key) =~= Seq::<(int, T)>::empty());
}

impl Data {
    /// The records that have a rating of the given kind, with that rating,
    /// highest first; equal ratings keep store order.
    pub fn igdb_list(&self, kind: RatingKind) -> (r: Vec<(Rating, &Meta)>)
        ensures
            r@.map_values(|p: (Rating, &Meta)| *p.1) == ranked(self.metas@, kind),
            r@.len() == rated(self.metas@, kind).len(),
            forall|a: int| 0 <= a < r@.len() ==> r@[a].1.spec_rating(kind) == Some(r@[a].0),
    {
        let records = self.metas.records();
        let ghost all = rated(self.metas@, kind);
        let mut items: Vec<&Meta> = Vec::new();
        let mut ratings: Vec<Rating> = Vec::new();
        let mut keys: Vec<i128> = Vec::new();
        let mut i: usize = 0;
        while i < records.len()
            invariant
                records@ == self.metas@,
                i <= records@.len(),
                items@.map_values(|m: &Meta| *m) == rated(records@.subrange(0, i as int), kind),
                items@.len() == ratings@.len(),
                items@.len() == keys@.len(),
                forall|j: int|
                    0 <= j < items@.len() ==> items@[j].spec_rating(kind) == Some(ratings@[j]),
                keys@ == items@.map_values(|m: &Meta| *m).map_values(
                    |m: Meta| rating_order(m, kind),
                ),
            decreases records@.len() - i,
        {
            let m = &records[i];
            proof {
                assert(records@.subrange(0, i + 1).drop_last() =~= records@.subrange(0, i as int));
                assert(records@.subrange(0, i + 1).last() == *m);
            }
            match m.rating_of(kind) {
                Some(x) => {
                    items.push(m);
                    ratings.push(x);
                    keys.push(x.order_key() as i128);
                    proof {
                        assert(items@.map_values(|m: &Meta| *m) =~= rated(
                            records@.subrange(0, i as int),
                            kind,
                        ).push(*m));
                        assert(keys@ =~= items@.map_values(|m: &Meta| *m).map_values(
                            |m: Meta| rating_order(m, kind),
                        ));
                    }
                },
                None => {},
            }
            i += 1;
        }
        proof {
            assert(records@.subrange(0, i as int) =~= records@);
        }
        let order = stable_desc_order_of(&keys);
        let mut r: Vec<(Rating, &Meta)> = Vec::new();
        let mut a: usize = 0;
        while a < order.len()
            invariant
                a <= order@.len(),
                all == items@.map_values(|m: &Meta| *m),
                order@ == stable_desc_order(keys@),
                order@.len() == keys@.len(),
                keys@.len() == items@.len(),
                items@.len() == ratings@.len(),
                forall|j: int|
                    0 <= j < items@.len() ==> items@[j].spec_rating(kind) == Some(ratings@[j]),
                forall|b: int| 0 <= b < order@.len() ==> order@[b] < keys@.len(),
                r@.len() == a,
                forall|b: int| 0 <= b < a ==> r@[b].1.spec_rating(kind) == Some(r@[b].0),
                r@.map_values(|p: (Rating, &Meta)| *p.1) =~= order@.subrange(0, a as int).map_values(
                    |j: usize| all[j as int],
                ),
            decreases order@.len() - a,
        {
            let j = order[a];
            r.push((ratings[j], items[j]));
            proof {
                assert(order@.subrange(0, a + 1).map_values(|j: usize| all[j as int])
                    =~= order@.subrange(0, a as int).map_values(|j: usize| all[j as int]).push(
                    all[j as int],
                ));
            }
            a += 1;
        }
        proof {
            assert(order@.subrange(0, a as int) =~= order@);
        }
        r
    }

    /// For each rated record, highest total rating first: its position in the
    /// latest snapshot minus its position in that ranking; smallest first.
    /// `None` when there is no snapshot or a ranked record is not in the
    /// latest one.
    pub fn igdb_diffs(&self) -> (r: Option<Vec<(i32, &Meta)>>)
        requires
            self.metas@.len() <= i32::MAX,
            self.lists@.len() > 0 ==> latest_ids(self.lists@).len() <= i32::MAX,
        ensures
            r is Some <==> self.lists@.len() > 0 && all_listed(
                latest_ids(self.lists@),
                ranked(self.metas@, RatingKind::Total),
            ),
            r matches Some(v) ==> v@.map_values(|p: (i32, &Meta)| (p.0 as int, *p.1)) == diffs_of(
                latest_ids(self.lists@),
                ranked(self.metas@, RatingKind::Total),
            ),
    {
        let list = self.igdb_list(RatingKind::Total);
        let latest = match self.lists.latest() {
            Some(l) => l,
            None => {
                return None;
            },
        };
        let ghost ranking = ranked(self.metas@, RatingKind::Total);
        let ghost ids = latest_ids(self.lists@);
        let ghost d = rank_diffs(ids, ranking);
        proof {
            lemma_rated_len(self.metas@, RatingKind::Total);
        }
        let mut diffs: Vec<(i32, &Meta)> = Vec::new();
        let mut keys: Vec<i128> = Vec::new();
        let mut a: usize = 0;
        while a < list.len()
            invariant
                list@.map_values(|p: (Rating, &Meta)| *p.1) == ranking,
                list@.len() <= i32::MAX,
                ranking == ranked(self.metas@, RatingKind::Total),
                ids == latest_ids(self.lists@),
                self.lists@.len() > 0,
                ids == latest.ids(),
                ids.len() <= i32::MAX,
                d == rank_diffs(ids, ranking),
                a <= list@.len(),
                forall|b: int| 0 <= b < a ==> index_in(ids, #[trigger] ranking[b].id@) >= 0,
                diffs@.map_values(|p: (i32, &Meta)| (p.0 as int, *p.1)) =~= d.subrange(0, a as int),
                keys@ =~= d.subrange(0, a as int).map_values(|p: (int, Meta)| (-p.0) as i128),
            decreases list@.len() - a,
        {
            let m: &Meta = list[a].1;
            proof {
                assert(ranking[a as int] == *m);
            }
            let mut pos: usize = 0;
            while pos < latest.0.len() && !(latest.0[pos] == m.id)
                invariant
                    pos <= latest.0@.len(),
                    ids == latest.ids(),
                    forall|j: int| 0 <= j < pos ==> ids[j] != m.id@,
                decreases latest.0@.len() - pos,
            {
                pos += 1;
            }
            proof {
                lemma_index_in_first(ids, m.id@, pos as int);
            }
            if pos == latest.0.len() {
                proof {
                    assert(ranking[a as int].id@ == m.id@);
                    assert(index_in(ids, ranking[a as int].id@) < 0);
                    assert(!all_listed(ids, ranking));
                }
                return None;
            }
            let diff: i32 = pos as i32 - a as i32;
            diffs.push((diff, m));
            keys.push(-(diff as i128));
            proof {
                assert(d[a as int] == (diff as int, *m));
                assert(d.subrange(0, a + 1) =~= d.subrange(0, a as int).push(d[a as int]));
            }
            a += 1;
        }
        proof {
            assert(d.subrange(0, a as int) =~= d);
        }
        let order = stable_desc_order_of(&keys);
        let mut r: Vec<(i32, &Meta)> = Vec::new();
        let mut b: usize = 0;
        while b < order.len()
            invariant
                b <= order@.len(),
                order@ == stable_desc_order(keys@),
                order@.len() == keys@.len(),
                keys@.len() == diffs@.len(),
                diffs@.map_values(|p: (i32, &Meta)| (p.0 as int, *p.1)) == d,
                forall|c: int| 0 <= c < order@.len() ==> order@[c] < keys@.len(),
                r@.map_values(|p: (i32, &Meta)| (p.0 as int, *p.1)) =~= order@.subrange(
                    0,
                    b as int,
                ).map_values(|j: usize| d[j as int]),
            decreases order@.len() - b,
        {
            let j = order[b];
            r.push(diffs[j]);
            proof {
                assert(order@.subrange(0, b + 1).map_values(|j: usize| d[j as int])
                    =~= order@.subrange(0, b as int).map_values(|j: usize| d[j as int]).push(
                    d[j as int],
                ));
            }
            b += 1;
        }
        proof {
            assert(order@.subrange(0, b as int) =~= order@);
        }
        Some(r)
    }

    /// Days that each game spent at the top (`top`) or at the bottom of the
    /// list: each interval between consecutive dates counts for the game at
    /// the extremum at its start. Longest first.
    pub fn extrema(&self, top: bool) -> (r: Vec<(&GameId, i64)>)
        requires
            self.lists.wf(),
            earlier_lists_nonempty(self.lists@),
        ensures
            r@.map_values(|p: (&GameId, i64)| (p.0@, p.1 as int)) == extrema_of(self.lists@, top),
    {
        let entries = self.lists.entries();
        let ghost s = spans(self.lists@, top);
        let mut ids: Vec<&GameId> = Vec::new();
        let mut totals: Vec<i64> = Vec::new();
        let mut k: usize = 0;
        while entries.len() > 0 && k < entries.len() - 1
            invariant
                entries@ == self.lists@,
                self.lists.wf(),
                earlier_lists_nonempty(self.lists@),
                s == spans(self.lists@, top),
                k == 0 || k < entries@.len(),
                ids@.len() == totals@.len(),
                ids@.len() == tally(s.subrange(0, k as int)).len(),
                forall|p: int|
                    0 <= p < ids@.len() ==> ids@[p]@ == tally(s.subrange(0, k as int))[p].0,
                forall|p: int|
                    0 <= p < ids@.len() ==> totals@[p] == tally(s.subrange(0, k as int))[p].2,
                forall|p: int|
                    0 <= p < ids@.len() ==> 0 <= #[trigger] totals@[p] <= entries@[k as int].0.day
                        - entries@[0].0.day,
            decreases entries@.len() - k,
        {
            let ghost t = tally(s.subrange(0, k as int));
            let list = &entries[k].1;
            assert(list.0@.len() > 0);
            let h: &GameId = if top {
                &list.0[0]
            } else {
                &list.0[list.0.len() - 1]
            };
            let d: i64 = entries[k + 1].0.days_since(&entries[k].0);
            proof {
                assert(entries@[k as int].0.day < entries@[k + 1].0.day);
                if k > 0 {
                    assert(entries@[0].0.day < entries@[k as int].0.day);
                }
                assert(s.subrange(0, k + 1).drop_last() =~= s.subrange(0, k as int));
                assert(s[k as int] == (h@, (), d as int));
                assert(tally_keys(t) =~= ids@.map_values(|g: &GameId| g@));
            }
            let mut p: usize = 0;
            while p < ids.len() && !(*ids[p] == *h)
                invariant
                    p <= ids@.len(),
                    forall|j: int| 0 <= j < p ==> ids@[j]@ != h@,
                decreases ids@.len() - p,
            {
                p += 1;
            }
            proof {
                lemma_index_in_first(tally_keys(t), h@, p as int);
            }
            if p < ids.len() {
                let total = totals[p] + d;
                totals.set(p, total);
            } else {
                ids.push(h);
                totals.push(d);
            }
            k += 1;
        }
        let ghost t = tally(s);
        proof {
            if entries@.len() > 0 {
                assert(s.subrange(0, k as int) =~= s);
            } else {
                assert(s.subrange(0, k as int) =~= s);
            }
        }
        let mut keys: Vec<i128> = Vec::new();
        let mut i: usize = 0;
        while i < totals.len()
            invariant
                i <= totals@.len(),
                keys@ =~= totals@.subrange(0, i as int).map_values(|x: i64| x as i128),
            decreases totals@.len() - i,
        {
            keys.push(totals[i] as i128);
            i += 1;
        }
        let ghost items = t.map_values(|q: (GameIdView, (), int)| (q.0, q.2));
        proof {
            assert(keys@ =~= t.map_values(|q: (GameIdView, (), int)| q.2 as i128));
        }
        let order = stable_desc_order_of(&keys);
        proof {
            assert forall|j: int| 0 <= j < ids@.len() implies items[j] == (
                ids@[j]@,
                totals@[j] as int,
            ) by {}
        }
        let mut r: Vec<(&GameId, i64)> = Vec::new();
        let mut a: usize = 0;
        while a < order.len()
            invariant
                a <= order@.len(),
                order@ == stable_desc_order(keys@),
                order@.len() == keys@.len(),
                keys@.len() == ids@.len(),
                totals@.len() == ids@.len(),
                items.len() == ids@.len(),
                forall|j: int|
                    0 <= j < ids@.len() ==> items[j] == (ids@[j]@, totals@[j] as int),
                forall|b: int| 0 <= b < order@.len() ==> order@[b] < keys@.len(),
                r@.map_values(|q: (&GameId, i64)| (q.0@, q.1 as int)) =~= order@.subrange(
                    0,
                    a as int,
                ).map_values(|j: usize| items[j as int]),
            decreases order@.len() - a,
        {
            let j = order[a];
            r.push((ids[j], totals[j]));
            proof {
                assert(order@.subrange(0, a + 1).map_values(|j: usize| items[j as int]) =~= order@.subrange(
                    0,
                    a as int,
                ).map_values(|j: usize| items[j as int]).push(items[j as int]));
            }
            a += 1;
        }
        proof {
            assert(order@.subrange(0, a as int) =~= order@);
        }
        r
    }

    /// The least and the greatest release date over all records; `None` for
    /// an empty store.
    pub fn release_date_range(&self) -> (r: Option<(i64, i64)>)
        ensures
            r is None <==> self.metas@.len() == 0,
            r matches Some(p) ==> is_release_range(self.metas@, p.0, p.1),
    {
        let records = self.metas.records();
        if records.len() == 0 {
            return None;
        }
        let mut lo: i64 = records[0].first_release_date;
        let mut hi: i64 = records[0].first_release_date;
        let mut i: usize = 1;
        proof {
            assert(records@.subrange(0, 1)[0] == records@[0]);
        }
        while i < records.len()
            invariant
                records@ == self.metas@,
                1 <= i <= records@.len(),
                is_release_range(records@.subrange(0, i as int), lo, hi),
            decreases records@.len() - i,
        {
            let x = records[i].first_release_date;
            let ghost pre = records@.subrange(0, i as int);
            let ghost next = records@.subrange(0, i + 1);
            proof {
                let a = choose|a: int| 0 <= a < pre.len() && pre[a].first_release_date == lo;
                let b = choose|b: int| 0 <= b < pre.len() && pre[b].first_release_date == hi;
                assert(next[a] == pre[a] && next[b] == pre[b]);
                assert(next[i as int].first_release_date == x);
                assert forall|j: int| 0 <= j < i implies #[trigger] next[j] == pre[j] by {}
            }
            if x < lo {
                lo = x;
            }
            if x > hi {
                hi = x;
            }
            i += 1;
        }
        proof {
            assert(records@.subrange(0, i as int) =~= records@);
        }
        Some((lo, hi))
    }

    /// Counts the items that `extract` takes from each record by the key that
    /// `key` gives them: for each key, the number of items and the first of
    /// them, most frequent first (equal counts in the order in which their
    /// keys first occur).
    pub fn most_common<'a, T: 'a, FE, FK>(&'a self, extract: FE, key: FK) -> (r: Vec<(u32, &'a T)>)
        where
            FE: Fn(&'a Meta) -> &'a Vec<T>,
            FK: Fn(&'a T) -> &'a str,
        requires
            forall|m: &'a Meta| #[trigger] extract.requires((m,)),
            forall|t: &'a T| #[trigger] key.requires((t,)),
            forall|m: &'a Meta, v1: &'a Vec<T>, v2: &'a Vec<T>|
                extract.ensures((m,), v1) && extract.ensures((m,), v2) ==> v1@ == v2@,
            forall|t: &'a T, k1: &'a str, k2: &'a str|
                key.ensures((t,), k1) && key.ensures((t,), k2) ==> k1@ == k2@,
            extracted(self.metas@, extract).len() <= u32::MAX,
        ensures
            r@.map_values(|p: (u32, &'a T)| (p.0 as int, *p.1)) == most_common_of(
                extracted(self.metas@, extract),
                key,
            ),
    {
        let records: &'a Vec<Meta> = self.metas.records();
        let ghost total = extracted(self.metas@, extract);
        let mut names: Vec<String> = Vec::new();
        let mut reps: Vec<&'a T> = Vec::new();
        let mut counts: Vec<u32> = Vec::new();
        let ghost mut flat: Seq<T> = Seq::empty();
        let mut i: usize = 0;
        while i < records.len()
            invariant
                forall|m: &'a Meta| #[trigger] extract.requires((m,)),
                forall|t: &'a T| #[trigger] key.requires((t,)),
                forall|m: &'a Meta, v1: &'a Vec<T>, v2: &'a Vec<T>|
                    extract.ensures((m,), v1) && extract.ensures((m,), v2) ==> v1@ == v2@,
                forall|t: &'a T, k1: &'a str, k2: &'a str|
                    key.ensures((t,), k1) && key.ensures((t,), k2) ==> k1@ == k2@,
                records@ == self.metas@,
                i <= records@.len(),
                total == extracted(records@, extract),
                total.len() <= u32::MAX,
                flat == extracted(records@.subrange(0, i as int), extract),
                names@.len() == tally(keyed(flat, key)).len(),
                reps@.len() == names@.len(),
                counts@.len() == names@.len(),
                forall|p: int|
                    0 <= p < names@.len() ==> {
                        let q = #[trigger] tally(keyed(flat, key))[p];
                        &&& names@[p]@ == q.0
                        &&& counts@[p] == q.2
                        &&& 0 <= q.1 < flat.len()
                        &&& *reps@[p] == flat[q.1]
                        &&& counts@[p] <= flat.len()
                    },
            decreases records@.len() - i,
        {
            let m: &'a Meta = &records[i];
            let v: &'a Vec<T> = extract(m);
            let ghost before = flat;
            proof {
                let outs = records@.map_values(|m: Meta| extract_of(m, extract));
                assert(v@ == extract_of(records@[i as int], extract));
                assert(records@.subrange(0, i + 1).map_values(|m: Meta| extract_of(m, extract)).drop_last()
                    =~= records@.subrange(0, i as int).map_values(|m: Meta| extract_of(m, extract)));
                assert(extracted(records@.subrange(0, i + 1), extract) == before + v@);
                assert(outs.subrange(0, i + 1) =~= records@.subrange(0, i + 1).map_values(
                    |m: Meta| extract_of(m, extract),
                ));
                lemma_concat_prefix_len(outs, i + 1);
            }
            let mut j: usize = 0;
            while j < v.len()
                invariant
                    forall|t: &'a T| #[trigger] key.requires((t,)),
                    forall|t: &'a T, k1: &'a str, k2: &'a str|
                        key.ensures((t,), k1) && key.ensures((t,), k2) ==> k1@ == k2@,
                    j <= v@.len(),
                    flat == before + v@.subrange(0, j as int),
                    before.len() + v@.len() <= u32::MAX,
                    names@.len() == tally(keyed(flat, key)).len(),
                    reps@.len() == names@.len(),
                    counts@.len() == names@.len(),
                    forall|p: int|
                        0 <= p < names@.len() ==> {
                            let q = #[trigger] tally(keyed(flat, key))[p];
                            &&& names@[p]@ == q.0
                            &&& counts@[p] == q.2
                            &&& 0 <= q.1 < flat.len()
                            &&& *reps@[p] == flat[q.1]
                            &&& counts@[p] <= flat.len()
                        },
                decreases v@.len() - j,
            {
                let item: &'a T = &v[j];
                let k: &'a str = key(item);
                let text = String::from_str(k);
                let ghost t = tally(keyed(flat, key));
                let ghost next = flat.push(*item);
                proof {
                    assert(k@ == key_of(*item, key));
                    assert(keyed(next, key).drop_last() =~= keyed(flat, key));
                    assert(keyed(next, key).last() == (k@, flat.len() as int, 1int));
                    assert(tally_keys(t) =~= names@.map_values(|n: String| n@));
                    assert(next =~= before + v@.subrange(0, j + 1));
                }
                let mut p: usize = 0;
                while p < names.len() && !(names[p] == text)
                    invariant
                        p <= names@.len(),
                        forall|x: int| 0 <= x < p ==> names@[x]@ != text@,
                    decreases names@.len() - p,
                {
                    p += 1;
                }
                proof {
                    lemma_index_in_first(tally_keys(t), k@, p as int);
                }
                if p < names.len() {
                    proof {
                        let q = t[p as int];
                        assert(counts@[p as int] <= flat.len());
                    }
                    let c = counts[p] + 1;
                    counts.set(p, c);
                } else {
                    names.push(text);
                    reps.push(item);
                    counts.push(1);
                }
                proof {
                    flat = next;
                    let t2 = tally(keyed(flat, key));
                    assert forall|x: int| 0 <= x < names@.len() implies {
                        let q = #[trigger] tally(keyed(flat, key))[x];
                        &&& names@[x]@ == q.0
                        &&& counts@[x] == q.2
                        &&& 0 <= q.1 < flat.len()
                        &&& *reps@[x] == flat[q.1]
                        &&& counts@[x] <= flat.len()
                    } by {
                        if x < t.len() {
                            let q0 = t[x];
                            assert(0 <= q0.1 < before.len() + j);
                        }
                    }
                }
                j += 1;
            }
            proof {
                assert(v@.subrange(0, j as int) =~= v@);
            }
            i += 1;
        }
        proof {
            assert(records@.subrange(0, i as int) =~= records@);
        }
        let ghost t = tally(keyed(total, key));
        let ghost items = group_sizes(total, t);
        let mut keys: Vec<i128> = Vec::new();
        let mut x: usize = 0;
        while x < counts.len()
            invariant
                x <= counts@.len(),
                keys@ =~= counts@.subrange(0, x as int).map_values(|c: u32| c as i128),
            decreases counts@.len() - x,
        {
            keys.push(counts[x] as i128);
            x += 1;
        }
        proof {
            assert(keys@ =~= t.map_values(|q: (Seq<char>, int, int)| q.2 as i128));
            assert forall|j: int| 0 <= j < counts@.len() implies items[j] == (
                counts@[j] as int,
                *reps@[j],
            ) by {
                let q = t[j];
                assert(*reps@[j] == total[q.1]);
            }
        }
        let order = stable_desc_order_of(&keys);
        let mut r: Vec<(u32, &'a T)> = Vec::new();
        let mut b: usize = 0;
        while b < order.len()
            invariant
                b <= order@.len(),
                order@ == stable_desc_order(keys@),
                order@.len() == keys@.len(),
                keys@.len() == counts@.len(),
                reps@.len() == counts@.len(),
                items.len() == counts@.len(),
                forall|j: int|
                    0 <= j < counts@.len() ==> items[j] == (counts@[j] as int, *reps@[j]),
                forall|c: int| 0 <= c < order@.len() ==> order@[c] < keys@.len(),
                r@.map_values(|p: (u32, &'a T)| (p.0 as int, *p.1)) =~= order@.subrange(
                    0,
                    b as int,
                ).map_values(|j: usize| items[j as int]),
            decreases order@.len() - b,
        {
            let j = order[b];
            r.push((counts[j], reps[j]));
            proof {
                assert(order@.subrange(0, b + 1).map_values(|j: usize| items[j as int])
                    =~= order@.subrange(0, b as int).map_values(|j: usize| items[j as int]).push(
                    items[j as int],
                ));
            }
            b += 1;
        }
        proof {
            assert(order@.subrange(0, b as int) =~= order@);
        }
        r
    }
}

} // verus!
