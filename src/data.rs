//! The history together with the store, and reconciliation of the store
//! against the latest snapshot.

use vstd::prelude::*;

use crate::date::Iso8601Date;
use crate::id::{GameId, GameIdView};
use crate::lists::{List, Lists};
use crate::meta::Meta;
use crate::store::{has_id, Metas};

verus! {

/// Why the store cannot be brought up to date with the latest snapshot.
#[derive(Debug)]
pub enum DataError {
    /// There is no snapshot at all.
    NoLists,
    /// The latest snapshot holds an identity that the store lacks and the
    /// catalog cannot resolve.
    MissingMetadata(GameId),
}

/// The identities of `ids` that `store` lacks, each once, in the order of
/// their first occurrence.
pub open spec fn missing_ids(ids: Seq<GameIdView>, store: Seq<Meta>) -> Seq<GameIdView>
    decreases ids.len(),
{
    if ids.len() == 0 {
        Seq::empty()
    } else {
        let r = missing_ids(ids.drop_last(), store);
        let x = ids.last();
        if has_id(store, x) || r.contains(x) {
            r
        } else {
            r.push(x)
        }
    }
}

/// Whether the identity at position `i` of `ids` is in `store` or can be
/// fetched from the catalog.
pub open spec fn resolvable_at(ids: Seq<GameIdView>, store: Seq<Meta>, i: int) -> bool {
    has_id(store, ids[i]) || ids[i] is Igdb
}

/// Whether every identity of `ids` is in `store` or can be fetched.
pub open spec fn resolvable(ids: Seq<GameIdView>, store: Seq<Meta>) -> bool {
    forall|i: int| 0 <= i < ids.len() ==> #[trigger] resolvable_at(ids, store, i)
}

/// Whether position `i` holds the first identity of `ids` that is neither in
/// `store` nor can be fetched.
pub open spec fn first_unresolvable(ids: Seq<GameIdView>, store: Seq<Meta>, i: int) -> bool {
    &&& 0 <= i < ids.len()
    &&& !resolvable_at(ids, store, i)
    &&& forall|k: int| 0 <= k < i ==> #[trigger] resolvable_at(ids, store, k)
}

/// The identities of the latest snapshot of `lists`.
pub open spec fn latest_ids(lists: Seq<(Iso8601Date, List)>) -> Seq<GameIdView> {
    lists.last().1.ids()
}

/// The missing identities name each identity that the store lacks exactly
/// once, and none that it has.
pub proof fn lemma_reconcile_complete(ids: Seq<GameIdView>, store: Seq<Meta>)
    ensures
        missing_ids(ids, store).no_duplicates(),
        forall|x: GameIdView|
            missing_ids(ids, store).contains(x) <==> ids.contains(x) && !has_id(store, x),
    decreases ids.len(),
{
    if ids.len() > 0 {
        let front = ids.drop_last();
        lemma_reconcile_complete(front, store);
        let r = missing_ids(front, store);
        let x = ids.last();
        assert forall|y: GameIdView| ids.contains(y) <==> front.contains(y) || y == x by {
            if ids.contains(y) {
                let i = choose|i: int| 0 <= i < ids.len() && ids[i] == y;
                if i < ids.len() - 1 {
                    assert(front[i] == y);
                }
            }
            if front.contains(y) {
                let i = choose|i: int| 0 <= i < front.len() && front[i] == y;
                assert(ids[i] == y);
            }
            if y == x {
                assert(ids[ids.len() - 1] == y);
            }
        }
        if !(has_id(store, x) || r.contains(x)) {
            assert forall|y: GameIdView| r.push(x).contains(y) <==> r.contains(y) || y == x by {
                if r.push(x).contains(y) {
                    let i = choose|i: int| 0 <= i < r.len() + 1 && r.push(x)[i] == y;
                    if i < r.len() {
                        assert(r[i] == y);
                    }
                }
                if r.contains(y) {
                    let i = choose|i: int| 0 <= i < r.len() && r[i] == y;
                    assert(r.push(x)[i] == y);
                }
                if y == x {
                    assert(r.push(x)[r.len() as int] == y);
                }
            }
        }
    }
}

/// Whether `v` holds an identity equal to `id`.
fn holds_id(v: &Vec<GameId>, id: &GameId) -> (r: bool)
    ensures
        r == v@.map_values(|g: GameId| g@).contains(id@),
{
    let mut i: usize = 0;
    while i < v.len()
        invariant
            i <= v@.len(),
            forall|k: int| 0 <= k < i ==> v@[k]@ != id@,
        decreases v@.len() - i,
    {
        if v[i] == *id {
            proof {
                assert(v@.map_values(|g: GameId| g@)[i as int] == id@);
            }
            return true;
        }
        i += 1;
    }
    false
}

/// The identities of the latest snapshot that the store lacks, each once, in
/// snapshot order; fails if there is no snapshot, or on the first identity
/// that the store lacks and the catalog cannot resolve.
pub fn missing_metas(lists: &Lists, metas: &Metas) -> (r: Result<Vec<GameId>, DataError>)
    ensures
        lists@.len() == 0 ==> r matches Err(DataError::NoLists),
        (exists|i: int|
            0 <= i < latest_ids(lists@).len() && !(#[trigger] latest_ids(lists@)[i] is Igdb)
                && !has_id(metas@, latest_ids(lists@)[i])) ==> r is Err,
        lists@.len() > 0 ==> (r is Ok <==> resolvable(latest_ids(lists@), metas@)),
        lists@.len() > 0 ==> (r matches Ok(v) ==> v@.map_values(|g: GameId| g@) == missing_ids(
            latest_ids(lists@),
            metas@,
        )),
        lists@.len() > 0 ==> (r matches Err(e) ==> e matches DataError::MissingMetadata(id) && (
        exists|i: int|
            #[trigger] first_unresolvable(latest_ids(lists@), metas@, i) && latest_ids(lists@)[i]
                == id@)),
{
    let latest = match lists.latest() {
        Some(l) => l,
        None => {
            return Err(DataError::NoLists);
        },
    };
    let ghost ids = latest_ids(lists@);
    let mut out: Vec<GameId> = Vec::new();
    let mut i: usize = 0;
    while i < latest.0.len()
        invariant
            lists@.len() > 0,
            ids == latest_ids(lists@),
            ids == latest.ids(),
            i <= ids.len(),
            forall|k: int| 0 <= k < i ==> #[trigger] resolvable_at(ids, metas@, k),
            out@.map_values(|g: GameId| g@) == missing_ids(ids.subrange(0, i as int), metas@),
        decreases ids.len() - i,
    {
        let id = &latest.0[i];
        proof {
            assert(ids[i as int] == id@);
            assert(ids.subrange(0, i + 1).drop_last() =~= ids.subrange(0, i as int));
        }
        if !metas.contains(id) {
            match id {
                GameId::Igdb(_) => {},
                _ => {
                    proof {
                        assert(!resolvable_at(ids, metas@, i as int));
                        assert(first_unresolvable(ids, metas@, i as int));
                        assert(!resolvable(ids, metas@));
                    }
                    return Err(DataError::MissingMetadata(id.clone()));
                },
            }
            if !holds_id(&out, id) {
                out.push(id.clone());
                proof {
                    assert(out@.map_values(|g: GameId| g@) =~= missing_ids(
                        ids.subrange(0, i as int),
                        metas@,
                    ).push(id@));
                }
            }
        }
        i += 1;
    }
    proof {
        assert(ids.subrange(0, i as int) =~= ids);
        assert forall|k: int|
            0 <= k < ids.len() && !(#[trigger] ids[k] is Igdb) implies has_id(metas@, ids[k]) by {
            assert(resolvable_at(ids, metas@, k));
        }
    }
    Ok(out)
}

/// The snapshot history together with the metadata store.
#[derive(Debug)]
pub struct Data {
    pub lists: Lists,
    pub metas: Metas,
}

impl Data {
    /// The history and store, as given.
    pub fn new(lists: Lists, metas: Metas) -> (r: Data)
        ensures
            r.lists == lists,
            r.metas == metas,
    {
        Data { lists, metas }
    }

    /// All dates when the list was observed, in increasing order.
    pub fn dates(&self) -> (r: Vec<Iso8601Date>)
        ensures
            r@ == self.lists@.map_values(|e: (Iso8601Date, List)| e.0),
    {
        self.lists.dates()
    }

    /// The latest snapshot, if there is any.
    pub fn latest(&self) -> (r: Option<&List>)
        ensures
            r is Some <==> self.lists@.len() > 0,
            r matches Some(l) ==> *l == self.lists@.last().1,
    {
        self.lists.latest()
    }
}

} // verus!
