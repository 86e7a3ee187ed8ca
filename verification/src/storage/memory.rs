use vstd::prelude::*;

use crate::entities::board::Board;
use crate::entities::entry::Entry;
use crate::entities::ident::Uuid;
use crate::entities::label::Label;
use crate::model::{
    board_entries, board_kept_pred, board_matches, board_owned_pred, board_recency,
    board_update_targets, boards_sorted_by_recency, by_ids_pred, entries_by_ids, entry_kept_pred,
    entry_matches, entry_recency, in_board_pred, lemma_filter_keeps_distinct,
    lemma_filter_keeps_sorted, lemma_filter_props, lemma_filter_push, owned_boards,
    remaining_boards, remaining_entries, sorted_by_recency, unfiled_entries, unfiled_pred,
    unique_ids, update_targets,
};
use crate::storage::error::{StorageError, StorageResult};
use crate::storage::traits::StorageTrait;

verus! {

/// A storage backend that keeps every record in process memory.
///
/// It is the reference implementation of the storage capability: rows are held
/// in listing order (most recently touched first), identities come from plain
/// counters and timestamps from a logical clock that grows on every mutation,
/// so the backend is fully deterministic. It shows the capability contract is
/// satisfiable and backs the test suite without any external service. Being
/// purely in memory it cannot suffer an outside fault: it fails only at the
/// taxonomy's own edges (a point lookup without a match, an exhausted counter
/// or clock, a stub label operation), and its contracts say so.
pub struct InMemoryMemorizStorage {
    entry_rows: Vec<Entry>,
    board_rows: Vec<Board>,
    id_counter: i32,
    uuid_counter: u128,
    tick: i64,
}

/// A stored entry row: its update stamp, if any, predates the clock, its id
/// predates the id counter, and no backend persists labels.
pub open spec fn entry_row_ok(e: Entry, clock: i64, id_bound: i32) -> bool {
    &&& e.updated_on is Some ==> e.updated_on->0 < clock
    &&& e.id < id_bound
    &&& e.labels is None
}

/// A stored board row: its update stamp, if any, predates the clock.
pub open spec fn board_row_ok(b: Board, clock: i64) -> bool {
    b.updated_on is Some ==> b.updated_on->0 < clock
}

/// True exactly when the optional uuid holds this value.
fn opt_uuid_is(o: &Option<Uuid>, u: Uuid) -> (r: bool)
    ensures
        r == (*o == Some(u)),
{
    match o {
        Some(x) => x.value == u.value,
        None => false,
    }
}

/// Equality of two optional uuids.
fn opt_uuid_eq(a: &Option<Uuid>, b: &Option<Uuid>) -> (r: bool)
    ensures
        r == (*a == *b),
{
    match (a, b) {
        (Some(x), Some(y)) => x.value == y.value,
        (None, None) => true,
        _ => false,
    }
}

/// Linear membership test over a list of uuids.
fn contains_uuid(ids: &Vec<Uuid>, u: Uuid) -> (r: bool)
    ensures
        r == ids@.contains(u),
{
    let mut i: usize = 0;
    while i < ids.len()
        invariant
            i <= ids@.len(),
            forall|k: int| 0 <= k < i ==> ids@[k] != u,
        decreases ids@.len() - i,
    {
        if ids[i].value == u.value {
            return true;
        }
        i = i + 1;
    }
    false
}

impl InMemoryMemorizStorage {
    /// The next numeric id a created entry will receive.
    pub closed spec fn next_id(&self) -> int {
        self.id_counter as int
    }

    /// The next uuid value a created record will receive.
    pub closed spec fn next_uuid(&self) -> int {
        self.uuid_counter as int
    }

    /// The logical clock; every stored update stamp lies strictly below it.
    pub closed spec fn clock(&self) -> int {
        self.tick as int
    }

    pub fn new() -> (r: InMemoryMemorizStorage)
        ensures
            r.inv(),
            r.entries() == Seq::<Entry>::empty(),
            r.boards() == Seq::<Board>::empty(),
            r.next_id() == 1,
            r.next_uuid() == 1,
            r.clock() == 0,
    {
        let r = InMemoryMemorizStorage {
            entry_rows: Vec::new(),
            board_rows: Vec::new(),
            id_counter: 1,
            uuid_counter: 1,
            tick: 0,
        };
        proof {
            assert(r.entry_rows@ =~= Seq::<Entry>::empty());
            assert(r.board_rows@ =~= Seq::<Board>::empty());
        }
        r
    }

    /// Index of the first row an update keyed by `(id, owner)` targets.
    fn find_entry_target(rows: &Vec<Entry>, id: i32, owner: &Option<Uuid>) -> (r: Option<usize>)
        ensures
            match r {
                Some(j) => j < rows@.len() && rows@[j as int].id == id && rows@[j as int].owner
                    == *owner,
                None => forall|k: int|
                    0 <= k < rows@.len() ==> !((#[trigger] rows@[k]).id == id && rows@[k].owner
                        == *owner),
            },
    {
        let mut j: usize = 0;
        while j < rows.len()
            invariant
                j <= rows@.len(),
                forall|k: int|
                    0 <= k < j ==> !((#[trigger] rows@[k]).id == id && rows@[k].owner == *owner),
            decreases rows@.len() - j,
        {
            if rows[j].id == id && opt_uuid_eq(&rows[j].owner, owner) {
                return Some(j);
            }
            j = j + 1;
        }
        None
    }

    /// Index of the first row an update keyed by `(uuid, owner)` targets.
    fn find_board_target(rows: &Vec<Board>, uuid: &Option<Uuid>, owner: &Option<Uuid>) -> (r:
        Option<usize>)
        ensures
            match r {
                Some(j) => j < rows@.len() && rows@[j as int].uuid == *uuid && rows@[j as int].owner
                    == *owner,
                None => forall|k: int|
                    0 <= k < rows@.len() ==> !((#[trigger] rows@[k]).uuid == *uuid && rows@[k].owner
                        == *owner),
            },
    {
        let mut j: usize = 0;
        while j < rows.len()
            invariant
                j <= rows@.len(),
                forall|k: int|
                    0 <= k < j ==> !((#[trigger] rows@[k]).uuid == *uuid && rows@[k].owner
                        == *owner),
            decreases rows@.len() - j,
        {
            if opt_uuid_eq(&rows[j].uuid, uuid) && opt_uuid_eq(&rows[j].owner, owner) {
                return Some(j);
            }
            j = j + 1;
        }
        None
    }

    /// The position in front of which a freshly stamped row belongs: rows that
    /// were never updated stay in front of every stamped one.
    fn find_first_updated_entry(rows: &Vec<Entry>) -> (k: usize)
        ensures
            k <= rows@.len(),
            forall|i: int| 0 <= i < k ==> (#[trigger] rows@[i]).updated_on is None,
            k < rows@.len() ==> rows@[k as int].updated_on is Some,
    {
        let mut k: usize = 0;
        while k < rows.len()
            invariant
                k <= rows@.len(),
                forall|i: int| 0 <= i < k ==> (#[trigger] rows@[i]).updated_on is None,
            decreases rows@.len() - k,
        {
            if rows[k].updated_on.is_some() {
                return k;
            }
            k = k + 1;
        }
        k
    }

    fn find_first_updated_board(rows: &Vec<Board>) -> (k: usize)
        ensures
            k <= rows@.len(),
            forall|i: int| 0 <= i < k ==> (#[trigger] rows@[i]).updated_on is None,
            k < rows@.len() ==> rows@[k as int].updated_on is Some,
    {
        let mut k: usize = 0;
        while k < rows.len()
            invariant
                k <= rows@.len(),
                forall|i: int| 0 <= i < k ==> (#[trigger] rows@[i]).updated_on is None,
            decreases rows@.len() - k,
        {
            if rows[k].updated_on.is_some() {
                return k;
            }
            k = k + 1;
        }
        k
    }
}

impl StorageTrait for InMemoryMemorizStorage {
    closed spec fn entries(&self) -> Seq<Entry> {
        self.entry_rows@
    }

    closed spec fn boards(&self) -> Seq<Board> {
        self.board_rows@
    }

    closed spec fn inv(&self) -> bool {
        &&& sorted_by_recency(self.entry_rows@)
        &&& boards_sorted_by_recency(self.board_rows@)
        &&& unique_ids(self.entry_rows@)
        &&& forall|i: int|
            0 <= i < self.entry_rows@.len() ==> entry_row_ok(
                #[trigger] self.entry_rows@[i],
                self.tick,
                self.id_counter,
            )
        &&& forall|i: int|
            0 <= i < self.board_rows@.len() ==> board_row_ok(
                #[trigger] self.board_rows@[i],
                self.tick,
            )
    }

    #[verifier::loop_isolation(false)]
    fn get_board(&self, owner_uuid: Uuid, uuid: Uuid) -> (r: StorageResult<Board>)
        ensures
            r is Err ==> r->Err_0 == StorageError::RecordNotFound,
            (exists|i: int|
                0 <= i < self.boards().len() && board_matches(
                    #[trigger] self.boards()[i],
                    owner_uuid,
                    uuid,
                )) ==> r is Ok,
    {
        let mut i: usize = 0;
        while i < self.board_rows.len()
            invariant
                i <= self.board_rows@.len(),
                forall|k: int|
                    0 <= k < i ==> !board_matches(#[trigger] self.board_rows@[k], owner_uuid, uuid),
            decreases self.board_rows@.len() - i,
        {
            let b = &self.board_rows[i];
            if opt_uuid_is(&b.owner, owner_uuid) && opt_uuid_is(&b.uuid, uuid) {
                let found = b.clone();
                proof {
                    assert(self.board_rows@.contains(self.board_rows@[i as int]));
                }
                return Ok(found);
            }
            i = i + 1;
        }
        Err(StorageError::RecordNotFound)
    }

    #[verifier::loop_isolation(false)]
    fn create_board(&mut self, board: Board) -> (r: StorageResult<Board>)
        ensures
            old(self).next_uuid() < u128::MAX as int && old(self).clock() < i64::MAX as int
                ==> r is Ok,
            r is Err ==> r->Err_0 == StorageError::CreationImpossible,
            final(self).next_id() == old(self).next_id(),
            r is Ok ==> final(self).next_uuid() == old(self).next_uuid() + 1 && final(self).clock()
                == old(self).clock() + 1,
            r is Err ==> final(self).next_uuid() == old(self).next_uuid() && final(self).clock()
                == old(self).clock(),
    {
        if self.uuid_counter == u128::MAX || self.tick == i64::MAX {
            return Err(StorageError::CreationImpossible);
        }
        let b = Board {
            uuid: Some(Uuid { value: self.uuid_counter }),
            title: board.title,
            data: board.data,
            color: board.color,
            created_on: Some(self.tick),
            updated_on: None,
            owner: board.owner,
        };
        let stored = b.clone();
        self.board_rows.insert(0, stored);
        self.uuid_counter = self.uuid_counter + 1;
        self.tick = self.tick + 1;
        proof {
            let s_old = old(self).board_rows@;
            let s_new = self.board_rows@;
            assert(s_new == s_old.insert(0, b));
            assert forall|i: int, j: int| 0 <= i <= j < s_new.len() implies board_recency(s_new[i])
                >= board_recency(s_new[j]) by {
                if i > 0 {
                    assert(s_new[i] == s_old[i - 1]);
                    assert(s_new[j] == s_old[j - 1]);
                }
            }
        }
        Ok(b)
    }

    #[verifier::loop_isolation(false)]
    fn get_all_boards(&self, owner_uuid: Uuid) -> (r: StorageResult<Vec<Board>>)
        ensures
            r is Ok,
    {
        let mut out: Vec<Board> = Vec::new();
        let mut i: usize = 0;
        while i < self.board_rows.len()
            invariant
                i <= self.board_rows@.len(),
                out@ == owned_boards(self.board_rows@.subrange(0, i as int), owner_uuid),
            decreases self.board_rows@.len() - i,
        {
            let b = &self.board_rows[i];
            if opt_uuid_is(&b.owner, owner_uuid) {
                out.push(b.clone());
            }
            proof {
                let s = self.board_rows@;
                assert(s.subrange(0, i as int + 1) =~= s.subrange(0, i as int).push(s[i as int]));
                lemma_filter_push(s.subrange(0, i as int), s[i as int], board_owned_pred(owner_uuid));
            }
            i = i + 1;
        }
        proof {
            let s = self.board_rows@;
            assert(s.subrange(0, s.len() as int) =~= s);
            lemma_filter_keeps_sorted(s, board_owned_pred(owner_uuid), |b: Board| board_recency(b));
        }
        Ok(out)
    }

    #[verifier::loop_isolation(false)]
    fn update_board(&mut self, board: Board) -> (r: StorageResult<Board>)
        ensures
            old(self).clock() < i64::MAX as int && (exists|j: int|
                0 <= j < old(self).boards().len() && board_update_targets(
                    #[trigger] old(self).boards()[j],
                    board,
                )) ==> r is Ok,
            r is Err ==> r->Err_0 == StorageError::RecordNotFound || r->Err_0 is Backend,
            r is Err && r->Err_0 == StorageError::RecordNotFound ==> forall|j: int|
                0 <= j < old(self).boards().len() ==> !board_update_targets(
                    #[trigger] old(self).boards()[j],
                    board,
                ),
            final(self).next_id() == old(self).next_id(),
            final(self).next_uuid() == old(self).next_uuid(),
            r is Ok ==> final(self).clock() == old(self).clock() + 1,
            r is Err ==> final(self).clock() == old(self).clock(),
    {
        if self.tick == i64::MAX {
            return Err(StorageError::Backend("clock exhausted".to_owned()));
        }
        match Self::find_board_target(&self.board_rows, &board.uuid, &board.owner) {
            None => Err(StorageError::RecordNotFound),
            Some(j) => {
                let t = self.board_rows.remove(j);
                proof {
                    let s0 = old(self).board_rows@;
                    let s1 = self.board_rows@;
                    assert(s1 == s0.remove(j as int));
                    s0.remove_ensures(j as int);
                    assert forall|p: int, q: int|
                        0 <= p <= q < s1.len() implies board_recency(s1[p]) >= board_recency(
                        s1[q],
                    ) by {
                        let p0: int = if p < j { p } else { p + 1 };
                        let q0: int = if q < j { q } else { q + 1 };
                        assert(s1[p] == s0[p0]);
                        assert(s1[q] == s0[q0]);
                    }
                }
                let b = Board {
                    uuid: t.uuid,
                    title: board.title,
                    data: board.data,
                    color: board.color,
                    created_on: t.created_on,
                    updated_on: Some(self.tick),
                    owner: t.owner,
                };
                let k = Self::find_first_updated_board(&self.board_rows);
                let stored = b.clone();
                self.board_rows.insert(k, stored);
                self.tick = self.tick + 1;
                proof {
                    let s1 = old(self).board_rows@.remove(j as int);
                    let s2 = self.board_rows@;
                    assert(s2 == s1.insert(k as int, b));
                    s1.insert_ensures(k as int, b);
                    assert(s2[k as int] == b);
                    assert forall|p: int, q: int|
                        0 <= p <= q < s2.len() implies board_recency(s2[p]) >= board_recency(
                        s2[q],
                    ) by {
                        if p < k {
                            assert(s2[p] == s1[p]);
                        }
                        if q > k {
                            assert(s2[q] == s1[q - 1]);
                        }
                    }
                    let s0 = old(self).board_rows@;
                    assert(board_row_ok(s0[j as int], old(self).tick));
                    assert(0 <= j < old(self).boards().len());
                    assert(board_update_targets(old(self).boards()[j as int], board));
                    assert(crate::model::updated_board_from_row(b, board, old(self).boards()[j as int]));
                    assert(0 <= (k as int) && (k as int) < old(self).boards().len());
                    assert(self.boards() == old(self).boards().remove(j as int).insert(
                        k as int,
                        b,
                    ));
                }
                Ok(b)
            },
        }
    }

    #[verifier::loop_isolation(false)]
    fn delete_board(&mut self, owner_uuid: Uuid, uuid: Uuid) -> (r: StorageResult<()>)
        ensures
            r is Ok,
            final(self).next_id() == old(self).next_id(),
            final(self).next_uuid() == old(self).next_uuid(),
            final(self).clock() == old(self).clock(),
    {
        let mut kept: Vec<Board> = Vec::new();
        let mut i: usize = 0;
        while i < self.board_rows.len()
            invariant
                i <= self.board_rows@.len(),
                kept@ == remaining_boards(
                    self.board_rows@.subrange(0, i as int),
                    owner_uuid,
                    uuid,
                ),
            decreases self.board_rows@.len() - i,
        {
            let b = &self.board_rows[i];
            if !(opt_uuid_is(&b.owner, owner_uuid) && opt_uuid_is(&b.uuid, uuid)) {
                kept.push(b.clone());
            }
            proof {
                let s = self.board_rows@;
                assert(s.subrange(0, i as int + 1) =~= s.subrange(0, i as int).push(s[i as int]));
                lemma_filter_push(
                    s.subrange(0, i as int),
                    s[i as int],
                    board_kept_pred(owner_uuid, uuid),
                );
            }
            i = i + 1;
        }
        proof {
            let s = self.board_rows@;
            assert(s.subrange(0, s.len() as int) =~= s);
            lemma_filter_keeps_sorted(s, board_kept_pred(owner_uuid, uuid), |b: Board| board_recency(b));
            lemma_filter_props(s, board_kept_pred(owner_uuid, uuid));
        }
        self.board_rows = kept;
        Ok(())
    }

    fn get_all_labels(&self) -> (r: StorageResult<Vec<Label>>)
        ensures
            r == StorageResult::<Vec<Label>>::Err(StorageError::NotImplemented),
    {
        Err(StorageError::NotImplemented)
    }

    fn create_label(&mut self, label: Label) -> (r: StorageResult<Label>)
        ensures
            r == StorageResult::<Label>::Err(StorageError::NotImplemented),
            final(self).next_id() == old(self).next_id(),
            final(self).next_uuid() == old(self).next_uuid(),
            final(self).clock() == old(self).clock(),
    {
        Err(StorageError::NotImplemented)
    }

    fn update_label(&mut self, label: Label) -> (r: StorageResult<Label>)
        ensures
            r == StorageResult::<Label>::Err(StorageError::NotImplemented),
            final(self).next_id() == old(self).next_id(),
            final(self).next_uuid() == old(self).next_uuid(),
            final(self).clock() == old(self).clock(),
    {
        Err(StorageError::NotImplemented)
    }

    fn delete_label(&mut self, label: &Label) -> (r: StorageResult<()>)
        ensures
            r == StorageResult::<()>::Err(StorageError::NotImplemented),
            final(self).next_id() == old(self).next_id(),
            final(self).next_uuid() == old(self).next_uuid(),
            final(self).clock() == old(self).clock(),
    {
        Err(StorageError::NotImplemented)
    }

    #[verifier::loop_isolation(false)]
    fn create_entry(&mut self, entry: Entry) -> (r: StorageResult<Entry>)
        ensures
            old(self).next_id() < i32::MAX as int && old(self).next_uuid() < u128::MAX as int
                && old(self).clock() < i64::MAX as int ==> r is Ok,
            r is Err ==> r->Err_0 == StorageError::CreationImpossible,
            r is Ok ==> final(self).next_id() == old(self).next_id() + 1 && final(self).next_uuid()
                == old(self).next_uuid() + 1 && final(self).clock() == old(self).clock() + 1,
            r is Err ==> final(self).next_id() == old(self).next_id() && final(self).next_uuid()
                == old(self).next_uuid() && final(self).clock() == old(self).clock(),
    {
        if self.id_counter == i32::MAX || self.uuid_counter == u128::MAX || self.tick == i64::MAX {
            return Err(StorageError::CreationImpossible);
        }
        let e = Entry {
            id: self.id_counter,
            uuid: Some(Uuid { value: self.uuid_counter }),
            title: entry.title,
            content: entry.content,
            data: entry.data,
            color: entry.color,
            archived: false,
            created_on: Some(self.tick),
            updated_on: None,
            owner: entry.owner,
            labels: None,
            board: entry.board,
        };
        let stored = e.clone();
        self.entry_rows.insert(0, stored);
        self.id_counter = self.id_counter + 1;
        self.uuid_counter = self.uuid_counter + 1;
        self.tick = self.tick + 1;
        proof {
            let s_old = old(self).entry_rows@;
            let s_new = self.entry_rows@;
            assert(s_new == s_old.insert(0, e));
            assert forall|i: int, j: int| 0 <= i <= j < s_new.len() implies entry_recency(s_new[i])
                >= entry_recency(s_new[j]) by {
                if i > 0 {
                    assert(s_new[i] == s_old[i - 1]);
                    assert(s_new[j] == s_old[j - 1]);
                }
            }
            assert forall|i: int, j: int| 0 <= i < j < s_new.len() implies s_new[i].id
                != s_new[j].id by {
                if i > 0 {
                    assert(s_new[i] == s_old[i - 1]);
                }
                assert(s_new[j] == s_old[j - 1]);
            }
            assert forall|j: int| 0 <= j < s_old.len() implies (#[trigger] s_old[j]).id
                != e.id by {
                assert(entry_row_ok(s_old[j], old(self).tick, old(self).id_counter));
            }
        }
        Ok(e)
    }

    #[verifier::loop_isolation(false)]
    fn update_entry(&mut self, entry: Entry) -> (r: StorageResult<Entry>)
        ensures
            old(self).clock() < i64::MAX as int && (exists|j: int|
                0 <= j < old(self).entries().len() && update_targets(
                    #[trigger] old(self).entries()[j],
                    entry,
                )) ==> r is Ok,
            r is Err ==> r->Err_0 == StorageError::RecordNotFound || r->Err_0 is Backend,
            r is Err && r->Err_0 == StorageError::RecordNotFound ==> forall|j: int|
                0 <= j < old(self).entries().len() ==> !update_targets(
                    #[trigger] old(self).entries()[j],
                    entry,
                ),
            final(self).next_id() == old(self).next_id(),
            final(self).next_uuid() == old(self).next_uuid(),
            r is Ok ==> final(self).clock() == old(self).clock() + 1,
            r is Err ==> final(self).clock() == old(self).clock(),
    {
        if self.tick == i64::MAX {
            return Err(StorageError::Backend("clock exhausted".to_owned()));
        }
        match Self::find_entry_target(&self.entry_rows, entry.id, &entry.owner) {
            None => Err(StorageError::RecordNotFound),
            Some(j) => {
                let t = self.entry_rows.remove(j);
                proof {
                    let s0 = old(self).entry_rows@;
                    let s1 = self.entry_rows@;
                    assert(s1 == s0.remove(j as int));
                    s0.remove_ensures(j as int);
                    assert forall|p: int, q: int|
                        0 <= p <= q < s1.len() implies entry_recency(s1[p]) >= entry_recency(
                        s1[q],
                    ) by {
                        let p0: int = if p < j { p } else { p + 1 };
                        let q0: int = if q < j { q } else { q + 1 };
                        assert(s1[p] == s0[p0]);
                        assert(s1[q] == s0[q0]);
                    }
                    assert forall|p: int, q: int| 0 <= p < q < s1.len() implies s1[p].id
                        != s1[q].id by {
                        let p0: int = if p < j { p } else { p + 1 };
                        let q0: int = if q < j { q } else { q + 1 };
                        assert(s1[p] == s0[p0]);
                        assert(s1[q] == s0[q0]);
                    }
                }
                let e = Entry {
                    id: t.id,
                    uuid: t.uuid,
                    title: entry.title,
                    content: entry.content,
                    data: entry.data,
                    color: entry.color,
                    archived: entry.archived,
                    created_on: t.created_on,
                    updated_on: Some(self.tick),
                    owner: t.owner,
                    labels: None,
                    board: entry.board,
                };
                let k = Self::find_first_updated_entry(&self.entry_rows);
                let stored = e.clone();
                self.entry_rows.insert(k, stored);
                self.tick = self.tick + 1;
                proof {
                    let s0 = old(self).entry_rows@;
                    let s1 = s0.remove(j as int);
                    let s2 = self.entry_rows@;
                    assert(s2 == s1.insert(k as int, e));
                    s1.insert_ensures(k as int, e);
                    assert(s2[k as int] == e);
                    assert forall|p: int, q: int|
                        0 <= p <= q < s2.len() implies entry_recency(s2[p]) >= entry_recency(
                        s2[q],
                    ) by {
                        if p < k {
                            assert(s2[p] == s1[p]);
                        }
                        if q > k {
                            assert(s2[q] == s1[q - 1]);
                        }
                    }
                    assert forall|p: int, q: int| 0 <= p < q < s2.len() implies s2[p].id
                        != s2[q].id by {
                        if p != k && q != k {
                            let p1: int = if p < k { p } else { p - 1 };
                            let q1: int = if q < k { q } else { q - 1 };
                            assert(s2[p] == s1[p1]);
                            assert(s2[q] == s1[q1]);
                        } else {
                            let m: int = if p == k { q } else { p };
                            let m1: int = if m < k { m } else { m - 1 };
                            assert(s2[m] == s1[m1]);
                            let m0: int = if m1 < j { m1 } else { m1 + 1 };
                            assert(s1[m1] == s0[m0]);
                            assert(s0[j as int].id == e.id);
                        }
                    }
                    assert(entry_row_ok(s0[j as int], old(self).tick, old(self).id_counter));
                    assert(0 <= j < old(self).entries().len());
                    assert(update_targets(old(self).entries()[j as int], entry));
                    assert(crate::model::updated_from_row(e, entry, old(self).entries()[j as int]));
                    assert(0 <= (k as int) && (k as int) < old(self).entries().len());
                    assert(self.entries() == old(self).entries().remove(j as int).insert(
                        k as int,
                        e,
                    ));
                    assert forall|j2: int|
                        0 <= j2 < s0.len() && (#[trigger] s0[j2]).id == entry.id
                            && s0[j2].updated_on is Some implies e.updated_on->0
                        > s0[j2].updated_on->0 by {
                        assert(entry_row_ok(s0[j2], old(self).tick, old(self).id_counter));
                    }
                }
                Ok(e)
            },
        }
    }

    #[verifier::loop_isolation(false)]
    fn delete_entry(&mut self, owner_uuid: Uuid, uuid: Uuid) -> (r: StorageResult<()>)
        ensures
            r is Ok,
            final(self).next_id() == old(self).next_id(),
            final(self).next_uuid() == old(self).next_uuid(),
            final(self).clock() == old(self).clock(),
    {
        let mut kept: Vec<Entry> = Vec::new();
        let mut i: usize = 0;
        while i < self.entry_rows.len()
            invariant
                i <= self.entry_rows@.len(),
                kept@ == remaining_entries(
                    self.entry_rows@.subrange(0, i as int),
                    owner_uuid,
                    uuid,
                ),
            decreases self.entry_rows@.len() - i,
        {
            let e = &self.entry_rows[i];
            if !(opt_uuid_is(&e.owner, owner_uuid) && opt_uuid_is(&e.uuid, uuid)) {
                kept.push(e.clone());
            }
            proof {
                let s = self.entry_rows@;
                assert(s.subrange(0, i as int + 1) =~= s.subrange(0, i as int).push(s[i as int]));
                lemma_filter_push(
                    s.subrange(0, i as int),
                    s[i as int],
                    entry_kept_pred(owner_uuid, uuid),
                );
            }
            i = i + 1;
        }
        proof {
            let s = self.entry_rows@;
            assert(s.subrange(0, s.len() as int) =~= s);
            lemma_filter_keeps_sorted(s, entry_kept_pred(owner_uuid, uuid), |e: Entry| entry_recency(e));
            lemma_filter_keeps_distinct(s, entry_kept_pred(owner_uuid, uuid), |e: Entry| e.id as int);
            lemma_filter_props(s, entry_kept_pred(owner_uuid, uuid));
        }
        self.entry_rows = kept;
        Ok(())
    }

    #[verifier::loop_isolation(false)]
    fn get_entry(&self, owner_uuid: Uuid, uuid: Uuid) -> (r: StorageResult<Entry>)
        ensures
            r is Err ==> r->Err_0 == StorageError::RecordNotFound,
            (exists|i: int|
                0 <= i < self.entries().len() && entry_matches(
                    #[trigger] self.entries()[i],
                    owner_uuid,
                    uuid,
                )) ==> r is Ok,
    {
        let mut i: usize = 0;
        while i < self.entry_rows.len()
            invariant
                i <= self.entry_rows@.len(),
                forall|k: int|
                    0 <= k < i ==> !entry_matches(#[trigger] self.entry_rows@[k], owner_uuid, uuid),
            decreases self.entry_rows@.len() - i,
        {
            let e = &self.entry_rows[i];
            if opt_uuid_is(&e.owner, owner_uuid) && opt_uuid_is(&e.uuid, uuid) {
                let found = e.clone();
                proof {
                    assert(self.entry_rows@.contains(self.entry_rows@[i as int]));
                }
                return Ok(found);
            }
            i = i + 1;
        }
        Err(StorageError::RecordNotFound)
    }

    #[verifier::loop_isolation(false)]
    fn get_all_entries(&self, owner_uuid: Uuid) -> (r: StorageResult<Vec<Entry>>)
        ensures
            r is Ok,
    {
        let mut out: Vec<Entry> = Vec::new();
        let mut i: usize = 0;
        while i < self.entry_rows.len()
            invariant
                i <= self.entry_rows@.len(),
                out@ == unfiled_entries(self.entry_rows@.subrange(0, i as int), owner_uuid),
            decreases self.entry_rows@.len() - i,
        {
            let e = &self.entry_rows[i];
            if opt_uuid_is(&e.owner, owner_uuid) && e.board.is_none() {
                out.push(e.clone());
            }
            proof {
                let s = self.entry_rows@;
                assert(s.subrange(0, i as int + 1) =~= s.subrange(0, i as int).push(s[i as int]));
                lemma_filter_push(s.subrange(0, i as int), s[i as int], unfiled_pred(owner_uuid));
            }
            i = i + 1;
        }
        proof {
            let s = self.entry_rows@;
            assert(s.subrange(0, s.len() as int) =~= s);
            lemma_filter_keeps_sorted(s, unfiled_pred(owner_uuid), |e: Entry| entry_recency(e));
        }
        Ok(out)
    }

    #[verifier::loop_isolation(false)]
    fn get_all_entries_by_board(&self, owner_uuid: Uuid, board_uuid: Uuid) -> (r: StorageResult<
        Vec<Entry>,
    >)
        ensures
            r is Ok,
    {
        let mut out: Vec<Entry> = Vec::new();
        let mut i: usize = 0;
        while i < self.entry_rows.len()
            invariant
                i <= self.entry_rows@.len(),
                out@ == board_entries(
                    self.entry_rows@.subrange(0, i as int),
                    owner_uuid,
                    board_uuid,
                ),
            decreases self.entry_rows@.len() - i,
        {
            let e = &self.entry_rows[i];
            if opt_uuid_is(&e.owner, owner_uuid) && opt_uuid_is(&e.board, board_uuid) {
                out.push(e.clone());
            }
            proof {
                let s = self.entry_rows@;
                assert(s.subrange(0, i as int + 1) =~= s.subrange(0, i as int).push(s[i as int]));
                lemma_filter_push(
                    s.subrange(0, i as int),
                    s[i as int],
                    in_board_pred(owner_uuid, board_uuid),
                );
            }
            i = i + 1;
        }
        proof {
            let s = self.entry_rows@;
            assert(s.subrange(0, s.len() as int) =~= s);
            lemma_filter_keeps_sorted(
                s,
                in_board_pred(owner_uuid, board_uuid),
                |e: Entry| entry_recency(e),
            );
        }
        Ok(out)
    }

    #[verifier::loop_isolation(false)]
    fn get_entries_by_ids(&self, owner_uuid: Uuid, ids: &Vec<Uuid>) -> (r: StorageResult<
        Vec<Entry>,
    >)
        ensures
            r is Ok,
    {
        let mut out: Vec<Entry> = Vec::new();
        let mut i: usize = 0;
        while i < self.entry_rows.len()
            invariant
                i <= self.entry_rows@.len(),
                out@ == entries_by_ids(self.entry_rows@.subrange(0, i as int), owner_uuid, ids@),
            decreases self.entry_rows@.len() - i,
        {
            let e = &self.entry_rows[i];
            let keep = opt_uuid_is(&e.owner, owner_uuid) && match &e.uuid {
                Some(u) => contains_uuid(ids, *u),
                None => false,
            };
            if keep {
                out.push(e.clone());
            }
            proof {
                let s = self.entry_rows@;
                assert(s.subrange(0, i as int + 1) =~= s.subrange(0, i as int).push(s[i as int]));
                lemma_filter_push(
                    s.subrange(0, i as int),
                    s[i as int],
                    by_ids_pred(owner_uuid, ids@),
                );
            }
            i = i + 1;
        }
        proof {
            let s = self.entry_rows@;
            assert(s.subrange(0, s.len() as int) =~= s);
            lemma_filter_keeps_sorted(s, by_ids_pred(owner_uuid, ids@), |e: Entry| entry_recency(e));
        }
        Ok(out)
    }
}

} // verus!
