use vstd::prelude::*;

use crate::entities::board::Board;
use crate::entities::entry::Entry;
use crate::entities::ident::Uuid;

verus! {

/// Listing order is "most recently touched first": records are compared by
/// `updated_on`, and a record that was never updated counts as more recent
/// than every updated one (it was just created).
pub open spec fn recency_key(updated_on: Option<i64>) -> int {
    match updated_on {
        None => i64::MAX as int + 1,
        Some(t) => t as int,
    }
}

pub open spec fn entry_recency(e: Entry) -> int {
    recency_key(e.updated_on)
}

pub open spec fn board_recency(b: Board) -> int {
    recency_key(b.updated_on)
}

pub open spec fn sorted_by_recency(s: Seq<Entry>) -> bool {
    forall|i: int, j: int| 0 <= i <= j < s.len() ==> entry_recency(s[i]) >= entry_recency(s[j])
}

pub open spec fn boards_sorted_by_recency(s: Seq<Board>) -> bool {
    forall|i: int, j: int| 0 <= i <= j < s.len() ==> board_recency(s[i]) >= board_recency(s[j])
}

/// The entry belongs to `owner` and sits on no board.
pub open spec fn owned_unfiled(e: Entry, owner: Uuid) -> bool {
    e.owner == Some(owner) && e.board is None
}

/// The entry belongs to `owner` and sits on the board `board`.
pub open spec fn owned_in_board(e: Entry, owner: Uuid, board: Uuid) -> bool {
    e.owner == Some(owner) && e.board == Some(board)
}

pub open spec fn board_owned(b: Board, owner: Uuid) -> bool {
    b.owner == Some(owner)
}

/// The record a point lookup by `(owner, uuid)` is after.
pub open spec fn entry_matches(e: Entry, owner: Uuid, uuid: Uuid) -> bool {
    e.owner == Some(owner) && e.uuid == Some(uuid)
}

pub open spec fn board_matches(b: Board, owner: Uuid, uuid: Uuid) -> bool {
    b.owner == Some(owner) && b.uuid == Some(uuid)
}

pub open spec fn has_uuid_in(e: Entry, ids: Seq<Uuid>) -> bool {
    match e.uuid {
        Some(u) => ids.contains(u),
        None => false,
    }
}

/// The archive filter the domain applies after fetching: `None` keeps
/// everything, `Some(b)` keeps exactly the entries whose flag equals `b`.
pub open spec fn matches_archived(e: Entry, f: Option<bool>) -> bool {
    match f {
        None => true,
        Some(b) => e.archived == b,
    }
}

// The predicates below are shared, under one definition each, by the filtered
// listings and by the lemmas about them.
pub open spec fn unfiled_pred(owner: Uuid) -> spec_fn(Entry) -> bool {
    |e: Entry| owned_unfiled(e, owner)
}

pub open spec fn in_board_pred(owner: Uuid, board: Uuid) -> spec_fn(Entry) -> bool {
    |e: Entry| owned_in_board(e, owner, board)
}

pub open spec fn board_owned_pred(owner: Uuid) -> spec_fn(Board) -> bool {
    |b: Board| board_owned(b, owner)
}

pub open spec fn by_ids_pred(owner: Uuid, ids: Seq<Uuid>) -> spec_fn(Entry) -> bool {
    |e: Entry| e.owner == Some(owner) && has_uuid_in(e, ids)
}

pub open spec fn archived_pred(f: Option<bool>) -> spec_fn(Entry) -> bool {
    |e: Entry| matches_archived(e, f)
}

pub open spec fn entry_kept_pred(owner: Uuid, uuid: Uuid) -> spec_fn(Entry) -> bool {
    |e: Entry| !entry_matches(e, owner, uuid)
}

pub open spec fn board_kept_pred(owner: Uuid, uuid: Uuid) -> spec_fn(Board) -> bool {
    |b: Board| !board_matches(b, owner, uuid)
}

/// The unfiled listing for `owner`, in store order.
pub open spec fn unfiled_entries(s: Seq<Entry>, owner: Uuid) -> Seq<Entry> {
    s.filter(unfiled_pred(owner))
}

/// The listing of board `board` for `owner`, in store order.
pub open spec fn board_entries(s: Seq<Entry>, owner: Uuid, board: Uuid) -> Seq<Entry> {
    s.filter(in_board_pred(owner, board))
}

pub open spec fn owned_boards(s: Seq<Board>, owner: Uuid) -> Seq<Board> {
    s.filter(board_owned_pred(owner))
}

/// The bulk resolution of externally supplied ids: only records that belong
/// to `owner` and whose uuid occurs in `ids` survive; anything foreign or
/// missing is dropped silently.
pub open spec fn entries_by_ids(s: Seq<Entry>, owner: Uuid, ids: Seq<Uuid>) -> Seq<Entry> {
    s.filter(by_ids_pred(owner, ids))
}

pub open spec fn filter_archived(s: Seq<Entry>, f: Option<bool>) -> Seq<Entry> {
    s.filter(archived_pred(f))
}

/// What a deletion keyed by `(owner, uuid)` leaves behind.
pub open spec fn remaining_entries(s: Seq<Entry>, owner: Uuid, uuid: Uuid) -> Seq<Entry> {
    s.filter(entry_kept_pred(owner, uuid))
}

pub open spec fn remaining_boards(s: Seq<Board>, owner: Uuid, uuid: Uuid) -> Seq<Board> {
    s.filter(board_kept_pred(owner, uuid))
}

/// The caller-editable payload of an entry, preserved verbatim by create and
/// update. Labels are not part of it: no backend persists them.
pub open spec fn same_payload(a: Entry, b: Entry) -> bool {
    &&& a.title == b.title
    &&& a.content == b.content
    &&& a.data == b.data
    &&& a.color == b.color
    &&& a.board == b.board
}

pub open spec fn same_board_payload(a: Board, b: Board) -> bool {
    &&& a.title == b.title
    &&& a.data == b.data
    &&& a.color == b.color
}

/// What a backend hands back for a freshly created entry: the caller's
/// payload and owner verbatim, a fresh identity, the flag down, the creation
/// stamp set and the update stamp absent.
pub open spec fn created_entry_from(e: Entry, entry: Entry) -> bool {
    &&& e.uuid is Some
    &&& e.owner == entry.owner
    &&& same_payload(e, entry)
    &&& !e.archived
    &&& e.created_on is Some
    &&& e.updated_on is None
    &&& e.labels is None
}

/// The row a rewrite targets: the caller's numeric id and the caller's
/// owner. A row of another owner is never touched.
pub open spec fn update_targets(t: Entry, entry: Entry) -> bool {
    t.id == entry.id && t.owner == entry.owner
}

pub open spec fn board_update_targets(t: Board, board: Board) -> bool {
    t.uuid == board.uuid && t.owner == board.owner
}

/// What a backend hands back for a rewritten entry: the caller's payload and
/// flag, the targeted row's identity and non-editable fields (the store keeps
/// its own `uuid`, `owner` and `created_on`, whatever the caller sent), and a
/// backend-assigned update stamp, strictly above the row's previous one.
pub open spec fn updated_from_row(e: Entry, entry: Entry, t: Entry) -> bool {
    &&& e.id == t.id
    &&& e.uuid == t.uuid
    &&& e.owner == t.owner
    &&& e.created_on == t.created_on
    &&& same_payload(e, entry)
    &&& e.archived == entry.archived
    &&& e.updated_on is Some
    &&& (t.updated_on is Some ==> e.updated_on->0 > t.updated_on->0)
    &&& e.labels is None
}

pub open spec fn created_board_from(b: Board, board: Board) -> bool {
    &&& b.uuid is Some
    &&& b.owner == board.owner
    &&& same_board_payload(b, board)
    &&& b.created_on is Some
    &&& b.updated_on is None
}

/// The board analogue of `updated_from_row`.
pub open spec fn updated_board_from_row(b: Board, board: Board, t: Board) -> bool {
    &&& b.uuid == t.uuid
    &&& b.owner == t.owner
    &&& b.created_on == t.created_on
    &&& same_board_payload(b, board)
    &&& b.updated_on is Some
    &&& (t.updated_on is Some ==> b.updated_on->0 > t.updated_on->0)
}

/// Stored entries are keyed by their numeric id: no two rows carry the same.
pub open spec fn unique_ids(s: Seq<Entry>) -> bool {
    forall|i: int, j: int| 0 <= i < j < s.len() ==> s[i].id != s[j].id
}

/// What the archive toggle hands back: the fetched record with only the flag
/// and the update stamp changed, the stamp moving strictly forward.
pub open spec fn archive_toggle_result(e: Entry, prev: Entry, archived: bool) -> bool {
    &&& same_payload(e, prev)
    &&& e.id == prev.id
    &&& e.uuid == prev.uuid
    &&& e.owner == prev.owner
    &&& e.created_on == prev.created_on
    &&& e.archived == archived
    &&& e.updated_on is Some
    &&& (prev.updated_on is Some ==> e.updated_on->0 > prev.updated_on->0)
    &&& e.labels is None
}

/// Filtering commutes with appending one element.
pub proof fn lemma_filter_push<A>(s: Seq<A>, x: A, pred: spec_fn(A) -> bool)
    ensures
        pred(x) ==> s.push(x).filter(pred) == s.filter(pred).push(x),
        !pred(x) ==> s.push(x).filter(pred) == s.filter(pred),
{
    reveal(Seq::filter);
    assert(s.push(x).drop_last() =~= s);
    assert(s.push(x).last() == x);
}

/// Every element of a filtered sequence occurs in the unfiltered one and
/// satisfies the predicate.
pub proof fn lemma_filter_props<A>(s: Seq<A>, pred: spec_fn(A) -> bool)
    ensures
        forall|i: int|
            0 <= i < s.filter(pred).len() ==> s.contains(#[trigger] s.filter(pred)[i]) && pred(
                s.filter(pred)[i],
            ),
    decreases s.len(),
{
    reveal(Seq::filter);
    if s.len() > 0 {
        let t = s.drop_last();
        lemma_filter_props(t, pred);
        assert forall|i: int| 0 <= i < s.filter(pred).len() implies s.contains(
            #[trigger] s.filter(pred)[i],
        ) && pred(s.filter(pred)[i]) by {
            if i < t.filter(pred).len() {
                let x = t.filter(pred)[i];
                let j = choose|j: int| 0 <= j < t.len() && t[j] == x;
                assert(s[j] == x);
            } else {
                assert(s.filter(pred)[i] == s.last());
                assert(s[s.len() - 1] == s.last());
            }
        }
    }
}

/// Filtering keeps a sequence sorted (descending in `key`).
pub proof fn lemma_filter_keeps_sorted<A>(
    s: Seq<A>,
    pred: spec_fn(A) -> bool,
    key: spec_fn(A) -> int,
)
    requires
        forall|i: int, j: int| 0 <= i <= j < s.len() ==> key(s[i]) >= key(s[j]),
    ensures
        forall|i: int, j: int|
            0 <= i <= j < s.filter(pred).len() ==> key(s.filter(pred)[i]) >= key(
                s.filter(pred)[j],
            ),
    decreases s.len(),
{
    reveal(Seq::filter);
    if s.len() > 0 {
        let t = s.drop_last();
        assert(forall|i: int, j: int| 0 <= i <= j < t.len() ==> key(t[i]) >= key(t[j]));
        lemma_filter_keeps_sorted(t, pred, key);
        lemma_filter_props(t, pred);
        let f = s.filter(pred);
        let ft = t.filter(pred);
        assert forall|i: int, j: int| 0 <= i <= j < f.len() implies key(f[i]) >= key(f[j]) by {
            if pred(s.last()) {
                assert(f == ft.push(s.last()));
                if j < ft.len() {
                    assert(key(ft[i]) >= key(ft[j]));
                } else {
                    assert(f[j] == s.last());
                    if i < ft.len() {
                        let x = ft[i];
                        let k = choose|k: int| 0 <= k < t.len() && t[k] == x;
                        assert(s[k] == x);
                        assert(key(s[k]) >= key(s[s.len() - 1]));
                    }
                }
            } else {
                assert(f == ft);
            }
        }
    }
}

/// Filtering keeps pairwise-distinct keys pairwise distinct.
pub proof fn lemma_filter_keeps_distinct<A>(
    s: Seq<A>,
    pred: spec_fn(A) -> bool,
    key: spec_fn(A) -> int,
)
    requires
        forall|i: int, j: int| 0 <= i < j < s.len() ==> key(s[i]) != key(s[j]),
    ensures
        forall|i: int, j: int|
            0 <= i < j < s.filter(pred).len() ==> key(s.filter(pred)[i]) != key(
                s.filter(pred)[j],
            ),
    decreases s.len(),
{
    reveal(Seq::filter);
    if s.len() > 0 {
        let t = s.drop_last();
        assert(forall|i: int, j: int| 0 <= i < j < t.len() ==> key(t[i]) != key(t[j]));
        lemma_filter_keeps_distinct(t, pred, key);
        lemma_filter_props(t, pred);
        let f = s.filter(pred);
        let ft = t.filter(pred);
        assert forall|i: int, j: int| 0 <= i < j < f.len() implies key(f[i]) != key(f[j]) by {
            if pred(s.last()) {
                assert(f == ft.push(s.last()));
                if j < ft.len() {
                    assert(key(ft[i]) != key(ft[j]));
                } else {
                    assert(f[j] == s.last());
                    let x = ft[i];
                    let m = choose|m: int| 0 <= m < t.len() && t[m] == x;
                    assert(s[m] == x);
                    assert(key(s[m]) != key(s[s.len() - 1]));
                }
            } else {
                assert(f == ft);
            }
        }
    }
}

/// Filtering with a predicate that holds everywhere changes nothing.
pub proof fn lemma_filter_all<A>(s: Seq<A>, pred: spec_fn(A) -> bool)
    requires
        forall|i: int| 0 <= i < s.len() ==> pred(#[trigger] s[i]),
    ensures
        s.filter(pred) == s,
    decreases s.len(),
{
    reveal(Seq::filter);
    if s.len() > 0 {
        let t = s.drop_last();
        assert(forall|i: int| 0 <= i < t.len() ==> pred(#[trigger] t[i]));
        lemma_filter_all(t, pred);
        assert(pred(s[s.len() - 1]));
        assert(s.filter(pred) == t.push(s.last()));
        assert(t.push(s.last()) =~= s);
    }
}

/// A predicate and its negation split a sequence without loss or overlap.
pub proof fn lemma_filter_partition<A>(s: Seq<A>, p: spec_fn(A) -> bool, q: spec_fn(A) -> bool)
    requires
        forall|x: A| #[trigger] p(x) == !q(x),
    ensures
        s.filter(p).len() + s.filter(q).len() == s.len(),
    decreases s.len(),
{
    reveal(Seq::filter);
    if s.len() > 0 {
        lemma_filter_partition(s.drop_last(), p, q);
    }
}

} // verus!
