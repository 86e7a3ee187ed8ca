use vstd::prelude::*;

use crate::business::error::{EntryDomainResult, MemorizDomainError};
use crate::entities::board::Board;
use crate::entities::entry::Entry;
use crate::entities::ident::Uuid;
use crate::model::{
    archive_toggle_result, archived_pred, board_entries, board_matches, board_update_targets,
    boards_sorted_by_recency, by_ids_pred, created_board_from, created_entry_from, entries_by_ids,
    entry_matches, entry_recency, filter_archived, lemma_filter_all, lemma_filter_keeps_sorted,
    lemma_filter_partition, lemma_filter_props, lemma_filter_push, owned_boards, owned_unfiled,
    remaining_boards, remaining_entries, same_payload, sorted_by_recency, unfiled_entries,
    unfiled_pred, unique_ids, update_targets, updated_board_from_row, updated_from_row,
};
use crate::storage::error::StorageError;
use crate::storage::traits::{SearchEngineTrait, StorageTrait};

verus! {

/// The archive filter the domain applies in memory, after fetching: `None`
/// keeps the whole listing, `Some(b)` keeps exactly the entries whose flag is
/// `b`. Backends are not asked to filter.
pub fn filter_entries_by_archived(entries: Vec<Entry>, archived_filter: Option<bool>) -> (r: Vec<
    Entry,
>)
    ensures
        r@ == filter_archived(entries@, archived_filter),
{
    match archived_filter {
        None => {
            proof {
                lemma_filter_all(entries@, archived_pred(None));
            }
            entries
        },
        Some(f) => {
            let ghost orig = entries@;
            let mut rest = entries;
            let mut out: Vec<Entry> = Vec::new();
            #[verifier::loop_isolation(false)]
            while rest.len() > 0
                invariant
                    rest@.len() <= orig.len(),
                    rest@ == orig.subrange(orig.len() - rest@.len(), orig.len() as int),
                    out@ == filter_archived(
                        orig.subrange(0, orig.len() - rest@.len()),
                        Some(f),
                    ),
                decreases rest@.len(),
            {
                let ghost k = orig.len() - rest@.len();
                let e = rest.remove(0);
                proof {
                    assert(e == orig[k as int]);
                    assert(rest@ =~= orig.subrange(k as int + 1, orig.len() as int));
                    assert(orig.subrange(0, k as int + 1) =~= orig.subrange(0, k as int).push(
                        orig[k as int],
                    ));
                    lemma_filter_push(orig.subrange(0, k as int), orig[k as int], archived_pred(Some(f)));
                }
                if e.archived == f {
                    out.push(e);
                }
            }
            proof {
                assert(orig.subrange(0, orig.len() as int) =~= orig);
            }
            out
        },
    }
}

/// The domain orchestrator: the only caller-facing surface. It owns exactly
/// one storage backend and one search backend for its lifetime, scopes every
/// operation by the caller's owner uuid, filters archive state in memory, and
/// resolves search hits back through the storage so that ownership is
/// re-validated.
pub struct MemorizDomain<S, E> {
    storage: S,
    search_engine: E,
}

impl<S: StorageTrait, E: SearchEngineTrait> MemorizDomain<S, E> {
    /// The records currently held by the wrapped storage, in listing order.
    pub closed spec fn stored_entries(&self) -> Seq<Entry> {
        self.storage.entries()
    }

    pub closed spec fn stored_boards(&self) -> Seq<Board> {
        self.storage.boards()
    }

    /// The wrapped storage is well formed and its entry rows are keyed by
    /// their numeric id.
    pub closed spec fn wf(&self) -> bool {
        self.storage.inv() && unique_ids(self.storage.entries())
    }

    pub fn new(storage: S, search_engine: E) -> (d: MemorizDomain<S, E>)
        requires
            storage.inv(),
            unique_ids(storage.entries()),
        ensures
            d.wf(),
            d.stored_entries() == storage.entries(),
            d.stored_boards() == storage.boards(),
    {
        MemorizDomain { storage, search_engine }
    }

    /// Unfiled listing for the owner, filtered in memory by archive state,
    /// most recently touched first.
    pub fn get_all_entries(&self, owner_uuid: Uuid, archived_filter: Option<bool>) -> (r:
        EntryDomainResult<Vec<Entry>>)
        requires
            self.wf(),
        ensures
            r is Ok ==> r->Ok_0@ == filter_archived(
                unfiled_entries(self.stored_entries(), owner_uuid),
                archived_filter,
            ) && sorted_by_recency(r->Ok_0@),
            r is Err ==> r->Err_0 is Storage && r->Err_0->Storage_0
                != StorageError::RecordNotFound,
    {
        match self.storage.get_all_entries(owner_uuid) {
            Err(e) => Err(MemorizDomainError::Storage(e)),
            Ok(entries) => {
                proof {
                    lemma_filter_keeps_sorted(
                        entries@,
                        archived_pred(archived_filter),
                        |e: Entry| entry_recency(e),
                    );
                }
                Ok(filter_entries_by_archived(entries, archived_filter))
            },
        }
    }

    /// Listing of one board for the owner, filtered in memory by archive
    /// state, most recently touched first.
    pub fn get_all_entries_by_board(
        &self,
        owner_uuid: Uuid,
        board_uuid: Uuid,
        archived_filter: Option<bool>,
    ) -> (r: EntryDomainResult<Vec<Entry>>)
        requires
            self.wf(),
        ensures
            r is Ok ==> r->Ok_0@ == filter_archived(
                board_entries(self.stored_entries(), owner_uuid, board_uuid),
                archived_filter,
            ) && sorted_by_recency(r->Ok_0@),
            r is Err ==> r->Err_0 is Storage && r->Err_0->Storage_0
                != StorageError::RecordNotFound,
    {
        match self.storage.get_all_entries_by_board(owner_uuid, board_uuid) {
            Err(e) => Err(MemorizDomainError::Storage(e)),
            Ok(entries) => {
                proof {
                    lemma_filter_keeps_sorted(
                        entries@,
                        archived_pred(archived_filter),
                        |e: Entry| entry_recency(e),
                    );
                }
                Ok(filter_entries_by_archived(entries, archived_filter))
            },
        }
    }

    pub fn get_board(&self, owner_uuid: Uuid, uuid: Uuid) -> (r: EntryDomainResult<Board>)
        requires
            self.wf(),
        ensures
            r is Ok ==> board_matches(r->Ok_0, owner_uuid, uuid) && self.stored_boards().contains(
                r->Ok_0,
            ),
            r is Err ==> r->Err_0 is Storage,
            r is Err && r->Err_0 == MemorizDomainError::Storage(StorageError::RecordNotFound)
                ==> forall|i: int|
                0 <= i < self.stored_boards().len() ==> !board_matches(
                    #[trigger] self.stored_boards()[i],
                    owner_uuid,
                    uuid,
                ),
    {
        match self.storage.get_board(owner_uuid, uuid) {
            Err(e) => Err(MemorizDomainError::Storage(e)),
            Ok(b) => Ok(b),
        }
    }

    pub fn get_all_boards(&self, owner_uuid: Uuid) -> (r: EntryDomainResult<Vec<Board>>)
        requires
            self.wf(),
        ensures
            r is Ok ==> r->Ok_0@ == owned_boards(self.stored_boards(), owner_uuid)
                && boards_sorted_by_recency(r->Ok_0@),
            r is Err ==> r->Err_0 is Storage && r->Err_0->Storage_0
                != StorageError::RecordNotFound,
    {
        match self.storage.get_all_boards(owner_uuid) {
            Err(e) => Err(MemorizDomainError::Storage(e)),
            Ok(bs) => Ok(bs),
        }
    }

    pub fn get_entry(&self, owner_uuid: Uuid, uuid: Uuid) -> (r: EntryDomainResult<Entry>)
        requires
            self.wf(),
        ensures
            r is Ok ==> entry_matches(r->Ok_0, owner_uuid, uuid)
                && self.stored_entries().contains(r->Ok_0),
            r is Err ==> r->Err_0 is Storage,
            r is Err && r->Err_0 == MemorizDomainError::Storage(StorageError::RecordNotFound)
                ==> forall|i: int|
                0 <= i < self.stored_entries().len() ==> !entry_matches(
                    #[trigger] self.stored_entries()[i],
                    owner_uuid,
                    uuid,
                ),
    {
        match self.storage.get_entry(owner_uuid, uuid) {
            Err(e) => Err(MemorizDomainError::Storage(e)),
            Ok(e) => Ok(e),
        }
    }

    /// Two-phase search: ask the index for candidate uuids, then resolve them
    /// through the storage, scoped by the owner. Whatever the index answered,
    /// every returned record belongs to the caller and is in the store; a
    /// foreign or stale hit is dropped silently. An index failure propagates
    /// distinctly, never as an empty result.
    pub fn search(&self, owner_uuid: Uuid, query: String) -> (r: EntryDomainResult<Vec<Entry>>)
        requires
            self.wf(),
        ensures
            r is Ok ==> ({
                let es = r->Ok_0@;
                &&& exists|ids: Seq<Uuid>| es == #[trigger] entries_by_ids(
                    self.stored_entries(),
                    owner_uuid,
                    ids,
                )
                &&& forall|i: int|
                    0 <= i < es.len() ==> (#[trigger] es[i]).owner == Some(owner_uuid)
                        && self.stored_entries().contains(es[i])
                &&& sorted_by_recency(es)
            }),
            r is Err ==> r->Err_0 is SearchEngine || (r->Err_0 is Storage && r->Err_0->Storage_0
                != StorageError::RecordNotFound),
    {
        match self.search_engine.search_entries(owner_uuid, query) {
            Err(e) => Err(MemorizDomainError::SearchEngine(e)),
            Ok(ids) => match self.storage.get_entries_by_ids(owner_uuid, &ids) {
                Err(e) => Err(MemorizDomainError::Storage(e)),
                Ok(es) => {
                    proof {
                        lemma_filter_props(self.stored_entries(), by_ids_pred(owner_uuid, ids@));
                        assert(es@ == entries_by_ids(self.stored_entries(), owner_uuid, ids@));
                    }
                    Ok(es)
                },
            },
        }
    }

    /// Persists a caller-constructed entry. The record carries no identity
    /// yet; its owner must already be set, by the boundary layer, from the
    /// authenticated caller, never from the raw payload.
    pub fn create_entry(&mut self, entry: Entry) -> (r: EntryDomainResult<Entry>)
        requires
            old(self).wf(),
            entry.owner is Some,
        ensures
            final(self).wf(),
            final(self).stored_boards() == old(self).stored_boards(),
            r is Ok ==> created_entry_from(r->Ok_0, entry) && final(self).stored_entries() == old(self).stored_entries().insert(0, r->Ok_0),
            r is Err ==> final(self).stored_entries() == old(self).stored_entries() && r->Err_0
                is Storage,
    {
        match self.storage.create_entry(entry) {
            Err(e) => Err(MemorizDomainError::Storage(e)),
            Ok(e) => Ok(e),
        }
    }

    /// Rewrites one entry, targeted by the caller's numeric id and owner: a
    /// row of another owner is never touched, the store keeps its own `uuid`,
    /// `owner` and `created_on`, and on success the store holds exactly the
    /// old rows with the targeted one replaced by the result.
    pub fn update_entry(&mut self, entry: Entry) -> (r: EntryDomainResult<Entry>)
        requires
            old(self).wf(),
        ensures
            final(self).wf(),
            final(self).stored_boards() == old(self).stored_boards(),
            r is Ok ==> ({
                let e = r->Ok_0;
                exists|j: int|
                    {
                        &&& 0 <= j < old(self).stored_entries().len()
                        &&& update_targets(#[trigger] old(self).stored_entries()[j], entry)
                        &&& updated_from_row(e, entry, old(self).stored_entries()[j])
                        &&& exists|k: int|
                            0 <= k < old(self).stored_entries().len() && final(self).stored_entries() == old(self).stored_entries().remove(j).insert(k, e)
                    }
            }),
            r is Err ==> final(self).stored_entries() == old(self).stored_entries() && r->Err_0
                is Storage,
    {
        match self.storage.update_entry(entry) {
            Err(e) => Err(MemorizDomainError::Storage(e)),
            Ok(e) => {
                proof {
                    let s0 = old(self).storage.entries();
                    let jt = choose|jt: int|
                        {
                            &&& 0 <= jt < s0.len()
                            &&& update_targets(#[trigger] s0[jt], entry)
                            &&& updated_from_row(e, entry, s0[jt])
                            &&& exists|k: int|
                                0 <= k < s0.len() && self.storage.entries() == s0.remove(
                                    jt,
                                ).insert(k, e)
                        };
                    let kk = choose|kk: int|
                        0 <= kk < s0.len() && self.storage.entries() == s0.remove(jt).insert(
                            kk,
                            e,
                        );
                    assert(update_targets(old(self).stored_entries()[jt], entry));
                    assert(self.stored_entries() == old(self).stored_entries().remove(jt).insert(
                        kk,
                        e,
                    ));
                }
                Ok(e)
            },
        }
    }

    pub fn delete_entry(&mut self, owner_uuid: Uuid, uuid: Uuid) -> (r: EntryDomainResult<()>)
        requires
            old(self).wf(),
        ensures
            final(self).wf(),
            final(self).stored_boards() == old(self).stored_boards(),
            r is Ok ==> final(self).stored_entries() == remaining_entries(
                old(self).stored_entries(),
                owner_uuid,
                uuid,
            ),
            r is Err ==> final(self).stored_entries() == old(self).stored_entries() && r->Err_0
                is Storage,
    {
        match self.storage.delete_entry(owner_uuid, uuid) {
            Err(e) => Err(MemorizDomainError::Storage(e)),
            Ok(u) => Ok(u),
        }
    }

    /// Read-modify-write archive toggle: fetch the entry (owner-scoped, fails
    /// with the storage's not-found if it is missing, and no update is
    /// attempted then), set the flag, persist. Every other payload field of
    /// the stored record is carried over unchanged; the backend moves
    /// `updated_on` strictly forward.
    fn set_archive_flag(&mut self, owner_uuid: Uuid, uuid: Uuid, archived: bool) -> (r:
        EntryDomainResult<Entry>)
        requires
            old(self).wf(),
        ensures
            final(self).wf(),
            final(self).stored_boards() == old(self).stored_boards(),
            r is Ok ==> ({
                let e = r->Ok_0;
                &&& e.archived == archived
                &&& entry_matches(e, owner_uuid, uuid)
                &&& exists|j: int|
                    {
                        &&& 0 <= j < old(self).stored_entries().len()
                        &&& entry_matches(#[trigger] old(self).stored_entries()[j], owner_uuid, uuid)
                        &&& archive_toggle_result(e, old(self).stored_entries()[j], archived)
                        &&& exists|k: int|
                            0 <= k < old(self).stored_entries().len() && final(self).stored_entries() == old(self).stored_entries().remove(j).insert(k, e)
                    }
            }),
            r is Err ==> final(self).stored_entries() == old(self).stored_entries() && r->Err_0
                is Storage,
    {
        let fetched = self.storage.get_entry(owner_uuid, uuid);
        match fetched {
            Err(e) => Err(MemorizDomainError::Storage(e)),
            Ok(prev) => {
                let ghost prev_g = prev;
                let mut flipped = prev;
                flipped.archived = archived;
                match self.storage.update_entry(flipped) {
                    Err(e) => Err(MemorizDomainError::Storage(e)),
                    Ok(e) => {
                        proof {
                            let s = old(self).stored_entries();
                            let jp = choose|jp: int| 0 <= jp < s.len() && s[jp] == prev_g;
                            let jt = choose|jt: int|
                                {
                                    &&& 0 <= jt < s.len()
                                    &&& update_targets(#[trigger] s[jt], flipped)
                                    &&& updated_from_row(e, flipped, s[jt])
                                    &&& exists|k: int|
                                        0 <= k < s.len() && final(self).stored_entries()
                                            == s.remove(jt).insert(k, e)
                                };
                            if jt != jp {
                                // Two rows would share one numeric id.
                                assert(s[jt].id == s[jp].id);
                                assert(false);
                            }
                            assert(s[jt] == prev_g);
                            assert(archive_toggle_result(e, prev_g, archived));
                        }
                        Ok(e)
                    },
                }
            },
        }
    }

    /// Marks the entry archived; see `set_archive_flag` for the full story.
    pub fn archive_entry(&mut self, owner_uuid: Uuid, uuid: Uuid) -> (r: EntryDomainResult<Entry>)
        requires
            old(self).wf(),
        ensures
            final(self).wf(),
            final(self).stored_boards() == old(self).stored_boards(),
            r is Ok ==> ({
                let e = r->Ok_0;
                &&& e.archived
                &&& entry_matches(e, owner_uuid, uuid)
                &&& exists|j: int|
                    {
                        &&& 0 <= j < old(self).stored_entries().len()
                        &&& entry_matches(#[trigger] old(self).stored_entries()[j], owner_uuid, uuid)
                        &&& archive_toggle_result(e, old(self).stored_entries()[j], true)
                        &&& exists|k: int|
                            0 <= k < old(self).stored_entries().len() && final(self).stored_entries() == old(self).stored_entries().remove(j).insert(k, e)
                    }
            }),
            r is Err ==> final(self).stored_entries() == old(self).stored_entries() && r->Err_0
                is Storage,
    {
        self.set_archive_flag(owner_uuid, uuid, true)
    }

    /// Clears the archive flag again; see `set_archive_flag`.
    pub fn undo_archive_entry(&mut self, owner_uuid: Uuid, uuid: Uuid) -> (r: EntryDomainResult<
        Entry,
    >)
        requires
            old(self).wf(),
        ensures
            final(self).wf(),
            final(self).stored_boards() == old(self).stored_boards(),
            r is Ok ==> ({
                let e = r->Ok_0;
                &&& !e.archived
                &&& entry_matches(e, owner_uuid, uuid)
                &&& exists|j: int|
                    {
                        &&& 0 <= j < old(self).stored_entries().len()
                        &&& entry_matches(#[trigger] old(self).stored_entries()[j], owner_uuid, uuid)
                        &&& archive_toggle_result(e, old(self).stored_entries()[j], false)
                        &&& exists|k: int|
                            0 <= k < old(self).stored_entries().len() && final(self).stored_entries() == old(self).stored_entries().remove(j).insert(k, e)
                    }
            }),
            r is Err ==> final(self).stored_entries() == old(self).stored_entries() && r->Err_0
                is Storage,
    {
        self.set_archive_flag(owner_uuid, uuid, false)
    }

    /// Persists a caller-constructed board; as with entries, the owner must
    /// already identify the authenticated caller.
    pub fn create_board(&mut self, board: Board) -> (r: EntryDomainResult<Board>)
        requires
            old(self).wf(),
            board.owner is Some,
        ensures
            final(self).wf(),
            final(self).stored_entries() == old(self).stored_entries(),
            r is Ok ==> created_board_from(r->Ok_0, board) && final(self).stored_boards() == old(self).stored_boards().insert(0, r->Ok_0),
            r is Err ==> final(self).stored_boards() == old(self).stored_boards() && r->Err_0
                is Storage,
    {
        match self.storage.create_board(board) {
            Err(e) => Err(MemorizDomainError::Storage(e)),
            Ok(b) => Ok(b),
        }
    }

    /// Rewrites one board, targeted by the caller's uuid and owner: a board of
    /// another owner is never touched, the store keeps its own `created_on`,
    /// and on success the store holds exactly the old rows with the targeted
    /// one replaced by the result.
    pub fn update_board(&mut self, board: Board) -> (r: EntryDomainResult<Board>)
        requires
            old(self).wf(),
        ensures
            final(self).wf(),
            final(self).stored_entries() == old(self).stored_entries(),
            r is Ok ==> ({
                let b = r->Ok_0;
                exists|j: int|
                    {
                        &&& 0 <= j < old(self).stored_boards().len()
                        &&& board_update_targets(#[trigger] old(self).stored_boards()[j], board)
                        &&& updated_board_from_row(b, board, old(self).stored_boards()[j])
                        &&& exists|k: int|
                            0 <= k < old(self).stored_boards().len() && final(self).stored_boards() == old(self).stored_boards().remove(j).insert(k, b)
                    }
            }),
            r is Err ==> final(self).stored_boards() == old(self).stored_boards() && r->Err_0
                is Storage,
    {
        match self.storage.update_board(board) {
            Err(e) => Err(MemorizDomainError::Storage(e)),
            Ok(b) => {
                proof {
                    let s0 = old(self).storage.boards();
                    let jt = choose|jt: int|
                        {
                            &&& 0 <= jt < s0.len()
                            &&& board_update_targets(#[trigger] s0[jt], board)
                            &&& updated_board_from_row(b, board, s0[jt])
                            &&& exists|k: int|
                                0 <= k < s0.len() && self.storage.boards() == s0.remove(jt).insert(
                                    k,
                                    b,
                                )
                        };
                    let kk = choose|kk: int|
                        0 <= kk < s0.len() && self.storage.boards() == s0.remove(jt).insert(kk, b);
                    assert(board_update_targets(old(self).stored_boards()[jt], board));
                    assert(self.stored_boards() == old(self).stored_boards().remove(jt).insert(
                        kk,
                        b,
                    ));
                }
                Ok(b)
            },
        }
    }

    pub fn delete_board(&mut self, owner_uuid: Uuid, uuid: Uuid) -> (r: EntryDomainResult<()>)
        requires
            old(self).wf(),
        ensures
            final(self).wf(),
            final(self).stored_entries() == old(self).stored_entries(),
            r is Ok ==> final(self).stored_boards() == remaining_boards(
                old(self).stored_boards(),
                owner_uuid,
                uuid,
            ),
            r is Err ==> final(self).stored_boards() == old(self).stored_boards() && r->Err_0
                is Storage,
    {
        match self.storage.delete_board(owner_uuid, uuid) {
            Err(e) => Err(MemorizDomainError::Storage(e)),
            Ok(u) => Ok(u),
        }
    }
}

/// Ownership isolation: no listing, bulk resolution or board listing made for
/// one owner ever contains a record of a different owner.
pub proof fn lemma_ownership_isolation(s: Seq<Entry>, bs: Seq<Board>, a: Uuid, b: Uuid)
    requires
        a != b,
    ensures
        forall|i: int|
            0 <= i < unfiled_entries(s, b).len() ==> (#[trigger] unfiled_entries(s, b)[i]).owner
                != Some(a),
        forall|board: Uuid, i: int|
            0 <= i < board_entries(s, b, board).len() ==> (#[trigger] board_entries(
                s,
                b,
                board,
            )[i]).owner != Some(a),
        forall|ids: Seq<Uuid>, i: int|
            0 <= i < entries_by_ids(s, b, ids).len() ==> (#[trigger] entries_by_ids(
                s,
                b,
                ids,
            )[i]).owner != Some(a),
        forall|i: int|
            0 <= i < owned_boards(bs, b).len() ==> (#[trigger] owned_boards(bs, b)[i]).owner
                != Some(a),
{
    lemma_filter_props(s, unfiled_pred(b));
    assert forall|board: Uuid, i: int|
        0 <= i < board_entries(s, b, board).len() implies (#[trigger] board_entries(
        s,
        b,
        board,
    )[i]).owner != Some(a) by {
        lemma_filter_props(s, crate::model::in_board_pred(b, board));
    }
    assert forall|ids: Seq<Uuid>, i: int|
        0 <= i < entries_by_ids(s, b, ids).len() implies (#[trigger] entries_by_ids(
        s,
        b,
        ids,
    )[i]).owner != Some(a) by {
        lemma_filter_props(s, by_ids_pred(b, ids));
    }
    lemma_filter_props(bs, crate::model::board_owned_pred(b));
}

/// Filter correctness: no filter returns the full listing unchanged; a flag
/// filter selects exactly the sub-listing with that flag value; the two flag
/// values partition the full listing.
pub proof fn lemma_archive_filter_correctness(s: Seq<Entry>)
    ensures
        filter_archived(s, None) == s,
        forall|b: bool, i: int|
            0 <= i < filter_archived(s, Some(b)).len() ==> (#[trigger] filter_archived(
                s,
                Some(b),
            )[i]).archived == b && s.contains(filter_archived(s, Some(b))[i]),
        forall|b: bool, e: Entry|
            s.contains(e) && e.archived == b ==> #[trigger] filter_archived(s, Some(b)).contains(
                e,
            ),
        filter_archived(s, Some(true)).len() + filter_archived(s, Some(false)).len() == s.len(),
{
    lemma_filter_all(s, archived_pred(None));
    assert forall|b: bool, i: int|
        0 <= i < filter_archived(s, Some(b)).len() implies (#[trigger] filter_archived(
        s,
        Some(b),
    )[i]).archived == b && s.contains(filter_archived(s, Some(b))[i]) by {
        lemma_filter_props(s, archived_pred(Some(b)));
    }
    assert forall|b: bool, e: Entry|
        s.contains(e) && e.archived == b implies #[trigger] filter_archived(s, Some(b)).contains(
        e,
    ) by {
        let i = choose|i: int| 0 <= i < s.len() && s[i] == e;
        s.lemma_filter_contains(archived_pred(Some(b)), i);
    }
    lemma_filter_partition(s, archived_pred(Some(true)), archived_pred(Some(false)));
}

/// Board scoping: an entry filed on a board never shows up in the unfiled
/// listing, and shows up in its own board's listing exactly when it is stored
/// under the listing owner.
pub proof fn lemma_board_scoping(s: Seq<Entry>, owner: Uuid, board: Uuid, e: Entry)
    requires
        e.board == Some(board),
    ensures
        !unfiled_entries(s, owner).contains(e),
        s.contains(e) && e.owner == Some(owner) ==> board_entries(s, owner, board).contains(e),
{
    lemma_filter_props(s, unfiled_pred(owner));
    if unfiled_entries(s, owner).contains(e) {
        let i = choose|i: int|
            0 <= i < unfiled_entries(s, owner).len() && unfiled_entries(s, owner)[i] == e;
        assert(owned_unfiled(e, owner));
    }
    if s.contains(e) && e.owner == Some(owner) {
        let i = choose|i: int| 0 <= i < s.len() && s[i] == e;
        s.lemma_filter_contains(crate::model::in_board_pred(owner, board), i);
    }
}

/// Archiving and then unarchiving an active entry restores the archive flag
/// and the whole record; only `updated_on` changes, moving strictly forward
/// across both calls, and the final store is the original with exactly that
/// one row replaced. The hypotheses are what `archive_entry` and then
/// `undo_archive_entry` ensure of their results and of the store, plus one
/// premise: the original store answers the `(owner, uuid)` lookup with at
/// most one row. (An entry that starts out already archived is not restored:
/// the pair of calls leaves it active, so it stays outside this law.)
pub proof fn lemma_archive_round_trip(
    s0: Seq<Entry>,
    s1: Seq<Entry>,
    s2: Seq<Entry>,
    owner: Uuid,
    uuid: Uuid,
    e1: Entry,
    e2: Entry,
    j1: int,
    k1: int,
    j2: int,
    k2: int,
)
    requires
        forall|i: int, j: int|
            0 <= i < j < s0.len() && entry_matches(#[trigger] s0[i], owner, uuid)
                ==> !entry_matches(#[trigger] s0[j], owner, uuid),
        !s0[j1].archived,
        0 <= j1 < s0.len(),
        entry_matches(s0[j1], owner, uuid),
        archive_toggle_result(e1, s0[j1], true),
        0 <= k1 < s0.len(),
        s1 == s0.remove(j1).insert(k1, e1),
        0 <= j2 < s1.len(),
        entry_matches(s1[j2], owner, uuid),
        archive_toggle_result(e2, s1[j2], false),
        0 <= k2 < s1.len(),
        s2 == s1.remove(j2).insert(k2, e2),
    ensures
        e2.archived == s0[j1].archived,
        same_payload(e2, s0[j1]),
        e2.id == s0[j1].id,
        e2.uuid == s0[j1].uuid,
        e2.owner == s0[j1].owner,
        e2.created_on == s0[j1].created_on,
        e2.updated_on is Some,
        s0[j1].updated_on is Some ==> e2.updated_on->0 > s0[j1].updated_on->0,
        s2 == s0.remove(j1).insert(k2, e2),
{
    let prev = s0[j1];
    let x = s0.remove(j1);
    s0.remove_ensures(j1);
    x.insert_ensures(k1, e1);
    // The undo call fetched the very record the archive call wrote: any other
    // row of the middle store answering the lookup would be a second match in
    // the original store.
    assert(s1[j2] == e1) by {
        if j2 != k1 {
            let m: int = if j2 < k1 {
                j2
            } else {
                j2 - 1
            };
            assert(s1[j2] == x[m]);
            let m0: int = if m < j1 {
                m
            } else {
                m + 1
            };
            assert(x[m] == s0[m0]);
            assert(entry_matches(s0[m0], owner, uuid));
            if m0 < j1 {
                assert(!entry_matches(s0[j1], owner, uuid));
            } else {
                assert(!entry_matches(s0[m0], owner, uuid));
            }
            assert(false);
        }
    }
    // Removing the freshly inserted row gives the original store back, minus
    // the targeted row.
    assert(s1.remove(k1) =~= x);
    assert(s2 == s0.remove(j1).insert(k2, e2));
}

} // verus!
