use vstd::prelude::*;

use crate::entities::board::Board;
use crate::entities::entry::Entry;
use crate::entities::ident::Uuid;
use crate::entities::label::Label;
use crate::model::{
    board_entries, board_matches, board_update_targets, boards_sorted_by_recency,
    created_board_from, created_entry_from, entries_by_ids, entry_matches, owned_boards,
    remaining_boards, remaining_entries, sorted_by_recency, unfiled_entries, unique_ids,
    update_targets, updated_board_from_row, updated_from_row,
};
use crate::storage::error::{SearchEngineError, SearchEngineResult, StorageError, StorageResult};

verus! {

/// The storage capability: everything a persistence backend must provide.
///
/// A backend is specified through two abstract sequences, `entries()` and
/// `boards()`, holding the current records in listing order (most recently
/// touched first). Success is never owed: any method may answer with a
/// failure (an I/O fault, or `NotImplemented` in a stub backend), so every
/// guarantee below is conditional on the outcome. What is unconditional is
/// ownership scoping: no method ever hands out or removes a record whose
/// owner differs from the caller-supplied one. The numeric id keys the entry
/// rows: no backend ever holds two rows with the same one, stated on each
/// operation that touches the entry rows.
pub trait StorageTrait: Sized {
    /// The current entry records, most recently touched first. A backend
    /// whose reads are all stubs may leave the model at its default.
    open spec fn entries(&self) -> Seq<Entry> {
        Seq::empty()
    }

    /// The current board records, most recently touched first.
    open spec fn boards(&self) -> Seq<Board> {
        Seq::empty()
    }

    /// Backend well-formedness; constructors establish it, methods keep it.
    open spec fn inv(&self) -> bool {
        true
    }


    /// Point lookup of a board, scoped by owner. `RecordNotFound` is answered
    /// only when no board of this owner carries this uuid.
    fn get_board(&self, owner_uuid: Uuid, uuid: Uuid) -> (r: StorageResult<Board>)
        requires
            self.inv(),
        ensures
            r is Ok ==> board_matches(r->Ok_0, owner_uuid, uuid) && self.boards().contains(
                r->Ok_0,
            ),
            r is Err && r->Err_0 == StorageError::RecordNotFound ==> forall|i: int|
                0 <= i < self.boards().len() ==> !board_matches(
                    #[trigger] self.boards()[i],
                    owner_uuid,
                    uuid,
                ),
    ;

    /// Persists a caller-constructed board. The backend assigns the identity
    /// and the creation timestamp; the caller's payload and owner are kept
    /// verbatim and `updated_on` starts out absent.
    fn create_board(&mut self, board: Board) -> (r: StorageResult<Board>)
        requires
            old(self).inv(),
        ensures
            final(self).inv(),
            final(self).entries() == old(self).entries(),
            r is Ok ==> created_board_from(r->Ok_0, board) && final(self).boards() == old(self).boards().insert(0, r->Ok_0),
            r is Err ==> final(self).boards() == old(self).boards(),
    ;

    /// Lists the boards of `owner_uuid`, most recently touched first.
    fn get_all_boards(&self, owner_uuid: Uuid) -> (r: StorageResult<Vec<Board>>)
        requires
            self.inv(),
        ensures
            r is Ok ==> r->Ok_0@ == owned_boards(self.boards(), owner_uuid)
                && boards_sorted_by_recency(r->Ok_0@),
            r is Err ==> r->Err_0 != StorageError::RecordNotFound,
    ;

    /// Rewrites one board row, targeted by the caller's uuid and owner: a
    /// board of another owner is never touched. The payload comes from the
    /// caller; the row keeps its own `created_on`, and the backend stamps
    /// `updated_on` itself, strictly above the stamp the targeted row carried
    /// before. On success the store holds exactly the old rows with the
    /// targeted one replaced by the result, at its new recency position.
    fn update_board(&mut self, board: Board) -> (r: StorageResult<Board>)
        requires
            old(self).inv(),
        ensures
            final(self).inv(),
            final(self).entries() == old(self).entries(),
            r is Ok ==> ({
                let b = r->Ok_0;
                exists|j: int|
                    {
                        &&& 0 <= j < old(self).boards().len()
                        &&& board_update_targets(#[trigger] old(self).boards()[j], board)
                        &&& updated_board_from_row(b, board, old(self).boards()[j])
                        &&& exists|k: int|
                            0 <= k < old(self).boards().len() && final(self).boards() == old(self).boards().remove(j).insert(k, b)
                    }
            }),
            r is Err ==> final(self).boards() == old(self).boards(),
    ;

    /// Removes the board with this uuid if it belongs to `owner_uuid`; a board
    /// of another owner is never touched.
    fn delete_board(&mut self, owner_uuid: Uuid, uuid: Uuid) -> (r: StorageResult<()>)
        requires
            old(self).inv(),
        ensures
            final(self).inv(),
            final(self).entries() == old(self).entries(),
            r is Ok ==> final(self).boards() == remaining_boards(
                old(self).boards(),
                owner_uuid,
                uuid,
            ),
            r is Err ==> final(self).boards() == old(self).boards(),
    ;

    /// Label operations are declared by the capability but implemented by no
    /// backend yet; they keep the record surface of the contract only.
    fn get_all_labels(&self) -> (r: StorageResult<Vec<Label>>)
        requires
            self.inv(),
    ;

    fn create_label(&mut self, label: Label) -> (r: StorageResult<Label>)
        requires
            old(self).inv(),
        ensures
            final(self).inv(),
            final(self).entries() == old(self).entries(),
            final(self).boards() == old(self).boards(),
    ;

    fn update_label(&mut self, label: Label) -> (r: StorageResult<Label>)
        requires
            old(self).inv(),
        ensures
            final(self).inv(),
            final(self).entries() == old(self).entries(),
            final(self).boards() == old(self).boards(),
    ;

    fn delete_label(&mut self, label: &Label) -> (r: StorageResult<()>)
        requires
            old(self).inv(),
        ensures
            final(self).inv(),
            final(self).entries() == old(self).entries(),
            final(self).boards() == old(self).boards(),
    ;

    /// Persists a caller-constructed entry. The backend assigns both identity
    /// parts and the creation timestamp; the payload (board reference
    /// included) and the owner are kept verbatim, the archive flag starts out
    /// false and `updated_on` absent. The new record enters the listing in
    /// front, being the most recently touched.
    fn create_entry(&mut self, entry: Entry) -> (r: StorageResult<Entry>)
        requires
            old(self).inv(),
        ensures
            final(self).inv(),
            final(self).boards() == old(self).boards(),
            unique_ids(final(self).entries()),
            r is Ok ==> created_entry_from(r->Ok_0, entry) && final(self).entries() == old(self).entries().insert(0, r->Ok_0) && (forall|j: int|
                0 <= j < old(self).entries().len() ==> (#[trigger] old(self).entries()[j]).id
                    != r->Ok_0.id),
            r is Err ==> final(self).entries() == old(self).entries(),
    ;

    /// Rewrites one entry row, targeted by the caller's numeric id and owner:
    /// a row of another owner is never touched. The payload and flag come from
    /// the caller; the row keeps its own `uuid`, `owner` and `created_on`
    /// whatever the caller sent, and the backend stamps `updated_on` itself,
    /// strictly above every stamp a row with this id carried before. On
    /// success the store holds exactly the old rows with the targeted one
    /// replaced by the result, at its new recency position.
    fn update_entry(&mut self, entry: Entry) -> (r: StorageResult<Entry>)
        requires
            old(self).inv(),
        ensures
            final(self).inv(),
            final(self).boards() == old(self).boards(),
            unique_ids(final(self).entries()),
            r is Ok ==> ({
                let e = r->Ok_0;
                &&& exists|j: int|
                    {
                        &&& 0 <= j < old(self).entries().len()
                        &&& update_targets(#[trigger] old(self).entries()[j], entry)
                        &&& updated_from_row(e, entry, old(self).entries()[j])
                        &&& exists|k: int|
                            0 <= k < old(self).entries().len() && final(self).entries() == old(self).entries().remove(j).insert(k, e)
                    }
                &&& forall|j: int|
                    0 <= j < old(self).entries().len() && (#[trigger] old(self).entries()[j]).id
                        == entry.id && old(self).entries()[j].updated_on is Some
                        ==> e.updated_on->0 > old(self).entries()[j].updated_on->0
            }),
            r is Err ==> final(self).entries() == old(self).entries(),
    ;

    /// Removes the entry with this uuid if it belongs to `owner_uuid`; an
    /// entry of another owner is never touched.
    fn delete_entry(&mut self, owner_uuid: Uuid, uuid: Uuid) -> (r: StorageResult<()>)
        requires
            old(self).inv(),
        ensures
            final(self).inv(),
            final(self).boards() == old(self).boards(),
            unique_ids(final(self).entries()),
            r is Ok ==> final(self).entries() == remaining_entries(
                old(self).entries(),
                owner_uuid,
                uuid,
            ),
            r is Err ==> final(self).entries() == old(self).entries(),
    ;

    /// Point lookup of an entry, scoped by owner. `RecordNotFound` is answered
    /// only when no entry of this owner carries this uuid.
    fn get_entry(&self, owner_uuid: Uuid, uuid: Uuid) -> (r: StorageResult<Entry>)
        requires
            self.inv(),
        ensures
            r is Ok ==> entry_matches(r->Ok_0, owner_uuid, uuid) && self.entries().contains(
                r->Ok_0,
            ),
            r is Err && r->Err_0 == StorageError::RecordNotFound ==> forall|i: int|
                0 <= i < self.entries().len() ==> !entry_matches(
                    #[trigger] self.entries()[i],
                    owner_uuid,
                    uuid,
                ),
    ;

    /// Lists the unfiled entries of `owner_uuid` (no board), most recently
    /// touched first.
    fn get_all_entries(&self, owner_uuid: Uuid) -> (r: StorageResult<Vec<Entry>>)
        requires
            self.inv(),
        ensures
            r is Ok ==> r->Ok_0@ == unfiled_entries(self.entries(), owner_uuid)
                && sorted_by_recency(r->Ok_0@),
            r is Err ==> r->Err_0 != StorageError::RecordNotFound,
    ;

    /// Lists the entries of `owner_uuid` filed on `board_uuid`, most recently
    /// touched first.
    fn get_all_entries_by_board(&self, owner_uuid: Uuid, board_uuid: Uuid) -> (r: StorageResult<
        Vec<Entry>,
    >)
        requires
            self.inv(),
        ensures
            r is Ok ==> r->Ok_0@ == board_entries(self.entries(), owner_uuid, board_uuid)
                && sorted_by_recency(r->Ok_0@),
            r is Err ==> r->Err_0 != StorageError::RecordNotFound,
    ;

    /// Bulk fetch by uuid, honouring owner scoping even though the ids come
    /// from an external index: a foreign or unknown id is dropped silently,
    /// never an error.
    fn get_entries_by_ids(&self, owner_uuid: Uuid, ids: &Vec<Uuid>) -> (r: StorageResult<
        Vec<Entry>,
    >)
        requires
            self.inv(),
        ensures
            r is Ok ==> r->Ok_0@ == entries_by_ids(self.entries(), owner_uuid, ids@)
                && sorted_by_recency(r->Ok_0@),
            r is Err ==> r->Err_0 != StorageError::RecordNotFound,
    ;
}

/// The search capability: a secondary, eventually consistent index over entry
/// projections. It returns candidate identifiers only, never records, and its
/// answers are untrusted with respect to ownership: callers must re-validate
/// every id against the storage capability.
pub trait SearchEngineTrait: Sized {
    /// Upserts the projection document (uuid, title, content, owner) of
    /// `entry`, keyed by its uuid. The projected fields must be present.
    fn index_entry(&self, entry: &Entry) -> (r: SearchEngineResult<()>)
        requires
            entry.uuid is Some,
            entry.owner is Some,
            entry.content is Some,
    ;

    /// Runs a free-text query and returns the uuids of the matching
    /// documents, most relevant first. Nothing is promised of the answer: the
    /// index may be stale, and it does not filter by owner.
    fn search_entries(&self, owner_uuid: Uuid, query: String) -> (r: SearchEngineResult<
        Vec<Uuid>,
    >);
}

} // verus!
