use vstd::prelude::*;

use crate::codec::{encode_board, encode_entry, encode_key};
use crate::entities::board::Board;
use crate::entities::entry::Entry;
use crate::entities::ident::Uuid;
use crate::entities::label::Label;
use crate::model::unique_ids;
use crate::storage::error::{StorageError, StorageResult};
use crate::storage::traits::StorageTrait;

verus! {

#[verifier::external_type_specification]
#[verifier::external_body]
pub struct ExDb(sled::Db);

#[verifier::external_type_specification]
#[verifier::external_body]
pub struct ExTree(sled::Tree);

#[verifier::external_type_specification]
#[verifier::external_body]
pub struct ExSledError(sled::Error);

/// Relies on sled::open: opens (or creates) the database at this path.
#[verifier::external_body]
fn sled_open(path: &str) -> (r: Result<sled::Db, sled::Error>) {
    sled::open(path)
}

/// Relies on sled::Db::open_tree: opens (or creates) the named keyspace.
#[verifier::external_body]
fn sled_open_tree(db: &sled::Db, name: &str) -> (r: Result<sled::Tree, sled::Error>) {
    db.open_tree(name)
}

/// Relies on sled::Tree::insert: stores the value under the key, replacing a
/// previous value silently.
#[verifier::external_body]
fn sled_tree_insert(tree: &sled::Tree, key: &Vec<u8>, value: Vec<u8>) -> (r: Result<
    (),
    sled::Error,
>) {
    match tree.insert(key.as_slice(), value) {
        Ok(_) => Ok(()),
        Err(e) => Err(e),
    }
}

/// Relies on sled::Error's Display implementation for its message.
#[verifier::external_body]
fn sled_error_message(e: &sled::Error) -> (r: String) {
    format!("{}", e)
}

/// Relies on chrono::Utc::now and chrono::DateTime::to_rfc3339: the current
/// instant rendered as text. Nothing is assumed of the clock.
#[verifier::external_body]
fn now_rfc3339() -> (r: String) {
    chrono::Utc::now().to_rfc3339()
}

/// Relies on chrono::Utc::now and chrono::DateTime::timestamp_micros: the
/// current instant as microseconds since the epoch. Nothing is assumed of the
/// clock.
#[verifier::external_body]
fn now_timestamp_micros() -> (r: i64) {
    chrono::Utc::now().timestamp_micros()
}

/// Relies on uuid::Uuid::new_v5 under the URL namespace, read back as its
/// 128-bit value.
#[verifier::external_body]
fn uuid_v5_from_name(name: &[u8]) -> (r: u128) {
    uuid::Uuid::new_v5(&uuid::Uuid::NAMESPACE_URL, name).as_u128()
}

/// The embedded-store backend: records live as serialized byte blobs in a
/// local sled database, keyed by uuid, one tree per entity kind. It exists to
/// show the storage capability is backend-agnostic; most of its methods are
/// stubs that answer `NotImplemented`, a legitimate terminal outcome that
/// callers handle as a first-class failure.
///
/// The two implemented operations write but never read, so the record model
/// is carried alongside as ghost state: what was inserted since this handle
/// was opened.
pub struct SledDbMemorizStorage {
    db: sled::Db,
    id_counter: i32,
    entry_model: Ghost<Seq<Entry>>,
    board_model: Ghost<Seq<Board>>,
}

impl SledDbMemorizStorage {
    pub fn new(path: &str) -> (r: StorageResult<SledDbMemorizStorage>)
        ensures
            r is Ok ==> r->Ok_0.inv() && r->Ok_0.entries() == Seq::<Entry>::empty()
                && r->Ok_0.boards() == Seq::<Board>::empty(),
    {
        match sled_open(path) {
            Err(e) => Err(StorageError::Backend(sled_error_message(&e))),
            Ok(db) => Ok(
                SledDbMemorizStorage {
                    db,
                    id_counter: 1,
                    entry_model: Ghost(Seq::empty()),
                    board_model: Ghost(Seq::empty()),
                },
            ),
        }
    }

    /// A fresh identifier, derived from the instant of creation.
    fn generate_uuid(&self) -> (r: Uuid) {
        let text = now_rfc3339();
        Uuid { value: uuid_v5_from_name(text.as_str().as_bytes()) }
    }
}

impl StorageTrait for SledDbMemorizStorage {
    closed spec fn entries(&self) -> Seq<Entry> {
        self.entry_model@
    }

    closed spec fn boards(&self) -> Seq<Board> {
        self.board_model@
    }

    closed spec fn inv(&self) -> bool {
        &&& unique_ids(self.entry_model@)
        &&& forall|i: int|
            0 <= i < self.entry_model@.len() ==> (#[trigger] self.entry_model@[i]).id
                < self.id_counter
    }

    fn get_board(&self, owner_uuid: Uuid, uuid: Uuid) -> (r: StorageResult<Board>)
        ensures
            r == StorageResult::<Board>::Err(StorageError::NotImplemented),
    {
        Err(StorageError::NotImplemented)
    }

    fn create_board(&mut self, board: Board) -> (r: StorageResult<Board>) {
        let tree = match sled_open_tree(&self.db, "BOARDS") {
            Err(e) => {
                return Err(StorageError::Backend(sled_error_message(&e)));
            },
            Ok(t) => t,
        };
        let uuid = self.generate_uuid();
        let b = Board {
            uuid: Some(uuid),
            title: board.title,
            data: board.data,
            color: board.color,
            created_on: Some(now_timestamp_micros()),
            updated_on: None,
            owner: board.owner,
        };
        let key = encode_key(uuid);
        let value = encode_board(&b);
        match sled_tree_insert(&tree, &key, value) {
            Err(e) => Err(StorageError::Backend(sled_error_message(&e))),
            Ok(u) => {
                let stored = b.clone();
                proof {
                    self.board_model@ = self.board_model@.insert(0, stored);
                }
                Ok(b)
            },
        }
    }

    fn get_all_boards(&self, owner_uuid: Uuid) -> (r: StorageResult<Vec<Board>>)
        ensures
            r == StorageResult::<Vec<Board>>::Err(StorageError::NotImplemented),
    {
        Err(StorageError::NotImplemented)
    }

    fn update_board(&mut self, board: Board) -> (r: StorageResult<Board>)
        ensures
            r == StorageResult::<Board>::Err(StorageError::NotImplemented),
    {
        Err(StorageError::NotImplemented)
    }

    fn delete_board(&mut self, owner_uuid: Uuid, uuid: Uuid) -> (r: StorageResult<()>)
        ensures
            r == StorageResult::<()>::Err(StorageError::NotImplemented),
    {
        Err(StorageError::NotImplemented)
    }

    fn get_all_labels(&self) -> (r: StorageResult<Vec<Label>>)
        ensures
            r == StorageResult::<Vec<Label>>::Err(StorageError::NotImplemented),
    {
        Err(StorageError::NotImplemented)
    }

    fn create_label(&mut self, label: Label) -> (r: StorageResult<Label>)
        ensures
            r == StorageResult::<Label>::Err(StorageError::NotImplemented),
    {
        Err(StorageError::NotImplemented)
    }

    fn update_label(&mut self, label: Label) -> (r: StorageResult<Label>)
        ensures
            r == StorageResult::<Label>::Err(StorageError::NotImplemented),
    {
        Err(StorageError::NotImplemented)
    }

    fn delete_label(&mut self, label: &Label) -> (r: StorageResult<()>)
        ensures
            r == StorageResult::<()>::Err(StorageError::NotImplemented),
    {
        Err(StorageError::NotImplemented)
    }

    fn create_entry(&mut self, entry: Entry) -> (r: StorageResult<Entry>) {
        if self.id_counter == i32::MAX {
            return Err(StorageError::CreationImpossible);
        }
        let tree = match sled_open_tree(&self.db, "ENTRIES") {
            Err(e) => {
                return Err(StorageError::Backend(sled_error_message(&e)));
            },
            Ok(t) => t,
        };
        let uuid = self.generate_uuid();
        let e = Entry {
            id: self.id_counter,
            uuid: Some(uuid),
            title: entry.title,
            content: entry.content,
            data: entry.data,
            color: entry.color,
            archived: false,
            created_on: Some(now_timestamp_micros()),
            updated_on: None,
            owner: entry.owner,
            labels: None,
            board: entry.board,
        };
        let key = encode_key(uuid);
        let value = encode_entry(&e);
        match sled_tree_insert(&tree, &key, value) {
            Err(err) => Err(StorageError::Backend(sled_error_message(&err))),
            Ok(u) => {
                let stored = e.clone();
                self.id_counter = self.id_counter + 1;
                proof {
                    let s_old = old(self).entry_model@;
                    self.entry_model@ = s_old.insert(0, stored);
                    let s_new = self.entry_model@;
                    assert(s_new == old(self).entries().insert(0, e));
                    assert forall|i: int, j: int| 0 <= i < j < s_new.len() implies s_new[i].id
                        != s_new[j].id by {
                        if i > 0 {
                            assert(s_new[i] == s_old[i - 1]);
                        }
                        assert(s_new[j] == s_old[j - 1]);
                    }
                    assert forall|j: int| 0 <= j < s_old.len() implies (#[trigger] s_old[j]).id
                        != e.id by {
                        assert(s_old[j].id < old(self).id_counter);
                    }
                }
                Ok(e)
            },
        }
    }

    fn update_entry(&mut self, entry: Entry) -> (r: StorageResult<Entry>)
        ensures
            r == StorageResult::<Entry>::Err(StorageError::NotImplemented),
    {
        Err(StorageError::NotImplemented)
    }

    fn delete_entry(&mut self, owner_uuid: Uuid, uuid: Uuid) -> (r: StorageResult<()>)
        ensures
            r == StorageResult::<()>::Err(StorageError::NotImplemented),
    {
        Err(StorageError::NotImplemented)
    }

    fn get_entry(&self, owner_uuid: Uuid, uuid: Uuid) -> (r: StorageResult<Entry>)
        ensures
            r == StorageResult::<Entry>::Err(StorageError::NotImplemented),
    {
        Err(StorageError::NotImplemented)
    }

    fn get_all_entries(&self, owner_uuid: Uuid) -> (r: StorageResult<Vec<Entry>>)
        ensures
            r == StorageResult::<Vec<Entry>>::Err(StorageError::NotImplemented),
    {
        Err(StorageError::NotImplemented)
    }

    fn get_all_entries_by_board(&self, owner_uuid: Uuid, board_uuid: Uuid) -> (r: StorageResult<Vec<Entry>,>)
        ensures
            r == StorageResult::<Vec<Entry>,>::Err(StorageError::NotImplemented),
    {
        Err(StorageError::NotImplemented)
    }

    fn get_entries_by_ids(&self, owner_uuid: Uuid, ids: &Vec<Uuid>) -> (r: StorageResult<Vec<Entry>,>)
        ensures
            r == StorageResult::<Vec<Entry>,>::Err(StorageError::NotImplemented),
    {
        Err(StorageError::NotImplemented)
    }
}

} // verus!
