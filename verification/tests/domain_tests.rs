use memoriz::business::domain::MemorizDomain;
use memoriz::business::error::MemorizDomainError;
use memoriz::entities::board::Board;
use memoriz::entities::entry::Entry;
use memoriz::entities::ident::Uuid;
use memoriz::entities::label::Label;
use memoriz::storage::error::{SearchEngineError, StorageError};
use memoriz::storage::memory::InMemoryMemorizStorage;
use memoriz::storage::traits::{SearchEngineTrait, StorageTrait};

/// A scripted search backend: indexing is accepted and dropped, queries
/// answer a fixed list of candidate ids (or a fixed failure).
struct ScriptedSearchEngine {
    hits: Vec<Uuid>,
    fail: bool,
}

impl SearchEngineTrait for ScriptedSearchEngine {
    fn index_entry(&self, _entry: &Entry) -> Result<(), SearchEngineError> {
        Ok(())
    }

    fn search_entries(
        &self,
        _owner_uuid: Uuid,
        _query: String,
    ) -> Result<Vec<Uuid>, SearchEngineError> {
        if self.fail {
            Err(SearchEngineError::Service("index unreachable".to_string()))
        } else {
            Ok(self.hits.clone())
        }
    }
}

fn domain_with_hits(
    hits: Vec<Uuid>,
) -> MemorizDomain<InMemoryMemorizStorage, ScriptedSearchEngine> {
    MemorizDomain::new(
        InMemoryMemorizStorage::new(),
        ScriptedSearchEngine { hits, fail: false },
    )
}

fn plain_entry(title: &str, owner: Uuid, board: Option<Uuid>) -> Entry {
    Entry::new(
        0,
        None,
        title.to_string(),
        Some(format!("content of {}", title)),
        None,
        None,
        false,
        None,
        None,
        Some(owner),
        None,
        board,
    )
}

#[test]
fn scenario_board_then_entry_then_archive() {
    let owner = Uuid::new(7);
    let mut domain = domain_with_hits(Vec::new());

    let board = domain
        .create_board(Board::new(
            None,
            "Work".to_string(),
            None,
            None,
            None,
            None,
            Some(owner),
        ))
        .unwrap();
    assert!(board.uuid.is_some());
    assert!(board.created_on.is_some());
    assert!(board.updated_on.is_none());
    assert_eq!(board.title, "Work");
    assert_eq!(board.owner, Some(owner));

    let board_uuid = board.uuid.unwrap();
    let entry = domain
        .create_entry(plain_entry("Note1", owner, Some(board_uuid)))
        .unwrap();
    assert!(entry.uuid.is_some());
    assert_eq!(entry.board, Some(board_uuid));
    assert!(!entry.archived);

    let listed = domain
        .get_all_entries_by_board(owner, board_uuid, None)
        .unwrap();
    assert_eq!(listed, vec![entry.clone()]);

    let archived = domain.archive_entry(owner, entry.uuid.unwrap()).unwrap();
    assert!(archived.archived);
    assert_eq!(archived.title, "Note1");

    let active_only = domain
        .get_all_entries_by_board(owner, board_uuid, Some(false))
        .unwrap();
    assert!(active_only.is_empty());
}

#[test]
fn ownership_isolation_reads_and_deletes() {
    let alice = Uuid::new(1);
    let bob = Uuid::new(2);
    let mut domain = domain_with_hits(Vec::new());

    let entry = domain.create_entry(plain_entry("private", alice, None)).unwrap();
    let entry_uuid = entry.uuid.unwrap();
    let board = domain
        .create_board(Board::new(
            None,
            "secret board".to_string(),
            None,
            None,
            None,
            None,
            Some(alice),
        ))
        .unwrap();
    let board_uuid = board.uuid.unwrap();

    assert!(domain.get_all_entries(bob, None).unwrap().is_empty());
    assert!(domain.get_all_boards(bob).unwrap().is_empty());
    assert_eq!(
        domain.get_entry(bob, entry_uuid).unwrap_err(),
        MemorizDomainError::Storage(StorageError::RecordNotFound)
    );
    assert_eq!(
        domain.get_board(bob, board_uuid).unwrap_err(),
        MemorizDomainError::Storage(StorageError::RecordNotFound)
    );

    // A cross-owner delete touches nothing.
    domain.delete_entry(bob, entry_uuid).unwrap();
    domain.delete_board(bob, board_uuid).unwrap();
    assert!(domain.get_entry(alice, entry_uuid).is_ok());
    assert!(domain.get_board(alice, board_uuid).is_ok());

    // The rightful owner's delete works.
    domain.delete_entry(alice, entry_uuid).unwrap();
    assert_eq!(
        domain.get_entry(alice, entry_uuid).unwrap_err(),
        MemorizDomainError::Storage(StorageError::RecordNotFound)
    );
}

#[test]
fn archive_round_trip_restores_entry() {
    let owner = Uuid::new(3);
    let mut domain = domain_with_hits(Vec::new());

    let entry = domain.create_entry(plain_entry("keep me", owner, None)).unwrap();
    let uuid = entry.uuid.unwrap();
    assert!(!entry.archived);
    assert!(entry.updated_on.is_none());

    let mid = domain.archive_entry(owner, uuid).unwrap();
    assert!(mid.archived);
    let t1 = mid.updated_on.expect("archive must stamp updated_on");

    let last = domain.undo_archive_entry(owner, uuid).unwrap();
    assert_eq!(last.archived, entry.archived);
    assert_eq!(last.title, entry.title);
    assert_eq!(last.content, entry.content);
    assert_eq!(last.data, entry.data);
    assert_eq!(last.color, entry.color);
    assert_eq!(last.board, entry.board);
    assert_eq!(last.owner, entry.owner);
    assert_eq!(last.id, entry.id);
    assert_eq!(last.uuid, entry.uuid);
    assert_eq!(last.created_on, entry.created_on);
    let t2 = last.updated_on.expect("undo must stamp updated_on");
    assert!(t2 > t1, "updated_on must strictly increase");
}

#[test]
fn archive_of_missing_entry_short_circuits() {
    let owner = Uuid::new(4);
    let mut domain = domain_with_hits(Vec::new());
    assert_eq!(
        domain.archive_entry(owner, Uuid::new(999)).unwrap_err(),
        MemorizDomainError::Storage(StorageError::RecordNotFound)
    );
}

#[test]
fn filter_correctness_partitions_listing() {
    let owner = Uuid::new(5);
    let mut domain = domain_with_hits(Vec::new());

    for title in ["a", "b", "c", "d"] {
        domain.create_entry(plain_entry(title, owner, None)).unwrap();
    }
    let all = domain.get_all_entries(owner, None).unwrap();
    let to_archive: Vec<Uuid> = all
        .iter()
        .filter(|e| e.title == "a" || e.title == "c")
        .map(|e| e.uuid.unwrap())
        .collect();
    for u in &to_archive {
        domain.archive_entry(owner, *u).unwrap();
    }

    let all = domain.get_all_entries(owner, None).unwrap();
    let archived = domain.get_all_entries(owner, Some(true)).unwrap();
    let active = domain.get_all_entries(owner, Some(false)).unwrap();

    let expected_archived: Vec<Entry> =
        all.iter().filter(|e| e.archived).cloned().collect();
    let expected_active: Vec<Entry> =
        all.iter().filter(|e| !e.archived).cloned().collect();
    assert_eq!(archived, expected_archived);
    assert_eq!(active, expected_active);
    assert_eq!(archived.len() + active.len(), all.len());
    assert_eq!(all.len(), 4);
    assert_eq!(archived.len(), 2);
}

#[test]
fn board_scoping_keeps_filed_entries_out_of_unfiled_listing() {
    let owner = Uuid::new(6);
    let mut domain = domain_with_hits(Vec::new());

    let board = domain
        .create_board(Board::new(
            None,
            "filing".to_string(),
            None,
            None,
            None,
            None,
            Some(owner),
        ))
        .unwrap();
    let board_uuid = board.uuid.unwrap();

    let filed = domain
        .create_entry(plain_entry("filed", owner, Some(board_uuid)))
        .unwrap();
    let loose = domain.create_entry(plain_entry("loose", owner, None)).unwrap();

    let unfiled = domain.get_all_entries(owner, None).unwrap();
    assert_eq!(unfiled, vec![loose]);

    let on_board = domain
        .get_all_entries_by_board(owner, board_uuid, None)
        .unwrap();
    assert_eq!(on_board, vec![filed]);
}

#[test]
fn search_drops_foreign_and_missing_ids() {
    let caller = Uuid::new(10);
    let other = Uuid::new(11);

    let mut store = InMemoryMemorizStorage::new();
    let mine = store.create_entry(plain_entry("mine", caller, None)).unwrap();
    let foreign = store.create_entry(plain_entry("foreign", other, None)).unwrap();
    let gone = store.create_entry(plain_entry("gone", caller, None)).unwrap();
    store.delete_entry(caller, gone.uuid.unwrap()).unwrap();

    let hits = vec![
        mine.uuid.unwrap(),
        foreign.uuid.unwrap(),
        gone.uuid.unwrap(),
    ];
    let domain = MemorizDomain::new(store, ScriptedSearchEngine { hits, fail: false });

    let found = domain.search(caller, "note".to_string()).unwrap();
    assert_eq!(found, vec![mine]);
    assert_eq!(found[0].owner, Some(caller));
}

#[test]
fn search_engine_failure_propagates() {
    let owner = Uuid::new(12);
    let domain = MemorizDomain::new(
        InMemoryMemorizStorage::new(),
        ScriptedSearchEngine { hits: Vec::new(), fail: true },
    );
    assert_eq!(
        domain.search(owner, "anything".to_string()).unwrap_err(),
        MemorizDomainError::SearchEngine(SearchEngineError::Service(
            "index unreachable".to_string()
        ))
    );
}

#[test]
fn listing_is_most_recently_touched_first() {
    let owner = Uuid::new(13);
    let mut domain = domain_with_hits(Vec::new());

    let e1 = domain.create_entry(plain_entry("first", owner, None)).unwrap();
    let e2 = domain.create_entry(plain_entry("second", owner, None)).unwrap();
    let e3 = domain.create_entry(plain_entry("third", owner, None)).unwrap();

    // Fresh records list newest creation first.
    let titles: Vec<String> = domain
        .get_all_entries(owner, None)
        .unwrap()
        .into_iter()
        .map(|e| e.title)
        .collect();
    assert_eq!(titles, vec!["third", "second", "first"]);

    // Updating in sequence gives strictly increasing updated_on stamps, and
    // the listing follows them, most recent first.
    let u1 = domain.update_entry(e1).unwrap();
    let u2 = domain.update_entry(e2).unwrap();
    let u3 = domain.update_entry(e3).unwrap();
    assert!(u1.updated_on.unwrap() < u2.updated_on.unwrap());
    assert!(u2.updated_on.unwrap() < u3.updated_on.unwrap());

    let titles: Vec<String> = domain
        .get_all_entries(owner, None)
        .unwrap()
        .into_iter()
        .map(|e| e.title)
        .collect();
    assert_eq!(titles, vec!["third", "second", "first"]);
}

#[test]
fn cross_owner_update_is_not_found() {
    let alice = Uuid::new(15);
    let bob = Uuid::new(16);
    let mut domain = domain_with_hits(Vec::new());

    let entry = domain.create_entry(plain_entry("hers", alice, None)).unwrap();

    // The same numeric id under another owner's identity touches nothing.
    let mut forged = entry.clone();
    forged.owner = Some(bob);
    forged.title = "stolen".to_string();
    assert_eq!(
        domain.update_entry(forged).unwrap_err(),
        MemorizDomainError::Storage(StorageError::RecordNotFound)
    );
    let still = domain.get_entry(alice, entry.uuid.unwrap()).unwrap();
    assert_eq!(still.title, "hers");
}

#[test]
fn update_keeps_the_stored_identity_fields() {
    let owner = Uuid::new(17);
    let mut domain = domain_with_hits(Vec::new());

    let entry = domain.create_entry(plain_entry("stable", owner, None)).unwrap();

    // Tampered non-editable fields are ignored: the store keeps its own uuid
    // and creation stamp.
    let mut tampered = entry.clone();
    tampered.uuid = Some(Uuid::new(424242));
    tampered.created_on = Some(123456789);
    tampered.title = "renamed".to_string();
    let updated = domain.update_entry(tampered).unwrap();
    assert_eq!(updated.uuid, entry.uuid);
    assert_eq!(updated.created_on, entry.created_on);
    assert_eq!(updated.owner, entry.owner);
    assert_eq!(updated.title, "renamed");
}

#[test]
fn update_of_unknown_entry_is_not_found() {
    let owner = Uuid::new(14);
    let mut domain = domain_with_hits(Vec::new());
    let ghost_entry = plain_entry("nowhere", owner, None);
    assert_eq!(
        domain.update_entry(ghost_entry).unwrap_err(),
        MemorizDomainError::Storage(StorageError::RecordNotFound)
    );
}

#[test]
fn label_surface_is_not_implemented_in_memory_backend() {
    let mut store = InMemoryMemorizStorage::new();
    let label = Label::new(
        "l1".to_string(),
        "todo".to_string(),
        "things to do".to_string(),
        Uuid::new(20),
    );
    assert!(matches!(
        store.get_all_labels(),
        Err(StorageError::NotImplemented)
    ));
    assert!(matches!(
        store.create_label(label.clone()),
        Err(StorageError::NotImplemented)
    ));
    assert!(matches!(
        store.update_label(label.clone()),
        Err(StorageError::NotImplemented)
    ));
    assert!(matches!(
        store.delete_label(&label),
        Err(StorageError::NotImplemented)
    ));
}

#[test]
fn search_results_come_back_in_store_order() {
    let owner = Uuid::new(21);
    let mut store = InMemoryMemorizStorage::new();
    let e1 = store.create_entry(plain_entry("one", owner, None)).unwrap();
    let e2 = store.create_entry(plain_entry("two", owner, None)).unwrap();
    let e3 = store.create_entry(plain_entry("three", owner, None)).unwrap();
    let _ = e2;

    // The index's relevance order is not kept: resolution follows the store's
    // most-recently-touched-first order.
    let hits = vec![e1.uuid.unwrap(), e3.uuid.unwrap()];
    let domain = MemorizDomain::new(store, ScriptedSearchEngine { hits, fail: false });
    let found = domain.search(owner, "irrelevant".to_string()).unwrap();
    assert_eq!(found, vec![e3, e1]);
}
