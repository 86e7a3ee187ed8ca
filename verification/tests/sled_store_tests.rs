use memoriz::entities::board::Board;
use memoriz::entities::entry::Entry;
use memoriz::entities::ident::Uuid;
use memoriz::entities::label::Label;
use memoriz::storage::error::StorageError;
use memoriz::storage::sled_store::SledDbMemorizStorage;
use memoriz::storage::traits::StorageTrait;

fn sample_entry(owner: Uuid) -> Entry {
    Entry::new(
        0,
        None,
        "embedded note".to_string(),
        Some("kept as bytes".to_string()),
        None,
        Some("teal".to_string()),
        false,
        None,
        None,
        Some(owner),
        None,
        None,
    )
}

#[test]
fn stub_methods_answer_not_implemented() {
    let mut store = SledDbMemorizStorage::new("/tmp/memoriz_sled_stub_methods").unwrap();
    let owner = Uuid::new(1);
    let uuid = Uuid::new(2);
    let label = Label::new(
        "l1".to_string(),
        "todo".to_string(),
        "things to do".to_string(),
        owner,
    );

    assert!(matches!(
        store.get_entry(owner, uuid),
        Err(StorageError::NotImplemented)
    ));
    assert!(matches!(
        store.get_all_entries(owner),
        Err(StorageError::NotImplemented)
    ));
    assert!(matches!(
        store.get_all_entries_by_board(owner, uuid),
        Err(StorageError::NotImplemented)
    ));
    assert!(matches!(
        store.get_entries_by_ids(owner, &vec![uuid]),
        Err(StorageError::NotImplemented)
    ));
    assert!(matches!(
        store.update_entry(sample_entry(owner)),
        Err(StorageError::NotImplemented)
    ));
    assert!(matches!(
        store.delete_entry(owner, uuid),
        Err(StorageError::NotImplemented)
    ));
    assert!(matches!(
        store.get_board(owner, uuid),
        Err(StorageError::NotImplemented)
    ));
    assert!(matches!(
        store.get_all_boards(owner),
        Err(StorageError::NotImplemented)
    ));
    assert!(matches!(
        store.update_board(Board::new(
            Some(uuid),
            "b".to_string(),
            None,
            None,
            None,
            None,
            Some(owner)
        )),
        Err(StorageError::NotImplemented)
    ));
    assert!(matches!(
        store.delete_board(owner, uuid),
        Err(StorageError::NotImplemented)
    ));
    assert!(matches!(
        store.get_all_labels(),
        Err(StorageError::NotImplemented)
    ));
    assert!(matches!(
        store.create_label(label.clone()),
        Err(StorageError::NotImplemented)
    ));
    assert!(matches!(
        store.update_label(label.clone()),
        Err(StorageError::NotImplemented)
    ));
    assert!(matches!(
        store.delete_label(&label),
        Err(StorageError::NotImplemented)
    ));
}

#[test]
fn create_board_assigns_identity_and_timestamps() {
    let mut store = SledDbMemorizStorage::new("/tmp/memoriz_sled_create_board").unwrap();
    let owner = Uuid::new(3);
    let board = store
        .create_board(Board::new(
            None,
            "embedded board".to_string(),
            Some("{\"pinned\":true}".to_string()),
            None,
            None,
            None,
            Some(owner),
        ))
        .unwrap();
    assert!(board.uuid.is_some());
    assert!(board.created_on.is_some());
    assert!(board.updated_on.is_none());
    assert_eq!(board.title, "embedded board");
    assert_eq!(board.owner, Some(owner));
    assert_eq!(board.data, Some("{\"pinned\":true}".to_string()));
}

#[test]
fn create_entry_assigns_identity_and_clears_flag() {
    let mut store = SledDbMemorizStorage::new("/tmp/memoriz_sled_create_entry").unwrap();
    let owner = Uuid::new(4);
    let mut wanted_archived = sample_entry(owner);
    wanted_archived.archived = true;
    let entry = store.create_entry(wanted_archived).unwrap();
    assert_eq!(entry.id, 1, "the store assigns the sequential id");
    assert!(entry.uuid.is_some());
    assert!(entry.created_on.is_some());
    assert!(entry.updated_on.is_none());
    assert!(!entry.archived, "creation always starts active");
    assert_eq!(entry.title, "embedded note");
    assert_eq!(entry.content, Some("kept as bytes".to_string()));
    assert_eq!(entry.owner, Some(owner));
    assert!(entry.labels.is_none());
}

#[test]
fn opening_a_locked_database_is_a_backend_failure() {
    let _held = SledDbMemorizStorage::new("/tmp/memoriz_sled_locked").unwrap();
    match SledDbMemorizStorage::new("/tmp/memoriz_sled_locked") {
        Err(StorageError::Backend(_)) => {}
        other => panic!("expected a backend failure, got {:?}", other.map(|_| ())),
    }
}
