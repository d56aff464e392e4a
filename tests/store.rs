use support_relay::entities::{InsertMessageEntity, InsertNoteEntity, InsertUserEntity, MessageType, UserEntity};
use support_relay::store::{Change, MemoryDatabase, StorageError};

fn new_user(tg: i64, topic: i64) -> InsertUserEntity {
    InsertUserEntity {
        telegram_id: tg,
        topic,
        info_message: None,
        first_name: Some("Ann".to_string()),
        last_name: None,
        lang_code: Some("en".to_string()),
    }
}

fn note(user: &UserEntity, key: &str, value: &str) -> InsertNoteEntity {
    InsertNoteEntity { user_id: user.id, key: key.to_string(), value: value.to_string() }
}

#[test]
fn distinct_identities_get_distinct_ids_and_threads() {
    let mut db = MemoryDatabase::new();
    let a = db.insert_user(new_user(100, 7)).unwrap();
    let b = db.insert_user(new_user(200, 8)).unwrap();
    assert_ne!(a.id, b.id);
    assert_ne!(a.topic, b.topic);
    let again = db.get_user_by_tg_id(100).unwrap();
    let twice = db.get_user_by_tg_id(100).unwrap();
    assert_eq!(again.id, a.id);
    assert_eq!(twice.id, a.id);
    assert_eq!(again.topic, 7);
    assert_eq!(db.get_user_by_topic(8).unwrap().telegram_id, 200);
    assert!(db.get_user_by_tg_id(300).is_none());
    assert!(db.get_user_by_topic(9).is_none());
}

#[test]
fn inserted_user_keeps_its_fields() {
    let mut db = MemoryDatabase::new();
    let u = db.insert_user(new_user(100, 7)).unwrap();
    assert_eq!(u.id, 1);
    assert_eq!(u.telegram_id, 100);
    assert_eq!(u.topic, 7);
    assert_eq!(u.info_message, None);
    assert_eq!(u.first_name.as_deref(), Some("Ann"));
    assert_eq!(u.last_name, None);
    assert_eq!(u.lang_code.as_deref(), Some("en"));
}

#[test]
fn duplicate_identity_or_thread_is_refused() {
    let mut db = MemoryDatabase::new();
    db.insert_user(new_user(100, 7)).unwrap();
    assert_eq!(db.insert_user(new_user(100, 9)).unwrap_err(), StorageError::Conflict);
    assert_eq!(db.insert_user(new_user(101, 7)).unwrap_err(), StorageError::Conflict);
    assert!(db.get_user_by_tg_id(101).is_none());
}

#[test]
fn update_user_sets_info_message_but_keeps_thread() {
    let mut db = MemoryDatabase::new();
    let mut u = db.insert_user(new_user(100, 7)).unwrap();
    u.info_message = Some(55);
    assert_eq!(db.update_user(u.clone()), Ok(()));
    assert_eq!(db.get_user_by_tg_id(100).unwrap().info_message, Some(55));
    u.topic = 8;
    assert_eq!(db.update_user(u.clone()), Err(StorageError::Conflict));
    assert_eq!(db.get_user_by_tg_id(100).unwrap().topic, 7);
    let stranger = UserEntity { id: 99, ..u };
    assert_eq!(db.update_user(stranger), Ok(()));
    assert!(db.get_user_by_topic(8).is_none());
}

#[test]
fn note_upsert_is_idempotent() {
    let mut db = MemoryDatabase::new();
    let u = db.insert_user(new_user(100, 7)).unwrap();
    let first = db.save_note(note(&u, "k", "v1")).unwrap();
    let size = db.get_notes(&u).len();
    let second = db.save_note(note(&u, "k", "v2")).unwrap();
    let notes = db.get_notes(&u);
    assert_eq!(notes.len(), size);
    assert_eq!(notes.len(), 1);
    assert_eq!(first.id, second.id);
    assert_eq!(notes[0].key, "k");
    assert_eq!(notes[0].value, "v2");
}

#[test]
fn notes_are_per_user_and_keep_their_order() {
    let mut db = MemoryDatabase::new();
    let u = db.insert_user(new_user(100, 7)).unwrap();
    let w = db.insert_user(new_user(200, 8)).unwrap();
    db.save_note(note(&u, "a", "1")).unwrap();
    db.save_note(note(&w, "a", "other")).unwrap();
    db.save_note(note(&u, "b", "2")).unwrap();
    let notes = db.get_notes(&u);
    assert_eq!(notes.len(), 2);
    assert_eq!((notes[0].key.as_str(), notes[0].value.as_str()), ("a", "1"));
    assert_eq!((notes[1].key.as_str(), notes[1].value.as_str()), ("b", "2"));
    assert_eq!(db.get_notes(&w)[0].value, "other");
}

#[test]
fn note_keys_are_case_sensitive() {
    let mut db = MemoryDatabase::new();
    let u = db.insert_user(new_user(100, 7)).unwrap();
    db.save_note(note(&u, "Lang", "x")).unwrap();
    db.save_note(note(&u, "lang", "y")).unwrap();
    assert_eq!(db.get_notes(&u).len(), 2);
}

#[test]
fn delete_of_missing_key_changes_nothing() {
    let mut db = MemoryDatabase::new();
    let u = db.insert_user(new_user(100, 7)).unwrap();
    db.save_note(note(&u, "k", "v")).unwrap();
    db.delete_note(&u, "missing-key");
    let notes = db.get_notes(&u);
    assert_eq!(notes.len(), 1);
    assert_eq!(notes[0].value, "v");
}

#[test]
fn delete_removes_the_note() {
    let mut db = MemoryDatabase::new();
    let u = db.insert_user(new_user(100, 7)).unwrap();
    db.save_note(note(&u, "a", "1")).unwrap();
    db.save_note(note(&u, "b", "2")).unwrap();
    db.delete_note(&u, "a");
    let notes = db.get_notes(&u);
    assert_eq!(notes.len(), 1);
    assert_eq!(notes[0].key, "b");
}

#[test]
fn correlation_round_trip() {
    let mut db = MemoryDatabase::new();
    let u = db.insert_user(new_user(100, 7)).unwrap();
    let entry = InsertMessageEntity::incoming(&u, 42, "{\"id\":42}".to_string(), 900);
    assert_eq!(entry.type_, MessageType::Incoming.code());
    let stored = db.insert_message(entry).unwrap();
    assert_eq!(stored.rx_msg_id, 42);
    assert_eq!(stored.tx_msg_id, 900);
    let found = db.get_message(&u, MessageType::Incoming, 42).unwrap();
    assert_eq!(found.id, stored.id);
    assert_eq!(found.rx_msg, "{\"id\":42}");
    assert!(db.get_message(&u, MessageType::Incoming, 43).is_none());
    assert!(db.get_message(&u, MessageType::Outgoing, 42).is_none());
}

#[test]
fn correlation_is_unique_per_user_direction_and_message() {
    let mut db = MemoryDatabase::new();
    let u = db.insert_user(new_user(100, 7)).unwrap();
    db.insert_message(InsertMessageEntity::incoming(&u, 42, String::new(), 900)).unwrap();
    let again = db.insert_message(InsertMessageEntity::incoming(&u, 42, String::new(), 901));
    assert_eq!(again.unwrap_err(), StorageError::Conflict);
    let out = db.insert_message(InsertMessageEntity::outgoing(&u, 42, String::new(), 902)).unwrap();
    assert_eq!(out.type_, MessageType::Outgoing.code());
    assert_eq!(db.get_message(&u, MessageType::Outgoing, 42).unwrap().tx_msg_id, 902);
    assert_eq!(db.get_message(&u, MessageType::Incoming, 42).unwrap().tx_msg_id, 900);
}

#[test]
fn direction_codes() {
    assert_eq!(MessageType::Incoming.code(), 0);
    assert_eq!(MessageType::Outgoing.code(), 1);
}

#[test]
fn changes_are_journaled_in_order() {
    let mut db = MemoryDatabase::new();
    let u = db.insert_user(new_user(100, 7)).unwrap();
    db.save_note(note(&u, "k", "v")).unwrap();
    db.save_note(note(&u, "k", "w")).unwrap();
    db.insert_message(InsertMessageEntity::incoming(&u, 1, String::new(), 2)).unwrap();
    db.delete_note(&u, "k");
    db.delete_note(&u, "k");
    let changes = db.take_changes();
    assert_eq!(changes.len(), 5);
    assert!(matches!(&changes[0], Change::User(x) if x.telegram_id == 100));
    assert!(matches!(&changes[1], Change::Note(n) if n.value == "v"));
    assert!(matches!(&changes[2], Change::Note(n) if n.value == "w"));
    assert!(matches!(&changes[3], Change::Message(m) if m.rx_msg_id == 1));
    assert!(matches!(&changes[4], Change::NoteRemoved(n) if n.key == "k"));
    assert!(db.take_changes().is_empty());
    assert!(db.insert_user(new_user(100, 9)).is_err());
    assert!(db.take_changes().is_empty());
}

#[test]
fn restored_rows_keep_their_ids_and_rules() {
    let mut db = MemoryDatabase::new();
    let row = UserEntity {
        id: 41,
        telegram_id: 100,
        topic: 7,
        info_message: Some(3),
        first_name: None,
        last_name: None,
        lang_code: None,
    };
    assert_eq!(db.restore_user(row.clone()), Ok(()));
    assert_eq!(db.restore_user(UserEntity { id: 42, ..row.clone() }), Err(StorageError::Conflict));
    assert_eq!(db.restore_user(UserEntity { id: i32::MAX, telegram_id: 5, topic: 5, ..row.clone() }), Err(StorageError::Exhausted));
    let next = db.insert_user(new_user(200, 8)).unwrap();
    assert_eq!(next.id, 42);
    assert!(db.take_changes().len() == 1);
    let stored = db.get_user_by_tg_id(100).unwrap();
    assert_eq!(stored.info_message, Some(3));
}
