use support_relay::entities::{InsertUserEntity, MessageType};
use support_relay::localization::{language_of_file, sanitize, CommonMessages, Entry, FileContents, LocKey, LocalizationBundle};
use support_relay::relay::{
    numbered_thread_label, plan_new_message, record_forward, register_user, thread_label, Content,
    FollowUp, ForwardPlan, SendOp,
};
use support_relay::staff::{
    info_card_action, info_card_from_parts, notes_listing, record_info_card, render_info_card,
    run_staff_command, user_command_message, InfoCardAction, StaffCommand, StaffReply, UserCommand,
};
use support_relay::store::{MemoryDatabase, StorageError};
use support_relay::text::{decimal, extension, replace, trim, trim_end_matches};

fn entry(text: &str) -> Entry {
    Entry { default_message: text.to_string(), description: None }
}

fn file(pairs: &[(&str, &str)]) -> FileContents {
    let mut f = FileContents::new();
    for (k, v) in pairs {
        f.insert(k.to_string(), entry(v));
    }
    f
}

fn header_for(id: i64) -> CommonMessages {
    CommonMessages::InfoHeader { id, first_name: Some("Ann".to_string()), last_name: Some("Lee".to_string()), lang: Some("en".to_string()) }
}

const DEFAULT_HEADER: &str = "<b><a href=\"tg://user?id=77\">Ann Lee</a></b>\n<b>Language: </b> en\n";

#[test]
fn trim_removes_outer_white_space() {
    assert_eq!(trim("  lang \t\n"), "lang");
    assert_eq!(trim("a b"), "a b");
    assert_eq!(trim("   "), "");
    assert_eq!(trim(""), "");
}

#[test]
fn decimal_notation() {
    assert_eq!(decimal(0), "0");
    assert_eq!(decimal(77), "77");
    assert_eq!(decimal(-1205), "-1205");
    assert_eq!(decimal(i64::MIN), "-9223372036854775808");
    assert_eq!(decimal(i64::MAX), "9223372036854775807");
}

#[test]
fn replace_every_occurrence() {
    assert_eq!(replace("{x} and {x}", "{x}", "1"), "1 and 1");
    assert_eq!(replace("aaa", "aa", "b"), "ba");
    assert_eq!(replace("none", "{x}", "1"), "none");
    assert_eq!(replace("", "{x}", "1"), "");
}

#[test]
fn sanitize_removes_markup() {
    assert_eq!(sanitize("<b>lang</b>".to_string()), "lang");
    assert_eq!(sanitize("en".to_string()), "en");
}

#[test]
fn message_keys_and_defaults() {
    assert_eq!(CommonMessages::UserReply.key(), "common.userReply");
    assert_eq!(CommonMessages::PollsNotSupported.default_message(), "Polls not supported");
    assert!(CommonMessages::Welcome.args().is_none());
    let args = header_for(77).args().unwrap();
    assert_eq!(args.len(), 4);
    assert_eq!(args[0], ("id".to_string(), "77".to_string()));
    assert_eq!(args[1], ("first_name".to_string(), "Ann".to_string()));
}

#[test]
fn localize_without_files_uses_defaults() {
    let bundle = LocalizationBundle::new();
    assert_eq!(bundle.localize(None, CommonMessages::UserReply), "Thank you for contacting us. We will answer as soon as possible.");
    assert_eq!(bundle.localize(Some("de".to_string()), CommonMessages::GamesNotSupported), "Games not supported");
    assert_eq!(bundle.localize(None, header_for(77)), DEFAULT_HEADER);
}

#[test]
fn localize_prefers_language_then_fallback() {
    let mut bundle = LocalizationBundle::new();
    bundle.add("de".to_string(), file(&[("common.welcome", "Willkommen")]));
    bundle.add("en".to_string(), file(&[("common.welcome", "Hello there"), ("common.faq", "Ask away")]));
    bundle.set_default_lang("en".to_string());
    assert_eq!(bundle.localize(Some("de".to_string()), CommonMessages::Welcome), "Willkommen");
    assert_eq!(bundle.localize(Some("fr".to_string()), CommonMessages::Welcome), "Hello there");
    assert_eq!(bundle.localize(None, CommonMessages::Faq), "Ask away");
    assert_eq!(bundle.localize(Some("de".to_string()), CommonMessages::Faq), "To contact support, send your message, video or file. You will receive support answer in this chat");
    assert_eq!(bundle.languages(), vec!["de".to_string(), "en".to_string()]);
}

#[test]
fn localize_fills_placeholders() {
    let mut bundle = LocalizationBundle::new();
    bundle.add("en".to_string(), file(&[("common.infoHeader", "User {id}: {first_name} {last_name} ({lang}) {id}")]));
    bundle.set_default_lang("en".to_string());
    assert_eq!(bundle.localize(None, header_for(5)), "User 5: Ann Lee (en) 5");
}

#[test]
fn adding_a_language_again_replaces_it() {
    let mut bundle = LocalizationBundle::new();
    bundle.add("en".to_string(), file(&[("common.welcome", "one")]));
    bundle.add("en".to_string(), file(&[("common.welcome", "two")]));
    assert_eq!(bundle.languages().len(), 1);
    assert_eq!(bundle.localize(Some("en".to_string()), CommonMessages::Welcome), "two");
}

#[test]
fn file_contents_lookup() {
    let mut f = file(&[("a", "1")]);
    f.insert("a".to_string(), entry("2"));
    assert_eq!(f.get(&"a".to_string()), Some("2".to_string()));
    assert_eq!(f.get(&"b".to_string()), None);
}

#[test]
fn info_card_lines() {
    let lines = vec![("lang".to_string(), "en".to_string()), ("plan".to_string(), "pro".to_string())];
    assert_eq!(
        info_card_from_parts("H\n", &lines),
        "H\n<b>lang: </b><code>en</code>\n<b>plan: </b><code>pro</code>\n"
    );
    assert_eq!(info_card_from_parts("H\n", &vec![]), "H\n");
}

#[test]
fn info_card_action_edits_or_sends() {
    let mut db = MemoryDatabase::new();
    let u = db
        .insert_user(InsertUserEntity { telegram_id: 77, topic: 7, info_message: None, first_name: None, last_name: None, lang_code: None })
        .unwrap();
    assert_eq!(info_card_action(&u), InfoCardAction::SendAndPin { topic: 7 });
    let stored = record_info_card(&mut db, u, 501).unwrap();
    assert_eq!(stored.info_message, Some(501));
    assert_eq!(db.get_user_by_tg_id(77).unwrap().info_message, Some(501));
    assert_eq!(info_card_action(&stored), InfoCardAction::Edit { message_id: 501 });
}

#[test]
fn staff_commands_outside_a_known_thread_are_ignored() {
    let mut db = MemoryDatabase::new();
    let cmd = StaffCommand::SetNote { key: "k".to_string(), value: "v".to_string() };
    assert!(run_staff_command(&mut db, None, cmd.clone()).unwrap().is_none());
    assert!(run_staff_command(&mut db, Some(3), cmd).unwrap().is_none());
}

#[test]
fn staff_notes_commands() {
    let mut db = MemoryDatabase::new();
    let u = db
        .insert_user(InsertUserEntity { telegram_id: 77, topic: 7, info_message: None, first_name: None, last_name: None, lang_code: None })
        .unwrap();
    let saved = run_staff_command(&mut db, Some(7), StaffCommand::SetNote { key: " plan ".to_string(), value: " pro ".to_string() })
        .unwrap()
        .unwrap();
    assert!(matches!(saved.1, StaffReply::Saved));
    assert_eq!(saved.1.text(), "Note saved");
    assert_eq!(db.get_notes(&u)[0].key, "plan");
    assert_eq!(db.get_notes(&u)[0].value, "pro");
    let listed = run_staff_command(&mut db, Some(7), StaffCommand::Notes).unwrap().unwrap();
    assert_eq!(listed.1.text(), "User notes:\n\n<b>plan:</b> <code>pro</code>");
    let deleted = run_staff_command(&mut db, Some(7), StaffCommand::DeleteNote { key: "plan ".to_string() }).unwrap().unwrap();
    assert_eq!(deleted.1.text(), "Note deleted");
    assert!(db.get_notes(&u).is_empty());
}

#[test]
fn notes_listing_of_nothing() {
    assert_eq!(notes_listing(&vec![]), "User notes:\n");
}

#[test]
fn user_commands() {
    assert!(user_command_message(UserCommand::Help).is_none());
    assert!(matches!(user_command_message(UserCommand::Start), Some(CommonMessages::Welcome)));
    assert!(matches!(user_command_message(UserCommand::Faq), Some(CommonMessages::Faq)));
}

#[test]
fn new_user_first_text_message() {
    let bundle = LocalizationBundle::new();
    let mut db = MemoryDatabase::new();
    assert!(db.get_user_by_tg_id(77).is_none());
    let first = Some("Ann".to_string());
    let last = Some("Lee".to_string());
    assert_eq!(thread_label(&first, &last), "#T Ann Lee");
    let thread = 1001;
    let user = register_user(&mut db, 77, thread, first.clone(), last.clone(), Some("en".to_string())).unwrap();
    assert_eq!(user.telegram_id, 77);
    assert_eq!(user.topic, thread);
    assert_eq!(numbered_thread_label(user.id, &first, &last), "#T000001 Ann Lee");
    assert_eq!(info_card_action(&user), InfoCardAction::SendAndPin { topic: thread });
    let card = render_info_card(&bundle, &user, &db.get_notes(&user));
    assert_eq!(card, DEFAULT_HEADER);
    let user = record_info_card(&mut db, user, 2001).unwrap();
    assert_eq!(db.get_user_by_topic(thread).unwrap().info_message, Some(2001));
    match plan_new_message(&Content::Text) {
        ForwardPlan::Forward(op) => assert_eq!(op, SendOp::Text),
        _ => panic!("text not forwarded"),
    }
    let (recorded, next) = record_forward(&mut db, &user, MessageType::Incoming, 10, "Hello".to_string(), 3001).unwrap();
    assert_eq!(recorded.type_, MessageType::Incoming.code());
    assert_eq!(recorded.rx_msg_id, 10);
    assert_eq!(db.get_message(&user, MessageType::Incoming, 10).unwrap().tx_msg_id, 3001);
    match next {
        FollowUp::Acknowledge(m) => assert_eq!(
            bundle.localize(user.lang_code.clone(), m),
            "Thank you for contacting us. We will answer as soon as possible."
        ),
        FollowUp::React => panic!("a user message is acknowledged"),
    }
}

#[test]
fn a_second_registration_of_the_same_identity_is_refused() {
    let mut db = MemoryDatabase::new();
    register_user(&mut db, 77, 1001, None, None, None).unwrap();
    assert_eq!(register_user(&mut db, 77, 1002, None, None, None).unwrap_err(), StorageError::Conflict);
}

#[test]
fn a_forward_is_recorded_once() {
    let mut db = MemoryDatabase::new();
    let user = register_user(&mut db, 77, 1001, None, None, None).unwrap();
    let (_, next) = record_forward(&mut db, &user, MessageType::Outgoing, 5, String::new(), 6).unwrap();
    assert!(matches!(next, FollowUp::React));
    assert_eq!(record_forward(&mut db, &user, MessageType::Outgoing, 5, String::new(), 7).unwrap_err(), StorageError::Conflict);
}

#[test]
fn staff_sets_a_note_in_a_thread() {
    let bundle = LocalizationBundle::new();
    let mut db = MemoryDatabase::new();
    let user = db
        .insert_user(InsertUserEntity {
            telegram_id: 77,
            topic: 1001,
            info_message: Some(2001),
            first_name: Some("Ann".to_string()),
            last_name: Some("Lee".to_string()),
            lang_code: Some("en".to_string()),
        })
        .unwrap();
    let (owner, reply) = run_staff_command(&mut db, Some(1001), StaffCommand::SetNote { key: "lang".to_string(), value: "en".to_string() })
        .unwrap()
        .unwrap();
    assert_eq!(owner.id, user.id);
    let notes = db.get_notes(&owner);
    assert_eq!(notes.len(), 1);
    assert_eq!((notes[0].key.as_str(), notes[0].value.as_str()), ("lang", "en"));
    assert_eq!(info_card_action(&owner), InfoCardAction::Edit { message_id: 2001 });
    let card = render_info_card(&bundle, &owner, &notes);
    assert_eq!(card, format!("{}<b>lang: </b><code>en</code>\n", DEFAULT_HEADER));
    assert_eq!(reply.text(), "Note saved");
}

#[test]
fn file_extensions() {
    assert_eq!(extension("archive.tar.gz"), Some("gz".to_string()));
    assert_eq!(extension("en.json"), Some("json".to_string()));
    assert_eq!(extension("a."), Some(String::new()));
    assert_eq!(extension("noext"), None);
    assert_eq!(extension(".json"), None);
}

#[test]
fn suffixes_are_trimmed_repeatedly() {
    assert_eq!(trim_end_matches("a...", "."), "a");
    assert_eq!(trim_end_matches("xjsonjson", "json"), "x");
    assert_eq!(trim_end_matches("abc", "z"), "abc");
}

#[test]
fn language_file_names() {
    assert_eq!(language_of_file("en.json"), Some("en".to_string()));
    assert_eq!(language_of_file("pt-BR.json"), Some("pt-BR".to_string()));
    assert_eq!(language_of_file("en.json.json"), Some("en.json".to_string()));
    assert_eq!(language_of_file("a..json"), Some("a".to_string()));
    assert_eq!(language_of_file("en.txt"), None);
    assert_eq!(language_of_file("json"), None);
    assert_eq!(language_of_file(".json"), None);
}
