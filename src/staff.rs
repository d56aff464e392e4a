use vstd::prelude::*;
use crate::entities::{InsertNoteEntity, NoteEntity, UserEntity};
use crate::localization::{CommonMessages, LocKey, LocalizationBundle, fill_args, sanitize, sanitized};
use crate::store::{MemoryDatabase, StorageError, note_deleted, note_is, notes_of, upserted, user_by_topic, user_updated};
use crate::text::{trim, trim_of};

verus! {

/// One line of an info card for a note whose key and value are already sanitized.
pub open spec fn card_line(key: Seq<char>, value: Seq<char>) -> Seq<char> {
    "<b>"@ + key + ": </b><code>"@ + value + "</code>\n"@
}

/// The lines of an info card, one per key/value pair, after the header.
pub open spec fn card_text(header: Seq<char>, lines: Seq<(Seq<char>, Seq<char>)>) -> Seq<char>
    decreases lines.len(),
{
    if lines.len() == 0 {
        header
    } else {
        card_text(header, lines.drop_last()) + card_line(lines.last().0, lines.last().1)
    }
}

/// The sanitized key and value of each note.
pub open spec fn sanitized_notes(notes: Seq<NoteEntity>) -> Seq<(Seq<char>, Seq<char>)> {
    notes.map_values(|n: NoteEntity| (sanitized(n.key@), sanitized(n.value@)))
}

/// The header of the info card of `user`: the localized header message, in the fallback
/// language, with the user's identity, names and language.
pub open spec fn info_header_of(bundle: LocalizationBundle, user: UserEntity) -> Seq<char> {
    let m = CommonMessages::InfoHeader {
        id: user.telegram_id,
        first_name: user.first_name,
        last_name: user.last_name,
        lang: user.lang_code,
    };
    fill_args(bundle.template_of(None, m.key_text(), m.default_text()), m.arg_list()->0)
}

/// Builds an info card from its header and the already sanitized key and value of each
/// note, one line per note.
pub fn info_card_from_parts(header: &str, lines: &Vec<(String, String)>) -> (r: String)
    ensures
        r@ == card_text(header@, lines@.map_values(|p: (String, String)| (p.0@, p.1@))),
{
    let ghost lv = lines@.map_values(|p: (String, String)| (p.0@, p.1@));
    let mut out = header.to_owned();
    let mut i: usize = 0;
    while i < lines.len()
        invariant
            i <= lines@.len(),
            lv == lines@.map_values(|p: (String, String)| (p.0@, p.1@)),
            out@ == card_text(header@, lv.subrange(0, i as int)),
        decreases lines@.len() - i,
    {
        out.append("<b>");
        out.append(lines[i].0.as_str());
        out.append(": </b><code>");
        out.append(lines[i].1.as_str());
        out.append("</code>\n");
        proof {
            let next = lv.subrange(0, i + 1);
            assert(next.drop_last() =~= lv.subrange(0, i as int));
            assert(next.last() == lv[i as int]);
        }
        i = i + 1;
    }
    assert(lv.subrange(0, i as int) =~= lv);
    out
}

/// The text of the info card of `user` with `notes`: the localized header, then one line
/// per note with its key and value sanitized.
pub fn render_info_card(bundle: &LocalizationBundle, user: &UserEntity, notes: &Vec<NoteEntity>) -> (r: String)
    requires
        bundle.wf(),
    ensures
        r@ == card_text(info_header_of(*bundle, *user), sanitized_notes(notes@)),
{
    let u = user.duplicate();
    let header = bundle.localize(
        None,
        CommonMessages::InfoHeader {
            id: u.telegram_id,
            first_name: u.first_name,
            last_name: u.last_name,
            lang: u.lang_code,
        },
    );
    let mut lines: Vec<(String, String)> = Vec::new();
    let mut i: usize = 0;
    while i < notes.len()
        invariant
            i <= notes@.len(),
            lines@.map_values(|p: (String, String)| (p.0@, p.1@)) == sanitized_notes(notes@.subrange(0, i as int)),
        decreases notes@.len() - i,
    {
        let key = sanitize(notes[i].key.clone());
        let value = sanitize(notes[i].value.clone());
        let ghost prev = lines@;
        lines.push((key, value));
        proof {
            let f = |p: (String, String)| (p.0@, p.1@);
            assert(lines@ == prev.push((key, value)));
            assert(lines@.map_values(f) =~= prev.map_values(f).push((key@, value@)));
            assert(sanitized_notes(notes@.subrange(0, i + 1)) =~= sanitized_notes(notes@.subrange(0, i as int)).push(
                (sanitized(notes@[i as int].key@), sanitized(notes@[i as int].value@))));
        }
        i = i + 1;
    }
    assert(notes@.subrange(0, i as int) =~= notes@);
    info_card_from_parts(header.as_str(), &lines)
}

/// The listing of a user's notes sent to staff on request.
pub open spec fn listing_text(notes: Seq<NoteEntity>) -> Seq<char>
    decreases notes.len(),
{
    if notes.len() == 0 {
        "User notes:\n"@
    } else {
        listing_text(notes.drop_last()) + "\n<b>"@ + notes.last().key@ + ":</b> <code>"@
            + notes.last().value@ + "</code>"@
    }
}

/// Lists `notes` for staff, one line per note.
pub fn notes_listing(notes: &Vec<NoteEntity>) -> (r: String)
    ensures
        r@ == listing_text(notes@),
{
    let mut out = "User notes:\n".to_owned();
    let mut i: usize = 0;
    assert(notes@.subrange(0, 0) =~= Seq::<NoteEntity>::empty());
    while i < notes.len()
        invariant
            i <= notes@.len(),
            out@ == listing_text(notes@.subrange(0, i as int)),
        decreases notes@.len() - i,
    {
        out.append("\n<b>");
        out.append(notes[i].key.as_str());
        out.append(":</b> <code>");
        out.append(notes[i].value.as_str());
        out.append("</code>");
        proof {
            let next = notes@.subrange(0, i + 1);
            assert(next.drop_last() =~= notes@.subrange(0, i as int));
            assert(out@ =~= listing_text(next));
        }
        i = i + 1;
    }
    assert(notes@.subrange(0, i as int) =~= notes@);
    out
}

/// How to bring a user's info card up to date.
#[derive(Clone, Copy, Debug, PartialEq, Eq, Structural)]
pub enum InfoCardAction {
    /// Edit the card that the message with this id shows.
    Edit { message_id: i64 },
    /// Send a new card into this thread, pin it and record its message id.
    SendAndPin { topic: i64 },
}

/// Edits the card that already exists, or else sends a new one into the user's thread.
pub fn info_card_action(user: &UserEntity) -> (r: InfoCardAction)
    ensures
        user.info_message is Some ==> r == (InfoCardAction::Edit { message_id: user.info_message->0 }),
        user.info_message is None ==> r == (InfoCardAction::SendAndPin { topic: user.topic }),
{
    match user.info_message {
        Some(id) => InfoCardAction::Edit { message_id: id },
        None => InfoCardAction::SendAndPin { topic: user.topic },
    }
}

/// `user` with its info card shown by the message `message_id`.
pub open spec fn with_info_message(user: UserEntity, message_id: i64) -> UserEntity {
    UserEntity {
        id: user.id,
        telegram_id: user.telegram_id,
        topic: user.topic,
        info_message: Some(message_id),
        first_name: user.first_name,
        last_name: user.last_name,
        lang_code: user.lang_code,
    }
}

/// `user` with its info card shown by the message `message_id`.
pub fn set_info_message(user: UserEntity, message_id: i64) -> (r: UserEntity)
    ensures
        r == with_info_message(user, message_id),
{
    UserEntity {
        id: user.id,
        telegram_id: user.telegram_id,
        topic: user.topic,
        info_message: Some(message_id),
        first_name: user.first_name,
        last_name: user.last_name,
        lang_code: user.lang_code,
    }
}

/// Records that the message `message_id` now shows the info card of `user`, and returns
/// the user as stored. Refused when the stored row of that id has another identity or
/// thread.
pub fn record_info_card(db: &mut MemoryDatabase, user: UserEntity, message_id: i64) -> (r: Result<UserEntity, StorageError>)
    requires
        old(db).wf(),
    ensures
        final(db).wf(),
        final(db).messages() == old(db).messages(),
        final(db).notes() == old(db).notes(),
        user_updated(
            old(db).users(),
            with_info_message(user, message_id),
            final(db).users(),
            match r {
                Ok(_) => Ok::<(), StorageError>(()),
                Err(e) => Err::<(), StorageError>(e),
            },
        ),
        r is Ok ==> r->Ok_0 == with_info_message(user, message_id),
{
    let u = set_info_message(user, message_id);
    let stored = u.duplicate();
    match db.update_user(u) {
        Ok(()) => Ok(stored),
        Err(e) => Err(e),
    }
}

/// A staff command, issued inside a user's dedicated thread.
#[derive(Clone, Debug)]
pub enum StaffCommand {
    SetNote { key: String, value: String },
    Notes,
    DeleteNote { key: String },
}

/// What a staff command answers in the thread.
#[derive(Clone, Debug)]
pub enum StaffReply {
    /// The note was saved; the info card is due for a refresh.
    Saved,
    /// The note was deleted; the info card is due for a refresh.
    Deleted,
    /// The listing of the user's notes.
    Listing(String),
}

impl StaffReply {
    /// The text of the reply.
    pub fn text(&self) -> (r: String)
        ensures
            match self {
                StaffReply::Saved => r@ == "Note saved"@,
                StaffReply::Deleted => r@ == "Note deleted"@,
                StaffReply::Listing(t) => r@ == t@,
            },
    {
        match self {
            StaffReply::Saved => "Note saved".to_owned(),
            StaffReply::Deleted => "Note deleted".to_owned(),
            StaffReply::Listing(t) => t.clone(),
        }
    }
}

/// Carries out a staff command issued in thread `topic`. A command outside a thread, or
/// in a thread that no user owns, is ignored (`Ok(None)`). Otherwise it acts on the notes
/// of the thread's user: a note is saved with its key and value trimmed, or the note under
/// the trimmed key is deleted, or the notes are listed; the user and the reply come back.
/// Saving fails only when a new row is due and no note id is left.
pub fn run_staff_command(db: &mut MemoryDatabase, topic: Option<i64>, cmd: StaffCommand) -> (r: Result<Option<(UserEntity, StaffReply)>, StorageError>)
    requires
        old(db).wf(),
    ensures
        final(db).wf(),
        final(db).users() == old(db).users(),
        final(db).messages() == old(db).messages(),
        topic is None || user_by_topic(old(db).users(), topic->0) is None
            ==> r is Ok && r->Ok_0 is None && final(db).notes() == old(db).notes(),
        topic is Some && user_by_topic(old(db).users(), topic->0) is Some ==> {
            let user = user_by_topic(old(db).users(), topic->0)->0;
            match cmd {
                StaffCommand::SetNote { key, value } => {
                    &&& r is Ok ==> {
                        let (u, reply) = r->Ok_0->0;
                        &&& r->Ok_0 is Some
                        &&& u == user
                        &&& reply is Saved
                        &&& exists|n: NoteEntity, k: String, v: String|
                            k@ == trim_of(key@) && v@ == trim_of(value@) && upserted(
                                old(db).notes(),
                                old(db).fresh_note_id(),
                                InsertNoteEntity { user_id: user.id, key: k, value: v },
                                final(db).notes(),
                                n,
                            )
                    }
                    &&& r is Err ==> r == Err::<Option<(UserEntity, StaffReply)>, StorageError>(StorageError::Exhausted)
                        && final(db).notes() == old(db).notes()
                    &&& (exists|i: int| note_is(old(db).notes(), user.id, trim_of(key@), i))
                        || old(db).fresh_note_id() < i32::MAX ==> r is Ok
                },
                StaffCommand::DeleteNote { key } => match r {
                    Ok(Some((u, StaffReply::Deleted))) => u == user
                        && note_deleted(old(db).notes(), user.id, trim_of(key@), final(db).notes()),
                    _ => false,
                },
                StaffCommand::Notes => match r {
                    Ok(Some((u, StaffReply::Listing(t)))) => u == user
                        && t@ == listing_text(notes_of(old(db).notes(), user.id))
                        && final(db).notes() == old(db).notes(),
                    _ => false,
                },
            }
        },
{
    let t = match topic {
        Some(t) => t,
        None => return Ok(None),
    };
    let user = match db.get_user_by_topic(t) {
        Some(u) => u,
        None => return Ok(None),
    };
    match cmd {
        StaffCommand::SetNote { key, value } => {
            let k = trim(key.as_str());
            let v = trim(value.as_str());
            let ghost note = InsertNoteEntity { user_id: user.id, key: k, value: v };
            match db.save_note(InsertNoteEntity { user_id: user.id, key: k, value: v }) {
                Ok(n) => {
                    assert(upserted(old(db).notes(), old(db).fresh_note_id(), note, db.notes(), n));
                    Ok(Some((user, StaffReply::Saved)))
                },
                Err(e) => {
                    assert(note.key@ == trim_of(key@));
                    assert forall|i: int| !note_is(old(db).notes(), user.id, trim_of(key@), i) by {
                        assert(!note_is(old(db).notes(), note.user_id, note.key@, i));
                    }
                    Err(e)
                },
            }
        },
        StaffCommand::DeleteNote { key } => {
            let k = trim(key.as_str());
            db.delete_note(&user, k.as_str());
            Ok(Some((user, StaffReply::Deleted)))
        },
        StaffCommand::Notes => {
            let notes = db.get_notes(&user);
            let listing = notes_listing(&notes);
            Ok(Some((user, StaffReply::Listing(listing))))
        },
    }
}

/// A command that a user sends in the private conversation.
#[derive(Clone, Copy, Debug, PartialEq, Eq, Structural)]
pub enum UserCommand {
    Help,
    Start,
    Faq,
}

/// The localized message that answers a user command; help is answered with the list of
/// commands instead.
pub fn user_command_message(cmd: UserCommand) -> (r: Option<CommonMessages>)
    ensures
        cmd == UserCommand::Help ==> r is None,
        cmd == UserCommand::Start ==> r == Some(CommonMessages::Welcome),
        cmd == UserCommand::Faq ==> r == Some(CommonMessages::Faq),
{
    match cmd {
        UserCommand::Help => None,
        UserCommand::Start => Some(CommonMessages::Welcome),
        UserCommand::Faq => Some(CommonMessages::Faq),
    }
}

} // verus!
