use vstd::prelude::*;
use crate::entities::{
    InsertMessageEntity, InsertNoteEntity, InsertUserEntity, MessageEntity, MessageType,
    NoteEntity, UserEntity, type_code,
};

verus! {

/// Why a write to storage was refused.
#[derive(Clone, Copy, Debug, PartialEq, Eq, Structural)]
pub enum StorageError {
    /// The write would break a uniqueness rule of the tables.
    Conflict,
    /// No further id can be handed out for the table.
    Exhausted,
}

/// One change of a row, in the order in which the tables changed.
#[derive(Clone, Debug)]
pub enum Change {
    /// A user row was added or replaced.
    User(UserEntity),
    /// A correlation row was added.
    Message(MessageEntity),
    /// A note row was added or replaced.
    Note(NoteEntity),
    /// A note row was removed.
    NoteRemoved(NoteEntity),
}

/// Whether row `i` of `users` has the external identity `tg`.
pub open spec fn user_has_tg(users: Seq<UserEntity>, tg: i64, i: int) -> bool {
    0 <= i < users.len() && users[i].telegram_id == tg
}

/// Whether row `i` of `users` owns the dedicated thread `topic`.
pub open spec fn user_has_topic(users: Seq<UserEntity>, topic: i64, i: int) -> bool {
    0 <= i < users.len() && users[i].topic == topic
}

/// The user with external identity `tg`, if there is one.
pub open spec fn user_by_tg(users: Seq<UserEntity>, tg: i64) -> Option<UserEntity> {
    if exists|i: int| user_has_tg(users, tg, i) {
        Some(users[choose|i: int| user_has_tg(users, tg, i)])
    } else {
        None
    }
}

/// The user that owns the dedicated thread `topic`, if there is one.
pub open spec fn user_by_topic(users: Seq<UserEntity>, topic: i64) -> Option<UserEntity> {
    if exists|i: int| user_has_topic(users, topic, i) {
        Some(users[choose|i: int| user_has_topic(users, topic, i)])
    } else {
        None
    }
}

/// Whether row `i` of `msgs` correlates message `rx` of user `uid` in direction `code`.
pub open spec fn message_is(msgs: Seq<MessageEntity>, uid: i32, code: i16, rx: i64, i: int) -> bool {
    0 <= i < msgs.len() && msgs[i].user_id == uid && msgs[i].type_ == code && msgs[i].rx_msg_id == rx
}

/// The correlation entry of message `rx` of user `uid` in direction `code`, if there is one.
pub open spec fn message_for(msgs: Seq<MessageEntity>, uid: i32, code: i16, rx: i64) -> Option<MessageEntity> {
    if exists|i: int| message_is(msgs, uid, code, rx, i) {
        Some(msgs[choose|i: int| message_is(msgs, uid, code, rx, i)])
    } else {
        None
    }
}

/// Whether row `i` of `notes` is the note of user `uid` under `key`.
pub open spec fn note_is(notes: Seq<NoteEntity>, uid: i32, key: Seq<char>, i: int) -> bool {
    0 <= i < notes.len() && notes[i].user_id == uid && notes[i].key@ == key
}

/// The notes of user `uid`, in the order in which they were created.
pub open spec fn notes_of(notes: Seq<NoteEntity>, uid: i32) -> Seq<NoteEntity>
    decreases notes.len(),
{
    if notes.len() == 0 {
        notes
    } else if notes.last().user_id == uid {
        notes_of(notes.drop_last(), uid).push(notes.last())
    } else {
        notes_of(notes.drop_last(), uid)
    }
}

/// What saving `note` does to the table `old`, whose next fresh id is `fresh`: the note of
/// the same user under the same key takes the new value in place, or else a new row is
/// added. `n` is the row as it stands afterwards.
pub open spec fn upserted(
    old: Seq<NoteEntity>,
    fresh: i32,
    note: InsertNoteEntity,
    new: Seq<NoteEntity>,
    n: NoteEntity,
) -> bool {
    if exists|i: int| note_is(old, note.user_id, note.key@, i) {
        exists|i: int|
            note_is(old, note.user_id, note.key@, i) && n == (NoteEntity {
                id: old[i].id,
                user_id: old[i].user_id,
                key: old[i].key,
                value: note.value,
            }) && new == old.update(i, n)
    } else {
        n == (NoteEntity { id: fresh, user_id: note.user_id, key: note.key, value: note.value })
            && new == old.push(n)
    }
}

/// What deleting the note of user `uid` under `key` does to the table `old`: the row goes,
/// if there is one; otherwise the table stays as it is.
pub open spec fn note_deleted(old: Seq<NoteEntity>, uid: i32, key: Seq<char>, new: Seq<NoteEntity>) -> bool {
    &&& forall|i: int| note_is(old, uid, key, i) ==> new == old.remove(i)
    &&& !(exists|i: int| note_is(old, uid, key, i)) ==> new == old
}

/// What replacing the row with the id of `user` does to the table `old`, with outcome
/// `r`: with no such row nothing happens; a row whose external identity and thread match
/// is replaced; any other row stays and the replacement is refused.
pub open spec fn user_updated(old: Seq<UserEntity>, user: UserEntity, new: Seq<UserEntity>, r: Result<(), StorageError>) -> bool {
    &&& (forall|k: int| 0 <= k < old.len() ==> old[k].id != user.id)
        ==> r is Ok && new == old
    &&& forall|k: int|
        #![trigger old[k]]
        0 <= k < old.len() && old[k].id == user.id ==> {
            if old[k].telegram_id == user.telegram_id && old[k].topic == user.topic {
                r is Ok && new == old.update(k, user)
            } else {
                r == Err::<(), StorageError>(StorageError::Conflict) && new == old
            }
        }
}

/// Whether a row has the id, external identity and thread of `user`.
pub open spec fn user_matched(users: Seq<UserEntity>, user: UserEntity) -> bool {
    exists|k: int|
        0 <= k < users.len() && users[k].id == user.id && users[k].telegram_id == user.telegram_id
            && users[k].topic == user.topic
}

/// The row that storage makes of `e` under the id `id`.
pub open spec fn user_row(e: InsertUserEntity, id: i32) -> UserEntity {
    UserEntity {
        id,
        telegram_id: e.telegram_id,
        topic: e.topic,
        info_message: e.info_message,
        first_name: e.first_name,
        last_name: e.last_name,
        lang_code: e.lang_code,
    }
}

/// The row that storage makes of `m` under the id `id`.
pub open spec fn message_row(m: InsertMessageEntity, id: i32) -> MessageEntity {
    MessageEntity {
        id,
        user_id: m.user_id,
        type_: m.type_,
        rx_msg_id: m.rx_msg_id,
        rx_msg: m.rx_msg,
        tx_msg_id: m.tx_msg_id,
    }
}

/// The persistent state of the relay held in memory: users, correlation entries and
/// notes, with the uniqueness rules of their tables.
pub struct MemoryDatabase {
    users: Vec<UserEntity>,
    messages: Vec<MessageEntity>,
    notes: Vec<NoteEntity>,
    next_user_id: i32,
    next_message_id: i32,
    next_note_id: i32,
    changes: Vec<Change>,
}

impl MemoryDatabase {
    /// The changes made since they were last taken.
    pub closed spec fn changes(&self) -> Seq<Change> {
        self.changes@
    }

    /// The user rows, in the order of insertion.
    pub closed spec fn users(&self) -> Seq<UserEntity> {
        self.users@
    }

    /// The correlation rows, in the order of insertion.
    pub closed spec fn messages(&self) -> Seq<MessageEntity> {
        self.messages@
    }

    /// The note rows, in the order of insertion.
    pub closed spec fn notes(&self) -> Seq<NoteEntity> {
        self.notes@
    }

    /// The id that the next user row gets.
    pub closed spec fn fresh_user_id(&self) -> i32 {
        self.next_user_id
    }

    /// The id that the next correlation row gets.
    pub closed spec fn fresh_message_id(&self) -> i32 {
        self.next_message_id
    }

    /// The id that the next note row gets.
    pub closed spec fn fresh_note_id(&self) -> i32 {
        self.next_note_id
    }

    /// The tables' rules: ids are unique and below the next fresh id; one user per
    /// external identity and per thread; one correlation entry per user, direction and
    /// original message; one note per user and key.
    pub closed spec fn wf(&self) -> bool {
        &&& forall|i: int| 0 <= i < self.users@.len() ==> self.users@[i].id < self.next_user_id
        &&& forall|i: int, j: int|
            0 <= i < self.users@.len() && 0 <= j < self.users@.len() && i != j ==> {
                &&& self.users@[i].id != self.users@[j].id
                &&& self.users@[i].telegram_id != self.users@[j].telegram_id
                &&& self.users@[i].topic != self.users@[j].topic
            }
        &&& forall|i: int| 0 <= i < self.messages@.len() ==> self.messages@[i].id < self.next_message_id
        &&& forall|i: int, j: int|
            0 <= i < self.messages@.len() && 0 <= j < self.messages@.len() && i != j ==> {
                &&& self.messages@[i].id != self.messages@[j].id
                &&& !(self.messages@[i].user_id == self.messages@[j].user_id
                    && self.messages@[i].type_ == self.messages@[j].type_
                    && self.messages@[i].rx_msg_id == self.messages@[j].rx_msg_id)
            }
        &&& forall|i: int| 0 <= i < self.notes@.len() ==> self.notes@[i].id < self.next_note_id
        &&& forall|i: int, j: int|
            0 <= i < self.notes@.len() && 0 <= j < self.notes@.len() && i != j ==> {
                &&& self.notes@[i].id != self.notes@[j].id
                &&& !(self.notes@[i].user_id == self.notes@[j].user_id
                    && self.notes@[i].key@ == self.notes@[j].key@)
            }
    }

    /// Empty tables.
    pub fn new() -> (r: MemoryDatabase)
        ensures
            r.wf(),
            r.users().len() == 0,
            r.messages().len() == 0,
            r.notes().len() == 0,
            r.changes().len() == 0,
    {
        MemoryDatabase {
            users: Vec::new(),
            messages: Vec::new(),
            notes: Vec::new(),
            next_user_id: 1,
            next_message_id: 1,
            next_note_id: 1,
            changes: Vec::new(),
        }
    }

    /// The user with external identity `id`.
    pub fn get_user_by_tg_id(&self, id: i64) -> (r: Option<UserEntity>)
        requires
            self.wf(),
        ensures
            r == user_by_tg(self.users(), id),
    {
        let mut i: usize = 0;
        while i < self.users.len()
            invariant
                i <= self.users@.len(),
                self.wf(),
                forall|k: int| 0 <= k < i ==> !user_has_tg(self.users@, id, k),
            decreases self.users@.len() - i,
        {
            if self.users[i].telegram_id == id {
                let ghost c = choose|k: int| user_has_tg(self.users@, id, k);
                assert(user_has_tg(self.users@, id, i as int));
                assert(c == i);
                return Some(self.users[i].duplicate());
            }
            i = i + 1;
        }
        None
    }

    /// The user that owns the dedicated thread `t`.
    pub fn get_user_by_topic(&self, t: i64) -> (r: Option<UserEntity>)
        requires
            self.wf(),
        ensures
            r == user_by_topic(self.users(), t),
    {
        let mut i: usize = 0;
        while i < self.users.len()
            invariant
                i <= self.users@.len(),
                self.wf(),
                forall|k: int| 0 <= k < i ==> !user_has_topic(self.users@, t, k),
            decreases self.users@.len() - i,
        {
            if self.users[i].topic == t {
                let ghost c = choose|k: int| user_has_topic(self.users@, t, k);
                assert(user_has_topic(self.users@, t, i as int));
                assert(c == i);
                return Some(self.users[i].duplicate());
            }
            i = i + 1;
        }
        None
    }

    /// Adds a user row. It is refused when the external identity or the thread is taken
    /// already, or when no user id is left.
    pub fn insert_user(&mut self, entity: InsertUserEntity) -> (r: Result<UserEntity, StorageError>)
        requires
            old(self).wf(),
        ensures
            final(self).wf(),
            final(self).messages() == old(self).messages(),
            final(self).notes() == old(self).notes(),
            (exists|i: int|
                user_has_tg(old(self).users(), entity.telegram_id, i)
                    || user_has_topic(old(self).users(), entity.topic, i)) ==> r == Err::<
                UserEntity,
                StorageError,
            >(StorageError::Conflict) && final(self).users() == old(self).users(),
            !(exists|i: int|
                user_has_tg(old(self).users(), entity.telegram_id, i)
                    || user_has_topic(old(self).users(), entity.topic, i)) ==> {
                if old(self).fresh_user_id() == i32::MAX {
                    r == Err::<UserEntity, StorageError>(StorageError::Exhausted)
                        && final(self).users() == old(self).users()
                } else {
                    &&& r == Ok::<UserEntity, StorageError>(user_row(entity, old(self).fresh_user_id()))
                    &&& final(self).users() == old(self).users().push(user_row(entity, old(self).fresh_user_id()))
                }
            },
            match r {
                Ok(u) => final(self).changes() == old(self).changes().push(Change::User(u)),
                Err(_) => final(self).changes() == old(self).changes(),
            },
    {
        let mut i: usize = 0;
        while i < self.users.len()
            invariant
                i <= self.users@.len(),
                *self == *old(self),
                self.wf(),
                forall|k: int| 0 <= k < i ==> !user_has_tg(self.users@, entity.telegram_id, k)
                    && !user_has_topic(self.users@, entity.topic, k),
            decreases self.users@.len() - i,
        {
            if self.users[i].telegram_id == entity.telegram_id || self.users[i].topic == entity.topic {
                assert(user_has_tg(old(self).users(), entity.telegram_id, i as int)
                    || user_has_topic(old(self).users(), entity.topic, i as int));
                return Err(StorageError::Conflict);
            }
            i = i + 1;
        }
        if self.next_user_id == i32::MAX {
            return Err(StorageError::Exhausted);
        }
        let row = UserEntity {
            id: self.next_user_id,
            telegram_id: entity.telegram_id,
            topic: entity.topic,
            info_message: entity.info_message,
            first_name: entity.first_name,
            last_name: entity.last_name,
            lang_code: entity.lang_code,
        };
        assert forall|k: int| 0 <= k < old(self).users@.len() implies old(self).users@[k].telegram_id != entity.telegram_id
            && old(self).users@[k].topic != entity.topic by {
            assert(!user_has_tg(self.users@, entity.telegram_id, k));
            assert(!user_has_topic(self.users@, entity.topic, k));
        }
        let out = row.duplicate();
        self.changes.push(Change::User(row.duplicate()));
        self.users.push(row);
        self.next_user_id = self.next_user_id + 1;
        Ok(out)
    }

    /// Replaces the user row with the id of `user`. The external identity and the thread
    /// of a row never change: a replacement that would change them is refused. Nothing
    /// happens when no row has that id.
    pub fn update_user(&mut self, user: UserEntity) -> (r: Result<(), StorageError>)
        requires
            old(self).wf(),
        ensures
            final(self).wf(),
            final(self).messages() == old(self).messages(),
            final(self).notes() == old(self).notes(),
            r != Err::<(), StorageError>(StorageError::Exhausted),
            user_updated(old(self).users(), user, final(self).users(), r),
            user_matched(old(self).users(), user) ==> final(self).changes() == old(self).changes().push(Change::User(user)),
            !user_matched(old(self).users(), user) ==> final(self).changes() == old(self).changes(),
    {
        let mut i: usize = 0;
        while i < self.users.len()
            invariant
                i <= self.users@.len(),
                *self == *old(self),
                self.wf(),
                forall|k: int| 0 <= k < i ==> self.users@[k].id != user.id,
            decreases self.users@.len() - i,
        {
            if self.users[i].id == user.id {
                if self.users[i].telegram_id == user.telegram_id && self.users[i].topic == user.topic {
                    self.changes.push(Change::User(user.duplicate()));
                    assert(user_matched(old(self).users@, user));
                    self.users.set(i, user);
                    return Ok(());
                } else {
                    assert forall|k: int| 0 <= k < self.users@.len() && self.users@[k].id == user.id implies k == i by {}
                    return Err(StorageError::Conflict);
                }
            }
            i = i + 1;
        }
        Ok(())
    }

    /// Adds a correlation entry. It is refused when the user already has an entry for the
    /// same original message in the same direction, or when no id is left.
    pub fn insert_message(&mut self, message: InsertMessageEntity) -> (r: Result<MessageEntity, StorageError>)
        requires
            old(self).wf(),
        ensures
            final(self).wf(),
            final(self).users() == old(self).users(),
            final(self).notes() == old(self).notes(),
            (exists|i: int| message_is(old(self).messages(), message.user_id, message.type_, message.rx_msg_id, i))
                ==> r == Err::<MessageEntity, StorageError>(StorageError::Conflict)
                && final(self).messages() == old(self).messages(),
            !(exists|i: int| message_is(old(self).messages(), message.user_id, message.type_, message.rx_msg_id, i))
                ==> {
                if old(self).fresh_message_id() == i32::MAX {
                    r == Err::<MessageEntity, StorageError>(StorageError::Exhausted)
                        && final(self).messages() == old(self).messages()
                } else {
                    &&& r == Ok::<MessageEntity, StorageError>(message_row(message, old(self).fresh_message_id()))
                    &&& final(self).messages() == old(self).messages().push(message_row(message, old(self).fresh_message_id()))
                }
            },
            match r {
                Ok(e) => final(self).changes() == old(self).changes().push(Change::Message(e)),
                Err(_) => final(self).changes() == old(self).changes(),
            },
    {
        let mut i: usize = 0;
        while i < self.messages.len()
            invariant
                i <= self.messages@.len(),
                *self == *old(self),
                self.wf(),
                forall|k: int| 0 <= k < i ==> !message_is(self.messages@, message.user_id, message.type_, message.rx_msg_id, k),
            decreases self.messages@.len() - i,
        {
            if self.messages[i].user_id == message.user_id && self.messages[i].type_ == message.type_
                && self.messages[i].rx_msg_id == message.rx_msg_id {
                assert(message_is(old(self).messages(), message.user_id, message.type_, message.rx_msg_id, i as int));
                return Err(StorageError::Conflict);
            }
            i = i + 1;
        }
        if self.next_message_id == i32::MAX {
            return Err(StorageError::Exhausted);
        }
        let row = MessageEntity {
            id: self.next_message_id,
            user_id: message.user_id,
            type_: message.type_,
            rx_msg_id: message.rx_msg_id,
            rx_msg: message.rx_msg,
            tx_msg_id: message.tx_msg_id,
        };
        let out = row.duplicate();
        self.changes.push(Change::Message(row.duplicate()));
        self.messages.push(row);
        self.next_message_id = self.next_message_id + 1;
        assert(forall|k: int| 0 <= k < old(self).messages@.len() ==> self.messages@[k] == old(self).messages@[k]
            && !message_is(old(self).messages@, message.user_id, message.type_, message.rx_msg_id, k));
        Ok(out)
    }

    /// The correlation entry of the original message `rx_id` of `user` in direction `typ`.
    pub fn get_message(&self, user: &UserEntity, typ: MessageType, rx_id: i64) -> (r: Option<MessageEntity>)
        requires
            self.wf(),
        ensures
            r == message_for(self.messages(), user.id, type_code(typ), rx_id),
    {
        let code = typ.code();
        let mut i: usize = 0;
        while i < self.messages.len()
            invariant
                i <= self.messages@.len(),
                self.wf(),
                code == type_code(typ),
                forall|k: int| 0 <= k < i ==> !message_is(self.messages@, user.id, code, rx_id, k),
            decreases self.messages@.len() - i,
        {
            if self.messages[i].user_id == user.id && self.messages[i].type_ == code
                && self.messages[i].rx_msg_id == rx_id {
                let ghost c = choose|k: int| message_is(self.messages@, user.id, code, rx_id, k);
                assert(message_is(self.messages@, user.id, code, rx_id, i as int));
                assert(c == i);
                return Some(self.messages[i].duplicate());
            }
            i = i + 1;
        }
        None
    }

    /// Saves a note: the note of the same user under the same key takes the new value in
    /// place; otherwise a new row is added, which is refused only when no id is left.
    pub fn save_note(&mut self, note: InsertNoteEntity) -> (r: Result<NoteEntity, StorageError>)
        requires
            old(self).wf(),
        ensures
            final(self).wf(),
            final(self).users() == old(self).users(),
            final(self).messages() == old(self).messages(),
            match r {
                Ok(n) => upserted(old(self).notes(), old(self).fresh_note_id(), note, final(self).notes(), n),
                Err(e) => {
                    &&& e == StorageError::Exhausted
                    &&& !(exists|i: int| note_is(old(self).notes(), note.user_id, note.key@, i))
                    &&& old(self).fresh_note_id() == i32::MAX
                    &&& final(self).notes() == old(self).notes()
                },
            },
            (exists|i: int| note_is(old(self).notes(), note.user_id, note.key@, i)
                || old(self).fresh_note_id() < i32::MAX) ==> r is Ok,
            match r {
                Ok(n) => final(self).changes() == old(self).changes().push(Change::Note(n)),
                Err(_) => final(self).changes() == old(self).changes(),
            },
    {
        let mut i: usize = 0;
        while i < self.notes.len()
            invariant
                i <= self.notes@.len(),
                *self == *old(self),
                self.wf(),
                self.wf(),
                forall|k: int| 0 <= k < i ==> !note_is(self.notes@, note.user_id, note.key@, k),
            decreases self.notes@.len() - i,
        {
            if self.notes[i].user_id == note.user_id && self.notes[i].key == note.key {
                let row = NoteEntity {
                    id: self.notes[i].id,
                    user_id: self.notes[i].user_id,
                    key: self.notes[i].key.clone(),
                    value: note.value,
                };
                let out = row.duplicate();
                assert(note_is(old(self).notes@, note.user_id, note.key@, i as int));
                self.changes.push(Change::Note(row.duplicate()));
                self.notes.set(i, row);
                return Ok(out);
            }
            i = i + 1;
        }
        if self.next_note_id == i32::MAX {
            return Err(StorageError::Exhausted);
        }
        let row = NoteEntity { id: self.next_note_id, user_id: note.user_id, key: note.key, value: note.value };
        let out = row.duplicate();
        self.changes.push(Change::Note(row.duplicate()));
        self.notes.push(row);
        self.next_note_id = self.next_note_id + 1;
        assert(forall|k: int| 0 <= k < old(self).notes@.len() ==> self.notes@[k] == old(self).notes@[k]
            && !note_is(old(self).notes@, note.user_id, note.key@, k));
        Ok(out)
    }

    /// The notes of `user`, in the order in which they were created.
    pub fn get_notes(&self, user: &UserEntity) -> (r: Vec<NoteEntity>)
        ensures
            r@ == notes_of(self.notes(), user.id),
    {
        let mut out: Vec<NoteEntity> = Vec::new();
        let mut i: usize = 0;
        while i < self.notes.len()
            invariant
                i <= self.notes@.len(),
                out@ == notes_of(self.notes@.subrange(0, i as int), user.id),
            decreases self.notes@.len() - i,
        {
            proof {
                assert(self.notes@.subrange(0, i + 1).drop_last() =~= self.notes@.subrange(0, i as int));
            }
            if self.notes[i].user_id == user.id {
                out.push(self.notes[i].duplicate());
            }
            i = i + 1;
        }
        assert(self.notes@.subrange(0, i as int) =~= self.notes@);
        out
    }

    /// Hands out the changes made since they were last taken, oldest first, and forgets
    /// them.
    pub fn take_changes(&mut self) -> (r: Vec<Change>)
        requires
            old(self).wf(),
        ensures
            final(self).wf(),
            r@ == old(self).changes(),
            final(self).changes().len() == 0,
            final(self).users() == old(self).users(),
            final(self).messages() == old(self).messages(),
            final(self).notes() == old(self).notes(),
            final(self).fresh_user_id() == old(self).fresh_user_id(),
            final(self).fresh_message_id() == old(self).fresh_message_id(),
            final(self).fresh_note_id() == old(self).fresh_note_id(),
    {
        let mut taken: Vec<Change> = Vec::new();
        std::mem::swap(&mut self.changes, &mut taken);
        taken
    }

    /// Puts back a user row read from durable storage, with its id. It is refused when its
    /// id, external identity or thread is taken already, or when its id is the largest
    /// one (no id would be left after it).
    pub fn restore_user(&mut self, row: UserEntity) -> (r: Result<(), StorageError>)
        requires
            old(self).wf(),
        ensures
            final(self).wf(),
            final(self).messages() == old(self).messages(),
            final(self).notes() == old(self).notes(),
            final(self).changes() == old(self).changes(),
            (exists|i: int| 0 <= i < old(self).users().len() && (old(self).users()[i].id == row.id
                || old(self).users()[i].telegram_id == row.telegram_id || old(self).users()[i].topic == row.topic))
                ==> r == Err::<(), StorageError>(StorageError::Conflict),
            r is Ok ==> final(self).users() == old(self).users().push(row),
            r is Err ==> final(self).users() == old(self).users(),
            row.id < i32::MAX && !(exists|i: int| 0 <= i < old(self).users().len() && (old(self).users()[i].id == row.id
                || old(self).users()[i].telegram_id == row.telegram_id || old(self).users()[i].topic == row.topic))
                ==> r is Ok,
    {
        let mut i: usize = 0;
        while i < self.users.len()
            invariant
                i <= self.users@.len(),
                *self == *old(self),
                self.wf(),
                forall|k: int| 0 <= k < i ==> self.users@[k].id != row.id
                    && self.users@[k].telegram_id != row.telegram_id && self.users@[k].topic != row.topic,
            decreases self.users@.len() - i,
        {
            if self.users[i].id == row.id || self.users[i].telegram_id == row.telegram_id || self.users[i].topic == row.topic {
                return Err(StorageError::Conflict);
            }
            i = i + 1;
        }
        if row.id == i32::MAX {
            return Err(StorageError::Exhausted);
        }
        if row.id >= self.next_user_id {
            self.next_user_id = row.id + 1;
        }
        self.users.push(row);
        Ok(())
    }

    /// Puts back a correlation row read from durable storage, with its id. It is refused
    /// when its id, or its user, direction and original message, are taken already, or
    /// when its id is the largest one.
    pub fn restore_message(&mut self, row: MessageEntity) -> (r: Result<(), StorageError>)
        requires
            old(self).wf(),
        ensures
            final(self).wf(),
            final(self).users() == old(self).users(),
            final(self).notes() == old(self).notes(),
            final(self).changes() == old(self).changes(),
            (exists|i: int| #![trigger old(self).messages()[i]] 0 <= i < old(self).messages().len() && (old(self).messages()[i].id == row.id
                || message_is(old(self).messages(), row.user_id, row.type_, row.rx_msg_id, i)))
                ==> r == Err::<(), StorageError>(StorageError::Conflict),
            r is Ok ==> final(self).messages() == old(self).messages().push(row),
            r is Err ==> final(self).messages() == old(self).messages(),
            row.id < i32::MAX && !(exists|i: int| #![trigger old(self).messages()[i]] 0 <= i < old(self).messages().len() && (old(self).messages()[i].id == row.id
                || message_is(old(self).messages(), row.user_id, row.type_, row.rx_msg_id, i)))
                ==> r is Ok,
    {
        let mut i: usize = 0;
        while i < self.messages.len()
            invariant
                i <= self.messages@.len(),
                *self == *old(self),
                self.wf(),
                forall|k: int| 0 <= k < i ==> self.messages@[k].id != row.id
                    && !(self.messages@[k].user_id == row.user_id && self.messages@[k].type_ == row.type_
                    && self.messages@[k].rx_msg_id == row.rx_msg_id),
            decreases self.messages@.len() - i,
        {
            if self.messages[i].id == row.id || (self.messages[i].user_id == row.user_id
                && self.messages[i].type_ == row.type_ && self.messages[i].rx_msg_id == row.rx_msg_id) {
                assert(0 <= i < old(self).messages().len() && (old(self).messages()[i as int].id == row.id
                    || message_is(old(self).messages(), row.user_id, row.type_, row.rx_msg_id, i as int)));
                return Err(StorageError::Conflict);
            }
            i = i + 1;
        }
        if row.id == i32::MAX {
            return Err(StorageError::Exhausted);
        }
        if row.id >= self.next_message_id {
            self.next_message_id = row.id + 1;
        }
        self.messages.push(row);
        Ok(())
    }

    /// Puts back a note row read from durable storage, with its id. It is refused when its
    /// id, or its user and key, are taken already, or when its id is the largest one.
    pub fn restore_note(&mut self, row: NoteEntity) -> (r: Result<(), StorageError>)
        requires
            old(self).wf(),
        ensures
            final(self).wf(),
            final(self).users() == old(self).users(),
            final(self).messages() == old(self).messages(),
            final(self).changes() == old(self).changes(),
            (exists|i: int| #![trigger old(self).notes()[i]] 0 <= i < old(self).notes().len() && (old(self).notes()[i].id == row.id
                || note_is(old(self).notes(), row.user_id, row.key@, i)))
                ==> r == Err::<(), StorageError>(StorageError::Conflict),
            r is Ok ==> final(self).notes() == old(self).notes().push(row),
            r is Err ==> final(self).notes() == old(self).notes(),
            row.id < i32::MAX && !(exists|i: int| #![trigger old(self).notes()[i]] 0 <= i < old(self).notes().len() && (old(self).notes()[i].id == row.id
                || note_is(old(self).notes(), row.user_id, row.key@, i)))
                ==> r is Ok,
    {
        let mut i: usize = 0;
        while i < self.notes.len()
            invariant
                i <= self.notes@.len(),
                *self == *old(self),
                self.wf(),
                forall|k: int| 0 <= k < i ==> self.notes@[k].id != row.id
                    && !(self.notes@[k].user_id == row.user_id && self.notes@[k].key@ == row.key@),
            decreases self.notes@.len() - i,
        {
            if self.notes[i].id == row.id || (self.notes[i].user_id == row.user_id && self.notes[i].key == row.key) {
                assert(0 <= i < old(self).notes().len() && (old(self).notes()[i as int].id == row.id
                    || note_is(old(self).notes(), row.user_id, row.key@, i as int)));
                return Err(StorageError::Conflict);
            }
            i = i + 1;
        }
        if row.id == i32::MAX {
            return Err(StorageError::Exhausted);
        }
        if row.id >= self.next_note_id {
            self.next_note_id = row.id + 1;
        }
        self.notes.push(row);
        Ok(())
    }

    /// Removes the note of `user` under `note_key`; nothing happens when there is none.
    pub fn delete_note(&mut self, user: &UserEntity, note_key: &str)
        requires
            old(self).wf(),
        ensures
            final(self).wf(),
            final(self).users() == old(self).users(),
            final(self).messages() == old(self).messages(),
            note_deleted(old(self).notes(), user.id, note_key@, final(self).notes()),
            forall|i: int| note_is(old(self).notes(), user.id, note_key@, i)
                ==> final(self).changes() == old(self).changes().push(Change::NoteRemoved(old(self).notes()[i])),
            !(exists|i: int| note_is(old(self).notes(), user.id, note_key@, i))
                ==> final(self).changes() == old(self).changes(),
    {
        let key = note_key.to_owned();
        let mut i: usize = 0;
        while i < self.notes.len()
            invariant
                i <= self.notes@.len(),
                key@ == note_key@,
                *self == *old(self),
                self.wf(),
                self.wf(),
                forall|k: int| 0 <= k < i ==> !note_is(self.notes@, user.id, key@, k),
            decreases self.notes@.len() - i,
        {
            if self.notes[i].user_id == user.id && self.notes[i].key == key {
                let ghost before = self.notes@;
                assert(note_is(old(self).notes(), user.id, note_key@, i as int));
                let removed = self.notes.remove(i);
                self.changes.push(Change::NoteRemoved(removed));
                proof {
                    let after = self.notes@;
                    assert(forall|j: int| 0 <= j < after.len() ==> #[trigger] after[j] == (if j < i { before[j] } else { before[j + 1] }));
                }
                return;
            }
            i = i + 1;
        }
        assert(forall|k: int| 0 <= k < old(self).notes@.len() ==> !note_is(old(self).notes(), user.id, note_key@, k));
    }
}

/// Users with different external identities never share an internal id or a thread.
pub proof fn lemma_identities_distinct(db: MemoryDatabase, e1: i64, e2: i64)
    requires
        db.wf(),
        e1 != e2,
        user_by_tg(db.users(), e1) is Some,
        user_by_tg(db.users(), e2) is Some,
    ensures
        user_by_tg(db.users(), e1)->0.id != user_by_tg(db.users(), e2)->0.id,
        user_by_tg(db.users(), e1)->0.topic != user_by_tg(db.users(), e2)->0.topic,
{
    let i = choose|i: int| user_has_tg(db.users(), e1, i);
    let j = choose|j: int| user_has_tg(db.users(), e2, j);
    assert(i != j);
}

/// Once a user row has been added for an external identity, every later lookup of that
/// identity finds that same row, and lookups of other identities find what they found
/// before.
pub proof fn lemma_identity_resolves_to_inserted(
    before: MemoryDatabase,
    after: MemoryDatabase,
    e: InsertUserEntity,
    other: i64,
)
    requires
        before.wf(),
        after.wf(),
        after.users() == before.users().push(user_row(e, before.fresh_user_id())),
        other != e.telegram_id,
    ensures
        user_by_tg(after.users(), e.telegram_id) == Some(user_row(e, before.fresh_user_id())),
        user_by_tg(after.users(), other) == user_by_tg(before.users(), other),
{
    let last = before.users().len() as int;
    assert(user_has_tg(after.users(), e.telegram_id, last));
    let c = choose|i: int| user_has_tg(after.users(), e.telegram_id, i);
    assert(c == last);
    if exists|i: int| user_has_tg(before.users(), other, i) {
        let k = choose|i: int| user_has_tg(before.users(), other, i);
        assert(user_has_tg(after.users(), other, k));
        let c2 = choose|i: int| user_has_tg(after.users(), other, i);
        assert(c2 == k);
    } else {
        assert forall|i: int| !user_has_tg(after.users(), other, i) by {
            if 0 <= i < before.users().len() {
                assert(after.users()[i] == before.users()[i]);
                assert(!user_has_tg(before.users(), other, i));
            }
        }
    }
}

proof fn lemma_notes_of_update_len(s: Seq<NoteEntity>, i: int, n: NoteEntity, uid: i32)
    requires
        0 <= i < s.len(),
        n.user_id == s[i].user_id,
    ensures
        notes_of(s.update(i, n), uid).len() == notes_of(s, uid).len(),
    decreases s.len(),
{
    let t = s.update(i, n);
    if i == s.len() - 1 {
        assert(t.drop_last() =~= s.drop_last());
    } else {
        assert(t.drop_last() =~= s.drop_last().update(i, n));
        lemma_notes_of_update_len(s.drop_last(), i, n, uid);
    }
}

/// Saving a note twice under the same key leaves exactly one row for that user and key,
/// holding the second value, and the second save does not change how many notes the
/// user has.
pub proof fn lemma_note_upsert_idempotent(
    a: MemoryDatabase,
    b: MemoryDatabase,
    c: MemoryDatabase,
    n1: InsertNoteEntity,
    r1: NoteEntity,
    n2: InsertNoteEntity,
    r2: NoteEntity,
)
    requires
        a.wf(),
        b.wf(),
        c.wf(),
        upserted(a.notes(), a.fresh_note_id(), n1, b.notes(), r1),
        upserted(b.notes(), b.fresh_note_id(), n2, c.notes(), r2),
        n1.user_id == n2.user_id,
        n1.key@ == n2.key@,
    ensures
        exists|i: int| note_is(c.notes(), n2.user_id, n2.key@, i) && c.notes()[i].value == n2.value,
        forall|i: int, j: int|
            note_is(c.notes(), n2.user_id, n2.key@, i) && note_is(c.notes(), n2.user_id, n2.key@, j) ==> i == j,
        notes_of(c.notes(), n2.user_id).len() == notes_of(b.notes(), n2.user_id).len(),
{
    let uid = n2.user_id;
    let key = n2.key@;
    if exists|i: int| note_is(a.notes(), uid, key, i) {
        let i = choose|i: int| note_is(a.notes(), uid, key, i) && r1 == (NoteEntity {
            id: a.notes()[i].id,
            user_id: a.notes()[i].user_id,
            key: a.notes()[i].key,
            value: n1.value,
        }) && b.notes() == a.notes().update(i, r1);
        assert(note_is(b.notes(), uid, key, i));
    } else {
        assert(note_is(b.notes(), uid, key, a.notes().len() as int));
    }
    let k = choose|k: int| note_is(b.notes(), uid, key, k) && r2 == (NoteEntity {
        id: b.notes()[k].id,
        user_id: b.notes()[k].user_id,
        key: b.notes()[k].key,
        value: n2.value,
    }) && c.notes() == b.notes().update(k, r2);
    assert(note_is(c.notes(), uid, key, k));
    lemma_notes_of_update_len(b.notes(), k, r2, uid);
}

/// Deleting a key that the user has no note under changes nothing: the table, and so the
/// user's notes, stay as they were.
pub proof fn lemma_delete_absent_key(before: Seq<NoteEntity>, after: Seq<NoteEntity>, uid: i32, key: Seq<char>)
    requires
        note_deleted(before, uid, key, after),
        forall|i: int| !note_is(before, uid, key, i),
    ensures
        after == before,
        notes_of(after, uid) == notes_of(before, uid),
{
}

/// After a correlation entry has been added, looking up its user, direction and original
/// message finds it, and looking up another original message finds what it found before
/// (nothing, where nothing had been recorded for it).
pub proof fn lemma_correlation_round_trip(
    before: MemoryDatabase,
    after: MemoryDatabase,
    m: InsertMessageEntity,
    other: i64,
)
    requires
        before.wf(),
        after.wf(),
        after.messages() == before.messages().push(message_row(m, before.fresh_message_id())),
        other != m.rx_msg_id,
    ensures
        message_for(after.messages(), m.user_id, m.type_, m.rx_msg_id) == Some(message_row(m, before.fresh_message_id())),
        message_for(after.messages(), m.user_id, m.type_, other) == message_for(before.messages(), m.user_id, m.type_, other),
{
    let last = before.messages().len() as int;
    assert(message_is(after.messages(), m.user_id, m.type_, m.rx_msg_id, last));
    let c = choose|i: int| message_is(after.messages(), m.user_id, m.type_, m.rx_msg_id, i);
    assert(c == last);
    if exists|i: int| message_is(before.messages(), m.user_id, m.type_, other, i) {
        let k = choose|i: int| message_is(before.messages(), m.user_id, m.type_, other, i);
        assert(message_is(after.messages(), m.user_id, m.type_, other, k));
        let c2 = choose|i: int| message_is(after.messages(), m.user_id, m.type_, other, i);
        assert(c2 == k);
    } else {
        assert forall|i: int| !message_is(after.messages(), m.user_id, m.type_, other, i) by {
            if 0 <= i < before.messages().len() {
                assert(after.messages()[i] == before.messages()[i]);
                assert(!message_is(before.messages(), m.user_id, m.type_, other, i));
            }
        }
    }
}

} // verus!
