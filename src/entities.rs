use vstd::prelude::*;

verus! {

/// A copy of an optional text.
pub fn copy_text(o: &Option<String>) -> (r: Option<String>)
    ensures
        r == *o,
{
    match o {
        Some(s) => Some(s.clone()),
        None => None,
    }
}

/// One external party: its identity on the transport, its dedicated thread in the staff
/// space, and the message that shows its info card once that has been sent.
#[derive(Clone, Debug)]
pub struct UserEntity {
    pub id: i32,
    pub telegram_id: i64,
    pub topic: i64,
    pub info_message: Option<i64>,
    pub first_name: Option<String>,
    pub last_name: Option<String>,
    pub lang_code: Option<String>,
}

impl UserEntity {
    /// A field-for-field copy.
    pub fn duplicate(&self) -> (r: UserEntity)
        ensures
            r == *self,
    {
        UserEntity {
            id: self.id,
            telegram_id: self.telegram_id,
            topic: self.topic,
            info_message: self.info_message,
            first_name: copy_text(&self.first_name),
            last_name: copy_text(&self.last_name),
            lang_code: copy_text(&self.lang_code),
        }
    }
}

/// A user row before storage has given it an id.
#[derive(Clone, Debug)]
pub struct InsertUserEntity {
    pub telegram_id: i64,
    pub topic: i64,
    pub info_message: Option<i64>,
    pub first_name: Option<String>,
    pub last_name: Option<String>,
    pub lang_code: Option<String>,
}

/// The direction in which a message was relayed.
#[derive(Clone, Copy, Debug, PartialEq, Eq, Structural)]
pub enum MessageType {
    /// From a user to the staff space.
    Incoming,
    /// From the staff space to a user.
    Outgoing,
}

/// The stored code of a direction.
pub open spec fn type_code(t: MessageType) -> i16 {
    match t {
        MessageType::Incoming => 0,
        MessageType::Outgoing => 1,
    }
}

impl MessageType {
    /// The code under which the direction is stored.
    pub fn code(&self) -> (r: i16)
        ensures
            r == type_code(*self),
    {
        match self {
            MessageType::Incoming => 0,
            MessageType::Outgoing => 1,
        }
    }
}

/// A correlation entry before storage has given it an id: the original message, as
/// received on its side, and the id of the copy delivered to the other side.
#[derive(Clone, Debug)]
pub struct InsertMessageEntity {
    pub user_id: i32,
    pub type_: i16,
    pub rx_msg_id: i64,
    pub rx_msg: String,
    pub tx_msg_id: i64,
}

impl InsertMessageEntity {
    /// The entry for a message relayed from `user` to the staff space.
    pub fn incoming(user: &UserEntity, rx_id: i64, rx_msg: String, tx_id: i64) -> (r: InsertMessageEntity)
        ensures
            r == (InsertMessageEntity {
                user_id: user.id,
                type_: type_code(MessageType::Incoming),
                rx_msg_id: rx_id,
                rx_msg,
                tx_msg_id: tx_id,
            }),
    {
        InsertMessageEntity {
            user_id: user.id,
            type_: MessageType::Incoming.code(),
            rx_msg_id: rx_id,
            rx_msg,
            tx_msg_id: tx_id,
        }
    }

    /// The entry for a message relayed from the staff space to `user`.
    pub fn outgoing(user: &UserEntity, rx_id: i64, rx_msg: String, tx_id: i64) -> (r: InsertMessageEntity)
        ensures
            r == (InsertMessageEntity {
                user_id: user.id,
                type_: type_code(MessageType::Outgoing),
                rx_msg_id: rx_id,
                rx_msg,
                tx_msg_id: tx_id,
            }),
    {
        InsertMessageEntity {
            user_id: user.id,
            type_: MessageType::Outgoing.code(),
            rx_msg_id: rx_id,
            rx_msg,
            tx_msg_id: tx_id,
        }
    }
}

/// A stored correlation entry.
#[derive(Clone, Debug)]
pub struct MessageEntity {
    pub id: i32,
    pub user_id: i32,
    pub type_: i16,
    pub rx_msg_id: i64,
    pub rx_msg: String,
    pub tx_msg_id: i64,
}

impl MessageEntity {
    /// A field-for-field copy.
    pub fn duplicate(&self) -> (r: MessageEntity)
        ensures
            r == *self,
    {
        MessageEntity {
            id: self.id,
            user_id: self.user_id,
            type_: self.type_,
            rx_msg_id: self.rx_msg_id,
            rx_msg: self.rx_msg.clone(),
            tx_msg_id: self.tx_msg_id,
        }
    }
}

/// A note before storage has given it an id.
#[derive(Clone, Debug)]
pub struct InsertNoteEntity {
    pub user_id: i32,
    pub key: String,
    pub value: String,
}

/// A stored note: a key and a value attached to one user.
#[derive(Clone, Debug)]
pub struct NoteEntity {
    pub id: i32,
    pub user_id: i32,
    pub key: String,
    pub value: String,
}

impl NoteEntity {
    /// A field-for-field copy.
    pub fn duplicate(&self) -> (r: NoteEntity)
        ensures
            r == *self,
    {
        NoteEntity {
            id: self.id,
            user_id: self.user_id,
            key: self.key.clone(),
            value: self.value.clone(),
        }
    }
}

/// Where the durable store lives.
#[derive(Clone, Debug)]
pub enum DatabaseConfig {
    Sqlite { path: String },
}

} // verus!
