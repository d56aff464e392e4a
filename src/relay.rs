use vstd::prelude::*;
use crate::entities::{InsertMessageEntity, InsertUserEntity, MessageEntity, MessageType, UserEntity, type_code};
use crate::store::{MemoryDatabase, StorageError, message_is, message_row, user_has_tg, user_has_topic, user_row};
use crate::localization::{CommonMessages, opt_text};
use crate::text::{decimal, decimal_of, name_text};

verus! {

/// One offered resolution of a photo.
#[derive(Clone, Copy, Debug, PartialEq, Eq, Structural)]
pub struct PhotoSize {
    pub width: u32,
    pub height: u32,
}

/// The number of pixels of a photo size.
pub open spec fn area(p: PhotoSize) -> nat {
    p.width as nat * p.height as nat
}

/// What an inbound message carries.
#[derive(Clone, Debug)]
pub enum Content {
    Text,
    Photo { sizes: Vec<PhotoSize> },
    Document,
    Audio,
    Video,
    VideoNote,
    Voice,
    Animation,
    Sticker,
    Contact,
    Location,
    Venue,
    Poll,
    Game,
    /// Any other kind of message, including service messages.
    Other,
}

/// The transport operation that forwards a message of one content kind.
#[derive(Clone, Copy, Debug, PartialEq, Eq, Structural)]
pub enum SendOp {
    Text,
    /// Send the photo in the offered size with this index.
    Photo { size: usize },
    Document,
    Audio,
    Video,
    VideoNote,
    Voice,
    Animation,
    Sticker,
    Contact,
    Location,
    Venue,
}

/// What to do with a new message.
#[derive(Clone, Debug)]
pub enum ForwardPlan {
    /// Forward it with this operation, then record the correlation.
    Forward(SendOp),
    /// Forward nothing and send the sender this notice.
    Notify(CommonMessages),
    /// Do nothing.
    Drop,
}

/// Whether `i` is the index of the largest offered size, the last one among equals.
pub open spec fn is_largest(sizes: Seq<PhotoSize>, i: int) -> bool {
    &&& 0 <= i < sizes.len()
    &&& forall|j: int| 0 <= j < sizes.len() ==> area(#[trigger] sizes[j]) <= area(sizes[i])
    &&& forall|j: int| i < j < sizes.len() ==> area(#[trigger] sizes[j]) < area(sizes[i])
}

fn area_of(p: PhotoSize) -> (r: u64)
    ensures
        r as nat == area(p),
{
    proof {
        vstd::arithmetic::mul::lemma_mul_upper_bound(p.width as int, u32::MAX as int, p.height as int, u32::MAX as int);
    }
    assert(p.width as nat * p.height as nat <= 0xffff_ffffnat * 0xffff_ffffnat) by (nonlinear_arith);
    (p.width as u64) * (p.height as u64)
}

/// The index of the largest offered size by width times height, the last one where
/// several are equally large; `None` when no size is offered.
pub fn largest_photo(sizes: &Vec<PhotoSize>) -> (r: Option<usize>)
    ensures
        sizes@.len() == 0 ==> r is None,
        sizes@.len() > 0 ==> r is Some && is_largest(sizes@, r->0 as int),
{
    if sizes.len() == 0 {
        return None;
    }
    let mut best: usize = 0;
    let mut best_area = area_of(sizes[0]);
    let mut i: usize = 1;
    while i < sizes.len()
        invariant
            1 <= i <= sizes@.len(),
            best < i,
            best_area as nat == area(sizes@[best as int]),
            forall|j: int| 0 <= j < i ==> area(#[trigger] sizes@[j]) <= area(sizes@[best as int]),
            forall|j: int| best < j < i ==> area(#[trigger] sizes@[j]) < area(sizes@[best as int]),
        decreases sizes@.len() - i,
    {
        let a = area_of(sizes[i]);
        if a >= best_area {
            best = i;
            best_area = a;
        }
        i = i + 1;
    }
    Some(best)
}

/// The plan for a new message of content `c`.
pub open spec fn plan_of(c: Content, r: ForwardPlan) -> bool {
    match c {
        Content::Text => r == ForwardPlan::Forward(SendOp::Text),
        Content::Photo { sizes } => if sizes@.len() == 0 {
            r is Drop
        } else {
            exists|i: int| is_largest(sizes@, i) && r == ForwardPlan::Forward(SendOp::Photo { size: i as usize })
        },
        Content::Document => r == ForwardPlan::Forward(SendOp::Document),
        Content::Audio => r == ForwardPlan::Forward(SendOp::Audio),
        Content::Video => r == ForwardPlan::Forward(SendOp::Video),
        Content::VideoNote => r == ForwardPlan::Forward(SendOp::VideoNote),
        Content::Voice => r == ForwardPlan::Forward(SendOp::Voice),
        Content::Animation => r == ForwardPlan::Forward(SendOp::Animation),
        Content::Sticker => r == ForwardPlan::Forward(SendOp::Sticker),
        Content::Contact => r == ForwardPlan::Forward(SendOp::Contact),
        Content::Location => r == ForwardPlan::Forward(SendOp::Location),
        Content::Venue => r == ForwardPlan::Forward(SendOp::Venue),
        Content::Poll => r == ForwardPlan::Notify(CommonMessages::PollsNotSupported),
        Content::Game => r == ForwardPlan::Notify(CommonMessages::GamesNotSupported),
        Content::Other => r is Drop,
    }
}

/// Decides what becomes of a new message: each supported kind has its own forwarding
/// operation, polls and games are answered with a notice, anything else is dropped.
pub fn plan_new_message(c: &Content) -> (r: ForwardPlan)
    ensures
        plan_of(*c, r),
{
    match c {
        Content::Text => ForwardPlan::Forward(SendOp::Text),
        Content::Photo { sizes } => match largest_photo(sizes) {
            Some(i) => ForwardPlan::Forward(SendOp::Photo { size: i }),
            None => ForwardPlan::Drop,
        },
        Content::Document => ForwardPlan::Forward(SendOp::Document),
        Content::Audio => ForwardPlan::Forward(SendOp::Audio),
        Content::Video => ForwardPlan::Forward(SendOp::Video),
        Content::VideoNote => ForwardPlan::Forward(SendOp::VideoNote),
        Content::Voice => ForwardPlan::Forward(SendOp::Voice),
        Content::Animation => ForwardPlan::Forward(SendOp::Animation),
        Content::Sticker => ForwardPlan::Forward(SendOp::Sticker),
        Content::Contact => ForwardPlan::Forward(SendOp::Contact),
        Content::Location => ForwardPlan::Forward(SendOp::Location),
        Content::Venue => ForwardPlan::Forward(SendOp::Venue),
        Content::Poll => ForwardPlan::Notify(CommonMessages::PollsNotSupported),
        Content::Game => ForwardPlan::Notify(CommonMessages::GamesNotSupported),
        Content::Other => ForwardPlan::Drop,
    }
}

/// A poll or a game is never forwarded: its plan is a notice to the sender and holds no
/// forwarding operation.
pub proof fn lemma_unsupported_content_notifies(c: Content, r: ForwardPlan)
    requires
        c is Poll || c is Game,
        plan_of(c, r),
    ensures
        r is Notify,
        !(r is Forward),
{
}

/// What follows a successful forward, besides recording the correlation.
#[derive(Clone, Debug)]
pub enum FollowUp {
    /// Send the user this acknowledgment.
    Acknowledge(CommonMessages),
    /// Mark the staff message as delivered with a reaction.
    React,
}

/// What follows a successful forward in direction `typ`.
pub open spec fn follow_up_of(typ: MessageType) -> FollowUp {
    match typ {
        MessageType::Incoming => FollowUp::Acknowledge(CommonMessages::UserReply),
        MessageType::Outgoing => FollowUp::React,
    }
}

/// What follows a successful forward in direction `typ`: a user is thanked, a staff
/// message gets a reaction.
pub fn follow_up(typ: MessageType) -> (r: FollowUp)
    ensures
        r == follow_up_of(typ),
{
    match typ {
        MessageType::Incoming => FollowUp::Acknowledge(CommonMessages::UserReply),
        MessageType::Outgoing => FollowUp::React,
    }
}

/// Records that the message `rx_id` of `user`, with snapshot `rx_msg`, relayed in
/// direction `typ`, was delivered as the message `tx_id`; returns the entry and what
/// follows. A second entry for the same message is refused.
pub fn record_forward(
    db: &mut MemoryDatabase,
    user: &UserEntity,
    typ: MessageType,
    rx_id: i64,
    rx_msg: String,
    tx_id: i64,
) -> (r: Result<(MessageEntity, FollowUp), StorageError>)
    requires
        old(db).wf(),
    ensures
        final(db).wf(),
        final(db).users() == old(db).users(),
        final(db).notes() == old(db).notes(),
        ({
            let entry = InsertMessageEntity { user_id: user.id, type_: type_code(typ), rx_msg_id: rx_id, rx_msg, tx_msg_id: tx_id };
            let row = message_row(entry, old(db).fresh_message_id());
            if exists|i: int| message_is(old(db).messages(), user.id, type_code(typ), rx_id, i) {
                r == Err::<(MessageEntity, FollowUp), StorageError>(StorageError::Conflict)
                    && final(db).messages() == old(db).messages()
            } else if old(db).fresh_message_id() == i32::MAX {
                r == Err::<(MessageEntity, FollowUp), StorageError>(StorageError::Exhausted)
                    && final(db).messages() == old(db).messages()
            } else {
                &&& r == Ok::<(MessageEntity, FollowUp), StorageError>((row, follow_up_of(typ)))
                &&& final(db).messages() == old(db).messages().push(row)
            }
        }),
{
    let entry = match typ {
        MessageType::Incoming => InsertMessageEntity::incoming(user, rx_id, rx_msg, tx_id),
        MessageType::Outgoing => InsertMessageEntity::outgoing(user, rx_id, rx_msg, tx_id),
    };
    match db.insert_message(entry) {
        Ok(e) => Ok((e, follow_up(typ))),
        Err(e) => Err(e),
    }
}

/// Adds the user with external identity `telegram_id`, whose dedicated thread `topic`
/// has just been opened, with its display names and language; the info card is not sent
/// yet. Refused when the identity or the thread is taken already, or no id is left.
pub fn register_user(
    db: &mut MemoryDatabase,
    telegram_id: i64,
    topic: i64,
    first_name: Option<String>,
    last_name: Option<String>,
    lang_code: Option<String>,
) -> (r: Result<UserEntity, StorageError>)
    requires
        old(db).wf(),
    ensures
        final(db).wf(),
        final(db).messages() == old(db).messages(),
        final(db).notes() == old(db).notes(),
        ({
            let row = user_row(
                InsertUserEntity { telegram_id, topic, info_message: None, first_name, last_name, lang_code },
                old(db).fresh_user_id(),
            );
            if exists|i: int| user_has_tg(old(db).users(), telegram_id, i) || user_has_topic(old(db).users(), topic, i) {
                r == Err::<UserEntity, StorageError>(StorageError::Conflict) && final(db).users() == old(db).users()
            } else if old(db).fresh_user_id() == i32::MAX {
                r == Err::<UserEntity, StorageError>(StorageError::Exhausted) && final(db).users() == old(db).users()
            } else {
                r == Ok::<UserEntity, StorageError>(row) && final(db).users() == old(db).users().push(row)
            }
        }),
{
    db.insert_user(InsertUserEntity { telegram_id, topic, info_message: None, first_name, last_name, lang_code })
}

/// A shared location: a point on the map with its live-location settings. Coordinates
/// and accuracy are held as the bit patterns of their IEEE-754 double-precision values.
#[derive(Clone, Copy, Debug, PartialEq, Eq, Structural)]
pub struct GeoPoint {
    pub latitude_bits: u64,
    pub longitude_bits: u64,
    pub horizontal_accuracy_bits: Option<u64>,
    pub live_period: Option<u32>,
    pub heading: Option<u16>,
    pub proximity_alert_radius: Option<u32>,
}

/// The fields of a message that an edit can change.
#[derive(Clone, Debug)]
pub struct Snapshot {
    pub text: Option<String>,
    pub caption: Option<String>,
    /// The caption's formatting entities, each in one canonical text form.
    pub caption_entities: Option<Vec<String>>,
    pub location: Option<GeoPoint>,
}

/// The view of an optional list of texts.
pub open spec fn opt_list_view(o: Option<Vec<String>>) -> Option<Seq<Seq<char>>> {
    match o {
        Some(v) => Some(v@.map_values(|s: String| s@)),
        None => None,
    }
}

/// Which edits of the forwarded copy bring it in line with an edited message.
#[derive(Clone, Copy, Debug, PartialEq, Eq, Structural)]
pub struct EditPlan {
    /// Replace the caption and its entities.
    pub caption: bool,
    /// Replace the text.
    pub text: bool,
    /// Move the location.
    pub location: bool,
}

fn same_text(a: &Option<String>, b: &Option<String>) -> (r: bool)
    ensures
        r == (opt_text(*a) == opt_text(*b)),
{
    match a {
        Some(x) => match b {
            Some(y) => x.eq(y),
            None => false,
        },
        None => b.is_none(),
    }
}

fn same_items(x: &Vec<String>, y: &Vec<String>) -> (r: bool)
    ensures
        r == (x@.map_values(|s: String| s@) == y@.map_values(|s: String| s@)),
{
    let ghost vx = x@.map_values(|s: String| s@);
    let ghost vy = y@.map_values(|s: String| s@);
    if x.len() != y.len() {
        assert(vx.len() != vy.len());
        return false;
    }
    let mut i: usize = 0;
    while i < x.len()
        invariant
            x@.len() == y@.len(),
            i <= x@.len(),
            vx == x@.map_values(|s: String| s@),
            vy == y@.map_values(|s: String| s@),
            forall|k: int| 0 <= k < i ==> vx[k] == vy[k],
        decreases x@.len() - i,
    {
        assert(vx[i as int] == x@[i as int]@ && vy[i as int] == y@[i as int]@);
        if !x[i].eq(&y[i]) {
            return false;
        }
        i = i + 1;
    }
    assert(vx =~= vy);
    true
}

fn same_list(a: &Option<Vec<String>>, b: &Option<Vec<String>>) -> (r: bool)
    ensures
        r == (opt_list_view(*a) == opt_list_view(*b)),
{
    match a {
        Some(x) => match b {
            Some(y) => same_items(x, y),
            None => false,
        },
        None => b.is_none(),
    }
}

/// Which edits an edited message calls for, given the stored original: the caption when
/// it or its entities changed; the text, or the location, when it changed and the edited
/// message still has one.
pub open spec fn edit_plan_of(original: Snapshot, edited: Snapshot) -> EditPlan {
    EditPlan {
        caption: opt_text(original.caption) != opt_text(edited.caption)
            || opt_list_view(original.caption_entities) != opt_list_view(edited.caption_entities),
        text: opt_text(original.text) != opt_text(edited.text) && edited.text is Some,
        location: original.location != edited.location && edited.location is Some,
    }
}

/// Compares an edited message with its stored original, field by field.
pub fn diff_edit(original: &Snapshot, edited: &Snapshot) -> (r: EditPlan)
    ensures
        r == edit_plan_of(*original, *edited),
{
    let caption = !same_text(&original.caption, &edited.caption)
        || !same_list(&original.caption_entities, &edited.caption_entities);
    let text = !same_text(&original.text, &edited.text) && edited.text.is_some();
    let location = original.location != edited.location && edited.location.is_some();
    EditPlan { caption, text, location }
}

/// When only the text of a message was edited, the only edit is of the text: neither
/// the caption nor the location is sent again.
pub proof fn lemma_text_edit_only(original: Snapshot, edited: Snapshot)
    requires
        opt_text(original.text) != opt_text(edited.text),
        edited.text is Some,
        opt_text(original.caption) == opt_text(edited.caption),
        opt_list_view(original.caption_entities) == opt_list_view(edited.caption_entities),
        original.location == edited.location,
    ensures
        edit_plan_of(original, edited) == (EditPlan { caption: false, text: true, location: false }),
{
}

fn append_name(out: &mut String, o: &Option<String>)
    ensures
        final(out)@ == old(out)@ + name_text(*o),
{
    match o {
        Some(s) => out.append(s.as_str()),
        None => {
            assert(old(out)@ + name_text(*o) =~= old(out)@);
        },
    }
}

/// The label of a thread that has just been opened: "#T", then the first and last name.
pub open spec fn thread_label_of(first: Option<String>, last: Option<String>) -> Seq<char> {
    "#T "@ + name_text(first) + " "@ + name_text(last)
}

/// The label of a new dedicated thread.
pub fn thread_label(first_name: &Option<String>, last_name: &Option<String>) -> (r: String)
    ensures
        r@ == thread_label_of(*first_name, *last_name),
{
    let mut out = String::new();
    out.append("#T ");
    append_name(&mut out, first_name);
    out.append(" ");
    append_name(&mut out, last_name);
    assert(out@ =~= thread_label_of(*first_name, *last_name));
    out
}

/// `n` zeros.
pub open spec fn zeros(n: nat) -> Seq<char> {
    Seq::new(n, |i: int| '0')
}

/// The decimal notation of `n` padded with zeros after the sign to at least six
/// characters.
pub open spec fn padded_of(n: int) -> Seq<char> {
    let d = decimal_of(n);
    if d.len() >= 6 {
        d
    } else if n < 0 {
        seq!['-'] + zeros((6 - d.len()) as nat) + d.drop_first()
    } else {
        zeros((6 - d.len()) as nat) + d
    }
}

/// The label of a dedicated thread once its user has an id: "#T", the id padded to six
/// characters, then the first and last name.
pub open spec fn numbered_label_of(id: i32, first: Option<String>, last: Option<String>) -> Seq<char> {
    "#T"@ + padded_of(id as int) + " "@ + name_text(first) + " "@ + name_text(last)
}

/// The label of a dedicated thread, numbered with the id of its user.
pub fn numbered_thread_label(id: i32, first_name: &Option<String>, last_name: &Option<String>) -> (r: String)
    ensures
        r@ == numbered_label_of(id, *first_name, *last_name),
{
    let d = decimal(id as i64);
    let n = d.as_str().unicode_len();
    proof {
        reveal_strlit("-");
    }
    let mut out = String::new();
    out.append("#T");
    if n >= 6 {
        out.append(d.as_str());
    } else {
        let mut rest: &str = d.as_str();
        if id < 0 {
            out.append("-");
            rest = d.as_str().substring_char(1, n);
            assert(rest@ =~= d@.drop_first());
        }
        let ghost prefix = out@;
        let mut k: usize = n;
        assert(zeros(0) =~= Seq::<char>::empty());
        assert(out@ =~= prefix + zeros(0));
        while k < 6
            invariant
                n <= k <= 6,
                out@ == prefix + zeros((k - n) as nat),
            decreases 6 - k,
        {
            out.append("0");
            proof {
                reveal_strlit("0");
            }
            assert(prefix + zeros((k + 1 - n) as nat) =~= prefix + zeros((k - n) as nat) + "0"@);
            k = k + 1;
        }
        out.append(rest);
        assert(padded_of(id as int) =~= if id < 0 {
            seq!['-'] + zeros((6 - n) as nat) + d@.drop_first()
        } else {
            zeros((6 - n) as nat) + d@
        });
        assert(out@ =~= "#T"@ + padded_of(id as int));
    }
    out.append(" ");
    append_name(&mut out, first_name);
    out.append(" ");
    append_name(&mut out, last_name);
    assert(out@ =~= numbered_label_of(id, *first_name, *last_name));
    out
}

} // verus!
