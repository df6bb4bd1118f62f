//! Messages: immutable, content-addressed, parent-linked records.

use crate::codec::{encode_message_record, message_record, opt_str_view};
use crate::digest::{content_id, id_of};
use vstd::prelude::*;

verus! {

/// Who produced a message. The store only ever holds these two roles.
#[derive(Clone, Copy, Debug, PartialEq, Eq, Structural)]
pub enum Role {
    User,
    Assistant,
}

/// The text under which a role is serialized.
pub open spec fn role_chars(r: Role) -> Seq<char> {
    match r {
        Role::User => "user"@,
        Role::Assistant => "assistant"@,
    }
}

/// Returns the serialized form of a role.
pub fn role_str(r: Role) -> (s: &'static str)
    ensures
        s@ == role_chars(r),
{
    match r {
        Role::User => "user",
        Role::Assistant => "assistant",
    }
}

/// A chat message. `parent` names the message this one answers; `None` marks
/// a chain root. `id` is the content address: the hex SHA-1 digest of the
/// canonical serialization of the other fields (with an empty `id` slot), so
/// identical `(role, content, parent)` triples always carry identical ids.
pub struct Message {
    pub role: Role,
    pub content: String,
    pub parent: Option<String>,
    pub id: String,
}

/// The mathematical value of a [`Message`].
pub struct MessageView {
    pub role: Role,
    pub content: Seq<char>,
    pub parent: Option<Seq<char>>,
    pub id: Seq<char>,
}

impl View for Message {
    type V = MessageView;

    open spec fn view(&self) -> MessageView {
        MessageView {
            role: self.role,
            content: self.content@,
            parent: opt_str_view(self.parent),
            id: self.id@,
        }
    }
}

/// The content address of a message with the given fields: the hex SHA-1
/// digest of its canonical serialization, the `id` field left empty.
pub open spec fn message_id(role: Role, content: Seq<char>, parent: Option<Seq<char>>) -> Seq<
    char,
> {
    id_of(message_record(role_chars(role), content, parent, Seq::empty()))
}

/// A message is addressed when its id is the content address of its fields.
/// Every message built by [`Message::new`] is; the store holds no others.
pub open spec fn addressed(m: MessageView) -> bool {
    m.id == message_id(m.role, m.content, m.parent)
}

impl Message {
    /// Constructs a message, deriving its id from `role`, `content` and
    /// `parent` alone. The derivation is deterministic: two calls with equal
    /// arguments yield equal ids.
    pub fn new(role: Role, content: String, parent: Option<String>) -> (m: Message)
        ensures
            m@.role == role,
            m@.content == content@,
            m@.parent == opt_str_view(parent),
            m@.id == message_id(role, content@, opt_str_view(parent)),
            addressed(m@),
    {
        let payload = encode_message_record(role_str(role), content.as_str(), &parent, "");
        let id = content_id(&payload);
        proof {
            reveal_strlit("");
            assert(""@ =~= Seq::<char>::empty());
        }
        Message { role, content, parent, id }
    }
}

/// Reports whether a message's id is the content address of its fields —
/// the check a loader applies to stored records before trusting them.
pub fn is_addressed(m: &Message) -> (r: bool)
    ensures
        r == addressed(m@),
{
    let payload = encode_message_record(role_str(m.role), m.content.as_str(), &m.parent, "");
    let id = content_id(&payload);
    proof {
        reveal_strlit("");
        assert(""@ =~= Seq::<char>::empty());
    }
    crate::store::str_eq(id.as_str(), m.id.as_str())
}

/// The canonical payload separates messages: field triples that differ in
/// role, content or parent serialize to different payloads. An id collision
/// between messages with different fields could therefore only be a
/// collision of the digest itself, never an artifact of the serialization.
pub proof fn lemma_payload_separates(
    role1: Role,
    c1: Seq<char>,
    p1: Option<Seq<char>>,
    role2: Role,
    c2: Seq<char>,
    p2: Option<Seq<char>>,
)
    requires
        !(role1 == role2 && c1 == c2 && p1 == p2),
    ensures
        message_record(role_chars(role1), c1, p1, Seq::empty()) != message_record(
            role_chars(role2),
            c2,
            p2,
            Seq::empty(),
        ),
{
    if message_record(role_chars(role1), c1, p1, Seq::empty()) == message_record(
        role_chars(role2),
        c2,
        p2,
        Seq::empty(),
    ) {
        crate::codec::lemma_record_injective(
            role_chars(role1),
            c1,
            p1,
            Seq::empty(),
            role_chars(role2),
            c2,
            p2,
            Seq::empty(),
        );
        if role1 != role2 {
            reveal_strlit("user");
            reveal_strlit("assistant");
            assert(role_chars(Role::User).len() == 4);
            assert(role_chars(Role::Assistant).len() == 9);
        }
        assert(false);
    }
}

/// Content addressing is deterministic: two addressed messages whose role,
/// content and parent agree carry the same id, on every run. (That distinct
/// fields yield distinct ids is a property of the digest, assumed, not
/// proved.)
pub proof fn lemma_id_deterministic(m1: MessageView, m2: MessageView)
    requires
        addressed(m1),
        addressed(m2),
        m1.role == m2.role,
        m1.content == m2.content,
        m1.parent == m2.parent,
    ensures
        m1.id == m2.id,
{
}

impl Clone for Message {
    /// A clone carries the same fields, id included.
    fn clone(&self) -> (r: Self)
        ensures
            r == *self,
    {
        let parent = match &self.parent {
            Some(p) => Some(p.clone()),
            None => None,
        };
        Message { role: self.role, content: self.content.clone(), parent, id: self.id.clone() }
    }
}

} // verus!
