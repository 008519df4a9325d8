//! The three-zone prompt context: an immutable prefix that is fixed for the
//! session, an append-only log of serialised messages, and a scratch area
//! that is never sent upstream until it is distilled into the log.

use vstd::prelude::*;
use crate::json::{json_message, role_content_json};
use crate::text::{eq_str, to_chars};

verus! {

/// Who wrote a message.
#[derive(Debug, Clone, Copy, PartialEq, Eq, Structural)]
pub enum Role {
    System,
    User,
    Assistant,
}

/// The wire name of a role.
pub open spec fn role_name(r: Role) -> Seq<char> {
    match r {
        Role::User => "user"@,
        Role::Assistant => "assistant"@,
        Role::System => "system"@,
    }
}

/// The role a wire name denotes; unknown names fall back to `System`.
pub open spec fn role_of_name(s: Seq<char>) -> Role {
    if s == "user"@ {
        Role::User
    } else if s == "assistant"@ {
        Role::Assistant
    } else {
        Role::System
    }
}

impl Role {
    /// The wire name of this role.
    pub fn as_str(&self) -> (r: &'static str)
        ensures
            r@ == role_name(*self),
    {
        match self {
            Role::User => "user",
            Role::Assistant => "assistant",
            Role::System => "system",
        }
    }
}

/// A message of the conversation.
#[derive(Debug, Clone)]
pub struct Message {
    pub role: Role,
    pub content: String,
}

impl Message {
    /// A message with the given role and text.
    pub fn new(role: Role, content: &str) -> (m: Message)
        ensures
            m.role == role,
            m.content@ == content@,
    {
        Message { role, content: content.to_string() }
    }

    /// A copy of this message with the same role and text.
    pub fn duplicate(&self) -> (m: Message)
        ensures
            m.role == self.role,
            m.content@ == self.content@,
    {
        Message { role: self.role, content: self.content.clone() }
    }
}

/// An API-compatible message whose role is a wire name.
#[derive(Debug, Clone)]
pub struct ApiMessage {
    pub role: String,
    pub content: String,
}

/// The role a wire name denotes, computed.
fn role_from_name(name: &str) -> (r: Role)
    ensures
        r == role_of_name(name@),
{
    let v = to_chars(name);
    if eq_str(v.as_slice(), "user") {
        Role::User
    } else if eq_str(v.as_slice(), "assistant") {
        Role::Assistant
    } else {
        Role::System
    }
}

impl From<ApiMessage> for Message {
    fn from(msg: ApiMessage) -> (m: Message) {
        let role = role_from_name(msg.role.as_str());
        Message { role, content: msg.content }
    }
}

impl vstd::std_specs::convert::FromSpecImpl<ApiMessage> for Message {
    open spec fn obeys_from_spec() -> bool {
        true
    }

    open spec fn from_spec(v: ApiMessage) -> Message {
        Message { role: role_of_name(v.role@), content: v.content }
    }
}

impl ApiMessage {
    /// The API form of a message: its role by wire name, the same text.
    pub fn from_message(msg: Message) -> (m: ApiMessage)
        ensures
            m.role@ == role_name(msg.role),
            m.content == msg.content,
    {
        ApiMessage { role: msg.role.as_str().to_string(), content: msg.content }
    }
}

impl From<Message> for ApiMessage {
    /// Same as `ApiMessage::from_message`, whose contract states the result.
    fn from(msg: Message) -> (m: ApiMessage) {
        ApiMessage::from_message(msg)
    }
}

impl vstd::std_specs::convert::FromSpecImpl<Message> for ApiMessage {
    /// A `String` cannot be written down in a spec, so this conversion's
    /// result is stated by `ApiMessage::from_message` instead.
    open spec fn obeys_from_spec() -> bool {
        false
    }

    open spec fn from_spec(v: Message) -> ApiMessage {
        vstd::pervasive::arbitrary()
    }
}

/// The bytes a message occupies in the log: a comma, then its JSON object.
pub open spec fn serialized_message(m: Message) -> Seq<u8> {
    seq![44u8] + json_message(role_name(m.role), m.content@)
}

/// The bytes a run of messages occupies in the log, in order.
pub open spec fn serialized_messages(ms: Seq<Message>) -> Seq<u8>
    decreases ms.len(),
{
    if ms.len() == 0 {
        Seq::empty()
    } else {
        serialized_messages(ms.drop_last()) + serialized_message(ms.last())
    }
}

/// The immutable prefix a system prompt yields.
pub open spec fn system_prefix(prompt: Seq<char>) -> Seq<u8> {
    json_message("system"@, prompt)
}

/// The messages as role and text.
pub open spec fn msg_views(ms: Seq<Message>) -> Seq<(Role, Seq<char>)> {
    ms.map_values(|m: Message| (m.role, m.content@))
}

/// Three-zone context: immutable prefix, append-only log, volatile scratch.
#[derive(Debug, Clone)]
pub struct Context {
    immutable_prefix: Vec<u8>,
    append_only_log: Vec<u8>,
    logged: Vec<Message>,
    scratch: Vec<Message>,
    system_prompt: String,
}

impl Context {
    /// The immutable prefix bytes.
    pub closed spec fn prefix(&self) -> Seq<u8> {
        self.immutable_prefix@
    }

    /// The append-only log bytes.
    pub closed spec fn log(&self) -> Seq<u8> {
        self.append_only_log@
    }

    /// The messages in the log, oldest first.
    pub closed spec fn logged(&self) -> Seq<Message> {
        self.logged@
    }

    /// The messages in scratch, oldest first.
    pub closed spec fn scratch(&self) -> Seq<Message> {
        self.scratch@
    }

    /// The system prompt text the context was made with.
    pub closed spec fn prompt(&self) -> Seq<char> {
        self.system_prompt@
    }

    /// A context whose prefix is the serialised system prompt, with an empty
    /// log and an empty scratch.
    pub fn new(system_prompt: &str) -> (c: Context)
        ensures
            c.prefix() == system_prefix(system_prompt@),
            c.prefix().len() > 0,
            c.log() == Seq::<u8>::empty(),
            c.logged() == Seq::<Message>::empty(),
            c.scratch() == Seq::<Message>::empty(),
            c.prompt() == system_prompt@,
    {
        let prefix = Self::serialize_system(system_prompt);
        Context {
            immutable_prefix: prefix,
            append_only_log: Vec::new(),
            logged: Vec::new(),
            scratch: Vec::new(),
            system_prompt: system_prompt.to_string(),
        }
    }

    /// Appends `extra` to the immutable prefix (before any message is logged).
    pub fn extend_prefix(&mut self, extra: &[u8])
        ensures
            final(self).prefix() == old(self).prefix() + extra@,
            final(self).log() == old(self).log(),
            final(self).logged() == old(self).logged(),
            final(self).scratch() == old(self).scratch(),
            final(self).prompt() == old(self).prompt(),
    {
        let mut i: usize = 0;
        let ghost before = self.immutable_prefix@;
        while i < extra.len()
            invariant
                i <= extra@.len(),
                self.immutable_prefix@ == before + extra@.take(i as int),
                self.append_only_log@ == old(self).log(),
                self.logged@ == old(self).logged(),
                self.scratch@ == old(self).scratch(),
                self.system_prompt@ == old(self).prompt(),
            decreases extra@.len() - i,
        {
            self.immutable_prefix.push(extra[i]);
            i = i + 1;
            assert(self.immutable_prefix@ =~= before + extra@.take(i as int));
        }
        assert(extra@.take(extra@.len() as int) =~= extra@);
    }

    /// Appends one serialised message to the log; nothing is rewritten.
    pub fn push_to_log(&mut self, msg: Message)
        ensures
            final(self).log() == old(self).log() + serialized_message(msg),
            final(self).logged() == old(self).logged().push(msg),
            final(self).prefix() == old(self).prefix(),
            final(self).scratch() == old(self).scratch(),
            final(self).prompt() == old(self).prompt(),
    {
        let bytes = Self::serialize_message(&msg);
        let mut i: usize = 0;
        let ghost before = self.append_only_log@;
        while i < bytes.len()
            invariant
                i <= bytes@.len(),
                self.append_only_log@ == before + bytes@.take(i as int),
                self.logged@ == old(self).logged(),
                self.immutable_prefix@ == old(self).prefix(),
                self.scratch@ == old(self).scratch(),
                self.system_prompt@ == old(self).prompt(),
            decreases bytes@.len() - i,
        {
            self.append_only_log.push(bytes[i]);
            i = i + 1;
            assert(self.append_only_log@ =~= before + bytes@.take(i as int));
        }
        assert(bytes@.take(bytes@.len() as int) =~= bytes@);
        self.logged.push(msg);
    }

    /// Adds a message to scratch.
    pub fn push_to_scratch(&mut self, msg: Message)
        ensures
            final(self).scratch() == old(self).scratch().push(msg),
            final(self).prefix() == old(self).prefix(),
            final(self).log() == old(self).log(),
            final(self).logged() == old(self).logged(),
            final(self).prompt() == old(self).prompt(),
    {
        self.scratch.push(msg);
    }

    /// Empties scratch.
    pub fn clear_scratch(&mut self)
        ensures
            final(self).scratch() == Seq::<Message>::empty(),
            final(self).prefix() == old(self).prefix(),
            final(self).log() == old(self).log(),
            final(self).logged() == old(self).logged(),
            final(self).prompt() == old(self).prompt(),
    {
        self.scratch.clear();
    }

    /// Moves every scratch message, in order, to the end of the log.
    pub fn distill_scratch_to_log(&mut self)
        ensures
            final(self).log() == old(self).log() + serialized_messages(old(self).scratch()),
            msg_views(final(self).logged()) == msg_views(old(self).logged() + old(self).scratch()),
            final(self).scratch() == Seq::<Message>::empty(),
            final(self).prefix() == old(self).prefix(),
            final(self).prompt() == old(self).prompt(),
    {
        let mut msgs: Vec<Message> = Vec::new();
        std::mem::swap(&mut msgs, &mut self.scratch);
        let ghost all = msgs@;
        let mut i: usize = 0;
        while i < msgs.len()
            invariant
                i <= msgs@.len(),
                msgs@ == all,
                self.append_only_log@ == old(self).log() + serialized_messages(all.take(i as int)),
                msg_views(self.logged@) == msg_views(old(self).logged() + all.take(i as int)),
                self.scratch@ == Seq::<Message>::empty(),
                self.immutable_prefix@ == old(self).prefix(),
                self.system_prompt@ == old(self).prompt(),
            decreases msgs@.len() - i,
        {
            let m = msgs[i].duplicate();
            proof {
                assert(all.take(i + 1).drop_last() =~= all.take(i as int));
            }
            self.push_to_log(m);
            proof {
                assert(serialized_message(m) == serialized_message(all[i as int]));
                assert(msg_views(old(self).logged() + all.take(i + 1))
                    =~= msg_views(old(self).logged() + all.take(i as int)).push((m.role, m.content@)));
                assert(msg_views(self.logged@) =~= msg_views(old(self).logged() + all.take(i as int)).push((m.role, m.content@)));
            }
            i = i + 1;
        }
        assert(all.take(all.len() as int) =~= all);
    }

    /// The request body: the prefix followed by the log (scratch excluded).
    pub fn build_request_body(&self) -> (body: Vec<u8>)
        ensures
            body@ == self.prefix() + self.log(),
    {
        let mut body: Vec<u8> = Vec::new();
        let mut i: usize = 0;
        while i < self.immutable_prefix.len()
            invariant
                i <= self.immutable_prefix@.len(),
                body@ == self.immutable_prefix@.take(i as int),
            decreases self.immutable_prefix@.len() - i,
        {
            body.push(self.immutable_prefix[i]);
            i = i + 1;
            assert(body@ =~= self.immutable_prefix@.take(i as int));
        }
        assert(self.immutable_prefix@.take(self.immutable_prefix@.len() as int) =~= self.immutable_prefix@);
        let mut j: usize = 0;
        while j < self.append_only_log.len()
            invariant
                j <= self.append_only_log@.len(),
                body@ == self.immutable_prefix@ + self.append_only_log@.take(j as int),
            decreases self.append_only_log@.len() - j,
        {
            body.push(self.append_only_log[j]);
            j = j + 1;
            assert(body@ =~= self.immutable_prefix@ + self.append_only_log@.take(j as int));
        }
        assert(self.append_only_log@.take(self.append_only_log@.len() as int) =~= self.append_only_log@);
        body
    }

    /// Byte length of the prefix.
    pub fn prefix_len(&self) -> (n: usize)
        ensures
            n == self.prefix().len(),
    {
        self.immutable_prefix.len()
    }

    /// Byte length of the log.
    pub fn log_len(&self) -> (n: usize)
        ensures
            n == self.log().len(),
    {
        self.append_only_log.len()
    }

    /// Number of scratch messages.
    pub fn scratch_count(&self) -> (n: usize)
        ensures
            n == self.scratch().len(),
    {
        self.scratch.len()
    }

    /// Every message of the context, in order: the system prompt, the
    /// logged messages, then the scratch messages.
    pub fn all_messages(&self) -> (r: Vec<Message>)
        ensures
            r@.len() == self.logged().len() + self.scratch().len() + 1,
            r@[0].role == Role::System,
            r@[0].content@ == self.prompt(),
            forall|i: int| 0 <= i < self.logged().len() ==> {
                &&& (#[trigger] r@[i + 1]).role == self.logged()[i].role
                &&& r@[i + 1].content@ == self.logged()[i].content@
            },
            forall|i: int| 0 <= i < self.scratch().len() ==> {
                &&& (#[trigger] r@[i + 1 + self.logged().len()]).role == self.scratch()[i].role
                &&& r@[i + 1 + self.logged().len()].content@ == self.scratch()[i].content@
            },
    {
        let mut msgs: Vec<Message> = Vec::new();
        msgs.push(Message { role: Role::System, content: self.system_prompt.clone() });
        let mut j: usize = 0;
        while j < self.logged.len()
            invariant
                j <= self.logged@.len(),
                msgs@.len() == j + 1,
                msgs@[0].role == Role::System,
                msgs@[0].content@ == self.system_prompt@,
                forall|k: int| 0 <= k < j ==> {
                    &&& (#[trigger] msgs@[k + 1]).role == self.logged@[k].role
                    &&& msgs@[k + 1].content@ == self.logged@[k].content@
                },
            decreases self.logged@.len() - j,
        {
            msgs.push(self.logged[j].duplicate());
            j = j + 1;
        }
        let n = self.logged.len();
        let mut i: usize = 0;
        while i < self.scratch.len()
            invariant
                i <= self.scratch@.len(),
                n == self.logged@.len(),
                msgs@.len() == n + i + 1,
                msgs@[0].role == Role::System,
                msgs@[0].content@ == self.system_prompt@,
                forall|k: int| 0 <= k < n ==> {
                    &&& (#[trigger] msgs@[k + 1]).role == self.logged@[k].role
                    &&& msgs@[k + 1].content@ == self.logged@[k].content@
                },
                forall|k: int| 0 <= k < i ==> {
                    &&& (#[trigger] msgs@[k + 1 + n]).role == self.scratch@[k].role
                    &&& msgs@[k + 1 + n].content@ == self.scratch@[k].content@
                },
            decreases self.scratch@.len() - i,
        {
            msgs.push(self.scratch[i].duplicate());
            i = i + 1;
        }
        msgs
    }

    /// The prefix bytes of a system prompt.
    fn serialize_system(content: &str) -> (r: Vec<u8>)
        ensures
            r@ == system_prefix(content@),
            r@.len() > 0,
    {
        role_content_json("system", content)
    }

    /// The log bytes of one message.
    pub fn serialize_message(msg: &Message) -> (r: Vec<u8>)
        ensures
            r@ == serialized_message(*msg),
    {
        let json = role_content_json(msg.role.as_str(), msg.content.as_str());
        let mut bytes: Vec<u8> = Vec::new();
        bytes.push(44u8);
        let mut i: usize = 0;
        while i < json.len()
            invariant
                i <= json@.len(),
                bytes@ == seq![44u8] + json@.take(i as int),
            decreases json@.len() - i,
        {
            bytes.push(json[i]);
            i = i + 1;
            assert(bytes@ =~= seq![44u8] + json@.take(i as int));
        }
        assert(json@.take(json@.len() as int) =~= json@);
        bytes
    }
}

/// Invariant 1 of the context: logging and scratch work never touch the
/// prefix, so the request body of a context always starts with the prefix it
/// was created with, and the log only ever grows at its end.
pub proof fn lemma_log_growth_keeps_body_prefix(before: Context, after: Context, added: Seq<u8>)
    requires
        after.prefix() == before.prefix(),
        after.log() == before.log() + added,
    ensures
        has_byte_prefix(after.prefix() + after.log(), before.prefix() + before.log()),
        (after.prefix() + after.log()).len() == (before.prefix() + before.log()).len() + added.len(),
{
    assert((after.prefix() + after.log()).take((before.prefix() + before.log()).len() as int)
        =~= before.prefix() + before.log());
}

/// `p` is a prefix of `s`.
pub open spec fn has_byte_prefix(s: Seq<u8>, p: Seq<u8>) -> bool {
    p.len() <= s.len() && s.take(p.len() as int) == p
}

} // verus!
