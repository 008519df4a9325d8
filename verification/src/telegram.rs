//! Telegram: the data of the Bot API, and what the channel computes on it:
//! which chats and group messages it answers, the text it passes on, and
//! MarkdownV2 escaping with code left readable.

use vstd::prelude::*;
use vstd::string::{StringExecFns, StrSliceExecFns, StringSliceAdditionalSpecFns};
use crate::channel::{split_by_bytes, split_spec, views_of};
use crate::text::{
    eq_str, from_chars, has_prefix, lowercase, push_str, slice_to_vec, starts_with, to_chars, to_lowercase, trim,
    trim_spec,
};

verus! {

/// An update of `getUpdates`.
#[derive(Debug, Clone)]
pub struct TgUpdate {
    /// Update id.
    pub update_id: i64,
    /// The message, if the update carries one.
    pub message: Option<TgMessage>,
}

/// A message.
#[derive(Debug, Clone)]
pub struct TgMessage {
    /// Message id.
    pub message_id: i64,
    /// Its chat.
    pub chat: TgChat,
    /// Its text.
    pub text: Option<String>,
    /// Its sender.
    pub from: Option<TgUser>,
}

/// A chat.
#[derive(Debug, Clone)]
pub struct TgChat {
    /// Chat id.
    pub id: i64,
    /// `private`, `group`, `supergroup` or `channel`.
    pub chat_type: String,
}

/// A user.
#[derive(Debug, Clone)]
pub struct TgUser {
    /// User id.
    pub id: i64,
    /// First name.
    pub first_name: String,
    /// User name.
    pub username: Option<String>,
}

/// The bot itself (`getMe`).
#[derive(Debug, Clone)]
pub struct TgBotInfo {
    /// Bot id.
    pub id: i64,
    /// First name.
    pub first_name: String,
    /// User name.
    pub username: String,
}

/// A chat may talk to the bot: every chat when no list is given, else the
/// listed ones.
pub open spec fn allowed_spec(allowed: Seq<String>, chat_id: Seq<char>) -> bool {
    allowed.len() == 0 || exists|i: int| 0 <= i < allowed.len() && (#[trigger] allowed[i])@ == chat_id
}

/// Whether chat `chat_id` may talk to the bot.
pub fn is_allowed(allowed: &Vec<String>, chat_id: &str) -> (r: bool)
    ensures
        r == allowed_spec(allowed@, chat_id@),
{
    if allowed.len() == 0 {
        return true;
    }
    let mut i: usize = 0;
    while i < allowed.len()
        invariant
            i <= allowed@.len(),
            forall|j: int| 0 <= j < i ==> (#[trigger] allowed@[j])@ != chat_id@,
        decreases allowed@.len() - i,
    {
        let a = to_chars(allowed[i].as_str());
        if eq_str(a.as_slice(), chat_id) {
            return true;
        }
        i = i + 1;
    }
    false
}

/// How a sender is shown: its first name and user name, or `unknown`.
pub open spec fn sender_spec(from: Option<TgUser>) -> Seq<char> {
    match from {
        Some(u) => match u.username {
            Some(n) => u.first_name@ + " (@"@ + n@ + ")"@,
            None => u.first_name@,
        },
        None => "unknown"@,
    }
}

/// How the sender of `msg` is shown.
pub fn format_sender(msg: &TgMessage) -> (r: String)
    ensures
        r@ == sender_spec(msg.from),
{
    match &msg.from {
        Some(u) => match &u.username {
            Some(n) => {
                let mut v = to_chars(u.first_name.as_str());
                push_str(&mut v, " (@");
                push_str(&mut v, n.as_str());
                push_str(&mut v, ")");
                from_chars(v.as_slice())
            },
            None => u.first_name.clone(),
        },
        None => "unknown".to_string(),
    }
}

/// The bot answers a message in a private chat, and in a group one that
/// starts with a mention of it (any case).
pub open spec fn handles_spec(chat_type: Seq<char>, text: Option<Seq<char>>, bot: Seq<char>) -> bool {
    chat_type == "private"@ || has_prefix(
        lowercase(match text { Some(t) => t, None => Seq::empty() }),
        lowercase("@"@ + bot),
    )
}

/// Whether the bot answers `msg`.
pub fn should_handle_group(msg: &TgMessage, bot_username: &str) -> (r: bool)
    ensures
        r == handles_spec(msg.chat.chat_type@, match msg.text { Some(t) => Some(t@), None => None }, bot_username@),
{
    let ct = to_chars(msg.chat.chat_type.as_str());
    if eq_str(ct.as_slice(), "private") {
        return true;
    }
    let text: String = match &msg.text {
        Some(t) => t.clone(),
        None => String::new(),
    };
    let mut m = to_chars("@");
    push_str(&mut m, bot_username);
    let ms = from_chars(m.as_slice());
    let lt = to_lowercase(text.as_str());
    let lm = to_lowercase(ms.as_str());
    let ltc = to_chars(lt.as_str());
    let lmc = to_chars(lm.as_str());
    starts_with(ltc.as_slice(), lmc.as_slice())
}

/// A group message without the mention of the bot it starts with (as
/// written, or in lower case), trimmed; other text as it is.
pub open spec fn clean_spec(text: Seq<char>, bot: Seq<char>) -> Seq<char> {
    let m = "@"@ + bot;
    if has_prefix(text, m) {
        trim_spec(text.skip(m.len() as int))
    } else if has_prefix(text, lowercase(m)) {
        trim_spec(text.skip(lowercase(m).len() as int))
    } else {
        text
    }
}

/// A group message without its leading mention of the bot.
pub fn clean_group_text(text: &str, bot_username: &str) -> (r: String)
    ensures
        r@ == clean_spec(text@, bot_username@),
{
    let t = to_chars(text);
    let mut m = to_chars("@");
    push_str(&mut m, bot_username);
    if starts_with(t.as_slice(), m.as_slice()) {
        let rest = slice_to_vec(t.as_slice(), m.len(), t.len());
        assert(rest@ =~= t@.skip(m@.len() as int));
        let c = trim(rest.as_slice());
        return from_chars(c.as_slice());
    }
    let ms = from_chars(m.as_slice());
    let lm = to_lowercase(ms.as_str());
    let lmc = to_chars(lm.as_str());
    if starts_with(t.as_slice(), lmc.as_slice()) {
        let rest = slice_to_vec(t.as_slice(), lmc.len(), t.len());
        assert(rest@ =~= t@.skip(lmc@.len() as int));
        let c = trim(rest.as_slice());
        return from_chars(c.as_slice());
    }
    text.to_string()
}

// ---------------------------------------------------------------------------
// MarkdownV2
// ---------------------------------------------------------------------------

/// The characters MarkdownV2 reserves.
pub open spec fn md_special(c: char) -> bool {
    c == '_' || c == '*' || c == '[' || c == ']' || c == '(' || c == ')' || c == '~' || c == '`' || c == '>'
        || c == '#' || c == '+' || c == '-' || c == '=' || c == '|' || c == '{' || c == '}' || c == '.' || c == '!'
}

/// `s` with a backslash before each reserved character.
pub open spec fn escape_spec(s: Seq<char>) -> Seq<char>
    decreases s.len(),
{
    if s.len() == 0 {
        Seq::empty()
    } else {
        escape_spec(s.drop_last()) + if md_special(s.last()) { seq!['\\', s.last()] } else { seq![s.last()] }
    }
}

/// `s` with a backslash before each reserved character.
pub fn escape_markdown_v2(text: &str) -> (r: String)
    ensures
        r@ == escape_spec(text@),
{
    let t = to_chars(text);
    let mut out: Vec<char> = Vec::new();
    let mut i: usize = 0;
    while i < t.len()
        invariant
            i <= t@.len(),
            out@ == escape_spec(t@.take(i as int)),
        decreases t@.len() - i,
    {
        assert(t@.take(i + 1).drop_last() =~= t@.take(i as int));
        let ch = t[i];
        if ch == '_' || ch == '*' || ch == '[' || ch == ']' || ch == '(' || ch == ')' || ch == '~' || ch == '`'
            || ch == '>' || ch == '#' || ch == '+' || ch == '-' || ch == '=' || ch == '|' || ch == '{' || ch == '}'
            || ch == '.' || ch == '!' {
            out.push('\\');
        }
        out.push(ch);
        assert(out@ =~= escape_spec(t@.take(i + 1)));
        i = i + 1;
    }
    assert(t@.take(t@.len() as int) =~= t@);
    from_chars(out.as_slice())
}

/// The escaped text `s` with code blocks made readable again: an escaped
/// fence `\``` becomes one backtick and opens or closes a block, and inside
/// a block each backslash is dropped before the character it escapes.
pub open spec fn restore_blocks(s: Seq<char>, in_block: bool) -> Seq<char>
    decreases s.len(),
{
    if s.len() == 0 {
        Seq::empty()
    } else if s[0] == '\\' && s.len() >= 4 && s[1] == '`' && s[2] == '`' && s[3] == '`' {
        seq!['`'] + restore_blocks(s.skip(4), !in_block)
    } else if in_block && s[0] == '\\' {
        if s.len() >= 2 { seq![s[1]] + restore_blocks(s.skip(2), in_block) } else { Seq::empty() }
    } else {
        seq![s[0]] + restore_blocks(s.skip(1), in_block)
    }
}

/// The text `s` with inline code made readable: an escaped backtick keeps
/// its backslash and opens code outside code, and loses it inside; plain
/// backticks open and close code.
pub open spec fn unescape_inline(s: Seq<char>, in_code: bool) -> Seq<char>
    decreases s.len(),
{
    if s.len() == 0 {
        Seq::empty()
    } else if s[0] == '\\' && s.len() >= 2 && s[1] == '`' {
        if in_code {
            seq!['`'] + unescape_inline(s.skip(2), in_code)
        } else {
            seq!['\\', '`'] + unescape_inline(s.skip(2), true)
        }
    } else if s[0] == '`' {
        seq!['`'] + unescape_inline(s.skip(1), !in_code)
    } else {
        seq![s[0]] + unescape_inline(s.skip(1), in_code)
    }
}

/// The MarkdownV2 text for `s`: escaped, with code blocks and inline code
/// made readable again.
pub open spec fn markdown_v2_spec(s: Seq<char>) -> Seq<char> {
    unescape_inline(restore_blocks(escape_spec(s), false), false)
}

/// The escaped text with code blocks made readable again.
fn restore_code_blocks(s: &[char]) -> (r: Vec<char>)
    ensures
        r@ == restore_blocks(s@, false),
{
    let mut out: Vec<char> = Vec::new();
    let mut i: usize = 0;
    let mut in_block = false;
    assert(s@.skip(0) =~= s@);
    assert(out@ + restore_blocks(s@, false) =~= restore_blocks(s@, false));
    while i < s.len()
        invariant
            i <= s@.len(),
            out@ + restore_blocks(s@.skip(i as int), in_block) == restore_blocks(s@, false),
        decreases s@.len() - i,
    {
        let ghost rest = s@.skip(i as int);
        let ghost before = out@;
        let ch = s[i];
        if ch == '\\' && s.len() - i > 3 && s[i + 1] == '`' && s[i + 2] == '`' && s[i + 3] == '`' {
            out.push('`');
            assert(rest.skip(4) =~= s@.skip(i + 4));
            assert(out@ + restore_blocks(s@.skip(i + 4), !in_block) =~= before + restore_blocks(rest, in_block));
            in_block = !in_block;
            i = i + 4;
        } else if in_block && ch == '\\' {
            if s.len() - i > 1 {
                out.push(s[i + 1]);
                assert(rest.skip(2) =~= s@.skip(i + 2));
                assert(out@ + restore_blocks(s@.skip(i + 2), in_block) =~= before + restore_blocks(rest, in_block));
                i = i + 2;
            } else {
                assert(restore_blocks(rest, in_block) =~= Seq::<char>::empty());
                assert(s@.skip(s@.len() as int) =~= Seq::<char>::empty());
                assert(out@ + restore_blocks(s@.skip(s@.len() as int), in_block) =~= before + restore_blocks(rest, in_block));
                i = s.len();
            }
        } else {
            out.push(ch);
            assert(rest.skip(1) =~= s@.skip(i + 1));
            assert(out@ + restore_blocks(s@.skip(i + 1), in_block) =~= before + restore_blocks(rest, in_block));
            i = i + 1;
        }
    }
    assert(out@ + restore_blocks(s@.skip(i as int), in_block) =~= out@);
    out
}

/// The text with inline code made readable again.
pub fn unescape_inline_code(text: &str) -> (r: String)
    ensures
        r@ == unescape_inline(text@, false),
{
    let s = to_chars(text);
    let mut out: Vec<char> = Vec::new();
    let mut i: usize = 0;
    let mut in_code = false;
    assert(s@.skip(0) =~= s@);
    assert(out@ + unescape_inline(s@, false) =~= unescape_inline(s@, false));
    while i < s.len()
        invariant
            i <= s@.len(),
            s@ == text@,
            out@ + unescape_inline(s@.skip(i as int), in_code) == unescape_inline(s@, false),
        decreases s@.len() - i,
    {
        let ghost rest = s@.skip(i as int);
        let ghost before = out@;
        let ch = s[i];
        if ch == '\\' && s.len() - i > 1 && s[i + 1] == '`' {
            if in_code {
                out.push('`');
            } else {
                out.push('\\');
                out.push('`');
            }
            assert(rest.skip(2) =~= s@.skip(i + 2));
            let next = true;
            assert(out@ + unescape_inline(s@.skip(i + 2), if in_code { in_code } else { next })
                =~= before + unescape_inline(rest, in_code));
            in_code = true;
            i = i + 2;
        } else if ch == '`' {
            out.push('`');
            assert(rest.skip(1) =~= s@.skip(i + 1));
            assert(out@ + unescape_inline(s@.skip(i + 1), !in_code) =~= before + unescape_inline(rest, in_code));
            in_code = !in_code;
            i = i + 1;
        } else {
            out.push(ch);
            assert(rest.skip(1) =~= s@.skip(i + 1));
            assert(out@ + unescape_inline(s@.skip(i + 1), in_code) =~= before + unescape_inline(rest, in_code));
            i = i + 1;
        }
    }
    assert(out@ + unescape_inline(s@.skip(i as int), in_code) =~= out@);
    from_chars(out.as_slice())
}

/// The MarkdownV2 text for `text`: reserved characters escaped, with code
/// blocks and inline code made readable again.
pub fn to_markdown_v2(text: &str) -> (r: String)
    ensures
        r@ == markdown_v2_spec(text@),
{
    let e = escape_markdown_v2(text);
    let ec = to_chars(e.as_str());
    let b = restore_code_blocks(ec.as_slice());
    let bs = from_chars(b.as_slice());
    unescape_inline_code(bs.as_str())
}

/// Text without reserved characters goes out unchanged.
pub proof fn lemma_markdown_plain(s: Seq<char>)
    requires
        forall|i: int| 0 <= i < s.len() ==> !md_special(#[trigger] s[i]) && s[i] != '\\',
    ensures
        markdown_v2_spec(s) == s,
{
    lemma_escape_plain(s);
    lemma_restore_plain(s, false);
    lemma_unescape_plain(s, false);
}

/// Escaping leaves text without reserved characters unchanged.
proof fn lemma_escape_plain(s: Seq<char>)
    requires
        forall|i: int| 0 <= i < s.len() ==> !md_special(#[trigger] s[i]),
    ensures
        escape_spec(s) == s,
    decreases s.len(),
{
    if s.len() > 0 {
        assert forall|i: int| 0 <= i < s.drop_last().len() implies !md_special(#[trigger] s.drop_last()[i]) by {
            assert(s.drop_last()[i] == s[i]);
        }
        lemma_escape_plain(s.drop_last());
        assert(!md_special(s[s.len() - 1]));
        assert(s.drop_last() + seq![s.last()] =~= s);
    }
}

/// Restoring blocks leaves text without backslashes unchanged.
proof fn lemma_restore_plain(s: Seq<char>, b: bool)
    requires
        forall|i: int| 0 <= i < s.len() ==> (#[trigger] s[i]) != '\\',
    ensures
        restore_blocks(s, b) == s,
    decreases s.len(),
{
    if s.len() > 0 {
        assert forall|i: int| 0 <= i < s.skip(1).len() implies (#[trigger] s.skip(1)[i]) != '\\' by {
            assert(s.skip(1)[i] == s[i + 1]);
        }
        lemma_restore_plain(s.skip(1), b);
        assert(s[0] != '\\');
        assert(seq![s[0]] + s.skip(1) =~= s);
    }
}

/// Unescaping inline code leaves text without backticks unchanged.
proof fn lemma_unescape_plain(s: Seq<char>, b: bool)
    requires
        forall|i: int| 0 <= i < s.len() ==> (#[trigger] s[i]) != '`' && s[i] != '\\',
    ensures
        unescape_inline(s, b) == s,
    decreases s.len(),
{
    if s.len() > 0 {
        assert forall|i: int| 0 <= i < s.skip(1).len() implies (#[trigger] s.skip(1)[i]) != '`' && s.skip(1)[i] != '\\' by {
            assert(s.skip(1)[i] == s[i + 1]);
        }
        lemma_unescape_plain(s.skip(1), b);
        assert(s[0] != '\\' && s[0] != '`');
        assert(seq![s[0]] + s.skip(1) =~= s);
    }
}

/// The pieces a text is sent in: whole when it fits in 4096 bytes, else in
/// greedy pieces of at most 4000 bytes cut between characters.
pub open spec fn telegram_pieces(s: Seq<char>) -> Seq<Seq<char>> {
    if crate::text::ulen(s) <= 4096 { seq![s] } else { split_spec(s, 4000) }
}

/// The pieces `text` is sent in.
pub fn message_pieces(text: &str) -> (r: Vec<String>)
    ensures
        views_of(r@) == telegram_pieces(text@),
{
    assert(text.spec_bytes() == vstd::utf8::encode_utf8(text@));
    if text.as_bytes().len() <= 4096 {
        let mut r: Vec<String> = Vec::new();
        r.push(text.to_owned());
        assert(views_of(r@) =~= seq![text@]);
        r
    } else {
        split_by_bytes(text, 4000)
    }
}

/// The message that update `u` passes on to the agent, if any: chat id and
/// text. Only text messages count; a group message must start with a
/// mention of the bot; the chat must be allowed; a group message loses its
/// mention; empty text is dropped.
pub open spec fn update_inbound(u: TgUpdate, bot: Seq<char>, allowed: Seq<String>) -> Option<(Seq<char>, Seq<char>)> {
    match u.message {
        Some(m) => match m.text {
            Some(t) => {
                let cid = crate::text::signed_decimal(m.chat.id as int);
                let private = m.chat.chat_type@ == "private"@;
                if !private && !handles_spec(m.chat.chat_type@, Some(t@), bot) {
                    None
                } else if !allowed_spec(allowed, cid) {
                    None
                } else {
                    let c = if private { t@ } else { clean_spec(t@, bot) };
                    if c.len() == 0 { None } else { Some((cid, c)) }
                }
            },
            None => None,
        },
        None => None,
    }
}

/// The messages that the updates `us` pass on, in order.
pub open spec fn updates_inbound(us: Seq<TgUpdate>, bot: Seq<char>, allowed: Seq<String>) -> Seq<(Seq<char>, Seq<char>)>
    decreases us.len(),
{
    if us.len() == 0 {
        Seq::empty()
    } else {
        updates_inbound(us.drop_last(), bot, allowed) + match update_inbound(us.last(), bot, allowed) {
            Some(x) => seq![x],
            None => Seq::empty(),
        }
    }
}

/// The messages of one poll of updates that are passed on (chat id and
/// text, in order), and the offset of the next poll: one past the last
/// update, or `offset` when there was none.
pub fn poll_inbound(updates: &Vec<TgUpdate>, offset: i64, bot_username: &str, allowed: &Vec<String>) -> (r: (i64, Vec<(String, String)>))
    requires
        forall|i: int| 0 <= i < updates@.len() ==> (#[trigger] updates@[i]).update_id < i64::MAX,
    ensures
        r.0 == if updates@.len() == 0 { offset as int } else { updates@.last().update_id + 1 },
        r.1@.map_values(|p: (String, String)| (p.0@, p.1@)) == updates_inbound(updates@, bot_username@, allowed@),
{
    let mut out: Vec<(String, String)> = Vec::new();
    let mut off = offset;
    let mut i: usize = 0;
    while i < updates.len()
        invariant
            i <= updates@.len(),
            forall|k: int| 0 <= k < updates@.len() ==> (#[trigger] updates@[k]).update_id < i64::MAX,
            off == if i == 0 { offset as int } else { updates@[i - 1].update_id + 1 },
            out@.map_values(|p: (String, String)| (p.0@, p.1@)) == updates_inbound(updates@.take(i as int), bot_username@, allowed@),
        decreases updates@.len() - i,
    {
        let u = &updates[i];
        off = u.update_id + 1;
        assert(updates@.take(i + 1).drop_last() =~= updates@.take(i as int));
        assert(updates@.take(i + 1).last() == *u);
        let ghost before = out@.map_values(|p: (String, String)| (p.0@, p.1@));
        let mut got: Option<(String, String)> = None;
        match &u.message {
            Some(m) => match &m.text {
                Some(t) => {
                    let cid_c = crate::text::signed_decimal_chars(m.chat.id);
                    let cid = from_chars(cid_c.as_slice());
                    let ct = to_chars(m.chat.chat_type.as_str());
                    let private = eq_str(ct.as_slice(), "private");
                    if !private && !should_handle_group(m, bot_username) {
                    } else if !is_allowed(allowed, cid.as_str()) {
                    } else {
                        let c = if private { t.clone() } else { clean_group_text(t.as_str(), bot_username) };
                        if c.as_str().unicode_len() > 0 {
                            got = Some((cid, c));
                        }
                    }
                },
                None => {},
            },
            None => {},
        }
        match got {
            Some(x) => {
                out.push(x);
            },
            None => {},
        }
        assert(out@.map_values(|p: (String, String)| (p.0@, p.1@)) =~= updates_inbound(updates@.take(i + 1), bot_username@, allowed@));
        i = i + 1;
    }
    assert(updates@.take(updates@.len() as int) =~= updates@);
    (off, out)
}

} // verus!
