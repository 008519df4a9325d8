//! WeChat (iLink bot): the decisions of the channel on what the service
//! answers: the QR code to poll, the login status, the text messages to pass
//! on, the sync cursor, and when the token has to be renewed.

use vstd::prelude::*;
use crate::session::{eq_ignore_ascii_case, eq_ignore_ascii_case_spec};
use crate::text::{
    contains_seq, extend_chars, signed_decimal, find, find_from_spec, first_occurrence_from, from_chars, has_prefix,
    index_of_char, lemma_first_occurrence_unique, occurs_at, position_of, push_str, slice_to_vec, starts_with, str_contains,
    to_chars, trim, trim_spec,
};

verus! {

/// The `qrcode` parameter of a login link: for a link (`http://` or
/// `https://`) holding `qrcode=`, the text after its first occurrence up to
/// the next `&`; else the text itself.
pub open spec fn qrcode_param_spec(text: Seq<char>) -> Seq<char> {
    if has_prefix(text, "http://"@) || has_prefix(text, "https://"@) {
        match find_from_spec(text, "qrcode="@, 0) {
            Some(pos) => {
                let val = text.skip(pos + 7);
                match index_of_char(val, '&') {
                    Some(j) => val.take(j),
                    None => val,
                }
            },
            None => text,
        }
    } else {
        text
    }
}

/// The value to poll the login status with, from the QR code text.
pub fn extract_qrcode_param(text: &str) -> (r: String)
    ensures
        r@ == qrcode_param_spec(text@),
{
    let t = to_chars(text);
    let h1 = to_chars("http://");
    let h2 = to_chars("https://");
    let key = to_chars("qrcode=");
    proof {
        reveal_strlit("qrcode=");
    }
    if starts_with(t.as_slice(), h1.as_slice()) || starts_with(t.as_slice(), h2.as_slice()) {
        match find(t.as_slice(), key.as_slice()) {
            Some(pos) => {
                proof {
                    let k = choose|i: int| first_occurrence_from(t@, key@, 0, i);
                    lemma_first_occurrence_unique(t@, key@, 0, k, pos as int);
                    assert(key@.len() == 7);
                    assert(occurs_at(t@, key@, pos as int));
                    assert(pos + 7 <= t@.len());
                }
                let n = t.len();
                assert(pos + 7 <= n);
                let start: usize = pos + 7;
                let val = slice_to_vec(t.as_slice(), start, n);
                assert(val@ =~= t@.skip(start as int));
                match position_of(val.as_slice(), '&') {
                    Some(amp) => {
                        let v = slice_to_vec(val.as_slice(), 0, amp);
                        assert(v@ =~= val@.take(amp as int));
                        from_chars(v.as_slice())
                    },
                    None => from_chars(val.as_slice()),
                }
            },
            None => text.to_string(),
        }
    } else {
        text.to_string()
    }
}

/// What the login poll says to do next.
#[derive(Debug, Clone)]
pub enum LoginStep {
    /// Logged in with this bot token.
    Confirmed(String),
    /// Confirmed, but the service gave no bot token: the login fails.
    MissingToken,
    /// The QR code expired: fetch a new one.
    Expired,
    /// Keep polling.
    Pending,
}

/// What a login status (compared ignoring ASCII case) means.
pub open spec fn login_step_spec(status: Option<Seq<char>>, token: Option<Seq<char>>) -> LoginStep {
    match status {
        Some(s) => if eq_ignore_ascii_case_spec(s, "Confirmed"@) {
            match token {
                Some(_) => LoginStep::Confirmed(arbitrary()),
                None => LoginStep::MissingToken,
            }
        } else if eq_ignore_ascii_case_spec(s, "Expired"@) {
            LoginStep::Expired
        } else {
            LoginStep::Pending
        },
        None => LoginStep::Pending,
    }
}

/// The next login step after a poll answered `status` and `bot_token`.
pub fn login_step(status: Option<&str>, bot_token: Option<String>) -> (r: LoginStep)
    ensures
        match (r, login_step_spec(match status { Some(s) => Some(s@), None => None },
            match bot_token { Some(t) => Some(t@), None => None })) {
            (LoginStep::Confirmed(t), LoginStep::Confirmed(_)) => bot_token matches Some(b) && t@ == b@,
            (LoginStep::MissingToken, LoginStep::MissingToken) => true,
            (LoginStep::Expired, LoginStep::Expired) => true,
            (LoginStep::Pending, LoginStep::Pending) => true,
            _ => false,
        },
{
    match status {
        Some(s) => {
            let c = to_chars(s);
            if eq_ignore_ascii_case(c.as_slice(), "Confirmed") {
                match bot_token {
                    Some(t) => LoginStep::Confirmed(t),
                    None => LoginStep::MissingToken,
                }
            } else if eq_ignore_ascii_case(c.as_slice(), "Expired") {
                LoginStep::Expired
            } else {
                LoginStep::Pending
            }
        },
        None => LoginStep::Pending,
    }
}

/// Failed status polls in a row after which a new QR code is fetched.
pub const MAX_POLL_FAILURES: u32 = 5;

/// Whether a new QR code is due after `failures` failed polls in a row.
pub fn qr_refresh_due(failures: u32) -> (r: bool)
    ensures
        r == (failures >= 5),
{
    failures >= MAX_POLL_FAILURES
}

/// An item of a received message.
#[derive(Debug, Clone)]
pub struct WxItem {
    /// Item type (1: text).
    pub item_type: i32,
    /// The text of a text item.
    pub text: Option<String>,
}

/// A received message.
#[derive(Debug, Clone)]
pub struct WxMessage {
    /// Message type (1: from the user).
    pub message_type: i32,
    /// The sender.
    pub from_user_id: String,
    /// The token that ties a reply to this message.
    pub context_token: Option<String>,
    /// Its items.
    pub items: Option<Vec<WxItem>>,
}

/// A message passed on: sender, text, context token.
#[derive(Debug, Clone)]
pub struct WxInbound {
    /// The sender, also the chat to answer.
    pub chat_id: String,
    /// The text.
    pub text: String,
    /// The context token, if given.
    pub context_token: Option<String>,
}

/// Index of the first text item of `items`.
pub open spec fn first_text_item(items: Seq<WxItem>) -> Option<int> {
    if exists|i: int| 0 <= i < items.len() && items[i].item_type == 1 && forall|j: int| 0 <= j < i ==> items[j].item_type != 1 {
        Some(choose|i: int| 0 <= i < items.len() && items[i].item_type == 1 && forall|j: int| 0 <= j < i ==> items[j].item_type != 1)
    } else {
        None
    }
}

/// The text of a message: that of its first text item, empty when there is
/// none or it carries none.
pub open spec fn message_text_spec(m: WxMessage) -> Seq<char> {
    match m.items {
        Some(items) => match first_text_item(items@) {
            Some(i) => match items@[i].text { Some(t) => t@, None => Seq::empty() },
            None => Seq::empty(),
        },
        None => Seq::empty(),
    }
}

/// The text of message `m`.
fn message_text(m: &WxMessage) -> (r: String)
    ensures
        r@ == message_text_spec(*m),
{
    match &m.items {
        Some(items) => {
            let mut i: usize = 0;
            while i < items.len()
                invariant
                    i <= items@.len(),
                    m.items == Some(*items),
                    forall|j: int| 0 <= j < i ==> items@[j].item_type != 1,
                decreases items@.len() - i,
            {
                if items[i].item_type == 1 {
                    proof {
                        assert(0 <= i < items@.len() && items@[i as int].item_type == 1
                            && forall|j: int| 0 <= j < i ==> items@[j].item_type != 1);
                        let k = choose|k: int| 0 <= k < items@.len() && items@[k].item_type == 1
                            && forall|j: int| 0 <= j < k ==> items@[j].item_type != 1;
                        assert(k == i as int) by {
                            if k < i { assert(items@[k].item_type != 1); }
                            if i < k { assert(items@[i as int].item_type != 1); }
                        }
                        assert(first_text_item(items@) == Some(i as int));
                    }
                    return match &items[i].text {
                        Some(t) => t.clone(),
                        None => String::new(),
                    };
                }
                i = i + 1;
            }
            String::new()
        },
        None => String::new(),
    }
}

/// The messages passed on from `msgs`, in order: user messages (type 1)
/// whose text is not empty.
pub open spec fn inbound_spec(msgs: Seq<WxMessage>) -> Seq<(Seq<char>, Seq<char>, Option<Seq<char>>)>
    decreases msgs.len(),
{
    if msgs.len() == 0 {
        Seq::empty()
    } else {
        let m = msgs.last();
        inbound_spec(msgs.drop_last()) + if m.message_type == 1 && message_text_spec(m).len() > 0 {
            seq![(m.from_user_id@, message_text_spec(m), match m.context_token { Some(c) => Some(c@), None => None })]
        } else {
            Seq::empty()
        }
    }
}

/// The view of a passed-on message.
pub open spec fn inbound_view(w: WxInbound) -> (Seq<char>, Seq<char>, Option<Seq<char>>) {
    (w.chat_id@, w.text@, match w.context_token { Some(c) => Some(c@), None => None })
}

/// The messages of one poll that are passed on to the agent.
pub fn inbound_messages(msgs: &Vec<WxMessage>) -> (r: Vec<WxInbound>)
    ensures
        r@.map_values(|w: WxInbound| inbound_view(w)) == inbound_spec(msgs@),
{
    let mut out: Vec<WxInbound> = Vec::new();
    let mut i: usize = 0;
    while i < msgs.len()
        invariant
            i <= msgs@.len(),
            out@.map_values(|w: WxInbound| inbound_view(w)) == inbound_spec(msgs@.take(i as int)),
        decreases msgs@.len() - i,
    {
        assert(msgs@.take(i + 1).drop_last() =~= msgs@.take(i as int));
        assert(msgs@.take(i + 1).last() == msgs@[i as int]);
        let ghost before = out@.map_values(|w: WxInbound| inbound_view(w));
        let m = &msgs[i];
        if m.message_type == 1 {
            let text = message_text(m);
            if text.as_str().unicode_len() > 0 {
                let w = WxInbound {
                    chat_id: m.from_user_id.clone(),
                    text,
                    context_token: match &m.context_token { Some(c) => Some(c.clone()), None => None },
                };
                out.push(w);
                assert(out@.map_values(|w: WxInbound| inbound_view(w)) =~= before.push(inbound_view(w)));
            } else {
                assert(out@.map_values(|w: WxInbound| inbound_view(w)) =~= before + Seq::empty());
            }
        } else {
            assert(out@.map_values(|w: WxInbound| inbound_view(w)) =~= before + Seq::empty());
        }
        i = i + 1;
    }
    assert(msgs@.take(msgs@.len() as int) =~= msgs@);
    out
}

/// The sync cursor after a poll: the one the service gave when not empty,
/// else the current one.
pub fn next_sync_buf(current: &str, given: Option<String>) -> (r: String)
    ensures
        r@ == match given { Some(g) => if g@.len() > 0 { g@ } else { current@ }, None => current@ },
{
    match given {
        Some(g) => if g.as_str().unicode_len() > 0 { g } else { current.to_string() },
        None => current.to_string(),
    }
}

/// The poll error for the error code `errcode` of an answer, if it is one.
pub fn updates_error(errcode: Option<i32>) -> (r: Option<String>)
    ensures
        match errcode {
            Some(e) => if e != 0 {
                r matches Some(t) && t@ == "API 返回错误码: "@ + signed_decimal(e as int)
            } else {
                r is None
            },
            None => r is None,
        },
{
    match errcode {
        Some(e) => {
            if e != 0 {
                let mut v = to_chars("API 返回错误码: ");
                let d = crate::text::signed_decimal_chars(e as i64);
                extend_chars(&mut v, d.as_slice());
                Some(from_chars(v.as_slice()))
            } else {
                None
            }
        },
        None => None,
    }
}

/// A poll error that means the token is no longer valid.
pub open spec fn token_expired_spec(err: Seq<char>) -> bool {
    contains_seq(err, "错误码"@) || contains_seq(err, "token"@) || contains_seq(err, "401"@)
}

/// Whether the poll error `err` calls for a new login.
pub fn token_expired(err: &str) -> (r: bool)
    ensures
        r == token_expired_spec(err@),
{
    let e = to_chars(err);
    str_contains(e.as_slice(), "错误码") || str_contains(e.as_slice(), "token") || str_contains(e.as_slice(), "401")
}

/// The saved token in the text of the token file: the text trimmed, none
/// when that is empty.
pub fn saved_token(content: &str) -> (r: Option<String>)
    ensures
        match r {
            Some(t) => t@ == trim_spec(content@) && t@.len() > 0,
            None => trim_spec(content@).len() == 0,
        },
{
    let c = to_chars(content);
    let t = trim(c.as_slice());
    if t.len() == 0 { None } else { Some(from_chars(t.as_slice())) }
}

} // verus!
