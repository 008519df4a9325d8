//! WeCom (enterprise WeChat): which polled messages are passed on, and when
//! the channel polls and renews its access token.

use vstd::prelude::*;
use vstd::string::StrSliceExecFns;
use crate::text::{eq_str, to_chars};

verus! {

/// A polled message.
#[derive(Debug, Clone)]
pub struct WeComMessage {
    /// Message type (`text` for text).
    pub msgtype: String,
    /// The sender.
    pub sender: String,
    /// The text of a text message.
    pub text: Option<String>,
}

/// Seconds after which the access token is renewed.
pub const TOKEN_RENEW_SECS: u64 = 7000;

/// A sender may talk to the bot: everyone when no list is given, else the
/// listed ones.
pub open spec fn sender_allowed(allow_from: Seq<String>, sender: Seq<char>) -> bool {
    allow_from.len() == 0 || exists|i: int| 0 <= i < allow_from.len() && (#[trigger] allow_from[i])@ == sender
}

/// The message `m` passes on, if any: text messages from allowed senders
/// with non-empty text, as sender and text.
pub open spec fn wecom_message_spec(m: WeComMessage, allow_from: Seq<String>) -> Option<(Seq<char>, Seq<char>)> {
    if m.msgtype@ != "text"@ || !sender_allowed(allow_from, m.sender@) {
        None
    } else {
        let c = match m.text { Some(t) => t@, None => Seq::empty() };
        if c.len() == 0 { None } else { Some((m.sender@, c)) }
    }
}

/// The messages that `ms` pass on, in order.
pub open spec fn wecom_inbound_spec(ms: Seq<WeComMessage>, allow_from: Seq<String>) -> Seq<(Seq<char>, Seq<char>)>
    decreases ms.len(),
{
    if ms.len() == 0 {
        Seq::empty()
    } else {
        wecom_inbound_spec(ms.drop_last(), allow_from) + match wecom_message_spec(ms.last(), allow_from) {
            Some(x) => seq![x],
            None => Seq::empty(),
        }
    }
}

/// Whether `sender` may talk to the bot.
fn is_sender_allowed(allow_from: &Vec<String>, sender: &str) -> (r: bool)
    ensures
        r == sender_allowed(allow_from@, sender@),
{
    if allow_from.len() == 0 {
        return true;
    }
    let s = to_chars(sender);
    let mut i: usize = 0;
    while i < allow_from.len()
        invariant
            i <= allow_from@.len(),
            s@ == sender@,
            forall|j: int| 0 <= j < i ==> (#[trigger] allow_from@[j])@ != sender@,
        decreases allow_from@.len() - i,
    {
        let a = to_chars(allow_from[i].as_str());
        if crate::text::chars_eq(a.as_slice(), s.as_slice()) {
            return true;
        }
        i = i + 1;
    }
    false
}

/// The polled messages passed on to the agent, as sender and text.
pub fn wecom_inbound(msgs: &Vec<WeComMessage>, allow_from: &Vec<String>) -> (r: Vec<(String, String)>)
    ensures
        r@.map_values(|p: (String, String)| (p.0@, p.1@)) == wecom_inbound_spec(msgs@, allow_from@),
{
    let mut out: Vec<(String, String)> = Vec::new();
    let mut i: usize = 0;
    while i < msgs.len()
        invariant
            i <= msgs@.len(),
            out@.map_values(|p: (String, String)| (p.0@, p.1@)) == wecom_inbound_spec(msgs@.take(i as int), allow_from@),
        decreases msgs@.len() - i,
    {
        let m = &msgs[i];
        assert(msgs@.take(i + 1).drop_last() =~= msgs@.take(i as int));
        assert(msgs@.take(i + 1).last() == *m);
        let t = to_chars(m.msgtype.as_str());
        if eq_str(t.as_slice(), "text") && is_sender_allowed(allow_from, m.sender.as_str()) {
            let c = match &m.text {
                Some(x) => x.clone(),
                None => String::new(),
            };
            if c.as_str().unicode_len() > 0 {
                out.push((m.sender.clone(), c));
            }
        }
        assert(out@.map_values(|p: (String, String)| (p.0@, p.1@)) =~= wecom_inbound_spec(msgs@.take(i + 1), allow_from@));
        i = i + 1;
    }
    assert(msgs@.take(msgs@.len() as int) =~= msgs@);
    out
}

/// Whether the channel can poll: a corp id and a secret are set.
pub fn has_poll_config(corp_id: &str, secret: &str) -> (r: bool)
    ensures
        r == (corp_id@.len() > 0 && secret@.len() > 0),
{
    secret.unicode_len() > 0 && corp_id.unicode_len() > 0
}

/// Whether a poll is due `elapsed_secs` seconds after the last one.
pub fn poll_due(elapsed_secs: u64, interval_secs: u64) -> (r: bool)
    ensures
        r == (elapsed_secs >= interval_secs),
{
    elapsed_secs >= interval_secs
}

/// Whether the access token is to be fetched before polling.
pub fn token_renew_due(has_token: bool, elapsed_secs: u64) -> (r: bool)
    ensures
        r == (!has_token || elapsed_secs >= 7000),
{
    !has_token || elapsed_secs >= TOKEN_RENEW_SECS
}

} // verus!
