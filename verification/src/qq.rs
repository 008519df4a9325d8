//! QQ bot: the messages of its API, and the gateway session's decisions on
//! each frame it receives: identifying itself after the greeting with a
//! heartbeat period, keeping the session, and passing on the messages of
//! the allowed groups and, when allowed, of private chats.

use vstd::prelude::*;
use crate::telegram::{allowed_spec, is_allowed};
use crate::text::{eq_str, from_chars, push_str, replace_spec, replace_str, to_chars, trim, trim_spec};

verus! {

/// Errors of the QQ API.
#[derive(Debug)]
pub enum QqError {
    /// HTTP failure.
    Http(String),
    /// The API refused.
    Api(String),
    /// Authentication failed.
    Auth(String),
}

/// A group message mentioning the bot.
#[derive(Debug, Clone)]
pub struct GroupMessage {
    /// Message id.
    pub id: String,
    /// The group.
    pub group_openid: String,
    /// The text.
    pub content: String,
    /// The sender.
    pub author: Option<GroupAuthor>,
}

/// The sender of a group message.
#[derive(Debug, Clone)]
pub struct GroupAuthor {
    /// The member.
    pub member_openid: Option<String>,
}

/// A private message.
#[derive(Debug, Clone)]
pub struct C2cMessage {
    /// Message id.
    pub id: String,
    /// The text.
    pub content: String,
    /// The sender.
    pub author: Option<C2cAuthor>,
}

/// The sender of a private message.
#[derive(Debug, Clone)]
pub struct C2cAuthor {
    /// The user.
    pub user_openid: Option<String>,
}

/// The WebSocket address of the gateway at `url`.
pub open spec fn ws_url_spec(url: Seq<char>) -> Seq<char> {
    replace_spec(replace_spec(url, "https://"@, "wss://"@), "http://"@, "ws://"@)
}

/// The WebSocket address of the gateway at `url`: `https://` becomes
/// `wss://`, then `http://` becomes `ws://`.
pub fn ws_url(url: &str) -> (r: String)
    ensures
        r@ == ws_url_spec(url@),
{
    proof {
        reveal_strlit("https://");
        reveal_strlit("http://");
    }
    let a = replace_str(url, "https://", "wss://");
    replace_str(a.as_str(), "http://", "ws://")
}

/// The intents the bot asks for: guild events, group and private messages.
pub const QQ_INTENTS: u64 = 1107296257;

/// A frame of the gateway, as read from its JSON: the op code (0 when
/// missing), the event type (empty when missing), the sequence number, and
/// the payloads the session reads.
#[derive(Debug, Clone)]
pub struct QqFrame {
    /// Op code.
    pub op: u64,
    /// Event type.
    pub event_type: String,
    /// Sequence number.
    pub seq: Option<u64>,
    /// With a payload: its heartbeat interval in milliseconds, if given.
    pub hello_interval: Option<Option<u64>>,
    /// With a payload: its session id (empty when not given).
    pub ready_session: Option<String>,
    /// A group message payload that reads as one.
    pub group: Option<GroupMessage>,
    /// With a payload: the private message's text, sender (`unknown` when
    /// missing) and id.
    pub c2c: Option<(String, String, String)>,
}

/// What the session does after a frame.
#[derive(Debug, Clone)]
pub enum QqAction {
    /// Identify with the token text and intents, and send a heartbeat every
    /// `heartbeat_secs` seconds.
    Identify {
        /// `QQBot {token}`.
        token_text: String,
        /// Intents asked for.
        intents: u64,
        /// Heartbeat period in seconds.
        heartbeat_secs: u64,
    },
    /// Pass on a group message.
    DeliverGroup {
        /// The group.
        chat_id: String,
        /// The trimmed text.
        content: String,
        /// The message id.
        msg_id: String,
        /// The sender, if known.
        sender_id: Option<String>,
    },
    /// Pass on a private message.
    DeliverPrivate {
        /// The sender.
        user_openid: String,
        /// The text.
        content: String,
    },
    /// Nothing to do.
    Nothing,
}

/// The state of a gateway session.
#[derive(Debug, Clone)]
pub struct QqGateway {
    /// Heartbeat interval in milliseconds.
    pub heartbeat_interval: u64,
    /// Session id.
    pub session_id: String,
    /// Last sequence number seen.
    pub last_seq: Option<u64>,
    /// Whether the session is ready.
    pub identified: bool,
}

impl QqGateway {
    /// A session that has not been greeted yet.
    pub fn new() -> (g: QqGateway)
        ensures
            g.heartbeat_interval == 30,
            g.session_id@.len() == 0,
            g.last_seq is None,
            !g.identified,
    {
        QqGateway { heartbeat_interval: 30, session_id: String::new(), last_seq: None, identified: false }
    }
}

/// The heartbeat period in seconds for an interval of `ms` milliseconds:
/// whole seconds, at least ten.
pub open spec fn heartbeat_secs_spec(ms: u64) -> u64 {
    if ms / 1000 > 10 { (ms / 1000) as u64 } else { 10 }
}

/// The session's step on `frame`: the greeting (op 10) sets the heartbeat
/// interval and asks to identify; a dispatch (op 0) records its sequence
/// number and handles `READY`, group and private messages; other frames do
/// nothing.
pub fn qq_step(
    gw: &mut QqGateway,
    frame: &QqFrame,
    allowed_groups: &Vec<String>,
    allow_private: bool,
    token: &str,
) -> (r: QqAction)
    ensures
        frame.op == 10 ==> {
            &&& final(gw).heartbeat_interval == (match frame.hello_interval {
                Some(h) => match h { Some(x) => x, None => 30000 },
                None => old(gw).heartbeat_interval,
            })
            &&& final(gw).session_id == old(gw).session_id
            &&& final(gw).last_seq == old(gw).last_seq
            &&& final(gw).identified == old(gw).identified
            &&& r matches QqAction::Identify { token_text, intents, heartbeat_secs }
            &&& token_text@ == "QQBot "@ + token@
            &&& intents == QQ_INTENTS
            &&& heartbeat_secs == heartbeat_secs_spec(final(gw).heartbeat_interval)
        },
        frame.op == 0 ==> {
            &&& final(gw).last_seq == frame.seq
            &&& final(gw).heartbeat_interval == old(gw).heartbeat_interval
            &&& if frame.event_type@ == "READY"@ {
                &&& final(gw).identified
                &&& final(gw).session_id@ == (match frame.ready_session { Some(s) => s@, None => old(gw).session_id@ })
                &&& r is Nothing
            } else {
                &&& final(gw).identified == old(gw).identified
                &&& final(gw).session_id == old(gw).session_id
                &&& if frame.event_type@ == "GROUP_AT_MESSAGE_CREATE"@ {
                    match frame.group {
                        Some(m) => if allowed_spec(allowed_groups@, m.group_openid@) && trim_spec(m.content@).len() > 0 {
                            r matches QqAction::DeliverGroup { chat_id, content, msg_id, sender_id }
                                && chat_id@ == m.group_openid@ && content@ == trim_spec(m.content@) && msg_id@ == m.id@
                                && sender_id == (match m.author { Some(a) => a.member_openid, None => None })
                        } else {
                            r is Nothing
                        },
                        None => r is Nothing,
                    }
                } else if frame.event_type@ == "C2C_MESSAGE_CREATE"@ {
                    match frame.c2c {
                        Some(e) => if allow_private {
                            r matches QqAction::DeliverPrivate { user_openid, content }
                                && user_openid@ == e.1@ && content@ == e.0@
                        } else {
                            r is Nothing
                        },
                        None => r is Nothing,
                    }
                } else {
                    r is Nothing
                }
            }
        },
        frame.op != 10 && frame.op != 0 ==> r is Nothing && *final(gw) == *old(gw),
{
    if frame.op == 10 {
        match &frame.hello_interval {
            Some(h) => {
                gw.heartbeat_interval = match h {
                    Some(x) => *x,
                    None => 30000,
                };
            },
            None => {},
        }
        let mut t = to_chars("QQBot ");
        push_str(&mut t, token);
        let secs = if gw.heartbeat_interval / 1000 > 10 { gw.heartbeat_interval / 1000 } else { 10 };
        return QqAction::Identify { token_text: from_chars(t.as_slice()), intents: QQ_INTENTS, heartbeat_secs: secs };
    }
    if frame.op != 0 {
        return QqAction::Nothing;
    }
    gw.last_seq = frame.seq;
    let et = to_chars(frame.event_type.as_str());
    if eq_str(et.as_slice(), "READY") {
        match &frame.ready_session {
            Some(s) => {
                gw.session_id = s.clone();
            },
            None => {},
        }
        gw.identified = true;
        return QqAction::Nothing;
    }
    if eq_str(et.as_slice(), "GROUP_AT_MESSAGE_CREATE") {
        match &frame.group {
            Some(m) => {
                if !is_allowed(allowed_groups, m.group_openid.as_str()) {
                    return QqAction::Nothing;
                }
                let c = to_chars(m.content.as_str());
                let t = trim(c.as_slice());
                if t.len() == 0 {
                    return QqAction::Nothing;
                }
                let sender_id: Option<String> = match &m.author {
                    Some(a) => match &a.member_openid {
                        Some(o) => Some(o.clone()),
                        None => None,
                    },
                    None => None,
                };
                return QqAction::DeliverGroup {
                    chat_id: m.group_openid.clone(),
                    content: from_chars(t.as_slice()),
                    msg_id: m.id.clone(),
                    sender_id,
                };
            },
            None => {
                return QqAction::Nothing;
            },
        }
    }
    if eq_str(et.as_slice(), "C2C_MESSAGE_CREATE") {
        match &frame.c2c {
            Some(e) => {
                if allow_private {
                    return QqAction::DeliverPrivate { user_openid: e.1.clone(), content: e.0.clone() };
                }
                return QqAction::Nothing;
            },
            None => {
                return QqAction::Nothing;
            },
        }
    }
    QqAction::Nothing
}

} // verus!
