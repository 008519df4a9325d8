//! What the channel event sinks send while a turn runs: the model's text,
//! buffered until it can go out, and notes on tool calls, tool results and
//! errors. The sinks here decide; the channel sends.

use vstd::prelude::*;
use crate::api::ToolCallData;
use crate::text::{decimal, decimal_chars, extend_chars, from_chars, join, join_spec, push_str, to_chars, views};

verus! {

/// A message for the chat: plain text, or text to send as MarkdownV2.
#[derive(Debug, Clone)]
pub enum SinkMessage {
    /// Sent as it is.
    Plain(String),
    /// Sent formatted as MarkdownV2.
    Formatted(String),
}

/// The text of a message and whether it is formatted.
pub open spec fn message_view(m: SinkMessage) -> (bool, Seq<char>) {
    match m {
        SinkMessage::Plain(t) => (false, t@),
        SinkMessage::Formatted(t) => (true, t@),
    }
}

/// A tool call as the sinks show it: `name(arguments)`.
pub open spec fn call_text(c: ToolCallData) -> Seq<char> {
    c.name@ + "("@ + c.arguments@ + ")"@
}

/// The tool calls `cs` shown one after the other, separated by `sep`.
pub open spec fn calls_text(cs: Seq<ToolCallData>, sep: Seq<char>) -> Seq<char> {
    join_spec(cs.map_values(|c: ToolCallData| call_text(c)), sep)
}

/// The note on a tool result: a check mark or a cross, the tool and its
/// time in milliseconds.
pub open spec fn result_note(name: Seq<char>, duration_ms: u64, success: bool) -> Seq<char> {
    "  "@ + (if success { "✅"@ } else { "❌"@ }) + " "@ + name + " ("@ + decimal(duration_ms as nat) + "ms)"@
}

/// The note on an error.
pub open spec fn error_note(error: Seq<char>) -> Seq<char> {
    "❌ "@ + error
}

/// The tool calls shown as text, separated by `sep`.
fn show_calls(calls: &[ToolCallData], sep: &str) -> (r: Vec<char>)
    ensures
        r@ == calls_text(calls@, sep@),
{
    let mut parts: Vec<String> = Vec::new();
    let mut i: usize = 0;
    while i < calls.len()
        invariant
            i <= calls@.len(),
            views(parts@) == calls@.take(i as int).map_values(|c: ToolCallData| call_text(c)),
        decreases calls@.len() - i,
    {
        let c = &calls[i];
        let mut v = to_chars(c.name.as_str());
        push_str(&mut v, "(");
        push_str(&mut v, c.arguments.as_str());
        push_str(&mut v, ")");
        let ghost before = views(parts@);
        parts.push(from_chars(v.as_slice()));
        assert(views(parts@) =~= before.push(call_text(*c)));
        assert(calls@.take(i + 1).map_values(|c: ToolCallData| call_text(c))
            =~= calls@.take(i as int).map_values(|c: ToolCallData| call_text(c)).push(call_text(*c)));
        i = i + 1;
    }
    assert(calls@.take(calls@.len() as int) =~= calls@);
    join(&parts, sep)
}

/// The note on a tool result.
pub fn tool_result_note(name: &str, duration_ms: u64, success: bool) -> (r: String)
    ensures
        r@ == result_note(name@, duration_ms, success),
{
    let mut v = to_chars("  ");
    if success {
        push_str(&mut v, "✅");
    } else {
        push_str(&mut v, "❌");
    }
    push_str(&mut v, " ");
    push_str(&mut v, name);
    push_str(&mut v, " (");
    let d = decimal_chars(duration_ms);
    extend_chars(&mut v, d.as_slice());
    push_str(&mut v, "ms)");
    from_chars(v.as_slice())
}

/// The note on an error.
pub fn error_message(error: &str) -> (r: String)
    ensures
        r@ == error_note(error@),
{
    let mut v = to_chars("❌ ");
    push_str(&mut v, error);
    from_chars(v.as_slice())
}

// ---------------------------------------------------------------------------
// A plain channel
// ---------------------------------------------------------------------------

/// The sink of a plain channel: the model's text waits in a buffer until
/// the turn is done; tool notes go out at once.
#[derive(Debug, Clone)]
pub struct ChannelSinkState {
    /// Text not sent yet.
    pub buffer: String,
}

impl ChannelSinkState {
    /// An empty buffer.
    pub fn new() -> (s: ChannelSinkState)
        ensures
            s.buffer@.len() == 0,
    {
        ChannelSinkState { buffer: String::new() }
    }

    /// Buffers streamed text.
    pub fn on_chunk(&mut self, text: &str)
        ensures
            final(self).buffer@ == old(self).buffer@ + text@,
    {
        let mut v = to_chars(self.buffer.as_str());
        push_str(&mut v, text);
        self.buffer = from_chars(v.as_slice());
    }

    /// The note on the tool calls about to run, on one line.
    pub fn on_tool_calls(&self, calls: &[ToolCallData]) -> (r: String)
        ensures
            r@ == "🔧 正在执行: "@ + calls_text(calls@, ", "@),
    {
        let mut v = to_chars("🔧 正在执行: ");
        let d = show_calls(calls, ", ");
        extend_chars(&mut v, d.as_slice());
        from_chars(v.as_slice())
    }

    /// The buffered text when the turn is done, if any; the buffer is
    /// emptied.
    pub fn on_done(&mut self) -> (r: Option<String>)
        ensures
            final(self).buffer@.len() == 0,
            match r {
                Some(t) => old(self).buffer@.len() > 0 && t@ == old(self).buffer@,
                None => old(self).buffer@.len() == 0,
            },
    {
        if self.buffer.as_str().unicode_len() == 0 {
            return None;
        }
        let t = from_chars(to_chars(self.buffer.as_str()).as_slice());
        self.buffer = String::new();
        Some(t)
    }
}

// ---------------------------------------------------------------------------
// Telegram
// ---------------------------------------------------------------------------

/// The sink of a Telegram chat: text streamed before the first tool call is
/// the model's thinking and goes out as plain text when the tools start;
/// text after it is the reply and goes out formatted when the turn is
/// done. Without tool calls the thinking is the reply.
#[derive(Debug, Clone)]
pub struct TelegramSinkState {
    /// Text streamed before the first tool call, not sent yet.
    pub thinking: String,
    /// Text streamed after it, not sent yet.
    pub reply: String,
    /// Whether tool calls came in this turn.
    pub has_tool_calls: bool,
}

impl TelegramSinkState {
    /// Empty buffers, no tool call yet.
    pub fn new() -> (s: TelegramSinkState)
        ensures
            s.thinking@.len() == 0,
            s.reply@.len() == 0,
            !s.has_tool_calls,
    {
        TelegramSinkState { thinking: String::new(), reply: String::new(), has_tool_calls: false }
    }

    /// Buffers streamed text: as the reply after a tool call, else as
    /// thinking.
    pub fn on_chunk(&mut self, text: &str)
        ensures
            final(self).has_tool_calls == old(self).has_tool_calls,
            old(self).has_tool_calls ==> final(self).reply@ == old(self).reply@ + text@
                && final(self).thinking@ == old(self).thinking@,
            !old(self).has_tool_calls ==> final(self).thinking@ == old(self).thinking@ + text@
                && final(self).reply@ == old(self).reply@,
    {
        if self.has_tool_calls {
            let mut v = to_chars(self.reply.as_str());
            push_str(&mut v, text);
            self.reply = from_chars(v.as_slice());
        } else {
            let mut v = to_chars(self.thinking.as_str());
            push_str(&mut v, text);
            self.thinking = from_chars(v.as_slice());
        }
    }

    /// The messages when tool calls come: at the first, the buffered
    /// thinking (if any) under a heading; then the calls, one per line.
    pub fn on_tool_calls(&mut self, calls: &[ToolCallData]) -> (r: Vec<SinkMessage>)
        ensures
            final(self).has_tool_calls,
            final(self).reply@ == old(self).reply@,
            old(self).has_tool_calls ==> final(self).thinking@ == old(self).thinking@,
            !old(self).has_tool_calls ==> final(self).thinking@.len() == 0,
            r@.map_values(|m: SinkMessage| message_view(m)) == (
                if !old(self).has_tool_calls && old(self).thinking@.len() > 0 {
                    seq![(false, "💭 思考过程\n\n"@ + old(self).thinking@)]
                } else {
                    Seq::empty()
                }
            ).push((false, "🔧 正在执行: \n"@ + calls_text(calls@, "\n"@))),
    {
        let mut out: Vec<SinkMessage> = Vec::new();
        if !self.has_tool_calls {
            if self.thinking.as_str().unicode_len() > 0 {
                let mut v = to_chars("💭 思考过程\n\n");
                push_str(&mut v, self.thinking.as_str());
                out.push(SinkMessage::Plain(from_chars(v.as_slice())));
            }
            self.thinking = String::new();
        }
        self.has_tool_calls = true;
        let mut v = to_chars("🔧 正在执行: \n");
        let d = show_calls(calls, "\n");
        extend_chars(&mut v, d.as_slice());
        let ghost before = out@.map_values(|m: SinkMessage| message_view(m));
        out.push(SinkMessage::Plain(from_chars(v.as_slice())));
        assert(out@.map_values(|m: SinkMessage| message_view(m))
            =~= before.push((false, "🔧 正在执行: \n"@ + calls_text(calls@, "\n"@))));
        out
    }

    /// The reply when the turn is done, formatted: the reply buffer after
    /// tool calls, else the thinking; none when that is empty. It is
    /// emptied.
    pub fn on_done(&mut self) -> (r: Option<SinkMessage>)
        ensures
            final(self).has_tool_calls == old(self).has_tool_calls,
            old(self).has_tool_calls ==> final(self).reply@.len() == 0 && final(self).thinking@ == old(self).thinking@,
            !old(self).has_tool_calls ==> final(self).thinking@.len() == 0 && final(self).reply@ == old(self).reply@,
            ({
                let pending = if old(self).has_tool_calls { old(self).reply@ } else { old(self).thinking@ };
                match r {
                    Some(m) => pending.len() > 0 && message_view(m) == (true, pending),
                    None => pending.len() == 0,
                }
            }),
    {
        if self.has_tool_calls {
            if self.reply.as_str().unicode_len() == 0 {
                return None;
            }
            let t = from_chars(to_chars(self.reply.as_str()).as_slice());
            self.reply = String::new();
            Some(SinkMessage::Formatted(t))
        } else {
            if self.thinking.as_str().unicode_len() == 0 {
                return None;
            }
            let t = from_chars(to_chars(self.thinking.as_str()).as_slice());
            self.thinking = String::new();
            Some(SinkMessage::Formatted(t))
        }
    }

    /// The note on an error; thinking not sent yet is dropped.
    pub fn on_error(&mut self, error: &str) -> (r: String)
        ensures
            r@ == error_note(error@),
            final(self).has_tool_calls == old(self).has_tool_calls,
            final(self).reply@ == old(self).reply@,
            old(self).has_tool_calls ==> final(self).thinking@ == old(self).thinking@,
            !old(self).has_tool_calls ==> final(self).thinking@.len() == 0,
    {
        if !self.has_tool_calls {
            self.thinking = String::new();
        }
        error_message(error)
    }
}

} // verus!
