//! The decisions of one agent turn that do not wait on the model or the
//! tools: how tool output is cut and reported, which tool calls a learning
//! mode lets through, what the model's streamed text keeps, what is
//! recalled and remembered, when refinement and reflection are due, and
//! how a turn moves from round to round.

use vstd::prelude::*;
use vstd::string::{StrSliceExecFns, StringSliceAdditionalSpecFns};
use crate::context::ApiMessage;
use crate::memory::{MemoryEntry, MemoryType};
use crate::text::{
    decimal, decimal_chars, eq_str, extend_chars, from_chars, has_prefix, join, join_spec, lines, lines_spec,
    push_str, replace_spec, replace_str, slice_to_vec, to_chars, trim, trim_spec, ulen, views,
};

verus! {

/// Most tool calls in one turn before it is stopped.
pub const MAX_TOTAL_TOOL_CALLS: u32 = 200;

/// Context window of the model, in tokens.
pub const CONTEXT_WINDOW: usize = 128000;

/// Tool output as it goes back to the model: kept when it fits in `max`
/// bytes, else its first three quarters of `max` characters and its last
/// quarter, around a note of the bytes left out and the line count.
pub open spec fn cut_output_spec(out: Seq<char>, max: nat) -> Seq<char> {
    if ulen(out) > max {
        let h = (max * 3 / 4) as int;
        let t = (max / 4) as int;
        let head = if out.len() > h { out.take(h) } else { out };
        let tail = if out.len() > t { out.skip(out.len() - t) } else { out };
        head + "\n\n... [省略 "@ + decimal((ulen(out) - max) as nat) + " 字, 共 "@ + decimal(lines_spec(out).len())
            + " 行] ...\n\n"@ + tail
    } else {
        out
    }
}

/// The tool output `output` cut to about `max_chars`.
pub fn cut_tool_output(output: &str, max_chars: usize) -> (r: String)
    requires
        max_chars <= usize::MAX / 3,
    ensures
        r@ == cut_output_spec(output@, max_chars as nat),
{
    let total = output.as_bytes().len();
    assert(output.spec_bytes() == vstd::utf8::encode_utf8(output@));
    if total <= max_chars {
        return output.to_owned();
    }
    let c = to_chars(output);
    let h = max_chars * 3 / 4;
    let t = max_chars / 4;
    let head = if c.len() > h { slice_to_vec(c.as_slice(), 0, h) } else { slice_to_vec(c.as_slice(), 0, c.len()) };
    let tail = if c.len() > t { slice_to_vec(c.as_slice(), c.len() - t, c.len()) } else { slice_to_vec(c.as_slice(), 0, c.len()) };
    let ls = lines(c.as_slice());
    let ghost lv = ls@.map_values(|v: Vec<char>| v@);
    assert(lv =~= lines_spec(output@));
    let mut v = head;
    push_str(&mut v, "\n\n... [省略 ");
    let om = decimal_chars((total - max_chars) as u64);
    extend_chars(&mut v, om.as_slice());
    push_str(&mut v, " 字, 共 ");
    let n = decimal_chars(ls.len() as u64);
    extend_chars(&mut v, n.as_slice());
    push_str(&mut v, " 行] ...\n\n");
    extend_chars(&mut v, tail.as_slice());
    assert(c@.take(c@.len() as int) =~= c@);
    assert(c@.skip(0) =~= c@);
    from_chars(v.as_slice())
}

/// The message that reports a tool result to the model.
pub open spec fn tool_result_spec(name: Seq<char>, success: bool, duration_ms: u64, output: Seq<char>) -> Seq<char> {
    if success {
        "工具「"@ + name + "」执行成功 ("@ + decimal(duration_ms as nat) + "ms):\n"@ + output
    } else {
        "工具「"@ + name + "」执行失败:\n"@ + output
    }
}

/// The message that reports the result of tool `name` to the model.
pub fn tool_result_message(name: &str, success: bool, duration_ms: u64, output: &str) -> (r: String)
    ensures
        r@ == tool_result_spec(name@, success, duration_ms, output@),
{
    let mut v = to_chars("工具「");
    push_str(&mut v, name);
    if success {
        push_str(&mut v, "」执行成功 (");
        let d = decimal_chars(duration_ms);
        extend_chars(&mut v, d.as_slice());
        push_str(&mut v, "ms):\n");
    } else {
        push_str(&mut v, "」执行失败:\n");
    }
    push_str(&mut v, output);
    from_chars(v.as_slice())
}

/// `name` is one of `allowed`.
pub open spec fn tool_allowed(allowed: Seq<String>, name: Seq<char>) -> bool {
    exists|i: int| 0 <= i < allowed.len() && (#[trigger] allowed[i])@ == name
}

/// The names of `names` that `keep` says of, in order.
pub open spec fn kept_names(allowed: Seq<String>, names: Seq<Seq<char>>, keep: bool) -> Seq<Seq<char>>
    decreases names.len(),
{
    if names.len() == 0 {
        Seq::empty()
    } else {
        kept_names(allowed, names.drop_last(), keep)
            + if tool_allowed(allowed, names.last()) == keep { seq![names.last()] } else { Seq::empty() }
    }
}

/// Whether `name` is one of `allowed`.
fn is_tool_allowed(allowed: &Vec<String>, name: &str) -> (r: bool)
    ensures
        r == tool_allowed(allowed@, name@),
{
    let n = to_chars(name);
    let mut i: usize = 0;
    while i < allowed.len()
        invariant
            i <= allowed@.len(),
            n@ == name@,
            forall|j: int| 0 <= j < i ==> (#[trigger] allowed@[j])@ != name@,
        decreases allowed@.len() - i,
    {
        let a = to_chars(allowed[i].as_str());
        if crate::text::chars_eq(a.as_slice(), n.as_slice()) {
            return true;
        }
        i = i + 1;
    }
    false
}

/// The tool calls of a learning mode's turn split by its allowed tools:
/// the names let through and the names refused, each in order.
pub fn split_allowed(names: &Vec<String>, allowed: &Vec<String>) -> (r: (Vec<String>, Vec<String>))
    ensures
        views(r.0@) == kept_names(allowed@, views(names@), true),
        views(r.1@) == kept_names(allowed@, views(names@), false),
{
    let mut ok: Vec<String> = Vec::new();
    let mut no: Vec<String> = Vec::new();
    let mut i: usize = 0;
    while i < names.len()
        invariant
            i <= names@.len(),
            views(ok@) == kept_names(allowed@, views(names@).take(i as int), true),
            views(no@) == kept_names(allowed@, views(names@).take(i as int), false),
        decreases names@.len() - i,
    {
        let ghost nv = views(names@);
        assert(nv.take(i + 1).drop_last() =~= nv.take(i as int));
        assert(nv.take(i + 1).last() == names@[i as int]@);
        let ghost bo = views(ok@);
        let ghost bn = views(no@);
        if is_tool_allowed(allowed, names[i].as_str()) {
            ok.push(names[i].clone());
            assert(views(ok@) =~= bo.push(names@[i as int]@));
            assert(views(no@) =~= bn + Seq::empty());
        } else {
            no.push(names[i].clone());
            assert(views(no@) =~= bn.push(names@[i as int]@));
            assert(views(ok@) =~= bo + Seq::empty());
        }
        i = i + 1;
    }
    assert(views(names@).take(names@.len() as int) =~= views(names@));
    (ok, no)
}

/// The note to the model about the tools a learning mode refused.
pub fn refused_tools_note(mode: Option<&str>, refused: &Vec<String>) -> (r: String)
    ensures
        r@ == "⚠️ 当前学习模式（"@ + (match mode { Some(m) => m@, None => "locked"@ }) + "）下以下工具不可用: "@
            + join_spec(views(refused@), ", "@) + "\n请仅使用允许的工具，或改用允许的方式回答。"@,
{
    let mut v = to_chars("⚠️ 当前学习模式（");
    match mode {
        Some(m) => push_str(&mut v, m),
        None => push_str(&mut v, "locked"),
    }
    push_str(&mut v, "）下以下工具不可用: ");
    let j = join(refused, ", ");
    extend_chars(&mut v, j.as_slice());
    push_str(&mut v, "\n请仅使用允许的工具，或改用允许的方式回答。");
    from_chars(v.as_slice())
}

/// A streamed text chunk without thinking tags; none when the chunk was
/// nothing but such tags (around blank text).
pub open spec fn chunk_text_spec(text: Seq<char>) -> Option<Seq<char>> {
    let f = replace_spec(replace_spec(text, "<think>"@, Seq::empty()), "</think>"@, Seq::empty());
    if trim_spec(f).len() == 0 && trim_spec(text).len() > 0 { None } else { Some(f) }
}

/// The streamed chunk `text` as shown: thinking tags removed; none when
/// nothing but tags was in it.
pub fn chunk_text(text: &str) -> (r: Option<String>)
    ensures
        match r {
            Some(t) => chunk_text_spec(text@) == Some(t@),
            None => chunk_text_spec(text@) is None,
        },
{
    proof {
        reveal_strlit("<think>");
        reveal_strlit("</think>");
        reveal_strlit("");
    }
    let a = replace_str(text, "<think>", "");
    assert(""@ =~= Seq::<char>::empty());
    assert(a@ == replace_spec(text@, "<think>"@, Seq::empty()));
    let f = replace_str(a.as_str(), "</think>", "");
    assert(f@ == replace_spec(replace_spec(text@, "<think>"@, Seq::empty()), "</think>"@, Seq::empty()));
    let fc = to_chars(f.as_str());
    let tc = to_chars(text);
    let ft = trim(fc.as_slice());
    let tt = trim(tc.as_slice());
    if ft.len() == 0 && tt.len() > 0 {
        None
    } else {
        Some(f)
    }
}

/// The label of a role in the history that is summarised.
pub open spec fn role_label(role: Seq<char>) -> Seq<char> {
    if role == "user"@ { "用户"@ } else if role == "assistant"@ { "AI"@ } else { "系统"@ }
}

/// One message of the history as summarised: its label and its first 500
/// characters.
pub open spec fn history_entry(m: ApiMessage) -> Seq<char> {
    role_label(m.role@) + ": "@ + (if m.content@.len() > 500 { m.content@.take(500) } else { m.content@ })
}

/// The history text handed to the summariser: every message after the
/// first (the system prompt), separated by `---` lines.
pub open spec fn history_text_spec(ms: Seq<ApiMessage>) -> Seq<char> {
    if ms.len() <= 1 {
        Seq::empty()
    } else {
        join_spec(ms.skip(1).map_values(|m: ApiMessage| history_entry(m)), "\n---\n"@)
    }
}

/// The history text handed to the summariser when the context is full.
pub fn history_text(messages: &Vec<ApiMessage>) -> (r: String)
    ensures
        r@ == history_text_spec(messages@),
{
    if messages.len() <= 1 {
        return String::new();
    }
    let mut parts: Vec<String> = Vec::new();
    let mut i: usize = 1;
    assert(messages@.subrange(1, 1).map_values(|m: ApiMessage| history_entry(m)) =~= Seq::<Seq<char>>::empty());
    while i < messages.len()
        invariant
            1 <= i <= messages@.len(),
            views(parts@) == messages@.subrange(1, i as int).map_values(|m: ApiMessage| history_entry(m)),
        decreases messages@.len() - i,
    {
        let m = &messages[i];
        let r = to_chars(m.role.as_str());
        let mut v = if eq_str(r.as_slice(), "user") {
            to_chars("用户")
        } else if eq_str(r.as_slice(), "assistant") {
            to_chars("AI")
        } else {
            to_chars("系统")
        };
        push_str(&mut v, ": ");
        let c = to_chars(m.content.as_str());
        let n = if c.len() > 500 { 500 } else { c.len() };
        let p = slice_to_vec(c.as_slice(), 0, n);
        extend_chars(&mut v, p.as_slice());
        assert(p@ =~= if m.content@.len() > 500 { m.content@.take(500) } else { m.content@ });
        let ghost before = views(parts@);
        parts.push(from_chars(v.as_slice()));
        assert(views(parts@) =~= before.push(history_entry(*m)));
        assert(messages@.subrange(1, i + 1).map_values(|m: ApiMessage| history_entry(m))
            =~= messages@.subrange(1, i as int).map_values(|m: ApiMessage| history_entry(m)).push(history_entry(messages@[i as int])));
        i = i + 1;
    }
    assert(messages@.subrange(1, messages@.len() as int) =~= messages@.skip(1));
    let j = join(&parts, "\n---\n");
    from_chars(j.as_slice())
}

/// One recalled memory as shown to the model.
pub open spec fn recall_line(e: MemoryEntry) -> Seq<char> {
    "- ["@ + crate::memory::memory_type_name(e.memory_type) + "] "@ + e.content@
}

/// The recalled memories as a system message; none when nothing was found.
pub open spec fn recall_spec(es: Seq<MemoryEntry>) -> Option<Seq<char>> {
    if es.len() == 0 {
        None
    } else {
        Some("【相关记忆】\n"@ + join_spec(es.map_values(|e: MemoryEntry| recall_line(e)), "\n"@))
    }
}

/// The recalled memories `entries` as a system message.
pub fn recall_message(entries: &Vec<MemoryEntry>) -> (r: Option<String>)
    ensures
        match r {
            Some(t) => recall_spec(entries@) == Some(t@),
            None => recall_spec(entries@) is None,
        },
{
    if entries.len() == 0 {
        return None;
    }
    let mut parts: Vec<String> = Vec::new();
    let mut i: usize = 0;
    while i < entries.len()
        invariant
            i <= entries@.len(),
            views(parts@) == entries@.take(i as int).map_values(|e: MemoryEntry| recall_line(e)),
        decreases entries@.len() - i,
    {
        let e = &entries[i];
        let mut v = to_chars("- [");
        push_str(&mut v, e.memory_type.as_str());
        push_str(&mut v, "] ");
        push_str(&mut v, e.content.as_str());
        let ghost before = views(parts@);
        parts.push(from_chars(v.as_slice()));
        assert(views(parts@) =~= before.push(recall_line(*e)));
        assert(entries@.take(i + 1).map_values(|e: MemoryEntry| recall_line(e))
            =~= entries@.take(i as int).map_values(|e: MemoryEntry| recall_line(e)).push(recall_line(entries@[i as int])));
        i = i + 1;
    }
    assert(entries@.take(entries@.len() as int) =~= entries@);
    let mut v = to_chars("【相关记忆】\n");
    let j = join(&parts, "\n");
    extend_chars(&mut v, j.as_slice());
    Some(from_chars(v.as_slice()))
}

/// The skill advice shown every fifth round: none when it is only the
/// all-clear.
pub open spec fn advice_spec(suggestions: Seq<Seq<char>>) -> Option<Seq<char>> {
    if suggestions.len() > 1 || (suggestions.len() == 1 && !has_prefix(suggestions[0], "✅"@)) {
        Some("📊 进化建议:\n"@ + join_spec(suggestions, "\n"@))
    } else {
        None
    }
}

/// The skill advice message for `suggestions` (at least one, as the skill
/// engine gives).
pub fn advice_message(suggestions: &Vec<String>) -> (r: Option<String>)
    requires
        suggestions@.len() > 0,
    ensures
        match r {
            Some(t) => advice_spec(views(suggestions@)) == Some(t@),
            None => advice_spec(views(suggestions@)) is None,
        },
{
    let first = to_chars(suggestions[0].as_str());
    let ok = to_chars("✅");
    if suggestions.len() > 1 || !crate::text::starts_with(first.as_slice(), ok.as_slice()) {
        let mut v = to_chars("📊 进化建议:\n");
        let j = join(suggestions, "\n");
        extend_chars(&mut v, j.as_slice());
        Some(from_chars(v.as_slice()))
    } else {
        None
    }
}

/// The exchange remembered after a turn.
pub fn exchange_memory(user_msg: &str, reply: &str) -> (r: String)
    ensures
        r@ == "【问题】"@ + user_msg@ + "\n【回答】"@ + reply@,
{
    let mut v = to_chars("【问题】");
    push_str(&mut v, user_msg);
    push_str(&mut v, "\n【回答】");
    push_str(&mut v, reply);
    from_chars(v.as_slice())
}

/// Whether skill refinement is due after `tool_calls` tool calls.
pub fn skill_refine_due(interval: u32, tool_calls: u32, user_msg: &str) -> (r: bool)
    ensures
        r == (interval > 0 && tool_calls >= interval && user_msg@.len() > 0),
{
    interval > 0 && tool_calls >= interval && user_msg.unicode_len() > 0
}

/// Whether memory refinement is due in round `round`.
pub fn memory_refine_due(interval: u32, round: u32, reply: &str) -> (r: bool)
    ensures
        r == (interval > 0 && round % interval == 0 && reply@.len() > 0),
{
    interval > 0 && round % interval == 0 && reply.unicode_len() > 0
}

/// The summary of a reply that a reflection question refers to: its first
/// 200 characters followed by `...` when it is longer.
pub fn reflection_summary(reply: &str) -> (r: String)
    ensures
        r@ == if reply@.len() > 200 { reply@.take(200) + "..."@ } else { reply@ },
{
    let c = to_chars(reply);
    if c.len() > 200 {
        let mut v = slice_to_vec(c.as_slice(), 0, 200);
        push_str(&mut v, "...");
        from_chars(v.as_slice())
    } else {
        reply.to_owned()
    }
}

/// The reflection prompt appended to a reply in learning mode.
pub fn reflection_text(question: &str) -> (r: String)
    ensures
        r@ == "\n\n---\n🤔 **学习反思**\n"@ + question@ + "\n\n_（提示：好的反思分析\"为什么\"，而不只是总结）_"@,
{
    let mut v = to_chars("\n\n---\n🤔 **学习反思**\n");
    push_str(&mut v, question);
    push_str(&mut v, "\n\n_（提示：好的反思分析\"为什么\"，而不只是总结）_");
    from_chars(v.as_slice())
}

/// The reasons a turn stops early.
pub fn round_limit_note(max_rounds: u32) -> (r: String)
    ensures
        r@ == "工具调用次数过多（超过 "@ + decimal(max_rounds as nat) + " 轮），已终止"@,
{
    let mut v = to_chars("工具调用次数过多（超过 ");
    let d = decimal_chars(max_rounds as u64);
    extend_chars(&mut v, d.as_slice());
    push_str(&mut v, " 轮），已终止");
    from_chars(v.as_slice())
}

/// The note when the tool calls of one turn exceed the limit.
pub fn tool_call_limit_note(count: u32) -> (r: Option<String>)
    ensures
        match r {
            Some(t) => count > MAX_TOTAL_TOOL_CALLS
                && t@ == "工具调用次数过多（"@ + decimal(count as nat) + " 次），可能存在循环，已强制终止。"@,
            None => count <= MAX_TOTAL_TOOL_CALLS,
        },
{
    if count > MAX_TOTAL_TOOL_CALLS {
        let mut v = to_chars("工具调用次数过多（");
        let d = decimal_chars(count as u64);
        extend_chars(&mut v, d.as_slice());
        push_str(&mut v, " 次），可能存在循环，已强制终止。");
        Some(from_chars(v.as_slice()))
    } else {
        None
    }
}


// ---------------------------------------------------------------------------
// The rounds of a turn
// ---------------------------------------------------------------------------

/// Where a turn stands: rounds started, tool calls run, and corrections
/// sent for invalid tool calls (counted over the session).
#[derive(Debug, Clone, Copy, PartialEq, Eq, Structural)]
pub struct TurnState {
    /// Rounds started in this turn.
    pub round: u32,
    /// Tool calls run in this turn.
    pub tool_calls: u32,
    /// Corrections sent so far.
    pub corrections: u32,
}

/// What happened in a turn.
#[derive(Debug, Clone, Copy, PartialEq, Eq, Structural)]
pub enum TurnEvent {
    /// A new round is about to start.
    RoundStart,
    /// The model's tool calls were checked; whether all were valid.
    Checked { valid: bool },
    /// The learning mode's allow-list filtered the tool calls: how many
    /// there were and how many it kept.
    Filtered { before: u32, kept: u32 },
    /// The tools ran: how many results came back, and whether one of them
    /// delegated the task.
    ToolsRan { results: u32, delegated: bool },
}

/// What the turn does next.
#[derive(Debug, Clone)]
pub enum TurnAction {
    /// Stop the turn and report the note.
    Abort(String),
    /// Ask the model, showing the skill advice first when `advise`.
    AskModel { advise: bool },
    /// Send the correction of the invalid calls and start a new round.
    Correct,
    /// Run no tool this round and start a new round.
    AskAgain,
    /// Go on with this round.
    Proceed,
    /// Start a new round with the tool results.
    NextRound,
    /// End the turn with the delegated answer.
    Finish,
}

/// The next state and action of a turn after event `e`, with at most
/// `max_rounds` rounds and `max_corrections` corrections.
pub open spec fn turn_step_spec(s: TurnState, e: TurnEvent, max_rounds: u32, max_corrections: u32, r: (TurnState, TurnAction)) -> bool {
    match e {
        TurnEvent::RoundStart => {
            let n = s.round + 1;
            &&& r.0 == TurnState { round: n as u32, ..s }
            &&& if n > max_rounds {
                r.1 matches TurnAction::Abort(t) && t@ == "工具调用次数过多（超过 "@ + decimal(max_rounds as nat) + " 轮），已终止"@
            } else {
                r.1 matches TurnAction::AskModel { advise } && advise == (n % 5 == 0)
            }
        },
        TurnEvent::Checked { valid } => {
            if !valid && s.corrections < max_corrections {
                r.0 == TurnState { corrections: (s.corrections + 1) as u32, ..s } && r.1 is Correct
            } else {
                r.0 == s && r.1 is Proceed
            }
        },
        TurnEvent::Filtered { before, kept } => {
            &&& r.0 == s
            &&& if kept == 0 && before > 0 { r.1 is AskAgain } else { r.1 is Proceed }
        },
        TurnEvent::ToolsRan { results, delegated } => {
            let n = s.tool_calls + results;
            &&& r.0 == TurnState { tool_calls: n as u32, ..s }
            &&& if n > MAX_TOTAL_TOOL_CALLS {
                r.1 matches TurnAction::Abort(t) && t@ == "工具调用次数过多（"@ + decimal(n as nat) + " 次），可能存在循环，已强制终止。"@
            } else if delegated {
                r.1 is Finish
            } else {
                r.1 is NextRound
            }
        },
    }
}

/// The next state and action of a turn after event `e`: a round past
/// `max_rounds` stops the turn; invalid tool calls get a correction while
/// fewer than `max_corrections` were sent; a round whose calls the
/// allow-list all refused asks again; more than `MAX_TOTAL_TOOL_CALLS`
/// tool calls stop the turn, a delegated task ends it, other tool results
/// start a new round.
pub fn turn_step(s: TurnState, e: TurnEvent, max_rounds: u32, max_corrections: u32) -> (r: (TurnState, TurnAction))
    requires
        e is RoundStart ==> s.round < u32::MAX,
        e matches TurnEvent::ToolsRan { results, .. } ==> s.tool_calls + results <= u32::MAX,
    ensures
        turn_step_spec(s, e, max_rounds, max_corrections, r),
{
    match e {
        TurnEvent::RoundStart => {
            let n = s.round + 1;
            let t = TurnState { round: n, ..s };
            if n > max_rounds {
                (t, TurnAction::Abort(round_limit_note(max_rounds)))
            } else {
                (t, TurnAction::AskModel { advise: n % 5 == 0 })
            }
        },
        TurnEvent::Checked { valid } => {
            if !valid && s.corrections < max_corrections {
                (TurnState { corrections: s.corrections + 1, ..s }, TurnAction::Correct)
            } else {
                (s, TurnAction::Proceed)
            }
        },
        TurnEvent::Filtered { before, kept } => {
            if kept == 0 && before > 0 {
                (s, TurnAction::AskAgain)
            } else {
                (s, TurnAction::Proceed)
            }
        },
        TurnEvent::ToolsRan { results, delegated } => {
            let n = s.tool_calls + results;
            let t = TurnState { tool_calls: n, ..s };
            match tool_call_limit_note(n) {
                Some(note) => (t, TurnAction::Abort(note)),
                None => {
                    if delegated {
                        (t, TurnAction::Finish)
                    } else {
                        (t, TurnAction::NextRound)
                    }
                },
            }
        },
    }
}


/// A turn asks the model only within `max_rounds` rounds, goes on with tool
/// results only within `MAX_TOTAL_TOOL_CALLS` tool calls, and never sends
/// more than `max_corrections` corrections.
pub proof fn lemma_turn_bounded(s: TurnState, e: TurnEvent, max_rounds: u32, max_corrections: u32, r: (TurnState, TurnAction))
    requires
        s.corrections <= max_corrections,
        turn_step_spec(s, e, max_rounds, max_corrections, r),
    ensures
        r.0.corrections <= max_corrections,
        r.1 is AskModel ==> r.0.round <= max_rounds,
        (r.1 is NextRound || r.1 is Finish) ==> r.0.tool_calls <= MAX_TOTAL_TOOL_CALLS,
{
}

} // verus!
