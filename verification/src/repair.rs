//! Tool-call repair pipeline: recovering tool calls the model left in its
//! reasoning, closing truncated JSON, and suppressing call storms.

use vstd::prelude::*;
use vstd::string::{StrSliceExecFns, StringSliceAdditionalSpecFns};
use crate::json::{
    json_compact, json_compact_bytes, json_compact_bytes_spec, json_compact_spec, json_member, json_member_spec, json_string,
    json_string_spec,
};
use crate::text::{
    find, find_from, find_from_spec, first_occurrence_from, from_chars, lemma_first_occurrence_unique, occurs_at,
    slice_to_vec, to_chars, trim, trim_spec,
};

verus! {

// ---------------------------------------------------------------------------
// Repair actions
// ---------------------------------------------------------------------------

/// What a pipeline stage did.
#[derive(Debug, Clone, PartialEq)]
pub enum RepairAction {
    Flattened,
    RestoredNested,
    Scavenged(String),
    TruncationFixed,
    StormSuppressed(String),
}

// ---------------------------------------------------------------------------
// Truncation
// ---------------------------------------------------------------------------

/// Number of occurrences of `c` in `s`.
pub open spec fn count_char(s: Seq<char>, c: char) -> nat
    decreases s.len(),
{
    if s.len() == 0 {
        0
    } else {
        count_char(s.drop_last(), c) + if s.last() == c { 1nat } else { 0nat }
    }
}

/// `n` copies of `c`.
pub open spec fn repeat_char(c: char, n: nat) -> Seq<char> {
    Seq::new(n, |i: int| c)
}

/// Opening and closing counts of braces or brackets differ.
pub open spec fn is_truncated_spec(s: Seq<char>) -> bool {
    count_char(s, '{') != count_char(s, '}') || count_char(s, '[') != count_char(s, ']')
}

/// The closers `close` needed to balance the openers `open` in `s`.
pub open spec fn closers(s: Seq<char>, open: char, close: char) -> Seq<char> {
    if count_char(s, open) > count_char(s, close) {
        repeat_char(close, (count_char(s, open) - count_char(s, close)) as nat)
    } else {
        Seq::empty()
    }
}

/// The string-scanning state after `s`: (inside a string, after a backslash).
pub open spec fn quote_state(s: Seq<char>) -> (bool, bool)
    decreases s.len(),
{
    if s.len() == 0 {
        (false, false)
    } else {
        let (in_str, escaped) = quote_state(s.drop_last());
        let ch = s.last();
        if escaped {
            (in_str, false)
        } else if ch == '\\' {
            (in_str, true)
        } else if ch == '"' {
            (!in_str, false)
        } else {
            (in_str, false)
        }
    }
}

/// `s` ends inside an unclosed string literal.
pub open spec fn in_open_string_spec(s: Seq<char>) -> bool {
    quote_state(s).0
}

/// `s` with a closing quote when it ends inside a string.
pub open spec fn quote_closed(s: Seq<char>) -> Seq<char> {
    if in_open_string_spec(s) { s.push('"') } else { s }
}

/// What `TruncationRepair::repair` returns: untouched when balanced,
/// otherwise a closing quote when the text ends inside a string, then the
/// missing brackets, then the missing braces.
pub open spec fn truncation_repair_spec(s: Seq<char>) -> Seq<char> {
    if !is_truncated_spec(s) {
        s
    } else {
        let q = quote_closed(s);
        let a = q + closers(q, '[', ']');
        a + closers(a, '{', '}')
    }
}

/// Counting distributes over concatenation.
pub proof fn lemma_count_char_append(a: Seq<char>, b: Seq<char>, c: char)
    ensures
        count_char(a + b, c) == count_char(a, c) + count_char(b, c),
    decreases b.len(),
{
    if b.len() == 0 {
        assert(a + b =~= a);
    } else {
        assert((a + b).drop_last() =~= a + b.drop_last());
        lemma_count_char_append(a, b.drop_last(), c);
    }
}

/// A run of one character counts that character `n` times and no other.
pub proof fn lemma_count_repeat(c: char, n: nat, d: char)
    ensures
        count_char(repeat_char(c, n), d) == if c == d { n } else { 0 },
    decreases n,
{
    if n > 0 {
        assert(repeat_char(c, n).drop_last() =~= repeat_char(c, (n - 1) as nat));
        lemma_count_repeat(c, (n - 1) as nat, d);
    }
}

/// Appending the closers of one kind balances that kind when it had more
/// openers, and leaves the counts of every other character unchanged.
pub proof fn lemma_closers_counts(s: Seq<char>, open: char, close: char, d: char)
    requires
        open != close,
    ensures
        d != close ==> count_char(s + closers(s, open, close), d) == count_char(s, d),
        count_char(s + closers(s, open, close), close) == if count_char(s, open) > count_char(s, close) {
            count_char(s, open)
        } else {
            count_char(s, close)
        },
{
    let k = closers(s, open, close);
    lemma_count_char_append(s, k, d);
    lemma_count_char_append(s, k, close);
    if count_char(s, open) > count_char(s, close) {
        lemma_count_repeat(close, (count_char(s, open) - count_char(s, close)) as nat, d);
        lemma_count_repeat(close, (count_char(s, open) - count_char(s, close)) as nat, close);
    } else {
        assert(count_char(Seq::<char>::empty(), d) == 0);
        assert(count_char(Seq::<char>::empty(), close) == 0);
    }
}

/// Repair only appends: the original text is a prefix of the repaired text,
/// balanced text comes back unchanged, and afterwards no brace or bracket
/// has more openers than closers.
pub proof fn lemma_truncation_repair(s: Seq<char>)
    ensures
        truncation_repair_spec(s).take(s.len() as int) == s,
        s.len() <= truncation_repair_spec(s).len(),
        !is_truncated_spec(s) ==> truncation_repair_spec(s) == s,
        count_char(truncation_repair_spec(s), '{') <= count_char(truncation_repair_spec(s), '}'),
        count_char(truncation_repair_spec(s), '[') <= count_char(truncation_repair_spec(s), ']'),
{
    if is_truncated_spec(s) {
        let q = quote_closed(s);
        let a = q + closers(q, '[', ']');
        let b = a + closers(a, '{', '}');
        if in_open_string_spec(s) {
            assert(s.push('"') =~= s + seq!['"']);
            lemma_count_char_append(s, seq!['"'], '{');
            lemma_count_char_append(s, seq!['"'], '}');
            lemma_count_char_append(s, seq!['"'], '[');
            lemma_count_char_append(s, seq!['"'], ']');
            reveal_with_fuel(count_char, 2);
        }
        lemma_closers_counts(q, '[', ']', '[');
        lemma_closers_counts(a, '{', '}', '{');
        lemma_closers_counts(q, '[', ']', '{');
        lemma_closers_counts(q, '[', ']', '}');
        lemma_closers_counts(q, '[', ']', ']');
        lemma_closers_counts(a, '{', '}', '}');
        lemma_closers_counts(a, '{', '}', '[');
        lemma_closers_counts(a, '{', '}', ']');
        assert(b.take(s.len() as int) =~= s);
    } else {
        assert(s.take(s.len() as int) =~= s);
    }
}

/// Number of occurrences of `c` in `s`.
fn count_in(s: &[char], c: char) -> (n: usize)
    ensures
        n == count_char(s@, c),
{
    let mut n: usize = 0;
    let mut i: usize = 0;
    while i < s.len()
        invariant
            i <= s@.len(),
            n == count_char(s@.take(i as int), c),
            n <= i,
        decreases s@.len() - i,
    {
        proof {
            assert(s@.take(i + 1).drop_last() =~= s@.take(i as int));
        }
        if s[i] == c {
            n = n + 1;
        }
        i = i + 1;
    }
    assert(s@.take(s@.len() as int) =~= s@);
    n
}

/// Appends `n` copies of `c`.
fn push_repeat(v: &mut Vec<char>, c: char, n: usize)
    ensures
        final(v)@ == old(v)@ + repeat_char(c, n as nat),
{
    let mut k: usize = 0;
    while k < n
        invariant
            k <= n,
            v@ == old(v)@ + repeat_char(c, k as nat),
        decreases n - k,
    {
        v.push(c);
        k = k + 1;
        assert(v@ =~= old(v)@ + repeat_char(c, k as nat));
    }
}

/// Closer of JSON fragments cut off by the token limit.
pub struct TruncationRepair;

impl TruncationRepair {
    /// Closes what a truncation left open: a `"` when the text ends inside
    /// a string, then the missing `]`, then the missing `}`. Balanced text is
    /// returned unchanged.
    pub fn repair(text: &str) -> (r: String)
        ensures
            r@ == truncation_repair_spec(text@),
    {
        let v = to_chars(text);
        if !Self::is_truncated(text) {
            return text.to_owned();
        }
        let mut result = v.clone();
        Self::close_quotes(&mut result);
        Self::close_brackets(&mut result);
        Self::close_braces(&mut result);
        from_chars(result.as_slice())
    }

    /// Whether the braces or the brackets of `text` are unbalanced.
    pub fn is_truncated(text: &str) -> (r: bool)
        ensures
            r == is_truncated_spec(text@),
    {
        let v = to_chars(text);
        let ob = count_in(v.as_slice(), '{');
        let cb = count_in(v.as_slice(), '}');
        let os = count_in(v.as_slice(), '[');
        let cs = count_in(v.as_slice(), ']');
        ob != cb || os != cs
    }

    /// Appends the `}` missing for the `{` in `v`.
    pub fn close_braces(v: &mut Vec<char>)
        ensures
            final(v)@ == old(v)@ + closers(old(v)@, '{', '}'),
    {
        let opens = count_in(v.as_slice(), '{');
        let closes = count_in(v.as_slice(), '}');
        if opens > closes {
            push_repeat(v, '}', opens - closes);
        } else {
            assert(v@ =~= v@ + Seq::<char>::empty());
        }
    }

    /// Appends the `]` missing for the `[` in `v`.
    pub fn close_brackets(v: &mut Vec<char>)
        ensures
            final(v)@ == old(v)@ + closers(old(v)@, '[', ']'),
    {
        let opens = count_in(v.as_slice(), '[');
        let closes = count_in(v.as_slice(), ']');
        if opens > closes {
            push_repeat(v, ']', opens - closes);
        } else {
            assert(v@ =~= v@ + Seq::<char>::empty());
        }
    }

    /// Appends `"` when `v` ends inside a string literal.
    pub fn close_quotes(v: &mut Vec<char>)
        ensures
            final(v)@ == if in_open_string_spec(old(v)@) { old(v)@.push('"') } else { old(v)@ },
    {
        if Self::in_open_string(v.as_slice()) {
            v.push('"');
        }
    }

    /// Whether `s` ends inside a string literal, honouring backslash escapes.
    pub fn in_open_string(s: &[char]) -> (r: bool)
        ensures
            r == in_open_string_spec(s@),
    {
        let mut in_str = false;
        let mut escaped = false;
        let mut i: usize = 0;
        while i < s.len()
            invariant
                i <= s@.len(),
                (in_str, escaped) == quote_state(s@.take(i as int)),
            decreases s@.len() - i,
        {
            proof {
                assert(s@.take(i + 1).drop_last() =~= s@.take(i as int));
            }
            let ch = s[i];
            if escaped {
                escaped = false;
            } else if ch == '\\' {
                escaped = true;
            } else if ch == '"' {
                in_str = !in_str;
            }
            i = i + 1;
        }
        assert(s@.take(s@.len() as int) =~= s@);
        in_str
    }
}

// ---------------------------------------------------------------------------
// Scavenging tool calls from text
// ---------------------------------------------------------------------------

/// `find_from_spec` gives the first occurrence when it gives one.
pub proof fn lemma_find_from_some(s: Seq<char>, pat: Seq<char>, from: int, i: int)
    requires
        find_from_spec(s, pat, from) == Some(i),
    ensures
        first_occurrence_from(s, pat, from, i),
{
}

/// The next text between `open` and `close` at or after `pos`: where it
/// starts and where it ends.
pub open spec fn next_segment(s: Seq<char>, open: Seq<char>, close: Seq<char>, pos: int) -> Option<(int, int)> {
    match find_from_spec(s, open, pos) {
        None => None,
        Some(st) => match find_from_spec(s, close, st + open.len()) {
            None => None,
            Some(e) => Some((st + open.len(), e)),
        },
    }
}

/// The trimmed texts between `open` and `close`, scanning from `pos`: each
/// `close` is looked for after its `open`, and the scan goes on after it.
pub open spec fn segments_from(s: Seq<char>, open: Seq<char>, close: Seq<char>, pos: int) -> Seq<Seq<char>>
    decreases s.len() - pos,
{
    if open.len() == 0 || close.len() == 0 || pos < 0 || pos > s.len() {
        Seq::empty()
    } else {
        match next_segment(s, open, close, pos) {
            None => Seq::empty(),
            Some(ae) => {
                proof {
                    let st = find_from_spec(s, open, pos)->Some_0;
                    lemma_find_from_some(s, open, pos, st);
                    lemma_find_from_some(s, close, st + open.len(), ae.1);
                }
                seq![trim_spec(s.subrange(ae.0, ae.1))] + segments_from(s, open, close, ae.1 + close.len())
            },
        }
    }
}

/// The trimmed texts between `open` and `close` in `s`, left to right.
pub fn tagged_segments(s: &[char], open: &[char], close: &[char]) -> (r: Vec<Vec<char>>)
    ensures
        r@.map_values(|v: Vec<char>| v@) == segments_from(s@, open@, close@, 0),
{
    let mut r: Vec<Vec<char>> = Vec::new();
    if open.len() == 0 || close.len() == 0 {
        return r;
    }
    let mut pos: usize = 0;
    while pos <= s.len()
        invariant
            open@.len() > 0,
            close@.len() > 0,
            r@.map_values(|v: Vec<char>| v@) + segments_from(s@, open@, close@, pos as int)
                == segments_from(s@, open@, close@, 0),
        decreases s@.len() + 1 - pos,
    {
        let ghost before = r@.map_values(|v: Vec<char>| v@);
        match find_from(s, open, pos) {
            None => {
                proof {
                    if exists|k: int| first_occurrence_from(s@, open@, pos as int, k) {
                        let k = choose|k: int| first_occurrence_from(s@, open@, pos as int, k);
                        assert(occurs_at(s@, open@, k));
                    }
                    assert(segments_from(s@, open@, close@, pos as int) =~= Seq::<Seq<char>>::empty());
                    assert(before + Seq::<Seq<char>>::empty() =~= before);
                }
                return r;
            },
            Some(st) => {
                proof {
                    let k = choose|k: int| first_occurrence_from(s@, open@, pos as int, k);
                    lemma_first_occurrence_unique(s@, open@, pos as int, k, st as int);
                }
                let a = st + open.len();
                match find_from(s, close, a) {
                    None => {
                        proof {
                            if exists|k: int| first_occurrence_from(s@, close@, a as int, k) {
                                let k = choose|k: int| first_occurrence_from(s@, close@, a as int, k);
                                assert(occurs_at(s@, close@, k));
                            }
                            assert(segments_from(s@, open@, close@, pos as int) =~= Seq::<Seq<char>>::empty());
                            assert(before + Seq::<Seq<char>>::empty() =~= before);
                        }
                        return r;
                    },
                    Some(e) => {
                        proof {
                            let k = choose|k: int| first_occurrence_from(s@, close@, a as int, k);
                            lemma_first_occurrence_unique(s@, close@, a as int, k, e as int);
                        }
                        let seg = slice_to_vec(s, a, e);
                        let t = trim(seg.as_slice());
                        r.push(t);
                        let next = e + close.len();
                        assert(segments_from(s@, open@, close@, pos as int)
                            =~= seq![trim_spec(s@.subrange(a as int, e as int))] + segments_from(s@, open@, close@, next as int));
                        assert(r@.map_values(|v: Vec<char>| v@) =~= before.push(trim_spec(s@.subrange(a as int, e as int))));
                        assert(r@.map_values(|v: Vec<char>| v@) + segments_from(s@, open@, close@, next as int)
                            =~= before + segments_from(s@, open@, close@, pos as int));
                        pos = next;
                    },
                }
            },
        }
    }
    proof {
        assert(segments_from(s@, open@, close@, pos as int) =~= Seq::<Seq<char>>::empty());
        assert(r@.map_values(|v: Vec<char>| v@) + Seq::<Seq<char>>::empty() =~= r@.map_values(|v: Vec<char>| v@));
    }
    r
}

/// The text between the first `<think>` and the next `</think>`, if both
/// are there.
pub open spec fn think_block_spec(s: Seq<char>) -> Option<Seq<char>> {
    match find_from_spec(s, "<think>"@, 0) {
        None => None,
        Some(st) => {
            let c = s.skip(st + 7);
            match find_from_spec(c, "</think>"@, 0) {
                None => None,
                Some(e) => Some(c.take(e)),
            }
        },
    }
}

/// The text between the first `<think>` and the next `</think>`.
pub fn think_block(s: &[char]) -> (r: Option<Vec<char>>)
    ensures
        match r {
            Some(v) => think_block_spec(s@) == Some(v@),
            None => think_block_spec(s@) is None,
        },
{
    proof {
        reveal_strlit("<think>");
    }
    let open = to_chars("<think>");
    let close = to_chars("</think>");
    match find(s, open.as_slice()) {
        None => {
            proof {
                if exists|k: int| first_occurrence_from(s@, open@, 0, k) {
                    let k = choose|k: int| first_occurrence_from(s@, open@, 0, k);
                    assert(occurs_at(s@, open@, k));
                }
            }
            None
        },
        Some(st) => {
            proof {
                let k = choose|k: int| first_occurrence_from(s@, open@, 0, k);
                lemma_first_occurrence_unique(s@, open@, 0, k, st as int);
                assert(open@.len() == 7);
                assert(occurs_at(s@, open@, st as int));
            }
            let n = s.len();
            assert(st + 7 <= n);
            let c = slice_to_vec(s, st + 7, n);
            assert(c@ =~= s@.skip(st + 7));
            match find(c.as_slice(), close.as_slice()) {
                None => {
                    proof {
                        if exists|k: int| first_occurrence_from(c@, close@, 0, k) {
                            let k = choose|k: int| first_occurrence_from(c@, close@, 0, k);
                            assert(occurs_at(c@, close@, k));
                        }
                    }
                    None
                },
                Some(e) => {
                    proof {
                        let k = choose|k: int| first_occurrence_from(c@, close@, 0, k);
                        lemma_first_occurrence_unique(c@, close@, 0, k, e as int);
                    }
                    let b = slice_to_vec(c.as_slice(), 0, e);
                    assert(b@ =~= c@.take(e as int));
                    Some(b)
                },
            }
        },
    }
}

/// A tool call recovered or passed by the pipeline.
#[derive(Debug, Clone)]
pub struct RepairedToolCall {
    /// Call id.
    pub id: String,
    /// Tool name.
    pub name: String,
    /// Arguments, as compact JSON text.
    pub arguments: String,
}

/// The outcome of the repair pipeline on one model response.
#[derive(Debug, Clone)]
pub struct RepairedResponse {
    /// The repaired text.
    pub content: Option<String>,
    /// The tool calls found and let through.
    pub tool_calls: Vec<RepairedToolCall>,
    /// Whether a reflection turn is due because calls were suppressed.
    pub injected_reflection: bool,
    /// What each stage did.
    pub actions: Vec<RepairAction>,
}

/// Flattening of nested arguments into dotted keys and back; the work on
/// JSON trees is done by the caller.
pub struct FlattenRepair;

/// Recovery of tool calls that the model wrote into its text.
pub struct ScavengeRepair;

/// A tool call as text: id, tool name and JSON arguments.
pub type CallText = (Seq<char>, Seq<char>, Seq<char>);

/// The call `c` as text.
pub open spec fn call_text(c: RepairedToolCall) -> CallText {
    (c.id@, c.name@, c.arguments@)
}

/// The calls `cs` as text.
pub open spec fn calls_text(cs: Seq<RepairedToolCall>) -> Seq<CallText> {
    cs.map_values(|c: RepairedToolCall| call_text(c))
}

/// The arguments a call carries for its JSON member `arguments`, given as
/// the compact text `av`: a JSON string is read as JSON text (an empty
/// object when it does not read), any other value is kept.
pub open spec fn args_of(av: Seq<char>) -> Seq<char> {
    match json_string_spec(av) {
        Some(t) => match json_compact_spec(t) {
            Some(c) => c,
            None => "{}"@,
        },
        None => av,
    }
}

/// The tool call that the JSON text `v` describes, as tool name and
/// arguments: `v` is an object with a string member `name` and a member
/// `arguments`.
pub open spec fn tool_call_spec(v: Seq<char>) -> Option<(Seq<char>, Seq<char>)> {
    match json_member_spec(v, "name"@) {
        None => None,
        Some(nv) => match json_string_spec(nv) {
            None => None,
            Some(name) => match json_member_spec(v, "arguments"@) {
                None => None,
                Some(av) => Some((name, args_of(av))),
            },
        },
    }
}

/// The recovered call for what `tool_call_spec` gave: none, or one with the
/// id `scavenged_` and its name.
pub open spec fn found_calls(p: Option<(Seq<char>, Seq<char>)>) -> Seq<CallText> {
    match p {
        Some(q) => seq![("scavenged_"@ + q.0, q.0, q.1)],
        None => Seq::empty(),
    }
}

/// The calls described by the JSON texts `ts`, in order.
pub open spec fn segment_calls(ts: Seq<Seq<char>>) -> Seq<CallText>
    decreases ts.len(),
{
    if ts.len() == 0 {
        Seq::empty()
    } else {
        segment_calls(ts.drop_last()) + found_calls(tool_call_spec(ts.last()))
    }
}

/// The calls found by scanning the bytes `b` for JSON objects from `pos`;
/// `fresh` when the scan has just been placed at `pos`, which must then
/// start a character. From each `{` the rest is read as one JSON value;
/// after a value the scan skips its compact length (at least one byte), after
/// a failure one byte. It stops where a skip leaves the bytes or splits a
/// character.
pub open spec fn scan_spec(b: Seq<u8>, pos: int, fresh: bool) -> Seq<CallText>
    decreases b.len() - pos,
{
    if pos < 0 || pos >= b.len() {
        Seq::empty()
    } else if fresh && 0x80 <= b[pos] && b[pos] < 0xC0 {
        Seq::empty()
    } else if b[pos] != 0x7B {
        scan_spec(b, pos + 1, false)
    } else {
        match json_compact_bytes_spec(b.skip(pos)) {
            None => scan_spec(b, pos + 1, true),
            Some(v) => {
                let step: int = if crate::text::ulen(v) == 0 { 1 } else { crate::text::ulen(v) as int };
                found_calls(tool_call_spec(v)) + if step > b.len() - pos {
                    Seq::empty()
                } else {
                    scan_spec(b, pos + step, true)
                }
            },
        }
    }
}

/// The calls scavenged from `s`: those in `<tool_call>` blocks, then those
/// in JSON code blocks, then the JSON objects of the thinking block.
pub open spec fn scavenge_spec(s: Seq<char>) -> Seq<CallText> {
    segment_calls(segments_from(s, "<tool_call>"@, "</tool_call>"@, 0))
        + segment_calls(segments_from(s, "```json"@, "```"@, 0))
        + match think_block_spec(s) {
            Some(t) => scan_spec(vstd::utf8::encode_utf8(t), 0, true),
            None => Seq::empty(),
        }
}

impl ScavengeRepair {
    /// The tool call that the JSON text `val` describes: a `name` string and
    /// `arguments`, given as a value or as JSON text (text that does not read
    /// gives an empty object).
    pub fn parse_tool_call(val: &str) -> (r: Option<RepairedToolCall>)
        ensures
            match r {
                Some(c) => tool_call_spec(val@) == Some((c.name@, c.arguments@))
                    && c.id@ == "scavenged_"@ + c.name@,
                None => tool_call_spec(val@) is None,
            },
    {
        let name_v = match json_member(val, "name") {
            Some(v) => v,
            None => {
                return None;
            },
        };
        let name = match json_string(name_v.as_str()) {
            Some(n) => n,
            None => {
                return None;
            },
        };
        let args = match json_member(val, "arguments") {
            Some(a) => a,
            None => {
                return None;
            },
        };
        let arguments = match json_string(args.as_str()) {
            Some(t) => match json_compact(t.as_str()) {
                Some(c) => c,
                None => "{}".to_string(),
            },
            None => args,
        };
        let mut id = to_chars("scavenged_");
        crate::text::push_str(&mut id, name.as_str());
        Some(RepairedToolCall { id: from_chars(id.as_slice()), name, arguments })
    }

    /// Tool calls in the JSON texts of `segs`, in order, appended to `found`.
    fn calls_in(segs: &Vec<Vec<char>>, found: &mut Vec<RepairedToolCall>)
        ensures
            calls_text(final(found)@) == calls_text(old(found)@) + segment_calls(segs@.map_values(|v: Vec<char>| v@)),
    {
        let ghost sv = segs@.map_values(|v: Vec<char>| v@);
        let mut i: usize = 0;
        assert(sv.take(0) =~= Seq::<Seq<char>>::empty());
        assert(calls_text(found@) + segment_calls(sv.take(0)) =~= calls_text(found@));
        while i < segs.len()
            invariant
                i <= segs@.len(),
                sv == segs@.map_values(|v: Vec<char>| v@),
                calls_text(found@) == calls_text(old(found)@) + segment_calls(sv.take(i as int)),
            decreases segs@.len() - i,
        {
            let t = from_chars(segs[i].as_slice());
            assert(sv.take(i + 1).drop_last() =~= sv.take(i as int));
            assert(sv.take(i + 1).last() == t@);
            let ghost before = calls_text(found@);
            let ghost here = found_calls(tool_call_spec(t@));
            match Self::parse_tool_call(t.as_str()) {
                Some(call) => {
                    let ghost ct = call_text(call);
                    found.push(call);
                    assert(calls_text(found@) =~= before.push(ct));
                    assert(here =~= seq![ct]);
                },
                None => {},
            }
            assert(calls_text(found@) =~= before + here);
            assert(calls_text(old(found)@) + segment_calls(sv.take(i + 1))
                =~= (calls_text(old(found)@) + segment_calls(sv.take(i as int))) + here);
            i = i + 1;
        }
        assert(sv.take(segs@.len() as int) =~= sv);
    }

    /// Tool calls in the JSON objects of `text` (see `scan_spec`), appended
    /// to `found`.
    fn scan_json_objects(text: &str, found: &mut Vec<RepairedToolCall>)
        ensures
            calls_text(final(found)@) == calls_text(old(found)@) + scan_spec(vstd::utf8::encode_utf8(text@), 0, true),
    {
        let b = text.as_bytes();
        assert(text.spec_bytes() == vstd::utf8::encode_utf8(text@));
        let n = b.len();
        let ghost total = calls_text(old(found)@) + scan_spec(b@, 0, true);
        let mut pos: usize = 0;
        let mut fresh = true;
        while pos < n
            invariant
                n == b@.len(),
                pos <= n,
                b@ == vstd::utf8::encode_utf8(text@),
                total == calls_text(old(found)@) + scan_spec(b@, 0, true),
                calls_text(found@) + scan_spec(b@, pos as int, fresh) == total,
            decreases n - pos,
        {
            let ghost before = calls_text(found@);
            if fresh && b[pos] >= 0x80 && b[pos] < 0xC0 {
                assert(before + scan_spec(b@, pos as int, fresh) =~= before);
                return;
            }
            if b[pos] != 0x7B {
                pos = pos + 1;
                fresh = false;
            } else {
                let mut rest: Vec<u8> = Vec::new();
                let mut k = pos;
                while k < n
                    invariant
                        pos <= k <= n,
                        n == b@.len(),
                        rest@ == b@.subrange(pos as int, k as int),
                    decreases n - k,
                {
                    rest.push(b[k]);
                    k = k + 1;
                    assert(rest@ =~= b@.subrange(pos as int, k as int));
                }
                assert(rest@ =~= b@.skip(pos as int));
                match json_compact_bytes(rest.as_slice()) {
                    None => {
                        pos = pos + 1;
                        fresh = true;
                    },
                    Some(v) => {
                        let ghost here = found_calls(tool_call_spec(v@));
                        match Self::parse_tool_call(v.as_str()) {
                            Some(call) => {
                                let ghost ct = call_text(call);
                                found.push(call);
                                assert(calls_text(found@) =~= before.push(ct));
                                assert(here =~= seq![ct]);
                            },
                            None => {},
                        }
                        assert(calls_text(found@) =~= before + here);
                        let vs = v.as_str();
                        let vb = vs.as_bytes();
                        assert(vs.spec_bytes() == vstd::utf8::encode_utf8(vs@));
                        let len = vb.len();
                        let step = if len == 0 { 1 } else { len };
                        if step > n - pos {
                            assert(before + scan_spec(b@, pos as int, fresh) =~= before + here);
                            return;
                        }
                        let ghost next = scan_spec(b@, pos + step, true);
                        assert(before + scan_spec(b@, pos as int, fresh) =~= (before + here) + next);
                        pos = pos + step;
                        fresh = true;
                    },
                }
            }
        }
        assert(scan_spec(b@, pos as int, fresh) =~= Seq::<CallText>::empty());
        assert(calls_text(found@) + Seq::<CallText>::empty() =~= calls_text(found@));
    }

    /// The text between `<think>` and `</think>`, if any.
    pub fn extract_think_block(text: &str) -> (r: Option<String>)
        ensures
            match r {
                Some(t) => think_block_spec(text@) == Some(t@),
                None => think_block_spec(text@) is None,
            },
    {
        let c = to_chars(text);
        match think_block(c.as_slice()) {
            Some(v) => Some(from_chars(v.as_slice())),
            None => None,
        }
    }

    /// Tool calls the model left in `text`: inside `<tool_call>` tags, in
    /// JSON code blocks, and as JSON objects in the thinking block, in that
    /// order. Text with none of these gives none.
    pub fn scavenge(text: &str) -> (r: Vec<RepairedToolCall>)
        ensures
            calls_text(r@) == scavenge_spec(text@),
    {
        let c = to_chars(text);
        let mut found: Vec<RepairedToolCall> = Vec::new();
        let t1 = to_chars("<tool_call>");
        let t2 = to_chars("</tool_call>");
        let s1 = tagged_segments(c.as_slice(), t1.as_slice(), t2.as_slice());
        assert(calls_text(found@) =~= Seq::<CallText>::empty());
        Self::calls_in(&s1, &mut found);
        let j1 = to_chars("```json");
        let j2 = to_chars("```");
        let s2 = tagged_segments(c.as_slice(), j1.as_slice(), j2.as_slice());
        Self::calls_in(&s2, &mut found);
        let ghost f2 = calls_text(found@);
        let ghost a = segment_calls(segments_from(text@, "<tool_call>"@, "</tool_call>"@, 0));
        let ghost bb = segment_calls(segments_from(text@, "```json"@, "```"@, 0));
        assert(f2 =~= a + bb);
        match Self::extract_think_block(text) {
            Some(t) => {
                Self::scan_json_objects(t.as_str(), &mut found);
            },
            None => {
                assert(f2 + Seq::<CallText>::empty() =~= f2);
            },
        }
        found
    }
}

// ---------------------------------------------------------------------------
// Storm suppression
// ---------------------------------------------------------------------------

/// A point in time of the monotonic clock, carried through unchanged.
#[verifier::external_type_specification]
#[verifier::external_body]
pub struct ExInstant(std::time::Instant);

/// The current instant of the monotonic clock (`Instant::now`); nothing is
/// stated of it.
#[verifier::external_body]
fn instant_now() -> std::time::Instant {
    std::time::Instant::now()
}

/// Nanoseconds elapsed since `origin` (`Instant::elapsed`); nothing is
/// stated of them: they depend on the clock.
#[verifier::external_body]
fn nanos_since(origin: &std::time::Instant) -> u128 {
    origin.elapsed().as_nanos()
}

/// A history entry as text: tool, argument signature, time in nanoseconds.
pub type HistoryEntry = (Seq<char>, Seq<char>, u128);

/// The text of a history.
pub open spec fn hist_view(h: Seq<(String, String, u128)>) -> Seq<HistoryEntry> {
    h.map_values(|e: (String, String, u128)| (e.0@, e.1@, e.2))
}

/// A call made at `t` is still inside the window of `window_secs` seconds
/// at `now` (no time passes when `t` is later than `now`).
pub open spec fn in_window(t: u128, now: u128, window_secs: u64) -> bool {
    (if now >= t { now - t } else { 0 }) < window_secs * 1_000_000_000
}

/// The entries of `h` still inside the window at `now`, in order.
pub open spec fn retained(h: Seq<HistoryEntry>, now: u128, window_secs: u64) -> Seq<HistoryEntry>
    decreases h.len(),
{
    if h.len() == 0 {
        Seq::empty()
    } else {
        let r = retained(h.drop_last(), now, window_secs);
        if in_window(h.last().2, now, window_secs) { r.push(h.last()) } else { r }
    }
}

/// When every entry of `h` is still inside the window at `now`, expiry
/// keeps the whole history, so the storm rule then counts every recorded
/// call.
pub proof fn lemma_nothing_expires(h: Seq<HistoryEntry>, now: u128, window_secs: u64)
    requires
        forall|i: int| 0 <= i < h.len() ==> in_window(#[trigger] h[i].2, now, window_secs),
    ensures
        retained(h, now, window_secs) == h,
    decreases h.len(),
{
    if h.len() > 0 {
        assert forall|i: int| 0 <= i < h.drop_last().len() implies in_window(#[trigger] h.drop_last()[i].2, now, window_secs) by {
            assert(h.drop_last()[i] == h[i]);
        }
        lemma_nothing_expires(h.drop_last(), now, window_secs);
        assert(in_window(h[h.len() - 1].2, now, window_secs));
        assert(h.drop_last().push(h.last()) =~= h);
    }
}

/// Entries of `h` for tool `name` with signature `sig`.
pub open spec fn count_matching(h: Seq<HistoryEntry>, name: Seq<char>, sig: Seq<char>) -> nat
    decreases h.len(),
{
    if h.len() == 0 {
        0
    } else {
        count_matching(h.drop_last(), name, sig) + if h.last().0 == name && h.last().1 == sig { 1nat } else { 0nat }
    }
}

/// The history after the first `n` calls (tools `names`, signatures
/// `sigs`) at `now`, and which of them passed: a call passes when fewer
/// than `max` entries match it, and is then recorded.
pub open spec fn storm_run(h: Seq<HistoryEntry>, names: Seq<Seq<char>>, sigs: Seq<Seq<char>>, now: u128, max: u32, n: int) -> (Seq<HistoryEntry>, Seq<bool>)
    decreases n,
{
    if n <= 0 {
        (h, Seq::empty())
    } else {
        let p = storm_run(h, names, sigs, now, max, n - 1);
        if count_matching(p.0, names[n - 1], sigs[n - 1]) >= max {
            (p.0, p.1.push(false))
        } else {
            (p.0.push((names[n - 1], sigs[n - 1], now)), p.1.push(true))
        }
    }
}

/// The calls of `cs` whose flag in `pass` is set, in order, among the first `n`.
pub open spec fn passed<T>(cs: Seq<T>, pass: Seq<bool>, n: int) -> Seq<T>
    decreases n,
{
    if n <= 0 {
        Seq::empty()
    } else {
        let r = passed(cs, pass, n - 1);
        if pass[n - 1] { r.push(cs[n - 1]) } else { r }
    }
}

/// Number of unset flags among the first `n` of `pass`.
pub open spec fn blocked(pass: Seq<bool>, n: int) -> nat
    decreases n,
{
    if n <= 0 { 0 } else { blocked(pass, n - 1) + if pass[n - 1] { 0nat } else { 1nat } }
}

/// The tool names of the calls `cs`.
pub open spec fn call_names(cs: Seq<RepairedToolCall>) -> Seq<Seq<char>> {
    cs.map_values(|c: RepairedToolCall| c.name@)
}

/// What the storm suppressor with history `h`, window `window_secs` and
/// `max` repeats does at `now` with the calls `cs`, each signed by its
/// arguments: the history after, and which calls passed.
pub open spec fn storm_of(h: Seq<HistoryEntry>, cs: Seq<CallText>, now: u128, window_secs: u64, max: u32)
    -> (Seq<HistoryEntry>, Seq<bool>)
{
    storm_run(retained(h, now, window_secs), cs.map_values(|c: CallText| c.1), cs.map_values(|c: CallText| c.2),
        now, max, cs.len() as int)
}

/// The calls `cs` pairwise differ in tool or arguments.
pub open spec fn distinct_calls(cs: Seq<CallText>) -> bool {
    forall|i: int, j: int| 0 <= i < j < cs.len() ==> ((#[trigger] cs[i]).1, cs[i].2) != ((#[trigger] cs[j]).1, cs[j].2)
}

/// No entry of `h` is for tool `name` with signature `sig`.
proof fn lemma_count_none(h: Seq<HistoryEntry>, name: Seq<char>, sig: Seq<char>)
    requires
        forall|k: int| 0 <= k < h.len() ==> ((#[trigger] h[k]).0, h[k].1) != (name, sig),
    ensures
        count_matching(h, name, sig) == 0,
    decreases h.len(),
{
    if h.len() > 0 {
        lemma_count_none(h.drop_last(), name, sig);
    }
}

/// From an empty history, calls that pairwise differ all pass and are all
/// recorded.
proof fn lemma_distinct_run(names: Seq<Seq<char>>, sigs: Seq<Seq<char>>, now: u128, max: u32, n: int)
    requires
        0 <= n <= names.len(),
        names.len() == sigs.len(),
        max >= 1,
        forall|i: int, j: int| 0 <= i < j < names.len() ==> ((#[trigger] names[i]), sigs[i]) != ((#[trigger] names[j]), sigs[j]),
    ensures
        storm_run(Seq::empty(), names, sigs, now, max, n).0
            == Seq::new(n as nat, |k: int| (names[k], sigs[k], now)),
        storm_run(Seq::empty(), names, sigs, now, max, n).1 == Seq::new(n as nat, |k: int| true),
    decreases n,
{
    if n > 0 {
        lemma_distinct_run(names, sigs, now, max, n - 1);
        let h = Seq::new((n - 1) as nat, |k: int| (names[k], sigs[k], now));
        assert forall|k: int| 0 <= k < h.len() implies ((#[trigger] h[k]).0, h[k].1) != (names[n - 1], sigs[n - 1]) by {
            assert(h[k] == (names[k], sigs[k], now));
        }
        lemma_count_none(h, names[n - 1], sigs[n - 1]);
        assert(h.push((names[n - 1], sigs[n - 1], now)) =~= Seq::new(n as nat, |k: int| (names[k], sigs[k], now)));
        assert(Seq::new((n - 1) as nat, |k: int| true).push(true) =~= Seq::new(n as nat, |k: int| true));
    }
}

/// With every flag set, the first `n` calls all pass and none is blocked.
proof fn lemma_all_pass<T>(cs: Seq<T>, pass: Seq<bool>, n: int)
    requires
        0 <= n <= cs.len(),
        n <= pass.len(),
        forall|k: int| 0 <= k < n ==> #[trigger] pass[k],
    ensures
        passed(cs, pass, n) == cs.take(n),
        blocked(pass, n) == 0,
    decreases n,
{
    if n > 0 {
        lemma_all_pass(cs, pass, n - 1);
        assert(cs.take(n - 1).push(cs[n - 1]) =~= cs.take(n));
    } else {
        assert(cs.take(0) =~= Seq::<T>::empty());
    }
}

/// A suppressor that remembers no call and allows at least one repeat lets
/// through, in order, every call of a batch whose calls pairwise differ in
/// tool or arguments, and suppresses none.
pub proof fn lemma_distinct_calls_pass(cs: Seq<CallText>, now: u128, window_secs: u64, max: u32)
    requires
        max >= 1,
        distinct_calls(cs),
    ensures
        passed(cs, storm_of(Seq::empty(), cs, now, window_secs, max).1, cs.len() as int) == cs,
        blocked(storm_of(Seq::empty(), cs, now, window_secs, max).1, cs.len() as int) == 0,
{
    let names = cs.map_values(|c: CallText| c.1);
    let sigs = cs.map_values(|c: CallText| c.2);
    assert(retained(Seq::<HistoryEntry>::empty(), now, window_secs) =~= Seq::<HistoryEntry>::empty());
    assert forall|i: int, j: int| 0 <= i < j < names.len() implies ((#[trigger] names[i]), sigs[i]) != ((#[trigger] names[j]), sigs[j]) by {
        assert(names[i] == cs[i].1 && sigs[i] == cs[i].2);
        assert(names[j] == cs[j].1 && sigs[j] == cs[j].2);
    }
    lemma_distinct_run(names, sigs, now, max, cs.len() as int);
    let pass = storm_of(Seq::empty(), cs, now, window_secs, max).1;
    assert(pass == Seq::new(cs.len(), |k: int| true));
    lemma_all_pass(cs, pass, cs.len() as int);
    assert(cs.take(cs.len() as int) =~= cs);
}

/// The flag of call `i` does not change as later calls are judged.
proof fn lemma_run_flag_stable(h: Seq<HistoryEntry>, names: Seq<Seq<char>>, sigs: Seq<Seq<char>>, now: u128, max: u32, n: int, i: int)
    requires
        0 <= i < n,
    ensures
        storm_run(h, names, sigs, now, max, n).1[i] == storm_run(h, names, sigs, now, max, i + 1).1[i],
    decreases n,
{
    if n > i + 1 {
        lemma_run_flag_stable(h, names, sigs, now, max, n - 1, i);
        lemma_storm_run_len(h, names, sigs, now, max, n - 1);
    }
}

/// A call that passed is in the history from then on.
proof fn lemma_run_records(h: Seq<HistoryEntry>, names: Seq<Seq<char>>, sigs: Seq<Seq<char>>, now: u128, max: u32, n: int, i: int)
    requires
        0 <= i < n,
        storm_run(h, names, sigs, now, max, n).1[i],
    ensures
        storm_run(h, names, sigs, now, max, n).0.contains((names[i], sigs[i], now)),
    decreases n,
{
    let p = storm_run(h, names, sigs, now, max, n - 1);
    lemma_storm_run_len(h, names, sigs, now, max, n - 1);
    if i == n - 1 {
        assert(storm_run(h, names, sigs, now, max, n).0 == p.0.push((names[i], sigs[i], now)));
        assert(p.0.push((names[i], sigs[i], now)).last() == (names[i], sigs[i], now));
    } else {
        assert(storm_run(h, names, sigs, now, max, n).1[i] == p.1[i]);
        lemma_run_records(h, names, sigs, now, max, n - 1, i);
        let k = choose|k: int| 0 <= k < p.0.len() && p.0[k] == (names[i], sigs[i], now);
        let q = storm_run(h, names, sigs, now, max, n).0;
        assert(q == p.0 || q == p.0.push((names[n - 1], sigs[n - 1], now)));
        assert(q[k] == p.0[k]);
    }
}

/// What the history held at the start stays in it.
proof fn lemma_run_keeps(h: Seq<HistoryEntry>, names: Seq<Seq<char>>, sigs: Seq<Seq<char>>, now: u128, max: u32, n: int, e: HistoryEntry)
    requires
        h.contains(e),
    ensures
        storm_run(h, names, sigs, now, max, n).0.contains(e),
    decreases n,
{
    if n > 0 {
        lemma_run_keeps(h, names, sigs, now, max, n - 1, e);
        let p = storm_run(h, names, sigs, now, max, n - 1);
        let k = choose|k: int| 0 <= k < p.0.len() && p.0[k] == e;
        let q = storm_run(h, names, sigs, now, max, n).0;
        assert(q == p.0 || q == p.0.push((names[n - 1], sigs[n - 1], now)));
        assert(q[k] == p.0[k]);
    }
}

/// An entry still inside the window survives expiry.
proof fn lemma_retained_keeps(h: Seq<HistoryEntry>, now: u128, window_secs: u64, e: HistoryEntry)
    requires
        h.contains(e),
        in_window(e.2, now, window_secs),
    ensures
        retained(h, now, window_secs).contains(e),
    decreases h.len(),
{
    let r = retained(h.drop_last(), now, window_secs);
    if h.last() == e {
        assert(retained(h, now, window_secs) == r.push(e));
        assert(r.push(e).last() == e);
    } else {
        let k = choose|k: int| 0 <= k < h.len() && h[k] == e;
        assert(h.drop_last()[k] == e);
        lemma_retained_keeps(h.drop_last(), now, window_secs, e);
        let j = choose|j: int| 0 <= j < r.len() && r[j] == e;
        let q = retained(h, now, window_secs);
        assert(q == r || q == r.push(h.last()));
        assert(q[j] == r[j]);
    }
}

/// An entry for `name` with `sig` is counted.
proof fn lemma_count_found(h: Seq<HistoryEntry>, name: Seq<char>, sig: Seq<char>, t: u128)
    requires
        h.contains((name, sig, t)),
    ensures
        count_matching(h, name, sig) >= 1,
    decreases h.len(),
{
    if h.last() != (name, sig, t) {
        let k = choose|k: int| 0 <= k < h.len() && h[k] == (name, sig, t);
        assert(h.drop_last()[k] == (name, sig, t));
        lemma_count_found(h.drop_last(), name, sig, t);
    }
}

/// With one call allowed per window, a batch that comes again inside the
/// window has each call that passed the first time suppressed the second
/// time.
pub proof fn lemma_batch_repeat_suppressed(h: Seq<HistoryEntry>, cs: Seq<CallText>, t1: u128, t2: u128, window_secs: u64)
    requires
        t1 <= t2,
        t2 - t1 < window_secs * 1_000_000_000,
    ensures
        ({
            let p1 = storm_of(h, cs, t1, window_secs, 1);
            let p2 = storm_of(p1.0, cs, t2, window_secs, 1);
            forall|i: int| 0 <= i < cs.len() && #[trigger] p1.1[i] ==> !p2.1[i]
        }),
{
    let names = cs.map_values(|c: CallText| c.1);
    let sigs = cs.map_values(|c: CallText| c.2);
    let n = cs.len() as int;
    let p1 = storm_of(h, cs, t1, window_secs, 1);
    let h2 = retained(p1.0, t2, window_secs);
    assert forall|i: int| 0 <= i < cs.len() && #[trigger] p1.1[i] implies !storm_of(p1.0, cs, t2, window_secs, 1).1[i] by {
        let e = (names[i], sigs[i], t1);
        lemma_run_records(retained(h, t1, window_secs), names, sigs, t1, 1, n, i);
        lemma_retained_keeps(p1.0, t2, window_secs, e);
        lemma_run_keeps(h2, names, sigs, t2, 1, i, e);
        lemma_count_found(storm_run(h2, names, sigs, t2, 1, i).0, names[i], sigs[i], t1);
        lemma_storm_run_len(h2, names, sigs, t2, 1, i);
        lemma_run_flag_stable(h2, names, sigs, t2, 1, n, i);
    }
}

/// Taking the calls that passed commutes with viewing them as text.
proof fn lemma_passed_text(cs: Seq<RepairedToolCall>, pass: Seq<bool>, n: int)
    requires
        0 <= n <= cs.len(),
    ensures
        calls_text(passed(cs, pass, n)) == passed(calls_text(cs), pass, n),
    decreases n,
{
    if n > 0 {
        lemma_passed_text(cs, pass, n - 1);
        let r = passed(cs, pass, n - 1);
        assert(calls_text(r.push(cs[n - 1])) =~= calls_text(r).push(calls_text(cs)[n - 1]));
    } else {
        assert(calls_text(Seq::<RepairedToolCall>::empty()) =~= Seq::<CallText>::empty());
    }
}

/// The flags of `storm_run` grow one per call.
proof fn lemma_storm_run_len(h: Seq<HistoryEntry>, names: Seq<Seq<char>>, sigs: Seq<Seq<char>>, now: u128, max: u32, n: int)
    requires
        n >= 0,
    ensures
        storm_run(h, names, sigs, now, max, n).1.len() == n,
    decreases n,
{
    if n > 0 {
        lemma_storm_run_len(h, names, sigs, now, max, n - 1);
    }
}

/// Suppressor of repeated identical tool calls within a sliding window.
pub struct StormSuppression {
    history: Vec<(String, String, u128)>,
    origin: std::time::Instant,
    window_secs: u64,
    max_repeats: u32,
    suppressed_count: u64,
}

impl StormSuppression {
    /// The calls let through, as tool, signature and nanosecond time.
    pub closed spec fn history(&self) -> Seq<HistoryEntry> {
        hist_view(self.history@)
    }

    /// The window in seconds.
    pub closed spec fn window(&self) -> u64 {
        self.window_secs
    }

    /// Repeats allowed within the window.
    pub closed spec fn max_repeats_spec(&self) -> u32 {
        self.max_repeats
    }

    /// Calls suppressed so far.
    pub closed spec fn suppressed(&self) -> u64 {
        self.suppressed_count
    }

    /// A suppressor with a window of `window_secs` seconds that lets
    /// `max_repeats` identical calls through within it.
    pub fn new(window_secs: u64, max_repeats: u32) -> (s: StormSuppression)
        ensures
            s.history() == Seq::<HistoryEntry>::empty(),
            s.window() == window_secs,
            s.max_repeats_spec() == max_repeats,
            s.suppressed() == 0,
    {
        let s = StormSuppression {
            history: Vec::new(),
            origin: instant_now(),
            window_secs,
            max_repeats,
            suppressed_count: 0,
        };
        assert(hist_view(s.history@) =~= Seq::<HistoryEntry>::empty());
        s
    }

    /// Number of calls suppressed so far.
    pub fn suppressed_count(&self) -> (r: u64)
        ensures
            r == self.suppressed(),
    {
        self.suppressed_count
    }

    /// How many history entries are for `name` with signature `sig`.
    fn count_in_history(&self, name: &String, sig: &String) -> (r: usize)
        ensures
            r == count_matching(self.history(), name@, sig@),
    {
        let mut k: usize = 0;
        let mut i: usize = 0;
        while i < self.history.len()
            invariant
                i <= self.history@.len(),
                k == count_matching(hist_view(self.history@.take(i as int)), name@, sig@),
                k <= i,
            decreases self.history@.len() - i,
        {
            assert(hist_view(self.history@.take(i + 1)).drop_last() =~= hist_view(self.history@.take(i as int)));
            if self.history[i].0 == *name && self.history[i].1 == *sig {
                k = k + 1;
            }
            i = i + 1;
        }
        assert(self.history@.take(self.history@.len() as int) =~= self.history@);
        k
    }

    /// Drops the history entries outside the window at `now`.
    fn expire(&mut self, now: u128)
        ensures
            final(self).history() == retained(old(self).history(), now, old(self).window()),
            final(self).window() == old(self).window(),
            final(self).max_repeats_spec() == old(self).max_repeats_spec(),
            final(self).suppressed() == old(self).suppressed(),
    {
        let mut old_h: Vec<(String, String, u128)> = Vec::new();
        std::mem::swap(&mut old_h, &mut self.history);
        let ghost oh = hist_view(old_h@);
        assert(oh == old(self).history());
        let mut i: usize = 0;
        assert(hist_view(self.history@) =~= retained(hist_view(old_h@.take(0)), now, self.window_secs));
        while i < old_h.len()
            invariant
                i <= old_h@.len(),
                hist_view(self.history@) == retained(hist_view(old_h@.take(i as int)), now, self.window_secs),
                self.window_secs == old(self).window_secs,
                self.max_repeats == old(self).max_repeats,
                self.suppressed_count == old(self).suppressed_count,
            decreases old_h@.len() - i,
        {
            assert(hist_view(old_h@.take(i + 1)).drop_last() =~= hist_view(old_h@.take(i as int)));
            let t = old_h[i].2;
            let age: u128 = if now >= t { now - t } else { 0 };
            if age < (self.window_secs as u128) * 1_000_000_000 {
                let ghost before = hist_view(self.history@);
                let e = (old_h[i].0.clone(), old_h[i].1.clone(), t);
                self.history.push(e);
                assert(hist_view(self.history@) =~= before.push(hist_view(old_h@)[i as int]));
            }
            i = i + 1;
        }
        assert(old_h@.take(old_h@.len() as int) =~= old_h@);
    }

    /// Lets through the calls `calls`, whose argument signatures are `sigs`,
    /// at `now` nanoseconds: entries older than the window are dropped
    /// first, then each call passes when fewer than the allowed number of
    /// entries match its tool and signature, and is then recorded. The calls
    /// that passed, and whether any was suppressed.
    pub fn filter_at(&mut self, calls: Vec<RepairedToolCall>, sigs: Vec<String>, now: u128) -> (r: (Vec<RepairedToolCall>, bool))
        requires
            sigs@.len() == calls@.len(),
            old(self).suppressed() + calls@.len() <= u64::MAX,
        ensures
            ({
                let run = storm_run(retained(old(self).history(), now, old(self).window()), call_names(calls@),
                    crate::text::views(sigs@), now, old(self).max_repeats_spec(), calls@.len() as int);
                &&& final(self).history() == run.0
                &&& r.0@ == passed(calls@, run.1, calls@.len() as int)
                &&& r.1 == (blocked(run.1, calls@.len() as int) > 0)
                &&& final(self).suppressed() == old(self).suppressed() + blocked(run.1, calls@.len() as int)
            }),
            final(self).window() == old(self).window(),
            final(self).max_repeats_spec() == old(self).max_repeats_spec(),
    {
        self.expire(now);
        let ghost h0 = self.history();
        let ghost names = call_names(calls@);
        let ghost sv = crate::text::views(sigs@);
        let ghost cs = calls@;
        let n = calls.len();
        let mut rest = calls;
        let mut allowed: Vec<RepairedToolCall> = Vec::new();
        let mut suppressed = false;
        let mut i: usize = 0;
        while i < n
            invariant
                i <= n,
                n == cs.len(),
                n == sigs@.len(),
                rest@ == cs.skip(i as int),
                names == call_names(cs),
                sv == crate::text::views(sigs@),
                self.history() == storm_run(h0, names, sv, now, self.max_repeats, i as int).0,
                allowed@ == passed(cs, storm_run(h0, names, sv, now, self.max_repeats, i as int).1, i as int),
                suppressed == (blocked(storm_run(h0, names, sv, now, self.max_repeats, i as int).1, i as int) > 0),
                self.suppressed_count == old(self).suppressed_count
                    + blocked(storm_run(h0, names, sv, now, self.max_repeats, i as int).1, i as int),
                blocked(storm_run(h0, names, sv, now, self.max_repeats, i as int).1, i as int) <= i,
                old(self).suppressed_count + n <= u64::MAX,
                self.window_secs == old(self).window_secs,
                self.max_repeats == old(self).max_repeats,
            decreases n - i,
        {
            proof {
                lemma_storm_run_len(h0, names, sv, now, self.max_repeats, i as int);
                lemma_storm_run_len(h0, names, sv, now, self.max_repeats, i + 1);
            }
            let call = rest.remove(0);
            assert(call == cs[i as int]);
            assert(rest@ =~= cs.skip(i + 1));
            let ghost prev = storm_run(h0, names, sv, now, self.max_repeats, i as int);
            let ghost pass = storm_run(h0, names, sv, now, self.max_repeats, i + 1).1;
            assert(pass.take(i as int) =~= prev.1);
            assert(prev.1.take(i as int) =~= prev.1);
            let c = self.count_in_history(&call.name, &sigs[i]);
            assert(names[i as int] == call.name@);
            assert(sv[i as int] == sigs@[i as int]@);
            if c >= self.max_repeats as usize {
                self.suppressed_count = self.suppressed_count + 1;
                suppressed = true;
                proof {
                    assert(passed(cs, pass, i as int) == passed(cs, prev.1, i as int)) by {
                        lemma_passed_prefix(cs, pass, prev.1, i as int);
                    }
                    assert(blocked(pass, i as int) == blocked(prev.1, i as int)) by {
                        lemma_blocked_prefix(pass, prev.1, i as int);
                    }
                }
            } else {
                let e = (call.name.clone(), sigs[i].clone(), now);
                let ghost hb = self.history();
                self.history.push(e);
                assert(self.history() =~= hb.push((names[i as int], sv[i as int], now)));
                allowed.push(call);
                proof {
                    assert(passed(cs, pass, i as int) == passed(cs, prev.1, i as int)) by {
                        lemma_passed_prefix(cs, pass, prev.1, i as int);
                    }
                    assert(blocked(pass, i as int) == blocked(prev.1, i as int)) by {
                        lemma_blocked_prefix(pass, prev.1, i as int);
                    }
                }
            }
            i = i + 1;
        }
        (allowed, suppressed)
    }

    /// Lets through the calls `calls` now, each signed by its JSON
    /// arguments (see `filter_at`). The calls that passed, in order, and
    /// whether any was suppressed; each suppressed call is counted. The time
    /// comes from the clock, so the outcome is stated for some instant.
    pub fn filter(&mut self, calls: Vec<RepairedToolCall>) -> (r: (Vec<RepairedToolCall>, bool))
        requires
            old(self).suppressed() + calls@.len() <= u64::MAX,
        ensures
            exists|now: u128| #![trigger storm_of(old(self).history(), calls_text(calls@), now, old(self).window(), old(self).max_repeats_spec())]
                ({
                    let run = storm_of(old(self).history(), calls_text(calls@), now, old(self).window(), old(self).max_repeats_spec());
                    &&& final(self).history() == run.0
                    &&& r.0@ == passed(calls@, run.1, calls@.len() as int)
                    &&& r.1 == (blocked(run.1, calls@.len() as int) > 0)
                    &&& final(self).suppressed() == old(self).suppressed() + blocked(run.1, calls@.len() as int)
                }),
            r.0@.len() <= calls@.len(),
            r.1 == (r.0@.len() < calls@.len()),
            final(self).suppressed() == old(self).suppressed() + (calls@.len() - r.0@.len()),
            final(self).window() == old(self).window(),
            final(self).max_repeats_spec() == old(self).max_repeats_spec(),
    {
        let now = nanos_since(&self.origin);
        let mut sigs: Vec<String> = Vec::new();
        let mut i: usize = 0;
        while i < calls.len()
            invariant
                i <= calls@.len(),
                crate::text::views(sigs@) == calls_text(calls@).take(i as int).map_values(|c: CallText| c.2),
            decreases calls@.len() - i,
        {
            let ghost before = sigs@;
            let a = calls[i].arguments.clone();
            sigs.push(a);
            assert(sigs@ == before.push(a));
            assert(calls_text(calls@).take(i + 1).map_values(|c: CallText| c.2)
                =~= calls_text(calls@).take(i as int).map_values(|c: CallText| c.2).push(calls@[i as int].arguments@));
            assert(crate::text::views(sigs@) =~= crate::text::views(before).push(a@));
            i = i + 1;
        }
        let ghost cs = calls@;
        assert(calls_text(cs).take(cs.len() as int) =~= calls_text(cs));
        assert(call_names(cs) =~= calls_text(cs).map_values(|c: CallText| c.1));
        assert(storm_of(self.history(), calls_text(cs), now, self.window(), self.max_repeats_spec())
            == storm_run(retained(self.history(), now, self.window()), call_names(cs),
            crate::text::views(sigs@), now, self.max_repeats_spec(), cs.len() as int));
        let ghost run = storm_run(retained(self.history(), now, self.window()), call_names(cs),
            crate::text::views(sigs@), now, self.max_repeats_spec(), cs.len() as int);
        let r = self.filter_at(calls, sigs, now);
        proof {
            lemma_storm_run_len(retained(old(self).history(), now, old(self).window()), call_names(cs),
                crate::text::views(sigs@), now, old(self).max_repeats_spec(), cs.len() as int);
            lemma_passed_blocked(cs, run.1, cs.len() as int);
        }
        r
    }
}

/// `passed` over the first `n` flags depends on those flags alone.
proof fn lemma_passed_prefix(cs: Seq<RepairedToolCall>, a: Seq<bool>, b: Seq<bool>, n: int)
    requires
        0 <= n <= a.len(),
        n <= b.len(),
        a.take(n) == b.take(n),
    ensures
        passed(cs, a, n) == passed(cs, b, n),
    decreases n,
{
    if n > 0 {
        assert(a.take(n - 1) =~= a.take(n).take(n - 1));
        assert(b.take(n - 1) =~= b.take(n).take(n - 1));
        assert(a[n - 1] == a.take(n)[n - 1]);
        assert(b[n - 1] == b.take(n)[n - 1]);
        lemma_passed_prefix(cs, a, b, n - 1);
    }
}

/// `blocked` over the first `n` flags depends on those flags alone.
proof fn lemma_blocked_prefix(a: Seq<bool>, b: Seq<bool>, n: int)
    requires
        0 <= n <= a.len(),
        n <= b.len(),
        a.take(n) == b.take(n),
    ensures
        blocked(a, n) == blocked(b, n),
    decreases n,
{
    if n > 0 {
        assert(a.take(n - 1) =~= a.take(n).take(n - 1));
        assert(b.take(n - 1) =~= b.take(n).take(n - 1));
        assert(a[n - 1] == a.take(n)[n - 1]);
        assert(b[n - 1] == b.take(n)[n - 1]);
        lemma_blocked_prefix(a, b, n - 1);
    }
}

/// The calls that pass and those blocked make up all `n` calls.
proof fn lemma_passed_blocked(cs: Seq<RepairedToolCall>, pass: Seq<bool>, n: int)
    requires
        0 <= n <= pass.len(),
    ensures
        passed(cs, pass, n).len() + blocked(pass, n) == n,
    decreases n,
{
    if n > 0 {
        lemma_passed_blocked(cs, pass, n - 1);
    }
}

/// With one call allowed per window, a call that passed at `t1` is
/// suppressed when the same tool with the same signature comes again at
/// `t2`, still inside the window.
pub proof fn lemma_storm_repeat_suppressed(h: Seq<HistoryEntry>, name: Seq<char>, sig: Seq<char>, t1: u128, t2: u128, window_secs: u64)
    requires
        t1 <= t2,
        t2 - t1 < window_secs * 1_000_000_000,
    ensures
        ({
            let p1 = storm_run(retained(h, t1, window_secs), seq![name], seq![sig], t1, 1, 1);
            let p2 = storm_run(retained(p1.0, t2, window_secs), seq![name], seq![sig], t2, 1, 1);
            p1.1[0] ==> !p2.1[0]
        }),
{
    let h1 = retained(h, t1, window_secs);
    let p1 = storm_run(h1, seq![name], seq![sig], t1, 1, 1);
    let p0 = storm_run(h1, seq![name], seq![sig], t1, 1, 0);
    assert(p0 == (h1, Seq::<bool>::empty()));
    if p1.1[0] {
        let e = (name, sig, t1);
        assert(p1.0 == h1.push(e));
        assert(p1.0.drop_last() =~= h1);
        assert(in_window(t1, t2, window_secs));
        let r = retained(p1.0, t2, window_secs);
        assert(r == retained(h1, t2, window_secs).push(e));
        assert(r.drop_last() =~= retained(h1, t2, window_secs));
        assert(count_matching(r, name, sig) >= 1);
        let q0 = storm_run(r, seq![name], seq![sig], t2, 1, 0);
        assert(q0 == (r, Seq::<bool>::empty()));
    }
}

impl Default for StormSuppression {
    /// A five-second window that lets one identical call through.
    fn default() -> (s: StormSuppression)
        ensures
            s.history() == Seq::<HistoryEntry>::empty(),
            s.window() == 5,
            s.max_repeats_spec() == 1,
            s.suppressed() == 0,
    {
        StormSuppression::new(5, 1)
    }
}

// ---------------------------------------------------------------------------
// The pipeline
// ---------------------------------------------------------------------------

/// The repair pipeline: scavenging, truncation repair and storm suppression.
pub struct RepairPipeline {
    storm: StormSuppression,
}

/// `acts` are the actions of a repair of `content` that recovered `n` calls:
/// one `Scavenged` per recovered call, then `TruncationFixed` when the
/// truncation repair changed the text.
pub open spec fn repair_actions(acts: Seq<RepairAction>, content: Seq<char>, n: nat) -> bool {
    let fixed = truncation_repair_spec(content) != content;
    &&& acts.len() == n + (if fixed { 1nat } else { 0nat })
    &&& forall|i: int| 0 <= i < n ==> (#[trigger] acts[i]) is Scavenged
    &&& fixed ==> acts[n as int] is TruncationFixed
}


impl RepairPipeline {
    /// Calls suppressed so far.
    pub closed spec fn suppressed(&self) -> u64 {
        self.storm.suppressed()
    }

    /// The storm window in seconds.
    pub closed spec fn window(&self) -> u64 {
        self.storm.window()
    }

    /// Identical calls allowed within the storm window.
    pub closed spec fn max_repeats(&self) -> u32 {
        self.storm.max_repeats_spec()
    }

    /// The calls the storm suppressor remembers.
    pub closed spec fn history(&self) -> Seq<HistoryEntry> {
        self.storm.history()
    }

    /// A pipeline whose storm window is `window_secs` seconds with
    /// `max_repeats` identical calls allowed in it, with nothing
    /// remembered or suppressed yet.
    pub fn new(window_secs: u64, max_repeats: u32) -> (p: RepairPipeline)
        ensures
            p.window() == window_secs,
            p.max_repeats() == max_repeats,
            p.history() == Seq::<HistoryEntry>::empty(),
            p.suppressed() == 0,
    {
        RepairPipeline { storm: StormSuppression::new(window_secs, max_repeats) }
    }

    /// Repairs one model response: recovers the tool calls left in it,
    /// closes a truncated JSON tail, and lets through only the calls that
    /// are not a storm (see `repair_outcome`). The storm suppressor reads
    /// the clock, so its part of the outcome is stated for some instant.
    pub fn repair(&mut self, content: &str) -> (r: RepairedResponse)
        requires
            old(self).suppressed() + scavenge_spec(content@).len() <= u64::MAX,
        ensures
            repair_outcome(*old(self), *final(self), content@, r),
    {
        let scavenged = ScavengeRepair::scavenge(content);
        self.repair_scavenged(content, scavenged)
    }

    /// Repairs one model response as `repair` does when the suppressed
    /// counter has room for every call recovered from it; otherwise nothing
    /// is done and none is returned.
    pub fn try_repair(&mut self, content: &str) -> (r: Option<RepairedResponse>)
        ensures
            match r {
                Some(x) => old(self).suppressed() + scavenge_spec(content@).len() <= u64::MAX
                    && repair_outcome(*old(self), *final(self), content@, x),
                None => old(self).suppressed() + scavenge_spec(content@).len() > u64::MAX
                    && *final(self) == *old(self),
            },
    {
        let scavenged = ScavengeRepair::scavenge(content);
        assert(calls_text(scavenged@).len() == scavenged@.len());
        if self.storm.suppressed_count() > u64::MAX - scavenged.len() as u64 {
            return None;
        }
        Some(self.repair_scavenged(content, scavenged))
    }

    /// The repair of `content`, whose recovered calls are `scavenged`.
    fn repair_scavenged(&mut self, content: &str, scavenged: Vec<RepairedToolCall>) -> (r: RepairedResponse)
        requires
            calls_text(scavenged@) == scavenge_spec(content@),
            old(self).suppressed() + scavenge_spec(content@).len() <= u64::MAX,
        ensures
            repair_outcome(*old(self), *final(self), content@, r),
    {
        assert(calls_text(scavenged@).len() == scavenged@.len());
        let mut actions: Vec<RepairAction> = Vec::new();
        let mut i: usize = 0;
        while i < scavenged.len()
            invariant
                i <= scavenged@.len(),
                actions@.len() == i,
                forall|k: int| 0 <= k < i ==> (#[trigger] actions@[k]) is Scavenged,
            decreases scavenged@.len() - i,
        {
            actions.push(RepairAction::Scavenged(scavenged[i].name.clone()));
            i = i + 1;
        }
        let repaired = TruncationRepair::repair(content);
        let rc = to_chars(repaired.as_str());
        let cc = to_chars(content);
        if !crate::text::chars_eq(rc.as_slice(), cc.as_slice()) {
            actions.push(RepairAction::TruncationFixed);
        }
        let ghost sv = scavenged@;
        let (filtered, stormed) = self.storm.filter(scavenged);
        let r = RepairedResponse {
            content: Some(repaired),
            tool_calls: filtered,
            injected_reflection: stormed,
            actions,
        };
        proof {
            let now = choose|now: u128| #![trigger storm_of(old(self).history(), calls_text(sv), now, old(self).window(), old(self).max_repeats())]
                ({
                    let run = storm_of(old(self).history(), calls_text(sv), now, old(self).window(), old(self).max_repeats());
                    &&& self.history() == run.0
                    &&& r.tool_calls@ == passed(sv, run.1, sv.len() as int)
                    &&& stormed == (blocked(run.1, sv.len() as int) > 0)
                    &&& self.suppressed() == old(self).suppressed() + blocked(run.1, sv.len() as int)
                });
            let run = storm_of(old(self).history(), calls_text(sv), now, old(self).window(), old(self).max_repeats());
            lemma_passed_text(sv, run.1, sv.len() as int);
            assert(storm_of(old(self).history(), scavenge_spec(content@), now, old(self).window(), old(self).max_repeats()) == run);
        }
        r
    }
}

/// `r` is what repairing `content` gives, with the pipeline `before` the
/// call and `after` it: the text with its truncation closed; one
/// `Scavenged` action per recovered call (then `TruncationFixed` when the
/// text changed); the recovered calls that the storm rule passes at some
/// instant, the history and suppressed count that rule leaves, and a
/// reflection exactly when a call was suppressed.
pub open spec fn repair_outcome(before: RepairPipeline, after: RepairPipeline, content: Seq<char>, r: RepairedResponse) -> bool {
    let sc = scavenge_spec(content);
    &&& r.content matches Some(t) && t@ == truncation_repair_spec(content)
    &&& repair_actions(r.actions@, content, sc.len())
    &&& exists|now: u128| #![trigger storm_of(before.history(), sc, now, before.window(), before.max_repeats())]
        ({
            let run = storm_of(before.history(), sc, now, before.window(), before.max_repeats());
            &&& after.history() == run.0
            &&& calls_text(r.tool_calls@) == passed(sc, run.1, sc.len() as int)
            &&& r.injected_reflection == (blocked(run.1, sc.len() as int) > 0)
            &&& after.suppressed() == before.suppressed() + blocked(run.1, sc.len() as int)
        })
    &&& r.tool_calls@.len() <= sc.len()
    &&& r.injected_reflection == (r.tool_calls@.len() < sc.len())
    &&& after.suppressed() == before.suppressed() + (sc.len() - r.tool_calls@.len())
    &&& after.window() == before.window()
    &&& after.max_repeats() == before.max_repeats()
}

impl Default for RepairPipeline {
    /// A pipeline with the default storm window.
    fn default() -> (p: RepairPipeline)
        ensures
            p.suppressed() == 0,
    {
        RepairPipeline { storm: StormSuppression::default() }
    }
}

} // verus!
