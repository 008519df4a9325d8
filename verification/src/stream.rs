//! Decoding of a streamed chat completion (server-sent events): the byte
//! stream is cut into events at blank lines, their `data:` lines are the
//! payloads, text deltas are passed on, and tool-call deltas are merged by
//! index until the model finishes them.

use vstd::prelude::*;
use crate::api::{ToolCallData, Usage};
use crate::text::{
    eq_str, extend_chars, find, find_from_spec, first_occurrence_from, from_chars, has_prefix, lemma_first_occurrence_unique,
    lines, lines_spec, occurs_at, push_str, slice_to_vec, starts_with, to_chars, trim, trim_spec,
};

verus! {

/// A tool-call delta of a streamed chunk.
#[derive(Debug, Clone)]
pub struct StreamToolDelta {
    /// Which call it extends.
    pub index: i32,
    /// Call id, when given.
    pub id: Option<String>,
    /// Tool name, when given.
    pub name: Option<String>,
    /// More argument text, when given.
    pub arguments: Option<String>,
}

/// The first choice of a streamed chunk.
#[derive(Debug, Clone)]
pub struct StreamChoiceData {
    /// Text delta.
    pub content: Option<String>,
    /// Tool-call deltas.
    pub tool_calls: Option<Vec<StreamToolDelta>>,
    /// Why the choice finished, if it did.
    pub finish_reason: Option<String>,
}

/// A streamed chunk as read from one payload.
#[derive(Debug, Clone)]
pub struct StreamChunkData {
    /// Token usage (the last chunk carries it).
    pub usage: Option<Usage>,
    /// Its first choice.
    pub first_choice: Option<StreamChoiceData>,
}

/// What the decoder passes on.
#[derive(Debug, Clone)]
pub enum StreamOutput {
    /// A text delta.
    Text(String),
    /// Token usage.
    Usage(Usage),
    /// The finished tool calls, by index.
    ToolCalls(Vec<ToolCallData>),
}

// ---------------------------------------------------------------------------
// Events and payloads
// ---------------------------------------------------------------------------

/// The complete events at the start of `b` (each ended by a blank line)
/// and what is left after them.
pub open spec fn sse_split(b: Seq<char>) -> (Seq<Seq<char>>, Seq<char>)
    decreases b.len(),
{
    match find_from_spec(b, seq!['\n', '\n'], 0) {
        None => (Seq::empty(), b),
        Some(e) => {
            proof {
                crate::repair::lemma_find_from_some(b, seq!['\n', '\n'], 0, e);
            }
            let rest = sse_split(b.skip(e + 2));
            (seq![b.take(e)] + rest.0, rest.1)
        },
    }
}

/// The payloads of the `data:` lines of the event `ev`, trimmed.
pub open spec fn data_lines(ls: Seq<Seq<char>>) -> Seq<Seq<char>>
    decreases ls.len(),
{
    if ls.len() == 0 {
        Seq::empty()
    } else {
        data_lines(ls.drop_last()) + if has_prefix(ls.last(), "data:"@) {
            seq![trim_spec(ls.last().skip(5))]
        } else {
            Seq::empty()
        }
    }
}

/// The payloads of the events `evs`, in order.
pub open spec fn payloads(evs: Seq<Seq<char>>) -> Seq<Seq<char>>
    decreases evs.len(),
{
    if evs.len() == 0 {
        Seq::empty()
    } else {
        payloads(evs.drop_last()) + data_lines(lines_spec(evs.last()))
    }
}

/// The payloads of one event.
fn event_payloads(ev: &[char], out: &mut Vec<String>)
    ensures
        final(out)@.map_values(|s: String| s@) == old(out)@.map_values(|s: String| s@) + data_lines(lines_spec(ev@)),
{
    let ls = lines(ev);
    let ghost lv = ls@.map_values(|v: Vec<char>| v@);
    assert(lv =~= lines_spec(ev@));
    let ghost base = out@.map_values(|s: String| s@);
    let pre = to_chars("data:");
    proof {
        reveal_strlit("data:");
    }
    let mut i: usize = 0;
    assert(base + data_lines(lv.take(0)) =~= base);
    while i < ls.len()
        invariant
            i <= ls@.len(),
            lv == ls@.map_values(|v: Vec<char>| v@),
            pre@ == "data:"@,
            pre@.len() == 5,
            out@.map_values(|s: String| s@) == base + data_lines(lv.take(i as int)),
        decreases ls@.len() - i,
    {
        assert(lv.take(i + 1).drop_last() =~= lv.take(i as int));
        assert(lv.take(i + 1).last() == ls@[i as int]@);
        let ghost before = out@.map_values(|s: String| s@);
        if starts_with(ls[i].as_slice(), pre.as_slice()) {
            let rest = slice_to_vec(ls[i].as_slice(), 5, ls[i].len());
            assert(rest@ =~= ls@[i as int]@.skip(5));
            let t = trim(rest.as_slice());
            out.push(from_chars(t.as_slice()));
            assert(out@.map_values(|s: String| s@) =~= before + seq![t@]);
        } else {
            assert(out@.map_values(|s: String| s@) =~= before + Seq::<Seq<char>>::empty());
        }
        i = i + 1;
    }
    assert(lv.take(ls@.len() as int) =~= lv);
}

// ---------------------------------------------------------------------------
// Tool-call accumulation
// ---------------------------------------------------------------------------

/// A tool call being assembled, as text: id, name, argument text.
pub type CallText = (Seq<char>, Seq<char>, Seq<char>);

/// The text of a tool call.
pub open spec fn call_text(c: ToolCallData) -> CallText {
    (c.id@, c.name@, c.arguments@)
}

/// The text of the accumulator.
pub open spec fn acc_text(a: Seq<(i32, ToolCallData)>) -> Seq<(i32, CallText)> {
    a.map_values(|e: (i32, ToolCallData)| (e.0, call_text(e.1)))
}

/// Index in `a` of the entry for call `k`, if any.
pub open spec fn acc_index(a: Seq<(i32, CallText)>, k: i32) -> Option<int> {
    if exists|i: int| 0 <= i < a.len() && (#[trigger] a[i]).0 == k {
        Some(choose|i: int| 0 <= i < a.len() && (#[trigger] a[i]).0 == k)
    } else {
        None
    }
}

/// Each call index occurs once.
pub open spec fn keys_unique(a: Seq<(i32, CallText)>) -> bool {
    forall|i: int, j: int| 0 <= i < j < a.len() ==> (#[trigger] a[i]).0 != (#[trigger] a[j]).0
}

/// A call with the delta's id, name and argument text applied: a non-empty
/// id or name replaces, non-empty argument text is appended.
pub open spec fn apply_delta(c: CallText, id: Option<Seq<char>>, name: Option<Seq<char>>, args: Option<Seq<char>>) -> CallText {
    (
        match id { Some(x) => if x.len() > 0 { x } else { c.0 }, None => c.0 },
        match name { Some(x) => if x.len() > 0 { x } else { c.1 }, None => c.1 },
        match args { Some(x) => if x.len() > 0 { c.2 + x } else { c.2 }, None => c.2 },
    )
}

/// The text of an optional string.
pub open spec fn ot(o: Option<String>) -> Option<Seq<char>> {
    match o {
        Some(s) => Some(s@),
        None => None,
    }
}

/// The accumulator after delta `d`: the call of its index (a new empty one
/// at the end when there is none) with the delta applied.
pub open spec fn merge_delta(a: Seq<(i32, CallText)>, d: StreamToolDelta) -> Seq<(i32, CallText)> {
    match acc_index(a, d.index) {
        Some(i) => a.update(i, (d.index, apply_delta(a[i].1, ot(d.id), ot(d.name), ot(d.arguments)))),
        None => a.push((d.index, apply_delta((Seq::empty(), Seq::empty(), Seq::empty()), ot(d.id), ot(d.name), ot(d.arguments)))),
    }
}

/// The accumulator after the deltas `ds`, in order.
pub open spec fn merge_deltas(a: Seq<(i32, CallText)>, ds: Seq<StreamToolDelta>) -> Seq<(i32, CallText)>
    decreases ds.len(),
{
    if ds.len() == 0 { a } else { merge_delta(merge_deltas(a, ds.drop_last()), ds.last()) }
}

/// `s` is ordered by call index.
pub open spec fn by_index(s: Seq<(i32, CallText)>) -> bool {
    forall|i: int, j: int| 0 <= i < j < s.len() ==> (#[trigger] s[i]).0 < (#[trigger] s[j]).0
}

/// The decoder of one streamed response.
pub struct SseDecoder {
    buffer: Vec<char>,
    acc: Vec<(i32, ToolCallData)>,
}

/// The flush of accumulator `a`: nothing when empty, else its calls ordered
/// by index.
pub open spec fn flushed(a: Seq<(i32, CallText)>, r: Option<Vec<ToolCallData>>) -> bool {
    if a.len() == 0 {
        r is None
    } else {
        r matches Some(v) && exists|s: Seq<(i32, CallText)>| #![trigger by_index(s)]
            s.to_multiset() == a.to_multiset() && by_index(s)
            && v@.map_values(|c: ToolCallData| call_text(c)) == s.map_values(|e: (i32, CallText)| e.1)
    }
}

impl SseDecoder {
    /// Text received but not yet part of a complete event.
    pub closed spec fn pending(&self) -> Seq<char> {
        self.buffer@
    }

    /// The tool calls being assembled, by index.
    pub closed spec fn calls(&self) -> Seq<(i32, CallText)> {
        acc_text(self.acc@)
    }

    /// Well-formed: each call index once.
    pub open spec fn wf(&self) -> bool {
        keys_unique(self.calls())
    }

    /// A decoder at the start of a stream.
    pub fn new() -> (d: SseDecoder)
        ensures
            d.wf(),
            d.pending() == Seq::<char>::empty(),
            d.calls() == Seq::<(i32, CallText)>::empty(),
    {
        let d = SseDecoder { buffer: Vec::new(), acc: Vec::new() };
        assert(acc_text(d.acc@) =~= Seq::<(i32, CallText)>::empty());
        d
    }

    /// Takes in more text of the stream; the payloads of the events it
    /// completes, in order.
    pub fn push_text(&mut self, text: &str) -> (r: Vec<String>)
        ensures
            r@.map_values(|s: String| s@) == payloads(sse_split(old(self).pending() + text@).0),
            final(self).pending() == sse_split(old(self).pending() + text@).1,
            final(self).calls() == old(self).calls(),
    {
        let t = to_chars(text);
        extend_chars(&mut self.buffer, t.as_slice());
        let ghost whole = self.buffer@;
        assert(whole == old(self).pending() + text@);
        let mut sep: Vec<char> = Vec::new();
        sep.push('\n');
        sep.push('\n');
        assert(sep@ =~= seq!['\n', '\n']);
        let mut out: Vec<String> = Vec::new();
        let ghost mut evs: Seq<Seq<char>> = Seq::empty();
        assert(evs + sse_split(self.buffer@).0 =~= sse_split(self.buffer@).0);
        loop
            invariant
                sep@ == seq!['\n', '\n'],
                whole == old(self).pending() + text@,
                sse_split(whole) == (evs + sse_split(self.buffer@).0, sse_split(self.buffer@).1),
                out@.map_values(|s: String| s@) == payloads(evs),
                acc_text(self.acc@) == acc_text(old(self).acc@),
            decreases self.buffer@.len(),
        {
            match find(self.buffer.as_slice(), sep.as_slice()) {
                None => {
                    proof {
                        if exists|k: int| first_occurrence_from(self.buffer@, sep@, 0, k) {
                            let k = choose|k: int| first_occurrence_from(self.buffer@, sep@, 0, k);
                            assert(occurs_at(self.buffer@, sep@, k));
                        }
                        assert(sse_split(self.buffer@) == (Seq::<Seq<char>>::empty(), self.buffer@));
                        assert(evs + Seq::<Seq<char>>::empty() =~= evs);
                    }
                    return out;
                },
                Some(e) => {
                    proof {
                        let k = choose|k: int| first_occurrence_from(self.buffer@, sep@, 0, k);
                        lemma_first_occurrence_unique(self.buffer@, sep@, 0, k, e as int);
                    }
                    let ghost b = self.buffer@;
                    let n = self.buffer.len();
                    let ev = slice_to_vec(self.buffer.as_slice(), 0, e);
                    let rest = slice_to_vec(self.buffer.as_slice(), e + 2, n);
                    assert(ev@ =~= b.take(e as int));
                    assert(rest@ =~= b.skip(e + 2));
                    let ghost before = out@.map_values(|s: String| s@);
                    event_payloads(ev.as_slice(), &mut out);
                    proof {
                        assert(sse_split(b).0 =~= seq![ev@] + sse_split(rest@).0);
                        assert(evs + sse_split(b).0 =~= evs.push(ev@) + sse_split(rest@).0);
                        assert(evs.push(ev@).drop_last() =~= evs);
                        evs = evs.push(ev@);
                    }
                    self.buffer = rest;
                },
            }
        }
    }

    /// Merges one tool-call delta into the call of its index.
    fn merge_tool_delta(&mut self, d: &StreamToolDelta)
        requires
            old(self).wf(),
        ensures
            final(self).wf(),
            final(self).calls() == merge_delta(old(self).calls(), *d),
            final(self).pending() == old(self).pending(),
    {
        let ghost a = self.calls();
        let mut pos: Option<usize> = None;
        let mut i: usize = 0;
        while i < self.acc.len()
            invariant
                i <= self.acc@.len(),
                a == acc_text(self.acc@),
                pos matches Some(p) ==> p < self.acc@.len() && self.acc@[p as int].0 == d.index,
                pos is None ==> forall|j: int| 0 <= j < i ==> (#[trigger] self.acc@[j]).0 != d.index,
            decreases self.acc@.len() - i,
        {
            if pos.is_none() && self.acc[i].0 == d.index {
                pos = Some(i);
            }
            i = i + 1;
        }
        let empty_call = ToolCallData { id: String::new(), name: String::new(), arguments: String::new() };
        let (cur, at) = match pos {
            Some(p) => {
                let c = &self.acc[p].1;
                (ToolCallData { id: c.id.clone(), name: c.name.clone(), arguments: c.arguments.clone() }, p)
            },
            None => (empty_call, self.acc.len()),
        };
        proof {
            match pos {
                Some(p) => {
                    assert(a[p as int].0 == d.index);
                    let c = choose|j: int| 0 <= j < a.len() && (#[trigger] a[j]).0 == d.index;
                    assert(c == p);
                    assert(acc_index(a, d.index) == Some(p as int));
                },
                None => {
                    assert forall|j: int| 0 <= j < a.len() implies (#[trigger] a[j]).0 != d.index by {
                        assert(self.acc@[j].0 != d.index);
                    }
                    assert(acc_index(a, d.index) is None);
                },
            }
        }
        let id = match &d.id {
            Some(x) => if x.as_str().unicode_len() > 0 { x.clone() } else { cur.id },
            None => cur.id,
        };
        let name = match &d.name {
            Some(x) => if x.as_str().unicode_len() > 0 { x.clone() } else { cur.name },
            None => cur.name,
        };
        let arguments = match &d.arguments {
            Some(x) => if x.as_str().unicode_len() > 0 {
                let mut v = to_chars(cur.arguments.as_str());
                push_str(&mut v, x.as_str());
                from_chars(v.as_slice())
            } else {
                cur.arguments
            },
            None => cur.arguments,
        };
        let call = ToolCallData { id, name, arguments };
        assert(call_text(call) == apply_delta(call_text(cur), ot(d.id), ot(d.name), ot(d.arguments)));
        if at < self.acc.len() {
            self.acc.set(at, (d.index, call));
            assert(acc_text(self.acc@) =~= merge_delta(a, *d));
        } else {
            self.acc.push((d.index, call));
            assert(acc_text(self.acc@) =~= merge_delta(a, *d));
        }
        proof {
            let b = self.calls();
            assert forall|x: int, y: int| 0 <= x < y < b.len() implies (#[trigger] b[x]).0 != (#[trigger] b[y]).0 by {
                if x != at as int && y != at as int {
                    assert(b[x] == a[x] && b[y] == a[y]);
                } else if x == at as int {
                    assert(b[y] == a[y]);
                } else {
                    assert(b[x] == a[x]);
                }
            }
        }
    }

    /// Hands out the assembled tool calls ordered by index and empties the
    /// accumulator; nothing when there are none.
    pub fn flush(&mut self) -> (r: Option<Vec<ToolCallData>>)
        requires
            old(self).wf(),
        ensures
            final(self).wf(),
            flushed(old(self).calls(), r),
            final(self).calls() == Seq::<(i32, CallText)>::empty(),
            final(self).pending() == old(self).pending(),
    {
        broadcast use vstd::seq_lib::group_to_multiset_ensures;
        if self.acc.len() == 0 {
            return None;
        }
        let ghost a = self.calls();
        let mut rem: Vec<(i32, ToolCallData)> = Vec::new();
        std::mem::swap(&mut rem, &mut self.acc);
        assert(acc_text(self.acc@) =~= Seq::<(i32, CallText)>::empty());
        let mut out: Vec<(i32, ToolCallData)> = Vec::new();
        assert(acc_text(out@).to_multiset() =~= vstd::multiset::Multiset::empty());
        while rem.len() > 0
            invariant
                acc_text(out@).to_multiset().add(acc_text(rem@).to_multiset()) == a.to_multiset(),
                by_index(acc_text(out@)),
                keys_unique(acc_text(rem@)),
                forall|x: int, y: int| 0 <= x < out@.len() && 0 <= y < rem@.len()
                    ==> (#[trigger] out@[x]).0 < (#[trigger] rem@[y]).0,
                acc_text(self.acc@) == Seq::<(i32, CallText)>::empty(),
                self.buffer@ == old(self).buffer@,
            decreases rem@.len(),
        {
            let mut k: usize = 0;
            let mut j: usize = 1;
            while j < rem.len()
                invariant
                    0 < j <= rem@.len(),
                    k < j,
                    forall|y: int| 0 <= y < j ==> rem@[k as int].0 <= (#[trigger] rem@[y]).0,
                decreases rem@.len() - j,
            {
                if rem[j].0 < rem[k].0 {
                    k = j;
                }
                j = j + 1;
            }
            let ghost bo = out@;
            let ghost br = rem@;
            let x = rem.remove(k);
            out.push(x);
            proof {
                let to = acc_text(bo);
                let tr = acc_text(br);
                let e = (x.0, call_text(x.1));
                assert(acc_text(rem@) =~= tr.remove(k as int));
                assert(acc_text(out@) =~= to.push(e));
                assert(tr[k as int] == e);
                tr.to_multiset_ensures();
                to.to_multiset_ensures();
                assert(tr.remove(k as int).to_multiset() =~= tr.to_multiset().remove(e));
                assert(to.push(e).to_multiset() =~= to.to_multiset().insert(e));
                assert(tr.contains(e));
                assert(to.to_multiset().insert(e).add(tr.to_multiset().remove(e))
                    =~= to.to_multiset().add(tr.to_multiset()));
                assert forall|y: int| 0 <= y < rem@.len() implies x.0 < (#[trigger] rem@[y]).0 by {
                    let y2 = if y < k { y } else { y + 1 };
                    assert(rem@[y] == br[y2]);
                    assert(tr[y2].0 != tr[k as int].0);
                }
                assert forall|p: int, q: int| 0 <= p < out@.len() && 0 <= q < rem@.len()
                    implies (#[trigger] out@[p]).0 < (#[trigger] rem@[q]).0 by {
                    let q2 = if q < k { q } else { q + 1 };
                    assert(rem@[q] == br[q2]);
                    if p < bo.len() {
                        assert(out@[p] == bo[p]);
                    }
                }
                let ao = acc_text(out@);
                assert forall|p: int, q: int| 0 <= p < q < ao.len() implies (#[trigger] ao[p]).0 < (#[trigger] ao[q]).0 by {
                    if q < bo.len() {
                        assert(ao[p] == to[p] && ao[q] == to[q]);
                    } else {
                        assert(out@[p] == bo[p]);
                        assert(br[k as int] == x);
                    }
                }
                let ar = acc_text(rem@);
                assert forall|p: int, q: int| 0 <= p < q < ar.len() implies (#[trigger] ar[p]).0 != (#[trigger] ar[q]).0 by {
                    let p2 = if p < k { p } else { p + 1 };
                    let q2 = if q < k { q } else { q + 1 };
                    assert(ar[p] == tr[p2] && ar[q] == tr[q2]);
                }
            }
        }
        let mut calls: Vec<ToolCallData> = Vec::new();
        let mut i: usize = 0;
        while i < out.len()
            invariant
                i <= out@.len(),
                calls@.map_values(|c: ToolCallData| call_text(c)) == acc_text(out@).take(i as int).map_values(|e: (i32, CallText)| e.1),
            decreases out@.len() - i,
        {
            let c = &out[i].1;
            let nc = ToolCallData { id: c.id.clone(), name: c.name.clone(), arguments: c.arguments.clone() };
            assert(call_text(nc) == acc_text(out@)[i as int].1);
            let ghost before = calls@;
            calls.push(nc);
            assert(acc_text(out@).take(i + 1) =~= acc_text(out@).take(i as int).push(acc_text(out@)[i as int]));
            assert(calls@.map_values(|c: ToolCallData| call_text(c)) =~= before.map_values(|c: ToolCallData| call_text(c)).push(call_text(nc)));
            assert(calls@.map_values(|c: ToolCallData| call_text(c)) =~= acc_text(out@).take(i + 1).map_values(|e: (i32, CallText)| e.1));
            i = i + 1;
        }
        proof {
            assert(acc_text(out@).take(out@.len() as int) =~= acc_text(out@));
            assert(acc_text(rem@).to_multiset() =~= vstd::multiset::Multiset::empty());
            assert(acc_text(out@).to_multiset() =~= acc_text(out@).to_multiset().add(acc_text(rem@).to_multiset()));
            let s = acc_text(out@);
            assert(s.to_multiset() == a.to_multiset() && by_index(s));
        }
        Some(calls)
    }

    /// Handles one parsed chunk: its usage, its text delta when non-empty,
    /// its tool-call deltas merged in order, and the assembled calls when the
    /// model finished with tool calls.
    pub fn on_chunk(&mut self, c: &StreamChunkData) -> (r: Vec<StreamOutput>)
        requires
            old(self).wf(),
        ensures
            final(self).wf(),
            final(self).pending() == old(self).pending(),
            chunk_outputs(old(self).calls(), *c, r@, final(self).calls()),
    {
        let mut out: Vec<StreamOutput> = Vec::new();
        if let Some(u) = &c.usage {
            out.push(StreamOutput::Usage(copy_usage(u)));
        }
        let ghost nu: int = out@.len() as int;
        let ghost a = self.calls();
        if let Some(ch) = &c.first_choice {
            if let Some(t) = &ch.content {
                if t.as_str().unicode_len() > 0 {
                    out.push(StreamOutput::Text(t.clone()));
                }
            }
            let ghost nt: int = out@.len() as int;
            let ghost pre = out@;
            if let Some(ds) = &ch.tool_calls {
                let mut i: usize = 0;
                while i < ds.len()
                    invariant
                        i <= ds@.len(),
                        self.wf(),
                        self.calls() == merge_deltas(a, ds@.take(i as int)),
                        self.buffer@ == old(self).buffer@,
                    decreases ds@.len() - i,
                {
                    assert(ds@.take(i + 1).drop_last() =~= ds@.take(i as int));
                    self.merge_tool_delta(&ds[i]);
                    i = i + 1;
                }
                assert(ds@.take(ds@.len() as int) =~= ds@);
            } else {
                assert(merge_deltas(a, Seq::empty()) == a);
            }
            let finish = match &ch.finish_reason {
                Some(f) => eq_str(to_chars(f.as_str()).as_slice(), "tool_calls"),
                None => false,
            };
            if finish {
                let ghost m = self.calls();
                match self.flush() {
                    Some(v) => {
                        out.push(StreamOutput::ToolCalls(v));
                        assert(out@.take(nt) =~= pre);
                    },
                    None => {},
                }
            }
            assert(out@.take(nt) =~= pre);
        } else {
            assert(merge_deltas(a, Seq::empty()) == a);
        }
        out
    }

    /// Handles one payload: `[DONE]` hands out the assembled calls; other
    /// payloads count through `parsed`, the chunk read from them (nothing
    /// when they could not be read, and then they are passed over).
    pub fn on_payload(&mut self, payload: &str, parsed: Option<StreamChunkData>) -> (r: Vec<StreamOutput>)
        requires
            old(self).wf(),
        ensures
            final(self).wf(),
            final(self).pending() == old(self).pending(),
            payload@ == "[DONE]"@ ==> done_outputs(old(self).calls(), r@) && final(self).calls() == Seq::<(i32, CallText)>::empty(),
            payload@ != "[DONE]"@ ==> match parsed {
                None => r@.len() == 0 && final(self).calls() == old(self).calls(),
                Some(c) => chunk_outputs(old(self).calls(), c, r@, final(self).calls()),
            },
    {
        let p = to_chars(payload);
        if eq_str(p.as_slice(), "[DONE]") {
            let mut out: Vec<StreamOutput> = Vec::new();
            match self.flush() {
                Some(v) => out.push(StreamOutput::ToolCalls(v)),
                None => {},
            }
            return out;
        }
        match parsed {
            None => Vec::new(),
            Some(c) => self.on_chunk(&c),
        }
    }
}

/// A copy of a usage record.
fn copy_usage(u: &Usage) -> (r: Usage)
    ensures
        r == *u,
{
    Usage {
        prompt_tokens: u.prompt_tokens,
        completion_tokens: u.completion_tokens,
        total_tokens: u.total_tokens,
        prompt_cache_hit_tokens: u.prompt_cache_hit_tokens,
        prompt_cache_miss_tokens: u.prompt_cache_miss_tokens,
    }
}

/// The non-empty text delta of a chunk.
pub open spec fn text_of(c: StreamChunkData) -> Option<Seq<char>> {
    match c.first_choice {
        Some(ch) => match ch.content {
            Some(t) => if t@.len() > 0 { Some(t@) } else { None },
            None => None,
        },
        None => None,
    }
}

/// The tool-call deltas of a chunk.
pub open spec fn deltas_of(c: StreamChunkData) -> Seq<StreamToolDelta> {
    match c.first_choice {
        Some(ch) => match ch.tool_calls {
            Some(ds) => ds@,
            None => Seq::empty(),
        },
        None => Seq::empty(),
    }
}

/// The chunk finishes the turn with tool calls.
pub open spec fn finishes_with_calls(c: StreamChunkData) -> bool {
    match c.first_choice {
        Some(ch) => ot(ch.finish_reason) == Some("tool_calls"@),
        None => false,
    }
}

/// `r` is what the flush of `a` passes on: the calls ordered by index, or
/// nothing when there are none.
pub open spec fn done_outputs(a: Seq<(i32, CallText)>, r: Seq<StreamOutput>) -> bool {
    if a.len() == 0 {
        r.len() == 0
    } else {
        r.len() == 1 && (r[0] matches StreamOutput::ToolCalls(v) && flushed(a, Some(v)))
    }
}

/// `r` and `b` are what handling chunk `c` gives from accumulator `a`:
/// the usage, then the non-empty text, then (when the chunk finishes with
/// tool calls) the flush of the merged calls; `b` is the accumulator after.
pub open spec fn chunk_outputs(a: Seq<(i32, CallText)>, c: StreamChunkData, r: Seq<StreamOutput>, b: Seq<(i32, CallText)>) -> bool {
    let nu: int = if c.usage is Some { 1 } else { 0 };
    let nt: int = if text_of(c) is Some { 1 } else { 0 };
    let m = merge_deltas(a, deltas_of(c));
    &&& r.len() >= nu + nt
    &&& (c.usage matches Some(u) ==> r[0] == StreamOutput::Usage(u))
    &&& (text_of(c) matches Some(t) ==> (r[nu] matches StreamOutput::Text(s) && s@ == t))
    &&& if finishes_with_calls(c) {
        done_outputs(m, r.skip(nu + nt)) && b == Seq::<(i32, CallText)>::empty()
    } else {
        r.len() == nu + nt && b == m
    }
}

} // verus!
