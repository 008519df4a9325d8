//! Channel-side helpers: runtime status of a channel, splitting long replies
//! for chat services with a byte limit, URL encoding, message envelopes.

use vstd::prelude::*;
use vstd::string::StringSliceAdditionalSpecFns;
use crate::text::{
    char_width, from_chars, lemma_ulen_append, lemma_ulen_single, to_chars, ulen, utf8_width,
};

verus! {

// ---------------------------------------------------------------------------
// Channel status
// ---------------------------------------------------------------------------

/// Snapshot of a channel's runtime state.
#[derive(Debug, Clone)]
pub struct ChannelStatus {
    /// Channel name.
    pub name: String,
    /// Connected or logged in.
    pub connected: bool,
    /// Human-readable detail (bot name, account).
    pub detail: Option<String>,
    /// Messages handled so far.
    pub msg_count: u64,
    /// Last error seen.
    pub last_error: Option<String>,
}

/// The message count after one more message: one more, wrapping to 0
/// after `u64::MAX`.
pub open spec fn msg_step(c: nat) -> nat {
    if c < u64::MAX { c + 1 } else { 0 }
}

/// The message count after `n` more messages from `c`.
pub open spec fn msg_steps(c: nat, n: nat) -> nat
    decreases n,
{
    if n == 0 { c } else { msg_step(msg_steps(c, (n - 1) as nat)) }
}

/// Counting `n` more messages from `k` gives `k + n` while that fits in
/// the counter.
pub proof fn lemma_inc_msg_n(k: nat, n: nat)
    requires
        k + n <= u64::MAX,
    ensures
        msg_steps(k, n) == k + n,
    decreases n,
{
    if n > 0 {
        lemma_inc_msg_n(k, (n - 1) as nat);
    }
}

/// Runtime state tracker embedded in each channel.
pub struct ChannelState {
    connected: bool,
    msg_count: u64,
    last_error: Option<String>,
}

impl ChannelState {
    /// Whether the channel is connected.
    pub closed spec fn is_connected(&self) -> bool {
        self.connected
    }

    /// Messages counted so far.
    pub closed spec fn count(&self) -> nat {
        self.msg_count as nat
    }

    /// The last error recorded, if any.
    pub closed spec fn error(&self) -> Option<Seq<char>> {
        match self.last_error {
            Some(e) => Some(e@),
            None => None,
        }
    }

    /// Disconnected, no messages, no error.
    pub fn new() -> (s: ChannelState)
        ensures
            !s.is_connected(),
            s.count() == 0,
            s.error() is None,
    {
        ChannelState { connected: false, msg_count: 0, last_error: None }
    }

    /// Records whether the channel is connected.
    pub fn set_connected(&mut self, v: bool)
        ensures
            final(self).is_connected() == v,
            final(self).count() == old(self).count(),
            final(self).error() == old(self).error(),
    {
        self.connected = v;
    }

    /// Counts one more message (wrapping at `u64::MAX`, as an atomic add does).
    pub fn inc_msg(&mut self)
        ensures
            final(self).count() == msg_step(old(self).count()),
            final(self).is_connected() == old(self).is_connected(),
            final(self).error() == old(self).error(),
    {
        self.msg_count = if self.msg_count < u64::MAX { self.msg_count + 1 } else { 0 };
    }

    /// Records the last error.
    pub fn set_error(&mut self, e: &str)
        ensures
            final(self).error() == Some(e@),
            final(self).is_connected() == old(self).is_connected(),
            final(self).count() == old(self).count(),
    {
        self.last_error = Some(e.to_owned());
    }

    /// Forgets the last error.
    pub fn clear_error(&mut self)
        ensures
            final(self).error() is None,
            final(self).is_connected() == old(self).is_connected(),
            final(self).count() == old(self).count(),
    {
        self.last_error = None;
    }

    /// A snapshot under the given name and detail.
    pub fn snapshot(&self, name: &str, detail: Option<String>) -> (s: ChannelStatus)
        ensures
            s.name@ == name@,
            s.connected == self.is_connected(),
            s.detail == detail,
            s.msg_count == self.count(),
            match s.last_error {
                Some(e) => self.error() == Some(e@),
                None => self.error() is None,
            },
    {
        ChannelStatus {
            name: name.to_owned(),
            connected: self.connected,
            detail,
            msg_count: self.msg_count,
            last_error: match &self.last_error {
                Some(e) => Some(e.clone()),
                None => None,
            },
        }
    }
}

// ---------------------------------------------------------------------------
// Splitting by byte length
// ---------------------------------------------------------------------------

/// Number of leading characters of `s` whose UTF-8 bytes fit in `max`.
pub open spec fn fit_prefix_len(s: Seq<char>, max: int) -> nat
    decreases s.len(),
{
    if s.len() > 0 && char_width(s[0]) <= max {
        1 + fit_prefix_len(s.drop_first(), max - char_width(s[0]))
    } else {
        0
    }
}

/// Characters in the next chunk: the longest prefix that fits, or all of
/// `s` when not even its first character fits.
pub open spec fn chunk_len(s: Seq<char>, max: int) -> nat {
    if fit_prefix_len(s, max) == 0 { s.len() } else { fit_prefix_len(s, max) }
}

/// Greedy chunks of `s`, each the longest prefix fitting in `max` bytes.
pub open spec fn chunks_spec(s: Seq<char>, max: int) -> Seq<Seq<char>>
    decreases s.len(),
{
    if s.len() == 0 {
        Seq::empty()
    } else {
        proof {
            lemma_fit_prefix(s, max);
        }
        seq![s.take(chunk_len(s, max) as int)] + chunks_spec(s.skip(chunk_len(s, max) as int), max)
    }
}

/// What `split_message` returns: the text alone when it fits, else its
/// greedy chunks.
pub open spec fn split_spec(s: Seq<char>, max: int) -> Seq<Seq<char>> {
    if ulen(s) <= max { seq![s] } else { chunks_spec(s, max) }
}

/// The concatenation of a sequence of texts.
pub open spec fn concat_all(parts: Seq<Seq<char>>) -> Seq<char>
    decreases parts.len(),
{
    if parts.len() == 0 { Seq::empty() } else { parts[0] + concat_all(parts.drop_first()) }
}

/// Facts about the longest fitting prefix.
pub proof fn lemma_fit_prefix(s: Seq<char>, max: int)
    ensures
        fit_prefix_len(s, max) <= s.len(),
        ulen(s.take(fit_prefix_len(s, max) as int)) <= if max < 0 { 0 } else { max },
        fit_prefix_len(s, max) < s.len() ==>
            ulen(s.take(fit_prefix_len(s, max) as int)) + char_width(s[fit_prefix_len(s, max) as int]) > max,
    decreases s.len(),
{
    let k = fit_prefix_len(s, max);
    if s.len() > 0 && char_width(s[0]) <= max {
        let t = s.drop_first();
        let m = max - char_width(s[0]);
        lemma_fit_prefix(t, m);
        assert(s.take(k as int) =~= seq![s[0]] + t.take((k - 1) as int));
        lemma_ulen_append(seq![s[0]], t.take((k - 1) as int));
        lemma_ulen_single(s[0]);
        if k < s.len() {
            assert(s[k as int] == t[(k - 1) as int]);
        }
    } else {
        assert(s.take(0) =~= Seq::<char>::empty());
        assert(ulen(Seq::<char>::empty()) == 0) by {
            reveal_with_fuel(vstd::utf8::encode_utf8, 1);
        }
    }
}

/// The chunks put back together give the text, and none is empty.
pub proof fn lemma_chunks_concat(s: Seq<char>, max: int)
    ensures
        concat_all(chunks_spec(s, max)) == s,
        forall|i: int| 0 <= i < chunks_spec(s, max).len() ==> (#[trigger] chunks_spec(s, max)[i]).len() > 0,
    decreases s.len(),
{
    if s.len() > 0 {
        lemma_fit_prefix(s, max);
        let k = chunk_len(s, max) as int;
        let rest = s.skip(k);
        lemma_chunks_concat(rest, max);
        let cs = chunks_spec(s, max);
        assert(cs.drop_first() =~= chunks_spec(rest, max));
        assert(s.take(k) + rest =~= s);
        assert forall|i: int| 0 <= i < cs.len() implies (#[trigger] cs[i]).len() > 0 by {
            if i > 0 {
                assert(cs[i] == chunks_spec(rest, max)[i - 1]);
            }
        }
    } else {
        assert(concat_all(Seq::<Seq<char>>::empty()) =~= s);
    }
}

/// Every chunk fits in `max` bytes unless its first character alone is
/// wider than `max`, in which case that chunk is the whole remaining text.
pub proof fn lemma_chunks_fit(s: Seq<char>, max: int)
    ensures
        forall|i: int| 0 <= i < chunks_spec(s, max).len() ==> {
            ||| ulen(#[trigger] chunks_spec(s, max)[i]) <= max
            ||| char_width(chunks_spec(s, max)[i][0]) > max
        },
    decreases s.len(),
{
    if s.len() > 0 {
        lemma_fit_prefix(s, max);
        let k = chunk_len(s, max) as int;
        let rest = s.skip(k);
        lemma_chunks_fit(rest, max);
        let cs = chunks_spec(s, max);
        assert(cs.drop_first() =~= chunks_spec(rest, max));
        assert forall|i: int| 0 <= i < cs.len() implies {
            ||| ulen(#[trigger] cs[i]) <= max
            ||| char_width(cs[i][0]) > max
        } by {
            if i > 0 {
                assert(cs[i] == chunks_spec(rest, max)[i - 1]);
            } else {
                if fit_prefix_len(s, max) == 0 {
                    assert(!(char_width(s[0]) <= max));
                    assert(cs[0][0] == s[0]);
                }
            }
        }
    }
}

/// Index just past the longest prefix of `s[from..]` that fits in `max` bytes.
fn fit_end(s: &[char], from: usize, max: usize) -> (k: usize)
    requires
        from <= s@.len(),
    ensures
        from <= k <= s@.len(),
        k - from == fit_prefix_len(s@.skip(from as int), max as int),
{
    let mut k = from;
    let mut used: usize = 0;
    while k < s.len()
        invariant
            from <= k <= s@.len(),
            used <= max,
            fit_prefix_len(s@.skip(from as int), max as int)
                == (k - from) + fit_prefix_len(s@.skip(k as int), max - used),
        decreases s@.len() - k,
    {
        let w = utf8_width(s[k]);
        if w > max - used {
            assert(s@.skip(k as int)[0] == s@[k as int]);
            return k;
        }
        proof {
            assert(s@.skip(k as int)[0] == s@[k as int]);
            assert(s@.skip(k as int).drop_first() =~= s@.skip(k + 1));
        }
        used = used + w;
        k = k + 1;
    }
    proof {
        assert(s@.skip(k as int).len() == 0);
    }
    k
}

/// Splits a text into the greedy chunks of at most `max_len` bytes that the
/// chat services accept; a text that fits comes back whole.
pub fn split_by_bytes(text: &str, max_len: usize) -> (r: Vec<String>)
    ensures
        views_of(r@) == split_spec(text@, max_len as int),
{
    let v = to_chars(text);
    assert(text.spec_bytes() == vstd::utf8::encode_utf8(text@));
    if text.as_bytes().len() <= max_len {
        let mut r: Vec<String> = Vec::new();
        r.push(text.to_owned());
        assert(views_of(r@) =~= seq![text@]);
        return r;
    }
    let mut chunks: Vec<String> = Vec::new();
    let mut start: usize = 0;
    proof {
        assert(v@.skip(0) =~= v@);
        assert(views_of(chunks@) + chunks_spec(v@, max_len as int) =~= chunks_spec(v@, max_len as int));
    }
    while start < v.len()
        invariant
            start <= v@.len(),
            v@ == text@,
            chunks_spec(v@, max_len as int) == views_of(chunks@) + chunks_spec(v@.skip(start as int), max_len as int),
        decreases v@.len() - start,
    {
        let fit = fit_end(v.as_slice(), start, max_len);
        let end = if fit == start { v.len() } else { fit };
        let ghost rest = v@.skip(start as int);
        let piece = crate::text::slice_to_vec(v.as_slice(), start, end);
        proof {
            assert(piece@ =~= rest.take(chunk_len(rest, max_len as int) as int));
            assert(rest.skip(chunk_len(rest, max_len as int) as int) =~= v@.skip(end as int));
        }
        let s = from_chars(piece.as_slice());
        proof {
            assert(views_of(chunks@.push(s)) =~= views_of(chunks@).push(piece@));
            assert(chunks_spec(rest, max_len as int) =~= seq![piece@] + chunks_spec(v@.skip(end as int), max_len as int));
            assert(views_of(chunks@) + chunks_spec(rest, max_len as int)
                =~= views_of(chunks@).push(piece@) + chunks_spec(v@.skip(end as int), max_len as int));
        }
        chunks.push(s);
        start = end;
    }
    proof {
        assert(v@.skip(start as int).len() == 0);
        assert(views_of(chunks@) + Seq::<Seq<char>>::empty() =~= views_of(chunks@));
    }
    chunks
}

/// The texts of a vector of strings.
pub open spec fn views_of(v: Seq<String>) -> Seq<Seq<char>> {
    v.map_values(|s: String| s@)
}

/// Splitting loses nothing: the pieces put back together give the text,
/// and each piece fits in `max` bytes unless it starts with a character
/// that alone is wider than `max`.
pub proof fn lemma_split_lossless(s: Seq<char>, max: int)
    ensures
        concat_all(split_spec(s, max)) == s,
        split_spec(s, max).len() >= 1 || s.len() == 0,
        forall|i: int| 0 <= i < split_spec(s, max).len() ==> {
            ||| ulen(#[trigger] split_spec(s, max)[i]) <= max
            ||| char_width(split_spec(s, max)[i][0]) > max
        },
{
    if ulen(s) <= max {
        assert(seq![s].drop_first() =~= Seq::<Seq<char>>::empty());
        assert(concat_all(Seq::<Seq<char>>::empty()) == Seq::<char>::empty());
        assert(concat_all(seq![s]) == seq![s][0] + concat_all(seq![s].drop_first()));
        assert(s + Seq::<char>::empty() =~= s);
    } else {
        lemma_chunks_concat(s, max);
        lemma_chunks_fit(s, max);
    }
}

/// Splits a WeChat reply into pieces of at most `max_len` bytes.
pub fn split_message(text: &str, max_len: usize) -> (r: Vec<String>)
    ensures
        views_of(r@) == split_spec(text@, max_len as int),
{
    split_by_bytes(text, max_len)
}

/// Splits a WeCom reply into pieces of at most `max_len` bytes.
pub fn split_text(text: &str, max_len: usize) -> (r: Vec<String>)
    ensures
        views_of(r@) == split_spec(text@, max_len as int),
{
    split_by_bytes(text, max_len)
}

// ---------------------------------------------------------------------------
// URL encoding
// ---------------------------------------------------------------------------

/// Bytes that URL encoding keeps as they are.
pub open spec fn is_unreserved(b: u8) -> bool {
    ||| 65 <= b <= 90
    ||| 97 <= b <= 122
    ||| 48 <= b <= 57
    ||| b == 45 || b == 95 || b == 46 || b == 126
}

/// Upper-case hexadecimal digit for `d < 16`.
pub open spec fn hex_upper(d: u8) -> char {
    if d < 10 {
        crate::text::digit_char(d as nat)
    } else if d == 10 { 'A' }
    else if d == 11 { 'B' }
    else if d == 12 { 'C' }
    else if d == 13 { 'D' }
    else if d == 14 { 'E' }
    else { 'F' }
}

/// The encoding of one byte: itself, or `%` and two upper-case hex digits.
pub open spec fn escape_byte(b: u8) -> Seq<char> {
    if is_unreserved(b) {
        seq![b as char]
    } else {
        seq!['%', hex_upper(b / 16), hex_upper(b % 16)]
    }
}

/// The encoding of a byte string.
pub open spec fn url_encode_spec(bytes: Seq<u8>) -> Seq<char>
    decreases bytes.len(),
{
    if bytes.len() == 0 {
        Seq::empty()
    } else {
        url_encode_spec(bytes.drop_last()) + escape_byte(bytes.last())
    }
}

/// Upper-case hexadecimal digit.
fn hex_digit(d: u8) -> (c: char)
    requires
        d < 16,
    ensures
        c == hex_upper(d),
{
    if d < 10 {
        crate::text::digit(d)
    } else if d == 10 { 'A' }
    else if d == 11 { 'B' }
    else if d == 12 { 'C' }
    else if d == 13 { 'D' }
    else if d == 14 { 'E' }
    else { 'F' }
}

/// Percent-encodes the UTF-8 bytes of `input`, keeping `A-Z a-z 0-9 - _ . ~`.
pub fn urlencoding(input: &str) -> (r: String)
    ensures
        r@ == url_encode_spec(vstd::utf8::encode_utf8(input@)),
{
    let bytes = input.as_bytes();
    assert(input.spec_bytes() == vstd::utf8::encode_utf8(input@));
    let mut out: Vec<char> = Vec::new();
    let mut i: usize = 0;
    while i < bytes.len()
        invariant
            i <= bytes@.len(),
            out@ == url_encode_spec(bytes@.take(i as int)),
        decreases bytes@.len() - i,
    {
        let b = bytes[i];
        proof {
            assert(bytes@.take(i + 1).drop_last() =~= bytes@.take(i as int));
        }
        if (65 <= b && b <= 90) || (97 <= b && b <= 122) || (48 <= b && b <= 57)
            || b == 45 || b == 95 || b == 46 || b == 126 {
            out.push(b as char);
        } else {
            out.push('%');
            out.push(hex_digit(b / 16));
            out.push(hex_digit(b % 16));
        }
        assert(out@ =~= url_encode_spec(bytes@.take(i + 1)));
        i = i + 1;
    }
    assert(bytes@.take(bytes@.len() as int) =~= bytes@);
    from_chars(out.as_slice())
}

// ---------------------------------------------------------------------------
// Message envelopes
// ---------------------------------------------------------------------------

/// Inbound message handed to the agent core.
#[derive(Debug, Clone)]
pub struct InboundMessage {
    /// Source channel name.
    pub channel: String,
    /// Conversation id used to reply.
    pub chat_id: String,
    /// Sender id.
    pub sender_id: String,
    /// Message text.
    pub content: String,
    /// Timestamp in milliseconds.
    pub timestamp_ms: i64,
}

impl InboundMessage {
    /// A message from `chat_id` (also its sender), stamped with the current
    /// time in milliseconds.
    pub fn new(channel: &str, chat_id: &str, content: &str) -> (m: InboundMessage)
        ensures
            m.channel@ == channel@,
            m.chat_id@ == chat_id@,
            m.sender_id@ == chat_id@,
            m.content@ == content@,
    {
        InboundMessage {
            channel: channel.to_owned(),
            chat_id: chat_id.to_owned(),
            sender_id: chat_id.to_owned(),
            content: content.to_owned(),
            timestamp_ms: now_millis(),
        }
    }
}

/// Outbound reply of the agent.
#[derive(Debug, Clone)]
pub struct OutboundMessage {
    /// Target channel name.
    pub channel: String,
    /// Target conversation id.
    pub chat_id: String,
    /// Reply text.
    pub content: String,
}

/// Calls `chrono::Utc::now().timestamp_millis()`: the wall-clock time, so
/// nothing is stated of it.
#[verifier::external_body]
fn now_millis() -> i64 {
    chrono::Utc::now().timestamp_millis()
}

} // verus!
