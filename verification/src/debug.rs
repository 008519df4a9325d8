//! Session debugging: the entries of the debug trace, the capped ring of
//! recent entries, previews cut to a byte length, and session ids.

use vstd::prelude::*;
use vstd::string::{StringExecFns, StrSliceExecFns, StringSliceAdditionalSpecFns};
use vstd::utf8::{decode_utf8, encode_utf8, is_char_boundary};
use crate::text::{from_chars, to_chars};

verus! {

/// Entries kept by the debug ring at most.
pub const MAX_DEBUG_ENTRIES: usize = 500;

/// One record of the debug trace.
#[derive(Debug, Clone)]
pub enum DebugEntry {
    /// A round of the agent loop.
    Round {
        /// Round number.
        round: u32,
        /// The user's message (preview).
        user_msg: String,
        /// The assistant's message (preview).
        assistant_msg: String,
        /// Duration in milliseconds.
        duration_ms: u64,
    },
    /// A tool call.
    ToolCall {
        /// Tool.
        name: String,
        /// Arguments (preview).
        args: String,
        /// Result (preview).
        result_preview: String,
        /// Duration in milliseconds.
        duration_ms: u64,
        /// Whether it succeeded.
        success: bool,
    },
    /// Token use of a request.
    TokenUsage {
        /// Input tokens.
        input_tokens: u32,
        /// Output tokens.
        output_tokens: u32,
        /// Cached input tokens.
        cache_hit: u32,
        /// Uncached input tokens.
        cache_miss: u32,
    },
    /// An error.
    Error {
        /// Where it came from.
        source: String,
        /// What it says.
        message: String,
    },
    /// A context compression.
    Compression {
        /// Size before.
        before_bytes: usize,
        /// Size after.
        after_bytes: usize,
        /// Length of the summary.
        summary_len: usize,
    },
}

/// Errors of the debug export.
#[derive(Debug)]
pub enum DebugError {
    /// Writing the report failed.
    Io(String),
    /// Serialising the report failed.
    Serialize(String),
}

/// The ring `r` after adding `x` with room for `cap` entries: the oldest
/// entry goes when it is full.
pub open spec fn pushed_capped<T>(r: Seq<T>, x: T, cap: nat) -> Seq<T> {
    (if r.len() >= cap && r.len() > 0 { r.remove(0) } else { r }).push(x)
}

/// Adds `x` to the ring `v` that holds `cap` entries, dropping the oldest
/// entry when it is full.
pub fn push_capped<T>(v: &mut Vec<T>, x: T, cap: usize)
    ensures
        final(v)@ == pushed_capped(old(v)@, x, cap as nat),
{
    if v.len() >= cap && v.len() > 0 {
        v.remove(0);
    }
    v.push(x);
}

/// A ring that never held more than `cap > 0` entries keeps at most `cap`
/// entries, and its newest entry is the one added last.
pub proof fn lemma_ring_capped<T>(r: Seq<T>, x: T, cap: nat)
    requires
        cap > 0,
        r.len() <= cap,
    ensures
        pushed_capped(r, x, cap).len() <= cap,
        pushed_capped(r, x, cap).last() == x,
        r.len() == cap ==> pushed_capped(r, x, cap) == r.skip(1).push(x),
{
    if r.len() == cap {
        assert(r.remove(0) =~= r.skip(1));
    }
}

/// `s` cut to its first `max` bytes with a truncation note when it is
/// longer than that.
pub open spec fn truncate_spec(s: Seq<char>, max: int) -> Seq<char> {
    let b = encode_utf8(s);
    if b.len() > max { decode_utf8(b.take(max)) + "...（截断）"@ } else { s }
}

/// `s` cut to its first `max` bytes, followed by a truncation note, when
/// it is longer than that; the cut must fall between characters.
pub fn truncate(s: &str, max: usize) -> (r: String)
    requires
        encode_utf8(s@).len() > max ==> is_char_boundary(encode_utf8(s@), max as int),
    ensures
        r@ == truncate_spec(s@, max as int),
{
    assert(s.spec_bytes() == encode_utf8(s@));
    if s.as_bytes().len() > max {
        proof {
            vstd::utf8::encode_utf8_valid_utf8(s@);
        }
        let (head, _) = s.split_at(max);
        proof {
            vstd::utf8::encode_utf8_decode_utf8(head@);
        }
        head.to_owned().concat("...（截断）")
    } else {
        s.to_owned()
    }
}

/// The lowercase hexadecimal digit for `d < 16`.
pub open spec fn hex_char(d: nat) -> char {
    if d < 10 { ((d + 48) as u32) as char } else { ((d + 87) as u32) as char }
}

/// Lowercase hexadecimal digits of `n`, most significant first.
pub open spec fn hex(n: nat) -> Seq<char>
    decreases n,
{
    if n < 16 { seq![hex_char(n)] } else { hex(n / 16).push(hex_char(n % 16)) }
}

/// The hexadecimal digit for `d`.
fn hex_digit(d: u8) -> (c: char)
    requires
        d < 16,
    ensures
        c == hex_char(d as nat),
{
    if d < 10 {
        (d + 48) as char
    } else {
        (d + 87) as char
    }
}

/// The session id for a start `ms` milliseconds after the epoch: their
/// lowercase hexadecimal digits.
pub fn session_id_from_millis(ms: u128) -> (r: String)
    ensures
        r@ == hex(ms as nat),
    decreases ms,
{
    let d = hex_digit((ms % 16) as u8);
    if ms < 16 {
        let mut v: Vec<char> = Vec::new();
        v.push(d);
        assert(v@ =~= seq![hex_char(ms as nat)]);
        from_chars(v.as_slice())
    } else {
        let high = session_id_from_millis(ms / 16);
        let mut v = to_chars(high.as_str());
        v.push(d);
        from_chars(v.as_slice())
    }
}

} // verus!
