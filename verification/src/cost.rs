//! Cost control: model tiers, presets, the `NEEDS_PRO` escalation marker,
//! tier switching between rounds, and compression of long tool results.

use vstd::prelude::*;
use vstd::string::{StringExecFns, StrSliceExecFns, StringSliceAdditionalSpecFns};
use vstd::utf8::{decode_utf8, encode_utf8, is_char_boundary};
use crate::text::{
    count_leading_ws, count_trailing_ws, decimal, decimal_chars, find, first_occurrence_from, from_chars,
    has_prefix, lemma_first_occurrence_unique, lemma_leading_count_bound, lemma_trailing_count_bound,
    matches_at, slice_to_vec, starts_with, to_chars, trim_end_spec, trim_spec, trim_start_spec, ws,
};

verus! {

// ---------------------------------------------------------------------------
// Tiers and presets
// ---------------------------------------------------------------------------

/// Model tier.
#[derive(Debug, Clone, Copy, PartialEq, Eq, Structural)]
pub enum ModelTier {
    /// Everyday work, cheapest.
    Flash,
    /// Hard tasks, stronger reasoning.
    Pro,
}

/// API model name of a tier.
pub open spec fn tier_model_name(t: ModelTier) -> Seq<char> {
    match t {
        ModelTier::Flash => "deepseek-v4-flash"@,
        ModelTier::Pro => "deepseek-v4-pro"@,
    }
}

impl ModelTier {
    /// API model name of this tier.
    pub fn model_name(&self) -> (r: &'static str)
        ensures
            r@ == tier_model_name(*self),
    {
        match self {
            ModelTier::Flash => "deepseek-v4-flash",
            ModelTier::Pro => "deepseek-v4-pro",
        }
    }
}

/// Cost preset.
#[derive(Debug, Clone, Copy, PartialEq, Eq, Structural)]
pub enum CostPreset {
    /// Always Flash.
    Flash,
    /// Flash, switching to Pro when the model asks for it.
    Auto,
    /// Always Pro.
    Pro,
}

/// Name of a preset.
pub open spec fn preset_name(p: CostPreset) -> Seq<char> {
    match p {
        CostPreset::Flash => "flash"@,
        CostPreset::Auto => "auto"@,
        CostPreset::Pro => "pro"@,
    }
}

/// Tier a preset starts in.
pub open spec fn preset_initial_tier(p: CostPreset) -> ModelTier {
    match p {
        CostPreset::Flash | CostPreset::Auto => ModelTier::Flash,
        CostPreset::Pro => ModelTier::Pro,
    }
}

impl CostPreset {
    /// Name of this preset.
    pub fn name(&self) -> (r: &'static str)
        ensures
            r@ == preset_name(*self),
    {
        match self {
            CostPreset::Flash => "flash",
            CostPreset::Auto => "auto",
            CostPreset::Pro => "pro",
        }
    }

    /// Tier the main model starts in under this preset.
    pub fn initial_tier(&self) -> (t: ModelTier)
        ensures
            t == preset_initial_tier(*self),
    {
        match self {
            CostPreset::Flash | CostPreset::Auto => ModelTier::Flash,
            CostPreset::Pro => ModelTier::Pro,
        }
    }
}

/// Tier after a response, and whether it escalated: only an Auto preset in
/// Flash escalates, and only when the response asks for Pro.
pub open spec fn tier_after_response(preset: CostPreset, tier: ModelTier, needs_pro: bool) -> (ModelTier, bool) {
    if needs_pro && tier == ModelTier::Flash && preset == CostPreset::Auto {
        (ModelTier::Pro, true)
    } else {
        (tier, false)
    }
}

/// Tier after a round ends: an Auto preset falls back from Pro to Flash.
pub open spec fn tier_after_round(preset: CostPreset, tier: ModelTier) -> ModelTier {
    if preset == CostPreset::Auto && tier == ModelTier::Pro {
        ModelTier::Flash
    } else {
        tier
    }
}

/// Decides the tier after a response (the tier half of
/// `CostController::process_response`).
pub fn escalate_tier(preset: CostPreset, tier: ModelTier, needs_pro: bool) -> (r: (ModelTier, bool))
    ensures
        r == tier_after_response(preset, tier, needs_pro),
{
    if needs_pro && tier == ModelTier::Flash && preset == CostPreset::Auto {
        (ModelTier::Pro, true)
    } else {
        (tier, false)
    }
}

/// Decides the tier once a round ends (the tier half of
/// `CostController::end_round`).
pub fn settle_tier(preset: CostPreset, tier: ModelTier) -> (r: ModelTier)
    ensures
        r == tier_after_round(preset, tier),
{
    if preset == CostPreset::Auto && tier == ModelTier::Pro {
        ModelTier::Flash
    } else {
        tier
    }
}

/// Auxiliary calls (summaries, compression) always use Flash.
pub fn auxiliary_tier() -> (t: ModelTier)
    ensures
        t == ModelTier::Flash,
{
    ModelTier::Flash
}

/// A tier reached from a preset's initial tier by any mix of responses and
/// round ends: the tiers a controller with that preset can be in.
pub open spec fn reachable_tier(preset: CostPreset, t: ModelTier) -> bool {
    match preset {
        CostPreset::Flash => t == ModelTier::Flash,
        CostPreset::Pro => t == ModelTier::Pro,
        CostPreset::Auto => true,
    }
}

/// Flash and Pro presets never change tier: whatever the model answers, a
/// Flash preset stays on Flash and a Pro preset stays on Pro; escalation is
/// reported only by Auto, and a round end always brings Auto back to Flash.
pub proof fn lemma_tier_transitions(preset: CostPreset, t: ModelTier, needs_pro: bool)
    requires
        reachable_tier(preset, t),
    ensures
        reachable_tier(preset, tier_after_response(preset, t, needs_pro).0),
        reachable_tier(preset, tier_after_round(preset, t)),
        tier_after_response(preset, t, needs_pro).1 ==> preset == CostPreset::Auto,
        preset == CostPreset::Auto ==> tier_after_round(preset, t) == ModelTier::Flash,
        preset != CostPreset::Auto ==> tier_after_response(preset, t, needs_pro).0 == t,
        reachable_tier(preset, preset_initial_tier(preset)),
{
}

// ---------------------------------------------------------------------------
// NEEDS_PRO detection
// ---------------------------------------------------------------------------

/// `s` with every leading copy of the non-empty `p` removed
/// (`str::trim_start_matches`).
pub open spec fn strip_prefix_repeated(s: Seq<char>, p: Seq<char>) -> Seq<char>
    decreases s.len(),
{
    if p.len() > 0 && has_prefix(s, p) {
        strip_prefix_repeated(s.skip(p.len() as int), p)
    } else {
        s
    }
}

/// The plain escalation marker.
pub open spec fn pro_marker() -> Seq<char> {
    "<<<NEEDS_PRO>>>"@
}

/// The opening of the escalation marker that carries a reason.
pub open spec fn pro_reason_marker() -> Seq<char> {
    "<<<NEEDS_PRO:"@
}

/// What `NeedsProDetector::detect` returns for a response: the content
/// without the marker, and whether the marker was there.
pub open spec fn detect_spec(content: Seq<char>) -> (Seq<char>, bool) {
    let t = trim_spec(content);
    if has_prefix(t, pro_marker()) {
        (trim_spec(strip_prefix_repeated(t, pro_marker())), true)
    } else if has_prefix(t, pro_reason_marker()) {
        if exists|i: int| first_occurrence_from(t, ">>>"@, 0, i) {
            let i = choose|i: int| first_occurrence_from(t, ">>>"@, 0, i);
            (trim_spec(t.skip(i + 3)), true)
        } else {
            (t, true)
        }
    } else {
        (content, false)
    }
}

/// Bounds `[lo, hi)` of the trimmed part of `s`.
fn trim_bounds(s: &[char]) -> (r: (usize, usize))
    ensures
        r.0 <= r.1 <= s@.len(),
        s@.subrange(r.0 as int, r.1 as int) == trim_spec(s@),
{
    let a = count_leading_ws(s);
    proof { lemma_leading_count_bound(s@, ws()); }
    let t = slice_to_vec(s, a, s.len());
    assert(t@ == trim_start_spec(s@));
    let b = count_trailing_ws(t.as_slice());
    proof {
        lemma_trailing_count_bound(t@, ws());
        assert(s@.subrange(a as int, (s@.len() - b) as int) =~= trim_end_spec(t@));
    }
    (a, s.len() - b)
}

/// Length of the run of leading copies of `p` in `s[from..]`.
pub(crate) fn repeated_prefix_end(s: &[char], p: &[char], from: usize) -> (k: usize)
    requires
        p@.len() > 0,
        from <= s@.len(),
    ensures
        from <= k <= s@.len(),
        s@.skip(k as int) == strip_prefix_repeated(s@.skip(from as int), p@),
{
    let mut k = from;
    while k < s.len() && matches_at(s, p, k)
        invariant
            p@.len() > 0,
            from <= k <= s@.len(),
            strip_prefix_repeated(s@.skip(k as int), p@) == strip_prefix_repeated(s@.skip(from as int), p@),
        decreases s@.len() - k,
    {
        proof {
            assert(s@.skip(k as int).take(p@.len() as int) =~= s@.subrange(k as int, k + p@.len()));
            assert(s@.skip(k as int).skip(p@.len() as int) =~= s@.skip(k + p@.len()));
        }
        k = k + p.len();
    }
    proof {
        if k < s@.len() {
            if has_prefix(s@.skip(k as int), p@) {
                assert(s@.skip(k as int).take(p@.len() as int) =~= s@.subrange(k as int, k + p@.len()));
            }
        } else {
            assert(s@.skip(k as int).len() == 0);
        }
    }
    k
}

/// Detector of the `<<<NEEDS_PRO>>>` marker a Flash model puts first to ask
/// for the Pro tier.
pub struct NeedsProDetector;

impl NeedsProDetector {
    /// Returns the content without the marker, and whether the marker was
    /// present (plain `<<<NEEDS_PRO>>>` or `<<<NEEDS_PRO: reason>>>`).
    pub fn detect(content: &str) -> (r: (&str, bool))
        ensures
            r.0@ == detect_spec(content@).0,
            r.1 == detect_spec(content@).1,
    {
        let v = to_chars(content);
        let (lo, hi) = trim_bounds(v.as_slice());
        let t = slice_to_vec(v.as_slice(), lo, hi);
        let ghost tv = t@;
        assert(tv == trim_spec(content@));
        proof {
            reveal_strlit("<<<NEEDS_PRO>>>");
            reveal_strlit(">>>");
        }
        let marker = to_chars("<<<NEEDS_PRO>>>");
        let reason = to_chars("<<<NEEDS_PRO:");
        if starts_with(t.as_slice(), marker.as_slice()) {
            let k = repeated_prefix_end(t.as_slice(), marker.as_slice(), 0);
            assert(tv.skip(0) =~= tv);
            let rest = slice_to_vec(t.as_slice(), k, t.len());
            let (a, b) = trim_bounds(rest.as_slice());
            proof {
                assert(rest@ =~= tv.skip(k as int));
                assert(v@.subrange(lo + k + a, lo + k + b) =~= rest@.subrange(a as int, b as int));
            }
            (content.substring_char(lo + k + a, lo + k + b), true)
        } else if starts_with(t.as_slice(), reason.as_slice()) {
            let close = to_chars(">>>");
            match find(t.as_slice(), close.as_slice()) {
                Some(i) => {
                    proof {
                        let c = choose|j: int| first_occurrence_from(tv, ">>>"@, 0, j);
                        lemma_first_occurrence_unique(tv, ">>>"@, 0, i as int, c);
                    }
                    let rest = slice_to_vec(t.as_slice(), i + 3, t.len());
                    let (a, b) = trim_bounds(rest.as_slice());
                    proof {
                        assert(rest@ =~= tv.skip(i + 3));
                        assert(v@.subrange(lo + i + 3 + a, lo + i + 3 + b) =~= rest@.subrange(a as int, b as int));
                    }
                    (content.substring_char(lo + i + 3 + a, lo + i + 3 + b), true)
                },
                None => {
                    (content.substring_char(lo, hi), true)
                },
            }
        } else {
            (content, false)
        }
    }
}

// ---------------------------------------------------------------------------
// Result compression
// ---------------------------------------------------------------------------

/// Compressor of long tool results: keeps the head and the tail and states
/// how much was left out. Thresholds and lengths count UTF-8 bytes.
pub struct ResultCompressor {
    threshold: usize,
    head_chars: usize,
    tail_chars: usize,
}

/// The bytes of a text.
pub open spec fn bytes_of(s: Seq<char>) -> Seq<u8> {
    encode_utf8(s)
}

/// `a` or `b`, whichever is smaller.
pub open spec fn min_nat(a: int, b: int) -> int {
    if a < b { a } else { b }
}

/// What `ResultCompressor::compress` returns: the text itself when it fits,
/// otherwise `head + "\n…[省略 N 字符，总计 T]…\n" + tail`, with the head and
/// tail cut at byte offsets.
pub open spec fn compress_spec(content: Seq<char>, threshold: int, head: int, tail: int) -> Seq<char> {
    let b = bytes_of(content);
    let total = b.len() as int;
    if total <= threshold {
        content
    } else {
        decode_utf8(b.take(min_nat(head, total)))
            + "\n…[省略 "@ + decimal((total - head - tail) as nat)
            + " 字符，总计 "@ + decimal(total as nat) + "]…\n"@
            + decode_utf8(b.skip(if tail < total { total - tail } else { 0 }))
    }
}

/// The inputs on which `compress` cuts only at character boundaries and the
/// omitted count is not negative; on other inputs the slicing would panic.
pub open spec fn compress_well_defined(content: Seq<char>, threshold: int, head: int, tail: int) -> bool {
    let b = bytes_of(content);
    let total = b.len() as int;
    total > threshold ==> {
        &&& head + tail <= total
        &&& is_char_boundary(b, min_nat(head, total))
        &&& is_char_boundary(b, if tail < total { total - tail } else { 0 })
    }
}

impl ResultCompressor {
    /// The compressor's threshold.
    pub closed spec fn threshold_spec(&self) -> int {
        self.threshold as int
    }

    /// Bytes kept from the start.
    pub closed spec fn head_spec(&self) -> int {
        self.head_chars as int
    }

    /// Bytes kept from the end.
    pub closed spec fn tail_spec(&self) -> int {
        self.tail_chars as int
    }

    /// A compressor with the given threshold, head and tail sizes.
    pub fn new(threshold: usize, head_chars: usize, tail_chars: usize) -> (c: ResultCompressor)
        ensures
            c.threshold_spec() == threshold,
            c.head_spec() == head_chars,
            c.tail_spec() == tail_chars,
    {
        ResultCompressor { threshold, head_chars, tail_chars }
    }

    /// Keeps short content; shortens content longer than the threshold to
    /// its head and tail around a note of the omitted and total byte counts.
    pub fn compress(&self, content: &str) -> (r: String)
        requires
            compress_well_defined(content@, self.threshold_spec(), self.head_spec(), self.tail_spec()),
        ensures
            r@ == compress_spec(content@, self.threshold_spec(), self.head_spec(), self.tail_spec()),
    {
        let total = content.as_bytes().len();
        assert(content.spec_bytes() == bytes_of(content@));
        if total <= self.threshold {
            return content.to_owned();
        }
        proof {
            vstd::utf8::encode_utf8_valid_utf8(content@);
        }
        let h = if self.head_chars < total { self.head_chars } else { total };
        let t0 = if self.tail_chars < total { total - self.tail_chars } else { 0 };
        let (head, _) = content.split_at(h);
        let (_, tail) = content.split_at(t0);
        proof {
            vstd::utf8::encode_utf8_decode_utf8(head@);
            vstd::utf8::encode_utf8_decode_utf8(tail@);
        }
        let omitted = total - self.head_chars - self.tail_chars;
        let om = from_chars(decimal_chars(omitted as u64).as_slice());
        let tot = from_chars(decimal_chars(total as u64).as_slice());
        let r = head.to_owned()
            .concat("\n…[省略 ")
            .concat(om.as_str())
            .concat(" 字符，总计 ")
            .concat(tot.as_str())
            .concat("]…\n")
            .concat(tail);
        r
    }

    /// Whether `content` is longer than the threshold in bytes.
    pub fn needs_compress(&self, content: &str) -> (r: bool)
        ensures
            r == (bytes_of(content@).len() > self.threshold_spec()),
    {
        assert(content.spec_bytes() == bytes_of(content@));
        content.as_bytes().len() > self.threshold
    }
}

impl Default for ResultCompressor {
    /// Threshold 3000 bytes, head 1000, tail 500.
    fn default() -> (c: ResultCompressor)
        ensures
            c.threshold_spec() == 3000,
            c.head_spec() == 1000,
            c.tail_spec() == 500,
    {
        ResultCompressor { threshold: 3000, head_chars: 1000, tail_chars: 500 }
    }
}

} // verus!
