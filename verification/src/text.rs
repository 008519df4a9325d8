//! Character-sequence helpers shared by the whole library.
//!
//! Text is reasoned about as `Seq<char>` (the view of `str` and `String`).
//! Searching, trimming and joining are written and proved here; the few
//! Unicode tables of std (whitespace, alphanumeric, lowercase) are reached
//! through trusted wrappers at the bottom of the file.

use vstd::prelude::*;
use vstd::std_specs::iter::IteratorSpec;

verus! {

// ---------------------------------------------------------------------------
// Specifications
// ---------------------------------------------------------------------------

/// `pat` occurs in `s` starting at index `i`.
pub open spec fn occurs_at(s: Seq<char>, pat: Seq<char>, i: int) -> bool {
    &&& 0 <= i
    &&& i + pat.len() <= s.len()
    &&& s.subrange(i, i + pat.len()) == pat
}

/// `pat` occurs somewhere in `s`.
pub open spec fn contains_seq(s: Seq<char>, pat: Seq<char>) -> bool {
    exists|i: int| occurs_at(s, pat, i)
}

/// `i` is the first index at or after `from` where `pat` occurs in `s`.
pub open spec fn first_occurrence_from(s: Seq<char>, pat: Seq<char>, from: int, i: int) -> bool {
    &&& from <= i
    &&& occurs_at(s, pat, i)
    &&& forall|j: int| from <= j < i ==> !occurs_at(s, pat, j)
}

/// `pat` does not occur in `s` at or after `from`.
pub open spec fn absent_from(s: Seq<char>, pat: Seq<char>, from: int) -> bool {
    forall|j: int| from <= j ==> !occurs_at(s, pat, j)
}

/// The index of the first occurrence of `pat` in `s` at or after `from`.
pub open spec fn find_from_spec(s: Seq<char>, pat: Seq<char>, from: int) -> Option<int> {
    if exists|i: int| first_occurrence_from(s, pat, from, i) {
        Some(choose|i: int| first_occurrence_from(s, pat, from, i))
    } else {
        None
    }
}

/// `s` begins with `p`.
pub open spec fn has_prefix(s: Seq<char>, p: Seq<char>) -> bool {
    p.len() <= s.len() && s.take(p.len() as int) == p
}

/// `s` ends with `p`.
pub open spec fn has_suffix(s: Seq<char>, p: Seq<char>) -> bool {
    p.len() <= s.len() && s.skip(s.len() - p.len()) == p
}

/// Number of leading characters of `s` that satisfy `p`.
pub open spec fn leading_count(s: Seq<char>, p: spec_fn(char) -> bool) -> nat
    decreases s.len(),
{
    if s.len() > 0 && p(s[0]) {
        1 + leading_count(s.drop_first(), p)
    } else {
        0
    }
}

/// Number of trailing characters of `s` that satisfy `p`.
pub open spec fn trailing_count(s: Seq<char>, p: spec_fn(char) -> bool) -> nat
    decreases s.len(),
{
    if s.len() > 0 && p(s.last()) {
        1 + trailing_count(s.drop_last(), p)
    } else {
        0
    }
}

/// `s` without its leading characters satisfying `p`.
pub open spec fn strip_leading(s: Seq<char>, p: spec_fn(char) -> bool) -> Seq<char> {
    s.skip(leading_count(s, p) as int)
}

/// `s` without its trailing characters satisfying `p`.
pub open spec fn strip_trailing(s: Seq<char>, p: spec_fn(char) -> bool) -> Seq<char> {
    s.take(s.len() - trailing_count(s, p))
}

/// The whitespace predicate of `char::is_whitespace` as a spec closure.
pub open spec fn ws() -> spec_fn(char) -> bool {
    |c: char| is_ws(c)
}

/// `s` without leading whitespace (`str::trim_start`).
pub open spec fn trim_start_spec(s: Seq<char>) -> Seq<char> {
    strip_leading(s, ws())
}

/// `s` without trailing whitespace (`str::trim_end`).
pub open spec fn trim_end_spec(s: Seq<char>) -> Seq<char> {
    strip_trailing(s, ws())
}

/// `s` without leading and trailing whitespace (`str::trim`).
pub open spec fn trim_spec(s: Seq<char>) -> Seq<char> {
    trim_end_spec(trim_start_spec(s))
}

/// The pieces of `parts` joined with `sep` between neighbours.
pub open spec fn join_spec(parts: Seq<Seq<char>>, sep: Seq<char>) -> Seq<char>
    decreases parts.len(),
{
    if parts.len() == 0 {
        Seq::empty()
    } else if parts.len() == 1 {
        parts[0]
    } else {
        join_spec(parts.drop_last(), sep) + sep + parts.last()
    }
}

/// The views of a vector of strings.
pub open spec fn views(v: Seq<String>) -> Seq<Seq<char>> {
    v.map_values(|s: String| s@)
}

/// Decimal digits of `n`, most significant first, no leading zeros.
pub open spec fn decimal(n: nat) -> Seq<char>
    decreases n,
{
    if n < 10 {
        seq![digit_char(n)]
    } else {
        decimal(n / 10).push(digit_char(n % 10))
    }
}

/// The ASCII digit for `d < 10`.
pub open spec fn digit_char(d: nat) -> char {
    if d == 0 { '0' }
    else if d == 1 { '1' }
    else if d == 2 { '2' }
    else if d == 3 { '3' }
    else if d == 4 { '4' }
    else if d == 5 { '5' }
    else if d == 6 { '6' }
    else if d == 7 { '7' }
    else if d == 8 { '8' }
    else { '9' }
}

/// `s` with every occurrence of `c` replaced by `with`, scanning left to right.
pub open spec fn replace_char_spec(s: Seq<char>, c: char, with: Seq<char>) -> Seq<char>
    decreases s.len(),
{
    if s.len() == 0 {
        Seq::empty()
    } else {
        (if s[0] == c { with } else { seq![s[0]] }) + replace_char_spec(s.drop_first(), c, with)
    }
}

// ---------------------------------------------------------------------------
// Lemmas
// ---------------------------------------------------------------------------

/// Joining one more piece appends the separator and that piece.
pub proof fn lemma_join_push(parts: Seq<Seq<char>>, sep: Seq<char>, p: Seq<char>)
    ensures
        join_spec(parts.push(p), sep) == if parts.len() == 0 { p } else { join_spec(parts, sep) + sep + p },
{
    assert(parts.push(p).drop_last() =~= parts);
}

/// Replacement distributes over concatenation.
pub proof fn lemma_replace_char_append(a: Seq<char>, b: Seq<char>, c: char, with: Seq<char>)
    ensures
        replace_char_spec(a + b, c, with) == replace_char_spec(a, c, with) + replace_char_spec(b, c, with),
    decreases a.len(),
{
    if a.len() == 0 {
        assert(a + b =~= b);
    } else {
        assert((a + b).drop_first() =~= a.drop_first() + b);
        lemma_replace_char_append(a.drop_first(), b, c, with);
        let head: Seq<char> = if a[0] == c { with } else { seq![a[0]] };
        assert(head + (replace_char_spec(a.drop_first(), c, with) + replace_char_spec(b, c, with))
            =~= (head + replace_char_spec(a.drop_first(), c, with)) + replace_char_spec(b, c, with));
    }
}

/// Replacement of a single character.
pub proof fn lemma_replace_char_single(x: char, c: char, with: Seq<char>)
    ensures
        replace_char_spec(seq![x], c, with) == if x == c { with } else { seq![x] },
{
    reveal_with_fuel(replace_char_spec, 2);
    assert(seq![x].drop_first() =~= Seq::<char>::empty());
    let head: Seq<char> = if x == c { with } else { seq![x] };
    assert(head + Seq::<char>::empty() =~= head);
}

/// The count of leading characters never exceeds the length.
pub proof fn lemma_leading_count_bound(s: Seq<char>, p: spec_fn(char) -> bool)
    ensures
        leading_count(s, p) <= s.len(),
        forall|i: int| 0 <= i < leading_count(s, p) ==> p(#[trigger] s[i]),
        leading_count(s, p) < s.len() ==> !p(s[leading_count(s, p) as int]),
    decreases s.len(),
{
    if s.len() > 0 && p(s[0]) {
        lemma_leading_count_bound(s.drop_first(), p);
        assert forall|i: int| 0 <= i < leading_count(s, p) implies p(#[trigger] s[i]) by {
            if i > 0 {
                assert(s[i] == s.drop_first()[i - 1]);
            }
        }
    }
}

/// The count of trailing characters never exceeds the length.
pub proof fn lemma_trailing_count_bound(s: Seq<char>, p: spec_fn(char) -> bool)
    ensures
        trailing_count(s, p) <= s.len(),
        forall|i: int| s.len() - trailing_count(s, p) <= i < s.len() ==> p(#[trigger] s[i]),
        trailing_count(s, p) < s.len() ==> !p(s[s.len() - trailing_count(s, p) - 1]),
    decreases s.len(),
{
    if s.len() > 0 && p(s.last()) {
        lemma_trailing_count_bound(s.drop_last(), p);
        assert forall|i: int| s.len() - trailing_count(s, p) <= i < s.len() implies p(#[trigger] s[i]) by {
            if i < s.len() - 1 {
                assert(s[i] == s.drop_last()[i]);
            }
        }
    }
}

/// Characterises `leading_count` by its two defining facts.
pub proof fn lemma_leading_count_unique(s: Seq<char>, p: spec_fn(char) -> bool, k: int)
    requires
        0 <= k <= s.len(),
        forall|i: int| 0 <= i < k ==> p(#[trigger] s[i]),
        k < s.len() ==> !p(s[k]),
    ensures
        leading_count(s, p) == k,
    decreases s.len(),
{
    if k > 0 {
        assert(p(s[0]));
        assert forall|i: int| 0 <= i < k - 1 implies p(#[trigger] s.drop_first()[i]) by {
            assert(s.drop_first()[i] == s[i + 1]);
        }
        lemma_leading_count_unique(s.drop_first(), p, k - 1);
    }
}

/// Characterises `trailing_count` by its two defining facts.
pub proof fn lemma_trailing_count_unique(s: Seq<char>, p: spec_fn(char) -> bool, k: int)
    requires
        0 <= k <= s.len(),
        forall|i: int| s.len() - k <= i < s.len() ==> p(#[trigger] s[i]),
        k < s.len() ==> !p(s[s.len() - k - 1]),
    ensures
        trailing_count(s, p) == k,
    decreases s.len(),
{
    if k > 0 {
        assert(p(s.last()));
        assert forall|i: int| s.len() - 1 - (k - 1) <= i < s.len() - 1 implies p(#[trigger] s.drop_last()[i]) by {
            assert(s.drop_last()[i] == s[i]);
        }
        lemma_trailing_count_unique(s.drop_last(), p, k - 1);
    }
}

/// Stripping trailing characters twice changes nothing more.
pub proof fn lemma_strip_trailing_idempotent(s: Seq<char>, p: spec_fn(char) -> bool)
    ensures
        strip_trailing(strip_trailing(s, p), p) == strip_trailing(s, p),
{
    lemma_trailing_count_bound(s, p);
    let t = strip_trailing(s, p);
    lemma_trailing_count_unique(t, p, 0);
    assert(t.take(t.len() as int) =~= t);
}

/// `first_occurrence_from` has at most one witness.
pub proof fn lemma_first_occurrence_unique(s: Seq<char>, pat: Seq<char>, from: int, i: int, j: int)
    requires
        first_occurrence_from(s, pat, from, i),
        first_occurrence_from(s, pat, from, j),
    ensures
        i == j,
{
}

// ---------------------------------------------------------------------------
// Executable helpers
// ---------------------------------------------------------------------------

/// Copies the characters of `s` into a vector.
pub fn to_chars(s: &str) -> (r: Vec<char>)
    ensures
        r@ == s@,
{
    let mut r: Vec<char> = Vec::new();
    for c in it: s.chars()
        invariant
            r@ == it.seq().take(it.index() as int),
            it.seq() == s@,
    {
        r.push(c);
    }
    r
}

/// Whether `pat` occurs in `s` at index `i`.
pub fn matches_at(s: &[char], pat: &[char], i: usize) -> (r: bool)
    ensures
        r == occurs_at(s@, pat@, i as int),
{
    if pat.len() > s.len() || i > s.len() - pat.len() {
        return false;
    }
    let n = s.len();
    let mut k: usize = 0;
    while k < pat.len()
        invariant
            n == s@.len(),
            k <= pat@.len(),
            i + pat@.len() <= s@.len(),
            forall|m: int| 0 <= m < k ==> s@[i + m] == pat@[m],
        decreases pat@.len() - k,
    {
        if s[i + k] != pat[k] {
            assert(s@.subrange(i as int, i + pat@.len())[k as int] != pat@[k as int]);
            return false;
        }
        k = k + 1;
    }
    assert(s@.subrange(i as int, i + pat@.len()) =~= pat@);
    true
}

/// The first index at or after `from` where `pat` occurs in `s`.
pub fn find_from(s: &[char], pat: &[char], from: usize) -> (r: Option<usize>)
    ensures
        match r {
            Some(i) => first_occurrence_from(s@, pat@, from as int, i as int),
            None => absent_from(s@, pat@, from as int),
        },
{
    if pat.len() > s.len() {
        return None;
    }
    let last = s.len() - pat.len();
    let mut i = from;
    while i <= last
        invariant
            from <= i,
            last == s@.len() - pat@.len(),
            forall|j: int| from <= j < i ==> !occurs_at(s@, pat@, j),
        decreases last - i,
    {
        if matches_at(s, pat, i) {
            return Some(i);
        }
        if i == last {
            return None;
        }
        i = i + 1;
    }
    None
}

/// The first index where `pat` occurs in `s`.
pub fn find(s: &[char], pat: &[char]) -> (r: Option<usize>)
    ensures
        match r {
            Some(i) => first_occurrence_from(s@, pat@, 0, i as int),
            None => !contains_seq(s@, pat@),
        },
{
    find_from(s, pat, 0)
}

/// Whether `pat` occurs in `s`.
pub fn contains(s: &[char], pat: &[char]) -> (r: bool)
    ensures
        r == contains_seq(s@, pat@),
{
    find(s, pat).is_some()
}

/// Whether the text `s` contains the text `pat`.
pub fn str_contains(s: &[char], pat: &str) -> (r: bool)
    ensures
        r == contains_seq(s@, pat@),
{
    let p = to_chars(pat);
    contains(s, p.as_slice())
}

/// Whether `s` begins with `p`.
pub fn starts_with(s: &[char], p: &[char]) -> (r: bool)
    ensures
        r == has_prefix(s@, p@),
{
    let r = matches_at(s, p, 0);
    proof {
        if r {
            assert(s@.take(p@.len() as int) =~= s@.subrange(0, p@.len() as int));
        }
        if has_prefix(s@, p@) {
            assert(s@.take(p@.len() as int) =~= s@.subrange(0, p@.len() as int));
        }
    }
    r
}

/// Whether `s` ends with `p`.
pub fn ends_with(s: &[char], p: &[char]) -> (r: bool)
    ensures
        r == has_suffix(s@, p@),
{
    if p.len() > s.len() {
        return false;
    }
    let r = matches_at(s, p, s.len() - p.len());
    proof {
        assert(s@.skip(s@.len() - p@.len()) =~= s@.subrange(s@.len() - p@.len(), s@.len() as int));
    }
    r
}

/// The subrange `[from, to)` of `s` as a vector.
pub fn slice_to_vec(s: &[char], from: usize, to: usize) -> (r: Vec<char>)
    requires
        from <= to <= s@.len(),
    ensures
        r@ == s@.subrange(from as int, to as int),
{
    let mut r: Vec<char> = Vec::new();
    let mut i = from;
    while i < to
        invariant
            from <= i <= to <= s@.len(),
            r@ == s@.subrange(from as int, i as int),
        decreases to - i,
    {
        r.push(s[i]);
        i = i + 1;
        assert(r@ =~= s@.subrange(from as int, i as int));
    }
    r
}

/// Appends all of `b` to `a`.
pub fn extend_chars(a: &mut Vec<char>, b: &[char])
    ensures
        final(a)@ == old(a)@ + b@,
{
    let mut i: usize = 0;
    while i < b.len()
        invariant
            i <= b@.len(),
            a@ == old(a)@ + b@.take(i as int),
        decreases b@.len() - i,
    {
        a.push(b[i]);
        i = i + 1;
        assert(a@ =~= old(a)@ + b@.take(i as int));
    }
    assert(b@.take(b@.len() as int) =~= b@);
}

/// Appends the characters of the text `t` to `a`.
pub fn push_str(a: &mut Vec<char>, t: &str)
    ensures
        final(a)@ == old(a)@ + t@,
{
    let v = to_chars(t);
    extend_chars(a, v.as_slice());
}

/// Number of leading characters of `s` that are whitespace.
pub fn count_leading_ws(s: &[char]) -> (r: usize)
    ensures
        r == leading_count(s@, ws()),
{
    let mut i: usize = 0;
    while i < s.len() && is_whitespace(s[i])
        invariant
            i <= s@.len(),
            forall|j: int| 0 <= j < i ==> ws()(#[trigger] s@[j]),
        decreases s@.len() - i,
    {
        i = i + 1;
    }
    proof {
        lemma_leading_count_unique(s@, ws(), i as int);
    }
    i
}

/// Number of trailing characters of `s` that are whitespace.
pub fn count_trailing_ws(s: &[char]) -> (r: usize)
    ensures
        r == trailing_count(s@, ws()),
{
    let mut k: usize = 0;
    while k < s.len() && is_whitespace(s[s.len() - 1 - k])
        invariant
            k <= s@.len(),
            forall|j: int| s@.len() - k <= j < s@.len() ==> ws()(#[trigger] s@[j]),
        decreases s@.len() - k,
    {
        k = k + 1;
    }
    proof {
        lemma_trailing_count_unique(s@, ws(), k as int);
    }
    k
}

/// `s` without leading and trailing whitespace (`str::trim`).
pub fn trim(s: &[char]) -> (r: Vec<char>)
    ensures
        r@ == trim_spec(s@),
{
    let a = count_leading_ws(s);
    proof { lemma_leading_count_bound(s@, ws()); }
    let t = slice_to_vec(s, a, s.len());
    assert(t@ == trim_start_spec(s@));
    let b = count_trailing_ws(t.as_slice());
    proof { lemma_trailing_count_bound(t@, ws()); }
    let r = slice_to_vec(t.as_slice(), 0, t.len() - b);
    assert(r@ =~= trim_end_spec(t@));
    r
}

/// `s` without trailing whitespace (`str::trim_end`).
pub fn trim_end(s: &[char]) -> (r: Vec<char>)
    ensures
        r@ == trim_end_spec(s@),
{
    let b = count_trailing_ws(s);
    proof { lemma_trailing_count_bound(s@, ws()); }
    let r = slice_to_vec(s, 0, s.len() - b);
    assert(r@ =~= trim_end_spec(s@));
    r
}

/// The text `s` with surrounding whitespace removed, as characters.
pub fn trimmed_chars(s: &str) -> (r: Vec<char>)
    ensures
        r@ == trim_spec(s@),
{
    let v = to_chars(s);
    trim(v.as_slice())
}

/// Whether two character sequences are equal.
pub fn chars_eq(a: &[char], b: &[char]) -> (r: bool)
    ensures
        r == (a@ == b@),
{
    if a.len() != b.len() {
        return false;
    }
    let r = matches_at(a, b, 0);
    proof {
        assert(a@.subrange(0, b@.len() as int) =~= a@);
    }
    r
}

/// Whether the characters `a` spell the text `b`.
pub fn eq_str(a: &[char], b: &str) -> (r: bool)
    ensures
        r == (a@ == b@),
{
    let v = to_chars(b);
    chars_eq(a, v.as_slice())
}

/// Decimal representation of `n`.
pub fn decimal_chars(n: u64) -> (r: Vec<char>)
    ensures
        r@ == decimal(n as nat),
    decreases n,
{
    let d = digit((n % 10) as u8);
    if n < 10 {
        let mut r: Vec<char> = Vec::new();
        r.push(d);
        assert(r@ =~= seq![digit_char(n as nat)]);
        r
    } else {
        let mut r = decimal_chars(n / 10);
        r.push(d);
        r
    }
}

/// Decimal text of a signed number: a minus sign before the digits of a
/// negative one.
pub open spec fn signed_decimal(n: int) -> Seq<char> {
    if n < 0 { "-"@ + decimal((-n) as nat) } else { decimal(n as nat) }
}

/// Decimal text of the signed `n` (`i64::to_string`).
pub fn signed_decimal_chars(n: i64) -> (r: Vec<char>)
    ensures
        r@ == signed_decimal(n as int),
{
    if n < 0 {
        let mag: u64 = (0i128 - (n as i128)) as u64;
        let mut v = to_chars("-");
        let d = decimal_chars(mag);
        extend_chars(&mut v, d.as_slice());
        proof {
            reveal_strlit("-");
        }
        v
    } else {
        decimal_chars(n as u64)
    }
}

/// Decimal digits of a 128-bit `n`.
pub fn decimal_chars_wide(n: u128) -> (r: Vec<char>)
    ensures
        r@ == decimal(n as nat),
    decreases n,
{
    let d = digit((n % 10) as u8);
    if n < 10 {
        let mut r: Vec<char> = Vec::new();
        r.push(d);
        assert(r@ =~= seq![digit_char(n as nat)]);
        r
    } else {
        let mut r = decimal_chars_wide(n / 10);
        r.push(d);
        r
    }
}

/// The ASCII digit for `d`.
pub fn digit(d: u8) -> (c: char)
    requires
        d < 10,
    ensures
        c == digit_char(d as nat),
{
    if d == 0 { '0' }
    else if d == 1 { '1' }
    else if d == 2 { '2' }
    else if d == 3 { '3' }
    else if d == 4 { '4' }
    else if d == 5 { '5' }
    else if d == 6 { '6' }
    else if d == 7 { '7' }
    else if d == 8 { '8' }
    else { '9' }
}

/// The pieces joined with `sep` (`[String]::join`).
pub fn join(parts: &Vec<String>, sep: &str) -> (r: Vec<char>)
    ensures
        r@ == join_spec(views(parts@), sep@),
{
    let mut r: Vec<char> = Vec::new();
    let mut i: usize = 0;
    while i < parts.len()
        invariant
            i <= parts@.len(),
            r@ == join_spec(views(parts@.take(i as int)), sep@),
        decreases parts@.len() - i,
    {
        proof {
            lemma_join_push(views(parts@.take(i as int)), sep@, parts@[i as int]@);
            assert(views(parts@.take(i + 1)) =~= views(parts@.take(i as int)).push(parts@[i as int]@));
        }
        if i > 0 {
            push_str(&mut r, sep);
        }
        push_str(&mut r, parts[i].as_str());
        i = i + 1;
    }
    assert(parts@.take(parts@.len() as int) =~= parts@);
    r
}

/// `s` with every occurrence of the non-empty `pat` replaced by `with`,
/// scanning left to right without overlaps (`str::replace`).
pub open spec fn replace_spec(s: Seq<char>, pat: Seq<char>, with: Seq<char>) -> Seq<char>
    decreases s.len(),
{
    if s.len() == 0 || pat.len() == 0 {
        s
    } else if has_prefix(s, pat) {
        with + replace_spec(s.skip(pat.len() as int), pat, with)
    } else {
        seq![s[0]] + replace_spec(s.skip(1), pat, with)
    }
}

/// `s` with every occurrence of the non-empty `pat` replaced by `with`.
pub fn replace_str(s: &str, pat: &str, with: &str) -> (r: String)
    requires
        pat@.len() > 0,
    ensures
        r@ == replace_spec(s@, pat@, with@),
{
    let c = to_chars(s);
    let p = to_chars(pat);
    let w = to_chars(with);
    let mut out: Vec<char> = Vec::new();
    let mut i: usize = 0;
    assert(c@.skip(0) =~= c@);
    assert(out@ + replace_spec(c@, p@, w@) =~= replace_spec(c@, p@, w@));
    while i < c.len()
        invariant
            i <= c@.len(),
            c@ == s@,
            p@ == pat@,
            w@ == with@,
            p@.len() > 0,
            out@ + replace_spec(c@.skip(i as int), p@, w@) == replace_spec(c@, p@, w@),
        decreases c@.len() - i,
    {
        let ghost rest = c@.skip(i as int);
        let ghost before = out@;
        if matches_at(c.as_slice(), p.as_slice(), i) {
            assert(rest.take(p@.len() as int) =~= c@.subrange(i as int, i + p@.len()));
            extend_chars(&mut out, w.as_slice());
            assert(rest.skip(p@.len() as int) =~= c@.skip(i + p@.len()));
            assert(out@ + replace_spec(c@.skip(i + p@.len()), p@, w@) =~= before + replace_spec(rest, p@, w@));
            i = i + p.len();
        } else {
            proof {
                if has_prefix(rest, p@) {
                    assert(rest.take(p@.len() as int) =~= c@.subrange(i as int, i + p@.len()));
                }
            }
            out.push(c[i]);
            assert(rest.skip(1) =~= c@.skip(i + 1));
            assert(out@ + replace_spec(c@.skip(i + 1), p@, w@) =~= before + replace_spec(rest, p@, w@));
            i = i + 1;
        }
    }
    assert(out@ + replace_spec(c@.skip(i as int), p@, w@) =~= out@);
    from_chars(out.as_slice())
}

/// `s` with every `c` replaced by the text `with`.
pub fn replace_char(s: &[char], c: char, with: &str) -> (r: Vec<char>)
    ensures
        r@ == replace_char_spec(s@, c, with@),
{
    let w = to_chars(with);
    let mut r: Vec<char> = Vec::new();
    let mut i: usize = 0;
    proof {
        assert(s@.take(0) =~= Seq::<char>::empty());
    }
    while i < s.len()
        invariant
            i <= s@.len(),
            w@ == with@,
            r@ == replace_char_spec(s@.take(i as int), c, with@),
        decreases s@.len() - i,
    {
        proof {
            assert(s@.take(i + 1) =~= s@.take(i as int) + seq![s@[i as int]]);
            lemma_replace_char_append(s@.take(i as int), seq![s@[i as int]], c, with@);
            lemma_replace_char_single(s@[i as int], c, with@);
        }
        if s[i] == c {
            extend_chars(&mut r, w.as_slice());
        } else {
            r.push(s[i]);
        }
        i = i + 1;
    }
    assert(s@.take(s@.len() as int) =~= s@);
    r
}

/// The Unicode White_Space property (PropList.txt), which is what
/// `char::is_whitespace` tests.
pub open spec fn is_ws(c: char) -> bool {
    let v = c as u32;
    ||| 0x09 <= v <= 0x0D
    ||| v == 0x20 || v == 0x85 || v == 0xA0 || v == 0x1680
    ||| 0x2000 <= v <= 0x200A
    ||| v == 0x2028 || v == 0x2029 || v == 0x202F || v == 0x205F || v == 0x3000
}

/// Whether `c` is Unicode whitespace (`char::is_whitespace`).
pub fn is_whitespace(c: char) -> (r: bool)
    ensures
        r == is_ws(c),
{
    let v = c as u32;
    (0x09 <= v && v <= 0x0D) || v == 0x20 || v == 0x85 || v == 0xA0 || v == 0x1680
        || (0x2000 <= v && v <= 0x200A) || v == 0x2028 || v == 0x2029 || v == 0x202F
        || v == 0x205F || v == 0x3000
}

// ---------------------------------------------------------------------------
// Splitting
// ---------------------------------------------------------------------------

/// The words found in the first `i` characters of `s` and the word still
/// being read: words are maximal runs of non-whitespace.
pub open spec fn words_acc(s: Seq<char>, i: int) -> (Seq<Seq<char>>, Seq<char>)
    decreases i,
{
    if i <= 0 {
        (Seq::empty(), Seq::empty())
    } else {
        let p = words_acc(s, i - 1);
        if is_ws(s[i - 1]) {
            if p.1.len() > 0 { (p.0.push(p.1), Seq::empty()) } else { p }
        } else {
            (p.0, p.1.push(s[i - 1]))
        }
    }
}

/// The whitespace-separated words of `s` (`str::split_whitespace`).
pub open spec fn words_spec(s: Seq<char>) -> Seq<Seq<char>> {
    let p = words_acc(s, s.len() as int);
    if p.1.len() > 0 { p.0.push(p.1) } else { p.0 }
}

/// The whitespace-separated words of `s`.
pub fn words(s: &[char]) -> (r: Vec<String>)
    ensures
        views(r@) == words_spec(s@),
{
    let mut done: Vec<String> = Vec::new();
    let mut cur: Vec<char> = Vec::new();
    let mut i: usize = 0;
    while i < s.len()
        invariant
            i <= s@.len(),
            (views(done@), cur@) == words_acc(s@, i as int),
        decreases s@.len() - i,
    {
        if is_whitespace(s[i]) {
            if cur.len() > 0 {
                let ghost before = views(done@);
                done.push(from_chars(cur.as_slice()));
                assert(views(done@) =~= before.push(cur@));
                cur = Vec::new();
            }
        } else {
            cur.push(s[i]);
        }
        i = i + 1;
    }
    if cur.len() > 0 {
        let ghost before = views(done@);
        done.push(from_chars(cur.as_slice()));
        assert(views(done@) =~= before.push(cur@));
    }
    done
}

/// Index of the first `c` in `s`, if any.
pub open spec fn index_of_char(s: Seq<char>, c: char) -> Option<int> {
    if exists|i: int| 0 <= i < s.len() && s[i] == c && forall|j: int| 0 <= j < i ==> s[j] != c {
        Some(choose|i: int| 0 <= i < s.len() && s[i] == c && forall|j: int| 0 <= j < i ==> s[j] != c)
    } else {
        None
    }
}

/// The pieces of `s` between occurrences of `c` (`str::split` by a char):
/// always at least one piece.
pub open spec fn split_spec(s: Seq<char>, c: char) -> Seq<Seq<char>>
    decreases s.len(),
{
    if s.len() == 0 {
        seq![Seq::empty()]
    } else {
        let rest = split_spec(s.drop_last(), c);
        if s.last() == c {
            rest.push(Seq::empty())
        } else {
            rest.update(rest.len() - 1, rest.last().push(s.last()))
        }
    }
}

/// A line without its carriage return.
pub open spec fn strip_cr(l: Seq<char>) -> Seq<char> {
    if l.len() > 0 && l.last() == '\r' { l.drop_last() } else { l }
}

/// The lines of `s` (`str::lines`): pieces between newlines, without a
/// final empty piece, each without a trailing carriage return.
pub open spec fn lines_spec(s: Seq<char>) -> Seq<Seq<char>> {
    let parts = split_spec(s, '\n');
    let kept = if parts.last().len() == 0 { parts.drop_last() } else { parts };
    kept.map_values(|l: Seq<char>| strip_cr(l))
}

/// The predicate "is the character `c`".
pub open spec fn is_char(c: char) -> spec_fn(char) -> bool {
    |x: char| x == c
}

/// `s` without every leading and trailing `c` (`str::trim_matches` by a char).
pub open spec fn trim_matches_spec(s: Seq<char>, c: char) -> Seq<char> {
    strip_trailing(strip_leading(s, is_char(c)), is_char(c))
}

/// The piece count of a split is positive.
pub proof fn lemma_split_nonempty(s: Seq<char>, c: char)
    ensures
        split_spec(s, c).len() >= 1,
    decreases s.len(),
{
    if s.len() > 0 {
        lemma_split_nonempty(s.drop_last(), c);
    }
}

/// Appending text without `c` to `a` extends the last piece of its split.
pub proof fn lemma_split_append_plain(a: Seq<char>, p: Seq<char>, c: char)
    requires
        forall|i: int| 0 <= i < p.len() ==> p[i] != c,
    ensures
        split_spec(a + p, c) == split_spec(a, c).update(
            split_spec(a, c).len() - 1, split_spec(a, c).last() + p),
    decreases p.len(),
{
    lemma_split_nonempty(a, c);
    if p.len() == 0 {
        assert(a + p =~= a);
        assert(split_spec(a, c).last() + p =~= split_spec(a, c).last());
        assert(split_spec(a, c).update(split_spec(a, c).len() - 1, split_spec(a, c).last()) =~= split_spec(a, c));
    } else {
        let q = p.drop_last();
        lemma_split_append_plain(a, q, c);
        assert((a + p).drop_last() =~= a + q);
        assert((a + p).last() == p.last());
        lemma_split_nonempty(a + q, c);
        let r = split_spec(a, c);
        assert(split_spec(a + p, c) =~= r.update(r.len() - 1, r.last() + p)) by {
            assert((r.last() + q).push(p.last()) =~= r.last() + p);
        }
    }
}

/// Appending `c` to `a` starts a new, empty piece.
pub proof fn lemma_split_append_sep(a: Seq<char>, c: char)
    ensures
        split_spec(a.push(c), c) == split_spec(a, c).push(Seq::empty()),
{
    assert(a.push(c).drop_last() =~= a);
}

/// Splitting the join of pieces without the separator gives the pieces back.
pub proof fn lemma_split_join(parts: Seq<Seq<char>>, c: char)
    requires
        parts.len() > 0,
        forall|i: int, j: int| 0 <= i < parts.len() && 0 <= j < parts[i].len() ==> #[trigger] parts[i][j] != c,
    ensures
        split_spec(join_spec(parts, seq![c]), c) == parts,
    decreases parts.len(),
{
    let last = parts.last();
    assert forall|j: int| 0 <= j < last.len() implies last[j] != c by {
        assert(parts[parts.len() - 1][j] != c);
    }
    if parts.len() == 1 {
        lemma_split_append_plain(Seq::empty(), last, c);
        assert(Seq::<char>::empty() + last =~= last);
        assert(Seq::<char>::empty() + last =~= parts[0]);
        assert(split_spec(Seq::<char>::empty(), c).update(0, Seq::<char>::empty() + last) =~= parts);
    } else {
        let init = parts.drop_last();
        assert forall|i: int, j: int| 0 <= i < init.len() && 0 <= j < init[i].len() implies #[trigger] init[i][j] != c by {
            assert(init[i] == parts[i]);
        }
        lemma_split_join(init, c);
        let jn = join_spec(init, seq![c]);
        assert(join_spec(parts, seq![c]) =~= jn.push(c) + last);
        lemma_split_append_plain(jn.push(c), last, c);
        lemma_split_append_sep(jn, c);
        let r = split_spec(jn.push(c), c);
        assert(r =~= init.push(Seq::empty()));
        assert(Seq::<char>::empty() + last =~= last);
        assert(r.update(r.len() - 1, r.last() + last) =~= parts);
    }
}

/// Splits `s` at every `c`.
pub fn split_char(s: &[char], c: char) -> (r: Vec<Vec<char>>)
    ensures
        r@.len() >= 1,
        r@.map_values(|v: Vec<char>| v@) == split_spec(s@, c),
{
    let mut r: Vec<Vec<char>> = Vec::new();
    let mut cur: Vec<char> = Vec::new();
    let mut i: usize = 0;
    proof {
        assert(s@.take(0) =~= Seq::<char>::empty());
    }
    while i < s.len()
        invariant
            i <= s@.len(),
            r@.map_values(|v: Vec<char>| v@).push(cur@) == split_spec(s@.take(i as int), c),
        decreases s@.len() - i,
    {
        proof {
            assert(s@.take(i + 1).drop_last() =~= s@.take(i as int));
            lemma_split_nonempty(s@.take(i as int), c);
        }
        let ghost before = r@.map_values(|v: Vec<char>| v@).push(cur@);
        if s[i] == c {
            let done = cur;
            r.push(done);
            cur = Vec::new();
            assert(r@.map_values(|v: Vec<char>| v@).push(cur@) =~= before.push(Seq::empty()));
        } else {
            cur.push(s[i]);
            assert(r@.map_values(|v: Vec<char>| v@).push(cur@)
                =~= before.update(before.len() - 1, before.last().push(s@[i as int])));
        }
        i = i + 1;
    }
    assert(s@.take(s@.len() as int) =~= s@);
    r.push(cur);
    r
}

/// The lines of `s`.
pub fn lines(s: &[char]) -> (r: Vec<Vec<char>>)
    ensures
        r@.map_values(|v: Vec<char>| v@) == lines_spec(s@),
{
    let mut parts = split_char(s, '\n');
    let ghost all = parts@.map_values(|v: Vec<char>| v@);
    let last_len = parts[parts.len() - 1].len();
    if last_len == 0 {
        parts.pop();
        assert(parts@.map_values(|v: Vec<char>| v@) =~= all.drop_last());
    }
    let ghost kept = parts@.map_values(|v: Vec<char>| v@);
    let mut out: Vec<Vec<char>> = Vec::new();
    let mut i: usize = 0;
    while i < parts.len()
        invariant
            i <= parts@.len(),
            kept == parts@.map_values(|v: Vec<char>| v@),
            out@.map_values(|v: Vec<char>| v@) == kept.take(i as int).map_values(|l: Seq<char>| strip_cr(l)),
        decreases parts@.len() - i,
    {
        let l = &parts[i];
        let line = if l.len() > 0 && l[l.len() - 1] == '\r' {
            slice_to_vec(l.as_slice(), 0, l.len() - 1)
        } else {
            slice_to_vec(l.as_slice(), 0, l.len())
        };
        proof {
            assert(kept[i as int] == l@);
            assert(l@.drop_last() =~= l@.subrange(0, l@.len() - 1));
            assert(l@ =~= l@.subrange(0, l@.len() as int));
        }
        out.push(line);
        proof {
            assert(kept.take(i + 1).map_values(|l: Seq<char>| strip_cr(l))
                =~= kept.take(i as int).map_values(|l: Seq<char>| strip_cr(l)).push(strip_cr(kept[i as int])));
        }
        i = i + 1;
        assert(out@.map_values(|v: Vec<char>| v@) =~= kept.take(i as int).map_values(|l: Seq<char>| strip_cr(l)));
    }
    assert(kept.take(kept.len() as int) =~= kept);
    out
}

/// `s` without every leading and trailing `c`.
pub fn trim_matches(s: &[char], c: char) -> (r: Vec<char>)
    ensures
        r@ == trim_matches_spec(s@, c),
{
    let mut a: usize = 0;
    while a < s.len() && s[a] == c
        invariant
            a <= s@.len(),
            forall|j: int| 0 <= j < a ==> is_char(c)(#[trigger] s@[j]),
        decreases s@.len() - a,
    {
        a = a + 1;
    }
    proof {
        lemma_leading_count_unique(s@, is_char(c), a as int);
    }
    let t = slice_to_vec(s, a, s.len());
    let mut k: usize = 0;
    while k < t.len() && t[t.len() - 1 - k] == c
        invariant
            k <= t@.len(),
            forall|j: int| t@.len() - k <= j < t@.len() ==> is_char(c)(#[trigger] t@[j]),
        decreases t@.len() - k,
    {
        k = k + 1;
    }
    proof {
        lemma_trailing_count_unique(t@, is_char(c), k as int);
        assert(t@ =~= strip_leading(s@, is_char(c)));
    }
    let r = slice_to_vec(t.as_slice(), 0, t.len() - k);
    assert(r@ =~= strip_trailing(t@, is_char(c)));
    r
}

/// The first `c` in `s`, if any.
pub fn position_of(s: &[char], c: char) -> (r: Option<usize>)
    ensures
        match r {
            Some(i) => index_of_char(s@, c) == Some(i as int),
            None => index_of_char(s@, c) is None,
        },
{
    let mut i: usize = 0;
    while i < s.len()
        invariant
            i <= s@.len(),
            forall|j: int| 0 <= j < i ==> s@[j] != c,
        decreases s@.len() - i,
    {
        if s[i] == c {
            proof {
                let k = choose|k: int| 0 <= k < s@.len() && s@[k] == c && forall|j: int| 0 <= j < k ==> s@[j] != c;
                if k < i { } else if k > i { assert(s@[i as int] == c); }
            }
            return Some(i);
        }
        i = i + 1;
    }
    None
}

// ---------------------------------------------------------------------------
// Paths
// ---------------------------------------------------------------------------

/// `base` joined with the relative component `comp`, as `Path::join` does
/// on Unix: nothing is added to an empty base, and no second `/` after one.
pub open spec fn join_path(base: Seq<char>, comp: Seq<char>) -> Seq<char> {
    if base.len() == 0 {
        comp
    } else if base.last() == '/' {
        base + comp
    } else {
        base + seq!['/'] + comp
    }
}

/// Appends `comp` to the path in `base` as `join_path` says.
pub fn join_into(base: &mut Vec<char>, comp: &[char])
    ensures
        final(base)@ == join_path(old(base)@, comp@),
{
    if base.len() > 0 && base[base.len() - 1] != '/' {
        base.push('/');
    }
    extend_chars(base, comp);
}

/// `base` joined with the relative component `comp` (see `join_path`).
pub fn path_join(base: &str, comp: &str) -> (r: String)
    ensures
        r@ == join_path(base@, comp@),
{
    let mut v = to_chars(base);
    let c = to_chars(comp);
    join_into(&mut v, c.as_slice());
    from_chars(v.as_slice())
}

// ---------------------------------------------------------------------------
// Numbers
// ---------------------------------------------------------------------------

/// The ASCII digits `0` to `9`.
pub open spec fn is_digit(c: char) -> bool {
    '0' <= c && c <= '9'
}

/// `s` without a leading `+`.
pub open spec fn unsigned_digits(s: Seq<char>) -> Seq<char> {
    if s.len() > 0 && s[0] == '+' { s.drop_first() } else { s }
}

/// Every character of `d` is an ASCII digit.
pub open spec fn all_digits(d: Seq<char>) -> bool {
    forall|i: int| 0 <= i < d.len() ==> is_digit(#[trigger] d[i])
}

/// The value of the decimal digits `s`.
pub open spec fn digits_value(s: Seq<char>) -> nat
    decreases s.len(),
{
    if s.len() == 0 {
        0
    } else {
        digits_value(s.drop_last()) * 10 + ((s.last() as nat) - ('0' as nat)) as nat
    }
}

/// The value of the digits `d` when they are one or more ASCII digits
/// whose value fits in 64 bits.
pub open spec fn digits_u64(d: Seq<char>) -> Option<u64> {
    if d.len() > 0 && all_digits(d) && digits_value(d) <= u64::MAX {
        Some(digits_value(d) as u64)
    } else {
        None
    }
}

/// What `str::parse::<u64>` gives for `s`: an optional `+`, then one or
/// more ASCII digits whose value fits in 64 bits.
pub open spec fn parse_u64_spec(s: Seq<char>) -> Option<u64> {
    digits_u64(unsigned_digits(s))
}

/// What `str::parse::<i64>` gives for `s`: an optional sign, then one or
/// more ASCII digits whose signed value fits in 64 bits.
pub open spec fn parse_i64_spec(s: Seq<char>) -> Option<i64> {
    if s.len() > 0 && s[0] == '-' {
        let d = s.drop_first();
        if d.len() > 0 && all_digits(d) && digits_value(d) <= 0x8000_0000_0000_0000 {
            Some((0 - digits_value(d)) as i64)
        } else {
            None
        }
    } else {
        let d = unsigned_digits(s);
        if d.len() > 0 && all_digits(d) && digits_value(d) <= i64::MAX {
            Some(digits_value(d) as i64)
        } else {
            None
        }
    }
}

/// Digit values grow with the digits.
pub proof fn lemma_digits_value_prefix(s: Seq<char>, i: int)
    requires
        0 <= i <= s.len(),
        forall|j: int| 0 <= j < s.len() ==> is_digit(#[trigger] s[j]),
    ensures
        digits_value(s.take(i)) <= digits_value(s),
    decreases s.len() - i,
{
    if i < s.len() {
        lemma_digits_value_prefix(s, i + 1);
        assert(s.take(i + 1).drop_last() =~= s.take(i));
    } else {
        assert(s.take(i) =~= s);
    }
}

/// The value of the digits `d` as `digits_u64` gives it.
pub fn parse_digits(d: &[char]) -> (r: Option<u64>)
    ensures
        r == digits_u64(d@),
{
    if d.len() == 0 {
        return None;
    }
    let mut v: u64 = 0;
    let mut i: usize = 0;
    while i < d.len()
        invariant
            i <= d@.len(),
            d@.len() > 0,
            forall|j: int| 0 <= j < i ==> is_digit(#[trigger] d@[j]),
            v as nat == digits_value(d@.take(i as int)),
        decreases d@.len() - i,
    {
        let c = d[i];
        if !('0' <= c && c <= '9') {
            assert(!is_digit(d@[i as int]));
            assert(!all_digits(d@));
            return None;
        }
        assert(d@.take(i + 1).drop_last() =~= d@.take(i as int));
        assert(d@.take(i + 1).last() == c);
        let digit = (c as u32 - '0' as u32) as u64;
        assert(digit as nat == (c as nat) - ('0' as nat));
        if v > (u64::MAX - digit) / 10 {
            proof {
                assert(v * 10 + digit > u64::MAX) by (nonlinear_arith)
                    requires
                        v > (u64::MAX - digit) / 10,
                        digit <= 9;
                assert(digits_value(d@.take(i + 1)) == v * 10 + digit);
                if all_digits(d@) {
                    lemma_digits_value_prefix(d@, i + 1);
                }
            }
            return None;
        }
        v = v * 10 + digit;
        i = i + 1;
    }
    assert(d@.take(d@.len() as int) =~= d@);
    Some(v)
}

/// The number in `s` as `str::parse::<u64>` reads it.
pub fn parse_u64(s: &[char]) -> (r: Option<u64>)
    ensures
        r == parse_u64_spec(s@),
{
    let start: usize = if s.len() > 0 && s[0] == '+' { 1 } else { 0 };
    let d = slice_to_vec(s, start, s.len());
    assert(d@ =~= unsigned_digits(s@));
    parse_digits(d.as_slice())
}

/// The number in `s` as `str::parse::<i64>` reads it.
pub fn parse_i64(s: &[char]) -> (r: Option<i64>)
    ensures
        r == parse_i64_spec(s@),
{
    if s.len() > 0 && s[0] == '-' {
        let d = slice_to_vec(s, 1, s.len());
        assert(d@ =~= s@.drop_first());
        match parse_digits(d.as_slice()) {
            Some(m) => {
                if m <= 0x8000_0000_0000_0000u64 {
                    if m == 0x8000_0000_0000_0000u64 {
                        Some(i64::MIN)
                    } else {
                        Some(0 - (m as i64))
                    }
                } else {
                    None
                }
            },
            None => None,
        }
    } else {
        let start: usize = if s.len() > 0 && s[0] == '+' { 1 } else { 0 };
        let d = slice_to_vec(s, start, s.len());
        assert(d@ =~= unsigned_digits(s@));
        match parse_digits(d.as_slice()) {
            Some(m) => {
                if m <= 0x7FFF_FFFF_FFFF_FFFFu64 {
                    Some(m as i64)
                } else {
                    None
                }
            },
            None => None,
        }
    }
}

// ---------------------------------------------------------------------------
// UTF-8 lengths
// ---------------------------------------------------------------------------

/// Number of UTF-8 bytes of a character.
pub open spec fn char_width(c: char) -> nat {
    vstd::utf8::encode_scalar(c as u32).len()
}

/// Number of UTF-8 bytes of a text (`str::len`).
pub open spec fn ulen(s: Seq<char>) -> nat {
    vstd::utf8::encode_utf8(s).len()
}

/// UTF-8 encoding distributes over concatenation.
pub proof fn lemma_encode_append(a: Seq<char>, b: Seq<char>)
    ensures
        vstd::utf8::encode_utf8(a + b) == vstd::utf8::encode_utf8(a) + vstd::utf8::encode_utf8(b),
    decreases a.len(),
{
    if a.len() == 0 {
        assert(a + b =~= b);
        assert(vstd::utf8::encode_utf8(a) =~= Seq::<u8>::empty());
        assert(Seq::<u8>::empty() + vstd::utf8::encode_utf8(b) =~= vstd::utf8::encode_utf8(b));
    } else {
        assert((a + b).drop_first() =~= a.drop_first() + b);
        assert((a + b)[0] == a[0]);
        lemma_encode_append(a.drop_first(), b);
        let e = vstd::utf8::encode_scalar(a[0] as u32);
        assert(e + (vstd::utf8::encode_utf8(a.drop_first()) + vstd::utf8::encode_utf8(b))
            =~= (e + vstd::utf8::encode_utf8(a.drop_first())) + vstd::utf8::encode_utf8(b));
    }
}

/// The byte length of one character.
pub proof fn lemma_ulen_single(c: char)
    ensures
        ulen(seq![c]) == char_width(c),
{
    reveal_with_fuel(vstd::utf8::encode_utf8, 2);
    assert(seq![c].drop_first() =~= Seq::<char>::empty());
    assert(vstd::utf8::encode_scalar(c as u32) + Seq::<u8>::empty() =~= vstd::utf8::encode_scalar(c as u32));
}

/// Byte lengths add up over concatenation.
pub proof fn lemma_ulen_append(a: Seq<char>, b: Seq<char>)
    ensures
        ulen(a + b) == ulen(a) + ulen(b),
{
    lemma_encode_append(a, b);
}

/// Number of UTF-8 bytes of `c`, between one and four.
pub fn utf8_width(c: char) -> (w: usize)
    ensures
        w == char_width(c),
        1 <= w <= 4,
{
    let v = c as u32;
    proof {
        vstd::utf8::char_is_scalar(c);
    }
    if v <= 0x7F {
        1
    } else if v <= 0x7FF {
        2
    } else if v <= 0xFFFF {
        3
    } else {
        4
    }
}

// ---------------------------------------------------------------------------
// Trusted wrappers over std
// ---------------------------------------------------------------------------


/// What `char::is_alphanumeric` returns for `c` (Unicode Alphabetic or Numeric).
pub uninterp spec fn is_alnum(c: char) -> bool;

/// What `str::to_lowercase` returns for the text `s`.
pub uninterp spec fn lowercase(s: Seq<char>) -> Seq<char>;


/// What `str::to_uppercase` returns for the text `s`.
pub uninterp spec fn uppercase(s: Seq<char>) -> Seq<char>;

/// Every character of `s` is ASCII.
pub open spec fn all_ascii(s: Seq<char>) -> bool {
    forall|i: int| 0 <= i < s.len() ==> (#[trigger] s[i] as u32) < 0x80
}

/// `c` is an ASCII letter or digit.
pub open spec fn ascii_alnum(c: char) -> bool {
    ('a' <= c && c <= 'z') || ('A' <= c && c <= 'Z') || ('0' <= c && c <= '9')
}

/// `s` with the ASCII capitals `A`..`Z` made small.
pub open spec fn ascii_lower(s: Seq<char>) -> Seq<char> {
    s.map_values(|c: char| if 'A' <= c && c <= 'Z' { ((c as u32) + 32) as char } else { c })
}

/// `s` with the ASCII small letters `a`..`z` made capital.
pub open spec fn ascii_upper(s: Seq<char>) -> Seq<char> {
    s.map_values(|c: char| if 'a' <= c && c <= 'z' { ((c as u32) - 32) as char } else { c })
}

/// Calls `str::to_uppercase`; the result is named `uppercase`. On ASCII
/// text only `a`..`z` change, to `A`..`Z` (the Unicode case mapping of the
/// ASCII range).
#[verifier::external_body]
pub(crate) fn to_uppercase(s: &str) -> (r: String)
    ensures
        r@ == uppercase(s@),
        all_ascii(s@) ==> r@ == ascii_upper(s@),
{
    s.to_uppercase()
}

/// Calls `char::is_alphanumeric`; the result is named `is_alnum`. In the
/// ASCII range the Alphabetic and Numeric characters are the letters and
/// digits.
#[verifier::external_body]
pub(crate) fn is_alphanumeric(c: char) -> (r: bool)
    ensures
        r == is_alnum(c),
        (c as u32) < 0x80 ==> (r == ascii_alnum(c)),
{
    c.is_alphanumeric()
}

/// Calls `str::to_lowercase` on the text; the result is named `lowercase`.
/// On ASCII text only `A`..`Z` change, to `a`..`z` (the Unicode case
/// mapping of the ASCII range).
#[verifier::external_body]
pub(crate) fn to_lowercase(s: &str) -> (r: String)
    ensures
        r@ == lowercase(s@),
        all_ascii(s@) ==> r@ == ascii_lower(s@),
{
    s.to_lowercase()
}

/// Collects characters into a `String` (`FromIterator<char>`); the text
/// holds exactly those characters in order.
#[verifier::external_body]
pub(crate) fn from_chars(v: &[char]) -> (r: String)
    ensures
        r@ == v@,
{
    v.iter().collect()
}


// ---------------------------------------------------------------------------
// Stripping
// ---------------------------------------------------------------------------

/// `s` has no character `c`.
pub open spec fn free_of(s: Seq<char>, c: char) -> bool {
    forall|j: int| 0 <= j < s.len() ==> s[j] != c
}

/// `s` neither starts nor ends with whitespace.
pub open spec fn unpadded(s: Seq<char>) -> bool {
    s.len() == 0 || (!is_ws(s[0]) && !is_ws(s.last()))
}

/// Nothing is stripped from the front of a text that starts with a kept
/// character.
pub proof fn lemma_strip_leading_none(s: Seq<char>, p: spec_fn(char) -> bool)
    requires
        s.len() == 0 || !p(s[0]),
    ensures
        strip_leading(s, p) == s,
{
    lemma_leading_count_unique(s, p, 0);
    assert(s.skip(0) =~= s);
}

/// Nothing is stripped from the end of a text that ends with a kept
/// character.
pub proof fn lemma_strip_trailing_none(s: Seq<char>, p: spec_fn(char) -> bool)
    requires
        s.len() == 0 || !p(s.last()),
    ensures
        strip_trailing(s, p) == s,
{
    lemma_trailing_count_unique(s, p, 0);
    assert(s.take(s.len() as int) =~= s);
}

/// Stripping the front of `w + v` removes exactly `w` when all of `w` is
/// stripped and `v` starts with a kept character.
pub proof fn lemma_strip_leading_prefix(w: Seq<char>, v: Seq<char>, p: spec_fn(char) -> bool)
    requires
        forall|j: int| 0 <= j < w.len() ==> p(#[trigger] w[j]),
        v.len() == 0 || !p(v[0]),
    ensures
        strip_leading(w + v, p) == v,
{
    let s = w + v;
    assert forall|i: int| 0 <= i < w.len() implies p(#[trigger] s[i]) by {
        assert(s[i] == w[i]);
    }
    if v.len() > 0 {
        assert(s[w.len() as int] == v[0]);
    }
    lemma_leading_count_unique(s, p, w.len() as int);
    assert(s.skip(w.len() as int) =~= v);
}

/// Stripping the end of `v + w` removes exactly `w` when all of `w` is
/// stripped and `v` ends with a kept character.
pub proof fn lemma_strip_trailing_suffix(v: Seq<char>, w: Seq<char>, p: spec_fn(char) -> bool)
    requires
        forall|j: int| 0 <= j < w.len() ==> p(#[trigger] w[j]),
        v.len() == 0 || !p(v.last()),
    ensures
        strip_trailing(v + w, p) == v,
{
    let s = v + w;
    assert forall|i: int| s.len() - w.len() <= i < s.len() implies p(#[trigger] s[i]) by {
        assert(s[i] == w[i - v.len()]);
    }
    if v.len() > 0 {
        assert(s[s.len() - w.len() - 1] == v.last());
    }
    lemma_trailing_count_unique(s, p, w.len() as int);
    assert(s.take(s.len() - w.len()) =~= v);
}

/// Stripping the end of `x + y`, where `x` ends with a kept character,
/// strips only within `y`.
pub proof fn lemma_strip_trailing_append(x: Seq<char>, y: Seq<char>, p: spec_fn(char) -> bool)
    requires
        x.len() > 0,
        !p(x.last()),
    ensures
        strip_trailing(x + y, p) == x + strip_trailing(y, p),
{
    let s = x + y;
    lemma_trailing_count_bound(y, p);
    let k = trailing_count(y, p) as int;
    assert forall|i: int| s.len() - k <= i < s.len() implies p(#[trigger] s[i]) by {
        assert(s[i] == y[i - x.len()]);
        assert(p(y[i - x.len()]));
    }
    if k < y.len() {
        assert(s[s.len() - k - 1] == y[y.len() - k - 1]);
    } else {
        assert(s[s.len() - k - 1] == x.last());
    }
    lemma_trailing_count_unique(s, p, k);
    assert(s.take(s.len() - k) =~= x + y.take(y.len() - k));
}

/// An unpadded text is its own trim.
pub proof fn lemma_trim_unpadded(s: Seq<char>)
    requires
        unpadded(s),
    ensures
        trim_spec(s) == s,
        trim_end_spec(s) == s,
{
    lemma_strip_leading_none(s, ws());
    lemma_strip_trailing_none(s, ws());
}

/// No character of `s` from index `i` on is `c`.
pub open spec fn lacks_from(s: Seq<char>, c: char, i: nat) -> bool
    decreases s.len() - i,
{
    if i >= s.len() {
        true
    } else {
        s[i as int] != c && lacks_from(s, c, i + 1)
    }
}

/// `lacks_from` states `free_of` from index `i` on.
pub proof fn lemma_lacks_from(s: Seq<char>, c: char, i: nat)
    requires
        lacks_from(s, c, i),
    ensures
        forall|j: int| i <= j < s.len() ==> s[j] != c,
    decreases s.len() - i,
{
    if i < s.len() {
        lemma_lacks_from(s, c, i + 1);
    }
}

} // verus!
