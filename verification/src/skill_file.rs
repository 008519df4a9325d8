//! Reading back a written skill file: the text that `render_skill_markdown`
//! writes for a skill, `parse_skill_markdown_with` reads back as that skill.

use vstd::prelude::*;
use crate::skill::{
    any_value, clean_tool, clean_tools, fm_description, fm_entry_spec, fm_lines, frontmatter_spec, last_value, opt_view,
    parsed_skill, real_category, render_spec, run_as_name, run_as_of, split_frontmatter, tools_spec, Skill,
};
use crate::text::{
    decimal, digit_char, find_from_spec, first_occurrence_from, free_of, has_prefix, index_of_char, is_char, is_ws,
    join_spec, lemma_first_occurrence_unique, lemma_join_push, lemma_split_join, lemma_strip_leading_none,
    lemma_strip_leading_prefix, lemma_strip_trailing_append, lemma_strip_trailing_none, lemma_strip_trailing_suffix,
    lemma_lacks_from, lemma_trim_unpadded, lacks_from, lines_spec, occurs_at, strip_cr, trim_end_spec, trim_matches_spec, trim_spec, unpadded,
    views, ws,
};

verus! {

// ---------------------------------------------------------------------------
// Shapes of text
// ---------------------------------------------------------------------------

/// `s` neither starts nor ends with `c`.
pub open spec fn unwrapped(s: Seq<char>, c: char) -> bool {
    s.len() == 0 || (s[0] != c && s.last() != c)
}

// ---------------------------------------------------------------------------
// Stripping
// ---------------------------------------------------------------------------

/// A space before an unpadded text: trimming the end keeps it unless the
/// text is empty, and trimming removes the space.
proof fn lemma_trim_spaced(v: Seq<char>)
    requires
        unpadded(v),
    ensures
        trim_end_spec(" "@ + v) == (if v.len() > 0 { " "@ + v } else { Seq::<char>::empty() }),
        trim_spec(trim_end_spec(" "@ + v)) == v,
{
    reveal_strlit(" ");
    assert(is_ws(' '));
    let sp = " "@;
    if v.len() > 0 {
        assert((sp + v).last() == v.last());
        lemma_strip_trailing_none(sp + v, ws());
        lemma_strip_leading_prefix(sp, v, ws());
        lemma_strip_trailing_none(v, ws());
    } else {
        assert(sp + v =~= Seq::<char>::empty() + sp);
        lemma_strip_trailing_suffix(Seq::<char>::empty(), sp, ws());
        lemma_strip_leading_none(Seq::<char>::empty(), ws());
        lemma_strip_trailing_none(Seq::<char>::empty(), ws());
    }
}

/// A text that neither starts nor ends with `c` loses nothing to
/// `trim_matches(c)`.
proof fn lemma_trim_matches_unwrapped(v: Seq<char>, c: char)
    requires
        unwrapped(v, c),
    ensures
        trim_matches_spec(v, c) == v,
{
    lemma_strip_leading_none(v, is_char(c));
    lemma_strip_trailing_none(v, is_char(c));
}

/// `c`, a non-empty text that neither starts nor ends with `c`, and `c`
/// again: `trim_matches(c)` gives the text.
proof fn lemma_trim_matches_wrapped(d: Seq<char>, c: char)
    requires
        d.len() > 0,
        unwrapped(d, c),
    ensures
        trim_matches_spec(seq![c] + d + seq![c], c) == d,
{
    assert(seq![c] + d + seq![c] =~= seq![c] + (d + seq![c]));
    lemma_strip_leading_prefix(seq![c], d + seq![c], is_char(c));
    lemma_strip_trailing_suffix(d, seq![c], is_char(c));
}


// ---------------------------------------------------------------------------
// Frontmatter entries
// ---------------------------------------------------------------------------

/// A frontmatter key: not empty, unpadded, without `:`, not starting with `-`.
pub open spec fn plain_key(key: Seq<char>) -> bool {
    &&& key.len() > 0
    &&& unpadded(key)
    &&& free_of(key, ':')
    &&& free_of(key, '\n')
    &&& key[0] != '-'
}

/// The frontmatter line `key: v`.
pub open spec fn fm_line(key: Seq<char>, v: Seq<char>) -> Seq<char> {
    key + ": "@ + v
}

/// A line `key:` followed by anything has the key `key`; its value is the
/// rest, trimmed and unquoted.
proof fn lemma_entry(key: Seq<char>, r: Seq<char>)
    requires
        plain_key(key),
    ensures
        fm_entry_spec(strip_cr(key + ":"@ + r))
            == Some((key, trim_matches_spec(trim_spec(trim_end_spec(strip_cr(r))), '"'))),
{
    reveal_strlit(":");
    let colon = ":"@;
    let r2 = strip_cr(r);
    let line = key + colon + r;
    if r.len() > 0 {
        assert(line.last() == r.last());
        if r.last() == '\r' {
            assert(line.drop_last() =~= key + colon + r.drop_last());
        }
    } else {
        assert(line.last() == ':');
    }
    assert(strip_cr(line) == key + colon + r2);
    let l0 = key + colon + r2;
    assert(l0[0] == key[0]);
    lemma_strip_leading_none(l0, ws());
    assert((key + colon).last() == ':');
    assert(!is_ws(':'));
    lemma_strip_trailing_append(key + colon, r2, ws());
    let l = key + colon + trim_end_spec(r2);
    assert(trim_spec(l0) == l);
    let p = key.len() as int;
    assert(l[p] == ':');
    assert forall|j: int| 0 <= j < p implies l[j] != ':' by {
        assert(l[j] == key[j]);
    }
    assert(index_of_char(l, ':') == Some(p)) by {
        let w = choose|i: int| 0 <= i < l.len() && l[i] == ':' && forall|j: int| 0 <= j < i ==> l[j] != ':';
        assert(0 <= p < l.len() && l[p] == ':' && forall|j: int| 0 <= j < p ==> l[j] != ':');
        if w < p {
            assert(l[w] == key[w]);
        }
    }
    assert(l.take(p) =~= key);
    lemma_trim_unpadded(key);
    assert(l.skip(p + 1) =~= trim_end_spec(r2));
}

/// The line `key: v` for an unpadded `v` has key `key` and the value `v`
/// without surrounding double quotes.
proof fn lemma_entry_value(key: Seq<char>, v: Seq<char>)
    requires
        plain_key(key),
        unpadded(v),
    ensures
        fm_entry_spec(strip_cr(fm_line(key, v))) == Some((key, trim_matches_spec(v, '"'))),
{
    reveal_strlit(": ");
    reveal_strlit(":");
    reveal_strlit(" ");
    let sv = " "@ + v;
    assert(fm_line(key, v) =~= key + ":"@ + sv);
    lemma_entry(key, sv);
    if v.len() > 0 {
        assert(sv.last() == v.last());
        assert(v.last() != '\r');
    }
    assert(strip_cr(sv) == sv);
    lemma_trim_spaced(v);
}

/// The line `key: r` has key `key`, whatever `r`.
proof fn lemma_entry_key(key: Seq<char>, r: Seq<char>)
    requires
        plain_key(key),
    ensures
        fm_entry_spec(strip_cr(fm_line(key, r))) matches Some(e) && e.0 == key,
{
    reveal_strlit(": ");
    reveal_strlit(":");
    reveal_strlit(" ");
    assert(fm_line(key, r) =~= key + ":"@ + (" "@ + r));
    lemma_entry(key, " "@ + r);
}

// ---------------------------------------------------------------------------
// Lines
// ---------------------------------------------------------------------------

/// Each line of `ls` followed by a newline.
pub open spec fn terminated(ls: Seq<Seq<char>>) -> Seq<char>
    decreases ls.len(),
{
    if ls.len() == 0 {
        Seq::empty()
    } else {
        terminated(ls.drop_last()) + ls.last() + "\n"@
    }
}

/// Each line of `ls` preceded by a newline.
pub open spec fn led(ls: Seq<Seq<char>>) -> Seq<char>
    decreases ls.len(),
{
    if ls.len() == 0 {
        Seq::empty()
    } else {
        led(ls.drop_last()) + "\n"@ + ls.last()
    }
}

/// The lines of `a + b` end with newlines as those of `a`, then of `b`.
proof fn lemma_terminated_append(a: Seq<Seq<char>>, b: Seq<Seq<char>>)
    ensures
        terminated(a + b) == terminated(a) + terminated(b),
    decreases b.len(),
{
    if b.len() == 0 {
        assert(a + b =~= a);
        assert(terminated(a) + Seq::<char>::empty() =~= terminated(a));
    } else {
        assert((a + b).drop_last() =~= a + b.drop_last());
        lemma_terminated_append(a, b.drop_last());
        assert(terminated(a) + terminated(b.drop_last()) + b.last() + "\n"@
            =~= terminated(a) + (terminated(b.drop_last()) + b.last() + "\n"@));
    }
}

/// One line, ended by a newline.
proof fn lemma_terminated_one(l: Seq<char>)
    ensures
        terminated(seq![l]) == l + "\n"@,
{
    let one = seq![l];
    assert(one.drop_last() =~= Seq::<Seq<char>>::empty());
    assert(one.last() == l);
    assert(terminated(one.drop_last()) == Seq::<char>::empty());
    assert(terminated(one) == terminated(one.drop_last()) + one.last() + "\n"@);
    assert(Seq::<char>::empty() + l + "\n"@ =~= l + "\n"@);
}

/// A newline before lines ended by newlines: the lines led by newlines,
/// then a newline.
proof fn lemma_led_terminated(ls: Seq<Seq<char>>)
    ensures
        "\n"@ + terminated(ls) == led(ls) + "\n"@,
    decreases ls.len(),
{
    if ls.len() == 0 {
        assert("\n"@ + Seq::<char>::empty() =~= Seq::<char>::empty() + "\n"@);
    } else {
        lemma_led_terminated(ls.drop_last());
        assert("\n"@ + (terminated(ls.drop_last()) + ls.last() + "\n"@)
            =~= ("\n"@ + terminated(ls.drop_last())) + ls.last() + "\n"@);
        assert((led(ls.drop_last()) + "\n"@) + ls.last() + "\n"@
            =~= (led(ls.drop_last()) + "\n"@ + ls.last()) + "\n"@);
    }
}

/// Lines led by newlines are the lines after an empty one, joined by
/// newlines.
proof fn lemma_led_join(ls: Seq<Seq<char>>)
    ensures
        led(ls) == join_spec(seq![Seq::<char>::empty()] + ls, "\n"@),
    decreases ls.len(),
{
    let e = seq![Seq::<char>::empty()];
    if ls.len() == 0 {
        assert(e + ls =~= e);
    } else {
        lemma_led_join(ls.drop_last());
        assert(e + ls =~= (e + ls.drop_last()).push(ls.last()));
        lemma_join_push(e + ls.drop_last(), "\n"@, ls.last());
    }
}

/// In `g`, a newline is never followed by `-`.
pub open spec fn no_dash_line(g: Seq<char>) -> bool {
    forall|j: int| 0 <= j < g.len() - 1 && #[trigger] g[j] == '\n' ==> g[j + 1] != '-'
}

/// In lines of at least one character, none starting with `-` nor holding
/// a newline, led by newlines and ended by one, a newline is never
/// followed by `-`.
proof fn lemma_led_no_dash(ls: Seq<Seq<char>>)
    requires
        forall|i: int| 0 <= i < ls.len() ==> (#[trigger] ls[i]).len() > 0 && ls[i][0] != '-' && free_of(ls[i], '\n'),
    ensures
        no_dash_line(led(ls) + "\n"@),
    decreases ls.len(),
{
    reveal_strlit("\n");
    if ls.len() > 0 {
        let init = ls.drop_last();
        assert forall|i: int| 0 <= i < init.len() implies (#[trigger] init[i]).len() > 0 && init[i][0] != '-'
            && free_of(init[i], '\n') by {
            assert(init[i] == ls[i]);
        }
        lemma_led_no_dash(init);
        let g0 = led(init) + "\n"@;
        let l = ls.last();
        assert(ls[ls.len() - 1] == l);
        let g = led(ls) + "\n"@;
        assert(g =~= g0 + l + "\n"@);
        assert forall|j: int| 0 <= j < g.len() - 1 && #[trigger] g[j] == '\n' implies g[j + 1] != '-' by {
            if j < g0.len() - 1 {
                assert(g[j] == g0[j]);
                assert(g[j + 1] == g0[j + 1]);
            } else if j == g0.len() - 1 {
                assert(g[j + 1] == l[0]);
            } else {
                assert(g[j] == l[j - g0.len()]);
            }
        }
    }
}

/// The lines of lines led by newlines: an empty one, then those lines.
proof fn lemma_lines_of_led(ls: Seq<Seq<char>>)
    requires
        ls.len() > 0,
        ls.last().len() > 0,
        forall|i: int| 0 <= i < ls.len() ==> free_of(#[trigger] ls[i], '\n'),
    ensures
        lines_spec(led(ls)) == (seq![Seq::<char>::empty()] + ls).map_values(|l: Seq<char>| strip_cr(l)),
{
    reveal_strlit("\n");
    let parts = seq![Seq::<char>::empty()] + ls;
    lemma_led_join(ls);
    assert("\n"@ =~= seq!['\n']);
    assert forall|i: int, j: int| 0 <= i < parts.len() && 0 <= j < parts[i].len() implies #[trigger] parts[i][j] != '\n' by {
        assert(parts[i] == ls[i - 1]);
    }
    lemma_split_join(parts, '\n');
    assert(parts.last() == ls.last());
}


// ---------------------------------------------------------------------------
// The file text
// ---------------------------------------------------------------------------

/// A frontmatter of lines ended by newlines between `---` lines, a blank
/// line and an unpadded body: the frontmatter lines led by newlines, and
/// the body.
proof fn lemma_split_rendered(ls: Seq<Seq<char>>, body: Seq<char>)
    requires
        ls.len() > 0,
        forall|i: int| 0 <= i < ls.len() ==> (#[trigger] ls[i]).len() > 0 && ls[i][0] != '-' && free_of(ls[i], '\n'),
        unpadded(body),
    ensures
        crate::skill::split_frontmatter("---\n"@ + terminated(ls) + "---\n\n"@ + body + "\n"@)
            == (Some(led(ls)), body),
{
    reveal_strlit("---\n");
    reveal_strlit("---\n\n");
    reveal_strlit("\n");
    let fm = terminated(ls);
    let c = "---\n"@ + fm + "---\n\n"@ + body + "\n"@;
    lemma_led_terminated(ls);
    lemma_led_no_dash(ls);
    let g = led(ls) + "\n"@;
    let d3 = seq!['-', '-', '-'];
    let nn = seq!['\n', '\n'];
    let n1 = seq!['\n'];
    let x = d3 + g + d3;
    let y = nn + body + n1;
    assert(c =~= d3 + ("\n"@ + fm) + d3 + y);
    assert(c =~= x + y);
    assert(c[0] == '-');
    lemma_strip_leading_none(c, ws());
    assert(x.last() == '-');
    assert(!is_ws('-'));
    lemma_strip_trailing_append(x, y, ws());
    assert(is_ws('\n'));
    let r: Seq<char> = if body.len() > 0 { nn + body } else { Seq::empty() };
    if body.len() > 0 {
        assert(y =~= (nn + body) + n1);
        assert((nn + body).last() == body.last());
        lemma_strip_trailing_suffix(nn + body, n1, ws());
    } else {
        assert(y =~= Seq::<char>::empty() + (nn + n1));
        lemma_strip_trailing_suffix(Seq::<char>::empty(), nn + n1, ws());
    }
    let t = x + r;
    assert(trim_spec(c) == t);
    assert(t.take(3) =~= d3);
    assert(has_prefix(t, d3));
    let sk = t.skip(3);
    assert(sk =~= g + d3 + r);
    let pat = seq!['\n', '-', '-', '-'];
    let idx = g.len() - 1;
    assert(g[idx] == '\n');
    assert(sk.subrange(idx, idx + 4) =~= pat);
    assert forall|j: int| 0 <= j < idx implies !occurs_at(sk, pat, j) by {
        if occurs_at(sk, pat, j) {
            assert(sk.subrange(j, j + 4)[0] == sk[j]);
            assert(sk.subrange(j, j + 4)[1] == sk[j + 1]);
            assert(sk[j] == g[j]);
            assert(sk[j + 1] == g[j + 1]);
            assert(g[j] == '\n');
        }
    }
    assert(first_occurrence_from(sk, pat, 0, idx));
    assert(find_from_spec(sk, pat, 0) == Some(idx)) by {
        let w = choose|i: int| first_occurrence_from(sk, pat, 0, i);
        lemma_first_occurrence_unique(sk, pat, 0, w, idx);
    }
    assert(sk.take(idx) =~= led(ls));
    assert(sk.skip(idx + 4) =~= r);
    if body.len() > 0 {
        assert forall|j: int| 0 <= j < nn.len() implies is_ws(#[trigger] nn[j]) by {}
        lemma_strip_leading_prefix(nn, body, ws());
        lemma_trim_unpadded(body);
    } else {
        lemma_trim_unpadded(r);
        assert(r =~= body);
    }
}


// ---------------------------------------------------------------------------
// Looking up a key
// ---------------------------------------------------------------------------

/// The line `l` is an entry with key `key`.
pub open spec fn has_key(l: Seq<char>, key: Seq<char>) -> bool {
    fm_entry_spec(l) matches Some(e) && e.0 == key
}

/// Every line of `p`, without its carriage return, is an entry with key
/// `key`.
pub open spec fn piece_key(p: Seq<Seq<char>>, key: Seq<char>) -> bool {
    forall|i: int| 0 <= i < p.len() ==> has_key(strip_cr(#[trigger] p[i]), key)
}

/// The lines of `ps[0]`, ..., `ps[n - 1]` in order.
pub open spec fn flat_upto(ps: Seq<Seq<Seq<char>>>, n: int) -> Seq<Seq<char>>
    decreases n,
{
    if n <= 0 {
        Seq::empty()
    } else {
        flat_upto(ps, n - 1) + ps[n - 1]
    }
}

/// The lines without their carriage returns.
pub open spec fn uncr(ls: Seq<Seq<char>>) -> Seq<Seq<char>> {
    ls.map_values(|l: Seq<char>| strip_cr(l))
}

/// Lines none of which has key `key` do not change the last value of
/// `key`.
proof fn lemma_lv_tail(a: Seq<Seq<char>>, b: Seq<Seq<char>>, key: Seq<char>, ok: spec_fn(Seq<char>) -> bool)
    requires
        forall|i: int| 0 <= i < b.len() ==> !has_key(#[trigger] b[i], key),
    ensures
        last_value(a + b, key, ok) == last_value(a, key, ok),
    decreases b.len(),
{
    if b.len() == 0 {
        assert(a + b =~= a);
    } else {
        assert((a + b).drop_last() =~= a + b.drop_last());
        assert((a + b).last() == b[b.len() - 1]);
        assert(!has_key(b[b.len() - 1], key));
        lemma_lv_tail(a, b.drop_last(), key, ok);
    }
}

/// The last value of `key` in the pieces up to `n`, when piece `i` is a
/// single line with key `key` and value `v` and no later piece has that
/// key.
proof fn lemma_lv_found(
    ps: Seq<Seq<Seq<char>>>,
    ks: Seq<Seq<char>>,
    n: int,
    key: Seq<char>,
    ok: spec_fn(Seq<char>) -> bool,
    i: int,
    v: Seq<char>,
)
    requires
        0 <= i < n <= ps.len(),
        ps.len() == ks.len(),
        forall|j: int| 0 <= j < n ==> piece_key(#[trigger] ps[j], ks[j]),
        forall|j: int| i < j < n ==> #[trigger] ks[j] != key,
        ps[i].len() == 1,
        fm_entry_spec(strip_cr(ps[i][0])) == Some((key, v)),
        ok(v),
    ensures
        last_value(uncr(flat_upto(ps, n)), key, ok) == Some(v),
    decreases n,
{
    let a = uncr(flat_upto(ps, n - 1));
    let b = uncr(ps[n - 1]);
    assert(uncr(flat_upto(ps, n)) =~= a + b);
    if i == n - 1 {
        assert(b =~= seq![strip_cr(ps[i][0])]);
        assert((a + b).last() == strip_cr(ps[i][0]));
    } else {
        assert(ks[n - 1] != key);
        assert forall|j: int| 0 <= j < b.len() implies !has_key(#[trigger] b[j], key) by {
            assert(piece_key(ps[n - 1], ks[n - 1]));
            assert(has_key(strip_cr(ps[n - 1][j]), ks[n - 1]));
        }
        lemma_lv_tail(a, b, key, ok);
        lemma_lv_found(ps, ks, n - 1, key, ok, i, v);
    }
}

/// No value of `key` in the pieces up to `n` when each has another key or
/// no line.
proof fn lemma_lv_absent(ps: Seq<Seq<Seq<char>>>, ks: Seq<Seq<char>>, n: int, key: Seq<char>, ok: spec_fn(Seq<char>) -> bool)
    requires
        0 <= n <= ps.len(),
        ps.len() == ks.len(),
        forall|j: int| 0 <= j < n ==> piece_key(#[trigger] ps[j], ks[j]),
        forall|j: int| 0 <= j < n ==> #[trigger] ks[j] != key || ps[j].len() == 0,
    ensures
        last_value(uncr(flat_upto(ps, n)), key, ok) is None,
    decreases n,
{
    if n == 0 {
        assert(uncr(flat_upto(ps, 0)) =~= Seq::<Seq<char>>::empty());
    } else {
        let a = uncr(flat_upto(ps, n - 1));
        let b = uncr(ps[n - 1]);
        assert(uncr(flat_upto(ps, n)) =~= a + b);
        assert forall|j: int| 0 <= j < b.len() implies !has_key(#[trigger] b[j], key) by {
            assert(piece_key(ps[n - 1], ks[n - 1]));
            assert(has_key(strip_cr(ps[n - 1][j]), ks[n - 1]));
        }
        lemma_lv_tail(a, b, key, ok);
        lemma_lv_absent(ps, ks, n - 1, key, ok);
    }
}

/// The lines of the pieces up to `n`, each ended by a newline.
pub open spec fn terminated_upto(ps: Seq<Seq<Seq<char>>>, n: int) -> Seq<char>
    decreases n,
{
    if n <= 0 {
        Seq::empty()
    } else {
        terminated_upto(ps, n - 1) + terminated(ps[n - 1])
    }
}

/// Ending the lines of the pieces with newlines, piece by piece.
proof fn lemma_terminated_upto(ps: Seq<Seq<Seq<char>>>, n: int)
    requires
        0 <= n <= ps.len(),
    ensures
        terminated(flat_upto(ps, n)) == terminated_upto(ps, n),
    decreases n,
{
    if n > 0 {
        lemma_terminated_upto(ps, n - 1);
        lemma_terminated_append(flat_upto(ps, n - 1), ps[n - 1]);
    }
}

/// Lines that are not empty, do not start with `-` and hold no newline.
pub open spec fn shaped(ls: Seq<Seq<char>>) -> bool {
    forall|i: int| 0 <= i < ls.len() ==> (#[trigger] ls[i]).len() > 0 && ls[i][0] != '-' && free_of(ls[i], '\n')
}

/// The pieces up to `n` are shaped when each is.
proof fn lemma_shaped_upto(ps: Seq<Seq<Seq<char>>>, n: int)
    requires
        0 <= n <= ps.len(),
        forall|j: int| 0 <= j < n ==> shaped(#[trigger] ps[j]),
    ensures
        shaped(flat_upto(ps, n)),
    decreases n,
{
    if n > 0 {
        lemma_shaped_upto(ps, n - 1);
        let a = flat_upto(ps, n - 1);
        let b = ps[n - 1];
        assert(shaped(b));
        assert forall|i: int| 0 <= i < (a + b).len() implies (#[trigger] (a + b)[i]).len() > 0
            && (a + b)[i][0] != '-' && free_of((a + b)[i], '\n') by {
            if i < a.len() {
                assert((a + b)[i] == a[i]);
            } else {
                assert((a + b)[i] == b[i - a.len()]);
            }
        }
    }
}

// ---------------------------------------------------------------------------
// One frontmatter line
// ---------------------------------------------------------------------------

/// The piece holding the single line `key: v`.
pub open spec fn one_piece(key: Seq<char>, v: Seq<char>) -> Seq<Seq<char>> {
    seq![fm_line(key, v)]
}

/// The piece holding `key: v` when `o` is some `v`, else no line.
pub open spec fn opt_piece(key: Seq<char>, o: Option<String>) -> Seq<Seq<char>> {
    match o {
        Some(v) => seq![fm_line(key, v@)],
        None => Seq::empty(),
    }
}

/// The facts of a single line `key: v`.
proof fn lemma_one_piece(key: Seq<char>, v: Seq<char>)
    requires
        plain_key(key),
        free_of(v, '\n'),
    ensures
        piece_key(one_piece(key, v), key),
        shaped(one_piece(key, v)),
        terminated(one_piece(key, v)) == key + ": "@ + v + "\n"@,
        one_piece(key, v).len() == 1,
{
    reveal_strlit(": ");
    let l = fm_line(key, v);
    lemma_entry_key(key, v);
    assert(one_piece(key, v)[0] == l);
    assert(l[0] == key[0]);
    assert forall|j: int| 0 <= j < l.len() implies l[j] != '\n' by {
        if j < key.len() {
            assert(l[j] == key[j]);
        } else if j >= key.len() + 2 {
            assert(l[j] == v[j - key.len() - 2]);
        }
    }
    lemma_terminated_one(l);
}

/// The facts of an optional line `key: v`.
proof fn lemma_opt_piece(key: Seq<char>, o: Option<String>)
    requires
        plain_key(key),
        o matches Some(v) ==> free_of(v@, '\n'),
    ensures
        piece_key(opt_piece(key, o), key),
        shaped(opt_piece(key, o)),
        terminated(opt_piece(key, o)) == crate::skill::opt_line(key + ": "@, o),
{
    match o {
        Some(v) => {
            lemma_one_piece(key, v@);
            assert(opt_piece(key, o) == one_piece(key, v@));
            assert(key + ": "@ + v@ + "\n"@ =~= (key + ": "@) + v@ + "\n"@);
        },
        None => {
            assert(terminated(opt_piece(key, o)) == Seq::<char>::empty());
        },
    }
}


// ---------------------------------------------------------------------------
// Tool lists
// ---------------------------------------------------------------------------

/// A tool name read back from an `allowed_tools` list: not empty, on one
/// line, without commas, unpadded, neither starting nor ending with a
/// bracket.
pub open spec fn plain_tool(t: Seq<char>) -> bool {
    &&& t.len() > 0
    &&& free_of(t, '\n')
    &&& free_of(t, ',')
    &&& unpadded(t)
    &&& unwrapped(t, '[')
    &&& unwrapped(t, ']')
}

/// The `allowed_tools` value of the tool names `t`.
pub open spec fn tools_value(t: Seq<Seq<char>>) -> Seq<char> {
    "["@ + join_spec(t, ", "@) + "]"@
}

/// The comma-separated pieces of a tool list, before the closing bracket:
/// the first after `[`, the others after a space.
pub open spec fn open_items(t: Seq<Seq<char>>) -> Seq<Seq<char>> {
    Seq::new(t.len(), |i: int| if i == 0 { "["@ + t[0] } else { " "@ + t[i] })
}

/// The comma-separated pieces of a tool list.
pub open spec fn list_items(t: Seq<Seq<char>>) -> Seq<Seq<char>> {
    open_items(t).update(t.len() - 1, open_items(t)[t.len() - 1] + "]"@)
}

/// `[` and the names joined by `, ` are the open pieces joined by `,`.
proof fn lemma_open_items_join(t: Seq<Seq<char>>)
    requires
        t.len() > 0,
    ensures
        "["@ + join_spec(t, ", "@) == join_spec(open_items(t), ","@),
    decreases t.len(),
{
    reveal_strlit(", ");
    reveal_strlit(",");
    reveal_strlit(" ");
    reveal_strlit("[");
    if t.len() == 1 {
        assert(open_items(t).len() == 1);
    } else {
        let init = t.drop_last();
        lemma_open_items_join(init);
        assert(open_items(t).drop_last() =~= open_items(init));
        assert(open_items(t).last() == " "@ + t.last());
        assert("["@ + (join_spec(init, ", "@) + ", "@ + t.last())
            =~= ("["@ + join_spec(init, ", "@)) + ","@ + (" "@ + t.last()));
    }
}

/// Closing the last piece closes the joined list.
proof fn lemma_list_items_join(t: Seq<Seq<char>>)
    requires
        t.len() > 0,
    ensures
        tools_value(t) == join_spec(list_items(t), ","@),
{
    lemma_open_items_join(t);
    let q = open_items(t);
    let p = list_items(t);
    if t.len() == 1 {
        assert(p.len() == 1);
        assert(p[0] == q[0] + "]"@);
    } else {
        assert(p.drop_last() =~= q.drop_last());
        assert(p.last() == q.last() + "]"@);
        assert(join_spec(q.drop_last(), ","@) + ","@ + (q.last() + "]"@)
            =~= (join_spec(q.drop_last(), ","@) + ","@ + q.last()) + "]"@);
    }
    assert(tools_value(t) =~= ("["@ + join_spec(t, ", "@)) + "]"@);
}

/// Cleaning a list piece gives back the tool name in it.
proof fn lemma_clean_tool(x: Seq<char>, open: bool, close: bool)
    requires
        plain_tool(x),
    ensures
        clean_tool((if open { "["@ } else { " "@ }) + x + (if close { "]"@ } else { Seq::<char>::empty() })) == x,
{
    reveal_strlit("[");
    reveal_strlit("]");
    reveal_strlit(" ");
    let pre: Seq<char> = if open { "["@ } else { " "@ };
    let post: Seq<char> = if close { "]"@ } else { Seq::<char>::empty() };
    let p = pre + x + post;
    assert(!is_ws('[') && !is_ws(']') && is_ws(' '));
    // trimming
    let xp = x + post;
    assert(p =~= pre + xp);
    assert(xp[0] == x[0]);
    assert(xp.last() == (if close { ']' } else { x.last() }));
    let t1: Seq<char> = if open { p } else { xp };
    if open {
        assert(p[0] == '[');
        assert(p.last() == xp.last());
        lemma_trim_unpadded(p);
    } else {
        lemma_strip_leading_prefix(pre, xp, ws());
        lemma_strip_trailing_none(xp, ws());
    }
    assert(trim_spec(p) == t1);
    // brackets at the front
    if open {
        lemma_strip_leading_prefix(pre, xp, is_char('['));
    } else {
        lemma_strip_leading_none(xp, is_char('['));
    }
    lemma_strip_trailing_none(xp, is_char('['));
    assert(trim_matches_spec(t1, '[') == xp);
    // brackets at the end
    lemma_strip_leading_none(xp, is_char(']'));
    if close {
        lemma_strip_trailing_suffix(x, post, is_char(']'));
    } else {
        assert(xp =~= x);
        lemma_strip_trailing_none(x, is_char(']'));
    }
    assert(trim_matches_spec(xp, ']') == x);
    lemma_trim_unpadded(x);
}

/// The tool names in the `allowed_tools` value of plain names `t` are `t`.
proof fn lemma_tools_round_trip(t: Seq<Seq<char>>)
    requires
        t.len() > 0,
        forall|i: int| 0 <= i < t.len() ==> plain_tool(#[trigger] t[i]),
    ensures
        tools_spec(tools_value(t)) == t,
{
    reveal_strlit(",");
    reveal_strlit("[");
    reveal_strlit("]");
    reveal_strlit(" ");
    let p = list_items(t);
    let n = t.len() as int;
    lemma_list_items_join(t);
    assert(","@ =~= seq![',']);
    assert forall|i: int| 0 <= i < n implies #[trigger] p[i] == (if i == 0 { "["@ } else { " "@ }) + t[i]
        + (if i == n - 1 { "]"@ } else { Seq::<char>::empty() }) by {
        if i == n - 1 {
            assert(p[i] == open_items(t)[i] + "]"@);
        } else {
            assert(p[i] == open_items(t)[i]);
            assert(open_items(t)[i] + Seq::<char>::empty() =~= open_items(t)[i]);
        }
    }
    assert forall|i: int, j: int| 0 <= i < p.len() && 0 <= j < p[i].len() implies #[trigger] p[i][j] != ',' by {
        let pre: Seq<char> = if i == 0 { "["@ } else { " "@ };
        let post: Seq<char> = if i == n - 1 { "]"@ } else { Seq::<char>::empty() };
        assert(p[i] == pre + t[i] + post);
        assert(plain_tool(t[i]));
        if j >= 1 && j < 1 + t[i].len() {
            assert(p[i][j] == t[i][j - 1]);
        }
    }
    lemma_split_join(p, ',');
    assert forall|m: int| 0 <= m <= n implies #[trigger] clean_tools(p.take(m)) == t.take(m) by {
        lemma_clean_prefix(t, p, m);
    }
    assert(p.take(n) =~= p);
    assert(t.take(n) =~= t);
}

/// The cleaned names of the first `m` pieces are the first `m` names.
proof fn lemma_clean_prefix(t: Seq<Seq<char>>, p: Seq<Seq<char>>, m: int)
    requires
        t.len() > 0,
        p.len() == t.len(),
        0 <= m <= t.len(),
        forall|i: int| 0 <= i < t.len() ==> plain_tool(#[trigger] t[i]),
        forall|i: int| 0 <= i < t.len() ==> #[trigger] p[i] == (if i == 0 { "["@ } else { " "@ }) + t[i]
            + (if i == t.len() - 1 { "]"@ } else { Seq::<char>::empty() }),
    ensures
        clean_tools(p.take(m)) == t.take(m),
    decreases m,
{
    if m == 0 {
        assert(p.take(0) =~= Seq::<Seq<char>>::empty());
        assert(t.take(0) =~= Seq::<Seq<char>>::empty());
    } else {
        lemma_clean_prefix(t, p, m - 1);
        assert(p.take(m).drop_last() =~= p.take(m - 1));
        assert(p.take(m).last() == p[m - 1]);
        assert(plain_tool(t[m - 1]));
        lemma_clean_tool(t[m - 1], m - 1 == 0, m - 1 == t.len() - 1);
        assert(t.take(m) =~= t.take(m - 1).push(t[m - 1]));
    }
}


// ---------------------------------------------------------------------------
// Checking literal keys
// ---------------------------------------------------------------------------

/// A key checked character by character.
proof fn lemma_plain_key(key: Seq<char>)
    requires
        key.len() > 0,
        !is_ws(key[0]),
        !is_ws(key.last()),
        key[0] != '-',
        lacks_from(key, ':', 0),
        lacks_from(key, '\n', 0),
    ensures
        plain_key(key),
{
    lemma_lacks_from(key, ':', 0);
    lemma_lacks_from(key, '\n', 0);
}

/// The keys of the lines of a skill file, in order.
pub open spec fn fm_keys() -> Seq<Seq<char>> {
    seq![
        "description"@,
        "category"@,
        "run_as"@,
        "allowed_tools"@,
        "model"@,
        "# use_count"@,
        "# success_count"@,
        "# fail_count"@,
        "# last_used"@,
        "# total_duration_ms"@,
    ]
}

/// Each key of a skill file is plain, and they differ from each other and
/// from `name`.
proof fn lemma_fm_keys()
    ensures
        fm_keys().len() == 10,
        forall|j: int| 0 <= j < 10 ==> plain_key(#[trigger] fm_keys()[j]),
        forall|i: int, j: int| 0 <= i < 10 && 0 <= j < 10 && i != j ==> #[trigger] fm_keys()[i] != #[trigger] fm_keys()[j],
        forall|j: int| 0 <= j < 10 ==> #[trigger] fm_keys()[j] != "name"@,
{
    reveal_strlit("description");
    reveal_strlit("category");
    reveal_strlit("run_as");
    reveal_strlit("allowed_tools");
    reveal_strlit("model");
    reveal_strlit("# use_count");
    reveal_strlit("# success_count");
    reveal_strlit("# fail_count");
    reveal_strlit("# last_used");
    reveal_strlit("# total_duration_ms");
    reveal_strlit("name");
    reveal_with_fuel(lacks_from, 20);
    let ks = fm_keys();
    assert forall|j: int| 0 <= j < 10 implies plain_key(#[trigger] ks[j]) by {
        lemma_plain_key(ks[j]);
    }
    assert(ks[0][0] != ks[5][0]);
    assert(ks[0][0] != ks[8][0]);
    assert(ks[5][2] != ks[8][2]);
}

// ---------------------------------------------------------------------------
// Values
// ---------------------------------------------------------------------------

/// Decimal digits hold no newline and are not empty.
proof fn lemma_decimal_line(n: nat)
    ensures
        decimal(n).len() > 0,
        free_of(decimal(n), '\n'),
    decreases n,
{
    if n >= 10 {
        lemma_decimal_line(n / 10);
        let d = decimal(n / 10);
        assert forall|j: int| 0 <= j < d.len() + 1 implies #[trigger] d.push(digit_char(n % 10))[j] != '\n' by {
            if j < d.len() {
                assert(d.push(digit_char(n % 10))[j] == d[j]);
            }
        }
    }
}

/// Pieces without `c` joined by a separator without `c` have no `c`.
proof fn lemma_join_free(parts: Seq<Seq<char>>, sep: Seq<char>, c: char)
    requires
        forall|i: int| 0 <= i < parts.len() ==> free_of(#[trigger] parts[i], c),
        free_of(sep, c),
    ensures
        free_of(join_spec(parts, sep), c),
    decreases parts.len(),
{
    if parts.len() == 1 {
        assert(free_of(parts[0], c));
    } else if parts.len() > 1 {
        let init = parts.drop_last();
        assert forall|i: int| 0 <= i < init.len() implies free_of(#[trigger] init[i], c) by {
            assert(init[i] == parts[i]);
        }
        lemma_join_free(init, sep, c);
        let a = join_spec(init, sep);
        let l = parts.last();
        assert(free_of(parts[parts.len() - 1], c));
        assert forall|j: int| 0 <= j < (a + sep + l).len() implies (a + sep + l)[j] != c by {
            if j < a.len() {
                assert((a + sep + l)[j] == a[j]);
            } else if j < a.len() + sep.len() {
                assert((a + sep + l)[j] == sep[j - a.len()]);
            } else {
                assert((a + sep + l)[j] == l[j - a.len() - sep.len()]);
            }
        }
    }
}

/// `"`, a text, `"`.
pub open spec fn quoted(d: Seq<char>) -> Seq<char> {
    "\""@ + d + "\""@
}

// ---------------------------------------------------------------------------
// The lines of a skill file
// ---------------------------------------------------------------------------

/// The piece holding the `allowed_tools` line, none for no tools.
pub open spec fn tools_piece(t: Seq<Seq<char>>) -> Seq<Seq<char>> {
    if t.len() > 0 { one_piece("allowed_tools"@, tools_value(t)) } else { Seq::empty() }
}

/// The frontmatter lines of skill `k`, piece by piece, in the order of
/// `fm_keys`.
pub open spec fn fm_pieces(k: Skill) -> Seq<Seq<Seq<char>>> {
    seq![
        one_piece("description"@, quoted(k.description@)),
        opt_piece("category"@, k.category),
        one_piece("run_as"@, run_as_name(k.run_as)),
        tools_piece(views(k.allowed_tools@)),
        opt_piece("model"@, k.model),
        one_piece("# use_count"@, decimal(k.use_count as nat)),
        one_piece("# success_count"@, decimal(k.success_count as nat)),
        one_piece("# fail_count"@, decimal(k.fail_count as nat)),
        opt_piece("# last_used"@, k.last_used),
        one_piece("# total_duration_ms"@, decimal(k.total_duration_ms as nat)),
    ]
}

/// A frontmatter value read back as written: on one line, unpadded, not
/// starting or ending with a double quote.
pub open spec fn plain_value(s: Seq<char>) -> bool {
    free_of(s, '\n') && unpadded(s) && unwrapped(s, '"')
}

/// A skill that its file gives back: a non-empty plain description; a
/// plain category other than empty and `null`; plain tool names; a plain
/// model; a last use on one line; an unpadded body.
pub open spec fn storable(k: Skill) -> bool {
    &&& k.description@.len() > 0
    &&& plain_value(k.description@)
    &&& (k.category matches Some(c) ==> c@.len() > 0 && c@ != "null"@ && plain_value(c@))
    &&& forall|i: int| 0 <= i < k.allowed_tools@.len() ==> plain_tool(#[trigger] k.allowed_tools@[i]@)
    &&& (k.model matches Some(m) ==> plain_value(m@))
    &&& (k.last_used matches Some(u) ==> free_of(u@, '\n'))
    &&& unpadded(k.body@)
}

/// The pieces of a storable skill: each line has the key of its piece and
/// the right shape.
#[verifier::rlimit(60)]
#[verifier::spinoff_prover]
proof fn lemma_fm_pieces(k: Skill)
    requires
        storable(k),
    ensures
        fm_pieces(k).len() == 10,
        forall|j: int| 0 <= j < 10 ==> piece_key(#[trigger] fm_pieces(k)[j], fm_keys()[j]),
        forall|j: int| 0 <= j < 10 ==> shaped(#[trigger] fm_pieces(k)[j]),
{
    reveal_strlit("\"");
    reveal_strlit(", ");
    reveal_strlit("[");
    reveal_strlit("]");
    reveal_strlit("inline");
    reveal_strlit("subagent");
    lemma_fm_keys();
    let ps = fm_pieces(k);
    let ks = fm_keys();
    let t = views(k.allowed_tools@);
    assert(free_of(quoted(k.description@), '\n')) by {
        let q = quoted(k.description@);
        assert forall|j: int| 0 <= j < q.len() implies q[j] != '\n' by {
            if 1 <= j < 1 + k.description@.len() {
                assert(q[j] == k.description@[j - 1]);
            }
        }
    }
    assert(free_of(run_as_name(k.run_as), '\n')) by {
        reveal_with_fuel(lacks_from, 10);
        lemma_lacks_from(run_as_name(k.run_as), '\n', 0);
    }
    lemma_decimal_line(k.use_count as nat);
    lemma_decimal_line(k.success_count as nat);
    lemma_decimal_line(k.fail_count as nat);
    lemma_decimal_line(k.total_duration_ms as nat);
    lemma_one_piece(ks[0], quoted(k.description@));
    lemma_opt_piece(ks[1], k.category);
    lemma_one_piece(ks[2], run_as_name(k.run_as));
    if t.len() > 0 {
        assert forall|i: int| 0 <= i < t.len() implies free_of(#[trigger] t[i], '\n') by {
            assert(plain_tool(k.allowed_tools@[i]@));
        }
        reveal_with_fuel(lacks_from, 3);
        lemma_lacks_from(", "@, '\n', 0);
        lemma_join_free(t, ", "@, '\n');
        let j = join_spec(t, ", "@);
        let v = tools_value(t);
        assert forall|x: int| 0 <= x < v.len() implies v[x] != '\n' by {
            if 1 <= x < 1 + j.len() {
                assert(v[x] == j[x - 1]);
            }
        }
        lemma_one_piece(ks[3], v);
    }
    lemma_opt_piece(ks[4], k.model);
    lemma_one_piece(ks[5], decimal(k.use_count as nat));
    lemma_one_piece(ks[6], decimal(k.success_count as nat));
    lemma_one_piece(ks[7], decimal(k.fail_count as nat));
    lemma_opt_piece(ks[8], k.last_used);
    lemma_one_piece(ks[9], decimal(k.total_duration_ms as nat));
    assert forall|j: int| 0 <= j < 10 implies piece_key(#[trigger] ps[j], ks[j]) && shaped(ps[j]) by {
        if j == 3 && t.len() == 0 {
            assert(ps[3] =~= Seq::<Seq<char>>::empty());
        }
    }
}

/// One line ended by a newline.
proof fn lemma_one_text(key: Seq<char>, v: Seq<char>)
    ensures
        terminated(one_piece(key, v)) == key + ": "@ + v + "\n"@,
{
    lemma_terminated_one(fm_line(key, v));
}

/// An optional line ended by a newline.
proof fn lemma_opt_text(key: Seq<char>, o: Option<String>)
    ensures
        terminated(opt_piece(key, o)) == crate::skill::opt_line(key + ": "@, o),
{
    match o {
        Some(v) => {
            lemma_one_text(key, v@);
            assert(opt_piece(key, o) == one_piece(key, v@));
            assert(key + ": "@ + v@ + "\n"@ =~= (key + ": "@) + v@ + "\n"@);
        },
        None => {
            assert(terminated(opt_piece(key, o)) == Seq::<char>::empty());
        },
    }
}

/// The frontmatter of a skill is its pieces' lines, each ended by a newline.
#[verifier::rlimit(60)]
#[verifier::spinoff_prover]
proof fn lemma_fm_text(k: Skill)
    ensures
        frontmatter_spec(k) == terminated(flat_upto(fm_pieces(k), 10)),
{
    let ps = fm_pieces(k);
    let t = views(k.allowed_tools@);
    let d = k.description@;
    lemma_terminated_upto(ps, 10);
    reveal_with_fuel(terminated_upto, 11);
    reveal_strlit("description: \"");
    reveal_strlit("description");
    reveal_strlit("\"\n");
    reveal_strlit("\"");
    reveal_strlit("\n");
    reveal_strlit(": ");
    reveal_strlit("category: ");
    reveal_strlit("category");
    reveal_strlit("run_as: ");
    reveal_strlit("run_as");
    reveal_strlit("allowed_tools: [");
    reveal_strlit("allowed_tools");
    reveal_strlit("[");
    reveal_strlit("]");
    reveal_strlit("]\n");
    reveal_strlit("model: ");
    reveal_strlit("model");
    reveal_strlit("# use_count: ");
    reveal_strlit("# use_count");
    reveal_strlit("# success_count: ");
    reveal_strlit("# success_count");
    reveal_strlit("# fail_count: ");
    reveal_strlit("# fail_count");
    reveal_strlit("# last_used: ");
    reveal_strlit("# last_used");
    reveal_strlit("# total_duration_ms: ");
    reveal_strlit("# total_duration_ms");
    let du = decimal(k.use_count as nat);
    let ds = decimal(k.success_count as nat);
    let df = decimal(k.fail_count as nat);
    let dt = decimal(k.total_duration_ms as nat);
    let name = run_as_name(k.run_as);
    let tools_fm: Seq<char> = if t.len() > 0 {
        "allowed_tools: ["@ + join_spec(t, ", "@) + "]\n"@
    } else {
        Seq::empty()
    };
    // the pieces' texts
    lemma_one_text("description"@, quoted(d));
    assert(terminated(ps[0]) =~= "description: \""@ + d + "\"\n"@);
    lemma_opt_text("category"@, k.category);
    assert("category"@ + ": "@ =~= "category: "@);
    lemma_one_text("run_as"@, name);
    assert(terminated(ps[2]) =~= "run_as: "@ + name + "\n"@);
    if t.len() > 0 {
        lemma_one_text("allowed_tools"@, tools_value(t));
        assert(terminated(ps[3]) =~= tools_fm);
    } else {
        assert(terminated(ps[3]) == Seq::<char>::empty());
    }
    lemma_opt_text("model"@, k.model);
    assert("model"@ + ": "@ =~= "model: "@);
    lemma_one_text("# use_count"@, du);
    assert(terminated(ps[5]) =~= "# use_count: "@ + du + "\n"@);
    lemma_one_text("# success_count"@, ds);
    assert(terminated(ps[6]) =~= "# success_count: "@ + ds + "\n"@);
    lemma_one_text("# fail_count"@, df);
    assert(terminated(ps[7]) =~= "# fail_count: "@ + df + "\n"@);
    lemma_opt_text("# last_used"@, k.last_used);
    assert("# last_used"@ + ": "@ =~= "# last_used: "@);
    lemma_one_text("# total_duration_ms"@, dt);
    assert(terminated(ps[9]) =~= "# total_duration_ms: "@ + dt + "\n"@);
    // the frontmatter, one piece at a time
    let s1 = "description: \""@ + d + "\"\n"@;
    let s2 = s1 + crate::skill::opt_line("category: "@, k.category);
    let s3 = s2 + "run_as: "@ + name + "\n"@;
    let s4 = s3 + tools_fm;
    let s5 = s4 + crate::skill::opt_line("model: "@, k.model);
    let s6 = s5 + "# use_count: "@ + du + "\n"@;
    let s7 = s6 + "# success_count: "@ + ds + "\n"@;
    let s8 = s7 + "# fail_count: "@ + df + "\n"@;
    let s9 = s8 + crate::skill::opt_line("# last_used: "@, k.last_used);
    let s10 = s9 + "# total_duration_ms: "@ + dt + "\n"@;
    assert(frontmatter_spec(k) == s10);
    assert(terminated_upto(ps, 1) =~= s1);
    assert(terminated_upto(ps, 2) == s2);
    assert(s3 =~= s2 + terminated(ps[2]));
    assert(terminated_upto(ps, 3) == s3);
    assert(terminated_upto(ps, 4) == s4);
    assert(terminated_upto(ps, 5) == s5);
    assert(s6 =~= s5 + terminated(ps[5]));
    assert(s7 =~= s6 + terminated(ps[6]));
    assert(s8 =~= s7 + terminated(ps[7]));
    assert(terminated_upto(ps, 8) == s8);
    assert(terminated_upto(ps, 9) == s9);
    assert(s10 =~= s9 + terminated(ps[9]));
}


// ---------------------------------------------------------------------------
// Reading back
// ---------------------------------------------------------------------------

/// The last value of a key in `a + b`: that in `b`, else that in `a`.
proof fn lemma_lv_append(a: Seq<Seq<char>>, b: Seq<Seq<char>>, key: Seq<char>, ok: spec_fn(Seq<char>) -> bool)
    ensures
        last_value(a + b, key, ok) == (if last_value(b, key, ok) is Some { last_value(b, key, ok) } else { last_value(a, key, ok) }),
    decreases b.len(),
{
    if b.len() == 0 {
        assert(a + b =~= a);
    } else {
        assert((a + b).drop_last() =~= a + b.drop_last());
        assert((a + b).last() == b.last());
        lemma_lv_append(a, b.drop_last(), key, ok);
    }
}

/// An empty line holds no entry.
proof fn lemma_lv_blank(key: Seq<char>, ok: spec_fn(Seq<char>) -> bool)
    ensures
        last_value(seq![Seq::<char>::empty()], key, ok) is None,
{
    let e = Seq::<char>::empty();
    lemma_trim_unpadded(e);
    assert(index_of_char(e, ':') is None);
    assert(fm_entry_spec(e) is None);
    let one = seq![e];
    assert(one.drop_last() =~= Seq::<Seq<char>>::empty());
    assert(one.last() == e);
    assert(last_value(one.drop_last(), key, ok) is None);
}

/// The last value of a key in the lines of a skill file: an empty line,
/// then the pieces' lines.
proof fn lemma_lv_file(ls: Seq<Seq<char>>, key: Seq<char>, ok: spec_fn(Seq<char>) -> bool)
    ensures
        last_value(uncr(seq![Seq::<char>::empty()] + ls), key, ok) == last_value(uncr(ls), key, ok),
{
    let e = seq![Seq::<char>::empty()];
    assert(strip_cr(Seq::<char>::empty()) == Seq::<char>::empty());
    assert(uncr(e + ls) =~= e + uncr(ls));
    lemma_lv_append(e, uncr(ls), key, ok);
    lemma_lv_blank(key, ok);
}

/// A skill written to its file and read back keeps its description, body,
/// category, run mode, tool names and model, and is named as the reader
/// names a file without a `name` line; without a category of its own it
/// takes the reader's.
#[verifier::rlimit(60)]
#[verifier::spinoff_prover]
pub proof fn lemma_skill_file_round_trip(k: Skill, k2: Skill, default_name: Seq<char>, path_category: Option<Seq<char>>)
    requires
        storable(k),
        parsed_skill(k2, render_spec(k), default_name, path_category),
    ensures
        k2.name@ == default_name,
        opt_view(k2.category) == (if k.category is Some { opt_view(k.category) } else { path_category }),
        k2.description@ == k.description@,
        k2.body@ == k.body@,
        k2.run_as == k.run_as,
        views(k2.allowed_tools@) == views(k.allowed_tools@),
        opt_view(k2.model) == opt_view(k.model),
{
    reveal_strlit("\"");
    reveal_strlit("[");
    reveal_strlit("]");
    reveal_strlit("inline");
    reveal_strlit("subagent");
    lemma_fm_keys();
    lemma_fm_pieces(k);
    lemma_fm_text(k);
    let ps = fm_pieces(k);
    let ks = fm_keys();
    let ls = flat_upto(ps, 10);
    let c = render_spec(k);
    let d = k.description@;
    let t = views(k.allowed_tools@);
    lemma_shaped_upto(ps, 10);
    assert(ls =~= flat_upto(ps, 9) + ps[9]);
    assert(ls.len() > 0);
    assert(ls.last() == ps[9][0]);
    assert forall|i: int| 0 <= i < ls.len() implies free_of(#[trigger] ls[i], '\n') by {}
    lemma_split_rendered(ls, k.body@);
    assert(split_frontmatter(c) == (Some(led(ls)), k.body@));
    lemma_lines_of_led(ls);
    let lines = uncr(seq![Seq::<char>::empty()] + ls);
    assert(fm_lines(c) == lines);
    // name
    lemma_lv_file(ls, "name"@, any_value());
    lemma_lv_absent(ps, ks, 10, "name"@, any_value());
    // description
    let q = quoted(d);
    assert(q =~= seq!['"'] + d + seq!['"']);
    lemma_entry_value(ks[0], q);
    lemma_trim_matches_wrapped(d, '"');
    lemma_lv_file(ls, ks[0], any_value());
    lemma_lv_found(ps, ks, 10, ks[0], any_value(), 0, d);
    assert(fm_description(c) == d);
    // category
    lemma_lv_file(ls, ks[1], real_category());
    match k.category {
        Some(cat) => {
            lemma_entry_value(ks[1], cat@);
            lemma_trim_matches_unwrapped(cat@, '"');
            lemma_lv_found(ps, ks, 10, ks[1], real_category(), 1, cat@);
        },
        None => {
            lemma_lv_absent(ps, ks, 10, ks[1], real_category());
        },
    }
    // run mode
    let rn = run_as_name(k.run_as);
    lemma_entry_value(ks[2], rn);
    lemma_trim_matches_unwrapped(rn, '"');
    lemma_lv_file(ls, ks[2], any_value());
    lemma_lv_found(ps, ks, 10, ks[2], any_value(), 2, rn);
    crate::skill::lemma_run_as_round_trip(k.run_as);
    // tools
    lemma_lv_file(ls, ks[3], any_value());
    if t.len() > 0 {
        let v = tools_value(t);
        assert(v[0] == '[');
        assert(v.last() == ']');
        lemma_entry_value(ks[3], v);
        lemma_trim_matches_unwrapped(v, '"');
        lemma_lv_found(ps, ks, 10, ks[3], any_value(), 3, v);
        assert forall|i: int| 0 <= i < t.len() implies plain_tool(#[trigger] t[i]) by {
            assert(plain_tool(k.allowed_tools@[i]@));
        }
        lemma_tools_round_trip(t);
    } else {
        assert(ps[3] =~= Seq::<Seq<char>>::empty());
        lemma_lv_absent(ps, ks, 10, ks[3], any_value());
        assert(t =~= Seq::<Seq<char>>::empty());
    }
    // model
    lemma_lv_file(ls, ks[4], any_value());
    match k.model {
        Some(m) => {
            lemma_entry_value(ks[4], m@);
            lemma_trim_matches_unwrapped(m@, '"');
            lemma_lv_found(ps, ks, 10, ks[4], any_value(), 4, m@);
        },
        None => {
            lemma_lv_absent(ps, ks, 10, ks[4], any_value());
        },
    }
}

} // verus!
