//! Flattening of nested tool arguments into dotted keys for the model, and
//! restoring them: `{"a": {"b": 1}}` is sent as `{"a.b": 1}` and read back.
//! Argument objects are held as `ArgTree`s whose leaves are the JSON values
//! that are not objects, carried as they are.

use vstd::prelude::*;
use crate::repair::FlattenRepair;
use crate::text::{extend_chars, from_chars, split_char, split_spec, to_chars};

verus! {

/// An argument tree: an object with its entries in order, or any JSON
/// value that is not an object.
#[derive(Debug)]
pub enum ArgTree {
    /// A value that is not an object.
    Leaf(serde_json::Value),
    /// An object: its keys and values.
    Object(Vec<(String, ArgTree)>),
}

/// The mathematical form of an argument tree.
#[verifier::ext_equal]
pub ghost enum TreeV {
    /// A value that is not an object.
    Leaf(serde_json::Value),
    /// An object: its keys and subtrees, in order.
    Obj(Seq<(Seq<char>, TreeV)>),
}

/// The mathematical form of `t`.
pub open spec fn tree_view(t: ArgTree) -> TreeV
    decreases t,
{
    match t {
        ArgTree::Leaf(v) => TreeV::Leaf(v),
        ArgTree::Object(es) => TreeV::Obj(entries_view(es@)),
    }
}

/// The mathematical form of object entries.
pub open spec fn entries_view(es: Seq<(String, ArgTree)>) -> Seq<(Seq<char>, TreeV)>
    decreases es,
{
    if es.len() == 0 {
        Seq::empty()
    } else {
        entries_view(es.drop_last()).push((es.last().0@, tree_view(es.last().1)))
    }
}

/// Entry `i` of the form of `es` is the form of entry `i`.
proof fn lemma_entries_view(es: Seq<(String, ArgTree)>)
    ensures
        entries_view(es).len() == es.len(),
        forall|i: int| 0 <= i < es.len() ==> #[trigger] entries_view(es)[i] == (es[i].0@, tree_view(es[i].1)),
    decreases es.len(),
{
    if es.len() > 0 {
        lemma_entries_view(es.drop_last());
        assert forall|i: int| 0 <= i < es.len() implies #[trigger] entries_view(es)[i] == (es[i].0@, tree_view(es[i].1)) by {
            if i < es.len() - 1 {
                assert(es.drop_last()[i] == es[i]);
            }
        }
    }
}

/// Two entry lists with entrywise equal forms have equal forms.
proof fn lemma_entries_view_ext(a: Seq<(String, ArgTree)>, b: Seq<(Seq<char>, TreeV)>)
    requires
        a.len() == b.len(),
        forall|i: int| 0 <= i < a.len() ==> #[trigger] b[i] == (a[i].0@, tree_view(a[i].1)),
    ensures
        entries_view(a) == b,
{
    lemma_entries_view(a);
    assert(entries_view(a) =~= b);
}

/// The key of an entry below `prefix`: the entry's own key at the top,
/// else the prefix, a dot, and the key.
pub open spec fn key_join(prefix: Seq<char>, k: Seq<char>) -> Seq<char> {
    if prefix.len() == 0 { k } else { prefix + "."@ + k }
}

/// The flat entries of `t` below `prefix`: a leaf under the prefix itself;
/// an object by its entries in order.
pub open spec fn flat_tree(t: TreeV, prefix: Seq<char>) -> Seq<(Seq<char>, serde_json::Value)>
    decreases t,
{
    match t {
        TreeV::Leaf(v) => seq![(prefix, v)],
        TreeV::Obj(es) => flat_entries(es, prefix),
    }
}

/// The flat entries of the object entries `es` below `prefix`.
pub open spec fn flat_entries(es: Seq<(Seq<char>, TreeV)>, prefix: Seq<char>) -> Seq<(Seq<char>, serde_json::Value)>
    decreases es,
{
    if es.len() == 0 {
        Seq::empty()
    } else {
        flat_entries(es.drop_last(), prefix) + flat_tree(es.last().1, key_join(prefix, es.last().0))
    }
}

/// The text form of flat entries.
pub open spec fn pairs_view(ps: Seq<(String, serde_json::Value)>) -> Seq<(Seq<char>, serde_json::Value)> {
    ps.map_values(|p: (String, serde_json::Value)| (p.0@, p.1))
}

/// Appends the flat entries of `t` below `prefix` to `out`.
fn flatten_into(t: ArgTree, prefix: &Vec<char>, out: &mut Vec<(String, serde_json::Value)>)
    ensures
        pairs_view(final(out)@) == pairs_view(old(out)@) + flat_tree(tree_view(t), prefix@),
    decreases t,
{
    let ghost t0 = t;
    match t {
        ArgTree::Leaf(v) => {
            let ghost before = pairs_view(out@);
            let p = (from_chars(prefix.as_slice()), v);
            out.push(p);
            assert(pairs_view(out@) =~= before.push((prefix@, v)));
            assert(seq![(prefix@, v)] =~= Seq::empty().push((prefix@, v)));
        },
        ArgTree::Object(es) => {
            let ghost es0 = es@;
            let ghost base = pairs_view(out@);
            let mut rest = es;
            let mut j: usize = 0;
            assert(es0.take(0) =~= Seq::<(String, ArgTree)>::empty());
            assert(rest@ =~= es0.skip(0));
            let total = rest.len();
            while rest.len() > 0
                invariant
                    j <= es0.len(),
                    es0.len() == total,
                    t0 == ArgTree::Object(es),
                    t0 == t,
                    es@ == es0,
                    rest@ == es0.skip(j as int),
                    pairs_view(out@) == base + flat_entries(entries_view(es0.take(j as int)), prefix@),
                decreases rest@.len(),
            {
                assert(rest@.len() == es0.len() - j);
                let (k, sub) = rest.remove(0);
                assert(rest@ =~= es0.skip(j + 1));
                assert(es0[j as int] == (k, sub));
                let mut key = prefix.clone();
                assert(key@ == prefix@);
                if key.len() > 0 {
                    key.push('.');
                }
                let kc = to_chars(k.as_str());
                extend_chars(&mut key, kc.as_slice());
                proof {
                    reveal_strlit(".");
                    assert(key@ =~= key_join(prefix@, k@));
                    let f = t0->Object_0;
                    assert(f == es);
                    assert(decreases_to!(t0 => t0->Object_0));
                    assert(decreases_to!(f => f@));
                    assert(decreases_to!(f@ => f@[j as int]));
                    assert(decreases_to!(f@[j as int] => f@[j as int].1));
                    assert(decreases_to!(t0 => sub));
                }
                let ghost before = pairs_view(out@);
                flatten_into(sub, &key, out);
                proof {
                    assert(es0.take(j + 1).drop_last() =~= es0.take(j as int));
                    assert(es0.take(j + 1).last() == es0[j as int]);
                    let ev = entries_view(es0.take(j as int));
                    let e = (k@, tree_view(sub));
                    assert(entries_view(es0.take(j + 1)) == ev.push(e));
                    assert(ev.push(e).drop_last() =~= ev);
                    assert(ev.push(e).last() == e);
                    assert(flat_entries(ev.push(e), prefix@) == flat_entries(ev, prefix@) + flat_tree(e.1, key_join(prefix@, e.0)));
                    assert(pairs_view(out@) =~= base + flat_entries(entries_view(es0.take(j + 1)), prefix@));
                }
                j = j + 1;
            }
            assert(es0.take(j as int) =~= es0);
        },
    }
}

impl FlattenRepair {
    /// The flat entries of the argument tree `args`, in order: each value
    /// that is not an object under the dotted path of keys that leads to
    /// it (a tree that is not an object gives one entry under the empty
    /// key). The caller gathers them into a JSON object.
    pub fn flatten(args: ArgTree) -> (r: Vec<(String, serde_json::Value)>)
        ensures
            pairs_view(r@) == flat_tree(tree_view(args), Seq::empty()),
    {
        let mut out: Vec<(String, serde_json::Value)> = Vec::new();
        let prefix: Vec<char> = Vec::new();
        assert(pairs_view(out@) =~= Seq::empty());
        flatten_into(args, &prefix, &mut out);
        assert(pairs_view(out@) =~= flat_tree(tree_view(args), Seq::empty()));
        out
    }
}

/// Index of the first entry of `es` under key `k`.
pub open spec fn obj_index(es: Seq<(Seq<char>, TreeV)>, k: Seq<char>) -> Option<int> {
    if exists|i: int| 0 <= i < es.len() && es[i].0 == k && forall|j: int| 0 <= j < i ==> es[j].0 != k {
        Some(choose|i: int| 0 <= i < es.len() && es[i].0 == k && forall|j: int| 0 <= j < i ==> es[j].0 != k)
    } else {
        None
    }
}

/// `es` with `v` under key `k`: replacing the entry of that key, else added
/// at the end.
pub open spec fn obj_put(es: Seq<(Seq<char>, TreeV)>, k: Seq<char>, v: TreeV) -> Seq<(Seq<char>, TreeV)> {
    match obj_index(es, k) {
        Some(i) => es.update(i, (k, v)),
        None => es.push((k, v)),
    }
}

/// `es` with `v` put at the key path `parts`: the last key takes the value;
/// an earlier key leads into its object (a new empty one when the key is
/// missing), and when it holds a value that is not an object, `v` is
/// dropped.
pub open spec fn set_nested(es: Seq<(Seq<char>, TreeV)>, parts: Seq<Seq<char>>, v: TreeV) -> Seq<(Seq<char>, TreeV)>
    decreases parts.len(),
{
    if parts.len() <= 1 {
        obj_put(es, parts[0], v)
    } else {
        match obj_index(es, parts[0]) {
            Some(i) => match es[i].1 {
                TreeV::Obj(inner) => es.update(i, (parts[0], TreeV::Obj(set_nested(inner, parts.drop_first(), v)))),
                TreeV::Leaf(_) => es,
            },
            None => es.push((parts[0], TreeV::Obj(set_nested(Seq::empty(), parts.drop_first(), v)))),
        }
    }
}

/// The object entries restored from the flat entries `ps`, in order: each
/// value put at the path its key names, split at dots.
pub open spec fn unflat(ps: Seq<(Seq<char>, serde_json::Value)>) -> Seq<(Seq<char>, TreeV)>
    decreases ps.len(),
{
    if ps.len() == 0 {
        Seq::empty()
    } else {
        set_nested(unflat(ps.drop_last()), split_spec(ps.last().0, '.'), TreeV::Leaf(ps.last().1))
    }
}

/// Index of the first entry of `es` under the key `k`.
fn find_entry(es: &Vec<(String, ArgTree)>, k: &[char]) -> (r: Option<usize>)
    ensures
        match r {
            Some(i) => obj_index(entries_view(es@), k@) == Some(i as int) && i < es@.len(),
            None => obj_index(entries_view(es@), k@) is None,
        },
{
    proof {
        lemma_entries_view(es@);
    }
    let ghost ev = entries_view(es@);
    let mut i: usize = 0;
    while i < es.len()
        invariant
            i <= es@.len(),
            ev == entries_view(es@),
            ev.len() == es@.len(),
            forall|j: int| 0 <= j < es@.len() ==> #[trigger] ev[j] == (es@[j].0@, tree_view(es@[j].1)),
            forall|j: int| 0 <= j < i ==> ev[j].0 != k@,
        decreases es@.len() - i,
    {
        let n = to_chars(es[i].0.as_str());
        if crate::text::chars_eq(n.as_slice(), k) {
            proof {
                assert(ev[i as int].0 == k@);
                assert(0 <= i < ev.len() && ev[i as int].0 == k@ && forall|j: int| 0 <= j < i ==> ev[j].0 != k@);
                let c = choose|c: int| 0 <= c < ev.len() && ev[c].0 == k@ && forall|j: int| 0 <= j < c ==> ev[j].0 != k@;
                assert(c == i as int) by {
                    if c < i { assert(ev[c].0 != k@); }
                    if i < c { assert(ev[i as int].0 != k@); }
                }
            }
            return Some(i);
        }
        i = i + 1;
    }
    None
}

/// Puts `v` at the key path `parts[from..]` in the object entries `es`.
fn put_nested(es: &mut Vec<(String, ArgTree)>, parts: &Vec<Vec<char>>, from: usize, v: serde_json::Value)
    requires
        from < parts@.len(),
    ensures
        entries_view(final(es)@) == set_nested(entries_view(old(es)@),
            parts@.map_values(|p: Vec<char>| p@).skip(from as int), TreeV::Leaf(v)),
    decreases parts@.len() - from,
{
    let ghost pv = parts@.map_values(|p: Vec<char>| p@).skip(from as int);
    let ghost ev0 = entries_view(es@);
    assert(pv[0] == parts@[from as int]@);
    proof {
        lemma_entries_view(es@);
    }
    let k = from_chars(parts[from].as_slice());
    let idx = find_entry(es, parts[from].as_slice());
    if from == parts.len() - 1 {
        assert(pv.len() == 1);
        match idx {
            Some(i) => {
                let ghost old_es = es@;
                es.set(i, (k, ArgTree::Leaf(v)));
                proof {
                    lemma_entries_view_ext(es@, ev0.update(i as int, (pv[0], TreeV::Leaf(v))));
                }
            },
            None => {
                let ghost old_es = es@;
                es.push((k, ArgTree::Leaf(v)));
                proof {
                    lemma_entries_view_ext(es@, ev0.push((pv[0], TreeV::Leaf(v))));
                }
            },
        }
    } else {
        assert(pv.len() > 1);
        assert(pv.drop_first() =~= parts@.map_values(|p: Vec<char>| p@).skip(from + 1));
        match idx {
            Some(i) => {
                let ghost old_es = es@;
                let (key_i, sub) = es.remove(i);
                assert(es@ =~= old_es.remove(i as int));
                match sub {
                    ArgTree::Object(mut inner) => {
                        let ghost iv0 = entries_view(inner@);
                        assert(ev0[i as int].1 == TreeV::Obj(iv0));
                        put_nested(&mut inner, parts, from + 1, v);
                        let ghost nsub = ArgTree::Object(inner);
                        es.insert(i, (key_i, ArgTree::Object(inner)));
                        proof {
                            assert(ev0[i as int].0 == pv[0]);
                            assert forall|j: int| 0 <= j < es@.len() implies #[trigger] ev0.update(i as int,
                                (pv[0], TreeV::Obj(set_nested(iv0, pv.drop_first(), TreeV::Leaf(v)))))[j]
                                == (es@[j].0@, tree_view(es@[j].1)) by {
                                if j < i {
                                    assert(es@[j] == old_es[j]);
                                } else if j > i {
                                    assert(es@[j] == old_es[j]);
                                }
                            }
                            lemma_entries_view_ext(es@, ev0.update(i as int,
                                (pv[0], TreeV::Obj(set_nested(iv0, pv.drop_first(), TreeV::Leaf(v))))));
                        }
                    },
                    ArgTree::Leaf(x) => {
                        es.insert(i, (key_i, ArgTree::Leaf(x)));
                        proof {
                            assert(es@ =~= old_es);
                        }
                    },
                }
            },
            None => {
                let mut inner: Vec<(String, ArgTree)> = Vec::new();
                assert(entries_view(inner@) =~= Seq::<(Seq<char>, TreeV)>::empty());
                put_nested(&mut inner, parts, from + 1, v);
                let ghost iv = entries_view(inner@);
                let ghost old_es = es@;
                es.push((k, ArgTree::Object(inner)));
                proof {
                    lemma_entries_view_ext(es@, ev0.push((pv[0], TreeV::Obj(iv))));
                }
            },
        }
    }
}

impl FlattenRepair {
    /// The argument object restored from the flat entries `flat` (those of
    /// a JSON object, in its order): each value put at the path its key
    /// names, split at dots.
    pub fn unflatten(flat: Vec<(String, serde_json::Value)>) -> (r: ArgTree)
        ensures
            tree_view(r) == TreeV::Obj(unflat(pairs_view(flat@))),
    {
        let ghost fv = pairs_view(flat@);
        let mut es: Vec<(String, ArgTree)> = Vec::new();
        let mut rest = flat;
        let mut j: usize = 0;
        let total = rest.len();
        assert(entries_view(es@) =~= Seq::<(Seq<char>, TreeV)>::empty());
        assert(rest@ =~= flat@.skip(0));
        assert(fv.take(0) =~= Seq::<(Seq<char>, serde_json::Value)>::empty());
        while rest.len() > 0
            invariant
                j <= flat@.len(),
                flat@.len() == total,
                fv == pairs_view(flat@),
                rest@ == flat@.skip(j as int),
                entries_view(es@) == unflat(fv.take(j as int)),
            decreases rest@.len(),
        {
            assert(rest@.len() == flat@.len() - j);
            let (key, val) = rest.remove(0);
            assert(rest@ =~= flat@.skip(j + 1));
            assert(flat@[j as int] == (key, val));
            let kc = to_chars(key.as_str());
            let parts = split_char(kc.as_slice(), '.');
            assert(parts@.map_values(|p: Vec<char>| p@).skip(0) =~= parts@.map_values(|p: Vec<char>| p@));
            put_nested(&mut es, &parts, 0, val);
            proof {
                assert(fv.take(j + 1).drop_last() =~= fv.take(j as int));
                assert(fv.take(j + 1).last() == (key@, val));
            }
            j = j + 1;
        }
        assert(fv.take(j as int) =~= fv);
        ArgTree::Object(es)
    }
}

// ---------------------------------------------------------------------------
// Restoring what was flattened
// ---------------------------------------------------------------------------

/// A key that flattening can restore: not empty, without a dot.
pub open spec fn key_ok(k: Seq<char>) -> bool {
    k.len() > 0 && !k.contains('.')
}

/// A tree whose flat form restores it: every object below the top is not
/// empty, and every object's keys are restorable and distinct.
pub open spec fn wf_tree(t: TreeV) -> bool
    decreases t,
{
    match t {
        TreeV::Leaf(_) => true,
        TreeV::Obj(es) => es.len() > 0 && wf_entries(es),
    }
}

/// Object entries with restorable, distinct keys and well-formed subtrees.
pub open spec fn wf_entries(es: Seq<(Seq<char>, TreeV)>) -> bool
    decreases es,
{
    es.len() == 0 || (wf_entries(es.drop_last()) && key_ok(es.last().0)
        && obj_index(es.drop_last(), es.last().0) is None && wf_tree(es.last().1))
}

/// The flat entries of `t` below the key path `p`, with paths as lists.
pub open spec fn flat_path(t: TreeV, p: Seq<Seq<char>>) -> Seq<(Seq<Seq<char>>, serde_json::Value)>
    decreases t,
{
    match t {
        TreeV::Leaf(v) => seq![(p, v)],
        TreeV::Obj(es) => flat_path_entries(es, p),
    }
}

/// The flat entries of object entries `es` below the key path `p`.
pub open spec fn flat_path_entries(es: Seq<(Seq<char>, TreeV)>, p: Seq<Seq<char>>) -> Seq<(Seq<Seq<char>>, serde_json::Value)>
    decreases es,
{
    if es.len() == 0 {
        Seq::empty()
    } else {
        flat_path_entries(es.drop_last(), p) + flat_path(es.last().1, p.push(es.last().0))
    }
}

/// Paths joined with dots.
pub open spec fn jmap(ps: Seq<(Seq<Seq<char>>, serde_json::Value)>) -> Seq<(Seq<char>, serde_json::Value)> {
    ps.map_values(|q: (Seq<Seq<char>>, serde_json::Value)| (crate::text::join_spec(q.0, "."@), q.1))
}

/// `acc` with the values of `ps` put at their paths, in order.
pub open spec fn up(acc: Seq<(Seq<char>, TreeV)>, ps: Seq<(Seq<Seq<char>>, serde_json::Value)>) -> Seq<(Seq<char>, TreeV)>
    decreases ps.len(),
{
    if ps.len() == 0 { acc } else { set_nested(up(acc, ps.drop_last()), ps.last().0, TreeV::Leaf(ps.last().1)) }
}

/// `acc` with the values of `ps` put at the paths their keys name.
pub open spec fn ufrom(acc: Seq<(Seq<char>, TreeV)>, ps: Seq<(Seq<char>, serde_json::Value)>) -> Seq<(Seq<char>, TreeV)>
    decreases ps.len(),
{
    if ps.len() == 0 { acc } else { set_nested(ufrom(acc, ps.drop_last()), split_spec(ps.last().0, '.'), TreeV::Leaf(ps.last().1)) }
}

/// Paths without their first key.
pub open spec fn strip(ps: Seq<(Seq<Seq<char>>, serde_json::Value)>) -> Seq<(Seq<Seq<char>>, serde_json::Value)> {
    ps.map_values(|q: (Seq<Seq<char>>, serde_json::Value)| (q.0.drop_first(), q.1))
}

proof fn lemma_unflat_ufrom(ps: Seq<(Seq<char>, serde_json::Value)>)
    ensures
        unflat(ps) == ufrom(Seq::empty(), ps),
    decreases ps.len(),
{
    if ps.len() > 0 {
        lemma_unflat_ufrom(ps.drop_last());
    }
}

proof fn lemma_up_concat(acc: Seq<(Seq<char>, TreeV)>, a: Seq<(Seq<Seq<char>>, serde_json::Value)>, b: Seq<(Seq<Seq<char>>, serde_json::Value)>)
    ensures
        up(acc, a + b) == up(up(acc, a), b),
    decreases b.len(),
{
    if b.len() == 0 {
        assert(a + b =~= a);
    } else {
        lemma_up_concat(acc, a, b.drop_last());
        assert((a + b).drop_last() =~= a + b.drop_last());
        assert((a + b).last() == b.last());
    }
}

proof fn lemma_ufrom_jmap(acc: Seq<(Seq<char>, TreeV)>, ps: Seq<(Seq<Seq<char>>, serde_json::Value)>)
    requires
        forall|i: int| 0 <= i < ps.len() ==> (#[trigger] ps[i]).0.len() > 0
            && forall|j: int| 0 <= j < ps[i].0.len() ==> !(#[trigger] ps[i].0[j]).contains('.'),
    ensures
        ufrom(acc, jmap(ps)) == up(acc, ps),
    decreases ps.len(),
{
    if ps.len() > 0 {
        lemma_ufrom_jmap(acc, ps.drop_last());
        assert(jmap(ps).drop_last() =~= jmap(ps.drop_last()));
        let q = ps.last();
        assert(q == ps[ps.len() - 1]);
        reveal_strlit(".");
        assert("."@ =~= seq!['.']);
        assert forall|i: int, j: int| 0 <= i < q.0.len() && 0 <= j < q.0[i].len() implies #[trigger] q.0[i][j] != '.' by {
            assert(!q.0[i].contains('.'));
        }
        crate::text::lemma_split_join(q.0, '.');
    }
}

proof fn lemma_join_nonempty(p: Seq<Seq<char>>)
    requires
        p.len() > 0,
        p[0].len() > 0,
    ensures
        crate::text::join_spec(p, "."@).len() > 0,
    decreases p.len(),
{
    if p.len() > 1 {
        lemma_join_nonempty(p.drop_last());
    }
}

proof fn lemma_flat_string(t: TreeV, p: Seq<Seq<char>>)
    requires
        p.len() > 0,
        p[0].len() > 0,
    ensures
        flat_tree(t, crate::text::join_spec(p, "."@)) == jmap(flat_path(t, p)),
    decreases t,
{
    match t {
        TreeV::Leaf(v) => {
            assert(jmap(seq![(p, v)]) =~= seq![(crate::text::join_spec(p, "."@), v)]);
        },
        TreeV::Obj(es) => {
            lemma_flat_string_entries(es, p);
        },
    }
}

proof fn lemma_flat_string_entries(es: Seq<(Seq<char>, TreeV)>, p: Seq<Seq<char>>)
    requires
        p.len() > 0,
        p[0].len() > 0,
    ensures
        flat_entries(es, crate::text::join_spec(p, "."@)) == jmap(flat_path_entries(es, p)),
    decreases es,
{
    if es.len() > 0 {
        lemma_flat_string_entries(es.drop_last(), p);
        let e = es.last();
        crate::text::lemma_join_push(p, "."@, e.0);
        lemma_join_nonempty(p);
        assert(p.push(e.0)[0] == p[0]);
        lemma_flat_string(e.1, p.push(e.0));
        assert(jmap(flat_path_entries(es.drop_last(), p) + flat_path(e.1, p.push(e.0)))
            =~= jmap(flat_path_entries(es.drop_last(), p)) + jmap(flat_path(e.1, p.push(e.0))));
    }
}

proof fn lemma_flat_string_top(es: Seq<(Seq<char>, TreeV)>)
    requires
        wf_entries(es),
    ensures
        flat_entries(es, Seq::empty()) == jmap(flat_path_entries(es, Seq::empty())),
    decreases es.len(),
{
    if es.len() > 0 {
        lemma_flat_string_top(es.drop_last());
        let e = es.last();
        let p = Seq::<Seq<char>>::empty().push(e.0);
        crate::text::lemma_join_push(Seq::<Seq<char>>::empty(), "."@, e.0);
        assert(p[0] == e.0);
        lemma_flat_string(e.1, p);
        assert(jmap(flat_path_entries(es.drop_last(), Seq::empty()) + flat_path(e.1, p))
            =~= jmap(flat_path_entries(es.drop_last(), Seq::empty())) + jmap(flat_path(e.1, p)));
    }
}

/// Every path of `flat_path(t, p)` extends `p`, strictly when `t` is an
/// object, and keeps its keys free of dots.
proof fn lemma_flat_paths(t: TreeV, p: Seq<Seq<char>>)
    requires
        wf_tree(t),
        forall|j: int| 0 <= j < p.len() ==> !(#[trigger] p[j]).contains('.'),
    ensures
        flat_path(t, p).len() > 0,
        forall|i: int| 0 <= i < flat_path(t, p).len() ==> {
            &&& (#[trigger] flat_path(t, p)[i]).0.len() >= p.len()
            &&& (t is Obj ==> flat_path(t, p)[i].0.len() > p.len())
            &&& flat_path(t, p)[i].0.take(p.len() as int) == p
            &&& forall|j: int| 0 <= j < flat_path(t, p)[i].0.len() ==> !(#[trigger] flat_path(t, p)[i].0[j]).contains('.')
        },
    decreases t,
{
    match t {
        TreeV::Leaf(v) => {
            assert(p.take(p.len() as int) =~= p);
        },
        TreeV::Obj(es) => {
            lemma_flat_paths_entries(es, p);
        },
    }
}

proof fn lemma_flat_paths_entries(es: Seq<(Seq<char>, TreeV)>, p: Seq<Seq<char>>)
    requires
        wf_entries(es),
        forall|j: int| 0 <= j < p.len() ==> !(#[trigger] p[j]).contains('.'),
    ensures
        es.len() > 0 ==> flat_path_entries(es, p).len() > 0,
        forall|i: int| 0 <= i < flat_path_entries(es, p).len() ==> {
            &&& (#[trigger] flat_path_entries(es, p)[i]).0.len() > p.len()
            &&& flat_path_entries(es, p)[i].0.take(p.len() as int) == p
            &&& forall|j: int| 0 <= j < flat_path_entries(es, p)[i].0.len() ==> !(#[trigger] flat_path_entries(es, p)[i].0[j]).contains('.')
        },
    decreases es,
{
    if es.len() > 0 {
        lemma_flat_paths_entries(es.drop_last(), p);
        let e = es.last();
        let q = p.push(e.0);
        assert forall|j: int| 0 <= j < q.len() implies !(#[trigger] q[j]).contains('.') by {
            if j < p.len() {
                assert(q[j] == p[j]);
            }
        }
        lemma_flat_paths(e.1, q);
        let a = flat_path_entries(es.drop_last(), p);
        let b = flat_path(e.1, q);
        assert forall|i: int| 0 <= i < (a + b).len() implies {
            &&& (#[trigger] (a + b)[i]).0.len() > p.len()
            &&& (a + b)[i].0.take(p.len() as int) == p
            &&& forall|j: int| 0 <= j < (a + b)[i].0.len() ==> !(#[trigger] (a + b)[i].0[j]).contains('.')
        } by {
            if i >= a.len() {
                let x = b[i - a.len()];
                assert((a + b)[i] == x);
                assert(x.0.take(q.len() as int) == q);
                assert(x.0.take(p.len() as int) =~= q.take(p.len() as int));
                assert(q.take(p.len() as int) =~= p);
            } else {
                assert((a + b)[i] == a[i]);
            }
        }
    }
}

/// Removing the first key of every path of the flat entries below
/// `[k] + r` gives the flat entries below `r`.
proof fn lemma_strip_flat(t: TreeV, k: Seq<char>, r: Seq<Seq<char>>)
    ensures
        strip(flat_path(t, seq![k] + r)) == flat_path(t, r),
    decreases t,
{
    match t {
        TreeV::Leaf(v) => {
            assert((seq![k] + r).drop_first() =~= r);
            assert(strip(seq![(seq![k] + r, v)]) =~= seq![(r, v)]);
        },
        TreeV::Obj(es) => {
            lemma_strip_flat_entries(es, k, r);
        },
    }
}

proof fn lemma_strip_flat_entries(es: Seq<(Seq<char>, TreeV)>, k: Seq<char>, r: Seq<Seq<char>>)
    ensures
        strip(flat_path_entries(es, seq![k] + r)) == flat_path_entries(es, r),
    decreases es,
{
    if es.len() > 0 {
        lemma_strip_flat_entries(es.drop_last(), k, r);
        let e = es.last();
        assert((seq![k] + r).push(e.0) =~= seq![k] + r.push(e.0));
        lemma_strip_flat(e.1, k, r.push(e.0));
        let a = flat_path_entries(es.drop_last(), seq![k] + r);
        let b = flat_path(e.1, seq![k] + r.push(e.0));
        assert(strip(a + b) =~= strip(a) + strip(b));
    }
}

/// A key that occurs has a first occurrence.
proof fn lemma_first_key(es: Seq<(Seq<char>, TreeV)>, k: Seq<char>, i: int)
    requires
        0 <= i < es.len(),
        es[i].0 == k,
    ensures
        obj_index(es, k) is Some,
    decreases i,
{
    if exists|j: int| 0 <= j < i && es[j].0 == k {
        let j = choose|j: int| 0 <= j < i && es[j].0 == k;
        lemma_first_key(es, k, j);
    } else {
        assert(0 <= i < es.len() && es[i].0 == k && forall|j: int| 0 <= j < i ==> es[j].0 != k);
    }
}

proof fn lemma_index_push(acc: Seq<(Seq<char>, TreeV)>, k: Seq<char>, x: TreeV)
    requires
        obj_index(acc, k) is None,
    ensures
        obj_index(acc.push((k, x)), k) == Some(acc.len() as int),
{
    let a = acc.push((k, x));
    let n = acc.len() as int;
    assert forall|j: int| 0 <= j < n implies a[j].0 != k by {
        assert(a[j] == acc[j]);
        if acc[j].0 == k {
            lemma_first_key(acc, k, j);
        }
    }
    assert(0 <= n < a.len() && a[n].0 == k && forall|j: int| 0 <= j < n ==> a[j].0 != k);
    let c = choose|c: int| 0 <= c < a.len() && a[c].0 == k && forall|j: int| 0 <= j < c ==> a[j].0 != k;
    assert(c == n) by {
        if c < n { assert(a[c].0 != k); }
    }
}

/// Putting paths that all start with `k`, missing from `acc`, builds one
/// new object under `k`.
proof fn lemma_up_prefixed(acc: Seq<(Seq<char>, TreeV)>, k: Seq<char>, qs: Seq<(Seq<Seq<char>>, serde_json::Value)>)
    requires
        obj_index(acc, k) is None,
        qs.len() > 0,
        forall|i: int| 0 <= i < qs.len() ==> (#[trigger] qs[i]).0.len() >= 2 && qs[i].0[0] == k,
    ensures
        up(acc, qs) == acc.push((k, TreeV::Obj(up(Seq::empty(), strip(qs))))),
    decreases qs.len(),
{
    let q = qs.last();
    assert(q == qs[qs.len() - 1]);
    assert(q.0.len() >= 2 && q.0[0] == k);
    let leaf = TreeV::Leaf(q.1);
    if qs.len() == 1 {
        assert(qs.drop_last() =~= Seq::empty());
        assert(up(acc, qs.drop_last()) == acc);
        assert(strip(qs).drop_last() =~= Seq::empty());
        assert(strip(qs).last() == (q.0.drop_first(), q.1));
        assert(up(Seq::empty(), strip(qs).drop_last()) == Seq::<(Seq<char>, TreeV)>::empty());
        assert(up(Seq::empty(), strip(qs)) == set_nested(Seq::empty(), q.0.drop_first(), leaf));
        assert(up(acc, qs) == set_nested(acc, q.0, leaf));
        assert(set_nested(acc, q.0, leaf) == acc.push((k, TreeV::Obj(set_nested(Seq::empty(), q.0.drop_first(), leaf)))));
    } else {
        let d = qs.drop_last();
        assert forall|i: int| 0 <= i < d.len() implies (#[trigger] d[i]).0.len() >= 2 && d[i].0[0] == k by {
            assert(d[i] == qs[i]);
        }
        lemma_up_prefixed(acc, k, d);
        let inner = up(Seq::empty(), strip(d));
        lemma_index_push(acc, k, TreeV::Obj(inner));
        assert(strip(qs).drop_last() =~= strip(d));
        assert(strip(qs).last() == (q.0.drop_first(), q.1));
        let mid = acc.push((k, TreeV::Obj(inner)));
        assert(up(acc, qs) == set_nested(mid, q.0, leaf));
        assert(mid[acc.len() as int].1 == TreeV::Obj(inner));
        assert(set_nested(mid, q.0, leaf) == mid.update(acc.len() as int,
            (k, TreeV::Obj(set_nested(inner, q.0.drop_first(), leaf)))));
        assert(up(Seq::empty(), strip(qs)) == set_nested(inner, q.0.drop_first(), leaf));
        assert(mid.update(acc.len() as int, (k, TreeV::Obj(set_nested(inner, q.0.drop_first(), leaf))))
            =~= acc.push((k, TreeV::Obj(set_nested(inner, q.0.drop_first(), leaf)))));
    }
}

/// The flat entries of a well-formed tree put under a missing key `k`
/// give that tree back under `k`.
proof fn lemma_up_single(acc: Seq<(Seq<char>, TreeV)>, k: Seq<char>, t: TreeV)
    requires
        wf_tree(t),
        key_ok(k),
        obj_index(acc, k) is None,
    ensures
        up(acc, flat_path(t, seq![k])) == acc.push((k, t)),
    decreases t,
{
    match t {
        TreeV::Leaf(v) => {
            let ps = seq![(seq![k], v)];
            assert(flat_path(t, seq![k]) == ps);
            assert(ps.drop_last() =~= Seq::empty());
            assert(up(acc, ps.drop_last()) == acc);
            assert(ps.last() == (seq![k], v));
            assert(seq![k][0] == k);
            assert(up(acc, ps) == set_nested(acc, seq![k], TreeV::Leaf(v)));
            assert(set_nested(acc, seq![k], TreeV::Leaf(v)) == obj_put(acc, k, TreeV::Leaf(v)));
        },
        TreeV::Obj(es) => {
            let qs = flat_path(t, seq![k]);
            assert forall|j: int| 0 <= j < seq![k].len() implies !(#[trigger] seq![k][j]).contains('.') by {}
            lemma_flat_paths(t, seq![k]);
            assert forall|i: int| 0 <= i < qs.len() implies (#[trigger] qs[i]).0.len() >= 2 && qs[i].0[0] == k by {
                assert(qs[i].0.take(1) == seq![k]);
                assert(qs[i].0[0] == qs[i].0.take(1)[0]);
            }
            lemma_up_prefixed(acc, k, qs);
            assert(seq![k] + Seq::<Seq<char>>::empty() =~= seq![k]);
            lemma_strip_flat(t, k, Seq::empty());
            lemma_up_entries(es);
        },
    }
}

/// The flat entries of well-formed object entries put into an empty object
/// give the entries back.
proof fn lemma_up_entries(es: Seq<(Seq<char>, TreeV)>)
    requires
        wf_entries(es),
    ensures
        up(Seq::empty(), flat_path_entries(es, Seq::empty())) == es,
    decreases es,
{
    if es.len() > 0 {
        let d = es.drop_last();
        let e = es.last();
        lemma_up_entries(d);
        lemma_up_concat(Seq::empty(), flat_path_entries(d, Seq::empty()), flat_path(e.1, Seq::<Seq<char>>::empty().push(e.0)));
        assert(Seq::<Seq<char>>::empty().push(e.0) =~= seq![e.0]);
        lemma_up_single(d, e.0, e.1);
        assert(d.push(e) =~= es);
    }
}

/// Flattening and then restoring gives back every argument object whose
/// nested objects are not empty and whose keys are distinct, not empty and
/// free of dots.
pub proof fn lemma_unflatten_flatten(es: Seq<(Seq<char>, TreeV)>)
    requires
        wf_entries(es),
    ensures
        unflat(flat_tree(TreeV::Obj(es), Seq::empty())) == es,
{
    lemma_flat_string_top(es);
    lemma_unflat_ufrom(flat_tree(TreeV::Obj(es), Seq::empty()));
    let ps = flat_path_entries(es, Seq::empty());
    lemma_flat_paths_entries(es, Seq::empty());
    assert forall|i: int| 0 <= i < ps.len() implies (#[trigger] ps[i]).0.len() > 0
        && forall|j: int| 0 <= j < ps[i].0.len() ==> !(#[trigger] ps[i].0[j]).contains('.') by {}
    lemma_ufrom_jmap(Seq::empty(), ps);
    lemma_up_entries(es);
}

} // verus!
