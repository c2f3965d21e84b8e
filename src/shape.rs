use vstd::prelude::*;

use crate::ast::{Point, Span};
use crate::grammar::{
    digits_end, find_char, is_digit, is_letter, is_ws, next_entry, p_array, p_items, p_members,
    p_object, p_string, p_value, p_word, skip_char, skip_ws, span_of, spec_parse, Atom, Lit,
    Member, Val, MAX_DEPTH,
};
use crate::lemmas::{
    law_array_ends_after_start, law_object_ends_after_start, law_single_entry_object,
    law_value_ends_after_start, lemma_digits_end_bounds, lemma_find_char_bounds,
    lemma_items_end_at_bracket, lemma_members_end_at_brace, lemma_next_entry_bounds,
    lemma_skip_ws_bounds, lemma_word_length, single_entry_text,
};

verus! {

broadcast use vstd::seq::group_seq_axioms;

/// The span that stands for "no location" in a shape.
pub open spec fn no_span() -> Span {
    Span { start: Point { line: 0, column: 0 }, end: Point { line: 0, column: 0 } }
}

/// A value with every span erased: its structure alone.
pub open spec fn shape(v: Val) -> Val
    decreases v,
{
    match v {
        Val::Object { members, .. } => Val::Object { members: members_shape(members), span: no_span() },
        Val::Array { items, .. } => Val::Array { items: items_shape(items), span: no_span() },
        Val::Literal(l) => Val::Literal(Lit { value: l.value, span: no_span() }),
    }
}

pub open spec fn members_shape(ms: Seq<Member>) -> Seq<Member>
    decreases ms,
{
    if ms.len() == 0 {
        Seq::empty()
    } else {
        let m = ms.last();
        members_shape(ms.drop_last()).push(
            Member {
                key: Lit { value: m.key.value, span: no_span() },
                value: shape(m.value),
                span: no_span(),
            },
        )
    }
}

pub open spec fn items_shape(vs: Seq<Val>) -> Seq<Val>
    decreases vs,
{
    if vs.len() == 0 {
        Seq::empty()
    } else {
        items_shape(vs.drop_last()).push(shape(vs.last()))
    }
}

/// `s1` from `lo` to `hi` is the same text as `s2` from `lo + d` to `hi + d`.
pub open spec fn agree(s1: Seq<char>, s2: Seq<char>, lo: int, hi: int, d: int) -> bool {
    &&& 0 <= lo <= hi <= s1.len()
    &&& 0 <= lo + d
    &&& hi + d <= s2.len()
    &&& forall|k: int| lo <= k < hi ==> s1[k] == #[trigger] s2[k + d]
}

/// Nothing at `j` could continue a number or a word.
pub open spec fn ends_word(s: Seq<char>, j: int) -> bool {
    j >= s.len() || !(is_digit(s[j]) || is_letter(s[j]))
}

proof fn lemma_skip_ws_shift(s1: Seq<char>, s2: Seq<char>, lo: int, hi: int, d: int, i: int)
    requires
        agree(s1, s2, lo, hi, d),
        lo <= i <= hi,
        skip_ws(s1, i) < hi,
    ensures
        skip_ws(s2, i + d) == skip_ws(s1, i) + d,
    decreases hi - i,
{
    lemma_skip_ws_bounds(s1, i);
    assert(s1[i] == s2[i + d]);
    if is_ws(s1[i]) {
        lemma_skip_ws_shift(s1, s2, lo, hi, d, i + 1);
    }
}

proof fn lemma_find_char_shift(s1: Seq<char>, s2: Seq<char>, lo: int, hi: int, d: int, i: int, c: char)
    requires
        agree(s1, s2, lo, hi, d),
        lo <= i <= hi,
        find_char(s1, i, c) < hi,
    ensures
        find_char(s2, i + d, c) == find_char(s1, i, c) + d,
    decreases hi - i,
{
    lemma_find_char_bounds(s1, i, c);
    assert(s1[i] == s2[i + d]);
    if s1[i] != c {
        lemma_find_char_shift(s1, s2, lo, hi, d, i + 1, c);
    }
}

proof fn lemma_digits_end_shift(s1: Seq<char>, s2: Seq<char>, lo: int, hi: int, d: int, i: int)
    requires
        agree(s1, s2, lo, hi, d),
        lo <= i <= hi,
        digits_end(s1, i) <= hi,
        digits_end(s1, i) < hi || ends_word(s2, hi + d),
    ensures
        digits_end(s2, i + d) == digits_end(s1, i) + d,
    decreases hi - i,
{
    lemma_digits_end_bounds(s1, i);
    if i < hi {
        assert(s1[i] == s2[i + d]);
        if is_digit(s1[i]) {
            lemma_digits_end_shift(s1, s2, lo, hi, d, i + 1);
        }
    }
}

proof fn lemma_word_shift(s1: Seq<char>, s2: Seq<char>, lo: int, hi: int, d: int, i: int, w: Seq<char>)
    requires
        agree(s1, s2, lo, hi, d),
        lo <= i,
        p_word(s1, i, w) is Ok,
        p_word(s1, i, w)->Ok_0 <= hi,
    ensures
        p_word(s2, i + d, w) is Ok,
        p_word(s2, i + d, w)->Ok_0 == p_word(s1, i, w)->Ok_0 + d,
    decreases w.len(),
{
    if w.len() > 0 {
        lemma_word_length(s1, i + 1, w.drop_first());
        assert(s1[i] == s2[i + d]);
        lemma_word_shift(s1, s2, lo, hi, d, i + 1, w.drop_first());
    }
}

proof fn lemma_subrange_shift(s1: Seq<char>, s2: Seq<char>, lo: int, hi: int, d: int, a: int, b: int)
    requires
        agree(s1, s2, lo, hi, d),
        lo <= a <= b <= hi,
    ensures
        s2.subrange(a + d, b + d) == s1.subrange(a, b),
{
    assert forall|k: int| 0 <= k < b - a implies s2.subrange(a + d, b + d)[k] == s1.subrange(a, b)[k] by {
        assert(s1[a + k] == s2[a + k + d]);
    }
    assert(s2.subrange(a + d, b + d) =~= s1.subrange(a, b));
}

proof fn lemma_members_shape_push(ms: Seq<Member>, m: Member)
    ensures
        members_shape(ms.push(m)) == members_shape(ms).push(
            Member {
                key: Lit { value: m.key.value, span: no_span() },
                value: shape(m.value),
                span: no_span(),
            },
        ),
{
    assert(ms.push(m).drop_last() =~= ms);
}

proof fn lemma_items_shape_push(vs: Seq<Val>, v: Val)
    ensures
        items_shape(vs.push(v)) == items_shape(vs).push(shape(v)),
{
    assert(vs.push(v).drop_last() =~= vs);
}

/// A value parsed inside `s1` parses the same way, up to its spans, where
/// the same text stands in `s2`, as long as nothing after it in `s2` could
/// continue a number or a word.
pub proof fn lemma_value_shift(
    s1: Seq<char>,
    s2: Seq<char>,
    lo: int,
    hi: int,
    d: int,
    i: int,
    depth: nat,
)
    requires
        agree(s1, s2, lo, hi, d),
        lo <= i,
        p_value(s1, i, depth) is Ok,
        p_value(s1, i, depth)->Ok_0.1 <= hi,
        p_value(s1, i, depth)->Ok_0.1 < hi || ends_word(s2, hi + d),
    ensures
        p_value(s2, i + d, depth) is Ok,
        p_value(s2, i + d, depth)->Ok_0.1 == p_value(s1, i, depth)->Ok_0.1 + d,
        shape(p_value(s2, i + d, depth)->Ok_0.0) == shape(p_value(s1, i, depth)->Ok_0.0),
    decreases depth, 2int, 0int,
{
    law_value_ends_after_start(s1, i, depth);
    assert(s1[i] == s2[i + d]);
    if s1[i] == '{' {
        lemma_object_shift(s1, s2, lo, hi, d, i, depth);
    } else if s1[i] == '[' {
        lemma_array_shift(s1, s2, lo, hi, d, i, depth);
    } else if s1[i] == '"' {
        lemma_find_char_bounds(s1, i + 1, '"');
        let f = find_char(s1, i + 1, '"');
        lemma_find_char_shift(s1, s2, lo, hi, d, i + 1, '"');
        lemma_subrange_shift(s1, s2, lo, hi, d, i + 1, f);
    } else if is_digit(s1[i]) {
        lemma_digits_end_bounds(s1, i);
        let e = digits_end(s1, i);
        lemma_digits_end_shift(s1, s2, lo, hi, d, i);
        lemma_subrange_shift(s1, s2, lo, hi, d, i, e);
    } else {
        let w = if s1[i] == 't' {
            seq!['t', 'r', 'u', 'e']
        } else if s1[i] == 'f' {
            seq!['f', 'a', 'l', 's', 'e']
        } else {
            seq!['n', 'u', 'l', 'l']
        };
        lemma_word_length(s1, i, w);
        lemma_word_shift(s1, s2, lo, hi, d, i, w);
        let j = p_word(s1, i, w)->Ok_0;
        if j < hi {
            assert(s1[j] == s2[j + d]);
        }
    }
}

proof fn lemma_object_shift(
    s1: Seq<char>,
    s2: Seq<char>,
    lo: int,
    hi: int,
    d: int,
    i: int,
    depth: nat,
)
    requires
        agree(s1, s2, lo, hi, d),
        lo <= i,
        p_object(s1, i, depth) is Ok,
        p_object(s1, i, depth)->Ok_0.1 <= hi,
    ensures
        p_object(s2, i + d, depth) is Ok,
        p_object(s2, i + d, depth)->Ok_0.1 == p_object(s1, i, depth)->Ok_0.1 + d,
        shape(p_object(s2, i + d, depth)->Ok_0.0) == shape(p_object(s1, i, depth)->Ok_0.0),
    decreases depth, 1int, 0int,
{
    law_object_ends_after_start(s1, i, depth);
    assert(s1[i] == s2[i + d]);
    lemma_skip_ws_bounds(s1, i + 1);
    let j = skip_ws(s1, i + 1);
    let inner = (depth - 1) as nat;
    lemma_members_end_at_brace(s1, j, inner, Seq::empty());
    lemma_skip_ws_shift(s1, s2, lo, hi, d, i + 1);
    lemma_members_shift(s1, s2, lo, hi, d, j, inner, Seq::empty(), Seq::empty());
}

proof fn lemma_array_shift(
    s1: Seq<char>,
    s2: Seq<char>,
    lo: int,
    hi: int,
    d: int,
    i: int,
    depth: nat,
)
    requires
        agree(s1, s2, lo, hi, d),
        lo <= i,
        p_array(s1, i, depth) is Ok,
        p_array(s1, i, depth)->Ok_0.1 <= hi,
    ensures
        p_array(s2, i + d, depth) is Ok,
        p_array(s2, i + d, depth)->Ok_0.1 == p_array(s1, i, depth)->Ok_0.1 + d,
        shape(p_array(s2, i + d, depth)->Ok_0.0) == shape(p_array(s1, i, depth)->Ok_0.0),
    decreases depth, 1int, 0int,
{
    law_array_ends_after_start(s1, i, depth);
    assert(s1[i] == s2[i + d]);
    lemma_skip_ws_bounds(s1, i + 1);
    let j = skip_ws(s1, i + 1);
    let inner = (depth - 1) as nat;
    lemma_items_end_at_bracket(s1, j, inner, Seq::empty());
    lemma_skip_ws_shift(s1, s2, lo, hi, d, i + 1);
    lemma_items_shift(s1, s2, lo, hi, d, j, inner, Seq::empty(), Seq::empty());
}

proof fn lemma_next_entry_shift(s1: Seq<char>, s2: Seq<char>, lo: int, hi: int, d: int, k: int)
    requires
        agree(s1, s2, lo, hi, d),
        lo <= k <= hi,
        next_entry(s1, k) < hi,
    ensures
        next_entry(s2, k + d) == next_entry(s1, k) + d,
{
    lemma_skip_ws_bounds(s1, k);
    let a = skip_ws(s1, k);
    let b = skip_char(s1, a, ',');
    lemma_skip_ws_bounds(s1, b);
    lemma_skip_ws_shift(s1, s2, lo, hi, d, k);
    assert(s1[a] == s2[a + d]);
    lemma_skip_ws_shift(s1, s2, lo, hi, d, b);
}

proof fn lemma_members_shift(
    s1: Seq<char>,
    s2: Seq<char>,
    lo: int,
    hi: int,
    d: int,
    j: int,
    depth: nat,
    acc1: Seq<Member>,
    acc2: Seq<Member>,
)
    requires
        agree(s1, s2, lo, hi, d),
        lo <= j,
        p_members(s1, j, depth, acc1) is Ok,
        p_members(s1, j, depth, acc1)->Ok_0.1 < hi,
        members_shape(acc1) == members_shape(acc2),
    ensures
        p_members(s2, j + d, depth, acc2) is Ok,
        p_members(s2, j + d, depth, acc2)->Ok_0.1 == p_members(s1, j, depth, acc1)->Ok_0.1 + d,
        members_shape(p_members(s2, j + d, depth, acc2)->Ok_0.0) == members_shape(
            p_members(s1, j, depth, acc1)->Ok_0.0,
        ),
    decreases depth + 1, 0int, s1.len() - j,
{
    lemma_members_end_at_brace(s1, j, depth, acc1);
    assert(s1[j] == s2[j + d]);
    if s1[j] != '}' {
        lemma_find_char_bounds(s1, j + 1, '"');
        let f = find_char(s1, j + 1, '"');
        let k1 = f + 1;
        lemma_skip_ws_bounds(s1, k1);
        let q1 = skip_ws(s1, k1);
        let k2 = q1 + 1;
        lemma_skip_ws_bounds(s1, k2);
        let q2 = skip_ws(s1, k2);
        law_value_ends_after_start(s1, q2, depth);
        let (v1, k3) = p_value(s1, q2, depth)->Ok_0;
        lemma_next_entry_bounds(s1, k3);
        let k4 = next_entry(s1, k3);
        let key1 = p_string(s1, j)->Ok_0.0;
        let m1 = Member { key: key1, value: v1, span: span_of(s1, j, k3) };
        lemma_members_end_at_brace(s1, k4, depth, acc1.push(m1));
        lemma_find_char_shift(s1, s2, lo, hi, d, j + 1, '"');
        lemma_subrange_shift(s1, s2, lo, hi, d, j + 1, f);
        lemma_skip_ws_shift(s1, s2, lo, hi, d, k1);
        assert(s1[q1] == s2[q1 + d]);
        lemma_skip_ws_shift(s1, s2, lo, hi, d, k2);
        lemma_value_shift(s1, s2, lo, hi, d, q2, depth);
        lemma_next_entry_shift(s1, s2, lo, hi, d, k3);
        let (v2, k3b) = p_value(s2, q2 + d, depth)->Ok_0;
        let key2 = p_string(s2, j + d)->Ok_0.0;
        let m2 = Member { key: key2, value: v2, span: span_of(s2, j + d, k3b) };
        lemma_members_shape_push(acc1, m1);
        lemma_members_shape_push(acc2, m2);
        lemma_members_shift(s1, s2, lo, hi, d, k4, depth, acc1.push(m1), acc2.push(m2));
    }
}

proof fn lemma_items_shift(
    s1: Seq<char>,
    s2: Seq<char>,
    lo: int,
    hi: int,
    d: int,
    j: int,
    depth: nat,
    acc1: Seq<Val>,
    acc2: Seq<Val>,
)
    requires
        agree(s1, s2, lo, hi, d),
        lo <= j,
        p_items(s1, j, depth, acc1) is Ok,
        p_items(s1, j, depth, acc1)->Ok_0.1 < hi,
        items_shape(acc1) == items_shape(acc2),
    ensures
        p_items(s2, j + d, depth, acc2) is Ok,
        p_items(s2, j + d, depth, acc2)->Ok_0.1 == p_items(s1, j, depth, acc1)->Ok_0.1 + d,
        items_shape(p_items(s2, j + d, depth, acc2)->Ok_0.0) == items_shape(
            p_items(s1, j, depth, acc1)->Ok_0.0,
        ),
    decreases depth + 1, 0int, s1.len() - j,
{
    lemma_items_end_at_bracket(s1, j, depth, acc1);
    assert(s1[j] == s2[j + d]);
    if s1[j] != ']' {
        law_value_ends_after_start(s1, j, depth);
        let (v1, k) = p_value(s1, j, depth)->Ok_0;
        lemma_next_entry_bounds(s1, k);
        let k4 = next_entry(s1, k);
        lemma_items_end_at_bracket(s1, k4, depth, acc1.push(v1));
        lemma_value_shift(s1, s2, lo, hi, d, j, depth);
        lemma_next_entry_shift(s1, s2, lo, hi, d, k);
        let v2 = p_value(s2, j + d, depth)->Ok_0.0;
        lemma_items_shape_push(acc1, v1);
        lemma_items_shape_push(acc2, v2);
        lemma_items_shift(s1, s2, lo, hi, d, k4, depth, acc1.push(v1), acc2.push(v2));
    }
}

/// The entries of an object; none for any other value.
pub open spec fn members_of(v: Val) -> Seq<Member> {
    match v {
        Val::Object { members, .. } => members,
        _ => Seq::empty(),
    }
}

/// `{"k": v}`, where `v` alone is one value, parses to exactly one object
/// with exactly one property. Its key is the text between the quotes,
/// unchanged, and its value has the structure that parsing `v` alone gives:
/// only the spans differ. (`v` must leave room for the object around it
/// under the nesting limit.)
pub proof fn law_single_entry_matches_value(k: Seq<char>, v: Seq<char>)
    requires
        !k.contains('"'),
        p_value(v, 0, (MAX_DEPTH - 1) as nat) is Ok,
        p_value(v, 0, (MAX_DEPTH - 1) as nat)->Ok_0.1 == v.len(),
    ensures
        spec_parse(single_entry_text(k, v)) is Ok,
        spec_parse(single_entry_text(k, v))->Ok_0.len() == 1,
        spec_parse(single_entry_text(k, v))->Ok_0[0] is Object,
        members_of(spec_parse(single_entry_text(k, v))->Ok_0[0]).len() == 1,
        members_of(spec_parse(single_entry_text(k, v))->Ok_0[0])[0].key.value
            == Atom::Str(k),
        shape(members_of(spec_parse(single_entry_text(k, v))->Ok_0[0])[0].value)
            == shape(p_value(v, 0, (MAX_DEPTH - 1) as nat)->Ok_0.0),
{
    let t = single_entry_text(k, v);
    let n = k.len() as int;
    let d = n + 5;
    assert forall|i: int| 0 <= i < v.len() implies v[i] == #[trigger] t[i + d] by {}
    assert(t[v.len() + d] == '}');
    lemma_value_shift(v, t, 0, v.len() as int, d, 0, (MAX_DEPTH - 1) as nat);
    law_single_entry_object(k, v);
}

} // verus!
