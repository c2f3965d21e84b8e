use vstd::prelude::*;

use crate::grammar::{
    digits_end, find_char, is_digit, next_entry, p_array, p_consume, p_items, p_keyword, p_members,
    p_nodes, p_number, p_object, p_scalar, p_string, p_value, p_word, skip_char, skip_ws,
    span_of, spec_parse, Atom, Lit, Member, ParseError, Val, MAX_DEPTH,
};

verus! {

broadcast use vstd::seq::group_seq_axioms;

/// The text `{"k": v}`.
pub open spec fn single_entry_text(k: Seq<char>, v: Seq<char>) -> Seq<char> {
    seq!['{', '"'] + k + seq!['"', ':', ' '] + v + seq!['}']
}

/// In `{"k": v}`, the first quote after the opening one closes the key.
proof fn lemma_key_end(k: Seq<char>, v: Seq<char>, i: int)
    requires
        !k.contains('"'),
        2 <= i <= (k.len() as int) + 2,
    ensures
        find_char(single_entry_text(k, v), i, '"') == (k.len() as int) + 2,
    decreases (k.len() as int) + 2 - i,
{
    let t = single_entry_text(k, v);
    if i < (k.len() as int) + 2 {
        assert(t[i] == k[i - 2]);
        if t[i] == '"' {
            assert(k.contains('"'));
        }
        lemma_key_end(k, v, i + 1);
    } else {
        assert(t[i] == '"');
    }
}

/// `{"k": v}` parses to exactly one object with exactly one property. The
/// property's key is the text between the quotes, unchanged, and its value
/// is what the value grammar reads from `v` where `v` stands; the property
/// runs from the key to the end of the value, the object over the whole text.
pub proof fn law_single_entry_object(k: Seq<char>, v: Seq<char>)
    requires
        !k.contains('"'),
        p_value(single_entry_text(k, v), (k.len() as int) + 5, (MAX_DEPTH - 1) as nat) is Ok,
        p_value(single_entry_text(k, v), (k.len() as int) + 5, (MAX_DEPTH - 1) as nat)->Ok_0.1
            == (k.len() as int) + 5 + (v.len() as int),
    ensures
        spec_parse(single_entry_text(k, v)) == Ok::<Seq<Val>, ParseError>(
            seq![
                Val::Object {
                    members: seq![
                        Member {
                            key: Lit {
                                value: Atom::Str(k),
                                span: span_of(single_entry_text(k, v), 1, (k.len() as int) + 3),
                            },
                            value: p_value(
                                single_entry_text(k, v),
                                (k.len() as int) + 5,
                                (MAX_DEPTH - 1) as nat,
                            )->Ok_0.0,
                            span: span_of(
                                single_entry_text(k, v),
                                1,
                                (k.len() as int) + 5 + (v.len() as int),
                            ),
                        },
                    ],
                    span: span_of(
                        single_entry_text(k, v),
                        0,
                        (k.len() as int) + 6 + (v.len() as int),
                    ),
                },
            ],
        ),
{
    let t = single_entry_text(k, v);
    let n = (k.len() as int);
    let d = (MAX_DEPTH - 1) as nat;
    let e = n + 5 + (v.len() as int);
    let val = p_value(t, n + 5, d)->Ok_0.0;
    assert(t.len() == e + 1);
    assert(t[0] == '{');
    assert(t[1] == '"');
    assert(t[n + 2] == '"');
    assert(t[n + 3] == ':');
    assert(t[n + 4] == ' ');
    assert(t[e] == '}');
    lemma_key_end(k, v, 2);
    assert(t.subrange(2, n + 2) =~= k);
    let key = Lit { value: Atom::Str(k), span: span_of(t, 1, n + 3) };
    assert(p_string(t, 1) == Ok::<(Lit, int), ParseError>((key, n + 3)));
    assert(skip_ws(t, n + 3) == n + 3);
    // A value cannot start with whitespace, so none is skipped before `v`.
    assert(skip_ws(t, n + 4) == skip_ws(t, n + 5));
    assert(skip_ws(t, n + 5) == n + 5);
    assert(next_entry(t, e) == e);
    let m = Member { key, value: val, span: span_of(t, 1, e) };
    assert(p_members(t, e, d, seq![m]) == Ok::<(Seq<Member>, int), ParseError>((seq![m], e)));
    assert(p_members(t, 1, d, Seq::empty()) == p_members(t, e, d, seq![m])) by {
        assert(Seq::<Member>::empty().push(m) =~= seq![m]);
    }
    assert(skip_ws(t, 1) == 1);
    let obj = Val::Object { members: seq![m], span: span_of(t, 0, e + 1) };
    assert(p_object(t, 0, MAX_DEPTH as nat) == Ok::<(Val, int), ParseError>((obj, e + 1)));
    assert(p_value(t, 0, MAX_DEPTH as nat) == Ok::<(Val, int), ParseError>((obj, e + 1)));
    assert(skip_ws(t, 0) == 0);
    assert(skip_ws(t, e + 1) == e + 1);
    assert(p_nodes(t, e + 1, seq![obj]) == Ok::<Seq<Val>, ParseError>(seq![obj]));
    assert(p_nodes(t, 0, Seq::empty()) == p_nodes(t, e + 1, seq![obj])) by {
        assert(Seq::<Val>::empty().push(obj) =~= seq![obj]);
    }
}

pub proof fn lemma_skip_ws_bounds(s: Seq<char>, i: int)
    requires
        0 <= i <= s.len(),
    ensures
        i <= skip_ws(s, i) <= s.len(),
    decreases s.len() - i,
{
    if i < s.len() {
        lemma_skip_ws_bounds(s, i + 1);
    }
}

pub proof fn lemma_find_char_bounds(s: Seq<char>, i: int, c: char)
    requires
        0 <= i <= s.len(),
    ensures
        i <= find_char(s, i, c) <= s.len(),
    decreases s.len() - i,
{
    if i < s.len() {
        lemma_find_char_bounds(s, i + 1, c);
    }
}

pub proof fn lemma_digits_end_bounds(s: Seq<char>, i: int)
    requires
        0 <= i <= s.len(),
    ensures
        i <= digits_end(s, i) <= s.len(),
    decreases s.len() - i,
{
    if i < s.len() {
        lemma_digits_end_bounds(s, i + 1);
    }
}

pub proof fn lemma_word_length(s: Seq<char>, i: int, w: Seq<char>)
    requires
        0 <= i <= s.len(),
        p_word(s, i, w) is Ok,
    ensures
        p_word(s, i, w)->Ok_0 == i + w.len(),
        i + w.len() <= s.len(),
    decreases w.len(),
{
    if w.len() > 0 {
        lemma_word_length(s, i + 1, w.drop_first());
    }
}

proof fn lemma_scalar_ends_after_start(s: Seq<char>, i: int)
    requires
        0 <= i,
        p_scalar(s, i) is Ok,
    ensures
        i < p_scalar(s, i)->Ok_0.1 <= s.len(),
{
    if 0 <= i < s.len() && is_digit(s[i]) {
        lemma_digits_end_bounds(s, i);
    } else {
        if s[i] == 't' {
            lemma_word_length(s, i, seq!['t', 'r', 'u', 'e']);
        } else if s[i] == 'f' {
            lemma_word_length(s, i, seq!['f', 'a', 'l', 's', 'e']);
        } else {
            lemma_word_length(s, i, seq!['n', 'u', 'l', 'l']);
        }
    }
}

/// Every value that parses ends after the offset where it starts, and no
/// later than the end of the text.
pub proof fn law_value_ends_after_start(s: Seq<char>, i: int, depth: nat)
    requires
        p_value(s, i, depth) is Ok,
    ensures
        i < p_value(s, i, depth)->Ok_0.1 <= s.len(),
    decreases depth, 2int, 0int,
{
    if s[i] == '{' {
        law_object_ends_after_start(s, i, depth);
    } else if s[i] == '[' {
        law_array_ends_after_start(s, i, depth);
    } else if s[i] == '"' {
        lemma_find_char_bounds(s, i + 1, '"');
    } else {
        lemma_scalar_ends_after_start(s, i);
    }
}

/// Every object that parses ends after the offset where it starts, and no
/// later than the end of the text.
pub proof fn law_object_ends_after_start(s: Seq<char>, i: int, depth: nat)
    requires
        p_object(s, i, depth) is Ok,
    ensures
        i < p_object(s, i, depth)->Ok_0.1 <= s.len(),
    decreases depth, 1int, 0int,
{
    lemma_skip_ws_bounds(s, i + 1);
    lemma_members_end_at_brace(s, skip_ws(s, i + 1), (depth - 1) as nat, Seq::empty());
}

/// Every array that parses ends after the offset where it starts, and no
/// later than the end of the text.
pub proof fn law_array_ends_after_start(s: Seq<char>, i: int, depth: nat)
    requires
        p_array(s, i, depth) is Ok,
    ensures
        i < p_array(s, i, depth)->Ok_0.1 <= s.len(),
    decreases depth, 1int, 0int,
{
    lemma_skip_ws_bounds(s, i + 1);
    lemma_items_end_at_bracket(s, skip_ws(s, i + 1), (depth - 1) as nat, Seq::empty());
}

pub proof fn lemma_next_entry_bounds(s: Seq<char>, k: int)
    requires
        0 <= k <= s.len(),
    ensures
        k <= next_entry(s, k) <= s.len(),
{
    lemma_skip_ws_bounds(s, k);
    let a = skip_char(s, skip_ws(s, k), ',');
    lemma_skip_ws_bounds(s, a);
}

pub proof fn lemma_members_end_at_brace(s: Seq<char>, j: int, depth: nat, acc: Seq<Member>)
    requires
        p_members(s, j, depth, acc) is Ok,
    ensures
        j <= p_members(s, j, depth, acc)->Ok_0.1 < s.len(),
    decreases depth + 1, 0int, s.len() - j,
{
    if s[j] != '}' {
        let k1 = p_string(s, j)->Ok_0.1;
        lemma_find_char_bounds(s, j + 1, '"');
        lemma_skip_ws_bounds(s, k1);
        let k2 = p_consume(s, skip_ws(s, k1), ':')->Ok_0;
        lemma_skip_ws_bounds(s, k2);
        let r = p_value(s, skip_ws(s, k2), depth);
        law_value_ends_after_start(s, skip_ws(s, k2), depth);
        let (v, k3) = r->Ok_0;
        lemma_next_entry_bounds(s, k3);
        let m = Member { key: p_string(s, j)->Ok_0.0, value: v, span: span_of(s, j, k3) };
        lemma_members_end_at_brace(s, next_entry(s, k3), depth, acc.push(m));
    }
}

pub proof fn lemma_items_end_at_bracket(s: Seq<char>, j: int, depth: nat, acc: Seq<Val>)
    requires
        p_items(s, j, depth, acc) is Ok,
    ensures
        j <= p_items(s, j, depth, acc)->Ok_0.1 < s.len(),
    decreases depth + 1, 0int, s.len() - j,
{
    if s[j] != ']' {
        law_value_ends_after_start(s, j, depth);
        let (v, k) = p_value(s, j, depth)->Ok_0;
        lemma_next_entry_bounds(s, k);
        lemma_items_end_at_bracket(s, next_entry(s, k), depth, acc.push(v));
    }
}

} // verus!
