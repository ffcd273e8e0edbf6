//! Placeholders in configured texts: each occurrence of a pattern gives way to
//! a value, in one pass from left to right. What was put in is not read again.

use vstd::prelude::*;
use crate::text::{decimal, format_u64, from_chars, has_prefix, to_chars};
use crate::types::NodeId;

verus! {

/// The position in the table of the first pattern that stands at the front
/// of the text, or the length of the table where none does. An empty pattern
/// stands nowhere.
pub open spec fn first_match(text: Seq<char>, table: Seq<(Seq<char>, Seq<char>)>) -> nat
    decreases table.len(),
{
    if table.len() == 0 || (table[0].0.len() > 0 && has_prefix(text, table[0].0)) {
        0
    } else {
        1 + first_match(text, table.drop_first())
    }
}

/// The text with every pattern of the table replaced by its value.
pub open spec fn expanded(text: Seq<char>, table: Seq<(Seq<char>, Seq<char>)>) -> Seq<char>
    decreases text.len(),
{
    if text.len() == 0 {
        text
    } else if first_match(text, table) < table.len() && table[first_match(text, table) as int].0.len()
        > 0 && table[first_match(text, table) as int].0.len() <= text.len() {
        table[first_match(text, table) as int].1 + expanded(
            text.skip(table[first_match(text, table) as int].0.len() as int),
            table,
        )
    } else {
        seq![text[0]] + expanded(text.skip(1), table)
    }
}

/// Whether the pattern occurs in the text.
pub open spec fn mentions(text: Seq<char>, pattern: Seq<char>) -> bool {
    exists|i: int| 0 <= i <= text.len() && has_prefix(#[trigger] text.skip(i), pattern)
}

proof fn lemma_first_match(text: Seq<char>, table: Seq<(Seq<char>, Seq<char>)>)
    ensures
        first_match(text, table) <= table.len(),
        first_match(text, table) < table.len() ==> table[first_match(text, table) as int].0.len() > 0
            && has_prefix(text, table[first_match(text, table) as int].0),
    decreases table.len(),
{
    if !(table.len() == 0 || (table[0].0.len() > 0 && has_prefix(text, table[0].0))) {
        lemma_first_match(text, table.drop_first());
    }
}

/// Whether `pattern` stands in `text` at the position `at`.
fn stands_at(text: &Vec<char>, at: usize, pattern: &Vec<char>) -> (r: bool)
    requires
        at <= text.len(),
    ensures
        r == has_prefix(text@.skip(at as int), pattern@),
{
    if pattern.len() > text.len() - at {
        return false;
    }
    let mut i: usize = 0;
    while i < pattern.len()
        invariant
            i <= pattern.len(),
            at + pattern.len() <= text.len(),
            text@.skip(at as int).take(i as int) == pattern@.take(i as int),
        decreases pattern.len() - i,
    {
        if text[at + i] != pattern[i] {
            assert(text@.skip(at as int).subrange(0, pattern.len() as int)[i as int]
                != pattern@[i as int]);
            return false;
        }
        assert(text@.skip(at as int).take(i + 1) =~= text@.skip(at as int).take(i as int).push(
            text@[at + i],
        ));
        assert(pattern@.take(i + 1) =~= pattern@.take(i as int).push(pattern@[i as int]));
        i = i + 1;
    }
    assert(pattern@.take(pattern.len() as int) =~= pattern@);
    assert(text@.skip(at as int).take(pattern.len() as int) =~= text@.skip(at as int).subrange(
        0,
        pattern.len() as int,
    ));
    true
}

/// Whether the pattern occurs in the text.
pub fn contains(text: &str, pattern: &str) -> (r: bool)
    ensures
        r == mentions(text@, pattern@),
{
    let chars = to_chars(text);
    let wanted = to_chars(pattern);
    let mut i: usize = 0;
    loop
        invariant
            i <= chars.len(),
            chars@ == text@,
            wanted@ == pattern@,
            forall|k: int| 0 <= k < i ==> !has_prefix(#[trigger] text@.skip(k), pattern@),
        decreases chars.len() - i,
    {
        if stands_at(&chars, i, &wanted) {
            return true;
        }
        if i == chars.len() {
            return false;
        }
        i = i + 1;
    }
}

/// The patterns and values of a table, as texts.
pub open spec fn table_view(table: Seq<(Vec<char>, Vec<char>)>) -> Seq<(Seq<char>, Seq<char>)> {
    Seq::new(table.len(), |i: int| (table[i].0@, table[i].1@))
}

/// Replaces every pattern of the table by its value.
pub fn expand(text: &str, table: &Vec<(Vec<char>, Vec<char>)>) -> (r: String)
    ensures
        r@ == expanded(text@, table_view(table@)),
{
    let ghost spec_table = table_view(table@);
    let chars = to_chars(text);
    let mut out: Vec<char> = Vec::new();
    let mut i: usize = 0;
    assert(chars@.skip(0) =~= chars@);
    while i < chars.len()
        invariant
            i <= chars.len(),
            chars@ == text@,
            spec_table == table_view(table@),
            expanded(text@, spec_table) == out@ + expanded(chars@.skip(i as int), spec_table),
        decreases chars.len() - i,
    {
        let ghost rest = chars@.skip(i as int);
        let mut found: Option<usize> = None;
        let mut k: usize = 0;
        assert(spec_table.skip(0) =~= spec_table);
        while k < table.len() && found.is_none()
            invariant
                k <= table.len(),
                i < chars.len(),
                rest == chars@.skip(i as int),
                spec_table == table_view(table@),
                match found {
                    Some(j) => j < table.len() && first_match(rest, spec_table) == j,
                    None => first_match(rest, spec_table) == k + first_match(
                        rest,
                        spec_table.skip(k as int),
                    ),
                },
            decreases table.len() - k + (if found.is_none() { 1nat } else { 0nat }),
        {
            assert(spec_table.skip(k as int)[0] == spec_table[k as int]);
            assert(spec_table.skip(k as int).drop_first() =~= spec_table.skip(k + 1));
            if table[k].0.len() > 0 && stands_at(&chars, i, &table[k].0) {
                found = Some(k);
            } else {
                k = k + 1;
            }
        }
        proof {
            lemma_first_match(rest, spec_table);
        }
        match found {
            Some(j) => {
                let value = &table[j].1;
                let ghost before = out@;
                let mut n: usize = 0;
                while n < value.len()
                    invariant
                        n <= value.len(),
                        out@ == before + value@.take(n as int),
                    decreases value.len() - n,
                {
                    out.push(value[n]);
                    assert(value@.take(n + 1) =~= value@.take(n as int).push(value@[n as int]));
                    n = n + 1;
                }
                assert(value@.take(value.len() as int) =~= value@);
                let width = table[j].0.len();
                assert(rest.skip(width as int) =~= chars@.skip(i + width));
                assert(before + (value@ + expanded(rest.skip(width as int), spec_table)) =~= (before
                    + value@) + expanded(rest.skip(width as int), spec_table));
                i = i + width;
            },
            None => {
                let ghost before = out@;
                out.push(chars[i]);
                assert(rest[0] == chars@[i as int]);
                assert(rest.skip(1) =~= chars@.skip(i + 1));
                assert(before + (seq![rest[0]] + expanded(rest.skip(1), spec_table)) =~= before.push(
                    rest[0],
                ) + expanded(rest.skip(1), spec_table));
                i = i + 1;
            },
        }
    }
    assert(out@ + Seq::<char>::empty() =~= out@);
    from_chars(&out)
}

/// A configured path or prefix for a node: every `{node}` in it gives way to
/// the identifier of the node.
pub open spec fn for_node(template: Seq<char>, node_id: NodeId) -> Seq<char> {
    expanded(template, seq![("{node}"@, decimal(node_id as nat))])
}

/// Makes a configured path or prefix out for a node.
pub fn node_path(template: &str, node_id: NodeId) -> (r: String)
    ensures
        r@ == for_node(template@, node_id),
{
    let id = format_u64(node_id);
    let mut table: Vec<(Vec<char>, Vec<char>)> = Vec::new();
    table.push((to_chars("{node}"), to_chars(id.as_str())));
    assert(table_view(table@) =~= seq![("{node}"@, decimal(node_id as nat))]);
    expand(template, &table)
}

} // verus!
