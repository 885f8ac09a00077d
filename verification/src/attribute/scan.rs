//! How the tokenizer's scan behaves on texts that are put together from
//! parts. Serializing puts names, values and commas together; these lemmas
//! say what the tokenizer finds in the result.

use vstd::prelude::*;
use crate::attribute::tag::{join_pairs, pair_text};
use crate::attribute::tokenizer::{
    collapse, ends_quoted, is_name, is_name_char, is_value, lemma_index_of_name_is,
    lemma_unquoted_index_bounds, spec_pair, spec_pairs, spec_tokenize, unique_names,
    unquoted_index, upsert, RawModel,
};
use crate::error::TokenizeError;

verus! {

/// Whether `s`, from `from` on, holds neither a double quote nor `c`.
pub open spec fn is_plain(s: Seq<char>, c: char, from: int) -> bool {
    forall|i: int| from <= i < s.len() ==> #[trigger] s[i] != '"' && s[i] != c
}

/// A scan that starts inside the second part of a text goes as it does on
/// that part alone.
pub proof fn lemma_scan_second(a: Seq<char>, b: Seq<char>, c: char, k: int, quoted: bool)
    requires
        0 <= k <= b.len(),
    ensures
        unquoted_index(a + b, c, a.len() + k, quoted) == a.len() + unquoted_index(b, c, k, quoted),
        ends_quoted(a + b, a.len() + k, quoted) == ends_quoted(b, k, quoted),
    decreases b.len() - k,
{
    if k < b.len() {
        assert((a + b)[a.len() + k] == b[k]);
        lemma_scan_second(a, b, c, k + 1, quoted != (b[k] == '"'));
    }
}

/// A scan over a text of two parts: it stops in the first part where it would
/// stop in that part alone, and else goes on in the second part, in the state
/// in which the first part ends.
pub proof fn lemma_scan_append(a: Seq<char>, b: Seq<char>, c: char, from: int, quoted: bool)
    requires
        0 <= from <= a.len(),
    ensures
        unquoted_index(a + b, c, from, quoted) == (if unquoted_index(a, c, from, quoted) < a.len() {
            unquoted_index(a, c, from, quoted)
        } else {
            a.len() + unquoted_index(b, c, 0, ends_quoted(a, from, quoted))
        }),
        ends_quoted(a + b, from, quoted) == ends_quoted(b, 0, ends_quoted(a, from, quoted)),
    decreases a.len() - from,
{
    if from < a.len() {
        assert((a + b)[from] == a[from]);
        if !(!quoted && a[from] == c) {
            lemma_scan_append(a, b, c, from + 1, quoted != (a[from] == '"'));
        }
        lemma_scan_rest(a, b, from, quoted);
    } else {
        lemma_scan_second(a, b, c, 0, quoted);
    }
}

/// The state in which a text of two parts ends.
pub proof fn lemma_scan_rest(a: Seq<char>, b: Seq<char>, from: int, quoted: bool)
    requires
        0 <= from <= a.len(),
    ensures
        ends_quoted(a + b, from, quoted) == ends_quoted(b, 0, ends_quoted(a, from, quoted)),
    decreases a.len() - from,
{
    if from < a.len() {
        assert((a + b)[from] == a[from]);
        lemma_scan_rest(a, b, from + 1, quoted != (a[from] == '"'));
    } else {
        lemma_scan_second(a, b, ',', 0, quoted);
    }
}

/// A scan passes over a text without quotes and without the character it
/// looks for, and leaves it in the state in which it came.
pub proof fn lemma_scan_plain(s: Seq<char>, c: char, from: int, quoted: bool)
    requires
        0 <= from <= s.len(),
        is_plain(s, c, from),
    ensures
        unquoted_index(s, c, from, quoted) == s.len(),
        ends_quoted(s, from, quoted) == quoted,
    decreases s.len() - from,
{
    if from < s.len() {
        assert(s[from] != '"' && s[from] != c);
        lemma_scan_plain(s, c, from + 1, quoted);
    }
}

/// A text without quotes and commas is a value.
pub proof fn lemma_plain_is_value(s: Seq<char>)
    requires
        is_plain(s, ',', 0),
    ensures
        is_value(s),
{
    lemma_scan_plain(s, ',', 0, false);
}

/// A name holds no quote, no comma and no `=`.
pub proof fn lemma_name_is_plain(name: Seq<char>)
    requires
        is_name(name),
    ensures
        is_plain(name, ',', 0),
        is_plain(name, '=', 0),
{
    assert forall|i: int| 0 <= i < name.len() implies #[trigger] name[i] != '"' && name[i] != ','
        && name[i] != '=' by {
        assert(is_name_char(name[i]));
    }
}

/// Text between quotes, itself without quotes, is a value, commas and all.
pub proof fn lemma_quoted_is_value(inner: Seq<char>)
    requires
        !inner.contains('"'),
    ensures
        is_value(seq!['"'] + inner + seq!['"']),
{
    let v = seq!['"'] + inner + seq!['"'];
    assert forall|i: int| 1 <= i <= inner.len() implies #[trigger] v[i] != '"' by {
        assert(v[i] == inner[i - 1]);
    }
    lemma_inside_quotes(v, inner.len() as int, 1);
    assert(unquoted_index(v, ',', 0, false) == unquoted_index(v, ',', 1, true));
    assert(ends_quoted(v, 0, false) == ends_quoted(v, 1, true));
}

/// Inside quotes a scan for commas goes on to the closing quote.
proof fn lemma_inside_quotes(v: Seq<char>, n: int, from: int)
    requires
        v.len() == n + 2,
        1 <= from <= n + 1,
        v[0] == '"',
        v[n + 1] == '"',
        forall|i: int| 1 <= i <= n ==> #[trigger] v[i] != '"',
    ensures
        unquoted_index(v, ',', from, true) == v.len(),
        !ends_quoted(v, from, true),
    decreases n + 1 - from,
{
    if from <= n {
        assert(v[from] != '"');
        lemma_inside_quotes(v, n, from + 1);
    } else {
        assert(unquoted_index(v, ',', n + 2, false) == v.len());
        assert(!ends_quoted(v, n + 2, false));
    }
}

/// Whether every pair of `pairs` has an attribute name for its name and a
/// value for its value.
pub open spec fn all_pairs_clean(pairs: RawModel) -> bool {
    forall|i: int| 0 <= i < pairs.len() ==> is_name((#[trigger] pairs[i]).0) && is_value(pairs[i].1)
}

/// The text of a clean pair is read as that pair, and no comma outside
/// quotes nor an open quote is in it.
pub proof fn lemma_pair_text(pair: (Seq<char>, Seq<char>))
    requires
        is_name(pair.0),
        is_value(pair.1),
    ensures
        spec_pair(pair_text(pair)) == Ok::<(Seq<char>, Seq<char>), TokenizeError>(pair),
        is_value(pair_text(pair)),
        pair_text(pair).len() > 0,
{
    let name = pair.0;
    let value = pair.1;
    let text = pair_text(pair);
    let tail = seq!['='] + value;
    let head = name + seq!['='];
    lemma_name_is_plain(name);
    lemma_unquoted_index_bounds(value, ',', 0, false);
    assert(text =~= name + tail);
    assert(text =~= head + value);
    lemma_scan_plain(name, '=', 0, false);
    lemma_scan_append(name, tail, '=', 0, false);
    assert(unquoted_index(tail, '=', 0, false) == 0);
    assert(unquoted_index(text, '=', 0, false) == name.len());
    assert(text.take(name.len() as int) =~= name);
    assert(text.skip(name.len() as int + 1) =~= value);
    assert forall|i: int| 0 <= i < head.len() implies #[trigger] head[i] != '"' && head[i]
        != ',' by {
        if i < name.len() {
            assert(head[i] == name[i]);
        }
    }
    lemma_scan_plain(head, ',', 0, false);
    lemma_scan_append(head, value, ',', 0, false);
}

/// The text of two or more pairs is the text of the first, a comma, and the
/// text of the others.
pub proof fn lemma_join_front(pairs: RawModel)
    requires
        pairs.len() >= 2,
    ensures
        join_pairs(pairs) == pair_text(pairs[0]) + seq![','] + join_pairs(pairs.skip(1)),
    decreases pairs.len(),
{
    let init = pairs.drop_last();
    let rest = pairs.skip(1);
    if pairs.len() == 2 {
        assert(join_pairs(init) == pair_text(pairs[0]));
        assert(join_pairs(rest) == pair_text(pairs[1]));
    } else {
        lemma_join_front(init);
        assert(init.skip(1) =~= rest.drop_last());
        assert(join_pairs(rest) == join_pairs(rest.drop_last()) + seq![','] + pair_text(
            rest.last(),
        ));
        assert(join_pairs(pairs) =~= pair_text(pairs[0]) + seq![','] + join_pairs(rest));
    }
}

/// The text of clean pairs is split into those pairs.
pub proof fn lemma_pairs_of_joined(pairs: RawModel)
    requires
        pairs.len() > 0,
        all_pairs_clean(pairs),
    ensures
        spec_pairs(join_pairs(pairs)) == Ok::<RawModel, TokenizeError>(pairs),
        join_pairs(pairs).len() > 0,
    decreases pairs.len(),
{
    let text = join_pairs(pairs);
    let first = pair_text(pairs[0]);
    lemma_pair_text(pairs[0]);
    lemma_unquoted_index_bounds(first, ',', 0, false);
    if pairs.len() == 1 {
        assert(text == first);
        assert(text.take(text.len() as int) =~= text);
        assert(seq![pairs[0]] =~= pairs);
    } else {
        let others = pairs.skip(1);
        let rest = join_pairs(others);
        let tail = seq![','] + rest;
        lemma_join_front(pairs);
        assert(text =~= first + tail);
        lemma_scan_append(first, tail, ',', 0, false);
        assert(unquoted_index(tail, ',', 0, false) == 0);
        assert(unquoted_index(text, ',', 0, false) == first.len());
        assert(text.take(first.len() as int) =~= first);
        assert(text.skip(first.len() as int + 1) =~= rest);
        assert forall|i: int| 0 <= i < others.len() implies is_name((#[trigger] others[i]).0)
            && is_value(others[i].1) by {
            assert(others[i] == pairs[i + 1]);
        }
        lemma_pairs_of_joined(others);
        assert(seq![pairs[0]] + others =~= pairs);
    }
}

/// Pairs with each name once are left as they are.
pub proof fn lemma_collapse_of_unique(pairs: RawModel)
    requires
        unique_names(pairs),
    ensures
        collapse(pairs) == pairs,
    decreases pairs.len(),
{
    if pairs.len() > 0 {
        let init = pairs.drop_last();
        assert forall|i: int, j: int| 0 <= i < j < init.len() implies (#[trigger] init[i]).0 != (
        #[trigger] init[j]).0 by {
            assert(init[i] == pairs[i] && init[j] == pairs[j]);
        }
        lemma_collapse_of_unique(init);
        assert forall|j: int| 0 <= j < init.len() implies (#[trigger] init[j]).0
            != pairs.last().0 by {
            assert(init[j] == pairs[j]);
            assert(pairs.last() == pairs[pairs.len() - 1]);
        }
        lemma_index_of_name_is(init, pairs.last().0, 0, init.len() as int);
        assert(upsert(init, pairs.last().0, pairs.last().1) =~= pairs);
    } else {
        assert(collapse(pairs) =~= pairs);
    }
}

/// The text of clean pairs with each name once is tokenized into those
/// pairs.
pub proof fn lemma_tokenize_joined(pairs: RawModel)
    requires
        all_pairs_clean(pairs),
        unique_names(pairs),
    ensures
        spec_tokenize(join_pairs(pairs)) == Ok::<RawModel, TokenizeError>(pairs),
{
    lemma_collapse_of_unique(pairs);
    if pairs.len() > 0 {
        lemma_pairs_of_joined(pairs);
    } else {
        assert(pairs =~= Seq::empty());
    }
}

} // verus!
