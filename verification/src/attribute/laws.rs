//! What holds of the codec as a whole.

use vstd::prelude::*;
use crate::attribute::scan::{
    all_pairs_clean, lemma_name_is_plain, lemma_plain_is_value, lemma_quoted_is_value,
    lemma_scan_append, lemma_scan_plain, lemma_tokenize_joined,
};
use crate::attribute::schema::{FieldSchemaModel, FieldSpecModel};
use crate::attribute::tag::{
    field_result, first_failure, join_pairs, pair_text, present_pairs, slot_fits, spec_parse_tag,
    spec_project, TagModel,
};
use crate::attribute::tokenizer::{
    collapse, index_of_name, is_name, is_value, lemma_collapse_unique, lemma_index_of_name,
    lemma_index_of_name_is, lemma_unquoted_index_bounds, lemma_unquoted_index_hit, lookup,
    spec_pair, spec_pairs, spec_tokenize, unique_names, unquoted_index, RawModel,
};
use crate::attribute::value::{
    lemma_decode_encode, lemma_decoded_is_of_kind, quoted_text, spec_decode, spec_encode,
    AttributeValueModel, ValueKindModel,
};
use crate::error::{ErrorModel, ProjectionErrorModel, TokenizeError};
use crate::types::protocol_version::ProtocolVersion;
use crate::hex::{hex_digits, lemma_hex_digits};
use crate::number::{is_digit, lemma_nat_digits_are_digits, nat_digits};
use crate::types::decimal::DecimalModel;

verus! {

/// The text of a value as it stands in a pair, or nothing for no value.
pub open spec fn slot_text(slot: Option<AttributeValueModel>) -> Option<Seq<char>> {
    match slot {
        Some(v) => Some(spec_encode(v)),
        None => None,
    }
}

/// Looking a name up in a list with one more entry at its end.
pub proof fn lemma_lookup_push(list: RawModel, entry: (Seq<char>, Seq<char>), name: Seq<char>)
    ensures
        lookup(list.push(entry), name) == (if lookup(list, name) is Some {
            lookup(list, name)
        } else if entry.0 == name {
            Some(entry.1)
        } else {
            None
        }),
{
    let longer = list.push(entry);
    lemma_index_of_name(list, name, 0);
    let at = index_of_name(list, name, 0);
    assert forall|j: int| 0 <= j < at implies (#[trigger] longer[j]).0 != name by {
        assert(longer[j] == list[j]);
    }
    if at < list.len() {
        assert(longer[at] == list[at]);
        lemma_index_of_name_is(longer, name, 0, at);
    } else if entry.0 == name {
        assert(longer[at] == entry);
        lemma_index_of_name_is(longer, name, 0, at);
    } else {
        assert(longer[at] == entry);
        assert forall|j: int| 0 <= j < longer.len() implies (#[trigger] longer[j]).0 != name by {
            if j < at {
                assert(longer[j] == list[j]);
            }
        }
        lemma_index_of_name_is(longer, name, 0, longer.len() as int);
    }
}

/// The pairs of a tag: each comes from a field with a value, each such field
/// is found under its name with the text of its value, and a field without
/// value is not found.
pub proof fn lemma_present_pairs(
    fields: Seq<FieldSpecModel>,
    values: Seq<Option<AttributeValueModel>>,
    n: int,
)
    requires
        0 <= n <= fields.len(),
        fields.len() == values.len(),
        forall|i: int, j: int|
            0 <= i < j < fields.len() ==> (#[trigger] fields[i]).name != (#[trigger] fields[j]).name,
    ensures
        forall|k: int|
            0 <= k < present_pairs(fields, values, n).len() ==> exists|i: int|
                0 <= i < n && values[i] is Some && #[trigger] present_pairs(fields, values, n)[k] == (
                    (#[trigger] fields[i]).name,
                    spec_encode(values[i]->0),
                ),
        forall|i: int|
            0 <= i < n ==> lookup(present_pairs(fields, values, n), (#[trigger] fields[i]).name)
                == slot_text(values[i]),
        unique_names(present_pairs(fields, values, n)),
    decreases n,
{
    let pairs = present_pairs(fields, values, n);
    if n > 0 {
        let before = present_pairs(fields, values, n - 1);
        lemma_present_pairs(fields, values, n - 1);
        let name = fields[n - 1].name;
        assert forall|j: int| 0 <= j < before.len() implies (#[trigger] before[j]).0 != name by {
            let i = choose|i: int|
                0 <= i < n - 1 && values[i] is Some && before[j] == (
                    (#[trigger] fields[i]).name,
                    spec_encode(values[i]->0),
                );
            assert(fields[i].name != fields[n - 1].name);
        }
        lemma_index_of_name_is(before, name, 0, before.len() as int);
        match values[n - 1] {
            Some(v) => {
                let entry = (name, spec_encode(v));
                assert forall|k: int| 0 <= k < pairs.len() implies exists|i: int|
                    0 <= i < n && values[i] is Some && #[trigger] pairs[k] == (
                        (#[trigger] fields[i]).name,
                        spec_encode(values[i]->0),
                    ) by {
                    if k < before.len() {
                        assert(pairs[k] == before[k]);
                        let i = choose|i: int|
                            0 <= i < n - 1 && values[i] is Some && before[k] == (
                                (#[trigger] fields[i]).name,
                                spec_encode(values[i]->0),
                            );
                        assert(0 <= i < n && values[i] is Some && pairs[k] == (
                            fields[i].name,
                            spec_encode(values[i]->0),
                        ));
                    } else {
                        assert(pairs[k] == (fields[n - 1].name, spec_encode(values[n - 1]->0)));
                    }
                }
                assert forall|i: int| 0 <= i < n implies lookup(pairs, (#[trigger] fields[i]).name)
                    == slot_text(values[i]) by {
                    lemma_lookup_push(before, entry, fields[i].name);
                    if i < n - 1 {
                        assert(fields[i].name != fields[n - 1].name);
                    }
                }
                assert forall|i: int, j: int| 0 <= i < j < pairs.len() implies (#[trigger] pairs[i]).0
                    != (#[trigger] pairs[j]).0 by {
                    assert(pairs[i] == before[i]);
                    if j < before.len() {
                        assert(pairs[j] == before[j]);
                    }
                }
            },
            None => {
                assert forall|i: int| 0 <= i < n implies lookup(pairs, (#[trigger] fields[i]).name)
                    == slot_text(values[i]) by {
                    if i == n - 1 {
                    }
                }
            },
        }
    }
}

/// Where no field fails, none is the first to fail.
pub proof fn lemma_no_failure(fields: Seq<FieldSpecModel>, raw: RawModel, from: int)
    requires
        0 <= from <= fields.len(),
        forall|i: int| from <= i < fields.len() ==> field_result(#[trigger] fields[i], raw) is Ok,
    ensures
        first_failure(fields, raw, from) == fields.len(),
    decreases fields.len() - from,
{
    if from < fields.len() {
        lemma_no_failure(fields, raw, from + 1);
    }
}

/// Whether the text of every value of the tag can stand in an attribute list.
pub open spec fn values_are_clean(tag: TagModel) -> bool {
    forall|i: int|
        0 <= i < tag.values.len() ==> ((#[trigger] tag.values[i]) matches Some(v) ==> is_value(
            spec_encode(v),
        ))
}

/// A tag is read back from its own attribute list: the list is tokenized
/// into the pairs of the tag, and these project onto the tag.
pub proof fn lemma_project_own_text(tag: TagModel)
    requires
        tag.satisfies_schema(),
        tag.reads_back(),
        values_are_clean(tag),
    ensures
        spec_tokenize(tag.attribute_text()) == Ok::<RawModel, TokenizeError>(
            present_pairs(tag.schema.fields, tag.values, tag.values.len() as int),
        ),
        spec_project(
            tag.schema,
            present_pairs(tag.schema.fields, tag.values, tag.values.len() as int),
        ) == Ok::<TagModel, ProjectionErrorModel>(tag),
{
    let fields = tag.schema.fields;
    let values = tag.values;
    let n = values.len() as int;
    let pairs = present_pairs(fields, values, n);
    lemma_present_pairs(fields, values, n);
    assert forall|k: int| 0 <= k < pairs.len() implies is_name((#[trigger] pairs[k]).0) && is_value(
        pairs[k].1,
    ) by {
        let i = choose|i: int|
            0 <= i < n && values[i] is Some && pairs[k] == (
                (#[trigger] fields[i]).name,
                spec_encode(values[i]->0),
            );
        assert(is_name(fields[i].name));
        assert(values[i] matches Some(v) ==> is_value(spec_encode(v)));
    }
    lemma_tokenize_joined(pairs);
    assert forall|i: int| 0 <= i < fields.len() implies field_result(#[trigger] fields[i], pairs)
        == Ok::<Option<AttributeValueModel>, ProjectionErrorModel>(values[i]) by {
        assert(lookup(pairs, fields[i].name) == slot_text(values[i]));
        assert(slot_fits(fields[i], values[i]));
        match values[i] {
            Some(v) => {
                lemma_decode_encode(fields[i].kind, v);
            },
            None => {},
        }
    }
    lemma_no_failure(fields, pairs, 0);
    assert(Seq::new(fields.len(), |i: int| field_result(fields[i], pairs)->Ok_0) =~= values);
}

/// The name of a pair is an attribute name and its value is a value, where
/// the pair was cut from a segment without comma outside quotes.
pub proof fn lemma_segment_is_clean(segment: Seq<char>)
    requires
        unquoted_index(segment, ',', 0, false) >= segment.len(),
        spec_pair(segment) is Ok,
    ensures
        is_name(spec_pair(segment)->Ok_0.0),
        is_value(spec_pair(segment)->Ok_0.1),
{
    let e = unquoted_index(segment, '=', 0, false);
    lemma_unquoted_index_bounds(segment, '=', 0, false);
    lemma_unquoted_index_hit(segment, '=', 0, false);
    let name = segment.take(e);
    let value = segment.skip(e + 1);
    let head = segment.take(e + 1);
    assert(segment =~= head + value);
    lemma_name_is_plain(name);
    assert forall|i: int| 0 <= i < head.len() implies #[trigger] head[i] != '"' && head[i]
        != ',' by {
        if i < e {
            assert(head[i] == name[i]);
        }
    }
    lemma_scan_plain(head, ',', 0, false);
    lemma_scan_append(head, value, ',', 0, false);
    lemma_unquoted_index_bounds(segment, ',', 0, false);
    lemma_unquoted_index_bounds(value, ',', 0, false);
}

/// What an attribute list is split into are clean pairs.
pub proof fn lemma_pairs_are_clean(s: Seq<char>)
    ensures
        spec_pairs(s) matches Ok(pairs) ==> all_pairs_clean(pairs),
    decreases s.len(),
{
    if let Ok(pairs) = spec_pairs(s) {
        let k = unquoted_index(s, ',', 0, false);
        lemma_unquoted_index_bounds(s, ',', 0, false);
        let segment = s.take(k);
        let after = s.skip(k);
        assert(s =~= segment + after);
        lemma_scan_append(segment, after, ',', 0, false);
        lemma_unquoted_index_bounds(segment, ',', 0, false);
        lemma_segment_is_clean(segment);
        let p = spec_pair(segment)->Ok_0;
        if k < s.len() {
            lemma_pairs_are_clean(s.skip(k + 1));
            let rest = spec_pairs(s.skip(k + 1))->Ok_0;
            assert forall|i: int| 0 <= i < pairs.len() implies is_name((#[trigger] pairs[i]).0)
                && is_value(pairs[i].1) by {
                if i > 0 {
                    assert(pairs[i] == rest[i - 1]);
                }
            }
        }
    }
}

/// Keeping each name once keeps the pairs clean.
pub proof fn lemma_collapse_is_clean(pairs: RawModel)
    requires
        all_pairs_clean(pairs),
    ensures
        all_pairs_clean(collapse(pairs)),
    decreases pairs.len(),
{
    if pairs.len() > 0 {
        let init = pairs.drop_last();
        assert forall|i: int| 0 <= i < init.len() implies is_name((#[trigger] init[i]).0)
            && is_value(init[i].1) by {
            assert(init[i] == pairs[i]);
        }
        lemma_collapse_is_clean(init);
        let before = collapse(init);
        let after = collapse(pairs);
        let last = pairs[pairs.len() - 1];
        lemma_index_of_name(before, last.0, 0);
        let at = index_of_name(before, last.0, 0);
        assert forall|i: int| 0 <= i < after.len() implies is_name((#[trigger] after[i]).0)
            && is_value(after[i].1) by {
            if i == at {
                assert(after[i] == last);
            } else {
                assert(after[i] == before[i]);
            }
        }
    }
}

/// What the tokenizer gives: each name once, each name an attribute name,
/// each value without comma outside quotes and without open quote.
pub proof fn lemma_tokenized_is_clean(s: Seq<char>)
    ensures
        spec_tokenize(s) matches Ok(raw) ==> all_pairs_clean(raw) && unique_names(raw),
{
    if s.len() > 0 {
        if let Ok(pairs) = spec_pairs(s) {
            lemma_pairs_are_clean(s);
            lemma_collapse_is_clean(pairs);
            lemma_collapse_unique(pairs);
        }
    }
}

/// A text of digits, letters, `-` and `.` is a value.
pub proof fn lemma_word_is_value(s: Seq<char>)
    requires
        forall|i: int|
            0 <= i < s.len() ==> is_digit(#[trigger] s[i]) || ('A' <= s[i] <= 'Z') || ('a' <= s[i]
                <= 'z') || s[i] == '-' || s[i] == '.',
    ensures
        is_value(s),
{
    assert forall|i: int| 0 <= i < s.len() implies #[trigger] s[i] != '"' && s[i] != ',' by {
        assert(is_digit(s[i]) || ('A' <= s[i] <= 'Z') || ('a' <= s[i] <= 'z') || s[i] == '-'
            || s[i] == '.');
    }
    lemma_plain_is_value(s);
}

/// What was decoded from a value is valid, and its own text is a value
/// again.
pub proof fn lemma_decoded_text_is_value(kind: ValueKindModel, text: Seq<char>)
    requires
        is_value(text),
        spec_decode(kind, text) is Ok,
        spec_decode(kind, text)->Ok_0.reads_back(),
    ensures
        spec_decode(kind, text)->Ok_0.valid(),
        is_value(spec_encode(spec_decode(kind, text)->Ok_0)),
{
    let v = spec_decode(kind, text)->Ok_0;
    let t = spec_encode(v);
    match v {
        AttributeValueModel::UnsignedInteger(n) => {
            lemma_nat_digits_are_digits(n as nat);
            lemma_word_is_value(t);
        },
        AttributeValueModel::Decimal(d) => {
            DecimalModel::lemma_parse_canonical(text);
            d.lemma_text_chars();
            lemma_word_is_value(t);
        },
        AttributeValueModel::QuotedString(inner) => {
            assert(t =~= text);
        },
        AttributeValueModel::EnumeratedToken(w) => {},
        AttributeValueModel::HexSequence(b) => {
            lemma_hex_digits(b);
            assert forall|i: int| 0 <= i < t.len() implies is_digit(#[trigger] t[i]) || ('A' <= t[i]
                <= 'Z') || ('a' <= t[i] <= 'z') || t[i] == '-' || t[i] == '.' by {
                if i >= 2 {
                    assert(t[i] == hex_digits(b)[i - 2]);
                }
            }
            lemma_word_is_value(t);
        },
        AttributeValueModel::Resolution(r) => {
            let w = nat_digits(r.width as nat);
            let h = nat_digits(r.height as nat);
            lemma_nat_digits_are_digits(r.width as nat);
            lemma_nat_digits_are_digits(r.height as nat);
            assert forall|i: int| 0 <= i < t.len() implies is_digit(#[trigger] t[i]) || ('A' <= t[i]
                <= 'Z') || ('a' <= t[i] <= 'z') || t[i] == '-' || t[i] == '.' by {
                if i < w.len() {
                    assert(t[i] == w[i]);
                } else if i > w.len() {
                    assert(t[i] == h[i - w.len() - 1]);
                }
            }
            lemma_word_is_value(t);
        },
        AttributeValueModel::Timestamp(ts) => {},
    }
}

/// `first_failure` points at a field that fails, past every earlier field
/// that does not.
pub proof fn lemma_first_failure(fields: Seq<FieldSpecModel>, raw: RawModel, from: int)
    requires
        0 <= from <= fields.len(),
    ensures
        from <= first_failure(fields, raw, from) <= fields.len(),
        first_failure(fields, raw, from) < fields.len() ==> field_result(
            fields[first_failure(fields, raw, from)],
            raw,
        ) is Err,
        forall|j: int|
            from <= j < first_failure(fields, raw, from) ==> field_result(
                #[trigger] fields[j],
                raw,
            ) is Ok,
    decreases fields.len() - from,
{
    if from < fields.len() && field_result(fields[from], raw) is Ok {
        lemma_first_failure(fields, raw, from + 1);
    }
}

/// A field that fails after a run of fields that do not is the first to
/// fail.
pub proof fn lemma_first_failure_is(
    fields: Seq<FieldSpecModel>,
    raw: RawModel,
    from: int,
    at: int,
)
    requires
        0 <= from <= at <= fields.len(),
        forall|j: int| from <= j < at ==> field_result(#[trigger] fields[j], raw) is Ok,
        at < fields.len() ==> field_result(fields[at], raw) is Err,
    ensures
        first_failure(fields, raw, from) == at,
    decreases at - from,
{
    if from < at {
        lemma_first_failure_is(fields, raw, from + 1, at);
    }
}

/// A tag that was projected from clean pairs satisfies its schema, and the
/// texts of its values are values.
pub proof fn lemma_projected_tag(schema: FieldSchemaModel, raw: RawModel)
    requires
        schema.wf(),
        all_pairs_clean(raw),
        spec_project(schema, raw) is Ok,
        spec_project(schema, raw)->Ok_0.reads_back(),
    ensures
        spec_project(schema, raw)->Ok_0.satisfies_schema(),
        values_are_clean(spec_project(schema, raw)->Ok_0),
{
    let tag = spec_project(schema, raw)->Ok_0;
    let fields = schema.fields;
    lemma_first_failure(fields, raw, 0);
    assert forall|i: int| 0 <= i < tag.values.len() implies slot_fits(
        fields[i],
        #[trigger] tag.values[i],
    ) && (tag.values[i] matches Some(v) ==> is_value(spec_encode(v))) by {
        assert(field_result(fields[i], raw) is Ok);
        assert(tag.values[i] == field_result(fields[i], raw)->Ok_0);
        if let Some(v) = tag.values[i] {
            lemma_index_of_name(raw, fields[i].name, 0);
            let at = index_of_name(raw, fields[i].name, 0);
            let text = raw[at].1;
            assert(is_value(text));
            assert(v.reads_back());
            lemma_decoded_text_is_value(fields[i].kind, text);
            lemma_decoded_is_of_kind(fields[i].kind, text);
        }
    }
}

/// Round trip. Take any text that the tokenizer accepts and that projects
/// onto a tag of a well-formed schema. The attribute list of that tag is
/// accepted again, and projects onto the same tag.
///
/// The texts of timestamps are written by another crate, so this is stated
/// for the tags whose timestamps, if they have any, read back: see
/// [`TagModel::reads_back`].
pub proof fn lemma_round_trip(schema: FieldSchemaModel, s: Seq<char>)
    requires
        schema.wf(),
        spec_tokenize(s) is Ok,
        spec_project(schema, spec_tokenize(s)->Ok_0) is Ok,
        spec_project(schema, spec_tokenize(s)->Ok_0)->Ok_0.reads_back(),
    ensures
        ({
            let tag = spec_project(schema, spec_tokenize(s)->Ok_0)->Ok_0;
            &&& spec_tokenize(tag.attribute_text()) is Ok
            &&& spec_project(schema, spec_tokenize(tag.attribute_text())->Ok_0) == Ok::<
                TagModel,
                ProjectionErrorModel,
            >(tag)
            &&& spec_parse_tag(schema, tag.text()) == Ok::<TagModel, ErrorModel>(tag)
        }),
{
    let raw = spec_tokenize(s)->Ok_0;
    let tag = spec_project(schema, raw)->Ok_0;
    lemma_tokenized_is_clean(s);
    lemma_projected_tag(schema, raw);
    lemma_project_own_text(tag);
    lemma_parse_own_line(tag);
}

/// A tag is read back from its own line.
pub proof fn lemma_parse_own_line(tag: TagModel)
    requires
        tag.satisfies_schema(),
        tag.reads_back(),
        values_are_clean(tag),
    ensures
        spec_parse_tag(tag.schema, tag.text()) == Ok::<TagModel, ErrorModel>(tag),
{
    lemma_project_own_text(tag);
    let prefix = tag.schema.prefix;
    let line = tag.text();
    assert(line.take(prefix.len() as int) =~= prefix);
    assert(line.skip(prefix.len() as int) =~= tag.attribute_text());
}

/// Determinism, first half: projection reads a list only through the values
/// that it holds for the names of the schema. Two lists that agree on these
/// give the same tag or the same failure, whatever else they hold and in
/// whatever order. The text of a tag is a function of the tag alone, so the
/// two tags are written as the same line.
pub proof fn lemma_same_lookups_same_tag(schema: FieldSchemaModel, a: RawModel, b: RawModel)
    requires
        forall|i: int|
            0 <= i < schema.fields.len() ==> lookup(a, (#[trigger] schema.fields[i]).name)
                == lookup(b, schema.fields[i].name),
    ensures
        spec_project(schema, a) == spec_project(schema, b),
        spec_project(schema, a) is Ok ==> spec_project(schema, a)->Ok_0.text() == spec_project(
            schema,
            b,
        )->Ok_0.text(),
{
    let fields = schema.fields;
    assert forall|i: int| 0 <= i < fields.len() implies field_result(#[trigger] fields[i], a)
        == field_result(fields[i], b) by {
        assert(lookup(a, fields[i].name) == lookup(b, fields[i].name));
    }
    lemma_first_failure(fields, a, 0);
    let k = first_failure(fields, a, 0);
    assert forall|j: int| 0 <= j < k implies field_result(#[trigger] fields[j], b) is Ok by {
        assert(field_result(fields[j], a) is Ok);
    }
    lemma_first_failure_is(fields, b, 0, k);
    if k >= fields.len() {
        assert(Seq::new(fields.len(), |i: int| field_result(fields[i], a)->Ok_0) =~= Seq::new(
            fields.len(),
            |i: int| field_result(fields[i], b)->Ok_0,
        ));
    }
}

/// Whether every entry of `a` is an entry of `b`.
pub open spec fn entries_within(a: RawModel, b: RawModel) -> bool {
    forall|i: int| 0 <= i < a.len() ==> exists|j: int| 0 <= j < b.len() && #[trigger] b[j] == #[trigger] a[i]
}

/// Determinism, second half: two lists with the same entries, each name
/// once, in any two orders, hold the same value for every name.
pub proof fn lemma_reordered_same_lookups(a: RawModel, b: RawModel, name: Seq<char>)
    requires
        unique_names(a),
        unique_names(b),
        entries_within(a, b),
        entries_within(b, a),
    ensures
        lookup(a, name) == lookup(b, name),
{
    lemma_index_of_name(a, name, 0);
    lemma_index_of_name(b, name, 0);
    let i = index_of_name(a, name, 0);
    let j = index_of_name(b, name, 0);
    if i < a.len() {
        let k = choose|k: int| 0 <= k < b.len() && #[trigger] b[k] == a[i];
        assert(b[k].0 == name);
        if j < k {
            assert(b[j].0 == b[k].0);
        }
        assert(j == k);
    } else if j < b.len() {
        let k = choose|k: int| 0 <= k < a.len() && #[trigger] a[k] == b[j];
        assert(a[k].0 == name);
    }
}

/// Determinism, in the plainest form: the line of a tag depends on nothing but the
/// values of its fields. Two lists that project onto the same values under
/// one schema are written as the same line, whatever the order and the
/// writing of their attributes was.
pub proof fn lemma_line_depends_on_values_alone(schema: FieldSchemaModel, a: RawModel, b: RawModel)
    requires
        spec_project(schema, a) is Ok,
        spec_project(schema, b) is Ok,
        spec_project(schema, a)->Ok_0.values == spec_project(schema, b)->Ok_0.values,
    ensures
        spec_project(schema, a)->Ok_0.text() == spec_project(schema, b)->Ok_0.text(),
{
}

/// Determinism: two attribute lists with the same attributes in different
/// orders give the same tag, and so the same line.
pub proof fn lemma_order_does_not_matter(schema: FieldSchemaModel, a: RawModel, b: RawModel)
    requires
        unique_names(a),
        unique_names(b),
        entries_within(a, b),
        entries_within(b, a),
    ensures
        spec_project(schema, a) == spec_project(schema, b),
{
    assert forall|i: int| 0 <= i < schema.fields.len() implies lookup(
        a,
        (#[trigger] schema.fields[i]).name,
    ) == lookup(b, schema.fields[i].name) by {
        lemma_reordered_same_lookups(a, b, schema.fields[i].name);
    }
    lemma_same_lookups_same_tag(schema, a, b);
}

/// Required fields are enforced. Where a list lacks a required field, and
/// no field before it in the schema fails, projection fails with
/// `MissingRequiredField` and names exactly that field.
pub proof fn lemma_missing_required_field(schema: FieldSchemaModel, raw: RawModel, i: int)
    requires
        0 <= i < schema.fields.len(),
        schema.fields[i].required,
        lookup(raw, schema.fields[i].name) is None,
        forall|j: int| 0 <= j < i ==> field_result(#[trigger] schema.fields[j], raw) is Ok,
    ensures
        spec_project(schema, raw) == Err::<TagModel, ProjectionErrorModel>(
            ProjectionErrorModel::MissingRequiredField { name: schema.fields[i].name },
        ),
{
    lemma_first_failure_is(schema.fields, raw, 0, i);
}

/// Required fields are enforced, in terms of a list that is accepted: take
/// a required field out of it, and leave every other field of the schema as
/// it was. What is left fails with `MissingRequiredField`, and names exactly
/// the field that was taken out.
pub proof fn lemma_omitting_a_required_field(
    schema: FieldSchemaModel,
    raw: RawModel,
    without: RawModel,
    i: int,
)
    requires
        schema.wf(),
        spec_project(schema, raw) is Ok,
        0 <= i < schema.fields.len(),
        schema.fields[i].required,
        lookup(without, schema.fields[i].name) is None,
        forall|j: int|
            0 <= j < schema.fields.len() && j != i ==> lookup(
                without,
                (#[trigger] schema.fields[j]).name,
            ) == lookup(raw, schema.fields[j].name),
    ensures
        spec_project(schema, without) == Err::<TagModel, ProjectionErrorModel>(
            ProjectionErrorModel::MissingRequiredField { name: schema.fields[i].name },
        ),
{
    let fields = schema.fields;
    lemma_first_failure(fields, raw, 0);
    assert forall|j: int| 0 <= j < i implies field_result(#[trigger] fields[j], without) is Ok by {
        assert(field_result(fields[j], raw) is Ok);
        assert(lookup(without, fields[j].name) == lookup(raw, fields[j].name));
    }
    lemma_missing_required_field(schema, without, i);
}

/// Of two rows of versions, the second nowhere earlier than the first, the
/// latest of the second is not earlier than the latest of the first.
pub proof fn lemma_latest_is_monotone(a: Seq<ProtocolVersion>, b: Seq<ProtocolVersion>)
    requires
        a.len() == b.len(),
        forall|i: int| 0 <= i < a.len() ==> (#[trigger] a[i]).rank() <= (#[trigger] b[i]).rank(),
    ensures
        ProtocolVersion::spec_latest(a).rank() <= ProtocolVersion::spec_latest(b).rank(),
    decreases a.len(),
{
    if a.len() > 0 {
        assert forall|i: int| 0 <= i < a.drop_last().len() implies (#[trigger] a.drop_last()[i]).rank()
            <= (#[trigger] b.drop_last()[i]).rank() by {
            assert(a.drop_last()[i] == a[i] && b.drop_last()[i] == b[i]);
        }
        lemma_latest_is_monotone(a.drop_last(), b.drop_last());
        assert(a.last() == a[a.len() - 1] && b.last() == b[b.len() - 1]);
    }
}

/// The version that a tag requires is at least the baseline of its schema,
/// and at least what the rule of each of its fields asks for: a field whose
/// rule gives `V` raises the required version to `V` or beyond.
pub proof fn lemma_required_version_bounds(tag: TagModel, i: int)
    requires
        tag.values.len() == tag.schema.fields.len(),
        0 <= i < tag.values.len(),
    ensures
        tag.schema.baseline.rank() <= tag.required_version().rank(),
        tag.schema.fields[i].version.spec_output(tag.values[i] is Some).rank()
            <= tag.required_version().rank(),
{
    ProtocolVersion::lemma_latest_bounds(tag.rule_outputs());
    assert(tag.rule_outputs()[i] == tag.schema.fields[i].version.spec_output(
        tag.values[i] is Some,
    ));
}

/// Version monotonicity: giving a value to a field never lowers the version
/// that the tag requires.
pub proof fn lemma_setting_a_field_never_lowers(tag: TagModel, i: int, value: AttributeValueModel)
    requires
        tag.values.len() == tag.schema.fields.len(),
        0 <= i < tag.values.len(),
    ensures
        tag.required_version().rank() <= (TagModel {
            values: tag.values.update(i, Some(value)),
            ..tag
        }).required_version().rank(),
{
    let set = TagModel { values: tag.values.update(i, Some(value)), ..tag };
    let a = tag.rule_outputs();
    let b = set.rule_outputs();
    assert forall|j: int| 0 <= j < a.len() implies (#[trigger] a[j]).rank() <= (#[trigger] b[j]).rank() by {
        if j != i {
            assert(set.values[j] == tag.values[j]);
        }
    }
    lemma_latest_is_monotone(a, b);
}

/// Quoting: a value between quotes is one value, whatever commas are in it.
/// A list of one pair whose value is text between quotes, itself without
/// quotes, is tokenized into that pair.
pub proof fn lemma_quoted_value_is_one_attribute(name: Seq<char>, inner: Seq<char>)
    requires
        is_name(name),
        !inner.contains('"'),
    ensures
        spec_tokenize(pair_text((name, quoted_text(inner)))) == Ok::<RawModel, TokenizeError>(
            seq![(name, quoted_text(inner))],
        ),
{
    let pair = (name, quoted_text(inner));
    let pairs = seq![pair];
    lemma_quoted_is_value(inner);
    assert(join_pairs(pairs) == pair_text(pair));
    lemma_tokenize_joined(pairs);
}

} // verus!
