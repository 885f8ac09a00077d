//! Tags: values that fit a schema, projected from raw attribute lists and
//! serialized back to text.

use vstd::prelude::*;
use crate::attribute::laws::{lemma_parse_own_line, lemma_projected_tag, values_are_clean};
use crate::attribute::scan::all_pairs_clean;
use crate::attribute::schema::{FieldSchema, FieldSchemaModel, FieldSpec, FieldSpecModel};
use crate::attribute::tokenizer::{lookup, spec_tokenize, tokenize, RawAttributeList, RawModel};
use crate::attribute::value::{
    decode, is_word_of, spec_decode, spec_encode, write_value, AttributeValue,
    AttributeValueModel, ValueKind,
};
use crate::error::{Error, ErrorModel, ProjectionError, ProjectionErrorModel};
use crate::utils::{spec_tag, tag};
use crate::traits::RequiredVersion;
use crate::types::protocol_version::ProtocolVersion;

verus! {

/// The mathematical value of a [`Tag`]: its schema, and for each field of the
/// schema the value it holds, if it holds one.
pub struct TagModel {
    pub schema: FieldSchemaModel,
    pub values: Seq<Option<AttributeValueModel>>,
}

/// Whether `value` can stand in the field `field`: a value must be valid and
/// of the field's kind, and only an optional field can be without one.
pub open spec fn slot_fits(field: FieldSpecModel, value: Option<AttributeValueModel>) -> bool {
    match value {
        Some(v) => v.valid() && v.of_kind(field.kind),
        None => !field.required,
    }
}

/// What projecting `raw` gives for the one field `field`.
pub open spec fn field_result(field: FieldSpecModel, raw: RawModel) -> Result<
    Option<AttributeValueModel>,
    ProjectionErrorModel,
> {
    match lookup(raw, field.name) {
        None => if field.required {
            Err(ProjectionErrorModel::MissingRequiredField { name: field.name })
        } else {
            Ok(None)
        },
        Some(text) => match spec_decode(field.kind, text) {
            Ok(v) => Ok(Some(v)),
            Err(cause) => Err(ProjectionErrorModel::FieldDecodeError { name: field.name, cause }),
        },
    }
}

/// The first field at or after `from` that `raw` fails on, or the number of
/// fields where it fails on none.
pub open spec fn first_failure(fields: Seq<FieldSpecModel>, raw: RawModel, from: int) -> int
    decreases fields.len() - from,
{
    if from >= fields.len() {
        fields.len() as int
    } else if field_result(fields[from], raw) is Err {
        from
    } else {
        first_failure(fields, raw, from + 1)
    }
}

/// The tag of schema `schema` that `raw` holds: every field taken from the
/// attribute of its name. Where a field fails, the first such field in the
/// order of the schema gives the error. Attributes that the schema does not
/// name are ignored.
pub open spec fn spec_project(schema: FieldSchemaModel, raw: RawModel) -> Result<
    TagModel,
    ProjectionErrorModel,
> {
    let k = first_failure(schema.fields, raw, 0);
    if 0 <= k < schema.fields.len() {
        Err(field_result(schema.fields[k], raw)->Err_0)
    } else {
        Ok(
            TagModel {
                schema,
                values: Seq::new(
                    schema.fields.len(),
                    |i: int| field_result(schema.fields[i], raw)->Ok_0,
                ),
            },
        )
    }
}

/// `NAME=VALUE`.
pub open spec fn pair_text(pair: (Seq<char>, Seq<char>)) -> Seq<char> {
    pair.0 + seq!['='] + pair.1
}

/// The name and the text of each value among the first `n` fields, in the
/// order of the schema. A field without value gives no pair.
pub open spec fn present_pairs(
    fields: Seq<FieldSpecModel>,
    values: Seq<Option<AttributeValueModel>>,
    n: int,
) -> RawModel
    decreases n,
{
    if n <= 0 {
        Seq::empty()
    } else {
        let before = present_pairs(fields, values, n - 1);
        match values[n - 1] {
            Some(v) => before.push((fields[n - 1].name, spec_encode(v))),
            None => before,
        }
    }
}

/// The pairs as text, with a comma between each two and nowhere else.
pub open spec fn join_pairs(pairs: RawModel) -> Seq<char>
    decreases pairs.len(),
{
    if pairs.len() == 0 {
        Seq::empty()
    } else if pairs.len() == 1 {
        pair_text(pairs[0])
    } else {
        join_pairs(pairs.drop_last()) + seq![','] + pair_text(pairs.last())
    }
}

impl TagModel {
    /// Whether the tag has a slot for each field of its schema, well formed,
    /// and each slot fits its field.
    pub open spec fn satisfies_schema(self) -> bool {
        &&& self.schema.wf()
        &&& self.values.len() == self.schema.fields.len()
        &&& forall|i: int|
            0 <= i < self.values.len() ==> slot_fits(self.schema.fields[i], #[trigger] self.values[i])
    }

    /// What this crate cannot know of the texts of the tag's values, because
    /// another crate writes them. It holds of every tag without timestamps.
    pub open spec fn reads_back(self) -> bool {
        forall|i: int|
            0 <= i < self.values.len() ==> ((#[trigger] self.values[i]) matches Some(v)
                ==> v.reads_back())
    }

    /// The attribute list of the tag: a pair for each field that has a value,
    /// in the order of the schema.
    pub open spec fn attribute_text(self) -> Seq<char> {
        join_pairs(present_pairs(self.schema.fields, self.values, self.values.len() as int))
    }

    /// The line of the tag: its prefix, then its attribute list.
    pub open spec fn text(self) -> Seq<char> {
        self.schema.prefix + self.attribute_text()
    }

    /// What each field's rule asks for, in the order of the schema.
    pub open spec fn rule_outputs(self) -> Seq<ProtocolVersion> {
        Seq::new(
            self.values.len(),
            |i: int| self.schema.fields[i].version.spec_output(self.values[i] is Some),
        )
    }

    /// The version that the tag requires: the latest of its schema's baseline
    /// and of what the rules of its fields ask for.
    pub open spec fn required_version(self) -> ProtocolVersion {
        self.schema.baseline.spec_later(ProtocolVersion::spec_latest(self.rule_outputs()))
    }
}

/// The mathematical value of a slot.
pub open spec fn slot_model(slot: Option<AttributeValue>) -> Option<AttributeValueModel> {
    match slot {
        Some(v) => Some(v@),
        None => None,
    }
}

/// The mathematical value of a row of slots.
pub open spec fn slots_model(slots: Seq<Option<AttributeValue>>) -> Seq<
    Option<AttributeValueModel>,
> {
    Seq::new(slots.len(), |i: int| slot_model(slots[i]))
}

/// One tag: a schema, and a value for each of its fields that has one. A tag
/// always satisfies its schema.
#[derive(Debug, PartialEq, Eq)]
pub struct Tag<'a> {
    schema: &'a FieldSchema,
    values: Vec<Option<AttributeValue>>,
}

impl<'a> View for Tag<'a> {
    type V = TagModel;

    closed spec fn view(&self) -> TagModel {
        TagModel { schema: self.schema@, values: slots_model(self.values@) }
    }
}

/// Whether `value` is of the kind `kind`.
pub fn is_of_kind(value: &AttributeValue, kind: &ValueKind) -> (r: bool)
    ensures
        r == value@.of_kind(kind@),
        value@.valid(),
{
    match value {
        AttributeValue::UnsignedInteger(_) => matches!(kind, ValueKind::UnsignedInteger),
        AttributeValue::Decimal(d) => {
            proof {
                use_type_invariant(d);
            }
            matches!(kind, ValueKind::Decimal)
        },
        AttributeValue::QuotedString(_) => matches!(kind, ValueKind::QuotedString),
        AttributeValue::EnumeratedToken(w) => match kind {
            ValueKind::EnumeratedToken(words) => is_word_of(words, w.as_str()),
            _ => false,
        },
        AttributeValue::HexSequence(_) => matches!(kind, ValueKind::HexSequence),
        AttributeValue::Resolution(_) => matches!(kind, ValueKind::Resolution),
        AttributeValue::Timestamp(t) => {
            proof {
                use_type_invariant(t);
            }
            matches!(kind, ValueKind::Timestamp)
        },
    }
}

/// Projects `raw` onto the one field `field`.
pub fn project_field(field: &FieldSpec, raw: &RawAttributeList) -> (r: Result<
    Option<AttributeValue>,
    ProjectionError,
>)
    ensures
        r matches Ok(slot) ==> field_result(field@, raw@) == Ok::<
            Option<AttributeValueModel>,
            ProjectionErrorModel,
        >(slot_model(slot)) && slot_fits(field@, slot_model(slot)),
        r matches Err(e) ==> field_result(field@, raw@) == Err::<
            Option<AttributeValueModel>,
            ProjectionErrorModel,
        >(e@),
{
    match raw.get(field.name.as_str()) {
        None => {
            if field.required {
                Err(ProjectionError::MissingRequiredField { name: field.name.clone() })
            } else {
                Ok(None)
            }
        },
        Some(text) => match decode(&field.kind, text) {
            Ok(v) => Ok(Some(v)),
            Err(cause) => Err(
                ProjectionError::FieldDecodeError { name: field.name.clone(), cause },
            ),
        },
    }
}

/// Makes the tag of schema `schema` that the attribute list `raw` holds.
///
/// Each field is looked up by its name. A required field that is absent
/// fails with `MissingRequiredField`, an optional one is left without value,
/// and one that is present is decoded under its kind, which fails with
/// `FieldDecodeError` where the text is not of that kind. The fields are
/// gone through in the order of the schema and the first failure is
/// returned. Attributes that the schema does not name are ignored.
///
/// Where the list is one that the tokenizer gave, the text of each value of
/// the tag can stand in an attribute list again.
pub fn project<'a>(schema: &'a FieldSchema, raw: &RawAttributeList) -> (r: Result<
    Tag<'a>,
    ProjectionError,
>)
    ensures
        r matches Ok(tag) ==> spec_project(schema@, raw@) == Ok::<TagModel, ProjectionErrorModel>(
            tag@,
        ) && tag@.satisfies_schema() && (all_pairs_clean(raw@) && tag@.reads_back()
            ==> values_are_clean(tag@)),
        r matches Err(e) ==> spec_project(schema@, raw@) == Err::<TagModel, ProjectionErrorModel>(
            e@,
        ),
{
    proof {
        use_type_invariant(schema);
    }
    let n = schema.len();
    let mut values: Vec<Option<AttributeValue>> = Vec::new();
    let mut i: usize = 0;
    while i < n
        invariant
            n == schema@.fields.len(),
            i <= n,
            values.len() == i,
            first_failure(schema@.fields, raw@, 0) == first_failure(schema@.fields, raw@, i as int),
            forall|j: int|
                0 <= j < i ==> field_result(schema@.fields[j], raw@) == Ok::<
                    Option<AttributeValueModel>,
                    ProjectionErrorModel,
                >(slot_model(#[trigger] values@[j])) && slot_fits(
                    schema@.fields[j],
                    slot_model(values@[j]),
                ),
        decreases n - i,
    {
        let slot = match project_field(schema.field(i), raw) {
            Ok(slot) => slot,
            Err(e) => {
                return Err(e);
            },
        };
        values.push(slot);
        i += 1;
    }
    proof {
        let model = TagModel { schema: schema@, values: slots_model(values@) };
        assert(model.values =~= Seq::new(
            schema@.fields.len(),
            |i: int| field_result(schema@.fields[i], raw@)->Ok_0,
        ));
        assert forall|i: int| 0 <= i < model.values.len() implies slot_fits(
            model.schema.fields[i],
            #[trigger] model.values[i],
        ) by {
            assert(model.values[i] == slot_model(values@[i]));
        }
        if all_pairs_clean(raw@) && model.reads_back() {
            lemma_projected_tag(schema@, raw@);
        }
    }
    Ok(Tag { schema, values })
}

/// The tag of schema `schema` that the line `input` holds, or why it holds
/// none: the line must begin with the schema's prefix, the rest must be an
/// attribute list, and the list must fit the schema.
pub open spec fn spec_parse_tag(schema: FieldSchemaModel, input: Seq<char>) -> Result<
    TagModel,
    ErrorModel,
> {
    match spec_tag(input, schema.prefix) {
        None => Err(ErrorModel::MissingTag),
        Some(rest) => match spec_tokenize(rest) {
            Err(e) => Err(ErrorModel::Tokenize(e)),
            Ok(raw) => match spec_project(schema, raw) {
                Err(e) => Err(ErrorModel::Projection(e)),
                Ok(tag) => Ok(tag),
            },
        },
    }
}

/// Reads a tag of schema `schema` from one line, prefix included.
pub fn parse_tag<'a>(schema: &'a FieldSchema, input: &str) -> (r: Result<Tag<'a>, Error>)
    ensures
        r matches Ok(tag) ==> spec_parse_tag(schema@, input@) == Ok::<TagModel, ErrorModel>(tag@)
            && tag@.satisfies_schema() && (tag@.reads_back() ==> values_are_clean(tag@)),
        r matches Err(e) ==> spec_parse_tag(schema@, input@) == Err::<TagModel, ErrorModel>(e@),
{
    let rest = match tag(input, schema.prefix()) {
        Ok(rest) => rest,
        Err(e) => {
            return Err(e);
        },
    };
    let raw = match tokenize(rest) {
        Ok(raw) => raw,
        Err(e) => {
            return Err(Error::Tokenize(e));
        },
    };
    match project(schema, &raw) {
        Ok(tag) => Ok(tag),
        Err(e) => Err(Error::Projection(e)),
    }
}

impl<'a> Tag<'a> {
    #[verifier::type_invariant]
    pub open spec fn well_formed(self) -> bool {
        self@.satisfies_schema()
    }

    /// The tag of schema `schema` with the values `values`, one slot for each
    /// field. There is none where the values do not fit the schema.
    pub fn new(schema: &'a FieldSchema, values: Vec<Option<AttributeValue>>) -> (r: Option<Tag<'a>>)
        ensures
            ({
                let model = TagModel { schema: schema@, values: slots_model(values@) };
                &&& r is Some == model.satisfies_schema()
                &&& r matches Some(tag) ==> tag@ == model
            }),
    {
        proof {
            use_type_invariant(schema);
        }
        let n = schema.len();
        let ghost model = TagModel { schema: schema@, values: slots_model(values@) };
        if values.len() != n {
            return None;
        }
        let mut i: usize = 0;
        while i < n
            invariant
                n == schema@.fields.len(),
                n == values.len(),
                i <= n,
                model == (TagModel { schema: schema@, values: slots_model(values@) }),
                forall|j: int|
                    0 <= j < i ==> slot_fits(schema@.fields[j], #[trigger] model.values[j]),
            decreases n - i,
        {
            let field = schema.field(i);
            let fits = match &values[i] {
                Some(v) => is_of_kind(v, &field.kind),
                None => !field.required,
            };
            assert(model.values[i as int] == slot_model(values@[i as int]));
            if !fits {
                return None;
            }
            i += 1;
        }
        Some(Tag { schema, values })
    }

    /// The schema of the tag.
    pub fn schema(&self) -> (r: &'a FieldSchema)
        ensures
            r@ == self@.schema,
    {
        self.schema
    }

    /// The value of the field at position `i` of the schema, if the tag has
    /// such a field and a value for it.
    pub fn get(&self, i: usize) -> (r: Option<&AttributeValue>)
        ensures
            r matches Some(v) ==> i < self@.values.len() && self@.values[i as int] == Some(v@),
            r is None ==> i >= self@.values.len() || self@.values[i as int] is None,
    {
        if i < self.values.len() {
            assert(self@.values[i as int] == slot_model(self.values@[i as int]));
            self.values[i].as_ref()
        } else {
            None
        }
    }

    /// The value of the field named `name`, if the schema has such a field
    /// and the tag a value for it.
    pub fn value(&self, name: &str) -> (r: Option<&AttributeValue>)
        ensures
            r matches Some(v) ==> exists|i: int|
                0 <= i < self@.values.len() && (#[trigger] self@.schema.fields[i]).name == name@
                    && self@.values[i] == Some(v@),
            r is None ==> forall|i: int|
                0 <= i < self@.values.len() && (#[trigger] self@.schema.fields[i]).name == name@
                    ==> self@.values[i] is None,
    {
        proof {
            use_type_invariant(self);
        }
        match self.schema.position(name) {
            Some(i) => {
                let r = self.get(i);
                assert(self@.schema.fields[i as int].name == name@);
                r
            },
            None => None,
        }
    }

    /// Appends the attribute list of the tag to `out`.
    pub fn write_attributes(&self, out: &mut String)
        ensures
            final(out)@ == old(out)@ + self@.attribute_text(),
    {
        proof {
            use_type_invariant(self);
        }
        let n = self.values.len();
        let ghost fields = self@.schema.fields;
        let ghost slots = self@.values;
        let ghost mut pairs: RawModel = Seq::empty();
        let mut first = true;
        let mut i: usize = 0;
        assert(old(out)@ + join_pairs(pairs) =~= old(out)@);
        while i < n
            invariant
                n == self.values.len(),
                n == fields.len(),
                fields == self@.schema.fields,
                slots == self@.values,
                i <= n,
                pairs == present_pairs(fields, slots, i as int),
                first == (pairs.len() == 0),
                out@ == old(out)@ + join_pairs(pairs),
            decreases n - i,
        {
            assert(slots[i as int] == slot_model(self.values@[i as int]));
            match &self.values[i] {
                Some(v) => {
                    let field = self.schema.field(i);
                    let ghost pair = (field@.name, spec_encode(v@));
                    if !first {
                        out.push(',');
                    }
                    out.append(field.name.as_str());
                    out.push('=');
                    write_value(v, out);
                    proof {
                        assert(pairs.push(pair).drop_last() =~= pairs);
                        assert(out@ =~= old(out)@ + join_pairs(pairs.push(pair)));
                        pairs = pairs.push(pair);
                    }
                    first = false;
                },
                None => {},
            }
            i += 1;
        }
    }

    /// The attribute list of the tag: `NAME=VALUE` for each field that has a
    /// value, in the order of the schema, with commas between.
    pub fn serialize_attributes(&self) -> (s: String)
        ensures
            s@ == self@.attribute_text(),
    {
        let mut s = String::new();
        self.write_attributes(&mut s);
        assert(s@ =~= self@.attribute_text());
        s
    }

    /// The line of the tag: its prefix and its attribute list. A tag always
    /// has one, and equal tags have the same.
    ///
    /// The line reads back as the tag, where the texts of its values can
    /// stand in an attribute list, as they can in a tag that was read from
    /// one.
    pub fn serialize(&self) -> (s: String)
        ensures
            s@ == self@.text(),
            self@.reads_back() && values_are_clean(self@) ==> spec_parse_tag(self@.schema, s@)
                == Ok::<TagModel, ErrorModel>(self@),
    {
        proof {
            use_type_invariant(self);
            if self@.reads_back() && values_are_clean(self@) {
                lemma_parse_own_line(self@);
            }
        }
        let mut s = self.schema.prefix().to_owned();
        self.write_attributes(&mut s);
        s
    }
}

impl<'a> RequiredVersion for Tag<'a> {
    open spec fn spec_required_version(&self) -> ProtocolVersion {
        self@.required_version()
    }

    /// The latest of the schema's baseline and of what each field's rule asks
    /// for.
    fn required_version(&self) -> (v: ProtocolVersion) {
        proof {
            use_type_invariant(self);
        }
        let n = self.values.len();
        let ghost outputs = self@.rule_outputs();
        let mut latest = ProtocolVersion::V1;
        let mut i: usize = 0;
        while i < n
            invariant
                n == self.values.len(),
                n == self@.schema.fields.len(),
                n == self@.values.len(),
                outputs == self@.rule_outputs(),
                i <= n,
                latest == ProtocolVersion::spec_latest(outputs.take(i as int)),
            decreases n - i,
        {
            assert(self@.values[i as int] == slot_model(self.values@[i as int]));
            assert(outputs.take(i + 1).drop_last() =~= outputs.take(i as int));
            let present = self.values[i].is_some();
            latest = latest.later(self.schema.field(i).version.output(present));
            i += 1;
        }
        assert(outputs.take(n as int) =~= outputs);
        self.schema.baseline().later(latest)
    }
}

} // verus!
