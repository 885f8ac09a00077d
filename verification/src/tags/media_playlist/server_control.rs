//! `#EXT-X-SERVER-CONTROL`.

use vstd::prelude::*;
use vstd::pervasive::unreached;
use crate::attribute::laws::{lemma_parse_own_line, lemma_word_is_value};
use crate::attribute::schema::{FieldSchema, FieldSchemaModel, FieldSpec, FieldSpecModel, VersionRule};
use crate::attribute::value::spec_encode;
use crate::attribute::tag::{parse_tag, slot_model, slots_model, spec_parse_tag, Tag, TagModel};
use crate::attribute::tokenizer::{is_name, is_value};
use crate::attribute::value::{AttributeValue, AttributeValueModel, ValueKind, ValueKindModel};
use crate::error::{BuilderError, Error, ErrorModel};
use crate::text::same_text;
use crate::traits::RequiredVersion;
use crate::types::decimal::Decimal;
use crate::types::protocol_version::ProtocolVersion;

verus! {

/// Indicates which delivery directives the server supports.
///
/// It applies to the entire playlist. Every field is optional.
#[derive(Debug, Clone, Copy, PartialEq, Eq, Hash)]
pub struct ExtXServerControl {
    /// How far back from the live edge, in seconds, segments can be skipped.
    pub can_skip_until: Option<Decimal>,
    /// Whether date ranges can be skipped too.
    pub can_skip_dateranges: Option<bool>,
    /// The least distance from the live edge, in seconds, to play at.
    pub hold_back: Option<Decimal>,
    /// The same for playing partial segments.
    pub part_hold_back: Option<Decimal>,
    /// Whether the server holds a reload back until the playlist has changed.
    pub can_block_reload: Option<bool>,
}

/// Collects the fields of an [`ExtXServerControl`].
#[derive(Debug, Clone, Copy, PartialEq, Eq)]
pub struct ExtXServerControlBuilder {
    pub can_skip_until: Option<Decimal>,
    pub can_skip_dateranges: Option<bool>,
    pub hold_back: Option<Decimal>,
    pub part_hold_back: Option<Decimal>,
    pub can_block_reload: Option<bool>,
}

impl ExtXServerControlBuilder {
    /// Sets `CAN-SKIP-UNTIL`.
    pub fn can_skip_until(&mut self, value: Decimal) -> (ret: &mut Self)
        ensures
            *ret == (ExtXServerControlBuilder { can_skip_until: Some(value), ..*old(self) }),
            *final(self) == *final(ret),
    {
        self.can_skip_until = Some(value);
        self
    }

    /// Sets `CAN-SKIP-DATERANGES`.
    pub fn can_skip_dateranges(&mut self, value: bool) -> (ret: &mut Self)
        ensures
            *ret == (ExtXServerControlBuilder { can_skip_dateranges: Some(value), ..*old(self) }),
            *final(self) == *final(ret),
    {
        self.can_skip_dateranges = Some(value);
        self
    }

    /// Sets `HOLD-BACK`.
    pub fn hold_back(&mut self, value: Decimal) -> (ret: &mut Self)
        ensures
            *ret == (ExtXServerControlBuilder { hold_back: Some(value), ..*old(self) }),
            *final(self) == *final(ret),
    {
        self.hold_back = Some(value);
        self
    }

    /// Sets `PART-HOLD-BACK`.
    pub fn part_hold_back(&mut self, value: Decimal) -> (ret: &mut Self)
        ensures
            *ret == (ExtXServerControlBuilder { part_hold_back: Some(value), ..*old(self) }),
            *final(self) == *final(ret),
    {
        self.part_hold_back = Some(value);
        self
    }

    /// Sets `CAN-BLOCK-RELOAD`.
    pub fn can_block_reload(&mut self, value: bool) -> (ret: &mut Self)
        ensures
            *ret == (ExtXServerControlBuilder { can_block_reload: Some(value), ..*old(self) }),
            *final(self) == *final(ret),
    {
        self.can_block_reload = Some(value);
        self
    }

    /// The tag with the fields that were set. Each field has a default, so
    /// there always is one.
    pub fn build(&self) -> (r: Result<ExtXServerControl, BuilderError>)
        ensures
            r == Ok::<ExtXServerControl, BuilderError>(
                ExtXServerControl {
                    can_skip_until: self.can_skip_until,
                    can_skip_dateranges: self.can_skip_dateranges,
                    hold_back: self.hold_back,
                    part_hold_back: self.part_hold_back,
                    can_block_reload: self.can_block_reload,
                },
            ),
    {
        Ok(
            ExtXServerControl {
                can_skip_until: self.can_skip_until,
                can_skip_dateranges: self.can_skip_dateranges,
                hold_back: self.hold_back,
                part_hold_back: self.part_hold_back,
                can_block_reload: self.can_block_reload,
            },
        )
    }
}

/// An optional field that asks for no more than `V1`.
pub open spec fn optional_field(name: Seq<char>, kind: ValueKindModel) -> FieldSpecModel {
    FieldSpecModel {
        name,
        kind,
        required: false,
        version: VersionRule::Always(ProtocolVersion::V1),
    }
}

/// The two words that a flag is written with.
pub open spec fn spec_yes_no() -> Seq<Seq<char>> {
    seq!["YES"@, "NO"@]
}

/// A decimal as the value of a field.
pub open spec fn spec_decimal_slot(v: Option<Decimal>) -> Option<AttributeValueModel> {
    match v {
        Some(d) => Some(AttributeValueModel::Decimal(d@)),
        None => None,
    }
}

/// A flag as the value of a field: `YES` or `NO`.
pub open spec fn spec_flag_slot(v: Option<bool>) -> Option<AttributeValueModel> {
    match v {
        Some(b) => Some(
            AttributeValueModel::EnumeratedToken(
                if b {
                    "YES"@
                } else {
                    "NO"@
                },
            ),
        ),
        None => None,
    }
}

fn yes_no() -> (r: Vec<String>)
    ensures
        r.deep_view() == spec_yes_no(),
{
    let r = vec!["YES".to_owned(), "NO".to_owned()];
    assert(r.deep_view() =~= spec_yes_no());
    r
}

fn decimal_slot(v: Option<Decimal>) -> (r: Option<AttributeValue>)
    ensures
        slot_model(r) == spec_decimal_slot(v),
        v matches Some(d) ==> d@.canonical(),
{
    match v {
        Some(d) => {
            proof {
                use_type_invariant(&d);
            }
            Some(AttributeValue::Decimal(d))
        },
        None => None,
    }
}

fn flag_slot(v: Option<bool>) -> (r: Option<AttributeValue>)
    ensures
        slot_model(r) == spec_flag_slot(v),
{
    match v {
        Some(true) => Some(AttributeValue::EnumeratedToken("YES".to_owned())),
        Some(false) => Some(AttributeValue::EnumeratedToken("NO".to_owned())),
        None => None,
    }
}

fn take_decimal(slot: Option<&AttributeValue>) -> (r: Option<Decimal>)
    requires
        slot matches Some(v) ==> v@ is Decimal,
    ensures
        spec_decimal_slot(r) == (match slot {
            Some(v) => Some(v@),
            None => None,
        }),
{
    match slot {
        Some(AttributeValue::Decimal(d)) => Some(*d),
        Some(_) => unreached(),
        None => None,
    }
}

fn take_flag(slot: Option<&AttributeValue>) -> (r: Option<bool>)
    requires
        slot matches Some(v) ==> v@.of_kind(ValueKindModel::EnumeratedToken(spec_yes_no())),
    ensures
        spec_flag_slot(r) == (match slot {
            Some(v) => Some(v@),
            None => None,
        }),
{
    match slot {
        Some(AttributeValue::EnumeratedToken(w)) => {
            proof {
                reveal_strlit("YES");
                reveal_strlit("NO");
                let i = choose|i: int| 0 <= i < spec_yes_no().len() && spec_yes_no()[i] == w@;
                assert(i == 0 || i == 1);
            }
            Some(same_text(w.as_str(), "YES"))
        },
        Some(_) => unreached(),
        None => None,
    }
}

fn add_field(schema: FieldSchema, field: FieldSpec) -> (r: FieldSchema)
    requires
        is_name(field@.name),
        forall|i: int| 0 <= i < schema@.fields.len() ==> (#[trigger] schema@.fields[i]).name != field@.name,
    ensures
        r@ == schema@.with_field(field@),
{
    match schema.with_field(field) {
        Some(r) => r,
        None => unreached(),
    }
}

impl ExtXServerControl {
    pub const PREFIX: &'static str = "#EXT-X-SERVER-CONTROL:";

    /// The schema of the tag: five optional fields, three decimals and two
    /// flags.
    pub open spec fn spec_schema() -> FieldSchemaModel {
        FieldSchemaModel {
            prefix: Self::PREFIX@,
            baseline: ProtocolVersion::V8,
            fields: seq![
                optional_field("CAN-SKIP-UNTIL"@, ValueKindModel::Decimal),
                optional_field(
                    "CAN-SKIP-DATERANGES"@,
                    ValueKindModel::EnumeratedToken(spec_yes_no()),
                ),
                optional_field("HOLD-BACK"@, ValueKindModel::Decimal),
                optional_field("PART-HOLD-BACK"@, ValueKindModel::Decimal),
                optional_field("CAN-BLOCK-RELOAD"@, ValueKindModel::EnumeratedToken(spec_yes_no())),
            ],
        }
    }

    /// The tag as a value of its schema.
    pub open spec fn model(self) -> TagModel {
        TagModel {
            schema: Self::spec_schema(),
            values: seq![
                spec_decimal_slot(self.can_skip_until),
                spec_flag_slot(self.can_skip_dateranges),
                spec_decimal_slot(self.hold_back),
                spec_decimal_slot(self.part_hold_back),
                spec_flag_slot(self.can_block_reload),
            ],
        }
    }

    /// A builder without any field set.
    pub fn builder() -> (r: ExtXServerControlBuilder)
        ensures
            r == (ExtXServerControlBuilder {
                can_skip_until: None,
                can_skip_dateranges: None,
                hold_back: None,
                part_hold_back: None,
                can_block_reload: None,
            }),
    {
        ExtXServerControlBuilder {
            can_skip_until: None,
            can_skip_dateranges: None,
            hold_back: None,
            part_hold_back: None,
            can_block_reload: None,
        }
    }

    /// The schema of the tag.
    pub fn schema() -> (r: FieldSchema)
        ensures
            r@ == Self::spec_schema(),
    {
        proof {
            reveal_strlit("CAN-SKIP-UNTIL");
            reveal_strlit("CAN-SKIP-DATERANGES");
            reveal_strlit("HOLD-BACK");
            reveal_strlit("PART-HOLD-BACK");
            reveal_strlit("CAN-BLOCK-RELOAD");
        }
        let s0 = FieldSchema::new(Self::PREFIX, ProtocolVersion::V8);
        let s1 = add_field(s0, FieldSpec::optional("CAN-SKIP-UNTIL", ValueKind::Decimal));
        let s2 = add_field(
            s1,
            FieldSpec::optional("CAN-SKIP-DATERANGES", ValueKind::EnumeratedToken(yes_no())),
        );
        let s3 = add_field(s2, FieldSpec::optional("HOLD-BACK", ValueKind::Decimal));
        assert("PART-HOLD-BACK"@[0] != "CAN-SKIP-UNTIL"@[0]);
        let s4 = add_field(s3, FieldSpec::optional("PART-HOLD-BACK", ValueKind::Decimal));
        let s5 = add_field(
            s4,
            FieldSpec::optional("CAN-BLOCK-RELOAD", ValueKind::EnumeratedToken(yes_no())),
        );
        assert(s5@.fields =~= Self::spec_schema().fields);
        s5
    }

    /// The line of the tag: the prefix, then each field that is set, in the
    /// order of the schema. It reads back as the tag.
    pub fn to_string(&self) -> (s: String)
        ensures
            s@ == self.model().text(),
            spec_parse_tag(Self::spec_schema(), s@) == Ok::<TagModel, ErrorModel>(self.model()),
    {
        let schema = Self::schema();
        let values = vec![
            decimal_slot(self.can_skip_until),
            flag_slot(self.can_skip_dateranges),
            decimal_slot(self.hold_back),
            decimal_slot(self.part_hold_back),
            flag_slot(self.can_block_reload),
        ];
        proof {
            use_type_invariant(&schema);
            self.lemma_parse_text();
            assert(slots_model(values@) =~= self.model().values);
            assert(spec_yes_no()[0] == "YES"@ && spec_yes_no()[1] == "NO"@);
        }
        match Tag::new(&schema, values) {
            Some(tag) => tag.serialize(),
            None => unreached(),
        }
    }

    /// Reads the tag from a line.
    pub fn parse(input: &str) -> (r: Result<Self, Error>)
        ensures
            r matches Ok(v) ==> spec_parse_tag(Self::spec_schema(), input@) == Ok::<
                TagModel,
                ErrorModel,
            >(v.model()),
            r matches Err(e) ==> spec_parse_tag(Self::spec_schema(), input@) == Err::<
                TagModel,
                ErrorModel,
            >(e@),
    {
        let schema = Self::schema();
        let tag = match parse_tag(&schema, input) {
            Ok(tag) => tag,
            Err(e) => {
                return Err(e);
            },
        };
        let v = ExtXServerControl {
            can_skip_until: take_decimal(tag.get(0)),
            can_skip_dateranges: take_flag(tag.get(1)),
            hold_back: take_decimal(tag.get(2)),
            part_hold_back: take_decimal(tag.get(3)),
            can_block_reload: take_flag(tag.get(4)),
        };
        assert(v.model().values =~= tag@.values);
        Ok(v)
    }

    /// Whether each decimal of the tag is canonical, as every decimal is that
    /// this crate has made.
    pub open spec fn canonical(self) -> bool {
        &&& self.can_skip_until matches Some(d) ==> d@.canonical()
        &&& self.hold_back matches Some(d) ==> d@.canonical()
        &&& self.part_hold_back matches Some(d) ==> d@.canonical()
    }

    /// The schema of the tag is well formed.
    pub proof fn lemma_schema_is_well_formed()
        ensures
            Self::spec_schema().wf(),
    {
        reveal_strlit("CAN-SKIP-UNTIL");
        reveal_strlit("CAN-SKIP-DATERANGES");
        reveal_strlit("HOLD-BACK");
        reveal_strlit("PART-HOLD-BACK");
        reveal_strlit("CAN-BLOCK-RELOAD");
        let fields = Self::spec_schema().fields;
        assert(fields.len() == 5);
        assert(is_name(fields[0].name));
        assert(is_name(fields[1].name));
        assert(is_name(fields[2].name));
        assert(is_name(fields[3].name));
        assert(is_name(fields[4].name));
        assert(fields[0].name.len() == 14 && fields[1].name.len() == 19 && fields[2].name.len()
            == 9 && fields[3].name.len() == 14 && fields[4].name.len() == 16);
        assert(fields[0].name[0] != fields[3].name[0]);
    }

    /// Reading the line of a tag gives the tag back.
    pub proof fn lemma_parse_text(self)
        requires
            self.canonical(),
        ensures
            spec_parse_tag(Self::spec_schema(), self.model().text()) == Ok::<TagModel, ErrorModel>(
                self.model(),
            ),
    {
        reveal_strlit("CAN-SKIP-UNTIL");
        reveal_strlit("CAN-SKIP-DATERANGES");
        reveal_strlit("HOLD-BACK");
        reveal_strlit("PART-HOLD-BACK");
        reveal_strlit("CAN-BLOCK-RELOAD");
        reveal_strlit("YES");
        reveal_strlit("NO");
        let model = self.model();
        Self::lemma_schema_is_well_formed();
        assert(spec_yes_no()[0] == "YES"@ && spec_yes_no()[1] == "NO"@);
        assert forall|i: int| 0 <= i < model.values.len() implies (
        (#[trigger] model.values[i]) matches Some(v) ==> is_value(spec_encode(v))) by {
            if let Some(v) = model.values[i] {
                match v {
                    AttributeValueModel::Decimal(d) => {
                        d.lemma_text_chars();
                    },
                    _ => {},
                }
                lemma_word_is_value(spec_encode(v));
            }
        }
        lemma_parse_own_line(model);
    }

    /// The version that the tag requires follows from its schema alone.
    pub proof fn lemma_required_version(self)
        ensures
            self.model().required_version() == ProtocolVersion::V8,
    {
        let outputs = self.model().rule_outputs();
        ProtocolVersion::lemma_latest_bounds(outputs);
        if ProtocolVersion::spec_latest(outputs) != ProtocolVersion::V1 {
            let j = choose|j: int|
                0 <= j < outputs.len() && outputs[j] == ProtocolVersion::spec_latest(outputs);
            assert(outputs[j] == ProtocolVersion::V1);
        }
    }
}

impl Default for ExtXServerControl {
    /// The tag without any field.
    fn default() -> (r: ExtXServerControl)
        ensures
            r == (ExtXServerControl {
                can_skip_until: None,
                can_skip_dateranges: None,
                hold_back: None,
                part_hold_back: None,
                can_block_reload: None,
            }),
    {
        ExtXServerControl {
            can_skip_until: None,
            can_skip_dateranges: None,
            hold_back: None,
            part_hold_back: None,
            can_block_reload: None,
        }
    }
}

impl Default for ExtXServerControlBuilder {
    /// A builder without any field set.
    fn default() -> (r: ExtXServerControlBuilder)
        ensures
            r == (ExtXServerControlBuilder {
                can_skip_until: None,
                can_skip_dateranges: None,
                hold_back: None,
                part_hold_back: None,
                can_block_reload: None,
            }),
    {
        ExtXServerControlBuilder {
            can_skip_until: None,
            can_skip_dateranges: None,
            hold_back: None,
            part_hold_back: None,
            can_block_reload: None,
        }
    }
}

/// This tag requires [`ProtocolVersion::V8`].
impl RequiredVersion for ExtXServerControl {
    open spec fn spec_required_version(&self) -> ProtocolVersion {
        ProtocolVersion::V8
    }

    fn required_version(&self) -> (v: ProtocolVersion) {
        ProtocolVersion::V8
    }
}

} // verus!
