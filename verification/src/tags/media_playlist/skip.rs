//! `#EXT-X-SKIP`.

use vstd::prelude::*;
use vstd::pervasive::unreached;
use crate::attribute::laws::{lemma_parse_own_line, lemma_word_is_value};
use crate::attribute::schema::{FieldSchema, FieldSchemaModel, FieldSpec, FieldSpecModel, VersionRule};
use crate::number::lemma_nat_digits_are_digits;
use crate::attribute::tag::{parse_tag, slots_model, spec_parse_tag, Tag, TagModel};
use crate::attribute::value::{
    spec_encode, AttributeValue, AttributeValueModel, ValueKind, ValueKindModel,
};
use crate::error::{
    BuilderError, DecodeError, DecodeErrorModel, Error, ErrorModel, ProjectionError,
    ProjectionErrorModel,
};
use crate::traits::RequiredVersion;
use crate::types::protocol_version::ProtocolVersion;

verus! {

/// Indicates the number of media segments that were left out of a playlist.
///
/// It applies to the entire playlist.
#[derive(Debug, Clone, Copy, PartialEq, Eq, Structural, Hash, PartialOrd, Ord)]
pub struct ExtXSkip {
    pub skipped_segments: u32,
}

/// Collects the fields of an [`ExtXSkip`].
#[derive(Debug, Clone, Copy, PartialEq, Eq, Structural)]
pub struct ExtXSkipBuilder {
    pub skipped_segments: Option<u32>,
}

impl ExtXSkipBuilder {
    /// Sets the number of skipped segments.
    pub fn skipped_segments(&mut self, value: u32) -> (ret: &mut Self)
        ensures
            *ret == (ExtXSkipBuilder { skipped_segments: Some(value) }),
            *final(self) == *final(ret),
    {
        self.skipped_segments = Some(value);
        self
    }

    /// The tag with the fields that were set. The number of skipped segments
    /// has no default: without it there is no tag.
    pub fn build(&self) -> (r: Result<ExtXSkip, BuilderError>)
        ensures
            r matches Ok(tag) ==> self.skipped_segments == Some(tag.skipped_segments),
            r matches Err(e) ==> self.skipped_segments is None && e->0@ == "skipped_segments"@,
    {
        match self.skipped_segments {
            Some(skipped_segments) => Ok(ExtXSkip { skipped_segments }),
            None => Err(BuilderError::UninitializedField("skipped_segments")),
        }
    }
}

impl ExtXSkip {
    pub const PREFIX: &'static str = "#EXT-X-SKIP:";

    /// The schema of the tag: one required unsigned integer.
    pub open spec fn spec_schema() -> FieldSchemaModel {
        FieldSchemaModel {
            prefix: Self::PREFIX@,
            baseline: ProtocolVersion::V8,
            fields: seq![
                FieldSpecModel {
                    name: "SKIPPED-SEGMENTS"@,
                    kind: ValueKindModel::UnsignedInteger,
                    required: true,
                    version: VersionRule::Always(ProtocolVersion::V1),
                },
            ],
        }
    }

    /// The tag as a value of its schema.
    pub open spec fn model(self) -> TagModel {
        TagModel {
            schema: Self::spec_schema(),
            values: seq![
                Some(AttributeValueModel::UnsignedInteger(self.skipped_segments as u64)),
            ],
        }
    }

    /// The tag with the fields of `tag`, a value of the schema. A number of
    /// skipped segments beyond 32 bits is refused as no integer of the field.
    pub open spec fn spec_from_model(tag: TagModel) -> Result<ExtXSkip, ErrorModel> {
        match tag.values[0] {
            Some(AttributeValueModel::UnsignedInteger(v)) if v <= u32::MAX => Ok(
                ExtXSkip { skipped_segments: v as u32 },
            ),
            _ => Err(
                ErrorModel::Projection(
                    ProjectionErrorModel::FieldDecodeError {
                        name: "SKIPPED-SEGMENTS"@,
                        cause: DecodeErrorModel::InvalidInteger,
                    },
                ),
            ),
        }
    }

    /// The tag that the line `input` holds, or why it holds none.
    pub open spec fn spec_parse(input: Seq<char>) -> Result<ExtXSkip, ErrorModel> {
        match spec_parse_tag(Self::spec_schema(), input) {
            Ok(tag) => Self::spec_from_model(tag),
            Err(e) => Err(e),
        }
    }

    /// A builder without any field set.
    pub fn builder() -> (r: ExtXSkipBuilder)
        ensures
            r == (ExtXSkipBuilder { skipped_segments: None }),
    {
        ExtXSkipBuilder { skipped_segments: None }
    }

    /// The number of skipped segments.
    pub fn skipped_segments(&self) -> (r: u32)
        ensures
            r == self.skipped_segments,
    {
        self.skipped_segments
    }

    /// The schema of the tag.
    pub fn schema() -> (r: FieldSchema)
        ensures
            r@ == Self::spec_schema(),
    {
        proof {
            reveal_strlit("SKIPPED-SEGMENTS");
        }
        let field = FieldSpec::required("SKIPPED-SEGMENTS", ValueKind::UnsignedInteger);
        match FieldSchema::new(Self::PREFIX, ProtocolVersion::V8).with_field(field) {
            Some(schema) => {
                assert(schema@.fields =~= Self::spec_schema().fields);
                schema
            },
            None => unreached(),
        }
    }

    /// The line of the tag. It reads back as the tag.
    pub fn to_string(&self) -> (s: String)
        ensures
            s@ == self.model().text(),
            Self::spec_parse(s@) == Ok::<ExtXSkip, ErrorModel>(*self),
    {
        proof {
            self.lemma_parse_text();
        }
        let schema = Self::schema();
        let values = vec![Some(AttributeValue::UnsignedInteger(self.skipped_segments as u64))];
        proof {
            use_type_invariant(&schema);
            assert(slots_model(values@) =~= self.model().values);
        }
        match Tag::new(&schema, values) {
            Some(tag) => tag.serialize(),
            None => unreached(),
        }
    }

    /// Reads the tag from a line.
    pub fn parse(input: &str) -> (r: Result<Self, Error>)
        ensures
            r matches Ok(v) ==> Self::spec_parse(input@) == Ok::<ExtXSkip, ErrorModel>(v),
            r matches Err(e) ==> Self::spec_parse(input@) == Err::<ExtXSkip, ErrorModel>(e@),
    {
        let schema = Self::schema();
        let tag = match parse_tag(&schema, input) {
            Ok(tag) => tag,
            Err(e) => {
                return Err(e);
            },
        };
        match tag.get(0) {
            Some(AttributeValue::UnsignedInteger(v)) => {
                if *v <= u32::MAX as u64 {
                    Ok(ExtXSkip { skipped_segments: *v as u32 })
                } else {
                    Err(
                        Error::Projection(
                            ProjectionError::FieldDecodeError {
                                name: "SKIPPED-SEGMENTS".to_owned(),
                                cause: DecodeError::InvalidInteger,
                            },
                        ),
                    )
                }
            },
            _ => unreached(),
        }
    }

    /// Reading the line of a tag gives the tag back.
    pub proof fn lemma_parse_text(self)
        ensures
            Self::spec_parse(self.model().text()) == Ok::<ExtXSkip, ErrorModel>(self),
    {
        reveal_strlit("SKIPPED-SEGMENTS");
        let model = self.model();
        lemma_nat_digits_are_digits(self.skipped_segments as nat);
        lemma_word_is_value(spec_encode(model.values[0]->0));
        lemma_parse_own_line(model);
    }

    /// The version that the tag requires follows from its schema alone.
    pub proof fn lemma_required_version(self)
        ensures
            self.model().required_version() == ProtocolVersion::V8,
    {
        let outputs = self.model().rule_outputs();
        ProtocolVersion::lemma_latest_bounds(outputs);
        if ProtocolVersion::spec_latest(outputs) != ProtocolVersion::V1 {
            let j = choose|j: int|
                0 <= j < outputs.len() && outputs[j] == ProtocolVersion::spec_latest(outputs);
            assert(outputs[j] == ProtocolVersion::V1);
        }
    }
}

impl Default for ExtXSkip {
    /// The tag that says that nothing was skipped.
    fn default() -> (r: ExtXSkip)
        ensures
            r == (ExtXSkip { skipped_segments: 0 }),
    {
        ExtXSkip { skipped_segments: 0 }
    }
}

impl Default for ExtXSkipBuilder {
    /// A builder without any field set.
    fn default() -> (r: ExtXSkipBuilder)
        ensures
            r == (ExtXSkipBuilder { skipped_segments: None }),
    {
        ExtXSkipBuilder { skipped_segments: None }
    }
}

/// This tag requires [`ProtocolVersion::V8`].
impl RequiredVersion for ExtXSkip {
    open spec fn spec_required_version(&self) -> ProtocolVersion {
        ProtocolVersion::V8
    }

    fn required_version(&self) -> (v: ProtocolVersion) {
        ProtocolVersion::V8
    }
}

} // verus!
