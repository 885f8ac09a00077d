//! Schemas: which fields a tag has, of what kind, and what each of them
//! demands of the protocol version.

use vstd::prelude::*;
use crate::attribute::tokenizer::{is_name, is_name_run};
use crate::attribute::value::{ValueKind, ValueKindModel};
use crate::text::chars_of;
use crate::types::protocol_version::ProtocolVersion;

verus! {

/// What a field demands of the protocol version.
#[derive(Debug, Clone, Copy, PartialEq, Eq, Structural)]
pub enum VersionRule {
    /// The version is required whether the field is present or not.
    Always(ProtocolVersion),
    /// The version is required where the field is present; an absent field
    /// asks for no more than `V1`.
    WhenPresent(ProtocolVersion),
}

impl VersionRule {
    /// The version that the rule asks for, given whether the field is present.
    pub open spec fn spec_output(self, present: bool) -> ProtocolVersion {
        match self {
            VersionRule::Always(v) => v,
            VersionRule::WhenPresent(v) => if present {
                v
            } else {
                ProtocolVersion::V1
            },
        }
    }

    /// The version that the rule asks for, given whether the field is present.
    pub fn output(self, present: bool) -> (r: ProtocolVersion)
        ensures
            r == self.spec_output(present),
    {
        match self {
            VersionRule::Always(v) => v,
            VersionRule::WhenPresent(v) => if present {
                v
            } else {
                ProtocolVersion::V1
            },
        }
    }
}

impl Default for VersionRule {
    /// `V1`, whatever the field holds.
    fn default() -> (r: VersionRule)
        ensures
            r == VersionRule::Always(ProtocolVersion::V1),
    {
        VersionRule::Always(ProtocolVersion::V1)
    }
}

/// One field of a schema.
#[derive(Debug, Clone, PartialEq, Eq)]
pub struct FieldSpec {
    /// The attribute's name in the text.
    pub name: String,
    /// The kind of its value.
    pub kind: ValueKind,
    /// Whether a tag without it is refused.
    pub required: bool,
    /// What it demands of the protocol version.
    pub version: VersionRule,
}

/// The mathematical value of a [`FieldSpec`].
pub struct FieldSpecModel {
    pub name: Seq<char>,
    pub kind: ValueKindModel,
    pub required: bool,
    pub version: VersionRule,
}

impl View for FieldSpec {
    type V = FieldSpecModel;

    open spec fn view(&self) -> FieldSpecModel {
        FieldSpecModel {
            name: self.name@,
            kind: self.kind@,
            required: self.required,
            version: self.version,
        }
    }
}

impl FieldSpec {
    /// A field that every tag of the schema must have. It asks for `V1`.
    pub fn required(name: &str, kind: ValueKind) -> (r: FieldSpec)
        ensures
            r@ == (FieldSpecModel {
                name: name@,
                kind: kind@,
                required: true,
                version: VersionRule::Always(ProtocolVersion::V1),
            }),
    {
        FieldSpec {
            name: name.to_owned(),
            kind,
            required: true,
            version: VersionRule::Always(ProtocolVersion::V1),
        }
    }

    /// A field that a tag may lack. It asks for `V1`.
    pub fn optional(name: &str, kind: ValueKind) -> (r: FieldSpec)
        ensures
            r@ == (FieldSpecModel {
                name: name@,
                kind: kind@,
                required: false,
                version: VersionRule::Always(ProtocolVersion::V1),
            }),
    {
        FieldSpec {
            name: name.to_owned(),
            kind,
            required: false,
            version: VersionRule::Always(ProtocolVersion::V1),
        }
    }

    /// The same field with another version rule.
    pub fn with_version(self, version: VersionRule) -> (r: FieldSpec)
        ensures
            r@ == (FieldSpecModel { version, ..self@ }),
    {
        FieldSpec { name: self.name, kind: self.kind, required: self.required, version }
    }
}

/// The mathematical value of a [`FieldSchema`].
pub struct FieldSchemaModel {
    /// The text that every line of the tag begins with.
    pub prefix: Seq<char>,
    /// The version that the tag requires whatever its fields hold.
    pub baseline: ProtocolVersion,
    /// The fields, in the order in which they are written.
    pub fields: Seq<FieldSpecModel>,
}

impl FieldSchemaModel {
    /// Whether some field is named `name`.
    pub open spec fn has_field(self, name: Seq<char>) -> bool {
        exists|i: int| 0 <= i < self.fields.len() && (#[trigger] self.fields[i]).name == name
    }

    /// A schema is well formed where each field has an attribute name for its
    /// name, and no two fields have the same.
    pub open spec fn wf(self) -> bool {
        &&& forall|i: int| 0 <= i < self.fields.len() ==> is_name((#[trigger] self.fields[i]).name)
        &&& forall|i: int, j: int|
            0 <= i < j < self.fields.len() ==> (#[trigger] self.fields[i]).name != (
            #[trigger] self.fields[j]).name
    }

    /// The schema with `field` as its last field.
    pub open spec fn with_field(self, field: FieldSpecModel) -> FieldSchemaModel {
        FieldSchemaModel { fields: self.fields.push(field), ..self }
    }
}

/// The schema of one kind of tag: its prefix, the version it requires of
/// itself, and its fields in the order in which they are written.
#[derive(Debug, PartialEq, Eq)]
pub struct FieldSchema {
    prefix: String,
    baseline: ProtocolVersion,
    fields: Vec<FieldSpec>,
}

impl View for FieldSchema {
    type V = FieldSchemaModel;

    closed spec fn view(&self) -> FieldSchemaModel {
        FieldSchemaModel {
            prefix: self.prefix@,
            baseline: self.baseline,
            fields: Seq::new(self.fields@.len(), |i: int| self.fields@[i]@),
        }
    }
}

impl FieldSchema {
    #[verifier::type_invariant]
    pub open spec fn well_formed(self) -> bool {
        self@.wf()
    }

    /// The schema of a tag without fields.
    pub fn new(prefix: &str, baseline: ProtocolVersion) -> (r: FieldSchema)
        ensures
            r@ == (FieldSchemaModel { prefix: prefix@, baseline, fields: Seq::empty() }),
    {
        let r = FieldSchema { prefix: prefix.to_owned(), baseline, fields: Vec::new() };
        assert(r@.fields =~= Seq::empty());
        r
    }

    /// The position of the field named `name`, if the schema has one.
    pub fn position(&self, name: &str) -> (r: Option<usize>)
        ensures
            r matches Some(i) ==> i < self@.fields.len() && self@.fields[i as int].name == name@,
            r is None ==> !self@.has_field(name@),
    {
        let owned = name.to_owned();
        let mut i: usize = 0;
        while i < self.fields.len()
            invariant
                i <= self.fields.len(),
                self.fields@.len() == self@.fields.len(),
                owned@ == name@,
                forall|j: int| 0 <= j < i ==> (#[trigger] self@.fields[j]).name != name@,
            decreases self.fields.len() - i,
        {
            if self.fields[i].name == owned {
                assert(self@.fields[i as int].name == name@);
                return Some(i);
            }
            i += 1;
        }
        None
    }

    /// Whether a field of the schema is named `name`.
    pub fn has_field(&self, name: &str) -> (r: bool)
        ensures
            r == self@.has_field(name@),
    {
        self.position(name).is_some()
    }

    /// The schema with `field` added behind the fields it has. There is none
    /// where the field's name is no attribute name, or is taken.
    pub fn with_field(self, field: FieldSpec) -> (r: Option<FieldSchema>)
        ensures
            r is Some == (is_name(field@.name) && !self@.has_field(field@.name)),
            r matches Some(s) ==> s@ == self@.with_field(field@),
    {
        proof {
            use_type_invariant(&self);
        }
        let chars = chars_of(field.name.as_str());
        assert(chars@.subrange(0, chars.len() as int) =~= field@.name);
        if !is_name_run(&chars, 0, chars.len()) || self.has_field(field.name.as_str()) {
            return None;
        }
        let ghost before = self@;
        let ghost added = field@;
        let mut fields = self.fields;
        fields.push(field);
        proof {
            let next = Seq::new(fields@.len(), |i: int| fields@[i]@);
            assert(next =~= before.fields.push(added));
            assert forall|i: int| 0 <= i < next.len() implies is_name((#[trigger] next[i]).name) by {
                if i < before.fields.len() {
                    assert(next[i] == before.fields[i]);
                }
            }
            assert forall|i: int, j: int| 0 <= i < j < next.len() implies (#[trigger] next[i]).name
                != (#[trigger] next[j]).name by {
                assert(next[i] == before.fields[i]);
                if j < before.fields.len() {
                    assert(next[j] == before.fields[j]);
                }
            }
        }
        let r = FieldSchema { prefix: self.prefix, baseline: self.baseline, fields };
        assert(r@.fields =~= before.fields.push(added));
        Some(r)
    }

    /// The text that every line of the tag begins with.
    pub fn prefix(&self) -> (r: &str)
        ensures
            r@ == self@.prefix,
    {
        self.prefix.as_str()
    }

    /// The version that the tag requires whatever its fields hold.
    pub fn baseline(&self) -> (r: ProtocolVersion)
        ensures
            r == self@.baseline,
    {
        self.baseline
    }

    /// The number of fields.
    pub fn len(&self) -> (n: usize)
        ensures
            n == self@.fields.len(),
    {
        self.fields.len()
    }

    /// The field at position `i`, if the schema has that many.
    pub fn get(&self, i: usize) -> (r: Option<&FieldSpec>)
        ensures
            r matches Some(f) ==> i < self@.fields.len() && f@ == self@.fields[i as int],
            r is None ==> i >= self@.fields.len(),
    {
        if i < self.fields.len() {
            Some(&self.fields[i])
        } else {
            None
        }
    }

    /// The field at position `i`.
    pub(crate) fn field(&self, i: usize) -> (r: &FieldSpec)
        requires
            i < self@.fields.len(),
        ensures
            r@ == self@.fields[i as int],
    {
        &self.fields[i]
    }
}

} // verus!
