//! A schema as it is found in source text, before its version bounds are
//! read.

use vstd::prelude::*;

use crate::error::{ErrorKind, SchemaError};
use crate::range::VersionRange;
use crate::schema::{
    annotation_models, copy_annotations, directives, has_duplicate_directive, no_duplicates,
    Annotation, FieldIdentity, FieldModel, FieldSpec, StructModel, StructSpec,
};

verus! {

/// `syn::LitInt`, an integer literal token. Its contents cannot be seen
/// here; the number it stands for goes by the name [`literal_number`].
#[verifier::external_type_specification]
#[verifier::external_body]
pub struct ExLitInt(syn::LitInt);

/// The arguments of one version directive, `from = ..` and the optional
/// `to = ..`, as literal tokens that nobody has read yet.
pub struct VersionedField {
    /// Starting version for field.
    pub from: syn::LitInt,
    /// Last version for field.
    pub to: Option<syn::LitInt>,
}

/// What a field's version directive says about its bounds.
pub enum Bounds {
    /// The field has no version directive.
    Absent,
    /// The field has a version directive, but its arguments are not a
    /// `from` and an optional `to` with an integer literal each.
    Unreadable,
    /// The bounds as literal tokens.
    Given(VersionedField),
}

/// One field as found in source text.
pub struct RawField {
    pub identity: FieldIdentity,
    /// The field's type. It is carried along and never read.
    pub type_descriptor: String,
    /// The field's attributes, version directives included.
    pub annotations: Vec<Annotation>,
    pub bounds: Bounds,
}

/// The number that `syn::LitInt::base10_parse::<usize>` reads from a
/// literal, or `None` where it reads none. The literal holds its digits in
/// base 10, and the call hands them to the standard parser of `usize`, so
/// what it gives depends on the literal alone.
pub uninterp spec fn literal_number(literal: syn::LitInt) -> Option<usize>;

/// Calls `syn::LitInt::base10_parse::<usize>` and keeps the number where
/// there is one. The contract gives the result its name, [`literal_number`],
/// and claims nothing about which number that is, nor about which literals
/// have one.
#[verifier::external_body]
fn literal_value(literal: &syn::LitInt) -> (value: Option<usize>)
    ensures
        value == literal_number(*literal),
{
    literal.base10_parse::<usize>().ok()
}

impl VersionedField {
    /// Puts the two tokens of a directive together.
    pub fn new(from: syn::LitInt, to: Option<syn::LitInt>) -> (raw: VersionedField)
        ensures
            raw.from == from,
            raw.to == to,
    {
        VersionedField { from, to }
    }
}

/// The range that a directive's bounds stand for: what
/// [`VersionRange::spec_from_parsed`] makes of the numbers of its literals.
pub open spec fn spec_extract(raw: VersionedField) -> Result<VersionRange, ErrorKind> {
    VersionRange::spec_from_parsed(
        literal_number(raw.from),
        match raw.to {
            Some(literal) => Some(literal_number(literal)),
            None => None,
        },
    )
}

/// Reads the bounds of a version directive.
///
/// Gives the range of the two numbers, or of the one, and fails with
/// [`ErrorKind::MalformedAnnotation`] where a bound is not a version
/// number. The bounds are not compared with each other: see
/// [`VersionRange::contains`]. Which number a literal stands for is decided
/// by `syn`; what is made of the numbers is [`VersionRange::from_parsed`].
pub fn extract_version_range(raw: &VersionedField) -> (res: Result<VersionRange, ErrorKind>)
    ensures
        res == spec_extract(*raw),
{
    let from = literal_value(&raw.from);
    let to = match &raw.to {
        Some(literal) => Some(literal_value(literal)),
        None => None,
    };
    VersionRange::from_parsed(from, to)
}

impl RawField {
    /// The field that this one becomes when its bounds are read as `range`.
    pub open spec fn with_range(&self, range: Option<VersionRange>) -> FieldModel {
        FieldModel {
            identity: self.identity@,
            type_descriptor: self.type_descriptor@,
            annotations: annotation_models(self.annotations@),
            version_range: range,
        }
    }

    /// Whether the field carries more than one version directive.
    pub open spec fn has_duplicate_directive(&self) -> bool {
        directives(annotation_models(self.annotations@)).len() > 1
    }

    /// The range that the field's bounds stand for: none without a
    /// directive, [`ErrorKind::MalformedAnnotation`] for unreadable bounds,
    /// and for given bounds what [`spec_extract`] says.
    pub open spec fn spec_range(&self) -> Result<Option<VersionRange>, ErrorKind> {
        match self.bounds {
            Bounds::Absent => Ok(None),
            Bounds::Unreadable => Err(ErrorKind::MalformedAnnotation),
            Bounds::Given(raw) => match spec_extract(raw) {
                Ok(range) => Ok(Some(range)),
                Err(kind) => Err(kind),
            },
        }
    }

    /// The field of the schema that this one becomes, where its bounds can
    /// be read.
    pub open spec fn collected(&self) -> FieldModel {
        self.with_range(
            match self.spec_range() {
                Ok(range) => range,
                Err(_) => None,
            },
        )
    }

    /// Reads the field's bounds and builds the field of the schema.
    ///
    /// A field without a directive is always built, and has no range. One
    /// with unreadable bounds is a [`ErrorKind::MalformedAnnotation`]. One
    /// with bounds is built unless a bound is not a version number, which
    /// is a `MalformedAnnotation` too. Apart from the range, the field is a
    /// copy of this one.
    pub fn read(&self) -> (res: Result<FieldSpec, ErrorKind>)
        ensures
            match self.spec_range() {
                Ok(range) => res matches Ok(field) && field@ == self.with_range(range),
                Err(kind) => res matches Err(k) && k == kind,
            },
    {
        let version_range = match &self.bounds {
            Bounds::Absent => None,
            Bounds::Unreadable => {
                return Err(ErrorKind::MalformedAnnotation);
            },
            Bounds::Given(raw) => {
                match extract_version_range(raw) {
                    Ok(range) => Some(range),
                    Err(kind) => {
                        return Err(kind);
                    },
                }
            },
        };
        Ok(
            FieldSpec {
                identity: self.identity.clone(),
                type_descriptor: self.type_descriptor.clone(),
                annotations: copy_annotations(&self.annotations, true),
                version_range,
            },
        )
    }
}

/// Whether the raw field at `index` is the first of `fields` with more than
/// one version directive.
pub open spec fn first_raw_duplicate_at(fields: Seq<RawField>, index: int) -> bool {
    &&& 0 <= index < fields.len()
    &&& fields[index].has_duplicate_directive()
    &&& forall|j: int| 0 <= j < index ==> !(#[trigger] fields[j]).has_duplicate_directive()
}

/// Whether no raw field of `fields` has more than one version directive.
pub open spec fn no_raw_duplicates(fields: Seq<RawField>) -> bool {
    forall|j: int| 0 <= j < fields.len() ==> !(#[trigger] fields[j]).has_duplicate_directive()
}

/// Whether the raw field at `index` is the first of `fields` whose bounds
/// cannot be read.
pub open spec fn first_malformed_at(fields: Seq<RawField>, index: int) -> bool {
    &&& 0 <= index < fields.len()
    &&& fields[index].spec_range() is Err
    &&& forall|j: int| 0 <= j < index ==> (#[trigger] fields[j]).spec_range() is Ok
}

/// Whether the bounds of every raw field of `fields` can be read.
pub open spec fn all_readable(fields: Seq<RawField>) -> bool {
    forall|j: int| 0 <= j < fields.len() ==> (#[trigger] fields[j]).spec_range() is Ok
}

/// The schema that `name` and `fields` give once the bounds are read: the
/// same name, and field by field the same identity, type and annotations,
/// with the range that the bounds stand for.
pub open spec fn collected(name: Seq<char>, fields: Seq<RawField>) -> StructModel {
    StructModel { name, fields: fields.map_values(|f: RawField| f.collected()) }
}

/// Builds a schema from a struct as found in source text.
///
/// First every field's version directives are counted: the first field with
/// more than one is reported as [`ErrorKind::DuplicateAnnotation`], before
/// any bound is read. Then the bounds are read field by field, and the first
/// field whose bounds are unreadable, or hold a literal that is not a
/// version number, is reported as [`ErrorKind::MalformedAnnotation`]. In
/// every other case the result is the schema, which then has no field with
/// more than one directive either.
pub fn collect(name: &str, fields: &Vec<RawField>) -> (res: Result<StructSpec, SchemaError>)
    ensures
        match res {
            Ok(schema) => {
                &&& no_raw_duplicates(fields@)
                &&& all_readable(fields@)
                &&& schema@ == collected(name@, fields@)
                &&& no_duplicates(schema@.fields)
            },
            Err(error) => {
                ||| {
                    &&& error.kind == ErrorKind::DuplicateAnnotation
                    &&& first_raw_duplicate_at(fields@, error.field as int)
                }
                ||| {
                    &&& error.kind == ErrorKind::MalformedAnnotation
                    &&& no_raw_duplicates(fields@)
                    &&& first_malformed_at(fields@, error.field as int)
                }
            },
        },
{
    let mut i: usize = 0;
    while i < fields.len()
        invariant
            i <= fields.len(),
            forall|j: int| 0 <= j < i ==> !(#[trigger] fields@[j]).has_duplicate_directive(),
        decreases fields.len() - i,
    {
        if has_duplicate_directive(&fields[i].annotations) {
            return Err(SchemaError { kind: ErrorKind::DuplicateAnnotation, field: i });
        }
        i += 1;
    }
    let mut read: Vec<FieldSpec> = Vec::new();
    let mut i: usize = 0;
    while i < fields.len()
        invariant
            i <= fields.len(),
            no_raw_duplicates(fields@),
            read@.len() == i,
            forall|j: int| 0 <= j < i ==> (#[trigger] fields@[j]).spec_range() is Ok,
            forall|j: int| 0 <= j < i ==> (#[trigger] read@[j])@ == fields@[j].collected(),
        decreases fields.len() - i,
    {
        match fields[i].read() {
            Ok(field) => {
                read.push(field);
            },
            Err(kind) => {
                return Err(SchemaError { kind, field: i });
            },
        }
        i += 1;
    }
    let schema = StructSpec { name: name.to_owned(), fields: read };
    assert(schema@.fields == collected(name@, fields@).fields);
    assert forall|j: int| 0 <= j < schema@.fields.len() implies !(
    #[trigger] schema@.fields[j]).has_duplicate_directive() by {
        assert(schema@.fields[j] == fields@[j].collected());
        assert(!fields@[j].has_duplicate_directive());
    }
    Ok(schema)
}

} // verus!
