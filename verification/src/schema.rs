//! The schema: a named struct with its fields in declaration order.
//!
//! Each exec type has a view, a mathematical copy of it in which strings are
//! sequences of characters and vectors are sequences. The contracts of this
//! crate are stated over those views.

use vstd::prelude::*;

use crate::range::VersionRange;

verus! {

/// The name under which a field's version directive is written.
pub const FIELD_ATTR_NAME: &'static str = "versioned_field";

/// One attribute attached to a field.
#[derive(Debug, PartialEq, Eq)]
pub struct Annotation {
    /// The segments of the attribute's path, in order.
    pub path: Vec<String>,
    /// Whatever follows the path. It is carried along and never read.
    pub tokens: String,
}

/// How a field is told apart from its neighbours.
#[derive(Debug, PartialEq, Eq)]
pub enum FieldIdentity {
    /// The name of a field of a struct with named fields.
    Named(String),
    /// The position of a field of a tuple struct.
    Positional(usize),
}

/// One field of a schema.
///
/// The range says in which versions the field exists. The version directive
/// from which it was read is still among the annotations; both are gone from
/// the fields of a derived variant.
#[derive(Debug, PartialEq, Eq)]
pub struct FieldSpec {
    pub identity: FieldIdentity,
    /// The field's type. It is carried along and never read.
    pub type_descriptor: String,
    /// The field's attributes, version directives included.
    pub annotations: Vec<Annotation>,
    /// The versions in which the field exists; `None` for every version.
    pub version_range: Option<VersionRange>,
}

/// A struct definition: the unit from which variants are derived.
#[derive(Debug, PartialEq, Eq)]
pub struct StructSpec {
    pub name: String,
    pub fields: Vec<FieldSpec>,
}

/// View of an [`Annotation`].
pub struct AnnotationModel {
    pub path: Seq<Seq<char>>,
    pub tokens: Seq<char>,
}

/// View of a [`FieldIdentity`].
pub enum IdentityModel {
    Named(Seq<char>),
    Positional(usize),
}

/// View of a [`FieldSpec`].
pub struct FieldModel {
    pub identity: IdentityModel,
    pub type_descriptor: Seq<char>,
    pub annotations: Seq<AnnotationModel>,
    pub version_range: Option<VersionRange>,
}

/// View of a [`StructSpec`].
pub struct StructModel {
    pub name: Seq<char>,
    pub fields: Seq<FieldModel>,
}

/// The views of a sequence of annotations, one by one.
pub open spec fn annotation_models(annotations: Seq<Annotation>) -> Seq<AnnotationModel> {
    annotations.map_values(|a: Annotation| a@)
}

/// The views of a sequence of fields, one by one.
pub open spec fn field_models(fields: Seq<FieldSpec>) -> Seq<FieldModel> {
    fields.map_values(|f: FieldSpec| f@)
}

impl View for Annotation {
    type V = AnnotationModel;

    open spec fn view(&self) -> AnnotationModel {
        AnnotationModel { path: self.path@.map_values(|s: String| s@), tokens: self.tokens@ }
    }
}

impl View for FieldIdentity {
    type V = IdentityModel;

    open spec fn view(&self) -> IdentityModel {
        match self {
            FieldIdentity::Named(name) => IdentityModel::Named(name@),
            FieldIdentity::Positional(position) => IdentityModel::Positional(*position),
        }
    }
}

impl View for FieldSpec {
    type V = FieldModel;

    open spec fn view(&self) -> FieldModel {
        FieldModel {
            identity: self.identity@,
            type_descriptor: self.type_descriptor@,
            annotations: annotation_models(self.annotations@),
            version_range: self.version_range,
        }
    }
}

impl View for StructSpec {
    type V = StructModel;

    open spec fn view(&self) -> StructModel {
        StructModel { name: self.name@, fields: field_models(self.fields@) }
    }
}

impl AnnotationModel {
    /// Whether the attribute is a version directive: its path starts with
    /// [`FIELD_ATTR_NAME`].
    pub open spec fn is_version_directive(self) -> bool {
        self.path.len() > 0 && self.path[0] == FIELD_ATTR_NAME@
    }
}

/// The attributes of `annotations` that are no version directives, in order.
pub open spec fn without_directives(annotations: Seq<AnnotationModel>) -> Seq<AnnotationModel> {
    annotations.filter(|a: AnnotationModel| !a.is_version_directive())
}

/// The version directives among `annotations`, in order.
pub open spec fn directives(annotations: Seq<AnnotationModel>) -> Seq<AnnotationModel> {
    annotations.filter(|a: AnnotationModel| a.is_version_directive())
}

impl FieldModel {
    /// Whether the field carries more than one version directive.
    pub open spec fn has_duplicate_directive(self) -> bool {
        directives(self.annotations).len() > 1
    }

    /// Whether the field has a range that ends before it starts.
    pub open spec fn has_invalid_range(self) -> bool {
        self.version_range matches Some(range) && !range.is_valid()
    }

    /// Whether no bound of the field's range exceeds `version`.
    pub open spec fn bounded_by(self, version: int) -> bool {
        self.version_range matches Some(range) ==> range.from <= version && (range.to matches Some(
            to,
        ) ==> to <= version)
    }

    /// Whether `version` is the larger bound of the field's range.
    pub open spec fn reaches(self, version: int) -> bool {
        self.version_range matches Some(range) && range.spec_highest() == version
    }

    /// Whether the field exists in `version`: it has no range, or its range
    /// covers the version.
    pub open spec fn present_in(self, version: int) -> bool {
        self.version_range matches Some(range) ==> range.covers(version)
    }

    /// The field as it stands in a derived variant: without range and without
    /// version directives, and otherwise unchanged.
    pub open spec fn stripped(self) -> FieldModel {
        FieldModel {
            identity: self.identity,
            type_descriptor: self.type_descriptor,
            annotations: without_directives(self.annotations),
            version_range: None,
        }
    }
}

/// Whether the field at `index` is the first of `fields` with more than one
/// version directive.
pub open spec fn first_duplicate_at(fields: Seq<FieldModel>, index: int) -> bool {
    &&& 0 <= index < fields.len()
    &&& fields[index].has_duplicate_directive()
    &&& forall|j: int| 0 <= j < index ==> !(#[trigger] fields[j]).has_duplicate_directive()
}

/// Whether no field of `fields` has more than one version directive.
pub open spec fn no_duplicates(fields: Seq<FieldModel>) -> bool {
    forall|j: int| 0 <= j < fields.len() ==> !(#[trigger] fields[j]).has_duplicate_directive()
}

/// Whether the field at `index` is the first of `fields` whose range ends
/// before it starts.
pub open spec fn first_invalid_range_at(fields: Seq<FieldModel>, index: int) -> bool {
    &&& 0 <= index < fields.len()
    &&& fields[index].has_invalid_range()
    &&& forall|j: int| 0 <= j < index ==> !(#[trigger] fields[j]).has_invalid_range()
}

/// Whether every range in `fields` starts no later than it ends.
pub open spec fn all_ranges_valid(fields: Seq<FieldModel>) -> bool {
    forall|j: int| 0 <= j < fields.len() ==> !(#[trigger] fields[j]).has_invalid_range()
}

/// Check if an attribute is a version directive.
pub fn is_version_attribute(annotation: &Annotation) -> (res: bool)
    ensures
        res == annotation@.is_version_directive(),
{
    if annotation.path.len() == 0 {
        false
    } else {
        let expected = FIELD_ATTR_NAME.to_owned();
        annotation.path[0] == expected
    }
}

impl Clone for Annotation {
    fn clone(&self) -> (res: Annotation)
        ensures
            res@ == self@,
    {
        let mut path: Vec<String> = Vec::new();
        let mut i: usize = 0;
        while i < self.path.len()
            invariant
                i <= self.path.len(),
                path@ == self.path@.take(i as int),
            decreases self.path.len() - i,
        {
            path.push(self.path[i].clone());
            assert(self.path@.take(i + 1) == self.path@.take(i as int).push(self.path@[i as int]));
            i += 1;
        }
        assert(self.path@.take(i as int) == self.path@);
        Annotation { path, tokens: self.tokens.clone() }
    }
}

impl Clone for FieldIdentity {
    fn clone(&self) -> (res: FieldIdentity)
        ensures
            res@ == self@,
    {
        match self {
            FieldIdentity::Named(name) => FieldIdentity::Named(name.clone()),
            FieldIdentity::Positional(position) => FieldIdentity::Positional(*position),
        }
    }
}

/// What one more element adds to a filtered prefix.
pub proof fn lemma_filter_next<A>(s: Seq<A>, pred: spec_fn(A) -> bool, i: int)
    requires
        0 <= i < s.len(),
    ensures
        s.take(i + 1).filter(pred) == if pred(s[i]) {
            s.take(i).filter(pred).push(s[i])
        } else {
            s.take(i).filter(pred)
        },
{
    reveal(Seq::filter);
    assert(s.take(i + 1).drop_last() == s.take(i));
}

/// Copies `annotations`, all of them or all but the version directives.
pub fn copy_annotations(annotations: &Vec<Annotation>, keep_directives: bool) -> (res: Vec<Annotation>)
    ensures
        annotation_models(res@) == if keep_directives {
            annotation_models(annotations@)
        } else {
            without_directives(annotation_models(annotations@))
        },
{
    let ghost source = annotation_models(annotations@);
    let ghost wanted = |a: AnnotationModel| !a.is_version_directive();
    let mut res: Vec<Annotation> = Vec::new();
    let mut i: usize = 0;
    assert(source.take(0).filter(wanted) == Seq::<AnnotationModel>::empty()) by {
        reveal(Seq::filter);
    }
    while i < annotations.len()
        invariant
            i <= annotations.len(),
            source == annotation_models(annotations@),
            wanted == |a: AnnotationModel| !a.is_version_directive(),
            annotation_models(res@) == if keep_directives {
                source.take(i as int)
            } else {
                source.take(i as int).filter(wanted)
            },
        decreases annotations.len() - i,
    {
        let annotation = &annotations[i];
        proof {
            lemma_filter_next(source, wanted, i as int);
            assert(source.take(i + 1) == source.take(i as int).push(source[i as int]));
        }
        if keep_directives || !is_version_attribute(annotation) {
            let ghost before = res@;
            let copy = annotation.clone();
            res.push(copy);
            assert(annotation_models(res@) == annotation_models(before).push(copy@));
        }
        i += 1;
    }
    assert(source.take(i as int) == source);
    res
}

/// Whether more than one of `annotations` is a version directive.
pub fn has_duplicate_directive(annotations: &Vec<Annotation>) -> (res: bool)
    ensures
        res == (directives(annotation_models(annotations@)).len() > 1),
{
    let ghost source = annotation_models(annotations@);
    let ghost wanted = |a: AnnotationModel| a.is_version_directive();
    let mut count: usize = 0;
    let mut i: usize = 0;
    assert(source.take(0).filter(wanted).len() == 0) by {
        reveal(Seq::filter);
    }
    while i < annotations.len()
        invariant
            i <= annotations.len(),
            source == annotation_models(annotations@),
            wanted == |a: AnnotationModel| a.is_version_directive(),
            count == source.take(i as int).filter(wanted).len(),
            count <= i,
        decreases annotations.len() - i,
    {
        proof {
            lemma_filter_next(source, wanted, i as int);
        }
        if is_version_attribute(&annotations[i]) {
            count += 1;
        }
        i += 1;
    }
    assert(source.take(i as int) == source);
    count > 1
}

impl FieldSpec {
    /// The field as it stands in a derived variant: a copy that has lost its
    /// range and its version directives.
    pub fn stripped(&self) -> (res: FieldSpec)
        ensures
            res@ == self@.stripped(),
    {
        FieldSpec {
            identity: self.identity.clone(),
            type_descriptor: self.type_descriptor.clone(),
            annotations: copy_annotations(&self.annotations, false),
            version_range: None,
        }
    }
}

impl Clone for FieldSpec {
    fn clone(&self) -> (res: FieldSpec)
        ensures
            res@ == self@,
    {
        FieldSpec {
            identity: self.identity.clone(),
            type_descriptor: self.type_descriptor.clone(),
            annotations: copy_annotations(&self.annotations, true),
            version_range: self.version_range,
        }
    }
}

impl Clone for StructSpec {
    fn clone(&self) -> (res: StructSpec)
        ensures
            res@ == self@,
    {
        let mut fields: Vec<FieldSpec> = Vec::new();
        let mut i: usize = 0;
        while i < self.fields.len()
            invariant
                i <= self.fields.len(),
                field_models(fields@) == field_models(self.fields@).take(i as int),
            decreases self.fields.len() - i,
        {
            let ghost before = fields@;
            let copy = self.fields[i].clone();
            fields.push(copy);
            assert(field_models(fields@) == field_models(before).push(copy@));
            assert(field_models(self.fields@).take(i + 1) == field_models(self.fields@).take(
                i as int,
            ).push(self.fields@[i as int]@));
            i += 1;
        }
        assert(field_models(self.fields@).take(i as int) == field_models(self.fields@));
        StructSpec { name: self.name.clone(), fields }
    }
}

} // verus!
