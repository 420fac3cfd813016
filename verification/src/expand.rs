//! All variants of a schema.

use vstd::prelude::*;

use crate::error::{ErrorKind, SchemaError};
use crate::generate::{generate, variant_of};
use crate::resolve::{lemma_max_version_is_least_bound, max_version, resolve};
use crate::schema::{
    all_ranges_valid, first_duplicate_at, first_invalid_range_at, has_duplicate_directive,
    no_duplicates, StructModel, StructSpec,
};

verus! {

/// The shape of a schema in one version.
#[derive(Debug, PartialEq, Eq)]
pub struct GeneratedVariant {
    pub version: usize,
    /// The variant, which shares nothing with the schema or with other
    /// variants.
    pub struct_spec: StructSpec,
}

/// View of a [`GeneratedVariant`].
pub struct VariantModel {
    pub version: int,
    pub struct_spec: StructModel,
}

impl View for GeneratedVariant {
    type V = VariantModel;

    open spec fn view(&self) -> VariantModel {
        VariantModel { version: self.version as int, struct_spec: self.struct_spec@ }
    }
}

impl Clone for GeneratedVariant {
    fn clone(&self) -> (res: GeneratedVariant)
        ensures
            res@ == self@,
    {
        GeneratedVariant { version: self.version, struct_spec: self.struct_spec.clone() }
    }
}

/// The views of a sequence of variants, one by one.
pub open spec fn variant_models(variants: Seq<GeneratedVariant>) -> Seq<VariantModel> {
    variants.map_values(|v: GeneratedVariant| v@)
}

/// The variants of `schema`: one for each version from 1 to the highest, in
/// that order.
pub open spec fn expansion(schema: StructModel) -> Seq<VariantModel> {
    let max = max_version(schema.fields);
    Seq::new(
        max as nat,
        |k: int| VariantModel { version: k + 1, struct_spec: variant_of(schema, max, k + 1) },
    )
}

/// Checks that no field carries more than one version directive, and
/// reports the first that does as [`ErrorKind::DuplicateAnnotation`].
pub fn check_annotations(spec: &StructSpec) -> (res: Result<(), SchemaError>)
    ensures
        match res {
            Ok(_) => no_duplicates(spec@.fields),
            Err(error) => {
                &&& error.kind == ErrorKind::DuplicateAnnotation
                &&& first_duplicate_at(spec@.fields, error.field as int)
            },
        },
{
    let mut i: usize = 0;
    while i < spec.fields.len()
        invariant
            i <= spec.fields.len(),
            forall|j: int| 0 <= j < i ==> !(#[trigger] spec@.fields[j]).has_duplicate_directive(),
        decreases spec.fields.len() - i,
    {
        if has_duplicate_directive(&spec.fields[i].annotations) {
            return Err(SchemaError { kind: ErrorKind::DuplicateAnnotation, field: i });
        }
        i += 1;
    }
    Ok(())
}

/// Derives every variant of `spec`, in ascending order of version.
///
/// First the version directives are counted, then the highest version is
/// found, then one variant is derived for each version. The first field
/// with more than one directive is reported as
/// [`ErrorKind::DuplicateAnnotation`]; if there is none, the first field
/// whose range ends before it starts is reported as
/// [`ErrorKind::InvalidRange`]; if there is none either, the result is the
/// full list of variants. There is never a partial list.
pub fn expand(spec: &StructSpec) -> (res: Result<Vec<GeneratedVariant>, SchemaError>)
    ensures
        match res {
            Ok(variants) => {
                &&& no_duplicates(spec@.fields)
                &&& all_ranges_valid(spec@.fields)
                &&& variant_models(variants@) == expansion(spec@)
            },
            Err(error) => {
                ||| {
                    &&& error.kind == ErrorKind::DuplicateAnnotation
                    &&& first_duplicate_at(spec@.fields, error.field as int)
                }
                ||| {
                    &&& error.kind == ErrorKind::InvalidRange
                    &&& no_duplicates(spec@.fields)
                    &&& first_invalid_range_at(spec@.fields, error.field as int)
                }
            },
        },
{
    match check_annotations(spec) {
        Ok(_) => {},
        Err(error) => {
            return Err(error);
        },
    }
    let max = resolve(spec);
    proof {
        lemma_max_version_is_least_bound(spec@.fields);
    }
    let mut variants: Vec<GeneratedVariant> = Vec::new();
    let mut done: usize = 0;
    while done < max
        invariant
            done <= max,
            max >= 1,
            max == max_version(spec@.fields),
            no_duplicates(spec@.fields),
            done > 0 ==> all_ranges_valid(spec@.fields),
            variant_models(variants@) == expansion(spec@).take(done as int),
        decreases max - done,
    {
        let version = done + 1;
        match generate(spec, max, version) {
            Ok(struct_spec) => {
                let ghost before = variants@;
                let variant = GeneratedVariant { version, struct_spec };
                variants.push(variant);
                assert(variant_models(variants@) == variant_models(before).push(variant@));
                assert(expansion(spec@).take(version as int) == expansion(spec@).take(
                    done as int,
                ).push(expansion(spec@)[done as int]));
            },
            Err(error) => {
                return Err(error);
            },
        }
        done = version;
    }
    assert(expansion(spec@).take(done as int) == expansion(spec@));
    Ok(variants)
}

} // verus!
