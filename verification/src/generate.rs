//! The shape of a schema in one version.

use vstd::prelude::*;

use crate::decimal::{decimal, decimal_string};
use crate::error::{ErrorKind, SchemaError};
use crate::schema::{
    all_ranges_valid, field_models, first_invalid_range_at, lemma_filter_next, FieldModel,
    FieldSpec, StructModel, StructSpec,
};

verus! {

/// The letter between a schema's name and a version number.
pub const VERSION_MARK: &'static str = "V";

/// The name of the variant for `version`: the schema's own name for the
/// highest version, and for any other the name, a `V` and the version in
/// decimal notation.
pub open spec fn variant_name(name: Seq<char>, max_version: int, version: int) -> Seq<char> {
    if version == max_version {
        name
    } else {
        name + seq!['V'] + decimal(version as nat)
    }
}

/// The fields of the variant for `version`: those that exist in it, in the
/// order of the schema, each without its range and version directives.
pub open spec fn variant_fields(fields: Seq<FieldModel>, version: int) -> Seq<FieldModel> {
    fields.filter(|f: FieldModel| f.present_in(version)).map_values(|f: FieldModel| f.stripped())
}

/// The variant of `schema` for `version`, where `max_version` is the highest
/// version.
pub open spec fn variant_of(schema: StructModel, max_version: int, version: int) -> StructModel {
    StructModel {
        name: variant_name(schema.name, max_version, version),
        fields: variant_fields(schema.fields, version),
    }
}

/// What the field at `i` adds to the variant fields of those before it.
pub proof fn lemma_variant_fields_next(fields: Seq<FieldModel>, version: int, i: int)
    requires
        0 <= i < fields.len(),
    ensures
        variant_fields(fields.take(i + 1), version) == if fields[i].present_in(version) {
            variant_fields(fields.take(i), version).push(fields[i].stripped())
        } else {
            variant_fields(fields.take(i), version)
        },
{
    lemma_filter_next(fields, |f: FieldModel| f.present_in(version), i);
}

/// Builds the name of the variant for `version`.
pub fn name_variant(name: &String, max_version: usize, version: usize) -> (res: String)
    ensures
        res@ == variant_name(name@, max_version as int, version as int),
{
    let mut res = name.clone();
    if version != max_version {
        proof {
            reveal_strlit("V");
        }
        res.append(VERSION_MARK);
        let number = decimal_string(version);
        res.append(number.as_str());
        assert("V"@ == seq!['V']);
    }
    res
}

/// Derives the shape of `spec` in `target_version`.
///
/// The variant keeps the fields that exist in `target_version`, in their
/// order, without range and version directives. It bears the name of `spec`
/// if `target_version` is `max_version`, else that name with `V` and the
/// version number behind it.
///
/// Every range is tested, and this is where one that ends before it starts
/// is found: the first such field is reported as
/// [`ErrorKind::InvalidRange`], whatever the target version, and no variant
/// is derived.
pub fn generate(spec: &StructSpec, max_version: usize, target_version: usize) -> (res: Result<
    StructSpec,
    SchemaError,
>)
    ensures
        match res {
            Ok(variant) => {
                &&& all_ranges_valid(spec@.fields)
                &&& variant@ == variant_of(spec@, max_version as int, target_version as int)
            },
            Err(error) => {
                &&& error.kind == ErrorKind::InvalidRange
                &&& first_invalid_range_at(spec@.fields, error.field as int)
            },
        },
{
    let ghost source = field_models(spec.fields@);
    let ghost version = target_version as int;
    let mut fields: Vec<FieldSpec> = Vec::new();
    let mut i: usize = 0;
    assert(variant_fields(source.take(0), version) == Seq::<FieldModel>::empty()) by {
        reveal(Seq::filter);
    }
    while i < spec.fields.len()
        invariant
            i <= spec.fields.len(),
            source == field_models(spec.fields@),
            version == target_version as int,
            field_models(fields@) == variant_fields(source.take(i as int), version),
            forall|j: int| 0 <= j < i ==> !(#[trigger] source[j]).has_invalid_range(),
        decreases spec.fields.len() - i,
    {
        let field = &spec.fields[i];
        proof {
            lemma_variant_fields_next(source, version, i as int);
        }
        let present = match &field.version_range {
            Some(range) => match range.contains(target_version) {
                Ok(present) => present,
                Err(kind) => {
                    return Err(SchemaError { kind, field: i });
                },
            },
            None => true,
        };
        if present {
            let ghost before = fields@;
            let kept = field.stripped();
            fields.push(kept);
            assert(field_models(fields@) == field_models(before).push(kept@));
        }
        i += 1;
    }
    assert(source.take(i as int) == source);
    Ok(StructSpec { name: name_variant(&spec.name, max_version, target_version), fields })
}

} // verus!
