//! What holds of every schema and its variants.
//!
//! The statements are about the views, in the terms in which the contracts of
//! [`crate::resolve()`], [`crate::generate()`] and [`crate::expand()`] are
//! written, so each of them is a statement about what those functions return.

use vstd::prelude::*;

use crate::decimal::{decimal, lemma_decimal_injective, lemma_decimal_nonempty};
use crate::expand::expansion;
use crate::generate::{variant_fields, variant_name};
use crate::resolve::{lemma_max_version_is_least_bound, max_version};
use crate::schema::{without_directives, FieldModel, StructModel};

verus! {

/// The positions, in ascending order, of the fields of `fields` that exist
/// in `version`.
pub open spec fn kept_indices(fields: Seq<FieldModel>, version: int) -> Seq<int>
    decreases fields.len(),
{
    if fields.len() == 0 {
        Seq::empty()
    } else {
        let front = kept_indices(fields.drop_last(), version);
        if fields.last().present_in(version) {
            front.push(fields.len() - 1)
        } else {
            front
        }
    }
}

/// A schema has as many variants as its highest version says, and the
/// variant at position `k` is the one for version `k + 1`: the versions run
/// from 1 to the highest without gap or repeat.
pub proof fn lemma_one_variant_per_version(schema: StructModel)
    ensures
        expansion(schema).len() == max_version(schema.fields),
        expansion(schema).len() >= 1,
        forall|k: int|
            0 <= k < expansion(schema).len() ==> (#[trigger] expansion(schema)[k]).version == k
                + 1,
{
    lemma_max_version_is_least_bound(schema.fields);
}

/// A name with a version suffix differs from the bare name, and two suffixed
/// names differ where the versions do.
pub proof fn lemma_variant_names_differ(name: Seq<char>, max_version: int, a: int, b: int)
    requires
        0 <= a,
        0 <= b,
        a != b,
    ensures
        variant_name(name, max_version, a) != variant_name(name, max_version, b),
{
    let mark = seq!['V'];
    let name_a = variant_name(name, max_version, a);
    let name_b = variant_name(name, max_version, b);
    lemma_decimal_nonempty(a as nat);
    lemma_decimal_nonempty(b as nat);
    if a == max_version {
        assert(name_b.len() == name.len() + 1 + decimal(b as nat).len());
    } else if b == max_version {
        assert(name_a.len() == name.len() + 1 + decimal(a as nat).len());
    } else {
        if name_a == name_b {
            let start = name.len() + 1;
            assert(name_a.skip(start as int) == decimal(a as nat));
            assert(name_b.skip(start as int) == decimal(b as nat));
            lemma_decimal_injective(a as nat, b as nat);
        }
    }
}

/// The variant for the highest version bears the schema's name, every other
/// variant bears that name with `V` and its version number behind it, and no
/// two variants of a schema bear the same name.
pub proof fn lemma_variant_names(schema: StructModel)
    ensures
        forall|k: int|
            0 <= k < expansion(schema).len() ==> (#[trigger] expansion(schema)[k]).struct_spec.name
                == if k + 1 == max_version(schema.fields) {
                schema.name
            } else {
                schema.name + seq!['V'] + decimal((k + 1) as nat)
            },
        expansion(schema).last().struct_spec.name == schema.name,
        forall|j: int, k: int|
            0 <= j < k < expansion(schema).len() ==> (#[trigger] expansion(
                schema,
            )[j]).struct_spec.name != (#[trigger] expansion(schema)[k]).struct_spec.name,
{
    let max = max_version(schema.fields);
    lemma_max_version_is_least_bound(schema.fields);
    assert forall|j: int, k: int| 0 <= j < k < expansion(schema).len() implies (#[trigger] expansion(
        schema,
    )[j]).struct_spec.name != (#[trigger] expansion(schema)[k]).struct_spec.name by {
        lemma_variant_names_differ(schema.name, max, j + 1, k + 1);
    }
}

/// The fields of a variant are fields of the schema in their order there:
/// the variant's field at position `k` is the schema's field at position
/// `kept_indices(..)[k]`, stripped, and those positions ascend. Exactly the
/// positions of the fields that exist in the version are among them.
pub proof fn lemma_fields_keep_order(fields: Seq<FieldModel>, version: int)
    ensures
        kept_indices(fields, version).len() == variant_fields(fields, version).len(),
        forall|k: int|
            0 <= k < kept_indices(fields, version).len() ==> {
                let i = #[trigger] kept_indices(fields, version)[k];
                &&& 0 <= i < fields.len()
                &&& fields[i].present_in(version)
                &&& variant_fields(fields, version)[k] == fields[i].stripped()
            },
        forall|k: int, l: int|
            0 <= k < l < kept_indices(fields, version).len() ==> (#[trigger] kept_indices(
                fields,
                version,
            )[k]) < (#[trigger] kept_indices(fields, version)[l]),
        forall|i: int|
            0 <= i < fields.len() && (#[trigger] fields[i]).present_in(version) ==> kept_indices(
                fields,
                version,
            ).contains(i),
    decreases fields.len(),
{
    reveal(Seq::filter);
    let present = |f: FieldModel| f.present_in(version);
    let idx = kept_indices(fields, version);
    let out = variant_fields(fields, version);
    if fields.len() > 0 {
        let front = fields.drop_last();
        let front_idx = kept_indices(front, version);
        let front_out = variant_fields(front, version);
        lemma_fields_keep_order(front, version);
        assert(fields.filter(present) == if present(fields.last()) {
            front.filter(present).push(fields.last())
        } else {
            front.filter(present)
        });
        if fields.last().present_in(version) {
            assert(out == front_out.push(fields.last().stripped()));
            assert(idx == front_idx.push(fields.len() - 1));
        } else {
            assert(out == front_out);
        }
        assert forall|k: int| 0 <= k < idx.len() implies {
            let i = #[trigger] idx[k];
            &&& 0 <= i < fields.len()
            &&& fields[i].present_in(version)
            &&& out[k] == fields[i].stripped()
        } by {
            if k < front_idx.len() {
                assert(idx[k] == front_idx[k]);
                assert(front[front_idx[k]] == fields[front_idx[k]]);
            }
        }
        assert forall|k: int, l: int| 0 <= k < l < idx.len() implies (#[trigger] idx[k]) < (
        #[trigger] idx[l]) by {
            assert(idx[k] == front_idx[k]);
            if l < front_idx.len() {
                assert(idx[l] == front_idx[l]);
            }
        }
        assert forall|i: int| 0 <= i < fields.len() && (#[trigger] fields[i]).present_in(
            version,
        ) implies idx.contains(i) by {
            if i < front.len() {
                assert(front[i] == fields[i]);
                assert(front_idx.contains(i));
                let k = choose|k: int| 0 <= k < front_idx.len() && front_idx[k] == i;
                assert(idx[k] == i);
            } else {
                assert(idx[idx.len() - 1] == i);
            }
        }
    }
}

/// Whether the schema's field at position `i` is among the fields of the
/// variant for `version`.
pub open spec fn appears_in(fields: Seq<FieldModel>, i: int, version: int) -> bool {
    kept_indices(fields, version).contains(i)
}

/// A field of the schema appears in a variant if and only if it exists in
/// the variant's version.
pub proof fn lemma_appears_iff_present(fields: Seq<FieldModel>, i: int, version: int)
    requires
        0 <= i < fields.len(),
    ensures
        appears_in(fields, i, version) <==> fields[i].present_in(version),
{
    lemma_fields_keep_order(fields, version);
    if appears_in(fields, i, version) {
        let k = choose|k: int|
            0 <= k < kept_indices(fields, version).len() && kept_indices(fields, version)[k] == i;
        assert(fields[kept_indices(fields, version)[k]].present_in(version));
    }
}

/// A field without a range appears in every variant.
pub proof fn lemma_unconditional_field_in_every_variant(schema: StructModel, i: int)
    requires
        0 <= i < schema.fields.len(),
        schema.fields[i].version_range is None,
    ensures
        forall|version: int| #[trigger] appears_in(schema.fields, i, version),
        forall|k: int|
            0 <= k < expansion(schema).len() ==> (#[trigger] expansion(
                schema,
            )[k]).struct_spec.fields.contains(schema.fields[i].stripped()),
{
    assert forall|version: int| #[trigger] appears_in(schema.fields, i, version) by {
        lemma_appears_iff_present(schema.fields, i, version);
    }
    assert forall|k: int| 0 <= k < expansion(schema).len() implies (#[trigger] expansion(
        schema,
    )[k]).struct_spec.fields.contains(schema.fields[i].stripped()) by {
        let version = k + 1;
        lemma_fields_keep_order(schema.fields, version);
        assert(appears_in(schema.fields, i, version));
        let pos = choose|pos: int|
            0 <= pos < kept_indices(schema.fields, version).len() && kept_indices(
                schema.fields,
                version,
            )[pos] == i;
        assert(variant_fields(schema.fields, version)[pos] == schema.fields[i].stripped());
    }
}

/// A field with the range `from..=to` appears in the variant for `version`
/// if and only if `from <= version <= to`; one with the open range `from..`
/// if and only if `from <= version`.
pub proof fn lemma_ranged_field_membership(fields: Seq<FieldModel>, i: int, version: int)
    requires
        0 <= i < fields.len(),
        fields[i].version_range is Some,
    ensures
        fields[i].version_range->Some_0.to matches Some(to) ==> (appears_in(fields, i, version)
            <==> fields[i].version_range->Some_0.from <= version <= to),
        fields[i].version_range->Some_0.to is None ==> (appears_in(fields, i, version)
            <==> fields[i].version_range->Some_0.from <= version),
{
    lemma_appears_iff_present(fields, i, version);
}

/// No field of a variant has a range or a version directive left, and
/// stripping a field a second time changes nothing.
pub proof fn lemma_variants_carry_no_version_metadata(fields: Seq<FieldModel>, version: int)
    ensures
        forall|k: int|
            0 <= k < variant_fields(fields, version).len() ==> {
                let field = #[trigger] variant_fields(fields, version)[k];
                &&& field.version_range is None
                &&& forall|j: int|
                    0 <= j < field.annotations.len() ==> !(#[trigger] field.annotations[j]).is_version_directive()
                &&& field.stripped() == field
            },
{
    lemma_fields_keep_order(fields, version);
    assert forall|k: int| 0 <= k < variant_fields(fields, version).len() implies {
        let field = #[trigger] variant_fields(fields, version)[k];
        &&& field.version_range is None
        &&& forall|j: int|
            0 <= j < field.annotations.len() ==> !(#[trigger] field.annotations[j]).is_version_directive()
        &&& field.stripped() == field
    } by {
        let field = variant_fields(fields, version)[k];
        let i = kept_indices(fields, version)[k];
        assert(field == fields[i].stripped());
        lemma_stripping_removes_directives(fields[i].annotations);
    }
}

/// Among annotations from which the version directives were taken there is
/// none, and taking them out again changes nothing.
pub proof fn lemma_stripping_removes_directives(annotations: Seq<crate::schema::AnnotationModel>)
    ensures
        forall|j: int|
            0 <= j < without_directives(annotations).len() ==> !(#[trigger] without_directives(
                annotations,
            )[j]).is_version_directive(),
        without_directives(without_directives(annotations)) == without_directives(annotations),
    decreases annotations.len(),
{
    reveal(Seq::filter);
    let wanted = |a: crate::schema::AnnotationModel| !a.is_version_directive();
    if annotations.len() > 0 {
        let front = annotations.drop_last();
        lemma_stripping_removes_directives(front);
        let kept = front.filter(wanted);
        if wanted(annotations.last()) {
            let all = kept.push(annotations.last());
            assert(annotations.filter(wanted) == all);
            assert(all.drop_last() == kept);
            assert(all.filter(wanted) == kept.filter(wanted).push(annotations.last()));
        }
    }
}

/// A schema without any range has exactly one variant: version 1, under the
/// schema's own name, with every field of the schema, stripped.
pub proof fn lemma_unversioned_schema_has_one_variant(schema: StructModel)
    requires
        forall|i: int|
            0 <= i < schema.fields.len() ==> (#[trigger] schema.fields[i]).version_range is None,
    ensures
        expansion(schema).len() == 1,
        expansion(schema)[0].version == 1,
        expansion(schema)[0].struct_spec.name == schema.name,
        expansion(schema)[0].struct_spec.fields == schema.fields.map_values(
            |f: FieldModel| f.stripped(),
        ),
{
    lemma_no_range_no_version(schema.fields);
    lemma_all_present(schema.fields, 1);
}

/// Without ranges the highest version is 1.
proof fn lemma_no_range_no_version(fields: Seq<FieldModel>)
    requires
        forall|i: int| 0 <= i < fields.len() ==> (#[trigger] fields[i]).version_range is None,
    ensures
        max_version(fields) == 1,
    decreases fields.len(),
{
    if fields.len() > 0 {
        let front = fields.drop_last();
        assert forall|i: int| 0 <= i < front.len() implies (#[trigger] front[i]).version_range
            is None by {
            assert(front[i] == fields[i]);
        }
        lemma_no_range_no_version(front);
        assert(fields.last() == fields[fields.len() - 1]);
    }
}

/// Where every field exists in `version`, the variant has them all.
proof fn lemma_all_present(fields: Seq<FieldModel>, version: int)
    requires
        forall|i: int| 0 <= i < fields.len() ==> (#[trigger] fields[i]).present_in(version),
    ensures
        variant_fields(fields, version) == fields.map_values(|f: FieldModel| f.stripped()),
    decreases fields.len(),
{
    lemma_filter_all(fields, |f: FieldModel| f.present_in(version));
}

/// A filter that every element passes changes nothing.
proof fn lemma_filter_all<A>(s: Seq<A>, pred: spec_fn(A) -> bool)
    requires
        forall|i: int| 0 <= i < s.len() ==> pred(#[trigger] s[i]),
    ensures
        s.filter(pred) == s,
    decreases s.len(),
{
    reveal(Seq::filter);
    if s.len() > 0 {
        let front = s.drop_last();
        assert forall|i: int| 0 <= i < front.len() implies pred(#[trigger] front[i]) by {
            assert(front[i] == s[i]);
        }
        lemma_filter_all(front, pred);
        assert(s.last() == s[s.len() - 1]);
        assert(front.push(s.last()) == s);
    }
}

} // verus!
