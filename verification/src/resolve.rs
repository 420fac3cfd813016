//! The number of versions that a schema spans.

use vstd::prelude::*;

use crate::schema::{field_models, FieldModel, StructSpec};

verus! {

/// The highest version that any range in `fields` mentions, and at least 1:
/// a schema without ranges has the one version 1.
pub open spec fn max_version(fields: Seq<FieldModel>) -> int
    decreases fields.len(),
{
    if fields.len() == 0 {
        1
    } else {
        let rest = max_version(fields.drop_last());
        match fields.last().version_range {
            Some(range) if range.spec_highest() > rest => range.spec_highest(),
            _ => rest,
        }
    }
}

/// `max_version` is the least number from 1 up that no bound exceeds: it is
/// an upper bound of every `from` and `to`, and it is 1 or one of them.
pub proof fn lemma_max_version_is_least_bound(fields: Seq<FieldModel>)
    ensures
        max_version(fields) >= 1,
        forall|i: int|
            0 <= i < fields.len() ==> (#[trigger] fields[i]).bounded_by(max_version(fields)),
        max_version(fields) == 1 || exists|i: int|
            0 <= i < fields.len() && (#[trigger] fields[i]).reaches(max_version(fields)),
    decreases fields.len(),
{
    if fields.len() > 0 {
        let front = fields.drop_last();
        lemma_max_version_is_least_bound(front);
        assert forall|i: int| 0 <= i < fields.len() implies (#[trigger] fields[i]).bounded_by(
            max_version(fields),
        ) by {
            if i < front.len() {
                assert(front[i] == fields[i]);
            }
        }
        if max_version(fields) != 1 {
            if max_version(fields) == max_version(front) {
                let i = choose|i: int|
                    0 <= i < front.len() && (#[trigger] front[i]).reaches(max_version(front));
                assert(fields[i] == front[i]);
            } else {
                assert(fields[fields.len() - 1] == fields.last());
            }
        }
    }
}

/// Computes the highest version to derive: the largest bound of any range,
/// or 1 where that is less or no field has a range. The ranges are not
/// checked here.
pub fn resolve(spec: &StructSpec) -> (max: usize)
    ensures
        max == max_version(spec@.fields),
{
    let ghost fields = field_models(spec.fields@);
    let mut max: usize = 1;
    let mut i: usize = 0;
    while i < spec.fields.len()
        invariant
            i <= spec.fields.len(),
            fields == field_models(spec.fields@),
            max == max_version(fields.take(i as int)),
        decreases spec.fields.len() - i,
    {
        assert(fields.take(i + 1).drop_last() == fields.take(i as int));
        if let Some(range) = &spec.fields[i].version_range {
            let highest = range.highest();
            if highest > max {
                max = highest;
            }
        }
        i += 1;
    }
    assert(fields.take(i as int) == fields);
    max
}

} // verus!
