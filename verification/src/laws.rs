//! Laws of the generated builder, stated over a spec-level model of setter
//! call sequences and proved once for every schema.
//!
//! A call sequence is a `Seq` of pairs: the field name a setter was invoked
//! for and the value passed. `apply_calls` replays such a sequence on a slot
//! state exactly as `Builder::set_field`'s contract describes one call, so
//! each law below, together with the contracts of `instantiate`, `set_field`
//! and `build`, speaks about every actual run of the builder.

use vstd::prelude::*;
use crate::schema::{FieldSpec, Value, has_field, idx_of, lemma_idx_of_props, lemma_idx_of_unique,
    names_unique};
use crate::runtime::{all_set, first_unset, fresh_slots, lemma_first_unset_at};

verus! {

/// The slot state after running `calls` left to right from `slots`: each
/// call overwrites the slot of the first field carrying its name, exactly as
/// `Builder::set_field` ensures.
pub open spec fn apply_calls(
    fields: Seq<FieldSpec>,
    slots: Seq<Option<Value>>,
    calls: Seq<(Seq<char>, Value)>,
) -> Seq<Option<Value>>
    decreases calls.len(),
{
    if calls.len() == 0 {
        slots
    } else {
        apply_calls(fields, slots, calls.drop_last()).update(
            idx_of(fields, calls.last().0),
            Some(calls.last().1),
        )
    }
}

/// The value passed by the last call in `calls` that names `name`, if any.
pub open spec fn last_value(calls: Seq<(Seq<char>, Value)>, name: Seq<char>) -> Option<Value>
    decreases calls.len(),
{
    if calls.len() == 0 {
        None
    } else if calls.last().0 == name {
        Some(calls.last().1)
    } else {
        last_value(calls.drop_last(), name)
    }
}

/// Every call names a field that exists in `fields`.
pub open spec fn calls_valid(fields: Seq<FieldSpec>, calls: Seq<(Seq<char>, Value)>) -> bool {
    forall|k: int| 0 <= k < calls.len() ==> has_field(fields, (#[trigger] calls[k]).0)
}

/// After any sequence of setter calls, each slot holds the value of the last
/// call naming its field, and is untouched where no call named its field.
pub proof fn lemma_apply_calls_last_write(
    fields: Seq<FieldSpec>,
    slots: Seq<Option<Value>>,
    calls: Seq<(Seq<char>, Value)>,
)
    requires
        names_unique(fields),
        slots.len() == fields.len(),
        calls_valid(fields, calls),
    ensures
        apply_calls(fields, slots, calls).len() == fields.len(),
        forall|i: int| 0 <= i < fields.len()
            ==> #[trigger] apply_calls(fields, slots, calls)[i] == (match last_value(
            calls,
            fields[i].name@,
        ) {
            Some(v) => Some(v),
            None => slots[i],
        }),
    decreases calls.len(),
{
    if calls.len() == 0 {
    } else {
        let rest = calls.drop_last();
        let c = calls.last();
        assert forall|k: int| 0 <= k < rest.len() implies has_field(
            fields,
            (#[trigger] rest[k]).0,
        ) by {
            assert(rest[k] == calls[k]);
        }
        lemma_apply_calls_last_write(fields, slots, rest);
        assert(has_field(fields, c.0)) by {
            assert(calls[calls.len() - 1] == c);
        }
        lemma_idx_of_props(fields, c.0);
        let t = idx_of(fields, c.0);
        let prev = apply_calls(fields, slots, rest);
        let cur = apply_calls(fields, slots, calls);
        assert forall|i: int| 0 <= i < fields.len() implies #[trigger] cur[i] == (match last_value(
            calls,
            fields[i].name@,
        ) {
            Some(v) => Some(v),
            None => slots[i],
        }) by {
            if i == t {
                assert(last_value(calls, fields[t].name@) == Some(c.1));
            } else {
                assert(fields[i].name@ != c.0) by {
                    lemma_idx_of_unique(fields, c.0, t);
                }
                assert(cur[i] == prev[i]);
                assert(last_value(calls, fields[i].name@) == last_value(rest, fields[i].name@));
            }
        }
    }
}

/// Any sequence of setter calls that names every field at least once leaves
/// every slot set, each holding the last value set for its field; the build
/// step's contract then guarantees success, with the record carrying exactly
/// those values, whatever the order of the calls was.
pub proof fn lemma_build_after_covering_calls(
    fields: Seq<FieldSpec>,
    calls: Seq<(Seq<char>, Value)>,
)
    requires
        names_unique(fields),
        calls_valid(fields, calls),
        forall|i: int| 0 <= i < fields.len() ==> last_value(
            calls,
            (#[trigger] fields[i]).name@,
        ) is Some,
    ensures
        all_set(apply_calls(fields, fresh_slots(fields.len()), calls)),
        apply_calls(fields, fresh_slots(fields.len()), calls).len() == fields.len(),
        forall|i: int| 0 <= i < fields.len()
            ==> #[trigger] apply_calls(fields, fresh_slots(fields.len()), calls)[i] == last_value(
            calls,
            fields[i].name@,
        ),
{
    lemma_apply_calls_last_write(fields, fresh_slots(fields.len()), calls);
}

/// On a freshly constructed builder over a nonempty schema, no slot is set
/// and the first unset slot is the first field in declaration order: the
/// build step's contract then guarantees failure naming that field.
pub proof fn lemma_fresh_build_reports_first(fields: Seq<FieldSpec>)
    requires
        fields.len() > 0,
    ensures
        !all_set(fresh_slots(fields.len())),
        first_unset(fresh_slots(fields.len())) == 0,
{
    assert(fresh_slots(fields.len())[0] is None);
}

/// When `k` is the earliest field no call ever named, the build step fails
/// reporting exactly field `k`, however many later fields are also unset.
pub proof fn lemma_earliest_unset_reported(
    fields: Seq<FieldSpec>,
    calls: Seq<(Seq<char>, Value)>,
    k: int,
)
    requires
        names_unique(fields),
        calls_valid(fields, calls),
        0 <= k < fields.len(),
        last_value(calls, fields[k].name@) is None,
        forall|i: int| 0 <= i < k ==> last_value(calls, (#[trigger] fields[i]).name@) is Some,
    ensures
        !all_set(apply_calls(fields, fresh_slots(fields.len()), calls)),
        first_unset(apply_calls(fields, fresh_slots(fields.len()), calls)) == k,
{
    lemma_apply_calls_last_write(fields, fresh_slots(fields.len()), calls);
    let cur = apply_calls(fields, fresh_slots(fields.len()), calls);
    assert(cur[k] is None);
    assert forall|j: int| 0 <= j < k implies (#[trigger] cur[j]) is Some by {}
    lemma_first_unset_at(cur, k);
}

/// Replaying valid setter calls does not change the number of slots.
pub proof fn lemma_apply_calls_len(
    fields: Seq<FieldSpec>,
    slots: Seq<Option<Value>>,
    calls: Seq<(Seq<char>, Value)>,
)
    requires
        slots.len() == fields.len(),
        calls_valid(fields, calls),
    ensures
        apply_calls(fields, slots, calls).len() == slots.len(),
    decreases calls.len(),
{
    if calls.len() > 0 {
        let rest = calls.drop_last();
        assert forall|k: int| 0 <= k < rest.len() implies has_field(
            fields,
            (#[trigger] rest[k]).0,
        ) by {
            assert(rest[k] == calls[k]);
        }
        lemma_apply_calls_len(fields, slots, rest);
        assert(has_field(fields, calls.last().0)) by {
            assert(calls[calls.len() - 1] == calls.last());
        }
        lemma_idx_of_props(fields, calls.last().0);
    }
}

/// Calling one field's setter twice, with any two values, leaves the builder
/// exactly as calling it once with the second value: the last write wins.
pub proof fn lemma_setter_idempotence(
    fields: Seq<FieldSpec>,
    slots: Seq<Option<Value>>,
    calls: Seq<(Seq<char>, Value)>,
    name: Seq<char>,
    v1: Value,
    v2: Value,
)
    requires
        slots.len() == fields.len(),
        calls_valid(fields, calls),
        has_field(fields, name),
    ensures
        apply_calls(fields, slots, calls.push((name, v1)).push((name, v2))) == apply_calls(
            fields,
            slots,
            calls.push((name, v2)),
        ),
{
    lemma_idx_of_props(fields, name);
    lemma_apply_calls_len(fields, slots, calls);
    let t = idx_of(fields, name);
    let once = calls.push((name, v1));
    let twice = once.push((name, v2));
    let direct = calls.push((name, v2));
    assert(twice.drop_last() =~= once);
    assert(once.drop_last() =~= calls);
    assert(direct.drop_last() =~= calls);
    assert(once.last() == (name, v1));
    assert(twice.last() == (name, v2));
    assert(direct.last() == (name, v2));
    let base = apply_calls(fields, slots, calls);
    assert(apply_calls(fields, slots, once) == base.update(t, Some(v1)));
    assert(apply_calls(fields, slots, twice) == base.update(t, Some(v1)).update(t, Some(v2)));
    assert(apply_calls(fields, slots, direct) == base.update(t, Some(v2)));
    assert(base.update(t, Some(v1)).update(t, Some(v2)) =~= base.update(t, Some(v2)));
}

/// A builder over the empty schema always builds successfully: with no
/// fields there is no slot to be unset, so the build step's contract
/// guarantees an empty record, whatever was done to the builder.
pub proof fn lemma_empty_schema_always_builds(slots: Seq<Option<Value>>)
    requires
        slots.len() == 0,
    ensures
        all_set(slots),
{
}

} // verus!
