//! The behavioural laws of the generated builder, proved over the runtime
//! model: order-independence of setters, the missing-field failure, the
//! last-write-wins rule for optional fields, accumulation in call order,
//! and the drain asymmetry of finalizing twice.

use vstd::prelude::*;

use crate::classify::Classification;
use crate::model::{field_names_distinct, FieldDescription};
use crate::runtime::{
    apply_model, build_succeeds, built_record, dispatch, dispatch_from, first_missing,
    first_missing_from, fresh_state, gathered_of, plan_of, required_missing, run_calls,
    state_after_build, wf_model, CallModel, FieldModel, FieldValueModel, InstanceModel, SlotModel,
};
use crate::synth::{
    classification_of, extract_spec, method_spec, slot_spec, BuilderDescription, ExtractRule,
};

verus! {

/// No two fields generate mutator methods of one name.
pub open spec fn distinct_method_names(plan: Seq<FieldModel>) -> bool {
    forall|i: int, j: int|
        0 <= i < j < plan.len() ==> plan[i].method_name != plan[j].method_name
}

/// Whether some call in the sequence bears the given method name.
pub open spec fn touches(calls: Seq<CallModel>, method: Seq<char>) -> bool {
    exists|j: int| 0 <= j < calls.len() && calls[j].method == method
}

/// The values handed to the given method, in call order.
pub open spec fn values_for(calls: Seq<CallModel>, method: Seq<char>) -> Seq<Seq<char>>
    decreases calls.len(),
{
    if calls.len() == 0 {
        Seq::empty()
    } else {
        let rest = values_for(calls.drop_first(), method);
        if calls[0].method == method {
            seq![calls[0].value] + rest
        } else {
            rest
        }
    }
}

/// The last value handed to the given method; meaningful where some call
/// bears the name.
pub open spec fn last_value(calls: Seq<CallModel>, method: Seq<char>) -> Seq<char>
    decreases calls.len(),
{
    if calls.len() == 0 {
        Seq::empty()
    } else if touches(calls.drop_first(), method) {
        last_value(calls.drop_first(), method)
    } else if calls[0].method == method {
        calls[0].value
    } else {
        Seq::empty()
    }
}

/// A call sequence touches a method exactly when its first call bears the
/// name or the remainder touches it.
proof fn lemma_touches_front(calls: Seq<CallModel>, method: Seq<char>)
    requires
        calls.len() > 0,
    ensures
        touches(calls, method) == (calls[0].method == method || touches(
            calls.drop_first(),
            method,
        )),
{
    let rest = calls.drop_first();
    if touches(rest, method) {
        let j = choose|j: int| 0 <= j < rest.len() && rest[j].method == method;
        assert(calls[j + 1].method == method);
    }
    if touches(calls, method) && calls[0].method != method {
        let j = choose|j: int| 0 <= j < calls.len() && calls[j].method == method;
        assert(rest[j - 1].method == method);
    }
}

/// What dispatching from position `i` yields: a position no earlier than
/// `i` bearing the name, before which no method bears it.
proof fn lemma_dispatch_from_props(plan: Seq<FieldModel>, method: Seq<char>, i: int)
    requires
        0 <= i <= plan.len(),
    ensures
        ({
            let d = dispatch_from(plan, method, i);
            &&& i <= d <= plan.len()
            &&& d < plan.len() ==> plan[d].method_name == method
            &&& forall|j: int| i <= j < d ==> (#[trigger] plan[j]).method_name != method
        }),
    decreases plan.len() - i,
{
    if i < plan.len() && plan[i].method_name != method {
        lemma_dispatch_from_props(plan, method, i + 1);
    }
}

/// Under distinct method names, the method of field `i` dispatches to
/// field `i`.
pub proof fn lemma_dispatch_hit(plan: Seq<FieldModel>, i: int)
    requires
        distinct_method_names(plan),
        0 <= i < plan.len(),
    ensures
        dispatch(plan, plan[i].method_name) == i,
{
    lemma_dispatch_from_props(plan, plan[i].method_name, 0);
}

/// One mutator call keeps the instance well formed, and neither the plan
/// nor the number of slots changes.
pub proof fn lemma_apply_model_wf(m: InstanceModel, method: Seq<char>, v: Seq<char>)
    requires
        wf_model(m),
    ensures
        ({
            let r = apply_model(m, method, v);
            &&& wf_model(r)
            &&& r.plan == m.plan
            &&& r.state.len() == m.state.len()
        }),
{
    lemma_dispatch_from_props(m.plan, method, 0);
}

/// What finalizing finds from position `i` on: the first failing field at
/// or after `i`, before which none fails.
proof fn lemma_first_missing_from_props(m: InstanceModel, i: int)
    requires
        0 <= i <= m.plan.len(),
    ensures
        ({
            let k = first_missing_from(m, i);
            &&& i <= k <= m.plan.len()
            &&& k < m.plan.len() ==> required_missing(m, k)
            &&& forall|j: int| i <= j < k ==> !required_missing(m, j)
        }),
    decreases m.plan.len() - i,
{
    if i < m.plan.len() && !required_missing(m, i) {
        lemma_first_missing_from_props(m, i + 1);
    }
}

/// The failure point of finalizing: within bounds, itself a required field
/// whose slot holds nothing, and the first such field.
pub proof fn lemma_first_missing_props(m: InstanceModel)
    ensures
        0 <= first_missing(m) <= m.plan.len(),
        first_missing(m) < m.plan.len() ==> required_missing(m, first_missing(m)),
        forall|j: int| 0 <= j < first_missing(m) ==> !required_missing(m, j),
{
    lemma_first_missing_from_props(m, 0);
}

/// The last value handed to a method was handed to it by some call.
proof fn lemma_last_value_called(calls: Seq<CallModel>, method: Seq<char>)
    requires
        touches(calls, method),
    ensures
        exists|j: int|
            0 <= j < calls.len() && calls[j].method == method && calls[j].value == last_value(
                calls,
                method,
            ),
    decreases calls.len(),
{
    let rest = calls.drop_first();
    if touches(rest, method) {
        lemma_last_value_called(rest, method);
        let j = choose|j: int|
            0 <= j < rest.len() && rest[j].method == method && rest[j].value == last_value(
                rest,
                method,
            );
        assert(calls[j + 1].method == method && calls[j + 1].value == last_value(calls, method));
    } else {
        lemma_touches_front(calls, method);
        assert(calls[0].method == method && calls[0].value == last_value(calls, method));
    }
}

/// The master lemma on running a call sequence, under distinct method
/// names: a required or optional slot ends at the last value its method
/// received, untouched slots keep their state, and an accumulating slot
/// gathers exactly the values its method received, in call order.
pub proof fn lemma_run_calls_slots(m: InstanceModel, calls: Seq<CallModel>)
    requires
        wf_model(m),
        distinct_method_names(m.plan),
    ensures
        run_calls(m, calls).plan == m.plan,
        run_calls(m, calls).state.len() == m.state.len(),
        wf_model(run_calls(m, calls)),
        forall|i: int|
            0 <= i < m.plan.len() && !((#[trigger] m.plan[i]).rule is SnapshotSequence)
                ==> run_calls(m, calls).state[i] == (if touches(calls, m.plan[i].method_name) {
                SlotModel::PendingSlot(Option::Some(last_value(calls, m.plan[i].method_name)))
            } else {
                m.state[i]
            }),
        forall|i: int|
            0 <= i < m.plan.len() && (#[trigger] m.plan[i]).rule is SnapshotSequence ==> run_calls(
                m,
                calls,
            ).state[i] == SlotModel::GatheredSlot(
                gathered_of(m.state[i]) + values_for(calls, m.plan[i].method_name),
            ),
    decreases calls.len(),
{
    if calls.len() == 0 {
        assert forall|i: int|
            0 <= i < m.plan.len() && (#[trigger] m.plan[i]).rule is SnapshotSequence implies m.state[i]
            == SlotModel::GatheredSlot(
            gathered_of(m.state[i]) + values_for(calls, m.plan[i].method_name),
        ) by {
            assert(gathered_of(m.state[i]) + values_for(calls, m.plan[i].method_name)
                =~= gathered_of(m.state[i]));
        }
    } else {
        let c0 = calls[0];
        let rest = calls.drop_first();
        let m1 = apply_model(m, c0.method, c0.value);
        lemma_apply_model_wf(m, c0.method, c0.value);
        lemma_run_calls_slots(m1, rest);
        lemma_dispatch_from_props(m.plan, c0.method, 0);
        let r = run_calls(m, calls);
        assert forall|i: int|
            0 <= i < m.plan.len() && !((#[trigger] m.plan[i]).rule is SnapshotSequence) implies r.state[i]
            == (if touches(calls, m.plan[i].method_name) {
            SlotModel::PendingSlot(Option::Some(last_value(calls, m.plan[i].method_name)))
        } else {
            m.state[i]
        }) by {
            let name = m.plan[i].method_name;
            lemma_touches_front(calls, name);
            if c0.method == name {
                lemma_dispatch_hit(m.plan, i);
            }
        }
        assert forall|i: int|
            0 <= i < m.plan.len() && (#[trigger] m.plan[i]).rule is SnapshotSequence implies r.state[i]
            == SlotModel::GatheredSlot(
            gathered_of(m.state[i]) + values_for(calls, name_of(m, i)),
        ) by {
            let name = m.plan[i].method_name;
            if c0.method == name {
                lemma_dispatch_hit(m.plan, i);
                assert(gathered_of(m1.state[i]) + values_for(rest, name) =~= gathered_of(
                    m.state[i],
                ) + values_for(calls, name));
            } else {
                assert(gathered_of(m1.state[i]) + values_for(rest, name) =~= gathered_of(
                    m.state[i],
                ) + values_for(calls, name));
            }
        }
    }
}

/// A field's mutator method name.
pub open spec fn name_of(m: InstanceModel, i: int) -> Seq<char> {
    m.plan[i].method_name
}

/// For a bundle whose slots, methods and rules come field by field from
/// the record's classifications — what `generate` ensures of its output —
/// the plan mirrors the record: every slot bears its field's name, a
/// required or optional field's method bears the field's name, an
/// accumulating field's method bears its directive's name, and the rule is
/// the one the classification prescribes.  A record of unannotated fields
/// with distinct names therefore generates methods with distinct names,
/// as the laws below assume.
pub proof fn lemma_plan_mirrors_record(fs: Seq<FieldDescription>, b: BuilderDescription)
    requires
        b.slots@.len() == fs.len(),
        b.methods@.len() == fs.len(),
        b.extracts@.len() == fs.len(),
        forall|i: int|
            0 <= i < fs.len() ==> {
                &&& b.slots@[i] == slot_spec((#[trigger] fs[i]).name, classification_of(fs[i]))
                &&& b.methods@[i] == method_spec(fs[i].name, classification_of(fs[i]))
                &&& b.extracts@[i] == extract_spec(classification_of(fs[i]))
            },
    ensures
        plan_of(b).len() == fs.len(),
        forall|i: int|
            0 <= i < fs.len() ==> {
                &&& (#[trigger] plan_of(b)[i]).field_name == fs[i].name@
                &&& plan_of(b)[i].rule == extract_spec(classification_of(fs[i]))
                &&& plan_of(b)[i].method_name == (match classification_of(fs[i]) {
                    Classification::Accumulating(_, m) => m@,
                    Classification::Required(_) => fs[i].name@,
                    Classification::Optional(_) => fs[i].name@,
                })
            },
        (field_names_distinct(fs) && (forall|i: int|
            0 <= i < fs.len() ==> !(classification_of(#[trigger] fs[i]) is Accumulating)))
            ==> distinct_method_names(plan_of(b)),
{
    assert forall|i: int| 0 <= i < fs.len() implies {
        &&& (#[trigger] plan_of(b)[i]).field_name == fs[i].name@
        &&& plan_of(b)[i].rule == extract_spec(classification_of(fs[i]))
        &&& plan_of(b)[i].method_name == (match classification_of(fs[i]) {
            Classification::Accumulating(_, m) => m@,
            Classification::Required(_) => fs[i].name@,
            Classification::Optional(_) => fs[i].name@,
        })
    } by {
        let c = classification_of(fs[i]);
        assert(b.slots@[i] == slot_spec(fs[i].name, c));
    }
}

/// Law: for a record of required fields only, calling every field's setter
/// exactly once — with arbitrary values, in any order — and then
/// finalizing succeeds and yields a record whose fields are exactly the
/// supplied values.
pub proof fn lemma_required_only_build(m: InstanceModel, calls: Seq<CallModel>)
    requires
        wf_model(m),
        distinct_method_names(m.plan),
        m.state == fresh_state(m.plan),
        forall|i: int| 0 <= i < m.plan.len() ==> (#[trigger] m.plan[i]).rule is TakeRequired,
        forall|i: int| 0 <= i < m.plan.len() ==> touches(calls, name_of(m, i)),
        forall|j1: int, j2: int|
            0 <= j1 < j2 < calls.len() ==> calls[j1].method != calls[j2].method,
    ensures
        build_succeeds(run_calls(m, calls)),
        forall|i: int|
            0 <= i < m.plan.len() ==> exists|j: int|
                0 <= j < calls.len() && calls[j].method == #[trigger] name_of(m, i)
                    && built_record(run_calls(m, calls))[i] == FieldValueModel::SingleValue(
                    #[trigger] calls[j].value,
                ),
{
    lemma_run_calls_slots(m, calls);
    let r = run_calls(m, calls);
    assert forall|i: int| 0 <= i < m.plan.len() implies !required_missing(r, i) by {
        assert(touches(calls, name_of(m, i)));
    }
    lemma_first_missing_props(r);
    assert(build_succeeds(r));
    assert forall|i: int| 0 <= i < m.plan.len() implies exists|j: int|
        0 <= j < calls.len() && calls[j].method == #[trigger] name_of(m, i) && built_record(r)[i]
            == FieldValueModel::SingleValue(#[trigger] calls[j].value) by {
        lemma_last_value_called(calls, name_of(m, i));
        let j = choose|j: int|
            0 <= j < calls.len() && calls[j].method == name_of(m, i) && calls[j].value
                == last_value(calls, name_of(m, i));
        assert(built_record(r)[i] == FieldValueModel::SingleValue(calls[j].value));
    }
}

/// Law: when at least one required field's slot holds nothing, finalizing
/// fails, naming the first such field in declaration order — a field that
/// was itself never supplied; fields before it do not fail.
pub proof fn lemma_missing_required_build(m: InstanceModel)
    requires
        wf_model(m),
        exists|i: int| 0 <= i < m.plan.len() && #[trigger] required_missing(m, i),
    ensures
        !build_succeeds(m),
        required_missing(m, first_missing(m)),
        forall|j: int| 0 <= j < first_missing(m) ==> !required_missing(m, j),
{
    lemma_first_missing_props(m);
    let i0 = choose|i: int| 0 <= i < m.plan.len() && required_missing(m, i);
    assert(first_missing(m) <= i0);
}

/// Law: an optional field never mutated finalizes to the absent value; one
/// that was mutated finalizes to the last value supplied — repeated calls
/// overwrite.
pub proof fn lemma_optional_field(m: InstanceModel, calls: Seq<CallModel>, i: int)
    requires
        wf_model(m),
        distinct_method_names(m.plan),
        m.state == fresh_state(m.plan),
        0 <= i < m.plan.len(),
        m.plan[i].rule is TakeOptional,
    ensures
        !touches(calls, name_of(m, i)) ==> built_record(run_calls(m, calls))[i]
            == FieldValueModel::OptionalValue(Option::None),
        touches(calls, name_of(m, i)) ==> built_record(run_calls(m, calls))[i]
            == FieldValueModel::OptionalValue(Option::Some(last_value(calls, name_of(m, i)))),
        !required_missing(run_calls(m, calls), i),
{
    lemma_run_calls_slots(m, calls);
}

/// Law: an accumulating field finalizes to exactly the values supplied to
/// its accumulator, in call order — the empty sequence when the
/// accumulator was never called — and never raises a missing-field
/// failure.
pub proof fn lemma_accumulating_field(m: InstanceModel, calls: Seq<CallModel>, i: int)
    requires
        wf_model(m),
        distinct_method_names(m.plan),
        m.state == fresh_state(m.plan),
        0 <= i < m.plan.len(),
        m.plan[i].rule is SnapshotSequence,
    ensures
        built_record(run_calls(m, calls))[i] == FieldValueModel::SequenceValue(
            values_for(calls, name_of(m, i)),
        ),
        calls.len() == 0 ==> built_record(run_calls(m, calls))[i]
            == FieldValueModel::SequenceValue(Seq::empty()),
        !required_missing(run_calls(m, calls), i),
{
    lemma_run_calls_slots(m, calls);
    let r = run_calls(m, calls);
    assert(gathered_of(m.state[i]) + values_for(calls, name_of(m, i)) =~= values_for(
        calls,
        name_of(m, i),
    ));
    if calls.len() == 0 {
        assert(values_for(calls, name_of(m, i)) =~= Seq::<Seq<char>>::empty());
    }
}

/// Law: finalizing twice without intervening mutation.  A successful
/// finalize drains every required and optional slot (a second finalize
/// fails at the first required field, exactly as if it had never been set,
/// and every optional field comes out absent) but leaves every
/// accumulating slot untouched, so a second finalize reproduces exactly
/// the same accumulated sequences.  The asymmetry is deliberate.
pub proof fn lemma_build_twice(m: InstanceModel)
    requires
        wf_model(m),
        build_succeeds(m),
    ensures
        ({
            let s1 = InstanceModel { plan: m.plan, state: state_after_build(m) };
            &&& wf_model(s1)
            &&& forall|i: int|
                0 <= i < m.plan.len() && (#[trigger] m.plan[i]).rule is SnapshotSequence ==> {
                    &&& s1.state[i] == m.state[i]
                    &&& built_record(s1)[i] == built_record(m)[i]
                }
            &&& forall|i: int|
                0 <= i < m.plan.len() && !((#[trigger] m.plan[i]).rule is SnapshotSequence)
                    ==> s1.state[i] == SlotModel::PendingSlot(Option::None)
            &&& (exists|i: int|
                0 <= i < m.plan.len() && (#[trigger] m.plan[i]).rule is TakeRequired) ==> {
                &&& !build_succeeds(s1)
                &&& m.plan[first_missing(s1)].rule is TakeRequired
                &&& forall|j: int|
                    0 <= j < first_missing(s1) ==> !((#[trigger] m.plan[j]).rule is TakeRequired)
            }
            &&& !(exists|i: int|
                0 <= i < m.plan.len() && (#[trigger] m.plan[i]).rule is TakeRequired) ==> {
                &&& build_succeeds(s1)
                &&& forall|i: int|
                    0 <= i < m.plan.len() && (#[trigger] m.plan[i]).rule is TakeOptional
                        ==> built_record(s1)[i] == FieldValueModel::OptionalValue(Option::None)
            }
        }),
{
    let s1 = InstanceModel { plan: m.plan, state: state_after_build(m) };
    lemma_first_missing_props(m);
    lemma_first_missing_props(s1);
    assert forall|i: int|
        0 <= i < m.plan.len() implies required_missing(s1, i) == ((#[trigger] m.plan[i]).rule
        is TakeRequired) by {
        assert(s1.state[i] == state_after_build(m)[i]);
    }
    if exists|i: int| 0 <= i < m.plan.len() && (#[trigger] m.plan[i]).rule is TakeRequired {
        let i0 = choose|i: int| 0 <= i < m.plan.len() && (#[trigger] m.plan[i]).rule is TakeRequired;
        assert(required_missing(s1, i0));
        assert(first_missing(s1) <= i0);
    }
}

} // verus!
