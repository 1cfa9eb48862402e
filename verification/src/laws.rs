//! What holds of every run of a generated builder.
//!
//! The statements here speak of a unit's fields and of the slots of a
//! builder, as the contracts of [`crate::runtime`] do. A run is a sequence
//! of setter calls; `run` gives the slots after it.

use crate::runtime::{
    accepts, conforms, extract, finalize, first_missing, fresh, lemma_resolve,
    lemma_step_conforms, list_in, resolve, setter_action, step, Action, ArgumentView, OutcomeView,
    ValueView,
};
use crate::schema::{FailurePolicy, KindView};
use crate::unit::{clash_free, field_methods, lemma_methods_prefix, methods, PlanView, UnitView};
use vstd::prelude::*;

verus! {

/// One call of a setter.
pub struct Call {
    pub setter: Seq<char>,
    pub argument: ArgumentView,
}

/// The slots after the calls were made in order, starting from `slots`.
pub open spec fn run(
    fields: Seq<PlanView>,
    slots: Seq<Option<ValueView>>,
    calls: Seq<Call>,
) -> Seq<Option<ValueView>>
    decreases calls.len(),
{
    if calls.len() == 0 {
        slots
    } else {
        step(
            fields,
            run(fields, slots, calls.drop_last()),
            calls.last().setter,
            calls.last().argument,
        )
    }
}

/// The field whose slot the setter `name` writes.
pub open spec fn target(fields: Seq<PlanView>, name: Seq<char>) -> Option<int> {
    match resolve(fields, name, 0) {
        Some((i, _)) => Some(i),
        None => None,
    }
}

/// None of the calls is to a setter of field `i`.
pub open spec fn spares(fields: Seq<PlanView>, calls: Seq<Call>, i: int) -> bool {
    forall|k: int| 0 <= k < calls.len() ==> target(fields, (#[trigger] calls[k]).setter) != Some(i)
}

/// The calls that hand `values` one by one to the setter `name`.
pub open spec fn pushes(name: Seq<char>, values: Seq<Seq<char>>) -> Seq<Call> {
    Seq::new(values.len(), |k: int| Call { setter: name, argument: ArgumentView::One(values[k]) })
}

/// Every run keeps one slot per field, each holding what its field stores.
pub proof fn law_run_conforms(
    fields: Seq<PlanView>,
    slots: Seq<Option<ValueView>>,
    calls: Seq<Call>,
)
    requires
        conforms(fields, slots),
    ensures
        conforms(fields, run(fields, slots, calls)),
    decreases calls.len(),
{
    if calls.len() > 0 {
        law_run_conforms(fields, slots, calls.drop_last());
        lemma_step_conforms(
            fields,
            run(fields, slots, calls.drop_last()),
            calls.last().setter,
            calls.last().argument,
        );
    }
}

/// A run without a call to a setter of field `i` leaves the slot of that
/// field as it was.
pub proof fn law_spared_slot_unchanged(
    fields: Seq<PlanView>,
    slots: Seq<Option<ValueView>>,
    calls: Seq<Call>,
    i: int,
)
    requires
        0 <= i < slots.len(),
        spares(fields, calls, i),
    ensures
        run(fields, slots, calls).len() == slots.len(),
        run(fields, slots, calls)[i] == slots[i],
    decreases calls.len(),
{
    if calls.len() > 0 {
        let before = calls.drop_last();
        assert forall|k: int| 0 <= k < before.len() implies target(
            fields,
            (#[trigger] before[k]).setter,
        ) != Some(i) by {
            assert(before[k] == calls[k]);
        }
        law_spared_slot_unchanged(fields, slots, before, i);
        assert(calls.last() == calls[calls.len() - 1]);
    }
}

/// A slot that is set stays set, whatever is called afterwards.
pub proof fn law_set_slot_stays_set(
    fields: Seq<PlanView>,
    slots: Seq<Option<ValueView>>,
    calls: Seq<Call>,
    i: int,
)
    requires
        0 <= i < slots.len(),
        slots[i] is Some,
    ensures
        run(fields, slots, calls).len() == slots.len(),
        run(fields, slots, calls)[i] is Some,
    decreases calls.len(),
{
    if calls.len() > 0 {
        law_set_slot_stays_set(fields, slots, calls.drop_last(), i);
    }
}

/// Among the methods of the first `n` fields stand those of field `j`, at
/// their own places.
pub proof fn lemma_methods_of_field(fields: Seq<PlanView>, n: int, j: int, x: int)
    requires
        0 <= j < n,
        0 <= x < field_methods(fields[j]).len(),
    ensures
        methods(fields, j).len() + x < methods(fields, j + 1).len() <= methods(fields, n).len(),
        methods(fields, n)[methods(fields, j).len() + x] == field_methods(fields[j])[x],
{
    lemma_methods_prefix(fields, j + 1, n);
    let whole = methods(fields, n);
    let part = methods(fields, j + 1);
    let at = methods(fields, j).len() + x;
    assert(part[at] == field_methods(fields[j])[x]);
    assert(whole.take(part.len() as int)[at] == whole[at]);
}

/// A field that has a setter `name` lists that name among its methods.
pub proof fn lemma_setter_is_method(f: PlanView, name: Seq<char>) -> (x: int)
    requires
        setter_action(f, name) is Some,
    ensures
        0 <= x < field_methods(f).len(),
        field_methods(f)[x] == name,
{
    match f.kind {
        KindView::Repeated(_, Some(each)) => {
            if each == f.name {
                1
            } else if name == each {
                2
            } else {
                1
            }
        },
        _ => 1,
    }
}

/// Where no two methods share a name, a setter of a field resolves to that
/// field.
pub proof fn lemma_own_setter_resolves(fields: Seq<PlanView>, i: int, name: Seq<char>)
    requires
        clash_free(fields),
        0 <= i < fields.len(),
        setter_action(fields[i], name) is Some,
    ensures
        resolve(fields, name, 0) == Some((i, setter_action(fields[i], name)->0)),
{
    lemma_resolve(fields, name, 0);
    let (j, _) = resolve(fields, name, 0)->0;
    if j < i {
        let n = fields.len() as int;
        let x = lemma_setter_is_method(fields[j], name);
        let y = lemma_setter_is_method(fields[i], name);
        lemma_methods_of_field(fields, n, j, x);
        lemma_methods_of_field(fields, n, i, y);
        lemma_methods_prefix(fields, j + 1, i);
        let all = methods(fields, n);
        let p = methods(fields, j).len() + x;
        let q = methods(fields, i).len() + y;
        assert(all[p] == all[q]);
        assert(p != q);
    }
}

/// A required field that no call ever set makes finalization fail: there
/// is no result under the soft policy, and an abort under the loud one.
pub proof fn law_required_field_never_set_fails(unit: UnitView, calls: Seq<Call>, i: int)
    requires
        0 <= i < unit.fields.len(),
        unit.fields[i].kind is Required,
        spares(unit.fields, calls, i),
    ensures
        ({
            let outcome = finalize(unit, run(unit.fields, fresh(unit.fields.len()), calls));
            &&& !(outcome is Built)
            &&& unit.policy == FailurePolicy::Soft ==> outcome is NoResult
            &&& unit.policy == FailurePolicy::Loud ==> outcome is Aborted
        }),
{
    let slots = run(unit.fields, fresh(unit.fields.len()), calls);
    law_spared_slot_unchanged(unit.fields, fresh(unit.fields.len()), calls, i);
    lemma_missing_found(unit.fields, slots, 0, i);
}

/// A missing field from `k` on means that some field is the first missing.
pub proof fn lemma_missing_found(
    fields: Seq<PlanView>,
    slots: Seq<Option<ValueView>>,
    k: int,
    i: int,
)
    requires
        0 <= k <= i < fields.len(),
        extract(fields[i].kind, slots[i]) is None,
    ensures
        first_missing(fields, slots, k) matches Some(j) && k <= j <= i,
    decreases i - k,
{
    if extract(fields[k].kind, slots[k]) is Some {
        lemma_missing_found(fields, slots, k + 1, i);
    }
}

/// The first missing field is missing, and none before it from `k` on is.
pub proof fn lemma_first_missing(fields: Seq<PlanView>, slots: Seq<Option<ValueView>>, k: int)
    requires
        0 <= k,
    ensures
        first_missing(fields, slots, k) matches Some(j) ==> k <= j < fields.len() && extract(
            fields[j].kind,
            slots[j],
        ) is None,
        first_missing(fields, slots, k) is None ==> forall|j: int|
            k <= j < fields.len() ==> extract(fields[j].kind, slots[j]) is Some,
    decreases fields.len() - k,
{
    if k < fields.len() && extract(fields[k].kind, slots[k]) is Some {
        lemma_first_missing(fields, slots, k + 1);
    }
}

/// Once the setter of a required field was called with `v`, the field
/// contributes `v` to the target: it is not what finalization fails on,
/// neither at once nor after any further calls, and a target built at once
/// holds `v` in that field. No other slot is touched by the call.
pub proof fn law_required_field_set_succeeds(
    unit: UnitView,
    slots: Seq<Option<ValueView>>,
    i: int,
    v: Seq<char>,
    later: Seq<Call>,
)
    requires
        clash_free(unit.fields),
        conforms(unit.fields, slots),
        0 <= i < unit.fields.len(),
        unit.fields[i].kind is Required,
    ensures
        ({
            let name = unit.fields[i].name;
            let after = step(unit.fields, slots, name, ArgumentView::One(v));
            let end = run(unit.fields, after, later);
            &&& accepts(unit.fields, name, ArgumentView::One(v))
            &&& after[i] == Some(ValueView::Scalar(v))
            &&& forall|j: int| 0 <= j < slots.len() && j != i ==> after[j] == slots[j]
            &&& extract(unit.fields[i].kind, after[i]) == Some(ValueView::Scalar(v))
            &&& first_missing(unit.fields, after, 0) != Some(i)
            &&& finalize(unit, after) matches OutcomeView::Built(values) ==> values[i]
                == ValueView::Scalar(v)
            &&& first_missing(unit.fields, end, 0) != Some(i)
        }),
{
    let fields = unit.fields;
    let name = fields[i].name;
    let after = step(fields, slots, name, ArgumentView::One(v));
    let end = run(fields, after, later);
    lemma_own_setter_resolves(fields, i, name);
    lemma_first_missing(fields, after, 0);
    lemma_step_conforms(fields, slots, name, ArgumentView::One(v));
    law_run_conforms(fields, after, later);
    law_set_slot_stays_set(fields, after, later, i);
    lemma_first_missing(fields, end, 0);
}

/// An optional field that no call ever set is no failure: its final value
/// is "no value".
pub proof fn law_optional_field_never_set_has_no_value(unit: UnitView, calls: Seq<Call>, i: int)
    requires
        0 <= i < unit.fields.len(),
        unit.fields[i].kind is OptionalScalar,
        spares(unit.fields, calls, i),
    ensures
        ({
            let slots = run(unit.fields, fresh(unit.fields.len()), calls);
            &&& extract(unit.fields[i].kind, slots[i]) == Some(ValueView::Optional(None))
            &&& first_missing(unit.fields, slots, 0) != Some(i)
            &&& finalize(unit, slots) matches OutcomeView::Built(values) ==> values[i]
                == ValueView::Optional(None)
        }),
{
    let slots = run(unit.fields, fresh(unit.fields.len()), calls);
    law_spared_slot_unchanged(unit.fields, fresh(unit.fields.len()), calls, i);
    lemma_first_missing(unit.fields, slots, 0);
}

/// Once the setter of an optional field was called with `v`, the field's
/// final value is `v`.
pub proof fn law_optional_field_set_keeps_value(
    unit: UnitView,
    slots: Seq<Option<ValueView>>,
    i: int,
    v: Seq<char>,
)
    requires
        clash_free(unit.fields),
        conforms(unit.fields, slots),
        0 <= i < unit.fields.len(),
        unit.fields[i].kind is OptionalScalar,
    ensures
        ({
            let name = unit.fields[i].name;
            let after = step(unit.fields, slots, name, ArgumentView::One(v));
            &&& accepts(unit.fields, name, ArgumentView::One(v))
            &&& after[i] == Some(ValueView::Optional(Some(v)))
            &&& forall|j: int| 0 <= j < slots.len() && j != i ==> after[j] == slots[j]
            &&& extract(unit.fields[i].kind, after[i]) == Some(ValueView::Optional(Some(v)))
            &&& finalize(unit, after) matches OutcomeView::Built(values) ==> values[i]
                == ValueView::Optional(Some(v))
        }),
{
    let name = unit.fields[i].name;
    lemma_own_setter_resolves(unit.fields, i, name);
    lemma_first_missing(
        unit.fields,
        step(unit.fields, slots, name, ArgumentView::One(v)),
        0,
    );
}

/// A repeated field that no call ever set yields an empty collection.
pub proof fn law_repeated_field_never_set_is_empty(unit: UnitView, calls: Seq<Call>, i: int)
    requires
        0 <= i < unit.fields.len(),
        unit.fields[i].kind is Repeated,
        spares(unit.fields, calls, i),
    ensures
        ({
            let slots = run(unit.fields, fresh(unit.fields.len()), calls);
            &&& extract(unit.fields[i].kind, slots[i]) == Some(
                ValueView::List(Seq::<Seq<char>>::empty()),
            )
            &&& first_missing(unit.fields, slots, 0) != Some(i)
            &&& finalize(unit, slots) matches OutcomeView::Built(values) ==> values[i]
                == ValueView::List(Seq::<Seq<char>>::empty())
        }),
{
    let slots = run(unit.fields, fresh(unit.fields.len()), calls);
    law_spared_slot_unchanged(unit.fields, fresh(unit.fields.len()), calls, i);
    lemma_first_missing(unit.fields, slots, 0);
}

/// Once the whole-collection setter of a repeated field was called with
/// `values`, the field's final value is exactly `values`, in that order,
/// whatever the slot held before. The field has that setter unless its
/// accumulator bears the field's own name.
pub proof fn law_repeated_field_bulk_set(
    unit: UnitView,
    slots: Seq<Option<ValueView>>,
    i: int,
    values: Seq<Seq<char>>,
)
    requires
        clash_free(unit.fields),
        conforms(unit.fields, slots),
        0 <= i < unit.fields.len(),
        unit.fields[i].kind matches KindView::Repeated(_, each) && each != Some(
            unit.fields[i].name,
        ),
    ensures
        ({
            let name = unit.fields[i].name;
            let after = step(unit.fields, slots, name, ArgumentView::Many(values));
            &&& accepts(unit.fields, name, ArgumentView::Many(values))
            &&& after[i] == Some(ValueView::List(values))
            &&& forall|j: int| 0 <= j < slots.len() && j != i ==> after[j] == slots[j]
            &&& extract(unit.fields[i].kind, after[i]) == Some(ValueView::List(values))
            &&& finalize(unit, after) matches OutcomeView::Built(built) ==> built[i]
                == ValueView::List(values)
        }),
{
    let name = unit.fields[i].name;
    lemma_own_setter_resolves(unit.fields, i, name);
    lemma_first_missing(
        unit.fields,
        step(unit.fields, slots, name, ArgumentView::Many(values)),
        0,
    );
}

/// Calling the accumulator of a repeated field once for each of `values`
/// appends them to what the slot held, in the order of the calls and
/// without dropping repetitions. From an absent slot the final value is
/// exactly `values`.
pub proof fn law_accumulator_appends_in_order(
    unit: UnitView,
    slots: Seq<Option<ValueView>>,
    i: int,
    values: Seq<Seq<char>>,
)
    requires
        clash_free(unit.fields),
        conforms(unit.fields, slots),
        0 <= i < unit.fields.len(),
        unit.fields[i].kind matches KindView::Repeated(_, Some(_)),
    ensures
        ({
            let each = unit.fields[i].kind->Repeated_1->0;
            let after = run(unit.fields, slots, pushes(each, values));
            &&& conforms(unit.fields, after)
            &&& list_in(after[i]) == list_in(slots[i]) + values
            &&& extract(unit.fields[i].kind, after[i]) == Some(
                ValueView::List(list_in(slots[i]) + values),
            )
            &&& forall|j: int| 0 <= j < slots.len() && j != i ==> after[j] == slots[j]
            &&& slots[i] is None ==> extract(unit.fields[i].kind, after[i]) == Some(
                ValueView::List(values),
            )
        }),
    decreases values.len(),
{
    let fields = unit.fields;
    let each = fields[i].kind->Repeated_1->0;
    let calls = pushes(each, values);
    law_run_conforms(fields, slots, calls);
    if values.len() == 0 {
        assert(list_in(slots[i]) + values =~= list_in(slots[i]));
    } else {
        let shorter = values.drop_last();
        assert(calls.drop_last() =~= pushes(each, shorter));
        law_accumulator_appends_in_order(unit, slots, i, shorter);
        lemma_own_setter_resolves(fields, i, each);
        let before = run(fields, slots, pushes(each, shorter));
        assert(calls.last().argument == ArgumentView::One(values.last()));
        assert((list_in(slots[i]) + shorter).push(values.last()) =~= list_in(slots[i]) + values);
    }
    assert(Seq::<Seq<char>>::empty() + values =~= values);
}

/// Finalization reads the slots and leaves them as they are: after a run
/// of no calls at all the slots are the same, and so is the outcome of
/// finalizing again.
pub proof fn law_finalize_twice_same_outcome(unit: UnitView, slots: Seq<Option<ValueView>>)
    ensures
        run(unit.fields, slots, Seq::<Call>::empty()) == slots,
        finalize(unit, run(unit.fields, slots, Seq::<Call>::empty())) == finalize(unit, slots),
{
}

/// An accumulator that bears its field's own name is the only setter of
/// that name: it takes one element, and no setter takes a whole collection
/// under the field's name.
pub proof fn law_accumulator_named_like_field(
    unit: UnitView,
    i: int,
    v: Seq<char>,
    values: Seq<Seq<char>>,
)
    requires
        clash_free(unit.fields),
        0 <= i < unit.fields.len(),
        unit.fields[i].kind matches KindView::Repeated(_, Some(each)) && each
            == unit.fields[i].name,
    ensures
        resolve(unit.fields, unit.fields[i].name, 0) == Some((i, Action::Append)),
        accepts(unit.fields, unit.fields[i].name, ArgumentView::One(v)),
        !accepts(unit.fields, unit.fields[i].name, ArgumentView::Many(values)),
{
    lemma_own_setter_resolves(unit.fields, i, unit.fields[i].name);
}

} // verus!
