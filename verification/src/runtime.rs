//! What a generated builder does when it runs.
//!
//! The text of a unit is Rust source, and its meaning is Rust's. This module
//! gives the same unit a meaning on plain values: a [`Builder`] holds one
//! slot per field, the setters of the unit fill the slots, and finalization
//! extracts the target's fields from them. Values of the fields' own types
//! are stood for by their text.

use crate::schema::{FailurePolicy, FieldKind, KindView};
use crate::text::{copy_texts, same_text, texts};
use crate::unit::{plan_views, FieldPlan, GeneratedUnit, PlanView, UnitView};
use vstd::prelude::*;

verus! {

/// What a slot holds once set, and what finalization makes of it.
#[derive(Debug, Clone, PartialEq, Eq)]
pub enum Value {
    /// The value of a required field.
    Scalar(String),
    /// The value of an optional field: present or not.
    Optional(Option<String>),
    /// The elements of a repeated field, in order.
    List(Vec<String>),
}

/// The mathematical content of a [`Value`].
pub enum ValueView {
    Scalar(Seq<char>),
    Optional(Option<Seq<char>>),
    List(Seq<Seq<char>>),
}

impl View for Value {
    type V = ValueView;

    open spec fn view(&self) -> ValueView {
        match self {
            Value::Scalar(v) => ValueView::Scalar(v@),
            Value::Optional(o) => ValueView::Optional(crate::text::text_of(*o)),
            Value::List(l) => ValueView::List(texts(l@)),
        }
    }
}

/// What a setter is called with.
#[derive(Debug, Clone, PartialEq, Eq)]
pub enum Argument {
    /// One value.
    One(String),
    /// A whole collection.
    Many(Vec<String>),
}

/// The mathematical content of an [`Argument`].
pub enum ArgumentView {
    One(Seq<char>),
    Many(Seq<Seq<char>>),
}

impl View for Argument {
    type V = ArgumentView;

    open spec fn view(&self) -> ArgumentView {
        match self {
            Argument::One(v) => ArgumentView::One(v@),
            Argument::Many(l) => ArgumentView::Many(texts(l@)),
        }
    }
}

/// How finalization ended.
#[derive(Debug, Clone, PartialEq, Eq)]
pub enum Outcome {
    /// The target was built: the final values of its fields, in declaration
    /// order.
    Built(Vec<Value>),
    /// A required field was missing, and the policy is to say no more.
    NoResult,
    /// A required field was missing, and the policy is to abort with this
    /// diagnostic.
    Aborted(String),
}

/// The mathematical content of an [`Outcome`].
pub enum OutcomeView {
    Built(Seq<ValueView>),
    NoResult,
    Aborted(Seq<char>),
}

impl View for Outcome {
    type V = OutcomeView;

    open spec fn view(&self) -> OutcomeView {
        match self {
            Outcome::Built(values) => OutcomeView::Built(value_views(values@)),
            Outcome::NoResult => OutcomeView::NoResult,
            Outcome::Aborted(diagnostic) => OutcomeView::Aborted(diagnostic@),
        }
    }
}

/// The views of a sequence of values.
pub open spec fn value_views(values: Seq<Value>) -> Seq<ValueView> {
    Seq::new(values.len(), |i: int| values[i]@)
}

/// The view of a slot.
pub open spec fn slot_view(slot: Option<Value>) -> Option<ValueView> {
    match slot {
        Some(v) => Some(v@),
        None => None,
    }
}

/// The views of a sequence of slots.
pub open spec fn slot_views(slots: Seq<Option<Value>>) -> Seq<Option<ValueView>> {
    Seq::new(slots.len(), |i: int| slot_view(slots[i]))
}

/// What a setter does to its slot.
#[derive(Debug, Clone, Copy, PartialEq, Eq, Structural)]
pub enum Action {
    /// Stores the argument as the value of a required field.
    Store,
    /// Stores the argument as the present value of an optional field.
    StoreSome,
    /// Stores the argument as the whole collection of a repeated field.
    Replace,
    /// Appends the argument to the collection of a repeated field.
    Append,
}

/// What the setter `name` of the field `f` does, if `f` has such a setter.
/// An accumulator named like its field leaves no setter for the whole
/// collection.
pub open spec fn setter_action(f: PlanView, name: Seq<char>) -> Option<Action> {
    match f.kind {
        KindView::Required(_) => if name == f.name {
            Some(Action::Store)
        } else {
            None
        },
        KindView::OptionalScalar(_) => if name == f.name {
            Some(Action::StoreSome)
        } else {
            None
        },
        KindView::Repeated(_, each) => if each == Some(name) {
            Some(Action::Append)
        } else if name == f.name {
            Some(Action::Replace)
        } else {
            None
        },
    }
}

/// The first field from `k` on that has a setter `name`, and what that
/// setter does.
pub open spec fn resolve(fields: Seq<PlanView>, name: Seq<char>, k: int) -> Option<(int, Action)>
    decreases fields.len() - k,
{
    if k >= fields.len() {
        None
    } else {
        match setter_action(fields[k], name) {
            Some(action) => Some((k, action)),
            None => resolve(fields, name, k + 1),
        }
    }
}

/// Whether a setter that does `action` takes `argument`.
pub open spec fn fits(action: Action, argument: ArgumentView) -> bool {
    match action {
        Action::Replace => argument is Many,
        _ => argument is One,
    }
}

/// Whether the builder has a setter `name` that takes `argument`.
pub open spec fn accepts(fields: Seq<PlanView>, name: Seq<char>, argument: ArgumentView) -> bool {
    match resolve(fields, name, 0) {
        Some((_, action)) => fits(action, argument),
        None => false,
    }
}

/// The collection in a slot; empty where the slot is absent.
pub open spec fn list_in(slot: Option<ValueView>) -> Seq<Seq<char>> {
    match slot {
        Some(ValueView::List(l)) => l,
        _ => Seq::empty(),
    }
}

/// The slot after a setter that does `action` was called with `argument`.
pub open spec fn stored(action: Action, slot: Option<ValueView>, argument: ArgumentView) -> Option<
    ValueView,
> {
    match (action, argument) {
        (Action::Store, ArgumentView::One(v)) => Some(ValueView::Scalar(v)),
        (Action::StoreSome, ArgumentView::One(v)) => Some(ValueView::Optional(Some(v))),
        (Action::Replace, ArgumentView::Many(l)) => Some(ValueView::List(l)),
        (Action::Append, ArgumentView::One(v)) => Some(ValueView::List(list_in(slot).push(v))),
        _ => slot,
    }
}

/// The slots after the setter `name` was called with `argument`. A call
/// that the builder does not accept changes nothing.
pub open spec fn step(
    fields: Seq<PlanView>,
    slots: Seq<Option<ValueView>>,
    name: Seq<char>,
    argument: ArgumentView,
) -> Seq<Option<ValueView>> {
    match resolve(fields, name, 0) {
        Some((i, action)) => if 0 <= i < slots.len() {
            slots.update(i, stored(action, slots[i], argument))
        } else {
            slots
        },
        None => slots,
    }
}

/// The slots of a fresh builder of `n` fields: all absent.
pub open spec fn fresh(n: nat) -> Seq<Option<ValueView>> {
    Seq::new(n, |i: int| None)
}

/// Whether a slot holds what a field of this kind stores.
pub open spec fn shaped(kind: KindView, slot: Option<ValueView>) -> bool {
    match slot {
        None => true,
        Some(ValueView::Scalar(_)) => kind is Required,
        Some(ValueView::Optional(_)) => kind is OptionalScalar,
        Some(ValueView::List(_)) => kind is Repeated,
    }
}

/// Whether there is one slot per field, each holding what its field stores.
pub open spec fn conforms(fields: Seq<PlanView>, slots: Seq<Option<ValueView>>) -> bool {
    &&& slots.len() == fields.len()
    &&& forall|i: int| 0 <= i < fields.len() ==> shaped(fields[i].kind, #[trigger] slots[i])
}

/// The final value of a field, extracted from its slot. Only a required
/// field whose slot is absent has none.
pub open spec fn extract(kind: KindView, slot: Option<ValueView>) -> Option<ValueView> {
    match kind {
        KindView::Required(_) => match slot {
            Some(ValueView::Scalar(v)) => Some(ValueView::Scalar(v)),
            _ => None,
        },
        KindView::OptionalScalar(_) => match slot {
            Some(ValueView::Optional(o)) => Some(ValueView::Optional(o)),
            _ => Some(ValueView::Optional(None)),
        },
        KindView::Repeated(_, _) => match slot {
            Some(ValueView::List(l)) => Some(ValueView::List(l)),
            _ => Some(ValueView::List(Seq::empty())),
        },
    }
}

/// The first field from `k` on that has no final value.
pub open spec fn first_missing(
    fields: Seq<PlanView>,
    slots: Seq<Option<ValueView>>,
    k: int,
) -> Option<int>
    decreases fields.len() - k,
{
    if k >= fields.len() {
        None
    } else if extract(fields[k].kind, slots[k]) is None {
        Some(k)
    } else {
        first_missing(fields, slots, k + 1)
    }
}

/// What the abort on a missing field says.
pub open spec fn diagnostic(name: Seq<char>) -> Seq<char> {
    "Non-optional param is set to none "@ + name
}

/// The outcome of finalization. All fields are checked before anything is
/// built: the first field in declaration order without a final value ends
/// it, as the policy says. Otherwise the target is built from the final
/// values of all fields.
pub open spec fn finalize(unit: UnitView, slots: Seq<Option<ValueView>>) -> OutcomeView {
    match first_missing(unit.fields, slots, 0) {
        Some(i) => match unit.policy {
            FailurePolicy::Soft => OutcomeView::NoResult,
            FailurePolicy::Loud => OutcomeView::Aborted(diagnostic(unit.fields[i].name)),
        },
        None => OutcomeView::Built(
            Seq::new(unit.fields.len(), |i: int| extract(unit.fields[i].kind, slots[i])->0),
        ),
    }
}

/// A running builder of one unit: one slot per field.
#[derive(Debug, Clone, PartialEq, Eq)]
pub struct Builder<'a> {
    unit: &'a GeneratedUnit,
    slots: Vec<Option<Value>>,
}

impl<'a> View for Builder<'a> {
    type V = Seq<Option<ValueView>>;

    closed spec fn view(&self) -> Seq<Option<ValueView>> {
        slot_views(self.slots@)
    }
}


/// The first setter `name` resolves to a field that has it, and no field
/// before has one.
pub proof fn lemma_resolve(fields: Seq<PlanView>, name: Seq<char>, k: int)
    requires
        0 <= k,
    ensures
        resolve(fields, name, k) matches Some((i, action)) ==> k <= i < fields.len()
            && setter_action(fields[i], name) == Some(action) && forall|j: int|
            k <= j < i ==> setter_action(fields[j], name) is None,
        resolve(fields, name, k) is None ==> forall|j: int|
            k <= j < fields.len() ==> setter_action(fields[j], name) is None,
    decreases fields.len() - k,
{
    if k < fields.len() && setter_action(fields[k], name) is None {
        lemma_resolve(fields, name, k + 1);
    }
}

/// A setter leaves one slot per field, each holding what its field stores.
pub proof fn lemma_step_conforms(
    fields: Seq<PlanView>,
    slots: Seq<Option<ValueView>>,
    name: Seq<char>,
    argument: ArgumentView,
)
    requires
        conforms(fields, slots),
    ensures
        conforms(fields, step(fields, slots, name, argument)),
{
    lemma_resolve(fields, name, 0);
}

fn action_of(field: &FieldPlan, name: &str) -> (r: Option<Action>)
    ensures
        r == setter_action(field@, name@),
{
    match &field.kind {
        FieldKind::Required(_) => if same_text(name, field.name.as_str()) {
            Some(Action::Store)
        } else {
            None
        },
        FieldKind::OptionalScalar(_) => if same_text(name, field.name.as_str()) {
            Some(Action::StoreSome)
        } else {
            None
        },
        FieldKind::Repeated(_, each) => {
            let pushes = match each {
                Some(e) => same_text(e.as_str(), name),
                None => false,
            };
            if pushes {
                Some(Action::Append)
            } else if same_text(name, field.name.as_str()) {
                Some(Action::Replace)
            } else {
                None
            }
        },
    }
}

/// Looks up the setter `name` among the fields: the first field that has
/// one, and what the setter does.
pub fn find_setter(fields: &Vec<FieldPlan>, name: &str) -> (r: Option<(usize, Action)>)
    ensures
        resolve(plan_views(fields@), name@, 0) == match r {
            Some((i, action)) => Some((i as int, action)),
            None => None,
        },
        r matches Some((i, _)) ==> i < fields@.len(),
{
    let ghost views = plan_views(fields@);
    let mut k: usize = 0;
    while k < fields.len()
        invariant
            k <= fields@.len(),
            views == plan_views(fields@),
            resolve(views, name@, k as int) == resolve(views, name@, 0),
        decreases fields@.len() - k,
    {
        assert(views[k as int] == fields@[k as int]@);
        match action_of(&fields[k], name) {
            Some(action) => {
                proof {
                    lemma_resolve(views, name@, 0);
                }
                return Some((k, action));
            },
            None => {},
        }
        k += 1;
    }
    None
}

fn is_missing(kind: &FieldKind, slot: &Option<Value>) -> (r: bool)
    ensures
        r == (extract(kind@, slot_view(*slot)) is None),
{
    match kind {
        FieldKind::Required(_) => match slot {
            Some(Value::Scalar(_)) => false,
            _ => true,
        },
        _ => false,
    }
}

fn extract_value(kind: &FieldKind, slot: &Option<Value>) -> (r: Option<Value>)
    ensures
        slot_view(r) == extract(kind@, slot_view(*slot)),
{
    match kind {
        FieldKind::Required(_) => match slot {
            Some(Value::Scalar(v)) => Some(Value::Scalar(v.clone())),
            _ => None,
        },
        FieldKind::OptionalScalar(_) => match slot {
            Some(Value::Optional(Some(v))) => Some(Value::Optional(Some(v.clone()))),
            _ => Some(Value::Optional(None)),
        },
        FieldKind::Repeated(_, _) => match slot {
            Some(Value::List(l)) => Some(Value::List(copy_texts(l))),
            _ => {
                let empty: Vec<String> = Vec::new();
                assert(texts(empty@) =~= Seq::empty());
                Some(Value::List(empty))
            },
        },
    }
}

impl<'a> Builder<'a> {
    /// The unit that this builder runs.
    pub closed spec fn unit(&self) -> UnitView {
        self.unit@
    }

    /// The invariant of a builder: one slot per field of its unit, each
    /// holding what its field stores.
    pub open spec fn wf(&self) -> bool {
        conforms(self.unit().fields, self@)
    }

    /// A fresh builder of `unit`: every slot absent.
    pub fn new(unit: &'a GeneratedUnit) -> (b: Builder<'a>)
        ensures
            b.wf(),
            b.unit() == unit@,
            b@ == fresh(unit@.fields.len()),
    {
        let n: usize = unit.fields().len();
        let mut slots: Vec<Option<Value>> = Vec::new();
        let mut i: usize = 0;
        while i < n
            invariant
                i <= n,
                slots@.len() == i,
                forall|j: int| 0 <= j < i ==> slots@[j] is None,
            decreases n - i,
        {
            slots.push(None);
            i += 1;
        }
        assert(slot_views(slots@) =~= fresh(n as nat));
        Builder { unit, slots }
    }

    /// Whether the builder has a setter `setter` that takes `argument`.
    pub fn accepts(&self, setter: &str, argument: &Argument) -> (r: bool)
        ensures
            r == accepts(self.unit().fields, setter@, argument@),
    {
        match find_setter(self.unit.fields(), setter) {
            Some((_, Action::Replace)) => match argument {
                Argument::Many(_) => true,
                Argument::One(_) => false,
            },
            Some((_, _)) => match argument {
                Argument::One(_) => true,
                Argument::Many(_) => false,
            },
            None => false,
        }
    }

    /// Calls the setter `setter` with `argument`, and hands back the same
    /// builder, so that calls can be chained: whatever is done through the
    /// handle is done to this builder. A call that the builder does not
    /// accept changes nothing.
    pub fn set(&mut self, setter: &str, argument: Argument) -> (ret: &mut Self)
        requires
            old(self).wf(),
        ensures
            ret.wf(),
            ret.unit() == old(self).unit(),
            ret@ == step(old(self).unit().fields, old(self)@, setter@, argument@),
            *final(self) == *final(ret),
    {
        let ghost fields = self.unit@.fields;
        let ghost before = slot_views(self.slots@);
        let ghost arg = argument@;
        proof {
            lemma_step_conforms(fields, before, setter@, arg);
            lemma_resolve(fields, setter@, 0);
        }
        match find_setter(self.unit.fields(), setter) {
            None => {},
            Some((i, action)) => {
                assert(before[i as int] == slot_view(self.slots@[i as int]));
                match (action, argument) {
                    (Action::Store, Argument::One(v)) => {
                        self.slots[i] = Some(Value::Scalar(v));
                    },
                    (Action::StoreSome, Argument::One(v)) => {
                        self.slots[i] = Some(Value::Optional(Some(v)));
                    },
                    (Action::Replace, Argument::Many(l)) => {
                        self.slots[i] = Some(Value::List(l));
                    },
                    (Action::Append, Argument::One(v)) => {
                        let mut list: Vec<String> = match &self.slots[i] {
                            Some(Value::List(l)) => copy_texts(l),
                            _ => Vec::new(),
                        };
                        proof {
                            assert(texts(list@) =~= list_in(before[i as int]));
                            crate::text::lemma_texts_push(list@, v);
                        }
                        list.push(v);
                        self.slots[i] = Some(Value::List(list));
                    },
                    _ => {},
                }
            },
        }
        assert(slot_views(self.slots@) =~= step(fields, before, setter@, arg));
        self
    }

    /// Finalizes: checks every field, then builds the target from copies of
    /// what the slots hold. The builder itself is left as it was, so that
    /// finalizing again gives the same outcome, and more setters can be
    /// called after it.
    pub fn build(&self) -> (r: Outcome)
        requires
            self.wf(),
        ensures
            r@ == finalize(self.unit(), self@),
    {
        let fields = self.unit.fields();
        let ghost views = self.unit@.fields;
        let ghost slots = slot_views(self.slots@);
        let n: usize = fields.len();
        let mut k: usize = 0;
        while k < n
            invariant
                k <= n == fields@.len() == self.slots@.len(),
                views == plan_views(fields@),
                slots == slot_views(self.slots@),
                views == self.unit().fields,
                slots == self@,
                first_missing(views, slots, k as int) == first_missing(views, slots, 0),
            decreases n - k,
        {
            assert(views[k as int] == fields@[k as int]@);
            assert(slots[k as int] == slot_view(self.slots@[k as int]));
            if is_missing(&fields[k].kind, &self.slots[k]) {
                match self.unit.policy() {
                    FailurePolicy::Soft => {
                        return Outcome::NoResult;
                    },
                    FailurePolicy::Loud => {
                        let mut message: String = "Non-optional param is set to none ".to_owned();
                        message.append(fields[k].name.as_str());
                        return Outcome::Aborted(message);
                    },
                }
            }
            k += 1;
        }
        proof {
            lemma_none_missing(views, slots, 0);
        }
        let mut values: Vec<Value> = Vec::new();
        let mut i: usize = 0;
        while i < n
            invariant
                i <= n == fields@.len() == self.slots@.len(),
                views == plan_views(fields@),
                slots == slot_views(self.slots@),
                forall|j: int| 0 <= j < n ==> extract(views[j].kind, slots[j]) is Some,
                values@.len() == i,
                forall|j: int|
                    0 <= j < i ==> Some((#[trigger] values@[j])@) == extract(
                        views[j].kind,
                        slots[j],
                    ),
            decreases n - i,
        {
            assert(views[i as int] == fields@[i as int]@);
            assert(slots[i as int] == slot_view(self.slots@[i as int]));
            match extract_value(&fields[i].kind, &self.slots[i]) {
                Some(value) => {
                    values.push(value);
                },
                None => {},
            }
            i += 1;
        }
        assert(value_views(values@) =~= Seq::new(
            views.len(),
            |i: int| extract(views[i].kind, slots[i])->0,
        ));
        Outcome::Built(values)
    }
}

/// Where no field from `k` on is the first one missing, every one of them
/// has a final value.
pub proof fn lemma_none_missing(fields: Seq<PlanView>, slots: Seq<Option<ValueView>>, k: int)
    requires
        0 <= k,
        first_missing(fields, slots, k) is None,
    ensures
        forall|j: int| k <= j < fields.len() ==> extract(fields[j].kind, slots[j]) is Some,
    decreases fields.len() - k,
{
    if k < fields.len() {
        lemma_none_missing(fields, slots, k + 1);
    }
}

impl GeneratedUnit {
    /// A fresh builder of this unit: every slot absent.
    pub fn builder(&self) -> (b: Builder<'_>)
        ensures
            b.wf(),
            b.unit() == self@,
            b@ == fresh(self@.fields.len()),
    {
        Builder::new(self)
    }
}

} // verus!
