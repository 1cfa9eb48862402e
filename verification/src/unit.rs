//! The classified fields of a structure, and the unit synthesized from them.

use crate::classify::{classification, classify};
use crate::schema::{
    BuilderSchema, BuilderSchemaView, FailurePolicy, FieldKind, FieldSchema,
    FieldSchemaView, KindView, SchemaError, SchemaFault,
};
use crate::text::{holds_text, texts};
use vstd::prelude::*;

verus! {

/// A field together with its kind.
#[derive(Debug, Clone, PartialEq, Eq)]
pub struct FieldPlan {
    /// The field's identifier.
    pub name: String,
    /// The field's type as its author wrote it.
    pub declared_type: String,
    /// The kind that classification gave it.
    pub kind: FieldKind,
}

/// The mathematical content of a [`FieldPlan`].
pub struct PlanView {
    pub name: Seq<char>,
    pub declared_type: Seq<char>,
    pub kind: KindView,
}

impl View for FieldPlan {
    type V = PlanView;

    open spec fn view(&self) -> PlanView {
        PlanView { name: self.name@, declared_type: self.declared_type@, kind: self.kind@ }
    }
}

/// The views of a sequence of plans.
pub open spec fn plan_views(plans: Seq<FieldPlan>) -> Seq<PlanView> {
    Seq::new(plans.len(), |i: int| plans[i]@)
}

/// The mathematical content of a [`SchemaError`].
pub struct ErrorView {
    pub field: Seq<char>,
    pub fault: SchemaFault,
}

impl View for SchemaError {
    type V = ErrorView;

    open spec fn view(&self) -> ErrorView {
        ErrorView { field: self.field@, fault: self.fault }
    }
}

/// The name of the helper that extracts a field's final value.
pub open spec fn helper_name(name: Seq<char>) -> Seq<char> {
    name + "_setter"@
}

/// The names of the methods that a field adds to the builder: its
/// extraction helper, the setter that takes the whole value, and the
/// accumulator. An accumulator named like the field takes the place of the
/// whole-value setter.
pub open spec fn field_methods(f: PlanView) -> Seq<Seq<char>> {
    match f.kind {
        KindView::Repeated(_, Some(each)) => if each == f.name {
            seq![helper_name(f.name), each]
        } else {
            seq![helper_name(f.name), f.name, each]
        },
        _ => seq![helper_name(f.name), f.name],
    }
}

/// The names of the methods of the builder of the first `n` fields,
/// finalization first.
pub open spec fn methods(fields: Seq<PlanView>, n: int) -> Seq<Seq<char>>
    decreases n,
{
    if n <= 0 {
        seq!["build"@]
    } else {
        methods(fields, n - 1) + field_methods(fields[n - 1])
    }
}

/// The first field, from `k` on, with which two methods of the builder
/// come to share a name.
pub open spec fn first_clash(fields: Seq<PlanView>, k: int) -> Option<int>
    decreases fields.len() - k,
{
    if k >= fields.len() {
        None
    } else if !methods(fields, k + 1).no_duplicates() {
        Some(k)
    } else {
        first_clash(fields, k + 1)
    }
}

/// No two methods of the builder share a name.
pub open spec fn clash_free(fields: Seq<PlanView>) -> bool {
    methods(fields, fields.len() as int).no_duplicates()
}

/// The mathematical content of a [`GeneratedUnit`].
pub struct UnitView {
    pub target: Seq<char>,
    pub policy: FailurePolicy,
    pub fields: Seq<PlanView>,
}

/// All that the text of a builder is written from: the name of the target
/// structure, what finalization does on a missing field, and the classified
/// fields in declaration order. No two methods of its builder share a name.
#[derive(Debug, Clone, PartialEq, Eq)]
pub struct GeneratedUnit {
    target: String,
    policy: FailurePolicy,
    fields: Vec<FieldPlan>,
}

impl View for GeneratedUnit {
    type V = UnitView;

    closed spec fn view(&self) -> UnitView {
        UnitView { target: self.target@, policy: self.policy, fields: plan_views(self.fields@) }
    }
}

impl GeneratedUnit {
    /// The invariant of a unit: its builder's methods have distinct names.
    pub open spec fn wf(&self) -> bool {
        clash_free(self@.fields)
    }

    /// The name of the target structure.
    pub fn target(&self) -> (r: &String)
        ensures
            r@ == self@.target,
    {
        &self.target
    }

    /// What finalization does when a required field was never set.
    pub fn policy(&self) -> (r: FailurePolicy)
        ensures
            r == self@.policy,
    {
        self.policy
    }

    /// The classified fields, in declaration order.
    pub fn fields(&self) -> (r: &Vec<FieldPlan>)
        ensures
            plan_views(r@) == self@.fields,
    {
        &self.fields
    }
}

/// The plans of the first `n` fields of a schema, or the first fault.
pub open spec fn planned(fields: Seq<FieldSchemaView>, n: int) -> Result<Seq<PlanView>, ErrorView>
    decreases n,
{
    if n <= 0 {
        Ok(Seq::empty())
    } else {
        match planned(fields, n - 1) {
            Err(e) => Err(e),
            Ok(plans) => {
                let f = fields[n - 1];
                match classification(f.declared_type, f.attrs) {
                    Err(fault) => Err(ErrorView { field: f.name, fault }),
                    Ok(kind) => Ok(
                        plans.push(
                            PlanView { name: f.name, declared_type: f.declared_type, kind },
                        ),
                    ),
                }
            },
        }
    }
}

/// The unit made of classified fields: a fault on the first field that
/// brings a second method of one name, the unit where there is none.
pub open spec fn assembled(target: Seq<char>, policy: FailurePolicy, fields: Seq<PlanView>) -> Result<
    UnitView,
    ErrorView,
> {
    match first_clash(fields, 0) {
        Some(k) => Err(ErrorView { field: fields[k].name, fault: SchemaFault::DuplicateMethod }),
        None => Ok(UnitView { target, policy, fields }),
    }
}

/// The unit synthesized from a schema: every field classified in
/// declaration order, the first fault ending it all, then the fields
/// assembled.
pub open spec fn synthesis(schema: BuilderSchemaView, policy: FailurePolicy) -> Result<
    UnitView,
    ErrorView,
> {
    match planned(schema.fields, schema.fields.len() as int) {
        Err(e) => Err(e),
        Ok(plans) => assembled(schema.name, policy, plans),
    }
}

/// The content of the outcome of a synthesis.
pub open spec fn unit_in(r: Result<GeneratedUnit, SchemaError>) -> Result<UnitView, ErrorView> {
    match r {
        Ok(u) => Ok(u@),
        Err(e) => Err(e@),
    }
}

/// Where no field brings a clash, no two methods share a name; where one
/// does, they do.
pub proof fn lemma_first_clash(fields: Seq<PlanView>, k: int)
    requires
        0 <= k <= fields.len(),
        methods(fields, k).no_duplicates(),
    ensures
        first_clash(fields, k) is None <==> clash_free(fields),
        first_clash(fields, k) matches Some(i) ==> k <= i < fields.len(),
    decreases fields.len() - k,
{
    if k < fields.len() {
        if methods(fields, k + 1).no_duplicates() {
            lemma_first_clash(fields, k + 1);
        } else {
            lemma_methods_prefix(fields, k + 1, fields.len() as int);
        }
    }
}

/// The methods of the first `n` fields come first among those of the first
/// `m`, so a clash among the former is one among the latter.
pub proof fn lemma_methods_prefix(fields: Seq<PlanView>, n: int, m: int)
    requires
        0 <= n <= m,
    ensures
        methods(fields, n).len() <= methods(fields, m).len(),
        methods(fields, m).take(methods(fields, n).len() as int) == methods(fields, n),
        !methods(fields, n).no_duplicates() ==> !methods(fields, m).no_duplicates(),
    decreases m - n,
{
    if n < m {
        lemma_methods_prefix(fields, n, m - 1);
        let a = methods(fields, m - 1);
        let b = methods(fields, m);
        let short = methods(fields, n);
        assert(b.take(short.len() as int) =~= a.take(short.len() as int));
    } else {
        assert(methods(fields, m).take(methods(fields, n).len() as int) =~= methods(fields, n));
    }
    let short = methods(fields, n);
    let long = methods(fields, m);
    if !short.no_duplicates() {
        let (i, j) = choose|i: int, j: int|
            0 <= i < short.len() && 0 <= j < short.len() && i != j && short[i] == short[j];
        assert(long.take(short.len() as int)[i] == long[i]);
        assert(long.take(short.len() as int)[j] == long[j]);
    }
}

/// A fault found among the first `n` fields is the fault of any longer
/// run of fields.
pub proof fn lemma_planned_fault(fields: Seq<FieldSchemaView>, n: int, m: int)
    requires
        0 <= n <= m,
        planned(fields, n) is Err,
    ensures
        planned(fields, m) == planned(fields, n),
    decreases m - n,
{
    if n < m {
        lemma_planned_fault(fields, n, m - 1);
    }
}

/// The names of the methods that a field adds to the builder.
pub fn methods_of_field(field: &FieldPlan) -> (r: Vec<String>)
    ensures
        texts(r@) == field_methods(field@),
{
    let mut names: Vec<String> = Vec::new();
    let mut helper: String = field.name.clone();
    helper.append("_setter");
    names.push(helper);
    match &field.kind {
        FieldKind::Repeated(_, Some(each)) => {
            if !crate::text::same_text(each.as_str(), field.name.as_str()) {
                names.push(field.name.clone());
            }
            names.push(each.clone());
        },
        _ => {
            names.push(field.name.clone());
        },
    }
    assert(texts(names@) =~= field_methods(field@));
    names
}

/// Assembles classified fields into a unit, unless two methods of the
/// builder would share a name.
pub fn assemble(target: String, policy: FailurePolicy, fields: Vec<FieldPlan>) -> (r: Result<
    GeneratedUnit,
    SchemaError,
>)
    ensures
        unit_in(r) == assembled(target@, policy, plan_views(fields@)),
        r matches Ok(u) ==> u.wf(),
{
    let ghost views = plan_views(fields@);
    let mut seen: Vec<String> = Vec::new();
    seen.push("build".to_owned());
    assert(texts(seen@) =~= methods(views, 0));
    let mut k: usize = 0;
    while k < fields.len()
        invariant
            k <= fields@.len(),
            views == plan_views(fields@),
            texts(seen@) == methods(views, k as int),
            texts(seen@).no_duplicates(),
            first_clash(views, k as int) == first_clash(views, 0),
        decreases fields@.len() - k,
    {
        let added = methods_of_field(&fields[k]);
        assert(views[k as int] == fields@[k as int]@);
        let ghost before = texts(seen@);
        let ghost fresh = texts(added@);
        let mut j: usize = 0;
        while j < added.len()
            invariant
                j <= added@.len(),
                k < fields@.len(),
                views == plan_views(fields@),
                before == methods(views, k as int),
                fresh == field_methods(views[k as int]),
                first_clash(views, k as int) == first_clash(views, 0),
                fresh == texts(added@),
                texts(seen@) == before + fresh.take(j as int),
                texts(seen@).no_duplicates(),
            decreases added@.len() - j,
        {
            if holds_text(&seen, added[j].as_str()) {
                proof {
                    let all = before + fresh;
                    let p = texts(seen@).index_of(fresh[j as int]);
                    assert(all[p] == (before + fresh.take(j as int))[p]);
                    assert(all[before.len() + j] == fresh[j as int]);
                    assert(!all.no_duplicates());
                    assert(all == methods(views, k + 1));
                }
                return Err(
                    SchemaError {
                        field: fields[k].name.clone(),
                        fault: SchemaFault::DuplicateMethod,
                    },
                );
            }
            let ghost old_seen = texts(seen@);
            proof {
                crate::text::lemma_texts_push(seen@, added@[j as int]);
            }
            seen.push(added[j].clone());
            j += 1;
            proof {
                assert(texts(seen@) =~= old_seen.push(fresh[j - 1]));
                assert(texts(seen@) =~= before + fresh.take(j as int));
                assert forall|x: int, y: int|
                    0 <= x < texts(seen@).len() && 0 <= y < texts(seen@).len() && x != y implies texts(
                    seen@,
                )[x] != texts(seen@)[y] by {
                    if x < old_seen.len() && y < old_seen.len() {
                        assert(old_seen[x] != old_seen[y]);
                    } else if x < old_seen.len() {
                        assert(old_seen.contains(old_seen[x]));
                    } else {
                        assert(old_seen.contains(old_seen[y]));
                    }
                }
            }
        }
        assert(fresh.take(j as int) =~= fresh);
        k += 1;
    }
    proof {
        lemma_first_clash(views, k as int);
    }
    Ok(GeneratedUnit { target, policy, fields })
}

/// Classifies every field of a schema in declaration order and assembles
/// the unit. The first fault ends the synthesis: nothing is made of a schema
/// with a faulty field.
pub fn synthesize(schema: &BuilderSchema, policy: FailurePolicy) -> (r: Result<
    GeneratedUnit,
    SchemaError,
>)
    ensures
        unit_in(r) == synthesis(schema@, policy),
        r matches Ok(u) ==> u.wf(),
{
    let mut plans: Vec<FieldPlan> = Vec::new();
    let mut i: usize = 0;
    assert(plan_views(plans@) =~= Seq::empty());
    while i < schema.fields.len()
        invariant
            i <= schema.fields@.len(),
            planned(schema@.fields, i as int) == Ok::<Seq<PlanView>, ErrorView>(plan_views(plans@)),
        decreases schema.fields@.len() - i,
    {
        let field: &FieldSchema = &schema.fields[i];
        assert(schema@.fields[i as int] == field@);
        match classify(field.declared_type.as_str(), &field.attrs) {
            Err(fault) => {
                proof {
                    lemma_planned_fault(schema@.fields, i + 1, schema@.fields.len() as int);
                }
                return Err(SchemaError { field: field.name.clone(), fault });
            },
            Ok(kind) => {
                let ghost before = plan_views(plans@);
                let plan = FieldPlan {
                    name: field.name.clone(),
                    declared_type: field.declared_type.clone(),
                    kind,
                };
                let ghost view = plan@;
                plans.push(plan);
                assert(plan_views(plans@) =~= before.push(view));
            },
        }
        i += 1;
    }
    assemble(schema.name.clone(), policy, plans)
}

} // verus!
