//! The source text of a builder, fragment by fragment.
//!
//! Every function here writes one piece of the generated code and states,
//! character for character, what it wrote.

use crate::schema::{FailurePolicy, FieldKind, KindView};
use crate::unit::{plan_views, FieldPlan, GeneratedUnit, PlanView, UnitView};
use vstd::prelude::*;

verus! {

/// The declaration of a field's slot: every slot can be absent, whatever
/// the field's kind.
pub open spec fn member_text(f: PlanView) -> Seq<char> {
    f.name + ": std::option::Option<"@ + f.declared_type + ">,\n"@
}

/// The slot declarations of the first `n` fields.
pub open spec fn members_text(fields: Seq<PlanView>, n: int) -> Seq<char>
    decreases n,
{
    if n <= 0 {
        Seq::empty()
    } else {
        members_text(fields, n - 1) + member_text(fields[n - 1])
    }
}

/// The initial value of a field's slot: absent.
pub open spec fn default_text(f: PlanView) -> Seq<char> {
    f.name + ": None, "@
}

/// The initial values of the slots of the first `n` fields.
pub open spec fn defaults_text(fields: Seq<PlanView>, n: int) -> Seq<char>
    decreases n,
{
    if n <= 0 {
        Seq::empty()
    } else {
        defaults_text(fields, n - 1) + default_text(fields[n - 1])
    }
}

/// The expression that makes a fresh builder.
pub open spec fn default_constructor_text(fields: Seq<PlanView>) -> Seq<char> {
    "Builder { "@ + defaults_text(fields, fields.len() as int) + "}"@
}

/// What the helper that extracts a field's final value does: a required
/// field is unwrapped, an optional one degrades to no value, a repeated one
/// to an empty collection. Each hands out a copy.
pub open spec fn unwrap_body_text(kind: KindView) -> Seq<char> {
    match kind {
        KindView::Required(_) => "argument.as_ref().unwrap().clone()"@,
        KindView::OptionalScalar(_) => "match argument { Some(arg) => arg.clone(), None => None }"@,
        KindView::Repeated(_, _) => "match argument { Some(arg) => arg.clone(), None => Vec::new() }"@,
    }
}

/// The helper that extracts a field's final value from its slot.
pub open spec fn unwrap_text(f: PlanView) -> Seq<char> {
    "pub fn "@ + f.name + "_setter(argument: &std::option::Option<"@ + f.declared_type + ">) -> "@
        + f.declared_type + " { "@ + unwrap_body_text(f.kind) + " }\n"@
}

/// The type of the argument of the setter that takes a field's whole value.
pub open spec fn setter_argument(f: PlanView) -> Seq<char> {
    match f.kind {
        KindView::OptionalScalar(t) => t,
        _ => f.declared_type,
    }
}

/// What the setter that takes a field's whole value stores in the slot.
pub open spec fn setter_value_text(kind: KindView) -> Seq<char> {
    match kind {
        KindView::OptionalScalar(_) => "Some(Some(argument))"@,
        _ => "Some(argument)"@,
    }
}

/// The setter that takes a field's whole value.
pub open spec fn setter_text(f: PlanView) -> Seq<char> {
    "pub fn "@ + f.name + "(&mut self, argument: "@ + setter_argument(f) + ") -> &mut Self { self."@
        + f.name + " = "@ + setter_value_text(f.kind) + "; self }\n"@
}

/// The setter `fname` that appends one `element` to the collection in the
/// slot `argname`, which it makes first where the slot is absent.
pub open spec fn each_setter_text(
    fname: Seq<char>,
    argname: Seq<char>,
    element: Seq<char>,
) -> Seq<char> {
    "pub fn "@ + fname + "(&mut self, argument: "@ + element
        + ") -> &mut Self { if self."@ + argname + ".is_none() { self."@ + argname
        + " = Some(Vec::new()); } self."@ + argname + ".as_mut().unwrap().push(argument); self }\n"@
}

/// The setters of a field. An accumulator named like the field takes the
/// place of the setter for the whole value.
pub open spec fn setters_text(f: PlanView) -> Seq<char> {
    match f.kind {
        KindView::Repeated(element, Some(each)) => if each == f.name {
            each_setter_text(each, f.name, element)
        } else {
            setter_text(f) + each_setter_text(each, f.name, element)
        },
        _ => setter_text(f),
    }
}

/// The extraction helpers and setters of the first `n` fields.
pub open spec fn functions_text(fields: Seq<PlanView>, n: int) -> Seq<char>
    decreases n,
{
    if n <= 0 {
        Seq::empty()
    } else {
        functions_text(fields, n - 1) + unwrap_text(fields[n - 1]) + setters_text(fields[n - 1])
    }
}

/// The check that finalization makes of a field: none but for a required
/// field, whose absence ends finalization as the policy says.
pub open spec fn validator_text(f: PlanView, policy: FailurePolicy) -> Seq<char> {
    match f.kind {
        KindView::Required(_) => match policy {
            FailurePolicy::Loud => "if self."@ + f.name
                + ".is_none() { panic!(\"Non-optional param is set to none {}\", stringify!("@
                + f.name + ")) }\n"@,
            FailurePolicy::Soft => "if self."@ + f.name
                + ".is_none() { return std::option::Option::None; }\n"@,
        },
        _ => Seq::empty(),
    }
}

/// The checks of the first `n` fields.
pub open spec fn validators_text(fields: Seq<PlanView>, policy: FailurePolicy, n: int) -> Seq<char>
    decreases n,
{
    if n <= 0 {
        Seq::empty()
    } else {
        validators_text(fields, policy, n - 1) + validator_text(fields[n - 1], policy)
    }
}

/// The value that finalization gives a field of the target.
pub open spec fn final_field_text(f: PlanView) -> Seq<char> {
    f.name + ": Self::"@ + f.name + "_setter(&self."@ + f.name + "), "@
}

/// The values of the first `n` fields of the target.
pub open spec fn final_fields_text(fields: Seq<PlanView>, n: int) -> Seq<char>
    decreases n,
{
    if n <= 0 {
        Seq::empty()
    } else {
        final_fields_text(fields, n - 1) + final_field_text(fields[n - 1])
    }
}

/// The expression that makes the target from the slots.
pub open spec fn final_constructor_text(fields: Seq<PlanView>, target: Seq<char>) -> Seq<char> {
    target + " { "@ + final_fields_text(fields, fields.len() as int) + "}"@
}

/// The whole unit: the factory on the target, the builder type, and its
/// methods with finalization last.
pub open spec fn unit_text(u: UnitView) -> Seq<char> {
    "impl "@ + u.target + " {\npub fn builder() -> Builder { let build = "@
        + default_constructor_text(u.fields) + "; return build; }\n}\npub struct Builder {\n"@
        + members_text(u.fields, u.fields.len() as int) + "}\nimpl Builder {\n"@ + functions_text(
        u.fields,
        u.fields.len() as int,
    ) + "pub fn build(&self) -> std::option::Option<"@ + u.target + "> {\n"@ + validators_text(
        u.fields,
        u.policy,
        u.fields.len() as int,
    ) + "return std::option::Option::Some("@ + final_constructor_text(u.fields, u.target)
        + ");\n}\n}\n"@
}

/// Writes the helper that extracts a field's final value from its slot.
pub fn create_final_builder_unwrap(field: &FieldPlan) -> (r: String)
    ensures
        r@ == unwrap_text(field@),
{
    let mut out: String = "pub fn ".to_owned();
    out.append(field.name.as_str());
    out.append("_setter(argument: &std::option::Option<");
    out.append(field.declared_type.as_str());
    out.append(">) -> ");
    out.append(field.declared_type.as_str());
    out.append(" { ");
    match &field.kind {
        FieldKind::Required(_) => {
            out.append("argument.as_ref().unwrap().clone()");
        },
        FieldKind::OptionalScalar(_) => {
            out.append("match argument { Some(arg) => arg.clone(), None => None }");
        },
        FieldKind::Repeated(_, _) => {
            out.append("match argument { Some(arg) => arg.clone(), None => Vec::new() }");
        },
    }
    out.append(" }\n");
    out
}

/// Writes the setter that takes a field's whole value.
pub fn create_builder_setter(field: &FieldPlan) -> (r: String)
    ensures
        r@ == setter_text(field@),
{
    let mut out: String = "pub fn ".to_owned();
    out.append(field.name.as_str());
    out.append("(&mut self, argument: ");
    match &field.kind {
        FieldKind::OptionalScalar(t) => {
            out.append(t.as_str());
        },
        _ => {
            out.append(field.declared_type.as_str());
        },
    }
    out.append(") -> &mut Self { self.");
    out.append(field.name.as_str());
    out.append(" = ");
    match &field.kind {
        FieldKind::OptionalScalar(_) => {
            out.append("Some(Some(argument))");
        },
        _ => {
            out.append("Some(argument)");
        },
    }
    out.append("; self }\n");
    out
}

/// Writes the setter `fname` that appends one `element` to the collection
/// in the slot `argname`.
pub fn create_builder_each_setter(fname: &str, argname: &str, element: &str) -> (r: String)
    ensures
        r@ == each_setter_text(fname@, argname@, element@),
{
    let mut out: String = "pub fn ".to_owned();
    out.append(fname);
    out.append("(&mut self, argument: ");
    out.append(element);
    out.append(") -> &mut Self { if self.");
    out.append(argname);
    out.append(".is_none() { self.");
    out.append(argname);
    out.append(" = Some(Vec::new()); } self.");
    out.append(argname);
    out.append(".as_mut().unwrap().push(argument); self }\n");
    out
}

/// Writes the setters of a field.
pub fn create_setters(field: &FieldPlan) -> (r: String)
    ensures
        r@ == setters_text(field@),
{
    match &field.kind {
        FieldKind::Repeated(element, Some(each)) => {
            let pushing = create_builder_each_setter(
                each.as_str(),
                field.name.as_str(),
                element.as_str(),
            );
            if crate::text::same_text(each.as_str(), field.name.as_str()) {
                pushing
            } else {
                let mut out = create_builder_setter(field);
                out.append(pushing.as_str());
                out
            }
        },
        _ => create_builder_setter(field),
    }
}

/// Writes the check that finalization makes of a field.
pub fn validate_field_on_build(field: &FieldPlan, policy: FailurePolicy) -> (r: String)
    ensures
        r@ == validator_text(field@, policy),
{
    match &field.kind {
        FieldKind::Required(_) => {
            let mut out: String = "if self.".to_owned();
            out.append(field.name.as_str());
            match policy {
                FailurePolicy::Loud => {
                    out.append(
                        ".is_none() { panic!(\"Non-optional param is set to none {}\", stringify!(",
                    );
                    out.append(field.name.as_str());
                    out.append(")) }\n");
                },
                FailurePolicy::Soft => {
                    out.append(".is_none() { return std::option::Option::None; }\n");
                },
            }
            out
        },
        _ => String::new(),
    }
}

/// Writes the slot declarations of the builder, one per field.
pub fn generate_member_variables_of_builder(fields: &Vec<FieldPlan>) -> (r: String)
    ensures
        r@ == members_text(plan_views(fields@), fields@.len() as int),
{
    let ghost views = plan_views(fields@);
    let mut out: String = String::new();
    let mut i: usize = 0;
    while i < fields.len()
        invariant
            i <= fields@.len(),
            views == plan_views(fields@),
            out@ == members_text(views, i as int),
        decreases fields@.len() - i,
    {
        let field = &fields[i];
        let mut piece: String = field.name.clone();
        piece.append(": std::option::Option<");
        piece.append(field.declared_type.as_str());
        piece.append(">,\n");
        assert(piece@ == member_text(views[i as int]));
        out.append(piece.as_str());
        i += 1;
    }
    out
}

/// Writes the extraction helper and the setters of every field.
pub fn generate_setter_functions_of_builder(fields: &Vec<FieldPlan>) -> (r: String)
    ensures
        r@ == functions_text(plan_views(fields@), fields@.len() as int),
{
    let ghost views = plan_views(fields@);
    let mut out: String = String::new();
    let mut i: usize = 0;
    while i < fields.len()
        invariant
            i <= fields@.len(),
            views == plan_views(fields@),
            out@ == functions_text(views, i as int),
        decreases fields@.len() - i,
    {
        let field = &fields[i];
        assert(views[i as int] == field@);
        let helper = create_final_builder_unwrap(field);
        let setters = create_setters(field);
        out.append(helper.as_str());
        out.append(setters.as_str());
        i += 1;
    }
    out
}

/// Writes the expression that makes a fresh builder: every slot absent.
pub fn generate_default_setters_for_builder(fields: &Vec<FieldPlan>) -> (r: String)
    ensures
        r@ == default_constructor_text(plan_views(fields@)),
{
    let ghost views = plan_views(fields@);
    let mut inner: String = String::new();
    let mut i: usize = 0;
    while i < fields.len()
        invariant
            i <= fields@.len(),
            views == plan_views(fields@),
            inner@ == defaults_text(views, i as int),
        decreases fields@.len() - i,
    {
        let mut piece: String = fields[i].name.clone();
        piece.append(": None, ");
        assert(piece@ == default_text(views[i as int]));
        inner.append(piece.as_str());
        i += 1;
    }
    let mut out: String = "Builder { ".to_owned();
    out.append(inner.as_str());
    out.append("}");
    out
}

/// Writes the expression that makes the target from the slots, each field
/// through its extraction helper.
pub fn generate_setters_for_final_constructor(fields: &Vec<FieldPlan>, struct_name: &str) -> (r:
    String)
    ensures
        r@ == final_constructor_text(plan_views(fields@), struct_name@),
{
    let ghost views = plan_views(fields@);
    let mut inner: String = String::new();
    let mut i: usize = 0;
    while i < fields.len()
        invariant
            i <= fields@.len(),
            views == plan_views(fields@),
            inner@ == final_fields_text(views, i as int),
        decreases fields@.len() - i,
    {
        let name = fields[i].name.as_str();
        let mut piece: String = name.to_owned();
        piece.append(": Self::");
        piece.append(name);
        piece.append("_setter(&self.");
        piece.append(name);
        piece.append("), ");
        assert(piece@ == final_field_text(views[i as int]));
        inner.append(piece.as_str());
        i += 1;
    }
    let mut out: String = struct_name.to_owned();
    out.append(" { ");
    out.append(inner.as_str());
    out.append("}");
    out
}

/// Writes the checks that finalization makes before it builds the target.
pub fn generate_validators(fields: &Vec<FieldPlan>, policy: FailurePolicy) -> (r: String)
    ensures
        r@ == validators_text(plan_views(fields@), policy, fields@.len() as int),
{
    let ghost views = plan_views(fields@);
    let mut out: String = String::new();
    let mut i: usize = 0;
    while i < fields.len()
        invariant
            i <= fields@.len(),
            views == plan_views(fields@),
            out@ == validators_text(views, policy, i as int),
        decreases fields@.len() - i,
    {
        let field = &fields[i];
        assert(views[i as int] == field@);
        let piece = validate_field_on_build(field, policy);
        out.append(piece.as_str());
        i += 1;
    }
    out
}

/// Writes the whole unit.
pub fn gen_builder_str_for_struct(unit: &GeneratedUnit) -> (r: String)
    ensures
        r@ == unit_text(unit@),
{
    let fields = unit.fields();
    let target = unit.target().as_str();
    let default_constructor = generate_default_setters_for_builder(fields);
    let members = generate_member_variables_of_builder(fields);
    let setters = generate_setter_functions_of_builder(fields);
    let validators = generate_validators(fields, unit.policy());
    let final_constructor = generate_setters_for_final_constructor(fields, target);
    let mut out: String = "impl ".to_owned();
    out.append(target);
    out.append(" {\npub fn builder() -> Builder { let build = ");
    out.append(default_constructor.as_str());
    out.append("; return build; }\n}\npub struct Builder {\n");
    out.append(members.as_str());
    out.append("}\nimpl Builder {\n");
    out.append(setters.as_str());
    out.append("pub fn build(&self) -> std::option::Option<");
    out.append(target);
    out.append("> {\n");
    out.append(validators.as_str());
    out.append("return std::option::Option::Some(");
    out.append(final_constructor.as_str());
    out.append(");\n}\n}\n");
    out
}

} // verus!
