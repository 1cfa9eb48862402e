use builder::schema::{
    Attribute, BuilderSchema, FailurePolicy, FieldKind, FieldSchema, SchemaError, SchemaFault,
};
use builder::unit::{assemble, methods_of_field, synthesize, FieldPlan};

fn field(name: &str, declared_type: &str) -> FieldSchema {
    FieldSchema {
        name: name.to_string(),
        declared_type: declared_type.to_string(),
        attrs: Vec::new(),
    }
}

fn field_with(name: &str, declared_type: &str, args: &str) -> FieldSchema {
    FieldSchema {
        name: name.to_string(),
        declared_type: declared_type.to_string(),
        attrs: vec![Attribute { path: "builder".to_string(), args: Some(args.to_string()) }],
    }
}

fn schema(fields: Vec<FieldSchema>) -> BuilderSchema {
    BuilderSchema { name: "Person".to_string(), fields }
}

fn plan(name: &str, declared_type: &str, kind: FieldKind) -> FieldPlan {
    FieldPlan { name: name.to_string(), declared_type: declared_type.to_string(), kind }
}

fn fault(field: &str, fault: SchemaFault) -> SchemaError {
    SchemaError { field: field.to_string(), fault }
}

#[test]
fn fields_are_classified_in_declaration_order() {
    let unit = synthesize(
        &schema(vec![
            field("name", "String"),
            field("age", "Option<u32>"),
            field_with("tags", "Vec<String>", "each = \"tag\""),
        ]),
        FailurePolicy::Soft,
    )
    .unwrap();
    assert_eq!(unit.target(), "Person");
    assert_eq!(unit.policy(), FailurePolicy::Soft);
    assert_eq!(
        unit.fields(),
        &vec![
            plan("name", "String", FieldKind::Required("String".to_string())),
            plan("age", "Option<u32>", FieldKind::OptionalScalar("u32".to_string())),
            plan(
                "tags",
                "Vec<String>",
                FieldKind::Repeated("String".to_string(), Some("tag".to_string()))
            ),
        ]
    );
}

#[test]
fn an_empty_structure_has_a_unit() {
    let unit = synthesize(&schema(Vec::new()), FailurePolicy::Loud).unwrap();
    assert_eq!(unit.fields(), &Vec::new());
    assert_eq!(unit.policy(), FailurePolicy::Loud);
}

#[test]
fn a_fault_names_its_field_and_ends_the_synthesis() {
    let outcome = synthesize(
        &schema(vec![
            field("name", "String"),
            field_with("tags", "Vec<String>", "eac = \"tag\""),
            field("age", "Option<u32>"),
        ]),
        FailurePolicy::Loud,
    );
    assert_eq!(outcome, Err(fault("tags", SchemaFault::NameNotEach)));
}

#[test]
fn the_first_fault_in_declaration_order_is_reported() {
    let outcome = synthesize(
        &schema(vec![
            field_with("a", "String", "each = \"x\""),
            field_with("b", "Vec<u8>", "each"),
        ]),
        FailurePolicy::Loud,
    );
    assert_eq!(outcome, Err(fault("a", SchemaFault::NotACollection)));
}

#[test]
fn a_classification_fault_comes_before_a_clash() {
    let outcome = synthesize(
        &schema(vec![field("a", "u8"), field("a", "u8"), field_with("b", "u8", "each = 1")]),
        FailurePolicy::Loud,
    );
    assert_eq!(outcome, Err(fault("b", SchemaFault::ValueNotString)));
}

#[test]
fn two_fields_of_one_name_clash() {
    let outcome =
        synthesize(&schema(vec![field("a", "u8"), field("b", "u8"), field("a", "String")]), FailurePolicy::Soft);
    assert_eq!(outcome, Err(fault("a", SchemaFault::DuplicateMethod)));
}

#[test]
fn an_accumulator_named_like_another_field_clashes() {
    let outcome = synthesize(
        &schema(vec![field("tag", "String"), field_with("tags", "Vec<String>", "each = \"tag\"")]),
        FailurePolicy::Soft,
    );
    assert_eq!(outcome, Err(fault("tags", SchemaFault::DuplicateMethod)));
    let outcome = synthesize(
        &schema(vec![field_with("tags", "Vec<String>", "each = \"tag\""), field("tag", "String")]),
        FailurePolicy::Soft,
    );
    assert_eq!(outcome, Err(fault("tag", SchemaFault::DuplicateMethod)));
}

#[test]
fn a_field_named_like_a_helper_or_like_finalization_clashes() {
    let outcome = synthesize(
        &schema(vec![field("a", "u8"), field("a_setter", "u8")]),
        FailurePolicy::Soft,
    );
    assert_eq!(outcome, Err(fault("a_setter", SchemaFault::DuplicateMethod)));
    let outcome = synthesize(&schema(vec![field("a", "u8"), field("build", "u8")]), FailurePolicy::Soft);
    assert_eq!(outcome, Err(fault("build", SchemaFault::DuplicateMethod)));
    let outcome = synthesize(
        &schema(vec![field_with("items", "Vec<u8>", "each = \"items_setter\"")]),
        FailurePolicy::Soft,
    );
    assert_eq!(outcome, Err(fault("items", SchemaFault::DuplicateMethod)));
}

#[test]
fn an_accumulator_named_like_its_own_field_is_no_clash() {
    let unit = synthesize(
        &schema(vec![field_with("args", "Vec<String>", "each = \"args\"")]),
        FailurePolicy::Soft,
    )
    .unwrap();
    assert_eq!(
        methods_of_field(&unit.fields()[0]),
        vec!["args_setter".to_string(), "args".to_string()]
    );
}

#[test]
fn a_field_brings_its_helper_and_its_setters() {
    assert_eq!(
        methods_of_field(&plan("name", "String", FieldKind::Required("String".to_string()))),
        vec!["name_setter".to_string(), "name".to_string()]
    );
    assert_eq!(
        methods_of_field(&plan("age", "Option<u8>", FieldKind::OptionalScalar("u8".to_string()))),
        vec!["age_setter".to_string(), "age".to_string()]
    );
    assert_eq!(
        methods_of_field(&plan("tags", "Vec<u8>", FieldKind::Repeated("u8".to_string(), None))),
        vec!["tags_setter".to_string(), "tags".to_string()]
    );
    assert_eq!(
        methods_of_field(&plan(
            "tags",
            "Vec<u8>",
            FieldKind::Repeated("u8".to_string(), Some("tag".to_string()))
        )),
        vec!["tags_setter".to_string(), "tags".to_string(), "tag".to_string()]
    );
}

#[test]
fn classified_fields_are_assembled_as_given() {
    let fields = vec![
        plan("x", "u8", FieldKind::Required("u8".to_string())),
        plan("ys", "Vec<u8>", FieldKind::Repeated("u8".to_string(), Some("y".to_string()))),
    ];
    let unit = assemble("Point".to_string(), FailurePolicy::Loud, fields.clone()).unwrap();
    assert_eq!(unit.target(), "Point");
    assert_eq!(unit.policy(), FailurePolicy::Loud);
    assert_eq!(unit.fields(), &fields);
    let twice = vec![fields[0].clone(), fields[1].clone(), fields[1].clone()];
    assert_eq!(
        assemble("Point".to_string(), FailurePolicy::Loud, twice),
        Err(fault("ys", SchemaFault::DuplicateMethod))
    );
}
