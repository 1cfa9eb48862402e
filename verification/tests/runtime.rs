use builder::runtime::{find_setter, Action, Argument, Builder, Outcome, Value};
use builder::schema::{Attribute, BuilderSchema, FailurePolicy, FieldSchema};
use builder::unit::{synthesize, GeneratedUnit};

fn field(name: &str, declared_type: &str, each: Option<&str>) -> FieldSchema {
    FieldSchema {
        name: name.to_string(),
        declared_type: declared_type.to_string(),
        attrs: match each {
            Some(e) => vec![Attribute {
                path: "builder".to_string(),
                args: Some(format!("each = \"{}\"", e)),
            }],
            None => Vec::new(),
        },
    }
}

fn person(policy: FailurePolicy) -> GeneratedUnit {
    let schema = BuilderSchema {
        name: "Person".to_string(),
        fields: vec![
            field("name", "String", None),
            field("age", "Option<u32>", None),
            field("tags", "Vec<String>", Some("tag")),
        ],
    };
    synthesize(&schema, policy).unwrap()
}

fn unit_of(fields: Vec<FieldSchema>, policy: FailurePolicy) -> GeneratedUnit {
    synthesize(&BuilderSchema { name: "Target".to_string(), fields }, policy).unwrap()
}

fn one(v: &str) -> Argument {
    Argument::One(v.to_string())
}

fn many(vs: &[&str]) -> Argument {
    Argument::Many(vs.iter().map(|v| v.to_string()).collect())
}

fn list(vs: &[&str]) -> Value {
    Value::List(vs.iter().map(|v| v.to_string()).collect())
}

fn scalar(v: &str) -> Value {
    Value::Scalar(v.to_string())
}

#[test]
fn scenario_name_and_two_tags() {
    let unit = person(FailurePolicy::Soft);
    let built = unit.builder().set("name", one("Alice")).set("tag", one("x")).set("tag", one("y")).build();
    assert_eq!(
        built,
        Outcome::Built(vec![scalar("Alice"), Value::Optional(None), list(&["x", "y"])])
    );
}

#[test]
fn scenario_no_name() {
    let soft = person(FailurePolicy::Soft);
    assert_eq!(soft.builder().set("tag", one("x")).build(), Outcome::NoResult);
    let loud = person(FailurePolicy::Loud);
    assert_eq!(
        loud.builder().set("tag", one("x")).build(),
        Outcome::Aborted("Non-optional param is set to none name".to_string())
    );
}

#[test]
fn scenario_name_alone() {
    let unit = person(FailurePolicy::Loud);
    assert_eq!(
        unit.builder().set("name", one("Bob")).build(),
        Outcome::Built(vec![scalar("Bob"), Value::Optional(None), list(&[])])
    );
}

#[test]
fn a_required_field_fails_until_it_is_set() {
    let unit = unit_of(
        vec![field("a", "u8", None), field("b", "Option<u8>", None), field("c", "u8", None)],
        FailurePolicy::Loud,
    );
    let mut b = unit.builder();
    assert_eq!(b.build(), Outcome::Aborted("Non-optional param is set to none a".to_string()));
    b.set("b", one("1"));
    assert_eq!(b.build(), Outcome::Aborted("Non-optional param is set to none a".to_string()));
    b.set("c", one("3"));
    assert_eq!(b.build(), Outcome::Aborted("Non-optional param is set to none a".to_string()));
    b.set("a", one("0"));
    assert_eq!(
        b.build(),
        Outcome::Built(vec![scalar("0"), Value::Optional(Some("1".to_string())), scalar("3")])
    );
}

#[test]
fn the_first_missing_field_is_named() {
    let unit = unit_of(vec![field("a", "u8", None), field("c", "u8", None)], FailurePolicy::Loud);
    let mut b = unit.builder();
    b.set("a", one("0"));
    assert_eq!(b.build(), Outcome::Aborted("Non-optional param is set to none c".to_string()));
}

#[test]
fn an_optional_field_is_no_value_until_it_is_set() {
    let unit = unit_of(vec![field("age", "Option<u32>", None)], FailurePolicy::Soft);
    let mut b = unit.builder();
    assert_eq!(b.build(), Outcome::Built(vec![Value::Optional(None)]));
    b.set("age", one("41"));
    assert_eq!(b.build(), Outcome::Built(vec![Value::Optional(Some("41".to_string()))]));
    b.set("age", one("42"));
    assert_eq!(b.build(), Outcome::Built(vec![Value::Optional(Some("42".to_string()))]));
}

#[test]
fn a_repeated_field_is_empty_until_it_is_set() {
    let unit = unit_of(vec![field("items", "Vec<String>", None)], FailurePolicy::Soft);
    let mut b = unit.builder();
    assert_eq!(b.build(), Outcome::Built(vec![list(&[])]));
    b.set("items", many(&["a", "b", "c"]));
    assert_eq!(b.build(), Outcome::Built(vec![list(&["a", "b", "c"])]));
}

#[test]
fn a_bulk_set_replaces_what_was_there() {
    let unit = unit_of(vec![field("items", "Vec<String>", Some("item"))], FailurePolicy::Soft);
    let mut b = unit.builder();
    b.set("item", one("x")).set("items", many(&["c", "b", "a", "b"]));
    assert_eq!(b.build(), Outcome::Built(vec![list(&["c", "b", "a", "b"])]));
    b.set("items", many(&[]));
    assert_eq!(b.build(), Outcome::Built(vec![list(&[])]));
    b.set("item", one("z"));
    assert_eq!(b.build(), Outcome::Built(vec![list(&["z"])]));
}

#[test]
fn an_accumulator_appends_in_order_and_keeps_repetitions() {
    let unit = unit_of(vec![field("xs", "Vec<String>", Some("push_x"))], FailurePolicy::Soft);
    let mut b = unit.builder();
    b.set("push_x", one("a")).set("push_x", one("b"));
    assert_eq!(b.build(), Outcome::Built(vec![list(&["a", "b"])]));
    b.set("push_x", one("a"));
    assert_eq!(b.build(), Outcome::Built(vec![list(&["a", "b", "a"])]));
}

#[test]
fn an_accumulator_named_like_its_field_leaves_no_bulk_setter() {
    let unit = unit_of(vec![field("args", "Vec<String>", Some("args"))], FailurePolicy::Soft);
    assert_eq!(find_setter(unit.fields(), "args"), Some((0, Action::Append)));
    let mut b = unit.builder();
    assert!(b.accepts("args", &one("a")));
    assert!(!b.accepts("args", &many(&["a", "b"])));
    b.set("args", many(&["a", "b"]));
    assert_eq!(b.build(), Outcome::Built(vec![list(&[])]));
    b.set("args", one("a")).set("args", one("b"));
    assert_eq!(b.build(), Outcome::Built(vec![list(&["a", "b"])]));
}

#[test]
fn finalizing_twice_gives_the_same_outcome() {
    let unit = person(FailurePolicy::Loud);
    let mut b = unit.builder();
    let first = b.build();
    let second = b.build();
    assert_eq!(first, second);
    assert_eq!(first, Outcome::Aborted("Non-optional param is set to none name".to_string()));
    b.set("name", one("Carol")).set("tag", one("t"));
    let third = b.build();
    let fourth = b.build();
    assert_eq!(third, fourth);
    assert_eq!(
        third,
        Outcome::Built(vec![scalar("Carol"), Value::Optional(None), list(&["t"])])
    );
}

#[test]
fn a_builder_can_go_on_after_finalizing() {
    let unit = person(FailurePolicy::Soft);
    let mut b = unit.builder();
    assert_eq!(b.build(), Outcome::NoResult);
    b.set("name", one("Dan"));
    assert_eq!(
        b.build(),
        Outcome::Built(vec![scalar("Dan"), Value::Optional(None), list(&[])])
    );
    b.set("age", one("7"));
    assert_eq!(
        b.build(),
        Outcome::Built(vec![scalar("Dan"), Value::Optional(Some("7".to_string())), list(&[])])
    );
}

#[test]
fn a_setter_hands_back_the_same_builder() {
    let unit = person(FailurePolicy::Soft);
    let mut b = unit.builder();
    {
        let handle = b.set("name", one("Eve"));
        assert_eq!(
            handle.build(),
            Outcome::Built(vec![scalar("Eve"), Value::Optional(None), list(&[])])
        );
        handle.set("age", one("30"));
    }
    assert_eq!(
        b.build(),
        Outcome::Built(vec![scalar("Eve"), Value::Optional(Some("30".to_string())), list(&[])])
    );
}

#[test]
fn setters_can_be_called_in_any_order() {
    let unit = person(FailurePolicy::Soft);
    let mut forward = unit.builder();
    forward.set("name", one("F")).set("age", one("1")).set("tag", one("t"));
    let mut backward = unit.builder();
    backward.set("tag", one("t")).set("age", one("1")).set("name", one("F"));
    assert_eq!(forward.build(), backward.build());
    assert_eq!(forward, backward);
}

#[test]
fn a_call_that_is_not_accepted_changes_nothing() {
    let unit = person(FailurePolicy::Soft);
    let mut b = unit.builder();
    b.set("name", one("G"));
    let before = b.clone();
    assert!(!b.accepts("nobody", &one("x")));
    assert!(!b.accepts("name", &many(&["x"])));
    assert!(!b.accepts("tags", &one("x")));
    assert!(!b.accepts("name_setter", &one("x")));
    assert!(!b.accepts("build", &one("x")));
    b.set("nobody", one("x")).set("name", many(&["x"])).set("tags", one("x"));
    assert_eq!(b, before);
    assert!(b.accepts("name", &one("x")));
    assert!(b.accepts("age", &one("x")));
    assert!(b.accepts("tags", &many(&["x"])));
    assert!(b.accepts("tag", &one("x")));
}

#[test]
fn setters_are_found_by_name() {
    let unit = person(FailurePolicy::Soft);
    assert_eq!(find_setter(unit.fields(), "name"), Some((0, Action::Store)));
    assert_eq!(find_setter(unit.fields(), "age"), Some((1, Action::StoreSome)));
    assert_eq!(find_setter(unit.fields(), "tags"), Some((2, Action::Replace)));
    assert_eq!(find_setter(unit.fields(), "tag"), Some((2, Action::Append)));
    assert_eq!(find_setter(unit.fields(), "other"), None);
}

#[test]
fn a_fresh_builder_is_made_either_way() {
    let unit = person(FailurePolicy::Soft);
    assert_eq!(Builder::new(&unit), unit.builder());
    assert_eq!(Builder::new(&unit).build(), Outcome::NoResult);
}

#[test]
fn a_structure_without_fields_is_built_at_once() {
    let unit = unit_of(Vec::new(), FailurePolicy::Loud);
    assert_eq!(unit.builder().build(), Outcome::Built(Vec::new()));
}
