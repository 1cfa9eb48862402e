use builder::emit::gen_builder_str_for_struct;
use builder::runtime::{Argument, Outcome, Value};
use builder::schema::{Attribute, BuilderSchema, FailurePolicy, FieldSchema};
use builder::unit::{synthesize, GeneratedUnit};

#[derive(Debug, Clone, PartialEq)]
pub struct Person {
    name: String,
    age: Option<u32>,
    tags: Vec<String>,
}

// What follows, down to the next comment, is the text that the library
// derives for `Person` under the soft policy, compiled as it stands.
impl Person {
pub fn builder() -> Builder { let build = Builder { name: None, age: None, tags: None, }; return build; }
}
pub struct Builder {
name: std::option::Option<String>,
age: std::option::Option<Option<u32>>,
tags: std::option::Option<Vec<String>>,
}
impl Builder {
pub fn name_setter(argument: &std::option::Option<String>) -> String { argument.as_ref().unwrap().clone() }
pub fn name(&mut self, argument: String) -> &mut Self { self.name = Some(argument); self }
pub fn age_setter(argument: &std::option::Option<Option<u32>>) -> Option<u32> { match argument { Some(arg) => arg.clone(), None => None } }
pub fn age(&mut self, argument: u32) -> &mut Self { self.age = Some(Some(argument)); self }
pub fn tags_setter(argument: &std::option::Option<Vec<String>>) -> Vec<String> { match argument { Some(arg) => arg.clone(), None => Vec::new() } }
pub fn tags(&mut self, argument: Vec<String>) -> &mut Self { self.tags = Some(argument); self }
pub fn tag(&mut self, argument: String) -> &mut Self { if self.tags.is_none() { self.tags = Some(Vec::new()); } self.tags.as_mut().unwrap().push(argument); self }
pub fn build(&self) -> std::option::Option<Person> {
if self.name.is_none() { return std::option::Option::None; }
return std::option::Option::Some(Person { name: Self::name_setter(&self.name), age: Self::age_setter(&self.age), tags: Self::tags_setter(&self.tags), });
}
}
// Here the derived text ends.

const DERIVED: &str = "impl Person {
pub fn builder() -> Builder { let build = Builder { name: None, age: None, tags: None, }; return build; }
}
pub struct Builder {
name: std::option::Option<String>,
age: std::option::Option<Option<u32>>,
tags: std::option::Option<Vec<String>>,
}
impl Builder {
pub fn name_setter(argument: &std::option::Option<String>) -> String { argument.as_ref().unwrap().clone() }
pub fn name(&mut self, argument: String) -> &mut Self { self.name = Some(argument); self }
pub fn age_setter(argument: &std::option::Option<Option<u32>>) -> Option<u32> { match argument { Some(arg) => arg.clone(), None => None } }
pub fn age(&mut self, argument: u32) -> &mut Self { self.age = Some(Some(argument)); self }
pub fn tags_setter(argument: &std::option::Option<Vec<String>>) -> Vec<String> { match argument { Some(arg) => arg.clone(), None => Vec::new() } }
pub fn tags(&mut self, argument: Vec<String>) -> &mut Self { self.tags = Some(argument); self }
pub fn tag(&mut self, argument: String) -> &mut Self { if self.tags.is_none() { self.tags = Some(Vec::new()); } self.tags.as_mut().unwrap().push(argument); self }
pub fn build(&self) -> std::option::Option<Person> {
if self.name.is_none() { return std::option::Option::None; }
return std::option::Option::Some(Person { name: Self::name_setter(&self.name), age: Self::age_setter(&self.age), tags: Self::tags_setter(&self.tags), });
}
}
";

fn person_unit() -> GeneratedUnit {
    let plain = |name: &str, declared_type: &str| FieldSchema {
        name: name.to_string(),
        declared_type: declared_type.to_string(),
        attrs: Vec::new(),
    };
    let mut tags = plain("tags", "Vec<String>");
    tags.attrs.push(Attribute {
        path: "builder".to_string(),
        args: Some("each = \"tag\"".to_string()),
    });
    let schema = BuilderSchema {
        name: "Person".to_string(),
        fields: vec![plain("name", "String"), plain("age", "Option<u32>"), tags],
    };
    synthesize(&schema, FailurePolicy::Soft).unwrap()
}

/// What the model says of a built person, as a person.
fn person_of(outcome: Outcome) -> Option<Person> {
    match outcome {
        Outcome::Built(values) => match (&values[0], &values[1], &values[2]) {
            (Value::Scalar(name), Value::Optional(age), Value::List(tags)) => Some(Person {
                name: name.clone(),
                age: age.as_ref().map(|a| a.parse().unwrap()),
                tags: tags.clone(),
            }),
            _ => panic!("a person has a name, an age and tags"),
        },
        Outcome::NoResult => None,
        Outcome::Aborted(diagnostic) => panic!("{}", diagnostic),
    }
}

fn one(v: &str) -> Argument {
    Argument::One(v.to_string())
}

#[test]
fn the_compiled_text_is_the_derived_text() {
    assert_eq!(gen_builder_str_for_struct(&person_unit()), DERIVED);
}

#[test]
fn the_compiled_builder_builds_alice() {
    let built = Person::builder()
        .name("Alice".to_string())
        .tag("x".to_string())
        .tag("y".to_string())
        .build();
    let expected = Person {
        name: "Alice".to_string(),
        age: None,
        tags: vec!["x".to_string(), "y".to_string()],
    };
    assert_eq!(built, Some(expected));
    let unit = person_unit();
    let modelled =
        unit.builder().set("name", one("Alice")).set("tag", one("x")).set("tag", one("y")).build();
    assert_eq!(person_of(modelled), built);
}

#[test]
fn the_compiled_builder_fails_without_a_name() {
    let built = Person::builder().tag("x".to_string()).build();
    assert_eq!(built, None);
    let unit = person_unit();
    assert_eq!(person_of(unit.builder().set("tag", one("x")).build()), built);
}

#[test]
fn the_compiled_builder_builds_bob() {
    let built = Person::builder().name("Bob".to_string()).build();
    assert_eq!(built, Some(Person { name: "Bob".to_string(), age: None, tags: Vec::new() }));
    let unit = person_unit();
    assert_eq!(person_of(unit.builder().set("name", one("Bob")).build()), built);
}

#[test]
fn the_compiled_builder_and_the_model_agree_step_by_step() {
    let unit = person_unit();
    let mut model = unit.builder();
    let mut real = Person::builder();
    assert_eq!(person_of(model.build()), real.build());
    model.set("tag", one("a"));
    real.tag("a".to_string());
    assert_eq!(person_of(model.build()), real.build());
    model.set("name", one("Carol"));
    real.name("Carol".to_string());
    assert_eq!(person_of(model.build()), real.build());
    assert_eq!(real.build(), real.build());
    model.set("age", one("33"));
    real.age(33);
    assert_eq!(person_of(model.build()), real.build());
    model.set("tags", Argument::Many(vec!["p".to_string(), "q".to_string()]));
    real.tags(vec!["p".to_string(), "q".to_string()]);
    assert_eq!(person_of(model.build()), real.build());
    model.set("tag", one("p"));
    real.tag("p".to_string());
    assert_eq!(person_of(model.build()), real.build());
    assert_eq!(
        real.build(),
        Some(Person {
            name: "Carol".to_string(),
            age: Some(33),
            tags: vec!["p".to_string(), "q".to_string(), "p".to_string()],
        })
    );
}
