//! From a field's declared type and attributes to its kind.

use crate::schema::{attribute_views, Attribute, AttributeView, FieldKind, KindView, SchemaFault};
use crate::syntax::{parse_ident, parse_meta, parsed_ident, parsed_meta, Meta, MetaShape};
use crate::text::{generic_argument, quoted, same_text, text_of, unquote, unwrap_generic};
use vstd::prelude::*;

verus! {

/// The text in a result that holds a string.
pub open spec fn text_in(r: Result<String, SchemaFault>) -> Result<Seq<char>, SchemaFault> {
    match r {
        Ok(s) => Ok(s@),
        Err(f) => Err(f),
    }
}

/// The text in a result that may hold a string.
pub open spec fn name_in(r: Result<Option<String>, SchemaFault>) -> Result<
    Option<Seq<char>>,
    SchemaFault,
> {
    match r {
        Ok(o) => Ok(text_of(o)),
        Err(f) => Err(f),
    }
}

/// The kind in a result of classification.
pub open spec fn kind_in(r: Result<FieldKind, SchemaFault>) -> Result<KindView, SchemaFault> {
    match r {
        Ok(k) => Ok(k@),
        Err(f) => Err(f),
    }
}

/// The quoted text of a modifier `each = "<text>"`, read off the parsed
/// content of the attribute; the fault where the content has another form.
pub open spec fn each_value(meta: Option<MetaShape>) -> Result<Seq<char>, SchemaFault> {
    match meta {
        None => Err(SchemaFault::Unparsable),
        Some(MetaShape::Path) => Err(SchemaFault::NotNameValue),
        Some(MetaShape::List) => Err(SchemaFault::NotNameValue),
        Some(MetaShape::NameValue { name: None, value }) => Err(SchemaFault::NameNotIdent),
        Some(MetaShape::NameValue { name: Some(n), value }) => if n != "each"@ {
            Err(SchemaFault::NameNotEach)
        } else {
            match quoted(value) {
                Some(q) => Ok(q),
                None => Err(SchemaFault::ValueNotString),
            }
        },
    }
}

/// The accumulator that the quoted text names: the text itself, where it
/// is an identifier and nothing more, so that the identifier read out of it
/// is the text again. Any other text is a fault.
pub open spec fn accumulator_named(quoted: Seq<char>, ident: Option<Seq<char>>) -> Result<
    Seq<char>,
    SchemaFault,
> {
    if ident == Some(quoted) {
        Ok(quoted)
    } else {
        Err(SchemaFault::AccumulatorNotIdent)
    }
}

/// The accumulator that the arguments `args` of a `builder` attribute name.
pub open spec fn accumulator(args: Seq<char>) -> Result<Seq<char>, SchemaFault> {
    match each_value(parsed_meta(args)) {
        Ok(q) => accumulator_named(q, parsed_ident(q)),
        Err(f) => Err(f),
    }
}

/// The place, from `k` on, of the first attribute under the path `builder`.
pub open spec fn first_builder(attrs: Seq<AttributeView>, k: int) -> Option<int>
    decreases attrs.len() - k,
{
    if k >= attrs.len() {
        None
    } else if attrs[k].path == "builder"@ {
        Some(k)
    } else {
        first_builder(attrs, k + 1)
    }
}

/// The accumulator that a field's attributes ask for. The first attribute
/// under the path `builder` decides, wherever it stands among the others:
/// it names the accumulator or is a fault. A field without such an
/// attribute asks for none.
pub open spec fn each_attribute(attrs: Seq<AttributeView>) -> Result<
    Option<Seq<char>>,
    SchemaFault,
> {
    match first_builder(attrs, 0) {
        None => Ok(None),
        Some(k) => match attrs[k].args {
            None => Err(SchemaFault::MissingArguments),
            Some(args) => match accumulator(args) {
                Ok(name) => Ok(Some(name)),
                Err(f) => Err(f),
            },
        },
    }
}

/// The kind of a field whose declared type is `declared_type` and whose
/// attributes ask for the accumulator `each`.
///
/// `Option<T>` is optional, whatever the attributes ask for. `Vec<T>` is
/// repeated and keeps the accumulator. Any other text is required, and
/// cannot have an accumulator. Only the text decides: a type that is an
/// option or a vector under another name is required.
pub open spec fn kind_of(declared_type: Seq<char>, each: Option<Seq<char>>) -> Result<
    KindView,
    SchemaFault,
> {
    match generic_argument(declared_type, "Option"@) {
        Some(t) => Ok(KindView::OptionalScalar(t)),
        None => match generic_argument(declared_type, "Vec"@) {
            Some(t) => Ok(KindView::Repeated(t, each)),
            None => if each is Some {
                Err(SchemaFault::NotACollection)
            } else {
                Ok(KindView::Required(declared_type))
            },
        },
    }
}

/// The kind of a field, from its declared type and its attributes. A faulty
/// modifier is a fault on any field, also where the kind has no use for it.
pub open spec fn classification(declared_type: Seq<char>, attrs: Seq<AttributeView>) -> Result<
    KindView,
    SchemaFault,
> {
    match each_attribute(attrs) {
        Ok(each) => kind_of(declared_type, each),
        Err(f) => Err(f),
    }
}

/// Reads the quoted text of `each = "<text>"` off the parsed content of an
/// attribute.
pub fn each_value_of(meta: Option<Meta>) -> (r: Result<String, SchemaFault>)
    ensures
        text_in(r) == each_value(crate::syntax::shape_of(meta)),
{
    match meta {
        None => Err(SchemaFault::Unparsable),
        Some(Meta::Path) => Err(SchemaFault::NotNameValue),
        Some(Meta::List) => Err(SchemaFault::NotNameValue),
        Some(Meta::NameValue { name: None, value }) => Err(SchemaFault::NameNotIdent),
        Some(Meta::NameValue { name: Some(n), value }) => {
            if !same_text(n.as_str(), "each") {
                Err(SchemaFault::NameNotEach)
            } else {
                match unquote(value.as_str()) {
                    Some(q) => Ok(q),
                    None => Err(SchemaFault::ValueNotString),
                }
            }
        },
    }
}

/// Takes the quoted text as the accumulator's name, where the identifier
/// read out of it is that very text.
pub fn accumulator_of(quoted: String, ident: Option<String>) -> (r: Result<String, SchemaFault>)
    ensures
        text_in(r) == accumulator_named(quoted@, text_of(ident)),
{
    match ident {
        Some(id) => if same_text(id.as_str(), quoted.as_str()) {
            Ok(quoted)
        } else {
            Err(SchemaFault::AccumulatorNotIdent)
        },
        None => Err(SchemaFault::AccumulatorNotIdent),
    }
}

/// Reads the arguments of a `builder` attribute: `each = "<name>"` gives the
/// name, anything else a fault.
pub fn parse_modifier(args: &str) -> (r: Result<String, SchemaFault>)
    ensures
        text_in(r) == accumulator(args@),
{
    match each_value_of(parse_meta(args)) {
        Ok(q) => {
            let ident = parse_ident(q.as_str());
            accumulator_of(q, ident)
        },
        Err(f) => Err(f),
    }
}

/// Looks for the modifier among a field's attributes and gives the
/// accumulator it names, `None` where the field has no modifier. The first
/// attribute under the path `builder` is the modifier, whatever stands
/// before it.
pub fn parse_each_attribute(attr_vec: &Vec<Attribute>) -> (r: Result<Option<String>, SchemaFault>)
    ensures
        name_in(r) == each_attribute(attribute_views(attr_vec@)),
{
    let ghost attrs = attribute_views(attr_vec@);
    let mut k: usize = 0;
    while k < attr_vec.len()
        invariant
            k <= attr_vec@.len(),
            attrs == attribute_views(attr_vec@),
            first_builder(attrs, k as int) == first_builder(attrs, 0),
        decreases attr_vec@.len() - k,
    {
        let attr = &attr_vec[k];
        assert(attrs[k as int] == attr@);
        if same_text(attr.path.as_str(), "builder") {
            return match &attr.args {
                None => Err(SchemaFault::MissingArguments),
                Some(args) => match parse_modifier(args.as_str()) {
                    Ok(name) => Ok(Some(name)),
                    Err(f) => Err(f),
                },
            };
        }
        k += 1;
    }
    Ok(None)
}

/// The first attribute under the path `builder` is one, and none stands
/// before it; where there is no first, there is none at all.
pub proof fn lemma_first_builder(attrs: Seq<AttributeView>, k: int)
    requires
        0 <= k,
    ensures
        first_builder(attrs, k) matches Some(i) ==> k <= i < attrs.len() && attrs[i].path
            == "builder"@ && forall|j: int| k <= j < i ==> attrs[j].path != "builder"@,
        first_builder(attrs, k) is None ==> forall|j: int|
            k <= j < attrs.len() ==> attrs[j].path != "builder"@,
    decreases attrs.len() - k,
{
    if k < attrs.len() && attrs[k].path != "builder"@ {
        lemma_first_builder(attrs, k + 1);
    }
}

/// A modifier is never passed over because of its place: a field asks for
/// no accumulator, without a fault, exactly where none of its attributes
/// stands under the path `builder`. What stands before the first such
/// attribute, and what stands after it, changes nothing.
pub proof fn law_modifier_found_wherever_it_stands(
    before: Seq<AttributeView>,
    modifier: AttributeView,
    after: Seq<AttributeView>,
)
    requires
        modifier.path == "builder"@,
        forall|j: int| 0 <= j < before.len() ==> before[j].path != "builder"@,
    ensures
        each_attribute(before.push(modifier) + after) == each_attribute(seq![modifier]),
        each_attribute(before.push(modifier) + after) != Ok::<Option<Seq<char>>, SchemaFault>(
            None,
        ),
        each_attribute(before + after) == each_attribute(after),
{
    let all = before.push(modifier) + after;
    lemma_first_builder(all, 0);
    let at = before.len() as int;
    assert(all[at] == modifier);
    assert forall|j: int| 0 <= j < at implies all[j].path != "builder"@ by {
        assert(all[j] == before[j]);
    }
    assert(first_builder(all, 0) == Some(at));
    let alone = seq![modifier];
    assert(alone[0] == modifier);
    assert(first_builder(alone, 0) == Some(0int));
    lemma_skip_others(before, after);
}

/// Attributes under other paths can stand first without a change.
pub proof fn lemma_skip_others(before: Seq<AttributeView>, after: Seq<AttributeView>)
    requires
        forall|j: int| 0 <= j < before.len() ==> before[j].path != "builder"@,
    ensures
        each_attribute(before + after) == each_attribute(after),
{
    let all = before + after;
    let shift = before.len() as int;
    lemma_first_builder(all, 0);
    lemma_first_builder(after, 0);
    assert forall|j: int| 0 <= j < all.len() implies all[j] == (if j < shift {
        before[j]
    } else {
        after[j - shift]
    }) by {}
    match first_builder(after, 0) {
        Some(i) => {
            assert(all[shift + i] == after[i]);
            assert(first_builder(all, 0) == Some(shift + i));
        },
        None => {
            assert(first_builder(all, 0) is None);
        },
    }
}

/// A field asks for no accumulator, and is no fault, exactly where none of
/// its attributes stands under the path `builder`.
pub proof fn law_no_modifier_means_no_builder_attribute(attrs: Seq<AttributeView>)
    ensures
        each_attribute(attrs) == Ok::<Option<Seq<char>>, SchemaFault>(None) <==> forall|j: int|
            0 <= j < attrs.len() ==> attrs[j].path != "builder"@,
{
    lemma_first_builder(attrs, 0);
}

/// Classifies a field by the text of its declared type, given the
/// accumulator that its attributes ask for.
pub fn classify_with(declared_type: &str, each: Option<String>) -> (r: Result<
    FieldKind,
    SchemaFault,
>)
    ensures
        kind_in(r) == kind_of(declared_type@, text_of(each)),
{
    match unwrap_generic(declared_type, "Option") {
        Some(t) => Ok(FieldKind::OptionalScalar(t)),
        None => match unwrap_generic(declared_type, "Vec") {
            Some(t) => Ok(FieldKind::Repeated(t, each)),
            None => if each.is_some() {
                Err(SchemaFault::NotACollection)
            } else {
                Ok(FieldKind::Required(declared_type.to_owned()))
            },
        },
    }
}

/// Classifies a field from its declared type and its attributes.
pub fn classify(declared_type: &str, attrs: &Vec<Attribute>) -> (r: Result<FieldKind, SchemaFault>)
    ensures
        kind_in(r) == classification(declared_type@, attribute_views(attrs@)),
{
    match parse_each_attribute(attrs) {
        Ok(each) => classify_with(declared_type, each),
        Err(f) => Err(f),
    }
}

} // verus!
