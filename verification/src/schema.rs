//! The data that synthesis starts from, and what classification makes of it.

use crate::text::text_of;
use vstd::prelude::*;

verus! {

/// One attribute written on a field: `#[path(args)]`.
#[derive(Debug, Clone, PartialEq, Eq)]
pub struct Attribute {
    /// The attribute's path, as text.
    pub path: String,
    /// The text between the parentheses; `None` where the attribute has no
    /// parenthesised arguments.
    pub args: Option<String>,
}

/// The mathematical content of an [`Attribute`].
pub struct AttributeView {
    pub path: Seq<char>,
    pub args: Option<Seq<char>>,
}

impl View for Attribute {
    type V = AttributeView;

    open spec fn view(&self) -> AttributeView {
        AttributeView { path: self.path@, args: text_of(self.args) }
    }
}

/// One field of the source structure.
#[derive(Debug, Clone, PartialEq, Eq)]
pub struct FieldSchema {
    /// The field's identifier, unique within its structure.
    pub name: String,
    /// The field's type as its author wrote it.
    pub declared_type: String,
    /// The attributes on the field, in the order written. The first one
    /// under the path `builder` is the field's modifier, wherever it stands.
    pub attrs: Vec<Attribute>,
}

/// The mathematical content of a [`FieldSchema`].
pub struct FieldSchemaView {
    pub name: Seq<char>,
    pub declared_type: Seq<char>,
    pub attrs: Seq<AttributeView>,
}

impl View for FieldSchema {
    type V = FieldSchemaView;

    open spec fn view(&self) -> FieldSchemaView {
        FieldSchemaView {
            name: self.name@,
            declared_type: self.declared_type@,
            attrs: attribute_views(self.attrs@),
        }
    }
}

/// The fields of one source structure, in declaration order, and its name.
#[derive(Debug, Clone, PartialEq, Eq)]
pub struct BuilderSchema {
    /// The name of the source structure.
    pub name: String,
    /// Its fields, in declaration order.
    pub fields: Vec<FieldSchema>,
}

/// The mathematical content of a [`BuilderSchema`].
pub struct BuilderSchemaView {
    pub name: Seq<char>,
    pub fields: Seq<FieldSchemaView>,
}

impl View for BuilderSchema {
    type V = BuilderSchemaView;

    open spec fn view(&self) -> BuilderSchemaView {
        BuilderSchemaView {
            name: self.name@,
            fields: Seq::new(self.fields@.len(), |i: int| self.fields@[i]@),
        }
    }
}

/// The shape of a field, read off the text of its declared type.
#[derive(Debug, Clone, PartialEq, Eq)]
pub enum FieldKind {
    /// A bare type: the field must be set before the target can be built.
    Required(String),
    /// `Option<T>`: leaving the field unset is a legal final value.
    OptionalScalar(String),
    /// `Vec<T>`: leaving the field unset yields an empty collection. The
    /// second component names the setter that appends one element, if any.
    Repeated(String, Option<String>),
}

/// The mathematical content of a [`FieldKind`].
pub enum KindView {
    Required(Seq<char>),
    OptionalScalar(Seq<char>),
    Repeated(Seq<char>, Option<Seq<char>>),
}

impl View for FieldKind {
    type V = KindView;

    open spec fn view(&self) -> KindView {
        match self {
            FieldKind::Required(t) => KindView::Required(t@),
            FieldKind::OptionalScalar(t) => KindView::OptionalScalar(t@),
            FieldKind::Repeated(t, each) => KindView::Repeated(t@, text_of(*each)),
        }
    }
}

/// Why a schema cannot be turned into a builder.
#[derive(Debug, Clone, Copy, PartialEq, Eq, Structural)]
pub enum SchemaFault {
    /// The `builder` attribute has no parenthesised arguments.
    MissingArguments,
    /// The arguments are not an attribute's content at all.
    Unparsable,
    /// The arguments are not of the form `name = value`.
    NotNameValue,
    /// The name before `=` is not a single identifier.
    NameNotIdent,
    /// The name before `=` is not `each`.
    NameNotEach,
    /// The value after `=` is not a string in double quotes.
    ValueNotString,
    /// The string does not hold an identifier.
    AccumulatorNotIdent,
    /// An accumulator is asked for on a field that holds no collection.
    NotACollection,
    /// Two methods of the builder would share one name.
    DuplicateMethod,
}

/// A fault, and the field on which it was found.
#[derive(Debug, Clone, PartialEq, Eq)]
pub struct SchemaError {
    /// The name of the offending field.
    pub field: String,
    /// What is wrong with it.
    pub fault: SchemaFault,
}

/// What finalization does when a required field was never set.
#[derive(Debug, Clone, Copy, PartialEq, Eq, Structural)]
pub enum FailurePolicy {
    /// Finalization returns no result, and says nothing more.
    Soft,
    /// Finalization aborts with a diagnostic that names the field.
    Loud,
}

/// The views of a sequence of attributes.
pub open spec fn attribute_views(attrs: Seq<Attribute>) -> Seq<AttributeView> {
    Seq::new(attrs.len(), |i: int| attrs[i]@)
}

} // verus!
