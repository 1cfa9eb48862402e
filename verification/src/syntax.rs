//! The two questions that this library puts to the `syn` parser.
//!
//! Nothing here is proved. Each function hands a text to `syn` and turns the
//! answer into plain values; its contract says only that the answer depends
//! on the text alone, by giving that answer a name. The crate asks for
//! `proc-macro2` without its bridge to the compiler, so that a text is lexed
//! by the same code wherever the library runs.

use vstd::prelude::*;

verus! {

/// What the arguments of an attribute turned out to be.
#[derive(Debug, Clone, PartialEq, Eq)]
pub enum Meta {
    /// A bare path, such as `each`.
    Path,
    /// A path followed by delimited tokens, such as `each(tag)`.
    List,
    /// A path, an equals sign and a value, such as `each = "tag"`.
    NameValue {
        /// The path, where it is a single identifier.
        name: Option<String>,
        /// The value, printed as tokens.
        value: String,
    },
}

/// The mathematical content of a [`Meta`].
pub enum MetaShape {
    Path,
    List,
    NameValue { name: Option<Seq<char>>, value: Seq<char> },
}

impl View for Meta {
    type V = MetaShape;

    open spec fn view(&self) -> MetaShape {
        match self {
            Meta::Path => MetaShape::Path,
            Meta::List => MetaShape::List,
            Meta::NameValue { name, value } => MetaShape::NameValue {
                name: match name {
                    Some(n) => Some(n@),
                    None => None,
                },
                value: value@,
            },
        }
    }
}

/// The shape of a parsed attribute content, where there is one.
pub open spec fn shape_of(meta: Option<Meta>) -> Option<MetaShape> {
    match meta {
        Some(m) => Some(m@),
        None => None,
    }
}

/// What `syn` reads out of `args` as the content of an attribute: its shape,
/// or `None` where `syn` rejects the text.
pub uninterp spec fn parsed_meta(args: Seq<char>) -> Option<MetaShape>;

/// The identifier that `syn` reads out of `name`, or `None` where `syn` finds
/// no identifier there, or more than one, or a keyword.
pub uninterp spec fn parsed_ident(name: Seq<char>) -> Option<Seq<char>>;

/// Parses `args` with `syn::parse_str::<syn::Meta>` and keeps the variant;
/// of a name-value pair also the name, where `syn::Path::get_ident` finds a
/// single identifier, and the tokens of the value as text. The contract
/// claims that the outcome is a function of `args`, and nothing about which
/// texts are read how.
#[verifier::external_body]
pub(crate) fn parse_meta(args: &str) -> (r: Option<Meta>)
    ensures
        shape_of(r) == parsed_meta(args@),
{
    match syn::parse_str::<syn::Meta>(args) {
        Ok(syn::Meta::Path(_)) => Some(Meta::Path),
        Ok(syn::Meta::List(_)) => Some(Meta::List),
        Ok(syn::Meta::NameValue(pair)) => Some(
            Meta::NameValue {
                name: pair.path.get_ident().map(|ident| ident.to_string()),
                value: quote::ToTokens::to_token_stream(&pair.value).to_string(),
            },
        ),
        Err(_) => None,
    }
}

/// Parses `name` with `syn::parse_str::<syn::Ident>` and hands back the
/// identifier as text. The contract claims that the outcome is a function of
/// `name`, and nothing about which texts are identifiers.
#[verifier::external_body]
pub(crate) fn parse_ident(name: &str) -> (r: Option<String>)
    ensures
        crate::text::text_of(r) == parsed_ident(name@),
{
    match syn::parse_str::<syn::Ident>(name) {
        Ok(ident) => Some(ident.to_string()),
        Err(_) => None,
    }
}

} // verus!
