//! The declaration record produced by the parser and consumed by the
//! renderer, its mathematical model, and the parse error taxonomy.

use vstd::prelude::*;

verus! {

/// The mathematical model of a parsed declaration.
#[verifier::ext_equal]
pub ghost struct DeclModel {
    /// The class name.
    pub name: Seq<char>,
    /// The type parameter identifiers, in declaration order.
    pub type_params: Seq<Seq<char>>,
    /// The field names, in declaration order.
    pub fields: Seq<Seq<char>>,
}

impl DeclModel {
    /// A declaration is generic exactly when it has type parameters.
    pub open spec fn is_generic(self) -> bool {
        self.type_params.len() != 0
    }

    /// A well-formed declaration has at least one field; an empty field
    /// list never leaves the parser.
    pub open spec fn wf(self) -> bool {
        self.fields.len() > 0
    }
}

/// A parsed case class declaration: the class name, the type parameter
/// identifiers, and the field names, each in declaration order.
#[derive(Debug, Eq, PartialEq)]
pub struct CaseClass {
    pub name: String,
    pub type_params: Vec<String>,
    pub fields: Vec<String>,
}

impl View for CaseClass {
    type V = DeclModel;

    open spec fn view(&self) -> DeclModel {
        DeclModel {
            name: self.name@,
            type_params: self.type_params.deep_view(),
            fields: self.fields.deep_view(),
        }
    }
}

impl CaseClass {
    /// Whether the declaration carries type parameters.
    pub fn is_generic(&self) -> (b: bool)
        ensures
            b == self@.is_generic(),
    {
        self.type_params.len() != 0
    }
}

/// Why a parse failed. The first failure aborts the whole parse; there is
/// no partial output.
#[derive(Debug, Clone, Copy, PartialEq, Eq, Structural)]
pub enum ParseError {
    /// The outer `case class Name(...)` shape was not found.
    MalformedDeclaration,
    /// A bracketed type parameter entry has no extractable identifier.
    MalformedTypeParameter,
    /// A parenthesized field entry has no `identifier:` prefix.
    MalformedField,
}

impl ParseError {
    /// A human-readable description of the failed parsing stage.
    pub fn message(&self) -> (r: &'static str)
        ensures
            *self is MalformedDeclaration ==> r@ == "could not match the case class declaration"@,
            *self is MalformedTypeParameter ==> r@ == "could not extract a type parameter"@,
            *self is MalformedField ==> r@ == "could not extract a field name"@,
    {
        match self {
            ParseError::MalformedDeclaration => "could not match the case class declaration",
            ParseError::MalformedTypeParameter => "could not extract a type parameter",
            ParseError::MalformedField => "could not extract a field name",
        }
    }
}

} // verus!
