use vstd::prelude::*;

verus! {

/// The closed set of failures this library reports.
#[derive(Debug, Clone, PartialEq, Eq)]
pub enum SpecError {
    /// The spec has no identity, or only the default one.
    MissingRequiredIdent,
    /// Malformed document or field value; carries a diagnostic.
    ServiceSpecParse(String),
    /// A file could not be read or written; carries the path and the cause.
    ServiceSpecFileIO(String, String),
    /// A binding string violates the binding grammar; carries the string.
    InvalidBinding(String),
    /// A service group string violates its grammar; carries the string.
    InvalidServiceGroup(String),
    /// A package identity string violates its grammar; carries the string.
    InvalidPackageIdent(String),
    /// Spec bindings that match neither a required nor an optional package
    /// bind; carries every such name.
    InvalidBinds(Vec<String>),
    /// Required package binds absent from the spec; carries every such name.
    MissingRequiredBind(Vec<String>),
}

/// The mathematical image of a `SpecError`.
pub enum SpecErrV {
    MissingRequiredIdent,
    ServiceSpecParse(Seq<char>),
    ServiceSpecFileIO(Seq<char>, Seq<char>),
    InvalidBinding(Seq<char>),
    InvalidServiceGroup(Seq<char>),
    InvalidPackageIdent(Seq<char>),
    InvalidBinds(Seq<Seq<char>>),
    MissingRequiredBind(Seq<Seq<char>>),
}

impl View for SpecError {
    type V = SpecErrV;

    open spec fn view(&self) -> SpecErrV {
        match self {
            SpecError::MissingRequiredIdent => SpecErrV::MissingRequiredIdent,
            SpecError::ServiceSpecParse(s) => SpecErrV::ServiceSpecParse(s@),
            SpecError::ServiceSpecFileIO(p, c) => SpecErrV::ServiceSpecFileIO(p@, c@),
            SpecError::InvalidBinding(s) => SpecErrV::InvalidBinding(s@),
            SpecError::InvalidServiceGroup(s) => SpecErrV::InvalidServiceGroup(s@),
            SpecError::InvalidPackageIdent(s) => SpecErrV::InvalidPackageIdent(s@),
            SpecError::InvalidBinds(names) => SpecErrV::InvalidBinds(
                names@.map_values(|n: String| n@),
            ),
            SpecError::MissingRequiredBind(names) => SpecErrV::MissingRequiredBind(
                names@.map_values(|n: String| n@),
            ),
        }
    }
}

} // verus!
