//! The failures of declaration and resolution.

use vstd::prelude::*;

verus! {

/// Why a declaration or a resolution was refused.
///
/// Every failure is final: none of them is worth a second attempt with the
/// same arguments.
#[derive(Debug, PartialEq, Eq)]
pub enum DispatchError {
    /// A capability of that name is declared already.
    DuplicateCapability,
    /// A method name occurs twice, or names no method of the capability.
    MalformedSignature,
    /// No capability of that name is declared.
    UnknownCapability,
    /// The type conforms to the capability already.
    DuplicateConformance,
    /// A method is left without a body.
    MissingImplementation,
    /// The type does not conform to the named capability.
    NotImplemented { capability: String },
    /// Arguments that a bound ties to one type are of different types.
    TypeMismatch,
    /// A method name is supplied by more than one capability of the bound.
    AmbiguousMethod,
    /// The registry is sealed and takes no more declarations.
    RegistryClosed,
}

/// A `DispatchError` as the contracts see it: names are character sequences.
pub enum ErrorView {
    DuplicateCapability,
    MalformedSignature,
    UnknownCapability,
    DuplicateConformance,
    MissingImplementation,
    NotImplemented { capability: Seq<char> },
    TypeMismatch,
    AmbiguousMethod,
    RegistryClosed,
}

impl View for DispatchError {
    type V = ErrorView;

    open spec fn view(&self) -> ErrorView {
        match self {
            DispatchError::DuplicateCapability => ErrorView::DuplicateCapability,
            DispatchError::MalformedSignature => ErrorView::MalformedSignature,
            DispatchError::UnknownCapability => ErrorView::UnknownCapability,
            DispatchError::DuplicateConformance => ErrorView::DuplicateConformance,
            DispatchError::MissingImplementation => ErrorView::MissingImplementation,
            DispatchError::NotImplemented { capability } => ErrorView::NotImplemented {
                capability: capability@,
            },
            DispatchError::TypeMismatch => ErrorView::TypeMismatch,
            DispatchError::AmbiguousMethod => ErrorView::AmbiguousMethod,
            DispatchError::RegistryClosed => ErrorView::RegistryClosed,
        }
    }
}

} // verus!
