//! What can go wrong in the dialogue machine.

use vstd::prelude::*;
use vstd::std_specs::convert::FromSpecImpl;

verus! {

/// What a [`VmError`] is in contracts.
pub enum ErrorView {
    General(Seq<char>),
    MissingLibraryFunction(Seq<char>),
    NoOperation,
}

#[derive(Debug)]
pub enum VmError {
    /// A general logic or configuration error
    General(String),
    /// A library function doesn't exist in the configured library
    MissingLibraryFunction(String),
    /// No operation occurred, this may or may not be expected
    NoOperation,
}

impl View for VmError {
    type V = ErrorView;

    open spec fn view(&self) -> ErrorView {
        match self {
            VmError::General(message) => ErrorView::General(message@),
            VmError::MissingLibraryFunction(name) => ErrorView::MissingLibraryFunction(name@),
            VmError::NoOperation => ErrorView::NoOperation,
        }
    }
}

impl VmError {
    /// The general error with this message.
    pub fn general(message: &str) -> (error: VmError)
        ensures
            error@ == ErrorView::General(message@),
    {
        VmError::General(message.to_owned())
    }
}

impl From<String> for VmError {
    fn from(message: String) -> (error: VmError) {
        VmError::General(message)
    }
}

impl FromSpecImpl<String> for VmError {
    open spec fn obeys_from_spec() -> bool {
        true
    }

    open spec fn from_spec(message: String) -> VmError {
        VmError::General(message)
    }
}

} // verus!
