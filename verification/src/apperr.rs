//! The application's error type.

use vstd::prelude::*;

verus! {

/// `std::io::Error`, carried through unchanged.
#[verifier::external_type_specification]
#[verifier::external_body]
pub struct ExIoError(std::io::Error);

/// Errors of the application: invalid settings, I/O, or the ICU library.
#[derive(Debug)]
pub enum Error {
    /// The settings file is not what the editor can use; the text says why.
    SettingsInvalid(&'static str),
    /// An I/O error.
    Io(std::io::Error),
    /// An ICU error.
    Icu(crate::icu::Error),
}

} // verus!
