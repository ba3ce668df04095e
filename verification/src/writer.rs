//! The writer capability: the narrow, fallible interface through which
//! every byte of output leaves the library.

use vstd::prelude::*;
use vstd::string::StringExecFns;

verus! {

/// A destination for rendered text. Implementations state what they have
/// accumulated through `written`; a failed write aborts the render and
/// the error is propagated verbatim.
pub trait CharacterWriter {
    type Error;

    /// Everything successfully written so far.
    spec fn written(&self) -> Seq<char>;

    fn write_str(&mut self, s: &str) -> (r: Result<(), Self::Error>)
        ensures
            r is Ok ==> final(self).written() == old(self).written() + s@,
    ;
}

/// The error type of `core::fmt`, declared so it can stand in the
/// writer implementation for `String` (which in fact never fails).
#[verifier::external_type_specification]
#[verifier::external_body]
pub struct ExFmtError(core::fmt::Error);

impl CharacterWriter for String {
    type Error = core::fmt::Error;

    open spec fn written(&self) -> Seq<char> {
        self@
    }

    fn write_str(&mut self, s: &str) -> (r: Result<(), Self::Error>)
        ensures
            r is Ok,
            final(self).written() == old(self).written() + s@,
    {
        self.append(s);
        Ok(())
    }
}

} // verus!
