use vstd::prelude::*;

verus! {

/// Error type of the `object` crate, carried through unchanged when the
/// object-file reader rejects its input.
#[verifier::external_type_specification]
#[verifier::external_body]
pub struct ExObjectError(object::Error);

/// Error type of the `pdb` crate, carried through unchanged when the
/// debug-info reader rejects its input.
#[verifier::external_type_specification]
#[verifier::external_body]
pub struct ExPdbError(pdb::Error);

/// Error type of the `capstone` crate, carried through unchanged when the
/// instruction decoder rejects a byte range.
#[verifier::external_type_specification]
#[verifier::external_body]
pub struct ExCapstoneError(capstone::Error);

/// Relies on object's `Error` being a `Copy` struct: hands back the very
/// value it was given.
#[verifier::external_body]
pub fn copy_object_error(e: &object::Error) -> (r: object::Error)
    ensures
        r == *e,
{
    *e
}

/// Everything that can go wrong while building an [`crate::executable::Executable`]
/// or disassembling one of its functions.
///
/// `FunctionNameConflict` is fatal in the primary symbol pass and recovered
/// locally in the additive (debug-info, public-symbol and mapping) passes.
/// `OutOfBoundsSlice` signals a mismatched mapping/debug-info/binary triple:
/// an extraction range that leaves the code section, reported with its
/// absolute address for primary symbols and mapping entries and with its
/// section-relative offset for debug-info symbols.
#[derive(Debug)]
pub enum ExecutableError {
    ObjectError { error: object::Error },
    PdbError { error: pdb::Error },
    CapstoneError { error: capstone::Error },
    FunctionNameConflict { function_name: String },
    OutOfBoundsSlice { address: usize, size: usize },
}

impl From<object::Error> for ExecutableError {
    fn from(error: object::Error) -> (r: Self)
        ensures
            r == (ExecutableError::ObjectError { error }),
    {
        ExecutableError::ObjectError { error }
    }
}

impl vstd::std_specs::convert::FromSpecImpl<object::Error> for ExecutableError {
    open spec fn obeys_from_spec() -> bool {
        true
    }

    open spec fn from_spec(error: object::Error) -> Self {
        ExecutableError::ObjectError { error }
    }
}

impl From<pdb::Error> for ExecutableError {
    fn from(error: pdb::Error) -> (r: Self)
        ensures
            r == (ExecutableError::PdbError { error }),
    {
        ExecutableError::PdbError { error }
    }
}

impl vstd::std_specs::convert::FromSpecImpl<pdb::Error> for ExecutableError {
    open spec fn obeys_from_spec() -> bool {
        true
    }

    open spec fn from_spec(error: pdb::Error) -> Self {
        ExecutableError::PdbError { error }
    }
}

impl From<capstone::Error> for ExecutableError {
    fn from(error: capstone::Error) -> (r: Self)
        ensures
            r == (ExecutableError::CapstoneError { error }),
    {
        ExecutableError::CapstoneError { error }
    }
}

impl vstd::std_specs::convert::FromSpecImpl<capstone::Error> for ExecutableError {
    open spec fn obeys_from_spec() -> bool {
        true
    }

    open spec fn from_spec(error: capstone::Error) -> Self {
        ExecutableError::CapstoneError { error }
    }
}

impl ExecutableError {
    /// The error names a duplicate function called `name`.
    pub open spec fn is_conflict_for(self, name: Seq<char>) -> bool {
        self matches ExecutableError::FunctionNameConflict { function_name }
            && function_name@ == name
    }

    /// The error names an extraction range `[address, address + size)` that
    /// does not fit the code section.
    pub open spec fn is_oob_for(self, address: usize, size: usize) -> bool {
        self matches ExecutableError::OutOfBoundsSlice { address: a, size: s }
            && a == address && s == size
    }
}

} // verus!
