use vstd::prelude::*;

verus! {

/// The kind of failure that reading from a stream reported. Its variants are
/// those of the standard library and are only carried through.
#[verifier::external_type_specification]
#[verifier::external_body]
pub struct ExErrorKind(std::io::ErrorKind);

/// Why a parse was given up.
#[derive(Debug, PartialEq, Eq)]
pub enum ParseError {
    /// The input could not be read any further.
    IOError(std::io::ErrorKind),
    /// A version line names another format or version than the parser's.
    InvalidFileFormat,
    /// The line with this number, counted from 1, is not of the grammar.
    MalformedLine(usize),
    /// A coordinate on the line with this number, counted from 1, does not
    /// fit into 16 bits with sign.
    CoordinateOutOfRange(usize),
}

} // verus!
