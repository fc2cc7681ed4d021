//! The parsers, and what they share.

pub mod life_1_05_parser;
pub mod life_1_06_parser;

use crate::default_game_descriptor::DefaultGameDescriptor;
use crate::errors::ParseError;
use crate::game_descriptor::DescriptorView;
use crate::text::{i16_of, parse_i16, signed_decimal};
use std::io::ErrorKind;
use vstd::prelude::*;

pub use self::life_1_05_parser::Life105Parser;
pub use self::life_1_06_parser::Life106Parser;

verus! {

/// Specifies a common interface for all game of life parser implementations.
///
/// The input is what reading the file line by line gave: each line without
/// its line ending, or the kind of failure where reading failed. Lines are
/// counted from 1.
pub trait Parser {
    /// What the format makes of `input`: the descriptor, or the first error.
    spec fn outcome(&self, input: Seq<Result<String, ErrorKind>>) -> Result<
        DescriptorView,
        ParseError,
    >;

    /// Parse the given input: the descriptor of the whole input, or the
    /// error of the first line that has one. A line that could not be read
    /// gives `IOError` with the kind of the failure.
    fn parse(&mut self, input: &[Result<String, ErrorKind>]) -> (r: Result<
        DefaultGameDescriptor,
        ParseError,
    >)
        ensures
            match r {
                Ok(gd) => old(self).outcome(input@) == Ok::<DescriptorView, ParseError>(gd@),
                Err(e) => old(self).outcome(input@) == Err::<DescriptorView, ParseError>(e),
            },
    ;
}

/// The two groups of a match of a pattern with two groups: `None` where
/// the pattern was not accepted, nothing matched, the groups are not two or
/// one of them took no part.
pub open spec fn two_groups(found: Option<Option<Seq<Option<Seq<char>>>>>) -> Option<
    (Seq<char>, Seq<char>),
> {
    match found {
        Some(Some(groups)) => if groups.len() == 3 && groups[1] is Some && groups[2] is Some {
            Some((groups[1]->0, groups[2]->0))
        } else {
            None
        },
        _ => None,
    }
}

/// The verdict on a version line: accepted where the version pattern
/// matched it, and `InvalidFileFormat` otherwise.
pub open spec fn version_verdict(matched: Option<bool>) -> Result<(), ParseError> {
    if matched == Some(true) {
        Ok(())
    } else {
        Err(ParseError::InvalidFileFormat)
    }
}

/// The pair of coordinates that a match of a pattern with two groups
/// writes: `MalformedLine` where there is no such match, and
/// `CoordinateOutOfRange` where a group is no number of 16 bits with sign.
pub open spec fn pair_of(line_num: usize, found: Option<Option<Seq<Option<Seq<char>>>>>) -> Result<
    (i16, i16),
    ParseError,
> {
    match two_groups(found) {
        Some((first, second)) => match (i16_of(first), i16_of(second)) {
            (Some(x), Some(y)) => Ok((x, y)),
            _ => Err(ParseError::CoordinateOutOfRange(line_num)),
        },
        None => Err(ParseError::MalformedLine(line_num)),
    }
}

/// Where the pattern matched and one of the two numbers is written
/// correctly but does not fit into 16 bits with sign, the line has
/// `CoordinateOutOfRange` with its number.
pub proof fn number_beyond_domain(
    line_num: usize,
    found: Option<Option<Seq<Option<Seq<char>>>>>,
    n: int,
)
    requires
        two_groups(found) matches Some((first, second)) && (signed_decimal(first) == Some(n)
            || signed_decimal(second) == Some(n)),
        n < i16::MIN || n > i16::MAX,
    ensures
        pair_of(line_num, found) == Err::<(i16, i16), ParseError>(
            ParseError::CoordinateOutOfRange(line_num),
        ),
{
}

/// Picks the two groups out of what a pattern with two groups captured.
pub fn pick_two(found: &Option<Option<Vec<Option<String>>>>) -> (r: Option<(&str, &str)>)
    ensures
        match two_groups(found.deep_view()) {
            Some((first, second)) => r matches Some((a, b)) && a@ == first && b@ == second,
            None => r is None,
        },
{
    match found {
        Some(Some(groups)) => {
            if groups.len() != 3 {
                return None;
            }
            match (&groups[1], &groups[2]) {
                (Some(first), Some(second)) => Some((first.as_str(), second.as_str())),
                _ => None,
            }
        },
        _ => None,
    }
}

/// Gives the verdict on a version line from whether the version pattern
/// matched it.
pub fn check_version(matched: Option<bool>) -> (r: Result<(), ParseError>)
    ensures
        r == version_verdict(matched),
{
    match matched {
        Some(true) => Ok(()),
        _ => Err(ParseError::InvalidFileFormat),
    }
}

/// Reads a pair of coordinates out of what a pattern with two groups
/// captured on the line `line_num`.
pub fn pair_from_captures(line_num: usize, found: &Option<Option<Vec<Option<String>>>>) -> (r:
    Result<(i16, i16), ParseError>)
    ensures
        r == pair_of(line_num, found.deep_view()),
{
    match pick_two(found) {
        Some((first, second)) => match (parse_i16(first), parse_i16(second)) {
            (Some(x), Some(y)) => Ok((x, y)),
            _ => Err(ParseError::CoordinateOutOfRange(line_num)),
        },
        None => Err(ParseError::MalformedLine(line_num)),
    }
}

} // verus!
