//! The flat format "Life 1.06".
//!
//! A file is read line by line, each line without the white space around
//! it. `#Life 1.06` names the format, any other line that begins with `#`
//! is a comment, an empty line says nothing, and every other line is the
//! two coordinates of one live cell. The format has no rules.

use crate::default_game_descriptor::DefaultGameDescriptor;
use crate::errors::ParseError;
use crate::game_descriptor::{Coord, DescriptorView};
use crate::parsers::{
    check_version, pair_from_captures, pair_of, two_groups, version_verdict, Parser,
};
use crate::pattern::{captures, is_match, regex_captures, regex_is_match};
use crate::text::{starts_with, trim, trimmed};
use std::io::ErrorKind;
use vstd::prelude::*;

verus! {

/// How a version line begins.
pub const VERSION_MARKER: &'static str = "#Life";

/// How a comment begins.
pub const COMMENT_MARKER: &'static str = "#";

/// A version line: the marker and the version, with white space around it
/// or none.
pub const VERSION_PATTERN: &'static str = "^#Life\\s*1\\.06\\s*$";

/// A line with a cell: two numbers, each with a sign or without, with
/// white space between them.
pub const CELL_PATTERN: &'static str = "^\\s*([+-]?\\d+)\\s+([+-]?\\d+)\\s*$";

/// What the line `raw`, the line number `line_num`, says: a live cell,
/// nothing, or an error.
pub open spec fn line_cell(line_num: usize, raw: Seq<char>) -> Result<Option<Coord>, ParseError> {
    let line = trimmed(raw);
    if line.len() == 0 {
        Ok(None)
    } else if VERSION_MARKER@.is_prefix_of(line) {
        match version_verdict(regex_is_match(VERSION_PATTERN@, line)) {
            Ok(_) => Ok(None),
            Err(e) => Err(e),
        }
    } else if COMMENT_MARKER@.is_prefix_of(line) {
        Ok(None)
    } else {
        match pair_of(line_num, regex_captures(CELL_PATTERN@, line)) {
            Ok((x, y)) => Ok(Some(Coord { x, y })),
            Err(e) => Err(e),
        }
    }
}

/// The live cells that the lines of `input` say, in their order, the lines
/// counted from 1: or the error of the first line that has one, a line that
/// could not be read having `IOError`.
pub open spec fn flat_outcome(input: Seq<Result<String, ErrorKind>>) -> Result<
    Seq<Coord>,
    ParseError,
>
    decreases input.len(),
{
    if input.len() == 0 {
        Ok(Seq::empty())
    } else {
        match flat_outcome(input.drop_last()) {
            Err(e) => Err(e),
            Ok(cells) => match input.last() {
                Err(kind) => Err(ParseError::IOError(kind)),
                Ok(line) => match line_cell(input.len() as usize, line@) {
                    Ok(Some(cell)) => Ok(cells.push(cell)),
                    Ok(None) => Ok(cells),
                    Err(e) => Err(e),
                },
            },
        }
    }
}

/// An empty line and a comment say nothing, and a line that is none of
/// these, no version line and no pair of numbers is malformed.
pub proof fn line_cell_cases(line_num: usize, raw: Seq<char>)
    ensures
        trimmed(raw).len() == 0 ==> line_cell(line_num, raw) == Ok::<Option<Coord>, ParseError>(
            None,
        ),
        COMMENT_MARKER@.is_prefix_of(trimmed(raw)) && !VERSION_MARKER@.is_prefix_of(trimmed(raw))
            ==> line_cell(line_num, raw) == Ok::<Option<Coord>, ParseError>(None),
        trimmed(raw).len() > 0 && !COMMENT_MARKER@.is_prefix_of(trimmed(raw)) && two_groups(
            regex_captures(CELL_PATTERN@, trimmed(raw)),
        ) is None ==> line_cell(line_num, raw) == Err::<Option<Coord>, ParseError>(
            ParseError::MalformedLine(line_num),
        ),
{
    reveal_strlit("#Life");
    reveal_strlit("#");
    let line = trimmed(raw);
    if VERSION_MARKER@.is_prefix_of(line) {
        assert(line.subrange(0, 5)[0] == '#');
        assert(line.subrange(0, 1) =~= COMMENT_MARKER@);
    }
}

/// A version line that the pattern of this version does not match is
/// refused with `InvalidFileFormat`.
pub proof fn other_version_is_refused(line_num: usize, raw: Seq<char>)
    requires
        VERSION_MARKER@.is_prefix_of(trimmed(raw)),
        regex_is_match(VERSION_PATTERN@, trimmed(raw)) != Some(true),
    ensures
        line_cell(line_num, raw) == Err::<Option<Coord>, ParseError>(
            ParseError::InvalidFileFormat,
        ),
{
    reveal_strlit("#Life");
}

/// An error in a part of the input that starts at its first line is the
/// error of the whole input: the first error ends the parse.
pub proof fn flat_outcome_fails_on(input: Seq<Result<String, ErrorKind>>, len: int)
    requires
        0 <= len <= input.len(),
        flat_outcome(input.take(len)) is Err,
    ensures
        flat_outcome(input) == flat_outcome(input.take(len)),
    decreases input.len() - len,
{
    if len < input.len() {
        assert(input.take(len + 1).drop_last() == input.take(len));
        flat_outcome_fails_on(input, len + 1);
    } else {
        assert(input.take(len) == input);
    }
}

/// The first line that has an error ends the parse with that error: a line
/// that could not be read with `IOError` and the kind of the failure, any
/// other with the error that it has.
pub proof fn first_error_ends_the_parse(input: Seq<Result<String, ErrorKind>>, at: int)
    requires
        0 <= at < input.len(),
        flat_outcome(input.take(at)) is Ok,
    ensures
        input[at] matches Err(kind) ==> flat_outcome(input) == Err::<Seq<Coord>, ParseError>(
            ParseError::IOError(kind),
        ),
        input[at] matches Ok(line) ==> (line_cell((at + 1) as usize, line@) matches Err(e)
            ==> flat_outcome(input) == Err::<Seq<Coord>, ParseError>(e)),
{
    assert(input.take(at + 1).drop_last() == input.take(at));
    if flat_outcome(input.take(at + 1)) is Err {
        flat_outcome_fails_on(input, at + 1);
    }
}

/// Checks a version line against the version of this format.
pub fn check_file_format(line: &str) -> (r: Result<(), ParseError>)
    ensures
        r == version_verdict(regex_is_match(VERSION_PATTERN@, line@)),
{
    check_version(is_match(VERSION_PATTERN, line))
}

/// Reads the two coordinates on the line `line`, the line number
/// `line_num`.
pub fn parse_cell(line_num: usize, line: &str) -> (r: Result<(i16, i16), ParseError>)
    ensures
        r == pair_of(line_num, regex_captures(CELL_PATTERN@, line@)),
{
    let found = captures(CELL_PATTERN, line);
    pair_from_captures(line_num, &found)
}

/// Reads the line `line`, the line number `line_num`: the live cell that it
/// says, if it says one.
pub fn parse_line(line_num: usize, line: &str) -> (r: Result<Option<Coord>, ParseError>)
    ensures
        r == line_cell(line_num, line@),
{
    let text = trim(line);
    if text.unicode_len() == 0 {
        Ok(None)
    } else if starts_with(text, VERSION_MARKER) {
        match check_file_format(text) {
            Ok(_) => Ok(None),
            Err(e) => Err(e),
        }
    } else if starts_with(text, COMMENT_MARKER) {
        Ok(None)
    } else {
        match parse_cell(line_num, text) {
            Ok((x, y)) => Ok(Some(Coord { x: x, y: y })),
            Err(e) => Err(e),
        }
    }
}

/// Parser for files in the life 1.06 format.
pub struct Life106Parser {}

impl Life106Parser {
    /// Construct a new instance.
    pub fn new() -> Self {
        Life106Parser {  }
    }
}

impl Parser for Life106Parser {
    open spec fn outcome(&self, input: Seq<Result<String, ErrorKind>>) -> Result<
        DescriptorView,
        ParseError,
    > {
        match flat_outcome(input) {
            Ok(cells) => Ok(
                DescriptorView { survival: Seq::empty(), birth: Seq::empty(), live_cells: cells },
            ),
            Err(e) => Err(e),
        }
    }

    fn parse(&mut self, input: &[Result<String, ErrorKind>]) -> (r: Result<
        DefaultGameDescriptor,
        ParseError,
    >) {
        let mut ret = DefaultGameDescriptor::new();
        let mut i: usize = 0;
        while i < input.len()
            invariant
                0 <= i <= input.len(),
                flat_outcome(input@.take(i as int)) == Ok::<Seq<Coord>, ParseError>(
                    ret@.live_cells,
                ),
                ret@.survival == Seq::<u8>::empty(),
                ret@.birth == Seq::<u8>::empty(),
            decreases input.len() - i,
        {
            assert(input@.take(i + 1).drop_last() == input@.take(i as int));
            match &input[i] {
                Ok(line) => {
                    match parse_line(i + 1, line.as_str()) {
                        Ok(Some(cell)) => {
                            ret.add_live_cell(cell.x, cell.y);
                        },
                        Ok(None) => {},
                        Err(e) => {
                            proof {
                                flat_outcome_fails_on(input@, i + 1);
                            }
                            return Err(e);
                        },
                    }
                },
                Err(kind) => {
                    proof {
                        flat_outcome_fails_on(input@, i + 1);
                    }
                    return Err(ParseError::IOError(*kind));
                },
            }
            i += 1;
        }
        assert(input@.take(i as int) == input@);
        Ok(ret)
    }
}

} // verus!
