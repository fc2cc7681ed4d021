//! The block format "Life 1.05".
//!
//! A file is read line by line, each line without the white space around
//! it. `#Life 1.05` names the format, `#N` sets the usual rules, `#R`
//! sets rules of its own, `#P` opens a block of rows at an offset, and every
//! other line after a `#P` is a row of that block: `*` for a live cell and
//! `.` for a dead one. Other lines before the first `#P` say nothing.

use crate::default_game_descriptor::DefaultGameDescriptor;
use crate::errors::ParseError;
use crate::game_descriptor::{Coord, DescriptorView};
use crate::parsers::{
    check_version, pair_from_captures, pair_of, pick_two, two_groups, version_verdict, Parser,
};
use crate::pattern::{captures, is_match, regex_captures, regex_is_match};
use crate::text::{all_digits, chars_of, digit_values, digits, starts_with, trim, trimmed};
use std::io::ErrorKind;
use vstd::prelude::*;

verus! {

/// How a version line begins.
pub const VERSION_MARKER: &'static str = "#Life";

/// How a line with rules of its own begins.
pub const RULES_MARKER: &'static str = "#R";

/// How the line that sets the usual rules begins.
pub const DEFAULT_RULES_MARKER: &'static str = "#N";

/// How a line that opens a block begins.
pub const OFFSET_MARKER: &'static str = "#P";

/// A version line: the marker and the version, with white space around the
/// version or none.
pub const VERSION_PATTERN: &'static str = "^#Life\\s*1\\.05\\s*$";

/// A rules line: the marker, the digits for survival, a slash, the digits
/// for birth, with white space around each or none.
pub const RULES_PATTERN: &'static str = "^#R\\s*(\\d+)\\s*/\\s*(\\d+)\\s*$";

/// An offset line: the marker and two numbers, each with a sign or without,
/// with white space between them.
pub const OFFSET_PATTERN: &'static str = "^#P\\s*([+-]?\\d+)\\s+([+-]?\\d+)\\s*$";

/// From this row on, no offset brings a row into the 16-bit domain.
pub const ROW_LIMIT: u32 = 65536;

/// What one line says.
#[derive(Debug, PartialEq, Eq)]
pub enum BlockLine {
    /// The version line of this format.
    Version,
    /// Rules of its own: the neighbour counts for survival, and those for
    /// birth.
    Rules(Vec<u8>, Vec<u8>),
    /// The usual rules.
    DefaultRules,
    /// A new block, at this offset.
    Offset(i16, i16),
    /// Any other line, without the white space around it: a row of the
    /// block if one is open.
    Row(String),
}

/// What one line says, as a value of specifications.
pub enum BlockLineView {
    Version,
    Rules(Seq<u8>, Seq<u8>),
    DefaultRules,
    Offset(i16, i16),
    Row(Seq<char>),
}

impl View for BlockLine {
    type V = BlockLineView;

    open spec fn view(&self) -> BlockLineView {
        match self {
            BlockLine::Version => BlockLineView::Version,
            BlockLine::Rules(survival, birth) => BlockLineView::Rules(survival@, birth@),
            BlockLine::DefaultRules => BlockLineView::DefaultRules,
            BlockLine::Offset(x, y) => BlockLineView::Offset(*x, *y),
            BlockLine::Row(row) => BlockLineView::Row(row@),
        }
    }
}

/// What the parser knows after some lines: the descriptor so far, the
/// offset of the current block if one was opened, and the number of rows
/// read since.
pub struct BlockModel {
    pub descriptor: DescriptorView,
    pub offset: Option<(i16, i16)>,
    pub row_in_block: nat,
}

/// Before the first line: no rules, no cells, no block.
pub open spec fn initial_state() -> BlockModel {
    BlockModel {
        descriptor: DescriptorView {
            survival: Seq::empty(),
            birth: Seq::empty(),
            live_cells: Seq::empty(),
        },
        offset: None,
        row_in_block: 0,
    }
}

/// Whether `n` is a number of 16 bits with sign.
pub open spec fn in_domain(n: int) -> bool {
    i16::MIN <= n <= i16::MAX
}

/// The rules that a match of the rules pattern writes: the digits for
/// survival and those for birth, in their order. `MalformedLine` where
/// there is no such match or a group holds another character than the
/// digits `0` to `9`.
pub open spec fn rules_of(line_num: usize, found: Option<Option<Seq<Option<Seq<char>>>>>) -> Result<
    (Seq<u8>, Seq<u8>),
    ParseError,
> {
    match two_groups(found) {
        Some((survival, birth)) => if all_digits(survival) && all_digits(birth) {
            Ok((digit_values(survival), digit_values(birth)))
        } else {
            Err(ParseError::MalformedLine(line_num))
        },
        None => Err(ParseError::MalformedLine(line_num)),
    }
}

/// The live cells of one row, from left to right. The character in column
/// `i`, counted from 0, of row `row_in_block` of a block at `offset` is the
/// cell at `i + offset.0`, `row_in_block + offset.1`. The first character
/// that is neither `*` nor `.` gives `MalformedLine`, and the first `*`
/// whose cell is outside the 16-bit domain `CoordinateOutOfRange`, whichever
/// comes first.
pub open spec fn row_of(line_num: usize, row: Seq<char>, offset: (i16, i16), row_in_block: nat)
    -> Result<Seq<Coord>, ParseError>
    decreases row.len(),
{
    if row.len() == 0 {
        Ok(Seq::empty())
    } else {
        match row_of(line_num, row.drop_last(), offset, row_in_block) {
            Err(e) => Err(e),
            Ok(cells) => {
                let x = row.len() - 1 + offset.0;
                let y = row_in_block + offset.1;
                if row.last() == '*' {
                    if in_domain(x) && in_domain(y) {
                        Ok(cells.push(Coord { x: x as i16, y: y as i16 }))
                    } else {
                        Err(ParseError::CoordinateOutOfRange(line_num))
                    }
                } else if row.last() == '.' {
                    Ok(cells)
                } else {
                    Err(ParseError::MalformedLine(line_num))
                }
            },
        }
    }
}

/// What the line `raw`, which has the number `line_num`, says. The line is
/// taken without the white space around it, and told by how it begins.
pub open spec fn line_kind(line_num: usize, raw: Seq<char>) -> Result<BlockLineView, ParseError> {
    let line = trimmed(raw);
    if VERSION_MARKER@.is_prefix_of(line) {
        match version_verdict(regex_is_match(VERSION_PATTERN@, line)) {
            Ok(_) => Ok(BlockLineView::Version),
            Err(e) => Err(e),
        }
    } else if RULES_MARKER@.is_prefix_of(line) {
        match rules_of(line_num, regex_captures(RULES_PATTERN@, line)) {
            Ok((survival, birth)) => Ok(BlockLineView::Rules(survival, birth)),
            Err(e) => Err(e),
        }
    } else if DEFAULT_RULES_MARKER@.is_prefix_of(line) {
        Ok(BlockLineView::DefaultRules)
    } else if OFFSET_MARKER@.is_prefix_of(line) {
        match pair_of(line_num, regex_captures(OFFSET_PATTERN@, line)) {
            Ok((x, y)) => Ok(BlockLineView::Offset(x, y)),
            Err(e) => Err(e),
        }
    } else {
        Ok(BlockLineView::Row(line))
    }
}

/// What `line`, which has the number `line_num`, makes of `state`. A version
/// line changes nothing. Rules replace the rules there were. An offset opens
/// a new block, whose rows are counted from 0. A row adds its live cells
/// and is counted, where a block is open, and says nothing where none is.
pub open spec fn step(state: BlockModel, line_num: usize, line: BlockLineView) -> Result<
    BlockModel,
    ParseError,
> {
    match line {
        BlockLineView::Version => Ok(state),
        BlockLineView::Rules(survival, birth) => Ok(
            BlockModel {
                descriptor: DescriptorView { survival, birth, ..state.descriptor },
                ..state
            },
        ),
        BlockLineView::DefaultRules => Ok(
            BlockModel {
                descriptor: DescriptorView {
                    survival: seq![2u8, 3u8],
                    birth: seq![3u8],
                    ..state.descriptor
                },
                ..state
            },
        ),
        BlockLineView::Offset(x, y) => Ok(
            BlockModel { offset: Some((x, y)), row_in_block: 0, ..state },
        ),
        BlockLineView::Row(row) => match state.offset {
            Some(offset) => match row_of(line_num, row, offset, state.row_in_block) {
                Ok(cells) => Ok(
                    BlockModel {
                        descriptor: DescriptorView {
                            live_cells: state.descriptor.live_cells + cells,
                            ..state.descriptor
                        },
                        row_in_block: state.row_in_block + 1,
                        ..state
                    },
                ),
                Err(e) => Err(e),
            },
            None => Ok(state),
        },
    }
}

/// What the line `raw`, which has the number `line_num`, makes of `state`.
pub open spec fn line_step(state: BlockModel, line_num: usize, raw: Seq<char>) -> Result<
    BlockModel,
    ParseError,
> {
    match line_kind(line_num, raw) {
        Ok(line) => step(state, line_num, line),
        Err(e) => Err(e),
    }
}

/// What the lines of `input`, in their order and counted from 1, make of
/// the initial state: or the error of the first line that has one, a line
/// that could not be read having `IOError`.
pub open spec fn block_outcome(input: Seq<Result<String, ErrorKind>>) -> Result<
    BlockModel,
    ParseError,
>
    decreases input.len(),
{
    if input.len() == 0 {
        Ok(initial_state())
    } else {
        match block_outcome(input.drop_last()) {
            Err(e) => Err(e),
            Ok(state) => match input.last() {
                Err(kind) => Err(ParseError::IOError(kind)),
                Ok(line) => line_step(state, input.len() as usize, line@),
            },
        }
    }
}

/// An error in a part of a row that starts at its left end is the error of
/// the whole row.
pub proof fn row_of_fails_on(
    line_num: usize,
    row: Seq<char>,
    len: int,
    offset: (i16, i16),
    row_in_block: nat,
)
    requires
        0 <= len <= row.len(),
        row_of(line_num, row.take(len), offset, row_in_block) is Err,
    ensures
        row_of(line_num, row, offset, row_in_block) == row_of(
            line_num,
            row.take(len),
            offset,
            row_in_block,
        ),
    decreases row.len() - len,
{
    if len < row.len() {
        assert(row.take(len + 1).drop_last() == row.take(len));
        row_of_fails_on(line_num, row, len + 1, offset, row_in_block);
    } else {
        assert(row.take(len) == row);
    }
}

/// Whether column `i` of a row cannot be read: it holds another character
/// than `*` and `.`, or a `*` whose cell is outside the domain.
pub open spec fn offends(row: Seq<char>, offset: (i16, i16), row_in_block: nat, i: int) -> bool {
    if row[i] == '*' {
        !(in_domain(i + offset.0) && in_domain(row_in_block + offset.1))
    } else {
        row[i] != '.'
    }
}

/// A row is read where none of its columns offends.
pub proof fn row_without_offence(
    line_num: usize,
    row: Seq<char>,
    offset: (i16, i16),
    row_in_block: nat,
)
    requires
        forall|i: int| 0 <= i < row.len() ==> !offends(row, offset, row_in_block, i),
    ensures
        row_of(line_num, row, offset, row_in_block) is Ok,
    decreases row.len(),
{
    if row.len() > 0 {
        let front = row.drop_last();
        assert forall|i: int| 0 <= i < front.len() implies !offends(
            front,
            offset,
            row_in_block,
            i,
        ) by {
            assert(!offends(row, offset, row_in_block, i));
        }
        row_without_offence(line_num, front, offset, row_in_block);
        assert(!offends(row, offset, row_in_block, row.len() - 1));
    }
}

/// The first column that offends decides the error of a row: a `*` outside
/// the domain gives `CoordinateOutOfRange`, another character than `*` and
/// `.` gives `MalformedLine`, each with the number of the line.
pub proof fn row_with_offence(
    line_num: usize,
    row: Seq<char>,
    offset: (i16, i16),
    row_in_block: nat,
    first: int,
)
    requires
        0 <= first < row.len(),
        offends(row, offset, row_in_block, first),
        forall|i: int| 0 <= i < first ==> !offends(row, offset, row_in_block, i),
    ensures
        row_of(line_num, row, offset, row_in_block) == Err::<Seq<Coord>, ParseError>(
            if row[first] == '*' {
                ParseError::CoordinateOutOfRange(line_num)
            } else {
                ParseError::MalformedLine(line_num)
            },
        ),
{
    let before = row.take(first);
    assert forall|i: int| 0 <= i < before.len() implies !offends(
        before,
        offset,
        row_in_block,
        i,
    ) by {
        assert(!offends(row, offset, row_in_block, i));
    }
    row_without_offence(line_num, before, offset, row_in_block);
    assert(row.take(first + 1).drop_last() == before);
    assert(row.take(first + 1).last() == row[first]);
    row_of_fails_on(line_num, row, first + 1, offset, row_in_block);
}

/// The cells of a row that is read are its `*`, from left to right: every
/// cell lies in the row, in a column that holds a `*`; the cells go from
/// left to right; and every `*` has its cell.
pub proof fn row_cells_are_its_stars(
    line_num: usize,
    row: Seq<char>,
    offset: (i16, i16),
    row_in_block: nat,
)
    requires
        row_of(line_num, row, offset, row_in_block) is Ok,
    ensures
        ({
            let cells = row_of(line_num, row, offset, row_in_block)->Ok_0;
            &&& forall|k: int|
                0 <= k < cells.len() ==> {
                    let column = (#[trigger] cells[k]).x - offset.0;
                    &&& 0 <= column < row.len()
                    &&& row[column] == '*'
                    &&& cells[k].y == row_in_block + offset.1
                }
            &&& forall|j: int, k: int|
                0 <= j < k < cells.len() ==> (#[trigger] cells[j]).x < (#[trigger] cells[k]).x
            &&& forall|i: int|
                0 <= i < row.len() && #[trigger] row[i] == '*' ==> exists|k: int|
                    0 <= k < cells.len() && (#[trigger] cells[k]).x == i + offset.0
        }),
    decreases row.len(),
{
    if row.len() > 0 {
        let front = row.drop_last();
        row_cells_are_its_stars(line_num, front, offset, row_in_block);
        let before = row_of(line_num, front, offset, row_in_block)->Ok_0;
        let cells = row_of(line_num, row, offset, row_in_block)->Ok_0;
        assert forall|i: int| 0 <= i < row.len() && #[trigger] row[i] == '*' implies exists|
            k: int,
        |
            0 <= k < cells.len() && (#[trigger] cells[k]).x == i + offset.0 by {
            if i < front.len() {
                assert(front[i] == '*');
                let k = choose|k: int|
                    0 <= k < before.len() && (#[trigger] before[k]).x == i + offset.0;
                assert(cells[k] == before[k]);
            } else {
                assert(cells[cells.len() - 1].x == i + offset.0);
            }
        }
        assert forall|k: int| 0 <= k < cells.len() implies {
            let column = (#[trigger] cells[k]).x - offset.0;
            &&& 0 <= column < row.len()
            &&& row[column] == '*'
            &&& cells[k].y == row_in_block + offset.1
        } by {
            if k < before.len() {
                assert(cells[k] == before[k]);
                assert(front[before[k].x - offset.0] == row[before[k].x - offset.0]);
            }
        }
        assert forall|j: int, k: int| 0 <= j < k < cells.len() implies (#[trigger] cells[j]).x < (
        #[trigger] cells[k]).x by {
            assert(cells[j] == before[j]);
            if k < before.len() {
                assert(cells[k] == before[k]);
            }
        }
    }
}

/// The first line that has an error ends the parse with that error: a line
/// that could not be read with `IOError` and the kind of the failure, any
/// other with the error that it has in the state after the lines before.
pub proof fn first_error_ends_the_parse(input: Seq<Result<String, ErrorKind>>, at: int)
    requires
        0 <= at < input.len(),
        block_outcome(input.take(at)) is Ok,
    ensures
        input[at] matches Err(kind) ==> block_outcome(input) == Err::<BlockModel, ParseError>(
            ParseError::IOError(kind),
        ),
        input[at] matches Ok(line) ==> {
            let state = block_outcome(input.take(at))->Ok_0;
            line_step(state, (at + 1) as usize, line@) is Err ==> block_outcome(input)
                == line_step(state, (at + 1) as usize, line@)
        },
{
    assert(input.take(at + 1).drop_last() == input.take(at));
    if block_outcome(input.take(at + 1)) is Err {
        block_outcome_fails_on(input, at + 1);
    }
}

/// A version line that the pattern of this version does not match is
/// refused with `InvalidFileFormat`, whatever came before it.
pub proof fn other_version_is_refused(state: BlockModel, line_num: usize, raw: Seq<char>)
    requires
        VERSION_MARKER@.is_prefix_of(trimmed(raw)),
        regex_is_match(VERSION_PATTERN@, trimmed(raw)) != Some(true),
    ensures
        line_step(state, line_num, raw) == Err::<BlockModel, ParseError>(
            ParseError::InvalidFileFormat,
        ),
{
}

/// A line that does not begin like a version, rules or offset line says
/// nothing as long as no block is open.
pub proof fn line_before_first_block(state: BlockModel, line_num: usize, raw: Seq<char>)
    requires
        state.offset is None,
        line_kind(line_num, raw) is Ok,
        line_kind(line_num, raw)->Ok_0 is Row,
    ensures
        line_step(state, line_num, raw) == Ok::<BlockModel, ParseError>(state),
{
}

/// Rows from `ROW_LIMIT` on are all alike: a live cell in any of them is
/// outside the domain, whatever the offset.
pub proof fn row_of_beyond_limit(
    line_num: usize,
    row: Seq<char>,
    offset: (i16, i16),
    first: nat,
    second: nat,
)
    requires
        first >= ROW_LIMIT,
        second >= ROW_LIMIT,
    ensures
        row_of(line_num, row, offset, first) == row_of(line_num, row, offset, second),
    decreases row.len(),
{
    if row.len() > 0 {
        row_of_beyond_limit(line_num, row.drop_last(), offset, first, second);
    }
}

/// An error in a part of the input that starts at its first line is the
/// error of the whole input: the first error ends the parse.
pub proof fn block_outcome_fails_on(input: Seq<Result<String, ErrorKind>>, len: int)
    requires
        0 <= len <= input.len(),
        block_outcome(input.take(len)) is Err,
    ensures
        block_outcome(input) == block_outcome(input.take(len)),
    decreases input.len() - len,
{
    if len < input.len() {
        assert(input.take(len + 1).drop_last() == input.take(len));
        block_outcome_fails_on(input, len + 1);
    } else {
        assert(input.take(len) == input);
    }
}

/// Checks a version line against the version of this format.
pub fn check_file_format(line: &str) -> (r: Result<(), ParseError>)
    ensures
        r == version_verdict(regex_is_match(VERSION_PATTERN@, line@)),
{
    check_version(is_match(VERSION_PATTERN, line))
}

/// Reads the rules out of what the rules pattern captured on the line
/// `line_num`.
pub fn rules_from_captures(line_num: usize, found: &Option<Option<Vec<Option<String>>>>) -> (r:
    Result<(Vec<u8>, Vec<u8>), ParseError>)
    ensures
        match r {
            Ok((survival, birth)) => rules_of(line_num, found.deep_view()) == Ok::<
                (Seq<u8>, Seq<u8>),
                ParseError,
            >((survival@, birth@)),
            Err(e) => rules_of(line_num, found.deep_view()) == Err::<(Seq<u8>, Seq<u8>), ParseError>(
                e,
            ),
        },
{
    match pick_two(found) {
        Some((first, second)) => match (digits(first), digits(second)) {
            (Some(survival), Some(birth)) => Ok((survival, birth)),
            _ => Err(ParseError::MalformedLine(line_num)),
        },
        None => Err(ParseError::MalformedLine(line_num)),
    }
}

/// Reads the rules of the rules line `line`, which has the number
/// `line_num`.
fn read_rules(line_num: usize, line: &str) -> (r: Result<(Vec<u8>, Vec<u8>), ParseError>)
    ensures
        match r {
            Ok((survival, birth)) => rules_of(line_num, regex_captures(RULES_PATTERN@, line@))
                == Ok::<(Seq<u8>, Seq<u8>), ParseError>((survival@, birth@)),
            Err(e) => rules_of(line_num, regex_captures(RULES_PATTERN@, line@)) == Err::<
                (Seq<u8>, Seq<u8>),
                ParseError,
            >(e),
        },
{
    let found = captures(RULES_PATTERN, line);
    rules_from_captures(line_num, &found)
}

/// Appends `survival` and `birth` to the rules of `gd`.
fn append_rules(gd: &mut DefaultGameDescriptor, survival: &Vec<u8>, birth: &Vec<u8>)
    ensures
        final(gd)@ == (DescriptorView {
            survival: old(gd)@.survival + survival@,
            birth: old(gd)@.birth + birth@,
            ..old(gd)@
        }),
{
    let mut i: usize = 0;
    while i < survival.len()
        invariant
            0 <= i <= survival.len(),
            gd@ == (DescriptorView {
                survival: old(gd)@.survival + survival@.take(i as int),
                ..old(gd)@
            }),
        decreases survival.len() - i,
    {
        gd.add_survival(survival[i]);
        assert(old(gd)@.survival + survival@.take(i + 1) == (old(gd)@.survival + survival@.take(
            i as int,
        )).push(survival@[i as int]));
        i += 1;
    }
    assert(survival@.take(i as int) == survival@);
    i = 0;
    while i < birth.len()
        invariant
            0 <= i <= birth.len(),
            gd@ == (DescriptorView {
                survival: old(gd)@.survival + survival@,
                birth: old(gd)@.birth + birth@.take(i as int),
                ..old(gd)@
            }),
        decreases birth.len() - i,
    {
        gd.add_birth(birth[i]);
        assert(old(gd)@.birth + birth@.take(i + 1) == (old(gd)@.birth + birth@.take(
            i as int,
        )).push(birth@[i as int]));
        i += 1;
    }
    assert(birth@.take(i as int) == birth@);
}

/// Reads the rules line `line`, which has the number `line_num`, and
/// appends its rules to those of `gd`. On an error `gd` is left as it was.
pub fn parse_rules(line_num: usize, line: &str, gd: &mut DefaultGameDescriptor) -> (r: Result<
    (),
    ParseError,
>)
    ensures
        match rules_of(line_num, regex_captures(RULES_PATTERN@, line@)) {
            Ok((survival, birth)) => r is Ok && final(gd)@ == (DescriptorView {
                survival: old(gd)@.survival + survival,
                birth: old(gd)@.birth + birth,
                ..old(gd)@
            }),
            Err(e) => r == Err::<(), ParseError>(e) && final(gd)@ == old(gd)@,
        },
{
    match read_rules(line_num, line) {
        Ok((survival, birth)) => {
            append_rules(gd, &survival, &birth);
            Ok(())
        },
        Err(e) => Err(e),
    }
}

/// Reads the offset line `line`, which has the number `line_num`.
pub fn parse_offset(line_num: usize, line: &str) -> (r: Result<(i16, i16), ParseError>)
    ensures
        r == pair_of(line_num, regex_captures(OFFSET_PATTERN@, line@)),
{
    let found = captures(OFFSET_PATTERN, line);
    pair_from_captures(line_num, &found)
}

/// Reads one row of a block: the live cells of `row`, which is row
/// `row_in_block` of a block at `offset` and stands on the line `line_num`.
pub fn decode_row(line_num: usize, row: &str, offset: (i16, i16), row_in_block: usize) -> (r:
    Result<Vec<Coord>, ParseError>)
    ensures
        match r {
            Ok(cells) => row_of(line_num, row@, offset, row_in_block as nat) == Ok::<
                Seq<Coord>,
                ParseError,
            >(cells@),
            Err(e) => row_of(line_num, row@, offset, row_in_block as nat) == Err::<
                Seq<Coord>,
                ParseError,
            >(e),
        },
{
    let chars = chars_of(row);
    let mut cells: Vec<Coord> = Vec::new();
    let mut i: usize = 0;
    while i < chars.len()
        invariant
            0 <= i <= chars.len(),
            chars@ == row@,
            row_of(line_num, row@.take(i as int), offset, row_in_block as nat) == Ok::<
                Seq<Coord>,
                ParseError,
            >(cells@),
        decreases chars.len() - i,
    {
        assert(row@.take(i + 1).drop_last() == row@.take(i as int));
        assert(row@.take(i + 1).last() == chars@[i as int]);
        let c = chars[i];
        if c == '*' {
            // a column or a row from 65536 on is outside the domain at any offset
            if i > 65535 || row_in_block > 65535 {
                proof {
                    row_of_fails_on(line_num, row@, i + 1, offset, row_in_block as nat);
                }
                return Err(ParseError::CoordinateOutOfRange(line_num));
            }
            let x: i32 = i as i32 + offset.0 as i32;
            let y: i32 = row_in_block as i32 + offset.1 as i32;
            if x > 32767 || y < -32768 || y > 32767 {
                proof {
                    row_of_fails_on(line_num, row@, i + 1, offset, row_in_block as nat);
                }
                return Err(ParseError::CoordinateOutOfRange(line_num));
            }
            cells.push(Coord { x: x as i16, y: y as i16 });
        } else if c != '.' {
            proof {
                row_of_fails_on(line_num, row@, i + 1, offset, row_in_block as nat);
            }
            return Err(ParseError::MalformedLine(line_num));
        }
        i += 1;
    }
    assert(row@.take(i as int) == row@);
    Ok(cells)
}

/// Reads the line `line`, which has the number `line_num`: what it says, or
/// the error that it has. A row is not looked into.
pub fn read_line(line_num: usize, line: &str) -> (r: Result<BlockLine, ParseError>)
    ensures
        match r {
            Ok(read) => line_kind(line_num, line@) == Ok::<BlockLineView, ParseError>(read@),
            Err(e) => line_kind(line_num, line@) == Err::<BlockLineView, ParseError>(e),
        },
{
    let text = trim(line);
    if starts_with(text, VERSION_MARKER) {
        match check_file_format(text) {
            Ok(_) => Ok(BlockLine::Version),
            Err(e) => Err(e),
        }
    } else if starts_with(text, RULES_MARKER) {
        match read_rules(line_num, text) {
            Ok((survival, birth)) => Ok(BlockLine::Rules(survival, birth)),
            Err(e) => Err(e),
        }
    } else if starts_with(text, DEFAULT_RULES_MARKER) {
        Ok(BlockLine::DefaultRules)
    } else if starts_with(text, OFFSET_MARKER) {
        match parse_offset(line_num, text) {
            Ok((x, y)) => Ok(BlockLine::Offset(x, y)),
            Err(e) => Err(e),
        }
    } else {
        Ok(BlockLine::Row(text.to_owned()))
    }
}

/// The state of one parse, between two lines: the descriptor filled so far,
/// the offset of the current block, and the row that comes next in it.
pub struct BlockState {
    descriptor: DefaultGameDescriptor,
    offset: Option<(i16, i16)>,
    /// The rows read since the offset was set, counted up to `ROW_LIMIT`.
    counted_rows: u32,
    /// The rows read since the offset was set.
    rows: Ghost<nat>,
}

impl View for BlockState {
    type V = BlockModel;

    closed spec fn view(&self) -> BlockModel {
        BlockModel { descriptor: self.descriptor@, offset: self.offset, row_in_block: self.rows@ }
    }
}

impl BlockState {
    #[verifier::type_invariant]
    spec fn counts_rows(self) -> bool {
        self.counted_rows == if self.rows@ < ROW_LIMIT {
            self.rows@
        } else {
            ROW_LIMIT as nat
        }
    }

    /// The state before the first line.
    pub fn new() -> (state: Self)
        ensures
            state@ == initial_state(),
    {
        BlockState {
            descriptor: DefaultGameDescriptor::new(),
            offset: None,
            counted_rows: 0,
            rows: Ghost(0),
        }
    }

    /// Takes in what the line with the number `line_num` says: the state
    /// after it, or the error of its row.
    pub fn apply(self, line_num: usize, line: &BlockLine) -> (r: Result<BlockState, ParseError>)
        ensures
            match r {
                Ok(next) => step(self@, line_num, line@) == Ok::<BlockModel, ParseError>(next@),
                Err(e) => step(self@, line_num, line@) == Err::<BlockModel, ParseError>(e),
            },
    {
        proof {
            use_type_invariant(&self);
        }
        let BlockState { mut descriptor, offset, counted_rows, rows } = self;
        match line {
            BlockLine::Version => Ok(BlockState { descriptor, offset, counted_rows, rows }),
            BlockLine::Rules(survival, birth) => {
                descriptor.clear_rules();
                append_rules(&mut descriptor, survival, birth);
                assert(descriptor@.survival =~= survival@);
                assert(descriptor@.birth =~= birth@);
                Ok(BlockState { descriptor, offset, counted_rows, rows })
            },
            BlockLine::DefaultRules => {
                descriptor.clear_rules();
                descriptor.add_survival(2);
                descriptor.add_survival(3);
                descriptor.add_birth(3);
                assert(descriptor@.survival =~= seq![2u8, 3u8]);
                assert(descriptor@.birth =~= seq![3u8]);
                Ok(BlockState { descriptor, offset, counted_rows, rows })
            },
            BlockLine::Offset(x, y) => Ok(
                BlockState { descriptor, offset: Some((*x, *y)), counted_rows: 0, rows: Ghost(0) },
            ),
            BlockLine::Row(row) => match offset {
                Some(origin) => {
                    proof {
                        if rows@ >= ROW_LIMIT {
                            row_of_beyond_limit(
                                line_num,
                                row@,
                                origin,
                                rows@,
                                counted_rows as nat,
                            );
                        }
                    }
                    match decode_row(line_num, row.as_str(), origin, counted_rows as usize) {
                        Ok(cells) => {
                            let ghost before = descriptor@;
                            let mut i: usize = 0;
                            while i < cells.len()
                                invariant
                                    0 <= i <= cells.len(),
                                    descriptor@ == (DescriptorView {
                                        live_cells: before.live_cells + cells@.take(i as int),
                                        ..before
                                    }),
                                decreases cells.len() - i,
                            {
                                let cell = cells[i];
                                descriptor.add_live_cell(cell.x, cell.y);
                                assert(before.live_cells + cells@.take(i + 1) == (before.live_cells
                                    + cells@.take(i as int)).push(cells@[i as int]));
                                i += 1;
                            }
                            assert(cells@.take(i as int) == cells@);
                            let next_row: u32 = if counted_rows < ROW_LIMIT {
                                counted_rows + 1
                            } else {
                                counted_rows
                            };
                            Ok(
                                BlockState {
                                    descriptor,
                                    offset,
                                    counted_rows: next_row,
                                    rows: Ghost(rows@ + 1),
                                },
                            )
                        },
                        Err(e) => Err(e),
                    }
                },
                None => Ok(BlockState { descriptor, offset, counted_rows, rows }),
            },
        }
    }

    /// Takes in the line `line`, which has the number `line_num`: the state
    /// after it, or the error that the line has.
    pub fn feed(self, line_num: usize, line: &str) -> (r: Result<BlockState, ParseError>)
        ensures
            match r {
                Ok(next) => line_step(self@, line_num, line@) == Ok::<BlockModel, ParseError>(
                    next@,
                ),
                Err(e) => line_step(self@, line_num, line@) == Err::<BlockModel, ParseError>(e),
            },
    {
        match read_line(line_num, line) {
            Ok(read) => self.apply(line_num, &read),
            Err(e) => Err(e),
        }
    }

    /// The descriptor that the lines taken in so far describe.
    pub fn finish(self) -> (gd: DefaultGameDescriptor)
        ensures
            gd@ == self@.descriptor,
    {
        self.descriptor
    }
}

/// Parser for files in the life 1.05 format.
pub struct Life105Parser {}

impl Life105Parser {
    /// Construct a new instance.
    pub fn new() -> Self {
        Life105Parser {  }
    }
}

impl Parser for Life105Parser {
    open spec fn outcome(&self, input: Seq<Result<String, ErrorKind>>) -> Result<
        DescriptorView,
        ParseError,
    > {
        match block_outcome(input) {
            Ok(state) => Ok(state.descriptor),
            Err(e) => Err(e),
        }
    }

    fn parse(&mut self, input: &[Result<String, ErrorKind>]) -> (r: Result<
        DefaultGameDescriptor,
        ParseError,
    >) {
        let mut state = BlockState::new();
        let mut i: usize = 0;
        while i < input.len()
            invariant
                0 <= i <= input.len(),
                block_outcome(input@.take(i as int)) == Ok::<BlockModel, ParseError>(state@),
            decreases input.len() - i,
        {
            assert(input@.take(i + 1).drop_last() == input@.take(i as int));
            match &input[i] {
                Ok(line) => {
                    match state.feed(i + 1, line.as_str()) {
                        Ok(next) => {
                            state = next;
                        },
                        Err(e) => {
                            proof {
                                block_outcome_fails_on(input@, i + 1);
                            }
                            return Err(e);
                        },
                    }
                },
                Err(kind) => {
                    proof {
                        block_outcome_fails_on(input@, i + 1);
                    }
                    return Err(ParseError::IOError(*kind));
                },
            }
            i += 1;
        }
        assert(input@.take(i as int) == input@);
        Ok(state.finish())
    }
}

} // verus!
