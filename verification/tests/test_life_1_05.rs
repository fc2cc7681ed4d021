use game_of_life_parsers::game_descriptor::Coord;
use game_of_life_parsers::parsers::life_1_05_parser::{
    check_file_format, decode_row, parse_offset, parse_rules, read_line, rules_from_captures,
    BlockLine, BlockState,
};
use game_of_life_parsers::{
    DefaultGameDescriptor, GameDescriptor, Life105Parser, Life106Parser, ParseError, Parser,
};
use io_test_util::ErrReader;
use std::io::{self, BufRead, BufReader, ErrorKind, Read};

fn block_input<R: Read>(reader: R) -> Vec<Result<String, ErrorKind>> {
    let mut input = Vec::new();
    for line in BufReader::new(reader).lines() {
        let failed = line.is_err();
        input.push(line.map_err(|err| err.kind()));
        if failed {
            break;
        }
    }
    input
}

fn block_parse(text: &str) -> Result<DefaultGameDescriptor, ParseError> {
    Life105Parser::new().parse(&block_input(text.as_bytes()))
}

fn block_groups(groups: &[Option<&str>]) -> Option<Option<Vec<Option<String>>>> {
    Some(Some(groups.iter().map(|group| group.map(|text| text.to_string())).collect()))
}

#[test]
fn parse_rules_should_err() {
    let mut gd = DefaultGameDescriptor::new();
    match parse_rules(5, "#R 23", &mut gd) {
        Err(ParseError::MalformedLine(5)) => {}
        Err(_) => panic!("Wrong error thrown!"),
        _ => panic!("No error thrown!"),
    }
}

#[test]
fn parse_rules_should_parse_custom_rules() {
    let mut gd = DefaultGameDescriptor::new();
    parse_rules(1, "#R24 / 1", &mut gd).unwrap();
    assert_eq!(&[2, 4], gd.survival());
    assert_eq!(&[1], gd.birth());
}

#[test]
fn parser_should_understand_default_rules() {
    let mut parser = Life105Parser::new();
    let gd = parser.parse(&block_input("#N".as_bytes())).unwrap();
    assert_eq!(&[2, 3], gd.survival());
    assert_eq!(&[3], gd.birth());
}

#[test]
fn life_1_05_parser_should_correctly_handle_io_errors() {
    let mut parser = Life105Parser::new();
    let reader = ErrReader::new(io::ErrorKind::BrokenPipe);

    match parser.parse(&block_input(reader)) {
        Err(ParseError::IOError(io::ErrorKind::BrokenPipe)) => {}
        Err(_) => panic!("Wrong error returned!"),
        _ => panic!("No error returned!"),
    }
}

#[test]
fn life_1_05_parser_should_throw_error_on_wrong_format_annotation() {
    let mut parser = Life105Parser::new();
    let input = block_input("#Life 1.06\n0 0\n1 2".as_bytes());
    let res = parser.parse(&input);
    match res {
        Err(ParseError::InvalidFileFormat) => {}
        Err(x) => panic!("Unexpected error {:?}", x),
        _ => panic!("No error thrown!"),
    }
}

#[test]
fn should_raise_error_on_invalid_block_header() {
    let mut parser = Life105Parser::new();
    let input = "#P 0 a".as_bytes();
    match parser.parse(&block_input(input)) {
        Err(ParseError::MalformedLine(1)) => {}
        Err(_) => panic!("Wrong error thrown!"),
        _ => panic!("No error thrown!"),
    }
}

#[test]
fn parse_offset_should_handle_too_big_coords() {
    match parse_offset(1, "#P 0 32768") {
        Err(ParseError::CoordinateOutOfRange(1)) => {}
        Err(_) => panic!("Wrong error thrown!"),
        Ok(_) => panic!("No error thrown!"),
    }
}

#[test]
fn should_raise_error_on_unexpected_character_in_block() {
    let input = block_input("#P -1 -1\n..*#".as_bytes());
    let mut parser = Life105Parser::new();
    match parser.parse(&input) {
        Err(ParseError::MalformedLine(2)) => {}
        _ => panic!("Expected MalformedLine"),
    }
}

#[test]
fn should_handle_too_big_horizontal_coords() {
    let input = block_input("#P 32768 0\n*".as_bytes());

    let mut parser = Life105Parser::new();
    let result = parser.parse(&input);
    match result {
        Err(ParseError::CoordinateOutOfRange(1)) => {}
        _ => panic!("Expected CoordinateOutOfRange"),
    }
}

#[test]
fn block_example_gives_rules_and_cells() {
    let gd = block_parse("#N\n#P 0 -1\n.*.\n..*\n*.*\n").unwrap();
    assert_eq!(&[2, 3], gd.survival());
    assert_eq!(&[3], gd.birth());
    assert_eq!(
        &[
            Coord { x: 1, y: -1 },
            Coord { x: 2, y: 0 },
            Coord { x: 0, y: 1 },
            Coord { x: 2, y: 1 }
        ],
        gd.live_cells()
    );
}

#[test]
fn default_rules_alone_give_no_cells() {
    let gd = block_parse("#N").unwrap();
    assert_eq!(&[2, 3], gd.survival());
    assert_eq!(&[3], gd.birth());
    assert!(gd.live_cells().is_empty());
}

#[test]
fn empty_input_gives_an_empty_descriptor() {
    let gd = block_parse("").unwrap();
    assert!(gd.survival().is_empty());
    assert!(gd.birth().is_empty());
    assert!(gd.live_cells().is_empty());
}

#[test]
fn custom_rules_are_read_digit_by_digit() {
    let gd = block_parse("#R24/1").unwrap();
    assert_eq!(&[2, 4], gd.survival());
    assert_eq!(&[1], gd.birth());
    assert!(gd.live_cells().is_empty());

    let gd = block_parse("#R 1357 / 0990 ").unwrap();
    assert_eq!(&[1, 3, 5, 7], gd.survival());
    assert_eq!(&[0, 9, 9, 0], gd.birth());
}

#[test]
fn rules_without_slash_are_malformed() {
    assert_eq!(block_parse("#N\n\n#R 23").err(), Some(ParseError::MalformedLine(3)));
    assert_eq!(block_parse("#R/3").err(), Some(ParseError::MalformedLine(1)));
    assert_eq!(block_parse("#R23/").err(), Some(ParseError::MalformedLine(1)));
    assert_eq!(block_parse("#R23/3x").err(), Some(ParseError::MalformedLine(1)));
}

#[test]
fn a_later_rules_line_replaces_the_rules() {
    let gd = block_parse("#R1/2\n#N").unwrap();
    assert_eq!(&[2, 3], gd.survival());
    assert_eq!(&[3], gd.birth());

    let gd = block_parse("#N\n#R45/67").unwrap();
    assert_eq!(&[4, 5], gd.survival());
    assert_eq!(&[6, 7], gd.birth());
}

#[test]
fn rules_lines_leave_the_cells() {
    let gd = block_parse("#P 0 0\n*\n#N\n*").unwrap();
    assert_eq!(&[Coord { x: 0, y: 0 }, Coord { x: 0, y: 1 }], gd.live_cells());
    assert_eq!(&[2, 3], gd.survival());
}

#[test]
fn each_block_has_its_own_offset_and_rows() {
    let gd = block_parse("#P 0 -2\n.*.\n#P -1 0\n*..").unwrap();
    assert_eq!(&[Coord { x: 1, y: -2 }, Coord { x: -1, y: 0 }], gd.live_cells());
    let shifted = gd.no_negative_coords();
    assert_eq!(&[Coord { x: 2, y: 0 }, Coord { x: 0, y: 2 }], shifted.live_cells());

    let gd = block_parse("#P 10 20\n*\n*\n#P +3 -4\n.\n.*").unwrap();
    assert_eq!(
        &[Coord { x: 10, y: 20 }, Coord { x: 10, y: 21 }, Coord { x: 4, y: -3 }],
        gd.live_cells()
    );
}

#[test]
fn lines_before_the_first_block_are_ignored() {
    let gd = block_parse("#D a glider\nanything at all\n\n#P 0 0\n*").unwrap();
    assert_eq!(&[Coord { x: 0, y: 0 }], gd.live_cells());
}

#[test]
fn an_empty_line_in_a_block_is_an_empty_row() {
    let gd = block_parse("#P 0 0\n*\n\n*").unwrap();
    assert_eq!(&[Coord { x: 0, y: 0 }, Coord { x: 0, y: 2 }], gd.live_cells());
}

#[test]
fn lines_are_trimmed_before_they_are_read() {
    let gd = block_parse("  #N  \n\t#P 1 1\r\n  .*  \r\n").unwrap();
    assert_eq!(&[2, 3], gd.survival());
    assert_eq!(&[Coord { x: 2, y: 1 }], gd.live_cells());
}

#[test]
fn a_bad_character_in_a_row_is_malformed() {
    assert_eq!(block_parse("#P 0 0\n.*.\n..*#").err(), Some(ParseError::MalformedLine(3)));
    assert_eq!(block_parse("#P 0 0\n* *").err(), Some(ParseError::MalformedLine(2)));
    assert_eq!(block_parse("#P 0 0\n#D late comment").err(), Some(ParseError::MalformedLine(2)));
}

#[test]
fn offsets_must_be_two_numbers() {
    assert_eq!(block_parse("#P").err(), Some(ParseError::MalformedLine(1)));
    assert_eq!(block_parse("#P 1").err(), Some(ParseError::MalformedLine(1)));
    assert_eq!(block_parse("\n#P 1 2 3").err(), Some(ParseError::MalformedLine(2)));
    assert_eq!(block_parse("#P 1 --2").err(), Some(ParseError::MalformedLine(1)));
    assert_eq!(parse_offset(7, "#P x y"), Err(ParseError::MalformedLine(7)));
}

#[test]
fn offsets_are_read_with_and_without_sign() {
    assert_eq!(parse_offset(1, "#P 0 0"), Ok((0, 0)));
    assert_eq!(parse_offset(1, "#P -12 +34"), Ok((-12, 34)));
    assert_eq!(parse_offset(1, "#P-32768 32767"), Ok((-32768, 32767)));
    assert_eq!(parse_offset(1, "#P \t 007   -0"), Ok((7, 0)));
}

#[test]
fn offsets_outside_the_domain_are_out_of_range() {
    assert_eq!(parse_offset(4, "#P 32768 0"), Err(ParseError::CoordinateOutOfRange(4)));
    assert_eq!(parse_offset(4, "#P 0 -32769"), Err(ParseError::CoordinateOutOfRange(4)));
    assert_eq!(
        parse_offset(4, "#P 99999999999999999999999 0"),
        Err(ParseError::CoordinateOutOfRange(4))
    );
    assert_eq!(block_parse("#N\n#P 0 32768").err(), Some(ParseError::CoordinateOutOfRange(2)));
}

#[test]
fn computed_coordinates_outside_the_domain_are_out_of_range() {
    // column 1 at offset 32767 is 32768
    assert_eq!(
        block_parse("#P 32767 0\n.*").err(),
        Some(ParseError::CoordinateOutOfRange(2))
    );
    // row 1 at offset 32767 is 32768
    assert_eq!(
        block_parse("#P 0 32767\n*\n*").err(),
        Some(ParseError::CoordinateOutOfRange(3))
    );
    // the last column and row that fit
    let gd = block_parse("#P 32766 32766\n.*\n.*").unwrap();
    assert_eq!(&[Coord { x: 32767, y: 32766 }, Coord { x: 32767, y: 32767 }], gd.live_cells());
}

#[test]
fn dead_cells_outside_the_domain_are_no_error() {
    let gd = block_parse("#P 32767 32767\n*...\n....").unwrap();
    assert_eq!(&[Coord { x: 32767, y: 32767 }], gd.live_cells());
}

#[test]
fn the_first_error_in_a_row_is_reported() {
    assert_eq!(
        decode_row(9, "*#", (32767, 0), 0).err(),
        Some(ParseError::MalformedLine(9))
    );
    assert_eq!(
        decode_row(9, ".*#", (32767, 0), 0).err(),
        Some(ParseError::CoordinateOutOfRange(9))
    );
    assert_eq!(
        decode_row(9, "#*", (32767, 0), 0).err(),
        Some(ParseError::MalformedLine(9))
    );
}

#[test]
fn rows_are_decoded_at_their_offset() {
    assert_eq!(decode_row(1, "", (0, 0), 0).unwrap(), vec![]);
    assert_eq!(decode_row(1, "...", (5, 5), 3).unwrap(), vec![]);
    assert_eq!(
        decode_row(1, "*.*", (-1, -10), 4).unwrap(),
        vec![Coord { x: -1, y: -6 }, Coord { x: 1, y: -6 }]
    );
    assert_eq!(
        decode_row(1, "*", (-32768, -32768), 65535).unwrap(),
        vec![Coord { x: -32768, y: 32767 }]
    );
    assert_eq!(
        decode_row(1, "*", (-32768, -32768), 65536).err(),
        Some(ParseError::CoordinateOutOfRange(1))
    );
    assert_eq!(decode_row(1, "*", (0, 0), usize::MAX).err(), Some(ParseError::CoordinateOutOfRange(1)));
}

#[test]
fn version_line_of_this_format_is_accepted() {
    assert_eq!(check_file_format("#Life 1.05"), Ok(()));
    assert_eq!(check_file_format("#Life   1.05"), Ok(()));
    let gd = block_parse("#Life 1.05\n#N\n#P 0 0\n*").unwrap();
    assert_eq!(&[Coord { x: 0, y: 0 }], gd.live_cells());
}

#[test]
fn version_line_of_another_version_is_refused() {
    assert_eq!(check_file_format("#Life 1.06"), Err(ParseError::InvalidFileFormat));
    assert_eq!(check_file_format("#Life 1x05"), Err(ParseError::InvalidFileFormat));
    assert_eq!(check_file_format("#Life 1.050"), Err(ParseError::InvalidFileFormat));
    assert_eq!(check_file_format("#Life"), Err(ParseError::InvalidFileFormat));
    assert_eq!(block_parse("#N\n#Life 1.06").err(), Some(ParseError::InvalidFileFormat));
}

#[test]
fn the_first_error_ends_the_parse() {
    assert_eq!(
        block_parse("#P 0 0\n*x\n#R 23\n#Life 1.06").err(),
        Some(ParseError::MalformedLine(2))
    );
    let mut input = block_input("#P 0 0\n*".as_bytes());
    input.push(Err(ErrorKind::UnexpectedEof));
    input.push(Ok("!".to_string()));
    assert_eq!(
        Life105Parser::new().parse(&input).err(),
        Some(ParseError::IOError(ErrorKind::UnexpectedEof))
    );
    let mut input = block_input("#P 0 0\n!".as_bytes());
    input.push(Err(ErrorKind::UnexpectedEof));
    assert_eq!(Life105Parser::new().parse(&input).err(), Some(ParseError::MalformedLine(2)));
}

#[test]
fn a_parser_can_be_used_again() {
    let mut parser = Life105Parser::new();
    let first = parser.parse(&block_input("#N\n#P 1 1\n*".as_bytes())).unwrap();
    let second = parser.parse(&block_input("#P 0 0\n.*".as_bytes())).unwrap();
    assert_eq!(&[Coord { x: 1, y: 1 }], first.live_cells());
    assert_eq!(&[Coord { x: 1, y: 0 }], second.live_cells());
    assert!(second.survival().is_empty());
}

#[test]
fn rules_come_from_the_two_groups() {
    let found = block_groups(&[Some("#R23/3"), Some("23"), Some("3")]);
    assert_eq!(rules_from_captures(1, &found), Ok((vec![2, 3], vec![3])));
    let found = block_groups(&[Some("x"), Some("0189"), Some("")]);
    assert_eq!(rules_from_captures(1, &found), Ok((vec![0, 1, 8, 9], vec![])));
}

#[test]
fn rules_need_a_match_with_two_groups_of_digits() {
    assert_eq!(rules_from_captures(2, &None), Err(ParseError::MalformedLine(2)));
    assert_eq!(rules_from_captures(2, &Some(None)), Err(ParseError::MalformedLine(2)));
    let found = block_groups(&[Some("#R23/3"), Some("23")]);
    assert_eq!(rules_from_captures(2, &found), Err(ParseError::MalformedLine(2)));
    let found = block_groups(&[Some("#R23/3"), Some("23"), None]);
    assert_eq!(rules_from_captures(2, &found), Err(ParseError::MalformedLine(2)));
    let found = block_groups(&[Some("#R23/3"), Some("2a"), Some("3")]);
    assert_eq!(rules_from_captures(2, &found), Err(ParseError::MalformedLine(2)));
    let found = block_groups(&[Some("#R23/3"), Some("23"), Some("\u{0663}")]);
    assert_eq!(rules_from_captures(2, &found), Err(ParseError::MalformedLine(2)));
}

#[test]
fn digits_of_other_scripts_are_no_rules() {
    let mut gd = DefaultGameDescriptor::new();
    gd.add_survival(7);
    assert_eq!(parse_rules(3, "#R\u{0662}/\u{0663}", &mut gd), Err(ParseError::MalformedLine(3)));
    assert_eq!(&[7], gd.survival());
    assert!(gd.birth().is_empty());
}

#[test]
fn parse_rules_appends_to_the_rules() {
    let mut gd = DefaultGameDescriptor::new();
    gd.add_survival(7);
    gd.add_birth(8);
    gd.add_live_cell(1, 1);
    assert_eq!(parse_rules(1, "#R23/3", &mut gd), Ok(()));
    assert_eq!(&[7, 2, 3], gd.survival());
    assert_eq!(&[8, 3], gd.birth());
    assert_eq!(&[Coord { x: 1, y: 1 }], gd.live_cells());
}

#[test]
fn lines_can_be_fed_one_by_one() {
    let state = BlockState::new();
    let state = state.feed(1, "#N").unwrap();
    let state = state.feed(2, "#P 1 1").unwrap();
    let state = state.feed(3, "*.*").unwrap();
    let state = state.feed(4, ".*.").unwrap();
    match state.feed(5, ".?.") {
        Err(ParseError::MalformedLine(5)) => {}
        _ => panic!("Expected MalformedLine"),
    }
    let state = BlockState::new().feed(1, "#P 1 1").unwrap().feed(2, "*.*").unwrap();
    let gd = state.finish();
    assert_eq!(&[Coord { x: 1, y: 1 }, Coord { x: 3, y: 1 }], gd.live_cells());
}

#[test]
fn rows_far_down_a_block_are_counted() {
    let mut state = BlockState::new().feed(1, "#P 0 -32768").unwrap();
    for line in 0..65535 {
        state = state.feed(line + 2, ".").unwrap();
    }
    state = state.feed(65537, "*").unwrap();
    for line in 0..10 {
        state = state.feed(line + 65538, ".").unwrap();
    }
    match state.feed(65548, "*") {
        Err(ParseError::CoordinateOutOfRange(65548)) => {}
        _ => panic!("Expected CoordinateOutOfRange"),
    }
    let mut state = BlockState::new().feed(1, "#P 0 -32768").unwrap();
    for line in 0..65535 {
        state = state.feed(line + 2, ".").unwrap();
    }
    let gd = state.feed(65537, "*").unwrap().finish();
    assert_eq!(&[Coord { x: 0, y: 32767 }], gd.live_cells());
}

#[test]
fn lines_are_told_by_how_they_begin() {
    assert_eq!(read_line(1, "#Life 1.05"), Ok(BlockLine::Version));
    assert_eq!(read_line(1, " #R 23/3 "), Ok(BlockLine::Rules(vec![2, 3], vec![3])));
    assert_eq!(read_line(1, "#N"), Ok(BlockLine::DefaultRules));
    assert_eq!(read_line(1, "#Normal"), Ok(BlockLine::DefaultRules));
    assert_eq!(read_line(1, "#P 1 -1"), Ok(BlockLine::Offset(1, -1)));
    assert_eq!(read_line(1, "  .*. "), Ok(BlockLine::Row(".*.".to_string())));
    assert_eq!(read_line(1, "   "), Ok(BlockLine::Row(String::new())));
    assert_eq!(read_line(1, "#D text"), Ok(BlockLine::Row("#D text".to_string())));
    assert_eq!(read_line(1, "# R23/3"), Ok(BlockLine::Row("# R23/3".to_string())));
    assert_eq!(read_line(8, "#Rules"), Err(ParseError::MalformedLine(8)));
    assert_eq!(read_line(8, "#Pattern"), Err(ParseError::MalformedLine(8)));
    assert_eq!(read_line(8, "#P 1 70000"), Err(ParseError::CoordinateOutOfRange(8)));
    assert_eq!(read_line(8, "#Lifeless"), Err(ParseError::InvalidFileFormat));
}

#[test]
fn what_a_line_says_changes_the_state() {
    let state = BlockState::new();
    let state = state.apply(1, &BlockLine::Rules(vec![1], vec![2])).unwrap();
    // no block is open yet
    let state = state.apply(2, &BlockLine::Row("*".to_string())).unwrap();
    let state = state.apply(3, &BlockLine::Offset(5, 5)).unwrap();
    let state = state.apply(4, &BlockLine::Row("*".to_string())).unwrap();
    // not a row: the next row is still the second of the block
    let state = state.apply(5, &BlockLine::Version).unwrap();
    let state = state.apply(6, &BlockLine::Row(".*".to_string())).unwrap();
    let state = state.apply(7, &BlockLine::DefaultRules).unwrap();
    let state = state.apply(8, &BlockLine::Offset(0, -7)).unwrap();
    let state = state.apply(9, &BlockLine::Row("*".to_string())).unwrap();
    let gd = state.finish();
    assert_eq!(&[2, 3], gd.survival());
    assert_eq!(&[3], gd.birth());
    assert_eq!(
        &[Coord { x: 5, y: 5 }, Coord { x: 6, y: 6 }, Coord { x: 0, y: -7 }],
        gd.live_cells()
    );
}

#[test]
fn a_row_with_an_error_ends_the_state() {
    let state = BlockState::new().apply(1, &BlockLine::Offset(32767, 0)).unwrap();
    match state.apply(2, &BlockLine::Row(".*".to_string())) {
        Err(ParseError::CoordinateOutOfRange(2)) => {}
        _ => panic!("Expected CoordinateOutOfRange"),
    }
    let state = BlockState::new().apply(1, &BlockLine::Offset(0, 0)).unwrap();
    match state.apply(2, &BlockLine::Row("o".to_string())) {
        Err(ParseError::MalformedLine(2)) => {}
        _ => panic!("Expected MalformedLine"),
    }
}

#[test]
fn a_glider_is_read() {
    let text = "#Life 1.05\n#D A glider\n#N\n#P -1 -1\n.*.\n..*\n***\n";
    let gd = block_parse(text).unwrap();
    assert_eq!(&[2, 3], gd.survival());
    assert_eq!(&[3], gd.birth());
    assert_eq!(
        &[
            Coord { x: 0, y: -1 },
            Coord { x: 1, y: 0 },
            Coord { x: -1, y: 1 },
            Coord { x: 0, y: 1 },
            Coord { x: 1, y: 1 }
        ],
        gd.live_cells()
    );
    let shifted = gd.no_negative_coords();
    assert_eq!(
        &[
            Coord { x: 1, y: 0 },
            Coord { x: 2, y: 1 },
            Coord { x: 0, y: 2 },
            Coord { x: 1, y: 2 },
            Coord { x: 2, y: 2 }
        ],
        shifted.live_cells()
    );
}

#[test]
fn parsers_can_be_chosen_at_run_time() {
    let mut parsers: Vec<Box<dyn Parser>> =
        vec![Box::new(Life105Parser::new()), Box::new(Life106Parser::new())];
    let block = parsers[0].parse(&block_input("#P 2 3\n*".as_bytes())).unwrap();
    assert_eq!(&[Coord { x: 2, y: 3 }], block.live_cells());
    let flat = parsers[1].parse(&block_input("2 3".as_bytes())).unwrap();
    assert_eq!(&[Coord { x: 2, y: 3 }], flat.live_cells());
}
