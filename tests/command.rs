use atc::aircraft::{Callsign, TurnDirection};
use atc::command::{tokenize, AtcCommand, CliCommand, CommCommand, CommandParseError};
use atc::text::{parse_i32, parse_u32};

fn atc_of(cmds: &[CliCommand]) -> Vec<AtcCommand> {
    cmds.iter()
        .filter_map(|c| match c {
            CliCommand::Atc(a) => Some(*a),
            _ => None,
        })
        .collect()
}

#[test]
fn tokens_split_on_any_whitespace() {
    assert_eq!(vec!["HDG", "180", "LND"], tokenize("  HDG\t180   LND \n"));
    assert!(tokenize("   ").is_empty());
}

#[test]
fn instructions_are_read_case_insensitively_and_chained() {
    let cmds = CliCommand::from_string(String::from("lnd hdg 90 alt 3000 spd 200"));
    assert_eq!(
        vec![
            AtcCommand::ClearedToLand(true),
            AtcCommand::ChangeHeading(90),
            AtcCommand::ChangeAltitude(3000),
            AtcCommand::ChangeSpeed(200),
        ],
        atc_of(&cmds)
    );
}

#[test]
fn turns_carry_their_direction() {
    let cmds = CliCommand::from_string(String::from("TURNL 270 TURNR -10"));
    assert_eq!(
        vec![
            AtcCommand::ChangeHeadingWithTurnDirection(270, TurnDirection::Left),
            AtcCommand::ChangeHeadingWithTurnDirection(-10, TurnDirection::Right),
        ],
        atc_of(&cmds)
    );
}

#[test]
fn malformed_numbers_are_reported() {
    let cmds = CliCommand::from_string(String::from("HDG abc LND"));
    assert_eq!(2, cmds.len());
    assert!(matches!(cmds[0], CliCommand::Invalid(CommandParseError::InvalidNumber)));
    assert!(matches!(cmds[1], CliCommand::Atc(AtcCommand::ClearedToLand(true))));

    let cmds = CliCommand::from_string(String::from("ALT -100"));
    assert!(matches!(cmds[0], CliCommand::Invalid(CommandParseError::InvalidNumber)));

    let cmds = CliCommand::from_string(String::from("SPD"));
    assert_eq!(1, cmds.len());
    assert!(matches!(cmds[0], CliCommand::Invalid(CommandParseError::MissingArgument)));
    assert_eq!("missing argument", CommandParseError::MissingArgument.as_string());
    assert_eq!("invalid number", CommandParseError::InvalidNumber.as_string());
}

#[test]
fn console_commands_when_no_instruction() {
    let cmds = CliCommand::from_string(String::from("list sel cyp2202 fdx261 xyz"));
    assert_eq!(3, cmds.len());
    assert!(matches!(cmds[0], CliCommand::Comm(CommCommand::ListAircraft)));
    match &cmds[1] {
        CliCommand::Comm(CommCommand::ChangeAircraft(c)) => {
            assert_eq!("CYP", c.code);
            assert_eq!("2202", c.number);
        }
        _ => panic!("expected a selection"),
    }
    match &cmds[2] {
        CliCommand::Comm(CommCommand::ChangeAircraft(c)) => assert_eq!("FDX261", c.coded()),
        _ => panic!("expected a selection"),
    }
}

#[test]
fn instructions_take_precedence_over_console_commands() {
    let cmds = CliCommand::from_string(String::from("LIST HDG 100"));
    assert_eq!(1, cmds.len());
    assert!(matches!(cmds[0], CliCommand::Atc(AtcCommand::ChangeHeading(100))));
}

#[test]
fn instructions_read_back_in_words() {
    assert_eq!("heading to 180", AtcCommand::ChangeHeading(180).as_string());
    assert_eq!("heading to -5", AtcCommand::ChangeHeading(-5).as_string());
    assert_eq!(
        "turn left to 270",
        AtcCommand::ChangeHeadingWithTurnDirection(270, TurnDirection::Left).as_string()
    );
    assert_eq!("altitude to 3000 feet", AtcCommand::ChangeAltitude(3000).as_string());
    assert_eq!("speed to 210", AtcCommand::ChangeSpeed(210).as_string());
    assert_eq!("cleared to land", AtcCommand::ClearedToLand(true).as_string());
    assert_eq!("clearance to land cancelled", AtcCommand::ClearedToLand(false).as_string());
}

#[test]
fn callsigns_are_read_after_upper_casing() {
    let c = Callsign::from_string(String::from("cyp2202")).unwrap();
    assert_eq!("CYP", c.code);
    assert_eq!("2202", c.number);
    assert_eq!("", c.name);
    assert_eq!("CYP2202", c.coded());
    assert!(Callsign::from_string(String::from("cyp")).is_none());
    assert!(Callsign::from_string(String::from("")).is_none());
    let named = Callsign { name: String::from("Cyprus Airways"), code: String::from("CYP"), number: String::from("2202") };
    assert_eq!("Cyprus Airways 2202", named.spoken());
    assert!(named == c);
}

#[test]
fn numbers_parse_with_sign_and_range() {
    assert_eq!(Some(-2147483648), parse_i32("-2147483648"));
    assert_eq!(None, parse_i32("2147483648"));
    assert_eq!(Some(42), parse_i32("+42"));
    assert_eq!(None, parse_i32("4x"));
    assert_eq!(None, parse_i32("-"));
    assert_eq!(Some(4294967295), parse_u32("4294967295"));
    assert_eq!(None, parse_u32("4294967296"));
    assert_eq!(None, parse_u32("-1"));
    assert_eq!(None, parse_u32(""));
}
