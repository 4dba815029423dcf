use bluegone::backends::Temperature;
use bluegone::config::Mode;
use bluegone::state::read;
use bluegone::text::{decimal, equals_ignoring_case, parse_u32, same_text, to_lower};
use bluegone::{ParseError, Pid};

#[test]
fn numbers_are_written_in_base_ten() {
    assert_eq!(decimal(0), "0");
    assert_eq!(decimal(7), "7");
    assert_eq!(decimal(10), "10");
    assert_eq!(decimal(6500), "6500");
    assert_eq!(decimal(4_294_967_295), "4294967295");
}

#[test]
fn numbers_are_read_in_base_ten() {
    assert_eq!(parse_u32("0"), Some(0));
    assert_eq!(parse_u32("007"), Some(7));
    assert_eq!(parse_u32("+42"), Some(42));
    assert_eq!(parse_u32("4294967295"), Some(4_294_967_295));
    assert_eq!(parse_u32("00000000004294967295"), Some(4_294_967_295));
}

#[test]
fn other_texts_are_no_numbers() {
    for text in ["", "+", "-1", "12a", " 12", "12 ", "1.5", "++1", "4294967296", "99999999999999999999999"] {
        assert_eq!(parse_u32(text), None);
    }
}

#[test]
fn numbers_are_read_back_as_written() {
    for n in [0u32, 1, 9, 10, 99, 100, 12_345, 65_535, 4_294_967_295] {
        assert_eq!(parse_u32(&decimal(n)), Some(n));
        assert_eq!(parse_u32(&n.to_string()), Some(n));
        assert_eq!(decimal(n), n.to_string());
    }
}

#[test]
fn letters_are_compared_without_their_case() {
    assert!(equals_ignoring_case("Dynamic", "dYNAMIC"));
    assert!(equals_ignoring_case("", ""));
    assert!(!equals_ignoring_case("static", "statics"));
    assert!(!equals_ignoring_case("st\u{e4}tic", "st\u{c4}tic"));
    assert_eq!(to_lower('A'), 'a');
    assert_eq!(to_lower('Z'), 'z');
    assert_eq!(to_lower('a'), 'a');
    assert_eq!(to_lower('@'), '@');
    assert_eq!(to_lower('['), '[');
    assert_eq!(to_lower('\u{c4}'), '\u{c4}');
}

#[test]
fn texts_are_compared_character_by_character() {
    assert!(same_text("sunset", "sunset"));
    assert!(!same_text("sunset", "Sunset"));
    assert!(!same_text("sunset", "sunse"));
    assert!(same_text("\u{e4}b", "\u{e4}b"));
}

#[test]
fn pids_are_written_and_read_back() {
    assert_eq!(Pid(1234).to_text(), "1234");
    assert_eq!(Pid(1234).as_u32(), 1234);
    assert_eq!(Pid::from(77), Pid(77));
    assert_eq!(Pid::try_from("1234".to_string()), Ok(Pid(1234)));
    assert_eq!(Pid::try_from(Pid(4_294_967_295).to_text()), Ok(Pid(4_294_967_295)));
}

#[test]
fn other_texts_are_no_pids() {
    assert_eq!(Pid::try_from("".to_string()), Err(ParseError::InvalidPid));
    assert_eq!(Pid::try_from("12\n".to_string()), Err(ParseError::InvalidPid));
    assert_eq!(Pid::try_from("4294967296".to_string()), Err(ParseError::InvalidPid));
    assert_eq!(ParseError::InvalidPid.message(), "Invalid process id");
}

#[test]
fn temperatures_are_written_in_kelvin() {
    assert_eq!(Temperature::new(6500).to_text(), "6500");
    assert_eq!(Temperature::new(6500).as_u32(), 6500);
    assert_eq!(Temperature::new(0).to_text(), "0");
}

#[test]
fn state_is_read_from_the_content_of_its_file() {
    assert_eq!(read::<Pid>(Some("4711".to_string())), Some(Pid(4711)));
    assert_eq!(read::<Mode>(Some("dynamic".to_string())), Some(Mode::Dynamic));
    assert_eq!(read::<Mode>(Some("static".to_string())), Some(Mode::Static));
}

#[test]
fn missing_or_broken_state_reads_as_none() {
    assert_eq!(read::<Pid>(None), None);
    assert_eq!(read::<Mode>(None), None);
    assert_eq!(read::<Pid>(Some("47x1".to_string())), None);
    assert_eq!(read::<Mode>(Some("dyn".to_string())), None);
    assert_eq!(read::<Mode>(Some("".to_string())), None);
}
