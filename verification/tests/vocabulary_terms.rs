use screener::text::{chars_of, same_chars, string_of};
use screener::vocabulary::{Color, ColorParseError};

#[test]
fn terms_come_in_a_fixed_order() {
    assert_eq!(
        Color::all(),
        vec![
            Color::Red,
            Color::Orange,
            Color::Yellow,
            Color::Green,
            Color::Blue,
            Color::Violet,
        ]
    );
}

#[test]
fn terms_are_written_in_lower_case() {
    let written: Vec<String> = Color::all().iter().map(|color| color.to_string()).collect();
    assert_eq!(written, vec!["red", "orange", "yellow", "green", "blue", "violet"]);
    assert_eq!(Color::Green.name(), "green");
}

#[test]
fn parsing_ignores_case() {
    assert_eq!(Color::from_str("red").unwrap(), Color::Red);
    assert_eq!(Color::from_str("RED").unwrap(), Color::Red);
    assert_eq!(Color::from_str("Orange").unwrap(), Color::Orange);
    assert_eq!(Color::from_str("yElLoW").unwrap(), Color::Yellow);
    assert_eq!(Color::from_str("GREEN").unwrap(), Color::Green);
    assert_eq!(Color::from_str("Blue").unwrap(), Color::Blue);
    assert_eq!(Color::from_str("VIOLET").unwrap(), Color::Violet);
}

#[test]
fn parsing_every_term_gives_it_back() {
    for color in Color::all() {
        assert_eq!(Color::from_str(&color.to_string()).unwrap(), color);
        assert_eq!(Color::from_name(color.name()), Some(color));
    }
}

#[test]
fn parsing_rejects_other_texts() {
    for given in ["purple", "", " red", "red ", "re", "reds"] {
        match Color::from_str(given) {
            Err(ColorParseError::InvalidColor { given_color }) => assert_eq!(given_color, given),
            Ok(color) => panic!("{:?}", color),
        }
    }
    match Color::from_str("Indigo") {
        Err(ColorParseError::InvalidColor { given_color }) => assert_eq!(given_color, "Indigo"),
        Ok(color) => panic!("{:?}", color),
    }
}

#[test]
fn exact_names_are_case_sensitive() {
    assert_eq!(Color::from_name("blue"), Some(Color::Blue));
    assert_eq!(Color::from_name("Blue"), None);
    assert_eq!(Color::from_name(""), None);
}

#[test]
fn characters_and_strings_convert_both_ways() {
    assert_eq!(chars_of("r\u{e9}d"), vec!['r', '\u{e9}', 'd']);
    assert_eq!(chars_of(""), Vec::<char>::new());
    assert_eq!(string_of(&vec!['b', 'l', 'u', 'e']), "blue");
    assert_eq!(string_of(&Vec::new()), "");
    assert!(same_chars(&chars_of("green"), &vec!['g', 'r', 'e', 'e', 'n']));
    assert!(!same_chars(&chars_of("green"), &chars_of("greet")));
    assert!(!same_chars(&chars_of("green"), &chars_of("gree")));
}
