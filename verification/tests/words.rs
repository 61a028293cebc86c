use kindle_dashboard::labels::{
    capitalise, join_words, label_words, pretty_heading, pretty_label, weather_kind, with_initial,
};
use kindle_dashboard::text::{
    chars_of, contains, decimal, eq_ignore_ascii_case, hexadecimal, is_white_space, join2, join3,
    parse_number, string_of, text_eq, to_ascii_lower, to_ascii_lowercase, trim, trim_end_matches,
};

#[test]
fn texts_are_compared_and_searched() {
    assert!(text_eq("fan", "fan"));
    assert!(!text_eq("fan", "Fan"));
    assert!(eq_ignore_ascii_case("HIGH", "high"));
    assert!(!eq_ignore_ascii_case("\u{c9}", "\u{e9}"));
    assert_eq!(to_ascii_lowercase("MaX7 \u{c9}"), "max7 \u{c9}");
    assert_eq!(to_ascii_lower('Z'), 'z');
    assert_eq!(to_ascii_lower('['), '[');
    assert!(contains("a=1 batt_full=1", "batt_full=1"));
    assert!(contains("abc", ""));
    assert!(!contains("ab", "abc"));
    assert!(contains("aab", "ab"));
}

#[test]
fn white_space_is_that_of_unicode() {
    let mut code: u32 = 0;
    while code < 0x11_0000 {
        if let Some(c) = char::from_u32(code) {
            assert_eq!(is_white_space(c), c.is_whitespace());
        }
        code += 1;
    }
}

#[test]
fn trimming_twice_is_trimming_once() {
    assert_eq!(trim(" \t 1 2\u{3000}\n"), "1 2");
    assert_eq!(trim(trim("  x  ")), trim("  x  "));
    assert_eq!(trim(" \n"), "");
}

#[test]
fn trailing_marks_are_dropped() {
    assert_eq!(trim_end_matches("http://h:1//", '/'), "http://h:1");
    assert_eq!(trim_end_matches("///", '/'), "");
    assert_eq!(trim_end_matches("a/b", '/'), "a/b");
}

#[test]
fn numbers_are_written_and_read_back() {
    assert_eq!(decimal(0), "0");
    assert_eq!(decimal(u64::MAX), "18446744073709551615");
    assert_eq!(hexadecimal(0), "0");
    assert_eq!(hexadecimal(0xfe38), "fe38");
    for n in [0u64, 9, 10, 120, 4_294_967_296, u64::MAX] {
        assert_eq!(parse_number(&decimal(n), u64::MAX), Some(n));
    }
    assert_eq!(parse_number("007", 7), Some(7));
    assert_eq!(parse_number("8", 7), None);
    assert_eq!(parse_number("18446744073709551616", u64::MAX), None);
    assert_eq!(parse_number("+", 9), None);
    assert_eq!(parse_number("", 9), None);
    assert_eq!(parse_number("1a", 99), None);
    assert_eq!(parse_number("-0", 9), None);
}

#[test]
fn texts_are_taken_apart_and_joined() {
    let chars = chars_of("d\u{e9}j\u{e0}");
    assert_eq!(chars, vec!['d', '\u{e9}', 'j', '\u{e0}']);
    assert_eq!(string_of(&chars, 1, 3), "\u{e9}j");
    assert_eq!(join2("a", "b"), "ab");
    assert_eq!(join3("a", "", "c"), "ac");
}

#[test]
fn weather_icons() {
    assert_eq!(weather_kind("sunny", true), "sun");
    assert_eq!(weather_kind("clear-night", false), "moon");
    assert_eq!(weather_kind("partlycloudy", true), "cloud-moon");
    assert_eq!(weather_kind("partlycloudy", false), "cloud-sun");
    assert_eq!(weather_kind("rainy", false), "cloud-rain");
    assert_eq!(weather_kind("pouring", false), "cloud-rain-wind");
    assert_eq!(weather_kind("windy", false), "cloud-rain-wind");
    assert_eq!(weather_kind("windy-variant", false), "cloud-rain-wind");
    assert_eq!(weather_kind("lightning", false), "cloud-lightning");
    assert_eq!(weather_kind("lightning-rainy", false), "cloud-lightning");
    assert_eq!(weather_kind("snowy", false), "snowflake");
    assert_eq!(weather_kind("snowy-rainy", false), "snowflake");
    assert_eq!(weather_kind("hail", false), "snowflake");
    assert_eq!(weather_kind("fog", false), "cloud-fog");
    assert_eq!(weather_kind("exceptional", true), "cloud");
    assert_eq!(weather_kind("", false), "cloud");
}

#[test]
fn labels_spell_out_identifiers() {
    assert_eq!(pretty_label("partlycloudy"), "Partly Cloudy");
    assert_eq!(pretty_label("heat_cool"), "Heat Cool");
    assert_eq!(pretty_label("__fan--only  "), "Fan Only");
    assert_eq!(pretty_label(""), "");
    assert_eq!(pretty_label("- _"), "");
    assert_eq!(pretty_label("\u{e9}t\u{e9}"), "\u{c9}t\u{e9}");
    assert_eq!(pretty_label("\u{df}x"), "SSx");
}

#[test]
fn labels_of_labels_are_the_same() {
    for value in ["partlycloudy", "snowy-rainy", "a_b c", "Off", "caf\u{e9}_\u{df}x", "\u{149}a-b"] {
        let once = pretty_label(value);
        assert_eq!(pretty_label(&once), once);
    }
}

#[test]
fn the_capital_of_every_character_settles() {
    let mut code: u32 = 0;
    while code < 0x11_0000 {
        if let Some(c) = char::from_u32(code) {
            let capital = capitalise(&c.to_string());
            assert!(!capital.is_empty());
            assert_eq!(capitalise(&capital), capital);
            let once = pretty_label(&c.to_string());
            assert_eq!(pretty_label(&once), once);
        }
        code += 1;
    }
}

#[test]
fn joined_words_come_apart_again() {
    let words = label_words("a_b--c d");
    assert_eq!(words, vec!["a", "b", "c", "d"]);
    assert_eq!(join_words(&words), "a b c d");
    assert_eq!(label_words(&join_words(&words)), words);
    assert_eq!(capitalise("cool"), "Cool");
    assert_eq!(capitalise(""), "");
    assert_eq!(with_initial("SS", "\u{df}a"), "SSa");
}

#[test]
fn headings_are_labels_in_upper_case() {
    assert_eq!(pretty_heading("partlycloudy"), "PARTLY CLOUDY");
    assert_eq!(pretty_heading("unavailable"), "UNAVAILABLE");
    assert_eq!(pretty_heading("stra\u{df}e"), "STRASSE");
}
