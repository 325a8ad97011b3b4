use supernova::color::{components_of_hex_value, parse_hex_color};

#[test]
fn hex_rgb_with_and_without_hash() {
    assert_eq!(parse_hex_color("#ff8800"), Some((255, 136, 0, 255)));
    assert_eq!(parse_hex_color("ff8800"), Some((255, 136, 0, 255)));
    assert_eq!(parse_hex_color("#000000"), Some((0, 0, 0, 255)));
}

#[test]
fn hex_rgba() {
    assert_eq!(parse_hex_color("#11223344"), Some((0x11, 0x22, 0x33, 0x44)));
    assert_eq!(parse_hex_color("FFFFFFFF"), Some((255, 255, 255, 255)));
}

#[test]
fn hex_rejects_bad_input() {
    assert_eq!(parse_hex_color("#fff"), None);
    assert_eq!(parse_hex_color("#zzzzzz"), None);
    assert_eq!(parse_hex_color(""), None);
    assert_eq!(parse_hex_color("#"), None);
    assert_eq!(parse_hex_color("#1234567"), None);
}

#[test]
fn hex_components_of_value() {
    assert_eq!(components_of_hex_value(0x00ff8800, 6), Some((255, 136, 0, 255)));
    assert_eq!(components_of_hex_value(0x11223344, 8), Some((0x11, 0x22, 0x33, 0x44)));
    assert_eq!(components_of_hex_value(0x123, 3), None);
}

#[test]
fn hex_sign_counts_as_a_digit_place() {
    // std's parser takes a leading '+'; the length check counts it
    assert_eq!(parse_hex_color("#+fffff"), Some((0x0f, 0xff, 0xff, 255)));
    assert_eq!(parse_hex_color("#-fffff"), None);
    assert_eq!(parse_hex_color("+ff8800"), None);
}
