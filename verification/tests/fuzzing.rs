use actus::fuzzing::{delimiter_input, literal_input};

#[test]
fn maps_each_byte_to_a_delimiter() {
    assert_eq!(delimiter_input(&[0, 1, 2, 3, 4, 5, 6, 7, 8, 255]), "{}();,: { ");
    assert_eq!(delimiter_input(&[]), "");
}

#[test]
fn embeds_lossy_text_in_a_comment_and_a_literal() {
    assert_eq!(literal_input(b"hi"), "verb main() { // hi\n return \"hi\"; }");
    assert_eq!(literal_input(&[0xff]), "verb main() { // \u{fffd}\n return \"\u{fffd}\"; }");
}
