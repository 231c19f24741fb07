use card_games::ui::{box_message_rows, format_box_message, format_centred_message};

#[test]
fn boxed_message_centred() {
    assert_eq!(format_box_message("Hi", 6, true), "------\n  Hi\n------\n");
    assert_eq!(format_box_message("Hi", 7, true), "-------\n  Hi\n-------\n");
}

#[test]
fn boxed_message_plain_and_narrow() {
    assert_eq!(format_box_message("Hi", 4, false), "----\nHi\n----\n");
    assert_eq!(format_box_message("Hello", 2, true), "--\nHello\n--\n");
    assert_eq!(format_box_message("", 0, true), "\n\n\n");
}

#[test]
fn centred_message() {
    assert_eq!(format_centred_message("ab", 6), "  ab  ");
    assert_eq!(format_centred_message("ab", 7), "  ab  ");
    assert_eq!(format_centred_message("abcdef", 2), "abcdef");
}

#[test]
fn box_rows() {
    assert_eq!(box_message_rows("Hi", 6, true), ("------".to_string(), "  Hi".to_string()));
    assert_eq!(box_message_rows("Hello", 2, false), ("-----".to_string(), "Hello".to_string()));
}
