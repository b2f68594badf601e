use merkle_ledger::amount::parse_amount;
use merkle_ledger::style::{branch_class, get_color, leaf_class, COLORS};
use merkle_ledger::TreeError;

#[test]
fn amounts_are_decimal_digits() {
    assert_eq!(parse_amount("0"), Ok(0));
    assert_eq!(parse_amount("5"), Ok(5));
    assert_eq!(parse_amount("007"), Ok(7));
    assert_eq!(parse_amount("1234567890"), Ok(1234567890));
    assert_eq!(parse_amount("+42"), Ok(42));
    assert_eq!(parse_amount("18446744073709551615"), Ok(u64::MAX));
}

#[test]
fn what_is_no_amount_is_refused() {
    for text in [
        "",
        "+",
        "-1",
        "-0",
        "++1",
        "1+",
        " 1",
        "1 ",
        "1.5",
        "1e3",
        "1_000",
        "abc",
        "12a",
        "\u{0661}",
        "18446744073709551616",
        "99999999999999999999",
        "184467440737095516150",
    ] {
        assert_eq!(parse_amount(text), Err(TreeError::MalformedAmount), "{:?}", text);
    }
}

#[test]
fn amounts_read_as_the_standard_library_reads_them() {
    for text in ["0", "+0", "17", "+", "", "-3", "0x10", "18446744073709551615", "18446744073709551616", "٣"] {
        assert_eq!(parse_amount(text).ok(), text.parse::<u64>().ok(), "{:?}", text);
    }
}

#[test]
fn colors_repeat_after_fifteen() {
    assert_eq!(get_color(0), "background-color: #000b0b;");
    assert_eq!(get_color(1), "background-color: #000a0a;");
    assert_eq!(get_color(4), "background-color: #000008;");
    assert_eq!(get_color(14), "background-color: #000400;");
    assert_eq!(get_color(15), "background-color: #000b0b;");
    assert_eq!(get_color(31), "background-color: #000a0a;");
    for height in 0..45usize {
        assert_eq!(get_color(height), COLORS[height % 15]);
    }
}

#[test]
fn leaf_classes() {
    assert_eq!(leaf_class(7, 7, false), "has-text-danger");
    assert_eq!(leaf_class(7, 6, false), "has-text-warning");
    assert_eq!(leaf_class(7, 5, false), "has-text-info");
    assert_eq!(leaf_class(7, 0, false), "has-text-info");
    assert_eq!(leaf_class(7, 7, true), "has-text-success");
    assert_eq!(leaf_class(7, 6, true), "has-text-success");
    assert_eq!(leaf_class(7, 0, true), "has-text-success");
    assert_eq!(leaf_class(0, 0, false), "has-text-danger");
}

#[test]
fn branch_classes() {
    assert_eq!(branch_class(true), "has-text-success");
    assert_eq!(branch_class(false), "has-text-link");
}
