use student_report::input::{
    is_whitespace_char, parse_u32, read_text, read_u32, trim, InputError,
};

#[test]
fn white_space_is_that_of_unicode() {
    for code in 0u32..=0x10ffff {
        if let Some(c) = char::from_u32(code) {
            assert_eq!(is_whitespace_char(c), c.is_whitespace());
        }
    }
}

#[test]
fn trim_cuts_both_ends() {
    assert_eq!(trim("Ada\n"), "Ada");
    assert_eq!(trim("  Ada Lovelace \r\n"), "Ada Lovelace");
    assert_eq!(trim("\t 42\u{a0}\u{3000}"), "42");
    assert_eq!(trim("x"), "x");
    assert_eq!(trim(" x"), "x");
    assert_eq!(trim("x "), "x");
    assert_eq!(trim("a  b"), "a  b");
    assert_eq!(trim("\u{e9}t\u{e9}\n"), "\u{e9}t\u{e9}");
}

#[test]
fn trim_of_blank_lines_is_empty() {
    assert_eq!(trim(""), "");
    assert_eq!(trim("\n"), "");
    assert_eq!(trim("   "), "");
    assert_eq!(trim(" \t\r\n\u{2003}"), "");
}

#[test]
fn trim_is_that_of_the_standard_library() {
    let lines = [
        "",
        " ",
        "a",
        " a",
        "a ",
        " a ",
        "\n\na b\tc\n\n",
        "\u{2028}x\u{2029}",
        "\u{200b}x\u{200b}",
        "\u{feff}x",
        "  \u{1680}\u{205f} multi word line \u{202f}\u{85}",
    ];
    for line in lines {
        assert_eq!(trim(line), line.trim());
    }
}

#[test]
fn text_input_accepts_what_is_left() {
    assert_eq!(read_text("Ada\n"), Ok(String::from("Ada")));
    assert_eq!(read_text("  Grace Hopper  \n"), Ok(String::from("Grace Hopper")));
    assert_eq!(read_text("0"), Ok(String::from("0")));
    assert_eq!(read_text(" . "), Ok(String::from(".")));
}

#[test]
fn text_input_rejects_blank_lines() {
    assert_eq!(read_text(""), Err(InputError::Empty));
    assert_eq!(read_text("\n"), Err(InputError::Empty));
    assert_eq!(read_text("   "), Err(InputError::Empty));
    assert_eq!(read_text(" \t \r\n"), Err(InputError::Empty));
    assert_eq!(read_text("\u{a0}\u{2000}\u{3000}"), Err(InputError::Empty));
}

#[test]
fn number_input_rejects() {
    for line in ["", "-5", "3.14", "12a", "4294967296"] {
        assert_eq!(read_u32(line), Err(InputError::NotANumber));
        assert_eq!(parse_u32(line), None);
    }
}

#[test]
fn number_input_accepts() {
    assert_eq!(read_u32("0"), Ok(0));
    assert_eq!(read_u32("4294967295"), Ok(4294967295));
    assert_eq!(parse_u32("0"), Some(0));
    assert_eq!(parse_u32("4294967295"), Some(4294967295));
}

#[test]
fn number_input_trims_the_line() {
    assert_eq!(read_u32("270\n"), Ok(270));
    assert_eq!(read_u32("  3 \r\n"), Ok(3));
    assert_eq!(read_u32("\n"), Err(InputError::NotANumber));
    assert_eq!(read_u32("   "), Err(InputError::NotANumber));
    assert_eq!(read_u32("2 7"), Err(InputError::NotANumber));
    assert_eq!(parse_u32(" 3"), None);
    assert_eq!(parse_u32("3\n"), None);
}

#[test]
fn number_input_takes_no_sign() {
    assert_eq!(read_u32("+5"), Err(InputError::NotANumber));
    assert_eq!(read_u32("-0"), Err(InputError::NotANumber));
    assert_eq!(read_u32("+"), Err(InputError::NotANumber));
    assert_eq!(read_u32("-"), Err(InputError::NotANumber));
}

#[test]
fn number_input_takes_decimal_digits_only() {
    for line in ["0x10", "1e3", "1_000", "1,000", "12.", ".5", "\u{0661}\u{0662}", "\u{ff11}", "ten"] {
        assert_eq!(read_u32(line), Err(InputError::NotANumber));
    }
}

#[test]
fn number_input_takes_leading_zeros() {
    assert_eq!(read_u32("007"), Ok(7));
    assert_eq!(read_u32("0000000000000000000000004294967295"), Ok(4294967295));
    assert_eq!(read_u32("00"), Ok(0));
}

#[test]
fn number_input_rejects_what_is_too_large() {
    for line in [
        "4294967296",
        "4294967300",
        "5000000000",
        "42949672950",
        "18446744073709551616",
        "99999999999999999999999999999999999999999",
        "00000000004294967296",
    ] {
        assert_eq!(read_u32(line), Err(InputError::NotANumber));
    }
}

#[test]
fn number_input_reads_what_was_written() {
    for n in [0u32, 1, 9, 10, 99, 100, 179, 270, 65535, 65536, 4294967294, 4294967295] {
        assert_eq!(parse_u32(&n.to_string()), Some(n));
        assert_eq!(read_u32(&format!(" {}\n", n)), Ok(n));
    }
}

#[test]
fn diagnostics() {
    assert_eq!(InputError::Empty.message(), "Input cannot be empty. Please try again.");
    assert_eq!(
        InputError::NotANumber.message(),
        "Invalid input. Please enter a valid number."
    );
}
