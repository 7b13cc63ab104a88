use tagmap::naming::{member_name, positional_identifier, tag_identifier, tag_type_name};
use tagmap::text::{join_text, push_decimal, to_ascii_lower, to_ascii_upper, to_lower_char, to_upper_char};

#[test]
fn tag_joins_upper_case_names_with_an_underscore() {
    assert_eq!(tag_identifier("Simple", "A"), "SIMPLE_A");
    assert_eq!(tag_identifier("my_Type9", "someCase"), "MY_TYPE9_SOMECASE");
    assert_eq!(tag_identifier("", ""), "_");
}

#[test]
fn member_name_is_the_lower_case_variant_name() {
    assert_eq!(member_name("A"), "a");
    assert_eq!(member_name("HttpError2"), "httperror2");
    assert_eq!(member_name(""), "");
}

#[test]
fn positional_identifier_counts_from_zero() {
    assert_eq!(positional_identifier(0), "t_0");
    assert_eq!(positional_identifier(7), "t_7");
    assert_eq!(positional_identifier(10), "t_10");
    assert_eq!(positional_identifier(1234567890), "t_1234567890");
    assert_eq!(positional_identifier(usize::MAX), format!("t_{}", usize::MAX));
}

#[test]
fn tag_type_name_appends_tag() {
    assert_eq!(tag_type_name("Simple"), "SimpleTag");
    assert_eq!(tag_type_name(""), "Tag");
}

#[test]
fn case_transforms_touch_ascii_letters_only() {
    assert_eq!(to_ascii_upper("abc_XYZ-09 é ß"), "ABC_XYZ-09 é ß");
    assert_eq!(to_ascii_lower("abc_XYZ-09 É"), "abc_xyz-09 É");
    assert_eq!(to_upper_char('a'), 'A');
    assert_eq!(to_upper_char('z'), 'Z');
    assert_eq!(to_upper_char('`'), '`');
    assert_eq!(to_upper_char('{'), '{');
    assert_eq!(to_lower_char('A'), 'a');
    assert_eq!(to_lower_char('Z'), 'z');
    assert_eq!(to_lower_char('@'), '@');
    assert_eq!(to_lower_char('['), '[');
}

#[test]
fn case_transforms_agree_with_the_standard_ascii_ones() {
    for code in 0u32..=0x2ff {
        if let Some(c) = char::from_u32(code) {
            assert_eq!(to_upper_char(c), c.to_ascii_uppercase());
            assert_eq!(to_lower_char(c), c.to_ascii_lowercase());
        }
    }
}

#[test]
fn decimal_numerals_have_no_leading_zeros() {
    for (n, text) in [(0usize, "0"), (9, "9"), (10, "10"), (99, "99"), (100, "100"), (909, "909")] {
        let mut out = String::from("x");
        push_decimal(&mut out, n);
        assert_eq!(out, format!("x{}", text));
    }
}

#[test]
fn join_puts_the_separator_between_neighbours() {
    let none: Vec<String> = vec![];
    assert_eq!(join_text(&none, ", "), "");
    assert_eq!(join_text(&vec!["a".to_string()], ", "), "a");
    assert_eq!(join_text(&vec!["a".to_string(), "b".to_string(), "c".to_string()], ", "), "a, b, c");
    assert_eq!(join_text(&vec!["a".to_string(), "".to_string(), "c".to_string()], "-"), "a--c");
    assert_eq!(join_text(&vec!["std".to_string(), "String".to_string()], ""), "stdString");
}
