use flowjs_rs::utils::{escape_string_literal, quote_property_name};

#[test]
fn identifier_names_unquoted() {
    // Arrange and Act and Assert
    assert_eq!(quote_property_name("name"), "name", "simple identifier");
    assert_eq!(quote_property_name("firstName"), "firstName", "camelCase");
    assert_eq!(quote_property_name("_private"), "_private", "underscore prefix");
    assert_eq!(quote_property_name("$ref"), "$ref", "dollar prefix");
}

#[test]
fn non_identifier_names_quoted() {
    // Arrange and Act and Assert
    assert_eq!(quote_property_name("my-field"), "'my-field'", "kebab-case");
    assert_eq!(quote_property_name("MY-FIELD"), "'MY-FIELD'", "screaming kebab");
    assert_eq!(quote_property_name("has space"), "'has space'", "space in name");
    assert_eq!(quote_property_name("123start"), "'123start'", "starts with digit");
}

#[test]
fn quotes_escaped_in_names() {
    // Arrange and Act and Assert
    assert_eq!(quote_property_name("can't"), "'can\\'t'", "single quote escaped");
}

#[test]
fn escape_doubles_backslashes_and_escapes_quotes() {
    assert_eq!(escape_string_literal("a\\b'c"), "a\\\\b\\'c");
    assert_eq!(escape_string_literal("plain"), "plain");
    assert_eq!(escape_string_literal(""), "");
}

#[test]
fn empty_name_is_quoted() {
    assert_eq!(quote_property_name(""), "''");
}

#[test]
fn trimming_removes_unicode_white_space() {
    let text = "\u{3000}\u{a0}\t a b \u{2028}\u{85}\n";
    assert_eq!(flowjs_rs::strings::trim_str(text), text.trim());
    assert_eq!(flowjs_rs::strings::trim_str(text), "a b");
    // U+200B (zero width space) is not White_Space.
    assert_eq!(flowjs_rs::strings::trim_str("\u{200b}x"), "\u{200b}x");
}
