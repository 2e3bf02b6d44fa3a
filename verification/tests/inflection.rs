use flowjs_rs::inflection::Inflection;

#[test]
fn parse_all_values() {
    for val in Inflection::VALID_VALUES {
        assert!(Inflection::parse(val).is_some(), "should parse: {val}");
    }
    assert!(Inflection::parse("invalid").is_none());
}

#[test]
fn camel_case() {
    assert_eq!(Inflection::Camel.apply("first_name"), "firstName");
    assert_eq!(Inflection::Camel.apply("FirstName"), "firstName");
}

#[test]
fn snake_case() {
    assert_eq!(Inflection::Snake.apply("firstName"), "first_name");
    assert_eq!(Inflection::Snake.apply("FirstName"), "first_name");
}

#[test]
fn pascal_case() {
    assert_eq!(Inflection::Pascal.apply("first_name"), "FirstName");
}

#[test]
fn kebab_case() {
    assert_eq!(Inflection::Kebab.apply("first_name"), "first-name");
    assert_eq!(Inflection::Kebab.apply("FirstName"), "first-name");
}

#[test]
fn screaming_snake() {
    assert_eq!(Inflection::ScreamingSnake.apply("firstName"), "FIRST_NAME");
}

#[test]
fn screaming_kebab() {
    assert_eq!(Inflection::ScreamingKebab.apply("firstName"), "FIRST-NAME");
}

#[test]
fn lower_upper() {
    assert_eq!(Inflection::Lower.apply("FooBar"), "foobar");
    assert_eq!(Inflection::Upper.apply("FooBar"), "FOOBAR");
}

#[test]
fn from_str_falls_back_to_snake_case() {
    assert_eq!(Inflection::from_str("camelCase"), Inflection::Camel);
    assert_eq!(Inflection::from_str("no-such-case"), Inflection::Snake);
}

#[test]
fn every_valid_value_parses_to_a_distinct_inflection() {
    let parsed: Vec<Inflection> = Inflection::VALID_VALUES
        .iter()
        .map(|v| Inflection::parse(v).unwrap())
        .collect();
    for i in 0..parsed.len() {
        for j in (i + 1)..parsed.len() {
            assert_ne!(parsed[i], parsed[j]);
        }
    }
}

#[test]
fn snake_case_leaves_lowercase_names_unchanged() {
    assert_eq!(Inflection::Snake.apply("already_snake_case"), "already_snake_case");
    assert_eq!(Inflection::Snake.apply(""), "");
}

#[test]
fn pascal_and_camel_of_empty_and_underscores() {
    assert_eq!(Inflection::Pascal.apply(""), "");
    assert_eq!(Inflection::Camel.apply(""), "");
    assert_eq!(Inflection::Pascal.apply("__a__b"), "AB");
    assert_eq!(Inflection::Camel.apply("x_y_z"), "xYZ");
}

#[test]
fn kebab_and_screaming_forms_come_from_snake_case() {
    for s in ["MyFieldName", "userId", "already_snake", "HTTPServer", ""] {
        let snake = Inflection::Snake.apply(s);
        assert_eq!(Inflection::Kebab.apply(s), snake.replace('_', "-"));
        assert_eq!(Inflection::ScreamingSnake.apply(s), snake.to_uppercase());
        assert_eq!(Inflection::ScreamingKebab.apply(s), Inflection::ScreamingSnake.apply(s).replace('_', "-"));
    }
}

#[test]
fn snake_and_camel_case_are_idempotent_on_ascii() {
    for s in ["MyFieldName", "userId", "first_name", "HTTPServer", "__x__", ""] {
        let snake = Inflection::Snake.apply(s);
        assert_eq!(Inflection::Snake.apply(&snake), snake);
        assert!(!snake.chars().any(|c| c.is_ascii_uppercase()), "{snake}");
        let camel = Inflection::Camel.apply(s);
        assert_eq!(Inflection::Camel.apply(&camel), camel);
        assert!(!camel.contains('_'), "{camel}");
        assert!(!Inflection::Pascal.apply(s).contains('_'));
    }
    assert_eq!(Inflection::Camel.apply("first_name"), "firstName");
    assert_eq!(Inflection::Snake.apply("MyFieldName"), "my_field_name");
}

#[test]
fn pascal_case_capitalizes_each_underscore_word() {
    assert_eq!(Inflection::Pascal.apply("my_field__name"), "MyFieldName");
    assert_eq!(Inflection::Pascal.apply("_leading"), "Leading");
    assert_eq!(Inflection::Pascal.apply("ñandú_x"), "ÑandúX");
    assert_eq!(Inflection::Camel.apply("ñandú_x"), "ñandúX");
}
