//! Writing exported files, and what an export error says.

use flowjs_rs::export::{contains_exec, write_action, ExportError, WriteAction};

#[test]
fn marked_files_are_kept() {
    assert_eq!(write_action(Some("// @flow\nexport type A = string;\n"), "export type A", true), WriteAction::Keep);
    assert_eq!(write_action(Some("// @flow\n"), "export type A", true), WriteAction::Append);
    assert_eq!(write_action(Some("// @flow\n"), "export type A", false), WriteAction::Keep);
    assert_eq!(write_action(None, "export type A", false), WriteAction::Create);
}

#[test]
fn containment_is_by_substring() {
    assert!(contains_exec("abcdef", "cde"));
    assert!(contains_exec("abc", ""));
    assert!(!contains_exec("abc", "abcd"));
    assert!(!contains_exec("abc", "ac"));
}

#[test]
fn export_errors_have_messages() {
    assert_eq!(ExportError::CannotBeExported("Foo".to_owned()).message(), "type `Foo` cannot be exported");
    assert_eq!(ExportError::Io("disk full".to_owned()).message(), "disk full");
    assert_eq!(ExportError::Fmt.message(), "an error occurred when formatting an argument");
}
