use flowjs_rs::provision::{is_parser_entry, tarball_url, ENTRY_PATH};

#[test]
fn tarball_url_names_the_pinned_package() {
    assert_eq!(tarball_url(), "https://registry.npmjs.org/flow-parser/-/flow-parser-0.266.1.tgz");
}

#[test]
fn only_the_parser_entry_is_taken() {
    assert!(is_parser_entry(ENTRY_PATH));
    assert!(is_parser_entry("package/flow_parser.js"));
    assert!(!is_parser_entry("package/README.md"));
}
