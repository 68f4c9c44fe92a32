use alloy_studio::syntax::{SyntaxError, SyntaxLayer, SyntaxRegistry};

#[test]
fn test_language_for_java() {
    assert!(SyntaxRegistry::language_for_id("java").is_some());
}

#[test]
fn test_language_for_unknown() {
    assert!(SyntaxRegistry::language_for_id("cobol").is_none());
}

#[test]
fn test_new_layer_unsupported_lang() {
    let err = SyntaxLayer::new("brainfuck");
    assert!(err.is_err());
}

#[test]
fn test_parse_full_java() {
    let mut layer = SyntaxLayer::new("java").unwrap();
    layer.parse_full("class Foo {}").unwrap();
    let sexp = layer.root_node_sexp().unwrap();
    assert!(sexp.contains("program") || sexp.contains("class_declaration"));
}

#[test]
fn test_registry_get_or_create_and_update() {
    let mut reg = SyntaxRegistry::new();
    reg.get_or_create("file:///Foo.java", "java").unwrap();
    reg.update("file:///Foo.java", "class Foo {}").unwrap();
    reg.remove("file:///Foo.java");
    // After removal, update should be a no-op (not an error).
    reg.update("file:///Foo.java", "class Foo {}").unwrap();
}

#[test]
fn new_layer_has_no_tree_until_parsed() {
    let layer = SyntaxLayer::new("java").unwrap();
    assert_eq!(layer.language_id(), "java");
    assert!(layer.root_node_sexp().is_none());
}

#[test]
fn unknown_language_error_names_the_language() {
    match SyntaxLayer::new("cobol") {
        Err(e) => {
            assert_eq!(e, SyntaxError::UnknownLanguage("cobol".to_string()));
            assert_eq!(e.message(), "no tree-sitter language for 'cobol'");
        }
        Ok(_) => panic!("cobol has no grammar"),
    }
}

#[test]
fn incremental_parse_after_edit() {
    let mut layer = SyntaxLayer::new("java").unwrap();
    layer.parse_full("class Foo {}").unwrap();
    let edit = tree_sitter::InputEdit {
        start_byte: 11,
        old_end_byte: 11,
        new_end_byte: 21,
        start_position: tree_sitter::Point { row: 0, column: 11 },
        old_end_position: tree_sitter::Point { row: 0, column: 11 },
        new_end_position: tree_sitter::Point { row: 0, column: 21 },
    };
    layer.parse_incremental("class Foo { int x; }", &edit).unwrap();
    let sexp = layer.root_node_sexp().unwrap();
    assert!(sexp.contains("field_declaration"));
}

#[test]
fn incremental_parse_without_tree_is_full_parse() {
    let mut layer = SyntaxLayer::new("java").unwrap();
    let edit = tree_sitter::InputEdit {
        start_byte: 0,
        old_end_byte: 0,
        new_end_byte: 12,
        start_position: tree_sitter::Point { row: 0, column: 0 },
        old_end_position: tree_sitter::Point { row: 0, column: 0 },
        new_end_position: tree_sitter::Point { row: 0, column: 12 },
    };
    layer.parse_incremental("class Foo {}", &edit).unwrap();
    assert!(layer.root_node_sexp().unwrap().contains("class_declaration"));
}

#[test]
fn registry_keeps_existing_layer_and_rejects_unknown_language() {
    let mut reg = SyntaxRegistry::default();
    assert!(reg.get_or_create("a", "cobol").is_err());
    assert!(!reg.contains("a"));
    reg.get_or_create("a", "java").unwrap();
    // An existing layer is kept, whatever language is asked for.
    reg.get_or_create("a", "cobol").unwrap();
    assert!(reg.contains("a"));
}

#[test]
fn parsing_never_fails_for_a_java_layer() {
    let mut layer = SyntaxLayer::new("java").unwrap();
    assert!(layer.parse_full("}}} not java at all {{{").is_ok());
    let first = layer.root_node_sexp().unwrap();
    assert!(layer.parse_full("}}} not java at all {{{").is_ok());
    assert_eq!(layer.root_node_sexp().unwrap(), first);
    let mut reg = SyntaxRegistry::new();
    reg.get_or_create("u", "java").unwrap();
    assert!(reg.update("u", "class A {").is_ok());
}
