use worksplit::parser::edit::{
    apply_edit, apply_edits, normalize_whitespace, parse_edit_instructions, EditInstruction,
};

#[test]
fn test_parse_edit_single_file() {
    let response = r#"
FILE: src/main.rs
FIND:
fn old() {}
REPLACE:
fn new() {}
END
"#;
    let parsed = parse_edit_instructions(response);
    assert_eq!(parsed.edits.len(), 1);
    assert_eq!(parsed.edits[0].file_path, String::from("src/main.rs"));
    assert_eq!(parsed.edits[0].find, "fn old() {}");
    assert_eq!(parsed.edits[0].replace, "fn new() {}");
}

#[test]
fn test_parse_edit_multiple_files() {
    let response = r#"
FILE: src/main.rs
FIND:
line1
REPLACE:
line1_new
END

FILE: src/lib.rs
FIND:
line2
REPLACE:
line2_new
END
"#;
    let parsed = parse_edit_instructions(response);
    assert_eq!(parsed.edits.len(), 2);
    assert_eq!(parsed.affected_files.len(), 2);
}

#[test]
fn test_parse_edit_multiple_edits_same_file() {
    let response = r#"
FILE: src/main.rs
FIND:
fn old1() {}
REPLACE:
fn new1() {}
END

FILE: src/main.rs
FIND:
fn old2() {}
REPLACE:
fn new2() {}
END
"#;
    let parsed = parse_edit_instructions(response);
    assert_eq!(parsed.edits.len(), 2);
    // Note: affected_files will have duplicates removed
}

#[test]
fn test_apply_edit_success() {
    let content = "fn old() {}\nfn other() {}";
    let edit = EditInstruction {
        file_path: String::from("test.rs"),
        find: "fn old() {}".to_string(),
        replace: "fn new() {}".to_string(),
    };
    let result = apply_edit(content, &edit).unwrap();
    assert_eq!(result, "fn new() {}\nfn other() {}");
}

#[test]
fn test_apply_edit_not_found() {
    let content = "fn other() {}";
    let edit = EditInstruction {
        file_path: String::from("test.rs"),
        find: "fn old() {}".to_string(),
        replace: "fn new() {}".to_string(),
    };
    let result = apply_edit(content, &edit);
    assert!(result.is_err());
}

#[test]
fn test_apply_edit_deletion() {
    let content = "fn old() {}\nfn other() {}";
    let edit = EditInstruction {
        file_path: String::from("test.rs"),
        find: "fn old() {}".to_string(),
        replace: "".to_string(),
    };
    let result = apply_edit(content, &edit).unwrap();
    assert_eq!(result, "\nfn other() {}");
}

#[test]
fn test_apply_edits_multiple() {
    let content = "fn old1() {}\nfn old2() {}\nfn other() {}";
    let edit1 = EditInstruction {
        file_path: String::from("test.rs"),
        find: "fn old1() {}".to_string(),
        replace: "fn new1() {}".to_string(),
    };
    let edit2 = EditInstruction {
        file_path: String::from("test.rs"),
        find: "fn old2() {}".to_string(),
        replace: "fn new2() {}".to_string(),
    };
    let result = apply_edits(content, &[&edit1, &edit2]).unwrap();
    assert_eq!(result, "fn new1() {}\nfn new2() {}\nfn other() {}");
}

#[test]
fn test_parse_edit_case_insensitive() {
    let response = r#"
file: src/main.rs
find:
fn old() {}
replace:
fn new() {}
end
"#;
    let parsed = parse_edit_instructions(response);
    assert_eq!(parsed.edits.len(), 1);
    assert_eq!(parsed.edits[0].file_path, String::from("src/main.rs"));
}

#[test]
fn test_normalize_whitespace() {
    assert_eq!(normalize_whitespace("  hello   world  "), "hello world");
    assert_eq!(normalize_whitespace("fn foo() {}"), "fn foo() {}");
    assert_eq!(
        normalize_whitespace("    pub fn bar(\n        x: i32,\n    )"),
        "pub fn bar(\nx: i32,\n)"
    );
}

#[test]
fn test_fuzzy_match_extra_indentation() {
    // Content has 4-space indent, FIND has 8-space indent
    let content = "fn main() {\n    let x = 1;\n}";
    let edit = EditInstruction {
        file_path: String::from("test.rs"),
        find: "        let x = 1;".to_string(),  // Wrong indent
        replace: "    let y = 2;".to_string(),
    };
    let result = apply_edit(content, &edit).unwrap();
    assert_eq!(result, "fn main() {\n    let y = 2;\n}");
}

#[test]
fn test_fuzzy_match_tabs_vs_spaces() {
    // Content has spaces, FIND has tabs
    let content = "struct Foo {\n    field: i32,\n}";
    let edit = EditInstruction {
        file_path: String::from("test.rs"),
        find: "\tfield: i32,".to_string(),  // Tab instead of spaces
        replace: "    new_field: String,".to_string(),
    };
    let result = apply_edit(content, &edit).unwrap();
    assert_eq!(result, "struct Foo {\n    new_field: String,\n}");
}

#[test]
fn test_fuzzy_match_multiline() {
    let content = "impl Foo {\n    fn bar() {\n        println!(\"hello\");\n    }\n}";
    let edit = EditInstruction {
        file_path: String::from("test.rs"),
        find: "  fn bar() {\n      println!(\"hello\");\n  }".to_string(),  // Different indent
        replace: "    fn baz() {\n        println!(\"world\");\n    }".to_string(),
    };
    let result = apply_edit(content, &edit).unwrap();
    assert!(result.contains("fn baz()"));
    assert!(result.contains("println!(\"world\")"));
}

#[test]
fn test_exact_match_preferred() {
    // Exact match should be used when available
    let content = "fn old() {}";
    let edit = EditInstruction {
        file_path: String::from("test.rs"),
        find: "fn old() {}".to_string(),
        replace: "fn new() {}".to_string(),
    };
    let result = apply_edit(content, &edit).unwrap();
    assert_eq!(result, "fn new() {}");
}

#[test]
fn test_exact_substring_match() {
    // Exact substring match works even with different leading whitespace
    // The find text "let x = 1;" is found inside "    let x = 1;"
    // Only the matched portion is replaced, preserving leading "    "
    let content = "    let x = 1;";
    let edit = EditInstruction {
        file_path: String::from("test.rs"),
        find: "let x = 1;".to_string(),  // No indent in find
        replace: "let x = 2;".to_string(),  // No indent in replace
    };
    let result = apply_edit(content, &edit).unwrap();
    assert_eq!(result, "    let x = 2;");  // the 4-space indent is kept
}

#[test]
fn test_fuzzy_match_when_exact_fails() {
    // Fuzzy match kicks in when exact match fails due to whitespace
    // Here: content has 4-space indent, but FIND has extra trailing spaces that don't exist
    let content = "fn foo() {\n    let x = 1;\n}";
    let edit = EditInstruction {
        file_path: String::from("test.rs"),
        find: "    let x = 1;   ".to_string(),  // Extra trailing spaces - won't exact match
        replace: "    let x = 2;".to_string(),
    };
    let result = apply_edit(content, &edit).unwrap();
    assert!(result.contains("let x = 2;"));
}

