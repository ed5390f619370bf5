use worksplit::parser::insert::{
    apply_replace_patterns, find_matching_brace, find_struct_literals,
    insert_field_into_struct_literals, is_in_scope, parse_replace_pattern_instructions,
    pattern_missing,
};
use worksplit::parser::{ParsedReplacePatterns, ReplacePatternInstruction, StructLiteralMatch};

fn chars(s: &str) -> Vec<char> {
    s.chars().collect()
}

fn instruction(after: &str, insert: &str, scope: Option<&str>) -> ReplacePatternInstruction {
    ReplacePatternInstruction {
        after_pattern: after.to_string(),
        insert_text: insert.to_string(),
        scope: scope.map(String::from),
    }
}

#[test]
fn insert_instructions_are_read_block_by_block() {
    let parsed = parse_replace_pattern_instructions(
        "Scope: #[cfg(test)]\nAFTER:\n  a,\n  b\nINSERT:\n  c,\nafter:\nx\ninsert:\n\ny\n",
    );
    assert_eq!(parsed.scope, Some("#[cfg(test)]".to_string()));
    assert_eq!(
        parsed.instructions,
        vec![
            instruction("a,\n  b", "c,", Some("#[cfg(test)]")),
            instruction("x", "y", Some("#[cfg(test)]")),
        ]
    );
    let none = parse_replace_pattern_instructions("AFTER:\nx\nINSERT:\n");
    assert!(none.instructions.is_empty());
    assert_eq!(none.scope, None);
}

#[test]
fn text_is_inserted_after_every_occurrence() {
    let patterns = ParsedReplacePatterns {
        instructions: vec![instruction("a,", " b,", None), instruction("b,", "!", None)],
        scope: None,
    };
    assert_eq!(apply_replace_patterns("a, a, c", &patterns).unwrap(), "a, b,! a, b,! c");
    let overlapping =
        ParsedReplacePatterns { instructions: vec![instruction("aa", "-", None)], scope: None };
    assert_eq!(apply_replace_patterns("aaaaa", &overlapping).unwrap(), "aa-aa-a");
}

#[test]
fn occurrences_outside_the_scope_do_not_count() {
    let patterns = ParsedReplacePatterns {
        instructions: vec![instruction("x: 1,", " y: 2,", Some("mod tests"))],
        scope: None,
    };
    let text = "x: 1,\nmod tests {\n S { x: 1, }\n}\nx: 1,";
    assert_eq!(
        apply_replace_patterns(text, &patterns).unwrap(),
        "x: 1,\nmod tests {\n S { x: 1, y: 2, }\n}\nx: 1,"
    );
    assert_eq!(
        apply_replace_patterns("S { x: 1, }", &patterns).unwrap_err(),
        "AFTER pattern not found: \"x: 1,\""
    );
    assert!(is_in_scope(&chars("mod t { a "), 10, &chars("mod t")));
    assert!(!is_in_scope(&chars("mod t { a }"), 11, &chars("mod t")));
    assert!(!is_in_scope(&chars("mod t { a "), 3, &chars("mod t")));
    assert!(is_in_scope(&chars("m { } m { x"), 11, &chars("m")));
}

#[test]
fn missing_pattern_is_told_with_its_first_characters() {
    let long = "p".repeat(60);
    let patterns =
        ParsedReplacePatterns { instructions: vec![instruction(&long, "x", None)], scope: None };
    assert_eq!(
        apply_replace_patterns("text", &patterns).unwrap_err(),
        format!("AFTER pattern not found: \"{}\"", "p".repeat(50))
    );
    assert_eq!(pattern_missing("\"q\""), "AFTER pattern not found: \"q\"");
    let empty =
        ParsedReplacePatterns { instructions: vec![instruction("", "x", None)], scope: None };
    assert_eq!(apply_replace_patterns("text", &empty).unwrap_err(), "AFTER pattern not found: \"\"");
    let nothing = ParsedReplacePatterns { instructions: vec![], scope: None };
    assert_eq!(apply_replace_patterns("text", &nothing).unwrap(), "text");
}

#[test]
fn struct_literals_are_found_with_their_places() {
    let text = "let a = Job { id: 1, meta: M { x: 1, y: 2 }, name: n };\n\u{e9}\nlet b = Job { };\nJob { open";
    let found = find_struct_literals(text, "Job");
    assert_eq!(
        found,
        vec![
            StructLiteralMatch { start: 8, end: 54, last_field_end: 44, line_number: 2 },
            StructLiteralMatch { start: 67, end: 74, last_field_end: 72, line_number: 4 },
        ]
    );
    assert_eq!(&text[8..54], "Job { id: 1, meta: M { x: 1, y: 2 }, name: n }");
    assert_eq!(find_struct_literals("a\nJob { }", "Job")[0].line_number, 2);
    assert_eq!(find_struct_literals("Job { }", "Job")[0].line_number, 1);
    assert!(find_struct_literals("no literal", "Job").is_empty());
    assert_eq!(find_matching_brace(&chars("a, {b,} c }d"), 0), Some((11, 2)));
    assert_eq!(find_matching_brace(&chars("x { y }"), 0), None);
    assert_eq!(find_matching_brace(&chars("}"), 0), Some((1, 0)));
}

#[test]
fn field_is_put_into_every_literal() {
    let text = "A { x: 1 }\nA { x: 1, }\nA {}\nA { b: B { c: 1 } }";
    assert_eq!(
        insert_field_into_struct_literals(text, "A", "v: true").unwrap(),
        "A { x: 1 ,\n            v: true}\nA { x: 1, \n            v: true}\nA {\n            v: true}\nA { b: B { c: 1 } ,\n            v: true}"
    );
    assert_eq!(
        insert_field_into_struct_literals("nothing", "A", "v: true").unwrap_err(),
        "No A struct literals found"
    );
}
