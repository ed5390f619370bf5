use worksplit::error::{EditSuggestion, SuggestionCategory, WorkSplitError};

#[test]
fn test_edit_suggestion_priority() {
    let suggestion = EditSuggestion {
        message: "Test suggestion".to_string(),
        priority: 1,
        category: SuggestionCategory::Whitespace,
    };
    assert_eq!(suggestion.priority, 1);
    assert_eq!(suggestion.category, SuggestionCategory::Whitespace);
}

#[test]
fn test_edit_failed_with_context_whitespace() {
    let error = WorkSplitError::edit_failed_with_context(
        "FIND text not found".to_string(),
        "src/main.rs",
        "fn main()",
        5,
        true,
        vec![("src/main.rs".to_string(), 45, 85)],
    );

    match error {
        WorkSplitError::EditFailedWithSuggestions {
            message,
            suggestions,
            fuzzy_matches,
        } => {
            assert_eq!(message, "FIND text not found");
            assert!(!suggestions.is_empty());
            assert_eq!(fuzzy_matches.len(), 1);
            assert_eq!(fuzzy_matches[0].0, "src/main.rs");
            assert_eq!(fuzzy_matches[0].1, 45);
            assert_eq!(fuzzy_matches[0].2, 85);
        }
        _ => panic!("Expected EditFailedWithSuggestions"),
    }
}

#[test]
fn test_edit_failed_with_context_many_edits() {
    let error = WorkSplitError::edit_failed_with_context(
        "FIND text not found".to_string(),
        "src/main.rs",
        "fn main()",
        15,
        false,
        vec![],
    );

    match error {
        WorkSplitError::EditFailedWithSuggestions {
            message,
            suggestions,
            fuzzy_matches,
        } => {
            assert_eq!(message, "FIND text not found");
            assert!(!suggestions.is_empty());
            assert_eq!(fuzzy_matches.len(), 0);
            // Should have suggestion about replace mode
            assert!(suggestions.iter().any(|s| s.message.contains("replace mode")));
        }
        _ => panic!("Expected EditFailedWithSuggestions"),
    }
}

#[test]
fn test_display_with_suggestions() {
    let error = WorkSplitError::edit_failed_with_context(
        "FIND text not found".to_string(),
        "src/main.rs",
        "fn main()",
        5,
        true,
        vec![("src/main.rs".to_string(), 45, 85)],
    );

    let display = error.display_with_suggestions();
    assert!(display.contains("Error: Edit failed: FIND text not found"));
    assert!(display.contains("Suggestions:"));
    assert!(display.contains("Check whitespace"));
    assert!(display.contains("Possible match"));
}

#[test]
fn test_suggestion_category_variants() {
    assert_eq!(SuggestionCategory::Whitespace, SuggestionCategory::Whitespace);
    assert_eq!(SuggestionCategory::CaseSensitivity, SuggestionCategory::CaseSensitivity);
    assert_eq!(SuggestionCategory::ContextSize, SuggestionCategory::ContextSize);
    assert_eq!(SuggestionCategory::ModeChoice, SuggestionCategory::ModeChoice);
    assert_eq!(SuggestionCategory::LineReference, SuggestionCategory::LineReference);
}

