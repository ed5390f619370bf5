use worksplit::prompts::{
    SYSTEM_PROMPT_CREATE, SYSTEM_PROMPT_EDIT, SYSTEM_PROMPT_RETRY, SYSTEM_PROMPT_TEST,
    SYSTEM_PROMPT_VERIFY,
};

#[test]
fn test_prompts_not_empty() {
    assert!(!SYSTEM_PROMPT_CREATE.is_empty());
    assert!(!SYSTEM_PROMPT_VERIFY.is_empty());
    assert!(!SYSTEM_PROMPT_EDIT.is_empty());
    assert!(!SYSTEM_PROMPT_TEST.is_empty());
    assert!(!SYSTEM_PROMPT_RETRY.is_empty());
}

#[test]
fn test_verify_prompt_mentions_pass_fail() {
    assert!(SYSTEM_PROMPT_VERIFY.contains("PASS"));
    assert!(SYSTEM_PROMPT_VERIFY.contains("FAIL"));
}

#[test]
fn test_edit_prompt_mentions_format() {
    assert!(SYSTEM_PROMPT_EDIT.contains("FILE:"));
    assert!(SYSTEM_PROMPT_EDIT.contains("FIND:"));
    assert!(SYSTEM_PROMPT_EDIT.contains("REPLACE:"));
    assert!(SYSTEM_PROMPT_EDIT.contains("END"));
}

