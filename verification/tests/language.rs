use worksplit::language::Language;

#[test]
fn test_language_display_name() {
    assert_eq!(Language::Rust.display_name(), "Rust");
    assert_eq!(Language::Typescript.display_name(), "TypeScript");
}

#[test]
fn test_language_file_extension() {
    assert_eq!(Language::Rust.file_extension(), "rs");
    assert_eq!(Language::Typescript.file_extension(), "ts");
}

#[test]
fn test_language_default() {
    assert_eq!(Language::default(), Language::Rust);
}

