use worksplit::error_type::ErrorType;

#[test]
fn test_error_type_names() {
    assert_eq!(ErrorType::Build.name(), "Build");
    assert_eq!(ErrorType::Test.name(), "Test");
    assert_eq!(ErrorType::Lint.name(), "Lint");
}

#[test]
fn test_error_type_lowercase_names() {
    assert_eq!(ErrorType::Build.lowercase_name(), "build");
    assert_eq!(ErrorType::Test.lowercase_name(), "test");
    assert_eq!(ErrorType::Lint.lowercase_name(), "lint");
}

#[test]
fn test_error_type_display() {
    assert_eq!(ErrorType::Build.name().to_string(), "Build");
    assert_eq!(ErrorType::Test.name().to_string(), "Test");
    assert_eq!(ErrorType::Lint.name().to_string(), "Lint");
}

