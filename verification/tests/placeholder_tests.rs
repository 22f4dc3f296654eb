#[test]
fn test_replace_lines() {
  // let replace_result = super::replace_lines("./src/gpt_commands.rs", 0, 10, "test");
  // assert!(replace_result.is_ok());
}

#[test]
fn test_cargo_check_with_valid_package() {
  // Setup and call the `cargo_check` function with a valid package name
  // Assert that the result is a success and contains expected data
}

#[test]
fn test_cargo_check_with_invalid_package() {
  // Setup and call the `cargo_check` function with an invalid package name
  // Assert that the result is an error and matches expected error handling behavior
}
