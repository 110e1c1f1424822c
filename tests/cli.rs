use appbinder::cli::{parse_bundler_args, UsageError, DEFAULT_OUTPUT};

fn args(xs: &[&str]) -> Vec<String> {
    xs.iter().map(|x| x.to_string()).collect()
}

#[test]
fn no_arguments_is_usage_error() {
    assert_eq!(parse_bundler_args(&args(&["appbinder"])).err(), Some(UsageError::MissingExecutable));
    assert_eq!(parse_bundler_args(&args(&[])).err(), Some(UsageError::MissingExecutable));
}

#[test]
fn default_output() {
    let b = parse_bundler_args(&args(&["appbinder", "game"])).unwrap();
    assert_eq!(b.main_exe, "game");
    assert!(b.resource_dirs.is_empty());
    assert_eq!(b.output, DEFAULT_OUTPUT);
    assert_eq!(b.output, "bundled_app");
}

#[test]
fn output_flag_and_dirs() {
    let b = parse_bundler_args(&args(&[
        "appbinder",
        "test_env/sekai.x86_64",
        "test_env/script",
        "-o",
        "bundled_sekai",
        "test_env/sounds",
    ]))
    .unwrap();
    assert_eq!(b.main_exe, "test_env/sekai.x86_64");
    assert_eq!(b.resource_dirs, args(&["test_env/script", "test_env/sounds"]));
    assert_eq!(b.output, "bundled_sekai");
}

#[test]
fn first_output_flag_wins() {
    let b = parse_bundler_args(&args(&["p", "e", "-o", "x", "d", "-o", "y"])).unwrap();
    assert_eq!(b.output, "x");
    assert_eq!(b.resource_dirs, args(&["d"]));
}

#[test]
fn output_flag_without_value() {
    assert_eq!(
        parse_bundler_args(&args(&["p", "e", "d", "-o"])).err(),
        Some(UsageError::MissingOutputPath)
    );
}
