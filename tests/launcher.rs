use appbinder::launcher::{
    exec_arguments, forwarded_args, launch_mode, main_program_path_in, path_argument_for,
    LaunchMode, VERSION_TEXT,
};
use appbinder::stub::generate_launcher_c;

fn args(xs: &[&str]) -> Vec<String> {
    xs.iter().map(|x| x.to_string()).collect()
}

#[test]
fn version_flag_stops_before_extraction() {
    assert_eq!(launch_mode(&args(&["bundle", "--version"])), LaunchMode::PrintVersion);
    assert_eq!(launch_mode(&args(&["bundle", "--version", "x"])), LaunchMode::PrintVersion);
    assert_eq!(VERSION_TEXT, "bundled app v1.0");
}

#[test]
fn other_arguments_extract() {
    assert_eq!(launch_mode(&args(&["bundle"])), LaunchMode::Extract);
    assert_eq!(launch_mode(&args(&[])), LaunchMode::Extract);
    assert_eq!(launch_mode(&args(&["bundle", "--flag", "--version"])), LaunchMode::Extract);
}

#[test]
fn version_flag_is_not_forwarded() {
    let a = args(&["bundle", "--flag", "val", "--version"]);
    assert_eq!(forwarded_args(&a), args(&["--flag", "val"]));
    assert_eq!(
        exec_arguments("/tmp/bundled_app_abc123", &a),
        args(&[
            "/tmp/bundled_app_abc123/sekai.x86_64",
            "--path=/tmp/bundled_app_abc123",
            "--flag",
            "val"
        ])
    );
}

#[test]
fn no_arguments_forward_nothing() {
    assert_eq!(
        exec_arguments("/tmp/d", &args(&["bundle"])),
        args(&["/tmp/d/sekai.x86_64", "--path=/tmp/d"])
    );
    assert!(forwarded_args(&args(&[])).is_empty());
}

#[test]
fn paths_in_extraction_dir() {
    assert_eq!(main_program_path_in("/tmp/x"), "/tmp/x/sekai.x86_64");
    assert_eq!(path_argument_for("/tmp/x"), "--path=/tmp/x");
}

#[test]
fn stub_source_matches_the_format() {
    let c = generate_launcher_c();
    assert!(c.contains("int main(int argc, char *argv[])"));
    assert!(c.contains("bundled app v1.0"));
    assert!(c.contains("file_size - 8"));
    assert!(c.contains("--path=%s"));
    assert!(c.contains("sekai.x86_64"));
    assert!(c.contains("\"--version\""));
}
