use appbinder::pipeline::{next_step, start_build, Action, BuildState};
use appbinder::toolchain::{archive_args, compiler_args, copy_args, join, staged_main_path};

fn run(copies: usize, outcomes: &[bool]) -> Vec<Action> {
    let mut s = start_build(copies);
    let mut seen = vec![s.action];
    let mut k = 0;
    while s.action != Action::Succeed && s.action != Action::Fail {
        let ok = if k < outcomes.len() { outcomes[k] } else { true };
        k += 1;
        s = next_step(s, ok);
        seen.push(s.action);
    }
    seen
}

#[test]
fn missing_main_stops_at_once() {
    assert_eq!(run(3, &[false]), vec![Action::CheckMainExecutable, Action::Fail]);
    let s = next_step(start_build(0), false);
    assert_eq!(s, BuildState { action: Action::Fail, copies: 0, failed: true });
}

#[test]
fn full_success_path() {
    assert_eq!(
        run(2, &[]),
        vec![
            Action::CheckMainExecutable,
            Action::CreateBuildDir,
            Action::CompileLauncher,
            Action::CreateStagingDir,
            Action::StageMainExecutable,
            Action::CopyResourceDir(0),
            Action::CopyResourceDir(1),
            Action::ArchiveStagingDir,
            Action::RemoveStagingDir,
            Action::WriteBundle,
            Action::MarkExecutable,
            Action::RemoveBuildDir,
            Action::Succeed,
        ]
    );
    assert_eq!(run(0, &[])[5], Action::ArchiveStagingDir);
}

#[test]
fn compile_failure_cleans_build_dir() {
    assert_eq!(
        run(1, &[true, true, false]),
        vec![
            Action::CheckMainExecutable,
            Action::CreateBuildDir,
            Action::CompileLauncher,
            Action::RemoveBuildDir,
            Action::Fail,
        ]
    );
}

#[test]
fn copy_failure_cleans_both_dirs() {
    // Cleanup steps that fail are still followed through.
    assert_eq!(
        run(2, &[true, true, true, true, true, false, false, false]),
        vec![
            Action::CheckMainExecutable,
            Action::CreateBuildDir,
            Action::CompileLauncher,
            Action::CreateStagingDir,
            Action::StageMainExecutable,
            Action::CopyResourceDir(0),
            Action::RemoveStagingDir,
            Action::RemoveBuildDir,
            Action::Fail,
        ]
    );
}

#[test]
fn write_failure_fails_after_cleanup() {
    let seen = run(0, &[true, true, true, true, true, true, true, false]);
    assert_eq!(seen[7], Action::WriteBundle);
    assert_eq!(&seen[8..], &[Action::RemoveBuildDir, Action::Fail]);
}

#[test]
fn tool_arguments() {
    assert_eq!(compiler_args(), vec!["-o", "temp_build/launcher", "temp_build/launcher.c", "-lz"]);
    assert_eq!(archive_args(), vec!["-czf", "temp_build/resources.tar.gz", "-C", "temp_structure", "."]);
    assert_eq!(copy_args("test_env/script"), vec!["-r", "test_env/script", "temp_structure/"]);
    assert_eq!(staged_main_path(), "temp_structure/sekai.x86_64");
    assert_eq!(join("a", "b"), "a/b");
}
