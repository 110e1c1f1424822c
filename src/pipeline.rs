//! The bundler's build, as a machine from the outcome of one step to the next
//! step: check the main executable, compile the stub in a build directory,
//! stage and archive the resources, write the bundle, and clean up, on the
//! failure path too.
use vstd::prelude::*;

verus! {

/// One step of a build; the caller performs it and reports whether it worked.
#[derive(Clone, Copy, Debug, PartialEq, Eq, Structural)]
pub enum Action {
    /// Check that the main executable exists.
    CheckMainExecutable,
    /// Create the build directory.
    CreateBuildDir,
    /// Write the stub's source into the build directory and compile it.
    CompileLauncher,
    /// Create the staging directory.
    CreateStagingDir,
    /// Copy the main executable into the staging directory under its fixed name.
    StageMainExecutable,
    /// Copy the resource directory of this index (among the present ones).
    CopyResourceDir(usize),
    /// Archive the staging directory's contents into the build directory.
    ArchiveStagingDir,
    /// Remove the staging directory.
    RemoveStagingDir,
    /// Read the compiled stub and the archive, and write the bundle file.
    WriteBundle,
    /// Mark the bundle file executable.
    MarkExecutable,
    /// Remove the build directory.
    RemoveBuildDir,
    /// The build is over and the bundle is written.
    Succeed,
    /// The build is over and failed.
    Fail,
}

/// Where a build stands: the step to perform next, how many resource
/// directories are copied, and whether a step has failed (the build then
/// only cleans up).
#[derive(Clone, Copy, Debug, PartialEq, Eq, Structural)]
pub struct BuildState {
    pub action: Action,
    pub copies: usize,
    pub failed: bool,
}

/// The build is over.
pub open spec fn is_finished(a: Action) -> bool {
    a == Action::Succeed || a == Action::Fail
}

/// After this step has run, the staging directory may exist.
pub open spec fn staging_may_exist_after(a: Action) -> bool {
    match a {
        Action::CreateStagingDir | Action::StageMainExecutable | Action::CopyResourceDir(_)
        | Action::ArchiveStagingDir => true,
        _ => false,
    }
}

/// After this step has run, the build directory may exist.
pub open spec fn build_dir_may_exist_after(a: Action) -> bool {
    match a {
        Action::CheckMainExecutable | Action::RemoveBuildDir | Action::Succeed
        | Action::Fail => false,
        _ => true,
    }
}

/// The state is one that a build can be in.
pub open spec fn is_valid(s: BuildState) -> bool {
    &&& (s.action matches Action::CopyResourceDir(i) ==> i < s.copies)
    &&& (s.failed ==> (s.action == Action::RemoveStagingDir || s.action == Action::RemoveBuildDir
        || s.action == Action::Fail))
    &&& (s.action == Action::Succeed ==> !s.failed)
}

/// The step after `a` when everything so far has worked.
pub open spec fn step_after_success(a: Action, copies: usize) -> Action {
    match a {
        Action::CheckMainExecutable => Action::CreateBuildDir,
        Action::CreateBuildDir => Action::CompileLauncher,
        Action::CompileLauncher => Action::CreateStagingDir,
        Action::CreateStagingDir => Action::StageMainExecutable,
        Action::StageMainExecutable => if copies > 0 {
            Action::CopyResourceDir(0)
        } else {
            Action::ArchiveStagingDir
        },
        Action::CopyResourceDir(i) => if i + 1 < copies {
            Action::CopyResourceDir((i + 1) as usize)
        } else {
            Action::ArchiveStagingDir
        },
        Action::ArchiveStagingDir => Action::RemoveStagingDir,
        Action::RemoveStagingDir => Action::WriteBundle,
        Action::WriteBundle => Action::MarkExecutable,
        Action::MarkExecutable => Action::RemoveBuildDir,
        Action::RemoveBuildDir => Action::Succeed,
        Action::Succeed => Action::Succeed,
        Action::Fail => Action::Fail,
    }
}

/// The step after `a` once the build has failed: remove what may exist, then stop.
pub open spec fn step_after_failure(a: Action) -> Action {
    match a {
        Action::CheckMainExecutable => Action::Fail,
        Action::CreateBuildDir | Action::CompileLauncher | Action::RemoveStagingDir
        | Action::WriteBundle | Action::MarkExecutable => Action::RemoveBuildDir,
        Action::CreateStagingDir | Action::StageMainExecutable | Action::CopyResourceDir(_)
        | Action::ArchiveStagingDir => Action::RemoveStagingDir,
        Action::RemoveBuildDir | Action::Fail => Action::Fail,
        Action::Succeed => Action::Succeed,
    }
}

/// The state after performing `s.action` with outcome `ok`; once the build has
/// failed, the outcomes of the cleanup steps no longer matter.
pub open spec fn next_state(s: BuildState, ok: bool) -> BuildState {
    if is_finished(s.action) {
        s
    } else if s.failed || !ok {
        BuildState { action: step_after_failure(s.action), copies: s.copies, failed: true }
    } else {
        BuildState {
            action: step_after_success(s.action, s.copies),
            copies: s.copies,
            failed: false,
        }
    }
}

/// The first state of a build that copies `copies` resource directories.
pub fn start_build(copies: usize) -> (r: BuildState)
    ensures
        r == (BuildState { action: Action::CheckMainExecutable, copies, failed: false }),
        is_valid(r),
{
    BuildState { action: Action::CheckMainExecutable, copies, failed: false }
}

/// Decides the next step from the outcome of the current one.
pub fn next_step(s: BuildState, ok: bool) -> (r: BuildState)
    requires
        is_valid(s),
    ensures
        r == next_state(s, ok),
        is_valid(r),
{
    if s.action == Action::Succeed || s.action == Action::Fail {
        return s;
    }
    if s.failed || !ok {
        let action = match s.action {
            Action::CheckMainExecutable => Action::Fail,
            Action::CreateBuildDir | Action::CompileLauncher | Action::WriteBundle
            | Action::MarkExecutable | Action::RemoveStagingDir => Action::RemoveBuildDir,
            Action::CreateStagingDir | Action::StageMainExecutable | Action::CopyResourceDir(_)
            | Action::ArchiveStagingDir => Action::RemoveStagingDir,
            Action::RemoveBuildDir | Action::Fail => Action::Fail,
            Action::Succeed => Action::Succeed,
        };
        return BuildState { action, copies: s.copies, failed: true };
    }
    let action = match s.action {
        Action::CheckMainExecutable => Action::CreateBuildDir,
        Action::CreateBuildDir => Action::CompileLauncher,
        Action::CompileLauncher => Action::CreateStagingDir,
        Action::CreateStagingDir => Action::StageMainExecutable,
        Action::StageMainExecutable => {
            if s.copies > 0 {
                Action::CopyResourceDir(0)
            } else {
                Action::ArchiveStagingDir
            }
        },
        Action::CopyResourceDir(i) => {
            if i + 1 < s.copies {
                Action::CopyResourceDir(i + 1)
            } else {
                Action::ArchiveStagingDir
            }
        },
        Action::ArchiveStagingDir => Action::RemoveStagingDir,
        Action::RemoveStagingDir => Action::WriteBundle,
        Action::WriteBundle => Action::MarkExecutable,
        Action::MarkExecutable => Action::RemoveBuildDir,
        Action::RemoveBuildDir => Action::Succeed,
        Action::Succeed => Action::Succeed,
        Action::Fail => Action::Fail,
    };
    BuildState { action, copies: s.copies, failed: false }
}

/// A missing main executable ends the build at once, as a failure, before any
/// directory or output file is created.
pub proof fn lemma_missing_main_creates_nothing(copies: usize)
    ensures
        next_state(BuildState { action: Action::CheckMainExecutable, copies, failed: false }, false)
            == (BuildState { action: Action::Fail, copies, failed: true }),
{
}

/// Nothing is left behind: a failed step is followed by the removal of the
/// staging directory if it may exist, else of the build directory if it may
/// exist; and a build stops only right after removing the build directory, or
/// right after the main-executable check, before anything was created.
pub proof fn lemma_cleanup_before_finish(s: BuildState, ok: bool)
    requires
        is_valid(s),
        !is_finished(s.action),
    ensures
        (s.failed || !ok) && staging_may_exist_after(s.action) ==> next_state(s, ok).action
            == Action::RemoveStagingDir,
        (s.failed || !ok) && !staging_may_exist_after(s.action) && build_dir_may_exist_after(
            s.action,
        ) ==> next_state(s, ok).action == Action::RemoveBuildDir,
        is_finished(next_state(s, ok).action) ==> s.action == Action::RemoveBuildDir || s.action
            == Action::CheckMainExecutable,
        next_state(s, ok).action == Action::Succeed ==> ok && !s.failed,
{
}

/// The steps of a build in which every step works, in order.
pub open spec fn success_path(copies: usize) -> Seq<Action> {
    seq![
        Action::CheckMainExecutable,
        Action::CreateBuildDir,
        Action::CompileLauncher,
        Action::CreateStagingDir,
        Action::StageMainExecutable,
    ] + Seq::new(copies as nat, |i: int| Action::CopyResourceDir(i as usize)) + seq![
        Action::ArchiveStagingDir,
        Action::RemoveStagingDir,
        Action::WriteBundle,
        Action::MarkExecutable,
        Action::RemoveBuildDir,
        Action::Succeed,
    ]
}

/// When every step works, the build runs through the whole success path:
/// each resource directory is copied once, in order, the bundle is written
/// after the archive is made, and the build ends in success.
pub proof fn lemma_success_path(copies: usize)
    ensures
        success_path(copies)[0] == Action::CheckMainExecutable,
        success_path(copies).last() == Action::Succeed,
        forall|k: int|
            0 <= k < success_path(copies).len() - 1 ==> next_state(
                BuildState { action: #[trigger] success_path(copies)[k], copies, failed: false },
                true,
            ).action == success_path(copies)[k + 1],
{
    let p = success_path(copies);
    let n = copies as int;
    assert forall|k: int| 0 <= k < p.len() - 1 implies next_state(
        BuildState { action: #[trigger] p[k], copies, failed: false },
        true,
    ).action == p[k + 1] by {
        if k < 4 {
        } else if k == 4 {
            if n > 0 {
                assert(p[5] == Action::CopyResourceDir(0));
            } else {
                assert(p[5] == Action::ArchiveStagingDir);
            }
        } else if k < 5 + n {
            assert(p[k] == Action::CopyResourceDir((k - 5) as usize));
            if k + 1 < 5 + n {
                assert(p[k + 1] == Action::CopyResourceDir((k - 4) as usize));
            } else {
                assert(p[k + 1] == Action::ArchiveStagingDir);
            }
        } else {
            assert(p[k] == p.subrange(5 + n, p.len() as int)[k - 5 - n]);
        }
    }
}

} // verus!
