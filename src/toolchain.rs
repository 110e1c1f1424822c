//! Where a build keeps its intermediate files, and the arguments handed to the
//! compiler, the recursive copy and the archiver.
use vstd::prelude::*;
use vstd::string::StringExecFns;
use crate::staging::MAIN_PROGRAM_NAME;

verus! {

/// The build directory: the stub's source and binary, and the archive.
pub const BUILD_DIR: &'static str = "temp_build";

/// The staging directory: the tree that is archived.
pub const STAGING_DIR: &'static str = "temp_structure";

/// The stub's source, in the build directory.
pub const LAUNCHER_SOURCE_FILE: &'static str = "launcher.c";

/// The compiled stub, in the build directory.
pub const LAUNCHER_BINARY_FILE: &'static str = "launcher";

/// The archive of the staged tree, in the build directory.
pub const ARCHIVE_FILE: &'static str = "resources.tar.gz";

/// The characters of each string.
pub open spec fn views(v: Seq<String>) -> Seq<Seq<char>> {
    v.map_values(|s: String| s@)
}

/// `name` inside directory `dir`.
pub open spec fn joined(dir: Seq<char>, name: Seq<char>) -> Seq<char> {
    dir + "/"@ + name
}

/// The path of `name` inside directory `dir`.
pub fn join(dir: &str, name: &str) -> (r: String)
    ensures
        r@ == joined(dir@, name@),
{
    String::from_str(dir).concat("/").concat(name)
}

/// Where the main executable is copied in the staging directory.
pub fn staged_main_path() -> (r: String)
    ensures
        r@ == joined(STAGING_DIR@, MAIN_PROGRAM_NAME@),
{
    join(STAGING_DIR, MAIN_PROGRAM_NAME)
}

/// The compiler's arguments: build the stub from its source, linked with zlib.
pub fn compiler_args() -> (r: Vec<String>)
    ensures
        views(r@) == seq![
            "-o"@,
            joined(BUILD_DIR@, LAUNCHER_BINARY_FILE@),
            joined(BUILD_DIR@, LAUNCHER_SOURCE_FILE@),
            "-lz"@,
        ],
{
    let r = vec![
        String::from_str("-o"),
        join(BUILD_DIR, LAUNCHER_BINARY_FILE),
        join(BUILD_DIR, LAUNCHER_SOURCE_FILE),
        String::from_str("-lz"),
    ];
    proof {
        assert(views(r@) =~= seq![
            "-o"@,
            joined(BUILD_DIR@, LAUNCHER_BINARY_FILE@),
            joined(BUILD_DIR@, LAUNCHER_SOURCE_FILE@),
            "-lz"@,
        ]);
    }
    r
}

/// The archiver's arguments: a compressed archive of the staging directory's
/// contents, rooted at them rather than at the directory itself.
pub fn archive_args() -> (r: Vec<String>)
    ensures
        views(r@) == seq!["-czf"@, joined(BUILD_DIR@, ARCHIVE_FILE@), "-C"@, STAGING_DIR@, "."@],
{
    let r = vec![
        String::from_str("-czf"),
        join(BUILD_DIR, ARCHIVE_FILE),
        String::from_str("-C"),
        String::from_str(STAGING_DIR),
        String::from_str("."),
    ];
    proof {
        assert(views(r@) =~= seq![
            "-czf"@,
            joined(BUILD_DIR@, ARCHIVE_FILE@),
            "-C"@,
            STAGING_DIR@,
            "."@,
        ]);
    }
    r
}

/// The recursive copy's arguments: copy `dir` into the staging directory,
/// where it keeps its own name.
pub fn copy_args(dir: &str) -> (r: Vec<String>)
    ensures
        views(r@) == seq!["-r"@, dir@, STAGING_DIR@ + "/"@],
{
    let r = vec![
        String::from_str("-r"),
        String::from_str(dir),
        String::from_str(STAGING_DIR).concat("/"),
    ];
    proof {
        assert(views(r@) =~= seq!["-r"@, dir@, STAGING_DIR@ + "/"@]);
    }
    r
}

} // verus!
