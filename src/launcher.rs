//! What the launcher stub decides at run time: whether to extract at all, and
//! the argument list it hands to the extracted main program.
use vstd::prelude::*;
use vstd::string::StringExecFns;
use crate::staging::MAIN_PROGRAM_NAME;

verus! {

/// The flag that the stub answers itself and never forwards.
pub const VERSION_FLAG: &'static str = "--version";

/// What the stub prints for the version flag.
pub const VERSION_TEXT: &'static str = "bundled app v1.0";

/// Prefix of the argument that tells the main program where its resources are.
pub const PATH_ARG_PREFIX: &'static str = "--path=";

/// What the stub does when started.
#[derive(Clone, Copy, Debug, PartialEq, Eq, Structural)]
pub enum LaunchMode {
    /// Print the version text and stop, touching no file.
    PrintVersion,
    /// Extract the archive and run the main program.
    Extract,
}

/// The stub answers the version flag when it is the first argument after the
/// program's name.
pub open spec fn asks_version(args: Seq<String>) -> bool {
    args.len() > 1 && args[1]@ == VERSION_FLAG@
}

/// The arguments among `args[1..n]` that are forwarded: all but the version flag.
pub open spec fn forwarded_prefix(args: Seq<String>, n: int) -> Seq<String>
    decreases n,
{
    if n <= 1 {
        Seq::empty()
    } else if args[n - 1]@ == VERSION_FLAG@ {
        forwarded_prefix(args, n - 1)
    } else {
        forwarded_prefix(args, n - 1).push(args[n - 1])
    }
}

/// The stub's own arguments after its name, less every version flag.
pub open spec fn forwarded(args: Seq<String>) -> Seq<String> {
    forwarded_prefix(args, args.len() as int)
}

/// Where the extracted main program lies in the extraction directory.
pub open spec fn main_program_path(dir: Seq<char>) -> Seq<char> {
    dir + "/"@ + MAIN_PROGRAM_NAME@
}

/// The argument that carries the extraction directory.
pub open spec fn path_argument(dir: Seq<char>) -> Seq<char> {
    PATH_ARG_PREFIX@ + dir
}

/// Decides what the stub does with its arguments (`args[0]` is its own name).
pub fn launch_mode(args: &Vec<String>) -> (r: LaunchMode)
    ensures
        r == LaunchMode::PrintVersion <==> asks_version(args@),
        r == LaunchMode::Extract <==> !asks_version(args@),
{
    if args.len() > 1 {
        let flag = String::from_str(VERSION_FLAG);
        if args[1] == flag {
            return LaunchMode::PrintVersion;
        }
    }
    LaunchMode::Extract
}

/// The stub's arguments after its name, in order, without the version flag.
pub fn forwarded_args(args: &Vec<String>) -> (r: Vec<String>)
    ensures
        r@ == forwarded(args@),
{
    let flag = String::from_str(VERSION_FLAG);
    let mut out: Vec<String> = Vec::new();
    if args.len() == 0 {
        return out;
    }
    let mut i: usize = 1;
    while i < args.len()
        invariant
            1 <= i <= args@.len(),
            flag@ == VERSION_FLAG@,
            out@ == forwarded_prefix(args@, i as int),
        decreases args@.len() - i,
    {
        if args[i] != flag {
            out.push(args[i].clone());
        }
        i = i + 1;
    }
    out
}

/// The path of the main program inside the extraction directory `dir`.
pub fn main_program_path_in(dir: &str) -> (r: String)
    ensures
        r@ == main_program_path(dir@),
{
    String::from_str(dir).concat("/").concat(MAIN_PROGRAM_NAME)
}

/// The argument that tells the main program its resources lie in `dir`.
pub fn path_argument_for(dir: &str) -> (r: String)
    ensures
        r@ == path_argument(dir@),
{
    String::from_str(PATH_ARG_PREFIX).concat(dir)
}

/// The argument list for the main program extracted into `dir`: its path, the
/// path argument, then the stub's own forwarded arguments.
pub fn exec_arguments(dir: &str, args: &Vec<String>) -> (r: Vec<String>)
    ensures
        r@.len() == 2 + forwarded(args@).len(),
        r@[0]@ == main_program_path(dir@),
        r@[1]@ == path_argument(dir@),
        r@.subrange(2, r@.len() as int) == forwarded(args@),
{
    let mut out: Vec<String> = Vec::new();
    out.push(main_program_path_in(dir));
    out.push(path_argument_for(dir));
    let rest = forwarded_args(args);
    let mut i: usize = 0;
    while i < rest.len()
        invariant
            i <= rest@.len(),
            out@.len() == 2 + i,
            out@[0]@ == main_program_path(dir@),
            out@[1]@ == path_argument(dir@),
            out@.subrange(2, out@.len() as int) == rest@.subrange(0, i as int),
        decreases rest@.len() - i,
    {
        out.push(rest[i].clone());
        i = i + 1;
        proof {
            assert(out@.subrange(2, out@.len() as int) =~= rest@.subrange(0, i as int));
        }
    }
    proof {
        assert(rest@.subrange(0, i as int) =~= rest@);
    }
    out
}

proof fn lemma_forwarded_prefix_members(args: Seq<String>, n: int)
    requires
        n <= args.len(),
    ensures
        forall|k: int|
            0 <= k < forwarded_prefix(args, n).len() ==> (#[trigger] forwarded_prefix(args, n)[k])@
                != VERSION_FLAG@,
        forall|j: int|
            1 <= j < n && (#[trigger] args[j])@ != VERSION_FLAG@ ==> forwarded_prefix(
                args,
                n,
            ).contains(args[j]),
    decreases n,
{
    if n > 1 {
        lemma_forwarded_prefix_members(args, n - 1);
        let prev = forwarded_prefix(args, n - 1);
        let cur = forwarded_prefix(args, n);
        if args[n - 1]@ != VERSION_FLAG@ {
            assert(cur == prev.push(args[n - 1]));
            assert forall|j: int|
                1 <= j < n && (#[trigger] args[j])@ != VERSION_FLAG@ implies cur.contains(
                args[j],
            ) by {
                if j < n - 1 {
                    let k = choose|k: int| 0 <= k < prev.len() && prev[k] == args[j];
                    assert(cur[k] == args[j]);
                } else {
                    assert(cur[prev.len() as int] == args[j]);
                }
            }
        }
    }
}

/// The version flag never reaches the main program, and every other argument
/// after the stub's name does, in the argument list built for it.
pub proof fn lemma_version_never_forwarded(args: Seq<String>)
    ensures
        forall|k: int|
            0 <= k < forwarded(args).len() ==> (#[trigger] forwarded(args)[k])@ != VERSION_FLAG@,
        forall|j: int|
            1 <= j < args.len() && (#[trigger] args[j])@ != VERSION_FLAG@ ==> forwarded(
                args,
            ).contains(args[j]),
{
    lemma_forwarded_prefix_members(args, args.len() as int);
}

} // verus!
