//! The bundler's command line: `<program> <main_executable> [resource_dirs...] [-o output]`.
use vstd::prelude::*;
use vstd::string::StringExecFns;

verus! {

/// The flag that introduces the output path.
pub const OUTPUT_FLAG: &'static str = "-o";

/// The output path used when none is given.
pub const DEFAULT_OUTPUT: &'static str = "bundled_app";

/// The resource directories named from position `i` on: every argument but
/// the output flag and the value after it.
pub open spec fn dirs_from(args: Seq<String>, i: int) -> Seq<String>
    decreases args.len() - i,
{
    if i < 0 || i >= args.len() {
        Seq::empty()
    } else if args[i]@ == OUTPUT_FLAG@ {
        if i + 1 < args.len() {
            dirs_from(args, i + 2)
        } else {
            Seq::empty()
        }
    } else {
        seq![args[i]] + dirs_from(args, i + 1)
    }
}

/// The value after the first output flag from position `i` on, if it has one.
pub open spec fn output_from(args: Seq<String>, i: int) -> Option<String>
    decreases args.len() - i,
{
    if i < 0 || i >= args.len() {
        None
    } else if args[i]@ == OUTPUT_FLAG@ {
        if i + 1 < args.len() {
            Some(args[i + 1])
        } else {
            None
        }
    } else {
        output_from(args, i + 1)
    }
}

/// From position `i` on, an output flag stands last, with no value after it.
pub open spec fn dangling_from(args: Seq<String>, i: int) -> bool
    decreases args.len() - i,
{
    if i < 0 || i >= args.len() {
        false
    } else if args[i]@ == OUTPUT_FLAG@ {
        i + 1 >= args.len() || dangling_from(args, i + 2)
    } else {
        dangling_from(args, i + 1)
    }
}

/// The output path that the arguments choose.
pub open spec fn chosen_output(args: Seq<String>) -> Seq<char> {
    match output_from(args, 2) {
        Some(o) => o@,
        None => DEFAULT_OUTPUT@,
    }
}

/// Why the command line cannot be used.
#[derive(Clone, Copy, Debug, PartialEq, Eq, Structural)]
pub enum UsageError {
    /// No main executable was named.
    MissingExecutable,
    /// The output flag stands last, with no path after it.
    MissingOutputPath,
}

/// What the bundler was asked to do.
#[derive(Clone, Debug)]
pub struct BundlerArgs {
    pub main_exe: String,
    pub resource_dirs: Vec<String>,
    pub output: String,
}

/// Reads the bundler's arguments; `args[0]` is the program's own name.
pub fn parse_bundler_args(args: &Vec<String>) -> (r: Result<BundlerArgs, UsageError>)
    ensures
        args@.len() < 2 <==> r == Err::<BundlerArgs, UsageError>(UsageError::MissingExecutable),
        (args@.len() >= 2 && dangling_from(args@, 2)) <==> r == Err::<BundlerArgs, UsageError>(
            UsageError::MissingOutputPath,
        ),
        (args@.len() >= 2 && !dangling_from(args@, 2)) ==> (r matches Ok(b) && b.main_exe
            == args@[1] && b.resource_dirs@ == dirs_from(args@, 2) && b.output@ == chosen_output(
            args@,
        )),
{
    if args.len() < 2 {
        return Err(UsageError::MissingExecutable);
    }
    let flag = String::from_str(OUTPUT_FLAG);
    let mut dirs: Vec<String> = Vec::new();
    let mut output: Option<String> = None;
    let mut i: usize = 2;
    while i < args.len()
        invariant
            2 <= i <= args@.len(),
            flag@ == OUTPUT_FLAG@,
            dirs@ + dirs_from(args@, i as int) == dirs_from(args@, 2),
            dangling_from(args@, i as int) == dangling_from(args@, 2),
            output is None ==> output_from(args@, i as int) == output_from(args@, 2),
            output matches Some(o) ==> output_from(args@, 2) == Some(o),
        decreases args@.len() - i,
    {
        if args[i] == flag {
            if i + 1 >= args.len() {
                return Err(UsageError::MissingOutputPath);
            }
            if output.is_none() {
                output = Some(args[i + 1].clone());
            }
            i = i + 2;
        } else {
            let ghost before = dirs@;
            dirs.push(args[i].clone());
            proof {
                assert(dirs@ + dirs_from(args@, i + 1) =~= before + dirs_from(args@, i as int));
            }
            i = i + 1;
        }
    }
    proof {
        assert(dirs@ + dirs_from(args@, i as int) =~= dirs@);
    }
    let output = match output {
        Some(o) => o,
        None => String::from_str(DEFAULT_OUTPUT),
    };
    Ok(BundlerArgs { main_exe: args[1].clone(), resource_dirs: dirs, output })
}

} // verus!
