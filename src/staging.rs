//! The staged resource tree: what the packager copies, and under which
//! top-level name each copy lands before the tree is archived.
use vstd::prelude::*;
use vstd::string::StrSliceExecFns;
use vstd::string::StringExecFns;

verus! {

/// The fixed name under which the main executable is staged, and which the
/// launcher stub runs after extraction.
pub const MAIN_PROGRAM_NAME: &'static str = "sekai.x86_64";

/// Length of `p[..n]` once the trailing `/` characters are dropped.
pub open spec fn trimmed_len(p: Seq<char>, n: int) -> int
    decreases n,
{
    if n > 0 && p[n - 1] == '/' {
        trimmed_len(p, n - 1)
    } else {
        n
    }
}

/// Where the last path component of `p[..n]` begins.
pub open spec fn component_start(p: Seq<char>, n: int) -> int
    decreases n,
{
    if n > 0 && p[n - 1] != '/' {
        component_start(p, n - 1)
    } else {
        n
    }
}

/// The last component of a path, trailing slashes ignored: the name that a
/// recursive copy of the path into a directory gets there.
pub open spec fn base_name(p: Seq<char>) -> Seq<char> {
    let end = trimmed_len(p, p.len() as int);
    p.subrange(component_start(p, end), end)
}

proof fn lemma_trimmed_len_bounds(p: Seq<char>, n: int)
    requires
        0 <= n <= p.len(),
    ensures
        0 <= trimmed_len(p, n) <= n,
    decreases n,
{
    if n > 0 && p[n - 1] == '/' {
        lemma_trimmed_len_bounds(p, n - 1);
    }
}

proof fn lemma_component_start_bounds(p: Seq<char>, n: int)
    requires
        0 <= n <= p.len(),
    ensures
        0 <= component_start(p, n) <= n,
    decreases n,
{
    if n > 0 && p[n - 1] != '/' {
        lemma_component_start_bounds(p, n - 1);
    }
}

/// Computes the last component of `path`, trailing slashes ignored.
pub fn base_name_of(path: &str) -> (r: String)
    ensures
        r@ == base_name(path@),
{
    let n = path.unicode_len();
    let mut end: usize = n;
    while end > 0 && path.get_char(end - 1) == '/'
        invariant
            end <= n,
            n == path@.len(),
            trimmed_len(path@, end as int) == trimmed_len(path@, n as int),
        decreases end,
    {
        end = end - 1;
    }
    let mut start: usize = end;
    while start > 0 && path.get_char(start - 1) != '/'
        invariant
            start <= end <= n,
            n == path@.len(),
            end == trimmed_len(path@, n as int),
            component_start(path@, start as int) == component_start(path@, end as int),
        decreases start,
    {
        start = start - 1;
    }
    String::from_str(path.substring_char(start, end))
}

/// The resource directories among `dirs[..n]` that are present, in order.
pub open spec fn kept_dirs(dirs: Seq<String>, present: Seq<bool>, n: int) -> Seq<String>
    decreases n,
{
    if n <= 0 {
        Seq::empty()
    } else if present[n - 1] {
        kept_dirs(dirs, present, n - 1).push(dirs[n - 1])
    } else {
        kept_dirs(dirs, present, n - 1)
    }
}

/// One top-level entry of the staged tree: the path copied, and its name there.
#[derive(Clone, Debug)]
pub struct StagedEntry {
    pub source: String,
    pub name: String,
}

/// The staged tree as (source, name) pairs: the main executable under its
/// fixed name, then each present resource directory under its own name.
pub open spec fn staged_plan(main_exe: Seq<char>, dirs: Seq<String>, present: Seq<bool>) -> Seq<
    (Seq<char>, Seq<char>),
> {
    seq![(main_exe, MAIN_PROGRAM_NAME@)] + kept_dirs(dirs, present, dirs.len() as int).map_values(
        |d: String| (d@, base_name(d@)),
    )
}

/// An entry as its (source, name) pair.
pub open spec fn entry_view(e: StagedEntry) -> (Seq<char>, Seq<char>) {
    (e.source@, e.name@)
}

/// Plans the staged tree for `main_exe` and `dirs`, where `present[i]` tells
/// whether `dirs[i]` is an existing directory; the others are left out.
pub fn staging_plan(main_exe: &str, dirs: &Vec<String>, present: &Vec<bool>) -> (r: Vec<
    StagedEntry,
>)
    requires
        dirs@.len() == present@.len(),
    ensures
        r@.map_values(|e: StagedEntry| entry_view(e)) == staged_plan(main_exe@, dirs@, present@),
{
    let ghost kept = kept_dirs(dirs@, present@, dirs@.len() as int);
    let mut out: Vec<StagedEntry> = Vec::new();
    out.push(
        StagedEntry {
            source: String::from_str(main_exe),
            name: String::from_str(MAIN_PROGRAM_NAME),
        },
    );
    let mut i: usize = 0;
    while i < dirs.len()
        invariant
            i <= dirs@.len(),
            dirs@.len() == present@.len(),
            out@.map_values(|e: StagedEntry| entry_view(e)) == seq![
                (main_exe@, MAIN_PROGRAM_NAME@),
            ] + kept_dirs(dirs@, present@, i as int).map_values(|d: String| (d@, base_name(d@))),
        decreases dirs@.len() - i,
    {
        let ghost before = out@;
        if present[i] {
            let name = base_name_of(dirs[i].as_str());
            out.push(StagedEntry { source: dirs[i].clone(), name });
            proof {
                let k = kept_dirs(dirs@, present@, i + 1);
                let f = |e: StagedEntry| entry_view(e);
                let g = |d: String| (d@, base_name(d@));
                assert(entry_view(out@[before.len() as int]) == g(dirs@[i as int]));
                assert(out@.map_values(f) =~= before.map_values(f).push(g(dirs@[i as int])));
                assert(k.map_values(g) =~= kept_dirs(dirs@, present@, i as int).map_values(g).push(
                    g(dirs@[i as int]),
                ));
                assert(k == kept_dirs(dirs@, present@, i as int).push(dirs@[i as int]));
                assert(out@.map_values(|e: StagedEntry| entry_view(e)) =~= seq![
                    (main_exe@, MAIN_PROGRAM_NAME@),
                ] + k.map_values(|d: String| (d@, base_name(d@))));
            }
        }
        i = i + 1;
        proof {
            if !present@[i - 1] {
                assert(kept_dirs(dirs@, present@, i as int) == kept_dirs(dirs@, present@, i - 1));
            }
        }
    }
    out
}

/// Some `dirs[i]` with `i < n` that is present equals `d`.
pub open spec fn is_present_dir(dirs: Seq<String>, present: Seq<bool>, n: int, d: String) -> bool {
    exists|i: int| 0 <= i < n && present[i] && dirs[i] == d
}

/// `entry` stands in the plan after the main executable.
pub open spec fn lists_entry(plan: Seq<(Seq<char>, Seq<char>)>, entry: (Seq<char>, Seq<char>)) -> bool {
    exists|k: int| 1 <= k < plan.len() && plan[k] == entry
}

/// `entry` is the staged copy of some present resource directory.
pub open spec fn is_present_copy(
    dirs: Seq<String>,
    present: Seq<bool>,
    entry: (Seq<char>, Seq<char>),
) -> bool {
    exists|i: int| 0 <= i < dirs.len() && present[i] && entry == (dirs[i]@, base_name(dirs[i]@))
}

proof fn lemma_kept_dirs_members(dirs: Seq<String>, present: Seq<bool>, n: int)
    requires
        0 <= n <= dirs.len(),
        dirs.len() == present.len(),
    ensures
        forall|k: int|
            0 <= k < kept_dirs(dirs, present, n).len() ==> is_present_dir(
                dirs,
                present,
                n,
                #[trigger] kept_dirs(dirs, present, n)[k],
            ),
        forall|i: int|
            0 <= i < n && present[i] ==> kept_dirs(dirs, present, n).contains(#[trigger] dirs[i]),
    decreases n,
{
    if n > 0 {
        lemma_kept_dirs_members(dirs, present, n - 1);
        let prev = kept_dirs(dirs, present, n - 1);
        let cur = kept_dirs(dirs, present, n);
        if present[n - 1] {
            assert(cur == prev.push(dirs[n - 1]));
        } else {
            assert(cur == prev);
        }
        assert forall|k: int| 0 <= k < cur.len() implies is_present_dir(
            dirs,
            present,
            n,
            #[trigger] cur[k],
        ) by {
            if k < prev.len() {
                assert(cur[k] == prev[k]);
                assert(is_present_dir(dirs, present, n - 1, prev[k]));
                let i = choose|i: int| 0 <= i < n - 1 && present[i] && dirs[i] == prev[k];
                assert(0 <= i < n && present[i] && dirs[i] == cur[k]);
            } else {
                assert(cur[k] == dirs[n - 1]);
            }
        }
        assert forall|i: int| 0 <= i < n && present[i] implies cur.contains(#[trigger] dirs[i]) by {
            if i < n - 1 {
                assert(prev.contains(dirs[i]));
                let k = choose|k: int| 0 <= k < prev.len() && prev[k] == dirs[i];
                assert(cur[k] == dirs[i]);
            } else {
                assert(cur[prev.len() as int] == dirs[i]);
            }
        }
    }
}

/// The staged tree holds exactly the main executable, under its fixed name,
/// and the present resource directories, each under its own name: no other
/// entry, and none of them missing.
pub proof fn lemma_staged_tree_contents(main_exe: Seq<char>, dirs: Seq<String>, present: Seq<bool>)
    requires
        dirs.len() == present.len(),
    ensures
        staged_plan(main_exe, dirs, present)[0] == (main_exe, MAIN_PROGRAM_NAME@),
        forall|k: int|
            1 <= k < staged_plan(main_exe, dirs, present).len() ==> is_present_copy(
                dirs,
                present,
                #[trigger] staged_plan(main_exe, dirs, present)[k],
            ),
        forall|i: int|
            0 <= i < dirs.len() && present[i] ==> lists_entry(
                staged_plan(main_exe, dirs, present),
                (#[trigger] dirs[i]@, base_name(dirs[i]@)),
            ),
{
    let n = dirs.len() as int;
    let kept = kept_dirs(dirs, present, n);
    let plan = staged_plan(main_exe, dirs, present);
    lemma_kept_dirs_members(dirs, present, n);
    assert forall|k: int| 1 <= k < plan.len() implies is_present_copy(
        dirs,
        present,
        #[trigger] plan[k],
    ) by {
        assert(plan[k] == (kept[k - 1]@, base_name(kept[k - 1]@)));
        assert(is_present_dir(dirs, present, n, kept[k - 1]));
        let i = choose|i: int| 0 <= i < n && present[i] && dirs[i] == kept[k - 1];
        assert(plan[k] == (dirs[i]@, base_name(dirs[i]@)));
    }
    assert forall|i: int| 0 <= i < dirs.len() && present[i] implies lists_entry(
        plan,
        (#[trigger] dirs[i]@, base_name(dirs[i]@)),
    ) by {
        assert(kept.contains(dirs[i]));
        let j = choose|j: int| 0 <= j < kept.len() && kept[j] == dirs[i];
        assert(plan[j + 1] == (kept[j]@, base_name(kept[j]@)));
    }
}

/// A resource directory that is absent (under every one of its spellings in
/// the list) gets no entry in the staged tree, and planning still succeeds.
pub proof fn lemma_absent_dir_left_out(
    main_exe: Seq<char>,
    dirs: Seq<String>,
    present: Seq<bool>,
    i: int,
)
    requires
        dirs.len() == present.len(),
        0 <= i < dirs.len(),
        forall|j: int| 0 <= j < dirs.len() && dirs[j]@ == dirs[i]@ ==> !present[j],
    ensures
        forall|k: int|
            1 <= k < staged_plan(main_exe, dirs, present).len() ==> (#[trigger] staged_plan(
                main_exe,
                dirs,
                present,
            )[k]).0 != dirs[i]@,
{
    lemma_staged_tree_contents(main_exe, dirs, present);
}

} // verus!
