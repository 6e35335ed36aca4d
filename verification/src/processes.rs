//! Which running processes are targets, and what killing them reported.
//!
//! Listing the processes of the system and sending the kill signal are done
//! by the application; it hands the library a snapshot of the process table
//! and the result of each kill.

use vstd::prelude::*;

use crate::config::ProcessTarget;
use crate::detector::opt_view;
use crate::text::{
    contains_ignore_ascii_case, eq_ignore_ascii_case, has_substring, is_blank, lower_codes, occurs_at,
    str_contains,
    str_eq, trim, trim_str,
};

verus! {

/// A process that matched one of the targets.
#[derive(Debug)]
pub struct DiscoveredProcess {
    pub pid: u32,
    pub name: String,
    pub exe: Option<String>,
    pub matched_target_id: String,
    pub matched_target_label: String,
}

/// What became of one kill request.
#[derive(Debug)]
pub struct KillOutcome {
    pub pid: u32,
    pub name: String,
    pub killed: bool,
    pub error: Option<String>,
}

/// One entry of the system's process table.
#[derive(Debug)]
pub struct RunningProcess {
    pub pid: u32,
    pub name: String,
    pub exe: Option<String>,
}

/// The final component of `path`, as `std::path::Path::file_name` reads it
/// with the path syntax of the platform the library is built for.
pub uninterp spec fn spec_path_file_name(path: Seq<char>) -> Option<Seq<char>>;

/// Calls `std::path::Path::file_name` on `path`, converting the component
/// with `to_string_lossy`. The contract names the result as a function of
/// the path; how paths are split is not stated.
#[verifier::external_body]
pub(crate) fn path_file_name(path: &str) -> (res: Option<String>)
    ensures
        opt_view(res) == spec_path_file_name(path@),
{
    std::path::Path::new(path).file_name().map(|n| n.to_string_lossy().to_string())
}

/// Name comparison: ASCII case-insensitive when `case_insensitive`, exact
/// otherwise.
pub open spec fn names_equal(a: Seq<char>, b: Seq<char>, case_insensitive: bool) -> bool {
    if case_insensitive {
        lower_codes(a) == lower_codes(b)
    } else {
        a == b
    }
}

/// Whether `needle` occurs in `hay`: ASCII case-insensitively when
/// `case_insensitive`, character for character otherwise.
pub open spec fn contains_name(hay: Seq<char>, needle: Seq<char>, case_insensitive: bool) -> bool {
    if case_insensitive {
        has_substring(lower_codes(hay), lower_codes(needle))
    } else {
        has_substring(hay, needle)
    }
}

/// Whether a process with this name and executable path is the target named
/// `target_name`: its name equals the trimmed target name, or the file name
/// or the whole path of its executable does, or its executable path or its
/// name contains the target name. Names are compared as the platform does
/// (`case_insensitive`). A blank target name matches nothing.
pub open spec fn spec_matches(
    target_name: Seq<char>,
    proc_name: Seq<char>,
    exe: Option<Seq<char>>,
    case_insensitive: bool,
) -> bool {
    let needle = trim(target_name);
    if needle.len() == 0 {
        false
    } else if names_equal(proc_name, needle, case_insensitive) {
        true
    } else if exe is Some && ({
        let e = exe.unwrap();
        let base = match spec_path_file_name(e) {
            Some(b) => b,
            None => Seq::empty(),
        };
        (base.len() > 0 && names_equal(base, needle, case_insensitive)) || names_equal(
            e,
            needle,
            case_insensitive,
        ) || contains_name(e, needle, case_insensitive)
    }) {
        true
    } else {
        contains_name(proc_name, needle, case_insensitive)
    }
}

/// Compare two names as the platform does.
fn name_eq(a: &str, b: &str, case_insensitive: bool) -> (res: bool)
    ensures
        res == names_equal(a@, b@, case_insensitive),
{
    if case_insensitive {
        eq_ignore_ascii_case(a, b)
    } else {
        str_eq(a, b)
    }
}

/// Search `hay` for `needle` as the platform compares names.
fn name_contains(hay: &str, needle: &str, case_insensitive: bool) -> (res: bool)
    ensures
        res == contains_name(hay@, needle@, case_insensitive),
{
    if case_insensitive {
        contains_ignore_ascii_case(hay, needle)
    } else {
        str_contains(hay, needle)
    }
}

/// Whether the process is the target (see [`spec_matches`]).
pub fn matches(
    target: &ProcessTarget,
    proc_name: &str,
    exe: Option<&str>,
    case_insensitive: bool,
) -> (res: bool)
    ensures
        res == spec_matches(
            target.name@,
            proc_name@,
            match exe {
                Some(e) => Some(e@),
                None => None,
            },
            case_insensitive,
        ),
{
    let needle = trim_str(target.name.as_str());
    if needle.unicode_len() == 0 {
        return false;
    }
    if name_eq(proc_name, needle.as_str(), case_insensitive) {
        return true;
    }
    if let Some(e) = exe {
        let base = match path_file_name(e) {
            Some(b) => b,
            None => String::new(),
        };
        if base.unicode_len() > 0 && name_eq(base.as_str(), needle.as_str(), case_insensitive) {
            return true;
        }
        if name_eq(e, needle.as_str(), case_insensitive) {
            return true;
        }
        if name_contains(e, needle.as_str(), case_insensitive) {
            return true;
        }
    }
    name_contains(proc_name, needle.as_str(), case_insensitive)
}

/// The view of an optional string.
pub open spec fn exe_view(p: RunningProcess) -> Option<Seq<char>> {
    opt_view(p.exe)
}

/// The index of the first enabled target of `targets` that matches `p`.
pub open spec fn first_target(
    targets: Seq<ProcessTarget>,
    p: RunningProcess,
    case_insensitive: bool,
) -> Option<int>
    decreases targets.len(),
{
    if targets.len() == 0 {
        None
    } else {
        let t = targets[0];
        if t.enabled && spec_matches(t.name@, p.name@, exe_view(p), case_insensitive) {
            Some(0)
        } else {
            match first_target(targets.drop_first(), p, case_insensitive) {
                Some(k) => Some(k + 1),
                None => None,
            }
        }
    }
}

/// `d` records process `p` as a match of target `t`.
pub open spec fn is_discovery(d: DiscoveredProcess, p: RunningProcess, t: ProcessTarget) -> bool {
    &&& d.pid == p.pid
    &&& d.name == p.name
    &&& d.exe == p.exe
    &&& d.matched_target_id == t.id
    &&& d.matched_target_label == t.label
}

/// The discoveries for the processes `running`, in order: each process
/// that some enabled target matches, with the first such target.
pub open spec fn discoveries_ok(
    found: Seq<DiscoveredProcess>,
    targets: Seq<ProcessTarget>,
    running: Seq<RunningProcess>,
    case_insensitive: bool,
) -> bool
    decreases running.len(),
{
    if running.len() == 0 {
        found.len() == 0
    } else {
        let p = running.last();
        match first_target(targets, p, case_insensitive) {
            Some(k) => found.len() > 0 && is_discovery(found.last(), p, targets[k])
                && discoveries_ok(found.drop_last(), targets, running.drop_last(), case_insensitive),
            None => discoveries_ok(found, targets, running.drop_last(), case_insensitive),
        }
    }
}

/// The first enabled target that matches `p`.
fn find_target(targets: &Vec<ProcessTarget>, p: &RunningProcess, case_insensitive: bool) -> (res:
    Option<usize>)
    ensures
        match res {
            Some(k) => first_target(targets@, *p, case_insensitive) == Some(k as int) && k
                < targets.len(),
            None => first_target(targets@, *p, case_insensitive) is None,
        },
{
    let exe: Option<&str> = match &p.exe {
        Some(e) => Some(e.as_str()),
        None => None,
    };
    let ghost ev: Option<Seq<char>> = match exe {
        Some(e) => Some(e@),
        None => None,
    };
    assert(ev == exe_view(*p));
    let mut i: usize = 0;
    assert(targets@.skip(0) =~= targets@);
    while i < targets.len()
        invariant
            i <= targets.len(),
            ev == exe_view(*p),
            ev == match exe {
                Some(e) => Some(e@),
                None => None,
            },
            first_target(targets@, *p, case_insensitive) == match first_target(
                targets@.skip(i as int),
                *p,
                case_insensitive,
            ) {
                Some(k) => Some(k + i),
                None => None,
            },
        decreases targets.len() - i,
    {
        let t = &targets[i];
        assert(targets@.skip(i as int)[0] == targets@[i as int]);
        if t.enabled && matches(t, p.name.as_str(), exe, case_insensitive) {
            return Some(i);
        }
        assert(targets@.skip(i as int).drop_first() =~= targets@.skip(i + 1));
        i = i + 1;
    }
    None
}

/// The processes of the snapshot `running` that an enabled target matches,
/// each with the first target that matches it.
pub fn discover(targets: &Vec<ProcessTarget>, running: &Vec<RunningProcess>, case_insensitive: bool) -> (res:
    Vec<DiscoveredProcess>)
    ensures
        discoveries_ok(res@, targets@, running@, case_insensitive),
{
    let mut out: Vec<DiscoveredProcess> = Vec::new();
    for i in 0..running.len()
        invariant
            discoveries_ok(out@, targets@, running@.take(i as int), case_insensitive),
    {
        let p = &running[i];
        let ghost pre = out@;
        assert(running@.take(i + 1).drop_last() =~= running@.take(i as int));
        assert(running@.take(i + 1).last() == running@[i as int]);
        match find_target(targets, p, case_insensitive) {
            Some(k) => {
                let t = &targets[k];
                out.push(
                    DiscoveredProcess {
                        pid: p.pid,
                        name: p.name.clone(),
                        exe: match &p.exe {
                            Some(e) => Some(e.clone()),
                            None => None,
                        },
                        matched_target_id: t.id.clone(),
                        matched_target_label: t.label.clone(),
                    },
                );
                assert(out@.drop_last() =~= pre);
            },
            None => {},
        }
    }
    assert(running@.take(running.len() as int) =~= running@);
    out
}

/// The process ids of the discovered processes, in order.
pub fn discovered_pids(found: &Vec<DiscoveredProcess>) -> (res: Vec<u32>)
    ensures
        res@.len() == found@.len(),
        forall|i: int| 0 <= i < found@.len() ==> res@[i] == (#[trigger] found@[i]).pid,
{
    let mut res: Vec<u32> = Vec::new();
    for i in 0..found.len()
        invariant
            res@.len() == i,
            forall|k: int| 0 <= k < i ==> res@[k] == (#[trigger] found@[k]).pid,
    {
        res.push(found[i].pid);
    }
    res
}

/// The outcome of asking to kill process `pid`: `found` holds the name of
/// the process and whether the kill went through, or is `None` when no
/// such process was running.
pub fn kill_outcome(pid: u32, found: Option<(String, bool)>) -> (res: KillOutcome)
    ensures
        res.pid == pid,
        match found {
            Some((name, killed)) => {
                &&& res.name == name
                &&& res.killed == killed
                &&& opt_view(res.error) == if killed {
                    None
                } else {
                    Some("kill() returned false"@)
                }
            },
            None => {
                &&& res.name@.len() == 0
                &&& !res.killed
                &&& opt_view(res.error) == Some("process not found"@)
            },
        },
{
    match found {
        Some((name, killed)) => KillOutcome {
            pid,
            name,
            killed,
            error: if killed {
                None
            } else {
                Some(String::from_str("kill() returned false"))
            },
        },
        None => KillOutcome {
            pid,
            name: String::new(),
            killed: false,
            error: Some(String::from_str("process not found")),
        },
    }
}

/// How many of `outcomes` killed their process.
pub open spec fn killed_count(outcomes: Seq<KillOutcome>) -> nat
    decreases outcomes.len(),
{
    if outcomes.len() == 0 {
        0
    } else {
        killed_count(outcomes.drop_last()) + if outcomes.last().killed {
            1nat
        } else {
            0nat
        }
    }
}

/// How many of `outcomes` killed their process.
pub fn count_killed(outcomes: &Vec<KillOutcome>) -> (res: usize)
    ensures
        res == killed_count(outcomes@),
{
    let mut n: usize = 0;
    for i in 0..outcomes.len()
        invariant
            n == killed_count(outcomes@.take(i as int)),
            n <= i,
    {
        assert(outcomes@.take(i + 1).drop_last() =~= outcomes@.take(i as int));
        if outcomes[i].killed {
            n = n + 1;
        }
    }
    assert(outcomes@.take(outcomes.len() as int) =~= outcomes@);
    n
}

} // verus!

verus! {

/// A target with a blank name matches no process.
pub proof fn lemma_blank_target_matches_nothing(
    target_name: Seq<char>,
    proc_name: Seq<char>,
    exe: Option<Seq<char>>,
    case_insensitive: bool,
)
    requires
        is_blank(target_name),
    ensures
        !spec_matches(target_name, proc_name, exe, case_insensitive),
{
}

/// A process whose name contains the (trimmed) target name, compared as the
/// platform compares names, is a match.
pub proof fn lemma_name_containing_target_matches(
    target_name: Seq<char>,
    proc_name: Seq<char>,
    exe: Option<Seq<char>>,
    case_insensitive: bool,
)
    requires
        !is_blank(target_name),
        contains_name(proc_name, trim(target_name), case_insensitive),
    ensures
        spec_matches(target_name, proc_name, exe, case_insensitive),
{
}

/// A process whose executable path contains the (trimmed) target name,
/// compared as the platform compares names, is a match.
pub proof fn lemma_path_containing_target_matches(
    target_name: Seq<char>,
    proc_name: Seq<char>,
    exe_path: Seq<char>,
    case_insensitive: bool,
)
    requires
        !is_blank(target_name),
        contains_name(exe_path, trim(target_name), case_insensitive),
    ensures
        spec_matches(target_name, proc_name, Some(exe_path), case_insensitive),
{
}

/// Where names are compared exactly, a process without a known executable
/// matches only if its name contains the (trimmed) target name character
/// for character: no other letter case will do.
pub proof fn lemma_exact_case_needs_contained_name(
    target_name: Seq<char>,
    proc_name: Seq<char>,
)
    requires
        !has_substring(proc_name, trim(target_name)),
    ensures
        !spec_matches(target_name, proc_name, None, false),
{
    let needle = trim(target_name);
    if proc_name == needle {
        assert(proc_name.subrange(0, needle.len() as int) =~= needle);
        assert(occurs_at(proc_name, needle, 0));
    }
}

/// A process named exactly like the (trimmed) target is a match.
pub proof fn lemma_exact_name_matches(
    target_name: Seq<char>,
    exe: Option<Seq<char>>,
    case_insensitive: bool,
)
    requires
        !is_blank(target_name),
    ensures
        spec_matches(target_name, trim(target_name), exe, case_insensitive),
{
}

} // verus!
