//! Outbound blocking for matched processes: which firewall rules to add and
//! remove, and the bookkeeping of the rules this application owns.
//!
//! Every rule is named with a fixed prefix so that the application only
//! ever touches its own rules. Running the platform's firewall tool is done
//! by the application, which reports back which rules it added or removed.

use std::hash::BuildHasher;

use vstd::prelude::*;

use crate::detector::contains_str;
use crate::processes::{path_file_name, spec_path_file_name};
use crate::text::{concat2, hex_digits, hex_string, views};

verus! {

/// The prefix of every rule this application creates.
pub const RULE_PREFIX: &'static str = "ip-killswitch:block:";

/// The hash that `std::hash::DefaultHasher` (as built by `new`) computes for
/// the string `s`.
pub uninterp spec fn spec_default_hash(s: Seq<char>) -> u64;

/// Calls `BuildHasher::hash_one` with a default-built `DefaultHasher`, which
/// is documented to equal hashing with `DefaultHasher::new` and `finish`.
/// The contract names the value as a function of the string; which value it
/// is, is not stated.
#[verifier::external_body]
pub(crate) fn default_hash(s: &str) -> (res: u64)
    ensures
        res == spec_default_hash(s@),
{
    std::hash::BuildHasherDefault::<std::collections::hash_map::DefaultHasher>::default().hash_one(s)
}

/// The rule name for an executable: the prefix, the file name (or
/// `unknown`), a colon and the path's hash in sixteen hexadecimal digits.
pub open spec fn spec_rule_name(exe_path: Seq<char>) -> Seq<char> {
    let base = match spec_path_file_name(exe_path) {
        Some(b) => b,
        None => "unknown"@,
    };
    RULE_PREFIX@ + base + ":"@ + hex_digits(spec_default_hash(exe_path) as nat, 16)
}

/// Derive a rule name from an exe path. Includes the basename (so it's
/// recognizable in the firewall's UI) plus a hash suffix (so two exes with
/// the same basename in different directories don't collide).
pub fn rule_name_for(exe_path: &str) -> (res: String)
    ensures
        res@ == spec_rule_name(exe_path@),
{
    let base = match path_file_name(exe_path) {
        Some(b) => b,
        None => String::from_str("unknown"),
    };
    let h = hex_string(default_hash(exe_path), 16);
    let mut res = concat2(RULE_PREFIX, base.as_str());
    res.append(":");
    res.append(h.as_str());
    res
}

/// The non-Windows stand-in for adding a rule: there is no firewall
/// backend, so it always fails with this message.
pub fn add_rule(_name: &str, _exe_path: &str) -> (res: Result<(), String>)
    ensures
        res matches Err(e) && e@ == "firewall: only implemented on Windows"@,
{
    Err(String::from_str("firewall: only implemented on Windows"))
}

/// The non-Windows stand-in for removing a rule: there is no firewall
/// backend, so it always fails with this message.
pub fn remove_rule(_name: &str) -> (res: Result<(), String>)
    ensures
        res matches Err(e) && e@ == "firewall: only implemented on Windows"@,
{
    Err(String::from_str("firewall: only implemented on Windows"))
}

/// The set of the views of a list of strings.
pub open spec fn set_of(v: Seq<String>) -> Set<Seq<char>> {
    views(v).to_set()
}

/// The rule names wanted for a set of paths.
pub open spec fn wanted_names(paths: Seq<String>) -> Set<Seq<char>> {
    set_of(paths).map(|p: Seq<char>| spec_rule_name(p))
}

/// The changes that bring the active rules to the wanted ones.
#[derive(Debug)]
pub struct BlockPlan {
    /// Rules to add: name and executable path.
    pub to_add: Vec<(String, String)>,
    /// Rules to remove, by name.
    pub to_remove: Vec<String>,
}

/// The names of the rules a plan adds.
pub open spec fn added_names(to_add: Seq<(String, String)>) -> Set<Seq<char>> {
    to_add.map_values(|a: (String, String)| a.0@).to_set()
}

/// The paths of a plan's additions, in order.
pub open spec fn added_paths(to_add: Seq<(String, String)>) -> Seq<Seq<char>> {
    to_add.map_values(|a: (String, String)| a.1@)
}

/// The paths of `ps` whose rule is not active, in order.
pub open spec fn needing(ps: Seq<Seq<char>>, active: Set<Seq<char>>) -> Seq<Seq<char>>
    decreases ps.len(),
{
    if ps.len() == 0 {
        Seq::empty()
    } else if !active.contains(spec_rule_name(ps.last())) {
        needing(ps.drop_last(), active).push(ps.last())
    } else {
        needing(ps.drop_last(), active)
    }
}

/// `plan` brings the active rules `active` to the rules for `paths`: it
/// adds, for paths whose rule is not active, rules named after them; and it
/// removes, each once, the active rules that no path wants.
pub open spec fn is_block_plan(active: Set<Seq<char>>, paths: Seq<String>, plan: BlockPlan) -> bool {
    &&& added_paths(plan.to_add@) == needing(views(paths), active)
    &&& forall|i: int|
        0 <= i < plan.to_add@.len() ==> {
            &&& (#[trigger] plan.to_add@[i]).0@ == spec_rule_name(plan.to_add@[i].1@)
            &&& set_of(paths).contains(plan.to_add@[i].1@)
            &&& !active.contains(plan.to_add@[i].0@)
        }
    &&& forall|p: Seq<char>|
        set_of(paths).contains(p) && !active.contains(spec_rule_name(p))
            ==> added_names(plan.to_add@).contains(spec_rule_name(p))
    &&& set_of(plan.to_remove@) == active.difference(wanted_names(paths))
    &&& views(plan.to_remove@).no_duplicates()
}

/// Applying a plan in full (every rule it adds is added, every rule it
/// removes is removed) leaves exactly the rules that the paths want.
pub proof fn lemma_plan_reaches_wanted(active: Set<Seq<char>>, paths: Seq<String>, plan: BlockPlan)
    requires
        is_block_plan(active, paths, plan),
    ensures
        active.union(added_names(plan.to_add@)).difference(set_of(plan.to_remove@)) == wanted_names(
            paths,
        ),
{
    let adds = added_names(plan.to_add@);
    let want = wanted_names(paths);
    assert forall|x: Seq<char>| adds.contains(x) implies want.contains(x) && !active.contains(x) by {
        let f = |a: (String, String)| a.0@;
        let k = choose|k: int| 0 <= k < plan.to_add@.map_values(f).len() && plan.to_add@.map_values(f)[k] == x;
        assert(plan.to_add@[k].0@ == x);
        let p = plan.to_add@[k].1@;
        assert(set_of(paths).contains(p));
        assert(want.contains(spec_rule_name(p)));
    }
    assert forall|x: Seq<char>| want.contains(x) && !active.contains(x) implies adds.contains(x) by {
        let p = choose|p: Seq<char>| set_of(paths).contains(p) && spec_rule_name(p) == x;
    }
    assert(active.union(adds).difference(set_of(plan.to_remove@)) =~= want);
}

/// When the active rules are already the wanted ones, the plan changes
/// nothing.
pub proof fn lemma_plan_idempotent(active: Set<Seq<char>>, paths: Seq<String>, plan: BlockPlan)
    requires
        is_block_plan(active, paths, plan),
        active == wanted_names(paths),
    ensures
        plan.to_add@.len() == 0,
        plan.to_remove@.len() == 0,
{
    if plan.to_add@.len() > 0 {
        let p = plan.to_add@[0].1@;
        assert(set_of(paths).contains(p));
        assert(wanted_names(paths).contains(spec_rule_name(p)));
    }
    assert(set_of(plan.to_remove@) =~= Set::<Seq<char>>::empty());
    if plan.to_remove@.len() > 0 {
        assert(views(plan.to_remove@)[0] == plan.to_remove@[0]@);
        assert(views(plan.to_remove@).contains(plan.to_remove@[0]@));
        assert(set_of(plan.to_remove@).contains(plan.to_remove@[0]@));
    }
}

/// After a plan has been applied in full, planning again for the same paths
/// adds and removes nothing.
pub proof fn lemma_second_apply_changes_nothing(
    active: Set<Seq<char>>,
    paths: Seq<String>,
    first: BlockPlan,
    second: BlockPlan,
)
    requires
        is_block_plan(active, paths, first),
        is_block_plan(
            active.union(added_names(first.to_add@)).difference(set_of(first.to_remove@)),
            paths,
            second,
        ),
    ensures
        second.to_add@.len() == 0,
        second.to_remove@.len() == 0,
{
    lemma_plan_reaches_wanted(active, paths, first);
    lemma_plan_idempotent(
        active.union(added_names(first.to_add@)).difference(set_of(first.to_remove@)),
        paths,
        second,
    );
}

/// The paths that `needing` keeps are among those it was given, and it
/// keeps no path twice when none was given twice.
pub proof fn lemma_needing_distinct(ps: Seq<Seq<char>>, active: Set<Seq<char>>)
    requires
        ps.no_duplicates(),
    ensures
        needing(ps, active).no_duplicates(),
        forall|x: Seq<char>| needing(ps, active).contains(x) ==> ps.contains(x),
    decreases ps.len(),
{
    if ps.len() > 0 {
        let rest = ps.drop_last();
        assert(rest.no_duplicates());
        lemma_needing_distinct(rest, active);
        assert forall|x: Seq<char>| rest.contains(x) implies ps.contains(x) by {
            let k = choose|k: int| 0 <= k < rest.len() && rest[k] == x;
            assert(ps[k] == x);
        }
        if !active.contains(spec_rule_name(ps.last())) {
            let n = needing(rest, active);
            assert(!rest.contains(ps.last())) by {
                if rest.contains(ps.last()) {
                    let k = choose|k: int| 0 <= k < rest.len() && rest[k] == ps.last();
                    assert(ps[k] == ps[ps.len() - 1]);
                }
            }
            assert(!n.contains(ps.last()));
            assert forall|x: Seq<char>| n.push(ps.last()).contains(x) implies ps.contains(x) by {
                let k = choose|k: int| 0 <= k < n.push(ps.last()).len() && n.push(ps.last())[k] == x;
                if k < n.len() {
                    assert(n[k] == x);
                } else {
                    assert(ps[ps.len() - 1] == x);
                }
            }
            assert forall|i: int, j: int|
                0 <= i < j < n.push(ps.last()).len() implies n.push(ps.last())[i] != n.push(ps.last())[j] by {
                if j == n.len() {
                    assert(n[i] == n.push(ps.last())[i]);
                }
            }
        }
    }
}

/// Process-level firewall bookkeeping: the rules added and not yet removed,
/// and every executable path seen to match a target this session.
///
/// Both are sets of strings, each held as a vector in which no entry occurs
/// twice (the type invariant). vstd states what a `std::collections::HashSet`
/// holds only for key types it knows to hash consistently, which are the
/// integers and `bool`, not `String` (that would take an `assume`). Its
/// `StringHashSet` does cover `String`, but offers no way to walk the
/// elements, which planning (to find the rules no path wants) and shutdown
/// (to list every active rule) both need.
pub struct FirewallManager {
    active_rules: Vec<String>,
    known_paths: Vec<String>,
}

impl FirewallManager {
    /// The names of the rules added and not yet removed.
    pub closed spec fn active(&self) -> Set<Seq<char>> {
        set_of(self.active_rules@)
    }

    /// The paths seen to match a target.
    pub closed spec fn known(&self) -> Set<Seq<char>> {
        set_of(self.known_paths@)
    }

    /// Neither list holds a name twice.
    #[verifier::type_invariant]
    spec fn wf(self) -> bool {
        views(self.active_rules@).no_duplicates() && views(self.known_paths@).no_duplicates()
    }

    /// A manager with no rules and no known paths.
    pub fn new() -> (res: Self)
        ensures
            res.active() == Set::<Seq<char>>::empty(),
            res.known() == Set::<Seq<char>>::empty(),
    {
        let res = FirewallManager { active_rules: Vec::new(), known_paths: Vec::new() };
        assert(views(res.active_rules@) =~= Seq::empty());
        assert(views(res.known_paths@) =~= Seq::empty());
        assert(set_of(res.active_rules@) =~= Set::empty());
        assert(set_of(res.known_paths@) =~= Set::empty());
        res
    }

    /// Record an exe path as seen matching a target.
    pub fn remember_path(&mut self, exe: String)
        ensures
            final(self).known() == old(self).known().insert(exe@),
            final(self).active() == old(self).active(),
    {
        proof {
            use_type_invariant(&*self);
        }
        let mut paths: Vec<String> = Vec::new();
        std::mem::swap(&mut paths, &mut self.known_paths);
        insert_unique(&mut paths, exe);
        self.known_paths = paths;
    }

    /// The paths seen to match a target, each once.
    pub fn known_paths(&self) -> (res: Vec<String>)
        ensures
            set_of(res@) == self.known(),
            views(res@).no_duplicates(),
    {
        proof {
            use_type_invariant(self);
        }
        crate::config::clone_strings(&self.known_paths)
    }

    /// The names of the rules added and not yet removed, each once.
    pub fn active_rules(&self) -> (res: Vec<String>)
        ensures
            set_of(res@) == self.active(),
            views(res@).no_duplicates(),
    {
        proof {
            use_type_invariant(self);
        }
        crate::config::clone_strings(&self.active_rules)
    }

    /// The changes that bring the active rules to exactly the rules for
    /// `paths`: add a rule for each path whose rule is not active, remove
    /// each active rule that no path wants. The paths are a set: none is
    /// given twice, and none is added twice.
    pub fn plan_block_set(&self, paths: &Vec<String>) -> (res: BlockPlan)
        requires
            views(paths@).no_duplicates(),
        ensures
            is_block_plan(self.active(), paths@, res),
            added_paths(res.to_add@).no_duplicates(),
    {
        proof {
            use_type_invariant(self);
        }
        // Names wanted, in the order of `paths`.
        let mut want: Vec<String> = Vec::new();
        let mut to_add: Vec<(String, String)> = Vec::new();
        for i in 0..paths.len()
            invariant
                self.wf(),
                want@.len() == i,
                forall|k: int| 0 <= k < i ==> (#[trigger] want@[k])@ == spec_rule_name(paths@[k]@),
                forall|q: int|
                    0 <= q < to_add@.len() ==> {
                        &&& (#[trigger] to_add@[q]).0@ == spec_rule_name(to_add@[q].1@)
                        &&& set_of(paths@).contains(to_add@[q].1@)
                        &&& !self.active().contains(to_add@[q].0@)
                    },
                forall|k: int|
                    0 <= k < i && !self.active().contains(spec_rule_name(#[trigger] paths@[k]@))
                        ==> added_names(to_add@).contains(spec_rule_name(paths@[k]@)),
                added_paths(to_add@) == needing(views(paths@).take(i as int), self.active()),
        {
            let name = rule_name_for(paths[i].as_str());
            let ghost before = to_add@;
            assert(views(paths@).take(i + 1).drop_last() =~= views(paths@).take(i as int));
            assert(views(paths@).take(i + 1).last() == paths@[i as int]@);
            assert(views(paths@)[i as int] == paths@[i as int]@);
            assert(set_of(paths@).contains(paths@[i as int]@));
            if !contains_str(&self.active_rules, name.as_str()) {
                to_add.push((name.clone(), paths[i].clone()));
                assert(added_paths(to_add@) =~= added_paths(before).push(paths@[i as int]@));
                proof {
                    let f = |a: (String, String)| a.0@;
                    assert(to_add@.map_values(f) =~= before.map_values(f).push(name@));
                    assert forall|k: int|
                        0 <= k < i + 1 && !self.active().contains(spec_rule_name(#[trigger] paths@[k]@))
                            implies added_names(to_add@).contains(spec_rule_name(paths@[k]@)) by {
                        if k < i {
                            let s = before.map_values(f);
                            assert(s.to_set().contains(spec_rule_name(paths@[k]@)));
                            let j = choose|j: int| 0 <= j < s.len() && s[j] == spec_rule_name(paths@[k]@);
                            assert(to_add@.map_values(f)[j] == s[j]);
                        } else {
                            assert(to_add@.map_values(f)[before.len() as int] == name@);
                        }
                    }
                }
            } else {
                assert(self.active().contains(name@)) by {
                    assert(views(self.active_rules@).contains(name@));
                }
            }
            want.push(name);
        }
        proof {
            assert(views(paths@).take(paths@.len() as int) =~= views(paths@));
            assert forall|p: Seq<char>|
                set_of(paths@).contains(p) && !self.active().contains(spec_rule_name(p))
                    implies added_names(to_add@).contains(spec_rule_name(p)) by {
                let k = choose|k: int| 0 <= k < views(paths@).len() && views(paths@)[k] == p;
                assert(paths@[k]@ == p);
            }
        }
        let mut to_remove: Vec<String> = Vec::new();
        let ghost want_set = wanted_names(paths@);
        proof {
            assert forall|x: Seq<char>| views(want@).contains(x) <==> want_set.contains(x) by {
                if views(want@).contains(x) {
                    let k = choose|k: int| 0 <= k < views(want@).len() && views(want@)[k] == x;
                    assert(views(paths@)[k] == paths@[k]@);
                    assert(set_of(paths@).contains(paths@[k]@));
                }
                if want_set.contains(x) {
                    let p = choose|p: Seq<char>| set_of(paths@).contains(p) && spec_rule_name(p) == x;
                    let k = choose|k: int| 0 <= k < views(paths@).len() && views(paths@)[k] == p;
                    assert(views(want@)[k] == x);
                }
            }
        }
        let n = self.active_rules.len();
        let ghost av = views(self.active_rules@);
        assert(av.take(0) =~= Seq::<Seq<char>>::empty());
        for j in 0..n
            invariant
                self.wf(),
                av == views(self.active_rules@),
                n == self.active_rules@.len(),
                forall|x: Seq<char>| views(want@).contains(x) <==> want_set.contains(x),
                views(to_remove@).no_duplicates(),
                forall|x: Seq<char>|
                    #![trigger views(to_remove@).contains(x)]
                    #![trigger av.take(j as int).contains(x)]
                    views(to_remove@).contains(x) <==> (av.take(j as int).contains(x)
                        && !want_set.contains(x)),
        {
            let name = &self.active_rules[j];
            let ghost before = views(to_remove@);
            assert(forall|x: Seq<char>| #[trigger] before.contains(x) <==> (av.take(j as int).contains(x) && !want_set.contains(x)));
            proof {
                assert(av[j as int] == name@);
                assert(av.take(j + 1) =~= av.take(j as int).push(name@));
                assert(av.no_duplicates());
                assert(!av.take(j as int).contains(name@)) by {
                    if av.take(j as int).contains(name@) {
                        let k = choose|k: int| 0 <= k < j && #[trigger] av.take(j as int)[k] == name@;
                        assert(av[k] == av[j as int]);
                    }
                }
                assert(!views(to_remove@).contains(name@));
            }
            if !contains_str(&want, name.as_str()) {
                assert(!want_set.contains(name@));
                to_remove.push(name.clone());
                assert(views(to_remove@) =~= before.push(name@));
            } else {
                assert(want_set.contains(name@));
                assert(views(to_remove@) == before);
            }
            assert(av.take(j + 1)[j as int] == name@);
            proof {
                lemma_filter_step(before, views(to_remove@), av.take(j as int), name@, want_set);
                assert(av.take(j + 1) =~= av.take(j as int).push(name@));
            }
        }
        proof {
            assert(av.take(n as int) =~= av);
            assert forall|x: Seq<char>| set_of(to_remove@).contains(x) <==> self.active().difference(want_set).contains(x) by {
                assert(views(to_remove@).contains(x) <==> (av.take(n as int).contains(x) && !want_set.contains(x)));
            }
            assert(set_of(to_remove@) =~= self.active().difference(want_set));
        }
        let res = BlockPlan { to_add, to_remove };
        assert(is_block_plan(self.active(), paths@, res));
        proof {
            lemma_needing_distinct(views(paths@), self.active());
        }
        res
    }

    /// Record that the rule `name` was added.
    pub fn rule_added(&mut self, name: String)
        ensures
            final(self).active() == old(self).active().insert(name@),
            final(self).known() == old(self).known(),
    {
        proof {
            use_type_invariant(&*self);
        }
        let mut rules: Vec<String> = Vec::new();
        std::mem::swap(&mut rules, &mut self.active_rules);
        insert_unique(&mut rules, name);
        self.active_rules = rules;
    }

    /// Record that the rule `name` was removed.
    pub fn rule_removed(&mut self, name: &str)
        ensures
            final(self).active() == old(self).active().remove(name@),
            final(self).known() == old(self).known(),
    {
        proof {
            use_type_invariant(&*self);
        }
        let mut rules: Vec<String> = Vec::new();
        std::mem::swap(&mut rules, &mut self.active_rules);
        remove_unique(&mut rules, name);
        self.active_rules = rules;
    }

    /// Forget every active rule and return their names, for removal on
    /// shutdown.
    pub fn cleanup(&mut self) -> (res: Vec<String>)
        ensures
            set_of(res@) == old(self).active(),
            views(res@).no_duplicates(),
            final(self).active() == Set::<Seq<char>>::empty(),
            final(self).known() == old(self).known(),
    {
        proof {
            use_type_invariant(&*self);
        }
        let mut res: Vec<String> = Vec::new();
        std::mem::swap(&mut res, &mut self.active_rules);
        assert(views(self.active_rules@) =~= Seq::empty());
        assert(set_of(self.active_rules@) =~= Set::empty());
        res
    }
}

/// One step of collecting the elements of a sequence that a set does not
/// hold.
proof fn lemma_filter_step(
    before: Seq<Seq<char>>,
    after: Seq<Seq<char>>,
    prefix: Seq<Seq<char>>,
    name: Seq<char>,
    want: Set<Seq<char>>,
)
    requires
        forall|x: Seq<char>| #[trigger] before.contains(x) <==> (prefix.contains(x) && !want.contains(x)),
        (!want.contains(name) && after == before.push(name)) || (want.contains(name) && after == before),
    ensures
        forall|x: Seq<char>| #[trigger] after.contains(x) <==> (prefix.push(name).contains(x) && !want.contains(x)),
{
    assert forall|x: Seq<char>| #[trigger] after.contains(x) <==> (prefix.push(name).contains(x) && !want.contains(x)) by {
        if prefix.push(name).contains(x) {
            let k = choose|k: int| 0 <= k < prefix.push(name).len() && prefix.push(name)[k] == x;
            if k < prefix.len() {
                assert(prefix[k] == x);
            }
        }
        if prefix.contains(x) {
            let k = choose|k: int| 0 <= k < prefix.len() && prefix[k] == x;
            assert(prefix.push(name)[k] == x);
        }
        assert(prefix.push(name)[prefix.len() as int] == name);
        if after.contains(x) && !before.contains(x) {
            let k = choose|k: int| 0 <= k < after.len() && after[k] == x;
            assert(k == before.len());
        }
        if before.contains(x) {
            let k = choose|k: int| 0 <= k < before.len() && before[k] == x;
            assert(after[k] == x);
        }
        if !want.contains(name) {
            assert(after[before.len() as int] == name);
        }
    }
}

/// Add `x` to a list without duplicates, unless it is there.
fn insert_unique(v: &mut Vec<String>, x: String)
    requires
        views(old(v)@).no_duplicates(),
    ensures
        views(final(v)@).no_duplicates(),
        set_of(final(v)@) == set_of(old(v)@).insert(x@),
{
    if contains_str(v, x.as_str()) {
        assert(set_of(v@) =~= set_of(v@).insert(x@));
        return;
    }
    let ghost pre = views(v@);
    v.push(x);
    assert(views(v@) =~= pre.push(x@));
    assert(set_of(v@) =~= pre.to_set().insert(x@)) by {
        assert forall|y: Seq<char>| views(v@).contains(y) <==> (pre.contains(y) || y == x@) by {
            if views(v@).contains(y) {
                let k = choose|k: int| 0 <= k < views(v@).len() && views(v@)[k] == y;
                if k < pre.len() {
                    assert(pre[k] == y);
                }
            }
            if pre.contains(y) {
                let k = choose|k: int| 0 <= k < pre.len() && pre[k] == y;
                assert(views(v@)[k] == y);
            }
            if y == x@ {
                assert(views(v@)[pre.len() as int] == y);
            }
        }
    }
}

/// Remove `x` from a list without duplicates.
fn remove_unique(v: &mut Vec<String>, x: &str)
    requires
        views(old(v)@).no_duplicates(),
    ensures
        views(final(v)@).no_duplicates(),
        set_of(final(v)@) == set_of(old(v)@).remove(x@),
{
    let ghost pre = views(v@);
    let n = v.len();
    let mut i: usize = 0;
    while i < n
        invariant
            n == v.len(),
            pre == views(v@),
            pre == views(old(v)@),
            pre.no_duplicates(),
            i <= n,
            forall|k: int| 0 <= k < i ==> pre[k] != x@,
        decreases n - i,
    {
        if crate::text::str_eq(v[i].as_str(), x) {
            assert(pre[i as int] == x@);
            v.remove(i);
            proof {
                let post = views(v@);
                assert(post =~= pre.remove(i as int));
                assert forall|y: Seq<char>| post.contains(y) <==> (pre.contains(y) && y != x@) by {
                    if post.contains(y) {
                        let k = choose|k: int| 0 <= k < post.len() && post[k] == y;
                        if k < i {
                            assert(pre[k] == y);
                        } else {
                            assert(pre[k + 1] == y);
                            assert(pre[i as int] == x@);
                        }
                    }
                    if pre.contains(y) && y != x@ {
                        let k = choose|k: int| 0 <= k < pre.len() && pre[k] == y;
                        if k < i {
                            assert(post[k] == y);
                        } else {
                            assert(k != i);
                            assert(post[k - 1] == y);
                        }
                    }
                }
                assert(set_of(v@) =~= set_of(old(v)@).remove(x@));
            }
            return;
        }
        i = i + 1;
    }
    assert(!pre.contains(x@));
    assert(set_of(v@) =~= set_of(v@).remove(x@));
}

} // verus!
