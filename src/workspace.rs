use vstd::prelude::*;
use vstd::set_lib::{lemma_int_range, lemma_len_subset, set_int_range};

use crate::config::{first_named, find_named, is_default_config, same_config, Config, WorkspaceConfig};
use crate::error::ForgeError;
use crate::paths::{join_path, path_join};
use crate::text::strs;

verus! {

/// A root project with its buildable members.
#[derive(Debug, Clone)]
pub struct Workspace {
    pub root_path: String,
    pub root_config: Config,
    pub members: Vec<WorkspaceMember>,
    pub selected_profile: Option<String>,
}

/// One buildable unit of a workspace.
#[derive(Debug, Clone)]
pub struct WorkspaceMember {
    pub name: String,
    pub path: String,
    pub config: Config,
    pub selected_profile: Option<String>,
    pub workspace_root: String,
}

/// The names of `members`, in order.
pub open spec fn member_names(members: Seq<WorkspaceMember>) -> Seq<Seq<char>> {
    members.map_values(|m: WorkspaceMember| m.name@)
}

/// The listed member names that are not excluded, in listed order.
pub open spec fn kept_members(listed: Seq<Seq<char>>, excluded: Seq<Seq<char>>) -> Seq<Seq<char>>
    decreases listed.len(),
{
    if listed.len() == 0 {
        Seq::empty()
    } else {
        let r = kept_members(listed.drop_last(), excluded);
        if excluded.contains(listed.last()) {
            r
        } else {
            r.push(listed.last())
        }
    }
}

/// The dependencies declared for the member `name`: the list of its first
/// entry in the dependency table, none when it has no entry.
pub open spec fn deps_of(cfg: WorkspaceConfig, name: Seq<char>) -> Seq<Seq<char>> {
    let i = first_named(cfg.dependencies@, name);
    if i >= 0 {
        strs(cfg.dependencies@[i].1@)
    } else {
        Seq::empty()
    }
}

/// Member `i` declares a dependency on the name of member `j`.
pub open spec fn depends_on(names: Seq<Seq<char>>, cfg: WorkspaceConfig, i: int, j: int) -> bool {
    0 <= i < names.len() && 0 <= j < names.len() && deps_of(cfg, names[i]).contains(names[j])
}

/// A chain of members, each depending on the next.
pub open spec fn is_dep_path(names: Seq<Seq<char>>, cfg: WorkspaceConfig, p: Seq<int>) -> bool {
    &&& p.len() >= 1
    &&& forall|k: int| 0 <= k < p.len() - 1 ==> #[trigger] depends_on(names, cfg, p[k], p[k + 1])
}

/// Member `i` depends, through one or more steps, on itself.
pub open spec fn on_cycle(names: Seq<Seq<char>>, cfg: WorkspaceConfig, i: int) -> bool {
    exists|p: Seq<int>| #[trigger] is_dep_path(names, cfg, p) && p.len() >= 2 && p[0] == i && p.last() == i
}

/// `order` lists every member index exactly once, and every dependency name
/// of a member is the name of a member listed before it.
pub open spec fn is_build_order(names: Seq<Seq<char>>, cfg: WorkspaceConfig, order: Seq<int>) -> bool {
    &&& order.no_duplicates()
    &&& forall|k: int| 0 <= k < order.len() ==> 0 <= #[trigger] order[k] < names.len()
    &&& forall|j: int| 0 <= j < names.len() ==> #[trigger] order.contains(j)
    &&& deps_placed_before(names, cfg, order)
}

/// Some member at a position before `p` in `order` carries the name `name`.
pub open spec fn placed_before(names: Seq<Seq<char>>, order: Seq<int>, p: int, name: Seq<char>) -> bool {
    exists|q: int| 0 <= q < p && #[trigger] names[order[q]] == name
}

/// Every dependency name of each member in `order` is the name of a member
/// placed before it.
pub open spec fn deps_placed_before(names: Seq<Seq<char>>, cfg: WorkspaceConfig, order: Seq<int>) -> bool {
    forall|p: int, d: int|
        0 <= p < order.len() && 0 <= d < deps_of(cfg, names[order[p]]).len() ==> #[trigger] placed_before(
            names,
            order,
            p,
            deps_of(cfg, names[order[p]])[d],
        )
}

/// No member declares any dependency.
pub open spec fn no_dependencies(names: Seq<Seq<char>>, cfg: WorkspaceConfig) -> bool {
    forall|j: int| 0 <= j < names.len() ==> (#[trigger] deps_of(cfg, names[j])).len() == 0
}

/// What a failed resolution reports is so: a member on a dependency cycle, or
/// a declared dependency that names no member.
pub open spec fn resolution_failure(names: Seq<Seq<char>>, cfg: WorkspaceConfig, e: ForgeError) -> bool {
    match e {
        ForgeError::DependencyCycle(n) => exists|i: int|
            0 <= i < names.len() && names[i] == n@ && on_cycle(names, cfg, i),
        ForgeError::UnknownDependency(n) => exists|i: int|
            0 <= i < names.len() && deps_of(cfg, names[i]).contains(n@) && !names.contains(n@),
        _ => false,
    }
}

/// The members selected by `filter`: all of them for an empty filter, else
/// those whose name the filter holds, in member order.
pub open spec fn selected(members: Seq<WorkspaceMember>, filter: Seq<Seq<char>>) -> Seq<WorkspaceMember>
    decreases members.len(),
{
    if filter.len() == 0 {
        members
    } else if members.len() == 0 {
        Seq::empty()
    } else {
        let r = selected(members.drop_last(), filter);
        if filter.contains(members.last().name@) {
            r.push(members.last())
        } else {
            r
        }
    }
}

/// The values that a list of member references points to.
pub open spec fn derefs(v: Seq<&WorkspaceMember>) -> Seq<WorkspaceMember> {
    v.map_values(|m: &WorkspaceMember| *m)
}

/// Whether `v` holds the text `s`.
pub fn contains_text(v: &Vec<String>, s: &str) -> (r: bool)
    ensures
        r == strs(v@).contains(s@),
{
    let mut i: usize = 0;
    while i < v.len()
        invariant
            i <= v.len(),
            forall|k: int| 0 <= k < i ==> #[trigger] v@[k]@ != s@,
        decreases v.len() - i,
    {
        if crate::text::same_text(v[i].as_str(), s) {
            assert(strs(v@)[i as int] == s@);
            return true;
        }
        i = i + 1;
    }
    proof {
        if strs(v@).contains(s@) {
            let k = choose|k: int| 0 <= k < strs(v@).len() && strs(v@)[k] == s@;
            assert(v@[k]@ == s@);
        }
    }
    false
}

/// A copy of an optional string.
fn clone_opt(o: &Option<String>) -> (r: Option<String>)
    ensures
        r == *o,
{
    match o {
        Some(s) => Some(s.clone()),
        None => None,
    }
}

/// Marks kept while ordering members by their dependencies.
struct Dfs {
    /// Members already placed in `order`.
    finished: Vec<bool>,
    /// Members on the chain of dependencies being followed.
    on_path: Vec<bool>,
    order: Vec<usize>,
}

/// Some member placed in `order` carries the name `name`.
spec fn placed(names: Seq<Seq<char>>, order: Seq<usize>, name: Seq<char>) -> bool {
    exists|q: int| 0 <= q < order.len() && #[trigger] names[order[q] as int] == name
}

spec fn order_ints(order: Seq<usize>) -> Seq<int> {
    order.map_values(|x: usize| x as int)
}

spec fn dfs_inv(names: Seq<Seq<char>>, cfg: WorkspaceConfig, d: Dfs, stack: Seq<int>) -> bool {
    let n = names.len();
    let order = order_ints(d.order@);
    &&& d.finished@.len() == n
    &&& d.on_path@.len() == n
    &&& forall|j: int| 0 <= j < n ==> (#[trigger] d.on_path@[j] <==> stack.contains(j))
    &&& stack.no_duplicates()
    &&& forall|k: int| 0 <= k < stack.len() ==> 0 <= #[trigger] stack[k] < n
    &&& forall|k: int| 0 <= k < stack.len() - 1 ==> #[trigger] depends_on(names, cfg, stack[k], stack[k + 1])
    &&& forall|j: int| 0 <= j < n ==> (#[trigger] d.finished@[j] <==> order.contains(j))
    &&& order.no_duplicates()
    &&& forall|k: int| 0 <= k < order.len() ==> 0 <= #[trigger] order[k] < n
    &&& forall|j: int| 0 <= j < n ==> !(#[trigger] d.finished@[j] && d.on_path@[j])
    &&& deps_placed_before(names, cfg, order)
}

proof fn lemma_bounded_distinct_len(s: Seq<int>, n: int)
    requires
        0 <= n,
        s.no_duplicates(),
        forall|k: int| 0 <= k < s.len() ==> 0 <= #[trigger] s[k] < n,
    ensures
        s.len() <= n,
{
    s.unique_seq_to_set();
    lemma_int_range(0, n);
    assert(s.to_set().subset_of(set_int_range(0, n)));
    lemma_len_subset(s.to_set(), set_int_range(0, n));
}

/// Index of the first member named `name`.
fn find_member(members: &Vec<WorkspaceMember>, name: &str) -> (r: Option<usize>)
    ensures
        match r {
            Some(j) => j < members.len() && members@[j as int].name@ == name@,
            None => !member_names(members@).contains(name@),
        },
{
    let mut i: usize = 0;
    while i < members.len()
        invariant
            i <= members.len(),
            forall|k: int| 0 <= k < i ==> #[trigger] members@[k].name@ != name@,
        decreases members.len() - i,
    {
        if crate::text::same_text(members[i].name.as_str(), name) {
            return Some(i);
        }
        i = i + 1;
    }
    proof {
        if member_names(members@).contains(name@) {
            let k = choose|k: int| 0 <= k < member_names(members@).len() && member_names(members@)[k] == name@;
            assert(members@[k].name@ == name@);
        }
    }
    None
}

/// The declared dependencies of the member named `name`.
fn declared_deps<'a>(cfg: &'a WorkspaceConfig, name: &str) -> (r: Option<&'a Vec<String>>)
    ensures
        match r {
            Some(v) => strs(v@) == deps_of(*cfg, name@),
            None => deps_of(*cfg, name@).len() == 0,
        },
{
    match find_named(&cfg.dependencies, name) {
        Some(i) => Some(&cfg.dependencies[i].1),
        None => None,
    }
}

/// Places member `i`, after everything it depends on, at the end of the order.
fn visit(
    members: &Vec<WorkspaceMember>,
    cfg: &WorkspaceConfig,
    d: &mut Dfs,
    i: usize,
    Ghost(stack): Ghost<Seq<int>>,
) -> (r: Result<(), ForgeError>)
    requires
        dfs_inv(member_names(members@), *cfg, *old(d), stack),
        i < members.len(),
        stack.len() > 0 ==> depends_on(member_names(members@), *cfg, stack.last(), i as int),
    ensures
        match r {
            Ok(()) => {
                &&& dfs_inv(member_names(members@), *cfg, *final(d), stack)
                &&& final(d).finished@[i as int]
                &&& old(d).order@.len() <= final(d).order@.len()
                &&& final(d).order@.take(old(d).order@.len() as int) == old(d).order@
                &&& forall|j: int|
                    0 <= j < members.len() && old(d).finished@[j] ==> #[trigger] final(d).finished@[j]
            },
            Err(e) => resolution_failure(member_names(members@), *cfg, e),
        },
        stack.len() == 0 && deps_of(*cfg, member_names(members@)[i as int]).len() == 0 ==> r is Ok
            && final(d).order@ == if old(d).finished@[i as int] {
            old(d).order@
        } else {
            old(d).order@.push(i)
        },
    decreases members.len() - stack.len(),
{
    let ghost names = member_names(members@);
    let ghost n = names.len();
    if d.on_path[i] {
        proof {
            let s = stack.index_of(i as int);
            let p = stack.subrange(s, stack.len() as int).push(i as int);
            assert(is_dep_path(names, *cfg, p)) by {
                assert forall|k: int| 0 <= k < p.len() - 1 implies #[trigger] depends_on(names, *cfg, p[k], p[k + 1]) by {
                    if k < p.len() - 2 {
                        assert(p[k] == stack[s + k]);
                        assert(p[k + 1] == stack[s + k + 1]);
                    } else {
                        assert(p[k] == stack.last());
                    }
                }
            }
            assert(names[i as int] == members@[i as int].name@);
        }
        return Err(ForgeError::DependencyCycle(members[i].name.clone()));
    }
    if d.finished[i] {
        proof {
            assert(d.order@.take(old(d).order@.len() as int) =~= old(d).order@);
        }
        return Ok(());
    }
    let ghost stack2 = stack.push(i as int);
    proof {
        assert(!stack.contains(i as int));
        assert(stack2.no_duplicates()) by {
            assert forall|a: int, b: int| 0 <= a < stack2.len() && 0 <= b < stack2.len() && a != b implies stack2[a]
                != stack2[b] by {
                if a < stack.len() && b < stack.len() {
                    assert(stack2[a] == stack[a] && stack2[b] == stack[b]);
                } else if a < stack.len() {
                    assert(stack2[a] == stack[a]);
                } else if b < stack.len() {
                    assert(stack2[b] == stack[b]);
                }
            }
        }
        assert forall|k: int| 0 <= k < stack2.len() implies 0 <= #[trigger] stack2[k] < n by {
            if k < stack.len() {
                assert(stack2[k] == stack[k]);
            }
        }
        lemma_bounded_distinct_len(stack2, n as int);
    }
    d.on_path.set(i, true);
    let ghost start = d.order@;
    proof {
        assert(dfs_inv(names, *cfg, *d, stack2)) by {
            assert forall|j: int| 0 <= j < n implies (#[trigger] d.on_path@[j] <==> stack2.contains(j)) by {
                if j == i {
                    assert(stack2[stack.len() as int] == j);
                } else {
                    if stack2.contains(j) {
                        let k = stack2.index_of(j);
                        assert(stack[k] == j);
                    }
                    if stack.contains(j) {
                        let k = stack.index_of(j);
                        assert(stack2[k] == j);
                    }
                }
            }
            assert forall|k: int| 0 <= k < stack2.len() - 1 implies #[trigger] depends_on(
                names,
                *cfg,
                stack2[k],
                stack2[k + 1],
            ) by {
                if k < stack.len() - 1 {
                    assert(stack2[k] == stack[k] && stack2[k + 1] == stack[k + 1]);
                } else {
                    assert(stack2[k] == stack.last());
                    assert(stack2[k + 1] == i as int);
                }
            }
            assert forall|j: int| 0 <= j < n implies !(#[trigger] d.finished@[j] && d.on_path@[j]) by {
                if j != i {
                    assert(d.on_path@[j] == old(d).on_path@[j]);
                }
            }
            assert(d.finished@.len() == n);
            assert(d.on_path@.len() == n);
            assert(stack2.no_duplicates());
            assert(forall|k: int| 0 <= k < stack2.len() ==> 0 <= #[trigger] stack2[k] < n);
            assert(forall|j: int| 0 <= j < n ==> (#[trigger] d.finished@[j] <==> order_ints(d.order@).contains(j)));
            assert(order_ints(d.order@).no_duplicates());
        }
    }
    let deps = declared_deps(cfg, members[i].name.as_str());
    match deps {
        Some(deps) => {
            let mut k: usize = 0;
            while k < deps.len()
                invariant
                    names == member_names(members@),
                    n == names.len(),
                    i < n,
                    strs(deps@) == deps_of(*cfg, names[i as int]),
                    k <= deps.len(),
                    dfs_inv(names, *cfg, *d, stack2),
                    stack2 == stack.push(i as int),
                    stack2.len() <= n,
                    n == members@.len(),
                    start.len() <= d.order@.len(),
                    d.order@.take(start.len() as int) == start,
                    forall|j: int| 0 <= j < n && old(d).finished@[j] ==> #[trigger] d.finished@[j],
                    strs(deps@).len() == 0 ==> d.order@ == start,
                    forall|e: int| 0 <= e < k ==> placed(names, d.order@, #[trigger] strs(deps@)[e]),
                decreases deps.len() - k,
            {
                let found = find_member(members, deps[k].as_str());
                match found {
                    None => {
                        proof {
                            assert(strs(deps@)[k as int] == deps@[k as int]@);
                            assert(!names.contains(deps@[k as int]@));
                        }
                        return Err(ForgeError::UnknownDependency(deps[k].clone()));
                    },
                    Some(j) => {
                        proof {
                            assert(strs(deps@)[k as int] == deps@[k as int]@);
                            assert(names[j as int] == deps@[k as int]@);
                            assert(stack2.last() == i);
                        }
                        let ghost before = d.order@;
                        let res = visit(members, cfg, d, j, Ghost(stack2));
                        match res {
                            Err(e) => {
                                return Err(e);
                            },
                            Ok(()) => {},
                        }
                        proof {
                            assert(order_ints(d.order@).contains(j as int));
                            let q = order_ints(d.order@).index_of(j as int);
                            assert(d.order@[q] as int == j as int);
                            assert(names[d.order@[q] as int] == strs(deps@)[k as int]);
                            assert forall|e: int| 0 <= e < k + 1 implies placed(names, d.order@, #[trigger] strs(deps@)[e]) by {
                                if e < k {
                                    assert(placed(names, before, strs(deps@)[e]));
                                    let q0 = choose|q0: int|
                                        0 <= q0 < before.len() && #[trigger] names[before[q0] as int] == strs(
                                            deps@,
                                        )[e];
                                    assert(d.order@.take(before.len() as int)[q0] == before[q0]);
                                    assert(names[d.order@[q0] as int] == strs(deps@)[e]);
                                }
                            }
                            assert(d.order@.take(start.len() as int) =~= start) by {
                                assert forall|x: int| 0 <= x < start.len() implies d.order@[x] == start[x] by {
                                    assert(d.order@.take(before.len() as int)[x] == before[x]);
                                    assert(before.take(start.len() as int)[x] == start[x]);
                                }
                            }
                        }
                    },
                }
                k = k + 1;
            }
        },
        None => {},
    }
    let ghost mid = d.order@;
    proof {
        assert(deps_of(*cfg, names[i as int]).len() == 0 ==> mid == old(d).order@);
        assert(stack2[stack.len() as int] == i as int);
        assert(d.on_path@[i as int]);
        assert(!d.finished@[i as int]);
        assert(!order_ints(mid).contains(i as int));
    }
    d.on_path.set(i, false);
    d.finished.set(i, true);
    d.order.push(i);
    proof {
        let order = order_ints(d.order@);
        let old_order = order_ints(mid);
        assert(order =~= old_order.push(i as int));
        assert forall|j: int| 0 <= j < n implies (#[trigger] d.on_path@[j] <==> stack.contains(j)) by {
            if j != i {
                assert(stack2.contains(j) ==> stack.contains(j)) by {
                    if stack2.contains(j) {
                        let k = stack2.index_of(j);
                        assert(stack[k] == j);
                    }
                }
                if stack.contains(j) {
                    let k = stack.index_of(j);
                    assert(stack2[k] == j);
                }
            } else {
                assert(stack2.no_duplicates());
                if stack.contains(j) {
                    let k = stack.index_of(j);
                    assert(stack2[k] == stack2[stack.len() as int]);
                }
            }
        }
        assert forall|j: int| 0 <= j < n implies (#[trigger] d.finished@[j] <==> order.contains(j)) by {
            if j != i {
                if order.contains(j) {
                    let k = order.index_of(j);
                    assert(old_order[k] == j);
                }
                if old_order.contains(j) {
                    let k = old_order.index_of(j);
                    assert(order[k] == j);
                }
            } else {
                assert(order[old_order.len() as int] == j);
            }
        }
        assert forall|p: int, e: int|
            0 <= p < order.len() && 0 <= e < deps_of(*cfg, names[order[p]]).len() implies #[trigger] placed_before(
            names,
            order,
            p,
            deps_of(*cfg, names[order[p]])[e],
        ) by {
            if p < old_order.len() {
                assert(order[p] == old_order[p]);
                assert(placed_before(names, old_order, p, deps_of(*cfg, names[old_order[p]])[e]));
                let q = choose|q: int| 0 <= q < p && #[trigger] names[old_order[q]] == deps_of(*cfg, names[old_order[p]])[e];
                assert(order[q] == old_order[q]);
            } else {
                match deps {
                    Some(deps) => {
                        assert(placed(names, mid, strs(deps@)[e]));
                        let q = choose|q: int|
                            0 <= q < mid.len() && #[trigger] names[mid[q] as int] == strs(deps@)[e];
                        assert(order[q] == mid[q] as int);
                        assert(order[p] == i as int);
                    },
                    None => {},
                }
            }
        }
        assert(d.order@.take(old(d).order@.len() as int) =~= old(d).order@) by {
            assert forall|x: int| 0 <= x < old(d).order@.len() implies d.order@[x] == old(d).order@[x] by {
                assert(mid.take(start.len() as int)[x] == start[x]);
            }
        }
        assert forall|j: int| 0 <= j < n && old(d).finished@[j] implies #[trigger] d.finished@[j] by {
            let old_ints = order_ints(old(d).order@);
            assert(old_ints.contains(j));
            let x = old_ints.index_of(j);
            assert(d.order@[x] == old(d).order@[x]);
            assert(order[x] == j);
        }
    }
    Ok(())
}

impl Workspace {
    /// The member names listed in `cfg` that are not excluded, in order.
    pub fn listed_members(cfg: &WorkspaceConfig) -> (r: Vec<String>)
        ensures
            strs(r@) == kept_members(strs(cfg.members@), strs(cfg.exclude@)),
    {
        let mut r: Vec<String> = Vec::new();
        let mut i: usize = 0;
        while i < cfg.members.len()
            invariant
                i <= cfg.members.len(),
                strs(r@) == kept_members(strs(cfg.members@).take(i as int), strs(cfg.exclude@)),
            decreases cfg.members.len() - i,
        {
            let ghost listed = strs(cfg.members@);
            proof {
                assert(listed.take(i + 1).drop_last() =~= listed.take(i as int));
                assert(listed.take(i + 1).last() == cfg.members@[i as int]@);
            }
            if !contains_text(&cfg.exclude, cfg.members[i].as_str()) {
                r.push(cfg.members[i].clone());
                assert(strs(r@) =~= kept_members(listed.take(i + 1), strs(cfg.exclude@)));
            }
            i = i + 1;
        }
        proof {
            assert(strs(cfg.members@).take(cfg.members.len() as int) =~= strs(cfg.members@));
        }
        r
    }

    /// Assembles the workspace rooted at `root_path`: a member named `root`
    /// for the root itself when its configuration names an artifact, then
    /// one member per listed, non-excluded name, in order, with the
    /// configuration loaded for it or, where none was found (`None`), the
    /// default one.
    pub fn new(root_path: &str, root_config: Config, member_configs: Vec<Option<Config>>) -> (r: Workspace)
        requires
            member_configs@.len() == kept_members(
                strs(root_config.workspace.members@),
                strs(root_config.workspace.exclude@),
            ).len(),
        ensures
            ({
                let listed = kept_members(
                    strs(root_config.workspace.members@),
                    strs(root_config.workspace.exclude@),
                );
                let off: int = if root_config.build.target@.len() > 0 {
                    1
                } else {
                    0
                };
                &&& r.root_path@ == root_path@
                &&& r.root_config == root_config
                &&& r.selected_profile is None
                &&& r.members@.len() == listed.len() + off
                &&& off == 1 ==> r.members@[0].name@ == "root"@ && r.members@[0].path@ == root_path@ && same_config(
                    r.members@[0].config,
                    root_config,
                )
                &&& forall|k: int|
                    0 <= k < r.members@.len() ==> (#[trigger] r.members@[k]).selected_profile is None
                        && r.members@[k].workspace_root@ == root_path@
                &&& forall|k: int|
                    0 <= k < listed.len() ==> {
                        let m = #[trigger] r.members@[k + off];
                        &&& m.name@ == listed[k]
                        &&& m.path@ == path_join(root_path@, listed[k])
                        &&& (member_configs@[k] matches Some(c) ==> m.config == c)
                        &&& (member_configs@[k] is None ==> is_default_config(m.config, listed[k]))
                    }
            }),
    {
        let listed = Workspace::listed_members(&root_config.workspace);
        let ghost listed_v = strs(listed@);
        let mut members: Vec<WorkspaceMember> = Vec::new();
        let has_root = root_config.build.target.unicode_len() > 0;
        if has_root {
            members.push(
                WorkspaceMember {
                    name: String::from_str("root"),
                    path: root_path.to_owned(),
                    config: root_config.duplicate(),
                    selected_profile: None,
                    workspace_root: root_path.to_owned(),
                },
            );
        }
        let ghost off: int = if has_root {
            1
        } else {
            0
        };
        let ghost configs = member_configs@;
        let mut rest = member_configs;
        let mut k: usize = 0;
        while k < listed.len()
            invariant
                k <= listed.len(),
                listed_v == strs(listed@),
                listed.len() == configs.len(),
                off == 0 || off == 1,
                off == 1 <==> has_root,
                rest@ == configs.skip(k as int),
                members@.len() == k + off,
                off == 1 ==> members@[0].name@ == "root"@ && members@[0].path@ == root_path@ && same_config(
                    members@[0].config,
                    root_config,
                ),
                forall|x: int|
                    0 <= x < members@.len() ==> (#[trigger] members@[x]).selected_profile is None
                        && members@[x].workspace_root@ == root_path@,
                forall|x: int|
                    0 <= x < k ==> {
                        let m = #[trigger] members@[x + off];
                        &&& m.name@ == listed_v[x]
                        &&& m.path@ == path_join(root_path@, listed_v[x])
                        &&& (configs[x] matches Some(c) ==> m.config == c)
                        &&& (configs[x] is None ==> is_default_config(m.config, listed_v[x]))
                    },
            decreases listed.len() - k,
        {
            let name = &listed[k];
            let loaded = rest.remove(0);
            proof {
                assert(loaded == configs[k as int]);
                assert(rest@ =~= configs.skip(k + 1));
                assert(listed_v[k as int] == name@);
            }
            let ghost prev = members@;
            let config = match loaded {
                Some(c) => c,
                None => Config::default_for_member(name.as_str()),
            };
            members.push(
                WorkspaceMember {
                    name: name.clone(),
                    path: join_path(root_path, name.as_str()),
                    config,
                    selected_profile: None,
                    workspace_root: root_path.to_owned(),
                },
            );
            proof {
                assert(members@[k + off].name@ == listed_v[k as int]);
                assert(prev.len() == k + off);
                assert(members@ == prev.push(members@[k + off]));
                assert forall|x: int| 0 <= x < k + 1 implies {
                    let m = #[trigger] members@[x + off];
                    &&& m.name@ == listed_v[x]
                    &&& m.path@ == path_join(root_path@, listed_v[x])
                    &&& (configs[x] matches Some(c) ==> m.config == c)
                    &&& (configs[x] is None ==> is_default_config(m.config, listed_v[x]))
                } by {
                    if x < k {
                        assert(members@[x + off] == prev[x + off]);
                    }
                }
            }
            k = k + 1;
        }
        Workspace { root_path: root_path.to_owned(), root_config, members, selected_profile: None }
    }

    /// Selects `profile` for the workspace and every member.
    pub fn set_profile(&mut self, profile: Option<String>)
        ensures
            final(self).selected_profile == profile,
            final(self).root_path == old(self).root_path,
            final(self).root_config == old(self).root_config,
            final(self).members@.len() == old(self).members@.len(),
            forall|k: int|
                0 <= k < old(self).members@.len() ==> #[trigger] final(self).members@[k] == (WorkspaceMember {
                    selected_profile: profile,
                    ..old(self).members@[k]
                }),
    {
        let mut updated: Vec<WorkspaceMember> = Vec::new();
        let ghost before = self.members@;
        let mut rest: Vec<WorkspaceMember> = Vec::new();
        std::mem::swap(&mut rest, &mut self.members);
        let total = rest.len();
        let mut k: usize = 0;
        while rest.len() > 0
            invariant
                total == before.len(),
                k <= before.len(),
                rest@ == before.skip(k as int),
                updated@.len() == k,
                forall|x: int|
                    0 <= x < k ==> #[trigger] updated@[x] == (WorkspaceMember {
                        selected_profile: profile,
                        ..before[x]
                    }),
            decreases rest.len(),
        {
            let mut m = rest.remove(0);
            proof {
                assert(m == before[k as int]);
                assert(rest@ =~= before.skip(k + 1));
            }
            m.selected_profile = clone_opt(&profile);
            updated.push(m);
            k = k + 1;
        }
        self.members = updated;
        self.selected_profile = profile;
    }

    /// The members named in `filter`, in member order; every member when the
    /// filter is empty.
    pub fn filter_members(&self, filter: &Vec<String>) -> (r: Vec<&WorkspaceMember>)
        ensures
            derefs(r@) == selected(self.members@, strs(filter@)),
    {
        let mut r: Vec<&WorkspaceMember> = Vec::new();
        let all = filter.len() == 0;
        let mut i: usize = 0;
        while i < self.members.len()
            invariant
                i <= self.members.len(),
                all == (filter@.len() == 0),
                derefs(r@) == selected(self.members@.take(i as int), strs(filter@)),
            decreases self.members.len() - i,
        {
            proof {
                assert(self.members@.take(i + 1).drop_last() =~= self.members@.take(i as int));
            }
            if all || contains_text(filter, self.members[i].name.as_str()) {
                r.push(&self.members[i]);
                assert(derefs(r@) =~= selected(self.members@.take(i + 1), strs(filter@)));
            } else {
                assert(derefs(r@) =~= selected(self.members@.take(i + 1), strs(filter@)));
            }
            i = i + 1;
        }
        proof {
            assert(self.members@.take(self.members.len() as int) =~= self.members@);
        }
        r
    }

    /// The members in an order where each follows everything it depends on,
    /// found depth-first from each member in turn; or the failure met first:
    /// a member on a dependency cycle, or a dependency naming no member.
    pub fn get_build_order(&self) -> (r: Result<Vec<&WorkspaceMember>, ForgeError>)
        ensures
            match r {
                Ok(v) => exists|order: Seq<int>|
                    {
                        &&& is_build_order(member_names(self.members@), self.root_config.workspace, order)
                        &&& #[trigger] order.len() == v@.len()
                        &&& forall|k: int| 0 <= k < v@.len() ==> *v@[k] == self.members@[order[k]]
                    },
                Err(e) => resolution_failure(member_names(self.members@), self.root_config.workspace, e),
            },
            no_dependencies(member_names(self.members@), self.root_config.workspace) ==> (r matches Ok(v)
                && v@.len() == self.members@.len() && forall|k: int|
                0 <= k < v@.len() ==> *v@[k] == self.members@[k]),
    {
        let n = self.members.len();
        let ghost names = member_names(self.members@);
        let cfg = &self.root_config.workspace;
        let mut d = Dfs { finished: vec![false; n], on_path: vec![false; n], order: Vec::new() };
        proof {
            assert(order_ints(d.order@) =~= Seq::<int>::empty());
            assert(dfs_inv(names, *cfg, d, Seq::<int>::empty()));
        }
        let mut i: usize = 0;
        while i < n
            invariant
                n == self.members.len(),
                names == member_names(self.members@),
                cfg == &self.root_config.workspace,
                i <= n,
                dfs_inv(names, *cfg, d, Seq::<int>::empty()),
                forall|j: int| 0 <= j < i ==> #[trigger] d.finished@[j],
                no_dependencies(names, *cfg) ==> order_ints(d.order@) == Seq::new(i as nat, |k: int| k),
            decreases n - i,
        {
            proof {
                if no_dependencies(names, *cfg) {
                    assert(deps_of(*cfg, names[i as int]).len() == 0);
                    if d.finished@[i as int] {
                        assert(order_ints(d.order@).contains(i as int));
                        let x = order_ints(d.order@).index_of(i as int);
                        assert(order_ints(d.order@)[x] == x);
                    }
                }
            }
            let ghost before = d.order@;
            if !d.finished[i] {
                let res = visit(&self.members, cfg, &mut d, i, Ghost(Seq::<int>::empty()));
                match res {
                    Err(e) => {
                        return Err(e);
                    },
                    Ok(()) => {},
                }
                proof {
                    if no_dependencies(names, *cfg) {
                        assert(d.order@ == before.push(i));
                        assert forall|k: int| 0 <= k < i + 1 implies order_ints(d.order@)[k] == k by {
                            if k < i {
                                assert(order_ints(before)[k] == k);
                                assert(d.order@[k] == before[k]);
                            }
                        }
                        assert(order_ints(d.order@) =~= Seq::new((i + 1) as nat, |k: int| k));
                    }
                }
            }
            i = i + 1;
        }
        let ghost order = order_ints(d.order@);
        proof {
            assert forall|j: int| 0 <= j < names.len() implies #[trigger] order.contains(j) by {
                assert(d.finished@[j]);
            }
            assert(is_build_order(names, *cfg, order));
        }
        let mut v: Vec<&WorkspaceMember> = Vec::new();
        let mut k: usize = 0;
        while k < d.order.len()
            invariant
                k <= d.order.len(),
                order == order_ints(d.order@),
                is_build_order(names, *cfg, order),
                names == member_names(self.members@),
                forall|x: int| 0 <= x < order.len() ==> 0 <= #[trigger] order[x] < self.members@.len(),
                v@.len() == k,
                forall|x: int| 0 <= x < k ==> *v@[x] == self.members@[order[x]],
            decreases d.order.len() - k,
        {
            proof {
                assert(order[k as int] == d.order@[k as int] as int);
            }
            v.push(&self.members[d.order[k]]);
            k = k + 1;
        }
        proof {
            assert(order.len() == v@.len());
            if no_dependencies(names, *cfg) {
                assert(order =~= Seq::new(n as nat, |k: int| k));
                assert forall|k: int| 0 <= k < v@.len() implies *v@[k] == self.members@[k] by {
                    assert(order[k] == k);
                }
            }
        }
        Ok(v)
    }
}

/// A build order exists only without dependency cycles: when member names
/// are distinct and some order places every member after its dependencies,
/// no member depends on itself through any chain.
pub proof fn lemma_build_order_is_acyclic(names: Seq<Seq<char>>, cfg: WorkspaceConfig, order: Seq<int>, i: int)
    requires
        names.no_duplicates(),
        is_build_order(names, cfg, order),
        0 <= i < names.len(),
    ensures
        !on_cycle(names, cfg, i),
{
    if on_cycle(names, cfg, i) {
        let p = choose|p: Seq<int>| #[trigger] is_dep_path(names, cfg, p) && p.len() >= 2 && p[0] == i && p.last() == i;
        // Along the path, positions in the order strictly decrease.
        assert forall|k: int| 0 <= k < p.len() - 1 implies order.index_of(p[k + 1]) < order.index_of(
            #[trigger] p[k],
        ) by {
            assert(depends_on(names, cfg, p[k], p[k + 1]));
            lemma_dependency_placed_before(names, cfg, order, p[k], p[k + 1]);
        }
        lemma_decreasing_chain(p, order);
    }
}

/// In a build order of members with distinct names, a member that `a`
/// depends on stands before `a`.
pub proof fn lemma_dependency_placed_before(names: Seq<Seq<char>>, cfg: WorkspaceConfig, order: Seq<int>, a: int, b: int)
    requires
        names.no_duplicates(),
        is_build_order(names, cfg, order),
        depends_on(names, cfg, a, b),
    ensures
        order.contains(a),
        order.contains(b),
        order.index_of(b) < order.index_of(a),
{
    assert(order.contains(a));
    assert(order.contains(b));
    let pa = order.index_of(a);
    let ds = deps_of(cfg, names[a]);
    let e = ds.index_of(names[b]);
    assert(names[order[pa]] == names[a]);
    assert(0 <= e < deps_of(cfg, names[order[pa]]).len());
    assert(ds[e] == names[b]);
    assert(placed_before(names, order, pa, deps_of(cfg, names[order[pa]])[e]));
    let q = choose|q: int| 0 <= q < pa && #[trigger] names[order[q]] == deps_of(cfg, names[order[pa]])[e];
    assert(names[order[q]] == names[b]);
    assert(0 <= order[q] < names.len());
    assert(order[q] == b);
    assert(order.index_of(b) == q) by {
        let qb = order.index_of(b);
        assert(order[qb] == b);
    }
}

proof fn lemma_decreasing_chain(p: Seq<int>, order: Seq<int>)
    requires
        p.len() >= 2,
        forall|k: int| 0 <= k < p.len() - 1 ==> order.index_of(p[k + 1]) < order.index_of(#[trigger] p[k]),
    ensures
        order.index_of(p.last()) < order.index_of(p[0]),
    decreases p.len(),
{
    if p.len() > 2 {
        let q = p.drop_last();
        assert forall|k: int| 0 <= k < q.len() - 1 implies order.index_of(q[k + 1]) < order.index_of(#[trigger] q[k]) by {
            assert(q[k] == p[k] && q[k + 1] == p[k + 1]);
        }
        lemma_decreasing_chain(q, order);
        assert(order.index_of(p[p.len() - 1]) < order.index_of(p[p.len() - 2]));
    } else {
        assert(order.index_of(p[1]) < order.index_of(p[0]));
    }
}

/// The member's header directories, each joined to the member's root.
pub open spec fn include_dirs_of(m: WorkspaceMember) -> Seq<Seq<char>> {
    Seq::new(m.config.paths.include_dirs@.len(), |k: int| path_join(m.path@, m.config.paths.include_dirs@[k]@))
}

/// Where a member's artifact goes: its build directory, then its cross
/// target when it has one, then its profile, then the artifact name.
pub open spec fn target_path_of(m: WorkspaceMember) -> Seq<char> {
    let build_dir = path_join(path_join(m.workspace_root@, m.config.paths.build@), m.name@);
    path_join(
        path_join(
            match m.config.cross {
                Some(c) => path_join(build_dir, c.target@),
                None => build_dir,
            },
            match m.selected_profile {
                Some(p) => p@,
                None => m.config.build.default_profile@,
            },
        ),
        m.config.build.target@,
    )
}

impl WorkspaceMember {
    /// The member's source directory.
    pub fn get_source_dir(&self) -> (r: String)
        ensures
            r@ == path_join(self.path@, self.config.paths.src@),
    {
        join_path(self.path.as_str(), self.config.paths.src.as_str())
    }

    /// The member's header directories, each under the member's root.
    pub fn get_include_dirs(&self) -> (r: Vec<String>)
        ensures
            strs(r@) == include_dirs_of(*self),
            r@.len() == self.config.paths.include_dirs@.len(),
            forall|k: int|
                0 <= k < r@.len() ==> #[trigger] r@[k]@ == path_join(
                    self.path@,
                    self.config.paths.include_dirs@[k]@,
                ),
    {
        let dirs = &self.config.paths.include_dirs;
        let mut r: Vec<String> = Vec::new();
        let mut i: usize = 0;
        while i < dirs.len()
            invariant
                i <= dirs.len(),
                dirs == &self.config.paths.include_dirs,
                r@.len() == i,
                forall|k: int| 0 <= k < i ==> #[trigger] r@[k]@ == path_join(self.path@, dirs@[k]@),
            decreases dirs.len() - i,
        {
            r.push(join_path(self.path.as_str(), dirs[i].as_str()));
            i = i + 1;
        }
        assert(strs(r@) =~= include_dirs_of(*self));
        r
    }

    /// The member's build directory: the workspace's build location, then the
    /// member's name.
    pub fn get_build_dir(&self) -> (r: String)
        ensures
            r@ == path_join(path_join(self.workspace_root@, self.config.paths.build@), self.name@),
    {
        let base = join_path(self.workspace_root.as_str(), self.config.paths.build.as_str());
        join_path(base.as_str(), self.name.as_str())
    }

    /// The profile this member builds with: the selected one, else its
    /// configured default.
    pub fn profile_name(&self) -> (r: &str)
        ensures
            r@ == match self.selected_profile {
                Some(p) => p@,
                None => self.config.build.default_profile@,
            },
    {
        match &self.selected_profile {
            Some(p) => p.as_str(),
            None => self.config.build.default_profile.as_str(),
        }
    }

    /// Where the member's artifact goes: the build directory, then the cross
    /// target when there is one, then the profile, then the artifact name.
    pub fn get_target_path(&self) -> (r: String)
        ensures
            r@ == target_path_of(*self),
    {
        let mut path = self.get_build_dir();
        match &self.config.cross {
            Some(c) => {
                path = join_path(path.as_str(), c.target.as_str());
            },
            None => {},
        }
        let path = join_path(path.as_str(), self.profile_name());
        join_path(path.as_str(), self.config.build.target.as_str())
    }
}

} // verus!
