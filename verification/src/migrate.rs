//! The migration engine: an ordered, persisted, dependency-checked runner
//! of idempotent steps. The engine owns the decisions — which step to
//! attempt, whether a failed dependency blocks it, how the cursor and the
//! failed set change — while the caller performs each step's effects and
//! reports the outcome, and writes the state the engine hands out after
//! every change. The cursor is advanced *before* a step runs, so a crash
//! mid-step parks the step in the failed set instead of re-running it
//! blindly.

use vstd::prelude::*;
use vstd::string::*;

use crate::errors::Error;
use crate::text::str_eq;

verus! {

/// One migration: its name and the names it depends on.
#[derive(Debug, Clone, PartialEq, Eq)]
pub struct Migration {
    pub name: String,
    pub dependencies: Vec<String>,
}

impl Migration {
    /// A migration with no dependencies.
    pub fn new(name: String) -> (r: Self)
        ensures
            r.name == name,
            r.dependencies@.len() == 0,
    {
        Migration { name, dependencies: Vec::new() }
    }

    /// A migration with dependencies.
    pub fn new_with_dependencies(name: String, dependencies: Vec<String>) -> (r: Self)
        ensures
            r.name == name,
            r.dependencies == dependencies,
    {
        Migration { name, dependencies }
    }
}

/// Whether a name list holds `n`.
pub open spec fn name_has(fs: Seq<String>, n: Seq<char>) -> bool {
    exists|i: int| 0 <= i < fs.len() && (#[trigger] fs[i])@ == n
}

/// Whether any migration of the list bears the name `n`.
pub open spec fn is_migration_name(ms: Seq<Migration>, n: Seq<char>) -> bool {
    exists|k: int| 0 <= k < ms.len() && (#[trigger] ms[k]).name@ == n
}

/// A name set `d` covers the migration at `root`: it holds the root's
/// direct dependencies and is closed under expansion — whenever it holds
/// the name of a migration, it holds that migration's dependencies too.
pub open spec fn dep_cover(ms: Seq<Migration>, root: int, d: Seq<String>) -> bool {
    &&& (forall|j: int|
        0 <= j < ms[root].dependencies@.len() ==> name_has(
            d,
            (#[trigger] ms[root].dependencies@[j])@,
        ))
    &&& (forall|k: int, j: int|
        0 <= k < ms.len() && name_has(d, ms[k].name@) && 0 <= j < ms[k].dependencies@.len()
            ==> name_has(d, (#[trigger] ms[k].dependencies@[j])@))
}

/// One dependency edge: some migration named `from` depends on `to`.
pub open spec fn dep_step(ms: Seq<Migration>, from: Seq<char>, to: Seq<char>) -> bool {
    exists|k: int, j: int|
        0 <= k < ms.len() && (#[trigger] ms[k]).name@ == from && 0 <= j
            < ms[k].dependencies@.len() && (#[trigger] ms[k].dependencies@[j])@ == to
}

/// A dependency path out of the migration at `root`: its first name is a
/// direct dependency of the root, and each later name is a dependency of
/// some migration bearing the previous name.
pub open spec fn dep_path_ok(ms: Seq<Migration>, root: int, path: Seq<Seq<char>>) -> bool {
    &&& path.len() > 0
    &&& (exists|j: int|
        0 <= j < ms[root].dependencies@.len() && (#[trigger] ms[root].dependencies@[j])@ == path[0])
    &&& (forall|i: int| 0 <= i < path.len() - 1 ==> #[trigger] dep_step(ms, path[i], path[i + 1]))
}

/// The name `n` ends some dependency path out of the migration at `root`:
/// it belongs to the root's transitive dependency closure.
pub open spec fn dep_reaches(ms: Seq<Migration>, root: int, n: Seq<char>) -> bool {
    exists|p: Seq<Seq<char>>| #[trigger] dep_path_ok(ms, root, p) && p[p.len() - 1] == n
}

/// A direct dependency of the root ends a one-step path.
proof fn lemma_reach_direct(ms: Seq<Migration>, root: int, j: int)
    requires
        0 <= root < ms.len(),
        0 <= j < ms[root].dependencies@.len(),
    ensures
        dep_reaches(ms, root, (ms[root].dependencies@[j])@),
{
    let p = seq![(ms[root].dependencies@[j])@];
    assert(p[0] == (ms[root].dependencies@[j])@);
    assert(dep_path_ok(ms, root, p));
}

/// A path extends along any dependency edge out of its last name.
proof fn lemma_reach_step(ms: Seq<Migration>, root: int, from: Seq<char>, to: Seq<char>)
    requires
        0 <= root < ms.len(),
        dep_reaches(ms, root, from),
        dep_step(ms, from, to),
    ensures
        dep_reaches(ms, root, to),
{
    let p = choose|p: Seq<Seq<char>>| #[trigger] dep_path_ok(ms, root, p) && p[p.len() - 1] == from;
    let q = p.push(to);
    assert(q[0] == p[0]);
    assert forall|i: int| 0 <= i < q.len() - 1 implies #[trigger] dep_step(ms, q[i], q[i + 1]) by {
        if i < p.len() - 1 {
            assert(dep_step(ms, p[i], p[i + 1]));
            assert(q[i] == p[i]);
            assert(q[i + 1] == p[i + 1]);
        } else {
            assert(q[i] == from);
            assert(q[i + 1] == to);
        }
    }
    assert(dep_path_ok(ms, root, q));
    assert(q[q.len() - 1] == to);
}

proof fn lemma_path_elem_in_cover(
    ms: Seq<Migration>,
    root: int,
    d: Seq<String>,
    path: Seq<Seq<char>>,
    i: int,
)
    requires
        0 <= root < ms.len(),
        dep_cover(ms, root, d),
        dep_path_ok(ms, root, path),
        0 <= i < path.len(),
    ensures
        name_has(d, path[i]),
    decreases i,
{
    if i == 0 {
        let j = choose|j: int|
            0 <= j < ms[root].dependencies@.len() && (#[trigger] ms[root].dependencies@[j])@
                == path[0];
        assert(name_has(d, (ms[root].dependencies@[j])@));
    } else {
        lemma_path_elem_in_cover(ms, root, d, path, i - 1);
        assert(dep_step(ms, path[i - 1], path[(i - 1) + 1]));
        assert(dep_step(ms, path[i - 1], path[i]));
        let (k, j) = choose|k: int, j: int|
            0 <= k < ms.len() && (#[trigger] ms[k]).name@ == path[i - 1] && 0 <= j
                < ms[k].dependencies@.len() && (#[trigger] ms[k].dependencies@[j])@ == path[i];
        assert(name_has(d, ms[k].name@));
        assert(name_has(d, (ms[k].dependencies@[j])@));
    }
}

/// Every name on every dependency path out of the root lies inside every
/// cover of the root; a cover disjoint from the failed set therefore
/// shields the whole transitive closure.
pub proof fn lemma_path_in_cover(
    ms: Seq<Migration>,
    root: int,
    d: Seq<String>,
    path: Seq<Seq<char>>,
)
    requires
        0 <= root < ms.len(),
        dep_cover(ms, root, d),
        dep_path_ok(ms, root, path),
    ensures
        forall|i: int| 0 <= i < path.len() ==> name_has(d, #[trigger] path[i]),
{
    assert forall|i: int| 0 <= i < path.len() implies name_has(d, #[trigger] path[i]) by {
        lemma_path_elem_in_cover(ms, root, d, path, i);
    }
}

/// No migration runs while one of its transitive dependencies is failed:
/// a cover of the root that avoids the failed set keeps every name on
/// every dependency path out of the failed set.
pub proof fn lemma_no_failed_dependency(
    ms: Seq<Migration>,
    root: int,
    d: Seq<String>,
    failed: Seq<String>,
    path: Seq<Seq<char>>,
)
    requires
        0 <= root < ms.len(),
        dep_cover(ms, root, d),
        forall|m: Seq<char>| name_has(d, m) ==> !#[trigger] name_has(failed, m),
        dep_path_ok(ms, root, path),
    ensures
        forall|i: int| 0 <= i < path.len() ==> !name_has(failed, #[trigger] path[i]),
{
    lemma_path_in_cover(ms, root, d, path);
}

/// The engine's persisted state: the cursor and the failed names.
#[derive(Debug, PartialEq, Eq)]
pub struct MigrationState {
    pub current_state: u64,
    pub failed_migrations: Vec<String>,
}

/// The observable content of a state: the cursor and the failed names.
pub open spec fn state_v(s: MigrationState) -> (u64, Seq<Seq<char>>) {
    (s.current_state, s.failed_migrations@.map_values(|x: String| x@))
}

impl MigrationState {
    /// A copy of this state.
    pub fn duplicate(&self) -> (r: Self)
        ensures
            r.current_state == self.current_state,
            r.failed_migrations@.len() == self.failed_migrations@.len(),
            forall|i: int|
                0 <= i < self.failed_migrations@.len() ==> (#[trigger] r.failed_migrations@[i])@
                    == self.failed_migrations@[i]@,
            state_v(r) == state_v(*self),
    {
        let mut failed: Vec<String> = Vec::new();
        let mut i: usize = 0;
        while i < self.failed_migrations.len()
            invariant
                i <= self.failed_migrations@.len(),
                failed@.len() == i,
                forall|j: int|
                    0 <= j < i ==> (#[trigger] failed@[j])@ == self.failed_migrations@[j]@,
            decreases self.failed_migrations@.len() - i,
        {
            failed.push(self.failed_migrations[i].clone());
            i = i + 1;
        }
        let r = MigrationState { current_state: self.current_state, failed_migrations: failed };
        proof {
            assert(state_v(r).1 =~= state_v(*self).1);
        }
        r
    }
}

impl Default for MigrationState {
    /// The initial state: cursor at zero, nothing failed.
    fn default() -> (r: Self)
        ensures
            r.current_state == 0u64,
            r.failed_migrations@.len() == 0,
    {
        MigrationState { current_state: 0, failed_migrations: Vec::new() }
    }
}

/// How many entries of a boolean sequence are still false.
pub open spec fn count_false(s: Seq<bool>) -> nat
    decreases s.len(),
{
    if s.len() == 0 {
        0
    } else {
        count_false(s.drop_last()) + (if s.last() {
            0nat
        } else {
            1nat
        })
    }
}

/// Whether a name list holds `n` — executable form.
fn contains_name(fs: &Vec<String>, n: &str) -> (r: bool)
    ensures
        r == name_has(fs@, n@),
{
    let mut i: usize = 0;
    while i < fs.len()
        invariant
            i <= fs@.len(),
            forall|j: int| 0 <= j < i ==> (#[trigger] fs@[j])@ != n@,
        decreases fs@.len() - i,
    {
        if str_eq(fs[i].as_str(), n) {
            return true;
        }
        i = i + 1;
    }
    false
}

/// Inserts a name into the failed set; reinsertion is a no-op.
fn failed_insert(fs: &mut Vec<String>, n: &str)
    ensures
        name_has(final(fs)@, n@),
        forall|m: Seq<char>|
            m != n@ ==> #[trigger] name_has(final(fs)@, m) == name_has(old(fs)@, m),
{
    if !contains_name(fs, n) {
        let ghost fs0 = fs@;
        fs.push(String::from_str(n));
        proof {
            assert((fs@[fs@.len() - 1])@ == n@);
            assert forall|m: Seq<char>| m != n@ implies #[trigger] name_has(fs@, m) == name_has(
                fs0,
                m,
            ) by {
                if name_has(fs0, m) {
                    let i = choose|i: int| 0 <= i < fs0.len() && (#[trigger] fs0[i])@ == m;
                    assert((fs@[i])@ == m);
                }
                if name_has(fs@, m) {
                    let i = choose|i: int| 0 <= i < fs@.len() && (#[trigger] fs@[i])@ == m;
                    assert(i < fs0.len());
                    assert((fs0[i])@ == m);
                }
            }
        }
    }
}

/// Removes a name from the failed set.
fn failed_remove(fs: &mut Vec<String>, n: &str)
    ensures
        !name_has(final(fs)@, n@),
        forall|m: Seq<char>|
            m != n@ ==> #[trigger] name_has(final(fs)@, m) == name_has(old(fs)@, m),
{
    let ghost fs0 = fs@;
    let mut kept: Vec<String> = Vec::new();
    while fs.len() > 0
        invariant
            !name_has(kept@, n@),
            forall|m: Seq<char>|
                m != n@ ==> #[trigger] name_has(fs0, m) == (name_has(fs@, m) || name_has(
                    kept@,
                    m,
                )),
        decreases fs@.len(),
    {
        let ghost before = fs@;
        let q = fs.pop().unwrap();
        proof {
            assert(before =~= fs@.push(q));
            assert forall|m: Seq<char>| #[trigger] name_has(before, m) == (name_has(fs@, m) || (q@
                == m)) by {
                if name_has(before, m) {
                    let i = choose|i: int| 0 <= i < before.len() && (#[trigger] before[i])@ == m;
                    if i < fs@.len() {
                        assert((fs@[i])@ == m);
                    }
                }
                if name_has(fs@, m) {
                    let i = choose|i: int| 0 <= i < fs@.len() && (#[trigger] fs@[i])@ == m;
                    assert((before[i])@ == m);
                }
                if q@ == m {
                    assert((before[before.len() - 1])@ == m);
                }
            }
        }
        if !str_eq(q.as_str(), n) {
            let ghost kept0 = kept@;
            kept.insert(0, q);
            proof {
                assert(kept@ =~= seq![q] + kept0);
                assert forall|m: Seq<char>| #[trigger] name_has(kept@, m) == (name_has(kept0, m)
                    || (q@ == m)) by {
                    if name_has(kept0, m) {
                        let i = choose|i: int| 0 <= i < kept0.len() && (#[trigger] kept0[i])@ == m;
                        assert((kept@[i + 1])@ == m);
                    }
                    if name_has(kept@, m) {
                        let i = choose|i: int| 0 <= i < kept@.len() && (#[trigger] kept@[i])@ == m;
                        if i > 0 {
                            assert((kept0[i - 1])@ == m);
                        }
                    }
                    if q@ == m {
                        assert((kept@[0])@ == m);
                    }
                }
            }
        }
    }
    *fs = kept;
    proof {
        assert(fs@.len() == kept@.len());
    }
}

/// What the engine decided for one call of `execute_begin`.
#[derive(Debug, PartialEq, Eq)]
pub enum StepDecision {
    /// Run the migration at this index and report the outcome.
    Run(usize),
    /// A (transitive) dependency already failed; the step was marked
    /// failed without running.
    DependencyFailed(usize),
}

/// The migration engine.
pub struct Migrator {
    pub state: MigrationState,
    pub migrations: Vec<Migration>,
    /// The model of what the state file on disk holds.
    pub persisted: Ghost<(u64, Seq<Seq<char>>)>,
}

impl Migrator {
    /// An engine over the given migrations, resuming from the state the
    /// caller read back from disk (or the default). The state is taken as
    /// it comes: every operation keeps the failed set within the
    /// migration names, but only from an initial state that already is.
    pub fn new_with_root(migrations: Vec<Migration>, state: MigrationState) -> (r: Self)
        ensures
            r.migrations == migrations,
            r.state == state,
            r.persisted@ == state_v(state),
    {
        let ghost pv = state_v(state);
        Migrator { state, migrations, persisted: Ghost(pv) }
    }

    /// Whether any migration beyond the cursor remains.
    pub fn more_migrations(&self) -> (r: bool)
        ensures
            r == ((self.state.current_state as int) < self.migrations@.len()),
    {
        self.state.current_state < (self.migrations.len() as u64)
    }

    /// A copy of the state for the caller to write to disk; the on-disk
    /// model then equals the in-memory state.
    pub fn persist_state(&mut self) -> (r: MigrationState)
        ensures
            final(self).state == old(self).state,
            final(self).migrations == old(self).migrations,
            final(self).persisted@ == state_v(final(self).state),
            state_v(r) == state_v(final(self).state),
    {
        let r = self.state.duplicate();
        proof {
            self.persisted@ = state_v(self.state);
        }
        r
    }

    /// The transitive dependency closure of the migration at `index`:
    /// its direct dependencies, closed under expansion through every
    /// migration whose name appears; every name of it ends a dependency
    /// path out of the root.
    pub fn migration_dependencies(&self, index: usize) -> (r: Vec<String>)
        requires
            index < self.migrations@.len(),
        ensures
            dep_cover(self.migrations@, index as int, r@),
            forall|i: int|
                0 <= i < r@.len() ==> dep_reaches(
                    self.migrations@,
                    index as int,
                    (#[trigger] r@[i])@,
                ),
    {
        let ghost ms = self.migrations@;
        let n = self.migrations.len();
        let mut out: Vec<String> = Vec::new();
        let mut visited: Vec<bool> = Vec::new();
        let mut i: usize = 0;
        while i < n
            invariant
                i <= n,
                visited@.len() == i,
                forall|k: int| 0 <= k < i ==> !(#[trigger] visited@[k]),
            decreases n - i,
        {
            visited.push(false);
            i = i + 1;
        }
        proof {
            lemma_count_false_all(visited@);
        }
        let mut stack: Vec<usize> = Vec::new();
        stack.push(index);
        proof {
            assert(stack@[0] == index);
        }
        let mut unvisited: usize = n;
        while stack.len() > 0
            invariant
                ms == self.migrations@,
                n == ms.len(),
                visited@.len() == n,
                unvisited <= n,
                index < n,
                // the count tracks how many indices are still unvisited
                unvisited == count_false(visited@),
                // stacked indices are in range
                forall|s: int| 0 <= s < stack@.len() ==> (#[trigger] stack@[s]) < n,
                // the root is visited or on the stack
                visited@[index as int] || (exists|s: int|
                    0 <= s < stack@.len() && (#[trigger] stack@[s]) == index),
                // a visited migration has all its dependencies in the set,
                // and its dependents pushed
                forall|k: int, j: int|
                    0 <= k < n && visited@[k] && 0 <= j < ms[k].dependencies@.len() ==> name_has(
                        out@,
                        (#[trigger] ms[k].dependencies@[j])@,
                    ),
                // a name in the set has all migrations of that name visited
                // or stacked
                forall|k: int|
                    0 <= k < n && name_has(out@, (#[trigger] ms[k]).name@) ==> visited@[k] || (
                    exists|s: int| 0 <= s < stack@.len() && (#[trigger] stack@[s]) == k),
                // a stacked index is the root or bears a reachable name
                forall|s: int|
                    0 <= s < stack@.len() ==> (#[trigger] stack@[s]) == index || dep_reaches(
                        ms,
                        index as int,
                        ms[stack@[s] as int].name@,
                    ),
                // every collected name ends a dependency path out of the root
                forall|i: int|
                    0 <= i < out@.len() ==> dep_reaches(ms, index as int, (#[trigger] out@[i])@),
            decreases unvisited, stack@.len(),
        {
            let ghost stack0 = stack@;
            let top = stack.pop().unwrap();
            proof {
                assert(stack0 =~= stack@.push(top));
                assert(stack0[stack0.len() - 1] == top);
                assert(top < n);
                if !visited@[index as int] && top != index {
                    let s = choose|s: int|
                        0 <= s < stack0.len() && (#[trigger] stack0[s]) == index;
                    assert(s < stack@.len());
                    assert(stack@[s] == index);
                }
                assert forall|k: int|
                    0 <= k < n && name_has(out@, (#[trigger] ms[k]).name@) && k != top implies
                    visited@[k] || (exists|s: int|
                    0 <= s < stack@.len() && (#[trigger] stack@[s]) == k) by {
                    if !visited@[k] {
                        let s = choose|s: int|
                            0 <= s < stack0.len() && (#[trigger] stack0[s]) == k;
                        assert(s < stack@.len());
                        assert(stack@[s] == k);
                    }
                }
                assert(top == index || dep_reaches(ms, index as int, ms[top as int].name@));
                assert forall|s: int| 0 <= s < stack@.len() implies (#[trigger] stack@[s]) == index
                    || dep_reaches(ms, index as int, ms[stack@[s] as int].name@) by {
                    assert(stack0[s] == stack@[s]);
                }
            }
            if !visited[top] {
                let ghost visited0 = visited@;
                let ghost unvisited0 = unvisited;
                proof {
                    lemma_count_false_set_true(visited@, top as int);
                }
                visited[top] = true;
                unvisited = unvisited - 1;
                let mut j: usize = 0;
                let ghost deps = self.migrations@[top as int].dependencies@;
                while j < self.migrations[top].dependencies.len()
                    invariant
                        ms == self.migrations@,
                        n == ms.len(),
                        top < n,
                        deps == ms[top as int].dependencies@,
                        j <= deps.len(),
                        visited@.len() == n,
                        visited@[top as int],
                        unvisited == count_false(visited@),
                        index < n,
                        forall|s: int| 0 <= s < stack@.len() ==> (#[trigger] stack@[s]) < n,
                        visited@[index as int] || (exists|s: int|
                            0 <= s < stack@.len() && (#[trigger] stack@[s]) == index),
                        // dependencies handled so far are in the set
                        forall|j2: int|
                            0 <= j2 < j ==> name_has(out@, (#[trigger] deps[j2])@),
                        // other visited migrations keep their guarantee
                        forall|k: int, j2: int|
                            0 <= k < n && visited@[k] && k != top && 0 <= j2
                                < ms[k].dependencies@.len() ==> name_has(
                                out@,
                                (#[trigger] ms[k].dependencies@[j2])@,
                            ),
                        forall|k: int|
                            0 <= k < n && name_has(out@, (#[trigger] ms[k]).name@) ==> visited@[k]
                                || (exists|s: int|
                                0 <= s < stack@.len() && (#[trigger] stack@[s]) == k),
                        top == index || dep_reaches(ms, index as int, ms[top as int].name@),
                        forall|s: int|
                            0 <= s < stack@.len() ==> (#[trigger] stack@[s]) == index
                                || dep_reaches(ms, index as int, ms[stack@[s] as int].name@),
                        forall|i2: int|
                            0 <= i2 < out@.len() ==> dep_reaches(
                                ms,
                                index as int,
                                (#[trigger] out@[i2])@,
                            ),
                    decreases deps.len() - j,
                {
                    let d = &self.migrations[top].dependencies[j];
                    proof {
                        if top == index {
                            lemma_reach_direct(ms, index as int, j as int);
                        } else {
                            assert(ms[top as int].name@ == ms[top as int].name@ && (ms[top
                                as int].dependencies@[j as int])@ == (deps[j as int])@);
                            assert(dep_step(ms, ms[top as int].name@, (deps[j as int])@));
                            lemma_reach_step(
                                ms,
                                index as int,
                                ms[top as int].name@,
                                (deps[j as int])@,
                            );
                        }
                        assert(dep_reaches(ms, index as int, d@));
                    }
                    if !contains_name(&out, d.as_str()) {
                        // queue every migration bearing this name, then add it
                        let mut k: usize = 0;
                        while k < n
                            invariant
                                ms == self.migrations@,
                                n == ms.len(),
                                k <= n,
                                top < n,
                                deps == ms[top as int].dependencies@,
                                j < deps.len(),
                                d@ == deps[j as int]@,
                                visited@.len() == n,
                                forall|s: int| 0 <= s < stack@.len() ==> (#[trigger] stack@[s]) < n,
                                visited@[index as int] || (exists|s: int|
                                    0 <= s < stack@.len() && (#[trigger] stack@[s]) == index),
                                forall|k2: int|
                                    0 <= k2 < n && name_has(out@, (#[trigger] ms[k2]).name@)
                                        ==> visited@[k2] || (exists|s: int|
                                        0 <= s < stack@.len() && (#[trigger] stack@[s]) == k2),
                                // migrations named like the new dependency,
                                // scanned so far, are stacked or visited
                                forall|k2: int|
                                    0 <= k2 < k && (#[trigger] ms[k2]).name@ == d@ ==> visited@[k2]
                                        || (exists|s: int|
                                        0 <= s < stack@.len() && (#[trigger] stack@[s]) == k2),
                                dep_reaches(ms, index as int, d@),
                                forall|s: int|
                                    0 <= s < stack@.len() ==> (#[trigger] stack@[s]) == index
                                        || dep_reaches(
                                        ms,
                                        index as int,
                                        ms[stack@[s] as int].name@,
                                    ),
                            decreases n - k,
                        {
                            if str_eq(self.migrations[k].name.as_str(), d.as_str()) {
                                let ghost stackb = stack@;
                                stack.push(k);
                                proof {
                                    assert(stack@[stack@.len() - 1] == k as usize);
                                    if !visited@[index as int] {
                                        let s = choose|s: int|
                                            0 <= s < stackb.len() && (#[trigger] stackb[s])
                                                == index;
                                        assert(stack@[s] == index);
                                    }
                                    assert forall|k2: int|
                                        0 <= k2 < n && name_has(out@, (#[trigger] ms[k2]).name@)
                                            implies visited@[k2] || (exists|s: int|
                                        0 <= s < stack@.len() && (#[trigger] stack@[s]) == k2) by {
                                        if !visited@[k2] {
                                            let s = choose|s: int|
                                                0 <= s < stackb.len() && (#[trigger] stackb[s])
                                                    == k2;
                                            assert(stack@[s] == k2);
                                        }
                                    }
                                    assert forall|k2: int|
                                        0 <= k2 < k + 1 && (#[trigger] ms[k2]).name@ == d@ implies
                                        visited@[k2] || (exists|s: int|
                                        0 <= s < stack@.len() && (#[trigger] stack@[s]) == k2) by {
                                        if k2 == k as int {
                                            assert(stack@[stack@.len() - 1] == k2);
                                        } else if !visited@[k2] {
                                            let s = choose|s: int|
                                                0 <= s < stackb.len() && (#[trigger] stackb[s])
                                                    == k2;
                                            assert(stack@[s] == k2);
                                        }
                                    }
                                    assert forall|s: int| 0 <= s < stack@.len() implies (
                                    #[trigger] stack@[s]) == index || dep_reaches(
                                        ms,
                                        index as int,
                                        ms[stack@[s] as int].name@,
                                    ) by {
                                        if s < stackb.len() {
                                            assert(stack@[s] == stackb[s]);
                                        } else {
                                            assert(stack@[s] == k as usize);
                                            assert(ms[k as int].name@ == d@);
                                        }
                                    }
                                }
                            }
                            k = k + 1;
                        }
                        let ghost out0 = out@;
                        out.push(String::from_str(d.as_str()));
                        proof {
                            assert((out@[out@.len() - 1])@ == d@);
                            assert forall|m: Seq<char>| #[trigger]
                                name_has(out@, m) == (name_has(out0, m) || m == d@) by {
                                if name_has(out0, m) {
                                    let i2 = choose|i2: int|
                                        0 <= i2 < out0.len() && (#[trigger] out0[i2])@ == m;
                                    assert((out@[i2])@ == m);
                                }
                                if name_has(out@, m) && m != d@ {
                                    let i2 = choose|i2: int|
                                        0 <= i2 < out@.len() && (#[trigger] out@[i2])@ == m;
                                    assert(i2 < out0.len());
                                    assert((out0[i2])@ == m);
                                }
                            }
                            assert forall|i2: int| 0 <= i2 < out@.len() implies dep_reaches(
                                ms,
                                index as int,
                                (#[trigger] out@[i2])@,
                            ) by {
                                if i2 < out0.len() {
                                    assert(out@[i2] == out0[i2]);
                                } else {
                                    assert((out@[i2])@ == d@);
                                }
                            }
                        }
                    }
                    j = j + 1;
                }
            }
        }
        proof {
            assert(visited@[index as int]);
            assert forall|k: int|
                0 <= k < n && name_has(out@, (#[trigger] ms[k]).name@) implies visited@[k] by {}
            assert(dep_cover(ms, index as int, out@));
        }
        out
    }
}

proof fn lemma_count_false_set_true(s0: Seq<bool>, at: int)
    requires
        0 <= at < s0.len(),
        !s0[at],
    ensures
        count_false(s0.update(at, true)) + 1 == count_false(s0),
    decreases s0.len(),
{
    let s1 = s0.update(at, true);
    if at == s0.len() - 1 {
        assert(s1.drop_last() =~= s0.drop_last());
        assert(s1.last());
        assert(!s0.last());
    } else {
        lemma_count_false_set_true(s0.drop_last(), at);
        assert(s1.drop_last() =~= s0.drop_last().update(at, true));
        assert(s1.last() == s0.last());
    }
}

proof fn lemma_count_false_all(s: Seq<bool>)
    requires
        forall|k: int| 0 <= k < s.len() ==> !(#[trigger] s[k]),
    ensures
        count_false(s) == s.len(),
    decreases s.len(),
{
    if s.len() > 0 {
        lemma_count_false_all(s.drop_last());
    }
}

/// Whether some name of `d` is in the failed set.
pub open spec fn cover_blocked(d: Seq<String>, failed: Seq<String>) -> bool {
    exists|i: int| 0 <= i < d.len() && name_has(failed, (#[trigger] d[i])@)
}

/// Whether some dependency path out of the migration at `root` ends in a
/// failed name: the root has a failed transitive dependency.
pub open spec fn blocked_by_failed(ms: Seq<Migration>, root: int, failed: Seq<String>) -> bool {
    exists|p: Seq<Seq<char>>| #[trigger] dep_path_ok(ms, root, p) && name_has(
        failed,
        p[p.len() - 1],
    )
}

/// Every failed name names some migration of the list.
pub open spec fn failed_within(ms: Seq<Migration>, failed: Seq<String>) -> bool {
    forall|m: Seq<char>| #[trigger] name_has(failed, m) ==> is_migration_name(ms, m)
}

/// Whether any name of `cover` appears in `failed`.
fn any_name_failed(cover: &Vec<String>, failed: &Vec<String>) -> (r: bool)
    ensures
        r == cover_blocked(cover@, failed@),
{
    let mut i: usize = 0;
    while i < cover.len()
        invariant
            i <= cover@.len(),
            forall|j: int| 0 <= j < i ==> !name_has(failed@, (#[trigger] cover@[j])@),
        decreases cover@.len() - i,
    {
        if contains_name(failed, cover[i].as_str()) {
            return true;
        }
        i = i + 1;
    }
    false
}

impl Migrator {
    /// Decides the next step: advances the cursor past the migration at
    /// the old cursor *before* anything runs, then either blocks it
    /// because one of its transitive dependencies already failed (marking
    /// it failed), or asks the caller to run it.
    pub fn execute_begin(&mut self) -> (r: Result<StepDecision, Error>)
        ensures
            final(self).migrations == old(self).migrations,
            final(self).persisted == old(self).persisted,
            failed_within(old(self).migrations@, old(self).state.failed_migrations@)
                ==> failed_within(final(self).migrations@, final(self).state.failed_migrations@),
            match r {
                Err(e) => e == Error::NoMoreMigrations && old(self).state.current_state as int
                    >= old(self).migrations@.len() && final(self).state == old(self).state,
                Ok(d) => ({
                    let ms = old(self).migrations@;
                    let i = old(self).state.current_state as int;
                    &&& i < ms.len()
                    &&& final(self).state.current_state == old(self).state.current_state + 1
                    &&& match d {
                        StepDecision::Run(idx) => {
                            &&& idx as int == i
                            &&& final(self).state.failed_migrations == old(
                                self,
                            ).state.failed_migrations
                            // the whole dependency closure is clear of
                            // failed names
                            &&& exists|c: Seq<String>|
                                #[trigger] dep_cover(ms, i, c) && !cover_blocked(
                                    c,
                                    old(self).state.failed_migrations@,
                                )
                        },
                        StepDecision::DependencyFailed(idx) => {
                            &&& idx as int == i
                            &&& name_has(final(self).state.failed_migrations@, ms[i].name@)
                            &&& forall|m: Seq<char>|
                                m != ms[i].name@ ==> #[trigger] name_has(
                                    final(self).state.failed_migrations@,
                                    m,
                                ) == name_has(old(self).state.failed_migrations@, m)
                            // a dependency path out of the migration ends
                            // in a name that had already failed
                            &&& blocked_by_failed(ms, i, old(self).state.failed_migrations@)
                        },
                    }
                }),
            },
    {
        if !self.more_migrations() {
            return Err(Error::NoMoreMigrations);
        }
        let n = self.migrations.len();
        proof {
            assert((self.state.current_state as int) < n as int);
        }
        let orig: usize = self.state.current_state as usize;
        self.state.current_state = self.state.current_state + 1;
        let cover = self.migration_dependencies(orig);
        let ghost failed0 = self.state.failed_migrations@;
        let blocked = any_name_failed(&cover, &self.state.failed_migrations);
        proof {
            assert(dep_cover(self.migrations@, orig as int, cover@));
        }
        if blocked {
            proof {
                assert(cover_blocked(cover@, failed0));
                let i0 = choose|i0: int|
                    0 <= i0 < cover@.len() && name_has(failed0, (#[trigger] cover@[i0])@);
                assert(dep_reaches(self.migrations@, orig as int, (cover@[i0])@));
                let p = choose|p: Seq<Seq<char>>|
                    #[trigger] dep_path_ok(self.migrations@, orig as int, p) && p[p.len() - 1] == (
                    cover@[i0])@;
                assert(dep_path_ok(self.migrations@, orig as int, p) && name_has(
                    failed0,
                    p[p.len() - 1],
                ));
                assert(blocked_by_failed(self.migrations@, orig as int, failed0));
            }
            let name = self.migrations[orig].name.clone();
            let ghost mname = self.migrations@[orig as int].name@;
            failed_insert(&mut self.state.failed_migrations, name.as_str());
            proof {
                if failed_within(self.migrations@, failed0) {
                    assert forall|m: Seq<char>| #[trigger] name_has(
                        self.state.failed_migrations@,
                        m,
                    ) implies is_migration_name(self.migrations@, m) by {
                        if m == mname {
                            assert((self.migrations@[orig as int]).name@ == m);
                        } else {
                            assert(name_has(failed0, m));
                        }
                    }
                }
            }
            Ok(StepDecision::DependencyFailed(orig))
        } else {
            proof {
                assert(!cover_blocked(cover@, failed0));
            }
            Ok(StepDecision::Run(orig))
        }
    }

    /// Records the outcome of a step the caller ran: success yields the
    /// index that ran; failure parks the migration's name in the failed
    /// set.
    pub fn execute_commit(&mut self, index: usize, success: bool) -> (r: Option<u64>)
        requires
            (index as int) < old(self).migrations@.len(),
        ensures
            final(self).migrations == old(self).migrations,
            final(self).persisted == old(self).persisted,
            final(self).state.current_state == old(self).state.current_state,
            failed_within(old(self).migrations@, old(self).state.failed_migrations@)
                ==> failed_within(final(self).migrations@, final(self).state.failed_migrations@),
            if success {
                r == Some(index as u64) && final(self).state.failed_migrations == old(
                    self,
                ).state.failed_migrations
            } else {
                r is None && name_has(
                    final(self).state.failed_migrations@,
                    old(self).migrations@[index as int].name@,
                ) && (forall|m: Seq<char>|
                    m != old(self).migrations@[index as int].name@ ==> #[trigger] name_has(
                        final(self).state.failed_migrations@,
                        m,
                    ) == name_has(old(self).state.failed_migrations@, m))
            },
    {
        if success {
            Some(index as u64)
        } else {
            let ghost failed0 = self.state.failed_migrations@;
            let name = self.migrations[index].name.clone();
            let ghost mname = self.migrations@[index as int].name@;
            failed_insert(&mut self.state.failed_migrations, name.as_str());
            proof {
                if failed_within(self.migrations@, failed0) {
                    assert forall|m: Seq<char>| #[trigger] name_has(
                        self.state.failed_migrations@,
                        m,
                    ) implies is_migration_name(self.migrations@, m) by {
                        if m == mname {
                            assert((self.migrations@[index as int]).name@ == m);
                        } else {
                            assert(name_has(failed0, m));
                        }
                    }
                }
            }
            None
        }
    }

    /// The indices of the migrations whose name is currently failed, in
    /// order: the candidates of a retry pass.
    pub fn retry_candidates(&self) -> (r: Vec<usize>)
        ensures
            forall|s: int|
                0 <= s < r@.len() ==> (#[trigger] r@[s]) < self.migrations@.len() && name_has(
                    self.state.failed_migrations@,
                    self.migrations@[r@[s] as int].name@,
                ),
            forall|k: int|
                0 <= k < self.migrations@.len() && name_has(
                    self.state.failed_migrations@,
                    (#[trigger] self.migrations@[k]).name@,
                ) ==> exists|s: int| 0 <= s < r@.len() && (#[trigger] r@[s]) == k,
    {
        let ghost ms = self.migrations@;
        let mut r: Vec<usize> = Vec::new();
        let mut k: usize = 0;
        while k < self.migrations.len()
            invariant
                ms == self.migrations@,
                k <= ms.len(),
                forall|s: int|
                    0 <= s < r@.len() ==> (#[trigger] r@[s]) < ms.len() && name_has(
                        self.state.failed_migrations@,
                        ms[r@[s] as int].name@,
                    ),
                forall|k2: int|
                    0 <= k2 < k && name_has(
                        self.state.failed_migrations@,
                        (#[trigger] ms[k2]).name@,
                    ) ==> exists|s: int| 0 <= s < r@.len() && (#[trigger] r@[s]) == k2,
            decreases ms.len() - k,
        {
            if contains_name(&self.state.failed_migrations, self.migrations[k].name.as_str()) {
                let ghost r0 = r@;
                r.push(k);
                proof {
                    assert(r@[r@.len() - 1] == k as usize);
                    assert forall|k2: int|
                        0 <= k2 < k + 1 && name_has(
                            self.state.failed_migrations@,
                            (#[trigger] ms[k2]).name@,
                        ) implies exists|s: int| 0 <= s < r@.len() && (#[trigger] r@[s]) == k2 by {
                        if k2 == k as int {
                            assert(r@[r@.len() - 1] == k2);
                        } else {
                            let s = choose|s: int| 0 <= s < r0.len() && (#[trigger] r0[s]) == k2;
                            assert(r@[s] == k2);
                        }
                    }
                }
            }
            k = k + 1;
        }
        r
    }

    /// Whether a failed migration may be retried now: true exactly when
    /// its dependency closure is clear of failed names.
    pub fn retry_begin(&self, index: usize) -> (r: bool)
        requires
            (index as int) < self.migrations@.len(),
        ensures
            r ==> exists|c: Seq<String>|
                #[trigger] dep_cover(self.migrations@, index as int, c) && !cover_blocked(
                    c,
                    self.state.failed_migrations@,
                ),
            !r ==> blocked_by_failed(
                self.migrations@,
                index as int,
                self.state.failed_migrations@,
            ),
    {
        let cover = self.migration_dependencies(index);
        let blocked = any_name_failed(&cover, &self.state.failed_migrations);
        proof {
            if blocked {
                let i0 = choose|i0: int|
                    0 <= i0 < cover@.len() && name_has(
                        self.state.failed_migrations@,
                        (#[trigger] cover@[i0])@,
                    );
                assert(dep_reaches(self.migrations@, index as int, (cover@[i0])@));
                let p = choose|p: Seq<Seq<char>>|
                    #[trigger] dep_path_ok(self.migrations@, index as int, p) && p[p.len() - 1] == (
                    cover@[i0])@;
                assert(dep_path_ok(self.migrations@, index as int, p) && name_has(
                    self.state.failed_migrations@,
                    p[p.len() - 1],
                ));
            }
        }
        !blocked
    }

    /// Records the outcome of a retried step: success clears its name
    /// from the failed set; failure keeps it.
    pub fn retry_commit(&mut self, index: usize, success: bool)
        requires
            (index as int) < old(self).migrations@.len(),
        ensures
            final(self).migrations == old(self).migrations,
            final(self).persisted == old(self).persisted,
            final(self).state.current_state == old(self).state.current_state,
            failed_within(old(self).migrations@, old(self).state.failed_migrations@)
                ==> failed_within(final(self).migrations@, final(self).state.failed_migrations@),
            if success {
                !name_has(
                    final(self).state.failed_migrations@,
                    old(self).migrations@[index as int].name@,
                ) && (forall|m: Seq<char>|
                    m != old(self).migrations@[index as int].name@ ==> #[trigger] name_has(
                        final(self).state.failed_migrations@,
                        m,
                    ) == name_has(old(self).state.failed_migrations@, m))
            } else {
                final(self).state.failed_migrations == old(self).state.failed_migrations
            },
    {
        if success {
            let ghost failed0 = self.state.failed_migrations@;
            let name = self.migrations[index].name.clone();
            let ghost mname = self.migrations@[index as int].name@;
            failed_remove(&mut self.state.failed_migrations, name.as_str());
            proof {
                if failed_within(self.migrations@, failed0) {
                    assert forall|m: Seq<char>| #[trigger] name_has(
                        self.state.failed_migrations@,
                        m,
                    ) implies is_migration_name(self.migrations@, m) by {
                        assert(m != mname);
                        assert(name_has(failed0, m));
                    }
                }
            }
        }
    }
}

/// The phase one migration step is in while its callables run.
#[derive(Debug, Clone, Copy, PartialEq, Eq)]
pub enum StepPhase {
    /// The optional pre-check.
    Check,
    /// The step's main work.
    Run,
    /// The optional post-check.
    PostCheck,
}

/// What to do once a phase has reported its outcome.
#[derive(Debug, Clone, Copy, PartialEq, Eq)]
pub enum StepAction {
    /// Perform this phase next.
    Proceed(StepPhase),
    /// The step is over, with this success.
    Done(bool),
}

/// The phase a step starts in: the pre-check when the migration has one,
/// else the main work.
pub fn step_start(has_check: bool) -> (r: StepPhase)
    ensures
        r == (if has_check {
            StepPhase::Check
        } else {
            StepPhase::Run
        }),
{
    if has_check {
        StepPhase::Check
    } else {
        StepPhase::Run
    }
}

/// The within-step ordering: a failed phase ends the step at once, so a
/// failed pre-check short-circuits the main work and a failed main work
/// short-circuits the post-check; a passed pre-check leads to the main
/// work; passed main work leads to the post-check when the migration has
/// one, else ends the step in success; a passed post-check ends the step
/// in success.
pub fn step_next(phase: StepPhase, ok: bool, has_post_check: bool) -> (r: StepAction)
    ensures
        !ok ==> r == StepAction::Done(false),
        ok && phase == StepPhase::Check ==> r == StepAction::Proceed(StepPhase::Run),
        ok && phase == StepPhase::Run && has_post_check ==> r == StepAction::Proceed(
            StepPhase::PostCheck,
        ),
        ok && phase == StepPhase::Run && !has_post_check ==> r == StepAction::Done(true),
        ok && phase == StepPhase::PostCheck ==> r == StepAction::Done(true),
{
    if !ok {
        return StepAction::Done(false);
    }
    match phase {
        StepPhase::Check => StepAction::Proceed(StepPhase::Run),
        StepPhase::Run => {
            if has_post_check {
                StepAction::Proceed(StepPhase::PostCheck)
            } else {
                StepAction::Done(true)
            }
        },
        StepPhase::PostCheck => StepAction::Done(true),
    }
}

} // verus!
