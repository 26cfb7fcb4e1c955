//! The on-disk package catalog, modelled as a value. `packages/` holds one
//! record per name and version, written atomically through a temporary
//! sibling and a rename; `installed/` holds zero-byte markers; the
//! variables and responses areas are the embedded sub-registries. Readers
//! only ever observe committed records: a write in progress sits in
//! `pending` and becomes visible all at once when it commits.

use vstd::prelude::*;
use vstd::string::*;

use crate::errors::Error;
use crate::globals::Global;
use crate::globals::GlobalRegistry;
use crate::globals::find_global;
use crate::package::PackageStatus;
use crate::package::PackageTitle;
use crate::package::SourcePackage;
use crate::prompt::ResponseRegistry;
use crate::text::lex_le;
use crate::text::lemma_lex_total;
use crate::text::str_eq;
use crate::text::str_lex_le;

verus! {

/// One committed record: the name and version it is stored under — its
/// path in the catalog — and the package description it holds. The
/// stored key and the content's own title need not agree; validation
/// checks that they do.
#[derive(Debug, Clone, PartialEq, Eq)]
pub struct StoredPackage {
    pub name: String,
    pub version: String,
    pub package: SourcePackage,
}

/// The package stored under a name and version, if any.
pub open spec fn find_pkg(ps: Seq<StoredPackage>, n: Seq<char>, v: Seq<char>) -> Option<
    SourcePackage,
>
    decreases ps.len(),
{
    if ps.len() == 0 {
        None
    } else if ps[0].name@ == n && ps[0].version@ == v {
        Some(ps[0].package)
    } else {
        find_pkg(ps.skip(1), n, v)
    }
}

/// Every record whose key is not `(n, v)`, in order.
pub open spec fn drop_pkg(ps: Seq<StoredPackage>, n: Seq<char>, v: Seq<char>) -> Seq<StoredPackage>
    decreases ps.len(),
{
    if ps.len() == 0 {
        Seq::empty()
    } else if ps[0].name@ == n && ps[0].version@ == v {
        drop_pkg(ps.skip(1), n, v)
    } else {
        seq![ps[0]] + drop_pkg(ps.skip(1), n, v)
    }
}

/// Every record whose name is not `n`, in order.
pub open spec fn drop_pkg_name(ps: Seq<StoredPackage>, n: Seq<char>) -> Seq<StoredPackage>
    decreases ps.len(),
{
    if ps.len() == 0 {
        Seq::empty()
    } else if ps[0].name@ == n {
        drop_pkg_name(ps.skip(1), n)
    } else {
        seq![ps[0]] + drop_pkg_name(ps.skip(1), n)
    }
}

/// Dropping a key changes only that key's lookup.
pub proof fn lemma_find_drop_pkg(
    ps: Seq<StoredPackage>,
    n: Seq<char>,
    v: Seq<char>,
    n2: Seq<char>,
    v2: Seq<char>,
)
    ensures
        find_pkg(drop_pkg(ps, n, v), n2, v2) == (if n2 == n && v2 == v {
            None::<SourcePackage>
        } else {
            find_pkg(ps, n2, v2)
        }),
    decreases ps.len(),
{
    if ps.len() > 0 {
        lemma_find_drop_pkg(ps.skip(1), n, v, n2, v2);
        if !(ps[0].name@ == n && ps[0].version@ == v) {
            let d = seq![ps[0]] + drop_pkg(ps.skip(1), n, v);
            assert(d[0] == ps[0]);
            assert(d.skip(1) =~= drop_pkg(ps.skip(1), n, v));
        }
    }
}

/// Dropping a name changes only that name's lookups.
pub proof fn lemma_find_drop_pkg_name(
    ps: Seq<StoredPackage>,
    n: Seq<char>,
    n2: Seq<char>,
    v2: Seq<char>,
)
    ensures
        find_pkg(drop_pkg_name(ps, n), n2, v2) == (if n2 == n {
            None::<SourcePackage>
        } else {
            find_pkg(ps, n2, v2)
        }),
    decreases ps.len(),
{
    if ps.len() > 0 {
        lemma_find_drop_pkg_name(ps.skip(1), n, n2, v2);
        if ps[0].name@ != n {
            let d = seq![ps[0]] + drop_pkg_name(ps.skip(1), n);
            assert(d[0] == ps[0]);
            assert(d.skip(1) =~= drop_pkg_name(ps.skip(1), n));
        }
    }
}

proof fn lemma_drop_pkg_push(s: Seq<StoredPackage>, x: StoredPackage, n: Seq<char>, v: Seq<char>)
    ensures
        drop_pkg(s.push(x), n, v) == drop_pkg(s, n, v) + (if x.name@ == n && x.version@ == v {
            Seq::<StoredPackage>::empty()
        } else {
            seq![x]
        }),
    decreases s.len(),
{
    if s.len() == 0 {
        assert(s.push(x)[0] == x);
        assert(s.push(x).skip(1) =~= s);
        if x.name@ == n && x.version@ == v {
            assert(drop_pkg(s, n, v) + Seq::<StoredPackage>::empty() =~= drop_pkg(s, n, v));
        } else {
            assert(seq![x] + drop_pkg(s, n, v) =~= drop_pkg(s, n, v) + seq![x]);
        }
    } else {
        assert(s.push(x)[0] == s[0]);
        assert(s.push(x).skip(1) =~= s.skip(1).push(x));
        lemma_drop_pkg_push(s.skip(1), x, n, v);
        if !(s[0].name@ == n && s[0].version@ == v) {
            if x.name@ == n && x.version@ == v {
                assert(drop_pkg(s.push(x), n, v) =~= drop_pkg(s, n, v) + Seq::<
                    StoredPackage,
                >::empty());
            } else {
                assert(drop_pkg(s.push(x), n, v) =~= drop_pkg(s, n, v) + seq![x]);
            }
        }
    }
}

proof fn lemma_drop_pkg_name_push(s: Seq<StoredPackage>, x: StoredPackage, n: Seq<char>)
    ensures
        drop_pkg_name(s.push(x), n) == drop_pkg_name(s, n) + (if x.name@ == n {
            Seq::<StoredPackage>::empty()
        } else {
            seq![x]
        }),
    decreases s.len(),
{
    if s.len() == 0 {
        assert(s.push(x)[0] == x);
        assert(s.push(x).skip(1) =~= s);
        if x.name@ == n {
            assert(drop_pkg_name(s, n) + Seq::<StoredPackage>::empty() =~= drop_pkg_name(s, n));
        } else {
            assert(seq![x] + drop_pkg_name(s, n) =~= drop_pkg_name(s, n) + seq![x]);
        }
    } else {
        assert(s.push(x)[0] == s[0]);
        assert(s.push(x).skip(1) =~= s.skip(1).push(x));
        lemma_drop_pkg_name_push(s.skip(1), x, n);
        if s[0].name@ != n {
            if x.name@ == n {
                assert(drop_pkg_name(s.push(x), n) =~= drop_pkg_name(s, n) + Seq::<
                    StoredPackage,
                >::empty());
            } else {
                assert(drop_pkg_name(s.push(x), n) =~= drop_pkg_name(s, n) + seq![x]);
            }
        }
    }
}

/// Whether an installed-marker list holds the key `(n, v)`.
pub open spec fn marker_has(ts: Seq<PackageTitle>, n: Seq<char>, v: Seq<char>) -> bool {
    exists|i: int| 0 <= i < ts.len() && (#[trigger] ts[i]).name@ == n && ts[i].version@ == v
}

/// A package is installable only through a chain of loadable packages:
/// it loads, its title matches the key it is stored under, its variables
/// exist, and, with one unit less fuel, so does every dependency.
pub open spec fn valid_spec(
    ps: Seq<StoredPackage>,
    gs: Seq<Global>,
    n: Seq<char>,
    v: Seq<char>,
    fuel: nat,
) -> bool
    decreases fuel,
{
    match find_pkg(ps, n, v) {
        Some(p) => {
            &&& p.title.name@ == n
            &&& p.title.version@ == v
            &&& find_global(gs, n) is Some
            &&& (match p.dependencies {
                Some(deps) => fuel > 0 && (forall|i: int|
                    0 <= i < deps@.len() ==> valid_spec(
                        ps,
                        gs,
                        (#[trigger] deps@[i]).name@,
                        deps@[i].version@,
                        (fuel - 1) as nat,
                    )),
                None => true,
            })
        },
        None => false,
    }
}

/// A validated key names a package whose stored title is exactly that
/// key, and whose host variables exist.
pub proof fn lemma_valid_title_consistent(
    ps: Seq<StoredPackage>,
    gs: Seq<Global>,
    n: Seq<char>,
    v: Seq<char>,
    fuel: nat,
)
    requires
        valid_spec(ps, gs, n, v, fuel),
    ensures
        find_pkg(ps, n, v) matches Some(p) && p.title.name@ == n && p.title.version@ == v,
        find_global(gs, n) is Some,
{
}

/// The on-disk registry: committed package records, one write at most in
/// flight, installed markers, and the variables and responses areas.
#[derive(Debug)]
pub struct Registry {
    pub root: String,
    pub packages: Vec<StoredPackage>,
    pub pending: Option<SourcePackage>,
    pub installed: Vec<PackageTitle>,
    pub globals: GlobalRegistry,
    pub responses: ResponseRegistry,
}

impl Registry {
    /// An empty registry rooted at the given path.
    pub fn new(root: String) -> (r: Self)
        ensures
            r.root@ == root@,
            r.packages@ == Seq::<StoredPackage>::empty(),
            r.pending is None,
            r.installed@ == Seq::<PackageTitle>::empty(),
            r.globals.entries@ == Seq::<Global>::empty(),
            r.responses.entries@.len() == 0,
    {
        let groot = String::from_str(root.as_str());
        let rroot = String::from_str(root.as_str());
        Registry {
            root,
            packages: Vec::new(),
            pending: None,
            installed: Vec::new(),
            globals: GlobalRegistry::new(groot),
            responses: ResponseRegistry::new(rroot),
        }
    }

    /// The registry's root path.
    pub fn path(&self) -> (r: String)
        ensures
            r@ == self.root@,
    {
        String::from_str(self.root.as_str())
    }

    /// The responses area of this registry.
    pub fn response_registry(&self) -> (r: &ResponseRegistry)
        ensures
            r == &self.responses,
    {
        &self.responses
    }

    /// The committed package stored under a key; the error says the key is
    /// absent. A reader never observes a write in progress.
    pub fn load(&self, name: &str, version: &str) -> (r: Result<&SourcePackage, Error>)
        ensures
            match r {
                Ok(p) => find_pkg(self.packages@, name@, version@) == Some(*p),
                Err(e) => find_pkg(self.packages@, name@, version@) is None && (e matches
                    Error::NotFound(n, v) && n@ == name@ && v@ == version@),
            },
    {
        let mut i: usize = 0;
        proof {
            assert(self.packages@.skip(0) =~= self.packages@);
        }
        while i < self.packages.len()
            invariant
                i <= self.packages@.len(),
                find_pkg(self.packages@, name@, version@) == find_pkg(
                    self.packages@.skip(i as int),
                    name@,
                    version@,
                ),
            decreases self.packages@.len() - i,
        {
            proof {
                assert(self.packages@.skip(i as int)[0] == self.packages@[i as int]);
                assert(self.packages@.skip(i as int).skip(1) =~= self.packages@.skip(i + 1));
            }
            if str_eq(self.packages[i].name.as_str(), name) && str_eq(
                self.packages[i].version.as_str(),
                version,
            ) {
                return Ok(&self.packages[i].package);
            }
            i = i + 1;
        }
        proof {
            assert(self.packages@.skip(i as int).len() == 0);
        }
        Err(Error::NotFound(String::from_str(name), String::from_str(version)))
    }

    /// Starts an atomic write: the record goes to the temporary sibling.
    /// Nothing a reader can observe changes.
    pub fn begin_write(&mut self, package: SourcePackage)
        ensures
            final(self).pending == Some(package),
            final(self).packages == old(self).packages,
            final(self).installed == old(self).installed,
            final(self).globals == old(self).globals,
            final(self).responses == old(self).responses,
            final(self).root == old(self).root,
    {
        self.pending = Some(package);
    }

    /// Completes an atomic write: the rename makes the pending record the
    /// committed one for its key, all at once; every other key reads as
    /// before.
    pub fn commit_write(&mut self)
        requires
            old(self).pending is Some,
        ensures
            ({
                let p = old(self).pending.unwrap();
                &&& final(self).pending is None
                &&& find_pkg(final(self).packages@, p.title.name@, p.title.version@) == Some(p)
                &&& forall|n2: Seq<char>, v2: Seq<char>|
                    !(n2 == p.title.name@ && v2 == p.title.version@) ==> #[trigger] find_pkg(
                        final(self).packages@,
                        n2,
                        v2,
                    ) == find_pkg(old(self).packages@, n2, v2)
                &&& final(self).installed == old(self).installed
                &&& final(self).globals == old(self).globals
                &&& final(self).responses == old(self).responses
                &&& final(self).root == old(self).root
            }),
    {
        let p = self.pending.take().unwrap();
        let ghost n = p.title.name@;
        let ghost v = p.title.version@;
        let ghost packages0 = self.packages@;
        let ghost root0 = self.root;
        let ghost installed0 = self.installed;
        let ghost globals0 = self.globals;
        let ghost responses0 = self.responses;
        let mut kept: Vec<StoredPackage> = Vec::new();
        while self.packages.len() > 0
            invariant
                self.root == root0,
                self.installed == installed0,
                self.globals == globals0,
                self.responses == responses0,
                self.pending is None,
                n == p.title.name@,
                v == p.title.version@,
                drop_pkg(packages0, n, v) == drop_pkg(self.packages@, n, v) + kept@,
            decreases self.packages@.len(),
        {
            let ghost before = self.packages@;
            let q = self.packages.pop().unwrap();
            proof {
                assert(before =~= self.packages@.push(q));
                lemma_drop_pkg_push(self.packages@, q, n, v);
            }
            if !(str_eq(q.name.as_str(), p.title.name.as_str()) && str_eq(
                q.version.as_str(),
                p.title.version.as_str(),
            )) {
                let ghost kept0 = kept@;
                kept.insert(0, q);
                proof {
                    assert(kept@ =~= seq![q] + kept0);
                    assert(drop_pkg(self.packages@, n, v) + seq![q] + kept0 =~= drop_pkg(
                        self.packages@,
                        n,
                        v,
                    ) + kept@);
                }
            }
        }
        proof {
            assert(drop_pkg(self.packages@, n, v) =~= Seq::<StoredPackage>::empty());
            assert(Seq::<StoredPackage>::empty() + kept@ =~= kept@);
        }
        self.packages = kept;
        let ghost dropped = self.packages@;
        let stored = StoredPackage {
            name: p.title.name.clone(),
            version: p.title.version.clone(),
            package: p,
        };
        self.packages.insert(0, stored);
        proof {
            assert(self.packages@[0].name@ == n && self.packages@[0].version@ == v);
            assert(self.packages@.skip(1) =~= dropped);
            assert forall|n2: Seq<char>, v2: Seq<char>|
                !(n2 == n && v2 == v) implies #[trigger] find_pkg(self.packages@, n2, v2)
                == find_pkg(packages0, n2, v2) by {
                lemma_find_drop_pkg(packages0, n, v, n2, v2);
            }
        }
    }

    /// Writes a package record: the serialized record goes to the
    /// temporary sibling, then the rename commits it.
    pub fn write(&mut self, package: SourcePackage)
        ensures
            final(self).pending is None,
            find_pkg(final(self).packages@, package.title.name@, package.title.version@) == Some(
                package,
            ),
            forall|n2: Seq<char>, v2: Seq<char>|
                !(n2 == package.title.name@ && v2 == package.title.version@) ==> #[trigger]
                    find_pkg(final(self).packages@, n2, v2) == find_pkg(
                    old(self).packages@,
                    n2,
                    v2,
                ),
            final(self).installed == old(self).installed,
            final(self).globals == old(self).globals,
            final(self).responses == old(self).responses,
            final(self).root == old(self).root,
    {
        self.begin_write(package);
        self.commit_write();
    }

    /// Removes every version of a package name.
    pub fn remove(&mut self, name: &str)
        ensures
            forall|v2: Seq<char>|
                #[trigger] find_pkg(final(self).packages@, name@, v2) is None,
            forall|n2: Seq<char>, v2: Seq<char>|
                n2 != name@ ==> #[trigger] find_pkg(final(self).packages@, n2, v2) == find_pkg(
                    old(self).packages@,
                    n2,
                    v2,
                ),
            final(self).installed == old(self).installed,
            final(self).globals == old(self).globals,
            final(self).responses == old(self).responses,
            final(self).root == old(self).root,
            final(self).pending == old(self).pending,
    {
        let ghost packages0 = self.packages@;
        let ghost root0 = self.root;
        let ghost installed0 = self.installed;
        let ghost globals0 = self.globals;
        let ghost responses0 = self.responses;
        let ghost pending0 = self.pending;
        let mut kept: Vec<StoredPackage> = Vec::new();
        while self.packages.len() > 0
            invariant
                self.root == root0,
                self.installed == installed0,
                self.globals == globals0,
                self.responses == responses0,
                self.pending == pending0,
                drop_pkg_name(packages0, name@) == drop_pkg_name(self.packages@, name@) + kept@,
            decreases self.packages@.len(),
        {
            let ghost before = self.packages@;
            let q = self.packages.pop().unwrap();
            proof {
                assert(before =~= self.packages@.push(q));
                lemma_drop_pkg_name_push(self.packages@, q, name@);
            }
            if !str_eq(q.name.as_str(), name) {
                let ghost kept0 = kept@;
                kept.insert(0, q);
                proof {
                    assert(kept@ =~= seq![q] + kept0);
                    assert(drop_pkg_name(self.packages@, name@) + seq![q] + kept0 =~= drop_pkg_name(
                        self.packages@,
                        name@,
                    ) + kept@);
                }
            }
        }
        proof {
            assert(drop_pkg_name(self.packages@, name@) =~= Seq::<StoredPackage>::empty());
            assert(Seq::<StoredPackage>::empty() + kept@ =~= kept@);
        }
        self.packages = kept;
        proof {
            assert forall|v2: Seq<char>| #[trigger]
                find_pkg(self.packages@, name@, v2) is None by {
                lemma_find_drop_pkg_name(packages0, name@, name@, v2);
            }
            assert forall|n2: Seq<char>, v2: Seq<char>| n2 != name@ implies #[trigger] find_pkg(
                self.packages@,
                n2,
                v2,
            ) == find_pkg(packages0, n2, v2) by {
                lemma_find_drop_pkg_name(packages0, name@, n2, v2);
            }
        }
    }

    /// The host variables of a package, from the variables area.
    pub fn globals(&self, package: &SourcePackage) -> (r: Result<&Global, Error>)
        ensures
            match r {
                Ok(g) => find_global(self.globals.entries@, package.title.name@) == Some(*g),
                Err(e) => find_global(self.globals.entries@, package.title.name@) is None,
            },
    {
        self.globals.get(package.title.name.as_str())
    }

    /// The titles whose installed marker exists.
    pub fn installed(&self) -> (r: Vec<PackageTitle>)
        ensures
            crate::package::titles_view(r@) == crate::package::titles_view(self.installed@),
    {
        crate::package::duplicate_titles(&self.installed)
    }

    /// Whether the installed marker for a title exists.
    pub fn is_installed(&self, name: &str, version: &str) -> (r: bool)
        ensures
            r == marker_has(self.installed@, name@, version@),
    {
        let mut i: usize = 0;
        while i < self.installed.len()
            invariant
                i <= self.installed@.len(),
                forall|j: int|
                    0 <= j < i ==> !((#[trigger] self.installed@[j]).name@ == name@
                        && self.installed@[j].version@ == version@),
            decreases self.installed@.len() - i,
        {
            if str_eq(self.installed[i].name.as_str(), name) && str_eq(
                self.installed[i].version.as_str(),
                version,
            ) {
                return true;
            }
            i = i + 1;
        }
        false
    }

    /// Creates the installed marker for a title; the exclusive create
    /// fails exactly when the marker already exists.
    pub fn mark_installed(&mut self, title: &PackageTitle) -> (r: Result<(), Error>)
        ensures
            match r {
                Ok(_) => !marker_has(old(self).installed@, title.name@, title.version@)
                    && marker_has(final(self).installed@, title.name@, title.version@) && final(self).installed@.len() == old(self).installed@.len() + 1 && final(self).installed@.drop_last() == old(self).installed@ && final(self).installed@.last().name@ == title.name@ && final(self).installed@.last().version@
                    == title.version@,
                Err(e) => marker_has(old(self).installed@, title.name@, title.version@) && final(self).installed == old(self).installed && (e matches Error::AlreadyInstalled(n, v)
                    && n@ == title.name@ && v@ == title.version@),
            },
            final(self).packages == old(self).packages,
            final(self).globals == old(self).globals,
            final(self).responses == old(self).responses,
            final(self).root == old(self).root,
            final(self).pending == old(self).pending,
    {
        if self.is_installed(title.name.as_str(), title.version.as_str()) {
            return Err(Error::AlreadyInstalled(title.name.clone(), title.version.clone()));
        }
        let ghost installed0 = self.installed@;
        self.installed.push(title.duplicate());
        proof {
            assert(self.installed@.drop_last() =~= installed0);
            let i = self.installed@.len() - 1;
            assert((self.installed@[i]).name@ == title.name@ && self.installed@[i].version@
                == title.version@);
            assert(marker_has(self.installed@, title.name@, title.version@));
        }
        Ok(())
    }

    /// Removes the installed marker for a title; fails exactly when the
    /// marker does not exist.
    pub fn unmark_installed(&mut self, title: &PackageTitle) -> (r: Result<(), Error>)
        ensures
            match r {
                Ok(_) => marker_has(old(self).installed@, title.name@, title.version@)
                    && !marker_has(final(self).installed@, title.name@, title.version@) && (forall|
                    n2: Seq<char>,
                    v2: Seq<char>,
                |
                    !(n2 == title.name@ && v2 == title.version@) ==> #[trigger] marker_has(
                        final(self).installed@,
                        n2,
                        v2,
                    ) == marker_has(old(self).installed@, n2, v2)),
                Err(e) => !marker_has(old(self).installed@, title.name@, title.version@) && final(self).installed == old(self).installed && (e matches Error::NotInstalled(n, v) && n@
                    == title.name@ && v@ == title.version@),
            },
            final(self).packages == old(self).packages,
            final(self).globals == old(self).globals,
            final(self).responses == old(self).responses,
            final(self).root == old(self).root,
            final(self).pending == old(self).pending,
    {
        if !self.is_installed(title.name.as_str(), title.version.as_str()) {
            return Err(Error::NotInstalled(title.name.clone(), title.version.clone()));
        }
        let ghost installed0 = self.installed@;
        let ghost root0 = self.root;
        let ghost packages0 = self.packages;
        let ghost globals0 = self.globals;
        let ghost responses0 = self.responses;
        let ghost pending0 = self.pending;
        let mut kept: Vec<PackageTitle> = Vec::new();
        while self.installed.len() > 0
            invariant
                self.root == root0,
                self.packages == packages0,
                self.globals == globals0,
                self.responses == responses0,
                self.pending == pending0,
                drop_title(installed0, title.name@, title.version@) == drop_title(
                    self.installed@,
                    title.name@,
                    title.version@,
                ) + kept@,
            decreases self.installed@.len(),
        {
            let ghost before = self.installed@;
            let q = self.installed.pop().unwrap();
            proof {
                assert(before =~= self.installed@.push(q));
                lemma_drop_title_push(self.installed@, q, title.name@, title.version@);
            }
            if !(str_eq(q.name.as_str(), title.name.as_str()) && str_eq(
                q.version.as_str(),
                title.version.as_str(),
            )) {
                let ghost kept0 = kept@;
                kept.insert(0, q);
                proof {
                    assert(kept@ =~= seq![q] + kept0);
                    assert(drop_title(self.installed@, title.name@, title.version@) + seq![q]
                        + kept0 =~= drop_title(self.installed@, title.name@, title.version@)
                        + kept@);
                }
            }
        }
        proof {
            assert(drop_title(self.installed@, title.name@, title.version@) =~= Seq::<
                PackageTitle,
            >::empty());
            assert(Seq::<PackageTitle>::empty() + kept@ =~= kept@);
        }
        self.installed = kept;
        proof {
            lemma_marker_drop_title(installed0, title.name@, title.version@, title.name@,
                title.version@);
            assert forall|n2: Seq<char>, v2: Seq<char>|
                !(n2 == title.name@ && v2 == title.version@) implies #[trigger] marker_has(
                self.installed@,
                n2,
                v2,
            ) == marker_has(installed0, n2, v2) by {
                lemma_marker_drop_title(installed0, title.name@, title.version@, n2, v2);
            }
        }
        Ok(())
    }

    /// Whether a key and everything it transitively depends on is
    /// installable: each link loads, its stored title matches its key, and
    /// its host variables exist.
    pub fn validate(&self, name: &str, version: &str) -> (r: Result<(), Error>)
        ensures
            match r {
                Ok(_) => valid_spec(
                    self.packages@,
                    self.globals.entries@,
                    name@,
                    version@,
                    self.packages@.len() as nat,
                ),
                Err(_) => !valid_spec(
                    self.packages@,
                    self.globals.entries@,
                    name@,
                    version@,
                    self.packages@.len() as nat,
                ),
            },
    {
        let fuel = self.packages.len();
        self.validate_fuel(name, version, fuel)
    }

    /// Validates a key with bounded recursion depth over the dependency
    /// chain.
    fn validate_fuel(&self, name: &str, version: &str, fuel: usize) -> (r: Result<(), Error>)
        ensures
            match r {
                Ok(_) => valid_spec(
                    self.packages@,
                    self.globals.entries@,
                    name@,
                    version@,
                    fuel as nat,
                ),
                Err(_) => !valid_spec(
                    self.packages@,
                    self.globals.entries@,
                    name@,
                    version@,
                    fuel as nat,
                ),
            },
        decreases fuel,
    {
        let package = match self.load(name, version) {
            Ok(p) => p,
            Err(e) => {
                return Err(e);
            },
        };
        if !(str_eq(package.title.name.as_str(), name) && str_eq(
            package.title.version.as_str(),
            version,
        )) {
            return Err(Error::TitleMismatch(String::from_str(name), String::from_str(version)));
        }
        match self.globals.get(name) {
            Ok(_) => {},
            Err(e) => {
                return Err(e);
            },
        }
        match &package.dependencies {
            Some(deps) => {
                if fuel == 0 {
                    return Err(Error::NotFound(String::from_str(name), String::from_str(version)));
                }
                let ghost ps = self.packages@;
                let ghost gs = self.globals.entries@;
                let mut i: usize = 0;
                while i < deps.len()
                    invariant
                        i <= deps@.len(),
                        fuel >= 1,
                        ps == self.packages@,
                        gs == self.globals.entries@,
                        find_pkg(ps, name@, version@) == Some(*package),
                        package.title.name@ == name@,
                        package.title.version@ == version@,
                        find_global(gs, name@) is Some,
                        package.dependencies == Some(*deps),
                        forall|j: int|
                            0 <= j < i ==> valid_spec(
                                ps,
                                gs,
                                (#[trigger] deps@[j]).name@,
                                deps@[j].version@,
                                (fuel - 1) as nat,
                            ),
                    decreases deps@.len() - i,
                {
                    match self.validate_fuel(
                        deps[i].name.as_str(),
                        deps[i].version.as_str(),
                        fuel - 1,
                    ) {
                        Ok(_) => {},
                        Err(e) => {
                            proof {
                                assert(!valid_spec(
                                    ps,
                                    gs,
                                    (deps@[i as int]).name@,
                                    deps@[i as int].version@,
                                    (fuel - 1) as nat,
                                ));
                                assert(!valid_spec(ps, gs, name@, version@, fuel as nat)) by {
                                    if valid_spec(ps, gs, name@, version@, fuel as nat) {
                                        let pkg = find_pkg(ps, name@, version@)->Some_0;
                                        assert(pkg == *package);
                                        let d = pkg.dependencies->Some_0;
                                        assert(d == *deps);
                                        assert(forall|j: int|
                                            0 <= j < d@.len() ==> valid_spec(
                                                ps,
                                                gs,
                                                (#[trigger] d@[j]).name@,
                                                d@[j].version@,
                                                ((fuel as nat) - 1) as nat,
                                            ));
                                        assert(valid_spec(
                                            ps,
                                            gs,
                                            (d@[i as int]).name@,
                                            d@[i as int].version@,
                                            ((fuel as nat) - 1) as nat,
                                        ));
                                        assert(((fuel as nat) - 1) as nat == (fuel - 1) as nat);
                                        assert(valid_spec(
                                            ps,
                                            gs,
                                            (deps@[i as int]).name@,
                                            deps@[i as int].version@,
                                            (fuel - 1) as nat,
                                        ));
                                    }
                                }
                            }
                            return Err(e);
                        },
                    }
                    i = i + 1;
                }
                Ok(())
            },
            None => Ok(()),
        }
    }
}

/// Every title that is not `(n, v)`, in order.
pub open spec fn drop_title(ts: Seq<PackageTitle>, n: Seq<char>, v: Seq<char>) -> Seq<PackageTitle>
    decreases ts.len(),
{
    if ts.len() == 0 {
        Seq::empty()
    } else if ts[0].name@ == n && ts[0].version@ == v {
        drop_title(ts.skip(1), n, v)
    } else {
        seq![ts[0]] + drop_title(ts.skip(1), n, v)
    }
}

proof fn lemma_drop_title_push(s: Seq<PackageTitle>, x: PackageTitle, n: Seq<char>, v: Seq<char>)
    ensures
        drop_title(s.push(x), n, v) == drop_title(s, n, v) + (if x.name@ == n && x.version@ == v {
            Seq::<PackageTitle>::empty()
        } else {
            seq![x]
        }),
    decreases s.len(),
{
    if s.len() == 0 {
        assert(s.push(x)[0] == x);
        assert(s.push(x).skip(1) =~= s);
        if x.name@ == n && x.version@ == v {
            assert(drop_title(s, n, v) + Seq::<PackageTitle>::empty() =~= drop_title(s, n, v));
        } else {
            assert(seq![x] + drop_title(s, n, v) =~= drop_title(s, n, v) + seq![x]);
        }
    } else {
        assert(s.push(x)[0] == s[0]);
        assert(s.push(x).skip(1) =~= s.skip(1).push(x));
        lemma_drop_title_push(s.skip(1), x, n, v);
        if !(s[0].name@ == n && s[0].version@ == v) {
            if x.name@ == n && x.version@ == v {
                assert(drop_title(s.push(x), n, v) =~= drop_title(s, n, v) + Seq::<
                    PackageTitle,
                >::empty());
            } else {
                assert(drop_title(s.push(x), n, v) =~= drop_title(s, n, v) + seq![x]);
            }
        }
    }
}

proof fn lemma_marker_drop_title(
    ts: Seq<PackageTitle>,
    n: Seq<char>,
    v: Seq<char>,
    n2: Seq<char>,
    v2: Seq<char>,
)
    ensures
        marker_has(drop_title(ts, n, v), n2, v2) == (if n2 == n && v2 == v {
            false
        } else {
            marker_has(ts, n2, v2)
        }),
    decreases ts.len(),
{
    if ts.len() == 0 {
    } else {
        lemma_marker_drop_title(ts.skip(1), n, v, n2, v2);
        if ts[0].name@ == n && ts[0].version@ == v {
            if marker_has(ts, n2, v2) && !(n2 == n && v2 == v) {
                let i = choose|i: int|
                    0 <= i < ts.len() && (#[trigger] ts[i]).name@ == n2 && ts[i].version@ == v2;
                assert(i > 0);
                assert(ts.skip(1)[i - 1] == ts[i]);
                assert(marker_has(ts.skip(1), n2, v2));
            }
            if marker_has(ts.skip(1), n2, v2) {
                let i = choose|i: int|
                    0 <= i < ts.skip(1).len() && (#[trigger] ts.skip(1)[i]).name@ == n2 && ts.skip(
                        1,
                    )[i].version@ == v2;
                assert(ts[i + 1] == ts.skip(1)[i]);
                assert(marker_has(ts, n2, v2));
            }
        } else {
            let d = seq![ts[0]] + drop_title(ts.skip(1), n, v);
            assert(d[0] == ts[0]);
            assert(d.skip(1) =~= drop_title(ts.skip(1), n, v));
            if marker_has(ts, n2, v2) {
                let i = choose|i: int|
                    0 <= i < ts.len() && (#[trigger] ts[i]).name@ == n2 && ts[i].version@ == v2;
                if i == 0 {
                    assert(d[0].name@ == n2 && d[0].version@ == v2);
                    assert(marker_has(d, n2, v2));
                } else {
                    assert(ts.skip(1)[i - 1] == ts[i]);
                    assert(marker_has(ts.skip(1), n2, v2));
                }
            }
            if marker_has(d, n2, v2) {
                let i = choose|i: int|
                    0 <= i < d.len() && (#[trigger] d[i]).name@ == n2 && d[i].version@ == v2;
                if i == 0 {
                    assert(ts[0].name@ == n2 && ts[0].version@ == v2);
                    assert(marker_has(ts, n2, v2));
                } else {
                    assert(d.skip(1)[i - 1] == d[i]);
                    assert(marker_has(drop_title(ts.skip(1), n, v), n2, v2));
                }
            }
            if marker_has(ts.skip(1), n2, v2) {
                let i = choose|i: int|
                    0 <= i < ts.skip(1).len() && (#[trigger] ts.skip(1)[i]).name@ == n2 && ts.skip(
                        1,
                    )[i].version@ == v2;
                assert(ts[i + 1] == ts.skip(1)[i]);
                assert(marker_has(ts, n2, v2));
            }
            if marker_has(drop_title(ts.skip(1), n, v), n2, v2) {
                let i = choose|i: int|
                    0 <= i < drop_title(ts.skip(1), n, v).len() && (#[trigger] drop_title(
                        ts.skip(1),
                        n,
                        v,
                    )[i]).name@ == n2 && drop_title(ts.skip(1), n, v)[i].version@ == v2;
                assert(d[i + 1] == drop_title(ts.skip(1), n, v)[i]);
                assert(marker_has(d, n2, v2));
            }
        }
    }
}

/// The observable content of a listing entry.
pub open spec fn status_v(s: PackageStatus) -> (Seq<char>, Seq<char>, bool) {
    (s.title.name@, s.title.version@, s.installed)
}

/// The listing order: names ascending; under one name, versions
/// descending, newest first.
pub open spec fn status_le(a: (Seq<char>, Seq<char>, bool), b: (Seq<char>, Seq<char>, bool)) -> bool {
    if a.0 == b.0 {
        lex_le(b.1, a.1)
    } else {
        lex_le(a.0, b.0)
    }
}

/// The listing order is total.
pub proof fn lemma_status_le_total(a: (Seq<char>, Seq<char>, bool), b: (Seq<char>, Seq<char>, bool))
    ensures
        status_le(a, b) || status_le(b, a),
{
    if a.0 == b.0 {
        lemma_lex_total(a.1, b.1);
    } else {
        lemma_lex_total(a.0, b.0);
    }
}

/// Whether a listing holds an entry with exactly this content.
pub open spec fn listed(rs: Seq<PackageStatus>, n: Seq<char>, v: Seq<char>, f: bool) -> bool {
    exists|m: int| 0 <= m < rs.len() && status_v(#[trigger] rs[m]) == (n, v, f)
}

/// Whether a listing entry reports one of the stored packages, with its
/// marker state.
pub open spec fn stems_from(
    ps: Seq<StoredPackage>,
    inst: Seq<PackageTitle>,
    st: PackageStatus,
) -> bool {
    exists|j: int|
        0 <= j < ps.len() && (#[trigger] ps[j]).name@ == st.title.name@ && ps[j].version@
            == st.title.version@ && st.installed == marker_has(
            inst,
            st.title.name@,
            st.title.version@,
        )
}

/// Compares two listing entries in listing order.
fn status_le_exec(a: &PackageStatus, b: &PackageStatus) -> (r: bool)
    ensures
        r == status_le(status_v(*a), status_v(*b)),
{
    if str_eq(a.title.name.as_str(), b.title.name.as_str()) {
        str_lex_le(b.title.version.as_str(), a.title.version.as_str())
    } else {
        str_lex_le(a.title.name.as_str(), b.title.name.as_str())
    }
}

impl Registry {
    /// Lists every stored package, sorted by name ascending and version
    /// descending, each with its installed flag.
    pub fn list(&self) -> (r: Vec<PackageStatus>)
        ensures
            r@.len() == self.packages@.len(),
            forall|m: int| 0 <= m < r@.len() ==> stems_from(self.packages@, self.installed@, #[trigger] r@[m]),
            forall|j: int|
                0 <= j < self.packages@.len() ==> listed(
                    r@,
                    (#[trigger] self.packages@[j]).name@,
                    self.packages@[j].version@,
                    marker_has(
                        self.installed@,
                        self.packages@[j].name@,
                        self.packages@[j].version@,
                    ),
                ),
            forall|m: int|
                0 <= m < r@.len() - 1 ==> status_le(status_v(#[trigger] r@[m]), status_v(r@[m + 1])),
    {
        let ghost ps = self.packages@;
        let ghost inst = self.installed@;
        let mut out: Vec<PackageStatus> = Vec::new();
        let mut k: usize = 0;
        while k < self.packages.len()
            invariant
                k <= ps.len(),
                ps == self.packages@,
                inst == self.installed@,
                out@.len() == k,
                forall|m: int| 0 <= m < out@.len() ==> stems_from(ps, inst, #[trigger] out@[m]),
                forall|j: int|
                    0 <= j < k ==> listed(
                        out@,
                        (#[trigger] ps[j]).name@,
                        ps[j].version@,
                        marker_has(inst, ps[j].name@, ps[j].version@),
                    ),
                forall|m: int|
                    0 <= m < out@.len() - 1 ==> status_le(
                        status_v(#[trigger] out@[m]),
                        status_v(out@[m + 1]),
                    ),
            decreases ps.len() - k,
        {
            let flag = self.is_installed(
                self.packages[k].name.as_str(),
                self.packages[k].version.as_str(),
            );
            let title = PackageTitle {
                name: self.packages[k].name.clone(),
                version: self.packages[k].version.clone(),
            };
            let st = PackageStatus { title, installed: flag };
            let ghost stv = status_v(st);
            proof {
                assert(stv == (ps[k as int].name@, ps[k as int].version@, marker_has(
                    inst,
                    ps[k as int].name@,
                    ps[k as int].version@,
                )));
            }
            let mut idx: usize = 0;
            while idx < out.len()
                invariant
                    idx <= out@.len(),
                    stv == status_v(st),
                    forall|m: int| 0 <= m < idx ==> status_le(status_v(#[trigger] out@[m]), stv),
                ensures
                    idx <= out@.len(),
                    forall|m: int| 0 <= m < idx ==> status_le(status_v(#[trigger] out@[m]), stv),
                    idx < out@.len() ==> !status_le(status_v(out@[idx as int]), stv),
                decreases out@.len() - idx,
            {
                if !status_le_exec(&out[idx], &st) {
                    break ;
                }
                idx = idx + 1;
            }
            let ghost out0 = out@;
            let ghost pos = idx as int;
            proof {
                if pos < out0.len() {
                    lemma_status_le_total(status_v(out0[pos]), stv);
                }
            }
            out.insert(idx, st);
            proof {
                out0.insert_ensures(pos, st);
                // every entry still reports a stored package
                assert forall|m: int| 0 <= m < out@.len() implies stems_from(
                    ps,
                    inst,
                    #[trigger] out@[m],
                ) by {
                    if m < pos {
                        assert(out@[m] == out0[m]);
                    } else if m == pos {
                        assert(out@[m] == st);
                        assert((ps[k as int]).name@ == st.title.name@);
                        assert(stems_from(ps, inst, st));
                    } else {
                        assert(out@[m] == out0[m - 1]);
                    }
                }
                // every package seen so far is still listed
                assert forall|j: int| 0 <= j < k + 1 implies listed(
                    out@,
                    (#[trigger] ps[j]).name@,
                    ps[j].version@,
                    marker_has(inst, ps[j].name@, ps[j].version@),
                ) by {
                    if j < k {
                        let m0 = choose|m0: int|
                            0 <= m0 < out0.len() && status_v(#[trigger] out0[m0]) == (
                                ps[j].name@,
                                ps[j].version@,
                                marker_has(inst, ps[j].name@, ps[j].version@),
                            );
                        if m0 < pos {
                            assert(out@[m0] == out0[m0]);
                            assert(listed(out@, ps[j].name@, ps[j].version@,
                                marker_has(inst, ps[j].name@, ps[j].version@)));
                        } else {
                            assert(out@[m0 + 1] == out0[m0]);
                            assert(listed(out@, ps[j].name@, ps[j].version@,
                                marker_has(inst, ps[j].name@, ps[j].version@)));
                        }
                    } else {
                        assert(out@[pos] == st);
                        assert(listed(out@, ps[j].name@, ps[j].version@,
                            marker_has(inst, ps[j].name@, ps[j].version@)));
                    }
                }
                // the listing stays sorted
                assert forall|m: int| 0 <= m < out@.len() - 1 implies status_le(
                    status_v(#[trigger] out@[m]),
                    status_v(out@[m + 1]),
                ) by {
                    if m + 1 < pos {
                        assert(out@[m] == out0[m]);
                        assert(out@[m + 1] == out0[m + 1]);
                    } else if m + 1 == pos {
                        assert(out@[m] == out0[m]);
                        assert(out@[m + 1] == st);
                    } else if m == pos {
                        assert(out@[m] == st);
                        assert(out@[m + 1] == out0[m]);
                    } else {
                        assert(out@[m] == out0[m - 1]);
                        assert(out@[m + 1] == out0[m]);
                    }
                }
            }
            k = k + 1;
        }
        out
    }

}

impl SourcePackage {
    /// The host variables for this package's name.
    pub fn globals<'a>(&self, reg: &'a GlobalRegistry) -> (r: Result<&'a Global, Error>)
        ensures
            match r {
                Ok(g) => find_global(reg.entries@, self.title.name@) == Some(*g),
                Err(_) => find_global(reg.entries@, self.title.name@) is None,
            },
    {
        reg.get(self.title.name.as_str())
    }

    /// The responses area of the registry this package came from.
    pub fn response_registry<'a>(&self, reg: &'a Registry) -> (r: &'a ResponseRegistry)
        ensures
            r == &reg.responses,
    {
        reg.response_registry()
    }

    /// The stored responses for this package's name.
    pub fn responses<'a>(&self, reg: &'a ResponseRegistry) -> (r: Result<
        &'a crate::prompt::PromptResponses,
        Error,
    >)
        ensures
            match r {
                Ok(p) => crate::prompt::find_responses(reg.entries@, self.title.name@) == Some(*p),
                Err(_) => crate::prompt::find_responses(reg.entries@, self.title.name@) is None,
            },
    {
        reg.get(self.title.name.as_str())
    }

    /// Stores responses for this package's name.
    pub fn set_responses(&self, reg: &mut ResponseRegistry, responses: crate::prompt::PromptResponses)
        ensures
            crate::prompt::find_responses(final(reg).entries@, self.title.name@) == Some(responses),
            forall|other: Seq<char>|
                other != self.title.name@ ==> #[trigger] crate::prompt::find_responses(
                    final(reg).entries@,
                    other,
                ) == crate::prompt::find_responses(old(reg).entries@, other),
    {
        reg.set(self.title.name.as_str(), responses);
    }

    /// The stored package of each declared dependency, in order; the
    /// error names the first dependency that is absent.
    pub fn dependencies<'a>(&self, reg: &'a Registry) -> (r: Result<Vec<&'a SourcePackage>, Error>)
        ensures
            match r {
                Ok(v) => match self.dependencies {
                    Some(d) => v@.len() == d@.len() && (forall|i: int|
                        0 <= i < d@.len() ==> find_pkg(
                            reg.packages@,
                            (#[trigger] d@[i]).name@,
                            d@[i].version@,
                        ) == Some(*v@[i])),
                    None => v@.len() == 0,
                },
                Err(e) => self.dependencies matches Some(d) && (exists|i: int|
                    0 <= i < d@.len() && find_pkg(
                        reg.packages@,
                        (#[trigger] d@[i]).name@,
                        d@[i].version@,
                    ) is None),
            },
    {
        let mut v: Vec<&'a SourcePackage> = Vec::new();
        match &self.dependencies {
            Some(d) => {
                let mut i: usize = 0;
                while i < d.len()
                    invariant
                        i <= d@.len(),
                        v@.len() == i,
                        self.dependencies == Some(*d),
                        forall|j: int|
                            0 <= j < i ==> find_pkg(
                                reg.packages@,
                                (#[trigger] d@[j]).name@,
                                d@[j].version@,
                            ) == Some(*v@[j]),
                    decreases d@.len() - i,
                {
                    match reg.load(d[i].name.as_str(), d[i].version.as_str()) {
                        Ok(p) => {
                            v.push(p);
                        },
                        Err(e) => {
                            proof {
                                assert(find_pkg(
                                    reg.packages@,
                                    (d@[i as int]).name@,
                                    d@[i as int].version@,
                                ) is None);
                            }
                            return Err(e);
                        },
                    }
                    i = i + 1;
                }
                Ok(v)
            },
            None => Ok(v),
        }
    }
}

} // verus!
