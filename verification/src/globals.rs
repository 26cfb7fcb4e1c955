//! Host-wide variables. Each package name owns one `Global`: a mapping
//! from variable names to values, consulted by the first template pass.
//! `GlobalRegistry` models the `variables/` area of the registry: one
//! record per package name, written atomically, newest write visible.

use vstd::prelude::*;
use vstd::string::*;

use crate::errors::Error;
use crate::template::expand;
use crate::template::expand_spec;
use crate::template::lookup;
use crate::template::lookup_value;
use crate::template::pairs_view;

verus! {

/// The variable table of one package name.
pub type Variables = Vec<(String, String)>;

/// Host-wide variables for one package name.
#[derive(Debug, Clone, PartialEq, Eq, PartialOrd, Ord)]
pub struct Global {
    pub name: String,
    pub variables: Variables,
}

impl Global {
    /// The value mapped to a variable name, if any.
    pub fn var(&self, name: &str) -> (r: Option<String>)
        ensures
            match r {
                Some(v) => lookup(pairs_view(self.variables@), name@) == Some(v@),
                None => lookup(pairs_view(self.variables@), name@) is None,
            },
    {
        lookup_value(&self.variables, name)
    }

    /// Runs the first template pass (delimiter `@`) over `s`, substituting
    /// this table's variables.
    pub fn template(&self, s: &str) -> (r: Result<String, Error>)
        ensures
            match r {
                Ok(o) => expand_spec(s@, '@', pairs_view(self.variables@)) == Ok::<
                    Seq<char>,
                    Seq<char>,
                >(o@),
                Err(e) => e matches Error::NoMatch(k) && expand_spec(
                    s@,
                    '@',
                    pairs_view(self.variables@),
                ) == Err::<Seq<char>, Seq<char>>(k@),
            },
    {
        expand(s, '@', &self.variables)
    }

    /// A copy of this record.
    pub fn duplicate(&self) -> (r: Self)
        ensures
            r.name@ == self.name@,
            pairs_view(r.variables@) == pairs_view(self.variables@),
    {
        let mut variables: Variables = Vec::new();
        let mut i: usize = 0;
        while i < self.variables.len()
            invariant
                i <= self.variables@.len(),
                variables@.len() == i,
                forall|j: int|
                    0 <= j < i ==> (#[trigger] variables@[j]).0@ == self.variables@[j].0@
                        && variables@[j].1@ == self.variables@[j].1@,
            decreases self.variables@.len() - i,
        {
            variables.push((self.variables[i].0.clone(), self.variables[i].1.clone()));
            i = i + 1;
        }
        proof {
            assert forall|j: int| 0 <= j < pairs_view(variables@).len() implies pairs_view(
                variables@,
            )[j] == pairs_view(self.variables@)[j] by {
                assert(variables@[j].0@ == self.variables@[j].0@);
                assert(variables@[j].1@ == self.variables@[j].1@);
            }
            assert(pairs_view(variables@) =~= pairs_view(self.variables@));
        }
        Global { name: self.name.clone(), variables }
    }
}

/// The record stored for a name, if any: the most recent write wins.
pub open spec fn find_global(gs: Seq<Global>, name: Seq<char>) -> Option<Global>
    decreases gs.len(),
{
    if gs.len() == 0 {
        None
    } else if gs[0].name@ == name {
        Some(gs[0])
    } else {
        find_global(gs.skip(1), name)
    }
}

/// Every record of `gs` whose name is not `name`, in order.
pub open spec fn drop_global(gs: Seq<Global>, name: Seq<char>) -> Seq<Global>
    decreases gs.len(),
{
    if gs.len() == 0 {
        Seq::empty()
    } else if gs[0].name@ == name {
        drop_global(gs.skip(1), name)
    } else {
        seq![gs[0]] + drop_global(gs.skip(1), name)
    }
}

proof fn lemma_find_drop_global(gs: Seq<Global>, name: Seq<char>, other: Seq<char>)
    ensures
        find_global(drop_global(gs, name), other) == (if other == name {
            None::<Global>
        } else {
            find_global(gs, other)
        }),
    decreases gs.len(),
{
    if gs.len() > 0 {
        lemma_find_drop_global(gs.skip(1), name, other);
        if gs[0].name@ != name {
            let d = seq![gs[0]] + drop_global(gs.skip(1), name);
            assert(d[0] == gs[0]);
            assert(d.skip(1) =~= drop_global(gs.skip(1), name));
        }
    }
}

proof fn lemma_drop_global_push(s: Seq<Global>, x: Global, name: Seq<char>)
    ensures
        drop_global(s.push(x), name) == drop_global(s, name) + (if x.name@ == name {
            Seq::<Global>::empty()
        } else {
            seq![x]
        }),
    decreases s.len(),
{
    if s.len() == 0 {
        assert(s.push(x)[0] == x);
        assert(s.push(x).skip(1) =~= s);
        if x.name@ == name {
            assert(drop_global(s, name) + Seq::<Global>::empty() =~= drop_global(s, name));
        } else {
            assert(seq![x] + drop_global(s, name) =~= drop_global(s, name) + seq![x]);
        }
    } else {
        assert(s.push(x)[0] == s[0]);
        assert(s.push(x).skip(1) =~= s.skip(1).push(x));
        lemma_drop_global_push(s.skip(1), x, name);
        if s[0].name@ == name {
        } else {
            if x.name@ == name {
                assert(drop_global(s.push(x), name) =~= drop_global(s, name) + Seq::<
                    Global,
                >::empty());
            } else {
                assert(drop_global(s.push(x), name) =~= drop_global(s, name) + seq![x]);
            }
        }
    }
}

/// The on-disk `variables/` area: one atomically written record per
/// package name.
#[derive(Debug)]
pub struct GlobalRegistry {
    pub root: String,
    pub entries: Vec<Global>,
}

impl GlobalRegistry {
    /// An empty registry rooted at the given path.
    pub fn new(root: String) -> (r: Self)
        ensures
            r.root@ == root@,
            r.entries@ == Seq::<Global>::empty(),
    {
        GlobalRegistry { root, entries: Vec::new() }
    }

    /// The record for a package name, or the error that none exists.
    pub fn get(&self, name: &str) -> (r: Result<&Global, Error>)
        ensures
            match r {
                Ok(g) => find_global(self.entries@, name@) == Some(*g),
                Err(e) => find_global(self.entries@, name@) is None && (e matches
                    Error::MissingGlobals(n) && n@ == name@),
            },
    {
        let mut i: usize = 0;
        proof {
            assert(self.entries@.skip(0) =~= self.entries@);
        }
        while i < self.entries.len()
            invariant
                i <= self.entries@.len(),
                find_global(self.entries@, name@) == find_global(
                    self.entries@.skip(i as int),
                    name@,
                ),
            decreases self.entries@.len() - i,
        {
            proof {
                assert(self.entries@.skip(i as int)[0] == self.entries@[i as int]);
                assert(self.entries@.skip(i as int).skip(1) =~= self.entries@.skip(i + 1));
            }
            if crate::text::str_eq(self.entries[i].name.as_str(), name) {
                return Ok(&self.entries[i]);
            }
            i = i + 1;
        }
        proof {
            assert(self.entries@.skip(i as int).len() == 0);
        }
        Err(Error::MissingGlobals(String::from_str(name)))
    }

    /// Stores a record; the write replaces any earlier record of the same
    /// name, and a reader sees either the old or the new record, never a
    /// mixture.
    pub fn set(&mut self, global: Global)
        ensures
            find_global(final(self).entries@, global.name@) == Some(global),
            forall|other: Seq<char>|
                other != global.name@ ==> #[trigger] find_global(final(self).entries@, other)
                    == find_global(old(self).entries@, other),
            final(self).root@ == old(self).root@,
    {
        let ghost entries0 = self.entries@;
        self.entries.insert(0, global);
        proof {
            assert(self.entries@[0] == global);
            assert(self.entries@.skip(1) =~= entries0);
        }
    }

    /// Removes the record of a name; every other record is kept.
    pub fn remove(&mut self, name: &str)
        ensures
            find_global(final(self).entries@, name@) is None,
            forall|other: Seq<char>|
                other != name@ ==> #[trigger] find_global(final(self).entries@, other)
                    == find_global(old(self).entries@, other),
            final(self).root@ == old(self).root@,
    {
        let ghost entries0 = self.entries@;
        let mut kept: Vec<Global> = Vec::new();
        let ghost root0 = self.root;
        while self.entries.len() > 0
            invariant
                self.root == root0,
                drop_global(entries0, name@) == drop_global(self.entries@, name@) + kept@,
            decreases self.entries@.len(),
        {
            let ghost before = self.entries@;
            let g = self.entries.pop().unwrap();
            proof {
                assert(before =~= self.entries@.push(g));
                lemma_drop_global_push(self.entries@, g, name@);
            }
            if !crate::text::str_eq(g.name.as_str(), name) {
                let ghost kept0 = kept@;
                kept.insert(0, g);
                proof {
                    assert(kept@ =~= seq![g] + kept0);
                    assert(drop_global(self.entries@, name@) + seq![g] + kept0 =~= drop_global(
                        self.entries@,
                        name@,
                    ) + kept@);
                }
            }
        }
        proof {
            assert(drop_global(self.entries@, name@) =~= Seq::<Global>::empty());
            assert(Seq::<Global>::empty() + kept@ =~= kept@);
        }
        self.entries = kept;
        proof {
            lemma_find_drop_global(entries0, name@, name@);
            assert(forall|other: Seq<char>|
                other != name@ ==> #[trigger] find_global(drop_global(entries0, name@), other)
                    == find_global(entries0, other)) by {
                assert forall|other: Seq<char>| other != name@ implies #[trigger] find_global(
                    drop_global(entries0, name@),
                    other,
                ) == find_global(entries0, other) by {
                    lemma_find_drop_global(entries0, name@, other);
                }
            }
        }
    }
}

} // verus!
