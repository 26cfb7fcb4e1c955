//! Unit files. `SystemdServiceUnit` assembles a generic unit from named
//! sections of key/value settings, normalized to sorted order so
//! generation is deterministic; `SystemdUnit` renders the supervised
//! service unit the installer writes for a package, which calls back into
//! the manager binary to launch and stop the payload.

use vstd::multiset::Multiset;
use vstd::prelude::*;
use vstd::string::*;

use crate::package::CompiledPackage;
use crate::template::pairs_view;
use crate::text::lex_le;
use crate::text::lemma_lex_total;
use crate::text::str_lex_le;

verus! {

/// Adjacent-sorted in code-point order of the keys.
pub open spec fn entries_sorted(es: Seq<(Seq<char>, Seq<char>)>) -> bool {
    forall|m: int| 0 <= m < es.len() - 1 ==> lex_le((#[trigger] es[m]).0, es[m + 1].0)
}

/// Adjacent-sorted in code-point order of the section names.
pub open spec fn sections_sorted(ss: Seq<(String, Vec<(String, String)>)>) -> bool {
    forall|m: int| 0 <= m < ss.len() - 1 ==> lex_le((#[trigger] ss[m]).0@, ss[m + 1].0@)
}

/// Every section of `ss` whose name is not `n`, in order.
pub open spec fn drop_section(ss: Seq<(String, Vec<(String, String)>)>, n: Seq<char>) -> Seq<
    (String, Vec<(String, String)>),
>
    decreases ss.len(),
{
    if ss.len() == 0 {
        Seq::empty()
    } else if ss[0].0@ == n {
        drop_section(ss.skip(1), n)
    } else {
        seq![ss[0]] + drop_section(ss.skip(1), n)
    }
}

proof fn lemma_drop_section_push(
    s: Seq<(String, Vec<(String, String)>)>,
    x: (String, Vec<(String, String)>),
    n: Seq<char>,
)
    ensures
        drop_section(s.push(x), n) == drop_section(s, n) + (if x.0@ == n {
            Seq::<(String, Vec<(String, String)>)>::empty()
        } else {
            seq![x]
        }),
    decreases s.len(),
{
    if s.len() == 0 {
        assert(s.push(x)[0] == x);
        assert(s.push(x).skip(1) =~= s);
        if x.0@ == n {
            assert(drop_section(s, n) + Seq::<(String, Vec<(String, String)>)>::empty()
                =~= drop_section(s, n));
        } else {
            assert(seq![x] + drop_section(s, n) =~= drop_section(s, n) + seq![x]);
        }
    } else {
        assert(s.push(x)[0] == s[0]);
        assert(s.push(x).skip(1) =~= s.skip(1).push(x));
        lemma_drop_section_push(s.skip(1), x, n);
        if s[0].0@ != n {
            if x.0@ == n {
                assert(drop_section(s.push(x), n) =~= drop_section(s, n) + Seq::<
                    (String, Vec<(String, String)>),
                >::empty());
            } else {
                assert(drop_section(s.push(x), n) =~= drop_section(s, n) + seq![x]);
            }
        }
    }
}

/// Sorts a settings list by key: the result is ordered and holds exactly
/// the given pairs.
fn sort_entries(section: Vec<(String, String)>) -> (r: Vec<(String, String)>)
    ensures
        entries_sorted(pairs_view(r@)),
        r@.to_multiset() == section@.to_multiset(),
{
    let ghost total = section@.to_multiset();
    let mut out: Vec<(String, String)> = Vec::new();
    let mut src = section;
    proof {
        broadcast use vstd::seq_lib::group_to_multiset_ensures;

        assert(out@.to_multiset() =~= Multiset::<(String, String)>::empty());
        assert(out@.to_multiset().add(src@.to_multiset()) =~= total);
    }
    while src.len() > 0
        invariant
            entries_sorted(pairs_view(out@)),
            out@.to_multiset().add(src@.to_multiset()) == total,
        decreases src@.len(),
    {
        broadcast use vstd::seq_lib::group_to_multiset_ensures;

        let ghost src0 = src@;
        let p = src.remove(0);
        proof {
            assert(src@ =~= src0.remove(0));
            assert(src0[0] == p);
            assert(src@.to_multiset() =~= src0.to_multiset().remove(p));
            assert(src0.to_multiset().count(p) > 0);
        }
        let ghost pv = (p.0@, p.1@);
        let mut idx: usize = 0;
        while idx < out.len()
            invariant
                idx <= out@.len(),
                pv == (p.0@, p.1@),
                forall|m: int| 0 <= m < idx ==> lex_le((#[trigger] pairs_view(out@)[m]).0, pv.0),
            ensures
                idx <= out@.len(),
                pv == (p.0@, p.1@),
                forall|m: int| 0 <= m < idx ==> lex_le((#[trigger] pairs_view(out@)[m]).0, pv.0),
                idx < out@.len() ==> !lex_le((pairs_view(out@)[idx as int]).0, pv.0),
            decreases out@.len() - idx,
        {
            if !str_lex_le(out[idx].0.as_str(), p.0.as_str()) {
                break ;
            }
            idx = idx + 1;
        }
        let ghost out0 = out@;
        let ghost pos = idx as int;
        proof {
            if pos < out0.len() {
                lemma_lex_total((pairs_view(out0)[pos]).0, pv.0);
            }
        }
        out.insert(idx, p);
        proof {
            assert forall|m: int| 0 <= m < out@.len() implies pairs_view(out@)[m] == (if m < pos {
                pairs_view(out0)[m]
            } else if m == pos {
                pv
            } else {
                pairs_view(out0)[m - 1]
            }) by {
                if m < pos {
                    assert(out@[m] == out0[m]);
                } else if m == pos {
                    assert(out@[m] == p);
                } else {
                    assert(out@[m] == out0[m - 1]);
                }
            }
            assert(entries_sorted(pairs_view(out@)));
            assert(out@.remove(pos) =~= out0);
            assert(out@[pos] == p);
            assert(out@.to_multiset().remove(p) =~= out0.to_multiset());
            assert(out@.to_multiset().count(p) > 0);
            assert(out@.to_multiset() =~= out0.to_multiset().insert(p));
            assert(out@.to_multiset().add(src@.to_multiset()) =~= total);
        }
    }
    proof {
        broadcast use vstd::seq_lib::group_to_multiset_ensures;

        assert(src@.to_multiset() =~= Multiset::<(String, String)>::empty());
        assert(out@.to_multiset().add(src@.to_multiset()) =~= out@.to_multiset());
    }
    out
}

/// A generic unit file under construction: named sections of key/value
/// settings, kept in sorted, normalized order.
#[derive(Debug, Clone, PartialEq, Eq)]
pub struct SystemdServiceUnit {
    pub name: String,
    pub sections: Vec<(String, Vec<(String, String)>)>,
}

impl Default for SystemdServiceUnit {
    /// The default unit has no name and no sections.
    fn default() -> (r: Self)
        ensures
            r.name@ == Seq::<char>::empty(),
            r.sections@ == Seq::<(String, Vec<(String, String)>)>::empty(),
    {
        SystemdServiceUnit { name: String::new(), sections: Vec::new() }
    }
}

impl SystemdServiceUnit {
    /// Removes every section bearing this name.
    fn remove_section(&mut self, name: &str)
        ensures
            final(self).name == old(self).name,
            final(self).sections@ == drop_section(old(self).sections@, name@),
    {
        let ghost sections0 = self.sections@;
        let ghost name0 = self.name;
        let mut kept: Vec<(String, Vec<(String, String)>)> = Vec::new();
        while self.sections.len() > 0
            invariant
                self.name == name0,
                drop_section(sections0, name@) == drop_section(self.sections@, name@) + kept@,
            decreases self.sections@.len(),
        {
            let ghost before = self.sections@;
            let q = self.sections.pop().unwrap();
            proof {
                assert(before =~= self.sections@.push(q));
                lemma_drop_section_push(self.sections@, q, name@);
            }
            if !crate::text::str_eq(q.0.as_str(), name) {
                let ghost kept0 = kept@;
                kept.insert(0, q);
                proof {
                    assert(kept@ =~= seq![q] + kept0);
                    assert(drop_section(self.sections@, name@) + seq![q] + kept0 =~= drop_section(
                        self.sections@,
                        name@,
                    ) + kept@);
                }
            }
        }
        proof {
            assert(drop_section(self.sections@, name@) =~= Seq::<
                (String, Vec<(String, String)>),
            >::empty());
            assert(Seq::<(String, Vec<(String, String)>)>::empty() + kept@ =~= kept@);
        }
        self.sections = kept;
    }

    /// Inserts a section at its place in name order; returns where it
    /// went.
    #[verifier::rlimit(60)]
    fn insert_section(&mut self, name: String, entries: Vec<(String, String)>) -> (pos: usize)
        ensures
            pos <= old(self).sections@.len(),
            final(self).sections@ == old(self).sections@.insert(pos as int, ((name, entries))),
            final(self).name == old(self).name,
            final(self).sections@.len() == old(self).sections@.len() + 1,
            exists|m: int|
                0 <= m < final(self).sections@.len() && #[trigger] final(self).sections@[m] == (
                name,
                entries,
            ),
            forall|m: int|
                0 <= m < final(self).sections@.len() ==> #[trigger] final(self).sections@[m] == (
                name,
                entries,
            ) || (exists|j: int|
                0 <= j < old(self).sections@.len() && old(self).sections@[j] == final(self).sections@[m]),
            forall|j: int|
                0 <= j < old(self).sections@.len() ==> exists|m: int|
                    0 <= m < final(self).sections@.len() && final(self).sections@[m] == #[trigger]
                        old(self).sections@[j],
            sections_sorted(old(self).sections@) ==> sections_sorted(final(self).sections@),
    {
        let ghost dropped = self.sections@;
        let ghost nv = name@;
        let mut idx: usize = 0;
        while idx < self.sections.len()
            invariant
                idx <= self.sections@.len(),
                nv == name@,
                dropped == self.sections@,
                forall|m: int| 0 <= m < idx ==> lex_le((#[trigger] self.sections@[m]).0@, nv),
            ensures
                idx <= self.sections@.len(),
                dropped == self.sections@,
                forall|m: int| 0 <= m < idx ==> lex_le((#[trigger] self.sections@[m]).0@, nv),
                idx < self.sections@.len() ==> !lex_le(self.sections@[idx as int].0@, nv),
            decreases self.sections@.len() - idx,
        {
            if !str_lex_le(self.sections[idx].0.as_str(), name.as_str()) {
                break ;
            }
            idx = idx + 1;
        }
        let ghost pos = idx as int;
        proof {
            if pos < dropped.len() {
                lemma_lex_total(dropped[pos].0@, nv);
            }
        }
        let ghost newsec = (name, entries);
        self.sections.insert(idx, (name, entries));
        proof {
            dropped.insert_ensures(pos, newsec);
            assert forall|m: int| 0 <= m < self.sections@.len() implies self.sections@[m] == (
            if m < pos {
                dropped[m]
            } else if m == pos {
                newsec
            } else {
                dropped[m - 1]
            }) by {
                if m < pos {
                    assert(dropped.insert(pos, newsec)[m] == dropped[m]);
                } else if m == pos {
                    assert(dropped.insert(pos, newsec)[pos] == newsec);
                } else {
                    assert(dropped.insert(pos, newsec)[(m - 1) + 1] == dropped[m - 1]);
                }
            }
            assert(self.sections@[pos] == newsec);
            assert forall|j: int| 0 <= j < dropped.len() implies exists|m: int|
                0 <= m < self.sections@.len() && self.sections@[m] == #[trigger] dropped[j] by {
                if j < pos {
                    assert(self.sections@[j] == dropped[j]);
                } else {
                    assert(self.sections@[j + 1] == dropped[j]);
                }
            }
            if sections_sorted(dropped) {
                assert(sections_sorted(self.sections@));
            }
        }
        idx
    }

    /// Stores a section under a name, replacing any section of the same
    /// name; the section's settings are normalized to key order, and a
    /// sorted section list stays sorted by name.
    #[verifier::rlimit(60)]
    pub fn add_section(&mut self, name: String, section: Vec<(String, String)>)
        ensures
            final(self).name == old(self).name,
            // the stored list is exactly the old one without the named
            // section, with one section of that name (the given settings,
            // sorted) inserted
            exists|p: int, sec: (String, Vec<(String, String)>)|
                0 <= p <= drop_section(old(self).sections@, name@).len() && sec.0@ == name@
                    && sec.1@.to_multiset() == section@.to_multiset() && entries_sorted(
                    pairs_view(sec.1@),
                ) && final(self).sections@ == #[trigger] drop_section(
                    old(self).sections@,
                    name@,
                ).insert(p, sec),
            // exactly one stored section bears the name
            forall|m1: int, m2: int|
                0 <= m1 < m2 < final(self).sections@.len() ==> !((#[trigger] final(
                    self
                ).sections@[m1]).0@ == name@ && (#[trigger] final(self).sections@[m2]).0@
                    == name@),
            // the named section holds exactly the given settings, sorted
            exists|m: int|
                0 <= m < final(self).sections@.len() && (#[trigger] final(self).sections@[m]).0@
                    == name@ && final(self).sections@[m].1@.to_multiset() == section@.to_multiset()
                    && entries_sorted(pairs_view(final(self).sections@[m].1@)),
            // every other stored section is exactly one of the old ones
            forall|m: int|
                0 <= m < final(self).sections@.len() && (#[trigger] final(self).sections@[m]).0@
                    != name@ ==> exists|j: int|
                    0 <= j < old(self).sections@.len() && old(self).sections@[j] == final(self).sections@[m],
            // every old section of another name is kept
            forall|j: int|
                0 <= j < old(self).sections@.len() && (#[trigger] old(self).sections@[j]).0@
                    != name@ ==> exists|m: int|
                    0 <= m < final(self).sections@.len() && final(self).sections@[m] == old(
                        self,
                    ).sections@[j],
            // a sorted section list stays sorted
            sections_sorted(old(self).sections@) ==> sections_sorted(final(self).sections@),
    {
        let ghost sections0 = self.sections@;
        let entries = sort_entries(section);
        let ghost nv = name@;
        self.remove_section(name.as_str());
        let ghost dropped = self.sections@;
        proof {
            lemma_drop_section_sound(sections0, nv);
            lemma_drop_section_complete(sections0, nv);
            if sections_sorted(sections0) {
                lemma_sections_full_sorted(sections0);
                lemma_drop_section_sorted(sections0, nv);
            }
        }
        let ghost newsec = (name, entries);
        let at = self.insert_section(name, entries);
        proof {
            let pin = at as int;
            assert(self.sections@ == dropped.insert(pin, newsec));
            dropped.insert_ensures(pin, newsec);
            assert(0 <= pin <= drop_section(sections0, nv).len() && newsec.0@ == nv
                && newsec.1@.to_multiset() == section@.to_multiset() && entries_sorted(
                pairs_view(newsec.1@),
            ) && self.sections@ == drop_section(sections0, nv).insert(pin, newsec));
            assert forall|m1: int, m2: int|
                0 <= m1 < m2 < self.sections@.len() implies !((#[trigger] self.sections@[m1]).0@
                == nv && (#[trigger] self.sections@[m2]).0@ == nv) by {
                if m1 != pin {
                    if m1 < pin {
                        assert(dropped.insert(pin, newsec)[m1] == dropped[m1]);
                        assert((dropped[m1]).0@ != nv);
                    } else {
                        assert(dropped.insert(pin, newsec)[(m1 - 1) + 1] == dropped[m1 - 1]);
                        assert((dropped[m1 - 1]).0@ != nv);
                    }
                } else {
                    if m2 < pin {
                        assert(dropped.insert(pin, newsec)[m2] == dropped[m2]);
                        assert((dropped[m2]).0@ != nv);
                    } else {
                        assert(dropped.insert(pin, newsec)[(m2 - 1) + 1] == dropped[m2 - 1]);
                        assert((dropped[m2 - 1]).0@ != nv);
                    }
                }
            }
            let m0 = choose|m0: int|
                0 <= m0 < self.sections@.len() && #[trigger] self.sections@[m0] == newsec;
            assert(self.sections@[m0].0@ == nv);
            assert forall|m: int|
                0 <= m < self.sections@.len() && (#[trigger] self.sections@[m]).0@ != nv implies
                exists|j: int|
                0 <= j < sections0.len() && sections0[j] == self.sections@[m] by {
                assert(self.sections@[m] != newsec);
                let j1 = choose|j1: int|
                    0 <= j1 < dropped.len() && dropped[j1] == self.sections@[m];
                let j = choose|j: int| 0 <= j < sections0.len() && sections0[j] == dropped[j1];
                assert(sections0[j] == self.sections@[m]);
            }
            assert forall|j: int|
                0 <= j < sections0.len() && (#[trigger] sections0[j]).0@ != nv implies exists|
                m: int,
            |
                0 <= m < self.sections@.len() && self.sections@[m] == sections0[j] by {
                let m1 = choose|m1: int|
                    0 <= m1 < dropped.len() && (#[trigger] dropped[m1]) == sections0[j];
                let m = choose|m: int|
                    0 <= m < self.sections@.len() && self.sections@[m] == (#[trigger] dropped[m1]);
                assert(self.sections@[m] == sections0[j]);
            }
        }
    }
}

/// Dropping a name keeps exactly the sections of other names, and keeps a
/// sorted list sorted.
proof fn lemma_drop_section_sound(ss: Seq<(String, Vec<(String, String)>)>, n: Seq<char>)
    ensures
        forall|m: int|
            0 <= m < drop_section(ss, n).len() ==> (#[trigger] drop_section(ss, n)[m]).0@ != n && (
            exists|j: int| 0 <= j < ss.len() && ss[j] == drop_section(ss, n)[m]),
    decreases ss.len(),
{
    if ss.len() > 0 {
        lemma_drop_section_sound(ss.skip(1), n);
        let d = drop_section(ss, n);
        let dr = drop_section(ss.skip(1), n);
        if ss[0].0@ == n {
            assert forall|m: int| 0 <= m < d.len() implies (#[trigger] d[m]).0@ != n && (exists|
                j: int,
            | 0 <= j < ss.len() && ss[j] == d[m]) by {
                let j = choose|j: int| 0 <= j < ss.skip(1).len() && ss.skip(1)[j] == dr[m];
                assert(ss[j + 1] == d[m]);
            }
        } else {
            assert(d[0] == ss[0]);
            assert(d.skip(1) =~= dr);
            assert forall|m: int| 0 <= m < d.len() implies (#[trigger] d[m]).0@ != n && (exists|
                j: int,
            | 0 <= j < ss.len() && ss[j] == d[m]) by {
                if m == 0 {
                    assert(ss[0] == d[0]);
                } else {
                    assert(d[m] == dr[m - 1]);
                    let j = choose|j: int|
                        0 <= j < ss.skip(1).len() && ss.skip(1)[j] == dr[m - 1];
                    assert(ss[j + 1] == d[m]);
                }
            }
        }
    }
}

proof fn lemma_drop_section_complete(ss: Seq<(String, Vec<(String, String)>)>, n: Seq<char>)
    ensures
        forall|j: int|
            0 <= j < ss.len() && (#[trigger] ss[j]).0@ != n ==> exists|m: int|
                0 <= m < drop_section(ss, n).len() && drop_section(ss, n)[m] == ss[j],
    decreases ss.len(),
{
    if ss.len() > 0 {
        lemma_drop_section_complete(ss.skip(1), n);
        let d = drop_section(ss, n);
        let dr = drop_section(ss.skip(1), n);
        if ss[0].0@ == n {
            assert forall|j: int| 0 <= j < ss.len() && (#[trigger] ss[j]).0@ != n implies exists|
                m: int,
            | 0 <= m < d.len() && d[m] == ss[j] by {
                assert(ss.skip(1)[j - 1] == ss[j]);
                let m = choose|m: int| 0 <= m < dr.len() && (#[trigger] dr[m]) == ss.skip(1)[j - 1];
                assert(d[m] == ss[j]);
            }
        } else {
            assert(d[0] == ss[0]);
            assert(d.skip(1) =~= dr);
            assert forall|j: int| 0 <= j < ss.len() && (#[trigger] ss[j]).0@ != n implies exists|
                m: int,
            | 0 <= m < d.len() && d[m] == ss[j] by {
                if j == 0 {
                    assert(d[0] == ss[0]);
                } else {
                    assert(ss.skip(1)[j - 1] == ss[j]);
                    let m = choose|m: int|
                        0 <= m < dr.len() && (#[trigger] dr[m]) == ss.skip(1)[j - 1];
                    assert(d[m + 1] == ss[j]);
                }
            }
        }
    }
}

/// Adjacent sortedness of the names extends to all pairs.
proof fn lemma_sections_full_sorted(ss: Seq<(String, Vec<(String, String)>)>)
    requires
        sections_sorted(ss),
    ensures
        forall|i: int, j: int| 0 <= i < j < ss.len() ==> lex_le((#[trigger] ss[i]).0@, (#[trigger] ss[j]).0@),
{
    assert forall|i: int, j: int| 0 <= i < j < ss.len() implies lex_le(
        (#[trigger] ss[i]).0@,
        (#[trigger] ss[j]).0@,
    ) by {
        lemma_sections_le_from(ss, i, j);
    }
}

proof fn lemma_sections_le_from(ss: Seq<(String, Vec<(String, String)>)>, i: int, j: int)
    requires
        sections_sorted(ss),
        0 <= i < j < ss.len(),
    ensures
        lex_le(ss[i].0@, ss[j].0@),
    decreases j - i,
{
    if j == i + 1 {
    } else {
        lemma_sections_le_from(ss, i, j - 1);
        assert(lex_le(ss[j - 1].0@, ss[j].0@));
        crate::text::lemma_lex_trans(ss[i].0@, ss[j - 1].0@, ss[j].0@);
    }
}

proof fn lemma_drop_section_sorted(ss: Seq<(String, Vec<(String, String)>)>, n: Seq<char>)
    requires
        forall|i: int, j: int|
            0 <= i < j < ss.len() ==> lex_le((#[trigger] ss[i]).0@, (#[trigger] ss[j]).0@),
    ensures
        forall|i: int, j: int|
            0 <= i < j < drop_section(ss, n).len() ==> lex_le(
                (#[trigger] drop_section(ss, n)[i]).0@,
                (#[trigger] drop_section(ss, n)[j]).0@,
            ),
    decreases ss.len(),
{
    if ss.len() > 0 {
        lemma_drop_section_sorted(ss.skip(1), n);
        lemma_drop_section_sound(ss.skip(1), n);
        let d = drop_section(ss, n);
        let dr = drop_section(ss.skip(1), n);
        if ss[0].0@ == n {
        } else {
            assert(d[0] == ss[0]);
            assert(d.skip(1) =~= dr);
            assert forall|i: int, j: int| 0 <= i < j < d.len() implies lex_le(
                (#[trigger] d[i]).0@,
                (#[trigger] d[j]).0@,
            ) by {
                if i == 0 {
                    assert(d[j] == dr[j - 1]);
                    let j2 = choose|j2: int|
                        0 <= j2 < ss.skip(1).len() && ss.skip(1)[j2] == dr[j - 1];
                    assert(ss[j2 + 1] == d[j]);
                    assert(lex_le(ss[0].0@, ss[j2 + 1].0@));
                } else {
                    assert(d[i] == dr[i - 1]);
                    assert(d[j] == dr[j - 1]);
                }
            }
        }
    }
}

/// The text of a section's settings from index `j` on: one `key=value`
/// line per setting.
pub open spec fn entries_text_from(es: Seq<(String, String)>, j: int) -> Seq<char>
    decreases es.len() - j,
{
    if j < 0 || j >= es.len() {
        Seq::empty()
    } else {
        es[j].0@ + "="@ + es[j].1@ + "\n"@ + entries_text_from(es, j + 1)
    }
}

/// The text of one section: its bracketed header, its settings, and a
/// blank line.
pub open spec fn section_text(sec: (String, Vec<(String, String)>)) -> Seq<char> {
    "["@ + sec.0@ + "]\n"@ + entries_text_from(sec.1@, 0) + "\n"@
}

/// The text of the sections from index `i` on.
pub open spec fn unit_text_from(ss: Seq<(String, Vec<(String, String)>)>, i: int) -> Seq<char>
    decreases ss.len() - i,
{
    if i < 0 || i >= ss.len() {
        Seq::empty()
    } else {
        section_text(ss[i]) + unit_text_from(ss, i + 1)
    }
}

impl SystemdServiceUnit {
    /// Renders the unit: each stored section in stored order — sorted,
    /// when built through `add_section` — with its settings one per line.
    pub fn generate(&self) -> (r: Result<String, crate::errors::Error>)
        ensures
            r matches Ok(o) && o@ == unit_text_from(self.sections@, 0),
    {
        let ghost ss = self.sections@;
        let mut out = String::new();
        let mut i: usize = 0;
        while i < self.sections.len()
            invariant
                i <= ss.len(),
                ss == self.sections@,
                unit_text_from(ss, 0) == out@ + unit_text_from(ss, i as int),
            decreases ss.len() - i,
        {
            let ghost out_start = out@;
            out.append("[");
            out.append(self.sections[i].0.as_str());
            out.append("]\n");
            let ghost header_done = out@;
            proof {
                assert(header_done =~= out_start + ("["@ + ss[i as int].0@ + "]\n"@));
            }
            let ghost es = self.sections@[i as int].1@;
            let mut j: usize = 0;
            while j < self.sections[i].1.len()
                invariant
                    i < ss.len(),
                    ss == self.sections@,
                    j <= es.len(),
                    es == ss[i as int].1@,
                    out@ + entries_text_from(es, j as int) == header_done + entries_text_from(
                        es,
                        0,
                    ),
                decreases es.len() - j,
            {
                let ghost before = out@;
                out.append(self.sections[i].1[j].0.as_str());
                out.append("=");
                out.append(self.sections[i].1[j].1.as_str());
                out.append("\n");
                proof {
                    assert(out@ =~= before + (es[j as int].0@ + "="@ + es[j as int].1@ + "\n"@));
                    assert(before + (es[j as int].0@ + "="@ + es[j as int].1@ + "\n"@)
                        + entries_text_from(es, j + 1) =~= before + entries_text_from(
                        es,
                        j as int,
                    ));
                }
                j = j + 1;
            }
            proof {
                assert(entries_text_from(es, j as int) =~= Seq::<char>::empty());
                assert(out@ + Seq::<char>::empty() =~= out@);
            }
            out.append("\n");
            proof {
                assert(out@ =~= out_start + section_text(ss[i as int]));
                assert(out_start + section_text(ss[i as int]) + unit_text_from(ss, i + 1)
                    =~= out_start + unit_text_from(ss, i as int));
            }
            i = i + 1;
        }
        proof {
            assert(unit_text_from(ss, i as int) =~= Seq::<char>::empty());
            assert(out@ + Seq::<char>::empty() =~= out@);
        }
        Ok(out)
    }
}

/// The full text of the unit the installer writes for a package: it
/// supervises the payload by calling the manager binary back with
/// `launch` and `stop`, restarts it always, and gives it five minutes.
pub open spec fn charon_unit_text(
    name: Seq<char>,
    version: Seq<char>,
    charon: Seq<char>,
    socket: Seq<char>,
    registry: Seq<char>,
    volroot: Seq<char>,
) -> Seq<char> {
    "\n[Unit]\nDescription=Charon launcher for "@ + name + ", version "@ + version
        + "\n\n[Service]\nExecStart="@ + charon + " -b "@ + socket + " -r "@ + registry
        + " launch "@ + name + " "@ + version + " "@ + volroot + "\nExecStop="@ + charon + " -b "@
        + socket + " -r "@ + registry + " stop "@ + name + " "@ + version + " "@ + volroot
        + "\nRestart=always\nTimeoutSec=300\n\n[Install]\nAlias="@ + name + "-"@ + version
        + ".service\n"@
}

/// The supervised-service unit of one compiled package.
#[derive(Debug, Clone, PartialEq, Eq)]
pub struct SystemdUnit {
    pub buckle_socket: String,
    pub package: CompiledPackage,
    pub systemd_root: Option<String>,
    pub charon_path: Option<String>,
}

impl SystemdUnit {
    /// A unit for the package, supervised through the agent at the given
    /// socket.
    pub fn new(
        buckle_socket: String,
        package: CompiledPackage,
        systemd_root: Option<String>,
        charon_path: Option<String>,
    ) -> (r: Self)
        ensures
            r.buckle_socket == buckle_socket,
            r.package == package,
            r.systemd_root == systemd_root,
            r.charon_path == charon_path,
    {
        SystemdUnit { buckle_socket, package, systemd_root, charon_path }
    }

    /// A client handle for the agent this unit talks to.
    pub fn buckle(&self) -> (r: crate::agent::Client)
        ensures
            r.socket@ == self.buckle_socket@,
    {
        crate::agent::Client::new(self.buckle_socket.clone())
    }

    /// `name-version.service`.
    pub fn service_name(&self) -> (r: String)
        ensures
            r@ == self.package.title.name@ + "-"@ + self.package.title.version@ + ".service"@,
    {
        let mut out = self.package.title.to_string();
        out.append(".service");
        proof {
            assert(out@ =~= self.package.title.name@ + "-"@ + self.package.title.version@
                + ".service"@);
        }
        out
    }

    /// The path of the unit file, under the configured service root or
    /// the system default.
    pub fn filename(&self) -> (r: String)
        ensures
            r@ == (match self.systemd_root {
                Some(root) => root@,
                None => "/etc/systemd/system"@,
            }) + "/"@ + self.package.title.name@ + "-"@ + self.package.title.version@
                + ".service"@,
    {
        let mut out = match &self.systemd_root {
            Some(root) => String::from_str(root.as_str()),
            None => String::from_str("/etc/systemd/system"),
        };
        out.append("/");
        let title = self.package.title.to_string();
        out.append(title.as_str());
        out.append(".service");
        proof {
            assert(out@ =~= (match self.systemd_root {
                Some(root) => root@,
                None => "/etc/systemd/system"@,
            }) + "/"@ + self.package.title.name@ + "-"@ + self.package.title.version@
                + ".service"@);
        }
        out
    }

    /// The unit file's text, pointing the manager binary at the registry,
    /// the agent socket, and the package's volume root.
    pub fn unit(&self, registry_path: &str, volume_root: &str) -> (r: String)
        ensures
            r@ == charon_unit_text(
                self.package.title.name@,
                self.package.title.version@,
                match self.charon_path {
                    Some(p) => p@,
                    None => "/usr/bin/charon"@,
                },
                self.buckle_socket@,
                registry_path@,
                volume_root@,
            ),
    {
        let charon = match &self.charon_path {
            Some(p) => String::from_str(p.as_str()),
            None => String::from_str("/usr/bin/charon"),
        };
        let name = self.package.title.name.as_str();
        let version = self.package.title.version.as_str();
        let mut out = String::new();
        out.append("\n[Unit]\nDescription=Charon launcher for ");
        out.append(name);
        out.append(", version ");
        out.append(version);
        out.append("\n\n[Service]\nExecStart=");
        out.append(charon.as_str());
        out.append(" -b ");
        out.append(self.buckle_socket.as_str());
        out.append(" -r ");
        out.append(registry_path);
        out.append(" launch ");
        out.append(name);
        out.append(" ");
        out.append(version);
        out.append(" ");
        out.append(volume_root);
        out.append("\nExecStop=");
        out.append(charon.as_str());
        out.append(" -b ");
        out.append(self.buckle_socket.as_str());
        out.append(" -r ");
        out.append(registry_path);
        out.append(" stop ");
        out.append(name);
        out.append(" ");
        out.append(version);
        out.append(" ");
        out.append(volume_root);
        out.append("\nRestart=always\nTimeoutSec=300\n\n[Install]\nAlias=");
        out.append(name);
        out.append("-");
        out.append(version);
        out.append(".service\n");
        proof {
            assert(out@ =~= charon_unit_text(
                self.package.title.name@,
                self.package.title.version@,
                match self.charon_path {
                    Some(p) => p@,
                    None => "/usr/bin/charon"@,
                },
                self.buckle_socket@,
                registry_path@,
                volume_root@,
            ));
        }
        out
    }
}

} // verus!
