//! Prompts and responses. A package declares an ordered list of prompts;
//! the user's answers are stored per package name and drive the second
//! template pass (delimiter `?`). `ResponseRegistry` models the
//! `responses/` area of the registry.

use vstd::prelude::*;
use vstd::string::*;

use crate::errors::Error;
use crate::input::Input;
use crate::input::InputType;
use crate::input::input_chars;
use crate::template::expand;
use crate::template::expand_spec;
use crate::template::pairs_view;
use crate::text::push_char;
use crate::text::str_eq;

verus! {

/// One question a package asks, keyed by its template name.
#[derive(Debug, Clone, PartialEq, Eq)]
pub struct Prompt {
    pub template: String,
    pub question: String,
    pub input_type: InputType,
}

/// The observable content of a prompt.
pub open spec fn prompt_v(p: Prompt) -> (Seq<char>, Seq<char>, InputType) {
    (p.template@, p.question@, p.input_type)
}

/// The observable content of a prompt list.
pub open spec fn prompts_view(ps: Seq<Prompt>) -> Seq<(Seq<char>, Seq<char>, InputType)> {
    ps.map_values(|p: Prompt| prompt_v(p))
}

impl Prompt {
    /// A copy of this prompt.
    pub fn duplicate(&self) -> (r: Self)
        ensures
            prompt_v(r) == prompt_v(*self),
    {
        Prompt {
            template: self.template.clone(),
            question: self.question.clone(),
            input_type: self.input_type,
        }
    }
}

/// The ordered prompts of one package.
#[derive(Debug, Clone, PartialEq, Eq)]
pub struct PromptCollection(pub Vec<Prompt>);

impl PromptCollection {
    /// A copy of the prompt list.
    pub fn to_vec(&self) -> (r: Vec<Prompt>)
        ensures
            prompts_view(r@) == prompts_view(self.0@),
    {
        let mut v: Vec<Prompt> = Vec::new();
        let mut i: usize = 0;
        while i < self.0.len()
            invariant
                i <= self.0@.len(),
                v@.len() == i,
                forall|j: int|
                    0 <= j < i ==> prompt_v(#[trigger] v@[j]) == prompt_v(self.0@[j]),
            decreases self.0@.len() - i,
        {
            v.push(self.0[i].duplicate());
            i = i + 1;
        }
        proof {
            assert forall|j: int| 0 <= j < prompts_view(v@).len() implies prompts_view(v@)[j]
                == prompts_view(self.0@)[j] by {
                assert(prompt_v(v@[j]) == prompt_v(self.0@[j]));
            }
            assert(prompts_view(v@) =~= prompts_view(self.0@));
        }
        v
    }

    /// A copy of the collection.
    pub fn duplicate(&self) -> (r: Self)
        ensures
            prompts_view(r.0@) == prompts_view(self.0@),
    {
        PromptCollection(self.to_vec())
    }
}

impl Default for PromptCollection {
    /// The default collection asks nothing.
    fn default() -> (r: Self)
        ensures
            r.0@ == Seq::<Prompt>::empty(),
    {
        PromptCollection(Vec::new())
    }
}

/// One stored answer: the template key and the typed value.
#[derive(Debug, Clone, PartialEq, Eq)]
pub struct PromptResponse {
    pub template: String,
    pub input: Input,
}

impl PromptResponse {
    /// The text substituted for this response's key.
    pub fn to_string(&self) -> (r: String)
        ensures
            r@ == input_chars(self.input),
    {
        self.input.to_string()
    }
}

/// The ordered answers stored for one package name.
#[derive(Debug, Clone, PartialEq, Eq)]
pub struct PromptResponses(pub Vec<PromptResponse>);

impl Default for PromptResponses {
    /// The default holds no answers.
    fn default() -> (r: Self)
        ensures
            r.0@ == Seq::<PromptResponse>::empty(),
    {
        PromptResponses(Vec::new())
    }
}

impl From<Vec<PromptResponse>> for PromptResponses {
    fn from(value: Vec<PromptResponse>) -> (r: Self) {
        PromptResponses(value)
    }
}

impl vstd::std_specs::convert::FromSpecImpl<Vec<PromptResponse>> for PromptResponses {
    open spec fn obeys_from_spec() -> bool {
        true
    }

    open spec fn from_spec(value: Vec<PromptResponse>) -> Self {
        PromptResponses(value)
    }
}

/// The key/value pairs the second template pass substitutes: each response
/// key mapped to the text form of its value.
pub open spec fn response_pairs(rs: Seq<PromptResponse>) -> Seq<(Seq<char>, Seq<char>)> {
    rs.map_values(|r: PromptResponse| (r.template@, input_chars(r.input)))
}

/// The closed, non-empty template keys of `r`, in order of occurrence;
/// `inside` and `tmp` carry the machine state, as in expansion.
pub open spec fn keys_rest(r: Seq<char>, d: char, inside: bool, tmp: Seq<char>) -> Seq<Seq<char>>
    decreases r.len(),
{
    if r.len() == 0 {
        Seq::empty()
    } else {
        let ch = r[0];
        let rest = r.skip(1);
        if inside && ch == d {
            if tmp.len() == 0 {
                keys_rest(rest, d, false, Seq::empty())
            } else {
                seq![tmp] + keys_rest(rest, d, false, Seq::empty())
            }
        } else if ch == d {
            keys_rest(rest, d, true, tmp)
        } else if inside {
            keys_rest(rest, d, inside, tmp.push(ch))
        } else {
            keys_rest(rest, d, false, tmp)
        }
    }
}

/// The closed template keys of `s`, in order of occurrence.
pub open spec fn keys_of(s: Seq<char>, d: char) -> Seq<Seq<char>> {
    keys_rest(s, d, false, Seq::empty())
}

/// The prompts of `ps` whose key is `k`, in order.
pub open spec fn matches_for(ps: Seq<Prompt>, k: Seq<char>) -> Seq<
    (Seq<char>, Seq<char>, InputType),
>
    decreases ps.len(),
{
    if ps.len() == 0 {
        Seq::empty()
    } else {
        (if ps[0].template@ == k {
            seq![prompt_v(ps[0])]
        } else {
            Seq::empty()
        }) + matches_for(ps.skip(1), k)
    }
}

/// For each key in order, the prompts matching it, concatenated.
pub open spec fn gathered(keys: Seq<Seq<char>>, ps: Seq<Prompt>) -> Seq<
    (Seq<char>, Seq<char>, InputType),
>
    decreases keys.len(),
{
    if keys.len() == 0 {
        Seq::empty()
    } else {
        matches_for(ps, keys[0]) + gathered(keys.skip(1), ps)
    }
}

proof fn lemma_prompts_view_push(v: Seq<Prompt>, p: Prompt)
    ensures
        prompts_view(v.push(p)) == prompts_view(v).push(prompt_v(p)),
{
    assert forall|j: int| 0 <= j < prompts_view(v.push(p)).len() implies prompts_view(v.push(p))[j]
        == prompts_view(v).push(prompt_v(p))[j] by {
        if j < v.len() {
            assert(v.push(p)[j] == v[j]);
        } else {
            assert(v.push(p)[j] == p);
        }
    }
    assert(prompts_view(v.push(p)) =~= prompts_view(v).push(prompt_v(p)));
}

/// Walks a string for prompt keys and substitutes responses.
#[derive(Debug, Clone, PartialEq, Eq)]
pub struct PromptParser(pub PromptCollection);

impl PromptParser {
    /// A copy of the prompt collection the parser walks with.
    pub fn collection(&self) -> (r: PromptCollection)
        ensures
            prompts_view(r.0@) == prompts_view(self.0.0@),
    {
        self.0.duplicate()
    }

    /// The prompts of the collection that `s` asks for: for each closed
    /// key of `s`, in order, every prompt with that key.
    pub fn prompts(&self, s: String) -> (r: Result<Vec<Prompt>, Error>)
        ensures
            r matches Ok(v) && prompts_view(v@) == gathered(keys_of(s@, '?'), self.0.0@),
    {
        let ghost ps = self.0.0@;
        let n = s.as_str().unicode_len();
        let mut v: Vec<Prompt> = Vec::new();
        let mut inside: bool = false;
        let mut tmp: String = String::new();
        let mut i: usize = 0;
        proof {
            assert(s@.skip(0) =~= s@);
        }
        while i < n
            invariant
                i <= n,
                n == s@.len(),
                ps == self.0.0@,
                gathered(keys_of(s@, '?'), ps) == prompts_view(v@) + gathered(
                    keys_rest(s@.skip(i as int), '?', inside, tmp@),
                    ps,
                ),
            decreases n - i,
        {
            let ch = s.as_str().get_char(i);
            proof {
                assert(s@.skip(i as int)[0] == s@[i as int]);
                assert(s@.skip(i as int).skip(1) =~= s@.skip(i + 1));
            }
            if inside && ch == '?' {
                inside = false;
                if tmp.as_str().is_empty() {
                    proof {
                        assert(tmp@ =~= Seq::<char>::empty());
                    }
                } else {
                    let ghost key = tmp@;
                    let ghost v0 = v@;
                    let ghost rest_keys = keys_rest(s@.skip(i + 1), '?', false, Seq::empty());
                    proof {
                        assert((seq![key] + rest_keys)[0] == key);
                        assert((seq![key] + rest_keys).skip(1) =~= rest_keys);
                    }
                    let mut j: usize = 0;
                    proof {
                        assert(ps.skip(0) =~= ps);
                    }
                    while j < self.0.0.len()
                        invariant
                            j <= ps.len(),
                            ps == self.0.0@,
                            key == tmp@,
                            prompts_view(v@) + matches_for(ps.skip(j as int), key) == prompts_view(
                                v0,
                            ) + matches_for(ps, key),
                        decreases ps.len() - j,
                    {
                        proof {
                            assert(ps.skip(j as int)[0] == ps[j as int]);
                            assert(ps.skip(j as int).skip(1) =~= ps.skip(j + 1));
                            assert(Seq::<(Seq<char>, Seq<char>, InputType)>::empty() + matches_for(
                                ps.skip(j + 1),
                                key,
                            ) =~= matches_for(ps.skip(j + 1), key));
                        }
                        if str_eq(self.0.0[j].template.as_str(), tmp.as_str()) {
                            let ghost vbefore = v@;
                            let ghost pj = prompt_v(ps[j as int]);
                            v.push(self.0.0[j].duplicate());
                            proof {
                                lemma_prompts_view_push(vbefore, v@.last());
                                assert(v@.drop_last() =~= vbefore);
                                assert(v@ =~= vbefore.push(v@.last()));
                                assert(prompts_view(v@) =~= prompts_view(vbefore).push(pj));
                                assert(prompts_view(vbefore).push(pj) =~= prompts_view(vbefore)
                                    + seq![pj]);
                                assert((prompts_view(vbefore) + seq![pj]) + matches_for(
                                    ps.skip(j + 1),
                                    key,
                                ) =~= prompts_view(vbefore) + (seq![pj] + matches_for(
                                    ps.skip(j + 1),
                                    key,
                                )));
                            }
                        }
                        j = j + 1;
                    }
                    proof {
                        assert(matches_for(ps.skip(j as int), key) =~= Seq::<
                            (Seq<char>, Seq<char>, InputType),
                        >::empty());
                        assert(prompts_view(v@) + Seq::<
                            (Seq<char>, Seq<char>, InputType),
                        >::empty() =~= prompts_view(v@));
                        assert(prompts_view(v0) + matches_for(ps, key) =~= prompts_view(v@));
                        assert(prompts_view(v0) + (matches_for(ps, key) + gathered(rest_keys, ps))
                            =~= (prompts_view(v0) + matches_for(ps, key)) + gathered(
                            rest_keys,
                            ps,
                        ));
                    }
                    tmp = String::new();
                }
            } else if ch == '?' {
                inside = true;
            } else if inside {
                push_char(&mut tmp, ch);
            }
            i = i + 1;
        }
        proof {
            assert(s@.skip(i as int).len() == 0);
            assert(prompts_view(v@) + Seq::<(Seq<char>, Seq<char>, InputType)>::empty()
                =~= prompts_view(v@));
        }
        Ok(v)
    }

    /// Runs the second template pass (delimiter `?`) over `s`, substituting
    /// the stored responses.
    pub fn template(&self, s: String, responses: &PromptResponses) -> (r: Result<String, Error>)
        ensures
            match r {
                Ok(o) => expand_spec(s@, '?', response_pairs(responses.0@)) == Ok::<
                    Seq<char>,
                    Seq<char>,
                >(o@),
                Err(e) => e matches Error::NoMatch(k) && expand_spec(
                    s@,
                    '?',
                    response_pairs(responses.0@),
                ) == Err::<Seq<char>, Seq<char>>(k@),
            },
    {
        let pairs = render_response_pairs(responses);
        expand(s.as_str(), '?', &pairs)
    }
}

/// Renders the responses to the key/value pairs the expansion pass uses.
pub fn render_response_pairs(responses: &PromptResponses) -> (r: Vec<(String, String)>)
    ensures
        pairs_view(r@) == response_pairs(responses.0@),
{
    let mut pairs: Vec<(String, String)> = Vec::new();
    let mut i: usize = 0;
    while i < responses.0.len()
        invariant
            i <= responses.0@.len(),
            pairs@.len() == i,
            forall|j: int|
                0 <= j < i ==> (#[trigger] pairs@[j]).0@ == responses.0@[j].template@
                    && pairs@[j].1@ == input_chars(responses.0@[j].input),
        decreases responses.0@.len() - i,
    {
        let key = responses.0[i].template.clone();
        let value = responses.0[i].to_string();
        pairs.push((key, value));
        i = i + 1;
    }
    proof {
        assert forall|j: int| 0 <= j < pairs_view(pairs@).len() implies pairs_view(pairs@)[j]
            == response_pairs(responses.0@)[j] by {
            assert(pairs@[j].0@ == responses.0@[j].template@);
            assert(pairs@[j].1@ == input_chars(responses.0@[j].input));
        }
        assert(pairs_view(pairs@) =~= response_pairs(responses.0@));
    }
    pairs
}

/// The responses stored for a name, if any: the most recent write wins.
pub open spec fn find_responses(
    rs: Seq<(String, PromptResponses)>,
    name: Seq<char>,
) -> Option<PromptResponses>
    decreases rs.len(),
{
    if rs.len() == 0 {
        None
    } else if rs[0].0@ == name {
        Some(rs[0].1)
    } else {
        find_responses(rs.skip(1), name)
    }
}

/// The on-disk `responses/` area: one atomically written record per
/// package name.
#[derive(Debug)]
pub struct ResponseRegistry {
    pub root: String,
    pub entries: Vec<(String, PromptResponses)>,
}

impl ResponseRegistry {
    /// An empty registry rooted at the given path.
    pub fn new(root: String) -> (r: Self)
        ensures
            r.root@ == root@,
            r.entries@ == Seq::<(String, PromptResponses)>::empty(),
    {
        ResponseRegistry { root, entries: Vec::new() }
    }

    /// The responses for a package name, or the error that none exist.
    pub fn get(&self, name: &str) -> (r: Result<&PromptResponses, Error>)
        ensures
            match r {
                Ok(g) => find_responses(self.entries@, name@) == Some(*g),
                Err(e) => find_responses(self.entries@, name@) is None && (e matches
                    Error::MissingResponses(n) && n@ == name@),
            },
    {
        let mut i: usize = 0;
        proof {
            assert(self.entries@.skip(0) =~= self.entries@);
        }
        while i < self.entries.len()
            invariant
                i <= self.entries@.len(),
                find_responses(self.entries@, name@) == find_responses(
                    self.entries@.skip(i as int),
                    name@,
                ),
            decreases self.entries@.len() - i,
        {
            proof {
                assert(self.entries@.skip(i as int)[0] == self.entries@[i as int]);
                assert(self.entries@.skip(i as int).skip(1) =~= self.entries@.skip(i + 1));
            }
            if str_eq(self.entries[i].0.as_str(), name) {
                return Ok(&self.entries[i].1);
            }
            i = i + 1;
        }
        proof {
            assert(self.entries@.skip(i as int).len() == 0);
        }
        Err(Error::MissingResponses(String::from_str(name)))
    }

    /// Stores the responses for a name; the write replaces any earlier
    /// record of the same name, and a reader sees either the old or the
    /// new record, never a mixture.
    pub fn set(&mut self, name: &str, responses: PromptResponses)
        ensures
            find_responses(final(self).entries@, name@) == Some(responses),
            forall|other: Seq<char>|
                other != name@ ==> #[trigger] find_responses(final(self).entries@, other)
                    == find_responses(old(self).entries@, other),
            final(self).root@ == old(self).root@,
    {
        let ghost entries0 = self.entries@;
        self.entries.insert(0, (String::from_str(name), responses));
        proof {
            assert(self.entries@[0].0@ == name@);
            assert(self.entries@.skip(1) =~= entries0);
        }
    }
}

} // verus!
