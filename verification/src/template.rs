//! The two-pass template engine. Each pass is one run of a tiny state
//! machine over the characters of a string with a single delimiter: text
//! outside delimiters is copied, a delimited key is replaced by its mapped
//! value, a doubled delimiter denotes the delimiter itself, and a string
//! that ends while a key is still open is passed through verbatim.
//!
//! `expand_spec` is the exact mathematical statement of one pass; the
//! executable `expand` is proved against it, and the laws at the bottom
//! state the guarantees the rest of the system relies on.

use vstd::prelude::*;
use vstd::string::*;

use crate::errors::Error;
use crate::text::push_char;
use crate::text::str_eq;

verus! {

/// The value of the first pair whose key equals `k`, if any.
pub open spec fn lookup(pairs: Seq<(Seq<char>, Seq<char>)>, k: Seq<char>) -> Option<Seq<char>>
    decreases pairs.len(),
{
    if pairs.len() == 0 {
        None
    } else if pairs[0].0 == k {
        Some(pairs[0].1)
    } else {
        lookup(pairs.skip(1), k)
    }
}

/// The character sequences of a vector of string pairs.
pub open spec fn pairs_view(v: Seq<(String, String)>) -> Seq<(Seq<char>, Seq<char>)> {
    v.map_values(|p: (String, String)| (p.0@, p.1@))
}

/// One step-by-step run of the expansion machine over the remaining input
/// `r`. `inside` says whether a key is open, `tmp` holds the key read so
/// far, and `out` the output already emitted. The result is the full
/// output, or the key that had no match.
pub open spec fn expand_rest(
    r: Seq<char>,
    d: char,
    pairs: Seq<(Seq<char>, Seq<char>)>,
    inside: bool,
    tmp: Seq<char>,
    out: Seq<char>,
) -> Result<Seq<char>, Seq<char>>
    decreases r.len(),
{
    if r.len() == 0 {
        if inside {
            Ok(out + seq![d] + tmp)
        } else {
            Ok(out)
        }
    } else {
        let ch = r[0];
        let rest = r.skip(1);
        if inside && ch == d {
            if tmp.len() == 0 {
                expand_rest(rest, d, pairs, false, Seq::empty(), out.push(d))
            } else {
                match lookup(pairs, tmp) {
                    Some(v) => expand_rest(rest, d, pairs, false, Seq::empty(), out + v),
                    None => Err(tmp),
                }
            }
        } else if ch == d {
            expand_rest(rest, d, pairs, true, tmp, out)
        } else if inside {
            expand_rest(rest, d, pairs, inside, tmp.push(ch), out)
        } else {
            expand_rest(rest, d, pairs, false, tmp, out.push(ch))
        }
    }
}

/// What one full pass over `s` with delimiter `d` yields.
pub open spec fn expand_spec(s: Seq<char>, d: char, pairs: Seq<(Seq<char>, Seq<char>)>) -> Result<
    Seq<char>,
    Seq<char>,
> {
    expand_rest(s, d, pairs, false, Seq::empty(), Seq::empty())
}

/// Finds the value of the first pair whose key equals `k`.
pub fn lookup_value(pairs: &Vec<(String, String)>, k: &str) -> (r: Option<String>)
    ensures
        match r {
            Some(v) => lookup(pairs_view(pairs@), k@) == Some(v@),
            None => lookup(pairs_view(pairs@), k@) is None,
        },
{
    let ghost pv = pairs_view(pairs@);
    let mut i: usize = 0;
    proof {
        assert(pv.skip(0) =~= pv);
    }
    while i < pairs.len()
        invariant
            i <= pairs@.len(),
            pv == pairs_view(pairs@),
            lookup(pv, k@) == lookup(pv.skip(i as int), k@),
        decreases pairs@.len() - i,
    {
        proof {
            assert(pv.skip(i as int)[0] == pv[i as int]);
            assert(pv.skip(i as int).skip(1) =~= pv.skip(i + 1));
        }
        if str_eq(pairs[i].0.as_str(), k) {
            let v = pairs[i].1.clone();
            return Some(v);
        }
        i = i + 1;
    }
    proof {
        assert(pv.skip(i as int).len() == 0);
    }
    None
}

/// Runs one expansion pass over `s` with delimiter `d`, replacing each
/// delimited key by the value of its first matching pair.
pub fn expand(s: &str, d: char, pairs: &Vec<(String, String)>) -> (r: Result<String, Error>)
    ensures
        match r {
            Ok(o) => expand_spec(s@, d, pairs_view(pairs@)) == Ok::<Seq<char>, Seq<char>>(o@),
            Err(e) => e matches Error::NoMatch(k) && expand_spec(s@, d, pairs_view(pairs@))
                == Err::<Seq<char>, Seq<char>>(k@),
        },
{
    let ghost pv = pairs_view(pairs@);
    let n = s.unicode_len();
    let mut inside: bool = false;
    let mut tmp: String = String::new();
    let mut out: String = String::new();
    let mut i: usize = 0;
    proof {
        assert(s@.skip(0) =~= s@);
    }
    while i < n
        invariant
            i <= n,
            n == s@.len(),
            pv == pairs_view(pairs@),
            expand_spec(s@, d, pv) == expand_rest(s@.skip(i as int), d, pv, inside, tmp@, out@),
        decreases n - i,
    {
        let ch = s.get_char(i);
        proof {
            assert(s@.skip(i as int)[0] == s@[i as int]);
            assert(s@.skip(i as int).skip(1) =~= s@.skip(i + 1));
        }
        if inside && ch == d {
            inside = false;
            if tmp.as_str().is_empty() {
                proof {
                    assert(tmp@ =~= Seq::<char>::empty());
                }
                push_char(&mut out, d);
            } else {
                match lookup_value(pairs, tmp.as_str()) {
                    Some(v) => {
                        out.append(v.as_str());
                        tmp = String::new();
                    },
                    None => {
                        return Err(Error::NoMatch(tmp));
                    },
                }
            }
        } else if ch == d {
            inside = true;
        } else if inside {
            push_char(&mut tmp, ch);
        } else {
            push_char(&mut out, ch);
        }
        i = i + 1;
    }
    proof {
        assert(s@.skip(i as int).len() == 0);
    }
    if inside {
        let ghost out0 = out@;
        push_char(&mut out, d);
        out.append(tmp.as_str());
        proof {
            assert(out@ =~= out0 + seq![d] + tmp@);
        }
    }
    Ok(out)
}

/// Whether the delimiter occurs nowhere in `s`.
pub open spec fn has_no_delim(s: Seq<char>, d: char) -> bool {
    forall|i: int| 0 <= i < s.len() ==> #[trigger] s[i] != d
}

proof fn lemma_copy_outside(
    s: Seq<char>,
    r2: Seq<char>,
    d: char,
    pairs: Seq<(Seq<char>, Seq<char>)>,
    tmp: Seq<char>,
    out: Seq<char>,
)
    requires
        has_no_delim(s, d),
    ensures
        expand_rest(s + r2, d, pairs, false, tmp, out) == expand_rest(
            r2,
            d,
            pairs,
            false,
            tmp,
            out + s,
        ),
    decreases s.len(),
{
    if s.len() == 0 {
        assert(s + r2 =~= r2);
        assert(out + s =~= out);
    } else {
        assert((s + r2)[0] == s[0]);
        assert((s + r2).skip(1) =~= s.skip(1) + r2);
        assert(out.push(s[0]) + s.skip(1) =~= out + s);
        lemma_copy_outside(s.skip(1), r2, d, pairs, tmp, out.push(s[0]));
    }
}

proof fn lemma_inside_tail(
    t: Seq<char>,
    d: char,
    pairs: Seq<(Seq<char>, Seq<char>)>,
    tmp: Seq<char>,
    out: Seq<char>,
)
    requires
        has_no_delim(t, d),
    ensures
        expand_rest(t, d, pairs, true, tmp, out) == Ok::<Seq<char>, Seq<char>>(
            out + seq![d] + (tmp + t),
        ),
    decreases t.len(),
{
    if t.len() == 0 {
        assert(tmp + t =~= tmp);
    } else {
        assert(tmp.push(t[0]) + t.skip(1) =~= tmp + t);
        lemma_inside_tail(t.skip(1), d, pairs, tmp.push(t[0]), out);
    }
}

proof fn lemma_inside_key(
    k: Seq<char>,
    rest: Seq<char>,
    d: char,
    pairs: Seq<(Seq<char>, Seq<char>)>,
    tmp: Seq<char>,
    out: Seq<char>,
)
    requires
        has_no_delim(k, d),
    ensures
        expand_rest(k + seq![d] + rest, d, pairs, true, tmp, out) == (if (tmp + k).len() == 0 {
            expand_rest(rest, d, pairs, false, Seq::empty(), out.push(d))
        } else {
            match lookup(pairs, tmp + k) {
                Some(v) => expand_rest(rest, d, pairs, false, Seq::empty(), out + v),
                None => Err(tmp + k),
            }
        }),
    decreases k.len(),
{
    if k.len() == 0 {
        assert(k + seq![d] + rest =~= seq![d] + rest);
        assert((seq![d] + rest)[0] == d);
        assert((seq![d] + rest).skip(1) =~= rest);
        assert(tmp + k =~= tmp);
    } else {
        assert((k + seq![d] + rest)[0] == k[0]);
        assert((k + seq![d] + rest).skip(1) =~= k.skip(1) + seq![d] + rest);
        assert(tmp.push(k[0]) + k.skip(1) =~= tmp + k);
        lemma_inside_key(k.skip(1), rest, d, pairs, tmp.push(k[0]), out);
    }
}

/// A string without the delimiter expands to itself.
pub proof fn lemma_expand_no_delimiter(s: Seq<char>, d: char, pairs: Seq<(Seq<char>, Seq<char>)>)
    requires
        has_no_delim(s, d),
    ensures
        expand_spec(s, d, pairs) == Ok::<Seq<char>, Seq<char>>(s),
{
    lemma_copy_outside(s, Seq::empty(), d, pairs, Seq::empty(), Seq::empty());
    assert(s + Seq::<char>::empty() =~= s);
    assert(Seq::<char>::empty() + s =~= s);
}

/// A delimited key that is present in the pairs expands to its mapped
/// value.
pub proof fn lemma_expand_key(
    k: Seq<char>,
    v: Seq<char>,
    d: char,
    pairs: Seq<(Seq<char>, Seq<char>)>,
)
    requires
        k.len() > 0,
        has_no_delim(k, d),
        lookup(pairs, k) == Some(v),
    ensures
        expand_spec(seq![d] + k + seq![d], d, pairs) == Ok::<Seq<char>, Seq<char>>(v),
{
    let s = seq![d] + k + seq![d];
    assert(s[0] == d);
    assert(s.skip(1) =~= k + seq![d] + Seq::<char>::empty());
    lemma_inside_key(k, Seq::empty(), d, pairs, Seq::empty(), Seq::empty());
    assert(Seq::<char>::empty() + k =~= k);
    assert(Seq::<char>::empty() + v =~= v);
}

/// A doubled delimiter expands to one delimiter character.
pub proof fn lemma_expand_doubled(d: char, pairs: Seq<(Seq<char>, Seq<char>)>)
    ensures
        expand_spec(seq![d, d], d, pairs) == Ok::<Seq<char>, Seq<char>>(seq![d]),
{
    let s = seq![d, d];
    assert(s[0] == d);
    assert(s.skip(1) =~= Seq::<char>::empty() + seq![d] + Seq::<char>::empty());
    lemma_inside_key(Seq::empty(), Seq::empty(), d, pairs, Seq::empty(), Seq::empty());
    assert(Seq::<char>::empty() + Seq::<char>::empty() =~= Seq::<char>::empty());
    assert(Seq::<char>::empty().push(d) =~= seq![d]);
}

/// A trailing delimiter whose key never closes is passed through verbatim.
pub proof fn lemma_expand_unterminated(
    s: Seq<char>,
    t: Seq<char>,
    d: char,
    pairs: Seq<(Seq<char>, Seq<char>)>,
)
    requires
        has_no_delim(s, d),
        has_no_delim(t, d),
    ensures
        expand_spec(s + seq![d] + t, d, pairs) == Ok::<Seq<char>, Seq<char>>(s + seq![d] + t),
{
    let r2 = seq![d] + t;
    assert(s + seq![d] + t =~= s + r2);
    lemma_copy_outside(s, r2, d, pairs, Seq::empty(), Seq::empty());
    assert(Seq::<char>::empty() + s =~= s);
    assert(r2[0] == d);
    assert(r2.skip(1) =~= t);
    lemma_inside_tail(t, d, pairs, Seq::empty(), s);
    assert(Seq::<char>::empty() + t =~= t);
    assert(s + seq![d] + (Seq::<char>::empty() + t) =~= s + seq![d] + t);
}

} // verus!
