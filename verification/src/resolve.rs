//! Choosing the on-screen text that a state assertion looks for.
use vstd::prelude::*;

use crate::text::{
    lemma_span_until, lemma_span_until_bound, span_until, chars_of, contains_str, opt_view, contains_char, has_char, is_substring, lowercase, owned, push_char, strs_view,
    to_lowercase,
};
use crate::types::StateEntry;

verus! {

// ── Specifications ──

/// A string looks like a code identifier, given its lowercase form
/// `lower`: it is non-empty, holds an underscore, holds no space, and
/// equals `lower`.
pub open spec fn identifier_shape(s: Seq<char>, lower: Seq<char>) -> bool {
    &&& s.len() > 0
    &&& has_char(s, '_')
    &&& !has_char(s, ' ')
    &&& lower == s
}

/// A string looks like a code identifier: non-empty, holds an underscore,
/// holds no space, and is already lowercase.
pub open spec fn code_identifier(s: Seq<char>) -> bool {
    identifier_shape(s, lowercase(s))
}

/// Either quote character.
pub open spec fn is_quote(c: char) -> bool {
    c == '"' || c == '\''
}

/// The non-empty quoted segments of `s`, in order. A segment opens with
/// `'` or `"` and runs to the next occurrence of the same character, or to
/// the end of `s` when there is none.
pub open spec fn quoted_segments(s: Seq<char>) -> Seq<Seq<char>>
    decreases s.len(),
{
    if s.len() == 0 {
        Seq::empty()
    } else if is_quote(s[0]) {
        let rest = s.drop_first();
        let k = span_until(rest, s[0]) as int;
        let body = rest.take(k);
        let after = if k < rest.len() {
            rest.skip(k + 1)
        } else {
            Seq::empty()
        };
        (if body.len() > 0 {
            seq![body]
        } else {
            Seq::empty()
        }) + quoted_segments(after)
    } else {
        quoted_segments(s.drop_first())
    }
}

/// The first index of `cs` whose element satisfies `p`, if any.
#[verifier::opaque]
pub open spec fn first_match(cs: Seq<Seq<char>>, p: spec_fn(Seq<char>) -> bool) -> Option<int> {
    if exists|i: int| 0 <= i < cs.len() && p(cs[i]) {
        Some(
            choose|i: int|
                0 <= i < cs.len() && p(cs[i]) && forall|k: int| 0 <= k < i ==> !p(cs[k]),
        )
    } else {
        None
    }
}

/// (Lowercase) content equal to `t`.
pub open spec fn equals_pred(t: Seq<char>) -> spec_fn(Seq<char>) -> bool {
    |l: Seq<char>| l == t
}

/// (Lowercase) content holding `t`.
pub open spec fn holds_pred(t: Seq<char>) -> spec_fn(Seq<char>) -> bool {
    |l: Seq<char>| is_substring(t, l)
}

/// The lowercase forms of a list of strings.
pub open spec fn lowered_all(cs: Seq<Seq<char>>) -> Seq<Seq<char>> {
    cs.map_values(|c: Seq<char>| lowercase(c))
}

/// The index of the first content that holds the first quoted string (in
/// order) that some content holds.
pub open spec fn quote_match(ls: Seq<Seq<char>>, qls: Seq<Seq<char>>) -> Option<int>
    decreases qls.len(),
{
    if qls.len() == 0 {
        None
    } else {
        match first_match(ls, holds_pred(qls[0])) {
            Some(i) => Some(i),
            None => quote_match(ls, qls.drop_first()),
        }
    }
}

/// The index of the content that matches, with the contents `ls`, the
/// target `t` and the quoted strings `qls` all in lowercase: the first
/// content equal to the target, else the first holding the non-empty
/// target, else the first holding a quoted string.
pub open spec fn lowered_match_index(ls: Seq<Seq<char>>, t: Seq<char>, qls: Seq<Seq<char>>) -> Option<
    int,
> {
    if ls.len() == 0 {
        None
    } else if first_match(ls, equals_pred(t)) is Some {
        first_match(ls, equals_pred(t))
    } else if t.len() > 0 && first_match(ls, holds_pred(t)) is Some {
        first_match(ls, holds_pred(t))
    } else {
        quote_match(ls, qls)
    }
}

/// The index of the baseline content that matches, ignoring case: first an
/// exact match of the target, then content holding the (non-empty) target,
/// then content holding a quoted string of `renders`.
pub open spec fn baseline_match_index(
    cs: Seq<Seq<char>>,
    target: Seq<char>,
    renders: Seq<char>,
) -> Option<int> {
    lowered_match_index(lowered_all(cs), lowercase(target), lowered_all(quoted_segments(renders)))
}

/// The matched baseline content itself.
pub open spec fn baseline_match(cs: Seq<Seq<char>>, target: Seq<char>, renders: Seq<char>) -> Option<
    Seq<char>,
> {
    match baseline_match_index(cs, target, renders) {
        Some(i) => Some(cs[i]),
        None => None,
    }
}

/// The resolution of a state's assertion against baseline contents:
/// (assert type, text to look for, where the text came from).
pub open spec fn assert_resolution(state: StateEntry, cs: Seq<Seq<char>>) -> (
    Seq<char>,
    Seq<char>,
    Seq<char>,
) {
    let atype = match state.assert_type {
        Some(t) => t@,
        None => "element_exists"@,
    };
    let atarget = match state.assert_target {
        Some(t) => t@,
        None => Seq::empty(),
    };
    let renders = match state.renders {
        Some(r) => r@,
        None => Seq::empty(),
    };
    let quoted = quoted_segments(renders);
    if baseline_match(cs, atarget, renders) is Some {
        (atype, baseline_match(cs, atarget, renders)->0, "baseline"@)
    } else if atarget.len() > 0 && !code_identifier(atarget) {
        (atype, atarget, "spec"@)
    } else if quoted.len() > 0 {
        (atype, quoted[0], "renders"@)
    } else if code_identifier(atarget) && state.state@.len() > 0 {
        (atype, state.state@, "state_name"@)
    } else {
        (atype, if atarget.len() > 0 {
            atarget
        } else {
            state.state@
        }, "fallback"@)
    }
}

// ── Lemmas ──

pub proof fn lemma_first_match_found(cs: Seq<Seq<char>>, p: spec_fn(Seq<char>) -> bool, i: int)
    requires
        0 <= i < cs.len(),
        p(cs[i]),
        forall|k: int| 0 <= k < i ==> !p(cs[k]),
    ensures
        first_match(cs, p) == Some(i),
{
    reveal(first_match);
    let j = choose|j: int| 0 <= j < cs.len() && p(cs[j]) && forall|k: int| 0 <= k < j ==> !p(cs[k]);
    assert(0 <= j < cs.len() && p(cs[j]) && forall|k: int| 0 <= k < j ==> !p(cs[k]));
    if j < i {
        assert(!p(cs[j]));
    }
    if i < j {
        assert(!p(cs[i]));
    }
}

proof fn lemma_least_witness(cs: Seq<Seq<char>>, p: spec_fn(Seq<char>) -> bool, w: int)
    requires
        0 <= w < cs.len(),
        p(cs[w]),
    ensures
        exists|m: int| 0 <= m < cs.len() && p(cs[m]) && forall|k: int| 0 <= k < m ==> !p(cs[k]),
    decreases w,
{
    if exists|k: int| 0 <= k < w && p(cs[k]) {
        let k = choose|k: int| 0 <= k < w && p(cs[k]);
        lemma_least_witness(cs, p, k);
    } else {
        assert(0 <= w < cs.len() && p(cs[w]) && forall|k: int| 0 <= k < w ==> !p(cs[k]));
    }
}

/// `first_match` gives the least index whose element satisfies `p`, or
/// nothing when no element does.
pub proof fn lemma_first_match(cs: Seq<Seq<char>>, p: spec_fn(Seq<char>) -> bool)
    ensures
        match first_match(cs, p) {
            Some(i) => 0 <= i < cs.len() && p(cs[i]) && forall|k: int| 0 <= k < i ==> !p(cs[k]),
            None => forall|k: int| 0 <= k < cs.len() ==> !p(cs[k]),
        },
{
    reveal(first_match);
    if exists|i: int| 0 <= i < cs.len() && p(cs[i]) {
        let w = choose|i: int| 0 <= i < cs.len() && p(cs[i]);
        lemma_least_witness(cs, p, w);
    }
}

/// The quoted segments of a string are all non-empty.
pub proof fn lemma_quoted_segments_nonempty(s: Seq<char>)
    ensures
        forall|k: int|
            0 <= k < quoted_segments(s).len() ==> #[trigger] quoted_segments(s)[k].len() > 0,
    decreases s.len(),
{
    if s.len() > 0 {
        if is_quote(s[0]) {
            let rest = s.drop_first();
            let k = span_until(rest, s[0]) as int;
            lemma_span_until_bound(rest, s[0]);
            let after = if k < rest.len() {
                rest.skip(k + 1)
            } else {
                Seq::empty()
            };
            lemma_quoted_segments_nonempty(after);
            let body = rest.take(k);
            let pre = if body.len() > 0 {
                seq![body]
            } else {
                Seq::<Seq<char>>::empty()
            };
            assert(quoted_segments(s) == pre + quoted_segments(after));
            assert forall|j: int| 0 <= j < quoted_segments(s).len() implies #[trigger] quoted_segments(
                s,
            )[j].len() > 0 by {
                if j >= pre.len() {
                    assert(quoted_segments(s)[j] == quoted_segments(after)[j - pre.len()]);
                }
            }
        } else {
            lemma_quoted_segments_nonempty(s.drop_first());
            assert(quoted_segments(s) == quoted_segments(s.drop_first()));
        }
    }
}

// ── Executable functions ──

/// Whether `s` looks like a code identifier, given its lowercase form.
pub fn has_identifier_shape(s: &str, lower: &str) -> (r: bool)
    ensures
        r == identifier_shape(s@, lower@),
{
    !s.is_empty() && contains_char(s, '_') && !contains_char(s, ' ') && owned(lower) == owned(s)
}

/// Whether `s` looks like a code identifier rather than visible UI text.
pub fn is_code_identifier(s: &str) -> (r: bool)
    ensures
        r == code_identifier(s@),
{
    if s.is_empty() {
        return false;
    }
    let lower = to_lowercase(s);
    has_identifier_shape(s, lower.as_str())
}

/// The non-empty quoted segments of `s`, in order.
pub fn extract_quoted(s: &str) -> (r: Vec<String>)
    ensures
        strs_view(r@) == quoted_segments(s@),
{
    let v = chars_of(s);
    let n = v.len();
    let mut results: Vec<String> = Vec::new();
    let mut i: usize = 0;
    assert(v@.skip(0) =~= v@);
    while i < n
        invariant
            n == v@.len(),
            v@ == s@,
            i <= n,
            strs_view(results@) + quoted_segments(v@.skip(i as int)) == quoted_segments(v@),
        decreases n - i,
    {
        let c = v[i];
        let ghost tail = v@.skip(i as int);
        if c == '"' || c == '\'' {
            let quote = c;
            let mut buf = String::new();
            let mut j: usize = i + 1;
            while j < n && v[j] != quote
                invariant
                    n == v@.len(),
                    i < j <= n,
                    buf@ == v@.subrange(i + 1, j as int),
                    forall|k: int| i + 1 <= k < j ==> v@[k] != quote,
                decreases n - j,
            {
                push_char(&mut buf, v[j]);
                assert(v@.subrange(i + 1, j + 1) =~= v@.subrange(i + 1, j as int).push(v@[j as int]));
                j = j + 1;
            }
            let ghost rest = tail.drop_first();
            proof {
                assert(rest =~= v@.skip(i + 1));
                lemma_span_until(rest, quote, j - (i + 1));
                assert(rest.take(j - (i + 1)) =~= buf@);
                if j < n {
                    assert(rest.skip(j - (i + 1) + 1) =~= v@.skip(j + 1));
                } else {
                    assert(v@.skip(j as int) =~= Seq::<char>::empty());
                }
            }
            let ghost before = strs_view(results@);
            if j > i + 1 {
                results.push(buf);
                assert(strs_view(results@) =~= before + seq![buf@]);
            } else {
                assert(strs_view(results@) =~= before);
            }
            if j < n {
                i = j + 1;
            } else {
                i = j;
            }
            proof {
                let after = v@.skip(i as int);
                assert(quoted_segments(tail) == (if buf@.len() > 0 {
                    seq![buf@]
                } else {
                    Seq::<Seq<char>>::empty()
                }) + quoted_segments(after));
                assert(strs_view(results@) + quoted_segments(after) =~= before + quoted_segments(
                    tail,
                ));
            }
        } else {
            assert(tail.drop_first() =~= v@.skip(i + 1));
            i = i + 1;
        }
    }
    assert(v@.skip(n as int) =~= Seq::<char>::empty());
    assert(strs_view(results@) + Seq::<Seq<char>>::empty() =~= strs_view(results@));
    results
}

/// The lowercase forms of a list of strings.
fn lower_all(cs: &[String]) -> (r: Vec<String>)
    ensures
        strs_view(r@) == lowered_all(strs_view(cs@)),
{
    let mut r: Vec<String> = Vec::new();
    for i in 0..cs.len()
        invariant
            r@.len() == i,
            forall|k: int| 0 <= k < i ==> #[trigger] r@[k]@ == lowercase(cs@[k]@),
    {
        r.push(to_lowercase(cs[i].as_str()));
    }
    assert(strs_view(r@) =~= lowered_all(strs_view(cs@)));
    r
}

/// The index of the first (lowercase) content that satisfies `equals_pred(t)`
/// or, when `exact` is false, `holds_pred(t)`.
fn first_with(ls: &Vec<String>, t: &str, exact: bool) -> (r: Option<usize>)
    ensures
        ({
            let p = if exact {
                equals_pred(t@)
            } else {
                holds_pred(t@)
            };
            match r {
                Some(i) => first_match(strs_view(ls@), p) == Some(i as int) && i < ls@.len(),
                None => first_match(strs_view(ls@), p) is None,
            }
        }),
{
    let ghost lv = strs_view(ls@);
    let ghost p = if exact {
        equals_pred(t@)
    } else {
        holds_pred(t@)
    };
    let t_owned = owned(t);
    for i in 0..ls.len()
        invariant
            lv == strs_view(ls@),
            t_owned@ == t@,
            p == (if exact {
                equals_pred(t@)
            } else {
                holds_pred(t@)
            }),
            forall|k: int| 0 <= k < i ==> !(#[trigger] p(lv[k])),
    {
        let hit = if exact {
            ls[i] == t_owned
        } else {
            contains_str(ls[i].as_str(), t)
        };
        if hit {
            proof {
                lemma_first_match_found(lv, p, i as int);
            }
            return Some(i);
        }
    }
    proof {
        reveal(first_match);
    }
    None
}

/// The index given by `quote_match` for the (lowercase) contents `ls` and
/// quoted strings `qls`.
fn first_quote_holding(ls: &Vec<String>, qls: &Vec<String>) -> (r: Option<usize>)
    ensures
        match r {
            Some(i) => quote_match(strs_view(ls@), strs_view(qls@)) == Some(i as int) && i < ls@.len(),
            None => quote_match(strs_view(ls@), strs_view(qls@)) is None,
        },
{
    let ghost lv = strs_view(ls@);
    let ghost qs = strs_view(qls@);
    assert(qs.skip(0) =~= qs);
    for qi in 0..qls.len()
        invariant
            lv == strs_view(ls@),
            qs == strs_view(qls@),
            quote_match(lv, qs) == quote_match(lv, qs.skip(qi as int)),
    {
        let found = first_with(ls, qls[qi].as_str(), false);
        proof {
            let rest = qs.skip(qi as int);
            assert(rest[0] == qs[qi as int]);
            assert(rest.drop_first() =~= qs.skip(qi + 1));
        }
        if let Some(i) = found {
            return Some(i);
        }
    }
    assert(qs.skip(qls.len() as int) =~= Seq::<Seq<char>>::empty());
    None
}

/// The index of the matching content, with the contents, the target and
/// the quoted strings all given in lowercase (see `lowered_match_index`).
pub fn match_lowered(lowered: &Vec<String>, target_lower: &str, quotes_lower: &Vec<String>) -> (r:
    Option<usize>)
    ensures
        match r {
            Some(i) => lowered_match_index(
                strs_view(lowered@),
                target_lower@,
                strs_view(quotes_lower@),
            ) == Some(i as int) && i < lowered@.len(),
            None => lowered_match_index(
                strs_view(lowered@),
                target_lower@,
                strs_view(quotes_lower@),
            ) is None,
        },
{
    if lowered.len() == 0 {
        return None;
    }
    // Exact match
    if let Some(i) = first_with(lowered, target_lower, true) {
        return Some(i);
    }
    // Content holding the target
    if !target_lower.is_empty() {
        if let Some(i) = first_with(lowered, target_lower, false) {
            return Some(i);
        }
    }
    // Content holding a quoted string of the rendering
    first_quote_holding(lowered, quotes_lower)
}

/// The baseline content that best matches an assertion target: an exact
/// match ignoring case, else content holding the non-empty target, else
/// content holding one of the quoted strings of `renders`.
pub fn find_baseline_match(baseline_contents: &[String], assert_target: &str, renders: &str) -> (r:
    Option<String>)
    ensures
        opt_view(r) == baseline_match(strs_view(baseline_contents@), assert_target@, renders@),
{
    if baseline_contents.len() == 0 {
        return None;
    }
    let target_lower = to_lowercase(assert_target);
    let lowered = lower_all(baseline_contents);
    let quotes = extract_quoted(renders);
    let quotes_lower = lower_all(quotes.as_slice());
    match match_lowered(&lowered, target_lower.as_str(), &quotes_lower) {
        Some(i) => Some(baseline_contents[i].clone()),
        None => None,
    }
}

/// Resolves what a state assertion looks for: returns the assert type, the
/// text, and where the text came from (`baseline`, `spec`, `renders`,
/// `state_name` or `fallback`).
pub fn resolve_assert(state: &StateEntry, baseline_contents: &[String]) -> (r: (
    String,
    String,
    String,
))
    ensures
        (r.0@, r.1@, r.2@) == assert_resolution(*state, strs_view(baseline_contents@)),
{
    let atype = match &state.assert_type {
        Some(t) => t.clone(),
        None => owned("element_exists"),
    };
    let atarget: String = match &state.assert_target {
        Some(t) => t.clone(),
        None => String::new(),
    };
    let renders: String = match &state.renders {
        Some(t) => t.clone(),
        None => String::new(),
    };
    // 1. Baseline match
    if let Some(m) = find_baseline_match(baseline_contents, atarget.as_str(), renders.as_str()) {
        return (atype, m, owned("baseline"));
    }
    // 2. Spec assert_target (if real UI text)
    let is_ident = is_code_identifier(atarget.as_str());
    if !atarget.as_str().is_empty() && !is_ident {
        return (atype, atarget, owned("spec"));
    }
    // 3. Quoted strings in renders
    let mut quoted = extract_quoted(renders.as_str());
    if quoted.len() > 0 {
        let first = quoted.remove(0);
        return (atype, first, owned("renders"));
    }
    // 4. State name fallback for code identifiers
    if is_ident && !state.state.as_str().is_empty() {
        return (atype, state.state.clone(), owned("state_name"));
    }
    // 5. Last resort
    let fallback = if !atarget.as_str().is_empty() {
        atarget
    } else {
        state.state.clone()
    };
    (atype, fallback, owned("fallback"))
}

} // verus!
