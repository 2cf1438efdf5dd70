//! Which files in a directory the tools read or replace, judged by name.
use vstd::prelude::*;

use crate::text::{chars_of, has_prefix, owned, push_char, starts_with, strs_view};

verus! {

/// The last index of `c` in `s` before position `n`.
pub open spec fn last_index_before(s: Seq<char>, c: char, n: int) -> Option<int>
    decreases n,
{
    if n <= 0 {
        None
    } else if s[n - 1] == c {
        Some(n - 1)
    } else {
        last_index_before(s, c, n - 1)
    }
}

/// The extension of a file name, as `Path::extension` gives it: what
/// follows the last dot, unless that dot begins the name or the name is
/// `..`.
pub open spec fn extension_of(name: Seq<char>) -> Option<Seq<char>> {
    if name == ".."@ {
        None
    } else {
        match last_index_before(name, '.', name.len() as int) {
            Some(k) => if k > 0 {
                Some(name.skip(k + 1))
            } else {
                None
            },
            None => None,
        }
    }
}

/// A YAML file name: extension `yaml` or `yml`.
pub open spec fn yaml_named(name: Seq<char>) -> bool {
    extension_of(name) == Some("yaml"@) || extension_of(name) == Some("yml"@)
}

/// A test case file name: a YAML file that is not hidden.
pub open spec fn tc_file_named(name: Seq<char>) -> bool {
    yaml_named(name) && !has_prefix(name, "."@)
}

/// The extension of a file name.
pub fn file_extension(name: &str) -> (r: Option<String>)
    ensures
        crate::text::opt_view(r) == extension_of(name@),
{
    if owned(name) == owned("..") {
        return None;
    }
    let v = chars_of(name);
    let mut n = v.len();
    while n > 0 && v[n - 1] != '.'
        invariant
            v@ == name@,
            n <= v@.len(),
            last_index_before(name@, '.', v@.len() as int) == last_index_before(name@, '.', n as int),
        decreases n,
    {
        n = n - 1;
    }
    if n <= 1 {
        return None;
    }
    let mut ext = String::new();
    for i in n..v.len()
        invariant
            v@ == name@,
            1 <= n <= v@.len(),
            ext@ == v@.subrange(n as int, i as int),
    {
        push_char(&mut ext, v[i]);
        assert(v@.subrange(n as int, i + 1) =~= v@.subrange(n as int, i as int).push(v@[i as int]));
    }
    assert(v@.subrange(n as int, v@.len() as int) =~= v@.skip(n as int));
    Some(ext)
}

/// Whether a file name has extension `ext`.
pub fn has_extension(name: &str, ext: &str) -> (r: bool)
    ensures
        r == (extension_of(name@) == Some(ext@)),
{
    match file_extension(name) {
        Some(e) => e == owned(ext),
        None => false,
    }
}

/// Whether a file name is that of a YAML file.
pub fn is_yaml_file_name(name: &str) -> (r: bool)
    ensures
        r == yaml_named(name@),
{
    has_extension(name, "yaml") || has_extension(name, "yml")
}

/// Whether a file name is that of a test case file.
pub fn is_tc_file_name(name: &str) -> (r: bool)
    ensures
        r == tc_file_named(name@),
{
    is_yaml_file_name(name) && !starts_with(name, ".")
}

/// A directory entry that the source freshness check passes over: a
/// hidden entry or a build output directory.
pub open spec fn skipped_source_named(name: Seq<char>) -> bool {
    has_prefix(name, "."@) || name == "target"@ || name == "build"@ || name == ".build"@ || name
        == "DerivedData"@
}

/// Whether the source freshness check passes over the entry `name`.
pub fn is_skipped_source(name: &str) -> (r: bool)
    ensures
        r == skipped_source_named(name@),
{
    let n = owned(name);
    starts_with(name, ".") || n == owned("target") || n == owned("build") || n == owned(".build")
        || n == owned("DerivedData")
}

// ── Ordering names ──

/// `a` sorts strictly before `b` in the order of `str`: character by
/// character, a proper prefix first. (UTF-8 keeps the order of code points,
/// so this is also the order of the bytes.)
pub open spec fn lex_lt(a: Seq<char>, b: Seq<char>) -> bool
    decreases a.len(),
{
    if b.len() == 0 {
        false
    } else if a.len() == 0 {
        true
    } else if a[0] != b[0] {
        (a[0] as u32) < (b[0] as u32)
    } else {
        lex_lt(a.drop_first(), b.drop_first())
    }
}

/// No name sorts strictly before an earlier one.
pub open spec fn in_order(s: Seq<Seq<char>>) -> bool {
    forall|i: int, j: int| 0 <= i < j < s.len() ==> !lex_lt(#[trigger] s[j], #[trigger] s[i])
}

/// A common prefix does not change the order.
pub proof fn lemma_lex_lt_skip(a: Seq<char>, b: Seq<char>, i: int)
    requires
        0 <= i <= a.len(),
        i <= b.len(),
        a.take(i) == b.take(i),
    ensures
        lex_lt(a, b) == lex_lt(a.skip(i), b.skip(i)),
    decreases i,
{
    if i == 0 {
        assert(a.skip(0) =~= a);
        assert(b.skip(0) =~= b);
    } else {
        assert(a.take(i)[0] == a[0]);
        assert(b.take(i)[0] == b[0]);
        assert(a.drop_first().take(i - 1) =~= a.take(i).drop_first());
        assert(b.drop_first().take(i - 1) =~= b.take(i).drop_first());
        lemma_lex_lt_skip(a.drop_first(), b.drop_first(), i - 1);
        assert(a.drop_first().skip(i - 1) =~= a.skip(i));
        assert(b.drop_first().skip(i - 1) =~= b.skip(i));
    }
}

/// The order is asymmetric.
pub proof fn lemma_lex_lt_asymmetric(a: Seq<char>, b: Seq<char>)
    ensures
        !(lex_lt(a, b) && lex_lt(b, a)),
    decreases a.len(),
{
    if a.len() > 0 && b.len() > 0 && a[0] == b[0] {
        lemma_lex_lt_asymmetric(a.drop_first(), b.drop_first());
    }
}

/// The order is transitive.
pub proof fn lemma_lex_lt_transitive(a: Seq<char>, b: Seq<char>, c: Seq<char>)
    requires
        lex_lt(a, b),
        lex_lt(b, c),
    ensures
        lex_lt(a, c),
    decreases a.len(),
{
    if a.len() > 0 && b.len() > 0 && c.len() > 0 && a[0] == b[0] && b[0] == c[0] {
        lemma_lex_lt_transitive(a.drop_first(), b.drop_first(), c.drop_first());
    }
}

/// Whether `a` sorts strictly before `b`.
pub fn name_lt(a: &str, b: &str) -> (r: bool)
    ensures
        r == lex_lt(a@, b@),
{
    let v = chars_of(a);
    let w = chars_of(b);
    let mut i: usize = 0;
    while i < v.len() && i < w.len() && v[i] == w[i]
        invariant
            v@ == a@,
            w@ == b@,
            i <= v@.len(),
            i <= w@.len(),
            v@.take(i as int) == w@.take(i as int),
        decreases v@.len() - i,
    {
        assert(v@.take(i + 1) =~= v@.take(i as int).push(v@[i as int]));
        assert(w@.take(i + 1) =~= w@.take(i as int).push(w@[i as int]));
        i = i + 1;
    }
    proof {
        lemma_lex_lt_skip(a@, b@, i as int);
    }
    if i == w.len() {
        false
    } else if i == v.len() {
        true
    } else {
        (v[i] as u32) < (w[i] as u32)
    }
}

/// The names in order, equal names kept in the order given.
pub fn sort_names(names: &Vec<String>) -> (r: Vec<String>)
    ensures
        in_order(strs_view(r@)),
        strs_view(r@).to_multiset() == strs_view(names@).to_multiset(),
{
    let mut r: Vec<String> = Vec::new();
    assert(strs_view(names@.take(0)) =~= strs_view(r@));
    for n in 0..names.len()
        invariant
            in_order(strs_view(r@)),
            strs_view(r@).to_multiset() == strs_view(names@.take(n as int)).to_multiset(),
    {
        let x = names[n].clone();
        let ghost rv = strs_view(r@);
        let mut p: usize = 0;
        while p < r.len() && !name_lt(x.as_str(), r[p].as_str())
            invariant
                rv == strs_view(r@),
                p <= r@.len(),
                forall|k: int| 0 <= k < p ==> !lex_lt(x@, #[trigger] rv[k]),
            decreases r@.len() - p,
        {
            p = p + 1;
        }
        let ghost xv = x@;
        r.insert(p, x);
        proof {
            assert(strs_view(r@) =~= rv.insert(p as int, xv));
            let nv = strs_view(r@);
            assert forall|i: int, j: int| 0 <= i < j < nv.len() implies !lex_lt(
                #[trigger] nv[j],
                #[trigger] nv[i],
            ) by {
                if j < p {
                    assert(nv[i] == rv[i] && nv[j] == rv[j]);
                } else if j == p {
                    assert(nv[i] == rv[i]);
                } else if i == p {
                    assert(nv[j] == rv[j - 1]);
                    if p < rv.len() && p < j - 1 {
                        assert(!lex_lt(rv[j - 1], rv[p as int]));
                        if lex_lt(rv[j - 1], xv) {
                            lemma_lex_lt_transitive(rv[j - 1], xv, rv[p as int]);
                        }
                    } else {
                        lemma_lex_lt_asymmetric(xv, rv[p as int]);
                    }
                } else if i < p {
                    assert(nv[i] == rv[i] && nv[j] == rv[j - 1]);
                } else {
                    assert(nv[i] == rv[i - 1] && nv[j] == rv[j - 1]);
                }
            }
            vstd::seq_lib::to_multiset_insert(rv, p as int, xv);
            assert(strs_view(names@.take(n + 1)) =~= strs_view(names@.take(n as int)).push(xv));
            vstd::seq_lib::to_multiset_build(strs_view(names@.take(n as int)), xv);
        }
    }
    assert(names@.take(names@.len() as int) =~= names@);
    r
}

// ── Directory listings ──

/// The names that are test case files, in the order given.
pub open spec fn tc_names(s: Seq<Seq<char>>) -> Seq<Seq<char>>
    decreases s.len(),
{
    if s.len() == 0 {
        Seq::empty()
    } else if tc_file_named(s.last()) {
        tc_names(s.drop_last()).push(s.last())
    } else {
        tc_names(s.drop_last())
    }
}

/// The names with extension `yaml`, in the order given.
pub open spec fn baseline_names(s: Seq<Seq<char>>) -> Seq<Seq<char>>
    decreases s.len(),
{
    if s.len() == 0 {
        Seq::empty()
    } else if extension_of(s.last()) == Some("yaml"@) {
        baseline_names(s.drop_last()).push(s.last())
    } else {
        baseline_names(s.drop_last())
    }
}

/// The test case files among the entries of a suite directory, sorted.
pub fn tc_files_in(names: &Vec<String>) -> (r: Vec<String>)
    ensures
        in_order(strs_view(r@)),
        strs_view(r@).to_multiset() == tc_names(strs_view(names@)).to_multiset(),
{
    let mut kept: Vec<String> = Vec::new();
    for i in 0..names.len()
        invariant
            strs_view(kept@) == tc_names(strs_view(names@.take(i as int))),
    {
        assert(strs_view(names@.take(i + 1)).drop_last() =~= strs_view(names@.take(i as int)));
        assert(strs_view(names@.take(i + 1)).last() == names@[i as int]@);
        if is_tc_file_name(names[i].as_str()) {
            kept.push(names[i].clone());
        }
        assert(strs_view(kept@) =~= tc_names(strs_view(names@.take(i + 1))));
    }
    assert(names@.take(names@.len() as int) =~= names@);
    sort_names(&kept)
}

/// The baseline files among the entries of a baseline directory (those
/// with extension `yaml`), sorted.
pub fn baseline_files_in(names: &Vec<String>) -> (r: Vec<String>)
    ensures
        in_order(strs_view(r@)),
        strs_view(r@).to_multiset() == baseline_names(strs_view(names@)).to_multiset(),
{
    let mut kept: Vec<String> = Vec::new();
    for i in 0..names.len()
        invariant
            strs_view(kept@) == baseline_names(strs_view(names@.take(i as int))),
    {
        assert(strs_view(names@.take(i + 1)).drop_last() =~= strs_view(names@.take(i as int)));
        assert(strs_view(names@.take(i + 1)).last() == names@[i as int]@);
        if has_extension(names[i].as_str(), "yaml") {
            kept.push(names[i].clone());
        }
        assert(strs_view(kept@) =~= baseline_names(strs_view(names@.take(i + 1))));
    }
    assert(names@.take(names@.len() as int) =~= names@);
    sort_names(&kept)
}

} // verus!
