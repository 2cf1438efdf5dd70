//! Character-level helpers: the few string operations the generator needs,
//! each stated over `Seq<char>`.
use vstd::prelude::*;

verus! {

// ── Specifications ──

/// The lowercase form of a string, as `str::to_lowercase` computes it
/// (full Unicode case mapping, independent of locale).
pub uninterp spec fn lowercase(s: Seq<char>) -> Seq<char>;

/// `needle` occurs in `hay` as a contiguous run of characters.
pub open spec fn is_substring(needle: Seq<char>, hay: Seq<char>) -> bool {
    exists|i: int|
        0 <= i && i + needle.len() <= hay.len() && #[trigger] hay.subrange(i, i + needle.len())
            == needle
}

/// `s` begins with `prefix`.
pub open spec fn has_prefix(s: Seq<char>, prefix: Seq<char>) -> bool {
    prefix.len() <= s.len() && s.take(prefix.len() as int) == prefix
}

/// How many of the lines `ls` begin with `p`.
pub open spec fn count_prefixed(ls: Seq<Seq<char>>, p: Seq<char>) -> nat
    decreases ls.len(),
{
    if ls.len() == 0 {
        0
    } else {
        count_prefixed(ls.drop_last(), p) + if has_prefix(ls.last(), p) {
            1nat
        } else {
            0nat
        }
    }
}

/// `c` occurs in `s`.
pub open spec fn has_char(s: Seq<char>, c: char) -> bool {
    exists|i: int| 0 <= i < s.len() && s[i] == c
}

/// The view of an optional string.
pub open spec fn opt_view(o: Option<String>) -> Option<Seq<char>> {
    match o {
        Some(s) => Some(s@),
        None => None,
    }
}

/// The views of a sequence of strings.
pub open spec fn strs_view(v: Seq<String>) -> Seq<Seq<char>> {
    v.map_values(|s: String| s@)
}

/// The ASCII digit for `d < 10`.
pub open spec fn digit_char(d: nat) -> char {
    ((48 + d) as u8) as char
}

/// The decimal representation of `n`, without leading zeros.
pub open spec fn decimal(n: nat) -> Seq<char>
    decreases n,
{
    if n < 10 {
        seq![digit_char(n)]
    } else {
        decimal(n / 10).push(digit_char(n % 10))
    }
}

/// The strings of `list` joined with `sep` between consecutive ones.
pub open spec fn join(list: Seq<Seq<char>>, sep: Seq<char>) -> Seq<char>
    decreases list.len(),
{
    if list.len() == 0 {
        Seq::empty()
    } else if list.len() == 1 {
        list[0]
    } else {
        join(list.drop_last(), sep) + sep + list.last()
    }
}

/// Each character of `s` with `from` replaced by `to`.
pub open spec fn replace_char(s: Seq<char>, from: char, to: char) -> Seq<char> {
    s.map_values(|c: char| if c == from { to } else { c })
}

/// The number of bytes UTF-8 uses for `c`.
pub open spec fn char_utf8_len(c: char) -> nat {
    if (c as u32) < 0x80 {
        1
    } else if (c as u32) < 0x800 {
        2
    } else if (c as u32) < 0x10000 {
        3
    } else {
        4
    }
}

/// The number of bytes of the UTF-8 encoding of `s`.
pub open spec fn utf8_len(s: Seq<char>) -> nat
    decreases s.len(),
{
    if s.len() == 0 {
        0
    } else {
        utf8_len(s.drop_last()) + char_utf8_len(s.last())
    }
}

/// The number of leading characters of `s` that differ from `c`.
pub open spec fn span_until(s: Seq<char>, c: char) -> nat
    decreases s.len(),
{
    if s.len() == 0 || s[0] == c {
        0
    } else {
        1 + span_until(s.drop_first(), c)
    }
}

/// `span_until` is the index of the first `c`, or the length without one.
pub proof fn lemma_span_until(s: Seq<char>, c: char, n: int)
    requires
        0 <= n <= s.len(),
        forall|k: int| 0 <= k < n ==> s[k] != c,
        n == s.len() || s[n] == c,
    ensures
        span_until(s, c) == n,
    decreases n,
{
    if n > 0 {
        lemma_span_until(s.drop_first(), c, n - 1);
    }
}

/// `span_until` stays within `s` and passes over no `c`.
pub proof fn lemma_span_until_bound(s: Seq<char>, c: char)
    ensures
        span_until(s, c) <= s.len(),
        forall|k: int| 0 <= k < span_until(s, c) ==> s[k] != c,
    decreases s.len(),
{
    if s.len() > 0 && s[0] != c {
        lemma_span_until_bound(s.drop_first(), c);
        assert forall|k: int| 0 <= k < span_until(s, c) implies s[k] != c by {
            if k > 0 {
                assert(s[k] == s.drop_first()[k - 1]);
            }
        }
    }
}

/// The pieces of `s` between occurrences of `sep`, as `str::split` gives
/// them (empty pieces included; one piece when `sep` does not occur).
pub open spec fn split_on(s: Seq<char>, sep: char) -> Seq<Seq<char>>
    decreases s.len(),
{
    let k = span_until(s, sep) as int;
    if k >= s.len() {
        seq![s]
    } else {
        seq![s.take(k)] + split_on(s.skip(k + 1), sep)
    }
}

/// The uppercase form of a string, as `str::to_uppercase` computes it
/// (full Unicode case mapping, independent of locale).
pub uninterp spec fn uppercase(s: Seq<char>) -> Seq<char>;

/// Whitespace in the sense of the Unicode property White_Space, as
/// `char::is_whitespace` has it.
pub open spec fn is_white_space(c: char) -> bool {
    let u = c as u32;
    ||| 0x9 <= u <= 0xD
    ||| u == 0x20
    ||| u == 0x85
    ||| u == 0xA0
    ||| u == 0x1680
    ||| 0x2000 <= u <= 0x200A
    ||| u == 0x2028
    ||| u == 0x2029
    ||| u == 0x202F
    ||| u == 0x205F
    ||| u == 0x3000
}

/// `s` without its leading whitespace.
pub open spec fn trim_start(s: Seq<char>) -> Seq<char>
    decreases s.len(),
{
    if s.len() > 0 && is_white_space(s[0]) {
        trim_start(s.drop_first())
    } else {
        s
    }
}

/// `s` without its trailing whitespace.
pub open spec fn trim_end(s: Seq<char>) -> Seq<char>
    decreases s.len(),
{
    if s.len() > 0 && is_white_space(s.last()) {
        trim_end(s.drop_last())
    } else {
        s
    }
}

/// A string with leading and trailing whitespace removed, as `str::trim`
/// gives it.
pub open spec fn trimmed(s: Seq<char>) -> Seq<char> {
    trim_end(trim_start(s))
}

/// Whether `s` can be cut after exactly `n` bytes of its UTF-8 encoding
/// (always so when the encoding is no longer than `n`).
pub open spec fn cut_ok(s: Seq<char>, n: nat) -> bool {
    utf8_len(s) <= n || exists|k: int| 0 <= k <= s.len() && #[trigger] utf8_len(s.take(k)) == n
}

/// The first `n` bytes of `s` (all of `s` when it is shorter), as
/// characters.
pub open spec fn cut_bytes(s: Seq<char>, n: nat) -> Seq<char> {
    if utf8_len(s) <= n {
        s
    } else {
        s.take(choose|k: int| 0 <= k <= s.len() && #[trigger] utf8_len(s.take(k)) == n)
    }
}

// ── Trusted calls into std ──

/// Calls `str::to_lowercase`; its result is named `lowercase`.
#[verifier::external_body]
pub(crate) fn to_lowercase(s: &str) -> (r: String)
    ensures
        r@ == lowercase(s@),
{
    s.to_lowercase()
}

/// Calls `str::to_uppercase`; its result is named `uppercase`.
#[verifier::external_body]
pub(crate) fn to_uppercase(s: &str) -> (r: String)
    ensures
        r@ == uppercase(s@),
{
    s.to_uppercase()
}

/// Calls `String::push`, which appends one character.
#[verifier::external_body]
pub(crate) fn push_char(s: &mut String, c: char)
    ensures
        final(s)@ == old(s)@.push(c),
{
    s.push(c)
}

// ── Executable helpers ──

/// Whether `c` is whitespace.
pub fn is_white_space_char(c: char) -> (r: bool)
    ensures
        r == is_white_space(c),
{
    let u = c as u32;
    (0x9 <= u && u <= 0xD) || u == 0x20 || u == 0x85 || u == 0xA0 || u == 0x1680 || (0x2000 <= u
        && u <= 0x200A) || u == 0x2028 || u == 0x2029 || u == 0x202F || u == 0x205F || u == 0x3000
}

/// `s` with leading and trailing whitespace removed.
pub fn trim(s: &str) -> (r: String)
    ensures
        r@ == trimmed(s@),
{
    let v = chars_of(s);
    let n = v.len();
    let mut i: usize = 0;
    assert(v@.skip(0) =~= v@);
    while i < n && is_white_space_char(v[i])
        invariant
            v@ == s@,
            n == v@.len(),
            i <= n,
            trim_start(v@) == trim_start(v@.skip(i as int)),
        decreases n - i,
    {
        assert(v@.skip(i as int).drop_first() =~= v@.skip(i + 1));
        i = i + 1;
    }
    assert(trim_start(v@) == v@.subrange(i as int, n as int)) by {
        assert(v@.skip(i as int) =~= v@.subrange(i as int, n as int));
    }
    let mut j: usize = n;
    while j > i && is_white_space_char(v[j - 1])
        invariant
            v@ == s@,
            n == v@.len(),
            i <= j <= n,
            trim_end(v@.subrange(i as int, n as int)) == trim_end(v@.subrange(i as int, j as int)),
        decreases j,
    {
        assert(v@.subrange(i as int, j as int).drop_last() =~= v@.subrange(i as int, j - 1));
        j = j - 1;
    }
    let mut r = String::new();
    for k in i..j
        invariant
            v@ == s@,
            i <= j <= n,
            n == v@.len(),
            r@ == v@.subrange(i as int, k as int),
    {
        push_char(&mut r, v[k]);
        assert(v@.subrange(i as int, k + 1) =~= v@.subrange(i as int, k as int).push(v@[k as int]));
    }
    r
}

/// The characters of `s`, in order.
pub fn chars_of(s: &str) -> (r: Vec<char>)
    ensures
        r@ == s@,
{
    let mut r: Vec<char> = Vec::new();
    for c in it: s.chars()
        invariant
            r@ == it.seq().take(it.index() as int),
            it.seq() == s@,
    {
        r.push(c);
    }
    r
}

/// A new string holding `s`.
pub fn owned(s: &str) -> (r: String)
    ensures
        r@ == s@,
{
    s.to_owned()
}

/// Whether the UTF-8 encoding of `s` is longer than `n` bytes.
pub fn utf8_len_exceeds(s: &str, n: usize) -> (r: bool)
    ensures
        r == (utf8_len(s@) > n),
{
    let v = chars_of(s);
    let mut total: usize = 0;
    for i in 0..v.len()
        invariant
            v@ == s@,
            total == utf8_len(v@.take(i as int)),
            total <= n,
    {
        assert(v@.take(i + 1).drop_last() =~= v@.take(i as int));
        let code = v[i] as u32;
        let w: usize = if code < 0x80 {
            1
        } else if code < 0x800 {
            2
        } else if code < 0x10000 {
            3
        } else {
            4
        };
        if w > n - total {
            proof {
                lemma_utf8_len_prefix_mono(v@, i + 1);
            }
            return true;
        }
        total = total + w;
    }
    assert(v@.take(v@.len() as int) =~= v@);
    false
}

/// The UTF-8 length of a prefix is at most that of the whole.
proof fn lemma_utf8_len_prefix_mono(s: Seq<char>, k: int)
    requires
        0 <= k <= s.len(),
    ensures
        utf8_len(s.take(k)) <= utf8_len(s),
    decreases s.len() - k,
{
    if k < s.len() {
        lemma_utf8_len_prefix_mono(s, k + 1);
        assert(s.take(k + 1).drop_last() =~= s.take(k));
    } else {
        assert(s.take(k) =~= s);
    }
}

/// Each character adds at least one byte: a longer prefix encodes longer.
proof fn lemma_utf8_len_strict(s: Seq<char>, j: int, k: int)
    requires
        0 <= j < k <= s.len(),
    ensures
        utf8_len(s.take(j)) < utf8_len(s.take(k)),
    decreases k - j,
{
    assert(s.take(k).drop_last() =~= s.take(k - 1));
    if j < k - 1 {
        lemma_utf8_len_strict(s, j, k - 1);
    }
}

/// Whether `s` can be cut after exactly `n` bytes.
pub fn can_cut(s: &str, n: usize) -> (r: bool)
    ensures
        r == cut_ok(s@, n as nat),
{
    let v = chars_of(s);
    let mut total: usize = 0;
    let mut i: usize = 0;
    while i < v.len()
        invariant
            v@ == s@,
            i <= v@.len(),
            total == utf8_len(v@.take(i as int)),
            total <= n,
            forall|k: int| 0 <= k < i ==> #[trigger] utf8_len(s@.take(k)) < n,
        decreases v.len() - i,
    {
        if total == n {
            return true;
        }
        assert(v@.take(i + 1).drop_last() =~= v@.take(i as int));
        let code = v[i] as u32;
        let w: usize = if code < 0x80 {
            1
        } else if code < 0x800 {
            2
        } else if code < 0x10000 {
            3
        } else {
            4
        };
        if w > n - total {
            proof {
                lemma_utf8_len_prefix_mono(v@, i + 1);
                assert forall|k: int| 0 <= k <= s@.len() implies #[trigger] utf8_len(s@.take(k)) != n by {
                    if k > i + 1 {
                        lemma_utf8_len_strict(s@, i + 1, k);
                    }
                }
            }
            return false;
        }
        total = total + w;
        i = i + 1;
    }
    assert(v@.take(v@.len() as int) =~= v@);
    true
}

/// The first `n` bytes of `s`, as characters.
pub fn cut_str(s: &str, n: usize) -> (r: String)
    requires
        cut_ok(s@, n as nat),
    ensures
        r@ == cut_bytes(s@, n as nat),
{
    let v = chars_of(s);
    let mut r = String::new();
    let mut total: usize = 0;
    let mut i: usize = 0;
    while i < v.len()
        invariant
            v@ == s@,
            cut_ok(s@, n as nat),
            i <= v@.len(),
            total == utf8_len(v@.take(i as int)),
            total <= n,
            r@ == v@.take(i as int),
        decreases v.len() - i,
    {
        if total == n {
            proof {
                if utf8_len(s@) > n {
                    let k = choose|k: int| 0 <= k <= s@.len() && #[trigger] utf8_len(s@.take(k)) == n;
                    if k < i {
                        lemma_utf8_len_strict(s@, k, i as int);
                    } else if i < k {
                        lemma_utf8_len_strict(s@, i as int, k);
                    }
                } else {
                    if i < v@.len() {
                        lemma_utf8_len_strict(s@, i as int, v@.len() as int);
                        assert(v@.take(v@.len() as int) =~= v@);
                    }
                }
            }
            return r;
        }
        assert(v@.take(i + 1).drop_last() =~= v@.take(i as int));
        let code = v[i] as u32;
        let w: usize = if code < 0x80 {
            1
        } else if code < 0x800 {
            2
        } else if code < 0x10000 {
            3
        } else {
            4
        };
        if w > n - total {
            proof {
                // The cut would split this character: excluded by `cut_ok`.
                lemma_utf8_len_prefix_mono(v@, i + 1);
                let k = choose|k: int| 0 <= k <= s@.len() && #[trigger] utf8_len(s@.take(k)) == n;
                if k < i {
                    lemma_utf8_len_strict(s@, k, i as int);
                } else if k > i + 1 {
                    lemma_utf8_len_strict(s@, i + 1, k);
                }
            }
            assert(false);
        }
        total = total + w;
        push_char(&mut r, v[i]);
        i = i + 1;
    }
    assert(v@.take(v@.len() as int) =~= v@);
    r
}

/// The pieces of `s` between occurrences of `sep`.
pub fn split_char(s: &str, sep: char) -> (r: Vec<String>)
    ensures
        strs_view(r@) == split_on(s@, sep),
{
    let v = chars_of(s);
    let n = v.len();
    let mut pieces: Vec<String> = Vec::new();
    let mut i: usize = 0;
    assert(v@.skip(0) =~= v@);
    loop
        invariant
            n == v@.len(),
            v@ == s@,
            i <= n,
            strs_view(pieces@) + split_on(v@.skip(i as int), sep) == split_on(v@, sep),
        decreases n - i,
    {
        let mut piece = String::new();
        let mut j: usize = i;
        while j < n && v[j] != sep
            invariant
                n == v@.len(),
                i <= j <= n,
                piece@ == v@.subrange(i as int, j as int),
                forall|k: int| i <= k < j ==> v@[k] != sep,
            decreases n - j,
        {
            push_char(&mut piece, v[j]);
            assert(v@.subrange(i as int, j + 1) =~= v@.subrange(i as int, j as int).push(v@[j as int]));
            j = j + 1;
        }
        let ghost rest = v@.skip(i as int);
        let ghost before = strs_view(pieces@);
        proof {
            lemma_span_until(rest, sep, j - i);
            assert(rest.take(j - i) =~= piece@);
        }
        pieces.push(piece);
        if j >= n {
            assert(rest =~= piece@);
            assert(split_on(rest, sep) == seq![rest]);
            assert(strs_view(pieces@) =~= before + split_on(rest, sep));
            return pieces;
        }
        proof {
            assert(rest.skip(j - i + 1) =~= v@.skip(j + 1));
            assert(strs_view(pieces@) + split_on(v@.skip(j + 1), sep) =~= before + split_on(rest, sep));
        }
        i = j + 1;
    }
}

/// Appends `t` to `s`.
pub fn append(s: &mut String, t: &str)
    ensures
        final(s)@ == old(s)@ + t@,
{
    s.append(t);
}

/// A copy of an optional string.
pub fn clone_opt(o: &Option<String>) -> (r: Option<String>)
    ensures
        opt_view(r) == opt_view(*o),
{
    match o {
        Some(s) => Some(s.clone()),
        None => None,
    }
}

/// A copy of a list of strings.
pub fn clone_strs(v: &Vec<String>) -> (r: Vec<String>)
    ensures
        strs_view(r@) == strs_view(v@),
{
    let mut r: Vec<String> = Vec::new();
    for i in 0..v.len()
        invariant
            r@.len() == i,
            forall|k: int| 0 <= k < i ==> #[trigger] r@[k]@ == v@[k]@,
    {
        r.push(v[i].clone());
    }
    assert(strs_view(r@) =~= strs_view(v@));
    r
}

/// Whether `c` occurs in `s`.
pub fn contains_char(s: &str, c: char) -> (r: bool)
    ensures
        r == has_char(s@, c),
{
    let v = chars_of(s);
    for i in 0..v.len()
        invariant
            v@ == s@,
            forall|k: int| 0 <= k < i ==> v@[k] != c,
    {
        if v[i] == c {
            return true;
        }
    }
    false
}

/// Whether `needle` occurs at position `at` of `hay`.
fn occurs_at(hay: &Vec<char>, needle: &Vec<char>, at: usize) -> (r: bool)
    requires
        at + needle.len() <= hay.len(),
    ensures
        r == (hay@.subrange(at as int, at + needle.len()) == needle@),
{
    for k in 0..needle.len()
        invariant
            at + needle.len() <= hay.len(),
            forall|m: int| 0 <= m < k ==> hay@[at + m] == needle@[m],
    {
        if hay[at + k] != needle[k] {
            assert(hay@.subrange(at as int, at + needle.len())[k as int] != needle@[k as int]);
            return false;
        }
    }
    assert(hay@.subrange(at as int, at + needle.len()) =~= needle@);
    true
}

/// Whether `needle` occurs in `hay`.
pub fn contains_seq(hay: &Vec<char>, needle: &Vec<char>) -> (r: bool)
    ensures
        r == is_substring(needle@, hay@),
{
    if needle.len() > hay.len() {
        return false;
    }
    let last = hay.len() - needle.len();
    let mut i: usize = 0;
    loop
        invariant
            i <= last,
            last + needle.len() == hay.len(),
            forall|k: int|
                0 <= k < i ==> #[trigger] hay@.subrange(k, k + needle.len()) != needle@,
        decreases last - i,
    {
        if occurs_at(hay, needle, i) {
            return true;
        }
        if i == last {
            return false;
        }
        i = i + 1;
    }
}

/// Whether `needle` occurs in `hay`.
pub fn contains_str(hay: &str, needle: &str) -> (r: bool)
    ensures
        r == is_substring(needle@, hay@),
{
    let h = chars_of(hay);
    let n = chars_of(needle);
    contains_seq(&h, &n)
}

/// Whether `s` begins with `prefix`.
pub fn starts_with(s: &str, prefix: &str) -> (r: bool)
    ensures
        r == has_prefix(s@, prefix@),
{
    let v = chars_of(s);
    let p = chars_of(prefix);
    if p.len() > v.len() {
        return false;
    }
    let r = occurs_at(&v, &p, 0);
    assert(v@.subrange(0, p@.len() as int) == v@.take(p@.len() as int));
    r
}

/// Appends the decimal representation of `n` to `out`.
pub fn push_decimal(out: &mut String, n: u64)
    ensures
        final(out)@ == old(out)@ + decimal(n as nat),
    decreases n,
{
    if n >= 10 {
        push_decimal(out, n / 10);
    }
    let d: u8 = (n % 10) as u8;
    let c: char = (48u8 + d) as char;
    push_char(out, c);
    proof {
        if n >= 10 {
            assert(old(out)@ + decimal(n as nat) =~= old(out)@ + decimal((n / 10) as nat) + seq![
                digit_char((n % 10) as nat),
            ]);
        } else {
            assert(old(out)@ + decimal(n as nat) =~= old(out)@ + seq![digit_char(n as nat)]);
        }
    }
}

/// Appends the strings of `list`, joined with `sep`, to `out`.
pub fn push_joined(out: &mut String, list: &Vec<String>, sep: &str)
    ensures
        final(out)@ == old(out)@ + join(strs_view(list@), sep@),
{
    let ghost start = out@;
    let ghost all = strs_view(list@);
    for i in 0..list.len()
        invariant
            all == strs_view(list@),
            out@ == start + join(all.take(i as int), sep@),
    {
        proof {
            assert(all.take(i + 1).drop_last() =~= all.take(i as int));
        }
        if i > 0 {
            append(out, sep);
        }
        append(out, list[i].as_str());
        proof {
            if i == 0 {
                assert(all.take(1) =~= seq![list@[0]@]);
                assert(out@ =~= start + join(all.take(1), sep@));
            } else {
                assert(out@ =~= start + join(all.take(i + 1), sep@));
            }
        }
    }
    assert(all.take(list.len() as int) =~= all);
}

/// `s` with every `from` replaced by `to`.
pub fn replace_char_in(s: &str, from: char, to: char) -> (r: String)
    ensures
        r@ == replace_char(s@, from, to),
{
    let v = chars_of(s);
    let mut r = String::new();
    for i in 0..v.len()
        invariant
            v@ == s@,
            r@ == replace_char(v@.take(i as int), from, to),
    {
        let c = v[i];
        push_char(&mut r, if c == from { to } else { c });
        assert(replace_char(v@.take(i + 1), from, to) =~= replace_char(v@.take(i as int), from, to).push(
            if c == from { to } else { c },
        ));
    }
    assert(v@.take(v@.len() as int) =~= v@);
    r
}

} // verus!
