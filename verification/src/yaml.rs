//! A YAML document as the spec validator reads it: maps looked up by
//! string key, sequences, strings and unsigned integers, with tags looked
//! through.
use vstd::prelude::*;

verus! {

/// A YAML value. Floating-point numbers are kept only as such, without
/// their value; tags are kept without their names.
pub enum YamlValue {
    Null,
    Bool(bool),
    PosInt(u64),
    NegInt(i64),
    Float,
    Str(String),
    Sequence(Vec<YamlValue>),
    Mapping(Vec<(YamlValue, YamlValue)>),
    Tagged(Box<YamlValue>),
}

// ── Specifications ──

/// The value under any tags.
pub open spec fn untag(v: YamlValue) -> YamlValue
    decreases v,
{
    match v {
        YamlValue::Tagged(inner) => untag(*inner),
        _ => v,
    }
}

/// The first entry at or after `i` whose key is the string `key`.
pub open spec fn entry_index(es: Seq<(YamlValue, YamlValue)>, key: Seq<char>, i: int) -> Option<int>
    decreases es.len() - i,
{
    if i < 0 || i >= es.len() {
        None
    } else if es[i].0 matches YamlValue::Str(k) && k@ == key {
        Some(i)
    } else {
        entry_index(es, key, i + 1)
    }
}

/// The value a mapping holds under the string key `key`.
pub open spec fn get(v: YamlValue, key: Seq<char>) -> Option<YamlValue> {
    match untag(v) {
        YamlValue::Mapping(es) => match entry_index(es@, key, 0) {
            Some(i) => Some(es@[i].1),
            None => None,
        },
        _ => None,
    }
}

/// The string a value holds.
pub open spec fn as_str(v: YamlValue) -> Option<Seq<char>> {
    match untag(v) {
        YamlValue::Str(s) => Some(s@),
        _ => None,
    }
}

/// The elements of a sequence.
pub open spec fn as_seq(v: YamlValue) -> Option<Seq<YamlValue>> {
    match untag(v) {
        YamlValue::Sequence(s) => Some(s@),
        _ => None,
    }
}

/// The unsigned integer a value holds.
pub open spec fn as_u64(v: YamlValue) -> Option<u64> {
    match untag(v) {
        YamlValue::PosInt(n) => Some(n),
        _ => None,
    }
}

/// The string under `key`, if both exist.
pub open spec fn get_str(v: YamlValue, key: Seq<char>) -> Option<Seq<char>> {
    match get(v, key) {
        Some(x) => as_str(x),
        None => None,
    }
}

/// The string under `key`, or `default`.
pub open spec fn str_or(v: YamlValue, key: Seq<char>, default: Seq<char>) -> Seq<char> {
    match get_str(v, key) {
        Some(s) => s,
        None => default,
    }
}

/// The sequence under `key`, if both exist.
pub open spec fn get_seq(v: YamlValue, key: Seq<char>) -> Option<Seq<YamlValue>> {
    match get(v, key) {
        Some(x) => as_seq(x),
        None => None,
    }
}

/// The value behind an optional reference.
pub open spec fn deref_opt(o: Option<&YamlValue>) -> Option<YamlValue> {
    match o {
        Some(v) => Some(*v),
        None => None,
    }
}

// ── Executable functions ──

/// The value under any tags.
pub fn untag_ref(v: &YamlValue) -> (r: &YamlValue)
    ensures
        *r == untag(*v),
    decreases v,
{
    match v {
        YamlValue::Tagged(inner) => untag_ref(inner),
        _ => v,
    }
}

/// The value a mapping holds under the string key `key`.
pub fn yaml_get<'a>(v: &'a YamlValue, key: &str) -> (r: Option<&'a YamlValue>)
    ensures
        deref_opt(r) == get(*v, key@),
{
    let k = crate::text::owned(key);
    match untag_ref(v) {
        YamlValue::Mapping(es) => {
            let mut i: usize = 0;
            while i < es.len()
                invariant
                    i <= es@.len(),
                    k@ == key@,
                    untag(*v) == YamlValue::Mapping(*es),
                    entry_index(es@, key@, 0) == entry_index(es@, key@, i as int),
                decreases es.len() - i,
            {
                if let YamlValue::Str(s) = &es[i].0 {
                    if *s == k {
                        return Some(&es[i].1);
                    }
                }
                i = i + 1;
            }
            None
        },
        _ => None,
    }
}

/// The string a value holds.
pub fn yaml_as_str(v: &YamlValue) -> (r: Option<&str>)
    ensures
        match r {
            Some(s) => as_str(*v) == Some(s@),
            None => as_str(*v) is None,
        },
{
    match untag_ref(v) {
        YamlValue::Str(s) => Some(s.as_str()),
        _ => None,
    }
}

/// The elements of a sequence.
pub fn yaml_as_seq(v: &YamlValue) -> (r: Option<&Vec<YamlValue>>)
    ensures
        match r {
            Some(s) => as_seq(*v) == Some(s@),
            None => as_seq(*v) is None,
        },
{
    match untag_ref(v) {
        YamlValue::Sequence(s) => Some(s),
        _ => None,
    }
}

/// The unsigned integer a value holds.
pub fn yaml_as_u64(v: &YamlValue) -> (r: Option<u64>)
    ensures
        r == as_u64(*v),
{
    match untag_ref(v) {
        YamlValue::PosInt(n) => Some(*n),
        _ => None,
    }
}

/// The string under `key`, or `default`.
pub fn yaml_str_or<'a>(v: &'a YamlValue, key: &str, default: &'a str) -> (r: &'a str)
    ensures
        r@ == str_or(*v, key@, default@),
{
    match yaml_get(v, key) {
        Some(x) => match yaml_as_str(x) {
            Some(s) => s,
            None => default,
        },
        None => default,
    }
}

/// The sequence under `key`, if both exist.
pub fn yaml_get_seq<'a>(v: &'a YamlValue, key: &str) -> (r: Option<&'a Vec<YamlValue>>)
    ensures
        match r {
            Some(s) => get_seq(*v, key@) == Some(s@),
            None => get_seq(*v, key@) is None,
        },
{
    match yaml_get(v, key) {
        Some(x) => yaml_as_seq(x),
        None => None,
    }
}

} // verus!
