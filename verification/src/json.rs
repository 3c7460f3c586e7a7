//! Structured log payloads and the words they contribute to full-text search.
//!
//! A payload is an arbitrarily nested structure of objects, arrays, strings,
//! numbers and booleans.  Its *words* are every object key, at any depth,
//! together with every token of every string leaf; a token is a maximal run
//! of alphanumeric characters, where a single `-` or `_` joins two runs into
//! one token.

use vstd::prelude::*;

verus! {

broadcast use vstd::std_specs::vec::axiom_vec_decreases_to_view, vstd::seq::axiom_seq_index_decreases, vstd::seq::axiom_seq_subrange_decreases;

/// One structured value of a log payload.  A number is kept as the text it
/// was written with: nothing in this library reads a numeric value.
#[derive(Debug)]
pub enum JsonValue {
    Null,
    Bool(bool),
    Num(String),
    Str(String),
    Arr(Vec<JsonValue>),
    Obj(Vec<(String, JsonValue)>),
}

/// An alphanumeric character: the body of a token.
pub open spec fn core_char(c: char) -> bool {
    ('A' <= c && c <= 'Z') || ('a' <= c && c <= 'z') || ('0' <= c && c <= '9')
}

/// A character that joins two alphanumeric runs into one token.
pub open spec fn joiner_char(c: char) -> bool {
    c == '-' || c == '_'
}

/// Position `i` of `s` lies inside a token: it is alphanumeric, or it is a
/// joiner standing between two alphanumeric characters.
pub open spec fn in_token(s: Seq<char>, i: int) -> bool {
    &&& 0 <= i < s.len()
    &&& (core_char(s[i]) || (joiner_char(s[i]) && 1 <= i && i + 1 < s.len() && core_char(s[i - 1])
        && core_char(s[i + 1])))
}

/// `[st, en)` is a maximal run of in-token positions of `s`.
pub open spec fn token_run(s: Seq<char>, st: int, en: int) -> bool {
    &&& 0 <= st < en <= s.len()
    &&& (forall|k: int| st <= k < en ==> in_token(s, k))
    &&& !in_token(s, st - 1)
    &&& !in_token(s, en)
}

/// Every token of the string `s`.
pub open spec fn tokens_of(s: Seq<char>) -> Set<Seq<char>> {
    Set::new(|w: Seq<char>| exists|st: int, en: int| token_run(s, st, en) && w == s.subrange(st, en))
}

/// Every word of one value: tokens of its string leaves and keys of its
/// objects, at any depth.
pub open spec fn words_of(v: JsonValue) -> Set<Seq<char>>
    decreases v,
{
    match v {
        JsonValue::Null => Set::empty(),
        JsonValue::Bool(_) => Set::empty(),
        JsonValue::Num(_) => Set::empty(),
        JsonValue::Str(s) => tokens_of(s@),
        JsonValue::Arr(items) => list_words(items@),
        JsonValue::Obj(fields) => fields_words(fields@),
    }
}

/// The words of every value of a list, united.
pub open spec fn list_words(s: Seq<JsonValue>) -> Set<Seq<char>>
    decreases s,
{
    if s.len() == 0 {
        Set::empty()
    } else {
        list_words(s.drop_last()) + words_of(s.last())
    }
}

/// The words of an object's fields: each key, and each value's words.
pub open spec fn fields_words(s: Seq<(String, JsonValue)>) -> Set<Seq<char>>
    decreases s,
{
    if s.len() == 0 {
        Set::empty()
    } else {
        fields_words(s.drop_last()).insert(s.last().0@) + words_of(s.last().1)
    }
}

/// The number of nodes of one value: the measure that bounds a traversal.
pub open spec fn size_of(v: JsonValue) -> nat
    decreases v,
{
    match v {
        JsonValue::Null => 1,
        JsonValue::Bool(_) => 1,
        JsonValue::Num(_) => 1,
        JsonValue::Str(_) => 1,
        JsonValue::Arr(items) => 1 + list_size(items@),
        JsonValue::Obj(fields) => 1 + fields_size(fields@),
    }
}

/// The combined size of the values of a list.
pub open spec fn list_size(s: Seq<JsonValue>) -> nat
    decreases s,
{
    if s.len() == 0 {
        0
    } else {
        list_size(s.drop_last()) + size_of(s.last())
    }
}

/// The combined size of the values of an object's fields.
pub open spec fn fields_size(s: Seq<(String, JsonValue)>) -> nat
    decreases s,
{
    if s.len() == 0 {
        0
    } else {
        fields_size(s.drop_last()) + size_of(s.last().1)
    }
}

} // verus!
