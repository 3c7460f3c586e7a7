//! Normalization of one raw log record into a `LogRow`.
//!
//! The `level` entry is taken out of the record and becomes the row's level
//! (defaulting to `INFO` when it is absent, empty, or not a string); the
//! remaining fields become the row's payload; and the row's word list is the
//! deduplicated set of every object key and every string-leaf token found
//! anywhere in that payload.

use vstd::prelude::*;

use crate::json::fields_size;
use crate::json::fields_words;
use crate::json::list_size;
use crate::json::list_words;
use crate::json::size_of;
use crate::json::tokens_of;
use crate::json::words_of;
use crate::json::JsonValue;
use crate::tokenize::string_views;
use crate::tokenize::tokenize;

verus! {

broadcast use vstd::std_specs::vec::axiom_vec_decreases_to_view, vstd::seq::axiom_seq_index_decreases, vstd::seq::axiom_seq_subrange_decreases;

/// One ingested event, ready to be persisted.
pub struct LogRow {
    /// Ingestion wall-clock time, in microseconds since the epoch; never
    /// derived from the payload.
    pub time: i64,
    /// The residual payload: the record's fields with every `level` entry
    /// removed.
    pub data: Vec<(String, JsonValue)>,
    /// The record's level, `INFO` when none was given.
    pub level: String,
    /// Every word of the payload, each exactly once, in no fixed order.
    pub words: Vec<String>,
}

/// The fields of a record with every `level` entry removed.
pub open spec fn remove_level(s: Seq<(String, JsonValue)>) -> Seq<(String, JsonValue)>
    decreases s.len(),
{
    if s.len() == 0 {
        Seq::empty()
    } else if s[0].0@ == "level"@ {
        remove_level(s.drop_first())
    } else {
        seq![s[0]] + remove_level(s.drop_first())
    }
}

/// The value of the first `level` entry of a record, if any.
pub open spec fn level_value(s: Seq<(String, JsonValue)>) -> Option<JsonValue>
    decreases s.len(),
{
    if s.len() == 0 {
        None
    } else if s[0].0@ == "level"@ {
        Some(s[0].1)
    } else {
        level_value(s.drop_first())
    }
}

/// The level a record resolves to: a present, non-empty string value wins;
/// anything else defaults to `INFO`.
pub open spec fn resolve_level(v: Option<JsonValue>) -> Seq<char> {
    match v {
        Some(JsonValue::Str(l)) => if l@.len() > 0 {
            l@
        } else {
            "INFO"@
        },
        _ => "INFO"@,
    }
}

/// The level of a record.
pub open spec fn level_of(s: Seq<(String, JsonValue)>) -> Seq<char> {
    resolve_level(level_value(s))
}

/// No two strings of the sequence read the same.
pub open spec fn no_dup_views(s: Seq<String>) -> bool {
    forall|i: int, j: int| 0 <= i < j < s.len() ==> s[i]@ != s[j]@
}

/// The words still owed by the values waiting on a traversal work list.
pub open spec fn ref_list_words(s: Seq<&JsonValue>) -> Set<Seq<char>>
    decreases s.len(),
{
    if s.len() == 0 {
        Set::empty()
    } else {
        ref_list_words(s.drop_last()) + words_of(*s.last())
    }
}

/// The combined size of the values waiting on a traversal work list.
pub open spec fn ref_list_size(s: Seq<&JsonValue>) -> nat
    decreases s.len(),
{
    if s.len() == 0 {
        0
    } else {
        ref_list_size(s.drop_last()) + size_of(*s.last())
    }
}

/// How a partially scanned record relates to the level resolved so far:
/// scanning runs back to front, so the front-most `level` entry of the
/// scanned suffix decides.
pub open spec fn level_state_ok(level_opt: Option<String>, suffix: Seq<(String, JsonValue)>) -> bool {
    match level_opt {
        None => level_value(suffix) is None,
        Some(l) => level_value(suffix) is Some && l@ == resolve_level(level_value(suffix)),
    }
}

/// Law: removing the level leaves no `level` entry behind, so the persisted
/// payload never carries one.
pub proof fn lemma_no_level_in_residual(s: Seq<(String, JsonValue)>)
    ensures
        level_value(remove_level(s)) is None,
        forall|i: int|
            0 <= i < remove_level(s).len() ==> (#[trigger] remove_level(s)[i]).0@ != "level"@,
    decreases s.len(),
{
    if s.len() == 0 {
    } else {
        lemma_no_level_in_residual(s.drop_first());
        if s[0].0@ == "level"@ {
        } else {
            let r = remove_level(s);
            let rest = remove_level(s.drop_first());
            assert(r == seq![s[0]] + rest);
            assert(r.drop_first() =~= rest);
            assert forall|i: int| 0 <= i < r.len() implies (#[trigger] r[i]).0@ != "level"@ by {
                if i > 0 {
                    assert(r[i] == rest[i - 1]);
                }
            }
        }
    }
}

/// On a record with no `level` entry, normalization changes nothing: the
/// payload stays as it is and the level defaults to `INFO`.
pub proof fn lemma_normalize_fixpoint(s: Seq<(String, JsonValue)>)
    requires
        level_value(s) is None,
    ensures
        remove_level(s) == s,
        level_of(s) == "INFO"@,
    decreases s.len(),
{
    if s.len() == 0 {
        assert(remove_level(s) =~= s);
    } else {
        lemma_normalize_fixpoint(s.drop_first());
        assert(remove_level(s) =~= s);
    }
}

/// Law: normalization is idempotent.  Re-normalizing the residual payload of
/// a previous normalization removes nothing further, so its word set is the
/// word set the first normalization produced.
pub proof fn lemma_normalize_idempotent(s: Seq<(String, JsonValue)>)
    ensures
        remove_level(remove_level(s)) == remove_level(s),
        fields_words(remove_level(remove_level(s))) == fields_words(remove_level(s)),
        level_of(remove_level(s)) == "INFO"@,
{
    lemma_no_level_in_residual(s);
    lemma_normalize_fixpoint(remove_level(s));
}

/// Whether some string of `words` reads as `w`.
fn contains_word(words: &Vec<String>, w: &String) -> (r: bool)
    ensures
        r == string_views(words@).contains(w@),
{
    let mut i: usize = 0;
    while i < words.len()
        invariant
            i <= words@.len(),
            forall|j: int| 0 <= j < i ==> words@[j]@ != w@,
        decreases words@.len() - i,
    {
        if words[i].eq(w) {
            assert(string_views(words@).contains(w@));
            return true;
        }
        i = i + 1;
    }
    false
}

/// Adds `w` to `words` unless an equal word is already there.
fn insert_word(words: &mut Vec<String>, w: String)
    requires
        no_dup_views(old(words)@),
    ensures
        string_views(final(words)@) =~= string_views(old(words)@).insert(w@),
        no_dup_views(final(words)@),
{
    if !contains_word(words, &w) {
        let ghost before = words@;
        words.push(w);
        proof {
            assert forall|x: Seq<char>| string_views(words@).contains(x) implies string_views(
                before,
            ).insert(w@).contains(x) by {
                let j = choose|j: int| 0 <= j < words@.len() && words@[j]@ == x;
                if j < before.len() {
                    assert(string_views(before).contains(x));
                }
            }
            assert forall|x: Seq<char>| string_views(before).insert(w@).contains(x)
                implies string_views(words@).contains(x) by {
                if string_views(before).contains(x) {
                    let j = choose|j: int| 0 <= j < before.len() && before[j]@ == x;
                    assert(words@[j]@ == x);
                } else {
                    assert(words@[before.len() as int]@ == x);
                }
            }
        }
    }
}

/// Adds every token of `s` to `words`, without duplicating any.
fn insert_tokens(words: &mut Vec<String>, s: &str)
    requires
        no_dup_views(old(words)@),
    ensures
        string_views(final(words)@) =~= string_views(old(words)@) + tokens_of(s@),
        no_dup_views(final(words)@),
{
    let mut toks = tokenize(s);
    let ghost target = string_views(old(words)@) + tokens_of(s@);
    proof {
        assert(string_views(words@) + string_views(toks@) =~= target);
    }
    while toks.len() > 0
        invariant
            string_views(words@) + string_views(toks@) =~= target,
            string_views(words@).subset_of(target),
            no_dup_views(words@),
        decreases toks@.len(),
    {
        let ghost toks_pre = toks@;
        let t = toks.pop().unwrap();
        proof {
            assert forall|x: Seq<char>| string_views(toks_pre).contains(x) implies string_views(
                toks@,
            ).insert(t@).contains(x) by {
                let j = choose|j: int| 0 <= j < toks_pre.len() && toks_pre[j]@ == x;
                if j < toks@.len() {
                    assert(toks@[j] == toks_pre[j]);
                    assert(string_views(toks@).contains(x));
                }
            }
            assert forall|x: Seq<char>| string_views(toks@).insert(t@).contains(x)
                implies string_views(toks_pre).contains(x) by {
                if string_views(toks@).contains(x) {
                    let j = choose|j: int| 0 <= j < toks@.len() && toks@[j]@ == x;
                    assert(toks_pre[j]@ == x);
                } else {
                    assert(toks_pre[toks_pre.len() - 1]@ == x);
                }
            }
            assert(string_views(toks_pre) =~= string_views(toks@).insert(t@));
        }
        insert_word(words, t);
    }
    proof {
        assert(string_views(toks@) =~= Set::empty());
        assert(string_views(words@) =~= target);
    }
}

/// Records every key of an object's fields as a word and queues every value
/// for traversal.
fn push_obj_fields<'a>(
    words: &mut Vec<String>,
    wl: &mut Vec<&'a JsonValue>,
    fields: &'a Vec<(String, JsonValue)>,
)
    requires
        no_dup_views(old(words)@),
    ensures
        string_views(final(words)@) + ref_list_words(final(wl)@) =~= string_views(old(words)@)
            + ref_list_words(old(wl)@) + fields_words(fields@),
        ref_list_size(final(wl)@) == ref_list_size(old(wl)@) + fields_size(fields@),
        no_dup_views(final(words)@),
{
    let mut k: usize = 0;
    while k < fields.len()
        invariant
            k <= fields@.len(),
            string_views(words@) + ref_list_words(wl@) =~= string_views(old(words)@)
                + ref_list_words(old(wl)@) + fields_words(fields@.subrange(0, k as int)),
            ref_list_size(wl@) == ref_list_size(old(wl)@) + fields_size(
                fields@.subrange(0, k as int),
            ),
            no_dup_views(words@),
        decreases fields@.len() - k,
    {
        let ghost words_pre = words@;
        let ghost wl_pre = wl@;
        let key = fields[k].0.clone();
        proof {
            assert(key@ == fields@[k as int].0@);
        }
        insert_word(words, key);
        wl.push(&fields[k].1);
        proof {
            let pre = fields@.subrange(0, k as int);
            let post = fields@.subrange(0, (k + 1) as int);
            assert(post.drop_last() =~= pre);
            assert(post.last() == fields@[k as int]);
            assert(wl@.drop_last() =~= wl_pre);
            assert(*wl@.last() == fields@[k as int].1);
            assert(ref_list_words(wl@) == ref_list_words(wl_pre) + words_of(fields@[k as int].1));
            assert(ref_list_size(wl@) == ref_list_size(wl_pre) + size_of(fields@[k as int].1));
            assert(fields_words(post) == fields_words(pre).insert(fields@[k as int].0@)
                + words_of(fields@[k as int].1));
            assert(fields_size(post) == fields_size(pre) + size_of(fields@[k as int].1));
            assert forall|x: Seq<char>|
                (string_views(words@) + ref_list_words(wl@)).contains(x) == (string_views(
                    old(words)@,
                ) + ref_list_words(old(wl)@) + fields_words(post)).contains(x) by {
                assert((string_views(words_pre) + ref_list_words(wl_pre)).contains(x)
                    == (string_views(old(words)@) + ref_list_words(old(wl)@) + fields_words(
                    pre,
                )).contains(x));
            }
            assert(string_views(words@) + ref_list_words(wl@) =~= string_views(old(words)@)
                + ref_list_words(old(wl)@) + fields_words(post));
        }
        k = k + 1;
    }
    proof {
        assert(fields@.subrange(0, fields@.len() as int) =~= fields@);
    }
}

/// Queues every value of an array for traversal.
fn push_list_items<'a>(wl: &mut Vec<&'a JsonValue>, items: &'a Vec<JsonValue>)
    ensures
        ref_list_words(final(wl)@) =~= ref_list_words(old(wl)@) + list_words(items@),
        ref_list_size(final(wl)@) == ref_list_size(old(wl)@) + list_size(items@),
{
    let mut k: usize = 0;
    while k < items.len()
        invariant
            k <= items@.len(),
            ref_list_words(wl@) =~= ref_list_words(old(wl)@) + list_words(
                items@.subrange(0, k as int),
            ),
            ref_list_size(wl@) == ref_list_size(old(wl)@) + list_size(
                items@.subrange(0, k as int),
            ),
        decreases items@.len() - k,
    {
        let ghost wl_pre = wl@;
        wl.push(&items[k]);
        proof {
            let pre = items@.subrange(0, k as int);
            let post = items@.subrange(0, (k + 1) as int);
            assert(post.drop_last() =~= pre);
            assert(post.last() == items@[k as int]);
            assert(wl@.drop_last() =~= wl_pre);
            assert(*wl@.last() == items@[k as int]);
            assert(ref_list_words(wl@) == ref_list_words(wl_pre) + words_of(items@[k as int]));
            assert(ref_list_size(wl@) == ref_list_size(wl_pre) + size_of(items@[k as int]));
            assert(list_words(post) == list_words(pre) + words_of(items@[k as int]));
            assert(list_size(post) == list_size(pre) + size_of(items@[k as int]));
            assert(ref_list_words(wl@) =~= ref_list_words(old(wl)@) + list_words(post));
        }
        k = k + 1;
    }
    proof {
        assert(items@.subrange(0, items@.len() as int) =~= items@);
    }
}

impl LogRow {
    /// Normalizes one raw record: takes the level out, keeps the residual
    /// payload, and gathers the payload's words, deduplicated.
    pub fn new(fields: Vec<(String, JsonValue)>, now_micros: i64) -> (r: LogRow)
        ensures
            r.time == now_micros,
            r.data@ == remove_level(fields@),
            r.level@ == level_of(fields@),
            string_views(r.words@) =~= fields_words(remove_level(fields@)),
            no_dup_views(r.words@),
    {
        let ghost orig = fields@;
        let mut fields = fields;
        let level_key = String::from_str("level");
        let mut residual: Vec<(String, JsonValue)> = Vec::new();
        let mut level_opt: Option<String> = None;
        while fields.len() > 0
            invariant
                level_key@ == "level"@,
                fields@.len() <= orig.len(),
                fields@ =~= orig.subrange(0, fields@.len() as int),
                residual@ == remove_level(orig.subrange(fields@.len() as int, orig.len() as int)),
                level_state_ok(level_opt, orig.subrange(fields@.len() as int, orig.len() as int)),
            decreases fields@.len(),
        {
            let ghost m = fields@.len() as int;
            let ghost suffix_pre = orig.subrange(m, orig.len() as int);
            let x = fields.pop().unwrap();
            proof {
                assert(fields@ =~= orig.subrange(0, m - 1));
                assert(x == orig[m - 1]);
                let suffix = orig.subrange(m - 1, orig.len() as int);
                assert(suffix[0] == x);
                assert(suffix.drop_first() =~= suffix_pre);
            }
            if x.0.eq(&level_key) {
                let lv = match x.1 {
                    JsonValue::Str(l) => if !l.as_str().is_empty() {
                        l
                    } else {
                        String::from_str("INFO")
                    },
                    _ => String::from_str("INFO"),
                };
                level_opt = Some(lv);
            } else {
                let ghost res_pre = residual@;
                residual.insert(0, x);
                proof {
                    assert(residual@ =~= seq![x] + res_pre);
                }
            }
        }
        let level = match level_opt {
            Some(l) => l,
            None => String::from_str("INFO"),
        };
        proof {
            assert(orig.subrange(0, orig.len() as int) =~= orig);
            assert(residual@ == remove_level(orig));
            assert(level@ == level_of(orig));
        }
        let mut words: Vec<String> = Vec::new();
        let mut wl: Vec<&JsonValue> = Vec::new();
        proof {
            assert(string_views(words@) =~= Set::empty());
        }
        push_obj_fields(&mut words, &mut wl, &residual);
        while wl.len() > 0
            invariant
                string_views(words@) + ref_list_words(wl@) =~= fields_words(residual@),
                no_dup_views(words@),
            decreases ref_list_size(wl@),
        {
            let ghost wl_pre = wl@;
            let v = wl.pop().unwrap();
            proof {
                assert(wl@ =~= wl_pre.drop_last());
                assert(v == wl_pre.last());
                assert(ref_list_words(wl_pre) == ref_list_words(wl@) + words_of(*v));
                assert(ref_list_size(wl_pre) == ref_list_size(wl@) + size_of(*v));
                assert(size_of(*v) >= 1);
            }
            match v {
                JsonValue::Null => {},
                JsonValue::Bool(_) => {},
                JsonValue::Num(_) => {},
                JsonValue::Str(s) => {
                    insert_tokens(&mut words, s.as_str());
                },
                JsonValue::Arr(items) => {
                    push_list_items(&mut wl, items);
                },
                JsonValue::Obj(f2) => {
                    push_obj_fields(&mut words, &mut wl, f2);
                },
            }
        }
        proof {
            assert(ref_list_words(wl@) =~= Set::empty());
            assert(string_views(words@) =~= fields_words(residual@));
        }
        LogRow { time: now_micros, data: residual, level, words }
    }
}

} // verus!
