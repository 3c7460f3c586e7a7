//! The word scanner: splits a string leaf into its lexical tokens.
//!
//! A token is a maximal run of alphanumeric characters where a single `-` or
//! `_` standing between two alphanumeric characters joins its neighbours into
//! one token.  `"disk-full on node-7"` holds the tokens `disk-full`, `on` and
//! `node-7`; `"a--b"` holds `a` and `b`.

use vstd::prelude::*;

use crate::json::core_char;
use crate::json::in_token;
use crate::json::joiner_char;
use crate::json::token_run;
use crate::json::tokens_of;

verus! {

/// The set of views of a sequence of strings.
pub open spec fn string_views(s: Seq<String>) -> Set<Seq<char>> {
    Set::new(|w: Seq<char>| exists|i: int| 0 <= i < s.len() && s[i]@ == w)
}

/// The tokens of `s` whose run ends at or before position `i`.
pub open spec fn tokens_upto(s: Seq<char>, i: int) -> Set<Seq<char>> {
    Set::new(
        |w: Seq<char>|
            exists|st: int, en: int| token_run(s, st, en) && en <= i && w == s.subrange(st, en),
    )
}

/// Whether `c` is alphanumeric.
fn is_core(c: char) -> (r: bool)
    ensures
        r == core_char(c),
{
    let u = c as u32;
    (65 <= u && u <= 90) || (97 <= u && u <= 122) || (48 <= u && u <= 57)
}

/// Whether position `i` of `s` lies inside a token.
fn in_token_at(s: &str, n: usize, i: usize) -> (r: bool)
    requires
        n == s@.len(),
        i < n,
    ensures
        r == in_token(s@, i as int),
{
    let c = s.get_char(i);
    if is_core(c) {
        true
    } else if (c as u32 == 45 || c as u32 == 95) && 1 <= i && i + 1 < n {
        assert(joiner_char(c));
        is_core(s.get_char(i - 1)) && is_core(s.get_char(i + 1))
    } else {
        false
    }
}

/// No token run ends just past a position that is outside every token.
proof fn lemma_skip_gap(s: Seq<char>, i: int)
    requires
        0 <= i < s.len(),
        !in_token(s, i),
    ensures
        tokens_upto(s, i + 1) =~= tokens_upto(s, i),
{
    assert forall|w: Seq<char>| tokens_upto(s, i + 1).contains(w) implies tokens_upto(
        s,
        i,
    ).contains(w) by {
        let (st, en) = choose|st: int, en: int|
            token_run(s, st, en) && en <= i + 1 && w == s.subrange(st, en);
        assert(in_token(s, en - 1));
        assert(en != i + 1);
    }
}

/// A run `[st, en)` is the only token run that ends inside `(st, en]`, so
/// taking it extends the collected tokens by exactly that run's text.
proof fn lemma_take_run(s: Seq<char>, st: int, en: int)
    requires
        token_run(s, st, en),
    ensures
        tokens_upto(s, en) =~= tokens_upto(s, st).insert(s.subrange(st, en)),
{
    assert forall|w: Seq<char>| tokens_upto(s, en).contains(w) implies tokens_upto(s, st).insert(
        s.subrange(st, en),
    ).contains(w) by {
        let (a, b) = choose|a: int, b: int| token_run(s, a, b) && b <= en && w == s.subrange(a, b);
        if b > st {
            assert(in_token(s, b - 1));
            if a < st {
                assert(in_token(s, st - 1));
            }
            assert(a >= st);
            if a > st {
                assert(in_token(s, a - 1));
            }
            assert(a == st);
            if b < en {
                assert(in_token(s, b));
            }
            assert(b == en);
        }
    }
    assert(token_run(s, st, en) && en <= en && s.subrange(st, en) == s.subrange(st, en));
    assert(tokens_upto(s, en).contains(s.subrange(st, en)));
}

/// Every token of the whole string ends by its last position.
proof fn lemma_tokens_at_end(s: Seq<char>)
    ensures
        tokens_upto(s, s.len() as int) =~= tokens_of(s),
{
}

/// Splits `s` into its tokens, in order of appearance; a token that appears
/// several times appears several times in the result.
pub fn tokenize(s: &str) -> (r: Vec<String>)
    ensures
        string_views(r@) =~= tokens_of(s@),
{
    let n = s.unicode_len();
    let mut out: Vec<String> = Vec::new();
    let mut i: usize = 0;
    while i < n
        invariant
            n == s@.len(),
            0 <= i <= n,
            i == 0 || !in_token(s@, i - 1) || !in_token(s@, i as int),
            string_views(out@) =~= tokens_upto(s@, i as int),
        decreases n - i,
    {
        if !in_token_at(s, n, i) {
            proof {
                lemma_skip_gap(s@, i as int);
            }
            i = i + 1;
        } else {
            let st = i;
            while i < n && in_token_at(s, n, i)
                invariant
                    n == s@.len(),
                    st <= i <= n,
                    st < n,
                    forall|k: int| st <= k < i ==> in_token(s@, k),
                    in_token(s@, st as int),
                decreases n - i,
            {
                i = i + 1;
            }
            assert(token_run(s@, st as int, i as int));
            let tok = s.substring_char(st, i).to_owned();
            proof {
                lemma_take_run(s@, st as int, i as int);
            }
            let ghost before = out@;
            out.push(tok);
            proof {
                assert forall|w: Seq<char>| string_views(out@).contains(w) implies tokens_upto(
                    s@,
                    i as int,
                ).contains(w) by {
                    let j = choose|j: int| 0 <= j < out@.len() && out@[j]@ == w;
                    if j < before.len() {
                        assert(string_views(before).contains(w));
                    }
                }
                assert forall|w: Seq<char>| tokens_upto(s@, i as int).contains(w) implies string_views(
                    out@,
                ).contains(w) by {
                    if string_views(before).contains(w) {
                        let j = choose|j: int| 0 <= j < before.len() && before[j]@ == w;
                        assert(out@[j]@ == w);
                    } else {
                        assert(out@[before.len() as int]@ == w);
                    }
                }
            }
        }
    }
    proof {
        lemma_tokens_at_end(s@);
    }
    out
}

} // verus!
