//! Decoding of store replies and queue payloads into the library's values.
//!
//! A listing cell may come back as structured data, a number, a string
//! list, or plain text; the first decode that succeeded wins, in that fixed
//! priority order.  A queue payload must decode as an array of objects;
//! anything else contributes no records.

use vstd::prelude::*;

use crate::json::JsonValue;

verus! {

/// Picks a listing cell's value from the decode attempts, in priority
/// order: structured data, then a number, then a string list, then plain
/// text, and null when every attempt failed.
pub fn resolve_cell(
    structured: Option<JsonValue>,
    number: Option<String>,
    word_list: Option<Vec<String>>,
    text: Option<String>,
) -> (r: JsonValue)
    ensures
        structured is Some ==> r == structured.unwrap(),
        structured is None && number is Some ==> r == JsonValue::Num(number.unwrap()),
        structured is None && number is None && word_list is Some ==> (r matches JsonValue::Arr(
            items,
        ) && items@.len() == word_list.unwrap()@.len() && (forall|i: int|
            0 <= i < items@.len() ==> (#[trigger] items@[i]) == JsonValue::Str(
                word_list.unwrap()@[i],
            ))),
        structured is None && number is None && word_list is None && text is Some ==> r
            == JsonValue::Str(text.unwrap()),
        structured is None && number is None && word_list is None && text is None ==> r
            == JsonValue::Null,
{
    match structured {
        Some(v) => v,
        None => match number {
            Some(n) => JsonValue::Num(n),
            None => match word_list {
                Some(ws) => {
                    let mut items: Vec<JsonValue> = Vec::new();
                    let mut i: usize = 0;
                    while i < ws.len()
                        invariant
                            i <= ws@.len(),
                            items@.len() == i,
                            forall|j: int|
                                0 <= j < i ==> (#[trigger] items@[j]) == JsonValue::Str(ws@[j]),
                        decreases ws@.len() - i,
                    {
                        items.push(JsonValue::Str(ws[i].clone()));
                        i = i + 1;
                    }
                    JsonValue::Arr(items)
                },
                None => match text {
                    Some(t) => JsonValue::Str(t),
                    None => JsonValue::Null,
                },
            },
        },
    }
}

/// One listing row as it goes out: the rendered time, the level (null when
/// the store held none), then each projected cell.
pub fn assemble_row(time_text: String, level: Option<String>, cells: Vec<JsonValue>) -> (r: Vec<
    JsonValue,
>)
    ensures
        r@.len() == 2 + cells@.len(),
        r@[0] == JsonValue::Str(time_text),
        level is Some ==> r@[1] == JsonValue::Str(level.unwrap()),
        level is None ==> r@[1] == JsonValue::Null,
        forall|i: int| 0 <= i < cells@.len() ==> r@[2 + i] == (#[trigger] cells@[i]),
{
    let ghost orig = cells@;
    let ghost time0 = time_text;
    let ghost level0 = level;
    let mut cells = cells;
    let mut r: Vec<JsonValue> = Vec::new();
    r.push(JsonValue::Str(time_text));
    match level {
        Some(l) => r.push(JsonValue::Str(l)),
        None => r.push(JsonValue::Null),
    }
    let mut rev: Vec<JsonValue> = Vec::new();
    while cells.len() > 0
        invariant
            rev@.len() + cells@.len() == orig.len(),
            cells@ == orig.subrange(0, cells@.len() as int),
            forall|i: int| 0 <= i < rev@.len() ==> (#[trigger] rev@[i]) == orig[orig.len() - 1 - i],
        decreases cells@.len(),
    {
        let ghost m = cells@.len() as int;
        let v = cells.pop().unwrap();
        proof {
            assert(cells@ =~= orig.subrange(0, m - 1));
            assert(v == orig[m - 1]);
        }
        rev.push(v);
    }
    while rev.len() > 0
        invariant
            rev@.len() <= orig.len(),
            r@.len() == 2 + (orig.len() - rev@.len()),
            r@[0] == JsonValue::Str(time0),
            level0 is Some ==> r@[1] == JsonValue::Str(level0.unwrap()),
            level0 is None ==> r@[1] == JsonValue::Null,
            forall|i: int| 0 <= i < rev@.len() ==> (#[trigger] rev@[i]) == orig[orig.len() - 1 - i],
            forall|i: int| 0 <= i < orig.len() - rev@.len() ==> r@[2 + i] == (#[trigger] orig[i]),
        decreases rev@.len(),
    {
        let ghost r_pre = r@;
        let v = rev.pop().unwrap();
        r.push(v);
        proof {
            assert(r@ == r_pre.push(v));
            assert(r_pre.push(v)[0] == r_pre[0]);
            assert(r_pre.push(v)[1] == r_pre[1]);
        }
    }
    r
}

/// The field lists of the objects of a decoded payload array, in order;
/// array elements that are not objects contribute nothing.
pub open spec fn obj_fields(s: Seq<JsonValue>) -> Seq<Seq<(String, JsonValue)>>
    decreases s.len(),
{
    if s.len() == 0 {
        Seq::empty()
    } else {
        obj_fields(s.drop_last()) + (match s.last() {
            JsonValue::Obj(f) => seq![f@],
            _ => Seq::empty(),
        })
    }
}

/// The records of one delivered message: the objects of its decoded array,
/// in order.  A payload that did not decode, or decoded to anything but an
/// array, contributes no records — the delivery still counts as consumed.
pub fn extract_records(payload: Option<JsonValue>) -> (r: Vec<Vec<(String, JsonValue)>>)
    ensures
        match payload {
            Some(JsonValue::Arr(items)) => r@.len() == obj_fields(items@).len() && (forall|i: int|
                0 <= i < r@.len() ==> (#[trigger] r@[i])@ == obj_fields(items@)[i]),
            _ => r@.len() == 0,
        },
{
    let items = match payload {
        Some(JsonValue::Arr(items)) => items,
        _ => {
            return Vec::new();
        },
    };
    let ghost orig = items@;
    let mut items = items;
    let mut rev: Vec<JsonValue> = Vec::new();
    while items.len() > 0
        invariant
            rev@.len() + items@.len() == orig.len(),
            items@ == orig.subrange(0, items@.len() as int),
            forall|i: int| 0 <= i < rev@.len() ==> (#[trigger] rev@[i]) == orig[orig.len() - 1 - i],
        decreases items@.len(),
    {
        let ghost m = items@.len() as int;
        let v = items.pop().unwrap();
        proof {
            assert(items@ =~= orig.subrange(0, m - 1));
            assert(v == orig[m - 1]);
        }
        rev.push(v);
    }
    let mut out: Vec<Vec<(String, JsonValue)>> = Vec::new();
    while rev.len() > 0
        invariant
            rev@.len() <= orig.len(),
            forall|i: int| 0 <= i < rev@.len() ==> (#[trigger] rev@[i]) == orig[orig.len() - 1 - i],
            out@.len() == obj_fields(orig.subrange(0, orig.len() - rev@.len())).len(),
            forall|i: int|
                0 <= i < out@.len() ==> (#[trigger] out@[i])@ == obj_fields(
                    orig.subrange(0, orig.len() - rev@.len()),
                )[i],
        decreases rev@.len(),
    {
        let ghost processed = orig.len() - rev@.len();
        let v = rev.pop().unwrap();
        proof {
            assert(v == orig[processed as int]);
            let pre = orig.subrange(0, processed as int);
            let post = orig.subrange(0, processed as int + 1);
            assert(post.drop_last() =~= pre);
            assert(post.last() == orig[processed as int]);
        }
        match v {
            JsonValue::Obj(f) => {
                out.push(f);
            },
            _ => {},
        }
    }
    proof {
        assert(orig.subrange(0, orig.len() as int) =~= orig);
    }
    out
}

} // verus!
