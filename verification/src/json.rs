//! The document model: a JSON tree held as plain values, with a
//! mathematical mirror used by every contract.
//!
//! A number is kept as the text of its literal, so the tree carries any JSON
//! number exactly and the model stays within the integers and characters.

use vstd::prelude::*;

verus! {

/// One decoded JSON value. An object is a sequence of key/value entries in
/// document order; a number holds the text of its literal.
#[derive(Debug, PartialEq)]
pub enum JsonValue {
    Null,
    Bool(bool),
    Num(String),
    Str(String),
    Arr(Vec<JsonValue>),
    Obj(Vec<(String, JsonValue)>),
}

/// The mathematical mirror of `JsonValue`: the same tree over `Seq<char>`
/// and `Seq`, which the contracts speak of.
#[verifier::ext_equal]
pub enum JsonRep {
    Null,
    Bool(bool),
    Num(Seq<char>),
    Str(Seq<char>),
    Arr(Seq<JsonRep>),
    Obj(Seq<(Seq<char>, JsonRep)>),
}

impl JsonValue {
    /// The mirror of this value.
    pub open spec fn rep(self) -> JsonRep
        decreases self, 0int,
    {
        match self {
            JsonValue::Null => JsonRep::Null,
            JsonValue::Bool(b) => JsonRep::Bool(b),
            JsonValue::Num(s) => JsonRep::Num(s@),
            JsonValue::Str(s) => JsonRep::Str(s@),
            JsonValue::Arr(a) => JsonRep::Arr(rep_seq_from(a@, 0)),
            JsonValue::Obj(o) => JsonRep::Obj(rep_entries_from(o@, 0)),
        }
    }
}

/// The mirrors of the elements of `s` from position `i` on.
pub open spec fn rep_seq_from(s: Seq<JsonValue>, i: int) -> Seq<JsonRep>
    decreases s, s.len() - i,
{
    if i < 0 || i >= s.len() {
        Seq::empty()
    } else {
        seq![s[i].rep()] + rep_seq_from(s, i + 1)
    }
}

/// The mirrors of the entries of `s` from position `i` on.
pub open spec fn rep_entries_from(s: Seq<(String, JsonValue)>, i: int) -> Seq<(Seq<char>, JsonRep)>
    decreases s, s.len() - i,
{
    if i < 0 || i >= s.len() {
        Seq::empty()
    } else {
        seq![(s[i].0@, s[i].1.rep())] + rep_entries_from(s, i + 1)
    }
}

/// The mirror of an object's entry list.
pub open spec fn entries_rep(entries: Seq<(String, JsonValue)>) -> Seq<(Seq<char>, JsonRep)> {
    rep_entries_from(entries, 0)
}

/// The entry of `es` at the first position at or after `i` whose key is
/// `key`, if any.
pub open spec fn obj_get_from(
    es: Seq<(Seq<char>, JsonRep)>,
    key: Seq<char>,
    i: int,
) -> Option<JsonRep>
    decreases es.len() - i,
{
    if i < 0 || i >= es.len() {
        None
    } else if es[i].0 == key {
        Some(es[i].1)
    } else {
        obj_get_from(es, key, i + 1)
    }
}

/// The value of the first entry of `es` whose key is `key`, if any.
pub open spec fn obj_get(es: Seq<(Seq<char>, JsonRep)>, key: Seq<char>) -> Option<JsonRep> {
    obj_get_from(es, key, 0)
}

impl JsonRep {
    /// Navigate one object member: `Some` only on an object that has the key.
    pub open spec fn get(self, key: Seq<char>) -> Option<JsonRep> {
        match self {
            JsonRep::Obj(es) => obj_get(es, key),
            _ => None,
        }
    }

    /// Navigate one array element: `Some` only on an array long enough.
    pub open spec fn at(self, i: int) -> Option<JsonRep> {
        match self {
            JsonRep::Arr(s) => if 0 <= i < s.len() {
                Some(s[i])
            } else {
                None
            },
            _ => None,
        }
    }
}

/// `rep_seq_from(s, i)` mirrors the elements `s[i..]` one for one.
pub proof fn lemma_rep_seq_from(s: Seq<JsonValue>, i: int)
    requires
        0 <= i <= s.len(),
    ensures
        rep_seq_from(s, i).len() == s.len() - i,
        forall|j: int| 0 <= j < s.len() - i ==> rep_seq_from(s, i)[j] == s[i + j].rep(),
    decreases s.len() - i,
{
    if i < s.len() {
        lemma_rep_seq_from(s, i + 1);
    }
}

/// `rep_entries_from(s, i)` mirrors the entries `s[i..]` one for one.
pub proof fn lemma_rep_entries_from(s: Seq<(String, JsonValue)>, i: int)
    requires
        0 <= i <= s.len(),
    ensures
        rep_entries_from(s, i).len() == s.len() - i,
        forall|j: int| 0 <= j < s.len() - i ==> rep_entries_from(s, i)[j]
            == (s[i + j].0@, s[i + j].1.rep()),
    decreases s.len() - i,
{
    if i < s.len() {
        lemma_rep_entries_from(s, i + 1);
    }
}

/// The entry at the first position at or after `i` of `entries` whose key is
/// `key`, if any.
fn find_from<'a>(entries: &'a Vec<(String, JsonValue)>, key: &String, i: usize) -> (r: Option<
    &'a JsonValue,
>)
    requires
        i <= entries.len(),
    ensures
        match r {
            Some(v) => obj_get_from(entries_rep(entries@), key@, i as int) == Some(v.rep()),
            None => obj_get_from(entries_rep(entries@), key@, i as int) is None,
        },
    decreases entries.len() - i,
{
    proof {
        lemma_rep_entries_from(entries@, 0);
    }
    if i == entries.len() {
        None
    } else if entries[i].0 == *key {
        Some(&entries[i].1)
    } else {
        find_from(entries, key, i + 1)
    }
}

/// The value under `key` in an entry list, if any: the first entry wins.
pub fn lookup_key<'a>(entries: &'a Vec<(String, JsonValue)>, key: &str) -> (r: Option<
    &'a JsonValue,
>)
    ensures
        match r {
            Some(v) => obj_get(entries_rep(entries@), key@) == Some(v.rep()),
            None => obj_get(entries_rep(entries@), key@) is None,
        },
{
    let k = String::from_str(key);
    find_from(entries, &k, 0)
}

/// Navigate one object member of `v`: the member of the given key, if `v` is
/// an object that has one.
pub fn get_member<'a>(v: &'a JsonValue, key: &str) -> (r: Option<&'a JsonValue>)
    ensures
        match r {
            Some(w) => v.rep().get(key@) == Some(w.rep()),
            None => v.rep().get(key@) is None,
        },
{
    match v {
        JsonValue::Obj(entries) => {
            let k = String::from_str(key);
            find_from(entries, &k, 0)
        },
        _ => None,
    }
}

/// Navigate one array element of `v`: the element at `i`, if `v` is an array
/// with more than `i` elements.
pub fn get_item<'a>(v: &'a JsonValue, i: usize) -> (r: Option<&'a JsonValue>)
    ensures
        match r {
            Some(w) => v.rep().at(i as int) == Some(w.rep()),
            None => v.rep().at(i as int) is None,
        },
{
    match v {
        JsonValue::Arr(a) => {
            proof {
                lemma_rep_seq_from(a@, 0);
            }
            if i < a.len() {
                Some(&a[i])
            } else {
                None
            }
        },
        _ => None,
    }
}

/// Append copies of the elements `a[i..]` to `out`.
fn clone_seq_into(a: &Vec<JsonValue>, i: usize, out: &mut Vec<JsonValue>)
    requires
        i <= a.len(),
    ensures
        final(out)@.len() == old(out)@.len() + a@.len() - i,
        forall|j: int| 0 <= j < old(out)@.len() ==> final(out)@[j] == old(out)@[j],
        forall|j: int|
            old(out)@.len() <= j < final(out)@.len() ==> final(out)@[j].rep() == a@[i + j - old(out)@.len()].rep(),
    decreases a@, a.len() - i,
{
    if i < a.len() {
        let c = a[i].deep_clone();
        out.push(c);
        clone_seq_into(a, i + 1, out);
    }
}

/// Append copies of the entries `o[i..]` to `out`.
fn clone_entries_into(o: &Vec<(String, JsonValue)>, i: usize, out: &mut Vec<(String, JsonValue)>)
    requires
        i <= o.len(),
    ensures
        final(out)@.len() == old(out)@.len() + o@.len() - i,
        forall|j: int| 0 <= j < old(out)@.len() ==> final(out)@[j] == old(out)@[j],
        forall|j: int|
            old(out)@.len() <= j < final(out)@.len() ==> final(out)@[j].0@ == o@[i + j - old(out)@.len()].0@
                && final(out)@[j].1.rep() == o@[i + j - old(out)@.len()].1.rep(),
    decreases o@, o.len() - i,
{
    if i < o.len() {
        let k = o[i].0.clone();
        let v = o[i].1.deep_clone();
        out.push((k, v));
        clone_entries_into(o, i + 1, out);
    }
}

impl JsonValue {
    /// A copy of this value: the same tree, newly allocated.
    pub fn deep_clone(&self) -> (r: JsonValue)
        ensures
            r.rep() == self.rep(),
        decreases *self, 0int,
    {
        match self {
            JsonValue::Null => JsonValue::Null,
            JsonValue::Bool(b) => JsonValue::Bool(*b),
            JsonValue::Num(s) => JsonValue::Num(s.clone()),
            JsonValue::Str(s) => JsonValue::Str(s.clone()),
            JsonValue::Arr(a) => {
                let mut out: Vec<JsonValue> = Vec::new();
                clone_seq_into(a, 0, &mut out);
                proof {
                    lemma_rep_seq_from(a@, 0);
                    lemma_rep_seq_from(out@, 0);
                    assert(rep_seq_from(out@, 0) =~= rep_seq_from(a@, 0));
                }
                JsonValue::Arr(out)
            },
            JsonValue::Obj(o) => {
                let mut out: Vec<(String, JsonValue)> = Vec::new();
                clone_entries_into(o, 0, &mut out);
                proof {
                    lemma_rep_entries_from(o@, 0);
                    lemma_rep_entries_from(out@, 0);
                    assert(rep_entries_from(out@, 0) =~= rep_entries_from(o@, 0));
                }
                JsonValue::Obj(out)
            },
        }
    }
}

} // verus!
