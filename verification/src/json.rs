//! JSON values as the pipeline reads them.

use vstd::prelude::*;
use crate::text::{char_pieces, chars_of, parse_usize, parse_usize_chars, split_at_char, string_from_chars};

verus! {

/// A JSON number: a non-negative integer, a negative integer, or a float
/// held as the bits of its IEEE-754 binary64 encoding.
#[derive(Debug, Clone, Copy)]
pub enum JsonNumber {
    PosInt(u64),
    NegInt(i64),
    Float(u64),
}

/// A JSON value. Object members keep their order and their keys are
/// distinct.
#[derive(Debug)]
pub enum JsonValue {
    Null,
    Bool(bool),
    Number(JsonNumber),
    String(String),
    Array(Vec<JsonValue>),
    Object(Vec<(String, JsonValue)>),
}

/// The abstract form of a JSON value.
pub enum JsonView {
    Null,
    Bool(bool),
    Number(JsonNumber),
    String(Seq<char>),
    Array(Seq<JsonView>),
    Object(Seq<(Seq<char>, JsonView)>),
}

/// The abstract form of a value.
pub open spec fn jview(v: JsonValue) -> JsonView
    decreases v,
{
    match v {
        JsonValue::Null => JsonView::Null,
        JsonValue::Bool(b) => JsonView::Bool(b),
        JsonValue::Number(n) => JsonView::Number(n),
        JsonValue::String(s) => JsonView::String(s@),
        JsonValue::Array(a) => JsonView::Array(
            Seq::new(a@.len(), |i: int| if 0 <= i < a@.len() { jview(a@[i]) } else { JsonView::Null }),
        ),
        JsonValue::Object(o) => JsonView::Object(
            Seq::new(o@.len(), |i: int| if 0 <= i < o@.len() { (o@[i].0@, jview(o@[i].1)) } else { (Seq::empty(), JsonView::Null) }),
        ),
    }
}

} // verus!

verus! {

/// IEEE-754 binary64 bits of positive or negative zero.
pub open spec fn is_zero_bits(b: u64) -> bool {
    b == 0 || b == 0x8000_0000_0000_0000u64
}

/// Equality of JSON numbers: same kind and value; floats compare as floats.
pub open spec fn num_eq(a: JsonNumber, b: JsonNumber) -> bool {
    match (a, b) {
        (JsonNumber::PosInt(x), JsonNumber::PosInt(y)) => x == y,
        (JsonNumber::NegInt(x), JsonNumber::NegInt(y)) => x == y,
        (JsonNumber::Float(x), JsonNumber::Float(y)) => x == y || (is_zero_bits(x) && is_zero_bits(y)),
        _ => false,
    }
}

/// The abstract form of an array's items.
pub open spec fn items_view(xs: Seq<JsonValue>) -> Seq<JsonView> {
    Seq::new(xs.len(), |i: int| if 0 <= i < xs.len() { jview(xs[i]) } else { JsonView::Null })
}

/// The abstract form of an object's members.
pub open spec fn members_view(xs: Seq<(String, JsonValue)>) -> Seq<(Seq<char>, JsonView)> {
    Seq::new(xs.len(), |i: int| if 0 <= i < xs.len() { (xs[i].0@, jview(xs[i].1)) } else { (Seq::empty(), JsonView::Null) })
}

pub proof fn lemma_jview_array(xs: Vec<JsonValue>)
    ensures
        jview(JsonValue::Array(xs)) == JsonView::Array(items_view(xs@)),
{
    assert(jview(JsonValue::Array(xs)) is Array);
    let s = jview(JsonValue::Array(xs))->Array_0;
    assert(s.len() == xs@.len());
    assert(forall|i: int| 0 <= i < s.len() ==> s[i] == jview(xs@[i]));
    assert(s =~= items_view(xs@));
}

pub proof fn lemma_jview_object(xs: Vec<(String, JsonValue)>)
    ensures
        jview(JsonValue::Object(xs)) == JsonView::Object(members_view(xs@)),
{
    assert(jview(JsonValue::Object(xs)) is Object);
    let s = jview(JsonValue::Object(xs))->Object_0;
    assert(s.len() == xs@.len());
    assert(forall|i: int| 0 <= i < s.len() ==> s[i] == (xs@[i].0@, jview(xs@[i].1)));
    assert(s =~= members_view(xs@));
}

/// Equality of JSON values (`serde_json::Value == Value`): objects are equal
/// when they have the same number of members and each member of the first
/// has an equal member under the same key in the second.
pub open spec fn jeq(a: JsonView, b: JsonView) -> bool
    decreases a, 0nat,
{
    match (a, b) {
        (JsonView::Null, JsonView::Null) => true,
        (JsonView::Bool(x), JsonView::Bool(y)) => x == y,
        (JsonView::Number(x), JsonView::Number(y)) => num_eq(x, y),
        (JsonView::String(x), JsonView::String(y)) => x == y,
        (JsonView::Array(xs), JsonView::Array(ys)) => xs.len() == ys.len() && arrays_eq(xs, ys),
        (JsonView::Object(xs), JsonView::Object(ys)) => xs.len() == ys.len() && members_found(xs, ys),
        _ => false,
    }
}

/// Pairwise equality of two sequences of values, over the length of the first.
pub open spec fn arrays_eq(xs: Seq<JsonView>, ys: Seq<JsonView>) -> bool
    decreases xs, 0nat,
{
    if xs.len() == 0 || ys.len() < xs.len() {
        xs.len() == 0
    } else {
        arrays_eq(xs.drop_last(), ys.take(xs.len() - 1)) && jeq(xs.last(), ys[xs.len() - 1])
    }
}

/// Each member of `xs` has an equal member under the same key in `ys`.
pub open spec fn members_found(xs: Seq<(Seq<char>, JsonView)>, ys: Seq<(Seq<char>, JsonView)>) -> bool
    decreases xs, 0nat,
{
    if xs.len() == 0 {
        true
    } else {
        members_found(xs.drop_last(), ys) && member_in(xs.last(), ys)
    }
}

/// Some member of `ys` has the key of `m` and a value equal to its value.
pub open spec fn member_in(m: (Seq<char>, JsonView), ys: Seq<(Seq<char>, JsonView)>) -> bool
    decreases m, ys.len(),
{
    if ys.len() == 0 {
        false
    } else {
        (ys.last().0 == m.0 && jeq(m.1, ys.last().1)) || member_in(m, ys.drop_last())
    }
}

fn number_equal(a: JsonNumber, b: JsonNumber) -> (r: bool)
    ensures
        r == num_eq(a, b),
{
    match (a, b) {
        (JsonNumber::PosInt(x), JsonNumber::PosInt(y)) => x == y,
        (JsonNumber::NegInt(x), JsonNumber::NegInt(y)) => x == y,
        (JsonNumber::Float(x), JsonNumber::Float(y)) => {
            x == y || ((x == 0 || x == 0x8000_0000_0000_0000u64) && (y == 0 || y == 0x8000_0000_0000_0000u64))
        },
        _ => false,
    }
}

/// Whether two values are equal as JSON.
pub fn json_equal(a: &JsonValue, b: &JsonValue) -> (r: bool)
    ensures
        r == jeq(jview(*a), jview(*b)),
    decreases *a, 0nat,
{
    match (a, b) {
        (JsonValue::Null, JsonValue::Null) => true,
        (JsonValue::Bool(x), JsonValue::Bool(y)) => *x == *y,
        (JsonValue::Number(x), JsonValue::Number(y)) => number_equal(*x, *y),
        (JsonValue::String(x), JsonValue::String(y)) => *x == *y,
        (JsonValue::Array(xs), JsonValue::Array(ys)) => {
            if xs.len() != ys.len() {
                return false;
            }
            proof {
                lemma_jview_array(*xs);
                lemma_jview_array(*ys);
            }
            let ghost xv = items_view(xs@);
            let ghost yv = items_view(ys@);
            let n = xs.len();
            let mut i: usize = 0;
            while i < n
                invariant
                    n == xs@.len(),
                    n == ys@.len(),
                    xv == items_view(xs@),
                    yv == items_view(ys@),
                    jview(*a) == JsonView::Array(xv),
                    jview(*b) == JsonView::Array(yv),
                    *a == JsonValue::Array(*xs),
                    *b == JsonValue::Array(*ys),
                    i <= n,
                    arrays_eq(xv.take(i as int), yv.take(i as int)),
                decreases n - i,
            {
                assert(xv.take(i + 1).drop_last() == xv.take(i as int));
                assert(yv.take(i + 1).take(i as int) == yv.take(i as int));
                proof {
                    assert(decreases_to!(*a => (*a)->Array_0));
                    assert(decreases_to!(*xs => xs@));
                    assert(decreases_to!(xs@ => xs@[i as int]));
                }
                if !json_equal(&xs[i], &ys[i]) {
                    assert(!arrays_eq(xv.take(i + 1), yv.take(i + 1)));
                    assert(!arrays_eq(xv, yv)) by {
                        if arrays_eq(xv, yv) {
                            lemma_arrays_eq_prefix(xv, yv, i + 1);
                        }
                    }
                    return false;
                }
                i = i + 1;
            }
            assert(xv.take(n as int) == xv);
            assert(yv.take(n as int) == yv);
            true
        },
        (JsonValue::Object(xs), JsonValue::Object(ys)) => {
            if xs.len() != ys.len() {
                return false;
            }
            proof {
                lemma_jview_object(*xs);
                lemma_jview_object(*ys);
            }
            let ghost xv = members_view(xs@);
            let ghost yv = members_view(ys@);
            let n = xs.len();
            let mut i: usize = 0;
            while i < n
                invariant
                    n == xs@.len(),
                    xv == members_view(xs@),
                    yv == members_view(ys@),
                    jview(*a) == JsonView::Object(xv),
                    jview(*b) == JsonView::Object(yv),
                    *a == JsonValue::Object(*xs),
                    *b == JsonValue::Object(*ys),
                    i <= n,
                    members_found(xv.take(i as int), yv),
                decreases n - i,
            {
                assert(xv.take(i + 1).drop_last() == xv.take(i as int));
                proof {
                    assert(decreases_to!(*a => (*a)->Object_0));
                    assert(decreases_to!(*xs => xs@));
                    assert(decreases_to!(xs@ => xs@[i as int]));
                }
                if !member_present(&xs[i], ys) {
                    assert(!members_found(xv.take(i + 1), yv));
                    assert(!members_found(xv, yv)) by {
                        if members_found(xv, yv) {
                            lemma_members_found_prefix(xv, yv, i + 1);
                        }
                    }
                    return false;
                }
                i = i + 1;
            }
            assert(xv.take(n as int) == xv);
            true
        },
        _ => false,
    }
}

fn member_present(m: &(String, JsonValue), ys: &Vec<(String, JsonValue)>) -> (r: bool)
    ensures
        r == member_in((m.0@, jview(m.1)), members_view(ys@)),
    decreases *m, 1nat,
{
    let ghost mv = (m.0@, jview(m.1));
    let ghost yv = members_view(ys@);
    let mut i: usize = ys.len();
    assert(yv.take(i as int) == yv);
    while i > 0
        invariant
            i <= ys@.len(),
            yv == members_view(ys@),
            mv == (m.0@, jview(m.1)),
            member_in(mv, yv) == member_in(mv, yv.take(i as int)),
        decreases i,
    {
        let ghost t = yv.take(i as int);
        assert(t.drop_last() == yv.take(i - 1));
        assert(t.last() == yv[i - 1]);
        if ys[i - 1].0 == m.0 && json_equal(&m.1, &ys[i - 1].1) {
            return true;
        }
        i = i - 1;
    }
    false
}

proof fn lemma_arrays_eq_prefix(xs: Seq<JsonView>, ys: Seq<JsonView>, k: int)
    requires
        xs.len() == ys.len(),
        0 <= k <= xs.len(),
        arrays_eq(xs, ys),
    ensures
        arrays_eq(xs.take(k), ys.take(k)),
    decreases xs.len() - k,
{
    if k < xs.len() {
        lemma_arrays_eq_prefix(xs, ys, k + 1);
        assert(xs.take(k + 1).drop_last() == xs.take(k));
        assert(ys.take(k + 1).take(k) == ys.take(k));
    } else {
        assert(xs.take(k) == xs);
        assert(ys.take(k) == ys);
    }
}

proof fn lemma_members_found_prefix(xs: Seq<(Seq<char>, JsonView)>, ys: Seq<(Seq<char>, JsonView)>, k: int)
    requires
        0 <= k <= xs.len(),
        members_found(xs, ys),
    ensures
        members_found(xs.take(k), ys),
    decreases xs.len() - k,
{
    if k < xs.len() {
        lemma_members_found_prefix(xs, ys, k + 1);
        assert(xs.take(k + 1).drop_last() == xs.take(k));
    } else {
        assert(xs.take(k) == xs);
    }
}

} // verus!

verus! {

/// A deep copy of a JSON value.
pub fn json_copy(a: &JsonValue) -> (r: JsonValue)
    ensures
        jview(r) == jview(*a),
    decreases *a,
{
    match a {
        JsonValue::Null => JsonValue::Null,
        JsonValue::Bool(b) => JsonValue::Bool(*b),
        JsonValue::Number(n) => JsonValue::Number(*n),
        JsonValue::String(s) => JsonValue::String(s.clone()),
        JsonValue::Array(xs) => {
            let mut out: Vec<JsonValue> = Vec::new();
            let mut i: usize = 0;
            while i < xs.len()
                invariant
                    *a == JsonValue::Array(*xs),
                    i <= xs@.len(),
                    out@.len() == i,
                    forall|j: int| 0 <= j < i ==> jview(#[trigger] out@[j]) == jview(xs@[j]),
                decreases xs@.len() - i,
            {
                proof {
                    assert(decreases_to!(*a => (*a)->Array_0));
                    assert(decreases_to!(*xs => xs@));
                    assert(decreases_to!(xs@ => xs@[i as int]));
                }
                let c = json_copy(&xs[i]);
                out.push(c);
                i = i + 1;
            }
            proof {
                lemma_jview_array(*xs);
                lemma_jview_array(out);
                assert(items_view(out@) =~= items_view(xs@));
            }
            JsonValue::Array(out)
        },
        JsonValue::Object(xs) => {
            let mut out: Vec<(String, JsonValue)> = Vec::new();
            let mut i: usize = 0;
            while i < xs.len()
                invariant
                    *a == JsonValue::Object(*xs),
                    i <= xs@.len(),
                    out@.len() == i,
                    forall|j: int| 0 <= j < i ==> (#[trigger] out@[j]).0@ == xs@[j].0@ && jview(out@[j].1) == jview(xs@[j].1),
                decreases xs@.len() - i,
            {
                proof {
                    assert(decreases_to!(*a => (*a)->Object_0));
                    assert(decreases_to!(*xs => xs@));
                    assert(decreases_to!(xs@ => xs@[i as int]));
                    assert(decreases_to!(xs@[i as int] => xs@[i as int].1));
                }
                let k = xs[i].0.clone();
                let c = json_copy(&xs[i].1);
                out.push((k, c));
                i = i + 1;
            }
            proof {
                lemma_jview_object(*xs);
                lemma_jview_object(out);
                assert(members_view(out@) =~= members_view(xs@));
            }
            JsonValue::Object(out)
        },
    }
}

impl Clone for JsonValue {
    fn clone(&self) -> (r: Self)
        ensures
            jview(r) == jview(*self),
    {
        json_copy(self)
    }
}

/// Whether a value is `null`.
pub open spec fn jis_null(v: JsonView) -> bool {
    v is Null
}

/// The value under `key` in a member list: the first member with that key.
pub open spec fn lookup(ms: Seq<(Seq<char>, JsonView)>, key: Seq<char>) -> Option<JsonView>
    decreases ms.len(),
{
    if ms.len() == 0 {
        None
    } else if ms[0].0 == key {
        Some(ms[0].1)
    } else {
        lookup(ms.drop_first(), key)
    }
}

/// Finds the member under `key`.
pub fn get_member<'a>(ms: &'a Vec<(String, JsonValue)>, key: &str) -> (r: Option<&'a JsonValue>)
    ensures
        match lookup(members_view(ms@), key@) {
            Some(v) => r is Some && jview(*r->0) == v,
            None => r is None,
        },
{
    let ghost mv = members_view(ms@);
    let k = key.to_owned();
    let mut i: usize = 0;
    assert(mv.skip(0) == mv);
    while i < ms.len()
        invariant
            i <= ms@.len(),
            mv == members_view(ms@),
            k@ == key@,
            lookup(mv, key@) == lookup(mv.skip(i as int), key@),
        decreases ms@.len() - i,
    {
        assert(mv.skip(i as int)[0] == mv[i as int]);
        assert(mv.skip(i as int).drop_first() == mv.skip(i + 1));
        if ms[i].0 == k {
            return Some(&ms[i].1);
        }
        i = i + 1;
    }
    None
}

} // verus!

verus! {

/// The member under `key` of a value that is an object (`Value::get`).
pub open spec fn jget(v: JsonView, key: Seq<char>) -> Option<JsonView> {
    match v {
        JsonView::Object(ms) => lookup(ms, key),
        _ => None,
    }
}

/// The member under `key` when the value is an object.
pub fn json_get<'a>(v: &'a JsonValue, key: &str) -> (r: Option<&'a JsonValue>)
    ensures
        match jget(jview(*v), key@) {
            Some(x) => r is Some && jview(*r->0) == x,
            None => r is None,
        },
{
    match v {
        JsonValue::Object(ms) => {
            proof {
                lemma_jview_object(*ms);
            }
            get_member(ms, key)
        },
        _ => None,
    }
}

/// An object value made of the given members.
pub fn object_of(ms: Vec<(String, JsonValue)>) -> (r: JsonValue)
    ensures
        jview(r) == JsonView::Object(members_view(ms@)),
        r == JsonValue::Object(ms),
{
    proof {
        lemma_jview_object(ms);
    }
    JsonValue::Object(ms)
}

} // verus!

verus! {

/// The value at a path below a value: each step is a key of an object or
/// a decimal index of an array.
pub open spec fn at_path(v: JsonView, parts: Seq<Seq<char>>) -> Option<JsonView>
    decreases parts.len(),
{
    if parts.len() == 0 {
        Some(v)
    } else {
        match v {
            JsonView::Object(ms) => match lookup(ms, parts[0]) {
                Some(x) => at_path(x, parts.drop_first()),
                None => None,
            },
            JsonView::Array(xs) => match parse_usize(parts[0]) {
                Some(i) => if i < xs.len() {
                    at_path(xs[i as int], parts.drop_first())
                } else {
                    None
                },
                None => None,
            },
            _ => None,
        }
    }
}

/// The value at a dotted path below a value (`a.b.0`): the path is split
/// at each `.`; each piece is a key of an object or an index of an array.
pub fn value_at_path<'a>(v: &'a JsonValue, path: &str) -> (r: Option<&'a JsonValue>)
    ensures
        match at_path(jview(*v), char_pieces(path@, '.')) {
            Some(x) => r matches Some(y) && jview(*y) == x,
            None => r is None,
        },
{
    let cs = chars_of(path);
    let parts = split_at_char(&cs, '.');
    let ghost ps = char_pieces(path@, '.');
    assert(parts@.len() == ps.len());
    let mut cur: &JsonValue = v;
    let mut i: usize = 0;
    assert(ps.skip(0) =~= ps);
    while i < parts.len()
        invariant
            cs@ == path@,
            ps == char_pieces(path@, '.'),
            parts@.len() == ps.len(),
            forall|j: int| 0 <= j < parts@.len() ==> #[trigger] parts@[j]@ == ps[j],
            i <= parts@.len(),
            at_path(jview(*v), ps) == at_path(jview(*cur), ps.skip(i as int)),
        decreases parts@.len() - i,
    {
        let ghost rest = ps.skip(i as int);
        assert(rest[0] == ps[i as int]);
        assert(rest.drop_first() =~= ps.skip(i + 1));
        assert(parts@[i as int]@ == ps[i as int]);
        match cur {
            JsonValue::Object(ms) => {
                proof {
                    lemma_jview_object(*ms);
                }
                let key = string_from_chars(parts[i].as_slice());
                match get_member(ms, key.as_str()) {
                    Some(x) => {
                        cur = x;
                    },
                    None => {
                        return None;
                    },
                }
            },
            JsonValue::Array(xs) => {
                proof {
                    lemma_jview_array(*xs);
                }
                match parse_usize_chars(&parts[i]) {
                    Some(j) => {
                        if j < xs.len() {
                            cur = &xs[j];
                        } else {
                            return None;
                        }
                    },
                    None => {
                        return None;
                    },
                }
            },
            _ => {
                return None;
            },
        }
        i = i + 1;
    }
    assert(ps.skip(i as int) =~= Seq::<Seq<char>>::empty());
    Some(cur)
}

} // verus!
