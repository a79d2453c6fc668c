//! Transforming rows: per-table renames, type conversions, extractions and
//! computed fields, then transformations of every changed row.
//!
//! Some results are texts that `serde_json` writes, or numbers that
//! `str::parse::<f64>` reads, for values of the row; the caller works them
//! out for each field of the row and hands them in as `MemberText`s.

use vstd::prelude::*;
use crate::clock::now_rfc3339;
use crate::config::pipeline::{FieldTransform, Transform, TransformConfig};
use crate::error::MeiliBridgeError;
use crate::json::{at_path, json_copy, jview, lemma_jview_array, lemma_jview_object, members_view, value_at_path, JsonNumber, JsonValue, JsonView};
use crate::keyed::{map_of, unique_keys, KeyedMap};
use crate::models::stream_event::Event;
use crate::pipeline::mapper::views_of;
use crate::text::{
    char_pieces, chars_of, concat3, find_key, lowercase, lookup_key, split_at_char, string_from_chars, to_lowercase,
    to_uppercase, trim_text, trimmed, uppercase,
};

verus! {

/// What `str::parse::<f64>` made of a field's text.
#[derive(Debug, Clone, Copy, PartialEq, Eq, Structural)]
pub enum NumberParse {
    /// The field is not a string.
    NotText,
    /// A finite number (binary64 bits).
    Parsed(u64),
    /// Not a number.
    Invalid,
    /// NaN or an infinity.
    NotFinite,
}

/// What the caller worked out for a field of the row.
#[derive(Debug)]
pub struct MemberText {
    /// The value as `serde_json` writes it.
    pub json: String,
    /// The value read as a float, when it is a string.
    pub number: NumberParse,
}

/// The JSON text and number reading of a field (empty and `NotText` when
/// the caller gave none).
pub open spec fn text_for(ts: Seq<(String, MemberText)>, k: Seq<char>) -> (Seq<char>, NumberParse) {
    match lookup_key(ts, k) {
        Some(t) => (t.json@, t.number),
        None => (seq![], NumberParse::NotText),
    }
}

/// The fields of a row as a map; a later field of the same name wins.
pub open spec fn members_map(ms: Seq<(Seq<char>, JsonView)>) -> Map<Seq<char>, JsonView>
    decreases ms.len(),
{
    if ms.len() == 0 {
        Map::empty()
    } else {
        members_map(ms.drop_last()).insert(ms.last().0, ms.last().1)
    }
}

/// Whether a number reads as a non-zero `i64` (`as_i64().unwrap_or(0) != 0`).
pub open spec fn nonzero_i64(n: JsonNumber) -> bool {
    match n {
        JsonNumber::PosInt(u) => u != 0 && u <= i64::MAX,
        JsonNumber::NegInt(i) => i != 0,
        JsonNumber::Float(_) => false,
    }
}

/// A value converted to a type: `string` gives a string's own text or the
/// JSON text of anything else; `number` keeps a number and reads a string
/// as a float; `boolean` keeps a boolean, reads `true` in any case or `1`
/// from a string, and a non-zero integer from a number; `array` keeps an
/// array and wraps anything else.
pub open spec fn convert_spec(v: JsonView, to_type: Seq<char>, json: Seq<char>, number: NumberParse) -> Result<
    JsonView,
    Seq<char>,
> {
    if to_type == "string"@ {
        Ok(
            JsonView::String(
                match v {
                    JsonView::String(s) => s,
                    _ => json,
                },
            ),
        )
    } else if to_type == "number"@ {
        match v {
            JsonView::Number(n) => Ok(JsonView::Number(n)),
            JsonView::String(s) => match number {
                NumberParse::Parsed(b) => Ok(JsonView::Number(JsonNumber::Float(b))),
                _ => Err("Cannot convert '"@ + s + "' to number"@),
            },
            _ => Err("Cannot convert value to number"@),
        }
    } else if to_type == "boolean"@ {
        Ok(
            JsonView::Bool(
                match v {
                    JsonView::Bool(b) => b,
                    JsonView::String(s) => lowercase(s) == "true"@ || s == "1"@,
                    JsonView::Number(n) => nonzero_i64(n),
                    _ => false,
                },
            ),
        )
    } else if to_type == "array"@ {
        Ok(
            match v {
                JsonView::Array(a) => JsonView::Array(a),
                other => JsonView::Array(seq![other]),
            },
        )
    } else {
        Err("Unknown type conversion: "@ + to_type)
    }
}

/// The text a field adds to a computed `concat`: a string's own text, the
/// JSON text of another value, nothing for a missing field.
pub open spec fn concat_piece(data: Map<Seq<char>, JsonView>, ts: Seq<(String, MemberText)>, f: Seq<char>) -> Seq<char> {
    if data.contains_key(f) {
        match data[f] {
            JsonView::String(s) => s,
            _ => text_for(ts, f).0,
        }
    } else {
        seq![]
    }
}

/// The texts of the fields named, joined.
pub open spec fn concat_all(data: Map<Seq<char>, JsonView>, ts: Seq<(String, MemberText)>, fs: Seq<Seq<char>>) -> Seq<char>
    decreases fs.len(),
{
    if fs.len() == 0 {
        seq![]
    } else {
        concat_all(data, ts, fs.drop_last()) + concat_piece(data, ts, trimmed(fs.last()))
    }
}

/// A computed field: `concat(a, b, ...)` joins the texts of the fields
/// named (split at commas, trimmed); other expressions give nothing.
pub open spec fn compute_spec(expr: Seq<char>, data: Map<Seq<char>, JsonView>, ts: Seq<(String, MemberText)>) -> Option<JsonView> {
    if expr.len() >= 8 && expr.take(7) == "concat("@ && expr.last() == ')' {
        Some(JsonView::String(concat_all(data, ts, char_pieces(expr.subrange(7, expr.len() - 1), ','))))
    } else {
        None
    }
}

/// The row while its field transformations run: the fields not yet moved,
/// the fields made, and the error that stopped them, if any.
pub struct FieldsState {
    pub data: Map<Seq<char>, JsonView>,
    pub res: Map<Seq<char>, JsonView>,
    pub error: Option<Seq<char>>,
}

/// What one field transformation does: a rename moves a field; a
/// conversion sets the converted field (or stops with its error); an
/// extraction sets the value found along a path; a computation sets what
/// the expression gives.
pub open spec fn field_step(st: FieldsState, t: FieldTransform, ts: Seq<(String, MemberText)>) -> FieldsState {
    if st.error is Some {
        st
    } else {
        match t {
            FieldTransform::Rename { from, to } => if st.data.contains_key(from@) {
                FieldsState { data: st.data.remove(from@), res: st.res.insert(to@, st.data[from@]), error: None }
            } else {
                st
            },
            FieldTransform::Convert { field, to_type } => if st.data.contains_key(field@) {
                match convert_spec(st.data[field@], to_type@, text_for(ts, field@).0, text_for(ts, field@).1) {
                    Ok(v) => FieldsState { res: st.res.insert(field@, v), ..st },
                    Err(m) => FieldsState { error: Some(m), ..st },
                }
            } else {
                st
            },
            FieldTransform::Extract { from, path, to } => if st.data.contains_key(from@) {
                match at_path(st.data[from@], char_pieces(path@, '.')) {
                    Some(x) => FieldsState { res: st.res.insert(to@, x), ..st },
                    None => st,
                }
            } else {
                st
            },
            FieldTransform::Compute { expression, to } => match compute_spec(expression@, st.data, ts) {
                Some(v) => FieldsState { res: st.res.insert(to@, v), ..st },
                None => st,
            },
        }
    }
}

/// The state after the first `n` field transformations.
pub open spec fn field_steps(
    data: Map<Seq<char>, JsonView>,
    fts: Seq<(String, FieldTransform)>,
    ts: Seq<(String, MemberText)>,
    n: nat,
) -> FieldsState
    decreases n,
{
    if n == 0 {
        FieldsState { data, res: Map::empty(), error: None }
    } else {
        field_step(field_steps(data, fts, ts, (n - 1) as nat), fts[n - 1].1, ts)
    }
}

/// The row after its field transformations: the fields made, then the
/// fields left that were not made; or the error that stopped them.
pub open spec fn transformed_fields(
    data: Seq<(Seq<char>, JsonView)>,
    fts: Seq<(String, FieldTransform)>,
    ts: Seq<(String, MemberText)>,
) -> Result<Map<Seq<char>, JsonView>, Seq<char>> {
    let st = field_steps(members_map(data), fts, ts, fts.len());
    match st.error {
        Some(m) => Err(m),
        None => Ok(st.data.union_prefer_right(st.res)),
    }
}

/// The row with the named string fields mapped by `f`, in order.
pub open spec fn recase(m: Map<Seq<char>, JsonView>, fields: Seq<Seq<char>>, upper: bool) -> Map<Seq<char>, JsonView>
    decreases fields.len(),
{
    if fields.len() == 0 {
        m
    } else {
        let prev = recase(m, fields.drop_last(), upper);
        let f = fields.last();
        if prev.contains_key(f) && prev[f] is String {
            prev.insert(
                f,
                JsonView::String(
                    if upper {
                        uppercase(prev[f]->String_0)
                    } else {
                        lowercase(prev[f]->String_0)
                    },
                ),
            )
        } else {
            prev
        }
    }
}

/// What a row transformation does: add, remove or stamp a field (with the
/// time `now`), or change the case of string fields.
pub open spec fn global_step(m: Map<Seq<char>, JsonView>, t: Transform, now: Seq<char>) -> Map<Seq<char>, JsonView> {
    match t {
        Transform::AddField { name, value } => m.insert(name@, jview(value)),
        Transform::RemoveField { name } => m.remove(name@),
        Transform::AddTimestamp { field } => m.insert(field@, JsonView::String(now)),
        Transform::Lowercase { fields } => recase(m, fields@.map_values(|f: String| f@), false),
        Transform::Uppercase { fields } => recase(m, fields@.map_values(|f: String| f@), true),
    }
}

/// The row after the first `n` row transformations.
pub open spec fn global_steps(m: Map<Seq<char>, JsonView>, gs: Seq<Transform>, now: Seq<char>, n: nat) -> Map<
    Seq<char>,
    JsonView,
>
    decreases n,
{
    if n == 0 {
        m
    } else {
        global_step(global_steps(m, gs, now, (n - 1) as nat), gs[n - 1], now)
    }
}

/// The field transformations of a table, if it has any.
pub open spec fn table_transforms(c: TransformConfig, table: Seq<char>) -> Option<Vec<(String, FieldTransform)>> {
    lookup_key(c.fields@, table)
}

/// Whether no conversion to a number in the table's transformations meets
/// a field whose text reads as NaN or an infinity (on which the
/// conversion cannot make a JSON number).
pub open spec fn finite_conversions(c: TransformConfig, table: Seq<char>, ts: Seq<(String, MemberText)>) -> bool {
    match table_transforms(c, table) {
        Some(fts) => forall|i: int|
            0 <= i < fts@.len() ==> match #[trigger] fts@[i].1 {
                FieldTransform::Convert { field, to_type } => to_type@ == "number"@ ==> text_for(ts, field@).1
                    != NumberParse::NotFinite,
                _ => true,
            },
        None => true,
    }
}

/// The fields of a row in a map, a later one winning.
fn to_map(ms: &Vec<(String, JsonValue)>) -> (r: KeyedMap<JsonValue>)
    ensures
        r.wf(),
        views_of(r@) == members_map(members_view(ms@)),
{
    let mut r: KeyedMap<JsonValue> = KeyedMap::new();
    let mut i: usize = 0;
    assert(members_view(ms@).take(0) =~= Seq::<(Seq<char>, JsonView)>::empty());
    assert(views_of(r@) =~= Map::<Seq<char>, JsonView>::empty());
    while i < ms.len()
        invariant
            i <= ms@.len(),
            r.wf(),
            views_of(r@) == members_map(members_view(ms@).take(i as int)),
        decreases ms@.len() - i,
    {
        let ghost t = members_view(ms@).take(i + 1);
        assert(t.drop_last() =~= members_view(ms@).take(i as int));
        assert(t.last() == (ms@[i as int].0@, jview(ms@[i as int].1)));
        let ghost before = r@;
        r.insert(ms[i].0.clone(), json_copy(&ms[i].1));
        assert(views_of(r@) =~= views_of(before).insert(ms@[i as int].0@, jview(ms@[i as int].1)));
        i = i + 1;
    }
    assert(members_view(ms@).take(ms@.len() as int) =~= members_view(ms@));
    r
}

fn pipeline_error(m: String) -> (r: MeiliBridgeError)
    ensures
        r == MeiliBridgeError::Pipeline(m),
{
    MeiliBridgeError::Pipeline(m)
}

/// Converts a value to a type (see `convert_spec`).
fn convert_value(v: &JsonValue, to_type: &String, json: &String, number: NumberParse) -> (r: Result<JsonValue, MeiliBridgeError>)
    requires
        !(to_type@ == "number"@ && v is String && number == NumberParse::NotFinite),
    ensures
        match convert_spec(jview(*v), to_type@, json@, number) {
            Ok(x) => r matches Ok(y) && jview(y) == x,
            Err(m) => r matches Err(MeiliBridgeError::Pipeline(t)) && t@ == m,
        },
{
    proof {
        reveal_strlit("string");
        reveal_strlit("number");
        reveal_strlit("boolean");
        reveal_strlit("array");
        reveal_strlit("true");
        reveal_strlit("1");
    }
    if *to_type == "string".to_owned() {
        match v {
            JsonValue::String(s) => Ok(JsonValue::String(s.clone())),
            _ => Ok(JsonValue::String(json.clone())),
        }
    } else if *to_type == "number".to_owned() {
        match v {
            JsonValue::Number(n) => Ok(JsonValue::Number(*n)),
            JsonValue::String(s) => match number {
                NumberParse::Parsed(b) => Ok(JsonValue::Number(JsonNumber::Float(b))),
                _ => Err(pipeline_error(concat3("Cannot convert '", s.as_str(), "' to number"))),
            },
            _ => Err(pipeline_error("Cannot convert value to number".to_owned())),
        }
    } else if *to_type == "boolean".to_owned() {
        let b = match v {
            JsonValue::Bool(b) => *b,
            JsonValue::String(s) => {
                let low = to_lowercase(s.as_str());
                low == "true".to_owned() || *s == "1".to_owned()
            },
            JsonValue::Number(n) => match n {
                JsonNumber::PosInt(u) => *u != 0 && *u <= 9223372036854775807u64,
                JsonNumber::NegInt(i) => *i != 0,
                JsonNumber::Float(_) => false,
            },
            _ => false,
        };
        Ok(JsonValue::Bool(b))
    } else if *to_type == "array".to_owned() {
        match v {
            JsonValue::Array(a) => {
                let c = json_copy(v);
                Ok(c)
            },
            _ => {
                let mut items: Vec<JsonValue> = Vec::new();
                items.push(json_copy(v));
                proof {
                    lemma_jview_array(items);
                    assert(crate::json::items_view(items@) =~= seq![jview(*v)]);
                }
                Ok(JsonValue::Array(items))
            },
        }
    } else {
        Err(pipeline_error(crate::text::concat2("Unknown type conversion: ", to_type.as_str())))
    }
}

/// The JSON text and number reading the caller gave for a field.
fn member_text(ts: &Vec<(String, MemberText)>, k: &String) -> (r: (String, NumberParse))
    ensures
        r.0@ == text_for(ts@, k@).0,
        r.1 == text_for(ts@, k@).1,
{
    match find_key(ts, k) {
        Some(i) => (ts[i].1.json.clone(), ts[i].1.number),
        None => (String::new(), NumberParse::NotText),
    }
}

/// Whether the first characters of `s` are those of `p`.
fn starts_with_chars(s: &Vec<char>, p: &str) -> (r: bool)
    ensures
        r == (s@.len() >= p@.len() && s@.take(p@.len() as int) == p@),
{
    let pc = chars_of(p);
    if s.len() < pc.len() {
        return false;
    }
    let mut i: usize = 0;
    while i < pc.len()
        invariant
            pc@ == p@,
            pc@.len() <= s@.len(),
            i <= pc@.len(),
            forall|j: int| 0 <= j < i ==> s@[j] == pc@[j],
        decreases pc@.len() - i,
    {
        if s[i] != pc[i] {
            assert(s@.take(p@.len() as int)[i as int] != p@[i as int]);
            return false;
        }
        i = i + 1;
    }
    assert(s@.take(p@.len() as int) =~= p@);
    true
}

/// Evaluates a computed field (see `compute_spec`).
fn compute_value(expr: &String, data: &KeyedMap<JsonValue>, ts: &Vec<(String, MemberText)>) -> (r: Option<JsonValue>)
    requires
        data.wf(),
    ensures
        match compute_spec(expr@, views_of(data@), ts@) {
            Some(v) => r matches Some(x) && jview(x) == v,
            None => r is None,
        },
{
    let cs = chars_of(expr.as_str());
    proof {
        reveal_strlit("concat(");
    }
    if !(cs.len() >= 8 && starts_with_chars(&cs, "concat(") && cs[cs.len() - 1] == ')') {
        return None;
    }
    let mut inner: Vec<char> = Vec::new();
    let mut i: usize = 7;
    while i < cs.len() - 1
        invariant
            cs@ == expr@,
            cs@.len() >= 8,
            7 <= i <= cs@.len() - 1,
            inner@ == cs@.subrange(7, i as int),
        decreases cs@.len() - 1 - i,
    {
        inner.push(cs[i]);
        assert(cs@.subrange(7, i + 1) =~= cs@.subrange(7, i as int).push(cs@[i as int]));
        i = i + 1;
    }
    let pieces = split_at_char(&inner, ',');
    let ghost fs = char_pieces(cs@.subrange(7, cs@.len() - 1), ',');
    let ghost dm = views_of(data@);
    let mut out = String::new();
    let mut k: usize = 0;
    assert(fs.take(0) =~= Seq::<Seq<char>>::empty());
    while k < pieces.len()
        invariant
            pieces@.len() == fs.len(),
            forall|j: int| 0 <= j < pieces@.len() ==> #[trigger] pieces@[j]@ == fs[j],
            dm == views_of(data@),
            data.wf(),
            k <= pieces@.len(),
            out@ == concat_all(dm, ts@, fs.take(k as int)),
        decreases pieces@.len() - k,
    {
        let ghost t = fs.take(k + 1);
        assert(t.drop_last() =~= fs.take(k as int));
        assert(t.last() == fs[k as int]);
        let f = string_from_chars(trim_text(pieces[k].as_slice()).as_slice());
        assert(f@ == trimmed(fs[k as int]));
        let ghost before = out@;
        match data.get(&f) {
            Some(v) => {
                match v {
                    JsonValue::String(s) => {
                        crate::text::append_str(&mut out, s.as_str());
                    },
                    _ => {
                        let (json, _) = member_text(ts, &f);
                        crate::text::append_str(&mut out, json.as_str());
                    },
                }
            },
            None => {},
        }
        assert(out@ == before + concat_piece(dm, ts@, trimmed(fs[k as int])));
        k = k + 1;
    }
    assert(fs.take(pieces@.len() as int) =~= fs);
    Some(JsonValue::String(out))
}

/// The field transformation does not convert to a number a string whose
/// text reads as NaN or an infinity.
pub open spec fn finite_step(t: FieldTransform, ts: Seq<(String, MemberText)>) -> bool {
    match t {
        FieldTransform::Convert { field, to_type } => to_type@ == "number"@ ==> text_for(ts, field@).1
            != NumberParse::NotFinite,
        _ => true,
    }
}

/// Applies one field transformation (see `field_step`).
fn apply_field_transform(
    t: &FieldTransform,
    data: &mut KeyedMap<JsonValue>,
    res: &mut KeyedMap<JsonValue>,
    ts: &Vec<(String, MemberText)>,
) -> (r: Result<(), MeiliBridgeError>)
    requires
        old(data).wf(),
        old(res).wf(),
        finite_step(*t, ts@),
    ensures
        final(data).wf(),
        final(res).wf(),
        ({
            let st = field_step(
                FieldsState { data: views_of(old(data)@), res: views_of(old(res)@), error: None },
                *t,
                ts@,
            );
            match st.error {
                Some(m) => r matches Err(MeiliBridgeError::Pipeline(x)) && x@ == m,
                None => r is Ok && views_of(final(data)@) == st.data && views_of(final(res)@) == st.res,
            }
        }),
{
    match t {
        FieldTransform::Rename { from, to } => {
            match data.take(from) {
                Some(v) => {
                    let ghost vv = v;
                    let ghost r0 = res@;
                    res.insert(to.clone(), v);
                    assert(views_of(data@) =~= views_of(old(data)@).remove(from@));
                    assert(views_of(res@) =~= views_of(r0).insert(to@, jview(vv)));
                },
                None => {
                    assert(views_of(data@) =~= views_of(old(data)@));
                },
            }
            Ok(())
        },
        FieldTransform::Convert { field, to_type } => {
            match data.get(field) {
                Some(v) => {
                    let (json, number) = member_text(ts, field);
                    proof {
                        reveal_strlit("number");
                    }
                    match convert_value(v, to_type, &json, number) {
                        Ok(x) => {
                            let ghost xv = x;
                            res.insert(field.clone(), x);
                            assert(views_of(res@) =~= views_of(old(res)@).insert(field@, jview(xv)));
                            Ok(())
                        },
                        Err(e) => Err(e),
                    }
                },
                None => Ok(()),
            }
        },
        FieldTransform::Extract { from, path, to } => {
            match data.get(from) {
                Some(v) => {
                    match value_at_path(v, path.as_str()) {
                        Some(x) => {
                            let c = json_copy(x);
                            let ghost cv = c;
                            res.insert(to.clone(), c);
                            assert(views_of(res@) =~= views_of(old(res)@).insert(to@, jview(cv)));
                        },
                        None => {},
                    }
                },
                None => {},
            }
            Ok(())
        },
        FieldTransform::Compute { expression, to } => {
            match compute_value(expression, data, ts) {
                Some(v) => {
                    let ghost vv = v;
                    res.insert(to.clone(), v);
                    assert(views_of(res@) =~= views_of(old(res)@).insert(to@, jview(vv)));
                },
                None => {},
            }
            Ok(())
        },
    }
}

/// Adds the fields of `extra` over those of `row` (those of `extra` win).
fn merge_over(row: &mut KeyedMap<JsonValue>, extra: KeyedMap<JsonValue>)
    requires
        old(row).wf(),
        extra.wf(),
    ensures
        final(row).wf(),
        views_of(final(row)@) == views_of(old(row)@).union_prefer_right(views_of(extra@)),
{
    proof {
        extra.lemma_entries();
    }
    let ghost e0 = extra.entry_list();
    let ghost x0 = extra@;
    let mut rest = extra.into_entries();
    let mut i: usize = 0;
    assert(e0.take(0) =~= Seq::<(String, JsonValue)>::empty());
    assert(views_of(map_of(e0.take(0))) =~= Map::<Seq<char>, JsonView>::empty());
    assert(views_of(row@) =~= views_of(old(row)@).union_prefer_right(views_of(map_of(e0.take(0)))));
    let n0 = rest.len();
    assert(e0.len() == n0);
    while rest.len() > 0
        invariant
            e0.len() <= usize::MAX,
            unique_keys(e0),
            map_of(e0) == x0,
            i <= e0.len(),
            rest@ == e0.skip(i as int),
            row.wf(),
            views_of(row@) == views_of(old(row)@).union_prefer_right(views_of(map_of(e0.take(i as int)))),
        decreases rest@.len(),
    {
        let (k, v) = rest.remove(0);
        proof {
            assert(e0[i as int] == (k, v));
            assert(e0.take(i + 1) =~= e0.take(i as int).push((k, v)));
            assert(unique_keys(e0.take(i + 1))) by {
                assert forall|a: int, b: int|
                    0 <= a < e0.take(i + 1).len() && 0 <= b < e0.take(i + 1).len() && a != b implies #[trigger] e0.take(
                    i + 1,
                )[a].0@ != #[trigger] e0.take(i + 1)[b].0@ by {
                    assert(e0.take(i + 1)[a] == e0[a]);
                    assert(e0.take(i + 1)[b] == e0[b]);
                }
            }
            crate::keyed::lemma_map_of_push(e0.take(i as int), (k, v));
            assert(rest@ =~= e0.skip(i + 1));
        }
        let ghost before = row@;
        let ghost kv = k@;
        let ghost vv = v;
        row.insert(k, v);
        proof {
            assert(views_of(map_of(e0.take(i + 1))) =~= views_of(map_of(e0.take(i as int))).insert(kv, jview(vv)));
            assert(views_of(row@) =~= views_of(before).insert(kv, jview(vv)));
            assert(views_of(row@) =~= views_of(old(row)@).union_prefer_right(views_of(map_of(e0.take(i + 1)))));
        }
        i = i + 1;
    }
    proof {
        assert(e0.take(i as int) =~= e0);
    }
}

/// Runs the field transformations over a row (see `transformed_fields`).
fn transform_fields(
    data: &Vec<(String, JsonValue)>,
    fts: &Vec<(String, FieldTransform)>,
    ts: &Vec<(String, MemberText)>,
) -> (r: Result<KeyedMap<JsonValue>, MeiliBridgeError>)
    requires
        forall|i: int| 0 <= i < fts@.len() ==> #[trigger] finite_step(fts@[i].1, ts@),
    ensures
        match transformed_fields(members_view(data@), fts@, ts@) {
            Ok(m) => r matches Ok(row) && row.wf() && views_of(row@) == m,
            Err(m) => r matches Err(MeiliBridgeError::Pipeline(x)) && x@ == m,
        },
{
    let mut rest = to_map(data);
    let mut made: KeyedMap<JsonValue> = KeyedMap::new();
    let ghost d0 = members_map(members_view(data@));
    assert(views_of(made@) =~= Map::<Seq<char>, JsonView>::empty());
    let mut i: usize = 0;
    while i < fts.len()
        invariant
            forall|j: int| 0 <= j < fts@.len() ==> #[trigger] finite_step(fts@[j].1, ts@),
            d0 == members_map(members_view(data@)),
            i <= fts@.len(),
            rest.wf(),
            made.wf(),
            field_steps(d0, fts@, ts@, i as nat) == (FieldsState { data: views_of(rest@), res: views_of(made@), error: None }),
        decreases fts@.len() - i,
    {
        let step = apply_field_transform(&fts[i].1, &mut rest, &mut made, ts);
        match step {
            Ok(()) => {},
            Err(e) => {
                proof {
                    lemma_failed_stays(d0, fts@, ts@, (i + 1) as nat, fts@.len());
                }
                return Err(e);
            },
        }
        i = i + 1;
    }
    merge_over(&mut rest, made);
    Ok(rest)
}

proof fn lemma_failed_stays(
    d: Map<Seq<char>, JsonView>,
    fts: Seq<(String, FieldTransform)>,
    ts: Seq<(String, MemberText)>,
    a: nat,
    b: nat,
)
    requires
        a <= b,
        field_steps(d, fts, ts, a).error is Some,
    ensures
        field_steps(d, fts, ts, b) == field_steps(d, fts, ts, a),
    decreases b - a,
{
    if a < b {
        lemma_failed_stays(d, fts, ts, a, (b - 1) as nat);
    }
}

/// Changes the case of the named string fields, in order.
fn recase_fields(row: &mut KeyedMap<JsonValue>, fields: &Vec<String>, upper: bool)
    requires
        old(row).wf(),
    ensures
        final(row).wf(),
        views_of(final(row)@) == recase(views_of(old(row)@), fields@.map_values(|f: String| f@), upper),
{
    let ghost fs = fields@.map_values(|f: String| f@);
    let ghost m0 = views_of(row@);
    let mut i: usize = 0;
    assert(fs.take(0) =~= Seq::<Seq<char>>::empty());
    while i < fields.len()
        invariant
            fs == fields@.map_values(|f: String| f@),
            i <= fields@.len(),
            row.wf(),
            views_of(row@) == recase(m0, fs.take(i as int), upper),
        decreases fields@.len() - i,
    {
        let ghost t = fs.take(i + 1);
        assert(t.drop_last() =~= fs.take(i as int));
        assert(t.last() == fields@[i as int]@);
        let f = &fields[i];
        let changed: Option<String> = match row.get(f) {
            Some(JsonValue::String(s)) => Some(
                if upper {
                    to_uppercase(s.as_str())
                } else {
                    to_lowercase(s.as_str())
                },
            ),
            _ => None,
        };
        let ghost before = row@;
        match changed {
            Some(c) => {
                let ghost cv = c@;
                row.insert(f.clone(), JsonValue::String(c));
                assert(views_of(row@) =~= views_of(before).insert(f@, JsonView::String(cv)));
            },
            None => {},
        }
        i = i + 1;
    }
    assert(fs.take(fields@.len() as int) =~= fs);
}

/// Applies one row transformation (see `global_step`).
fn apply_global(row: &mut KeyedMap<JsonValue>, t: &Transform, now: &String)
    requires
        old(row).wf(),
    ensures
        final(row).wf(),
        views_of(final(row)@) == global_step(views_of(old(row)@), *t, now@),
{
    match t {
        Transform::AddField { name, value } => {
            let c = json_copy(value);
            let ghost cv = c;
            row.insert(name.clone(), c);
            assert(views_of(row@) =~= views_of(old(row)@).insert(name@, jview(cv)));
        },
        Transform::RemoveField { name } => {
            row.remove(name);
            assert(views_of(row@) =~= views_of(old(row)@).remove(name@));
        },
        Transform::AddTimestamp { field } => {
            row.insert(field.clone(), JsonValue::String(now.clone()));
            assert(views_of(row@) =~= views_of(old(row)@).insert(field@, JsonView::String(now@)));
        },
        Transform::Lowercase { fields } => recase_fields(row, fields, false),
        Transform::Uppercase { fields } => recase_fields(row, fields, true),
    }
}

/// Transforms the rows of events by configuration.
#[derive(Debug)]
pub struct EventTransformer {
    pub config: TransformConfig,
}

/// Event `after` (or the error `after` reports) is event `before`
/// transformed by configuration `c` at time `now`: a change gets its
/// table's field transformations, if any, then the row transformations;
/// a full-sync row that is an object gets its table's field
/// transformations; other events pass unchanged.
pub open spec fn transformed_event(
    c: TransformConfig,
    before: Event,
    ts: Seq<(String, MemberText)>,
    now: Seq<char>,
    after: Result<Option<Event>, MeiliBridgeError>,
) -> bool {
    match before {
        Event::Cdc(b) => {
            let fields: Result<Map<Seq<char>, JsonView>, Seq<char>> = match table_transforms(c, b.table@) {
                Some(fts) => transformed_fields(members_view(b.data@), fts@, ts),
                None => Ok(members_map(members_view(b.data@))),
            };
            match fields {
                Err(m) => after matches Err(MeiliBridgeError::Pipeline(x)) && x@ == m,
                Ok(m) => after matches Ok(Some(Event::Cdc(a))) && a == (crate::models::event::CdcEvent { data: a.data, ..b })
                    && unique_keys(a.data@) && views_of(map_of(a.data@)) == global_steps(
                    m,
                    match c.global_transforms {
                        Some(gs) => gs@,
                        None => seq![],
                    },
                    now,
                    match c.global_transforms {
                        Some(gs) => gs@.len(),
                        None => 0,
                    },
                ),
            }
        },
        Event::FullSync { table, data } => match (table_transforms(c, table@), data) {
            (Some(fts), JsonValue::Object(ms)) => match transformed_fields(members_view(ms@), fts@, ts) {
                Err(m) => after matches Err(MeiliBridgeError::Pipeline(x)) && x@ == m,
                Ok(m) => after matches Ok(Some(Event::FullSync { table: t2, data: JsonValue::Object(ms2) })) && t2 == table
                    && unique_keys(ms2@) && views_of(map_of(ms2@)) == m,
            },
            _ => after == Ok::<Option<Event>, MeiliBridgeError>(Some(Event::FullSync { table, data })),
        },
        _ => after == Ok::<Option<Event>, MeiliBridgeError>(Some(before)),
    }
}

/// The table of a change or full-sync event.
pub open spec fn row_table(e: Event) -> Option<Seq<char>> {
    match e {
        Event::Cdc(c) => Some(c.table@),
        Event::FullSync { table, .. } => Some(table@),
        _ => None,
    }
}

impl EventTransformer {
    /// A transformer with a configuration.
    pub fn new(config: TransformConfig) -> (r: Self)
        ensures
            r.config == config,
    {
        EventTransformer { config }
    }

    /// Transforms an event at time `now` (RFC 3339 text), given the texts
    /// of its row's fields (see `transformed_event`).
    pub fn transform_at(&self, event: Event, ts: &Vec<(String, MemberText)>, now: &String) -> (r: Result<
        Option<Event>,
        MeiliBridgeError,
    >)
        requires
            row_table(event) matches Some(t) ==> finite_conversions(self.config, t, ts@),
        ensures
            transformed_event(self.config, event, ts@, now@, r),
    {
        match event {
            Event::Cdc(c) => {
                let mut c = c;
                let mut row = match find_key(&self.config.fields, &c.table) {
                    Some(i) => {
                        let fts = &self.config.fields[i].1;
                        assert(table_transforms(self.config, c.table@) == Some(*fts));
                        match transform_fields(&c.data, fts, ts) {
                            Ok(row) => row,
                            Err(e) => {
                                return Err(e);
                            },
                        }
                    },
                    None => to_map(&c.data),
                };
                let ghost m1 = views_of(row@);
                match &self.config.global_transforms {
                    Some(gs) => {
                        let mut i: usize = 0;
                        while i < gs.len()
                            invariant
                                i <= gs@.len(),
                                row.wf(),
                                views_of(row@) == global_steps(m1, gs@, now@, i as nat),
                            decreases gs@.len() - i,
                        {
                            apply_global(&mut row, &gs[i], now);
                            i = i + 1;
                        }
                    },
                    None => {},
                }
                proof {
                    row.lemma_entries();
                }
                c.data = row.into_entries();
                Ok(Some(Event::Cdc(c)))
            },
            Event::FullSync { table, data } => {
                match find_key(&self.config.fields, &table) {
                    Some(i) => {
                        let fts = &self.config.fields[i].1;
                        match data {
                            JsonValue::Object(ms) => {
                                match transform_fields(&ms, fts, ts) {
                                    Ok(row) => {
                                        proof {
                                            row.lemma_entries();
                                        }
                                        Ok(Some(Event::FullSync { table, data: JsonValue::Object(row.into_entries()) }))
                                    },
                                    Err(e) => Err(e),
                                }
                            },
                            d => Ok(Some(Event::FullSync { table, data: d })),
                        }
                    },
                    None => Ok(Some(Event::FullSync { table, data })),
                }
            },
            other => Ok(Some(other)),
        }
    }

    /// Transforms an event now (see `transform_at`).
    pub fn transform(&self, event: Event, ts: &Vec<(String, MemberText)>) -> (r: Result<Option<Event>, MeiliBridgeError>)
        requires
            row_table(event) matches Some(t) ==> finite_conversions(self.config, t, ts@),
        ensures
            exists|now: Seq<char>| transformed_event(self.config, event, ts@, now, r),
    {
        let now = now_rfc3339();
        self.transform_at(event, ts, &now)
    }
}

} // verus!
