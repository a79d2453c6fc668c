//! Reading raw events with as little parsing as possible.

use vstd::prelude::*;
use vstd::utf8::{decode_utf8, valid_utf8};
use vstd::utf8::encode_utf8;
use crate::error::MeiliBridgeError;
use crate::json::{items_view, jview, lemma_jview_array, lemma_jview_object, members_view, JsonValue, JsonView};
use crate::pipeline::memory_monitor::{limit_text, MemoryMonitor};
use crate::text::concat2;

verus! {

/// Whether a byte is ASCII white space (`u8::is_ascii_whitespace`).
pub open spec fn ascii_space(b: u8) -> bool {
    b == 0x20 || b == 0x09 || b == 0x0A || b == 0x0C || b == 0x0D
}

fn is_ascii_space(b: u8) -> (r: bool)
    ensures
        r == ascii_space(b),
{
    b == 0x20 || b == 0x09 || b == 0x0A || b == 0x0C || b == 0x0D
}

/// Whether `key` occurs in `data` at `i`.
pub open spec fn key_at(data: Seq<u8>, key: Seq<u8>, i: int) -> bool {
    0 <= i && i + key.len() <= data.len() && data.subrange(i, i + key.len()) == key
}

/// The first position from `i` on that is neither white space nor `:`.
pub open spec fn skip_separators(data: Seq<u8>, i: int) -> int
    decreases data.len() - i,
{
    if 0 <= i < data.len() && (ascii_space(data[i]) || data[i] == 0x3A) {
        skip_separators(data, i + 1)
    } else {
        i
    }
}

/// The position of the quote that closes a string whose text starts at
/// `i`, skipping each character after a backslash.
pub open spec fn closing_quote(data: Seq<u8>, i: int) -> Option<int>
    decreases data.len() + 2 - i,
{
    if i < 0 || i >= data.len() {
        None
    } else if data[i] == 0x5C {
        closing_quote(data, i + 2)
    } else if data[i] == 0x22 {
        Some(i)
    } else {
        closing_quote(data, i + 1)
    }
}

/// The text bounds of the string value of `key`, scanning from `i`: at
/// each place where the key occurs, separators are skipped; a quote there
/// opens the value, which ends at its closing quote (none: no value);
/// anything else resumes the scan one byte further.
pub open spec fn string_value_from(data: Seq<u8>, key: Seq<u8>, i: int) -> Option<(int, int)>
    decreases data.len() + 1 - i,
{
    if i < 0 || i >= data.len() {
        None
    } else if key_at(data, key, i) {
        let j = skip_separators(data, i + key.len());
        if j < data.len() && data[j] == 0x22 {
            match closing_quote(data, j + 1) {
                Some(e) => Some((j + 1, e)),
                None => None,
            }
        } else {
            proof {
                lemma_skip_separators_grows(data, i + key.len());
            }
            string_value_from(data, key, j + 1)
        }
    } else {
        string_value_from(data, key, i + 1)
    }
}

pub proof fn lemma_skip_separators_grows(data: Seq<u8>, i: int)
    ensures
        skip_separators(data, i) >= i,
        i <= data.len() ==> skip_separators(data, i) <= data.len(),
    decreases data.len() - i,
{
    if 0 <= i < data.len() && (ascii_space(data[i]) || data[i] == 0x3A) {
        lemma_skip_separators_grows(data, i + 1);
    }
}

fn key_at_exec(data: &[u8], key: &[u8], i: usize) -> (r: bool)
    requires
        i <= data@.len(),
    ensures
        r == key_at(data@, key@, i as int),
{
    let n = data.len();
    let room = n - i;
    if key.len() > room {
        return false;
    }
    let mut k: usize = 0;
    while k < key.len()
        invariant
            k <= key@.len(),
            n == data@.len(),
            i <= data@.len(),
            key@.len() <= data@.len() - i,
            forall|m: int| 0 <= m < k ==> data@[i + m] == key@[m],
        decreases key@.len() - k,
    {
        let b = data[i + k];
        if b != key[k] {
            assert(data@.subrange(i as int, i + key@.len())[k as int] != key@[k as int]);
            return false;
        }
        k = k + 1;
    }
    assert(data@.subrange(i as int, i + key@.len()) =~= key@);
    true
}

proof fn lemma_closing_quote_bounds(data: Seq<u8>, i: int)
    requires
        i >= 0,
    ensures
        closing_quote(data, i) matches Some(e) ==> i <= e < data.len(),
    decreases data.len() + 2 - i,
{
    if i < data.len() {
        if data[i] == 0x5C {
            lemma_closing_quote_bounds(data, i + 2);
        } else if data[i] != 0x22 {
            lemma_closing_quote_bounds(data, i + 1);
        }
    }
}

pub proof fn lemma_value_bounds(data: Seq<u8>, key: Seq<u8>, i: int)
    requires
        i >= 0,
    ensures
        string_value_from(data, key, i) matches Some((s, e)) ==> 0 <= s <= e < data.len(),
    decreases data.len() + 1 - i,
{
    if i < data.len() {
        if key_at(data, key, i) {
            let j = skip_separators(data, i + key.len());
            lemma_skip_separators_grows(data, i + key.len());
            if j < data.len() && data[j] == 0x22 {
                lemma_closing_quote_bounds(data, j + 1);
            } else {
                lemma_value_bounds(data, key, j + 1);
            }
        } else {
            lemma_value_bounds(data, key, i + 1);
        }
    }
}

/// Finds the bounds of the string value of `key` without parsing the
/// document.
pub fn find_json_string_value(data: &[u8], key: &[u8]) -> (r: Option<(usize, usize)>)
    ensures
        match string_value_from(data@, key@, 0) {
            Some((s, e)) => r == Some((s as usize, e as usize)),
            None => r is None,
        },
{
    let n = data.len();
    let mut i: usize = 0;
    while i < n
        invariant
            i <= n,
            n == data@.len(),
            string_value_from(data@, key@, 0) == string_value_from(data@, key@, i as int),
        decreases n - i,
    {
        if key_at_exec(data, key, i) {
            let mut j = i + key.len();
            while j < n && (is_ascii_space(data[j]) || data[j] == 0x3A)
                invariant
                    i + key@.len() <= j <= n,
                    n == data@.len(),
                    skip_separators(data@, (i + key@.len()) as int) == skip_separators(data@, j as int),
                decreases n - j,
            {
                j = j + 1;
            }
            let ghost target = string_value_from(data@, key@, 0);
            assert(skip_separators(data@, j as int) == j);
            if j < n && data[j] == 0x22 {
                let start = j + 1;
                assert(target == match closing_quote(data@, start as int) {
                    Some(e) => Some((start as int, e)),
                    None => None,
                });
                let mut k = start;
                while k < n
                    invariant
                        start <= k,
                        n == data@.len(),
                        closing_quote(data@, start as int) == closing_quote(data@, k as int),
                        target == string_value_from(data@, key@, 0),
                        target == match closing_quote(data@, start as int) {
                            Some(e) => Some((start as int, e)),
                            None => None,
                        },
                    decreases n - k,
                {
                    if data[k] == 0x5C {
                        if n - k <= 2 {
                            assert(closing_quote(data@, k + 2) is None);
                            return None;
                        }
                        k = k + 2;
                    } else if data[k] == 0x22 {
                        return Some((start, k));
                    } else {
                        k = k + 1;
                    }
                }
                assert(closing_quote(data@, k as int) is None);
                return None;
            }
            assert(string_value_from(data@, key@, i as int) == string_value_from(data@, key@, j + 1));
            if j >= n {
                assert(string_value_from(data@, key@, j + 1) is None);
                return None;
            }
            i = j + 1;
        } else {
            i = i + 1;
        }
    }
    None
}

/// The message of the error `std::str::from_utf8` gives for bytes that are
/// not valid UTF-8 (its `Utf8Error` as `Display` writes it).
pub uninterp spec fn utf8_error_text(bytes: Seq<u8>) -> Seq<char>;

/// `std::str::from_utf8`: the text when the bytes are valid UTF-8, else
/// the error's message.
#[verifier::external_body]
fn str_from_utf8(v: &[u8]) -> (r: Result<&str, String>)
    ensures
        match r {
            Ok(s) => valid_utf8(v@) && s@ == decode_utf8(v@),
            Err(e) => !valid_utf8(v@) && e@ == utf8_error_text(v@),
        },
{
    match std::str::from_utf8(v) {
        Ok(s) => Ok(s),
        Err(e) => Err(e.to_string()),
    }
}

/// A view of a raw event: its table, and the raw bytes to parse in full
/// only when needed.
pub struct EventView<'a> {
    pub table: &'a str,
    pub raw_data: &'a [u8],
}

/// The position of the first byte that is not white space.
pub open spec fn first_non_space(data: Seq<u8>, i: int) -> int
    decreases data.len() - i,
{
    if 0 <= i < data.len() && ascii_space(data[i]) {
        first_non_space(data, i + 1)
    } else {
        i
    }
}

/// Routes raw events by their table.
pub struct ZeroCopyEventRouter {}

impl ZeroCopyEventRouter {
    /// A router.
    pub fn new() -> (r: Self) {
        ZeroCopyEventRouter {}
    }

    /// The table of a raw event, read without parsing the whole document:
    /// the event must start (after white space) with `{` and hold a
    /// `"table"` key with a string value in UTF-8.
    pub fn route_event<'a>(&'a mut self, event_data: &'a [u8]) -> (r: Result<EventView<'a>, MeiliBridgeError>)
        ensures
            ({
                let d = event_data@;
                let o = first_non_space(d, 0);
                if o >= d.len() || d[o] != 0x7B {
                    r matches Err(MeiliBridgeError::Validation(m)) && m@ == "Invalid JSON object"@
                } else {
                    match string_value_from(d, "\"table\""@.map_values(|c: char| c as u8), 0) {
                        None => r matches Err(MeiliBridgeError::Validation(m)) && m@ == "Missing table field"@,
                        Some((s, e)) => {
                            let bytes = d.subrange(s, e);
                            if valid_utf8(bytes) {
                                r matches Ok(v) && v.table@ == decode_utf8(bytes) && v.raw_data@ == d
                            } else {
                                r matches Err(MeiliBridgeError::Validation(m)) && m@ == "Invalid UTF-8: "@
                                    + utf8_error_text(bytes)
                            }
                        },
                    }
                }
            }),
    {
        let mut offset: usize = 0;
        while offset < event_data.len() && is_ascii_space(event_data[offset])
            invariant
                offset <= event_data@.len(),
                first_non_space(event_data@, 0) == first_non_space(event_data@, offset as int),
            decreases event_data@.len() - offset,
        {
            offset = offset + 1;
        }
        if offset >= event_data.len() || event_data[offset] != 0x7B {
            return Err(MeiliBridgeError::Validation("Invalid JSON object".to_owned()));
        }
        let key: [u8; 7] = [0x22, 0x74, 0x61, 0x62, 0x6C, 0x65, 0x22];
        proof {
            reveal_strlit("\"table\"");
            assert(key@ =~= "\"table\""@.map_values(|c: char| c as u8));
        }
        proof {
            lemma_value_bounds(event_data@, key@, 0);
        }
        match find_json_string_value(event_data, &key) {
            Some((s, e)) => {
                let slice = slice_range(event_data, s, e);
                match str_from_utf8(slice) {
                    Ok(table) => Ok(EventView { table, raw_data: event_data }),
                    Err(msg) => Err(MeiliBridgeError::Validation(concat2("Invalid UTF-8: ", msg.as_str()))),
                }
            },
            None => Err(MeiliBridgeError::Validation("Missing table field".to_owned())),
        }
    }
}

fn slice_range<'a>(data: &'a [u8], s: usize, e: usize) -> (r: &'a [u8])
    requires
        s <= e <= data@.len(),
    ensures
        r@ == data@.subrange(s as int, e as int),
{
    vstd::slice::slice_subrange(data, s, e)
}

/// Where the scan of a JSON array stands: whether the `[` was met, the
/// brace depth, the text of the item being read, the items read, and
/// whether the closing `]` was met.
pub struct ArrayScan {
    pub in_array: bool,
    pub depth: int,
    pub current: Seq<char>,
    pub items: Seq<Seq<char>>,
    pub done: bool,
}

/// One character of the scan. Before the `[` everything is skipped. In the
/// array, `{` opens an object and `}` closes one; when a `}` brings the
/// depth back to zero the item read so far (with that brace) is complete.
/// At depth zero a `,` is skipped and a `]` ends the scan. Any other
/// character joins the item, except a space at depth zero.
pub open spec fn scan_step(st: ArrayScan, ch: char) -> ArrayScan {
    if st.done {
        st
    } else if !st.in_array {
        if ch == '[' {
            ArrayScan { in_array: true, ..st }
        } else {
            st
        }
    } else if ch == '{' {
        ArrayScan { depth: st.depth + 1, current: st.current.push(ch), ..st }
    } else if ch == '}' {
        if st.depth - 1 == 0 {
            ArrayScan { depth: 0, current: seq![], items: st.items.push(st.current.push(ch)), ..st }
        } else {
            ArrayScan { depth: st.depth - 1, current: st.current.push(ch), ..st }
        }
    } else if ch == ',' && st.depth == 0 {
        st
    } else if ch == ']' && st.depth == 0 {
        ArrayScan { done: true, ..st }
    } else if st.depth > 0 || ch != ' ' {
        ArrayScan { current: st.current.push(ch), ..st }
    } else {
        st
    }
}

/// The scan of a text, character by character from the start.
pub open spec fn scan_array(s: Seq<char>) -> ArrayScan
    decreases s.len(),
{
    if s.len() == 0 {
        ArrayScan { in_array: false, depth: 0, current: seq![], items: seq![], done: false }
    } else {
        scan_step(scan_array(s.drop_last()), s.last())
    }
}

/// The texts of a list of character lists.
pub open spec fn char_texts(v: Seq<Vec<char>>) -> Seq<Seq<char>> {
    v.map_values(|x: Vec<char>| x@)
}

/// The object items of the first JSON array in a text, each as its text
/// (`process_array_streaming` hands each to the JSON parser): see
/// `scan_step`.
pub fn array_items(json: &Vec<char>) -> (r: Vec<Vec<char>>)
    requires
        json@.len() < i64::MAX,
    ensures
        char_texts(r@) == scan_array(json@).items,
{
    let mut in_array = false;
    let mut depth: i64 = 0;
    let mut current: Vec<char> = Vec::new();
    let mut items: Vec<Vec<char>> = Vec::new();
    let mut done = false;
    let mut i: usize = 0;
    proof {
        assert(json@.take(0) =~= Seq::<char>::empty());
    }
    while i < json.len()
        invariant
            i <= json@.len(),
            json@.len() < i64::MAX,
            -(i as int) <= depth <= i,
            ({
                let st = scan_array(json@.take(i as int));
                &&& st.in_array == in_array
                &&& st.depth == depth as int
                &&& st.current == current@
                &&& st.items == char_texts(items@)
                &&& st.done == done
            }),
        decreases json@.len() - i,
    {
        let ch = json[i];
        proof {
            assert(json@.take(i + 1).drop_last() =~= json@.take(i as int));
            assert(json@.take(i + 1).last() == ch);
        }
        if done {
        } else if !in_array {
            if ch == '[' {
                in_array = true;
            }
        } else if ch == '{' {
            depth = depth + 1;
            current.push(ch);
        } else if ch == '}' {
            depth = depth - 1;
            current.push(ch);
            if depth == 0 {
                let ghost before = char_texts(items@);
                let item = current;
                current = Vec::new();
                items.push(item);
                proof {
                    assert(char_texts(items@) =~= before.push(item@));
                    assert(current@ =~= Seq::<char>::empty());
                }
            }
        } else if ch == ',' && depth == 0 {
        } else if ch == ']' && depth == 0 {
            done = true;
        } else if depth > 0 || ch != ' ' {
            current.push(ch);
        }
        i = i + 1;
    }
    proof {
        assert(json@.take(json@.len() as int) =~= json@);
    }
    items
}

/// The estimated memory of a JSON value, in bytes: 8 for null and a
/// boolean, 16 for a number, 24 plus the UTF-8 length for a string, 24
/// plus its items for an array, and 24 plus, per member, 24, the key's
/// UTF-8 length and the value for an object.
pub open spec fn value_size(v: JsonView) -> int
    decreases v, 0nat,
{
    match v {
        JsonView::Null => 8,
        JsonView::Bool(_) => 8,
        JsonView::Number(_) => 16,
        JsonView::String(t) => 24 + encode_utf8(t).len() as int,
        JsonView::Array(xs) => 24 + items_size(xs),
        JsonView::Object(ms) => 24 + members_size(ms),
    }
}

/// The estimated memory of an array's items.
pub open spec fn items_size(xs: Seq<JsonView>) -> int
    decreases xs, 0nat,
{
    if xs.len() == 0 {
        0
    } else {
        items_size(xs.drop_last()) + value_size(xs.last())
    }
}

/// The estimated memory of an object's members.
pub open spec fn members_size(ms: Seq<(Seq<char>, JsonView)>) -> int
    decreases ms, 0nat,
{
    if ms.len() == 0 {
        0
    } else {
        members_size(ms.drop_last()) + 24 + encode_utf8(ms.last().0).len() as int + value_size(ms.last().1)
    }
}

proof fn lemma_value_size_positive(v: JsonView)
    ensures
        value_size(v) >= 8,
    decreases v, 1nat,
{
    match v {
        JsonView::Array(xs) => lemma_items_size_grows(xs, 0),
        JsonView::Object(ms) => lemma_members_size_grows(ms, 0),
        _ => {},
    }
}

proof fn lemma_items_size_grows(xs: Seq<JsonView>, k: int)
    requires
        0 <= k <= xs.len(),
    ensures
        0 <= items_size(xs.take(k)) <= items_size(xs),
    decreases xs, 1nat, xs.len() - k,
{
    if k < xs.len() {
        lemma_items_size_grows(xs, k + 1);
        assert(xs.take(k + 1).drop_last() =~= xs.take(k));
        assert(xs.take(k + 1).last() == xs[k]);
        assert(decreases_to!(xs => xs[k]));
        lemma_value_size_positive(xs[k]);
        assert(decreases_to!(xs => xs.take(k)));
        lemma_items_size_grows(xs.take(k), k);
        assert(xs.take(k).take(k) =~= xs.take(k));
    } else {
        assert(xs.take(k) =~= xs);
        if xs.len() > 0 {
            assert(decreases_to!(xs => xs.drop_last()));
            lemma_items_size_grows(xs.drop_last(), xs.len() - 1);
            assert(xs.drop_last().take(xs.len() - 1) =~= xs.drop_last());
            assert(decreases_to!(xs => xs[xs.len() - 1]));
            lemma_value_size_positive(xs.last());
        }
    }
}

proof fn lemma_members_size_grows(ms: Seq<(Seq<char>, JsonView)>, k: int)
    requires
        0 <= k <= ms.len(),
    ensures
        0 <= members_size(ms.take(k)) <= members_size(ms),
    decreases ms, 1nat, ms.len() - k,
{
    if k < ms.len() {
        lemma_members_size_grows(ms, k + 1);
        assert(ms.take(k + 1).drop_last() =~= ms.take(k));
        assert(ms.take(k + 1).last() == ms[k]);
        assert(decreases_to!(ms => ms[k]));
        assert(decreases_to!(ms[k] => ms[k].1));
        lemma_value_size_positive(ms[k].1);
        assert(decreases_to!(ms => ms.take(k)));
        lemma_members_size_grows(ms.take(k), k);
        assert(ms.take(k).take(k) =~= ms.take(k));
    } else {
        assert(ms.take(k) =~= ms);
        if ms.len() > 0 {
            assert(decreases_to!(ms => ms.drop_last()));
            lemma_members_size_grows(ms.drop_last(), ms.len() - 1);
            assert(ms.drop_last().take(ms.len() - 1) =~= ms.drop_last());
            assert(decreases_to!(ms => ms[ms.len() - 1]));
            assert(decreases_to!(ms[ms.len() - 1] => ms[ms.len() - 1].1));
            lemma_value_size_positive(ms.last().1);
        }
    }
}

fn utf8_length(t: &String) -> (r: usize)
    ensures
        r == encode_utf8(t@).len(),
{
    let b = t.as_str().as_bytes();
    proof {
        assert(b@ == encode_utf8(t@));
    }
    b.len()
}

/// The estimated memory of a JSON value (see `value_size`).
pub fn estimate_value_size(value: &JsonValue) -> (r: usize)
    requires
        value_size(jview(*value)) <= usize::MAX,
    ensures
        r == value_size(jview(*value)),
    decreases *value, 0nat,
{
    match value {
        JsonValue::Null => 8,
        JsonValue::Bool(_) => 8,
        JsonValue::Number(_) => 16,
        JsonValue::String(t) => 24 + utf8_length(t),
        JsonValue::Array(xs) => {
            proof {
                lemma_jview_array(*xs);
            }
            let ghost xv = items_view(xs@);
            let mut total: usize = 24;
            let mut i: usize = 0;
            while i < xs.len()
                invariant
                    i <= xs@.len(),
                    xv == items_view(xs@),
                    jview(*value) == JsonView::Array(xv),
                    *value == JsonValue::Array(*xs),
                    value_size(jview(*value)) <= usize::MAX,
                    total == 24 + items_size(xv.take(i as int)),
                decreases xs@.len() - i,
            {
                proof {
                    assert(xv.take(i + 1).drop_last() =~= xv.take(i as int));
                    lemma_items_size_grows(xv, i + 1);
                    lemma_items_size_grows(xv, i as int);
                    assert(decreases_to!(*value => (*value)->Array_0));
                    assert(decreases_to!(*xs => xs@));
                    assert(decreases_to!(xs@ => xs@[i as int]));
                }
                let n = estimate_value_size(&xs[i]);
                total = total + n;
                i = i + 1;
            }
            proof {
                assert(xv.take(xs@.len() as int) =~= xv);
            }
            total
        },
        JsonValue::Object(ms) => {
            proof {
                lemma_jview_object(*ms);
            }
            let ghost mv = members_view(ms@);
            let mut total: usize = 24;
            let mut i: usize = 0;
            while i < ms.len()
                invariant
                    i <= ms@.len(),
                    mv == members_view(ms@),
                    jview(*value) == JsonView::Object(mv),
                    *value == JsonValue::Object(*ms),
                    value_size(jview(*value)) <= usize::MAX,
                    total == 24 + members_size(mv.take(i as int)),
                decreases ms@.len() - i,
            {
                proof {
                    assert(mv.take(i + 1).drop_last() =~= mv.take(i as int));
                    lemma_members_size_grows(mv, i + 1);
                    lemma_members_size_grows(mv, i as int);
                    lemma_value_size_positive(mv[i as int].1);
                    assert(decreases_to!(*value => (*value)->Object_0));
                    assert(decreases_to!(*ms => ms@));
                    assert(decreases_to!(ms@ => ms@[i as int]));
                    assert(decreases_to!(ms@[i as int] => ms@[i as int].1));
                }
                let key_len = utf8_length(&ms[i].0);
                let n = estimate_value_size(&ms[i].1);
                total = total + 24 + key_len + n;
                i = i + 1;
            }
            proof {
                assert(mv.take(ms@.len() as int) =~= mv);
            }
            total
        },
    }
}

/// Parses JSON documents within a size limit, and checks each against the
/// queue memory of a monitor when it has one.
#[derive(Debug, Clone, Copy)]
pub struct StreamingJsonProcessor {
    /// The most bytes a document may take.
    pub max_document_size: usize,
    pub memory_monitor: Option<MemoryMonitor>,
}

impl StreamingJsonProcessor {
    /// A processor for documents of at most `max_document_size` bytes, with
    /// no memory monitor.
    pub fn new(max_document_size: usize) -> (r: Self)
        ensures
            r.max_document_size == max_document_size,
            r.memory_monitor is None,
    {
        StreamingJsonProcessor { max_document_size, memory_monitor: None }
    }

    /// The processor with `monitor` as its memory monitor.
    pub fn with_memory_monitor(self, monitor: MemoryMonitor) -> (r: Self)
        ensures
            r.max_document_size == self.max_document_size,
            r.memory_monitor == Some(monitor),
    {
        StreamingJsonProcessor { memory_monitor: Some(monitor), ..self }
    }

    /// Accepts a parsed document: with a monitor, its estimated size is
    /// taken from the queue memory and given back at once, so a document
    /// that would pass the queue limit is refused with the monitor's error;
    /// the monitor is left as it was.
    pub fn admit_document(&self, value: &JsonValue) -> (r: Result<(), MeiliBridgeError>)
        requires
            value_size(jview(*value)) <= usize::MAX,
            self.memory_monitor matches Some(m) ==> m.current_queue_memory + value_size(jview(*value)) <= u64::MAX
                && m.event_count < usize::MAX,
        ensures
            match self.memory_monitor {
                None => r is Ok,
                Some(m) => if m.current_queue_memory + value_size(jview(*value)) > m.max_queue_memory {
                    r matches Err(MeiliBridgeError::ResourceExhausted(msg)) && msg@ == limit_text(
                        "Queue"@,
                        m.max_queue_memory,
                    )
                } else {
                    r is Ok
                },
            },
    {
        let size = estimate_value_size(value);
        match self.memory_monitor {
            None => Ok(()),
            Some(m) => {
                let mut monitor = m;
                match monitor.track_event_memory(size as u64) {
                    Ok(allocation) => {
                        monitor.release(allocation);
                        Ok(())
                    },
                    Err(e) => Err(e),
                }
            },
        }
    }
}

} // verus!
