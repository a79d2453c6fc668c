//! Mapping the fields of a row to the destination's schema: renames,
//! defaults, values joined from several fields, values taken from a path,
//! and what becomes of the fields no mapping names.
//!
//! A joined field is made of the text of each source value; that text
//! (`serde_json`'s for numbers and structures) is worked out by the caller
//! from the values `render_requests` lists, and handed to `map_event`.

use vstd::prelude::*;
use crate::config::pipeline::{FieldMapping, MappingConfig, TableMapping};
use crate::json::{at_path, get_member, json_copy, jview, lemma_jview_object, lookup, members_view, value_at_path, JsonValue, JsonView};
use crate::keyed::{map_of, unique_keys, KeyedMap};
use crate::models::stream_event::Event;
use crate::error::MeiliBridgeError;
use crate::text::{char_pieces, concat2, find_key, join, join_strings, lookup_key, texts, texts_contain};

verus! {

/// The views of the values of a map.
pub open spec fn views_of(m: Map<Seq<char>, JsonValue>) -> Map<Seq<char>, JsonView> {
    Map::new(|k: Seq<char>| m.contains_key(k), |k: Seq<char>| jview(m[k]))
}

/// The sources of a list that the row has, in order.
pub open spec fn present_sources(data: Seq<(Seq<char>, JsonView)>, srcs: Seq<Seq<char>>) -> Seq<Seq<char>>
    decreases srcs.len(),
{
    if srcs.len() == 0 {
        seq![]
    } else {
        let prev = present_sources(data, srcs.drop_last());
        if lookup(data, srcs.last()) is Some {
            prev.push(srcs.last())
        } else {
            prev
        }
    }
}

/// The values of the sources of a list that the row has, in order.
pub open spec fn present_values(data: Seq<(Seq<char>, JsonView)>, srcs: Seq<Seq<char>>) -> Seq<JsonView>
    decreases srcs.len(),
{
    if srcs.len() == 0 {
        seq![]
    } else {
        let prev = present_values(data, srcs.drop_last());
        match lookup(data, srcs.last()) {
            Some(v) => prev.push(v),
            None => prev,
        }
    }
}

/// The value under `src` taken along a dotted path.
pub open spec fn nested_value(data: Seq<(Seq<char>, JsonView)>, src: Seq<char>, path: Seq<char>) -> Option<JsonView> {
    match lookup(data, src) {
        Some(b) => at_path(b, char_pieces(path, '.')),
        None => None,
    }
}

/// The fields mapped so far, and the sources used.
pub struct MapState {
    pub row: Map<Seq<char>, JsonView>,
    pub mapped: Seq<Seq<char>>,
}

/// The separator of joined values: the given one, else a comma.
pub open spec fn separator_of(separator: Option<String>) -> Seq<char> {
    match separator {
        Some(s) => s@,
        None => ","@,
    }
}

/// What one mapping of source field `src` does, given the texts of the
/// values it joins: a rename copies a present value; a joined field is
/// the texts of the present sources joined by the separator (nothing when
/// none is present); a path mapping copies the value found along the
/// path; else the value, or the default, or `null` is copied. Each source
/// used counts as mapped.
pub open spec fn map_step(
    data: Seq<(Seq<char>, JsonView)>,
    st: MapState,
    src: Seq<char>,
    m: FieldMapping,
    pieces: Seq<Seq<char>>,
) -> MapState {
    match m {
        FieldMapping::Simple(target) => match lookup(data, src) {
            Some(v) => MapState { row: st.row.insert(target@, v), mapped: st.mapped.push(src) },
            None => st,
        },
        FieldMapping::Complex { to, default, sources, separator, path } => match to {
            None => st,
            Some(target) => match sources {
                Some(srcs) => {
                    let present = present_sources(data, texts(srcs@));
                    MapState {
                        row: if present.len() > 0 {
                            st.row.insert(target@, JsonView::String(join(pieces, separator_of(separator))))
                        } else {
                            st.row
                        },
                        mapped: st.mapped + present,
                    }
                },
                None => match path {
                    Some(p) => match nested_value(data, src, p@) {
                        Some(v) => MapState { row: st.row.insert(target@, v), mapped: st.mapped.push(src) },
                        None => st,
                    },
                    None => MapState {
                        row: st.row.insert(
                            target@,
                            match lookup(data, src) {
                                Some(v) => v,
                                None => match default {
                                    Some(d) => jview(d),
                                    None => JsonView::Null,
                                },
                            },
                        ),
                        mapped: st.mapped.push(src),
                    },
                },
            },
        },
    }
}

/// The texts handed in for mapping `i` (none past the end).
pub open spec fn pieces_at(rendered: Seq<Seq<Seq<char>>>, i: int) -> Seq<Seq<char>> {
    if 0 <= i < rendered.len() {
        rendered[i]
    } else {
        seq![]
    }
}

/// The state after the first `n` mappings, in order.
pub open spec fn map_steps(
    data: Seq<(Seq<char>, JsonView)>,
    ms: Seq<(String, FieldMapping)>,
    rendered: Seq<Seq<Seq<char>>>,
    n: nat,
) -> MapState
    decreases n,
{
    if n == 0 {
        MapState { row: Map::empty(), mapped: seq![] }
    } else {
        map_step(
            data,
            map_steps(data, ms, rendered, (n - 1) as nat),
            ms[n - 1].0@,
            ms[n - 1].1,
            pieces_at(rendered, n - 1),
        )
    }
}

/// The row after the fields not mapped are added, the first `n` of them
/// in order: under a prefix, those not used as sources; without one,
/// those not used and not yet in the row.
pub open spec fn add_unmapped(
    data: Seq<(Seq<char>, JsonView)>,
    st: MapState,
    prefix: Option<Seq<char>>,
    n: nat,
) -> Map<Seq<char>, JsonView>
    decreases n,
{
    if n == 0 {
        st.row
    } else {
        let prev = add_unmapped(data, st, prefix, (n - 1) as nat);
        let k = data[n - 1].0;
        let v = data[n - 1].1;
        match prefix {
            Some(p) => if st.mapped.contains(k) {
                prev
            } else {
                prev.insert(p + k, v)
            },
            None => if st.mapped.contains(k) || prev.contains_key(k) {
                prev
            } else {
                prev.insert(k, v)
            },
        }
    }
}

/// The prefix of unmapped fields: the given one, else `_`.
pub open spec fn prefix_of(prefix: Option<String>) -> Seq<char> {
    match prefix {
        Some(p) => p@,
        None => "_"@,
    }
}

/// The mapped row: the mappings applied in order, then the unmapped
/// fields added as the strategy says: `exclude` adds none, `prefix` adds
/// them under the prefix, anything else adds them as they are.
pub open spec fn mapped_row(
    data: Seq<(Seq<char>, JsonView)>,
    ms: Seq<(String, FieldMapping)>,
    rendered: Seq<Seq<Seq<char>>>,
    strategy: Seq<char>,
    prefix: Option<String>,
) -> Map<Seq<char>, JsonView> {
    let st = map_steps(data, ms, rendered, ms.len());
    if strategy == "exclude"@ {
        st.row
    } else if strategy == "prefix"@ {
        add_unmapped(data, st, Some(prefix_of(prefix)), data.len())
    } else {
        add_unmapped(data, st, None, data.len())
    }
}

/// The texts of lists of strings.
pub open spec fn rendered_texts(rendered: Seq<Vec<String>>) -> Seq<Seq<Seq<char>>> {
    rendered.map_values(|v: Vec<String>| texts(v@))
}

/// The values of a mapping whose texts are joined: those of its sources
/// that the row has, in order; none for other mappings.
pub open spec fn join_request(data: Seq<(Seq<char>, JsonView)>, m: FieldMapping) -> Seq<JsonView> {
    match m {
        FieldMapping::Complex { to: Some(_), sources: Some(srcs), .. } => present_values(data, texts(srcs@)),
        _ => seq![],
    }
}

fn insert_copy(row: &mut KeyedMap<JsonValue>, k: &String, v: &JsonValue)
    requires
        old(row).wf(),
    ensures
        final(row).wf(),
        views_of(final(row)@) == views_of(old(row)@).insert(k@, jview(*v)),
{
    let c = json_copy(v);
    row.insert(k.clone(), c);
    assert(views_of(row@) =~= views_of(old(row)@).insert(k@, jview(*v)));
}

fn insert_value(row: &mut KeyedMap<JsonValue>, k: &String, v: JsonValue)
    requires
        old(row).wf(),
    ensures
        final(row).wf(),
        views_of(final(row)@) == views_of(old(row)@).insert(k@, jview(v)),
{
    let ghost vv = v;
    row.insert(k.clone(), v);
    assert(views_of(row@) =~= views_of(old(row)@).insert(k@, jview(vv)));
}

/// Collects the sources of a list that the row has into `mapped`, and
/// says how many there were.
fn note_present(data: &Vec<(String, JsonValue)>, srcs: &Vec<String>, mapped: &mut Vec<String>) -> (r: usize)
    ensures
        texts(final(mapped)@) == texts(old(mapped)@) + present_sources(members_view(data@), texts(srcs@)),
        r == present_sources(members_view(data@), texts(srcs@)).len(),
{
    let ghost d = members_view(data@);
    let ghost m0 = texts(mapped@);
    let mut n: usize = 0;
    let mut i: usize = 0;
    assert(texts(srcs@).take(0) =~= Seq::<Seq<char>>::empty());
    assert(m0 + seq![] =~= m0);
    while i < srcs.len()
        invariant
            d == members_view(data@),
            i <= srcs@.len(),
            texts(mapped@) == m0 + present_sources(d, texts(srcs@).take(i as int)),
            n == present_sources(d, texts(srcs@).take(i as int)).len(),
            n <= i,
        decreases srcs@.len() - i,
    {
        let ghost t = texts(srcs@).take(i + 1);
        assert(t.drop_last() =~= texts(srcs@).take(i as int));
        assert(t.last() == srcs@[i as int]@);
        let ghost before = mapped@;
        if get_member(data, srcs[i].as_str()).is_some() {
            mapped.push(srcs[i].clone());
            n = n + 1;
            assert(texts(mapped@) =~= texts(before).push(srcs@[i as int]@));
        }
        i = i + 1;
    }
    assert(texts(srcs@).take(srcs@.len() as int) =~= texts(srcs@));
    n
}

/// Applies one mapping of source field `src` to the row being built.
fn apply_mapping(
    data: &Vec<(String, JsonValue)>,
    src: &String,
    m: &FieldMapping,
    pieces: &Vec<String>,
    row: &mut KeyedMap<JsonValue>,
    mapped: &mut Vec<String>,
)
    requires
        old(row).wf(),
    ensures
        final(row).wf(),
        map_step(
            members_view(data@),
            MapState { row: views_of(old(row)@), mapped: texts(old(mapped)@) },
            src@,
            *m,
            texts(pieces@),
        ) == (MapState { row: views_of(final(row)@), mapped: texts(final(mapped)@) }),
{
    let ghost m0 = texts(mapped@);
    match m {
        FieldMapping::Simple(target) => {
            match get_member(data, src.as_str()) {
                Some(v) => {
                    insert_copy(row, target, v);
                    mapped.push(src.clone());
                    assert(texts(mapped@) =~= m0.push(src@));
                },
                None => {},
            }
        },
        FieldMapping::Complex { to, default, sources, separator, path } => {
            match to {
                None => {},
                Some(target) => {
                    match sources {
                        Some(srcs) => {
                            let n = note_present(data, srcs, mapped);
                            if n > 0 {
                                let sep = match separator {
                                    Some(s) => s.clone(),
                                    None => ",".to_owned(),
                                };
                                let joined = join_strings(pieces, sep.as_str());
                                insert_value(row, target, JsonValue::String(joined));
                            }
                        },
                        None => {
                            match path {
                                Some(p) => {
                                    let found = match get_member(data, src.as_str()) {
                                        Some(b) => value_at_path(b, p.as_str()),
                                        None => None,
                                    };
                                    match found {
                                        Some(v) => {
                                            insert_copy(row, target, v);
                                            mapped.push(src.clone());
                                            assert(texts(mapped@) =~= m0.push(src@));
                                        },
                                        None => {},
                                    }
                                },
                                None => {
                                    match get_member(data, src.as_str()) {
                                        Some(v) => insert_copy(row, target, v),
                                        None => match default {
                                            Some(d) => insert_copy(row, target, d),
                                            None => insert_value(row, target, JsonValue::Null),
                                        },
                                    }
                                    mapped.push(src.clone());
                                    assert(texts(mapped@) =~= m0.push(src@));
                                },
                            }
                        },
                    }
                },
            }
        },
    }
}

/// Maps the fields of a row to the destination's schema.
#[derive(Debug)]
pub struct FieldMapper {
    pub config: MappingConfig,
}

/// The mapping of a table, if it has one.
pub open spec fn table_mapping(c: MappingConfig, table: Seq<char>) -> Option<TableMapping> {
    lookup_key(c.tables@, table)
}

impl FieldMapper {
    /// A mapper with a configuration.
    pub fn new(config: MappingConfig) -> (r: Self)
        ensures
            r.config == config,
    {
        FieldMapper { config }
    }

    /// The row with `mappings` applied in order, then the unmapped fields
    /// added as the strategy says; `rendered` holds, for each mapping, the
    /// texts of the values it joins.
    pub fn map_fields(
        &self,
        data: &Vec<(String, JsonValue)>,
        mappings: &Vec<(String, FieldMapping)>,
        rendered: &Vec<Vec<String>>,
    ) -> (r: Vec<(String, JsonValue)>)
        ensures
            unique_keys(r@),
            views_of(map_of(r@)) == mapped_row(
                members_view(data@),
                mappings@,
                rendered_texts(rendered@),
                self.config.unmapped_fields_strategy@,
                self.config.unmapped_fields_prefix,
            ),
    {
        let ghost d = members_view(data@);
        let ghost rt = rendered_texts(rendered@);
        let mut row: KeyedMap<JsonValue> = KeyedMap::new();
        let mut mapped: Vec<String> = Vec::new();
        let empty: Vec<String> = Vec::new();
        let mut i: usize = 0;
        assert(views_of(row@) =~= Map::<Seq<char>, JsonView>::empty());
        assert(texts(mapped@) =~= Seq::<Seq<char>>::empty());
        while i < mappings.len()
            invariant
                d == members_view(data@),
                rt == rendered_texts(rendered@),
                empty@.len() == 0,
                i <= mappings@.len(),
                row.wf(),
                (MapState { row: views_of(row@), mapped: texts(mapped@) }) == map_steps(d, mappings@, rt, i as nat),
            decreases mappings@.len() - i,
        {
            let pieces = if i < rendered.len() {
                &rendered[i]
            } else {
                &empty
            };
            assert(texts(pieces@) == pieces_at(rt, i as int)) by {
                if i >= rendered.len() {
                    assert(texts(empty@) =~= Seq::<Seq<char>>::empty());
                }
            }
            apply_mapping(data, &mappings[i].0, &mappings[i].1, pieces, &mut row, &mut mapped);
            i = i + 1;
        }
        let ghost st = map_steps(d, mappings@, rt, mappings@.len());
        let strategy = &self.config.unmapped_fields_strategy;
        proof {
            reveal_strlit("exclude");
            reveal_strlit("prefix");
        }
        if *strategy == "exclude".to_owned() {
            proof {
                row.lemma_entries();
            }
            return row.into_entries();
        }
        let prefixed = *strategy == "prefix".to_owned();
        let prefix = match &self.config.unmapped_fields_prefix {
            Some(p) => p.clone(),
            None => "_".to_owned(),
        };
        let ghost pre: Option<Seq<char>> = if prefixed {
            Some(prefix@)
        } else {
            None
        };
        let mut j: usize = 0;
        while j < data.len()
            invariant
                d == members_view(data@),
                st.mapped == texts(mapped@),
                j <= data@.len(),
                row.wf(),
                views_of(row@) == add_unmapped(d, st, pre, j as nat),
                pre == (if prefixed {
                    Some(prefix@)
                } else {
                    None::<Seq<char>>
                }),
            decreases data@.len() - j,
        {
            let k = &data[j].0;
            let used = texts_contain(&mapped, k);
            if prefixed {
                if !used {
                    let key = concat2(prefix.as_str(), k.as_str());
                    insert_copy(&mut row, &key, &data[j].1);
                }
            } else {
                if !used && !row.contains_key(k) {
                    insert_copy(&mut row, k, &data[j].1);
                }
            }
            j = j + 1;
        }
        proof {
            row.lemma_entries();
        }
        row.into_entries()
    }
    /// The values whose texts each mapping of the event's table joins, in
    /// the order of the mappings (see `join_request`); none when the table
    /// has no field mappings or the event carries no row.
    pub fn render_requests(&self, event: &Event) -> (r: Vec<Vec<JsonValue>>)
        ensures
            r@.len() == requests_of(self.config, *event).len(),
            forall|i: int| 0 <= i < r@.len() ==> #[trigger] crate::json::items_view(r@[i]@) == requests_of(
                self.config,
                *event,
            )[i],
    {
        let mut r: Vec<Vec<JsonValue>> = Vec::new();
        let (table, data) = match event {
            Event::Cdc(c) => (&c.table, &c.data),
            Event::FullSync { table, data } => match data {
                JsonValue::Object(ms) => {
                    proof {
                        lemma_jview_object(*ms);
                    }
                    (table, ms)
                },
                _ => {
                    return r;
                },
            },
            _ => {
                return r;
            },
        };
        let ghost d = members_view(data@);
        let fms = match find_key(&self.config.tables, table) {
            Some(i) => match &self.config.tables[i].1.fields {
                Some(fms) => fms,
                None => {
                    return r;
                },
            },
            None => {
                return r;
            },
        };
        let ghost want = Seq::new(fms@.len(), |i: int| join_request(d, fms@[i].1));
        assert(requests_of(self.config, *event) == want);
        let mut i: usize = 0;
        while i < fms.len()
            invariant
                d == members_view(data@),
                want == Seq::new(fms@.len(), |i: int| join_request(d, fms@[i].1)),
                i <= fms@.len(),
                r@.len() == i,
                forall|j: int| 0 <= j < i ==> #[trigger] crate::json::items_view(r@[j]@) == want[j],
            decreases fms@.len() - i,
        {
            let values = match &fms[i].1 {
                FieldMapping::Complex { to: Some(_), sources: Some(srcs), .. } => present_copies(data, srcs),
                _ => {
                    let v: Vec<JsonValue> = Vec::new();
                    assert(crate::json::items_view(v@) =~= Seq::<JsonView>::empty());
                    v
                },
            };
            r.push(values);
            i = i + 1;
        }
        r
    }

    /// Maps an event: a change or a full-sync row of a table that has a
    /// mapping gets the table's new name, if any, and its row mapped by
    /// `map_fields`, if it has field mappings (a full-sync row only when it
    /// is an object); other events pass unchanged. `rendered` holds the
    /// texts of the values that `render_requests` listed. This never fails.
    pub fn map_event(&self, event: Event, rendered: &Vec<Vec<String>>) -> (r: Result<Event, MeiliBridgeError>)
        ensures
            r matches Ok(e) && mapped_event(self.config, event, rendered_texts(rendered@), e),
    {
        match event {
            Event::Cdc(c) => {
                let mut c = c;
                match find_key(&self.config.tables, &c.table) {
                    Some(i) => {
                        let tm = &self.config.tables[i].1;
                        match &tm.fields {
                            Some(fms) => {
                                c.data = self.map_fields(&c.data, fms, rendered);
                            },
                            None => {},
                        }
                        match &tm.name {
                            Some(n) => {
                                c.table = n.clone();
                            },
                            None => {},
                        }
                    },
                    None => {},
                }
                Ok(Event::Cdc(c))
            },
            Event::FullSync { table, data } => {
                match find_key(&self.config.tables, &table) {
                    Some(i) => {
                        let tm = &self.config.tables[i].1;
                        let new_data = match (&tm.fields, data) {
                            (Some(fms), JsonValue::Object(ms)) => {
                                proof {
                                    lemma_jview_object(ms);
                                }
                                JsonValue::Object(self.map_fields(&ms, fms, rendered))
                            },
                            (_, d) => d,
                        };
                        let new_table = match &tm.name {
                            Some(n) => n.clone(),
                            None => table,
                        };
                        Ok(Event::FullSync { table: new_table, data: new_data })
                    },
                    None => Ok(Event::FullSync { table, data }),
                }
            },
            other => Ok(other),
        }
    }
}

/// Copies of the values of the sources of a list that the row has.
fn present_copies(data: &Vec<(String, JsonValue)>, srcs: &Vec<String>) -> (r: Vec<JsonValue>)
    ensures
        crate::json::items_view(r@) == present_values(members_view(data@), texts(srcs@)),
{
    let ghost d = members_view(data@);
    let mut r: Vec<JsonValue> = Vec::new();
    let mut i: usize = 0;
    assert(texts(srcs@).take(0) =~= Seq::<Seq<char>>::empty());
    assert(crate::json::items_view(r@) =~= Seq::<JsonView>::empty());
    while i < srcs.len()
        invariant
            d == members_view(data@),
            i <= srcs@.len(),
            crate::json::items_view(r@) == present_values(d, texts(srcs@).take(i as int)),
        decreases srcs@.len() - i,
    {
        let ghost t = texts(srcs@).take(i + 1);
        assert(t.drop_last() =~= texts(srcs@).take(i as int));
        assert(t.last() == srcs@[i as int]@);
        let ghost before = r@;
        match get_member(data, srcs[i].as_str()) {
            Some(v) => {
                r.push(json_copy(v));
                assert(crate::json::items_view(r@) =~= crate::json::items_view(before).push(jview(*v)));
            },
            None => {},
        }
        i = i + 1;
    }
    assert(texts(srcs@).take(srcs@.len() as int) =~= texts(srcs@));
    r
}

/// The values each mapping of the event's table joins.
pub open spec fn requests_of(c: MappingConfig, e: Event) -> Seq<Seq<JsonView>> {
    let row: Option<(Seq<char>, Seq<(Seq<char>, JsonView)>)> = match e {
        Event::Cdc(cdc) => Some((cdc.table@, members_view(cdc.data@))),
        Event::FullSync { table, data } => match jview(data) {
            JsonView::Object(ms) => Some((table@, ms)),
            _ => None,
        },
        _ => None,
    };
    match row {
        Some((t, d)) => match table_mapping(c, t) {
            Some(tm) => match tm.fields {
                Some(fms) => Seq::new(fms@.len(), |i: int| join_request(d, fms@[i].1)),
                None => seq![],
            },
            None => seq![],
        },
        None => seq![],
    }
}

/// A row after mapping: keys once each, the fields as `mapped_row` says.
pub open spec fn row_mapped(
    c: MappingConfig,
    before: Seq<(String, JsonValue)>,
    fms: Seq<(String, FieldMapping)>,
    rendered: Seq<Seq<Seq<char>>>,
    after: Seq<(String, JsonValue)>,
) -> bool {
    &&& unique_keys(after)
    &&& views_of(map_of(after)) == mapped_row(
        members_view(before),
        fms,
        rendered,
        c.unmapped_fields_strategy@,
        c.unmapped_fields_prefix,
    )
}

/// Event `after` is event `before` mapped by configuration `c`.
pub open spec fn mapped_event(c: MappingConfig, before: Event, rendered: Seq<Seq<Seq<char>>>, after: Event) -> bool {
    match before {
        Event::Cdc(b) => after matches Event::Cdc(a) && match table_mapping(c, b.table@) {
            None => a == b,
            Some(tm) => {
                &&& a.table == (match tm.name {
                    Some(n) => n,
                    None => b.table,
                })
                &&& a.event_type == b.event_type
                &&& a.schema == b.schema
                &&& a.timestamp == b.timestamp
                &&& a.position == b.position
                &&& match tm.fields {
                    Some(fms) => row_mapped(c, b.data@, fms@, rendered, a.data@),
                    None => a.data == b.data,
                }
            },
        },
        Event::FullSync { table, data } => after matches Event::FullSync { table: t2, data: d2 } && match table_mapping(
            c,
            table@,
        ) {
            None => t2 == table && d2 == data,
            Some(tm) => {
                &&& t2 == (match tm.name {
                    Some(n) => n,
                    None => table,
                })
                &&& match (tm.fields, data) {
                    (Some(fms), JsonValue::Object(ms)) => d2 matches JsonValue::Object(ms2) && row_mapped(
                        c,
                        ms@,
                        fms@,
                        rendered,
                        ms2@,
                    ),
                    _ => d2 == data,
                }
            },
        },
        _ => after == before,
    }
}

} // verus!
