//! Which events go on through the pipeline.

use vstd::prelude::*;
use crate::config::pipeline::{Condition, FilterConfig, TableFilter};
use crate::error::MeiliBridgeError;
use crate::json::{get_member, JsonNumber, items_view, jeq, json_equal, jview, lookup, members_view, JsonValue, JsonView};
use crate::models::event::{CdcEvent, EventType};
use crate::models::stream_event::Event;
use crate::numbers::{number_greater, number_gt};
use crate::text::{contains_str, seq_contains, texts, texts_contain};

verus! {

/// Whether a table passes the white- and blacklists.
pub open spec fn table_allowed(t: TableFilter, table: Seq<char>) -> bool {
    &&& (t.whitelist matches Some(w) ==> texts(w@).contains(table))
    &&& (t.blacklist matches Some(b) ==> !texts(b@).contains(table))
}

/// Whether a configured event type names a kind of change.
pub open spec fn names_event_type(name: Seq<char>, et: EventType) -> bool {
    ||| name == "create"@ && et == EventType::Create
    ||| name == "update"@ && et == EventType::Update
    ||| name == "delete"@ && et == EventType::Delete
}

/// Whether a kind of change passes the event type list.
pub open spec fn event_type_allowed(types: Option<Vec<String>>, et: EventType) -> bool {
    match types {
        Some(v) => exists|i: int| 0 <= i < v@.len() && names_event_type(#[trigger] v@[i]@, et),
        None => true,
    }
}

/// Whether a condition holds of a row (given member by member).
pub open spec fn holds(c: Condition, row: Seq<(Seq<char>, JsonView)>) -> bool
    decreases c, 1nat,
{
    match c {
        Condition::Equals { field, value } => match lookup(row, field@) {
            Some(v) => jeq(v, jview(value)),
            None => false,
        },
        Condition::NotEquals { field, value } => !(match lookup(row, field@) {
            Some(v) => jeq(v, jview(value)),
            None => false,
        }),
        Condition::Contains { field, value } => match (lookup(row, field@), jview(value)) {
            (Some(JsonView::String(s)), JsonView::String(p)) => seq_contains(s, p),
            _ => false,
        },
        Condition::GreaterThan { field, value } => match (lookup(row, field@), jview(value)) {
            (Some(JsonView::Number(a)), JsonView::Number(b)) => number_gt(a, b),
            _ => false,
        },
        Condition::LessThan { field, value } => match (lookup(row, field@), jview(value)) {
            (Some(JsonView::Number(a)), JsonView::Number(b)) => number_gt(b, a),
            _ => false,
        },
        Condition::In { field, values } => match lookup(row, field@) {
            Some(v) => exists|i: int| 0 <= i < values@.len() && jeq(#[trigger] items_view(values@)[i], v),
            None => false,
        },
        Condition::IsNull { field } => match lookup(row, field@) {
            Some(v) => v is Null,
            None => true,
        },
        Condition::IsNotNull { field } => match lookup(row, field@) {
            Some(v) => !(v is Null),
            None => false,
        },
        Condition::And { conditions } => all_hold(conditions@, row),
        Condition::Or { conditions } => any_holds(conditions@, row),
    }
}

/// Whether every condition of a list holds.
pub open spec fn all_hold(cs: Seq<Condition>, row: Seq<(Seq<char>, JsonView)>) -> bool
    decreases cs, 0nat,
{
    if cs.len() == 0 {
        true
    } else {
        all_hold(cs.drop_last(), row) && holds(cs.last(), row)
    }
}

/// Whether some condition of a list holds.
pub open spec fn any_holds(cs: Seq<Condition>, row: Seq<(Seq<char>, JsonView)>) -> bool
    decreases cs, 0nat,
{
    if cs.len() == 0 {
        false
    } else {
        any_holds(cs.drop_last(), row) || holds(cs.last(), row)
    }
}

/// Whether a row passes the configured conditions.
pub open spec fn row_passes(conditions: Option<Vec<Condition>>, row: Seq<(Seq<char>, JsonView)>) -> bool {
    match conditions {
        Some(cs) => all_hold(cs@, row),
        None => true,
    }
}

/// Whether a row given as a JSON value passes: only objects are tested.
pub open spec fn value_passes(conditions: Option<Vec<Condition>>, v: JsonView) -> bool {
    match v {
        JsonView::Object(ms) => row_passes(conditions, ms),
        _ => true,
    }
}

/// Whether an event goes on: by table, kind of change and conditions on
/// its row; checkpoints and heartbeats always go on.
pub open spec fn passes(c: FilterConfig, e: Event) -> bool {
    match e {
        Event::Cdc(cdc) => table_allowed(c.tables, cdc.table@) && event_type_allowed(c.event_types, cdc.event_type)
            && row_passes(c.conditions, members_view(cdc.data@)),
        Event::FullSync { table, data } => table_allowed(c.tables, table@) && value_passes(c.conditions, jview(data)),
        Event::Insert { table, new_data, .. } => table_allowed(c.tables, table@) && event_type_allowed(
            c.event_types,
            EventType::Create,
        ) && value_passes(c.conditions, jview(new_data)),
        Event::Update { table, new_data, .. } => table_allowed(c.tables, table@) && event_type_allowed(
            c.event_types,
            EventType::Update,
        ) && value_passes(c.conditions, jview(new_data)),
        Event::Delete { table, old_data, .. } => table_allowed(c.tables, table@) && event_type_allowed(
            c.event_types,
            EventType::Delete,
        ) && value_passes(c.conditions, jview(old_data)),
        Event::Checkpoint(_) => true,
        Event::Heartbeat => true,
    }
}

fn names_any(v: &Vec<String>, et: EventType) -> (r: bool)
    ensures
        r == exists|i: int| 0 <= i < v@.len() && names_event_type(#[trigger] v@[i]@, et),
{
    let mut i: usize = 0;
    while i < v.len()
        invariant
            i <= v@.len(),
            forall|j: int| 0 <= j < i ==> !names_event_type(#[trigger] v@[j]@, et),
        decreases v@.len() - i,
    {
        let s = &v[i];
        let hit = (text_is(s, "create") && et == EventType::Create) || (text_is(s, "update") && et == EventType::Update)
            || (text_is(s, "delete") && et == EventType::Delete);
        if hit {
            assert(names_event_type(v@[i as int]@, et));
            return true;
        }
        i = i + 1;
    }
    false
}

fn text_is(s: &String, lit: &str) -> (r: bool)
    ensures
        r == (s@ == lit@),
{
    *s == lit.to_owned()
}

fn in_values(values: &Vec<JsonValue>, v: &JsonValue) -> (r: bool)
    ensures
        r == exists|i: int| 0 <= i < values@.len() && jeq(#[trigger] items_view(values@)[i], jview(*v)),
{
    let mut i: usize = 0;
    while i < values.len()
        invariant
            i <= values@.len(),
            forall|j: int| 0 <= j < i ==> !jeq(#[trigger] items_view(values@)[j], jview(*v)),
        decreases values@.len() - i,
    {
        if json_equal(&values[i], v) {
            assert(jeq(items_view(values@)[i as int], jview(*v)));
            return true;
        }
        i = i + 1;
    }
    false
}

fn list_all_hold(cs: &Vec<Condition>, row: &Vec<(String, JsonValue)>) -> (r: bool)
    ensures
        r == all_hold(cs@, members_view(row@)),
    decreases cs, 0nat,
{
    let mut i: usize = 0;
    while i < cs.len()
        invariant
            i <= cs@.len(),
            all_hold(cs@.take(i as int), members_view(row@)),
        decreases cs@.len() - i,
    {
        proof {
            assert(decreases_to!(*cs => cs@));
            assert(decreases_to!(cs@ => cs@[i as int]));
            assert(cs@.take(i + 1).drop_last() =~= cs@.take(i as int));
        }
        if !evaluate_condition(&cs[i], row) {
            proof {
                lemma_all_hold_prefix(cs@, members_view(row@), i as int);
            }
            return false;
        }
        i = i + 1;
    }
    assert(cs@.take(cs@.len() as int) =~= cs@);
    true
}

proof fn lemma_all_hold_prefix(cs: Seq<Condition>, row: Seq<(Seq<char>, JsonView)>, i: int)
    requires
        0 <= i < cs.len(),
        !holds(cs[i], row),
    ensures
        !all_hold(cs, row),
    decreases cs.len(),
{
    if i < cs.len() - 1 {
        assert(cs.drop_last()[i] == cs[i]);
        lemma_all_hold_prefix(cs.drop_last(), row, i);
    }
}

proof fn lemma_any_holds_prefix(cs: Seq<Condition>, row: Seq<(Seq<char>, JsonView)>, i: int)
    requires
        0 <= i < cs.len(),
        holds(cs[i], row),
    ensures
        any_holds(cs, row),
    decreases cs.len(),
{
    if i < cs.len() - 1 {
        assert(cs.drop_last()[i] == cs[i]);
        lemma_any_holds_prefix(cs.drop_last(), row, i);
    }
}

fn list_any_holds(cs: &Vec<Condition>, row: &Vec<(String, JsonValue)>) -> (r: bool)
    ensures
        r == any_holds(cs@, members_view(row@)),
    decreases cs, 0nat,
{
    let mut i: usize = 0;
    while i < cs.len()
        invariant
            i <= cs@.len(),
            !any_holds(cs@.take(i as int), members_view(row@)),
        decreases cs@.len() - i,
    {
        proof {
            assert(decreases_to!(*cs => cs@));
            assert(decreases_to!(cs@ => cs@[i as int]));
            assert(cs@.take(i + 1).drop_last() =~= cs@.take(i as int));
        }
        if evaluate_condition(&cs[i], row) {
            proof {
                lemma_any_holds_prefix(cs@, members_view(row@), i as int);
            }
            return true;
        }
        i = i + 1;
    }
    assert(cs@.take(cs@.len() as int) =~= cs@);
    false
}

/// Whether a condition holds of a row.
fn evaluate_condition(condition: &Condition, row: &Vec<(String, JsonValue)>) -> (r: bool)
    ensures
        r == holds(*condition, members_view(row@)),
    decreases condition, 1nat,
{
    match condition {
        Condition::Equals { field, value } => match get_member(row, field.as_str()) {
            Some(v) => json_equal(v, value),
            None => false,
        },
        Condition::NotEquals { field, value } => match get_member(row, field.as_str()) {
            Some(v) => !json_equal(v, value),
            None => true,
        },
        Condition::Contains { field, value } => match (get_member(row, field.as_str()), value) {
            (Some(JsonValue::String(s)), JsonValue::String(p)) => contains_str(s.as_str(), p.as_str()),
            _ => false,
        },
        Condition::GreaterThan { field, value } => match (get_member(row, field.as_str()), value) {
            (Some(JsonValue::Number(a)), JsonValue::Number(b)) => number_greater(*a, *b),
            _ => false,
        },
        Condition::LessThan { field, value } => match (get_member(row, field.as_str()), value) {
            (Some(JsonValue::Number(a)), JsonValue::Number(b)) => number_greater(*b, *a),
            _ => false,
        },
        Condition::In { field, values } => match get_member(row, field.as_str()) {
            Some(v) => in_values(values, v),
            None => false,
        },
        Condition::IsNull { field } => match get_member(row, field.as_str()) {
            Some(v) => match v {
                JsonValue::Null => true,
                _ => false,
            },
            None => true,
        },
        Condition::IsNotNull { field } => match get_member(row, field.as_str()) {
            Some(v) => match v {
                JsonValue::Null => false,
                _ => true,
            },
            None => false,
        },
        Condition::And { conditions } => {
            proof {
                assert(decreases_to!(*condition => *conditions));
            }
            list_all_hold(conditions, row)
        },
        Condition::Or { conditions } => {
            proof {
                assert(decreases_to!(*condition => *conditions));
            }
            list_any_holds(conditions, row)
        },
    }
}

/// Decides which events go on through the pipeline.
pub struct EventFilter {
    config: FilterConfig,
}

impl EventFilter {
    /// The rules.
    pub closed spec fn rules(&self) -> FilterConfig {
        self.config
    }

    /// A filter with the given rules.
    pub fn new(config: FilterConfig) -> (r: Self)
        ensures
            r.rules() == config,
    {
        EventFilter { config }
    }

    fn is_table_allowed(&self, table: &String) -> (r: bool)
        ensures
            r == table_allowed(self.config.tables, table@),
    {
        match &self.config.tables.whitelist {
            Some(w) => {
                if !texts_contain(w, table) {
                    return false;
                }
            },
            None => {},
        }
        match &self.config.tables.blacklist {
            Some(b) => {
                if texts_contain(b, table) {
                    return false;
                }
            },
            None => {},
        }
        true
    }

    fn is_event_type_allowed(&self, et: EventType) -> (r: bool)
        ensures
            r == event_type_allowed(self.config.event_types, et),
    {
        match &self.config.event_types {
            Some(v) => names_any(v, et),
            None => true,
        }
    }

    fn check_conditions(&self, row: &Vec<(String, JsonValue)>) -> (r: bool)
        ensures
            r == row_passes(self.config.conditions, members_view(row@)),
    {
        match &self.config.conditions {
            Some(cs) => list_all_hold(cs, row),
            None => true,
        }
    }

    fn check_value(&self, v: &JsonValue) -> (r: bool)
        ensures
            r == value_passes(self.config.conditions, jview(*v)),
    {
        match v {
            JsonValue::Object(ms) => {
                proof {
                    crate::json::lemma_jview_object(*ms);
                }
                self.check_conditions(ms)
            },
            _ => true,
        }
    }

    /// Whether an event goes on through the pipeline; it never fails.
    pub fn should_process(&self, event: &Event) -> (r: Result<bool, MeiliBridgeError>)
        ensures
            r == Ok::<bool, MeiliBridgeError>(passes(self.rules(), *event)),
    {
        let b = match event {
            Event::Cdc(cdc) => self.is_table_allowed(&cdc.table) && self.is_event_type_allowed(cdc.event_type)
                && self.check_conditions(&cdc.data),
            Event::FullSync { table, data } => self.is_table_allowed(table) && self.check_value(data),
            Event::Insert { table, new_data, .. } => self.is_table_allowed(table) && self.is_event_type_allowed(
                EventType::Create,
            ) && self.check_value(new_data),
            Event::Update { table, new_data, .. } => self.is_table_allowed(table) && self.is_event_type_allowed(
                EventType::Update,
            ) && self.check_value(new_data),
            Event::Delete { table, old_data, .. } => self.is_table_allowed(table) && self.is_event_type_allowed(
                EventType::Delete,
            ) && self.check_value(old_data),
            Event::Checkpoint(_) => true,
            Event::Heartbeat => true,
        };
        Ok(b)
    }
}

/// A less-than condition holds of a row exactly when the row's field is a
/// number strictly smaller than the condition's number; a greater-than
/// condition exactly when it is strictly larger; so no row meets both.
pub proof fn law_less_than_keeps_smaller(field: String, value: JsonValue, row: Seq<(Seq<char>, JsonView)>)
    ensures
        holds(Condition::LessThan { field, value }, row) <==> (lookup(row, field@) matches Some(JsonView::Number(a))
            && (jview(value) matches JsonView::Number(b) && number_gt(b, a))),
        holds(Condition::GreaterThan { field, value }, row) <==> (lookup(row, field@) matches Some(JsonView::Number(a))
            && (jview(value) matches JsonView::Number(b) && number_gt(a, b))),
        !(holds(Condition::LessThan { field, value }, row) && holds(Condition::GreaterThan { field, value }, row)),
{
}

/// With no table or event type lists and a single less-than condition, a
/// change event whose field is the number `a`, against the number `b`, goes
/// on exactly when `a` is strictly smaller than `b`.
pub proof fn law_filter_keeps_rows_below_the_limit(
    c: FilterConfig,
    e: CdcEvent,
    field: String,
    value: JsonValue,
    a: JsonNumber,
    b: JsonNumber,
)
    requires
        c.tables.whitelist is None,
        c.tables.blacklist is None,
        c.event_types is None,
        c.conditions matches Some(cs) && cs@ == seq![Condition::LessThan { field, value }],
        lookup(members_view(e.data@), field@) == Some(JsonView::Number(a)),
        jview(value) == JsonView::Number(b),
    ensures
        passes(c, Event::Cdc(e)) <==> number_gt(b, a),
        number_gt(b, a) ==> !number_gt(a, b),
{
    let cs = c.conditions->0@;
    let row = members_view(e.data@);
    assert(cs.drop_last() =~= Seq::<Condition>::empty());
    assert(all_hold(cs.drop_last(), row));
    assert(cs.last() == Condition::LessThan { field, value });
    assert(all_hold(cs, row) == holds(cs.last(), row));
}

} // verus!
