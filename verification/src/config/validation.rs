//! Checks of a whole configuration that give errors, warnings and notes.

use vstd::prelude::*;
use crate::config::app::Config;
use crate::config::meilisearch::MeilisearchConfig;
use crate::config::pipeline::{Condition, FieldMapping, FieldTransform};
use crate::config::source::{NamedSourceConfig, PostgreSQLConfig, SourceConfig};
use crate::config::sync_task::SyncTaskConfig;
use crate::error::MeiliBridgeError;
use crate::text::{
    append_str, decimal, distinct_into, distinct_texts, find_key, join, join_strings, lookup_key,
    set_debug, set_debug_text, texts, texts_contain, u64_to_string,
};

verus! {

// ---------------------------------------------------------------------------
// Lists of messages
// ---------------------------------------------------------------------------

/// `[m]` when `c` holds, else nothing.
pub open spec fn only_if(c: bool, m: Seq<char>) -> Seq<Seq<char>> {
    if c {
        seq![m]
    } else {
        Seq::empty()
    }
}

/// The lists of a validation report.
pub struct ReportView {
    pub errors: Seq<Seq<char>>,
    pub warnings: Seq<Seq<char>>,
    pub info: Seq<Seq<char>>,
}

fn push_text(list: &mut Vec<String>, m: String)
    ensures
        texts(final(list)@) == texts(old(list)@).push(m@),
{
    list.push(m);
    assert(texts(list@) =~= texts(old(list)@).push(m@));
}

fn append_texts(list: &mut Vec<String>, more: Vec<String>)
    ensures
        texts(final(list)@) == texts(old(list)@) + texts(more@),
{
    let mut more = more;
    let ghost m = texts(more@);
    list.append(&mut more);
    assert(texts(list@) =~= texts(old(list)@) + m);
}

fn when_text(c: bool, m: String) -> (r: Vec<String>)
    ensures
        texts(r@) == only_if(c, m@),
{
    let mut r: Vec<String> = Vec::new();
    if c {
        r.push(m);
        assert(texts(r@) =~= seq![m@]);
    } else {
        assert(texts(r@) =~= Seq::<Seq<char>>::empty());
    }
    r
}

// ---------------------------------------------------------------------------
// The report
// ---------------------------------------------------------------------------

/// Errors, warnings and notes found in a configuration.
#[derive(Debug)]
pub struct ValidationReport {
    pub errors: Vec<String>,
    pub warnings: Vec<String>,
    pub info: Vec<String>,
}

impl View for ValidationReport {
    type V = ReportView;

    open spec fn view(&self) -> ReportView {
        ReportView { errors: texts(self.errors@), warnings: texts(self.warnings@), info: texts(self.info@) }
    }
}

/// The level a line of a printed report is logged at.
#[derive(Debug, Clone, Copy, PartialEq, Eq, Structural)]
pub enum ReportLevel {
    Warn,
    Info,
}

/// A section of a printed report: a header, then each item behind a marker;
/// nothing at all when there are no items.
pub open spec fn report_section(
    level: ReportLevel,
    header: Seq<char>,
    marker: Seq<char>,
    items: Seq<Seq<char>>,
) -> Seq<(ReportLevel, Seq<char>)> {
    if items.len() == 0 {
        Seq::empty()
    } else {
        seq![(level, header)] + items.map_values(|x: Seq<char>| (level, marker + x))
    }
}

/// The lines of a printed report, each with its level.
pub open spec fn report_lines(r: ReportView) -> Seq<(ReportLevel, Seq<char>)> {
    report_section(ReportLevel::Warn, "Configuration validation errors:"@, "  \u{274C} "@, r.errors)
        + report_section(ReportLevel::Warn, "Configuration warnings:"@, "  \u{26A0}\u{FE0F}  "@, r.warnings)
        + report_section(ReportLevel::Info, "Configuration info:"@, "  \u{2139}\u{FE0F}  "@, r.info)
        + (if r.errors.len() == 0 {
        seq![(ReportLevel::Info, "\u{2705} Configuration validation passed"@)]
    } else {
        Seq::empty()
    })
}

fn section_lines(
    lines: &mut Vec<(ReportLevel, String)>,
    level: ReportLevel,
    header: &str,
    marker: &str,
    items: &Vec<String>,
)
    ensures
        final(lines)@.map_values(|l: (ReportLevel, String)| (l.0, l.1@)) == old(lines)@.map_values(
            |l: (ReportLevel, String)| (l.0, l.1@),
        ) + report_section(level, header@, marker@, texts(items@)),
{
    let ghost start = old(lines)@.map_values(|l: (ReportLevel, String)| (l.0, l.1@));
    if items.len() == 0 {
        assert(lines@.map_values(|l: (ReportLevel, String)| (l.0, l.1@)) =~= start + Seq::empty());
        return;
    }
    lines.push((level, header.to_owned()));
    let ghost all = texts(items@).map_values(|x: Seq<char>| (level, marker@ + x));
    let mut i: usize = 0;
    while i < items.len()
        invariant
            i <= items@.len(),
            lines@.map_values(|l: (ReportLevel, String)| (l.0, l.1@)) == start + seq![(level, header@)]
                + all.take(i as int),
            all == texts(items@).map_values(|x: Seq<char>| (level, marker@ + x)),
        decreases items@.len() - i,
    {
        let mut line = marker.to_owned();
        append_str(&mut line, items[i].as_str());
        let ghost before = lines@.map_values(|l: (ReportLevel, String)| (l.0, l.1@));
        lines.push((level, line));
        assert(lines@.map_values(|l: (ReportLevel, String)| (l.0, l.1@)) =~= before.push(
            (level, marker@ + items@[i as int]@),
        ));
        assert(all.take(i + 1) =~= all.take(i as int).push((level, marker@ + items@[i as int]@)));
        i = i + 1;
    }
    assert(all.take(items@.len() as int) =~= all);
    assert(seq![(level, header@)] + all =~= report_section(level, header@, marker@, texts(items@)));
}

impl ValidationReport {
    /// An empty report.
    pub fn new() -> (r: Self)
        ensures
            r@.errors.len() == 0,
            r@.warnings.len() == 0,
            r@.info.len() == 0,
    {
        ValidationReport { errors: Vec::new(), warnings: Vec::new(), info: Vec::new() }
    }

    /// Whether the configuration is valid: there are no errors.
    pub fn is_valid(&self) -> (r: bool)
        ensures
            r == (self@.errors.len() == 0),
    {
        self.errors.len() == 0
    }

    /// The lines that printing the report writes to the log, each with its
    /// level: errors and warnings as warnings, notes as information, and a
    /// closing line when there are no errors.
    pub fn print(&self) -> (r: Vec<(ReportLevel, String)>)
        ensures
            r@.map_values(|l: (ReportLevel, String)| (l.0, l.1@)) == report_lines(self@),
    {
        let mut lines: Vec<(ReportLevel, String)> = Vec::new();
        assert(lines@.map_values(|l: (ReportLevel, String)| (l.0, l.1@)) =~= Seq::empty());
        section_lines(&mut lines, ReportLevel::Warn, "Configuration validation errors:", "  \u{274C} ", &self.errors);
        section_lines(&mut lines, ReportLevel::Warn, "Configuration warnings:", "  \u{26A0}\u{FE0F}  ", &self.warnings);
        section_lines(&mut lines, ReportLevel::Info, "Configuration info:", "  \u{2139}\u{FE0F}  ", &self.info);
        let ghost before = lines@.map_values(|l: (ReportLevel, String)| (l.0, l.1@));
        if self.is_valid() {
            lines.push((ReportLevel::Info, "\u{2705} Configuration validation passed".to_owned()));
            assert(lines@.map_values(|l: (ReportLevel, String)| (l.0, l.1@)) =~= before + seq![
                (ReportLevel::Info, "\u{2705} Configuration validation passed"@),
            ]);
        } else {
            assert(before + Seq::<(ReportLevel, Seq<char>)>::empty() =~= before);
        }
        lines
    }
}

} // verus!

verus! {

// ---------------------------------------------------------------------------
// Fields named in filter conditions
// ---------------------------------------------------------------------------

/// The field names a condition tests, in order, with repeats.
pub open spec fn condition_fields(c: Condition) -> Seq<Seq<char>>
    decreases c, 1nat,
{
    match c {
        Condition::Equals { field, .. } => seq![field@],
        Condition::NotEquals { field, .. } => seq![field@],
        Condition::Contains { field, .. } => seq![field@],
        Condition::GreaterThan { field, .. } => seq![field@],
        Condition::LessThan { field, .. } => seq![field@],
        Condition::In { field, .. } => seq![field@],
        Condition::IsNull { field } => seq![field@],
        Condition::IsNotNull { field } => seq![field@],
        Condition::And { conditions } => conditions_fields(conditions@),
        Condition::Or { conditions } => conditions_fields(conditions@),
    }
}

/// The field names a list of conditions tests, in order, with repeats.
pub open spec fn conditions_fields(cs: Seq<Condition>) -> Seq<Seq<char>>
    decreases cs, 0nat,
{
    if cs.len() == 0 {
        Seq::empty()
    } else {
        conditions_fields(cs.drop_last()) + condition_fields(cs.last())
    }
}

fn collect_list_fields(cs: &Vec<Condition>, fields: &mut Vec<String>)
    ensures
        texts(final(fields)@) == texts(old(fields)@) + conditions_fields(cs@),
    decreases cs, 0nat,
{
    let ghost start = texts(fields@);
    let mut j: usize = 0;
    while j < cs.len()
        invariant
            j <= cs@.len(),
            texts(fields@) == start + conditions_fields(cs@.take(j as int)),
        decreases cs@.len() - j,
    {
        proof {
            assert(decreases_to!(*cs => cs@));
            assert(decreases_to!(cs@ => cs@[j as int]));
            assert(cs@.take(j + 1).drop_last() =~= cs@.take(j as int));
            assert(cs@.take(j + 1).last() == cs@[j as int]);
        }
        collect_fields_from_condition(&cs[j], fields);
        assert(start + conditions_fields(cs@.take(j as int)) + condition_fields(cs@[j as int]) =~= start
            + conditions_fields(cs@.take(j + 1)));
        j = j + 1;
    }
    assert(cs@.take(cs@.len() as int) =~= cs@);
}

/// Appends the field names a condition tests, in order.
fn collect_fields_from_condition(condition: &Condition, fields: &mut Vec<String>)
    ensures
        texts(final(fields)@) == texts(old(fields)@) + condition_fields(*condition),
    decreases condition, 1nat,
{
    match condition {
        Condition::Equals { field, .. } => {
            let ghost before = texts(fields@);
            fields.push(field.clone());
            assert(texts(fields@) =~= before + seq![field@]);
        },
        Condition::NotEquals { field, .. } => {
            let ghost before = texts(fields@);
            fields.push(field.clone());
            assert(texts(fields@) =~= before + seq![field@]);
        },
        Condition::Contains { field, .. } => {
            let ghost before = texts(fields@);
            fields.push(field.clone());
            assert(texts(fields@) =~= before + seq![field@]);
        },
        Condition::GreaterThan { field, .. } => {
            let ghost before = texts(fields@);
            fields.push(field.clone());
            assert(texts(fields@) =~= before + seq![field@]);
        },
        Condition::LessThan { field, .. } => {
            let ghost before = texts(fields@);
            fields.push(field.clone());
            assert(texts(fields@) =~= before + seq![field@]);
        },
        Condition::In { field, .. } => {
            let ghost before = texts(fields@);
            fields.push(field.clone());
            assert(texts(fields@) =~= before + seq![field@]);
        },
        Condition::IsNull { field } => {
            let ghost before = texts(fields@);
            fields.push(field.clone());
            assert(texts(fields@) =~= before + seq![field@]);
        },
        Condition::IsNotNull { field } => {
            let ghost before = texts(fields@);
            fields.push(field.clone());
            assert(texts(fields@) =~= before + seq![field@]);
        },
        Condition::And { conditions } => {
            proof {
                assert(decreases_to!(*condition => *conditions));
            }
            collect_list_fields(conditions, fields);
        },
        Condition::Or { conditions } => {
            proof {
                assert(decreases_to!(*condition => *conditions));
            }
            collect_list_fields(conditions, fields);
        },
    }
}

/// The distinct field names a list of conditions tests, in order of first
/// mention.
pub open spec fn referenced_fields(cs: Seq<Condition>) -> Seq<Seq<char>> {
    distinct_into(Seq::empty(), conditions_fields(cs))
}

/// The distinct field names the conditions test.
pub fn fields_of_conditions(cs: &Vec<Condition>) -> (r: Vec<String>)
    ensures
        texts(r@) == referenced_fields(cs@),
{
    let mut all: Vec<String> = Vec::new();
    collect_list_fields(cs, &mut all);
    assert(texts(all@) =~= conditions_fields(cs@));
    distinct_texts(&all)
}

} // verus!

verus! {

// ---------------------------------------------------------------------------
// Sync tasks
// ---------------------------------------------------------------------------

/// Whether a task syncs only changes, with no full sync at start.
pub open spec fn cdc_only(t: SyncTaskConfig) -> bool {
    t.full_sync_on_start != Some(true)
}

/// Whether an earlier task syncs the same table as task `i`.
pub open spec fn table_seen(tasks: Seq<SyncTaskConfig>, i: int) -> bool {
    exists|j: int| 0 <= j < i && #[trigger] tasks[j].table@ == tasks[i].table@
}

/// Whether an earlier task writes to the same index as task `i`.
pub open spec fn index_seen(tasks: Seq<SyncTaskConfig>, i: int) -> bool {
    exists|j: int| 0 <= j < i && #[trigger] tasks[j].index@ == tasks[i].index@
}

pub open spec fn duplicate_table_text(table: Seq<char>) -> Seq<char> {
    "Duplicate sync task for table '"@ + table + "'. Only one sync task per table is allowed."@
}

pub open spec fn duplicate_index_text(index: Seq<char>) -> Seq<char> {
    "Multiple tables syncing to the same index '"@ + index + "'. This may cause conflicts."@
}

pub open spec fn cdc_without_index_text(table: Seq<char>) -> Seq<char> {
    "Table '"@ + table
        + "' is CDC-only but auto_create_index is disabled. The index won't be created until manually created in Meilisearch."@
}

pub open spec fn filter_fields_text(table: Seq<char>, fields: Seq<Seq<char>>) -> Seq<char> {
    "Filter for table '"@ + table + "' references fields: "@ + set_debug(fields)
}

pub open spec fn empty_event_types_text(table: Seq<char>) -> Seq<char> {
    "Empty event_types filter for table '"@ + table + "' will filter out all events"@
}

pub open spec fn zero_batch_text(table: Seq<char>) -> Seq<char> {
    "Invalid batch_size (0) for table '"@ + table + "'. Must be greater than 0."@
}

pub open spec fn large_batch_text(size: nat, table: Seq<char>) -> Seq<char> {
    "Large batch_size ("@ + decimal(size) + ") for table '"@ + table + "' may cause memory issues"@
}

pub open spec fn low_timeout_text(ms: nat, table: Seq<char>) -> Seq<char> {
    "Very low batch_timeout_ms ("@ + decimal(ms) + ") for table '"@ + table
        + "' may cause excessive API calls"@
}

pub open spec fn cdc_tables_text(tables: Seq<Seq<char>>) -> Seq<char> {
    "CDC-only tables (no initial full sync): "@ + join(tables, ", "@)
}

/// Warnings about a task's filter.
pub open spec fn filter_warnings(t: SyncTaskConfig) -> Seq<Seq<char>> {
    match t.filter {
        Some(f) => match f.event_types {
            Some(ev) => only_if(ev@.len() == 0, empty_event_types_text(t.table@)),
            None => Seq::empty(),
        },
        None => Seq::empty(),
    }
}

/// Notes about a task's filter.
pub open spec fn filter_info(t: SyncTaskConfig) -> Seq<Seq<char>> {
    match t.filter {
        Some(f) => match f.conditions {
            Some(cs) => seq![filter_fields_text(t.table@, referenced_fields(cs@))],
            None => Seq::empty(),
        },
        None => Seq::empty(),
    }
}

/// Errors about a task's batching.
pub open spec fn batch_errors(t: SyncTaskConfig) -> Seq<Seq<char>> {
    only_if(t.options.batch_size == 0, zero_batch_text(t.table@))
}

/// Warnings about a task's batching.
pub open spec fn batch_warnings(t: SyncTaskConfig) -> Seq<Seq<char>> {
    only_if(t.options.batch_size > 10000, large_batch_text(t.options.batch_size as nat, t.table@))
        + only_if(t.options.batch_timeout_ms < 100, low_timeout_text(t.options.batch_timeout_ms as nat, t.table@))
}

/// Errors about task `i`.
pub open spec fn task_errors(tasks: Seq<SyncTaskConfig>, i: int) -> Seq<Seq<char>> {
    only_if(table_seen(tasks, i), duplicate_table_text(tasks[i].table@)) + batch_errors(tasks[i])
}

/// Warnings about task `i`.
pub open spec fn task_warnings(tasks: Seq<SyncTaskConfig>, i: int, auto_create_index: bool) -> Seq<Seq<char>> {
    only_if(index_seen(tasks, i), duplicate_index_text(tasks[i].index@))
        + only_if(cdc_only(tasks[i]) && !auto_create_index, cdc_without_index_text(tasks[i].table@))
        + filter_warnings(tasks[i]) + batch_warnings(tasks[i])
}

/// Errors about the first `n` tasks.
pub open spec fn tasks_errors(tasks: Seq<SyncTaskConfig>, n: nat) -> Seq<Seq<char>>
    decreases n,
{
    if n == 0 {
        Seq::empty()
    } else {
        tasks_errors(tasks, (n - 1) as nat) + task_errors(tasks, n - 1)
    }
}

/// Warnings about the first `n` tasks.
pub open spec fn tasks_warnings(tasks: Seq<SyncTaskConfig>, n: nat, auto_create_index: bool) -> Seq<Seq<char>>
    decreases n,
{
    if n == 0 {
        Seq::empty()
    } else {
        tasks_warnings(tasks, (n - 1) as nat, auto_create_index) + task_warnings(tasks, n - 1, auto_create_index)
    }
}

/// Notes about the filters of the first `n` tasks.
pub open spec fn tasks_info(tasks: Seq<SyncTaskConfig>, n: nat) -> Seq<Seq<char>>
    decreases n,
{
    if n == 0 {
        Seq::empty()
    } else {
        tasks_info(tasks, (n - 1) as nat) + filter_info(tasks[n - 1])
    }
}

/// Tables of the first `n` tasks that sync only changes.
pub open spec fn cdc_only_tables(tasks: Seq<SyncTaskConfig>, n: nat) -> Seq<Seq<char>>
    decreases n,
{
    if n == 0 {
        Seq::empty()
    } else {
        cdc_only_tables(tasks, (n - 1) as nat) + only_if(cdc_only(tasks[n - 1]), tasks[n - 1].table@)
    }
}

/// All notes about the sync tasks.
pub open spec fn sync_info(tasks: Seq<SyncTaskConfig>) -> Seq<Seq<char>> {
    tasks_info(tasks, tasks.len()) + only_if(
        cdc_only_tables(tasks, tasks.len()).len() > 0,
        cdc_tables_text(cdc_only_tables(tasks, tasks.len())),
    )
}

fn validate_filter(task: &SyncTaskConfig, warnings: &mut Vec<String>, info: &mut Vec<String>)
    ensures
        texts(final(warnings)@) == texts(old(warnings)@) + filter_warnings(*task),
        texts(final(info)@) == texts(old(info)@) + filter_info(*task),
{
    let ghost w0 = texts(warnings@);
    let ghost i0 = texts(info@);
    match &task.filter {
        Some(filter) => {
            match &filter.conditions {
                Some(conditions) => {
                    let fields = fields_of_conditions(conditions);
                    let mut m = "Filter for table '".to_owned();
                    append_str(&mut m, task.table.as_str());
                    append_str(&mut m, "' references fields: ");
                    let d = set_debug_text(&fields);
                    append_str(&mut m, d.as_str());
                    push_text(info, m);
                    assert(texts(info@) =~= i0 + filter_info(*task));
                },
                None => {
                    assert(texts(info@) =~= i0 + filter_info(*task));
                },
            }
            match &filter.event_types {
                Some(event_types) => {
                    let mut m = "Empty event_types filter for table '".to_owned();
                    append_str(&mut m, task.table.as_str());
                    append_str(&mut m, "' will filter out all events");
                    let v = when_text(event_types.len() == 0, m);
                    append_texts(warnings, v);
                },
                None => {
                    assert(texts(warnings@) =~= w0 + filter_warnings(*task));
                },
            }
        },
        None => {
            assert(texts(warnings@) =~= w0 + filter_warnings(*task));
            assert(texts(info@) =~= i0 + filter_info(*task));
        },
    }
}

fn validate_batch_config(task: &SyncTaskConfig, errors: &mut Vec<String>, warnings: &mut Vec<String>)
    ensures
        texts(final(errors)@) == texts(old(errors)@) + batch_errors(*task),
        texts(final(warnings)@) == texts(old(warnings)@) + batch_warnings(*task),
{
    let mut zero = "Invalid batch_size (0) for table '".to_owned();
    append_str(&mut zero, task.table.as_str());
    append_str(&mut zero, "'. Must be greater than 0.");
    append_texts(errors, when_text(task.options.batch_size == 0, zero));

    let mut large = "Large batch_size (".to_owned();
    let n = u64_to_string(task.options.batch_size as u64);
    append_str(&mut large, n.as_str());
    append_str(&mut large, ") for table '");
    append_str(&mut large, task.table.as_str());
    append_str(&mut large, "' may cause memory issues");
    let ghost w0 = texts(warnings@);
    append_texts(warnings, when_text(task.options.batch_size > 10000, large));

    let mut low = "Very low batch_timeout_ms (".to_owned();
    let ms = u64_to_string(task.options.batch_timeout_ms);
    append_str(&mut low, ms.as_str());
    append_str(&mut low, ") for table '");
    append_str(&mut low, task.table.as_str());
    append_str(&mut low, "' may cause excessive API calls");
    append_texts(warnings, when_text(task.options.batch_timeout_ms < 100, low));
    assert(texts(warnings@) =~= w0 + batch_warnings(*task));
}

} // verus!

verus! {

fn note_duplicate_table(seen: &mut Vec<String>, tasks: &Vec<SyncTaskConfig>, i: usize, errors: &mut Vec<String>)
    requires
        i < tasks@.len(),
        texts(old(seen)@) == Seq::new(i as nat, |k: int| tasks@[k].table@),
    ensures
        texts(final(seen)@) == Seq::new((i + 1) as nat, |k: int| tasks@[k].table@),
        texts(final(errors)@) == texts(old(errors)@) + only_if(
            table_seen(tasks@, i as int),
            duplicate_table_text(tasks@[i as int].table@),
        ),
{
    let task = &tasks[i];
    let dup = texts_contain(seen, &task.table);
    assert(dup == table_seen(tasks@, i as int)) by {
        if dup {
            let k = choose|k: int| 0 <= k < texts(seen@).len() && texts(seen@)[k] == task.table@;
            assert(tasks@[k].table@ == tasks@[i as int].table@);
        }
        if table_seen(tasks@, i as int) {
            let k = choose|k: int| 0 <= k < i && #[trigger] tasks@[k].table@ == tasks@[i as int].table@;
            assert(texts(seen@)[k] == task.table@);
        }
    }
    let ghost st = texts(seen@);
    seen.push(task.table.clone());
    assert(texts(seen@) =~= st.push(task.table@));
    assert(st.push(task.table@) =~= Seq::new((i + 1) as nat, |k: int| tasks@[k].table@));
    let mut m = "Duplicate sync task for table '".to_owned();
    append_str(&mut m, task.table.as_str());
    append_str(&mut m, "'. Only one sync task per table is allowed.");
    append_texts(errors, when_text(dup, m));
}

fn note_duplicate_index(seen: &mut Vec<String>, tasks: &Vec<SyncTaskConfig>, i: usize, warnings: &mut Vec<String>)
    requires
        i < tasks@.len(),
        texts(old(seen)@) == Seq::new(i as nat, |k: int| tasks@[k].index@),
    ensures
        texts(final(seen)@) == Seq::new((i + 1) as nat, |k: int| tasks@[k].index@),
        texts(final(warnings)@) == texts(old(warnings)@) + only_if(
            index_seen(tasks@, i as int),
            duplicate_index_text(tasks@[i as int].index@),
        ),
{
    let task = &tasks[i];
    let dup = texts_contain(seen, &task.index);
    assert(dup == index_seen(tasks@, i as int)) by {
        if dup {
            let k = choose|k: int| 0 <= k < texts(seen@).len() && texts(seen@)[k] == task.index@;
            assert(tasks@[k].index@ == tasks@[i as int].index@);
        }
        if index_seen(tasks@, i as int) {
            let k = choose|k: int| 0 <= k < i && #[trigger] tasks@[k].index@ == tasks@[i as int].index@;
            assert(texts(seen@)[k] == task.index@);
        }
    }
    let ghost st = texts(seen@);
    seen.push(task.index.clone());
    assert(texts(seen@) =~= st.push(task.index@));
    assert(st.push(task.index@) =~= Seq::new((i + 1) as nat, |k: int| tasks@[k].index@));
    let mut m = "Multiple tables syncing to the same index '".to_owned();
    append_str(&mut m, task.index.as_str());
    append_str(&mut m, "'. This may cause conflicts.");
    append_texts(warnings, when_text(dup, m));
}

fn note_cdc_only(
    cdc_tables: &mut Vec<String>,
    tasks: &Vec<SyncTaskConfig>,
    i: usize,
    auto_create_index: bool,
    warnings: &mut Vec<String>,
)
    requires
        i < tasks@.len(),
        texts(old(cdc_tables)@) == cdc_only_tables(tasks@, i as nat),
    ensures
        texts(final(cdc_tables)@) == cdc_only_tables(tasks@, (i + 1) as nat),
        texts(final(warnings)@) == texts(old(warnings)@) + only_if(
            cdc_only(tasks@[i as int]) && !auto_create_index,
            cdc_without_index_text(tasks@[i as int].table@),
        ),
{
    let task = &tasks[i];
    let cdc = match task.full_sync_on_start {
        Some(b) => !b,
        None => true,
    };
    let ghost ct = texts(cdc_tables@);
    if cdc {
        cdc_tables.push(task.table.clone());
        assert(texts(cdc_tables@) =~= ct + only_if(true, task.table@));
    } else {
        assert(texts(cdc_tables@) =~= ct + only_if(false, task.table@));
    }
    let mut m = "Table '".to_owned();
    append_str(&mut m, task.table.as_str());
    append_str(
        &mut m,
        "' is CDC-only but auto_create_index is disabled. The index won't be created until manually created in Meilisearch.",
    );
    append_texts(warnings, when_text(cdc && !auto_create_index, m));
}

#[verifier::spinoff_prover]
#[verifier::rlimit(40)]
fn check_task(
    tasks: &Vec<SyncTaskConfig>,
    i: usize,
    auto_create_index: bool,
    seen_tables: &mut Vec<String>,
    seen_indexes: &mut Vec<String>,
    cdc_tables: &mut Vec<String>,
    report: &mut ValidationReport,
)
    requires
        i < tasks@.len(),
        texts(old(seen_tables)@) == Seq::new(i as nat, |k: int| tasks@[k].table@),
        texts(old(seen_indexes)@) == Seq::new(i as nat, |k: int| tasks@[k].index@),
        texts(old(cdc_tables)@) == cdc_only_tables(tasks@, i as nat),
    ensures
        texts(final(seen_tables)@) == Seq::new((i + 1) as nat, |k: int| tasks@[k].table@),
        texts(final(seen_indexes)@) == Seq::new((i + 1) as nat, |k: int| tasks@[k].index@),
        texts(final(cdc_tables)@) == cdc_only_tables(tasks@, (i + 1) as nat),
        final(report)@.errors == old(report)@.errors + task_errors(tasks@, i as int),
        final(report)@.warnings == old(report)@.warnings + task_warnings(tasks@, i as int, auto_create_index),
        final(report)@.info == old(report)@.info + filter_info(tasks@[i as int]),
{
    let ghost e1 = report@.errors;
    let ghost w1 = report@.warnings;
    let ghost i1 = report@.info;
    note_duplicate_table(seen_tables, tasks, i, &mut report.errors);
    note_duplicate_index(seen_indexes, tasks, i, &mut report.warnings);
    note_cdc_only(cdc_tables, tasks, i, auto_create_index, &mut report.warnings);
    validate_filter(&tasks[i], &mut report.warnings, &mut report.info);
    validate_batch_config(&tasks[i], &mut report.errors, &mut report.warnings);
    assert(report@.errors =~= e1 + task_errors(tasks@, i as int));
    assert(report@.warnings =~= w1 + task_warnings(tasks@, i as int, auto_create_index));
    assert(report@.info =~= i1 + filter_info(tasks@[i as int]));
}

/// Checks a configuration and reports what it finds.
pub struct ConfigValidator {
    config: Config,
}

impl ConfigValidator {
    /// The configuration being checked.
    pub closed spec fn configuration(&self) -> Config {
        self.config
    }

    /// A validator of the given configuration.
    pub fn new(config: Config) -> (r: Self)
        ensures
            r.configuration() == config,
    {
        ConfigValidator { config }
    }

    fn validate_sync_tasks(&self, report: &mut ValidationReport)
        ensures
            final(report)@.errors == old(report)@.errors + tasks_errors(
                self.config.sync_tasks@,
                self.config.sync_tasks@.len(),
            ),
            final(report)@.warnings == old(report)@.warnings + tasks_warnings(
                self.config.sync_tasks@,
                self.config.sync_tasks@.len(),
                self.config.meilisearch.auto_create_index,
            ),
            final(report)@.info == old(report)@.info + sync_info(self.config.sync_tasks@),
    {
        let tasks = &self.config.sync_tasks;
        let auto = self.config.meilisearch.auto_create_index;
        let ghost e0 = report@.errors;
        let ghost w0 = report@.warnings;
        let ghost i0 = report@.info;
        let mut seen_tables: Vec<String> = Vec::new();
        let mut seen_indexes: Vec<String> = Vec::new();
        let mut cdc_tables: Vec<String> = Vec::new();
        let mut i: usize = 0;
        while i < tasks.len()
            invariant
                i <= tasks@.len(),
                auto == self.config.meilisearch.auto_create_index,
                tasks == &self.config.sync_tasks,
                texts(seen_tables@) == Seq::new(i as nat, |k: int| tasks@[k].table@),
                texts(seen_indexes@) == Seq::new(i as nat, |k: int| tasks@[k].index@),
                texts(cdc_tables@) == cdc_only_tables(tasks@, i as nat),
                report@.errors == e0 + tasks_errors(tasks@, i as nat),
                report@.warnings == w0 + tasks_warnings(tasks@, i as nat, auto),
                report@.info == i0 + tasks_info(tasks@, i as nat),
            decreases tasks@.len() - i,
        {
            let ghost e1 = report@.errors;
            let ghost w1 = report@.warnings;
            let ghost i1 = report@.info;
            check_task(tasks, i, auto, &mut seen_tables, &mut seen_indexes, &mut cdc_tables, report);
            assert(e0 + tasks_errors(tasks@, i as nat) + task_errors(tasks@, i as int) =~= e0 + tasks_errors(
                tasks@,
                (i + 1) as nat,
            ));
            assert(w0 + tasks_warnings(tasks@, i as nat, auto) + task_warnings(tasks@, i as int, auto) =~= w0
                + tasks_warnings(tasks@, (i + 1) as nat, auto));
            assert(i0 + tasks_info(tasks@, i as nat) + filter_info(tasks@[i as int]) =~= i0 + tasks_info(
                tasks@,
                (i + 1) as nat,
            ));
            i = i + 1;
        }
        let ghost i2 = report@.info;
        let list = join_strings(&cdc_tables, ", ");
        let mut m = "CDC-only tables (no initial full sync): ".to_owned();
        append_str(&mut m, list.as_str());
        append_texts(&mut report.info, when_text(cdc_tables.len() > 0, m));
        assert(report@.info =~= i0 + sync_info(self.config.sync_tasks@));
    }
}

} // verus!

verus! {

// ---------------------------------------------------------------------------
// Sources and destination
// ---------------------------------------------------------------------------

pub open spec fn pool_text(min_idle: nat, max_size: nat) -> Seq<char> {
    "PostgreSQL pool min_idle ("@ + decimal(min_idle) + ") cannot be greater than max_size ("@
        + decimal(max_size) + ")"@
}

pub open spec fn named_slot_text(name: Seq<char>) -> Seq<char> {
    "PostgreSQL source '"@ + name + "' slot_name cannot be empty"@
}

pub open spec fn named_publication_text(name: Seq<char>) -> Seq<char> {
    "PostgreSQL source '"@ + name + "' publication name cannot be empty"@
}

pub open spec fn named_pool_text(name: Seq<char>, min_idle: nat, max_size: nat) -> Seq<char> {
    "PostgreSQL source '"@ + name + "' pool min_idle ("@ + decimal(min_idle)
        + ") cannot be greater than max_size ("@ + decimal(max_size) + ")"@
}

pub open spec fn named_unsupported_text(name: Seq<char>) -> Seq<char> {
    "Non-PostgreSQL source '"@ + name + "' is not yet fully supported"@
}

/// Errors about the single source.
pub open spec fn source_errors(source: Option<SourceConfig>) -> Seq<Seq<char>> {
    match source {
        Some(SourceConfig::PostgreSQL(pg)) => only_if(pg.slot_name@.len() == 0, "PostgreSQL slot_name cannot be empty"@)
            + only_if(pg.publication@.len() == 0, "PostgreSQL publication name cannot be empty"@) + only_if(
            pg.pool.min_idle > pg.pool.max_size,
            pool_text(pg.pool.min_idle as nat, pg.pool.max_size as nat),
        ),
        _ => Seq::empty(),
    }
}

/// Warnings about the single source.
pub open spec fn source_warnings(source: Option<SourceConfig>) -> Seq<Seq<char>> {
    match source {
        Some(SourceConfig::PostgreSQL(_)) => Seq::empty(),
        Some(_) => seq!["Non-PostgreSQL sources are not yet fully supported"@],
        None => Seq::empty(),
    }
}

/// Errors about one named source.
pub open spec fn named_source_errors(s: NamedSourceConfig) -> Seq<Seq<char>> {
    match s.config {
        SourceConfig::PostgreSQL(pg) => only_if(pg.slot_name@.len() == 0, named_slot_text(s.name@)) + only_if(
            pg.publication@.len() == 0,
            named_publication_text(s.name@),
        ) + only_if(
            pg.pool.min_idle > pg.pool.max_size,
            named_pool_text(s.name@, pg.pool.min_idle as nat, pg.pool.max_size as nat),
        ),
        _ => Seq::empty(),
    }
}

/// Warnings about one named source.
pub open spec fn named_source_warnings(s: NamedSourceConfig) -> Seq<Seq<char>> {
    match s.config {
        SourceConfig::PostgreSQL(_) => Seq::empty(),
        _ => seq![named_unsupported_text(s.name@)],
    }
}

/// Errors about the first `n` named sources.
pub open spec fn sources_errors(sources: Seq<NamedSourceConfig>, n: nat) -> Seq<Seq<char>>
    decreases n,
{
    if n == 0 {
        Seq::empty()
    } else {
        sources_errors(sources, (n - 1) as nat) + named_source_errors(sources[n - 1])
    }
}

/// Warnings about the first `n` named sources.
pub open spec fn sources_warnings(sources: Seq<NamedSourceConfig>, n: nat) -> Seq<Seq<char>>
    decreases n,
{
    if n == 0 {
        Seq::empty()
    } else {
        sources_warnings(sources, (n - 1) as nat) + named_source_warnings(sources[n - 1])
    }
}

/// The error when no source is configured at all.
pub open spec fn no_source_errors(c: Config) -> Seq<Seq<char>> {
    only_if(
        c.source is None && c.sources@.len() == 0,
        "At least one data source must be configured (use 'source' or 'sources')"@,
    )
}

/// Errors about the Meilisearch settings.
pub open spec fn destination_errors(m: MeilisearchConfig) -> Seq<Seq<char>> {
    only_if(m.url@.len() == 0, "Meilisearch URL cannot be empty"@) + only_if(
        m.timeout == 0,
        "Meilisearch timeout must be greater than 0"@,
    )
}

/// Warnings about the Meilisearch settings.
pub open spec fn destination_warnings(m: MeilisearchConfig) -> Seq<Seq<char>> {
    only_if(
        m.api_key matches Some(k) && k@.len() == 0,
        "Meilisearch API key is empty - ensure Meilisearch allows anonymous access"@,
    )
}

/// The report that validating a configuration gives.
pub open spec fn config_report(c: Config) -> ReportView {
    ReportView {
        errors: tasks_errors(c.sync_tasks@, c.sync_tasks@.len()) + source_errors(c.source) + sources_errors(
            c.sources@,
            c.sources@.len(),
        ) + no_source_errors(c) + destination_errors(c.meilisearch),
        warnings: tasks_warnings(c.sync_tasks@, c.sync_tasks@.len(), c.meilisearch.auto_create_index)
            + source_warnings(c.source) + sources_warnings(c.sources@, c.sources@.len())
            + destination_warnings(c.meilisearch),
        info: sync_info(c.sync_tasks@),
    }
}

fn pool_message(prefix: &str, min_idle: u32, max_size: u32) -> (r: String)
    ensures
        r@ == prefix@ + " pool min_idle ("@ + decimal(min_idle as nat) + ") cannot be greater than max_size ("@
            + decimal(max_size as nat) + ")"@,
{
    let mut m = prefix.to_owned();
    append_str(&mut m, " pool min_idle (");
    let a = u64_to_string(min_idle as u64);
    append_str(&mut m, a.as_str());
    append_str(&mut m, ") cannot be greater than max_size (");
    let b = u64_to_string(max_size as u64);
    append_str(&mut m, b.as_str());
    append_str(&mut m, ")");
    m
}

fn single_source_messages(source: &Option<SourceConfig>, errors: &mut Vec<String>, warnings: &mut Vec<String>)
    ensures
        texts(final(errors)@) == texts(old(errors)@) + source_errors(*source),
        texts(final(warnings)@) == texts(old(warnings)@) + source_warnings(*source),
{
    let ghost e0 = texts(errors@);
    let ghost w0 = texts(warnings@);
    match source {
        Some(SourceConfig::PostgreSQL(pg)) => {
            append_texts(errors, when_text(pg.slot_name.as_str().is_empty(), "PostgreSQL slot_name cannot be empty".to_owned()));
            append_texts(
                errors,
                when_text(pg.publication.as_str().is_empty(), "PostgreSQL publication name cannot be empty".to_owned()),
            );
            let m = pool_message("PostgreSQL", pg.pool.min_idle, pg.pool.max_size);
            proof {
                reveal_strlit("PostgreSQL");
                reveal_strlit("PostgreSQL pool min_idle (");
                reveal_strlit(" pool min_idle (");
                assert("PostgreSQL"@ + " pool min_idle ("@ =~= "PostgreSQL pool min_idle ("@);
            }
            append_texts(errors, when_text(pg.pool.min_idle > pg.pool.max_size, m));
            assert(texts(errors@) =~= e0 + source_errors(*source));
            assert(texts(warnings@) =~= w0 + source_warnings(*source));
        },
        Some(_) => {
            push_text(warnings, "Non-PostgreSQL sources are not yet fully supported".to_owned());
            assert(texts(errors@) =~= e0 + source_errors(*source));
            assert(texts(warnings@) =~= w0 + source_warnings(*source));
        },
        None => {
            assert(texts(errors@) =~= e0 + source_errors(*source));
            assert(texts(warnings@) =~= w0 + source_warnings(*source));
        },
    }
}

fn named_source_messages(s: &NamedSourceConfig, errors: &mut Vec<String>, warnings: &mut Vec<String>)
    ensures
        texts(final(errors)@) == texts(old(errors)@) + named_source_errors(*s),
        texts(final(warnings)@) == texts(old(warnings)@) + named_source_warnings(*s),
{
    let ghost e0 = texts(errors@);
    let ghost w0 = texts(warnings@);
    match &s.config {
        SourceConfig::PostgreSQL(pg) => {
            let mut m = "PostgreSQL source '".to_owned();
            append_str(&mut m, s.name.as_str());
            append_str(&mut m, "' slot_name cannot be empty");
            append_texts(errors, when_text(pg.slot_name.as_str().is_empty(), m));
            let mut m = "PostgreSQL source '".to_owned();
            append_str(&mut m, s.name.as_str());
            append_str(&mut m, "' publication name cannot be empty");
            append_texts(errors, when_text(pg.publication.as_str().is_empty(), m));
            let mut p = "PostgreSQL source '".to_owned();
            append_str(&mut p, s.name.as_str());
            append_str(&mut p, "'");
            let m = pool_message(p.as_str(), pg.pool.min_idle, pg.pool.max_size);
            proof {
                reveal_strlit("'");
                reveal_strlit("' pool min_idle (");
                reveal_strlit(" pool min_idle (");
                assert("PostgreSQL source '"@ + s.name@ + "'"@ + " pool min_idle ("@ =~= "PostgreSQL source '"@
                    + s.name@ + "' pool min_idle ("@);
            }
            append_texts(errors, when_text(pg.pool.min_idle > pg.pool.max_size, m));
            assert(texts(errors@) =~= e0 + named_source_errors(*s));
            assert(texts(warnings@) =~= w0 + named_source_warnings(*s));
        },
        _ => {
            let mut m = "Non-PostgreSQL source '".to_owned();
            append_str(&mut m, s.name.as_str());
            append_str(&mut m, "' is not yet fully supported");
            push_text(warnings, m);
            assert(texts(errors@) =~= e0 + named_source_errors(*s));
            assert(texts(warnings@) =~= w0 + named_source_warnings(*s));
        },
    }
}

} // verus!

verus! {

impl ConfigValidator {
    fn validate_source(&self, report: &mut ValidationReport)
        ensures
            final(report)@.errors == old(report)@.errors + source_errors(self.config.source) + sources_errors(
                self.config.sources@,
                self.config.sources@.len(),
            ) + no_source_errors(self.config),
            final(report)@.warnings == old(report)@.warnings + source_warnings(self.config.source)
                + sources_warnings(self.config.sources@, self.config.sources@.len()),
            final(report)@.info == old(report)@.info,
    {
        single_source_messages(&self.config.source, &mut report.errors, &mut report.warnings);
        let ghost e1 = report@.errors;
        let ghost w1 = report@.warnings;
        let sources = &self.config.sources;
        let mut i: usize = 0;
        while i < sources.len()
            invariant
                i <= sources@.len(),
                sources == &self.config.sources,
                report@.errors == e1 + sources_errors(sources@, i as nat),
                report@.warnings == w1 + sources_warnings(sources@, i as nat),
                report@.info == old(report)@.info,
            decreases sources@.len() - i,
        {
            named_source_messages(&sources[i], &mut report.errors, &mut report.warnings);
            assert(e1 + sources_errors(sources@, i as nat) + named_source_errors(sources@[i as int]) =~= e1
                + sources_errors(sources@, (i + 1) as nat));
            assert(w1 + sources_warnings(sources@, i as nat) + named_source_warnings(sources@[i as int]) =~= w1
                + sources_warnings(sources@, (i + 1) as nat));
            i = i + 1;
        }
        let none = self.config.source.is_none() && self.config.sources.len() == 0;
        append_texts(
            &mut report.errors,
            when_text(none, "At least one data source must be configured (use 'source' or 'sources')".to_owned()),
        );
    }

    fn validate_destination(&self, report: &mut ValidationReport)
        ensures
            final(report)@.errors == old(report)@.errors + destination_errors(self.config.meilisearch),
            final(report)@.warnings == old(report)@.warnings + destination_warnings(self.config.meilisearch),
            final(report)@.info == old(report)@.info,
    {
        let m = &self.config.meilisearch;
        let ghost e0 = report@.errors;
        append_texts(&mut report.errors, when_text(m.url.as_str().is_empty(), "Meilisearch URL cannot be empty".to_owned()));
        let empty_key = match &m.api_key {
            Some(k) => k.as_str().is_empty(),
            None => false,
        };
        append_texts(
            &mut report.warnings,
            when_text(empty_key, "Meilisearch API key is empty - ensure Meilisearch allows anonymous access".to_owned()),
        );
        append_texts(
            &mut report.errors,
            when_text(m.timeout == 0, "Meilisearch timeout must be greater than 0".to_owned()),
        );
        assert(report@.errors =~= e0 + destination_errors(self.config.meilisearch));
    }

    /// Checks the sync tasks, the sources and the Meilisearch settings and
    /// reports every problem found; it never fails.
    pub fn validate(&self) -> (r: Result<ValidationReport, MeiliBridgeError>)
        ensures
            r matches Ok(report) && report@ == config_report(self.configuration()),
    {
        let mut report = ValidationReport::new();
        self.validate_sync_tasks(&mut report);
        self.validate_source(&mut report);
        self.validate_destination(&mut report);
        assert(report@.errors =~= config_report(self.config).errors);
        assert(report@.warnings =~= config_report(self.config).warnings);
        assert(report@.info =~= config_report(self.config).info);
        Ok(report)
    }
}

} // verus!

verus! {

// ---------------------------------------------------------------------------
// Fields checked against the columns of the source tables
// ---------------------------------------------------------------------------

/// `Table '<table>': <what> '<field>'`.
pub open spec fn column_text(table: Seq<char>, what: Seq<char>, field: Seq<char>) -> Seq<char> {
    "Table '"@ + table + "': "@ + what + " '"@ + field + "'"@
}

/// An error for each of `fields` that is not a column.
pub open spec fn missing_columns(
    table: Seq<char>,
    what: Seq<char>,
    fields: Seq<Seq<char>>,
    columns: Seq<Seq<char>>,
) -> Seq<Seq<char>>
    decreases fields.len(),
{
    if fields.len() == 0 {
        Seq::empty()
    } else {
        missing_columns(table, what, fields.drop_last(), columns) + only_if(
            !columns.contains(fields.last()),
            column_text(table, what, fields.last()),
        )
    }
}

/// Errors about the fields of one field mapping.
pub open spec fn mapping_entry_errors(
    table: Seq<char>,
    entry: (String, FieldMapping),
    columns: Seq<Seq<char>>,
) -> Seq<Seq<char>> {
    only_if(!columns.contains(entry.0@), column_text(table, "Mapping references non-existent source field"@, entry.0@))
        + match entry.1 {
        FieldMapping::Complex { sources: Some(sources), .. } => missing_columns(
            table,
            "Complex mapping references non-existent source field"@,
            texts(sources@),
            columns,
        ),
        _ => Seq::empty(),
    }
}

/// Errors about the first `n` field mappings.
pub open spec fn mapping_errors(
    table: Seq<char>,
    entries: Seq<(String, FieldMapping)>,
    n: nat,
    columns: Seq<Seq<char>>,
) -> Seq<Seq<char>>
    decreases n,
{
    if n == 0 {
        Seq::empty()
    } else {
        mapping_errors(table, entries, (n - 1) as nat, columns) + mapping_entry_errors(table, entries[n - 1], columns)
    }
}

/// The field a transform reads, for transforms that name one.
pub open spec fn transform_field(t: FieldTransform) -> Option<Seq<char>> {
    match t {
        FieldTransform::Rename { from, .. } => Some(from@),
        FieldTransform::Convert { field, .. } => Some(field@),
        _ => None,
    }
}

/// Errors about the first `n` transforms.
pub open spec fn transform_errors(
    table: Seq<char>,
    entries: Seq<(String, FieldTransform)>,
    n: nat,
    columns: Seq<Seq<char>>,
) -> Seq<Seq<char>>
    decreases n,
{
    if n == 0 {
        Seq::empty()
    } else {
        transform_errors(table, entries, (n - 1) as nat, columns) + match transform_field(entries[n - 1].1) {
            Some(f) => only_if(!columns.contains(f), column_text(table, "Transform references non-existent field"@, f)),
            None => Seq::empty(),
        }
    }
}

/// Errors about the fields a task's filter tests.
pub open spec fn filter_column_errors(t: SyncTaskConfig, columns: Seq<Seq<char>>) -> Seq<Seq<char>> {
    match t.filter {
        Some(f) => match f.conditions {
            Some(cs) => missing_columns(t.table@, "Filter references non-existent field"@, referenced_fields(cs@), columns),
            None => Seq::empty(),
        },
        None => Seq::empty(),
    }
}

/// Errors about the fields a task's mapping of its table reads.
pub open spec fn mapping_column_errors(t: SyncTaskConfig, columns: Seq<Seq<char>>) -> Seq<Seq<char>> {
    match t.mapping {
        Some(m) => match lookup_key(m.tables@, t.table@) {
            Some(tm) => match tm.fields {
                Some(fields) => mapping_errors(t.table@, fields@, fields@.len(), columns),
                None => Seq::empty(),
            },
            None => Seq::empty(),
        },
        None => Seq::empty(),
    }
}

/// Errors about the fields the transforms of a task's table read.
pub open spec fn transform_column_errors(t: SyncTaskConfig, columns: Seq<Seq<char>>) -> Seq<Seq<char>> {
    match t.transform {
        Some(tr) => match lookup_key(tr.fields@, t.table@) {
            Some(entries) => transform_errors(t.table@, entries@, entries@.len(), columns),
            None => Seq::empty(),
        },
        None => Seq::empty(),
    }
}

/// The error about a task's soft-delete field.
pub open spec fn soft_delete_column_errors(t: SyncTaskConfig, columns: Seq<Seq<char>>) -> Seq<Seq<char>> {
    match t.soft_delete {
        Some(sd) => only_if(
            !columns.contains(sd.field@),
            column_text(t.table@, "Soft delete references non-existent field"@, sd.field@),
        ),
        None => Seq::empty(),
    }
}

/// Errors found checking a task's fields against the columns of its table.
pub open spec fn task_column_errors(t: SyncTaskConfig, columns: Seq<Seq<char>>) -> Seq<Seq<char>> {
    filter_column_errors(t, columns) + mapping_column_errors(t, columns) + transform_column_errors(t, columns)
        + soft_delete_column_errors(t, columns)
}

/// The note listing a table's columns.
pub open spec fn task_columns_text(t: SyncTaskConfig, columns: Seq<Seq<char>>) -> Seq<char> {
    let distinct = distinct_into(Seq::empty(), columns);
    "Table '"@ + t.table@ + "' has "@ + decimal(distinct.len()) + " columns: "@ + set_debug(distinct)
}

fn column_message(table: &String, what: &str, field: &String) -> (r: String)
    ensures
        r@ == column_text(table@, what@, field@),
{
    let mut m = "Table '".to_owned();
    append_str(&mut m, table.as_str());
    append_str(&mut m, "': ");
    append_str(&mut m, what);
    append_str(&mut m, " '");
    append_str(&mut m, field.as_str());
    append_str(&mut m, "'");
    m
}

fn missing_columns_messages(
    table: &String,
    what: &str,
    fields: &Vec<String>,
    columns: &Vec<String>,
    errors: &mut Vec<String>,
)
    ensures
        texts(final(errors)@) == texts(old(errors)@) + missing_columns(table@, what@, texts(fields@), texts(columns@)),
{
    let ghost e0 = texts(errors@);
    let mut i: usize = 0;
    while i < fields.len()
        invariant
            i <= fields@.len(),
            texts(errors@) == e0 + missing_columns(table@, what@, texts(fields@).take(i as int), texts(columns@)),
        decreases fields@.len() - i,
    {
        let ghost before = texts(errors@);
        let found = texts_contain(columns, &fields[i]);
        let m = column_message(table, what, &fields[i]);
        append_texts(errors, when_text(!found, m));
        assert(texts(fields@).take(i + 1).drop_last() =~= texts(fields@).take(i as int));
        assert(texts(fields@).take(i + 1).last() == fields@[i as int]@);
        assert(texts(errors@) =~= e0 + missing_columns(table@, what@, texts(fields@).take(i + 1), texts(columns@)));
        i = i + 1;
    }
    assert(texts(fields@).take(fields@.len() as int) =~= texts(fields@));
}

fn mapping_messages(
    table: &String,
    entries: &Vec<(String, FieldMapping)>,
    columns: &Vec<String>,
    errors: &mut Vec<String>,
)
    ensures
        texts(final(errors)@) == texts(old(errors)@) + mapping_errors(table@, entries@, entries@.len(), texts(columns@)),
{
    let ghost e0 = texts(errors@);
    let mut i: usize = 0;
    while i < entries.len()
        invariant
            i <= entries@.len(),
            texts(errors@) == e0 + mapping_errors(table@, entries@, i as nat, texts(columns@)),
        decreases entries@.len() - i,
    {
        let ghost e1 = texts(errors@);
        let entry = &entries[i];
        let found = texts_contain(columns, &entry.0);
        let m = column_message(table, "Mapping references non-existent source field", &entry.0);
        append_texts(errors, when_text(!found, m));
        let ghost e2 = texts(errors@);
        match &entry.1 {
            FieldMapping::Complex { sources: Some(sources), .. } => {
                missing_columns_messages(table, "Complex mapping references non-existent source field", sources, columns, errors);
            },
            _ => {
                assert(texts(errors@) =~= e2 + Seq::<Seq<char>>::empty());
            },
        }
        assert(texts(errors@) =~= e1 + mapping_entry_errors(table@, entries@[i as int], texts(columns@)));
        assert(e0 + mapping_errors(table@, entries@, i as nat, texts(columns@)) + mapping_entry_errors(
            table@,
            entries@[i as int],
            texts(columns@),
        ) =~= e0 + mapping_errors(table@, entries@, (i + 1) as nat, texts(columns@)));
        i = i + 1;
    }
}

fn transform_messages(
    table: &String,
    entries: &Vec<(String, FieldTransform)>,
    columns: &Vec<String>,
    errors: &mut Vec<String>,
)
    ensures
        texts(final(errors)@) == texts(old(errors)@) + transform_errors(table@, entries@, entries@.len(), texts(columns@)),
{
    let ghost e0 = texts(errors@);
    let mut i: usize = 0;
    while i < entries.len()
        invariant
            i <= entries@.len(),
            texts(errors@) == e0 + transform_errors(table@, entries@, i as nat, texts(columns@)),
        decreases entries@.len() - i,
    {
        let ghost e1 = texts(errors@);
        let field: Option<&String> = match &entries[i].1 {
            FieldTransform::Rename { from, .. } => Some(from),
            FieldTransform::Convert { field, .. } => Some(field),
            _ => None,
        };
        match field {
            Some(f) => {
                let found = texts_contain(columns, f);
                let m = column_message(table, "Transform references non-existent field", f);
                append_texts(errors, when_text(!found, m));
            },
            None => {
                assert(texts(errors@) =~= e1 + Seq::<Seq<char>>::empty());
            },
        }
        assert(e0 + transform_errors(table@, entries@, i as nat, texts(columns@)) + (match transform_field(
            entries@[i as int].1,
        ) {
            Some(f) => only_if(
                !texts(columns@).contains(f),
                column_text(table@, "Transform references non-existent field"@, f),
            ),
            None => Seq::empty(),
        }) =~= e0 + transform_errors(table@, entries@, (i + 1) as nat, texts(columns@)));
        i = i + 1;
    }
}

} // verus!

verus! {

fn task_column_messages(task: &SyncTaskConfig, columns: &Vec<String>, errors: &mut Vec<String>)
    ensures
        texts(final(errors)@) == texts(old(errors)@) + task_column_errors(*task, texts(columns@)),
{
    let ghost e0 = texts(errors@);
    let ghost cols = texts(columns@);
    let table = &task.table;
    let ghost ef = texts(errors@);
    match &task.filter {
        Some(filter) => match &filter.conditions {
            Some(conditions) => {
                let fields = fields_of_conditions(conditions);
                missing_columns_messages(table, "Filter references non-existent field", &fields, columns, errors);
            },
            None => {},
        },
        None => {},
    }
    let ghost part1 = filter_column_errors(*task, cols);
    assert(texts(errors@) =~= e0 + part1);
    let ghost e1 = texts(errors@);
    match &task.mapping {
        Some(mapping) => match find_key(&mapping.tables, table) {
            Some(k) => match &mapping.tables[k].1.fields {
                Some(fields) => {
                    mapping_messages(table, fields, columns, errors);
                },
                None => {},
            },
            None => {},
        },
        None => {},
    }
    let ghost part2 = mapping_column_errors(*task, cols);
    assert(texts(errors@) =~= e1 + part2);
    let ghost e2 = texts(errors@);
    match &task.transform {
        Some(transform) => match find_key(&transform.fields, table) {
            Some(k) => {
                transform_messages(table, &transform.fields[k].1, columns, errors);
            },
            None => {},
        },
        None => {},
    }
    let ghost part3 = transform_column_errors(*task, cols);
    assert(texts(errors@) =~= e2 + part3);
    let ghost e3 = texts(errors@);
    match &task.soft_delete {
        Some(sd) => {
            let found = texts_contain(columns, &sd.field);
            let m = column_message(table, "Soft delete references non-existent field", &sd.field);
            append_texts(errors, when_text(!found, m));
        },
        None => {},
    }
    let ghost part4 = soft_delete_column_errors(*task, cols);
    assert(texts(errors@) =~= e3 + part4);
    assert(part1 + part2 + part3 + part4 == task_column_errors(*task, cols));
    assert(texts(errors@) =~= e0 + task_column_errors(*task, cols));
}

fn task_columns_message(task: &SyncTaskConfig, columns: &Vec<String>) -> (r: String)
    ensures
        r@ == task_columns_text(*task, texts(columns@)),
{
    let distinct = distinct_texts(columns);
    let mut m = "Table '".to_owned();
    append_str(&mut m, task.table.as_str());
    append_str(&mut m, "' has ");
    let n = u64_to_string(distinct.len() as u64);
    append_str(&mut m, n.as_str());
    append_str(&mut m, " columns: ");
    let d = set_debug_text(&distinct);
    append_str(&mut m, d.as_str());
    m
}

/// How reading the columns of a task's table went: the column names, or the
/// error's message.
pub type ColumnsOutcome = Result<Vec<String>, String>;

/// What checking task `i` against its table's columns reports.
pub open spec fn task_schema_report(t: SyncTaskConfig, outcome: ColumnsOutcome) -> ReportView {
    match outcome {
        Ok(columns) => ReportView {
            errors: task_column_errors(t, texts(columns@)),
            warnings: Seq::empty(),
            info: seq![task_columns_text(t, texts(columns@))],
        },
        Err(e) => ReportView {
            errors: Seq::empty(),
            warnings: seq!["Cannot validate fields for table '"@ + t.table@ + "': "@ + e@],
            info: Seq::empty(),
        },
    }
}

/// What checking the first `n` tasks against their tables' columns reports.
pub open spec fn tasks_schema_report(
    tasks: Seq<SyncTaskConfig>,
    outcomes: Seq<ColumnsOutcome>,
    n: nat,
) -> ReportView
    decreases n,
{
    if n == 0 {
        ReportView { errors: Seq::empty(), warnings: Seq::empty(), info: Seq::empty() }
    } else {
        let before = tasks_schema_report(tasks, outcomes, (n - 1) as nat);
        let r = task_schema_report(tasks[n - 1], outcomes[n - 1]);
        ReportView {
            errors: before.errors + r.errors,
            warnings: before.warnings + r.warnings,
            info: before.info + r.info,
        }
    }
}

/// The PostgreSQL settings of the single source, when that is the source;
/// only then are fields checked against the schema.
pub open spec fn schema_source(c: Config) -> Option<PostgreSQLConfig> {
    match c.source {
        Some(SourceConfig::PostgreSQL(pg)) => Some(pg),
        _ => None,
    }
}

impl ConfigValidator {
    /// The PostgreSQL source whose schema the fields are checked against.
    pub fn schema_source(&self) -> (r: Option<&PostgreSQLConfig>)
        ensures
            match r {
                Some(pg) => schema_source(self.configuration()) == Some(*pg),
                None => schema_source(self.configuration()) is None,
            },
    {
        match &self.config.source {
            Some(SourceConfig::PostgreSQL(pg)) => Some(pg),
            _ => None,
        }
    }

    /// Checks the fields that the tasks name against the columns of their
    /// tables. `connection` is how connecting to the source went: the
    /// outcome of reading the columns of each task's table, in task order,
    /// or the connection error's message. Without a PostgreSQL source
    /// nothing is checked.
    pub fn validate_fields_against_schema(
        &self,
        connection: &Result<Vec<ColumnsOutcome>, String>,
        report: &mut ValidationReport,
    )
        requires
            connection matches Ok(outcomes) ==> outcomes@.len() == self.configuration().sync_tasks@.len(),
        ensures
            schema_source(self.configuration()) is None ==> final(report)@ == old(report)@,
            schema_source(self.configuration()) is Some ==> match connection {
                Err(e) => final(report)@ == ReportView {
                    warnings: old(report)@.warnings.push("Cannot validate fields against schema: "@ + e@),
                    ..old(report)@
                },
                Ok(outcomes) => {
                    let r = tasks_schema_report(
                        self.configuration().sync_tasks@,
                        outcomes@,
                        outcomes@.len(),
                    );
                    &&& final(report)@.errors == old(report)@.errors + r.errors
                    &&& final(report)@.warnings == old(report)@.warnings + r.warnings
                    &&& final(report)@.info == old(report)@.info + r.info
                },
            },
    {
        if self.schema_source().is_none() {
            return;
        }
        match connection {
            Err(e) => {
                let mut m = "Cannot validate fields against schema: ".to_owned();
                append_str(&mut m, e.as_str());
                push_text(&mut report.warnings, m);
            },
            Ok(outcomes) => {
                let tasks = &self.config.sync_tasks;
                let ghost start = report@;
                let mut i: usize = 0;
                while i < outcomes.len()
                    invariant
                        i <= outcomes@.len(),
                        outcomes@.len() == tasks@.len(),
                        tasks == &self.config.sync_tasks,
                        report@.errors == start.errors + tasks_schema_report(tasks@, outcomes@, i as nat).errors,
                        report@.warnings == start.warnings + tasks_schema_report(tasks@, outcomes@, i as nat).warnings,
                        report@.info == start.info + tasks_schema_report(tasks@, outcomes@, i as nat).info,
                    decreases outcomes@.len() - i,
                {
                    let ghost r0 = report@;
                    let task = &tasks[i];
                    match &outcomes[i] {
                        Ok(columns) => {
                            task_column_messages(task, columns, &mut report.errors);
                            let m = task_columns_message(task, columns);
                            push_text(&mut report.info, m);
                        },
                        Err(e) => {
                            let mut m = "Cannot validate fields for table '".to_owned();
                            append_str(&mut m, task.table.as_str());
                            append_str(&mut m, "': ");
                            append_str(&mut m, e.as_str());
                            push_text(&mut report.warnings, m);
                        },
                    }
                    let ghost t = task_schema_report(tasks@[i as int], outcomes@[i as int]);
                    assert(report@.errors =~= r0.errors + t.errors);
                    assert(report@.warnings =~= r0.warnings + t.warnings);
                    assert(report@.info =~= r0.info + t.info);
                    let ghost b = tasks_schema_report(tasks@, outcomes@, i as nat);
                    assert(start.errors + b.errors + t.errors =~= start.errors + tasks_schema_report(tasks@, outcomes@, (i + 1) as nat).errors);
                    assert(start.warnings + b.warnings + t.warnings =~= start.warnings + tasks_schema_report(tasks@, outcomes@, (i + 1) as nat).warnings);
                    assert(start.info + b.info + t.info =~= start.info + tasks_schema_report(tasks@, outcomes@, (i + 1) as nat).info);
                    i = i + 1;
                }
            },
        }
    }
}

proof fn lemma_tasks_errors_keep_task_errors(tasks: Seq<SyncTaskConfig>, n: nat, k: int, m: Seq<char>)
    requires
        0 <= k < n,
        task_errors(tasks, k).contains(m),
    ensures
        tasks_errors(tasks, n).contains(m),
    decreases n,
{
    let prev = tasks_errors(tasks, (n - 1) as nat);
    let last = task_errors(tasks, n - 1);
    assert(tasks_errors(tasks, n) == prev + last);
    if k == n - 1 {
        let i = choose|i: int| 0 <= i < last.len() && last[i] == m;
        assert((prev + last)[prev.len() + i] == m);
    } else {
        lemma_tasks_errors_keep_task_errors(tasks, (n - 1) as nat, k, m);
        let i = choose|i: int| 0 <= i < prev.len() && prev[i] == m;
        assert((prev + last)[i] == m);
    }
}

/// Two sync tasks on the same table make the configuration invalid: the
/// report's errors name the table as synced twice.
pub proof fn law_duplicate_table_is_an_error(c: Config, j: int, k: int)
    requires
        0 <= j < k < c.sync_tasks@.len(),
        c.sync_tasks@[j].table@ == c.sync_tasks@[k].table@,
    ensures
        config_report(c).errors.contains(duplicate_table_text(c.sync_tasks@[k].table@)),
        config_report(c).errors.len() > 0,
{
    let tasks = c.sync_tasks@;
    let m = duplicate_table_text(tasks[k].table@);
    assert(tasks[j].table@ == tasks[k].table@);
    assert(table_seen(tasks, k));
    assert(task_errors(tasks, k)[0] == m);
    lemma_tasks_errors_keep_task_errors(tasks, tasks.len(), k, m);
    let te = tasks_errors(tasks, tasks.len());
    let i = choose|i: int| 0 <= i < te.len() && te[i] == m;
    let errs = config_report(c).errors;
    assert(errs[i] == m);
}

} // verus!
