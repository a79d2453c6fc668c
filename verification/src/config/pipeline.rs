//! Filter, transform and mapping settings of the pipeline.

use vstd::prelude::*;
use crate::json::JsonValue;

verus! {

/// Pipeline configuration for transformations and mappings.
#[derive(Debug)]
pub struct PipelineConfig {
    pub filter: Option<FilterConfig>,
    pub transform: Option<TransformConfig>,
    pub mapping: Option<MappingConfig>,
}

impl Default for PipelineConfig {
    fn default() -> (r: Self)
        ensures
            r.filter is None,
            r.transform is None,
            r.mapping is None,
    {
        PipelineConfig { filter: None, transform: None, mapping: None }
    }
}

/// Which events pass.
#[derive(Debug)]
pub struct FilterConfig {
    pub tables: TableFilter,
    /// Event types to keep: `create`, `update`, `delete`.
    pub event_types: Option<Vec<String>>,
    /// Conditions on the row that must all hold.
    pub conditions: Option<Vec<Condition>>,
}

impl Default for FilterConfig {
    fn default() -> (r: Self)
        ensures
            r.tables.whitelist is None,
            r.tables.blacklist is None,
            r.event_types is None,
            r.conditions is None,
    {
        FilterConfig { tables: TableFilter::default(), event_types: None, conditions: None }
    }
}

/// Tables to include and exclude.
#[derive(Debug, Clone)]
pub struct TableFilter {
    pub whitelist: Option<Vec<String>>,
    pub blacklist: Option<Vec<String>>,
}

impl Default for TableFilter {
    fn default() -> (r: Self)
        ensures
            r.whitelist is None,
            r.blacklist is None,
    {
        TableFilter { whitelist: None, blacklist: None }
    }
}

/// Transformations: per table, a list of named field transforms; and
/// transforms applied to every row.
#[derive(Debug)]
pub struct TransformConfig {
    pub fields: Vec<(String, Vec<(String, FieldTransform)>)>,
    pub global_transforms: Option<Vec<Transform>>,
}

impl Default for TransformConfig {
    fn default() -> (r: Self)
        ensures
            r.fields@.len() == 0,
            r.global_transforms is None,
    {
        TransformConfig { fields: Vec::new(), global_transforms: None }
    }
}

/// Mappings: per table, a new name and field mappings.
#[derive(Debug)]
pub struct MappingConfig {
    pub tables: Vec<(String, TableMapping)>,
    /// Strategy for unmapped fields: `include`, `exclude` or `prefix`.
    pub unmapped_fields_strategy: String,
    /// Prefix for unmapped fields when the strategy is `prefix`.
    pub unmapped_fields_prefix: Option<String>,
}

impl Default for MappingConfig {
    fn default() -> (r: Self)
        ensures
            r.tables@.len() == 0,
            r.unmapped_fields_strategy@.len() == 0,
            r.unmapped_fields_prefix is None,
    {
        MappingConfig { tables: Vec::new(), unmapped_fields_strategy: String::new(), unmapped_fields_prefix: None }
    }
}

/// The mapping of one table.
#[derive(Debug)]
pub struct TableMapping {
    pub name: Option<String>,
    pub fields: Option<Vec<(String, FieldMapping)>>,
}

/// How a source field maps to the destination.
#[derive(Debug)]
pub enum FieldMapping {
    /// Rename to the given field.
    Simple(String),
    /// Rename with a default, combine several sources, or extract a path.
    Complex {
        to: Option<String>,
        default: Option<JsonValue>,
        sources: Option<Vec<String>>,
        separator: Option<String>,
        path: Option<String>,
    },
}

/// A transformation of one field.
#[derive(Debug, Clone)]
pub enum FieldTransform {
    Rename { from: String, to: String },
    Convert { field: String, to_type: String },
    Extract { from: String, path: String, to: String },
    Compute { expression: String, to: String },
}

/// A transformation of the whole row.
#[derive(Debug)]
pub enum Transform {
    AddField { name: String, value: JsonValue },
    RemoveField { name: String },
    AddTimestamp { field: String },
    Lowercase { fields: Vec<String> },
    Uppercase { fields: Vec<String> },
}

/// A condition on a row.
#[derive(Debug)]
pub enum Condition {
    Equals { field: String, value: JsonValue },
    NotEquals { field: String, value: JsonValue },
    Contains { field: String, value: JsonValue },
    GreaterThan { field: String, value: JsonValue },
    LessThan { field: String, value: JsonValue },
    In { field: String, values: Vec<JsonValue> },
    IsNull { field: String },
    IsNotNull { field: String },
    And { conditions: Vec<Condition> },
    Or { conditions: Vec<Condition> },
}

/// Default strategy for unmapped fields.
pub fn default_unmapped_strategy() -> (r: String)
    ensures
        r@ == "include"@,
{
    "include".to_owned()
}

} // verus!
