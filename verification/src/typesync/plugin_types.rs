//! What output rule plugins answer: overrides of types and fields.

use vstd::prelude::*;
use crate::named_map::NamedMap;

verus! {

/// Type-level override from a rule plugin.
#[derive(Debug, Clone, Default)]
pub struct TypeOverride {
    /// Macroforge derives for typesync.
    pub macroforge_derives: Vec<String>,
    /// Annotations for typesync.
    pub annotations: Vec<String>,
    /// Table permissions for schemasync.
    pub permissions: Option<PermissionsOverride>,
    /// Event definitions for schemasync.
    pub events: Vec<EventOverride>,
}

/// Field-level override from a rule plugin.
#[derive(Debug, Clone, Default)]
pub struct FieldOverride {
    /// Annotations for typesync.
    pub annotations: Vec<String>,
}

/// Permissions for a schemasync `DEFINE TABLE`.
#[derive(Debug, Clone, Default)]
pub struct PermissionsOverride {
    pub select: String,
    pub create: String,
    pub update: String,
    pub delete: String,
}

/// An event definition for schemasync.
#[derive(Debug, Clone, Default)]
pub struct EventOverride {
    pub name: String,
    pub statement: String,
}

/// Output from an output rule plugin.
#[derive(Debug)]
pub struct OutputRulePluginOutput {
    /// Type-level overrides.
    pub type_override: TypeOverride,
    /// Per-field (or per-variant) overrides, keyed by field or variant name.
    pub field_overrides: NamedMap<FieldOverride>,
    /// An error message; when set, the plugin's output is skipped.
    pub error: Option<String>,
}

impl Default for OutputRulePluginOutput {
    fn default() -> (r: OutputRulePluginOutput)
        ensures
            r.type_override.macroforge_derives@.len() == 0,
            r.type_override.annotations@.len() == 0,
            r.type_override.permissions is None,
            r.type_override.events@.len() == 0,
            r.field_overrides@.len() == 0,
            r.error is None,
    {
        OutputRulePluginOutput {
            type_override: TypeOverride {
                macroforge_derives: Vec::new(),
                annotations: Vec::new(),
                permissions: None,
                events: Vec::new(),
            },
            field_overrides: NamedMap::new(),
            error: None,
        }
    }
}

} // verus!
