//! The scan registry: the types resolved by the last workspace scan, kept
//! in a file meant to be committed, with the hashes of the inputs it read so
//! that a registry which no longer matches the sources is refused.

use vstd::prelude::*;
use crate::named_map::NamedMap;
use crate::paths::{join_path, joined};
use crate::text::owned;
use crate::tooling::cache::stale_reason_text;
use crate::types::{StructConfig, TaggedUnion};

verus! {

/// The layout version of the scan registry, bumped whenever it changes
/// incompatibly.
pub const REGISTRY_FORMAT_VERSION: u32 = 1;

/// The scan registry: the types resolved by the last workspace scan, with
/// the content hash of every input it read, keyed by its path relative to
/// the project root. Tables are kept with the schema configuration, which
/// is not part of this library.
#[derive(Debug)]
pub struct ScanRegistry {
    pub format_version: u32,
    pub evenframe_version: String,
    pub inputs: NamedMap<String>,
    pub enums: NamedMap<TaggedUnion>,
    pub objects: NamedMap<StructConfig>,
}

/// The message of a stale scan registry.
pub open spec fn stale_registry_text(reason: Seq<char>) -> Seq<char> {
    "The scan registry is stale: "@ + reason + ". Run `evenframe schemasync` to refresh it."@
}

impl ScanRegistry {
    /// The registry of a scan by the evenframe version `evenframe_version`
    /// that read the inputs `inputs` and resolved `enums` and `objects`.
    pub fn from_scan(
        evenframe_version: &str,
        inputs: NamedMap<String>,
        enums: NamedMap<TaggedUnion>,
        objects: NamedMap<StructConfig>,
    ) -> (r: ScanRegistry)
        ensures
            r.format_version == REGISTRY_FORMAT_VERSION,
            r.evenframe_version@ == evenframe_version@,
            r.inputs@ == inputs@,
            r.enums@ == enums@,
            r.objects@ == objects@,
    {
        ScanRegistry {
            format_version: REGISTRY_FORMAT_VERSION,
            evenframe_version: owned(evenframe_version),
            inputs,
            enums,
            objects,
        }
    }

    /// The registry path of the project rooted at `project_root`.
    pub fn path(project_root: &str) -> (r: String)
        ensures
            r@ == joined(project_root@, ".evenframe/registry.json"@),
    {
        join_path(project_root, ".evenframe/registry.json")
    }

    /// Why this registry no longer describes the project whose inputs now
    /// hash to `current_inputs`, for the evenframe version
    /// `current_version`, or `None` when it is current.
    pub fn stale_reason(&self, current_version: &str, current_inputs: &NamedMap<String>) -> (r: Option<String>)
        ensures
            match r {
                Some(t) => stale_reason_text("registry"@, self.format_version, REGISTRY_FORMAT_VERSION, self.evenframe_version@, current_version@, self.inputs@, current_inputs@) == Some(t@),
                None => stale_reason_text("registry"@, self.format_version, REGISTRY_FORMAT_VERSION, self.evenframe_version@, current_version@, self.inputs@, current_inputs@) is None,
            },
    {
        crate::tooling::cache::stale_reason_of(
            "registry",
            self.format_version,
            REGISTRY_FORMAT_VERSION,
            self.evenframe_version.as_str(),
            current_version,
            &self.inputs,
            current_inputs,
        )
    }

    /// The loaded registry `loaded` when it is current, else the error that
    /// tells why it is stale and how to refresh it.
    pub fn load_current(loaded: ScanRegistry, current_version: &str, current_inputs: &NamedMap<String>) -> (r: Result<ScanRegistry, String>)
        ensures
            match stale_reason_text("registry"@, loaded.format_version, REGISTRY_FORMAT_VERSION, loaded.evenframe_version@, current_version@, loaded.inputs@, current_inputs@) {
                Some(reason) => r is Err && r->Err_0@ == stale_registry_text(reason),
                None => r is Ok && r->Ok_0 == loaded,
            },
    {
        match loaded.stale_reason(current_version, current_inputs) {
            Some(reason) => {
                let mut m = owned("The scan registry is stale: ");
                m.append(reason.as_str());
                m.append(". Run `evenframe schemasync` to refresh it.");
                Err(m)
            },
            None => Ok(loaded),
        }
    }

    /// The scan results: the enums and the objects.
    pub fn into_configs(self) -> (r: (NamedMap<TaggedUnion>, NamedMap<StructConfig>))
        ensures
            r.0@ == self.enums@,
            r.1@ == self.objects@,
    {
        (self.enums, self.objects)
    }
}

} // verus!
