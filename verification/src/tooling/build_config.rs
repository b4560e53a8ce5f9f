//! Build-time configuration for type generation.

use vstd::prelude::*;
use crate::config::ForeignTypeConfig;
use crate::named_map::NamedMap;
use crate::text::owned;
use crate::typesync::config::{
    ArrayStyle, CollisionStrategy, FileNamingConvention, ImportExtensionStyle, OutputKind, OutputMode,
    TypesyncOutput,
};

verus! {

/// A file outside the scan subtree that is also read for types.
#[derive(Debug, Clone, PartialEq, Eq)]
pub struct IncludeFile {
    /// The file's path, resolved against the project root.
    pub path: String,
    /// Whether its types only resolve references, without being generated.
    pub resolve_only: bool,
}

/// Configuration for build-time type generation.
#[derive(Debug)]
pub struct BuildConfig {
    /// Root path to scan for Rust types.
    pub scan_path: String,
    /// The config file this configuration was loaded from, if any.
    pub config_path: Option<String>,
    /// Apply aliases for attribute detection (e.g. custom derive macros).
    pub apply_aliases: Vec<String>,
    /// Whether to use `cargo expand` to resolve macro-generated types.
    pub expand_macros: bool,
    /// The outputs to generate; each `dir` resolves against `scan_path`.
    pub outputs: Vec<TypesyncOutput>,
    /// How to handle type name collisions across files.
    pub collision_strategy: CollisionStrategy,
    /// Foreign type configurations, keyed by canonical type name.
    pub foreign_types: NamedMap<ForeignTypeConfig>,
    /// Files outside the scan subtree to read for types as well, with
    /// their paths resolved against the project root.
    pub include_files: Vec<IncludeFile>,
}

/// Whether `o` is the default output: ArkType into `./src/generated/`.
pub open spec fn is_default_output(o: TypesyncOutput) -> bool {
    &&& o.kind == OutputKind::Arktype
    &&& o.dir@ == "./src/generated/"@
    &&& o.file is None
    &&& o.namespace is None
    &&& o.package is None
    &&& !o.import_validate
    &&& o.files.mode == OutputMode::Single
    &&& !o.files.barrel_file
    &&& o.files.file_naming == FileNamingConvention::Kebab
    &&& o.files.file_extension@ == ".ts"@
    &&& o.files.array_style == ArrayStyle::Shorthand
    &&& o.files.import_extension == ImportExtensionStyle::Bare
}

/// Whether `c` holds the default settings.
pub open spec fn is_default_config(c: BuildConfig) -> bool {
    &&& c.scan_path@ == "."@
    &&& c.config_path is None
    &&& c.apply_aliases@.len() == 0
    &&& !c.expand_macros
    &&& c.outputs@.len() == 1
    &&& is_default_output(c.outputs@[0])
    &&& c.collision_strategy == CollisionStrategy::Error
    &&& c.foreign_types@.len() == 0
    &&& c.include_files@.len() == 0
}

impl Default for BuildConfig {
    fn default() -> (r: BuildConfig)
        ensures
            is_default_config(r),
    {
        BuildConfig {
            scan_path: owned("."),
            config_path: None,
            apply_aliases: Vec::new(),
            expand_macros: false,
            outputs: vec![TypesyncOutput::new(OutputKind::Arktype, "./src/generated/")],
            collision_strategy: CollisionStrategy::Error,
            foreign_types: NamedMap::new(),
            include_files: Vec::new(),
        }
    }
}

impl BuildConfig {
    /// A configuration with default values.
    pub fn new() -> (r: BuildConfig)
        ensures
            is_default_config(r),
    {
        BuildConfig::default()
    }

    /// A builder for configuring programmatically.
    pub fn builder() -> (r: BuildConfigBuilder)
        ensures
            is_default_config(r.spec_config()),
    {
        BuildConfigBuilder::new()
    }
}

/// Builder for a [`BuildConfig`].
#[derive(Debug)]
pub struct BuildConfigBuilder {
    config: BuildConfig,
}

impl BuildConfigBuilder {
    /// The configuration built so far.
    pub closed spec fn spec_config(self) -> BuildConfig {
        self.config
    }

    /// A builder starting from the default configuration.
    pub fn new() -> (r: BuildConfigBuilder)
        ensures
            is_default_config(r.spec_config()),
    {
        BuildConfigBuilder { config: BuildConfig::default() }
    }

    /// Sets the path to scan for Rust types.
    pub fn scan_path(self, path: &str) -> (r: BuildConfigBuilder)
        ensures
            r.spec_config().scan_path@ == path@,
            r.spec_config().config_path == self.spec_config().config_path,
            r.spec_config().apply_aliases == self.spec_config().apply_aliases,
            r.spec_config().expand_macros == self.spec_config().expand_macros,
            r.spec_config().outputs == self.spec_config().outputs,
            r.spec_config().collision_strategy == self.spec_config().collision_strategy,
            r.spec_config().foreign_types == self.spec_config().foreign_types,
            r.spec_config().include_files == self.spec_config().include_files,
    {
        let mut b = self;
        b.config.scan_path = owned(path);
        b
    }

    /// Adds an apply alias for attribute detection.
    pub fn apply_alias(self, alias: &str) -> (r: BuildConfigBuilder)
        ensures
            r.spec_config().apply_aliases@.len() == self.spec_config().apply_aliases@.len() + 1,
            r.spec_config().apply_aliases@.drop_last() == self.spec_config().apply_aliases@,
            r.spec_config().apply_aliases@.last()@ == alias@,
            r.spec_config().scan_path == self.spec_config().scan_path,
            r.spec_config().config_path == self.spec_config().config_path,
            r.spec_config().expand_macros == self.spec_config().expand_macros,
            r.spec_config().outputs == self.spec_config().outputs,
            r.spec_config().collision_strategy == self.spec_config().collision_strategy,
            r.spec_config().foreign_types == self.spec_config().foreign_types,
            r.spec_config().include_files == self.spec_config().include_files,
    {
        let mut b = self;
        b.config.apply_aliases.push(owned(alias));
        b
    }

    /// Sets the apply aliases.
    pub fn apply_aliases(self, aliases: Vec<String>) -> (r: BuildConfigBuilder)
        ensures
            r.spec_config().apply_aliases == aliases,
            r.spec_config().scan_path == self.spec_config().scan_path,
            r.spec_config().config_path == self.spec_config().config_path,
            r.spec_config().expand_macros == self.spec_config().expand_macros,
            r.spec_config().outputs == self.spec_config().outputs,
            r.spec_config().collision_strategy == self.spec_config().collision_strategy,
            r.spec_config().foreign_types == self.spec_config().foreign_types,
            r.spec_config().include_files == self.spec_config().include_files,
    {
        let mut b = self;
        b.config.apply_aliases = aliases;
        b
    }

    /// Enables or disables macro expansion via `cargo expand`.
    pub fn expand_macros(self, enabled: bool) -> (r: BuildConfigBuilder)
        ensures
            r.spec_config().expand_macros == enabled,
            r.spec_config().scan_path == self.spec_config().scan_path,
            r.spec_config().config_path == self.spec_config().config_path,
            r.spec_config().apply_aliases == self.spec_config().apply_aliases,
            r.spec_config().outputs == self.spec_config().outputs,
            r.spec_config().collision_strategy == self.spec_config().collision_strategy,
            r.spec_config().foreign_types == self.spec_config().foreign_types,
            r.spec_config().include_files == self.spec_config().include_files,
    {
        let mut b = self;
        b.config.expand_macros = enabled;
        b
    }

    /// Sets the foreign type configurations.
    pub fn foreign_types(self, foreign_types: NamedMap<ForeignTypeConfig>) -> (r: BuildConfigBuilder)
        ensures
            r.spec_config().foreign_types == foreign_types,
            r.spec_config().scan_path == self.spec_config().scan_path,
            r.spec_config().config_path == self.spec_config().config_path,
            r.spec_config().apply_aliases == self.spec_config().apply_aliases,
            r.spec_config().expand_macros == self.spec_config().expand_macros,
            r.spec_config().outputs == self.spec_config().outputs,
            r.spec_config().collision_strategy == self.spec_config().collision_strategy,
            r.spec_config().include_files == self.spec_config().include_files,
    {
        let mut b = self;
        b.config.foreign_types = foreign_types;
        b
    }

    /// Sets the outputs to generate, replacing the default ArkType output.
    pub fn outputs(self, outputs: Vec<TypesyncOutput>) -> (r: BuildConfigBuilder)
        ensures
            r.spec_config().outputs == outputs,
            r.spec_config().scan_path == self.spec_config().scan_path,
            r.spec_config().config_path == self.spec_config().config_path,
            r.spec_config().apply_aliases == self.spec_config().apply_aliases,
            r.spec_config().expand_macros == self.spec_config().expand_macros,
            r.spec_config().collision_strategy == self.spec_config().collision_strategy,
            r.spec_config().foreign_types == self.spec_config().foreign_types,
            r.spec_config().include_files == self.spec_config().include_files,
    {
        let mut b = self;
        b.config.outputs = outputs;
        b
    }

    /// The configuration built.
    pub fn build(self) -> (r: BuildConfig)
        ensures
            r == self.spec_config(),
    {
        self.config
    }
}

} // verus!
