//! The `[typesync]` configuration: which outputs to generate and how.

use vstd::prelude::*;
use crate::text::owned;
use crate::paths::{join_path, joined, normalize_path, normalized};

verus! {

/// Whether to emit all types into a single file or split into per-type files.
#[derive(Debug, Clone, Copy, PartialEq, Eq, Structural, Default)]
pub enum OutputMode {
    /// All types in one file (default).
    #[default]
    Single,
    /// Each primary type gets its own file; exclusive dependents are co-located.
    PerFile,
}

/// TypeScript array syntax style.
#[derive(Debug, Clone, Copy, PartialEq, Eq, Structural, Default)]
pub enum ArrayStyle {
    /// Shorthand syntax: `Type[]` (default).
    #[default]
    Shorthand,
    /// Generic syntax: `Array<Type>`.
    Generic,
}

/// Naming convention for generated per-file filenames.
#[derive(Debug, Clone, Copy, PartialEq, Eq, Structural, Default)]
pub enum FileNamingConvention {
    /// PascalCase (e.g. `UserProfile.ts`).
    Pascal,
    /// kebab-case (e.g. `user-profile.ts`), the default.
    #[default]
    Kebab,
    /// snake_case (e.g. `user_profile.ts`).
    Snake,
    /// camelCase (e.g. `userProfile.ts`).
    Camel,
}

/// Extension policy for the relative import specifiers in generated files.
#[derive(Debug, Clone, Copy, PartialEq, Eq, Structural, Default)]
pub enum ImportExtensionStyle {
    /// Extensionless specifiers (`./user.svelte`), the default.
    #[default]
    Bare,
    /// The extension the file has after transpilation (`./user.svelte.js`).
    Js,
}

/// How to handle type name collisions across different source files.
#[derive(Debug, Clone, Copy, PartialEq, Eq, Structural, Default)]
pub enum CollisionStrategy {
    /// Stop with a diagnostic error naming both files (default).
    #[default]
    Error,
    /// Prefix the colliding type with its source file name in PascalCase.
    AutoRename,
}

/// Per-file output configuration (under `[typesync.output]`).
#[derive(Debug, Clone, PartialEq, Eq)]
pub struct OutputConfig {
    /// Single-file or per-file output mode.
    pub mode: OutputMode,
    /// Whether to generate a barrel `index.ts` that re-exports everything.
    pub barrel_file: bool,
    /// Naming convention for generated filenames.
    pub file_naming: FileNamingConvention,
    /// File extension for generated files (default: `.ts`).
    pub file_extension: String,
    /// TypeScript array syntax style (default: shorthand `Type[]`).
    pub array_style: ArrayStyle,
    /// Extension policy for relative import specifiers (default: bare).
    pub import_extension: ImportExtensionStyle,
}

impl Default for OutputConfig {
    fn default() -> (r: OutputConfig)
        ensures
            r.mode == OutputMode::Single,
            !r.barrel_file,
            r.file_naming == FileNamingConvention::Kebab,
            r.file_extension@ == ".ts"@,
            r.array_style == ArrayStyle::Shorthand,
            r.import_extension == ImportExtensionStyle::Bare,
    {
        OutputConfig {
            mode: OutputMode::Single,
            barrel_file: false,
            file_naming: FileNamingConvention::Kebab,
            file_extension: owned(".ts"),
            array_style: ArrayStyle::Shorthand,
            import_extension: ImportExtensionStyle::Bare,
        }
    }
}

/// A kind of generated output.
#[derive(Debug, Clone, Copy, PartialEq, Eq, Structural, PartialOrd, Ord, Hash)]
pub enum OutputKind {
    /// ArkType validator schemas.
    Arktype,
    /// Effect-TS schemas.
    Effect,
    /// Macroforge TypeScript interfaces.
    Macroforge,
    /// A FlatBuffers schema.
    Flatbuffers,
    /// A Protocol Buffers schema.
    Protobuf,
}

/// The name of an output kind.
pub open spec fn kind_name(k: OutputKind) -> Seq<char> {
    match k {
        OutputKind::Arktype => "arktype"@,
        OutputKind::Effect => "effect"@,
        OutputKind::Macroforge => "macroforge"@,
        OutputKind::Flatbuffers => "flatbuffers"@,
        OutputKind::Protobuf => "protobuf"@,
    }
}

/// The standard file of a single-file output of a kind.
pub open spec fn kind_filename(k: OutputKind) -> Seq<char> {
    match k {
        OutputKind::Arktype => "arktype.ts"@,
        OutputKind::Effect => "bindings.ts"@,
        OutputKind::Macroforge => "macroforge.ts"@,
        OutputKind::Flatbuffers => "schema.fbs"@,
        OutputKind::Protobuf => "schema.proto"@,
    }
}

impl OutputKind {
    /// The name the config and the CLI use for this kind.
    pub fn name(self) -> (r: &'static str)
        ensures
            r@ == kind_name(self),
    {
        match self {
            OutputKind::Arktype => "arktype",
            OutputKind::Effect => "effect",
            OutputKind::Macroforge => "macroforge",
            OutputKind::Flatbuffers => "flatbuffers",
            OutputKind::Protobuf => "protobuf",
        }
    }

    /// The file a single-file output of this kind is written to.
    pub fn default_filename(self) -> (r: &'static str)
        ensures
            r@ == kind_filename(self),
    {
        match self {
            OutputKind::Arktype => "arktype.ts",
            OutputKind::Effect => "bindings.ts",
            OutputKind::Macroforge => "macroforge.ts",
            OutputKind::Flatbuffers => "schema.fbs",
            OutputKind::Protobuf => "schema.proto",
        }
    }

    /// Whether this kind can write one file per type.
    pub fn supports_per_file(self) -> (r: bool)
        ensures
            r == (self == OutputKind::Effect || self == OutputKind::Macroforge),
    {
        match self {
            OutputKind::Effect | OutputKind::Macroforge => true,
            _ => false,
        }
    }

    /// The name of this kind as an owned text, as it is displayed.
    pub fn to_text(self) -> (r: String)
        ensures
            r@ == kind_name(self),
    {
        owned(self.name())
    }
}

/// One generated output: which generator runs, where its files go and how
/// they are laid out.
#[derive(Debug, Clone, PartialEq, Eq)]
pub struct TypesyncOutput {
    pub kind: OutputKind,
    /// Directory the output is written to, relative to the project root
    /// unless absolute.
    pub dir: String,
    /// File name of a single-file output within `dir`, instead of the kind's
    /// standard name (such as `arktype.ts`).
    pub file: Option<String>,
    pub files: OutputConfig,
    /// FlatBuffers namespace (e.g. "com.example.app").
    pub namespace: Option<String>,
    /// Protocol Buffers package (e.g. "com.example.app").
    pub package: Option<String>,
    /// Whether to import validate.proto for validation rules (Protocol
    /// Buffers).
    pub import_validate: bool,
}

/// The message with which [`TypesyncOutput::validate`] refuses an output,
/// or `None` when it accepts it.
pub open spec fn output_refusal(
    kind: OutputKind,
    has_file: bool,
    mode: OutputMode,
    has_namespace: bool,
    has_package: bool,
    import_validate: bool,
) -> Option<Seq<char>> {
    if has_file && mode == OutputMode::PerFile {
        Some("`file` names a single output file, but the `"@ + kind_name(kind) + "` output is per-file"@)
    } else if mode == OutputMode::PerFile && !(kind == OutputKind::Effect || kind == OutputKind::Macroforge) {
        Some("the `"@ + kind_name(kind) + "` output cannot use mode = \"per_file\"; only effect and macroforge can"@)
    } else if has_namespace && kind != OutputKind::Flatbuffers {
        Some("`namespace` only applies to flatbuffers outputs, not `"@ + kind_name(kind) + "`"@)
    } else if (has_package || import_validate) && kind != OutputKind::Protobuf {
        Some("`package` and `import_validate` only apply to protobuf outputs, not `"@ + kind_name(kind) + "`"@)
    } else {
        None
    }
}

fn three(a: &str, b: String, c: &str) -> (r: String)
    ensures
        r@ == a@ + b@ + c@,
{
    let mut r = owned(a);
    r.append(b.as_str());
    r.append(c);
    r
}

impl TypesyncOutput {
    /// An output of `kind` in `dir` with default settings.
    pub fn new(kind: OutputKind, dir: &str) -> (r: TypesyncOutput)
        ensures
            r.kind == kind,
            r.dir@ == dir@,
            r.file is None,
            r.files.mode == OutputMode::Single,
            !r.files.barrel_file,
            r.files.file_naming == FileNamingConvention::Kebab,
            r.files.file_extension@ == ".ts"@,
            r.files.array_style == ArrayStyle::Shorthand,
            r.files.import_extension == ImportExtensionStyle::Bare,
            r.namespace is None,
            r.package is None,
            !r.import_validate,
    {
        TypesyncOutput {
            kind,
            dir: owned(dir),
            file: None,
            files: OutputConfig::default(),
            namespace: None,
            package: None,
            import_validate: false,
        }
    }

    /// The output directory, resolved against `project_root`: the two
    /// joined, then rebuilt from their components, which drops the `./` that
    /// a directory such as `./src/generated/` leaves inside the joined path.
    pub fn resolve_dir(&self, project_root: &str) -> (r: String)
        ensures
            r@ == normalized(joined(project_root@, self.dir@)),
    {
        let j = join_path(project_root, self.dir.as_str());
        normalize_path(j.as_str())
    }

    /// The message refusing this output, if its generator cannot honor its
    /// settings.
    pub open spec fn refusal(&self) -> Option<Seq<char>> {
        output_refusal(
            self.kind,
            self.file is Some,
            self.files.mode,
            self.namespace is Some,
            self.package is Some,
            self.import_validate,
        )
    }

    /// Rejects settings the generator for this kind cannot honor.
    pub fn validate(&self) -> (r: Result<(), String>)
        ensures
            match r {
                Ok(()) => self.refusal() is None,
                Err(m) => self.refusal() == Some(m@),
            },
    {
        let kind = self.kind;
        if self.file.is_some() && self.files.mode == OutputMode::PerFile {
            return Err(three(
                "`file` names a single output file, but the `",
                kind.to_text(),
                "` output is per-file",
            ));
        }
        if self.files.mode == OutputMode::PerFile && !kind.supports_per_file() {
            return Err(three(
                "the `",
                kind.to_text(),
                "` output cannot use mode = \"per_file\"; only effect and macroforge can",
            ));
        }
        if self.namespace.is_some() && kind != OutputKind::Flatbuffers {
            return Err(three(
                "`namespace` only applies to flatbuffers outputs, not `",
                kind.to_text(),
                "`",
            ));
        }
        if (self.package.is_some() || self.import_validate) && kind != OutputKind::Protobuf {
            return Err(three(
                "`package` and `import_validate` only apply to protobuf outputs, not `",
                kind.to_text(),
                "`",
            ));
        }
        Ok(())
    }
}

/// Configuration for typesync: the outputs to generate.
#[derive(Debug, Clone, PartialEq, Eq)]
pub struct TypesyncConfig {
    /// Every configured output, from `output` (one) or `outputs` (several).
    pub outputs: Vec<TypesyncOutput>,
    /// How to handle type name collisions across different source files.
    pub collision_strategy: CollisionStrategy,
}

/// The outputs of the `[typesync]` table: its `output`, or else its
/// `outputs`.
pub open spec fn chosen_outputs(output: Option<TypesyncOutput>, outputs: Seq<TypesyncOutput>) -> Seq<TypesyncOutput> {
    match output {
        Some(o) => seq![o],
        None => outputs,
    }
}

/// The refusal of the first refused output of `s`, if any.
pub open spec fn first_refusal(s: Seq<TypesyncOutput>) -> Option<Seq<char>>
    decreases s.len(),
{
    if s.len() == 0 {
        None
    } else {
        match s[0].refusal() {
            Some(m) => Some(m),
            None => first_refusal(s.drop_first()),
        }
    }
}

impl TypesyncConfig {
    /// Builds the configuration from the `[typesync]` table as written: a
    /// single `output` table or an `outputs` array, not both; every output
    /// must pass [`TypesyncOutput::validate`], and the first refusal is the
    /// error.
    pub fn from_tables(
        output: Option<TypesyncOutput>,
        outputs: Vec<TypesyncOutput>,
        collision_strategy: CollisionStrategy,
    ) -> (r: Result<TypesyncConfig, String>)
        ensures
            output is Some && outputs@.len() > 0 ==> (r matches Err(m) && m@
                == "`output` and `outputs` cannot both be set"@),
            !(output is Some && outputs@.len() > 0) ==> match r {
                Ok(c) => first_refusal(chosen_outputs(output, outputs@)) is None
                    && c.outputs@ == chosen_outputs(output, outputs@)
                    && c.collision_strategy == collision_strategy,
                Err(m) => first_refusal(chosen_outputs(output, outputs@)) == Some(m@),
            },
    {
        if output.is_some() && outputs.len() > 0 {
            return Err(owned("`output` and `outputs` cannot both be set"));
        }
        let ghost chosen = chosen_outputs(output, outputs@);
        let all: Vec<TypesyncOutput> = match output {
            Some(o) => vec![o],
            None => outputs,
        };
        assert(all@ == chosen);
        let mut i: usize = 0;
        assert(all@.skip(0) == all@);
        while i < all.len()
            invariant
                i <= all@.len(),
                all@ == chosen,
                chosen == chosen_outputs(output, outputs@),
                !(output is Some && outputs@.len() > 0),
                first_refusal(chosen) == first_refusal(all@.skip(i as int)),
            decreases all.len() - i,
        {
            assert(all@.skip(i as int)[0] == all@[i as int]);
            assert(all@.skip(i as int).drop_first() == all@.skip(i + 1));
            match all[i].validate() {
                Ok(()) => {},
                Err(m) => {
                    return Err(m);
                },
            }
            i = i + 1;
        }
        Ok(TypesyncConfig { outputs: all, collision_strategy })
    }
}

} // verus!
