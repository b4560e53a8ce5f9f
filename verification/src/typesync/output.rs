//! What one configured output is generated from and where it writes.

use vstd::prelude::*;
use crate::named_map::{NamedMap, entries_view};
use crate::paths::{join_path, joined};
use crate::text::{opt_text, owned};
use crate::types::foreign_type_registry::ForeignTypeRegistry;
use crate::types::{StructConfig, TaggedUnion};
use crate::typesync::config::{OutputKind, OutputMode, TypesyncOutput, kind_filename, kind_name};
use crate::typesync::flatbuffers::{entry_values, generate_flatbuffers_schema_string, schema_text};
use crate::typesync::flatbuffers_parser::converter::{enum_views, struct_views};
use crate::typesync::effect::{component_texts, effect_module, generate_effect_schema_string};
use crate::typesync::arktype::{arktype_module, defaults_cover, defaults_of, generate_arktype_type_string};

verus! {

/// The types an output is generated from.
pub struct OutputTypes<'a> {
    pub structs: &'a NamedMap<StructConfig>,
    pub enums: &'a NamedMap<TaggedUnion>,
    pub registry: &'a ForeignTypeRegistry,
    /// The groups of mutually recursive types, by PascalCase name and
    /// whether each is recursive, in an order where a group comes after
    /// those it depends on, when the caller has analysed the dependencies.
    pub components: Option<&'a Vec<(Vec<String>, bool)>>,
    /// The default value of each field of each struct, by struct name and
    /// in field order, when the caller has computed them.
    pub defaults: Option<&'a NamedMap<Vec<String>>>,
}

/// The ArkType module of a single-file output: the scope import, the
/// module, and the export of the validator scope.
pub open spec fn arktype_file_text(
    structs: Seq<(Seq<char>, StructConfig)>,
    enums: Seq<(Seq<char>, TaggedUnion)>,
    defaults: Seq<(Seq<char>, Vec<String>)>,
    registry: ForeignTypeRegistry,
) -> Seq<char> {
    "import { scope } from 'arktype';\n\n"@ + arktype_module(structs, enums, defaults, false, registry.names(), registry.configs())
        + "\n\n export const validator = scope({\n  ...bindings.export(),\n}).export();"@
}

/// Whether `defaults` gives a default value for each field of each of
/// `structs`, as [`defaults_cover`] says.
pub fn defaults_given(structs: &NamedMap<StructConfig>, defaults: &NamedMap<Vec<String>>) -> (r: bool)
    ensures
        r == defaults_cover(structs@, defaults@),
{
    let ss = structs.entries();
    let mut i: usize = 0;
    while i < ss.len()
        invariant
            i <= ss@.len(),
            entries_view(ss@) == structs@,
            forall|k: int| 0 <= k < i ==> #[trigger] defaults_of(defaults@, structs@[k].0).len() == structs@[k].1.fields.len(),
        decreases ss.len() - i,
    {
        assert(structs@[i as int] == (ss@[i as int].0@, ss@[i as int].1));
        let n: usize = match defaults.get(ss[i].0.as_str()) {
            Some(v) => {
                assert(v@.map_values(|s: String| s@).len() == v@.len());
                v.len()
            },
            None => 0,
        };
        assert(defaults_of(defaults@, structs@[i as int].0).len() == n);
        if n != ss[i].1.fields.len() {
            return false;
        }
        i = i + 1;
    }
    true
}

/// The Effect module of a single-file output.
pub open spec fn effect_file_text(
    structs: Seq<(Seq<char>, StructConfig)>,
    enums: Seq<(Seq<char>, TaggedUnion)>,
    comps: Seq<(Seq<Seq<char>>, bool)>,
) -> Seq<char> {
    "import { Schema } from \"effect\";\n\n"@ + effect_module(structs, enums, comps, false)
}

/// A file an output wrote.
#[derive(Debug, Clone)]
pub struct GeneratedFile {
    pub path: String,
    pub bytes_written: usize,
    pub kind: OutputKind,
}

/// Where an output goes.
#[derive(Debug, Clone, PartialEq, Eq)]
pub enum Destination {
    /// One file, at this path.
    SingleFile(String),
    /// One file per type, directly in the output directory.
    PerFile,
}

/// The file named for a single-file output, if any: the one given, else
/// the output's own `file` in `dir`.
pub open spec fn named_file(file: Option<Seq<char>>, own: Option<Seq<char>>, dir: Seq<char>) -> Option<Seq<char>> {
    match file {
        Some(f) => Some(f),
        None => match own {
            Some(name) => Some(joined(dir, name)),
            None => None,
        },
    }
}

/// Where `output` goes when written into `dir`, with `file` given as its
/// file: a per-file output takes no file name; a single-file output goes to
/// `file` when given, else to its own `file` in `dir`, else to its kind's
/// standard name there.
pub open spec fn destination(
    kind: OutputKind,
    mode: OutputMode,
    own: Option<Seq<char>>,
    dir: Seq<char>,
    file: Option<Seq<char>>,
) -> Result<Option<Seq<char>>, Seq<char>> {
    match named_file(file, own, dir) {
        Some(f) => if mode == OutputMode::PerFile {
            Err(f + " names a single output file, but the `"@ + kind_name(kind)
                + "` output is per-file and writes a directory"@)
        } else {
            Ok(Some(f))
        },
        None => if mode == OutputMode::PerFile {
            Ok(None)
        } else {
            Ok(Some(joined(dir, kind_filename(kind))))
        },
    }
}

/// The text of an optional `&str`.
pub open spec fn given(o: Option<&str>) -> Option<Seq<char>> {
    match o {
        Some(s) => Some(s@),
        None => None,
    }
}

/// [`destination`] of `output` written into `dir` with `file` given.
pub open spec fn output_destination_of(output: TypesyncOutput, dir: Seq<char>, file: Option<Seq<char>>) -> Result<Option<Seq<char>>, Seq<char>> {
    destination(output.kind, output.files.mode, opt_text(output.file), dir, file)
}

/// Where `output` goes when written into `dir`, with `file` given as its
/// file (the part of writing an output that decides, before any file is
/// touched).
pub fn output_destination(output: &TypesyncOutput, dir: &str, file: Option<&str>) -> (r: Result<Destination, String>)
    ensures
        match r {
            Ok(Destination::SingleFile(p)) => output_destination_of(*output, dir@, given(file)) == Ok::<
                Option<Seq<char>>,
                Seq<char>,
            >(Some(p@)),
            Ok(Destination::PerFile) => output_destination_of(*output, dir@, given(file)) == Ok::<
                Option<Seq<char>>,
                Seq<char>,
            >(None),
            Err(m) => output_destination_of(*output, dir@, given(file)) == Err::<
                Option<Seq<char>>,
                Seq<char>,
            >(m@),
        },
{
    let named: Option<String> = match file {
        Some(f) => Some(owned(f)),
        None => match &output.file {
            Some(name) => Some(join_path(dir, name.as_str())),
            None => None,
        },
    };
    let per_file = output.files.mode == OutputMode::PerFile;
    match named {
        Some(f) => {
            if per_file {
                let mut m = f;
                m.append(" names a single output file, but the `");
                m.append(output.kind.name());
                m.append("` output is per-file and writes a directory");
                Err(m)
            } else {
                Ok(Destination::SingleFile(f))
            }
        },
        None => {
            if per_file {
                Ok(Destination::PerFile)
            } else {
                Ok(Destination::SingleFile(join_path(dir, output.kind.default_filename())))
            }
        },
    }
}


/// Why this library cannot write outputs of `kind`: their generator, or
/// what the generator is given by another analysis (the order of the type
/// dependencies, the default values of fields), is not part of it.
pub open spec fn not_built_text(kind: OutputKind) -> Seq<char> {
    "this evenframe cannot write `"@ + kind_name(kind)
        + "` outputs: their generator, or an analysis it needs (type dependencies, default values), is not part of this build"@
}

/// The refusal of an output whose generator this library lacks.
pub fn not_built(kind: OutputKind) -> (r: String)
    ensures
        r@ == not_built_text(kind),
{
    let mut m = owned("this evenframe cannot write `");
    m.append(kind.name());
    m.append("` outputs: their generator, or an analysis it needs (type dependencies, default values), is not part of this build");
    m
}

/// The content of the single file `output` writes from `types`: the
/// FlatBuffers schema for a FlatBuffers output, in the output's namespace;
/// the Effect module, after its import, for an Effect output when the type
/// dependencies are given; the ArkType module between its import and the
/// export of its scope, for an ArkType output when the default value of
/// each field is given; the refusal of [`not_built`] otherwise.
pub fn single_file_content(output: &TypesyncOutput, types: &OutputTypes) -> (r: Result<String, String>)
    ensures
        match output.kind {
            OutputKind::Flatbuffers => r is Ok && r->Ok_0@ == schema_text(
                entry_values(struct_views(types.structs@)),
                entry_values(enum_views(types.enums@)),
                opt_text(output.namespace),
            ),
            OutputKind::Effect => match types.components {
                Some(cs) => r is Ok && r->Ok_0@ == effect_file_text(types.structs@, types.enums@, component_texts(cs@)),
                None => r is Err && r->Err_0@ == not_built_text(output.kind),
            },
            OutputKind::Arktype => match types.defaults {
                Some(d) if defaults_cover(types.structs@, d@) => r is Ok && r->Ok_0@ == arktype_file_text(
                    types.structs@,
                    types.enums@,
                    d@,
                    *types.registry,
                ),
                _ => r is Err && r->Err_0@ == not_built_text(output.kind),
            },
            _ => r is Err && r->Err_0@ == not_built_text(output.kind),
        },
{
    match output.kind {
        OutputKind::Flatbuffers => {
            let namespace: Option<&str> = match &output.namespace {
                Some(ns) => Some(ns.as_str()),
                None => None,
            };
            Ok(generate_flatbuffers_schema_string(types.structs, types.enums, namespace))
        },
        OutputKind::Effect => match types.components {
            Some(cs) => {
                let mut c = owned("import { Schema } from \"effect\";\n\n");
                c.append(generate_effect_schema_string(types.structs, types.enums, cs, false).as_str());
                Ok(c)
            },
            None => Err(not_built(output.kind)),
        },
        OutputKind::Arktype => match types.defaults {
            Some(d) => {
                if defaults_given(types.structs, d) {
                    let mut c = owned("import { scope } from 'arktype';\n\n");
                    c.append(generate_arktype_type_string(types.structs, types.enums, d, false, types.registry).as_str());
                    c.append("\n\n export const validator = scope({\n  ...bindings.export(),\n}).export();");
                    Ok(c)
                } else {
                    Err(not_built(output.kind))
                }
            },
            None => Err(not_built(output.kind)),
        },
        _ => Err(not_built(output.kind)),
    }
}

/// Appends the import lines `import_lines` and a line break to `content`,
/// unless there are none.
pub fn push_imports(content: &mut String, import_lines: &str)
    ensures
        final(content)@ == if import_lines@.len() == 0 {
            old(content)@
        } else {
            old(content)@ + import_lines@ + "\n"@
        },
{
    if !import_lines.is_empty() {
        content.append(import_lines);
        content.append("\n");
    }
}

} // verus!
