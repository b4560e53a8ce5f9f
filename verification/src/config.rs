//! Settings read from the project configuration.

use vstd::prelude::*;

verus! {

/// The TypeScript import that a foreign type's generated type needs, from
/// the `effect` package. An empty name means that it needs none.
#[derive(Debug, Clone, Default, PartialEq, Eq)]
pub struct TsImport {
    /// The name imported.
    pub name: String,
    /// Whether the import is `import type`.
    pub is_type_only: bool,
}

impl TsImport {
    /// Whether no import is configured.
    pub fn is_empty(&self) -> (r: bool)
        ensures
            r == (self.name@.len() == 0),
    {
        self.name.as_str().is_empty()
    }
}

/// How a type from another crate is written in each output.
#[derive(Debug, Clone, Default, PartialEq, Eq)]
pub struct ForeignTypeConfig {
    /// The Rust names the type goes by, such as `DateTime` and
    /// `chrono::DateTime`.
    pub rust_type_names: Vec<String>,
    /// The SurrealDB type.
    pub surrealdb: String,
    /// The ArkType type.
    pub arktype: String,
    /// The Effect schema.
    pub effect: String,
    /// The macroforge TypeScript type.
    pub macroforge: String,
    /// The serde format annotation, if any.
    pub serde_format: String,
    /// The import its TypeScript type needs, if any.
    pub ts_import: TsImport,
}

/// The model of a [`ForeignTypeConfig`].
pub struct ForeignTypeConfigV {
    pub rust_type_names: Seq<Seq<char>>,
    pub surrealdb: Seq<char>,
    pub arktype: Seq<char>,
    pub effect: Seq<char>,
    pub macroforge: Seq<char>,
    pub serde_format: Seq<char>,
    /// The name imported and whether the import is for types only.
    pub ts_import: (Seq<char>, bool),
}

impl View for ForeignTypeConfig {
    type V = ForeignTypeConfigV;

    open spec fn view(&self) -> ForeignTypeConfigV {
        ForeignTypeConfigV {
            rust_type_names: self.rust_type_names@.map_values(|s: String| s@),
            surrealdb: self.surrealdb@,
            arktype: self.arktype@,
            effect: self.effect@,
            macroforge: self.macroforge@,
            serde_format: self.serde_format@,
            ts_import: (self.ts_import.name@, self.ts_import.is_type_only),
        }
    }
}

/// A copy of the texts in `v`.
pub fn copy_texts(v: &Vec<String>) -> (r: Vec<String>)
    ensures
        r@.map_values(|s: String| s@) == v@.map_values(|s: String| s@),
{
    let mut out: Vec<String> = Vec::new();
    let mut i: usize = 0;
    while i < v.len()
        invariant
            i <= v@.len(),
            out@.len() == i,
            forall|k: int| 0 <= k < i ==> (#[trigger] out@[k])@ == v@[k]@,
        decreases v.len() - i,
    {
        out.push(v[i].clone());
        i = i + 1;
    }
    assert(out@.map_values(|s: String| s@) =~= v@.map_values(|s: String| s@));
    out
}

impl ForeignTypeConfig {
    /// A copy of this configuration.
    pub fn duplicate(&self) -> (r: ForeignTypeConfig)
        ensures
            r@ == self@,
    {
        ForeignTypeConfig {
            rust_type_names: copy_texts(&self.rust_type_names),
            surrealdb: self.surrealdb.clone(),
            arktype: self.arktype.clone(),
            effect: self.effect.clone(),
            macroforge: self.macroforge.clone(),
            serde_format: self.serde_format.clone(),
            ts_import: TsImport { name: self.ts_import.name.clone(), is_type_only: self.ts_import.is_type_only },
        }
    }
}

} // verus!
