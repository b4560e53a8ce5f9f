//! Reading FlatBuffers schemas (`.fbs`) into the shared type model.
//!
//! A schema can carry validation metadata:
//!
//! ```fbs
//! table User {
//!     email: string (validate: "email");
//!     age: int32 (validate: "min(0), max(150)");
//!     name: string (validate: "minLength(1), maxLength(100)");
//! }
//! ```

pub mod ast;
pub mod lexer;
pub mod parser;
pub mod converter;
pub mod validator_extractor;

use vstd::prelude::*;
use crate::named_map::{
    NamedMap, lemma_put_all_sorted, lemma_put_all_value, put, put_all, sorted_names, value_of,
};
use crate::types::{StructConfig, StructConfigV, StructField, StructFieldV, TaggedUnion, TaggedUnionV};
use crate::typesync::flatbuffers_parser::ast::{FieldDefV, SchemaV, TableDefV};
use crate::text::{opt_text, texts};
use crate::typesync::flatbuffers_parser::converter::{
    FlatBuffersParseResult, ParseResultV, converted_schema, enum_views, struct_views,
};
use crate::typesync::flatbuffers_parser::lexer::{LexError, byte_len};
use crate::typesync::flatbuffers_parser::parser::{ErrV, ParseError, parse_source};
use crate::typesync::flatbuffers_parser::validator_extractor::{
    extract_field_validators, extract_table_validators, metadata_validators,
};
use crate::validator::{Validator, ValidatorV, validators_view};

verus! {

#[verifier::external_type_specification]
#[verifier::external_body]
pub struct ExIoError(std::io::Error);

/// The errors of reading FlatBuffers schemas.
#[derive(Debug)]
pub enum FlatBuffersError {
    /// A schema file could not be read.
    Io(std::io::Error),
    /// A schema could not be split into tokens.
    Lex(LexError),
    /// A schema could not be parsed.
    Parse(ParseError),
}

/// The fields `fs` of a struct with the validators of the fields `tfs` of
/// its table, field by field; fields past the table's keep theirs.
pub open spec fn fields_with_validators(fs: Seq<StructFieldV>, tfs: Seq<FieldDefV>) -> Seq<StructFieldV> {
    Seq::new(
        fs.len(),
        |i: int|
            if i < tfs.len() {
                StructFieldV { validators: metadata_validators(tfs[i].metadata), ..fs[i] }
            } else {
                fs[i]
            },
    )
}

/// A struct with the validators of the table `t`.
pub open spec fn struct_with_validators(c: StructConfigV, t: TableDefV) -> StructConfigV {
    StructConfigV {
        struct_name: c.struct_name,
        fields: fields_with_validators(c.fields, t.fields),
        validators: metadata_validators(t.metadata),
    }
}

/// The structs `m` with the validators of each of the tables `ts`, in
/// order, put into the struct of the table's name where there is one.
pub open spec fn structs_with_validators(m: Seq<(Seq<char>, StructConfigV)>, ts: Seq<TableDefV>) -> Seq<(Seq<char>, StructConfigV)>
    decreases ts.len(),
{
    if ts.len() == 0 {
        m
    } else {
        let prev = structs_with_validators(m, ts.drop_last());
        let t = ts.last();
        match value_of(prev, t.name) {
            Some(c) => put(prev, t.name, struct_with_validators(c, t)),
            None => prev,
        }
    }
}

/// What reading the source `s` gives: its structs and enums with the
/// validators of its tables, or the error that stops it.
pub open spec fn source_result(s: Seq<char>) -> Result<ParseResultV, ErrV> {
    match parse_source(s) {
        Err(e) => Err(e),
        Ok(schema) => {
            let c = converted_schema(schema);
            Ok(ParseResultV { structs: structs_with_validators(c.structs, schema.tables), ..c })
        },
    }
}

proof fn lemma_struct_update(s: Seq<(Seq<char>, StructConfig)>, i: int, v: StructConfig)
    requires
        0 <= i < s.len(),
    ensures
        struct_views(s.update(i, (s[i].0, v))) == struct_views(s).update(i, (s[i].0, v@)),
{
    assert(struct_views(s.update(i, (s[i].0, v))) =~= struct_views(s).update(i, (s[i].0, v@)));
}

/// The struct `cfg` with the validators of the table `table`.
fn add_validators(cfg: StructConfig, table: &crate::typesync::flatbuffers_parser::ast::TableDef) -> (r: StructConfig)
    ensures
        r@ == struct_with_validators(cfg@, table@),
{
    let ghost before = cfg@;
    let StructConfig { struct_name, fields, validators: _ } = cfg;
    let mut old_fields = fields;
    let ghost orig = old_fields@;
    let total = old_fields.len();
    let mut new_fields: Vec<StructField> = Vec::new();
    let mut j: usize = 0;
    assert(orig.skip(0) == orig);
    while old_fields.len() > 0
        invariant
            old_fields@ == orig.skip(j as int),
            j <= orig.len(),
            orig.len() == total,
            new_fields@.len() == j,
            before.fields == orig.map_values(|f: StructField| f@),
            forall|k: int| 0 <= k < j ==> (#[trigger] new_fields@[k])@ == fields_with_validators(
                before.fields,
                table@.fields,
            )[k],
        decreases old_fields.len(),
    {
        let mut f = old_fields.remove(0);
        assert(f == orig[j as int]);
        assert(orig.skip(j as int).drop_first() == orig.skip(j + 1));
        if j < table.fields.len() {
            f.validators = extract_field_validators(&table.fields[j]);
        }
        new_fields.push(f);
        j = j + 1;
    }
    let r = StructConfig {
        struct_name,
        fields: new_fields,
        validators: extract_table_validators(table),
    };
    assert(r@.fields =~= fields_with_validators(before.fields, table@.fields));
    r
}

/// Reads a FlatBuffers schema source: its tables and structs become
/// structs, its enums and unions tagged unions, and the `validate`
/// attributes of each table and its fields become validators of the
/// struct of the table's name. A lexing or parsing error is the error.
pub fn parse_flatbuffers_source(source: &str) -> (r: Result<FlatBuffersParseResult, FlatBuffersError>)
    requires
        byte_len(source@) <= usize::MAX,
    ensures
        match r {
            Ok(res) => source_result(source@) == Ok::<ParseResultV, ErrV>(res@),
            Err(FlatBuffersError::Parse(e)) => source_result(source@) == Err::<ParseResultV, ErrV>(e@),
            Err(_) => false,
        },
{
    let schema = match parser::parse(source) {
        Ok(s) => s,
        Err(e) => {
            return Err(FlatBuffersError::Parse(e));
        },
    };
    let mut result = converter::convert_schema(&schema);
    let ghost sv = schema@;
    let ghost c = result@;
    let mut i: usize = 0;
    while i < schema.tables.len()
        invariant
            sv == schema@,
            c == converted_schema(sv),
            i <= schema.tables@.len(),
            result@ == (ParseResultV {
                structs: structs_with_validators(c.structs, sv.tables.take(i as int)),
                ..c
            }),
        decreases schema.tables.len() - i,
    {
        let table = &schema.tables[i];
        proof {
            assert(sv.tables.take(i + 1).drop_last() == sv.tables.take(i as int));
            assert(sv.tables.take(i + 1).last() == table@);
        }
        match result.structs.index_of(table.name.as_str()) {
            Some(idx) => {
                let _ = result.structs.entries();
                let ghost entries = result.structs@;
                proof {
                    crate::named_map::lemma_value_of_map(entries, table.name@, |x: StructConfig| x@);
                    assert(struct_views(entries) =~= crate::named_map::map_entry_values(
                        entries,
                        |x: StructConfig| x@,
                    ));
                }
                let placeholder = StructConfig {
                    struct_name: String::new(),
                    fields: Vec::new(),
                    validators: Vec::new(),
                };
                let cfg = result.structs.swap_value_at(idx, placeholder);
                let updated = add_validators(cfg, table);
                let _ = result.structs.swap_value_at(idx, updated);
                proof {
                    let e2 = entries.update(idx as int, (entries[idx as int].0, updated));
                    assert(result.structs@ =~= e2);
                    lemma_struct_update(entries, idx as int, updated);
                    crate::named_map::lemma_put_map(entries, table.name@, updated, |x: StructConfig| x@);
                    crate::named_map::lemma_put_existing(struct_views(entries), idx as int, updated@);
                }
            },
            None => {
                proof {
                    crate::named_map::lemma_value_of_map(result.structs@, table.name@, |x: StructConfig| x@);
                    assert(struct_views(result.structs@) =~= crate::named_map::map_entry_values(
                        result.structs@,
                        |x: StructConfig| x@,
                    ));
                }
            },
        }
        i = i + 1;
    }
    assert(sv.tables.take(sv.tables.len() as int) == sv.tables);
    Ok(result)
}

/// `acc` with the result `r` of one more file merged in: its structs and
/// enums put over those read so far, its namespace taken when none was
/// found yet, its warnings added.
pub open spec fn merged(acc: ParseResultV, r: ParseResultV) -> ParseResultV {
    ParseResultV {
        structs: put_all(acc.structs, r.structs),
        enums: put_all(acc.enums, r.enums),
        namespace: if acc.namespace is None { r.namespace } else { acc.namespace },
        warnings: acc.warnings + r.warnings,
    }
}

/// Merging one more file's result keeps the names sorted; afterwards a name
/// has the struct (or enum) of that file when it has one, and keeps the one
/// it had otherwise. The first namespace found stays, and the file's
/// warnings come after those gathered so far.
pub proof fn lemma_merged(acc: ParseResultV, r: ParseResultV)
    requires
        sorted_names(acc.structs),
        sorted_names(acc.enums),
    ensures
        sorted_names(merged(acc, r).structs),
        sorted_names(merged(acc, r).enums),
        forall|k: Seq<char>| #[trigger] value_of(merged(acc, r).structs, k) == match value_of(r.structs, k) {
            Some(v) => Some(v),
            None => value_of(acc.structs, k),
        },
        forall|k: Seq<char>| #[trigger] value_of(merged(acc, r).enums, k) == match value_of(r.enums, k) {
            Some(v) => Some(v),
            None => value_of(acc.enums, k),
        },
        merged(acc, r).namespace == (if acc.namespace is Some { acc.namespace } else { r.namespace }),
        merged(acc, r).warnings == acc.warnings + r.warnings,
{
    lemma_put_all_sorted(acc.structs, r.structs);
    lemma_put_all_sorted(acc.enums, r.enums);
    assert forall|k: Seq<char>| #[trigger] value_of(merged(acc, r).structs, k) == match value_of(r.structs, k) {
        Some(v) => Some(v),
        None => value_of(acc.structs, k),
    } by {
        lemma_put_all_value(acc.structs, r.structs, k);
    }
    assert forall|k: Seq<char>| #[trigger] value_of(merged(acc, r).enums, k) == match value_of(r.enums, k) {
        Some(v) => Some(v),
        None => value_of(acc.enums, k),
    } by {
        lemma_put_all_value(acc.enums, r.enums, k);
    }
}

/// The struct named `k` in the last of the sources `srcs` whose result has
/// one.
pub open spec fn last_struct_of(srcs: Seq<Seq<char>>, k: Seq<char>) -> Option<StructConfigV>
    decreases srcs.len(),
{
    if srcs.len() == 0 {
        None
    } else {
        match source_result(srcs.last()) {
            Ok(r) => match value_of(r.structs, k) {
                Some(v) => Some(v),
                None => last_struct_of(srcs.drop_last(), k),
            },
            Err(_) => None,
        }
    }
}

/// The enum named `k` in the last of the sources `srcs` whose result has
/// one.
pub open spec fn last_enum_of(srcs: Seq<Seq<char>>, k: Seq<char>) -> Option<TaggedUnionV>
    decreases srcs.len(),
{
    if srcs.len() == 0 {
        None
    } else {
        match source_result(srcs.last()) {
            Ok(r) => match value_of(r.enums, k) {
                Some(v) => Some(v),
                None => last_enum_of(srcs.drop_last(), k),
            },
            Err(_) => None,
        }
    }
}

/// The namespace of the first of the sources `srcs` whose result has one.
pub open spec fn first_namespace(srcs: Seq<Seq<char>>) -> Option<Seq<char>>
    decreases srcs.len(),
{
    if srcs.len() == 0 {
        None
    } else {
        let before = first_namespace(srcs.drop_last());
        if before is Some {
            before
        } else {
            match source_result(srcs.last()) {
                Ok(r) => r.namespace,
                Err(_) => None,
            }
        }
    }
}

/// The warnings of the results of the sources `srcs`, in order.
pub open spec fn all_warnings(srcs: Seq<Seq<char>>) -> Seq<Seq<char>>
    decreases srcs.len(),
{
    if srcs.len() == 0 {
        Seq::empty()
    } else {
        all_warnings(srcs.drop_last()) + match source_result(srcs.last()) {
            Ok(r) => r.warnings,
            Err(_) => Seq::empty(),
        }
    }
}

/// Reading several sources, when it succeeds, gives each name the struct
/// (or enum) of the last source that defines it, the namespace of the
/// first source that has one, and the warnings of all sources in order.
pub proof fn lemma_sources_merged(srcs: Seq<Seq<char>>)
    ensures
        sources_result(srcs) matches Ok(acc) ==> {
            &&& forall|k: Seq<char>| #[trigger] value_of(acc.structs, k) == last_struct_of(srcs, k)
            &&& forall|k: Seq<char>| #[trigger] value_of(acc.enums, k) == last_enum_of(srcs, k)
            &&& acc.namespace == first_namespace(srcs)
            &&& acc.warnings == all_warnings(srcs)
        },
    decreases srcs.len(),
{
    if srcs.len() == 0 {
        if let Ok(acc) = sources_result(srcs) {
            assert forall|k: Seq<char>| #[trigger] value_of(acc.structs, k) == last_struct_of(srcs, k) by {
            }
            assert forall|k: Seq<char>| #[trigger] value_of(acc.enums, k) == last_enum_of(srcs, k) by {
            }
        }
    } else {
        let t = srcs.drop_last();
        lemma_sources_merged(t);
        lemma_sources_sorted(t);
        if let Ok(acc0) = sources_result(t) {
            if let Ok(r) = source_result(srcs.last()) {
                lemma_merged(acc0, r);
                let acc = merged(acc0, r);
                assert forall|k: Seq<char>| #[trigger] value_of(acc.structs, k) == last_struct_of(srcs, k) by {
                    assert(value_of(acc0.structs, k) == last_struct_of(t, k));
                }
                assert forall|k: Seq<char>| #[trigger] value_of(acc.enums, k) == last_enum_of(srcs, k) by {
                    assert(value_of(acc0.enums, k) == last_enum_of(t, k));
                }
            }
        }
    }
}

/// Whatever reading several sources gives has its names sorted.
pub proof fn lemma_sources_sorted(srcs: Seq<Seq<char>>)
    ensures
        sources_result(srcs) matches Ok(acc) ==> sorted_names(acc.structs) && sorted_names(acc.enums),
    decreases srcs.len(),
{
    if srcs.len() > 0 {
        lemma_sources_sorted(srcs.drop_last());
        if let Ok(acc) = sources_result(srcs.drop_last()) {
            if let Ok(r) = source_result(srcs.last()) {
                lemma_merged(acc, r);
            }
        }
    }
}

/// The result of reading the sources `srcs` in order and merging their
/// results, or the first error.
pub open spec fn sources_result(srcs: Seq<Seq<char>>) -> Result<ParseResultV, ErrV>
    decreases srcs.len(),
{
    if srcs.len() == 0 {
        Ok(ParseResultV { structs: Seq::empty(), enums: Seq::empty(), namespace: None, warnings: Seq::empty() })
    } else {
        match sources_result(srcs.drop_last()) {
            Err(e) => Err(e),
            Ok(acc) => match source_result(srcs.last()) {
                Err(e) => Err(e),
                Ok(r) => Ok(merged(acc, r)),
            },
        }
    }
}

proof fn lemma_error_extends(srcs: Seq<Seq<char>>, j: int, e: ErrV)
    requires
        0 <= j <= srcs.len(),
        sources_result(srcs.take(j)) == Err::<ParseResultV, ErrV>(e),
    ensures
        sources_result(srcs) == Err::<ParseResultV, ErrV>(e),
    decreases srcs.len() - j,
{
    if j < srcs.len() {
        assert(srcs.take(j + 1).drop_last() == srcs.take(j));
        lemma_error_extends(srcs, j + 1, e);
    } else {
        assert(srcs.take(j) == srcs);
    }
}

proof fn lemma_sources_error(srcs: Seq<Seq<char>>, i: int, e: ErrV)
    requires
        0 <= i < srcs.len(),
        sources_result(srcs.take(i)) is Ok,
        source_result(srcs[i]) == Err::<ParseResultV, ErrV>(e),
    ensures
        sources_result(srcs) == Err::<ParseResultV, ErrV>(e),
{
    assert(srcs.take(i + 1).drop_last() == srcs.take(i));
    assert(srcs.take(i + 1).last() == srcs[i]);
    lemma_error_extends(srcs, i + 1, e);
}

/// Puts every entry of `from` into `into`, in order.
fn put_entries<V>(into: &mut NamedMap<V>, from: NamedMap<V>)
    ensures
        final(into)@ == put_all(old(into)@, from@),
{
    let ghost src = from@;
    let mut es = from.into_entries();
    let ghost orig = es@;
    let ghost start = into@;
    let total = es.len();
    let mut j: usize = 0;
    assert(orig.skip(0) == orig);
    assert(src.take(0) =~= Seq::<(Seq<char>, V)>::empty());
    while es.len() > 0
        invariant
            es@ == orig.skip(j as int),
            j <= orig.len(),
            orig.len() == total,
            crate::named_map::entries_view(orig) == src,
            into@ == put_all(start, src.take(j as int)),
        decreases es.len(),
    {
        let (k, v) = es.remove(0);
        assert((k, v) == orig[j as int]);
        assert(orig.skip(j as int).drop_first() == orig.skip(j + 1));
        proof {
            assert(src.take(j + 1).drop_last() == src.take(j as int));
            assert(src[j as int] == (k@, v));
            assert(src.take(j + 1).last() == (k@, v));
        }
        into.insert(k, v);
        j = j + 1;
    }
    assert(src.take(src.len() as int) == src);
}

proof fn lemma_struct_put_all(m: Seq<(Seq<char>, StructConfig)>, es: Seq<(Seq<char>, StructConfig)>)
    ensures
        struct_views(put_all(m, es)) == put_all(struct_views(m), struct_views(es)),
    decreases es.len(),
{
    if es.len() > 0 {
        lemma_struct_put_all(m, es.drop_last());
        converter::lemma_struct_put(put_all(m, es.drop_last()), es.last().0, es.last().1);
        assert(struct_views(es).drop_last() =~= struct_views(es.drop_last()));
    }
}

proof fn lemma_enum_put_all(m: Seq<(Seq<char>, TaggedUnion)>, es: Seq<(Seq<char>, TaggedUnion)>)
    ensures
        enum_views(put_all(m, es)) == put_all(enum_views(m), enum_views(es)),
    decreases es.len(),
{
    if es.len() > 0 {
        lemma_enum_put_all(m, es.drop_last());
        converter::lemma_enum_put(put_all(m, es.drop_last()), es.last().0, es.last().1);
        assert(enum_views(es).drop_last() =~= enum_views(es.drop_last()));
    }
}

/// Reads several FlatBuffers schema sources and merges their results: the
/// structs and enums of later sources replace earlier ones of the same
/// name, the first namespace found is kept and the warnings are gathered.
/// The first error stops the reading.
pub fn parse_flatbuffers_files(sources: &Vec<String>) -> (r: Result<FlatBuffersParseResult, FlatBuffersError>)
    requires
        forall|i: int| 0 <= i < sources@.len() ==> byte_len(#[trigger] sources@[i]@) <= usize::MAX,
    ensures
        match r {
            Ok(res) => sources_result(texts(sources@)) == Ok::<ParseResultV, ErrV>(res@),
            Err(FlatBuffersError::Parse(e)) => sources_result(texts(sources@)) == Err::<ParseResultV, ErrV>(e@),
            Err(_) => false,
        },
{
    let mut merged_result = FlatBuffersParseResult::new();
    let ghost srcs = texts(sources@);
    assert(merged_result@.structs =~= Seq::<(Seq<char>, StructConfigV)>::empty());
    assert(merged_result@.enums =~= Seq::<(Seq<char>, TaggedUnionV)>::empty());
    assert(merged_result@.warnings =~= Seq::<Seq<char>>::empty());
    let mut i: usize = 0;
    while i < sources.len()
        invariant
            srcs == texts(sources@),
            i <= sources@.len(),
            forall|k: int| 0 <= k < sources@.len() ==> byte_len(#[trigger] sources@[k]@) <= usize::MAX,
            sources_result(srcs.take(i as int)) == Ok::<ParseResultV, ErrV>(merged_result@),
        decreases sources.len() - i,
    {
        proof {
            assert(srcs.take(i + 1).drop_last() == srcs.take(i as int));
            assert(srcs.take(i + 1).last() == sources@[i as int]@);
        }
        let result = match parse_flatbuffers_source(sources[i].as_str()) {
            Ok(r) => r,
            Err(e) => {
                proof {
                    if let FlatBuffersError::Parse(pe) = &e {
                        lemma_sources_error(srcs, i as int, pe@);
                    }
                }
                return Err(e);
            },
        };
        let ghost acc = merged_result@;
        let ghost rv = result@;
        let ghost old_structs = merged_result.structs@;
        let ghost old_enums = merged_result.enums@;
        let FlatBuffersParseResult { structs, enums, namespace, warnings } = result;
        proof {
            lemma_struct_put_all(old_structs, structs@);
            lemma_enum_put_all(old_enums, enums@);
        }
        put_entries(&mut merged_result.structs, structs);
        put_entries(&mut merged_result.enums, enums);
        if merged_result.namespace.is_none() {
            merged_result.namespace = namespace;
        }
        let mut w = warnings;
        merged_result.warnings.append(&mut w);
        proof {
            assert(texts(merged_result.warnings@) =~= acc.warnings + rv.warnings);
        }
        i = i + 1;
    }
    assert(srcs.take(srcs.len() as int) == srcs);
    Ok(merged_result)
}

/// What reading each schema file gave: its text, or nothing when it could
/// not be read.
pub open spec fn read_views(reads: Seq<Result<String, std::io::Error>>) -> Seq<Option<Seq<char>>> {
    reads.map_values(|r: Result<String, std::io::Error>| match r {
        Ok(s) => Some(s@),
        Err(_) => None,
    })
}

/// The index of the first file that could not be read, or the number of
/// files.
pub open spec fn first_unread(rs: Seq<Option<Seq<char>>>) -> int
    decreases rs.len(),
{
    if rs.len() == 0 {
        0
    } else if rs[0] is None {
        0
    } else {
        1 + first_unread(rs.drop_first())
    }
}

/// The texts of files that were all read.
pub open spec fn read_texts(rs: Seq<Option<Seq<char>>>) -> Seq<Seq<char>> {
    rs.map_values(|o: Option<Seq<char>>| match o {
        Some(s) => s,
        None => Seq::empty(),
    })
}

/// Reading files in order and merging them: the first file that cannot be
/// read or parsed stops it, with `None` for an unreadable file and the
/// parse error otherwise.
pub open spec fn reads_result(rs: Seq<Option<Seq<char>>>) -> Result<ParseResultV, Option<ErrV>> {
    let u = first_unread(rs);
    match sources_result(read_texts(rs.take(u))) {
        Err(e) => Err(Some(e)),
        Ok(acc) => if u < rs.len() {
            Err(None)
        } else {
            Ok(acc)
        },
    }
}

proof fn lemma_first_unread(rs: Seq<Option<Seq<char>>>, k: int)
    requires
        0 <= k <= rs.len(),
        forall|j: int| 0 <= j < k ==> rs[j] is Some,
        k < rs.len() ==> rs[k] is None,
    ensures
        first_unread(rs) == k,
    decreases k,
{
    if k > 0 {
        let t = rs.drop_first();
        assert forall|j: int| 0 <= j < k - 1 implies t[j] is Some by {
            assert(t[j] == rs[j + 1]);
        }
        if k < rs.len() {
            assert(t[k - 1] == rs[k]);
        }
        lemma_first_unread(t, k - 1);
    }
}

/// Parses the schema files that were read, in order, and merges their
/// results as [`parse_flatbuffers_files`] does: the first file that could
/// not be read, or that does not parse, stops it with its error.
pub fn parse_flatbuffers_reads(reads: Vec<Result<String, std::io::Error>>) -> (r: Result<FlatBuffersParseResult, FlatBuffersError>)
    requires
        forall|i: int| 0 <= i < reads@.len() && (#[trigger] reads@[i]) is Ok ==> byte_len(reads@[i]->Ok_0@) <= usize::MAX,
    ensures
        match r {
            Ok(res) => reads_result(read_views(reads@)) == Ok::<ParseResultV, Option<ErrV>>(res@),
            Err(FlatBuffersError::Io(_)) => reads_result(read_views(reads@)) == Err::<ParseResultV, Option<ErrV>>(None),
            Err(FlatBuffersError::Parse(e)) => reads_result(read_views(reads@)) == Err::<ParseResultV, Option<ErrV>>(Some(e@)),
            Err(_) => false,
        },
{
    let ghost rs = read_views(reads@);
    let ghost all = reads@;
    let n = reads.len();
    let mut rest = reads;
    let mut read: Vec<String> = Vec::new();
    let mut failed: Option<std::io::Error> = None;
    let mut k: usize = 0;
    assert(rest@ =~= all.skip(0));
    assert(texts(read@) =~= read_texts(rs.take(0)));
    while k < n && failed.is_none()
        invariant
            n == all.len(),
            rs == read_views(all),
            k <= n,
            failed is None ==> rest@ == all.skip(k as int),
            forall|j: int| 0 <= j < k ==> rs[j] is Some,
            failed is Some ==> k < n && rs[k as int] is None,
            texts(read@) == read_texts(rs.take(k as int)),
            forall|i: int| 0 <= i < all.len() && (#[trigger] all[i]) is Ok ==> byte_len(all[i]->Ok_0@) <= usize::MAX,
            forall|j: int| 0 <= j < read@.len() ==> byte_len(#[trigger] read@[j]@) <= usize::MAX,
        decreases n - k, if failed is None { 1int } else { 0int },
    {
        let item = rest.remove(0);
        assert(item == all[k as int]);
        match item {
            Ok(s) => {
                let ghost before = read@;
                let ghost sv = s@;
                read.push(s);
                proof {
                    assert(rest@ =~= all.skip(k + 1));
                    assert(rs.take(k + 1) =~= rs.take(k as int).push(Some(sv)));
                    assert(texts(read@) =~= texts(before).push(sv));
                    assert(read_texts(rs.take(k + 1)) =~= read_texts(rs.take(k as int)).push(sv));
                }
                k = k + 1;
            },
            Err(e) => {
                failed = Some(e);
            },
        }
    }
    proof {
        lemma_first_unread(rs, k as int);
    }
    match parse_flatbuffers_files(&read) {
        Err(e) => Err(e),
        Ok(res) => match failed {
            Some(e) => Err(FlatBuffersError::Io(e)),
            None => Ok(res),
        },
    }
}

proof fn lemma_first_unread_bound(rs: Seq<Option<Seq<char>>>)
    ensures
        0 <= first_unread(rs) <= rs.len(),
        forall|j: int| 0 <= j < first_unread(rs) ==> rs[j] is Some,
        first_unread(rs) < rs.len() ==> rs[first_unread(rs)] is None,
    decreases rs.len(),
{
    if rs.len() > 0 && rs[0] is Some {
        let t = rs.drop_first();
        lemma_first_unread_bound(t);
        assert forall|j: int| 0 <= j < first_unread(rs) implies rs[j] is Some by {
            if j > 0 {
                assert(rs[j] == t[j - 1]);
            }
        }
        if first_unread(rs) < rs.len() {
            assert(rs[first_unread(rs)] == t[first_unread(t)]);
        }
    }
}

/// Reading several schema files succeeds only when every file was read,
/// and then gives each name the struct (or enum) of the last file that
/// defines it, the namespace of the first file that has one, and the
/// warnings of all files in order. An unreadable file stops the reading
/// with an I/O error unless an earlier file fails to parse.
pub proof fn lemma_reads_merged(rs: Seq<Option<Seq<char>>>)
    ensures
        reads_result(rs) matches Ok(acc) ==> {
            &&& forall|j: int| 0 <= j < rs.len() ==> (#[trigger] rs[j]) is Some
            &&& forall|k: Seq<char>| #[trigger] value_of(acc.structs, k) == last_struct_of(read_texts(rs), k)
            &&& forall|k: Seq<char>| #[trigger] value_of(acc.enums, k) == last_enum_of(read_texts(rs), k)
            &&& acc.namespace == first_namespace(read_texts(rs))
            &&& acc.warnings == all_warnings(read_texts(rs))
        },
        reads_result(rs) == Err::<ParseResultV, Option<ErrV>>(None) ==> exists|j: int| 0 <= j < rs.len() && (#[trigger] rs[j]) is None,
{
    lemma_first_unread_bound(rs);
    let u = first_unread(rs);
    if u == rs.len() {
        assert(rs.take(u) =~= rs);
    }
    lemma_sources_merged(read_texts(rs));
}

} // verus!
