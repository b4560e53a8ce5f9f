//! Effect schema generation: the raw encoded TypeScript types of fields,
//! and the validators of a field written as `.pipe` calls on its schema.

use vstd::prelude::*;
use crate::case::{TextCase, case_converted, to_case};
use crate::named_map::{NamedMap, entries_view, put, put_all, value_of};
use crate::text::{decimal, join, join_strings, owned, texts, usize_text};
use crate::types::{StructConfig, StructConfigV, StructField, StructFieldV, TaggedUnion, TaggedUnionV, VariantData, VariantDataV, VariantV};
use crate::types::field_type::{
    FieldType, FieldTypeV, lemma_struct_view, lemma_tuple_view, named_views_of, views_of,
};
use crate::typesync::macroforge::{lower_first, number_variant_name};
use crate::validator::{
    ArrayValidator, ArrayValidatorV, BigDecimalValidator, BigDecimalValidatorV, BigIntValidator,
    BigIntValidatorV, DateValidator, DateValidatorV, DurationValidator, DurationValidatorV,
    NumberValidator, NumberValidatorV, StringValidator, StringValidatorV, Validator, ValidatorV,
    validators_view,
};

verus! {

/// The raw TypeScript type of a value of type `t` as it is encoded, for
/// the `...Encoded` interfaces.
pub open spec fn ts_encoded(t: FieldTypeV) -> Seq<char>
    decreases t,
{
    match t {
        FieldTypeV::String => "string"@,
        FieldTypeV::Char => "string"@,
        FieldTypeV::Bool => "boolean"@,
        FieldTypeV::Unit => "null"@,
        FieldTypeV::F32 => "number"@,
        FieldTypeV::F64 => "number"@,
        FieldTypeV::I8 => "number"@,
        FieldTypeV::I16 => "number"@,
        FieldTypeV::I32 => "number"@,
        FieldTypeV::I64 => "number"@,
        FieldTypeV::I128 => "number"@,
        FieldTypeV::Isize => "number"@,
        FieldTypeV::U8 => "number"@,
        FieldTypeV::U16 => "number"@,
        FieldTypeV::U32 => "number"@,
        FieldTypeV::U64 => "number"@,
        FieldTypeV::U128 => "number"@,
        FieldTypeV::Usize => "number"@,
        FieldTypeV::Tuple(ts) => "readonly ["@ + join(ts_encoded_all(ts), ", "@) + "]"@,
        FieldTypeV::Struct(fs) => "{\n"@ + join(ts_encoded_fields_all(fs), "\n"@) + "\n}"@,
        FieldTypeV::Option(b) => ts_encoded(*b) + " | null | undefined"@,
        FieldTypeV::Vec(b) => "ReadonlyArray<"@ + ts_encoded(*b) + ">"@,
        FieldTypeV::HashMap(k, v) => "Record<"@ + ts_encoded(*k) + ", "@ + ts_encoded(*v) + ">"@,
        FieldTypeV::BTreeMap(k, v) => "Record<"@ + ts_encoded(*k) + ", "@ + ts_encoded(*v) + ">"@,
        FieldTypeV::RecordLink(b) => "string | "@ + ts_encoded(*b),
        FieldTypeV::Other(name) => case_converted(name, TextCase::Pascal) + "Encoded"@,
    }
}

/// The encoded TypeScript types of `ts`, in order.
pub open spec fn ts_encoded_all(ts: Seq<FieldTypeV>) -> Seq<Seq<char>>
    decreases ts,
{
    if ts.len() == 0 {
        Seq::empty()
    } else {
        proof {
            vstd::seq::axiom_seq_index_decreases(ts, ts.len() - 1);
            assert(decreases_to!(ts => ts.subrange(0, ts.len() - 1)));
        }
        ts_encoded_all(ts.subrange(0, ts.len() - 1)).push(ts_encoded(ts[ts.len() - 1]))
    }
}

/// The `readonly name: type;` lines of the named types `fs`, in order.
pub open spec fn ts_encoded_fields_all(fs: Seq<(Seq<char>, FieldTypeV)>) -> Seq<Seq<char>>
    decreases fs,
{
    if fs.len() == 0 {
        Seq::empty()
    } else {
        proof {
            vstd::seq::axiom_seq_index_decreases(fs, fs.len() - 1);
            assert(decreases_to!(fs => fs.subrange(0, fs.len() - 1)));
        }
        let f = fs[fs.len() - 1];
        ts_encoded_fields_all(fs.subrange(0, fs.len() - 1)).push("  readonly "@ + f.0 + ": "@ + ts_encoded(f.1) + ";"@)
    }
}

/// Whether one of the structs `s` has the PascalCase name `p`.
pub open spec fn names_struct(s: Seq<(Seq<char>, StructConfig)>, p: Seq<char>) -> bool {
    exists|i: int| 0 <= i < s.len() && case_converted(#[trigger] s[i].1.struct_name@, TextCase::Pascal) == p
}

/// The Effect schema that a reference to the type named `name` becomes: a
/// suspended reference when the type is recursive with the one being
/// generated (`rec`) and not generated yet (`done`), else its PascalCase
/// name.
pub open spec fn effect_reference(s: Seq<(Seq<char>, StructConfig)>, rec: Seq<(Seq<char>, bool)>, done: Seq<(Seq<char>, bool)>, name: Seq<char>) -> Seq<char> {
    let p = case_converted(name, TextCase::Pascal);
    if value_of(rec, p) is Some && value_of(done, p) is None {
        if names_struct(s, p) {
            "Schema.suspend((): Schema.Schema<"@ + p + ", "@ + p + "Encoded> => "@ + p
                + ").annotations({ identifier: `"@ + p + "Ref` })"@
        } else {
            "Schema.suspend((): Schema.Schema<typeof "@ + p + ".Type, "@ + p + "Encoded> => "@ + p
                + ").annotations({ identifier: `"@ + p + "Ref` })"@
        }
    } else {
        p
    }
}

/// The Effect schema of a field type, given the structs `s`, the types
/// recursive with the one being generated (`rec`) and those generated
/// already (`done`).
pub open spec fn effect_schema(s: Seq<(Seq<char>, StructConfig)>, rec: Seq<(Seq<char>, bool)>, done: Seq<(Seq<char>, bool)>, t: FieldTypeV) -> Seq<char>
    decreases t,
{
    match t {
        FieldTypeV::String => "Schema.String.pipe(Schema.nonEmptyString({ message: () => `Please enter a value` }))"@,
        FieldTypeV::Char => "Schema.String.pipe(Schema.maxLength(1))"@,
        FieldTypeV::Bool => "Schema.Boolean"@,
        FieldTypeV::Unit => "Schema.Null"@,
        FieldTypeV::Tuple(ts) => "Schema.Tuple("@ + join(effect_schema_all(s, rec, done, ts), ", "@) + ")"@,
        FieldTypeV::Struct(fs) => "Schema.Struct({ "@ + join(effect_schema_fields_all(s, rec, done, fs), ", "@) + " })"@,
        FieldTypeV::Option(b) => "Schema.OptionFromNullishOr("@ + effect_schema(s, rec, done, *b) + ", null)"@,
        FieldTypeV::Vec(b) => "Schema.Array("@ + effect_schema(s, rec, done, *b) + ")"@,
        FieldTypeV::HashMap(k, v) => "Schema.Record({ key: "@ + effect_schema(s, rec, done, *k) + ", value: "@ + effect_schema(s, rec, done, *v) + " })"@,
        FieldTypeV::BTreeMap(k, v) => "Schema.Record({ key: "@ + effect_schema(s, rec, done, *k) + ", value: "@ + effect_schema(s, rec, done, *v) + " })"@,
        FieldTypeV::RecordLink(b) => "Schema.Union(Schema.String.pipe(Schema.nonEmptyString()), "@ + effect_schema(s, rec, done, *b)
            + ").annotations({ message: () => ({\n                message: `Please enter a valid value`,\n                override: true,\n            }), })"@,
        FieldTypeV::Other(name) => effect_reference(s, rec, done, name),
        _ => "Schema.Number"@,
    }
}

/// The Effect schemas of the types `ts`, in order.
pub open spec fn effect_schema_all(s: Seq<(Seq<char>, StructConfig)>, rec: Seq<(Seq<char>, bool)>, done: Seq<(Seq<char>, bool)>, ts: Seq<FieldTypeV>) -> Seq<Seq<char>>
    decreases ts,
{
    if ts.len() == 0 {
        Seq::empty()
    } else {
        proof {
            vstd::seq::axiom_seq_index_decreases(ts, ts.len() - 1);
            assert(decreases_to!(ts => ts.subrange(0, ts.len() - 1)));
        }
        effect_schema_all(s, rec, done, ts.subrange(0, ts.len() - 1)).push(effect_schema(s, rec, done, ts[ts.len() - 1]))
    }
}

/// The `name: schema` entries of the named types `fs`, in order.
pub open spec fn effect_schema_fields_all(s: Seq<(Seq<char>, StructConfig)>, rec: Seq<(Seq<char>, bool)>, done: Seq<(Seq<char>, bool)>, fs: Seq<(Seq<char>, FieldTypeV)>) -> Seq<Seq<char>>
    decreases fs,
{
    if fs.len() == 0 {
        Seq::empty()
    } else {
        proof {
            vstd::seq::axiom_seq_index_decreases(fs, fs.len() - 1);
            assert(decreases_to!(fs => fs.subrange(0, fs.len() - 1)));
        }
        let f = fs[fs.len() - 1];
        effect_schema_fields_all(s, rec, done, fs.subrange(0, fs.len() - 1)).push(f.0 + ": "@ + effect_schema(s, rec, done, f.1))
    }
}

/// The Effect pipe that a string validator adds to a schema of a field
/// titled `t`, if any.
pub open spec fn string_effect_pipe(v: StringValidatorV, t: Seq<char>) -> Option<Seq<char>> {
    match v {
        StringValidatorV::MinLength(len) => Some(".pipe(Schema.minLength("@ + decimal(len as nat) + ", { message: () => `"@ + t + "` must be at least "@ + decimal(len as nat) + " characters long` }))"@),
        StringValidatorV::MaxLength(len) => Some(".pipe(Schema.maxLength("@ + decimal(len as nat) + ", { message: () => `"@ + t + "` must be at most "@ + decimal(len as nat) + " characters long` }))"@),
        StringValidatorV::Length(len) => Some(".pipe(Schema.length("@ + len + ", { message: () => `"@ + t + "` must be exactly "@ + len + " characters long` }))"@),
        StringValidatorV::NonEmpty => Some(".pipe(Schema.nonEmptyString({ message: () => `"@ + t + "` Please enter a value` }))"@),
        StringValidatorV::StartsWith(prefix) => Some(".pipe(Schema.startsWith(\""@ + prefix + "\", { message: () => `"@ + t + "` must start with \""@ + prefix + "\" }))"@),
        StringValidatorV::EndsWith(suffix) => Some(".pipe(Schema.endsWith(\""@ + suffix + "\", { message: () => `"@ + t + "` must end with \""@ + suffix + "\" }))"@),
        StringValidatorV::Includes(substring) => Some(".pipe(Schema.includes(\""@ + substring + "\", { message: () => `"@ + t + "` must include \""@ + substring + "\" }))"@),
        StringValidatorV::Trimmed => Some(".pipe(Schema.trimmed)"@),
        StringValidatorV::Lowercased => Some(".pipe(Schema.toLowerCase)"@),
        StringValidatorV::Uppercased => Some(".pipe(Schema.toUpperCase)"@),
        StringValidatorV::Capitalized => Some(".pipe(Schema.capitalize)"@),
        StringValidatorV::Uncapitalized => Some(".pipe(Schema.uncapitalize)"@),
        StringValidatorV::RegexLiteral(pattern) => Some(".pipe(Schema.pattern(/"@ + pattern + "/, { message: () => `"@ + t + "` has an invalid format` }))"@),
        _ => None,
    }
}

/// The Effect pipe that a number validator adds to a schema of a field
/// titled `t`, if any.
pub open spec fn number_effect_pipe(v: NumberValidatorV, t: Seq<char>) -> Option<Seq<char>> {
    match v {
        NumberValidatorV::GreaterThan(value) => Some(".pipe(Schema.greaterThan("@ + value + ", { message: () => `"@ + t + "` must be greater than "@ + value + "` }))"@),
        NumberValidatorV::GreaterThanOrEqualTo(value) => Some(".pipe(Schema.greaterThanOrEqualTo("@ + value + ", { message: () => `"@ + t + "` must be greater than or equal to "@ + value + "` }))"@),
        NumberValidatorV::LessThan(value) => Some(".pipe(Schema.lessThan("@ + value + ", { message: () => `"@ + t + "` must be less than "@ + value + "` }))"@),
        NumberValidatorV::LessThanOrEqualTo(value) => Some(".pipe(Schema.lessThanOrEqualTo("@ + value + ", { message: () => `"@ + t + "` must be less than or equal to "@ + value + "` }))"@),
        NumberValidatorV::Between(start, end) => Some(".pipe(Schema.between("@ + start + ", "@ + end + ", { message: () => `"@ + t + "` must be between "@ + start + " and "@ + end + "` }))"@),
        NumberValidatorV::Int => Some(".pipe(Schema.int({ message: () => `"@ + t + "` must be an integer` }))"@),
        NumberValidatorV::NonNaN => Some(".pipe(Schema.nonNaN({ message: () => `"@ + t + "` must not be NaN` }))"@),
        NumberValidatorV::Finite => Some(".pipe(Schema.finite({ message: () => `"@ + t + "` must be a finite number` }))"@),
        NumberValidatorV::Positive => Some(".pipe(Schema.positive({ message: () => `"@ + t + "` must be a positive number` }))"@),
        NumberValidatorV::NonNegative => Some(".pipe(Schema.nonNegative({ message: () => `"@ + t + "` must be a non-negative number` }))"@),
        NumberValidatorV::Negative => Some(".pipe(Schema.negative({ message: () => `"@ + t + "` must be a negative number` }))"@),
        NumberValidatorV::NonPositive => Some(".pipe(Schema.nonPositive({ message: () => `"@ + t + "` must be a non-positive number` }))"@),
        NumberValidatorV::MultipleOf(value) => Some(".pipe(Schema.multipleOf("@ + value + ", { message: () => `"@ + t + "` must be a multiple of "@ + value + "` }))"@),
        NumberValidatorV::Uint8 => None,
    }
}

/// The Effect pipe that a array validator adds to a schema of a field
/// titled `t`, if any.
pub open spec fn array_effect_pipe(v: ArrayValidatorV, t: Seq<char>) -> Option<Seq<char>> {
    match v {
        ArrayValidatorV::MinItems(count) => Some(".pipe(Schema.minItems("@ + decimal(count as nat) + ", { message: () => `"@ + t + "` must contain at least "@ + decimal(count as nat) + " items` }))"@),
        ArrayValidatorV::MaxItems(count) => Some(".pipe(Schema.maxItems("@ + decimal(count as nat) + ", { message: () => `"@ + t + "` must contain at most "@ + decimal(count as nat) + " items` }))"@),
        ArrayValidatorV::ItemsCount(count) => Some(".pipe(Schema.itemsCount("@ + decimal(count as nat) + ", { message: () => `"@ + t + "` must contain exactly "@ + decimal(count as nat) + " items` }))"@),
    }
}

/// The Effect pipe that a date validator adds to a schema of a field
/// titled `t`, if any.
pub open spec fn date_effect_pipe(v: DateValidatorV, t: Seq<char>) -> Option<Seq<char>> {
    match v {
        DateValidatorV::ValidDate => Some(".pipe(Schema.ValidDate)"@),
        DateValidatorV::GreaterThanDate(date) => Some(".pipe(Schema.greaterThan(new Date(\""@ + date + "\"), { message: () => `"@ + t + "` must be after `"@ + date + "` }))"@),
        DateValidatorV::GreaterThanOrEqualToDate(date) => Some(".pipe(Schema.greaterThanOrEqualTo(new Date(\""@ + date + "\"), { message: () => `"@ + t + "` must be on or after `"@ + date + "` }))"@),
        DateValidatorV::LessThanDate(date) => Some(".pipe(Schema.lessThan(new Date(\""@ + date + "\"), { message: () => `"@ + t + "` must be before `"@ + date + "` }))"@),
        DateValidatorV::LessThanOrEqualToDate(date) => Some(".pipe(Schema.lessThanOrEqualTo(new Date(\""@ + date + "\"), { message: () => `"@ + t + "` must be on or before `"@ + date + "` }))"@),
        DateValidatorV::BetweenDate(start, end) => Some(".pipe(Schema.between(new Date(\""@ + start + "\"), new Date(\""@ + end + "\"), { message: () => `"@ + t + "` must be between `"@ + start + "` and `"@ + end + "` }))"@),
    }
}

/// The Effect pipe that a bigint validator adds to a schema of a field
/// titled `t`, if any.
pub open spec fn bigint_effect_pipe(v: BigIntValidatorV, t: Seq<char>) -> Option<Seq<char>> {
    match v {
        BigIntValidatorV::GreaterThanBigInt(value) => Some(".pipe(Schema.greaterThanBigInt("@ + value + "n, { message: () => `"@ + t + "` must be greater than "@ + value + "` }))"@),
        BigIntValidatorV::GreaterThanOrEqualToBigInt(value) => Some(".pipe(Schema.greaterThanOrEqualToBigInt("@ + value + "n, { message: () => `"@ + t + "` must be greater than or equal to "@ + value + "` }))"@),
        BigIntValidatorV::LessThanBigInt(value) => Some(".pipe(Schema.lessThanBigInt("@ + value + "n, { message: () => `"@ + t + "` must be less than "@ + value + "` }))"@),
        BigIntValidatorV::LessThanOrEqualToBigInt(value) => Some(".pipe(Schema.lessThanOrEqualToBigInt("@ + value + "n, { message: () => `"@ + t + "` must be less than or equal to "@ + value + "` }))"@),
        BigIntValidatorV::BetweenBigInt(start, end) => Some(".pipe(Schema.betweenBigInt("@ + start + "n, "@ + end + "n, { message: () => `"@ + t + "` must be between "@ + start + " and "@ + end + "` }))"@),
        BigIntValidatorV::PositiveBigInt => Some(".pipe(Schema.positiveBigInt({ message: () => `"@ + t + "` must be a positive BigInt` }))"@),
        BigIntValidatorV::NonNegativeBigInt => Some(".pipe(Schema.nonNegativeBigInt({ message: () => `"@ + t + "` must be a non-negative BigInt` }))"@),
        BigIntValidatorV::NegativeBigInt => Some(".pipe(Schema.negativeBigInt({ message: () => `"@ + t + "` must be a negative BigInt` }))"@),
        BigIntValidatorV::NonPositiveBigInt => Some(".pipe(Schema.nonPositiveBigInt({ message: () => `"@ + t + "` must be a non-positive BigInt` }))"@),
    }
}

/// The Effect pipe that a bigdecimal validator adds to a schema of a field
/// titled `t`, if any.
pub open spec fn bigdecimal_effect_pipe(v: BigDecimalValidatorV, t: Seq<char>) -> Option<Seq<char>> {
    match v {
        BigDecimalValidatorV::GreaterThanBigDecimal(value) => Some(".pipe(Schema.greaterThanBigDecimal(BigDecimal.fromNumber("@ + value + "), { message: () => `"@ + t + "` must be greater than "@ + value + "` }))"@),
        BigDecimalValidatorV::GreaterThanOrEqualToBigDecimal(value) => Some(".pipe(Schema.greaterThanOrEqualToBigDecimal(BigDecimal.fromNumber("@ + value + "), { message: () => `"@ + t + "` must be greater than or equal to "@ + value + "` }))"@),
        BigDecimalValidatorV::LessThanBigDecimal(value) => Some(".pipe(Schema.lessThanBigDecimal(BigDecimal.fromNumber("@ + value + "), { message: () => `"@ + t + "` must be less than "@ + value + "` }))"@),
        BigDecimalValidatorV::LessThanOrEqualToBigDecimal(value) => Some(".pipe(Schema.lessThanOrEqualToBigDecimal(BigDecimal.fromNumber("@ + value + "), { message: () => `"@ + t + "` must be less than or equal to "@ + value + "` }))"@),
        BigDecimalValidatorV::BetweenBigDecimal(start, end) => Some(".pipe(Schema.betweenBigDecimal(BigDecimal.fromNumber("@ + start + "), BigDecimal.fromNumber("@ + end + "), { message: () => `"@ + t + "` must be between "@ + start + " and "@ + end + "` }))"@),
        BigDecimalValidatorV::PositiveBigDecimal => Some(".pipe(Schema.positiveBigDecimal({ message: () => `"@ + t + "` must be a positive BigDecimal` }))"@),
        BigDecimalValidatorV::NonNegativeBigDecimal => Some(".pipe(Schema.nonNegativeBigDecimal({ message: () => `"@ + t + "` must be a non-negative BigDecimal` }))"@),
        BigDecimalValidatorV::NegativeBigDecimal => Some(".pipe(Schema.negativeBigDecimal({ message: () => `"@ + t + "` must be a negative BigDecimal` }))"@),
        BigDecimalValidatorV::NonPositiveBigDecimal => Some(".pipe(Schema.nonPositiveBigDecimal({ message: () => `"@ + t + "` must be a non-positive BigDecimal` }))"@),
    }
}

/// The Effect pipe that a duration validator adds to a schema of a field
/// titled `t`, if any.
pub open spec fn duration_effect_pipe(v: DurationValidatorV, t: Seq<char>) -> Option<Seq<char>> {
    match v {
        DurationValidatorV::GreaterThanDuration(value) => Some(".pipe(Schema.greaterThanDuration(\""@ + value + "\", { message: () => `"@ + t + "` must be longer than `"@ + value + "` }))"@),
        DurationValidatorV::GreaterThanOrEqualToDuration(value) => Some(".pipe(Schema.greaterThanOrEqualToDuration(\""@ + value + "\", { message: () => `"@ + t + "` must be at least `"@ + value + "` long` }))"@),
        DurationValidatorV::LessThanDuration(value) => Some(".pipe(Schema.lessThanDuration(\""@ + value + "\", { message: () => `"@ + t + "` must be shorter than `"@ + value + "` }))"@),
        DurationValidatorV::LessThanOrEqualToDuration(value) => Some(".pipe(Schema.lessThanOrEqualToDuration(\""@ + value + "\", { message: () => `"@ + t + "` must be at most `"@ + value + "` long` }))"@),
        DurationValidatorV::BetweenDuration(start, end) => Some(".pipe(Schema.betweenDuration(\""@ + start + "\", \""@ + end + "\", { message: () => `"@ + t + "` must be between `"@ + start + "` and `"@ + end + "` long` }))"@),
    }
}

/// The Effect pipe that a validator adds to a schema of a field titled
/// `t`; validators with none leave the schema as it is.
pub open spec fn validator_effect_pipe(v: ValidatorV, t: Seq<char>) -> Option<Seq<char>> {
    match v {
        ValidatorV::StringValidator(x) => string_effect_pipe(x, t),
        ValidatorV::NumberValidator(x) => number_effect_pipe(x, t),
        ValidatorV::ArrayValidator(x) => array_effect_pipe(x, t),
        ValidatorV::DateValidator(x) => date_effect_pipe(x, t),
        ValidatorV::BigIntValidator(x) => bigint_effect_pipe(x, t),
        ValidatorV::BigDecimalValidator(x) => bigdecimal_effect_pipe(x, t),
        ValidatorV::DurationValidator(x) => duration_effect_pipe(x, t),
    }
}

/// `schema` with the pipes of the validators `vs`, in order, for a field
/// titled `t`.
pub open spec fn effect_validated(schema: Seq<char>, vs: Seq<ValidatorV>, t: Seq<char>) -> Seq<char>
    decreases vs.len(),
{
    if vs.len() == 0 {
        schema
    } else {
        let before = effect_validated(schema, vs.drop_last(), t);
        match validator_effect_pipe(vs.last(), t) {
            Some(p) => before + p,
            None => before,
        }
    }
}

fn string_effect_pipe_of(v: &StringValidator, t: &str) -> (r: Option<String>)
    ensures
        match r {
            Some(s) => string_effect_pipe(v@, t@) == Some(s@),
            None => string_effect_pipe(v@, t@) is None,
        },
{
    match v {
        StringValidator::MinLength(len) => {
            let mut s = owned(".pipe(Schema.minLength(");
            s.append(usize_text(*len).as_str());
            s.append(", { message: () => `");
            s.append(t);
            s.append("` must be at least ");
            s.append(usize_text(*len).as_str());
            s.append(" characters long` }))");
            Some(s)
        },
        StringValidator::MaxLength(len) => {
            let mut s = owned(".pipe(Schema.maxLength(");
            s.append(usize_text(*len).as_str());
            s.append(", { message: () => `");
            s.append(t);
            s.append("` must be at most ");
            s.append(usize_text(*len).as_str());
            s.append(" characters long` }))");
            Some(s)
        },
        StringValidator::Length(len) => {
            let mut s = owned(".pipe(Schema.length(");
            s.append(len.as_str());
            s.append(", { message: () => `");
            s.append(t);
            s.append("` must be exactly ");
            s.append(len.as_str());
            s.append(" characters long` }))");
            Some(s)
        },
        StringValidator::NonEmpty => {
            let mut s = owned(".pipe(Schema.nonEmptyString({ message: () => `");
            s.append(t);
            s.append("` Please enter a value` }))");
            Some(s)
        },
        StringValidator::StartsWith(prefix) => {
            let mut s = owned(".pipe(Schema.startsWith(\"");
            s.append(prefix.as_str());
            s.append("\", { message: () => `");
            s.append(t);
            s.append("` must start with \"");
            s.append(prefix.as_str());
            s.append("\" }))");
            Some(s)
        },
        StringValidator::EndsWith(suffix) => {
            let mut s = owned(".pipe(Schema.endsWith(\"");
            s.append(suffix.as_str());
            s.append("\", { message: () => `");
            s.append(t);
            s.append("` must end with \"");
            s.append(suffix.as_str());
            s.append("\" }))");
            Some(s)
        },
        StringValidator::Includes(substring) => {
            let mut s = owned(".pipe(Schema.includes(\"");
            s.append(substring.as_str());
            s.append("\", { message: () => `");
            s.append(t);
            s.append("` must include \"");
            s.append(substring.as_str());
            s.append("\" }))");
            Some(s)
        },
        StringValidator::Trimmed => {
            Some(owned(".pipe(Schema.trimmed)"))
        },
        StringValidator::Lowercased => {
            Some(owned(".pipe(Schema.toLowerCase)"))
        },
        StringValidator::Uppercased => {
            Some(owned(".pipe(Schema.toUpperCase)"))
        },
        StringValidator::Capitalized => {
            Some(owned(".pipe(Schema.capitalize)"))
        },
        StringValidator::Uncapitalized => {
            Some(owned(".pipe(Schema.uncapitalize)"))
        },
        StringValidator::RegexLiteral(pattern) => {
            let mut s = owned(".pipe(Schema.pattern(/");
            s.append(pattern.as_str());
            s.append("/, { message: () => `");
            s.append(t);
            s.append("` has an invalid format` }))");
            Some(s)
        },
        _ => None,
    }
}

fn number_effect_pipe_of(v: &NumberValidator, t: &str) -> (r: Option<String>)
    ensures
        match r {
            Some(s) => number_effect_pipe(v@, t@) == Some(s@),
            None => number_effect_pipe(v@, t@) is None,
        },
{
    match v {
        NumberValidator::GreaterThan(value) => {
            let mut s = owned(".pipe(Schema.greaterThan(");
            s.append(value.text());
            s.append(", { message: () => `");
            s.append(t);
            s.append("` must be greater than ");
            s.append(value.text());
            s.append("` }))");
            Some(s)
        },
        NumberValidator::GreaterThanOrEqualTo(value) => {
            let mut s = owned(".pipe(Schema.greaterThanOrEqualTo(");
            s.append(value.text());
            s.append(", { message: () => `");
            s.append(t);
            s.append("` must be greater than or equal to ");
            s.append(value.text());
            s.append("` }))");
            Some(s)
        },
        NumberValidator::LessThan(value) => {
            let mut s = owned(".pipe(Schema.lessThan(");
            s.append(value.text());
            s.append(", { message: () => `");
            s.append(t);
            s.append("` must be less than ");
            s.append(value.text());
            s.append("` }))");
            Some(s)
        },
        NumberValidator::LessThanOrEqualTo(value) => {
            let mut s = owned(".pipe(Schema.lessThanOrEqualTo(");
            s.append(value.text());
            s.append(", { message: () => `");
            s.append(t);
            s.append("` must be less than or equal to ");
            s.append(value.text());
            s.append("` }))");
            Some(s)
        },
        NumberValidator::Between(start, end) => {
            let mut s = owned(".pipe(Schema.between(");
            s.append(start.text());
            s.append(", ");
            s.append(end.text());
            s.append(", { message: () => `");
            s.append(t);
            s.append("` must be between ");
            s.append(start.text());
            s.append(" and ");
            s.append(end.text());
            s.append("` }))");
            Some(s)
        },
        NumberValidator::Int => {
            let mut s = owned(".pipe(Schema.int({ message: () => `");
            s.append(t);
            s.append("` must be an integer` }))");
            Some(s)
        },
        NumberValidator::NonNaN => {
            let mut s = owned(".pipe(Schema.nonNaN({ message: () => `");
            s.append(t);
            s.append("` must not be NaN` }))");
            Some(s)
        },
        NumberValidator::Finite => {
            let mut s = owned(".pipe(Schema.finite({ message: () => `");
            s.append(t);
            s.append("` must be a finite number` }))");
            Some(s)
        },
        NumberValidator::Positive => {
            let mut s = owned(".pipe(Schema.positive({ message: () => `");
            s.append(t);
            s.append("` must be a positive number` }))");
            Some(s)
        },
        NumberValidator::NonNegative => {
            let mut s = owned(".pipe(Schema.nonNegative({ message: () => `");
            s.append(t);
            s.append("` must be a non-negative number` }))");
            Some(s)
        },
        NumberValidator::Negative => {
            let mut s = owned(".pipe(Schema.negative({ message: () => `");
            s.append(t);
            s.append("` must be a negative number` }))");
            Some(s)
        },
        NumberValidator::NonPositive => {
            let mut s = owned(".pipe(Schema.nonPositive({ message: () => `");
            s.append(t);
            s.append("` must be a non-positive number` }))");
            Some(s)
        },
        NumberValidator::MultipleOf(value) => {
            let mut s = owned(".pipe(Schema.multipleOf(");
            s.append(value.text());
            s.append(", { message: () => `");
            s.append(t);
            s.append("` must be a multiple of ");
            s.append(value.text());
            s.append("` }))");
            Some(s)
        },
        NumberValidator::Uint8 => None,
    }
}

fn array_effect_pipe_of(v: &ArrayValidator, t: &str) -> (r: Option<String>)
    ensures
        match r {
            Some(s) => array_effect_pipe(v@, t@) == Some(s@),
            None => array_effect_pipe(v@, t@) is None,
        },
{
    match v {
        ArrayValidator::MinItems(count) => {
            let mut s = owned(".pipe(Schema.minItems(");
            s.append(usize_text(*count).as_str());
            s.append(", { message: () => `");
            s.append(t);
            s.append("` must contain at least ");
            s.append(usize_text(*count).as_str());
            s.append(" items` }))");
            Some(s)
        },
        ArrayValidator::MaxItems(count) => {
            let mut s = owned(".pipe(Schema.maxItems(");
            s.append(usize_text(*count).as_str());
            s.append(", { message: () => `");
            s.append(t);
            s.append("` must contain at most ");
            s.append(usize_text(*count).as_str());
            s.append(" items` }))");
            Some(s)
        },
        ArrayValidator::ItemsCount(count) => {
            let mut s = owned(".pipe(Schema.itemsCount(");
            s.append(usize_text(*count).as_str());
            s.append(", { message: () => `");
            s.append(t);
            s.append("` must contain exactly ");
            s.append(usize_text(*count).as_str());
            s.append(" items` }))");
            Some(s)
        },
    }
}

fn date_effect_pipe_of(v: &DateValidator, t: &str) -> (r: Option<String>)
    ensures
        match r {
            Some(s) => date_effect_pipe(v@, t@) == Some(s@),
            None => date_effect_pipe(v@, t@) is None,
        },
{
    match v {
        DateValidator::ValidDate => {
            let mut s = owned(".pipe(Schema.ValidDate)");
            Some(s)
        },
        DateValidator::GreaterThanDate(date) => {
            let mut s = owned(".pipe(Schema.greaterThan(new Date(\"");
            s.append(date.as_str());
            s.append("\"), { message: () => `");
            s.append(t);
            s.append("` must be after `");
            s.append(date.as_str());
            s.append("` }))");
            Some(s)
        },
        DateValidator::GreaterThanOrEqualToDate(date) => {
            let mut s = owned(".pipe(Schema.greaterThanOrEqualTo(new Date(\"");
            s.append(date.as_str());
            s.append("\"), { message: () => `");
            s.append(t);
            s.append("` must be on or after `");
            s.append(date.as_str());
            s.append("` }))");
            Some(s)
        },
        DateValidator::LessThanDate(date) => {
            let mut s = owned(".pipe(Schema.lessThan(new Date(\"");
            s.append(date.as_str());
            s.append("\"), { message: () => `");
            s.append(t);
            s.append("` must be before `");
            s.append(date.as_str());
            s.append("` }))");
            Some(s)
        },
        DateValidator::LessThanOrEqualToDate(date) => {
            let mut s = owned(".pipe(Schema.lessThanOrEqualTo(new Date(\"");
            s.append(date.as_str());
            s.append("\"), { message: () => `");
            s.append(t);
            s.append("` must be on or before `");
            s.append(date.as_str());
            s.append("` }))");
            Some(s)
        },
        DateValidator::BetweenDate(start, end) => {
            let mut s = owned(".pipe(Schema.between(new Date(\"");
            s.append(start.as_str());
            s.append("\"), new Date(\"");
            s.append(end.as_str());
            s.append("\"), { message: () => `");
            s.append(t);
            s.append("` must be between `");
            s.append(start.as_str());
            s.append("` and `");
            s.append(end.as_str());
            s.append("` }))");
            Some(s)
        },
    }
}

fn bigint_effect_pipe_of(v: &BigIntValidator, t: &str) -> (r: Option<String>)
    ensures
        match r {
            Some(s) => bigint_effect_pipe(v@, t@) == Some(s@),
            None => bigint_effect_pipe(v@, t@) is None,
        },
{
    match v {
        BigIntValidator::GreaterThanBigInt(value) => {
            let mut s = owned(".pipe(Schema.greaterThanBigInt(");
            s.append(value.as_str());
            s.append("n, { message: () => `");
            s.append(t);
            s.append("` must be greater than ");
            s.append(value.as_str());
            s.append("` }))");
            Some(s)
        },
        BigIntValidator::GreaterThanOrEqualToBigInt(value) => {
            let mut s = owned(".pipe(Schema.greaterThanOrEqualToBigInt(");
            s.append(value.as_str());
            s.append("n, { message: () => `");
            s.append(t);
            s.append("` must be greater than or equal to ");
            s.append(value.as_str());
            s.append("` }))");
            Some(s)
        },
        BigIntValidator::LessThanBigInt(value) => {
            let mut s = owned(".pipe(Schema.lessThanBigInt(");
            s.append(value.as_str());
            s.append("n, { message: () => `");
            s.append(t);
            s.append("` must be less than ");
            s.append(value.as_str());
            s.append("` }))");
            Some(s)
        },
        BigIntValidator::LessThanOrEqualToBigInt(value) => {
            let mut s = owned(".pipe(Schema.lessThanOrEqualToBigInt(");
            s.append(value.as_str());
            s.append("n, { message: () => `");
            s.append(t);
            s.append("` must be less than or equal to ");
            s.append(value.as_str());
            s.append("` }))");
            Some(s)
        },
        BigIntValidator::BetweenBigInt(start, end) => {
            let mut s = owned(".pipe(Schema.betweenBigInt(");
            s.append(start.as_str());
            s.append("n, ");
            s.append(end.as_str());
            s.append("n, { message: () => `");
            s.append(t);
            s.append("` must be between ");
            s.append(start.as_str());
            s.append(" and ");
            s.append(end.as_str());
            s.append("` }))");
            Some(s)
        },
        BigIntValidator::PositiveBigInt => {
            let mut s = owned(".pipe(Schema.positiveBigInt({ message: () => `");
            s.append(t);
            s.append("` must be a positive BigInt` }))");
            Some(s)
        },
        BigIntValidator::NonNegativeBigInt => {
            let mut s = owned(".pipe(Schema.nonNegativeBigInt({ message: () => `");
            s.append(t);
            s.append("` must be a non-negative BigInt` }))");
            Some(s)
        },
        BigIntValidator::NegativeBigInt => {
            let mut s = owned(".pipe(Schema.negativeBigInt({ message: () => `");
            s.append(t);
            s.append("` must be a negative BigInt` }))");
            Some(s)
        },
        BigIntValidator::NonPositiveBigInt => {
            let mut s = owned(".pipe(Schema.nonPositiveBigInt({ message: () => `");
            s.append(t);
            s.append("` must be a non-positive BigInt` }))");
            Some(s)
        },
    }
}

fn bigdecimal_effect_pipe_of(v: &BigDecimalValidator, t: &str) -> (r: Option<String>)
    ensures
        match r {
            Some(s) => bigdecimal_effect_pipe(v@, t@) == Some(s@),
            None => bigdecimal_effect_pipe(v@, t@) is None,
        },
{
    match v {
        BigDecimalValidator::GreaterThanBigDecimal(value) => {
            let mut s = owned(".pipe(Schema.greaterThanBigDecimal(BigDecimal.fromNumber(");
            s.append(value.as_str());
            s.append("), { message: () => `");
            s.append(t);
            s.append("` must be greater than ");
            s.append(value.as_str());
            s.append("` }))");
            Some(s)
        },
        BigDecimalValidator::GreaterThanOrEqualToBigDecimal(value) => {
            let mut s = owned(".pipe(Schema.greaterThanOrEqualToBigDecimal(BigDecimal.fromNumber(");
            s.append(value.as_str());
            s.append("), { message: () => `");
            s.append(t);
            s.append("` must be greater than or equal to ");
            s.append(value.as_str());
            s.append("` }))");
            Some(s)
        },
        BigDecimalValidator::LessThanBigDecimal(value) => {
            let mut s = owned(".pipe(Schema.lessThanBigDecimal(BigDecimal.fromNumber(");
            s.append(value.as_str());
            s.append("), { message: () => `");
            s.append(t);
            s.append("` must be less than ");
            s.append(value.as_str());
            s.append("` }))");
            Some(s)
        },
        BigDecimalValidator::LessThanOrEqualToBigDecimal(value) => {
            let mut s = owned(".pipe(Schema.lessThanOrEqualToBigDecimal(BigDecimal.fromNumber(");
            s.append(value.as_str());
            s.append("), { message: () => `");
            s.append(t);
            s.append("` must be less than or equal to ");
            s.append(value.as_str());
            s.append("` }))");
            Some(s)
        },
        BigDecimalValidator::BetweenBigDecimal(start, end) => {
            let mut s = owned(".pipe(Schema.betweenBigDecimal(BigDecimal.fromNumber(");
            s.append(start.as_str());
            s.append("), BigDecimal.fromNumber(");
            s.append(end.as_str());
            s.append("), { message: () => `");
            s.append(t);
            s.append("` must be between ");
            s.append(start.as_str());
            s.append(" and ");
            s.append(end.as_str());
            s.append("` }))");
            Some(s)
        },
        BigDecimalValidator::PositiveBigDecimal => {
            let mut s = owned(".pipe(Schema.positiveBigDecimal({ message: () => `");
            s.append(t);
            s.append("` must be a positive BigDecimal` }))");
            Some(s)
        },
        BigDecimalValidator::NonNegativeBigDecimal => {
            let mut s = owned(".pipe(Schema.nonNegativeBigDecimal({ message: () => `");
            s.append(t);
            s.append("` must be a non-negative BigDecimal` }))");
            Some(s)
        },
        BigDecimalValidator::NegativeBigDecimal => {
            let mut s = owned(".pipe(Schema.negativeBigDecimal({ message: () => `");
            s.append(t);
            s.append("` must be a negative BigDecimal` }))");
            Some(s)
        },
        BigDecimalValidator::NonPositiveBigDecimal => {
            let mut s = owned(".pipe(Schema.nonPositiveBigDecimal({ message: () => `");
            s.append(t);
            s.append("` must be a non-positive BigDecimal` }))");
            Some(s)
        },
    }
}

fn duration_effect_pipe_of(v: &DurationValidator, t: &str) -> (r: Option<String>)
    ensures
        match r {
            Some(s) => duration_effect_pipe(v@, t@) == Some(s@),
            None => duration_effect_pipe(v@, t@) is None,
        },
{
    match v {
        DurationValidator::GreaterThanDuration(value) => {
            let mut s = owned(".pipe(Schema.greaterThanDuration(\"");
            s.append(value.as_str());
            s.append("\", { message: () => `");
            s.append(t);
            s.append("` must be longer than `");
            s.append(value.as_str());
            s.append("` }))");
            Some(s)
        },
        DurationValidator::GreaterThanOrEqualToDuration(value) => {
            let mut s = owned(".pipe(Schema.greaterThanOrEqualToDuration(\"");
            s.append(value.as_str());
            s.append("\", { message: () => `");
            s.append(t);
            s.append("` must be at least `");
            s.append(value.as_str());
            s.append("` long` }))");
            Some(s)
        },
        DurationValidator::LessThanDuration(value) => {
            let mut s = owned(".pipe(Schema.lessThanDuration(\"");
            s.append(value.as_str());
            s.append("\", { message: () => `");
            s.append(t);
            s.append("` must be shorter than `");
            s.append(value.as_str());
            s.append("` }))");
            Some(s)
        },
        DurationValidator::LessThanOrEqualToDuration(value) => {
            let mut s = owned(".pipe(Schema.lessThanOrEqualToDuration(\"");
            s.append(value.as_str());
            s.append("\", { message: () => `");
            s.append(t);
            s.append("` must be at most `");
            s.append(value.as_str());
            s.append("` long` }))");
            Some(s)
        },
        DurationValidator::BetweenDuration(start, end) => {
            let mut s = owned(".pipe(Schema.betweenDuration(\"");
            s.append(start.as_str());
            s.append("\", \"");
            s.append(end.as_str());
            s.append("\", { message: () => `");
            s.append(t);
            s.append("` must be between `");
            s.append(start.as_str());
            s.append("` and `");
            s.append(end.as_str());
            s.append("` long` }))");
            Some(s)
        },
    }
}

fn validator_effect_pipe_of(v: &Validator, t: &str) -> (r: Option<String>)
    ensures
        match r {
            Some(s) => validator_effect_pipe(v@, t@) == Some(s@),
            None => validator_effect_pipe(v@, t@) is None,
        },
{
    match v {
        Validator::StringValidator(x) => string_effect_pipe_of(x, t),
        Validator::NumberValidator(x) => number_effect_pipe_of(x, t),
        Validator::ArrayValidator(x) => array_effect_pipe_of(x, t),
        Validator::DateValidator(x) => date_effect_pipe_of(x, t),
        Validator::BigIntValidator(x) => bigint_effect_pipe_of(x, t),
        Validator::BigDecimalValidator(x) => bigdecimal_effect_pipe_of(x, t),
        Validator::DurationValidator(x) => duration_effect_pipe_of(x, t),
    }
}

/// Applies the validators of a field named `field_name` to its Effect
/// schema by chaining a `.pipe()` call for each, with messages naming the
/// field in Title Case.
pub fn apply_validators_to_schema(schema: String, validators: &[Validator], field_name: &str) -> (r: String)
    ensures
        r@ == effect_validated(schema@, validators_view(validators@), case_converted(field_name@, TextCase::Title)),
{
    let ghost t = case_converted(field_name@, TextCase::Title);
    if validators.len() == 0 {
        assert(validators_view(validators@) =~= Seq::<ValidatorV>::empty());
        return schema;
    }
    let mut result = schema;
    let ghost start = schema@;
    let title = to_case(field_name, TextCase::Title);
    let mut i: usize = 0;
    while i < validators.len()
        invariant
            i <= validators@.len(),
            title@ == t,
            result@ == effect_validated(start, validators_view(validators@.take(i as int)), t),
        decreases validators.len() - i,
    {
        proof {
            assert(validators_view(validators@.take(i + 1)).drop_last() == validators_view(
                validators@.take(i as int),
            ));
            assert(validators_view(validators@.take(i + 1)).last() == validators@[i as int]@);
        }
        match validator_effect_pipe_of(&validators[i], title.as_str()) {
            Some(p) => result.append(p.as_str()),
            None => {},
        }
        i = i + 1;
    }
    assert(validators@.take(validators@.len() as int) == validators@);
    result
}

/// The encoded TypeScript types of the types in `ts`.
fn ts_encoded_names(ts: &Vec<FieldType>) -> (r: Vec<String>)
    ensures
        r@.map_values(|s: String| s@) == ts_encoded_all(views_of(ts@)),
    decreases ts,
{
    let mut out: Vec<String> = Vec::new();
    let mut i: usize = 0;
    while i < ts.len()
        invariant
            i <= ts@.len(),
            out@.map_values(|s: String| s@) == ts_encoded_all(views_of(ts@.take(i as int))),
        decreases ts.len() - i,
    {
        proof {
            vstd::std_specs::vec::axiom_vec_index_decreases(*ts, i as int);
        }
        let c = field_type_to_ts_encoded(&ts[i]);
        proof {
            let vs = views_of(ts@.take(i + 1));
            assert(vs.subrange(0, vs.len() - 1) =~= views_of(ts@.take(i as int)));
            assert(vs[vs.len() - 1] == ts@[i as int]@);
            assert(out@.push(c).map_values(|s: String| s@) =~= out@.map_values(|s: String| s@).push(c@));
        }
        out.push(c);
        i = i + 1;
    }
    assert(ts@.take(ts@.len() as int) == ts@);
    out
}

/// The `readonly name: type;` lines of the named types in `fs`.
fn ts_encoded_fields(fs: &Vec<(String, FieldType)>) -> (r: Vec<String>)
    ensures
        r@.map_values(|s: String| s@) == ts_encoded_fields_all(named_views_of(fs@)),
    decreases fs,
{
    let mut out: Vec<String> = Vec::new();
    let mut i: usize = 0;
    while i < fs.len()
        invariant
            i <= fs@.len(),
            out@.map_values(|s: String| s@) == ts_encoded_fields_all(named_views_of(fs@.take(i as int))),
        decreases fs.len() - i,
    {
        proof {
            vstd::std_specs::vec::axiom_vec_index_decreases(*fs, i as int);
            assert(decreases_to!(fs[i as int] => fs[i as int].1));
        }
        let mut p = owned("  readonly ");
        p.append(fs[i].0.as_str());
        p.append(": ");
        p.append(field_type_to_ts_encoded(&fs[i].1).as_str());
        p.append(";");
        proof {
            let vs = named_views_of(fs@.take(i + 1));
            assert(vs.subrange(0, vs.len() - 1) =~= named_views_of(fs@.take(i as int)));
            assert(vs[vs.len() - 1] == (fs@[i as int].0@, fs@[i as int].1@));
            assert(out@.push(p).map_values(|s: String| s@) =~= out@.map_values(|s: String| s@).push(p@));
        }
        out.push(p);
        i = i + 1;
    }
    assert(fs@.take(fs@.len() as int) == fs@);
    out
}

/// Converts a field type to the raw TypeScript type of its encoded form,
/// for the `...Encoded` interfaces.
pub fn field_type_to_ts_encoded(ft: &FieldType) -> (r: String)
    ensures
        r@ == ts_encoded(ft@),
    decreases ft,
{
    match ft {
        FieldType::Tuple(ts) => {
            proof {
                assert(decreases_to!(*ft => (*ft)->Tuple_0));
            }
            let parts = ts_encoded_names(ts);
            let mut r = owned("readonly [");
            r.append(join_strings(&parts, ", ").as_str());
            r.append("]");
            proof {
                lemma_tuple_view(*ts);
            }
            r
        },
        FieldType::Struct(fs) => {
            proof {
                assert(decreases_to!(*ft => (*ft)->Struct_0));
            }
            let parts = ts_encoded_fields(fs);
            let mut r = owned("{\n");
            r.append(join_strings(&parts, "\n").as_str());
            r.append("\n}");
            proof {
                lemma_struct_view(*fs);
            }
            r
        },
        FieldType::Option(b) => {
            let mut r = field_type_to_ts_encoded(b);
            r.append(" | null | undefined");
            r
        },
        FieldType::Vec(b) => {
            let mut r = owned("ReadonlyArray<");
            r.append(field_type_to_ts_encoded(b).as_str());
            r.append(">");
            r
        },
        FieldType::HashMap(k, v) | FieldType::BTreeMap(k, v) => {
            let mut r = owned("Record<");
            r.append(field_type_to_ts_encoded(k).as_str());
            r.append(", ");
            r.append(field_type_to_ts_encoded(v).as_str());
            r.append(">");
            r
        },
        FieldType::RecordLink(b) => {
            let mut r = owned("string | ");
            r.append(field_type_to_ts_encoded(b).as_str());
            r
        },
        FieldType::Other(name) => {
            let mut r = to_case(name.as_str(), TextCase::Pascal);
            r.append("Encoded");
            r
        },
        FieldType::String | FieldType::Char => owned("string"),
        FieldType::Bool => owned("boolean"),
        FieldType::Unit => owned("null"),
        _ => owned("number"),
    }
}

/// The line of the `...Encoded` interface for a field.
pub open spec fn encoded_field_line(f: StructFieldV) -> Seq<char> {
    "  readonly "@ + case_converted(f.field_name, TextCase::Camel) + ": "@ + ts_encoded(f.field_type) + ";"@
}

/// The `...Encoded` TypeScript interface of a struct: one readonly line per
/// field, with the field name in camelCase.
pub open spec fn encoded_interface(s: StructConfigV) -> Seq<char> {
    "export interface "@ + case_converted(s.struct_name, TextCase::Pascal) + "Encoded {\n"@ + join(
        s.fields.map_values(|f: StructFieldV| encoded_field_line(f)),
        "\n"@,
    ) + "\n}\n\n"@
}

/// Generates the `...Encoded` TypeScript interface of a struct.
pub fn encoded_interface_for_struct(struct_config: &StructConfig) -> (r: String)
    ensures
        r@ == encoded_interface(struct_config@),
{
    let ghost fs = struct_config@.fields;
    let mut lines: Vec<String> = Vec::new();
    let mut i: usize = 0;
    while i < struct_config.fields.len()
        invariant
            i <= struct_config.fields@.len(),
            fs == struct_config@.fields,
            lines@.map_values(|s: String| s@) == fs.take(i as int).map_values(
                |f: StructFieldV| encoded_field_line(f),
            ),
        decreases struct_config.fields.len() - i,
    {
        let f = &struct_config.fields[i];
        let mut line = owned("  readonly ");
        line.append(to_case(f.field_name.as_str(), TextCase::Camel).as_str());
        line.append(": ");
        line.append(field_type_to_ts_encoded(&f.field_type).as_str());
        line.append(";");
        let ghost before = lines@;
        lines.push(line);
        proof {
            assert(fs[i as int] == f@);
            assert(lines@.map_values(|s: String| s@) =~= before.map_values(|s: String| s@).push(line@));
            assert(fs.take(i + 1).map_values(|f: StructFieldV| encoded_field_line(f)) =~= fs.take(
                i as int,
            ).map_values(|f: StructFieldV| encoded_field_line(f)).push(encoded_field_line(fs[i as int])));
        }
        i = i + 1;
    }
    assert(fs.take(fs.len() as int) == fs);
    let mut r = owned("export interface ");
    r.append(to_case(struct_config.struct_name.as_str(), TextCase::Pascal).as_str());
    r.append("Encoded {\n");
    r.append(join_strings(&lines, "\n").as_str());
    r.append("\n}\n\n");
    r
}

/// The encoded TypeScript type of a variant: its name in quotes when it
/// carries nothing, the `...Encoded` name of its inline struct, or the
/// encoded type it refers to.
pub open spec fn encoded_variant(v: VariantV) -> Seq<char> {
    match v.data {
        None => "\""@ + v.name + "\""@,
        Some(VariantDataV::InlineStruct(_)) => case_converted(v.name, TextCase::Pascal) + "Encoded"@,
        Some(VariantDataV::DataStructureRef(t)) => ts_encoded(t),
    }
}

/// The `...Encoded` TypeScript type alias of a tagged union: the union of
/// its variants' encoded types.
pub open spec fn encoded_alias(e: TaggedUnionV) -> Seq<char> {
    "export type "@ + case_converted(e.enum_name, TextCase::Pascal) + "Encoded = "@ + join(
        e.variants.map_values(|v: VariantV| encoded_variant(v)),
        " | "@,
    ) + ";\n\n"@
}

/// Generates the `...Encoded` TypeScript type alias of a tagged union.
pub fn encoded_alias_for_enum(en: &TaggedUnion) -> (r: String)
    ensures
        r@ == encoded_alias(en@),
{
    let ghost vs = en@.variants;
    let mut parts: Vec<String> = Vec::new();
    let mut i: usize = 0;
    while i < en.variants.len()
        invariant
            i <= en.variants@.len(),
            vs == en@.variants,
            parts@.map_values(|s: String| s@) == vs.take(i as int).map_values(|v: VariantV| encoded_variant(v)),
        decreases en.variants.len() - i,
    {
        let v = &en.variants[i];
        let part = match &v.data {
            Some(VariantData::InlineStruct(_)) => {
                let mut p = to_case(v.name.as_str(), TextCase::Pascal);
                p.append("Encoded");
                p
            },
            Some(VariantData::DataStructureRef(t)) => field_type_to_ts_encoded(t),
            None => {
                let mut p = owned("\"");
                p.append(v.name.as_str());
                p.append("\"");
                p
            },
        };
        let ghost before = parts@;
        parts.push(part);
        proof {
            assert(vs[i as int] == v@);
            assert(parts@.map_values(|s: String| s@) =~= before.map_values(|s: String| s@).push(part@));
            assert(vs.take(i + 1).map_values(|v: VariantV| encoded_variant(v)) =~= vs.take(i as int).map_values(
                |v: VariantV| encoded_variant(v),
            ).push(encoded_variant(vs[i as int])));
        }
        i = i + 1;
    }
    assert(vs.take(vs.len() as int) == vs);
    let mut r = owned("export type ");
    r.append(to_case(en.enum_name.as_str(), TextCase::Pascal).as_str());
    r.append("Encoded = ");
    r.append(join_strings(&parts, " | ").as_str());
    r.append(";\n\n");
    r
}

/// Whether one of `structs` has the PascalCase name `p`.
fn has_struct_named(structs: &NamedMap<StructConfig>, p: &str) -> (r: bool)
    ensures
        r == names_struct(structs@, p@),
{
    let es = structs.entries();
    let ghost ev = structs@;
    let mut i: usize = 0;
    while i < es.len()
        invariant
            i <= es@.len(),
            entries_view(es@) == ev,
            ev == structs@,
            forall|j: int| 0 <= j < i ==> case_converted(#[trigger] ev[j].1.struct_name@, TextCase::Pascal) != p@,
        decreases es.len() - i,
    {
        assert(ev[i as int] == (es@[i as int].0@, es@[i as int].1));
        let name = to_case(es[i].1.struct_name.as_str(), TextCase::Pascal);
        if crate::text::same_text(name.as_str(), p) {
            assert(case_converted(ev[i as int].1.struct_name@, TextCase::Pascal) == p@);
            return true;
        }
        i = i + 1;
    }
    false
}

/// The Effect schema of a reference to the type named `name`.
fn effect_reference_of(structs: &NamedMap<StructConfig>, recursive: &NamedMap<bool>, processed: &NamedMap<bool>, name: &str) -> (r: String)
    ensures
        r@ == effect_reference(structs@, recursive@, processed@, name@),
{
    let p = to_case(name, TextCase::Pascal);
    if recursive.contains_key(p.as_str()) && !processed.contains_key(p.as_str()) {
        let mut r = if has_struct_named(structs, p.as_str()) {
            let mut r = owned("Schema.suspend((): Schema.Schema<");
            r.append(p.as_str());
            r.append(", ");
            r
        } else {
            let mut r = owned("Schema.suspend((): Schema.Schema<typeof ");
            r.append(p.as_str());
            r.append(".Type, ");
            r
        };
        r.append(p.as_str());
        r.append("Encoded> => ");
        r.append(p.as_str());
        r.append(").annotations({ identifier: `");
        r.append(p.as_str());
        r.append("Ref` })");
        r
    } else {
        p
    }
}

/// The Effect schemas of the types in `ts`.
fn effect_schemas(structs: &NamedMap<StructConfig>, recursive: &NamedMap<bool>, processed: &NamedMap<bool>, ts: &Vec<FieldType>) -> (r: Vec<String>)
    ensures
        r@.map_values(|s: String| s@) == effect_schema_all(structs@, recursive@, processed@, views_of(ts@)),
    decreases ts,
{
    let mut out: Vec<String> = Vec::new();
    let mut i: usize = 0;
    while i < ts.len()
        invariant
            i <= ts@.len(),
            out@.map_values(|s: String| s@) == effect_schema_all(structs@, recursive@, processed@, views_of(ts@.take(i as int))),
        decreases ts.len() - i,
    {
        proof {
            vstd::std_specs::vec::axiom_vec_index_decreases(*ts, i as int);
        }
        let c = field_type_to_effect_schema(&ts[i], structs, recursive, processed);
        proof {
            let vs = views_of(ts@.take(i + 1));
            assert(vs.subrange(0, vs.len() - 1) =~= views_of(ts@.take(i as int)));
            assert(vs[vs.len() - 1] == ts@[i as int]@);
            assert(out@.push(c).map_values(|s: String| s@) =~= out@.map_values(|s: String| s@).push(c@));
        }
        out.push(c);
        i = i + 1;
    }
    assert(ts@.take(ts@.len() as int) == ts@);
    out
}

/// The `name: schema` entries of the named types in `fs`.
fn effect_schema_fields(structs: &NamedMap<StructConfig>, recursive: &NamedMap<bool>, processed: &NamedMap<bool>, fs: &Vec<(String, FieldType)>) -> (r: Vec<String>)
    ensures
        r@.map_values(|s: String| s@) == effect_schema_fields_all(structs@, recursive@, processed@, named_views_of(fs@)),
    decreases fs,
{
    let mut out: Vec<String> = Vec::new();
    let mut i: usize = 0;
    while i < fs.len()
        invariant
            i <= fs@.len(),
            out@.map_values(|s: String| s@) == effect_schema_fields_all(structs@, recursive@, processed@, named_views_of(fs@.take(i as int))),
        decreases fs.len() - i,
    {
        proof {
            vstd::std_specs::vec::axiom_vec_index_decreases(*fs, i as int);
            assert(decreases_to!(fs[i as int] => fs[i as int].1));
        }
        let mut p = fs[i].0.clone();
        p.append(": ");
        p.append(field_type_to_effect_schema(&fs[i].1, structs, recursive, processed).as_str());
        proof {
            let vs = named_views_of(fs@.take(i + 1));
            assert(vs.subrange(0, vs.len() - 1) =~= named_views_of(fs@.take(i as int)));
            assert(vs[vs.len() - 1] == (fs@[i as int].0@, fs@[i as int].1@));
            assert(out@.push(p).map_values(|s: String| s@) =~= out@.map_values(|s: String| s@).push(p@));
        }
        out.push(p);
        i = i + 1;
    }
    assert(fs@.take(fs@.len() as int) == fs@);
    out
}

/// Converts a field type to its Effect schema. `recursive` holds the
/// PascalCase names of the types recursive with the one being generated,
/// `processed` those generated already: a reference to a recursive type not
/// generated yet is suspended.
pub fn field_type_to_effect_schema(field_type: &FieldType, structs: &NamedMap<StructConfig>, recursive: &NamedMap<bool>, processed: &NamedMap<bool>) -> (r: String)
    ensures
        r@ == effect_schema(structs@, recursive@, processed@, field_type@),
    decreases field_type,
{
    match field_type {
        FieldType::Tuple(ts) => {
            proof {
                assert(decreases_to!(*field_type => (*field_type)->Tuple_0));
            }
            let parts = effect_schemas(structs, recursive, processed, ts);
            let mut r = owned("Schema.Tuple(");
            r.append(join_strings(&parts, ", ").as_str());
            r.append(")");
            proof {
                lemma_tuple_view(*ts);
            }
            r
        },
        FieldType::Struct(fs) => {
            proof {
                assert(decreases_to!(*field_type => (*field_type)->Struct_0));
            }
            let parts = effect_schema_fields(structs, recursive, processed, fs);
            let mut r = owned("Schema.Struct({ ");
            r.append(join_strings(&parts, ", ").as_str());
            r.append(" })");
            proof {
                lemma_struct_view(*fs);
            }
            r
        },
        FieldType::Option(b) => {
            let mut r = owned("Schema.OptionFromNullishOr(");
            r.append(field_type_to_effect_schema(b, structs, recursive, processed).as_str());
            r.append(", null)");
            r
        },
        FieldType::Vec(b) => {
            let mut r = owned("Schema.Array(");
            r.append(field_type_to_effect_schema(b, structs, recursive, processed).as_str());
            r.append(")");
            r
        },
        FieldType::HashMap(k, v) | FieldType::BTreeMap(k, v) => {
            let mut r = owned("Schema.Record({ key: ");
            r.append(field_type_to_effect_schema(k, structs, recursive, processed).as_str());
            r.append(", value: ");
            r.append(field_type_to_effect_schema(v, structs, recursive, processed).as_str());
            r.append(" })");
            r
        },
        FieldType::RecordLink(b) => {
            let mut r = owned("Schema.Union(Schema.String.pipe(Schema.nonEmptyString()), ");
            r.append(field_type_to_effect_schema(b, structs, recursive, processed).as_str());
            r.append(").annotations({ message: () => ({\n                message: `Please enter a valid value`,\n                override: true,\n            }), })");
            r
        },
        FieldType::Other(name) => effect_reference_of(structs, recursive, processed, name.as_str()),
        FieldType::String => owned("Schema.String.pipe(Schema.nonEmptyString({ message: () => `Please enter a value` }))"),
        FieldType::Char => owned("Schema.String.pipe(Schema.maxLength(1))"),
        FieldType::Bool => owned("Schema.Boolean"),
        FieldType::Unit => owned("Schema.Null"),
        _ => owned("Schema.Number"),
    }
}

/// The first of the enums `es` whose PascalCase name is `p`.
pub open spec fn enum_named(es: Seq<(Seq<char>, TaggedUnion)>, p: Seq<char>) -> Option<TaggedUnion>
    decreases es.len(),
{
    if es.len() == 0 {
        None
    } else if case_converted(es[0].1.enum_name@, TextCase::Pascal) == p {
        Some(es[0].1)
    } else {
        enum_named(es.drop_first(), p)
    }
}

/// The first of the structs `s` whose PascalCase name is `p`.
pub open spec fn struct_named(s: Seq<(Seq<char>, StructConfig)>, p: Seq<char>) -> Option<StructConfig>
    decreases s.len(),
{
    if s.len() == 0 {
        None
    } else if case_converted(s[0].1.struct_name@, TextCase::Pascal) == p {
        Some(s[0].1)
    } else {
        struct_named(s.drop_first(), p)
    }
}

/// The Effect schema of a variant: a literal when it carries nothing, the
/// PascalCase name of its inline struct, or the schema of the type it
/// refers to.
pub open spec fn effect_variant(s: Seq<(Seq<char>, StructConfig)>, rec: Seq<(Seq<char>, bool)>, done: Seq<(Seq<char>, bool)>, v: VariantV) -> Seq<char> {
    match v.data {
        None => "Schema.Literal(\""@ + v.name + "\")"@,
        Some(VariantDataV::InlineStruct(_)) => case_converted(v.name, TextCase::Pascal),
        Some(VariantDataV::DataStructureRef(t)) => effect_schema(s, rec, done, t),
    }
}

/// The schema of a tagged union named `name`: the union of its variants.
pub open spec fn enum_class(s: Seq<(Seq<char>, StructConfig)>, rec: Seq<(Seq<char>, bool)>, done: Seq<(Seq<char>, bool)>, name: Seq<char>, e: TaggedUnionV) -> Seq<char> {
    "export const "@ + name + " = Schema.Union("@ + join(
        e.variants.map_values(|v: VariantV| effect_variant(s, rec, done, v)),
        ", "@,
    ) + ").annotations({ identifier: `"@ + name + "` });\n"@
}

/// The `.Type` alias of the schema named `name`.
pub open spec fn type_alias(name: Seq<char>) -> Seq<char> {
    "export type "@ + name + "Type = typeof "@ + name + ".Type;\n"@
}

/// The line of a struct's schema class for the field `f`: its validated
/// schema, required unless the field is optional, then a comma unless it
/// is the `last`.
pub open spec fn effect_field_line(s: Seq<(Seq<char>, StructConfig)>, rec: Seq<(Seq<char>, bool)>, done: Seq<(Seq<char>, bool)>, f: StructFieldV, last: bool) -> Seq<char> {
    let title = case_converted(f.field_name, TextCase::Title);
    let schema = effect_validated(effect_schema(s, rec, done, f.field_type), f.validators, title);
    let full = if f.field_type is Option {
        schema
    } else {
        "Schema.propertySignature("@ + schema + ").annotations({ missingMessage: () => `'"@ + title + "' is required` })"@
    };
    "  "@ + case_converted(f.field_name, TextCase::Camel) + ": "@ + full + (if last { ""@ } else { ","@ }) + "\n"@
}

/// The lines of the first `n` fields of `fs`.
pub open spec fn effect_field_lines(s: Seq<(Seq<char>, StructConfig)>, rec: Seq<(Seq<char>, bool)>, done: Seq<(Seq<char>, bool)>, fs: Seq<StructFieldV>, n: nat) -> Seq<char>
    decreases n,
{
    if n == 0 {
        Seq::empty()
    } else {
        effect_field_lines(s, rec, done, fs, (n - 1) as nat) + effect_field_line(s, rec, done, fs[n - 1], n == fs.len())
    }
}

/// The schema class of a struct named `name`.
pub open spec fn struct_class(s: Seq<(Seq<char>, StructConfig)>, rec: Seq<(Seq<char>, bool)>, done: Seq<(Seq<char>, bool)>, name: Seq<char>, c: StructConfigV) -> Seq<char> {
    "export class "@ + name + " extends Schema.Class<"@ + name + ">(\""@ + name + "\")( { \n"@
        + effect_field_lines(s, rec, done, c.fields, c.fields.len()) + "}) {[key: string]: unknown}\n\n"@
}

/// What the generation has written: the schema classes, the `.Type`
/// aliases, the `...Encoded` declarations, and the names done.
pub type EffectOut = (Seq<char>, Seq<char>, Seq<char>, Seq<(Seq<char>, bool)>);

/// `out` after the type named `name` is generated, with `rec` the types
/// recursive with it: an enum of that name first, else a struct; a name
/// done already, or of neither, adds nothing.
pub open spec fn effect_member(s: Seq<(Seq<char>, StructConfig)>, es: Seq<(Seq<char>, TaggedUnion)>, rec: Seq<(Seq<char>, bool)>, out: EffectOut, name: Seq<char>) -> EffectOut {
    if value_of(out.3, name) is Some {
        out
    } else {
        let done = put(out.3, name, true);
        match enum_named(es, name) {
            Some(e) => (out.0 + enum_class(s, rec, out.3, name, e@), out.1 + type_alias(name), out.2 + encoded_alias(e@), done),
            None => match struct_named(s, name) {
                Some(c) => (out.0 + struct_class(s, rec, out.3, name, c@), out.1 + type_alias(name), out.2 + encoded_interface(c@), done),
                None => (out.0, out.1, out.2, done),
            },
        }
    }
}

/// `out` after the types named `names` are generated, in order.
pub open spec fn effect_members(s: Seq<(Seq<char>, StructConfig)>, es: Seq<(Seq<char>, TaggedUnion)>, rec: Seq<(Seq<char>, bool)>, out: EffectOut, names: Seq<Seq<char>>) -> EffectOut
    decreases names.len(),
{
    if names.len() == 0 {
        out
    } else {
        effect_member(s, es, rec, effect_members(s, es, rec, out, names.drop_last()), names.last())
    }
}

/// The members of a component, each once, in the order of their names.
pub open spec fn member_table(ms: Seq<Seq<char>>) -> Seq<(Seq<char>, bool)> {
    put_all(Seq::empty(), ms.map_values(|m: Seq<char>| (m, true)))
}

/// `out` after the members of the component `comp` are generated in the
/// order of their names; when the component is recursive its members are
/// recursive with each other.
pub open spec fn effect_component(s: Seq<(Seq<char>, StructConfig)>, es: Seq<(Seq<char>, TaggedUnion)>, out: EffectOut, comp: (Seq<Seq<char>>, bool)) -> EffectOut {
    let table = member_table(comp.0);
    let rec = if comp.1 { table } else { Seq::empty() };
    effect_members(s, es, rec, out, table.map_values(|e: (Seq<char>, bool)| e.0))
}

/// What the components `comps` give, generated in order.
pub open spec fn effect_components(s: Seq<(Seq<char>, StructConfig)>, es: Seq<(Seq<char>, TaggedUnion)>, comps: Seq<(Seq<Seq<char>>, bool)>) -> EffectOut
    decreases comps.len(),
{
    if comps.len() == 0 {
        (Seq::empty(), Seq::empty(), Seq::empty(), Seq::empty())
    } else {
        effect_component(s, es, effect_components(s, es, comps.drop_last()), comps.last())
    }
}

/// The components, as texts.
pub open spec fn component_texts(cs: Seq<(Vec<String>, bool)>) -> Seq<(Seq<Seq<char>>, bool)> {
    cs.map_values(|c: (Vec<String>, bool)| (texts(c.0@), c.1))
}

/// The Effect module: the schema classes, then the `...Encoded`
/// declarations, then, when asked for, the `.Type` aliases.
pub open spec fn effect_module(s: Seq<(Seq<char>, StructConfig)>, es: Seq<(Seq<char>, TaggedUnion)>, comps: Seq<(Seq<Seq<char>>, bool)>, print_types: bool) -> Seq<char> {
    let out = effect_components(s, es, comps);
    if print_types {
        out.0 + "\n"@ + out.2 + "\n"@ + out.1
    } else {
        out.0 + "\n"@ + out.2
    }
}

/// The first of `enums` whose PascalCase name is `p`.
fn find_enum<'a>(enums: &'a NamedMap<TaggedUnion>, p: &str) -> (r: Option<&'a TaggedUnion>)
    ensures
        match r {
            Some(e) => enum_named(enums@, p@) == Some(*e),
            None => enum_named(enums@, p@) is None,
        },
{
    let es = enums.entries();
    let ghost ev = enums@;
    assert(ev.skip(0) =~= ev);
    let mut i: usize = 0;
    while i < es.len()
        invariant
            i <= es@.len(),
            entries_view(es@) == ev,
            ev == enums@,
            enum_named(ev, p@) == enum_named(ev.skip(i as int), p@),
        decreases es.len() - i,
    {
        let ghost rest = ev.skip(i as int);
        assert(rest[0] == (es@[i as int].0@, es@[i as int].1));
        assert(rest.drop_first() =~= ev.skip(i + 1));
        let name = to_case(es[i].1.enum_name.as_str(), TextCase::Pascal);
        if crate::text::same_text(name.as_str(), p) {
            return Some(&es[i].1);
        }
        i = i + 1;
    }
    assert(ev.skip(i as int) =~= Seq::<(Seq<char>, TaggedUnion)>::empty());
    None
}

/// The first of `structs` whose PascalCase name is `p`.
fn find_struct<'a>(structs: &'a NamedMap<StructConfig>, p: &str) -> (r: Option<&'a StructConfig>)
    ensures
        match r {
            Some(c) => struct_named(structs@, p@) == Some(*c),
            None => struct_named(structs@, p@) is None,
        },
{
    let es = structs.entries();
    let ghost ev = structs@;
    assert(ev.skip(0) =~= ev);
    let mut i: usize = 0;
    while i < es.len()
        invariant
            i <= es@.len(),
            entries_view(es@) == ev,
            ev == structs@,
            struct_named(ev, p@) == struct_named(ev.skip(i as int), p@),
        decreases es.len() - i,
    {
        let ghost rest = ev.skip(i as int);
        assert(rest[0] == (es@[i as int].0@, es@[i as int].1));
        assert(rest.drop_first() =~= ev.skip(i + 1));
        let name = to_case(es[i].1.struct_name.as_str(), TextCase::Pascal);
        if crate::text::same_text(name.as_str(), p) {
            return Some(&es[i].1);
        }
        i = i + 1;
    }
    assert(ev.skip(i as int) =~= Seq::<(Seq<char>, StructConfig)>::empty());
    None
}

/// The schema of a tagged union named `name`.
fn enum_class_of(structs: &NamedMap<StructConfig>, recursive: &NamedMap<bool>, processed: &NamedMap<bool>, name: &str, e: &TaggedUnion) -> (r: String)
    ensures
        r@ == enum_class(structs@, recursive@, processed@, name@, e@),
{
    let ghost vs = e@.variants;
    let ghost f = |v: VariantV| effect_variant(structs@, recursive@, processed@, v);
    let mut parts: Vec<String> = Vec::new();
    let mut i: usize = 0;
    while i < e.variants.len()
        invariant
            i <= e.variants@.len(),
            vs == e@.variants,
            f == (|v: VariantV| effect_variant(structs@, recursive@, processed@, v)),
            parts@.map_values(|s: String| s@) == vs.take(i as int).map_values(f),
        decreases e.variants.len() - i,
    {
        let v = &e.variants[i];
        assert(vs[i as int] == v@);
        let part = match &v.data {
            None => {
                let mut t = owned("Schema.Literal(\"");
                t.append(v.name.as_str());
                t.append("\")");
                t
            },
            Some(VariantData::InlineStruct(_)) => to_case(v.name.as_str(), TextCase::Pascal),
            Some(VariantData::DataStructureRef(t)) => field_type_to_effect_schema(t, structs, recursive, processed),
        };
        let ghost before = parts@;
        parts.push(part);
        assert(parts@.map_values(|s: String| s@) =~= before.map_values(|s: String| s@).push(part@));
        assert(vs.take(i + 1).map_values(f) =~= vs.take(i as int).map_values(f).push(f(vs[i as int])));
        i = i + 1;
    }
    assert(vs.take(vs.len() as int) =~= vs);
    let mut r = owned("export const ");
    r.append(name);
    r.append(" = Schema.Union(");
    r.append(join_strings(&parts, ", ").as_str());
    r.append(").annotations({ identifier: `");
    r.append(name);
    r.append("` });\n");
    r
}

/// The `.Type` alias of the schema named `name`.
fn type_alias_of(name: &str) -> (r: String)
    ensures
        r@ == type_alias(name@),
{
    let mut r = owned("export type ");
    r.append(name);
    r.append("Type = typeof ");
    r.append(name);
    r.append(".Type;\n");
    r
}

/// Appends to `r` the line of a struct's schema class for the field `f`.
fn push_effect_field_line(
    r: &mut String,
    structs: &NamedMap<StructConfig>,
    recursive: &NamedMap<bool>,
    processed: &NamedMap<bool>,
    f: &StructField,
    last: bool,
)
    ensures
        final(r)@ == old(r)@ + effect_field_line(structs@, recursive@, processed@, f@, last),
{
    proof {
        reveal_strlit("");
    }
    let schema = field_type_to_effect_schema(&f.field_type, structs, recursive, processed);
    let validated = apply_validators_to_schema(schema, f.validators.as_slice(), f.field_name.as_str());
    let camel = to_case(f.field_name.as_str(), TextCase::Camel);
    let ghost before = r@;
    let ghost title_v = case_converted(f@.field_name, TextCase::Title);
    assert(validated@ == effect_validated(effect_schema(structs@, recursive@, processed@, f@.field_type), f@.validators, title_v));
    r.append("  ");
    r.append(camel.as_str());
    r.append(": ");
    match &f.field_type {
        FieldType::Option(_) => {
            assert(f@.field_type is Option);
            r.append(validated.as_str());
        },
        _ => {
            assert(!(f@.field_type is Option));
            let title = to_case(f.field_name.as_str(), TextCase::Title);
            let ghost mid = r@;
            r.append("Schema.propertySignature(");
            r.append(validated.as_str());
            r.append(").annotations({ missingMessage: () => `'");
            r.append(title.as_str());
            r.append("' is required` })");
            assert(r@ =~= mid + ("Schema.propertySignature("@ + validated@ + ").annotations({ missingMessage: () => `'"@ + title_v + "' is required` })"@));
        },
    }
    let ghost full = if f@.field_type is Option {
        validated@
    } else {
        "Schema.propertySignature("@ + validated@ + ").annotations({ missingMessage: () => `'"@ + title_v + "' is required` })"@
    };
    assert(r@ =~= before + "  "@ + camel@ + ": "@ + full);
    let ghost with_line = r@;
    if !last {
        r.append(",");
    }
    assert(r@ =~= with_line + (if last { ""@ } else { ","@ }));
    r.append("\n");
    assert(r@ =~= before + effect_field_line(structs@, recursive@, processed@, f@, last));
}

/// The schema class of a struct named `name`.
fn struct_class_of(structs: &NamedMap<StructConfig>, recursive: &NamedMap<bool>, processed: &NamedMap<bool>, name: &str, c: &StructConfig) -> (r: String)
    ensures
        r@ == struct_class(structs@, recursive@, processed@, name@, c@),
{
    let mut r = owned("export class ");
    r.append(name);
    r.append(" extends Schema.Class<");
    r.append(name);
    r.append(">(\"");
    r.append(name);
    r.append("\")( { \n");
    let ghost head = r@;
    let ghost fs = c@.fields;
    let n = c.fields.len();
    let mut i: usize = 0;
    while i < n
        invariant
            i <= n,
            n == fs.len(),
            fs == c@.fields,
            r@ == head + effect_field_lines(structs@, recursive@, processed@, fs, i as nat),
        decreases n - i,
    {
        let f = &c.fields[i];
        assert(fs[i as int] == f@);
        push_effect_field_line(&mut r, structs, recursive, processed, f, i + 1 == n);
        i = i + 1;
    }
    r.append("}) {[key: string]: unknown}\n\n");
    r
}

/// Generates the type named `name`, with `recursive` the types recursive
/// with it, appending to what has been written.
fn effect_member_of(
    structs: &NamedMap<StructConfig>,
    enums: &NamedMap<TaggedUnion>,
    recursive: &NamedMap<bool>,
    classes: &mut String,
    types: &mut String,
    encoded: &mut String,
    done: &mut NamedMap<bool>,
    name: &String,
)
    ensures
        (final(classes)@, final(types)@, final(encoded)@, final(done)@) == effect_member(
            structs@,
            enums@,
            recursive@,
            (old(classes)@, old(types)@, old(encoded)@, old(done)@),
            name@,
        ),
{
    if done.contains_key(name.as_str()) {
        return;
    }
    match find_enum(enums, name.as_str()) {
        Some(e) => {
            let c = enum_class_of(structs, recursive, done, name.as_str(), e);
            classes.append(c.as_str());
            types.append(type_alias_of(name.as_str()).as_str());
            encoded.append(encoded_alias_for_enum(e).as_str());
        },
        None => match find_struct(structs, name.as_str()) {
            Some(c) => {
                let class = struct_class_of(structs, recursive, done, name.as_str(), c);
                classes.append(class.as_str());
                types.append(type_alias_of(name.as_str()).as_str());
                encoded.append(encoded_interface_for_struct(c).as_str());
            },
            None => {},
        },
    }
    done.insert(name.clone(), true);
}

/// The members of a component, each once, in the order of their names.
fn member_table_of(members: &Vec<String>) -> (r: NamedMap<bool>)
    ensures
        r@ == member_table(texts(members@)),
{
    let ghost es = texts(members@).map_values(|m: Seq<char>| (m, true));
    let mut table: NamedMap<bool> = NamedMap::new();
    let mut j: usize = 0;
    while j < members.len()
        invariant
            j <= members@.len(),
            es == texts(members@).map_values(|m: Seq<char>| (m, true)),
            table@ == put_all(Seq::empty(), es.take(j as int)),
        decreases members.len() - j,
    {
        let name = members[j].clone();
        proof {
            assert(es.take(j + 1).drop_last() =~= es.take(j as int));
            assert(es.take(j + 1).last() == (name@, true));
        }
        table.insert(name, true);
        j = j + 1;
    }
    assert(es.take(es.len() as int) =~= es);
    table
}

/// Generates the Effect schema module for the structs and enums.
///
/// `components` lists the groups of mutually recursive types, each by its
/// members' PascalCase names and whether it is recursive, in an order
/// where a group comes after the groups it depends on. Each group's
/// members are generated in the order of their names, each name once: an
/// enum of that name as a `Schema.Union`, else a struct as a
/// `Schema.Class`, each with its `.Type` alias and its `...Encoded`
/// declaration. References inside a recursive group to a member not
/// generated yet are suspended. The module holds the classes, then the
/// `...Encoded` declarations, then, with `print_types`, the `.Type`
/// aliases.
pub fn generate_effect_schema_string(
    structs: &NamedMap<StructConfig>,
    enums: &NamedMap<TaggedUnion>,
    components: &Vec<(Vec<String>, bool)>,
    print_types: bool,
) -> (r: String)
    ensures
        r@ == effect_module(structs@, enums@, component_texts(components@), print_types),
{
    let ghost cs = component_texts(components@);
    let mut classes = String::new();
    let mut types = String::new();
    let mut encoded = String::new();
    let mut done: NamedMap<bool> = NamedMap::new();
    let empty: NamedMap<bool> = NamedMap::new();
    let mut i: usize = 0;
    while i < components.len()
        invariant
            i <= components@.len(),
            cs == component_texts(components@),
            empty@ == Seq::<(Seq<char>, bool)>::empty(),
            (classes@, types@, encoded@, done@) == effect_components(structs@, enums@, cs.take(i as int)),
        decreases components.len() - i,
    {
        proof {
            assert(cs.take(i + 1).drop_last() =~= cs.take(i as int));
            assert(cs.take(i + 1).last() == (texts(components@[i as int].0@), components@[i as int].1));
        }
        let table = member_table_of(&components[i].0);
        let recursive = if components[i].1 {
            &table
        } else {
            &empty
        };
        let names = table.entries();
        let ghost start = (classes@, types@, encoded@, done@);
        let ghost nv = table@.map_values(|e: (Seq<char>, bool)| e.0);
        let mut k: usize = 0;
        while k < names.len()
            invariant
                k <= names@.len(),
                entries_view(names@) == table@,
                nv == table@.map_values(|e: (Seq<char>, bool)| e.0),
                (classes@, types@, encoded@, done@) == effect_members(structs@, enums@, recursive@, start, nv.take(k as int)),
            decreases names.len() - k,
        {
            proof {
                assert(nv.take(k + 1).drop_last() =~= nv.take(k as int));
                assert(nv.take(k + 1).last() == names@[k as int].0@);
            }
            effect_member_of(structs, enums, recursive, &mut classes, &mut types, &mut encoded, &mut done, &names[k].0);
            k = k + 1;
        }
        assert(nv.take(nv.len() as int) =~= nv);
        i = i + 1;
    }
    assert(cs.take(cs.len() as int) =~= cs);
    let mut r = classes;
    r.append("\n");
    r.append(encoded.as_str());
    if print_types {
        r.append("\n");
        r.append(types.as_str());
    }
    r
}


/// A map's Effect schema is a record whose key slot holds the schema of the
/// key type and whose value slot holds the schema of the value type, for
/// hash maps and B-tree maps alike; its encoded TypeScript type is a
/// `Record` of the encoded key type and the encoded value type, in that
/// order.
pub proof fn lemma_map_key_and_value_slots(
    s: Seq<(Seq<char>, StructConfig)>,
    rec: Seq<(Seq<char>, bool)>,
    done: Seq<(Seq<char>, bool)>,
    k: FieldTypeV,
    v: FieldTypeV,
)
    ensures
        effect_schema(s, rec, done, FieldTypeV::HashMap(Box::new(k), Box::new(v)))
            == "Schema.Record({ key: "@ + effect_schema(s, rec, done, k) + ", value: "@ + effect_schema(s, rec, done, v) + " })"@,
        effect_schema(s, rec, done, FieldTypeV::BTreeMap(Box::new(k), Box::new(v)))
            == "Schema.Record({ key: "@ + effect_schema(s, rec, done, k) + ", value: "@ + effect_schema(s, rec, done, v) + " })"@,
        ts_encoded(FieldTypeV::HashMap(Box::new(k), Box::new(v))) == "Record<"@ + ts_encoded(k) + ", "@ + ts_encoded(v) + ">"@,
        ts_encoded(FieldTypeV::BTreeMap(Box::new(k), Box::new(v))) == "Record<"@ + ts_encoded(k) + ", "@ + ts_encoded(v) + ">"@,
{
}


/// Whether `t` begins with `p`.
pub open spec fn starts_with_text(t: Seq<char>, p: Seq<char>) -> bool {
    t.len() >= p.len() && t.subrange(0, p.len() as int) == p
}

/// Each number validator but `uint8` adds the Effect pipe that names its
/// own comparison: `.pipe(Schema.` then the validator's own name with the
/// first letter made small, then its arguments in parentheses (so
/// `LessThanOrEqualTo(n)` pipes through `Schema.lessThanOrEqualTo(n, ..)`).
pub proof fn lemma_number_pipe_names_validator(v: NumberValidatorV, t: Seq<char>)
    ensures
        !(v is Uint8) ==> number_effect_pipe(v, t) is Some && starts_with_text(
            number_effect_pipe(v, t)->0,
            ".pipe(Schema."@ + lower_first(number_variant_name(v)) + "("@,
        ),
{
    reveal_strlit(".pipe(Schema.");
    reveal_strlit("(");
    match v {
        NumberValidatorV::GreaterThan(_) => {
            reveal_strlit("GreaterThan");
            reveal_strlit(".pipe(Schema.greaterThan(");
            let q = ".pipe(Schema."@ + lower_first("GreaterThan"@) + "("@;
            assert(q =~= ".pipe(Schema.greaterThan("@);
            let pipe = number_effect_pipe(v, t)->0;
            assert(pipe.subrange(0, q.len() as int) =~= q);
        },
        NumberValidatorV::GreaterThanOrEqualTo(_) => {
            reveal_strlit("GreaterThanOrEqualTo");
            reveal_strlit(".pipe(Schema.greaterThanOrEqualTo(");
            let q = ".pipe(Schema."@ + lower_first("GreaterThanOrEqualTo"@) + "("@;
            assert(q =~= ".pipe(Schema.greaterThanOrEqualTo("@);
            let pipe = number_effect_pipe(v, t)->0;
            assert(pipe.subrange(0, q.len() as int) =~= q);
        },
        NumberValidatorV::LessThan(_) => {
            reveal_strlit("LessThan");
            reveal_strlit(".pipe(Schema.lessThan(");
            let q = ".pipe(Schema."@ + lower_first("LessThan"@) + "("@;
            assert(q =~= ".pipe(Schema.lessThan("@);
            let pipe = number_effect_pipe(v, t)->0;
            assert(pipe.subrange(0, q.len() as int) =~= q);
        },
        NumberValidatorV::LessThanOrEqualTo(_) => {
            reveal_strlit("LessThanOrEqualTo");
            reveal_strlit(".pipe(Schema.lessThanOrEqualTo(");
            let q = ".pipe(Schema."@ + lower_first("LessThanOrEqualTo"@) + "("@;
            assert(q =~= ".pipe(Schema.lessThanOrEqualTo("@);
            let pipe = number_effect_pipe(v, t)->0;
            assert(pipe.subrange(0, q.len() as int) =~= q);
        },
        NumberValidatorV::Between(_, _) => {
            reveal_strlit("Between");
            reveal_strlit(".pipe(Schema.between(");
            let q = ".pipe(Schema."@ + lower_first("Between"@) + "("@;
            assert(q =~= ".pipe(Schema.between("@);
            let pipe = number_effect_pipe(v, t)->0;
            assert(pipe.subrange(0, q.len() as int) =~= q);
        },
        NumberValidatorV::Int => {
            reveal_strlit("Int");
            reveal_strlit(".pipe(Schema.int({ message: () => `");
            let q = ".pipe(Schema."@ + lower_first("Int"@) + "("@;
            let pipe = number_effect_pipe(v, t)->0;
            assert(pipe.subrange(0, q.len() as int) =~= q);
        },
        NumberValidatorV::NonNaN => {
            reveal_strlit("NonNaN");
            reveal_strlit(".pipe(Schema.nonNaN({ message: () => `");
            let q = ".pipe(Schema."@ + lower_first("NonNaN"@) + "("@;
            let pipe = number_effect_pipe(v, t)->0;
            assert(pipe.subrange(0, q.len() as int) =~= q);
        },
        NumberValidatorV::Finite => {
            reveal_strlit("Finite");
            reveal_strlit(".pipe(Schema.finite({ message: () => `");
            let q = ".pipe(Schema."@ + lower_first("Finite"@) + "("@;
            let pipe = number_effect_pipe(v, t)->0;
            assert(pipe.subrange(0, q.len() as int) =~= q);
        },
        NumberValidatorV::Positive => {
            reveal_strlit("Positive");
            reveal_strlit(".pipe(Schema.positive({ message: () => `");
            let q = ".pipe(Schema."@ + lower_first("Positive"@) + "("@;
            let pipe = number_effect_pipe(v, t)->0;
            assert(pipe.subrange(0, q.len() as int) =~= q);
        },
        NumberValidatorV::NonNegative => {
            reveal_strlit("NonNegative");
            reveal_strlit(".pipe(Schema.nonNegative({ message: () => `");
            let q = ".pipe(Schema."@ + lower_first("NonNegative"@) + "("@;
            let pipe = number_effect_pipe(v, t)->0;
            assert(pipe.subrange(0, q.len() as int) =~= q);
        },
        NumberValidatorV::Negative => {
            reveal_strlit("Negative");
            reveal_strlit(".pipe(Schema.negative({ message: () => `");
            let q = ".pipe(Schema."@ + lower_first("Negative"@) + "("@;
            let pipe = number_effect_pipe(v, t)->0;
            assert(pipe.subrange(0, q.len() as int) =~= q);
        },
        NumberValidatorV::NonPositive => {
            reveal_strlit("NonPositive");
            reveal_strlit(".pipe(Schema.nonPositive({ message: () => `");
            let q = ".pipe(Schema."@ + lower_first("NonPositive"@) + "("@;
            let pipe = number_effect_pipe(v, t)->0;
            assert(pipe.subrange(0, q.len() as int) =~= q);
        },
        NumberValidatorV::MultipleOf(_) => {
            reveal_strlit("MultipleOf");
            reveal_strlit(".pipe(Schema.multipleOf(");
            let q = ".pipe(Schema."@ + lower_first("MultipleOf"@) + "("@;
            assert(q =~= ".pipe(Schema.multipleOf("@);
            let pipe = number_effect_pipe(v, t)->0;
            assert(pipe.subrange(0, q.len() as int) =~= q);
        },
        NumberValidatorV::Uint8 => {},
    }
}

} // verus!
