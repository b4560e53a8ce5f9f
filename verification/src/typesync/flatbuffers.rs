//! FlatBuffers schema generation, with validators written into
//! `(validate: "...")` field attributes.

use vstd::prelude::*;
use crate::text::{
    call, call2, call2_text, call_text, decimal, escape_backslash_quote, escape_quotes, join,
    join_strings, owned, usize_text,
};
use crate::case::{TextCase, case_converted, to_case};
use crate::named_map::{NamedMap, put};
use crate::text::same_text;
use crate::types::field_type::{FieldType, FieldTypeV, lemma_struct_view, named_views_of};
use crate::types::{
    StructConfig, StructConfigV, StructFieldV, TaggedUnion, TaggedUnionV, VariantData, VariantDataV,
    VariantV,
};
use crate::typesync::doc_comment::concat;
use crate::validator::{
    ArrayValidator, ArrayValidatorV, BigDecimalValidator, BigDecimalValidatorV, BigIntValidator,
    BigIntValidatorV, DateValidator, DateValidatorV, DurationValidator, DurationValidatorV,
    NumberValidator, NumberValidatorV, StringValidator, StringValidatorV, Validator, ValidatorV,
    validators_view,
};

verus! {

/// `name(\"arg\")` with `arg` escaped, the FlatBuffers attribute form of a
/// text argument.
pub open spec fn fbs_quoted_call(name: Seq<char>, arg: Seq<char>) -> Seq<char> {
    name + "(\\\""@ + escape_quotes(arg) + "\\\")"@
}

/// `name(\"a\", \"b\")` with `a` and `b` escaped.
pub open spec fn fbs_quoted_call2(name: Seq<char>, a: Seq<char>, b: Seq<char>) -> Seq<char> {
    name + "(\\\""@ + escape_quotes(a) + "\\\", \\\""@ + escape_quotes(b) + "\\\")"@
}

fn fbs_quoted(name: &str, arg: &str) -> (r: String)
    ensures
        r@ == fbs_quoted_call(name@, arg@),
{
    let mut r = String::new();
    r.append(name);
    r.append("(\\\"");
    r.append(escape_backslash_quote(arg).as_str());
    r.append("\\\")");
    r
}

fn fbs_quoted2(name: &str, a: &str, b: &str) -> (r: String)
    ensures
        r@ == fbs_quoted_call2(name@, a@, b@),
{
    let mut r = String::new();
    r.append(name);
    r.append("(\\\"");
    r.append(escape_backslash_quote(a).as_str());
    r.append("\\\", \\\"");
    r.append(escape_backslash_quote(b).as_str());
    r.append("\\\")");
    r
}

/// The text of a string validator.
pub open spec fn string_validator_to_flatbuffers_text(v: StringValidatorV) -> Option<Seq<char>> {
    match v {
        StringValidatorV::String => Some("string"@),
        StringValidatorV::Alpha => Some("alpha"@),
        StringValidatorV::Alphanumeric => Some("alphanumeric"@),
        StringValidatorV::Base64 => Some("base64"@),
        StringValidatorV::Base64Url => Some("base64Url"@),
        StringValidatorV::Capitalize => Some("capitalize"@),
        StringValidatorV::CreditCard => Some("creditCard"@),
        StringValidatorV::Date => Some("date"@),
        StringValidatorV::DateEpoch => Some("dateEpoch"@),
        StringValidatorV::DateIso => Some("dateIso"@),
        StringValidatorV::Digits => Some("digits"@),
        StringValidatorV::Email => Some("email"@),
        StringValidatorV::Hex => Some("hex"@),
        StringValidatorV::Integer => Some("integer"@),
        StringValidatorV::Ip => Some("ip"@),
        StringValidatorV::IpV4 => Some("ipv4"@),
        StringValidatorV::IpV6 => Some("ipv6"@),
        StringValidatorV::Json => Some("json"@),
        StringValidatorV::Lower => Some("lower"@),
        StringValidatorV::Upper => Some("upper"@),
        StringValidatorV::NonEmpty => Some("nonEmpty"@),
        StringValidatorV::Numeric => Some("numeric"@),
        StringValidatorV::Regex => Some("regex"@),
        StringValidatorV::Semver => Some("semver"@),
        StringValidatorV::Trim => Some("trim"@),
        StringValidatorV::Url => Some("url"@),
        StringValidatorV::Uuid => Some("uuid"@),
        StringValidatorV::UuidV1 => Some("uuidV1"@),
        StringValidatorV::UuidV2 => Some("uuidV2"@),
        StringValidatorV::UuidV3 => Some("uuidV3"@),
        StringValidatorV::UuidV4 => Some("uuidV4"@),
        StringValidatorV::UuidV5 => Some("uuidV5"@),
        StringValidatorV::UuidV6 => Some("uuidV6"@),
        StringValidatorV::UuidV7 => Some("uuidV7"@),
        StringValidatorV::UuidV8 => Some("uuidV8"@),
        StringValidatorV::Lowercased => Some("lowercase"@),
        StringValidatorV::LowerPreformatted => Some("lowercase"@),
        StringValidatorV::Uppercased => Some("uppercase"@),
        StringValidatorV::UpperPreformatted => Some("uppercase"@),
        StringValidatorV::Trimmed => Some("trimmed"@),
        StringValidatorV::TrimPreformatted => Some("trimmed"@),
        StringValidatorV::Capitalized => Some("capitalized"@),
        StringValidatorV::CapitalizePreformatted => Some("capitalized"@),
        StringValidatorV::Uncapitalized => Some("uncapitalized"@),
        StringValidatorV::Normalize => Some("normalize"@),
        StringValidatorV::NormalizeNFC => Some("normalizeNFC"@),
        StringValidatorV::NormalizeNFD => Some("normalizeNFD"@),
        StringValidatorV::NormalizeNFKC => Some("normalizeNFKC"@),
        StringValidatorV::NormalizeNFKD => Some("normalizeNFKD"@),
        StringValidatorV::NormalizeNFCPreformatted => Some("normalizedNFC"@),
        StringValidatorV::NormalizeNFDPreformatted => Some("normalizedNFD"@),
        StringValidatorV::NormalizeNFKCPreformatted => Some("normalizedNFKC"@),
        StringValidatorV::NormalizeNFKDPreformatted => Some("normalizedNFKD"@),
        StringValidatorV::DateParse => Some("dateParse"@),
        StringValidatorV::DateEpochParse => Some("dateEpochParse"@),
        StringValidatorV::DateIsoParse => Some("dateIsoParse"@),
        StringValidatorV::IntegerParse => Some("integerParse"@),
        StringValidatorV::NumericParse => Some("numericParse"@),
        StringValidatorV::JsonParse => Some("jsonParse"@),
        StringValidatorV::UrlParse => Some("urlParse"@),
        StringValidatorV::MinLength(a) => Some(call_text("minLength"@, decimal(a as nat))),
        StringValidatorV::MaxLength(a) => Some(call_text("maxLength"@, decimal(a as nat))),
        StringValidatorV::Length(a) => Some(call_text("length"@, a)),
        StringValidatorV::StartsWith(a) => Some(fbs_quoted_call("startsWith"@, a)),
        StringValidatorV::EndsWith(a) => Some(fbs_quoted_call("endsWith"@, a)),
        StringValidatorV::Includes(a) => Some(fbs_quoted_call("includes"@, a)),
        StringValidatorV::RegexLiteral(a) => Some(fbs_quoted_call("pattern"@, a)),
        StringValidatorV::Literal(a) => Some(fbs_quoted_call("literal"@, a)),
        StringValidatorV::StringEmbedded(a) => None,
    }
}

/// The text of a number validator.
pub open spec fn number_validator_to_flatbuffers_text(v: NumberValidatorV) -> Option<Seq<char>> {
    match v {
        NumberValidatorV::Int => Some("int"@),
        NumberValidatorV::Finite => Some("finite"@),
        NumberValidatorV::NonNaN => Some("nonNaN"@),
        NumberValidatorV::Positive => Some("positive"@),
        NumberValidatorV::Negative => Some("negative"@),
        NumberValidatorV::NonPositive => Some("nonPositive"@),
        NumberValidatorV::NonNegative => Some("nonNegative"@),
        NumberValidatorV::Uint8 => Some("uint8"@),
        NumberValidatorV::GreaterThan(a) => Some(call_text("greaterThan"@, a)),
        NumberValidatorV::GreaterThanOrEqualTo(a) => Some(call_text("greaterThanOrEqualTo"@, a)),
        NumberValidatorV::LessThan(a) => Some(call_text("lessThan"@, a)),
        NumberValidatorV::LessThanOrEqualTo(a) => Some(call_text("lessThanOrEqualTo"@, a)),
        NumberValidatorV::MultipleOf(a) => Some(call_text("multipleOf"@, a)),
        NumberValidatorV::Between(a, b) => Some(call2_text("between"@, a, b)),
    }
}

/// The text of an array validator.
pub open spec fn array_validator_to_flatbuffers_text(v: ArrayValidatorV) -> Option<Seq<char>> {
    match v {
        ArrayValidatorV::MinItems(a) => Some(call_text("minItems"@, decimal(a as nat))),
        ArrayValidatorV::MaxItems(a) => Some(call_text("maxItems"@, decimal(a as nat))),
        ArrayValidatorV::ItemsCount(a) => Some(call_text("itemsCount"@, decimal(a as nat))),
    }
}

/// The text of a date validator.
pub open spec fn date_validator_to_flatbuffers_text(v: DateValidatorV) -> Option<Seq<char>> {
    match v {
        DateValidatorV::ValidDate => Some("validDate"@),
        DateValidatorV::GreaterThanDate(a) => Some(fbs_quoted_call("greaterThanDate"@, a)),
        DateValidatorV::GreaterThanOrEqualToDate(a) => Some(fbs_quoted_call("greaterThanOrEqualToDate"@, a)),
        DateValidatorV::LessThanDate(a) => Some(fbs_quoted_call("lessThanDate"@, a)),
        DateValidatorV::LessThanOrEqualToDate(a) => Some(fbs_quoted_call("lessThanOrEqualToDate"@, a)),
        DateValidatorV::BetweenDate(a, b) => Some(fbs_quoted_call2("betweenDate"@, a, b)),
    }
}

/// The text of a big-integer validator.
pub open spec fn bigint_validator_to_flatbuffers_text(v: BigIntValidatorV) -> Option<Seq<char>> {
    match v {
        BigIntValidatorV::PositiveBigInt => Some("positiveBigInt"@),
        BigIntValidatorV::NegativeBigInt => Some("negativeBigInt"@),
        BigIntValidatorV::NonPositiveBigInt => Some("nonPositiveBigInt"@),
        BigIntValidatorV::NonNegativeBigInt => Some("nonNegativeBigInt"@),
        BigIntValidatorV::GreaterThanBigInt(a) => Some(fbs_quoted_call("greaterThanBigInt"@, a)),
        BigIntValidatorV::GreaterThanOrEqualToBigInt(a) => Some(fbs_quoted_call("greaterThanOrEqualToBigInt"@, a)),
        BigIntValidatorV::LessThanBigInt(a) => Some(fbs_quoted_call("lessThanBigInt"@, a)),
        BigIntValidatorV::LessThanOrEqualToBigInt(a) => Some(fbs_quoted_call("lessThanOrEqualToBigInt"@, a)),
        BigIntValidatorV::BetweenBigInt(a, b) => Some(fbs_quoted_call2("betweenBigInt"@, a, b)),
    }
}

/// The text of a big-decimal validator.
pub open spec fn bigdecimal_validator_to_flatbuffers_text(v: BigDecimalValidatorV) -> Option<Seq<char>> {
    match v {
        BigDecimalValidatorV::PositiveBigDecimal => Some("positiveBigDecimal"@),
        BigDecimalValidatorV::NegativeBigDecimal => Some("negativeBigDecimal"@),
        BigDecimalValidatorV::NonPositiveBigDecimal => Some("nonPositiveBigDecimal"@),
        BigDecimalValidatorV::NonNegativeBigDecimal => Some("nonNegativeBigDecimal"@),
        BigDecimalValidatorV::GreaterThanBigDecimal(a) => Some(fbs_quoted_call("greaterThanBigDecimal"@, a)),
        BigDecimalValidatorV::GreaterThanOrEqualToBigDecimal(a) => Some(fbs_quoted_call("greaterThanOrEqualToBigDecimal"@, a)),
        BigDecimalValidatorV::LessThanBigDecimal(a) => Some(fbs_quoted_call("lessThanBigDecimal"@, a)),
        BigDecimalValidatorV::LessThanOrEqualToBigDecimal(a) => Some(fbs_quoted_call("lessThanOrEqualToBigDecimal"@, a)),
        BigDecimalValidatorV::BetweenBigDecimal(a, b) => Some(fbs_quoted_call2("betweenBigDecimal"@, a, b)),
    }
}

/// The text of a duration validator.
pub open spec fn duration_validator_to_flatbuffers_text(v: DurationValidatorV) -> Option<Seq<char>> {
    match v {
        DurationValidatorV::GreaterThanDuration(a) => Some(fbs_quoted_call("greaterThanDuration"@, a)),
        DurationValidatorV::GreaterThanOrEqualToDuration(a) => Some(fbs_quoted_call("greaterThanOrEqualToDuration"@, a)),
        DurationValidatorV::LessThanDuration(a) => Some(fbs_quoted_call("lessThanDuration"@, a)),
        DurationValidatorV::LessThanOrEqualToDuration(a) => Some(fbs_quoted_call("lessThanOrEqualToDuration"@, a)),
        DurationValidatorV::BetweenDuration(a, b) => Some(fbs_quoted_call2("betweenDuration"@, a, b)),
    }
}



/// Converts a string validator to its FlatBuffers attribute text.
pub fn string_validator_to_flatbuffers(v: &StringValidator) -> (r: Option<String>)
    ensures
        match r {
            Some(s) => string_validator_to_flatbuffers_text(v@) == Some(s@),
            None => string_validator_to_flatbuffers_text(v@) is None,
        },
{
    match v {
        StringValidator::String => Some(owned("string")),
        StringValidator::Alpha => Some(owned("alpha")),
        StringValidator::Alphanumeric => Some(owned("alphanumeric")),
        StringValidator::Base64 => Some(owned("base64")),
        StringValidator::Base64Url => Some(owned("base64Url")),
        StringValidator::Capitalize => Some(owned("capitalize")),
        StringValidator::CreditCard => Some(owned("creditCard")),
        StringValidator::Date => Some(owned("date")),
        StringValidator::DateEpoch => Some(owned("dateEpoch")),
        StringValidator::DateIso => Some(owned("dateIso")),
        StringValidator::Digits => Some(owned("digits")),
        StringValidator::Email => Some(owned("email")),
        StringValidator::Hex => Some(owned("hex")),
        StringValidator::Integer => Some(owned("integer")),
        StringValidator::Ip => Some(owned("ip")),
        StringValidator::IpV4 => Some(owned("ipv4")),
        StringValidator::IpV6 => Some(owned("ipv6")),
        StringValidator::Json => Some(owned("json")),
        StringValidator::Lower => Some(owned("lower")),
        StringValidator::Upper => Some(owned("upper")),
        StringValidator::NonEmpty => Some(owned("nonEmpty")),
        StringValidator::Numeric => Some(owned("numeric")),
        StringValidator::Regex => Some(owned("regex")),
        StringValidator::Semver => Some(owned("semver")),
        StringValidator::Trim => Some(owned("trim")),
        StringValidator::Url => Some(owned("url")),
        StringValidator::Uuid => Some(owned("uuid")),
        StringValidator::UuidV1 => Some(owned("uuidV1")),
        StringValidator::UuidV2 => Some(owned("uuidV2")),
        StringValidator::UuidV3 => Some(owned("uuidV3")),
        StringValidator::UuidV4 => Some(owned("uuidV4")),
        StringValidator::UuidV5 => Some(owned("uuidV5")),
        StringValidator::UuidV6 => Some(owned("uuidV6")),
        StringValidator::UuidV7 => Some(owned("uuidV7")),
        StringValidator::UuidV8 => Some(owned("uuidV8")),
        StringValidator::Lowercased => Some(owned("lowercase")),
        StringValidator::LowerPreformatted => Some(owned("lowercase")),
        StringValidator::Uppercased => Some(owned("uppercase")),
        StringValidator::UpperPreformatted => Some(owned("uppercase")),
        StringValidator::Trimmed => Some(owned("trimmed")),
        StringValidator::TrimPreformatted => Some(owned("trimmed")),
        StringValidator::Capitalized => Some(owned("capitalized")),
        StringValidator::CapitalizePreformatted => Some(owned("capitalized")),
        StringValidator::Uncapitalized => Some(owned("uncapitalized")),
        StringValidator::Normalize => Some(owned("normalize")),
        StringValidator::NormalizeNFC => Some(owned("normalizeNFC")),
        StringValidator::NormalizeNFD => Some(owned("normalizeNFD")),
        StringValidator::NormalizeNFKC => Some(owned("normalizeNFKC")),
        StringValidator::NormalizeNFKD => Some(owned("normalizeNFKD")),
        StringValidator::NormalizeNFCPreformatted => Some(owned("normalizedNFC")),
        StringValidator::NormalizeNFDPreformatted => Some(owned("normalizedNFD")),
        StringValidator::NormalizeNFKCPreformatted => Some(owned("normalizedNFKC")),
        StringValidator::NormalizeNFKDPreformatted => Some(owned("normalizedNFKD")),
        StringValidator::DateParse => Some(owned("dateParse")),
        StringValidator::DateEpochParse => Some(owned("dateEpochParse")),
        StringValidator::DateIsoParse => Some(owned("dateIsoParse")),
        StringValidator::IntegerParse => Some(owned("integerParse")),
        StringValidator::NumericParse => Some(owned("numericParse")),
        StringValidator::JsonParse => Some(owned("jsonParse")),
        StringValidator::UrlParse => Some(owned("urlParse")),
        StringValidator::MinLength(a) => Some(call("minLength", usize_text(*a).as_str())),
        StringValidator::MaxLength(a) => Some(call("maxLength", usize_text(*a).as_str())),
        StringValidator::Length(a) => Some(call("length", a.as_str())),
        StringValidator::StartsWith(a) => Some(fbs_quoted("startsWith", a.as_str())),
        StringValidator::EndsWith(a) => Some(fbs_quoted("endsWith", a.as_str())),
        StringValidator::Includes(a) => Some(fbs_quoted("includes", a.as_str())),
        StringValidator::RegexLiteral(a) => Some(fbs_quoted("pattern", a.as_str())),
        StringValidator::Literal(a) => Some(fbs_quoted("literal", a.as_str())),
        StringValidator::StringEmbedded(a) => None,
    }
}

fn number_validator_to_flatbuffers(v: &NumberValidator) -> (r: Option<String>)
    ensures
        match r {
            Some(s) => number_validator_to_flatbuffers_text(v@) == Some(s@),
            None => number_validator_to_flatbuffers_text(v@) is None,
        },
{
    match v {
        NumberValidator::Int => Some(owned("int")),
        NumberValidator::Finite => Some(owned("finite")),
        NumberValidator::NonNaN => Some(owned("nonNaN")),
        NumberValidator::Positive => Some(owned("positive")),
        NumberValidator::Negative => Some(owned("negative")),
        NumberValidator::NonPositive => Some(owned("nonPositive")),
        NumberValidator::NonNegative => Some(owned("nonNegative")),
        NumberValidator::Uint8 => Some(owned("uint8")),
        NumberValidator::GreaterThan(a) => Some(call("greaterThan", a.text())),
        NumberValidator::GreaterThanOrEqualTo(a) => Some(call("greaterThanOrEqualTo", a.text())),
        NumberValidator::LessThan(a) => Some(call("lessThan", a.text())),
        NumberValidator::LessThanOrEqualTo(a) => Some(call("lessThanOrEqualTo", a.text())),
        NumberValidator::MultipleOf(a) => Some(call("multipleOf", a.text())),
        NumberValidator::Between(a, b) => Some(call2("between", a.text(), b.text())),
    }
}

fn array_validator_to_flatbuffers(v: &ArrayValidator) -> (r: Option<String>)
    ensures
        match r {
            Some(s) => array_validator_to_flatbuffers_text(v@) == Some(s@),
            None => array_validator_to_flatbuffers_text(v@) is None,
        },
{
    match v {
        ArrayValidator::MinItems(a) => Some(call("minItems", usize_text(*a).as_str())),
        ArrayValidator::MaxItems(a) => Some(call("maxItems", usize_text(*a).as_str())),
        ArrayValidator::ItemsCount(a) => Some(call("itemsCount", usize_text(*a).as_str())),
    }
}

fn date_validator_to_flatbuffers(v: &DateValidator) -> (r: Option<String>)
    ensures
        match r {
            Some(s) => date_validator_to_flatbuffers_text(v@) == Some(s@),
            None => date_validator_to_flatbuffers_text(v@) is None,
        },
{
    match v {
        DateValidator::ValidDate => Some(owned("validDate")),
        DateValidator::GreaterThanDate(a) => Some(fbs_quoted("greaterThanDate", a.as_str())),
        DateValidator::GreaterThanOrEqualToDate(a) => Some(fbs_quoted("greaterThanOrEqualToDate", a.as_str())),
        DateValidator::LessThanDate(a) => Some(fbs_quoted("lessThanDate", a.as_str())),
        DateValidator::LessThanOrEqualToDate(a) => Some(fbs_quoted("lessThanOrEqualToDate", a.as_str())),
        DateValidator::BetweenDate(a, b) => Some(fbs_quoted2("betweenDate", a.as_str(), b.as_str())),
    }
}

fn bigint_validator_to_flatbuffers(v: &BigIntValidator) -> (r: Option<String>)
    ensures
        match r {
            Some(s) => bigint_validator_to_flatbuffers_text(v@) == Some(s@),
            None => bigint_validator_to_flatbuffers_text(v@) is None,
        },
{
    match v {
        BigIntValidator::PositiveBigInt => Some(owned("positiveBigInt")),
        BigIntValidator::NegativeBigInt => Some(owned("negativeBigInt")),
        BigIntValidator::NonPositiveBigInt => Some(owned("nonPositiveBigInt")),
        BigIntValidator::NonNegativeBigInt => Some(owned("nonNegativeBigInt")),
        BigIntValidator::GreaterThanBigInt(a) => Some(fbs_quoted("greaterThanBigInt", a.as_str())),
        BigIntValidator::GreaterThanOrEqualToBigInt(a) => Some(fbs_quoted("greaterThanOrEqualToBigInt", a.as_str())),
        BigIntValidator::LessThanBigInt(a) => Some(fbs_quoted("lessThanBigInt", a.as_str())),
        BigIntValidator::LessThanOrEqualToBigInt(a) => Some(fbs_quoted("lessThanOrEqualToBigInt", a.as_str())),
        BigIntValidator::BetweenBigInt(a, b) => Some(fbs_quoted2("betweenBigInt", a.as_str(), b.as_str())),
    }
}

fn bigdecimal_validator_to_flatbuffers(v: &BigDecimalValidator) -> (r: Option<String>)
    ensures
        match r {
            Some(s) => bigdecimal_validator_to_flatbuffers_text(v@) == Some(s@),
            None => bigdecimal_validator_to_flatbuffers_text(v@) is None,
        },
{
    match v {
        BigDecimalValidator::PositiveBigDecimal => Some(owned("positiveBigDecimal")),
        BigDecimalValidator::NegativeBigDecimal => Some(owned("negativeBigDecimal")),
        BigDecimalValidator::NonPositiveBigDecimal => Some(owned("nonPositiveBigDecimal")),
        BigDecimalValidator::NonNegativeBigDecimal => Some(owned("nonNegativeBigDecimal")),
        BigDecimalValidator::GreaterThanBigDecimal(a) => Some(fbs_quoted("greaterThanBigDecimal", a.as_str())),
        BigDecimalValidator::GreaterThanOrEqualToBigDecimal(a) => Some(fbs_quoted("greaterThanOrEqualToBigDecimal", a.as_str())),
        BigDecimalValidator::LessThanBigDecimal(a) => Some(fbs_quoted("lessThanBigDecimal", a.as_str())),
        BigDecimalValidator::LessThanOrEqualToBigDecimal(a) => Some(fbs_quoted("lessThanOrEqualToBigDecimal", a.as_str())),
        BigDecimalValidator::BetweenBigDecimal(a, b) => Some(fbs_quoted2("betweenBigDecimal", a.as_str(), b.as_str())),
    }
}

fn duration_validator_to_flatbuffers(v: &DurationValidator) -> (r: Option<String>)
    ensures
        match r {
            Some(s) => duration_validator_to_flatbuffers_text(v@) == Some(s@),
            None => duration_validator_to_flatbuffers_text(v@) is None,
        },
{
    match v {
        DurationValidator::GreaterThanDuration(a) => Some(fbs_quoted("greaterThanDuration", a.as_str())),
        DurationValidator::GreaterThanOrEqualToDuration(a) => Some(fbs_quoted("greaterThanOrEqualToDuration", a.as_str())),
        DurationValidator::LessThanDuration(a) => Some(fbs_quoted("lessThanDuration", a.as_str())),
        DurationValidator::LessThanOrEqualToDuration(a) => Some(fbs_quoted("lessThanOrEqualToDuration", a.as_str())),
        DurationValidator::BetweenDuration(a, b) => Some(fbs_quoted2("betweenDuration", a.as_str(), b.as_str())),
    }
}


/// The FlatBuffers attribute text of a validator; every kind is written,
/// transformations included, except embedded string validators.
pub open spec fn validator_flatbuffers_text(v: ValidatorV) -> Option<Seq<char>> {
    match v {
        ValidatorV::StringValidator(x) => string_validator_to_flatbuffers_text(x),
        ValidatorV::NumberValidator(x) => number_validator_to_flatbuffers_text(x),
        ValidatorV::ArrayValidator(x) => array_validator_to_flatbuffers_text(x),
        ValidatorV::DateValidator(x) => date_validator_to_flatbuffers_text(x),
        ValidatorV::BigIntValidator(x) => bigint_validator_to_flatbuffers_text(x),
        ValidatorV::BigDecimalValidator(x) => bigdecimal_validator_to_flatbuffers_text(x),
        ValidatorV::DurationValidator(x) => duration_validator_to_flatbuffers_text(x),
    }
}

/// Converts a validator to its FlatBuffers attribute text.
pub fn validator_to_flatbuffers_string(validator: &Validator) -> (r: Option<String>)
    ensures
        match r {
            Some(s) => validator_flatbuffers_text(validator@) == Some(s@),
            None => validator_flatbuffers_text(validator@) is None,
        },
{
    match validator {
        Validator::StringValidator(v) => string_validator_to_flatbuffers(v),
        Validator::NumberValidator(v) => number_validator_to_flatbuffers(v),
        Validator::ArrayValidator(v) => array_validator_to_flatbuffers(v),
        Validator::DateValidator(v) => date_validator_to_flatbuffers(v),
        Validator::BigIntValidator(v) => bigint_validator_to_flatbuffers(v),
        Validator::BigDecimalValidator(v) => bigdecimal_validator_to_flatbuffers(v),
        Validator::DurationValidator(v) => duration_validator_to_flatbuffers(v),
    }
}

/// The texts of the validators that have one, in order.
pub open spec fn flatbuffers_texts(vs: Seq<ValidatorV>) -> Seq<Seq<char>>
    decreases vs.len(),
{
    if vs.len() == 0 {
        Seq::empty()
    } else {
        let rest = flatbuffers_texts(vs.drop_last());
        match validator_flatbuffers_text(vs.last()) {
            Some(t) => rest.push(t),
            None => rest,
        }
    }
}

/// The validators of a field as the text of its `validate` attribute: each
/// one's text, joined by `, `.
pub fn collect_validators_for_field(validators: &[Validator]) -> (r: String)
    ensures
        r@ == join(flatbuffers_texts(validators_view(validators@)), ", "@),
{
    let mut texts: Vec<String> = Vec::new();
    let mut i: usize = 0;
    while i < validators.len()
        invariant
            i <= validators@.len(),
            texts@.map_values(|s: String| s@) == flatbuffers_texts(
                validators_view(validators@.take(i as int)),
            ),
        decreases validators.len() - i,
    {
        let ghost before = texts@;
        proof {
            assert(validators_view(validators@.take(i + 1)).drop_last() == validators_view(
                validators@.take(i as int),
            ));
            assert(validators_view(validators@.take(i + 1)).last() == validators@[i as int]@);
        }
        match validator_to_flatbuffers_string(&validators[i]) {
            Some(t) => {
                texts.push(t);
                assert(texts@.map_values(|s: String| s@) == before.map_values(|s: String| s@).push(
                    texts@.last()@,
                ));
            },
            None => {},
        }
        i = i + 1;
    }
    assert(validators@.take(validators@.len() as int) == validators@);
    join_strings(&texts, ", ")
}

/// Escapes backslashes and double quotes for a FlatBuffers attribute string.
pub fn escape_for_fbs(s: &str) -> (r: String)
    ensures
        r@ == escape_quotes(s@),
{
    escape_backslash_quote(s)
}

/// The PascalCase form of `s`.
pub open spec fn pascal(s: Seq<char>) -> Seq<char> {
    case_converted(s, TextCase::Pascal)
}

/// A FlatBuffers type name capitalised for use inside a compound name.
pub open spec fn capitalized_fbs(s: Seq<char>) -> Seq<char> {
    if s == "string"@ { "String"@ }
    else if s == "bool"@ { "Bool"@ }
    else if s == "float"@ { "Float"@ }
    else if s == "double"@ { "Double"@ }
    else if s == "int8"@ { "Int8"@ }
    else if s == "int16"@ { "Int16"@ }
    else if s == "int32"@ { "Int32"@ }
    else if s == "int64"@ { "Int64"@ }
    else if s == "uint8"@ { "Uint8"@ }
    else if s == "uint16"@ { "Uint16"@ }
    else if s == "uint32"@ { "Uint32"@ }
    else if s == "uint64"@ { "Uint64"@ }
    else { pascal(s) }
}

/// The FlatBuffers type of a field type: `Option` is dropped, `Vec` is a
/// vector, maps are vectors of entries, tuples and names refer to tables,
/// and inline structs are written out.
pub open spec fn fbs_type(t: FieldTypeV) -> Seq<char>
    decreases t,
{
    match t {
        FieldTypeV::String | FieldTypeV::Char => "string"@,
        FieldTypeV::Bool | FieldTypeV::Unit => "bool"@,
        FieldTypeV::F32 => "float"@,
        FieldTypeV::F64 => "double"@,
        FieldTypeV::I8 => "int8"@,
        FieldTypeV::I16 => "int16"@,
        FieldTypeV::I32 => "int32"@,
        FieldTypeV::I64 | FieldTypeV::Isize => "int64"@,
        FieldTypeV::I128 | FieldTypeV::U128 => "string"@,
        FieldTypeV::U8 => "uint8"@,
        FieldTypeV::U16 => "uint16"@,
        FieldTypeV::U32 => "uint32"@,
        FieldTypeV::U64 | FieldTypeV::Usize => "uint64"@,
        FieldTypeV::Option(inner) => fbs_type(*inner),
        FieldTypeV::Vec(inner) => "["@ + fbs_type(*inner) + "]"@,
        FieldTypeV::Tuple(ts) => "Tuple"@ + decimal(ts.len()),
        FieldTypeV::Struct(fs) => "{ "@ + join(fbs_fields(fs), ", "@) + " }"@,
        FieldTypeV::HashMap(k, v) | FieldTypeV::BTreeMap(k, v) => "["@ + capitalized_fbs(fbs_type(*k))
            + capitalized_fbs(fbs_type(*v)) + "Entry]"@,
        FieldTypeV::RecordLink(inner) => match *inner {
            FieldTypeV::Other(name) => pascal(name),
            _ => fbs_type(*inner),
        },
        FieldTypeV::Other(name) => pascal(name),
    }
}

/// The `name: type` texts of inline struct fields.
pub open spec fn fbs_fields(fs: Seq<(Seq<char>, FieldTypeV)>) -> Seq<Seq<char>>
    decreases fs,
{
    if fs.len() == 0 {
        Seq::empty()
    } else {
        proof {
            vstd::seq::axiom_seq_index_decreases(fs, fs.len() - 1);
            assert(decreases_to!(fs => fs.subrange(0, fs.len() - 1)));
        }
        let f = fs[fs.len() - 1];
        fbs_fields(fs.subrange(0, fs.len() - 1)).push(f.0 + ": "@ + fbs_type(f.1))
    }
}

fn pascal_of(s: &str) -> (r: String)
    ensures
        r@ == pascal(s@),
{
    to_case(s, TextCase::Pascal)
}

/// A FlatBuffers type name capitalised for use inside a compound name.
pub fn capitalize_fbs_type(fbs_type_name: &str) -> (r: String)
    ensures
        r@ == capitalized_fbs(fbs_type_name@),
{
    let s = fbs_type_name;
    if same_text(s, "string") { owned("String") }
    else if same_text(s, "bool") { owned("Bool") }
    else if same_text(s, "float") { owned("Float") }
    else if same_text(s, "double") { owned("Double") }
    else if same_text(s, "int8") { owned("Int8") }
    else if same_text(s, "int16") { owned("Int16") }
    else if same_text(s, "int32") { owned("Int32") }
    else if same_text(s, "int64") { owned("Int64") }
    else if same_text(s, "uint8") { owned("Uint8") }
    else if same_text(s, "uint16") { owned("Uint16") }
    else if same_text(s, "uint32") { owned("Uint32") }
    else if same_text(s, "uint64") { owned("Uint64") }
    else { pascal_of(s) }
}

fn fbs_field_texts(fs: &Vec<(String, FieldType)>) -> (r: Vec<String>)
    ensures
        r@.map_values(|s: String| s@) == fbs_fields(named_views_of(fs@)),
    decreases fs,
{
    let mut out: Vec<String> = Vec::new();
    let mut i: usize = 0;
    while i < fs.len()
        invariant
            i <= fs@.len(),
            out@.map_values(|s: String| s@) == fbs_fields(named_views_of(fs@.take(i as int))),
        decreases fs.len() - i,
    {
        proof {
            vstd::std_specs::vec::axiom_vec_index_decreases(*fs, i as int);
            assert(decreases_to!(fs[i as int] => fs[i as int].1));
        }
        let mut p = fs[i].0.clone();
        p.append(": ");
        p.append(field_type_to_flatbuffers(&fs[i].1).as_str());
        proof {
            let vs = named_views_of(fs@.take(i + 1));
            assert(vs.subrange(0, vs.len() - 1) =~= named_views_of(fs@.take(i as int)));
            assert(vs[vs.len() - 1] == (fs@[i as int].0@, fs@[i as int].1@));
            assert(out@.push(p).map_values(|s: String| s@) =~= out@.map_values(|s: String| s@).push(p@));
        }
        out.push(p);
        i = i + 1;
    }
    assert(fs@.take(fs@.len() as int) == fs@);
    out
}

/// The FlatBuffers type of a field type, as [`fbs_type`] says.
pub fn field_type_to_flatbuffers(field_type: &FieldType) -> (r: String)
    ensures
        r@ == fbs_type(field_type@),
    decreases field_type,
{
    match field_type {
        FieldType::String | FieldType::Char => owned("string"),
        FieldType::Bool | FieldType::Unit => owned("bool"),
        FieldType::F32 => owned("float"),
        FieldType::F64 => owned("double"),
        FieldType::I8 => owned("int8"),
        FieldType::I16 => owned("int16"),
        FieldType::I32 => owned("int32"),
        FieldType::I64 | FieldType::Isize => owned("int64"),
        FieldType::I128 | FieldType::U128 => owned("string"),
        FieldType::U8 => owned("uint8"),
        FieldType::U16 => owned("uint16"),
        FieldType::U32 => owned("uint32"),
        FieldType::U64 | FieldType::Usize => owned("uint64"),
        FieldType::Option(inner) => field_type_to_flatbuffers(inner),
        FieldType::Vec(inner) => {
            let mut r = owned("[");
            r.append(field_type_to_flatbuffers(inner).as_str());
            r.append("]");
            r
        },
        FieldType::Tuple(ts) => {
            proof {
                crate::types::field_type::lemma_tuple_view(*ts);
            }
            let mut r = owned("Tuple");
            r.append(usize_text(ts.len()).as_str());
            r
        },
        FieldType::Struct(fs) => {
            proof {
                assert(decreases_to!(*field_type => (*field_type)->Struct_0));
                lemma_struct_view(*fs);
            }
            let parts = fbs_field_texts(fs);
            let mut r = owned("{ ");
            r.append(join_strings(&parts, ", ").as_str());
            r.append(" }");
            r
        },
        FieldType::HashMap(k, v) | FieldType::BTreeMap(k, v) => {
            let mut r = owned("[");
            r.append(capitalize_fbs_type(field_type_to_flatbuffers(k).as_str()).as_str());
            r.append(capitalize_fbs_type(field_type_to_flatbuffers(v).as_str()).as_str());
            r.append("Entry]");
            r
        },
        FieldType::RecordLink(inner) => {
            proof {
                crate::types::field_type::lemma_view_other(**inner);
            }
            match &**inner {
                FieldType::Other(name) => pascal_of(name.as_str()),
                _ => field_type_to_flatbuffers(inner),
            }
        },
        FieldType::Other(name) => pascal_of(name.as_str()),
    }
}

/// The snake_case form of `s`.
pub open spec fn snake(s: Seq<char>) -> Seq<char> {
    case_converted(s, TextCase::Snake)
}

/// The table line of a field: its snake_case name, its FlatBuffers type
/// and, when it has validator texts, a `validate` attribute holding them.
pub open spec fn field_line(f: StructFieldV) -> Seq<char> {
    let vs = join(flatbuffers_texts(f.validators), ", "@);
    "    "@ + snake(f.field_name) + ": "@ + fbs_type(f.field_type) + (if vs.len() == 0 {
        Seq::empty()
    } else {
        " (validate: \""@ + vs + "\")"@
    }) + ";\n"@
}

/// The lines of the fields `fs`.
pub open spec fn field_lines(fs: Seq<StructFieldV>) -> Seq<char>
    decreases fs.len(),
{
    if fs.len() == 0 {
        Seq::empty()
    } else {
        field_lines(fs.drop_last()) + field_line(fs.last())
    }
}

/// The FlatBuffers table of a struct.
pub open spec fn table_text(c: StructConfigV) -> Seq<char> {
    "table "@ + pascal(c.struct_name) + " {\n"@ + field_lines(c.fields) + "}\n"@
}

/// Whether some variant carries data.
pub open spec fn has_data(vs: Seq<VariantV>) -> bool {
    exists|i: int| 0 <= i < vs.len() && (#[trigger] vs[i]).data is Some
}

/// The union line of a variant that carries data; none for one without.
pub open spec fn union_line(v: VariantV) -> Seq<char> {
    match v.data {
        Some(VariantDataV::InlineStruct(s)) => "    "@ + pascal(s.struct_name) + ",\n"@,
        Some(VariantDataV::DataStructureRef(t)) => "    "@ + fbs_type(t) + ",\n"@,
        None => Seq::empty(),
    }
}

/// The union lines of the variants `vs`.
pub open spec fn union_lines(vs: Seq<VariantV>) -> Seq<char>
    decreases vs.len(),
{
    if vs.len() == 0 {
        Seq::empty()
    } else {
        union_lines(vs.drop_last()) + union_line(vs.last())
    }
}

/// The enum line of variant `i` of `n`: its name and number, with a comma
/// unless it is the last.
pub open spec fn enum_line(name: Seq<char>, i: nat, n: nat) -> Seq<char> {
    "    "@ + name + " = "@ + decimal(i) + (if i + 1 < n { ","@ } else { Seq::empty() }) + "\n"@
}

/// The enum lines of the first `k` of the `n` variants `vs`.
pub open spec fn enum_lines(vs: Seq<VariantV>, k: nat, n: nat) -> Seq<char>
    decreases k,
{
    if k == 0 {
        Seq::empty()
    } else {
        enum_lines(vs, (k - 1) as nat, n) + enum_line(vs[k - 1].name, (k - 1) as nat, n)
    }
}

/// The FlatBuffers definition of a tagged union: a union of the types its
/// variants carry when some carries data, else an enum of its variant
/// names numbered from zero.
pub open spec fn enum_text(e: TaggedUnionV) -> Seq<char> {
    let name = pascal(e.enum_name);
    if has_data(e.variants) {
        "union "@ + name + " {\n"@ + union_lines(e.variants) + "}\n"@
    } else {
        "enum "@ + name + " : byte {\n"@ + enum_lines(e.variants, e.variants.len(), e.variants.len())
            + "}\n"@
    }
}

/// Generates the FlatBuffers table of a struct.
#[verifier::rlimit(30)]
pub fn generate_table(struct_config: &StructConfig) -> (r: String)
    ensures
        r@ == table_text(struct_config@),
{
    let mut out = owned("table ");
    out.append(pascal_of(struct_config.struct_name.as_str()).as_str());
    out.append(" {\n");
    let ghost head = out@;
    let ghost fs = struct_config@.fields;
    let mut i: usize = 0;
    assert(fs.take(0) =~= Seq::<StructFieldV>::empty());
    assert(head + field_lines(fs.take(0)) =~= head);
    while i < struct_config.fields.len()
        invariant
            i <= struct_config.fields@.len(),
            fs == struct_config@.fields,
            out@ == head + field_lines(fs.take(i as int)),
        decreases struct_config.fields.len() - i,
    {
        let field = &struct_config.fields[i];
        out.append("    ");
        out.append(to_case(field.field_name.as_str(), TextCase::Snake).as_str());
        out.append(": ");
        out.append(field_type_to_flatbuffers(&field.field_type).as_str());
        let vs = collect_validators_for_field(field.validators.as_slice());
        if !vs.as_str().is_empty() {
            out.append(" (validate: \"");
            out.append(vs.as_str());
            out.append("\")");
        }
        out.append(";\n");
        proof {
            assert(fs[i as int] == field@);
            assert(fs.take(i + 1).drop_last() == fs.take(i as int));
            assert(fs.take(i + 1).last() == field@);
        }
        i = i + 1;
    }
    assert(fs.take(fs.len() as int) == fs);
    out.append("}\n");
    out
}

/// Generates the FlatBuffers enum or union of a tagged union.
pub fn generate_enum(enum_def: &TaggedUnion) -> (r: String)
    ensures
        r@ == enum_text(enum_def@),
{
    let name = pascal_of(enum_def.enum_name.as_str());
    let ghost vs = enum_def@.variants;
    let n = enum_def.variants.len();
    let mut data = false;
    let mut j: usize = 0;
    while j < n
        invariant
            j <= n,
            n == enum_def.variants@.len(),
            vs == enum_def@.variants,
            data == exists|k: int| 0 <= k < j && (#[trigger] vs[k]).data is Some,
        decreases n - j,
    {
        assert(vs[j as int] == enum_def.variants@[j as int]@);
        if enum_def.variants[j].data.is_some() {
            data = true;
        }
        j = j + 1;
    }
    if data {
        let mut out = owned("union ");
        out.append(name.as_str());
        out.append(" {\n");
        let ghost head = out@;
        let mut i: usize = 0;
        assert(head + union_lines(vs.take(0)) =~= head);
        while i < n
            invariant
                i <= n,
                n == enum_def.variants@.len(),
                vs == enum_def@.variants,
                out@ == head + union_lines(vs.take(i as int)),
            decreases n - i,
        {
            let v = &enum_def.variants[i];
            match &v.data {
                Some(VariantData::InlineStruct(sc)) => {
                    out.append("    ");
                    out.append(pascal_of(sc.struct_name.as_str()).as_str());
                    out.append(",\n");
                },
                Some(VariantData::DataStructureRef(ft)) => {
                    out.append("    ");
                    out.append(field_type_to_flatbuffers(ft).as_str());
                    out.append(",\n");
                },
                None => {},
            }
            proof {
                assert(vs[i as int] == v@);
                assert(vs.take(i + 1).drop_last() == vs.take(i as int));
                assert(vs.take(i + 1).last() == v@);
                if v.data is None {
                    assert(out@ =~= head + union_lines(vs.take(i + 1)));
                }
            }
            i = i + 1;
        }
        assert(vs.take(n as int) == vs);
        out.append("}\n");
        out
    } else {
        let mut out = owned("enum ");
        out.append(name.as_str());
        out.append(" : byte {\n");
        let ghost head = out@;
        let mut i: usize = 0;
        assert(head + enum_lines(vs, 0, n as nat) =~= head);
        while i < n
            invariant
                i <= n,
                n == enum_def.variants@.len(),
                vs == enum_def@.variants,
                out@ == head + enum_lines(vs, i as nat, n as nat),
            decreases n - i,
        {
            out.append("    ");
            out.append(enum_def.variants[i].name.as_str());
            out.append(" = ");
            out.append(usize_text(i).as_str());
            if i + 1 < n {
                out.append(",");
            }
            out.append("\n");
            proof {
                assert(vs[i as int].name == enum_def.variants@[i as int].name@);
            }
            i = i + 1;
        }
        out.append("}\n");
        out
    }
}

/// The definitions of the tagged unions `es` whose PascalCase names are
/// not in `seen` and were not met before in `es`, each followed by a blank
/// line.
pub open spec fn enum_texts(es: Seq<TaggedUnionV>, seen: Set<Seq<char>>) -> Seq<char>
    decreases es.len(),
{
    if es.len() == 0 {
        Seq::empty()
    } else {
        let n = pascal(es[0].enum_name);
        if seen.contains(n) {
            enum_texts(es.drop_first(), seen)
        } else {
            enum_text(es[0]) + "\n"@ + enum_texts(es.drop_first(), seen.insert(n))
        }
    }
}

/// The tables of the structs `cs` whose PascalCase names are not in
/// `seen` and were not met before in `cs`, each followed by a blank line.
pub open spec fn table_texts(cs: Seq<StructConfigV>, seen: Set<Seq<char>>) -> Seq<char>
    decreases cs.len(),
{
    if cs.len() == 0 {
        Seq::empty()
    } else {
        let n = pascal(cs[0].struct_name);
        if seen.contains(n) {
            table_texts(cs.drop_first(), seen)
        } else {
            table_text(cs[0]) + "\n"@ + table_texts(cs.drop_first(), seen.insert(n))
        }
    }
}

/// The values of the entries of a table.
pub open spec fn entry_values<V>(s: Seq<(Seq<char>, V)>) -> Seq<V> {
    s.map_values(|e: (Seq<char>, V)| e.1)
}

/// The FlatBuffers schema of the structs and tagged unions: the namespace
/// line, if any, then every tagged union, then every struct, in the order
/// of their keys, each PascalCase name once.
pub open spec fn schema_text(
    structs: Seq<StructConfigV>,
    enums: Seq<TaggedUnionV>,
    namespace: Option<Seq<char>>,
) -> Seq<char> {
    (match namespace {
        Some(ns) => "namespace "@ + ns + ";\n\n"@,
        None => Seq::empty(),
    }) + enum_texts(enums, Set::empty()) + table_texts(structs, Set::empty())
}

/// The set of names a table holds.
pub open spec fn name_set(m: Seq<(Seq<char>, bool)>) -> Set<Seq<char>> {
    Set::new(|k: Seq<char>| crate::named_map::value_of(m, k) is Some)
}

proof fn lemma_name_set_put(m: Seq<(Seq<char>, bool)>, k: Seq<char>)
    requires
        crate::named_map::sorted_names(m),
    ensures
        name_set(put(m, k, true)) == name_set(m).insert(k),
        crate::named_map::sorted_names(put(m, k, true)),
{
    crate::named_map::lemma_put(m, k, true);
    assert(name_set(put(m, k, true)) =~= name_set(m).insert(k));
}

/// Generates a FlatBuffers schema from structs and tagged unions: the
/// namespace, if given, then the tagged unions, then the structs, each
/// PascalCase name once (the first in key order kept).
pub fn generate_flatbuffers_schema_string(
    structs: &NamedMap<StructConfig>,
    enums: &NamedMap<TaggedUnion>,
    namespace: Option<&str>,
) -> (r: String)
    ensures
        r@ == schema_text(
            entry_values(crate::typesync::flatbuffers_parser::converter::struct_views(structs@)),
            entry_values(crate::typesync::flatbuffers_parser::converter::enum_views(enums@)),
            match namespace {
                Some(ns) => Some(ns@),
                None => None,
            },
        ),
{
    let mut output = String::new();
    match namespace {
        Some(ns) => {
            output.append("namespace ");
            output.append(ns);
            output.append(";\n\n");
        },
        None => {},
    }
    let ghost start = output@;
    let es = enums.entries();
    let ghost ev = entry_values(crate::typesync::flatbuffers_parser::converter::enum_views(enums@));
    let mut seen: NamedMap<bool> = NamedMap::new();
    let mut i: usize = 0;
    proof {
        assert(name_set(seen@) =~= Set::<Seq<char>>::empty());
        assert(ev.skip(0) == ev);
    }
    while i < es.len()
        invariant
            i <= es@.len(),
            crate::named_map::entries_view(es@) == enums@,
            ev == entry_values(crate::typesync::flatbuffers_parser::converter::enum_views(enums@)),
            crate::named_map::sorted_names(seen@),
            start + enum_texts(ev, Set::empty()) == output@ + enum_texts(ev.skip(i as int), name_set(seen@)),
        decreases es.len() - i,
    {
        let e = &es[i].1;
        let name = pascal_of(e.enum_name.as_str());
        let ghost rest = ev.skip(i as int);
        proof {
            assert(rest[0] == e@);
            assert(rest.drop_first() == ev.skip(i + 1));
            crate::named_map::lemma_value_of_map(seen@, name@, |b: bool| b);
        }
        if !seen.contains_key(name.as_str()) {
            output.append(generate_enum(e).as_str());
            output.append("\n");
            proof {
                lemma_name_set_put(seen@, name@);
            }
            seen.insert(name, true);
        }
        i = i + 1;
    }
    proof {
        assert(ev.skip(es@.len() as int) =~= Seq::<TaggedUnionV>::empty());
    }
    let ghost middle = output@;
    let cs = structs.entries();
    let ghost cv = entry_values(crate::typesync::flatbuffers_parser::converter::struct_views(structs@));
    let mut seen_structs: NamedMap<bool> = NamedMap::new();
    let mut i: usize = 0;
    proof {
        assert(name_set(seen_structs@) =~= Set::<Seq<char>>::empty());
        assert(cv.skip(0) == cv);
    }
    while i < cs.len()
        invariant
            i <= cs@.len(),
            crate::named_map::entries_view(cs@) == structs@,
            cv == entry_values(crate::typesync::flatbuffers_parser::converter::struct_views(structs@)),
            crate::named_map::sorted_names(seen_structs@),
            middle + table_texts(cv, Set::empty()) == output@ + table_texts(
                cv.skip(i as int),
                name_set(seen_structs@),
            ),
        decreases cs.len() - i,
    {
        let c = &cs[i].1;
        let name = pascal_of(c.struct_name.as_str());
        let ghost rest = cv.skip(i as int);
        proof {
            assert(rest[0] == c@);
            assert(rest.drop_first() == cv.skip(i + 1));
        }
        if !seen_structs.contains_key(name.as_str()) {
            output.append(generate_table(c).as_str());
            output.append("\n");
            proof {
                lemma_name_set_put(seen_structs@, name@);
            }
            seen_structs.insert(name, true);
        }
        i = i + 1;
    }
    proof {
        assert(cv.skip(cs@.len() as int) =~= Seq::<StructConfigV>::empty());
    }
    output
}

/// Every string validator has a FlatBuffers text except an embedded string
/// schema; the transformations keep theirs.
pub proof fn lemma_string_validator_texts(v: StringValidatorV)
    ensures
        string_validator_to_flatbuffers_text(v) is None <==> v is StringEmbedded,
        string_validator_to_flatbuffers_text(StringValidatorV::Lower) == Some("lower"@),
        string_validator_to_flatbuffers_text(StringValidatorV::Upper) == Some("upper"@),
        string_validator_to_flatbuffers_text(StringValidatorV::Trim) == Some("trim"@),
        string_validator_to_flatbuffers_text(StringValidatorV::Capitalize) == Some("capitalize"@),
        string_validator_to_flatbuffers_text(StringValidatorV::Email) == Some("email"@),
        string_validator_to_flatbuffers_text(StringValidatorV::Uuid) == Some("uuid"@),
{
}


/// Whether a variant carries data.
pub open spec fn carries_data(v: VariantV) -> bool {
    v.data is Some
}

/// The union lines of variants that carry nothing are empty: the lines of
/// `vs` are those of its data-carrying variants alone.
proof fn lemma_union_lines_of_data(vs: Seq<VariantV>)
    ensures
        union_lines(vs) == union_lines(vs.filter(|v: VariantV| carries_data(v))),
    decreases vs.len(),
{
    reveal(Seq::filter);
    let p = |v: VariantV| carries_data(v);
    if vs.len() > 0 {
        lemma_union_lines_of_data(vs.drop_last());
        let f = vs.drop_last().filter(p);
        if carries_data(vs.last()) {
            assert(vs.filter(p) == f.push(vs.last()));
            assert(f.push(vs.last()).drop_last() == f);
        } else {
            assert(vs.filter(p) == f);
            assert(union_lines(vs) =~= union_lines(vs.drop_last()));
        }
    } else {
        assert(vs.filter(p) =~= vs);
    }
}

/// A union has one member per variant that carries data and none for a
/// variant that carries nothing: a variant without data adds no line to
/// the members, and one with data adds exactly one line, `    <type>,`.
/// So the FlatBuffers definition of a tagged union with some data-carrying
/// variant is that of the same union with its data-less variants dropped.
pub proof fn lemma_union_members(e: TaggedUnionV, vs: Seq<VariantV>, v: VariantV)
    ensures
        has_data(e.variants) ==> enum_text(e) == enum_text(TaggedUnionV {
            enum_name: e.enum_name,
            variants: e.variants.filter(|v: VariantV| carries_data(v)),
        }),
        v.data is None ==> union_lines(vs.push(v)) == union_lines(vs),
        v.data is Some ==> exists|member: Seq<char>| union_lines(vs.push(v)) == union_lines(vs) + "    "@ + member + ",\n"@,
{
    let p = |v: VariantV| carries_data(v);
    assert(vs.push(v).drop_last() == vs);
    if v.data is None {
        assert(union_lines(vs.push(v)) =~= union_lines(vs));
    } else {
        match v.data {
            Some(VariantDataV::InlineStruct(c)) => {
                assert(union_lines(vs.push(v)) == union_lines(vs) + "    "@ + pascal(c.struct_name) + ",\n"@);
            },
            Some(VariantDataV::DataStructureRef(t)) => {
                assert(union_lines(vs.push(v)) == union_lines(vs) + "    "@ + fbs_type(t) + ",\n"@);
            },
            None => {},
        }
    }
    if has_data(e.variants) {
        lemma_union_lines_of_data(e.variants);
        let i = choose|i: int| 0 <= i < e.variants.len() && (#[trigger] e.variants[i]).data is Some;
        e.variants.lemma_filter_contains(p, i);
        let f = e.variants.filter(p);
        assert(f.contains(e.variants[i]));
        let j = choose|j: int| 0 <= j < f.len() && f[j] == e.variants[i];
        assert(f[j].data is Some);
        assert(has_data(f));
    }
}

} // verus!
