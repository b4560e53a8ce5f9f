//! Macroforge TypeScript generation: validators written as JSDoc
//! `@serde({ validate: [...] })` entries.

use vstd::prelude::*;
use crate::text::{
    call, call2, call2_text, call_text, decimal, escape_backslash_quote, escape_quotes, join,
    join_strings, owned, usize_text,
};
use crate::case::{TextCase, case_converted, to_case};
use crate::named_map::{NamedMap, entries_view, lemma_put, put, sorted_names};
use crate::text::{has_text, texts};
use crate::types::field_type::{FieldType, FieldTypeV, lemma_struct_view, lemma_tuple_view, named_views_of, views_of};
use crate::types::{StructConfig, StructField, TaggedUnion, Variant, VariantData, VariantDataV, VariantV};
use crate::types::foreign_type_registry::{ForeignTypeRegistry, found_config};
use crate::typesync::flatbuffers::validator_flatbuffers_text;
use crate::validator::{
    ArrayValidator, ArrayValidatorV, BigDecimalValidator, BigDecimalValidatorV, BigIntValidator,
    BigIntValidatorV, DateValidator, DateValidatorV, DurationValidator, DurationValidatorV,
    NumberValidator, NumberValidatorV, StringValidator, StringValidatorV, Validator, ValidatorV,
    validators_view,
};

verus! {

/// `name("arg")` with `arg` escaped for a JSDoc string.
pub open spec fn jsdoc_quoted_call(name: Seq<char>, arg: Seq<char>) -> Seq<char> {
    name + "(\""@ + escape_quotes(arg) + "\")"@
}

/// `name("a", "b")` with `a` and `b` escaped for a JSDoc string.
pub open spec fn jsdoc_quoted_call2(name: Seq<char>, a: Seq<char>, b: Seq<char>) -> Seq<char> {
    name + "(\""@ + escape_quotes(a) + "\", \""@ + escape_quotes(b) + "\")"@
}

/// `s` with `\\` and `"` escaped for a JSDoc string.
pub fn escape_for_jsdoc(s: &str) -> (r: String)
    ensures
        r@ == escape_quotes(s@),
{
    escape_backslash_quote(s)
}

fn jsdoc_quoted(name: &str, arg: &str) -> (r: String)
    ensures
        r@ == jsdoc_quoted_call(name@, arg@),
{
    let mut r = String::new();
    r.append(name);
    r.append("(\"");
    r.append(escape_for_jsdoc(arg).as_str());
    r.append("\")");
    r
}

fn jsdoc_quoted2(name: &str, a: &str, b: &str) -> (r: String)
    ensures
        r@ == jsdoc_quoted_call2(name@, a@, b@),
{
    let mut r = String::new();
    r.append(name);
    r.append("(\"");
    r.append(escape_for_jsdoc(a).as_str());
    r.append("\", \"");
    r.append(escape_for_jsdoc(b).as_str());
    r.append("\")");
    r
}

/// The text of a string validator.
pub open spec fn string_validator_to_macroforge_text(v: StringValidatorV) -> Option<Seq<char>> {
    match v {
        StringValidatorV::MinLength(a) => Some(call_text("minLength"@, decimal(a as nat))),
        StringValidatorV::MaxLength(a) => Some(call_text("maxLength"@, decimal(a as nat))),
        StringValidatorV::Length(a) => Some(call_text("length"@, a)),
        StringValidatorV::NonEmpty => Some("nonEmpty"@),
        StringValidatorV::Email => Some("email"@),
        StringValidatorV::Url => Some("url"@),
        StringValidatorV::Uuid => Some("uuid"@),
        StringValidatorV::UuidV1 => Some("uuid"@),
        StringValidatorV::UuidV2 => Some("uuid"@),
        StringValidatorV::UuidV3 => Some("uuid"@),
        StringValidatorV::UuidV4 => Some("uuid"@),
        StringValidatorV::UuidV5 => Some("uuid"@),
        StringValidatorV::UuidV6 => Some("uuid"@),
        StringValidatorV::UuidV7 => Some("uuid"@),
        StringValidatorV::UuidV8 => Some("uuid"@),
        StringValidatorV::Ip => Some("ip"@),
        StringValidatorV::IpV4 => Some("ipv4"@),
        StringValidatorV::IpV6 => Some("ipv6"@),
        StringValidatorV::CreditCard => Some("creditCard"@),
        StringValidatorV::Semver => Some("semver"@),
        StringValidatorV::Json => Some("json"@),
        StringValidatorV::Base64 => Some("base64"@),
        StringValidatorV::Base64Url => Some("base64Url"@),
        StringValidatorV::Alpha => Some("alpha"@),
        StringValidatorV::Alphanumeric => Some("alphanumeric"@),
        StringValidatorV::Digits => Some("digits"@),
        StringValidatorV::Hex => Some("hex"@),
        StringValidatorV::Integer => Some("integer"@),
        StringValidatorV::Numeric => Some("numeric"@),
        StringValidatorV::Lowercased => Some("lowercase"@),
        StringValidatorV::LowerPreformatted => Some("lowercase"@),
        StringValidatorV::Uppercased => Some("uppercase"@),
        StringValidatorV::UpperPreformatted => Some("uppercase"@),
        StringValidatorV::Trimmed => Some("trimmed"@),
        StringValidatorV::TrimPreformatted => Some("trimmed"@),
        StringValidatorV::Capitalized => Some("capitalized"@),
        StringValidatorV::CapitalizePreformatted => Some("capitalized"@),
        StringValidatorV::Uncapitalized => Some("uncapitalized"@),
        StringValidatorV::StartsWith(a) => Some(jsdoc_quoted_call("startsWith"@, a)),
        StringValidatorV::EndsWith(a) => Some(jsdoc_quoted_call("endsWith"@, a)),
        StringValidatorV::Includes(a) => Some(jsdoc_quoted_call("includes"@, a)),
        StringValidatorV::RegexLiteral(a) => Some(call_text("pattern"@, escape_quotes(a))),
        StringValidatorV::Literal(a) => Some(jsdoc_quoted_call("literal"@, a)),
        StringValidatorV::Date => Some("date"@),
        StringValidatorV::DateIso => Some("dateIso"@),
        StringValidatorV::DateEpoch => Some("dateEpoch"@),
        StringValidatorV::String => None,
        StringValidatorV::Capitalize => None,
        StringValidatorV::Lower => None,
        StringValidatorV::Upper => None,
        StringValidatorV::Trim => None,
        StringValidatorV::Normalize => None,
        StringValidatorV::NormalizeNFC => None,
        StringValidatorV::NormalizeNFD => None,
        StringValidatorV::NormalizeNFKC => None,
        StringValidatorV::NormalizeNFKD => None,
        StringValidatorV::NormalizeNFCPreformatted => None,
        StringValidatorV::NormalizeNFDPreformatted => None,
        StringValidatorV::NormalizeNFKCPreformatted => None,
        StringValidatorV::NormalizeNFKDPreformatted => None,
        StringValidatorV::DateParse => None,
        StringValidatorV::DateEpochParse => None,
        StringValidatorV::DateIsoParse => None,
        StringValidatorV::IntegerParse => None,
        StringValidatorV::NumericParse => None,
        StringValidatorV::JsonParse => None,
        StringValidatorV::UrlParse => None,
        StringValidatorV::Regex => None,
        StringValidatorV::StringEmbedded(a) => None,
    }
}

/// The text of a number validator.
pub open spec fn number_validator_to_macroforge_text(v: NumberValidatorV) -> Option<Seq<char>> {
    match v {
        NumberValidatorV::Int => Some("int"@),
        NumberValidatorV::Finite => Some("finite"@),
        NumberValidatorV::NonNaN => Some("nonNaN"@),
        NumberValidatorV::Positive => Some("positive"@),
        NumberValidatorV::Negative => Some("negative"@),
        NumberValidatorV::NonPositive => Some("nonPositive"@),
        NumberValidatorV::NonNegative => Some("nonNegative"@),
        NumberValidatorV::Uint8 => Some("uint8"@),
        NumberValidatorV::GreaterThan(a) => Some(call_text("greaterThan"@, a)),
        NumberValidatorV::GreaterThanOrEqualTo(a) => Some(call_text("greaterThanOrEqualTo"@, a)),
        NumberValidatorV::LessThan(a) => Some(call_text("lessThan"@, a)),
        NumberValidatorV::LessThanOrEqualTo(a) => Some(call_text("lessThanOrEqualTo"@, a)),
        NumberValidatorV::MultipleOf(a) => Some(call_text("multipleOf"@, a)),
        NumberValidatorV::Between(a, b) => Some(call2_text("between"@, a, b)),
    }
}

/// The text of an array validator.
pub open spec fn array_validator_to_macroforge_text(v: ArrayValidatorV) -> Option<Seq<char>> {
    match v {
        ArrayValidatorV::MinItems(a) => Some(call_text("minItems"@, decimal(a as nat))),
        ArrayValidatorV::MaxItems(a) => Some(call_text("maxItems"@, decimal(a as nat))),
        ArrayValidatorV::ItemsCount(a) => Some(call_text("itemsCount"@, decimal(a as nat))),
    }
}

/// The text of a date validator.
pub open spec fn date_validator_to_macroforge_text(v: DateValidatorV) -> Option<Seq<char>> {
    match v {
        DateValidatorV::ValidDate => Some("validDate"@),
        DateValidatorV::GreaterThanDate(a) => Some(jsdoc_quoted_call("greaterThanDate"@, a)),
        DateValidatorV::GreaterThanOrEqualToDate(a) => Some(jsdoc_quoted_call("greaterThanOrEqualToDate"@, a)),
        DateValidatorV::LessThanDate(a) => Some(jsdoc_quoted_call("lessThanDate"@, a)),
        DateValidatorV::LessThanOrEqualToDate(a) => Some(jsdoc_quoted_call("lessThanOrEqualToDate"@, a)),
        DateValidatorV::BetweenDate(a, b) => Some(jsdoc_quoted_call2("betweenDate"@, a, b)),
    }
}

/// The text of a big-integer validator.
pub open spec fn bigint_validator_to_macroforge_text(v: BigIntValidatorV) -> Option<Seq<char>> {
    match v {
        BigIntValidatorV::PositiveBigInt => Some("positiveBigInt"@),
        BigIntValidatorV::NegativeBigInt => Some("negativeBigInt"@),
        BigIntValidatorV::NonPositiveBigInt => Some("nonPositiveBigInt"@),
        BigIntValidatorV::NonNegativeBigInt => Some("nonNegativeBigInt"@),
        BigIntValidatorV::GreaterThanBigInt(a) => Some(jsdoc_quoted_call("greaterThanBigInt"@, a)),
        BigIntValidatorV::GreaterThanOrEqualToBigInt(a) => Some(jsdoc_quoted_call("greaterThanOrEqualToBigInt"@, a)),
        BigIntValidatorV::LessThanBigInt(a) => Some(jsdoc_quoted_call("lessThanBigInt"@, a)),
        BigIntValidatorV::LessThanOrEqualToBigInt(a) => Some(jsdoc_quoted_call("lessThanOrEqualToBigInt"@, a)),
        BigIntValidatorV::BetweenBigInt(a, b) => Some(jsdoc_quoted_call2("betweenBigInt"@, a, b)),
    }
}

/// The text of a big-decimal validator.
pub open spec fn bigdecimal_validator_to_macroforge_text(v: BigDecimalValidatorV) -> Option<Seq<char>> {
    match v {
        BigDecimalValidatorV::PositiveBigDecimal => Some("positiveBigDecimal"@),
        BigDecimalValidatorV::NegativeBigDecimal => Some("negativeBigDecimal"@),
        BigDecimalValidatorV::NonPositiveBigDecimal => Some("nonPositiveBigDecimal"@),
        BigDecimalValidatorV::NonNegativeBigDecimal => Some("nonNegativeBigDecimal"@),
        BigDecimalValidatorV::GreaterThanBigDecimal(a) => Some(jsdoc_quoted_call("greaterThanBigDecimal"@, a)),
        BigDecimalValidatorV::GreaterThanOrEqualToBigDecimal(a) => Some(jsdoc_quoted_call("greaterThanOrEqualToBigDecimal"@, a)),
        BigDecimalValidatorV::LessThanBigDecimal(a) => Some(jsdoc_quoted_call("lessThanBigDecimal"@, a)),
        BigDecimalValidatorV::LessThanOrEqualToBigDecimal(a) => Some(jsdoc_quoted_call("lessThanOrEqualToBigDecimal"@, a)),
        BigDecimalValidatorV::BetweenBigDecimal(a, b) => Some(jsdoc_quoted_call2("betweenBigDecimal"@, a, b)),
    }
}

/// The text of a duration validator.
pub open spec fn duration_validator_to_macroforge_text(v: DurationValidatorV) -> Option<Seq<char>> {
    match v {
        DurationValidatorV::GreaterThanDuration(a) => Some(jsdoc_quoted_call("greaterThanDuration"@, a)),
        DurationValidatorV::GreaterThanOrEqualToDuration(a) => Some(jsdoc_quoted_call("greaterThanOrEqualToDuration"@, a)),
        DurationValidatorV::LessThanDuration(a) => Some(jsdoc_quoted_call("lessThanDuration"@, a)),
        DurationValidatorV::LessThanOrEqualToDuration(a) => Some(jsdoc_quoted_call("lessThanOrEqualToDuration"@, a)),
        DurationValidatorV::BetweenDuration(a, b) => Some(jsdoc_quoted_call2("betweenDuration"@, a, b)),
    }
}


fn string_validator_to_macroforge(v: &StringValidator) -> (r: Option<String>)
    ensures
        match r {
            Some(s) => string_validator_to_macroforge_text(v@) == Some(s@),
            None => string_validator_to_macroforge_text(v@) is None,
        },
{
    match v {
        StringValidator::MinLength(a) => Some(call("minLength", usize_text(*a).as_str())),
        StringValidator::MaxLength(a) => Some(call("maxLength", usize_text(*a).as_str())),
        StringValidator::Length(a) => Some(call("length", a.as_str())),
        StringValidator::NonEmpty => Some(owned("nonEmpty")),
        StringValidator::Email => Some(owned("email")),
        StringValidator::Url => Some(owned("url")),
        StringValidator::Uuid => Some(owned("uuid")),
        StringValidator::UuidV1 => Some(owned("uuid")),
        StringValidator::UuidV2 => Some(owned("uuid")),
        StringValidator::UuidV3 => Some(owned("uuid")),
        StringValidator::UuidV4 => Some(owned("uuid")),
        StringValidator::UuidV5 => Some(owned("uuid")),
        StringValidator::UuidV6 => Some(owned("uuid")),
        StringValidator::UuidV7 => Some(owned("uuid")),
        StringValidator::UuidV8 => Some(owned("uuid")),
        StringValidator::Ip => Some(owned("ip")),
        StringValidator::IpV4 => Some(owned("ipv4")),
        StringValidator::IpV6 => Some(owned("ipv6")),
        StringValidator::CreditCard => Some(owned("creditCard")),
        StringValidator::Semver => Some(owned("semver")),
        StringValidator::Json => Some(owned("json")),
        StringValidator::Base64 => Some(owned("base64")),
        StringValidator::Base64Url => Some(owned("base64Url")),
        StringValidator::Alpha => Some(owned("alpha")),
        StringValidator::Alphanumeric => Some(owned("alphanumeric")),
        StringValidator::Digits => Some(owned("digits")),
        StringValidator::Hex => Some(owned("hex")),
        StringValidator::Integer => Some(owned("integer")),
        StringValidator::Numeric => Some(owned("numeric")),
        StringValidator::Lowercased => Some(owned("lowercase")),
        StringValidator::LowerPreformatted => Some(owned("lowercase")),
        StringValidator::Uppercased => Some(owned("uppercase")),
        StringValidator::UpperPreformatted => Some(owned("uppercase")),
        StringValidator::Trimmed => Some(owned("trimmed")),
        StringValidator::TrimPreformatted => Some(owned("trimmed")),
        StringValidator::Capitalized => Some(owned("capitalized")),
        StringValidator::CapitalizePreformatted => Some(owned("capitalized")),
        StringValidator::Uncapitalized => Some(owned("uncapitalized")),
        StringValidator::StartsWith(a) => Some(jsdoc_quoted("startsWith", a.as_str())),
        StringValidator::EndsWith(a) => Some(jsdoc_quoted("endsWith", a.as_str())),
        StringValidator::Includes(a) => Some(jsdoc_quoted("includes", a.as_str())),
        StringValidator::RegexLiteral(a) => Some(call("pattern", escape_for_jsdoc(a.as_str()).as_str())),
        StringValidator::Literal(a) => Some(jsdoc_quoted("literal", a.as_str())),
        StringValidator::Date => Some(owned("date")),
        StringValidator::DateIso => Some(owned("dateIso")),
        StringValidator::DateEpoch => Some(owned("dateEpoch")),
        StringValidator::String => None,
        StringValidator::Capitalize => None,
        StringValidator::Lower => None,
        StringValidator::Upper => None,
        StringValidator::Trim => None,
        StringValidator::Normalize => None,
        StringValidator::NormalizeNFC => None,
        StringValidator::NormalizeNFD => None,
        StringValidator::NormalizeNFKC => None,
        StringValidator::NormalizeNFKD => None,
        StringValidator::NormalizeNFCPreformatted => None,
        StringValidator::NormalizeNFDPreformatted => None,
        StringValidator::NormalizeNFKCPreformatted => None,
        StringValidator::NormalizeNFKDPreformatted => None,
        StringValidator::DateParse => None,
        StringValidator::DateEpochParse => None,
        StringValidator::DateIsoParse => None,
        StringValidator::IntegerParse => None,
        StringValidator::NumericParse => None,
        StringValidator::JsonParse => None,
        StringValidator::UrlParse => None,
        StringValidator::Regex => None,
        StringValidator::StringEmbedded(a) => None,
    }
}

fn number_validator_to_macroforge(v: &NumberValidator) -> (r: Option<String>)
    ensures
        match r {
            Some(s) => number_validator_to_macroforge_text(v@) == Some(s@),
            None => number_validator_to_macroforge_text(v@) is None,
        },
{
    match v {
        NumberValidator::Int => Some(owned("int")),
        NumberValidator::Finite => Some(owned("finite")),
        NumberValidator::NonNaN => Some(owned("nonNaN")),
        NumberValidator::Positive => Some(owned("positive")),
        NumberValidator::Negative => Some(owned("negative")),
        NumberValidator::NonPositive => Some(owned("nonPositive")),
        NumberValidator::NonNegative => Some(owned("nonNegative")),
        NumberValidator::Uint8 => Some(owned("uint8")),
        NumberValidator::GreaterThan(a) => Some(call("greaterThan", a.text())),
        NumberValidator::GreaterThanOrEqualTo(a) => Some(call("greaterThanOrEqualTo", a.text())),
        NumberValidator::LessThan(a) => Some(call("lessThan", a.text())),
        NumberValidator::LessThanOrEqualTo(a) => Some(call("lessThanOrEqualTo", a.text())),
        NumberValidator::MultipleOf(a) => Some(call("multipleOf", a.text())),
        NumberValidator::Between(a, b) => Some(call2("between", a.text(), b.text())),
    }
}

fn array_validator_to_macroforge(v: &ArrayValidator) -> (r: Option<String>)
    ensures
        match r {
            Some(s) => array_validator_to_macroforge_text(v@) == Some(s@),
            None => array_validator_to_macroforge_text(v@) is None,
        },
{
    match v {
        ArrayValidator::MinItems(a) => Some(call("minItems", usize_text(*a).as_str())),
        ArrayValidator::MaxItems(a) => Some(call("maxItems", usize_text(*a).as_str())),
        ArrayValidator::ItemsCount(a) => Some(call("itemsCount", usize_text(*a).as_str())),
    }
}

fn date_validator_to_macroforge(v: &DateValidator) -> (r: Option<String>)
    ensures
        match r {
            Some(s) => date_validator_to_macroforge_text(v@) == Some(s@),
            None => date_validator_to_macroforge_text(v@) is None,
        },
{
    match v {
        DateValidator::ValidDate => Some(owned("validDate")),
        DateValidator::GreaterThanDate(a) => Some(jsdoc_quoted("greaterThanDate", a.as_str())),
        DateValidator::GreaterThanOrEqualToDate(a) => Some(jsdoc_quoted("greaterThanOrEqualToDate", a.as_str())),
        DateValidator::LessThanDate(a) => Some(jsdoc_quoted("lessThanDate", a.as_str())),
        DateValidator::LessThanOrEqualToDate(a) => Some(jsdoc_quoted("lessThanOrEqualToDate", a.as_str())),
        DateValidator::BetweenDate(a, b) => Some(jsdoc_quoted2("betweenDate", a.as_str(), b.as_str())),
    }
}

fn bigint_validator_to_macroforge(v: &BigIntValidator) -> (r: Option<String>)
    ensures
        match r {
            Some(s) => bigint_validator_to_macroforge_text(v@) == Some(s@),
            None => bigint_validator_to_macroforge_text(v@) is None,
        },
{
    match v {
        BigIntValidator::PositiveBigInt => Some(owned("positiveBigInt")),
        BigIntValidator::NegativeBigInt => Some(owned("negativeBigInt")),
        BigIntValidator::NonPositiveBigInt => Some(owned("nonPositiveBigInt")),
        BigIntValidator::NonNegativeBigInt => Some(owned("nonNegativeBigInt")),
        BigIntValidator::GreaterThanBigInt(a) => Some(jsdoc_quoted("greaterThanBigInt", a.as_str())),
        BigIntValidator::GreaterThanOrEqualToBigInt(a) => Some(jsdoc_quoted("greaterThanOrEqualToBigInt", a.as_str())),
        BigIntValidator::LessThanBigInt(a) => Some(jsdoc_quoted("lessThanBigInt", a.as_str())),
        BigIntValidator::LessThanOrEqualToBigInt(a) => Some(jsdoc_quoted("lessThanOrEqualToBigInt", a.as_str())),
        BigIntValidator::BetweenBigInt(a, b) => Some(jsdoc_quoted2("betweenBigInt", a.as_str(), b.as_str())),
    }
}

fn bigdecimal_validator_to_macroforge(v: &BigDecimalValidator) -> (r: Option<String>)
    ensures
        match r {
            Some(s) => bigdecimal_validator_to_macroforge_text(v@) == Some(s@),
            None => bigdecimal_validator_to_macroforge_text(v@) is None,
        },
{
    match v {
        BigDecimalValidator::PositiveBigDecimal => Some(owned("positiveBigDecimal")),
        BigDecimalValidator::NegativeBigDecimal => Some(owned("negativeBigDecimal")),
        BigDecimalValidator::NonPositiveBigDecimal => Some(owned("nonPositiveBigDecimal")),
        BigDecimalValidator::NonNegativeBigDecimal => Some(owned("nonNegativeBigDecimal")),
        BigDecimalValidator::GreaterThanBigDecimal(a) => Some(jsdoc_quoted("greaterThanBigDecimal", a.as_str())),
        BigDecimalValidator::GreaterThanOrEqualToBigDecimal(a) => Some(jsdoc_quoted("greaterThanOrEqualToBigDecimal", a.as_str())),
        BigDecimalValidator::LessThanBigDecimal(a) => Some(jsdoc_quoted("lessThanBigDecimal", a.as_str())),
        BigDecimalValidator::LessThanOrEqualToBigDecimal(a) => Some(jsdoc_quoted("lessThanOrEqualToBigDecimal", a.as_str())),
        BigDecimalValidator::BetweenBigDecimal(a, b) => Some(jsdoc_quoted2("betweenBigDecimal", a.as_str(), b.as_str())),
    }
}

fn duration_validator_to_macroforge(v: &DurationValidator) -> (r: Option<String>)
    ensures
        match r {
            Some(s) => duration_validator_to_macroforge_text(v@) == Some(s@),
            None => duration_validator_to_macroforge_text(v@) is None,
        },
{
    match v {
        DurationValidator::GreaterThanDuration(a) => Some(jsdoc_quoted("greaterThanDuration", a.as_str())),
        DurationValidator::GreaterThanOrEqualToDuration(a) => Some(jsdoc_quoted("greaterThanOrEqualToDuration", a.as_str())),
        DurationValidator::LessThanDuration(a) => Some(jsdoc_quoted("lessThanDuration", a.as_str())),
        DurationValidator::LessThanOrEqualToDuration(a) => Some(jsdoc_quoted("lessThanOrEqualToDuration", a.as_str())),
        DurationValidator::BetweenDuration(a, b) => Some(jsdoc_quoted2("betweenDuration", a.as_str(), b.as_str())),
    }
}



/// The macroforge text of a validator. Transformations (which change a
/// value rather than check it) have none.
pub open spec fn validator_macroforge_text(v: ValidatorV) -> Option<Seq<char>> {
    match v {
        ValidatorV::StringValidator(x) => string_validator_to_macroforge_text(x),
        ValidatorV::NumberValidator(x) => number_validator_to_macroforge_text(x),
        ValidatorV::ArrayValidator(x) => array_validator_to_macroforge_text(x),
        ValidatorV::DateValidator(x) => date_validator_to_macroforge_text(x),
        ValidatorV::BigIntValidator(x) => bigint_validator_to_macroforge_text(x),
        ValidatorV::BigDecimalValidator(x) => bigdecimal_validator_to_macroforge_text(x),
        ValidatorV::DurationValidator(x) => duration_validator_to_macroforge_text(x),
    }
}

/// FlatBuffers writes every validator but an embedded string schema; in
/// particular it keeps the transformations that a Macroforge validator list
/// leaves out.
pub proof fn lemma_flatbuffers_keeps_transformations(v: ValidatorV)
    ensures
        validator_flatbuffers_text(v) is None <==> (v matches ValidatorV::StringValidator(
            StringValidatorV::StringEmbedded(_),
        )),
        validator_macroforge_text(v) is None && !(v matches ValidatorV::StringValidator(
            StringValidatorV::StringEmbedded(_),
        )) ==> validator_flatbuffers_text(v) is Some,
{
}

/// Converts a validator to its macroforge text.
pub fn validator_to_macroforge_string(validator: &Validator) -> (r: Option<String>)
    ensures
        match r {
            Some(s) => validator_macroforge_text(validator@) == Some(s@),
            None => validator_macroforge_text(validator@) is None,
        },
{
    match validator {
        Validator::StringValidator(v) => string_validator_to_macroforge(v),
        Validator::NumberValidator(v) => number_validator_to_macroforge(v),
        Validator::ArrayValidator(v) => array_validator_to_macroforge(v),
        Validator::DateValidator(v) => date_validator_to_macroforge(v),
        Validator::BigIntValidator(v) => bigint_validator_to_macroforge(v),
        Validator::BigDecimalValidator(v) => bigdecimal_validator_to_macroforge(v),
        Validator::DurationValidator(v) => duration_validator_to_macroforge(v),
    }
}

/// The texts of the validators that have one, in order.
pub open spec fn macroforge_texts(vs: Seq<ValidatorV>) -> Seq<Seq<char>>
    decreases vs.len(),
{
    if vs.len() == 0 {
        Seq::empty()
    } else {
        let rest = macroforge_texts(vs.drop_last());
        match validator_macroforge_text(vs.last()) {
            Some(t) => rest.push(t),
            None => rest,
        }
    }
}

/// Whether a field of type `t` is checked for emptiness by default: a
/// `String`, a `char`, or a bare record link (one not wrapped in `Option`).
pub open spec fn checked_for_emptiness(t: FieldTypeV) -> bool {
    t is String || t is Char || t is RecordLink
}

/// The validator texts of a field: those of its validators, with
/// `nonEmpty` put first for a field checked for emptiness that lacks it.
pub open spec fn field_validator_texts(vs: Seq<ValidatorV>, t: FieldTypeV) -> Seq<Seq<char>> {
    let texts = macroforge_texts(vs);
    if checked_for_emptiness(t) && !texts.contains("nonEmpty"@) {
        seq!["nonEmpty"@].add(texts)
    } else {
        texts
    }
}

/// A `String`, `char` or bare record-link field is always checked for
/// emptiness: its validator texts hold `nonEmpty` whatever its validators
/// are. Any other
/// field's texts are exactly those of its validators. Either way the
/// validators' own texts come last, in their order.
pub proof fn lemma_field_validator_texts(vs: Seq<ValidatorV>, t: FieldTypeV)
    ensures
        checked_for_emptiness(t) ==> field_validator_texts(vs, t).contains("nonEmpty"@),
        !checked_for_emptiness(t) ==> field_validator_texts(vs, t) == macroforge_texts(vs),
        macroforge_texts(vs).len() <= field_validator_texts(vs, t).len(),
        field_validator_texts(vs, t).skip(
            field_validator_texts(vs, t).len() - macroforge_texts(vs).len(),
        ) == macroforge_texts(vs),
{
    let texts = macroforge_texts(vs);
    let f = field_validator_texts(vs, t);
    if checked_for_emptiness(t) && !texts.contains("nonEmpty"@) {
        assert(f[0] == "nonEmpty"@);
        assert(f.skip(1) =~= texts);
    } else {
        assert(f.skip(0) =~= texts);
    }
}

/// `"text"`.
pub open spec fn quoted(t: Seq<char>) -> Seq<char> {
    "\""@ + t + "\""@
}

/// The entries of a field's `validate` list: each validator text quoted,
/// joined by `, `.
pub open spec fn validate_list(vs: Seq<ValidatorV>, t: FieldTypeV) -> Seq<char> {
    join(field_validator_texts(vs, t).map_values(|s: Seq<char>| quoted(s)), ", "@)
}

fn is_non_empty(s: &String) -> (r: bool)
    ensures
        r == (s@ == "nonEmpty"@),
{
    crate::text::same_text(s.as_str(), "nonEmpty")
}

/// The `validate` list of a field with the given validators and type; for
/// `String`, `char` and bare record-link fields `nonEmpty` is added first
/// unless already present.
pub fn collect_validators_for_field(validators: &[Validator], field_type: &FieldType) -> (r: String)
    ensures
        r@ == validate_list(validators_view(validators@), field_type@),
{
    let mut texts: Vec<String> = Vec::new();
    let mut i: usize = 0;
    while i < validators.len()
        invariant
            i <= validators@.len(),
            texts@.map_values(|s: String| s@) == macroforge_texts(
                validators_view(validators@.take(i as int)),
            ),
        decreases validators.len() - i,
    {
        let ghost before = texts@;
        proof {
            assert(validators_view(validators@.take(i + 1)).drop_last() == validators_view(
                validators@.take(i as int),
            ));
            assert(validators_view(validators@.take(i + 1)).last() == validators@[i as int]@);
        }
        match validator_to_macroforge_string(&validators[i]) {
            Some(t) => {
                texts.push(t);
                assert(texts@.map_values(|s: String| s@) == before.map_values(|s: String| s@).push(
                    texts@.last()@,
                ));
            },
            None => {},
        }
        i = i + 1;
    }
    assert(validators@.take(validators@.len() as int) == validators@);
    let ghost views = texts@.map_values(|s: String| s@);
    let textual = matches!(field_type, FieldType::String | FieldType::Char | FieldType::RecordLink(_));
    let mut has_non_empty = false;
    let mut j: usize = 0;
    while j < texts.len()
        invariant
            j <= texts@.len(),
            views == texts@.map_values(|s: String| s@),
            has_non_empty == views.take(j as int).contains("nonEmpty"@),
        decreases texts.len() - j,
    {
        proof {
            let x = "nonEmpty"@;
            let t0 = views.take(j as int);
            let t1 = views.take(j + 1);
            assert(t1 == t0.push(views[j as int]));
            if t0.contains(x) {
                let w = choose|w: int| 0 <= w < t0.len() && t0[w] == x;
                assert(t1[w] == x);
            }
            if views[j as int] == x {
                assert(t1[j as int] == x);
            }
            if t1.contains(x) {
                let w = choose|w: int| 0 <= w < t1.len() && t1[w] == x;
                if w < j {
                    assert(t0[w] == x);
                }
            }
        }
        if is_non_empty(&texts[j]) {
            has_non_empty = true;
        }
        j = j + 1;
    }
    assert(views.take(views.len() as int) == views);
    let mut listed: Vec<String> = Vec::new();
    if textual && !has_non_empty {
        let mut q = owned("\"");
        q.append("nonEmpty");
        q.append("\"");
        listed.push(q);
    }
    let ghost first = listed@.map_values(|s: String| s@);
    let mut k: usize = 0;
    while k < texts.len()
        invariant
            k <= texts@.len(),
            views == texts@.map_values(|s: String| s@),
            listed@.map_values(|s: String| s@) == first + views.take(k as int).map_values(
                |s: Seq<char>| quoted(s),
            ),
        decreases texts.len() - k,
    {
        let mut q = owned("\"");
        q.append(texts[k].as_str());
        q.append("\"");
        proof {
            assert(views.take(k + 1) == views.take(k as int).push(views[k as int]));
            assert(listed@.push(q).map_values(|s: String| s@) =~= listed@.map_values(
                |s: String| s@,
            ).push(q@));
            assert(views.take(k + 1).map_values(|s: Seq<char>| quoted(s)) =~= views.take(
                k as int,
            ).map_values(|s: Seq<char>| quoted(s)).push(quoted(views[k as int])));
        }
        listed.push(q);
        k = k + 1;
    }
    proof {
        let vs = validators_view(validators@);
        let fv = field_validator_texts(vs, field_type@);
        if textual && !has_non_empty {
            assert(first =~= seq![quoted("nonEmpty"@)]);
            assert(fv.map_values(|s: Seq<char>| quoted(s)) =~= first + views.map_values(
                |s: Seq<char>| quoted(s),
            ));
        } else {
            assert(first =~= Seq::<Seq<char>>::empty());
            assert(fv.map_values(|s: Seq<char>| quoted(s)) =~= first + views.map_values(
                |s: Seq<char>| quoted(s),
            ));
        }
    }
    join_strings(&listed, ", ")
}


/// The `@derive(...)` JSDoc line for the macros `derives`; `Deserialize`
/// when none is given.
pub open spec fn derive_line(derives: Seq<Seq<char>>) -> Seq<char> {
    if derives.len() == 0 {
        "/** @derive(Deserialize) */"@
    } else {
        "/** @derive("@ + join(derives, ", "@) + ") */"@
    }
}

/// Formats the `@derive(...)` JSDoc line from a list of macro names.
pub fn format_derive_line(derives: &Vec<String>) -> (r: String)
    ensures
        r@ == derive_line(derives@.map_values(|s: String| s@)),
{
    if derives.len() == 0 {
        owned("/** @derive(Deserialize) */")
    } else {
        let mut r = owned("/** @derive(");
        r.append(join_strings(derives, ", ").as_str());
        r.append(") */");
        r
    }
}

/// The `@serde({ format: ... })` annotation of a field whose type is a
/// foreign type configured with a serde format, if it is one.
pub open spec fn serde_format_annotation(t: FieldTypeV, registry: ForeignTypeRegistry) -> Option<Seq<char>> {
    match t {
        FieldTypeV::Other(name) => match found_config(registry.names(), registry.configs(), name) {
            Some(c) => if c.serde_format.len() > 0 {
                Some("/** @serde({ format: \""@ + c.serde_format + "\" }) */"@)
            } else {
                None
            },
            None => None,
        },
        _ => None,
    }
}

/// The `@serde({ format: ... })` annotation for a field of type
/// `field_type`, when that is a foreign type with a serde format.
pub fn collect_serde_format(field_type: &FieldType, registry: &ForeignTypeRegistry) -> (r: Option<String>)
    ensures
        match r {
            Some(t) => serde_format_annotation(field_type@, *registry) == Some(t@),
            None => serde_format_annotation(field_type@, *registry) is None,
        },
{
    match field_type {
        FieldType::Other(name) => {
            match registry.lookup(name.as_str()) {
                Some(c) => {
                    if !c.serde_format.as_str().is_empty() {
                        let mut t = owned("/** @serde({ format: \"");
                        t.append(c.serde_format.as_str());
                        t.append("\" }) */");
                        Some(t)
                    } else {
                        None
                    }
                },
                None => None,
            }
        },
        _ => None,
    }
}

/// The `@serde(...)` annotation of a field with the validator list
/// `validators` and type `t`, and whether it goes inline (before a record
/// link's type): the `validate` line, then the `format` line, when there
/// are both; either alone; or nothing. It goes inline only for a record
/// link with validators.
pub open spec fn serde_annotation(validators: Seq<char>, t: FieldTypeV, registry: ForeignTypeRegistry) -> (Seq<char>, bool) {
    let validate_line = "/** @serde({ validate: ["@ + validators + "] }) */"@;
    let inline = t is RecordLink;
    match serde_format_annotation(t, registry) {
        Some(f) => if validators.len() > 0 {
            (validate_line + "\n"@ + f, inline)
        } else {
            (f, false)
        },
        None => if validators.len() > 0 {
            (validate_line, inline)
        } else {
            (Seq::empty(), false)
        },
    }
}

/// Builds the `@serde(...)` annotation of a field from its validator list
/// and its type, and says whether it goes inline.
pub fn build_serde_annotation(validators_str: &str, field_type: &FieldType, registry: &ForeignTypeRegistry) -> (r: (String, bool))
    ensures
        (r.0@, r.1) == serde_annotation(validators_str@, field_type@, *registry),
{
    let format_ann = collect_serde_format(field_type, registry);
    let is_record_link = matches!(field_type, FieldType::RecordLink(_));
    let has_validators = !validators_str.is_empty();
    let mut validate_line = owned("/** @serde({ validate: [");
    validate_line.append(validators_str);
    validate_line.append("] }) */");
    match format_ann {
        Some(f) => {
            if has_validators {
                validate_line.append("\n");
                validate_line.append(f.as_str());
                (validate_line, is_record_link)
            } else {
                (f, false)
            }
        },
        None => {
            if has_validators {
                (validate_line, is_record_link)
            } else {
                (String::new(), false)
            }
        },
    }
}


/// The import that a reference to a type itself needs: that of the foreign
/// type it names, when one with an import is configured.
pub open spec fn import_of(
    t: FieldTypeV,
    names: Seq<(Seq<char>, Seq<char>)>,
    cfgs: Seq<(Seq<char>, crate::config::ForeignTypeConfigV)>,
) -> Option<(Seq<char>, bool)> {
    match t {
        FieldTypeV::Other(n) => match found_config(names, cfgs, n) {
            Some(c) => if c.ts_import.0.len() > 0 { Some(c.ts_import) } else { None },
            None => None,
        },
        _ => None,
    }
}

/// The imports `m`, by name, after those that `t` and the types inside it
/// need are added, the type before the types inside it; an import of a
/// name already there replaces it.
pub open spec fn collect_imports(
    m: Seq<(Seq<char>, bool)>,
    t: FieldTypeV,
    names: Seq<(Seq<char>, Seq<char>)>,
    cfgs: Seq<(Seq<char>, crate::config::ForeignTypeConfigV)>,
) -> Seq<(Seq<char>, bool)>
    decreases t,
{
    let m1 = match import_of(t, names, cfgs) {
        Some(i) => put(m, i.0, i.1),
        None => m,
    };
    match t {
        FieldTypeV::Option(b) => collect_imports(m1, *b, names, cfgs),
        FieldTypeV::Vec(b) => collect_imports(m1, *b, names, cfgs),
        FieldTypeV::RecordLink(b) => collect_imports(m1, *b, names, cfgs),
        FieldTypeV::HashMap(k, v) => collect_imports(collect_imports(m1, *k, names, cfgs), *v, names, cfgs),
        FieldTypeV::BTreeMap(k, v) => collect_imports(collect_imports(m1, *k, names, cfgs), *v, names, cfgs),
        FieldTypeV::Tuple(ts) => collect_imports_all(m1, ts, names, cfgs),
        FieldTypeV::Struct(fs) => collect_imports_named(m1, fs, names, cfgs),
        _ => m1,
    }
}

/// The imports `m` after those of the types `ts`, in order.
pub open spec fn collect_imports_all(
    m: Seq<(Seq<char>, bool)>,
    ts: Seq<FieldTypeV>,
    names: Seq<(Seq<char>, Seq<char>)>,
    cfgs: Seq<(Seq<char>, crate::config::ForeignTypeConfigV)>,
) -> Seq<(Seq<char>, bool)>
    decreases ts,
{
    if ts.len() == 0 {
        m
    } else {
        proof {
            vstd::seq::axiom_seq_index_decreases(ts, ts.len() - 1);
            assert(decreases_to!(ts => ts.subrange(0, ts.len() - 1)));
        }
        collect_imports(collect_imports_all(m, ts.subrange(0, ts.len() - 1), names, cfgs), ts[ts.len() - 1], names, cfgs)
    }
}

/// The imports `m` after those of the named types `fs`, in order.
pub open spec fn collect_imports_named(
    m: Seq<(Seq<char>, bool)>,
    fs: Seq<(Seq<char>, FieldTypeV)>,
    names: Seq<(Seq<char>, Seq<char>)>,
    cfgs: Seq<(Seq<char>, crate::config::ForeignTypeConfigV)>,
) -> Seq<(Seq<char>, bool)>
    decreases fs,
{
    if fs.len() == 0 {
        m
    } else {
        proof {
            vstd::seq::axiom_seq_index_decreases(fs, fs.len() - 1);
            assert(decreases_to!(fs => fs.subrange(0, fs.len() - 1)));
        }
        collect_imports(collect_imports_named(m, fs.subrange(0, fs.len() - 1), names, cfgs), fs[fs.len() - 1].1, names, cfgs)
    }
}

/// Whether `t` is a record link or holds one.
pub open spec fn has_record_link(t: FieldTypeV) -> bool
    decreases t,
{
    match t {
        FieldTypeV::RecordLink(_) => true,
        FieldTypeV::Option(b) => has_record_link(*b),
        FieldTypeV::Vec(b) => has_record_link(*b),
        FieldTypeV::HashMap(k, v) => has_record_link(*k) || has_record_link(*v),
        FieldTypeV::BTreeMap(k, v) => has_record_link(*k) || has_record_link(*v),
        FieldTypeV::Tuple(ts) => any_record_link(ts),
        FieldTypeV::Struct(fs) => any_named_record_link(fs),
        _ => false,
    }
}

/// Whether one of `ts` is or holds a record link.
pub open spec fn any_record_link(ts: Seq<FieldTypeV>) -> bool
    decreases ts,
{
    if ts.len() == 0 {
        false
    } else {
        proof {
            vstd::seq::axiom_seq_index_decreases(ts, ts.len() - 1);
            assert(decreases_to!(ts => ts.subrange(0, ts.len() - 1)));
        }
        any_record_link(ts.subrange(0, ts.len() - 1)) || has_record_link(ts[ts.len() - 1])
    }
}

/// Whether one of the named types `fs` is or holds a record link.
pub open spec fn any_named_record_link(fs: Seq<(Seq<char>, FieldTypeV)>) -> bool
    decreases fs,
{
    if fs.len() == 0 {
        false
    } else {
        proof {
            vstd::seq::axiom_seq_index_decreases(fs, fs.len() - 1);
            assert(decreases_to!(fs => fs.subrange(0, fs.len() - 1)));
        }
        any_named_record_link(fs.subrange(0, fs.len() - 1)) || has_record_link(fs[fs.len() - 1].1)
    }
}

/// What the walk of the types has found: the imports by name, and
/// whether a record link was met.
pub type ImportScan = (Seq<(Seq<char>, bool)>, bool);

/// The scan `st` after the type `t`.
pub open spec fn scan_type(
    st: ImportScan,
    t: FieldTypeV,
    names: Seq<(Seq<char>, Seq<char>)>,
    cfgs: Seq<(Seq<char>, crate::config::ForeignTypeConfigV)>,
) -> ImportScan {
    (collect_imports(st.0, t, names, cfgs), st.1 || has_record_link(t))
}

/// The scan `st` after the types of the first `n` fields of `fs`.
pub open spec fn scan_fields(
    st: ImportScan,
    fs: Seq<crate::types::StructFieldV>,
    n: nat,
    names: Seq<(Seq<char>, Seq<char>)>,
    cfgs: Seq<(Seq<char>, crate::config::ForeignTypeConfigV)>,
) -> ImportScan
    decreases n,
{
    if n == 0 {
        st
    } else {
        scan_type(scan_fields(st, fs, (n - 1) as nat, names, cfgs), fs[n - 1].field_type, names, cfgs)
    }
}

/// The scan `st` after the types that the first `n` variants of `vs`
/// refer to; inline structs are left to the struct's own file.
pub open spec fn scan_variants(
    st: ImportScan,
    vs: Seq<VariantV>,
    n: nat,
    names: Seq<(Seq<char>, Seq<char>)>,
    cfgs: Seq<(Seq<char>, crate::config::ForeignTypeConfigV)>,
) -> ImportScan
    decreases n,
{
    if n == 0 {
        st
    } else {
        let p = scan_variants(st, vs, (n - 1) as nat, names, cfgs);
        match vs[n - 1].data {
            Some(VariantDataV::DataStructureRef(t)) => scan_type(p, t, names, cfgs),
            _ => p,
        }
    }
}

/// The scan `st` after the fields of those of the first `n` structs of `s`
/// whose PascalCase name is one of `tn`.
pub open spec fn scan_structs(
    st: ImportScan,
    s: Seq<(Seq<char>, StructConfig)>,
    tn: Seq<Seq<char>>,
    n: nat,
    names: Seq<(Seq<char>, Seq<char>)>,
    cfgs: Seq<(Seq<char>, crate::config::ForeignTypeConfigV)>,
) -> ImportScan
    decreases n,
{
    if n == 0 {
        st
    } else {
        let p = scan_structs(st, s, tn, (n - 1) as nat, names, cfgs);
        let c = s[n - 1].1@;
        if tn.contains(case_converted(c.struct_name, TextCase::Pascal)) {
            scan_fields(p, c.fields, c.fields.len(), names, cfgs)
        } else {
            p
        }
    }
}

/// The scan `st` after the variants of those of the first `n` tagged
/// unions of `es` whose PascalCase name is one of `tn`.
pub open spec fn scan_enums(
    st: ImportScan,
    es: Seq<(Seq<char>, TaggedUnion)>,
    tn: Seq<Seq<char>>,
    n: nat,
    names: Seq<(Seq<char>, Seq<char>)>,
    cfgs: Seq<(Seq<char>, crate::config::ForeignTypeConfigV)>,
) -> ImportScan
    decreases n,
{
    if n == 0 {
        st
    } else {
        let p = scan_enums(st, es, tn, (n - 1) as nat, names, cfgs);
        let e = es[n - 1].1@;
        if tn.contains(case_converted(e.enum_name, TextCase::Pascal)) {
            scan_variants(p, e.variants, e.variants.len(), names, cfgs)
        } else {
            p
        }
    }
}

/// The scan of the types named `tn`: the fields of those structs, then
/// the referred types of those tagged unions.
pub open spec fn import_scan(
    tn: Seq<Seq<char>>,
    s: Seq<(Seq<char>, StructConfig)>,
    es: Seq<(Seq<char>, TaggedUnion)>,
    names: Seq<(Seq<char>, Seq<char>)>,
    cfgs: Seq<(Seq<char>, crate::config::ForeignTypeConfigV)>,
) -> ImportScan {
    scan_enums(scan_structs((Seq::empty(), false), s, tn, s.len(), names, cfgs), es, tn, es.len(), names, cfgs)
}

/// The line that imports `i` from `effect`.
pub open spec fn effect_import_line(i: (Seq<char>, bool)) -> Seq<char> {
    (if i.1 { "import type"@ } else { "import"@ }) + " { "@ + i.0 + " } from 'effect';"@
}

/// The import lines that the types named `tn` need: one from `effect` for
/// each foreign type they use whose import is configured, by name, then
/// that of `RecordLink` when one of them holds a record link.
pub open spec fn extra_import_lines(
    tn: Seq<Seq<char>>,
    s: Seq<(Seq<char>, StructConfig)>,
    es: Seq<(Seq<char>, TaggedUnion)>,
    names: Seq<(Seq<char>, Seq<char>)>,
    cfgs: Seq<(Seq<char>, crate::config::ForeignTypeConfigV)>,
) -> Seq<Seq<char>> {
    let st = import_scan(tn, s, es, names, cfgs);
    st.0.map_values(|i: (Seq<char>, bool)| effect_import_line(i))
        + if st.1 { seq!["import type { RecordLink } from './index';"@] } else { Seq::empty() }
}

/// Whether `t` is a record link or holds one.
fn holds_record_link(t: &FieldType) -> (r: bool)
    ensures
        r == has_record_link(t@),
    decreases t,
{
    match t {
        FieldType::RecordLink(_) => true,
        FieldType::Option(b) | FieldType::Vec(b) => holds_record_link(b),
        FieldType::HashMap(k, v) | FieldType::BTreeMap(k, v) => holds_record_link(k) || holds_record_link(v),
        FieldType::Tuple(ts) => {
            proof {
                lemma_tuple_view(*ts);
            }
            let mut found = false;
            let mut i: usize = 0;
            while i < ts.len()
                invariant
                    i <= ts@.len(),
                    found == any_record_link(views_of(ts@.take(i as int))),
                    *t == FieldType::Tuple(*ts),
                decreases ts.len() - i,
            {
                proof {
                    assert(decreases_to!(*t => (*t)->Tuple_0));
                    vstd::std_specs::vec::axiom_vec_index_decreases(*ts, i as int);
                    let vs = views_of(ts@.take(i + 1));
                    assert(vs.subrange(0, vs.len() - 1) =~= views_of(ts@.take(i as int)));
                    assert(vs[vs.len() - 1] == ts@[i as int]@);
                }
                let h = holds_record_link(&ts[i]);
                found = found || h;
                i = i + 1;
            }
            assert(ts@.take(ts@.len() as int) == ts@);
            found
        },
        FieldType::Struct(fs) => {
            proof {
                lemma_struct_view(*fs);
            }
            let mut found = false;
            let mut i: usize = 0;
            while i < fs.len()
                invariant
                    i <= fs@.len(),
                    found == any_named_record_link(named_views_of(fs@.take(i as int))),
                    *t == FieldType::Struct(*fs),
                decreases fs.len() - i,
            {
                proof {
                    assert(decreases_to!(*t => (*t)->Struct_0));
                    vstd::std_specs::vec::axiom_vec_index_decreases(*fs, i as int);
                    assert(decreases_to!(fs[i as int] => fs[i as int].1));
                    let vs = named_views_of(fs@.take(i + 1));
                    assert(vs.subrange(0, vs.len() - 1) =~= named_views_of(fs@.take(i as int)));
                    assert(vs[vs.len() - 1] == (fs@[i as int].0@, fs@[i as int].1@));
                }
                let h = holds_record_link(&fs[i].1);
                found = found || h;
                i = i + 1;
            }
            assert(fs@.take(fs@.len() as int) == fs@);
            found
        },
        _ => false,
    }
}

/// Adds to `m` the imports that `t` and the types inside it need, as
/// [`collect_imports`] says.
fn collect_foreign_imports(t: &FieldType, registry: &ForeignTypeRegistry, m: &mut NamedMap<bool>)
    ensures
        final(m)@ == collect_imports(old(m)@, t@, registry.names(), registry.configs()),
    decreases t,
{
    if let FieldType::Other(name) = t {
        if let Some(ftc) = registry.lookup(name.as_str()) {
            if !ftc.ts_import.is_empty() {
                m.insert(ftc.ts_import.name.clone(), ftc.ts_import.is_type_only);
            }
        }
    }
    match t {
        FieldType::Option(b) | FieldType::Vec(b) | FieldType::RecordLink(b) => collect_foreign_imports(b, registry, m),
        FieldType::HashMap(k, v) | FieldType::BTreeMap(k, v) => {
            collect_foreign_imports(k, registry, m);
            collect_foreign_imports(v, registry, m);
        },
        FieldType::Tuple(ts) => {
            proof {
                lemma_tuple_view(*ts);
            }
            let ghost m1 = m@;
            let mut i: usize = 0;
            while i < ts.len()
                invariant
                    i <= ts@.len(),
                    m@ == collect_imports_all(m1, views_of(ts@.take(i as int)), registry.names(), registry.configs()),
                    *t == FieldType::Tuple(*ts),
                decreases ts.len() - i,
            {
                proof {
                    assert(decreases_to!(*t => (*t)->Tuple_0));
                    vstd::std_specs::vec::axiom_vec_index_decreases(*ts, i as int);
                    let vs = views_of(ts@.take(i + 1));
                    assert(vs.subrange(0, vs.len() - 1) =~= views_of(ts@.take(i as int)));
                    assert(vs[vs.len() - 1] == ts@[i as int]@);
                }
                collect_foreign_imports(&ts[i], registry, m);
                i = i + 1;
            }
            assert(ts@.take(ts@.len() as int) == ts@);
        },
        FieldType::Struct(fs) => {
            proof {
                lemma_struct_view(*fs);
            }
            let ghost m1 = m@;
            let mut i: usize = 0;
            while i < fs.len()
                invariant
                    i <= fs@.len(),
                    m@ == collect_imports_named(m1, named_views_of(fs@.take(i as int)), registry.names(), registry.configs()),
                    *t == FieldType::Struct(*fs),
                decreases fs.len() - i,
            {
                proof {
                    assert(decreases_to!(*t => (*t)->Struct_0));
                    vstd::std_specs::vec::axiom_vec_index_decreases(*fs, i as int);
                    assert(decreases_to!(fs[i as int] => fs[i as int].1));
                    let vs = named_views_of(fs@.take(i + 1));
                    assert(vs.subrange(0, vs.len() - 1) =~= named_views_of(fs@.take(i as int)));
                    assert(vs[vs.len() - 1] == (fs@[i as int].0@, fs@[i as int].1@));
                }
                collect_foreign_imports(&fs[i].1, registry, m);
                i = i + 1;
            }
            assert(fs@.take(fs@.len() as int) == fs@);
        },
        _ => {},
    }
}

/// Adds what the type `t` needs to the imports `m` and the record-link
/// flag `rl`, as [`scan_type`] says.
fn scan_field_type(t: &FieldType, registry: &ForeignTypeRegistry, m: &mut NamedMap<bool>, rl: &mut bool)
    ensures
        (final(m)@, *final(rl)) == scan_type((old(m)@, *old(rl)), t@, registry.names(), registry.configs()),
{
    if holds_record_link(t) {
        *rl = true;
    }
    collect_foreign_imports(t, registry, m);
}

/// Computes the import lines that the types named `type_names` need: one
/// from `effect` for each foreign type that their fields, or the types
/// their variants refer to, use and whose TypeScript import the registry
/// configures, in the order of the imported names; then the `RecordLink`
/// import when one of those types holds a record link.
pub fn compute_extra_imports(
    type_names: &Vec<String>,
    structs: &NamedMap<StructConfig>,
    enums: &NamedMap<TaggedUnion>,
    registry: &ForeignTypeRegistry,
) -> (r: Vec<String>)
    ensures
        texts(r@) == extra_import_lines(texts(type_names@), structs@, enums@, registry.names(), registry.configs()),
{
    let ghost tn = texts(type_names@);
    let ghost names = registry.names();
    let ghost cfgs = registry.configs();
    let mut imports: NamedMap<bool> = NamedMap::new();
    let mut rl = false;
    let ss = structs.entries();
    let mut i: usize = 0;
    while i < ss.len()
        invariant
            i <= ss@.len(),
            entries_view(ss@) == structs@,
            tn == texts(type_names@),
            names == registry.names(),
            cfgs == registry.configs(),
            (imports@, rl) == scan_structs((Seq::empty(), false), structs@, tn, i as nat, names, cfgs),
        decreases ss.len() - i,
    {
        let c = &ss[i].1;
        assert(structs@[i as int].1 == *c);
        let p = to_case(c.struct_name.as_str(), TextCase::Pascal);
        if has_text(type_names, p.as_str()) {
            let ghost start = (imports@, rl);
            let mut j: usize = 0;
            while j < c.fields.len()
                invariant
                    j <= c.fields@.len(),
                    names == registry.names(),
                    cfgs == registry.configs(),
                    (imports@, rl) == scan_fields(start, c@.fields, j as nat, names, cfgs),
                decreases c.fields.len() - j,
            {
                let f: &StructField = &c.fields[j];
                assert(c@.fields[j as int] == f@);
                scan_field_type(&f.field_type, registry, &mut imports, &mut rl);
                j = j + 1;
            }
        }
        i = i + 1;
    }
    let es = enums.entries();
    let ghost after_structs = (imports@, rl);
    let mut i: usize = 0;
    while i < es.len()
        invariant
            i <= es@.len(),
            entries_view(es@) == enums@,
            tn == texts(type_names@),
            names == registry.names(),
            cfgs == registry.configs(),
            after_structs == scan_structs((Seq::empty(), false), structs@, tn, structs@.len(), names, cfgs),
            (imports@, rl) == scan_enums(after_structs, enums@, tn, i as nat, names, cfgs),
        decreases es.len() - i,
    {
        let e = &es[i].1;
        assert(enums@[i as int].1 == *e);
        let p = to_case(e.enum_name.as_str(), TextCase::Pascal);
        if has_text(type_names, p.as_str()) {
            let ghost start = (imports@, rl);
            let mut j: usize = 0;
            while j < e.variants.len()
                invariant
                    j <= e.variants@.len(),
                    names == registry.names(),
                    cfgs == registry.configs(),
                    (imports@, rl) == scan_variants(start, e@.variants, j as nat, names, cfgs),
                decreases e.variants.len() - j,
            {
                let v: &Variant = &e.variants[j];
                assert(e@.variants[j as int] == v@);
                match &v.data {
                    Some(VariantData::DataStructureRef(t)) => {
                        scan_field_type(t, registry, &mut imports, &mut rl);
                    },
                    _ => {},
                }
                j = j + 1;
            }
        }
        i = i + 1;
    }
    let found = imports.entries();
    let mut lines: Vec<String> = Vec::new();
    let mut k: usize = 0;
    while k < found.len()
        invariant
            k <= found@.len(),
            entries_view(found@) == imports@,
            texts(lines@) == imports@.take(k as int).map_values(|i: (Seq<char>, bool)| effect_import_line(i)),
        decreases found.len() - k,
    {
        let mut line = if found[k].1 { owned("import type") } else { owned("import") };
        line.append(" { ");
        line.append(found[k].0.as_str());
        line.append(" } from 'effect';");
        proof {
            assert(imports@[k as int] == (found@[k as int].0@, found@[k as int].1));
            assert(imports@.take(k + 1).map_values(|i: (Seq<char>, bool)| effect_import_line(i))
                =~= imports@.take(k as int).map_values(|i: (Seq<char>, bool)| effect_import_line(i)).push(line@));
            assert(texts(lines@.push(line)) =~= texts(lines@).push(line@));
        }
        lines.push(line);
        k = k + 1;
    }
    assert(imports@.take(imports@.len() as int) == imports@);
    if rl {
        let line = owned("import type { RecordLink } from './index';");
        proof {
            assert(texts(lines@.push(line)) =~= texts(lines@).push(line@));
        }
        lines.push(line);
    }
    lines
}


proof fn lemma_collect_sorted(
    m: Seq<(Seq<char>, bool)>,
    t: FieldTypeV,
    names: Seq<(Seq<char>, Seq<char>)>,
    cfgs: Seq<(Seq<char>, crate::config::ForeignTypeConfigV)>,
)
    requires
        sorted_names(m),
    ensures
        sorted_names(collect_imports(m, t, names, cfgs)),
    decreases t,
{
    let m1 = match import_of(t, names, cfgs) {
        Some(i) => put(m, i.0, i.1),
        None => m,
    };
    match import_of(t, names, cfgs) {
        Some(i) => lemma_put(m, i.0, i.1),
        None => {},
    }
    match t {
        FieldTypeV::Option(b) => lemma_collect_sorted(m1, *b, names, cfgs),
        FieldTypeV::Vec(b) => lemma_collect_sorted(m1, *b, names, cfgs),
        FieldTypeV::RecordLink(b) => lemma_collect_sorted(m1, *b, names, cfgs),
        FieldTypeV::HashMap(k, v) => {
            lemma_collect_sorted(m1, *k, names, cfgs);
            lemma_collect_sorted(collect_imports(m1, *k, names, cfgs), *v, names, cfgs);
        },
        FieldTypeV::BTreeMap(k, v) => {
            lemma_collect_sorted(m1, *k, names, cfgs);
            lemma_collect_sorted(collect_imports(m1, *k, names, cfgs), *v, names, cfgs);
        },
        FieldTypeV::Tuple(ts) => lemma_collect_all_sorted(m1, ts, names, cfgs),
        FieldTypeV::Struct(fs) => lemma_collect_named_sorted(m1, fs, names, cfgs),
        _ => {},
    }
}

proof fn lemma_collect_all_sorted(
    m: Seq<(Seq<char>, bool)>,
    ts: Seq<FieldTypeV>,
    names: Seq<(Seq<char>, Seq<char>)>,
    cfgs: Seq<(Seq<char>, crate::config::ForeignTypeConfigV)>,
)
    requires
        sorted_names(m),
    ensures
        sorted_names(collect_imports_all(m, ts, names, cfgs)),
    decreases ts,
{
    if ts.len() > 0 {
        vstd::seq::axiom_seq_index_decreases(ts, ts.len() - 1);
        assert(decreases_to!(ts => ts.subrange(0, ts.len() - 1)));
        lemma_collect_all_sorted(m, ts.subrange(0, ts.len() - 1), names, cfgs);
        lemma_collect_sorted(collect_imports_all(m, ts.subrange(0, ts.len() - 1), names, cfgs), ts[ts.len() - 1], names, cfgs);
    }
}

proof fn lemma_collect_named_sorted(
    m: Seq<(Seq<char>, bool)>,
    fs: Seq<(Seq<char>, FieldTypeV)>,
    names: Seq<(Seq<char>, Seq<char>)>,
    cfgs: Seq<(Seq<char>, crate::config::ForeignTypeConfigV)>,
)
    requires
        sorted_names(m),
    ensures
        sorted_names(collect_imports_named(m, fs, names, cfgs)),
    decreases fs,
{
    if fs.len() > 0 {
        vstd::seq::axiom_seq_index_decreases(fs, fs.len() - 1);
        assert(decreases_to!(fs => fs.subrange(0, fs.len() - 1)));
        lemma_collect_named_sorted(m, fs.subrange(0, fs.len() - 1), names, cfgs);
        lemma_collect_sorted(collect_imports_named(m, fs.subrange(0, fs.len() - 1), names, cfgs), fs[fs.len() - 1].1, names, cfgs);
    }
}

proof fn lemma_scan_fields_sorted(
    st: ImportScan,
    fs: Seq<crate::types::StructFieldV>,
    n: nat,
    names: Seq<(Seq<char>, Seq<char>)>,
    cfgs: Seq<(Seq<char>, crate::config::ForeignTypeConfigV)>,
)
    requires
        sorted_names(st.0),
    ensures
        sorted_names(scan_fields(st, fs, n, names, cfgs).0),
    decreases n,
{
    if n > 0 {
        lemma_scan_fields_sorted(st, fs, (n - 1) as nat, names, cfgs);
        lemma_collect_sorted(scan_fields(st, fs, (n - 1) as nat, names, cfgs).0, fs[n - 1].field_type, names, cfgs);
    }
}

proof fn lemma_scan_variants_sorted(
    st: ImportScan,
    vs: Seq<VariantV>,
    n: nat,
    names: Seq<(Seq<char>, Seq<char>)>,
    cfgs: Seq<(Seq<char>, crate::config::ForeignTypeConfigV)>,
)
    requires
        sorted_names(st.0),
    ensures
        sorted_names(scan_variants(st, vs, n, names, cfgs).0),
    decreases n,
{
    if n > 0 {
        lemma_scan_variants_sorted(st, vs, (n - 1) as nat, names, cfgs);
        match vs[n - 1].data {
            Some(VariantDataV::DataStructureRef(t)) => {
                lemma_collect_sorted(scan_variants(st, vs, (n - 1) as nat, names, cfgs).0, t, names, cfgs);
            },
            _ => {},
        }
    }
}

proof fn lemma_scan_structs_sorted(
    st: ImportScan,
    s: Seq<(Seq<char>, StructConfig)>,
    tn: Seq<Seq<char>>,
    n: nat,
    names: Seq<(Seq<char>, Seq<char>)>,
    cfgs: Seq<(Seq<char>, crate::config::ForeignTypeConfigV)>,
)
    requires
        sorted_names(st.0),
    ensures
        sorted_names(scan_structs(st, s, tn, n, names, cfgs).0),
    decreases n,
{
    if n > 0 {
        lemma_scan_structs_sorted(st, s, tn, (n - 1) as nat, names, cfgs);
        let c = s[n - 1].1@;
        lemma_scan_fields_sorted(scan_structs(st, s, tn, (n - 1) as nat, names, cfgs), c.fields, c.fields.len(), names, cfgs);
    }
}

proof fn lemma_scan_enums_sorted(
    st: ImportScan,
    es: Seq<(Seq<char>, TaggedUnion)>,
    tn: Seq<Seq<char>>,
    n: nat,
    names: Seq<(Seq<char>, Seq<char>)>,
    cfgs: Seq<(Seq<char>, crate::config::ForeignTypeConfigV)>,
)
    requires
        sorted_names(st.0),
    ensures
        sorted_names(scan_enums(st, es, tn, n, names, cfgs).0),
    decreases n,
{
    if n > 0 {
        lemma_scan_enums_sorted(st, es, tn, (n - 1) as nat, names, cfgs);
        let e = es[n - 1].1@;
        lemma_scan_variants_sorted(scan_enums(st, es, tn, (n - 1) as nat, names, cfgs), e.variants, e.variants.len(), names, cfgs);
    }
}

/// Each foreign import is listed once: the imports that the types named
/// `tn` need come in strictly increasing order of the imported names, so
/// no name is imported twice.
pub proof fn lemma_extra_imports_once_each(
    tn: Seq<Seq<char>>,
    s: Seq<(Seq<char>, StructConfig)>,
    es: Seq<(Seq<char>, TaggedUnion)>,
    names: Seq<(Seq<char>, Seq<char>)>,
    cfgs: Seq<(Seq<char>, crate::config::ForeignTypeConfigV)>,
)
    ensures
        sorted_names(import_scan(tn, s, es, names, cfgs).0),
{
    let e: Seq<(Seq<char>, bool)> = Seq::empty();
    let st: ImportScan = (e, false);
    lemma_scan_structs_sorted(st, s, tn, s.len(), names, cfgs);
    lemma_scan_enums_sorted(scan_structs(st, s, tn, s.len(), names, cfgs), es, tn, es.len(), names, cfgs);
}


/// Whether `t` holds no `(`.
pub open spec fn no_open_paren(t: Seq<char>) -> bool {
    forall|i: int| 0 <= i < t.len() ==> t[i] != '('
}

/// Whether `t` holds no `,`.
pub open spec fn no_comma(t: Seq<char>) -> bool {
    forall|i: int| 0 <= i < t.len() ==> t[i] != ','
}

/// A call's text gives back its function name and its argument, when the
/// names hold no `(`.
proof fn lemma_call_text_parts(n1: Seq<char>, a1: Seq<char>, n2: Seq<char>, a2: Seq<char>)
    requires
        no_open_paren(n1),
        no_open_paren(n2),
        call_text(n1, a1) == call_text(n2, a2),
    ensures
        n1 == n2,
        a1 == a2,
{
    reveal_strlit("(");
    reveal_strlit(")");
    let x = call_text(n1, a1);
    let y = call_text(n2, a2);
    if n1.len() < n2.len() {
        assert(x[n1.len() as int] == '(');
        assert(y[n1.len() as int] == n2[n1.len() as int]);
    }
    if n2.len() < n1.len() {
        assert(y[n2.len() as int] == '(');
        assert(x[n2.len() as int] == n1[n2.len() as int]);
    }
    assert(n1 =~= x.subrange(0, n1.len() as int));
    assert(n2 =~= y.subrange(0, n2.len() as int));
    assert(a1 =~= x.subrange(n1.len() as int + 1, x.len() - 1));
    assert(a2 =~= y.subrange(n2.len() as int + 1, y.len() - 1));
}

/// A call's text holds `(` right after the function name.
proof fn lemma_call_text_paren(n: Seq<char>, a: Seq<char>)
    ensures
        call_text(n, a)[n.len() as int] == '(',
        call_text(n, a).len() > n.len(),
{
    reveal_strlit("(");
    reveal_strlit(")");
}

/// `a, b` gives back `a` and `b` when `a` holds no comma.
proof fn lemma_comma_pair_parts(a1: Seq<char>, b1: Seq<char>, a2: Seq<char>, b2: Seq<char>)
    requires
        no_comma(a1),
        no_comma(a2),
        a1 + ", "@ + b1 == a2 + ", "@ + b2,
    ensures
        a1 == a2,
        b1 == b2,
{
    reveal_strlit(", ");
    let x = a1 + ", "@ + b1;
    if a1.len() < a2.len() {
        assert(x[a1.len() as int] == ',');
        assert((a2 + ", "@ + b2)[a1.len() as int] == a2[a1.len() as int]);
    }
    if a2.len() < a1.len() {
        assert((a2 + ", "@ + b2)[a2.len() as int] == ',');
        assert(x[a2.len() as int] == a1[a2.len() as int]);
    }
    assert(a1 =~= x.subrange(0, a1.len() as int));
    assert(a2 =~= x.subrange(0, a2.len() as int));
    assert(b1 =~= x.subrange(a1.len() as int + 2, x.len() as int));
    assert(b2 =~= (a2 + ", "@ + b2).subrange(a2.len() as int + 2, x.len() as int));
}

/// The comparison a number validator names in Macroforge and its argument
/// text, if it takes one.
spec fn number_call(v: NumberValidatorV) -> (Seq<char>, Option<Seq<char>>) {
    match v {
        NumberValidatorV::Int => ("int"@, None),
        NumberValidatorV::Finite => ("finite"@, None),
        NumberValidatorV::NonNaN => ("nonNaN"@, None),
        NumberValidatorV::Positive => ("positive"@, None),
        NumberValidatorV::Negative => ("negative"@, None),
        NumberValidatorV::NonPositive => ("nonPositive"@, None),
        NumberValidatorV::NonNegative => ("nonNegative"@, None),
        NumberValidatorV::Uint8 => ("uint8"@, None),
        NumberValidatorV::GreaterThan(a) => ("greaterThan"@, Some(a)),
        NumberValidatorV::GreaterThanOrEqualTo(a) => ("greaterThanOrEqualTo"@, Some(a)),
        NumberValidatorV::LessThan(a) => ("lessThan"@, Some(a)),
        NumberValidatorV::LessThanOrEqualTo(a) => ("lessThanOrEqualTo"@, Some(a)),
        NumberValidatorV::MultipleOf(a) => ("multipleOf"@, Some(a)),
        NumberValidatorV::Between(a, b) => ("between"@, Some(a + ", "@ + b)),
    }
}

/// Whether the first bound of a `between` validator is written without a
/// comma, as number texts are.
pub open spec fn bounds_comma_free(v: NumberValidatorV) -> bool {
    match v {
        NumberValidatorV::Between(a, _) => no_comma(a),
        _ => true,
    }
}

proof fn lemma_number_call(v: NumberValidatorV)
    ensures
        number_validator_to_macroforge_text(v) == Some(match number_call(v).1 {
            None => number_call(v).0,
            Some(arg) => call_text(number_call(v).0, arg),
        }),
{
    reveal_strlit("(");
    reveal_strlit(")");
    reveal_strlit(", ");
    if let NumberValidatorV::Between(a, b) = v {
        assert(call2_text("between"@, a, b) =~= call_text("between"@, a + ", "@ + b));
    }
}

/// Each number validator's Macroforge text names its own comparison:
/// `LessThanOrEqualTo(n)` gives `lessThanOrEqualTo(n)`, `LessThan(n)` gives
/// `lessThan(n)`, and so on; two number validators get the same text only
/// when they are the same validator (the first bound of a `between` being
/// written without a comma).
pub proof fn lemma_number_texts_distinct(a: NumberValidatorV, b: NumberValidatorV)
    requires
        bounds_comma_free(a),
        bounds_comma_free(b),
    ensures
        number_validator_to_macroforge_text(a) == number_validator_to_macroforge_text(b) ==> a == b,
        number_validator_to_macroforge_text(a) is Some,
{
    reveal_strlit("int");
    reveal_strlit("finite");
    reveal_strlit("nonNaN");
    reveal_strlit("positive");
    reveal_strlit("negative");
    reveal_strlit("nonPositive");
    reveal_strlit("nonNegative");
    reveal_strlit("uint8");
    reveal_strlit("greaterThan");
    reveal_strlit("greaterThanOrEqualTo");
    reveal_strlit("lessThan");
    reveal_strlit("lessThanOrEqualTo");
    reveal_strlit("multipleOf");
    reveal_strlit("between");
    reveal_strlit("(");
    reveal_strlit(")");
    reveal_strlit(", ");
    assert("int"@.len() == 3);
    assert("finite"@.len() == 6);
    assert("nonNaN"@.len() == 6);
    assert("positive"@.len() == 8);
    assert("negative"@.len() == 8);
    assert("nonPositive"@.len() == 11);
    assert("nonNegative"@.len() == 11);
    assert("uint8"@.len() == 5);
    assert("greaterThan"@.len() == 11);
    assert("greaterThanOrEqualTo"@.len() == 20);
    assert("lessThan"@.len() == 8);
    assert("lessThanOrEqualTo"@.len() == 17);
    assert("multipleOf"@.len() == 10);
    assert("between"@.len() == 7);
    assert("("@.len() == 1);
    assert(")"@.len() == 1);
    assert(", "@.len() == 2);
    assert("finite"@[0] != "nonNaN"@[0]);
    assert("positive"@[0] != "negative"@[0]);
    assert("positive"@[0] != "lessThan"@[0]);
    assert("negative"@[0] != "lessThan"@[0]);
    assert("nonPositive"@[3] != "nonNegative"@[3]);
    assert("nonPositive"@[0] != "greaterThan"@[0]);
    assert("nonNegative"@[0] != "greaterThan"@[0]);
    assert(no_open_paren("int"@));
    assert(no_open_paren("finite"@));
    assert(no_open_paren("nonNaN"@));
    assert(no_open_paren("positive"@));
    assert(no_open_paren("negative"@));
    assert(no_open_paren("nonPositive"@));
    assert(no_open_paren("nonNegative"@));
    assert(no_open_paren("uint8"@));
    assert(no_open_paren("greaterThan"@));
    assert(no_open_paren("greaterThanOrEqualTo"@));
    assert(no_open_paren("lessThan"@));
    assert(no_open_paren("lessThanOrEqualTo"@));
    assert(no_open_paren("multipleOf"@));
    assert(no_open_paren("between"@));
    lemma_number_call(a);
    lemma_number_call(b);
    let (na, xa) = number_call(a);
    let (nb, xb) = number_call(b);
    if number_validator_to_macroforge_text(a) == number_validator_to_macroforge_text(b) {
        match (xa, xb) {
            (None, None) => {},
            (Some(p), None) => {
                lemma_call_text_paren(na, p);
                assert(nb[na.len() as int] == '(');
            },
            (None, Some(q)) => {
                lemma_call_text_paren(nb, q);
                assert(na[nb.len() as int] == '(');
            },
            (Some(p), Some(q)) => {
                lemma_call_text_parts(na, p, nb, q);
                if let NumberValidatorV::Between(a1, b1) = a {
                    if let NumberValidatorV::Between(a2, b2) = b {
                        lemma_comma_pair_parts(a1, b1, a2, b2);
                    }
                }
            },
        }
    }
}


/// The name of a number validator's variant, as written in Rust.
pub open spec fn number_variant_name(v: NumberValidatorV) -> Seq<char> {
    match v {
        NumberValidatorV::Int => "Int"@,
        NumberValidatorV::Finite => "Finite"@,
        NumberValidatorV::NonNaN => "NonNaN"@,
        NumberValidatorV::Positive => "Positive"@,
        NumberValidatorV::Negative => "Negative"@,
        NumberValidatorV::NonPositive => "NonPositive"@,
        NumberValidatorV::NonNegative => "NonNegative"@,
        NumberValidatorV::Uint8 => "Uint8"@,
        NumberValidatorV::GreaterThan(_) => "GreaterThan"@,
        NumberValidatorV::GreaterThanOrEqualTo(_) => "GreaterThanOrEqualTo"@,
        NumberValidatorV::LessThan(_) => "LessThan"@,
        NumberValidatorV::LessThanOrEqualTo(_) => "LessThanOrEqualTo"@,
        NumberValidatorV::MultipleOf(_) => "MultipleOf"@,
        NumberValidatorV::Between(_, _) => "Between"@,
    }
}

/// `s` with its first letter made small.
pub open spec fn lower_first(s: Seq<char>) -> Seq<char> {
    if s.len() == 0 {
        s
    } else {
        seq![crate::number::ascii_lower(s[0])] + s.drop_first()
    }
}

/// Each number validator's Macroforge text names its own comparison: it is
/// the validator's own name with the first letter made small, alone or
/// followed by its arguments in parentheses (so `LessThanOrEqualTo(n)` is
/// written `lessThanOrEqualTo(n)`).
pub proof fn lemma_number_text_names_validator(v: NumberValidatorV)
    ensures
        ({
            let t = number_validator_to_macroforge_text(v)->0;
            let n = lower_first(number_variant_name(v));
            &&& number_validator_to_macroforge_text(v) is Some
            &&& t.len() >= n.len()
            &&& t.subrange(0, n.len() as int) == n
            &&& (t.len() == n.len() || t[n.len() as int] == '(')
        }),
{
    lemma_number_call(v);
    reveal_strlit("(");
    reveal_strlit(")");
    match v {
        NumberValidatorV::Int => {
            reveal_strlit("Int");
            reveal_strlit("int");
            assert(lower_first("Int"@) =~= "int"@);
        },
        NumberValidatorV::Finite => {
            reveal_strlit("Finite");
            reveal_strlit("finite");
            assert(lower_first("Finite"@) =~= "finite"@);
        },
        NumberValidatorV::NonNaN => {
            reveal_strlit("NonNaN");
            reveal_strlit("nonNaN");
            assert(lower_first("NonNaN"@) =~= "nonNaN"@);
        },
        NumberValidatorV::Positive => {
            reveal_strlit("Positive");
            reveal_strlit("positive");
            assert(lower_first("Positive"@) =~= "positive"@);
        },
        NumberValidatorV::Negative => {
            reveal_strlit("Negative");
            reveal_strlit("negative");
            assert(lower_first("Negative"@) =~= "negative"@);
        },
        NumberValidatorV::NonPositive => {
            reveal_strlit("NonPositive");
            reveal_strlit("nonPositive");
            assert(lower_first("NonPositive"@) =~= "nonPositive"@);
        },
        NumberValidatorV::NonNegative => {
            reveal_strlit("NonNegative");
            reveal_strlit("nonNegative");
            assert(lower_first("NonNegative"@) =~= "nonNegative"@);
        },
        NumberValidatorV::Uint8 => {
            reveal_strlit("Uint8");
            reveal_strlit("uint8");
            assert(lower_first("Uint8"@) =~= "uint8"@);
        },
        NumberValidatorV::GreaterThan(_) => {
            reveal_strlit("GreaterThan");
            reveal_strlit("greaterThan");
            assert(lower_first("GreaterThan"@) =~= "greaterThan"@);
        },
        NumberValidatorV::GreaterThanOrEqualTo(_) => {
            reveal_strlit("GreaterThanOrEqualTo");
            reveal_strlit("greaterThanOrEqualTo");
            assert(lower_first("GreaterThanOrEqualTo"@) =~= "greaterThanOrEqualTo"@);
        },
        NumberValidatorV::LessThan(_) => {
            reveal_strlit("LessThan");
            reveal_strlit("lessThan");
            assert(lower_first("LessThan"@) =~= "lessThan"@);
        },
        NumberValidatorV::LessThanOrEqualTo(_) => {
            reveal_strlit("LessThanOrEqualTo");
            reveal_strlit("lessThanOrEqualTo");
            assert(lower_first("LessThanOrEqualTo"@) =~= "lessThanOrEqualTo"@);
        },
        NumberValidatorV::MultipleOf(_) => {
            reveal_strlit("MultipleOf");
            reveal_strlit("multipleOf");
            assert(lower_first("MultipleOf"@) =~= "multipleOf"@);
        },
        NumberValidatorV::Between(_, _) => {
            reveal_strlit("Between");
            reveal_strlit("between");
            assert(lower_first("Between"@) =~= "between"@);
        },
    }
    let (name, arg) = number_call(v);
    match arg {
        Some(x) => {
            let t = call_text(name, x);
            assert(t.subrange(0, name.len() as int) =~= name);
        },
        None => {
            assert(name.subrange(0, name.len() as int) =~= name);
        },
    }
}


/// Whether the text `t` is the name `n`, alone or followed by an argument
/// list in parentheses.
pub open spec fn begins_with_name(t: Seq<char>, n: Seq<char>) -> bool {
    &&& t.len() >= n.len()
    &&& t.subrange(0, n.len() as int) == n
    &&& (t.len() == n.len() || t[n.len() as int] == '(')
}

proof fn lemma_begins_with_name(n: Seq<char>, rest: Seq<char>)
    requires
        rest.len() == 0 || rest[0] == '(',
    ensures
        begins_with_name(n + rest, n),
{
    assert((n + rest).subrange(0, n.len() as int) =~= n);
}

/// The name of an array validator's variant, as written in Rust.
pub open spec fn array_variant_name(v: ArrayValidatorV) -> Seq<char> {
    match v {
        ArrayValidatorV::MinItems(_) => "MinItems"@,
        ArrayValidatorV::MaxItems(_) => "MaxItems"@,
        ArrayValidatorV::ItemsCount(_) => "ItemsCount"@,
    }
}

/// Each array validator's Macroforge text names its own comparison: it is
/// the validator's own name with the first letter made small, alone or
/// followed by its arguments in parentheses.
pub proof fn lemma_array_text_names_validator(v: ArrayValidatorV)
    ensures
        array_validator_to_macroforge_text(v) is Some,
        begins_with_name(array_validator_to_macroforge_text(v)->0, lower_first(array_variant_name(v))),
{
    reveal_strlit("(");
    reveal_strlit(")");
    reveal_strlit("(\"");
    reveal_strlit("\")");
    reveal_strlit("\", \"");
    match v {
        ArrayValidatorV::MinItems(a) => {
            reveal_strlit("MinItems");
            reveal_strlit("minItems");
            assert(lower_first("MinItems"@) =~= "minItems"@);
            let rest = "("@ + decimal(a as nat) + ")"@;
            lemma_begins_with_name("minItems"@, rest);
            assert(array_validator_to_macroforge_text(v)->0 =~= "minItems"@ + rest);
        },
        ArrayValidatorV::MaxItems(a) => {
            reveal_strlit("MaxItems");
            reveal_strlit("maxItems");
            assert(lower_first("MaxItems"@) =~= "maxItems"@);
            let rest = "("@ + decimal(a as nat) + ")"@;
            lemma_begins_with_name("maxItems"@, rest);
            assert(array_validator_to_macroforge_text(v)->0 =~= "maxItems"@ + rest);
        },
        ArrayValidatorV::ItemsCount(a) => {
            reveal_strlit("ItemsCount");
            reveal_strlit("itemsCount");
            assert(lower_first("ItemsCount"@) =~= "itemsCount"@);
            let rest = "("@ + decimal(a as nat) + ")"@;
            lemma_begins_with_name("itemsCount"@, rest);
            assert(array_validator_to_macroforge_text(v)->0 =~= "itemsCount"@ + rest);
        },
    }
}

/// The name of a date validator's variant, as written in Rust.
pub open spec fn date_variant_name(v: DateValidatorV) -> Seq<char> {
    match v {
        DateValidatorV::ValidDate => "ValidDate"@,
        DateValidatorV::GreaterThanDate(_) => "GreaterThanDate"@,
        DateValidatorV::GreaterThanOrEqualToDate(_) => "GreaterThanOrEqualToDate"@,
        DateValidatorV::LessThanDate(_) => "LessThanDate"@,
        DateValidatorV::LessThanOrEqualToDate(_) => "LessThanOrEqualToDate"@,
        DateValidatorV::BetweenDate(_, _) => "BetweenDate"@,
    }
}

/// Each date validator's Macroforge text names its own comparison: it is
/// the validator's own name with the first letter made small, alone or
/// followed by its arguments in parentheses.
pub proof fn lemma_date_text_names_validator(v: DateValidatorV)
    ensures
        date_validator_to_macroforge_text(v) is Some,
        begins_with_name(date_validator_to_macroforge_text(v)->0, lower_first(date_variant_name(v))),
{
    reveal_strlit("(");
    reveal_strlit(")");
    reveal_strlit("(\"");
    reveal_strlit("\")");
    reveal_strlit("\", \"");
    match v {
        DateValidatorV::ValidDate => {
            reveal_strlit("ValidDate");
            reveal_strlit("validDate");
            assert(lower_first("ValidDate"@) =~= "validDate"@);
            let rest = Seq::<char>::empty();
            lemma_begins_with_name("validDate"@, rest);
            assert(date_validator_to_macroforge_text(v)->0 =~= "validDate"@ + rest);
        },
        DateValidatorV::GreaterThanDate(a) => {
            reveal_strlit("GreaterThanDate");
            reveal_strlit("greaterThanDate");
            assert(lower_first("GreaterThanDate"@) =~= "greaterThanDate"@);
            let rest = "(\""@ + escape_quotes(a) + "\")"@;
            lemma_begins_with_name("greaterThanDate"@, rest);
            assert(date_validator_to_macroforge_text(v)->0 =~= "greaterThanDate"@ + rest);
        },
        DateValidatorV::GreaterThanOrEqualToDate(a) => {
            reveal_strlit("GreaterThanOrEqualToDate");
            reveal_strlit("greaterThanOrEqualToDate");
            assert(lower_first("GreaterThanOrEqualToDate"@) =~= "greaterThanOrEqualToDate"@);
            let rest = "(\""@ + escape_quotes(a) + "\")"@;
            lemma_begins_with_name("greaterThanOrEqualToDate"@, rest);
            assert(date_validator_to_macroforge_text(v)->0 =~= "greaterThanOrEqualToDate"@ + rest);
        },
        DateValidatorV::LessThanDate(a) => {
            reveal_strlit("LessThanDate");
            reveal_strlit("lessThanDate");
            assert(lower_first("LessThanDate"@) =~= "lessThanDate"@);
            let rest = "(\""@ + escape_quotes(a) + "\")"@;
            lemma_begins_with_name("lessThanDate"@, rest);
            assert(date_validator_to_macroforge_text(v)->0 =~= "lessThanDate"@ + rest);
        },
        DateValidatorV::LessThanOrEqualToDate(a) => {
            reveal_strlit("LessThanOrEqualToDate");
            reveal_strlit("lessThanOrEqualToDate");
            assert(lower_first("LessThanOrEqualToDate"@) =~= "lessThanOrEqualToDate"@);
            let rest = "(\""@ + escape_quotes(a) + "\")"@;
            lemma_begins_with_name("lessThanOrEqualToDate"@, rest);
            assert(date_validator_to_macroforge_text(v)->0 =~= "lessThanOrEqualToDate"@ + rest);
        },
        DateValidatorV::BetweenDate(a, b) => {
            reveal_strlit("BetweenDate");
            reveal_strlit("betweenDate");
            assert(lower_first("BetweenDate"@) =~= "betweenDate"@);
            let rest = "(\""@ + escape_quotes(a) + "\", \""@ + escape_quotes(b) + "\")"@;
            lemma_begins_with_name("betweenDate"@, rest);
            assert(date_validator_to_macroforge_text(v)->0 =~= "betweenDate"@ + rest);
        },
    }
}

/// The name of a BigInt validator's variant, as written in Rust.
pub open spec fn bigint_variant_name(v: BigIntValidatorV) -> Seq<char> {
    match v {
        BigIntValidatorV::PositiveBigInt => "PositiveBigInt"@,
        BigIntValidatorV::NegativeBigInt => "NegativeBigInt"@,
        BigIntValidatorV::NonPositiveBigInt => "NonPositiveBigInt"@,
        BigIntValidatorV::NonNegativeBigInt => "NonNegativeBigInt"@,
        BigIntValidatorV::GreaterThanBigInt(_) => "GreaterThanBigInt"@,
        BigIntValidatorV::GreaterThanOrEqualToBigInt(_) => "GreaterThanOrEqualToBigInt"@,
        BigIntValidatorV::LessThanBigInt(_) => "LessThanBigInt"@,
        BigIntValidatorV::LessThanOrEqualToBigInt(_) => "LessThanOrEqualToBigInt"@,
        BigIntValidatorV::BetweenBigInt(_, _) => "BetweenBigInt"@,
    }
}

/// Each bigint validator's Macroforge text names its own comparison: it is
/// the validator's own name with the first letter made small, alone or
/// followed by its arguments in parentheses.
pub proof fn lemma_bigint_text_names_validator(v: BigIntValidatorV)
    ensures
        bigint_validator_to_macroforge_text(v) is Some,
        begins_with_name(bigint_validator_to_macroforge_text(v)->0, lower_first(bigint_variant_name(v))),
{
    reveal_strlit("(");
    reveal_strlit(")");
    reveal_strlit("(\"");
    reveal_strlit("\")");
    reveal_strlit("\", \"");
    match v {
        BigIntValidatorV::PositiveBigInt => {
            reveal_strlit("PositiveBigInt");
            reveal_strlit("positiveBigInt");
            assert(lower_first("PositiveBigInt"@) =~= "positiveBigInt"@);
            let rest = Seq::<char>::empty();
            lemma_begins_with_name("positiveBigInt"@, rest);
            assert(bigint_validator_to_macroforge_text(v)->0 =~= "positiveBigInt"@ + rest);
        },
        BigIntValidatorV::NegativeBigInt => {
            reveal_strlit("NegativeBigInt");
            reveal_strlit("negativeBigInt");
            assert(lower_first("NegativeBigInt"@) =~= "negativeBigInt"@);
            let rest = Seq::<char>::empty();
            lemma_begins_with_name("negativeBigInt"@, rest);
            assert(bigint_validator_to_macroforge_text(v)->0 =~= "negativeBigInt"@ + rest);
        },
        BigIntValidatorV::NonPositiveBigInt => {
            reveal_strlit("NonPositiveBigInt");
            reveal_strlit("nonPositiveBigInt");
            assert(lower_first("NonPositiveBigInt"@) =~= "nonPositiveBigInt"@);
            let rest = Seq::<char>::empty();
            lemma_begins_with_name("nonPositiveBigInt"@, rest);
            assert(bigint_validator_to_macroforge_text(v)->0 =~= "nonPositiveBigInt"@ + rest);
        },
        BigIntValidatorV::NonNegativeBigInt => {
            reveal_strlit("NonNegativeBigInt");
            reveal_strlit("nonNegativeBigInt");
            assert(lower_first("NonNegativeBigInt"@) =~= "nonNegativeBigInt"@);
            let rest = Seq::<char>::empty();
            lemma_begins_with_name("nonNegativeBigInt"@, rest);
            assert(bigint_validator_to_macroforge_text(v)->0 =~= "nonNegativeBigInt"@ + rest);
        },
        BigIntValidatorV::GreaterThanBigInt(a) => {
            reveal_strlit("GreaterThanBigInt");
            reveal_strlit("greaterThanBigInt");
            assert(lower_first("GreaterThanBigInt"@) =~= "greaterThanBigInt"@);
            let rest = "(\""@ + escape_quotes(a) + "\")"@;
            lemma_begins_with_name("greaterThanBigInt"@, rest);
            assert(bigint_validator_to_macroforge_text(v)->0 =~= "greaterThanBigInt"@ + rest);
        },
        BigIntValidatorV::GreaterThanOrEqualToBigInt(a) => {
            reveal_strlit("GreaterThanOrEqualToBigInt");
            reveal_strlit("greaterThanOrEqualToBigInt");
            assert(lower_first("GreaterThanOrEqualToBigInt"@) =~= "greaterThanOrEqualToBigInt"@);
            let rest = "(\""@ + escape_quotes(a) + "\")"@;
            lemma_begins_with_name("greaterThanOrEqualToBigInt"@, rest);
            assert(bigint_validator_to_macroforge_text(v)->0 =~= "greaterThanOrEqualToBigInt"@ + rest);
        },
        BigIntValidatorV::LessThanBigInt(a) => {
            reveal_strlit("LessThanBigInt");
            reveal_strlit("lessThanBigInt");
            assert(lower_first("LessThanBigInt"@) =~= "lessThanBigInt"@);
            let rest = "(\""@ + escape_quotes(a) + "\")"@;
            lemma_begins_with_name("lessThanBigInt"@, rest);
            assert(bigint_validator_to_macroforge_text(v)->0 =~= "lessThanBigInt"@ + rest);
        },
        BigIntValidatorV::LessThanOrEqualToBigInt(a) => {
            reveal_strlit("LessThanOrEqualToBigInt");
            reveal_strlit("lessThanOrEqualToBigInt");
            assert(lower_first("LessThanOrEqualToBigInt"@) =~= "lessThanOrEqualToBigInt"@);
            let rest = "(\""@ + escape_quotes(a) + "\")"@;
            lemma_begins_with_name("lessThanOrEqualToBigInt"@, rest);
            assert(bigint_validator_to_macroforge_text(v)->0 =~= "lessThanOrEqualToBigInt"@ + rest);
        },
        BigIntValidatorV::BetweenBigInt(a, b) => {
            reveal_strlit("BetweenBigInt");
            reveal_strlit("betweenBigInt");
            assert(lower_first("BetweenBigInt"@) =~= "betweenBigInt"@);
            let rest = "(\""@ + escape_quotes(a) + "\", \""@ + escape_quotes(b) + "\")"@;
            lemma_begins_with_name("betweenBigInt"@, rest);
            assert(bigint_validator_to_macroforge_text(v)->0 =~= "betweenBigInt"@ + rest);
        },
    }
}

/// The name of a BigDecimal validator's variant, as written in Rust.
pub open spec fn bigdecimal_variant_name(v: BigDecimalValidatorV) -> Seq<char> {
    match v {
        BigDecimalValidatorV::PositiveBigDecimal => "PositiveBigDecimal"@,
        BigDecimalValidatorV::NegativeBigDecimal => "NegativeBigDecimal"@,
        BigDecimalValidatorV::NonPositiveBigDecimal => "NonPositiveBigDecimal"@,
        BigDecimalValidatorV::NonNegativeBigDecimal => "NonNegativeBigDecimal"@,
        BigDecimalValidatorV::GreaterThanBigDecimal(_) => "GreaterThanBigDecimal"@,
        BigDecimalValidatorV::GreaterThanOrEqualToBigDecimal(_) => "GreaterThanOrEqualToBigDecimal"@,
        BigDecimalValidatorV::LessThanBigDecimal(_) => "LessThanBigDecimal"@,
        BigDecimalValidatorV::LessThanOrEqualToBigDecimal(_) => "LessThanOrEqualToBigDecimal"@,
        BigDecimalValidatorV::BetweenBigDecimal(_, _) => "BetweenBigDecimal"@,
    }
}

/// Each bigdecimal validator's Macroforge text names its own comparison: it is
/// the validator's own name with the first letter made small, alone or
/// followed by its arguments in parentheses.
pub proof fn lemma_bigdecimal_text_names_validator(v: BigDecimalValidatorV)
    ensures
        bigdecimal_validator_to_macroforge_text(v) is Some,
        begins_with_name(bigdecimal_validator_to_macroforge_text(v)->0, lower_first(bigdecimal_variant_name(v))),
{
    reveal_strlit("(");
    reveal_strlit(")");
    reveal_strlit("(\"");
    reveal_strlit("\")");
    reveal_strlit("\", \"");
    match v {
        BigDecimalValidatorV::PositiveBigDecimal => {
            reveal_strlit("PositiveBigDecimal");
            reveal_strlit("positiveBigDecimal");
            assert(lower_first("PositiveBigDecimal"@) =~= "positiveBigDecimal"@);
            let rest = Seq::<char>::empty();
            lemma_begins_with_name("positiveBigDecimal"@, rest);
            assert(bigdecimal_validator_to_macroforge_text(v)->0 =~= "positiveBigDecimal"@ + rest);
        },
        BigDecimalValidatorV::NegativeBigDecimal => {
            reveal_strlit("NegativeBigDecimal");
            reveal_strlit("negativeBigDecimal");
            assert(lower_first("NegativeBigDecimal"@) =~= "negativeBigDecimal"@);
            let rest = Seq::<char>::empty();
            lemma_begins_with_name("negativeBigDecimal"@, rest);
            assert(bigdecimal_validator_to_macroforge_text(v)->0 =~= "negativeBigDecimal"@ + rest);
        },
        BigDecimalValidatorV::NonPositiveBigDecimal => {
            reveal_strlit("NonPositiveBigDecimal");
            reveal_strlit("nonPositiveBigDecimal");
            assert(lower_first("NonPositiveBigDecimal"@) =~= "nonPositiveBigDecimal"@);
            let rest = Seq::<char>::empty();
            lemma_begins_with_name("nonPositiveBigDecimal"@, rest);
            assert(bigdecimal_validator_to_macroforge_text(v)->0 =~= "nonPositiveBigDecimal"@ + rest);
        },
        BigDecimalValidatorV::NonNegativeBigDecimal => {
            reveal_strlit("NonNegativeBigDecimal");
            reveal_strlit("nonNegativeBigDecimal");
            assert(lower_first("NonNegativeBigDecimal"@) =~= "nonNegativeBigDecimal"@);
            let rest = Seq::<char>::empty();
            lemma_begins_with_name("nonNegativeBigDecimal"@, rest);
            assert(bigdecimal_validator_to_macroforge_text(v)->0 =~= "nonNegativeBigDecimal"@ + rest);
        },
        BigDecimalValidatorV::GreaterThanBigDecimal(a) => {
            reveal_strlit("GreaterThanBigDecimal");
            reveal_strlit("greaterThanBigDecimal");
            assert(lower_first("GreaterThanBigDecimal"@) =~= "greaterThanBigDecimal"@);
            let rest = "(\""@ + escape_quotes(a) + "\")"@;
            lemma_begins_with_name("greaterThanBigDecimal"@, rest);
            assert(bigdecimal_validator_to_macroforge_text(v)->0 =~= "greaterThanBigDecimal"@ + rest);
        },
        BigDecimalValidatorV::GreaterThanOrEqualToBigDecimal(a) => {
            reveal_strlit("GreaterThanOrEqualToBigDecimal");
            reveal_strlit("greaterThanOrEqualToBigDecimal");
            assert(lower_first("GreaterThanOrEqualToBigDecimal"@) =~= "greaterThanOrEqualToBigDecimal"@);
            let rest = "(\""@ + escape_quotes(a) + "\")"@;
            lemma_begins_with_name("greaterThanOrEqualToBigDecimal"@, rest);
            assert(bigdecimal_validator_to_macroforge_text(v)->0 =~= "greaterThanOrEqualToBigDecimal"@ + rest);
        },
        BigDecimalValidatorV::LessThanBigDecimal(a) => {
            reveal_strlit("LessThanBigDecimal");
            reveal_strlit("lessThanBigDecimal");
            assert(lower_first("LessThanBigDecimal"@) =~= "lessThanBigDecimal"@);
            let rest = "(\""@ + escape_quotes(a) + "\")"@;
            lemma_begins_with_name("lessThanBigDecimal"@, rest);
            assert(bigdecimal_validator_to_macroforge_text(v)->0 =~= "lessThanBigDecimal"@ + rest);
        },
        BigDecimalValidatorV::LessThanOrEqualToBigDecimal(a) => {
            reveal_strlit("LessThanOrEqualToBigDecimal");
            reveal_strlit("lessThanOrEqualToBigDecimal");
            assert(lower_first("LessThanOrEqualToBigDecimal"@) =~= "lessThanOrEqualToBigDecimal"@);
            let rest = "(\""@ + escape_quotes(a) + "\")"@;
            lemma_begins_with_name("lessThanOrEqualToBigDecimal"@, rest);
            assert(bigdecimal_validator_to_macroforge_text(v)->0 =~= "lessThanOrEqualToBigDecimal"@ + rest);
        },
        BigDecimalValidatorV::BetweenBigDecimal(a, b) => {
            reveal_strlit("BetweenBigDecimal");
            reveal_strlit("betweenBigDecimal");
            assert(lower_first("BetweenBigDecimal"@) =~= "betweenBigDecimal"@);
            let rest = "(\""@ + escape_quotes(a) + "\", \""@ + escape_quotes(b) + "\")"@;
            lemma_begins_with_name("betweenBigDecimal"@, rest);
            assert(bigdecimal_validator_to_macroforge_text(v)->0 =~= "betweenBigDecimal"@ + rest);
        },
    }
}

/// The name of a duration validator's variant, as written in Rust.
pub open spec fn duration_variant_name(v: DurationValidatorV) -> Seq<char> {
    match v {
        DurationValidatorV::GreaterThanDuration(_) => "GreaterThanDuration"@,
        DurationValidatorV::GreaterThanOrEqualToDuration(_) => "GreaterThanOrEqualToDuration"@,
        DurationValidatorV::LessThanDuration(_) => "LessThanDuration"@,
        DurationValidatorV::LessThanOrEqualToDuration(_) => "LessThanOrEqualToDuration"@,
        DurationValidatorV::BetweenDuration(_, _) => "BetweenDuration"@,
    }
}

/// Each duration validator's Macroforge text names its own comparison: it is
/// the validator's own name with the first letter made small, alone or
/// followed by its arguments in parentheses.
pub proof fn lemma_duration_text_names_validator(v: DurationValidatorV)
    ensures
        duration_validator_to_macroforge_text(v) is Some,
        begins_with_name(duration_validator_to_macroforge_text(v)->0, lower_first(duration_variant_name(v))),
{
    reveal_strlit("(");
    reveal_strlit(")");
    reveal_strlit("(\"");
    reveal_strlit("\")");
    reveal_strlit("\", \"");
    match v {
        DurationValidatorV::GreaterThanDuration(a) => {
            reveal_strlit("GreaterThanDuration");
            reveal_strlit("greaterThanDuration");
            assert(lower_first("GreaterThanDuration"@) =~= "greaterThanDuration"@);
            let rest = "(\""@ + escape_quotes(a) + "\")"@;
            lemma_begins_with_name("greaterThanDuration"@, rest);
            assert(duration_validator_to_macroforge_text(v)->0 =~= "greaterThanDuration"@ + rest);
        },
        DurationValidatorV::GreaterThanOrEqualToDuration(a) => {
            reveal_strlit("GreaterThanOrEqualToDuration");
            reveal_strlit("greaterThanOrEqualToDuration");
            assert(lower_first("GreaterThanOrEqualToDuration"@) =~= "greaterThanOrEqualToDuration"@);
            let rest = "(\""@ + escape_quotes(a) + "\")"@;
            lemma_begins_with_name("greaterThanOrEqualToDuration"@, rest);
            assert(duration_validator_to_macroforge_text(v)->0 =~= "greaterThanOrEqualToDuration"@ + rest);
        },
        DurationValidatorV::LessThanDuration(a) => {
            reveal_strlit("LessThanDuration");
            reveal_strlit("lessThanDuration");
            assert(lower_first("LessThanDuration"@) =~= "lessThanDuration"@);
            let rest = "(\""@ + escape_quotes(a) + "\")"@;
            lemma_begins_with_name("lessThanDuration"@, rest);
            assert(duration_validator_to_macroforge_text(v)->0 =~= "lessThanDuration"@ + rest);
        },
        DurationValidatorV::LessThanOrEqualToDuration(a) => {
            reveal_strlit("LessThanOrEqualToDuration");
            reveal_strlit("lessThanOrEqualToDuration");
            assert(lower_first("LessThanOrEqualToDuration"@) =~= "lessThanOrEqualToDuration"@);
            let rest = "(\""@ + escape_quotes(a) + "\")"@;
            lemma_begins_with_name("lessThanOrEqualToDuration"@, rest);
            assert(duration_validator_to_macroforge_text(v)->0 =~= "lessThanOrEqualToDuration"@ + rest);
        },
        DurationValidatorV::BetweenDuration(a, b) => {
            reveal_strlit("BetweenDuration");
            reveal_strlit("betweenDuration");
            assert(lower_first("BetweenDuration"@) =~= "betweenDuration"@);
            let rest = "(\""@ + escape_quotes(a) + "\", \""@ + escape_quotes(b) + "\")"@;
            lemma_begins_with_name("betweenDuration"@, rest);
            assert(duration_validator_to_macroforge_text(v)->0 =~= "betweenDuration"@ + rest);
        },
    }
}

} // verus!
