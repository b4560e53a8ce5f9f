//! Validators attached to fields and types, and their models.

use vstd::prelude::*;
use crate::number::Number;

verus! {
/// Checks and transformations of text values.
#[derive(Debug, Clone, PartialEq, Eq, Hash)]
pub enum StringValidator {
    String,
    Alpha,
    Alphanumeric,
    Base64,
    Base64Url,
    Capitalize,
    CreditCard,
    Date,
    DateEpoch,
    DateIso,
    Digits,
    Email,
    Hex,
    Integer,
    Ip,
    IpV4,
    IpV6,
    Json,
    Lower,
    Upper,
    NonEmpty,
    Numeric,
    Regex,
    Semver,
    Trim,
    Url,
    Uuid,
    UuidV1,
    UuidV2,
    UuidV3,
    UuidV4,
    UuidV5,
    UuidV6,
    UuidV7,
    UuidV8,
    Lowercased,
    LowerPreformatted,
    Uppercased,
    UpperPreformatted,
    Trimmed,
    TrimPreformatted,
    Capitalized,
    CapitalizePreformatted,
    Uncapitalized,
    Normalize,
    NormalizeNFC,
    NormalizeNFD,
    NormalizeNFKC,
    NormalizeNFKD,
    NormalizeNFCPreformatted,
    NormalizeNFDPreformatted,
    NormalizeNFKCPreformatted,
    NormalizeNFKDPreformatted,
    DateParse,
    DateEpochParse,
    DateIsoParse,
    IntegerParse,
    NumericParse,
    JsonParse,
    UrlParse,
    MinLength(usize),
    MaxLength(usize),
    Length(String),
    StartsWith(String),
    EndsWith(String),
    Includes(String),
    RegexLiteral(String),
    Literal(String),
    StringEmbedded(String),
}

/// The model of a [`StringValidator`]: its text held as `Seq<char>`.
pub enum StringValidatorV {
    String,
    Alpha,
    Alphanumeric,
    Base64,
    Base64Url,
    Capitalize,
    CreditCard,
    Date,
    DateEpoch,
    DateIso,
    Digits,
    Email,
    Hex,
    Integer,
    Ip,
    IpV4,
    IpV6,
    Json,
    Lower,
    Upper,
    NonEmpty,
    Numeric,
    Regex,
    Semver,
    Trim,
    Url,
    Uuid,
    UuidV1,
    UuidV2,
    UuidV3,
    UuidV4,
    UuidV5,
    UuidV6,
    UuidV7,
    UuidV8,
    Lowercased,
    LowerPreformatted,
    Uppercased,
    UpperPreformatted,
    Trimmed,
    TrimPreformatted,
    Capitalized,
    CapitalizePreformatted,
    Uncapitalized,
    Normalize,
    NormalizeNFC,
    NormalizeNFD,
    NormalizeNFKC,
    NormalizeNFKD,
    NormalizeNFCPreformatted,
    NormalizeNFDPreformatted,
    NormalizeNFKCPreformatted,
    NormalizeNFKDPreformatted,
    DateParse,
    DateEpochParse,
    DateIsoParse,
    IntegerParse,
    NumericParse,
    JsonParse,
    UrlParse,
    MinLength(usize),
    MaxLength(usize),
    Length(Seq<char>),
    StartsWith(Seq<char>),
    EndsWith(Seq<char>),
    Includes(Seq<char>),
    RegexLiteral(Seq<char>),
    Literal(Seq<char>),
    StringEmbedded(Seq<char>),
}

impl View for StringValidator {
    type V = StringValidatorV;

    open spec fn view(&self) -> StringValidatorV {
        match self {
            StringValidator::String => StringValidatorV::String,
            StringValidator::Alpha => StringValidatorV::Alpha,
            StringValidator::Alphanumeric => StringValidatorV::Alphanumeric,
            StringValidator::Base64 => StringValidatorV::Base64,
            StringValidator::Base64Url => StringValidatorV::Base64Url,
            StringValidator::Capitalize => StringValidatorV::Capitalize,
            StringValidator::CreditCard => StringValidatorV::CreditCard,
            StringValidator::Date => StringValidatorV::Date,
            StringValidator::DateEpoch => StringValidatorV::DateEpoch,
            StringValidator::DateIso => StringValidatorV::DateIso,
            StringValidator::Digits => StringValidatorV::Digits,
            StringValidator::Email => StringValidatorV::Email,
            StringValidator::Hex => StringValidatorV::Hex,
            StringValidator::Integer => StringValidatorV::Integer,
            StringValidator::Ip => StringValidatorV::Ip,
            StringValidator::IpV4 => StringValidatorV::IpV4,
            StringValidator::IpV6 => StringValidatorV::IpV6,
            StringValidator::Json => StringValidatorV::Json,
            StringValidator::Lower => StringValidatorV::Lower,
            StringValidator::Upper => StringValidatorV::Upper,
            StringValidator::NonEmpty => StringValidatorV::NonEmpty,
            StringValidator::Numeric => StringValidatorV::Numeric,
            StringValidator::Regex => StringValidatorV::Regex,
            StringValidator::Semver => StringValidatorV::Semver,
            StringValidator::Trim => StringValidatorV::Trim,
            StringValidator::Url => StringValidatorV::Url,
            StringValidator::Uuid => StringValidatorV::Uuid,
            StringValidator::UuidV1 => StringValidatorV::UuidV1,
            StringValidator::UuidV2 => StringValidatorV::UuidV2,
            StringValidator::UuidV3 => StringValidatorV::UuidV3,
            StringValidator::UuidV4 => StringValidatorV::UuidV4,
            StringValidator::UuidV5 => StringValidatorV::UuidV5,
            StringValidator::UuidV6 => StringValidatorV::UuidV6,
            StringValidator::UuidV7 => StringValidatorV::UuidV7,
            StringValidator::UuidV8 => StringValidatorV::UuidV8,
            StringValidator::Lowercased => StringValidatorV::Lowercased,
            StringValidator::LowerPreformatted => StringValidatorV::LowerPreformatted,
            StringValidator::Uppercased => StringValidatorV::Uppercased,
            StringValidator::UpperPreformatted => StringValidatorV::UpperPreformatted,
            StringValidator::Trimmed => StringValidatorV::Trimmed,
            StringValidator::TrimPreformatted => StringValidatorV::TrimPreformatted,
            StringValidator::Capitalized => StringValidatorV::Capitalized,
            StringValidator::CapitalizePreformatted => StringValidatorV::CapitalizePreformatted,
            StringValidator::Uncapitalized => StringValidatorV::Uncapitalized,
            StringValidator::Normalize => StringValidatorV::Normalize,
            StringValidator::NormalizeNFC => StringValidatorV::NormalizeNFC,
            StringValidator::NormalizeNFD => StringValidatorV::NormalizeNFD,
            StringValidator::NormalizeNFKC => StringValidatorV::NormalizeNFKC,
            StringValidator::NormalizeNFKD => StringValidatorV::NormalizeNFKD,
            StringValidator::NormalizeNFCPreformatted => StringValidatorV::NormalizeNFCPreformatted,
            StringValidator::NormalizeNFDPreformatted => StringValidatorV::NormalizeNFDPreformatted,
            StringValidator::NormalizeNFKCPreformatted => StringValidatorV::NormalizeNFKCPreformatted,
            StringValidator::NormalizeNFKDPreformatted => StringValidatorV::NormalizeNFKDPreformatted,
            StringValidator::DateParse => StringValidatorV::DateParse,
            StringValidator::DateEpochParse => StringValidatorV::DateEpochParse,
            StringValidator::DateIsoParse => StringValidatorV::DateIsoParse,
            StringValidator::IntegerParse => StringValidatorV::IntegerParse,
            StringValidator::NumericParse => StringValidatorV::NumericParse,
            StringValidator::JsonParse => StringValidatorV::JsonParse,
            StringValidator::UrlParse => StringValidatorV::UrlParse,
            StringValidator::MinLength(a) => StringValidatorV::MinLength(*a),
            StringValidator::MaxLength(a) => StringValidatorV::MaxLength(*a),
            StringValidator::Length(a) => StringValidatorV::Length(a@),
            StringValidator::StartsWith(a) => StringValidatorV::StartsWith(a@),
            StringValidator::EndsWith(a) => StringValidatorV::EndsWith(a@),
            StringValidator::Includes(a) => StringValidatorV::Includes(a@),
            StringValidator::RegexLiteral(a) => StringValidatorV::RegexLiteral(a@),
            StringValidator::Literal(a) => StringValidatorV::Literal(a@),
            StringValidator::StringEmbedded(a) => StringValidatorV::StringEmbedded(a@),
        }
    }
}

/// Checks of numeric values.
#[derive(Debug, Clone, PartialEq, Eq, Hash)]
pub enum NumberValidator {
    Int,
    Finite,
    NonNaN,
    Positive,
    Negative,
    NonPositive,
    NonNegative,
    Uint8,
    GreaterThan(Number),
    GreaterThanOrEqualTo(Number),
    LessThan(Number),
    LessThanOrEqualTo(Number),
    MultipleOf(Number),
    Between(Number, Number),
}

/// The model of a [`NumberValidator`]: its text held as `Seq<char>`.
pub enum NumberValidatorV {
    Int,
    Finite,
    NonNaN,
    Positive,
    Negative,
    NonPositive,
    NonNegative,
    Uint8,
    GreaterThan(Seq<char>),
    GreaterThanOrEqualTo(Seq<char>),
    LessThan(Seq<char>),
    LessThanOrEqualTo(Seq<char>),
    MultipleOf(Seq<char>),
    Between(Seq<char>, Seq<char>),
}

impl View for NumberValidator {
    type V = NumberValidatorV;

    open spec fn view(&self) -> NumberValidatorV {
        match self {
            NumberValidator::Int => NumberValidatorV::Int,
            NumberValidator::Finite => NumberValidatorV::Finite,
            NumberValidator::NonNaN => NumberValidatorV::NonNaN,
            NumberValidator::Positive => NumberValidatorV::Positive,
            NumberValidator::Negative => NumberValidatorV::Negative,
            NumberValidator::NonPositive => NumberValidatorV::NonPositive,
            NumberValidator::NonNegative => NumberValidatorV::NonNegative,
            NumberValidator::Uint8 => NumberValidatorV::Uint8,
            NumberValidator::GreaterThan(a) => NumberValidatorV::GreaterThan(a@),
            NumberValidator::GreaterThanOrEqualTo(a) => NumberValidatorV::GreaterThanOrEqualTo(a@),
            NumberValidator::LessThan(a) => NumberValidatorV::LessThan(a@),
            NumberValidator::LessThanOrEqualTo(a) => NumberValidatorV::LessThanOrEqualTo(a@),
            NumberValidator::MultipleOf(a) => NumberValidatorV::MultipleOf(a@),
            NumberValidator::Between(a, b) => NumberValidatorV::Between(a@, b@),
        }
    }
}

/// Checks of the length of arrays.
#[derive(Debug, Clone, PartialEq, Eq, Hash)]
pub enum ArrayValidator {
    MinItems(usize),
    MaxItems(usize),
    ItemsCount(usize),
}

/// The model of a [`ArrayValidator`]: its text held as `Seq<char>`.
pub enum ArrayValidatorV {
    MinItems(usize),
    MaxItems(usize),
    ItemsCount(usize),
}

impl View for ArrayValidator {
    type V = ArrayValidatorV;

    open spec fn view(&self) -> ArrayValidatorV {
        match self {
            ArrayValidator::MinItems(a) => ArrayValidatorV::MinItems(*a),
            ArrayValidator::MaxItems(a) => ArrayValidatorV::MaxItems(*a),
            ArrayValidator::ItemsCount(a) => ArrayValidatorV::ItemsCount(*a),
        }
    }
}

/// Checks of dates, given as text.
#[derive(Debug, Clone, PartialEq, Eq, Hash)]
pub enum DateValidator {
    ValidDate,
    GreaterThanDate(String),
    GreaterThanOrEqualToDate(String),
    LessThanDate(String),
    LessThanOrEqualToDate(String),
    BetweenDate(String, String),
}

/// The model of a [`DateValidator`]: its text held as `Seq<char>`.
pub enum DateValidatorV {
    ValidDate,
    GreaterThanDate(Seq<char>),
    GreaterThanOrEqualToDate(Seq<char>),
    LessThanDate(Seq<char>),
    LessThanOrEqualToDate(Seq<char>),
    BetweenDate(Seq<char>, Seq<char>),
}

impl View for DateValidator {
    type V = DateValidatorV;

    open spec fn view(&self) -> DateValidatorV {
        match self {
            DateValidator::ValidDate => DateValidatorV::ValidDate,
            DateValidator::GreaterThanDate(a) => DateValidatorV::GreaterThanDate(a@),
            DateValidator::GreaterThanOrEqualToDate(a) => DateValidatorV::GreaterThanOrEqualToDate(a@),
            DateValidator::LessThanDate(a) => DateValidatorV::LessThanDate(a@),
            DateValidator::LessThanOrEqualToDate(a) => DateValidatorV::LessThanOrEqualToDate(a@),
            DateValidator::BetweenDate(a, b) => DateValidatorV::BetweenDate(a@, b@),
        }
    }
}

/// Checks of big integers, given as text.
#[derive(Debug, Clone, PartialEq, Eq, Hash)]
pub enum BigIntValidator {
    PositiveBigInt,
    NegativeBigInt,
    NonPositiveBigInt,
    NonNegativeBigInt,
    GreaterThanBigInt(String),
    GreaterThanOrEqualToBigInt(String),
    LessThanBigInt(String),
    LessThanOrEqualToBigInt(String),
    BetweenBigInt(String, String),
}

/// The model of a [`BigIntValidator`]: its text held as `Seq<char>`.
pub enum BigIntValidatorV {
    PositiveBigInt,
    NegativeBigInt,
    NonPositiveBigInt,
    NonNegativeBigInt,
    GreaterThanBigInt(Seq<char>),
    GreaterThanOrEqualToBigInt(Seq<char>),
    LessThanBigInt(Seq<char>),
    LessThanOrEqualToBigInt(Seq<char>),
    BetweenBigInt(Seq<char>, Seq<char>),
}

impl View for BigIntValidator {
    type V = BigIntValidatorV;

    open spec fn view(&self) -> BigIntValidatorV {
        match self {
            BigIntValidator::PositiveBigInt => BigIntValidatorV::PositiveBigInt,
            BigIntValidator::NegativeBigInt => BigIntValidatorV::NegativeBigInt,
            BigIntValidator::NonPositiveBigInt => BigIntValidatorV::NonPositiveBigInt,
            BigIntValidator::NonNegativeBigInt => BigIntValidatorV::NonNegativeBigInt,
            BigIntValidator::GreaterThanBigInt(a) => BigIntValidatorV::GreaterThanBigInt(a@),
            BigIntValidator::GreaterThanOrEqualToBigInt(a) => BigIntValidatorV::GreaterThanOrEqualToBigInt(a@),
            BigIntValidator::LessThanBigInt(a) => BigIntValidatorV::LessThanBigInt(a@),
            BigIntValidator::LessThanOrEqualToBigInt(a) => BigIntValidatorV::LessThanOrEqualToBigInt(a@),
            BigIntValidator::BetweenBigInt(a, b) => BigIntValidatorV::BetweenBigInt(a@, b@),
        }
    }
}

/// Checks of big decimals, given as text.
#[derive(Debug, Clone, PartialEq, Eq, Hash)]
pub enum BigDecimalValidator {
    PositiveBigDecimal,
    NegativeBigDecimal,
    NonPositiveBigDecimal,
    NonNegativeBigDecimal,
    GreaterThanBigDecimal(String),
    GreaterThanOrEqualToBigDecimal(String),
    LessThanBigDecimal(String),
    LessThanOrEqualToBigDecimal(String),
    BetweenBigDecimal(String, String),
}

/// The model of a [`BigDecimalValidator`]: its text held as `Seq<char>`.
pub enum BigDecimalValidatorV {
    PositiveBigDecimal,
    NegativeBigDecimal,
    NonPositiveBigDecimal,
    NonNegativeBigDecimal,
    GreaterThanBigDecimal(Seq<char>),
    GreaterThanOrEqualToBigDecimal(Seq<char>),
    LessThanBigDecimal(Seq<char>),
    LessThanOrEqualToBigDecimal(Seq<char>),
    BetweenBigDecimal(Seq<char>, Seq<char>),
}

impl View for BigDecimalValidator {
    type V = BigDecimalValidatorV;

    open spec fn view(&self) -> BigDecimalValidatorV {
        match self {
            BigDecimalValidator::PositiveBigDecimal => BigDecimalValidatorV::PositiveBigDecimal,
            BigDecimalValidator::NegativeBigDecimal => BigDecimalValidatorV::NegativeBigDecimal,
            BigDecimalValidator::NonPositiveBigDecimal => BigDecimalValidatorV::NonPositiveBigDecimal,
            BigDecimalValidator::NonNegativeBigDecimal => BigDecimalValidatorV::NonNegativeBigDecimal,
            BigDecimalValidator::GreaterThanBigDecimal(a) => BigDecimalValidatorV::GreaterThanBigDecimal(a@),
            BigDecimalValidator::GreaterThanOrEqualToBigDecimal(a) => BigDecimalValidatorV::GreaterThanOrEqualToBigDecimal(a@),
            BigDecimalValidator::LessThanBigDecimal(a) => BigDecimalValidatorV::LessThanBigDecimal(a@),
            BigDecimalValidator::LessThanOrEqualToBigDecimal(a) => BigDecimalValidatorV::LessThanOrEqualToBigDecimal(a@),
            BigDecimalValidator::BetweenBigDecimal(a, b) => BigDecimalValidatorV::BetweenBigDecimal(a@, b@),
        }
    }
}

/// Checks of durations, given as text.
#[derive(Debug, Clone, PartialEq, Eq, Hash)]
pub enum DurationValidator {
    GreaterThanDuration(String),
    GreaterThanOrEqualToDuration(String),
    LessThanDuration(String),
    LessThanOrEqualToDuration(String),
    BetweenDuration(String, String),
}

/// The model of a [`DurationValidator`]: its text held as `Seq<char>`.
pub enum DurationValidatorV {
    GreaterThanDuration(Seq<char>),
    GreaterThanOrEqualToDuration(Seq<char>),
    LessThanDuration(Seq<char>),
    LessThanOrEqualToDuration(Seq<char>),
    BetweenDuration(Seq<char>, Seq<char>),
}

impl View for DurationValidator {
    type V = DurationValidatorV;

    open spec fn view(&self) -> DurationValidatorV {
        match self {
            DurationValidator::GreaterThanDuration(a) => DurationValidatorV::GreaterThanDuration(a@),
            DurationValidator::GreaterThanOrEqualToDuration(a) => DurationValidatorV::GreaterThanOrEqualToDuration(a@),
            DurationValidator::LessThanDuration(a) => DurationValidatorV::LessThanDuration(a@),
            DurationValidator::LessThanOrEqualToDuration(a) => DurationValidatorV::LessThanOrEqualToDuration(a@),
            DurationValidator::BetweenDuration(a, b) => DurationValidatorV::BetweenDuration(a@, b@),
        }
    }
}

/// A validator of any kind.
#[derive(Debug, Clone, PartialEq, Eq, Hash)]
pub enum Validator {
    StringValidator(StringValidator),
    NumberValidator(NumberValidator),
    ArrayValidator(ArrayValidator),
    DateValidator(DateValidator),
    BigIntValidator(BigIntValidator),
    BigDecimalValidator(BigDecimalValidator),
    DurationValidator(DurationValidator),
}

/// The model of a [`Validator`].
pub enum ValidatorV {
    StringValidator(StringValidatorV),
    NumberValidator(NumberValidatorV),
    ArrayValidator(ArrayValidatorV),
    DateValidator(DateValidatorV),
    BigIntValidator(BigIntValidatorV),
    BigDecimalValidator(BigDecimalValidatorV),
    DurationValidator(DurationValidatorV),
}

impl View for Validator {
    type V = ValidatorV;

    open spec fn view(&self) -> ValidatorV {
        match self {
            Validator::StringValidator(v) => ValidatorV::StringValidator(v@),
            Validator::NumberValidator(v) => ValidatorV::NumberValidator(v@),
            Validator::ArrayValidator(v) => ValidatorV::ArrayValidator(v@),
            Validator::DateValidator(v) => ValidatorV::DateValidator(v@),
            Validator::BigIntValidator(v) => ValidatorV::BigIntValidator(v@),
            Validator::BigDecimalValidator(v) => ValidatorV::BigDecimalValidator(v@),
            Validator::DurationValidator(v) => ValidatorV::DurationValidator(v@),
        }
    }
}

/// The models of a list of validators.
pub open spec fn validators_view(vs: Seq<Validator>) -> Seq<ValidatorV> {
    vs.map_values(|v: Validator| v@)
}

} // verus!
