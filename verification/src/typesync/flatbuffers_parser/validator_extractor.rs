//! Validators read from FlatBuffers `validate` attributes.
//!
//! A field or table can carry `(validate: "email, minLength(8)")`: a list
//! of validator names, each with an optional argument list in parentheses.

use vstd::prelude::*;
use crate::number::{Number, canonical_number, digits_value, digits_value_capped, is_digit};
use crate::text::{chars_of, first_index_of, owned, same_text, string_of, texts, trim, trim_chars};
use crate::typesync::flatbuffers_parser::ast::{FieldDef, Metadata, MetadataV, TableDef, attribute_value};
use crate::typesync::flatbuffers_parser::lexer::is_name_char;
use crate::validator::{
    ArrayValidator, ArrayValidatorV, NumberValidator, NumberValidatorV, StringValidator,
    StringValidatorV, Validator, ValidatorV, validators_view,
};

verus! {

/// Whether the char `c`, outside ASCII, is a word char (`\w`) to the
/// `regex` crate.
pub uninterp spec fn unicode_word_char(c: char) -> bool;

/// Whether `c` is a word char (`\w`) to the `regex` crate: on ASCII, a
/// letter, a digit or `_`.
pub open spec fn word_char(c: char) -> bool {
    if (c as u32) < 128 {
        is_name_char(c)
    } else {
        unicode_word_char(c)
    }
}

/// Whether `c` is a word char.
///
/// Trusted: asks the `regex` crate whether `c` alone matches `^\w$`. Its
/// documentation defines `\w` by Unicode's word characters, which on ASCII
/// are the letters, the digits and `_`; the contract says so, and names
/// the answer for other chars.
#[verifier::external_body]
fn is_word_char(c: char) -> (r: bool)
    ensures
        r == (if (c as u32) < 128 { is_name_char(c) } else { unicode_word_char(c) }),
{
    match regex::Regex::new(r"^\w$") {
        Ok(re) => re.is_match(&c.to_string()),
        Err(_) => false,
    }
}

/// Whether every char of `s` is ASCII.
pub open spec fn all_ascii(s: Seq<char>) -> bool {
    forall|i: int| 0 <= i < s.len() ==> (#[trigger] s[i] as u32) < 128
}

/// `s` with ASCII capitals made small.
pub open spec fn ascii_lowered(s: Seq<char>) -> Seq<char> {
    crate::number::lower_ascii(s)
}

/// The text `s`, which holds a char outside ASCII, in lower case, as
/// `str::to_lowercase` gives it.
pub uninterp spec fn unicode_lowercased(s: Seq<char>) -> Seq<char>;

/// `s` in lower case, as `str::to_lowercase` gives it: on ASCII text, with
/// `A`..`Z` made small and the rest kept.
pub open spec fn lowercased(s: Seq<char>) -> Seq<char> {
    if all_ascii(s) {
        ascii_lowered(s)
    } else {
        unicode_lowercased(s)
    }
}

/// `s` in lower case.
///
/// Trusted: calls `str::to_lowercase`, which maps each char to its Unicode
/// lower case; on ASCII text that makes `A`..`Z` small and keeps the rest.
/// The contract says so, and names the result for other text.
#[verifier::external_body]
fn lowercase(s: &str) -> (r: String)
    ensures
        r@ == (if all_ascii(s@) { ascii_lowered(s@) } else { unicode_lowercased(s@) }),
{
    s.to_lowercase()
}

/// The end of the run of word chars of `s` from `j`.
pub open spec fn word_end(s: Seq<char>, j: int) -> int
    decreases s.len() - j,
{
    if 0 <= j < s.len() && word_char(s[j]) {
        word_end(s, j + 1)
    } else {
        j
    }
}

/// The first word char of `s` from `j`, or the end.
pub open spec fn next_word(s: Seq<char>, j: int) -> int
    decreases s.len() - j,
{
    if 0 <= j < s.len() && !word_char(s[j]) {
        next_word(s, j + 1)
    } else {
        j
    }
}

/// The first `)` of `s` from `j`, or the end.
pub open spec fn next_close(s: Seq<char>, j: int) -> int
    decreases s.len() - j,
{
    if 0 <= j < s.len() && s[j] != ')' {
        next_close(s, j + 1)
    } else {
        j
    }
}

/// The validator mentions of `s` from `i` on: each a run of word chars,
/// with the text up to the next `)` when a `(` follows it directly and a
/// `)` comes later.
pub open spec fn mentions_from(s: Seq<char>, i: int) -> Seq<(Seq<char>, Option<Seq<char>>)>
    decreases s.len() - i,
{
    let k = next_word(s, i);
    if i < 0 || k >= s.len() || k < i {
        Seq::empty()
    } else {
        let e = word_end(s, k);
        if e <= k || e > s.len() {
            Seq::empty()
        } else if e < s.len() && s[e] == '(' && next_close(s, e + 1) < s.len() && next_close(s, e + 1) > e {
            let p = next_close(s, e + 1);
            seq![(s.subrange(k, e), Some(s.subrange(e + 1, p)))] + mentions_from(s, p + 1)
        } else {
            seq![(s.subrange(k, e), None)] + mentions_from(s, e)
        }
    }
}

/// The pieces of `s` between commas.
pub open spec fn comma_pieces(s: Seq<char>) -> Seq<Seq<char>>
    decreases s.len(),
{
    let i = first_index_of(s, ',');
    proof {
        crate::text::lemma_first_index_bound(s, ',');
    }
    if i < 0 {
        seq![s]
    } else {
        seq![s.take(i)] + comma_pieces(s.skip(i + 1))
    }
}

/// The arguments of a mention: its argument text cut at commas, each piece
/// trimmed; none without parentheses.
pub open spec fn argument_list(a: Option<Seq<char>>) -> Seq<Seq<char>> {
    match a {
        Some(t) => comma_pieces(t).map_values(|p: Seq<char>| trim(p)),
        None => Seq::empty(),
    }
}

/// The value of a `usize` text, as `str::parse::<usize>` reads it: an
/// optional `+`, then decimal digits.
pub open spec fn usize_value(s: Seq<char>) -> Option<usize> {
    let body = if s.len() > 0 && s[0] == '+' { s.drop_first() } else { s };
    if body.len() > 0 && crate::number::all_digits(body) && digits_value(body) <= usize::MAX {
        Some(digits_value(body) as usize)
    } else {
        None
    }
}

/// The `usize` value of the first argument, if it has one.
pub open spec fn first_usize(args: Seq<Seq<char>>) -> Option<usize> {
    if args.len() > 0 {
        usize_value(args[0])
    } else {
        None
    }
}

/// The number the first argument denotes, if it denotes one.
pub open spec fn first_number(args: Seq<Seq<char>>) -> Option<Seq<char>> {
    if args.len() > 0 {
        canonical_number(args[0])
    } else {
        None
    }
}

/// The end of the run of `"` of `s` from `j`.
pub open spec fn quotes_end(s: Seq<char>, j: int) -> int
    decreases s.len() - j,
{
    if 0 <= j < s.len() && s[j] == '"' {
        quotes_end(s, j + 1)
    } else {
        j
    }
}

/// The start of the run of `"` that ends `s` before `j`.
pub open spec fn quotes_start(s: Seq<char>, j: int) -> int
    decreases j,
{
    if 0 < j <= s.len() && s[j - 1] == '"' {
        quotes_start(s, j - 1)
    } else {
        j
    }
}

/// `s` without the `"` at its start and end.
pub open spec fn trim_quotes(s: Seq<char>) -> Seq<char> {
    let a = quotes_end(s, 0);
    if a >= s.len() {
        Seq::empty()
    } else {
        s.subrange(a, quotes_start(s, s.len() as int))
    }
}

/// The validator named `n` (in lower case) with the arguments `args`, if
/// it is one this reader knows.
pub open spec fn named_validator(n: Seq<char>, args: Seq<Seq<char>>) -> Option<ValidatorV> {
    if n == "string"@ {
        Some(ValidatorV::StringValidator(StringValidatorV::String))
    } else if n == "alpha"@ {
        Some(ValidatorV::StringValidator(StringValidatorV::Alpha))
    } else if n == "alphanumeric"@ {
        Some(ValidatorV::StringValidator(StringValidatorV::Alphanumeric))
    } else if n == "base64"@ {
        Some(ValidatorV::StringValidator(StringValidatorV::Base64))
    } else if n == "base64url"@ {
        Some(ValidatorV::StringValidator(StringValidatorV::Base64Url))
    } else if n == "capitalize"@ {
        Some(ValidatorV::StringValidator(StringValidatorV::Capitalize))
    } else if n == "creditcard"@ || n == "credit_card"@ {
        Some(ValidatorV::StringValidator(StringValidatorV::CreditCard))
    } else if n == "date"@ {
        Some(ValidatorV::StringValidator(StringValidatorV::Date))
    } else if n == "dateiso"@ || n == "date_iso"@ {
        Some(ValidatorV::StringValidator(StringValidatorV::DateIso))
    } else if n == "digits"@ {
        Some(ValidatorV::StringValidator(StringValidatorV::Digits))
    } else if n == "email"@ {
        Some(ValidatorV::StringValidator(StringValidatorV::Email))
    } else if n == "hex"@ {
        Some(ValidatorV::StringValidator(StringValidatorV::Hex))
    } else if n == "integer"@ {
        Some(ValidatorV::StringValidator(StringValidatorV::Integer))
    } else if n == "ip"@ {
        Some(ValidatorV::StringValidator(StringValidatorV::Ip))
    } else if n == "ipv4"@ || n == "ip_v4"@ {
        Some(ValidatorV::StringValidator(StringValidatorV::IpV4))
    } else if n == "ipv6"@ || n == "ip_v6"@ {
        Some(ValidatorV::StringValidator(StringValidatorV::IpV6))
    } else if n == "json"@ {
        Some(ValidatorV::StringValidator(StringValidatorV::Json))
    } else if n == "lower"@ || n == "lowercase"@ {
        Some(ValidatorV::StringValidator(StringValidatorV::Lower))
    } else if n == "upper"@ || n == "uppercase"@ {
        Some(ValidatorV::StringValidator(StringValidatorV::Upper))
    } else if n == "nonempty"@ || n == "non_empty"@ {
        Some(ValidatorV::StringValidator(StringValidatorV::NonEmpty))
    } else if n == "numeric"@ {
        Some(ValidatorV::StringValidator(StringValidatorV::Numeric))
    } else if n == "regex"@ || n == "pattern"@ {
        Some(ValidatorV::StringValidator(StringValidatorV::Regex))
    } else if n == "semver"@ {
        Some(ValidatorV::StringValidator(StringValidatorV::Semver))
    } else if n == "trim"@ {
        Some(ValidatorV::StringValidator(StringValidatorV::Trim))
    } else if n == "url"@ {
        Some(ValidatorV::StringValidator(StringValidatorV::Url))
    } else if n == "uuid"@ {
        Some(ValidatorV::StringValidator(StringValidatorV::Uuid))
    } else if n == "minlength"@ || n == "min_length"@ {
        match first_usize(args) { Some(n) => Some(ValidatorV::StringValidator(StringValidatorV::MinLength(n))), None => None }
    } else if n == "maxlength"@ || n == "max_length"@ {
        match first_usize(args) { Some(n) => Some(ValidatorV::StringValidator(StringValidatorV::MaxLength(n))), None => None }
    } else if n == "length"@ {
        if args.len() > 0 { Some(ValidatorV::StringValidator(StringValidatorV::Length(args[0]))) } else { None }
    } else if n == "startswith"@ || n == "starts_with"@ {
        if args.len() > 0 { Some(ValidatorV::StringValidator(StringValidatorV::StartsWith(trim_quotes(args[0])))) } else { None }
    } else if n == "endswith"@ || n == "ends_with"@ {
        if args.len() > 0 { Some(ValidatorV::StringValidator(StringValidatorV::EndsWith(trim_quotes(args[0])))) } else { None }
    } else if n == "includes"@ || n == "contains"@ {
        if args.len() > 0 { Some(ValidatorV::StringValidator(StringValidatorV::Includes(trim_quotes(args[0])))) } else { None }
    } else if n == "min"@ || n == "gte"@ || n == "greaterthanorequalto"@ {
        match first_number(args) { Some(t) => Some(ValidatorV::NumberValidator(NumberValidatorV::GreaterThanOrEqualTo(t))), None => None }
    } else if n == "max"@ || n == "lte"@ || n == "lessthanorequalto"@ {
        match first_number(args) { Some(t) => Some(ValidatorV::NumberValidator(NumberValidatorV::LessThanOrEqualTo(t))), None => None }
    } else if n == "gt"@ || n == "greaterthan"@ {
        match first_number(args) { Some(t) => Some(ValidatorV::NumberValidator(NumberValidatorV::GreaterThan(t))), None => None }
    } else if n == "lt"@ || n == "lessthan"@ {
        match first_number(args) { Some(t) => Some(ValidatorV::NumberValidator(NumberValidatorV::LessThan(t))), None => None }
    } else if n == "multipleof"@ || n == "multiple_of"@ || n == "divisibleby"@ || n == "divisible_by"@ {
        match first_number(args) { Some(t) => Some(ValidatorV::NumberValidator(NumberValidatorV::MultipleOf(t))), None => None }
    } else if n == "positive"@ {
        Some(ValidatorV::NumberValidator(NumberValidatorV::Positive))
    } else if n == "negative"@ {
        Some(ValidatorV::NumberValidator(NumberValidatorV::Negative))
    } else if n == "nonpositive"@ || n == "non_positive"@ {
        Some(ValidatorV::NumberValidator(NumberValidatorV::NonPositive))
    } else if n == "nonnegative"@ || n == "non_negative"@ {
        Some(ValidatorV::NumberValidator(NumberValidatorV::NonNegative))
    } else if n == "int"@ {
        Some(ValidatorV::NumberValidator(NumberValidatorV::Int))
    } else if n == "finite"@ {
        Some(ValidatorV::NumberValidator(NumberValidatorV::Finite))
    } else if n == "nonnan"@ || n == "non_nan"@ {
        Some(ValidatorV::NumberValidator(NumberValidatorV::NonNaN))
    } else if n == "between"@ {
        if args.len() >= 2 { match (canonical_number(args[0]), canonical_number(args[1])) { (Some(a), Some(b)) => Some(ValidatorV::NumberValidator(NumberValidatorV::Between(a, b))), _ => None } } else { None }
    } else if n == "minitems"@ || n == "min_items"@ || n == "minsize"@ || n == "min_size"@ {
        match first_usize(args) { Some(n) => Some(ValidatorV::ArrayValidator(ArrayValidatorV::MinItems(n))), None => None }
    } else if n == "maxitems"@ || n == "max_items"@ || n == "maxsize"@ || n == "max_size"@ {
        match first_usize(args) { Some(n) => Some(ValidatorV::ArrayValidator(ArrayValidatorV::MaxItems(n))), None => None }
    } else if n == "itemscount"@ || n == "items_count"@ || n == "size"@ {
        match first_usize(args) { Some(n) => Some(ValidatorV::ArrayValidator(ArrayValidatorV::ItemsCount(n))), None => None }
    } else {
        None
    }
}

/// The validators of the mentions `m`, in order, skipping mentions that
/// name none.
pub open spec fn validators_of(m: Seq<(Seq<char>, Option<Seq<char>>)>) -> Seq<ValidatorV>
    decreases m.len(),
{
    if m.len() == 0 {
        Seq::empty()
    } else {
        let rest = validators_of(m.drop_last());
        let (name, a) = m.last();
        match named_validator(lowercased(name), argument_list(a)) {
            Some(v) => rest.push(v),
            None => rest,
        }
    }
}

/// The validators that the text `s` lists.
pub open spec fn listed_validators(s: Seq<char>) -> Seq<ValidatorV> {
    validators_of(mentions_from(s, 0))
}

fn parse_usize(s: &str) -> (r: Option<usize>)
    ensures
        r == usize_value(s@),
{
    let v = chars_of(s);
    let start: usize = if v.len() > 0 && v[0] == '+' { 1 } else { 0 };
    let ghost body = if s@.len() > 0 && s@[0] == '+' { s@.drop_first() } else { s@ };
    assert(body == v@.subrange(start as int, v@.len() as int));
    if start >= v.len() {
        return None;
    }
    let mut i = start;
    while i < v.len()
        invariant
            start <= i <= v@.len(),
            body == v@.subrange(start as int, v@.len() as int),
            body == (if s@.len() > 0 && s@[0] == '+' { s@.drop_first() } else { s@ }),
            forall|k: int| start <= k < i ==> is_digit(#[trigger] v@[k]),
        decreases v.len() - i,
    {
        if !('0' <= v[i] && v[i] <= '9') {
            proof {
                assert(body[i - start] == v@[i as int]);
            }
            return None;
        }
        i = i + 1;
    }
    proof {
        assert forall|k: int| 0 <= k < body.len() implies is_digit(#[trigger] body[k]) by {
            assert(body[k] == v@[start + k]);
        }
    }
    let m = digits_value_capped(v.as_slice(), start, v.len());
    if m <= usize::MAX as u128 {
        Some(m as usize)
    } else {
        None
    }
}

fn first_usize_of(args: &Vec<String>) -> (r: Option<usize>)
    ensures
        r == first_usize(texts(args@)),
{
    if args.len() > 0 {
        parse_usize(args[0].as_str())
    } else {
        None
    }
}

fn first_number_of(args: &Vec<String>) -> (r: Option<Number>)
    ensures
        match r {
            Some(x) => first_number(texts(args@)) == Some(x@),
            None => first_number(texts(args@)) is None,
        },
{
    if args.len() > 0 {
        Number::parse(args[0].as_str())
    } else {
        None
    }
}

fn trim_quotes_of(s: &str) -> (r: String)
    ensures
        r@ == trim_quotes(s@),
{
    let v = chars_of(s);
    let n = v.len();
    let mut a: usize = 0;
    while a < n && v[a] == '"'
        invariant
            a <= n,
            n == v@.len(),
            quotes_end(v@, 0) == quotes_end(v@, a as int),
        decreases n - a,
    {
        a = a + 1;
    }
    if a >= n {
        return String::new();
    }
    let mut b: usize = n;
    while b > 0 && v[b - 1] == '"'
        invariant
            b <= n,
            n == v@.len(),
            quotes_start(v@, n as int) == quotes_start(v@, b as int),
        decreases b,
    {
        b = b - 1;
    }
    proof {
        lemma_quotes(v@, a as int);
    }
    let mut out: Vec<char> = Vec::new();
    let mut k = a;
    while k < b
        invariant
            a <= k <= b <= n,
            n == v@.len(),
            out@ == v@.subrange(a as int, k as int),
        decreases b - k,
    {
        out.push(v[k]);
        k = k + 1;
    }
    string_of(out.as_slice())
}

proof fn lemma_quotes(s: Seq<char>, a: int)
    requires
        0 <= a < s.len(),
        s[a] != '"',
    ensures
        a < quotes_start(s, s.len() as int) <= s.len(),
{
    lemma_quotes_start(s, s.len() as int, a);
}

proof fn lemma_quotes_start(s: Seq<char>, j: int, a: int)
    requires
        0 <= a < j <= s.len(),
        s[a] != '"',
    ensures
        a < quotes_start(s, j) <= j,
    decreases j,
{
    if s[j - 1] == '"' {
        lemma_quotes_start(s, j - 1, a);
    }
}

/// The validator named `name` with the arguments `args`, as
/// [`named_validator`] says of the lower-case name.
fn parse_single_validator(name: &str, args: &Vec<String>) -> (r: Option<Validator>)
    ensures
        match r {
            Some(v) => named_validator(lowercased(name@), texts(args@)) == Some(v@),
            None => named_validator(lowercased(name@), texts(args@)) is None,
        },
{
    let lowered = lowercase(name);
    let n = lowered.as_str();
    let ghost args_v = texts(args@);
    proof {
        if args@.len() > 0 {
            assert(args_v[0] == args@[0]@);
        }
        if args@.len() > 1 {
            assert(args_v[1] == args@[1]@);
        }
    }
    if same_text(n, "string") {
        Some(Validator::StringValidator(StringValidator::String))
    } else if same_text(n, "alpha") {
        Some(Validator::StringValidator(StringValidator::Alpha))
    } else if same_text(n, "alphanumeric") {
        Some(Validator::StringValidator(StringValidator::Alphanumeric))
    } else if same_text(n, "base64") {
        Some(Validator::StringValidator(StringValidator::Base64))
    } else if same_text(n, "base64url") {
        Some(Validator::StringValidator(StringValidator::Base64Url))
    } else if same_text(n, "capitalize") {
        Some(Validator::StringValidator(StringValidator::Capitalize))
    } else if same_text(n, "creditcard") || same_text(n, "credit_card") {
        Some(Validator::StringValidator(StringValidator::CreditCard))
    } else if same_text(n, "date") {
        Some(Validator::StringValidator(StringValidator::Date))
    } else if same_text(n, "dateiso") || same_text(n, "date_iso") {
        Some(Validator::StringValidator(StringValidator::DateIso))
    } else if same_text(n, "digits") {
        Some(Validator::StringValidator(StringValidator::Digits))
    } else if same_text(n, "email") {
        Some(Validator::StringValidator(StringValidator::Email))
    } else if same_text(n, "hex") {
        Some(Validator::StringValidator(StringValidator::Hex))
    } else if same_text(n, "integer") {
        Some(Validator::StringValidator(StringValidator::Integer))
    } else if same_text(n, "ip") {
        Some(Validator::StringValidator(StringValidator::Ip))
    } else if same_text(n, "ipv4") || same_text(n, "ip_v4") {
        Some(Validator::StringValidator(StringValidator::IpV4))
    } else if same_text(n, "ipv6") || same_text(n, "ip_v6") {
        Some(Validator::StringValidator(StringValidator::IpV6))
    } else if same_text(n, "json") {
        Some(Validator::StringValidator(StringValidator::Json))
    } else if same_text(n, "lower") || same_text(n, "lowercase") {
        Some(Validator::StringValidator(StringValidator::Lower))
    } else if same_text(n, "upper") || same_text(n, "uppercase") {
        Some(Validator::StringValidator(StringValidator::Upper))
    } else if same_text(n, "nonempty") || same_text(n, "non_empty") {
        Some(Validator::StringValidator(StringValidator::NonEmpty))
    } else if same_text(n, "numeric") {
        Some(Validator::StringValidator(StringValidator::Numeric))
    } else if same_text(n, "regex") || same_text(n, "pattern") {
        Some(Validator::StringValidator(StringValidator::Regex))
    } else if same_text(n, "semver") {
        Some(Validator::StringValidator(StringValidator::Semver))
    } else if same_text(n, "trim") {
        Some(Validator::StringValidator(StringValidator::Trim))
    } else if same_text(n, "url") {
        Some(Validator::StringValidator(StringValidator::Url))
    } else if same_text(n, "uuid") {
        Some(Validator::StringValidator(StringValidator::Uuid))
    } else if same_text(n, "minlength") || same_text(n, "min_length") {
        match first_usize_of(args) { Some(x) => Some(Validator::StringValidator(StringValidator::MinLength(x))), None => None }
    } else if same_text(n, "maxlength") || same_text(n, "max_length") {
        match first_usize_of(args) { Some(x) => Some(Validator::StringValidator(StringValidator::MaxLength(x))), None => None }
    } else if same_text(n, "length") {
        if args.len() > 0 { Some(Validator::StringValidator(StringValidator::Length(args[0].clone()))) } else { None }
    } else if same_text(n, "startswith") || same_text(n, "starts_with") {
        if args.len() > 0 { Some(Validator::StringValidator(StringValidator::StartsWith(trim_quotes_of(args[0].as_str())))) } else { None }
    } else if same_text(n, "endswith") || same_text(n, "ends_with") {
        if args.len() > 0 { Some(Validator::StringValidator(StringValidator::EndsWith(trim_quotes_of(args[0].as_str())))) } else { None }
    } else if same_text(n, "includes") || same_text(n, "contains") {
        if args.len() > 0 { Some(Validator::StringValidator(StringValidator::Includes(trim_quotes_of(args[0].as_str())))) } else { None }
    } else if same_text(n, "min") || same_text(n, "gte") || same_text(n, "greaterthanorequalto") {
        match first_number_of(args) { Some(x) => Some(Validator::NumberValidator(NumberValidator::GreaterThanOrEqualTo(x))), None => None }
    } else if same_text(n, "max") || same_text(n, "lte") || same_text(n, "lessthanorequalto") {
        match first_number_of(args) { Some(x) => Some(Validator::NumberValidator(NumberValidator::LessThanOrEqualTo(x))), None => None }
    } else if same_text(n, "gt") || same_text(n, "greaterthan") {
        match first_number_of(args) { Some(x) => Some(Validator::NumberValidator(NumberValidator::GreaterThan(x))), None => None }
    } else if same_text(n, "lt") || same_text(n, "lessthan") {
        match first_number_of(args) { Some(x) => Some(Validator::NumberValidator(NumberValidator::LessThan(x))), None => None }
    } else if same_text(n, "multipleof") || same_text(n, "multiple_of") || same_text(n, "divisibleby") || same_text(n, "divisible_by") {
        match first_number_of(args) { Some(x) => Some(Validator::NumberValidator(NumberValidator::MultipleOf(x))), None => None }
    } else if same_text(n, "positive") {
        Some(Validator::NumberValidator(NumberValidator::Positive))
    } else if same_text(n, "negative") {
        Some(Validator::NumberValidator(NumberValidator::Negative))
    } else if same_text(n, "nonpositive") || same_text(n, "non_positive") {
        Some(Validator::NumberValidator(NumberValidator::NonPositive))
    } else if same_text(n, "nonnegative") || same_text(n, "non_negative") {
        Some(Validator::NumberValidator(NumberValidator::NonNegative))
    } else if same_text(n, "int") {
        Some(Validator::NumberValidator(NumberValidator::Int))
    } else if same_text(n, "finite") {
        Some(Validator::NumberValidator(NumberValidator::Finite))
    } else if same_text(n, "nonnan") || same_text(n, "non_nan") {
        Some(Validator::NumberValidator(NumberValidator::NonNaN))
    } else if same_text(n, "between") {
        if args.len() >= 2 { match (Number::parse(args[0].as_str()), Number::parse(args[1].as_str())) { (Some(a), Some(b)) => Some(Validator::NumberValidator(NumberValidator::Between(a, b))), _ => None } } else { None }
    } else if same_text(n, "minitems") || same_text(n, "min_items") || same_text(n, "minsize") || same_text(n, "min_size") {
        match first_usize_of(args) { Some(x) => Some(Validator::ArrayValidator(ArrayValidator::MinItems(x))), None => None }
    } else if same_text(n, "maxitems") || same_text(n, "max_items") || same_text(n, "maxsize") || same_text(n, "max_size") {
        match first_usize_of(args) { Some(x) => Some(Validator::ArrayValidator(ArrayValidator::MaxItems(x))), None => None }
    } else if same_text(n, "itemscount") || same_text(n, "items_count") || same_text(n, "size") {
        match first_usize_of(args) { Some(x) => Some(Validator::ArrayValidator(ArrayValidator::ItemsCount(x))), None => None }
    } else {
        None
    }
}

fn next_word_of(v: &Vec<char>, j: usize) -> (r: usize)
    requires
        j <= v@.len(),
    ensures
        r == next_word(v@, j as int),
        j <= r <= v@.len(),
{
    let mut k = j;
    while k < v.len() && !is_word_char(v[k])
        invariant
            j <= k <= v@.len(),
            next_word(v@, j as int) == next_word(v@, k as int),
        decreases v.len() - k,
    {
        k = k + 1;
    }
    k
}

fn word_end_of(v: &Vec<char>, j: usize) -> (r: usize)
    requires
        j <= v@.len(),
    ensures
        r == word_end(v@, j as int),
        j <= r <= v@.len(),
{
    let mut k = j;
    while k < v.len() && is_word_char(v[k])
        invariant
            j <= k <= v@.len(),
            word_end(v@, j as int) == word_end(v@, k as int),
        decreases v.len() - k,
    {
        k = k + 1;
    }
    k
}

fn next_close_of(v: &Vec<char>, j: usize) -> (r: usize)
    requires
        j <= v@.len(),
    ensures
        r == next_close(v@, j as int),
        j <= r <= v@.len(),
{
    let mut k = j;
    while k < v.len() && v[k] != ')'
        invariant
            j <= k <= v@.len(),
            next_close(v@, j as int) == next_close(v@, k as int),
        decreases v.len() - k,
    {
        k = k + 1;
    }
    k
}

fn chars_between(v: &Vec<char>, lo: usize, hi: usize) -> (r: Vec<char>)
    requires
        lo <= hi <= v@.len(),
    ensures
        r@ == v@.subrange(lo as int, hi as int),
{
    let mut out: Vec<char> = Vec::new();
    let mut k = lo;
    while k < hi
        invariant
            lo <= k <= hi <= v@.len(),
            out@ == v@.subrange(lo as int, k as int),
        decreases hi - k,
    {
        out.push(v[k]);
        k = k + 1;
    }
    out
}

/// The trimmed pieces between commas of `a`.
fn arguments_of(a: &Vec<char>) -> (r: Vec<String>)
    ensures
        texts(r@) == argument_list(Some(a@)),
{
    let n = a.len();
    let mut out: Vec<String> = Vec::new();
    let mut start: usize = 0;
    let mut k: usize = 0;
    proof {
        assert(a@.skip(0) == a@);
    }
    while k < n
        invariant
            start <= k <= n,
            n == a@.len(),
            forall|j: int| start <= j < k ==> a@[j] != ',',
            texts(out@) + comma_pieces(a@.skip(start as int)).map_values(|p: Seq<char>| trim(p))
                == comma_pieces(a@).map_values(|p: Seq<char>| trim(p)),
        decreases n - k,
    {
        if a[k] == ',' {
            let piece = chars_between(a, start, k);
            let t = string_of(trim_chars(piece.as_slice()).as_slice());
            proof {
                let rest = a@.skip(start as int);
                crate::text::lemma_first_index_bound(rest, ',');
                lemma_first_comma(rest, (k - start) as int);
                assert(rest.take(k - start) == piece@);
                assert(rest.skip(k - start + 1) == a@.skip(k + 1));
                let m = comma_pieces(rest).map_values(|p: Seq<char>| trim(p));
                assert(comma_pieces(rest) == seq![piece@] + comma_pieces(a@.skip(k + 1)));
                assert(m =~= seq![trim(piece@)] + comma_pieces(a@.skip(k + 1)).map_values(
                    |p: Seq<char>| trim(p),
                ));
                assert(texts(out@.push(t)) =~= texts(out@).push(t@));
                assert(texts(out@).push(t@) + comma_pieces(a@.skip(k + 1)).map_values(
                    |p: Seq<char>| trim(p),
                ) =~= texts(out@) + m);
            }
            out.push(t);
            start = k + 1;
        }
        k = k + 1;
    }
    let piece = chars_between(a, start, n);
    let t = string_of(trim_chars(piece.as_slice()).as_slice());
    proof {
        let rest = a@.skip(start as int);
        assert(rest == piece@);
        lemma_no_comma(rest);
        assert(comma_pieces(rest) == seq![rest]);
        assert(comma_pieces(rest).map_values(|p: Seq<char>| trim(p)) =~= seq![trim(rest)]);
        assert(texts(out@.push(t)) =~= texts(out@) + seq![trim(rest)]);
    }
    out.push(t);
    out
}

proof fn lemma_first_comma(s: Seq<char>, i: int)
    requires
        0 <= i < s.len(),
        s[i] == ',',
        forall|j: int| 0 <= j < i ==> s[j] != ',',
    ensures
        first_index_of(s, ',') == i,
    decreases i,
{
    if i > 0 {
        lemma_first_comma(s.drop_first(), i - 1);
    }
}

proof fn lemma_no_comma(s: Seq<char>)
    requires
        forall|j: int| 0 <= j < s.len() ==> s[j] != ',',
    ensures
        first_index_of(s, ',') == -1,
    decreases s.len(),
{
    if s.len() > 0 {
        lemma_no_comma(s.drop_first());
    }
}

proof fn lemma_next_word(s: Seq<char>, j: int)
    requires
        0 <= j <= s.len(),
    ensures
        j <= next_word(s, j) <= s.len(),
        next_word(s, j) < s.len() ==> word_char(s[next_word(s, j)]),
    decreases s.len() - j,
{
    if j < s.len() && !word_char(s[j]) {
        lemma_next_word(s, j + 1);
    }
}

proof fn lemma_word_end_ge(s: Seq<char>, j: int)
    requires
        0 <= j <= s.len(),
    ensures
        j <= word_end(s, j) <= s.len(),
    decreases s.len() - j,
{
    if j < s.len() {
        lemma_word_end_ge(s, j + 1);
    }
}

proof fn lemma_next_close(s: Seq<char>, j: int)
    requires
        0 <= j <= s.len(),
    ensures
        j <= next_close(s, j) <= s.len(),
    decreases s.len() - j,
{
    if j < s.len() && s[j] != ')' {
        lemma_next_close(s, j + 1);
    }
}

/// One mention at `i` of `s`, and where the next one is looked for.
proof fn lemma_mention(s: Seq<char>, i: int)
    requires
        0 <= i <= s.len(),
        next_word(s, i) < s.len(),
    ensures
        ({
            let k = next_word(s, i);
            let e = word_end(s, k);
            &&& i <= k < e <= s.len()
            &&& if e < s.len() && s[e] == '(' && next_close(s, e + 1) < s.len() {
                let p = next_close(s, e + 1);
                &&& e < p
                &&& mentions_from(s, i) == seq![(s.subrange(k, e), Some(s.subrange(e + 1, p)))]
                    + mentions_from(s, p + 1)
            } else {
                mentions_from(s, i) == seq![(s.subrange(k, e), None::<Seq<char>>)] + mentions_from(s, e)
            }
        }),
{
    let k = next_word(s, i);
    lemma_next_word(s, i);
    lemma_word_end_ge(s, k + 1);
    let e = word_end(s, k);
    if e < s.len() {
        lemma_next_close(s, e + 1);
    }
}

/// Parses a comma-separated list of validators, such as
/// `"validator1, validator2(arg), validator3(arg1, arg2)"`; names this
/// reader does not know are skipped.
#[verifier::rlimit(40)]
pub fn parse_validators(input: &str) -> (r: Vec<Validator>)
    ensures
        validators_view(r@) == listed_validators(input@),
{
    let v = chars_of(input);
    let n = v.len();
    let mut out: Vec<Validator> = Vec::new();
    let mut i: usize = 0;
    let ghost done: Seq<(Seq<char>, Option<Seq<char>>)> = Seq::empty();
    assert(validators_view(out@) =~= validators_of(done));
    assert(done + mentions_from(v@, 0) =~= mentions_from(v@, 0));
    while i < n
        invariant
            i <= n,
            n == v@.len(),
            v@ == input@,
            mentions_from(v@, 0) == done + mentions_from(v@, i as int),
            validators_view(out@) == validators_of(done),
        decreases n - i,
    {
        let k = next_word_of(&v, i);
        if k >= n {
            proof {
                assert(mentions_from(v@, i as int) == Seq::<(Seq<char>, Option<Seq<char>>)>::empty());
                assert(done + mentions_from(v@, i as int) =~= done + mentions_from(v@, n as int));
            }
            i = n;
        } else {
            proof {
                lemma_mention(v@, i as int);
            }
            let e = word_end_of(&v, k);
            let name = string_of(chars_between(&v, k, e).as_slice());
            let mut next = e;
            let mut args: Vec<String> = Vec::new();
            let ghost mut arg_text: Option<Seq<char>> = None;
            if e < n && v[e] == '(' {
                let p = next_close_of(&v, e + 1);
                if p < n {
                    let a = chars_between(&v, e + 1, p);
                    args = arguments_of(&a);
                    proof {
                        arg_text = Some(a@);
                    }
                    next = p + 1;
                }
            }
            let ghost m = (name@, arg_text);
            proof {
                assert(mentions_from(v@, i as int) == seq![m] + mentions_from(v@, next as int));
                assert(texts(args@) == argument_list(m.1));
                assert(done.push(m) + mentions_from(v@, next as int) =~= done + (seq![m]
                    + mentions_from(v@, next as int)));
                assert(done.push(m).drop_last() == done);
                assert(done.push(m).last() == m);
            }
            match parse_single_validator(name.as_str(), &args) {
                Some(x) => {
                    proof {
                        assert(validators_view(out@.push(x)) =~= validators_view(out@).push(x@));
                    }
                    out.push(x);
                },
                None => {},
            }
            proof {
                done = done.push(m);
            }
            i = next;
        }
    }
    proof {
        assert(mentions_from(v@, i as int) == Seq::<(Seq<char>, Option<Seq<char>>)>::empty());
        assert(done + Seq::<(Seq<char>, Option<Seq<char>>)>::empty() =~= done);
    }
    out
}

/// The validators of a metadata list's `validate` attribute; none without
/// one.
pub open spec fn metadata_validators(m: MetadataV) -> Seq<ValidatorV> {
    match attribute_value(m, "validate"@) {
        Some(v) => listed_validators(v),
        None => Seq::empty(),
    }
}

fn extract_validators_from_metadata(metadata: &Metadata) -> (r: Vec<Validator>)
    ensures
        validators_view(r@) == metadata_validators(metadata@),
{
    match metadata.get("validate") {
        Some(v) => parse_validators(v),
        None => {
            let r: Vec<Validator> = Vec::new();
            assert(validators_view(r@) =~= Seq::<ValidatorV>::empty());
            r
        },
    }
}

/// The validators of a field's metadata.
pub fn extract_field_validators(field: &FieldDef) -> (r: Vec<Validator>)
    ensures
        validators_view(r@) == metadata_validators(field@.metadata),
{
    extract_validators_from_metadata(&field.metadata)
}

/// The validators of a table's metadata (struct-level validators).
pub fn extract_table_validators(table: &TableDef) -> (r: Vec<Validator>)
    ensures
        validators_view(r@) == metadata_validators(table@.metadata),
{
    extract_validators_from_metadata(&table.metadata)
}

/// Scanning the tail `y` of `x + y` is scanning `y`, shifted by `x`.
proof fn lemma_scan_shift(x: Seq<char>, y: Seq<char>, j: int)
    requires
        0 <= j,
    ensures
        next_word(x + y, x.len() + j) == x.len() + next_word(y, j),
        word_end(x + y, x.len() + j) == x.len() + word_end(y, j),
        next_close(x + y, x.len() + j) == x.len() + next_close(y, j),
    decreases y.len() - j,
{
    if j < y.len() {
        assert((x + y)[x.len() + j] == y[j]);
        lemma_scan_shift(x, y, j + 1);
    }
}

/// The mentions of the tail `y` of `x + y` are those of `y`.
proof fn lemma_mentions_shift(x: Seq<char>, y: Seq<char>, j: int)
    requires
        0 <= j,
    ensures
        mentions_from(x + y, x.len() + j) == mentions_from(y, j),
    decreases y.len() - j,
{
    let s = x + y;
    lemma_scan_shift(x, y, j);
    let k = next_word(y, j);
    if k >= j && k < y.len() {
        lemma_scan_shift(x, y, k);
        let e = word_end(y, k);
        if e > k && e <= y.len() {
            assert(s.subrange(x.len() + k, x.len() + e) =~= y.subrange(k, e));
            if e < y.len() {
                assert(s[x.len() + e] == y[e]);
                lemma_scan_shift(x, y, e + 1);
                let p = next_close(y, e + 1);
                if y[e] == '(' && p < y.len() && p > e {
                    assert(s.subrange(x.len() + e + 1, x.len() + p) =~= y.subrange(e + 1, p));
                    lemma_mentions_shift(x, y, p + 1);
                } else {
                    lemma_mentions_shift(x, y, e);
                }
            } else {
                lemma_mentions_shift(x, y, e);
            }
        }
    }
}

/// The first word char from `i` is at or after `i`, and a word char
/// where it is before the end.
proof fn lemma_next_word_bound(s: Seq<char>, i: int)
    requires
        0 <= i <= s.len(),
    ensures
        i <= next_word(s, i) <= s.len(),
        next_word(s, i) < s.len() ==> word_char(s[next_word(s, i)]),
        forall|q: int| i <= q < next_word(s, i) ==> !word_char(#[trigger] s[q]),
    decreases s.len() - i,
{
    if i < s.len() && !word_char(s[i]) {
        lemma_next_word_bound(s, i + 1);
    }
}

/// A run of word chars starting at a word char ends after it.
proof fn lemma_word_end_bound(s: Seq<char>, k: int)
    requires
        0 <= k <= s.len(),
    ensures
        k <= word_end(s, k) <= s.len(),
    decreases s.len() - k,
{
    if k < s.len() && word_char(s[k]) {
        lemma_word_end_bound(s, k + 1);
    }
}

/// Scanning `a + t` from inside `a` agrees with scanning `a` while the scan
/// stays in `a`.
proof fn lemma_scan_prefix(a: Seq<char>, t: Seq<char>, j: int)
    requires
        0 <= j <= a.len(),
    ensures
        next_word(a, j) < a.len() ==> next_word(a + t, j) == next_word(a, j),
        next_word(a, j) >= a.len() ==> next_word(a + t, j) == next_word(a + t, a.len() as int),
        word_end(a, j) < a.len() ==> word_end(a + t, j) == word_end(a, j),
        word_end(a, j) >= a.len() && t.len() > 0 && !word_char(t[0]) ==> word_end(a + t, j) == a.len(),
        next_close(a, j) < a.len() ==> next_close(a + t, j) == next_close(a, j),
    decreases a.len() - j,
{
    let s = a + t;
    if j < a.len() {
        assert(s[j] == a[j]);
        lemma_scan_prefix(a, t, j + 1);
    } else {
        if t.len() > 0 {
            assert(s[j] == t[0]);
        }
    }
}

/// Skipping chars that are not word chars does not change the mentions.
proof fn lemma_mentions_skip(s: Seq<char>, i: int, j: int)
    requires
        0 <= i <= j <= s.len(),
        forall|q: int| i <= q < j ==> !word_char(#[trigger] s[q]),
    ensures
        mentions_from(s, i) == mentions_from(s, j),
    decreases j - i,
{
    if i < j {
        lemma_mentions_skip(s, i + 1, j);
        assert(next_word(s, i) == next_word(s, i + 1));
        lemma_next_word_bound(s, i + 1);
    }
}

/// Whether every `(` of `a` has a `)` after it in `a`.
pub open spec fn parens_close(a: Seq<char>) -> bool {
    forall|p: int| 0 <= p < a.len() && a[p] == '(' ==> exists|q: int| p < q < a.len() && #[trigger] a[q] == ')'
}

/// Where every `(` of `a` closes in `a` and `t` starts with neither a word
/// char nor `(`, the mentions of `a + t` from inside `a` are those of `a`,
/// then those of `a + t` from the end of `a`.
proof fn lemma_mentions_prefix(a: Seq<char>, t: Seq<char>, i: int)
    requires
        0 <= i <= a.len(),
        parens_close(a),
        t.len() > 0,
        !word_char(t[0]),
        t[0] != '(',
    ensures
        mentions_from(a + t, i) == mentions_from(a, i) + mentions_from(a + t, a.len() as int),
    decreases a.len() - i,
{
    let s = a + t;
    lemma_next_word_bound(a, i);
    lemma_scan_prefix(a, t, i);
    let k = next_word(a, i);
    if k >= a.len() {
        assert(mentions_from(a, i) =~= Seq::<(Seq<char>, Option<Seq<char>>)>::empty());
        lemma_next_word_bound(s, i);
        lemma_next_word_bound(s, a.len() as int);
        assert forall|q: int| i <= q < a.len() implies !word_char(#[trigger] s[q]) by {
            assert(s[q] == a[q]);
        }
        lemma_mentions_skip(s, i, a.len() as int);
    } else {
        assert(next_word(s, i) == k);
        lemma_word_end_bound(a, k);
        lemma_scan_prefix(a, t, k);
        let e = word_end(a, k);
        assert(word_end(s, k) == e);
        assert(word_char(a[k]));
        lemma_word_end_bound(a, k + 1);
        assert(word_end(a, k) == word_end(a, k + 1));
        assert(e > k);
        assert(s.subrange(k, e) =~= a.subrange(k, e));
        if e < a.len() {
            assert(s[e] == a[e]);
            if a[e] == '(' {
                let q = choose|q: int| e < q < a.len() && #[trigger] a[q] == ')';
                lemma_close_bound(a, e + 1, q);
                lemma_scan_prefix(a, t, e + 1);
                let p = next_close(a, e + 1);
                assert(s.subrange(e + 1, p) =~= a.subrange(e + 1, p));
                lemma_mentions_prefix(a, t, p + 1);
            } else {
                lemma_mentions_prefix(a, t, e);
            }
        } else {
            assert(s[e] == t[0]);
            assert(mentions_from(a, e) =~= Seq::<(Seq<char>, Option<Seq<char>>)>::empty()) by {
                lemma_next_word_bound(a, e);
            }
        }
    }
}

/// The first `)` from `j` comes no later than a `)` at `q`.
proof fn lemma_close_bound(a: Seq<char>, j: int, q: int)
    requires
        0 <= j <= q < a.len(),
        a[q] == ')',
    ensures
        j <= next_close(a, j) <= q,
    decreases q - j,
{
    if a[j] != ')' {
        lemma_close_bound(a, j + 1, q);
    }
}

/// The validators of two lists of mentions, one after the other.
proof fn lemma_validators_of_concat(m1: Seq<(Seq<char>, Option<Seq<char>>)>, m2: Seq<(Seq<char>, Option<Seq<char>>)>)
    ensures
        validators_of(m1 + m2) == validators_of(m1) + validators_of(m2),
    decreases m2.len(),
{
    if m2.len() == 0 {
        assert(m1 + m2 =~= m1);
        assert(validators_of(m1) + validators_of(m2) =~= validators_of(m1));
    } else {
        lemma_validators_of_concat(m1, m2.drop_last());
        assert((m1 + m2).drop_last() =~= m1 + m2.drop_last());
        assert((m1 + m2).last() == m2.last());
        let (name, a) = m2.last();
        match named_validator(lowercased(name), argument_list(a)) {
            Some(v) => {
                assert(validators_of(m1) + validators_of(m2.drop_last()).push(v) =~= (validators_of(m1)
                    + validators_of(m2.drop_last())).push(v));
            },
            None => {},
        }
    }
}

/// Two validator lists joined by a separator of chars that are neither
/// word chars nor `(` list the validators of both, in order, when every
/// `(` of the first closes in it.
pub proof fn lemma_validator_lists_concat(a: Seq<char>, sep: Seq<char>, b: Seq<char>)
    requires
        parens_close(a),
        sep.len() > 0,
        forall|k: int| 0 <= k < sep.len() ==> !word_char(#[trigger] sep[k]) && sep[k] != '(',
    ensures
        listed_validators(a + sep + b) == listed_validators(a) + listed_validators(b),
{
    let t = sep + b;
    let s = a + t;
    assert(a + sep + b =~= s);
    assert(t[0] == sep[0]);
    lemma_mentions_prefix(a, t, 0);
    assert forall|q: int| a.len() <= q < a.len() + sep.len() implies !word_char(#[trigger] s[q]) by {
        assert(s[q] == sep[q - a.len()]);
    }
    lemma_mentions_skip(s, a.len() as int, (a.len() + sep.len()) as int);
    assert(s =~= (a + sep) + b);
    lemma_mentions_shift(a + sep, b, 0);
    lemma_validators_of_concat(mentions_from(a, 0), mentions_from(b, 0));
}

/// Two validator lists joined by `, ` list the validators of both, in
/// order, when every `(` of the first closes in it.
pub proof fn lemma_comma_joined_validator_lists(a: Seq<char>, b: Seq<char>)
    requires
        parens_close(a),
    ensures
        listed_validators(a + ", "@ + b) == listed_validators(a) + listed_validators(b),
{
    reveal_strlit(", ");
    lemma_validator_lists_concat(a, ", "@, b);
}

} // verus!
