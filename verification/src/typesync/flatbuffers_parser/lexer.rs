//! The tokens of a FlatBuffers schema.
//!
//! At each position the longest token wins; a name that spells a keyword
//! is that keyword. White space (` `, tab, CR, LF, form feed) separates
//! tokens, and `//` and `/* */` comments are dropped, while `///` doc
//! comments are kept.

use vstd::prelude::*;
use crate::number::{BIG, digits_value, digits_value_capped, is_digit};
use crate::text::{chars_of, owned, same_text, string_of, trim, trim_chars};

verus! {

/// The kinds of tokens of a FlatBuffers schema.
#[derive(Debug, Clone, Copy, PartialEq, Eq, Structural)]
pub enum Token {
    Namespace,
    Include,
    Attribute,
    Table,
    Struct,
    Enum,
    Union,
    RootType,
    FileIdentifier,
    FileExtension,
    RpcService,
    Bool,
    Byte,
    UByte,
    Short,
    UShort,
    Int,
    UInt,
    Long,
    ULong,
    Float,
    Double,
    Int8,
    UInt8,
    Int16,
    UInt16,
    Int32,
    UInt32,
    Int64,
    UInt64,
    Float32,
    Float64,
    String,
    LBrace,
    RBrace,
    LParen,
    RParen,
    LBracket,
    RBracket,
    Semicolon,
    Colon,
    Comma,
    Equals,
    Dot,
    /// A string literal; its text is what stands between the quotes.
    StringLiteral,
    /// A decimal integer; its value is the integer.
    IntegerLiteral,
    /// A decimal number with a fraction; its text is the literal.
    FloatLiteral,
    /// A hexadecimal integer; its value is the integer.
    HexLiteral,
    True,
    False,
    /// A name; its text is the name.
    Identifier,
    /// A `//` comment; its text is the comment, trimmed.
    LineComment,
    /// A `///` doc comment; its text is the comment, trimmed.
    DocComment,
    /// A `/* */` comment; its text is the comment, trimmed.
    BlockComment,
}

/// A token with the text or value it carries and its byte span in the
/// source.
#[derive(Debug)]
pub struct SpannedToken {
    pub token: Token,
    pub text: String,
    pub value: i64,
    pub span: std::ops::Range<usize>,
}

/// The model of a [`SpannedToken`].
pub struct TokV {
    pub token: Token,
    pub text: Seq<char>,
    pub value: i64,
    pub start: usize,
    pub end: usize,
}

impl View for SpannedToken {
    type V = TokV;

    open spec fn view(&self) -> TokV {
        TokV {
            token: self.token,
            text: self.text@,
            value: self.value,
            start: self.span.start,
            end: self.span.end,
        }
    }
}

/// The models of a list of tokens.
pub open spec fn toks_view(v: Seq<SpannedToken>) -> Seq<TokV> {
    v.map_values(|t: SpannedToken| t@)
}

/// A lexer error.
#[derive(Debug)]
pub struct LexError {
    pub span: std::ops::Range<usize>,
    pub message: String,
}

/// The model of a [`LexError`]: its span and message.
pub struct LexErrorV {
    pub start: usize,
    pub end: usize,
    pub message: Seq<char>,
}

impl View for LexError {
    type V = LexErrorV;

    open spec fn view(&self) -> LexErrorV {
        LexErrorV { start: self.span.start, end: self.span.end, message: self.message@ }
    }
}

/// The number of bytes of `c` in UTF-8.
pub open spec fn char_width(c: char) -> nat {
    if (c as u32) <= 0x7f {
        1
    } else if (c as u32) <= 0x7ff {
        2
    } else if (c as u32) <= 0xffff {
        3
    } else {
        4
    }
}

/// The number of bytes of `s` in UTF-8.
pub open spec fn byte_len(s: Seq<char>) -> nat
    decreases s.len(),
{
    if s.len() == 0 {
        0
    } else {
        byte_len(s.drop_last()) + char_width(s.last())
    }
}

/// The byte length of a text is that of its UTF-8 encoding.
pub proof fn lemma_byte_len_encoding(s: Seq<char>)
    ensures
        byte_len(s) == vstd::utf8::encode_utf8(s).len(),
    decreases s.len(),
{
    if s.len() > 0 {
        lemma_byte_len_encoding(s.drop_last());
        lemma_encode_concat(s.drop_last(), seq![s.last()]);
        assert(s.drop_last() + seq![s.last()] =~= s);
        let c = s.last();
        vstd::utf8::char_is_scalar(c);
        assert(seq![c].drop_first() =~= Seq::<char>::empty());
        assert(vstd::utf8::encode_utf8(seq![c]) == vstd::utf8::encode_scalar(c as u32)
            + vstd::utf8::encode_utf8(Seq::<char>::empty()));
    }
}

proof fn lemma_encode_concat(a: Seq<char>, b: Seq<char>)
    ensures
        vstd::utf8::encode_utf8(a + b) == vstd::utf8::encode_utf8(a) + vstd::utf8::encode_utf8(b),
    decreases a.len(),
{
    if a.len() > 0 {
        lemma_encode_concat(a.drop_first(), b);
        assert((a + b).drop_first() =~= a.drop_first() + b);
        assert((a + b)[0] == a[0]);
        assert(vstd::utf8::encode_utf8(a + b) =~= vstd::utf8::encode_utf8(a)
            + vstd::utf8::encode_utf8(b));
    } else {
        assert(a + b =~= b);
        assert(vstd::utf8::encode_utf8(a) =~= Seq::<u8>::empty());
        assert(vstd::utf8::encode_utf8(a) + vstd::utf8::encode_utf8(b) =~= vstd::utf8::encode_utf8(b));
    }
}

/// White space between tokens.
pub open spec fn is_gap(c: char) -> bool {
    c == ' ' || c == '\t' || c == '\r' || c == '\n' || c == '\x0C'
}

/// A char that can start a name.
pub open spec fn is_name_start(c: char) -> bool {
    ('a' <= c && c <= 'z') || ('A' <= c && c <= 'Z') || c == '_'
}

/// A char that can continue a name.
pub open spec fn is_name_char(c: char) -> bool {
    is_name_start(c) || is_digit(c)
}

/// A hexadecimal digit.
pub open spec fn is_hex_digit(c: char) -> bool {
    is_digit(c) || ('a' <= c && c <= 'f') || ('A' <= c && c <= 'F')
}

/// The end of the run of name chars of `s` from `j`.
pub open spec fn name_end(s: Seq<char>, j: int) -> int
    decreases s.len() - j,
{
    if j < s.len() && 0 <= j && is_name_char(s[j]) {
        name_end(s, j + 1)
    } else {
        j
    }
}

/// The end of the run of decimal digits of `s` from `j`.
pub open spec fn digits_end(s: Seq<char>, j: int) -> int
    decreases s.len() - j,
{
    if j < s.len() && 0 <= j && is_digit(s[j]) {
        digits_end(s, j + 1)
    } else {
        j
    }
}

/// The end of the run of hexadecimal digits of `s` from `j`.
pub open spec fn hex_end(s: Seq<char>, j: int) -> int
    decreases s.len() - j,
{
    if j < s.len() && 0 <= j && is_hex_digit(s[j]) {
        hex_end(s, j + 1)
    } else {
        j
    }
}

/// The end of the run of white space of `s` from `j`.
pub open spec fn gap_end(s: Seq<char>, j: int) -> int
    decreases s.len() - j,
{
    if j < s.len() && 0 <= j && is_gap(s[j]) {
        gap_end(s, j + 1)
    } else {
        j
    }
}

/// The end of the line of `s` that `j` is on: the next `\n` or the end.
pub open spec fn line_end(s: Seq<char>, j: int) -> int
    decreases s.len() - j,
{
    if j < s.len() && 0 <= j && s[j] != '\n' {
        line_end(s, j + 1)
    } else {
        j
    }
}

/// The end of a `/* */` comment whose body starts at `j`: just past the
/// first `*/` from `j`, if there is one.
pub open spec fn block_end(s: Seq<char>, j: int) -> Option<int>
    decreases s.len() - j,
{
    if 0 <= j && j + 1 < s.len() {
        if s[j] == '*' && s[j + 1] == '/' {
            Some(j + 2)
        } else {
            block_end(s, j + 1)
        }
    } else {
        None
    }
}

/// The end of a string literal whose body starts at `j`: just past the
/// closing quote, if there is one. A backslash escapes the char after it,
/// unless that is a line break.
pub open spec fn string_end(s: Seq<char>, j: int) -> Option<int>
    decreases s.len() - j,
{
    if 0 <= j && j < s.len() {
        if s[j] == '"' {
            Some(j + 1)
        } else if s[j] == '\\' {
            if j + 1 < s.len() && s[j + 1] != '\n' {
                string_end(s, j + 2)
            } else {
                None
            }
        } else {
            string_end(s, j + 1)
        }
    } else {
        None
    }
}

/// The value of a run of hexadecimal digits.
pub open spec fn hex_value(s: Seq<char>) -> nat
    decreases s.len(),
{
    if s.len() == 0 {
        0
    } else {
        let c = s.last();
        let d: int = if is_digit(c) {
            c as int - '0' as int
        } else if 'a' <= c && c <= 'f' {
            c as int - 'a' as int + 10
        } else {
            c as int - 'A' as int + 10
        };
        hex_value(s.drop_last()) * 16 + d as nat
    }
}

/// The keyword that the name `t` spells, if any.
pub open spec fn keyword(t: Seq<char>) -> Option<Token> {
    if t == "namespace"@ { Some(Token::Namespace) }
    else if t == "include"@ { Some(Token::Include) }
    else if t == "attribute"@ { Some(Token::Attribute) }
    else if t == "table"@ { Some(Token::Table) }
    else if t == "struct"@ { Some(Token::Struct) }
    else if t == "enum"@ { Some(Token::Enum) }
    else if t == "union"@ { Some(Token::Union) }
    else if t == "root_type"@ { Some(Token::RootType) }
    else if t == "file_identifier"@ { Some(Token::FileIdentifier) }
    else if t == "file_extension"@ { Some(Token::FileExtension) }
    else if t == "rpc_service"@ { Some(Token::RpcService) }
    else if t == "bool"@ { Some(Token::Bool) }
    else if t == "byte"@ { Some(Token::Byte) }
    else if t == "ubyte"@ { Some(Token::UByte) }
    else if t == "short"@ { Some(Token::Short) }
    else if t == "ushort"@ { Some(Token::UShort) }
    else if t == "int"@ { Some(Token::Int) }
    else if t == "uint"@ { Some(Token::UInt) }
    else if t == "long"@ { Some(Token::Long) }
    else if t == "ulong"@ { Some(Token::ULong) }
    else if t == "float"@ { Some(Token::Float) }
    else if t == "double"@ { Some(Token::Double) }
    else if t == "int8"@ { Some(Token::Int8) }
    else if t == "uint8"@ { Some(Token::UInt8) }
    else if t == "int16"@ { Some(Token::Int16) }
    else if t == "uint16"@ { Some(Token::UInt16) }
    else if t == "int32"@ { Some(Token::Int32) }
    else if t == "uint32"@ { Some(Token::UInt32) }
    else if t == "int64"@ { Some(Token::Int64) }
    else if t == "uint64"@ { Some(Token::UInt64) }
    else if t == "float32"@ { Some(Token::Float32) }
    else if t == "float64"@ { Some(Token::Float64) }
    else if t == "string"@ { Some(Token::String) }
    else if t == "true"@ { Some(Token::True) }
    else if t == "false"@ { Some(Token::False) }
    else { None }
}

/// The single-char token `c` is, if any.
pub open spec fn punctuation(c: char) -> Option<Token> {
    if c == '{' { Some(Token::LBrace) }
    else if c == '}' { Some(Token::RBrace) }
    else if c == '(' { Some(Token::LParen) }
    else if c == ')' { Some(Token::RParen) }
    else if c == '[' { Some(Token::LBracket) }
    else if c == ']' { Some(Token::RBracket) }
    else if c == ';' { Some(Token::Semicolon) }
    else if c == ':' { Some(Token::Colon) }
    else if c == ',' { Some(Token::Comma) }
    else if c == '=' { Some(Token::Equals) }
    else if c == '.' { Some(Token::Dot) }
    else { None }
}

/// What the lexer finds at a position: nothing more, white space to skip,
/// a token (its kind, text, value and end), or no token, up to an end.
pub enum Step {
    End,
    Skip(int),
    Found(Token, Seq<char>, i64, int),
    Fail(int),
}

/// The end of a number literal starting with a digit or `-` at `i`, and
/// whether it has a fraction.
pub open spec fn number_end(s: Seq<char>, i: int) -> (int, bool) {
    let d0 = if s[i] == '-' { i + 1 } else { i };
    let de = digits_end(s, d0);
    if de + 1 < s.len() && s[de] == '.' && is_digit(s[de + 1]) {
        let fe = digits_end(s, de + 1);
        if fe < s.len() && (s[fe] == 'e' || s[fe] == 'E') {
            let k = if fe + 1 < s.len() && (s[fe + 1] == '+' || s[fe + 1] == '-') {
                fe + 2
            } else {
                fe + 1
            };
            if k < s.len() && is_digit(s[k]) {
                (digits_end(s, k), true)
            } else {
                (fe, true)
            }
        } else {
            (fe, true)
        }
    } else {
        (de, false)
    }
}

/// The token at `i` of `s`.
pub open spec fn step_at(s: Seq<char>, i: int) -> Step {
    if i >= s.len() {
        Step::End
    } else {
        let c = s[i];
        if is_gap(c) {
            Step::Skip(gap_end(s, i))
        } else if c == '/' && i + 1 < s.len() && s[i + 1] == '/' {
            let e = line_end(s, i);
            if i + 2 < s.len() && s[i + 2] == '/' {
                Step::Found(Token::DocComment, trim(s.subrange(i + 3, e)), 0, e)
            } else {
                Step::Found(Token::LineComment, trim(s.subrange(i + 2, e)), 0, e)
            }
        } else if c == '/' && i + 1 < s.len() && s[i + 1] == '*' {
            match block_end(s, i + 2) {
                Some(e) => Step::Found(Token::BlockComment, trim(s.subrange(i + 2, e - 2)), 0, e),
                None => Step::Fail(i + 1),
            }
        } else if c == '"' {
            match string_end(s, i + 1) {
                Some(e) => Step::Found(Token::StringLiteral, s.subrange(i + 1, e - 1), 0, e),
                None => Step::Fail(i + 1),
            }
        } else if c == '0' && i + 2 < s.len() && (s[i + 1] == 'x' || s[i + 1] == 'X') && is_hex_digit(
            s[i + 2],
        ) {
            let e = hex_end(s, i + 2);
            let v = hex_value(s.subrange(i + 2, e));
            if v <= i64::MAX {
                Step::Found(Token::HexLiteral, Seq::empty(), v as i64, e)
            } else {
                Step::Fail(e)
            }
        } else if is_digit(c) || (c == '-' && i + 1 < s.len() && is_digit(s[i + 1])) {
            let (e, fraction) = number_end(s, i);
            if fraction {
                Step::Found(Token::FloatLiteral, s.subrange(i, e), 0, e)
            } else {
                let d0 = if c == '-' { i + 1 } else { i };
                let v: int = if c == '-' {
                    -(digits_value(s.subrange(d0, e)) as int)
                } else {
                    digits_value(s.subrange(d0, e)) as int
                };
                if i64::MIN <= v && v <= i64::MAX {
                    Step::Found(Token::IntegerLiteral, Seq::empty(), v as i64, e)
                } else {
                    Step::Fail(e)
                }
            }
        } else if is_name_start(c) {
            let e = name_end(s, i);
            let t = s.subrange(i, e);
            match keyword(t) {
                Some(k) => Step::Found(k, Seq::empty(), 0, e),
                None => Step::Found(Token::Identifier, t, 0, e),
            }
        } else {
            match punctuation(c) {
                Some(p) => Step::Found(p, Seq::empty(), 0, i + 1),
                None => Step::Fail(i + 1),
            }
        }
    }
}

/// Whether `tokenize` keeps tokens of kind `t`: all but plain comments.
pub open spec fn kept(t: Token) -> bool {
    t != Token::LineComment && t != Token::BlockComment
}

/// The tokens of `s` from `i` on, or the error that stops them.
pub open spec fn lex_from(s: Seq<char>, i: int) -> Result<Seq<TokV>, LexErrorV>
    decreases s.len() - i,
{
    if i < 0 || i >= s.len() {
        Ok(Seq::empty())
    } else {
        match step_at(s, i) {
            Step::End => Ok(Seq::empty()),
            Step::Skip(j) => if i < j <= s.len() {
                lex_from(s, j)
            } else {
                Ok(Seq::empty())
            },
            Step::Found(t, text, value, j) => if i < j <= s.len() {
                match lex_from(s, j) {
                    Ok(rest) => if kept(t) {
                        Ok(
                            seq![
                                TokV {
                                    token: t,
                                    text,
                                    value,
                                    start: byte_len(s.take(i)) as usize,
                                    end: byte_len(s.take(j)) as usize,
                                },
                            ] + rest,
                        )
                    } else {
                        Ok(rest)
                    },
                    Err(e) => Err(e),
                }
            } else {
                Ok(Seq::empty())
            },
            Step::Fail(j) => Err(
                LexErrorV {
                    start: byte_len(s.take(i)) as usize,
                    end: byte_len(s.take(j)) as usize,
                    message: "Unexpected token: '"@ + s.subrange(i, j) + "'"@,
                },
            ),
        }
    }
}

/// The tokens of `s`, or the error that stops them.
pub open spec fn lex(s: Seq<char>) -> Result<Seq<TokV>, LexErrorV> {
    lex_from(s, 0)
}


fn width_of(c: char) -> (r: usize)
    ensures
        r == char_width(c),
{
    let u = c as u32;
    if u <= 0x7f {
        1
    } else if u <= 0x7ff {
        2
    } else if u <= 0xffff {
        3
    } else {
        4
    }
}

proof fn lemma_byte_len_take(s: Seq<char>, k: int)
    requires
        0 <= k < s.len(),
    ensures
        byte_len(s.take(k + 1)) == byte_len(s.take(k)) + char_width(s[k]),
{
    assert(s.take(k + 1).drop_last() == s.take(k));
}

proof fn lemma_byte_len_mono(s: Seq<char>, k: int)
    requires
        0 <= k <= s.len(),
    ensures
        byte_len(s.take(k)) <= byte_len(s),
    decreases s.len() - k,
{
    if k < s.len() {
        lemma_byte_len_take(s, k);
        lemma_byte_len_mono(s, k + 1);
    } else {
        assert(s.take(k) == s);
    }
}

/// Between two char positions, the byte offset grows.
proof fn lemma_byte_len_grows(s: Seq<char>, a: int, b: int)
    requires
        0 <= a < b <= s.len(),
    ensures
        byte_len(s.take(a)) < byte_len(s.take(b)),
    decreases b - a,
{
    lemma_byte_len_take(s, b - 1);
    if a < b - 1 {
        lemma_byte_len_grows(s, a, b - 1);
    }
}

/// Whether each of `tv` spans a non-empty byte range between `lo` and `hi`,
/// each ending before the next begins.
pub open spec fn spans_in_order(tv: Seq<TokV>, lo: int, hi: int) -> bool {
    &&& forall|k: int| 0 <= k < tv.len() ==> lo <= (#[trigger] tv[k]).start < tv[k].end <= hi
    &&& forall|k: int| 0 < k < tv.len() ==> (#[trigger] tv[k - 1]).end <= tv[k].start
}

proof fn lemma_lex_from_spans(s: Seq<char>, i: int)
    requires
        0 <= i <= s.len(),
        byte_len(s) <= usize::MAX,
    ensures
        lex_from(s, i) matches Ok(tv) ==> spans_in_order(tv, byte_len(s.take(i)) as int, byte_len(s) as int),
    decreases s.len() - i,
{
    if i < s.len() {
        lemma_byte_len_mono(s, i);
        match step_at(s, i) {
            Step::Skip(j) => {
                if i < j <= s.len() {
                    lemma_lex_from_spans(s, j);
                    lemma_byte_len_grows(s, i, j);
                }
            },
            Step::Found(t, text, value, j) => {
                if i < j <= s.len() {
                    lemma_lex_from_spans(s, j);
                    lemma_byte_len_grows(s, i, j);
                    lemma_byte_len_mono(s, j);
                    if let Ok(rest) = lex_from(s, j) {
                        if kept(t) {
                            let tok = TokV {
                                token: t,
                                text,
                                value,
                                start: byte_len(s.take(i)) as usize,
                                end: byte_len(s.take(j)) as usize,
                            };
                            let tv = seq![tok] + rest;
                            assert forall|k: int| 0 <= k < tv.len() implies byte_len(s.take(i)) <= (
                            #[trigger] tv[k]).start < tv[k].end <= byte_len(s) by {
                                if k > 0 {
                                    assert(tv[k] == rest[k - 1]);
                                }
                            }
                            assert forall|k: int| 0 < k < tv.len() implies (#[trigger] tv[k
                                - 1]).end <= tv[k].start by {
                                assert(tv[k] == rest[k - 1]);
                                if k > 1 {
                                    assert(tv[k - 1] == rest[k - 2]);
                                }
                            }
                        }
                    }
                }
            },
            _ => {},
        }
    }
}

/// The tokens come in source order: each spans a non-empty range of the
/// source's bytes, and each ends before the next begins.
pub proof fn lemma_token_spans(s: Seq<char>)
    requires
        byte_len(s) <= usize::MAX,
    ensures
        lex(s) matches Ok(tv) ==> spans_in_order(tv, 0, byte_len(s) as int),
{
    lemma_lex_from_spans(s, 0);
    assert(s.take(0) =~= Seq::<char>::empty());
}

/// The byte offset of char `j`, from that of char `i`.
fn advance_bytes(v: &Vec<char>, i: usize, j: usize, b: usize) -> (r: usize)
    requires
        i <= j <= v@.len(),
        b == byte_len(v@.take(i as int)),
        byte_len(v@) <= usize::MAX,
    ensures
        r == byte_len(v@.take(j as int)),
{
    let mut k = i;
    let mut r = b;
    while k < j
        invariant
            i <= k <= j <= v@.len(),
            r == byte_len(v@.take(k as int)),
            byte_len(v@) <= usize::MAX,
        decreases j - k,
    {
        proof {
            lemma_byte_len_take(v@, k as int);
            lemma_byte_len_mono(v@, k + 1);
        }
        r = r + width_of(v[k]);
        k = k + 1;
    }
    r
}

proof fn lemma_runs_ge(s: Seq<char>, j: int)
    requires
        0 <= j <= s.len(),
    ensures
        name_end(s, j) >= j,
        gap_end(s, j) >= j,
        line_end(s, j) >= j,
    decreases s.len() - j,
{
    if j < s.len() {
        lemma_runs_ge(s, j + 1);
    }
}

proof fn lemma_runs_advance(s: Seq<char>, j: int)
    requires
        0 <= j < s.len(),
    ensures
        is_name_char(s[j]) ==> name_end(s, j) > j,
        is_gap(s[j]) ==> gap_end(s, j) > j,
{
    lemma_runs_ge(s, j + 1);
}

fn name_char(c: char) -> (r: bool)
    ensures
        r == is_name_char(c),
{
    ('a' <= c && c <= 'z') || ('A' <= c && c <= 'Z') || c == '_' || ('0' <= c && c <= '9')
}

fn name_start(c: char) -> (r: bool)
    ensures
        r == is_name_start(c),
{
    ('a' <= c && c <= 'z') || ('A' <= c && c <= 'Z') || c == '_'
}

fn digit(c: char) -> (r: bool)
    ensures
        r == is_digit(c),
{
    '0' <= c && c <= '9'
}

fn hex_digit(c: char) -> (r: bool)
    ensures
        r == is_hex_digit(c),
{
    ('0' <= c && c <= '9') || ('a' <= c && c <= 'f') || ('A' <= c && c <= 'F')
}

fn gap(c: char) -> (r: bool)
    ensures
        r == is_gap(c),
{
    c == ' ' || c == '\t' || c == '\r' || c == '\n' || c == '\x0C'
}

fn run_name(v: &Vec<char>, j: usize) -> (r: usize)
    requires
        j <= v@.len(),
    ensures
        r == name_end(v@, j as int),
        j <= r <= v@.len(),
{
    let mut k = j;
    while k < v.len() && name_char(v[k])
        invariant
            j <= k <= v@.len(),
            name_end(v@, j as int) == name_end(v@, k as int),
        decreases v.len() - k,
    {
        k = k + 1;
    }
    k
}

fn run_digits(v: &Vec<char>, j: usize) -> (r: usize)
    requires
        j <= v@.len(),
    ensures
        r == digits_end(v@, j as int),
        j <= r <= v@.len(),
{
    let mut k = j;
    while k < v.len() && digit(v[k])
        invariant
            j <= k <= v@.len(),
            digits_end(v@, j as int) == digits_end(v@, k as int),
        decreases v.len() - k,
    {
        k = k + 1;
    }
    k
}

fn run_hex(v: &Vec<char>, j: usize) -> (r: usize)
    requires
        j <= v@.len(),
    ensures
        r == hex_end(v@, j as int),
        j <= r <= v@.len(),
{
    let mut k = j;
    while k < v.len() && hex_digit(v[k])
        invariant
            j <= k <= v@.len(),
            hex_end(v@, j as int) == hex_end(v@, k as int),
        decreases v.len() - k,
    {
        k = k + 1;
    }
    k
}

fn run_gap(v: &Vec<char>, j: usize) -> (r: usize)
    requires
        j <= v@.len(),
    ensures
        r == gap_end(v@, j as int),
        j <= r <= v@.len(),
{
    let mut k = j;
    while k < v.len() && gap(v[k])
        invariant
            j <= k <= v@.len(),
            gap_end(v@, j as int) == gap_end(v@, k as int),
        decreases v.len() - k,
    {
        k = k + 1;
    }
    k
}

fn run_line(v: &Vec<char>, j: usize) -> (r: usize)
    requires
        j <= v@.len(),
    ensures
        r == line_end(v@, j as int),
        j <= r <= v@.len(),
{
    let mut k = j;
    while k < v.len() && v[k] != '\n'
        invariant
            j <= k <= v@.len(),
            line_end(v@, j as int) == line_end(v@, k as int),
        decreases v.len() - k,
    {
        k = k + 1;
    }
    k
}

fn find_block_end(v: &Vec<char>, j: usize) -> (r: Option<usize>)
    requires
        j <= v@.len(),
    ensures
        match r {
            Some(e) => block_end(v@, j as int) == Some(e as int) && j + 2 <= e <= v@.len(),
            None => block_end(v@, j as int) is None,
        },
{
    let mut k = j;
    while k < v.len() && k + 1 < v.len()
        invariant
            j <= k <= v@.len(),
            block_end(v@, j as int) == block_end(v@, k as int),
        decreases v.len() - k,
    {
        if v[k] == '*' && v[k + 1] == '/' {
            return Some(k + 2);
        }
        k = k + 1;
    }
    None
}

fn find_string_end(v: &Vec<char>, j: usize) -> (r: Option<usize>)
    requires
        j <= v@.len(),
    ensures
        match r {
            Some(e) => string_end(v@, j as int) == Some(e as int) && j + 1 <= e <= v@.len(),
            None => string_end(v@, j as int) is None,
        },
{
    let mut k = j;
    while k < v.len()
        invariant
            j <= k,
            string_end(v@, j as int) == string_end(v@, k as int),
        decreases v.len() - k,
    {
        if v[k] == '"' {
            return Some(k + 1);
        } else if v[k] == '\\' {
            if k + 1 < v.len() && v[k + 1] != '\n' {
                k = k + 2;
            } else {
                return None;
            }
        } else {
            k = k + 1;
        }
    }
    None
}

fn hex_value_capped(v: &Vec<char>, lo: usize, hi: usize) -> (r: u128)
    requires
        lo <= hi <= v@.len(),
        forall|k: int| lo <= k < hi ==> is_hex_digit(#[trigger] v@[k]),
    ensures
        r == if hex_value(v@.subrange(lo as int, hi as int)) < BIG {
            hex_value(v@.subrange(lo as int, hi as int))
        } else {
            BIG as nat
        },
{
    let mut acc: u128 = 0;
    let mut i = lo;
    while i < hi
        invariant
            lo <= i <= hi <= v@.len(),
            forall|k: int| lo <= k < hi ==> is_hex_digit(#[trigger] v@[k]),
            acc == if hex_value(v@.subrange(lo as int, i as int)) < BIG {
                hex_value(v@.subrange(lo as int, i as int))
            } else {
                BIG as nat
            },
        decreases hi - i,
    {
        let ghost before = v@.subrange(lo as int, i as int);
        let ghost after = v@.subrange(lo as int, i + 1);
        assert(after.drop_last() == before);
        assert(after.last() == v@[i as int]);
        let c = v[i];
        assert(is_hex_digit(v@[i as int]));
        let d: u128 = if '0' <= c && c <= '9' {
            (c as u32 - '0' as u32) as u128
        } else if 'a' <= c && c <= 'f' {
            (c as u32 - 'a' as u32 + 10) as u128
        } else {
            (c as u32 - 'A' as u32 + 10) as u128
        };
        if acc >= BIG {
            assert(hex_value(after) >= hex_value(before));
        } else {
            let next = acc * 16 + d;
            acc = if next >= BIG { BIG } else { next };
        }
        i = i + 1;
    }
    acc
}

fn keyword_of(t: &str) -> (r: Option<Token>)
    ensures
        r == keyword(t@),
{
    if same_text(t, "namespace") { Some(Token::Namespace) }
    else if same_text(t, "include") { Some(Token::Include) }
    else if same_text(t, "attribute") { Some(Token::Attribute) }
    else if same_text(t, "table") { Some(Token::Table) }
    else if same_text(t, "struct") { Some(Token::Struct) }
    else if same_text(t, "enum") { Some(Token::Enum) }
    else if same_text(t, "union") { Some(Token::Union) }
    else if same_text(t, "root_type") { Some(Token::RootType) }
    else if same_text(t, "file_identifier") { Some(Token::FileIdentifier) }
    else if same_text(t, "file_extension") { Some(Token::FileExtension) }
    else if same_text(t, "rpc_service") { Some(Token::RpcService) }
    else if same_text(t, "bool") { Some(Token::Bool) }
    else if same_text(t, "byte") { Some(Token::Byte) }
    else if same_text(t, "ubyte") { Some(Token::UByte) }
    else if same_text(t, "short") { Some(Token::Short) }
    else if same_text(t, "ushort") { Some(Token::UShort) }
    else if same_text(t, "int") { Some(Token::Int) }
    else if same_text(t, "uint") { Some(Token::UInt) }
    else if same_text(t, "long") { Some(Token::Long) }
    else if same_text(t, "ulong") { Some(Token::ULong) }
    else if same_text(t, "float") { Some(Token::Float) }
    else if same_text(t, "double") { Some(Token::Double) }
    else if same_text(t, "int8") { Some(Token::Int8) }
    else if same_text(t, "uint8") { Some(Token::UInt8) }
    else if same_text(t, "int16") { Some(Token::Int16) }
    else if same_text(t, "uint16") { Some(Token::UInt16) }
    else if same_text(t, "int32") { Some(Token::Int32) }
    else if same_text(t, "uint32") { Some(Token::UInt32) }
    else if same_text(t, "int64") { Some(Token::Int64) }
    else if same_text(t, "uint64") { Some(Token::UInt64) }
    else if same_text(t, "float32") { Some(Token::Float32) }
    else if same_text(t, "float64") { Some(Token::Float64) }
    else if same_text(t, "string") { Some(Token::String) }
    else if same_text(t, "true") { Some(Token::True) }
    else if same_text(t, "false") { Some(Token::False) }
    else { None }
}

fn punctuation_of(c: char) -> (r: Option<Token>)
    ensures
        r == punctuation(c),
{
    if c == '{' { Some(Token::LBrace) }
    else if c == '}' { Some(Token::RBrace) }
    else if c == '(' { Some(Token::LParen) }
    else if c == ')' { Some(Token::RParen) }
    else if c == '[' { Some(Token::LBracket) }
    else if c == ']' { Some(Token::RBracket) }
    else if c == ';' { Some(Token::Semicolon) }
    else if c == ':' { Some(Token::Colon) }
    else if c == ',' { Some(Token::Comma) }
    else if c == '=' { Some(Token::Equals) }
    else if c == '.' { Some(Token::Dot) }
    else { None }
}

fn chars_between(v: &Vec<char>, lo: usize, hi: usize) -> (r: Vec<char>)
    requires
        lo <= hi <= v@.len(),
    ensures
        r@ == v@.subrange(lo as int, hi as int),
{
    let mut out: Vec<char> = Vec::new();
    let mut k = lo;
    while k < hi
        invariant
            lo <= k <= hi <= v@.len(),
            out@ == v@.subrange(lo as int, k as int),
        decreases hi - k,
    {
        out.push(v[k]);
        k = k + 1;
    }
    out
}

/// What the lexer finds at a position, as computed.
enum Found {
    End,
    Skip(usize),
    Token(Token, Vec<char>, i64, usize),
    Fail(usize),
}

proof fn lemma_digits_all(s: Seq<char>, j: int)
    requires
        0 <= j <= s.len(),
    ensures
        j <= digits_end(s, j) <= s.len(),
        j < s.len() && is_digit(s[j]) ==> digits_end(s, j) > j,
        forall|k: int| j <= k < digits_end(s, j) ==> is_digit(#[trigger] s[k]),
    decreases s.len() - j,
{
    if j < s.len() && is_digit(s[j]) {
        lemma_digits_all(s, j + 1);
    }
}

proof fn lemma_hex_all(s: Seq<char>, j: int)
    requires
        0 <= j <= s.len(),
    ensures
        j <= hex_end(s, j) <= s.len(),
        j < s.len() && is_hex_digit(s[j]) ==> hex_end(s, j) > j,
        forall|k: int| j <= k < hex_end(s, j) ==> is_hex_digit(#[trigger] s[k]),
    decreases s.len() - j,
{
    if j < s.len() && is_hex_digit(s[j]) {
        lemma_hex_all(s, j + 1);
    }
}

fn number_end_of(v: &Vec<char>, i: usize) -> (r: (usize, bool))
    requires
        i < v@.len(),
        is_digit(v@[i as int]) || (v@[i as int] == '-' && i + 1 < v@.len() && is_digit(v@[i + 1])),
    ensures
        (r.0 as int, r.1) == number_end(v@, i as int),
        i < r.0 <= v@.len(),
{
    let n = v.len();
    let d0 = if v[i] == '-' { i + 1 } else { i };
    let de = run_digits(v, d0);
    proof {
        lemma_digits_all(v@, d0 as int);
        assert(de > d0);
    }
    if de < n && de + 1 < n && v[de] == '.' && digit(v[de + 1]) {
        let fe = run_digits(v, de + 1);
        if fe < n && (v[fe] == 'e' || v[fe] == 'E') {
            let k = if fe + 1 < n && (v[fe + 1] == '+' || v[fe + 1] == '-') {
                fe + 2
            } else {
                fe + 1
            };
            if k < n && digit(v[k]) {
                let e = run_digits(v, k);
                (e, true)
            } else {
                (fe, true)
            }
        } else {
            (fe, true)
        }
    } else {
        (de, false)
    }
}

/// The step at `i`, as [`step_at`] says.
fn step(v: &Vec<char>, i: usize) -> (r: Found)
    requires
        i <= v@.len(),
    ensures
        match (r, step_at(v@, i as int)) {
            (Found::End, Step::End) => true,
            (Found::Skip(j), Step::Skip(k)) => j == k && i < j <= v@.len(),
            (Found::Token(t, text, value, j), Step::Found(t2, text2, value2, k)) => t == t2
                && text@ == text2 && value == value2 && j == k && i < j <= v@.len(),
            (Found::Fail(j), Step::Fail(k)) => j == k && i < j <= v@.len(),
            _ => false,
        },
{
    let n = v.len();
    if i >= n {
        return Found::End;
    }
    let c = v[i];
    proof {
        lemma_runs_advance(v@, i as int);
    }
    if gap(c) {
        return Found::Skip(run_gap(v, i));
    }
    if c == '/' && i + 1 < n && v[i + 1] == '/' {
        let e = run_line(v, i);
        proof {
            assert(line_end(v@, i as int) == line_end(v@, i + 1));
            assert(line_end(v@, i + 1) == line_end(v@, i + 2));
        }
        if i + 2 < n && v[i + 2] == '/' {
            proof {
                assert(line_end(v@, i + 2) == line_end(v@, i + 3));
                lemma_runs_ge(v@, i + 3);
            }
            let body = chars_between(v, i + 3, e);
            return Found::Token(Token::DocComment, trim_chars(body.as_slice()), 0, e);
        } else {
            proof {
                lemma_runs_ge(v@, i + 2);
            }
            let body = chars_between(v, i + 2, e);
            return Found::Token(Token::LineComment, trim_chars(body.as_slice()), 0, e);
        }
    }
    if c == '/' && i + 1 < n && v[i + 1] == '*' {
        match find_block_end(v, i + 2) {
            Some(e) => {
                let body = chars_between(v, i + 2, e - 2);
                return Found::Token(Token::BlockComment, trim_chars(body.as_slice()), 0, e);
            },
            None => {
                return Found::Fail(i + 1);
            },
        }
    }
    if c == '"' {
        match find_string_end(v, i + 1) {
            Some(e) => {
                return Found::Token(Token::StringLiteral, chars_between(v, i + 1, e - 1), 0, e);
            },
            None => {
                return Found::Fail(i + 1);
            },
        }
    }
    if c == '0' && n - i > 2 && (v[i + 1] == 'x' || v[i + 1] == 'X') && hex_digit(v[i + 2]) {
        let e = run_hex(v, i + 2);
        proof {
            lemma_hex_all(v@, i + 2);
            assert forall|k: int| i + 2 <= k < e implies is_hex_digit(#[trigger] v@[k]) by {}
        }
        let h = hex_value_capped(v, i + 2, e);
        if h <= 0x7fff_ffff_ffff_ffff {
            return Found::Token(Token::HexLiteral, Vec::new(), h as i64, e);
        } else {
            return Found::Fail(e);
        }
    }
    if digit(c) || (c == '-' && i + 1 < n && digit(v[i + 1])) {
        let (e, fraction) = number_end_of(v, i);
        if fraction {
            return Found::Token(Token::FloatLiteral, chars_between(v, i, e), 0, e);
        }
        let d0 = if c == '-' { i + 1 } else { i };
        proof {
            lemma_digits_all(v@, d0 as int);
            let sub = v@.subrange(d0 as int, e as int);
            assert forall|k: int| 0 <= k < sub.len() implies is_digit(#[trigger] sub[k]) by {
                assert(sub[k] == v@[d0 + k]);
            }
        }
        let m = digits_value_capped(v.as_slice(), d0, e);
        if c == '-' {
            if m <= 0x8000_0000_0000_0000 {
                let value: i64 = if m == 0x8000_0000_0000_0000 {
                    i64::MIN
                } else {
                    -(m as i64)
                };
                return Found::Token(Token::IntegerLiteral, Vec::new(), value, e);
            } else {
                return Found::Fail(e);
            }
        } else {
            if m <= 0x7fff_ffff_ffff_ffff {
                return Found::Token(Token::IntegerLiteral, Vec::new(), m as i64, e);
            } else {
                return Found::Fail(e);
            }
        }
    }
    if name_start(c) {
        let e = run_name(v, i);
        let t = chars_between(v, i, e);
        let ts = string_of(t.as_slice());
        match keyword_of(ts.as_str()) {
            Some(k) => {
                return Found::Token(k, Vec::new(), 0, e);
            },
            None => {
                return Found::Token(Token::Identifier, t, 0, e);
            },
        }
    }
    match punctuation_of(c) {
        Some(p) => Found::Token(p, Vec::new(), 0, i + 1),
        None => Found::Fail(i + 1),
    }
}

/// The result of lexing what comes after tokens `out` were read: the
/// error, or `out` followed by the rest.
pub open spec fn after(out: Seq<TokV>, rest: Result<Seq<TokV>, LexErrorV>) -> Result<Seq<TokV>, LexErrorV> {
    match rest {
        Ok(r) => Ok(out + r),
        Err(e) => Err(e),
    }
}

/// Splits a FlatBuffers schema source into tokens, dropping white space
/// and plain comments.
pub fn tokenize(source: &str) -> (r: Result<Vec<SpannedToken>, LexError>)
    requires
        byte_len(source@) <= usize::MAX,
    ensures
        match (r, lex(source@)) {
            (Ok(ts), Ok(tv)) => toks_view(ts@) == tv,
            (Err(e), Err(ev)) => e@ == ev,
            _ => false,
        },
{
    let v = chars_of(source);
    let mut out: Vec<SpannedToken> = Vec::new();
    let mut i: usize = 0;
    let mut b: usize = 0;
    assert(v@.take(0) =~= Seq::<char>::empty());
    assert(toks_view(out@) =~= Seq::<TokV>::empty());
    assert(after(Seq::<TokV>::empty(), lex_from(v@, 0)) == lex_from(v@, 0)) by {
        match lex_from(v@, 0) {
            Ok(r) => {
                assert(Seq::<TokV>::empty() + r =~= r);
            },
            Err(e) => {},
        }
    }
    while i < v.len()
        invariant
            v@ == source@,
            byte_len(v@) <= usize::MAX,
            i <= v@.len(),
            b == byte_len(v@.take(i as int)),
            lex(v@) == after(toks_view(out@), lex_from(v@, i as int)),
        decreases v.len() - i,
    {
        match step(&v, i) {
            Found::End => {
                return Ok(out);
            },
            Found::Skip(j) => {
                b = advance_bytes(&v, i, j, b);
                i = j;
            },
            Found::Token(t, text, value, j) => {
                let e = advance_bytes(&v, i, j, b);
                if t != Token::LineComment && t != Token::BlockComment {
                    let tok = SpannedToken {
                        token: t,
                        text: string_of(text.as_slice()),
                        value,
                        span: std::ops::Range { start: b, end: e },
                    };
                    proof {
                        let tv = toks_view(out@.push(tok));
                        assert(tv =~= toks_view(out@).push(tok@));
                        match lex_from(v@, j as int) {
                            Ok(rest) => {
                                assert(toks_view(out@) + (seq![tok@] + rest) =~= tv + rest);
                            },
                            Err(er) => {},
                        }
                    }
                    out.push(tok);
                }
                b = e;
                i = j;
            },
            Found::Fail(j) => {
                let e = advance_bytes(&v, i, j, b);
                let mut message = owned("Unexpected token: '");
                let part = chars_between(&v, i, j);
                crate::text::push_chars(&mut message, part.as_slice());
                message.append("'");
                return Err(LexError { span: std::ops::Range { start: b, end: e }, message });
            },
        }
    }
    proof {
        match lex_from(v@, i as int) {
            Ok(r) => {
                assert(r =~= Seq::<TokV>::empty());
                assert(toks_view(out@) + r =~= toks_view(out@));
            },
            Err(e) => {},
        }
    }
    Ok(out)
}

} // verus!
