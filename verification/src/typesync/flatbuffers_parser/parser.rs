//! The FlatBuffers parser: from tokens to the syntax tree.
//!
//! The parser reads the schema item by item. `///` doc comments before a
//! table, struct, enum, union, field or enum value become its doc comment
//! (several joined by line breaks); those before other items wait for the
//! next item that takes them.

use vstd::prelude::*;
use crate::named_map::{NamedMap, put};
use crate::number::{Number, canonical_number};
use crate::text::{decimal, i64_text, join, join_strings, opt_text, owned, signed_decimal, texts};
use crate::typesync::flatbuffers_parser::ast::{
    EnumDef, EnumDefV, EnumValue, EnumValueV, FbsType, FbsTypeV, FieldDef, FieldDefV,
    FlatBuffersSchema, Metadata, MetadataV, SchemaV, ScalarType, StructDef, TableDef, TableDefV,
    UnionDef, UnionDefV, UnionVariant, UnionVariantV, attribute_texts, empty_schema, fields_view,
};
use crate::typesync::flatbuffers_parser::lexer::{
    LexError, SpannedToken, TokV, Token, byte_len, keyword, lex, tokenize, toks_view,
};
use crate::typesync::flatbuffers_parser::ast::scalar_named;

verus! {

/// A parse error, with the span of the token where it was found.
#[derive(Debug)]
pub struct ParseError {
    pub message: String,
    pub span: Option<std::ops::Range<usize>>,
}

/// The model of a [`ParseError`].
#[verifier::ext_equal]
pub struct ErrV {
    pub message: Seq<char>,
    pub span: Option<(usize, usize)>,
}

impl View for ParseError {
    type V = ErrV;

    open spec fn view(&self) -> ErrV {
        ErrV {
            message: self.message@,
            span: match self.span {
                Some(r) => Some((r.start, r.end)),
                None => None,
            },
        }
    }
}

/// Where the parser is: the next token, and the doc comments read but not
/// yet taken.
#[verifier::ext_equal]
pub struct St {
    pub pos: int,
    pub pending: Seq<Seq<char>>,
}

/// What a parsing step gives: a value and the state after it, or an error.
pub type Res<T> = Result<(T, St), ErrV>;

/// The kind of token `p`, if there is one.
pub open spec fn kind_at(ts: Seq<TokV>, p: int) -> Option<Token> {
    if 0 <= p < ts.len() {
        Some(ts[p].token)
    } else {
        None
    }
}

/// Whether token `p` is of kind `k`.
pub open spec fn is_kind(ts: Seq<TokV>, p: int, k: Token) -> bool {
    kind_at(ts, p) == Some(k)
}

/// The error `message` at token `p`, with that token's span if there is
/// one.
pub open spec fn err_at(ts: Seq<TokV>, p: int, message: Seq<char>) -> ErrV {
    ErrV {
        message,
        span: if 0 <= p < ts.len() {
            Some((ts[p].start, ts[p].end))
        } else {
            None
        },
    }
}

/// `st` moved on by one token.
pub open spec fn next(st: St) -> St {
    St { pos: st.pos + 1, pending: st.pending }
}

/// The name `{:?}` gives a token kind.
pub open spec fn token_name(k: Token) -> Seq<char> {
    match k {
        Token::Namespace => "Namespace"@,
        Token::Include => "Include"@,
        Token::Attribute => "Attribute"@,
        Token::Table => "Table"@,
        Token::Struct => "Struct"@,
        Token::Enum => "Enum"@,
        Token::Union => "Union"@,
        Token::RootType => "RootType"@,
        Token::FileIdentifier => "FileIdentifier"@,
        Token::FileExtension => "FileExtension"@,
        Token::RpcService => "RpcService"@,
        Token::LBrace => "LBrace"@,
        Token::RBrace => "RBrace"@,
        Token::LParen => "LParen"@,
        Token::RParen => "RParen"@,
        Token::LBracket => "LBracket"@,
        Token::RBracket => "RBracket"@,
        Token::Semicolon => "Semicolon"@,
        Token::Colon => "Colon"@,
        Token::Comma => "Comma"@,
        Token::Equals => "Equals"@,
        Token::Dot => "Dot"@,
        _ => "Token"@,
    }
}

/// The doc comments from `st` on, read into the pending ones.
pub open spec fn collect_docs(ts: Seq<TokV>, st: St) -> St
    decreases ts.len() - st.pos,
{
    if 0 <= st.pos < ts.len() && ts[st.pos].token == Token::DocComment {
        collect_docs(ts, St { pos: st.pos + 1, pending: st.pending.push(ts[st.pos].text) })
    } else {
        st
    }
}

/// The pending doc comments joined by line breaks, if there are any, and
/// the state with none pending.
pub open spec fn take_docs(st: St) -> (Option<Seq<char>>, St) {
    if st.pending.len() == 0 {
        (None, st)
    } else {
        (Some(join(st.pending, "\n"@)), St { pos: st.pos, pending: Seq::empty() })
    }
}

/// A token of kind `k`.
pub open spec fn p_expect(ts: Seq<TokV>, st: St, k: Token) -> Result<St, ErrV> {
    if is_kind(ts, st.pos, k) {
        Ok(next(st))
    } else {
        Err(err_at(ts, st.pos, "Expected "@ + token_name(k)))
    }
}

/// A token of kind `k` carrying text, and that text. A token of another
/// kind is consumed before the error, which falls on the token after it.
pub open spec fn p_text_token(ts: Seq<TokV>, st: St, k: Token, message: Seq<char>) -> Res<Seq<char>> {
    if 0 <= st.pos < ts.len() {
        if ts[st.pos].token == k {
            Ok((ts[st.pos].text, next(st)))
        } else {
            Err(err_at(ts, st.pos + 1, message))
        }
    } else {
        Err(err_at(ts, st.pos, message))
    }
}

/// A name.
pub open spec fn p_ident(ts: Seq<TokV>, st: St) -> Res<Seq<char>> {
    p_text_token(ts, st, Token::Identifier, "Expected identifier"@)
}

/// A string literal.
pub open spec fn p_string(ts: Seq<TokV>, st: St) -> Res<Seq<char>> {
    p_text_token(ts, st, Token::StringLiteral, "Expected string literal"@)
}

/// A decimal or hexadecimal integer.
pub open spec fn p_integer(ts: Seq<TokV>, st: St) -> Res<i64> {
    if 0 <= st.pos < ts.len() {
        if ts[st.pos].token == Token::IntegerLiteral || ts[st.pos].token == Token::HexLiteral {
            Ok((ts[st.pos].value, next(st)))
        } else {
            Err(err_at(ts, st.pos + 1, "Expected integer"@))
        }
    } else {
        Err(err_at(ts, st.pos, "Expected integer"@))
    }
}

/// A keyword `k`, then a string literal, then `;`.
pub open spec fn p_keyword_string(ts: Seq<TokV>, st: St, k: Token) -> Res<Seq<char>> {
    match p_expect(ts, st, k) {
        Err(e) => Err(e),
        Ok(st1) => match p_string(ts, st1) {
            Err(e) => Err(e),
            Ok((s, st2)) => match p_expect(ts, st2, Token::Semicolon) {
                Err(e) => Err(e),
                Ok(st3) => Ok((s, st3)),
            },
        },
    }
}

/// `root_type Name;`.
pub open spec fn p_root_type(ts: Seq<TokV>, st: St) -> Res<Seq<char>> {
    match p_expect(ts, st, Token::RootType) {
        Err(e) => Err(e),
        Ok(st1) => match p_ident(ts, st1) {
            Err(e) => Err(e),
            Ok((s, st2)) => match p_expect(ts, st2, Token::Semicolon) {
                Err(e) => Err(e),
                Ok(st3) => Ok((s, st3)),
            },
        },
    }
}

/// The `.Name` parts of a namespace after `parts`.
pub open spec fn p_namespace_parts(ts: Seq<TokV>, st: St, parts: Seq<Seq<char>>) -> Res<Seq<Seq<char>>>
    decreases ts.len() - st.pos,
{
    if is_kind(ts, st.pos, Token::Dot) {
        match p_ident(ts, next(st)) {
            Err(e) => Err(e),
            Ok((id, st2)) => p_namespace_parts(ts, st2, parts.push(id)),
        }
    } else {
        Ok((parts, st))
    }
}

/// A namespace's parts `r` followed by `;`, giving the parts joined by
/// dots.
pub open spec fn namespace_end(ts: Seq<TokV>, r: Res<Seq<Seq<char>>>) -> Res<Seq<char>> {
    match r {
        Err(e) => Err(e),
        Ok((parts, st3)) => match p_expect(ts, st3, Token::Semicolon) {
            Err(e) => Err(e),
            Ok(st4) => Ok((join(parts, "."@), st4)),
        },
    }
}

/// `namespace A.B.C;`, giving `A.B.C`.
pub open spec fn p_namespace(ts: Seq<TokV>, st: St) -> Res<Seq<char>> {
    match p_expect(ts, st, Token::Namespace) {
        Err(e) => Err(e),
        Ok(st1) => match p_ident(ts, st1) {
            Err(e) => Err(e),
            Ok((first, st2)) => namespace_end(ts, p_namespace_parts(ts, st2, seq![first])),
        },
    }
}

/// The lower-case hexadecimal digits of `n`.
pub open spec fn hex_digits(n: nat) -> Seq<char>
    decreases n,
{
    let d = n % 16;
    let c = if d < 10 {
        ((d + '0' as nat) as u32) as char
    } else {
        ((d - 10 + 'a' as nat) as u32) as char
    };
    if n < 16 {
        seq![c]
    } else {
        hex_digits(n / 16).push(c)
    }
}

/// The text of a float literal: its value as `{}` prints it.
pub open spec fn float_text(t: Seq<char>) -> Seq<char> {
    match canonical_number(t) {
        Some(c) => c,
        None => t,
    }
}

/// The value of a metadata attribute.
pub open spec fn p_metadata_value(ts: Seq<TokV>, st: St) -> Res<Seq<char>> {
    match kind_at(ts, st.pos) {
        Some(Token::StringLiteral) => p_string(ts, st),
        Some(Token::IntegerLiteral) => Ok((signed_decimal(ts[st.pos].value as int), next(st))),
        Some(Token::FloatLiteral) => Ok((float_text(ts[st.pos].text), next(st))),
        Some(Token::True) => Ok(("true"@, next(st))),
        Some(Token::False) => Ok(("false"@, next(st))),
        Some(Token::Identifier) => p_ident(ts, st),
        _ => Err(err_at(ts, st.pos, "Expected metadata value"@)),
    }
}

/// The default value of a field.
pub open spec fn p_scalar_value(ts: Seq<TokV>, st: St) -> Res<Seq<char>> {
    match kind_at(ts, st.pos) {
        Some(Token::IntegerLiteral) => Ok((signed_decimal(ts[st.pos].value as int), next(st))),
        Some(Token::HexLiteral) => Ok(("0x"@ + hex_digits((ts[st.pos].value as u64) as nat), next(st))),
        Some(Token::FloatLiteral) => Ok((float_text(ts[st.pos].text), next(st))),
        Some(Token::True) => Ok(("true"@, next(st))),
        Some(Token::False) => Ok(("false"@, next(st))),
        Some(Token::StringLiteral) => p_string(ts, st),
        Some(Token::Identifier) => p_ident(ts, st),
        _ => Err(err_at(ts, st.pos, "Expected scalar value"@)),
    }
}

/// The attributes of a metadata list after `attrs`, up to its `)`.
pub open spec fn p_attributes(ts: Seq<TokV>, st: St, attrs: MetadataV) -> Res<MetadataV>
    decreases ts.len() - st.pos,
{
    if is_kind(ts, st.pos, Token::RParen) {
        Ok((attrs, st))
    } else {
        match p_ident(ts, st) {
            Err(e) => Err(e),
            Ok((key, st1)) => {
                let value: Result<(Option<Seq<char>>, St), ErrV> = if is_kind(
                    ts,
                    st1.pos,
                    Token::Colon,
                ) {
                    match p_metadata_value(ts, next(st1)) {
                        Err(e) => Err(e),
                        Ok((v, st2)) => Ok((Some(v), st2)),
                    }
                } else {
                    Ok((None, st1))
                };
                match value {
                    Err(e) => Err(e),
                    Ok((v, st2)) => {
                        let st3 = if is_kind(ts, st2.pos, Token::Comma) {
                            next(st2)
                        } else {
                            st2
                        };
                        if st.pos < st3.pos {
                            p_attributes(ts, st3, put(attrs, key, v))
                        } else {
                            Err(err_at(ts, st.pos, "Expected identifier"@))
                        }
                    },
                }
            },
        }
    }
}

/// A metadata list's attributes `r` followed by `)`.
pub open spec fn metadata_end(ts: Seq<TokV>, r: Res<MetadataV>) -> Res<MetadataV> {
    match r {
        Err(e) => Err(e),
        Ok((attrs, st1)) => match p_expect(ts, st1, Token::RParen) {
            Err(e) => Err(e),
            Ok(st2) => Ok((attrs, st2)),
        },
    }
}

/// An optional metadata list `( key: value, ... )`.
pub open spec fn p_metadata(ts: Seq<TokV>, st: St) -> Res<MetadataV> {
    if !is_kind(ts, st.pos, Token::LParen) {
        Ok((Seq::empty(), st))
    } else {
        metadata_end(ts, p_attributes(ts, next(st), Seq::empty()))
    }
}

/// The scalar type of a type keyword, aliases resolved to sized names.
pub open spec fn scalar_of(k: Token) -> Option<ScalarType> {
    match k {
        Token::Bool => Some(ScalarType::Bool),
        Token::Byte | Token::Int8 => Some(ScalarType::Int8),
        Token::UByte | Token::UInt8 => Some(ScalarType::UInt8),
        Token::Short | Token::Int16 => Some(ScalarType::Int16),
        Token::UShort | Token::UInt16 => Some(ScalarType::UInt16),
        Token::Int | Token::Int32 => Some(ScalarType::Int32),
        Token::UInt | Token::UInt32 => Some(ScalarType::UInt32),
        Token::Long | Token::Int64 => Some(ScalarType::Int64),
        Token::ULong | Token::UInt64 => Some(ScalarType::UInt64),
        Token::Float | Token::Float32 => Some(ScalarType::Float32),
        Token::Double | Token::Float64 => Some(ScalarType::Float64),
        _ => None,
    }
}

/// A type: `[T]`, `[T:N]`, a scalar, `string` or a name.
pub open spec fn p_type(ts: Seq<TokV>, st: St) -> Res<FbsTypeV>
    decreases ts.len() - st.pos,
{
    if is_kind(ts, st.pos, Token::LBracket) {
        match p_type(ts, next(st)) {
            Err(e) => Err(e),
            Ok((inner, st1)) => if is_kind(ts, st1.pos, Token::Colon) {
                match p_integer(ts, next(st1)) {
                    Err(e) => Err(e),
                    Ok((n, st2)) => match p_expect(ts, st2, Token::RBracket) {
                        Err(e) => Err(e),
                        Ok(st3) => Ok((FbsTypeV::Array(Box::new(inner), n as usize), st3)),
                    },
                }
            } else {
                match p_expect(ts, st1, Token::RBracket) {
                    Err(e) => Err(e),
                    Ok(st2) => Ok((FbsTypeV::Vector(Box::new(inner)), st2)),
                }
            },
        }
    } else {
        match kind_at(ts, st.pos) {
            Some(k) => match scalar_of(k) {
                Some(s) => Ok((FbsTypeV::Scalar(s), next(st))),
                None => if k == Token::String {
                    Ok((FbsTypeV::String, next(st)))
                } else if k == Token::Identifier {
                    Ok((FbsTypeV::Named(ts[st.pos].text), next(st)))
                } else {
                    Err(err_at(ts, st.pos, "Expected type"@))
                },
            },
            None => Err(err_at(ts, st.pos, "Expected type"@)),
        }
    }
}

/// A field: doc comments, `name: type`, an optional `= default`,
/// optional metadata and `;`.
pub open spec fn p_field(ts: Seq<TokV>, st: St) -> Res<FieldDefV> {
    let (doc, st0) = take_docs(collect_docs(ts, st));
    match p_ident(ts, st0) {
        Err(e) => Err(e),
        Ok((name, st1)) => match p_expect(ts, st1, Token::Colon) {
            Err(e) => Err(e),
            Ok(st2) => match p_type(ts, st2) {
                Err(e) => Err(e),
                Ok((t, st3)) => {
                    let dv: Result<(Option<Seq<char>>, St), ErrV> = if is_kind(
                        ts,
                        st3.pos,
                        Token::Equals,
                    ) {
                        match p_scalar_value(ts, next(st3)) {
                            Err(e) => Err(e),
                            Ok((v, st4)) => Ok((Some(v), st4)),
                        }
                    } else {
                        Ok((None, st3))
                    };
                    match dv {
                        Err(e) => Err(e),
                        Ok((default_value, st4)) => match p_metadata(ts, st4) {
                            Err(e) => Err(e),
                            Ok((metadata, st5)) => match p_expect(ts, st5, Token::Semicolon) {
                                Err(e) => Err(e),
                                Ok(st6) => Ok(
                                    (
                                        FieldDefV {
                                            name,
                                            field_type: t,
                                            default_value,
                                            metadata,
                                            doc_comment: doc,
                                        },
                                        st6,
                                    ),
                                ),
                            },
                        },
                    }
                },
            },
        },
    }
}

/// The fields of a table or struct after `fields`, up to its `}`.
pub open spec fn p_fields(ts: Seq<TokV>, st: St, fields: Seq<FieldDefV>) -> Res<Seq<FieldDefV>>
    decreases ts.len() - st.pos,
{
    if is_kind(ts, st.pos, Token::RBrace) {
        Ok((fields, st))
    } else {
        match p_field(ts, st) {
            Err(e) => Err(e),
            Ok((f, st1)) => if st.pos < st1.pos {
                p_fields(ts, st1, fields.push(f))
            } else {
                Err(err_at(ts, st.pos, "Expected identifier"@))
            },
        }
    }
}

/// A table or struct's fields `r` followed by `}`, giving the definition.
pub open spec fn table_end(
    ts: Seq<TokV>,
    r: Res<Seq<FieldDefV>>,
    name: Seq<char>,
    metadata: MetadataV,
    doc: Option<Seq<char>>,
) -> Res<TableDefV> {
    match r {
        Err(e) => Err(e),
        Ok((fields, st5)) => match p_expect(ts, st5, Token::RBrace) {
            Err(e) => Err(e),
            Ok(st6) => Ok((TableDefV { name, fields, metadata, doc_comment: doc }, st6)),
        },
    }
}

/// A table or struct: the keyword `k`, its name, optional metadata and its
/// fields in braces; the pending doc comments are its own.
pub open spec fn p_table_like(ts: Seq<TokV>, st: St, k: Token) -> Res<TableDefV> {
    let (doc, st0) = take_docs(st);
    match p_expect(ts, st0, k) {
        Err(e) => Err(e),
        Ok(st1) => match p_ident(ts, st1) {
            Err(e) => Err(e),
            Ok((name, st2)) => match p_metadata(ts, st2) {
                Err(e) => Err(e),
                Ok((metadata, st3)) => match p_expect(ts, st3, Token::LBrace) {
                    Err(e) => Err(e),
                    Ok(st4) => table_end(ts, p_fields(ts, st4, Seq::empty()), name, metadata, doc),
                },
            },
        },
    }
}

/// The underlying type of an enum: an integer scalar.
pub open spec fn p_enum_base(ts: Seq<TokV>, st: St) -> Res<ScalarType> {
    match kind_at(ts, st.pos) {
        Some(k) => match scalar_of(k) {
            Some(s) => if s != ScalarType::Bool && s != ScalarType::Float32 && s
                != ScalarType::Float64 {
                Ok((s, next(st)))
            } else {
                Err(err_at(ts, st.pos, "Expected integer scalar type for enum"@))
            },
            None => Err(err_at(ts, st.pos, "Expected integer scalar type for enum"@)),
        },
        None => Err(err_at(ts, st.pos, "Expected integer scalar type for enum"@)),
    }
}

/// An enum value: doc comments, its name and an optional `= integer`.
pub open spec fn p_enum_value(ts: Seq<TokV>, st: St) -> Res<EnumValueV> {
    let (doc, st0) = take_docs(collect_docs(ts, st));
    match p_ident(ts, st0) {
        Err(e) => Err(e),
        Ok((name, st1)) => if is_kind(ts, st1.pos, Token::Equals) {
            match p_integer(ts, next(st1)) {
                Err(e) => Err(e),
                Ok((v, st2)) => Ok((EnumValueV { name, value: Some(v), doc_comment: doc }, st2)),
            }
        } else {
            Ok((EnumValueV { name, value: None, doc_comment: doc }, st1))
        },
    }
}

/// `st` past an optional comma.
pub open spec fn skip_comma(ts: Seq<TokV>, st: St) -> St {
    if is_kind(ts, st.pos, Token::Comma) {
        next(st)
    } else {
        st
    }
}

/// The values of an enum after `values`, up to its `}`.
pub open spec fn p_enum_values(ts: Seq<TokV>, st: St, values: Seq<EnumValueV>) -> Res<Seq<EnumValueV>>
    decreases ts.len() - st.pos,
{
    if is_kind(ts, st.pos, Token::RBrace) {
        Ok((values, st))
    } else {
        match p_enum_value(ts, st) {
            Err(e) => Err(e),
            Ok((v, st1)) => {
                let st2 = skip_comma(ts, st1);
                if st.pos < st2.pos {
                    p_enum_values(ts, st2, values.push(v))
                } else {
                    Err(err_at(ts, st.pos, "Expected identifier"@))
                }
            },
        }
    }
}

/// An enum's values `r` followed by `}`, giving the definition.
pub open spec fn enum_end(
    ts: Seq<TokV>,
    r: Res<Seq<EnumValueV>>,
    name: Seq<char>,
    base: ScalarType,
    metadata: MetadataV,
    doc: Option<Seq<char>>,
) -> Res<EnumDefV> {
    match r {
        Err(e) => Err(e),
        Ok((values, st7)) => match p_expect(ts, st7, Token::RBrace) {
            Err(e) => Err(e),
            Ok(st8) => Ok(
                (EnumDefV { name, underlying_type: base, values, metadata, doc_comment: doc }, st8),
            ),
        },
    }
}

/// An enum: `enum Name : type (metadata) { values }`.
pub open spec fn p_enum(ts: Seq<TokV>, st: St) -> Res<EnumDefV> {
    let (doc, st0) = take_docs(st);
    match p_expect(ts, st0, Token::Enum) {
        Err(e) => Err(e),
        Ok(st1) => match p_ident(ts, st1) {
            Err(e) => Err(e),
            Ok((name, st2)) => match p_expect(ts, st2, Token::Colon) {
                Err(e) => Err(e),
                Ok(st3) => match p_enum_base(ts, st3) {
                    Err(e) => Err(e),
                    Ok((base, st4)) => match p_metadata(ts, st4) {
                        Err(e) => Err(e),
                        Ok((metadata, st5)) => match p_expect(ts, st5, Token::LBrace) {
                            Err(e) => Err(e),
                            Ok(st6) => enum_end(
                                ts,
                                p_enum_values(ts, st6, Seq::empty()),
                                name,
                                base,
                                metadata,
                                doc,
                            ),
                        },
                    },
                },
            },
        },
    }
}

/// The variants of a union after `variants`, up to its `}`.
pub open spec fn p_variants(ts: Seq<TokV>, st: St, variants: Seq<UnionVariantV>) -> Res<Seq<UnionVariantV>>
    decreases ts.len() - st.pos,
{
    if is_kind(ts, st.pos, Token::RBrace) {
        Ok((variants, st))
    } else {
        match p_ident(ts, st) {
            Err(e) => Err(e),
            Ok((name, st1)) => {
                let tr: Result<(Option<Seq<char>>, St), ErrV> = if is_kind(
                    ts,
                    st1.pos,
                    Token::Colon,
                ) {
                    match p_ident(ts, next(st1)) {
                        Err(e) => Err(e),
                        Ok((t, st2)) => Ok((Some(t), st2)),
                    }
                } else {
                    Ok((None, st1))
                };
                match tr {
                    Err(e) => Err(e),
                    Ok((type_ref, st2)) => {
                        let st3 = skip_comma(ts, st2);
                        if st.pos < st3.pos {
                            p_variants(ts, st3, variants.push(UnionVariantV { name, type_ref }))
                        } else {
                            Err(err_at(ts, st.pos, "Expected identifier"@))
                        }
                    },
                }
            },
        }
    }
}

/// A union's variants `r` followed by `}`, giving the definition.
pub open spec fn union_end(
    ts: Seq<TokV>,
    r: Res<Seq<UnionVariantV>>,
    name: Seq<char>,
    metadata: MetadataV,
    doc: Option<Seq<char>>,
) -> Res<UnionDefV> {
    match r {
        Err(e) => Err(e),
        Ok((variants, st5)) => match p_expect(ts, st5, Token::RBrace) {
            Err(e) => Err(e),
            Ok(st6) => Ok((UnionDefV { name, variants, metadata, doc_comment: doc }, st6)),
        },
    }
}

/// A union: `union Name (metadata) { variants }`.
pub open spec fn p_union(ts: Seq<TokV>, st: St) -> Res<UnionDefV> {
    let (doc, st0) = take_docs(st);
    match p_expect(ts, st0, Token::Union) {
        Err(e) => Err(e),
        Ok(st1) => match p_ident(ts, st1) {
            Err(e) => Err(e),
            Ok((name, st2)) => match p_metadata(ts, st2) {
                Err(e) => Err(e),
                Ok((metadata, st3)) => match p_expect(ts, st3, Token::LBrace) {
                    Err(e) => Err(e),
                    Ok(st4) => union_end(ts, p_variants(ts, st4, Seq::empty()), name, metadata, doc),
                },
            },
        },
    }
}

/// The tokens of an rpc service body at brace depth `depth`, up to the
/// brace that closes it.
pub open spec fn p_rpc_body(ts: Seq<TokV>, st: St, depth: nat) -> Result<St, ErrV>
    decreases ts.len() - st.pos,
{
    if depth == 0 {
        Ok(st)
    } else if 0 <= st.pos < ts.len() {
        let k = ts[st.pos].token;
        let d = if k == Token::LBrace {
            depth + 1
        } else if k == Token::RBrace {
            (depth - 1) as nat
        } else {
            depth
        };
        p_rpc_body(ts, next(st), d)
    } else {
        Err(err_at(ts, st.pos, "Unexpected end of input in rpc_service"@))
    }
}

/// An rpc service, skipped: `rpc_service Name { ... }`.
pub open spec fn p_rpc_service(ts: Seq<TokV>, st: St) -> Result<St, ErrV> {
    match p_expect(ts, st, Token::RpcService) {
        Err(e) => Err(e),
        Ok(st1) => match p_ident(ts, st1) {
            Err(e) => Err(e),
            Ok((_name, st2)) => match p_expect(ts, st2, Token::LBrace) {
                Err(e) => Err(e),
                Ok(st3) => p_rpc_body(ts, st3, 1),
            },
        },
    }
}

/// The schema after one more item of a kind that the schema collects.
pub open spec fn with_namespace(s: SchemaV, v: Seq<char>) -> SchemaV {
    SchemaV { namespace: Some(v), ..s }
}

pub open spec fn with_include(s: SchemaV, v: Seq<char>) -> SchemaV {
    SchemaV { includes: s.includes.push(v), ..s }
}

pub open spec fn with_attribute(s: SchemaV, v: Seq<char>) -> SchemaV {
    SchemaV { attributes: s.attributes.push(v), ..s }
}

pub open spec fn with_table(s: SchemaV, v: TableDefV) -> SchemaV {
    SchemaV { tables: s.tables.push(v), ..s }
}

pub open spec fn with_struct(s: SchemaV, v: TableDefV) -> SchemaV {
    SchemaV { structs: s.structs.push(v), ..s }
}

pub open spec fn with_enum(s: SchemaV, v: EnumDefV) -> SchemaV {
    SchemaV { enums: s.enums.push(v), ..s }
}

pub open spec fn with_union(s: SchemaV, v: UnionDefV) -> SchemaV {
    SchemaV { unions: s.unions.push(v), ..s }
}

pub open spec fn with_root_type(s: SchemaV, v: Seq<char>) -> SchemaV {
    SchemaV { root_type: Some(v), ..s }
}

pub open spec fn with_file_identifier(s: SchemaV, v: Seq<char>) -> SchemaV {
    SchemaV { file_identifier: Some(v), ..s }
}

pub open spec fn with_file_extension(s: SchemaV, v: Seq<char>) -> SchemaV {
    SchemaV { file_extension: Some(v), ..s }
}

/// One top-level item at `st` (after its doc comments), added to `s`.
#[verifier::opaque]
pub open spec fn p_item(ts: Seq<TokV>, st: St, s: SchemaV) -> Result<(SchemaV, St), ErrV> {
    match kind_at(ts, st.pos) {
        Some(Token::Namespace) => match p_namespace(ts, st) {
            Err(e) => Err(e),
            Ok((v, st1)) => Ok((with_namespace(s, v), st1)),
        },
        Some(Token::Include) => match p_keyword_string(ts, st, Token::Include) {
            Err(e) => Err(e),
            Ok((v, st1)) => Ok((with_include(s, v), st1)),
        },
        Some(Token::Attribute) => match p_keyword_string(ts, st, Token::Attribute) {
            Err(e) => Err(e),
            Ok((v, st1)) => Ok((with_attribute(s, v), st1)),
        },
        Some(Token::Table) => match p_table_like(ts, st, Token::Table) {
            Err(e) => Err(e),
            Ok((v, st1)) => Ok((with_table(s, v), st1)),
        },
        Some(Token::Struct) => match p_table_like(ts, st, Token::Struct) {
            Err(e) => Err(e),
            Ok((v, st1)) => Ok((with_struct(s, v), st1)),
        },
        Some(Token::Enum) => match p_enum(ts, st) {
            Err(e) => Err(e),
            Ok((v, st1)) => Ok((with_enum(s, v), st1)),
        },
        Some(Token::Union) => match p_union(ts, st) {
            Err(e) => Err(e),
            Ok((v, st1)) => Ok((with_union(s, v), st1)),
        },
        Some(Token::RootType) => match p_root_type(ts, st) {
            Err(e) => Err(e),
            Ok((v, st1)) => Ok((with_root_type(s, v), st1)),
        },
        Some(Token::FileIdentifier) => match p_keyword_string(ts, st, Token::FileIdentifier) {
            Err(e) => Err(e),
            Ok((v, st1)) => Ok((with_file_identifier(s, v), st1)),
        },
        Some(Token::FileExtension) => match p_keyword_string(ts, st, Token::FileExtension) {
            Err(e) => Err(e),
            Ok((v, st1)) => Ok((with_file_extension(s, v), st1)),
        },
        Some(Token::RpcService) => match p_rpc_service(ts, st) {
            Err(e) => Err(e),
            Ok(st1) => Ok((s, st1)),
        },
        _ => Err(err_at(ts, st.pos, "Unexpected token at top level"@)),
    }
}

/// The items of the schema from `st` on, added to `s`.
pub open spec fn p_items(ts: Seq<TokV>, st: St, s: SchemaV) -> Result<SchemaV, ErrV>
    decreases ts.len() - st.pos,
{
    if st.pos >= ts.len() {
        Ok(s)
    } else {
        let st0 = collect_docs(ts, st);
        if st0.pos >= ts.len() {
            Ok(s)
        } else {
            match p_item(ts, st0, s) {
                Err(e) => Err(e),
                Ok((s1, st1)) => if st.pos < st1.pos <= ts.len() {
                    p_items(ts, st1, s1)
                } else {
                    Ok(s1)
                },
            }
        }
    }
}

/// The schema the tokens `ts` make, or the first error.
pub open spec fn parse_tokens(ts: Seq<TokV>) -> Result<SchemaV, ErrV> {
    p_items(ts, St { pos: 0, pending: Seq::empty() }, empty_schema())
}

/// The schema the source `s` makes, or the first error, lexing errors
/// included.
pub open spec fn parse_source(s: Seq<char>) -> Result<SchemaV, ErrV> {
    match lex(s) {
        Err(e) => Err(ErrV { message: e.message, span: Some((e.start, e.end)) }),
        Ok(ts) => parse_tokens(ts),
    }
}

/// The parser's state: the tokens, the next one, and the doc comments
/// read but not yet taken.
pub struct Parser {
    tokens: Vec<SpannedToken>,
    pos: usize,
    pending_doc_comments: Vec<String>,
}

fn token_name_of(k: Token) -> (r: &'static str)
    ensures
        r@ == token_name(k),
{
    match k {
        Token::Namespace => "Namespace",
        Token::Include => "Include",
        Token::Attribute => "Attribute",
        Token::Table => "Table",
        Token::Struct => "Struct",
        Token::Enum => "Enum",
        Token::Union => "Union",
        Token::RootType => "RootType",
        Token::FileIdentifier => "FileIdentifier",
        Token::FileExtension => "FileExtension",
        Token::RpcService => "RpcService",
        Token::LBrace => "LBrace",
        Token::RBrace => "RBrace",
        Token::LParen => "LParen",
        Token::RParen => "RParen",
        Token::LBracket => "LBracket",
        Token::RBracket => "RBracket",
        Token::Semicolon => "Semicolon",
        Token::Colon => "Colon",
        Token::Comma => "Comma",
        Token::Equals => "Equals",
        Token::Dot => "Dot",
        _ => "Token",
    }
}

fn scalar_of_token(k: Token) -> (r: Option<ScalarType>)
    ensures
        r == scalar_of(k),
{
    match k {
        Token::Bool => Some(ScalarType::Bool),
        Token::Byte | Token::Int8 => Some(ScalarType::Int8),
        Token::UByte | Token::UInt8 => Some(ScalarType::UInt8),
        Token::Short | Token::Int16 => Some(ScalarType::Int16),
        Token::UShort | Token::UInt16 => Some(ScalarType::UInt16),
        Token::Int | Token::Int32 => Some(ScalarType::Int32),
        Token::UInt | Token::UInt32 => Some(ScalarType::UInt32),
        Token::Long | Token::Int64 => Some(ScalarType::Int64),
        Token::ULong | Token::UInt64 => Some(ScalarType::UInt64),
        Token::Float | Token::Float32 => Some(ScalarType::Float32),
        Token::Double | Token::Float64 => Some(ScalarType::Float64),
        _ => None,
    }
}

fn hex_text(n: u64) -> (r: String)
    ensures
        r@ == hex_digits(n as nat),
{
    let mut digits: Vec<char> = Vec::new();
    let mut m = n;
    let ghost orig = n as nat;
    proof {
        assert(hex_digits(orig) == hex_digits(m as nat) + digits@);
    }
    loop
        invariant
            orig == n as nat,
            hex_digits(orig) == hex_digits(m as nat) + digits@,
        decreases m,
    {
        let d = m % 16;
        let c = if d < 10 {
            char_of_digit(d, '0', 0)
        } else {
            char_of_digit(d, 'a', 10)
        };
        if m < 16 {
            proof {
                assert(hex_digits(m as nat) == seq![c]);
            }
            let mut out: Vec<char> = Vec::new();
            out.push(c);
            out.append(&mut digits);
            assert(out@ == hex_digits(orig));
            return crate::text::string_of(out.as_slice());
        }
        proof {
            assert(hex_digits(m as nat) == hex_digits((m / 16) as nat).push(c));
            assert(hex_digits((m / 16) as nat) + (seq![c] + digits@) =~= hex_digits(m as nat)
                + digits@);
        }
        let mut next_digits: Vec<char> = Vec::new();
        next_digits.push(c);
        next_digits.append(&mut digits);
        digits = next_digits;
        m = m / 16;
    }
}

fn char_of_digit(d: u64, base: char, offset: u64) -> (c: char)
    requires
        offset <= d,
        d - offset < 16,
        base == '0' || base == 'a',
    ensures
        (c as u32) as nat == (d - offset + base as nat) as nat,
        c == ((d - offset + base as nat) as u32) as char,
{
    let v: u32 = (d - offset) as u32 + base as u32;
    proof {
        assert(v <= 0x7f);
    }
    v as u8 as char
}

impl Parser {
    /// The models of the tokens.
    pub closed spec fn toks(&self) -> Seq<TokV> {
        toks_view(self.tokens@)
    }

    /// Where the parser is.
    pub closed spec fn st(&self) -> St {
        St { pos: self.pos as int, pending: texts(self.pending_doc_comments@) }
    }

    /// Whether the position is within the tokens.
    pub closed spec fn wf(&self) -> bool {
        self.pos <= self.tokens.len()
    }

    /// A parser at the first of `tokens`.
    pub fn new(tokens: Vec<SpannedToken>) -> (r: Parser)
        ensures
            r.wf(),
            r.toks() == toks_view(tokens@),
            r.st() == (St { pos: 0, pending: Seq::empty() }),
    {
        let r = Parser { tokens, pos: 0, pending_doc_comments: Vec::new() };
        assert(texts(r.pending_doc_comments@) =~= Seq::<Seq<char>>::empty());
        r
    }

    fn kind(&self) -> (r: Option<Token>)
        requires
            self.wf(),
        ensures
            r == kind_at(self.toks(), self.st().pos),
    {
        if self.pos < self.tokens.len() {
            Some(self.tokens[self.pos].token)
        } else {
            None
        }
    }

    fn check(&self, k: Token) -> (r: bool)
        requires
            self.wf(),
        ensures
            r == is_kind(self.toks(), self.st().pos, k),
    {
        if self.pos < self.tokens.len() {
            self.tokens[self.pos].token == k
        } else {
            false
        }
    }

    fn advance(&mut self)
        requires
            old(self).wf(),
            old(self).pos < old(self).tokens.len(),
        ensures
            final(self).wf(),
            final(self).toks() == old(self).toks(),
            final(self).pos >= old(self).pos,
            final(self).st() == next(old(self).st()),
    {
        self.pos = self.pos + 1;
    }

    fn error_at(&self, p: usize, message: &str) -> (r: ParseError)
        ensures
            r@ == err_at(self.toks(), p as int, message@),
    {
        let span = if p < self.tokens.len() {
            Some(std::ops::Range { start: self.tokens[p].span.start, end: self.tokens[p].span.end })
        } else {
            None
        };
        ParseError { message: owned(message), span }
    }

    fn error(&self, message: &str) -> (r: ParseError)
        ensures
            r@ == err_at(self.toks(), self.st().pos, message@),
    {
        self.error_at(self.pos, message)
    }

    fn expect(&mut self, k: Token) -> (r: Result<(), ParseError>)
        requires
            old(self).wf(),
        ensures
            final(self).wf(),
            final(self).toks() == old(self).toks(),
            final(self).pos >= old(self).pos,
            match r {
                Ok(()) => p_expect(old(self).toks(), old(self).st(), k) == Ok::<St, ErrV>(
                    final(self).st(),
                ),
                Err(e) => p_expect(old(self).toks(), old(self).st(), k) == Err::<St, ErrV>(e@),
            },
    {
        if self.check(k) {
            self.advance();
            Ok(())
        } else {
            let mut message = owned("Expected ");
            message.append(token_name_of(k));
            Err(self.error(message.as_str()))
        }
    }

    fn text_token(&mut self, k: Token, message: &str) -> (r: Result<String, ParseError>)
        requires
            old(self).wf(),
        ensures
            final(self).wf(),
            final(self).toks() == old(self).toks(),
            final(self).pos >= old(self).pos,
            match r {
                Ok(t) => p_text_token(old(self).toks(), old(self).st(), k, message@) == Ok::<
                    (Seq<char>, St),
                    ErrV,
                >((t@, final(self).st())),
                Err(e) => p_text_token(old(self).toks(), old(self).st(), k, message@) == Err::<
                    (Seq<char>, St),
                    ErrV,
                >(e@),
            },
    {
        if self.pos < self.tokens.len() {
            let t = self.tokens[self.pos].token;
            let text = self.tokens[self.pos].text.clone();
            if t == k {
                self.advance();
                Ok(text)
            } else {
                Err(self.error_at(self.pos + 1, message))
            }
        } else {
            Err(self.error(message))
        }
    }

    fn expect_identifier(&mut self) -> (r: Result<String, ParseError>)
        requires
            old(self).wf(),
        ensures
            final(self).wf(),
            final(self).toks() == old(self).toks(),
            final(self).pos >= old(self).pos,
            match r {
                Ok(t) => p_ident(old(self).toks(), old(self).st()) == Ok::<(Seq<char>, St), ErrV>(
                    (t@, final(self).st()),
                ),
                Err(e) => p_ident(old(self).toks(), old(self).st()) == Err::<(Seq<char>, St), ErrV>(
                    e@,
                ),
            },
    {
        self.text_token(Token::Identifier, "Expected identifier")
    }

    fn expect_string_literal(&mut self) -> (r: Result<String, ParseError>)
        requires
            old(self).wf(),
        ensures
            final(self).wf(),
            final(self).toks() == old(self).toks(),
            final(self).pos >= old(self).pos,
            match r {
                Ok(t) => p_string(old(self).toks(), old(self).st()) == Ok::<(Seq<char>, St), ErrV>(
                    (t@, final(self).st()),
                ),
                Err(e) => p_string(old(self).toks(), old(self).st()) == Err::<(Seq<char>, St), ErrV>(
                    e@,
                ),
            },
    {
        self.text_token(Token::StringLiteral, "Expected string literal")
    }

    fn expect_integer(&mut self) -> (r: Result<i64, ParseError>)
        requires
            old(self).wf(),
        ensures
            final(self).wf(),
            final(self).toks() == old(self).toks(),
            final(self).pos >= old(self).pos,
            match r {
                Ok(v) => p_integer(old(self).toks(), old(self).st()) == Ok::<(i64, St), ErrV>(
                    (v, final(self).st()),
                ),
                Err(e) => p_integer(old(self).toks(), old(self).st()) == Err::<(i64, St), ErrV>(e@),
            },
    {
        if self.pos < self.tokens.len() {
            let t = self.tokens[self.pos].token;
            let v = self.tokens[self.pos].value;
            if t == Token::IntegerLiteral || t == Token::HexLiteral {
                self.advance();
                Ok(v)
            } else {
                Err(self.error_at(self.pos + 1, "Expected integer"))
            }
        } else {
            Err(self.error("Expected integer"))
        }
    }

    fn collect_doc_comments(&mut self)
        requires
            old(self).wf(),
        ensures
            final(self).wf(),
            final(self).toks() == old(self).toks(),
            final(self).pos >= old(self).pos,
            final(self).st() == collect_docs(old(self).toks(), old(self).st()),
    {
        while self.pos < self.tokens.len() && self.tokens[self.pos].token == Token::DocComment
            invariant
                self.wf(),
                self.toks() == old(self).toks(),
                self.pos >= old(self).pos,
                collect_docs(self.toks(), self.st()) == collect_docs(old(self).toks(), old(self).st()),
            decreases self.tokens.len() - self.pos,
        {
            let text = self.tokens[self.pos].text.clone();
            proof {
                assert(texts(self.pending_doc_comments@.push(text)) =~= texts(
                    self.pending_doc_comments@,
                ).push(text@));
                assert(self.toks()[self.pos as int].text == text@);
            }
            let p = self.pos + 1;
            self.pending_doc_comments.push(text);
            self.pos = p;
        }
    }

    fn take_doc_comments(&mut self) -> (r: Option<String>)
        requires
            old(self).wf(),
        ensures
            final(self).wf(),
            final(self).toks() == old(self).toks(),
            final(self).pos >= old(self).pos,
            opt_text(r) == take_docs(old(self).st()).0,
            final(self).st() == take_docs(old(self).st()).1,
    {
        if self.pending_doc_comments.len() == 0 {
            None
        } else {
            let joined = join_strings(&self.pending_doc_comments, "\n");
            self.pending_doc_comments = Vec::new();
            assert(texts(self.pending_doc_comments@) =~= Seq::<Seq<char>>::empty());
            Some(joined)
        }
    }

    fn parse_keyword_string(&mut self, k: Token) -> (r: Result<String, ParseError>)
        requires
            old(self).wf(),
        ensures
            final(self).wf(),
            final(self).toks() == old(self).toks(),
            final(self).pos >= old(self).pos,
            r is Ok ==> final(self).pos > old(self).pos,
            text_res(r, p_keyword_string(old(self).toks(), old(self).st(), k), final(self).st()),
    {
        self.expect(k)?;
        let s = self.expect_string_literal()?;
        self.expect(Token::Semicolon)?;
        Ok(s)
    }

    fn parse_root_type(&mut self) -> (r: Result<String, ParseError>)
        requires
            old(self).wf(),
        ensures
            final(self).wf(),
            final(self).toks() == old(self).toks(),
            final(self).pos >= old(self).pos,
            r is Ok ==> final(self).pos > old(self).pos,
            text_res(r, p_root_type(old(self).toks(), old(self).st()), final(self).st()),
    {
        self.expect(Token::RootType)?;
        let s = self.expect_identifier()?;
        self.expect(Token::Semicolon)?;
        Ok(s)
    }

    fn parse_namespace(&mut self) -> (r: Result<String, ParseError>)
        requires
            old(self).wf(),
        ensures
            final(self).wf(),
            final(self).toks() == old(self).toks(),
            final(self).pos >= old(self).pos,
            r is Ok ==> final(self).pos > old(self).pos,
            text_res(r, p_namespace(old(self).toks(), old(self).st()), final(self).st()),
    {
        self.expect(Token::Namespace)?;
        let first = self.expect_identifier()?;
        let mut parts: Vec<String> = vec![first];
        let ghost st2 = self.st();
        let ghost first_v = parts@[0]@;
        assert(texts(parts@) =~= seq![first_v]);
        while self.check(Token::Dot)
            invariant
                self.wf(),
                self.toks() == old(self).toks(),
                self.pos >= old(self).pos,
                p_namespace(old(self).toks(), old(self).st()) == namespace_end(
                    self.toks(),
                    p_namespace_parts(self.toks(), self.st(), texts(parts@)),
                ),
            decreases self.tokens.len() - self.pos,
        {
            self.advance();
            let id = self.expect_identifier()?;
            proof {
                assert(texts(parts@.push(id)) =~= texts(parts@).push(id@));
            }
            parts.push(id);
        }
        self.expect(Token::Semicolon)?;
        Ok(join_strings(&parts, "."))
    }

    fn float_literal_text(&self, t: &String) -> (r: String)
        ensures
            r@ == float_text(t@),
    {
        match Number::parse(t.as_str()) {
            Some(n) => owned(n.text()),
            None => t.clone(),
        }
    }

    fn parse_metadata_value(&mut self) -> (r: Result<String, ParseError>)
        requires
            old(self).wf(),
        ensures
            final(self).wf(),
            final(self).toks() == old(self).toks(),
            final(self).pos >= old(self).pos,
            text_res(r, p_metadata_value(old(self).toks(), old(self).st()), final(self).st()),
    {
        match self.kind() {
            Some(Token::StringLiteral) => self.expect_string_literal(),
            Some(Token::IntegerLiteral) => {
                let v = self.tokens[self.pos].value;
                self.advance();
                Ok(i64_text(v))
            },
            Some(Token::FloatLiteral) => {
                let t = self.float_literal_text(&self.tokens[self.pos].text);
                self.advance();
                Ok(t)
            },
            Some(Token::True) => {
                self.advance();
                Ok(owned("true"))
            },
            Some(Token::False) => {
                self.advance();
                Ok(owned("false"))
            },
            Some(Token::Identifier) => self.expect_identifier(),
            _ => Err(self.error("Expected metadata value")),
        }
    }

    fn parse_scalar_value(&mut self) -> (r: Result<String, ParseError>)
        requires
            old(self).wf(),
        ensures
            final(self).wf(),
            final(self).toks() == old(self).toks(),
            final(self).pos >= old(self).pos,
            text_res(r, p_scalar_value(old(self).toks(), old(self).st()), final(self).st()),
    {
        match self.kind() {
            Some(Token::IntegerLiteral) => {
                let v = self.tokens[self.pos].value;
                self.advance();
                Ok(i64_text(v))
            },
            Some(Token::HexLiteral) => {
                let v = self.tokens[self.pos].value;
                self.advance();
                let mut t = owned("0x");
                t.append(hex_text(v as u64).as_str());
                Ok(t)
            },
            Some(Token::FloatLiteral) => {
                let t = self.float_literal_text(&self.tokens[self.pos].text);
                self.advance();
                Ok(t)
            },
            Some(Token::True) => {
                self.advance();
                Ok(owned("true"))
            },
            Some(Token::False) => {
                self.advance();
                Ok(owned("false"))
            },
            Some(Token::StringLiteral) => self.expect_string_literal(),
            Some(Token::Identifier) => self.expect_identifier(),
            _ => Err(self.error("Expected scalar value")),
        }
    }

    fn parse_optional_metadata(&mut self) -> (r: Result<Metadata, ParseError>)
        requires
            old(self).wf(),
        ensures
            final(self).wf(),
            final(self).toks() == old(self).toks(),
            final(self).pos >= old(self).pos,
            match r {
                Ok(m) => p_metadata(old(self).toks(), old(self).st()) == Ok::<(MetadataV, St), ErrV>(
                    (m@, final(self).st()),
                ),
                Err(e) => p_metadata(old(self).toks(), old(self).st()) == Err::<(MetadataV, St), ErrV>(
                    e@,
                ),
            },
    {
        if !self.check(Token::LParen) {
            return Ok(Metadata::new());
        }
        self.advance();
        let mut attributes: NamedMap<Option<String>> = NamedMap::new();
        assert(attribute_texts(attributes@) =~= Seq::<(Seq<char>, Option<Seq<char>>)>::empty());
        while !self.check(Token::RParen)
            invariant
                self.wf(),
                self.toks() == old(self).toks(),
                self.pos >= old(self).pos,
                p_metadata(old(self).toks(), old(self).st()) == metadata_end(
                    self.toks(),
                    p_attributes(self.toks(), self.st(), attribute_texts(attributes@)),
                ),
            decreases self.tokens.len() - self.pos,
        {
            let key = self.expect_identifier()?;
            let value: Option<String> = if self.check(Token::Colon) {
                self.advance();
                let v = self.parse_metadata_value()?;
                Some(v)
            } else {
                None
            };
            if self.check(Token::Comma) {
                self.advance();
            }
            proof {
                lemma_attribute_put(attributes@, key@, value);
            }
            attributes.insert(key, value);
        }
        self.expect(Token::RParen)?;
        Ok(Metadata { attributes })
    }

    fn parse_type(&mut self) -> (r: Result<FbsType, ParseError>)
        requires
            old(self).wf(),
        ensures
            final(self).wf(),
            final(self).toks() == old(self).toks(),
            final(self).pos >= old(self).pos,
            match r {
                Ok(t) => p_type(old(self).toks(), old(self).st()) == Ok::<(FbsTypeV, St), ErrV>(
                    (t@, final(self).st()),
                ),
                Err(e) => p_type(old(self).toks(), old(self).st()) == Err::<(FbsTypeV, St), ErrV>(
                    e@,
                ),
            },
        decreases old(self).tokens.len() - old(self).pos,
    {
        if self.check(Token::LBracket) {
            self.advance();
            let inner = self.parse_type()?;
            if self.check(Token::Colon) {
                self.advance();
                let n = self.expect_integer()?;
                self.expect(Token::RBracket)?;
                return Ok(FbsType::Array(Box::new(inner), n as usize));
            }
            self.expect(Token::RBracket)?;
            return Ok(FbsType::Vector(Box::new(inner)));
        }
        match self.kind() {
            Some(k) => match scalar_of_token(k) {
                Some(sc) => {
                    self.advance();
                    Ok(FbsType::Scalar(sc))
                },
                None => if k == Token::String {
                    self.advance();
                    Ok(FbsType::String)
                } else if k == Token::Identifier {
                    let name = self.expect_identifier()?;
                    Ok(FbsType::Named(name))
                } else {
                    Err(self.error("Expected type"))
                },
            },
            None => Err(self.error("Expected type")),
        }
    }

    fn parse_field(&mut self) -> (r: Result<FieldDef, ParseError>)
        requires
            old(self).wf(),
        ensures
            final(self).wf(),
            final(self).toks() == old(self).toks(),
            final(self).pos >= old(self).pos,
            r is Ok ==> final(self).pos > old(self).pos,
            match r {
                Ok(f) => p_field(old(self).toks(), old(self).st()) == Ok::<(FieldDefV, St), ErrV>(
                    (f@, final(self).st()),
                ),
                Err(e) => p_field(old(self).toks(), old(self).st()) == Err::<(FieldDefV, St), ErrV>(
                    e@,
                ),
            },
    {
        self.collect_doc_comments();
        let doc_comment = self.take_doc_comments();
        let name = self.expect_identifier()?;
        self.expect(Token::Colon)?;
        let field_type = self.parse_type()?;
        let default_value: Option<String> = if self.check(Token::Equals) {
            self.advance();
            let v = self.parse_scalar_value()?;
            Some(v)
        } else {
            None
        };
        let metadata = self.parse_optional_metadata()?;
        self.expect(Token::Semicolon)?;
        Ok(FieldDef { name, field_type, default_value, metadata, doc_comment })
    }

    fn parse_table_like(&mut self, k: Token) -> (r: Result<(String, Vec<FieldDef>, Metadata, Option<String>), ParseError>)
        requires
            old(self).wf(),
        ensures
            final(self).wf(),
            final(self).toks() == old(self).toks(),
            final(self).pos >= old(self).pos,
            r is Ok ==> final(self).pos > old(self).pos,
            match r {
                Ok((name, fields, metadata, doc)) => p_table_like(old(self).toks(), old(self).st(), k)
                    == Ok::<(TableDefV, St), ErrV>(
                    (
                        TableDefV {
                            name: name@,
                            fields: fields_view(fields@),
                            metadata: metadata@,
                            doc_comment: opt_text(doc),
                        },
                        final(self).st(),
                    ),
                ),
                Err(e) => p_table_like(old(self).toks(), old(self).st(), k) == Err::<
                    (TableDefV, St),
                    ErrV,
                >(e@),
            },
    {
        let doc = self.take_doc_comments();
        self.expect(k)?;
        let name = self.expect_identifier()?;
        let metadata = self.parse_optional_metadata()?;
        self.expect(Token::LBrace)?;
        let mut fields: Vec<FieldDef> = Vec::new();
        assert(fields_view(fields@) =~= Seq::<FieldDefV>::empty());
        while !self.check(Token::RBrace)
            invariant
                self.wf(),
                self.toks() == old(self).toks(),
                self.pos >= old(self).pos,
                p_table_like(old(self).toks(), old(self).st(), k) == table_end(
                    self.toks(),
                    p_fields(self.toks(), self.st(), fields_view(fields@)),
                    name@,
                    metadata@,
                    opt_text(doc),
                ),
            decreases self.tokens.len() - self.pos,
        {
            let f = self.parse_field()?;
            proof {
                assert(fields_view(fields@.push(f)) =~= fields_view(fields@).push(f@));
            }
            fields.push(f);
        }
        self.expect(Token::RBrace)?;
        Ok((name, fields, metadata, doc))
    }

    fn parse_enum_base(&mut self) -> (r: Result<ScalarType, ParseError>)
        requires
            old(self).wf(),
        ensures
            final(self).wf(),
            final(self).toks() == old(self).toks(),
            final(self).pos >= old(self).pos,
            match r {
                Ok(b) => p_enum_base(old(self).toks(), old(self).st()) == Ok::<(ScalarType, St), ErrV>(
                    (b, final(self).st()),
                ),
                Err(e) => p_enum_base(old(self).toks(), old(self).st()) == Err::<(ScalarType, St), ErrV>(
                    e@,
                ),
            },
    {
        match self.kind() {
            Some(k) => match scalar_of_token(k) {
                Some(sc) => {
                    if sc != ScalarType::Bool && sc != ScalarType::Float32 && sc != ScalarType::Float64 {
                        self.advance();
                        Ok(sc)
                    } else {
                        Err(self.error("Expected integer scalar type for enum"))
                    }
                },
                None => Err(self.error("Expected integer scalar type for enum")),
            },
            None => Err(self.error("Expected integer scalar type for enum")),
        }
    }

    fn parse_enum_value(&mut self) -> (r: Result<EnumValue, ParseError>)
        requires
            old(self).wf(),
        ensures
            final(self).wf(),
            final(self).toks() == old(self).toks(),
            final(self).pos >= old(self).pos,
            r is Ok ==> final(self).pos > old(self).pos,
            match r {
                Ok(v) => p_enum_value(old(self).toks(), old(self).st()) == Ok::<(EnumValueV, St), ErrV>(
                    (v@, final(self).st()),
                ),
                Err(e) => p_enum_value(old(self).toks(), old(self).st()) == Err::<(EnumValueV, St), ErrV>(
                    e@,
                ),
            },
    {
        self.collect_doc_comments();
        let doc_comment = self.take_doc_comments();
        let name = self.expect_identifier()?;
        if self.check(Token::Equals) {
            self.advance();
            let v = self.expect_integer()?;
            Ok(EnumValue { name, value: Some(v), doc_comment })
        } else {
            Ok(EnumValue { name, value: None, doc_comment })
        }
    }

    fn parse_enum(&mut self) -> (r: Result<EnumDef, ParseError>)
        requires
            old(self).wf(),
        ensures
            final(self).wf(),
            final(self).toks() == old(self).toks(),
            final(self).pos >= old(self).pos,
            r is Ok ==> final(self).pos > old(self).pos,
            match r {
                Ok(d) => p_enum(old(self).toks(), old(self).st()) == Ok::<(EnumDefV, St), ErrV>(
                    (d@, final(self).st()),
                ),
                Err(e) => p_enum(old(self).toks(), old(self).st()) == Err::<(EnumDefV, St), ErrV>(e@),
            },
    {
        let doc_comment = self.take_doc_comments();
        self.expect(Token::Enum)?;
        let name = self.expect_identifier()?;
        self.expect(Token::Colon)?;
        let underlying_type = self.parse_enum_base()?;
        let metadata = self.parse_optional_metadata()?;
        self.expect(Token::LBrace)?;
        let mut values: Vec<EnumValue> = Vec::new();
        assert(values@.map_values(|v: EnumValue| v@) =~= Seq::<EnumValueV>::empty());
        while !self.check(Token::RBrace)
            invariant
                self.wf(),
                self.toks() == old(self).toks(),
                self.pos >= old(self).pos,
                p_enum(old(self).toks(), old(self).st()) == enum_end(
                    self.toks(),
                    p_enum_values(self.toks(), self.st(), values@.map_values(|v: EnumValue| v@)),
                    name@,
                    underlying_type,
                    metadata@,
                    opt_text(doc_comment),
                ),
            decreases self.tokens.len() - self.pos,
        {
            let v = self.parse_enum_value()?;
            if self.check(Token::Comma) {
                self.advance();
            }
            proof {
                assert(values@.push(v).map_values(|v: EnumValue| v@) =~= values@.map_values(
                    |v: EnumValue| v@,
                ).push(v@));
            }
            values.push(v);
        }
        self.expect(Token::RBrace)?;
        Ok(EnumDef { name, underlying_type, values, metadata, doc_comment })
    }

    fn parse_union(&mut self) -> (r: Result<UnionDef, ParseError>)
        requires
            old(self).wf(),
        ensures
            final(self).wf(),
            final(self).toks() == old(self).toks(),
            final(self).pos >= old(self).pos,
            r is Ok ==> final(self).pos > old(self).pos,
            match r {
                Ok(d) => p_union(old(self).toks(), old(self).st()) == Ok::<(UnionDefV, St), ErrV>(
                    (d@, final(self).st()),
                ),
                Err(e) => p_union(old(self).toks(), old(self).st()) == Err::<(UnionDefV, St), ErrV>(
                    e@,
                ),
            },
    {
        let doc_comment = self.take_doc_comments();
        self.expect(Token::Union)?;
        let name = self.expect_identifier()?;
        let metadata = self.parse_optional_metadata()?;
        self.expect(Token::LBrace)?;
        let mut variants: Vec<UnionVariant> = Vec::new();
        assert(variants@.map_values(|v: UnionVariant| v@) =~= Seq::<UnionVariantV>::empty());
        while !self.check(Token::RBrace)
            invariant
                self.wf(),
                self.toks() == old(self).toks(),
                self.pos >= old(self).pos,
                p_union(old(self).toks(), old(self).st()) == union_end(
                    self.toks(),
                    p_variants(self.toks(), self.st(), variants@.map_values(|v: UnionVariant| v@)),
                    name@,
                    metadata@,
                    opt_text(doc_comment),
                ),
            decreases self.tokens.len() - self.pos,
        {
            let vname = self.expect_identifier()?;
            let type_ref: Option<String> = if self.check(Token::Colon) {
                self.advance();
                let t = self.expect_identifier()?;
                Some(t)
            } else {
                None
            };
            if self.check(Token::Comma) {
                self.advance();
            }
            let v = UnionVariant { name: vname, type_ref };
            proof {
                assert(variants@.push(v).map_values(|v: UnionVariant| v@) =~= variants@.map_values(
                    |v: UnionVariant| v@,
                ).push(v@));
            }
            variants.push(v);
        }
        self.expect(Token::RBrace)?;
        Ok(UnionDef { name, variants, metadata, doc_comment })
    }

    fn skip_rpc_service(&mut self) -> (r: Result<(), ParseError>)
        requires
            old(self).wf(),
        ensures
            final(self).wf(),
            final(self).toks() == old(self).toks(),
            final(self).pos >= old(self).pos,
            r is Ok ==> final(self).pos > old(self).pos,
            match r {
                Ok(()) => p_rpc_service(old(self).toks(), old(self).st()) == Ok::<St, ErrV>(
                    final(self).st(),
                ),
                Err(e) => p_rpc_service(old(self).toks(), old(self).st()) == Err::<St, ErrV>(e@),
            },
    {
        self.expect(Token::RpcService)?;
        self.expect_identifier()?;
        self.expect(Token::LBrace)?;
        let mut depth: usize = 1;
        while depth > 0
            invariant
                self.wf(),
                self.toks() == old(self).toks(),
                self.pos >= old(self).pos,
                depth <= self.pos,
                self.pos > old(self).pos,
                p_rpc_service(old(self).toks(), old(self).st()) == p_rpc_body(
                    self.toks(),
                    self.st(),
                    depth as nat,
                ),
            decreases self.tokens.len() - self.pos,
        {
            if self.pos < self.tokens.len() {
                let k = self.tokens[self.pos].token;
                self.advance();
                if k == Token::LBrace {
                    depth = depth + 1;
                } else if k == Token::RBrace {
                    depth = depth - 1;
                }
            } else {
                return Err(self.error("Unexpected end of input in rpc_service"));
            }
        }
        Ok(())
    }

    #[verifier::rlimit(40)]
    fn parse_item(&mut self, schema: &mut FlatBuffersSchema) -> (r: Result<(), ParseError>)
        requires
            old(self).wf(),
        ensures
            final(self).wf(),
            final(self).toks() == old(self).toks(),
            final(self).pos >= old(self).pos,
            r is Ok ==> final(self).pos > old(self).pos,
            match r {
                Ok(()) => p_item(old(self).toks(), old(self).st(), old(schema)@) == Ok::<
                    (SchemaV, St),
                    ErrV,
                >((final(schema)@, final(self).st())),
                Err(e) => p_item(old(self).toks(), old(self).st(), old(schema)@) == Err::<
                    (SchemaV, St),
                    ErrV,
                >(e@),
            },
    {
        reveal(p_item);
        match self.kind() {
            Some(Token::Namespace) => {
                let ns = self.parse_namespace()?;
                schema.namespace = Some(ns);
                Ok(())
            },
            Some(Token::Include) => {
                let inc = self.parse_keyword_string(Token::Include)?;
                proof {
                    assert(texts(schema.includes@.push(inc)) =~= texts(schema.includes@).push(inc@));
                }
                schema.includes.push(inc);
                Ok(())
            },
            Some(Token::Attribute) => {
                let a = self.parse_keyword_string(Token::Attribute)?;
                proof {
                    assert(texts(schema.attributes@.push(a)) =~= texts(schema.attributes@).push(a@));
                }
                schema.attributes.push(a);
                Ok(())
            },
            Some(Token::Table) => {
                let (name, fields, metadata, doc_comment) = self.parse_table_like(Token::Table)?;
                let t = TableDef { name, fields, metadata, doc_comment };
                proof {
                    assert(schema.tables@.push(t).map_values(|t: TableDef| t@) =~= schema.tables@.map_values(
                        |t: TableDef| t@,
                    ).push(t@));
                }
                schema.tables.push(t);
                Ok(())
            },
            Some(Token::Struct) => {
                let (name, fields, metadata, doc_comment) = self.parse_table_like(Token::Struct)?;
                let t = StructDef { name, fields, metadata, doc_comment };
                proof {
                    assert(schema.structs@.push(t).map_values(|t: StructDef| t@) =~= schema.structs@.map_values(
                        |t: StructDef| t@,
                    ).push(t@));
                }
                schema.structs.push(t);
                Ok(())
            },
            Some(Token::Enum) => {
                let d = self.parse_enum()?;
                proof {
                    assert(schema.enums@.push(d).map_values(|e: EnumDef| e@) =~= schema.enums@.map_values(
                        |e: EnumDef| e@,
                    ).push(d@));
                }
                schema.enums.push(d);
                Ok(())
            },
            Some(Token::Union) => {
                let d = self.parse_union()?;
                proof {
                    assert(schema.unions@.push(d).map_values(|u: UnionDef| u@) =~= schema.unions@.map_values(
                        |u: UnionDef| u@,
                    ).push(d@));
                }
                schema.unions.push(d);
                Ok(())
            },
            Some(Token::RootType) => {
                let rt = self.parse_root_type()?;
                schema.root_type = Some(rt);
                Ok(())
            },
            Some(Token::FileIdentifier) => {
                let id = self.parse_keyword_string(Token::FileIdentifier)?;
                schema.file_identifier = Some(id);
                Ok(())
            },
            Some(Token::FileExtension) => {
                let ext = self.parse_keyword_string(Token::FileExtension)?;
                schema.file_extension = Some(ext);
                Ok(())
            },
            Some(Token::RpcService) => {
                self.skip_rpc_service()?;
                Ok(())
            },
            _ => Err(self.error("Unexpected token at top level")),
        }
    }

    /// Parses the schema from the current token to the end.
    pub fn parse(&mut self) -> (r: Result<FlatBuffersSchema, ParseError>)
        requires
            old(self).wf(),
        ensures
            final(self).wf(),
            match r {
                Ok(s) => p_items(old(self).toks(), old(self).st(), empty_schema()) == Ok::<
                    SchemaV,
                    ErrV,
                >(s@),
                Err(e) => p_items(old(self).toks(), old(self).st(), empty_schema()) == Err::<
                    SchemaV,
                    ErrV,
                >(e@),
            },
    {
        let mut schema = FlatBuffersSchema::new();
        while self.pos < self.tokens.len()
            invariant
                self.wf(),
                p_items(old(self).toks(), old(self).st(), empty_schema()) == p_items(
                    self.toks(),
                    self.st(),
                    schema@,
                ),
            ensures
                self.wf(),
                p_items(old(self).toks(), old(self).st(), empty_schema()) == Ok::<SchemaV, ErrV>(
                    schema@,
                ),
            decreases self.tokens.len() - self.pos,
        {
            let ghost st = self.st();
            let ghost s0 = schema@;
            self.collect_doc_comments();
            if self.pos >= self.tokens.len() {
                assert(p_items(self.toks(), st, s0) == Ok::<SchemaV, ErrV>(s0));
                break;
            }
            let ghost st0 = self.st();
            assert(st0 == collect_docs(self.toks(), st));
            self.parse_item(&mut schema)?;
            proof {
                let ts = self.toks();
                assert(p_item(ts, st0, s0) == Ok::<(SchemaV, St), ErrV>((schema@, self.st())));
                assert(st.pos < self.st().pos <= ts.len());
                assert(p_items(ts, st, s0) == p_items(ts, self.st(), schema@));
            }
        }
        Ok(schema)
    }
}

proof fn lemma_attribute_put(s: Seq<(Seq<char>, Option<String>)>, k: Seq<char>, v: Option<String>)
    ensures
        attribute_texts(put(s, k, v)) == put(attribute_texts(s), k, opt_text(v)),
{
    let f = |o: Option<String>| opt_text(o);
    crate::named_map::lemma_put_map(s, k, v, f);
    assert(attribute_texts(put(s, k, v)) =~= crate::named_map::map_entry_values(put(s, k, v), f));
    assert(attribute_texts(s) =~= crate::named_map::map_entry_values(s, f));
}

/// Parses a FlatBuffers schema source into its syntax tree.
pub fn parse(source: &str) -> (r: Result<FlatBuffersSchema, ParseError>)
    requires
        byte_len(source@) <= usize::MAX,
    ensures
        match r {
            Ok(s) => parse_source(source@) == Ok::<SchemaV, ErrV>(s@),
            Err(e) => parse_source(source@) == Err::<SchemaV, ErrV>(e@),
        },
{
    let tokens = match tokenize(source) {
        Ok(t) => t,
        Err(e) => {
            return Err(ParseError { message: e.message, span: Some(e.span) });
        },
    };
    let mut parser = Parser::new(tokens);
    parser.parse()
}

/// Whether an exec result of text matches the spec result `spec`, with
/// the parser at `after` on success.
pub open spec fn text_res(r: Result<String, ParseError>, spec: Res<Seq<char>>, after: St) -> bool {
    match r {
        Ok(t) => spec == Ok::<(Seq<char>, St), ErrV>((t@, after)),
        Err(e) => spec == Err::<(Seq<char>, St), ErrV>(e@),
    }
}


/// Whether a FlatBuffers scalar is unsigned.
pub open spec fn scalar_unsigned(s: ScalarType) -> bool {
    match s {
        ScalarType::UByte | ScalarType::UShort | ScalarType::UInt | ScalarType::ULong => true,
        ScalarType::UInt8 | ScalarType::UInt16 | ScalarType::UInt32 | ScalarType::UInt64 => true,
        _ => false,
    }
}

/// The width of a FlatBuffers scalar, in bits.
pub open spec fn scalar_bits(s: ScalarType) -> nat {
    match s {
        ScalarType::Bool | ScalarType::Byte | ScalarType::UByte | ScalarType::Int8 | ScalarType::UInt8 => 8,
        ScalarType::Short | ScalarType::UShort | ScalarType::Int16 | ScalarType::UInt16 => 16,
        ScalarType::Int | ScalarType::UInt | ScalarType::Int32 | ScalarType::UInt32 => 32,
        ScalarType::Float | ScalarType::Float32 => 32,
        _ => 64,
    }
}

/// Whether the text `t` ends with `suffix`.
pub open spec fn ends_with(t: Seq<char>, suffix: Seq<char>) -> bool {
    t.len() >= suffix.len() && t.subrange(t.len() - suffix.len(), t.len() as int) == suffix
}

/// Each type keyword parses to the scalar of its own signedness and
/// width: the scalar is unsigned exactly when the keyword begins with `u`;
/// a keyword that ends with a width (`8`, `16`, `32`, `64`) gives a scalar
/// of that width; and the scalar is the one the keyword names as a type
/// name (`ScalarType::parse`), so a short keyword and its sized spelling
/// (`uint` and `uint32`) give the same scalar. Conversely every scalar type
/// name is a keyword that parses to its scalar.
#[verifier::spinoff_prover]
#[verifier::rlimit(100)]
pub proof fn lemma_scalar_keywords(t: Seq<char>)
    ensures
        (keyword(t) matches Some(k) && scalar_of(k) is Some) ==> {
            let s = scalar_of(keyword(t)->0)->0;
            &&& (scalar_unsigned(s) <==> t[0] == 'u')
            &&& (ends_with(t, "8"@) ==> scalar_bits(s) == 8)
            &&& (ends_with(t, "16"@) ==> scalar_bits(s) == 16)
            &&& (ends_with(t, "32"@) ==> scalar_bits(s) == 32)
            &&& (ends_with(t, "64"@) ==> scalar_bits(s) == 64)
            &&& scalar_named(t) == Some(s)
        },
        scalar_named(t) is Some ==> (keyword(t) matches Some(k) && scalar_of(k) == scalar_named(t)),
{
    reveal_strlit("bool");
    reveal_strlit("byte");
    reveal_strlit("ubyte");
    reveal_strlit("short");
    reveal_strlit("ushort");
    reveal_strlit("int");
    reveal_strlit("uint");
    reveal_strlit("long");
    reveal_strlit("ulong");
    reveal_strlit("float");
    reveal_strlit("double");
    reveal_strlit("int8");
    reveal_strlit("uint8");
    reveal_strlit("int16");
    reveal_strlit("uint16");
    reveal_strlit("int32");
    reveal_strlit("uint32");
    reveal_strlit("int64");
    reveal_strlit("uint64");
    reveal_strlit("float32");
    reveal_strlit("float64");
    reveal_strlit("namespace");
    reveal_strlit("include");
    reveal_strlit("attribute");
    reveal_strlit("table");
    reveal_strlit("struct");
    reveal_strlit("enum");
    reveal_strlit("union");
    reveal_strlit("root_type");
    reveal_strlit("file_identifier");
    reveal_strlit("file_extension");
    reveal_strlit("rpc_service");
    reveal_strlit("string");
    reveal_strlit("true");
    reveal_strlit("false");
    reveal_strlit("8");
    reveal_strlit("16");
    reveal_strlit("32");
    reveal_strlit("64");
    assert("bool"@.len() == 4);
    assert("byte"@.len() == 4);
    assert("ubyte"@.len() == 5);
    assert("short"@.len() == 5);
    assert("ushort"@.len() == 6);
    assert("int"@.len() == 3);
    assert("uint"@.len() == 4);
    assert("long"@.len() == 4);
    assert("ulong"@.len() == 5);
    assert("float"@.len() == 5);
    assert("double"@.len() == 6);
    assert("int8"@.len() == 4);
    assert("uint8"@.len() == 5);
    assert("int16"@.len() == 5);
    assert("uint16"@.len() == 6);
    assert("int32"@.len() == 5);
    assert("uint32"@.len() == 6);
    assert("int64"@.len() == 5);
    assert("uint64"@.len() == 6);
    assert("float32"@.len() == 7);
    assert("float64"@.len() == 7);
    assert("namespace"@.len() == 9);
    assert("include"@.len() == 7);
    assert("attribute"@.len() == 9);
    assert("table"@.len() == 5);
    assert("struct"@.len() == 6);
    assert("enum"@.len() == 4);
    assert("union"@.len() == 5);
    assert("root_type"@.len() == 9);
    assert("file_identifier"@.len() == 15);
    assert("file_extension"@.len() == 14);
    assert("rpc_service"@.len() == 11);
    assert("string"@.len() == 6);
    assert("true"@.len() == 4);
    assert("false"@.len() == 5);
    if t == "bool"@ {
        assert(t[1] != "byte"@[1]);
        assert(t[0] != "uint"@[0]);
        assert(t[0] != "long"@[0]);
        assert(t[0] != "int8"@[0]);
        assert(t[0] != "enum"@[0]);
        assert(t[0] != "true"@[0]);
        assert(keyword(t) == Some(Token::Bool));
        assert(t[0] == "bool"@[0]);
        if ends_with(t, "8"@) { assert(t.subrange(t.len() - 1, t.len() as int)[0] == t[t.len() - 1]); }
        if ends_with(t, "16"@) { assert(t.subrange(t.len() - 2, t.len() as int)[1] == t[t.len() - 1]); }
        if ends_with(t, "32"@) { assert(t.subrange(t.len() - 2, t.len() as int)[1] == t[t.len() - 1]); }
        if ends_with(t, "64"@) { assert(t.subrange(t.len() - 2, t.len() as int)[1] == t[t.len() - 1]); }
    }
    if t == "byte"@ {
        assert(t[1] != "bool"@[1]);
        assert(t[0] != "uint"@[0]);
        assert(t[0] != "long"@[0]);
        assert(t[0] != "int8"@[0]);
        assert(t[0] != "enum"@[0]);
        assert(t[0] != "true"@[0]);
        assert(keyword(t) == Some(Token::Byte));
        assert(t[0] == "byte"@[0]);
        if ends_with(t, "8"@) { assert(t.subrange(t.len() - 1, t.len() as int)[0] == t[t.len() - 1]); }
        if ends_with(t, "16"@) { assert(t.subrange(t.len() - 2, t.len() as int)[1] == t[t.len() - 1]); }
        if ends_with(t, "32"@) { assert(t.subrange(t.len() - 2, t.len() as int)[1] == t[t.len() - 1]); }
        if ends_with(t, "64"@) { assert(t.subrange(t.len() - 2, t.len() as int)[1] == t[t.len() - 1]); }
    }
    if t == "ubyte"@ {
        assert(t[0] != "short"@[0]);
        assert(t[1] != "ulong"@[1]);
        assert(t[0] != "float"@[0]);
        assert(t[1] != "uint8"@[1]);
        assert(t[0] != "int16"@[0]);
        assert(t[0] != "int32"@[0]);
        assert(t[0] != "int64"@[0]);
        assert(t[0] != "table"@[0]);
        assert(t[1] != "union"@[1]);
        assert(t[0] != "false"@[0]);
        assert(keyword(t) == Some(Token::UByte));
        assert(t[0] == "ubyte"@[0]);
        if ends_with(t, "8"@) { assert(t.subrange(t.len() - 1, t.len() as int)[0] == t[t.len() - 1]); }
        if ends_with(t, "16"@) { assert(t.subrange(t.len() - 2, t.len() as int)[1] == t[t.len() - 1]); }
        if ends_with(t, "32"@) { assert(t.subrange(t.len() - 2, t.len() as int)[1] == t[t.len() - 1]); }
        if ends_with(t, "64"@) { assert(t.subrange(t.len() - 2, t.len() as int)[1] == t[t.len() - 1]); }
    }
    if t == "short"@ {
        assert(t[0] != "ubyte"@[0]);
        assert(t[0] != "ulong"@[0]);
        assert(t[0] != "float"@[0]);
        assert(t[0] != "uint8"@[0]);
        assert(t[0] != "int16"@[0]);
        assert(t[0] != "int32"@[0]);
        assert(t[0] != "int64"@[0]);
        assert(t[0] != "table"@[0]);
        assert(t[0] != "union"@[0]);
        assert(t[0] != "false"@[0]);
        assert(keyword(t) == Some(Token::Short));
        assert(t[0] == "short"@[0]);
        if ends_with(t, "8"@) { assert(t.subrange(t.len() - 1, t.len() as int)[0] == t[t.len() - 1]); }
        if ends_with(t, "16"@) { assert(t.subrange(t.len() - 2, t.len() as int)[1] == t[t.len() - 1]); }
        if ends_with(t, "32"@) { assert(t.subrange(t.len() - 2, t.len() as int)[1] == t[t.len() - 1]); }
        if ends_with(t, "64"@) { assert(t.subrange(t.len() - 2, t.len() as int)[1] == t[t.len() - 1]); }
    }
    if t == "ushort"@ {
        assert(t[0] != "double"@[0]);
        assert(t[1] != "uint16"@[1]);
        assert(t[1] != "uint32"@[1]);
        assert(t[1] != "uint64"@[1]);
        assert(t[0] != "struct"@[0]);
        assert(t[0] != "string"@[0]);
        assert(keyword(t) == Some(Token::UShort));
        assert(t[0] == "ushort"@[0]);
        if ends_with(t, "8"@) { assert(t.subrange(t.len() - 1, t.len() as int)[0] == t[t.len() - 1]); }
        if ends_with(t, "16"@) { assert(t.subrange(t.len() - 2, t.len() as int)[1] == t[t.len() - 1]); }
        if ends_with(t, "32"@) { assert(t.subrange(t.len() - 2, t.len() as int)[1] == t[t.len() - 1]); }
        if ends_with(t, "64"@) { assert(t.subrange(t.len() - 2, t.len() as int)[1] == t[t.len() - 1]); }
    }
    if t == "int"@ {
        assert(keyword(t) == Some(Token::Int));
        assert(t[0] == "int"@[0]);
        if ends_with(t, "8"@) { assert(t.subrange(t.len() - 1, t.len() as int)[0] == t[t.len() - 1]); }
        if ends_with(t, "16"@) { assert(t.subrange(t.len() - 2, t.len() as int)[1] == t[t.len() - 1]); }
        if ends_with(t, "32"@) { assert(t.subrange(t.len() - 2, t.len() as int)[1] == t[t.len() - 1]); }
        if ends_with(t, "64"@) { assert(t.subrange(t.len() - 2, t.len() as int)[1] == t[t.len() - 1]); }
    }
    if t == "uint"@ {
        assert(t[0] != "bool"@[0]);
        assert(t[0] != "byte"@[0]);
        assert(t[0] != "long"@[0]);
        assert(t[0] != "int8"@[0]);
        assert(t[0] != "enum"@[0]);
        assert(t[0] != "true"@[0]);
        assert(keyword(t) == Some(Token::UInt));
        assert(t[0] == "uint"@[0]);
        if ends_with(t, "8"@) { assert(t.subrange(t.len() - 1, t.len() as int)[0] == t[t.len() - 1]); }
        if ends_with(t, "16"@) { assert(t.subrange(t.len() - 2, t.len() as int)[1] == t[t.len() - 1]); }
        if ends_with(t, "32"@) { assert(t.subrange(t.len() - 2, t.len() as int)[1] == t[t.len() - 1]); }
        if ends_with(t, "64"@) { assert(t.subrange(t.len() - 2, t.len() as int)[1] == t[t.len() - 1]); }
    }
    if t == "long"@ {
        assert(t[0] != "bool"@[0]);
        assert(t[0] != "byte"@[0]);
        assert(t[0] != "uint"@[0]);
        assert(t[0] != "int8"@[0]);
        assert(t[0] != "enum"@[0]);
        assert(t[0] != "true"@[0]);
        assert(keyword(t) == Some(Token::Long));
        assert(t[0] == "long"@[0]);
        if ends_with(t, "8"@) { assert(t.subrange(t.len() - 1, t.len() as int)[0] == t[t.len() - 1]); }
        if ends_with(t, "16"@) { assert(t.subrange(t.len() - 2, t.len() as int)[1] == t[t.len() - 1]); }
        if ends_with(t, "32"@) { assert(t.subrange(t.len() - 2, t.len() as int)[1] == t[t.len() - 1]); }
        if ends_with(t, "64"@) { assert(t.subrange(t.len() - 2, t.len() as int)[1] == t[t.len() - 1]); }
    }
    if t == "ulong"@ {
        assert(t[1] != "ubyte"@[1]);
        assert(t[0] != "short"@[0]);
        assert(t[0] != "float"@[0]);
        assert(t[1] != "uint8"@[1]);
        assert(t[0] != "int16"@[0]);
        assert(t[0] != "int32"@[0]);
        assert(t[0] != "int64"@[0]);
        assert(t[0] != "table"@[0]);
        assert(t[1] != "union"@[1]);
        assert(t[0] != "false"@[0]);
        assert(keyword(t) == Some(Token::ULong));
        assert(t[0] == "ulong"@[0]);
        if ends_with(t, "8"@) { assert(t.subrange(t.len() - 1, t.len() as int)[0] == t[t.len() - 1]); }
        if ends_with(t, "16"@) { assert(t.subrange(t.len() - 2, t.len() as int)[1] == t[t.len() - 1]); }
        if ends_with(t, "32"@) { assert(t.subrange(t.len() - 2, t.len() as int)[1] == t[t.len() - 1]); }
        if ends_with(t, "64"@) { assert(t.subrange(t.len() - 2, t.len() as int)[1] == t[t.len() - 1]); }
    }
    if t == "float"@ {
        assert(t[0] != "ubyte"@[0]);
        assert(t[0] != "short"@[0]);
        assert(t[0] != "ulong"@[0]);
        assert(t[0] != "uint8"@[0]);
        assert(t[0] != "int16"@[0]);
        assert(t[0] != "int32"@[0]);
        assert(t[0] != "int64"@[0]);
        assert(t[0] != "table"@[0]);
        assert(t[0] != "union"@[0]);
        assert(t[1] != "false"@[1]);
        assert(keyword(t) == Some(Token::Float));
        assert(t[0] == "float"@[0]);
        if ends_with(t, "8"@) { assert(t.subrange(t.len() - 1, t.len() as int)[0] == t[t.len() - 1]); }
        if ends_with(t, "16"@) { assert(t.subrange(t.len() - 2, t.len() as int)[1] == t[t.len() - 1]); }
        if ends_with(t, "32"@) { assert(t.subrange(t.len() - 2, t.len() as int)[1] == t[t.len() - 1]); }
        if ends_with(t, "64"@) { assert(t.subrange(t.len() - 2, t.len() as int)[1] == t[t.len() - 1]); }
    }
    if t == "double"@ {
        assert(t[0] != "ushort"@[0]);
        assert(t[0] != "uint16"@[0]);
        assert(t[0] != "uint32"@[0]);
        assert(t[0] != "uint64"@[0]);
        assert(t[0] != "struct"@[0]);
        assert(t[0] != "string"@[0]);
        assert(keyword(t) == Some(Token::Double));
        assert(t[0] == "double"@[0]);
        if ends_with(t, "8"@) { assert(t.subrange(t.len() - 1, t.len() as int)[0] == t[t.len() - 1]); }
        if ends_with(t, "16"@) { assert(t.subrange(t.len() - 2, t.len() as int)[1] == t[t.len() - 1]); }
        if ends_with(t, "32"@) { assert(t.subrange(t.len() - 2, t.len() as int)[1] == t[t.len() - 1]); }
        if ends_with(t, "64"@) { assert(t.subrange(t.len() - 2, t.len() as int)[1] == t[t.len() - 1]); }
    }
    if t == "int8"@ {
        assert(t[0] != "bool"@[0]);
        assert(t[0] != "byte"@[0]);
        assert(t[0] != "uint"@[0]);
        assert(t[0] != "long"@[0]);
        assert(t[0] != "enum"@[0]);
        assert(t[0] != "true"@[0]);
        assert(keyword(t) == Some(Token::Int8));
        assert(t[0] == "int8"@[0]);
        if ends_with(t, "8"@) { assert(t.subrange(t.len() - 1, t.len() as int)[0] == t[t.len() - 1]); }
        if ends_with(t, "16"@) { assert(t.subrange(t.len() - 2, t.len() as int)[1] == t[t.len() - 1]); }
        if ends_with(t, "32"@) { assert(t.subrange(t.len() - 2, t.len() as int)[1] == t[t.len() - 1]); }
        if ends_with(t, "64"@) { assert(t.subrange(t.len() - 2, t.len() as int)[1] == t[t.len() - 1]); }
    }
    if t == "uint8"@ {
        assert(t[1] != "ubyte"@[1]);
        assert(t[0] != "short"@[0]);
        assert(t[1] != "ulong"@[1]);
        assert(t[0] != "float"@[0]);
        assert(t[0] != "int16"@[0]);
        assert(t[0] != "int32"@[0]);
        assert(t[0] != "int64"@[0]);
        assert(t[0] != "table"@[0]);
        assert(t[1] != "union"@[1]);
        assert(t[0] != "false"@[0]);
        assert(keyword(t) == Some(Token::UInt8));
        assert(t[0] == "uint8"@[0]);
        if ends_with(t, "8"@) { assert(t.subrange(t.len() - 1, t.len() as int)[0] == t[t.len() - 1]); }
        if ends_with(t, "16"@) { assert(t.subrange(t.len() - 2, t.len() as int)[1] == t[t.len() - 1]); }
        if ends_with(t, "32"@) { assert(t.subrange(t.len() - 2, t.len() as int)[1] == t[t.len() - 1]); }
        if ends_with(t, "64"@) { assert(t.subrange(t.len() - 2, t.len() as int)[1] == t[t.len() - 1]); }
    }
    if t == "int16"@ {
        assert(t[0] != "ubyte"@[0]);
        assert(t[0] != "short"@[0]);
        assert(t[0] != "ulong"@[0]);
        assert(t[0] != "float"@[0]);
        assert(t[0] != "uint8"@[0]);
        assert(t[3] != "int32"@[3]);
        assert(t[3] != "int64"@[3]);
        assert(t[0] != "table"@[0]);
        assert(t[0] != "union"@[0]);
        assert(t[0] != "false"@[0]);
        assert(keyword(t) == Some(Token::Int16));
        assert(t[0] == "int16"@[0]);
        if ends_with(t, "8"@) { assert(t.subrange(t.len() - 1, t.len() as int)[0] == t[t.len() - 1]); }
        if ends_with(t, "16"@) { assert(t.subrange(t.len() - 2, t.len() as int)[1] == t[t.len() - 1]); }
        if ends_with(t, "32"@) { assert(t.subrange(t.len() - 2, t.len() as int)[1] == t[t.len() - 1]); }
        if ends_with(t, "64"@) { assert(t.subrange(t.len() - 2, t.len() as int)[1] == t[t.len() - 1]); }
    }
    if t == "uint16"@ {
        assert(t[1] != "ushort"@[1]);
        assert(t[0] != "double"@[0]);
        assert(t[4] != "uint32"@[4]);
        assert(t[4] != "uint64"@[4]);
        assert(t[0] != "struct"@[0]);
        assert(t[0] != "string"@[0]);
        assert(keyword(t) == Some(Token::UInt16));
        assert(t[0] == "uint16"@[0]);
        if ends_with(t, "8"@) { assert(t.subrange(t.len() - 1, t.len() as int)[0] == t[t.len() - 1]); }
        if ends_with(t, "16"@) { assert(t.subrange(t.len() - 2, t.len() as int)[1] == t[t.len() - 1]); }
        if ends_with(t, "32"@) { assert(t.subrange(t.len() - 2, t.len() as int)[1] == t[t.len() - 1]); }
        if ends_with(t, "64"@) { assert(t.subrange(t.len() - 2, t.len() as int)[1] == t[t.len() - 1]); }
    }
    if t == "int32"@ {
        assert(t[0] != "ubyte"@[0]);
        assert(t[0] != "short"@[0]);
        assert(t[0] != "ulong"@[0]);
        assert(t[0] != "float"@[0]);
        assert(t[0] != "uint8"@[0]);
        assert(t[3] != "int16"@[3]);
        assert(t[3] != "int64"@[3]);
        assert(t[0] != "table"@[0]);
        assert(t[0] != "union"@[0]);
        assert(t[0] != "false"@[0]);
        assert(keyword(t) == Some(Token::Int32));
        assert(t[0] == "int32"@[0]);
        if ends_with(t, "8"@) { assert(t.subrange(t.len() - 1, t.len() as int)[0] == t[t.len() - 1]); }
        if ends_with(t, "16"@) { assert(t.subrange(t.len() - 2, t.len() as int)[1] == t[t.len() - 1]); }
        if ends_with(t, "32"@) { assert(t.subrange(t.len() - 2, t.len() as int)[1] == t[t.len() - 1]); }
        if ends_with(t, "64"@) { assert(t.subrange(t.len() - 2, t.len() as int)[1] == t[t.len() - 1]); }
    }
    if t == "uint32"@ {
        assert(t[1] != "ushort"@[1]);
        assert(t[0] != "double"@[0]);
        assert(t[4] != "uint16"@[4]);
        assert(t[4] != "uint64"@[4]);
        assert(t[0] != "struct"@[0]);
        assert(t[0] != "string"@[0]);
        assert(keyword(t) == Some(Token::UInt32));
        assert(t[0] == "uint32"@[0]);
        if ends_with(t, "8"@) { assert(t.subrange(t.len() - 1, t.len() as int)[0] == t[t.len() - 1]); }
        if ends_with(t, "16"@) { assert(t.subrange(t.len() - 2, t.len() as int)[1] == t[t.len() - 1]); }
        if ends_with(t, "32"@) { assert(t.subrange(t.len() - 2, t.len() as int)[1] == t[t.len() - 1]); }
        if ends_with(t, "64"@) { assert(t.subrange(t.len() - 2, t.len() as int)[1] == t[t.len() - 1]); }
    }
    if t == "int64"@ {
        assert(t[0] != "ubyte"@[0]);
        assert(t[0] != "short"@[0]);
        assert(t[0] != "ulong"@[0]);
        assert(t[0] != "float"@[0]);
        assert(t[0] != "uint8"@[0]);
        assert(t[3] != "int16"@[3]);
        assert(t[3] != "int32"@[3]);
        assert(t[0] != "table"@[0]);
        assert(t[0] != "union"@[0]);
        assert(t[0] != "false"@[0]);
        assert(keyword(t) == Some(Token::Int64));
        assert(t[0] == "int64"@[0]);
        if ends_with(t, "8"@) { assert(t.subrange(t.len() - 1, t.len() as int)[0] == t[t.len() - 1]); }
        if ends_with(t, "16"@) { assert(t.subrange(t.len() - 2, t.len() as int)[1] == t[t.len() - 1]); }
        if ends_with(t, "32"@) { assert(t.subrange(t.len() - 2, t.len() as int)[1] == t[t.len() - 1]); }
        if ends_with(t, "64"@) { assert(t.subrange(t.len() - 2, t.len() as int)[1] == t[t.len() - 1]); }
    }
    if t == "uint64"@ {
        assert(t[1] != "ushort"@[1]);
        assert(t[0] != "double"@[0]);
        assert(t[4] != "uint16"@[4]);
        assert(t[4] != "uint32"@[4]);
        assert(t[0] != "struct"@[0]);
        assert(t[0] != "string"@[0]);
        assert(keyword(t) == Some(Token::UInt64));
        assert(t[0] == "uint64"@[0]);
        if ends_with(t, "8"@) { assert(t.subrange(t.len() - 1, t.len() as int)[0] == t[t.len() - 1]); }
        if ends_with(t, "16"@) { assert(t.subrange(t.len() - 2, t.len() as int)[1] == t[t.len() - 1]); }
        if ends_with(t, "32"@) { assert(t.subrange(t.len() - 2, t.len() as int)[1] == t[t.len() - 1]); }
        if ends_with(t, "64"@) { assert(t.subrange(t.len() - 2, t.len() as int)[1] == t[t.len() - 1]); }
    }
    if t == "float32"@ {
        assert(t[5] != "float64"@[5]);
        assert(t[0] != "include"@[0]);
        assert(keyword(t) == Some(Token::Float32));
        assert(t[0] == "float32"@[0]);
        if ends_with(t, "8"@) { assert(t.subrange(t.len() - 1, t.len() as int)[0] == t[t.len() - 1]); }
        if ends_with(t, "16"@) { assert(t.subrange(t.len() - 2, t.len() as int)[1] == t[t.len() - 1]); }
        if ends_with(t, "32"@) { assert(t.subrange(t.len() - 2, t.len() as int)[1] == t[t.len() - 1]); }
        if ends_with(t, "64"@) { assert(t.subrange(t.len() - 2, t.len() as int)[1] == t[t.len() - 1]); }
    }
    if t == "float64"@ {
        assert(t[5] != "float32"@[5]);
        assert(t[0] != "include"@[0]);
        assert(keyword(t) == Some(Token::Float64));
        assert(t[0] == "float64"@[0]);
        if ends_with(t, "8"@) { assert(t.subrange(t.len() - 1, t.len() as int)[0] == t[t.len() - 1]); }
        if ends_with(t, "16"@) { assert(t.subrange(t.len() - 2, t.len() as int)[1] == t[t.len() - 1]); }
        if ends_with(t, "32"@) { assert(t.subrange(t.len() - 2, t.len() as int)[1] == t[t.len() - 1]); }
        if ends_with(t, "64"@) { assert(t.subrange(t.len() - 2, t.len() as int)[1] == t[t.len() - 1]); }
    }
    if t != "bool"@ && t != "byte"@ && t != "ubyte"@ && t != "short"@ && t != "ushort"@ && t != "int"@ && t != "uint"@ && t != "long"@ && t != "ulong"@ && t != "float"@ && t != "double"@ && t != "int8"@ && t != "uint8"@ && t != "int16"@ && t != "uint16"@ && t != "int32"@ && t != "uint32"@ && t != "int64"@ && t != "uint64"@ && t != "float32"@ && t != "float64"@ {
        assert(scalar_named(t) is None);
        assert(!(keyword(t) matches Some(k) && scalar_of(k) is Some));
    }
}


/// A type written as a scalar keyword parses to the scalar that keyword
/// names, of its own signedness and width (see [`lemma_scalar_keywords`]):
/// when the token at the position is the keyword spelled `w`, for a field
/// type `x: w` the type is `Scalar(scalar_named(w))`, so `x: uint;` is an
/// unsigned 32-bit field; and an enum based on an integer keyword `w` has
/// that scalar as its underlying type.
pub proof fn lemma_scalar_type_parses(ts: Seq<TokV>, st: St, w: Seq<char>)
    requires
        keyword(w) is Some,
        kind_at(ts, st.pos) == keyword(w),
        scalar_named(w) is Some,
    ensures
        p_type(ts, st) == Ok::<(FbsTypeV, St), ErrV>((FbsTypeV::Scalar(scalar_named(w)->0), next(st))),
        ({
            let s = scalar_named(w)->0;
            s != ScalarType::Bool && s != ScalarType::Float32 && s != ScalarType::Float64
                ==> p_enum_base(ts, st) == Ok::<(ScalarType, St), ErrV>((s, next(st)))
        }),
{
    lemma_scalar_keywords(w);
    assert(keyword(w)->0 != Token::LBracket);
}

} // verus!
