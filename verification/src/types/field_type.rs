//! The type of a field, as read from Rust source.

use vstd::prelude::*;
use crate::text::{
    chars_of, first_index_of, is_white_space, join, join_strings, owned, string_of, white_space,
};

verus! {

/// The type of a struct field or of a variant's data.
#[derive(Debug, Default, PartialEq, Eq, Hash)]
pub enum FieldType {
    String,
    Char,
    Bool,
    #[default]
    Unit,
    F32,
    F64,
    I8,
    I16,
    I32,
    I64,
    I128,
    Isize,
    U8,
    U16,
    U32,
    U64,
    U128,
    Usize,
    Tuple(Vec<FieldType>),
    Struct(Vec<(String, FieldType)>),
    Option(Box<FieldType>),
    Vec(Box<FieldType>),
    HashMap(Box<FieldType>, Box<FieldType>),
    BTreeMap(Box<FieldType>, Box<FieldType>),
    RecordLink(Box<FieldType>),
    Other(String),
}

/// The model of a [`FieldType`]: names as `Seq<char>`, lists as `Seq`.
pub enum FieldTypeV {
    String,
    Char,
    Bool,
    Unit,
    F32,
    F64,
    I8,
    I16,
    I32,
    I64,
    I128,
    Isize,
    U8,
    U16,
    U32,
    U64,
    U128,
    Usize,
    Tuple(Seq<FieldTypeV>),
    Struct(Seq<(Seq<char>, FieldTypeV)>),
    Option(Box<FieldTypeV>),
    Vec(Box<FieldTypeV>),
    HashMap(Box<FieldTypeV>, Box<FieldTypeV>),
    BTreeMap(Box<FieldTypeV>, Box<FieldTypeV>),
    RecordLink(Box<FieldTypeV>),
    Other(Seq<char>),
}

/// The model of `t`.
pub open spec fn field_type_view(t: FieldType) -> FieldTypeV
    decreases t,
{
    match t {
        FieldType::String => FieldTypeV::String,
        FieldType::Char => FieldTypeV::Char,
        FieldType::Bool => FieldTypeV::Bool,
        FieldType::Unit => FieldTypeV::Unit,
        FieldType::F32 => FieldTypeV::F32,
        FieldType::F64 => FieldTypeV::F64,
        FieldType::I8 => FieldTypeV::I8,
        FieldType::I16 => FieldTypeV::I16,
        FieldType::I32 => FieldTypeV::I32,
        FieldType::I64 => FieldTypeV::I64,
        FieldType::I128 => FieldTypeV::I128,
        FieldType::Isize => FieldTypeV::Isize,
        FieldType::U8 => FieldTypeV::U8,
        FieldType::U16 => FieldTypeV::U16,
        FieldType::U32 => FieldTypeV::U32,
        FieldType::U64 => FieldTypeV::U64,
        FieldType::U128 => FieldTypeV::U128,
        FieldType::Usize => FieldTypeV::Usize,
        FieldType::Tuple(ts) => FieldTypeV::Tuple(
            Seq::new(
                ts@.len(),
                |i: int|
                    if 0 <= i < ts@.len() {
                        field_type_view(ts@[i])
                    } else {
                        FieldTypeV::Unit
                    },
            ),
        ),
        FieldType::Struct(fs) => FieldTypeV::Struct(
            Seq::new(
                fs@.len(),
                |i: int|
                    if 0 <= i < fs@.len() {
                        (fs@[i].0@, field_type_view(fs@[i].1))
                    } else {
                        (Seq::empty(), FieldTypeV::Unit)
                    },
            ),
        ),
        FieldType::Option(b) => FieldTypeV::Option(Box::new(field_type_view(*b))),
        FieldType::Vec(b) => FieldTypeV::Vec(Box::new(field_type_view(*b))),
        FieldType::HashMap(k, v) => FieldTypeV::HashMap(
            Box::new(field_type_view(*k)),
            Box::new(field_type_view(*v)),
        ),
        FieldType::BTreeMap(k, v) => FieldTypeV::BTreeMap(
            Box::new(field_type_view(*k)),
            Box::new(field_type_view(*v)),
        ),
        FieldType::RecordLink(b) => FieldTypeV::RecordLink(Box::new(field_type_view(*b))),
        FieldType::Other(s) => FieldTypeV::Other(s@),
    }
}

impl View for FieldType {
    type V = FieldTypeV;

    open spec fn view(&self) -> FieldTypeV {
        field_type_view(*self)
    }
}

/// The canonical name of a type, in Rust-like syntax.
pub open spec fn canonical(t: FieldTypeV) -> Seq<char>
    decreases t,
{
    match t {
        FieldTypeV::String => "String"@,
        FieldTypeV::Char => "char"@,
        FieldTypeV::Bool => "bool"@,
        FieldTypeV::Unit => "()"@,
        FieldTypeV::F32 => "f32"@,
        FieldTypeV::F64 => "f64"@,
        FieldTypeV::I8 => "i8"@,
        FieldTypeV::I16 => "i16"@,
        FieldTypeV::I32 => "i32"@,
        FieldTypeV::I64 => "i64"@,
        FieldTypeV::I128 => "i128"@,
        FieldTypeV::Isize => "isize"@,
        FieldTypeV::U8 => "u8"@,
        FieldTypeV::U16 => "u16"@,
        FieldTypeV::U32 => "u32"@,
        FieldTypeV::U64 => "u64"@,
        FieldTypeV::U128 => "u128"@,
        FieldTypeV::Usize => "usize"@,
        FieldTypeV::Tuple(ts) => "("@ + join(canonical_all(ts), ", "@) + ")"@,
        FieldTypeV::Struct(fs) => "{ "@ + join(canonical_fields_all(fs), ", "@) + " }"@,
        FieldTypeV::Option(b) => "Option<"@ + canonical(*b) + ">"@,
        FieldTypeV::Vec(b) => "Vec<"@ + canonical(*b) + ">"@,
        FieldTypeV::HashMap(k, v) => "HashMap<"@ + canonical(*k) + ", "@ + canonical(*v) + ">"@,
        FieldTypeV::BTreeMap(k, v) => "BTreeMap<"@ + canonical(*k) + ", "@ + canonical(*v) + ">"@,
        FieldTypeV::RecordLink(b) => "RecordLink<"@ + canonical(*b) + ">"@,
        FieldTypeV::Other(name) => name,
    }
}

/// The canonical names of the types `ts`, in order.
pub open spec fn canonical_all(ts: Seq<FieldTypeV>) -> Seq<Seq<char>>
    decreases ts,
{
    if ts.len() == 0 {
        Seq::empty()
    } else {
        proof {
            vstd::seq::axiom_seq_index_decreases(ts, ts.len() - 1);
            assert(decreases_to!(ts => ts.subrange(0, ts.len() - 1)));
        }
        canonical_all(ts.subrange(0, ts.len() - 1)).push(canonical(ts[ts.len() - 1]))
    }
}

/// The `name: type` texts of the named types `fs`, in order.
pub open spec fn canonical_fields_all(fs: Seq<(Seq<char>, FieldTypeV)>) -> Seq<Seq<char>>
    decreases fs,
{
    if fs.len() == 0 {
        Seq::empty()
    } else {
        proof {
            vstd::seq::axiom_seq_index_decreases(fs, fs.len() - 1);
            assert(decreases_to!(fs => fs.subrange(0, fs.len() - 1)));
        }
        let f = fs[fs.len() - 1];
        canonical_fields_all(fs.subrange(0, fs.len() - 1)).push(f.0 + ": "@ + canonical(f.1))
    }
}

/// How a type is displayed: its variant name, with the displayed parts it
/// holds in parentheses.
pub open spec fn displayed(t: FieldTypeV) -> Seq<char>
    decreases t,
{
    match t {
        FieldTypeV::String => "String"@,
        FieldTypeV::Char => "Char"@,
        FieldTypeV::Bool => "Bool"@,
        FieldTypeV::Unit => "Unit"@,
        FieldTypeV::F32 => "F32"@,
        FieldTypeV::F64 => "F64"@,
        FieldTypeV::I8 => "I8"@,
        FieldTypeV::I16 => "I16"@,
        FieldTypeV::I32 => "I32"@,
        FieldTypeV::I64 => "I64"@,
        FieldTypeV::I128 => "I128"@,
        FieldTypeV::Isize => "Isize"@,
        FieldTypeV::U8 => "U8"@,
        FieldTypeV::U16 => "U16"@,
        FieldTypeV::U32 => "U32"@,
        FieldTypeV::U64 => "U64"@,
        FieldTypeV::U128 => "U128"@,
        FieldTypeV::Usize => "Usize"@,
        FieldTypeV::Tuple(ts) => "Tuple("@ + join(displayed_all(ts), ", "@) + ")"@,
        FieldTypeV::Struct(fs) => "Struct("@ + join(displayed_fields_all(fs), ", "@) + ")"@,
        FieldTypeV::Option(b) => "Option("@ + displayed(*b) + ")"@,
        FieldTypeV::Vec(b) => "Vec("@ + displayed(*b) + ")"@,
        FieldTypeV::HashMap(k, v) => "HashMap("@ + displayed(*k) + ", "@ + displayed(*v) + ")"@,
        FieldTypeV::BTreeMap(k, v) => "BTreeMap("@ + displayed(*k) + ", "@ + displayed(*v) + ")"@,
        FieldTypeV::RecordLink(b) => "RecordLink("@ + displayed(*b) + ")"@,
        FieldTypeV::Other(name) => name,
    }
}

/// The displayed types `ts`, in order.
pub open spec fn displayed_all(ts: Seq<FieldTypeV>) -> Seq<Seq<char>>
    decreases ts,
{
    if ts.len() == 0 {
        Seq::empty()
    } else {
        proof {
            vstd::seq::axiom_seq_index_decreases(ts, ts.len() - 1);
            assert(decreases_to!(ts => ts.subrange(0, ts.len() - 1)));
        }
        displayed_all(ts.subrange(0, ts.len() - 1)).push(displayed(ts[ts.len() - 1]))
    }
}

/// The displayed `name: type` texts of the named types `fs`, in order.
pub open spec fn displayed_fields_all(fs: Seq<(Seq<char>, FieldTypeV)>) -> Seq<Seq<char>>
    decreases fs,
{
    if fs.len() == 0 {
        Seq::empty()
    } else {
        proof {
            vstd::seq::axiom_seq_index_decreases(fs, fs.len() - 1);
            assert(decreases_to!(fs => fs.subrange(0, fs.len() - 1)));
        }
        let f = fs[fs.len() - 1];
        displayed_fields_all(fs.subrange(0, fs.len() - 1)).push(f.0 + ": "@ + displayed(f.1))
    }
}

/// The index of the last `c` in `s`, or -1.
pub open spec fn last_index_of(s: Seq<char>, c: char) -> int
    decreases s.len(),
{
    if s.len() == 0 {
        -1
    } else if s.last() == c {
        s.len() - 1
    } else {
        last_index_of(s.drop_last(), c)
    }
}

pub proof fn lemma_last_index_bound(s: Seq<char>, c: char)
    ensures
        -1 <= last_index_of(s, c) < s.len(),
        last_index_of(s, c) >= 0 ==> s[last_index_of(s, c)] == c,
    decreases s.len(),
{
    if s.len() > 0 && s.last() != c {
        lemma_last_index_bound(s.drop_last(), c);
    }
}

/// `s` without its white space.
pub open spec fn without_white_space(s: Seq<char>) -> Seq<char> {
    s.filter(|c: char| !is_white_space(c))
}

/// The type that the white-space-free type text `s` names.
///
/// Primitive names map to their variant; `Option<T>` and `Vec<T>` wrap the
/// type of `T` (between the first `<` and the last `>`), `Box<T>` is `T`,
/// any other generic is `Other` of its base name; `(A, B, ..)` is a tuple of
/// the parts between commas outside angle brackets; anything else is
/// `Other` of the text.
pub open spec fn type_of_text(s: Seq<char>) -> FieldTypeV
    decreases s.len(), 0nat,
{
    if s == "String"@ { FieldTypeV::String }
    else if s == "char"@ { FieldTypeV::Char }
    else if s == "bool"@ { FieldTypeV::Bool }
    else if s == "f32"@ { FieldTypeV::F32 }
    else if s == "f64"@ { FieldTypeV::F64 }
    else if s == "i8"@ { FieldTypeV::I8 }
    else if s == "i16"@ { FieldTypeV::I16 }
    else if s == "i32"@ { FieldTypeV::I32 }
    else if s == "i64"@ { FieldTypeV::I64 }
    else if s == "i128"@ { FieldTypeV::I128 }
    else if s == "isize"@ { FieldTypeV::Isize }
    else if s == "u8"@ { FieldTypeV::U8 }
    else if s == "u16"@ { FieldTypeV::U16 }
    else if s == "u32"@ { FieldTypeV::U32 }
    else if s == "u64"@ { FieldTypeV::U64 }
    else if s == "u128"@ { FieldTypeV::U128 }
    else if s == "usize"@ { FieldTypeV::Usize }
    else if s == "()"@ { FieldTypeV::Unit }
    else {
        let start = first_index_of(s, '<');
        let end = last_index_of(s, '>');
        if start >= 0 {
            if end > start {
                proof {
                    lemma_last_index_bound(s, '>');
                }
                let outer = s.take(start);
                let inner = s.subrange(start + 1, end);
                if outer == "Option"@ {
                    FieldTypeV::Option(Box::new(type_of_text(inner)))
                } else if outer == "Vec"@ {
                    FieldTypeV::Vec(Box::new(type_of_text(inner)))
                } else if outer == "Box"@ {
                    type_of_text(inner)
                } else {
                    FieldTypeV::Other(outer)
                }
            } else {
                FieldTypeV::Other(s)
            }
        } else if s.len() >= 2 && s[0] == '(' && s.last() == ')' {
            FieldTypeV::Tuple(tuple_types(s.subrange(1, s.len() - 1), 0, Seq::empty()))
        } else {
            FieldTypeV::Other(s)
        }
    }
}

/// The types of the tuple elements in `s`, given the element text `cur`
/// read so far and the angle-bracket depth: elements end at a comma at depth
/// zero, and empty elements are dropped.
pub open spec fn tuple_types(s: Seq<char>, depth: int, cur: Seq<char>) -> Seq<FieldTypeV>
    decreases cur.len() + s.len() + 1, s.len(),
{
    if s.len() == 0 {
        if cur.len() > 0 {
            seq![type_of_text(cur)]
        } else {
            Seq::empty()
        }
    } else {
        let c = s[0];
        let rest = s.drop_first();
        if c == ',' && depth == 0 {
            (if cur.len() > 0 {
                seq![type_of_text(cur)]
            } else {
                Seq::empty()
            }) + tuple_types(rest, 0, Seq::empty())
        } else if c == '<' {
            tuple_types(rest, depth + 1, cur.push(c))
        } else if c == '>' {
            tuple_types(rest, depth - 1, cur.push(c))
        } else {
            tuple_types(rest, depth, cur.push(c))
        }
    }
}

/// Whether reading the type text `s` stays within its bounds: wherever a
/// `<` and a `>` both occur, the last `>` comes after the first `<`.
pub open spec fn type_text_readable(s: Seq<char>) -> bool
    decreases s.len(), 0nat,
{
    if s == "String"@ || s == "char"@ || s == "bool"@ || s == "f32"@ || s == "f64"@ || s
        == "i8"@ || s == "i16"@ || s == "i32"@ || s == "i64"@ || s == "i128"@ || s == "isize"@
        || s == "u8"@ || s == "u16"@ || s == "u32"@ || s == "u64"@ || s == "u128"@ || s
        == "usize"@ || s == "()"@ {
        true
    } else {
        let start = first_index_of(s, '<');
        let end = last_index_of(s, '>');
        if start >= 0 {
            if end >= 0 {
                proof {
                    lemma_last_index_bound(s, '>');
                }
                end > start && {
                    let outer = s.take(start);
                    let inner = s.subrange(start + 1, end);
                    (outer == "Option"@ || outer == "Vec"@ || outer == "Box"@)
                        ==> type_text_readable(inner)
                }
            } else {
                true
            }
        } else if s.len() >= 2 && s[0] == '(' && s.last() == ')' {
            tuple_readable(s.subrange(1, s.len() - 1), 0, Seq::empty())
        } else {
            true
        }
    }
}

/// Whether each element of the tuple text `s` is readable.
pub open spec fn tuple_readable(s: Seq<char>, depth: int, cur: Seq<char>) -> bool
    decreases cur.len() + s.len() + 1, s.len(),
{
    if s.len() == 0 {
        cur.len() > 0 ==> type_text_readable(cur)
    } else {
        let c = s[0];
        let rest = s.drop_first();
        if c == ',' && depth == 0 {
            (cur.len() > 0 ==> type_text_readable(cur)) && tuple_readable(rest, 0, Seq::empty())
        } else if c == '<' {
            tuple_readable(rest, depth + 1, cur.push(c))
        } else if c == '>' {
            tuple_readable(rest, depth - 1, cur.push(c))
        } else {
            tuple_readable(rest, depth, cur.push(c))
        }
    }
}

/// Whether `s` holds exactly the chars of `lit`.
fn is_text(s: &Vec<char>, lit: &str) -> (r: bool)
    ensures
        r == (s@ == lit@),
{
    let l = chars_of(lit);
    if s.len() != l.len() {
        return false;
    }
    let mut i: usize = 0;
    while i < s.len()
        invariant
            i <= s@.len(),
            s@.len() == l@.len(),
            l@ == lit@,
            forall|j: int| 0 <= j < i ==> s@[j] == l@[j],
        decreases s.len() - i,
    {
        if s[i] != l[i] {
            return false;
        }
        i = i + 1;
    }
    assert(s@ == l@);
    true
}

proof fn lemma_last_index(s: Seq<char>, c: char, i: int)
    requires
        0 <= i <= s.len(),
        forall|j: int| i <= j < s.len() ==> #[trigger] s[j] != c,
    ensures
        i > 0 && s[i - 1] == c ==> last_index_of(s, c) == i - 1,
        i == 0 ==> last_index_of(s, c) == -1,
    decreases s.len() - i,
{
    if i < s.len() {
        lemma_last_index(s.drop_last(), c, i);
    }
}

fn sub_chars(s: &Vec<char>, lo: usize, hi: usize) -> (r: Vec<char>)
    requires
        lo <= hi <= s@.len(),
    ensures
        r@ == s@.subrange(lo as int, hi as int),
{
    let mut out: Vec<char> = Vec::new();
    let mut i = lo;
    while i < hi
        invariant
            lo <= i <= hi <= s@.len(),
            out@ == s@.subrange(lo as int, i as int),
        decreases hi - i,
    {
        out.push(s[i]);
        i = i + 1;
    }
    out
}

/// The type the white-space-free text `s` names, as [`type_of_text`] says.
fn type_of_chars(s: &Vec<char>) -> (r: FieldType)
    requires
        type_text_readable(s@),
    ensures
        r@ == type_of_text(s@),
    decreases s@.len(),
{
    if is_text(s, "String") {
        return FieldType::String;
    }
    if is_text(s, "char") {
        return FieldType::Char;
    }
    if is_text(s, "bool") {
        return FieldType::Bool;
    }
    if is_text(s, "f32") {
        return FieldType::F32;
    }
    if is_text(s, "f64") {
        return FieldType::F64;
    }
    if is_text(s, "i8") {
        return FieldType::I8;
    }
    if is_text(s, "i16") {
        return FieldType::I16;
    }
    if is_text(s, "i32") {
        return FieldType::I32;
    }
    if is_text(s, "i64") {
        return FieldType::I64;
    }
    if is_text(s, "i128") {
        return FieldType::I128;
    }
    if is_text(s, "isize") {
        return FieldType::Isize;
    }
    if is_text(s, "u8") {
        return FieldType::U8;
    }
    if is_text(s, "u16") {
        return FieldType::U16;
    }
    if is_text(s, "u32") {
        return FieldType::U32;
    }
    if is_text(s, "u64") {
        return FieldType::U64;
    }
    if is_text(s, "u128") {
        return FieldType::U128;
    }
    if is_text(s, "usize") {
        return FieldType::Usize;
    }
    if is_text(s, "()") {
        return FieldType::Unit;
    }
    let n = s.len();
    let mut start: usize = 0;
    while start < n && s[start] != '<'
        invariant
            start <= n,
            n == s@.len(),
            forall|j: int| 0 <= j < start ==> #[trigger] s@[j] != '<',
        decreases n - start,
    {
        start = start + 1;
    }
    proof {
        crate::text::lemma_first_index_of(s@, '<', start as int);
    }
    let mut end: usize = n;
    while end > 0 && s[end - 1] != '>'
        invariant
            end <= n,
            n == s@.len(),
            forall|j: int| end <= j < n ==> #[trigger] s@[j] != '>',
        decreases end,
    {
        end = end - 1;
    }
    proof {
        lemma_last_index(s@, '>', end as int);
    }
    if start < n {
        if end > 0 && end - 1 > start {
            let e = end - 1;
            let outer = sub_chars(s, 0, start);
            assert(outer@ == s@.take(start as int));
            if is_text(&outer, "Option") {
                let inner = sub_chars(s, start + 1, e);
                return FieldType::Option(Box::new(type_of_chars(&inner)));
            } else if is_text(&outer, "Vec") {
                let inner = sub_chars(s, start + 1, e);
                return FieldType::Vec(Box::new(type_of_chars(&inner)));
            } else if is_text(&outer, "Box") {
                let inner = sub_chars(s, start + 1, e);
                return type_of_chars(&inner);
            } else {
                return FieldType::Other(string_of(&outer));
            }
        } else {
            return FieldType::Other(string_of(s));
        }
    }
    if n >= 2 && s[0] == '(' && s[n - 1] == ')' {
        let inner = sub_chars(s, 1, n - 1);
        let elems = tuple_of_chars(&inner, Ghost(s@.len()));
        proof {
            lemma_tuple_view(elems);
        }
        return FieldType::Tuple(elems);
    }
    FieldType::Other(string_of(s))
}

/// The element types of the tuple text `inner`, as [`tuple_types`] says.
fn tuple_of_chars(inner: &Vec<char>, Ghost(bound): Ghost<nat>) -> (r: Vec<FieldType>)
    requires
        inner@.len() < bound,
        tuple_readable(inner@, 0, Seq::empty()),
    ensures
        r@.map_values(|t: FieldType| t@) == tuple_types(inner@, 0, Seq::empty()),
    decreases bound, 1nat,
{
    let n = inner.len();
    let mut out: Vec<FieldType> = Vec::new();
    let mut cur: Vec<char> = Vec::new();
    let mut depth: i128 = 0;
    let mut i: usize = 0;
    assert(inner@.skip(0) == inner@);
    while i < n
        invariant
            i <= n,
            n == inner@.len(),
            n < bound,
            -(i as int) <= depth <= i,
            cur@.len() <= i,
            tuple_readable(inner@.skip(i as int), depth as int, cur@),
            out@.map_values(|t: FieldType| t@) + tuple_types(inner@.skip(i as int), depth as int, cur@)
                == tuple_types(inner@, 0, Seq::empty()),
        decreases n - i,
    {
        let c = inner[i];
        let ghost rest = inner@.skip(i as int);
        assert(rest[0] == c);
        assert(rest.drop_first() == inner@.skip(i + 1));
        let ghost before = out@.map_values(|t: FieldType| t@);
        if c == ',' && depth == 0 {
            if cur.len() > 0 {
                let t = type_of_chars(&cur);
                out.push(t);
                assert(out@.map_values(|t: FieldType| t@) == before.push(t@));
            }
            cur = Vec::new();
        } else {
            if c == '<' {
                depth = depth + 1;
            } else if c == '>' {
                depth = depth - 1;
            }
            cur.push(c);
        }
        i = i + 1;
    }
    let ghost before = out@.map_values(|t: FieldType| t@);
    if cur.len() > 0 {
        let t = type_of_chars(&cur);
        out.push(t);
        assert(out@.map_values(|t: FieldType| t@) == before.push(t@));
    }
    out
}

/// The models of a list of types.
pub open spec fn views_of(ts: Seq<FieldType>) -> Seq<FieldTypeV> {
    ts.map_values(|t: FieldType| t@)
}

/// The models of a list of named types.
pub open spec fn named_views_of(fs: Seq<(String, FieldType)>) -> Seq<(Seq<char>, FieldTypeV)> {
    fs.map_values(|f: (String, FieldType)| (f.0@, f.1@))
}

/// The model of a tuple type is the list of its element models.
pub proof fn lemma_tuple_view(ts: Vec<FieldType>)
    ensures
        FieldType::Tuple(ts)@ == FieldTypeV::Tuple(views_of(ts@)),
{
    let v = FieldType::Tuple(ts)@;
    assert(v->Tuple_0 =~= views_of(ts@));
}

/// The model of an inline struct type is the list of its named field models.
pub proof fn lemma_struct_view(fs: Vec<(String, FieldType)>)
    ensures
        FieldType::Struct(fs)@ == FieldTypeV::Struct(named_views_of(fs@)),
{
    let v = FieldType::Struct(fs)@;
    assert(v->Struct_0 =~= named_views_of(fs@));
}

impl Clone for FieldType {
    fn clone(&self) -> (r: FieldType)
        ensures
            r@ == self@,
    {
        self.duplicate()
    }
}

/// Copies of the types in `ts`.
fn duplicate_all(ts: &Vec<FieldType>) -> (r: Vec<FieldType>)
    ensures
        views_of(r@) == views_of(ts@),
    decreases ts,
{
    let mut out: Vec<FieldType> = Vec::new();
    let mut i: usize = 0;
    while i < ts.len()
        invariant
            i <= ts@.len(),
            views_of(out@) == views_of(ts@.take(i as int)),
        decreases ts.len() - i,
    {
        proof {
            vstd::std_specs::vec::axiom_vec_index_decreases(*ts, i as int);
        }
        let t = ts[i].duplicate();
        proof {
            assert(ts@.take(i + 1) == ts@.take(i as int).push(ts@[i as int]));
            assert(views_of(out@.push(t)) =~= views_of(out@).push(t@));
            assert(views_of(ts@.take(i + 1)) =~= views_of(ts@.take(i as int)).push(ts@[i as int]@));
        }
        out.push(t);
        i = i + 1;
    }
    assert(ts@.take(ts@.len() as int) == ts@);
    out
}

/// Copies of the named types in `fs`.
fn duplicate_all_named(fs: &Vec<(String, FieldType)>) -> (r: Vec<(String, FieldType)>)
    ensures
        named_views_of(r@) == named_views_of(fs@),
    decreases fs,
{
    let mut out: Vec<(String, FieldType)> = Vec::new();
    let mut i: usize = 0;
    while i < fs.len()
        invariant
            i <= fs@.len(),
            named_views_of(out@) == named_views_of(fs@.take(i as int)),
        decreases fs.len() - i,
    {
        proof {
            vstd::std_specs::vec::axiom_vec_index_decreases(*fs, i as int);
            assert(decreases_to!(fs[i as int] => fs[i as int].1));
        }
        let f = (fs[i].0.clone(), fs[i].1.duplicate());
        proof {
            assert(fs@.take(i + 1) == fs@.take(i as int).push(fs@[i as int]));
            assert(named_views_of(out@.push(f)) =~= named_views_of(out@).push((f.0@, f.1@)));
            assert(named_views_of(fs@.take(i + 1)) =~= named_views_of(fs@.take(i as int)).push(
                (fs@[i as int].0@, fs@[i as int].1@),
            ));
        }
        out.push(f);
        i = i + 1;
    }
    assert(fs@.take(fs@.len() as int) == fs@);
    out
}

/// The canonical names of the types in `ts`.
fn canonical_names(ts: &Vec<FieldType>) -> (r: Vec<String>)
    ensures
        r@.map_values(|s: String| s@) == canonical_all(views_of(ts@)),
    decreases ts,
{
    let mut out: Vec<String> = Vec::new();
    let mut i: usize = 0;
    while i < ts.len()
        invariant
            i <= ts@.len(),
            out@.map_values(|s: String| s@) == canonical_all(views_of(ts@.take(i as int))),
        decreases ts.len() - i,
    {
        proof {
            vstd::std_specs::vec::axiom_vec_index_decreases(*ts, i as int);
        }
        let c = ts[i].canonical_name();
        proof {
            let vs = views_of(ts@.take(i + 1));
            assert(vs.subrange(0, vs.len() - 1) =~= views_of(ts@.take(i as int)));
            assert(vs[vs.len() - 1] == ts@[i as int]@);
            assert(out@.push(c).map_values(|s: String| s@) =~= out@.map_values(|s: String| s@).push(c@));
        }
        out.push(c);
        i = i + 1;
    }
    assert(ts@.take(ts@.len() as int) == ts@);
    out
}

/// The `name: type` texts of the named types in `fs`.
fn canonical_fields(fs: &Vec<(String, FieldType)>) -> (r: Vec<String>)
    ensures
        r@.map_values(|s: String| s@) == canonical_fields_all(named_views_of(fs@)),
    decreases fs,
{
    let mut out: Vec<String> = Vec::new();
    let mut i: usize = 0;
    while i < fs.len()
        invariant
            i <= fs@.len(),
            out@.map_values(|s: String| s@) == canonical_fields_all(named_views_of(fs@.take(i as int))),
        decreases fs.len() - i,
    {
        proof {
            vstd::std_specs::vec::axiom_vec_index_decreases(*fs, i as int);
            assert(decreases_to!(fs[i as int] => fs[i as int].1));
        }
        let mut p = fs[i].0.clone();
        p.append(": ");
        p.append(fs[i].1.canonical_name().as_str());
        proof {
            let vs = named_views_of(fs@.take(i + 1));
            assert(vs.subrange(0, vs.len() - 1) =~= named_views_of(fs@.take(i as int)));
            assert(vs[vs.len() - 1] == (fs@[i as int].0@, fs@[i as int].1@));
            assert(out@.push(p).map_values(|s: String| s@) =~= out@.map_values(|s: String| s@).push(p@));
        }
        out.push(p);
        i = i + 1;
    }
    assert(fs@.take(fs@.len() as int) == fs@);
    out
}

/// The displayed types in `ts`.
fn displayed_names(ts: &Vec<FieldType>) -> (r: Vec<String>)
    ensures
        r@.map_values(|s: String| s@) == displayed_all(views_of(ts@)),
    decreases ts,
{
    let mut out: Vec<String> = Vec::new();
    let mut i: usize = 0;
    while i < ts.len()
        invariant
            i <= ts@.len(),
            out@.map_values(|s: String| s@) == displayed_all(views_of(ts@.take(i as int))),
        decreases ts.len() - i,
    {
        proof {
            vstd::std_specs::vec::axiom_vec_index_decreases(*ts, i as int);
        }
        let c = ts[i].to_string();
        proof {
            let vs = views_of(ts@.take(i + 1));
            assert(vs.subrange(0, vs.len() - 1) =~= views_of(ts@.take(i as int)));
            assert(vs[vs.len() - 1] == ts@[i as int]@);
            assert(out@.push(c).map_values(|s: String| s@) =~= out@.map_values(|s: String| s@).push(c@));
        }
        out.push(c);
        i = i + 1;
    }
    assert(ts@.take(ts@.len() as int) == ts@);
    out
}

/// The displayed `name: type` texts of the named types in `fs`.
fn displayed_fields(fs: &Vec<(String, FieldType)>) -> (r: Vec<String>)
    ensures
        r@.map_values(|s: String| s@) == displayed_fields_all(named_views_of(fs@)),
    decreases fs,
{
    let mut out: Vec<String> = Vec::new();
    let mut i: usize = 0;
    while i < fs.len()
        invariant
            i <= fs@.len(),
            out@.map_values(|s: String| s@) == displayed_fields_all(named_views_of(fs@.take(i as int))),
        decreases fs.len() - i,
    {
        proof {
            vstd::std_specs::vec::axiom_vec_index_decreases(*fs, i as int);
            assert(decreases_to!(fs[i as int] => fs[i as int].1));
        }
        let mut p = fs[i].0.clone();
        p.append(": ");
        p.append(fs[i].1.to_string().as_str());
        proof {
            let vs = named_views_of(fs@.take(i + 1));
            assert(vs.subrange(0, vs.len() - 1) =~= named_views_of(fs@.take(i as int)));
            assert(vs[vs.len() - 1] == (fs@[i as int].0@, fs@[i as int].1@));
            assert(out@.push(p).map_values(|s: String| s@) =~= out@.map_values(|s: String| s@).push(p@));
        }
        out.push(p);
        i = i + 1;
    }
    assert(fs@.take(fs@.len() as int) == fs@);
    out
}

impl FieldType {
    /// A copy of this type.
    pub fn duplicate(&self) -> (r: FieldType)
        ensures
            r@ == self@,
        decreases self,
    {
        match self {
            FieldType::Tuple(ts) => {
                proof {
                    assert(decreases_to!(*self => (*self)->Tuple_0));
                }
                let out = duplicate_all(ts);
                proof {
                    lemma_tuple_view(out);
                    lemma_tuple_view(*ts);
                }
                FieldType::Tuple(out)
            },
            FieldType::Struct(fs) => {
                proof {
                    assert(decreases_to!(*self => (*self)->Struct_0));
                }
                let out = duplicate_all_named(fs);
                proof {
                    lemma_struct_view(out);
                    lemma_struct_view(*fs);
                }
                FieldType::Struct(out)
            },
            FieldType::Option(b) => FieldType::Option(Box::new(b.duplicate())),
            FieldType::Vec(b) => FieldType::Vec(Box::new(b.duplicate())),
            FieldType::HashMap(k, v) => FieldType::HashMap(
                Box::new(k.duplicate()),
                Box::new(v.duplicate()),
            ),
            FieldType::BTreeMap(k, v) => FieldType::BTreeMap(
                Box::new(k.duplicate()),
                Box::new(v.duplicate()),
            ),
            FieldType::RecordLink(b) => FieldType::RecordLink(Box::new(b.duplicate())),
            FieldType::Other(name) => FieldType::Other(name.clone()),
            FieldType::String => FieldType::String,
            FieldType::Char => FieldType::Char,
            FieldType::Bool => FieldType::Bool,
            FieldType::Unit => FieldType::Unit,
            FieldType::F32 => FieldType::F32,
            FieldType::F64 => FieldType::F64,
            FieldType::I8 => FieldType::I8,
            FieldType::I16 => FieldType::I16,
            FieldType::I32 => FieldType::I32,
            FieldType::I64 => FieldType::I64,
            FieldType::I128 => FieldType::I128,
            FieldType::Isize => FieldType::Isize,
            FieldType::U8 => FieldType::U8,
            FieldType::U16 => FieldType::U16,
            FieldType::U32 => FieldType::U32,
            FieldType::U64 => FieldType::U64,
            FieldType::U128 => FieldType::U128,
            FieldType::Usize => FieldType::Usize,
        }
    }

    /// Returns a human-readable canonical name using Rust-like syntax, such
    /// as `"Option<DateTime>"`, `"Vec<i32>"` or `"HashMap<String, i64>"`.
    pub fn canonical_name(&self) -> (r: String)
        ensures
            r@ == canonical(self@),
        decreases self,
    {
        match self {
            FieldType::Tuple(ts) => {
                proof {
                    assert(decreases_to!(*self => (*self)->Tuple_0));
                }
                let parts = canonical_names(ts);
                let mut r = owned("(");
                r.append(join_strings(&parts, ", ").as_str());
                r.append(")");
                proof {
                    lemma_tuple_view(*ts);
                }
                r
            },
            FieldType::Struct(fs) => {
                proof {
                    assert(decreases_to!(*self => (*self)->Struct_0));
                }
                let parts = canonical_fields(fs);
                let mut r = owned("{ ");
                r.append(join_strings(&parts, ", ").as_str());
                r.append(" }");
                proof {
                    lemma_struct_view(*fs);
                }
                r
            },
            FieldType::Option(b) => {
                let mut r = owned("Option<");
                r.append(b.canonical_name().as_str());
                r.append(">");
                r
            },
            FieldType::Vec(b) => {
                let mut r = owned("Vec<");
                r.append(b.canonical_name().as_str());
                r.append(">");
                r
            },
            FieldType::HashMap(k, v) => {
                let mut r = owned("HashMap<");
                r.append(k.canonical_name().as_str());
                r.append(", ");
                r.append(v.canonical_name().as_str());
                r.append(">");
                r
            },
            FieldType::BTreeMap(k, v) => {
                let mut r = owned("BTreeMap<");
                r.append(k.canonical_name().as_str());
                r.append(", ");
                r.append(v.canonical_name().as_str());
                r.append(">");
                r
            },
            FieldType::RecordLink(b) => {
                let mut r = owned("RecordLink<");
                r.append(b.canonical_name().as_str());
                r.append(">");
                r
            },
            FieldType::Other(name) => name.clone(),
            FieldType::String => owned("String"),
            FieldType::Char => owned("char"),
            FieldType::Bool => owned("bool"),
            FieldType::Unit => owned("()"),
            FieldType::F32 => owned("f32"),
            FieldType::F64 => owned("f64"),
            FieldType::I8 => owned("i8"),
            FieldType::I16 => owned("i16"),
            FieldType::I32 => owned("i32"),
            FieldType::I64 => owned("i64"),
            FieldType::I128 => owned("i128"),
            FieldType::Isize => owned("isize"),
            FieldType::U8 => owned("u8"),
            FieldType::U16 => owned("u16"),
            FieldType::U32 => owned("u32"),
            FieldType::U64 => owned("u64"),
            FieldType::U128 => owned("u128"),
            FieldType::Usize => owned("usize"),
        }
    }

    /// The type as it is displayed, such as `Option(String)` or
    /// `HashMap(String, I64)`.
    pub fn to_string(&self) -> (r: String)
        ensures
            r@ == displayed(self@),
        decreases self,
    {
        match self {
            FieldType::Tuple(ts) => {
                proof {
                    assert(decreases_to!(*self => (*self)->Tuple_0));
                }
                let parts = displayed_names(ts);
                let mut r = owned("Tuple(");
                r.append(join_strings(&parts, ", ").as_str());
                r.append(")");
                proof {
                    lemma_tuple_view(*ts);
                }
                r
            },
            FieldType::Struct(fs) => {
                proof {
                    assert(decreases_to!(*self => (*self)->Struct_0));
                }
                let parts = displayed_fields(fs);
                let mut r = owned("Struct(");
                r.append(join_strings(&parts, ", ").as_str());
                r.append(")");
                proof {
                    lemma_struct_view(*fs);
                }
                r
            },
            FieldType::Option(b) => {
                let mut r = owned("Option(");
                r.append(b.to_string().as_str());
                r.append(")");
                r
            },
            FieldType::Vec(b) => {
                let mut r = owned("Vec(");
                r.append(b.to_string().as_str());
                r.append(")");
                r
            },
            FieldType::HashMap(k, v) => {
                let mut r = owned("HashMap(");
                r.append(k.to_string().as_str());
                r.append(", ");
                r.append(v.to_string().as_str());
                r.append(")");
                r
            },
            FieldType::BTreeMap(k, v) => {
                let mut r = owned("BTreeMap(");
                r.append(k.to_string().as_str());
                r.append(", ");
                r.append(v.to_string().as_str());
                r.append(")");
                r
            },
            FieldType::RecordLink(b) => {
                let mut r = owned("RecordLink(");
                r.append(b.to_string().as_str());
                r.append(")");
                r
            },
            FieldType::Other(name) => name.clone(),
            FieldType::String => owned("String"),
            FieldType::Char => owned("Char"),
            FieldType::Bool => owned("Bool"),
            FieldType::Unit => owned("Unit"),
            FieldType::F32 => owned("F32"),
            FieldType::F64 => owned("F64"),
            FieldType::I8 => owned("I8"),
            FieldType::I16 => owned("I16"),
            FieldType::I32 => owned("I32"),
            FieldType::I64 => owned("I64"),
            FieldType::I128 => owned("I128"),
            FieldType::Isize => owned("Isize"),
            FieldType::U8 => owned("U8"),
            FieldType::U16 => owned("U16"),
            FieldType::U32 => owned("U32"),
            FieldType::U64 => owned("U64"),
            FieldType::U128 => owned("U128"),
            FieldType::Usize => owned("Usize"),
        }
    }

    /// Reads a type from its Rust text, ignoring white space.
    pub fn parse_type_str(type_str: &str) -> (r: FieldType)
        requires
            type_text_readable(without_white_space(type_str@)),
        ensures
            r@ == type_of_text(without_white_space(type_str@)),
    {
        let v = chars_of(type_str);
        let mut clean: Vec<char> = Vec::new();
        let mut i: usize = 0;
        while i < v.len()
            invariant
                i <= v@.len(),
                v@ == type_str@,
                clean@ == without_white_space(v@.take(i as int)),
            decreases v.len() - i,
        {
            if !white_space(v[i]) {
                clean.push(v[i]);
            }
            proof {
                let t = v@.take(i + 1);
                assert(t.drop_last() == v@.take(i as int));
                assert(t.last() == v@[i as int]);
                reveal_with_fuel(Seq::filter, 1);
            }
            i = i + 1;
        }
        assert(v@.take(v@.len() as int) == v@);
        type_of_chars(&clean)
    }
}

} // verus!

verus! {

/// A type is modelled as a name exactly when it is one.
pub proof fn lemma_view_other(t: FieldType)
    ensures
        (t@ is Other) == (t is Other),
{
    match t {
        FieldType::Other(_) => {},
        _ => {},
    }
}

} // verus!
