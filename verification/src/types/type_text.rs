//! Reading back canonical names: the canonical name of a type built from
//! primitives by `Option`, `Vec` and flat tuples reads back as that type.

use vstd::prelude::*;
use crate::text::{first_index_of, is_white_space, join, lemma_first_index_of};
use crate::types::field_type::{
    FieldTypeV, canonical, canonical_all, last_index_of, tuple_readable, tuple_types, type_of_text,
    type_text_readable, without_white_space,
};

verus! {

/// Whether `t` is a primitive type or the unit type.
pub open spec fn simple_type(t: FieldTypeV) -> bool {
    !(t is Tuple || t is Struct || t is Option || t is Vec || t is HashMap || t is BTreeMap || t is RecordLink
        || t is Other)
}

/// Whether `t` is built from primitive and unit types by `Option`, `Vec`
/// and non-empty tuples of primitive or unit types.
pub open spec fn round_trip_type(t: FieldTypeV) -> bool
    decreases t,
{
    match t {
        FieldTypeV::Option(b) => round_trip_type(*b),
        FieldTypeV::Vec(b) => round_trip_type(*b),
        FieldTypeV::Tuple(ts) => ts.len() > 0 && forall|i: int| 0 <= i < ts.len() ==> simple_type(#[trigger] ts[i]),
        _ => simple_type(t),
    }
}

/// Whether `c` does not occur in `s`.
pub open spec fn free_of(s: Seq<char>, c: char) -> bool {
    forall|k: int| 0 <= k < s.len() ==> s[k] != c
}

/// Whether `s` holds no white space.
pub open spec fn no_white_space(s: Seq<char>) -> bool {
    forall|k: int| 0 <= k < s.len() ==> !is_white_space(#[trigger] s[k])
}

/// The canonical name of `t` without its white space.
pub open spec fn compact(t: FieldTypeV) -> Seq<char>
    decreases t,
{
    match t {
        FieldTypeV::Option(b) => "Option<"@ + compact(*b) + ">"@,
        FieldTypeV::Vec(b) => "Vec<"@ + compact(*b) + ">"@,
        FieldTypeV::Tuple(ts) => "("@ + join(canonical_all(ts), ","@) + ")"@,
        _ => canonical(t),
    }
}

/// The canonical name of a primitive or unit type is a short word without
/// white space, commas or angle brackets, and it reads back as the type.
proof fn lemma_simple(t: FieldTypeV)
    requires
        simple_type(t),
    ensures
        0 < canonical(t).len() <= 6,
        no_white_space(canonical(t)),
        free_of(canonical(t), ','),
        free_of(canonical(t), '<'),
        free_of(canonical(t), '>'),
        type_of_text(canonical(t)) == t,
        type_text_readable(canonical(t)),
{
    reveal_strlit("String");
    reveal_strlit("char");
    reveal_strlit("bool");
    reveal_strlit("()");
    reveal_strlit("f32");
    reveal_strlit("f64");
    reveal_strlit("i8");
    reveal_strlit("i16");
    reveal_strlit("i32");
    reveal_strlit("i64");
    reveal_strlit("i128");
    reveal_strlit("isize");
    reveal_strlit("u8");
    reveal_strlit("u16");
    reveal_strlit("u32");
    reveal_strlit("u64");
    reveal_strlit("u128");
    reveal_strlit("usize");
}

/// Removing white space from a text that has none leaves it as it is.
proof fn lemma_ws_none(s: Seq<char>)
    requires
        no_white_space(s),
    ensures
        without_white_space(s) == s,
    decreases s.len(),
{
    reveal(Seq::filter);
    if s.len() > 0 {
        lemma_ws_none(s.drop_last());
        assert(s.drop_last().push(s.last()) =~= s);
    }
}

/// Removing white space distributes over concatenation.
proof fn lemma_ws_concat(a: Seq<char>, b: Seq<char>)
    ensures
        without_white_space(a + b) == without_white_space(a) + without_white_space(b),
{
    Seq::<char>::filter_distributes_over_add(a, b, |c: char| !is_white_space(c));
}

/// The canonical names of `ts` are those of its elements, in order.
proof fn lemma_canonical_all(ts: Seq<FieldTypeV>)
    ensures
        canonical_all(ts).len() == ts.len(),
        forall|i: int| 0 <= i < ts.len() ==> #[trigger] canonical_all(ts)[i] == canonical(ts[i]),
    decreases ts.len(),
{
    if ts.len() > 0 {
        let init = ts.subrange(0, ts.len() - 1);
        lemma_canonical_all(init);
        assert forall|i: int| 0 <= i < ts.len() implies #[trigger] canonical_all(ts)[i] == canonical(ts[i]) by {
            if i < ts.len() - 1 {
                assert(init[i] == ts[i]);
            }
        }
    }
}

/// Joining texts free of `c` with a separator free of `c` gives a text
/// free of `c`.
proof fn lemma_join_free(cs: Seq<Seq<char>>, sep: Seq<char>, c: char)
    requires
        forall|i: int| 0 <= i < cs.len() ==> free_of(#[trigger] cs[i], c),
        free_of(sep, c),
    ensures
        free_of(join(cs, sep), c),
    decreases cs.len(),
{
    if cs.len() > 1 {
        let init = cs.drop_last();
        assert forall|i: int| 0 <= i < init.len() implies free_of(#[trigger] init[i], c) by {
            assert(init[i] == cs[i]);
        }
        lemma_join_free(init, sep, c);
        assert(free_of(cs[cs.len() - 1], c));
        let j = join(init, sep) + sep + cs.last();
        assert forall|k: int| 0 <= k < j.len() implies j[k] != c by {
            if k < join(init, sep).len() {
            } else if k < join(init, sep).len() + sep.len() {
                assert(j[k] == sep[k - join(init, sep).len()]);
            } else {
                assert(j[k] == cs.last()[k - join(init, sep).len() - sep.len()]);
            }
        }
    } else if cs.len() == 1 {
        assert(free_of(cs[0], c));
    }
}

/// Joining texts without white space by `, ` and removing the white space
/// gives them joined by `,`.
proof fn lemma_ws_join(cs: Seq<Seq<char>>)
    requires
        forall|i: int| 0 <= i < cs.len() ==> no_white_space(#[trigger] cs[i]),
    ensures
        without_white_space(join(cs, ", "@)) == join(cs, ","@),
    decreases cs.len(),
{
    reveal_strlit(", ");
    reveal_strlit(",");
    if cs.len() == 0 {
        lemma_ws_none(Seq::empty());
    } else if cs.len() == 1 {
        lemma_ws_none(cs[0]);
    } else {
        let init = cs.drop_last();
        assert forall|i: int| 0 <= i < init.len() implies no_white_space(#[trigger] init[i]) by {
            assert(init[i] == cs[i]);
        }
        lemma_ws_join(init);
        assert(no_white_space(cs[cs.len() - 1]));
        lemma_ws_none(cs.last());
        lemma_ws_none(","@);
        lemma_ws_none(Seq::<char>::empty());
        let a = join(init, ", "@);
        lemma_ws_concat(a, ", "@);
        lemma_ws_concat(a + ", "@, cs.last());
        assert(", "@ =~= ","@ + seq![' ']);
        lemma_ws_concat(","@, seq![' ']);
        reveal(Seq::filter);
        assert(without_white_space(seq![' ']) =~= Seq::<char>::empty()) by {
            assert(seq![' '].drop_last() =~= Seq::<char>::empty());
        }
        assert(","@ + Seq::<char>::empty() =~= ","@);
    }
}

/// Without its white space, the canonical name of a type that reads back
/// is its compact name.
proof fn lemma_compact(t: FieldTypeV)
    requires
        round_trip_type(t),
    ensures
        without_white_space(canonical(t)) == compact(t),
        compact(t).len() > 0,
    decreases t,
{
    reveal_strlit("Option<");
    reveal_strlit("Vec<");
    reveal_strlit(">");
    reveal_strlit("(");
    reveal_strlit(")");
    match t {
        FieldTypeV::Option(b) => {
            lemma_compact(*b);
            lemma_ws_concat("Option<"@, canonical(*b));
            lemma_ws_concat("Option<"@ + canonical(*b), ">"@);
            lemma_ws_none("Option<"@);
            lemma_ws_none(">"@);
        },
        FieldTypeV::Vec(b) => {
            lemma_compact(*b);
            lemma_ws_concat("Vec<"@, canonical(*b));
            lemma_ws_concat("Vec<"@ + canonical(*b), ">"@);
            lemma_ws_none("Vec<"@);
            lemma_ws_none(">"@);
        },
        FieldTypeV::Tuple(ts) => {
            let cs = canonical_all(ts);
            lemma_canonical_all(ts);
            assert forall|i: int| 0 <= i < cs.len() implies no_white_space(#[trigger] cs[i]) by {
                assert(simple_type(ts[i]));
                lemma_simple(ts[i]);
            }
            lemma_ws_join(cs);
            lemma_ws_concat("("@, join(cs, ", "@));
            lemma_ws_concat("("@ + join(cs, ", "@), ")"@);
            lemma_ws_none("("@);
            lemma_ws_none(")"@);
        },
        _ => {
            lemma_simple(t);
            lemma_ws_none(canonical(t));
        },
    }
}

/// Whether `w` holds none of the characters that end or nest a tuple
/// element.
pub open spec fn plain_element(w: Seq<char>) -> bool {
    free_of(w, ',') && free_of(w, '<') && free_of(w, '>')
}

/// Reading a tuple text adds a plain text to the element read so far.
proof fn lemma_tuple_plain(w: Seq<char>, rest: Seq<char>, d: int, cur: Seq<char>)
    requires
        plain_element(w),
    ensures
        tuple_types(w + rest, d, cur) == tuple_types(rest, d, cur + w),
        tuple_readable(w + rest, d, cur) == tuple_readable(rest, d, cur + w),
    decreases w.len(),
{
    if w.len() == 0 {
        assert(w + rest =~= rest);
        assert(cur + w =~= cur);
    } else {
        let s = w + rest;
        assert(s[0] == w[0]);
        assert(s.drop_first() =~= w.drop_first() + rest);
        let w2 = w.drop_first();
        assert(plain_element(w2)) by {
            assert forall|k: int| 0 <= k < w2.len() implies w2[k] == w[k + 1] by {}
        }
        lemma_tuple_plain(w2, rest, d, cur.push(w[0]));
        assert(cur.push(w[0]) + w2 =~= cur + w);
    }
}

/// Reading plain elements joined by commas, then a comma and more text,
/// gives the elements' types, then those of the rest; and the text is
/// readable when the elements and the rest are.
proof fn lemma_tuple_join_then(cs: Seq<Seq<char>>, r: Seq<char>)
    requires
        cs.len() > 0,
        forall|i: int| 0 <= i < cs.len() ==> plain_element(#[trigger] cs[i]) && cs[i].len() > 0,
    ensures
        tuple_types(join(cs, ","@) + ","@ + r, 0, Seq::empty()) == cs.map_values(|w: Seq<char>| type_of_text(w))
            + tuple_types(r, 0, Seq::empty()),
        tuple_readable(join(cs, ","@) + ","@ + r, 0, Seq::empty()) == ((forall|i: int|
            0 <= i < cs.len() ==> type_text_readable(#[trigger] cs[i])) && tuple_readable(r, 0, Seq::empty())),
    decreases cs.len(),
{
    reveal_strlit(",");
    let f = |w: Seq<char>| type_of_text(w);
    let last = cs[cs.len() - 1];
    assert(plain_element(last) && last.len() > 0);
    let tail = ","@ + r;
    lemma_tuple_plain(last, tail, 0, Seq::empty());
    assert(Seq::<char>::empty() + last =~= last);
    assert(tail[0] == ',');
    assert(tail.drop_first() =~= r);
    if cs.len() == 1 {
        assert(join(cs, ","@) == last);
        assert(last + tail =~= join(cs, ","@) + ","@ + r);
        assert(cs.map_values(f) =~= seq![type_of_text(last)]);
        if forall|i: int| 0 <= i < cs.len() ==> type_text_readable(#[trigger] cs[i]) {
        } else {
            assert(type_text_readable(cs[0]) == type_text_readable(last));
        }
    } else {
        let init = cs.drop_last();
        assert forall|i: int| 0 <= i < init.len() implies plain_element(#[trigger] init[i]) && init[i].len() > 0 by {
            assert(init[i] == cs[i]);
        }
        lemma_tuple_join_then(init, last + tail);
        assert(join(init, ","@) + ","@ + (last + tail) =~= join(cs, ","@) + ","@ + r) by {
            assert(join(cs, ","@) == join(init, ","@) + ","@ + last);
        }
        assert(cs.map_values(f) =~= init.map_values(f).push(type_of_text(last)));
        assert((forall|i: int| 0 <= i < cs.len() ==> type_text_readable(#[trigger] cs[i])) == ((forall|i: int|
            0 <= i < init.len() ==> type_text_readable(#[trigger] init[i])) && type_text_readable(last))) by {
            if forall|i: int| 0 <= i < init.len() ==> type_text_readable(#[trigger] init[i]) {
                if type_text_readable(last) {
                    assert forall|i: int| 0 <= i < cs.len() implies type_text_readable(#[trigger] cs[i]) by {
                        if i < init.len() {
                            assert(init[i] == cs[i]);
                        }
                    }
                }
            }
            if forall|i: int| 0 <= i < cs.len() ==> type_text_readable(#[trigger] cs[i]) {
                assert forall|i: int| 0 <= i < init.len() implies type_text_readable(#[trigger] init[i]) by {
                    assert(init[i] == cs[i]);
                }
                assert(type_text_readable(cs[cs.len() - 1]));
            }
        }
    }
}

/// Reading plain elements joined by commas gives the elements' types, and
/// the text is readable when the elements are.
proof fn lemma_tuple_join(cs: Seq<Seq<char>>)
    requires
        cs.len() > 0,
        forall|i: int| 0 <= i < cs.len() ==> plain_element(#[trigger] cs[i]) && cs[i].len() > 0,
        forall|i: int| 0 <= i < cs.len() ==> type_text_readable(#[trigger] cs[i]),
    ensures
        tuple_types(join(cs, ","@), 0, Seq::empty()) == cs.map_values(|w: Seq<char>| type_of_text(w)),
        tuple_readable(join(cs, ","@), 0, Seq::empty()),
{
    let f = |w: Seq<char>| type_of_text(w);
    let last = cs[cs.len() - 1];
    assert(plain_element(last) && last.len() > 0 && type_text_readable(last));
    lemma_tuple_plain(last, Seq::empty(), 0, Seq::empty());
    assert(last + Seq::<char>::empty() =~= last);
    assert(Seq::<char>::empty() + last =~= last);
    if cs.len() == 1 {
        assert(cs.map_values(f) =~= seq![type_of_text(last)]);
    } else {
        let init = cs.drop_last();
        assert forall|i: int| 0 <= i < init.len() implies plain_element(#[trigger] init[i]) && init[i].len() > 0 by {
            assert(init[i] == cs[i]);
        }
        assert forall|i: int| 0 <= i < init.len() implies type_text_readable(#[trigger] init[i]) by {
            assert(init[i] == cs[i]);
        }
        lemma_tuple_join_then(init, last);
        assert(join(cs, ","@) == join(init, ","@) + ","@ + last);
        assert(cs.map_values(f) =~= init.map_values(f) + seq![type_of_text(last)]);
    }
}

/// The compact name of a type that reads back names that type, and reading
/// it stays within its bounds.
proof fn lemma_read_compact(t: FieldTypeV)
    requires
        round_trip_type(t),
    ensures
        type_of_text(compact(t)) == t,
        type_text_readable(compact(t)),
    decreases t,
{
    reveal_strlit("String");
    reveal_strlit("char");
    reveal_strlit("bool");
    reveal_strlit("()");
    reveal_strlit("f32");
    reveal_strlit("f64");
    reveal_strlit("i8");
    reveal_strlit("i16");
    reveal_strlit("i32");
    reveal_strlit("i64");
    reveal_strlit("i128");
    reveal_strlit("isize");
    reveal_strlit("u8");
    reveal_strlit("u16");
    reveal_strlit("u32");
    reveal_strlit("u64");
    reveal_strlit("u128");
    reveal_strlit("usize");
    reveal_strlit("Option<");
    reveal_strlit("Option");
    reveal_strlit("Vec<");
    reveal_strlit("Vec");
    reveal_strlit(">");
    reveal_strlit("(");
    reveal_strlit(")");
    reveal_strlit(",");
    match t {
        FieldTypeV::Option(b) => {
            lemma_read_compact(*b);
            lemma_compact(*b);
            let c = compact(*b);
            let s = compact(t);
            assert(s.len() >= 9);
            lemma_first_index_of(s, '<', 6);
            assert(first_index_of(s, '<') == 6);
            assert(last_index_of(s, '>') == s.len() - 1);
            assert(s.take(6) =~= "Option"@);
            assert(s.subrange(7, s.len() - 1) =~= c);
        },
        FieldTypeV::Vec(b) => {
            lemma_read_compact(*b);
            lemma_compact(*b);
            let c = compact(*b);
            let s = compact(t);
            assert(s.len() >= 6);
            lemma_first_index_of(s, '<', 3);
            assert(first_index_of(s, '<') == 3);
            assert(last_index_of(s, '>') == s.len() - 1);
            assert(s.take(3) =~= "Vec"@);
            assert(s.subrange(4, s.len() - 1) =~= c);
        },
        FieldTypeV::Tuple(ts) => {
            let cs = canonical_all(ts);
            lemma_canonical_all(ts);
            assert forall|i: int| 0 <= i < cs.len() implies plain_element(#[trigger] cs[i]) && cs[i].len() > 0
                && free_of(cs[i], '<') && type_text_readable(cs[i]) by {
                assert(simple_type(ts[i]));
                lemma_simple(ts[i]);
            }
            lemma_join_free(cs, ","@, '<');
            lemma_tuple_join(cs);
            let j = join(cs, ","@);
            let s = compact(t);
            assert(s =~= "("@ + j + ")"@);
            assert(j.len() > 0) by {
                assert(cs[0].len() > 0);
                if cs.len() > 1 {
                    assert(join(cs, ","@) == join(cs.drop_last(), ","@) + ","@ + cs.last());
                }
            }
            assert forall|k: int| 0 <= k < s.len() implies #[trigger] s[k] != '<' by {
                if 0 < k < s.len() - 1 {
                    assert(s[k] == j[k - 1]);
                }
            }
            lemma_first_index_of(s, '<', s.len() as int);
            assert(s.subrange(1, s.len() - 1) =~= j);
            let f = |w: Seq<char>| type_of_text(w);
            assert forall|i: int| 0 <= i < ts.len() implies cs.map_values(f)[i] == ts[i] by {
                lemma_simple(ts[i]);
            }
            assert(cs.map_values(f) =~= ts);
            assert(s != "()"@);
        },
        _ => {
            lemma_simple(t);
        },
    }
}

/// The canonical name of a type built from primitive and unit types by
/// `Option`, `Vec` and non-empty tuples of primitive or unit types reads
/// back, white space ignored, as that type.
pub proof fn lemma_canonical_name_reads_back(t: FieldTypeV)
    requires
        round_trip_type(t),
    ensures
        type_text_readable(without_white_space(canonical(t))),
        type_of_text(without_white_space(canonical(t))) == t,
{
    lemma_compact(t);
    lemma_read_compact(t);
}

} // verus!