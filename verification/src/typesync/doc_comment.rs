//! Doc comment formatting shared by the generators.

use vstd::prelude::*;
use crate::text::{chars_of, first_index_of, lemma_first_index_bound, lemma_first_index_of, lines, lines_of, push_chars, strip_cr, string_of};

verus! {

/// `s` with each `*/`, taken from the left, written `* /`.
pub open spec fn escape_close(s: Seq<char>) -> Seq<char>
    decreases s.len(),
{
    if s.len() < 2 {
        s
    } else if s[0] == '*' && s[1] == '/' {
        seq!['*', ' ', '/'] + escape_close(s.skip(2))
    } else {
        seq![s[0]] + escape_close(s.drop_first())
    }
}

/// Whether `*/` starts at `i` in `s`.
pub open spec fn close_at(s: Seq<char>, i: int) -> bool {
    s[i] == '*' && s[i + 1] == '/'
}

/// Whether `*/` occurs in `s`.
pub open spec fn has_close(s: Seq<char>) -> bool {
    exists|i: int| 0 <= i < s.len() - 1 && #[trigger] close_at(s, i)
}

/// The texts of `parts`, one after another.
pub open spec fn concat(parts: Seq<Seq<char>>) -> Seq<char>
    decreases parts.len(),
{
    if parts.len() == 0 {
        Seq::empty()
    } else {
        concat(parts.drop_last()) + parts.last()
    }
}

/// One line of a comment: `prefix` alone for an empty line, else `prefix`,
/// a space and the line; then a line break.
pub open spec fn comment_line(indent: Seq<char>, prefix: Seq<char>, line: Seq<char>) -> Seq<char> {
    if line.len() == 0 {
        indent + prefix + seq!['\n']
    } else {
        indent + prefix + seq![' '] + line + seq!['\n']
    }
}

/// The lines `ls` as comment lines.
pub open spec fn comment_text(ls: Seq<Seq<char>>, indent: Seq<char>, prefix: Seq<char>) -> Seq<char> {
    concat(ls.map_values(|l: Seq<char>| comment_line(indent, prefix, l)))
}

/// The lines of `desc` as comment lines.
pub open spec fn comment_lines(desc: Seq<char>, indent: Seq<char>, prefix: Seq<char>) -> Seq<char> {
    comment_text(lines(desc), indent, prefix)
}

/// A JSDoc block for `desc`: `/** line */` for a single line, else one
/// ` * line` per line between `/**` and ` */`; every `*/` of `desc` is
/// written `* /`.
pub open spec fn jsdoc(desc: Seq<char>, indent: Seq<char>) -> Seq<char> {
    let ls = lines(escape_close(desc));
    if ls.len() == 1 {
        indent + "/** "@ + ls[0] + " */"@
    } else {
        indent + "/**\n"@ + comment_lines(escape_close(desc), indent, " *"@) + indent + " */"@
    }
}

fn escape_close_chars(v: &Vec<char>) -> (r: Vec<char>)
    ensures
        r@ == escape_close(v@),
{
    let n = v.len();
    let mut out: Vec<char> = Vec::new();
    let mut i: usize = 0;
    assert(v@.skip(0) =~= v@);
    assert(out@ + escape_close(v@) =~= escape_close(v@));
    while i < n
        invariant
            i <= n,
            n == v@.len(),
            out@ + escape_close(v@.skip(i as int)) == escape_close(v@),
        decreases n - i,
    {
        let ghost rest = v@.skip(i as int);
        if i + 1 < n && v[i] == '*' && v[i + 1] == '/' {
            assert(rest[0] == '*' && rest[1] == '/');
            assert(rest.skip(2) == v@.skip(i + 2));
            out.push('*');
            out.push(' ');
            out.push('/');
            assert(out@ + escape_close(v@.skip(i + 2)) == escape_close(v@));
            i = i + 2;
        } else {
            proof {
                assert(rest.drop_first() == v@.skip(i + 1));
                assert(rest.len() >= 2 ==> !(rest[0] == '*' && rest[1] == '/'));
                if rest.len() < 2 {
                    assert(rest =~= seq![rest[0]]);
                    assert(v@.skip(i + 1) =~= Seq::<char>::empty());
                }
            }
            out.push(v[i]);
            assert(out@ + escape_close(v@.skip(i + 1)) == escape_close(v@));
            i = i + 1;
        }
    }
    assert(v@.skip(n as int) =~= Seq::<char>::empty());
    out
}

/// Appends the comment lines of `ls` to `out`.
fn push_comment_lines(out: &mut String, ls: &Vec<Vec<char>>, indent: &str, prefix: &str)
    ensures
        final(out)@ == old(out)@ + comment_text(ls@.map_values(|l: Vec<char>| l@), indent@, prefix@),
{
    let ghost start = out@;
    let ghost views = ls@.map_values(|l: Vec<char>| l@);
    let mut k: usize = 0;
    while k < ls.len()
        invariant
            k <= ls@.len(),
            views == ls@.map_values(|l: Vec<char>| l@),
            out@ == start + comment_text(views.take(k as int), indent@, prefix@),
        decreases ls.len() - k,
    {
        let ghost before = out@;
        out.append(indent);
        out.append(prefix);
        if ls[k].len() > 0 {
            out.append(" ");
            push_chars(out, ls[k].as_slice());
        }
        out.append("\n");
        proof {
            let m = views.take(k + 1).map_values(|l: Seq<char>| comment_line(indent@, prefix@, l));
            assert(m.drop_last() =~= views.take(k as int).map_values(
                |l: Seq<char>| comment_line(indent@, prefix@, l),
            ));
            assert(m.last() == comment_line(indent@, prefix@, ls@[k as int]@));
            reveal_strlit(" ");
            reveal_strlit("\n");
            assert(out@ == before + comment_line(indent@, prefix@, ls@[k as int]@));
        }
        k = k + 1;
    }
    assert(views.take(ls@.len() as int) == views);
    assert(views == ls@.map_values(|l: Vec<char>| l@));
}

/// Formats a description as a JSDoc comment block (`/** ... */`).
///
/// A multi-line description gives a multi-line block; every `*/` is
/// written `* /` so that the block cannot close early.
pub fn format_jsdoc(desc: &str, indent: &str) -> (r: String)
    ensures
        r@ == jsdoc(desc@, indent@),
{
    let escaped = escape_close_chars(&chars_of(desc));
    let ls = lines_of(escaped.as_slice());
    let ghost views = ls@.map_values(|l: Vec<char>| l@);
    assert(views =~= lines(escaped@));
    let mut out = String::new();
    out.append(indent);
    if ls.len() == 1 {
        out.append("/** ");
        push_chars(&mut out, ls[0].as_slice());
        out.append(" */");
    } else {
        out.append("/**\n");
        push_comment_lines(&mut out, &ls, indent, " *");
        out.append(indent);
        out.append(" */");
    }
    out
}

/// Formats a description as triple-slash comments (`/// ...`), as
/// FlatBuffers writes them.
pub fn format_triple_slash(desc: &str, indent: &str) -> (r: String)
    ensures
        r@ == comment_lines(desc@, indent@, "///"@),
{
    let ls = lines_of(chars_of(desc).as_slice());
    let ghost views = ls@.map_values(|l: Vec<char>| l@);
    assert(views =~= lines(desc@));
    let mut out = String::new();
    push_comment_lines(&mut out, &ls, indent, "///");
    out
}

/// Formats a description as double-slash comments (`// ...`), as Protobuf
/// writes them.
pub fn format_double_slash(desc: &str, indent: &str) -> (r: String)
    ensures
        r@ == comment_lines(desc@, indent@, "//"@),
{
    let ls = lines_of(chars_of(desc).as_slice());
    let ghost views = ls@.map_values(|l: Vec<char>| l@);
    assert(views =~= lines(desc@));
    let mut out = String::new();
    push_comment_lines(&mut out, &ls, indent, "//");
    out
}

/// Escaping leaves no `*/` in a description.
pub proof fn lemma_escape_close_has_no_close(s: Seq<char>)
    ensures
        !has_close(escape_close(s)),
        escape_close(s).len() > 0 ==> escape_close(s)[0] == s[0],
    decreases s.len(),
{
    if s.len() >= 2 {
        if s[0] == '*' && s[1] == '/' {
            let t = escape_close(s.skip(2));
            lemma_escape_close_has_no_close(s.skip(2));
            let r = seq!['*', ' ', '/'] + t;
            assert forall|i: int| 0 <= i < r.len() - 1 implies !#[trigger] close_at(r, i) by {
                if i >= 3 {
                    assert(r[i] == t[i - 3] && r[i + 1] == t[i - 2]);
                    assert(!close_at(t, i - 3));
                }
            }
        } else {
            let t = escape_close(s.drop_first());
            lemma_escape_close_has_no_close(s.drop_first());
            let r = seq![s[0]] + t;
            assert forall|i: int| 0 <= i < r.len() - 1 implies !#[trigger] close_at(r, i) by {
                if i >= 1 {
                    assert(r[i] == t[i - 1] && r[i + 1] == t[i]);
                    assert(!close_at(t, i - 1));
                } else {
                    assert(r[1] == t[0]);
                    assert(t[0] == s.drop_first()[0]);
                }
            }
        }
    } else if s.len() == 1 {
        assert(escape_close(s) == s);
    }
}

/// A `*/` in `a + b` lies in `a`, in `b`, or across the join.
proof fn lemma_close_in_concat(a: Seq<char>, b: Seq<char>)
    ensures
        has_close(a + b) ==> has_close(a) || has_close(b) || (a.len() > 0 && b.len() > 0 && a.last() == '*'
            && b[0] == '/'),
{
    if has_close(a + b) {
        let r = a + b;
        let i = choose|i: int| 0 <= i < r.len() - 1 && #[trigger] close_at(r, i);
        if i + 1 < a.len() {
            assert(close_at(a, i));
        } else if i >= a.len() {
            assert(close_at(b, i - a.len()));
        }
    }
}

/// A piece of a text without `*/` has none.
proof fn lemma_no_close_sub(s: Seq<char>, j: int, k: int)
    requires
        !has_close(s),
        0 <= j <= k <= s.len(),
    ensures
        !has_close(s.subrange(j, k)),
{
    let t = s.subrange(j, k);
    if has_close(t) {
        let i = choose|i: int| 0 <= i < t.len() - 1 && #[trigger] close_at(t, i);
        assert(close_at(s, i + j));
    }
}

/// The lines of a text without `*/` have none.
proof fn lemma_lines_no_close(s: Seq<char>)
    requires
        !has_close(s),
    ensures
        forall|k: int| 0 <= k < lines(s).len() ==> !has_close(#[trigger] lines(s)[k]),
    decreases s.len(),
{
    if s.len() > 0 {
        let i = first_index_of(s, '\n');
        lemma_first_index_bound(s, '\n');
        if i < 0 {
            lemma_no_close_sub(s, 0, s.len() as int);
            lemma_no_close_sub(s, 0, s.len() - 1);
            assert(s.subrange(0, s.len() as int) =~= s);
            assert(s.drop_last() =~= s.subrange(0, s.len() - 1));
        } else {
            let head = s.take(i);
            lemma_no_close_sub(s, 0, i);
            assert(head =~= s.subrange(0, i));
            if head.len() > 0 {
                lemma_no_close_sub(s, 0, i - 1);
                assert(head.drop_last() =~= s.subrange(0, i - 1));
            }
            lemma_no_close_sub(s, i + 1, s.len() as int);
            assert(s.skip(i + 1) =~= s.subrange(i + 1, s.len() as int));
            lemma_lines_no_close(s.skip(i + 1));
            let ls = lines(s);
            assert forall|k: int| 0 <= k < ls.len() implies !has_close(#[trigger] ls[k]) by {
                if k > 0 {
                    assert(ls[k] == lines(s.skip(i + 1))[k - 1]);
                }
            }
        }
    }
}

/// Whether every character of `s` is a space or a tab.
pub open spec fn blank(s: Seq<char>) -> bool {
    forall|i: int| 0 <= i < s.len() ==> s[i] == ' ' || s[i] == '\t'
}

/// A blank text holds no `*/` and does not end with `*`.
proof fn lemma_blank(s: Seq<char>)
    requires
        blank(s),
    ensures
        !has_close(s),
        s.len() > 0 ==> s.last() != '*',
{
    if has_close(s) {
        let i = choose|i: int| 0 <= i < s.len() - 1 && #[trigger] close_at(s, i);
        assert(s[i] == ' ' || s[i] == '\t');
    }
}

/// The comment lines of lines without `*/`, after a blank indent, hold no
/// `*/`, and end with a line break when there are any.
proof fn lemma_comment_text_no_close(ls: Seq<Seq<char>>, indent: Seq<char>)
    requires
        blank(indent),
        forall|k: int| 0 <= k < ls.len() ==> !has_close(#[trigger] ls[k]),
    ensures
        !has_close(comment_text(ls, indent, " *"@)),
        ls.len() > 0 ==> comment_text(ls, indent, " *"@).len() > 0 && comment_text(ls, indent, " *"@).last() == '\n',
    decreases ls.len(),
{
    reveal_strlit(" *");
    lemma_blank(indent);
    if ls.len() > 0 {
        let init = ls.drop_last();
        assert forall|k: int| 0 <= k < init.len() implies !has_close(#[trigger] init[k]) by {
            assert(init[k] == ls[k]);
        }
        lemma_comment_text_no_close(init, indent);
        let f = |l: Seq<char>| comment_line(indent, " *"@, l);
        assert(ls.map_values(f).drop_last() =~= init.map_values(f));
        let l = ls.last();
        assert(!has_close(l)) by {
            assert(ls[ls.len() - 1] == l);
        }
        let star = indent + " *"@;
        lemma_close_in_concat(indent, " *"@);
        let line = comment_line(indent, " *"@, l);
        if l.len() == 0 {
            lemma_close_in_concat(star, seq!['\n']);
        } else {
            lemma_close_in_concat(star, seq![' ']);
            lemma_close_in_concat(star + seq![' '], l);
            lemma_close_in_concat(star + seq![' '] + l, seq!['\n']);
        }
        assert(!has_close(line));
        let before = comment_text(init, indent, " *"@);
        lemma_close_in_concat(before, line);
        assert(comment_text(ls, indent, " *"@) == before + line);
    }
}

/// A JSDoc block starts with the indent and `/**`, ends with `*/`, and holds
/// no other `*/`, for any description, when the indent is made of spaces
/// and tabs.
pub proof fn lemma_jsdoc_shape(desc: Seq<char>, indent: Seq<char>)
    requires
        blank(indent),
    ensures
        jsdoc(desc, indent).len() >= indent.len() + 5,
        jsdoc(desc, indent).take(indent.len() + 3int) == indent + "/**"@,
        jsdoc(desc, indent).skip(jsdoc(desc, indent).len() - 2) == "*/"@,
        !has_close(jsdoc(desc, indent).take(jsdoc(desc, indent).len() - 2)),
{
    reveal_strlit("/**");
    reveal_strlit("/** ");
    reveal_strlit("/**\n");
    reveal_strlit(" */");
    reveal_strlit("*/");
    reveal_strlit(" *");
    let e = escape_close(desc);
    lemma_escape_close_has_no_close(desc);
    lemma_lines_no_close(e);
    lemma_blank(indent);
    let ls = lines(e);
    let r = jsdoc(desc, indent);
    if ls.len() == 1 {
        assert(!has_close(ls[0]));
        let body = indent + "/** "@ + ls[0] + seq![' '];
        assert(r =~= body + "*/"@);
        assert(r.take(indent.len() + 3int) =~= indent + "/**"@);
        assert(r.skip(r.len() - 2) =~= "*/"@);
        assert(r.take(r.len() - 2) =~= body);
        lemma_close_in_concat(indent, "/** "@);
        lemma_close_in_concat(indent + "/** "@, ls[0]);
        lemma_close_in_concat(indent + "/** "@ + ls[0], seq![' ']);
    } else {
        let middle = comment_text(ls, indent, " *"@);
        lemma_comment_text_no_close(ls, indent);
        let body = indent + "/**\n"@ + middle + indent + seq![' '];
        assert(r =~= body + "*/"@);
        assert(r.take(indent.len() + 3int) =~= indent + "/**"@);
        assert(r.skip(r.len() - 2) =~= "*/"@);
        assert(r.take(r.len() - 2) =~= body);
        lemma_close_in_concat(indent, "/**\n"@);
        lemma_close_in_concat(indent + "/**\n"@, middle);
        lemma_close_in_concat(indent + "/**\n"@ + middle, indent);
        lemma_close_in_concat(indent + "/**\n"@ + middle + indent, seq![' ']);
        if middle.len() == 0 {
            assert(indent + "/**\n"@ + middle =~= indent + "/**\n"@);
        }
    }
}

/// The number of line breaks in `s`.
pub open spec fn breaks(s: Seq<char>) -> nat
    decreases s.len(),
{
    if s.len() == 0 {
        0
    } else {
        breaks(s.drop_last()) + if s.last() == '\n' { 1nat } else { 0nat }
    }
}

proof fn lemma_breaks_concat(a: Seq<char>, b: Seq<char>)
    ensures
        breaks(a + b) == breaks(a) + breaks(b),
    decreases b.len(),
{
    if b.len() == 0 {
        assert(a + b =~= a);
    } else {
        lemma_breaks_concat(a, b.drop_last());
        assert((a + b).drop_last() =~= a + b.drop_last());
    }
}

proof fn lemma_breaks_none(s: Seq<char>)
    requires
        forall|k: int| 0 <= k < s.len() ==> s[k] != '\n',
    ensures
        breaks(s) == 0,
    decreases s.len(),
{
    if s.len() > 0 {
        lemma_breaks_none(s.drop_last());
    }
}

/// How many lines `lines` gives: one per line break, and one more for text
/// after the last one.
proof fn lemma_lines_count(s: Seq<char>)
    ensures
        lines(s).len() == if s.len() == 0 {
            0
        } else {
            breaks(s) + if s.last() == '\n' { 0nat } else { 1nat }
        },
    decreases s.len(),
{
    if s.len() > 0 {
        let i = first_index_of(s, '\n');
        lemma_first_index_bound(s, '\n');
        lemma_first_before(s);
        if i < 0 {
            lemma_breaks_none(s);
        } else {
            let rest = s.skip(i + 1);
            lemma_lines_count(rest);
            assert(s =~= s.take(i) + seq!['\n'] + rest);
            lemma_breaks_none(s.take(i));
            lemma_breaks_concat(s.take(i) + seq!['\n'], rest);
            lemma_breaks_concat(s.take(i), seq!['\n']);
            assert(breaks(seq!['\n']) == 1) by {
                assert(seq!['\n'].drop_last() =~= Seq::<char>::empty());
                assert(breaks(Seq::<char>::empty()) == 0);
                assert(seq!['\n'].last() == '\n');
            }
            if rest.len() > 0 {
                assert(rest.last() == s.last());
            }
        }
    }
}

/// No line break comes before the first one.
proof fn lemma_first_before(s: Seq<char>)
    ensures
        forall|k: int| 0 <= k < s.len() && (first_index_of(s, '\n') < 0 || k < first_index_of(s, '\n')) ==> s[k]
            != '\n',
    decreases s.len(),
{
    if s.len() > 0 && s[0] != '\n' {
        lemma_first_before(s.drop_first());
        assert forall|k: int| 0 <= k < s.len() && (first_index_of(s, '\n') < 0 || k < first_index_of(s, '\n'))
            implies s[k] != '\n' by {
            if k > 0 {
                assert(s[k] == s.drop_first()[k - 1]);
            }
        }
    }
}

/// Escaping keeps the line breaks, the emptiness and the last character.
proof fn lemma_escape_lines(s: Seq<char>)
    ensures
        breaks(escape_close(s)) == breaks(s),
        (escape_close(s).len() == 0) == (s.len() == 0),
        s.len() > 0 ==> escape_close(s).last() == s.last(),
    decreases s.len(),
{
    if s.len() >= 2 {
        if s[0] == '*' && s[1] == '/' {
            let t = s.skip(2);
            lemma_escape_lines(t);
            lemma_breaks_concat(seq!['*', ' ', '/'], escape_close(t));
            assert(s =~= seq!['*', '/'] + t);
            lemma_breaks_concat(seq!['*', '/'], t);
            lemma_breaks_none(seq!['*', ' ', '/']);
            lemma_breaks_none(seq!['*', '/']);
        } else {
            let t = s.drop_first();
            lemma_escape_lines(t);
            lemma_breaks_concat(seq![s[0]], escape_close(t));
            assert(s =~= seq![s[0]] + t);
            lemma_breaks_concat(seq![s[0]], t);
        }
    }
}

/// Escaping keeps the number of lines.
proof fn lemma_escape_line_count(s: Seq<char>)
    ensures
        lines(escape_close(s)).len() == lines(s).len(),
{
    lemma_escape_lines(s);
    lemma_lines_count(s);
    lemma_lines_count(escape_close(s));
}

/// A line of text without a line break, then a line break, reads as that
/// line followed by the lines of what comes after.
proof fn lemma_lines_after_line(p: Seq<char>, y: Seq<char>)
    requires
        forall|k: int| 0 <= k < p.len() ==> p[k] != '\n',
    ensures
        lines(p + seq!['\n'] + y).len() == 1 + lines(y).len(),
{
    let s = p + seq!['\n'] + y;
    assert forall|k: int| 0 <= k < p.len() implies #[trigger] s[k] != '\n' by {
        assert(s[k] == p[k]);
    }
    lemma_first_index_of(s, '\n', p.len() as int);
    assert(s.skip(p.len() + 1int) =~= y);
}

/// The lines that `lines` gives hold no line break.
proof fn lemma_lines_no_break(s: Seq<char>)
    ensures
        forall|j: int, k: int| 0 <= j < lines(s).len() && 0 <= k < lines(s)[j].len() ==> lines(s)[j][k] != '\n',
    decreases s.len(),
{
    if s.len() > 0 {
        let i = first_index_of(s, '\n');
        lemma_first_index_bound(s, '\n');
        lemma_first_before(s);
        if i >= 0 {
            lemma_lines_no_break(s.skip(i + 1));
            let ls = lines(s);
            assert forall|j: int, k: int| 0 <= j < ls.len() && 0 <= k < ls[j].len() implies ls[j][k] != '\n' by {
                if j > 0 {
                    assert(ls[j] == lines(s.skip(i + 1))[j - 1]);
                } else {
                    assert(ls[0] == strip_cr(s.take(i)));
                    assert(ls[0][k] == s[k]);
                }
            }
        } else {
            let ls = lines(s);
            assert forall|j: int, k: int| 0 <= j < ls.len() && 0 <= k < ls[j].len() implies ls[j][k] != '\n' by {
                assert(ls[0][k] == s[k]);
            }
        }
    }
}

/// Comment lines of lines without breaks, then a last line without a break,
/// read as one line each.
proof fn lemma_comment_lines_count(ls: Seq<Seq<char>>, indent: Seq<char>, tail: Seq<char>)
    requires
        blank(indent),
        forall|j: int, k: int| 0 <= j < ls.len() && 0 <= k < ls[j].len() ==> ls[j][k] != '\n',
        tail.len() > 0,
        forall|k: int| 0 <= k < tail.len() ==> tail[k] != '\n',
    ensures
        lines(comment_text(ls, indent, " *"@) + tail).len() == ls.len() + 1,
    decreases ls.len(),
{
    reveal_strlit(" *");
    let f = |l: Seq<char>| comment_line(indent, " *"@, l);
    if ls.len() == 0 {
        assert(comment_text(ls, indent, " *"@) + tail =~= tail);
        assert(first_index_of(tail, '\n') == -1) by {
            lemma_first_index_of(tail, '\n', tail.len() as int);
        }
    } else {
        let l = ls[0];
        let rest = ls.drop_first();
        assert forall|j: int, k: int| 0 <= j < rest.len() && 0 <= k < rest[j].len() implies rest[j][k] != '\n' by {
            assert(rest[j] == ls[j + 1]);
        }
        lemma_comment_lines_count(rest, indent, tail);
        let p = if l.len() == 0 { indent + " *"@ } else { indent + " *"@ + seq![' '] + l };
        assert(comment_line(indent, " *"@, l) == p + seq!['\n']);
        assert forall|k: int| 0 <= k < p.len() implies p[k] != '\n' by {
            if k < indent.len() {
                assert(p[k] == indent[k]);
            } else if k >= indent.len() + 3 {
                assert(p[k] == l[k - indent.len() - 3]);
                assert(ls[0][k - indent.len() - 3] != '\n');
            }
        }
        lemma_concat_front(ls.map_values(f));
        assert(ls.map_values(f).drop_first() =~= rest.map_values(f));
        assert(comment_text(ls, indent, " *"@) + tail =~= p + seq!['\n'] + (comment_text(rest, indent, " *"@) + tail));
        lemma_lines_after_line(p, comment_text(rest, indent, " *"@) + tail);
    }
}

/// The texts of `parts` are the first one, then those of the rest.
proof fn lemma_concat_front(parts: Seq<Seq<char>>)
    requires
        parts.len() > 0,
    ensures
        concat(parts) == parts[0] + concat(parts.drop_first()),
    decreases parts.len(),
{
    if parts.len() == 1 {
        assert(parts.drop_last() =~= Seq::<Seq<char>>::empty());
        assert(parts.drop_first() =~= Seq::<Seq<char>>::empty());
        assert(parts[0] + Seq::<char>::empty() =~= parts[0]);
    } else {
        lemma_concat_front(parts.drop_last());
        assert(parts.drop_last().drop_first() =~= parts.drop_first().drop_last());
        assert(parts.drop_first().last() == parts.last());
    }
}

/// A JSDoc block of a description of other than one line has as many lines
/// as the description, plus the opening and the closing line.
pub proof fn lemma_jsdoc_line_count(desc: Seq<char>, indent: Seq<char>)
    requires
        blank(indent),
        lines(desc).len() != 1,
    ensures
        lines(jsdoc(desc, indent)).len() == lines(desc).len() + 2,
{
    reveal_strlit("/**\n");
    reveal_strlit(" */");
    let e = escape_close(desc);
    lemma_escape_line_count(desc);
    let ls = lines(e);
    lemma_lines_no_break(e);
    let tail = indent + " */"@;
    assert forall|k: int| 0 <= k < tail.len() implies tail[k] != '\n' by {
        if k < indent.len() {
            assert(tail[k] == indent[k]);
        }
    }
    lemma_comment_lines_count(ls, indent, tail);
    let head = indent + "/**"@;
    reveal_strlit("/**");
    assert forall|k: int| 0 <= k < head.len() implies head[k] != '\n' by {
        if k < indent.len() {
            assert(head[k] == indent[k]);
        }
    }
    let middle = comment_text(ls, indent, " *"@);
    assert(jsdoc(desc, indent) =~= head + seq!['\n'] + (middle + tail));
    lemma_lines_after_line(head, middle + tail);
}

} // verus!
