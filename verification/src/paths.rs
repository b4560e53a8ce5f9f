//! Paths held as text, joined and normalised the way `std::path` does it on
//! Unix.

use vstd::prelude::*;
use crate::text::{chars_of, join, string_of};

verus! {

/// `base` joined with `p` as `Path::join` does it: an absolute `p` replaces
/// `base`; otherwise a `/` goes between them unless `base` is empty or
/// already ends with one.
pub open spec fn joined(base: Seq<char>, p: Seq<char>) -> Seq<char> {
    if p.len() > 0 && p[0] == '/' {
        p
    } else if base.len() > 0 && base.last() != '/' {
        base + "/"@ + p
    } else {
        base + p
    }
}

/// `parts` with the piece `cur` added, unless it is empty or `.`.
pub open spec fn with_piece(parts: Seq<Seq<char>>, cur: Seq<char>) -> Seq<Seq<char>> {
    if cur.len() == 0 || cur == "."@ {
        parts
    } else {
        parts.push(cur)
    }
}

/// Reading `s` from the left: the pieces between `/` finished so far
/// (without empty and `.` pieces), and the piece being read.
pub open spec fn pieces_so_far(s: Seq<char>) -> (Seq<Seq<char>>, Seq<char>)
    decreases s.len(),
{
    if s.len() == 0 {
        (Seq::empty(), Seq::empty())
    } else {
        let (parts, cur) = pieces_so_far(s.drop_last());
        if s.last() == '/' {
            (with_piece(parts, cur), Seq::empty())
        } else {
            (parts, cur.push(s.last()))
        }
    }
}

/// The pieces of `s` between `/`, without empty and `.` pieces.
pub open spec fn pieces(s: Seq<char>) -> Seq<Seq<char>> {
    with_piece(pieces_so_far(s).0, pieces_so_far(s).1)
}

/// Whether `s` starts with a `.` piece: `.` alone or `./`.
pub open spec fn starts_at_current(s: Seq<char>) -> bool {
    s == "."@ || (s.len() >= 2 && s[0] == '.' && s[1] == '/')
}

/// `s` rebuilt from its components, as collecting `Path::components` into
/// a `PathBuf` does it: a leading `/` kept, a leading `.` piece kept, every
/// other empty or `.` piece dropped, the rest joined by `/`.
pub open spec fn normalized(s: Seq<char>) -> Seq<char> {
    if s.len() > 0 && s[0] == '/' {
        "/"@ + join(pieces(s), "/"@)
    } else if starts_at_current(s) {
        if pieces(s).len() == 0 {
            "."@
        } else {
            "./"@ + join(pieces(s), "/"@)
        }
    } else {
        join(pieces(s), "/"@)
    }
}

/// The components of the path `s`, as `Path::components` yields them,
/// each as its text: a leading `/`, or a leading `.` piece, then the pieces
/// of `s` without empty and `.` pieces.
pub open spec fn components(s: Seq<char>) -> Seq<Seq<char>> {
    if s.len() > 0 && s[0] == '/' {
        seq!["/"@] + pieces(s)
    } else if starts_at_current(s) {
        seq!["."@] + pieces(s)
    } else {
        pieces(s)
    }
}

/// Whether the components `rc` of a base begin the components `pc` of a
/// path (as `Path::strip_prefix` asks it).
pub open spec fn begins_with(pc: Seq<Seq<char>>, rc: Seq<Seq<char>>) -> bool {
    rc.len() <= pc.len() && pc.take(rc.len() as int) == rc
}

/// Joins `p` onto `base`.
pub fn join_path(base: &str, p: &str) -> (r: String)
    ensures
        r@ == joined(base@, p@),
{
    let b = chars_of(base);
    let q = chars_of(p);
    let mut out: Vec<char> = Vec::new();
    if q.len() > 0 && q[0] == '/' {
        return string_of(&q);
    }
    let mut i: usize = 0;
    while i < b.len()
        invariant
            i <= b@.len(),
            out@ == b@.take(i as int),
        decreases b.len() - i,
    {
        out.push(b[i]);
        i = i + 1;
    }
    if b.len() > 0 && b[b.len() - 1] != '/' {
        out.push('/');
    }
    let ghost head = out@;
    let mut j: usize = 0;
    while j < q.len()
        invariant
            j <= q@.len(),
            out@ == head + q@.take(j as int),
        decreases q.len() - j,
    {
        out.push(q[j]);
        j = j + 1;
    }
    proof {
        reveal_strlit("/");
        assert(b@.take(b@.len() as int) == b@);
        assert(q@.take(q@.len() as int) == q@);
        if b@.len() > 0 && b@.last() != '/' {
            assert(head == b@ + "/"@);
        } else {
            assert(head == b@);
        }
    }
    string_of(&out)
}

fn piece_is_current(cur: &Vec<char>) -> (r: bool)
    ensures
        r == (cur@ == "."@),
{
    proof {
        reveal_strlit(".");
    }
    let r = cur.len() == 1 && cur[0] == '.';
    proof {
        if r {
            assert(cur@ =~= "."@);
        }
    }
    r
}

fn add_piece(parts: &mut Vec<Vec<char>>, cur: Vec<char>)
    ensures
        final(parts)@.map_values(|p: Vec<char>| p@) == with_piece(
            old(parts)@.map_values(|p: Vec<char>| p@),
            cur@,
        ),
{
    let keep = cur.len() > 0 && !piece_is_current(&cur);
    if keep {
        let ghost before = parts@;
        parts.push(cur);
        proof {
            assert(parts@.map_values(|p: Vec<char>| p@) =~= before.map_values(|p: Vec<char>| p@).push(
                parts@.last()@,
            ));
        }
    }
}

/// Appends the items of `items`, with `sep` between each two, to `out`.
fn push_joined(out: &mut Vec<char>, items: &Vec<Vec<char>>, sep: char)
    ensures
        final(out)@ == old(out)@ + join(items@.map_values(|p: Vec<char>| p@), seq![sep]),
{
    let ghost start = out@;
    let ghost views = items@.map_values(|p: Vec<char>| p@);
    let mut i: usize = 0;
    while i < items.len()
        invariant
            i <= items@.len(),
            views == items@.map_values(|p: Vec<char>| p@),
            out@ == start + join(views.take(i as int), seq![sep]),
        decreases items.len() - i,
    {
        let ghost before = out@;
        if i > 0 {
            out.push(sep);
        }
        let piece = &items[i];
        let mut k: usize = 0;
        let ghost mid = out@;
        while k < piece.len()
            invariant
                k <= piece@.len(),
                out@ == mid + piece@.take(k as int),
            decreases piece.len() - k,
        {
            out.push(piece[k]);
            k = k + 1;
        }
        proof {
            assert(piece@.take(piece@.len() as int) == piece@);
            assert(views.take(i + 1).drop_last() == views.take(i as int));
            assert(views.take(i + 1).last() == piece@);
            if i == 0 {
                assert(views.take(1) == seq![piece@]);
                assert(join(views.take(1), seq![sep]) == piece@);
            }
        }
        i = i + 1;
    }
    proof {
        assert(views.take(items@.len() as int) == views);
    }
}

/// The pieces of the path `v` between `/`, as [`pieces`] says.
fn pieces_of(v: &Vec<char>) -> (r: Vec<Vec<char>>)
    ensures
        r@.map_values(|p: Vec<char>| p@) == pieces(v@),
{
    let mut parts: Vec<Vec<char>> = Vec::new();
    let mut cur: Vec<char> = Vec::new();
    let mut i: usize = 0;
    while i < v.len()
        invariant
            i <= v@.len(),
            (parts@.map_values(|p: Vec<char>| p@), cur@) == pieces_so_far(v@.take(i as int)),
        decreases v.len() - i,
    {
        proof {
            assert(v@.take(i + 1).drop_last() == v@.take(i as int));
            assert(v@.take(i + 1).last() == v@[i as int]);
        }
        if v[i] == '/' {
            let piece = cur;
            cur = Vec::new();
            add_piece(&mut parts, piece);
        } else {
            cur.push(v[i]);
        }
        i = i + 1;
    }
    add_piece(&mut parts, cur);
    assert(v@.take(v@.len() as int) == v@);
    parts
}

/// Whether the chars `v` start a path at its root or at a `.` piece.
fn starts_of(v: &Vec<char>) -> (r: (bool, bool))
    ensures
        r.0 == (v@.len() > 0 && v@[0] == '/'),
        r.1 == (!r.0 && starts_at_current(v@)),
{
    proof {
        reveal_strlit(".");
    }
    let rooted = v.len() > 0 && v[0] == '/';
    let current = !rooted && ((v.len() == 1 && v[0] == '.') || (v.len() >= 2 && v[0] == '.' && v[1] == '/'));
    proof {
        if v@.len() == 1 && v@[0] == '.' {
            assert(v@ =~= "."@);
        }
        if v@ == "."@ {
            assert(v@.len() == 1 && v@[0] == '.');
        }
    }
    (rooted, current)
}

/// The path `s` rebuilt from its components.
pub fn normalize_path(s: &str) -> (r: String)
    ensures
        r@ == normalized(s@),
{
    let v = chars_of(s);
    let parts = pieces_of(&v);
    let (rooted, current) = starts_of(&v);
    proof {
        reveal_strlit(".");
        reveal_strlit("/");
        reveal_strlit("./");
    }
    let mut out: Vec<char> = Vec::new();
    if rooted {
        out.push('/');
    } else if current {
        out.push('.');
        if parts.len() > 0 {
            out.push('/');
        }
    }
    proof {
        if rooted {
            assert(out@ =~= "/"@);
        } else if current && parts@.len() > 0 {
            assert(out@ =~= "./"@);
        } else if current {
            assert(out@ =~= "."@);
        } else {
            assert(out@ =~= Seq::<char>::empty());
        }
    }
    push_joined(&mut out, &parts, '/');
    proof {
        assert(seq!['/'] =~= "/"@);
        if current && parts@.len() == 0 {
            assert(join(parts@.map_values(|p: Vec<char>| p@), "/"@) =~= Seq::<char>::empty());
        }
        if !rooted && !current {
            assert(out@ =~= join(parts@.map_values(|p: Vec<char>| p@), "/"@));
        }
    }
    string_of(&out)
}


/// The components of the path `s`, each as its chars.
pub fn components_of(s: &str) -> (r: Vec<Vec<char>>)
    ensures
        r@.map_values(|p: Vec<char>| p@) == components(s@),
{
    let v = chars_of(s);
    let parts = pieces_of(&v);
    let (rooted, current) = starts_of(&v);
    proof {
        reveal_strlit(".");
        reveal_strlit("/");
    }
    let mut out: Vec<Vec<char>> = Vec::new();
    if rooted || current {
        let mut first: Vec<char> = Vec::new();
        first.push(if rooted { '/' } else { '.' });
        proof {
            assert(first@ =~= if rooted { "/"@ } else { "."@ });
        }
        out.push(first);
    }
    let ghost head = out@.map_values(|p: Vec<char>| p@);
    proof {
        if rooted {
            assert(head =~= seq!["/"@]);
        } else if current {
            assert(head =~= seq!["."@]);
        } else {
            assert(head =~= Seq::<Seq<char>>::empty());
        }
    }
    let ghost pv = parts@.map_values(|p: Vec<char>| p@);
    let mut i: usize = 0;
    while i < parts.len()
        invariant
            i <= parts@.len(),
            pv == parts@.map_values(|p: Vec<char>| p@),
            out@.map_values(|p: Vec<char>| p@) == head + pv.take(i as int),
        decreases parts.len() - i,
    {
        let ghost before = out@;
        out.push(parts[i].clone());
        proof {
            assert(out@.map_values(|p: Vec<char>| p@) =~= before.map_values(|p: Vec<char>| p@).push(
                parts@[i as int]@,
            ));
            assert(pv.take(i + 1) =~= pv.take(i as int).push(pv[i as int]));
        }
        i = i + 1;
    }
    proof {
        assert(pv.take(pv.len() as int) == pv);
    }
    out
}

/// Whether `a` and `b` hold the same chars.
fn same_chars(a: &Vec<char>, b: &Vec<char>) -> (r: bool)
    ensures
        r == (a@ == b@),
{
    if a.len() != b.len() {
        return false;
    }
    let mut i: usize = 0;
    while i < a.len()
        invariant
            a@.len() == b@.len(),
            i <= a@.len(),
            forall|j: int| 0 <= j < i ==> a@[j] == b@[j],
        decreases a.len() - i,
    {
        if a[i] != b[i] {
            return false;
        }
        i = i + 1;
    }
    assert(a@ =~= b@);
    true
}

/// The components of `path` left after the components of `base`, each as
/// its chars, or `None` when `base` does not begin `path`.
pub fn components_after(path: &str, base: &str) -> (r: Option<Vec<Vec<char>>>)
    ensures
        match r {
            Some(rest) => begins_with(components(path@), components(base@))
                && rest@.map_values(|p: Vec<char>| p@) == components(path@).skip(components(base@).len() as int),
            None => !begins_with(components(path@), components(base@)),
        },
{
    let pc = components_of(path);
    let rc = components_of(base);
    let ghost pv = pc@.map_values(|p: Vec<char>| p@);
    let ghost rv = rc@.map_values(|p: Vec<char>| p@);
    let mut prefix = rc.len() <= pc.len();
    let mut i: usize = 0;
    while prefix && i < rc.len()
        invariant
            pv == pc@.map_values(|p: Vec<char>| p@),
            rv == rc@.map_values(|p: Vec<char>| p@),
            i <= rc@.len(),
            prefix ==> rc@.len() <= pc@.len(),
            prefix ==> forall|j: int| 0 <= j < i ==> pv[j] == rv[j],
            !prefix ==> !(rv.len() <= pv.len() && pv.take(rv.len() as int) == rv),
        decreases rc.len() - i,
    {
        if !same_chars(&pc[i], &rc[i]) {
            proof {
                if rv.len() <= pv.len() && pv.take(rv.len() as int) == rv {
                    assert(pv.take(rv.len() as int)[i as int] == pv[i as int]);
                }
            }
            prefix = false;
        }
        i = i + 1;
    }
    if prefix {
        proof {
            assert(pv.take(rv.len() as int) =~= rv);
        }
        let mut out: Vec<Vec<char>> = Vec::new();
        let mut k: usize = rc.len();
        while k < pc.len()
            invariant
                pv == pc@.map_values(|p: Vec<char>| p@),
                rc@.len() <= k <= pc@.len(),
                out@.map_values(|p: Vec<char>| p@) == pv.subrange(rc@.len() as int, k as int),
            decreases pc.len() - k,
        {
            let ghost before = out@;
            out.push(pc[k].clone());
            proof {
                assert(out@.map_values(|p: Vec<char>| p@) =~= before.map_values(|p: Vec<char>| p@).push(
                    pc@[k as int]@,
                ));
                assert(pv.subrange(rc@.len() as int, k + 1) =~= pv.subrange(rc@.len() as int, k as int).push(
                    pv[k as int],
                ));
            }
            k = k + 1;
        }
        proof {
            assert(pv.subrange(rc@.len() as int, pv.len() as int) =~= pv.skip(rv.len() as int));
        }
        Some(out)
    } else {
        None
    }
}

} // verus!
