//! Numbers written in validator arguments.
//!
//! A number is read with the grammar of Rust's `f64` parser (an optional
//! sign, then `inf`, `infinity` or `nan` in any case, or decimal digits with
//! an optional fraction and exponent) and kept as the exact value written,
//! in plain positional notation the way `{}` prints an `f64`: no exponent,
//! no leading zeros, no trailing zeros after the point, no point when
//! nothing follows it. The value is not rounded to the nearest `f64`, so
//! digits beyond its precision are kept (`0.30000000000000001` stays as
//! written, where an `f64` would print `0.3`).

use vstd::prelude::*;
use crate::text::{chars_of, first_index_of, string_of};

verus! {

/// A number as written in a validator argument, held as its canonical text.
#[derive(Debug, Clone, PartialEq, Eq, Hash)]
pub struct Number {
    text: String,
}

impl View for Number {
    type V = Seq<char>;

    open spec fn view(&self) -> Seq<char> {
        self.spec_text()
    }
}

/// What a number literal denotes.
pub enum NumberValue {
    /// `(-1)^negative * 0.digits * 10^point`, with no leading zero in
    /// `digits`; zero when `digits` is empty.
    Finite { negative: bool, digits: Seq<char>, point: int },
    Infinite { negative: bool },
    NotANumber,
}

pub open spec fn is_digit(c: char) -> bool {
    '0' <= c && c <= '9'
}

pub open spec fn all_digits(s: Seq<char>) -> bool {
    forall|i: int| 0 <= i < s.len() ==> is_digit(#[trigger] s[i])
}

/// The value of a non-empty run of decimal digits.
pub open spec fn digits_value(s: Seq<char>) -> nat
    decreases s.len(),
{
    if s.len() == 0 {
        0
    } else {
        digits_value(s.drop_last()) * 10 + ((s.last() as int - '0' as int) as nat)
    }
}

pub open spec fn ascii_lower(c: char) -> char {
    if 'A' <= c && c <= 'Z' {
        ((c as int) + 32) as char
    } else {
        c
    }
}

pub open spec fn lower_ascii(s: Seq<char>) -> Seq<char> {
    s.map_values(|c: char| ascii_lower(c))
}

/// The index of the first char of `s` that `p` holds of, or -1.
pub open spec fn first_where(s: Seq<char>, p: spec_fn(char) -> bool) -> int
    decreases s.len(),
{
    if s.len() == 0 {
        -1
    } else if p(s[0]) {
        0
    } else {
        let r = first_where(s.drop_first(), p);
        if r < 0 {
            -1
        } else {
            r + 1
        }
    }
}

pub open spec fn is_exp_mark(c: char) -> bool {
    c == 'e' || c == 'E'
}

/// The value of an exponent: an optional sign and at least one digit.
pub open spec fn exponent_value(s: Seq<char>) -> Option<int> {
    if s.len() > 0 && (s[0] == '+' || s[0] == '-') {
        let d = s.drop_first();
        if d.len() > 0 && all_digits(d) {
            Some(if s[0] == '-' { -(digits_value(d) as int) } else { digits_value(d) as int })
        } else {
            None
        }
    } else if s.len() > 0 && all_digits(s) {
        Some(digits_value(s) as int)
    } else {
        None
    }
}

/// The number of zeros that `s` starts with.
pub open spec fn leading_zeros(s: Seq<char>) -> nat
    decreases s.len(),
{
    if s.len() > 0 && s[0] == '0' {
        1 + leading_zeros(s.drop_first())
    } else {
        0
    }
}

/// `s` without the zeros it ends with.
pub open spec fn strip_trailing_zeros(s: Seq<char>) -> Seq<char>
    decreases s.len(),
{
    if s.len() > 0 && s.last() == '0' {
        strip_trailing_zeros(s.drop_last())
    } else {
        s
    }
}

/// The value of an unsigned decimal literal (`digits`, optional fraction,
/// optional exponent), or `None` when `s` is not one.
pub open spec fn unsigned_decimal(s: Seq<char>, negative: bool) -> Option<NumberValue> {
    let ie = first_where(s, |c: char| is_exp_mark(c));
    let m = if ie < 0 { s } else { s.take(ie) };
    let exp = if ie < 0 { Some(0int) } else { exponent_value(s.skip(ie + 1)) };
    let id = first_index_of(m, '.');
    let ip = if id < 0 { m } else { m.take(id) };
    let fp = if id < 0 { Seq::empty() } else { m.skip(id + 1) };
    if exp is Some && all_digits(ip) && all_digits(fp) && ip.len() + fp.len() >= 1 {
        let d = ip + fp;
        let k = leading_zeros(d);
        Some(
            NumberValue::Finite {
                negative,
                digits: strip_trailing_zeros(d.skip(k as int)),
                point: ip.len() + exp->0 - k,
            },
        )
    } else {
        None
    }
}

/// What `s` denotes under the grammar of Rust's `f64` parser, or `None`
/// when that parser refuses it.
pub open spec fn number_value(s: Seq<char>) -> Option<NumberValue> {
    let negative = s.len() > 0 && s[0] == '-';
    let body = if s.len() > 0 && (s[0] == '+' || s[0] == '-') { s.drop_first() } else { s };
    let low = lower_ascii(body);
    if low == "inf"@ || low == "infinity"@ {
        Some(NumberValue::Infinite { negative })
    } else if low == "nan"@ {
        Some(NumberValue::NotANumber)
    } else {
        unsigned_decimal(body, negative)
    }
}

pub open spec fn zeros(n: nat) -> Seq<char> {
    Seq::new(n, |i: int| '0')
}

/// The canonical text of a value: plain positional notation; `inf` past
/// the largest `f64`, zero below the smallest.
pub open spec fn number_text(v: NumberValue) -> Seq<char> {
    match v {
        NumberValue::NotANumber => "NaN"@,
        NumberValue::Infinite { negative } => if negative { "-inf"@ } else { "inf"@ },
        NumberValue::Finite { negative, digits, point } => {
            let sign = if negative { seq!['-'] } else { Seq::empty() };
            if digits.len() == 0 || point <= -324 {
                sign + seq!['0']
            } else if point >= 310 {
                if negative { "-inf"@ } else { "inf"@ }
            } else if point <= 0 {
                sign + seq!['0', '.'] + zeros((-point) as nat) + digits
            } else if point >= digits.len() {
                sign + digits + zeros((point - digits.len()) as nat)
            } else {
                sign + digits.take(point) + seq!['.'] + digits.skip(point)
            }
        },
    }
}

/// The canonical text of the number `s` denotes, or `None` when `s` is no
/// number.
pub open spec fn canonical_number(s: Seq<char>) -> Option<Seq<char>> {
    match number_value(s) {
        Some(v) => Some(number_text(v)),
        None => None,
    }
}

impl Number {
    pub closed spec fn spec_text(&self) -> Seq<char> {
        self.text@
    }

    /// Reads the number `s` denotes; `None` when `s` is not a number in the
    /// grammar of Rust's `f64` parser.
    pub fn parse(s: &str) -> (r: Option<Number>)
        ensures
            match r {
                Some(n) => canonical_number(s@) == Some(n@),
                None => canonical_number(s@) is None,
            },
    {
        let v = chars_of(s);
        match canonical_number_of(&v) {
            Some(t) => Some(Number { text: string_of(&t) }),
            None => None,
        }
    }

    /// The canonical text of this number, as `{}` prints the `f64`.
    pub fn text(&self) -> (r: &str)
        ensures
            r@ == self@,
    {
        self.text.as_str()
    }
}

fn lower_char(c: char) -> (r: char)
    ensures
        r == ascii_lower(c),
{
    if 'A' <= c && c <= 'Z' {
        ((c as u32) + 32) as u8 as char
    } else {
        c
    }
}

fn lowered(v: &[char]) -> (r: Vec<char>)
    ensures
        r@ == lower_ascii(v@),
{
    let mut out: Vec<char> = Vec::new();
    let mut i: usize = 0;
    while i < v.len()
        invariant
            i <= v@.len(),
            out@ == lower_ascii(v@.take(i as int)),
        decreases v.len() - i,
    {
        out.push(lower_char(v[i]));
        i = i + 1;
        assert(lower_ascii(v@.take(i as int)) == lower_ascii(v@.take(i - 1)).push(
            ascii_lower(v@[i - 1]),
        ));
    }
    assert(v@.take(v@.len() as int) == v@);
    out
}

fn chars_equal(a: &[char], b: &[char]) -> (r: bool)
    ensures
        r == (a@ == b@),
{
    if a.len() != b.len() {
        return false;
    }
    let mut i: usize = 0;
    while i < a.len()
        invariant
            i <= a@.len(),
            a@.len() == b@.len(),
            forall|j: int| 0 <= j < i ==> a@[j] == b@[j],
        decreases a.len() - i,
    {
        if a[i] != b[i] {
            return false;
        }
        i = i + 1;
    }
    assert(a@ == b@);
    true
}

fn digit_char_test(c: char) -> (r: bool)
    ensures
        r == is_digit(c),
{
    '0' <= c && c <= '9'
}

fn all_digits_in(v: &[char], lo: usize, hi: usize) -> (r: bool)
    requires
        lo <= hi <= v@.len(),
    ensures
        r == all_digits(v@.subrange(lo as int, hi as int)),
{
    let mut i = lo;
    while i < hi
        invariant
            lo <= i <= hi <= v@.len(),
            all_digits(v@.subrange(lo as int, i as int)),
        decreases hi - i,
    {
        if !digit_char_test(v[i]) {
            assert(v@.subrange(lo as int, hi as int)[i - lo] == v@[i as int]);
            return false;
        }
        i = i + 1;
        assert forall|j: int| 0 <= j < i - lo implies is_digit(
            #[trigger] v@.subrange(lo as int, i as int)[j],
        ) by {
            if j < i - 1 - lo {
                assert(v@.subrange(lo as int, i as int)[j] == v@.subrange(lo as int, i - 1)[j]);
            }
        }
    }
    true
}

proof fn lemma_first_where(s: Seq<char>, p: spec_fn(char) -> bool, i: int)
    requires
        0 <= i <= s.len(),
        forall|j: int| 0 <= j < i ==> !p(#[trigger] s[j]),
    ensures
        i < s.len() && p(s[i]) ==> first_where(s, p) == i,
        i == s.len() ==> first_where(s, p) == -1,
    decreases i,
{
    if i > 0 {
        lemma_first_where(s.drop_first(), p, i - 1);
    }
}

/// The value of the digits `v[lo..hi]`, or `BIG` when it is `BIG` or more.
pub(crate) fn digits_value_capped(v: &[char], lo: usize, hi: usize) -> (r: u128)
    requires
        lo <= hi <= v@.len(),
        all_digits(v@.subrange(lo as int, hi as int)),
    ensures
        r == if digits_value(v@.subrange(lo as int, hi as int)) < BIG {
            digits_value(v@.subrange(lo as int, hi as int))
        } else {
            BIG as nat
        },
{
    let mut acc: u128 = 0;
    let mut i = lo;
    while i < hi
        invariant
            lo <= i <= hi <= v@.len(),
            all_digits(v@.subrange(lo as int, hi as int)),
            acc == if digits_value(v@.subrange(lo as int, i as int)) < BIG {
                digits_value(v@.subrange(lo as int, i as int))
            } else {
                BIG as nat
            },
        decreases hi - i,
    {
        let ghost before = v@.subrange(lo as int, i as int);
        let ghost after = v@.subrange(lo as int, i + 1);
        assert(after.drop_last() == before);
        assert(after.last() == v@[i as int]);
        assert(is_digit(v@[i as int])) by {
            assert(v@.subrange(lo as int, hi as int)[i - lo] == v@[i as int]);
        }
        let d = (v[i] as u32 - '0' as u32) as u128;
        if acc >= BIG {
            assert(digits_value(after) >= digits_value(before));
        } else {
            let next = acc * 10 + d;
            acc = if next >= BIG { BIG } else { next };
        }
        i = i + 1;
    }
    acc
}

/// The cap on an exponent's size; past it, every value is infinite or zero.
pub const BIG: u128 = 1180591620717411303424;

/// The number of zeros that `v[lo..hi]` starts with.
fn count_leading_zeros(v: &[char], lo: usize, hi: usize) -> (r: usize)
    requires
        lo <= hi <= v@.len(),
    ensures
        r == leading_zeros(v@.subrange(lo as int, hi as int)),
        lo + r <= hi,
{
    let mut i = lo;
    while i < hi && v[i] == '0'
        invariant
            lo <= i <= hi <= v@.len(),
            forall|j: int| lo <= j < i ==> v@[j] == '0',
            leading_zeros(v@.subrange(lo as int, hi as int)) == (i - lo) + leading_zeros(
                v@.subrange(i as int, hi as int),
            ),
        decreases hi - i,
    {
        assert(v@.subrange(i as int, hi as int).drop_first() == v@.subrange(i + 1, hi as int));
        i = i + 1;
    }
    assert(i < hi ==> v@.subrange(i as int, hi as int)[0] == v@[i as int]);
    i - lo
}

/// The canonical text of the number `v` denotes, or `None`.
fn canonical_number_of(v: &Vec<char>) -> (r: Option<Vec<char>>)
    ensures
        match r {
            Some(t) => canonical_number(v@) == Some(t@),
            None => canonical_number(v@) is None,
        },
{
    let n = v.len();
    let negative = n > 0 && v[0] == '-';
    let start: usize = if n > 0 && (v[0] == '+' || v[0] == '-') { 1 } else { 0 };
    let ghost body = v@.skip(start as int);
    let mut b: Vec<char> = Vec::new();
    let mut i = start;
    while i < n
        invariant
            start <= i <= n,
            n == v@.len(),
            b@ == v@.subrange(start as int, i as int),
        decreases n - i,
    {
        b.push(v[i]);
        i = i + 1;
    }
    assert(b@ == body);
    assert(body == (if v@.len() > 0 && (v@[0] == '+' || v@[0] == '-') {
        v@.drop_first()
    } else {
        v@
    }));
    let low = lowered(b.as_slice());
    let inf_word: Vec<char> = vec!['i', 'n', 'f'];
    let infinity_word: Vec<char> = vec!['i', 'n', 'f', 'i', 'n', 'i', 't', 'y'];
    let nan_word: Vec<char> = vec!['n', 'a', 'n'];
    proof {
        reveal_strlit("inf");
        reveal_strlit("infinity");
        reveal_strlit("nan");
        reveal_strlit("-inf");
        reveal_strlit("NaN");
        assert(inf_word@ == "inf"@);
        assert(infinity_word@ == "infinity"@);
        assert(nan_word@ == "nan"@);
    }
    if chars_equal(low.as_slice(), inf_word.as_slice()) || chars_equal(
        low.as_slice(),
        infinity_word.as_slice(),
    ) {
        let t: Vec<char> = if negative { vec!['-', 'i', 'n', 'f'] } else { vec!['i', 'n', 'f'] };
        assert(t@ == number_text(NumberValue::Infinite { negative }));
        return Some(t);
    }
    if chars_equal(low.as_slice(), nan_word.as_slice()) {
        let t: Vec<char> = vec!['N', 'a', 'N'];
        assert(t@ == "NaN"@);
        return Some(t);
    }
    finite_text(&b, negative)
}

/// Appends `n` zeros to `t`.
fn push_zeros(t: &mut Vec<char>, n: u128)
    ensures
        final(t)@ == old(t)@ + zeros(n as nat),
{
    let mut z: u128 = 0;
    while z < n
        invariant
            z <= n,
            t@ == old(t)@ + zeros(z as nat),
        decreases n - z,
    {
        t.push('0');
        z = z + 1;
        assert(zeros(z as nat) == zeros((z - 1) as nat).push('0'));
    }
}

/// Appends `d[lo..hi]` to `t`.
fn push_range(t: &mut Vec<char>, d: &[char], lo: usize, hi: usize)
    requires
        lo <= hi <= d@.len(),
    ensures
        final(t)@ == old(t)@ + d@.subrange(lo as int, hi as int),
{
    let mut q = lo;
    while q < hi
        invariant
            lo <= q <= hi <= d@.len(),
            t@ == old(t)@ + d@.subrange(lo as int, q as int),
        decreases hi - q,
    {
        t.push(d[q]);
        q = q + 1;
    }
}

/// The text of a finite value with the digits `d` and the point `point`.
fn render_finite(negative: bool, d: &[char], point: i128) -> (t: Vec<char>)
    requires
        -BIG * 4 <= point <= BIG * 4,
    ensures
        t@ == number_text(NumberValue::Finite { negative, digits: d@, point: point as int }),
{
    let mut t: Vec<char> = Vec::new();
    if negative {
        t.push('-');
    }
    let ghost sign = if negative { seq!['-'] } else { Seq::<char>::empty() };
    let dlen = d.len();
    proof {
        reveal_strlit("inf");
        reveal_strlit("-inf");
    }
    if dlen == 0 || point <= -324 {
        t.push('0');
    } else if point >= 310 {
        t.push('i');
        t.push('n');
        t.push('f');
    } else if point <= 0 {
        t.push('0');
        t.push('.');
        push_zeros(&mut t, (-point) as u128);
        push_range(&mut t, d, 0, dlen);
        assert(d@.subrange(0, dlen as int) == d@);
    } else if point >= dlen as i128 {
        push_range(&mut t, d, 0, dlen);
        assert(d@.subrange(0, dlen as int) == d@);
        push_zeros(&mut t, (point - dlen as i128) as u128);
    } else {
        let p = point as usize;
        push_range(&mut t, d, 0, p);
        t.push('.');
        push_range(&mut t, d, p, dlen);
        assert(d@.take(p as int) == d@.subrange(0, p as int));
        assert(d@.skip(p as int) == d@.subrange(p as int, dlen as int));
    }
    t
}

/// Two points that are equal, or both past the same end of the `f64` range,
/// give the same text.
proof fn lemma_same_text(negative: bool, d: Seq<char>, p: int, q: int)
    requires
        p == q || (p >= 310 && q >= 310) || (p <= -324 && q <= -324),
    ensures
        number_text(NumberValue::Finite { negative, digits: d, point: p }) == number_text(
            NumberValue::Finite { negative, digits: d, point: q },
        ),
{
}

/// The shape of an unsigned decimal literal: where its integer part ends,
/// where its fraction starts and ends, and its exponent, capped at `BIG`.
struct LiteralShape {
    int_end: usize,
    frac_start: usize,
    mend: usize,
    exp: i128,
}

/// Finds the parts of the unsigned decimal literal `b`, or `None` when it
/// is not one.
fn literal_shape(b: &Vec<char>) -> (r: Option<LiteralShape>)
    ensures
        ({
            let s = b@;
            let ie = first_where(s, |c: char| is_exp_mark(c));
            let m = if ie < 0 { s } else { s.take(ie) };
            let exp = if ie < 0 { Some(0int) } else { exponent_value(s.skip(ie + 1)) };
            let id = first_index_of(m, '.');
            let ip = if id < 0 { m } else { m.take(id) };
            let fp = if id < 0 { Seq::empty() } else { m.skip(id + 1) };
            let ok = exp is Some && all_digits(ip) && all_digits(fp) && ip.len() + fp.len() >= 1;
            match r {
                Some(shape) => {
                    &&& ok
                    &&& shape.int_end <= shape.frac_start <= shape.mend <= b@.len()
                    &&& -BIG <= shape.exp <= BIG
                    &&& ip == s.subrange(0, shape.int_end as int)
                    &&& fp == s.subrange(shape.frac_start as int, shape.mend as int)
                    &&& (shape.exp == exp->0 || (shape.exp == BIG && exp->0 >= BIG) || (
                    shape.exp == -BIG && exp->0 <= -BIG))
                },
                None => !ok,
            }
        }),
{
    let n = b.len();
    let mut ie: usize = 0;
    while ie < n && !(b[ie] == 'e' || b[ie] == 'E')
        invariant
            ie <= n,
            n == b@.len(),
            forall|j: int| 0 <= j < ie ==> !is_exp_mark(#[trigger] b@[j]),
        decreases n - ie,
    {
        ie = ie + 1;
    }
    proof {
        lemma_first_where(b@, |c: char| is_exp_mark(c), ie as int);
    }
    let mend = ie;
    let mut exp: i128 = 0;
    if ie < n {
        let mut es = ie + 1;
        let mut eneg = false;
        if es < n && (b[es] == '+' || b[es] == '-') {
            eneg = b[es] == '-';
            es = es + 1;
        }
        let ghost x = b@.skip(ie + 1);
        proof {
            if x.len() > 0 && (x[0] == '+' || x[0] == '-') {
                assert(x.drop_first() == b@.subrange(es as int, n as int));
            } else {
                assert(x == b@.subrange(es as int, n as int));
            }
        }
        if es >= n || !all_digits_in(b.as_slice(), es, n) {
            return None;
        }
        let mag = digits_value_capped(b.as_slice(), es, n);
        exp = if eneg { -(mag as i128) } else { mag as i128 };
    }
    let ghost m = if ie < n { b@.take(ie as int) } else { b@ };
    assert(m == b@.subrange(0, mend as int));
    let mut id: usize = 0;
    while id < mend && b[id] != '.'
        invariant
            id <= mend <= n,
            n == b@.len(),
            m == b@.subrange(0, mend as int),
            forall|j: int| 0 <= j < id ==> #[trigger] m[j] != '.',
        decreases mend - id,
    {
        id = id + 1;
    }
    proof {
        crate::text::lemma_first_index_of(m, '.', id as int);
    }
    let int_end = id;
    let frac_start: usize = if id < mend { id + 1 } else { mend };
    let ghost ip = if id < mend { m.take(id as int) } else { m };
    let ghost fp = if id < mend { m.skip(id + 1) } else { Seq::<char>::empty() };
    assert(ip == b@.subrange(0, int_end as int));
    assert(fp == b@.subrange(frac_start as int, mend as int));
    if !all_digits_in(b.as_slice(), 0, int_end) || !all_digits_in(b.as_slice(), frac_start, mend)
        || int_end + (mend - frac_start) < 1 {
        return None;
    }
    Some(LiteralShape { int_end, frac_start, mend, exp })
}

/// The canonical text of the unsigned decimal literal `b`, or `None`.
fn finite_text(b: &Vec<char>, negative: bool) -> (r: Option<Vec<char>>)
    ensures
        match r {
            Some(t) => match unsigned_decimal(b@, negative) {
                Some(val) => t@ == number_text(val),
                None => false,
            },
            None => unsigned_decimal(b@, negative) is None,
        },
{
    let shape = match literal_shape(b) {
        Some(shape) => shape,
        None => {
            return None;
        },
    };
    let int_end = shape.int_end;
    let frac_start = shape.frac_start;
    let mend = shape.mend;
    let mut d: Vec<char> = Vec::new();
    push_range(&mut d, b.as_slice(), 0, int_end);
    push_range(&mut d, b.as_slice(), frac_start, mend);
    let dn = d.len();
    let k = count_leading_zeros(d.as_slice(), 0, dn);
    assert(d@.subrange(0, dn as int) == d@);
    let mut end = dn;
    while end > k && d[end - 1] == '0'
        invariant
            k <= end <= dn,
            dn == d@.len(),
            strip_trailing_zeros(d@.skip(k as int)) == strip_trailing_zeros(
                d@.subrange(k as int, end as int),
            ),
        decreases end,
    {
        assert(d@.subrange(k as int, end as int).drop_last() == d@.subrange(k as int, end - 1));
        end = end - 1;
    }
    proof {
        assert(d@.skip(k as int) == d@.subrange(k as int, dn as int));
        if end > k {
            assert(d@.subrange(k as int, end as int).last() == d@[end - 1]);
        }
    }
    let mut digits: Vec<char> = Vec::new();
    push_range(&mut digits, d.as_slice(), k, end);
    assert(strip_trailing_zeros(d@.skip(k as int)) == digits@);
    let point: i128 = int_end as i128 + shape.exp - k as i128;
    let t = render_finite(negative, digits.as_slice(), point);
    proof {
        let s = b@;
        let ie = first_where(s, |c: char| is_exp_mark(c));
        let e = if ie < 0 { 0int } else { exponent_value(s.skip(ie + 1))->0 };
        let sp = int_end + e - k;
        lemma_same_text(negative, digits@, sp, point as int);
    }
    Some(t)
}

} // verus!
