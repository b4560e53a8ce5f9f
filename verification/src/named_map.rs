//! A map from names to values that keeps its entries sorted by name, so
//! that walking it visits the names in order, as a `BTreeMap<String, V>`
//! does.

use vstd::prelude::*;
use crate::text::chars_of;

verus! {

/// Whether `a` comes strictly before `b` in the order of `String`: by the
/// first differing char, a proper prefix first.
pub open spec fn text_less(a: Seq<char>, b: Seq<char>) -> bool
    decreases a.len(),
{
    if a.len() == 0 {
        b.len() > 0
    } else if b.len() == 0 {
        false
    } else if a[0] != b[0] {
        (a[0] as int) < (b[0] as int)
    } else {
        text_less(a.drop_first(), b.drop_first())
    }
}

/// No text comes before itself.
pub proof fn lemma_text_less_irreflexive(a: Seq<char>)
    ensures
        !text_less(a, a),
    decreases a.len(),
{
    if a.len() > 0 {
        lemma_text_less_irreflexive(a.drop_first());
    }
}

/// The order of texts is transitive.
pub proof fn lemma_text_less_transitive(a: Seq<char>, b: Seq<char>, c: Seq<char>)
    requires
        text_less(a, b),
        text_less(b, c),
    ensures
        text_less(a, c),
    decreases a.len(),
{
    if a.len() > 0 && b.len() > 0 && c.len() > 0 && a[0] == b[0] && b[0] == c[0] {
        lemma_text_less_transitive(a.drop_first(), b.drop_first(), c.drop_first());
    }
}

/// Of two different texts, one comes first.
pub proof fn lemma_text_less_total(a: Seq<char>, b: Seq<char>)
    requires
        a != b,
    ensures
        text_less(a, b) || text_less(b, a),
    decreases a.len(),
{
    if a.len() > 0 && b.len() > 0 && a[0] == b[0] {
        if a.drop_first() == b.drop_first() {
            assert(a =~= seq![a[0]] + a.drop_first());
            assert(b =~= seq![b[0]] + b.drop_first());
        }
        lemma_text_less_total(a.drop_first(), b.drop_first());
    } else if a.len() == 0 && b.len() == 0 {
        assert(a =~= b);
    } else if a.len() > 0 && b.len() > 0 {
        assert((a[0] as int) != (b[0] as int));
    }
}

/// Compares two texts in the order of [`text_less`]: negative when `a`
/// comes first, zero when they are equal, positive when `b` comes first.
pub fn compare_text(a: &str, b: &str) -> (r: i8)
    ensures
        (r < 0) == text_less(a@, b@),
        (r == 0) == (a@ == b@),
        (r > 0) == text_less(b@, a@),
{
    let x = chars_of(a);
    let y = chars_of(b);
    let mut i: usize = 0;
    while i < x.len() && i < y.len() && x[i] == y[i]
        invariant
            i <= x@.len(),
            i <= y@.len(),
            x@ == a@,
            y@ == b@,
            x@.take(i as int) == y@.take(i as int),
        decreases x.len() - i,
    {
        assert(x@.take(i + 1) == x@.take(i as int).push(x@[i as int]));
        assert(y@.take(i + 1) == y@.take(i as int).push(y@[i as int]));
        i = i + 1;
    }
    proof {
        lemma_text_less_skip(x@, y@, i as int);
        lemma_text_less_skip(y@, x@, i as int);
        lemma_text_less_irreflexive(x@);
        if i == x@.len() && i == y@.len() {
            assert(x@ =~= x@.take(i as int));
            assert(y@ =~= y@.take(i as int));
        }
        if x@ == y@ {
            assert(!text_less(x@, y@));
        } else {
            lemma_text_less_total(x@, y@);
            lemma_text_less_transitive_not(x@, y@);
        }
    }
    if i < x.len() && i < y.len() {
        if x[i] < y[i] {
            -1
        } else {
            1
        }
    } else if i < y.len() {
        -1
    } else if i < x.len() {
        1
    } else {
        0
    }
}

/// Comparing two texts that share their first `i` chars goes by the rest.
proof fn lemma_text_less_skip(a: Seq<char>, b: Seq<char>, i: int)
    requires
        0 <= i <= a.len(),
        i <= b.len(),
        a.take(i) == b.take(i),
    ensures
        text_less(a, b) == text_less(a.skip(i), b.skip(i)),
    decreases i,
{
    if i > 0 {
        assert(a[0] == a.take(i)[0]);
        assert(b[0] == b.take(i)[0]);
        assert(a.drop_first().take(i - 1) =~= a.take(i).drop_first());
        assert(b.drop_first().take(i - 1) =~= b.take(i).drop_first());
        lemma_text_less_skip(a.drop_first(), b.drop_first(), i - 1);
        assert(a.drop_first().skip(i - 1) =~= a.skip(i));
        assert(b.drop_first().skip(i - 1) =~= b.skip(i));
    } else {
        assert(a.skip(0) =~= a);
        assert(b.skip(0) =~= b);
    }
}

/// Two texts do not each come before the other.
proof fn lemma_text_less_transitive_not(a: Seq<char>, b: Seq<char>)
    ensures
        !(text_less(a, b) && text_less(b, a)),
{
    if text_less(a, b) && text_less(b, a) {
        lemma_text_less_transitive(a, b, a);
        lemma_text_less_irreflexive(a);
    }
}

/// Whether the names of `s` are in strictly increasing order.
pub open spec fn sorted_names<V>(s: Seq<(Seq<char>, V)>) -> bool {
    forall|i: int, j: int| 0 <= i < j < s.len() ==> text_less(#[trigger] s[i].0, #[trigger] s[j].0)
}

/// The value that `s` gives the name `k`: that of the last entry named `k`.
pub open spec fn value_of<V>(s: Seq<(Seq<char>, V)>, k: Seq<char>) -> Option<V>
    decreases s.len(),
{
    if s.len() == 0 {
        None
    } else if s.last().0 == k {
        Some(s.last().1)
    } else {
        value_of(s.drop_last(), k)
    }
}

/// The number of leading entries of `s` whose names come before `k`: where
/// `k` goes in sorted `s`.
pub open spec fn place_of<V>(s: Seq<(Seq<char>, V)>, k: Seq<char>) -> nat
    decreases s.len(),
{
    if s.len() == 0 {
        0
    } else if text_less(s[0].0, k) {
        1 + place_of(s.drop_first(), k)
    } else {
        0
    }
}

/// `s` with `k` given the value `v`: the entry named `k` replaced, or a new
/// one put in its place in the order.
pub open spec fn put<V>(s: Seq<(Seq<char>, V)>, k: Seq<char>, v: V) -> Seq<(Seq<char>, V)> {
    let p = place_of(s, k) as int;
    if p < s.len() && s[p].0 == k {
        s.update(p, (k, v))
    } else {
        s.insert(p, (k, v))
    }
}

/// In sorted `s`, the value of a name is that of its entry.
pub proof fn lemma_value_of_at<V>(s: Seq<(Seq<char>, V)>, i: int)
    requires
        sorted_names(s),
        0 <= i < s.len(),
    ensures
        value_of(s, s[i].0) == Some(s[i].1),
    decreases s.len(),
{
    if i < s.len() - 1 {
        lemma_text_less_irreflexive(s[i].0);
        assert(text_less(s[i].0, s[s.len() - 1].0));
        assert(s.last().0 != s[i].0);
        let t = s.drop_last();
        assert(sorted_names(t));
        assert(t[i] == s[i]);
        lemma_value_of_at(t, i);
    }
}

/// A name that names no entry has no value.
pub proof fn lemma_value_of_none<V>(s: Seq<(Seq<char>, V)>, k: Seq<char>)
    requires
        forall|i: int| 0 <= i < s.len() ==> s[i].0 != k,
    ensures
        value_of(s, k) is None,
    decreases s.len(),
{
    if s.len() > 0 {
        let t = s.drop_last();
        assert forall|i: int| 0 <= i < t.len() implies t[i].0 != k by {
            assert(t[i] == s[i]);
        }
        lemma_value_of_none(t, k);
    }
}

/// In sorted `s`, the entries before the place of `k` come before `k`, and
/// the others do not.
proof fn lemma_place_of<V>(s: Seq<(Seq<char>, V)>, k: Seq<char>)
    requires
        sorted_names(s),
    ensures
        place_of(s, k) <= s.len(),
        forall|i: int| 0 <= i < place_of(s, k) ==> text_less(#[trigger] s[i].0, k),
        forall|i: int| place_of(s, k) <= i < s.len() ==> !text_less(#[trigger] s[i].0, k),
    decreases s.len(),
{
    if s.len() > 0 {
        let t = s.drop_first();
        assert(sorted_names(t)) by {
            assert forall|i: int, j: int| 0 <= i < j < t.len() implies text_less(
                #[trigger] t[i].0,
                #[trigger] t[j].0,
            ) by {
                assert(t[i] == s[i + 1]);
                assert(t[j] == s[j + 1]);
            }
        }
        lemma_place_of(t, k);
        if text_less(s[0].0, k) {
            assert forall|i: int| 0 <= i < place_of(s, k) implies text_less(#[trigger] s[i].0, k) by {
                if i > 0 {
                    assert(s[i] == t[i - 1]);
                }
            }
            assert forall|i: int| place_of(s, k) <= i < s.len() implies !text_less(
                #[trigger] s[i].0,
                k,
            ) by {
                assert(s[i] == t[i - 1]);
            }
        } else {
            assert forall|i: int| 0 <= i < s.len() implies !text_less(#[trigger] s[i].0, k) by {
                if i > 0 && text_less(s[i].0, k) {
                    lemma_text_less_transitive(s[0].0, s[i].0, k);
                }
            }
        }
    }
}

/// Putting a value under a name that sorted `s` has replaces that entry's
/// value.
pub proof fn lemma_put_existing<V>(s: Seq<(Seq<char>, V)>, i: int, v: V)
    requires
        sorted_names(s),
        0 <= i < s.len(),
    ensures
        put(s, s[i].0, v) == s.update(i, (s[i].0, v)),
{
    let k = s[i].0;
    lemma_place_of(s, k);
    lemma_text_less_irreflexive(k);
    let p = place_of(s, k) as int;
    if p < i {
        assert(text_less(s[p].0, k));
    } else if p > i {
        assert(text_less(s[i].0, k));
    }
}

/// Putting a value keeps the names sorted, gives the name that value, and
/// leaves every other name as it was.
#[verifier::rlimit(30)]
pub proof fn lemma_put<V>(s: Seq<(Seq<char>, V)>, k: Seq<char>, v: V)
    requires
        sorted_names(s),
    ensures
        sorted_names(put(s, k, v)),
        value_of(put(s, k, v), k) == Some(v),
        forall|k2: Seq<char>| k2 != k ==> value_of(put(s, k, v), k2) == value_of(s, k2),
{
    lemma_place_of(s, k);
    let p = place_of(s, k) as int;
    let r = put(s, k, v);
    if p < s.len() && s[p].0 == k {
        assert(sorted_names(r)) by {
            assert forall|i: int, j: int| 0 <= i < j < r.len() implies text_less(
                #[trigger] r[i].0,
                #[trigger] r[j].0,
            ) by {
                assert(r[i].0 == s[i].0);
                assert(r[j].0 == s[j].0);
            }
        }
    } else {
        assert(sorted_names(r)) by {
            assert forall|i: int, j: int| 0 <= i < j < r.len() implies text_less(
                #[trigger] r[i].0,
                #[trigger] r[j].0,
            ) by {
                if j < p {
                    assert(r[i] == s[i] && r[j] == s[j]);
                } else if j == p {
                    assert(r[i] == s[i]);
                } else if i < p {
                    assert(r[i] == s[i] && r[j] == s[j - 1]);
                    assert(!text_less(s[j - 1].0, k));
                    if s[j - 1].0 != k {
                        lemma_text_less_total(s[j - 1].0, k);
                    }
                    if j - 1 > p {
                        assert(text_less(s[p].0, s[j - 1].0));
                        if s[p].0 != k {
                            lemma_text_less_total(s[p].0, k);
                            lemma_text_less_transitive(k, s[p].0, s[j - 1].0);
                        }
                    }
                    lemma_text_less_transitive(s[i].0, k, s[j - 1].0);
                } else if i == p {
                    assert(r[j] == s[j - 1]);
                    assert(!text_less(s[j - 1].0, k));
                    if s[p].0 != k {
                        lemma_text_less_total(s[p].0, k);
                    }
                    if j - 1 > p {
                        assert(text_less(s[p].0, s[j - 1].0));
                        lemma_text_less_transitive(k, s[p].0, s[j - 1].0);
                    }
                } else {
                    assert(r[i] == s[i - 1] && r[j] == s[j - 1]);
                }
            }
        }
    }
    assert(r[p] == (k, v));
    lemma_value_of_at(r, p);
    assert forall|k2: Seq<char>| k2 != k implies value_of(r, k2) == value_of(s, k2) by {
        if exists|i: int| 0 <= i < s.len() && s[i].0 == k2 {
            let i = choose|i: int| 0 <= i < s.len() && s[i].0 == k2;
            lemma_value_of_at(s, i);
            if p < s.len() && s[p].0 == k {
                assert(r[i] == s[i]);
                lemma_value_of_at(r, i);
            } else if i < p {
                assert(r[i] == s[i]);
                lemma_value_of_at(r, i);
            } else {
                assert(r[i + 1] == s[i]);
                lemma_value_of_at(r, i + 1);
            }
        } else {
            lemma_value_of_none(s, k2);
            assert forall|i: int| 0 <= i < r.len() implies r[i].0 != k2 by {
                if p < s.len() && s[p].0 == k {
                    if i != p {
                        assert(r[i] == s[i]);
                    }
                } else if i < p {
                    assert(r[i] == s[i]);
                } else if i > p {
                    assert(r[i] == s[i - 1]);
                }
            }
            lemma_value_of_none(r, k2);
        }
    }
}

/// A map from names to values, walked in the order of the names.
#[derive(Debug)]
pub struct NamedMap<V> {
    entries: Vec<(String, V)>,
}

/// The names and values of `entries`, as texts.
pub open spec fn entries_view<V>(entries: Seq<(String, V)>) -> Seq<(Seq<char>, V)> {
    entries.map_values(|e: (String, V)| (e.0@, e.1))
}

impl<V> View for NamedMap<V> {
    type V = Seq<(Seq<char>, V)>;

    closed spec fn view(&self) -> Seq<(Seq<char>, V)> {
        entries_view(self.entries@)
    }
}

impl<V> NamedMap<V> {
    #[verifier::type_invariant]
    spec fn well_formed(self) -> bool {
        sorted_names(entries_view(self.entries@))
    }

    /// The entries of the map, by name.
    pub open spec fn get_spec(self, name: Seq<char>) -> Option<V> {
        value_of(self@, name)
    }

    /// An empty map.
    pub fn new() -> (r: NamedMap<V>)
        ensures
            r@ == Seq::<(Seq<char>, V)>::empty(),
    {
        let r = NamedMap { entries: Vec::new() };
        assert(entries_view(r.entries@) =~= Seq::<(Seq<char>, V)>::empty());
        r
    }

    /// The number of entries.
    pub fn len(&self) -> (r: usize)
        ensures
            r == self@.len(),
    {
        self.entries.len()
    }

    /// Whether the map is empty.
    pub fn is_empty(&self) -> (r: bool)
        ensures
            r == (self@.len() == 0),
    {
        self.entries.len() == 0
    }

    /// The entries, in the order of their names.
    pub fn entries(&self) -> (r: &Vec<(String, V)>)
        ensures
            entries_view(r@) == self@,
            sorted_names(self@),
    {
        proof {
            use_type_invariant(self);
        }
        &self.entries
    }

    /// Where `name` goes among the entries.
    fn place(&self, name: &str) -> (r: usize)
        ensures
            r == place_of(self@, name@),
            r <= self@.len(),
    {
        proof {
            use_type_invariant(self);
            lemma_place_of(self@, name@);
        }
        let mut i: usize = 0;
        while i < self.entries.len()
            invariant
                i <= self@.len(),
                self@ == entries_view(self.entries@),
                sorted_names(self@),
                place_of(self@, name@) <= self@.len(),
                forall|j: int| 0 <= j < place_of(self@, name@) ==> text_less(#[trigger] self@[j].0, name@),
                forall|j: int| place_of(self@, name@) <= j < self@.len() ==> !text_less(#[trigger] self@[j].0, name@),
                i <= place_of(self@, name@),
            decreases self.entries.len() - i,
        {
            assert(self@[i as int].0 == self.entries@[i as int].0@);
            if compare_text(self.entries[i].0.as_str(), name) >= 0 {
                return i;
            }
            i = i + 1;
        }
        i
    }

    /// The value of `name`, if it has one.
    pub fn get(&self, name: &str) -> (r: Option<&V>)
        ensures
            match r {
                Some(v) => self.get_spec(name@) == Some(*v),
                None => self.get_spec(name@) is None,
            },
    {
        proof {
            use_type_invariant(self);
        }
        let p = self.place(name);
        proof {
            lemma_place_of(self@, name@);
        }
        if p < self.entries.len() && same(self.entries[p].0.as_str(), name) {
            proof {
                lemma_value_of_at(self@, p as int);
            }
            Some(&self.entries[p].1)
        } else {
            proof {
                assert forall|i: int| 0 <= i < self@.len() implies self@[i].0 != name@ by {
                    lemma_text_less_irreflexive(name@);
                    if i > p && self@[i].0 == name@ {
                        assert(text_less(self@[p as int].0, self@[i].0));
                        if self@[p as int].0 != name@ {
                            lemma_text_less_total(self@[p as int].0, name@);
                        }
                    }
                }
                lemma_value_of_none(self@, name@);
            }
            None
        }
    }

    /// Whether `name` has a value.
    pub fn contains_key(&self, name: &str) -> (r: bool)
        ensures
            r == (self.get_spec(name@) is Some),
    {
        self.get(name).is_some()
    }

    /// Gives `name` the value `value`, replacing the one it had; every other
    /// name keeps its value.
    pub fn insert(&mut self, name: String, value: V)
        ensures
            final(self)@ == put(old(self)@, name@, value),
            final(self).get_spec(name@) == Some(value),
            forall|k: Seq<char>| k != name@ ==> #[trigger] final(self).get_spec(k) == old(self).get_spec(k),
    {
        proof {
            use_type_invariant(&*self);
            lemma_put(self@, name@, value);
        }
        let p = self.place(name.as_str());
        let ghost old_entries = self.entries@;
        if p < self.entries.len() && same(self.entries[p].0.as_str(), name.as_str()) {
            let mut entries = Vec::new();
            std::mem::swap(&mut entries, &mut self.entries);
            entries.set(p, (name, value));
            assert(entries_view(entries@) =~= put(entries_view(old_entries), name@, value));
            self.entries = entries;
        } else {
            let mut entries = Vec::new();
            std::mem::swap(&mut entries, &mut self.entries);
            entries.insert(p, (name, value));
            assert(entries_view(entries@) =~= put(entries_view(old_entries), name@, value));
            self.entries = entries;
        }
    }

    /// The entries of the map, taken out of it, in the order of their
    /// names.
    pub fn into_entries(self) -> (r: Vec<(String, V)>)
        ensures
            entries_view(r@) == self@,
            sorted_names(self@),
    {
        proof {
            use_type_invariant(&self);
        }
        self.entries
    }

    /// The index of the entry named `name`, if there is one.
    pub fn index_of(&self, name: &str) -> (r: Option<usize>)
        ensures
            match r {
                Some(i) => i < self@.len() && self@[i as int].0 == name@ && self.get_spec(name@)
                    == Some(self@[i as int].1),
                None => self.get_spec(name@) is None,
            },
    {
        proof {
            use_type_invariant(self);
        }
        let p = self.place(name);
        proof {
            lemma_place_of(self@, name@);
        }
        if p < self.entries.len() && same(self.entries[p].0.as_str(), name) {
            proof {
                lemma_value_of_at(self@, p as int);
            }
            Some(p)
        } else {
            proof {
                assert forall|i: int| 0 <= i < self@.len() implies self@[i].0 != name@ by {
                    lemma_text_less_irreflexive(name@);
                    if i > p && self@[i].0 == name@ {
                        assert(text_less(self@[p as int].0, self@[i].0));
                        if self@[p as int].0 != name@ {
                            lemma_text_less_total(self@[p as int].0, name@);
                        }
                    }
                }
                lemma_value_of_none(self@, name@);
            }
            None
        }
    }

    /// The value of entry `i`.
    pub fn value_at(&self, i: usize) -> (r: &V)
        requires
            i < self@.len(),
        ensures
            *r == self@[i as int].1,
    {
        &self.entries[i].1
    }

    /// Gives entry `i` the value `value`, returning the value it had.
    pub fn swap_value_at(&mut self, i: usize, value: V) -> (r: V)
        requires
            i < old(self)@.len(),
        ensures
            r == old(self)@[i as int].1,
            final(self)@ == old(self)@.update(i as int, (old(self)@[i as int].0, value)),
    {
        proof {
            use_type_invariant(&*self);
        }
        let mut entries = Vec::new();
        std::mem::swap(&mut entries, &mut self.entries);
        let ghost before = entries@;
        let (name, old_value) = entries.remove(i);
        entries.insert(i, (name, value));
        assert(entries_view(entries@) =~= entries_view(before).update(
            i as int,
            (entries_view(before)[i as int].0, value),
        ));
        assert(sorted_names(entries_view(entries@))) by {
            let a = entries_view(entries@);
            let b = entries_view(before);
            assert forall|x: int, y: int| 0 <= x < y < a.len() implies text_less(
                #[trigger] a[x].0,
                #[trigger] a[y].0,
            ) by {
                assert(a[x].0 == b[x].0 && a[y].0 == b[y].0);
            }
        }
        self.entries = entries;
        old_value
    }
}

fn same(a: &str, b: &str) -> (r: bool)
    ensures
        r == (a@ == b@),
{
    compare_text(a, b) == 0
}

/// Whether the texts `s` come in strictly increasing order.
pub open spec fn strictly_sorted(s: Seq<Seq<char>>) -> bool {
    forall|i: int, j: int| 0 <= i < j < s.len() ==> text_less(#[trigger] s[i], #[trigger] s[j])
}

/// The names of the entries of `s` whose value is `v`, in order.
pub open spec fn keys_with_value<V>(s: Seq<(Seq<char>, V)>, v: V) -> Seq<Seq<char>>
    decreases s.len(),
{
    if s.len() == 0 {
        Seq::empty()
    } else {
        let rest = keys_with_value(s.drop_last(), v);
        if s.last().1 == v {
            rest.push(s.last().0)
        } else {
            rest
        }
    }
}

/// A name with a value names an entry.
pub proof fn lemma_value_of_some<V>(s: Seq<(Seq<char>, V)>, k: Seq<char>)
    requires
        value_of(s, k) is Some,
    ensures
        exists|j: int| 0 <= j < s.len() && s[j].0 == k,
    decreases s.len(),
{
    if s.last().0 != k {
        lemma_value_of_some(s.drop_last(), k);
        let j = choose|j: int| 0 <= j < s.drop_last().len() && s.drop_last()[j].0 == k;
        assert(s[j] == s.drop_last()[j]);
    } else {
        assert(s[s.len() - 1].0 == k);
    }
}

/// In sorted `s`, the names with the value `v` come in strictly increasing
/// order, and they are exactly the names whose value is `v`.
pub proof fn lemma_keys_with_value<V>(s: Seq<(Seq<char>, V)>, v: V)
    requires
        sorted_names(s),
    ensures
        strictly_sorted(keys_with_value(s, v)),
        forall|k: Seq<char>| #[trigger] keys_with_value(s, v).contains(k) <==> value_of(s, k) == Some(v),
    decreases s.len(),
{
    if s.len() > 0 {
        let t = s.drop_last();
        let l = s.last();
        assert(sorted_names(t)) by {
            assert forall|i: int, j: int| 0 <= i < j < t.len() implies text_less(
                #[trigger] t[i].0,
                #[trigger] t[j].0,
            ) by {
                assert(t[i] == s[i] && t[j] == s[j]);
            }
        }
        lemma_keys_with_value(t, v);
        let kt = keys_with_value(t, v);
        // every name of `t` comes before the last name of `s`
        assert forall|x: Seq<char>| #[trigger] kt.contains(x) implies text_less(x, l.0) by {
            lemma_value_of_some(t, x);
            let j = choose|j: int| 0 <= j < t.len() && t[j].0 == x;
            assert(t[j] == s[j]);
            assert(text_less(s[j].0, s[s.len() - 1].0));
        }
        if l.1 == v {
            let kv = kt.push(l.0);
            assert forall|i: int, j: int| 0 <= i < j < kv.len() implies text_less(
                #[trigger] kv[i],
                #[trigger] kv[j],
            ) by {
                if j == kv.len() - 1 {
                    assert(kt.contains(kv[i]));
                }
            }
        }
        assert forall|k: Seq<char>| #[trigger] keys_with_value(s, v).contains(k) <==> value_of(s, k) == Some(v) by {
            if l.0 == k {
                lemma_text_less_irreflexive(k);
                if kt.contains(k) {
                    assert(text_less(k, l.0));
                }
                if l.1 == v {
                    assert(kt.push(l.0)[kt.len() as int] == k);
                } else {
                    if keys_with_value(s, v).contains(k) {
                        assert(kt.contains(k));
                    }
                }
            } else {
                if l.1 == v {
                    let kv = kt.push(l.0);
                    if kv.contains(k) {
                        let w = choose|w: int| 0 <= w < kv.len() && kv[w] == k;
                        assert(kt[w] == k);
                    }
                    if kt.contains(k) {
                        let w = choose|w: int| 0 <= w < kt.len() && kt[w] == k;
                        assert(kv[w] == k);
                    }
                }
            }
        }
    }
}

/// `m` with each entry of `es` put in, in order.
pub open spec fn put_all<V>(m: Seq<(Seq<char>, V)>, es: Seq<(Seq<char>, V)>) -> Seq<(Seq<char>, V)>
    decreases es.len(),
{
    if es.len() == 0 {
        m
    } else {
        put(put_all(m, es.drop_last()), es.last().0, es.last().1)
    }
}

/// After the entries of `es` are put in, a name has the value of the last
/// entry of `es` with that name, or, when none has it, the value it had.
pub proof fn lemma_put_all_value<V>(m: Seq<(Seq<char>, V)>, es: Seq<(Seq<char>, V)>, k: Seq<char>)
    requires
        sorted_names(m),
    ensures
        value_of(put_all(m, es), k) == match value_of(es, k) {
            Some(v) => Some(v),
            None => value_of(m, k),
        },
    decreases es.len(),
{
    if es.len() > 0 {
        let t = es.drop_last();
        lemma_put_all_value(m, t, k);
        lemma_put_all_sorted(m, t);
        lemma_put(put_all(m, t), es.last().0, es.last().1);
    }
}

/// Putting in the entries of `es` keeps the names sorted.
pub proof fn lemma_put_all_sorted<V>(m: Seq<(Seq<char>, V)>, es: Seq<(Seq<char>, V)>)
    requires
        sorted_names(m),
    ensures
        sorted_names(put_all(m, es)),
    decreases es.len(),
{
    if es.len() > 0 {
        let d = es.last();
        lemma_put_all_sorted(m, es.drop_last());
        lemma_put(put_all(m, es.drop_last()), d.0, d.1);
    }
}

/// A name that has a value before the entries of `es` are put in still has
/// one after.
pub proof fn lemma_put_all_keeps<V>(m: Seq<(Seq<char>, V)>, es: Seq<(Seq<char>, V)>, k: Seq<char>)
    requires
        sorted_names(m),
        value_of(m, k) is Some,
    ensures
        value_of(put_all(m, es), k) is Some,
    decreases es.len(),
{
    if es.len() > 0 {
        let d = es.last();
        lemma_put_all_keeps(m, es.drop_last(), k);
        lemma_put_all_sorted(m, es.drop_last());
        lemma_put(put_all(m, es.drop_last()), d.0, d.1);
    }
}

/// The name of each entry of `es` has a value once they are put in.
pub proof fn lemma_put_all_has<V>(m: Seq<(Seq<char>, V)>, es: Seq<(Seq<char>, V)>, i: int)
    requires
        sorted_names(m),
        0 <= i < es.len(),
    ensures
        value_of(put_all(m, es), es[i].0) is Some,
    decreases es.len(),
{
    let t = es.drop_last();
    let d = es.last();
    lemma_put_all_sorted(m, t);
    lemma_put(put_all(m, t), d.0, d.1);
    if i < es.len() - 1 {
        assert(es[i] == t[i]);
        lemma_put_all_has(m, t, i);
    }
}

/// An entry of `es` whose name no later entry reuses gives its name its
/// value.
pub proof fn lemma_put_all_last<V>(m: Seq<(Seq<char>, V)>, es: Seq<(Seq<char>, V)>, i: int)
    requires
        sorted_names(m),
        0 <= i < es.len(),
        forall|j: int| i < j < es.len() ==> es[j].0 != es[i].0,
    ensures
        value_of(put_all(m, es), es[i].0) == Some(es[i].1),
    decreases es.len(),
{
    let t = es.drop_last();
    let d = es.last();
    lemma_put_all_sorted(m, t);
    lemma_put(put_all(m, t), d.0, d.1);
    if i < es.len() - 1 {
        assert(es[i] == t[i]);
        assert(d.0 != es[i].0);
        assert forall|j: int| i < j < t.len() implies t[j].0 != t[i].0 by {
            assert(t[j] == es[j]);
        }
        lemma_put_all_last(m, t, i);
    }
}

/// A name that no entry of `es` has keeps its value when they are put in.
pub proof fn lemma_put_all_other<V>(m: Seq<(Seq<char>, V)>, es: Seq<(Seq<char>, V)>, k: Seq<char>)
    requires
        sorted_names(m),
        forall|j: int| 0 <= j < es.len() ==> es[j].0 != k,
    ensures
        value_of(put_all(m, es), k) == value_of(m, k),
    decreases es.len(),
{
    if es.len() > 0 {
        let t = es.drop_last();
        let d = es.last();
        assert(d.0 != k);
        assert forall|j: int| 0 <= j < t.len() implies t[j].0 != k by {
            assert(t[j] == es[j]);
        }
        lemma_put_all_other(m, t, k);
        lemma_put_all_sorted(m, t);
        lemma_put(put_all(m, t), d.0, d.1);
    }
}

/// `s` with `f` applied to each value.
pub open spec fn map_entry_values<V, W>(s: Seq<(Seq<char>, V)>, f: spec_fn(V) -> W) -> Seq<(Seq<char>, W)> {
    s.map_values(|e: (Seq<char>, V)| (e.0, f(e.1)))
}

/// The place of a name depends on the names alone.
proof fn lemma_place_of_map<V, W>(s: Seq<(Seq<char>, V)>, k: Seq<char>, f: spec_fn(V) -> W)
    ensures
        place_of(map_entry_values(s, f), k) == place_of(s, k),
    decreases s.len(),
{
    if s.len() > 0 {
        assert(map_entry_values(s, f).drop_first() =~= map_entry_values(s.drop_first(), f));
        lemma_place_of_map(s.drop_first(), k, f);
    }
}

proof fn lemma_place_le<V>(s: Seq<(Seq<char>, V)>, k: Seq<char>)
    ensures
        place_of(s, k) <= s.len(),
    decreases s.len(),
{
    if s.len() > 0 {
        lemma_place_le(s.drop_first(), k);
    }
}

/// Putting commutes with applying `f` to the values.
pub proof fn lemma_put_map<V, W>(s: Seq<(Seq<char>, V)>, k: Seq<char>, v: V, f: spec_fn(V) -> W)
    ensures
        map_entry_values(put(s, k, v), f) == put(map_entry_values(s, f), k, f(v)),
        sorted_names(s) ==> sorted_names(map_entry_values(s, f)),
{
    lemma_place_of_map(s, k, f);
    lemma_place_le(s, k);
    let m = map_entry_values(s, f);
    let p = place_of(s, k) as int;
    if p < s.len() && s[p].0 == k {
        assert(m[p].0 == k);
        assert(map_entry_values(s.update(p, (k, v)), f) =~= m.update(p, (k, f(v))));
    } else {
        if p < s.len() {
            assert(m[p].0 == s[p].0);
        }
        let a = map_entry_values(s.insert(p, (k, v)), f);
        let b = m.insert(p, (k, f(v)));
        assert forall|i: int| 0 <= i < a.len() implies a[i] == b[i] by {
            if i < p {
                assert(s.insert(p, (k, v))[i] == s[i]);
            } else if i > p {
                assert(s.insert(p, (k, v))[i] == s[i - 1]);
            }
        }
        assert(a =~= b);
    }
    if sorted_names(s) {
        assert forall|i: int, j: int| 0 <= i < j < m.len() implies text_less(
            #[trigger] m[i].0,
            #[trigger] m[j].0,
        ) by {
            assert(m[i].0 == s[i].0 && m[j].0 == s[j].0);
        }
    }
}

/// Looking a name up commutes with applying `f` to the values.
pub proof fn lemma_value_of_map<V, W>(s: Seq<(Seq<char>, V)>, k: Seq<char>, f: spec_fn(V) -> W)
    ensures
        value_of(map_entry_values(s, f), k) == match value_of(s, k) {
            Some(v) => Some(f(v)),
            None => None,
        },
    decreases s.len(),
{
    if s.len() > 0 {
        assert(map_entry_values(s, f).drop_last() =~= map_entry_values(s.drop_last(), f));
        lemma_value_of_map(s.drop_last(), k, f);
    }
}

} // verus!
