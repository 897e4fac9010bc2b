//! Sets of texts, kept in ascending order.

use crate::text;
use vstd::prelude::*;

verus! {

/// Whether `a` comes before `b`: texts are ordered by their first differing
/// character, a shorter text before the texts it begins.
pub open spec fn precedes(a: Seq<char>, b: Seq<char>) -> bool
    decreases a.len(),
{
    if b.len() == 0 {
        false
    } else if a.len() == 0 {
        true
    } else if a[0] != b[0] {
        a[0] < b[0]
    } else {
        precedes(a.skip(1), b.skip(1))
    }
}

/// Whether every text comes before all later ones.
pub open spec fn ascending(s: Seq<Seq<char>>) -> bool {
    forall|i: int, j: int| 0 <= i < j < s.len() ==> #[trigger] precedes(s[i], s[j])
}

/// The order is a strict one: no text comes before itself.
pub proof fn precedes_irreflexive(a: Seq<char>)
    ensures
        !precedes(a, a),
    decreases a.len(),
{
    if a.len() > 0 {
        precedes_irreflexive(a.skip(1));
    }
}

/// The order is transitive.
pub proof fn precedes_transitive(a: Seq<char>, b: Seq<char>, c: Seq<char>)
    requires
        precedes(a, b),
        precedes(b, c),
    ensures
        precedes(a, c),
    decreases a.len(),
{
    if a.len() > 0 && a[0] == b[0] && b[0] == c[0] {
        precedes_transitive(a.skip(1), b.skip(1), c.skip(1));
    }
}

/// Of two different texts one comes before the other.
pub proof fn precedes_total(a: Seq<char>, b: Seq<char>)
    ensures
        a == b || precedes(a, b) || precedes(b, a),
    decreases a.len(),
{
    if a.len() > 0 && b.len() > 0 && a[0] == b[0] {
        precedes_total(a.skip(1), b.skip(1));
        if a.skip(1) == b.skip(1) {
            assert forall|i: int| 0 <= i < a.len() implies a[i] == b[i] by {
                if i > 0 {
                    assert(a[i] == a.skip(1)[i - 1]);
                    assert(b[i] == b.skip(1)[i - 1]);
                }
            }
            assert(a.len() == a.skip(1).len() + 1);
            assert(b.len() == b.skip(1).len() + 1);
            assert(a =~= b);
        }
    } else if a.len() == 0 && b.len() == 0 {
        assert(a =~= b);
    }
}

/// An ascending sequence is determined by the texts it holds.
pub proof fn ascending_unique(a: Seq<Seq<char>>, b: Seq<Seq<char>>)
    requires
        ascending(a),
        ascending(b),
        a.to_set() == b.to_set(),
    ensures
        a == b,
    decreases a.len(),
{
    if a.len() == 0 {
        if b.len() > 0 {
            assert(b.to_set().contains(b[0]));
            assert(a.to_set().contains(b[0]));
        }
        assert(a =~= b);
    } else {
        assert(a.to_set().contains(a.last()));
        assert(b.to_set().contains(a.last()));
        let k = choose|k: int| 0 <= k < b.len() && b[k] == a.last();
        assert(b.to_set().contains(b.last()));
        assert(a.to_set().contains(b.last()));
        let m = choose|m: int| 0 <= m < a.len() && a[m] == b.last();
        if k < b.len() - 1 {
            assert(precedes(b[k], b[b.len() - 1]));
            if m < a.len() - 1 {
                assert(precedes(a[m], a[a.len() - 1]));
                precedes_transitive(a.last(), b.last(), a.last());
            }
            precedes_irreflexive(a.last());
        }
        assert(a.last() == b.last());
        let x = a.drop_last();
        let y = b.drop_last();
        assert forall|i: int, j: int| 0 <= i < j < x.len() implies #[trigger] precedes(
            x[i],
            x[j],
        ) by {
            assert(precedes(a[i], a[j]));
        }
        assert forall|i: int, j: int| 0 <= i < j < y.len() implies #[trigger] precedes(
            y[i],
            y[j],
        ) by {
            assert(precedes(b[i], b[j]));
        }
        precedes_irreflexive(a.last());
        assert forall|t: Seq<char>| x.to_set().contains(t) implies y.to_set().contains(t) by {
            let i = choose|i: int| 0 <= i < x.len() && x[i] == t;
            assert(precedes(a[i], a[a.len() - 1]));
            assert(a[i] == t);
            assert(a.to_set().contains(t));
            assert(b.to_set().contains(t));
            let n = choose|n: int| 0 <= n < b.len() && b[n] == t;
            assert(y[n] == t);
        }
        assert forall|t: Seq<char>| y.to_set().contains(t) implies x.to_set().contains(t) by {
            let i = choose|i: int| 0 <= i < y.len() && y[i] == t;
            assert(precedes(b[i], b[b.len() - 1]));
            assert(b[i] == t);
            assert(b.to_set().contains(t));
            assert(a.to_set().contains(t));
            let n = choose|n: int| 0 <= n < a.len() && a[n] == t;
            assert(x[n] == t);
        }
        assert(x.to_set() =~= y.to_set());
        ascending_unique(x, y);
        assert(a =~= x.push(a.last()));
        assert(b =~= y.push(b.last()));
    }
}

/// How one text stands to another.
pub enum Standing {
    Before,
    Same,
    After,
}

/// How `a` stands to `b` in the order of texts.
pub fn standing(a: &str, b: &str) -> (r: Standing)
    ensures
        match r {
            Standing::Before => precedes(a@, b@) && a@ != b@,
            Standing::Same => a@ == b@,
            Standing::After => precedes(b@, a@) && a@ != b@,
        },
{
    let x = text::chars_of(a);
    let y = text::chars_of(b);
    let mut i: usize = 0;
    assert(x@.skip(0) == x@);
    assert(y@.skip(0) == y@);
    while i < x.len() && i < y.len() && x[i] == y[i]
        invariant
            i <= x@.len(),
            i <= y@.len(),
            forall|j: int| 0 <= j < i ==> x@[j] == y@[j],
            precedes(x@, y@) == precedes(x@.skip(i as int), y@.skip(i as int)),
            precedes(y@, x@) == precedes(y@.skip(i as int), x@.skip(i as int)),
        decreases x@.len() - i,
    {
        assert(x@.skip(i as int).skip(1) == x@.skip(i + 1));
        assert(y@.skip(i as int).skip(1) == y@.skip(i + 1));
        i += 1;
    }
    proof {
        precedes_irreflexive(x@);
        precedes_irreflexive(y@);
    }
    if i < x.len() {
        if i < y.len() {
            if x[i] < y[i] {
                Standing::Before
            } else {
                Standing::After
            }
        } else {
            Standing::After
        }
    } else if i < y.len() {
        Standing::Before
    } else {
        assert(x@ =~= y@);
        Standing::Same
    }
}

/// A set of texts.
pub struct StringSet {
    items: Vec<String>,
}

impl View for StringSet {
    type V = Set<Seq<char>>;

    closed spec fn view(&self) -> Set<Seq<char>> {
        text::views(self.items@).to_set()
    }
}

impl StringSet {
    /// The texts stand in ascending order, none of them twice.
    pub closed spec fn wf(&self) -> bool {
        ascending(text::views(self.items@))
    }

    /// The empty set.
    pub fn new() -> (r: StringSet)
        ensures
            r.wf(),
            r@ == Set::<Seq<char>>::empty(),
    {
        let r = StringSet { items: Vec::new() };
        assert(r@ =~= Set::<Seq<char>>::empty());
        r
    }

    /// The position of `t`, or where it would have to stand.
    fn place(&self, t: &str) -> (r: (usize, bool))
        requires
            self.wf(),
        ensures
            r.0 <= self.items@.len(),
            r.1 == self@.contains(t@),
            r.1 ==> r.0 < self.items@.len() && self.items@[r.0 as int]@ == t@,
            !r.1 ==> forall|i: int| 0 <= i < r.0 ==> precedes(#[trigger] self.items@[i]@, t@),
            !r.1 ==> forall|i: int|
                r.0 <= i < self.items@.len() ==> precedes(t@, #[trigger] self.items@[i]@),
    {
        let ghost vs = text::views(self.items@);
        let mut lo: usize = 0;
        let mut hi: usize = self.items.len();
        while lo < hi
            invariant
                lo <= hi <= self.items@.len(),
                vs == text::views(self.items@),
                ascending(vs),
                forall|i: int| 0 <= i < lo ==> precedes(#[trigger] self.items@[i]@, t@),
                forall|i: int|
                    hi <= i < self.items@.len() ==> precedes(t@, #[trigger] self.items@[i]@),
            decreases hi - lo,
        {
            let mid = lo + (hi - lo) / 2;
            match standing(self.items[mid].as_str(), t) {
                Standing::Before => {
                    assert forall|i: int| 0 <= i < mid + 1 implies precedes(
                        #[trigger] self.items@[i]@,
                        t@,
                    ) by {
                        if i < mid {
                            assert(precedes(vs[i], vs[mid as int]));
                            precedes_transitive(vs[i], vs[mid as int], t@);
                        }
                    }
                    lo = mid + 1;
                },
                Standing::Same => {
                    assert(vs[mid as int] == t@);
                    assert(vs.to_set().contains(t@));
                    return (mid, true);
                },
                Standing::After => {
                    assert forall|i: int| mid <= i < self.items@.len() implies precedes(
                        t@,
                        #[trigger] self.items@[i]@,
                    ) by {
                        if i > mid {
                            assert(precedes(vs[mid as int], vs[i]));
                            precedes_transitive(t@, vs[mid as int], vs[i]);
                        }
                    }
                    hi = mid;
                },
            }
        }
        proof {
            if self@.contains(t@) {
                let i = choose|i: int| 0 <= i < vs.len() && vs[i] == t@;
                assert(self.items@[i]@ == t@);
                precedes_irreflexive(t@);
            }
        }
        (lo, false)
    }

    /// Whether `t` is in the set.
    pub fn contains(&self, t: &str) -> (r: bool)
        requires
            self.wf(),
        ensures
            r == self@.contains(t@),
    {
        self.place(t).1
    }

    /// Puts `t` into the set.
    pub fn insert(&mut self, t: String)
        requires
            old(self).wf(),
        ensures
            final(self).wf(),
            final(self)@ == old(self)@.insert(t@),
    {
        let ghost before = text::views(self.items@);
        let (at, found) = self.place(t.as_str());
        if found {
            assert(self@ =~= old(self)@.insert(t@));
            return ;
        }
        let ghost key = t@;
        let ghost items = self.items@;
        self.items.insert(at, t);
        proof {
            let after = text::views(self.items@);
            assert(after =~= before.insert(at as int, key));
            assert forall|i: int| 0 <= i < at implies precedes(#[trigger] before[i], key) by {
                assert(precedes(items[i]@, key));
            }
            assert forall|i: int| at <= i < before.len() implies precedes(
                key,
                #[trigger] before[i],
            ) by {
                assert(precedes(key, items[i]@));
            }
            assert forall|i: int, j: int| 0 <= i < j < after.len() implies #[trigger] precedes(
                after[i],
                after[j],
            ) by {
                let p = if i < at { i } else { i - 1 };
                let q = if j < at { j } else { j - 1 };
                if i != at && j != at {
                    assert(precedes(before[p], before[q]));
                } else if i == at {
                    assert(precedes(key, before[q]));
                } else {
                    assert(precedes(before[p], key));
                }
            }
            assert forall|s: Seq<char>| after.to_set().contains(s) implies before.to_set().insert(
                key,
            ).contains(s) by {
                let i = choose|i: int| 0 <= i < after.len() && after[i] == s;
                if i != at {
                    let p = if i < at { i } else { i - 1 };
                    assert(before[p] == s);
                }
            }
            assert forall|s: Seq<char>| before.to_set().insert(
                key,
            ).contains(s) implies after.to_set().contains(s) by {
                if s == key {
                    assert(after[at as int] == s);
                } else {
                    let p = choose|p: int| 0 <= p < before.len() && before[p] == s;
                    let i = if p < at { p } else { p + 1 };
                    assert(after[i] == s);
                }
            }
            assert(after.to_set() =~= before.to_set().insert(key));
        }
    }

    /// Takes `t` out of the set.
    pub fn remove(&mut self, t: &str)
        requires
            old(self).wf(),
        ensures
            final(self).wf(),
            final(self)@ == old(self)@.remove(t@),
    {
        let ghost before = text::views(self.items@);
        let (at, found) = self.place(t);
        if !found {
            assert(self@ =~= old(self)@.remove(t@));
            return ;
        }
        self.items.remove(at);
        proof {
            let after = text::views(self.items@);
            assert(after =~= before.remove(at as int));
            assert forall|i: int, j: int| 0 <= i < j < after.len() implies #[trigger] precedes(
                after[i],
                after[j],
            ) by {
                let p = if i < at { i } else { i + 1 };
                let q = if j < at { j } else { j + 1 };
                assert(precedes(before[p], before[q]));
            }
            assert forall|s: Seq<char>| after.to_set().contains(s) implies before.to_set().remove(
                t@,
            ).contains(s) by {
                let i = choose|i: int| 0 <= i < after.len() && after[i] == s;
                let p = if i < at { i } else { i + 1 };
                assert(before[p] == s);
                precedes_irreflexive(s);
                if p < at {
                    assert(precedes(before[p], before[at as int]));
                } else {
                    assert(precedes(before[at as int], before[p]));
                }
            }
            assert forall|s: Seq<char>| before.to_set().remove(
                t@,
            ).contains(s) implies after.to_set().contains(s) by {
                let p = choose|p: int| 0 <= p < before.len() && before[p] == s;
                let i = if p < at { p } else { p - 1 };
                assert(after[i] == s);
            }
            assert(after.to_set() =~= before.to_set().remove(t@));
        }
    }

    /// The number of texts in the set.
    pub fn len(&self) -> (r: usize)
        requires
            self.wf(),
        ensures
            r == self@.len(),
    {
        proof {
            let vs = text::views(self.items@);
            assert forall|i: int, j: int| 0 <= i < vs.len() && 0 <= j < vs.len() && i != j implies vs[i]
                != vs[j] by {
                precedes_irreflexive(vs[i]);
                if i < j {
                    assert(precedes(vs[i], vs[j]));
                } else {
                    assert(precedes(vs[j], vs[i]));
                }
            }
            assert(vs.no_duplicates());
            vs.unique_seq_to_set();
        }
        self.items.len()
    }

    /// Whether there is no text in the set.
    pub fn is_empty(&self) -> (r: bool)
        requires
            self.wf(),
        ensures
            r == (self@ == Set::<Seq<char>>::empty()),
    {
        let r = self.items.len() == 0;
        proof {
            let vs = text::views(self.items@);
            if r {
                assert(self@ =~= Set::<Seq<char>>::empty());
            } else {
                assert(self@.contains(vs[0]));
            }
        }
        r
    }

    /// Copies of the texts of the set in ascending order.
    pub fn to_vec(&self) -> (r: Vec<String>)
        requires
            self.wf(),
        ensures
            ascending(text::views(r@)),
            text::views(r@).to_set() == self@,
    {
        text::copied(&self.items)
    }

    /// The texts of the set in ascending order.
    pub fn into_vec(self) -> (r: Vec<String>)
        requires
            self.wf(),
        ensures
            ascending(text::views(r@)),
            text::views(r@).to_set() == self@,
    {
        self.items
    }
}

/// Of two texts the one with the smaller character comes first where they first differ,
/// and a text comes before those that it begins.
pub proof fn first_difference_decides(a: Seq<char>, x: char, b: Seq<char>, y: char, c: Seq<char>)
    ensures
        x < y ==> precedes(a + seq![x] + b, a + seq![y] + c),
        x < y ==> !precedes(a + seq![y] + c, a + seq![x] + b),
        precedes(a, a + seq![x] + b),
        !precedes(a + seq![x] + b, a),
    decreases a.len(),
{
    let p = a + seq![x] + b;
    let q = a + seq![y] + c;
    if a.len() == 0 {
        assert(p[0] == x && q[0] == y);
    } else {
        let t = a.skip(1);
        first_difference_decides(t, x, b, y, c);
        assert(p.skip(1) =~= t + seq![x] + b);
        assert(q.skip(1) =~= t + seq![y] + c);
        assert(p[0] == a[0] && q[0] == a[0]);
    }
}

} // verus!
