//! Putting ranked positions in order.

use vstd::prelude::*;

verus! {

/// What a position is ordered by: first `pin`, then `main`, then `tie`, and at
/// last the position itself; smaller numbers come first.
#[derive(Debug, Clone, Copy)]
pub struct Rank {
    pub pin: i128,
    pub main: i128,
    pub tie: i128,
    pub place: usize,
}

impl Rank {
    /// Whether this rank comes before another.
    pub open spec fn before(self, other: Rank) -> bool {
        ||| self.pin < other.pin
        ||| self.pin == other.pin && self.main < other.main
        ||| self.pin == other.pin && self.main == other.main && self.tie < other.tie
        ||| self.pin == other.pin && self.main == other.main && self.tie == other.tie && self.place
            < other.place
    }

    /// Whether this rank comes before another.
    fn is_before(&self, other: &Rank) -> (r: bool)
        ensures
            r == self.before(*other),
    {
        if self.pin != other.pin {
            self.pin < other.pin
        } else if self.main != other.main {
            self.main < other.main
        } else if self.tie != other.tie {
            self.tie < other.tie
        } else {
            self.place < other.place
        }
    }
}

/// Whether no rank comes after one that it should come before.
pub open spec fn in_order(v: Seq<Rank>) -> bool {
    forall|i: int, j: int| 0 <= i < j < v.len() ==> !(#[trigger] v[j]).before(#[trigger] v[i])
}

/// Two ordered lists as one.
fn merged(a: &Vec<Rank>, b: &Vec<Rank>) -> (r: Vec<Rank>)
    requires
        in_order(a@),
        in_order(b@),
    ensures
        in_order(r@),
        r@.to_multiset() == a@.to_multiset().add(b@.to_multiset()),
{
    broadcast use vstd::seq_lib::group_to_multiset_ensures;

    let mut out: Vec<Rank> = Vec::new();
    let mut i: usize = 0;
    let mut j: usize = 0;
    assert(out@.to_multiset() =~= a@.take(0).to_multiset().add(b@.take(0).to_multiset()));
    while i < a.len() || j < b.len()
        invariant
            i <= a@.len(),
            j <= b@.len(),
            in_order(a@),
            in_order(b@),
            in_order(out@),
            forall|p: int, q: int|
                0 <= p < out@.len() && i <= q < a@.len() ==> !(#[trigger] a@[q]).before(
                    #[trigger] out@[p],
                ),
            forall|p: int, q: int|
                0 <= p < out@.len() && j <= q < b@.len() ==> !(#[trigger] b@[q]).before(
                    #[trigger] out@[p],
                ),
            out@.to_multiset() == a@.take(i as int).to_multiset().add(
                b@.take(j as int).to_multiset(),
            ),
        decreases a@.len() - i + b@.len() - j,
    {
        broadcast use vstd::seq_lib::group_to_multiset_ensures;

        let from_a = if i == a.len() {
            false
        } else if j == b.len() {
            true
        } else {
            !b[j].is_before(&a[i])
        };
        let ghost before = out@;
        if from_a {
            assert(a@.take(i + 1) =~= a@.take(i as int).push(a@[i as int]));
            out.push(a[i]);
            assert(out@ == before.push(a@[i as int]));
            i += 1;
        } else {
            assert(b@.take(j + 1) =~= b@.take(j as int).push(b@[j as int]));
            out.push(b[j]);
            assert(out@ == before.push(b@[j as int]));
            j += 1;
        }
        assert(out@.to_multiset() =~= a@.take(i as int).to_multiset().add(
            b@.take(j as int).to_multiset(),
        ));
    }
    assert(a@.take(i as int) =~= a@);
    assert(b@.take(j as int) =~= b@);
    out
}

/// The ranks `v[from..to]` in order.
fn sorted_range(v: &Vec<Rank>, from: usize, to: usize) -> (r: Vec<Rank>)
    requires
        from <= to <= v@.len(),
    ensures
        in_order(r@),
        r@.to_multiset() == v@.subrange(from as int, to as int).to_multiset(),
    decreases to - from,
{
    if to - from <= 1 {
        let mut out: Vec<Rank> = Vec::new();
        if from < to {
            out.push(v[from]);
        }
        assert(out@ =~= v@.subrange(from as int, to as int));
        return out;
    }
    let mid = from + (to - from) / 2;
    let a = sorted_range(v, from, mid);
    let b = sorted_range(v, mid, to);
    proof {
        let x = v@.subrange(from as int, mid as int);
        let y = v@.subrange(mid as int, to as int);
        assert(v@.subrange(from as int, to as int) =~= x + y);
        vstd::seq_lib::lemma_multiset_commutative(x, y);
    }
    merged(&a, &b)
}

/// The ranks in order.
pub fn sorted(v: &Vec<Rank>) -> (r: Vec<Rank>)
    ensures
        in_order(r@),
        r@.to_multiset() == v@.to_multiset(),
{
    assert(v@.subrange(0, v@.len() as int) =~= v@);
    sorted_range(v, 0, v.len())
}

/// Ranks of different places stand in strict order once they are sorted: each
/// before all that follow it, and none lost or added.
pub proof fn sorted_strictly(ranks: Seq<Rank>, r: Seq<Rank>)
    requires
        in_order(r),
        r.to_multiset() == ranks.to_multiset(),
        forall|a: int, b: int|
            0 <= a < b < ranks.len() ==> (#[trigger] ranks[a]).place != (#[trigger] ranks[b]).place,
    ensures
        r.len() == ranks.len(),
        forall|k: int| 0 <= k < r.len() ==> ranks.contains(#[trigger] r[k]),
        forall|a: int| 0 <= a < ranks.len() ==> r.contains(#[trigger] ranks[a]),
        forall|k: int, l: int| 0 <= k < l < r.len() ==> (#[trigger] r[k]).before(#[trigger] r[l]),
        forall|k: int, l: int|
            0 <= k < l < r.len() ==> (#[trigger] r[k]).place != (#[trigger] r[l]).place,
{
    broadcast use vstd::seq_lib::group_to_multiset_ensures;

    assert(r.len() == r.to_multiset().len());
    assert(ranks.len() == ranks.to_multiset().len());
    assert(ranks.no_duplicates());
    ranks.lemma_multiset_has_no_duplicates();
    r.lemma_multiset_has_no_duplicates_conv();
    assert forall|k: int| 0 <= k < r.len() implies ranks.contains(#[trigger] r[k]) by {
        assert(r.contains(r[k]));
        assert(r.to_multiset().count(r[k]) > 0);
    }
    assert forall|a: int| 0 <= a < ranks.len() implies r.contains(#[trigger] ranks[a]) by {
        assert(ranks.contains(ranks[a]));
        assert(ranks.to_multiset().count(ranks[a]) > 0);
    }
    assert forall|k: int, l: int| 0 <= k < l < r.len() implies (#[trigger] r[k]).place != (
    #[trigger] r[l]).place by {
        let a = choose|a: int| 0 <= a < ranks.len() && ranks[a] == r[k];
        let b = choose|b: int| 0 <= b < ranks.len() && ranks[b] == r[l];
        assert(r[k] != r[l]);
        assert(a != b);
        if a < b {
            assert(ranks[a].place != ranks[b].place);
        } else {
            assert(ranks[b].place != ranks[a].place);
        }
    }
    assert forall|k: int, l: int| 0 <= k < l < r.len() implies (#[trigger] r[k]).before(
        #[trigger] r[l],
    ) by {
        assert(!r[l].before(r[k]));
        assert(r[k].place != r[l].place);
    }
}

} // verus!
