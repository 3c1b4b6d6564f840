//! The tally of one user: items in the order they were first drawn, each with
//! the number of times it was drawn.
use indexmap::IndexMap;
use vstd::prelude::*;

verus! {

#[verifier::external_type_specification]
#[verifier::external_body]
#[verifier::reject_recursive_types(K)]
#[verifier::reject_recursive_types(V)]
#[verifier::reject_recursive_types(S)]
pub struct ExIndexMap<K, V, S>(IndexMap<K, V, S>);

/// The pairs an `IndexMap<String, usize>` holds, in its iteration order.
pub uninterp spec fn tally_of(m: IndexMap<String, usize>) -> Seq<(Seq<char>, usize)>;

/// Relies on `IndexMap::new`: a new map holds no pairs.
#[verifier::external_body]
fn tally_new() -> (r: IndexMap<String, usize>)
    ensures
        tally_of(r) == Seq::<(Seq<char>, usize)>::empty(),
{
    IndexMap::new()
}

/// Relies on `IndexMap::len`: the number of pairs held.
#[verifier::external_body]
fn tally_len(m: &IndexMap<String, usize>) -> (r: usize)
    ensures
        r == tally_of(*m).len(),
{
    m.len()
}

/// Relies on `IndexMap::get_index_of`: the position of the pair whose key
/// equals `key`, if there is one.
#[verifier::external_body]
fn tally_index_of(m: &IndexMap<String, usize>, key: &String) -> (r: Option<usize>)
    ensures
        match r {
            Some(i) => i < tally_of(*m).len() && tally_of(*m)[i as int].0 == key@,
            None => forall|i: int| 0 <= i < tally_of(*m).len() ==> tally_of(*m)[i].0 != key@,
        },
{
    m.get_index_of(key)
}

/// Relies on `IndexMap::get_index`: the pair at position `i` (valid indices
/// are below `len`).
#[verifier::external_body]
fn tally_get_index(m: &IndexMap<String, usize>, i: usize) -> (r: (&String, usize))
    requires
        i < tally_of(*m).len(),
    ensures
        r.0@ == tally_of(*m)[i as int].0,
        r.1 == tally_of(*m)[i as int].1,
{
    let (k, v) = m.get_index(i).unwrap();
    (k, *v)
}

/// Relies on `IndexMap::insert`: an existing key keeps its place and takes
/// the new value; a new key is added last.
#[verifier::external_body]
fn tally_insert(m: &mut IndexMap<String, usize>, key: String, value: usize)
    ensures
        (exists|i: int| 0 <= i < tally_of(*old(m)).len() && tally_of(*old(m))[i].0 == key@)
            ==> (forall|i: int|
            0 <= i < tally_of(*old(m)).len() && tally_of(*old(m))[i].0 == key@
                ==> tally_of(*final(m)) == tally_of(*old(m)).update(i, (key@, value))),
        (forall|i: int| 0 <= i < tally_of(*old(m)).len() ==> tally_of(*old(m))[i].0 != key@)
            ==> tally_of(*final(m)) == tally_of(*old(m)).push((key@, value)),
{
    m.insert(key, value);
}

/// Whether `x` is the key of some pair of `e`.
pub open spec fn has_item(e: Seq<(Seq<char>, usize)>, x: Seq<char>) -> bool {
    exists|i: int| 0 <= i < e.len() && e[i].0 == x
}

/// The position of the pair keyed `x` (meaningful when `has_item(e, x)`).
pub open spec fn position(e: Seq<(Seq<char>, usize)>, x: Seq<char>) -> int {
    choose|i: int| 0 <= i < e.len() && e[i].0 == x
}

/// How many of `x` the tally `e` records.
pub open spec fn count_in(e: Seq<(Seq<char>, usize)>, x: Seq<char>) -> int {
    if has_item(e, x) {
        e[position(e, x)].1 as int
    } else {
        0
    }
}

/// A well-formed tally: keys are distinct and every count is positive.
pub open spec fn tally_wf(e: Seq<(Seq<char>, usize)>) -> bool {
    &&& forall|i: int, j: int| 0 <= i < e.len() && 0 <= j < e.len() && i != j ==> e[i].0 != e[j].0
    &&& forall|i: int| 0 <= i < e.len() ==> e[i].1 >= 1
}

/// Every count of `e` can grow by `n` without leaving `usize`.
pub open spec fn has_room(e: Seq<(Seq<char>, usize)>, n: int) -> bool {
    forall|i: int| 0 <= i < e.len() ==> e[i].1 + n <= usize::MAX
}

/// The tally after drawing `x` once: its count goes up by one, or it is
/// appended with count one.
pub open spec fn add_item(e: Seq<(Seq<char>, usize)>, x: Seq<char>) -> Seq<(Seq<char>, usize)> {
    if has_item(e, x) {
        e.update(position(e, x), (x, (e[position(e, x)].1 + 1) as usize))
    } else {
        e.push((x, 1usize))
    }
}

/// The tally after drawing each item of `s`, in order.
pub open spec fn add_all(e: Seq<(Seq<char>, usize)>, s: Seq<Seq<char>>) -> Seq<(Seq<char>, usize)>
    decreases s.len(),
{
    if s.len() == 0 {
        e
    } else {
        add_item(add_all(e, s.drop_last()), s.last())
    }
}

/// The text of each string of `v`.
pub open spec fn texts(v: Seq<String>) -> Seq<Seq<char>> {
    v.map_values(|s: String| s@)
}

proof fn lemma_add_item_wf(e: Seq<(Seq<char>, usize)>, x: Seq<char>)
    requires
        tally_wf(e),
        has_room(e, 1),
    ensures
        tally_wf(add_item(e, x)),
        add_item(e, x).len() == if has_item(e, x) { e.len() } else { e.len() + 1 },
        forall|i: int| 0 <= i < e.len() ==> #[trigger] add_item(e, x)[i].0 == e[i].0,
{
    let r = add_item(e, x);
    if has_item(e, x) {
        assert forall|i: int| 0 <= i < r.len() implies r[i].0 == e[i].0 by {}
    } else {
        assert forall|i: int| 0 <= i < e.len() implies r[i] == e[i] by {}
        assert(r[e.len() as int].0 == x);
    }
}

proof fn lemma_add_item_room(e: Seq<(Seq<char>, usize)>, x: Seq<char>, n: int)
    requires
        tally_wf(e),
        has_room(e, n),
        1 <= n <= usize::MAX,
    ensures
        has_room(add_item(e, x), n - 1),
{
    let r = add_item(e, x);
    assert forall|i: int| 0 <= i < r.len() implies r[i].1 + (n - 1) <= usize::MAX by {
        if i < e.len() {
            assert(e[i].1 + n <= usize::MAX);
        }
    }
}

proof fn lemma_add_all_wf(e: Seq<(Seq<char>, usize)>, s: Seq<Seq<char>>, n: int)
    requires
        tally_wf(e),
        has_room(e, n),
        s.len() <= n <= usize::MAX,
    ensures
        tally_wf(add_all(e, s)),
        has_room(add_all(e, s), n - s.len()),
    decreases s.len(),
{
    if s.len() > 0 {
        lemma_add_all_wf(e, s.drop_last(), n);
        lemma_add_item_wf(add_all(e, s.drop_last()), s.last());
        lemma_add_item_room(add_all(e, s.drop_last()), s.last(), n - s.drop_last().len());
    }
}

proof fn lemma_count_add_item(e: Seq<(Seq<char>, usize)>, y: Seq<char>, x: Seq<char>)
    requires
        tally_wf(e),
        has_room(e, 1),
    ensures
        count_in(add_item(e, y), x) == count_in(e, x) + if x == y { 1int } else { 0int },
{
    lemma_add_item_wf(e, y);
    let r = add_item(e, y);
    if has_item(e, y) {
        let p = position(e, y);
        assert(r[p].0 == y);
        if x == y {
            assert(has_item(r, x));
            assert(position(r, x) == p);
        } else if has_item(e, x) {
            let q = position(e, x);
            assert(r[q] == e[q]);
            assert(has_item(r, x));
            assert(position(r, x) == q);
        } else {
            if has_item(r, x) {
                let q = position(r, x);
                assert(e[q].0 == x);
            }
        }
    } else {
        assert(r[e.len() as int].0 == y);
        if x == y {
            assert(has_item(r, x));
            assert(position(r, x) == e.len());
        } else if has_item(e, x) {
            let q = position(e, x);
            assert(r[q] == e[q]);
            assert(has_item(r, x));
            assert(position(r, x) == q);
        } else {
            if has_item(r, x) {
                let q = position(r, x);
                assert(q < e.len());
                assert(e[q].0 == x);
            }
        }
    }
}

/// Tally law: after any sequence of draws, the count of an item is its
/// count before plus the number of times it was drawn.
pub proof fn lemma_count_is_draws(e: Seq<(Seq<char>, usize)>, s: Seq<Seq<char>>, x: Seq<char>)
    requires
        tally_wf(e),
        has_room(e, s.len() as int),
        s.len() <= usize::MAX,
    ensures
        count_in(add_all(e, s), x) == count_in(e, x) + s.to_multiset().count(x),
        tally_wf(add_all(e, s)),
        has_item(add_all(e, s), x) <==> count_in(add_all(e, s), x) > 0,
    decreases s.len(),
{
    broadcast use vstd::seq_lib::group_to_multiset_ensures;
    lemma_add_all_wf(e, s, s.len() as int);
    if s.len() == 0 {
        assert(s.to_multiset().count(x) == 0);
    } else {
        let t = s.drop_last();
        lemma_count_is_draws(e, t, x);
        lemma_add_all_wf(e, t, s.len() as int);
        lemma_count_add_item(add_all(e, t), s.last(), x);
        assert(t.push(s.last()) =~= s);
    }
}

/// The batches of `bs` one after the other.
pub open spec fn concat_batches(bs: Seq<Seq<Seq<char>>>) -> Seq<Seq<char>>
    decreases bs.len(),
{
    if bs.len() == 0 {
        Seq::empty()
    } else {
        concat_batches(bs.drop_last()) + bs.last()
    }
}

/// The tally after merging each batch of `bs`, in order.
pub open spec fn add_batches(e: Seq<(Seq<char>, usize)>, bs: Seq<Seq<Seq<char>>>) -> Seq<
    (Seq<char>, usize),
>
    decreases bs.len(),
{
    if bs.len() == 0 {
        e
    } else {
        add_all(add_batches(e, bs.drop_last()), bs.last())
    }
}

/// Tally law over any number of merges: the count of an item is its count
/// before plus the number of times it occurs in all the batches, and an
/// item is present exactly when that number is positive.
pub proof fn lemma_batches_count(
    e: Seq<(Seq<char>, usize)>,
    bs: Seq<Seq<Seq<char>>>,
    x: Seq<char>,
)
    requires
        tally_wf(e),
        has_room(e, concat_batches(bs).len() as int),
        concat_batches(bs).len() <= usize::MAX,
    ensures
        add_batches(e, bs) == add_all(e, concat_batches(bs)),
        count_in(add_batches(e, bs), x) == count_in(e, x) + concat_batches(bs).to_multiset().count(x),
        tally_wf(add_batches(e, bs)),
        has_item(add_batches(e, bs), x) <==> count_in(add_batches(e, bs), x) > 0,
{
    lemma_batches_concat(e, bs);
    lemma_count_is_draws(e, concat_batches(bs), x);
}

proof fn lemma_batches_concat(e: Seq<(Seq<char>, usize)>, bs: Seq<Seq<Seq<char>>>)
    ensures
        add_batches(e, bs) == add_all(e, concat_batches(bs)),
    decreases bs.len(),
{
    if bs.len() > 0 {
        lemma_batches_concat(e, bs.drop_last());
        lemma_merges_compose(e, concat_batches(bs.drop_last()), bs.last());
    }
}

/// Tally law: two successive merges leave the tally that one merge of the
/// two batches, one after the other, leaves.
pub proof fn lemma_merges_compose(e: Seq<(Seq<char>, usize)>, a: Seq<Seq<char>>, b: Seq<Seq<char>>)
    ensures
        add_all(add_all(e, a), b) == add_all(e, a + b),
    decreases b.len(),
{
    if b.len() == 0 {
        assert(a + b =~= a);
    } else {
        lemma_merges_compose(e, a, b.drop_last());
        assert((a + b).drop_last() =~= a + b.drop_last());
        assert((a + b).last() == b.last());
    }
}

/// Tally law: the counts after a batch of draws do not depend on the order
/// in which the draws were applied.
pub proof fn lemma_counts_ignore_order(
    e: Seq<(Seq<char>, usize)>,
    s: Seq<Seq<char>>,
    t: Seq<Seq<char>>,
    x: Seq<char>,
)
    requires
        tally_wf(e),
        has_room(e, s.len() as int),
        s.len() <= usize::MAX,
        s.to_multiset() == t.to_multiset(),
    ensures
        count_in(add_all(e, s), x) == count_in(add_all(e, t), x),
{
    broadcast use vstd::seq_lib::group_to_multiset_ensures;
    assert(s.to_multiset().len() == s.len());
    assert(t.to_multiset().len() == t.len());
    lemma_count_is_draws(e, s, x);
    lemma_count_is_draws(e, t, x);
}

/// Order law: an item keeps the place where it was first drawn, whatever
/// is drawn afterwards.
pub proof fn lemma_first_seen_order_stable(e: Seq<(Seq<char>, usize)>, s: Seq<Seq<char>>)
    ensures
        add_all(e, s).len() >= e.len(),
        forall|k: int| 0 <= k < e.len() ==> #[trigger] add_all(e, s)[k].0 == e[k].0,
    decreases s.len(),
{
    if s.len() > 0 {
        let t = s.drop_last();
        lemma_first_seen_order_stable(e, t);
        let f = add_all(e, t);
        let y = s.last();
        assert forall|k: int| 0 <= k < f.len() implies add_item(f, y)[k].0 == f[k].0 by {}
    }
}

/// The text and count of each pair of `v`.
pub open spec fn pairs_view(v: Seq<(String, usize)>) -> Seq<(Seq<char>, usize)> {
    v.map_values(|p: (String, usize)| (p.0@, p.1))
}

/// The items one user has drawn, with their counts, in first-drawn order.
pub struct Album {
    tally: IndexMap<String, usize>,
}

impl Album {
    pub closed spec fn view(&self) -> Seq<(Seq<char>, usize)> {
        tally_of(self.tally)
    }

    pub open spec fn wf(&self) -> bool {
        tally_wf(self@)
    }

    /// An album with nothing in it.
    pub fn new() -> (r: Album)
        ensures
            r@ == Seq::<(Seq<char>, usize)>::empty(),
            r.wf(),
    {
        Album { tally: tally_new() }
    }

    /// The number of distinct items.
    pub fn len(&self) -> (r: usize)
        ensures
            r == self@.len(),
    {
        tally_len(&self.tally)
    }

    /// Whether every count can grow by `n` within `usize`.
    pub fn has_room_for(&self, n: usize) -> (r: bool)
        ensures
            r == has_room(self@, n as int),
    {
        let len = tally_len(&self.tally);
        let mut i: usize = 0;
        while i < len
            invariant
                len == self@.len(),
                i <= len,
                forall|j: int| 0 <= j < i ==> self@[j].1 + n <= usize::MAX,
            decreases len - i,
        {
            let (_, c) = tally_get_index(&self.tally, i);
            if c > usize::MAX - n {
                return false;
            }
            i = i + 1;
        }
        true
    }

    /// Records one draw of each item of `items`, in order. When some count
    /// could overflow, nothing changes and the result is `false`.
    pub fn merge(&mut self, items: &Vec<String>) -> (ok: bool)
        requires
            old(self).wf(),
        ensures
            final(self).wf(),
            ok == has_room(old(self)@, items.len() as int),
            ok ==> final(self)@ == add_all(old(self)@, texts(items@)),
            !ok ==> final(self)@ == old(self)@,
    {
        if !self.has_room_for(items.len()) {
            return false;
        }
        let ghost start = self@;
        let ghost s = texts(items@);
        let mut k: usize = 0;
        while k < items.len()
            invariant
                k <= items.len(),
                s == texts(items@),
                self.wf(),
                self@ == add_all(start, s.take(k as int)),
                has_room(self@, items.len() - k),
            decreases items.len() - k,
        {
            proof {
                lemma_add_item_room(self@, items@[k as int]@, items.len() - k);
                assert(s.take(k + 1).drop_last() =~= s.take(k as int));
                assert(s.take(k + 1).last() == items@[k as int]@);
            }
            self.add(&items[k]);
            k = k + 1;
        }
        assert(s.take(items.len() as int) =~= s);
        true
    }

    /// The pairs of the album, in first-drawn order.
    pub fn entries(&self) -> (r: Vec<(String, usize)>)
        ensures
            pairs_view(r@) == self@,
    {
        let len = tally_len(&self.tally);
        let mut r: Vec<(String, usize)> = Vec::new();
        let mut i: usize = 0;
        assert(pairs_view(r@) =~= self@.take(0));
        while i < len
            invariant
                len == self@.len(),
                i <= len,
                r@.len() == i,
                pairs_view(r@) == self@.take(i as int),
            decreases len - i,
        {
            let (k, c) = tally_get_index(&self.tally, i);
            let ghost before = r@;
            let key = k.clone();
            r.push((key, c));
            assert(pairs_view(r@) =~= self@.take(i + 1)) by {
                assert(r@ == before.push((key, c)));
                assert forall|j: int| 0 <= j < i implies pairs_view(r@)[j] == pairs_view(before)[j] by {
                    assert(r@[j] == before[j]);
                }
                assert(pairs_view(r@)[i as int] == (key@, c));
            }
            i = i + 1;
        }
        assert(self@.take(len as int) =~= self@);
        r
    }

    /// Records one more draw of `item`.
    fn add(&mut self, item: &String)
        requires
            old(self).wf(),
            has_room(old(self)@, 1),
        ensures
            final(self)@ == add_item(old(self)@, item@),
            final(self).wf(),
    {
        proof {
            lemma_add_item_wf(self@, item@);
        }
        match tally_index_of(&self.tally, item) {
            Some(i) => {
                let (_, n) = tally_get_index(&self.tally, i);
                assert(position(self@, item@) == i as int);
                tally_insert(&mut self.tally, item.clone(), n + 1);
            },
            None => {
                tally_insert(&mut self.tally, item.clone(), 1);
            },
        }
    }
}

} // verus!
