//! The fixed pool of items that draws are taken from.
use crate::album::texts;
use rand::rngs::{EntropyRng, StdRng};
use rand::seq::IteratorRandom;
use rand::SeedableRng;
use vstd::prelude::*;

verus! {

#[verifier::external_type_specification]
#[verifier::external_body]
pub struct ExStdRng(StdRng);

/// Whether `c` has the Unicode `White_Space` property, which is what
/// `char::is_whitespace` tests.
pub open spec fn is_white_space(c: char) -> bool {
    ('\u{9}' <= c && c <= '\u{d}') || c == '\u{20}' || c == '\u{85}' || c == '\u{a0}'
        || c == '\u{1680}' || ('\u{2000}' <= c && c <= '\u{200a}') || c == '\u{2028}'
        || c == '\u{2029}' || c == '\u{202f}' || c == '\u{205f}' || c == '\u{3000}'
}

/// `s` without its trailing white space.
pub open spec fn trim_end_spec(s: Seq<char>) -> Seq<char>
    decreases s.len(),
{
    if s.len() > 0 && is_white_space(s.last()) {
        trim_end_spec(s.drop_last())
    } else {
        s
    }
}

/// Relies on `str::trim_end`: the text without its trailing characters for
/// which `char::is_whitespace` holds.
#[verifier::external_body]
fn trim_end(s: &str) -> (r: &str)
    ensures
        r@ == trim_end_spec(s@),
{
    s.trim_end()
}

/// Relies on `String::push`: appends one character.
#[verifier::external_body]
fn push_char(s: &mut String, c: char)
    ensures
        final(s)@ == old(s)@.push(c),
{
    s.push(c)
}

/// Relies on `SeedableRng::from_rng` fed by `EntropyRng::new`: a generator
/// seeded afresh from the system's entropy, or `None` when every entropy
/// source fails.
#[verifier::external_body]
fn fresh_rng() -> (r: Option<StdRng>) {
    StdRng::from_rng(EntropyRng::new()).ok()
}

/// Relies on `IteratorRandom::choose_multiple` over `0..len`: a reservoir
/// sample, so the positions are distinct and below `len`, and there are
/// `amount` of them.
#[verifier::external_body]
fn choose_positions(rng: &mut StdRng, len: usize, amount: usize) -> (r: Vec<usize>)
    requires
        amount <= len,
    ensures
        r@.len() == amount,
        forall|i: int| 0 <= i < r@.len() ==> r@[i] < len,
        forall|i: int, j: int| 0 <= i < r@.len() && 0 <= j < r@.len() && i != j ==> r@[i] != r@[j],
{
    (0..len).choose_multiple(rng, amount)
}

/// The lines of `s`: the text between line feeds (one empty line for an
/// empty text).
pub open spec fn lines_spec(s: Seq<char>) -> Seq<Seq<char>>
    decreases s.len(),
{
    if s.len() == 0 {
        seq![Seq::<char>::empty()]
    } else {
        let r = lines_spec(s.drop_last());
        if s.last() == '\n' {
            r.push(Seq::<char>::empty())
        } else {
            r.update(r.len() - 1, r.last().push(s.last()))
        }
    }
}

proof fn lemma_lines_nonempty(s: Seq<char>)
    ensures
        lines_spec(s).len() >= 1,
    decreases s.len(),
{
    if s.len() > 0 {
        lemma_lines_nonempty(s.drop_last());
    }
}

/// `r` holds `count` items of `pool`, taken at distinct positions.
pub open spec fn is_sample_of(pool: Seq<Seq<char>>, r: Seq<Seq<char>>, count: nat) -> bool {
    &&& r.len() == count
    &&& exists|pos: Seq<int>|
        {
            &&& pos.len() == r.len()
            &&& forall|i: int| 0 <= i < pos.len() ==> 0 <= #[trigger] pos[i] < pool.len()
            &&& forall|i: int, j: int|
                0 <= i < pos.len() && 0 <= j < pos.len() && i != j ==> pos[i] != pos[j]
            &&& forall|i: int| 0 <= i < r.len() ==> #[trigger] r[i] == pool[pos[i]]
        }
}

/// The items that can be drawn, in the order they were listed; never empty.
pub struct Pool {
    items: Vec<String>,
}

impl Pool {
    pub closed spec fn view(&self) -> Seq<Seq<char>> {
        texts(self.items@)
    }

    pub open spec fn wf(&self) -> bool {
        self@.len() >= 1
    }

    /// A pool of the given items; `None` when there are none.
    pub fn from_items(items: Vec<String>) -> (r: Option<Pool>)
        ensures
            items@.len() == 0 <==> r is None,
            r matches Some(p) ==> p@ == texts(items@) && p.wf(),
    {
        if items.len() == 0 {
            None
        } else {
            Some(Pool { items })
        }
    }

    /// A pool read from a list of items, one per line, whose trailing
    /// whitespace is already removed; `None` when the list is empty.
    pub fn from_trimmed(text: &str) -> (r: Option<Pool>)
        ensures
            text@.len() == 0 <==> r is None,
            r matches Some(p) ==> p@ == lines_spec(text@) && p.wf(),
    {
        if text.is_empty() {
            return None;
        }
        broadcast use vstd::string::axiom_spec_iter;
        let mut lines: Vec<String> = Vec::new();
        let mut cur = String::new();
        for c in it: text.chars()
            invariant
                it.seq() == text@,
                texts(lines@).push(cur@) == lines_spec(text@.take(it.index() as int)),
        {
            let ghost idx = it.index() as int;
            proof {
                lemma_lines_nonempty(text@.take(idx));
                assert(it.seq() == text@);
                assert(c == text@[idx]);
                assert(text@.take(idx + 1).drop_last() =~= text@.take(idx));
                assert(text@.take(idx + 1).last() == c);
            }
            if c == '\n' {
                lines.push(cur);
                cur = String::new();
            } else {
                push_char(&mut cur, c);
            }
        }
        lines.push(cur);
        assert(text@.take(text@.len() as int) =~= text@);
        Some(Pool { items: lines })
    }

    /// A pool read from a list of items, one per line: trailing whitespace is
    /// removed first, and `None` comes back when nothing is left.
    pub fn load(text: &str) -> (r: Option<Pool>)
        ensures
            trim_end_spec(text@).len() == 0 <==> r is None,
            r matches Some(p) ==> p@ == lines_spec(trim_end_spec(text@)) && p.wf(),
    {
        Pool::from_trimmed(trim_end(text))
    }

    /// The items, in the order they were listed.
    pub fn items(&self) -> (r: &Vec<String>)
        ensures
            texts(r@) == self@,
    {
        &self.items
    }

    /// The number of items.
    pub fn len(&self) -> (r: usize)
        ensures
            r == self@.len(),
    {
        self.items.len()
    }

    /// The items at the given positions, in the order of the positions.
    pub fn pick(&self, positions: &Vec<usize>) -> (r: Vec<String>)
        requires
            forall|i: int| 0 <= i < positions@.len() ==> positions@[i] < self@.len(),
        ensures
            r@.len() == positions@.len(),
            forall|i: int| 0 <= i < r@.len() ==> #[trigger] r@[i]@ == self@[positions@[i] as int],
    {
        let mut r: Vec<String> = Vec::new();
        let mut k: usize = 0;
        while k < positions.len()
            invariant
                k <= positions@.len(),
                r@.len() == k,
                forall|i: int| 0 <= i < positions@.len() ==> positions@[i] < self@.len(),
                forall|i: int| 0 <= i < k ==> #[trigger] r@[i]@ == self@[positions@[i] as int],
            decreases positions@.len() - k,
        {
            let item = self.items[positions[k]].clone();
            r.push(item);
            k = k + 1;
        }
        r
    }

    /// `n` items drawn at random from distinct positions of the pool (all of
    /// them, in a random order, when the pool holds fewer than `n`), from a
    /// generator seeded afresh for this call; `None` when no generator could
    /// be seeded.
    pub fn sample(&self, n: usize) -> (r: Option<Vec<String>>)
        ensures
            r matches Some(v) ==> is_sample_of(
                self@,
                texts(v@),
                if n <= self@.len() { n as nat } else { self@.len() },
            ),
    {
        let mut rng = match fresh_rng() {
            Some(rng) => rng,
            None => return None,
        };
        let len = self.items.len();
        let amount = if n <= len { n } else { len };
        let positions = choose_positions(&mut rng, len, amount);
        let r = self.pick(&positions);
        let ghost pos = positions@.map_values(|p: usize| p as int);
        assert(texts(r@).len() == pos.len());
        assert(forall|i: int| 0 <= i < texts(r@).len() ==> #[trigger] texts(r@)[i] == self@[pos[i]]);
        Some(r)
    }
}

} // verus!
