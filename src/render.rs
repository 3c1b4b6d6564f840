//! Display text: the reply to a roll and the picture of an album.
use crate::album::{pairs_view, texts};
use vstd::prelude::*;

verus! {

/// The parts of `s` joined with no separator, last part first.
pub open spec fn join_reversed_spec(s: Seq<Seq<char>>) -> Seq<char>
    decreases s.len(),
{
    if s.len() == 0 {
        Seq::empty()
    } else {
        join_reversed_spec(s.drop_first()) + s[0]
    }
}

/// `x` written `n` times.
pub open spec fn repeat_spec(x: Seq<char>, n: nat) -> Seq<char>
    decreases n,
{
    if n == 0 {
        Seq::empty()
    } else {
        repeat_spec(x, (n - 1) as nat) + x
    }
}

/// The three spaces that end each line of an album.
pub open spec fn line_end() -> Seq<char> {
    seq![' ', ' ', ' ']
}

/// The line of one pair: the item repeated by its count, then the line end.
pub open spec fn line_spec(p: (Seq<char>, usize)) -> Seq<char> {
    repeat_spec(p.0, p.1 as nat) + line_end()
}

/// The picture of an album: one line per item, last-drawn item first.
pub open spec fn render_spec(e: Seq<(Seq<char>, usize)>) -> Seq<char> {
    join_reversed_spec(e.map_values(|p: (Seq<char>, usize)| line_spec(p)))
}

/// The reply to a roll of `items`.
pub open spec fn roll_reply_spec(items: Seq<Seq<char>>) -> Seq<char> {
    "You have rolled: "@ + join_reversed_spec(items)
}

proof fn lemma_join_reversed_step(s: Seq<Seq<char>>, i: int)
    requires
        0 < i <= s.len(),
    ensures
        join_reversed_spec(s.subrange(i - 1, s.len() as int)) == join_reversed_spec(
            s.subrange(i, s.len() as int),
        ) + s[i - 1],
{
    assert(s.subrange(i - 1, s.len() as int).drop_first() =~= s.subrange(i, s.len() as int));
}

/// The strings of `parts` joined with no separator, in reverse order.
pub fn join_reversed(parts: &Vec<String>) -> (r: String)
    ensures
        r@ == join_reversed_spec(texts(parts@)),
{
    let ghost s = texts(parts@);
    let mut r = String::new();
    let mut i: usize = parts.len();
    assert(s.subrange(i as int, s.len() as int) =~= Seq::<Seq<char>>::empty());
    while i > 0
        invariant
            i <= parts.len(),
            s == texts(parts@),
            r@ == join_reversed_spec(s.subrange(i as int, s.len() as int)),
        decreases i,
    {
        proof {
            lemma_join_reversed_step(s, i as int);
        }
        r.append(parts[i - 1].as_str());
        i = i - 1;
    }
    assert(s.subrange(0, s.len() as int) =~= s);
    r
}

/// `x` written `n` times, then the line end.
fn line(x: &String, n: usize) -> (r: String)
    ensures
        r@ == line_spec((x@, n)),
{
    let mut r = String::new();
    let mut k: usize = 0;
    while k < n
        invariant
            k <= n,
            r@ == repeat_spec(x@, k as nat),
        decreases n - k,
    {
        r.append(x.as_str());
        k = k + 1;
    }
    r.append("   ");
    proof {
        reveal_strlit("   ");
        assert("   "@ =~= line_end());
    }
    r
}

/// The picture of an album given by its pairs in first-drawn order: for each
/// item, last-drawn first, the item repeated by its count and three spaces.
pub fn render(entries: &Vec<(String, usize)>) -> (r: String)
    ensures
        r@ == render_spec(pairs_view(entries@)),
{
    let ghost e = pairs_view(entries@);
    let mut lines: Vec<String> = Vec::new();
    let mut i: usize = 0;
    while i < entries.len()
        invariant
            i <= entries.len(),
            e == pairs_view(entries@),
            lines@.len() == i,
            forall|j: int| 0 <= j < i ==> #[trigger] lines@[j]@ == line_spec(e[j]),
        decreases entries.len() - i,
    {
        let l = line(&entries[i].0, entries[i].1);
        lines.push(l);
        i = i + 1;
    }
    let r = join_reversed(&lines);
    assert(texts(lines@) =~= e.map_values(|p: (Seq<char>, usize)| line_spec(p)));
    r
}

/// The reply to a roll: the drawn items joined in reverse order of drawing.
pub fn roll_reply(items: &Vec<String>) -> (r: String)
    ensures
        r@ == roll_reply_spec(texts(items@)),
{
    let joined = join_reversed(items);
    let mut r = String::from_str("You have rolled: ");
    r.append(joined.as_str());
    r
}

} // verus!
