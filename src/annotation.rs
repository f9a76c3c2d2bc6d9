use vstd::prelude::*;
use vstd::std_specs::iter::IteratorSpec;
use vstd::string::{axiom_spec_iter, next_postcondition};
use crate::geometry::Point;

verus! {

/// The pieces of `s` between single spaces, empty pieces included: a string
/// with `k` spaces has `k + 1` pieces.
pub open spec fn split_spaces(s: Seq<char>) -> Seq<Seq<char>>
    decreases s.len(),
{
    if s.len() == 0 {
        seq![Seq::<char>::empty()]
    } else {
        let init = split_spaces(s.drop_last());
        if s.last() == ' ' {
            init.push(Seq::<char>::empty())
        } else {
            init.update(init.len() - 1, init.last().push(s.last()))
        }
    }
}

pub open spec fn is_digit(c: char) -> bool {
    '0' <= c <= '9'
}

/// The number written by a string of decimal digits.
pub open spec fn digits_value(t: Seq<char>) -> nat
    decreases t.len(),
{
    if t.len() == 0 {
        0
    } else {
        10 * digits_value(t.drop_last()) + (t.last() as nat - '0' as nat) as nat
    }
}

/// A token without its optional leading `+`.
pub open spec fn unsigned_part(t: Seq<char>) -> Seq<char> {
    if t.len() > 0 && t[0] == '+' { t.drop_first() } else { t }
}

/// Whether a token reads as a `usize`: an optional `+`, then one or more
/// decimal digits whose value fits.
pub open spec fn is_coordinate(t: Seq<char>) -> bool {
    let d = unsigned_part(t);
    &&& d.len() > 0
    &&& forall|i: int| 0 <= i < d.len() ==> is_digit(#[trigger] d[i])
    &&& digits_value(d) <= usize::MAX
}

/// The value of a token that reads as a coordinate.
pub open spec fn coordinate(t: Seq<char>) -> nat {
    digits_value(unsigned_part(t))
}

/// The points of the first `m` coordinate pairs of a record's tokens: pair
/// `k` is tokens `2k - 1` and `2k`, and is kept only when both read as
/// coordinates.
pub open spec fn pair_points(toks: Seq<Seq<char>>, m: nat) -> Seq<Point>
    decreases m,
{
    if m == 0 {
        Seq::empty()
    } else {
        let prev = pair_points(toks, (m - 1) as nat);
        let xs = toks[2 * m - 1 as int];
        let ys = toks[2 * m as int];
        if is_coordinate(xs) && is_coordinate(ys) {
            prev.push(Point { x: coordinate(xs) as usize, y: coordinate(ys) as usize })
        } else {
            prev
        }
    }
}

/// The landmark points of an annotation record: its first token is a header
/// and is skipped, the rest are read pairwise as x and y.
pub open spec fn record_points(s: Seq<char>) -> Seq<Point> {
    let toks = split_spaces(s);
    pair_points(toks, ((toks.len() - 1) / 2) as nat)
}

proof fn lemma_split_nonempty(s: Seq<char>)
    ensures
        split_spaces(s).len() >= 1,
    decreases s.len(),
{
    if s.len() > 0 {
        lemma_split_nonempty(s.drop_last());
    }
}

proof fn lemma_digits_grow(t: Seq<char>, i: int)
    requires
        0 <= i <= t.len(),
    ensures
        digits_value(t.take(i)) <= digits_value(t),
    decreases t.len() - i,
{
    if i < t.len() {
        lemma_digits_grow(t, i + 1);
        assert(t.take(i + 1).drop_last() == t.take(i));
    } else {
        assert(t.take(i) == t);
    }
}

/// Splits a record at single spaces.
fn split_record(s: &str) -> (r: Vec<Vec<char>>)
    ensures
        r@.len() == split_spaces(s@).len(),
        forall|j: int| 0 <= j < r@.len() ==> (#[trigger] r@[j])@ == split_spaces(s@)[j],
{
    broadcast use axiom_spec_iter, next_postcondition;

    let mut done: Vec<Vec<char>> = Vec::new();
    let mut cur: Vec<char> = Vec::new();
    let mut chars = s.chars();
    let ghost i: int = 0;
    loop
        invariant
            0 <= i <= s@.len(),
            chars.remaining() == s@.skip(i),
            done@.len() + 1 == split_spaces(s@.take(i)).len(),
            forall|j: int| 0 <= j < done@.len() ==> (#[trigger] done@[j])@ == split_spaces(s@.take(i))[j],
            cur@ == split_spaces(s@.take(i)).last(),
        decreases s@.len() - i,
    {
        proof {
            lemma_split_nonempty(s@.take(i));
        }
        match chars.next() {
            None => {
                proof {
                    assert(s@.skip(i).len() == 0);
                    assert(s@.take(i) == s@);
                }
                done.push(cur);
                return done;
            },
            Some(c) => {
                proof {
                    assert(s@.take(i + 1).drop_last() == s@.take(i));
                    assert(s@[i] == c);
                }
                if c == ' ' {
                    let finished = cur;
                    done.push(finished);
                    cur = Vec::new();
                } else {
                    cur.push(c);
                }
                proof {
                    i = i + 1;
                }
            },
        }
    }
}

/// Reads a token as a coordinate: an optional `+` and decimal digits whose
/// value fits in a `usize`.
pub fn parse_coordinate(t: &Vec<char>) -> (r: Option<usize>)
    ensures
        r == (if is_coordinate(t@) { Some(coordinate(t@) as usize) } else { None::<usize> }),
{
    let start: usize = if t.len() > 0 && t[0] == '+' { 1 } else { 0 };
    let ghost d = unsigned_part(t@);
    assert(d == t@.skip(start as int));
    if start >= t.len() {
        return None;
    }
    let mut value: usize = 0;
    let mut i: usize = start;
    while i < t.len()
        invariant
            start <= i <= t@.len(),
            d == t@.skip(start as int),
            d == unsigned_part(t@),
            d.len() > 0,
            value == digits_value(d.take(i - start)),
            forall|k: int| 0 <= k < i - start ==> is_digit(#[trigger] d[k]),
        decreases t@.len() - i,
    {
        let c = t[i];
        if !('0' <= c && c <= '9') {
            assert(!is_digit(d[i - start]));
            return None;
        }
        let digit = (c as u32 - '0' as u32) as usize;
        assert(d.take(i + 1 - start).drop_last() == d.take(i - start));
        assert(d.take(i + 1 - start).last() == c);
        assert(digits_value(d.take(i + 1 - start)) == 10 * value + digit);
        if value > (usize::MAX - digit) / 10 {
            proof {
                lemma_digits_grow(d, i + 1 - start);
                assert(10 * value + digit > usize::MAX) by (nonlinear_arith)
                    requires
                        value > (usize::MAX - digit) / 10,
                        digit <= 9,
                ;
            }
            return None;
        }
        value = value * 10 + digit;
        i = i + 1;
    }
    assert(d.take(i - start) == d);
    Some(value)
}

/// The landmark points of an annotation record. The first space-separated
/// token is a header and is skipped; the following tokens are read in pairs
/// as x and y, and a pair of which either token is not a coordinate is
/// dropped. A token left without a partner is ignored.
pub fn read_points(points_string: String) -> (r: Vec<Point>)
    ensures
        r@ == record_points(points_string@),
{
    let toks = split_record(points_string.as_str());
    let ghost stoks = split_spaces(points_string@);
    proof {
        lemma_split_nonempty(points_string@);
    }
    let pairs: usize = (toks.len() - 1) / 2;
    assert(2 * pairs + 1 <= toks@.len());
    let mut points: Vec<Point> = Vec::new();
    let mut k: usize = 0;
    while k < pairs
        invariant
            k <= pairs,
            pairs == (stoks.len() - 1) / 2,
            2 * pairs + 1 <= toks.len(),
            toks@.len() == stoks.len(),
            forall|j: int| 0 <= j < toks@.len() ==> (#[trigger] toks@[j])@ == stoks[j],
            points@ == pair_points(stoks, k as nat),
        decreases pairs - k,
    {
        let x = parse_coordinate(&toks[2 * k + 1]);
        let y = parse_coordinate(&toks[2 * k + 2]);
        match (x, y) {
            (Some(x), Some(y)) => {
                points.push(Point { x, y });
            },
            _ => {},
        }
        k = k + 1;
    }
    points
}

} // verus!
