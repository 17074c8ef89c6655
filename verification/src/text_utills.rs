//! Padding of text with a repeated filler on both sides.

use vstd::prelude::*;
use vstd::string::*;

verus! {

/// `fill` written `count` times in a row.
pub open spec fn repeated(fill: Seq<char>, count: nat) -> Seq<char>
    decreases count,
{
    if count == 0 {
        Seq::empty()
    } else {
        repeated(fill, (count - 1) as nat) + fill
    }
}

/// `text` with `fill` written `count` times before it and `count` times
/// after it.
pub open spec fn padded(text: Seq<char>, fill: Seq<char>, count: nat) -> Seq<char> {
    repeated(fill, count) + text + repeated(fill, count)
}

/// `text` with one space on either side.
pub open spec fn spaced(text: Seq<char>) -> Seq<char> {
    padded(text, seq![' '], 1)
}

fn repeat(fill: &str, count: usize) -> (r: String)
    ensures
        r@ == repeated(fill@, count as nat),
{
    let mut out = String::new();
    let mut k: usize = 0;
    while k < count
        invariant
            k <= count,
            out@ == repeated(fill@, k as nat),
        decreases count - k,
    {
        out.append(fill);
        k += 1;
    }
    out
}

/// Pads `text` with `count` copies of `fill` on either side.
pub fn pad(text: &str, fill: &str, count: usize) -> (r: String)
    ensures
        r@ == padded(text@, fill@, count as nat),
{
    let side = repeat(fill, count);
    side.clone().concat(text).concat(side.as_str())
}

/// Pads `text` with one space on either side.
pub fn p(text: &str) -> (r: String)
    ensures
        r@ == spaced(text@),
        r@ == seq![' '] + text@ + seq![' '],
{
    proof {
        reveal_strlit(" ");
        assert(" "@ =~= seq![' ']);
        assert(repeated(seq![' '], 1) =~= seq![' ']) by {
            assert(repeated(seq![' '], 0) =~= Seq::<char>::empty());
        }
    }
    pad(text, " ", 1)
}

} // verus!
