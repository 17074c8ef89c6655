//! The template engine: positional tokens of the shape `#$<index>#` are
//! replaced, pair by pair, against the text as it stands after the pairs
//! before.

use vstd::prelude::*;
use vstd::string::*;

verus! {

/// Whether `from` stands in `s` at position `k`.
pub open spec fn occurs_at(s: Seq<char>, from: Seq<char>, k: int) -> bool {
    0 <= k && k + from.len() <= s.len() && s.subrange(k, k + from.len()) == from
}

/// Whether `from` stands anywhere in `s`.
pub open spec fn occurs(s: Seq<char>, from: Seq<char>) -> bool {
    exists|k: int| occurs_at(s, from, k)
}

/// `s` with every occurrence of `from` replaced by `to`, reading from the
/// left and never looking again at text already replaced. An empty `from`
/// leaves `s` as it is.
pub open spec fn replaced(s: Seq<char>, from: Seq<char>, to: Seq<char>) -> Seq<char>
    decreases s.len(),
{
    if from.len() == 0 || s.len() < from.len() {
        s
    } else if s.take(from.len() as int) == from {
        to + replaced(s.skip(from.len() as int), from, to)
    } else {
        s.take(1) + replaced(s.skip(1), from, to)
    }
}

/// The character of one decimal digit.
pub open spec fn digit_char(d: nat) -> char {
    if d == 0 {
        '0'
    } else if d == 1 {
        '1'
    } else if d == 2 {
        '2'
    } else if d == 3 {
        '3'
    } else if d == 4 {
        '4'
    } else if d == 5 {
        '5'
    } else if d == 6 {
        '6'
    } else if d == 7 {
        '7'
    } else if d == 8 {
        '8'
    } else {
        '9'
    }
}

/// The decimal digits of `n`, most significant first, without leading zeros.
pub open spec fn digits(n: nat) -> Seq<char>
    decreases n,
{
    if n < 10 {
        seq![digit_char(n)]
    } else {
        digits(n / 10).push(digit_char(n % 10))
    }
}

/// `i` in decimal, with a minus sign in front where it is negative.
pub open spec fn decimal(i: int) -> Seq<char> {
    if i < 0 {
        seq!['-'] + digits((-i) as nat)
    } else {
        digits(i as nat)
    }
}

/// The token that stands for `index` in a template: `#$`, the index in
/// decimal, `#`.
pub open spec fn token_text(index: int) -> Seq<char> {
    seq!['#', '$'] + decimal(index) + seq!['#']
}

/// What the pairs say, with each value as the text it holds.
pub open spec fn pairs_model(pairs: Seq<(i32, String)>) -> Seq<(int, Seq<char>)> {
    Seq::new(pairs.len(), |k: int| (pairs[k].0 as int, pairs[k].1@))
}

/// The template after each pair, in the order given, has replaced every
/// occurrence of its token in the text that the pairs before it left.
pub open spec fn substituted(templ: Seq<char>, pairs: Seq<(int, Seq<char>)>) -> Seq<char>
    decreases pairs.len(),
{
    if pairs.len() == 0 {
        templ
    } else {
        substituted(replaced(templ, token_text(pairs[0].0), pairs[0].1), pairs.skip(1))
    }
}

fn digit_str(d: u64) -> (r: &'static str)
    requires
        d < 10,
    ensures
        r@ == seq![digit_char(d as nat)],
{
    proof {
        reveal_strlit("0");
        reveal_strlit("1");
        reveal_strlit("2");
        reveal_strlit("3");
        reveal_strlit("4");
        reveal_strlit("5");
        reveal_strlit("6");
        reveal_strlit("7");
        reveal_strlit("8");
        reveal_strlit("9");
    }
    let r = if d == 0 {
        "0"
    } else if d == 1 {
        "1"
    } else if d == 2 {
        "2"
    } else if d == 3 {
        "3"
    } else if d == 4 {
        "4"
    } else if d == 5 {
        "5"
    } else if d == 6 {
        "6"
    } else if d == 7 {
        "7"
    } else if d == 8 {
        "8"
    } else {
        "9"
    };
    assert(r@ =~= seq![digit_char(d as nat)]);
    r
}

fn digits_of(n: u64) -> (r: String)
    ensures
        r@ == digits(n as nat),
{
    let mut out = String::from_str(digit_str(n % 10));
    let mut rest: u64 = n / 10;
    proof {
        if rest > 0 {
            assert(digits(n as nat) =~= digits(rest as nat) + out@);
        }
    }
    while rest > 0
        invariant
            rest > 0 ==> digits(n as nat) == digits(rest as nat) + out@,
            rest == 0 ==> digits(n as nat) == out@,
        decreases rest,
    {
        let d = digit_str(rest % 10);
        let ghost before = out@;
        out = String::from_str(d).concat(out.as_str());
        proof {
            assert(out@ =~= seq![digit_char((rest % 10) as nat)] + before);
            if rest < 10 {
                assert(digits(rest as nat) + before =~= out@);
            } else {
                assert(digits(rest as nat) + before =~= digits((rest / 10) as nat) + out@);
            }
        }
        rest = rest / 10;
    }
    out
}

/// The token that stands for `index`.
pub fn token(index: i32) -> (r: String)
    ensures
        r@ == token_text(index as int),
{
    let wide: i64 = index as i64;
    let body = if wide < 0 {
        String::from_str("-").concat(digits_of((-wide) as u64).as_str())
    } else {
        digits_of(wide as u64)
    };
    proof {
        reveal_strlit("-");
        reveal_strlit("#$");
        reveal_strlit("#");
        assert("-"@ =~= seq!['-']);
        assert("#$"@ =~= seq!['#', '$']);
        assert("#"@ =~= seq!['#']);
        assert(body@ =~= decimal(index as int));
    }
    String::from_str("#$").concat(body.as_str()).concat("#")
}

fn stands_at(s: &str, from: &str, i: usize, m: usize) -> (b: bool)
    requires
        m == from@.len(),
        i + m <= s@.len(),
        s@.len() <= usize::MAX,
    ensures
        b == (s@.subrange(i as int, i + m) == from@),
{
    let mut j: usize = 0;
    while j < m
        invariant
            j <= m,
            m == from@.len(),
            i + m <= s@.len(),
            s@.len() <= usize::MAX,
            forall|k: int| 0 <= k < j ==> s@[i + k] == from@[k],
        decreases m - j,
    {
        if s.get_char(i + j) != from.get_char(j) {
            proof {
                assert(s@.subrange(i as int, i + m)[j as int] == s@[i + j]);
            }
            return false;
        }
        j += 1;
    }
    proof {
        assert(s@.subrange(i as int, i + m) =~= from@);
    }
    true
}

/// Replaces every occurrence of `from` in `s` by `to`, from the left.
pub fn replace_all(s: &str, from: &str, to: &str) -> (r: String)
    ensures
        r@ == replaced(s@, from@, to@),
{
    let n = s.unicode_len();
    let m = from.unicode_len();
    if m == 0 {
        return String::from_str(s);
    }
    let mut out = String::new();
    let mut i: usize = 0;
    proof {
        assert(s@.skip(0) =~= s@);
        assert(out@ + replaced(s@, from@, to@) =~= replaced(s@, from@, to@));
    }
    while i < n
        invariant
            i <= n,
            n == s@.len(),
            m == from@.len(),
            m > 0,
            out@ + replaced(s@.skip(i as int), from@, to@) == replaced(s@, from@, to@),
        decreases n - i,
    {
        let ghost tail = s@.skip(i as int);
        let ghost before = out@;
        if n - i < m {
            out.append(s.substring_char(i, n));
            proof {
                assert(s@.subrange(i as int, n as int) =~= tail);
                assert(replaced(tail, from@, to@) == tail);
                assert(s@.skip(n as int) =~= Seq::<char>::empty());
                assert(out@ + replaced(s@.skip(n as int), from@, to@) =~= before + tail);
            }
            i = n;
        } else if stands_at(s, from, i, m) {
            out.append(to);
            proof {
                assert(tail.take(m as int) =~= s@.subrange(i as int, i + m));
                assert(tail.skip(m as int) =~= s@.skip(i + m));
                assert(out@ + replaced(s@.skip(i + m), from@, to@) =~= before + replaced(
                    tail,
                    from@,
                    to@,
                ));
            }
            i += m;
        } else {
            out.append(s.substring_char(i, i + 1));
            proof {
                assert(tail.take(m as int) =~= s@.subrange(i as int, i + m));
                assert(tail.take(1) =~= s@.subrange(i as int, i + 1));
                assert(tail.skip(1) =~= s@.skip(i + 1));
                assert(out@ + replaced(s@.skip(i + 1), from@, to@) =~= before + replaced(
                    tail,
                    from@,
                    to@,
                ));
            }
            i += 1;
        }
    }
    proof {
        assert(s@.skip(n as int) =~= Seq::<char>::empty());
        assert(out@ + Seq::<char>::empty() =~= out@);
    }
    out
}

/// Substitutes the pairs into the template, in the order given.
pub fn substitute(templ: &str, pairs: &Vec<(i32, String)>) -> (r: String)
    ensures
        r@ == substituted(templ@, pairs_model(pairs@)),
{
    let ghost model = pairs_model(pairs@);
    let mut builder = String::from_str(templ);
    let mut k: usize = 0;
    proof {
        assert(model.skip(0) =~= model);
    }
    while k < pairs.len()
        invariant
            k <= pairs.len(),
            model == pairs_model(pairs@),
            substituted(builder@, model.skip(k as int)) == substituted(templ@, model),
        decreases pairs.len() - k,
    {
        let tok = token(pairs[k].0);
        let next = replace_all(builder.as_str(), tok.as_str(), pairs[k].1.as_str());
        proof {
            let here = model.skip(k as int);
            assert(here[0] == model[k as int]);
            assert(here.skip(1) =~= model.skip(k + 1));
        }
        builder = next;
        k += 1;
    }
    builder
}

/// The pieces written in a row with `sep` between each two neighbours.
pub open spec fn joined(pieces: Seq<Seq<char>>, sep: Seq<char>) -> Seq<char>
    decreases pieces.len(),
{
    if pieces.len() == 0 {
        Seq::empty()
    } else if pieces.len() == 1 {
        pieces[0]
    } else {
        pieces[0] + sep + joined(pieces.skip(1), sep)
    }
}

/// Whether the character `c` is nowhere in `piece`.
pub open spec fn free_of(piece: Seq<char>, c: char) -> bool {
    forall|j: int| 0 <= j < piece.len() ==> piece[j] != c
}

/// A text in which `from` stands nowhere is left as it is.
pub proof fn replaced_without_occurrence(s: Seq<char>, from: Seq<char>, to: Seq<char>)
    requires
        !occurs(s, from),
    ensures
        replaced(s, from, to) == s,
    decreases s.len(),
{
    if from.len() == 0 || s.len() < from.len() {
    } else {
        let n = from.len() as int;
        let tail = s.skip(1);
        assert(!occurs_at(s, from, 0));
        assert(s.take(n) =~= s.subrange(0, n));
        assert forall|k: int| !occurs_at(tail, from, k) by {
            if occurs_at(tail, from, k) {
                assert(tail.subrange(k, k + n) =~= s.subrange(k + 1, k + 1 + n));
                assert(occurs_at(s, from, k + 1));
            }
        }
        replaced_without_occurrence(tail, from, to);
        assert(s.take(1) + tail =~= s);
    }
}

/// Where `from` first stands at position `k`, the text before `k` stays,
/// `to` takes the place of `from`, and the replacing goes on behind it.
pub proof fn replaced_at_first_occurrence(s: Seq<char>, from: Seq<char>, to: Seq<char>, k: int)
    requires
        from.len() > 0,
        occurs_at(s, from, k),
        forall|j: int| 0 <= j < k ==> !occurs_at(s, from, j),
    ensures
        replaced(s, from, to) == s.take(k) + to + replaced(s.skip(k + from.len()), from, to),
    decreases k,
{
    let n = from.len() as int;
    assert(s.take(n) =~= s.subrange(0, n));
    if k == 0 {
        assert(s.take(0) + to =~= to);
    } else {
        let tail = s.skip(1);
        assert(!occurs_at(s, from, 0));
        assert(tail.subrange(k - 1, k - 1 + n) =~= s.subrange(k, k + n));
        assert(occurs_at(tail, from, k - 1));
        assert forall|j: int| 0 <= j < k - 1 implies !occurs_at(tail, from, j) by {
            if occurs_at(tail, from, j) {
                assert(tail.subrange(j, j + n) =~= s.subrange(j + 1, j + 1 + n));
                assert(occurs_at(s, from, j + 1));
            }
        }
        replaced_at_first_occurrence(tail, from, to, k - 1);
        let behind = replaced(s.skip(k + n), from, to);
        assert(tail.skip(k - 1 + n) =~= s.skip(k + n));
        assert(s.take(1) + (tail.take(k - 1) + to + behind) =~= s.take(k) + to + behind);
    }
}

/// As far as the first character of `from` does not come up in `s`, the
/// replacing leaves `s` as it is: the first `n` characters stay.
pub proof fn replaced_keeps_start(s: Seq<char>, from: Seq<char>, to: Seq<char>, n: int)
    requires
        from.len() > 0,
        0 <= n <= s.len(),
        forall|j: int| 0 <= j < n ==> s[j] != from[0],
    ensures
        replaced(s, from, to).len() >= n,
        replaced(s, from, to).take(n) == s.take(n),
    decreases n,
{
    if n == 0 {
        assert(replaced(s, from, to).take(0) =~= s.take(0));
    } else if s.len() < from.len() {
    } else {
        let tail = s.skip(1);
        assert(s.take(from.len() as int)[0] == s[0]);
        replaced_keeps_start(tail, from, to, n - 1);
        let behind = replaced(tail, from, to);
        assert((s.take(1) + behind).take(n) =~= s.take(1) + behind.take(n - 1));
        assert(s.take(1) + tail.take(n - 1) =~= s.take(n));
    }
}

/// Every occurrence of a token takes the same value: where the pieces
/// between the occurrences of `from` hold its first character nowhere, each
/// `from` between two pieces becomes `to`, and the pieces stay.
pub proof fn replaced_in_every_place(pieces: Seq<Seq<char>>, from: Seq<char>, to: Seq<char>)
    requires
        from.len() > 0,
        pieces.len() > 0,
        forall|i: int| 0 <= i < pieces.len() ==> free_of(#[trigger] pieces[i], from[0]),
    ensures
        replaced(joined(pieces, from), from, to) == joined(pieces, to),
    decreases pieces.len(),
{
    let a = pieces[0];
    let n = from.len() as int;
    assert(free_of(a, from[0]));
    if pieces.len() == 1 {
        assert forall|k: int| !occurs_at(a, from, k) by {
            if occurs_at(a, from, k) {
                assert(a.subrange(k, k + n)[0] == a[k]);
            }
        }
        replaced_without_occurrence(a, from, to);
    } else {
        let rest = pieces.skip(1);
        let s = joined(pieces, from);
        let k = a.len() as int;
        assert(s == a + from + joined(rest, from));
        assert(s.subrange(k, k + n) =~= from);
        assert forall|j: int| 0 <= j < k implies !occurs_at(s, from, j) by {
            if occurs_at(s, from, j) {
                assert(s.subrange(j, j + n)[0] == s[j]);
                assert(s[j] == a[j]);
            }
        }
        replaced_at_first_occurrence(s, from, to, k);
        assert(s.take(k) =~= a);
        assert(s.skip(k + n) =~= joined(rest, from));
        assert forall|i: int| 0 <= i < rest.len() implies free_of(#[trigger] rest[i], from[0]) by {
            assert(rest[i] == pieces[i + 1]);
        }
        replaced_in_every_place(rest, from, to);
    }
}

/// Substituting one list of pairs after another is substituting the two
/// lists in a row: each pair works on what the pairs before it left.
pub proof fn substituted_in_turn(
    templ: Seq<char>,
    first: Seq<(int, Seq<char>)>,
    second: Seq<(int, Seq<char>)>,
)
    ensures
        substituted(templ, first + second) == substituted(substituted(templ, first), second),
    decreases first.len(),
{
    if first.len() == 0 {
        assert(first + second =~= second);
    } else {
        let all = first + second;
        assert(all[0] == first[0]);
        assert(all.skip(1) =~= first.skip(1) + second);
        substituted_in_turn(
            replaced(templ, token_text(first[0].0), first[0].1),
            first.skip(1),
            second,
        );
    }
}

/// One pair alone replaces its token and nothing else.
pub proof fn substituted_one_pair(templ: Seq<char>, index: int, value: Seq<char>)
    ensures
        substituted(templ, seq![(index, value)]) == replaced(templ, token_text(index), value),
{
    let one = seq![(index, value)];
    let next = replaced(templ, token_text(index), value);
    assert(one.skip(1) =~= Seq::<(int, Seq<char>)>::empty());
    assert(substituted(templ, one) == substituted(next, one.skip(1)));
}

/// A pair whose token stands nowhere in the text that the pairs before it
/// left changes nothing: the result is that of the list without the pair.
pub proof fn absent_pair_changes_nothing(
    templ: Seq<char>,
    before: Seq<(int, Seq<char>)>,
    index: int,
    value: Seq<char>,
    after: Seq<(int, Seq<char>)>,
)
    requires
        !occurs(substituted(templ, before), token_text(index)),
    ensures
        substituted(templ, before + seq![(index, value)] + after) == substituted(
            templ,
            before + after,
        ),
{
    let one = seq![(index, value)];
    let mid = substituted(templ, before);
    substituted_in_turn(templ, before, after);
    substituted_in_turn(templ, before + one, after);
    substituted_in_turn(templ, before, one);
    substituted_one_pair(mid, index, value);
    replaced_without_occurrence(mid, token_text(index), value);
}

/// A token that comes up several times takes the pair's value each time:
/// for pieces that hold no `#`, written with the token of `index` between
/// them, the pair gives the pieces with the value between them.
pub proof fn token_replaced_in_every_place(pieces: Seq<Seq<char>>, index: int, value: Seq<char>)
    requires
        pieces.len() > 0,
        forall|i: int| 0 <= i < pieces.len() ==> free_of(#[trigger] pieces[i], '#'),
    ensures
        substituted(joined(pieces, token_text(index)), seq![(index, value)]) == joined(
            pieces,
            value,
        ),
{
    let tok = token_text(index);
    assert(tok[0] == '#');
    substituted_one_pair(joined(pieces, tok), index, value);
    replaced_in_every_place(pieces, tok, value);
}

/// The same template and the same pairs give the same text: the result
/// depends on nothing but what the template and the pairs hold.
pub proof fn substituted_same_for_same(
    templ_a: Seq<char>,
    pairs_a: Seq<(i32, String)>,
    templ_b: Seq<char>,
    pairs_b: Seq<(i32, String)>,
)
    requires
        templ_a == templ_b,
        pairs_model(pairs_a) == pairs_model(pairs_b),
    ensures
        substituted(templ_a, pairs_model(pairs_a)) == substituted(templ_b, pairs_model(pairs_b)),
{
}

} // verus!
