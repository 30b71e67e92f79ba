//! The reachability score: an octal reachability code is a string of
//! octal digits encoding a bitmask of the last eight poll attempts; the
//! score is how many of those bits are set.
use vstd::prelude::*;

verus! {

/// Set bits in the 3-bit value of an octal digit character; any other
/// character contributes nothing (intentional leniency: non-octal
/// characters are skipped, never an error).
pub open spec fn octal_bits(c: char) -> nat {
    if c == '1' || c == '2' || c == '4' {
        1
    } else if c == '3' || c == '5' || c == '6' {
        2
    } else if c == '7' {
        3
    } else {
        0
    }
}

/// Reach score of a reachability code: the sum of `octal_bits` over all
/// its characters. An empty or all-non-octal string scores 0.
pub open spec fn reach_of(s: Seq<char>) -> nat
    decreases s.len(),
{
    if s.len() == 0 {
        0
    } else {
        reach_of(s.drop_last()) + octal_bits(s.last())
    }
}

/// Count of successful polls among the last eight attempts.
#[derive(Clone, Copy, Debug, PartialEq, Eq, Structural)]
pub struct Reach {
    pub reach: u128,
}

fn octal_bits_exec(c: char) -> (b: u128)
    ensures
        b == octal_bits(c),
{
    if c == '1' || c == '2' || c == '4' {
        1
    } else if c == '3' || c == '5' || c == '6' {
        2
    } else if c == '7' {
        3
    } else {
        0
    }
}

impl Reach {
    /// Score a reachability code. Never fails: non-octal characters are
    /// skipped, so the worst score is 0.
    pub fn from_str(s: &str) -> (r: Reach)
        ensures
            r.reach == reach_of(s@),
    {
        let len = s.unicode_len();
        let mut i: usize = 0;
        let mut total: u128 = 0;
        while i < len
            invariant
                i <= len,
                len == s@.len(),
                total == reach_of(s@.take(i as int)),
                total <= 3 * i,
            decreases len - i,
        {
            let c = s.get_char(i);
            let bits = octal_bits_exec(c);
            proof {
                assert(s@.take(i + 1).drop_last() =~= s@.take(i as int));
                assert(s@.take(i + 1).last() == s@[i as int]);
            }
            total = total + bits;
            i = i + 1;
        }
        proof {
            assert(s@.take(len as int) =~= s@);
        }
        Reach { reach: total }
    }
}

/// Population count of a 3-bit value.
pub open spec fn popcount3(n: nat) -> nat {
    n % 2 + (n / 2) % 2 + (n / 4) % 2
}

/// Whether a character is an octal digit.
pub open spec fn is_octal_digit(c: char) -> bool {
    48 <= c as u32 && c as u32 <= 55
}

/// Numeric value of an octal digit character.
pub open spec fn octal_val(c: char) -> nat {
    (c as u32 - 48) as nat
}

/// Each octal digit contributes exactly the population count of its
/// 3-bit value to the reach score.
pub proof fn lemma_octal_bits_is_popcount(c: char)
    requires
        is_octal_digit(c),
    ensures
        octal_bits(c) == popcount3(octal_val(c)),
{
    assert(c as u32 == 48 ==> c == '0');
    assert(c as u32 == 49 ==> c == '1');
    assert(c as u32 == 50 ==> c == '2');
    assert(c as u32 == 51 ==> c == '3');
    assert(c as u32 == 52 ==> c == '4');
    assert(c as u32 == 53 ==> c == '5');
    assert(c as u32 == 54 ==> c == '6');
    assert(c as u32 == 55 ==> c == '7');
}

/// Sum over a string of the population counts of its octal digits'
/// 3-bit values; non-octal characters contribute nothing.
pub open spec fn popcount_sum(s: Seq<char>) -> nat
    decreases s.len(),
{
    if s.len() == 0 {
        0
    } else {
        popcount_sum(s.drop_last()) + if is_octal_digit(s.last()) {
            popcount3(octal_val(s.last()))
        } else {
            0
        }
    }
}

/// Law: for any string, the reach score equals the sum of the population
/// counts of each octal digit's 3-bit value (so in particular for any
/// octal-digit string).
pub proof fn lemma_reach_is_popcount_sum(s: Seq<char>)
    ensures
        reach_of(s) == popcount_sum(s),
    decreases s.len(),
{
    if s.len() > 0 {
        lemma_reach_is_popcount_sum(s.drop_last());
        if is_octal_digit(s.last()) {
            lemma_octal_bits_is_popcount(s.last());
        }
    }
}

} // verus!
