//! Decimal notation for natural numbers: the text of a number, the number of
//! a text, and the proofs that the two are inverse to each other.

use vstd::prelude::*;
use vstd::string::*;
use crate::text::{char_is_digit, is_digit};

verus! {

/// The digit that stands for `d`, for `d` below ten.
pub open spec fn digit_char(d: nat) -> char {
    if d == 0 {
        '0'
    } else if d == 1 {
        '1'
    } else if d == 2 {
        '2'
    } else if d == 3 {
        '3'
    } else if d == 4 {
        '4'
    } else if d == 5 {
        '5'
    } else if d == 6 {
        '6'
    } else if d == 7 {
        '7'
    } else if d == 8 {
        '8'
    } else {
        '9'
    }
}

/// The number that the digit `c` stands for.
pub open spec fn digit_value(c: char) -> nat {
    (c as u32 - '0' as u32) as nat
}

/// The decimal notation of `n`, without leading zeros.
pub open spec fn decimal(n: nat) -> Seq<char>
    decreases n,
{
    if n < 10 {
        seq![digit_char(n)]
    } else {
        decimal(n / 10).push(digit_char(n % 10))
    }
}

/// The number that a sequence of digits denotes.
pub open spec fn decimal_value(s: Seq<char>) -> nat
    decreases s.len(),
{
    if s.len() == 0 {
        0
    } else {
        decimal_value(s.drop_last()) * 10 + digit_value(s.last())
    }
}

/// Whether `s` is a number in decimal notation: one or more digits, and no
/// leading zero but for the number zero itself.
pub open spec fn is_number(s: Seq<char>) -> bool {
    &&& s.len() > 0
    &&& forall|k: int| 0 <= k < s.len() ==> is_digit(#[trigger] s[k])
    &&& s[0] == '0' ==> s.len() == 1
}

/// The notation of a number is a number in decimal notation, and denotes it.
pub proof fn lemma_decimal_value(n: nat)
    ensures
        is_number(decimal(n)),
        decimal_value(decimal(n)) == n,
        n > 0 ==> decimal(n)[0] != '0',
    decreases n,
{
    if n < 10 {
        let s = decimal(n);
        assert(s.drop_last() =~= Seq::<char>::empty());
        assert(decimal_value(s.drop_last()) == 0);
    } else {
        lemma_decimal_value(n / 10);
        let p = decimal(n / 10);
        let s = decimal(n);
        assert(s.drop_last() =~= p);
        assert(s.last() == digit_char(n % 10));
        assert(s[0] == p[0]);
    }
}

/// A number in decimal notation is the notation of what it denotes.
pub proof fn lemma_value_decimal(s: Seq<char>)
    requires
        is_number(s),
    ensures
        decimal(decimal_value(s)) == s,
    decreases s.len(),
{
    let n = decimal_value(s);
    let d = digit_value(s.last());
    assert(digit_char(d) == s.last());
    if s.len() == 1 {
        assert(s.drop_last() =~= Seq::<char>::empty());
        assert(decimal_value(s.drop_last()) == 0);
        assert(decimal(n) =~= s);
    } else {
        let p = s.drop_last();
        assert(is_number(p));
        lemma_value_decimal(p);
        lemma_leading_digit(p);
        assert(decimal_value(p) >= 1);
        assert(n / 10 == decimal_value(p) && n % 10 == d);
        assert(decimal(n) =~= s);
    }
}

/// A number in decimal notation that does not start with a zero is not zero.
pub proof fn lemma_leading_digit(s: Seq<char>)
    requires
        s.len() > 0,
        forall|k: int| 0 <= k < s.len() ==> is_digit(#[trigger] s[k]),
        s[0] != '0',
    ensures
        decimal_value(s) >= 1,
    decreases s.len(),
{
    if s.len() == 1 {
        assert(s.drop_last() =~= Seq::<char>::empty());
        assert(decimal_value(s.drop_last()) == 0);
    } else {
        lemma_leading_digit(s.drop_last());
    }
}

/// Two numbers with the same notation are the same number.
pub proof fn lemma_decimal_injective(a: nat, b: nat)
    requires
        decimal(a) == decimal(b),
    ensures
        a == b,
{
    lemma_decimal_value(a);
    lemma_decimal_value(b);
}

/// The one-character text of the digit that stands for `d`.
fn digit_str(d: u32) -> (r: &'static str)
    requires
        d < 10,
    ensures
        r@ == seq![digit_char(d as nat)],
{
    proof {
        reveal_strlit("0");
        reveal_strlit("1");
        reveal_strlit("2");
        reveal_strlit("3");
        reveal_strlit("4");
        reveal_strlit("5");
        reveal_strlit("6");
        reveal_strlit("7");
        reveal_strlit("8");
        reveal_strlit("9");
    }
    let r = if d == 0 {
        "0"
    } else if d == 1 {
        "1"
    } else if d == 2 {
        "2"
    } else if d == 3 {
        "3"
    } else if d == 4 {
        "4"
    } else if d == 5 {
        "5"
    } else if d == 6 {
        "6"
    } else if d == 7 {
        "7"
    } else if d == 8 {
        "8"
    } else {
        "9"
    };
    assert(r@ =~= seq![digit_char(d as nat)]);
    r
}

/// Appends the decimal notation of `n` to `out`.
pub(crate) fn push_decimal(out: &mut String, n: u32)
    ensures
        final(out)@ == old(out)@ + decimal(n as nat),
    decreases n,
{
    if n >= 10 {
        push_decimal(out, n / 10);
    }
    out.append(digit_str(n % 10));
    proof {
        if n >= 10 {
            assert(final(out)@ =~= old(out)@ + decimal(n as nat));
        } else {
            assert(final(out)@ =~= old(out)@ + decimal(n as nat));
        }
    }
}

/// The decimal notation of `n`.
pub fn decimal_string(n: u32) -> (r: String)
    ensures
        r@ == decimal(n as nat),
{
    let mut out = String::new();
    push_decimal(&mut out, n);
    assert(out@ =~= decimal(n as nat));
    out
}

/// Reads the characters of `v` from `from` up to `to` as a number in decimal
/// notation that fits 32 bits.
pub(crate) fn parse_u32(v: &Vec<char>, from: usize, to: usize) -> (r: Option<u32>)
    requires
        from <= to <= v.len(),
    ensures
        match r {
            Some(n) => v@.subrange(from as int, to as int) == decimal(n as nat),
            None => forall|n: u32| v@.subrange(from as int, to as int) != decimal(n as nat),
        },
{
    let ghost s = v@.subrange(from as int, to as int);
    if from == to {
        proof {
            assert forall|n: u32| s != decimal(n as nat) by {
                lemma_decimal_value(n as nat);
            }
        }
        return None;
    }
    if v[from] == '0' && to - from > 1 {
        proof {
            assert(s[0] == '0');
            assert forall|n: u32| s != decimal(n as nat) by {
                lemma_decimal_value(n as nat);
            }
        }
        return None;
    }
    let mut acc: u32 = 0;
    let mut k: usize = from;
    while k < to
        invariant
            from <= k <= to <= v.len(),
            s == v@.subrange(from as int, to as int),
            forall|m: int| from <= m < k ==> is_digit(#[trigger] v[m]),
            acc == decimal_value(v@.subrange(from as int, k as int)),
        decreases to - k,
    {
        let c = v[k];
        if !char_is_digit(c) {
            proof {
                assert(s[k - from] == c);
                assert forall|n: u32| s != decimal(n as nat) by {
                    lemma_decimal_value(n as nat);
                }
            }
            return None;
        }
        let d: u32 = c as u32 - '0' as u32;
        let ghost next = v@.subrange(from as int, k + 1);
        proof {
            assert(next.drop_last() =~= v@.subrange(from as int, k as int));
            assert(next.last() == c);
            assert(decimal_value(next) == acc * 10 + d);
        }
        if acc > (u32::MAX - d) / 10 {
            proof {
                assert(decimal_value(next) > u32::MAX);
                lemma_prefix_value(s, k + 1 - from);
                assert(s.subrange(0, k + 1 - from) =~= next);
                assert forall|n: u32| s != decimal(n as nat) by {
                    lemma_decimal_value(n as nat);
                }
            }
            return None;
        }
        acc = acc * 10 + d;
        k += 1;
    }
    proof {
        assert(v@.subrange(from as int, k as int) == s);
        assert(is_number(s));
        lemma_value_decimal(s);
    }
    Some(acc)
}

/// A sequence of digits denotes at least what each of its prefixes denotes.
pub proof fn lemma_prefix_value(s: Seq<char>, k: int)
    requires
        0 <= k <= s.len(),
    ensures
        decimal_value(s.subrange(0, k)) <= decimal_value(s),
    decreases s.len() - k,
{
    if k == s.len() {
        assert(s.subrange(0, k) =~= s);
    } else {
        lemma_prefix_value(s, k + 1);
        let next = s.subrange(0, k + 1);
        assert(next.drop_last() =~= s.subrange(0, k));
    }
}

} // verus!
