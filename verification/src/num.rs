//! Decimal serialization and parsing for unsigned integer header values
//! (`Content-Length`, `Max-Forwards`, and the port of a `Host` value).
use vstd::prelude::*;

use crate::util::push_bytes;

verus! {

/// Whether a byte is an ASCII decimal digit.
pub open spec fn is_digit_byte(b: u8) -> bool {
    48 <= b <= 57
}

/// The decimal digits of `n`, most significant first, with no padding.
pub open spec fn spec_digits(n: nat) -> Seq<u8>
    decreases n,
{
    if n < 10 {
        seq![(48 + n) as u8]
    } else {
        spec_digits(n / 10) + seq![(48 + n % 10) as u8]
    }
}

/// Reads decimal digits left to right into an accumulator, as parsing does:
/// `None` on a non-digit byte and on any value that would pass `bound`.
pub open spec fn spec_parse_digits(s: Seq<u8>, acc: nat, bound: nat) -> Option<nat>
    decreases s.len(),
{
    if s.len() == 0 {
        Some(acc)
    } else if !is_digit_byte(s[0]) {
        None
    } else if acc * 10 + (s[0] - 48) > bound {
        None
    } else {
        spec_parse_digits(s.skip(1), acc * 10 + (s[0] - 48) as nat, bound)
    }
}

/// What parsing an unsigned decimal value yields: the digits' value when the
/// input is one or more digits denoting a number of at most `bound`, and
/// nothing on empty input, a non-digit byte, or a too large value.
pub open spec fn spec_parse_uint(s: Seq<u8>, bound: nat) -> Option<nat> {
    if s.len() == 0 {
        None
    } else {
        spec_parse_digits(s, 0, bound)
    }
}

/// Appends the decimal form of `n` to a byte sink.
pub fn push_uint(out: &mut Vec<u8>, n: usize)
    ensures
        final(out)@ == old(out)@ + spec_digits(n as nat),
    decreases n,
{
    if n < 10 {
        out.push(48 + n as u8);
        proof {
            assert(old(out)@ + spec_digits(n as nat) =~= old(out)@.push((48 + n) as u8));
        }
    } else {
        push_uint(out, n / 10);
        out.push(48 + (n % 10) as u8);
        proof {
            assert(old(out)@ + spec_digits(n as nat) =~= (old(out)@ + spec_digits(
                (n / 10) as nat,
            )).push((48 + n % 10) as u8));
        }
    }
}

/// Parses an unsigned decimal value of at most `bound`, returning `None` on
/// empty input, a non-digit byte, or a value over `bound`.
pub fn parse_uint(s: &[u8], bound: usize) -> (r: Option<usize>)
    ensures
        match r {
            Some(n) => spec_parse_uint(s@, bound as nat) == Some(n as nat) && n <= bound,
            None => spec_parse_uint(s@, bound as nat) is None,
        },
{
    if s.len() == 0 {
        return None;
    }
    let mut acc: usize = 0;
    let mut i: usize = 0;
    proof {
        assert(s@.skip(0) =~= s@);
    }
    while i < s.len()
        invariant
            i <= s@.len(),
            acc <= bound,
            spec_parse_digits(s@, 0, bound as nat) == spec_parse_digits(
                s@.skip(i as int),
                acc as nat,
                bound as nat,
            ),
        decreases s@.len() - i,
    {
        proof {
            assert(s@.skip(i as int)[0] == s@[i as int]);
            assert(s@.skip(i as int).skip(1) =~= s@.skip(i + 1));
        }
        let b = s[i];
        if b < 48 || b > 57 {
            return None;
        }
        let d: usize = (b - 48) as usize;
        if acc > bound / 10 || (acc == bound / 10 && d > bound % 10) {
            // the next digit would push the value past the bound
            proof {
                assert(acc * 10 + d > bound) by (nonlinear_arith)
                    requires
                        acc > bound / 10 || (acc == bound / 10 && d > bound % 10),
                        bound == (bound / 10) * 10 + bound % 10,
                        d < 10,
                        0 <= acc,
                        0 <= bound,
                ;
            }
            return None;
        }
        proof {
            assert(acc * 10 + d <= bound) by (nonlinear_arith)
                requires
                    acc <= bound / 10,
                    acc == bound / 10 ==> d <= bound % 10,
                    bound == (bound / 10) * 10 + bound % 10,
                    0 <= d < 10,
                    0 <= acc,
            ;
        }
        acc = acc * 10 + d;
        i = i + 1;
    }
    proof {
        assert(s@.skip(s@.len() as int) =~= Seq::<u8>::empty());
    }
    Some(acc)
}

/// Reading digits distributes over appending more of them.
proof fn lemma_parse_digits_append(s: Seq<u8>, t: Seq<u8>, acc: nat, bound: nat)
    ensures
        spec_parse_digits(s + t, acc, bound) == match spec_parse_digits(s, acc, bound) {
            Some(v) => spec_parse_digits(t, v, bound),
            None => None::<nat>,
        },
    decreases s.len(),
{
    if s.len() == 0 {
        assert(s + t =~= t);
    } else {
        assert((s + t)[0] == s[0]);
        if is_digit_byte(s[0]) && acc * 10 + (s[0] - 48) <= bound {
            lemma_parse_digits_append(s.skip(1), t, acc * 10 + (s[0] - 48) as nat, bound);
            assert((s + t).skip(1) =~= s.skip(1) + t);
        } else {
            assert(spec_parse_digits(s + t, acc, bound) is None);
        }
    }
}

/// Law: parsing the decimal form of `n` returns `n`, for any `n` within the
/// parser's bound.
pub proof fn lemma_uint_roundtrip(n: nat, bound: nat)
    requires
        n <= bound,
    ensures
        spec_parse_uint(spec_digits(n), bound) == Some(n),
    decreases n,
{
    lemma_digits_general(n, 0, bound);
    assert(spec_digits(n).len() > 0);
}

/// Reading the digits of `n` after an accumulated prefix scales the prefix
/// past them, as long as the combined value stays within the bound.
proof fn lemma_digits_general(n: nat, acc: nat, bound: nat)
    requires
        acc * pow10(spec_digits(n).len() as nat) + n <= bound,
    ensures
        spec_parse_digits(spec_digits(n), acc, bound) == Some(
            acc * pow10(spec_digits(n).len() as nat) + n,
        ),
    decreases n,
{
    if n < 10 {
        let s = spec_digits(n);
        assert(s.len() == 1);
        assert(s[0] == 48 + n);
        assert(pow10(0) == 1);
        assert(pow10(1) == 10);
        assert(acc * 10 + n <= bound);
        assert(s.skip(1) =~= Seq::<u8>::empty());
        assert(spec_parse_digits(Seq::<u8>::empty(), acc * 10 + n, bound) == Some(acc * 10 + n));
    } else {
        let hi = spec_digits(n / 10);
        let lo = seq![(48 + n % 10) as u8];
        let k = hi.len() as nat;
        assert(pow10(k + 1) == pow10(k) * 10);
        assert(spec_digits(n) == hi + lo);
        assert(spec_digits(n).len() == k + 1);
        assert(acc * pow10(k + 1) + n == (acc * pow10(k) + n / 10) * 10 + n % 10) by (
        nonlinear_arith)
            requires
                pow10(k + 1) == pow10(k) * 10,
                n == (n / 10) * 10 + n % 10,
                0 <= n,
        ;
        assert((acc * pow10(k) + n / 10) * 10 + n % 10 <= bound);
        assert(acc * pow10(k) + n / 10 <= bound) by (nonlinear_arith)
            requires
                (acc * pow10(k) + n / 10) * 10 + n % 10 <= bound,
                0 <= acc * pow10(k) + n / 10,
                0 <= n % 10,
        ;
        assert(n / 10 < n) by (nonlinear_arith)
            requires
                n >= 10,
        ;
        lemma_digits_general(n / 10, acc, bound);
        lemma_parse_digits_append(hi, lo, acc, bound);
        let v = acc * pow10(k) + n / 10;
        assert(spec_parse_digits(lo, v, bound) == Some((v * 10 + n % 10) as nat)) by {
            assert(lo[0] == 48 + n % 10);
            assert(is_digit_byte(lo[0]));
            assert(lo.skip(1) =~= Seq::<u8>::empty());
            assert(spec_parse_digits(Seq::<u8>::empty(), (v * 10 + n % 10) as nat, bound) == Some(
                (v * 10 + n % 10) as nat,
            ));
        }
    }
}

/// Ten to the `k`.
pub open spec fn pow10(k: nat) -> nat
    decreases k,
{
    if k == 0 {
        1
    } else {
        10 * pow10((k - 1) as nat)
    }
}

} // verus!
