//! Small byte-string helpers for shells and hosts that render guest
//! output: decimal formatting of a signed integer and a prefix test.

use vstd::prelude::*;

verus! {

/// The decimal digits of `n`, most significant first.
pub open spec fn dec_digits(n: nat) -> Seq<u8>
    decreases n,
{
    if n < 10 {
        seq![(48 + n) as u8]
    } else {
        dec_digits(n / 10).push((48 + n % 10) as u8)
    }
}

/// The decimal rendering of `val`: a minus sign for a negative value, then
/// its digits with no leading zeros (a single zero for 0).
pub open spec fn format_i32_spec(val: int) -> Seq<u8> {
    if val < 0 {
        seq![45u8] + dec_digits((-val) as nat)
    } else {
        dec_digits(val as nat)
    }
}

/// Appends the decimal digits of `n`.
fn push_digits(n: u64, out: &mut Vec<u8>)
    ensures
        final(out)@ == old(out)@ + dec_digits(n as nat),
    decreases n,
{
    if n < 10 {
        out.push(48 + n as u8);
        proof {
            assert(final(out)@ =~= old(out)@ + dec_digits(n as nat));
        }
    } else {
        proof {
            assert(n / 10 < n) by (nonlinear_arith)
                requires
                    n >= 10,
            ;
        }
        push_digits(n / 10, out);
        out.push(48 + (n % 10) as u8);
        proof {
            assert(final(out)@ =~= old(out)@ + dec_digits(n as nat));
        }
    }
}

/// Renders a signed 32-bit integer in decimal.
pub fn format_i32(val: i32) -> (r: Vec<u8>)
    ensures
        r@ == format_i32_spec(val as int),
{
    let mut out: Vec<u8> = Vec::new();
    if val < 0 {
        out.push(45);
        let magnitude = (-(val as i64)) as u64;
        push_digits(magnitude, &mut out);
        proof {
            assert(out@ =~= format_i32_spec(val as int));
        }
    } else {
        push_digits(val as u64, &mut out);
        proof {
            assert(out@ =~= format_i32_spec(val as int));
        }
    }
    out
}

/// Whether `haystack` begins with `needle`.
pub fn starts_with(haystack: &[u8], needle: &[u8]) -> (r: bool)
    ensures
        r == (needle@.len() <= haystack@.len() && haystack@.subrange(0, needle@.len() as int)
            == needle@),
{
    if haystack.len() < needle.len() {
        return false;
    }
    let mut i: usize = 0;
    while i < needle.len()
        invariant
            i <= needle@.len(),
            needle@.len() <= haystack@.len(),
            forall|j: int| 0 <= j < i ==> haystack@[j] == needle@[j],
        decreases needle@.len() - i,
    {
        if haystack[i] != needle[i] {
            proof {
                if haystack@.subrange(0, needle@.len() as int) == needle@ {
                    let k = i as int;
                    assert(haystack@.subrange(0, needle@.len() as int)[k] == needle@[k]);
                }
            }
            return false;
        }
        i = i + 1;
    }
    proof {
        assert(haystack@.subrange(0, needle@.len() as int) =~= needle@);
    }
    true
}

} // verus!
