//! Byte-level building blocks of the tag=value wire format: decimal numbers
//! and the modulo-256 checksum.

use vstd::prelude::*;

verus! {

/// ASCII digits of `n` in base ten, without leading zeros.
pub open spec fn decimal(n: nat) -> Seq<u8>
    decreases n,
{
    if n < 10 {
        seq![(48 + n) as u8]
    } else {
        decimal(n / 10).push((48 + n % 10) as u8)
    }
}

/// Sum of all bytes of `s`.
pub open spec fn byte_sum(s: Seq<u8>) -> nat
    decreases s.len(),
{
    if s.len() == 0 {
        0
    } else {
        byte_sum(s.drop_last()) + s.last() as nat
    }
}

/// The checksum of `s`: its byte sum modulo 256.
pub open spec fn checksum(s: Seq<u8>) -> nat {
    byte_sum(s) % 256
}

/// Three ASCII digits of `c`, zero-padded.
pub open spec fn three_digits(c: nat) -> Seq<u8> {
    seq![(48 + c / 100 % 10) as u8, (48 + c / 10 % 10) as u8, (48 + c % 10) as u8]
}

/// Appends the decimal digits of `n` to `out`.
pub fn push_decimal(out: &mut Vec<u8>, n: u64)
    ensures
        final(out)@ == old(out)@ + decimal(n as nat),
    decreases n,
{
    if n >= 10 {
        push_decimal(out, n / 10);
    }
    let d: u8 = (n % 10) as u8;
    out.push(48 + d);
    proof {
        if n < 10 {
            assert(old(out)@ + decimal(n as nat) =~= old(out)@.push((48 + n) as u8));
        } else {
            assert(old(out)@ + decimal(n as nat) =~= (old(out)@ + decimal((n / 10) as nat)).push(
                (48 + n % 10) as u8,
            ));
        }
    }
}

/// Computes the checksum of `s`: the sum of its bytes modulo 256.
pub fn compute_checksum(s: &Vec<u8>) -> (r: u8)
    ensures
        r as nat == checksum(s@),
{
    let mut acc: u8 = 0;
    let mut i: usize = 0;
    while i < s.len()
        invariant
            i <= s@.len(),
            acc as nat == byte_sum(s@.take(i as int)) % 256,
        decreases s@.len() - i,
    {
        let b: u8 = s[i];
        proof {
            assert(s@.take(i as int + 1).drop_last() =~= s@.take(i as int));
            let t = byte_sum(s@.take(i as int));
            assert((t % 256 + b as nat) % 256 == (t + b as nat) % 256) by (nonlinear_arith);
        }
        acc = ((acc as u16 + b as u16) % 256) as u8;
        i = i + 1;
    }
    assert(s@.take(s@.len() as int) =~= s@);
    acc
}

/// Appends the three zero-padded digits of `c` to `out`.
pub fn push_three_digits(out: &mut Vec<u8>, c: u8)
    ensures
        final(out)@ == old(out)@ + three_digits(c as nat),
{
    out.push(48 + c / 100 % 10);
    out.push(48 + c / 10 % 10);
    out.push(48 + c % 10);
    assert(final(out)@ =~= old(out)@ + three_digits(c as nat));
}

} // verus!
