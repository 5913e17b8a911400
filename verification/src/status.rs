//! Status reporting: the decimal text form of an exit code, and the degraded
//! exit code used when the sandbox cannot even start the process.

use vstd::prelude::*;

verus! {

/// Exit code reported when the sandbox produced no code of its own, because
/// the process could not be started or was killed before exiting.
pub const DEGRADED_EXIT_CODE: i32 = 255;

/// Decimal digits of `n`, most significant first, as ASCII bytes.
pub open spec fn spec_decimal_digits(n: nat) -> Seq<u8>
    decreases n,
{
    if n < 10 {
        seq![(0x30 + n) as u8]
    } else {
        spec_decimal_digits(n / 10).push((0x30 + n % 10) as u8)
    }
}

/// The decimal text of an exit code, as bytes: an optional minus sign followed
/// by the digits of the magnitude.
pub open spec fn spec_decimal_bytes(n: int) -> Seq<u8> {
    if n >= 0 {
        spec_decimal_digits(n as nat)
    } else {
        seq![0x2du8] + spec_decimal_digits((-n) as nat)
    }
}

fn push_decimal_digits(buf: &mut Vec<u8>, n: u32)
    ensures
        final(buf)@ == old(buf)@ + spec_decimal_digits(n as nat),
    decreases n,
{
    if n < 10 {
        buf.push(0x30 + n as u8);
        proof {
            assert(buf@ =~= old(buf)@ + spec_decimal_digits(n as nat));
        }
    } else {
        push_decimal_digits(buf, n / 10);
        buf.push(0x30 + (n % 10) as u8);
        proof {
            assert(buf@ =~= old(buf)@ + spec_decimal_digits(n as nat));
        }
    }
}

/// The status payload reporting an exit code: its decimal text as bytes.
pub fn exit_code_bytes(code: i32) -> (r: Vec<u8>)
    ensures
        r@ == spec_decimal_bytes(code as int),
{
    let mut buf: Vec<u8> = Vec::new();
    if code >= 0 {
        push_decimal_digits(&mut buf, code as u32);
        proof {
            assert(buf@ =~= spec_decimal_bytes(code as int));
        }
    } else {
        buf.push(0x2d);
        let mag: u32 = (-(code as i64)) as u32;
        push_decimal_digits(&mut buf, mag);
        proof {
            assert(buf@ =~= spec_decimal_bytes(code as int));
        }
    }
    buf
}

/// The exit code drawn from a sandbox outcome: the process's own code, or the
/// degraded code when none was produced.
pub fn exit_code_or_degraded(code: Option<i32>) -> (r: i32)
    ensures
        r == (match code {
            Some(c) => c,
            None => DEGRADED_EXIT_CODE,
        }),
{
    match code {
        Some(c) => c,
        None => DEGRADED_EXIT_CODE,
    }
}

} // verus!
