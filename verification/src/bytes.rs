//! Byte strings: what the schemes feed to the hash.
use vstd::prelude::*;

verus! {

/// Whether two arrays of 32 bytes hold the same bytes.
pub fn same_bytes(a: &[u8; 32], b: &[u8; 32]) -> (same: bool)
    ensures
        same == (a@ == b@),
{
    let mut i: usize = 0;
    while i < 32
        invariant
            i <= 32,
            forall|j: int| 0 <= j < i ==> a@[j] == b@[j],
        decreases 32 - i,
    {
        if a[i] != b[i] {
            return false;
        }
        i += 1;
    }
    assert(a@ =~= b@);
    true
}

/// Appends `bytes` to `buffer`.
pub fn append(buffer: &mut Vec<u8>, bytes: &[u8])
    ensures
        final(buffer)@ == old(buffer)@ + bytes@,
{
    let mut i: usize = 0;
    while i < bytes.len()
        invariant
            i <= bytes.len(),
            buffer@ == old(buffer)@ + bytes@.subrange(0, i as int),
        decreases bytes.len() - i,
    {
        buffer.push(bytes[i]);
        assert(buffer@ =~= old(buffer)@ + bytes@.subrange(0, i + 1));
        i += 1;
    }
    assert(bytes@.subrange(0, i as int) =~= bytes@);
}

/// A copy of `bytes` followed by `tail`.
pub fn joined(bytes: &Vec<u8>, tail: &[u8]) -> (out: Vec<u8>)
    ensures
        out@ == bytes@ + tail@,
{
    let mut out: Vec<u8> = Vec::new();
    assert(out@ + bytes@ =~= bytes@);
    append(&mut out, bytes.as_slice());
    append(&mut out, tail);
    out
}

/// The decimal digits of `n` in ASCII, without leading zeros.
pub open spec fn decimal_digits(n: nat) -> Seq<u8>
    decreases n,
{
    if n < 10 {
        seq![(48 + n) as u8]
    } else {
        decimal_digits(n / 10).push((48 + n % 10) as u8)
    }
}

/// The decimal digits of `n` in ASCII, without leading zeros.
pub fn decimal(n: usize) -> (out: Vec<u8>)
    ensures
        out@ == decimal_digits(n as nat),
    decreases n,
{
    if n < 10 {
        let mut out: Vec<u8> = Vec::new();
        out.push(48 + n as u8);
        assert(out@ =~= decimal_digits(n as nat));
        out
    } else {
        let mut out = decimal(n / 10);
        out.push(48 + (n % 10) as u8);
        out
    }
}

} // verus!
