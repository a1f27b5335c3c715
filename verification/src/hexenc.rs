//! Uppercase hexadecimal encoding of byte strings, as ASCII bytes: the
//! subject serial number of a template is the uppercase hex of a digest.

use vstd::prelude::*;

verus! {

/// The ASCII code of the uppercase hexadecimal digit for `n`.
pub open spec fn hex_digit_upper(n: u8) -> u8
    recommends
        n < 16,
{
    if n < 10 {
        (0x30 + n) as u8
    } else {
        (0x37 + n) as u8
    }
}

/// The uppercase hexadecimal encoding of `s`: two ASCII digits per byte,
/// high nibble first.
pub open spec fn hex_upper_of(s: Seq<u8>) -> Seq<u8> {
    Seq::new(
        2 * s.len(),
        |k: int|
            if k % 2 == 0 {
                hex_digit_upper((s[k / 2] / 16) as u8)
            } else {
                hex_digit_upper((s[k / 2] % 16) as u8)
            },
    )
}

/// The ASCII code of the uppercase hexadecimal digit for `n`.
fn hex_digit(n: u8) -> (r: u8)
    requires
        n < 16,
    ensures
        r == hex_digit_upper(n),
{
    if n < 10 {
        0x30 + n
    } else {
        0x37 + n
    }
}

/// Encode `bytes` as uppercase hexadecimal ASCII, two digits per byte.
pub fn hex_upper(bytes: &[u8]) -> (r: Vec<u8>)
    ensures
        r@ == hex_upper_of(bytes@),
        r@.len() == 2 * bytes@.len(),
{
    let n: usize = bytes.len();
    let mut r: Vec<u8> = Vec::new();
    let mut i: usize = 0;
    while i < n
        invariant
            n == bytes@.len(),
            i <= n,
            r@.len() == 2 * i,
            forall|k: int| 0 <= k < 2 * i ==> #[trigger] r@[k] == hex_upper_of(bytes@)[k],
        decreases n - i,
    {
        let b: u8 = bytes[i];
        r.push(hex_digit(b / 16));
        r.push(hex_digit(b % 16));
        i = i + 1;
    }
    assert(r@ =~= hex_upper_of(bytes@));
    r
}

} // verus!
