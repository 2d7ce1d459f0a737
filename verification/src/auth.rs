//! The check of the manager's password.

use vstd::prelude::*;
use vstd::utf8::*;

verus! {

/// Compares two texts without stopping at the first difference: texts of
/// one length are read to their end whatever they hold.
pub fn constant_time_eq(a: &str, b: &str) -> (r: bool)
    ensures
        r == (a@ == b@),
{
    let x = a.as_bytes();
    let y = b.as_bytes();
    proof {
        encode_utf8_decode_utf8(a@);
        encode_utf8_decode_utf8(b@);
    }
    if x.len() != y.len() {
        return false;
    }
    let mut diff: u8 = 0;
    let mut i: usize = 0;
    while i < x.len()
        invariant
            i <= x.len(),
            x.len() == y.len(),
            diff == 0 <==> (forall|k: int| 0 <= k < i ==> x@[k] == y@[k]),
        decreases x.len() - i,
    {
        let p: u8 = x[i];
        let q: u8 = y[i];
        let ghost before = diff;
        assert((before | (p ^ q)) == 0 <==> (before == 0 && p == q)) by (bit_vector);
        diff = diff | (p ^ q);
        i += 1;
    }
    if diff == 0 {
        assert(x@ =~= y@);
    }
    diff == 0
}

/// Whether `password` is the manager's password.
pub fn check_password(password: &String, expected: &String) -> (r: bool)
    ensures
        r == (password@ == expected@),
{
    constant_time_eq(password.as_str(), expected.as_str())
}

} // verus!
