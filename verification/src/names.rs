use vstd::prelude::*;

verus! {

use vstd::string::StrSliceExecFns;
use vstd::string::StringSliceAdditionalSpecFns;
use vstd::slice::{slice_index_get, slice_to_vec};
use crate::error::InvalidName;

broadcast use vstd::string::group_string_axioms;

/// A symbol name is acceptable exactly when every character is ASCII and
/// none of them is the null character. Such a name survives the byte-level
/// native interface unchanged.
pub open spec fn valid_name(s: Seq<char>) -> bool {
    forall|i: int| 0 <= i < s.len() ==> 1 <= (#[trigger] s[i]) as int <= 127
}

/// Whether a byte sequence contains a null byte.
pub open spec fn bytes_have_null(b: Seq<u8>) -> bool {
    exists|i: int| 0 <= i < b.len() && b[i] == 0
}

/// Decides `valid_name` for a name given as a string slice.
pub fn is_valid_name(s: &str) -> (r: bool)
    ensures
        r == valid_name(s@),
{
    if !s.is_ascii() {
        return false;
    }
    let n: usize = s.unicode_len();
    let mut i: usize = 0;
    while i < n
        invariant
            n == s@.len(),
            0 <= i <= n,
            s.is_ascii(),
            forall|j: int| 0 <= j < i ==> 1 <= (#[trigger] s@[j]) as int <= 127,
        decreases n - i,
    {
        let b = s.get_ascii(i);
        if b == 0 {
            assert(s@[i as int] as int == 0);
            return false;
        }
        assert(1 <= s@[i as int] as int <= 127);
        i += 1;
    }
    true
}

/// The null-terminated byte form of a string, as the native interface takes
/// it. Fails exactly when the string already contains a null byte, which the
/// terminator convention cannot represent.
pub fn c_string(s: &str) -> (r: Result<Vec<u8>, InvalidName>)
    ensures
        match r {
            Ok(v) => !bytes_have_null(s.spec_bytes()) && v@ == s.spec_bytes().push(0u8),
            Err(e) => bytes_have_null(s.spec_bytes()) && e.0@ == s@,
        },
{
    let bytes: &[u8] = s.as_bytes();
    let n: usize = bytes.len();
    let mut i: usize = 0;
    while i < n
        invariant
            n == bytes@.len(),
            bytes@ == s.spec_bytes(),
            0 <= i <= n,
            forall|j: int| 0 <= j < i ==> #[trigger] bytes@[j] != 0,
        decreases n - i,
    {
        if *slice_index_get(bytes, i) == 0 {
            return Err(InvalidName(s.to_owned()));
        }
        i += 1;
    }
    let mut out: Vec<u8> = slice_to_vec(bytes);
    out.push(0);
    Ok(out)
}

} // verus!
