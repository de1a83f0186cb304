//! The format of a proxy/server pair on the command line: two addresses
//! separated by a single space.
use vstd::prelude::*;

verus! {

/// The byte of the space that separates the two addresses.
pub const SEPARATOR: u8 = 0x20;

/// Whether `s` holds exactly one separator, at index `i`.
pub open spec fn single_separator_at(s: Seq<u8>, i: int) -> bool {
    &&& 0 <= i < s.len()
    &&& s[i] == SEPARATOR
    &&& forall|j: int| 0 <= j < s.len() && j != i ==> s[j] != SEPARATOR
}

/// Where to split a pair written as text: the index of its only space, or
/// `None` when the text does not split by spaces into exactly two parts.
/// In UTF-8 a space byte is always a whole space character, so the index
/// splits the text at a character boundary.
pub fn split_pair_at(s: &[u8]) -> (r: Option<usize>)
    ensures
        match r {
            Some(i) => single_separator_at(s@, i as int),
            None => forall|i: int| !single_separator_at(s@, i),
        },
{
    let n = s.len();
    let mut found: Option<usize> = None;
    let mut k: usize = 0;
    while k < n
        invariant
            n == s@.len(),
            k <= n,
            match found {
                Some(i) => i < k && s@[i as int] == SEPARATOR && forall|j: int|
                    0 <= j < k && j != i ==> s@[j] != SEPARATOR,
                None => forall|j: int| 0 <= j < k ==> s@[j] != SEPARATOR,
            },
        decreases n - k,
    {
        if s[k] == SEPARATOR {
            match found {
                Some(i) => {
                    assert forall|x: int| !single_separator_at(s@, x) by {
                        if single_separator_at(s@, x) {
                            assert(x == i as int || x == k as int);
                        }
                    }
                    return None;
                },
                None => {
                    found = Some(k);
                },
            }
        }
        k = k + 1;
    }
    match found {
        Some(i) => Some(i),
        None => {
            assert forall|x: int| !single_separator_at(s@, x) by {
                if 0 <= x < s@.len() {
                    assert(s@[x] != SEPARATOR);
                }
            }
            None
        },
    }
}

} // verus!
