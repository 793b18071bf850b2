//! Verified substring search over strings, used to decide whether a
//! guideline's rule text occurs in a content body.

use vstd::prelude::*;
use vstd::string::{StrSliceExecFns, StringExecFns};

verus! {

/// A fixed greeting around the given name.
pub fn greet(name: &str) -> (r: String)
    ensures
        r@ == "Hello, "@ + name@ + "!"@,
{
    let s = String::from_str("Hello, ");
    let s = s.concat(name);
    s.concat("!")
}

/// `needle` occurs contiguously somewhere in `hay`. The empty sequence
/// occurs in every sequence.
pub open spec fn is_substring_of(needle: Seq<char>, hay: Seq<char>) -> bool {
    exists|i: int|
        0 <= i && i + needle.len() <= hay.len() && #[trigger] hay.subrange(
            i,
            i + needle.len(),
        ) == needle
}

/// Whether `needle` occurs in `hay`, by direct character comparison.
pub fn contains_str(hay: &str, needle: &str) -> (b: bool)
    ensures
        b == is_substring_of(needle@, hay@),
{
    let n = needle.unicode_len();
    let h = hay.unicode_len();
    if n > h {
        proof {
            assert forall|i: int| 0 <= i && i + needle@.len() <= hay@.len() implies #[trigger] hay@.subrange(
                i,
                i + needle@.len(),
            ) != needle@ by {}
        }
        return false;
    }
    let mut i: usize = 0;
    while i <= h - n
        invariant
            n <= h,
            h == hay@.len(),
            n == needle@.len(),
            i <= h - n + 1,
            forall|k: int|
                0 <= k < i ==> #[trigger] hay@.subrange(k, k + needle@.len()) != needle@,
        decreases h - n - i + 1,
    {
        let mut j: usize = 0;
        let mut mismatch = false;
        while j < n
            invariant
                n <= h,
                h == hay@.len(),
                n == needle@.len(),
                i + n <= h,
                j <= n,
                !mismatch ==> forall|l: int| 0 <= l < j ==> hay@[i + l] == needle@[l],
                mismatch ==> hay@.subrange(i as int, i + needle@.len()) != needle@,
            decreases n - j,
        {
            if hay.get_char(i + j) != needle.get_char(j) {
                proof {
                    assert(hay@.subrange(i as int, i + needle@.len())[j as int] != needle@[
                        j as int
                    ]);
                }
                mismatch = true;
                j = n;
            } else {
                j = j + 1;
            }
        }
        if !mismatch {
            proof {
                assert(hay@.subrange(i as int, i + needle@.len()) =~= needle@);
            }
            return true;
        }
        proof {
            if n == 0 {
                assert(hay@.subrange(i as int, i + needle@.len()) =~= needle@);
            }
        }
        i = i + 1;
    }
    proof {
        assert forall|k: int| 0 <= k && k + needle@.len() <= hay@.len() implies #[trigger] hay@.subrange(
            k,
            k + needle@.len(),
        ) != needle@ by {}
    }
    false
}

} // verus!
