//! Small text helpers: building an owned string from a character buffer,
//! and a character-wise prefix test.

use vstd::prelude::*;
use vstd::string::StrSliceExecFns;

verus! {

/// Relies on `String::push` from std: appends the given character at the
/// end of the string.
#[verifier::external_body]
fn push_char(s: &mut String, c: char)
    ensures
        final(s)@ == old(s)@.push(c),
{
    s.push(c);
}

/// Collect a character buffer into an owned string with the same characters.
pub fn chars_to_string(text: &Vec<char>) -> (r: String)
    ensures
        r@ == text@,
{
    let mut r = String::new();
    let mut k: usize = 0;
    while k < text.len()
        invariant
            k <= text@.len(),
            r@ == text@.take(k as int),
        decreases text@.len() - k,
    {
        push_char(&mut r, text[k]);
        proof {
            assert(text@.take(k + 1) =~= text@.take(k as int).push(text@[k as int]));
        }
        k = k + 1;
    }
    proof {
        assert(text@.take(text@.len() as int) =~= text@);
    }
    r
}

/// Whether `prefix` is a prefix of `text`, character by character.
pub fn str_starts_with(text: &str, prefix: &str) -> (r: bool)
    ensures
        r == prefix@.is_prefix_of(text@),
{
    let n = prefix.unicode_len();
    if n > text.unicode_len() {
        return false;
    }
    let mut k: usize = 0;
    while k < n
        invariant
            n == prefix@.len(),
            n <= text@.len(),
            k <= n,
            forall|t: int| 0 <= t < k ==> prefix@[t] == text@[t],
        decreases n - k,
    {
        if prefix.get_char(k) != text.get_char(k) {
            proof {
                assert(text@.subrange(0, n as int)[k as int] == text@[k as int]);
            }
            return false;
        }
        k = k + 1;
    }
    proof {
        assert(prefix@ =~= text@.subrange(0, n as int));
    }
    true
}

} // verus!
