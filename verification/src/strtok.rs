//! Splitting a borrowed string at the first occurrence of a delimiter.

use vstd::prelude::*;

verus! {

/// `i` is the first position of `c` in `s`.
pub open spec fn found_at(s: Seq<char>, c: char, i: int) -> bool {
    &&& 0 <= i < s.len()
    &&& s[i] == c
    &&& forall|j: int| 0 <= j < i ==> s[j] != c
}

/// Takes the part of `*s` before the first occurrence of `delimiter` and
/// leaves the part after it in `*s`; when the delimiter does not occur,
/// takes the whole string and leaves `*s` empty.  The returned slice
/// borrows from the original string, not from the reference to it.
pub fn strtok<'a, 'b>(s: &'a mut &'b str, delimiter: char) -> (prefix: &'b str)
    ensures
        forall|i: int|
            found_at(old(s)@, delimiter, i) ==> prefix@ == old(s)@.subrange(0, i) && final(s)@
                == old(s)@.subrange(i + 1, old(s)@.len() as int),
        (forall|j: int| 0 <= j < old(s)@.len() ==> old(s)@[j] != delimiter) ==> prefix@ == old(s)@
            && final(s)@ == Seq::<char>::empty(),
{
    let text: &'b str = *s;
    proof {
        assert(text@ == old(s)@);
    }
    let n = text.unicode_len();
    let mut i: usize = 0;
    while i < n
        invariant
            i <= n == text@.len(),
            text@ == old(s)@,
            forall|j: int| 0 <= j < i ==> text@[j] != delimiter,
        decreases n - i,
    {
        if text.get_char(i) == delimiter {
            let prefix = text.substring_char(0, i);
            let suffix = text.substring_char(i + 1, n);
            *s = suffix;
            proof {
                assert(text@[i as int] == delimiter);
                assert(found_at(text@, delimiter, i as int));
                assert forall|k: int| found_at(text@, delimiter, k) implies k == i as int by {
                    if k < i as int {
                        assert(text@[k] != delimiter);
                    } else if k > i as int {
                        assert(text@[i as int] != delimiter);
                    }
                }
            }
            return prefix;
        }
        i = i + 1;
    }
    *s = "";
    proof {
        reveal_strlit("");
        assert(""@ =~= Seq::<char>::empty());
    }
    text
}

} // verus!
