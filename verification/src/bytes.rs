//! Searching a byte sequence for a delimiter.

use vstd::prelude::*;

verus! {

/// The bytes of `s` before its first `delimiter` (all of `s` if it has none).
pub open spec fn prefix_before(s: Seq<u8>, delimiter: u8) -> Seq<u8>
    decreases s.len(),
{
    if s.len() == 0 || s[0] == delimiter {
        Seq::empty()
    } else {
        seq![s[0]] + prefix_before(s.drop_first(), delimiter)
    }
}

/// `prefix_before(s, delimiter)` is the one prefix of `s` that holds no
/// `delimiter` and is followed by one or by the end of `s`.
pub proof fn lemma_prefix_before(s: Seq<u8>, delimiter: u8, n: int)
    requires
        0 <= n <= s.len(),
        forall|i: int| 0 <= i < n ==> s[i] != delimiter,
        n == s.len() || s[n] == delimiter,
    ensures
        prefix_before(s, delimiter) == s.take(n),
    decreases s.len(),
{
    if s.len() == 0 || s[0] == delimiter {
        assert(s.take(n) =~= Seq::<u8>::empty());
    } else {
        let rest = s.drop_first();
        assert forall|i: int| 0 <= i < n - 1 implies rest[i] != delimiter by {
            assert(rest[i] == s[i + 1]);
        }
        lemma_prefix_before(rest, delimiter, n - 1);
        assert(s.take(n) =~= seq![s[0]] + rest.take(n - 1));
    }
}

/// The index of the first `delimiter` in `s`, or the length of `s` if it
/// holds none.
pub fn find_byte(s: &[u8], delimiter: u8) -> (n: usize)
    ensures
        n <= s@.len(),
        prefix_before(s@, delimiter) == s@.take(n as int),
        forall|i: int| 0 <= i < n ==> s@[i] != delimiter,
        n < s@.len() ==> s@[n as int] == delimiter,
{
    let mut n: usize = 0;
    while n < s.len() && s[n] != delimiter
        invariant
            n <= s.len(),
            forall|i: int| 0 <= i < n ==> s@[i] != delimiter,
        decreases s.len() - n,
    {
        n += 1;
    }
    proof {
        lemma_prefix_before(s@, delimiter, n as int);
    }
    n
}

} // verus!
