//! The candidate passphrases of one cracking run.
//!
//! A wordlist is split into lines on `\n`; a `\r` directly before the `\n`
//! belongs to the line terminator. Nothing else is removed: leading and
//! trailing blanks of a line are part of the passphrase.

use vstd::prelude::*;
use vstd::string::StringSliceAdditionalSpecFns;
use vstd::utf8::{
    encode_utf8,
    encode_utf8_valid_utf8,
    is_char_boundary,
    is_char_boundary_iff_not_is_continuation_byte,
    is_char_boundary_start_end_of_seq,
    is_continuation_byte,
    length_of_first_scalar,
    pop_first_scalar,
    valid_first_scalar,
    valid_utf8,
};
use crate::bytes::{find_byte, prefix_before};

verus! {

/// One candidate passphrase.
#[derive(Clone, Debug)]
pub struct Candidate {
    text: String,
}

impl View for Candidate {
    type V = Seq<char>;

    closed spec fn view(&self) -> Seq<char> {
        self.text@
    }
}

impl Candidate {
    /// The UTF-8 bytes of the passphrase, as they enter the key derivation.
    pub open spec fn bytes(&self) -> Seq<u8> {
        encode_utf8(self@)
    }

    /// Makes a candidate of a passphrase, which is kept character for
    /// character.
    pub fn new(text: String) -> (candidate: Candidate)
        ensures
            candidate@ == text@,
    {
        Candidate { text }
    }

    /// The passphrase.
    pub fn as_str(&self) -> (text: &str)
        ensures
            text@ == self@,
    {
        self.text.as_str()
    }

    /// The UTF-8 bytes of the passphrase.
    pub fn as_bytes(&self) -> (bytes: &[u8])
        ensures
            bytes@ == self.bytes(),
    {
        self.text.as_str().as_bytes()
    }
}

/// `line` without the `\r` that it ends in, if it ends in one.
pub open spec fn strip_cr(line: Seq<u8>) -> Seq<u8> {
    if line.len() > 0 && line.last() == 0x0d {
        line.drop_last()
    } else {
        line
    }
}

/// The lines of a text. Each `\n` ends a line, and a `\r` directly before
/// it is dropped with it; what follows the last `\n` is a line of its own
/// unless it is empty, and is kept whole.
pub open spec fn lines_of(text: Seq<u8>) -> Seq<Seq<u8>>
    decreases text.len(),
{
    let n = prefix_before(text, 0x0a).len() as int;
    if text.len() == 0 {
        Seq::empty()
    } else if n >= text.len() {
        seq![text]
    } else {
        seq![strip_cr(prefix_before(text, 0x0a))] + lines_of(text.skip(n + 1))
    }
}

/// The candidates of one run, in wordlist order. Their number is known
/// before the run starts.
#[derive(Clone, Debug)]
pub struct WorkUnit {
    candidates: Vec<Candidate>,
}

impl View for WorkUnit {
    type V = Seq<Candidate>;

    closed spec fn view(&self) -> Seq<Candidate> {
        self.candidates@
    }
}

impl WorkUnit {
    /// The passphrases of the work unit as byte sequences.
    pub open spec fn passphrases(&self) -> Seq<Seq<u8>> {
        self@.map_values(|c: Candidate| c.bytes())
    }

    /// A work unit that holds the given passphrases in their order.
    pub fn new(words: Vec<String>) -> (work: WorkUnit)
        ensures
            work@.len() == words@.len(),
            forall|i: int| 0 <= i < words@.len() ==> (#[trigger] work@[i])@ == words@[i]@,
    {
        let mut candidates: Vec<Candidate> = Vec::new();
        let mut i: usize = 0;
        while i < words.len()
            invariant
                i <= words@.len(),
                candidates@.len() == i,
                forall|k: int| 0 <= k < i ==> (#[trigger] candidates@[k])@ == words@[k]@,
            decreases words@.len() - i,
        {
            candidates.push(Candidate::new(words[i].clone()));
            i += 1;
        }
        WorkUnit { candidates }
    }

    /// The number of candidates.
    pub fn len(&self) -> (n: usize)
        ensures
            n == self@.len(),
    {
        self.candidates.len()
    }

    /// True when the work unit holds no candidate.
    pub fn is_empty(&self) -> (empty: bool)
        ensures
            empty == (self@.len() == 0),
    {
        self.candidates.len() == 0
    }

    /// The candidate at position `index`, or `None` past the end.
    pub fn get(&self, index: usize) -> (candidate: Option<&Candidate>)
        ensures
            index < self@.len() ==> candidate == Some(&self@[index as int]),
            index >= self@.len() ==> candidate is None,
    {
        if index < self.candidates.len() {
            Some(&self.candidates[index])
        } else {
            None
        }
    }
}

/// In valid UTF-8 an ASCII byte starts a character and ends it.
proof fn lemma_ascii_boundaries(s: Seq<u8>, n: int)
    requires
        valid_utf8(s),
        0 <= n < s.len(),
        s[n] < 0x80,
    ensures
        is_char_boundary(s, n),
        is_char_boundary(s, n + 1),
{
    is_char_boundary_iff_not_is_continuation_byte(s, n);
    if n + 1 == s.len() {
        is_char_boundary_start_end_of_seq(s);
    } else {
        lemma_after_ascii(s, n);
        is_char_boundary_iff_not_is_continuation_byte(s, n + 1);
    }
}

/// In valid UTF-8 no continuation byte follows an ASCII byte.
proof fn lemma_after_ascii(s: Seq<u8>, n: int)
    requires
        valid_utf8(s),
        0 <= n,
        n + 1 < s.len(),
        s[n] < 0x80,
    ensures
        !is_continuation_byte(s[n + 1]),
    decreases s.len(),
{
    let width = length_of_first_scalar(s);
    let rest = pop_first_scalar(s);
    if n == 0 {
        assert(width == 1);
        assert(valid_utf8(rest));
        assert(rest.len() > 0);
        assert(valid_first_scalar(rest));
        assert(rest[0] == s[1]);
    } else if n < width {
        assert(is_continuation_byte(s[n]));
    } else {
        assert(rest[n - width] == s[n]);
        assert(rest[n - width + 1] == s[n + 1]);
        lemma_after_ascii(rest, n - width);
    }
}

/// Splits a wordlist into its candidates, one per line.
///
/// Every line becomes one candidate, byte for byte, without its terminator
/// (`\n` or `\r\n`). An empty line is the empty passphrase. The whole list
/// is built before the function returns, so its length is known.
pub fn load_candidates(text: &str) -> (work: WorkUnit)
    ensures
        work.passphrases() == lines_of(text.spec_bytes()),
{
    let mut candidates: Vec<Candidate> = Vec::new();
    let mut rest: &str = text;
    let ghost bytes_of = |c: Candidate| c.bytes();
    assert(candidates@.map_values(bytes_of) =~= Seq::<Seq<u8>>::empty());
    loop
        invariant_except_break
            lines_of(text.spec_bytes()) == candidates@.map_values(bytes_of) + lines_of(
                rest.spec_bytes(),
            ),
        invariant
            bytes_of == (|c: Candidate| c.bytes()),
        ensures
            lines_of(text.spec_bytes()) == candidates@.map_values(bytes_of),
        decreases rest.spec_bytes().len(),
    {
        let bytes = rest.as_bytes();
        let ghost all = rest.spec_bytes();
        proof {
            encode_utf8_valid_utf8(rest@);
        }
        let n = find_byte(bytes, 0x0a);
        if n == bytes.len() {
            if n > 0 {
                let last = Candidate::new(rest.to_owned());
                proof {
                    assert(all.take(n as int) =~= all);
                    assert(lines_of(all) =~= seq![all]);
                    candidates@.lemma_push_map_commute(bytes_of, last);
                    assert(candidates@.push(last).map_values(bytes_of) =~= candidates@.map_values(
                        bytes_of,
                    ) + lines_of(all));
                }
                candidates.push(last);
            } else {
                assert(lines_of(all) =~= Seq::<Seq<u8>>::empty());
            }
            break;
        }
        proof {
            lemma_ascii_boundaries(all, n as int);
        }
        let (line, tail) = rest.split_at(n);
        let ghost full = line.spec_bytes();
        assert(full =~= prefix_before(all, 0x0a));
        let line_bytes = line.as_bytes();
        let kept = if line_bytes.len() > 0 && line_bytes[line_bytes.len() - 1] == 0x0d {
            proof {
                encode_utf8_valid_utf8(line@);
                lemma_ascii_boundaries(full, full.len() - 1);
            }
            let (kept, _) = line.split_at(line_bytes.len() - 1);
            assert(kept.spec_bytes() =~= full.drop_last());
            kept
        } else {
            line
        };
        assert(kept.spec_bytes() == strip_cr(full));
        let candidate = Candidate::new(kept.to_owned());
        proof {
            encode_utf8_valid_utf8(tail@);
            lemma_ascii_boundaries(tail.spec_bytes(), 0);
        }
        let (_, after) = tail.split_at(1);
        proof {
            assert(after.spec_bytes() =~= all.skip(n + 1));
            candidates@.lemma_push_map_commute(bytes_of, candidate);
            assert(lines_of(all) =~= seq![strip_cr(full)] + lines_of(all.skip(n + 1)));
            assert(candidates@.push(candidate).map_values(bytes_of) + lines_of(after.spec_bytes())
                =~= candidates@.map_values(bytes_of) + lines_of(all));
        }
        candidates.push(candidate);
        rest = after;
    }
    WorkUnit { candidates }
}

} // verus!
