//! The matcher itself: a spec-level model of in-order subsequence
//! containment and the executable two-pointer scan that decides it.

use vstd::prelude::*;
use vstd::string::StrSliceExecFns;

use crate::laws;

verus! {

/// Greedy model of in-order subsequence containment: an empty pattern matches
/// any subject, a non-empty pattern never matches an empty subject, and
/// otherwise the two head characters are compared, consuming the pattern's
/// head exactly when they are equal.
pub open spec fn subsequence_match(pattern: Seq<char>, subject: Seq<char>) -> bool
    decreases subject.len(),
{
    if pattern.len() == 0 {
        true
    } else if subject.len() == 0 {
        false
    } else if pattern[0] == subject[0] {
        subsequence_match(pattern.skip(1), subject.skip(1))
    } else {
        subsequence_match(pattern, subject.skip(1))
    }
}

/// `positions` embeds `pattern` into `subject`: it names, for each pattern
/// character in order, a strictly increasing position of `subject` that holds
/// that character.
pub open spec fn is_embedding(positions: Seq<int>, pattern: Seq<char>, subject: Seq<char>) -> bool {
    &&& positions.len() == pattern.len()
    &&& (forall|i: int| 0 <= i < positions.len() ==> 0 <= #[trigger] positions[i] < subject.len())
    &&& (forall|i: int| 0 <= i < positions.len() ==> subject[#[trigger] positions[i]] == pattern[i])
    &&& (forall|i: int, j: int|
        #![trigger positions[i], positions[j]]
        0 <= i < j < positions.len() ==> positions[i] < positions[j])
}

/// The characters of `pattern` occur within `subject` in order, though not
/// necessarily contiguously.
pub open spec fn occurs_in_order(pattern: Seq<char>, subject: Seq<char>) -> bool {
    exists|positions: Seq<int>| is_embedding(positions, pattern, subject)
}

/// Collects the Unicode scalar values of `s`, one `char` per scalar value.
pub fn chars_of(s: &str) -> (out: Vec<char>)
    ensures
        out@ == s@,
{
    let n: usize = s.unicode_len();
    let mut out: Vec<char> = Vec::new();
    let mut i: usize = 0;
    while i < n
        invariant
            n == s@.len(),
            i <= n,
            out@ == s@.take(i as int),
        decreases n - i,
    {
        let c = s.get_char(i);
        out.push(c);
        proof {
            assert(out@ =~= s@.take(i as int + 1));
        }
        i = i + 1;
    }
    proof {
        assert(out@ =~= s@);
    }
    out
}

/// Two-pointer scan over sequences of scalar values: walks `subject` once,
/// advancing a cursor into `pattern` whenever the current characters are
/// equal; the pattern matched exactly when its cursor reached the end.
pub fn chars_match(pattern: &Vec<char>, subject: &Vec<char>) -> (r: bool)
    ensures
        r == subsequence_match(pattern@, subject@),
{
    if pattern.len() > subject.len() {
        proof {
            laws::lemma_longer_pattern_rejected(pattern@, subject@);
        }
        return false;
    }
    let mut pi: usize = 0;
    let mut si: usize = 0;
    proof {
        assert(pattern@.skip(0) =~= pattern@);
        assert(subject@.skip(0) =~= subject@);
    }
    while pi < pattern.len() && si < subject.len()
        invariant
            pi <= pattern@.len(),
            si <= subject@.len(),
            subsequence_match(pattern@, subject@) == subsequence_match(
                pattern@.skip(pi as int),
                subject@.skip(si as int),
            ),
        decreases subject@.len() - si,
    {
        proof {
            assert(pattern@.skip(pi as int)[0] == pattern@[pi as int]);
            assert(subject@.skip(si as int)[0] == subject@[si as int]);
            assert(pattern@.skip(pi as int).skip(1) =~= pattern@.skip(pi as int + 1));
            assert(subject@.skip(si as int).skip(1) =~= subject@.skip(si as int + 1));
        }
        if pattern[pi] == subject[si] {
            pi = pi + 1;
        }
        si = si + 1;
    }
    proof {
        if pi == pattern@.len() {
            assert(pattern@.skip(pi as int) =~= Seq::<char>::empty());
        } else {
            assert(subject@.skip(si as int) =~= Seq::<char>::empty());
        }
    }
    pi == pattern.len()
}

/// Decides whether the characters of `search_string` appear, in order though
/// not necessarily contiguously, within `reference_string`. Both strings are
/// read by Unicode scalar value, never by storage byte, and characters are
/// compared by exact scalar-value equality: no case folding, no
/// normalization, no grapheme clustering.
pub fn fuzzy_search_match(search_string: &str, reference_string: &str) -> (r: bool)
    ensures
        r == subsequence_match(search_string@, reference_string@),
        r == occurs_in_order(search_string@, reference_string@),
{
    proof {
        laws::lemma_match_iff_occurs_in_order(search_string@, reference_string@);
    }
    let pattern = chars_of(search_string);
    let subject = chars_of(reference_string);
    chars_match(&pattern, &subject)
}

} // verus!
