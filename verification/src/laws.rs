//! The matcher's laws, each stated over the spec-level model and proved.

use vstd::prelude::*;

use crate::matching::is_embedding;
use crate::matching::occurs_in_order;
use crate::matching::subsequence_match;

verus! {

/// An empty pattern matches every subject, the empty subject included.
pub proof fn lemma_empty_pattern_matches(pattern: Seq<char>, subject: Seq<char>)
    requires
        pattern.len() == 0,
    ensures
        subsequence_match(pattern, subject),
{
}

/// A non-empty pattern never matches an empty subject.
pub proof fn lemma_empty_subject_rejected(pattern: Seq<char>, subject: Seq<char>)
    requires
        pattern.len() > 0,
        subject.len() == 0,
    ensures
        !subsequence_match(pattern, subject),
{
}

/// Every pattern matches itself: exact equality is a match.
pub proof fn lemma_exact_match(pattern: Seq<char>)
    ensures
        subsequence_match(pattern, pattern),
    decreases pattern.len(),
{
    if pattern.len() > 0 {
        lemma_exact_match(pattern.skip(1));
    }
}

/// A pattern longer than the subject never matches it.
pub proof fn lemma_longer_pattern_rejected(pattern: Seq<char>, subject: Seq<char>)
    requires
        pattern.len() > subject.len(),
    ensures
        !subsequence_match(pattern, subject),
    decreases subject.len(),
{
    if subject.len() > 0 {
        if pattern[0] == subject[0] {
            lemma_longer_pattern_rejected(pattern.skip(1), subject.skip(1));
        } else {
            lemma_longer_pattern_rejected(pattern, subject.skip(1));
        }
    }
}

proof fn lemma_match_implies_embedding(pattern: Seq<char>, subject: Seq<char>)
    requires
        subsequence_match(pattern, subject),
    ensures
        occurs_in_order(pattern, subject),
    decreases subject.len(),
{
    if pattern.len() == 0 {
        let positions = Seq::<int>::empty();
        assert(is_embedding(positions, pattern, subject));
    } else if pattern[0] == subject[0] {
        lemma_match_implies_embedding(pattern.skip(1), subject.skip(1));
        let tail = choose|m: Seq<int>| is_embedding(m, pattern.skip(1), subject.skip(1));
        let positions = seq![0int] + tail.map_values(|x: int| x + 1);
        assert forall|i: int| 0 <= i < positions.len() implies {
            &&& 0 <= #[trigger] positions[i] < subject.len()
            &&& subject[positions[i]] == pattern[i]
        } by {
            if i > 0 {
                assert(positions[i] == tail[i - 1] + 1);
                assert(subject.skip(1)[tail[i - 1]] == pattern.skip(1)[i - 1]);
            }
        }
        assert(is_embedding(positions, pattern, subject));
    } else {
        lemma_match_implies_embedding(pattern, subject.skip(1));
        let tail = choose|m: Seq<int>| is_embedding(m, pattern, subject.skip(1));
        let positions = tail.map_values(|x: int| x + 1);
        assert forall|i: int| 0 <= i < positions.len() implies {
            &&& 0 <= #[trigger] positions[i] < subject.len()
            &&& subject[positions[i]] == pattern[i]
        } by {
            assert(positions[i] == tail[i] + 1);
            assert(subject.skip(1)[tail[i]] == pattern[i]);
        }
        assert(is_embedding(positions, pattern, subject));
    }
}

proof fn lemma_embedding_implies_match(positions: Seq<int>, pattern: Seq<char>, subject: Seq<char>)
    requires
        is_embedding(positions, pattern, subject),
    ensures
        subsequence_match(pattern, subject),
    decreases subject.len(),
{
    if pattern.len() > 0 {
        assert(0 <= positions[0] < subject.len());
        if pattern[0] == subject[0] {
            let tail = positions.skip(1).map_values(|x: int| x - 1);
            assert forall|i: int| 0 <= i < tail.len() implies {
                &&& 0 <= #[trigger] tail[i] < subject.skip(1).len()
                &&& subject.skip(1)[tail[i]] == pattern.skip(1)[i]
            } by {
                assert(tail[i] == positions[i + 1] - 1);
                assert(positions[0] < positions[i + 1]);
                assert(subject[positions[i + 1]] == pattern[i + 1]);
            }
            assert forall|i: int, j: int|
                #![trigger tail[i], tail[j]]
                0 <= i < j < tail.len() implies tail[i] < tail[j] by {
                assert(positions[i + 1] < positions[j + 1]);
            }
            assert(is_embedding(tail, pattern.skip(1), subject.skip(1)));
            lemma_embedding_implies_match(tail, pattern.skip(1), subject.skip(1));
        } else {
            assert(positions[0] != 0);
            let shifted = positions.map_values(|x: int| x - 1);
            assert forall|i: int| 0 <= i < shifted.len() implies {
                &&& 0 <= #[trigger] shifted[i] < subject.skip(1).len()
                &&& subject.skip(1)[shifted[i]] == pattern[i]
            } by {
                assert(shifted[i] == positions[i] - 1);
                if i > 0 {
                    assert(positions[0] < positions[i]);
                }
                assert(subject[positions[i]] == pattern[i]);
            }
            assert forall|i: int, j: int|
                #![trigger shifted[i], shifted[j]]
                0 <= i < j < shifted.len() implies shifted[i] < shifted[j] by {
                assert(positions[i] < positions[j]);
            }
            assert(is_embedding(shifted, pattern, subject.skip(1)));
            lemma_embedding_implies_match(shifted, pattern, subject.skip(1));
        }
    }
}

/// The matcher decides exactly in-order subsequence containment: a pattern
/// matches a subject if and only if the pattern's characters occur, in order
/// though not necessarily contiguously, within the subject.
pub proof fn lemma_match_iff_occurs_in_order(pattern: Seq<char>, subject: Seq<char>)
    ensures
        subsequence_match(pattern, subject) <==> occurs_in_order(pattern, subject),
{
    if subsequence_match(pattern, subject) {
        lemma_match_implies_embedding(pattern, subject);
    }
    if occurs_in_order(pattern, subject) {
        let positions = choose|m: Seq<int>| is_embedding(m, pattern, subject);
        lemma_embedding_implies_match(positions, pattern, subject);
    }
}

/// Reversal does not preserve a match: a pattern of two or more pairwise
/// distinct characters, read backwards, never matches the pattern itself.
pub proof fn lemma_reversed_pattern_rejected(pattern: Seq<char>)
    requires
        pattern.len() >= 2,
        forall|i: int, j: int|
            #![trigger pattern[i], pattern[j]]
            0 <= i < j < pattern.len() ==> pattern[i] != pattern[j],
    ensures
        !subsequence_match(pattern.reverse(), pattern),
{
    if subsequence_match(pattern.reverse(), pattern) {
        lemma_match_implies_embedding(pattern.reverse(), pattern);
        let positions = choose|m: Seq<int>| is_embedding(m, pattern.reverse(), pattern);
        let last = pattern.len() - 1;
        assert(pattern.reverse()[0] == pattern[last]);
        assert(pattern[positions[0]] == pattern[last]);
        if positions[0] < last {
            assert(pattern[positions[0]] != pattern[last]);
        }
        assert(positions[0] == last);
        assert(positions[0] < positions[1]);
        assert(positions[1] < pattern.len());
        assert(false);
    }
}

} // verus!
