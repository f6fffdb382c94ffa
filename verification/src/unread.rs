//! Counting unread messages against a read watermark.

use crate::ident::same_id;
use uuid::Uuid;
use vstd::prelude::*;

verus! {

/// Number of entries at the end of `history` that come after the last
/// occurrence of `mark`. When `mark` does not occur, that is every entry.
pub open spec fn newer_than(history: Seq<Uuid>, mark: Uuid) -> nat
    decreases history.len(),
{
    if history.len() == 0 || history.last() == mark {
        0
    } else {
        1 + newer_than(history.drop_last(), mark)
    }
}

/// Unread messages of a conversation whose messages, oldest first, are
/// `history`, when the last message seen is `last_read`.
pub open spec fn unread_after(history: Seq<Uuid>, last_read: Option<Uuid>) -> nat {
    match last_read {
        Some(mark) => newer_than(history, mark),
        None => history.len(),
    }
}

/// `newer_than` is the length of the longest suffix that does not hold `mark`.
pub proof fn lemma_newer_than_bounds(history: Seq<Uuid>, mark: Uuid)
    ensures
        newer_than(history, mark) <= history.len(),
        forall|i: int|
            history.len() - newer_than(history, mark) <= i < history.len() ==> history[i] != mark,
        newer_than(history, mark) < history.len() ==> history[history.len() - newer_than(
            history,
            mark,
        ) - 1] == mark,
    decreases history.len(),
{
    if history.len() != 0 && history.last() != mark {
        let front = history.drop_last();
        lemma_newer_than_bounds(front, mark);
        assert forall|i: int|
            history.len() - newer_than(history, mark) <= i < history.len() implies history[i]
            != mark by {
            if i < front.len() {
                assert(history[i] == front[i]);
            }
        }
    }
}

/// The count is the only number of which the three clauses of
/// `lemma_newer_than_bounds` hold: whatever else meets them equals it.
pub proof fn lemma_newer_than_unique(history: Seq<Uuid>, mark: Uuid, n: nat)
    requires
        n <= history.len(),
        forall|i: int| history.len() - n <= i < history.len() ==> history[i] != mark,
        n < history.len() ==> history[history.len() - n - 1] == mark,
    ensures
        n == newer_than(history, mark),
{
    lemma_newer_than_bounds(history, mark);
    let m = newer_than(history, mark);
    // Were they different, the smaller would end just after an entry that
    // is the watermark, inside the stretch that the larger says is free of
    // it.
    if n < m {
        assert(history[history.len() - n - 1] != mark);
    } else if m < n {
        assert(history[history.len() - m - 1] != mark);
    }
}

/// A message that arrives at the end of the history is one more unread
/// message, unless it is the watermark itself: then nothing is unread.
pub proof fn lemma_unread_after_arrival(history: Seq<Uuid>, last_read: Option<Uuid>, message: Uuid)
    ensures
        last_read != Some(message) ==> unread_after(history.push(message), last_read)
            == unread_after(history, last_read) + 1,
        last_read == Some(message) ==> unread_after(history.push(message), last_read) == 0,
{
    let longer = history.push(message);
    assert(longer.drop_last() == history);
}

/// With a watermark that the history does not hold, every message is unread.
pub proof fn lemma_unknown_mark_counts_all(history: Seq<Uuid>, mark: Uuid)
    requires
        !history.contains(mark),
    ensures
        newer_than(history, mark) == history.len(),
    decreases history.len(),
{
    if history.len() != 0 {
        let front = history.drop_last();
        assert(history.last() != mark);
        assert forall|i: int| 0 <= i < front.len() implies front[i] != mark by {
            assert(history[i] == front[i]);
        }
        lemma_unknown_mark_counts_all(front, mark);
    }
}

/// Counts the unread messages of `history` (oldest first) for the watermark
/// `last_read`.
pub fn count_unread(history: &Vec<Uuid>, last_read: Option<Uuid>) -> (count: usize)
    ensures
        count == unread_after(history@, last_read),
{
    match last_read {
        None => history.len(),
        Some(mark) => {
            let mut count: usize = 0;
            proof {
                assert(history@.take(history.len() as int) == history@);
            }
            while count < history.len() && !same_id(&history[history.len() - 1 - count], &mark)
                invariant
                    count <= history.len(),
                    newer_than(history@, mark) == count + newer_than(
                        history@.take(history.len() - count),
                        mark,
                    ),
                decreases history.len() - count,
            {
                proof {
                    let rest = history@.take(history.len() - count);
                    assert(rest.drop_last() == history@.take(history.len() - count - 1));
                }
                count = count + 1;
            }
            count
        },
    }
}

} // verus!
