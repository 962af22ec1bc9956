//! Per-source frame sequencing.
use vstd::prelude::*;

verus! {

/// What became of one non-blocking send attempt.
#[derive(Clone, Copy, Debug, PartialEq, Eq, Structural)]
pub enum SendStatus {
    /// The envelope was enqueued.
    Delivered,
    /// The channel was at capacity: the envelope was dropped.
    Full,
    /// The receiving side is gone: the envelope was dropped.
    Closed,
}

/// The frame ids that reached the channel, in the order they were sent,
/// when attempt `i` of `attempts` carried frame id `i`.
pub open spec fn delivered_ids(attempts: Seq<SendStatus>) -> Seq<nat>
    decreases attempts.len(),
{
    if attempts.len() == 0 {
        Seq::empty()
    } else {
        let earlier = delivered_ids(attempts.drop_last());
        if attempts.last() == SendStatus::Delivered {
            earlier.push((attempts.len() - 1) as nat)
        } else {
            earlier
        }
    }
}

/// A strictly increasing per-source frame counter. Ids start at 0 and each
/// call of `next_frame` hands out the current value, then advances by one.
/// An id is never handed out twice, also when its frame is later dropped.
pub struct FrameCounter {
    next: usize,
}

impl FrameCounter {
    /// The id that the next call of `next_frame` hands out.
    pub closed spec fn next_id(&self) -> nat {
        self.next as nat
    }

    pub fn new() -> (r: FrameCounter)
        ensures
            r.next_id() == 0,
    {
        FrameCounter { next: 0 }
    }

    /// The id that the next call of `next_frame` hands out.
    pub fn peek(&self) -> (r: usize)
        ensures
            r == self.next_id(),
    {
        self.next
    }

    /// Hands out the current id and advances the counter by one.
    pub fn next_frame(&mut self) -> (id: usize)
        requires
            old(self).next_id() < usize::MAX,
        ensures
            id == old(self).next_id(),
            final(self).next_id() == old(self).next_id() + 1,
    {
        let id = self.next;
        self.next = self.next + 1;
        id
    }
}

/// When every attempt was delivered, the consumer sees the ids `0..n` in
/// increasing order, with no gap. A producer's attempts are those that
/// `LidarHandler::attempts` records.
pub proof fn lemma_all_delivered_no_gaps(attempts: Seq<SendStatus>)
    requires
        forall|i: int| 0 <= i < attempts.len() ==> attempts[i] == SendStatus::Delivered,
    ensures
        delivered_ids(attempts) == Seq::new(attempts.len(), |i: int| i as nat),
    decreases attempts.len(),
{
    if attempts.len() > 0 {
        let front = attempts.drop_last();
        lemma_all_delivered_no_gaps(front);
        assert(delivered_ids(attempts) =~= Seq::new(attempts.len(), |i: int| i as nat));
    }
}

/// Attempts that do not deliver add nothing to what the consumer sees.
pub proof fn lemma_undelivered_tail(attempts: Seq<SendStatus>, keep: int)
    requires
        0 <= keep <= attempts.len(),
        forall|i: int| keep <= i < attempts.len() ==> attempts[i] != SendStatus::Delivered,
    ensures
        delivered_ids(attempts) == delivered_ids(attempts.take(keep)),
    decreases attempts.len() - keep,
{
    if keep < attempts.len() {
        let front = attempts.drop_last();
        lemma_undelivered_tail(front, keep);
        assert(front.take(keep) =~= attempts.take(keep));
    } else {
        assert(attempts.take(keep) =~= attempts);
    }
}

/// After a delivered frame `last`, a channel that is full for exactly `k`
/// attempts followed by a delivered one: the consumer sees `last`, then
/// `last + k + 1`, and the `k` ids between them are skipped.
pub proof fn lemma_full_attempts_leave_gap(attempts: Seq<SendStatus>, last: int, k: int)
    requires
        0 <= last,
        0 <= k,
        attempts.len() == last + k + 2,
        attempts[last] == SendStatus::Delivered,
        forall|i: int| last < i <= last + k ==> attempts[i] == SendStatus::Full,
        attempts[last + k + 1] == SendStatus::Delivered,
    ensures
        delivered_ids(attempts) == delivered_ids(attempts.take(last)).push(last as nat).push(
            (last + k + 1) as nat,
        ),
{
    let upto = attempts.take(last + k + 1);
    assert(attempts.drop_last() =~= upto);
    lemma_undelivered_tail(upto, last + 1);
    assert(upto.take(last + 1) =~= attempts.take(last + 1));
    assert(attempts.take(last + 1).drop_last() =~= attempts.take(last));
}

} // verus!
