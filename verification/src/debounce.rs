//! Thinning out a stream: after an item, nothing is let through for a while.

use vstd::prelude::*;

verus! {

/// What a stream says when it is asked for its next item.
#[derive(Debug, PartialEq, Eq)]
pub enum Poll<T> {
    /// This.
    Ready(T),
    /// Nothing yet.
    Pending,
}

/// A stream that lets an item through only once `duration` has passed since the one before.
/// Times are nanoseconds on one steady clock.
pub struct DebounceStream<T> {
    /// The stream that the items come from.
    pub stream: T,
    /// How long nothing is let through after an item.
    pub duration: u128,
    /// When an item was let through last.
    pub last_item_yielded_at: Option<u128>,
}

/// Whether an item that comes at `now` is let through.
pub open spec fn lets_through(last: Option<u128>, duration: u128, now: u128) -> bool {
    match last {
        Some(at) => at + duration <= now || duration == 0,
        None => true,
    }
}

/// A stream of items, of whatever kind `T` is.
pub struct S<T>(pub T);

impl<T> S<T> {
    /// Lets an item of this stream through only once `duration` has passed since the one before.
    pub fn debounce(self, duration: u128) -> (r: DebounceStream<T>)
        ensures
            r.stream == self.0,
            r.duration == duration,
            r.last_item_yielded_at is None,
    {
        DebounceStream { stream: self.0, duration, last_item_yielded_at: None }
    }
}

impl<T> DebounceStream<T> {
    /// What to say when the stream below has said `polled`. The clock showed `checked_at` when
    /// the time since the last item was taken, and `yielded_at` right after.
    ///
    /// What comes too early is dropped, the end of the stream not excepted.
    pub fn poll_next<I>(
        &mut self,
        polled: Poll<Option<I>>,
        checked_at: u128,
        yielded_at: u128,
    ) -> (r: Poll<Option<I>>)
        ensures
            final(self).stream == old(self).stream,
            final(self).duration == old(self).duration,
            polled is Pending ==> r is Pending,
            polled is Ready && old(self).last_item_yielded_at is None ==> r is Ready,
            old(self).last_item_yielded_at matches Some(at) ==> (polled is Ready ==> (r is Pending
                <==> (if checked_at < at {
                0
            } else {
                checked_at - at
            }) < old(self).duration)),
            match polled {
                Poll::Ready(item) if lets_through(
                    old(self).last_item_yielded_at,
                    old(self).duration,
                    checked_at,
                ) => r == Poll::Ready(item) && final(self).last_item_yielded_at == Some(yielded_at),
                _ => r == Poll::<Option<I>>::Pending && final(self).last_item_yielded_at == old(
                    self,
                ).last_item_yielded_at,
            },
    {
        match polled {
            Poll::Pending => Poll::Pending,
            Poll::Ready(item) => {
                if let Some(at) = self.last_item_yielded_at {
                    let elapsed: u128 = checked_at.saturating_sub(at);
                    if elapsed < self.duration {
                        return Poll::Pending;
                    }
                }
                self.last_item_yielded_at = Some(yielded_at);
                Poll::Ready(item)
            },
        }
    }
}

/// One time that the stream was asked.
pub struct PollAt {
    /// Whether the stream below had something to say.
    pub ready: bool,
    /// When the time since the last item was taken.
    pub checked_at: u128,
    /// When the item was let through, if it was.
    pub yielded_at: u128,
}

/// When an item was let through last, after the stream was asked as in `polls`.
pub open spec fn last_after(last: Option<u128>, duration: u128, polls: Seq<PollAt>) -> Option<u128>
    decreases polls.len(),
{
    if polls.len() == 0 {
        last
    } else {
        let before = last_after(last, duration, polls.drop_last());
        let poll = polls.last();
        if poll.ready && lets_through(before, duration, poll.checked_at) {
            Some(poll.yielded_at)
        } else {
            before
        }
    }
}

/// Whether something is let through the `i`th time of a new stream.
pub open spec fn yields(duration: u128, polls: Seq<PollAt>, i: int) -> bool {
    polls[i].ready && lets_through(
        last_after(None, duration, polls.take(i)),
        duration,
        polls[i].checked_at,
    )
}

/// Whether the clock never went back.
pub open spec fn steady(polls: Seq<PollAt>) -> bool {
    &&& forall|i: int|
        0 <= i < polls.len() ==> (#[trigger] polls[i]).checked_at <= polls[i].yielded_at
    &&& forall|i: int, j: int|
        0 <= i < j < polls.len() ==> (#[trigger] polls[i]).yielded_at <= (
        #[trigger] polls[j]).checked_at
}

/// Between any two items that are let through, `duration` passes.
pub proof fn items_are_spaced(duration: u128, polls: Seq<PollAt>, i: int, j: int)
    requires
        steady(polls),
        0 <= i < j < polls.len(),
        yields(duration, polls, i),
        yields(duration, polls, j),
    ensures
        polls[i].yielded_at + duration <= polls[j].checked_at,
{
    lemma_last_not_before(duration, polls, i, j);
}

proof fn lemma_last_not_before(duration: u128, polls: Seq<PollAt>, i: int, k: int)
    requires
        steady(polls),
        0 <= i < k <= polls.len(),
        yields(duration, polls, i),
    ensures
        last_after(None, duration, polls.take(k)) matches Some(at) && at >= polls[i].yielded_at,
    decreases k,
{
    let asked = polls.take(k);
    assert(asked.drop_last() =~= polls.take(k - 1));
    assert(asked.last() == polls[k - 1]);
    if i < k - 1 {
        lemma_last_not_before(duration, polls, i, k - 1);
        assert(polls[i].yielded_at <= polls[k - 1].checked_at);
        assert(polls[k - 1].checked_at <= polls[k - 1].yielded_at);
    }
}

/// The first thing that the stream below says is let through.
pub proof fn first_item_passes(duration: u128, polls: Seq<PollAt>, i: int)
    requires
        0 <= i < polls.len(),
        polls[i].ready,
        forall|j: int| 0 <= j < i ==> !(#[trigger] polls[j]).ready,
    ensures
        yields(duration, polls, i),
{
    lemma_none_without_items(duration, polls, i);
}

proof fn lemma_none_without_items(duration: u128, polls: Seq<PollAt>, i: int)
    requires
        0 <= i <= polls.len(),
        forall|j: int| 0 <= j < i ==> !(#[trigger] polls[j]).ready,
    ensures
        last_after(None, duration, polls.take(i)) is None,
    decreases i,
{
    if i > 0 {
        assert(polls.take(i).drop_last() =~= polls.take(i - 1));
        assert(!polls[i - 1].ready);
        lemma_none_without_items(duration, polls, i - 1);
    }
}

/// An item passes exactly where none has passed yet, where the time that has gone by since the
/// last one is at least the duration, and where there is no duration to wait for. A clock that
/// went back counts as no time gone by.
pub proof fn items_wait_for_the_duration(at: u128, duration: u128, elapsed: u128, now: u128)
    ensures
        lets_through(None, duration, now),
        lets_through(Some(at), 0, now),
        at + elapsed == now ==> (lets_through(Some(at), duration, now) <==> elapsed >= duration),
        now < at && duration > 0 ==> !lets_through(Some(at), duration, now),
{
}

/// Once something passes, so does everything that comes later, and nothing passes a longer wait
/// that does not pass a shorter one.
pub proof fn waiting_longer_never_hurts(
    last: Option<u128>,
    duration: u128,
    longer: u128,
    now: u128,
    later: u128,
)
    requires
        now <= later,
        duration <= longer,
    ensures
        lets_through(last, duration, now) ==> lets_through(last, duration, later),
        lets_through(last, longer, now) ==> lets_through(last, duration, now),
{
}

} // verus!
