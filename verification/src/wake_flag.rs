//! Notifications that are coalesced without dropping the data behind them.
use vstd::prelude::*;

verus! {

/// Whether a notification is on its way.
#[derive(Clone, Copy, Debug, PartialEq, Eq, Structural)]
pub struct WakeFlag {
    pub pending: bool,
}

impl Default for WakeFlag {
    fn default() -> (r: Self)
        ensures
            !r.pending,
    {
        WakeFlag { pending: false }
    }
}

/// Whether the flag is up after a producer raised it, given whether it was up
/// and whether the notification could be delivered.
pub open spec fn raised(pending: bool, delivered: bool) -> bool {
    pending || delivered
}

/// How many notifications a run of producers sends, each of which can deliver
/// one or not.
pub open spec fn sends(pending: bool, producers: Seq<bool>) -> nat
    decreases producers.len(),
{
    if producers.len() == 0 {
        0
    } else {
        (if pending {
            0nat
        } else {
            1nat
        }) + sends(raised(pending, producers[0]), producers.skip(1))
    }
}

impl WakeFlag {
    /// Raises the flag, and sends a notification if it was down. A notification
    /// that could not be delivered leaves the flag down, so that a closed event
    /// loop does not keep it up for ever.
    pub fn post<F: FnOnce() -> bool>(&mut self, send: F)
        requires
            !old(self).pending ==> send.requires(()),
        ensures
            old(self).pending ==> final(self).pending,
            !old(self).pending ==> exists|delivered: bool|
                #[trigger] send.ensures((), delivered) && final(self).pending == raised(
                    old(self).pending,
                    delivered,
                ),
    {
        if self.pending {
            return ;
        }
        self.pending = true;
        let delivered: bool = send();
        if !delivered {
            self.pending = false;
        }
    }

    /// The consumer lowers the flag before it looks at what changed, never after:
    /// a producer can then raise it again without being lost.
    pub fn acknowledge(&mut self)
        ensures
            !final(self).pending,
    {
        self.pending = false;
    }
}

/// A burst of producers that can deliver shares one notification.
pub proof fn a_burst_sends_once(producers: Seq<bool>)
    requires
        producers.len() > 0,
        forall|i: int| 0 <= i < producers.len() ==> #[trigger] producers[i],
    ensures
        sends(false, producers) == 1,
{
    assert(producers[0]);
    lemma_none_while_pending(producers.skip(1));
}

/// The posts of several threads in the order in which they get hold of the flag,
/// each with whether it could deliver: `turns` names the thread whose next post is
/// next.
pub open spec fn interleaved(threads: Seq<Seq<bool>>, turns: Seq<int>) -> Seq<bool>
    decreases turns.len(),
{
    if turns.len() == 0 {
        Seq::empty()
    } else {
        let t = turns[0];
        seq![threads[t][0]] + interleaved(
            threads.update(t, threads[t].skip(1)),
            turns.skip(1),
        )
    }
}

/// An order in which threads can take their turns: each turn is that of a thread
/// with a post left.
pub open spec fn takes_turns(threads: Seq<Seq<bool>>, turns: Seq<int>) -> bool
    decreases turns.len(),
{
    turns.len() > 0 ==> {
        let t = turns[0];
        &&& 0 <= t < threads.len()
        &&& threads[t].len() > 0
        &&& takes_turns(threads.update(t, threads[t].skip(1)), turns.skip(1))
    }
}

/// Every thread can deliver each of its posts.
pub open spec fn all_deliver(threads: Seq<Seq<bool>>) -> bool {
    forall|t: int, i: int|
        0 <= t < threads.len() && 0 <= i < threads[t].len() ==> #[trigger] threads[t][i]
}

/// However the posts of several threads interleave, they share one notification
/// while nobody lowers the flag; once it is lowered, the next post sends again.
pub proof fn threads_share_one_wake(threads: Seq<Seq<bool>>, turns: Seq<int>, next: bool)
    requires
        turns.len() > 0,
        takes_turns(threads, turns),
        all_deliver(threads),
    ensures
        sends(false, interleaved(threads, turns)) == 1,
        sends(false, seq![next]) == 1,
{
    lemma_interleaved_deliver(threads, turns);
    a_burst_sends_once(interleaved(threads, turns));
    assert(sends(raised(false, next), seq![next].skip(1)) == 0);
}

proof fn lemma_interleaved_deliver(threads: Seq<Seq<bool>>, turns: Seq<int>)
    requires
        takes_turns(threads, turns),
        all_deliver(threads),
    ensures
        interleaved(threads, turns).len() == turns.len(),
        forall|i: int|
            0 <= i < interleaved(threads, turns).len() ==> #[trigger] interleaved(
                threads,
                turns,
            )[i],
    decreases turns.len(),
{
    if turns.len() > 0 {
        let t = turns[0];
        let rest = threads.update(t, threads[t].skip(1));
        assert(all_deliver(rest)) by {
            assert forall|u: int, i: int| 0 <= u < rest.len() && 0 <= i < rest[u].len() implies
                #[trigger] rest[u][i] by {
                if u == t {
                    assert(threads[t][i + 1]);
                } else {
                    assert(threads[u][i]);
                }
            }
        }
        lemma_interleaved_deliver(rest, turns.skip(1));
        assert(threads[t][0]);
    }
}

proof fn lemma_none_while_pending(producers: Seq<bool>)
    ensures
        sends(true, producers) == 0,
    decreases producers.len(),
{
    if producers.len() > 0 {
        lemma_none_while_pending(producers.skip(1));
    }
}

/// A failed delivery does not keep the next producer from sending.
pub proof fn a_failed_delivery_leaves_the_flag_down(producers: Seq<bool>)
    requires
        producers.len() > 1,
        !producers[0],
    ensures
        sends(false, producers) == 1 + sends(false, producers.skip(1)),
        sends(false, producers) >= 2,
{
    assert(producers.skip(1).len() > 0);
}

/// The flag is up after a post if it was up before or if the notification could be
/// delivered, and is down only if neither.
pub proof fn a_delivered_post_raises_the_flag(pending: bool, delivered: bool)
    ensures
        raised(true, delivered),
        raised(pending, true),
        !raised(false, false),
{
}

} // verus!
