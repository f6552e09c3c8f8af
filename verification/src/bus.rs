//! The fan-out bus: single producer, many subscribers, lossy under
//! backpressure.
//!
//! Every subscriber owns a bounded queue. A send appends the payload
//! to every queue; a full queue first evicts its oldest entry, so the
//! producer never waits for a slow consumer. A receive pops the
//! oldest buffered payload of one subscriber.

use vstd::prelude::*;

verus! {

/// How many payloads one subscriber may buffer.
pub const BUS_DEPTH: usize = 16;

/// What one delivery does to one subscriber queue: append, evicting
/// the oldest entry when the queue is already at `depth`.
pub open spec fn push_bounded(q: Seq<Seq<u8>>, m: Seq<u8>, depth: nat) -> Seq<Seq<u8>> {
    if q.len() < depth {
        q.push(m)
    } else {
        q.drop_first().push(m)
    }
}

/// Deliver a whole message sequence to one queue, in order.
pub open spec fn feed(q: Seq<Seq<u8>>, msgs: Seq<Seq<u8>>, depth: nat) -> Seq<Seq<u8>>
    decreases msgs.len(),
{
    if msgs.len() == 0 {
        q
    } else {
        feed(push_bounded(q, msgs.first(), depth), msgs.drop_first(), depth)
    }
}

/// What a queue holds after a burst: the most recent messages, the
/// oldest evicted once capacity is exceeded.
pub proof fn lemma_feed_closed_form(q: Seq<Seq<u8>>, msgs: Seq<Seq<u8>>, depth: nat)
    requires
        q.len() <= depth,
        depth > 0,
    ensures
        feed(q, msgs, depth) == (q + msgs).skip(
            if q.len() + msgs.len() <= depth {
                0
            } else {
                q.len() + msgs.len() - depth
            },
        ),
    decreases msgs.len(),
{
    if msgs.len() == 0 {
        assert((q + msgs).skip(0) =~= q);
    } else {
        let m0 = msgs.first();
        let rest = msgs.drop_first();
        let q1 = push_bounded(q, m0, depth);
        lemma_feed_closed_form(q1, rest, depth);
        if q.len() < depth {
            assert(q1 + rest =~= q + msgs);
        } else {
            assert(q1 + rest =~= (q + msgs).skip(1));
            let amt = if q1.len() + rest.len() <= depth {
                0
            } else {
                q1.len() + rest.len() - depth
            };
            assert(feed(q, msgs, depth) == ((q + msgs).skip(1)).skip(amt));
            assert(((q + msgs).skip(1)).skip(amt) =~= (q + msgs).skip(amt + 1));
        }
    }
}

/// Fan-out: subscribers that start empty and stay within capacity all
/// hold exactly the burst, so each sees the same messages; one that
/// subscribes late holds only the suffix sent after it joined.
pub proof fn lemma_fanout(msgs: Seq<Seq<u8>>, late: int, depth: nat)
    requires
        depth > 0,
        msgs.len() <= depth,
        0 <= late <= msgs.len(),
    ensures
        feed(Seq::<Seq<u8>>::empty(), msgs, depth) == msgs,
        feed(Seq::<Seq<u8>>::empty(), msgs.skip(late), depth) == msgs.skip(late),
{
    lemma_feed_closed_form(Seq::<Seq<u8>>::empty(), msgs, depth);
    assert(Seq::<Seq<u8>>::empty() + msgs =~= msgs);
    assert(msgs.skip(0) =~= msgs);
    lemma_feed_closed_form(Seq::<Seq<u8>>::empty(), msgs.skip(late), depth);
    assert(Seq::<Seq<u8>>::empty() + msgs.skip(late) =~= msgs.skip(late));
    assert(msgs.skip(late).skip(0) =~= msgs.skip(late));
}

/// Backpressure: a non-draining subscriber that receives more than
/// `depth` messages holds exactly the most recent `depth`, the oldest
/// evicted first.
pub proof fn lemma_backpressure(msgs: Seq<Seq<u8>>, depth: nat)
    requires
        depth > 0,
        msgs.len() > depth,
    ensures
        feed(Seq::<Seq<u8>>::empty(), msgs, depth) == msgs.skip(msgs.len() - depth),
{
    lemma_feed_closed_form(Seq::<Seq<u8>>::empty(), msgs, depth);
    assert(Seq::<Seq<u8>>::empty() + msgs =~= msgs);
}

/// The fan-out bus itself.
pub struct Agent {
    queues: Vec<Vec<Vec<u8>>>,
}

impl Agent {
    /// The buffer bound every subscriber queue honours.
    pub closed spec fn depth(&self) -> nat {
        BUS_DEPTH as nat
    }

    /// How many subscribers exist.
    pub closed spec fn subscriber_count(&self) -> nat {
        self.queues@.len()
    }

    /// The buffered payloads of subscriber `k`, oldest first.
    pub closed spec fn queue(&self, k: int) -> Seq<Seq<u8>> {
        self.queues@[k]@.map_values(|v: Vec<u8>| v@)
    }

    /// Every queue stays within the buffer bound.
    pub open spec fn wf(&self) -> bool {
        forall|k: int|
            0 <= k < self.subscriber_count() ==> #[trigger] self.queue(k).len() <= self.depth()
    }

    /// A bus with no subscribers yet.
    pub fn new() -> (a: Agent)
        ensures
            a.subscriber_count() == 0,
            a.wf(),
            a.depth() == BUS_DEPTH,
    {
        Agent { queues: Vec::new() }
    }

    /// Add a subscriber; it starts with an empty queue and never
    /// observes payloads sent before this point.
    pub fn subscribe(&mut self) -> (id: usize)
        requires
            old(self).wf(),
        ensures
            final(self).wf(),
            id == old(self).subscriber_count(),
            final(self).subscriber_count() == old(self).subscriber_count() + 1,
            final(self).queue(id as int) == Seq::<Seq<u8>>::empty(),
            forall|k: int|
                0 <= k < old(self).subscriber_count() ==> #[trigger] final(self).queue(k) == old(
                    self,
                ).queue(k),
            final(self).depth() == old(self).depth(),
    {
        let id = self.queues.len();
        self.queues.push(Vec::new());
        proof {
            assert(self.queue(id as int) =~= Seq::<Seq<u8>>::empty());
            assert forall|k: int| 0 <= k < old(self).subscriber_count() implies #[trigger] self
                .queue(k) == old(self).queue(k) by {
                assert(self.queues@[k] == old(self).queues@[k]);
            }
        }
        id
    }

    /// Deliver `payload` to every subscriber queue, evicting the
    /// oldest entry of a full queue. Reports whether anyone was
    /// subscribed; with no subscribers the payload is dropped and
    /// that is the only signal.
    pub fn send(&mut self, payload: &Vec<u8>) -> (delivered: bool)
        requires
            old(self).wf(),
        ensures
            final(self).wf(),
            final(self).subscriber_count() == old(self).subscriber_count(),
            final(self).depth() == old(self).depth(),
            forall|k: int|
                0 <= k < old(self).subscriber_count() ==> #[trigger] final(self).queue(k)
                    == push_bounded(old(self).queue(k), payload@, old(self).depth()),
            delivered == (old(self).subscriber_count() > 0),
    {
        let n = self.queues.len();
        let mut k: usize = 0;
        while k < n
            invariant
                n == self.queues@.len(),
                n == old(self).subscriber_count(),
                0 <= k <= n,
                forall|j: int|
                    0 <= j < k ==> #[trigger] self.queue(j) == push_bounded(
                        old(self).queue(j),
                        payload@,
                        old(self).depth(),
                    ),
                forall|j: int| k <= j < n ==> #[trigger] self.queues@[j] == old(self).queues@[j],
                forall|j: int|
                    0 <= j < n ==> #[trigger] self.queue(j).len() <= old(self).depth(),
            decreases n - k,
        {
            let ghost iter0 = *self;
            let ghost pre = self.queue(k as int);
            if self.queues[k].len() >= BUS_DEPTH {
                self.queues[k].remove(0);
                proof {
                    assert(self.queue(k as int) =~= pre.drop_first());
                }
            }
            let ghost mid = self.queue(k as int);
            self.queues[k].push(payload.clone());
            proof {
                assert(self.queue(k as int) =~= mid.push(payload@));
                assert(self.queue(k as int) == push_bounded(pre, payload@, old(self).depth()));
                assert(self.queue(k as int).len() <= old(self).depth());
                assert forall|j: int| 0 <= j < n && j != k implies #[trigger] self.queues@[j]
                    == iter0.queues@[j] by {}
                assert forall|j: int| 0 <= j < n && j != k implies #[trigger] self.queue(j)
                    == iter0.queue(j) by {
                    assert(self.queues@[j] == iter0.queues@[j]);
                }
            }
            k = k + 1;
        }
        n > 0
    }

    /// Pop the oldest buffered payload of subscriber `id`, if any.
    pub fn recv(&mut self, id: usize) -> (r: Option<Vec<u8>>)
        requires
            old(self).wf(),
            id < old(self).subscriber_count(),
        ensures
            final(self).wf(),
            final(self).subscriber_count() == old(self).subscriber_count(),
            final(self).depth() == old(self).depth(),
            forall|k: int|
                0 <= k < old(self).subscriber_count() && k != id ==> #[trigger] final(self).queue(
                    k,
                ) == old(self).queue(k),
            (match r {
                Some(v) => old(self).queue(id as int).len() > 0 && v@ == old(self).queue(
                    id as int,
                ).first() && final(self).queue(id as int) == old(self).queue(
                    id as int,
                ).drop_first(),
                None => old(self).queue(id as int).len() == 0 && final(self).queue(id as int)
                    == old(self).queue(id as int),
            }),
    {
        if self.queues[id].len() == 0 {
            return None;
        }
        let ghost pre = self.queue(id as int);
        let v = self.queues[id].remove(0);
        proof {
            assert(self.queue(id as int) =~= pre.drop_first());
            assert forall|k: int|
                0 <= k < old(self).subscriber_count() && k != id implies #[trigger] self.queue(k)
                == old(self).queue(k) by {
                assert(self.queues@[k] == old(self).queues@[k]);
            }
        }
        Some(v)
    }

    /// How many subscribers there are, for the producer's logging.
    pub fn subscribers(&self) -> (n: usize)
        ensures
            n == self.subscriber_count(),
    {
        self.queues.len()
    }
}

} // verus!
