//! The broadcast channel: one producer, any number of consumers, a
//! fixed-capacity ring shared by every subscription. Publishing never
//! blocks and never fails; a full ring evicts its oldest entry, and a
//! subscription that fell behind observes one overrun and resumes from
//! the oldest retained event. Each subscription reads independently and
//! at its own pace.

use vstd::prelude::*;

verus! {

/// Ring capacity the system runs with.
pub const CHANNEL_CAPACITY: usize = 1024;

/// Mathematical model of the channel: how many events were evicted from
/// the front of the ring since the start, the events still retained (in
/// publish order), the ring capacity, and whether the producer closed it.
pub ghost struct ChannelModel {
    pub evicted: nat,
    pub retained: Seq<Seq<char>>,
    pub cap: nat,
    pub closed: bool,
}

impl ChannelModel {
    /// Count of all events ever published.
    pub open spec fn total(self) -> nat {
        self.evicted + self.retained.len()
    }

    pub open spec fn wf(self) -> bool {
        self.cap > 0 && self.retained.len() <= self.cap && self.total() <= u64::MAX
    }
}

/// What one publish does to the channel: append the event, evicting the
/// oldest retained entry when the ring is full. It depends on no
/// subscription and is defined for every channel state.
pub open spec fn spec_publish(c: ChannelModel, m: Seq<char>) -> ChannelModel {
    if c.retained.len() < c.cap {
        ChannelModel { retained: c.retained.push(m), ..c }
    } else {
        ChannelModel { evicted: c.evicted + 1, retained: c.retained.drop_first().push(m), ..c }
    }
}

/// Events a subscription at cursor `cur` has yet to read, oldest first.
pub open spec fn pending(c: ChannelModel, cur: nat) -> Seq<Seq<char>>
    recommends
        c.evicted <= cur <= c.total(),
{
    c.retained.skip(cur - c.evicted)
}

/// Model of one read outcome.
pub ghost enum RecvModel {
    Event(Seq<char>),
    Lagged(nat),
    Empty,
    Closed,
}

/// What one non-blocking read does, as (outcome, new cursor): behind the
/// ring it reports how many events were lost and resumes at the oldest
/// retained one; inside the ring it yields the next event in publish
/// order; at the head it finds the channel drained, closed or merely
/// empty. It depends only on the channel and the reading subscription's
/// own cursor.
pub open spec fn spec_recv(c: ChannelModel, cur: nat) -> (RecvModel, nat) {
    if cur < c.evicted {
        (RecvModel::Lagged((c.evicted - cur) as nat), c.evicted)
    } else if cur < c.total() {
        (RecvModel::Event(c.retained[cur - c.evicted]), (cur + 1) as nat)
    } else if c.closed {
        (RecvModel::Closed, cur)
    } else {
        (RecvModel::Empty, cur)
    }
}

/// Outcome of one non-blocking read of a subscription.
pub enum RecvResult {
    /// The next event, in publish order.
    Event(String),
    /// This many events were evicted before the reader reached them; the
    /// reader resumes from the oldest retained event. Silent data loss
    /// under load is accepted behavior, not an error.
    Lagged(u64),
    /// Nothing published yet beyond this reader's cursor.
    Empty,
    /// The channel is closed and this reader has drained it.
    Closed,
}

impl View for RecvResult {
    type V = RecvModel;

    open spec fn view(&self) -> RecvModel {
        match self {
            RecvResult::Event(s) => RecvModel::Event(s@),
            RecvResult::Lagged(n) => RecvModel::Lagged(*n as nat),
            RecvResult::Empty => RecvModel::Empty,
            RecvResult::Closed => RecvModel::Closed,
        }
    }
}

/// The broadcast channel: a ring of encoded events shared by all
/// subscriptions, with the count of entries evicted so far.
pub struct Broadcast {
    events: Vec<String>,
    evicted: u64,
    cap: usize,
    closed: bool,
}

impl View for Broadcast {
    type V = ChannelModel;

    closed spec fn view(&self) -> ChannelModel {
        ChannelModel {
            evicted: self.evicted as nat,
            retained: self.events@.map_values(|s: String| s@),
            cap: self.cap as nat,
            closed: self.closed,
        }
    }
}

/// A per-client handle into the channel: a cursor counting how many
/// events (over the whole history) its client has consumed.
pub struct Subscription {
    next: u64,
}

impl View for Subscription {
    type V = nat;

    closed spec fn view(&self) -> nat {
        self.next as nat
    }
}

impl Broadcast {
    /// A fresh channel with the given ring capacity.
    pub fn new(cap: usize) -> (c: Broadcast)
        requires
            cap > 0,
        ensures
            c@.wf(),
            c@.evicted == 0,
            c@.retained == Seq::<Seq<char>>::empty(),
            c@.cap == cap as nat,
            !c@.closed,
    {
        let c = Broadcast { events: Vec::new(), evicted: 0, cap, closed: false };
        proof {
            assert(c@.retained =~= Seq::<Seq<char>>::empty());
        }
        c
    }

    /// Publish one encoded event. Never blocks, never fails, waits for no
    /// reader: with the ring full the oldest retained entry is evicted to
    /// make room. With no subscriber at all this is a silent success.
    pub fn publish(&mut self, m: String)
        requires
            old(self)@.wf(),
            old(self)@.total() < u64::MAX,
        ensures
            final(self)@ == spec_publish(old(self)@, m@),
            final(self)@.wf(),
    {
        if self.events.len() >= self.cap {
            self.events.remove(0);
            self.evicted = self.evicted + 1;
            proof {
                assert(self.events@.map_values(|s: String| s@) =~= old(
                    self,
                )@.retained.drop_first());
            }
        }
        self.events.push(m);
        proof {
            assert(final(self)@.retained =~= spec_publish(old(self)@, m@).retained);
        }
    }

    /// Mark the channel closed: every reader that drains it thereafter
    /// observes closure instead of emptiness.
    pub fn close(&mut self)
        requires
            old(self)@.wf(),
        ensures
            final(self)@ == (ChannelModel { closed: true, ..old(self)@ }),
            final(self)@.wf(),
    {
        self.closed = true;
    }

    /// A new subscription positioned at the present head: it receives its
    /// own copy of every event published after this point and replays no
    /// history.
    pub fn subscribe(&self) -> (s: Subscription)
        requires
            self@.wf(),
        ensures
            s@ == self@.total(),
    {
        Subscription { next: self.evicted + self.events.len() as u64 }
    }

    /// One non-blocking read by `sub`, moving its cursor as the model
    /// says. Reading moves no other subscription and never touches the
    /// producer.
    pub fn try_recv(&self, sub: &mut Subscription) -> (r: RecvResult)
        requires
            self@.wf(),
            old(sub)@ <= self@.total(),
        ensures
            r@ == spec_recv(self@, old(sub)@).0,
            final(sub)@ == spec_recv(self@, old(sub)@).1,
    {
        if sub.next < self.evicted {
            let skipped = self.evicted - sub.next;
            sub.next = self.evicted;
            RecvResult::Lagged(skipped)
        } else {
            let pos = sub.next - self.evicted;
            if (pos as usize) < self.events.len() {
                let msg = self.events[pos as usize].clone();
                sub.next = sub.next + 1;
                RecvResult::Event(msg)
            } else if self.closed {
                RecvResult::Closed
            } else {
                RecvResult::Empty
            }
        }
    }
}

/// Publishing deduplicates nothing: the same event published twice is
/// delivered twice, in order, behind whatever was already pending, to
/// every subscription inside the ring while both publishes leave the
/// ring room (so neither copy is evicted).
pub proof fn lemma_publish_twice_no_dedup(c: ChannelModel, cur: nat, m: Seq<char>)
    requires
        c.wf(),
        c.retained.len() + 2 <= c.cap,
        c.evicted <= cur <= c.total(),
    ensures
        pending(spec_publish(spec_publish(c, m), m), cur) == pending(c, cur) + seq![m, m],
{
    let c2 = spec_publish(spec_publish(c, m), m);
    assert(c2.retained =~= c.retained.push(m).push(m));
    assert(pending(c2, cur) =~= pending(c, cur) + seq![m, m]);
}

/// The producer never waits: publish is defined in every channel state,
/// whatever any subscription's cursor, and leaves the channel well
/// formed with one more event published.
pub proof fn lemma_publish_total(c: ChannelModel, m: Seq<char>)
    requires
        c.wf(),
        c.total() < u64::MAX,
    ensures
        spec_publish(c, m).wf(),
        spec_publish(c, m).total() == c.total() + 1,
        spec_publish(c, m).cap == c.cap,
        spec_publish(c, m).closed == c.closed,
{
}

/// Fan-out isolation: however far behind a subscription at `stalled`
/// may sit, a reader standing at the head receives the next published
/// event at its very next read; and publishing only ever appends to the
/// stalled reader's own backlog (with the ring full, eviction shortens
/// that backlog at its front and touches nobody else).
pub proof fn lemma_fanout_isolation(c: ChannelModel, stalled: nat, cur: nat, m: Seq<char>)
    requires
        c.wf(),
        c.total() < u64::MAX,
        c.evicted <= stalled <= c.total(),
        cur == c.total(),
    ensures
        spec_recv(spec_publish(c, m), cur).0 == RecvModel::Event(m),
        spec_recv(spec_publish(c, m), cur).1 == spec_publish(c, m).total(),
        c.retained.len() < c.cap ==> pending(spec_publish(c, m), stalled) == pending(
            c,
            stalled,
        ).push(m),
{
    let c2 = spec_publish(c, m);
    assert(c2.retained[cur - c2.evicted] == m);
    if c.retained.len() < c.cap {
        assert(pending(c2, stalled) =~= pending(c, stalled).push(m));
    }
}

/// Within one subscription events arrive in publish order: a read inside
/// the ring takes exactly the front of the pending stream and leaves the
/// rest.
pub proof fn lemma_recv_in_order(c: ChannelModel, cur: nat)
    requires
        c.wf(),
        c.evicted <= cur < c.total(),
    ensures
        spec_recv(c, cur).0 == RecvModel::Event(pending(c, cur)[0]),
        pending(c, spec_recv(c, cur).1) == pending(c, cur).drop_first(),
{
    assert(pending(c, cur)[0] == c.retained[cur - c.evicted]);
    assert(pending(c, (cur + 1) as nat) =~= pending(c, cur).drop_first());
}

/// Independent readers see the same history in the same order: after
/// three publishes into a ring with room, every subscription that stood
/// at the head reads back exactly those three events, first to last.
pub proof fn lemma_same_order_fanout(
    c: ChannelModel,
    cur: nat,
    m1: Seq<char>,
    m2: Seq<char>,
    m3: Seq<char>,
)
    requires
        c.wf(),
        c.retained.len() + 3 <= c.cap,
        cur == c.total(),
    ensures
        ({
            let c3 = spec_publish(spec_publish(spec_publish(c, m1), m2), m3);
            let (r1, cur1) = spec_recv(c3, cur);
            let (r2, cur2) = spec_recv(c3, cur1);
            let (r3, cur3) = spec_recv(c3, cur2);
            r1 == RecvModel::Event(m1) && r2 == RecvModel::Event(m2) && r3 == RecvModel::Event(m3)
                && cur3 == c3.total()
        }),
{
    let c3 = spec_publish(spec_publish(spec_publish(c, m1), m2), m3);
    assert(c3.retained =~= c.retained.push(m1).push(m2).push(m3));
    assert(c3.retained[cur - c.evicted] == m1);
    assert(c3.retained[cur - c.evicted + 1] == m2);
    assert(c3.retained[cur - c.evicted + 2] == m3);
}

} // verus!
