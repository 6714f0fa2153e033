use vstd::prelude::*;
use crate::events::{inputs_of, lemma_inputs_of_concat, Event, Key};

verus! {

/// What a full queue does with a new event.
#[derive(Clone, Copy, Debug, PartialEq, Eq, Structural)]
pub enum Backpressure {
    /// Make room by dropping the oldest queued tick; the producer waits only
    /// when no tick is queued.
    DropOldestTick,
    /// Never drop anything; the producer waits until the consumer has taken
    /// an event.
    Block,
}

/// What became of a pushed event.
#[derive(Clone, Copy, Debug, PartialEq, Eq, Structural)]
pub enum PushOutcome {
    /// Appended at the back.
    Queued,
    /// Appended at the back after the oldest queued tick was dropped.
    DroppedTick,
    /// Not taken: the producer must wait and offer it again.
    Full,
}

/// The events with the first tick taken out; unchanged when there is none.
pub open spec fn remove_first_tick(s: Seq<Event>) -> Seq<Event>
    decreases s.len(),
{
    if s.len() == 0 {
        s
    } else if s[0] == Event::Tick {
        s.drop_first()
    } else {
        seq![s[0]] + remove_first_tick(s.drop_first())
    }
}

/// The queue's contents and the outcome after offering `ev` to a queue of
/// `cap` holding `s`.
pub open spec fn pushed(s: Seq<Event>, cap: nat, policy: Backpressure, ev: Event) -> (Seq<Event>, PushOutcome) {
    if s.len() < cap {
        (s.push(ev), PushOutcome::Queued)
    } else if policy == Backpressure::DropOldestTick && s.contains(Event::Tick) {
        (remove_first_tick(s).push(ev), PushOutcome::DroppedTick)
    } else {
        (s, PushOutcome::Full)
    }
}

/// A bounded first-in first-out queue of events between the poller and the
/// controller.
#[derive(Debug)]
pub struct EventQueue {
    items: Vec<Event>,
    capacity: usize,
    policy: Backpressure,
}

/// Taking out the first tick of a sequence is removing it at its index.
proof fn lemma_remove_first_tick_at(s: Seq<Event>, i: int)
    requires
        0 <= i < s.len(),
        s[i] == Event::Tick,
        forall|k: int| 0 <= k < i ==> s[k] != Event::Tick,
    ensures
        remove_first_tick(s) == s.remove(i),
    decreases i,
{
    if i == 0 {
        assert(s.drop_first() =~= s.remove(0));
    } else {
        let rest = s.drop_first();
        assert forall|k: int| 0 <= k < i - 1 implies rest[k] != Event::Tick by {
            assert(rest[k] == s[k + 1]);
        }
        lemma_remove_first_tick_at(rest, i - 1);
        assert(seq![s[0]] + rest.remove(i - 1) =~= s.remove(i));
    }
}

impl EventQueue {
    /// The queued events, oldest first.
    pub closed spec fn contents(&self) -> Seq<Event> {
        self.items@
    }

    pub closed spec fn capacity_spec(&self) -> nat {
        self.capacity as nat
    }

    pub closed spec fn policy_spec(&self) -> Backpressure {
        self.policy
    }

    /// Never more events than the capacity.
    pub open spec fn wf(&self) -> bool {
        self.contents().len() <= self.capacity_spec()
    }

    /// An empty queue that holds at most `capacity` events.
    pub fn new(capacity: usize, policy: Backpressure) -> (r: EventQueue)
        ensures
            r.wf(),
            r.contents() == Seq::<Event>::empty(),
            r.capacity_spec() == capacity,
            r.policy_spec() == policy,
    {
        EventQueue { items: Vec::new(), capacity, policy }
    }

    pub fn len(&self) -> (r: usize)
        ensures
            r == self.contents().len(),
    {
        self.items.len()
    }

    /// Offers an event: appended while there is room; when full, handled as
    /// the queue's backpressure policy says.
    pub fn push(&mut self, ev: Event) -> (r: PushOutcome)
        requires
            old(self).wf(),
        ensures
            final(self).wf(),
            final(self).capacity_spec() == old(self).capacity_spec(),
            final(self).policy_spec() == old(self).policy_spec(),
            final(self).contents() == pushed(old(self).contents(), old(self).capacity_spec(), old(self).policy_spec(), ev).0,
            r == pushed(old(self).contents(), old(self).capacity_spec(), old(self).policy_spec(), ev).1,
    {
        if self.items.len() < self.capacity {
            self.items.push(ev);
            return PushOutcome::Queued;
        }
        if self.policy == Backpressure::Block {
            return PushOutcome::Full;
        }
        let n = self.items.len();
        let mut i: usize = 0;
        while i < n
            invariant
                *self == *old(self),
                self.items@.len() == self.capacity,
                self.policy == Backpressure::DropOldestTick,
                n == self.items@.len(),
                i <= n,
                forall|k: int| 0 <= k < i ==> self.items@[k] != Event::Tick,
            decreases n - i,
        {
            if self.items[i] == Event::Tick {
                proof {
                    lemma_remove_first_tick_at(self.items@, i as int);
                    assert(self.items@.contains(Event::Tick));
                }
                self.items.remove(i);
                self.items.push(ev);
                return PushOutcome::DroppedTick;
            }
            i = i + 1;
        }
        assert(!self.items@.contains(Event::Tick));
        PushOutcome::Full
    }

    /// Takes the oldest event, or `None` when the queue is empty.
    pub fn pop(&mut self) -> (r: Option<Event>)
        requires
            old(self).wf(),
        ensures
            final(self).wf(),
            final(self).capacity_spec() == old(self).capacity_spec(),
            final(self).policy_spec() == old(self).policy_spec(),
            old(self).contents().len() == 0 ==> r is None && final(self).contents() == old(self).contents(),
            old(self).contents().len() > 0 ==> r == Some(old(self).contents()[0])
                && final(self).contents() == old(self).contents().drop_first(),
    {
        if self.items.len() == 0 {
            None
        } else {
            let ev = self.items.remove(0);
            assert(self.items@ =~= old(self).items@.drop_first());
            Some(ev)
        }
    }
}

/// Dropping a tick never loses or reorders a key input.
pub proof fn lemma_remove_first_tick_keeps_inputs(s: Seq<Event>)
    ensures
        inputs_of(remove_first_tick(s)) == inputs_of(s),
    decreases s.len(),
{
    if s.len() > 0 {
        let rest = s.drop_first();
        assert(s =~= seq![s[0]] + rest);
        lemma_inputs_of_concat(seq![s[0]], rest);
        if s[0] != Event::Tick {
            lemma_remove_first_tick_keeps_inputs(rest);
            lemma_inputs_of_concat(seq![s[0]], remove_first_tick(rest));
        } else {
            assert(seq![s[0]].drop_last() =~= Seq::<Event>::empty());
            assert(inputs_of(Seq::<Event>::empty()) == Seq::<Key>::empty());
            assert(inputs_of(seq![s[0]]) =~= Seq::<Key>::empty());
        }
    }
}

/// Under either policy a queue hands on every key input it accepts, in the
/// order offered: an accepted event joins the back, and only ticks are ever
/// dropped; a refused event leaves the queue as it was.
pub proof fn lemma_push_keeps_input_order(s: Seq<Event>, cap: nat, policy: Backpressure, ev: Event)
    ensures
        pushed(s, cap, policy, ev).1 != PushOutcome::Full ==> inputs_of(pushed(s, cap, policy, ev).0)
            == inputs_of(s.push(ev)),
        pushed(s, cap, policy, ev).1 == PushOutcome::Full ==> pushed(s, cap, policy, ev).0 == s,
{
    if s.len() >= cap && policy == Backpressure::DropOldestTick && s.contains(Event::Tick) {
        let t = remove_first_tick(s);
        lemma_remove_first_tick_keeps_inputs(s);
        assert(t.push(ev).drop_last() =~= t);
        assert(s.push(ev).drop_last() =~= s);
    }
}

} // verus!
