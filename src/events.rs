use vstd::prelude::*;

verus! {

/// The nominal time between two ticks.
pub const TICK_RATE_MS: u64 = 200;

/// A key press, as the terminal reports it.
#[derive(Clone, Copy, Debug, PartialEq, Eq, Structural)]
pub enum Key {
    Char(char),
    Up,
    Down,
    Left,
    Right,
    Enter,
    Esc,
    Other,
}

/// One item of the ordered stream that the controller consumes.
#[derive(Clone, Copy, Debug, PartialEq, Eq, Structural)]
pub enum Event {
    Input(Key),
    Tick,
}

/// The input poller's tick clock: the tick interval and the time of the last
/// tick, both in milliseconds of a monotonic clock.
#[derive(Clone, Copy, Debug, PartialEq, Eq, Structural)]
pub struct Poller {
    pub tick_rate_ms: u64,
    pub last_tick_ms: u64,
}

/// Time since `last`, or zero when `now` is not later.
pub open spec fn elapsed(last: u64, now: u64) -> nat {
    if now >= last {
        (now - last) as nat
    } else {
        0
    }
}

/// The inputs carried by a stream of events, in order.
pub open spec fn inputs_of(evs: Seq<Event>) -> Seq<Key>
    decreases evs.len(),
{
    if evs.len() == 0 {
        seq![]
    } else {
        match evs.last() {
            Event::Input(k) => inputs_of(evs.drop_last()).push(k),
            Event::Tick => inputs_of(evs.drop_last()),
        }
    }
}

/// The inputs that arrive over a script of poll results, in order.
pub open spec fn script_inputs(script: Seq<(u64, Option<Key>)>) -> Seq<Key>
    decreases script.len(),
{
    if script.len() == 0 {
        seq![]
    } else {
        match script.last().1 {
            Some(k) => script_inputs(script.drop_last()).push(k),
            None => script_inputs(script.drop_last()),
        }
    }
}

impl Poller {
    /// A tick is due once a whole interval has passed since the last one.
    pub open spec fn tick_due_spec(self, now: u64) -> bool {
        elapsed(self.last_tick_ms, now) >= self.tick_rate_ms
    }

    /// How long the next poll may wait: what is left of the interval.
    pub open spec fn timeout_spec(self, now: u64) -> u64 {
        if self.tick_due_spec(now) {
            0
        } else {
            (self.tick_rate_ms - elapsed(self.last_tick_ms, now)) as u64
        }
    }

    /// The events a poll returning at `now` produces: its input, if any,
    /// then a tick if one is due.
    pub open spec fn events_after(self, now: u64, input: Option<Key>) -> Seq<Event> {
        let ins = match input {
            Some(k) => seq![Event::Input(k)],
            None => Seq::<Event>::empty(),
        };
        if self.tick_due_spec(now) {
            ins.push(Event::Tick)
        } else {
            ins
        }
    }

    /// The clock after a poll returning at `now`: reset when it ticked.
    pub open spec fn stepped(self, now: u64) -> Poller {
        if self.tick_due_spec(now) {
            Poller { tick_rate_ms: self.tick_rate_ms, last_tick_ms: now }
        } else {
            self
        }
    }

    /// The clock and the whole event stream after a script of poll results,
    /// each the time a poll returned and the key it read, if any.
    pub open spec fn simulate(self, script: Seq<(u64, Option<Key>)>) -> (Poller, Seq<Event>)
        decreases script.len(),
    {
        if script.len() == 0 {
            (self, seq![])
        } else {
            let prev = self.simulate(script.drop_last());
            let (now, input) = script.last();
            (prev.0.stepped(now), prev.1 + prev.0.events_after(now, input))
        }
    }

    /// A clock whose interval starts at `now_ms`.
    pub fn new(tick_rate_ms: u64, now_ms: u64) -> (r: Poller)
        ensures
            r == (Poller { tick_rate_ms, last_tick_ms: now_ms }),
    {
        Poller { tick_rate_ms, last_tick_ms: now_ms }
    }

    fn elapsed_ms(&self, now_ms: u64) -> (r: u64)
        ensures
            r as nat == elapsed(self.last_tick_ms, now_ms),
    {
        if now_ms >= self.last_tick_ms {
            now_ms - self.last_tick_ms
        } else {
            0
        }
    }

    /// Whether a tick is due at `now_ms`.
    pub fn tick_due(&self, now_ms: u64) -> (r: bool)
        ensures
            r == self.tick_due_spec(now_ms),
    {
        self.elapsed_ms(now_ms) >= self.tick_rate_ms
    }

    /// The bounded wait for the next poll: the time left until the next
    /// tick, or zero when it is already due.
    pub fn timeout(&self, now_ms: u64) -> (r: u64)
        ensures
            r == self.timeout_spec(now_ms),
    {
        let e = self.elapsed_ms(now_ms);
        if e >= self.tick_rate_ms {
            0
        } else {
            self.tick_rate_ms - e
        }
    }

    /// Takes the result of one poll that returned at `now_ms`: yields the
    /// key read, if any, then a tick if a whole interval has passed, and
    /// resets the clock on a tick.
    pub fn step(&mut self, now_ms: u64, input: Option<Key>) -> (r: Vec<Event>)
        ensures
            r@ == old(self).events_after(now_ms, input),
            *final(self) == old(self).stepped(now_ms),
    {
        let mut evs: Vec<Event> = Vec::new();
        match input {
            Some(k) => evs.push(Event::Input(k)),
            None => {},
        }
        if self.tick_due(now_ms) {
            evs.push(Event::Tick);
            self.last_tick_ms = now_ms;
        }
        assert(evs@ =~= old(self).events_after(now_ms, input));
        evs
    }

    /// Runs a script of poll results through the clock and returns the
    /// clock at its end with every event produced, in order.
    pub fn run_script(self, script: &Vec<(u64, Option<Key>)>) -> (r: (Poller, Vec<Event>))
        ensures
            r.0 == self.simulate(script@).0,
            r.1@ == self.simulate(script@).1,
    {
        let mut p = self;
        let mut out: Vec<Event> = Vec::new();
        let n = script.len();
        let mut i: usize = 0;
        while i < n
            invariant
                n == script@.len(),
                i <= n,
                (p, out@) == self.simulate(script@.take(i as int)),
            decreases n - i,
        {
            proof {
                assert(script@.take(i as int + 1).drop_last() =~= script@.take(i as int));
            }
            let (now, input) = script[i];
            let mut evs = p.step(now, input);
            out.append(&mut evs);
            i = i + 1;
        }
        assert(script@.take(n as int) =~= script@);
        (p, out)
    }
}

/// The inputs of two streams joined are the inputs of each, joined.
pub proof fn lemma_inputs_of_concat(a: Seq<Event>, b: Seq<Event>)
    ensures
        inputs_of(a + b) == inputs_of(a) + inputs_of(b),
    decreases b.len(),
{
    if b.len() == 0 {
        assert(a + b =~= a);
        assert(inputs_of(a) + inputs_of(b) =~= inputs_of(a));
    } else {
        lemma_inputs_of_concat(a, b.drop_last());
        assert((a + b).drop_last() =~= a + b.drop_last());
        assert((a + b).last() == b.last());
        match b.last() {
            Event::Input(k) => {
                assert(inputs_of(a) + inputs_of(b) =~= (inputs_of(a) + inputs_of(b.drop_last())).push(k));
            },
            Event::Tick => {},
        }
    }
}

/// Over any script of poll results, the stream carries exactly the keys
/// that arrived, each once and in arrival order; ticks only interleave.
pub proof fn lemma_inputs_keep_arrival_order(p: Poller, script: Seq<(u64, Option<Key>)>)
    ensures
        inputs_of(p.simulate(script).1) == script_inputs(script),
    decreases script.len(),
{
    if script.len() > 0 {
        lemma_inputs_keep_arrival_order(p, script.drop_last());
        let prev = p.simulate(script.drop_last());
        let (now, input) = script.last();
        let evs = prev.0.events_after(now, input);
        lemma_inputs_of_concat(prev.1, evs);
        let ins = match input {
            Some(k) => seq![Event::Input(k)],
            None => Seq::<Event>::empty(),
        };
        assert(inputs_of(ins.push(Event::Tick)) == inputs_of(ins)) by {
            assert(ins.push(Event::Tick).drop_last() =~= ins);
        }
        match input {
            Some(k) => {
                assert(ins.drop_last() =~= Seq::<Event>::empty());
                assert(ins.last() == Event::Input(k));
                assert(inputs_of(Seq::<Event>::empty()) == Seq::<Key>::empty());
                assert(inputs_of(ins) =~= seq![k]);
            },
            None => {},
        }
    }
}

/// After a tick at `t1`, no poll returning less than one interval later
/// produces another tick: at most one tick per interval.
pub proof fn lemma_one_tick_per_interval(p: Poller, t1: u64, t2: u64, input: Option<Key>)
    requires
        p.tick_due_spec(t1),
        t1 <= t2,
        t2 < t1 + p.tick_rate_ms,
    ensures
        !p.stepped(t1).tick_due_spec(t2),
        !p.stepped(t1).events_after(t2, input).contains(Event::Tick),
{
    let q = p.stepped(t1);
    let evs = q.events_after(t2, input);
    match input {
        Some(k) => {
            assert(evs =~= seq![Event::Input(k)]);
            assert(evs[0] != Event::Tick);
        },
        None => {
            assert(evs =~= Seq::<Event>::empty());
        },
    }
}

/// A poll that returns once a whole interval has passed always produces a
/// tick, as the last event of that poll: ticks are never skipped.
pub proof fn lemma_due_tick_emitted(p: Poller, now: u64, input: Option<Key>)
    requires
        elapsed(p.last_tick_ms, now) >= p.tick_rate_ms,
    ensures
        p.events_after(now, input).last() == Event::Tick,
        p.stepped(now).last_tick_ms == now,
{
}

} // verus!
