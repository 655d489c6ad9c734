//! The board: wires, drive counters, pins, the ping queue and the
//! half-cycle schedule.

use vstd::prelude::*;

use crate::component::{Component, ComponentId, Message};
use crate::pins::{PinId, PinState};
use crate::vcd::config::VcdConfig;
use crate::vcd::fillers::VcdFiller;
use crate::vcd::writer::VcdWriter;
use crate::vcd::{tree_view, NodeShape, VcdTree};

verus! {

/// A unique identifier for a wire.
#[derive(Debug, Clone, Copy, PartialEq, Eq, Structural)]
pub struct WireId(pub usize);

/// The four drive counts of a wire, as mathematical integers:
/// `(low, high, weak_low, weak_high)`.
pub type DriveCounts = (int, int, int, int);

/// How one pin state changes the four drive counts.
///
/// `Error` counts as one `low` **and** one `high` at once; this is how
/// contention is detected without special-casing.  `Z` counts nowhere.
pub open spec fn counts_add(c: DriveCounts, s: PinState) -> DriveCounts {
    match s {
        PinState::Low => (c.0 + 1, c.1, c.2, c.3),
        PinState::High => (c.0, c.1 + 1, c.2, c.3),
        PinState::WeakLow => (c.0, c.1, c.2 + 1, c.3),
        PinState::WeakHigh => (c.0, c.1, c.2, c.3 + 1),
        PinState::Z => c,
        PinState::Error => (c.0 + 1, c.1 + 1, c.2, c.3),
    }
}

/// Removes the contribution that [`counts_add`] gave to `s`.
pub open spec fn counts_remove(c: DriveCounts, s: PinState) -> DriveCounts {
    match s {
        PinState::Low => (c.0 - 1, c.1, c.2, c.3),
        PinState::High => (c.0, c.1 - 1, c.2, c.3),
        PinState::WeakLow => (c.0, c.1, c.2 - 1, c.3),
        PinState::WeakHigh => (c.0, c.1, c.2, c.3 - 1),
        PinState::Z => c,
        PinState::Error => (c.0 - 1, c.1 - 1, c.2, c.3),
    }
}

/// Whether the counts still hold the contribution of a pin driving `s`,
/// so that removing it keeps every count non-negative.
pub open spec fn counts_contain(c: DriveCounts, s: PinState) -> bool {
    match s {
        PinState::Low => c.0 > 0,
        PinState::High => c.1 > 0,
        PinState::WeakLow => c.2 > 0,
        PinState::WeakHigh => c.3 > 0,
        PinState::Z => true,
        PinState::Error => c.0 > 0 && c.1 > 0,
    }
}

/// The resolution rule: what the wire as a whole carries.
///
/// In order: nothing drives; only one kind of weak drive; both weak
/// kinds contend; a strong drive wins over weak ones; both strong
/// directions contend.
pub open spec fn resolve(c: DriveCounts) -> PinState {
    if c.0 == 0 && c.1 == 0 && c.2 == 0 && c.3 == 0 {
        PinState::Z
    } else if c.0 == 0 && c.1 == 0 && c.2 == 0 {
        PinState::WeakHigh
    } else if c.0 == 0 && c.1 == 0 && c.3 == 0 {
        PinState::WeakLow
    } else if c.0 == 0 && c.1 == 0 {
        PinState::Error
    } else if c.0 == 0 {
        PinState::High
    } else if c.1 == 0 {
        PinState::Low
    } else {
        PinState::Error
    }
}

/// The counts obtained by adding every state of `s` in turn, starting
/// from zero: the "recompute from scratch" value.
pub open spec fn counter_of_seq(s: Seq<PinState>) -> DriveCounts
    decreases s.len(),
{
    if s.len() == 0 {
        (0int, 0int, 0int, 0int)
    } else {
        counts_add(counter_of_seq(s.drop_last()), s.last())
    }
}

/// How many counter ticks one pin state contributes: none when
/// undriven, two under contention — which counts as one `low` and one
/// `high` — and one otherwise.
pub open spec fn drive_weight(s: PinState) -> int {
    match s {
        PinState::Z => 0,
        PinState::Error => 2,
        _ => 1,
    }
}

/// The sum of the four drive counts.
pub open spec fn counts_sum(c: DriveCounts) -> int {
    c.0 + c.1 + c.2 + c.3
}

/// The total drive weight of a member list.
pub open spec fn weight_sum(s: Seq<PinState>) -> int
    decreases s.len(),
{
    if s.len() == 0 {
        0
    } else {
        weight_sum(s.drop_last()) + drive_weight(s.last())
    }
}

/// The sum of a wire's counts always equals the total drive weight of
/// its members: every member contributes exactly its weight, however
/// the counter was built up.
pub proof fn lemma_counter_sum(s: Seq<PinState>)
    ensures
        counts_sum(counter_of_seq(s)) == weight_sum(s),
    decreases s.len(),
{
    if s.len() > 0 {
        lemma_counter_sum(s.drop_last());
    }
}

/// Adding a state and then removing it restores the counts exactly.
pub proof fn lemma_add_remove_cancel(c: DriveCounts, s: PinState)
    ensures
        counts_remove(counts_add(c, s), s) == c,
{
}

/// Adding `Z` never changes the counts, hence never the resolved value.
pub proof fn lemma_add_z_resolves_same(c: DriveCounts)
    ensures
        counts_add(c, PinState::Z) == c,
        resolve(counts_add(c, PinState::Z)) == resolve(c),
{
}

/// Adding `Error` is equivalent to adding one `Low` and one `High`.
pub proof fn lemma_add_error_is_low_and_high(c: DriveCounts)
    ensures
        counts_add(c, PinState::Error) == counts_add(counts_add(c, PinState::Low), PinState::High),
{
}

/// Additions commute, and a removal commutes with an unrelated addition.
pub proof fn lemma_add_commutes(c: DriveCounts, a: PinState, b: PinState)
    ensures
        counts_add(counts_add(c, a), b) == counts_add(counts_add(c, b), a),
        counts_remove(counts_add(c, a), b) == counts_add(counts_remove(c, b), a),
{
}

/// Every count of the scratch recomputation lies between zero and the
/// number of pins, and the counts hold each pin's contribution.
pub proof fn lemma_counter_of_seq_bounds(s: Seq<PinState>)
    ensures
        0 <= counter_of_seq(s).0 <= s.len(),
        0 <= counter_of_seq(s).1 <= s.len(),
        0 <= counter_of_seq(s).2 <= s.len(),
        0 <= counter_of_seq(s).3 <= s.len(),
    decreases s.len(),
{
    if s.len() > 0 {
        lemma_counter_of_seq_bounds(s.drop_last());
    }
}

/// The counts hold the contribution of each member state, so removing
/// any member's state is possible; moreover every count that the member
/// does not touch is at least one below the pin count.
pub proof fn lemma_counter_of_seq_slack(s: Seq<PinState>, j: int)
    requires
        0 <= j < s.len(),
    ensures
        counts_contain(counter_of_seq(s), s[j]),
        !(s[j] == PinState::Low || s[j] == PinState::Error) ==> counter_of_seq(s).0 <= s.len()
            - 1,
        !(s[j] == PinState::High || s[j] == PinState::Error) ==> counter_of_seq(s).1 <= s.len()
            - 1,
        s[j] != PinState::WeakLow ==> counter_of_seq(s).2 <= s.len() - 1,
        s[j] != PinState::WeakHigh ==> counter_of_seq(s).3 <= s.len() - 1,
    decreases s.len(),
{
    lemma_counter_of_seq_bounds(s.drop_last());
    if j < s.len() - 1 {
        lemma_counter_of_seq_slack(s.drop_last(), j);
    }
}

/// Removing any member's contribution leaves every count between zero
/// and one less than the member count, so another contribution can be
/// added without overflow.
pub proof fn lemma_remove_in_range(s: Seq<PinState>, j: int)
    requires
        0 <= j < s.len(),
    ensures
        ({
            let c2 = counts_remove(counter_of_seq(s), s[j]);
            0 <= c2.0 <= s.len() - 1 && 0 <= c2.1 <= s.len() - 1 && 0 <= c2.2 <= s.len() - 1 && 0
                <= c2.3 <= s.len() - 1
        }),
{
    lemma_counter_of_seq_bounds(s);
    lemma_counter_of_seq_slack(s, j);
}

/// For every sequence of adds and matching removes the counter agrees
/// with recomputing from scratch: replacing one member's state by
/// removing the old contribution and adding the new one yields exactly
/// the scratch recomputation of the updated sequence.
pub proof fn lemma_counter_of_seq_update(s: Seq<PinState>, j: int, x: PinState)
    requires
        0 <= j < s.len(),
    ensures
        counter_of_seq(s.update(j, x)) == counts_add(
            counts_remove(counter_of_seq(s), s[j]),
            x,
        ),
    decreases s.len(),
{
    let t = s.update(j, x);
    if j == s.len() - 1 {
        assert(t.drop_last() =~= s.drop_last());
        lemma_add_remove_cancel(counter_of_seq(s.drop_last()), s[j]);
    } else {
        assert(t.drop_last() =~= s.drop_last().update(j, x));
        lemma_counter_of_seq_update(s.drop_last(), j, x);
        lemma_add_commutes(counts_remove(counter_of_seq(s.drop_last()), s[j]), x, s.last());
        assert(counts_remove(counter_of_seq(s), s[j]) == counts_add(
            counts_remove(counter_of_seq(s.drop_last()), s[j]),
            s.last(),
        ));
    }
}

/// Appending a member adds its contribution to the scratch recomputation.
pub proof fn lemma_counter_of_seq_push(s: Seq<PinState>, x: PinState)
    ensures
        counter_of_seq(s.push(x)) == counts_add(counter_of_seq(s), x),
{
    assert(s.push(x).drop_last() =~= s);
}

/// A representation for the state of a single wire.
///
/// Counts how many input signals of each kind drive it.
pub struct WireStateCounter {
    low: u64,
    high: u64,
    weak_low: u64,
    weak_high: u64,
}

impl WireStateCounter {
    /// The four counts as mathematical integers.
    pub closed spec fn view(self) -> DriveCounts {
        (self.low as int, self.high as int, self.weak_low as int, self.weak_high as int)
    }

    /// A counter with nothing driving.
    pub fn new() -> (r: WireStateCounter)
        ensures
            r@ == (0int, 0int, 0int, 0int),
    {
        WireStateCounter { low: 0, high: 0, weak_low: 0, weak_high: 0 }
    }

    /// Adds a new input signal into the [`WireStateCounter`].
    pub fn add(&mut self, pin: PinState)
        requires
            old(self)@.0 < u64::MAX,
            old(self)@.1 < u64::MAX,
            old(self)@.2 < u64::MAX,
            old(self)@.3 < u64::MAX,
        ensures
            final(self)@ == counts_add(old(self)@, pin),
    {
        match pin {
            PinState::Low => self.low = self.low + 1,
            PinState::High => self.high = self.high + 1,
            PinState::WeakLow => self.weak_low = self.weak_low + 1,
            PinState::WeakHigh => self.weak_high = self.weak_high + 1,
            PinState::Z => {},
            PinState::Error => {
                self.low = self.low + 1;
                self.high = self.high + 1;
            },
        }
    }

    /// Removes an input signal from the [`WireStateCounter`].
    pub fn remove(&mut self, pin: PinState)
        requires
            counts_contain(old(self)@, pin),
        ensures
            final(self)@ == counts_remove(old(self)@, pin),
    {
        match pin {
            PinState::Low => self.low = self.low - 1,
            PinState::High => self.high = self.high - 1,
            PinState::WeakLow => self.weak_low = self.weak_low - 1,
            PinState::WeakHigh => self.weak_high = self.weak_high - 1,
            PinState::Z => {},
            PinState::Error => {
                self.low = self.low - 1;
                self.high = self.high - 1;
            },
        }
    }

    /// Reads the current state of the wire, following the resolution rule.
    pub fn read(&self) -> (r: PinState)
        ensures
            r == resolve(self@),
    {
        if self.low == 0 && self.high == 0 && self.weak_low == 0 && self.weak_high == 0 {
            PinState::Z
        } else if self.low == 0 && self.high == 0 && self.weak_low == 0 {
            PinState::WeakHigh
        } else if self.low == 0 && self.high == 0 && self.weak_high == 0 {
            PinState::WeakLow
        } else if self.low == 0 && self.high == 0 {
            PinState::Error
        } else if self.low == 0 {
            PinState::High
        } else if self.high == 0 {
            PinState::Low
        } else {
            PinState::Error
        }
    }
}

/// Index of a pin.  Unlike [`PinId`], this is unique for the whole
/// board, not only within one component.
pub type PinIndex = usize;

/// A representation for a single pin of a component.
pub struct Pin {
    /// [`PinId`] of this pin; unique only within its component.
    pub id: PinId,
    /// The component the pin belongs to.
    ///
    /// There can be pins without components.
    pub component: Option<ComponentId>,
    /// The wire connected to the pin, if any.
    pub wire: Option<WireId>,
    /// Where this pin stands in its wire's member list.
    pub pos_in_wire: usize,
    /// The state the pin is currently driving outward.
    ///
    /// A pure input pin still drives [`PinState::Z`].
    pub out_state: PinState,
}

/// A representation for a single wire connecting multiple pins.
pub struct Wire {
    pub counter: WireStateCounter,
    pub pins: Vec<PinIndex>,
}

impl Wire {
    /// Reads the current resolved wire state.
    pub fn read(&self) -> (r: PinState)
        ensures
            r == resolve(self.counter@),
    {
        self.counter.read()
    }
}

/// A future wakeup request: component `who` asks to be advanced once
/// the simulated time reaches `at` nanoseconds.
#[derive(Debug, Clone, Copy, PartialEq, Eq, Structural)]
pub struct PingEvent {
    pub who: ComponentId,
    pub at: u64,
}

/// The events, ordered by non-increasing wakeup time: the minimum
/// stands at the end, where it is popped first.
pub open spec fn events_sorted(s: Seq<PingEvent>) -> bool {
    forall|i: int, j: int| 0 <= i <= j < s.len() ==> s[i].at >= s[j].at
}

/// Events are popped in non-decreasing wakeup time: among the stored
/// events, a later pop never yields an earlier time.  Pops take events
/// from the end of the sorted sequence.
pub proof fn lemma_pops_nondecreasing(s: Seq<PingEvent>, i: int, j: int)
    requires
        events_sorted(s),
        0 <= i <= j < s.len(),
    ensures
        s[j].at <= s[i].at,
{
}

/// A minimum-priority queue of [`PingEvent`]s keyed on their time.
pub struct PingQueue {
    events: Vec<PingEvent>,
}

impl PingQueue {
    /// The stored events, ordered by non-increasing time.
    pub closed spec fn view(self) -> Seq<PingEvent> {
        self.events@
    }

    /// The queue's invariant.
    pub open spec fn wf(self) -> bool {
        events_sorted(self@)
    }

    /// An empty queue.
    pub fn new() -> (r: PingQueue)
        ensures
            r.wf(),
            r@ =~= Seq::<PingEvent>::empty(),
    {
        PingQueue { events: Vec::new() }
    }

    /// Number of pending events.
    pub fn len(&self) -> (r: usize)
        ensures
            r == self@.len(),
    {
        self.events.len()
    }

    /// Inserts an event, keeping the order; the stored events afterwards
    /// are exactly the old ones and the new one.
    pub fn push(&mut self, e: PingEvent)
        requires
            old(self).wf(),
        ensures
            final(self).wf(),
            final(self)@.to_multiset() =~= old(self)@.to_multiset().insert(e),
            final(self)@.len() == old(self)@.len() + 1,
    {
        broadcast use vstd::seq_lib::group_to_multiset_ensures;

        let mut pos: usize = self.events.len();
        while pos > 0 && self.events[pos - 1].at < e.at
            invariant
                0 <= pos <= self.events@.len(),
                self.events == old(self).events,
                forall|j: int| pos <= j < self.events@.len() ==> self.events@[j].at < e.at,
            decreases pos,
        {
            pos = pos - 1;
        }
        proof {
            assert(pos == 0 || old(self)@[pos - 1].at >= e.at);
        }
        self.events.insert(pos, e);
        proof {
            let s0 = old(self)@;
            let s1 = self@;
            assert(s1.remove(pos as int) =~= s0);
            assert(s1.remove(pos as int).to_multiset() =~= s1.to_multiset().remove(e));
            assert(s1.to_multiset().contains(e)) by {
                assert(s1[pos as int] == e);
                assert(s1.contains(e));
            }
            assert(s1.to_multiset() =~= s0.to_multiset().insert(e));
            assert forall|i: int, j: int| 0 <= i <= j < s1.len() implies s1[i].at >= s1[j].at by {
                if j < pos {
                    assert(s1[i] == s0[i]);
                    assert(s1[j] == s0[j]);
                } else if i > pos {
                    assert(s1[i] == s0[i - 1]);
                    assert(s1[j] == s0[j - 1]);
                } else if i == pos && j == pos {
                } else if i == pos {
                    assert(s1[j] == s0[j - 1]);
                } else if j == pos {
                    assert(s1[i] == s0[i]);
                    assert(s0[i].at >= s0[pos - 1].at);
                } else {
                    assert(s1[i] == s0[i]);
                    assert(s1[j] == s0[j - 1]);
                    assert(s0[i].at >= s0[pos - 1].at);
                }
            }
        }
    }

    /// The earliest pending event, without removing it.
    pub fn peek(&self) -> (r: Option<PingEvent>)
        requires
            self.wf(),
        ensures
            (r is None) == (self@.len() == 0),
            self@.len() > 0 ==> r == Some(self@.last()) && (forall|i: int|
                0 <= i < self@.len() ==> self@[i].at >= self@.last().at),
    {
        if self.events.len() == 0 {
            None
        } else {
            Some(self.events[self.events.len() - 1])
        }
    }

    /// Removes and returns the earliest pending event.
    pub fn pop(&mut self) -> (r: Option<PingEvent>)
        requires
            old(self).wf(),
        ensures
            final(self).wf(),
            (r is None) == (old(self)@.len() == 0),
            old(self)@.len() == 0 ==> final(self)@ == old(self)@,
            old(self)@.len() > 0 ==> r == Some(old(self)@.last()) && final(self)@ =~= old(self)@.drop_last() && (forall|i: int|
                0 <= i < old(self)@.len() ==> old(self)@[i].at >= old(self)@.last().at),
    {
        if self.events.len() == 0 {
            None
        } else {
            let e = self.events.remove(self.events.len() - 1);
            proof {
                assert(self@ =~= old(self)@.drop_last());
            }
            Some(e)
        }
    }
}

/// The handle returned when a component is added: its identifier and
/// its pin names.
pub struct ComponentHandle {
    id: ComponentId,
    pin_name_lookup: Vec<(String, PinId)>,
}

/// The first pin bound to `name`, if any.
pub open spec fn spec_name_lookup(entries: Seq<(String, PinId)>, name: Seq<char>) -> Option<
    PinId,
>
    decreases entries.len(),
{
    if entries.len() == 0 {
        None
    } else if entries[0].0@ == name {
        Some(entries[0].1)
    } else {
        spec_name_lookup(entries.drop_first(), name)
    }
}

impl ComponentHandle {
    /// The component this handle stands for.
    pub closed spec fn spec_id(self) -> ComponentId {
        self.id
    }

    /// The pin-name table of the component.
    pub closed spec fn spec_names(self) -> Seq<(String, PinId)> {
        self.pin_name_lookup@
    }

    /// Builds a handle from a component's identifier and name table.
    pub fn new(id: ComponentId, pin_name_lookup: Vec<(String, PinId)>) -> (r: ComponentHandle)
        ensures
            r.spec_id() == id,
            r.spec_names() == pin_name_lookup@,
    {
        ComponentHandle { id, pin_name_lookup }
    }

    /// Looks a pin up by name, returning nothing when the component
    /// has no pin of that name.
    #[verifier::loop_isolation(false)]
    pub fn try_pin(&self, name: &str) -> (r: Option<(ComponentId, PinId)>)
        ensures
            r matches Some(p) ==> p.0 == self.spec_id() && Some(p.1) == spec_name_lookup(
                self.spec_names(),
                name@,
            ),
            r is None ==> spec_name_lookup(self.spec_names(), name@) is None,
    {
        let entries = &self.pin_name_lookup;
        proof {
            assert(entries@.skip(0) =~= entries@);
        }
        let mut i: usize = 0;
        while i < entries.len()
            invariant
                0 <= i <= entries@.len(),
                spec_name_lookup(entries@, name@) == spec_name_lookup(
                    entries@.skip(i as int),
                    name@,
                ),
            decreases entries@.len() - i,
        {
            proof {
                assert(entries@.skip(i as int)[0] == entries@[i as int]);
            }
            if crate::vcd::config::str_eq(entries[i].0.as_str(), name) {
                return Some((self.id, entries[i].1));
            }
            proof {
                assert(entries@.skip(i as int).drop_first() =~= entries@.skip(i as int + 1));
            }
            i = i + 1;
        }
        proof {
            assert(entries@.skip(i as int).len() == 0);
        }
        None
    }

    /// Looks a pin up by name.
    ///
    /// The name must be one of the component's pin names.
    #[verifier::loop_isolation(false)]
    pub fn pin(&self, name: &str) -> (r: (ComponentId, PinId))
        requires
            spec_name_lookup(self.spec_names(), name@) is Some,
        ensures
            r.0 == self.spec_id(),
            Some(r.1) == spec_name_lookup(self.spec_names(), name@),
    {
        let entries = &self.pin_name_lookup;
        proof {
            assert(entries@.skip(0) =~= entries@);
        }
        let mut i: usize = 0;
        while i < entries.len()
            invariant
                0 <= i <= entries@.len(),
                spec_name_lookup(entries@, name@) == spec_name_lookup(
                    entries@.skip(i as int),
                    name@,
                ),
            decreases entries@.len() - i,
        {
            proof {
                assert(entries@.skip(i as int)[0] == entries@[i as int]);
            }
            if crate::vcd::config::str_eq(entries[i].0.as_str(), name) {
                return (self.id, entries[i].1);
            }
            proof {
                assert(entries@.skip(i as int).drop_first() =~= entries@.skip(i as int + 1));
            }
            i = i + 1;
        }
        proof {
            assert(entries@.skip(i as int).len() == 0);
            assert(false);
        }
        (self.id, 0)
    }
}

/// Per-component data shared by both driver kinds.
pub struct CommonComponentData {
    /// Whether the component runs on its own worker.
    pub is_threaded: bool,
    /// The board-global indexes of the component's pins, by [`PinId`].
    pub pins: Vec<PinIndex>,
}

/// The input notifications of the wire engine, applied one target at a
/// time: the state is appended to the target component's queue.
pub open spec fn queue_one(
    pending: Seq<Seq<(PinId, PinState)>>,
    t: (ComponentId, PinId),
    st: PinState,
) -> Seq<Seq<(PinId, PinState)>> {
    if 0 <= t.0.0 < pending.len() {
        pending.update(t.0.0 as int, pending[t.0.0 as int].push((t.1, st)))
    } else {
        pending
    }
}

/// The input notifications queued after delivering `st` to each target
/// in order.
pub open spec fn queue_inputs(
    pending: Seq<Seq<(PinId, PinState)>>,
    targets: Seq<(ComponentId, PinId)>,
    st: PinState,
) -> Seq<Seq<(PinId, PinState)>>
    decreases targets.len(),
{
    if targets.len() == 0 {
        pending
    } else {
        queue_inputs(queue_one(pending, targets[0], st), targets.drop_first(), st)
    }
}

proof fn lemma_queue_inputs_push(
    pending: Seq<Seq<(PinId, PinState)>>,
    targets: Seq<(ComponentId, PinId)>,
    t: (ComponentId, PinId),
    st: PinState,
)
    ensures
        queue_inputs(pending, targets.push(t), st) == queue_one(
            queue_inputs(pending, targets, st),
            t,
            st,
        ),
    decreases targets.len(),
{
    if targets.len() == 0 {
        assert(targets.push(t)[0] == t);
        assert(targets.push(t).drop_first() =~= targets);
        assert(queue_inputs(queue_one(pending, t, st), targets, st) == queue_one(
            pending,
            t,
            st,
        ));
    } else {
        assert(targets.push(t)[0] == targets[0]);
        assert(targets.push(t).drop_first() =~= targets.drop_first().push(t));
        lemma_queue_inputs_push(queue_one(pending, targets[0], st), targets.drop_first(), t, st);
    }
}

/// The (component, pin-id) pairs notified when a wire's resolved value
/// changes: every member pin except the one that was set.
pub open spec fn targets_of(
    pins: Seq<Pin>,
    members: Seq<PinIndex>,
    except: PinIndex,
) -> Seq<(ComponentId, PinId)>
    decreases members.len(),
{
    if members.len() == 0 {
        Seq::empty()
    } else {
        let rest = targets_of(pins, members.drop_first(), except);
        let p = members[0];
        if p != except && 0 <= p < pins.len() && pins[p as int].component is Some {
            seq![(pins[p as int].component->0, pins[p as int].id)] + rest
        } else {
            rest
        }
    }
}

proof fn lemma_targets_of_push(pins: Seq<Pin>, members: Seq<PinIndex>, m: PinIndex, except: PinIndex)
    ensures
        targets_of(pins, members.push(m), except) =~= targets_of(pins, members, except) + (
        if m != except && 0 <= m < pins.len() && pins[m as int].component is Some {
            seq![(pins[m as int].component->0, pins[m as int].id)]
        } else {
            Seq::empty()
        }),
    decreases members.len(),
{
    if members.len() == 0 {
        assert(members.push(m)[0] == m);
        assert(members.push(m).drop_first() =~= members);
    } else {
        assert(members.push(m)[0] == members[0]);
        assert(members.push(m).drop_first() =~= members.drop_first().push(m));
        lemma_targets_of_push(pins, members.drop_first(), m, except);
    }
}

/// Notification targets depend only on each pin's owner and local
/// identifier, not on its driven state.
proof fn lemma_targets_of_congruence(
    p1: Seq<Pin>,
    p2: Seq<Pin>,
    members: Seq<PinIndex>,
    except: PinIndex,
)
    requires
        p1.len() == p2.len(),
        forall|i: int|
            0 <= i < p1.len() ==> (#[trigger] p1[i]).component == p2[i].component && p1[i].id
                == p2[i].id,
    ensures
        targets_of(p1, members, except) == targets_of(p2, members, except),
    decreases members.len(),
{
    if members.len() > 0 {
        lemma_targets_of_congruence(p1, p2, members.drop_first(), except);
    }
}

/// Top-level element of a simulation: a board containing multiple
/// components, their pins, the wires between them, the future-event
/// queue and the VCD writer.
pub struct Board {
    /// All pins, indexed by [`PinIndex`].
    pins: Vec<Pin>,
    /// All wires, indexed by [`WireId`].
    wires: Vec<Wire>,
    /// Per-component bookkeeping, indexed by [`ComponentId`].
    common_component_data: Vec<CommonComponentData>,
    /// Threaded components with at least one input change since their
    /// last step, without duplicates.
    threaded_components_changed: Vec<ComponentId>,
    /// Input notifications not yet delivered, one queue per component.
    pending_inputs: Vec<Vec<(PinId, PinState)>>,
    /// Pending future wakeups.
    events: PingQueue,
    /// The logical clock: `true` after a rising edge.
    clock_pin: bool,
    /// Simulated time, in nanoseconds.
    time_ns: u64,
    /// Nanoseconds per half-cycle.
    half_period_ns: u64,
    /// `Done` messages still owed by workers in this half-cycle.
    expected_done: usize,
    /// The staging buffer for cooperative output changes.
    global_output_changes: Vec<(PinIndex, PinState)>,
    /// The VCD recorder.
    vcd_writer: VcdWriter,
}

impl Board {
    /// All pins.
    pub closed spec fn spec_pins(self) -> Seq<Pin> {
        self.pins@
    }

    /// All wires.
    pub closed spec fn spec_wires(self) -> Seq<Wire> {
        self.wires@
    }

    /// Per-component bookkeeping.
    pub closed spec fn spec_common(self) -> Seq<CommonComponentData> {
        self.common_component_data@
    }

    /// The input-dirty threaded components.
    pub closed spec fn spec_changed(self) -> Seq<ComponentId> {
        self.threaded_components_changed@
    }

    /// The undelivered input notifications, one queue per component.
    pub closed spec fn spec_pending(self) -> Seq<Seq<(PinId, PinState)>> {
        Seq::new(self.pending_inputs@.len(), |i: int| self.pending_inputs@[i]@)
    }

    /// The pending future wakeups, by non-increasing time.
    pub closed spec fn spec_events(self) -> Seq<PingEvent> {
        self.events@
    }

    /// The logical clock: `true` after a rising edge.
    pub closed spec fn spec_clock(self) -> bool {
        self.clock_pin
    }

    /// Simulated time, in nanoseconds.
    pub closed spec fn spec_time(self) -> u64 {
        self.time_ns
    }

    /// Nanoseconds per half-cycle.
    pub closed spec fn spec_half_period(self) -> u64 {
        self.half_period_ns
    }

    /// `Done` messages still owed by workers.
    pub closed spec fn spec_expected_done(self) -> usize {
        self.expected_done
    }

    /// The staged cooperative output changes.
    pub closed spec fn spec_staged(self) -> Seq<(PinIndex, PinState)> {
        self.global_output_changes@
    }

    /// The VCD recorder.
    pub closed spec fn spec_writer(self) -> VcdWriter {
        self.vcd_writer
    }

    /// The states currently driven by the members of wire `w`.
    pub open spec fn wire_states(self, w: int) -> Seq<PinState> {
        Seq::new(
            self.spec_wires()[w].pins@.len(),
            |j: int| self.spec_pins()[self.spec_wires()[w].pins@[j] as int].out_state,
        )
    }

    /// Wire `w` is consistent: its counter equals the recomputation from
    /// its members' driven states, and each member pin points back at
    /// its slot.
    pub open spec fn wire_wf(self, w: int) -> bool {
        let wire = self.spec_wires()[w];
        &&& wire.counter@ == counter_of_seq(self.wire_states(w))
        &&& forall|j: int|
            0 <= j < wire.pins@.len() ==> (#[trigger] wire.pins@[j]) < self.spec_pins().len()
                && self.spec_pins()[wire.pins@[j] as int].wire == Some(WireId(w as usize))
                && self.spec_pins()[wire.pins@[j] as int].pos_in_wire == j
    }

    /// Pin `p` is consistent: its wire back-reference and its component
    /// back-reference both point at slots that point back at `p`.
    pub open spec fn pin_wf(self, p: int) -> bool {
        let pin = self.spec_pins()[p];
        &&& (pin.wire matches Some(w) ==> w.0 < self.spec_wires().len() && pin.pos_in_wire
            < self.spec_wires()[w.0 as int].pins@.len() && self.spec_wires()[w.0 as int].pins@[
            pin.pos_in_wire as int] == p)
        &&& (pin.component matches Some(c) ==> c.0 < self.spec_common().len() && (pin.id as int)
            < self.spec_common()[c.0 as int].pins@.len() && self.spec_common()[c.0 as int].pins@[
            pin.id as int] == p)
    }

    /// Component `c` is consistent: its pin table points at pins owned
    /// by `c` under their local identifiers.
    pub open spec fn component_wf(self, c: int) -> bool {
        let cd = self.spec_common()[c];
        &&& cd.pins@.len() <= 65536
        &&& forall|k: int|
            0 <= k < cd.pins@.len() ==> (#[trigger] cd.pins@[k]) < self.spec_pins().len()
                && self.spec_pins()[cd.pins@[k] as int].component == Some(ComponentId(c as usize))
                && self.spec_pins()[cd.pins@[k] as int].id == k as PinId
    }

    /// The board invariant.
    pub open spec fn wf(self) -> bool {
        &&& forall|w: int| 0 <= w < self.spec_wires().len() ==> #[trigger] self.wire_wf(w)
        &&& forall|p: int| 0 <= p < self.spec_pins().len() ==> #[trigger] self.pin_wf(p)
        &&& forall|c: int| 0 <= c < self.spec_common().len() ==> #[trigger] self.component_wf(c)
        &&& self.spec_common().len() == self.spec_pending().len()
        &&& self.spec_common().len() == self.spec_writer().spec_forest().len()
        &&& self.spec_common().len() == self.spec_writer().spec_changes().len()
        &&& forall|i: int|
            0 <= i < self.spec_changed().len() ==> (#[trigger] self.spec_changed()[i]).0
                < self.spec_common().len() && self.spec_common()[self.spec_changed()[i].0 as int].is_threaded
        &&& forall|i: int, j: int|
            0 <= i < j < self.spec_changed().len() ==> self.spec_changed()[i]
                != self.spec_changed()[j]
        &&& forall|i: int|
            0 <= i < self.spec_staged().len() ==> (#[trigger] self.spec_staged()[i]).0
                < self.spec_pins().len()
        &&& events_sorted(self.spec_events())
        &&& self.spec_writer().wf()
    }

    /// The wire, pin and component consistency conditions depend only
    /// on the pins, wires and component tables; a board that shares
    /// them with a consistent board is consistent.
    pub proof fn lemma_same_geometry(a: Board, b: Board)
        requires
            a.wf(),
            b.spec_pins() == a.spec_pins(),
            b.spec_wires() == a.spec_wires(),
            b.spec_common() == a.spec_common(),
        ensures
            forall|w: int| 0 <= w < b.spec_wires().len() ==> #[trigger] b.wire_wf(w),
            forall|p: int| 0 <= p < b.spec_pins().len() ==> #[trigger] b.pin_wf(p),
            forall|c: int| 0 <= c < b.spec_common().len() ==> #[trigger] b.component_wf(c),
    {
        assert forall|w: int| 0 <= w < b.spec_wires().len() implies #[trigger] b.wire_wf(w) by {
            assert(a.wire_wf(w));
            assert(b.wire_states(w) =~= a.wire_states(w));
        }
        assert forall|p: int| 0 <= p < b.spec_pins().len() implies #[trigger] b.pin_wf(p) by {
            assert(a.pin_wf(p));
        }
        assert forall|c: int|
            0 <= c < b.spec_common().len() implies #[trigger] b.component_wf(c) by {
            assert(a.component_wf(c));
        }
    }

    /// A board that shares every invariant-relevant part with a
    /// consistent board is consistent.
    proof fn lemma_wf_full(a: Board, b: Board)
        requires
            a.wf(),
            b.spec_pins() == a.spec_pins(),
            b.spec_wires() == a.spec_wires(),
            b.spec_common() == a.spec_common(),
            b.spec_changed() == a.spec_changed(),
            b.spec_staged() == a.spec_staged(),
            events_sorted(b.spec_events()),
            b.spec_writer().wf(),
            b.spec_writer().spec_forest().len() == a.spec_writer().spec_forest().len(),
            b.spec_writer().spec_changes().len() == a.spec_writer().spec_changes().len(),
            b.spec_pending().len() == a.spec_pending().len(),
        ensures
            b.wf(),
    {
        Self::lemma_same_geometry(a, b);
        assert forall|i: int|
            0 <= i < b.spec_staged().len() implies (#[trigger] b.spec_staged()[i]).0
            < b.spec_pins().len() by {
            assert((a.spec_staged()[i]).0 < a.spec_pins().len());
        }
        assert forall|i: int|
            0 <= i < b.spec_changed().len() implies (#[trigger] b.spec_changed()[i]).0
            < b.spec_common().len() && b.spec_common()[b.spec_changed()[i].0 as int].is_threaded by {
            assert((a.spec_changed()[i]).0 < a.spec_common().len());
        }
        assert forall|i: int, j: int|
            0 <= i < j < b.spec_changed().len() implies b.spec_changed()[i]
            != b.spec_changed()[j] by {
            assert(a.spec_changed()[i] != a.spec_changed()[j]);
        }
    }

    /// Like [`Board::lemma_wf_full`], for the states in which the
    /// staging buffer has just been emptied.
    proof fn lemma_wf_staged_reset(a: Board, b: Board)
        requires
            a.wf(),
            b.spec_pins() == a.spec_pins(),
            b.spec_wires() == a.spec_wires(),
            b.spec_common() == a.spec_common(),
            b.spec_changed() == a.spec_changed(),
            b.spec_staged().len() == 0,
            events_sorted(b.spec_events()),
            b.spec_writer().wf(),
            b.spec_writer().spec_forest().len() == a.spec_writer().spec_forest().len(),
            b.spec_writer().spec_changes().len() == a.spec_writer().spec_changes().len(),
            b.spec_pending().len() == a.spec_pending().len(),
        ensures
            b.wf(),
    {
        Self::lemma_same_geometry(a, b);
        assert forall|i: int|
            0 <= i < b.spec_changed().len() implies (#[trigger] b.spec_changed()[i]).0
            < b.spec_common().len() && b.spec_common()[b.spec_changed()[i].0 as int].is_threaded by {
            assert((a.spec_changed()[i]).0 < a.spec_common().len());
        }
        assert forall|i: int, j: int|
            0 <= i < j < b.spec_changed().len() implies b.spec_changed()[i]
            != b.spec_changed()[j] by {
            assert(a.spec_changed()[i] != a.spec_changed()[j]);
        }
    }

    /// Creates a new board.
    ///
    /// `half_period_ns` is the number of simulated nanoseconds between
    /// two clock transitions.
    pub fn new(half_period_ns: u64) -> (r: Board)
        ensures
            r.wf(),
            r.spec_pins() =~= Seq::<Pin>::empty(),
            r.spec_wires() =~= Seq::<Wire>::empty(),
            r.spec_common() =~= Seq::<CommonComponentData>::empty(),
            r.spec_changed() =~= Seq::<ComponentId>::empty(),
            r.spec_events() =~= Seq::<PingEvent>::empty(),
            r.spec_clock() == false,
            r.spec_time() == 0,
            r.spec_half_period() == half_period_ns,
            r.spec_staged() =~= Seq::<(PinIndex, PinState)>::empty(),
            r.spec_writer().spec_out() =~= Seq::<u8>::empty(),
    {
        Board {
            pins: Vec::new(),
            wires: Vec::new(),
            common_component_data: Vec::new(),
            threaded_components_changed: Vec::new(),
            pending_inputs: Vec::new(),
            events: PingQueue::new(),
            clock_pin: false,
            time_ns: 0,
            half_period_ns,
            expected_done: 0,
            global_output_changes: Vec::new(),
            vcd_writer: VcdWriter::new(),
        }
    }

    /// Sets a new driven state on one pin.
    fn update_pin_output(&mut self, index: PinIndex, state: PinState) -> (r: (
        PinState,
        Option<WireId>,
    ))
        requires
            index < old(self).spec_pins().len(),
        ensures
            r.0 == old(self).spec_pins()[index as int].out_state,
            r.1 == old(self).spec_pins()[index as int].wire,
            final(self).spec_pins() =~= old(self).spec_pins().update(
                index as int,
                Pin { out_state: state, ..old(self).spec_pins()[index as int] },
            ),
            final(self).spec_wires() == old(self).spec_wires(),
            final(self).spec_common() == old(self).spec_common(),
            final(self).spec_changed() == old(self).spec_changed(),
            final(self).spec_pending() == old(self).spec_pending(),
            final(self).events == old(self).events,
            final(self).spec_clock() == old(self).spec_clock(),
            final(self).spec_time() == old(self).spec_time(),
            final(self).spec_half_period() == old(self).spec_half_period(),
            final(self).spec_expected_done() == old(self).spec_expected_done(),
            final(self).spec_staged() == old(self).spec_staged(),
            final(self).spec_writer() == old(self).spec_writer(),
    {
        let mut pin = self.pins.remove(index);
        let old_state = pin.out_state;
        let wire = pin.wire;
        pin.out_state = state;
        self.pins.insert(index, pin);
        proof {
            assert(self.pins@ =~= old(self).pins@.update(index as int, self.pins@[index as int]));
        }
        (old_state, wire)
    }

    /// Updates a wire's internal counters after one member's driven
    /// state changed from `old_state` to `new_state`, and returns the
    /// old and new resolved values.
    ///
    /// If nothing changed at the pin level the counters are untouched.
    fn update_wire(&mut self, wire_id: WireId, old_state: PinState, new_state: PinState) -> (r: (
        PinState,
        PinState,
    ))
        requires
            wire_id.0 < old(self).spec_wires().len(),
            old_state != new_state ==> counts_contain(
                old(self).spec_wires()[wire_id.0 as int].counter@,
                old_state,
            ),
            old_state != new_state ==> {
                let c2 = counts_remove(
                    old(self).spec_wires()[wire_id.0 as int].counter@,
                    old_state,
                );
                c2.0 < u64::MAX && c2.1 < u64::MAX && c2.2 < u64::MAX && c2.3 < u64::MAX && c2.0
                    >= 0 && c2.1 >= 0 && c2.2 >= 0 && c2.3 >= 0
            },
        ensures
            r.0 == resolve(old(self).spec_wires()[wire_id.0 as int].counter@),
            r.1 == resolve(final(self).spec_wires()[wire_id.0 as int].counter@),
            final(self).spec_wires()[wire_id.0 as int].counter@ == (if old_state == new_state {
                old(self).spec_wires()[wire_id.0 as int].counter@
            } else {
                counts_add(
                    counts_remove(old(self).spec_wires()[wire_id.0 as int].counter@, old_state),
                    new_state,
                )
            }),
            final(self).spec_wires().len() == old(self).spec_wires().len(),
            forall|i: int|
                0 <= i < old(self).spec_wires().len() && i != wire_id.0 ==> final(self).spec_wires()[i] == old(self).spec_wires()[i],
            final(self).spec_wires()[wire_id.0 as int].pins == old(self).spec_wires()[wire_id.0 as int].pins,
            final(self).spec_pins() == old(self).spec_pins(),
            final(self).spec_common() == old(self).spec_common(),
            final(self).spec_changed() == old(self).spec_changed(),
            final(self).spec_pending() == old(self).spec_pending(),
            final(self).events == old(self).events,
            final(self).spec_clock() == old(self).spec_clock(),
            final(self).spec_time() == old(self).spec_time(),
            final(self).spec_half_period() == old(self).spec_half_period(),
            final(self).spec_expected_done() == old(self).spec_expected_done(),
            final(self).spec_staged() == old(self).spec_staged(),
            final(self).spec_writer() == old(self).spec_writer(),
    {
        let mut wire = self.wires.remove(wire_id.0);
        let old_out_state = wire.read();
        if !same_state(old_state, new_state) {
            wire.counter.remove(old_state);
            wire.counter.add(new_state);
        }
        let new_out_state = wire.read();
        self.wires.insert(wire_id.0, wire);
        proof {
            assert(self.wires@ =~= old(self).wires@.update(
                wire_id.0 as int,
                self.wires@[wire_id.0 as int],
            ));
        }
        (old_out_state, new_out_state)
    }

    /// Queues a pin-change notification to every component attached to
    /// the wire — except through the pin that was set — and flags the
    /// attached threaded components as input-dirty.
    ///
    /// Nothing happens when the resolved value did not change.
    #[verifier::loop_isolation(false)]
    fn update_pins_inputs(
        &mut self,
        wire_id: WireId,
        old_out_state: PinState,
        new_out_state: PinState,
        except: PinIndex,
    )
        requires
            old(self).wf(),
            wire_id.0 < old(self).spec_wires().len(),
        ensures
            final(self).wf(),
            old_out_state == new_out_state ==> *final(self) == *old(self),
            old_out_state != new_out_state ==> final(self).spec_pending() =~= queue_inputs(
                old(self).spec_pending(),
                targets_of(
                    old(self).spec_pins(),
                    old(self).spec_wires()[wire_id.0 as int].pins@,
                    except,
                ),
                new_out_state,
            ),
            old_out_state != new_out_state ==> (forall|c: ComponentId|
                final(self).spec_changed().contains(c) <==> old(self).spec_changed().contains(c)
                    || exists|k: int|
                    0 <= k < targets_of(
                        old(self).spec_pins(),
                        old(self).spec_wires()[wire_id.0 as int].pins@,
                        except,
                    ).len() && targets_of(
                        old(self).spec_pins(),
                        old(self).spec_wires()[wire_id.0 as int].pins@,
                        except,
                    )[k].0 == c && old(self).spec_common()[c.0 as int].is_threaded),
            final(self).spec_pins() == old(self).spec_pins(),
            final(self).spec_wires() == old(self).spec_wires(),
            final(self).spec_common() == old(self).spec_common(),
            final(self).events == old(self).events,
            final(self).spec_clock() == old(self).spec_clock(),
            final(self).spec_time() == old(self).spec_time(),
            final(self).spec_half_period() == old(self).spec_half_period(),
            final(self).spec_expected_done() == old(self).spec_expected_done(),
            final(self).spec_staged() == old(self).spec_staged(),
            final(self).spec_writer() == old(self).spec_writer(),
    {
        if same_state(new_out_state, old_out_state) {
            return ;
        }
        let ghost members = self.spec_wires()[wire_id.0 as int].pins@;
        let ghost all_targets = targets_of(old(self).spec_pins(), members, except);
        let len = self.wires[wire_id.0].pins.len();
        let mut j: usize = 0;
        while j < len
            invariant
                self.wf(),
                wire_id.0 < self.spec_wires().len(),
                len == members.len(),
                members == self.spec_wires()[wire_id.0 as int].pins@,
                0 <= j <= len,
                self.spec_pins() == old(self).spec_pins(),
                self.spec_wires() == old(self).spec_wires(),
                self.spec_common() == old(self).spec_common(),
                self.events == old(self).events,
                self.spec_clock() == old(self).spec_clock(),
                self.spec_time() == old(self).spec_time(),
                self.spec_half_period() == old(self).spec_half_period(),
                self.spec_expected_done() == old(self).spec_expected_done(),
                self.spec_staged() == old(self).spec_staged(),
                self.spec_writer() == old(self).spec_writer(),
                self.spec_pending() =~= queue_inputs(
                    old(self).spec_pending(),
                    targets_of(old(self).spec_pins(), members.take(j as int), except),
                    new_out_state,
                ),
                forall|c: ComponentId|
                    self.spec_changed().contains(c) <==> old(self).spec_changed().contains(c)
                        || exists|k: int|
                        0 <= k < targets_of(
                            old(self).spec_pins(),
                            members.take(j as int),
                            except,
                        ).len() && targets_of(
                            old(self).spec_pins(),
                            members.take(j as int),
                            except,
                        )[k].0 == c && old(self).spec_common()[c.0 as int].is_threaded,
            decreases len - j,
        {
            let ghost pre = *self;
            let pin_index = self.wires[wire_id.0].pins[j];
            proof {
                assert(self.wire_wf(wire_id.0 as int));
                assert(members[j as int] == pin_index);
                lemma_targets_of_push(old(self).spec_pins(), members.take(j as int), pin_index, except);
                assert(members.take(j as int).push(members[j as int]) =~= members.take(
                    j as int + 1,
                ));
            }
            if pin_index != except {
                proof {
                    assert(self.pin_wf(pin_index as int));
                }
                match self.pins[pin_index].component {
                    Some(cid) => {
                        let pin_id = self.pins[pin_index].id;
                        let ghost t = (cid, pin_id);
                        proof {
                            assert(cid.0 < self.spec_common().len());
                            assert(self.pending_inputs@.len() == self.spec_pending().len());
                            lemma_queue_inputs_push(
                                old(self).spec_pending(),
                                targets_of(old(self).spec_pins(), members.take(j as int), except),
                                t,
                                new_out_state,
                            );
                        }
                        let ghost prevp = self.spec_pending();
                        let mut q = self.pending_inputs.remove(cid.0);
                        q.push((pin_id, new_out_state));
                        self.pending_inputs.insert(cid.0, q);
                        proof {
                            Self::lemma_same_geometry(*old(self), *self);
                            assert(self.spec_pending() =~= prevp.update(
                                cid.0 as int,
                                prevp[cid.0 as int].push((pin_id, new_out_state)),
                            ));
                            assert(queue_one(prevp, t, new_out_state) == prevp.update(
                                cid.0 as int,
                                prevp[cid.0 as int].push((t.1, new_out_state)),
                            ));
                            let ts0 = targets_of(
                                old(self).spec_pins(),
                                members.take(j as int),
                                except,
                            );
                            assert(targets_of(
                                old(self).spec_pins(),
                                members.take(j as int + 1),
                                except,
                            ) =~= ts0.push(t));
                            assert(queue_inputs(old(self).spec_pending(), ts0, new_out_state)
                                == prevp);
                            assert(queue_inputs(
                                old(self).spec_pending(),
                                ts0.push(t),
                                new_out_state,
                            ) == queue_one(prevp, t, new_out_state));
                            assert(self.spec_pending() =~= queue_inputs(
                                old(self).spec_pending(),
                                targets_of(
                                    old(self).spec_pins(),
                                    members.take(j as int + 1),
                                    except,
                                ),
                                new_out_state,
                            ));
                            Self::lemma_wf_full(pre, *self);
                        }
                        if self.common_component_data[cid.0].is_threaded {
                            self.mark_changed(cid);
                        }
                        proof {
                            let ts = targets_of(
                                old(self).spec_pins(),
                                members.take(j as int + 1),
                                except,
                            );
                            let ts0 = targets_of(
                                old(self).spec_pins(),
                                members.take(j as int),
                                except,
                            );
                            assert(ts =~= ts0.push(t));
                            assert forall|c: ComponentId|
                                self.spec_changed().contains(c) <==> old(self).spec_changed().contains(c) || exists|k: int|
                                    0 <= k < ts.len() && ts[k].0 == c && old(self).spec_common()[c.0 as int].is_threaded by {
                                if self.spec_changed().contains(c) {
                                    if !old(self).spec_changed().contains(c) {
                                        if c == cid {
                                            assert(ts[ts.len() - 1] == t);
                                            assert(ts[ts.len() - 1].0 == c);
                                        } else {
                                            assert(pre.spec_changed().contains(c));
                                            let k0 = choose|k: int|
                                                0 <= k < ts0.len() && ts0[k].0 == c && old(self).spec_common()[c.0 as int].is_threaded;
                                            assert(ts[k0] == ts0[k0]);
                                        }
                                    }
                                } else {
                                    assert(!old(self).spec_changed().contains(c));
                                    if exists|k: int|
                                        0 <= k < ts.len() && ts[k].0 == c && old(self).spec_common()[c.0 as int].is_threaded {
                                        let k0 = choose|k: int|
                                            0 <= k < ts.len() && ts[k].0 == c && old(self).spec_common()[c.0 as int].is_threaded;
                                        if k0 < ts0.len() {
                                            assert(ts0[k0] == ts[k0]);
                                            assert(pre.spec_changed().contains(c));
                                            assert(self.spec_changed().contains(c));
                                        } else {
                                            assert(ts[k0] == t);
                                            assert(c == cid);
                                            assert(self.spec_changed().contains(c));
                                        }
                                        assert(false);
                                    }
                                }
                            }
                        }
                    },
                    None => {
                        proof {
                            assert(targets_of(
                                old(self).spec_pins(),
                                members.take(j as int + 1),
                                except,
                            ) =~= targets_of(
                                old(self).spec_pins(),
                                members.take(j as int),
                                except,
                            ));
                        }
                    },
                }
            } else {
                proof {
                    assert(targets_of(
                        old(self).spec_pins(),
                        members.take(j as int + 1),
                        except,
                    ) =~= targets_of(old(self).spec_pins(), members.take(j as int), except));
                }
            }
            j = j + 1;
        }
        proof {
            assert(members.take(len as int) =~= members);
        }
    }

    /// Adds a threaded component to the input-dirty list, once.
    #[verifier::loop_isolation(false)]
    fn mark_changed(&mut self, cid: ComponentId)
        requires
            old(self).wf(),
            cid.0 < old(self).spec_common().len(),
            old(self).spec_common()[cid.0 as int].is_threaded,
        ensures
            final(self).wf(),
            forall|c: ComponentId|
                final(self).spec_changed().contains(c) <==> old(self).spec_changed().contains(c)
                    || c == cid,
            final(self).spec_pins() == old(self).spec_pins(),
            final(self).spec_wires() == old(self).spec_wires(),
            final(self).spec_common() == old(self).spec_common(),
            final(self).spec_pending() == old(self).spec_pending(),
            final(self).events == old(self).events,
            final(self).spec_clock() == old(self).spec_clock(),
            final(self).spec_time() == old(self).spec_time(),
            final(self).spec_half_period() == old(self).spec_half_period(),
            final(self).spec_expected_done() == old(self).spec_expected_done(),
            final(self).spec_staged() == old(self).spec_staged(),
            final(self).spec_writer() == old(self).spec_writer(),
    {
        let mut i: usize = 0;
        let len = self.threaded_components_changed.len();
        while i < len
            invariant
                self == old(self),
                len == self.spec_changed().len(),
                0 <= i <= len,
                forall|j: int| 0 <= j < i ==> self.spec_changed()[j] != cid,
            decreases len - i,
        {
            if self.threaded_components_changed[i].0 == cid.0 {
                proof {
                    assert(self.spec_changed()[i as int] == cid);
                    assert(self.spec_changed().contains(cid));
                    Self::lemma_same_geometry(*old(self), *self);
                }
                return ;
            }
            i = i + 1;
        }
        proof {
            if self.spec_changed().contains(cid) {
                let j = choose|j: int|
                    0 <= j < self.spec_changed().len() && self.spec_changed()[j] == cid;
                assert(false);
            }
        }
        self.threaded_components_changed.push(cid);
        proof {
            Self::lemma_same_geometry(*old(self), *self);
            let n0 = old(self).spec_changed().len() as int;
            assert forall|i: int|
                0 <= i < self.spec_changed().len() implies (#[trigger] self.spec_changed()[i]).0
                < self.spec_common().len() && self.spec_common()[self.spec_changed()[i].0 as int].is_threaded by {
                if i < n0 {
                    assert(old(self).spec_changed()[i] == self.spec_changed()[i]);
                    assert((old(self).spec_changed()[i]).0 < old(self).spec_common().len());
                } else {
                    assert(self.spec_changed()[i] == cid);
                }
            }
            assert forall|c: ComponentId|
                self.spec_changed().contains(c) <==> old(self).spec_changed().contains(c) || c
                    == cid by {
                if self.spec_changed().contains(c) {
                    let j = choose|j: int|
                        0 <= j < self.spec_changed().len() && self.spec_changed()[j] == c;
                    if j < n0 {
                        assert(old(self).spec_changed()[j] == c);
                        assert(old(self).spec_changed().contains(c));
                    } else {
                        assert(c == cid);
                    }
                }
                if old(self).spec_changed().contains(c) {
                    let j = choose|j: int|
                        0 <= j < old(self).spec_changed().len() && old(self).spec_changed()[j]
                            == c;
                    assert(self.spec_changed()[j] == c);
                    assert(self.spec_changed().contains(c));
                }
                if c == cid {
                    assert(self.spec_changed()[n0] == cid);
                    assert(self.spec_changed().contains(cid));
                }
            }
            assert forall|i: int, j: int|
                0 <= i < j < self.spec_changed().len() implies self.spec_changed()[i]
                != self.spec_changed()[j] by {
                if j < n0 {
                    assert(old(self).spec_changed()[i] != old(self).spec_changed()[j]);
                } else {
                    assert(self.spec_changed()[j] == cid);
                    assert(self.spec_changed()[i] == old(self).spec_changed()[i]);
                }
            }
            assert forall|i: int|
                0 <= i < self.spec_staged().len() implies (#[trigger] self.spec_staged()[i]).0
                < self.spec_pins().len() by {
                assert((old(self).spec_staged()[i]).0 < old(self).spec_pins().len());
            }
        }
    }

    /// Everything [`Board::set_pin`] does, as a relation between the
    /// board before and after: the pin's driven state is replaced; if a
    /// wire is attached, its counter loses the old contribution and
    /// gains the new one, and — exactly when the resolved value changes
    /// — every other attached component is notified and the attached
    /// threaded components join the input-dirty set.  The staging
    /// buffer is left unconstrained so that a replay of many staged
    /// changes can be chained through this relation.
    pub open spec fn set_pin_effect(
        pre: Board,
        post: Board,
        pin_index: PinIndex,
        state: PinState,
    ) -> bool {
        &&& post.wf()
        &&& post.spec_pins() == pre.spec_pins().update(
            pin_index as int,
            Pin { out_state: state, ..pre.spec_pins()[pin_index as int] },
        )
        &&& (pre.spec_pins()[pin_index as int].wire is None ==> post.spec_wires()
            == pre.spec_wires() && post.spec_pending() == pre.spec_pending()
            && post.spec_changed() == pre.spec_changed())
        &&& (pre.spec_pins()[pin_index as int].wire matches Some(w) ==> {
            let oldc = pre.spec_wires()[w.0 as int].counter@;
            let olds = pre.spec_pins()[pin_index as int].out_state;
            let newc = if olds == state {
                oldc
            } else {
                counts_add(counts_remove(oldc, olds), state)
            };
            &&& post.spec_wires()[w.0 as int].counter@ == newc
            &&& post.spec_wires().len() == pre.spec_wires().len()
            &&& (forall|i: int|
                0 <= i < pre.spec_wires().len() && i != w.0 ==> post.spec_wires()[i]
                    == pre.spec_wires()[i])
            &&& post.spec_wires()[w.0 as int].pins == pre.spec_wires()[w.0 as int].pins
            &&& (resolve(oldc) == resolve(newc) ==> post.spec_pending() == pre.spec_pending()
                && post.spec_changed() == pre.spec_changed())
            &&& (resolve(oldc) != resolve(newc) ==> post.spec_pending() == queue_inputs(
                pre.spec_pending(),
                targets_of(pre.spec_pins(), pre.spec_wires()[w.0 as int].pins@, pin_index),
                resolve(newc),
            ) && (forall|c: ComponentId|
                post.spec_changed().contains(c) <==> pre.spec_changed().contains(c) || exists|
                    k: int,
                |
                    0 <= k < targets_of(
                        pre.spec_pins(),
                        pre.spec_wires()[w.0 as int].pins@,
                        pin_index,
                    ).len() && targets_of(
                        pre.spec_pins(),
                        pre.spec_wires()[w.0 as int].pins@,
                        pin_index,
                    )[k].0 == c && pre.spec_common()[c.0 as int].is_threaded))
        })
        &&& post.spec_common() == pre.spec_common()
        &&& post.spec_events() == pre.spec_events()
        &&& post.spec_clock() == pre.spec_clock()
        &&& post.spec_time() == pre.spec_time()
        &&& post.spec_half_period() == pre.spec_half_period()
        &&& post.spec_expected_done() == pre.spec_expected_done()
        &&& post.spec_writer() == pre.spec_writer()
    }

    /// The board `post` is `pre` after replaying the given changes in
    /// order through the wire engine, one [`Board::set_pin_effect`]
    /// step at a time.
    pub open spec fn replays_staged(
        pre: Board,
        post: Board,
        staged: Seq<(PinIndex, PinState)>,
    ) -> bool
        decreases staged.len(),
    {
        if staged.len() == 0 {
            post == pre
        } else {
            exists|mid: Board|
                #[trigger] Self::set_pin_effect(pre, mid, staged[0].0, staged[0].1)
                    && Self::replays_staged(mid, post, staged.drop_first())
        }
    }

    /// One wire-engine step is a replay of its one-element list.
    proof fn lemma_replays_one(pre: Board, post: Board, e: (PinIndex, PinState))
        requires
            Self::set_pin_effect(pre, post, e.0, e.1),
        ensures
            Self::replays_staged(pre, post, seq![e]),
    {
        assert(seq![e].drop_first() =~= Seq::<(PinIndex, PinState)>::empty());
        assert(Self::replays_staged(post, post, seq![e].drop_first()));
        assert(Self::set_pin_effect(pre, post, seq![e][0].0, seq![e][0].1));
    }

    /// Replays compose: a replay of `s1` followed by a replay of `s2`
    /// is a replay of their concatenation.
    proof fn lemma_replays_append(
        a: Board,
        b: Board,
        c: Board,
        s1: Seq<(PinIndex, PinState)>,
        s2: Seq<(PinIndex, PinState)>,
    )
        requires
            Self::replays_staged(a, b, s1),
            Self::replays_staged(b, c, s2),
        ensures
            Self::replays_staged(a, c, s1 + s2),
        decreases s1.len(),
    {
        if s1.len() == 0 {
            assert(b == a);
            assert(s1 + s2 =~= s2);
        } else {
            let mid = choose|mid: Board|
                #[trigger] Self::set_pin_effect(a, mid, s1[0].0, s1[0].1)
                    && Self::replays_staged(mid, b, s1.drop_first());
            Self::lemma_replays_append(mid, b, c, s1.drop_first(), s2);
            assert((s1 + s2).drop_first() =~= s1.drop_first() + s2);
            assert((s1 + s2)[0] == s1[0]);
            assert(Self::set_pin_effect(a, mid, (s1 + s2)[0].0, (s1 + s2)[0].1));
        }
    }

    /// Sets a new driven state on a pin and propagates the update
    /// through its wire: the wire's counters are adjusted by removing
    /// the old contribution and adding the new one, and if the resolved
    /// value changed, every other attached component is notified.
    #[verifier::loop_isolation(false)]
    pub fn set_pin(&mut self, pin_index: PinIndex, state: PinState)
        requires
            old(self).wf(),
            pin_index < old(self).spec_pins().len(),
        ensures
            Self::set_pin_effect(*old(self), *final(self), pin_index, state),
            final(self).spec_staged() == old(self).spec_staged(),
    {
        proof {
            assert(old(self).pin_wf(pin_index as int));
        }
        let wire_count = self.wires.len();
        proof {
            assert(self.spec_wires().len() == wire_count as int);
        }
        let (old_state, wire) = self.update_pin_output(pin_index, state);
        match wire {
            Some(wire_index) => {
                let ghost w = wire_index.0 as int;
                let ghost pos = old(self).spec_pins()[pin_index as int].pos_in_wire as int;
                let ghost olds = old(self).wire_states(w);
                let member_count = self.wires[wire_index.0].pins.len();
                proof {
                    assert(olds.len() == member_count as int);
                    assert(old(self).wire_wf(w));
                    assert(old(self).spec_wires()[w].pins@[pos] == pin_index);
                    assert(olds[pos] == old_state);
                    lemma_counter_of_seq_slack(olds, pos);
                    lemma_counter_of_seq_bounds(olds);
                    lemma_remove_in_range(olds, pos);
                    lemma_counter_of_seq_update(olds, pos, state);
                    assert(self.spec_wires()[w].counter@ == counter_of_seq(olds));
                }
                let (old_out_state, new_out_state) = self.update_wire(
                    wire_index,
                    old_state,
                    state,
                );
                proof {
                    let news = self.wire_states(w);
                    assert(news =~= olds.update(pos, state)) by {
                        assert forall|j: int| 0 <= j < news.len() implies news[j] == olds.update(
                            pos,
                            state,
                        )[j] by {
                            assert(old(self).wire_wf(w));
                            if j != pos {
                                assert(old(self).spec_wires()[w].pins@[j] != pin_index);
                            }
                        }
                    }
                    assert(self.wire_wf(w));
                    assert forall|ww: int|
                        0 <= ww < self.spec_wires().len() implies #[trigger] self.wire_wf(
                        ww,
                    ) by {
                        if ww != w {
                            assert(old(self).wire_wf(ww));
                            assert(self.wire_states(ww) =~= old(self).wire_states(ww)) by {
                                assert forall|j: int|
                                    0 <= j < self.wire_states(ww).len() implies self.wire_states(
                                    ww,
                                )[j] == old(self).wire_states(ww)[j] by {
                                    assert(old(self).wire_wf(ww));
                                    if self.spec_wires()[ww].pins@[j] == pin_index {
                                        assert(old(self).spec_pins()[pin_index as int].wire
                                            == Some(WireId(ww as usize)));
                                        assert(old(self).spec_pins()[pin_index as int].wire
                                            == Some(wire_index));
                                        assert(WireId(ww as usize) == wire_index);
                                        assert(ww as usize == wire_index.0);
                                        assert(0 <= ww < self.spec_wires().len());
                                        assert((ww as usize) as int == ww);
                                        assert(ww == w);
                                        assert(false);
                                    }
                                }
                            }
                        }
                    }
                    assert forall|p: int|
                        0 <= p < self.spec_pins().len() implies #[trigger] self.pin_wf(p) by {
                        assert(old(self).pin_wf(p));
                    }
                    assert forall|c: int|
                        0 <= c < self.spec_common().len() implies #[trigger] self.component_wf(
                        c,
                    ) by {
                        assert(old(self).component_wf(c));
                    }
                    assert(self.wf());
                }
                let ghost mid = *self;
                self.update_pins_inputs(wire_index, old_out_state, new_out_state, pin_index);
                proof {
                    lemma_targets_of_congruence(
                        mid.spec_pins(),
                        old(self).spec_pins(),
                        old(self).spec_wires()[w].pins@,
                        pin_index,
                    );
                }
            },
            None => {
                proof {
                    assert forall|ww: int|
                        0 <= ww < self.spec_wires().len() implies #[trigger] self.wire_wf(
                        ww,
                    ) by {
                        assert(old(self).wire_wf(ww));
                        assert(self.wire_states(ww) =~= old(self).wire_states(ww)) by {
                            assert forall|j: int|
                                0 <= j < self.wire_states(ww).len() implies self.wire_states(
                                ww,
                            )[j] == old(self).wire_states(ww)[j] by {
                                assert(old(self).wire_wf(ww));
                                if self.spec_wires()[ww].pins@[j] == pin_index {
                                    assert(old(self).spec_pins()[pin_index as int].wire == Some(
                                        WireId(ww as usize),
                                    ));
                                    assert(false);
                                }
                            }
                        }
                    }
                    assert forall|p: int|
                        0 <= p < self.spec_pins().len() implies #[trigger] self.pin_wf(p) by {
                        assert(old(self).pin_wf(p));
                    }
                    assert forall|c: int|
                        0 <= c < self.spec_common().len() implies #[trigger] self.component_wf(
                        c,
                    ) by {
                        assert(old(self).component_wf(c));
                    }
                }
            },
        }
    }
}

/// Whether two pin states are the same.
fn same_state(a: PinState, b: PinState) -> (r: bool)
    ensures
        r == (a == b),
{
    a == b
}

/// The staged outputs after translating a component's output changes
/// through its pin table, in order; changes naming a pin the component
/// does not have are dropped.
pub open spec fn stage_fold(
    staged: Seq<(PinIndex, PinState)>,
    table: Seq<PinIndex>,
    outs: Seq<(PinId, PinState)>,
) -> Seq<(PinIndex, PinState)>
    decreases outs.len(),
{
    if outs.len() == 0 {
        staged
    } else {
        let next = if 0 <= (outs[0].0 as int) < table.len() {
            staged.push((table[outs[0].0 as int], outs[0].1))
        } else {
            staged
        };
        stage_fold(next, table, outs.drop_first())
    }
}

proof fn lemma_stage_fold_push(
    staged: Seq<(PinIndex, PinState)>,
    table: Seq<PinIndex>,
    outs: Seq<(PinId, PinState)>,
    o: (PinId, PinState),
)
    ensures
        stage_fold(staged, table, outs.push(o)) == (if 0 <= (o.0 as int) < table.len() {
            stage_fold(staged, table, outs).push((table[o.0 as int], o.1))
        } else {
            stage_fold(staged, table, outs)
        }),
    decreases outs.len(),
{
    if outs.len() == 0 {
        assert(outs.push(o)[0] == o);
        assert(outs.push(o).drop_first() =~= outs);
        let nexto = if 0 <= (o.0 as int) < table.len() {
            staged.push((table[o.0 as int], o.1))
        } else {
            staged
        };
        assert(stage_fold(nexto, table, outs) == nexto);
        assert(stage_fold(staged, table, outs) == staged);
    } else {
        assert(outs.push(o)[0] == outs[0]);
        assert(outs.push(o).drop_first() =~= outs.drop_first().push(o));
        let next = if 0 <= (outs[0].0 as int) < table.len() {
            staged.push((table[outs[0].0 as int], outs[0].1))
        } else {
            staged
        };
        lemma_stage_fold_push(next, table, outs.drop_first(), o);
    }
}

impl Board {
    /// Registers a new component with the given pins; its pins are all
    /// created driving `Z`, and the component is notified of each of
    /// them, so its first step sees a full set of input states.
    fn add_component_common(
        &mut self,
        pins_count: u16,
        is_threaded: bool,
        name: &str,
        vcd_init: VcdTree,
    ) -> (r: ComponentId)
        requires
            old(self).wf(),
            old(self).spec_pins().len() + 65536 <= usize::MAX,
        ensures
            final(self).wf(),
            r.0 == old(self).spec_common().len(),
            final(self).spec_common().len() == old(self).spec_common().len() + 1,
            final(self).spec_common().subrange(0, old(self).spec_common().len() as int)
                =~= old(self).spec_common(),
            final(self).spec_common().last().is_threaded == is_threaded,
            final(self).spec_common().last().pins@.len() == pins_count,
            forall|k: int|
                0 <= k < pins_count ==> #[trigger] final(self).spec_common().last().pins@[k]
                    == old(self).spec_pins().len() + k,
            final(self).spec_pins().len() == old(self).spec_pins().len() + pins_count,
            final(self).spec_pins().subrange(0, old(self).spec_pins().len() as int) =~= old(self).spec_pins(),
            forall|k: int|
                0 <= k < pins_count ==> #[trigger] final(self).spec_pins()[old(
                    self,
                ).spec_pins().len() + k] == (Pin {
                    id: k as PinId,
                    component: Some(ComponentId(old(self).spec_common().len() as usize)),
                    wire: None,
                    pos_in_wire: 0,
                    out_state: PinState::Z,
                }),
            final(self).spec_pending().len() == old(self).spec_pending().len() + 1,
            final(self).spec_pending().subrange(0, old(self).spec_pending().len() as int)
                =~= old(self).spec_pending(),
            final(self).spec_pending().last() =~= Seq::new(
                pins_count as nat,
                |i: int| (i as PinId, PinState::Z),
            ),
            final(self).spec_wires() == old(self).spec_wires(),
            final(self).spec_changed() == old(self).spec_changed(),
            final(self).spec_events() == old(self).spec_events(),
            final(self).spec_clock() == old(self).spec_clock(),
            final(self).spec_time() == old(self).spec_time(),
            final(self).spec_half_period() == old(self).spec_half_period(),
            final(self).spec_staged() == old(self).spec_staged(),
            final(self).spec_writer().spec_forest().len() == old(self).spec_writer().spec_forest().len() + 1,
            final(self).spec_writer().spec_forest().subrange(
                0,
                old(self).spec_writer().spec_forest().len() as int,
            ) =~= old(self).spec_writer().spec_forest(),
            final(self).spec_writer().spec_forest().last().name == name@,
            final(self).spec_writer().spec_forest().last().val == Some(tree_view(vcd_init)),
            final(self).spec_writer().spec_changes().len() == old(
                self,
            ).spec_writer().spec_changes().len() + 1,
            final(self).spec_writer().spec_out() == old(self).spec_writer().spec_out(),
            final(self).spec_writer().spec_assigned() == old(self).spec_writer().spec_assigned(),
    {
        let component_id = ComponentId(self.common_component_data.len());
        if is_threaded {
            self.vcd_writer.add_threaded(name, vcd_init);
        } else {
            self.vcd_writer.add_threadless(name, vcd_init);
        }
        let mut table: Vec<PinIndex> = Vec::new();
        let mut queue: Vec<(PinId, PinState)> = Vec::new();
        let mut id: u16 = 0;
        let base = self.pins.len();
        while id < pins_count
            invariant
                0 <= id <= pins_count,
                base == old(self).spec_pins().len(),
                base + pins_count <= usize::MAX,
                component_id.0 == old(self).spec_common().len(),
                self.pins@.len() == base + id,
                self.pins@.subrange(0, base as int) =~= old(self).spec_pins(),
                table@.len() == id,
                forall|k: int| 0 <= k < id ==> table@[k] == base + k,
                forall|k: int|
                    0 <= k < id ==> #[trigger] self.pins@[base + k] == (Pin {
                        id: k as PinId,
                        component: Some(component_id),
                        wire: None,
                        pos_in_wire: 0,
                        out_state: PinState::Z,
                    }),
                queue@.len() == id,
                forall|k: int| 0 <= k < id ==> #[trigger] queue@[k] == (k as PinId, PinState::Z),
                self.wires == old(self).wires,
                self.common_component_data == old(self).common_component_data,
                self.threaded_components_changed == old(self).threaded_components_changed,
                self.pending_inputs == old(self).pending_inputs,
                self.events == old(self).events,
                self.clock_pin == old(self).clock_pin,
                self.time_ns == old(self).time_ns,
                self.half_period_ns == old(self).half_period_ns,
                self.expected_done == old(self).expected_done,
                self.global_output_changes == old(self).global_output_changes,
                self.vcd_writer.wf(),
                self.vcd_writer.spec_forest().len() == old(self).spec_writer().spec_forest().len()
                    + 1,
                self.vcd_writer.spec_forest().subrange(
                    0,
                    old(self).spec_writer().spec_forest().len() as int,
                ) =~= old(self).spec_writer().spec_forest(),
                self.vcd_writer.spec_forest().last().name == name@,
                self.vcd_writer.spec_forest().last().val == Some(tree_view(vcd_init)),
                self.vcd_writer.spec_changes().len() == old(self).spec_writer().spec_changes().len()
                    + 1,
                self.vcd_writer.spec_out() == old(self).spec_writer().spec_out(),
                self.vcd_writer.spec_assigned() == old(self).spec_writer().spec_assigned(),
            decreases pins_count - id,
    {
            table.push(self.pins.len());
            self.pins.push(
                Pin {
                    id,
                    component: Some(component_id),
                    wire: None,
                    pos_in_wire: 0,
                    out_state: PinState::Z,
                },
            );
            queue.push((id, PinState::Z));
            id = id + 1;
        }
        self.common_component_data.push(
            CommonComponentData { is_threaded, pins: table },
        );
        self.pending_inputs.push(queue);
        proof {
            let a = *old(self);
            let b = *self;
            assert(b.spec_pending().subrange(0, a.spec_pending().len() as int)
                =~= a.spec_pending());
            assert(b.spec_pending().last() =~= Seq::new(
                pins_count as nat,
                |i: int| (i as PinId, PinState::Z),
            ));
            assert forall|w: int| 0 <= w < b.spec_wires().len() implies #[trigger] b.wire_wf(
                w,
            ) by {
                assert(a.wire_wf(w));
                assert(b.wire_states(w) =~= a.wire_states(w)) by {
                    assert forall|j: int|
                        0 <= j < b.wire_states(w).len() implies b.wire_states(w)[j]
                        == a.wire_states(w)[j] by {
                        assert(a.wire_wf(w));
                    }
                }
            }
            assert forall|pp: int| 0 <= pp < b.spec_pins().len() implies #[trigger] b.pin_wf(
                pp,
            ) by {
                if pp < base {
                    assert(a.pin_wf(pp));
                } else {
                    let k = pp - base;
                    assert(b.spec_pins()[base + k] == (Pin {
                        id: k as PinId,
                        component: Some(component_id),
                        wire: None,
                        pos_in_wire: 0,
                        out_state: PinState::Z,
                    }));
                    assert(pp == base + k);
                    assert(b.spec_common()[component_id.0 as int].pins@[k] == base + k);
                }
            }
            assert forall|c: int|
                0 <= c < b.spec_common().len() implies #[trigger] b.component_wf(c) by {
                if c < a.spec_common().len() {
                    assert(a.component_wf(c));
                    assert(b.spec_common()[c] == a.spec_common()[c]);
                }
            }
            assert forall|i: int|
                0 <= i < b.spec_changed().len() implies (#[trigger] b.spec_changed()[i]).0
                < b.spec_common().len() && b.spec_common()[b.spec_changed()[i].0 as int].is_threaded by {
                assert((a.spec_changed()[i]).0 < a.spec_common().len());
                assert(b.spec_common()[b.spec_changed()[i].0 as int] == a.spec_common()[
                    a.spec_changed()[i].0 as int]);
            }
            assert forall|i: int, j: int|
                0 <= i < j < b.spec_changed().len() implies b.spec_changed()[i]
                != b.spec_changed()[j] by {
                assert(a.spec_changed()[i] != a.spec_changed()[j]);
            }
            assert forall|i: int|
                0 <= i < b.spec_staged().len() implies (#[trigger] b.spec_staged()[i]).0
                < b.spec_pins().len() by {
                assert((a.spec_staged()[i]).0 < a.spec_pins().len());
            }
        }
        component_id
    }

    /// What both component constructors guarantee: a fresh slot with
    /// `n` pins all created driving `Z` under the new identifier, the
    /// pending queue seeded with one `Z` notification per pin, a fresh
    /// forest slot under `name`, and everything already on the board
    /// untouched.
    pub open spec fn component_added(
        pre: Board,
        post: Board,
        n: int,
        name: Seq<char>,
        is_threaded: bool,
    ) -> bool {
        &&& post.wf()
        &&& post.spec_common().len() == pre.spec_common().len() + 1
        &&& post.spec_common().subrange(0, pre.spec_common().len() as int) == pre.spec_common()
        &&& post.spec_common().last().is_threaded == is_threaded
        &&& post.spec_common().last().pins@.len() == n
        &&& (forall|k: int|
            0 <= k < n ==> #[trigger] post.spec_common().last().pins@[k] == pre.spec_pins().len()
                + k)
        &&& post.spec_pins().len() == pre.spec_pins().len() + n
        &&& post.spec_pins().subrange(0, pre.spec_pins().len() as int) == pre.spec_pins()
        &&& (forall|k: int|
            0 <= k < n ==> #[trigger] post.spec_pins()[pre.spec_pins().len() + k] == (Pin {
                id: k as PinId,
                component: Some(ComponentId(pre.spec_common().len() as usize)),
                wire: None,
                pos_in_wire: 0,
                out_state: PinState::Z,
            }))
        &&& post.spec_pending().len() == pre.spec_pending().len() + 1
        &&& post.spec_pending().subrange(0, pre.spec_pending().len() as int)
            == pre.spec_pending()
        &&& post.spec_pending().last() == Seq::new(n as nat, |i: int| (i as PinId, PinState::Z))
        &&& post.spec_wires() == pre.spec_wires()
        &&& post.spec_events() == pre.spec_events()
        &&& post.spec_clock() == pre.spec_clock()
        &&& post.spec_time() == pre.spec_time()
        &&& post.spec_half_period() == pre.spec_half_period()
        &&& post.spec_staged() == pre.spec_staged()
        &&& post.spec_writer().spec_forest().len() == pre.spec_writer().spec_forest().len() + 1
        &&& post.spec_writer().spec_forest().subrange(
            0,
            pre.spec_writer().spec_forest().len() as int,
        ) == pre.spec_writer().spec_forest()
        &&& post.spec_writer().spec_forest().last().name == name
        &&& post.spec_writer().spec_forest().last().val is Some
        &&& post.spec_writer().spec_out() == pre.spec_writer().spec_out()
        &&& post.spec_writer().spec_assigned() == pre.spec_writer().spec_assigned()
    }

    /// Adds a component driven on its own worker, with the given VCD
    /// configuration.  The component's pins are created driving `Z`,
    /// its pending queue is seeded with one notification per pin, its
    /// VCD tree is built by the component's `init_vcd`, and the
    /// component is flagged input-dirty so its worker receives a first
    /// step.
    pub fn add_component_threaded<T: Component>(
        &mut self,
        component: &T,
        name: &str,
        config: &VcdConfig,
    ) -> (r: ComponentHandle)
        requires
            old(self).wf(),
            old(self).spec_pins().len() + 65536 <= usize::MAX,
        ensures
            final(self).wf(),
            r.spec_id().0 == old(self).spec_common().len(),
            Self::component_added(
                *old(self),
                *final(self),
                final(self).spec_common().last().pins@.len() as int,
                name@,
                true,
            ),
            r.spec_names().len() == final(self).spec_common().last().pins@.len(),
            forall|k: int|
                0 <= k < r.spec_names().len() ==> (#[trigger] r.spec_names()[k]).1 == k as PinId,
            forall|c: ComponentId|
                final(self).spec_changed().contains(c) <==> old(self).spec_changed().contains(c)
                    || c == r.spec_id(),
    {
        let vcd_init = component.init_vcd(config);
        let pins_count = pin_count_of::<T>();
        let cid = self.add_component_common(pins_count, true, name, vcd_init);
        proof {
            assert(self.spec_common()[cid.0 as int] == self.spec_common().last());
        }
        self.mark_changed(cid);
        let lookup = pin_name_table::<T>(pins_count);
        ComponentHandle::new(cid, lookup)
    }

    /// Adds a component driven cooperatively on the board's own thread,
    /// with the given VCD configuration.  The component's pins are
    /// created driving `Z`, its pending queue is seeded with one
    /// notification per pin, and its VCD tree is built by the
    /// component's `init_vcd`.
    pub fn add_component_clocked<T: Component>(
        &mut self,
        component: &T,
        name: &str,
        config: &VcdConfig,
    ) -> (r: ComponentHandle)
        requires
            old(self).wf(),
            old(self).spec_pins().len() + 65536 <= usize::MAX,
        ensures
            final(self).wf(),
            r.spec_id().0 == old(self).spec_common().len(),
            Self::component_added(
                *old(self),
                *final(self),
                final(self).spec_common().last().pins@.len() as int,
                name@,
                false,
            ),
            r.spec_names().len() == final(self).spec_common().last().pins@.len(),
            forall|k: int|
                0 <= k < r.spec_names().len() ==> (#[trigger] r.spec_names()[k]).1 == k as PinId,
            final(self).spec_changed() == old(self).spec_changed(),
    {
        let vcd_init = component.init_vcd(config);
        let pins_count = pin_count_of::<T>();
        let cid = self.add_component_common(pins_count, false, name, vcd_init);
        let lookup = pin_name_table::<T>(pins_count);
        ComponentHandle::new(cid, lookup)
    }
}

/// The component's pin count, clamped to what a [`PinId`] can number.
fn pin_count_of<T: Component>() -> (r: u16) {
    let n = T::pin_count();
    if n > 65535 {
        65535
    } else {
        #[verifier::truncate] (n as u16)
    }
}

/// The pin-name table of a component type: one entry per pin, in pin
/// order.
fn pin_name_table<T: Component>(pins_count: u16) -> (r: Vec<(String, PinId)>)
    ensures
        r@.len() == pins_count,
        forall|k: int| 0 <= k < pins_count ==> (#[trigger] r@[k]).1 == k as PinId,
{
    let mut lookup: Vec<(String, PinId)> = Vec::new();
    let mut id: u16 = 0;
    while id < pins_count
        invariant
            0 <= id <= pins_count,
            lookup@.len() == id,
            forall|k: int| 0 <= k < id ==> (#[trigger] lookup@[k]).1 == k as PinId,
        decreases pins_count - id,
    {
        lookup.push((T::pin_name(id), id));
        id = id + 1;
    }
    lookup
}

/// Why a worker's message cannot be processed: these are the worker
/// protocol violations, which the simulation treats as fatal.
#[derive(Debug, Clone, Copy, PartialEq, Eq, Structural)]
pub enum ProtocolError {
    /// A message names a component or a pin that does not exist.
    NoSuchPin,
    /// A `Done` arrived when no step acknowledgement was owed.
    UnexpectedDone,
}

/// Why a wire cannot be created.
#[derive(Debug, Clone, Copy, PartialEq, Eq, Structural)]
pub enum WireError {
    /// An endpoint names a component or a pin that does not exist.
    NoSuchPin,
    /// An endpoint's pin already belongs to a wire, or is named twice.
    PinAlreadyWired,
}

impl Board {
    /// The board-global index of an endpoint.
    pub open spec fn spec_pin_index(self, t: (ComponentId, PinId)) -> int {
        self.spec_common()[t.0.0 as int].pins@[t.1 as int] as int
    }

    /// Whether an endpoint names an existing pin.
    pub open spec fn wire_entry_valid(self, t: (ComponentId, PinId)) -> bool {
        t.0.0 < self.spec_common().len() && (t.1 as int) < self.spec_common()[t.0.0 as int].pins@.len()
    }

    /// Whether a list of endpoints can be wired: every endpoint exists,
    /// none is already wired, and no pin is named twice.
    pub open spec fn wire_input_ok(self, ts: Seq<(ComponentId, PinId)>) -> bool {
        &&& forall|k: int| 0 <= k < ts.len() ==> #[trigger] self.wire_entry_valid(ts[k])
        &&& forall|k: int|
            0 <= k < ts.len() ==> self.spec_pins()[#[trigger] self.spec_pin_index(ts[k])].wire
                is None
        &&& forall|k1: int, k2: int|
            0 <= k1 < k2 < ts.len() ==> self.spec_pin_index(ts[k1]) != self.spec_pin_index(
                ts[k2],
            )
    }

    /// Adds a new wire connecting the given endpoints.
    ///
    /// The wire's counter is seeded from the current driven state of
    /// each member, and the initial resolved value is delivered to every
    /// endpoint as an input change.  Wiring a missing pin, a pin twice,
    /// or an already-wired pin is refused, and the board is unchanged.
    #[verifier::loop_isolation(false)]
    #[verifier::rlimit(60)]
    pub fn add_wire(&mut self, pins: &Vec<(ComponentId, PinId)>) -> (r: Result<WireId, WireError>)
        requires
            old(self).wf(),
        ensures
            final(self).wf(),
            (r is Ok) == old(self).wire_input_ok(pins@),
            r == Result::<WireId, WireError>::Err(WireError::NoSuchPin) ==> exists|k: int|
                0 <= k < pins@.len() && !old(self).wire_entry_valid(pins@[k]),
            r == Result::<WireId, WireError>::Err(WireError::PinAlreadyWired) ==> (forall|k: int|
                0 <= k < pins@.len() ==> #[trigger] old(self).wire_entry_valid(pins@[k])),
            r is Err ==> *final(self) == *old(self),
            r matches Ok(wid) ==> {
                let resolved = resolve(
                    final(self).spec_wires()[wid.0 as int].counter@,
                );
                &&& wid.0 == old(self).spec_wires().len()
                &&& final(self).spec_wires().len() == old(self).spec_wires().len() + 1
                &&& final(self).spec_wires()[wid.0 as int].pins@.len() == pins@.len()
                &&& (forall|k: int|
                    0 <= k < pins@.len() ==> final(self).spec_wires()[wid.0 as int].pins@[k]
                        as int == old(self).spec_pin_index(pins@[k]))
                &&& final(self).spec_wires()[wid.0 as int].counter@ == counter_of_seq(
                    final(self).wire_states(wid.0 as int),
                )
                &&& final(self).spec_pins().len() == old(self).spec_pins().len()
                &&& (forall|p: int|
                    0 <= p < old(self).spec_pins().len() && !(exists|k: int|
                        0 <= k < pins@.len() && old(self).spec_pin_index(pins@[k]) == p)
                        ==> final(self).spec_pins()[p] == old(self).spec_pins()[p])
                &&& (forall|k: int|
                    0 <= k < pins@.len() ==> final(self).spec_pins()[old(self).spec_pin_index(pins@[k])].wire == Some(wid) && final(self).spec_pins()[
                    old(self).spec_pin_index(pins@[k])].out_state == old(self).spec_pins()[old(self).spec_pin_index(pins@[k])].out_state)
                &&& final(self).spec_pending() =~= queue_inputs(
                    old(self).spec_pending(),
                    pins@,
                    resolved,
                )
                &&& (forall|c: ComponentId|
                    old(self).spec_changed().contains(c) ==> final(self).spec_changed().contains(
                        c,
                    ))
                &&& (forall|c: ComponentId|
                    final(self).spec_changed().contains(c) ==> old(self).spec_changed().contains(
                        c,
                    ) || exists|k: int| 0 <= k < pins@.len() && pins@[k].0 == c)
            },
            final(self).spec_common() == old(self).spec_common(),
            final(self).spec_events() == old(self).spec_events(),
            final(self).spec_clock() == old(self).spec_clock(),
            final(self).spec_time() == old(self).spec_time(),
            final(self).spec_half_period() == old(self).spec_half_period(),
            final(self).spec_staged() == old(self).spec_staged(),
            final(self).spec_writer() == old(self).spec_writer(),
    {
        let n = pins.len();
        // First pass: every endpoint must exist.
        let mut k: usize = 0;
        while k < n
            invariant
                0 <= k <= n,
                n == pins@.len(),
                forall|i: int| 0 <= i < k ==> #[trigger] self.wire_entry_valid(pins@[i]),
            decreases n - k,
        {
            let (cid, pid) = pins[k];
            if cid.0 >= self.common_component_data.len() {
                proof {
                    assert(pins@[k as int] == (cid, pid));
                    assert(!self.wire_entry_valid(pins@[k as int]));
                }
                return Err(WireError::NoSuchPin);
            }
            if pid as usize >= self.common_component_data[cid.0].pins.len() {
                proof {
                    assert(pins@[k as int] == (cid, pid));
                    assert(!self.wire_entry_valid(pins@[k as int]));
                }
                return Err(WireError::NoSuchPin);
            }
            k = k + 1;
        }
        // Second pass: endpoints must be unwired and pairwise distinct.
        let mut k2: usize = 0;
        while k2 < n
            invariant
                0 <= k2 <= n,
                n == pins@.len(),
                forall|i: int| 0 <= i < n ==> #[trigger] self.wire_entry_valid(pins@[i]),
                forall|i: int|
                    0 <= i < k2 ==> self.spec_pins()[#[trigger] self.spec_pin_index(
                        pins@[i],
                    )].wire is None,
                forall|i: int, j: int|
                    0 <= i < j < k2 ==> self.spec_pin_index(pins@[i]) != self.spec_pin_index(
                        pins@[j],
                    ),
            decreases n - k2,
        {
            let (cid, pid) = pins[k2];
            proof {
                assert(pins@[k2 as int] == (cid, pid));
                assert(self.wire_entry_valid(pins@[k2 as int]));
                assert(self.component_wf(cid.0 as int));
            }
            let index = self.common_component_data[cid.0].pins[pid as usize];
            proof {
                assert(index as int == self.spec_pin_index(pins@[k2 as int]));
            }
            if self.pins[index].wire.is_some() {
                proof {
                    assert(self.spec_pins()[self.spec_pin_index(pins@[k2 as int])].wire
                        is Some);
                    assert(!self.wire_input_ok(pins@));
                }
                return Err(WireError::PinAlreadyWired);
            }
            let mut j: usize = 0;
            while j < k2
                invariant
                    0 <= j <= k2 < n,
                    n == pins@.len(),
                    index as int == self.spec_pin_index(pins@[k2 as int]),
                    forall|i: int| 0 <= i < n ==> #[trigger] self.wire_entry_valid(pins@[i]),
                    forall|i: int|
                        0 <= i < j ==> self.spec_pin_index(pins@[i]) != index as int,
                decreases k2 - j,
            {
                let (cid2, pid2) = pins[j];
                proof {
                    assert(pins@[j as int] == (cid2, pid2));
                    assert(self.wire_entry_valid(pins@[j as int]));
                    assert(self.component_wf(cid2.0 as int));
                }
                let index2 = self.common_component_data[cid2.0].pins[pid2 as usize];
                proof {
                    assert(index2 as int == self.spec_pin_index(pins@[j as int]));
                }
                if index2 == index {
                    proof {
                        assert(self.spec_pin_index(pins@[j as int]) == self.spec_pin_index(
                            pins@[k2 as int],
                        ));
                        assert(!self.wire_input_ok(pins@));
                    }
                    return Err(WireError::PinAlreadyWired);
                }
                j = j + 1;
            }
            k2 = k2 + 1;
        }
        // Build the wire: members and seeded counter.
        let wire_id = WireId(self.wires.len());
        let mut counter = WireStateCounter::new();
        let mut members: Vec<PinIndex> = Vec::new();
        let ghost states0 = Seq::<PinState>::empty();
        let ghost orig = *self;
        let mut k3: usize = 0;
        while k3 < n
            invariant
                0 <= k3 <= n,
                n == pins@.len(),
                *self == orig,
                members@.len() == k3,
                forall|i: int|
                    0 <= i < k3 ==> #[trigger] members@[i] as int == orig.spec_pin_index(
                        pins@[i],
                    ),
                forall|i: int| 0 <= i < k3 ==> (#[trigger] members@[i]) < orig.spec_pins().len(),
                counter@ == counter_of_seq(
                    Seq::new(k3 as nat, |i: int| orig.spec_pins()[members@[i] as int].out_state),
                ),
            decreases n - k3,
        {
            let (cid, pid) = pins[k3];
            proof {
                assert(pins@[k3 as int] == (cid, pid));
                assert(self.wire_entry_valid(pins@[k3 as int]));
                assert(self.component_wf(cid.0 as int));
            }
            let index = self.common_component_data[cid.0].pins[pid as usize];
            proof {
                assert(index as int == self.spec_pin_index(pins@[k3 as int]));
                let sts = Seq::new(
                    k3 as nat,
                    |i: int| orig.spec_pins()[members@[i] as int].out_state,
                );
                lemma_counter_of_seq_bounds(sts);
                lemma_counter_of_seq_push(sts, orig.spec_pins()[index as int].out_state);
            }
            let ghost prevm = members@;
            members.push(index);
            counter.add(self.pins[index].out_state);
            proof {
                assert(Seq::new(
                    (k3 + 1) as nat,
                    |i: int| orig.spec_pins()[members@[i] as int].out_state,
                ) =~= Seq::new(
                    k3 as nat,
                    |i: int| orig.spec_pins()[prevm[i] as int].out_state,
                ).push(orig.spec_pins()[index as int].out_state));
            }
            k3 = k3 + 1;
        }
        let wire = Wire { counter, pins: members };
        let resolved = wire.read();
        self.wires.push(wire);
        let ghost mid = *self;
        // Point every member pin at its slot in the new wire.
        let mut k4: usize = 0;
        while k4 < n
            invariant
                0 <= k4 <= n,
                n == pins@.len(),
                wire_id.0 == orig.spec_wires().len(),
                self.spec_wires() == mid.spec_wires(),
                mid.spec_wires() =~= orig.spec_wires().push(mid.spec_wires().last()),
                mid.spec_wires().last().pins@.len() == n,
                forall|i: int|
                    0 <= i < n ==> #[trigger] mid.spec_wires().last().pins@[i] as int
                        == orig.spec_pin_index(pins@[i]),
                self.spec_pins().len() == orig.spec_pins().len(),
                forall|p: int|
                    0 <= p < orig.spec_pins().len() && !(exists|i: int|
                        0 <= i < k4 && orig.spec_pin_index(pins@[i]) == p) ==> #[trigger] self.spec_pins()[p]
                        == orig.spec_pins()[p],
                forall|i: int|
                    0 <= i < k4 ==> #[trigger] self.spec_pins()[orig.spec_pin_index(pins@[i])]
                        == (Pin {
                        wire: Some(wire_id),
                        pos_in_wire: i as usize,
                        ..orig.spec_pins()[orig.spec_pin_index(pins@[i])]
                    }),
                self.common_component_data == orig.common_component_data,
                self.threaded_components_changed == orig.threaded_components_changed,
                self.pending_inputs == orig.pending_inputs,
                self.events == orig.events,
                self.clock_pin == orig.clock_pin,
                self.time_ns == orig.time_ns,
                self.half_period_ns == orig.half_period_ns,
                self.expected_done == orig.expected_done,
                self.global_output_changes == orig.global_output_changes,
                self.vcd_writer == orig.vcd_writer,
            decreases n - k4,
        {
            let (cid, pid) = pins[k4];
            proof {
                assert(pins@[k4 as int] == (cid, pid));
                assert(orig.wire_entry_valid(pins@[k4 as int]));
                assert(orig.component_wf(cid.0 as int));
            }
            let index = self.common_component_data[cid.0].pins[pid as usize];
            proof {
                assert(index as int == orig.spec_pin_index(pins@[k4 as int]));
            }
            let ghost prevpins = self.pins@;
            let mut pin = self.pins.remove(index);
            pin.wire = Some(wire_id);
            pin.pos_in_wire = k4;
            self.pins.insert(index, pin);
            proof {
                assert(self.pins@ =~= prevpins.update(index as int, self.pins@[index as int]));
                assert forall|i: int|
                    0 <= i < k4 + 1 implies #[trigger] self.spec_pins()[orig.spec_pin_index(
                    pins@[i],
                )] == (Pin {
                    wire: Some(wire_id),
                    pos_in_wire: i as usize,
                    ..orig.spec_pins()[orig.spec_pin_index(pins@[i])]
                }) by {
                    if i < k4 {
                        assert(orig.spec_pin_index(pins@[i]) != orig.spec_pin_index(
                            pins@[k4 as int],
                        ));
                        assert(orig.wire_entry_valid(pins@[i]));
                        assert(orig.component_wf(pins@[i].0.0 as int));
                        assert(0 <= orig.spec_pin_index(pins@[i]) < prevpins.len());
                        assert(prevpins[orig.spec_pin_index(pins@[i])] == self.spec_pins()[
                        orig.spec_pin_index(pins@[i])]);
                    } else {
                        if exists|i2: int|
                            0 <= i2 < k4 && orig.spec_pin_index(pins@[i2]) == index as int {
                            let i2 = choose|i2: int|
                                0 <= i2 < k4 && orig.spec_pin_index(pins@[i2]) == index as int;
                            assert(orig.spec_pin_index(pins@[i2]) != orig.spec_pin_index(
                                pins@[k4 as int],
                            ));
                            assert(false);
                        }
                        assert(prevpins[index as int] == orig.spec_pins()[index as int]);
                    }
                }
            }
            k4 = k4 + 1;
        }
        proof {
            let b = *self;
            let w = wire_id.0 as int;
            assert(b.wire_states(w) =~= Seq::new(
                n as nat,
                |i: int| orig.spec_pins()[orig.spec_pin_index(pins@[i])].out_state,
            )) by {
                assert forall|i: int| 0 <= i < n implies b.wire_states(w)[i] == orig.spec_pins()[
                    orig.spec_pin_index(pins@[i])].out_state by {
                    assert(b.spec_wires()[w].pins@[i] as int == orig.spec_pin_index(pins@[i]));
                    assert(b.spec_pins()[orig.spec_pin_index(pins@[i])].out_state
                        == orig.spec_pins()[orig.spec_pin_index(pins@[i])].out_state);
                }
            }
            assert(b.spec_wires()[w].counter@ == counter_of_seq(b.wire_states(w))) by {
                assert(Seq::new(
                    n as nat,
                    |i: int| orig.spec_pins()[b.spec_wires()[w].pins@[i] as int].out_state,
                ) =~= b.wire_states(w));
            }
            assert(b.wire_wf(w)) by {
                assert forall|j: int|
                    0 <= j < b.spec_wires()[w].pins@.len() implies (#[trigger] b.spec_wires()[
                w].pins@[j]) < b.spec_pins().len() && b.spec_pins()[b.spec_wires()[w].pins@[j] as int].wire
                    == Some(WireId(w as usize)) && b.spec_pins()[b.spec_wires()[w].pins@[j] as int].pos_in_wire
                    == j by {
                    assert(b.spec_pins()[orig.spec_pin_index(pins@[j])] == (Pin {
                        wire: Some(wire_id),
                        pos_in_wire: j as usize,
                        ..orig.spec_pins()[orig.spec_pin_index(pins@[j])]
                    }));
                }
            }
            assert forall|ww: int| 0 <= ww < b.spec_wires().len() implies #[trigger] b.wire_wf(
                ww,
            ) by {
                if ww < orig.spec_wires().len() {
                    assert(orig.wire_wf(ww));
                    assert(b.spec_wires()[ww] == orig.spec_wires()[ww]);
                    assert(b.wire_states(ww) =~= orig.wire_states(ww)) by {
                        assert forall|j: int|
                            0 <= j < b.wire_states(ww).len() implies b.wire_states(ww)[j]
                            == orig.wire_states(ww)[j] by {
                            assert(orig.wire_wf(ww));
                            let m = b.spec_wires()[ww].pins@[j];
                            if exists|i: int|
                                0 <= i < n && orig.spec_pin_index(pins@[i]) == m as int {
                                let i0 = choose|i: int|
                                    0 <= i < n && orig.spec_pin_index(pins@[i]) == m as int;
                                assert(orig.spec_pins()[m as int].wire is None);
                                assert(orig.spec_pins()[m as int].wire == Some(WireId(
                                    ww as usize,
                                )));
                                assert(false);
                            }
                        }
                    }
                }
            }
            assert forall|p: int| 0 <= p < b.spec_pins().len() implies #[trigger] b.pin_wf(
                p,
            ) by {
                assert(orig.pin_wf(p));
                if exists|i: int| 0 <= i < n && orig.spec_pin_index(pins@[i]) == p {
                    let i0 = choose|i: int|
                        0 <= i < n && orig.spec_pin_index(pins@[i]) == p;
                    assert(b.spec_pins()[p] == (Pin {
                        wire: Some(wire_id),
                        pos_in_wire: i0 as usize,
                        ..orig.spec_pins()[p]
                    }));
                    assert(b.spec_wires()[w].pins@[i0] as int == p);
                }
            }
            assert forall|c: int|
                0 <= c < b.spec_common().len() implies #[trigger] b.component_wf(c) by {
                assert(orig.component_wf(c));
            }
            assert forall|i: int|
                0 <= i < b.spec_staged().len() implies (#[trigger] b.spec_staged()[i]).0
                < b.spec_pins().len() by {
                assert((orig.spec_staged()[i]).0 < orig.spec_pins().len());
            }
            assert forall|i: int|
                0 <= i < b.spec_changed().len() implies (#[trigger] b.spec_changed()[i]).0
                < b.spec_common().len() && b.spec_common()[b.spec_changed()[i].0 as int].is_threaded by {
                assert((orig.spec_changed()[i]).0 < orig.spec_common().len());
            }
            assert forall|i: int, j2: int|
                0 <= i < j2 < b.spec_changed().len() implies b.spec_changed()[i]
                != b.spec_changed()[j2] by {
                assert(orig.spec_changed()[i] != orig.spec_changed()[j2]);
            }
            assert(b.wf());
        }
        // Deliver the initial resolved value to every endpoint.
        let ghost mid2 = *self;
        let mut k5: usize = 0;
        while k5 < n
            invariant
                0 <= k5 <= n,
                n == pins@.len(),
                self.wf(),
                self.spec_pins() == mid2.spec_pins(),
                self.spec_wires() == mid2.spec_wires(),
                self.spec_common() == mid2.spec_common(),
                self.events == mid2.events,
                self.clock_pin == mid2.clock_pin,
                self.time_ns == mid2.time_ns,
                self.half_period_ns == mid2.half_period_ns,
                self.expected_done == mid2.expected_done,
                self.spec_staged() == mid2.spec_staged(),
                self.vcd_writer == mid2.vcd_writer,
                self.spec_pending() =~= queue_inputs(
                    mid2.spec_pending(),
                    pins@.take(k5 as int),
                    resolved,
                ),
                forall|c: ComponentId|
                    mid2.spec_changed().contains(c) ==> self.spec_changed().contains(c),
                forall|c: ComponentId|
                    self.spec_changed().contains(c) ==> mid2.spec_changed().contains(c)
                        || exists|i: int| 0 <= i < k5 && pins@[i].0 == c,
            decreases n - k5,
        {
            let ghost pre = *self;
            let (cid, pid) = pins[k5];
            proof {
                assert(pins@[k5 as int] == (cid, pid));
                assert(orig.wire_entry_valid(pins@[k5 as int]));
                assert(mid2.spec_common() == orig.spec_common());
                assert(cid.0 < self.spec_common().len());
                assert(self.pending_inputs@.len() == self.spec_pending().len());
                assert(pins@.take(k5 as int).push(pins@[k5 as int]) =~= pins@.take(
                    k5 as int + 1,
                ));
                lemma_queue_inputs_push(
                    mid2.spec_pending(),
                    pins@.take(k5 as int),
                    pins@[k5 as int],
                    resolved,
                );
            }
            let ghost prevp = self.spec_pending();
            let mut q = self.pending_inputs.remove(cid.0);
            q.push((pid, resolved));
            self.pending_inputs.insert(cid.0, q);
            proof {
                assert(self.spec_pending() =~= prevp.update(
                    cid.0 as int,
                    prevp[cid.0 as int].push((pid, resolved)),
                ));
                assert(queue_one(prevp, pins@[k5 as int], resolved) == prevp.update(
                    cid.0 as int,
                    prevp[cid.0 as int].push((pid, resolved)),
                ));
                Self::lemma_wf_full(pre, *self);
            }
            if self.common_component_data[cid.0].is_threaded {
                let ghost pre2 = *self;
                self.mark_changed(cid);
                proof {
                    assert(pre2.spec_changed() == pre.spec_changed());
                    assert forall|c: ComponentId|
                        mid2.spec_changed().contains(c) implies self.spec_changed().contains(
                        c,
                    ) by {
                        assert(pre.spec_changed().contains(c));
                    }
                    assert forall|c: ComponentId|
                        self.spec_changed().contains(c) implies mid2.spec_changed().contains(c)
                        || exists|i: int| 0 <= i < k5 + 1 && pins@[i].0 == c by {
                        if c == cid {
                            assert(pins@[k5 as int].0 == c);
                        } else {
                            assert(pre.spec_changed().contains(c));
                            if !mid2.spec_changed().contains(c) {
                                let i0 = choose|i: int| 0 <= i < k5 && pins@[i].0 == c;
                                assert(pins@[i0].0 == c);
                            }
                        }
                    }
                }
            } else {
                proof {
                    assert forall|c: ComponentId|
                        self.spec_changed().contains(c) implies mid2.spec_changed().contains(c)
                        || exists|i: int| 0 <= i < k5 + 1 && pins@[i].0 == c by {
                        assert(pre.spec_changed().contains(c));
                        if !mid2.spec_changed().contains(c) {
                            let i0 = choose|i: int| 0 <= i < k5 && pins@[i].0 == c;
                            assert(pins@[i0].0 == c);
                        }
                    }
                }
            }
            k5 = k5 + 1;
        }
        proof {
            assert(pins@.take(n as int) =~= pins@);
            assert(resolve(self.spec_wires()[wire_id.0 as int].counter@) == resolved);
            assert(old(self).wire_input_ok(pins@));
            assert(self.wire_wf(wire_id.0 as int));
            assert(mid2.spec_pending() =~= old(self).spec_pending());
            assert(mid2.spec_changed() == old(self).spec_changed());
            assert(mid2.spec_wires() == self.spec_wires());
        }
        Ok(wire_id)
    }
}

impl Board {
    /// Schedules a future wakeup for a component.
    pub fn push_event(&mut self, who: ComponentId, at: u64)
        requires
            old(self).wf(),
        ensures
            final(self).wf(),
            final(self).spec_events().to_multiset() =~= old(self).spec_events().to_multiset().insert(PingEvent { who, at }),
            final(self).spec_events().len() == old(self).spec_events().len() + 1,
            final(self).spec_pins() == old(self).spec_pins(),
            final(self).spec_wires() == old(self).spec_wires(),
            final(self).spec_common() == old(self).spec_common(),
            final(self).spec_changed() == old(self).spec_changed(),
            final(self).spec_pending() == old(self).spec_pending(),
            final(self).spec_clock() == old(self).spec_clock(),
            final(self).spec_time() == old(self).spec_time(),
            final(self).spec_half_period() == old(self).spec_half_period(),
            final(self).spec_staged() == old(self).spec_staged(),
            final(self).spec_expected_done() == old(self).spec_expected_done(),
            final(self).spec_writer() == old(self).spec_writer(),
    {
        self.events.push(PingEvent { who, at });
        proof {
            Self::lemma_wf_full(*old(self), *self);
        }
    }

    /// Takes the undelivered input notifications of one component, in
    /// the order the wire engine queued them, leaving its queue empty.
    pub fn take_pending_inputs(&mut self, cid: ComponentId) -> (r: Vec<(PinId, PinState)>)
        requires
            old(self).wf(),
            cid.0 < old(self).spec_common().len(),
        ensures
            final(self).wf(),
            r@ == old(self).spec_pending()[cid.0 as int],
            final(self).spec_pending() =~= old(self).spec_pending().update(
                cid.0 as int,
                Seq::empty(),
            ),
            final(self).spec_pins() == old(self).spec_pins(),
            final(self).spec_wires() == old(self).spec_wires(),
            final(self).spec_common() == old(self).spec_common(),
            final(self).spec_changed() == old(self).spec_changed(),
            final(self).spec_events() == old(self).spec_events(),
            final(self).spec_clock() == old(self).spec_clock(),
            final(self).spec_time() == old(self).spec_time(),
            final(self).spec_half_period() == old(self).spec_half_period(),
            final(self).spec_staged() == old(self).spec_staged(),
            final(self).spec_expected_done() == old(self).spec_expected_done(),
            final(self).spec_writer() == old(self).spec_writer(),
    {
        let mut taken: Vec<(PinId, PinState)> = Vec::new();
        let mut q = self.pending_inputs.remove(cid.0);
        core::mem::swap(&mut taken, &mut q);
        self.pending_inputs.insert(cid.0, q);
        proof {
            assert(self.spec_pending() =~= old(self).spec_pending().update(
                cid.0 as int,
                Seq::empty(),
            ));
            Self::lemma_wf_full(*old(self), *self);
        }
        taken
    }

    /// Opens a half-cycle: flips the logical clock, wakes the
    /// components whose pings are due, clears the staging buffer, and
    /// hands back the threaded components owed a step, which are
    /// counted as owing one `Done` each.
    ///
    /// Every event due at or before the current time is consumed; a
    /// due event of a threaded component flags it input-dirty, so it
    /// coalesces with any pending wire traffic into a single step.
    #[verifier::loop_isolation(false)]
    pub fn begin_half_cycle(&mut self) -> (r: Vec<ComponentId>)
        requires
            old(self).wf(),
        ensures
            final(self).wf(),
            final(self).spec_clock() == !old(self).spec_clock(),
            final(self).spec_staged() =~= Seq::<(PinIndex, PinState)>::empty(),
            final(self).spec_changed() =~= Seq::<ComponentId>::empty(),
            final(self).spec_expected_done() == r@.len(),
            final(self).spec_events() =~= old(self).spec_events().take(
                final(self).spec_events().len() as int,
            ),
            forall|i: int|
                0 <= i < final(self).spec_events().len() ==> (#[trigger] final(self).spec_events()[i]).at > old(self).spec_time(),
            forall|i: int|
                final(self).spec_events().len() <= i < old(self).spec_events().len() ==> (
                #[trigger] old(self).spec_events()[i]).at <= old(self).spec_time(),
            forall|c: ComponentId|
                old(self).spec_changed().contains(c) ==> r@.contains(c),
            forall|i: int|
                final(self).spec_events().len() <= i < old(self).spec_events().len() && (
                #[trigger] old(self).spec_events()[i]).who.0 < old(self).spec_common().len()
                    && old(self).spec_common()[old(self).spec_events()[i].who.0 as int].is_threaded
                    ==> r@.contains(old(self).spec_events()[i].who),
            forall|c: ComponentId|
                r@.contains(c) ==> old(self).spec_changed().contains(c) || exists|i: int|
                    final(self).spec_events().len() <= i < old(self).spec_events().len() && old(self).spec_events()[i].who == c,
            forall|i: int, j: int| 0 <= i < j < r@.len() ==> r@[i] != r@[j],
            final(self).spec_pins() == old(self).spec_pins(),
            final(self).spec_wires() == old(self).spec_wires(),
            final(self).spec_common() == old(self).spec_common(),
            final(self).spec_pending() == old(self).spec_pending(),
            final(self).spec_time() == old(self).spec_time(),
            final(self).spec_half_period() == old(self).spec_half_period(),
            final(self).spec_writer() == old(self).spec_writer(),
    {
        self.clock_pin = !self.clock_pin;
        self.global_output_changes = Vec::new();
        let now = self.time_ns;
        proof {
            Self::lemma_wf_staged_reset(*old(self), *self);
            assert(self.spec_events() =~= old(self).spec_events().take(
                self.spec_events().len() as int,
            ));
            assert(self.spec_events().len() <= old(self).spec_events().len());
        }
        loop
            invariant
                self.wf(),
                now == old(self).spec_time(),
                self.spec_events().len() <= old(self).spec_events().len(),
                self.spec_events() =~= old(self).spec_events().take(
                    self.spec_events().len() as int,
                ),
                forall|i: int|
                    self.spec_events().len() <= i < old(self).spec_events().len() ==> (
                    #[trigger] old(self).spec_events()[i]).at <= now,
                forall|c: ComponentId|
                    old(self).spec_changed().contains(c) ==> self.spec_changed().contains(c),
                forall|i: int|
                    self.spec_events().len() <= i < old(self).spec_events().len() && (
                    #[trigger] old(self).spec_events()[i]).who.0 < old(
                        self,
                    ).spec_common().len() && old(self).spec_common()[old(self).spec_events()[
                    i].who.0 as int].is_threaded ==> self.spec_changed().contains(
                        old(self).spec_events()[i].who,
                    ),
                forall|c: ComponentId|
                    self.spec_changed().contains(c) ==> old(self).spec_changed().contains(c)
                        || exists|i: int|
                        self.spec_events().len() <= i < old(self).spec_events().len() && old(self).spec_events()[i].who == c,
                self.spec_pins() == old(self).spec_pins(),
                self.spec_wires() == old(self).spec_wires(),
                self.spec_common() == old(self).spec_common(),
                self.spec_pending() == old(self).spec_pending(),
                self.spec_clock() == !old(self).spec_clock(),
                self.spec_time() == old(self).spec_time(),
                self.spec_half_period() == old(self).spec_half_period(),
                self.spec_staged() =~= Seq::<(PinIndex, PinState)>::empty(),
                self.spec_writer() == old(self).spec_writer(),
            decreases self.spec_events().len(),
        {
            let ghost pre = *self;
            match self.events.peek() {
                Some(e) => {
                    if e.at <= now {
                        self.events.pop();
                        proof {
                            assert(self.spec_events() =~= pre.spec_events().drop_last());
                            assert(self.spec_events().len() == pre.spec_events().len() - 1);
                            assert forall|i: int|
                                0 <= i < self.spec_events().len() implies self.spec_events()[i]
                                == old(self).spec_events()[i] by {
                                assert(self.spec_events()[i] == pre.spec_events()[i]);
                                assert(pre.spec_events()[i] == old(self).spec_events().take(
                                    pre.spec_events().len() as int,
                                )[i]);
                            }
                            assert(self.spec_events().len() <= old(self).spec_events().len());
                            assert(self.spec_events() =~= old(self).spec_events().take(
                                self.spec_events().len() as int,
                            ));
                            assert(pre.spec_events().last() == old(self).spec_events()[
                            pre.spec_events().len() - 1]);
                            Self::lemma_wf_staged_reset(pre, *self);
                        }
                        if e.who.0 < self.common_component_data.len()
                            && self.common_component_data[e.who.0].is_threaded {
                            let ghost pre2 = *self;
                            self.mark_changed(e.who);
                            proof {
                                assert forall|c: ComponentId|
                                    self.spec_changed().contains(c) implies old(self).spec_changed().contains(c) || exists|i: int|
                                    self.spec_events().len() <= i < old(self).spec_events().len() && old(self).spec_events()[i].who
                                        == c by {
                                    if c == e.who {
                                        assert(old(self).spec_events()[pre.spec_events().len()
                                            - 1].who == c);
                                    } else {
                                        assert(pre2.spec_changed().contains(c));
                                    }
                                }
                                assert forall|i: int|
                                    self.spec_events().len() <= i < old(self).spec_events().len()
                                        && (#[trigger] old(self).spec_events()[i]).who.0 < old(
                                        self,
                                    ).spec_common().len() && old(self).spec_common()[old(
                                        self,
                                    ).spec_events()[i].who.0 as int].is_threaded implies self.spec_changed().contains(
                                    old(self).spec_events()[i].who,
                                ) by {
                                    if i >= pre.spec_events().len() {
                                        assert(pre2.spec_changed().contains(
                                            old(self).spec_events()[i].who,
                                        ));
                                    } else {
                                        assert(i == pre.spec_events().len() - 1);
                                        assert(old(self).spec_events()[i].who == e.who);
                                    }
                                }
                            }
                        } else {
                            proof {
                                assert forall|i: int|
                                    self.spec_events().len() <= i < old(self).spec_events().len()
                                        && (#[trigger] old(self).spec_events()[i]).who.0 < old(
                                        self,
                                    ).spec_common().len() && old(self).spec_common()[old(
                                        self,
                                    ).spec_events()[i].who.0 as int].is_threaded implies self.spec_changed().contains(
                                    old(self).spec_events()[i].who,
                                ) by {
                                    if i >= pre.spec_events().len() {
                                        assert(pre.spec_changed().contains(
                                            old(self).spec_events()[i].who,
                                        ));
                                    } else {
                                        assert(i == pre.spec_events().len() - 1);
                                        assert(old(self).spec_events()[i].who == e.who);
                                        assert(false);
                                    }
                                }
                            }
                        }
                    } else {
                        break;
                    }
                },
                None => {
                    break;
                },
            }
        }
        let ghost pre_take = *self;
        let mut stepped: Vec<ComponentId> = Vec::new();
        core::mem::swap(&mut stepped, &mut self.threaded_components_changed);
        self.expected_done = stepped.len();
        proof {
            Self::lemma_same_geometry(pre_take, *self);
            assert(self.spec_changed() =~= Seq::<ComponentId>::empty());
            assert forall|c: ComponentId|
                old(self).spec_changed().contains(c) implies stepped@.contains(c) by {
                assert(pre_take.spec_changed().contains(c));
            }
            assert forall|i: int|
                self.spec_events().len() <= i < old(self).spec_events().len() && (
                #[trigger] old(self).spec_events()[i]).who.0 < old(self).spec_common().len()
                    && old(self).spec_common()[old(self).spec_events()[i].who.0 as int].is_threaded implies stepped@.contains(
                old(self).spec_events()[i].who,
            ) by {
                assert(pre_take.spec_changed().contains(old(self).spec_events()[i].who));
            }
            assert forall|i: int, j: int|
                0 <= i < j < stepped@.len() implies stepped@[i] != stepped@[j] by {
                assert(pre_take.spec_changed()[i] != pre_take.spec_changed()[j]);
            }
        }
        stepped
    }

    /// Stages a component's output changes for replay: each change is
    /// translated through the component's pin table into a board-global
    /// pin index.  Naming a pin the component does not have is an
    /// invariant violation, so callers must rule it out first.
    #[verifier::loop_isolation(false)]
    pub fn stage_outputs(&mut self, cid: ComponentId, outputs: &Vec<(PinId, PinState)>)
        requires
            old(self).wf(),
            cid.0 < old(self).spec_common().len(),
            forall|k: int|
                0 <= k < outputs@.len() ==> ((#[trigger] outputs@[k]).0 as int) < old(self).spec_common()[cid.0 as int].pins@.len(),
        ensures
            final(self).wf(),
            final(self).spec_staged() =~= stage_fold(
                old(self).spec_staged(),
                old(self).spec_common()[cid.0 as int].pins@,
                outputs@,
            ),
            final(self).spec_pins() == old(self).spec_pins(),
            final(self).spec_wires() == old(self).spec_wires(),
            final(self).spec_common() == old(self).spec_common(),
            final(self).spec_changed() == old(self).spec_changed(),
            final(self).spec_pending() == old(self).spec_pending(),
            final(self).spec_events() == old(self).spec_events(),
            final(self).spec_clock() == old(self).spec_clock(),
            final(self).spec_time() == old(self).spec_time(),
            final(self).spec_half_period() == old(self).spec_half_period(),
            final(self).spec_expected_done() == old(self).spec_expected_done(),
            final(self).spec_writer() == old(self).spec_writer(),
    {
        let ghost table = old(self).spec_common()[cid.0 as int].pins@;
        let n = outputs.len();
        let mut k: usize = 0;
        while k < n
            invariant
                self.wf(),
                0 <= k <= n,
                n == outputs@.len(),
                cid.0 < self.spec_common().len(),
                table == self.spec_common()[cid.0 as int].pins@,
                self.spec_staged() =~= stage_fold(
                    old(self).spec_staged(),
                    table,
                    outputs@.take(k as int),
                ),
                self.spec_pins() == old(self).spec_pins(),
                self.spec_wires() == old(self).spec_wires(),
                self.spec_common() == old(self).spec_common(),
                self.spec_changed() == old(self).spec_changed(),
                self.spec_pending() == old(self).spec_pending(),
                self.spec_events() == old(self).spec_events(),
                self.spec_clock() == old(self).spec_clock(),
                self.spec_time() == old(self).spec_time(),
                self.spec_half_period() == old(self).spec_half_period(),
                self.expected_done == old(self).expected_done,
                self.spec_writer() == old(self).spec_writer(),
            decreases n - k,
        {
            let ghost pre = *self;
            let (pid, st) = outputs[k];
            proof {
                assert(outputs@[k as int] == (pid, st));
                assert(outputs@.take(k as int).push(outputs@[k as int]) =~= outputs@.take(
                    k as int + 1,
                ));
                lemma_stage_fold_push(
                    old(self).spec_staged(),
                    table,
                    outputs@.take(k as int),
                    outputs@[k as int],
                );
                assert(self.component_wf(cid.0 as int));
            }
            let index = self.common_component_data[cid.0].pins[pid as usize];
            self.global_output_changes.push((index, st));
            proof {
                assert(index as int == table[pid as int]);
                Self::lemma_same_geometry(pre, *self);
                assert forall|i: int|
                    0 <= i < self.spec_staged().len() implies (#[trigger] self.spec_staged()[
                i]).0 < self.spec_pins().len() by {
                    if i < pre.spec_staged().len() {
                        assert((pre.spec_staged()[i]).0 < pre.spec_pins().len());
                    } else {
                        assert(self.spec_staged()[i] == (index as usize, st));
                    }
                }
            }
            k = k + 1;
        }
        proof {
            assert(outputs@.take(n as int) =~= outputs@);
        }
    }

    /// Replays every staged output change through the wire engine, in
    /// staging order, leaving the staging buffer empty: the final board
    /// is the fold of [`Board::set_pin_effect`] over the staged list.
    #[verifier::loop_isolation(false)]
    pub fn apply_staged(&mut self)
        requires
            old(self).wf(),
        ensures
            final(self).wf(),
            final(self).spec_staged() =~= Seq::<(PinIndex, PinState)>::empty(),
            old(self).spec_staged().len() == 0 ==> final(self).spec_pins() == old(self).spec_pins() && final(self).spec_wires() == old(self).spec_wires() && final(self).spec_pending() == old(self).spec_pending() && final(self).spec_changed() == old(self).spec_changed(),
            old(self).spec_staged().len() > 0 ==> Self::replays_staged(
                *old(self),
                *final(self),
                old(self).spec_staged(),
            ),
            final(self).spec_common() == old(self).spec_common(),
            final(self).spec_events() == old(self).spec_events(),
            final(self).spec_clock() == old(self).spec_clock(),
            final(self).spec_time() == old(self).spec_time(),
            final(self).spec_half_period() == old(self).spec_half_period(),
            final(self).spec_expected_done() == old(self).spec_expected_done(),
            final(self).spec_writer() == old(self).spec_writer(),
            final(self).spec_pins().len() == old(self).spec_pins().len(),
    {
        let mut staged: Vec<(PinIndex, PinState)> = Vec::new();
        core::mem::swap(&mut staged, &mut self.global_output_changes);
        proof {
            Self::lemma_wf_staged_reset(*old(self), *self);
            assert forall|i: int|
                0 <= i < staged@.len() implies (#[trigger] staged@[i]).0
                < self.spec_pins().len() by {
                assert((old(self).spec_staged()[i]).0 < old(self).spec_pins().len());
            }
        }
        let n = staged.len();
        let mut k: usize = 0;
        while k < n
            invariant
                self.wf(),
                0 <= k <= n,
                n == staged@.len(),
                staged@ == old(self).spec_staged(),
                forall|i: int| 0 <= i < n ==> (#[trigger] staged@[i]).0 < self.spec_pins().len(),
                self.spec_staged() =~= Seq::<(PinIndex, PinState)>::empty(),
                k == 0 ==> self.spec_pins() == old(self).spec_pins() && self.spec_wires() == old(self).spec_wires() && self.spec_pending() == old(self).spec_pending()
                    && self.spec_changed() == old(self).spec_changed(),
                k > 0 ==> Self::replays_staged(*old(self), *self, staged@.take(k as int)),
                self.spec_common() == old(self).spec_common(),
                self.spec_events() == old(self).spec_events(),
                self.spec_clock() == old(self).spec_clock(),
                self.spec_time() == old(self).spec_time(),
                self.spec_half_period() == old(self).spec_half_period(),
                self.spec_expected_done() == old(self).spec_expected_done(),
                self.spec_writer() == old(self).spec_writer(),
                self.spec_pins().len() == old(self).spec_pins().len(),
            decreases n - k,
        {
            let ghost pre = *self;
            let (index, st) = staged[k];
            self.set_pin(index, st);
            proof {
                let e = staged@[k as int];
                assert(Self::set_pin_effect(pre, *self, e.0, e.1));
                if k == 0 {
                    assert(Self::set_pin_effect(*old(self), *self, e.0, e.1));
                    Self::lemma_replays_one(*old(self), *self, e);
                    assert(staged@.take(1) =~= seq![e]);
                } else {
                    Self::lemma_replays_one(pre, *self, e);
                    Self::lemma_replays_append(
                        *old(self),
                        pre,
                        *self,
                        staged@.take(k as int),
                        seq![e],
                    );
                    assert(staged@.take(k as int) + seq![e] =~= staged@.take(k as int + 1));
                }
            }
            k = k + 1;
        }
        proof {
            assert(staged@.take(n as int) =~= staged@);
        }
    }

    /// Handles one message from a worker during the collect phase.
    ///
    /// `PinChange` is replayed through the wire engine; `PingMeAt` goes
    /// onto the event queue; `VcdSnapshot` refreshes the stored VCD
    /// tree; `Done` consumes one owed acknowledgement and records
    /// whether the worker's signals changed.  On success, returns
    /// whether every owed `Done` has now arrived.  A message naming a
    /// missing component or pin, or a `Done` nobody owes, is a worker
    /// protocol violation: it is refused and the board is untouched.
    pub fn process_message(&mut self, m: Message) -> (r: Result<bool, ProtocolError>)
        requires
            old(self).wf(),
            !(m is Step),
            !(m is ClockRising),
            !(m is ClockFalling),
            !(m is Die),
        ensures
            final(self).wf(),
            r is Err ==> *final(self) == *old(self),
            r matches Ok(done) ==> done == (final(self).spec_expected_done() == 0),
            m matches Message::PinChange(cid, pid, st) ==> {
                &&& (r is Ok) == old(self).wire_entry_valid((cid, pid))
                &&& (old(self).wire_entry_valid((cid, pid)) ==> Self::set_pin_effect(
                    *old(self),
                    *final(self),
                    old(self).spec_common()[cid.0 as int].pins@[pid as int],
                    st,
                ) && final(self).spec_staged() == old(self).spec_staged())
            },
            m is PingMeAt ==> r is Ok,
            m matches Message::PingMeAt(cid, at) ==> final(self).spec_events().to_multiset()
                =~= old(self).spec_events().to_multiset().insert(PingEvent { who: cid, at }),
            m matches Message::Done(cid, changed) ==> {
                let bad_cid = changed && cid.0 >= old(self).spec_common().len();
                &&& (r == Result::<bool, ProtocolError>::Err(ProtocolError::NoSuchPin))
                    == bad_cid
                &&& (r == Result::<bool, ProtocolError>::Err(ProtocolError::UnexpectedDone)) == (
                !bad_cid && old(self).spec_expected_done() == 0)
                &&& (r is Ok ==> final(self).spec_expected_done() + 1 == old(self).spec_expected_done() && (changed ==> final(self).spec_writer().spec_changes()
                    =~= old(self).spec_writer().spec_changes().update(cid.0 as int, true)) && (
                !changed ==> final(self).spec_writer() == old(self).spec_writer()) && final(self).spec_writer().spec_forest() == old(self).spec_writer().spec_forest() && final(self).spec_writer().spec_out() == old(self).spec_writer().spec_out() && final(self).spec_writer().spec_assigned() == old(self).spec_writer().spec_assigned()
                    && final(self).spec_pins() == old(self).spec_pins() && final(self).spec_wires() == old(self).spec_wires() && final(self).spec_pending() == old(self).spec_pending() && final(self).spec_changed() == old(self).spec_changed())
            },
            m matches Message::VcdSnapshot(cid, t) ==> {
                &&& (r is Ok) == (cid.0 < old(self).spec_common().len())
                &&& (cid.0 < old(self).spec_common().len() ==> final(self).spec_writer().spec_forest() =~= old(self).spec_writer().spec_forest().update(
                    cid.0 as int,
                    NodeShape {
                        name: old(self).spec_writer().spec_forest()[cid.0 as int].name,
                        val: Some(tree_view(t)),
                    },
                ) && final(self).spec_writer().spec_changes() == old(self).spec_writer().spec_changes() && final(self).spec_writer().spec_out() == old(self).spec_writer().spec_out() && final(self).spec_writer().spec_assigned() == old(self).spec_writer().spec_assigned() && final(self).spec_pins() == old(self).spec_pins() && final(self).spec_wires() == old(self).spec_wires() && final(self).spec_pending() == old(self).spec_pending() && final(self).spec_changed()
                    == old(self).spec_changed())
            },
            !(m is Done) ==> final(self).spec_expected_done() == old(self).spec_expected_done(),
            !(m is PingMeAt) ==> final(self).spec_events() == old(self).spec_events(),
            final(self).spec_common() == old(self).spec_common(),
            final(self).spec_clock() == old(self).spec_clock(),
            final(self).spec_time() == old(self).spec_time(),
            final(self).spec_half_period() == old(self).spec_half_period(),
            final(self).spec_staged() == old(self).spec_staged(),
    {
        match m {
            Message::PinChange(cid, pin_id, state) => {
                if cid.0 >= self.common_component_data.len() {
                    return Err(ProtocolError::NoSuchPin);
                }
                if (pin_id as usize) >= self.common_component_data[cid.0].pins.len() {
                    return Err(ProtocolError::NoSuchPin);
                }
                proof {
                    assert(self.component_wf(cid.0 as int));
                }
                let index = self.common_component_data[cid.0].pins[pin_id as usize];
                self.set_pin(index, state);
            },
            Message::PingMeAt(cid, at) => {
                self.push_event(cid, at);
            },
            Message::Done(cid, vcd_changed) => {
                if vcd_changed && cid.0 >= self.common_component_data.len() {
                    return Err(ProtocolError::NoSuchPin);
                }
                if self.expected_done == 0 {
                    return Err(ProtocolError::UnexpectedDone);
                }
                if vcd_changed {
                    let ghost pre = *self;
                    self.vcd_writer.set_change(cid.0);
                    proof {
                        Self::lemma_wf_full(pre, *self);
                    }
                }
                let ghost pre2 = *self;
                self.expected_done = self.expected_done - 1;
                proof {
                    Self::lemma_wf_full(pre2, *self);
                }
            },
            Message::VcdSnapshot(cid, tree) => {
                if cid.0 >= self.common_component_data.len() {
                    return Err(ProtocolError::NoSuchPin);
                }
                let ghost pre = *self;
                self.vcd_writer.replace_tree(cid.0, tree);
                proof {
                    Self::lemma_wf_full(pre, *self);
                }
            },
            _ => {},
        }
        Ok(self.expected_done == 0)
    }

    /// Closes a half-cycle: advances the simulated time by one half
    /// period — saturating at the largest representable time — and
    /// writes one VCD timestamp block if any component changed.
    pub fn end_half_cycle(&mut self)
        requires
            old(self).wf(),
        ensures
            final(self).wf(),
            final(self).spec_time() == (if old(self).spec_time() + old(self).spec_half_period()
                <= u64::MAX {
                (old(self).spec_time() + old(self).spec_half_period()) as u64
            } else {
                u64::MAX
            }),
            old(self).spec_writer().spec_changes().contains(true) ==> final(self).spec_writer().spec_out() =~= old(self).spec_writer().spec_out() + seq![35u8]
                + crate::vcd::writer::dec_digits(final(self).spec_time() as nat) + seq![10u8]
                + crate::vcd::writer::delta_text(
                old(self).spec_writer().spec_forest(),
                old(self).spec_writer().spec_changes(),
            ),
            !old(self).spec_writer().spec_changes().contains(true) ==> final(self).spec_writer() == old(self).spec_writer(),
            final(self).spec_pins() == old(self).spec_pins(),
            final(self).spec_wires() == old(self).spec_wires(),
            final(self).spec_common() == old(self).spec_common(),
            final(self).spec_changed() == old(self).spec_changed(),
            final(self).spec_pending() == old(self).spec_pending(),
            final(self).spec_events() == old(self).spec_events(),
            final(self).spec_clock() == old(self).spec_clock(),
            final(self).spec_staged() == old(self).spec_staged(),
    {
        if self.time_ns <= u64::MAX - self.half_period_ns {
            self.time_ns = self.time_ns + self.half_period_ns;
        } else {
            self.time_ns = u64::MAX;
        }
        proof {
            Self::lemma_wf_full(*old(self), *self);
        }
        let t = self.time_ns;
        let ghost pre = *self;
        self.vcd_writer.write_step(t);
        proof {
            Self::lemma_wf_full(pre, *self);
        }
    }

    /// Drives one cooperatively scheduled component through a half
    /// cycle: delivers its pending input changes, invokes the matching
    /// clock-edge hook, refreshes its VCD snapshot, and stages its
    /// output changes for the replay phase.  Everything else on the
    /// board — other components' queues, the wires, the event queue —
    /// is left untouched, which is what keeps every component on a
    /// consistent pre-edge snapshot until the staged outputs are
    /// replayed.
    ///
    /// A component reporting an output on a pin it does not have is an
    /// invariant violation: nothing is staged and an error is returned.
    #[verifier::loop_isolation(false)]
    pub fn step_clocked<T: Component>(&mut self, cid: ComponentId, component: &mut T) -> (r:
        Result<(), ProtocolError>)
        requires
            old(self).wf(),
            cid.0 < old(self).spec_common().len(),
        ensures
            final(self).wf(),
            final(self).spec_pending().len() == old(self).spec_pending().len(),
            final(self).spec_pending()[cid.0 as int] =~= Seq::<(PinId, PinState)>::empty(),
            forall|i: int|
                0 <= i < old(self).spec_pending().len() && i != cid.0 ==> final(self).spec_pending()[i] == old(self).spec_pending()[i],
            r is Ok ==> exists|outs: Seq<(PinId, PinState)>|
                final(self).spec_staged() == stage_fold(
                    old(self).spec_staged(),
                    old(self).spec_common()[cid.0 as int].pins@,
                    outs,
                ),
            r is Err ==> final(self).spec_staged() == old(self).spec_staged(),
            final(self).spec_writer().spec_forest().len() == old(self).spec_writer().spec_forest().len(),
            forall|i: int|
                0 <= i < old(self).spec_writer().spec_forest().len() && i != cid.0 ==> final(self).spec_writer().spec_forest()[i] == old(self).spec_writer().spec_forest()[i],
            final(self).spec_writer().spec_forest()[cid.0 as int].name == old(self).spec_writer().spec_forest()[cid.0 as int].name,
            final(self).spec_writer().spec_changes().len() == old(self).spec_writer().spec_changes().len(),
            forall|i: int|
                0 <= i < old(self).spec_writer().spec_changes().len() && i != cid.0 ==> final(self).spec_writer().spec_changes()[i] == old(self).spec_writer().spec_changes()[i],
            final(self).spec_writer().spec_out() == old(self).spec_writer().spec_out(),
            final(self).spec_writer().spec_assigned() == old(self).spec_writer().spec_assigned(),
            final(self).spec_pins() == old(self).spec_pins(),
            final(self).spec_wires() == old(self).spec_wires(),
            final(self).spec_common() == old(self).spec_common(),
            final(self).spec_changed() == old(self).spec_changed(),
            final(self).spec_events() == old(self).spec_events(),
            final(self).spec_clock() == old(self).spec_clock(),
            final(self).spec_time() == old(self).spec_time(),
            final(self).spec_half_period() == old(self).spec_half_period(),
            final(self).spec_expected_done() == old(self).spec_expected_done(),
    {
        let inputs = self.take_pending_inputs(cid);
        let mut k: usize = 0;
        let n = inputs.len();
        while k < n
            invariant
                0 <= k <= n,
                n == inputs@.len(),
            decreases n - k,
        {
            let (pin_id, state) = inputs[k];
            component.set_pin(pin_id, state);
            k = k + 1;
        }
        if self.clock_pin {
            component.clock_rising_edge();
        } else {
            component.clock_falling_edge();
        }
        proof {
            assert(cid.0 < self.spec_writer().spec_forest().len());
        }
        let ghost pre = *self;
        let changed = self.vcd_writer.update_tree(cid.0, component);
        proof {
            assert(self.spec_writer().spec_forest().len() == pre.spec_writer().spec_forest().len());
            assert(self.spec_writer().spec_changes() == pre.spec_writer().spec_changes());
            Self::lemma_wf_full(pre, *self);
        }
        if changed {
            let ghost pre2 = *self;
            self.vcd_writer.set_change(cid.0);
            proof {
                Self::lemma_wf_full(pre2, *self);
            }
        }
        let outputs = component.get_output_changes();
        let table_len = self.common_component_data[cid.0].pins.len();
        let mut j: usize = 0;
        while j < outputs.len()
            invariant
                0 <= j <= outputs@.len(),
                table_len == self.spec_common()[cid.0 as int].pins@.len(),
                cid.0 < self.spec_common().len(),
                forall|i: int|
                    0 <= i < j ==> ((#[trigger] outputs@[i]).0 as int) < table_len as int,
            decreases outputs@.len() - j,
        {
            if outputs[j].0 as usize >= table_len {
                return Err(ProtocolError::NoSuchPin);
            }
            j = j + 1;
        }
        let ghost pre3 = *self;
        self.stage_outputs(cid, &outputs);
        proof {
            assert(final(self).spec_staged() == stage_fold(
                old(self).spec_staged(),
                old(self).spec_common()[cid.0 as int].pins@,
                outputs@,
            ));
        }
        Ok(())
    }

    /// Whether the logical clock is high: `true` between a rising and
    /// the following falling edge.
    pub fn clock_high(&self) -> (r: bool)
        ensures
            r == self.spec_clock(),
    {
        self.clock_pin
    }

    /// The current simulated time, in nanoseconds.
    pub fn time_ns(&self) -> (r: u64)
        ensures
            r == self.spec_time(),
    {
        self.time_ns
    }

    /// Number of components on the board.
    pub fn component_count(&self) -> (r: usize)
        ensures
            r == self.spec_common().len(),
    {
        self.common_component_data.len()
    }

    /// `Done` acknowledgements still owed by workers this half-cycle.
    pub fn expected_done(&self) -> (r: usize)
        ensures
            r == self.spec_expected_done(),
    {
        self.expected_done
    }

    /// Writes the VCD header for everything added so far.
    pub fn write_vcd_header(&mut self)
        requires
            old(self).wf(),
        ensures
            final(self).wf(),
            final(self).spec_writer().spec_out() =~= old(self).spec_writer().spec_out()
                + crate::vcd::writer::header_text(
                old(self).spec_writer().spec_forest(),
                old(self).spec_writer().spec_assigned(),
            ),
            final(self).spec_pins() == old(self).spec_pins(),
            final(self).spec_wires() == old(self).spec_wires(),
            final(self).spec_common() == old(self).spec_common(),
            final(self).spec_time() == old(self).spec_time(),
            final(self).spec_clock() == old(self).spec_clock(),
    {
        let ghost pre = *self;
        self.vcd_writer.write_header();
        proof {
            Self::lemma_wf_full(pre, *self);
        }
    }

    /// Takes the VCD bytes produced so far, leaving the buffer empty.
    pub fn take_vcd_output(&mut self) -> (r: Vec<u8>)
        requires
            old(self).wf(),
        ensures
            final(self).wf(),
            r@ == old(self).spec_writer().spec_out(),
            final(self).spec_writer().spec_out() =~= Seq::<u8>::empty(),
            final(self).spec_pins() == old(self).spec_pins(),
            final(self).spec_wires() == old(self).spec_wires(),
            final(self).spec_common() == old(self).spec_common(),
            final(self).spec_time() == old(self).spec_time(),
            final(self).spec_clock() == old(self).spec_clock(),
    {
        let ghost pre = *self;
        let r = self.vcd_writer.take_output();
        proof {
            Self::lemma_wf_full(pre, *self);
        }
        r
    }

    /// A structurally fresh copy of one component's stored VCD tree,
    /// identifiers included; a worker seeded with it keeps the header's
    /// identifiers in the snapshots it sends back.
    pub fn vcd_tree_copy(&self, cid: ComponentId) -> (r: Option<VcdTree>)
        requires
            self.wf(),
        ensures
            (r is Some) == (cid.0 < self.spec_common().len()),
            r matches Some(t) ==> Some(tree_view(t)) == self.spec_writer().spec_forest()[
            cid.0 as int].val,
    {
        if cid.0 < self.common_component_data.len() {
            Some(self.vcd_writer.tree_copy(cid.0))
        } else {
            None
        }
    }
}

} // verus!
