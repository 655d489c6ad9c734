//! The contract every simulated device implements, and the messages of
//! the worker protocol.

use vstd::prelude::*;

use crate::pins::{PinId, PinState};
use crate::vcd::fillers::VcdFiller;
use crate::vcd::VcdTree;

verus! {

/// A unique identifier for a component.
#[derive(Debug, Clone, Copy, PartialEq, Eq, Structural)]
pub struct ComponentId(pub usize);

/// Messages used to communicate with components running on their own
/// workers.
///
/// The main communication protocol is the following: the board sends
/// zero or more `PinChange` messages, then one `Step` (or an edge); the
/// worker advances, sends back its own `PinChange` messages, at most one
/// `PingMeAt`, a `VcdSnapshot` when its signals changed, and finally one
/// `Done`.  `Die` stops the worker's loop.
pub enum Message {
    /// Board to component: advance one step accounting for all changes,
    /// at the given simulated time in nanoseconds.
    Step(u64),
    /// Board to component: the clock rose.
    ClockRising,
    /// Board to component: the clock fell.
    ClockFalling,
    /// Component to board: wake me again at the given time even if no
    /// input changes.
    PingMeAt(ComponentId, u64),
    /// Component to board: sent after a step is done; carries whether
    /// the VCD snapshot changed.
    Done(ComponentId, bool),
    /// Board to component: stop the worker.
    Die,
    /// Notification that a pin changed state, in either direction.
    PinChange(ComponentId, PinId, PinState),
    /// Component to board: the refreshed VCD snapshot of this component.
    VcdSnapshot(ComponentId, VcdTree),
}

/// Top level component which can be placed on a board.
///
/// A component also implements [`VcdFiller`] so the board can record
/// its signals.
pub trait Component: Send + VcdFiller {
    /// Total number of external pins of the component.
    fn pin_count() -> usize;

    /// The name of a pin, used for wiring by name.
    fn pin_name(pin: PinId) -> String;

    /// Sets an input pin to a newly observed state.
    fn set_pin(&mut self, pin: PinId, state: PinState);

    /// The clock rose.
    fn clock_rising_edge(&mut self);

    /// The clock fell.
    fn clock_falling_edge(&mut self);

    /// Takes the output-pin changes produced by the most recent step.
    ///
    /// The kernel consumes them and replays them through the wires; an
    /// empty vector means no outputs changed.
    fn get_output_changes(&mut self) -> Vec<(PinId, PinState)>;

    /// Advances the simulation through one step at the given time;
    /// returns an optional future wakeup request.
    fn advance(&mut self, time_ns: u64) -> Option<u64>;
}

/// What one delivered edge or step produced.
pub struct ExecuteStepResult {
    /// Whether the component's VCD snapshot changed.
    pub changed: bool,
    /// The output-pin changes of this step.
    pub output_changes: Vec<(PinId, PinState)>,
    /// A requested wakeup time, if any.
    pub time_ns: Option<u64>,
}

/// What a worker does with one received message.
pub enum WorkerOutcome {
    /// The worker's loop ends.
    Stopped,
    /// Nothing to report.
    Idle,
    /// A step was executed; its results are to be sent back.
    Stepped(ExecuteStepResult),
}

/// Refreshes the component's VCD snapshot and takes its output changes.
pub fn fill_everything<T: Component>(c: &mut T, tree: &mut VcdTree) -> (r: (
    bool,
    Vec<(PinId, PinState)>,
)) {
    let changed = match tree {
        VcdTree::Disabled => false,
        t => c.fill_vcd(t),
    };
    (changed, c.get_output_changes())
}

/// The decisions of a worker's loop, one message at a time: the caller
/// performs the sends and receives, this function decides.
pub fn worker_on_message<T: Component>(c: &mut T, tree: &mut VcdTree, m: Message) -> (r:
    WorkerOutcome)
    ensures
        (r is Stopped) == (m is Die),
        (r is Stepped) == (m is Step || m is ClockRising || m is ClockFalling),
{
    match m {
        Message::Die => WorkerOutcome::Stopped,
        Message::PinChange(_, pin, state) => {
            c.set_pin(pin, state);
            WorkerOutcome::Idle
        },
        Message::Done(_, _) | Message::PingMeAt(_, _) | Message::VcdSnapshot(_, _) => {
            WorkerOutcome::Idle
        },
        Message::Step(time_ns) => {
            let ping = c.advance(time_ns);
            let (changed, output_changes) = fill_everything(c, tree);
            WorkerOutcome::Stepped(ExecuteStepResult { changed, output_changes, time_ns: ping })
        },
        Message::ClockRising => {
            c.clock_rising_edge();
            let (changed, output_changes) = fill_everything(c, tree);
            WorkerOutcome::Stepped(ExecuteStepResult { changed, output_changes, time_ns: None })
        },
        Message::ClockFalling => {
            c.clock_falling_edge();
            let (changed, output_changes) = fill_everything(c, tree);
            WorkerOutcome::Stepped(ExecuteStepResult { changed, output_changes, time_ns: None })
        },
    }
}

} // verus!
