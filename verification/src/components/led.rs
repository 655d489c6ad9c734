//! Simple LED component that can be used to capture a signal.

use vstd::prelude::*;

use crate::component::Component;
use crate::pins::{PinId, PinState, PinStateConvertible, PinVec};
use crate::vcd::fillers::VcdFiller;
use crate::vcd::VcdTreeSignal;

verus! {

/// A one-pin component that records what its input pin carries.
pub struct Led {
    state: PinState,
}

impl Led {
    /// A fresh LED observing an undriven wire.
    pub fn new() -> (r: Led)
        ensures
            r.spec_state() == PinState::Z,
    {
        Led { state: PinState::Z }
    }

    /// The last state delivered to the LED's pin.
    pub closed spec fn spec_state(self) -> PinState {
        self.state
    }

    /// The last state delivered to the LED's pin.
    pub fn state(&self) -> (r: PinState)
        ensures
            r == self.spec_state(),
    {
        self.state
    }
}

impl Component for Led {
    fn pin_count() -> (r: usize)
        ensures
            r == 1,
    {
        1
    }

    fn pin_name(pin: PinId) -> String {
        "LED".to_owned()
    }

    fn set_pin(&mut self, pin: PinId, state: PinState)
        ensures
            final(self).spec_state() == if pin == 0 {
                state
            } else {
                old(self).spec_state()
            },
    {
        if pin == 0 {
            self.state = state;
        }
    }

    fn clock_rising_edge(&mut self)
        ensures
            *final(self) == *old(self),
    {
    }

    fn clock_falling_edge(&mut self)
        ensures
            *final(self) == *old(self),
    {
    }

    fn get_output_changes(&mut self) -> (r: Vec<(PinId, PinState)>)
        ensures
            r@ =~= Seq::<(PinId, PinState)>::empty(),
            *final(self) == *old(self),
    {
        Vec::new()
    }

    fn advance(&mut self, time_ns: u64) -> (r: Option<u64>)
        ensures
            r is None,
            *final(self) == *old(self),
    {
        None
    }
}

impl VcdFiller for Led {
    fn is_signal() -> (r: bool)
        ensures
            r == true,
    {
        true
    }

    fn init_vcd_signal(&self) -> (r: VcdTreeSignal)
        ensures
            r.size == 1,
            r.id is None,
            r.old_state == PinVec::SinglePin(PinState::Z),
            r.new_state == r.old_state,
    {
        VcdTreeSignal::new(1, PinState::Z)
    }

    fn get_signal_state(&self) -> (r: PinVec)
        ensures
            r == self.spec_state().spec_to_pin_vec(),
    {
        self.state.to_pin_vec()
    }
}

} // verus!
