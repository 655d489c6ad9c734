//! A general-purpose input/output port with its registers.

use vstd::prelude::*;

use crate::pins::{bit32, spec_bit32, spec_read, PinId, PinState};

verus! {

/// What a port pin drives, given its data-direction and port bits.
pub open spec fn pin_output(dd: bool, port: bool) -> PinState {
    if dd {
        if port {
            PinState::High
        } else {
            PinState::Low
        }
    } else {
        if port {
            PinState::WeakHigh
        } else {
            PinState::Z
        }
    }
}

/// The recorded output changes after redriving pins 0 up to `k` from
/// the given registers: for each pin whose target drive differs from
/// its previous state, the new state is appended, in pin order.
pub open spec fn changes_after(
    outs: Seq<PinState>,
    changes: Seq<(PinId, PinState)>,
    ddr: u8,
    port: u8,
    k: int,
) -> Seq<(PinId, PinState)>
    decreases k,
{
    if k <= 0 {
        changes
    } else {
        let prev = changes_after(outs, changes, ddr, port, k - 1);
        let t = pin_output(
            spec_bit32(ddr as u32, (k - 1) as nat),
            spec_bit32(port as u32, (k - 1) as nat),
        );
        if outs[k - 1] != t {
            prev.push(((k - 1) as PinId, t))
        } else {
            prev
        }
    }
}

/// Whether redriving pins 0 up to `k` changes any of them.
pub open spec fn any_change(outs: Seq<PinState>, ddr: u8, port: u8, k: int) -> bool
    decreases k,
{
    k > 0 && (outs[k - 1] != pin_output(
        spec_bit32(ddr as u32, (k - 1) as nat),
        spec_bit32(port as u32, (k - 1) as nat),
    ) || any_change(outs, ddr, port, k - 1))
}

/// An eight-pin port, together with its input/output registers.
pub struct GpioPort {
    port_register: u8,
    ddr_register: u8,
    output_states: Vec<PinState>,
    output_changes: Vec<(PinId, PinState)>,
    readable_states: Vec<PinState>,
    input_states: Vec<PinState>,
    /// Whether any output changed since the changes were last taken.
    pub changed: bool,
}

impl GpioPort {
    /// The value of the port register.
    pub closed spec fn spec_port(self) -> u8 {
        self.port_register
    }

    /// The value of the data-direction register.
    pub closed spec fn spec_ddr(self) -> u8 {
        self.ddr_register
    }

    /// The state currently driven on each pin.
    pub closed spec fn spec_outputs(self) -> Seq<PinState> {
        self.output_states@
    }

    /// The output changes not yet taken.
    pub closed spec fn spec_changes(self) -> Seq<(PinId, PinState)> {
        self.output_changes@
    }

    /// The input states as latched at the last rising edge.
    pub closed spec fn spec_readable(self) -> Seq<PinState> {
        self.readable_states@
    }

    /// The input states as currently observed.
    pub closed spec fn spec_inputs(self) -> Seq<PinState> {
        self.input_states@
    }

    /// Whether any output changed since the changes were last taken.
    pub closed spec fn spec_changed_flag(self) -> bool {
        self.changed
    }

    /// Each of the three pin-state tables holds exactly eight states.
    pub open spec fn wf(self) -> bool {
        self.spec_outputs().len() == 8 && self.spec_readable().len() == 8
            && self.spec_inputs().len() == 8
    }

    /// A port with cleared registers and undriven pins.
    pub fn new() -> (r: GpioPort)
        ensures
            r.wf(),
            r.spec_port() == 0,
            r.spec_ddr() == 0,
            r.spec_outputs() =~= Seq::new(8, |i: int| PinState::Z),
            r.spec_changes() =~= Seq::<(PinId, PinState)>::empty(),
            r.spec_readable() =~= Seq::new(8, |i: int| PinState::Z),
            r.spec_inputs() =~= Seq::new(8, |i: int| PinState::Z),
            r.spec_changed_flag() == false,
    {
        let mut z: Vec<PinState> = Vec::new();
        let mut i: usize = 0;
        while i < 8
            invariant
                0 <= i <= 8,
                z@ =~= Seq::new(i as nat, |j: int| PinState::Z),
            decreases 8 - i,
        {
            z.push(PinState::Z);
            proof {
                assert(z@ =~= Seq::new((i + 1) as nat, |j: int| PinState::Z));
            }
            i = i + 1;
        }
        let mut z2: Vec<PinState> = Vec::new();
        let mut z3: Vec<PinState> = Vec::new();
        let mut k: usize = 0;
        while k < 8
            invariant
                0 <= k <= 8,
                z2@ =~= Seq::new(k as nat, |j: int| PinState::Z),
                z3@ =~= Seq::new(k as nat, |j: int| PinState::Z),
            decreases 8 - k,
        {
            z2.push(PinState::Z);
            z3.push(PinState::Z);
            proof {
                assert(z2@ =~= Seq::new((k + 1) as nat, |j: int| PinState::Z));
                assert(z3@ =~= Seq::new((k + 1) as nat, |j: int| PinState::Z));
            }
            k = k + 1;
        }
        GpioPort {
            port_register: 0,
            ddr_register: 0,
            output_states: z,
            output_changes: Vec::new(),
            readable_states: z2,
            input_states: z3,
            changed: false,
        }
    }

    /// Observes a new state on an input pin; the stored state is the
    /// projection an input reads, with weak drives read as strong.
    pub fn set_input_pin(&mut self, pin: PinId, state: PinState)
        requires
            old(self).wf(),
            pin < 8,
        ensures
            final(self).wf(),
            final(self).spec_inputs() =~= old(self).spec_inputs().update(
                pin as int,
                spec_read(state),
            ),
            final(self).spec_port() == old(self).spec_port(),
            final(self).spec_ddr() == old(self).spec_ddr(),
            final(self).spec_outputs() == old(self).spec_outputs(),
            final(self).spec_changes() == old(self).spec_changes(),
            final(self).spec_readable() == old(self).spec_readable(),
            final(self).spec_changed_flag() == old(self).spec_changed_flag(),
    {
        let v = state.read();
        self.input_states.remove(pin as usize);
        self.input_states.insert(pin as usize, v);
        proof {
            assert(self.input_states@ =~= old(self).input_states@.update(
                pin as int,
                spec_read(state),
            ));
        }
    }

    /// The output changes produced since the changes were last cleared.
    pub fn get_output_changes(&self) -> (r: &Vec<(PinId, PinState)>)
        ensures
            r@ == self.spec_changes(),
    {
        &self.output_changes
    }

    /// Clears the recorded output changes.
    pub fn reset_pins(&mut self)
        ensures
            final(self).spec_changes() =~= Seq::<(PinId, PinState)>::empty(),
            final(self).wf() == old(self).wf(),
            final(self).spec_changed_flag() == old(self).spec_changed_flag(),
            final(self).spec_port() == old(self).spec_port(),
            final(self).spec_ddr() == old(self).spec_ddr(),
            final(self).spec_outputs() == old(self).spec_outputs(),
            final(self).spec_readable() == old(self).spec_readable(),
            final(self).spec_inputs() == old(self).spec_inputs(),
    {
        self.output_changes = Vec::new();
    }

    /// Reads the port register.
    pub fn read_port(&self) -> (r: u8)
        ensures
            r == self.spec_port(),
    {
        self.port_register
    }

    /// Reads the data-direction register.
    pub fn read_ddr(&self) -> (r: u8)
        ensures
            r == self.spec_ddr(),
    {
        self.ddr_register
    }

    /// Reads the input register: one bit per pin, set exactly where the
    /// latched input state is high.
    pub fn read_pin(&self) -> (r: u8)
        requires
            self.wf(),
        ensures
            forall|i: int|
                0 <= i < 8 ==> spec_bit32(r as u32, i as nat) == (self.spec_readable()[i]
                    == PinState::High),
    {
        let mut x: u8 = 0;
        proof {
            assert forall|j: int| 0 <= j < 8 implies !(#[trigger] spec_bit32(
                0u32,
                j as nat,
            )) by {
                let jj = j as u32;
                assert(0u32 & (1u32 << jj) == 0) by (bit_vector);
            }
        }
        let mut i: usize = 0;
        while i < 8
            invariant
                self.wf(),
                0 <= i <= 8,
                forall|j: int|
                    0 <= j < 8 ==> spec_bit32(x as u32, j as nat) == (j < i
                        && self.spec_readable()[j] == PinState::High),
            decreases 8 - i,
        {
            let ghost xpre = x;
            if same_state(self.readable_states[i], PinState::High) {
                x = x | (1u8 << (i as u32));
                proof {
                    let ii = i as u32;
                    assert forall|j: int| 0 <= j < 8 implies spec_bit32(x as u32, j as nat) == (
                    j <= i && self.spec_readable()[j] == PinState::High) by {
                        let jj = j as u32;
                        assert((((xpre | (1u8 << ii)) as u32) & (1u32 << jj) != 0) == ((
                        (xpre as u32) & (1u32 << jj) != 0) || jj == ii)) by (bit_vector)
                            requires
                                ii < 8 && jj < 8,
                        ;
                    }
                }
            } else {
                proof {
                    assert forall|j: int| 0 <= j < 8 implies spec_bit32(x as u32, j as nat) == (
                    j <= i && self.spec_readable()[j] == PinState::High) by {
                        if j == i {
                            assert(self.spec_readable()[j] != PinState::High);
                        }
                    }
                }
            }
            i = i + 1;
        }
        x
    }

    /// Latches the current input states, making them readable.
    pub fn clock_rising_edge(&mut self)
        requires
            old(self).wf(),
        ensures
            final(self).wf(),
            final(self).spec_readable() == old(self).spec_inputs(),
            final(self).spec_port() == old(self).spec_port(),
            final(self).spec_ddr() == old(self).spec_ddr(),
            final(self).spec_outputs() == old(self).spec_outputs(),
            final(self).spec_changes() == old(self).spec_changes(),
            final(self).spec_inputs() == old(self).spec_inputs(),
            final(self).spec_changed_flag() == old(self).spec_changed_flag(),
    {
        self.readable_states = clone_states(&self.input_states);
    }

    /// Drives one pin, recording a change when the state differs.
    fn set_output_state(&mut self, i: usize, state: PinState)
        requires
            old(self).wf(),
            i < 8,
        ensures
            final(self).wf(),
            final(self).spec_outputs() =~= old(self).spec_outputs().update(i as int, state),
            old(self).spec_outputs()[i as int] == state ==> final(self).spec_changes() == old(
                self,
            ).spec_changes() && final(self).spec_changed_flag() == old(self).spec_changed_flag(),
            old(self).spec_outputs()[i as int] != state ==> final(self).spec_changes()
                =~= old(self).spec_changes().push((i as PinId, state)) && final(self).spec_changed_flag(),
            final(self).spec_port() == old(self).spec_port(),
            final(self).spec_ddr() == old(self).spec_ddr(),
            final(self).spec_readable() == old(self).spec_readable(),
            final(self).spec_inputs() == old(self).spec_inputs(),
    {
        if !same_state(self.output_states[i], state) {
            self.output_states.remove(i);
            self.output_states.insert(i, state);
            self.output_changes.push(((i as PinId), state));
            self.changed = true;
            proof {
                assert(self.output_states@ =~= old(self).output_states@.update(i as int, state));
            }
        } else {
            proof {
                assert(self.output_states@ =~= old(self).output_states@.update(i as int, state));
            }
        }
    }

    /// Drives every pin according to the port and direction registers.
    fn update_outputs(&mut self)
        requires
            old(self).wf(),
        ensures
            final(self).wf(),
            forall|i: int|
                0 <= i < 8 ==> final(self).spec_outputs()[i] == pin_output(
                    spec_bit32(final(self).spec_ddr() as u32, i as nat),
                    spec_bit32(final(self).spec_port() as u32, i as nat),
                ),
            final(self).spec_changes() == changes_after(
                old(self).spec_outputs(),
                old(self).spec_changes(),
                old(self).spec_ddr(),
                old(self).spec_port(),
                8,
            ),
            final(self).spec_changed_flag() == (old(self).spec_changed_flag() || any_change(
                old(self).spec_outputs(),
                old(self).spec_ddr(),
                old(self).spec_port(),
                8,
            )),
            final(self).spec_port() == old(self).spec_port(),
            final(self).spec_ddr() == old(self).spec_ddr(),
            final(self).spec_readable() == old(self).spec_readable(),
            final(self).spec_inputs() == old(self).spec_inputs(),
    {
        let mut i: usize = 0;
        while i < 8
            invariant
                self.wf(),
                0 <= i <= 8,
                forall|j: int|
                    0 <= j < i ==> self.spec_outputs()[j] == pin_output(
                        spec_bit32(self.spec_ddr() as u32, j as nat),
                        spec_bit32(self.spec_port() as u32, j as nat),
                    ),
                forall|j: int| i <= j < 8 ==> self.spec_outputs()[j] == old(self).spec_outputs()[j],
                self.spec_changes() == changes_after(
                    old(self).spec_outputs(),
                    old(self).spec_changes(),
                    old(self).spec_ddr(),
                    old(self).spec_port(),
                    i as int,
                ),
                self.spec_changed_flag() == (old(self).spec_changed_flag() || any_change(
                    old(self).spec_outputs(),
                    old(self).spec_ddr(),
                    old(self).spec_port(),
                    i as int,
                )),
                self.spec_port() == old(self).spec_port(),
                self.spec_ddr() == old(self).spec_ddr(),
                self.spec_readable() == old(self).spec_readable(),
                self.spec_inputs() == old(self).spec_inputs(),
            decreases 8 - i,
        {
            let port = bit32(self.port_register as u32, i as u32);
            let dd = bit32(self.ddr_register as u32, i as u32);
            let target = if dd {
                if port {
                    PinState::High
                } else {
                    PinState::Low
                }
            } else {
                if port {
                    PinState::WeakHigh
                } else {
                    PinState::Z
                }
            };
            self.set_output_state(i, target);
            i = i + 1;
        }
    }

    /// Writes the port register and redrives the pins.
    pub fn write_port(&mut self, val: u8)
        requires
            old(self).wf(),
        ensures
            final(self).wf(),
            final(self).spec_port() == val,
            final(self).spec_ddr() == old(self).spec_ddr(),
            forall|i: int|
                0 <= i < 8 ==> final(self).spec_outputs()[i] == pin_output(
                    spec_bit32(old(self).spec_ddr() as u32, i as nat),
                    spec_bit32(val as u32, i as nat),
                ),
            final(self).spec_changes() == changes_after(
                old(self).spec_outputs(),
                old(self).spec_changes(),
                old(self).spec_ddr(),
                val,
                8,
            ),
            final(self).spec_changed_flag() == (old(self).spec_changed_flag() || any_change(
                old(self).spec_outputs(),
                old(self).spec_ddr(),
                val,
                8,
            )),
            final(self).spec_readable() == old(self).spec_readable(),
            final(self).spec_inputs() == old(self).spec_inputs(),
    {
        self.port_register = val;
        self.update_outputs();
    }

    /// Writes the data-direction register and redrives the pins.
    pub fn write_ddr(&mut self, val: u8)
        requires
            old(self).wf(),
        ensures
            final(self).wf(),
            final(self).spec_ddr() == val,
            final(self).spec_port() == old(self).spec_port(),
            forall|i: int|
                0 <= i < 8 ==> final(self).spec_outputs()[i] == pin_output(
                    spec_bit32(val as u32, i as nat),
                    spec_bit32(old(self).spec_port() as u32, i as nat),
                ),
            final(self).spec_changes() == changes_after(
                old(self).spec_outputs(),
                old(self).spec_changes(),
                val,
                old(self).spec_port(),
                8,
            ),
            final(self).spec_changed_flag() == (old(self).spec_changed_flag() || any_change(
                old(self).spec_outputs(),
                val,
                old(self).spec_port(),
                8,
            )),
            final(self).spec_readable() == old(self).spec_readable(),
            final(self).spec_inputs() == old(self).spec_inputs(),
    {
        self.ddr_register = val;
        self.update_outputs();
    }

    /// Writes the input register: a set bit toggles the matching port
    /// bit, as the hardware defines; the pins are then redriven.
    pub fn write_pin(&mut self, val: u8)
        requires
            old(self).wf(),
        ensures
            final(self).wf(),
            final(self).spec_port() == old(self).spec_port() ^ val,
            final(self).spec_ddr() == old(self).spec_ddr(),
            forall|i: int|
                0 <= i < 8 ==> final(self).spec_outputs()[i] == pin_output(
                    spec_bit32(old(self).spec_ddr() as u32, i as nat),
                    spec_bit32((old(self).spec_port() ^ val) as u32, i as nat),
                ),
            final(self).spec_changes() == changes_after(
                old(self).spec_outputs(),
                old(self).spec_changes(),
                old(self).spec_ddr(),
                old(self).spec_port() ^ val,
                8,
            ),
            final(self).spec_changed_flag() == (old(self).spec_changed_flag() || any_change(
                old(self).spec_outputs(),
                old(self).spec_ddr(),
                old(self).spec_port() ^ val,
                8,
            )),
            final(self).spec_readable() == old(self).spec_readable(),
            final(self).spec_inputs() == old(self).spec_inputs(),
    {
        self.port_register = self.port_register ^ val;
        self.update_outputs();
    }
}

/// Whether two pin states are the same.
fn same_state(a: PinState, b: PinState) -> (r: bool)
    ensures
        r == (a == b),
{
    a == b
}

/// A fresh vector holding the same states.
fn clone_states(v: &Vec<PinState>) -> (r: Vec<PinState>)
    ensures
        r@ == v@,
{
    let mut out: Vec<PinState> = Vec::new();
    let mut i: usize = 0;
    while i < v.len()
        invariant
            0 <= i <= v@.len(),
            out@ =~= v@.take(i as int),
        decreases v@.len() - i,
    {
        out.push(v[i]);
        proof {
            assert(v@.take(i + 1) =~= v@.take(i as int).push(v@[i as int]));
        }
        i = i + 1;
    }
    proof {
        assert(v@.take(v@.len() as int) =~= v@);
    }
    out
}

} // verus!
