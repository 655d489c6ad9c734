//! Six-valued pin-state lattice.

use vstd::prelude::*;

verus! {

/// State of an external pin.
#[derive(Debug, PartialEq, Eq, Structural, Clone, Copy)]
pub enum PinState {
    /// High-impedance state, also known as tri-state.
    Z,
    /// Pin is connected to a strong sink (low voltage).
    Low,
    /// Pin is connected to a strong source (high voltage).
    High,
    /// Pin is connected to a pull-down resistor.
    WeakLow,
    /// Pin is connected to a pull-up resistor.
    WeakHigh,
    /// Pin is connected to a mix of sinks and sources, and so is in undefined state.
    Error,
}

/// What an input pin observes of a wire state: weak drives read as strong.
pub open spec fn spec_read(s: PinState) -> PinState {
    match s {
        PinState::Z => PinState::Z,
        PinState::Low | PinState::WeakLow => PinState::Low,
        PinState::High | PinState::WeakHigh => PinState::High,
        PinState::Error => PinState::Error,
    }
}

impl PinState {
    /// Converts a bool to [`PinState`].
    #[inline]
    pub fn from_bool(b: bool) -> (r: PinState)
        ensures
            r == if b { PinState::High } else { PinState::Low },
    {
        if b {
            PinState::High
        } else {
            PinState::Low
        }
    }

    /// Converts a full wire state to the state that an input pin observes.
    ///
    /// Only converts weak states to `High`/`Low`.
    pub fn read(self) -> (r: PinState)
        ensures
            r == spec_read(self),
    {
        match self {
            PinState::Z => PinState::Z,
            PinState::Low | PinState::WeakLow => PinState::Low,
            PinState::High | PinState::WeakHigh => PinState::High,
            PinState::Error => PinState::Error,
        }
    }
}

/// The observed projection is idempotent: reading an already-read state
/// changes nothing.
pub proof fn lemma_read_idempotent(s: PinState)
    ensures
        spec_read(spec_read(s)) == spec_read(s),
{
}

/// Type for pin numbers of components.
///
/// This is unique only within a single component.
pub type PinId = u16;

/// Whether bit `i` of `bits` is set; bits past the word width read as
/// clear.
pub open spec fn spec_bit32(bits: u32, i: nat) -> bool {
    i < 32 && bits & (1u32 << i) != 0
}

/// Reads bit `i` of a 32-bit word.
pub fn bit32(bits: u32, i: u32) -> (r: bool)
    ensures
        r == spec_bit32(bits, i as nat),
{
    if i < 32 {
        bits & (1u32 << i) != 0
    } else {
        false
    }
}

/// A compact vector of pin states, as captured by one VCD signal.
#[derive(Debug, Clone, Copy, PartialEq, Eq, Structural)]
pub enum PinVec {
    /// A single-bit signal.
    SinglePin(PinState),
    /// Up to 32 two-valued bits packed in a word; bit `size - 1` comes first.
    SmallLogical { size: u8, bits: u32 },
    /// `size` copies of the same state.
    Repeated { size: u8, state: PinState },
}

impl PinVec {
    /// A packed vector never claims more bits than its word holds.
    pub open spec fn wf(self) -> bool {
        match self {
            PinVec::SmallLogical { size, .. } => size <= 32,
            _ => true,
        }
    }

    /// The sequence of states held, most significant first.
    pub open spec fn view(self) -> Seq<PinState> {
        match self {
            PinVec::SinglePin(s) => seq![s],
            PinVec::SmallLogical { size, bits } => Seq::new(
                size as nat,
                |i: int| if spec_bit32(bits, (size - 1 - i) as nat) {
                    PinState::High
                } else {
                    PinState::Low
                },
            ),
            PinVec::Repeated { size, state } => Seq::new(size as nat, |i: int| state),
        }
    }

    /// Builds a vector of `size` equal states (a lone state when `size` is 1).
    pub fn new(size: u8, val: PinState) -> (r: PinVec)
        ensures
            r.wf(),
            r@ =~= Seq::new(size as nat, |i: int| val),
            size == 1 ==> r == PinVec::SinglePin(val),
            size != 1 ==> r == (PinVec::Repeated { size, state: val }),
    {
        if size == 1 {
            PinVec::SinglePin(val)
        } else {
            PinVec::Repeated { size, state: val }
        }
    }

    /// Builds a two-valued vector from the low `size` bits of `val`.
    #[inline]
    pub fn init_logical(size: u8, val: u32) -> (r: PinVec)
        requires
            size <= 32,
        ensures
            r.wf(),
            r@ =~= Seq::new(
                size as nat,
                |i: int| if spec_bit32(val, (size - 1 - i) as nat) {
                    PinState::High
                } else {
                    PinState::Low
                },
            ),
            size == 1 ==> r == PinVec::SinglePin(
                if spec_bit32(val, 0) {
                    PinState::High
                } else {
                    PinState::Low
                },
            ),
            size != 1 ==> r == (PinVec::SmallLogical { size, bits: val }),
    {
        if size == 1 {
            PinVec::SinglePin(
                if bit32(val, 0) {
                    PinState::High
                } else {
                    PinState::Low
                },
            )
        } else {
            PinVec::SmallLogical { size, bits: val }
        }
    }

    /// Number of states held.
    #[inline]
    pub fn len(&self) -> (r: u8)
        ensures
            r as nat == self@.len(),
    {
        match self {
            PinVec::SinglePin(_) => 1,
            PinVec::SmallLogical { size, .. } => *size,
            PinVec::Repeated { size, .. } => *size,
        }
    }

    /// Starts iterating over the states, most significant first.
    #[inline]
    pub fn iter(&self) -> (r: PinVecIter<'_>)
        ensures
            r.spec_vec() == *self,
            r.spec_pos() == self@.len() - 1,
    {
        let len: u8 = self.len();
        PinVecIter { vec: self, pos: len as i32 - 1 }
    }
}

/// Walks a [`PinVec`] from the most significant state down.
pub struct PinVecIter<'a> {
    vec: &'a PinVec,
    /// Index of the next state to yield, counted from the least significant
    /// end; `-1` when exhausted.
    pos: i32,
}

impl<'a> PinVecIter<'a> {
    /// The vector being walked.
    pub closed spec fn spec_vec(self) -> PinVec {
        *self.vec
    }

    /// The current position, counted from the least significant end.
    pub closed spec fn spec_pos(self) -> int {
        self.pos as int
    }

    /// Yields the next state, or `None` once all states are out.
    pub fn next(&mut self) -> (r: Option<PinState>)
        requires
            old(self).spec_pos() <= old(self).spec_vec()@.len() - 1,
        ensures
            final(self).spec_vec() == old(self).spec_vec(),
            old(self).spec_pos() >= 0 ==> r == Some(
                old(self).spec_vec()@[old(self).spec_vec()@.len() - 1 - old(self).spec_pos()],
            ) && final(self).spec_pos() == old(self).spec_pos() - 1,
            old(self).spec_pos() < 0 ==> r is None && final(self).spec_pos() == old(self).spec_pos(),
    {
        match self.vec {
            PinVec::SinglePin(pin) => {
                if self.pos == 0 {
                    self.pos = self.pos - 1;
                    Some(*pin)
                } else {
                    None
                }
            },
            PinVec::SmallLogical { size, bits } => {
                if self.pos >= 0 {
                    let p = self.pos;
                    self.pos = self.pos - 1;
                    if bit32(*bits, p as u32) {
                        Some(PinState::High)
                    } else {
                        Some(PinState::Low)
                    }
                } else {
                    None
                }
            },
            PinVec::Repeated { state, .. } => {
                if self.pos >= 0 {
                    self.pos = self.pos - 1;
                    Some(*state)
                } else {
                    None
                }
            },
        }
    }
}

/// Can be converted to a vector of [`PinState`].
///
/// This is used for VCD signals.
pub trait PinStateConvertible: Sized {
    /// The exact vector the conversion yields.
    spec fn spec_to_pin_vec(self) -> PinVec;

    /// Converts the value into a [`PinVec`].
    fn to_pin_vec(self) -> (r: PinVec)
        ensures
            r == self.spec_to_pin_vec(),
    ;
}

impl PinStateConvertible for bool {
    open spec fn spec_to_pin_vec(self) -> PinVec {
        PinVec::SinglePin(
            if self {
                PinState::High
            } else {
                PinState::Low
            },
        )
    }

    fn to_pin_vec(self) -> PinVec {
        PinVec::SinglePin(PinState::from_bool(self))
    }
}

impl PinStateConvertible for u8 {
    open spec fn spec_to_pin_vec(self) -> PinVec {
        PinVec::SmallLogical { size: 8, bits: self as u32 }
    }

    fn to_pin_vec(self) -> PinVec {
        PinVec::SmallLogical { size: 8, bits: self as u32 }
    }
}

impl PinStateConvertible for u16 {
    open spec fn spec_to_pin_vec(self) -> PinVec {
        PinVec::SmallLogical { size: 16, bits: self as u32 }
    }

    fn to_pin_vec(self) -> PinVec {
        PinVec::SmallLogical { size: 16, bits: self as u32 }
    }
}

impl PinStateConvertible for u32 {
    open spec fn spec_to_pin_vec(self) -> PinVec {
        PinVec::SmallLogical { size: 32, bits: self }
    }

    fn to_pin_vec(self) -> PinVec {
        PinVec::SmallLogical { size: 32, bits: self }
    }
}

impl PinStateConvertible for PinState {
    open spec fn spec_to_pin_vec(self) -> PinVec {
        PinVec::SinglePin(self)
    }

    fn to_pin_vec(self) -> PinVec {
        PinVec::SinglePin(self)
    }
}

impl PinStateConvertible for PinVec {
    open spec fn spec_to_pin_vec(self) -> PinVec {
        self
    }

    fn to_pin_vec(self) -> PinVec {
        self
    }
}

} // verus!
