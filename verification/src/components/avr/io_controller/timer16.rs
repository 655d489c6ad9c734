//! A 16-bit timer/counter with output-compare units.

use vstd::prelude::*;

use crate::pins::{bit32, spec_bit32, PinId, PinState};

verus! {

/// What a compare match does to the unit's output pin.
#[derive(Debug, Clone, Copy, PartialEq, Eq, Structural)]
pub enum CompareOutputMode {
    Disabled,
    Toggle,
    Clear,
    SetHigh,
}

/// The clock source and prescaler of the timer.
#[derive(Debug, Clone, Copy, PartialEq, Eq, Structural)]
pub enum ClockMode {
    Disabled,
    Clk1,
    Clk8,
    Clk64,
    Clk256,
    Clk1024,
    ExternalFalling,
    ExternalRising,
}

/// The counting regime of the timer.
#[derive(Debug, Clone, Copy, PartialEq, Eq, Structural)]
pub enum WaveformGenerationMode {
    Normal,
    Pwm8Bit,
    Pwm9Bit,
    Pwm10Bit,
    Ctc,
    FastPwm8Bit,
    FastPwm9Bit,
    FastPwm10Bit,
    PwmPhaseFreqIcr,
    PwmPhaseFreqOcrA,
    PwmPhaseIcr,
    PwmPhaseOcrA,
    CtcIcr,
    Reserved,
    FastPwmIcr,
    FastPwmOcrA,
}

/// The two low bits encoding a compare-output mode.
pub open spec fn com_bits(m: CompareOutputMode) -> u8 {
    match m {
        CompareOutputMode::Disabled => 0,
        CompareOutputMode::Toggle => 1,
        CompareOutputMode::Clear => 2,
        CompareOutputMode::SetHigh => 3,
    }
}

/// The compare-output mode encoded by two bits.
pub open spec fn spec_com_of_bits(b: u8) -> CompareOutputMode {
    if b == 1 {
        CompareOutputMode::Toggle
    } else if b == 2 {
        CompareOutputMode::Clear
    } else if b == 3 {
        CompareOutputMode::SetHigh
    } else {
        CompareOutputMode::Disabled
    }
}

/// Decodes two bits into a compare-output mode.
fn com_of_bits(b: u8) -> (r: CompareOutputMode)
    ensures
        r == spec_com_of_bits(b),
{
    if b == 1 {
        CompareOutputMode::Toggle
    } else if b == 2 {
        CompareOutputMode::Clear
    } else if b == 3 {
        CompareOutputMode::SetHigh
    } else {
        CompareOutputMode::Disabled
    }
}

/// The three bits encoding a clock mode.
pub open spec fn clock_bits(m: ClockMode) -> u8 {
    match m {
        ClockMode::Disabled => 0,
        ClockMode::Clk1 => 1,
        ClockMode::Clk8 => 2,
        ClockMode::Clk64 => 3,
        ClockMode::Clk256 => 4,
        ClockMode::Clk1024 => 5,
        ClockMode::ExternalFalling => 6,
        ClockMode::ExternalRising => 7,
    }
}

/// The clock mode encoded by three bits.
pub open spec fn spec_clock_of_bits(b: u8) -> ClockMode {
    if b == 1 {
        ClockMode::Clk1
    } else if b == 2 {
        ClockMode::Clk8
    } else if b == 3 {
        ClockMode::Clk64
    } else if b == 4 {
        ClockMode::Clk256
    } else if b == 5 {
        ClockMode::Clk1024
    } else if b == 6 {
        ClockMode::ExternalFalling
    } else if b == 7 {
        ClockMode::ExternalRising
    } else {
        ClockMode::Disabled
    }
}

/// Decodes three bits into a clock mode.
fn clock_of_bits(b: u8) -> (r: ClockMode)
    ensures
        r == spec_clock_of_bits(b),
{
    if b == 1 {
        ClockMode::Clk1
    } else if b == 2 {
        ClockMode::Clk8
    } else if b == 3 {
        ClockMode::Clk64
    } else if b == 4 {
        ClockMode::Clk256
    } else if b == 5 {
        ClockMode::Clk1024
    } else if b == 6 {
        ClockMode::ExternalFalling
    } else if b == 7 {
        ClockMode::ExternalRising
    } else {
        ClockMode::Disabled
    }
}

/// The four bits encoding a waveform mode.
pub open spec fn wgm_bits(m: WaveformGenerationMode) -> u8 {
    match m {
        WaveformGenerationMode::Normal => 0,
        WaveformGenerationMode::Pwm8Bit => 1,
        WaveformGenerationMode::Pwm9Bit => 2,
        WaveformGenerationMode::Pwm10Bit => 3,
        WaveformGenerationMode::Ctc => 4,
        WaveformGenerationMode::FastPwm8Bit => 5,
        WaveformGenerationMode::FastPwm9Bit => 6,
        WaveformGenerationMode::FastPwm10Bit => 7,
        WaveformGenerationMode::PwmPhaseFreqIcr => 8,
        WaveformGenerationMode::PwmPhaseFreqOcrA => 9,
        WaveformGenerationMode::PwmPhaseIcr => 10,
        WaveformGenerationMode::PwmPhaseOcrA => 11,
        WaveformGenerationMode::CtcIcr => 12,
        WaveformGenerationMode::Reserved => 13,
        WaveformGenerationMode::FastPwmIcr => 14,
        WaveformGenerationMode::FastPwmOcrA => 15,
    }
}

/// The waveform mode encoded by four bits.
pub open spec fn spec_wgm_of_bits(b: u8) -> WaveformGenerationMode {
    if b == 1 {
        WaveformGenerationMode::Pwm8Bit
    } else if b == 2 {
        WaveformGenerationMode::Pwm9Bit
    } else if b == 3 {
        WaveformGenerationMode::Pwm10Bit
    } else if b == 4 {
        WaveformGenerationMode::Ctc
    } else if b == 5 {
        WaveformGenerationMode::FastPwm8Bit
    } else if b == 6 {
        WaveformGenerationMode::FastPwm9Bit
    } else if b == 7 {
        WaveformGenerationMode::FastPwm10Bit
    } else if b == 8 {
        WaveformGenerationMode::PwmPhaseFreqIcr
    } else if b == 9 {
        WaveformGenerationMode::PwmPhaseFreqOcrA
    } else if b == 10 {
        WaveformGenerationMode::PwmPhaseIcr
    } else if b == 11 {
        WaveformGenerationMode::PwmPhaseOcrA
    } else if b == 12 {
        WaveformGenerationMode::CtcIcr
    } else if b == 13 {
        WaveformGenerationMode::Reserved
    } else if b == 14 {
        WaveformGenerationMode::FastPwmIcr
    } else if b == 15 {
        WaveformGenerationMode::FastPwmOcrA
    } else {
        WaveformGenerationMode::Normal
    }
}

/// Decodes four bits into a waveform mode.
fn wgm_of_bits(b: u8) -> (r: WaveformGenerationMode)
    ensures
        r == spec_wgm_of_bits(b),
{
    if b == 1 {
        WaveformGenerationMode::Pwm8Bit
    } else if b == 2 {
        WaveformGenerationMode::Pwm9Bit
    } else if b == 3 {
        WaveformGenerationMode::Pwm10Bit
    } else if b == 4 {
        WaveformGenerationMode::Ctc
    } else if b == 5 {
        WaveformGenerationMode::FastPwm8Bit
    } else if b == 6 {
        WaveformGenerationMode::FastPwm9Bit
    } else if b == 7 {
        WaveformGenerationMode::FastPwm10Bit
    } else if b == 8 {
        WaveformGenerationMode::PwmPhaseFreqIcr
    } else if b == 9 {
        WaveformGenerationMode::PwmPhaseFreqOcrA
    } else if b == 10 {
        WaveformGenerationMode::PwmPhaseIcr
    } else if b == 11 {
        WaveformGenerationMode::PwmPhaseOcrA
    } else if b == 12 {
        WaveformGenerationMode::CtcIcr
    } else if b == 13 {
        WaveformGenerationMode::Reserved
    } else if b == 14 {
        WaveformGenerationMode::FastPwmIcr
    } else if b == 15 {
        WaveformGenerationMode::FastPwmOcrA
    } else {
        WaveformGenerationMode::Normal
    }
}

/// The interrupt lines of one 16-bit timer.
pub struct Timer16Interrupts {
    pub overflow: bool,
    pub oc: Vec<bool>,
    pub input_capture: bool,
}

impl Timer16Interrupts {
    /// Three output-compare lines.
    pub open spec fn wf(self) -> bool {
        self.oc@.len() == 3
    }

    /// All lines clear.
    pub fn new() -> (r: Timer16Interrupts)
        ensures
            r.wf(),
            r.overflow == false,
            r.input_capture == false,
            r.oc@ =~= seq![false, false, false],
    {
        let mut oc: Vec<bool> = Vec::new();
        oc.push(false);
        oc.push(false);
        oc.push(false);
        proof {
            assert(oc@ =~= seq![false, false, false]);
        }
        Timer16Interrupts { overflow: false, oc, input_capture: false }
    }
}

/// The counting top of each modelled regime; the input-capture regimes
/// are not modelled.
pub open spec fn spec_top(wgm: WaveformGenerationMode, active0: u16) -> u16 {
    match wgm {
        WaveformGenerationMode::Normal => 0xFFFFu16,
        WaveformGenerationMode::Pwm8Bit => 0x00FFu16,
        WaveformGenerationMode::Pwm9Bit => 0x01FFu16,
        WaveformGenerationMode::Pwm10Bit => 0x03FFu16,
        WaveformGenerationMode::Ctc => active0,
        WaveformGenerationMode::FastPwm8Bit => 0x00FFu16,
        WaveformGenerationMode::FastPwm9Bit => 0x01FFu16,
        WaveformGenerationMode::FastPwm10Bit => 0x03FFu16,
        WaveformGenerationMode::PwmPhaseFreqOcrA => active0,
        WaveformGenerationMode::PwmPhaseOcrA => active0,
        WaveformGenerationMode::FastPwmOcrA => active0,
        _ => 0u16,
    }
}

/// What a compare match does to the unit's pin level.
pub open spec fn com_apply(m: CompareOutputMode, p: bool) -> bool {
    match m {
        CompareOutputMode::Disabled => p,
        CompareOutputMode::Toggle => !p,
        CompareOutputMode::Clear => false,
        CompareOutputMode::SetHigh => true,
    }
}

/// Whether the regime reloads the buffered compare registers at top.
pub open spec fn reloads_at_top(wgm: WaveformGenerationMode) -> bool {
    match wgm {
        WaveformGenerationMode::Pwm8Bit
        | WaveformGenerationMode::Pwm9Bit
        | WaveformGenerationMode::Pwm10Bit
        | WaveformGenerationMode::PwmPhaseOcrA => true,
        _ => false,
    }
}

/// Whether the regime raises overflow when wrapping at top.
pub open spec fn overflows_at_top(wgm: WaveformGenerationMode) -> bool {
    match wgm {
        WaveformGenerationMode::FastPwm8Bit
        | WaveformGenerationMode::FastPwm9Bit
        | WaveformGenerationMode::FastPwm10Bit
        | WaveformGenerationMode::FastPwmOcrA => true,
        _ => false,
    }
}

/// Whether the regime raises overflow when passing the counter maximum.
pub open spec fn overflows_at_max(wgm: WaveformGenerationMode) -> bool {
    match wgm {
        WaveformGenerationMode::Normal | WaveformGenerationMode::Ctc => true,
        _ => false,
    }
}

/// Whether the prescaler selects this system-clock cycle.
pub open spec fn spec_should_tick(m: ClockMode, prescaler: u16) -> bool {
    match m {
        ClockMode::Disabled => false,
        ClockMode::Clk1 => true,
        ClockMode::Clk8 => prescaler % 8 == 0,
        ClockMode::Clk64 => prescaler % 64 == 0,
        ClockMode::Clk256 => prescaler % 256 == 0,
        ClockMode::Clk1024 => prescaler == 0,
        _ => false,
    }
}

/// A 16-bit timer/counter with three output-compare units.
pub struct Timer16 {
    counter: u16,
    pins: Vec<bool>,
    reg_ocr: Vec<u16>,
    active_ocr: Vec<u16>,
    compare_output_mode: Vec<CompareOutputMode>,
    pin_ids: Vec<PinId>,
    clock_mode: ClockMode,
    waveform_mode: WaveformGenerationMode,
    interrupt_masks: Timer16Interrupts,
    /// The raised interrupt flags.
    pub interrupt_flags: Timer16Interrupts,
}

impl Timer16 {
    /// The current counter value.
    pub closed spec fn spec_counter(self) -> u16 {
        self.counter
    }

    /// The three output-compare pin levels.
    pub closed spec fn spec_pins(self) -> Seq<bool> {
        self.pins@
    }

    /// The three buffered compare registers.
    pub closed spec fn spec_reg_ocr(self) -> Seq<u16> {
        self.reg_ocr@
    }

    /// The three active compare registers.
    pub closed spec fn spec_active_ocr(self) -> Seq<u16> {
        self.active_ocr@
    }

    /// The three compare-output modes.
    pub closed spec fn spec_com(self) -> Seq<CompareOutputMode> {
        self.compare_output_mode@
    }

    /// The board-level pins of the three compare units.
    pub closed spec fn spec_pin_ids(self) -> Seq<PinId> {
        self.pin_ids@
    }

    /// The clock mode.
    pub closed spec fn spec_clock_mode(self) -> ClockMode {
        self.clock_mode
    }

    /// The waveform mode.
    pub closed spec fn spec_waveform_mode(self) -> WaveformGenerationMode {
        self.waveform_mode
    }

    /// The interrupt masks.
    pub closed spec fn spec_masks(self) -> Timer16Interrupts {
        self.interrupt_masks
    }

    /// The raised interrupt flags.
    pub closed spec fn spec_flags(self) -> Timer16Interrupts {
        self.interrupt_flags
    }

    /// Every per-unit table holds exactly three entries.
    pub open spec fn wf(self) -> bool {
        &&& self.spec_pins().len() == 3
        &&& self.spec_reg_ocr().len() == 3
        &&& self.spec_active_ocr().len() == 3
        &&& self.spec_com().len() == 3
        &&& self.spec_pin_ids().len() == 3
        &&& self.spec_masks().wf()
        &&& self.spec_flags().wf()
    }

    /// The output changes appended by the compare units 0 up to `k`:
    /// each firing unit whose mode is not `Disabled` appends its pin and
    /// its new level, in unit order.
    pub open spec fn oc_outputs(pre: Timer16, outs: Seq<(PinId, PinState)>, k: int) -> Seq<
        (PinId, PinState),
    >
        decreases k,
    {
        if k <= 0 {
            outs
        } else {
            let prev = Self::oc_outputs(pre, outs, k - 1);
            let i = k - 1;
            if pre.spec_active_ocr()[i] == pre.spec_counter() && !(pre.spec_com()[i]
                is Disabled) {
                prev.push(
                    (
                        pre.spec_pin_ids()[i],
                        if com_apply(pre.spec_com()[i], pre.spec_pins()[i]) {
                            PinState::High
                        } else {
                            PinState::Low
                        },
                    ),
                )
            } else {
                prev
            }
        }
    }

    /// Everything one counter tick does, as a relation between the
    /// timer, the output list and the interrupt line before and after:
    /// each compare unit whose active register matches the counter
    /// fires — driving its pin per its mode and raising its interrupt
    /// where unmasked — then the counter advances, wrapping at the
    /// regime's top, reloading the double-buffered compare registers in
    /// the phase-correct regimes and raising overflow where the regime
    /// calls for it.
    pub open spec fn tick_effect(
        pre: Timer16,
        post: Timer16,
        outs_pre: Seq<(PinId, PinState)>,
        outs_post: Seq<(PinId, PinState)>,
        intr_pre: bool,
        intr_post: bool,
    ) -> bool {
        let at_top = pre.spec_counter() == spec_top(
            pre.spec_waveform_mode(),
            pre.spec_active_ocr()[0],
        );
        let wgm = pre.spec_waveform_mode();
        &&& post.wf()
        &&& (forall|i: int|
            0 <= i < 3 ==> post.spec_pins()[i] == (if pre.spec_active_ocr()[i]
                == pre.spec_counter() {
                com_apply(pre.spec_com()[i], pre.spec_pins()[i])
            } else {
                pre.spec_pins()[i]
            }))
        &&& (forall|i: int|
            0 <= i < 3 ==> post.spec_flags().oc@[i] == (pre.spec_flags().oc@[i] || (
            pre.spec_active_ocr()[i] == pre.spec_counter() && pre.spec_masks().oc@[i])))
        &&& outs_post == Self::oc_outputs(pre, outs_pre, 3)
        &&& post.spec_counter() == (if at_top {
            0u16
        } else if pre.spec_counter() == 0xFFFF {
            0u16
        } else {
            (pre.spec_counter() + 1) as u16
        })
        &&& post.spec_active_ocr() == (if at_top && reloads_at_top(wgm) {
            pre.spec_reg_ocr()
        } else {
            pre.spec_active_ocr()
        })
        &&& post.spec_flags().overflow == (pre.spec_flags().overflow || (at_top
            && overflows_at_top(wgm) && pre.spec_masks().overflow) || (!at_top
            && pre.spec_counter() == 0xFFFF && overflows_at_max(wgm)
            && pre.spec_masks().overflow))
        &&& post.spec_flags().input_capture == pre.spec_flags().input_capture
        &&& intr_post == (intr_pre || (exists|i: int|
            0 <= i < 3 && pre.spec_active_ocr()[i] == pre.spec_counter()
                && pre.spec_masks().oc@[i]) || (at_top && overflows_at_top(wgm)
            && pre.spec_masks().overflow) || (!at_top && pre.spec_counter() == 0xFFFF
            && overflows_at_max(wgm) && pre.spec_masks().overflow))
        &&& post.spec_reg_ocr() == pre.spec_reg_ocr()
        &&& post.spec_com() == pre.spec_com()
        &&& post.spec_pin_ids() == pre.spec_pin_ids()
        &&& post.spec_clock_mode() == pre.spec_clock_mode()
        &&& post.spec_waveform_mode() == pre.spec_waveform_mode()
        &&& post.spec_masks().overflow == pre.spec_masks().overflow
        &&& post.spec_masks().input_capture == pre.spec_masks().input_capture
        &&& post.spec_masks().oc@ == pre.spec_masks().oc@
    }

    /// A stopped timer in normal mode, counting from zero.
    pub fn new(pin_ids: Vec<PinId>) -> (r: Timer16)
        requires
            pin_ids@.len() == 3,
        ensures
            r.wf(),
            r.spec_counter() == 0,
            r.spec_pins() =~= seq![false, false, false],
            r.spec_reg_ocr() =~= seq![0u16, 0u16, 0u16],
            r.spec_active_ocr() =~= seq![0u16, 0u16, 0u16],
            r.spec_com() =~= seq![
                CompareOutputMode::Disabled,
                CompareOutputMode::Disabled,
                CompareOutputMode::Disabled,
            ],
            r.spec_pin_ids() == pin_ids@,
            r.spec_clock_mode() == ClockMode::Disabled,
            r.spec_waveform_mode() == WaveformGenerationMode::Normal,
            r.spec_masks().overflow == false,
            r.spec_masks().input_capture == false,
            r.spec_masks().oc@ =~= seq![false, false, false],
            r.spec_flags().overflow == false,
            r.spec_flags().input_capture == false,
            r.spec_flags().oc@ =~= seq![false, false, false],
    {
        let mut pins: Vec<bool> = Vec::new();
        pins.push(false);
        pins.push(false);
        pins.push(false);
        let mut reg_ocr: Vec<u16> = Vec::new();
        reg_ocr.push(0);
        reg_ocr.push(0);
        reg_ocr.push(0);
        let mut active_ocr: Vec<u16> = Vec::new();
        active_ocr.push(0);
        active_ocr.push(0);
        active_ocr.push(0);
        let mut com: Vec<CompareOutputMode> = Vec::new();
        com.push(CompareOutputMode::Disabled);
        com.push(CompareOutputMode::Disabled);
        com.push(CompareOutputMode::Disabled);
        proof {
            assert(pins@ =~= seq![false, false, false]);
            assert(reg_ocr@ =~= seq![0u16, 0u16, 0u16]);
            assert(active_ocr@ =~= seq![0u16, 0u16, 0u16]);
            assert(com@ =~= seq![
                CompareOutputMode::Disabled,
                CompareOutputMode::Disabled,
                CompareOutputMode::Disabled,
            ]);
        }
        Timer16 {
            counter: 0,
            pins,
            reg_ocr,
            active_ocr,
            pin_ids,
            compare_output_mode: com,
            clock_mode: ClockMode::Disabled,
            waveform_mode: WaveformGenerationMode::Normal,
            interrupt_masks: Timer16Interrupts::new(),
            interrupt_flags: Timer16Interrupts::new(),
        }
    }

    /// The value the counter counts up to in the current waveform mode.
    ///
    /// The input-capture-based modes are not modelled.
    fn top_value(&self) -> (r: u16)
        requires
            self.wf(),
            !(self.spec_waveform_mode() == WaveformGenerationMode::PwmPhaseFreqIcr),
            !(self.spec_waveform_mode() == WaveformGenerationMode::PwmPhaseIcr),
            !(self.spec_waveform_mode() == WaveformGenerationMode::CtcIcr),
            !(self.spec_waveform_mode() == WaveformGenerationMode::FastPwmIcr),
            !(self.spec_waveform_mode() == WaveformGenerationMode::Reserved),
        ensures
            r == match self.spec_waveform_mode() {
                WaveformGenerationMode::Normal => 0xFFFFu16,
                WaveformGenerationMode::Pwm8Bit => 0x00FFu16,
                WaveformGenerationMode::Pwm9Bit => 0x01FFu16,
                WaveformGenerationMode::Pwm10Bit => 0x03FFu16,
                WaveformGenerationMode::Ctc => self.spec_active_ocr()[0],
                WaveformGenerationMode::FastPwm8Bit => 0x00FFu16,
                WaveformGenerationMode::FastPwm9Bit => 0x01FFu16,
                WaveformGenerationMode::FastPwm10Bit => 0x03FFu16,
                WaveformGenerationMode::PwmPhaseFreqOcrA => self.spec_active_ocr()[0],
                WaveformGenerationMode::PwmPhaseOcrA => self.spec_active_ocr()[0],
                WaveformGenerationMode::FastPwmOcrA => self.spec_active_ocr()[0],
                _ => 0u16,
            },
    {
        match self.waveform_mode {
            WaveformGenerationMode::Normal => 0xFFFF,
            WaveformGenerationMode::Pwm8Bit => 0x00FF,
            WaveformGenerationMode::Pwm9Bit => 0x01FF,
            WaveformGenerationMode::Pwm10Bit => 0x03FF,
            WaveformGenerationMode::Ctc => self.active_ocr[0],
            WaveformGenerationMode::FastPwm8Bit => 0x00FF,
            WaveformGenerationMode::FastPwm9Bit => 0x01FF,
            WaveformGenerationMode::FastPwm10Bit => 0x03FF,
            WaveformGenerationMode::PwmPhaseFreqOcrA => self.active_ocr[0],
            WaveformGenerationMode::PwmPhaseOcrA => self.active_ocr[0],
            WaveformGenerationMode::FastPwmOcrA => self.active_ocr[0],
            _ => 0,
        }
    }

    /// Fires output-compare unit `i`: drives its pin per the unit's
    /// mode and raises its interrupt when unmasked.
    pub fn update_oc(
        &mut self,
        i: usize,
        output_changes: &mut Vec<(PinId, PinState)>,
        interrupt: &mut bool,
    )
        requires
            old(self).wf(),
            i < 3,
        ensures
            final(self).wf(),
            final(self).spec_pins()[i as int] == match old(self).spec_com()[i as int] {
                CompareOutputMode::Disabled => old(self).spec_pins()[i as int],
                CompareOutputMode::Toggle => !old(self).spec_pins()[i as int],
                CompareOutputMode::Clear => false,
                CompareOutputMode::SetHigh => true,
            },
            old(self).spec_com()[i as int] is Disabled ==> final(output_changes)@ == old(
                output_changes,
            )@,
            !(old(self).spec_com()[i as int] is Disabled) ==> final(output_changes)@ =~= old(
                output_changes,
            )@.push(
                (
                    old(self).spec_pin_ids()[i as int],
                    if final(self).spec_pins()[i as int] {
                        PinState::High
                    } else {
                        PinState::Low
                    },
                ),
            ),
            forall|j: int|
                0 <= j < 3 && j != i ==> final(self).spec_pins()[j] == old(self).spec_pins()[j],
            final(self).spec_flags().oc@[i as int] == (old(self).spec_masks().oc@[i as int]
                || old(self).spec_flags().oc@[i as int]),
            forall|j: int|
                0 <= j < 3 && j != i ==> final(self).spec_flags().oc@[j] == old(
                    self,
                ).spec_flags().oc@[j],
            *final(interrupt) == (*old(interrupt) || old(self).spec_masks().oc@[i as int]),
            final(self).spec_counter() == old(self).spec_counter(),
            final(self).spec_com() == old(self).spec_com(),
            final(self).spec_reg_ocr() == old(self).spec_reg_ocr(),
            final(self).spec_active_ocr() == old(self).spec_active_ocr(),
            final(self).spec_pin_ids() == old(self).spec_pin_ids(),
            final(self).spec_clock_mode() == old(self).spec_clock_mode(),
            final(self).spec_waveform_mode() == old(self).spec_waveform_mode(),
            final(self).spec_masks() == old(self).spec_masks(),
            final(self).spec_flags().overflow == old(self).spec_flags().overflow,
            final(self).spec_flags().input_capture == old(self).spec_flags().input_capture,
    {
        match self.compare_output_mode[i] {
            CompareOutputMode::Disabled => {
                proof {
                    assert(self.pins@ =~= old(self).pins@.update(
                        i as int,
                        old(self).pins@[i as int],
                    ));
                }
            },
            CompareOutputMode::Toggle => {
                let v = !self.pins[i];
                set_bool(&mut self.pins, i, v);
                output_changes.push(
                    (
                        self.pin_ids[i],
                        if v {
                            PinState::High
                        } else {
                            PinState::Low
                        },
                    ),
                );
            },
            CompareOutputMode::Clear => {
                set_bool(&mut self.pins, i, false);
                output_changes.push((self.pin_ids[i], PinState::Low));
            },
            CompareOutputMode::SetHigh => {
                set_bool(&mut self.pins, i, true);
                output_changes.push((self.pin_ids[i], PinState::High));
            },
        }
        if self.interrupt_masks.oc[i] {
            set_bool(&mut self.interrupt_flags.oc, i, true);
            *interrupt = true;
        } else {
            proof {
                assert(self.interrupt_flags.oc@ =~= self.interrupt_flags.oc@.update(
                    i as int,
                    self.interrupt_flags.oc@[i as int],
                ));
            }
        }
    }

    /// Advances the timer by one system-clock cycle, honouring the
    /// prescaler: the counter ticks exactly when the prescaler count
    /// selects this cycle for the configured clock mode.  External
    /// clocking is not modelled.
    pub fn tick_prescaler(
        &mut self,
        prescaler: u16,
        output_changes: &mut Vec<(PinId, PinState)>,
        interrupt: &mut bool,
    )
        requires
            old(self).wf(),
            !(old(self).spec_clock_mode() == ClockMode::ExternalFalling),
            !(old(self).spec_clock_mode() == ClockMode::ExternalRising),
            !(old(self).spec_waveform_mode() == WaveformGenerationMode::PwmPhaseFreqIcr),
            !(old(self).spec_waveform_mode() == WaveformGenerationMode::PwmPhaseIcr),
            !(old(self).spec_waveform_mode() == WaveformGenerationMode::CtcIcr),
            !(old(self).spec_waveform_mode() == WaveformGenerationMode::FastPwmIcr),
            !(old(self).spec_waveform_mode() == WaveformGenerationMode::Reserved),
        ensures
            final(self).wf(),
            spec_should_tick(old(self).spec_clock_mode(), prescaler) ==> Self::tick_effect(
                *old(self),
                *final(self),
                old(output_changes)@,
                final(output_changes)@,
                *old(interrupt),
                *final(interrupt),
            ),
            !spec_should_tick(old(self).spec_clock_mode(), prescaler) ==> *final(self) == *old(
                self,
            ) && final(output_changes)@ == old(output_changes)@ && *final(interrupt) == *old(
                interrupt,
            ),
    {
        let should_tick = match self.clock_mode {
            ClockMode::Disabled => false,
            ClockMode::Clk1 => true,
            ClockMode::Clk8 => prescaler % 8 == 0,
            ClockMode::Clk64 => prescaler % 64 == 0,
            ClockMode::Clk256 => prescaler % 256 == 0,
            ClockMode::Clk1024 => prescaler == 0,
            _ => false,
        };
        if should_tick {
            self.tick(output_changes, interrupt);
        }
    }

    /// Advances the counter by one: fires the compare units that match,
    /// wraps at the top value — reloading the double-buffered compare
    /// registers in the phase-correct regimes — and raises the overflow
    /// interrupt where the regime calls for it.
    #[verifier::loop_isolation(false)]
    fn tick(&mut self, output_changes: &mut Vec<(PinId, PinState)>, interrupt: &mut bool)
        requires
            old(self).wf(),
            !(old(self).spec_waveform_mode() == WaveformGenerationMode::PwmPhaseFreqIcr),
            !(old(self).spec_waveform_mode() == WaveformGenerationMode::PwmPhaseIcr),
            !(old(self).spec_waveform_mode() == WaveformGenerationMode::CtcIcr),
            !(old(self).spec_waveform_mode() == WaveformGenerationMode::FastPwmIcr),
            !(old(self).spec_waveform_mode() == WaveformGenerationMode::Reserved),
        ensures
            Self::tick_effect(
                *old(self),
                *final(self),
                old(output_changes)@,
                final(output_changes)@,
                *old(interrupt),
                *final(interrupt),
            ),
    {
        let mut i: usize = 0;
        while i < 3
            invariant
                self.wf(),
                0 <= i <= 3,
                forall|j: int|
                    0 <= j < i ==> #[trigger] self.spec_pins()[j] == (if old(
                        self,
                    ).spec_active_ocr()[j] == old(self).spec_counter() {
                        com_apply(old(self).spec_com()[j], old(self).spec_pins()[j])
                    } else {
                        old(self).spec_pins()[j]
                    }),
                forall|j: int|
                    i <= j < 3 ==> #[trigger] self.spec_pins()[j] == old(self).spec_pins()[j],
                forall|j: int|
                    0 <= j < i ==> #[trigger] self.spec_flags().oc@[j] == (old(
                        self,
                    ).spec_flags().oc@[j] || (old(self).spec_active_ocr()[j] == old(
                        self,
                    ).spec_counter() && old(self).spec_masks().oc@[j])),
                forall|j: int|
                    i <= j < 3 ==> #[trigger] self.spec_flags().oc@[j] == old(
                        self,
                    ).spec_flags().oc@[j],
                output_changes@ == Self::oc_outputs(*old(self), old(output_changes)@, i as int),
                *interrupt == (*old(interrupt) || exists|j: int|
                    0 <= j < i && old(self).spec_active_ocr()[j] == old(self).spec_counter()
                        && old(self).spec_masks().oc@[j]),
                self.spec_counter() == old(self).spec_counter(),
                self.spec_reg_ocr() == old(self).spec_reg_ocr(),
                self.spec_active_ocr() == old(self).spec_active_ocr(),
                self.spec_com() == old(self).spec_com(),
                self.spec_pin_ids() == old(self).spec_pin_ids(),
                self.spec_clock_mode() == old(self).spec_clock_mode(),
                self.spec_waveform_mode() == old(self).spec_waveform_mode(),
                self.spec_masks() == old(self).spec_masks(),
                self.spec_flags().overflow == old(self).spec_flags().overflow,
                self.spec_flags().input_capture == old(self).spec_flags().input_capture,
            decreases 3 - i,
        {
            let ghost pre = *self;
            let ghost outs_pre = output_changes@;
            let ghost intr_pre = *interrupt;
            let ghost fired = pre.spec_active_ocr()[i as int] == pre.spec_counter();
            proof {
                assert(pre.spec_flags().oc@[i as int] == old(self).spec_flags().oc@[i as int]);
                assert(pre.spec_pins()[i as int] == old(self).spec_pins()[i as int]);
                assert(pre.spec_masks().oc@ == old(self).spec_masks().oc@);
                assert(pre.spec_com() == old(self).spec_com());
                assert(fired == (old(self).spec_active_ocr()[i as int] == old(
                    self,
                ).spec_counter()));
            }
            if self.active_ocr[i] == self.counter {
                self.update_oc(i, output_changes, interrupt);
            } else {
                proof {
                    assert(*self == pre);
                }
            }
            proof {
                if fired {
                    assert(output_changes@ == Self::oc_outputs(
                        *old(self),
                        old(output_changes)@,
                        i as int + 1,
                    ));
                    assert(self.spec_flags().oc@[i as int] == (pre.spec_masks().oc@[i as int]
                        || pre.spec_flags().oc@[i as int]));
                } else {
                    assert(output_changes@ == outs_pre);
                }
                assert forall|j: int|
                    0 <= j < i + 1 implies self.spec_flags().oc@[j] == (old(
                    self,
                ).spec_flags().oc@[j] || (old(self).spec_active_ocr()[j] == old(
                    self,
                ).spec_counter() && old(self).spec_masks().oc@[j])) by {
                    if j < i {
                        assert(self.spec_flags().oc@[j] == pre.spec_flags().oc@[j]);
                    } else {
                        assert(j == i as int);
                        if fired {
                            assert(self.spec_flags().oc@[j] == (old(self).spec_masks().oc@[j]
                                || old(self).spec_flags().oc@[j]));
                        } else {
                            assert(self.spec_flags().oc@[j] == old(self).spec_flags().oc@[j]);
                        }
                    }
                }
                assert forall|j: int|
                    0 <= j < i + 1 implies self.spec_pins()[j] == (if old(
                    self,
                ).spec_active_ocr()[j] == old(self).spec_counter() {
                    com_apply(old(self).spec_com()[j], old(self).spec_pins()[j])
                } else {
                    old(self).spec_pins()[j]
                }) by {
                    if j < i {
                        assert(self.spec_pins()[j] == pre.spec_pins()[j]);
                    }
                }
            }
            i = i + 1;
        }
        let top = self.top_value();
        let ghost mid = *self;
        let ghost outs_mid = output_changes@;
        let ghost intr_mid = *interrupt;
        if self.counter == top {
            self.counter = 0;
            match self.waveform_mode {
                WaveformGenerationMode::Pwm8Bit
                | WaveformGenerationMode::Pwm9Bit
                | WaveformGenerationMode::Pwm10Bit
                | WaveformGenerationMode::PwmPhaseOcrA => {
                    self.active_ocr = clone_u16s(&self.reg_ocr);
                },
                WaveformGenerationMode::FastPwm8Bit
                | WaveformGenerationMode::FastPwm9Bit
                | WaveformGenerationMode::FastPwm10Bit
                | WaveformGenerationMode::FastPwmOcrA => {
                    if self.interrupt_masks.overflow {
                        self.interrupt_flags.overflow = true;
                        *interrupt = true;
                    }
                },
                _ => {},
            }
        } else {
            if self.counter == 0xFFFF && self.interrupt_masks.overflow {
                match self.waveform_mode {
                    WaveformGenerationMode::Normal | WaveformGenerationMode::Ctc => {
                        self.interrupt_flags.overflow = true;
                        *interrupt = true;
                    },
                    _ => {},
                }
            }
            self.counter = self.counter.wrapping_add(1);
        }
        proof {
            let pre0 = *old(self);
            let at_top = pre0.spec_counter() == spec_top(
                pre0.spec_waveform_mode(),
                pre0.spec_active_ocr()[0],
            );
            assert(top == spec_top(pre0.spec_waveform_mode(), pre0.spec_active_ocr()[0]));
            assert(self.spec_counter() == (if at_top {
                0u16
            } else if pre0.spec_counter() == 0xFFFF {
                0u16
            } else {
                (pre0.spec_counter() + 1) as u16
            }));
            assert(self.spec_active_ocr() == (if at_top && reloads_at_top(
                pre0.spec_waveform_mode(),
            ) {
                pre0.spec_reg_ocr()
            } else {
                pre0.spec_active_ocr()
            }));
            assert(self.spec_flags().overflow == (pre0.spec_flags().overflow || (at_top
                && overflows_at_top(pre0.spec_waveform_mode()) && pre0.spec_masks().overflow) || (
            !at_top && pre0.spec_counter() == 0xFFFF && overflows_at_max(
                pre0.spec_waveform_mode(),
            ) && pre0.spec_masks().overflow)));
            assert(*interrupt == (intr_mid || (at_top && overflows_at_top(
                pre0.spec_waveform_mode(),
            ) && pre0.spec_masks().overflow) || (!at_top && pre0.spec_counter() == 0xFFFF
                && overflows_at_max(pre0.spec_waveform_mode()) && pre0.spec_masks().overflow)));
        }
    }

    /// Reads control register A    /// Reads control register A: the compare-output modes and the low
    /// waveform bits.
    pub fn read_tccra(&self) -> (r: u8)
        requires
            self.wf(),
        ensures
            r == ((com_bits(self.spec_com()[0]) << 6u8) | (com_bits(self.spec_com()[1]) << 4u8)
                | (com_bits(self.spec_com()[2]) << 2u8) | (wgm_bits(self.spec_waveform_mode())
                & 0x3)),
    {
        (com_of_bits_back(self.compare_output_mode[0]) << 6u8) | (com_of_bits_back(
            self.compare_output_mode[1],
        ) << 4u8) | (com_of_bits_back(self.compare_output_mode[2]) << 2u8) | (wgm_of_bits_back(
            self.waveform_mode,
        ) & 0x3)
    }

    /// Reads control register B: the high waveform bits and the clock
    /// mode.
    pub fn read_tccrb(&self) -> (r: u8)
        ensures
            r == (((wgm_bits(self.spec_waveform_mode()) & 0xC) << 1u8) | clock_bits(
                self.spec_clock_mode(),
            )),
    {
        ((wgm_of_bits_back(self.waveform_mode) & 0xC) << 1u8) | clock_of_bits_back(
            self.clock_mode,
        )
    }

    /// Reads the low byte of the counter.
    pub fn read_tcntl(&self) -> (r: u8)
        ensures
            r == (self.spec_counter() & 0xff) as u8,
    {
        (self.counter & 0xff) as u8
    }

    /// Reads the high byte of the counter.
    pub fn read_tcnth(&self) -> (r: u8)
        ensures
            r == (self.spec_counter() >> 8u16) as u8,
    {
        (self.counter >> 8u16) as u8
    }

    /// Reads the low byte of compare register A.
    pub fn read_ocral(&self) -> (r: u8)
        requires
            self.wf(),
        ensures
            r == (self.spec_reg_ocr()[0] & 0xff) as u8,
    {
        (self.reg_ocr[0] & 0xff) as u8
    }

    /// Reads the high byte of compare register A.
    pub fn read_ocrah(&self) -> (r: u8)
        requires
            self.wf(),
        ensures
            r == (self.spec_reg_ocr()[0] >> 8u16) as u8,
    {
        (self.reg_ocr[0] >> 8u16) as u8
    }

    /// Reads the low byte of compare register B.
    pub fn read_ocrbl(&self) -> (r: u8)
        requires
            self.wf(),
        ensures
            r == (self.spec_reg_ocr()[1] & 0xff) as u8,
    {
        (self.reg_ocr[1] & 0xff) as u8
    }

    /// Reads the high byte of compare register B.
    pub fn read_ocrbh(&self) -> (r: u8)
        requires
            self.wf(),
        ensures
            r == (self.spec_reg_ocr()[1] >> 8u16) as u8,
    {
        (self.reg_ocr[1] >> 8u16) as u8
    }

    /// Reads the low byte of compare register C.
    pub fn read_ocrcl(&self) -> (r: u8)
        requires
            self.wf(),
        ensures
            r == (self.spec_reg_ocr()[2] & 0xff) as u8,
    {
        (self.reg_ocr[2] & 0xff) as u8
    }

    /// Reads the high byte of compare register C.
    pub fn read_ocrch(&self) -> (r: u8)
        requires
            self.wf(),
        ensures
            r == (self.spec_reg_ocr()[2] >> 8u16) as u8,
    {
        (self.reg_ocr[2] >> 8u16) as u8
    }

    /// Reads the interrupt-mask register.
    pub fn read_timsk(&self) -> (r: u8)
        requires
            self.wf(),
        ensures
            r == (((if self.spec_masks().input_capture {
                1u8
            } else {
                0u8
            }) << 5u8) | ((if self.spec_masks().oc@[2] {
                1u8
            } else {
                0u8
            }) << 3u8) | ((if self.spec_masks().oc@[1] {
                1u8
            } else {
                0u8
            }) << 2u8) | ((if self.spec_masks().oc@[0] {
                1u8
            } else {
                0u8
            }) << 1u8) | (if self.spec_masks().overflow {
                1u8
            } else {
                0u8
            })),
    {
        (bool_bit(self.interrupt_masks.input_capture) << 5u8) | (bool_bit(
            self.interrupt_masks.oc[2],
        ) << 3u8) | (bool_bit(self.interrupt_masks.oc[1]) << 2u8) | (bool_bit(
            self.interrupt_masks.oc[0],
        ) << 1u8) | bool_bit(self.interrupt_masks.overflow)
    }

    /// Reads the interrupt-flag register.
    pub fn read_tifr(&self) -> (r: u8)
        requires
            self.wf(),
        ensures
            r == (((if self.spec_flags().input_capture {
                1u8
            } else {
                0u8
            }) << 5u8) | ((if self.spec_flags().oc@[2] {
                1u8
            } else {
                0u8
            }) << 3u8) | ((if self.spec_flags().oc@[1] {
                1u8
            } else {
                0u8
            }) << 2u8) | ((if self.spec_flags().oc@[0] {
                1u8
            } else {
                0u8
            }) << 1u8) | (if self.spec_flags().overflow {
                1u8
            } else {
                0u8
            })),
    {
        (bool_bit(self.interrupt_flags.input_capture) << 5u8) | (bool_bit(
            self.interrupt_flags.oc[2],
        ) << 3u8) | (bool_bit(self.interrupt_flags.oc[1]) << 2u8) | (bool_bit(
            self.interrupt_flags.oc[0],
        ) << 1u8) | bool_bit(self.interrupt_flags.overflow)
    }

    /// The effect of handing the compare units' pins over between the
    /// timer and the port: for units 0 up to `k` in order, an enabled
    /// unit takes its pin — recording the timer's level and clearing
    /// the port's ownership mark — while a disabled unit returns it,
    /// recording the port's own level and setting the mark.
    pub open spec fn tccra_apply(
        gpio: Seq<(bool, PinState)>,
        outs: Seq<(PinId, PinState)>,
        coms: Seq<CompareOutputMode>,
        pins: Seq<bool>,
        pin_ids: Seq<PinId>,
        k: int,
    ) -> (Seq<(bool, PinState)>, Seq<(PinId, PinState)>)
        decreases k,
    {
        if k <= 0 {
            (gpio, outs)
        } else {
            let prev = Self::tccra_apply(gpio, outs, coms, pins, pin_ids, k - 1);
            let id = pin_ids[k - 1] as int;
            if !(coms[k - 1] is Disabled) {
                (
                    prev.0.update(id, (false, prev.0[id].1)),
                    prev.1.push(
                        (
                            pin_ids[k - 1],
                            if pins[k - 1] {
                                PinState::High
                            } else {
                                PinState::Low
                            },
                        ),
                    ),
                )
            } else {
                (prev.0.update(id, (true, prev.0[id].1)), prev.1.push((pin_ids[k - 1], prev.0[id].1)))
            }
        }
    }

    /// Writes control register A: decodes the compare-output modes and
    /// the low waveform bits, and hands each compare pin over between
    /// the timer and the port: an enabled unit drives its own level,
    /// a disabled one gives the pin back to the port.
    ///
    /// `gpio_pins` holds, per board pin, whether the port owns it and
    /// what the port would drive.
    #[verifier::loop_isolation(false)]
    pub fn write_tccra(
        &mut self,
        val: u8,
        output_changes: &mut Vec<(PinId, PinState)>,
        gpio_pins: &mut Vec<(bool, PinState)>,
    )
        requires
            old(self).wf(),
            forall|i: int|
                0 <= i < 3 ==> (#[trigger] old(self).spec_pin_ids()[i] as int) < old(
                    gpio_pins,
                )@.len(),
        ensures
            final(self).wf(),
            final(self).spec_com() =~= seq![
                spec_com_of_bits((val >> 6u8) & 0x3),
                spec_com_of_bits((val >> 4u8) & 0x3),
                spec_com_of_bits((val >> 2u8) & 0x3),
            ],
            final(self).spec_waveform_mode() == spec_wgm_of_bits(
                (wgm_bits(old(self).spec_waveform_mode()) & 0xC) | (val & 0x3),
            ),
            ({
                let applied = Self::tccra_apply(
                    old(gpio_pins)@,
                    old(output_changes)@,
                    final(self).spec_com(),
                    old(self).spec_pins(),
                    old(self).spec_pin_ids(),
                    3,
                );
                final(gpio_pins)@ == applied.0 && final(output_changes)@ == applied.1
            }),
            final(self).spec_counter() == old(self).spec_counter(),
            final(self).spec_clock_mode() == old(self).spec_clock_mode(),
            final(self).spec_reg_ocr() == old(self).spec_reg_ocr(),
            final(self).spec_active_ocr() == old(self).spec_active_ocr(),
            final(self).spec_pins() == old(self).spec_pins(),
            final(self).spec_pin_ids() == old(self).spec_pin_ids(),
            final(self).spec_masks() == old(self).spec_masks(),
            final(self).spec_flags() == old(self).spec_flags(),
    {
        let mut com: Vec<CompareOutputMode> = Vec::new();
        com.push(com_of_bits((val >> 6u8) & 0x3));
        com.push(com_of_bits((val >> 4u8) & 0x3));
        com.push(com_of_bits((val >> 2u8) & 0x3));
        proof {
            assert(com@ =~= seq![
                spec_com_of_bits((val >> 6u8) & 0x3),
                spec_com_of_bits((val >> 4u8) & 0x3),
                spec_com_of_bits((val >> 2u8) & 0x3),
            ]);
        }
        self.compare_output_mode = com;
        let low = wgm_of_bits_back(self.waveform_mode) & 0xC;
        self.waveform_mode = wgm_of_bits(low | (val & 0x3));
        let mut i: usize = 0;
        while i < 3
            invariant
                self.wf(),
                0 <= i <= 3,
                com@ == self.spec_com(),
                self.spec_pins() == old(self).spec_pins(),
                self.spec_pin_ids() == old(self).spec_pin_ids(),
                forall|j: int|
                    0 <= j < 3 ==> (#[trigger] self.spec_pin_ids()[j] as int) < gpio_pins@.len(),
                gpio_pins@.len() == old(gpio_pins)@.len(),
                ({
                    let applied = Self::tccra_apply(
                        old(gpio_pins)@,
                        old(output_changes)@,
                        com@,
                        old(self).spec_pins(),
                        old(self).spec_pin_ids(),
                        i as int,
                    );
                    gpio_pins@ == applied.0 && output_changes@ == applied.1
                }),
                self.spec_counter() == old(self).spec_counter(),
                self.spec_clock_mode() == old(self).spec_clock_mode(),
                self.spec_waveform_mode() == spec_wgm_of_bits(
                    (wgm_bits(old(self).spec_waveform_mode()) & 0xC) | (val & 0x3),
                ),
                self.spec_reg_ocr() == old(self).spec_reg_ocr(),
                self.spec_active_ocr() == old(self).spec_active_ocr(),
                self.spec_masks() == old(self).spec_masks(),
                self.spec_flags() == old(self).spec_flags(),
            decreases 3 - i,
        {
            let ghost gpre = gpio_pins@;
            let id = self.pin_ids[i] as usize;
            let owned_level = gpio_pins[id].1;
            let enabled = !matches!(self.compare_output_mode[i], CompareOutputMode::Disabled);
            if enabled {
                output_changes.push(
                    (
                        self.pin_ids[i],
                        if self.pins[i] {
                            PinState::High
                        } else {
                            PinState::Low
                        },
                    ),
                );
                set_pair(gpio_pins, id, (false, owned_level));
            } else {
                output_changes.push((self.pin_ids[i], owned_level));
                set_pair(gpio_pins, id, (true, owned_level));
            }
            proof {
                assert(gpre[id as int].1 == owned_level);
                assert(gpio_pins@ == gpre.update(id as int, gpio_pins@[id as int]));
            }
            i = i + 1;
        }
    }

    /// Writes control register B: the high waveform bits and the clock
    /// mode.
    pub fn write_tccrb(&mut self, val: u8)
        requires
            old(self).wf(),
        ensures
            final(self).wf(),
            final(self).spec_waveform_mode() == spec_wgm_of_bits(
                (wgm_bits(old(self).spec_waveform_mode()) & 0x3) | ((val & 0x18) >> 1u8),
            ),
            final(self).spec_clock_mode() == spec_clock_of_bits(val & 0x7),
            final(self).spec_counter() == old(self).spec_counter(),
            final(self).spec_reg_ocr() == old(self).spec_reg_ocr(),
            final(self).spec_active_ocr() == old(self).spec_active_ocr(),
            final(self).spec_com() == old(self).spec_com(),
            final(self).spec_pins() == old(self).spec_pins(),
            final(self).spec_pin_ids() == old(self).spec_pin_ids(),
    {
        let low = wgm_of_bits_back(self.waveform_mode) & 0x3;
        self.waveform_mode = wgm_of_bits(low | ((val & 0x18) >> 1u8));
        self.clock_mode = clock_of_bits(val & 0x7);
    }

    /// Writes the low byte of the counter.
    pub fn write_tcntl(&mut self, val: u8)
        ensures
            final(self).spec_counter() == ((old(self).spec_counter() & 0xFF00) | val as u16),
            final(self).wf() == old(self).wf(),
            final(self).spec_waveform_mode() == old(self).spec_waveform_mode(),
            final(self).spec_clock_mode() == old(self).spec_clock_mode(),
            final(self).spec_reg_ocr() == old(self).spec_reg_ocr(),
            final(self).spec_active_ocr() == old(self).spec_active_ocr(),
    {
        self.counter = (self.counter & 0xFF00) | (val as u16);
    }

    /// Writes the high byte of the counter.
    pub fn write_tcnth(&mut self, val: u8)
        ensures
            final(self).spec_counter() == ((old(self).spec_counter() & 0x00FF) | ((val as u16)
                << 8u16)),
            final(self).wf() == old(self).wf(),
            final(self).spec_waveform_mode() == old(self).spec_waveform_mode(),
            final(self).spec_clock_mode() == old(self).spec_clock_mode(),
            final(self).spec_reg_ocr() == old(self).spec_reg_ocr(),
            final(self).spec_active_ocr() == old(self).spec_active_ocr(),
    {
        self.counter = (self.counter & 0x00FF) | ((val as u16) << 8u16);
    }

    /// Whether writes to a compare register take effect immediately.
    pub open spec fn ocr_immediate(self) -> bool {
        self.spec_waveform_mode() == WaveformGenerationMode::Normal || self.spec_waveform_mode()
            == WaveformGenerationMode::Ctc || self.spec_waveform_mode()
            == WaveformGenerationMode::CtcIcr
    }

    /// Writes one byte of a buffered compare register; in the
    /// non-buffering regimes the active register follows at once.
    fn write_ocr_byte(&mut self, unit: usize, high: bool, val: u8)
        requires
            old(self).wf(),
            unit < 3,
        ensures
            final(self).wf(),
            final(self).spec_reg_ocr() =~= old(self).spec_reg_ocr().update(
                unit as int,
                (if high {
                    (old(self).spec_reg_ocr()[unit as int] & 0x00FF) | ((val as u16) << 8u16)
                } else {
                    (old(self).spec_reg_ocr()[unit as int] & 0xFF00) | (val as u16)
                }),
            ),
            old(self).ocr_immediate() ==> final(self).spec_active_ocr() =~= old(
                self,
            ).spec_active_ocr().update(unit as int, final(self).spec_reg_ocr()[unit as int]),
            !old(self).ocr_immediate() ==> final(self).spec_active_ocr() == old(
                self,
            ).spec_active_ocr(),
            final(self).spec_counter() == old(self).spec_counter(),
            final(self).spec_waveform_mode() == old(self).spec_waveform_mode(),
            final(self).spec_clock_mode() == old(self).spec_clock_mode(),
            final(self).spec_com() == old(self).spec_com(),
            final(self).spec_pins() == old(self).spec_pins(),
            final(self).spec_pin_ids() == old(self).spec_pin_ids(),
            final(self).spec_masks() == old(self).spec_masks(),
            final(self).spec_flags() == old(self).spec_flags(),
    {
        let cur = self.reg_ocr[unit];
        let newv: u16 = if high {
            (cur & 0x00FF) | ((val as u16) << 8u16)
        } else {
            (cur & 0xFF00) | (val as u16)
        };
        set_u16(&mut self.reg_ocr, unit, newv);
        match self.waveform_mode {
            WaveformGenerationMode::Normal
            | WaveformGenerationMode::Ctc
            | WaveformGenerationMode::CtcIcr => {
                set_u16(&mut self.active_ocr, unit, newv);
            },
            _ => {},
        }
    }

    /// Writes the low byte of compare register A.
    pub fn write_ocral(&mut self, val: u8)
        requires
            old(self).wf(),
        ensures
            final(self).wf(),
            final(self).spec_reg_ocr() =~= old(self).spec_reg_ocr().update(
                0,
                ((old(self).spec_reg_ocr()[0] & 0xFF00) | (
            val as u16)),
            ),
            old(self).ocr_immediate() ==> final(self).spec_active_ocr() =~= old(
                self,
            ).spec_active_ocr().update(0, final(self).spec_reg_ocr()[0]),
            !old(self).ocr_immediate() ==> final(self).spec_active_ocr() == old(
                self,
            ).spec_active_ocr(),
            final(self).spec_counter() == old(self).spec_counter(),
            final(self).spec_waveform_mode() == old(self).spec_waveform_mode(),
            final(self).spec_clock_mode() == old(self).spec_clock_mode(),
            final(self).spec_com() == old(self).spec_com(),
            final(self).spec_pins() == old(self).spec_pins(),
            final(self).spec_pin_ids() == old(self).spec_pin_ids(),
            final(self).spec_masks() == old(self).spec_masks(),
            final(self).spec_flags() == old(self).spec_flags(),
    {
        self.write_ocr_byte(0, false, val);
    }

    /// Writes the high byte of compare register A.
    pub fn write_ocrah(&mut self, val: u8)
        requires
            old(self).wf(),
        ensures
            final(self).wf(),
            final(self).spec_reg_ocr() =~= old(self).spec_reg_ocr().update(
                0,
                ((old(self).spec_reg_ocr()[0] & 0x00FF) | ((
            val as u16) << 8u16)),
            ),
            old(self).ocr_immediate() ==> final(self).spec_active_ocr() =~= old(
                self,
            ).spec_active_ocr().update(0, final(self).spec_reg_ocr()[0]),
            !old(self).ocr_immediate() ==> final(self).spec_active_ocr() == old(
                self,
            ).spec_active_ocr(),
            final(self).spec_counter() == old(self).spec_counter(),
            final(self).spec_waveform_mode() == old(self).spec_waveform_mode(),
            final(self).spec_clock_mode() == old(self).spec_clock_mode(),
            final(self).spec_com() == old(self).spec_com(),
            final(self).spec_pins() == old(self).spec_pins(),
            final(self).spec_pin_ids() == old(self).spec_pin_ids(),
            final(self).spec_masks() == old(self).spec_masks(),
            final(self).spec_flags() == old(self).spec_flags(),
    {
        self.write_ocr_byte(0, true, val);
    }

    /// Writes the low byte of compare register B.
    pub fn write_ocrbl(&mut self, val: u8)
        requires
            old(self).wf(),
        ensures
            final(self).wf(),
            final(self).spec_reg_ocr() =~= old(self).spec_reg_ocr().update(
                1,
                ((old(self).spec_reg_ocr()[1] & 0xFF00) | (
            val as u16)),
            ),
            old(self).ocr_immediate() ==> final(self).spec_active_ocr() =~= old(
                self,
            ).spec_active_ocr().update(1, final(self).spec_reg_ocr()[1]),
            !old(self).ocr_immediate() ==> final(self).spec_active_ocr() == old(
                self,
            ).spec_active_ocr(),
            final(self).spec_counter() == old(self).spec_counter(),
            final(self).spec_waveform_mode() == old(self).spec_waveform_mode(),
            final(self).spec_clock_mode() == old(self).spec_clock_mode(),
            final(self).spec_com() == old(self).spec_com(),
            final(self).spec_pins() == old(self).spec_pins(),
            final(self).spec_pin_ids() == old(self).spec_pin_ids(),
            final(self).spec_masks() == old(self).spec_masks(),
            final(self).spec_flags() == old(self).spec_flags(),
    {
        self.write_ocr_byte(1, false, val);
    }

    /// Writes the high byte of compare register B.
    pub fn write_ocrbh(&mut self, val: u8)
        requires
            old(self).wf(),
        ensures
            final(self).wf(),
            final(self).spec_reg_ocr() =~= old(self).spec_reg_ocr().update(
                1,
                ((old(self).spec_reg_ocr()[1] & 0x00FF) | ((
            val as u16) << 8u16)),
            ),
            old(self).ocr_immediate() ==> final(self).spec_active_ocr() =~= old(
                self,
            ).spec_active_ocr().update(1, final(self).spec_reg_ocr()[1]),
            !old(self).ocr_immediate() ==> final(self).spec_active_ocr() == old(
                self,
            ).spec_active_ocr(),
            final(self).spec_counter() == old(self).spec_counter(),
            final(self).spec_waveform_mode() == old(self).spec_waveform_mode(),
            final(self).spec_clock_mode() == old(self).spec_clock_mode(),
            final(self).spec_com() == old(self).spec_com(),
            final(self).spec_pins() == old(self).spec_pins(),
            final(self).spec_pin_ids() == old(self).spec_pin_ids(),
            final(self).spec_masks() == old(self).spec_masks(),
            final(self).spec_flags() == old(self).spec_flags(),
    {
        self.write_ocr_byte(1, true, val);
    }

    /// Writes the low byte of compare register C.
    pub fn write_ocrcl(&mut self, val: u8)
        requires
            old(self).wf(),
        ensures
            final(self).wf(),
            final(self).spec_reg_ocr() =~= old(self).spec_reg_ocr().update(
                2,
                ((old(self).spec_reg_ocr()[2] & 0xFF00) | (
            val as u16)),
            ),
            old(self).ocr_immediate() ==> final(self).spec_active_ocr() =~= old(
                self,
            ).spec_active_ocr().update(2, final(self).spec_reg_ocr()[2]),
            !old(self).ocr_immediate() ==> final(self).spec_active_ocr() == old(
                self,
            ).spec_active_ocr(),
            final(self).spec_counter() == old(self).spec_counter(),
            final(self).spec_waveform_mode() == old(self).spec_waveform_mode(),
            final(self).spec_clock_mode() == old(self).spec_clock_mode(),
            final(self).spec_com() == old(self).spec_com(),
            final(self).spec_pins() == old(self).spec_pins(),
            final(self).spec_pin_ids() == old(self).spec_pin_ids(),
            final(self).spec_masks() == old(self).spec_masks(),
            final(self).spec_flags() == old(self).spec_flags(),
    {
        self.write_ocr_byte(2, false, val);
    }

    /// Writes the high byte of compare register C.
    pub fn write_ocrch(&mut self, val: u8)
        requires
            old(self).wf(),
        ensures
            final(self).wf(),
            final(self).spec_reg_ocr() =~= old(self).spec_reg_ocr().update(
                2,
                ((old(self).spec_reg_ocr()[2] & 0x00FF) | ((
            val as u16) << 8u16)),
            ),
            old(self).ocr_immediate() ==> final(self).spec_active_ocr() =~= old(
                self,
            ).spec_active_ocr().update(2, final(self).spec_reg_ocr()[2]),
            !old(self).ocr_immediate() ==> final(self).spec_active_ocr() == old(
                self,
            ).spec_active_ocr(),
            final(self).spec_counter() == old(self).spec_counter(),
            final(self).spec_waveform_mode() == old(self).spec_waveform_mode(),
            final(self).spec_clock_mode() == old(self).spec_clock_mode(),
            final(self).spec_com() == old(self).spec_com(),
            final(self).spec_pins() == old(self).spec_pins(),
            final(self).spec_pin_ids() == old(self).spec_pin_ids(),
            final(self).spec_masks() == old(self).spec_masks(),
            final(self).spec_flags() == old(self).spec_flags(),
    {
        self.write_ocr_byte(2, true, val);
    }

    /// Writes the interrupt-mask register.
    pub fn write_timsk(&mut self, val: u8)
        requires
            old(self).wf(),
        ensures
            final(self).wf(),
            final(self).spec_masks().input_capture == spec_bit32(val as u32, 5),
            final(self).spec_masks().oc@ =~= seq![
                spec_bit32(val as u32, 1),
                spec_bit32(val as u32, 2),
                spec_bit32(val as u32, 3),
            ],
            final(self).spec_masks().overflow == spec_bit32(val as u32, 0),
            final(self).spec_counter() == old(self).spec_counter(),
            final(self).spec_waveform_mode() == old(self).spec_waveform_mode(),
            final(self).spec_clock_mode() == old(self).spec_clock_mode(),
            final(self).spec_reg_ocr() == old(self).spec_reg_ocr(),
            final(self).spec_active_ocr() == old(self).spec_active_ocr(),
            final(self).spec_com() == old(self).spec_com(),
            final(self).spec_pins() == old(self).spec_pins(),
            final(self).spec_pin_ids() == old(self).spec_pin_ids(),
            final(self).spec_flags() == old(self).spec_flags(),
    {
        let mut oc: Vec<bool> = Vec::new();
        oc.push(bit32(val as u32, 1));
        oc.push(bit32(val as u32, 2));
        oc.push(bit32(val as u32, 3));
        proof {
            assert(oc@ =~= seq![
                spec_bit32(val as u32, 1),
                spec_bit32(val as u32, 2),
                spec_bit32(val as u32, 3),
            ]);
        }
        self.interrupt_masks = Timer16Interrupts {
            overflow: bit32(val as u32, 0),
            oc,
            input_capture: bit32(val as u32, 5),
        };
    }

    /// Writes the interrupt-flag register: a set bit clears the
    /// matching flag, as the hardware defines.
    pub fn write_tifr(&mut self, val: u8)
        requires
            old(self).wf(),
        ensures
            final(self).wf(),
            final(self).spec_flags().input_capture == (old(self).spec_flags().input_capture
                && !spec_bit32(val as u32, 5)),
            final(self).spec_flags().oc@ =~= seq![
                old(self).spec_flags().oc@[0] && !spec_bit32(val as u32, 1),
                old(self).spec_flags().oc@[1] && !spec_bit32(val as u32, 2),
                old(self).spec_flags().oc@[2] && !spec_bit32(val as u32, 3),
            ],
            final(self).spec_flags().overflow == (old(self).spec_flags().overflow
                && !spec_bit32(val as u32, 0)),
            final(self).spec_counter() == old(self).spec_counter(),
            final(self).spec_waveform_mode() == old(self).spec_waveform_mode(),
            final(self).spec_clock_mode() == old(self).spec_clock_mode(),
            final(self).spec_reg_ocr() == old(self).spec_reg_ocr(),
            final(self).spec_active_ocr() == old(self).spec_active_ocr(),
            final(self).spec_com() == old(self).spec_com(),
            final(self).spec_pins() == old(self).spec_pins(),
            final(self).spec_pin_ids() == old(self).spec_pin_ids(),
            final(self).spec_masks() == old(self).spec_masks(),
    {
        let mut oc: Vec<bool> = Vec::new();
        oc.push(self.interrupt_flags.oc[0] && !bit32(val as u32, 1));
        oc.push(self.interrupt_flags.oc[1] && !bit32(val as u32, 2));
        oc.push(self.interrupt_flags.oc[2] && !bit32(val as u32, 3));
        proof {
            assert(oc@ =~= seq![
                old(self).interrupt_flags.oc@[0] && !spec_bit32(val as u32, 1),
                old(self).interrupt_flags.oc@[1] && !spec_bit32(val as u32, 2),
                old(self).interrupt_flags.oc@[2] && !spec_bit32(val as u32, 3),
            ]);
        }
        self.interrupt_flags = Timer16Interrupts {
            overflow: self.interrupt_flags.overflow && !bit32(val as u32, 0),
            oc,
            input_capture: self.interrupt_flags.input_capture && !bit32(val as u32, 5),
        };
    }
}

/// The byte encoding of a compare-output mode.
fn com_of_bits_back(m: CompareOutputMode) -> (r: u8)
    ensures
        r == com_bits(m),
{
    match m {
        CompareOutputMode::Disabled => 0,
        CompareOutputMode::Toggle => 1,
        CompareOutputMode::Clear => 2,
        CompareOutputMode::SetHigh => 3,
    }
}

/// The byte encoding of a clock mode.
fn clock_of_bits_back(m: ClockMode) -> (r: u8)
    ensures
        r == clock_bits(m),
{
    match m {
        ClockMode::Disabled => 0,
        ClockMode::Clk1 => 1,
        ClockMode::Clk8 => 2,
        ClockMode::Clk64 => 3,
        ClockMode::Clk256 => 4,
        ClockMode::Clk1024 => 5,
        ClockMode::ExternalFalling => 6,
        ClockMode::ExternalRising => 7,
    }
}

/// The byte encoding of a waveform mode.
fn wgm_of_bits_back(m: WaveformGenerationMode) -> (r: u8)
    ensures
        r == wgm_bits(m),
{
    match m {
        WaveformGenerationMode::Normal => 0,
        WaveformGenerationMode::Pwm8Bit => 1,
        WaveformGenerationMode::Pwm9Bit => 2,
        WaveformGenerationMode::Pwm10Bit => 3,
        WaveformGenerationMode::Ctc => 4,
        WaveformGenerationMode::FastPwm8Bit => 5,
        WaveformGenerationMode::FastPwm9Bit => 6,
        WaveformGenerationMode::FastPwm10Bit => 7,
        WaveformGenerationMode::PwmPhaseFreqIcr => 8,
        WaveformGenerationMode::PwmPhaseFreqOcrA => 9,
        WaveformGenerationMode::PwmPhaseIcr => 10,
        WaveformGenerationMode::PwmPhaseOcrA => 11,
        WaveformGenerationMode::CtcIcr => 12,
        WaveformGenerationMode::Reserved => 13,
        WaveformGenerationMode::FastPwmIcr => 14,
        WaveformGenerationMode::FastPwmOcrA => 15,
    }
}

/// `1` for `true`, `0` for `false`.
fn bool_bit(b: bool) -> (r: u8)
    ensures
        r == (if b {
            1u8
        } else {
            0u8
        }),
{
    if b {
        1
    } else {
        0
    }
}

/// Replaces element `i` of a pin-ownership table.
fn set_pair(v: &mut Vec<(bool, PinState)>, i: usize, val: (bool, PinState))
    requires
        i < old(v)@.len(),
    ensures
        final(v)@ =~= old(v)@.update(i as int, val),
{
    v.remove(i);
    v.insert(i, val);
    proof {
        assert(v@ =~= old(v)@.update(i as int, val));
    }
}

/// Replaces element `i` of a boolean vector.
fn set_bool(v: &mut Vec<bool>, i: usize, b: bool)
    requires
        i < old(v)@.len(),
    ensures
        final(v)@ =~= old(v)@.update(i as int, b),
{
    v.remove(i);
    v.insert(i, b);
    proof {
        assert(v@ =~= old(v)@.update(i as int, b));
    }
}

/// Replaces element `i` of a 16-bit vector.
fn set_u16(v: &mut Vec<u16>, i: usize, val: u16)
    requires
        i < old(v)@.len(),
    ensures
        final(v)@ =~= old(v)@.update(i as int, val),
{
    v.remove(i);
    v.insert(i, val);
    proof {
        assert(v@ =~= old(v)@.update(i as int, val));
    }
}

/// A fresh vector holding the same values.
fn clone_u16s(v: &Vec<u16>) -> (r: Vec<u16>)
    ensures
        r@ == v@,
{
    let mut out: Vec<u16> = Vec::new();
    let mut i: usize = 0;
    while i < v.len()
        invariant
            0 <= i <= v@.len(),
            out@ =~= v@.take(i as int),
        decreases v@.len() - i,
    {
        out.push(v[i]);
        proof {
            assert(v@.take(i + 1) =~= v@.take(i as int).push(v@[i as int]));
        }
        i = i + 1;
    }
    proof {
        assert(v@.take(v@.len() as int) =~= v@);
    }
    out
}

} // verus!
