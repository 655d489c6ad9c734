use amber::components::avr::io_controller::gpio::GpioPort;
use amber::components::avr::io_controller::timer16::Timer16;
use amber::board::Board;
use amber::pins::{PinId, PinState};
use amber::vcd::config::VcdConfig;

#[test]
fn gpio_drives_pins_from_port_and_ddr() {
    let mut g = GpioPort::new();
    // Outputs: bit set in DDR drives strongly, else weakly or not at all.
    g.write_ddr(0b0000_1111);
    g.write_port(0b0101_0101);
    let changes = g.get_output_changes().clone();
    // Pin 0: ddr=1 port=1 -> High; pin 1: ddr=1 port=0 -> Low;
    // pin 4: ddr=0 port=1 -> WeakHigh; pin 5: ddr=0 port=0 -> Z.
    assert!(changes.contains(&(0, PinState::High)));
    assert!(changes.contains(&(1, PinState::Low)));
    assert!(changes.contains(&(4, PinState::WeakHigh)));
    assert!(!changes.iter().any(|&(p, s)| p == 5 && s != PinState::Z));
}

#[test]
fn gpio_latches_inputs_on_rising_edge() {
    let mut g = GpioPort::new();
    g.set_input_pin(3, PinState::WeakHigh);
    // Not visible before the edge.
    assert_eq!(g.read_pin(), 0);
    g.clock_rising_edge();
    // Weak drives read as strong.
    assert_eq!(g.read_pin(), 0b0000_1000);
}

#[test]
fn gpio_write_pin_toggles_port_bits() {
    let mut g = GpioPort::new();
    g.write_port(0b1100_0011);
    g.write_pin(0b0100_0001);
    assert_eq!(g.read_port(), 0b1000_0010);
}

#[test]
fn timer_counts_and_wraps_in_ctc_mode() {
    let pin_ids: Vec<PinId> = vec![10, 11, 12];
    let mut t = Timer16::new(pin_ids);
    // CTC mode (wgm = 4): tccrb wgm bits = 0b01 in bits 4..3, clock = 1.
    t.write_tccrb(0b0000_1001);
    t.write_ocral(3);
    let mut outputs = Vec::new();
    let mut interrupt = false;
    // Counter: 0 1 2 3 -> wraps to 0 on the tick at top.
    for _ in 0..4 {
        t.tick_prescaler(0, &mut outputs, &mut interrupt);
    }
    assert_eq!(t.read_tcntl(), 0);
    assert_eq!(t.read_tcnth(), 0);
}

#[test]
fn timer_registers_round_trip() {
    let mut t = Timer16::new(vec![1, 2, 3]);
    t.write_tcntl(0x34);
    t.write_tcnth(0x12);
    assert_eq!(t.read_tcntl(), 0x34);
    assert_eq!(t.read_tcnth(), 0x12);
    t.write_ocral(0xCD);
    t.write_ocrah(0xAB);
    assert_eq!(t.read_ocral(), 0xCD);
    assert_eq!(t.read_ocrah(), 0xAB);
    t.write_ocrbl(0x01);
    t.write_ocrbh(0x02);
    assert_eq!(t.read_ocrbl(), 0x01);
    assert_eq!(t.read_ocrbh(), 0x02);
    t.write_ocrcl(0x03);
    t.write_ocrch(0x04);
    assert_eq!(t.read_ocrcl(), 0x03);
    assert_eq!(t.read_ocrch(), 0x04);
    t.write_timsk(0b0010_1110);
    assert_eq!(t.read_timsk(), 0b0010_1110);
    t.write_tccrb(0b0001_0011);
    assert_eq!(t.read_tccrb(), 0b0001_0011);
}

#[test]
fn timer_tifr_write_clears_flags() {
    let mut t = Timer16::new(vec![1, 2, 3]);
    // Enable the overflow interrupt; in clear-on-compare mode with a
    // zero top, a counter at the maximum wraps and raises overflow.
    t.write_timsk(0b0000_0001);
    t.write_tccrb(0b0000_1001);
    t.write_tcntl(0xFF);
    t.write_tcnth(0xFF);
    let mut outputs = Vec::new();
    let mut interrupt = false;
    t.tick_prescaler(0, &mut outputs, &mut interrupt);
    assert!(interrupt);
    assert_eq!(t.read_tifr() & 1, 1);
    t.write_tifr(0b0000_0001);
    assert_eq!(t.read_tifr() & 1, 0);
}

#[test]
fn timer_tccra_hands_pins_between_timer_and_port() {
    let mut t = Timer16::new(vec![4, 5, 6]);
    let mut outputs: Vec<(PinId, PinState)> = Vec::new();
    // Per board pin: whether the port owns it, and the port's own level.
    let mut gpio: Vec<(bool, PinState)> = vec![(true, PinState::Z); 8];
    gpio[4] = (true, PinState::WeakHigh);
    // Unit A toggling, units B and C disabled.
    t.write_tccra(0b0100_0000, &mut outputs, &mut gpio);
    assert_eq!(t.read_tccra() >> 6, 0b01);
    // The enabled unit takes pin 4 and drives the timer's level (low).
    assert_eq!(gpio[4].0, false);
    assert_eq!(outputs[0], (4, PinState::Low));
    // The disabled units give their pins back with the port's level.
    assert_eq!(gpio[5].0, true);
    assert_eq!(outputs[1], (5, PinState::Z));
    assert_eq!(outputs[2], (6, PinState::Z));
}

#[test]
fn reader_reports_a_component_without_the_pin() {
    let mut board = Board::new(1);
    let led = amber::components::led::Led::new();
    let h = board.add_component_clocked(&led, "LED", &VcdConfig::Disable);
    let mut led = led;
    let cid = h.pin("LED").0;
    board.begin_half_cycle();
    // The LED reports no outputs, so the step succeeds.
    assert_eq!(board.step_clocked(cid, &mut led), Ok(()));
}
