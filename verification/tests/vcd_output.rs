use amber::board::Board;
use amber::component::{Component, ExecuteStepResult, Message, WorkerOutcome};
use amber::components::led::Led;
use amber::pins::{PinId, PinState, PinStateConvertible, PinVec};
use amber::vcd::config::VcdConfig;
use amber::vcd::fillers::VcdFiller;
use amber::vcd::VcdTreeSignal;

/// A one-pin driver: high after a rising edge, low after a falling one.
struct Toggler {
    level: PinState,
    outputs: Vec<(PinId, PinState)>,
}

impl Toggler {
    fn new() -> Toggler {
        Toggler { level: PinState::Z, outputs: Vec::new() }
    }
}

impl Component for Toggler {
    fn pin_count() -> usize {
        1
    }

    fn pin_name(_pin: PinId) -> String {
        "Q".to_owned()
    }

    fn set_pin(&mut self, _pin: PinId, _state: PinState) {}

    fn clock_rising_edge(&mut self) {
        self.level = PinState::High;
        self.outputs.push((0, PinState::High));
    }

    fn clock_falling_edge(&mut self) {
        self.level = PinState::Low;
        self.outputs.push((0, PinState::Low));
    }

    fn get_output_changes(&mut self) -> Vec<(PinId, PinState)> {
        std::mem::take(&mut self.outputs)
    }

    fn advance(&mut self, _time_ns: u64) -> Option<u64> {
        None
    }
}

impl VcdFiller for Toggler {
    fn is_signal() -> bool {
        true
    }

    fn init_vcd_signal(&self) -> VcdTreeSignal {
        VcdTreeSignal::new(1, PinState::Z)
    }

    fn get_signal_state(&self) -> PinVec {
        self.level.to_pin_vec()
    }
}

#[test]
fn single_toggling_driver_writes_alternating_bits() {
    // One cooperative toggling driver wired to an LED-like capture;
    // only the driver's signal is recorded.  Half period 2 ns.
    let mut board = Board::new(2);
    let mut drv = Toggler::new();
    let led = Led::new();
    let drv_h = board.add_component_clocked(&drv, "Q", &VcdConfig::Enable);
    let led_h = board.add_component_clocked(&led, "LED", &VcdConfig::Disable);
    let mut led = led;
    board.add_wire(&vec![drv_h.pin("Q"), led_h.pin("LED")]).unwrap();
    board.write_vcd_header();
    let header = board.take_vcd_output();
    let expected_header = b"$version amber $end\n$date unknown $end\n$timescale 1ns $end\n\
$scope module TOP $end\n$var wire 1 ! Q $end\n$upscope $end\n\
$enddefinitions $end\n$dumpvars\nz!\n$end\n";
    assert_eq!(header, expected_header.to_vec());
    let drv_id = drv_h.pin("Q").0;
    let led_id = led_h.pin("LED").0;
    for _ in 0..4 {
        let stepped = board.begin_half_cycle();
        assert!(stepped.is_empty());
        board.step_clocked(drv_id, &mut drv).unwrap();
        board.step_clocked(led_id, &mut led).unwrap();
        board.apply_staged();
        board.end_half_cycle();
    }
    let out = board.take_vcd_output();
    assert_eq!(out, b"#2\n1!\n#4\n0!\n#6\n1!\n#8\n0!\n".to_vec());
}

/// Drives a fixed state onto its pin at the first rising edge.
struct ConstDriver {
    drive: PinState,
    sent: bool,
    outputs: Vec<(PinId, PinState)>,
}

impl ConstDriver {
    fn new(drive: PinState) -> ConstDriver {
        ConstDriver { drive, sent: false, outputs: Vec::new() }
    }
}

impl Component for ConstDriver {
    fn pin_count() -> usize {
        1
    }

    fn pin_name(_pin: PinId) -> String {
        "OUT".to_owned()
    }

    fn set_pin(&mut self, _pin: PinId, _state: PinState) {}

    fn clock_rising_edge(&mut self) {
        if !self.sent {
            self.sent = true;
            self.outputs.push((0, self.drive));
        }
    }

    fn clock_falling_edge(&mut self) {}

    fn get_output_changes(&mut self) -> Vec<(PinId, PinState)> {
        std::mem::take(&mut self.outputs)
    }

    fn advance(&mut self, _time_ns: u64) -> Option<u64> {
        None
    }
}

impl VcdFiller for ConstDriver {
    fn is_signal() -> bool {
        true
    }

    fn init_vcd_signal(&self) -> VcdTreeSignal {
        VcdTreeSignal::new(1, PinState::Z)
    }

    fn get_signal_state(&self) -> PinVec {
        self.drive.to_pin_vec()
    }
}

#[test]
fn bus_contention_reads_error() {
    // Two strong drivers on one wire; the reader observes Error and its
    // VCD signal records x.
    let mut board = Board::new(1);
    let mut a = ConstDriver::new(PinState::High);
    let mut b = ConstDriver::new(PinState::Low);
    let mut led = Led::new();
    let a_h = board.add_component_clocked(&a, "A", &VcdConfig::Disable);
    let b_h = board.add_component_clocked(&b, "B", &VcdConfig::Disable);
    let led_h = board.add_component_clocked(&led, "LED", &VcdConfig::Enable);
    board.add_wire(&vec![a_h.pin("OUT"), b_h.pin("OUT"), led_h.pin("LED")]).unwrap();
    board.write_vcd_header();
    board.take_vcd_output();
    // First half-cycle: both drive; the LED's input changes to Error.
    let a_id = a_h.pin("OUT").0;
    let b_id = b_h.pin("OUT").0;
    let led_id = led_h.pin("LED").0;
    for _ in 0..2 {
        board.begin_half_cycle();
        board.step_clocked(a_id, &mut a).unwrap();
        board.step_clocked(b_id, &mut b).unwrap();
        board.step_clocked(led_id, &mut led).unwrap();
        board.apply_staged();
        board.end_half_cycle();
    }
    assert_eq!(led.state(), PinState::Error);
    let out = board.take_vcd_output();
    let text = String::from_utf8(out).unwrap();
    assert!(text.contains("x!\n"));
}

#[test]
fn stable_signals_write_no_timestamp() {
    // Two half-cycles with every signal stable: one $dumpvars block and
    // no timestamp lines at all.
    let mut board = Board::new(5);
    let mut led = Led::new();
    let led_h = board.add_component_clocked(&led, "LED", &VcdConfig::Enable);
    board.write_vcd_header();
    let led_id = led_h.pin("LED").0;
    for _ in 0..2 {
        board.begin_half_cycle();
        board.step_clocked(led_id, &mut led).unwrap();
        board.apply_staged();
        board.end_half_cycle();
    }
    let out = board.take_vcd_output();
    let text = String::from_utf8(out).unwrap();
    assert_eq!(text.matches("$dumpvars").count(), 1);
    assert_eq!(text.matches('#').count(), 0);
}

#[test]
fn header_assigns_distinct_short_ids() {
    let mut board = Board::new(1);
    let led = Led::new();
    let mut l1 = Led::new();
    let mut l2 = Led::new();
    let _ = led;
    let h1 = board.add_component_clocked(&l1, "LEDA", &VcdConfig::Enable);
    let h2 = board.add_component_clocked(&l2, "LEDB", &VcdConfig::Enable);
    let _ = (h1, h2);
    board.write_vcd_header();
    let text = String::from_utf8(board.take_vcd_output()).unwrap();
    assert!(text.contains("$var wire 1 ! LEDA $end"));
    assert!(text.contains("$var wire 1 \" LEDB $end"));
}

/// A threaded component asking to be woken again at 500 ns.
struct Pinger {
    advances: usize,
    outputs: Vec<(PinId, PinState)>,
}

impl Component for Pinger {
    fn pin_count() -> usize {
        1
    }

    fn pin_name(_pin: PinId) -> String {
        "P".to_owned()
    }

    fn set_pin(&mut self, _pin: PinId, _state: PinState) {}

    fn clock_rising_edge(&mut self) {}

    fn clock_falling_edge(&mut self) {}

    fn get_output_changes(&mut self) -> Vec<(PinId, PinState)> {
        std::mem::take(&mut self.outputs)
    }

    fn advance(&mut self, time_ns: u64) -> Option<u64> {
        self.advances += 1;
        if time_ns < 500 {
            Some(500)
        } else {
            None
        }
    }
}

impl VcdFiller for Pinger {
    fn is_signal() -> bool {
        true
    }

    fn init_vcd_signal(&self) -> VcdTreeSignal {
        VcdTreeSignal::new(1, PinState::Z)
    }

    fn get_signal_state(&self) -> PinVec {
        PinState::Z.to_pin_vec()
    }
}

/// Plays the worker role for one threaded component, synchronously.
fn run_worker_step<T: Component>(
    board: &mut Board,
    cid: amber::component::ComponentId,
    c: &mut T,
    tree: &mut amber::vcd::VcdTree,
) {
    let now = board.time_ns();
    let inputs = board.take_pending_inputs(cid);
    for (pin, state) in inputs {
        let _ = amber::component::worker_on_message(c, tree, Message::PinChange(cid, pin, state));
    }
    match amber::component::worker_on_message(c, tree, Message::Step(now)) {
        WorkerOutcome::Stepped(ExecuteStepResult { changed, output_changes, time_ns }) => {
            for (pin, state) in output_changes {
                board.process_message(Message::PinChange(cid, pin, state)).unwrap();
            }
            if let Some(at) = time_ns {
                board.process_message(Message::PingMeAt(cid, at)).unwrap();
            }
            board.process_message(Message::Done(cid, changed)).unwrap();
        }
        _ => panic!("a step always steps"),
    }
}

#[test]
fn ping_wakes_component_with_no_input_change() {
    // advance at now=100 returns Some(500); nothing changes between 100
    // and 500; the first half-cycle at or past 500 advances it again.
    let mut board = Board::new(100);
    let mut p = Pinger { advances: 0, outputs: Vec::new() };
    let h = board.add_component_threaded(&p, "P", &VcdConfig::Disable);
    let cid = h.pin("P").0;
    let mut tree = amber::vcd::VcdTree::Disabled;
    let mut woken_at: Vec<u64> = Vec::new();
    // Half-cycles at now = 0, 100, 200, 300, 400, 500.
    for _ in 0..6 {
        let stepped = board.begin_half_cycle();
        board.apply_staged();
        for c in &stepped {
            assert_eq!(*c, cid);
            woken_at.push(board.time_ns());
            run_worker_step(&mut board, cid, &mut p, &mut tree);
        }
        board.end_half_cycle();
    }
    // Woken once initially (new component) and once when the ping at 500
    // came due; advance(0) pinged for 500, advance(500) did not.
    assert_eq!(woken_at, vec![0, 500]);
    assert_eq!(p.advances, 2);
}

/// A threaded driver: drives its pin high at its first step.
struct ThreadedDriver {
    sent: bool,
    outputs: Vec<(PinId, PinState)>,
}

impl Component for ThreadedDriver {
    fn pin_count() -> usize {
        1
    }

    fn pin_name(_pin: PinId) -> String {
        "P".to_owned()
    }

    fn set_pin(&mut self, _pin: PinId, _state: PinState) {}

    fn clock_rising_edge(&mut self) {}

    fn clock_falling_edge(&mut self) {}

    fn get_output_changes(&mut self) -> Vec<(PinId, PinState)> {
        std::mem::take(&mut self.outputs)
    }

    fn advance(&mut self, _time_ns: u64) -> Option<u64> {
        if !self.sent {
            self.sent = true;
            self.outputs.push((0, PinState::High));
        }
        None
    }
}

impl VcdFiller for ThreadedDriver {
    fn is_signal() -> bool {
        true
    }

    fn init_vcd_signal(&self) -> VcdTreeSignal {
        VcdTreeSignal::new(1, PinState::Z)
    }

    fn get_signal_state(&self) -> PinVec {
        PinState::Z.to_pin_vec()
    }
}

/// Forwards its input pin to its output pin, one half-cycle later.
struct Repeater {
    seen: PinState,
    outputs: Vec<(PinId, PinState)>,
}

impl Component for Repeater {
    fn pin_count() -> usize {
        2
    }

    fn pin_name(pin: PinId) -> String {
        if pin == 0 {
            "IN".to_owned()
        } else {
            "OUT".to_owned()
        }
    }

    fn set_pin(&mut self, pin: PinId, state: PinState) {
        if pin == 0 {
            self.seen = state;
        }
    }

    fn clock_rising_edge(&mut self) {
        self.outputs.push((1, self.seen));
    }

    fn clock_falling_edge(&mut self) {}

    fn get_output_changes(&mut self) -> Vec<(PinId, PinState)> {
        std::mem::take(&mut self.outputs)
    }

    fn advance(&mut self, _time_ns: u64) -> Option<u64> {
        None
    }
}

impl VcdFiller for Repeater {
    fn is_signal() -> bool {
        true
    }

    fn init_vcd_signal(&self) -> VcdTreeSignal {
        VcdTreeSignal::new(1, PinState::Z)
    }

    fn get_signal_state(&self) -> PinVec {
        self.seen.to_pin_vec()
    }
}

#[test]
fn threaded_output_reaches_reader_on_later_half_cycle() {
    // T (threaded) drives P; C (cooperative) reads P and drives Q;
    // L (cooperative) reads Q.  Q's new value appears at L only on a
    // later half-cycle, never the same one.
    let mut board = Board::new(1);
    let mut t = ThreadedDriver { sent: false, outputs: Vec::new() };
    let mut c = Repeater { seen: PinState::Z, outputs: Vec::new() };
    let mut l = Led::new();
    let t_h = board.add_component_threaded(&t, "T", &VcdConfig::Disable);
    let c_h = board.add_component_clocked(&c, "C", &VcdConfig::Disable);
    let l_h = board.add_component_clocked(&l, "L", &VcdConfig::Disable);
    board.add_wire(&vec![t_h.pin("P"), c_h.pin("IN")]).unwrap();
    board.add_wire(&vec![c_h.pin("OUT"), l_h.pin("LED")]).unwrap();
    let t_id = t_h.pin("P").0;
    let c_id = c_h.pin("IN").0;
    let l_id = l_h.pin("LED").0;
    let mut tree = amber::vcd::VcdTree::Disabled;
    let mut l_history: Vec<PinState> = Vec::new();
    for _ in 0..6 {
        let stepped = board.begin_half_cycle();
        board.step_clocked(c_id, &mut c).unwrap();
        board.step_clocked(l_id, &mut l).unwrap();
        board.apply_staged();
        // Collect the threaded replies, as the board's collect phase does.
        for cc in &stepped {
            run_worker_step(&mut board, *cc, &mut t, &mut tree);
        }
        board.end_half_cycle();
        let _ = t_id;
        l_history.push(l.state());
    }
    // The high level propagates one stage per half-cycle: first into C,
    // then onto Q, and only then into L.
    assert_eq!(l_history[0], PinState::Z);
    assert!(l_history.contains(&PinState::High));
    let first_high = l_history.iter().position(|s| *s == PinState::High).unwrap();
    assert!(first_high >= 2);
    assert_eq!(l.state(), PinState::High);
}

/// A module filler with one eight-bit counter signal.
struct ByteCounter {
    value: u8,
    outputs: Vec<(PinId, PinState)>,
}

impl Component for ByteCounter {
    fn pin_count() -> usize {
        1
    }

    fn pin_name(_pin: PinId) -> String {
        "NC".to_owned()
    }

    fn set_pin(&mut self, _pin: PinId, _state: PinState) {}

    fn clock_rising_edge(&mut self) {
        self.value = self.value.wrapping_add(1);
    }

    fn clock_falling_edge(&mut self) {}

    fn get_output_changes(&mut self) -> Vec<(PinId, PinState)> {
        std::mem::take(&mut self.outputs)
    }

    fn advance(&mut self, _time_ns: u64) -> Option<u64> {
        None
    }
}

impl VcdFiller for ByteCounter {
    fn is_signal() -> bool {
        false
    }

    fn init_vcd_module(&self, builder: &mut amber::vcd::builder::VcdModuleBuilder) {
        builder.add_signal("value", 8, PinState::Low);
    }

    fn fill_module(&self, module: &mut amber::vcd::VcdTreeModule) -> bool {
        module.update_subsignal(0, self.value)
    }
}

#[test]
fn vector_signals_use_binary_delta_lines() {
    let mut board = Board::new(3);
    let mut c = ByteCounter { value: 0, outputs: Vec::new() };
    let h = board.add_component_clocked(&c, "ctr", &VcdConfig::Enable);
    board.write_vcd_header();
    let header = String::from_utf8(board.take_vcd_output()).unwrap();
    assert!(header.contains("$scope module ctr $end\n$var wire 8 ! value[7:0] $end\n$upscope $end"));
    assert!(header.contains("$dumpvars\nb00000000 !\n$end\n"));
    let cid = h.pin("NC").0;
    // One rising edge: the counter becomes one.
    board.begin_half_cycle();
    board.step_clocked(cid, &mut c).unwrap();
    board.apply_staged();
    board.end_half_cycle();
    let out = String::from_utf8(board.take_vcd_output()).unwrap();
    assert_eq!(out, "#3\nb00000001 !\n");
}

#[test]
fn empty_wire_resolves_to_undriven() {
    let mut board = Board::new(1);
    let w = board.add_wire(&vec![]);
    assert!(w.is_ok());
}
