use amber::board::{Board, PingEvent, PingQueue, WireError, WireStateCounter};
use amber::board::ProtocolError;
use amber::component::{Component, Message};
use amber::pins::PinState::{Error, High, Low, WeakHigh, WeakLow, Z};
use amber::component::ComponentId;
use amber::pins::PinState;

fn counter_of(states: &[PinState]) -> WireStateCounter {
    let mut c = WireStateCounter::new();
    for &s in states {
        c.add(s);
    }
    c
}

#[test]
fn resolution_rules() {
    assert_eq!(counter_of(&[]).read(), Z);
    assert_eq!(counter_of(&[Z, Z]).read(), Z);
    assert_eq!(counter_of(&[WeakHigh]).read(), WeakHigh);
    assert_eq!(counter_of(&[WeakLow]).read(), WeakLow);
    assert_eq!(counter_of(&[WeakLow, WeakHigh]).read(), Error);
    assert_eq!(counter_of(&[High, WeakLow, WeakHigh]).read(), High);
    assert_eq!(counter_of(&[Low, WeakLow, WeakHigh]).read(), Low);
    assert_eq!(counter_of(&[Low, High]).read(), Error);
    assert_eq!(counter_of(&[Error]).read(), Error);
}

#[test]
fn rebuild_matches_incremental() {
    // A sequence of adds and matching removes equals recomputing from
    // scratch over the surviving drivers.
    let mut c = WireStateCounter::new();
    c.add(High);
    c.add(WeakLow);
    c.add(Low);
    c.remove(Low);
    c.remove(High);
    c.add(High);
    assert_eq!(c.read(), counter_of(&[WeakLow, High]).read());
}

#[test]
fn adding_z_changes_nothing() {
    let mut c = counter_of(&[WeakHigh, Low]);
    let before = c.read();
    c.add(Z);
    assert_eq!(c.read(), before);
}

#[test]
fn error_counts_as_low_and_high() {
    let mut a = counter_of(&[WeakHigh]);
    a.add(Error);
    let mut b = counter_of(&[WeakHigh]);
    b.add(Low);
    b.add(High);
    assert_eq!(a.read(), b.read());
}

#[test]
fn read_projection_idempotent() {
    for s in [Z, Low, High, WeakLow, WeakHigh, Error] {
        assert_eq!(s.read().read(), s.read());
    }
}

#[test]
fn weak_versus_strong() {
    // Pin A drives WeakHigh, pin B drives Low: the wire resolves Low.
    assert_eq!(counter_of(&[WeakHigh, Low]).read(), Low);
}

#[test]
fn wiring_a_pin_twice_is_refused() {
    let mut board = Board::new(1);
    let led = amber::components::led::Led::new();
    let a = board.add_component_clocked(&led, "a", &amber::vcd::config::VcdConfig::Disable);
    let b = board.add_component_clocked(&led, "b", &amber::vcd::config::VcdConfig::Disable);
    let w1 = board.add_wire(&vec![a.pin("LED"), b.pin("LED")]);
    assert!(w1.is_ok());
    let w2 = board.add_wire(&vec![a.pin("LED")]);
    assert_eq!(w2, Err(WireError::PinAlreadyWired));
    let w3 = board.add_wire(&vec![(ComponentId(7), 0)]);
    assert_eq!(w3, Err(WireError::NoSuchPin));
    let w4 = board.add_wire(&vec![b.pin("LED"), b.pin("LED")]);
    assert_eq!(w4, Err(WireError::PinAlreadyWired));
}

#[test]
fn ping_queue_pops_in_time_order() {
    let mut q = PingQueue::new();
    q.push(PingEvent { who: ComponentId(0), at: 50 });
    q.push(PingEvent { who: ComponentId(1), at: 10 });
    q.push(PingEvent { who: ComponentId(2), at: 30 });
    q.push(PingEvent { who: ComponentId(3), at: 10 });
    let mut last = 0;
    for _ in 0..4 {
        let e = q.pop().unwrap();
        assert!(e.at >= last);
        last = e.at;
    }
    assert!(q.pop().is_none());
}

#[test]
fn weak_versus_strong_on_a_board() {
    // Pin A drives WeakHigh, pin B drives Low: the wire resolves to Low,
    // and weak drives read as strong at the observer.
    let mut board = Board::new(1);
    let led = amber::components::led::Led::new();
    let a = board.add_component_clocked(&led, "a", &amber::vcd::config::VcdConfig::Disable);
    let b = board.add_component_clocked(&led, "b", &amber::vcd::config::VcdConfig::Disable);
    let mut observer = amber::components::led::Led::new();
    let o = board.add_component_clocked(&observer, "o", &amber::vcd::config::VcdConfig::Disable);
    board.add_wire(&vec![a.pin("LED"), b.pin("LED"), o.pin("LED")]).unwrap();
    let (a_idx, b_idx) = (a.pin("LED"), b.pin("LED"));
    let _ = (a_idx, b_idx);
    // Drive the two pins directly through the wire engine.
    board.stage_outputs(a.pin("LED").0, &vec![(0, PinState::WeakHigh)]);
    board.stage_outputs(b.pin("LED").0, &vec![(0, PinState::Low)]);
    board.apply_staged();
    let o_id = o.pin("LED").0;
    for (pin, state) in board.take_pending_inputs(o_id) {
        if pin == 0 {
            observer.set_pin(pin, state);
        }
    }
    assert_eq!(observer.state(), PinState::Low);
}

#[test]
fn worker_protocol_violations_are_refused() {
    let mut board = Board::new(1);
    let led = amber::components::led::Led::new();
    let h = board.add_component_clocked(&led, "LED", &amber::vcd::config::VcdConfig::Disable);
    let cid = h.pin("LED").0;
    // A pin change naming a missing component or pin is refused.
    assert_eq!(
        board.process_message(Message::PinChange(ComponentId(9), 0, PinState::High)),
        Err(ProtocolError::NoSuchPin)
    );
    assert_eq!(
        board.process_message(Message::PinChange(cid, 7, PinState::High)),
        Err(ProtocolError::NoSuchPin)
    );
    // A Done nobody owes is refused.
    assert_eq!(
        board.process_message(Message::Done(cid, false)),
        Err(ProtocolError::UnexpectedDone)
    );
    // A valid pin change goes through the wire engine.
    assert_eq!(
        board.process_message(Message::PinChange(cid, 0, PinState::High)),
        Ok(true)
    );
}

#[test]
fn pin_lookup_by_name() {
    let mut board = Board::new(1);
    let led = amber::components::led::Led::new();
    let h = board.add_component_clocked(&led, "LED", &amber::vcd::config::VcdConfig::Disable);
    assert_eq!(h.try_pin("LED"), Some((h.pin("LED").0, 0)));
    assert_eq!(h.try_pin("missing"), None);
}
