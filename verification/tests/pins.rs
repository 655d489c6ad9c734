use amber::pins::{PinState, PinStateConvertible, PinVec};

#[test]
fn from_bool_gives_strong_levels() {
    assert_eq!(PinState::from_bool(true), PinState::High);
    assert_eq!(PinState::from_bool(false), PinState::Low);
}

#[test]
fn read_projects_weak_to_strong() {
    assert_eq!(PinState::Low.read(), PinState::Low);
    assert_eq!(PinState::WeakLow.read(), PinState::Low);
    assert_eq!(PinState::WeakHigh.read(), PinState::High);
    assert_eq!(PinState::Z.read(), PinState::Z);
    assert_eq!(PinState::Error.read(), PinState::Error);
}

#[test]
fn pin_vec_iterates_most_significant_first() {
    let v = PinVec::init_logical(4, 0b1010);
    let mut it = v.iter();
    assert_eq!(it.next(), Some(PinState::High));
    assert_eq!(it.next(), Some(PinState::Low));
    assert_eq!(it.next(), Some(PinState::High));
    assert_eq!(it.next(), Some(PinState::Low));
    assert_eq!(it.next(), None);
}

#[test]
fn pin_vec_lengths() {
    assert_eq!(PinVec::new(1, PinState::Z).len(), 1);
    assert_eq!(PinVec::new(9, PinState::Low).len(), 9);
    assert_eq!(8u8.to_pin_vec().len(), 8);
    assert_eq!(7u16.to_pin_vec().len(), 16);
    assert_eq!(7u32.to_pin_vec().len(), 32);
    assert_eq!(true.to_pin_vec().len(), 1);
}

#[test]
fn repeated_pin_vec_iterates_state() {
    let v = PinVec::new(3, PinState::WeakHigh);
    let mut it = v.iter();
    assert_eq!(it.next(), Some(PinState::WeakHigh));
    assert_eq!(it.next(), Some(PinState::WeakHigh));
    assert_eq!(it.next(), Some(PinState::WeakHigh));
    assert_eq!(it.next(), None);
}
