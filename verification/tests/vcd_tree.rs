use amber::pins::PinState;
use amber::vcd::builder::VcdModuleBuilder;
use amber::vcd::config::{VcdConfig, VcdConfigEntry};
use amber::vcd::{VcdTree, VcdTreeModule, VcdTreeSignal};

#[test]
fn config_lookup_defaults_to_disable() {
    let cfg = VcdConfig::Module(vec![
        VcdConfigEntry { name: "clk".to_owned(), config: VcdConfig::Enable },
        VcdConfigEntry { name: "regs".to_owned(), config: VcdConfig::Disable },
    ]);
    assert!(matches!(cfg.get("clk"), VcdConfig::Enable));
    assert!(matches!(cfg.get("regs"), VcdConfig::Disable));
    assert!(matches!(cfg.get("missing"), VcdConfig::Disable));
    // Children of leaf settings inherit them.
    assert!(matches!(VcdConfig::Enable.get("x"), VcdConfig::Enable));
    assert!(matches!(VcdConfig::Disable.get("x"), VcdConfig::Disable));
}

#[test]
fn builder_keeps_slots_for_disabled_signals() {
    let cfg = VcdConfig::Module(vec![VcdConfigEntry {
        name: "a".to_owned(),
        config: VcdConfig::Enable,
    }]);
    let mut b = VcdModuleBuilder::new(&cfg);
    b.add_signal("a", 1, PinState::Low);
    b.add_signal("b", 8, PinState::Low);
    let m = b.take();
    assert_eq!(m.len(), 2);
}

#[test]
fn signal_update_reports_changes() {
    let mut s = VcdTreeSignal::new(8, PinState::Low);
    // The first update switches to the packed representation.
    assert!(s.update(0u8));
    assert!(!s.update(0u8));
    assert!(s.update(5u8));
    assert!(!s.update(5u8));
    assert!(s.update(6u8));
}

#[test]
fn module_update_subsignal_skips_missing_children() {
    let mut m = VcdTreeModule::new();
    m.add("present", Some(VcdTree::Signal(VcdTreeSignal::new(1, PinState::Low))));
    m.add("absent", None);
    assert!(m.update_subsignal(0, true));
    assert!(!m.update_subsignal(1, true));
    assert!(!m.update_subsignal(7, true));
}

#[test]
fn make_signal_follows_config() {
    assert!(matches!(
        VcdConfig::Enable.make_signal(1, PinState::Z),
        VcdTree::Signal(_)
    ));
    assert!(matches!(
        VcdConfig::Disable.make_signal(1, PinState::Z),
        VcdTree::Disabled
    ));
}

#[test]
fn config_first_binding_wins_for_equal_keys() {
    let cfg = VcdConfig::Module(vec![
        VcdConfigEntry { name: "s".to_owned(), config: VcdConfig::Enable },
        VcdConfigEntry { name: "s".to_owned(), config: VcdConfig::Disable },
    ]);
    assert!(matches!(cfg.get("s"), VcdConfig::Enable));
}
