//! The interface through which components expose their VCD signals.

use vstd::prelude::*;

use crate::pins::{PinState, PinVec};
use crate::vcd::builder::VcdModuleBuilder;
use crate::vcd::config::VcdConfig;
use crate::vcd::{VcdTree, VcdTreeModule, VcdTreeSignal};

verus! {

/// Something that has VCD signals inside.
///
/// Can be either one signal, or a module containing many named signals.
/// Which option is used is determined by [`VcdFiller::is_signal`].
pub trait VcdFiller: Sized {
    /// Whether this filler is a single signal rather than a module.
    fn is_signal() -> bool;

    /// Declares the signals of a module filler into `builder`.
    ///
    /// Override this when implementing a module; the default declares
    /// nothing.
    fn init_vcd_module(&self, builder: &mut VcdModuleBuilder) {
    }

    /// Initial snapshot of a signal filler.
    ///
    /// Override this when implementing a signal; the default is a single
    /// undriven bit.
    fn init_vcd_signal(&self) -> VcdTreeSignal {
        VcdTreeSignal::new(1, PinState::Z)
    }

    /// Reads the current state of a signal filler.
    ///
    /// Override this when implementing a signal; the default is a single
    /// undriven bit.
    fn get_signal_state(&self) -> PinVec {
        PinVec::new(1, PinState::Z)
    }

    /// Updates an existing [`VcdTreeModule`] with new signal states,
    /// returning whether any of them changed.
    ///
    /// Override this when implementing a module; the default reports no
    /// change.
    fn fill_module(&self, module: &mut VcdTreeModule) -> (r: bool) {
        false
    }

    /// Initializes a [`VcdTree`] from a config, as a signal or as a
    /// module according to [`VcdFiller::is_signal`].
    ///
    /// A disabled config — or a module config handed to a signal filler —
    /// yields a disabled tree.
    fn init_vcd(&self, config: &VcdConfig) -> VcdTree {
        if Self::is_signal() {
            match config {
                VcdConfig::Enable => VcdTree::Signal(self.init_vcd_signal()),
                _ => VcdTree::Disabled,
            }
        } else {
            match config {
                VcdConfig::Disable => VcdTree::Disabled,
                _ => {
                    let mut builder = VcdModuleBuilder::new(config);
                    self.init_vcd_module(&mut builder);
                    VcdTree::Module(builder.take())
                },
            }
        }
    }

    /// Updates an existing [`VcdTree`] with new signal states, as a
    /// signal or as a module according to [`VcdFiller::is_signal`].
    ///
    /// Returns whether any stored state changed; a disabled tree — or a
    /// tree of the wrong shape — never changes.
    fn fill_vcd(&self, tree: &mut VcdTree) -> (r: bool) {
        if Self::is_signal() {
            match tree {
                VcdTree::Signal(signal) => signal.update(self.get_signal_state()),
                _ => false,
            }
        } else {
            match tree {
                VcdTree::Module(module) => self.fill_module(module),
                _ => false,
            }
        }
    }
}

} // verus!
