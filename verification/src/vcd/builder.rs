//! Building a [`VcdTreeModule`] under the control of a [`VcdConfig`].

use vstd::prelude::*;
use crate::pins::PinState;
use crate::vcd::config::VcdConfig;
use crate::vcd::fillers::VcdFiller;
use crate::vcd::{VcdTree, VcdTreeModule, VcdTreeModuleEntry, VcdTreeSignal};

verus! {

/// Builder struct for constructing a [`VcdTreeModule`] using a
/// [`VcdConfig`].
///
/// Every declared child occupies a slot, in declaration order; a child
/// that the configuration leaves out holds `None`, so slot indexes are
/// stable whatever the configuration says.
pub struct VcdModuleBuilder<'a> {
    config: &'a VcdConfig,
    module: VcdTreeModule,
}

impl<'a> VcdModuleBuilder<'a> {
    /// The configuration the builder follows.
    pub closed spec fn spec_config(self) -> VcdConfig {
        *self.config
    }

    /// The slots declared so far.
    pub closed spec fn spec_entries(self) -> Seq<VcdTreeModuleEntry> {
        self.module.0@
    }

    /// Creates a new [`VcdModuleBuilder`] from a [`VcdConfig`].
    pub fn new(config: &'a VcdConfig) -> (r: VcdModuleBuilder<'a>)
        ensures
            r.spec_config() == *config,
            r.spec_entries() =~= Seq::<VcdTreeModuleEntry>::empty(),
    {
        VcdModuleBuilder { config, module: VcdTreeModule::new() }
    }

    /// Declares a signal under a given `name`, with a given `size` and
    /// initial value.
    ///
    /// The signal is materialised only where the configuration enables
    /// that name; otherwise its slot stays empty.
    pub fn add_signal(&mut self, name: &str, size: u8, val: PinState)
        ensures
            final(self).spec_config() == old(self).spec_config(),
            final(self).spec_entries().len() == old(self).spec_entries().len() + 1,
            final(self).spec_entries().subrange(0, old(self).spec_entries().len() as int)
                =~= old(self).spec_entries(),
            final(self).spec_entries().last().name@ == name@,
            old(self).spec_config()@.get(name@) is Enable ==> (final(self).spec_entries().last().val matches Some(VcdTree::Signal(s)) && s.size == size
                && s.id is None && s.old_state@ =~= Seq::new(size as nat, |i: int| val)
                && s.new_state == s.old_state),
            !(old(self).spec_config()@.get(name@) is Enable) ==> final(self).spec_entries().last().val is None,
    {
        match self.config.get(name) {
            VcdConfig::Enable => {
                let s = VcdTree::Signal(VcdTreeSignal::new(size, val));
                self.module.add(name, Some(s));
            },
            _ => {
                self.module.add(name, None);
            },
        }
    }

    /// Declares a node filled by the given `filler`.
    ///
    /// The node is materialised unless the configuration disables that
    /// name; a disabled slot stays empty.
    pub fn add_node<T: VcdFiller>(&mut self, name: &str, filler: &T)
        ensures
            final(self).spec_config() == old(self).spec_config(),
            final(self).spec_entries().len() == old(self).spec_entries().len() + 1,
            final(self).spec_entries().subrange(0, old(self).spec_entries().len() as int)
                =~= old(self).spec_entries(),
            final(self).spec_entries().last().name@ == name@,
            old(self).spec_config()@.get(name@) is Disable ==> final(self).spec_entries().last().val is None,
    {
        let cfg = self.config.get(name);
        match cfg {
            VcdConfig::Disable => {
                self.module.add(name, None);
            },
            _ => {
                let n = filler.init_vcd(&cfg);
                self.module.add(name, Some(n));
            },
        }
    }

    /// Takes the resulting [`VcdTreeModule`], moving it out of the
    /// [`VcdModuleBuilder`].
    pub fn take(self) -> (r: VcdTreeModule)
        ensures
            r.0@ == self.spec_entries(),
    {
        self.module
    }
}

} // verus!
