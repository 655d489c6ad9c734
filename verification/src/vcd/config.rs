//! Configuration of which modules and signals a VCD dump includes.

use vstd::prelude::*;

use crate::pins::PinState;
use crate::vcd::{VcdTree, VcdTreeSignal};

verus! {

/// A configuration for a VCD dump.
///
/// Determines whether a module or signal is included in the VCD.
pub enum VcdConfig {
    /// Settings for the named children of a module.
    Module(Vec<VcdConfigEntry>),
    /// Include this subtree.
    Enable,
    /// Leave this subtree out.
    Disable,
}

/// One named slot of a [`VcdConfig::Module`].
pub struct VcdConfigEntry {
    pub name: String,
    pub config: VcdConfig,
}

/// The mathematical shape of a configuration: names as character
/// sequences, children in declaration order.
pub enum ConfigTree {
    Module(Seq<ConfigNode>),
    Enable,
    Disable,
}

/// One named child of a [`ConfigTree::Module`].
pub struct ConfigNode {
    pub name: Seq<char>,
    pub config: ConfigTree,
}

impl ConfigTree {
    /// The configuration of the child named `key`: the first binding of
    /// that name, or `Disable` when there is none.  Children of enabled
    /// and disabled leaves are enabled and disabled respectively.
    pub open spec fn get(self, key: Seq<char>) -> ConfigTree {
        match self {
            ConfigTree::Module(nodes) => Self::lookup(nodes, key),
            _ => self,
        }
    }

    /// First configuration bound to `key` among `nodes`, or `Disable`.
    pub open spec fn lookup(nodes: Seq<ConfigNode>, key: Seq<char>) -> ConfigTree
        decreases nodes.len(),
    {
        if nodes.len() == 0 {
            ConfigTree::Disable
        } else if nodes[0].name == key {
            nodes[0].config
        } else {
            Self::lookup(nodes.drop_first(), key)
        }
    }
}

/// The mathematical shape of a configuration value.
pub open spec fn config_view(c: VcdConfig) -> ConfigTree
    decreases c,
{
    match c {
        VcdConfig::Module(entries) => ConfigTree::Module(config_nodes_view(entries@)),
        VcdConfig::Enable => ConfigTree::Enable,
        VcdConfig::Disable => ConfigTree::Disable,
    }
}

/// The mathematical shape of a sequence of configuration slots.
pub open spec fn config_nodes_view(s: Seq<VcdConfigEntry>) -> Seq<ConfigNode>
    decreases s,
{
    if s.len() == 0 {
        Seq::empty()
    } else {
        proof {
            assert(decreases_to!(s => s[0]));
            assert(decreases_to!(s => s.subrange(1, s.len() as int)));
        }
        seq![ConfigNode { name: s[0].name@, config: config_view(s[0].config) }]
            + config_nodes_view(s.drop_first())
    }
}

/// The shapes of the slots line up one for one with the slots.
pub proof fn lemma_config_nodes_view(s: Seq<VcdConfigEntry>)
    ensures
        config_nodes_view(s).len() == s.len(),
        forall|i: int|
            0 <= i < s.len() ==> #[trigger] config_nodes_view(s)[i] == (ConfigNode {
                name: s[i].name@,
                config: config_view(s[i].config),
            }),
    decreases s.len(),
{
    if s.len() > 0 {
        lemma_config_nodes_view(s.drop_first());
    }
}

impl View for VcdConfig {
    type V = ConfigTree;

    open spec fn view(&self) -> ConfigTree {
        config_view(*self)
    }
}

/// Compares two string slices by their character sequences.
pub fn str_eq(a: &str, b: &str) -> (r: bool)
    ensures
        r == (a@ == b@),
{
    let a_len = a.unicode_len();
    let b_len = b.unicode_len();
    if a_len != b_len {
        proof {
            assert(a@ != b@);
        }
        return false;
    }
    let mut i: usize = 0;
    while i < a_len
        invariant
            0 <= i <= a_len,
            a_len == a@.len(),
            b_len == b@.len(),
            a_len == b_len,
            forall|j: int| 0 <= j < i ==> a@[j] == b@[j],
        decreases a_len - i,
    {
        if a.get_char(i) != b.get_char(i) {
            return false;
        }
        i = i + 1;
    }
    proof {
        assert(a@ =~= b@);
    }
    true
}

impl VcdConfig {
    /// Structurally copies the configuration.
    #[verifier::loop_isolation(false)]
    fn duplicate(&self) -> (r: VcdConfig)
        ensures
            r@ == self@,
        decreases *self,
    {
        match self {
            VcdConfig::Enable => VcdConfig::Enable,
            VcdConfig::Disable => VcdConfig::Disable,
            VcdConfig::Module(entries) => {
                let mut out: Vec<VcdConfigEntry> = Vec::new();
                let mut i: usize = 0;
                while i < entries.len()
                    invariant
                        0 <= i <= entries@.len(),
                        out@.len() == i,
                        forall|j: int|
                            0 <= j < i ==> #[trigger] out@[j].name@ == entries@[j].name@
                                && out@[j].config@ == entries@[j].config@,
                    decreases entries@.len() - i,
                {
                    let e = &entries[i];
                    proof {
                        assert((*self)->Module_0 == *entries);
                        assert(decreases_to!(*self => (*self)->Module_0));
                        assert(decreases_to!(*entries => entries@[i as int]));
                        assert(decreases_to!(entries@[i as int] => entries@[i as int].config));
                    }
                    let c = e.config.duplicate();
                    let name: String = e.name.as_str().to_owned();
                    out.push(VcdConfigEntry { name, config: c });
                    i = i + 1;
                }
                let r = VcdConfig::Module(out);
                proof {
                    lemma_config_nodes_view(out@);
                    lemma_config_nodes_view(entries@);
                    assert(config_nodes_view(out@) =~= config_nodes_view(entries@));
                }
                r
            },
        }
    }

    /// Gets the configuration of the named sub-node.
    ///
    /// If the node is missing, it is considered disabled.  Sub-nodes of
    /// enabled and disabled leaf nodes are also considered enabled and
    /// disabled respectively.
    #[verifier::loop_isolation(false)]
    pub fn get(&self, key: &str) -> (r: VcdConfig)
        ensures
            r@ == self@.get(key@),
    {
        match self {
            VcdConfig::Enable => VcdConfig::Enable,
            VcdConfig::Disable => VcdConfig::Disable,
            VcdConfig::Module(entries) => {
                let ghost nodes = config_nodes_view(entries@);
                proof {
                    lemma_config_nodes_view(entries@);
                    assert(nodes.skip(0) =~= nodes);
                }
                let mut i: usize = 0;
                while i < entries.len()
                    invariant
                        0 <= i <= entries@.len(),
                        nodes == config_nodes_view(entries@),
                        nodes.len() == entries@.len(),
                        ConfigTree::lookup(nodes, key@) == ConfigTree::lookup(
                            nodes.skip(i as int),
                            key@,
                        ),
                    decreases entries@.len() - i,
                {
                    proof {
                        lemma_config_nodes_view(entries@);
                        assert(nodes.skip(i as int)[0] == nodes[i as int]);
                    }
                    if str_eq(entries[i].name.as_str(), key) {
                        proof {
                            assert((*self)->Module_0 == *entries);
                            assert(decreases_to!(*self => (*self)->Module_0));
                            assert(decreases_to!(*entries => entries@[i as int]));
                            assert(decreases_to!(entries@[i as int] => entries@[i as int].config));
                        }
                        return entries[i].config.duplicate();
                    }
                    proof {
                        assert(nodes.skip(i as int).drop_first() =~= nodes.skip(i as int + 1));
                    }
                    i = i + 1;
                }
                proof {
                    assert(nodes.skip(i as int).len() == 0);
                }
                VcdConfig::Disable
            },
        }
    }

    /// Creates a new signal according to the config.
    ///
    /// If this node is disabled — or is a module setting, which cannot
    /// describe a single signal — no signal is created.
    pub fn make_signal(&self, size: u8, val: PinState) -> (r: VcdTree)
        ensures
            self@ is Enable ==> (r matches VcdTree::Signal(s) && s.size == size && s.id is None
                && s.old_state@ =~= Seq::new(size as nat, |i: int| val) && s.new_state
                == s.old_state),
            !(self@ is Enable) ==> r is Disabled,
    {
        match self {
            VcdConfig::Enable => VcdTree::Signal(VcdTreeSignal::new(size, val)),
            _ => VcdTree::Disabled,
        }
    }

    /// Creates a new node (using a [`VcdFiller`]) according to the config.
    ///
    /// If the node is disabled, it is not created.
    pub fn make_node<T: crate::vcd::fillers::VcdFiller>(&self, filler: &T) -> (r: VcdTree)
        ensures
            self@ is Disable ==> r is Disabled,
    {
        match self {
            VcdConfig::Disable => VcdTree::Disabled,
            _ => filler.init_vcd(self),
        }
    }
}

} // verus!
