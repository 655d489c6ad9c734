//! Value Change Dump exporter module.
//!
//! This module is used to capture signals from the components and render
//! them as a VCD byte stream.

pub mod builder;
pub mod config;
pub mod fillers;
pub mod writer;

use vstd::prelude::*;
use crate::pins::{PinState, PinStateConvertible, PinVec};

verus! {

/// VCD snapshot of a whole module tree.
pub enum VcdTree {
    Module(VcdTreeModule),
    Signal(VcdTreeSignal),
    Disabled,
}

/// One named slot of a module; `None` marks a child that the
/// configuration left out.
pub struct VcdTreeModuleEntry {
    pub name: String,
    pub val: Option<VcdTree>,
}

/// A recursive node of a VCD tree.
///
/// Can contain other modules and signals; the order of declaration is
/// the order in which they are written.
pub struct VcdTreeModule(pub Vec<VcdTreeModuleEntry>);

/// A leaf node of a VCD tree, containing a signal.
pub struct VcdTreeSignal {
    /// Number of bits in the signal.
    pub size: u8,
    /// Short ASCII id assigned to the signal when the header is written.
    pub id: Option<Vec<u8>>,
    /// Previous state of the signal, used to track changes.
    pub old_state: PinVec,
    /// Current state of the signal.
    pub new_state: PinVec,
}

/// A VCD tree of one component, as the forest stores it.
pub struct VcdTreeHandle {
    pub tree: VcdTree,
}

/// One component's slot in the forest.
pub struct VcdForestEntry {
    pub name: String,
    /// Whether the component runs on its own worker; the board then
    /// refreshes this tree from the worker's messages.
    pub threaded: bool,
    pub handle: VcdTreeHandle,
}

/// Top level structure, containing the VCD trees of all components in
/// the order they were added.
pub struct VcdForest(pub Vec<VcdForestEntry>);

/// The mathematical shape of a signal: the identifier as a byte
/// sequence, the states as the exact stored pin vectors.
pub struct SignalShape {
    pub size: u8,
    pub id: Option<Seq<u8>>,
    pub old_state: PinVec,
    pub new_state: PinVec,
}

/// The mathematical shape of a VCD tree: names as character sequences,
/// children in declaration order.
pub enum TreeShape {
    Module(Seq<NodeShape>),
    Signal(SignalShape),
    Disabled,
}

/// One named slot of a [`TreeShape::Module`].
pub struct NodeShape {
    pub name: Seq<char>,
    pub val: Option<TreeShape>,
}

/// The shape of a stored signal.
pub open spec fn signal_view(s: VcdTreeSignal) -> SignalShape {
    SignalShape {
        size: s.size,
        id: match s.id {
            Some(v) => Some(v@),
            None => None,
        },
        old_state: s.old_state,
        new_state: s.new_state,
    }
}

/// The shape of a stored tree.
pub open spec fn tree_view(t: VcdTree) -> TreeShape
    decreases t,
{
    match t {
        VcdTree::Module(m) => TreeShape::Module(nodes_view(m.0@)),
        VcdTree::Signal(s) => TreeShape::Signal(signal_view(s)),
        VcdTree::Disabled => TreeShape::Disabled,
    }
}

/// The shapes of a sequence of module slots.
pub open spec fn nodes_view(s: Seq<VcdTreeModuleEntry>) -> Seq<NodeShape>
    decreases s,
{
    if s.len() == 0 {
        Seq::empty()
    } else {
        proof {
            assert(decreases_to!(s => s[0]));
            assert(decreases_to!(s => s.subrange(1, s.len() as int)));
        }
        seq![entry_view(s[0])] + nodes_view(s.drop_first())
    }
}

/// The shape of one module slot.
pub open spec fn entry_view(e: VcdTreeModuleEntry) -> NodeShape
    decreases e,
{
    NodeShape {
        name: e.name@,
        val: match e.val {
            Some(t) => Some(tree_view(t)),
            None => None,
        },
    }
}

/// The shapes of the slots line up one for one with the slots.
pub proof fn lemma_nodes_view(s: Seq<VcdTreeModuleEntry>)
    ensures
        nodes_view(s).len() == s.len(),
        forall|i: int| 0 <= i < s.len() ==> #[trigger] nodes_view(s)[i] == entry_view(s[i]),
    decreases s.len(),
{
    if s.len() > 0 {
        lemma_nodes_view(s.drop_first());
    }
}

impl VcdTreeModule {
    /// Creates a new empty module.
    pub fn new() -> (r: VcdTreeModule)
        ensures
            r.0@ =~= Seq::<VcdTreeModuleEntry>::empty(),
    {
        VcdTreeModule(Vec::new())
    }

    /// Adds a child VCD tree `val` under name `key`.
    pub fn add(&mut self, key: &str, val: Option<VcdTree>)
        ensures
            final(self).0@.len() == old(self).0@.len() + 1,
            final(self).0@.subrange(0, old(self).0@.len() as int) =~= old(self).0@,
            final(self).0@.last().name@ == key@,
            final(self).0@.last().val == val,
    {
        let name: String = key.to_owned();
        self.0.push(VcdTreeModuleEntry { name, val });
    }

    /// Number of slots in this module.
    pub fn len(&self) -> (r: usize)
        ensures
            r == self.0@.len(),
    {
        self.0.len()
    }

    /// Updates the child signal at slot `index` with a new state.
    ///
    /// Returns whether the stored state changed.  A missing or disabled
    /// child never changes.
    pub fn update_subsignal<T: PinStateConvertible>(&mut self, index: usize, state: T) -> (r:
        bool)
        ensures
            final(self).0@.len() == old(self).0@.len(),
            forall|i: int|
                0 <= i < old(self).0@.len() && i != index ==> final(self).0@[i] == old(self).0@[i],
            index >= old(self).0@.len() ==> final(self).0@ =~= old(self).0@ && r == false,
            index < old(self).0@.len() ==> final(self).0@[index as int].name == old(self).0@[
            index as int].name,
            index < old(self).0@.len() ==> (old(self).0@[index as int].val matches Some(
                VcdTree::Signal(s),
            ) ==> {
                &&& final(self).0@[index as int].val matches Some(VcdTree::Signal(s2))
                    && s2 == (VcdTreeSignal {
                    old_state: s.new_state,
                    new_state: state.spec_to_pin_vec(),
                    ..s
                })
                &&& r == (s.new_state != state.spec_to_pin_vec())
            }),
            index < old(self).0@.len() ==> (!(old(self).0@[index as int].val matches Some(
                VcdTree::Signal(_),
            )) ==> final(self).0@ =~= old(self).0@ && r == false),
    {
        if index >= self.0.len() {
            return false;
        }
        let mut entry = self.0.remove(index);
        let r = match &mut entry.val {
            Some(child) => match child {
                VcdTree::Module(_) => false,
                VcdTree::Signal(signal) => signal.update(state),
                VcdTree::Disabled => false,
            },
            None => false,
        };
        self.0.insert(index, entry);
        proof {
            assert(self.0@ =~= old(self).0@.update(index as int, self.0@[index as int]));
        }
        r
    }

    /// Updates the child tree at slot `index` using a [`VcdFiller`].
    ///
    /// Returns whether any contained signal changed; a missing child
    /// never changes.
    pub fn update_child<T: fillers::VcdFiller>(&mut self, index: usize, filler: &T) -> (r: bool)
        ensures
            final(self).0@.len() == old(self).0@.len(),
            forall|i: int|
                0 <= i < old(self).0@.len() && i != index ==> final(self).0@[i] == old(self).0@[i],
            index >= old(self).0@.len() ==> final(self).0@ =~= old(self).0@ && r == false,
            index < old(self).0@.len() ==> final(self).0@[index as int].name == old(self).0@[
            index as int].name,
            (index < old(self).0@.len() && old(self).0@[index as int].val is None) ==> final(self).0@ =~= old(self).0@ && r == false,
    {
        if index >= self.0.len() {
            return false;
        }
        let mut entry = self.0.remove(index);
        let r = match &mut entry.val {
            Some(child) => filler.fill_vcd(child),
            None => false,
        };
        self.0.insert(index, entry);
        proof {
            assert(self.0@ =~= old(self).0@.update(index as int, self.0@[index as int]));
        }
        r
    }
}

impl VcdTreeSignal {
    /// Creates a new signal of specified size, filled initially with `val`.
    pub fn new(size: u8, val: PinState) -> (r: VcdTreeSignal)
        ensures
            r.size == size,
            r.id is None,
            r.old_state@ =~= Seq::new(size as nat, |i: int| val),
            r.new_state == r.old_state,
            r.old_state.wf(),
            size == 1 ==> r.old_state == PinVec::SinglePin(val),
            size != 1 ==> r.old_state == (PinVec::Repeated { size, state: val }),
    {
        let state = PinVec::new(size, val);
        VcdTreeSignal { size, id: None, old_state: state, new_state: state }
    }

    /// Updates the signal's state, keeping the previous one for change
    /// tracking.  Returns whether the stored state changed.
    pub fn update<T: PinStateConvertible>(&mut self, state: T) -> (r: bool)
        ensures
            final(self).size == old(self).size,
            final(self).id == old(self).id,
            final(self).old_state == old(self).new_state,
            final(self).new_state == state.spec_to_pin_vec(),
            r == (old(self).new_state != state.spec_to_pin_vec()),
    {
        self.old_state = self.new_state;
        self.new_state = state.to_pin_vec();
        self.old_state != self.new_state
    }
}

impl VcdForest {
    /// Creates an empty VCD forest.
    pub fn new() -> (r: VcdForest)
        ensures
            r.0@ =~= Seq::<VcdForestEntry>::empty(),
    {
        VcdForest(Vec::new())
    }

    /// Adds the tree of a new threaded component under the name `key`;
    /// returns its slot index.
    pub fn add_threaded(&mut self, key: &str, val: VcdTree) -> (r: usize)
        ensures
            final(self).0@.len() == old(self).0@.len() + 1,
            final(self).0@.subrange(0, old(self).0@.len() as int) =~= old(self).0@,
            final(self).0@.last().name@ == key@,
            final(self).0@.last().threaded == true,
            final(self).0@.last().handle.tree == val,
            r == old(self).0@.len(),
    {
        let r = self.0.len();
        let name: String = key.to_owned();
        self.0.push(VcdForestEntry { name, threaded: true, handle: VcdTreeHandle { tree: val } });
        r
    }

    /// Adds the tree of a new cooperatively driven component under the
    /// name `key`; returns its slot index.
    pub fn add_threadless(&mut self, key: &str, val: VcdTree) -> (r: usize)
        ensures
            final(self).0@.len() == old(self).0@.len() + 1,
            final(self).0@.subrange(0, old(self).0@.len() as int) =~= old(self).0@,
            final(self).0@.last().name@ == key@,
            final(self).0@.last().threaded == false,
            final(self).0@.last().handle.tree == val,
            r == old(self).0@.len(),
    {
        let r = self.0.len();
        let name: String = key.to_owned();
        self.0.push(VcdForestEntry { name, threaded: false, handle: VcdTreeHandle { tree: val } });
        r
    }
}

} // verus!
