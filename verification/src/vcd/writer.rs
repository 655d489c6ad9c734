//! Rendering a [`VcdForest`](crate::vcd::VcdForest) as a VCD byte stream.

use vstd::prelude::*;

use vstd::utf8::encode_utf8;

use crate::pins::{PinState, PinVec};
use crate::vcd::{
    entry_view, lemma_nodes_view, nodes_view, NodeShape, SignalShape, TreeShape, VcdForest,
    VcdForestEntry, VcdTree, VcdTreeHandle, VcdTreeModule, VcdTreeModuleEntry, VcdTreeSignal,
    signal_view, tree_view,
};

verus! {

// ---------------------------------------------------------------------
// Short identifiers.
//
// VCD aliases every signal by a short identifier: a non-empty string of
// printable ASCII bytes (33 through 126).  Identifiers are handed out in
// a fixed order: all one-byte identifiers, then all two-byte ones, and
// so on; within one length the last byte moves fastest.
// ---------------------------------------------------------------------
/// A well-formed short identifier: non-empty printable ASCII.
pub open spec fn id_wf(s: Seq<u8>) -> bool {
    s.len() > 0 && forall|i: int| 0 <= i < s.len() ==> 33 <= #[trigger] s[i] <= 126
}

/// The identifier after `s`: the last byte is incremented; bytes that
/// pass 126 wrap to 33 and carry left; carrying off the left end grows
/// the identifier by one byte.
pub open spec fn id_succ(s: Seq<u8>) -> Seq<u8>
    decreases s.len(),
{
    if s.len() == 0 {
        seq![33u8]
    } else if s.last() < 126 {
        s.update(s.len() - 1, (s.last() + 1) as u8)
    } else {
        id_succ(s.drop_last()).push(33u8)
    }
}

/// The `n`-th short identifier, starting from `"!"`.
pub open spec fn id_of(n: nat) -> Seq<u8>
    decreases n,
{
    if n == 0 {
        seq![33u8]
    } else {
        id_succ(id_of((n - 1) as nat))
    }
}

/// Strict lexicographic order on byte strings.
pub open spec fn lex_lt(a: Seq<u8>, b: Seq<u8>) -> bool
    decreases a.len(),
{
    b.len() > 0 && (a.len() == 0 || a[0] < b[0] || (a[0] == b[0] && lex_lt(
        a.drop_first(),
        b.drop_first(),
    )))
}

/// Length-then-lexicographic order: the order in which identifiers are
/// handed out.
pub open spec fn id_lt(a: Seq<u8>, b: Seq<u8>) -> bool {
    a.len() < b.len() || (a.len() == b.len() && lex_lt(a, b))
}

/// A successor is one byte longer at most, and never shorter.
proof fn lemma_id_succ_len(s: Seq<u8>)
    ensures
        s.len() <= id_succ(s).len() <= s.len() + 1,
    decreases s.len(),
{
    if s.len() > 0 && s.last() >= 126 {
        lemma_id_succ_len(s.drop_last());
    }
}

/// Every identifier in the sequence is non-empty printable ASCII.
pub proof fn lemma_id_succ_wf(s: Seq<u8>)
    requires
        id_wf(s),
    ensures
        id_wf(id_succ(s)),
    decreases s.len(),
{
    if s.last() < 126 {
        let t = id_succ(s);
        assert forall|i: int| 0 <= i < t.len() implies 33 <= #[trigger] t[i] <= 126 by {
            if i < s.len() - 1 {
                assert(t[i] == s[i]);
            }
        }
    } else {
        let u = s.drop_last();
        if u.len() > 0 {
            lemma_id_succ_wf(u);
        }
        let v = id_succ(u);
        let t = v.push(33u8);
        assert forall|i: int| 0 <= i < t.len() implies 33 <= #[trigger] t[i] <= 126 by {
            if i < v.len() {
                assert(t[i] == v[i]);
            }
        }
    }
}

/// Every identifier ever handed out is non-empty printable ASCII.
pub proof fn lemma_id_of_wf(n: nat)
    ensures
        id_wf(id_of(n)),
    decreases n,
{
    if n > 0 {
        lemma_id_of_wf((n - 1) as nat);
        lemma_id_succ_wf(id_of((n - 1) as nat));
    }
}

/// Appending one byte to each of two equal-length strings keeps the
/// strict lexicographic order, whatever the appended bytes are.
proof fn lemma_lex_push(a: Seq<u8>, b: Seq<u8>, x: u8, y: u8)
    requires
        a.len() == b.len(),
        lex_lt(a, b),
    ensures
        lex_lt(a.push(x), b.push(y)),
    decreases a.len(),
{
    if a.len() > 0 {
        if a[0] == b[0] {
            assert(a.push(x).drop_first() =~= a.drop_first().push(x));
            assert(b.push(y).drop_first() =~= b.drop_first().push(y));
            lemma_lex_push(a.drop_first(), b.drop_first(), x, y);
        }
    }
}

/// Raising one byte of a string gives a lexicographically larger string,
/// whatever stands after that byte.
proof fn lemma_lex_bump(a: Seq<u8>, b: Seq<u8>, k: int)
    requires
        a.len() == b.len(),
        0 <= k < a.len(),
        forall|i: int| 0 <= i < k ==> a[i] == b[i],
        a[k] < b[k],
    ensures
        lex_lt(a, b),
    decreases a.len(),
{
    if k > 0 {
        lemma_lex_bump(a.drop_first(), b.drop_first(), k - 1);
    }
}

/// Each identifier is strictly below its successor in length-then-lex
/// order.
pub proof fn lemma_id_succ_increases(s: Seq<u8>)
    requires
        id_wf(s),
    ensures
        id_lt(s, id_succ(s)),
    decreases s.len(),
{
    if s.last() < 126 {
        let t = id_succ(s);
        lemma_lex_bump(s, t, s.len() - 1);
    } else {
        let u = s.drop_last();
        let t = id_succ(u).push(33u8);
        lemma_id_succ_len(u);
        if u.len() == 0 {
            assert(t =~= seq![33u8, 33u8]);
        } else {
            lemma_id_succ_wf(u);
            if id_succ(u).len() == u.len() {
                lemma_id_succ_increases(u);
                assert(s =~= u.push(126u8));
                lemma_lex_push(u, id_succ(u), 126u8, 33u8);
            }
        }
    }
}

/// The strict lexicographic order is transitive.
proof fn lemma_lex_trans(a: Seq<u8>, b: Seq<u8>, c: Seq<u8>)
    requires
        lex_lt(a, b),
        lex_lt(b, c),
    ensures
        lex_lt(a, c),
    decreases a.len() + b.len() + c.len(),
{
    if a.len() > 0 && b.len() > 0 && a[0] == b[0] && b[0] == c[0] {
        lemma_lex_trans(a.drop_first(), b.drop_first(), c.drop_first());
    }
}

/// Nothing is lexicographically below itself.
proof fn lemma_lex_irrefl(a: Seq<u8>)
    ensures
        !lex_lt(a, a),
    decreases a.len(),
{
    if a.len() > 0 {
        lemma_lex_irrefl(a.drop_first());
    }
}

/// Length-then-lex order is transitive.
pub proof fn lemma_id_lt_trans(a: Seq<u8>, b: Seq<u8>, c: Seq<u8>)
    requires
        id_lt(a, b),
        id_lt(b, c),
    ensures
        id_lt(a, c),
{
    if a.len() == b.len() && b.len() == c.len() {
        lemma_lex_trans(a, b, c);
    }
}

/// Identifiers are handed out in strictly increasing length-then-lex
/// order.
pub proof fn lemma_id_of_increases(i: nat, j: nat)
    requires
        i < j,
    ensures
        id_lt(id_of(i), id_of(j)),
    decreases j,
{
    lemma_id_of_wf((j - 1) as nat);
    lemma_id_succ_increases(id_of((j - 1) as nat));
    if i < j - 1 {
        lemma_id_of_increases(i, (j - 1) as nat);
        lemma_id_lt_trans(id_of(i), id_of((j - 1) as nat), id_of(j));
    }
}

/// Any two distinct positions give distinct identifiers.
pub proof fn lemma_id_of_distinct(i: nat, j: nat)
    requires
        i != j,
    ensures
        id_of(i) != id_of(j),
{
    if i < j {
        lemma_id_of_increases(i, j);
    } else {
        lemma_id_of_increases(j, i);
    }
    if id_of(i) == id_of(j) {
        lemma_lex_irrefl(id_of(i));
    }
}

// ---------------------------------------------------------------------
// Decimal rendering.
// ---------------------------------------------------------------------
/// The decimal digits of `n`, most significant first.
pub open spec fn dec_digits(n: nat) -> Seq<u8>
    decreases n,
{
    if n < 10 {
        seq![(48 + n) as u8]
    } else {
        dec_digits(n / 10).push((48 + n % 10) as u8)
    }
}

/// Appends the decimal digits of `n` to `out`.
pub fn push_dec(out: &mut Vec<u8>, n: u64)
    ensures
        final(out)@ =~= old(out)@ + dec_digits(n as nat),
    decreases n,
{
    if n < 10 {
        out.push(48 + n as u8);
    } else {
        push_dec(out, n / 10);
        out.push(48 + (n % 10) as u8);
    }
}

// ---------------------------------------------------------------------
// Texts.
//
// Each part of the VCD output is specified as a byte sequence computed
// from the shape of the forest; the writer's contracts say that it
// emits exactly those bytes.
// ---------------------------------------------------------------------
/// How one pin state is written: `z`, `0`, `1` or `x`; weak drives are
/// written as their strong value.
pub open spec fn state_char(s: PinState) -> u8 {
    match s {
        PinState::Z => 122u8,
        PinState::Low | PinState::WeakLow => 48u8,
        PinState::High | PinState::WeakHigh => 49u8,
        PinState::Error => 120u8,
    }
}

/// The written form of a vector of states, most significant first.
pub open spec fn chars_of(v: Seq<PinState>) -> Seq<u8> {
    Seq::new(v.len(), |i: int| state_char(v[i]))
}

/// The stored identifier of a signal, or nothing when none is assigned.
pub open spec fn id_bytes(s: SignalShape) -> Seq<u8> {
    match s.id {
        Some(b) => b,
        None => Seq::empty(),
    }
}

/// One line of the value section: `<value><id>` for a single bit,
/// `b<bits> <id>` for a vector.
pub open spec fn signal_line(s: SignalShape) -> Seq<u8> {
    if s.size == 1 {
        chars_of(s.new_state@) + id_bytes(s) + seq![10u8]
    } else {
        seq![98u8] + chars_of(s.new_state@) + seq![32u8] + id_bytes(s) + seq![10u8]
    }
}

/// The `$var` declaration of a signal, with a bit range for vectors.
pub open spec fn var_line(size: u8, id: Seq<u8>, name: Seq<char>) -> Seq<u8> {
    encode_utf8("$var wire "@) + dec_digits(size as nat) + seq![32u8] + id + seq![32u8]
        + encode_utf8(name) + (if size == 1 {
        Seq::<u8>::empty()
    } else {
        seq![91u8] + dec_digits(
            if size == 0 {
                0
            } else {
                (size - 1) as nat
            },
        ) + encode_utf8(":0]"@)
    }) + encode_utf8(" $end\n"@)
}

/// The value section of one tree: every signal under a full dump, only
/// the changed ones otherwise.  A signal without an identifier is not
/// written.
pub open spec fn data_text(t: TreeShape, dumpvars: bool) -> Seq<u8>
    decreases t,
{
    match t {
        TreeShape::Disabled => Seq::empty(),
        TreeShape::Signal(s) => if s.id is Some && (dumpvars || s.old_state != s.new_state) {
            signal_line(s)
        } else {
            Seq::empty()
        },
        TreeShape::Module(ns) => data_nodes_text(ns, dumpvars),
    }
}

/// The value section of a sequence of module slots.
pub open spec fn data_nodes_text(ns: Seq<NodeShape>, dumpvars: bool) -> Seq<u8>
    decreases ns,
{
    if ns.len() == 0 {
        Seq::empty()
    } else {
        proof {
            assert(decreases_to!(ns => ns[0]));
            assert(decreases_to!(ns => ns.subrange(1, ns.len() as int)));
        }
        node_data_text(ns[0], dumpvars) + data_nodes_text(ns.drop_first(), dumpvars)
    }
}

/// The value section of one module slot.
pub open spec fn node_data_text(n: NodeShape, dumpvars: bool) -> Seq<u8>
    decreases n,
{
    match n.val {
        Some(t) => data_text(t, dumpvars),
        None => Seq::empty(),
    }
}

proof fn lemma_data_nodes_push(ns: Seq<NodeShape>, x: NodeShape, dumpvars: bool)
    ensures
        data_nodes_text(ns.push(x), dumpvars) =~= data_nodes_text(ns, dumpvars)
            + node_data_text(x, dumpvars),
    decreases ns.len(),
{
    if ns.len() == 0 {
        assert(ns.push(x).drop_first() =~= ns);
        assert(ns.push(x)[0] == x);
    } else {
        assert(ns.push(x)[0] == ns[0]);
        assert(ns.push(x).drop_first() =~= ns.drop_first().push(x));
        lemma_data_nodes_push(ns.drop_first(), x, dumpvars);
    }
}

/// Number of signals (with or without identifiers) in one tree.
pub open spec fn count_signals(t: TreeShape) -> nat
    decreases t,
{
    match t {
        TreeShape::Disabled => 0,
        TreeShape::Signal(_) => 1,
        TreeShape::Module(ns) => count_nodes(ns),
    }
}

/// Number of signals in a sequence of module slots.
pub open spec fn count_nodes(ns: Seq<NodeShape>) -> nat
    decreases ns,
{
    if ns.len() == 0 {
        0
    } else {
        proof {
            assert(decreases_to!(ns => ns[0]));
            assert(decreases_to!(ns => ns.subrange(1, ns.len() as int)));
        }
        node_count(ns[0]) + count_nodes(ns.drop_first())
    }
}

/// Number of signals in one module slot.
pub open spec fn node_count(n: NodeShape) -> nat
    decreases n,
{
    match n.val {
        Some(t) => count_signals(t),
        None => 0,
    }
}

proof fn lemma_count_nodes_push(ns: Seq<NodeShape>, x: NodeShape)
    ensures
        count_nodes(ns.push(x)) == count_nodes(ns) + node_count(x),
    decreases ns.len(),
{
    if ns.len() == 0 {
        assert(ns.push(x).drop_first() =~= ns);
        assert(ns.push(x)[0] == x);
    } else {
        assert(ns.push(x)[0] == ns[0]);
        assert(ns.push(x).drop_first() =~= ns.drop_first().push(x));
        lemma_count_nodes_push(ns.drop_first(), x);
    }
}

/// The tree with identifiers `id_of(n)`, `id_of(n + 1)`, ... assigned to
/// its signals in declaration order.
pub open spec fn assign_ids(t: TreeShape, n: nat) -> TreeShape
    decreases t,
{
    match t {
        TreeShape::Disabled => TreeShape::Disabled,
        TreeShape::Signal(s) => TreeShape::Signal(SignalShape { id: Some(id_of(n)), ..s }),
        TreeShape::Module(ns) => TreeShape::Module(assign_nodes(ns, n)),
    }
}

/// Identifier assignment across a sequence of module slots.
pub open spec fn assign_nodes(ns: Seq<NodeShape>, n: nat) -> Seq<NodeShape>
    decreases ns,
{
    if ns.len() == 0 {
        Seq::empty()
    } else {
        proof {
            assert(decreases_to!(ns => ns[0]));
            assert(decreases_to!(ns => ns.subrange(1, ns.len() as int)));
        }
        seq![assign_node(ns[0], n)] + assign_nodes(ns.drop_first(), n + node_count(ns[0]))
    }
}

/// Identifier assignment in one module slot.
pub open spec fn assign_node(nd: NodeShape, n: nat) -> NodeShape
    decreases nd,
{
    NodeShape {
        name: nd.name,
        val: match nd.val {
            Some(t) => Some(assign_ids(t, n)),
            None => None,
        },
    }
}

proof fn lemma_assign_nodes_push(ns: Seq<NodeShape>, x: NodeShape, n: nat)
    ensures
        assign_nodes(ns.push(x), n) =~= assign_nodes(ns, n) + seq![
            assign_node(x, (n + count_nodes(ns)) as nat),
        ],
    decreases ns.len(),
{
    if ns.len() == 0 {
        assert(ns.push(x).drop_first() =~= ns);
        assert(ns.push(x)[0] == x);
        assert(count_nodes(ns) == 0);
        assert(assign_nodes(ns, n) =~= Seq::<NodeShape>::empty());
        assert(assign_nodes(ns, (n + node_count(x)) as nat) =~= Seq::<NodeShape>::empty());
    } else {
        assert(ns.push(x)[0] == ns[0]);
        assert(ns.push(x).drop_first() =~= ns.drop_first().push(x));
        assert(count_nodes(ns) == node_count(ns[0]) + count_nodes(ns.drop_first()));
        lemma_assign_nodes_push(ns.drop_first(), x, (n + node_count(ns[0])) as nat);
        assert(assign_nodes(ns, n) =~= seq![assign_node(ns[0], n)] + assign_nodes(
            ns.drop_first(),
            (n + node_count(ns[0])) as nat,
        ));
        assert(assign_nodes(ns.push(x), n) =~= seq![assign_node(ns[0], n)] + assign_nodes(
            ns.drop_first().push(x),
            (n + node_count(ns[0])) as nat,
        ));
    }
}

proof fn lemma_assign_nodes_len(ns: Seq<NodeShape>, n: nat)
    ensures
        assign_nodes(ns, n).len() == ns.len(),
    decreases ns.len(),
{
    if ns.len() > 0 {
        lemma_assign_nodes_len(ns.drop_first(), (n + node_count(ns[0])) as nat);
    }
}

/// The scope section of one tree, reading the stored identifiers.
pub open spec fn scope_text(t: TreeShape, name: Seq<char>) -> Seq<u8>
    decreases t,
{
    match t {
        TreeShape::Disabled => Seq::empty(),
        TreeShape::Signal(s) => var_line(s.size, id_bytes(s), name),
        TreeShape::Module(ns) => encode_utf8("$scope module "@) + encode_utf8(name)
            + encode_utf8(" $end\n"@) + scope_nodes_text(ns) + encode_utf8("$upscope $end\n"@),
    }
}

/// The scope section of a sequence of module slots.
pub open spec fn scope_nodes_text(ns: Seq<NodeShape>) -> Seq<u8>
    decreases ns,
{
    if ns.len() == 0 {
        Seq::empty()
    } else {
        proof {
            assert(decreases_to!(ns => ns[0]));
            assert(decreases_to!(ns => ns.subrange(1, ns.len() as int)));
        }
        node_scope_text(ns[0]) + scope_nodes_text(ns.drop_first())
    }
}

/// The scope section of one module slot.
pub open spec fn node_scope_text(n: NodeShape) -> Seq<u8>
    decreases n,
{
    match n.val {
        Some(t) => scope_text(t, n.name),
        None => Seq::empty(),
    }
}

proof fn lemma_scope_nodes_push(ns: Seq<NodeShape>, x: NodeShape)
    ensures
        scope_nodes_text(ns.push(x)) =~= scope_nodes_text(ns) + node_scope_text(x),
    decreases ns.len(),
{
    if ns.len() == 0 {
        assert(ns.push(x).drop_first() =~= ns);
        assert(ns.push(x)[0] == x);
    } else {
        assert(ns.push(x)[0] == ns[0]);
        assert(ns.push(x).drop_first() =~= ns.drop_first().push(x));
        lemma_scope_nodes_push(ns.drop_first(), x);
    }
}

// ---------------------------------------------------------------------
// Byte-level building blocks.
// ---------------------------------------------------------------------
/// Appends the UTF-8 bytes of a string slice.
fn push_str_bytes(out: &mut Vec<u8>, s: &str)
    ensures
        final(out)@ =~= old(out)@ + encode_utf8(s@),
{
    let v = s.as_bytes_vec();
    push_bytes(out, &v);
}

/// Appends a copy of the given bytes.
fn push_bytes(out: &mut Vec<u8>, v: &Vec<u8>)
    ensures
        final(out)@ =~= old(out)@ + v@,
{
    let mut i: usize = 0;
    while i < v.len()
        invariant
            0 <= i <= v@.len(),
            out@ =~= old(out)@ + v@.take(i as int),
        decreases v@.len() - i,
    {
        out.push(v[i]);
        proof {
            assert(v@.take(i + 1) =~= v@.take(i as int).push(v@[i as int]));
        }
        i = i + 1;
    }
    proof {
        assert(v@.take(v@.len() as int) =~= v@);
    }
}

/// Encodes one [`PinState`] for the value section.
fn state_to_char(state: PinState) -> (r: u8)
    ensures
        r == state_char(state),
{
    match state {
        PinState::Z => 122,
        PinState::Low | PinState::WeakLow => 48,
        PinState::High | PinState::WeakHigh => 49,
        PinState::Error => 120,
    }
}

/// Appends the encoding of a whole vector of states.
fn state_vec_to_char(out: &mut Vec<u8>, state: &PinVec)
    ensures
        final(out)@ =~= old(out)@ + chars_of(state@),
{
    let len = state.len();
    let mut it = state.iter();
    let mut j: u8 = 0;
    while j < len
        invariant
            it.spec_vec() == *state,
            len as nat == state@.len(),
            0 <= j <= len,
            it.spec_pos() == len - 1 - j,
            out@ =~= old(out)@ + chars_of(state@).take(j as int),
        decreases len - j,
    {
        match it.next() {
            Some(st) => {
                let b = state_to_char(st);
                out.push(b);
                proof {
                    assert(chars_of(state@).take(j + 1) =~= chars_of(state@).take(
                        j as int,
                    ).push(state_char(state@[j as int])));
                }
            },
            None => {
                proof {
                    assert(false);
                }
            },
        }
        j = j + 1;
    }
    proof {
        assert(chars_of(state@).take(len as int) =~= chars_of(state@));
    }
}

// ---------------------------------------------------------------------
// The writer.
// ---------------------------------------------------------------------
/// Renders VCD signals as a byte stream.
pub struct VcdWriter {
    /// Bytes produced and not yet taken.
    out: Vec<u8>,
    /// The next VCD short identifier.
    wire_id: Vec<u8>,
    /// How many identifiers were handed out.
    assigned: Ghost<nat>,
    /// Current state of the VCD signals of every component.
    forest: VcdForest,
    /// Which components changed since the last step was written.
    changes: Vec<bool>,
}

impl VcdWriter {
    /// Generates a new VCD short identifier, advancing the counter.
    #[verifier::loop_isolation(false)]
    fn next_id(wire_id: &mut Vec<u8>) -> (r: Vec<u8>)
        requires
            id_wf(old(wire_id)@),
        ensures
            r@ == old(wire_id)@,
            final(wire_id)@ =~= id_succ(old(wire_id)@),
    {
        let mut r: Vec<u8> = Vec::new();
        push_bytes(&mut r, wire_id);
        let mut i: usize = wire_id.len();
        proof {
            assert(old(wire_id)@.take(i as int) =~= old(wire_id)@);
            assert(id_succ(old(wire_id)@) =~= id_succ(old(wire_id)@.take(i as int)) + Seq::new(
                0,
                |k: int| 33u8,
            ));
        }
        loop
            invariant
                0 <= i <= wire_id@.len(),
                wire_id@.len() == old(wire_id)@.len(),
                r@ =~= old(wire_id)@,
                id_wf(old(wire_id)@),
                forall|j: int| 0 <= j < i ==> wire_id@[j] == old(wire_id)@[j],
                forall|j: int| i <= j < wire_id@.len() ==> wire_id@[j] == 33,
                forall|j: int| i <= j < wire_id@.len() ==> old(wire_id)@[j] == 126,
                id_succ(old(wire_id)@) =~= id_succ(old(wire_id)@.take(i as int)) + Seq::new(
                    (wire_id@.len() - i) as nat,
                    |k: int| 33u8,
                ),
            decreases i,
        {
            if i == 0 {
                wire_id.push(33);
                proof {
                    assert(id_succ(old(wire_id)@.take(0)) =~= seq![33u8]);
                    assert(final(wire_id)@ =~= id_succ(old(wire_id)@));
                }
                return r;
            }
            let b = wire_id[i - 1];
            proof {
                assert(b == old(wire_id)@[i - 1]);
            }
            if b < 126 {
                let e = wire_id.remove(i - 1);
                wire_id.insert(i - 1, b + 1);
                proof {
                    let p = old(wire_id)@.take(i as int);
                    assert(p.last() == b);
                    assert(id_succ(p) =~= p.update(i - 1, (b + 1) as u8));
                    assert(final(wire_id)@ =~= id_succ(old(wire_id)@));
                }
                return r;
            } else {
                let e = wire_id.remove(i - 1);
                wire_id.insert(i - 1, 33);
                proof {
                    let p = old(wire_id)@.take(i as int);
                    assert(p.last() == 126);
                    assert(p.drop_last() =~= old(wire_id)@.take(i - 1));
                    assert(id_succ(old(wire_id)@.take(i - 1)) + Seq::new(
                        (wire_id@.len() - (i - 1)) as nat,
                        |k: int| 33u8,
                    ) =~= id_succ(p) + Seq::new((wire_id@.len() - i) as nat, |k: int| 33u8));
                }
                i = i - 1;
            }
        }
    }

    /// Writes the scope declaration of one tree, assigning identifiers
    /// to its signals in declaration order, and returns the tree with
    /// the identifiers stored.
    #[verifier::loop_isolation(false)]
    #[verifier::rlimit(100)]
    fn write_scope(
        out: &mut Vec<u8>,
        wire_id: &mut Vec<u8>,
        tree: VcdTree,
        name: &str,
        Ghost(n): Ghost<nat>,
    ) -> (r: VcdTree)
        requires
            old(wire_id)@ == id_of(n),
        ensures
            tree_view(r) =~~= assign_ids(tree_view(tree), n),
            final(wire_id)@ =~= id_of((n + count_signals(tree_view(tree))) as nat),
            final(out)@ =~= old(out)@ + scope_text(assign_ids(tree_view(tree), n), name@),
        decreases tree,
    {
        let ghost t0 = tree;
        match tree {
            VcdTree::Disabled => {
                proof {
                    assert(id_of((n + 0) as nat) =~= id_of(n));
                }
                VcdTree::Disabled
            },
            VcdTree::Signal(s) => {
                let ghost gs = s;
                proof {
                    assert(tree_view(t0) == TreeShape::Signal(signal_view(gs)));
                    lemma_id_of_wf(n);
                }
                let new_id = Self::next_id(wire_id);
                push_str_bytes(out, "$var wire ");
                push_dec(out, s.size as u64);
                out.push(32);
                push_bytes(out, &new_id);
                out.push(32);
                push_str_bytes(out, name);
                if s.size != 1 {
                    out.push(91);
                    if s.size == 0 {
                        push_dec(out, 0);
                    } else {
                        push_dec(out, (s.size - 1) as u64);
                    }
                    push_str_bytes(out, ":0]");
                }
                push_str_bytes(out, " $end\n");
                let r = VcdTree::Signal(
                    VcdTreeSignal {
                        size: s.size,
                        id: Some(new_id),
                        old_state: s.old_state,
                        new_state: s.new_state,
                    },
                );
                proof {
                    assert(tree_view(r) == TreeShape::Signal(SignalShape {
                        id: Some(id_of(n)),
                        ..signal_view(gs)
                    }));
                    let vline = var_line(gs.size, id_of(n), name@);
                    assert(scope_text(assign_ids(tree_view(t0), n), name@) == vline);
                    let widthpart = if gs.size == 1 {
                        Seq::<u8>::empty()
                    } else {
                        seq![91u8] + dec_digits(if gs.size == 0 {
                            0
                        } else {
                            (gs.size - 1) as nat
                        }) + encode_utf8(":0]"@)
                    };
                    let flat = encode_utf8("$var wire "@) + dec_digits(gs.size as nat) + seq![
                        32u8,
                    ] + id_of(n) + seq![32u8] + encode_utf8(name@) + widthpart + encode_utf8(
                        " $end\n"@,
                    );
                    assert(out@ =~= old(out)@ + flat);
                    if gs.size == 1 {
                        assert(vline =~= flat);
                    } else {
                        assert(vline =~= flat);
                    }
                    assert(out@ == old(out)@ + vline);
                }
                r
            },
            VcdTree::Module(m) => {
                let ghost ns = nodes_view(m.0@);
                proof {
                    lemma_nodes_view(m.0@);
                }
                push_str_bytes(out, "$scope module ");
                push_str_bytes(out, name);
                push_str_bytes(out, " $end\n");
                let ghost prefix = old(out)@ + encode_utf8("$scope module "@) + encode_utf8(
                    name@,
                ) + encode_utf8(" $end\n"@);
                let mut v = m.0;
                let ghost orig = v@;
                let vlen: usize = v.len();
                proof {
                    assert(orig.len() == vlen as int);
                }
                let mut done: Vec<VcdTreeModuleEntry> = Vec::new();
                let mut k: usize = 0;
                while v.len() > 0
                    invariant
                        ns == nodes_view(orig),
                        ns.len() == orig.len(),
                        forall|i: int| 0 <= i < orig.len() ==> #[trigger] ns[i] == entry_view(
                            orig[i],
                        ),
                        0 <= k <= orig.len(),
                        orig.len() <= usize::MAX,
                        v@ =~= orig.skip(k as int),
                        done@.len() == k,
                        nodes_view(done@) =~= assign_nodes(ns.take(k as int), n),
                        wire_id@ =~= id_of((n + count_nodes(ns.take(k as int))) as nat),
                        out@ =~= prefix + scope_nodes_text(assign_nodes(ns.take(k as int), n)),
                    decreases v@.len(),
                {
                    let e = v.remove(0);
                    proof {
                        assert(e == orig[k as int]);
                        assert(v@ =~= orig.skip(k as int + 1));
                    }
                    let e2 = match e.val {
                        Some(child) => {
                            let ghost oc = child;
                            proof {
                                assert(t0->Module_0.0@[k as int].val == Some(child));
                                assert(decreases_to!(t0 => t0->Module_0));
                                assert(decreases_to!(t0->Module_0 => t0->Module_0.0));
                                assert(decreases_to!(
                                    t0->Module_0.0 => t0->Module_0.0@[k as int]));
                                assert(decreases_to!(
                                    t0->Module_0.0@[k as int] => t0->Module_0.0@[k as int].val));
                                assert(decreases_to!(
                                    t0->Module_0.0@[k as int].val
                                        => t0->Module_0.0@[k as int].val->0));
                            }
                            let ghost child_n = (n + count_nodes(ns.take(k as int))) as nat;
                            let c2 = Self::write_scope(
                                out,
                                wire_id,
                                child,
                                e.name.as_str(),
                                Ghost(child_n),
                            );
                            proof {
                                assert(tree_view(c2) == assign_ids(tree_view(oc), child_n));
                                assert(ns[k as int] == entry_view(e));
                                assert(ns[k as int].val == Some(tree_view(oc)));
                                assert(assign_node(ns[k as int], child_n).val == Some(
                                    assign_ids(tree_view(oc), child_n),
                                ));
                                assert(assign_node(ns[k as int], child_n).name == e.name@);
                                assert(node_scope_text(assign_node(ns[k as int], child_n))
                                    == scope_text(assign_ids(tree_view(oc), child_n), e.name@));
                            }
                            VcdTreeModuleEntry { name: e.name, val: Some(c2) }
                        },
                        None => {
                            proof {
                                assert(ns[k as int] == entry_view(e));
                                assert(ns[k as int].val is None);
                            }
                            VcdTreeModuleEntry { name: e.name, val: None }
                        },
                    };
                    proof {
                        lemma_nodes_view(done@);
                        lemma_nodes_view(done@.push(e2));
                        lemma_assign_nodes_push(ns.take(k as int), ns[k as int], n);
                        lemma_count_nodes_push(ns.take(k as int), ns[k as int]);
                        lemma_scope_nodes_push(
                            assign_nodes(ns.take(k as int), n),
                            assign_node(ns[k as int], (n + count_nodes(ns.take(k as int))) as nat),
                        );
                        assert(ns.take(k as int).push(ns[k as int]) =~= ns.take(k as int + 1));
                        assert(assign_nodes(ns.take(k as int), n).push(
                            assign_node(ns[k as int], (n + count_nodes(ns.take(k as int))) as nat),
                        ) =~= assign_nodes(ns.take(k as int), n) + seq![
                            assign_node(ns[k as int], (n + count_nodes(ns.take(k as int))) as nat),
                        ]);
                        assert(entry_view(e2) == assign_node(
                            ns[k as int],
                            (n + count_nodes(ns.take(k as int))) as nat,
                        ));
                        assert(nodes_view(done@.push(e2)) =~= nodes_view(done@) + seq![
                            entry_view(e2),
                        ]);
                    }
                    done.push(e2);
                    k = k + 1;
                }
                proof {
                    assert(ns.take(ns.len() as int) =~= ns);
                }
                push_str_bytes(out, "$upscope $end\n");
                VcdTree::Module(VcdTreeModule(done))
            },
        }
    }

    /// Writes the value section of one tree: the whole of it under a
    /// full dump, only the changed signals otherwise.
    #[verifier::loop_isolation(false)]
    fn write_data(out: &mut Vec<u8>, tree: &VcdTree, dumpvars: bool)
        ensures
            final(out)@ =~= old(out)@ + data_text(tree_view(*tree), dumpvars),
        decreases *tree,
    {
        match tree {
            VcdTree::Disabled => {},
            VcdTree::Signal(s) => {
                match &s.id {
                    Some(idv) => {
                        if dumpvars || s.old_state != s.new_state {
                            if s.size == 1 {
                                state_vec_to_char(out, &s.new_state);
                                push_bytes(out, idv);
                                out.push(10);
                            } else {
                                out.push(98);
                                state_vec_to_char(out, &s.new_state);
                                out.push(32);
                                push_bytes(out, idv);
                                out.push(10);
                            }
                        }
                    },
                    None => {},
                }
            },
            VcdTree::Module(m) => {
                let ghost ns = nodes_view(m.0@);
                proof {
                    lemma_nodes_view(m.0@);
                }
                let mut k: usize = 0;
                while k < m.0.len()
                    invariant
                        *tree matches VcdTree::Module(mm) && mm == m,
                        ns == nodes_view(m.0@),
                        ns.len() == m.0@.len(),
                        forall|i: int| 0 <= i < ns.len() ==> #[trigger] ns[i] == entry_view(
                            m.0@[i],
                        ),
                        0 <= k <= ns.len(),
                        out@ =~= old(out)@ + data_nodes_text(ns.take(k as int), dumpvars),
                    decreases ns.len() - k,
                {
                    proof {
                        assert(tree_view(*tree) == TreeShape::Module(ns));
                    }
                    match &m.0[k].val {
                        Some(child) => {
                            proof {
                                assert((*tree)->Module_0.0@[k as int].val == Some(*child));
                                assert(decreases_to!(*tree => (*tree)->Module_0));
                                assert(decreases_to!((*tree)->Module_0 => (*tree)->Module_0.0));
                                assert(decreases_to!(
                                    (*tree)->Module_0.0 => (*tree)->Module_0.0@[k as int]));
                                assert(decreases_to!(
                                    (*tree)->Module_0.0@[k as int]
                                        => (*tree)->Module_0.0@[k as int].val));
                                assert(decreases_to!(
                                    (*tree)->Module_0.0@[k as int].val
                                        => (*tree)->Module_0.0@[k as int].val->0));
                            }
                            Self::write_data(out, child, dumpvars);
                        },
                        None => {},
                    }
                    proof {
                        lemma_data_nodes_push(ns.take(k as int), ns[k as int], dumpvars);
                        assert(ns.take(k as int).push(ns[k as int]) =~= ns.take(k as int + 1));
                    }
                    k = k + 1;
                }
                proof {
                    assert(ns.take(ns.len() as int) =~= ns);
                }
            },
        }
    }
}






// ---------------------------------------------------------------------
// Forests.
//
// The forest renders exactly like one list of module slots: each
// component's tree under its name, every slot occupied.
// ---------------------------------------------------------------------
/// The shapes of the forest's slots.
pub open spec fn forest_nodes(f: Seq<VcdForestEntry>) -> Seq<NodeShape>
    decreases f,
{
    if f.len() == 0 {
        Seq::empty()
    } else {
        proof {
            assert(decreases_to!(f => f[0]));
            assert(decreases_to!(f => f.subrange(1, f.len() as int)));
        }
        seq![
            NodeShape { name: f[0].name@, val: Some(tree_view(f[0].handle.tree)) },
        ] + forest_nodes(f.drop_first())
    }
}

/// The shapes of the forest's slots line up one for one with the slots.
pub proof fn lemma_forest_nodes(f: Seq<VcdForestEntry>)
    ensures
        forest_nodes(f).len() == f.len(),
        forall|i: int|
            0 <= i < f.len() ==> #[trigger] forest_nodes(f)[i] == (NodeShape {
                name: f[i].name@,
                val: Some(tree_view(f[i].handle.tree)),
            }),
    decreases f.len(),
{
    if f.len() > 0 {
        lemma_forest_nodes(f.drop_first());
    }
}

/// The delta section of one step: for each component flagged changed,
/// the changed signals of its tree.
pub open spec fn delta_text(ns: Seq<NodeShape>, changes: Seq<bool>) -> Seq<u8>
    decreases ns,
{
    if ns.len() == 0 {
        Seq::empty()
    } else {
        proof {
            assert(decreases_to!(ns => ns[0]));
            assert(decreases_to!(ns => ns.subrange(1, ns.len() as int)));
        }
        (if 0 < changes.len() && changes[0] {
            node_data_text(ns[0], false)
        } else {
            Seq::empty()
        }) + delta_text(ns.drop_first(), changes.drop_first())
    }
}

proof fn lemma_delta_text_push(ns: Seq<NodeShape>, changes: Seq<bool>, x: NodeShape, c: bool)
    requires
        ns.len() == changes.len(),
    ensures
        delta_text(ns.push(x), changes.push(c)) =~= delta_text(ns, changes) + (if c {
            node_data_text(x, false)
        } else {
            Seq::<u8>::empty()
        }),
    decreases ns.len(),
{
    if ns.len() == 0 {
        assert(ns.push(x).drop_first() =~= ns);
        assert(changes.push(c).drop_first() =~= changes);
        assert(ns.push(x)[0] == x);
        assert(changes.push(c)[0] == c);
    } else {
        assert(ns.push(x)[0] == ns[0]);
        assert(changes.push(c)[0] == changes[0]);
        assert(ns.push(x).drop_first() =~= ns.drop_first().push(x));
        assert(changes.push(c).drop_first() =~= changes.drop_first().push(c));
        lemma_delta_text_push(ns.drop_first(), changes.drop_first(), x, c);
    }
}

/// The fixed text that opens every dump.
pub open spec fn header_preamble() -> Seq<u8> {
    encode_utf8("$version amber $end\n"@) + encode_utf8("$date unknown $end\n"@) + encode_utf8(
        "$timescale 1ns $end\n"@,
    )
}

/// The whole header: preamble, the scope of every component under a
/// `TOP` module — assigning identifiers from `n` on — and a full dump
/// of every signal.
pub open spec fn header_text(ns: Seq<NodeShape>, n: nat) -> Seq<u8> {
    header_preamble() + encode_utf8("$scope module TOP $end\n"@) + scope_nodes_text(
        assign_nodes(ns, n),
    ) + encode_utf8("$upscope $end\n"@) + encode_utf8("$enddefinitions $end\n$dumpvars\n"@)
        + data_nodes_text(assign_nodes(ns, n), true) + encode_utf8("$end\n"@)
}

impl VcdWriter {
    /// The slots held, as shapes.
    pub closed spec fn spec_forest(self) -> Seq<NodeShape> {
        forest_nodes(self.forest.0@)
    }

    /// The per-component change flags.
    pub closed spec fn spec_changes(self) -> Seq<bool> {
        self.changes@
    }

    /// The bytes produced and not yet taken.
    pub closed spec fn spec_out(self) -> Seq<u8> {
        self.out@
    }

    /// How many short identifiers were handed out so far.
    pub closed spec fn spec_assigned(self) -> nat {
        self.assigned@
    }

    /// The writer's invariant: one change flag per slot, the identifier
    /// counter in step with the identifiers handed out, every tree well
    /// formed.
    pub closed spec fn wf(self) -> bool {
        &&& self.changes@.len() == self.forest.0@.len()
        &&& self.wire_id@ == id_of(self.assigned@)
    }

    /// Creates a new [`VcdWriter`] with no components and no output.
    pub fn new() -> (r: VcdWriter)
        ensures
            r.wf(),
            r.spec_forest() =~= Seq::<NodeShape>::empty(),
            r.spec_changes() =~= Seq::<bool>::empty(),
            r.spec_out() =~= Seq::<u8>::empty(),
    {
        let mut wire_id: Vec<u8> = Vec::new();
        wire_id.push(33);
        let r = VcdWriter {
            out: Vec::new(),
            wire_id,
            assigned: Ghost(0),
            forest: VcdForest::new(),
            changes: Vec::new(),
        };
        proof {
            assert(r.wire_id@ =~= id_of(0));
        }
        r
    }

    /// Adds the tree of a new threaded component with the given name;
    /// returns its slot index.
    pub fn add_threaded(&mut self, name: &str, vcd: VcdTree) -> (r: usize)
        requires
            old(self).wf(),
        ensures
            final(self).wf(),
            r == old(self).spec_forest().len(),
            final(self).spec_forest() =~= old(self).spec_forest().push(
                NodeShape { name: name@, val: Some(tree_view(vcd)) },
            ),
            final(self).spec_changes() =~= old(self).spec_changes().push(false),
            final(self).spec_out() == old(self).spec_out(),
            final(self).spec_assigned() == old(self).spec_assigned(),
    {
        self.changes.push(false);
        let r = self.forest.add_threaded(name, vcd);
        proof {
            lemma_forest_nodes(old(self).forest.0@);
            lemma_forest_nodes(self.forest.0@);
        }
        r
    }

    /// Adds the tree of a new cooperatively driven component with the
    /// given name; returns its slot index.
    pub fn add_threadless(&mut self, name: &str, vcd: VcdTree) -> (r: usize)
        requires
            old(self).wf(),
        ensures
            final(self).wf(),
            r == old(self).spec_forest().len(),
            final(self).spec_forest() =~= old(self).spec_forest().push(
                NodeShape { name: name@, val: Some(tree_view(vcd)) },
            ),
            final(self).spec_changes() =~= old(self).spec_changes().push(false),
            final(self).spec_out() == old(self).spec_out(),
            final(self).spec_assigned() == old(self).spec_assigned(),
    {
        self.changes.push(false);
        let r = self.forest.add_threadless(name, vcd);
        proof {
            lemma_forest_nodes(old(self).forest.0@);
            lemma_forest_nodes(self.forest.0@);
        }
        r
    }

    /// Marks a component's signals as changed since the last step.
    pub fn set_change(&mut self, component_id: usize)
        requires
            old(self).wf(),
            component_id < old(self).spec_changes().len(),
        ensures
            final(self).wf(),
            final(self).spec_changes() =~= old(self).spec_changes().update(
                component_id as int,
                true,
            ),
            final(self).spec_forest() == old(self).spec_forest(),
            final(self).spec_out() == old(self).spec_out(),
            final(self).spec_assigned() == old(self).spec_assigned(),
    {
        self.changes.remove(component_id);
        self.changes.insert(component_id, true);
        proof {
            assert(self.changes@ =~= old(self).changes@.update(component_id as int, true));
        }
    }

    /// Whether any component changed since the last step was written.
    fn has_changed(&self) -> (r: bool)
        ensures
            r == self.spec_changes().contains(true),
    {
        let mut i: usize = 0;
        while i < self.changes.len()
            invariant
                0 <= i <= self.changes@.len(),
                forall|j: int| 0 <= j < i ==> !self.changes@[j],
            decreases self.changes@.len() - i,
        {
            if self.changes[i] {
                proof {
                    assert(self.spec_changes()[i as int] == true);
                }
                return true;
            }
            i = i + 1;
        }
        proof {
            if self.spec_changes().contains(true) {
                let j = choose|j: int|
                    0 <= j < self.spec_changes().len() && self.spec_changes()[j] == true;
                assert(!self.changes@[j]);
            }
        }
        false
    }

    /// Clears every change flag.
    fn reset_changes(&mut self)
        ensures
            final(self).spec_changes() =~= Seq::new(
                old(self).spec_changes().len(),
                |i: int| false,
            ),
            final(self).spec_forest() == old(self).spec_forest(),
            final(self).spec_out() == old(self).spec_out(),
            final(self).wire_id == old(self).wire_id,
            final(self).assigned == old(self).assigned,
            final(self).forest == old(self).forest,
            final(self).out == old(self).out,
    {
        let len = self.changes.len();
        let mut fresh: Vec<bool> = Vec::new();
        let mut i: usize = 0;
        while i < len
            invariant
                fresh@.len() == i,
                0 <= i <= len,
                forall|j: int| 0 <= j < i ==> !fresh@[j],
            decreases len - i,
        {
            fresh.push(false);
            i = i + 1;
        }
        self.changes = fresh;
    }

    /// Takes the bytes produced so far, leaving the writer's buffer
    /// empty.
    pub fn take_output(&mut self) -> (r: Vec<u8>)
        requires
            old(self).wf(),
        ensures
            final(self).wf(),
            r@ == old(self).spec_out(),
            final(self).spec_out() =~= Seq::<u8>::empty(),
            final(self).spec_forest() == old(self).spec_forest(),
            final(self).spec_changes() == old(self).spec_changes(),
            final(self).spec_assigned() == old(self).spec_assigned(),
    {
        let mut taken: Vec<u8> = Vec::new();
        core::mem::swap(&mut taken, &mut self.out);
        taken
    }

    /// Writes the file header: preamble, one scope per component under
    /// `TOP` — assigning every signal its short identifier — and a full
    /// `$dumpvars` dump.
    pub fn write_header(&mut self)
        requires
            old(self).wf(),
        ensures
            final(self).wf(),
            final(self).spec_out() =~= old(self).spec_out() + header_text(
                old(self).spec_forest(),
                old(self).spec_assigned(),
            ),
            final(self).spec_forest() =~= assign_nodes(
                old(self).spec_forest(),
                old(self).spec_assigned(),
            ),
            final(self).spec_forest().len() == old(self).spec_forest().len(),
            final(self).spec_changes() == old(self).spec_changes(),
            final(self).spec_assigned() == old(self).spec_assigned() + count_nodes(
                old(self).spec_forest(),
            ),
    {
        let ghost n0 = self.assigned@;
        let ghost fv = self.spec_forest();
        proof {
            lemma_forest_nodes(self.forest.0@);
        }
        push_str_bytes(&mut self.out, "$version amber $end\n");
        push_str_bytes(&mut self.out, "$date unknown $end\n");
        push_str_bytes(&mut self.out, "$timescale 1ns $end\n");
        push_str_bytes(&mut self.out, "$scope module TOP $end\n");
        let ghost pre = old(self).out@ + header_preamble() + encode_utf8(
            "$scope module TOP $end\n"@,
        );
        let mut v: Vec<VcdForestEntry> = Vec::new();
        core::mem::swap(&mut v, &mut self.forest.0);
        let ghost orig = v@;
        let vlen: usize = v.len();
        proof {
            assert(orig.len() == vlen as int);
            assert(fv =~= forest_nodes(orig));
        }
        let mut done_entries: Vec<VcdForestEntry> = Vec::new();
        let mut k: usize = 0;
        while v.len() > 0
            invariant
                fv == forest_nodes(orig),
                fv.len() == orig.len(),
                forall|i: int|
                    0 <= i < orig.len() ==> #[trigger] fv[i] == (NodeShape {
                        name: orig[i].name@,
                        val: Some(tree_view(orig[i].handle.tree)),
                    }),
                0 <= k <= orig.len(),
                orig.len() <= usize::MAX,
                v@ =~= orig.skip(k as int),
                done_entries@.len() == k,
                forest_nodes(done_entries@) =~= assign_nodes(fv.take(k as int), n0),
                forall|i: int|
                    0 <= i < k ==> #[trigger] done_entries@[i].threaded == orig[i].threaded,
                self.wire_id@ =~= id_of((n0 + count_nodes(fv.take(k as int))) as nat),
                self.out@ =~= pre + scope_nodes_text(assign_nodes(fv.take(k as int), n0)),
                self.changes == old(self).changes,
                self.assigned == old(self).assigned,
            decreases v@.len(),
        {
            let e = v.remove(0);
            proof {
                assert(e == orig[k as int]);
                assert(v@ =~= orig.skip(k as int + 1));
                assert(fv[k as int] == NodeShape {
                    name: orig[k as int].name@,
                    val: Some(tree_view(orig[k as int].handle.tree)),
                });
            }
            let ghost otree = e.handle.tree;
            let ghost child_n = (n0 + count_nodes(fv.take(k as int))) as nat;
            let t2 = Self::write_scope(
                &mut self.out,
                &mut self.wire_id,
                e.handle.tree,
                e.name.as_str(),
                Ghost(child_n),
            );
            let e2 = VcdForestEntry {
                name: e.name,
                threaded: e.threaded,
                handle: VcdTreeHandle { tree: t2 },
            };
            proof {
                assert(tree_view(t2) == assign_ids(tree_view(otree), child_n));
                lemma_forest_nodes(done_entries@);
                lemma_forest_nodes(done_entries@.push(e2));
                lemma_assign_nodes_push(fv.take(k as int), fv[k as int], n0);
                lemma_count_nodes_push(fv.take(k as int), fv[k as int]);
                lemma_scope_nodes_push(
                    assign_nodes(fv.take(k as int), n0),
                    assign_node(fv[k as int], child_n),
                );
                assert(fv.take(k as int).push(fv[k as int]) =~= fv.take(k as int + 1));
                assert(assign_nodes(fv.take(k as int), n0).push(assign_node(
                    fv[k as int],
                    child_n,
                )) =~= assign_nodes(fv.take(k as int), n0) + seq![
                    assign_node(fv[k as int], child_n),
                ]);
                assert(assign_node(fv[k as int], child_n) == (NodeShape {
                    name: e.name@,
                    val: Some(assign_ids(tree_view(otree), child_n)),
                }));
                assert(node_scope_text(assign_node(fv[k as int], child_n)) == scope_text(
                    assign_ids(tree_view(otree), child_n),
                    e.name@,
                ));
                assert(forest_nodes(done_entries@.push(e2)) =~= forest_nodes(done_entries@)
                    + seq![
                    NodeShape { name: e2.name@, val: Some(tree_view(e2.handle.tree)) },
                ]);
            }
            done_entries.push(e2);
            k = k + 1;
        }
        proof {
            assert(fv.take(fv.len() as int) =~= fv);
        }
        self.forest.0 = done_entries;
        push_str_bytes(&mut self.out, "$upscope $end\n");
        push_str_bytes(&mut self.out, "$enddefinitions $end\n$dumpvars\n");
        self.assigned = Ghost((n0 + count_nodes(fv)) as nat);
        let ghost assigned_fv = assign_nodes(fv, n0);
        proof {
            lemma_forest_nodes(self.forest.0@);
            lemma_assign_nodes_len(fv, n0);
        }
        let flen = self.forest.0.len();
        let ghost pre2 = self.out@;
        let mut k2: usize = 0;
        while k2 < flen
            invariant
                flen == self.forest.0@.len(),
                forest_nodes(self.forest.0@) =~= assigned_fv,
                assigned_fv.len() == flen,
                0 <= k2 <= flen,
                self.out@ =~= pre2 + data_nodes_text(assigned_fv.take(k2 as int), true),
                self.wire_id@ =~= id_of(self.assigned@),
                self.assigned@ == n0 + count_nodes(fv),
                self.changes == old(self).changes,
                self.forest.0@.len() == flen,
            decreases flen - k2,
        {
            proof {
                lemma_forest_nodes(self.forest.0@);
                assert(assigned_fv[k2 as int] == NodeShape {
                    name: self.forest.0@[k2 as int].name@,
                    val: Some(tree_view(self.forest.0@[k2 as int].handle.tree)),
                });
            }
            let entry = &self.forest.0[k2];
            Self::write_data(&mut self.out, &entry.handle.tree, true);
            proof {
                lemma_data_nodes_push(assigned_fv.take(k2 as int), assigned_fv[k2 as int], true);
                assert(assigned_fv.take(k2 as int).push(assigned_fv[k2 as int])
                    =~= assigned_fv.take(k2 as int + 1));
            }
            k2 = k2 + 1;
        }
        proof {
            assert(assigned_fv.take(assigned_fv.len() as int) =~= assigned_fv);
            lemma_assign_nodes_len(fv, n0);
        }
        push_str_bytes(&mut self.out, "$end\n");
    }

    /// Writes one timestamp block: the changed signals of every changed
    /// component, after `#<time>`.  A step in which nothing changed
    /// writes nothing at all.
    pub fn write_step(&mut self, time_ns: u64)
        requires
            old(self).wf(),
        ensures
            final(self).wf(),
            final(self).spec_forest() == old(self).spec_forest(),
            final(self).spec_assigned() == old(self).spec_assigned(),
            old(self).spec_changes().contains(true) ==> final(self).spec_out() =~= old(self).spec_out() + seq![35u8] + dec_digits(time_ns as nat) + seq![10u8] + delta_text(
                old(self).spec_forest(),
                old(self).spec_changes(),
            ) && final(self).spec_changes() =~= Seq::new(
                old(self).spec_changes().len(),
                |i: int| false,
            ),
            !old(self).spec_changes().contains(true) ==> *final(self) == *old(self),
    {
        if self.has_changed() {
            self.out.push(35);
            push_dec(&mut self.out, time_ns);
            self.out.push(10);
            let ghost fv = self.spec_forest();
            let ghost chg = self.changes@;
            proof {
                lemma_forest_nodes(self.forest.0@);
            }
            let ghost pre2 = self.out@;
            let flen = self.forest.0.len();
            let mut k: usize = 0;
            while k < flen
                invariant
                    flen == self.forest.0@.len(),
                    self.forest == old(self).forest,
                    self.changes == old(self).changes,
                    self.wire_id == old(self).wire_id,
                    self.assigned == old(self).assigned,
                    fv == forest_nodes(self.forest.0@),
                    chg == self.changes@,
                    self.changes@.len() == flen,
                    fv.len() == flen,
                    0 <= k <= flen,
                    self.out@ =~= pre2 + delta_text(
                        fv.take(k as int),
                        chg.take(k as int),
                    ),
                decreases flen - k,
            {
                proof {
                    lemma_forest_nodes(self.forest.0@);
                    assert(fv[k as int] == NodeShape {
                        name: self.forest.0@[k as int].name@,
                        val: Some(tree_view(self.forest.0@[k as int].handle.tree)),
                    });
                }
                if self.changes[k] {
                    let entry = &self.forest.0[k];
                    Self::write_data(&mut self.out, &entry.handle.tree, false);
                }
                proof {
                    lemma_delta_text_push(
                        fv.take(k as int),
                        chg.take(k as int),
                        fv[k as int],
                        chg[k as int],
                    );
                    assert(fv.take(k as int).push(fv[k as int]) =~= fv.take(k as int + 1));
                    assert(chg.take(k as int).push(chg[k as int]) =~= chg.take(k as int + 1));
                }
                k = k + 1;
            }
            proof {
                assert(fv.take(fv.len() as int) =~= fv);
                assert(chg.take(chg.len() as int) =~= chg);
            }
            self.reset_changes();
        }
    }

    /// Refreshes a component's stored tree in place through a
    /// [`VcdFiller`](crate::vcd::fillers::VcdFiller); returns whether any
    /// of its signals changed.
    pub fn update_tree<T: crate::vcd::fillers::VcdFiller>(&mut self, index: usize, filler: &T)
        -> (r: bool)
        requires
            old(self).wf(),
            index < old(self).spec_forest().len(),
        ensures
            final(self).wf(),
            final(self).spec_forest().len() == old(self).spec_forest().len(),
            forall|i: int|
                0 <= i < old(self).spec_forest().len() && i != index ==> final(self).spec_forest()[i] == old(self).spec_forest()[i],
            final(self).spec_forest()[index as int].name == old(self).spec_forest()[
            index as int].name,
            final(self).spec_forest()[index as int].val is Some,
            final(self).spec_changes() == old(self).spec_changes(),
            final(self).spec_out() == old(self).spec_out(),
            final(self).spec_assigned() == old(self).spec_assigned(),
    {
        proof {
            lemma_forest_nodes(self.forest.0@);
        }
        let mut e = self.forest.0.remove(index);
        let r = filler.fill_vcd(&mut e.handle.tree);
        self.forest.0.insert(index, e);
        proof {
            assert(self.forest.0@ =~= old(self).forest.0@.update(
                index as int,
                self.forest.0@[index as int],
            ));
            lemma_forest_nodes(self.forest.0@);
            assert forall|i: int|
                0 <= i < old(self).spec_forest().len() && i != index implies final(self).spec_forest()[i] == old(self).spec_forest()[i] by {
                assert(self.forest.0@[i] == old(self).forest.0@[i]);
            }
        }
        r
    }

    /// A structurally fresh copy of the tree stored at `index`.
    pub fn tree_copy(&self, index: usize) -> (r: VcdTree)
        requires
            index < self.spec_forest().len(),
        ensures
            Some(tree_view(r)) =~~= self.spec_forest()[index as int].val,
    {
        proof {
            lemma_forest_nodes(self.forest.0@);
        }
        duplicate_tree(&self.forest.0[index].handle.tree)
    }

    /// Replaces a component's stored tree with a fresh snapshot, as a
    /// worker's message delivered it.
    pub fn replace_tree(&mut self, index: usize, tree: VcdTree)
        requires
            old(self).wf(),
            index < old(self).spec_forest().len(),
        ensures
            final(self).wf(),
            final(self).spec_forest() =~= old(self).spec_forest().update(
                index as int,
                NodeShape {
                    name: old(self).spec_forest()[index as int].name,
                    val: Some(tree_view(tree)),
                },
            ),
            final(self).spec_changes() == old(self).spec_changes(),
            final(self).spec_out() == old(self).spec_out(),
            final(self).spec_assigned() == old(self).spec_assigned(),
    {
        proof {
            lemma_forest_nodes(self.forest.0@);
        }
        let mut e = self.forest.0.remove(index);
        e.handle.tree = tree;
        self.forest.0.insert(index, e);
        proof {
            assert(self.forest.0@ =~= old(self).forest.0@.update(
                index as int,
                self.forest.0@[index as int],
            ));
            lemma_forest_nodes(self.forest.0@);
            assert(final(self).spec_forest() =~= old(self).spec_forest().update(
                index as int,
                NodeShape {
                    name: old(self).spec_forest()[index as int].name,
                    val: Some(tree_view(tree)),
                },
            ));
        }
    }
}

/// Makes a structurally fresh copy of a tree: same shape, same names,
/// same identifiers and states.
pub fn duplicate_tree(t: &VcdTree) -> (r: VcdTree)
    ensures
        tree_view(r) =~~= tree_view(*t),
    decreases *t,
{
    match t {
        VcdTree::Disabled => VcdTree::Disabled,
        VcdTree::Signal(s) => {
            let id2 = match &s.id {
                Some(v) => {
                    let mut c: Vec<u8> = Vec::new();
                    push_bytes(&mut c, v);
                    Some(c)
                },
                None => None,
            };
            VcdTree::Signal(
                VcdTreeSignal {
                    size: s.size,
                    id: id2,
                    old_state: s.old_state,
                    new_state: s.new_state,
                },
            )
        },
        VcdTree::Module(m) => {
            let ghost ns = nodes_view(m.0@);
            proof {
                lemma_nodes_view(m.0@);
            }
            let mut out_entries: Vec<VcdTreeModuleEntry> = Vec::new();
            let mut k: usize = 0;
            while k < m.0.len()
                invariant
                    *t matches VcdTree::Module(mm) && mm == m,
                    ns == nodes_view(m.0@),
                    ns.len() == m.0@.len(),
                    forall|i: int| 0 <= i < ns.len() ==> #[trigger] ns[i] == entry_view(
                        m.0@[i],
                    ),
                    0 <= k <= ns.len(),
                    out_entries@.len() == k,
                    forall|i: int|
                        0 <= i < k ==> #[trigger] entry_view(out_entries@[i]) =~~= ns[i],
                decreases ns.len() - k,
            {
                let entry = &m.0[k];
                let v2 = match &entry.val {
                    Some(child) => {
                        proof {
                            assert((*t)->Module_0.0@[k as int].val == Some(*child));
                            assert(decreases_to!(*t => (*t)->Module_0));
                            assert(decreases_to!((*t)->Module_0 => (*t)->Module_0.0));
                            assert(decreases_to!(
                                (*t)->Module_0.0 => (*t)->Module_0.0@[k as int]));
                            assert(decreases_to!(
                                (*t)->Module_0.0@[k as int] => (*t)->Module_0.0@[k as int].val));
                            assert(decreases_to!(
                                (*t)->Module_0.0@[k as int].val
                                    => (*t)->Module_0.0@[k as int].val->0));
                        }
                        Some(duplicate_tree(child))
                    },
                    None => None,
                };
                let name2: String = entry.name.as_str().to_owned();
                out_entries.push(VcdTreeModuleEntry { name: name2, val: v2 });
                k = k + 1;
            }
            let r = VcdTree::Module(VcdTreeModule(out_entries));
            proof {
                lemma_nodes_view(out_entries@);
                assert(nodes_view(out_entries@) =~~= ns);
            }
            r
        },
    }
}

} // verus!
