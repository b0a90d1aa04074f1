//! The recorder.

use crate::address::{key, key_of, lemma_key_injective};
use crate::error::RecorderError;
use crate::graph::{
    edge_entries, graph_add_edge, graph_add_node, graph_dot, graph_edge_count, graph_new,
    graph_node_count, graph_set_weight, node_weights,
};
use crate::trace::{label_text, producer_at, Trace};
use petgraph::graph::Graph;
use std::collections::HashMap;
use vstd::prelude::*;
use vstd::string::StringExecFns;

verus! {

/// A recorder: the graph of what was recorded so far, the stack of the
/// frames that are entered, the last node and the frame identifier.
pub struct Logger {
    graph: Graph<String, String>,
    nodes: HashMap<u128, usize>,
    addrs: Ghost<Seq<(u64, u64)>>,
    frames: Vec<Vec<Option<(u64, u64)>>>,
    last_node: Option<(u64, u64)>,
    epoch: u64,
}

/// The name of a binding, as the contracts see it.
pub open spec fn name_view(var: Option<String>) -> Option<Seq<char>> {
    match var {
        Some(name) => Some(name@),
        None => None,
    }
}

impl View for Logger {
    type V = Trace;

    closed spec fn view(&self) -> Trace {
        Trace {
            addrs: self.addrs@,
            labels: node_weights(self.graph),
            edges: Seq::new(
                edge_entries(self.graph).len(),
                |i: int|
                    (
                        self.addrs@[edge_entries(self.graph)[i].0],
                        self.addrs@[edge_entries(self.graph)[i].1],
                    ),
            ),
            frames: Seq::new(self.frames@.len(), |i: int| self.frames@[i]@),
            last: self.last_node,
            epoch: self.epoch as nat,
        }
    }
}

impl Logger {
    /// The recorder's invariant: every address has its node in the graph,
    /// at the index that the map gives for its key, and every edge of the
    /// graph joins two of these nodes and has an empty weight.
    pub closed spec fn wf(&self) -> bool {
        &&& node_weights(self.graph).len() == self.addrs@.len()
        &&& forall|i: int|
            #![trigger self.addrs@[i]]
            0 <= i < self.addrs@.len() ==> self.nodes@.contains_key(key_of(self.addrs@[i]))
                && self.nodes@[key_of(self.addrs@[i])] == i
        &&& forall|k: u128|
            #![trigger self.nodes@.contains_key(k)]
            self.nodes@.contains_key(k) ==> self.nodes@[k] < self.addrs@.len() && key_of(
                self.addrs@[self.nodes@[k] as int],
            ) == k
        &&& forall|j: int|
            #![trigger edge_entries(self.graph)[j]]
            0 <= j < edge_entries(self.graph).len() ==> {
                &&& 0 <= edge_entries(self.graph)[j].0 < self.addrs@.len()
                &&& 0 <= edge_entries(self.graph)[j].1 < self.addrs@.len()
                &&& edge_entries(self.graph)[j].2 == Seq::<char>::empty()
            }
        &&& self.frames@.len() >= 1
    }

    /// A well-formed recorder holds a well-formed trace.
    pub proof fn lemma_view_wf(&self)
        requires
            self.wf(),
        ensures
            self@.wf(),
    {
        let addrs = self.addrs@;
        assert forall|i: int, j: int| 0 <= i < addrs.len() && 0 <= j < addrs.len() && i != j
            implies addrs[i] != addrs[j] by {
            if addrs[i] == addrs[j] {
                assert(self.nodes@[key_of(addrs[i])] == i);
                assert(self.nodes@[key_of(addrs[j])] == j);
            }
        }
        assert forall|i: int| 0 <= i < self@.edges.len() implies self@.declared(
            #[trigger] self@.edges[i].0,
        ) && self@.declared(self@.edges[i].1) by {
            let e = edge_entries(self.graph)[i];
            assert(addrs[e.0] == self@.edges[i].0);
            assert(addrs[e.1] == self@.edges[i].1);
        }
    }

    /// A recorder that has recorded nothing.
    pub fn new() -> (s: Self)
        ensures
            s.wf(),
            s@ == Trace::fresh(),
    {
        let mut frames: Vec<Vec<Option<(u64, u64)>>> = Vec::new();
        frames.push(Vec::new());
        let s = Logger {
            graph: graph_new(),
            nodes: HashMap::new(),
            addrs: Ghost(Seq::empty()),
            frames,
            last_node: None,
            epoch: 0,
        };
        assert(s@.frames =~= seq![Seq::empty()]);
        assert(s@.edges =~= Seq::empty());
        s
    }

    /// The number of nodes.
    pub fn node_count(&self) -> (n: usize)
        requires
            self.wf(),
        ensures
            n == self@.addrs.len(),
    {
        graph_node_count(&self.graph)
    }

    /// The number of edges.
    pub fn edge_count(&self) -> (n: usize)
        requires
            self.wf(),
        ensures
            n == self@.edges.len(),
    {
        graph_edge_count(&self.graph)
    }

    /// Declares a node at the address `(frame, slot)`, with an empty label.
    ///
    /// An address that was declared before is refused with
    /// `DuplicateDeclaration`, and the node that holds it stays as it is.
    /// The graph store takes fewer than `u32::MAX` nodes.
    pub fn declare_node(&mut self, frame: u64, slot: u64) -> (r: Result<(), RecorderError>)
        requires
            old(self).wf(),
            !old(self)@.declared((frame, slot)) ==> old(self)@.addrs.len() < u32::MAX,
        ensures
            final(self).wf(),
            r is Ok <==> !old(self)@.declared((frame, slot)),
            match old(self)@.declare(frame, slot) {
                Ok(t) => r is Ok && final(self)@ == t,
                Err(e) => r == Err::<(), RecorderError>(e) && final(self)@ == old(self)@,
            },
    {
        let k: u128 = key(frame, slot);
        proof {
            old(self).lemma_key_declared((frame, slot));
        }
        if self.nodes.contains_key(&k) {
            return Err(RecorderError::DuplicateDeclaration { frame, slot });
        }
        let index: usize = graph_add_node(&mut self.graph, String::new());
        self.nodes.insert(k, index);
        proof {
            self.addrs@ = self.addrs@.push((frame, slot));
            let addrs = self.addrs@;
            assert forall|i: int| 0 <= i < addrs.len() implies self.nodes@.contains_key(
                key_of(#[trigger] addrs[i]),
            ) && self.nodes@[key_of(addrs[i])] == i by {
                if i < addrs.len() - 1 && key_of(addrs[i]) == k {
                    assert(old(self)@.declared(addrs[i]));
                    lemma_key_injective(addrs[i], (frame, slot));
                }
            }
            assert forall|q: u128| #[trigger] self.nodes@.contains_key(q) implies self.nodes@[q]
                < addrs.len() && key_of(addrs[self.nodes@[q] as int]) == q by {
                if q != k {
                    assert(addrs[self.nodes@[q] as int] == old(self).addrs@[old(
                        self,
                    ).nodes@[q] as int]);
                }
            }
            assert(self@.edges =~= old(self)@.edges);
        }
        Ok(())
    }

    /// The map holds the key of an address exactly when the address is
    /// declared, and then gives its index.
    proof fn lemma_key_declared(&self, addr: (u64, u64))
        requires
            self.wf(),
        ensures
            self.nodes@.contains_key(key_of(addr)) <==> self@.declared(addr),
            self@.declared(addr) ==> self.nodes@[key_of(addr)] == self@.index_of(addr),
            self@.declared(addr) ==> 0 <= self@.index_of(addr) < self.addrs@.len(),
            self@.declared(addr) ==> self.addrs@[self@.index_of(addr)] == addr,
    {
        let addrs = self.addrs@;
        if self.nodes@.contains_key(key_of(addr)) {
            let i = self.nodes@[key_of(addr)] as int;
            lemma_key_injective(addrs[i], addr);
            assert(addrs[i] == addr);
        }
        if addrs.contains(addr) {
            let i = addrs.index_of(addr);
            assert(self.nodes@.contains_key(key_of(addrs[i])));
        }
    }

    /// Gives the node at `(frame, slot)` its label, `val` or `var = val`, and
    /// makes it the last node.
    ///
    /// An address that was never declared is refused with `UndeclaredNode`.
    pub fn define_node(&mut self, frame: u64, slot: u64, var: Option<String>, val: String) -> (r:
        Result<(), RecorderError>)
        requires
            old(self).wf(),
        ensures
            final(self).wf(),
            r is Ok <==> old(self)@.declared((frame, slot)),
            match old(self)@.define(frame, slot, name_view(var), val@) {
                Ok(t) => r is Ok && final(self)@ == t,
                Err(e) => r == Err::<(), RecorderError>(e) && final(self)@ == old(self)@,
            },
    {
        let k: u128 = key(frame, slot);
        proof {
            old(self).lemma_key_declared((frame, slot));
        }
        let index: usize = match self.nodes.get(&k) {
            Some(index) => *index,
            None => {
                return Err(RecorderError::UndeclaredNode { frame, slot });
            },
        };
        let label = node_label(var, val);
        graph_set_weight(&mut self.graph, index, label);
        self.last_node = Some((frame, slot));
        Ok(())
    }

    /// Declares the node at `(frame, slot)` and gives it its label at once.
    ///
    /// This is `declare_node` followed by `define_node`, so a second call
    /// for one address is refused with `DuplicateDeclaration`.
    pub fn node(&mut self, frame: u64, slot: u64, var: Option<String>, val: String) -> (r: Result<
        (),
        RecorderError,
    >)
        requires
            old(self).wf(),
            !old(self)@.declared((frame, slot)) ==> old(self)@.addrs.len() < u32::MAX,
        ensures
            final(self).wf(),
            r is Ok <==> !old(self)@.declared((frame, slot)),
            match old(self)@.node(frame, slot, name_view(var), val@) {
                Ok(t) => r is Ok && final(self)@ == t,
                Err(e) => r == Err::<(), RecorderError>(e) && final(self)@ == old(self)@,
            },
    {
        match self.declare_node(frame, slot) {
            Ok(()) => {
                proof {
                    assert(self@.addrs.last() == (frame, slot));
                }
                self.define_node(frame, slot, var, val)
            },
            Err(e) => Err(e),
        }
    }

    /// Records that the value of the node at `(from_frame, from_slot)` went
    /// into the node at `(to_frame, to_slot)`. An edge that is there already
    /// is recorded once more.
    ///
    /// An endpoint that was never declared is refused with `UnknownEndpoint`,
    /// the source before the target. The graph store takes fewer than
    /// `u32::MAX` edges.
    pub fn edge(&mut self, from_frame: u64, from_slot: u64, to_frame: u64, to_slot: u64) -> (r:
        Result<(), RecorderError>)
        requires
            old(self).wf(),
            old(self)@.declared((from_frame, from_slot)) && old(self)@.declared((to_frame, to_slot))
                ==> old(self)@.edges.len() < u32::MAX,
        ensures
            final(self).wf(),
            r is Ok <==> old(self)@.declared((from_frame, from_slot)) && old(self)@.declared(
                (to_frame, to_slot),
            ),
            match old(self)@.edge(from_frame, from_slot, to_frame, to_slot) {
                Ok(t) => r is Ok && final(self)@ == t,
                Err(e) => r == Err::<(), RecorderError>(e) && final(self)@ == old(self)@,
            },
    {
        let from_key: u128 = key(from_frame, from_slot);
        let to_key: u128 = key(to_frame, to_slot);
        proof {
            old(self).lemma_key_declared((from_frame, from_slot));
            old(self).lemma_key_declared((to_frame, to_slot));
        }
        let from: usize = match self.nodes.get(&from_key) {
            Some(index) => *index,
            None => {
                return Err(RecorderError::UnknownEndpoint { frame: from_frame, slot: from_slot });
            },
        };
        let to: usize = match self.nodes.get(&to_key) {
            Some(index) => *index,
            None => {
                return Err(RecorderError::UnknownEndpoint { frame: to_frame, slot: to_slot });
            },
        };
        graph_add_edge(&mut self.graph, from, to, String::new());
        proof {
            assert(self@.edges =~= old(self)@.edges.push(
                ((from_frame, from_slot), (to_frame, to_slot)),
            ));
        }
        Ok(())
    }

    /// Enters a frame: a traced call or a traced expression begins, with no
    /// argument recorded for it yet.
    pub fn push_frame(&mut self)
        requires
            old(self).wf(),
        ensures
            final(self).wf(),
            final(self)@ == old(self)@.push_frame(),
    {
        self.frames.push(Vec::new());
        proof {
            assert(self@.frames =~= old(self)@.frames.push(Seq::empty()));
        }
    }

    /// Leaves the current frame and advances the frame identifier, so that
    /// the next invocation files its nodes under an identifier of its own.
    ///
    /// With no frame entered the call is refused with `EmptyFrameStack`. The
    /// frame identifier does not go beyond `u64::MAX`.
    pub fn pop_frame(&mut self) -> (r: Result<(), RecorderError>)
        requires
            old(self).wf(),
            old(self)@.depth() > 0 ==> old(self)@.epoch < u64::MAX,
        ensures
            final(self).wf(),
            r is Ok <==> old(self)@.depth() > 0,
            match old(self)@.pop_frame() {
                Ok(t) => r is Ok && final(self)@ == t,
                Err(e) => r == Err::<(), RecorderError>(e) && final(self)@ == old(self)@,
            },
    {
        if self.frames.len() <= 1 {
            return Err(RecorderError::EmptyFrameStack);
        }
        self.frames.pop();
        self.epoch = self.epoch + 1;
        proof {
            assert(self@.frames =~= old(self)@.frames.drop_last());
        }
        Ok(())
    }

    /// Records, behind the arguments of the current frame, one that has no
    /// producer.
    pub fn push_lit(&mut self)
        requires
            old(self).wf(),
        ensures
            final(self).wf(),
            final(self)@ == old(self)@.push_lit(),
    {
        self.push_arg(None);
    }

    /// Records, behind the arguments of the current frame, one whose value
    /// the node at `addr` produced.
    pub fn push_var(&mut self, addr: (u64, u64))
        requires
            old(self).wf(),
        ensures
            final(self).wf(),
            final(self)@ == old(self)@.push_var(addr),
    {
        self.push_arg(Some(addr));
    }

    fn push_arg(&mut self, arg: Option<(u64, u64)>)
        requires
            old(self).wf(),
        ensures
            final(self).wf(),
            final(self)@ == old(self)@.push_arg(arg),
    {
        let top: usize = self.frames.len() - 1;
        self.frames[top].push(arg);
        proof {
            assert(self@.frames =~= old(self)@.frames.update(
                top as int,
                old(self)@.frames.last().push(arg),
            ));
        }
    }

    /// The frame identifier of the invocation that is running, and a copy of
    /// the arguments recorded for the current frame.
    pub fn frame(&self) -> (r: (u64, Vec<Option<(u64, u64)>>))
        requires
            self.wf(),
        ensures
            r.0 == self@.epoch,
            r.1@ == self@.top(),
    {
        let top: &Vec<Option<(u64, u64)>> = &self.frames[self.frames.len() - 1];
        let mut args: Vec<Option<(u64, u64)>> = Vec::new();
        let mut i: usize = 0;
        while i < top.len()
            invariant
                i <= top.len(),
                args@ == top@.subrange(0, i as int),
            decreases top.len() - i,
        {
            args.push(top[i]);
            i = i + 1;
        }
        (self.epoch, args)
    }

    /// The address of the node that most recently got a label, or that
    /// `set_last_node` named since.
    ///
    /// Before there is one the call is refused with `NoNodeYet`.
    pub fn last_node(&self) -> (r: Result<(u64, u64), RecorderError>)
        requires
            self.wf(),
        ensures
            r == self@.last_node(),
    {
        match self.last_node {
            Some(addr) => Ok(addr),
            None => Err(RecorderError::NoNodeYet),
        }
    }

    /// Names the last node. The address is taken as it is.
    pub fn set_last_node(&mut self, addr: (u64, u64))
        requires
            old(self).wf(),
        ensures
            final(self).wf(),
            final(self)@ == old(self)@.set_last_node(addr),
    {
        self.last_node = Some(addr);
    }

    /// Binds the parameter at `position` of a traced function: declares and
    /// defines the parameter's node at `(frame, slot)` under the name `var`,
    /// and threads the argument's provenance into it. `args` is the argument
    /// list that `frame` returned on entry. Where it records a producer at
    /// `position`, an edge is added from the producer to the parameter; for
    /// a literal, for a position behind the list's end, and for a producer
    /// that is the parameter's own node, none is.
    ///
    /// A parameter whose address was declared before is refused with
    /// `DuplicateDeclaration`, a producer that was never declared with
    /// `UnknownEndpoint`; the recorder then stays as it was.
    pub fn param(
        &mut self,
        frame: u64,
        args: &Vec<Option<(u64, u64)>>,
        position: usize,
        slot: u64,
        var: String,
        val: String,
    ) -> (r: Result<(), RecorderError>)
        requires
            old(self).wf(),
            !old(self)@.declared((frame, slot)) ==> old(self)@.addrs.len() < u32::MAX
                && old(self)@.edges.len() < u32::MAX,
        ensures
            final(self).wf(),
            r is Ok <==> !old(self)@.declared((frame, slot)) && (producer_at(
                args@,
                position as int,
            ) matches Some(from) ==> from == (frame, slot) || old(self)@.declared(from)),
            match old(self)@.param(frame, args@, position as int, slot, var@, val@) {
                Ok(t) => r is Ok && final(self)@ == t,
                Err(e) => r == Err::<(), RecorderError>(e) && final(self)@ == old(self)@,
            },
    {
        let producer: Option<(u64, u64)> = if position < args.len() {
            args[position]
        } else {
            None
        };
        let k: u128 = key(frame, slot);
        proof {
            old(self).lemma_key_declared((frame, slot));
        }
        if self.nodes.contains_key(&k) {
            return Err(RecorderError::DuplicateDeclaration { frame, slot });
        }
        match producer {
            Some(from) => {
                if from.0 == frame && from.1 == slot {
                    self.node(frame, slot, Some(var), val)
                } else {
                    let from_key: u128 = key(from.0, from.1);
                    proof {
                        old(self).lemma_key_declared(from);
                    }
                    if !self.nodes.contains_key(&from_key) {
                        proof {
                            old(self).lemma_view_wf();
                            old(self)@.lemma_node_keeps_undeclared(
                                frame,
                                slot,
                                Some(var@),
                                val@,
                                from,
                            );
                        }
                        return Err(
                            RecorderError::UnknownEndpoint { frame: from.0, slot: from.1 },
                        );
                    }
                    let bound = self.node(frame, slot, Some(var), val);
                    assert(bound is Ok);
                    proof {
                        old(self).lemma_view_wf();
                        old(self)@.lemma_node_keeps_declared(frame, slot, Some(var@), val@, from);
                    }
                    self.edge(from.0, from.1, frame, slot)
                }
            },
            None => self.node(frame, slot, Some(var), val),
        }
    }

    /// The graph as text, in Graphviz's dot format as the graph store writes
    /// it: the nodes in the order of declaration, each with its index and its
    /// label, then the edges in the order of recording, each with the indices
    /// of its endpoints.
    pub fn render(&self) -> (text: String)
        requires
            self.wf(),
        ensures
            text@ == self@.dot(),
    {
        proof {
            self.lemma_view_wf();
            assert(self@.indexed_edges() =~= edge_entries(self.graph)) by {
                assert forall|i: int| 0 <= i < edge_entries(self.graph).len() implies self@.indexed_edges()[i]
                    == edge_entries(self.graph)[i] by {
                    let e = edge_entries(self.graph)[i];
                    assert(self.addrs@.index_of(self.addrs@[e.0]) == e.0);
                    assert(self.addrs@.index_of(self.addrs@[e.1]) == e.1);
                }
            }
        }
        graph_dot(&self.graph)
    }
}

/// Composes the label of a node: `val` alone, or `var = val` for a node that
/// stands for a named binding.
pub fn node_label(var: Option<String>, val: String) -> (label: String)
    ensures
        label@ == label_text(name_view(var), val@),
{
    match var {
        Some(name) => {
            let mut label = name;
            label.append(" = ");
            label.append(val.as_str());
            proof {
                reveal_strlit(" = ");
            }
            label
        },
        None => val,
    }
}

} // verus!
