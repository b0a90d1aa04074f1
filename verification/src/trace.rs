//! The recorder as mathematics: what it holds, and what each operation makes
//! of it.

use crate::error::RecorderError;
use crate::graph::dot_text;
use vstd::prelude::*;

verus! {

/// What a recorder holds.
///
/// A node is known by its address, the pair of a frame identifier and a slot
/// identifier. Nodes and edges are kept in the order in which they were made.
pub struct Trace {
    /// The addresses of the nodes.
    pub addrs: Seq<(u64, u64)>,
    /// The label of each node, in the same order as `addrs`.
    pub labels: Seq<Seq<char>>,
    /// The edges, each from a producer's address to a consumer's.
    pub edges: Seq<((u64, u64), (u64, u64))>,
    /// The argument lists of the frames, outermost first. The first is the
    /// base frame, which is never left; the last is the current one.
    pub frames: Seq<Seq<Option<(u64, u64)>>>,
    /// The address of the node that most recently got a label, or the one
    /// that was named as the last node since.
    pub last: Option<(u64, u64)>,
    /// The number of frames that were left so far: the identifier of the
    /// invocation that is running.
    pub epoch: nat,
}

/// The label of a node: the value's text, behind `name = ` for a node that
/// stands for a named binding.
pub open spec fn label_text(var: Option<Seq<char>>, val: Seq<char>) -> Seq<char> {
    match var {
        Some(name) => name + seq![' ', '=', ' '] + val,
        None => val,
    }
}

/// The producer that an argument list records at a position: none for a
/// literal, and none for a position behind the list's end.
pub open spec fn producer_at(args: Seq<Option<(u64, u64)>>, position: int) -> Option<(u64, u64)> {
    if 0 <= position < args.len() {
        args[position]
    } else {
        None
    }
}

impl Trace {
    /// The recorder before anything was recorded: no node, no edge, the base
    /// frame with no argument, no last node, frame identifier 0.
    pub open spec fn fresh() -> Trace {
        Trace {
            addrs: Seq::empty(),
            labels: Seq::empty(),
            edges: Seq::empty(),
            frames: seq![Seq::empty()],
            last: None,
            epoch: 0,
        }
    }

    /// No address occurs twice, each node has a label, each edge joins two
    /// declared nodes, and the base frame is there.
    pub open spec fn wf(self) -> bool {
        &&& self.addrs.no_duplicates()
        &&& self.labels.len() == self.addrs.len()
        &&& forall|i: int|
            #![trigger self.edges[i]]
            0 <= i < self.edges.len() ==> self.declared(self.edges[i].0) && self.declared(
                self.edges[i].1,
            )
        &&& self.frames.len() >= 1
    }

    /// Whether a node was declared at the address.
    pub open spec fn declared(self, addr: (u64, u64)) -> bool {
        self.addrs.contains(addr)
    }

    /// The index of the node at a declared address: the number of nodes that
    /// were declared before it.
    pub open spec fn index_of(self, addr: (u64, u64)) -> int {
        self.addrs.index_of(addr)
    }

    /// The label of the node at a declared address.
    pub open spec fn label_of(self, addr: (u64, u64)) -> Seq<char> {
        self.labels[self.index_of(addr)]
    }

    /// Whether an edge leads from one address to the other.
    pub open spec fn has_edge(self, from: (u64, u64), to: (u64, u64)) -> bool {
        self.edges.contains((from, to))
    }

    /// The number of frames that were entered and not yet left.
    pub open spec fn depth(self) -> int {
        self.frames.len() - 1
    }

    /// The address under which the invocation that is running files a slot.
    pub open spec fn address_of(self, slot: u64) -> (nat, u64) {
        (self.epoch, slot)
    }

    /// The argument list of the current frame.
    pub open spec fn top(self) -> Seq<Option<(u64, u64)>> {
        self.frames.last()
    }

    /// Declaring an address appends a node with an empty label; an address
    /// that is declared already is refused.
    pub open spec fn declare(self, frame: u64, slot: u64) -> Result<Trace, RecorderError> {
        if self.declared((frame, slot)) {
            Err(RecorderError::DuplicateDeclaration { frame, slot })
        } else {
            Ok(
                Trace {
                    addrs: self.addrs.push((frame, slot)),
                    labels: self.labels.push(Seq::empty()),
                    ..self
                },
            )
        }
    }

    /// Defining a declared address replaces its label and makes it the last
    /// node; an address that was not declared is refused.
    pub open spec fn define(
        self,
        frame: u64,
        slot: u64,
        var: Option<Seq<char>>,
        val: Seq<char>,
    ) -> Result<Trace, RecorderError> {
        if self.declared((frame, slot)) {
            Ok(
                Trace {
                    labels: self.labels.update(self.index_of((frame, slot)), label_text(var, val)),
                    last: Some((frame, slot)),
                    ..self
                },
            )
        } else {
            Err(RecorderError::UndeclaredNode { frame, slot })
        }
    }

    /// Declaring and then defining.
    pub open spec fn node(
        self,
        frame: u64,
        slot: u64,
        var: Option<Seq<char>>,
        val: Seq<char>,
    ) -> Result<Trace, RecorderError> {
        match self.declare(frame, slot) {
            Ok(declared) => declared.define(frame, slot, var, val),
            Err(e) => Err(e),
        }
    }

    /// An edge between two declared addresses is appended; the first
    /// endpoint that was not declared, the source before the target, is
    /// reported.
    pub open spec fn edge(self, from_frame: u64, from_slot: u64, to_frame: u64, to_slot: u64)
        -> Result<Trace, RecorderError> {
        if !self.declared((from_frame, from_slot)) {
            Err(RecorderError::UnknownEndpoint { frame: from_frame, slot: from_slot })
        } else if !self.declared((to_frame, to_slot)) {
            Err(RecorderError::UnknownEndpoint { frame: to_frame, slot: to_slot })
        } else {
            Ok(
                Trace {
                    edges: self.edges.push(((from_frame, from_slot), (to_frame, to_slot))),
                    ..self
                },
            )
        }
    }

    /// Entering a frame puts an empty argument list on the stack.
    pub open spec fn push_frame(self) -> Trace {
        Trace { frames: self.frames.push(Seq::empty()), ..self }
    }

    /// Leaving a frame drops the current argument list and advances the
    /// frame identifier; with no frame entered there is none to leave.
    pub open spec fn pop_frame(self) -> Result<Trace, RecorderError> {
        if self.frames.len() <= 1 {
            Err(RecorderError::EmptyFrameStack)
        } else {
            Ok(Trace { frames: self.frames.drop_last(), epoch: self.epoch + 1, ..self })
        }
    }

    /// One more argument behind those of the current frame.
    pub open spec fn push_arg(self, arg: Option<(u64, u64)>) -> Trace {
        Trace {
            frames: self.frames.update(self.frames.len() - 1, self.frames.last().push(arg)),
            ..self
        }
    }

    /// The arguments of a call, recorded one after another in the order of
    /// the call.
    pub open spec fn push_args(self, args: Seq<Option<(u64, u64)>>) -> Trace
        decreases args.len(),
    {
        if args.len() == 0 {
            self
        } else {
            self.push_args(args.drop_last()).push_arg(args.last())
        }
    }

    /// An argument without a producer.
    pub open spec fn push_lit(self) -> Trace {
        self.push_arg(None)
    }

    /// An argument whose value the node at `addr` produced.
    pub open spec fn push_var(self, addr: (u64, u64)) -> Trace {
        self.push_arg(Some(addr))
    }

    /// The last node, once there is one.
    pub open spec fn last_node(self) -> Result<(u64, u64), RecorderError> {
        match self.last {
            Some(addr) => Ok(addr),
            None => Err(RecorderError::NoNodeYet),
        }
    }

    /// The last node set from outside.
    pub open spec fn set_last_node(self, addr: (u64, u64)) -> Trace {
        Trace { last: Some(addr), ..self }
    }

    /// A callee binds the parameter at `position`: the parameter's node is
    /// declared and defined under its name, and where the caller's argument
    /// list records a producer at that position, other than the parameter's
    /// own node, an edge leads from the producer to the parameter.
    pub open spec fn param(
        self,
        frame: u64,
        args: Seq<Option<(u64, u64)>>,
        position: int,
        slot: u64,
        var: Seq<char>,
        val: Seq<char>,
    ) -> Result<Trace, RecorderError> {
        match self.node(frame, slot, Some(var), val) {
            Ok(bound) => match producer_at(args, position) {
                Some(from) => if from == (frame, slot) {
                    Ok(bound)
                } else {
                    bound.edge(from.0, from.1, frame, slot)
                },
                None => Ok(bound),
            },
            Err(e) => Err(e),
        }
    }

    /// The edges as the graph store holds them: by the indices of their
    /// endpoints, each with an empty weight.
    pub open spec fn indexed_edges(self) -> Seq<(int, int, Seq<char>)> {
        Seq::new(
            self.edges.len(),
            |i: int| (self.index_of(self.edges[i].0), self.index_of(self.edges[i].1), Seq::empty()),
        )
    }

    /// The text of the trace: what the graph store's dot writer gives for
    /// these labels, in this order, and these edges, by index.
    pub open spec fn dot(self) -> Seq<char> {
        dot_text(self.labels, self.indexed_edges())
    }

    /// Declaring an address that is not declared appends it: it gets the
    /// next index and an empty label, and the trace stays well-formed.
    pub proof fn lemma_declare_appends(self, frame: u64, slot: u64)
        requires
            self.wf(),
            !self.declared((frame, slot)),
        ensures
            self.declare(frame, slot) matches Ok(t) && t.wf() && t.declared((frame, slot))
                && t.index_of((frame, slot)) == self.addrs.len() && t.label_of((frame, slot))
                == Seq::<char>::empty(),
    {
        let t = self.declare(frame, slot).unwrap();
        assert(t.addrs[self.addrs.len() as int] == (frame, slot));
        assert forall|i: int| 0 <= i < t.edges.len() implies t.declared(#[trigger] t.edges[i].0)
            && t.declared(t.edges[i].1) by {
            self.lemma_push_keeps_declared((frame, slot), self.edges[i].0);
            self.lemma_push_keeps_declared((frame, slot), self.edges[i].1);
        }
    }

    /// An address that is declared stays so, at its index, when another
    /// address is appended.
    pub proof fn lemma_push_keeps_declared(self, addr: (u64, u64), other: (u64, u64))
        requires
            self.addrs.no_duplicates(),
            !self.declared(addr),
            self.declared(other),
        ensures
            self.addrs.push(addr).contains(other),
            self.addrs.push(addr).index_of(other) == self.addrs.index_of(other),
    {
        let i = self.addrs.index_of(other);
        assert(self.addrs.push(addr)[i] == other);
    }

    /// Declaring and defining an address that is not declared appends a node
    /// with its label and makes it the last node; the rest stays as it is.
    pub proof fn lemma_node_appends(
        self,
        frame: u64,
        slot: u64,
        var: Option<Seq<char>>,
        val: Seq<char>,
    )
        requires
            self.wf(),
            !self.declared((frame, slot)),
        ensures
            self.node(frame, slot, var, val) == Ok::<Trace, RecorderError>(
                Trace {
                    addrs: self.addrs.push((frame, slot)),
                    labels: self.labels.push(label_text(var, val)),
                    last: Some((frame, slot)),
                    ..self
                },
            ),
            self.node(frame, slot, var, val) matches Ok(t) && t.wf() && t.declared((frame, slot))
                && t.index_of((frame, slot)) == self.addrs.len() && t.label_of((frame, slot))
                == label_text(var, val),
    {
        self.lemma_declare_appends(frame, slot);
        let t = self.node(frame, slot, var, val).unwrap();
        assert(t.labels =~= self.labels.push(label_text(var, val)));
    }

    /// A node that is declared stays declared, at its index, when another
    /// gets its node.
    pub proof fn lemma_node_keeps_declared(
        self,
        frame: u64,
        slot: u64,
        var: Option<Seq<char>>,
        val: Seq<char>,
        other: (u64, u64),
    )
        requires
            self.wf(),
            !self.declared((frame, slot)),
            self.declared(other),
        ensures
            self.node(frame, slot, var, val) matches Ok(t) && t.declared(other) && t.index_of(other)
                == self.index_of(other),
    {
        self.lemma_declare_appends(frame, slot);
        self.lemma_push_keeps_declared((frame, slot), other);
    }

    /// An address that is not declared, other than the one that gets its
    /// node, is not declared afterwards either.
    pub proof fn lemma_node_keeps_undeclared(
        self,
        frame: u64,
        slot: u64,
        var: Option<Seq<char>>,
        val: Seq<char>,
        other: (u64, u64),
    )
        requires
            self.wf(),
            !self.declared((frame, slot)),
            !self.declared(other),
            other != (frame, slot),
        ensures
            self.node(frame, slot, var, val) matches Ok(t) && !t.declared(other),
    {
        self.lemma_declare_appends(frame, slot);
        let grown = self.addrs.push((frame, slot));
        if grown.contains(other) {
            let i = grown.index_of(other);
            assert(self.addrs[i] == other);
        }
    }
}

} // verus!
