//! Histories: the calls made on a recorder, one after another.

use crate::error::RecorderError;
use crate::trace::Trace;
use vstd::prelude::*;

verus! {

/// One call on a recorder, with its arguments.
pub enum Op {
    /// `declare_node`
    Declare { frame: u64, slot: u64 },
    /// `define_node`
    Define { frame: u64, slot: u64, var: Option<Seq<char>>, val: Seq<char> },
    /// `node`
    Node { frame: u64, slot: u64, var: Option<Seq<char>>, val: Seq<char> },
    /// `edge`
    Edge { from: (u64, u64), to: (u64, u64) },
    /// `push_frame`
    PushFrame,
    /// `pop_frame`
    PopFrame,
    /// `push_lit`
    PushLit,
    /// `push_var`
    PushVar { addr: (u64, u64) },
    /// `set_last_node`
    SetLastNode { addr: (u64, u64) },
    /// `param`
    Param {
        frame: u64,
        args: Seq<Option<(u64, u64)>>,
        position: int,
        slot: u64,
        name: Seq<char>,
        val: Seq<char>,
    },
}

impl Op {
    /// The address at which the call declares a node, where it declares one.
    pub open spec fn declares(self) -> Option<(u64, u64)> {
        match self {
            Op::Declare { frame, slot } => Some((frame, slot)),
            Op::Node { frame, slot, .. } => Some((frame, slot)),
            Op::Param { frame, slot, .. } => Some((frame, slot)),
            _ => None,
        }
    }
}

impl Trace {
    /// What one call makes of the trace: for each call the function of
    /// `Trace` that the recorder's method of that name is held to.
    pub open spec fn step(self, op: Op) -> Result<Trace, RecorderError> {
        match op {
            Op::Declare { frame, slot } => self.declare(frame, slot),
            Op::Define { frame, slot, var, val } => self.define(frame, slot, var, val),
            Op::Node { frame, slot, var, val } => self.node(frame, slot, var, val),
            Op::Edge { from, to } => self.edge(from.0, from.1, to.0, to.1),
            Op::PushFrame => Ok(self.push_frame()),
            Op::PopFrame => self.pop_frame(),
            Op::PushLit => Ok(self.push_lit()),
            Op::PushVar { addr } => Ok(self.push_var(addr)),
            Op::SetLastNode { addr } => Ok(self.set_last_node(addr)),
            Op::Param { frame, args, position, slot, name, val } => self.param(
                frame,
                args,
                position,
                slot,
                name,
                val,
            ),
        }
    }

    /// What a history makes of the trace. The first call that is refused
    /// ends it, with that call's error.
    pub open spec fn run(self, ops: Seq<Op>) -> Result<Trace, RecorderError>
        decreases ops.len(),
    {
        if ops.len() == 0 {
            Ok(self)
        } else {
            match self.run(ops.drop_last()) {
                Ok(t) => t.step(ops.last()),
                Err(e) => Err(e),
            }
        }
    }

    /// Every node is filed under a frame identifier that has been reached.
    pub open spec fn filed_in_reached_frames(self) -> bool {
        forall|i: int| 0 <= i < self.addrs.len() ==> (#[trigger] self.addrs[i]).0 <= self.epoch
    }

    /// Every node is filed under a frame identifier that was left behind:
    /// none under the current one.
    pub open spec fn current_frame_unused(self) -> bool {
        forall|i: int| 0 <= i < self.addrs.len() ==> (#[trigger] self.addrs[i]).0 < self.epoch
    }

    /// The history declares nodes as instrumented code does: each under the
    /// frame identifier that is current when it is declared.
    pub open spec fn declares_in_current_frame(self, ops: Seq<Op>) -> bool
        decreases ops.len(),
    {
        if ops.len() == 0 {
            true
        } else {
            &&& self.declares_in_current_frame(ops.drop_last())
            &&& match (self.run(ops.drop_last()), ops.last().declares()) {
                (Ok(t), Some(addr)) => addr.0 == t.epoch,
                _ => true,
            }
        }
    }

    /// Throughout the history more than `depth` frames are entered.
    pub open spec fn stays_deeper_than(self, ops: Seq<Op>, depth: int) -> bool
        decreases ops.len(),
    {
        &&& match self.run(ops) {
            Ok(t) => t.depth() > depth,
            Err(_) => true,
        }
        &&& ops.len() > 0 ==> self.stays_deeper_than(ops.drop_last(), depth)
    }
}

} // verus!
