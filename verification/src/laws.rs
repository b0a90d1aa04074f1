//! What holds of every recorder, whatever it was used for.

use crate::error::RecorderError;
use crate::history::Op;
use crate::logger::Logger;
use crate::trace::{label_text, producer_at, Trace};
use vstd::prelude::*;

verus! {

/// A call that is accepted leaves a well-formed trace well-formed, keeps
/// every node at its index, and never takes the frame identifier back.
pub proof fn law_step_keeps_order(s: Trace, op: Op, t: Trace)
    requires
        s.wf(),
        s.step(op) == Ok::<Trace, RecorderError>(t),
    ensures
        t.wf(),
        s.epoch <= t.epoch,
        s.addrs.len() <= t.addrs.len(),
        forall|i: int| 0 <= i < s.addrs.len() ==> #[trigger] t.addrs[i] == s.addrs[i],
        forall|i: int|
            #![trigger t.addrs[i]]
            s.addrs.len() <= i < t.addrs.len() ==> Some(t.addrs[i]) == op.declares(),
{
    match op {
        Op::Declare { frame, slot } => {
            s.lemma_declare_appends(frame, slot);
        },
        Op::Node { frame, slot, var, val } => {
            s.lemma_node_appends(frame, slot, var, val);
        },
        Op::Param { frame, args, position, slot, name, val } => {
            lemma_param(s, frame, args, position, slot, name, val);
        },
        _ => {},
    }
}

/// A history that is accepted leaves a well-formed trace well-formed, keeps
/// every node at its index, and never takes the frame identifier back.
pub proof fn law_run_keeps_order(s: Trace, ops: Seq<Op>, t: Trace)
    requires
        s.wf(),
        s.run(ops) == Ok::<Trace, RecorderError>(t),
    ensures
        t.wf(),
        s.epoch <= t.epoch,
        s.addrs.len() <= t.addrs.len(),
        forall|i: int| 0 <= i < s.addrs.len() ==> #[trigger] t.addrs[i] == s.addrs[i],
    decreases ops.len(),
{
    if ops.len() > 0 {
        let mid = s.run(ops.drop_last()).unwrap();
        law_run_keeps_order(s, ops.drop_last(), mid);
        law_step_keeps_order(mid, ops.last(), t);
    }
}

/// An address is declared once. Whatever was recorded since, declaring it
/// again is refused with `DuplicateDeclaration`, and the node keeps its
/// index.
pub proof fn law_declared_once(s: Trace, addr: (u64, u64), ops: Seq<Op>, t: Trace)
    requires
        s.wf(),
        s.declared(addr),
        s.run(ops) == Ok::<Trace, RecorderError>(t),
    ensures
        t.declared(addr),
        t.index_of(addr) == s.index_of(addr),
        t.declare(addr.0, addr.1) == Err::<Trace, RecorderError>(
            RecorderError::DuplicateDeclaration { frame: addr.0, slot: addr.1 },
        ),
        t.node(addr.0, addr.1, None, Seq::empty()) is Err,
{
    law_run_keeps_order(s, ops, t);
    let i = s.index_of(addr);
    assert(t.addrs[i] == addr);
}

/// What was never declared cannot get a label and cannot be an endpoint of
/// an edge. Declaring it makes both possible.
pub proof fn law_declare_before_use(
    s: Trace,
    addr: (u64, u64),
    other: (u64, u64),
    var: Option<Seq<char>>,
    val: Seq<char>,
)
    requires
        s.wf(),
        !s.declared(addr),
        s.declared(other),
    ensures
        s.define(addr.0, addr.1, var, val) == Err::<Trace, RecorderError>(
            RecorderError::UndeclaredNode { frame: addr.0, slot: addr.1 },
        ),
        s.edge(addr.0, addr.1, other.0, other.1) == Err::<Trace, RecorderError>(
            RecorderError::UnknownEndpoint { frame: addr.0, slot: addr.1 },
        ),
        s.edge(other.0, other.1, addr.0, addr.1) == Err::<Trace, RecorderError>(
            RecorderError::UnknownEndpoint { frame: addr.0, slot: addr.1 },
        ),
        s.declare(addr.0, addr.1) is Ok,
        s.declare(addr.0, addr.1).unwrap().define(addr.0, addr.1, var, val) is Ok,
        s.declare(addr.0, addr.1).unwrap().edge(addr.0, addr.1, other.0, other.1) is Ok,
        s.declare(addr.0, addr.1).unwrap().edge(other.0, other.1, addr.0, addr.1) is Ok,
{
    s.lemma_declare_appends(addr.0, addr.1);
    s.lemma_push_keeps_declared(addr, other);
}

/// Each frame that is left advances the frame identifier by one, and
/// nothing takes it back. An invocation that begins after the frame of
/// another was left therefore runs under a greater identifier, and no
/// address of the one is an address of the other, whatever their slots.
pub proof fn law_frame_id_advances(s: Trace, ops: Seq<Op>, t: Trace, k: int)
    requires
        s.wf(),
        s.run(ops) == Ok::<Trace, RecorderError>(t),
        0 <= k < ops.len(),
        ops[k] == Op::PopFrame,
    ensures
        s.epoch < t.epoch,
        forall|slot_before: u64, slot_after: u64|
            #[trigger] s.address_of(slot_before) != #[trigger] t.address_of(slot_after),
    decreases ops.len(),
{
    let mid = s.run(ops.drop_last()).unwrap();
    law_run_keeps_order(s, ops.drop_last(), mid);
    law_step_keeps_order(mid, ops.last(), t);
    if k < ops.len() - 1 {
        assert(ops.drop_last()[k] == ops[k]);
        law_frame_id_advances(s, ops.drop_last(), mid, k);
    }
}

/// The frame identifier advances only where a frame is left: a history
/// without such a call ends under the identifier that it began with. So an
/// invocation that begins inside another, before any frame was left, files
/// its nodes under the identifier of the other, and a slot that both declare
/// is refused the second time.
pub proof fn law_frame_id_waits_for_pop(s: Trace, ops: Seq<Op>, t: Trace)
    requires
        s.run(ops) == Ok::<Trace, RecorderError>(t),
        forall|k: int| 0 <= k < ops.len() ==> #[trigger] ops[k] != Op::PopFrame,
    ensures
        t.epoch == s.epoch,
        forall|slot: u64| #[trigger] t.address_of(slot) == s.address_of(slot),
    decreases ops.len(),
{
    if ops.len() > 0 {
        let mid = s.run(ops.drop_last()).unwrap();
        assert forall|k: int| 0 <= k < ops.drop_last().len() implies #[trigger] ops.drop_last()[k]
            != Op::PopFrame by {
            assert(ops.drop_last()[k] == ops[k]);
        }
        law_frame_id_waits_for_pop(s, ops.drop_last(), mid);
        assert(ops.last() == ops[ops.len() - 1]);
    }
}

/// Where every node is declared under the frame identifier that is current
/// at the time, as instrumented code does, no node is ever filed under an
/// identifier that is yet to come.
pub proof fn law_nodes_filed_in_reached_frames(s: Trace, ops: Seq<Op>, t: Trace)
    requires
        s.wf(),
        s.filed_in_reached_frames(),
        s.declares_in_current_frame(ops),
        s.run(ops) == Ok::<Trace, RecorderError>(t),
    ensures
        t.filed_in_reached_frames(),
    decreases ops.len(),
{
    if ops.len() > 0 {
        let mid = s.run(ops.drop_last()).unwrap();
        law_run_keeps_order(s, ops.drop_last(), mid);
        law_nodes_filed_in_reached_frames(s, ops.drop_last(), mid);
        law_step_keeps_order(mid, ops.last(), t);
        assert forall|i: int| 0 <= i < t.addrs.len() implies (#[trigger] t.addrs[i]).0
            <= t.epoch by {
            if i < mid.addrs.len() {
                assert(t.addrs[i] == mid.addrs[i]);
            } else {
                assert(Some(t.addrs[i]) == ops.last().declares());
            }
        }
    }
}

/// Under the same discipline, once a frame was left no node is filed under
/// the identifier that is then current. Whatever slot the next invocation
/// declares first is free, also where an earlier invocation of the same
/// function declared that slot.
pub proof fn law_new_frame_is_unused(s: Trace, t: Trace, slot: u64)
    requires
        s.wf(),
        s.filed_in_reached_frames(),
        s.pop_frame() == Ok::<Trace, RecorderError>(t),
        t.epoch <= u64::MAX,
    ensures
        t.current_frame_unused(),
        !t.declared((t.epoch as u64, slot)),
        t.declare(t.epoch as u64, slot) is Ok,
{
    assert forall|i: int| 0 <= i < t.addrs.len() implies (#[trigger] t.addrs[i]).0 < t.epoch by {
        assert(s.addrs[i].0 <= s.epoch);
    }
    if t.declared((t.epoch as u64, slot)) {
        let i = t.index_of((t.epoch as u64, slot));
        assert(t.addrs[i].0 < t.epoch);
    }
}

/// Arguments keep the order of the call: recorded one after another, they
/// stand behind those that the current frame held, each at the position at
/// which it was recorded, and nothing else changes. In a frame that was just
/// entered they are the whole argument list.
pub proof fn law_arguments_keep_call_order(s: Trace, args: Seq<Option<(u64, u64)>>)
    requires
        s.wf(),
    ensures
        s.push_args(args) == (Trace {
            frames: s.frames.update(s.frames.len() - 1, s.top() + args),
            ..s
        }),
        s.push_args(args).top() == s.top() + args,
        s.push_frame().push_args(args) == (Trace { frames: s.frames.push(args), ..s }),
        s.push_frame().push_args(args).wf(),
{
    lemma_push_args(s, args);
    lemma_push_args(s.push_frame(), args);
    assert(s.push_frame().top() + args =~= args);
    assert(s.push_frame().frames.update(s.frames.len() as int, args) =~= s.frames.push(args));
}

/// Recording arguments one after another appends them to the current frame.
proof fn lemma_push_args(s: Trace, args: Seq<Option<(u64, u64)>>)
    requires
        s.wf(),
    ensures
        s.push_args(args) == (Trace {
            frames: s.frames.update(s.frames.len() - 1, s.top() + args),
            ..s
        }),
        s.push_args(args).top() == s.top() + args,
        s.push_args(args).wf(),
    decreases args.len(),
{
    let last = s.frames.len() - 1;
    if args.len() == 0 {
        assert(s.top() + args =~= s.top());
        assert(s.frames.update(last, s.top()) =~= s.frames);
    } else {
        lemma_push_args(s, args.drop_last());
        let before = s.push_args(args.drop_last());
        assert(args =~= args.drop_last().push(args.last()));
        assert(before.top().push(args.last()) =~= s.top() + args);
        assert(before.frames.update(last, s.top() + args) =~= s.frames.update(
            last,
            s.top() + args,
        ));
    }
}

/// A caller enters a frame and records its arguments; the callee binds its
/// parameter at position `n`. Where the caller's argument at `n` was a
/// traced value, the binding adds one edge, from the value's node to the
/// parameter's. Where it was a literal, the binding adds no edge, and none
/// leads to the parameter's node.
pub proof fn law_argument_threading(
    s: Trace,
    args: Seq<Option<(u64, u64)>>,
    n: int,
    frame: u64,
    slot: u64,
    var: Seq<char>,
    val: Seq<char>,
)
    requires
        s.wf(),
        0 <= n < args.len(),
        !s.declared((frame, slot)),
        args[n] matches Some(producer) ==> s.declared(producer),
    ensures
        ({
            let entered = s.push_frame().push_args(args);
            &&& entered.top() == args
            &&& entered.param(frame, entered.top(), n, slot, var, val) matches Ok(t)
            &&& match args[n] {
                Some(producer) => t.edges == s.edges.push((producer, (frame, slot)))
                    && t.has_edge(producer, (frame, slot)),
                None => t.edges == s.edges && forall|from: (u64, u64)|
                    !t.has_edge(from, (frame, slot)),
            }
        }),
{
    law_arguments_keep_call_order(s, args);
    let entered = s.push_frame().push_args(args);
    law_param_follows_arguments(entered, frame, args, n, slot, var, val);
    let t = entered.param(frame, args, n, slot, var, val).unwrap();
    match args[n] {
        Some(producer) => {
            assert(t.edges[s.edges.len() as int] == (producer, (frame, slot)));
        },
        None => {
            assert forall|from: (u64, u64)| !t.has_edge(from, (frame, slot)) by {
                if t.has_edge(from, (frame, slot)) {
                    let i = t.edges.index_of((from, (frame, slot)));
                    assert(s.declared(s.edges[i].1));
                }
            }
        },
    }
}

/// Binding a parameter whose address is free, with a declared producer or
/// with none: the node is appended, and the edge where there is a producer
/// other than the node itself.
proof fn lemma_param(
    s: Trace,
    frame: u64,
    args: Seq<Option<(u64, u64)>>,
    position: int,
    slot: u64,
    var: Seq<char>,
    val: Seq<char>,
)
    requires
        s.wf(),
        !s.declared((frame, slot)),
        s.param(frame, args, position, slot, var, val) is Ok,
    ensures
        s.param(frame, args, position, slot, var, val) matches Ok(t) && t.wf() && t.addrs
            == s.addrs.push((frame, slot)) && t.labels == s.labels.push(
            label_text(Some(var), val),
        ) && t.frames == s.frames && t.epoch == s.epoch && t.last == Some((frame, slot))
            && t.edges == (match producer_at(args, position) {
            Some(from) => if from == (frame, slot) {
                s.edges
            } else {
                s.edges.push((from, (frame, slot)))
            },
            None => s.edges,
        }),
{
    s.lemma_node_appends(frame, slot, Some(var), val);
    let bound = s.node(frame, slot, Some(var), val).unwrap();
    let t = s.param(frame, args, position, slot, var, val).unwrap();
    match producer_at(args, position) {
        Some(from) => {
            if from != (frame, slot) {
                assert(bound.declared(from));
                assert(t.edges == bound.edges.push((from, (frame, slot))));
                assert forall|i: int| 0 <= i < t.edges.len() implies t.declared(
                    #[trigger] t.edges[i].0,
                ) && t.declared(t.edges[i].1) by {
                    if i < bound.edges.len() {
                        assert(bound.declared(bound.edges[i].0));
                    }
                }
            }
        },
        None => {},
    }
}

/// A parameter is bound as its position in the caller's argument list says:
/// with an edge from the producer recorded there, and with no edge where
/// none is recorded.
pub proof fn law_param_follows_arguments(
    s: Trace,
    frame: u64,
    args: Seq<Option<(u64, u64)>>,
    position: int,
    slot: u64,
    var: Seq<char>,
    val: Seq<char>,
)
    requires
        s.wf(),
        !s.declared((frame, slot)),
        producer_at(args, position) matches Some(from) ==> s.declared(from),
    ensures
        s.param(frame, args, position, slot, var, val) matches Ok(t) && t.wf() && t.declared(
            (frame, slot),
        ) && t.label_of((frame, slot)) == var + seq![' ', '=', ' '] + val && t.edges == (
        match producer_at(args, position) {
            Some(from) => s.edges.push((from, (frame, slot))),
            None => s.edges,
        }),
{
    s.lemma_node_appends(frame, slot, Some(var), val);
    match producer_at(args, position) {
        Some(from) => {
            s.lemma_node_keeps_declared(frame, slot, Some(var), val, from);
        },
        None => {},
    }
    lemma_param(s, frame, args, position, slot, var, val);
}

/// The arguments recorded in a frame go to that frame alone. While more
/// frames are entered than at the start, whatever is called, the frames of
/// the start stay as they were; and when the first of the new frames is
/// left, the stack is what it was at the start.
pub proof fn law_frames_nest(s: Trace, ops: Seq<Op>, t: Trace)
    requires
        s.wf(),
        s.push_frame().run(ops) == Ok::<Trace, RecorderError>(t),
        s.push_frame().stays_deeper_than(ops, s.depth()),
    ensures
        t.frames.len() > s.frames.len(),
        t.frames.take(s.frames.len() as int) == s.frames,
        t.depth() == s.depth() + 1 ==> t.pop_frame() is Ok && t.pop_frame().unwrap().frames
            == s.frames,
    decreases ops.len(),
{
    let entered = s.push_frame();
    let n = s.frames.len() as int;
    if ops.len() == 0 {
        assert(entered.frames.take(n) =~= s.frames);
    } else {
        let mid = entered.run(ops.drop_last()).unwrap();
        law_frames_nest(s, ops.drop_last(), mid);
        lemma_step_keeps_lower_frames(mid, ops.last(), t, n);
    }
    if t.depth() == s.depth() + 1 {
        assert(t.frames.drop_last() =~= t.frames.take(n));
    }
}

/// A call changes no frame below the current one, and leaves at most one.
proof fn lemma_step_keeps_lower_frames(s: Trace, op: Op, t: Trace, n: int)
    requires
        s.step(op) == Ok::<Trace, RecorderError>(t),
        0 <= n < s.frames.len(),
        n < t.frames.len(),
    ensures
        t.frames.take(n) =~= s.frames.take(n),
{
}

/// Each frame that is left advances the frame identifier by exactly one,
/// and entering a frame or recording an argument leaves it alone.
pub proof fn law_frame_id_counts_pops(s: Trace, arg: Option<(u64, u64)>)
    requires
        s.wf(),
    ensures
        s.push_frame().epoch == s.epoch,
        s.push_arg(arg).epoch == s.epoch,
        s.push_frame().pop_frame() == Ok::<Trace, RecorderError>(
            Trace { epoch: s.epoch + 1, ..s },
        ),
        s.push_frame().push_arg(arg).pop_frame() == Ok::<Trace, RecorderError>(
            Trace { epoch: s.epoch + 1, ..s },
        ),
        s.push_arg(arg).frames.drop_last() == s.frames.drop_last(),
{
    assert(s.push_frame().frames.drop_last() =~= s.frames);
    assert(s.push_frame().push_arg(arg).frames.drop_last() =~= s.frames);
    assert(s.push_arg(arg).frames.drop_last() =~= s.frames.drop_last());
}

/// What a recorder holds is a function of the calls made on it, in their
/// order. Two recorders that went through the same history from a fresh
/// start hold the same trace and render the same text.
pub proof fn law_same_history_same_graph(a: Logger, b: Logger, ops: Seq<Op>)
    requires
        a.wf(),
        b.wf(),
        Trace::fresh().run(ops) == Ok::<Trace, RecorderError>(a@),
        Trace::fresh().run(ops) == Ok::<Trace, RecorderError>(b@),
    ensures
        a@ == b@,
        a@.dot() == b@.dot(),
{
}

} // verus!
