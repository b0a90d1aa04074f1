use vstd::prelude::*;

verus! {

/// The ways in which a call can contradict what the recorder holds.
///
/// Each of them shows a fault in the instrumentation that drives the
/// recorder. The recorder is left unchanged by a call that reports one.
#[derive(Clone, Copy, Debug, PartialEq, Eq, Structural)]
pub enum RecorderError {
    /// The address was declared before.
    DuplicateDeclaration { frame: u64, slot: u64 },
    /// A label was given for an address that was never declared.
    UndeclaredNode { frame: u64, slot: u64 },
    /// An edge names an endpoint that was never declared.
    UnknownEndpoint { frame: u64, slot: u64 },
    /// A frame was to be left while none had been entered.
    EmptyFrameStack,
    /// The last node was asked for before any node got a label.
    NoNodeYet,
}

} // verus!
