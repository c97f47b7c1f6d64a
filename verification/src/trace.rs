//! Execution call trees: one frame per contract invocation.

use vstd::prelude::*;

use crate::rational::Rat;
use crate::types::Address;

verus! {

/// One node of a transaction's execution call tree. Immutable once produced
/// by the trace source.
#[derive(Debug)]
pub struct CallFrame {
    /// The contract executed.
    pub address: Address,
    /// The caller of this frame.
    pub caller: Address,
    /// Raw input bytes: selector plus encoded arguments.
    pub input: Vec<u8>,
    /// Raw output bytes.
    pub output: Vec<u8>,
    /// Native asset transferred with the call.
    pub value: u64,
    /// Whether the frame succeeded; failed frames have no economic effect.
    pub success: bool,
    /// Depth-first execution order, unique within the transaction.
    pub trace_index: u64,
    /// Sub-calls, in execution order.
    pub children: Vec<CallFrame>,
}

/// Walks the tree in depth-first order, demanding strictly increasing trace
/// indices starting at `lo`. Yields the next admissible index after the
/// subtree, or `None` on a violation.
pub open spec fn spec_check_frame(f: CallFrame, lo: int) -> Option<int>
    decreases f, 0int,
{
    if f.trace_index < lo || f.trace_index >= u64::MAX {
        None
    } else {
        spec_check_frames(f.children@, f.trace_index + 1, 0)
    }
}

/// The same walk over the children `s[i..]`.
pub open spec fn spec_check_frames(s: Seq<CallFrame>, lo: int, i: int) -> Option<int>
    decreases s, s.len() - i, 1int,
{
    if i < 0 || i >= s.len() {
        Some(lo)
    } else {
        match spec_check_frame(s[i], lo) {
            None => None,
            Some(next) => spec_check_frames(s, next, i + 1),
        }
    }
}

/// A well-formed trace: trace indices strictly increase in depth-first
/// order. Violation is the one fatal, block-local error of the pipeline.
pub open spec fn spec_trace_ok(f: CallFrame) -> bool {
    spec_check_frame(f, 0) is Some
}

/// The walk never steps backwards: the next admissible index is at least
/// the starting one.
pub proof fn lemma_check_frame_lo(f: CallFrame, lo: int)
    requires
        spec_check_frame(f, lo) is Some,
    ensures
        lo <= f.trace_index < spec_check_frame(f, lo)->Some_0,
        spec_check_frame(f, lo)->Some_0 <= u64::MAX,
    decreases f, 0int,
{
    lemma_check_frames_lo(f.children@, f.trace_index + 1, 0);
}

/// The walk never steps backwards, over a child list.
pub proof fn lemma_check_frames_lo(s: Seq<CallFrame>, lo: int, i: int)
    requires
        spec_check_frames(s, lo, i) is Some,
    ensures
        lo <= spec_check_frames(s, lo, i)->Some_0,
        s.len() <= i ==> spec_check_frames(s, lo, i)->Some_0 == lo,
        lo <= u64::MAX ==> spec_check_frames(s, lo, i)->Some_0 <= u64::MAX,
    decreases s, s.len() - i, 1int,
{
    if 0 <= i < s.len() {
        match spec_check_frame(s[i], lo) {
            None => {},
            Some(next) => {
                lemma_check_frame_lo(s[i], lo);
                lemma_check_frames_lo(s, next, i + 1);
            },
        }
    }
}

/// Runs the depth-first index check on one frame.
pub fn check_frame(f: &CallFrame, lo: u64) -> (r: Option<u64>)
    ensures
        match r {
            Some(next) => spec_check_frame(*f, lo as int) == Some(next as int),
            None => spec_check_frame(*f, lo as int) is None,
        },
    decreases *f,
{
    if f.trace_index < lo || f.trace_index == u64::MAX {
        return None;
    }
    let mut cur: u64 = f.trace_index + 1;
    let n: usize = f.children.len();
    let mut i: usize = 0;
    while i < n
        invariant
            i <= n,
            n == f.children@.len(),
            spec_check_frames(f.children@, f.trace_index + 1, 0) == spec_check_frames(
                f.children@,
                cur as int,
                i as int,
            ),
        decreases n - i,
    {
        let child = &f.children[i];
        match check_frame(child, cur) {
            None => {
                return None;
            },
            Some(next) => {
                cur = next;
            },
        }
        i += 1;
    }
    Some(cur)
}

/// Checks that a trace is well-formed: indices strictly increase in
/// depth-first order.
pub fn check_trace(f: &CallFrame) -> (r: bool)
    ensures
        r == spec_trace_ok(*f),
{
    match check_frame(f, 0) {
        Some(_) => true,
        None => false,
    }
}

/// One transaction's raw trace as handed in by the trace source.
#[derive(Debug)]
pub struct TxTrace {
    /// Position of the transaction within its block.
    pub tx_index: u64,
    /// The externally owned account that sent the transaction.
    pub eoa: Address,
    /// Gas paid, in native asset units.
    pub gas_paid: Rat,
    /// The root call frame.
    pub root: CallFrame,
}


/// The number of frames in a subtree.
pub open spec fn frame_count(f: CallFrame) -> nat
    decreases f, 0int,
{
    1 + frames_count(f.children@, 0)
}

/// The number of frames in the subtrees of `s[i..]`.
pub open spec fn frames_count(s: Seq<CallFrame>, i: int) -> nat
    decreases s, s.len() - i, 1int,
{
    if i < 0 || i >= s.len() {
        0
    } else {
        frame_count(s[i]) + frames_count(s, i + 1)
    }
}

} // verus!

