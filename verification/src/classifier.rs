//! The action normalization engine.
//!
//! A depth-first walk over a transaction's call tree. A frame that decodes
//! to a known protocol action emits exactly one normalized action and
//! absorbs its immediate token-movement children, so a swap's internal
//! transfers are not double counted; a plain token or native transfer
//! emits a transfer action; a failed frame and its whole subtree emit
//! nothing. Classification is a pure function of the call tree and the
//! registry.

use vstd::prelude::*;

use crate::actions::{
    BlockActionSet, Metadata, NormalizedAction, NormalizedBurn, NormalizedCollect,
    NormalizedMint, NormalizedSwap, NormalizedTransfer, TransactionActions,
};
use crate::bindings::{selector_is, StaticReturnBindings, UniswapV2Calls, UniswapV3Calls};
use crate::rational::Rat;
use crate::registry::{spec_decode_frame, DecodedCall, ProtocolRegistry, RegistryEntry};
use crate::trace::{
    check_trace, frame_count, frames_count, lemma_check_frame_lo, lemma_check_frames_lo,
    spec_check_frame, spec_check_frames, spec_trace_ok, CallFrame, TxTrace,
};
use crate::types::{Address, Protocol};
use crate::words::{
    address_word_ok, address_word_val, amount_word_ok, amount_word_val, read_address_word,
    read_amount_word,
};

verus! {

/// Classification failure: the one fatal, block-local error.
#[derive(Clone, Copy, PartialEq, Eq, Structural, Debug)]
pub enum ClassifyError {
    /// Trace indices are not strictly increasing in depth-first order.
    MalformedTrace,
}

/// The token or native movement a frame stands for, if any: an ERC-20
/// `transfer` call, an ERC-20 `transferFrom` call, or a bare value
/// transfer with empty input.
pub open spec fn spec_transfer_of(f: CallFrame) -> Option<NormalizedTransfer> {
    let s = f.input@;
    if s.len() == 68 && selector_is(s, 0xa9, 0x05, 0x9c, 0xbb) && address_word_ok(s, 4)
        && amount_word_ok(s, 36) {
        Some(
            NormalizedTransfer {
                trace_index: f.trace_index,
                from: f.caller,
                to: address_word_val(s, 4),
                token: f.address,
                amount: Rat { num: amount_word_val(s, 36) as i64, den: 1 },
                fee: Rat { num: 0, den: 1 },
            },
        )
    } else if s.len() == 100 && selector_is(s, 0x23, 0xb8, 0x72, 0xdd) && address_word_ok(s, 4)
        && address_word_ok(s, 36) && amount_word_ok(s, 68) {
        Some(
            NormalizedTransfer {
                trace_index: f.trace_index,
                from: address_word_val(s, 4),
                to: address_word_val(s, 36),
                token: f.address,
                amount: Rat { num: amount_word_val(s, 68) as i64, den: 1 },
                fee: Rat { num: 0, den: 1 },
            },
        )
    } else if s.len() == 0 && 0 < f.value <= i64::MAX as u64 {
        Some(
            NormalizedTransfer {
                trace_index: f.trace_index,
                from: f.caller,
                to: f.address,
                token: Address { hi: 0, lo: 0 },
                amount: Rat { num: f.value as i64, den: 1 },
                fee: Rat { num: 0, den: 1 },
            },
        )
    } else {
        None
    }
}

/// A successful immediate child that only moves tokens; such children are
/// absorbed by a protocol action frame.
pub open spec fn spec_absorbed(f: CallFrame) -> bool {
    f.success && spec_transfer_of(f) is Some
}

/// The first successful transfer child paying into `pool`, from `s[i..]`.
pub open spec fn spec_first_to(s: Seq<CallFrame>, pool: Address, i: int) -> Option<
    NormalizedTransfer,
>
    decreases s.len() - i,
{
    if i < 0 || i >= s.len() {
        None
    } else if s[i].success && (spec_transfer_of(s[i]) matches Some(t) && t.to == pool) {
        spec_transfer_of(s[i])
    } else {
        spec_first_to(s, pool, i + 1)
    }
}

/// The first successful transfer child paid out by `pool`, from `s[i..]`.
pub open spec fn spec_first_from(s: Seq<CallFrame>, pool: Address, i: int) -> Option<
    NormalizedTransfer,
>
    decreases s.len() - i,
{
    if i < 0 || i >= s.len() {
        None
    } else if s[i].success && (spec_transfer_of(s[i]) matches Some(t) && t.from == pool) {
        spec_transfer_of(s[i])
    } else {
        spec_first_from(s, pool, i + 1)
    }
}

/// Zero amount.
pub open spec fn spec_zero_rat() -> Rat {
    Rat { num: 0, den: 1 }
}

/// The token of an optional transfer, or the native-asset marker.
pub open spec fn spec_token_of(t: Option<NormalizedTransfer>) -> Address {
    match t {
        Some(t) => t.token,
        None => Address { hi: 0, lo: 0 },
    }
}

/// The amount of an optional transfer, or zero.
pub open spec fn spec_amount_of(t: Option<NormalizedTransfer>) -> Rat {
    match t {
        Some(t) => t.amount,
        None => spec_zero_rat(),
    }
}

/// The single normalized action emitted for a frame that decoded to a
/// known protocol call. Swap amounts come from the absorbed token
/// movements around the pool; mint and burn liquidity comes from the call
/// arguments where the schema carries it, else from the movement evidence.
pub open spec fn spec_protocol_action(f: CallFrame, c: StaticReturnBindings) -> NormalizedAction {
    match c {
        StaticReturnBindings::UniswapV2(call) => spec_v2_action(f, call, Protocol::UniswapV2),
        StaticReturnBindings::SushiSwapV2(call) => spec_v2_action(f, call, Protocol::SushiSwapV2),
        StaticReturnBindings::UniswapV3(call) => spec_v3_action(f, call),
    }
}

/// Normalization of a pair-contract call.
pub open spec fn spec_v2_action(f: CallFrame, call: UniswapV2Calls, p: Protocol) -> NormalizedAction {
    let tin = spec_first_to(f.children@, f.address, 0);
    let tout = spec_first_from(f.children@, f.address, 0);
    match call {
        UniswapV2Calls::Swap { amount0_out, amount1_out, to } => NormalizedAction::Swap(
            NormalizedSwap {
                trace_index: f.trace_index,
                protocol: p,
                pool: f.address,
                from: f.caller,
                recipient: to,
                token_in: spec_token_of(tin),
                amount_in: spec_amount_of(tin),
                token_out: spec_token_of(tout),
                amount_out: spec_amount_of(tout),
            },
        ),
        UniswapV2Calls::Mint { to } => NormalizedAction::Mint(
            NormalizedMint {
                trace_index: f.trace_index,
                protocol: p,
                pool: f.address,
                from: f.caller,
                tick_lower: 0,
                tick_upper: 0,
                liquidity: spec_amount_of(tin),
            },
        ),
        UniswapV2Calls::Burn { to } => NormalizedAction::Burn(
            NormalizedBurn {
                trace_index: f.trace_index,
                protocol: p,
                pool: f.address,
                from: f.caller,
                tick_lower: 0,
                tick_upper: 0,
                liquidity: spec_amount_of(tout),
            },
        ),
    }
}

/// Normalization of a concentrated-liquidity call.
pub open spec fn spec_v3_action(f: CallFrame, call: UniswapV3Calls) -> NormalizedAction {
    let tin = spec_first_to(f.children@, f.address, 0);
    let tout = spec_first_from(f.children@, f.address, 0);
    match call {
        UniswapV3Calls::Swap { recipient, zero_for_one, amount_specified } => NormalizedAction::Swap(
            NormalizedSwap {
                trace_index: f.trace_index,
                protocol: Protocol::UniswapV3,
                pool: f.address,
                from: f.caller,
                recipient,
                token_in: spec_token_of(tin),
                amount_in: spec_amount_of(tin),
                token_out: spec_token_of(tout),
                amount_out: spec_amount_of(tout),
            },
        ),
        UniswapV3Calls::Mint { recipient, tick_lower, tick_upper, amount } => NormalizedAction::Mint(
            NormalizedMint {
                trace_index: f.trace_index,
                protocol: Protocol::UniswapV3,
                pool: f.address,
                from: f.caller,
                tick_lower,
                tick_upper,
                liquidity: Rat { num: amount as i64, den: 1 },
            },
        ),
        UniswapV3Calls::Burn { tick_lower, tick_upper, amount } => NormalizedAction::Burn(
            NormalizedBurn {
                trace_index: f.trace_index,
                protocol: Protocol::UniswapV3,
                pool: f.address,
                from: f.caller,
                tick_lower,
                tick_upper,
                liquidity: Rat { num: amount as i64, den: 1 },
            },
        ),
        UniswapV3Calls::Collect { recipient, tick_lower, tick_upper, amount0, amount1 } => NormalizedAction::Collect(
            NormalizedCollect {
                trace_index: f.trace_index,
                protocol: Protocol::UniswapV3,
                pool: f.address,
                from: f.caller,
                recipient,
                tick_lower,
                tick_upper,
                amount0: Rat { num: amount0 as i64, den: 1 },
                amount1: Rat { num: amount1 as i64, den: 1 },
            },
        ),
    }
}

/// The actions a frame's subtree yields, in execution order.
pub open spec fn spec_classify_frame(reg: Seq<RegistryEntry>, f: CallFrame) -> Seq<
    NormalizedAction,
>
    decreases f, 0int,
{
    if !f.success {
        Seq::empty()
    } else {
        match spec_decode_frame(reg, f.address, f.input@) {
            DecodedCall::Known(c) => seq![spec_protocol_action(f, c)] + spec_classify_kids(
                reg,
                f.children@,
                true,
                0,
            ),
            DecodedCall::Unrecognized => match spec_transfer_of(f) {
                Some(t) => seq![NormalizedAction::Transfer(t)],
                None => spec_classify_kids(reg, f.children@, false, 0),
            },
        }
    }
}

/// The actions of the children `s[i..]`; with `skip` set, absorbed
/// token-movement children contribute nothing.
pub open spec fn spec_classify_kids(
    reg: Seq<RegistryEntry>,
    s: Seq<CallFrame>,
    skip: bool,
    i: int,
) -> Seq<NormalizedAction>
    decreases s, s.len() - i, 1int,
{
    if i < 0 || i >= s.len() {
        Seq::empty()
    } else {
        (if skip && spec_absorbed(s[i]) {
            Seq::empty()
        } else {
            spec_classify_frame(reg, s[i])
        }) + spec_classify_kids(reg, s, skip, i + 1)
    }
}

/// Reads the token or native movement a frame stands for, if any.
pub fn decode_transfer(f: &CallFrame) -> (r: Option<NormalizedTransfer>)
    ensures
        r == spec_transfer_of(*f),
{
    let n: usize = f.input.len();
    if n == 68 {
        if f.input[0] == 0xa9 && f.input[1] == 0x05 && f.input[2] == 0x9c && f.input[3] == 0xbb {
            let to = read_address_word(&f.input, 4);
            let amt = read_amount_word(&f.input, 36);
            match (to, amt) {
                (Some(to), Some(a)) => Some(
                    NormalizedTransfer {
                        trace_index: f.trace_index,
                        from: f.caller,
                        to,
                        token: f.address,
                        amount: Rat { num: a as i64, den: 1 },
                        fee: Rat { num: 0, den: 1 },
                    },
                ),
                _ => None,
            }
        } else {
            None
        }
    } else if n == 100 {
        if f.input[0] == 0x23 && f.input[1] == 0xb8 && f.input[2] == 0x72 && f.input[3] == 0xdd {
            let from = read_address_word(&f.input, 4);
            let to = read_address_word(&f.input, 36);
            let amt = read_amount_word(&f.input, 68);
            match (from, to, amt) {
                (Some(from), Some(to), Some(a)) => Some(
                    NormalizedTransfer {
                        trace_index: f.trace_index,
                        from,
                        to,
                        token: f.address,
                        amount: Rat { num: a as i64, den: 1 },
                        fee: Rat { num: 0, den: 1 },
                    },
                ),
                _ => None,
            }
        } else {
            None
        }
    } else if n == 0 && 0 < f.value && f.value <= i64::MAX as u64 {
        Some(
            NormalizedTransfer {
                trace_index: f.trace_index,
                from: f.caller,
                to: f.address,
                token: Address { hi: 0, lo: 0 },
                amount: Rat { num: f.value as i64, den: 1 },
                fee: Rat { num: 0, den: 1 },
            },
        )
    } else {
        None
    }
}

/// Finds the first successful transfer child paying into `pool`.
pub fn first_transfer_to(children: &Vec<CallFrame>, pool: &Address) -> (r: Option<
    NormalizedTransfer,
>)
    ensures
        r == spec_first_to(children@, *pool, 0),
{
    let n: usize = children.len();
    let mut i: usize = 0;
    while i < n
        invariant
            i <= n,
            n == children@.len(),
            spec_first_to(children@, *pool, 0) == spec_first_to(children@, *pool, i as int),
        decreases n - i,
    {
        let c = &children[i];
        if c.success {
            match decode_transfer(c) {
                Some(t) => {
                    if t.to.same(pool) {
                        return Some(t);
                    }
                },
                None => {},
            }
        }
        i += 1;
    }
    None
}

/// Finds the first successful transfer child paid out by `pool`.
pub fn first_transfer_from(children: &Vec<CallFrame>, pool: &Address) -> (r: Option<
    NormalizedTransfer,
>)
    ensures
        r == spec_first_from(children@, *pool, 0),
{
    let n: usize = children.len();
    let mut i: usize = 0;
    while i < n
        invariant
            i <= n,
            n == children@.len(),
            spec_first_from(children@, *pool, 0) == spec_first_from(children@, *pool, i as int),
        decreases n - i,
    {
        let c = &children[i];
        if c.success {
            match decode_transfer(c) {
                Some(t) => {
                    if t.from.same(pool) {
                        return Some(t);
                    }
                },
                None => {},
            }
        }
        i += 1;
    }
    None
}

/// Builds the one normalized action for a frame with a decoded protocol
/// call.
pub fn make_protocol_action(f: &CallFrame, c: StaticReturnBindings) -> (r: NormalizedAction)
    requires
        c.wf(),
    ensures
        r == spec_protocol_action(*f, c),
{
    let tin = first_transfer_to(&f.children, &f.address);
    let tout = first_transfer_from(&f.children, &f.address);
    let token_in = match &tin {
        Some(t) => t.token,
        None => Address { hi: 0, lo: 0 },
    };
    let amount_in = match &tin {
        Some(t) => t.amount,
        None => Rat { num: 0, den: 1 },
    };
    let token_out = match &tout {
        Some(t) => t.token,
        None => Address { hi: 0, lo: 0 },
    };
    let amount_out = match &tout {
        Some(t) => t.amount,
        None => Rat { num: 0, den: 1 },
    };
    match c {
        StaticReturnBindings::UniswapV2(call) | StaticReturnBindings::SushiSwapV2(call) => {
            let p = match c {
                StaticReturnBindings::SushiSwapV2(_) => Protocol::SushiSwapV2,
                _ => Protocol::UniswapV2,
            };
            match call {
                UniswapV2Calls::Swap { amount0_out, amount1_out, to } => NormalizedAction::Swap(
                    NormalizedSwap {
                        trace_index: f.trace_index,
                        protocol: p,
                        pool: f.address,
                        from: f.caller,
                        recipient: to,
                        token_in,
                        amount_in,
                        token_out,
                        amount_out,
                    },
                ),
                UniswapV2Calls::Mint { to } => NormalizedAction::Mint(
                    NormalizedMint {
                        trace_index: f.trace_index,
                        protocol: p,
                        pool: f.address,
                        from: f.caller,
                        tick_lower: 0,
                        tick_upper: 0,
                        liquidity: amount_in,
                    },
                ),
                UniswapV2Calls::Burn { to } => NormalizedAction::Burn(
                    NormalizedBurn {
                        trace_index: f.trace_index,
                        protocol: p,
                        pool: f.address,
                        from: f.caller,
                        tick_lower: 0,
                        tick_upper: 0,
                        liquidity: amount_out,
                    },
                ),
            }
        },
        StaticReturnBindings::UniswapV3(call) => match call {
            UniswapV3Calls::Swap { recipient, zero_for_one, amount_specified } => NormalizedAction::Swap(
                NormalizedSwap {
                    trace_index: f.trace_index,
                    protocol: Protocol::UniswapV3,
                    pool: f.address,
                    from: f.caller,
                    recipient,
                    token_in,
                    amount_in,
                    token_out,
                    amount_out,
                },
            ),
            UniswapV3Calls::Mint { recipient, tick_lower, tick_upper, amount } => NormalizedAction::Mint(
                NormalizedMint {
                    trace_index: f.trace_index,
                    protocol: Protocol::UniswapV3,
                    pool: f.address,
                    from: f.caller,
                    tick_lower,
                    tick_upper,
                    liquidity: Rat { num: amount as i64, den: 1 },
                },
            ),
            UniswapV3Calls::Burn { tick_lower, tick_upper, amount } => NormalizedAction::Burn(
                NormalizedBurn {
                    trace_index: f.trace_index,
                    protocol: Protocol::UniswapV3,
                    pool: f.address,
                    from: f.caller,
                    tick_lower,
                    tick_upper,
                    liquidity: Rat { num: amount as i64, den: 1 },
                },
            ),
            UniswapV3Calls::Collect { recipient, tick_lower, tick_upper, amount0, amount1 } => NormalizedAction::Collect(
                NormalizedCollect {
                    trace_index: f.trace_index,
                    protocol: Protocol::UniswapV3,
                    pool: f.address,
                    from: f.caller,
                    recipient,
                    tick_lower,
                    tick_upper,
                    amount0: Rat { num: amount0 as i64, den: 1 },
                    amount1: Rat { num: amount1 as i64, den: 1 },
                },
            ),
        },
    }
}

/// Classifies one frame's subtree into its ordered action sequence.
pub fn classify_frame(reg: &ProtocolRegistry, f: &CallFrame) -> (r: Vec<NormalizedAction>)
    ensures
        r@ == spec_classify_frame(reg.entries@, *f),
    decreases *f,
{
    let mut out: Vec<NormalizedAction> = Vec::new();
    if !f.success {
        return out;
    }
    match reg.decode_call(&f.address, &f.input) {
        DecodedCall::Known(c) => {
            let act = make_protocol_action(f, c);
            out.push(act);
            let ghost base = out@;
            let n: usize = f.children.len();
            let mut i: usize = 0;
            while i < n
                invariant
                    i <= n,
                    n == f.children@.len(),
                    out@ + spec_classify_kids(reg.entries@, f.children@, true, i as int) == base
                        + spec_classify_kids(reg.entries@, f.children@, true, 0),
                decreases n - i,
            {
                let child = &f.children[i];
                let ghost before = out@;
                let mut skip_child = false;
                if child.success {
                    match decode_transfer(child) {
                        Some(_) => {
                            skip_child = true;
                        },
                        None => {},
                    }
                }
                if !skip_child {
                    let mut sub = classify_frame(reg, child);
                    out.append(&mut sub);
                }
                proof {
                    let ghost s = f.children@;
                    let ghost piece = if spec_absorbed(s[i as int]) {
                        Seq::<NormalizedAction>::empty()
                    } else {
                        spec_classify_frame(reg.entries@, s[i as int])
                    };
                    assert(out@ == before + piece);
                    assert(spec_classify_kids(reg.entries@, s, true, i as int) == piece
                        + spec_classify_kids(reg.entries@, s, true, i + 1));
                    assert((before + piece) + spec_classify_kids(reg.entries@, s, true, i + 1)
                        =~= before + (piece + spec_classify_kids(reg.entries@, s, true, i + 1)));
                }
                i += 1;
            }
            proof {
                assert(spec_classify_kids(reg.entries@, f.children@, true, n as int)
                    =~= Seq::<NormalizedAction>::empty());
                assert(out@ + Seq::<NormalizedAction>::empty() =~= out@);
                assert(base + spec_classify_kids(reg.entries@, f.children@, true, 0)
                    =~= seq![spec_protocol_action(*f, c)] + spec_classify_kids(
                    reg.entries@,
                    f.children@,
                    true,
                    0,
                ));
            }
            out
        },
        DecodedCall::Unrecognized => {
            match decode_transfer(f) {
                Some(t) => {
                    out.push(NormalizedAction::Transfer(t));
                    proof {
                        assert(out@ =~= seq![NormalizedAction::Transfer(t)]);
                    }
                    out
                },
                None => {
                    let ghost base = out@;
                    let n: usize = f.children.len();
                    let mut i: usize = 0;
                    while i < n
                        invariant
                            i <= n,
                            n == f.children@.len(),
                            out@ + spec_classify_kids(reg.entries@, f.children@, false, i as int)
                                == base + spec_classify_kids(reg.entries@, f.children@, false, 0),
                        decreases n - i,
                    {
                        let child = &f.children[i];
                        let ghost before = out@;
                        let mut sub = classify_frame(reg, child);
                        out.append(&mut sub);
                        proof {
                            let ghost s = f.children@;
                            let ghost piece = spec_classify_frame(reg.entries@, s[i as int]);
                            assert(out@ == before + piece);
                            assert(spec_classify_kids(reg.entries@, s, false, i as int) == piece
                                + spec_classify_kids(reg.entries@, s, false, i + 1));
                            assert((before + piece) + spec_classify_kids(
                                reg.entries@,
                                s,
                                false,
                                i + 1,
                            ) =~= before + (piece + spec_classify_kids(
                                reg.entries@,
                                s,
                                false,
                                i + 1,
                            )));
                        }
                        i += 1;
                    }
                    proof {
                        assert(spec_classify_kids(reg.entries@, f.children@, false, n as int)
                            =~= Seq::<NormalizedAction>::empty());
                        assert(out@ + Seq::<NormalizedAction>::empty() =~= out@);
                        assert(base + spec_classify_kids(reg.entries@, f.children@, false, 0)
                            =~= spec_classify_kids(reg.entries@, f.children@, false, 0));
                    }
                    out
                },
            }
        },
    }
}


/// Every action in `s` is well-formed.
pub open spec fn acts_wf(s: Seq<NormalizedAction>) -> bool {
    forall|i: int| 0 <= i < s.len() ==> (#[trigger] s[i]).wf()
}

/// Trace indices never decrease along `s`.
pub open spec fn acts_sorted(s: Seq<NormalizedAction>) -> bool {
    forall|i: int, j: int|
        0 <= i <= j < s.len() ==> (#[trigger] s[i]).spec_trace_index() <= (
        #[trigger] s[j]).spec_trace_index()
}

/// Every trace index in `s` lies in `[lo, hi)`.
pub open spec fn acts_in_range(s: Seq<NormalizedAction>, lo: int, hi: int) -> bool {
    forall|i: int| 0 <= i < s.len() ==> lo <= (#[trigger] s[i]).spec_trace_index() < hi
}

/// Concatenating two ordered, range-separated action runs keeps order.
proof fn lemma_acts_concat(
    a: Seq<NormalizedAction>,
    b: Seq<NormalizedAction>,
    lo: int,
    mid: int,
    hi: int,
)
    requires
        acts_wf(a),
        acts_wf(b),
        acts_sorted(a),
        acts_sorted(b),
        acts_in_range(a, lo, mid),
        acts_in_range(b, mid, hi),
        lo <= mid <= hi,
    ensures
        acts_wf(a + b),
        acts_sorted(a + b),
        acts_in_range(a + b, lo, hi),
{
    assert forall|i: int| 0 <= i < (a + b).len() implies (#[trigger] (a + b)[i]).wf() && lo <= (a
        + b)[i].spec_trace_index() < hi by {
        if i < a.len() {
            assert((a + b)[i] == a[i]);
        } else {
            assert((a + b)[i] == b[i - a.len()]);
        }
    }
    assert forall|i: int, j: int| 0 <= i <= j < (a + b).len() implies (#[trigger] (a
        + b)[i]).spec_trace_index() <= (#[trigger] (a + b)[j]).spec_trace_index() by {
        if j < a.len() {
            assert((a + b)[i] == a[i] && (a + b)[j] == a[j]);
        } else if i >= a.len() {
            assert((a + b)[i] == b[i - a.len()] && (a + b)[j] == b[j - a.len()]);
        } else {
            assert((a + b)[i] == a[i] && (a + b)[j] == b[j - a.len()]);
        }
    }
}

/// The movement a frame stands for inherits that frame's trace index and
/// carries well-formed amounts.
proof fn lemma_transfer_wf(f: CallFrame)
    ensures
        spec_transfer_of(f) matches Some(t) ==> t.amount.wf() && t.fee.wf() && t.trace_index
            == f.trace_index,
{
}

/// Any transfer found among children carries well-formed amounts.
proof fn lemma_first_to_wf(s: Seq<CallFrame>, pool: Address, i: int)
    ensures
        spec_first_to(s, pool, i) matches Some(t) ==> t.amount.wf() && t.fee.wf(),
    decreases s.len() - i,
{
    if 0 <= i < s.len() {
        lemma_transfer_wf(s[i]);
        lemma_first_to_wf(s, pool, i + 1);
    }
}

/// Any transfer found among children carries well-formed amounts.
proof fn lemma_first_from_wf(s: Seq<CallFrame>, pool: Address, i: int)
    ensures
        spec_first_from(s, pool, i) matches Some(t) ==> t.amount.wf() && t.fee.wf(),
    decreases s.len() - i,
{
    if 0 <= i < s.len() {
        lemma_transfer_wf(s[i]);
        lemma_first_from_wf(s, pool, i + 1);
    }
}

/// A protocol action is well-formed and carries its frame's trace index.
proof fn lemma_protocol_action_props(f: CallFrame, c: StaticReturnBindings)
    ensures
        spec_protocol_action(f, c).wf(),
        spec_protocol_action(f, c).spec_trace_index() == f.trace_index,
{
    lemma_first_to_wf(f.children@, f.address, 0);
    lemma_first_from_wf(f.children@, f.address, 0);
}

/// Classification of a well-formed subtree yields well-formed actions,
/// ordered by trace index, all within the subtree's index range.
pub proof fn lemma_classify_frame_props(reg: Seq<RegistryEntry>, f: CallFrame, lo: int)
    requires
        spec_check_frame(f, lo) is Some,
    ensures
        acts_wf(spec_classify_frame(reg, f)),
        acts_sorted(spec_classify_frame(reg, f)),
        acts_in_range(
            spec_classify_frame(reg, f),
            f.trace_index as int,
            spec_check_frame(f, lo)->Some_0,
        ),
    decreases f, 0int,
{
    let acts = spec_classify_frame(reg, f);
    let hi = spec_check_frame(f, lo)->Some_0;
    let ti = f.trace_index as int;
    lemma_check_frame_lo(f, lo);
    if !f.success {
    } else {
        match spec_decode_frame(reg, f.address, f.input@) {
            DecodedCall::Known(c) => {
                let a0 = spec_protocol_action(f, c);
                lemma_protocol_action_props(f, c);
                lemma_classify_kids_props(reg, f.children@, true, 0, ti + 1);
                let kids = spec_classify_kids(reg, f.children@, true, 0);
                assert(acts_wf(seq![a0])) by {
                    assert(seq![a0][0] == a0);
                }
                assert(acts_sorted(seq![a0]));
                assert(acts_in_range(seq![a0], ti, ti + 1)) by {
                    assert(seq![a0][0] == a0);
                }
                lemma_acts_concat(seq![a0], kids, ti, ti + 1, hi);
            },
            DecodedCall::Unrecognized => {
                match spec_transfer_of(f) {
                    Some(t) => {
                        lemma_transfer_wf(f);
                        let one = seq![NormalizedAction::Transfer(t)];
                        assert(one[0] == NormalizedAction::Transfer(t));
                        assert(acts_wf(one));
                        assert(acts_in_range(one, ti, hi));
                    },
                    None => {
                        lemma_classify_kids_props(reg, f.children@, false, 0, ti + 1);
                        assert(acts_in_range(acts, ti + 1, hi));
                        assert forall|i: int| 0 <= i < acts.len() implies ti <= (
                        #[trigger] acts[i]).spec_trace_index() < hi by {}
                    },
                }
            },
        }
    }
}

/// Classification of a run of sibling subtrees yields ordered actions in
/// the run's index range.
pub proof fn lemma_classify_kids_props(
    reg: Seq<RegistryEntry>,
    s: Seq<CallFrame>,
    skip: bool,
    i: int,
    lo: int,
)
    requires
        spec_check_frames(s, lo, i) is Some,
    ensures
        acts_wf(spec_classify_kids(reg, s, skip, i)),
        acts_sorted(spec_classify_kids(reg, s, skip, i)),
        acts_in_range(spec_classify_kids(reg, s, skip, i), lo, spec_check_frames(s, lo, i)->Some_0),
    decreases s, s.len() - i, 1int,
{
    let hi = spec_check_frames(s, lo, i)->Some_0;
    lemma_check_frames_lo(s, lo, i);
    if i < 0 || i >= s.len() {
    } else {
        let next = spec_check_frame(s[i], lo)->Some_0;
        lemma_check_frame_lo(s[i], lo);
        lemma_classify_frame_props(reg, s[i], lo);
        lemma_classify_kids_props(reg, s, skip, i + 1, next);
        lemma_check_frames_lo(s, next, i + 1);
        let piece = if skip && spec_absorbed(s[i]) {
            Seq::<NormalizedAction>::empty()
        } else {
            spec_classify_frame(reg, s[i])
        };
        let tail = spec_classify_kids(reg, s, skip, i + 1);
        assert(acts_in_range(piece, lo, next)) by {
            assert forall|k: int| 0 <= k < piece.len() implies lo <= (
            #[trigger] piece[k]).spec_trace_index() < next by {}
        }
        assert(acts_wf(piece) && acts_sorted(piece));
        lemma_acts_concat(piece, tail, lo, next, hi);
    }
}

/// A failed frame, with its whole subtree, yields no actions at all.
///
/// This is the classifier's silence law: for every call frame whose
/// `success` flag is false, no normalized action is emitted for that frame
/// or for any of its descendants, under any registry.
pub proof fn lemma_failed_frame_silent(reg: Seq<RegistryEntry>, f: CallFrame)
    requires
        !f.success,
    ensures
        spec_classify_frame(reg, f) == Seq::<NormalizedAction>::empty(),
{
}

/// Classification is deterministic: the output is a function of the call
/// tree and the registry alone, so classifying the same tree twice yields
/// identical action sequences.
pub proof fn lemma_classify_deterministic(
    reg: Seq<RegistryEntry>,
    f: CallFrame,
    r1: Seq<NormalizedAction>,
    r2: Seq<NormalizedAction>,
)
    requires
        r1 == spec_classify_frame(reg, f),
        r2 == spec_classify_frame(reg, f),
    ensures
        r1 == r2,
{
}

/// Classifies one transaction: validates the trace ordering invariant,
/// then normalizes the call tree.
pub fn classify_transaction(reg: &ProtocolRegistry, tx: &TxTrace) -> (r: Result<
    TransactionActions,
    ClassifyError,
>)
    requires
        tx.gas_paid.wf(),
    ensures
        match r {
            Ok(t) => spec_trace_ok(tx.root) && t.tx_index == tx.tx_index && t.eoa == tx.eoa
                && t.gas_paid == tx.gas_paid && t.actions@ == spec_classify_frame(
                reg.entries@,
                tx.root,
            ) && t.wf(),
            Err(_) => !spec_trace_ok(tx.root),
        },
{
    if !check_trace(&tx.root) {
        return Err(ClassifyError::MalformedTrace);
    }
    let actions = classify_frame(reg, &tx.root);
    proof {
        lemma_classify_frame_props(reg.entries@, tx.root, 0);
    }
    Ok(TransactionActions { tx_index: tx.tx_index, eoa: tx.eoa, gas_paid: tx.gas_paid, actions })
}

/// A block's worth of raw traces is admissible: transaction indices
/// strictly increase, and every trace is well-formed.
pub open spec fn spec_txs_ok(txs: Seq<TxTrace>) -> bool {
    &&& forall|k: int|
        0 <= k && k + 1 < txs.len() ==> (#[trigger] txs[k]).tx_index < txs[k + 1].tx_index
    &&& forall|k: int| 0 <= k < txs.len() ==> spec_trace_ok((#[trigger] txs[k]).root)
}

/// Adjacent strict ordering extends to all pairs.
proof fn lemma_tx_lt(s: Seq<TransactionActions>, i: int, j: int)
    requires
        forall|k: int|
            0 <= k && k + 1 < s.len() ==> (#[trigger] s[k]).tx_index < s[k + 1].tx_index,
        0 <= i < j < s.len(),
    ensures
        s[i].tx_index < s[j].tx_index,
    decreases j - i,
{
    if i + 1 < j {
        lemma_tx_lt(s, i, j - 1);
    }
    assert(s[j - 1].tx_index < s[j].tx_index);
}

/// Classifies a block: every transaction's call tree becomes an ordered
/// action sequence, and the result carries the block's metadata. The one
/// failure is a malformed trace, fatal for this block only.
#[verifier::rlimit(60)]
pub fn classify_block(
    reg: &ProtocolRegistry,
    block_number: u64,
    metadata: Metadata,
    txs: &Vec<TxTrace>,
) -> (r: Result<BlockActionSet, ClassifyError>)
    requires
        metadata.wf(),
        forall|k: int| 0 <= k < txs@.len() ==> (#[trigger] txs@[k]).gas_paid.wf(),
    ensures
        match r {
            Ok(set) => spec_txs_ok(txs@) && set.wf() && set.block_number == block_number
                && set.metadata == metadata && set.txs@.len() == txs@.len() && forall|k: int|
                0 <= k < txs@.len() ==> (#[trigger] set.txs@[k]).actions@ == spec_classify_frame(
                    reg.entries@,
                    txs@[k].root,
                ) && set.txs@[k].tx_index == txs@[k].tx_index && set.txs@[k].eoa == txs@[k].eoa
                    && set.txs@[k].gas_paid == txs@[k].gas_paid,
            Err(_) => !spec_txs_ok(txs@),
        },
{
    let n: usize = txs.len();
    let mut out: Vec<TransactionActions> = Vec::new();
    let mut i: usize = 0;
    while i < n
        invariant
            i <= n,
            n == txs@.len(),
            out@.len() == i,
            forall|k: int| 0 <= k < txs@.len() ==> (#[trigger] txs@[k]).gas_paid.wf(),
            forall|k: int|
                0 <= k && k + 1 < i as int ==> (#[trigger] txs@[k]).tx_index < txs@[k
                    + 1].tx_index,
            forall|k: int| 0 <= k < i as int ==> spec_trace_ok((#[trigger] txs@[k]).root),
            forall|k: int|
                0 <= k < i as int ==> (#[trigger] out@[k]).actions@ == spec_classify_frame(
                    reg.entries@,
                    txs@[k].root,
                ) && out@[k].tx_index == txs@[k].tx_index && out@[k].eoa == txs@[k].eoa
                    && out@[k].gas_paid == txs@[k].gas_paid && out@[k].wf(),
        decreases n - i,
    {
        if i > 0 {
            if txs[i - 1].tx_index >= txs[i].tx_index {
                proof {
                    assert(txs@[i - 1].tx_index >= txs@[i as int].tx_index);
                }
                return Err(ClassifyError::MalformedTrace);
            }
        }
        match classify_transaction(reg, &txs[i]) {
            Ok(t) => {
                out.push(t);
            },
            Err(e) => {
                proof {
                    assert(!spec_trace_ok(txs@[i as int].root));
                }
                return Err(e);
            },
        }
        i += 1;
    }
    proof {
        assert forall|a: int, b: int| 0 <= a < b < out@.len() implies (
        #[trigger] out@[a]).tx_index < (#[trigger] out@[b]).tx_index by {
            assert forall|k: int|
                0 <= k && k + 1 < out@.len() implies (#[trigger] out@[k]).tx_index < out@[k
                    + 1].tx_index by {
                assert(txs@[k].tx_index < txs@[k + 1].tx_index);
            }
            lemma_tx_lt(out@, a, b);
        }
    }
    Ok(BlockActionSet { block_number, metadata, txs: out })
}


/// Data-model invariant: a subtree never yields more normalized actions
/// than it has call frames. Every action corresponds to a frame; some
/// frames, such as bookkeeping delegate calls, yield none.
pub proof fn lemma_classify_count(reg: Seq<RegistryEntry>, f: CallFrame)
    ensures
        spec_classify_frame(reg, f).len() <= frame_count(f),
    decreases f, 0int,
{
    if !f.success {
    } else {
        match spec_decode_frame(reg, f.address, f.input@) {
            DecodedCall::Known(c) => {
                lemma_classify_kids_count(reg, f.children@, true, 0);
            },
            DecodedCall::Unrecognized => {
                match spec_transfer_of(f) {
                    Some(t) => {},
                    None => {
                        lemma_classify_kids_count(reg, f.children@, false, 0);
                    },
                }
            },
        }
    }
}

/// Data-model invariant over a run of sibling subtrees.
pub proof fn lemma_classify_kids_count(
    reg: Seq<RegistryEntry>,
    s: Seq<CallFrame>,
    skip: bool,
    i: int,
)
    ensures
        spec_classify_kids(reg, s, skip, i).len() <= frames_count(s, i),
    decreases s, s.len() - i, 1int,
{
    if i < 0 || i >= s.len() {
    } else {
        lemma_classify_count(reg, s[i]);
        lemma_classify_kids_count(reg, s, skip, i + 1);
    }
}

} // verus!


