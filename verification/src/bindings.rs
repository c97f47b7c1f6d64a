//! Static protocol bindings: the per-protocol decode tables.
//!
//! A binding maps the four-byte function selector at the head of a call's
//! input bytes to a typed argument schema. UniswapV2 and SushiSwapV2 share
//! one schema; binding identity still determines protocol attribution.
//! Decoding is strict, and every decoded call re-encodes to bytes that
//! decode to the same call again.

use vstd::prelude::*;

use crate::types::Address;
use crate::words::{
    address_word_ok, address_word_val, amount_word_ok, amount_word_val, bool_word_ok,
    bool_word_val, i64_word_ok, i64_word_val, lemma_address_word_preserved,
    lemma_amount_word_preserved, lemma_bool_word_preserved, lemma_prefix_bytes,
    lemma_tick_word_preserved, push_address_word, push_amount_word, push_bool_word,
    push_i64_word, push_tick_word, read_address_word, read_amount_word, read_bool_word,
    read_i64_word, read_tick_word, tick_word_ok, tick_word_val,
};

verus! {

/// Decode failure for one call frame. Contained to that frame: the caller
/// converts it into an unrecognized classification, never a block failure.
#[derive(Clone, Copy, PartialEq, Eq, Structural, Debug)]
pub enum DecodeError {
    /// Fewer than four selector bytes.
    TooShort,
    /// The selector has no entry in this binding's table.
    UnknownSelector,
    /// The selector matched but the payload is truncated or ill-padded.
    Malformed,
}

/// Calls decodable under the pair-contract schema shared by UniswapV2-like
/// protocols.
#[derive(Clone, Copy, PartialEq, Eq, Structural, Debug)]
pub enum UniswapV2Calls {
    Swap { amount0_out: u64, amount1_out: u64, to: Address },
    Mint { to: Address },
    Burn { to: Address },
}

impl UniswapV2Calls {
    /// Amounts stay within the exact-arithmetic range.
    pub open spec fn wf(self) -> bool {
        match self {
            UniswapV2Calls::Swap { amount0_out, amount1_out, .. } => amount0_out <= i64::MAX
                && amount1_out <= i64::MAX,
            _ => true,
        }
    }
}

/// Calls decodable under the concentrated-liquidity schema of UniswapV3-like
/// protocols.
#[derive(Clone, Copy, PartialEq, Eq, Structural, Debug)]
pub enum UniswapV3Calls {
    Swap { recipient: Address, zero_for_one: bool, amount_specified: i64 },
    Mint { recipient: Address, tick_lower: i32, tick_upper: i32, amount: u64 },
    Burn { tick_lower: i32, tick_upper: i32, amount: u64 },
    Collect { recipient: Address, tick_lower: i32, tick_upper: i32, amount0: u64, amount1: u64 },
}

impl UniswapV3Calls {
    /// Amounts stay within the exact-arithmetic range.
    pub open spec fn wf(self) -> bool {
        match self {
            UniswapV3Calls::Mint { amount, .. } => amount <= i64::MAX,
            UniswapV3Calls::Burn { amount, .. } => amount <= i64::MAX,
            UniswapV3Calls::Collect { amount0, amount1, .. } => amount0 <= i64::MAX && amount1
                <= i64::MAX,
            _ => true,
        }
    }
}

/// Schema marker for the UniswapV3 decode table.
#[allow(non_camel_case_types)]
#[derive(Clone, Copy, PartialEq, Eq, Structural, Debug)]
pub enum UniswapV3_Enum {
    Table,
}

/// Schema marker for the UniswapV2 decode table.
#[allow(non_camel_case_types)]
#[derive(Clone, Copy, PartialEq, Eq, Structural, Debug)]
pub enum UniswapV2_Enum {
    Table,
}

/// Schema marker for the SushiSwapV2 decode table (ABI-identical to
/// UniswapV2; kept distinct for protocol attribution).
#[allow(non_camel_case_types)]
#[derive(Clone, Copy, PartialEq, Eq, Structural, Debug)]
pub enum SushiSwapV2_Enum {
    Table,
}

/// A protocol binding: which decode table governs a registered address.
#[derive(Clone, Copy, PartialEq, Eq, Structural, Debug)]
pub enum StaticBindings {
    UniswapV3(UniswapV3_Enum),
    UniswapV2(UniswapV2_Enum),
    SushiSwapV2(SushiSwapV2_Enum),
}

/// A successfully decoded call, tagged with the protocol it came from.
#[derive(Clone, Copy, PartialEq, Eq, Structural, Debug)]
pub enum StaticReturnBindings {
    UniswapV3(UniswapV3Calls),
    UniswapV2(UniswapV2Calls),
    SushiSwapV2(UniswapV2Calls),
}

impl StaticReturnBindings {
    /// Amounts stay within the exact-arithmetic range.
    pub open spec fn wf(self) -> bool {
        match self {
            StaticReturnBindings::UniswapV3(c) => c.wf(),
            StaticReturnBindings::UniswapV2(c) => c.wf(),
            StaticReturnBindings::SushiSwapV2(c) => c.wf(),
        }
    }

    /// The binding whose decode table produced this call.
    pub open spec fn schema(self) -> StaticBindings {
        match self {
            StaticReturnBindings::UniswapV3(_) => StaticBindings::UniswapV3(
                UniswapV3_Enum::Table,
            ),
            StaticReturnBindings::UniswapV2(_) => StaticBindings::UniswapV2(
                UniswapV2_Enum::Table,
            ),
            StaticReturnBindings::SushiSwapV2(_) => StaticBindings::SushiSwapV2(
                SushiSwapV2_Enum::Table,
            ),
        }
    }
}

/// The four selector bytes at the head of `s`.
pub open spec fn selector_is(s: Seq<u8>, b0: u8, b1: u8, b2: u8, b3: u8) -> bool {
    s[0] == b0 && s[1] == b1 && s[2] == b2 && s[3] == b3
}

/// What the pair-contract decode table yields on input bytes `s`.
pub open spec fn spec_decode_v2(s: Seq<u8>) -> Result<UniswapV2Calls, DecodeError> {
    if s.len() < 4 {
        Err(DecodeError::TooShort)
    } else if selector_is(s, 0x02, 0x2c, 0x0d, 0x9f) {
        if s.len() == 100 && amount_word_ok(s, 4) && amount_word_ok(s, 36) && address_word_ok(
            s,
            68,
        ) {
            Ok(
                UniswapV2Calls::Swap {
                    amount0_out: amount_word_val(s, 4),
                    amount1_out: amount_word_val(s, 36),
                    to: address_word_val(s, 68),
                },
            )
        } else {
            Err(DecodeError::Malformed)
        }
    } else if selector_is(s, 0x6a, 0x62, 0x78, 0x42) {
        if s.len() == 36 && address_word_ok(s, 4) {
            Ok(UniswapV2Calls::Mint { to: address_word_val(s, 4) })
        } else {
            Err(DecodeError::Malformed)
        }
    } else if selector_is(s, 0x89, 0xaf, 0xcb, 0x44) {
        if s.len() == 36 && address_word_ok(s, 4) {
            Ok(UniswapV2Calls::Burn { to: address_word_val(s, 4) })
        } else {
            Err(DecodeError::Malformed)
        }
    } else {
        Err(DecodeError::UnknownSelector)
    }
}

/// What the concentrated-liquidity decode table yields on input bytes `s`.
pub open spec fn spec_decode_v3(s: Seq<u8>) -> Result<UniswapV3Calls, DecodeError> {
    if s.len() < 4 {
        Err(DecodeError::TooShort)
    } else if selector_is(s, 0x12, 0x8a, 0xcb, 0x08) {
        if s.len() == 100 && address_word_ok(s, 4) && bool_word_ok(s, 36) && i64_word_ok(s, 68) {
            Ok(
                UniswapV3Calls::Swap {
                    recipient: address_word_val(s, 4),
                    zero_for_one: bool_word_val(s, 36),
                    amount_specified: i64_word_val(s, 68) as i64,
                },
            )
        } else {
            Err(DecodeError::Malformed)
        }
    } else if selector_is(s, 0x3c, 0x8a, 0x7d, 0x8d) {
        if s.len() == 132 && address_word_ok(s, 4) && tick_word_ok(s, 36) && tick_word_ok(s, 68)
            && amount_word_ok(s, 100) {
            Ok(
                UniswapV3Calls::Mint {
                    recipient: address_word_val(s, 4),
                    tick_lower: tick_word_val(s, 36) as i32,
                    tick_upper: tick_word_val(s, 68) as i32,
                    amount: amount_word_val(s, 100),
                },
            )
        } else {
            Err(DecodeError::Malformed)
        }
    } else if selector_is(s, 0xa3, 0x41, 0x23, 0xa7) {
        if s.len() == 100 && tick_word_ok(s, 4) && tick_word_ok(s, 36) && amount_word_ok(s, 68) {
            Ok(
                UniswapV3Calls::Burn {
                    tick_lower: tick_word_val(s, 4) as i32,
                    tick_upper: tick_word_val(s, 36) as i32,
                    amount: amount_word_val(s, 68),
                },
            )
        } else {
            Err(DecodeError::Malformed)
        }
    } else if selector_is(s, 0x4f, 0x1e, 0xb3, 0xd8) {
        if s.len() == 164 && address_word_ok(s, 4) && tick_word_ok(s, 36) && tick_word_ok(s, 68)
            && amount_word_ok(s, 100) && amount_word_ok(s, 132) {
            Ok(
                UniswapV3Calls::Collect {
                    recipient: address_word_val(s, 4),
                    tick_lower: tick_word_val(s, 36) as i32,
                    tick_upper: tick_word_val(s, 68) as i32,
                    amount0: amount_word_val(s, 100),
                    amount1: amount_word_val(s, 132),
                },
            )
        } else {
            Err(DecodeError::Malformed)
        }
    } else {
        Err(DecodeError::UnknownSelector)
    }
}

/// What decoding input bytes `s` under binding `b` yields.
pub open spec fn spec_try_decode(b: StaticBindings, s: Seq<u8>) -> Result<
    StaticReturnBindings,
    DecodeError,
> {
    match b {
        StaticBindings::UniswapV3(_) => match spec_decode_v3(s) {
            Ok(c) => Ok(StaticReturnBindings::UniswapV3(c)),
            Err(e) => Err(e),
        },
        StaticBindings::UniswapV2(_) => match spec_decode_v2(s) {
            Ok(c) => Ok(StaticReturnBindings::UniswapV2(c)),
            Err(e) => Err(e),
        },
        StaticBindings::SushiSwapV2(_) => match spec_decode_v2(s) {
            Ok(c) => Ok(StaticReturnBindings::SushiSwapV2(c)),
            Err(e) => Err(e),
        },
    }
}

/// Decodes input bytes under the pair-contract table.
pub fn try_decode_v2(data: &Vec<u8>) -> (r: Result<UniswapV2Calls, DecodeError>)
    ensures
        r == spec_decode_v2(data@),
        r matches Ok(c) ==> c.wf(),
{
    let n: usize = data.len();
    if n < 4 {
        return Err(DecodeError::TooShort);
    }
    if data[0] == 0x02 && data[1] == 0x2c && data[2] == 0x0d && data[3] == 0x9f {
        if n != 100 {
            return Err(DecodeError::Malformed);
        }
        let a0 = read_amount_word(data, 4);
        let a1 = read_amount_word(data, 36);
        let to = read_address_word(data, 68);
        match (a0, a1, to) {
            (Some(amount0_out), Some(amount1_out), Some(to)) => Ok(
                UniswapV2Calls::Swap { amount0_out, amount1_out, to },
            ),
            _ => Err(DecodeError::Malformed),
        }
    } else if data[0] == 0x6a && data[1] == 0x62 && data[2] == 0x78 && data[3] == 0x42 {
        if n != 36 {
            return Err(DecodeError::Malformed);
        }
        match read_address_word(data, 4) {
            Some(to) => Ok(UniswapV2Calls::Mint { to }),
            _ => Err(DecodeError::Malformed),
        }
    } else if data[0] == 0x89 && data[1] == 0xaf && data[2] == 0xcb && data[3] == 0x44 {
        if n != 36 {
            return Err(DecodeError::Malformed);
        }
        match read_address_word(data, 4) {
            Some(to) => Ok(UniswapV2Calls::Burn { to }),
            _ => Err(DecodeError::Malformed),
        }
    } else {
        Err(DecodeError::UnknownSelector)
    }
}

/// Decodes input bytes under the concentrated-liquidity table.
pub fn try_decode_v3(data: &Vec<u8>) -> (r: Result<UniswapV3Calls, DecodeError>)
    ensures
        r == spec_decode_v3(data@),
        r matches Ok(c) ==> c.wf(),
{
    let n: usize = data.len();
    if n < 4 {
        return Err(DecodeError::TooShort);
    }
    if data[0] == 0x12 && data[1] == 0x8a && data[2] == 0xcb && data[3] == 0x08 {
        if n != 100 {
            return Err(DecodeError::Malformed);
        }
        let recipient = read_address_word(data, 4);
        let zero_for_one = read_bool_word(data, 36);
        let amount_specified = read_i64_word(data, 68);
        match (recipient, zero_for_one, amount_specified) {
            (Some(recipient), Some(zero_for_one), Some(amount_specified)) => Ok(
                UniswapV3Calls::Swap { recipient, zero_for_one, amount_specified },
            ),
            _ => Err(DecodeError::Malformed),
        }
    } else if data[0] == 0x3c && data[1] == 0x8a && data[2] == 0x7d && data[3] == 0x8d {
        if n != 132 {
            return Err(DecodeError::Malformed);
        }
        let recipient = read_address_word(data, 4);
        let tick_lower = read_tick_word(data, 36);
        let tick_upper = read_tick_word(data, 68);
        let amount = read_amount_word(data, 100);
        match (recipient, tick_lower, tick_upper, amount) {
            (Some(recipient), Some(tick_lower), Some(tick_upper), Some(amount)) => Ok(
                UniswapV3Calls::Mint { recipient, tick_lower, tick_upper, amount },
            ),
            _ => Err(DecodeError::Malformed),
        }
    } else if data[0] == 0xa3 && data[1] == 0x41 && data[2] == 0x23 && data[3] == 0xa7 {
        if n != 100 {
            return Err(DecodeError::Malformed);
        }
        let tick_lower = read_tick_word(data, 4);
        let tick_upper = read_tick_word(data, 36);
        let amount = read_amount_word(data, 68);
        match (tick_lower, tick_upper, amount) {
            (Some(tick_lower), Some(tick_upper), Some(amount)) => Ok(
                UniswapV3Calls::Burn { tick_lower, tick_upper, amount },
            ),
            _ => Err(DecodeError::Malformed),
        }
    } else if data[0] == 0x4f && data[1] == 0x1e && data[2] == 0xb3 && data[3] == 0xd8 {
        if n != 164 {
            return Err(DecodeError::Malformed);
        }
        let recipient = read_address_word(data, 4);
        let tick_lower = read_tick_word(data, 36);
        let tick_upper = read_tick_word(data, 68);
        let amount0 = read_amount_word(data, 100);
        let amount1 = read_amount_word(data, 132);
        match (recipient, tick_lower, tick_upper, amount0, amount1) {
            (Some(recipient), Some(tick_lower), Some(tick_upper), Some(amount0), Some(amount1)) => Ok(
                UniswapV3Calls::Collect { recipient, tick_lower, tick_upper, amount0, amount1 },
            ),
            _ => Err(DecodeError::Malformed),
        }
    } else {
        Err(DecodeError::UnknownSelector)
    }
}

impl StaticBindings {
    /// Decodes a frame's input bytes against this binding's table.
    pub fn try_decode(&self, call_data: &Vec<u8>) -> (r: Result<
        StaticReturnBindings,
        DecodeError,
    >)
        ensures
            r == spec_try_decode(*self, call_data@),
            r matches Ok(c) ==> c.wf(),
    {
        match self {
            StaticBindings::UniswapV3(_) => match try_decode_v3(call_data) {
                Ok(c) => Ok(StaticReturnBindings::UniswapV3(c)),
                Err(e) => Err(e),
            },
            StaticBindings::UniswapV2(_) => match try_decode_v2(call_data) {
                Ok(c) => Ok(StaticReturnBindings::UniswapV2(c)),
                Err(e) => Err(e),
            },
            StaticBindings::SushiSwapV2(_) => match try_decode_v2(call_data) {
                Ok(c) => Ok(StaticReturnBindings::SushiSwapV2(c)),
                Err(e) => Err(e),
            },
        }
    }
}


/// Re-encodes a pair-contract call to bytes that decode to the same call.
pub fn encode_v2(c: &UniswapV2Calls) -> (r: Vec<u8>)
    requires
        c.wf(),
    ensures
        spec_decode_v2(r@) == Ok::<UniswapV2Calls, DecodeError>(*c),
{
    match c {
        UniswapV2Calls::Swap { amount0_out, amount1_out, to } => {
            let mut out: Vec<u8> = Vec::new();
            out.push(0x02u8);
            out.push(0x2cu8);
            out.push(0x0du8);
            out.push(0x9fu8);
            let ghost s0 = out@;
            push_amount_word(&mut out, *amount0_out);
            let ghost s1 = out@;
            push_amount_word(&mut out, *amount1_out);
            let ghost s2 = out@;
            push_address_word(&mut out, to);
            proof {
                lemma_amount_word_preserved(s1, s2, 4);
                lemma_amount_word_preserved(s2, out@, 4);
                lemma_amount_word_preserved(s2, out@, 36);
                lemma_prefix_bytes(s0, s1);
                lemma_prefix_bytes(s1, s2);
                lemma_prefix_bytes(s2, out@);
                assert(out@[0] == 0x02 && out@[1] == 0x2c && out@[2] == 0x0d && out@[3] == 0x9f)
                    by {
                    assert(s0[0] == 0x02 && s0[1] == 0x2c && s0[2] == 0x0d && s0[3] == 0x9f);
                    assert(s1[0] == s0[0] && s1[1] == s0[1] && s1[2] == s0[2] && s1[3] == s0[3]);
                    assert(s2[0] == s1[0] && s2[1] == s1[1] && s2[2] == s1[2] && s2[3] == s1[3]);
                    assert(out@[0] == s2[0] && out@[1] == s2[1] && out@[2] == s2[2] && out@[3]
                        == s2[3]);
                }
                assert(spec_decode_v2(out@) == Ok::<UniswapV2Calls, DecodeError>(*c));
            }
            out
        },
        UniswapV2Calls::Mint { to } => {
            let mut out: Vec<u8> = Vec::new();
            out.push(0x6au8);
            out.push(0x62u8);
            out.push(0x78u8);
            out.push(0x42u8);
            let ghost s0 = out@;
            push_address_word(&mut out, to);
            proof {
                lemma_prefix_bytes(s0, out@);
                assert(out@[0] == 0x6a && out@[1] == 0x62 && out@[2] == 0x78 && out@[3] == 0x42)
                    by {
                    assert(s0[0] == 0x6a && s0[1] == 0x62 && s0[2] == 0x78 && s0[3] == 0x42);
                    assert(out@[0] == s0[0] && out@[1] == s0[1] && out@[2] == s0[2] && out@[3]
                        == s0[3]);
                }
                assert(spec_decode_v2(out@) == Ok::<UniswapV2Calls, DecodeError>(*c));
            }
            out
        },
        UniswapV2Calls::Burn { to } => {
            let mut out: Vec<u8> = Vec::new();
            out.push(0x89u8);
            out.push(0xafu8);
            out.push(0xcbu8);
            out.push(0x44u8);
            let ghost s0 = out@;
            push_address_word(&mut out, to);
            proof {
                lemma_prefix_bytes(s0, out@);
                assert(out@[0] == 0x89 && out@[1] == 0xaf && out@[2] == 0xcb && out@[3] == 0x44)
                    by {
                    assert(s0[0] == 0x89 && s0[1] == 0xaf && s0[2] == 0xcb && s0[3] == 0x44);
                    assert(out@[0] == s0[0] && out@[1] == s0[1] && out@[2] == s0[2] && out@[3]
                        == s0[3]);
                }
                assert(spec_decode_v2(out@) == Ok::<UniswapV2Calls, DecodeError>(*c));
            }
            out
        },
    }
}

/// Re-encodes a concentrated-liquidity call to bytes that decode to the
/// same call.
pub fn encode_v3(c: &UniswapV3Calls) -> (r: Vec<u8>)
    requires
        c.wf(),
    ensures
        spec_decode_v3(r@) == Ok::<UniswapV3Calls, DecodeError>(*c),
{
    match c {
        UniswapV3Calls::Swap { recipient, zero_for_one, amount_specified } => {
            let mut out: Vec<u8> = Vec::new();
            out.push(0x12u8);
            out.push(0x8au8);
            out.push(0xcbu8);
            out.push(0x08u8);
            let ghost s0 = out@;
            push_address_word(&mut out, recipient);
            let ghost s1 = out@;
            push_bool_word(&mut out, *zero_for_one);
            let ghost s2 = out@;
            push_i64_word(&mut out, *amount_specified);
            proof {
                lemma_address_word_preserved(s1, s2, 4);
                lemma_address_word_preserved(s2, out@, 4);
                lemma_bool_word_preserved(s2, out@, 36);
                lemma_prefix_bytes(s0, s1);
                lemma_prefix_bytes(s1, s2);
                lemma_prefix_bytes(s2, out@);
                assert(out@[0] == 0x12 && out@[1] == 0x8a && out@[2] == 0xcb && out@[3] == 0x08)
                    by {
                    assert(s0[0] == 0x12 && s0[1] == 0x8a && s0[2] == 0xcb && s0[3] == 0x08);
                    assert(s1[0] == s0[0] && s1[1] == s0[1] && s1[2] == s0[2] && s1[3] == s0[3]);
                    assert(s2[0] == s1[0] && s2[1] == s1[1] && s2[2] == s1[2] && s2[3] == s1[3]);
                    assert(out@[0] == s2[0] && out@[1] == s2[1] && out@[2] == s2[2] && out@[3]
                        == s2[3]);
                }
                assert(spec_decode_v3(out@) == Ok::<UniswapV3Calls, DecodeError>(*c));
            }
            out
        },
        UniswapV3Calls::Mint { recipient, tick_lower, tick_upper, amount } => {
            let mut out: Vec<u8> = Vec::new();
            out.push(0x3cu8);
            out.push(0x8au8);
            out.push(0x7du8);
            out.push(0x8du8);
            let ghost s0 = out@;
            push_address_word(&mut out, recipient);
            let ghost s1 = out@;
            push_tick_word(&mut out, *tick_lower);
            let ghost s2 = out@;
            push_tick_word(&mut out, *tick_upper);
            let ghost s3 = out@;
            push_amount_word(&mut out, *amount);
            proof {
                lemma_address_word_preserved(s1, s2, 4);
                lemma_address_word_preserved(s2, s3, 4);
                lemma_address_word_preserved(s3, out@, 4);
                lemma_tick_word_preserved(s2, s3, 36);
                lemma_tick_word_preserved(s3, out@, 36);
                lemma_tick_word_preserved(s3, out@, 68);
                lemma_prefix_bytes(s0, s1);
                lemma_prefix_bytes(s1, s2);
                lemma_prefix_bytes(s2, s3);
                lemma_prefix_bytes(s3, out@);
                assert(out@[0] == 0x3c && out@[1] == 0x8a && out@[2] == 0x7d && out@[3] == 0x8d)
                    by {
                    assert(s0[0] == 0x3c && s0[1] == 0x8a && s0[2] == 0x7d && s0[3] == 0x8d);
                    assert(s1[0] == s0[0] && s1[1] == s0[1] && s1[2] == s0[2] && s1[3] == s0[3]);
                    assert(s2[0] == s1[0] && s2[1] == s1[1] && s2[2] == s1[2] && s2[3] == s1[3]);
                    assert(s3[0] == s2[0] && s3[1] == s2[1] && s3[2] == s2[2] && s3[3] == s2[3]);
                    assert(out@[0] == s3[0] && out@[1] == s3[1] && out@[2] == s3[2] && out@[3]
                        == s3[3]);
                }
                assert(spec_decode_v3(out@) == Ok::<UniswapV3Calls, DecodeError>(*c));
            }
            out
        },
        UniswapV3Calls::Burn { tick_lower, tick_upper, amount } => {
            let mut out: Vec<u8> = Vec::new();
            out.push(0xa3u8);
            out.push(0x41u8);
            out.push(0x23u8);
            out.push(0xa7u8);
            let ghost s0 = out@;
            push_tick_word(&mut out, *tick_lower);
            let ghost s1 = out@;
            push_tick_word(&mut out, *tick_upper);
            let ghost s2 = out@;
            push_amount_word(&mut out, *amount);
            proof {
                lemma_tick_word_preserved(s1, s2, 4);
                lemma_tick_word_preserved(s2, out@, 4);
                lemma_tick_word_preserved(s2, out@, 36);
                lemma_prefix_bytes(s0, s1);
                lemma_prefix_bytes(s1, s2);
                lemma_prefix_bytes(s2, out@);
                assert(out@[0] == 0xa3 && out@[1] == 0x41 && out@[2] == 0x23 && out@[3] == 0xa7)
                    by {
                    assert(s0[0] == 0xa3 && s0[1] == 0x41 && s0[2] == 0x23 && s0[3] == 0xa7);
                    assert(s1[0] == s0[0] && s1[1] == s0[1] && s1[2] == s0[2] && s1[3] == s0[3]);
                    assert(s2[0] == s1[0] && s2[1] == s1[1] && s2[2] == s1[2] && s2[3] == s1[3]);
                    assert(out@[0] == s2[0] && out@[1] == s2[1] && out@[2] == s2[2] && out@[3]
                        == s2[3]);
                }
                assert(spec_decode_v3(out@) == Ok::<UniswapV3Calls, DecodeError>(*c));
            }
            out
        },
        UniswapV3Calls::Collect { recipient, tick_lower, tick_upper, amount0, amount1 } => {
            let mut out: Vec<u8> = Vec::new();
            out.push(0x4fu8);
            out.push(0x1eu8);
            out.push(0xb3u8);
            out.push(0xd8u8);
            let ghost s0 = out@;
            push_address_word(&mut out, recipient);
            let ghost s1 = out@;
            push_tick_word(&mut out, *tick_lower);
            let ghost s2 = out@;
            push_tick_word(&mut out, *tick_upper);
            let ghost s3 = out@;
            push_amount_word(&mut out, *amount0);
            let ghost s4 = out@;
            push_amount_word(&mut out, *amount1);
            proof {
                lemma_address_word_preserved(s1, s2, 4);
                lemma_address_word_preserved(s2, s3, 4);
                lemma_address_word_preserved(s3, s4, 4);
                lemma_address_word_preserved(s4, out@, 4);
                lemma_tick_word_preserved(s2, s3, 36);
                lemma_tick_word_preserved(s3, s4, 36);
                lemma_tick_word_preserved(s4, out@, 36);
                lemma_tick_word_preserved(s3, s4, 68);
                lemma_tick_word_preserved(s4, out@, 68);
                lemma_amount_word_preserved(s4, out@, 100);
                lemma_prefix_bytes(s0, s1);
                lemma_prefix_bytes(s1, s2);
                lemma_prefix_bytes(s2, s3);
                lemma_prefix_bytes(s3, s4);
                lemma_prefix_bytes(s4, out@);
                assert(out@[0] == 0x4f && out@[1] == 0x1e && out@[2] == 0xb3 && out@[3] == 0xd8)
                    by {
                    assert(s0[0] == 0x4f && s0[1] == 0x1e && s0[2] == 0xb3 && s0[3] == 0xd8);
                    assert(s1[0] == s0[0] && s1[1] == s0[1] && s1[2] == s0[2] && s1[3] == s0[3]);
                    assert(s2[0] == s1[0] && s2[1] == s1[1] && s2[2] == s1[2] && s2[3] == s1[3]);
                    assert(s3[0] == s2[0] && s3[1] == s2[1] && s3[2] == s2[2] && s3[3] == s2[3]);
                    assert(s4[0] == s3[0] && s4[1] == s3[1] && s4[2] == s3[2] && s4[3] == s3[3]);
                    assert(out@[0] == s4[0] && out@[1] == s4[1] && out@[2] == s4[2] && out@[3]
                        == s4[3]);
                }
                assert(spec_decode_v3(out@) == Ok::<UniswapV3Calls, DecodeError>(*c));
            }
            out
        },
    }
}

impl StaticReturnBindings {
    /// Re-encodes this decoded call. The bytes decode, under the same
    /// binding's table, to this very call: the schema is a bijection on
    /// well-formed calls.
    pub fn encode(&self) -> (r: Vec<u8>)
        requires
            self.wf(),
        ensures
            spec_try_decode(self.schema(), r@) == Ok::<StaticReturnBindings, DecodeError>(*self),
    {
        match self {
            StaticReturnBindings::UniswapV3(c) => encode_v3(c),
            StaticReturnBindings::UniswapV2(c) => encode_v2(c),
            StaticReturnBindings::SushiSwapV2(c) => encode_v2(c),
        }
    }
}

} // verus!

