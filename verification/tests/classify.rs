//! Classifier behaviour: absorption, failure silence, determinism, and
//! trace validation.

use brontes::{
    classify_frame, classify_transaction, encode_v2, Address, CallFrame, ClassifyError,
    NormalizedAction, ProtocolRegistry, Rat, StaticBindings, TxTrace, UniswapV2Calls,
    UniswapV2_Enum,
};

fn addr(n: u64) -> Address {
    Address::from_low(n)
}

fn push_be32(out: &mut Vec<u8>, v: u32) {
    for k in 0..4 {
        out.push(((v >> (8 * (3 - k))) & 0xff) as u8);
    }
}

fn push_be64(out: &mut Vec<u8>, v: u64) {
    for k in 0..8 {
        out.push(((v >> (8 * (7 - k))) & 0xff) as u8);
    }
}

fn push_be128(out: &mut Vec<u8>, v: u128) {
    for k in 0..16 {
        out.push(((v >> (8 * (15 - k))) & 0xff) as u8);
    }
}

/// ERC-20 `transfer(to, amount)` call data.
fn transfer_calldata(to: &Address, amount: u64) -> Vec<u8> {
    let mut out = vec![0xa9, 0x05, 0x9c, 0xbb];
    out.extend(std::iter::repeat(0u8).take(12));
    push_be32(&mut out, to.hi);
    push_be128(&mut out, to.lo);
    out.extend(std::iter::repeat(0u8).take(24));
    push_be64(&mut out, amount);
    out
}

fn leaf(address: Address, caller: Address, input: Vec<u8>, value: u64, idx: u64) -> CallFrame {
    CallFrame {
        address,
        caller,
        input,
        output: Vec::new(),
        value,
        success: true,
        trace_index: idx,
        children: Vec::new(),
    }
}

fn registry(pool: Address) -> ProtocolRegistry {
    let mut reg = ProtocolRegistry::new();
    reg.register(pool, StaticBindings::UniswapV2(UniswapV2_Enum::Table));
    reg
}

/// A pool swap frame wrapped by an unknown router, with the two token
/// movements as children of the pool frame.
fn swap_tree(pool: Address, attacker: Address, token_in: Address, token_out: Address) -> CallFrame {
    let router = addr(900);
    let swap_input = encode_v2(&UniswapV2Calls::Swap {
        amount0_out: 0,
        amount1_out: 400,
        to: attacker,
    });
    let pay_in = leaf(token_in, attacker, transfer_calldata(&pool, 10), 0, 2);
    let pay_out = leaf(token_out, pool, transfer_calldata(&attacker, 400), 0, 3);
    let pool_frame = CallFrame {
        address: pool,
        caller: router,
        input: swap_input,
        output: Vec::new(),
        value: 0,
        success: true,
        trace_index: 1,
        children: vec![pay_in, pay_out],
    };
    CallFrame {
        address: router,
        caller: attacker,
        input: vec![0x01, 0x02, 0x03, 0x04],
        output: Vec::new(),
        value: 0,
        success: true,
        trace_index: 0,
        children: vec![pool_frame],
    }
}

#[test]
fn swap_absorbs_child_transfers() {
    let pool = addr(100);
    let attacker = addr(200);
    let token_in = addr(301);
    let token_out = addr(302);
    let reg = registry(pool);
    let tree = swap_tree(pool, attacker, token_in, token_out);
    let actions = classify_frame(&reg, &tree);
    // one swap action, and no transfer actions for the absorbed children
    assert_eq!(actions.len(), 1);
    match &actions[0] {
        NormalizedAction::Swap(s) => {
            assert_eq!(s.pool, pool);
            assert_eq!(s.token_in, token_in);
            assert_eq!(s.token_out, token_out);
            assert_eq!(s.amount_in, Rat { num: 10, den: 1 });
            assert_eq!(s.amount_out, Rat { num: 400, den: 1 });
            assert_eq!(s.trace_index, 1);
        }
        other => panic!("expected a swap, got {:?}", other),
    }
}

#[test]
fn failed_frame_and_descendants_are_silent() {
    let pool = addr(100);
    let attacker = addr(200);
    let reg = registry(pool);
    let mut tree = swap_tree(pool, attacker, addr(301), addr(302));
    tree.children[0].success = false;
    let actions = classify_frame(&reg, &tree);
    assert_eq!(actions.len(), 0);
}

#[test]
fn classification_is_deterministic() {
    let pool = addr(100);
    let attacker = addr(200);
    let reg = registry(pool);
    let tree = swap_tree(pool, attacker, addr(301), addr(302));
    let first = classify_frame(&reg, &tree);
    let second = classify_frame(&reg, &tree);
    assert_eq!(first, second);
}

#[test]
fn plain_token_transfer_emits_transfer() {
    let reg = registry(addr(100));
    let token = addr(400);
    let sender = addr(1);
    let receiver = addr(2);
    let frame = leaf(token, sender, transfer_calldata(&receiver, 55), 0, 0);
    let actions = classify_frame(&reg, &frame);
    assert_eq!(actions.len(), 1);
    match &actions[0] {
        NormalizedAction::Transfer(t) => {
            assert_eq!(t.from, sender);
            assert_eq!(t.to, receiver);
            assert_eq!(t.token, token);
            assert_eq!(t.amount, Rat { num: 55, den: 1 });
            assert_eq!(t.fee, Rat { num: 0, den: 1 });
        }
        other => panic!("expected a transfer, got {:?}", other),
    }
}

#[test]
fn native_value_transfer_emits_transfer() {
    let reg = registry(addr(100));
    let frame = leaf(addr(2), addr(1), Vec::new(), 7, 0);
    let actions = classify_frame(&reg, &frame);
    assert_eq!(actions.len(), 1);
    match &actions[0] {
        NormalizedAction::Transfer(t) => {
            assert_eq!(t.token, Address { hi: 0, lo: 0 });
            assert_eq!(t.amount, Rat { num: 7, den: 1 });
        }
        other => panic!("expected a transfer, got {:?}", other),
    }
}

#[test]
fn bookkeeping_frame_emits_nothing_but_children_count() {
    let reg = registry(addr(100));
    // unknown call, no value, one plain transfer child
    let child = leaf(addr(400), addr(1), transfer_calldata(&addr(2), 9), 0, 1);
    let frame = CallFrame {
        address: addr(500),
        caller: addr(1),
        input: vec![1, 2, 3, 4],
        output: Vec::new(),
        value: 0,
        success: true,
        trace_index: 0,
        children: vec![child],
    };
    let actions = classify_frame(&reg, &frame);
    assert_eq!(actions.len(), 1);
    assert!(matches!(actions[0], NormalizedAction::Transfer(_)));
}

#[test]
fn non_monotonic_trace_is_fatal_for_the_transaction() {
    let reg = registry(addr(100));
    let child = leaf(addr(400), addr(1), Vec::new(), 0, 3);
    let root = CallFrame {
        address: addr(500),
        caller: addr(1),
        input: Vec::new(),
        output: Vec::new(),
        value: 0,
        success: true,
        trace_index: 5,
        children: vec![child],
    };
    let tx = TxTrace {
        tx_index: 0,
        eoa: addr(1),
        gas_paid: Rat { num: 0, den: 1 },
        root,
    };
    assert_eq!(
        classify_transaction(&reg, &tx).err(),
        Some(ClassifyError::MalformedTrace)
    );
}

#[test]
fn ordered_trace_classifies() {
    let pool = addr(100);
    let attacker = addr(200);
    let reg = registry(pool);
    let tx = TxTrace {
        tx_index: 3,
        eoa: attacker,
        gas_paid: Rat { num: 0, den: 1 },
        root: swap_tree(pool, attacker, addr(301), addr(302)),
    };
    let t = classify_transaction(&reg, &tx).unwrap();
    assert_eq!(t.tx_index, 3);
    assert_eq!(t.eoa, attacker);
    assert_eq!(t.actions.len(), 1);
}
