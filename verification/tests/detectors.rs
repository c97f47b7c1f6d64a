//! Detector scenarios and the block re-sequencing guarantee.

use brontes::{
    detect_backrun, detect_cex_dex, detect_jit, detect_sandwich, inspect_block,
    sequence_results, Address, BlockActionSet, BlockResult, InspectorConfig, Metadata, MevKind,
    NormalizedAction, NormalizedBurn, NormalizedMint, NormalizedSwap, PriceEntry, Protocol, Rat,
    TransactionActions,
};

fn addr(n: u64) -> Address {
    Address::from_low(n)
}

fn rat(num: i64, den: u64) -> Rat {
    Rat { num, den }
}

fn empty_metadata() -> Metadata {
    Metadata {
        block_timestamp: 1_700_000_000,
        base_gas_price: rat(0, 1),
        usd_token: addr(999),
        prices: Vec::new(),
    }
}

fn swap(
    idx: u64,
    pool: Address,
    from: Address,
    tin: Address,
    ain: Rat,
    tout: Address,
    aout: Rat,
) -> NormalizedAction {
    NormalizedAction::Swap(NormalizedSwap {
        trace_index: idx,
        protocol: Protocol::UniswapV2,
        pool,
        from,
        recipient: from,
        token_in: tin,
        amount_in: ain,
        token_out: tout,
        amount_out: aout,
    })
}

fn tx(tx_index: u64, eoa: Address, actions: Vec<NormalizedAction>) -> TransactionActions {
    TransactionActions {
        tx_index,
        eoa,
        gas_paid: rat(0, 1),
        actions,
    }
}

fn block(txs: Vec<TransactionActions>) -> BlockActionSet {
    BlockActionSet {
        block_number: 1,
        metadata: empty_metadata(),
        txs,
    }
}

#[test]
fn sandwich_triplet_yields_one_bundle() {
    let pool = addr(10);
    let x = addr(1);
    let y = addr(2);
    let token_in = addr(100);
    let token_out = addr(101);
    // A: X swaps 10 in->out; V: Y swaps opposite; B: X swaps back, gets 10.5
    let a = swap(1, pool, x, token_in, rat(10, 1), token_out, rat(400, 1));
    let v = swap(2, pool, y, token_out, rat(40, 1), token_in, rat(1, 1));
    let b = swap(3, pool, x, token_out, rat(400, 1), token_in, rat(21, 2));
    let set = block(vec![tx(0, x, vec![a]), tx(1, y, vec![v]), tx(2, x, vec![b])]);
    let bundles = detect_sandwich(&set);
    assert_eq!(bundles.len(), 1);
    assert_eq!(bundles[0].kind, MevKind::Sandwich);
    assert_eq!(bundles[0].txs, vec![0, 1, 2]);
    assert_eq!(bundles[0].profit_token, token_in);
    // profit 10.5 - 10 = 0.5 of the input token, gas is zero here
    assert!(bundles[0].profit.eq_value(&rat(1, 2)));
}

#[test]
fn sandwich_needs_a_victim() {
    let pool = addr(10);
    let x = addr(1);
    let token_in = addr(100);
    let token_out = addr(101);
    let a = swap(1, pool, x, token_in, rat(10, 1), token_out, rat(400, 1));
    let b = swap(3, pool, x, token_out, rat(400, 1), token_in, rat(21, 2));
    let set = block(vec![tx(0, x, vec![a]), tx(2, x, vec![b])]);
    assert_eq!(detect_sandwich(&set).len(), 0);
}

#[test]
fn sandwich_needs_same_sender() {
    let pool = addr(10);
    let x = addr(1);
    let y = addr(2);
    let z = addr(3);
    let token_in = addr(100);
    let token_out = addr(101);
    let a = swap(1, pool, x, token_in, rat(10, 1), token_out, rat(400, 1));
    let v = swap(2, pool, y, token_out, rat(40, 1), token_in, rat(1, 1));
    let b = swap(3, pool, z, token_out, rat(400, 1), token_in, rat(21, 2));
    let set = block(vec![tx(0, x, vec![a]), tx(1, y, vec![v]), tx(2, z, vec![b])]);
    assert_eq!(detect_sandwich(&set).len(), 0);
}

#[test]
fn cex_dex_flags_three_percent_deviation() {
    let tin = addr(100);
    let tout = addr(101);
    let x = addr(1);
    let mut md = empty_metadata();
    // reference: 1 out per in
    md.prices.push(PriceEntry {
        base: tin,
        quote: tout,
        price: rat(1, 1),
    });
    // swap realizes 97 out for 100 in: 3% below reference
    let s = swap(1, addr(10), x, tin, rat(100, 1), tout, rat(97, 1));
    let set = BlockActionSet {
        block_number: 1,
        metadata: md,
        txs: vec![tx(0, x, vec![s])],
    };
    let threshold = rat(1, 100);
    let bundles = detect_cex_dex(&set, &threshold);
    assert_eq!(bundles.len(), 1);
    assert_eq!(bundles[0].kind, MevKind::CexDex);
    assert_eq!(bundles[0].txs, vec![0]);
    assert_eq!(bundles[0].profit_token, tout);
    // profit: |97 - 100| = 3 quote tokens
    assert!(bundles[0].profit.eq_value(&rat(3, 1)));
}

#[test]
fn cex_dex_ignores_small_deviation() {
    let tin = addr(100);
    let tout = addr(101);
    let x = addr(1);
    let mut md = empty_metadata();
    md.prices.push(PriceEntry {
        base: tin,
        quote: tout,
        price: rat(1, 1),
    });
    // 99.5 out for 100 in: 0.5% deviation, below the 1% threshold
    let s = swap(1, addr(10), x, tin, rat(100, 1), tout, rat(199, 2));
    let set = BlockActionSet {
        block_number: 1,
        metadata: md,
        txs: vec![tx(0, x, vec![s])],
    };
    assert_eq!(detect_cex_dex(&set, &rat(1, 100)).len(), 0);
}

#[test]
fn cex_dex_without_reference_price_is_undeterminable() {
    let x = addr(1);
    let s = swap(1, addr(10), x, addr(100), rat(100, 1), addr(101), rat(1, 1));
    let set = block(vec![tx(0, x, vec![s])]);
    assert_eq!(detect_cex_dex(&set, &rat(1, 100)).len(), 0);
}

fn mint(idx: u64, pool: Address, from: Address, lo: i32, hi: i32, liq: Rat) -> NormalizedAction {
    NormalizedAction::Mint(NormalizedMint {
        trace_index: idx,
        protocol: Protocol::UniswapV3,
        pool,
        from,
        tick_lower: lo,
        tick_upper: hi,
        liquidity: liq,
    })
}

fn burn(idx: u64, pool: Address, from: Address, lo: i32, hi: i32, liq: Rat) -> NormalizedAction {
    NormalizedAction::Burn(NormalizedBurn {
        trace_index: idx,
        protocol: Protocol::UniswapV3,
        pool,
        from,
        tick_lower: lo,
        tick_upper: hi,
        liquidity: liq,
    })
}

#[test]
fn jit_same_block_mint_swap_burn() {
    let pool = addr(10);
    let x = addr(1);
    let y = addr(2);
    let m = mint(1, pool, x, -60, 60, rat(5, 1));
    let v = swap(1, pool, y, addr(100), rat(10, 1), addr(101), rat(9, 1));
    let b = burn(1, pool, x, -60, 60, rat(5, 1));
    let set = block(vec![tx(0, x, vec![m]), tx(1, y, vec![v]), tx(2, x, vec![b])]);
    let bundles = detect_jit(&set);
    assert_eq!(bundles.len(), 1);
    assert_eq!(bundles[0].kind, MevKind::Jit);
    assert_eq!(bundles[0].txs, vec![0, 1, 2]);
}

#[test]
fn jit_without_same_block_burn_is_nothing() {
    // the burn happens in the next block, so this block holds no burn
    let pool = addr(10);
    let x = addr(1);
    let y = addr(2);
    let m = mint(1, pool, x, -60, 60, rat(5, 1));
    let v = swap(1, pool, y, addr(100), rat(10, 1), addr(101), rat(9, 1));
    let set = block(vec![tx(0, x, vec![m]), tx(1, y, vec![v])]);
    assert_eq!(detect_jit(&set).len(), 0);
}

#[test]
fn jit_needs_matching_tick_range() {
    let pool = addr(10);
    let x = addr(1);
    let y = addr(2);
    let m = mint(1, pool, x, -60, 60, rat(5, 1));
    let v = swap(1, pool, y, addr(100), rat(10, 1), addr(101), rat(9, 1));
    let b = burn(1, pool, x, -120, 120, rat(5, 1));
    let set = block(vec![tx(0, x, vec![m]), tx(1, y, vec![v]), tx(2, x, vec![b])]);
    assert_eq!(detect_jit(&set).len(), 0);
}

#[test]
fn backrun_cycle_nets_two_tokens() {
    let x = addr(1);
    let ta = addr(100);
    let tb = addr(101);
    let tc = addr(102);
    let s1 = swap(1, addr(10), x, ta, rat(10, 1), tb, rat(20, 1));
    let s2 = swap(2, addr(11), x, tb, rat(20, 1), tc, rat(30, 1));
    let s3 = swap(3, addr(12), x, tc, rat(30, 1), ta, rat(12, 1));
    let set = block(vec![tx(0, x, vec![s1, s2, s3])]);
    let bundles = detect_backrun(&set);
    assert_eq!(bundles.len(), 1);
    assert_eq!(bundles[0].kind, MevKind::AtomicBackrun);
    assert_eq!(bundles[0].txs, vec![0]);
    assert_eq!(bundles[0].profit_token, ta);
    // 12 back for 10 spent, gas zero: profit 2 of the cycle token
    assert!(bundles[0].profit.eq_value(&rat(2, 1)));
}

#[test]
fn backrun_needs_a_closed_cycle() {
    let x = addr(1);
    let s1 = swap(1, addr(10), x, addr(100), rat(10, 1), addr(101), rat(20, 1));
    let s2 = swap(2, addr(11), x, addr(101), rat(20, 1), addr(102), rat(30, 1));
    let set = block(vec![tx(0, x, vec![s1, s2])]);
    assert_eq!(detect_backrun(&set).len(), 0);
}

#[test]
fn backrun_needs_positive_profit() {
    let x = addr(1);
    let ta = addr(100);
    let tb = addr(101);
    let s1 = swap(1, addr(10), x, ta, rat(10, 1), tb, rat(20, 1));
    let s2 = swap(2, addr(11), x, tb, rat(20, 1), ta, rat(10, 1));
    let set = block(vec![tx(0, x, vec![s1, s2])]);
    assert_eq!(detect_backrun(&set).len(), 0);
}

#[test]
fn inspect_dispatches_all_detectors() {
    // the sandwich scenario again, through the aggregating entry point
    let pool = addr(10);
    let x = addr(1);
    let y = addr(2);
    let token_in = addr(100);
    let token_out = addr(101);
    let a = swap(1, pool, x, token_in, rat(10, 1), token_out, rat(400, 1));
    let v = swap(2, pool, y, token_out, rat(40, 1), token_in, rat(1, 1));
    let b = swap(3, pool, x, token_out, rat(400, 1), token_in, rat(21, 2));
    let set = block(vec![tx(0, x, vec![a]), tx(1, y, vec![v]), tx(2, x, vec![b])]);
    let cfg = InspectorConfig {
        cex_dex_threshold: rat(1, 100),
    };
    let bundles = inspect_block(&set, &cfg).unwrap();
    assert_eq!(bundles.len(), 1);
    assert_eq!(bundles[0].kind, MevKind::Sandwich);
}

#[test]
fn inspect_rejects_malformed_action_set() {
    let x = addr(1);
    // trace indices decrease within the transaction: ordering invariant broken
    let s1 = swap(5, addr(10), x, addr(100), rat(1, 1), addr(101), rat(1, 1));
    let s2 = swap(2, addr(10), x, addr(101), rat(1, 1), addr(100), rat(1, 1));
    let set = block(vec![tx(0, x, vec![s1, s2])]);
    let cfg = InspectorConfig {
        cex_dex_threshold: rat(1, 100),
    };
    assert!(inspect_block(&set, &cfg).is_err());
}

#[test]
fn results_are_resequenced_by_block_number() {
    let results = vec![
        BlockResult {
            block_number: 5,
            bundles: Vec::new(),
        },
        BlockResult {
            block_number: 3,
            bundles: Vec::new(),
        },
        BlockResult {
            block_number: 4,
            bundles: Vec::new(),
        },
    ];
    let ordered = sequence_results(results);
    let numbers: Vec<u64> = ordered.iter().map(|r| r.block_number).collect();
    assert_eq!(numbers, vec![3, 4, 5]);
}
