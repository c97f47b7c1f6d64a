//! The inspector framework: dispatch and aggregation.
//!
//! Every registered detector runs against the same block action set and
//! metadata; their findings are concatenated without deduplication, since
//! one transaction sequence may legitimately be flagged by more than one
//! detector. Detectors are read-only passes. A malformed action set — one
//! violating the ordering invariant — is the single fatal, block-local
//! error; missing metadata only silences individual detectors.
//!
//! Blocks finish processing in any order; `sequence_results` restores
//! ascending block order before results are handed onward.

use vstd::prelude::*;

use crate::actions::{
    bundle_models, lemma_models_concat, BlockActionSet, Bundle, BundleModel, NormalizedAction,
    TransactionActions,
};
use crate::backrun::{detect_backrun, spec_backrun};
use crate::cex_dex::{detect_cex_dex, spec_cex_dex};
use crate::jit::{detect_jit, spec_jit};
use crate::rational::Rat;
use crate::sandwich::{detect_sandwich, spec_sandwich};
use vstd::multiset::Multiset;

verus! {

/// Inspection failure: the one fatal, block-local error.
#[derive(Clone, Copy, PartialEq, Eq, Structural, Debug)]
pub enum InspectError {
    /// The action set violates its ordering invariant.
    MalformedActionSet,
}

/// Operator-configured detector settings.
#[derive(Clone, Copy, PartialEq, Eq, Structural, Debug)]
pub struct InspectorConfig {
    /// Relative price-deviation threshold for the CEX-DEX detector.
    pub cex_dex_threshold: Rat,
}

/// Everything the four detectors flag for one block, in dispatch order:
/// sandwich, CEX-DEX, JIT, atomic backrun.
pub open spec fn spec_inspect(set: BlockActionSet, cfg: InspectorConfig) -> Seq<BundleModel> {
    spec_sandwich(set) + spec_cex_dex(set, cfg.cex_dex_threshold) + spec_jit(set) + spec_backrun(
        set,
    )
}

/// Checks one action's rational fields.
fn action_wf(a: &NormalizedAction) -> (r: bool)
    ensures
        r == a.wf(),
{
    match a {
        NormalizedAction::Transfer(t) => t.amount.is_wf() && t.fee.is_wf(),
        NormalizedAction::Swap(s) => s.amount_in.is_wf() && s.amount_out.is_wf(),
        NormalizedAction::Mint(m) => m.liquidity.is_wf(),
        NormalizedAction::Burn(b) => b.liquidity.is_wf(),
        NormalizedAction::Collect(c) => c.amount0.is_wf() && c.amount1.is_wf(),
        NormalizedAction::FlashLoan(f) => f.amount.is_wf(),
        NormalizedAction::Liquidation(l) => l.amount.is_wf(),
        NormalizedAction::Unclassified { .. } => true,
    }
}

/// Adjacent ordering extends to all pairs of actions.
proof fn lemma_acts_le(s: Seq<NormalizedAction>, i: int, j: int)
    requires
        forall|k: int|
            0 <= k && k + 1 < s.len() ==> (#[trigger] s[k]).spec_trace_index() <= s[k
                + 1].spec_trace_index(),
        0 <= i <= j < s.len(),
    ensures
        s[i].spec_trace_index() <= s[j].spec_trace_index(),
    decreases j - i,
{
    if i < j {
        lemma_acts_le(s, i, j - 1);
        assert(s[j - 1].spec_trace_index() <= s[j].spec_trace_index());
    }
}

/// Checks one transaction's invariant.
fn tx_wf(t: &TransactionActions) -> (r: bool)
    ensures
        r == t.wf(),
{
    if !t.gas_paid.is_wf() {
        return false;
    }
    let n: usize = t.actions.len();
    let mut i: usize = 0;
    while i < n
        invariant
            i <= n,
            n == t.actions@.len(),
            t.gas_paid.wf(),
            forall|k: int| 0 <= k < i as int ==> (#[trigger] t.actions@[k]).wf(),
            forall|k: int|
                0 <= k && k + 1 < i as int ==> (#[trigger] t.actions@[k]).spec_trace_index()
                    <= t.actions@[k + 1].spec_trace_index(),
        decreases n - i,
    {
        if !action_wf(&t.actions[i]) {
            return false;
        }
        if i > 0 {
            let prev = t.actions[i - 1].trace_index();
            let cur = t.actions[i].trace_index();
            if prev > cur {
                return false;
            }
        }
        i += 1;
    }
    proof {
        assert forall|a: int, b: int|
            0 <= a <= b < t.actions@.len() implies (#[trigger] t.actions@[a]).spec_trace_index()
            <= (#[trigger] t.actions@[b]).spec_trace_index() by {
            lemma_acts_le(t.actions@, a, b);
        }
    }
    true
}

/// Adjacent strict ordering extends to all pairs of transactions.
proof fn lemma_txs_lt(s: Seq<TransactionActions>, i: int, j: int)
    requires
        forall|k: int|
            0 <= k && k + 1 < s.len() ==> (#[trigger] s[k]).tx_index < s[k + 1].tx_index,
        0 <= i < j < s.len(),
    ensures
        s[i].tx_index < s[j].tx_index,
    decreases j - i,
{
    if i + 1 < j {
        lemma_txs_lt(s, i, j - 1);
    }
    assert(s[j - 1].tx_index < s[j].tx_index);
}

/// Checks a whole action set against its invariant: well-formed metadata,
/// well-formed ordered transactions, strictly increasing transaction
/// indices.
pub fn check_action_set(set: &BlockActionSet) -> (r: bool)
    ensures
        r == set.wf(),
{
    if !set.metadata.base_gas_price.is_wf() {
        return false;
    }
    let np: usize = set.metadata.prices.len();
    let mut p: usize = 0;
    while p < np
        invariant
            p <= np,
            np == set.metadata.prices@.len(),
            forall|k: int| 0 <= k < p as int ==> (#[trigger] set.metadata.prices@[k]).price.wf(),
        decreases np - p,
    {
        if !set.metadata.prices[p].price.is_wf() {
            return false;
        }
        p += 1;
    }
    let n: usize = set.txs.len();
    let mut i: usize = 0;
    while i < n
        invariant
            i <= n,
            n == set.txs@.len(),
            forall|k: int| 0 <= k < i as int ==> (#[trigger] set.txs@[k]).wf(),
            forall|k: int|
                0 <= k && k + 1 < i as int ==> (#[trigger] set.txs@[k]).tx_index < set.txs@[k
                    + 1].tx_index,
        decreases n - i,
    {
        if !tx_wf(&set.txs[i]) {
            return false;
        }
        if i > 0 {
            if set.txs[i - 1].tx_index >= set.txs[i].tx_index {
                return false;
            }
        }
        i += 1;
    }
    proof {
        assert forall|a: int, b: int| 0 <= a < b < set.txs@.len() implies (
        #[trigger] set.txs@[a]).tx_index < (#[trigger] set.txs@[b]).tx_index by {
            lemma_txs_lt(set.txs@, a, b);
        }
    }
    true
}

/// Dispatches every detector over one block's action set and concatenates
/// their findings. A malformed set is rejected; detectors themselves
/// never fail, they only return nothing.
pub fn inspect_block(set: &BlockActionSet, cfg: &InspectorConfig) -> (r: Result<
    Vec<Bundle>,
    InspectError,
>)
    requires
        cfg.cex_dex_threshold.wf(),
    ensures
        match r {
            Ok(v) => set.wf() && bundle_models(v@) == spec_inspect(*set, *cfg),
            Err(_) => !set.wf(),
        },
{
    if !check_action_set(set) {
        return Err(InspectError::MalformedActionSet);
    }
    let mut out = detect_sandwich(set);
    let mut part = detect_cex_dex(set, &cfg.cex_dex_threshold);
    proof {
        lemma_models_concat(out@, part@);
    }
    out.append(&mut part);
    let mut part2 = detect_jit(set);
    proof {
        lemma_models_concat(out@, part2@);
    }
    out.append(&mut part2);
    let mut part3 = detect_backrun(set);
    proof {
        lemma_models_concat(out@, part3@);
    }
    out.append(&mut part3);
    proof {
        assert(bundle_models(out@) =~= spec_inspect(*set, *cfg));
    }
    Ok(out)
}

/// One finished block: its number and the bundles found in it.
#[derive(Debug)]
pub struct BlockResult {
    pub block_number: u64,
    pub bundles: Vec<Bundle>,
}

/// Results ordered by ascending block number.
pub open spec fn results_sorted(s: Seq<BlockResult>) -> bool {
    forall|i: int, j: int|
        0 <= i <= j < s.len() ==> (#[trigger] s[i]).block_number <= (
        #[trigger] s[j]).block_number
}

/// Re-sequences finished blocks by ascending block number before they are
/// handed to the downstream consumer. The result holds exactly the given
/// results, reordered.
pub fn sequence_results(results: Vec<BlockResult>) -> (r: Vec<BlockResult>)
    ensures
        r@.len() == results@.len(),
        r@.to_multiset() == results@.to_multiset(),
        results_sorted(r@),
{
    let mut rem = results;
    let ghost orig = rem@;
    let mut out: Vec<BlockResult> = Vec::new();
    proof {
        broadcast use vstd::seq_lib::group_to_multiset_ensures;

        assert(out@.to_multiset().add(rem@.to_multiset()) =~= orig.to_multiset());
    }
    while rem.len() > 0
        invariant
            out@.len() + rem@.len() == orig.len(),
            out@.to_multiset().add(rem@.to_multiset()) == orig.to_multiset(),
            results_sorted(out@),
            forall|i: int, j: int|
                0 <= i < out@.len() && 0 <= j < rem@.len() ==> (#[trigger] out@[i]).block_number
                    <= (#[trigger] rem@[j]).block_number,
        decreases rem@.len(),
    {
        let n: usize = rem.len();
        let mut mi: usize = 0;
        let mut x: usize = 1;
        while x < n
            invariant
                mi < n,
                x <= n,
                n == rem@.len(),
                forall|y: int|
                    0 <= y < x as int ==> (#[trigger] rem@[y]).block_number
                        >= rem@[mi as int].block_number,
            decreases n - x,
        {
            if rem[x].block_number < rem[mi].block_number {
                mi = x;
            }
            x += 1;
        }
        let ghost rem_old = rem@;
        let item = rem.remove(mi);
        proof {
            broadcast use vstd::seq_lib::group_to_multiset_ensures;
            broadcast use vstd::multiset::group_multiset_axioms;

            assert(rem@.to_multiset() =~= rem_old.to_multiset().remove(item));
            assert(rem_old.contains(item)) by {
                assert(rem_old[mi as int] == item);
            }
            assert(rem_old.to_multiset().count(item) > 0);
            assert(out@.to_multiset().insert(item).add(rem_old.to_multiset().remove(item))
                =~= out@.to_multiset().add(rem_old.to_multiset()));
            assert forall|j: int| 0 <= j < rem@.len() implies item.block_number <= (
            #[trigger] rem@[j]).block_number by {
                if j < mi as int {
                    assert(rem@[j] == rem_old[j]);
                } else {
                    assert(rem@[j] == rem_old[j + 1]);
                }
            }
        }
        let ghost out_old = out@;
        out.push(item);
        proof {
            broadcast use vstd::seq_lib::group_to_multiset_ensures;

            assert(out@.to_multiset() =~= out_old.to_multiset().insert(item));
            assert forall|i: int, j: int| 0 <= i <= j < out@.len() implies (
            #[trigger] out@[i]).block_number <= (#[trigger] out@[j]).block_number by {
                if j < out_old.len() {
                    assert(out@[i] == out_old[i] && out@[j] == out_old[j]);
                } else if i < out_old.len() {
                    assert(out@[i] == out_old[i] && out@[j] == item);
                }
            }
        }
    }
    proof {
        broadcast use vstd::seq_lib::group_to_multiset_ensures;
        broadcast use vstd::multiset::group_multiset_axioms;

        vstd::multiset::lemma_multiset_empty_len(rem@.to_multiset());
        assert(rem@.to_multiset().len() == 0);
        assert(out@.to_multiset().add(Multiset::<BlockResult>::empty()) =~= out@.to_multiset());
    }
    out
}

} // verus!
