//! CEX-DEX arbitrage detector.
//!
//! A swap whose realized execution price deviates from the reference price
//! for its token pair by more than the configured threshold, in either
//! direction, is flagged. With input `in`, output `out`, reference price
//! `r` (output per input) and threshold `t`, the deviation condition
//! `|out/in - r| > t * r` is decided exactly as `|out - r*in| > t*(r*in)`,
//! and the profit estimate `in * |out/in - r| = |out - r*in|` is expressed
//! in the output (quote) token. A pair without a reference price is
//! undeterminable and never flagged.

use vstd::prelude::*;

use crate::actions::{
    bundle_models, lemma_models_push, spec_price, spec_usd_value, BlockActionSet, Bundle,
    BundleModel, Metadata, MevKind, NormalizedAction, NormalizedSwap, TransactionActions,
};
use crate::rational::{spec_mul, spec_sub, Rat};

verus! {

/// The bundle flagged for one swap, if its price deviation exceeds the
/// threshold and every exact intermediate fits the machine range.
pub open spec fn spec_swap_bundle(
    md: Metadata,
    threshold: Rat,
    tx_index: u64,
    sw: NormalizedSwap,
) -> Option<BundleModel> {
    match spec_price(md.prices@, sw.token_in, sw.token_out) {
        None => None,
        Some(refp) => if sw.amount_in.n() <= 0 {
            None
        } else {
            match spec_mul(refp, sw.amount_in) {
                None => None,
                Some(rin) => match spec_sub(sw.amount_out, rin) {
                    None => None,
                    Some(diff) => match spec_mul(threshold, rin) {
                        None => None,
                        Some(thr) => match spec_sub(Rat { num: 0, den: 1 }, diff) {
                            None => None,
                            Some(ndiff) => if thr.lt_value(diff) || thr.lt_value(ndiff) {
                                let profit = if 0 <= diff.n() {
                                    diff
                                } else {
                                    ndiff
                                };
                                Some(
                                    BundleModel {
                                        kind: MevKind::CexDex,
                                        txs: seq![tx_index],
                                        profit_token: sw.token_out,
                                        profit,
                                        profit_usd: spec_usd_value(md, sw.token_out, profit),
                                    },
                                )
                            } else {
                                None
                            },
                        },
                    },
                },
            }
        },
    }
}

/// The bundles flagged among the actions `t.actions[i..]`.
pub open spec fn spec_tx_bundles(md: Metadata, threshold: Rat, t: TransactionActions, i: int) -> Seq<
    BundleModel,
>
    decreases t.actions@.len() - i,
{
    if i < 0 || i >= t.actions@.len() {
        Seq::empty()
    } else {
        (match t.actions@[i] {
            NormalizedAction::Swap(sw) => match spec_swap_bundle(md, threshold, t.tx_index, sw) {
                Some(b) => seq![b],
                None => Seq::<BundleModel>::empty(),
            },
            _ => Seq::<BundleModel>::empty(),
        }) + spec_tx_bundles(md, threshold, t, i + 1)
    }
}

/// The bundles flagged among the transactions `set.txs[k..]`.
pub open spec fn spec_block_bundles(set: BlockActionSet, threshold: Rat, k: int) -> Seq<
    BundleModel,
>
    decreases set.txs@.len() - k,
{
    if k < 0 || k >= set.txs@.len() {
        Seq::empty()
    } else {
        spec_tx_bundles(set.metadata, threshold, set.txs@[k], 0) + spec_block_bundles(
            set,
            threshold,
            k + 1,
        )
    }
}

/// Everything the CEX-DEX detector flags for one block.
pub open spec fn spec_cex_dex(set: BlockActionSet, threshold: Rat) -> Seq<BundleModel> {
    spec_block_bundles(set, threshold, 0)
}

/// Evaluates one swap against the reference table.
fn swap_bundle(md: &Metadata, threshold: &Rat, tx_index: u64, sw: &NormalizedSwap) -> (r: Option<
    Bundle,
>)
    requires
        md.wf(),
        threshold.wf(),
        sw.amount_in.wf(),
        sw.amount_out.wf(),
    ensures
        match r {
            Some(b) => spec_swap_bundle(*md, *threshold, tx_index, *sw) == Some(b@),
            None => spec_swap_bundle(*md, *threshold, tx_index, *sw) is None,
        },
{
    let refp = match md.price_of(&sw.token_in, &sw.token_out) {
        None => {
            return None;
        },
        Some(p) => p,
    };
    if !sw.amount_in.is_pos() {
        return None;
    }
    let rin = match refp.checked_mul(&sw.amount_in) {
        None => {
            return None;
        },
        Some(v) => v,
    };
    let diff = match sw.amount_out.checked_sub(&rin) {
        None => {
            return None;
        },
        Some(v) => v,
    };
    let thr = match threshold.checked_mul(&rin) {
        None => {
            return None;
        },
        Some(v) => v,
    };
    let zero = Rat::zero();
    let ndiff = match zero.checked_sub(&diff) {
        None => {
            return None;
        },
        Some(v) => v,
    };
    if thr.lt(&diff) || thr.lt(&ndiff) {
        let profit = if !diff.is_neg() {
            diff
        } else {
            ndiff
        };
        let usd = md.usd_value(&sw.token_out, &profit);
        let mut txs: Vec<u64> = Vec::new();
        txs.push(tx_index);
        let b = Bundle {
            kind: MevKind::CexDex,
            txs,
            profit_token: sw.token_out,
            profit,
            profit_usd: usd,
        };
        proof {
            assert(b@.txs =~= seq![tx_index]);
        }
        Some(b)
    } else {
        None
    }
}

/// Runs the CEX-DEX detector over one block's action set. Read-only, and
/// a pure function of the action set and threshold.
pub fn detect_cex_dex(set: &BlockActionSet, threshold: &Rat) -> (r: Vec<Bundle>)
    requires
        set.wf(),
        threshold.wf(),
    ensures
        bundle_models(r@) == spec_cex_dex(*set, *threshold),
{
    let mut out: Vec<Bundle> = Vec::new();
    let nk: usize = set.txs.len();
    let mut k: usize = 0;
    while k < nk
        invariant
            k <= nk,
            nk == set.txs@.len(),
            set.wf(),
            threshold.wf(),
            bundle_models(out@) + spec_block_bundles(*set, *threshold, k as int)
                == spec_block_bundles(*set, *threshold, 0),
        decreases nk - k,
    {
        let t = &set.txs[k];
        let ghost tx_base = bundle_models(out@);
        let ni: usize = t.actions.len();
        let mut i: usize = 0;
        while i < ni
            invariant
                i <= ni,
                k < nk,
                nk == set.txs@.len(),
                ni == set.txs@[k as int].actions@.len(),
                t == set.txs@[k as int],
                set.wf(),
                threshold.wf(),
                bundle_models(out@) + spec_tx_bundles(
                    set.metadata,
                    *threshold,
                    set.txs@[k as int],
                    i as int,
                ) == tx_base + spec_tx_bundles(set.metadata, *threshold, set.txs@[k as int], 0),
            decreases ni - i,
        {
            let ghost before = bundle_models(out@);
            let ghost piece = match set.txs@[k as int].actions@[i as int] {
                NormalizedAction::Swap(sw) => match spec_swap_bundle(
                    set.metadata,
                    *threshold,
                    set.txs@[k as int].tx_index,
                    sw,
                ) {
                    Some(b) => seq![b],
                    None => Seq::<BundleModel>::empty(),
                },
                _ => Seq::<BundleModel>::empty(),
            };
            match &t.actions[i] {
                NormalizedAction::Swap(sw) => {
                    proof {
                        assert(set.txs@[k as int].wf());
                        assert(set.txs@[k as int].actions@[i as int].wf());
                    }
                    match swap_bundle(&set.metadata, threshold, t.tx_index, sw) {
                        Some(b) => {
                            proof {
                                lemma_models_push(out@, b);
                            }
                            out.push(b);
                        },
                        None => {},
                    }
                },
                _ => {},
            }
            proof {
                assert(bundle_models(out@) == before + piece);
                assert(spec_tx_bundles(set.metadata, *threshold, set.txs@[k as int], i as int)
                    == piece + spec_tx_bundles(
                    set.metadata,
                    *threshold,
                    set.txs@[k as int],
                    i + 1,
                ));
                assert((before + piece) + spec_tx_bundles(
                    set.metadata,
                    *threshold,
                    set.txs@[k as int],
                    i + 1,
                ) =~= before + (piece + spec_tx_bundles(
                    set.metadata,
                    *threshold,
                    set.txs@[k as int],
                    i + 1,
                )));
            }
            i += 1;
        }
        proof {
            assert(spec_tx_bundles(set.metadata, *threshold, set.txs@[k as int], ni as int)
                =~= Seq::<BundleModel>::empty());
            assert(bundle_models(out@) + Seq::<BundleModel>::empty() =~= bundle_models(out@));
            assert(tx_base + spec_tx_bundles(set.metadata, *threshold, set.txs@[k as int], 0)
                + spec_block_bundles(*set, *threshold, k + 1) =~= tx_base + (spec_tx_bundles(
                set.metadata,
                *threshold,
                set.txs@[k as int],
                0,
            ) + spec_block_bundles(*set, *threshold, k + 1)));
            assert(spec_block_bundles(*set, *threshold, k as int) == spec_tx_bundles(
                set.metadata,
                *threshold,
                set.txs@[k as int],
                0,
            ) + spec_block_bundles(*set, *threshold, k + 1));
        }
        k += 1;
    }
    proof {
        assert(spec_block_bundles(*set, *threshold, nk as int) =~= Seq::<BundleModel>::empty());
        assert(bundle_models(out@) + Seq::<BundleModel>::empty() =~= bundle_models(out@));
    }
    out
}

} // verus!
