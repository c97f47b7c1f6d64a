//! Atomic backrun detector.
//!
//! Within one transaction, a run of consecutive swaps whose tokens chain
//! (each swap's input token is the previous swap's output token) and whose
//! last output token closes the cycle back to the first input token is a
//! candidate. It is flagged when the cycle nets strictly more of that
//! token than it spent, after subtracting the transaction's gas cost
//! expressed in the same token via the reference price table. The cycle is
//! fully contained in one transaction: no cross-transaction state is read.

use vstd::prelude::*;

use crate::actions::{
    bundle_models, lemma_models_push, spec_gas_cost, spec_usd_value, BlockActionSet, Bundle,
    BundleModel, Metadata, MevKind, NormalizedAction, NormalizedSwap, TransactionActions,
};
use crate::rational::{spec_sub, Rat};

verus! {

/// The swaps of an action run, in order, from position `i` on.
pub open spec fn spec_swaps(s: Seq<NormalizedAction>, i: int) -> Seq<NormalizedSwap>
    decreases s.len() - i,
{
    if i < 0 || i >= s.len() {
        Seq::empty()
    } else {
        (match s[i] {
            NormalizedAction::Swap(sw) => seq![sw],
            _ => Seq::<NormalizedSwap>::empty(),
        }) + spec_swaps(s, i + 1)
    }
}

/// The end of the maximal token-chained run of swaps starting at `s`.
pub open spec fn spec_chain_end(swaps: Seq<NormalizedSwap>, s: int) -> int
    decreases swaps.len() - s,
{
    if 0 <= s && s + 1 < swaps.len() && swaps[s + 1].token_in == swaps[s].token_out {
        spec_chain_end(swaps, s + 1)
    } else {
        s
    }
}

/// The chain end never moves backwards and stays in range.
pub proof fn lemma_chain_end_bounds(swaps: Seq<NormalizedSwap>, s: int)
    requires
        0 <= s < swaps.len(),
    ensures
        s <= spec_chain_end(swaps, s) < swaps.len(),
    decreases swaps.len() - s,
{
    if s + 1 < swaps.len() && swaps[s + 1].token_in == swaps[s].token_out {
        lemma_chain_end_bounds(swaps, s + 1);
    }
}

/// The bundle for a closed cycle from `first` to `last`, if the net gain
/// after gas is strictly positive and every exact intermediate fits.
pub open spec fn spec_cycle_bundle(
    md: Metadata,
    t: TransactionActions,
    first: NormalizedSwap,
    last: NormalizedSwap,
) -> Option<BundleModel> {
    match spec_sub(last.amount_out, first.amount_in) {
        None => None,
        Some(gross) => match spec_gas_cost(md, t.gas_paid, first.token_in) {
            None => None,
            Some(gas) => match spec_sub(gross, gas) {
                None => None,
                Some(net) => if net.n() > 0 {
                    Some(
                        BundleModel {
                            kind: MevKind::AtomicBackrun,
                            txs: seq![t.tx_index],
                            profit_token: first.token_in,
                            profit: net,
                            profit_usd: spec_usd_value(md, first.token_in, net),
                        },
                    )
                } else {
                    None
                },
            },
        },
    }
}

/// Scans chain starts from `s` on; the first closed, profitable cycle of
/// two or more swaps is the transaction's backrun finding.
pub open spec fn spec_scan_chains(
    md: Metadata,
    t: TransactionActions,
    swaps: Seq<NormalizedSwap>,
    s: int,
) -> Option<BundleModel>
    decreases swaps.len() - s,
{
    if s < 0 || s >= swaps.len() {
        None
    } else {
        let e = spec_chain_end(swaps, s);
        if e > s && swaps[e].token_out == swaps[s].token_in && spec_cycle_bundle(
            md,
            t,
            swaps[s],
            swaps[e],
        ) is Some {
            spec_cycle_bundle(md, t, swaps[s], swaps[e])
        } else {
            spec_scan_chains(md, t, swaps, s + 1)
        }
    }
}

/// What the backrun detector finds in one transaction.
pub open spec fn spec_backrun_tx(md: Metadata, t: TransactionActions) -> Option<BundleModel> {
    spec_scan_chains(md, t, spec_swaps(t.actions@, 0), 0)
}

/// The backrun findings of the transactions `set.txs[k..]`.
pub open spec fn spec_backrun_from(set: BlockActionSet, k: int) -> Seq<BundleModel>
    decreases set.txs@.len() - k,
{
    if k < 0 || k >= set.txs@.len() {
        Seq::empty()
    } else {
        (match spec_backrun_tx(set.metadata, set.txs@[k]) {
            Some(b) => seq![b],
            None => Seq::<BundleModel>::empty(),
        }) + spec_backrun_from(set, k + 1)
    }
}

/// Everything the atomic backrun detector flags for one block.
pub open spec fn spec_backrun(set: BlockActionSet) -> Seq<BundleModel> {
    spec_backrun_from(set, 0)
}

/// Collects the swaps of one transaction, in order.
fn swaps_of(t: &TransactionActions) -> (r: Vec<NormalizedSwap>)
    ensures
        r@ == spec_swaps(t.actions@, 0),
        forall|j: int|
            0 <= j < r@.len() ==> t.wf() ==> (#[trigger] r@[j]).amount_in.wf()
                && r@[j].amount_out.wf(),
{
    let mut out: Vec<NormalizedSwap> = Vec::new();
    let n: usize = t.actions.len();
    let mut i: usize = 0;
    while i < n
        invariant
            i <= n,
            n == t.actions@.len(),
            out@ + spec_swaps(t.actions@, i as int) == spec_swaps(t.actions@, 0),
            forall|j: int|
                0 <= j < out@.len() ==> t.wf() ==> (#[trigger] out@[j]).amount_in.wf()
                    && out@[j].amount_out.wf(),
        decreases n - i,
    {
        let ghost before = out@;
        let ghost piece = match t.actions@[i as int] {
            NormalizedAction::Swap(sw) => seq![sw],
            _ => Seq::<NormalizedSwap>::empty(),
        };
        match &t.actions[i] {
            NormalizedAction::Swap(sw) => {
                proof {
                    if t.wf() {
                        assert(t.actions@[i as int].wf());
                    }
                }
                out.push(*sw);
            },
            _ => {},
        }
        proof {
            assert(out@ == before + piece);
            assert(spec_swaps(t.actions@, i as int) == piece + spec_swaps(t.actions@, i + 1));
            assert((before + piece) + spec_swaps(t.actions@, i + 1) =~= before + (piece
                + spec_swaps(t.actions@, i + 1)));
        }
        i += 1;
    }
    proof {
        assert(spec_swaps(t.actions@, n as int) =~= Seq::<NormalizedSwap>::empty());
        assert(out@ + Seq::<NormalizedSwap>::empty() =~= out@);
    }
    out
}

/// Finds the maximal token-chained run of swaps starting at `s`.
fn chain_end(swaps: &Vec<NormalizedSwap>, s: usize) -> (r: usize)
    requires
        s < swaps@.len(),
    ensures
        r as int == spec_chain_end(swaps@, s as int),
        s <= r < swaps@.len(),
{
    let n: usize = swaps.len();
    let mut e: usize = s;
    while e + 1 < n && swaps[e + 1].token_in.same(&swaps[e].token_out)
        invariant
            s <= e < n,
            n == swaps@.len(),
            spec_chain_end(swaps@, s as int) == spec_chain_end(swaps@, e as int),
        decreases n - e,
    {
        e += 1;
    }
    e
}

/// Evaluates one closed cycle.
fn cycle_bundle(
    md: &Metadata,
    t: &TransactionActions,
    first: &NormalizedSwap,
    last: &NormalizedSwap,
) -> (r: Option<Bundle>)
    requires
        md.wf(),
        t.wf(),
        first.amount_in.wf(),
        last.amount_out.wf(),
    ensures
        match r {
            Some(b) => spec_cycle_bundle(*md, *t, *first, *last) == Some(b@),
            None => spec_cycle_bundle(*md, *t, *first, *last) is None,
        },
{
    let gross = match last.amount_out.checked_sub(&first.amount_in) {
        None => {
            return None;
        },
        Some(v) => v,
    };
    let gas = match md.gas_cost_in(&t.gas_paid, &first.token_in) {
        None => {
            return None;
        },
        Some(v) => v,
    };
    let net = match gross.checked_sub(&gas) {
        None => {
            return None;
        },
        Some(v) => v,
    };
    if net.is_pos() {
        let usd = md.usd_value(&first.token_in, &net);
        let mut txs: Vec<u64> = Vec::new();
        txs.push(t.tx_index);
        let b = Bundle {
            kind: MevKind::AtomicBackrun,
            txs,
            profit_token: first.token_in,
            profit: net,
            profit_usd: usd,
        };
        proof {
            assert(b@.txs =~= seq![t.tx_index]);
        }
        Some(b)
    } else {
        None
    }
}

/// Runs the backrun scan over one transaction.
fn backrun_tx(md: &Metadata, t: &TransactionActions) -> (r: Option<Bundle>)
    requires
        md.wf(),
        t.wf(),
    ensures
        match r {
            Some(b) => spec_backrun_tx(*md, *t) == Some(b@),
            None => spec_backrun_tx(*md, *t) is None,
        },
{
    let swaps = swaps_of(t);
    let n: usize = swaps.len();
    let mut s: usize = 0;
    while s < n
        invariant
            s <= n,
            n == swaps@.len(),
            md.wf(),
            t.wf(),
            swaps@ == spec_swaps(t.actions@, 0),
            forall|j: int|
                0 <= j < swaps@.len() ==> (#[trigger] swaps@[j]).amount_in.wf()
                    && swaps@[j].amount_out.wf(),
            spec_backrun_tx(*md, *t) == spec_scan_chains(*md, *t, swaps@, s as int),
        decreases n - s,
    {
        let e = chain_end(&swaps, s);
        if e > s && swaps[e].token_out.same(&swaps[s].token_in) {
            match cycle_bundle(md, t, &swaps[s], &swaps[e]) {
                Some(b) => {
                    return Some(b);
                },
                None => {},
            }
        }
        s += 1;
    }
    None
}

/// Runs the atomic backrun detector over one block's action set.
/// Read-only, and a pure function of the action set.
pub fn detect_backrun(set: &BlockActionSet) -> (r: Vec<Bundle>)
    requires
        set.wf(),
    ensures
        bundle_models(r@) == spec_backrun(*set),
{
    let mut out: Vec<Bundle> = Vec::new();
    let nk: usize = set.txs.len();
    let mut k: usize = 0;
    while k < nk
        invariant
            k <= nk,
            nk == set.txs@.len(),
            set.wf(),
            bundle_models(out@) + spec_backrun_from(*set, k as int) == spec_backrun(*set),
        decreases nk - k,
    {
        let ghost before = bundle_models(out@);
        let ghost piece = match spec_backrun_tx(set.metadata, set.txs@[k as int]) {
            Some(b) => seq![b],
            None => Seq::<BundleModel>::empty(),
        };
        proof {
            assert(set.txs@[k as int].wf());
        }
        match backrun_tx(&set.metadata, &set.txs[k]) {
            Some(b) => {
                proof {
                    lemma_models_push(out@, b);
                }
                out.push(b);
            },
            None => {},
        }
        proof {
            assert(bundle_models(out@) == before + piece);
            assert(spec_backrun_from(*set, k as int) == piece + spec_backrun_from(*set, k + 1));
            assert((before + piece) + spec_backrun_from(*set, k + 1) =~= before + (piece
                + spec_backrun_from(*set, k + 1)));
        }
        k += 1;
    }
    proof {
        assert(spec_backrun_from(*set, nk as int) =~= Seq::<BundleModel>::empty());
        assert(bundle_models(out@) + Seq::<BundleModel>::empty() =~= bundle_models(out@));
    }
    out
}

} // verus!
