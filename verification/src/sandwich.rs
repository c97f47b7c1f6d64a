//! Sandwich detector.
//!
//! Per pool, a front-run swap A and a later back-run swap B from the same
//! sender close a round trip (B returns A's input token), with at least
//! one victim transaction strictly between them swapping the opposite
//! direction to A on the same pool. The round trip must yield strictly
//! positive profit in the shared token after the two attacker
//! transactions' gas, converted via the reference price table. Every
//! victim between A and B joins the same bundle; unrelated swaps on the
//! pool never disqualify a match — only direction and ownership do.

use vstd::prelude::*;

use crate::actions::{
    bundle_models, lemma_models_push, spec_gas_cost, spec_usd_value, BlockActionSet, Bundle,
    BundleModel, Metadata, MevKind, NormalizedAction, NormalizedSwap, TransactionActions,
};
use crate::rational::{spec_add, spec_sub, Rat};
use crate::types::Address;

verus! {

/// The first swap in `actions[j..]` on `pool` spending `tin` for `tout`.
pub open spec fn spec_swap_match_in(
    actions: Seq<NormalizedAction>,
    pool: Address,
    tin: Address,
    tout: Address,
    j: int,
) -> Option<NormalizedSwap>
    decreases actions.len() - j,
{
    if j < 0 || j >= actions.len() {
        None
    } else if actions[j] matches NormalizedAction::Swap(sw) && sw.pool == pool && sw.token_in
        == tin && sw.token_out == tout {
        match actions[j] {
            NormalizedAction::Swap(sw) => Some(sw),
            _ => None,
        }
    } else {
        spec_swap_match_in(actions, pool, tin, tout, j + 1)
    }
}

/// The first later transaction of the same sender that closes the round
/// trip on `pool`, scanning from position `kb`.
pub open spec fn spec_find_back(
    set: BlockActionSet,
    eoa: Address,
    pool: Address,
    tin: Address,
    tout: Address,
    kb: int,
) -> Option<(int, NormalizedSwap)>
    decreases set.txs@.len() - kb,
{
    if kb < 0 || kb >= set.txs@.len() {
        None
    } else {
        let local = if set.txs@[kb].eoa == eoa {
            spec_swap_match_in(set.txs@[kb].actions@, pool, tin, tout, 0)
        } else {
            None
        };
        match local {
            Some(sw) => Some((kb, sw)),
            None => spec_find_back(set, eoa, pool, tin, tout, kb + 1),
        }
    }
}

/// The victim transactions strictly between the front-run at `ka` and the
/// back-run at `kb`: each swaps the opposite direction to the front-run
/// on the same pool. Scanned from `kv`.
pub open spec fn spec_victims(
    set: BlockActionSet,
    pool: Address,
    tin: Address,
    tout: Address,
    ka: int,
    kb: int,
    kv: int,
) -> Seq<u64>
    decreases kb - kv,
{
    if kv <= ka || kv >= kb || kv < 0 || kv >= set.txs@.len() {
        Seq::empty()
    } else {
        (if spec_swap_match_in(set.txs@[kv].actions@, pool, tin, tout, 0) is Some {
            seq![set.txs@[kv].tx_index]
        } else {
            Seq::<u64>::empty()
        }) + spec_victims(set, pool, tin, tout, ka, kb, kv + 1)
    }
}

/// The profit of the round trip after both attacker transactions' gas,
/// where every exact intermediate fits and is strictly positive.
pub open spec fn spec_sandwich_profit(
    md: Metadata,
    a: NormalizedSwap,
    b: NormalizedSwap,
    gas_a: Rat,
    gas_b: Rat,
) -> Option<Rat> {
    match spec_sub(b.amount_out, a.amount_in) {
        None => None,
        Some(gross) => match spec_gas_cost(md, gas_a, a.token_in) {
            None => None,
            Some(ga) => match spec_gas_cost(md, gas_b, a.token_in) {
                None => None,
                Some(gb) => match spec_add(ga, gb) {
                    None => None,
                    Some(gas) => match spec_sub(gross, gas) {
                        None => None,
                        Some(net) => if net.n() > 0 {
                            Some(net)
                        } else {
                            None
                        },
                    },
                },
            },
        },
    }
}

/// The bundle for one front-run candidate swap at transaction position
/// `ka`.
pub open spec fn spec_sandwich_bundle(set: BlockActionSet, ka: int, a: NormalizedSwap) -> Option<
    BundleModel,
> {
    let eoa = set.txs@[ka].eoa;
    match spec_find_back(set, eoa, a.pool, a.token_out, a.token_in, ka + 1) {
        None => None,
        Some((kb, b)) => {
            let victims = spec_victims(set, a.pool, a.token_out, a.token_in, ka, kb, ka + 1);
            if victims.len() == 0 {
                None
            } else {
                match spec_sandwich_profit(
                    set.metadata,
                    a,
                    b,
                    set.txs@[ka].gas_paid,
                    set.txs@[kb].gas_paid,
                ) {
                    None => None,
                    Some(net) => Some(
                        BundleModel {
                            kind: MevKind::Sandwich,
                            txs: seq![set.txs@[ka].tx_index] + victims + seq![
                                set.txs@[kb].tx_index,
                            ],
                            profit_token: a.token_in,
                            profit: net,
                            profit_usd: spec_usd_value(set.metadata, a.token_in, net),
                        },
                    ),
                }
            }
        },
    }
}

/// The sandwich findings for front-run candidates at
/// `set.txs[ka].actions[i..]`.
pub open spec fn spec_sandwich_tx(set: BlockActionSet, ka: int, i: int) -> Seq<BundleModel>
    decreases set.txs@[ka].actions@.len() - i,
{
    if ka < 0 || ka >= set.txs@.len() || i < 0 || i >= set.txs@[ka].actions@.len() {
        Seq::empty()
    } else {
        (match set.txs@[ka].actions@[i] {
            NormalizedAction::Swap(a) => match spec_sandwich_bundle(set, ka, a) {
                Some(b) => seq![b],
                None => Seq::<BundleModel>::empty(),
            },
            _ => Seq::<BundleModel>::empty(),
        }) + spec_sandwich_tx(set, ka, i + 1)
    }
}

/// The sandwich findings of the transactions `set.txs[ka..]`.
pub open spec fn spec_sandwich_from(set: BlockActionSet, ka: int) -> Seq<BundleModel>
    decreases set.txs@.len() - ka,
{
    if ka < 0 || ka >= set.txs@.len() {
        Seq::empty()
    } else {
        spec_sandwich_tx(set, ka, 0) + spec_sandwich_from(set, ka + 1)
    }
}

/// Everything the sandwich detector flags for one block.
pub open spec fn spec_sandwich(set: BlockActionSet) -> Seq<BundleModel> {
    spec_sandwich_from(set, 0)
}

/// Finds the first matching swap among one transaction's actions.
fn swap_match_in_tx(
    t: &TransactionActions,
    pool: &Address,
    tin: &Address,
    tout: &Address,
) -> (r: Option<NormalizedSwap>)
    ensures
        r == spec_swap_match_in(t.actions@, *pool, *tin, *tout, 0),
{
    let n: usize = t.actions.len();
    let mut j: usize = 0;
    while j < n
        invariant
            n == t.actions@.len(),
            spec_swap_match_in(t.actions@, *pool, *tin, *tout, 0) == spec_swap_match_in(
                t.actions@,
                *pool,
                *tin,
                *tout,
                j as int,
            ),
        decreases n - j,
    {
        match &t.actions[j] {
            NormalizedAction::Swap(sw) => {
                if sw.pool.same(pool) && sw.token_in.same(tin) && sw.token_out.same(tout) {
                    return Some(*sw);
                }
            },
            _ => {},
        }
        j += 1;
    }
    None
}

/// Finds the back-run transaction for a front-run candidate.
fn find_back(
    set: &BlockActionSet,
    eoa: &Address,
    pool: &Address,
    tin: &Address,
    tout: &Address,
    kb0: usize,
) -> (r: Option<(usize, NormalizedSwap)>)
    ensures
        match r {
            Some(p) => spec_find_back(*set, *eoa, *pool, *tin, *tout, kb0 as int) == Some(
                (p.0 as int, p.1),
            ),
            None => spec_find_back(*set, *eoa, *pool, *tin, *tout, kb0 as int) is None,
        },
{
    let nk: usize = set.txs.len();
    let mut kb: usize = kb0;
    while kb < nk
        invariant
            nk == set.txs@.len(),
            spec_find_back(*set, *eoa, *pool, *tin, *tout, kb0 as int) == spec_find_back(
                *set,
                *eoa,
                *pool,
                *tin,
                *tout,
                kb as int,
            ),
        decreases nk - kb,
    {
        let t = &set.txs[kb];
        if t.eoa.same(eoa) {
            match swap_match_in_tx(t, pool, tin, tout) {
                Some(sw) => {
                    return Some((kb, sw));
                },
                None => {},
            }
        }
        kb += 1;
    }
    None
}

/// A found back-run lies at a valid position.
proof fn lemma_find_back_bounds(
    set: BlockActionSet,
    eoa: Address,
    pool: Address,
    tin: Address,
    tout: Address,
    kb: int,
)
    requires
        spec_find_back(set, eoa, pool, tin, tout, kb) is Some,
        0 <= kb,
    ensures
        kb <= spec_find_back(set, eoa, pool, tin, tout, kb)->Some_0.0 < set.txs@.len(),
    decreases set.txs@.len() - kb,
{
    let local = if set.txs@[kb].eoa == eoa {
        spec_swap_match_in(set.txs@[kb].actions@, pool, tin, tout, 0)
    } else {
        Option::<NormalizedSwap>::None
    };
    match local {
        Some(_) => {},
        None => {
            lemma_find_back_bounds(set, eoa, pool, tin, tout, kb + 1);
        },
    }
}

/// A matching swap drawn from well-formed actions is well-formed.
proof fn lemma_swap_match_wf(
    actions: Seq<NormalizedAction>,
    pool: Address,
    tin: Address,
    tout: Address,
    j: int,
)
    requires
        forall|x: int| 0 <= x < actions.len() ==> (#[trigger] actions[x]).wf(),
    ensures
        spec_swap_match_in(actions, pool, tin, tout, j) matches Some(sw) ==> sw.amount_in.wf()
            && sw.amount_out.wf(),
    decreases actions.len() - j,
{
    if 0 <= j < actions.len() {
        assert(actions[j].wf());
        lemma_swap_match_wf(actions, pool, tin, tout, j + 1);
    }
}

/// A found back-run swap is well-formed.
proof fn lemma_find_back_wf(
    set: BlockActionSet,
    eoa: Address,
    pool: Address,
    tin: Address,
    tout: Address,
    kb: int,
)
    requires
        set.wf(),
        spec_find_back(set, eoa, pool, tin, tout, kb) is Some,
    ensures
        ({
            let p = spec_find_back(set, eoa, pool, tin, tout, kb)->Some_0;
            p.1.amount_in.wf() && p.1.amount_out.wf()
        }),
    decreases set.txs@.len() - kb,
{
    let local = if set.txs@[kb].eoa == eoa {
        spec_swap_match_in(set.txs@[kb].actions@, pool, tin, tout, 0)
    } else {
        Option::<NormalizedSwap>::None
    };
    match local {
        Some(_) => {
            assert(set.txs@[kb].wf());
            lemma_swap_match_wf(set.txs@[kb].actions@, pool, tin, tout, 0);
        },
        None => {
            lemma_find_back_wf(set, eoa, pool, tin, tout, kb + 1);
        },
    }
}

/// Collects the victim transactions strictly between `ka` and `kb`.
fn victims_between(
    set: &BlockActionSet,
    pool: &Address,
    tin: &Address,
    tout: &Address,
    ka: usize,
    kb: usize,
) -> (r: Vec<u64>)
    requires
        ka < kb,
        kb < set.txs@.len(),
    ensures
        r@ == spec_victims(*set, *pool, *tin, *tout, ka as int, kb as int, ka + 1),
{
    let mut out: Vec<u64> = Vec::new();
    let nk: usize = set.txs.len();
    let mut kv: usize = ka + 1;
    while kv < kb
        invariant
            ka + 1 <= kv,
            kv <= kb || kv == ka + 1,
            kb < set.txs@.len(),
            nk == set.txs@.len(),
            out@ + spec_victims(*set, *pool, *tin, *tout, ka as int, kb as int, kv as int)
                == spec_victims(*set, *pool, *tin, *tout, ka as int, kb as int, ka + 1),
        decreases kb - kv,
    {
        let t = &set.txs[kv];
        let ghost before = out@;
        let ghost piece = if spec_swap_match_in(
            set.txs@[kv as int].actions@,
            *pool,
            *tin,
            *tout,
            0,
        ) is Some {
            seq![set.txs@[kv as int].tx_index]
        } else {
            Seq::<u64>::empty()
        };
        match swap_match_in_tx(t, pool, tin, tout) {
            Some(_) => {
                out.push(t.tx_index);
            },
            None => {},
        }
        proof {
            let ghost tail = spec_victims(
                *set,
                *pool,
                *tin,
                *tout,
                ka as int,
                kb as int,
                kv + 1,
            );
            assert(out@ == before + piece);
            assert(spec_victims(*set, *pool, *tin, *tout, ka as int, kb as int, kv as int)
                == piece + tail);
            assert((before + piece) + tail =~= before + (piece + tail));
        }
        kv += 1;
    }
    proof {
        if kv == ka + 1 && !(kv < kb) {
            assert(spec_victims(*set, *pool, *tin, *tout, ka as int, kb as int, ka + 1)
                =~= Seq::<u64>::empty());
        }
        assert(spec_victims(*set, *pool, *tin, *tout, ka as int, kb as int, kv as int)
            =~= Seq::<u64>::empty());
        assert(out@ + Seq::<u64>::empty() =~= out@);
    }
    out
}

/// Evaluates one front-run candidate swap.
fn sandwich_bundle(set: &BlockActionSet, ka: usize, a: &NormalizedSwap) -> (r: Option<Bundle>)
    requires
        set.wf(),
        ka < set.txs@.len(),
        a.amount_in.wf(),
        a.amount_out.wf(),
    ensures
        match r {
            Some(b) => spec_sandwich_bundle(*set, ka as int, *a) == Some(b@),
            None => spec_sandwich_bundle(*set, ka as int, *a) is None,
        },
{
    let nk: usize = set.txs.len();
    let eoa = set.txs[ka].eoa;
    let found = match find_back(set, &eoa, &a.pool, &a.token_out, &a.token_in, ka + 1) {
        None => {
            return None;
        },
        Some(p) => p,
    };
    let kb = found.0;
    let b = found.1;
    proof {
        lemma_find_back_bounds(*set, eoa, a.pool, a.token_out, a.token_in, ka + 1);
        lemma_find_back_wf(*set, eoa, a.pool, a.token_out, a.token_in, ka + 1);
    }
    let victims = victims_between(set, &a.pool, &a.token_out, &a.token_in, ka, kb);
    if victims.len() == 0 {
        return None;
    }
    proof {
        assert(set.txs@[ka as int].wf());
        assert(set.txs@[kb as int].wf());
    }
    let gross = match b.amount_out.checked_sub(&a.amount_in) {
        None => {
            return None;
        },
        Some(v) => v,
    };
    let ga = match set.metadata.gas_cost_in(&set.txs[ka].gas_paid, &a.token_in) {
        None => {
            return None;
        },
        Some(v) => v,
    };
    let gb = match set.metadata.gas_cost_in(&set.txs[kb].gas_paid, &a.token_in) {
        None => {
            return None;
        },
        Some(v) => v,
    };
    let gas = match ga.checked_add(&gb) {
        None => {
            return None;
        },
        Some(v) => v,
    };
    let net = match gross.checked_sub(&gas) {
        None => {
            return None;
        },
        Some(v) => v,
    };
    if !net.is_pos() {
        return None;
    }
    let usd = set.metadata.usd_value(&a.token_in, &net);
    let mut txs: Vec<u64> = Vec::new();
    txs.push(set.txs[ka].tx_index);
    let nv: usize = victims.len();
    let mut v: usize = 0;
    while v < nv
        invariant
            v <= nv,
            nv == victims@.len(),
            ka < set.txs@.len(),
            txs@ == seq![set.txs@[ka as int].tx_index] + victims@.subrange(0, v as int),
        decreases nv - v,
    {
        txs.push(victims[v]);
        proof {
            assert(victims@.subrange(0, v + 1) =~= victims@.subrange(0, v as int).push(
                victims@[v as int],
            ));
            assert(txs@ =~= seq![set.txs@[ka as int].tx_index] + victims@.subrange(0, v + 1));
        }
        v += 1;
    }
    txs.push(set.txs[kb].tx_index);
    let out = Bundle {
        kind: MevKind::Sandwich,
        txs,
        profit_token: a.token_in,
        profit: net,
        profit_usd: usd,
    };
    proof {
        assert(victims@.subrange(0, nv as int) =~= victims@);
        assert(out@.txs =~= seq![set.txs@[ka as int].tx_index] + victims@ + seq![
            set.txs@[kb as int].tx_index,
        ]);
    }
    Some(out)
}

/// Runs the sandwich detector over one block's action set. Read-only, and
/// a pure function of the action set.
pub fn detect_sandwich(set: &BlockActionSet) -> (r: Vec<Bundle>)
    requires
        set.wf(),
    ensures
        bundle_models(r@) == spec_sandwich(*set),
{
    let mut out: Vec<Bundle> = Vec::new();
    let nk: usize = set.txs.len();
    let mut ka: usize = 0;
    while ka < nk
        invariant
            ka <= nk,
            nk == set.txs@.len(),
            set.wf(),
            bundle_models(out@) + spec_sandwich_from(*set, ka as int) == spec_sandwich(*set),
        decreases nk - ka,
    {
        let ghost tx_base = bundle_models(out@);
        let ni: usize = set.txs[ka].actions.len();
        let mut i: usize = 0;
        while i < ni
            invariant
                i <= ni,
                ka < nk,
                nk == set.txs@.len(),
                ni == set.txs@[ka as int].actions@.len(),
                set.wf(),
                bundle_models(out@) + spec_sandwich_tx(*set, ka as int, i as int) == tx_base
                    + spec_sandwich_tx(*set, ka as int, 0),
            decreases ni - i,
        {
            let ghost before = bundle_models(out@);
            let ghost piece = match set.txs@[ka as int].actions@[i as int] {
                NormalizedAction::Swap(a) => match spec_sandwich_bundle(*set, ka as int, a) {
                    Some(b) => seq![b],
                    None => Seq::<BundleModel>::empty(),
                },
                _ => Seq::<BundleModel>::empty(),
            };
            let act = set.txs[ka].actions[i];
            match act {
                NormalizedAction::Swap(a) => {
                    proof {
                        assert(set.txs@[ka as int].wf());
                        assert(set.txs@[ka as int].actions@[i as int].wf());
                    }
                    match sandwich_bundle(set, ka, &a) {
                        Some(b) => {
                            proof {
                                lemma_models_push(out@, b);
                            }
                            out.push(b);
                        },
                        None => {},
                    }
                },
                _ => {},
            }
            proof {
                let ghost tail = spec_sandwich_tx(*set, ka as int, i + 1);
                assert(bundle_models(out@) == before + piece);
                assert(spec_sandwich_tx(*set, ka as int, i as int) == piece + tail);
                assert((before + piece) + tail =~= before + (piece + tail));
            }
            i += 1;
        }
        proof {
            assert(spec_sandwich_tx(*set, ka as int, ni as int) =~= Seq::<BundleModel>::empty());
            assert(bundle_models(out@) + Seq::<BundleModel>::empty() =~= bundle_models(out@));
            assert(tx_base + spec_sandwich_tx(*set, ka as int, 0) + spec_sandwich_from(
                *set,
                ka + 1,
            ) =~= tx_base + (spec_sandwich_tx(*set, ka as int, 0) + spec_sandwich_from(
                *set,
                ka + 1,
            )));
            assert(spec_sandwich_from(*set, ka as int) == spec_sandwich_tx(*set, ka as int, 0)
                + spec_sandwich_from(*set, ka + 1));
        }
        ka += 1;
    }
    proof {
        assert(spec_sandwich_from(*set, nk as int) =~= Seq::<BundleModel>::empty());
        assert(bundle_models(out@) + Seq::<BundleModel>::empty() =~= bundle_models(out@));
    }
    out
}

} // verus!
