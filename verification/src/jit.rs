//! JIT liquidity detector.
//!
//! Liquidity minted and burned within the same block is the defining
//! trait: a Mint on a pool, one or more swaps against that pool after the
//! Mint and before the Burn, and a Burn by the same sender referencing the
//! same tick range with equal or greater liquidity. The profit estimate is
//! the fee evidence actually observed: the first Collect on that pool by
//! the same sender, and zero where none was emitted — the pool's internal
//! fee accounting is not part of the action model.

use vstd::prelude::*;

use crate::actions::{
    bundle_models, lemma_models_push, BlockActionSet, Bundle, BundleModel, MevKind,
    NormalizedAction, NormalizedBurn, NormalizedMint, TransactionActions,
};
use crate::rational::Rat;
use crate::types::Address;

verus! {

/// A Burn answers a Mint: same pool, same tick range, and at least the
/// minted liquidity leaves again.
pub open spec fn spec_burn_match(m: NormalizedMint, b: NormalizedBurn) -> bool {
    b.pool == m.pool && b.tick_lower == m.tick_lower && b.tick_upper == m.tick_upper
        && m.liquidity.le_value(b.liquidity)
}

/// The first matching Burn among `actions[j..]`.
pub open spec fn spec_burn_in(actions: Seq<NormalizedAction>, m: NormalizedMint, j: int) -> Option<
    (int, NormalizedBurn),
>
    decreases actions.len() - j,
{
    if j < 0 || j >= actions.len() {
        None
    } else if actions[j] matches NormalizedAction::Burn(b) && spec_burn_match(m, b) {
        match actions[j] {
            NormalizedAction::Burn(b) => Some((j, b)),
            _ => None,
        }
    } else {
        spec_burn_in(actions, m, j + 1)
    }
}

/// The first matching Burn by the same sender, scanning transactions from
/// position `k2` (within the first one, actions from `j2`).
pub open spec fn spec_find_burn(
    set: BlockActionSet,
    eoa: Address,
    m: NormalizedMint,
    k2: int,
    j2: int,
) -> Option<(int, int, NormalizedBurn)>
    decreases set.txs@.len() - k2,
{
    if k2 < 0 || k2 >= set.txs@.len() {
        None
    } else {
        let local = if set.txs@[k2].eoa == eoa {
            spec_burn_in(set.txs@[k2].actions@, m, j2)
        } else {
            None
        };
        match local {
            Some((i2, b)) => Some((k2, i2, b)),
            None => spec_find_burn(set, eoa, m, k2 + 1, 0),
        }
    }
}

/// Some swap against `pool` occurs among `actions[j..]` before `hi`.
pub open spec fn spec_swap_in(actions: Seq<NormalizedAction>, pool: Address, j: int, hi: int) -> bool
    decreases actions.len() - j,
{
    if j < 0 || j >= actions.len() || j >= hi {
        false
    } else if actions[j] matches NormalizedAction::Swap(sw) && sw.pool == pool {
        true
    } else {
        spec_swap_in(actions, pool, j + 1, hi)
    }
}

/// The transactions holding a swap on `pool` positioned strictly between
/// the Mint at `(km, im)` and the Burn at `(kb, ib)`, scanned from `k3`.
pub open spec fn spec_victim_txs(
    set: BlockActionSet,
    pool: Address,
    km: int,
    im: int,
    kb: int,
    ib: int,
    k3: int,
) -> Seq<u64>
    decreases kb - k3 + 1,
{
    if k3 < km || k3 > kb || k3 < 0 || k3 >= set.txs@.len() {
        Seq::empty()
    } else {
        let t = set.txs@[k3];
        let lo = if k3 == km {
            im + 1
        } else {
            0
        };
        let hi = if k3 == kb {
            ib
        } else {
            t.actions@.len() as int
        };
        (if spec_swap_in(t.actions@, pool, lo, hi) {
            seq![t.tx_index]
        } else {
            Seq::<u64>::empty()
        }) + spec_victim_txs(set, pool, km, im, kb, ib, k3 + 1)
    }
}

/// The first Collect on `pool` among `actions[j..]`.
pub open spec fn spec_collect_in(actions: Seq<NormalizedAction>, pool: Address, j: int) -> Option<
    Rat,
>
    decreases actions.len() - j,
{
    if j < 0 || j >= actions.len() {
        None
    } else if actions[j] matches NormalizedAction::Collect(c) && c.pool == pool {
        match actions[j] {
            NormalizedAction::Collect(c) => Some(c.amount0),
            _ => None,
        }
    } else {
        spec_collect_in(actions, pool, j + 1)
    }
}

/// The first Collect on `pool` by `eoa` anywhere in the block, from
/// transaction position `k` on.
pub open spec fn spec_find_collect(set: BlockActionSet, pool: Address, eoa: Address, k: int) -> Option<
    Rat,
>
    decreases set.txs@.len() - k,
{
    if k < 0 || k >= set.txs@.len() {
        None
    } else {
        let local = if set.txs@[k].eoa == eoa {
            spec_collect_in(set.txs@[k].actions@, pool, 0)
        } else {
            None
        };
        match local {
            Some(a) => Some(a),
            None => spec_find_collect(set, pool, eoa, k + 1),
        }
    }
}

/// The bundle for one Mint at position `(k, i)`, if a same-sender Burn
/// answers it in this block with at least one intervening swap.
pub open spec fn spec_jit_mint(set: BlockActionSet, k: int, i: int, m: NormalizedMint) -> Option<
    BundleModel,
> {
    let eoa = set.txs@[k].eoa;
    match spec_find_burn(set, eoa, m, k, i + 1) {
        None => None,
        Some((kb, ib, b)) => {
            let victims = spec_victim_txs(set, m.pool, k, i, kb, ib, k);
            if victims.len() == 0 {
                None
            } else {
                let profit = match spec_find_collect(set, m.pool, eoa, 0) {
                    Some(a) => a,
                    None => Rat { num: 0, den: 1 },
                };
                Some(
                    BundleModel {
                        kind: MevKind::Jit,
                        txs: seq![set.txs@[k].tx_index] + victims + seq![
                            set.txs@[kb].tx_index,
                        ],
                        profit_token: m.pool,
                        profit,
                        profit_usd: None,
                    },
                )
            }
        },
    }
}

/// The JIT findings for Mint actions at `set.txs[k].actions[i..]`.
pub open spec fn spec_jit_tx(set: BlockActionSet, k: int, i: int) -> Seq<BundleModel>
    decreases set.txs@[k].actions@.len() - i,
{
    if k < 0 || k >= set.txs@.len() || i < 0 || i >= set.txs@[k].actions@.len() {
        Seq::empty()
    } else {
        (match set.txs@[k].actions@[i] {
            NormalizedAction::Mint(m) => match spec_jit_mint(set, k, i, m) {
                Some(b) => seq![b],
                None => Seq::<BundleModel>::empty(),
            },
            _ => Seq::<BundleModel>::empty(),
        }) + spec_jit_tx(set, k, i + 1)
    }
}

/// The JIT findings of the transactions `set.txs[k..]`.
pub open spec fn spec_jit_from(set: BlockActionSet, k: int) -> Seq<BundleModel>
    decreases set.txs@.len() - k,
{
    if k < 0 || k >= set.txs@.len() {
        Seq::empty()
    } else {
        spec_jit_tx(set, k, 0) + spec_jit_from(set, k + 1)
    }
}

/// Everything the JIT detector flags for one block.
pub open spec fn spec_jit(set: BlockActionSet) -> Seq<BundleModel> {
    spec_jit_from(set, 0)
}

/// Finds the first matching Burn among one transaction's actions.
fn burn_in_tx(t: &TransactionActions, m: &NormalizedMint, j0: usize) -> (r: Option<
    (usize, NormalizedBurn),
>)
    requires
        t.wf(),
        m.liquidity.wf(),
    ensures
        match r {
            Some(p) => spec_burn_in(t.actions@, *m, j0 as int) == Some((p.0 as int, p.1)),
            None => spec_burn_in(t.actions@, *m, j0 as int) is None,
        },
{
    let n: usize = t.actions.len();
    let mut j: usize = j0;
    while j < n
        invariant
            j0 <= j,
            j <= n || j == j0,
            n == t.actions@.len(),
            t.wf(),
            m.liquidity.wf(),
            spec_burn_in(t.actions@, *m, j0 as int) == spec_burn_in(t.actions@, *m, j as int),
        decreases n - j,
    {
        match &t.actions[j] {
            NormalizedAction::Burn(b) => {
                proof {
                    assert(t.actions@[j as int].wf());
                }
                if b.pool.same(&m.pool) && b.tick_lower == m.tick_lower && b.tick_upper
                    == m.tick_upper && m.liquidity.le(&b.liquidity) {
                    return Some((j, *b));
                }
            },
            _ => {},
        }
        j += 1;
    }
    None
}

/// Finds the first matching same-sender Burn from position `(k0, j0)` on.
fn find_burn(
    set: &BlockActionSet,
    eoa: &Address,
    m: &NormalizedMint,
    k0: usize,
    j0: usize,
) -> (r: Option<(usize, usize, NormalizedBurn)>)
    requires
        set.wf(),
        m.liquidity.wf(),
    ensures
        match r {
            Some(p) => spec_find_burn(*set, *eoa, *m, k0 as int, j0 as int) == Some(
                (p.0 as int, p.1 as int, p.2),
            ),
            None => spec_find_burn(*set, *eoa, *m, k0 as int, j0 as int) is None,
        },
{
    let nk: usize = set.txs.len();
    let mut k2: usize = k0;
    let mut j: usize = j0;
    while k2 < nk
        invariant
            nk == set.txs@.len(),
            set.wf(),
            m.liquidity.wf(),
            spec_find_burn(*set, *eoa, *m, k0 as int, j0 as int) == spec_find_burn(
                *set,
                *eoa,
                *m,
                k2 as int,
                j as int,
            ),
        decreases nk - k2,
    {
        let t = &set.txs[k2];
        if t.eoa.same(eoa) {
            proof {
                assert(set.txs@[k2 as int].wf());
            }
            match burn_in_tx(t, m, j) {
                Some(p) => {
                    return Some((k2, p.0, p.1));
                },
                None => {},
            }
        }
        k2 += 1;
        j = 0;
    }
    None
}

/// Does any swap against `pool` occur in `t.actions[lo..hi]`?
fn swap_in_tx(t: &TransactionActions, pool: &Address, lo: usize, hi: usize) -> (r: bool)
    ensures
        r == spec_swap_in(t.actions@, *pool, lo as int, hi as int),
{
    let n: usize = t.actions.len();
    let mut j: usize = lo;
    while j < n && j < hi
        invariant
            lo <= j,
            n == t.actions@.len(),
            spec_swap_in(t.actions@, *pool, lo as int, hi as int) == spec_swap_in(
                t.actions@,
                *pool,
                j as int,
                hi as int,
            ),
        decreases n - j,
    {
        match &t.actions[j] {
            NormalizedAction::Swap(sw) => {
                if sw.pool.same(pool) {
                    return true;
                }
            },
            _ => {},
        }
        j += 1;
    }
    false
}

/// Collects the transactions with a swap on `pool` between the Mint and
/// the Burn positions.
fn victim_txs(
    set: &BlockActionSet,
    pool: &Address,
    km: usize,
    im: usize,
    kb: usize,
    ib: usize,
) -> (r: Vec<u64>)
    requires
        km <= kb < set.txs@.len(),
        im < set.txs@[km as int].actions@.len(),
    ensures
        r@ == spec_victim_txs(*set, *pool, km as int, im as int, kb as int, ib as int, km as int),
{
    let mut out: Vec<u64> = Vec::new();
    let nk: usize = set.txs.len();
    let mut k3: usize = km;
    while k3 <= kb
        invariant
            km <= k3 <= kb + 1,
            nk == set.txs@.len(),
            kb < set.txs@.len(),
            im < set.txs@[km as int].actions@.len(),
            out@ + spec_victim_txs(
                *set,
                *pool,
                km as int,
                im as int,
                kb as int,
                ib as int,
                k3 as int,
            ) == spec_victim_txs(
                *set,
                *pool,
                km as int,
                im as int,
                kb as int,
                ib as int,
                km as int,
            ),
        decreases kb - k3 + 1,
    {
        let t = &set.txs[k3];
        let n: usize = t.actions.len();
        let lo: usize = if k3 == km {
            im + 1
        } else {
            0
        };
        let hi: usize = if k3 == kb {
            ib
        } else {
            n
        };
        let ghost before = out@;
        let ghost piece = if spec_swap_in(
            set.txs@[k3 as int].actions@,
            *pool,
            lo as int,
            hi as int,
        ) {
            seq![set.txs@[k3 as int].tx_index]
        } else {
            Seq::<u64>::empty()
        };
        if swap_in_tx(t, pool, lo, hi) {
            out.push(t.tx_index);
        }
        proof {
            let ghost tail = spec_victim_txs(
                *set,
                *pool,
                km as int,
                im as int,
                kb as int,
                ib as int,
                k3 + 1,
            );
            assert(out@ == before + piece);
            assert(spec_victim_txs(
                *set,
                *pool,
                km as int,
                im as int,
                kb as int,
                ib as int,
                k3 as int,
            ) == piece + tail);
            assert((before + piece) + tail =~= before + (piece + tail));
        }
        k3 += 1;
    }
    proof {
        assert(spec_victim_txs(
            *set,
            *pool,
            km as int,
            im as int,
            kb as int,
            ib as int,
            kb + 1,
        ) =~= Seq::<u64>::empty());
        assert(out@ + Seq::<u64>::empty() =~= out@);
    }
    out
}

/// Finds the first Collect on `pool` among one transaction's actions.
fn collect_in_tx(t: &TransactionActions, pool: &Address) -> (r: Option<Rat>)
    ensures
        match r {
            Some(a) => spec_collect_in(t.actions@, *pool, 0) == Some(a),
            None => spec_collect_in(t.actions@, *pool, 0) is None,
        },
{
    let n: usize = t.actions.len();
    let mut j: usize = 0;
    while j < n
        invariant
            n == t.actions@.len(),
            spec_collect_in(t.actions@, *pool, 0) == spec_collect_in(t.actions@, *pool, j as int),
        decreases n - j,
    {
        match &t.actions[j] {
            NormalizedAction::Collect(c) => {
                if c.pool.same(pool) {
                    return Some(c.amount0);
                }
            },
            _ => {},
        }
        j += 1;
    }
    None
}

/// Finds the first Collect on `pool` by `eoa` anywhere in the block.
fn find_collect(set: &BlockActionSet, pool: &Address, eoa: &Address) -> (r: Option<Rat>)
    ensures
        match r {
            Some(a) => spec_find_collect(*set, *pool, *eoa, 0) == Some(a),
            None => spec_find_collect(*set, *pool, *eoa, 0) is None,
        },
{
    let nk: usize = set.txs.len();
    let mut k: usize = 0;
    while k < nk
        invariant
            nk == set.txs@.len(),
            spec_find_collect(*set, *pool, *eoa, 0) == spec_find_collect(
                *set,
                *pool,
                *eoa,
                k as int,
            ),
        decreases nk - k,
    {
        let t = &set.txs[k];
        if t.eoa.same(eoa) {
            match collect_in_tx(t, pool) {
                Some(a) => {
                    return Some(a);
                },
                None => {},
            }
        }
        k += 1;
    }
    None
}

/// Evaluates one Mint at position `(k, i)`.
fn jit_mint(set: &BlockActionSet, k: usize, i: usize, m: &NormalizedMint) -> (r: Option<Bundle>)
    requires
        set.wf(),
        k < set.txs@.len(),
        i < set.txs@[k as int].actions@.len(),
        m.liquidity.wf(),
    ensures
        match r {
            Some(b) => spec_jit_mint(*set, k as int, i as int, *m) == Some(b@),
            None => spec_jit_mint(*set, k as int, i as int, *m) is None,
        },
{
    let eoa = set.txs[k].eoa;
    let ni: usize = set.txs[k].actions.len();
    match find_burn(set, &eoa, m, k, i + 1) {
        None => None,
        Some(found) => {
            let kb = found.0;
            let ib = found.1;
            proof {
                lemma_find_burn_bounds(*set, eoa, *m, k as int, i + 1);
            }
            let victims = victim_txs(set, &m.pool, k, i, kb, ib);
            if victims.len() == 0 {
                return None;
            }
            let profit = match find_collect(set, &m.pool, &eoa) {
                Some(a) => a,
                None => Rat { num: 0, den: 1 },
            };
            let mut txs: Vec<u64> = Vec::new();
            txs.push(set.txs[k].tx_index);
            let nv: usize = victims.len();
            let mut v: usize = 0;
            while v < nv
                invariant
                    v <= nv,
                    nv == victims@.len(),
                    k < set.txs@.len(),
                    txs@ == seq![set.txs@[k as int].tx_index] + victims@.subrange(0, v as int),
                decreases nv - v,
            {
                txs.push(victims[v]);
                proof {
                    assert(victims@.subrange(0, v + 1) =~= victims@.subrange(0, v as int).push(
                        victims@[v as int],
                    ));
                    assert(txs@ =~= seq![set.txs@[k as int].tx_index] + victims@.subrange(
                        0,
                        v + 1,
                    ));
                }
                v += 1;
            }
            txs.push(set.txs[kb].tx_index);
            let b = Bundle {
                kind: MevKind::Jit,
                txs,
                profit_token: m.pool,
                profit,
                profit_usd: None,
            };
            proof {
                assert(victims@.subrange(0, nv as int) =~= victims@);
                assert(b@.txs =~= seq![set.txs@[k as int].tx_index] + victims@ + seq![
                    set.txs@[kb as int].tx_index,
                ]);
            }
            Some(b)
        },
    }
}

/// A found Burn lies at a valid position.
proof fn lemma_find_burn_bounds(
    set: BlockActionSet,
    eoa: Address,
    m: NormalizedMint,
    k2: int,
    j2: int,
)
    requires
        spec_find_burn(set, eoa, m, k2, j2) is Some,
        0 <= k2,
    ensures
        ({
            let p = spec_find_burn(set, eoa, m, k2, j2)->Some_0;
            k2 <= p.0 < set.txs@.len() && 0 <= p.1 < set.txs@[p.0].actions@.len()
        }),
    decreases set.txs@.len() - k2,
{
    let local = if set.txs@[k2].eoa == eoa {
        spec_burn_in(set.txs@[k2].actions@, m, j2)
    } else {
        Option::<(int, NormalizedBurn)>::None
    };
    match local {
        Some(_) => {
            if set.txs@[k2].eoa == eoa {
                lemma_burn_in_bounds(set.txs@[k2].actions@, m, j2);
            }
        },
        None => {
            lemma_find_burn_bounds(set, eoa, m, k2 + 1, 0);
        },
    }
}

/// A found Burn lies at a valid action position.
proof fn lemma_burn_in_bounds(actions: Seq<NormalizedAction>, m: NormalizedMint, j: int)
    requires
        spec_burn_in(actions, m, j) is Some,
    ensures
        ({
            let p = spec_burn_in(actions, m, j)->Some_0;
            0 <= p.0 < actions.len() && (j >= 0 ==> j <= p.0)
        }),
    decreases actions.len() - j,
{
    if j < 0 || j >= actions.len() {
    } else if actions[j] matches NormalizedAction::Burn(b) && spec_burn_match(m, b) {
    } else {
        lemma_burn_in_bounds(actions, m, j + 1);
    }
}

/// Runs the JIT detector over one block's action set. Read-only, and a
/// pure function of the action set.
pub fn detect_jit(set: &BlockActionSet) -> (r: Vec<Bundle>)
    requires
        set.wf(),
    ensures
        bundle_models(r@) == spec_jit(*set),
{
    let mut out: Vec<Bundle> = Vec::new();
    let nk: usize = set.txs.len();
    let mut k: usize = 0;
    while k < nk
        invariant
            k <= nk,
            nk == set.txs@.len(),
            set.wf(),
            bundle_models(out@) + spec_jit_from(*set, k as int) == spec_jit(*set),
        decreases nk - k,
    {
        let ghost tx_base = bundle_models(out@);
        let ni: usize = set.txs[k].actions.len();
        let mut i: usize = 0;
        while i < ni
            invariant
                i <= ni,
                k < nk,
                nk == set.txs@.len(),
                ni == set.txs@[k as int].actions@.len(),
                set.wf(),
                bundle_models(out@) + spec_jit_tx(*set, k as int, i as int) == tx_base
                    + spec_jit_tx(*set, k as int, 0),
            decreases ni - i,
        {
            let ghost before = bundle_models(out@);
            let ghost piece = match set.txs@[k as int].actions@[i as int] {
                NormalizedAction::Mint(m) => match spec_jit_mint(*set, k as int, i as int, m) {
                    Some(b) => seq![b],
                    None => Seq::<BundleModel>::empty(),
                },
                _ => Seq::<BundleModel>::empty(),
            };
            let act = set.txs[k].actions[i];
            match act {
                NormalizedAction::Mint(m) => {
                    proof {
                        assert(set.txs@[k as int].wf());
                        assert(set.txs@[k as int].actions@[i as int].wf());
                    }
                    match jit_mint(set, k, i, &m) {
                        Some(b) => {
                            proof {
                                lemma_models_push(out@, b);
                            }
                            out.push(b);
                        },
                        None => {},
                    }
                },
                _ => {},
            }
            proof {
                let ghost tail = spec_jit_tx(*set, k as int, i + 1);
                assert(bundle_models(out@) == before + piece);
                assert(spec_jit_tx(*set, k as int, i as int) == piece + tail);
                assert((before + piece) + tail =~= before + (piece + tail));
            }
            i += 1;
        }
        proof {
            assert(spec_jit_tx(*set, k as int, ni as int) =~= Seq::<BundleModel>::empty());
            assert(bundle_models(out@) + Seq::<BundleModel>::empty() =~= bundle_models(out@));
            assert(tx_base + spec_jit_tx(*set, k as int, 0) + spec_jit_from(*set, k + 1)
                =~= tx_base + (spec_jit_tx(*set, k as int, 0) + spec_jit_from(*set, k + 1)));
            assert(spec_jit_from(*set, k as int) == spec_jit_tx(*set, k as int, 0)
                + spec_jit_from(*set, k + 1));
        }
        k += 1;
    }
    proof {
        assert(spec_jit_from(*set, nk as int) =~= Seq::<BundleModel>::empty());
        assert(bundle_models(out@) + Seq::<BundleModel>::empty() =~= bundle_models(out@));
    }
    out
}

} // verus!
