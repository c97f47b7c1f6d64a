//! The unified action model: heterogeneous protocol calls normalized into
//! one ordered sequence of economic actions per transaction.

use vstd::prelude::*;

use crate::rational::{spec_mul, Rat};
use crate::types::{Address, Protocol};

verus! {

/// One token (or native asset) movement.
#[derive(Clone, Copy, PartialEq, Eq, Structural, Debug)]
pub struct NormalizedTransfer {
    pub trace_index: u64,
    pub from: Address,
    pub to: Address,
    pub token: Address,
    pub amount: Rat,
    pub fee: Rat,
}

/// One swap against a pool: `from` spends `amount_in` of `token_in` and the
/// pool releases `amount_out` of `token_out` to `recipient`.
#[derive(Clone, Copy, PartialEq, Eq, Structural, Debug)]
pub struct NormalizedSwap {
    pub trace_index: u64,
    pub protocol: Protocol,
    pub pool: Address,
    pub from: Address,
    pub recipient: Address,
    pub token_in: Address,
    pub amount_in: Rat,
    pub token_out: Address,
    pub amount_out: Rat,
}

/// Liquidity added to a pool over a tick range.
#[derive(Clone, Copy, PartialEq, Eq, Structural, Debug)]
pub struct NormalizedMint {
    pub trace_index: u64,
    pub protocol: Protocol,
    pub pool: Address,
    pub from: Address,
    pub tick_lower: i32,
    pub tick_upper: i32,
    pub liquidity: Rat,
}

/// Liquidity removed from a pool over a tick range.
#[derive(Clone, Copy, PartialEq, Eq, Structural, Debug)]
pub struct NormalizedBurn {
    pub trace_index: u64,
    pub protocol: Protocol,
    pub pool: Address,
    pub from: Address,
    pub tick_lower: i32,
    pub tick_upper: i32,
    pub liquidity: Rat,
}

/// Fees collected from a pool position.
#[derive(Clone, Copy, PartialEq, Eq, Structural, Debug)]
pub struct NormalizedCollect {
    pub trace_index: u64,
    pub protocol: Protocol,
    pub pool: Address,
    pub from: Address,
    pub recipient: Address,
    pub tick_lower: i32,
    pub tick_upper: i32,
    pub amount0: Rat,
    pub amount1: Rat,
}

/// A flash loan taken and repaid within one call.
#[derive(Clone, Copy, PartialEq, Eq, Structural, Debug)]
pub struct NormalizedFlashLoan {
    pub trace_index: u64,
    pub protocol: Protocol,
    pub pool: Address,
    pub from: Address,
    pub token: Address,
    pub amount: Rat,
}

/// A collateral liquidation.
#[derive(Clone, Copy, PartialEq, Eq, Structural, Debug)]
pub struct NormalizedLiquidation {
    pub trace_index: u64,
    pub protocol: Protocol,
    pub pool: Address,
    pub from: Address,
    pub token: Address,
    pub amount: Rat,
}

/// One normalized economic action, in call-tree execution order.
#[derive(Clone, Copy, PartialEq, Eq, Structural, Debug)]
pub enum NormalizedAction {
    Transfer(NormalizedTransfer),
    Swap(NormalizedSwap),
    Mint(NormalizedMint),
    Burn(NormalizedBurn),
    Collect(NormalizedCollect),
    FlashLoan(NormalizedFlashLoan),
    Liquidation(NormalizedLiquidation),
    Unclassified { trace_index: u64 },
}

impl NormalizedAction {
    /// The trace index inherited from the originating call frame.
    pub open spec fn spec_trace_index(self) -> u64 {
        match self {
            NormalizedAction::Transfer(t) => t.trace_index,
            NormalizedAction::Swap(s) => s.trace_index,
            NormalizedAction::Mint(m) => m.trace_index,
            NormalizedAction::Burn(b) => b.trace_index,
            NormalizedAction::Collect(c) => c.trace_index,
            NormalizedAction::FlashLoan(f) => f.trace_index,
            NormalizedAction::Liquidation(l) => l.trace_index,
            NormalizedAction::Unclassified { trace_index } => trace_index,
        }
    }

    /// The trace index inherited from the originating call frame.
    pub fn trace_index(&self) -> (r: u64)
        ensures
            r == self.spec_trace_index(),
    {
        match self {
            NormalizedAction::Transfer(t) => t.trace_index,
            NormalizedAction::Swap(s) => s.trace_index,
            NormalizedAction::Mint(m) => m.trace_index,
            NormalizedAction::Burn(b) => b.trace_index,
            NormalizedAction::Collect(c) => c.trace_index,
            NormalizedAction::FlashLoan(f) => f.trace_index,
            NormalizedAction::Liquidation(l) => l.trace_index,
            NormalizedAction::Unclassified { trace_index } => *trace_index,
        }
    }

    /// All rational fields are well-formed.
    pub open spec fn wf(self) -> bool {
        match self {
            NormalizedAction::Transfer(t) => t.amount.wf() && t.fee.wf(),
            NormalizedAction::Swap(s) => s.amount_in.wf() && s.amount_out.wf(),
            NormalizedAction::Mint(m) => m.liquidity.wf(),
            NormalizedAction::Burn(b) => b.liquidity.wf(),
            NormalizedAction::Collect(c) => c.amount0.wf() && c.amount1.wf(),
            NormalizedAction::FlashLoan(f) => f.amount.wf(),
            NormalizedAction::Liquidation(l) => l.amount.wf(),
            NormalizedAction::Unclassified { .. } => true,
        }
    }
}

/// The ordered action sequence of one transaction.
#[derive(Clone, PartialEq, Eq, Debug)]
pub struct TransactionActions {
    pub tx_index: u64,
    pub eoa: Address,
    pub gas_paid: Rat,
    pub actions: Vec<NormalizedAction>,
}

impl TransactionActions {
    /// Ordering invariant: trace indices never decrease, reflecting
    /// depth-first execution order; every rational is well-formed.
    pub open spec fn wf(self) -> bool {
        &&& self.gas_paid.wf()
        &&& forall|i: int| 0 <= i < self.actions@.len() ==> (#[trigger] self.actions@[i]).wf()
        &&& forall|i: int, j: int|
            0 <= i <= j < self.actions@.len() ==> (#[trigger] self.actions@[i]).spec_trace_index()
                <= (#[trigger] self.actions@[j]).spec_trace_index()
    }
}

/// One reference price: how much of `quote` one unit of `base` is worth.
#[derive(Clone, Copy, PartialEq, Eq, Structural, Debug)]
pub struct PriceEntry {
    pub base: Address,
    pub quote: Address,
    pub price: Rat,
}

/// First-match price lookup, starting at row `i`.
pub open spec fn spec_price_from(s: Seq<PriceEntry>, base: Address, quote: Address, i: int) -> Option<
    Rat,
>
    decreases s.len() - i,
{
    if i < 0 || i >= s.len() {
        None
    } else if s[i].base == base && s[i].quote == quote {
        Some(s[i].price)
    } else {
        spec_price_from(s, base, quote, i + 1)
    }
}

/// First-match price lookup.
pub open spec fn spec_price(s: Seq<PriceEntry>, base: Address, quote: Address) -> Option<Rat> {
    spec_price_from(s, base, quote, 0)
}

/// Per-block external context: timestamp, gas pricing and the reference
/// price table. Supplied by the metadata store; read-only here.
#[derive(Clone, PartialEq, Eq, Debug)]
pub struct Metadata {
    pub block_timestamp: u64,
    pub base_gas_price: Rat,
    /// Marker address for USD-equivalent quotes in the price table.
    pub usd_token: Address,
    pub prices: Vec<PriceEntry>,
}

impl Metadata {
    /// Every price in the table is well-formed.
    pub open spec fn wf(self) -> bool {
        &&& self.base_gas_price.wf()
        &&& forall|i: int| 0 <= i < self.prices@.len() ==> (#[trigger] self.prices@[i]).price.wf()
    }

    /// Looks up the reference price of `base` quoted in `quote`; absence is
    /// an explicit outcome, never a zero-deviation default.
    pub fn price_of(&self, base: &Address, quote: &Address) -> (r: Option<Rat>)
        ensures
            r == spec_price(self.prices@, *base, *quote),
            self.wf() ==> (r matches Some(p) ==> p.wf()),
    {
        let n: usize = self.prices.len();
        let mut i: usize = 0;
        while i < n
            invariant
                i <= n,
                n == self.prices@.len(),
                spec_price(self.prices@, *base, *quote) == spec_price_from(
                    self.prices@,
                    *base,
                    *quote,
                    i as int,
                ),
            decreases n - i,
        {
            let e = self.prices[i];
            if e.base.same(base) && e.quote.same(quote) {
                proof {
                    if self.wf() {
                        assert(self.prices@[i as int].price.wf());
                    }
                }
                return Some(e.price);
            }
            i += 1;
        }
        None
    }
}

impl Metadata {
    /// The USD-equivalent of `amount` units of `token`, where the table
    /// quotes one.
    pub fn usd_value(&self, token: &Address, amount: &Rat) -> (r: Option<Rat>)
        requires
            self.wf(),
            amount.wf(),
        ensures
            r == spec_usd_value(*self, *token, *amount),
    {
        match self.price_of(token, &self.usd_token) {
            None => None,
            Some(p) => amount.checked_mul(&p),
        }
    }

    /// Converts a gas outlay into `token` via the native-asset price.
    pub fn gas_cost_in(&self, gas: &Rat, token: &Address) -> (r: Option<Rat>)
        requires
            self.wf(),
            gas.wf(),
        ensures
            r == spec_gas_cost(*self, *gas, *token),
            r matches Some(g) ==> g.wf(),
    {
        if gas.num == 0 {
            Some(Rat { num: 0, den: 1 })
        } else {
            let native = Address { hi: 0, lo: 0 };
            match self.price_of(&native, token) {
                None => None,
                Some(p) => gas.checked_mul(&p),
            }
        }
    }
}

/// A block's worth of normalized actions with its metadata.
#[derive(Clone, PartialEq, Eq, Debug)]
pub struct BlockActionSet {
    pub block_number: u64,
    pub metadata: Metadata,
    pub txs: Vec<TransactionActions>,
}

impl BlockActionSet {
    /// Transactions are strictly ordered by their index in the block, each
    /// transaction's actions are ordered, and the metadata is well-formed.
    pub open spec fn wf(self) -> bool {
        &&& self.metadata.wf()
        &&& forall|i: int| 0 <= i < self.txs@.len() ==> (#[trigger] self.txs@[i]).wf()
        &&& forall|i: int, j: int|
            0 <= i < j < self.txs@.len() ==> (#[trigger] self.txs@[i]).tx_index < (
            #[trigger] self.txs@[j]).tx_index
    }
}

/// Which strategy a detector found.
#[derive(Clone, Copy, PartialEq, Eq, Structural, Debug)]
pub enum MevKind {
    Sandwich,
    CexDex,
    Jit,
    AtomicBackrun,
}

/// A detector finding: the strategy kind, the transactions involved, and
/// the estimated profit in `profit_token`, with a USD-equivalent where the
/// reference table offers one.
#[derive(Clone, PartialEq, Eq, Debug)]
pub struct Bundle {
    pub kind: MevKind,
    pub txs: Vec<u64>,
    pub profit_token: Address,
    pub profit: Rat,
    pub profit_usd: Option<Rat>,
}


/// The mathematical shape of a `Bundle`, for contracts.
pub struct BundleModel {
    pub kind: MevKind,
    pub txs: Seq<u64>,
    pub profit_token: Address,
    pub profit: Rat,
    pub profit_usd: Option<Rat>,
}

impl View for Bundle {
    type V = BundleModel;

    open spec fn view(&self) -> BundleModel {
        BundleModel {
            kind: self.kind,
            txs: self.txs@,
            profit_token: self.profit_token,
            profit: self.profit,
            profit_usd: self.profit_usd,
        }
    }
}

/// The models of a run of bundles.
pub open spec fn bundle_models(s: Seq<Bundle>) -> Seq<BundleModel> {
    s.map_values(|b: Bundle| b@)
}

/// Appending a bundle appends its model.
pub proof fn lemma_models_push(s: Seq<Bundle>, b: Bundle)
    ensures
        bundle_models(s.push(b)) == bundle_models(s).push(b@),
{
    assert(bundle_models(s.push(b)) =~= bundle_models(s).push(b@));
}

/// Concatenation of bundle runs concatenates their models.
pub proof fn lemma_models_concat(a: Seq<Bundle>, b: Seq<Bundle>)
    ensures
        bundle_models(a + b) == bundle_models(a) + bundle_models(b),
{
    assert(bundle_models(a + b) =~= bundle_models(a) + bundle_models(b));
}


/// The USD-equivalent of `amount` units of `token`, where the reference
/// table quotes one.
pub open spec fn spec_usd_value(md: Metadata, token: Address, amount: Rat) -> Option<Rat> {
    match spec_price(md.prices@, token, md.usd_token) {
        None => None,
        Some(p) => spec_mul(amount, p),
    }
}

/// A gas outlay converted into `token` via the native-asset reference
/// price. Zero gas needs no price; otherwise a missing price makes the
/// cost undeterminable.
pub open spec fn spec_gas_cost(md: Metadata, gas: Rat, token: Address) -> Option<Rat> {
    if gas.n() == 0 {
        Some(Rat { num: 0, den: 1 })
    } else {
        match spec_price(md.prices@, Address { hi: 0, lo: 0 }, token) {
            None => None,
            Some(p) => spec_mul(gas, p),
        }
    }
}

} // verus!


