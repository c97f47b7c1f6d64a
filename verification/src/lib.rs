//! Evidence pipeline for Maximal Extractable Value (MEV) strategies.
//!
//! The crate turns per-transaction execution call trees into normalized
//! economic actions and runs independent pattern detectors over them:
//! sandwich attacks, CEX-DEX arbitrage, JIT liquidity, atomic backruns.
//!
//! The pipeline is decode, classify, inspect: a static registry of
//! protocol bindings decodes opaque call data, the classifier walks each
//! transaction's call tree into an ordered sequence of normalized actions
//! with exact rational amounts, and the inspector framework dispatches
//! every detector over a block's action set and aggregates their
//! findings. Results of concurrently processed blocks are re-sequenced by
//! ascending block number before they leave the pipeline.

pub mod actions;
pub mod backrun;
pub mod bindings;
pub mod cex_dex;
pub mod classifier;
pub mod inspect;
pub mod jit;
pub mod pools;
pub mod rational;
pub mod registry;
pub mod sandwich;
pub mod trace;
pub mod types;
pub mod words;

pub use actions::{
    BlockActionSet, Bundle, Metadata, MevKind, NormalizedAction, NormalizedBurn,
    NormalizedCollect, NormalizedFlashLoan, NormalizedLiquidation, NormalizedMint,
    NormalizedSwap, NormalizedTransfer, PriceEntry, TransactionActions,
};
pub use backrun::detect_backrun;
pub use bindings::{
    encode_v2, encode_v3, try_decode_v2, try_decode_v3, DecodeError, StaticBindings,
    StaticReturnBindings, SushiSwapV2_Enum, UniswapV2Calls, UniswapV2_Enum, UniswapV3Calls,
    UniswapV3_Enum,
};
pub use cex_dex::detect_cex_dex;
pub use classifier::{
    classify_block, classify_frame, classify_transaction, decode_transfer, ClassifyError,
};
pub use inspect::{
    check_action_set, inspect_block, sequence_results, BlockResult, InspectError,
    InspectorConfig,
};
pub use jit::detect_jit;
pub use pools::{PoolsCodecError, Redefined_PoolsToAddresses};
pub use rational::Rat;
pub use registry::{DecodedCall, ProtocolRegistry, RegistryEntry};
pub use sandwich::detect_sandwich;
pub use trace::{check_trace, CallFrame, TxTrace};
pub use types::{Address, Protocol};
