//! The process-wide protocol binding registry.
//!
//! Immutable after start-up, it is the single source of truth for which
//! addresses are known protocol contracts, and it drives frame decoding:
//! an address miss, an unknown selector or a malformed payload all yield an
//! explicit unrecognized outcome for that one frame, never a block failure.

use vstd::prelude::*;

use crate::bindings::{spec_try_decode, StaticBindings, StaticReturnBindings};
use crate::types::Address;

verus! {

/// One registry row: a contract address bound to a decode table.
#[derive(Clone, Copy, PartialEq, Eq, Structural, Debug)]
pub struct RegistryEntry {
    pub address: Address,
    pub binding: StaticBindings,
}

/// The outcome of decoding one call frame: either a typed protocol call or
/// an explicit unrecognized classification.
#[derive(Clone, Copy, PartialEq, Eq, Structural, Debug)]
pub enum DecodedCall {
    Known(StaticReturnBindings),
    Unrecognized,
}

/// First-match lookup over the registry rows, starting at row `i`.
pub open spec fn spec_lookup_from(s: Seq<RegistryEntry>, a: Address, i: int) -> Option<
    StaticBindings,
>
    decreases s.len() - i,
{
    if i < 0 || i >= s.len() {
        None
    } else if s[i].address == a {
        Some(s[i].binding)
    } else {
        spec_lookup_from(s, a, i + 1)
    }
}

/// First-match lookup over the registry rows.
pub open spec fn spec_lookup(s: Seq<RegistryEntry>, a: Address) -> Option<StaticBindings> {
    spec_lookup_from(s, a, 0)
}

/// What decoding a frame with address `a` and input bytes `input` yields
/// under registry rows `s`.
pub open spec fn spec_decode_frame(s: Seq<RegistryEntry>, a: Address, input: Seq<u8>) -> DecodedCall {
    match spec_lookup(s, a) {
        None => DecodedCall::Unrecognized,
        Some(b) => match spec_try_decode(b, input) {
            Ok(c) => DecodedCall::Known(c),
            Err(_) => DecodedCall::Unrecognized,
        },
    }
}

/// The protocol binding registry.
pub struct ProtocolRegistry {
    pub entries: Vec<RegistryEntry>,
}

impl ProtocolRegistry {
    /// An empty registry.
    pub fn new() -> (r: ProtocolRegistry)
        ensures
            r.entries@.len() == 0,
    {
        ProtocolRegistry { entries: Vec::new() }
    }

    /// Adds one row. Later rows never shadow earlier ones: lookup is
    /// first-match.
    pub fn register(&mut self, address: Address, binding: StaticBindings)
        ensures
            final(self).entries@ == old(self).entries@.push(RegistryEntry { address, binding }),
    {
        self.entries.push(RegistryEntry { address, binding });
    }

    /// First-match lookup of the binding for `a`.
    pub fn lookup(&self, a: &Address) -> (r: Option<StaticBindings>)
        ensures
            r == spec_lookup(self.entries@, *a),
    {
        let n: usize = self.entries.len();
        let mut i: usize = 0;
        while i < n
            invariant
                i <= n,
                n == self.entries@.len(),
                spec_lookup(self.entries@, *a) == spec_lookup_from(self.entries@, *a, i as int),
            decreases n - i,
        {
            let e = self.entries[i];
            if e.address.same(a) {
                return Some(e.binding);
            }
            i += 1;
        }
        None
    }

    /// Registry membership: the address pre-filter consumed by the trace
    /// source to decide which addresses are worth tracing.
    pub fn is_protocol_address(&self, a: &Address) -> (r: bool)
        ensures
            r == (spec_lookup(self.entries@, *a) is Some),
    {
        match self.lookup(a) {
            Some(_) => true,
            None => false,
        }
    }

    /// Decodes one frame's input against the binding for its address.
    /// Address miss, unknown selector and malformed payload all yield
    /// `Unrecognized` for this frame only.
    pub fn decode_call(&self, a: &Address, input: &Vec<u8>) -> (r: DecodedCall)
        ensures
            r == spec_decode_frame(self.entries@, *a, input@),
            r matches DecodedCall::Known(c) ==> c.wf(),
    {
        match self.lookup(a) {
            None => DecodedCall::Unrecognized,
            Some(b) => match b.try_decode(input) {
                Ok(c) => DecodedCall::Known(c),
                Err(_) => DecodedCall::Unrecognized,
            },
        }
    }
}

} // verus!
