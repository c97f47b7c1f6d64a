//! Storage codec for the set of pool addresses created up to a block.
//!
//! The wire form is a length-prefixed run of 20-byte addresses, compressed
//! with zstd for the storage engine. Framing and parsing are verified;
//! only the compression calls are trusted.

use vstd::prelude::*;

use crate::types::Address;
use crate::words::{
    lemma_prefix_bytes, push_u128_be, push_u32_be, push_u64_be, read_u128_at, read_u32_at,
    read_u64_at, u128_at, u32_at, u64_at,
};

verus! {

/// Codec failure for the pool-address set.
#[derive(Clone, Copy, PartialEq, Eq, Structural, Debug)]
pub enum PoolsCodecError {
    /// The compression library rejected the payload.
    Compression,
    /// The payload is not a well-formed pool-address wire frame.
    Decode,
}

/// The set of pool addresses, as stored per creation block.
#[allow(non_camel_case_types)]
#[derive(Clone, PartialEq, Eq, Debug)]
pub struct Redefined_PoolsToAddresses(pub Vec<Address>);

/// The bytes `b` frame exactly the addresses `s`: an eight-byte big-endian
/// count, then twenty bytes per address.
pub open spec fn pools_wire_ok(b: Seq<u8>, s: Seq<Address>) -> bool {
    &&& s.len() <= 0xffff_ffff
    &&& b.len() == 8 + 20 * s.len()
    &&& u64_at(b, 0) as int == s.len() as int
    &&& forall|k: int|
        0 <= k < s.len() ==> u32_at(b, 8 + 20 * k) == (#[trigger] s[k]).hi && u128_at(
            b,
            8 + 20 * k + 4,
        ) == s[k].lo
}

/// The byte shape a frame must have for decoding to succeed.
pub open spec fn pools_shape_ok(b: Seq<u8>) -> bool {
    &&& b.len() >= 8
    &&& (b.len() - 8) % 20 == 0
    &&& u64_at(b, 0) as int == (b.len() - 8) / 20
    &&& (b.len() - 8) / 20 <= 0xffff_ffff
}

/// Two address runs framed by the same bytes are equal.
pub proof fn lemma_pools_wire_unique(b: Seq<u8>, s1: Seq<Address>, s2: Seq<Address>)
    requires
        pools_wire_ok(b, s1),
        pools_wire_ok(b, s2),
    ensures
        s1 == s2,
{
    assert(s1.len() == s2.len());
    assert forall|k: int| 0 <= k < s1.len() implies s1[k] == s2[k] by {
        assert(u32_at(b, 8 + 20 * k) == s1[k].hi && u32_at(b, 8 + 20 * k) == s2[k].hi);
        assert(u128_at(b, 8 + 20 * k + 4) == s1[k].lo && u128_at(b, 8 + 20 * k + 4) == s2[k].lo);
    }
    assert(s1 =~= s2);
}

/// A well-framed byte run has the decodable shape.
pub proof fn lemma_wire_implies_shape(b: Seq<u8>, s: Seq<Address>)
    requires
        pools_wire_ok(b, s),
    ensures
        pools_shape_ok(b),
{
    let n = s.len() as int;
    assert((20 * n) % 20 == 0 && (20 * n) / 20 == n) by (nonlinear_arith);
}

/// What zstd compression at the default level yields for given bytes; the
/// result depends on the input alone.
pub uninterp spec fn zstd_of(s: Seq<u8>) -> Seq<u8>;

/// Relies on zstd::encode_all at the default compression level: the
/// output is a deterministic function of the input bytes.
#[verifier::external_body]
fn zstd_compress(data: &Vec<u8>) -> (r: Result<Vec<u8>, PoolsCodecError>)
    ensures
        r matches Ok(c) ==> c@ == zstd_of(data@),
{
    match zstd::encode_all(data.as_slice(), 0) {
        Ok(v) => Ok(v),
        Err(_) => Err(PoolsCodecError::Compression),
    }
}

/// Relies on zstd::decode_all: decompression inverts compression, so a
/// payload produced by zstd::encode_all decodes to the original bytes.
#[verifier::external_body]
fn zstd_decompress(data: &Vec<u8>) -> (r: Result<Vec<u8>, PoolsCodecError>)
    ensures
        r matches Ok(v) ==> (forall|orig: Seq<u8>| data@ == zstd_of(orig) ==> v@ == orig),
        r is Err ==> (forall|orig: Seq<u8>| data@ != zstd_of(orig)),
{
    match zstd::decode_all(data.as_slice()) {
        Ok(v) => Ok(v),
        Err(_) => Err(PoolsCodecError::Decode),
    }
}

impl Redefined_PoolsToAddresses {
    /// Frames the address run: count, then twenty bytes per address.
    pub fn encode(&self) -> (r: Vec<u8>)
        requires
            self.0@.len() <= 0xffff_ffff,
        ensures
            pools_wire_ok(r@, self.0@),
    {
        let n: usize = self.0.len();
        let mut out: Vec<u8> = Vec::new();
        push_u64_be(&mut out, n as u64);
        let mut i: usize = 0;
        while i < n
            invariant
                i <= n,
                n == self.0@.len(),
                n <= 0xffff_ffff,
                out@.len() == 8 + 20 * i,
                u64_at(out@, 0) as int == n as int,
                forall|k: int|
                    0 <= k < i as int ==> u32_at(out@, 8 + 20 * k) == (#[trigger] self.0@[k]).hi
                        && u128_at(out@, 8 + 20 * k + 4) == self.0@[k].lo,
            decreases n - i,
        {
            let a = self.0[i];
            let ghost pre = out@;
            push_u32_be(&mut out, a.hi);
            let ghost mid = out@;
            push_u128_be(&mut out, a.lo);
            proof {
                lemma_prefix_bytes(pre, mid);
                lemma_prefix_bytes(mid, out@);
                assert forall|x: int| 0 <= x < pre.len() implies out@[x] == pre[x] by {
                    assert(mid[x] == pre[x]);
                    assert(out@[x] == mid[x]);
                }
                assert(u64_at(out@, 0) == u64_at(pre, 0));
                assert forall|k: int|
                    0 <= k < i as int implies u32_at(out@, 8 + 20 * k) == (
                #[trigger] self.0@[k]).hi && u128_at(out@, 8 + 20 * k + 4) == self.0@[k].lo by {
                    assert(u32_at(out@, 8 + 20 * k) == u32_at(pre, 8 + 20 * k));
                    assert(u128_at(out@, 8 + 20 * k + 4) == u128_at(pre, 8 + 20 * k + 4));
                }
                assert(u32_at(out@, 8 + 20 * (i as int)) == u32_at(mid, 8 + 20 * (i as int)));
                assert(u32_at(out@, 8 + 20 * (i as int)) == a.hi);
                assert(u128_at(out@, 8 + 20 * (i as int) + 4) == a.lo);
            }
            i += 1;
        }
        out
    }

    /// Parses a frame back into the address run; strict about the shape.
    pub fn decode(data: &Vec<u8>) -> (r: Result<Redefined_PoolsToAddresses, PoolsCodecError>)
        ensures
            r matches Ok(p) ==> pools_wire_ok(data@, p.0@),
            r is Ok <==> pools_shape_ok(data@),
    {
        let n: usize = data.len();
        if n < 8 {
            return Err(PoolsCodecError::Decode);
        }
        let body: usize = n - 8;
        if body % 20 != 0 {
            return Err(PoolsCodecError::Decode);
        }
        let count: usize = body / 20;
        let declared = read_u64_at(data, 0);
        if count > 0xffff_ffff || declared != count as u64 {
            return Err(PoolsCodecError::Decode);
        }
        let mut out: Vec<Address> = Vec::new();
        let mut i: usize = 0;
        let mut off: usize = 8;
        while i < count
            invariant
                i <= count,
                off == 8 + 20 * i,
                n == data@.len(),
                n == 8 + 20 * count,
                count <= 0xffff_ffff,
                out@.len() == i,
                forall|k: int|
                    0 <= k < i as int ==> u32_at(data@, 8 + 20 * k) == (#[trigger] out@[k]).hi
                        && u128_at(data@, 8 + 20 * k + 4) == out@[k].lo,
            decreases count - i,
        {
            let hi = read_u32_at(data, off);
            let lo = read_u128_at(data, off + 4);
            out.push(Address { hi, lo });
            i += 1;
            off += 20;
        }
        Ok(Redefined_PoolsToAddresses(out))
    }

    /// Frames and compresses the address run into `buf`, for the storage
    /// engine.
    pub fn compress_to_buf(&self, buf: &mut Vec<u8>) -> (r: Result<(), PoolsCodecError>)
        requires
            self.0@.len() <= 0xffff_ffff,
        ensures
            r matches Ok(u) ==> exists|b: Seq<u8>|
                pools_wire_ok(b, self.0@) && final(buf)@ == old(buf)@ + zstd_of(b),
            r is Err ==> final(buf)@ == old(buf)@,
    {
        let framed = self.encode();
        match zstd_compress(&framed) {
            Ok(mut c) => {
                let ghost b = framed@;
                buf.append(&mut c);
                proof {
                    assert(pools_wire_ok(b, self.0@) && buf@ == old(buf)@ + zstd_of(b));
                }
                Ok(())
            },
            Err(e) => Err(e),
        }
    }

    /// Decompresses and parses a stored frame. Anything this crate
    /// compressed from a well-formed address run comes back equal.
    pub fn decompress(value: &Vec<u8>) -> (r: Result<
        Redefined_PoolsToAddresses,
        PoolsCodecError,
    >)
        ensures
            forall|b: Seq<u8>, s: Seq<Address>|
                value@ == zstd_of(b) && pools_wire_ok(b, s) ==> (r matches Ok(p) && p.0@ == s),
    {
        match zstd_decompress(value) {
            Err(e) => Err(e),
            Ok(raw) => {
                match Redefined_PoolsToAddresses::decode(&raw) {
                    Err(e) => {
                        proof {
                            assert forall|b: Seq<u8>, s: Seq<Address>|
                                value@ == zstd_of(b) && pools_wire_ok(b, s) implies false by {
                                assert(raw@ == b);
                                lemma_wire_implies_shape(b, s);
                            }
                        }
                        Err(e)
                    },
                    Ok(p) => {
                        proof {
                            assert forall|b: Seq<u8>, s: Seq<Address>|
                                value@ == zstd_of(b) && pools_wire_ok(b, s) implies p.0@ == s by {
                                assert(raw@ == b);
                                lemma_pools_wire_unique(b, p.0@, s);
                            }
                        }
                        Ok(p)
                    },
                }
            },
        }
    }
}

} // verus!
