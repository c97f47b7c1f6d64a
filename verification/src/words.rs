//! The 32-byte word layer of the call-data wire format.
//!
//! Every decoded argument occupies one 32-byte big-endian word. Decoding is
//! strict: padding bytes must hold the canonical sign extension, so that a
//! decoded value re-encodes to the very bytes it came from.

use vstd::prelude::*;

verus! {

/// All of `s[off], .., s[off + k - 1]` are zero.
pub open spec fn zero_bytes(s: Seq<u8>, off: int, k: int) -> bool {
    forall|i: int| 0 <= i < k ==> #[trigger] s[off + i] == 0
}

/// All of `s[off], .., s[off + k - 1]` are `0xff` (negative sign extension).
pub open spec fn ff_bytes(s: Seq<u8>, off: int, k: int) -> bool {
    forall|i: int| 0 <= i < k ==> #[trigger] s[off + i] == 0xff
}

/// The big-endian value of eight bytes.
pub open spec fn assemble_u64(
    b0: u8, b1: u8, b2: u8, b3: u8, b4: u8, b5: u8, b6: u8, b7: u8,
) -> u64 {
    ((b0 as u64) << 56) | ((b1 as u64) << 48) | ((b2 as u64) << 40) | ((b3 as u64) << 32)
        | ((b4 as u64) << 24) | ((b5 as u64) << 16) | ((b6 as u64) << 8) | (b7 as u64)
}

/// The big-endian value of four bytes.
pub open spec fn assemble_u32(b0: u8, b1: u8, b2: u8, b3: u8) -> u32 {
    ((b0 as u32) << 24) | ((b1 as u32) << 16) | ((b2 as u32) << 8) | (b3 as u32)
}

/// The big-endian value of the eight bytes of `s` starting at `off`.
pub open spec fn u64_at(s: Seq<u8>, off: int) -> u64 {
    assemble_u64(
        s[off], s[off + 1], s[off + 2], s[off + 3], s[off + 4], s[off + 5], s[off + 6], s[off + 7],
    )
}

/// The big-endian value of the four bytes of `s` starting at `off`.
pub open spec fn u32_at(s: Seq<u8>, off: int) -> u32 {
    assemble_u32(s[off], s[off + 1], s[off + 2], s[off + 3])
}

/// The big-endian value of the sixteen bytes of `s` starting at `off`,
/// taken as two eight-byte halves.
pub open spec fn u128_at(s: Seq<u8>, off: int) -> u128 {
    ((u64_at(s, off) as u128) << 64) | (u64_at(s, off + 8) as u128)
}

/// Reassembling the byte decomposition of `v` gives `v` back.
pub proof fn lemma_u64_bytes_roundtrip(v: u64)
    ensures
        assemble_u64(
            ((v >> 56) & 0xff) as u8,
            ((v >> 48) & 0xff) as u8,
            ((v >> 40) & 0xff) as u8,
            ((v >> 32) & 0xff) as u8,
            ((v >> 24) & 0xff) as u8,
            ((v >> 16) & 0xff) as u8,
            ((v >> 8) & 0xff) as u8,
            (v & 0xff) as u8,
        ) == v,
{
    assert(((((v >> 56) & 0xff) as u8 as u64) << 56) | ((((v >> 48) & 0xff) as u8 as u64) << 48)
        | ((((v >> 40) & 0xff) as u8 as u64) << 40) | ((((v >> 32) & 0xff) as u8 as u64) << 32)
        | ((((v >> 24) & 0xff) as u8 as u64) << 24) | ((((v >> 16) & 0xff) as u8 as u64) << 16)
        | ((((v >> 8) & 0xff) as u8 as u64) << 8) | ((v & 0xff) as u8 as u64) == v)
        by (bit_vector);
}

/// Reassembling the byte decomposition of a `u32` gives it back.
pub proof fn lemma_u32_bytes_roundtrip(v: u32)
    ensures
        assemble_u32(
            ((v >> 24) & 0xff) as u8,
            ((v >> 16) & 0xff) as u8,
            ((v >> 8) & 0xff) as u8,
            (v & 0xff) as u8,
        ) == v,
{
    assert(((((v >> 24) & 0xff) as u8 as u32) << 24) | ((((v >> 16) & 0xff) as u8 as u32) << 16)
        | ((((v >> 8) & 0xff) as u8 as u32) << 8) | ((v & 0xff) as u8 as u32) == v)
        by (bit_vector);
}

/// The leading value byte decides whether an eight-byte value stays within
/// the signed 63-bit range.
pub proof fn lemma_u64_top_byte_bound(
    b0: u8, b1: u8, b2: u8, b3: u8, b4: u8, b5: u8, b6: u8, b7: u8,
)
    ensures
        b0 < 0x80 <==> assemble_u64(b0, b1, b2, b3, b4, b5, b6, b7) <= 0x7fff_ffff_ffff_ffff,
{
    let v = assemble_u64(b0, b1, b2, b3, b4, b5, b6, b7);
    assert(b0 < 0x80 <==> (((b0 as u64) << 56) | ((b1 as u64) << 48) | ((b2 as u64) << 40)
        | ((b3 as u64) << 32) | ((b4 as u64) << 24) | ((b5 as u64) << 16) | ((b6 as u64) << 8)
        | (b7 as u64)) <= 0x7fff_ffff_ffff_ffff) by (bit_vector);
}

/// Masking to one byte always fits `u8`.
pub proof fn lemma_u64_byte_mask(x: u64)
    ensures
        x & 0xff <= 0xff,
{
    assert(x & 0xff <= 0xff) by (bit_vector);
}

/// Masking to one byte always fits `u8`.
pub proof fn lemma_u32_byte_mask(x: u32)
    ensures
        x & 0xff <= 0xff,
{
    assert(x & 0xff <= 0xff) by (bit_vector);
}

/// Reads the big-endian `u64` held in `data[off .. off + 8]`.
pub fn read_u64_at(data: &Vec<u8>, off: usize) -> (r: u64)
    requires
        off + 8 <= data@.len(),
    ensures
        r == u64_at(data@, off as int),
{
    let n: usize = data.len();
    let b0 = data[off];
    let b1 = data[off + 1];
    let b2 = data[off + 2];
    let b3 = data[off + 3];
    let b4 = data[off + 4];
    let b5 = data[off + 5];
    let b6 = data[off + 6];
    let b7 = data[off + 7];
    ((b0 as u64) << 56) | ((b1 as u64) << 48) | ((b2 as u64) << 40) | ((b3 as u64) << 32)
        | ((b4 as u64) << 24) | ((b5 as u64) << 16) | ((b6 as u64) << 8) | (b7 as u64)
}

/// Reads the big-endian `u32` held in `data[off .. off + 4]`.
pub fn read_u32_at(data: &Vec<u8>, off: usize) -> (r: u32)
    requires
        off + 4 <= data@.len(),
    ensures
        r == u32_at(data@, off as int),
{
    let n: usize = data.len();
    let b0 = data[off];
    let b1 = data[off + 1];
    let b2 = data[off + 2];
    let b3 = data[off + 3];
    ((b0 as u32) << 24) | ((b1 as u32) << 16) | ((b2 as u32) << 8) | (b3 as u32)
}

/// Reads the big-endian `u128` held in `data[off .. off + 16]`.
pub fn read_u128_at(data: &Vec<u8>, off: usize) -> (r: u128)
    requires
        off + 16 <= data@.len(),
    ensures
        r == u128_at(data@, off as int),
{
    let n: usize = data.len();
    let hi = read_u64_at(data, off);
    let lo = read_u64_at(data, off + 8);
    ((hi as u128) << 64) | (lo as u128)
}

/// Checks that `data[off .. off + k]` is all zero.
pub fn check_zero_bytes(data: &Vec<u8>, off: usize, k: usize) -> (r: bool)
    requires
        off + k <= data@.len(),
    ensures
        r == zero_bytes(data@, off as int, k as int),
{
    let n: usize = data.len();
    let mut i: usize = 0;
    while i < k
        invariant
            i <= k,
            off + k <= data@.len(),
            data@.len() <= usize::MAX,
            forall|j: int| 0 <= j < i ==> #[trigger] data@[off + j] == 0,
        decreases k - i,
    {
        if data[off + i] != 0 {
            return false;
        }
        i += 1;
    }
    true
}

/// Checks that `data[off .. off + k]` is all `0xff`.
pub fn check_ff_bytes(data: &Vec<u8>, off: usize, k: usize) -> (r: bool)
    requires
        off + k <= data@.len(),
    ensures
        r == ff_bytes(data@, off as int, k as int),
{
    let n: usize = data.len();
    let mut i: usize = 0;
    while i < k
        invariant
            i <= k,
            off + k <= data@.len(),
            data@.len() <= usize::MAX,
            forall|j: int| 0 <= j < i ==> #[trigger] data@[off + j] == 0xff,
        decreases k - i,
    {
        if data[off + i] != 0xff {
            return false;
        }
        i += 1;
    }
    true
}

/// Appends `k` zero bytes.
pub fn push_zero_bytes(out: &mut Vec<u8>, k: usize)
    ensures
        final(out)@.len() == old(out)@.len() + k,
        final(out)@.subrange(0, old(out)@.len() as int) == old(out)@,
        zero_bytes(final(out)@, old(out)@.len() as int, k as int),
{
    let mut i: usize = 0;
    while i < k
        invariant
            i <= k,
            out@.len() == old(out)@.len() + i,
            out@.subrange(0, old(out)@.len() as int) == old(out)@,
            zero_bytes(out@, old(out)@.len() as int, i as int),
        decreases k - i,
    {
        out.push(0);
        proof {
            assert(out@.subrange(0, old(out)@.len() as int) =~= old(out)@);
        }
        i += 1;
    }
}

/// Appends `k` sign-extension bytes (`0xff`).
pub fn push_ff_bytes(out: &mut Vec<u8>, k: usize)
    ensures
        final(out)@.len() == old(out)@.len() + k,
        final(out)@.subrange(0, old(out)@.len() as int) == old(out)@,
        ff_bytes(final(out)@, old(out)@.len() as int, k as int),
{
    let mut i: usize = 0;
    while i < k
        invariant
            i <= k,
            out@.len() == old(out)@.len() + i,
            out@.subrange(0, old(out)@.len() as int) == old(out)@,
            ff_bytes(out@, old(out)@.len() as int, i as int),
        decreases k - i,
    {
        out.push(0xff);
        proof {
            assert(out@.subrange(0, old(out)@.len() as int) =~= old(out)@);
        }
        i += 1;
    }
}

/// Appends the eight big-endian bytes of `v`.
pub fn push_u64_be(out: &mut Vec<u8>, v: u64)
    ensures
        final(out)@.len() == old(out)@.len() + 8,
        final(out)@.subrange(0, old(out)@.len() as int) == old(out)@,
        u64_at(final(out)@, old(out)@.len() as int) == v,
{
    proof {
        lemma_u64_byte_mask(v >> 56);
        lemma_u64_byte_mask(v >> 48);
        lemma_u64_byte_mask(v >> 40);
        lemma_u64_byte_mask(v >> 32);
        lemma_u64_byte_mask(v >> 24);
        lemma_u64_byte_mask(v >> 16);
        lemma_u64_byte_mask(v >> 8);
        lemma_u64_byte_mask(v);
        lemma_u64_bytes_roundtrip(v);
    }
    out.push(((v >> 56) & 0xff) as u8);
    out.push(((v >> 48) & 0xff) as u8);
    out.push(((v >> 40) & 0xff) as u8);
    out.push(((v >> 32) & 0xff) as u8);
    out.push(((v >> 24) & 0xff) as u8);
    out.push(((v >> 16) & 0xff) as u8);
    out.push(((v >> 8) & 0xff) as u8);
    out.push((v & 0xff) as u8);
    proof {
        assert(out@.subrange(0, old(out)@.len() as int) =~= old(out)@);
    }
}

/// Appends the four big-endian bytes of `v`.
pub fn push_u32_be(out: &mut Vec<u8>, v: u32)
    ensures
        final(out)@.len() == old(out)@.len() + 4,
        final(out)@.subrange(0, old(out)@.len() as int) == old(out)@,
        u32_at(final(out)@, old(out)@.len() as int) == v,
{
    proof {
        lemma_u32_byte_mask(v >> 24);
        lemma_u32_byte_mask(v >> 16);
        lemma_u32_byte_mask(v >> 8);
        lemma_u32_byte_mask(v);
        lemma_u32_bytes_roundtrip(v);
    }
    out.push(((v >> 24) & 0xff) as u8);
    out.push(((v >> 16) & 0xff) as u8);
    out.push(((v >> 8) & 0xff) as u8);
    out.push((v & 0xff) as u8);
    proof {
        assert(out@.subrange(0, old(out)@.len() as int) =~= old(out)@);
    }
}

/// Appends the sixteen big-endian bytes of `v`.
pub fn push_u128_be(out: &mut Vec<u8>, v: u128)
    ensures
        final(out)@.len() == old(out)@.len() + 16,
        final(out)@.subrange(0, old(out)@.len() as int) == old(out)@,
        u128_at(final(out)@, old(out)@.len() as int) == v,
{
    proof {
        assert((v >> 64) <= 0xffff_ffff_ffff_ffff) by (bit_vector);
        assert(((v >> 64) as u64 as u128) << 64 | ((v as u64) as u128) == v) by (bit_vector);
    }
    let hi: u64 = (v >> 64) as u64;
    let lo: u64 = #[verifier::truncate] (v as u64);
    push_u64_be(out, hi);
    push_u64_be(out, lo);
    proof {
        assert(out@.subrange(0, old(out)@.len() as int) =~= old(out)@);
        assert(u64_at(out@, old(out)@.len() as int) == hi);
    }
}


/// The leading value byte decides whether a four-byte value stays within
/// the signed 31-bit range.
pub proof fn lemma_u32_top_byte_bound(b0: u8, b1: u8, b2: u8, b3: u8)
    ensures
        b0 < 0x80 <==> assemble_u32(b0, b1, b2, b3) <= 0x7fff_ffff,
{
    assert(b0 < 0x80 <==> (((b0 as u32) << 24) | ((b1 as u32) << 16) | ((b2 as u32) << 8)
        | (b3 as u32)) <= 0x7fff_ffff) by (bit_vector);
}

/// Bytes of a sequence survive unchanged when more bytes are appended.
pub proof fn lemma_prefix_bytes(s1: Seq<u8>, s2: Seq<u8>)
    requires
        s1.len() <= s2.len(),
        s2.subrange(0, s1.len() as int) == s1,
    ensures
        forall|i: int| 0 <= i < s1.len() ==> s2[i] == #[trigger] s1[i],
{
    assert forall|i: int| 0 <= i < s1.len() implies s2[i] == #[trigger] s1[i] by {
        assert(s2.subrange(0, s1.len() as int)[i] == s2[i]);
    }
}

/// A word holding an unsigned token amount within the exact-arithmetic range.
pub open spec fn amount_word_ok(s: Seq<u8>, off: int) -> bool {
    zero_bytes(s, off, 24) && s[off + 24] < 0x80
}

/// The amount held by such a word.
pub open spec fn amount_word_val(s: Seq<u8>, off: int) -> u64 {
    u64_at(s, off + 24)
}

/// A word holding an address: twelve zero padding bytes, then twenty bytes.
pub open spec fn address_word_ok(s: Seq<u8>, off: int) -> bool {
    zero_bytes(s, off, 12)
}

/// The address held by such a word.
pub open spec fn address_word_val(s: Seq<u8>, off: int) -> crate::types::Address {
    crate::types::Address { hi: u32_at(s, off + 12), lo: u128_at(s, off + 16) }
}

/// A word holding a boolean flag.
pub open spec fn bool_word_ok(s: Seq<u8>, off: int) -> bool {
    zero_bytes(s, off, 31) && (s[off + 31] == 0 || s[off + 31] == 1)
}

/// The flag held by such a word.
pub open spec fn bool_word_val(s: Seq<u8>, off: int) -> bool {
    s[off + 31] == 1
}

/// A word holding a signed 64-bit quantity in canonical two's complement.
pub open spec fn i64_word_ok(s: Seq<u8>, off: int) -> bool {
    ||| zero_bytes(s, off, 24) && s[off + 24] < 0x80
    ||| ff_bytes(s, off, 24) && s[off + 24] >= 0x80
}

/// The mathematical value held by such a word.
pub open spec fn i64_word_val(s: Seq<u8>, off: int) -> int {
    if s[off + 24] < 0x80 {
        u64_at(s, off + 24) as int
    } else {
        u64_at(s, off + 24) - 0x1_0000_0000_0000_0000
    }
}

/// A word holding a signed tick index in canonical two's complement.
pub open spec fn tick_word_ok(s: Seq<u8>, off: int) -> bool {
    ||| zero_bytes(s, off, 28) && s[off + 28] < 0x80
    ||| ff_bytes(s, off, 28) && s[off + 28] >= 0x80
}

/// The mathematical value held by such a word.
pub open spec fn tick_word_val(s: Seq<u8>, off: int) -> int {
    if s[off + 28] < 0x80 {
        u32_at(s, off + 28) as int
    } else {
        u32_at(s, off + 28) - 0x1_0000_0000
    }
}

/// Reads an unsigned amount word; strict about padding and range.
pub fn read_amount_word(data: &Vec<u8>, off: usize) -> (r: Option<u64>)
    requires
        off + 32 <= data@.len(),
    ensures
        match r {
            Some(v) => amount_word_ok(data@, off as int) && v == amount_word_val(
                data@,
                off as int,
            ) && v <= i64::MAX,
            None => !amount_word_ok(data@, off as int),
        },
{
    let n: usize = data.len();
    if !check_zero_bytes(data, off, 24) {
        return None;
    }
    if data[off + 24] >= 0x80 {
        return None;
    }
    let v = read_u64_at(data, off + 24);
    proof {
        lemma_u64_top_byte_bound(
            data@[off + 24],
            data@[off + 25],
            data@[off + 26],
            data@[off + 27],
            data@[off + 28],
            data@[off + 29],
            data@[off + 30],
            data@[off + 31],
        );
    }
    Some(v)
}

/// Reads an address word; strict about padding.
pub fn read_address_word(data: &Vec<u8>, off: usize) -> (r: Option<crate::types::Address>)
    requires
        off + 32 <= data@.len(),
    ensures
        match r {
            Some(a) => address_word_ok(data@, off as int) && a == address_word_val(
                data@,
                off as int,
            ),
            None => !address_word_ok(data@, off as int),
        },
{
    let n: usize = data.len();
    if !check_zero_bytes(data, off, 12) {
        return None;
    }
    let hi = read_u32_at(data, off + 12);
    let lo = read_u128_at(data, off + 16);
    Some(crate::types::Address { hi, lo })
}

/// Reads a boolean word; strict about padding and the flag byte.
pub fn read_bool_word(data: &Vec<u8>, off: usize) -> (r: Option<bool>)
    requires
        off + 32 <= data@.len(),
    ensures
        match r {
            Some(b) => bool_word_ok(data@, off as int) && b == bool_word_val(data@, off as int),
            None => !bool_word_ok(data@, off as int),
        },
{
    let n: usize = data.len();
    if !check_zero_bytes(data, off, 31) {
        return None;
    }
    let b = data[off + 31];
    if b == 0 {
        Some(false)
    } else if b == 1 {
        Some(true)
    } else {
        None
    }
}

/// Reads a signed word; strict about canonical sign extension.
pub fn read_i64_word(data: &Vec<u8>, off: usize) -> (r: Option<i64>)
    requires
        off + 32 <= data@.len(),
    ensures
        match r {
            Some(v) => i64_word_ok(data@, off as int) && v as int == i64_word_val(
                data@,
                off as int,
            ),
            None => !i64_word_ok(data@, off as int),
        },
{
    let n: usize = data.len();
    proof {
        lemma_u64_top_byte_bound(
            data@[off + 24],
            data@[off + 25],
            data@[off + 26],
            data@[off + 27],
            data@[off + 28],
            data@[off + 29],
            data@[off + 30],
            data@[off + 31],
        );
    }
    if data[off + 24] < 0x80 {
        if !check_zero_bytes(data, off, 24) {
            return None;
        }
        let v = read_u64_at(data, off + 24);
        Some(v as i64)
    } else {
        if !check_ff_bytes(data, off, 24) {
            return None;
        }
        let v = read_u64_at(data, off + 24);
        let w: i64 = ((v as i128) - 0x1_0000_0000_0000_0000i128) as i64;
        Some(w)
    }
}

/// Reads a tick word; strict about canonical sign extension.
pub fn read_tick_word(data: &Vec<u8>, off: usize) -> (r: Option<i32>)
    requires
        off + 32 <= data@.len(),
    ensures
        match r {
            Some(v) => tick_word_ok(data@, off as int) && v as int == tick_word_val(
                data@,
                off as int,
            ),
            None => !tick_word_ok(data@, off as int),
        },
{
    let n: usize = data.len();
    proof {
        lemma_u32_top_byte_bound(
            data@[off + 28],
            data@[off + 29],
            data@[off + 30],
            data@[off + 31],
        );
    }
    if data[off + 28] < 0x80 {
        if !check_zero_bytes(data, off, 28) {
            return None;
        }
        let v = read_u32_at(data, off + 28);
        Some(v as i32)
    } else {
        if !check_ff_bytes(data, off, 28) {
            return None;
        }
        let v = read_u32_at(data, off + 28);
        let w: i32 = ((v as i64) - 0x1_0000_0000i64) as i32;
        Some(w)
    }
}

/// Appends an amount word.
pub fn push_amount_word(out: &mut Vec<u8>, v: u64)
    requires
        v <= i64::MAX,
    ensures
        final(out)@.len() == old(out)@.len() + 32,
        final(out)@.subrange(0, old(out)@.len() as int) == old(out)@,
        amount_word_ok(final(out)@, old(out)@.len() as int),
        amount_word_val(final(out)@, old(out)@.len() as int) == v,
{
    let ghost base = out@.len() as int;
    push_zero_bytes(out, 24);
    let ghost mid = out@;
    push_u64_be(out, v);
    proof {
        lemma_prefix_bytes(mid, out@);
        assert(out@.subrange(0, base) =~= old(out)@);
        assert forall|i: int| 0 <= i < 24 implies #[trigger] out@[base + i] == 0 by {
            assert(mid[base + i] == 0);
            assert(out@[base + i] == mid[base + i]);
        }
        assert(zero_bytes(out@, base, 24));
        lemma_u64_top_byte_bound(
            out@[base + 24],
            out@[base + 25],
            out@[base + 26],
            out@[base + 27],
            out@[base + 28],
            out@[base + 29],
            out@[base + 30],
            out@[base + 31],
        );
    }
}

/// Appends an address word.
pub fn push_address_word(out: &mut Vec<u8>, a: &crate::types::Address)
    ensures
        final(out)@.len() == old(out)@.len() + 32,
        final(out)@.subrange(0, old(out)@.len() as int) == old(out)@,
        address_word_ok(final(out)@, old(out)@.len() as int),
        address_word_val(final(out)@, old(out)@.len() as int) == *a,
{
    let ghost base = out@.len() as int;
    push_zero_bytes(out, 12);
    let ghost s1 = out@;
    push_u32_be(out, a.hi);
    let ghost s2 = out@;
    push_u128_be(out, a.lo);
    proof {
        lemma_prefix_bytes(s2, out@);
        lemma_prefix_bytes(s1, s2);
        assert(out@.subrange(0, base) =~= old(out)@);
        assert forall|i: int| 0 <= i < 12 implies #[trigger] out@[base + i] == 0 by {
            assert(s1[base + i] == 0);
            assert(s2[base + i] == s1[base + i]);
            assert(out@[base + i] == s2[base + i]);
        }
        assert(zero_bytes(out@, base, 12));
        assert(u32_at(out@, base + 12) == a.hi);
        assert(u128_at(out@, base + 16) == a.lo);
    }
}

/// Appends a boolean word.
pub fn push_bool_word(out: &mut Vec<u8>, b: bool)
    ensures
        final(out)@.len() == old(out)@.len() + 32,
        final(out)@.subrange(0, old(out)@.len() as int) == old(out)@,
        bool_word_ok(final(out)@, old(out)@.len() as int),
        bool_word_val(final(out)@, old(out)@.len() as int) == b,
{
    let ghost base = out@.len() as int;
    push_zero_bytes(out, 31);
    out.push(if b { 1u8 } else { 0u8 });
    proof {
        assert(out@.subrange(0, base) =~= old(out)@);
        assert forall|i: int| 0 <= i < 31 implies #[trigger] out@[base + i] == 0 by {
        }
    }
}

/// Appends a signed word in canonical two's complement.
pub fn push_i64_word(out: &mut Vec<u8>, v: i64)
    ensures
        final(out)@.len() == old(out)@.len() + 32,
        final(out)@.subrange(0, old(out)@.len() as int) == old(out)@,
        i64_word_ok(final(out)@, old(out)@.len() as int),
        i64_word_val(final(out)@, old(out)@.len() as int) == v as int,
{
    let ghost base = out@.len() as int;
    if v >= 0 {
        push_zero_bytes(out, 24);
        let ghost mid = out@;
        push_u64_be(out, v as u64);
        proof {
            lemma_prefix_bytes(mid, out@);
            assert(out@.subrange(0, base) =~= old(out)@);
            assert forall|i: int| 0 <= i < 24 implies #[trigger] out@[base + i] == 0 by {
                assert(mid[base + i] == 0);
                assert(out@[base + i] == mid[base + i]);
            }
            assert(zero_bytes(out@, base, 24));
            lemma_u64_top_byte_bound(
                out@[base + 24],
                out@[base + 25],
                out@[base + 26],
                out@[base + 27],
                out@[base + 28],
                out@[base + 29],
                out@[base + 30],
                out@[base + 31],
            );
        }
    } else {
        let w: u64 = ((v as i128) + 0x1_0000_0000_0000_0000i128) as u64;
        push_ff_bytes(out, 24);
        let ghost mid = out@;
        push_u64_be(out, w);
        proof {
            lemma_prefix_bytes(mid, out@);
            assert(out@.subrange(0, base) =~= old(out)@);
            assert forall|i: int| 0 <= i < 24 implies #[trigger] out@[base + i] == 0xff by {
                assert(mid[base + i] == 0xff);
                assert(out@[base + i] == mid[base + i]);
            }
            assert(ff_bytes(out@, base, 24));
            lemma_u64_top_byte_bound(
                out@[base + 24],
                out@[base + 25],
                out@[base + 26],
                out@[base + 27],
                out@[base + 28],
                out@[base + 29],
                out@[base + 30],
                out@[base + 31],
            );
        }
    }
}

/// Appends a tick word in canonical two's complement.
pub fn push_tick_word(out: &mut Vec<u8>, v: i32)
    ensures
        final(out)@.len() == old(out)@.len() + 32,
        final(out)@.subrange(0, old(out)@.len() as int) == old(out)@,
        tick_word_ok(final(out)@, old(out)@.len() as int),
        tick_word_val(final(out)@, old(out)@.len() as int) == v as int,
{
    let ghost base = out@.len() as int;
    if v >= 0 {
        push_zero_bytes(out, 28);
        let ghost mid = out@;
        push_u32_be(out, v as u32);
        proof {
            lemma_prefix_bytes(mid, out@);
            assert(out@.subrange(0, base) =~= old(out)@);
            assert forall|i: int| 0 <= i < 28 implies #[trigger] out@[base + i] == 0 by {
                assert(mid[base + i] == 0);
                assert(out@[base + i] == mid[base + i]);
            }
            assert(zero_bytes(out@, base, 28));
            lemma_u32_top_byte_bound(
                out@[base + 28],
                out@[base + 29],
                out@[base + 30],
                out@[base + 31],
            );
        }
    } else {
        let w: u32 = ((v as i64) + 0x1_0000_0000i64) as u32;
        push_ff_bytes(out, 28);
        let ghost mid = out@;
        push_u32_be(out, w);
        proof {
            lemma_prefix_bytes(mid, out@);
            assert(out@.subrange(0, base) =~= old(out)@);
            assert forall|i: int| 0 <= i < 28 implies #[trigger] out@[base + i] == 0xff by {
                assert(mid[base + i] == 0xff);
                assert(out@[base + i] == mid[base + i]);
            }
            assert(ff_bytes(out@, base, 28));
            lemma_u32_top_byte_bound(
                out@[base + 28],
                out@[base + 29],
                out@[base + 30],
                out@[base + 31],
            );
        }
    }
}


/// An amount word survives unchanged when more bytes are appended.
pub proof fn lemma_amount_word_preserved(s1: Seq<u8>, s2: Seq<u8>, off: int)
    requires
        s1.len() <= s2.len(),
        s2.subrange(0, s1.len() as int) == s1,
        0 <= off,
        off + 32 <= s1.len(),
        amount_word_ok(s1, off),
    ensures
        amount_word_ok(s2, off),
        amount_word_val(s2, off) == amount_word_val(s1, off),
{
    lemma_prefix_bytes(s1, s2);
    assert forall|i: int| 0 <= i < 24 implies #[trigger] s2[off + i] == 0 by {
        assert(s1[off + i] == 0);
        assert(s2[off + i] == s1[off + i]);
    }
    assert(s2[off + 24] == s1[off + 24]);
    assert(u64_at(s2, off + 24) == u64_at(s1, off + 24));
}

/// An address word survives unchanged when more bytes are appended.
pub proof fn lemma_address_word_preserved(s1: Seq<u8>, s2: Seq<u8>, off: int)
    requires
        s1.len() <= s2.len(),
        s2.subrange(0, s1.len() as int) == s1,
        0 <= off,
        off + 32 <= s1.len(),
        address_word_ok(s1, off),
    ensures
        address_word_ok(s2, off),
        address_word_val(s2, off) == address_word_val(s1, off),
{
    lemma_prefix_bytes(s1, s2);
    assert forall|i: int| 0 <= i < 12 implies #[trigger] s2[off + i] == 0 by {
        assert(s1[off + i] == 0);
        assert(s2[off + i] == s1[off + i]);
    }
    assert(u32_at(s2, off + 12) == u32_at(s1, off + 12));
    assert(u64_at(s2, off + 16) == u64_at(s1, off + 16));
    assert(u64_at(s2, off + 24) == u64_at(s1, off + 24));
}

/// A boolean word survives unchanged when more bytes are appended.
pub proof fn lemma_bool_word_preserved(s1: Seq<u8>, s2: Seq<u8>, off: int)
    requires
        s1.len() <= s2.len(),
        s2.subrange(0, s1.len() as int) == s1,
        0 <= off,
        off + 32 <= s1.len(),
        bool_word_ok(s1, off),
    ensures
        bool_word_ok(s2, off),
        bool_word_val(s2, off) == bool_word_val(s1, off),
{
    lemma_prefix_bytes(s1, s2);
    assert forall|i: int| 0 <= i < 31 implies #[trigger] s2[off + i] == 0 by {
        assert(s1[off + i] == 0);
        assert(s2[off + i] == s1[off + i]);
    }
    assert(s2[off + 31] == s1[off + 31]);
}

/// A signed word survives unchanged when more bytes are appended.
pub proof fn lemma_i64_word_preserved(s1: Seq<u8>, s2: Seq<u8>, off: int)
    requires
        s1.len() <= s2.len(),
        s2.subrange(0, s1.len() as int) == s1,
        0 <= off,
        off + 32 <= s1.len(),
        i64_word_ok(s1, off),
    ensures
        i64_word_ok(s2, off),
        i64_word_val(s2, off) == i64_word_val(s1, off),
{
    lemma_prefix_bytes(s1, s2);
    if zero_bytes(s1, off, 24) && s1[off + 24] < 0x80 {
        assert forall|i: int| 0 <= i < 24 implies #[trigger] s2[off + i] == 0 by {
            assert(s1[off + i] == 0);
            assert(s2[off + i] == s1[off + i]);
        }
    } else {
        assert forall|i: int| 0 <= i < 24 implies #[trigger] s2[off + i] == 0xff by {
            assert(s1[off + i] == 0xff);
            assert(s2[off + i] == s1[off + i]);
        }
    }
    assert(s2[off + 24] == s1[off + 24]);
    assert(u64_at(s2, off + 24) == u64_at(s1, off + 24));
}

/// A tick word survives unchanged when more bytes are appended.
pub proof fn lemma_tick_word_preserved(s1: Seq<u8>, s2: Seq<u8>, off: int)
    requires
        s1.len() <= s2.len(),
        s2.subrange(0, s1.len() as int) == s1,
        0 <= off,
        off + 32 <= s1.len(),
        tick_word_ok(s1, off),
    ensures
        tick_word_ok(s2, off),
        tick_word_val(s2, off) == tick_word_val(s1, off),
{
    lemma_prefix_bytes(s1, s2);
    if zero_bytes(s1, off, 28) && s1[off + 28] < 0x80 {
        assert forall|i: int| 0 <= i < 28 implies #[trigger] s2[off + i] == 0 by {
            assert(s1[off + i] == 0);
            assert(s2[off + i] == s1[off + i]);
        }
    } else {
        assert forall|i: int| 0 <= i < 28 implies #[trigger] s2[off + i] == 0xff by {
            assert(s1[off + i] == 0xff);
            assert(s2[off + i] == s1[off + i]);
        }
    }
    assert(s2[off + 28] == s1[off + 28]);
    assert(u32_at(s2, off + 28) == u32_at(s1, off + 28));
}

} // verus!


