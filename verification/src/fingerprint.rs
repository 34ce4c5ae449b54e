//! The 64-bit non-cryptographic fingerprint hash used for change
//! detection and cache busting.
//!
//! The algorithm is the Fx hash: each word folds into a running hash
//! by rotate left five, exclusive-or, multiply by a fixed odd
//! constant. One fold (`fx_fold`) consumes one byte string the way one
//! `write` of the hasher does — eight bytes at a word while they last,
//! then four, then one at a time — and a caller may chain folds to
//! hash several byte strings in sequence. Words are read little-endian
//! on every machine, so the fingerprint is machine-independent.

use vstd::bytes::spec_u32_from_le_bytes;
use vstd::bytes::spec_u64_from_le_bytes;
use vstd::bytes::u32_from_le_bytes;
use vstd::bytes::u64_from_le_bytes;
use vstd::prelude::*;

verus! {

/// Multiplier of the mixing step.
pub const FX_SEED: u64 = 0x517cc1b727220a95;

/// One mixing step: rotate left by five, fold the word in, multiply.
pub open spec fn fx_mix(h: u64, w: u64) -> u64 {
    vstd::wrapping::u64_specs::wrapping_mul(((h << 5) | (h >> 59)) ^ w, FX_SEED)
}

/// The running hash after folding in the whole byte sequence: eight
/// bytes at a word while they last, then four, then one at a time.
pub open spec fn fx_fold(h: u64, s: Seq<u8>) -> u64
    decreases s.len(),
{
    if s.len() >= 8 {
        fx_fold(fx_mix(h, spec_u64_from_le_bytes(s.subrange(0, 8))), s.subrange(8, s.len() as int))
    } else if s.len() >= 4 {
        fx_fold(
            fx_mix(h, spec_u32_from_le_bytes(s.subrange(0, 4)) as u64),
            s.subrange(4, s.len() as int),
        )
    } else if s.len() >= 1 {
        fx_fold(fx_mix(h, s[0] as u64), s.subrange(1, s.len() as int))
    } else {
        h
    }
}

/// The fingerprint hash of a single byte sequence.
pub open spec fn fx_hash_spec(s: Seq<u8>) -> u64 {
    fx_fold(0, s)
}

fn fx_mix_word(h: u64, w: u64) -> (r: u64)
    ensures
        r == fx_mix(h, w),
{
    (((h << 5) | (h >> 59)) ^ w).wrapping_mul(FX_SEED)
}

/// Folds `bytes` into the running hash `start`.
pub fn fx_fold_bytes(start: u64, bytes: &[u8]) -> (r: u64)
    ensures
        r == fx_fold(start, bytes@),
{
    let len = bytes.len();
    let mut h: u64 = start;
    let mut i: usize = 0;
    proof {
        assert(bytes@.subrange(0, len as int) =~= bytes@);
    }
    while len - i >= 8
        invariant
            len == bytes@.len(),
            0 <= i <= len,
            fx_fold(start, bytes@) == fx_fold(h, bytes@.subrange(i as int, len as int)),
        decreases len - i,
    {
        let ghost rest = bytes@.subrange(i as int, len as int);
        proof {
            assert(rest.subrange(0, 8) =~= bytes@.subrange(i as int, i + 8));
            assert(rest.subrange(8, rest.len() as int) =~= bytes@.subrange(i + 8, len as int));
        }
        let word = u64_from_le_bytes(vstd::slice::slice_subrange(bytes, i, i + 8));
        h = fx_mix_word(h, word);
        i += 8;
    }
    if len - i >= 4 {
        let ghost rest = bytes@.subrange(i as int, len as int);
        proof {
            assert(rest.subrange(0, 4) =~= bytes@.subrange(i as int, i + 4));
            assert(rest.subrange(4, rest.len() as int) =~= bytes@.subrange(i + 4, len as int));
        }
        let word = u32_from_le_bytes(vstd::slice::slice_subrange(bytes, i, i + 4));
        h = fx_mix_word(h, word as u64);
        i += 4;
    }
    while i < len
        invariant
            len == bytes@.len(),
            0 <= i <= len,
            len - i < 4,
            fx_fold(start, bytes@) == fx_fold(h, bytes@.subrange(i as int, len as int)),
        decreases len - i,
    {
        let ghost rest = bytes@.subrange(i as int, len as int);
        proof {
            assert(rest[0] == bytes@[i as int]);
            assert(rest.subrange(1, rest.len() as int) =~= bytes@.subrange(i + 1, len as int));
        }
        h = fx_mix_word(h, bytes[i] as u64);
        i += 1;
    }
    proof {
        assert(bytes@.subrange(len as int, len as int) =~= Seq::<u8>::empty());
    }
    h
}

/// Computes the fingerprint hash of a single byte sequence.
pub fn fx_hash(bytes: &[u8]) -> (r: u64)
    ensures
        r == fx_hash_spec(bytes@),
{
    fx_fold_bytes(0, bytes)
}

} // verus!
