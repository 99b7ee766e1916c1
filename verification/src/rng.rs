use vstd::prelude::*;
use vstd::string::StringSliceAdditionalSpecFns;

verus! {

/// FNV-1a offset basis (32 bit).
pub const FNV_OFFSET_BASIS: u32 = 2_166_136_261;

/// FNV-1a prime (32 bit).
pub const FNV_PRIME: u32 = 16_777_619;

/// Multiplier of the linear congruential generator.
pub const LCG_MULTIPLIER: u32 = 1_664_525;

/// Increment of the linear congruential generator.
pub const LCG_INCREMENT: u32 = 1_013_904_223;

/// One FNV-1a step: xor the byte in, then multiply by the prime modulo 2^32.
pub open spec fn fnv1a_step(hash: u32, byte: u8) -> u32 {
    (((hash ^ (byte as u32)) as nat * FNV_PRIME as nat) % 0x1_0000_0000nat) as u32
}

/// 32-bit FNV-1a hash of a byte sequence.
pub open spec fn fnv1a(bytes: Seq<u8>) -> u32
    decreases bytes.len(),
{
    if bytes.len() == 0 {
        FNV_OFFSET_BASIS
    } else {
        fnv1a_step(fnv1a(bytes.drop_last()), bytes.last())
    }
}

/// Hashes a sound's file name (its UTF-8 bytes) with 32-bit FNV-1a; the hash
/// seeds the noise source of that sound.
pub fn hash_name(name: &str) -> (hash: u32)
    ensures
        hash == fnv1a(name.spec_bytes()),
{
    let bytes = name.as_bytes();
    let mut hash: u32 = FNV_OFFSET_BASIS;
    let mut i: usize = 0;
    while i < bytes.len()
        invariant
            i <= bytes@.len(),
            bytes@ == name.spec_bytes(),
            hash == fnv1a(bytes@.take(i as int)),
        decreases bytes@.len() - i,
    {
        assert(bytes@.take(i as int + 1).drop_last() =~= bytes@.take(i as int));
        hash = hash ^ (bytes[i] as u32);
        hash = hash.wrapping_mul(FNV_PRIME);
        i = i + 1;
    }
    assert(bytes@.take(i as int) =~= bytes@);
    hash
}

/// The state that follows `state` in the linear congruential sequence:
/// `state * 1664525 + 1013904223` modulo 2^32.
pub open spec fn lcg_next(state: u32) -> u32 {
    ((state as nat * LCG_MULTIPLIER as nat + LCG_INCREMENT as nat) % 0x1_0000_0000nat) as u32
}

/// Deterministic noise source: a 32-bit linear congruential generator.
pub struct Lcg {
    pub state: u32,
}

impl Lcg {
    /// Seeds the generator; a zero seed is replaced by one.
    pub fn new(seed: u32) -> (rng: Self)
        ensures
            rng.state == (if seed == 0 { 1u32 } else { seed }),
    {
        Lcg { state: if seed > 1 { seed } else { 1 } }
    }

    /// Advances the generator one step and returns the top 24 bits of the new
    /// state (a value in `0 ..= 2^24 - 1`), from which a signed noise sample
    /// `bits / 16777215 * 2 - 1` is formed.
    pub fn next_bits(&mut self) -> (bits: u32)
        ensures
            final(self).state == lcg_next(old(self).state),
            bits == final(self).state / 256,
            bits < 0x100_0000,
    {
        let product = self.state.wrapping_mul(LCG_MULTIPLIER);
        self.state = product.wrapping_add(LCG_INCREMENT);
        proof {
            let s = old(self).state as int;
            vstd::arithmetic::div_mod::lemma_add_mod_noop(
                s * LCG_MULTIPLIER as int,
                LCG_INCREMENT as int,
                0x1_0000_0000int,
            );
            vstd::arithmetic::div_mod::lemma_small_mod(LCG_INCREMENT as nat, 0x1_0000_0000nat);
        }
        let state = self.state;
        assert(state >> 8 == state / 256 && state / 256 < 0x100_0000) by (bit_vector);
        self.state >> 8
    }
}

} // verus!
