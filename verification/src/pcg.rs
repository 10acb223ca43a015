//! A small PCG32 generator (XSH-RR output over a 64-bit LCG), so that a
//! simulation replays identically for a given seed.

use vstd::prelude::*;

verus! {

use vstd::arithmetic::div_mod::lemma_add_mod_noop;

/// The LCG multiplier of the 64-bit state.
pub const PCG_MULTIPLIER: u64 = 6364136223846793005;

/// The LCG increment of the 64-bit state.
pub const PCG_INCREMENT: u64 = 1442695040888963407;

/// The offset added to a seed before the first step.
pub const PCG_SEED_OFFSET: u64 = 0x853c_49e6_748f_ea9b;

/// 2^64, the modulus of the state arithmetic.
pub open spec fn state_modulus() -> int {
    0x1_0000_0000_0000_0000
}

/// One step of the linear congruential state: `s * MUL + INC (mod 2^64)`.
pub open spec fn pcg_step(s: u64) -> u64 {
    ((s as int * PCG_MULTIPLIER as int + PCG_INCREMENT as int) % state_modulus()) as u64
}

/// The state after `n` steps from `s`.
pub open spec fn pcg_advance(s: u64, n: nat) -> u64
    decreases n,
{
    if n == 0 {
        s
    } else {
        pcg_advance(pcg_step(s), (n - 1) as nat)
    }
}

/// 32-bit rotation to the right by `r` (taken modulo 32).
pub open spec fn rotr32(x: u32, r: u32) -> u32 {
    let k = r % 32;
    if k == 0 {
        x
    } else {
        (x >> k) | (x << ((32 - k) as u32))
    }
}

/// The XSH-RR output of a state: a xorshift of the high bits, rotated by
/// the top five bits of the state.
pub open spec fn pcg_output(s: u64) -> u32 {
    rotr32((((s >> 18u64) ^ s) >> 27u64) as u32, (s >> 59u64) as u32)
}

/// The state of a generator made from `seed`: the seed plus the offset,
/// stepped once.
pub open spec fn pcg_seeded(seed: u64) -> u64 {
    pcg_step(((seed as int + PCG_SEED_OFFSET as int) % state_modulus()) as u64)
}

/// The `i`-th output of the stream that starts at state `s`.
pub open spec fn pcg_nth_output(s: u64, i: nat) -> u32 {
    pcg_output(pcg_advance(s, i))
}

/// Top 24 bits of an output: the numerator of a draw `k / 2^24` in `[0, 1)`.
pub open spec fn unit_bits(x: u32) -> u32 {
    x >> 8u32
}

/// The 32-bit rotation, by shifts.
pub fn rotate_right_u32(x: u32, r: u32) -> (res: u32)
    ensures
        res == rotr32(x, r),
{
    let k = r % 32;
    if k == 0 {
        x
    } else {
        (x >> k) | (x << (32 - k))
    }
}

/// The deterministic generator; its whole state is one 64-bit word.
#[derive(Clone)]
pub struct Pcg32 {
    state: u64,
}

impl View for Pcg32 {
    type V = u64;

    open spec fn view(&self) -> u64 {
        self.state_spec()
    }
}

impl Pcg32 {
    /// The 64-bit state.
    pub closed spec fn state_spec(&self) -> u64 {
        self.state
    }

    /// A generator seeded with `seed`: the seed plus the offset, stepped
    /// once (the first output is drawn and dropped).
    pub fn new(seed: u64) -> (p: Pcg32)
        ensures
            p@ == pcg_seeded(seed),
    {
        let mut s = Pcg32 { state: seed.wrapping_add(PCG_SEED_OFFSET) };
        proof {
            assert(s.state == ((seed as int + PCG_SEED_OFFSET as int) % state_modulus()) as u64);
        }
        let _ = s.next_u32();
        s
    }

    /// The next output: the XSH-RR function of the current state; the state
    /// then takes one LCG step.
    pub fn next_u32(&mut self) -> (r: u32)
        ensures
            r == pcg_output(old(self)@),
            final(self)@ == pcg_step(old(self)@),
    {
        let old_state = self.state;
        let m = old_state.wrapping_mul(PCG_MULTIPLIER);
        let next = m.wrapping_add(PCG_INCREMENT);
        proof {
            let x = old_state as int * PCG_MULTIPLIER as int;
            let r = state_modulus();
            assert(m == x % r);
            lemma_add_mod_noop(x, PCG_INCREMENT as int, r);
            assert((PCG_INCREMENT as int) % r == PCG_INCREMENT as int);
            assert(((x % r) + PCG_INCREMENT as int) % r == (x + PCG_INCREMENT as int) % r);
            assert(next == (m as int + PCG_INCREMENT as int) % r);
        }
        self.state = next;
        let xorshifted = (((old_state >> 18u64) ^ old_state) >> 27u64) as u32;
        let rot = (old_state >> 59u64) as u32;
        rotate_right_u32(xorshifted, rot)
    }

    /// The top 24 bits of the next output: `k` with `k / 2^24` uniform in
    /// `[0, 1)`, the numerator of the generator's unit draw.
    pub fn next_u24(&mut self) -> (k: u32)
        ensures
            k == unit_bits(pcg_output(old(self)@)),
            k < 0x100_0000,
            final(self)@ == pcg_step(old(self)@),
    {
        let x = self.next_u32();
        assert(x >> 8u32 < 0x100_0000u32) by (bit_vector);
        x >> 8u32
    }
}

/// One step is an advance by one.
pub proof fn lemma_advance_one(s: u64)
    ensures
        pcg_advance(s, 1) == pcg_step(s),
{
    assert(pcg_advance(pcg_step(s), 0) == pcg_step(s));
}

/// Advancing by `a` then by `b` is advancing by `a + b`.
pub proof fn lemma_advance_split(s: u64, a: nat, b: nat)
    ensures
        pcg_advance(pcg_advance(s, a), b) == pcg_advance(s, a + b),
    decreases a,
{
    if a > 0 {
        lemma_advance_split(pcg_step(s), (a - 1) as nat, b);
        assert((a - 1) as nat + b == (a + b - 1) as nat);
    }
}

} // verus!
