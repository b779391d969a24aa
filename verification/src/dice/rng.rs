//! The dice generator: a ChaCha-based `StdRng` from `rand`, seeded from OS
//! entropy mixed with the clock, the process and the thread.

use rand::rngs::{SmallRng, StdRng};
use rand::{RngExt, SeedableRng};
use std::time::{Duration, SystemTime, UNIX_EPOCH};
use vstd::prelude::*;

verus! {

#[verifier::external_type_specification]
#[verifier::external_body]
pub struct ExStdRng(StdRng);

#[verifier::external_type_specification]
#[verifier::external_body]
pub struct ExSmallRng(SmallRng);

/// What a generator was seeded with: 32 bytes, or a number.
pub enum RngSeed {
    Bytes(Seq<u8>),
    Number(u64),
}

/// The generator every die of one request is drawn from.
pub struct DiceRng {
    inner: StdRng,
    seeded: Ghost<RngSeed>,
}

/// `StdRng::from_seed`: a generator determined by the 32-byte seed; nothing
/// is claimed about the values it will produce.
#[verifier::external_body]
fn std_rng_from_seed(seed: [u8; 32]) -> StdRng {
    StdRng::from_seed(seed)
}

/// `SeedableRng::seed_from_u64`: a generator determined by `state`; nothing
/// is claimed about the values it will produce.
#[verifier::external_body]
fn std_rng_from_u64(state: u64) -> StdRng {
    StdRng::seed_from_u64(state)
}

/// `RngExt::random_range` over `lo..=hi`: a value in that range. The range
/// must not be empty, since `random_range` panics on an empty range.
#[verifier::external_body]
fn std_rng_range(rng: &mut StdRng, lo: i32, hi: i32) -> (r: i32)
    requires
        lo <= hi,
    ensures
        lo <= r <= hi,
{
    rng.random_range(lo..=hi)
}

/// `RngExt::random::<u64>`: the next 64 bits of the generator; nothing is
/// claimed about their value.
#[verifier::external_body]
fn std_rng_next_u64(rng: &mut StdRng) -> u64 {
    rng.random::<u64>()
}

/// `SeedableRng::seed_from_u64` for `SmallRng`: a generator determined by
/// `state`; nothing is claimed about the values it will produce.
#[verifier::external_body]
fn small_rng_from_u64(state: u64) -> SmallRng {
    SmallRng::seed_from_u64(state)
}

/// `RngExt::random_range` over `lo..=hi` on a `SmallRng`: a value in that
/// range. The range must not be empty, since `random_range` panics on an
/// empty range.
#[verifier::external_body]
fn small_rng_range(rng: &mut SmallRng, lo: i32, hi: i32) -> (r: i32)
    requires
        lo <= hi,
    ensures
        lo <= r <= hi,
{
    rng.random_range(lo..=hi)
}

/// `getrandom::fill`: fills the buffer with OS entropy and reports success;
/// on failure nothing is claimed about the buffer's contents.
#[verifier::external_body]
fn fill_os_entropy(buf: &mut [u8; 16]) -> bool {
    getrandom::fill(buf).is_ok()
}

impl DiceRng {
    /// What the generator was seeded with.
    pub closed spec fn seed(&self) -> RngSeed {
        self.seeded@
    }

    /// A generator seeded with exactly these 32 bytes.
    pub fn from_seed(seed: [u8; 32]) -> (r: DiceRng)
        ensures
            r.seed() == RngSeed::Bytes(seed@),
    {
        DiceRng { inner: std_rng_from_seed(seed), seeded: Ghost(RngSeed::Bytes(seed@)) }
    }

    /// A reproducible generator for a given number, for tests and replays.
    pub fn seed_from_u64(state: u64) -> (r: DiceRng)
        ensures
            r.seed() == RngSeed::Number(state),
    {
        DiceRng { inner: std_rng_from_u64(state), seeded: Ghost(RngSeed::Number(state)) }
    }

    /// One die of `sides` sides: a value from 1 to `sides`.
    pub fn roll(&mut self, sides: i32) -> (r: i32)
        requires
            sides >= 1,
        ensures
            1 <= r <= sides,
            final(self).seed() == old(self).seed(),
    {
        std_rng_range(&mut self.inner, 1, sides)
    }

    /// The next 64 bits of the generator.
    pub fn next_u64(&mut self) -> (r: u64)
        ensures
            final(self).seed() == old(self).seed(),
    {
        std_rng_next_u64(&mut self.inner)
    }
}

/// A lighter, non-cryptographic generator for bulk rolling, seeded from an
/// enhanced generator.
pub struct FastDiceRng {
    inner: SmallRng,
}

impl FastDiceRng {
    /// One die of `sides` sides: a value from 1 to `sides`.
    pub fn roll(&mut self, sides: i32) -> (r: i32)
        requires
            sides >= 1,
        ensures
            1 <= r <= sides,
    {
        small_rng_range(&mut self.inner, 1, sides)
    }
}

/// Sixteen bytes of OS entropy, or `None` when the OS cannot supply them.
pub fn os_entropy() -> Option<[u8; 16]> {
    let mut buf = [0u8; 16];
    if fill_os_entropy(&mut buf) {
        Some(buf)
    } else {
        None
    }
}


#[verifier::external_type_specification]
#[verifier::external_body]
pub struct ExSystemTime(SystemTime);

/// `SystemTime::now`: the system clock's current time; nothing is claimed
/// about it.
#[verifier::external_body]
fn system_now() -> SystemTime {
    SystemTime::now()
}

/// `SystemTime::duration_since` from the Unix epoch, `None` when the clock
/// is set before the epoch (its error); nothing is claimed about the value.
#[verifier::external_body]
fn since_unix_epoch(t: &SystemTime) -> Option<Duration> {
    t.duration_since(UNIX_EPOCH).ok()
}

/// `Duration::as_nanos`: the length in whole nanoseconds; nothing is claimed
/// about the value.
#[verifier::external_body]
fn duration_nanos(d: &Duration) -> u128 {
    d.as_nanos()
}

/// Nanoseconds since the Unix epoch by the system clock, 0 when the clock is
/// set before the epoch.
fn clock_nanos() -> u128 {
    let now = system_now();
    match since_unix_epoch(&now) {
        Some(d) => duration_nanos(&d),
        None => 0,
    }
}

/// Byte `k` (least significant first) of `x`.
pub open spec fn le_byte(x: u64, k: int) -> u8 {
    ((x >> ((8 * k) as u64)) & 0xff) as u8
}

pub fn le_byte_of(x: u64, k: u64) -> (b: u8)
    requires
        k < 8,
    ensures
        b == le_byte(x, k as int),
{
    ((x >> (8 * k)) & 0xff) as u8
}

/// The seed bytes used when the OS has no entropy to give: the clock's
/// nanoseconds times the process id, its little-endian bytes repeated.
pub open spec fn fallback_bytes(time_nanos: u64, process_id: u64) -> Seq<u8> {
    Seq::new(16, |i: int| le_byte(time_nanos.wrapping_mul(process_id), i % 8))
}

pub fn fallback_seed(time_nanos: u64, process_id: u64) -> (r: [u8; 16])
    ensures
        r@ == fallback_bytes(time_nanos, process_id),
{
    let entropy = time_nanos.wrapping_mul(process_id);
    let mut r = [0u8; 16];
    let mut i: usize = 0;
    while i < 16
        invariant
            i <= 16,
            r@.len() == 16,
            forall|j: int| 0 <= j < i ==> r@[j] == le_byte(entropy, j % 8),
        decreases 16 - i,
    {
        r[i] = le_byte_of(entropy, (i % 8) as u64);
        i = i + 1;
    }
    assert(r@ =~= fallback_bytes(time_nanos, process_id));
    r
}

/// The hash of a thread's name text: `h = h * 31 + b`, then `h ^= b << (i % 56)`,
/// byte by byte.
pub open spec fn thread_hash(bytes: Seq<u8>) -> u64
    decreases bytes.len(),
{
    if bytes.len() == 0 {
        0
    } else {
        let i = bytes.len() - 1;
        let b = bytes.last() as u64;
        let h = thread_hash(bytes.drop_last()).wrapping_mul(31).wrapping_add(b);
        h ^ (b << ((i % 56) as u64))
    }
}

pub fn hash_thread_id(text: &Vec<u8>) -> (h: u64)
    ensures
        h == thread_hash(text@),
{
    let mut hash: u64 = 0;
    let mut i: usize = 0;
    while i < text.len()
        invariant
            i <= text@.len(),
            hash == thread_hash(text@.take(i as int)),
        decreases text.len() - i,
    {
        assert(text@.take(i + 1).drop_last() =~= text@.take(i as int));
        let b = text[i] as u64;
        hash = hash.wrapping_mul(31).wrapping_add(b);
        hash = hash ^ (b << ((i % 56) as u64));
        i = i + 1;
    }
    assert(text@.take(text@.len() as int) =~= text@);
    hash
}

/// The seed after mixing in the clock's sub-second nanoseconds (bytes
/// 16-19), the thread hash (20-27), the process id (28-31) and a stack
/// address spread over every byte.
pub open spec fn mixed_byte(seed: Seq<u8>, i: int, subsec_nanos: u32, thread: u64, process_id: u32, address: u64) -> u8 {
    let a = if 16 <= i < 20 {
        seed[i] ^ le_byte(subsec_nanos as u64, i - 16)
    } else if 20 <= i < 28 {
        seed[i] ^ le_byte(thread, i - 20)
    } else if 28 <= i < 32 {
        seed[i] ^ le_byte(process_id as u64, i - 28)
    } else {
        seed[i]
    };
    a ^ le_byte(address, i % 8).wrapping_mul((i + 1) as u8)
}

pub fn mix_additional_entropy(seed: &mut [u8; 32], subsec_nanos: u32, thread: u64, process_id: u32, address: u64)
    ensures
        forall|i: int| 0 <= i < 32 ==> final(seed)@[i] == mixed_byte(old(seed)@, i, subsec_nanos, thread, process_id, address),
{
    let ghost s0 = seed@;
    let mut i: usize = 0;
    while i < 32
        invariant
            i <= 32,
            seed@.len() == 32,
            s0.len() == 32,
            forall|j: int| 0 <= j < i ==> seed@[j] == mixed_byte(s0, j, subsec_nanos, thread, process_id, address),
            forall|j: int| i <= j < 32 ==> seed@[j] == s0[j],
        decreases 32 - i,
    {
        let cur = seed[i];
        let a: u8 = if 16 <= i && i < 20 {
            cur ^ le_byte_of(subsec_nanos as u64, (i - 16) as u64)
        } else if 20 <= i && i < 28 {
            cur ^ le_byte_of(thread, (i - 20) as u64)
        } else if 28 <= i && i < 32 {
            cur ^ le_byte_of(process_id as u64, (i - 28) as u64)
        } else {
            cur
        };
        let v = a ^ le_byte_of(address, (i % 8) as u64).wrapping_mul((i + 1) as u8);
        seed[i] = v;
        i = i + 1;
    }
}

/// The seed of a generator: OS entropy in the first 16 bytes (or the clock
/// fallback), then the other sources mixed in.
pub fn enhanced_seed(
    os: Option<[u8; 16]>,
    time_nanos: u64,
    subsec_nanos: u32,
    thread: u64,
    process_id: u32,
    address: u64,
) -> (seed: [u8; 32])
    ensures
        forall|i: int| 0 <= i < 32 ==> seed@[i] == mixed_byte(
            (match os {
                Some(b) => b@,
                None => fallback_bytes(time_nanos, process_id as u64),
            }) + Seq::new(16, |k: int| 0u8),
            i,
            subsec_nanos,
            thread,
            process_id,
            address,
        ),
{
    let first: [u8; 16] = match os {
        Some(b) => b,
        None => fallback_seed(time_nanos, process_id as u64),
    };
    let mut seed = [0u8; 32];
    let mut i: usize = 0;
    while i < 16
        invariant
            i <= 16,
            seed@.len() == 32,
            first@.len() == 16,
            forall|j: int| 0 <= j < i ==> seed@[j] == first@[j],
            forall|j: int| 16 <= j < 32 ==> seed@[j] == 0u8,
        decreases 16 - i,
    {
        seed[i] = first[i];
        i = i + 1;
    }
    assert(seed@ =~= first@ + Seq::new(16, |k: int| 0u8));
    mix_additional_entropy(&mut seed, subsec_nanos, thread, process_id, address);
    seed
}

/// The 32 seed bytes built from the OS entropy (or its absence), the clock's
/// nanoseconds and the thread, process and address sources.
pub open spec fn enhanced_bytes(os: Option<[u8; 16]>, nanos: u128, thread: u64, process_id: u32, address: u64) -> Seq<u8> {
    let base = (match os {
        Some(b) => b@,
        None => fallback_bytes(nanos as u64, process_id as u64),
    }) + Seq::new(16, |k: int| 0u8);
    Seq::new(32, |i: int| mixed_byte(base, i, (nanos % 1_000_000_000) as u32, thread, process_id, address))
}

/// A generator seeded from every entropy source: OS randomness, the clock,
/// and the thread, process and stack address that the caller reads.
pub fn create_enhanced_rng(thread: u64, process_id: u32, address: u64) -> (r: DiceRng)
    ensures
        exists|os: Option<[u8; 16]>, nanos: u128|
            r.seed() == RngSeed::Bytes(#[trigger] enhanced_bytes(os, nanos, thread, process_id, address)),
{
    let nanos = clock_nanos();
    let time_nanos = nanos as u64;
    let subsec = (nanos % 1_000_000_000) as u32;
    let os = os_entropy();
    let seed = enhanced_seed(os, time_nanos, subsec, thread, process_id, address);
    assert(seed@ =~= enhanced_bytes(os, nanos, thread, process_id, address));
    DiceRng::from_seed(seed)
}

/// The generator a roll uses when the caller supplies none: OS randomness
/// and the clock (the thread, process and address sources are read by the
/// program around the library).
pub fn get_dice_rng() -> (r: DiceRng)
    ensures
        exists|os: Option<[u8; 16]>, nanos: u128| r.seed() == RngSeed::Bytes(#[trigger] enhanced_bytes(os, nanos, 0, 0, 0)),
{
    create_enhanced_rng(0, 0, 0)
}

/// A fast generator seeded with 64 bits drawn from an enhanced generator
/// built from the same sources.
pub fn create_fast_rng(thread: u64, process_id: u32, address: u64) -> FastDiceRng {
    let mut seeder = create_enhanced_rng(thread, process_id, address);
    let seed = seeder.next_u64();
    FastDiceRng { inner: small_rng_from_u64(seed) }
}

} // verus!
