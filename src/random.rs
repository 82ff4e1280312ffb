//! A four-word xorshift-family generator, and the builder that expands up to
//! four seed words into its starting state.
use vstd::prelude::*;

verus! {

/// The generator's four 32-bit words.
pub type State = (u32, u32, u32, u32);

/// Multiplier of the one-word seed expansion.
pub const SEED_MULT: u32 = 0x6C078965;

/// How many seed words are kept; later ones are ignored.
pub const MAX_SEEDS: usize = 4;

/// The all-zero state, which would make every later output zero.
pub open spec fn zero_state() -> State {
    (0, 0, 0, 0)
}

/// The state used in place of an all-zero seed.
pub open spec fn fallback_state() -> State {
    (1, 0x6C078967, 0x714ACB41, 0x48077044)
}

/// One step of the one-word expansion: scramble `prev` and add `i`, wrapping.
pub open spec fn scramble(prev: u32, i: u32) -> u32 {
    SEED_MULT.wrapping_mul(prev ^ (prev >> 30u32)).wrapping_add(i)
}

/// The state expanded from a single seed word.
pub open spec fn expand_one(seed: u32) -> State {
    let a = scramble(seed, 1);
    let b = scramble(a, 2);
    let c = scramble(b, 3);
    let d = scramble(c, 4);
    (a, b, c, d)
}

/// The state taken from four seed words: the words themselves, unless all
/// four are zero.
pub open spec fn expand_four(a: u32, b: u32, c: u32, d: u32) -> State {
    if a | b | c | d == 0 {
        fallback_state()
    } else {
        (a, b, c, d)
    }
}

/// Seed word `i`, with missing trailing words read as zero.
pub open spec fn seed_word(seeds: Seq<u32>, i: int) -> u32 {
    if 0 <= i < seeds.len() {
        seeds[i]
    } else {
        0
    }
}

/// The starting state for one to four seed words.
pub open spec fn seeded_state(seeds: Seq<u32>) -> State {
    if seeds.len() == 1 {
        expand_one(seeds[0])
    } else {
        expand_four(
            seed_word(seeds, 0),
            seed_word(seeds, 1),
            seed_word(seeds, 2),
            seed_word(seeds, 3),
        )
    }
}

/// The seed derived from a clock reading in nanoseconds: the reading if it
/// fits in 32 bits, else zero; zero also when there is no reading.
pub open spec fn clock_seed(nanos: Option<u128>) -> u32 {
    match nanos {
        Some(n) => if n <= u32::MAX as u128 {
            n as u32
        } else {
            0
        },
        None => 0,
    }
}

/// The seed words kept after offering `v` to those already kept.
pub open spec fn keep_seed(kept: Seq<u32>, v: u32) -> Seq<u32> {
    if kept.len() < MAX_SEEDS {
        kept.push(v)
    } else {
        kept
    }
}

/// The seed words kept after offering each of `seeds` in turn.
pub open spec fn kept_seeds(seeds: Seq<u32>) -> Seq<u32>
    decreases seeds.len(),
{
    if seeds.len() == 0 {
        seq![]
    } else {
        keep_seed(kept_seeds(seeds.drop_last()), seeds.last())
    }
}

/// The state after one 32-bit draw; the value drawn is its last word.
pub open spec fn next32(s: State) -> State {
    let n = s.0 ^ (s.0 << 11u32);
    (s.1, s.2, s.3, n ^ (n >> 8u32) ^ s.3 ^ (s.3 >> 19u32))
}

/// The state after one 64-bit draw; the value drawn is made of its last two
/// words.
pub open spec fn next64(s: State) -> State {
    let n1 = s.0 ^ (s.0 << 11u32);
    let n2 = s.1;
    let n3 = n1 ^ (n1 >> 8u32) ^ s.3;
    let t2 = n3 ^ (s.3 >> 19u32);
    let m = n2 ^ (n2 << 11u32);
    (s.2, s.3, t2, m ^ (m >> 8u32) ^ t2 ^ (n3 >> 19u32))
}

/// The 64-bit value with `hi` as its upper and `lo` as its lower half.
pub open spec fn join64(hi: u32, lo: u32) -> int {
    hi as int * 0x1_0000_0000 + lo as int
}

/// The first `n` values of repeated 32-bit draws from `s`.
pub open spec fn outputs32(s: State, n: nat) -> Seq<u32>
    decreases n,
{
    if n == 0 {
        seq![]
    } else {
        seq![next32(s).3].add(outputs32(next32(s), (n - 1) as nat))
    }
}

/// The first `n` values of repeated 64-bit draws from `s`.
pub open spec fn outputs64(s: State, n: nat) -> Seq<int>
    decreases n,
{
    if n == 0 {
        seq![]
    } else {
        seq![join64(next64(s).2, next64(s).3)].add(outputs64(next64(s), (n - 1) as nat))
    }
}

/// The four words of an array, as a state.
pub open spec fn state_of(a: [u32; 4]) -> State {
    (a@[0], a@[1], a@[2], a@[3])
}

proof fn lemma_expand_one_nonzero(seed: u32)
    ensures
        expand_one(seed) != zero_state(),
{
    let a = scramble(seed, 1);
    if a == 0 {
        assert(a ^ (a >> 30u32) == 0) by (bit_vector)
            requires
                a == 0,
        ;
        assert(scramble(a, 2) == 2);
    }
}

proof fn lemma_expand_four_nonzero(a: u32, b: u32, c: u32, d: u32)
    ensures
        expand_four(a, b, c, d) != zero_state(),
{
    assert((a | b | c | d) != 0 ==> !(a == 0 && b == 0 && c == 0 && d == 0)) by (bit_vector);
}

proof fn lemma_next32_nonzero(s: State)
    requires
        s != zero_state(),
    ensures
        next32(s) != zero_state(),
{
    let x = s.0;
    let w = s.3;
    assert(x != 0 && w == 0 ==> (x ^ (x << 11u32)) ^ ((x ^ (x << 11u32)) >> 8u32) ^ w ^ (w >> 19u32)
        != 0) by (bit_vector);
}

proof fn lemma_next64_nonzero(s: State)
    requires
        s != zero_state(),
    ensures
        next64(s) != zero_state(),
{
    let x = s.0;
    let y = s.1;
    assert(x != 0 ==> (x ^ (x << 11u32)) ^ ((x ^ (x << 11u32)) >> 8u32) != 0) by (bit_vector);
    assert(y != 0 ==> (y ^ (y << 11u32)) ^ ((y ^ (y << 11u32)) >> 8u32) != 0) by (bit_vector);
    assert(x == 0 ==> (x ^ (x << 11u32)) == 0 && (x ^ (x << 11u32)) ^ ((x ^ (x << 11u32)) >> 8u32) == 0) by (bit_vector);
    assert(0u32 >> 19u32 == 0) by (bit_vector);
    assert(forall|z: u32| z ^ 0u32 == z) by (bit_vector);
}

/// A pseudo-random generator holding a state that is never all zero.
pub struct Random {
    context: [u32; 4],
}

impl View for Random {
    type V = State;

    closed spec fn view(&self) -> State {
        state_of(self.context)
    }
}

impl Random {
    /// The state is never all zero.
    pub open spec fn wf(&self) -> bool {
        self@ != zero_state()
    }

    /// A builder with no seed words yet.
    pub fn builder() -> (r: RandomBuilder)
        ensures
            r@ == Seq::<u32>::empty(),
    {
        RandomBuilder::default()
    }

    /// Advances the state by one 32-bit step and returns its new last word.
    pub fn random_u32(&mut self) -> (r: u32)
        requires
            old(self).wf(),
        ensures
            final(self)@ == next32(old(self)@),
            r == final(self)@.3,
            final(self).wf(),
    {
        proof {
            lemma_next32_nonzero(self@);
        }
        let c = self.context;
        let n: u32 = c[0] ^ (c[0] << 11u32);
        let t: u32 = n ^ (n >> 8u32) ^ c[3] ^ (c[3] >> 19u32);
        self.context = [c[1], c[2], c[3], t];
        assert(self.context@ =~= seq![c[1], c[2], c[3], t]);
        t
    }

    /// Advances the state by one 64-bit step and returns its new third word
    /// as the upper half and its new last word as the lower half.
    pub fn random_u64(&mut self) -> (r: u64)
        requires
            old(self).wf(),
        ensures
            final(self)@ == next64(old(self)@),
            r as int == join64(final(self)@.2, final(self)@.3),
            final(self).wf(),
    {
        proof {
            lemma_next64_nonzero(self@);
        }
        let c = self.context;
        let n1: u32 = c[0] ^ (c[0] << 11u32);
        let n2: u32 = c[1];
        let n3: u32 = n1 ^ (n1 >> 8u32) ^ c[3];
        let t2: u32 = n3 ^ (c[3] >> 19u32);
        let t3: u32 = n2 ^ (n2 << 11u32) ^ ((n2 ^ (n2 << 11u32)) >> 8u32) ^ t2 ^ (n3 >> 19u32);
        self.context = [c[2], c[3], t2, t3];
        assert(self.context@ =~= seq![c[2], c[3], t2, t3]);
        let left: u64 = (t2 as u64) << 32u64;
        let r: u64 = left | (t3 as u64);
        assert(((t2 as u64) << 32u64) | (t3 as u64) == (t2 as u64) * 0x1_0000_0000u64 + (t3 as u64))
            by (bit_vector);
        r
    }

    /// The current four state words, unchanged.
    pub fn get_context(&self) -> (r: (u32, u32, u32, u32))
        ensures
            r == self@,
    {
        (self.context[0], self.context[1], self.context[2], self.context[3])
    }
}
/// The wall clock's time, opaque here.
#[verifier::external_type_specification]
#[verifier::external_body]
pub struct ExSystemTime(std::time::SystemTime);

/// The error of a clock reading earlier than the instant asked for.
#[verifier::external_type_specification]
#[verifier::external_body]
pub struct ExSystemTimeError(std::time::SystemTimeError);

/// Relies on std::time::SystemTime::now: the current wall-clock time.
/// Nothing is promised of the value.
pub assume_specification[ std::time::SystemTime::now ]() -> std::time::SystemTime;

/// Relies on std::time::SystemTime::duration_since: the time elapsed since
/// `earlier`, or an error where `earlier` is later. Nothing is promised of
/// which comes back.
pub assume_specification[ std::time::SystemTime::duration_since ](
    t: &std::time::SystemTime,
    earlier: std::time::SystemTime,
) -> core::result::Result<core::time::Duration, std::time::SystemTimeError>;

/// Relies on core::time::Duration::as_nanos: the whole duration in
/// nanoseconds. Nothing is promised of the value.
pub assume_specification[ core::time::Duration::as_nanos ](d: &core::time::Duration) -> u128;

/// Relies on std::time::UNIX_EPOCH: the instant the clock counts from.
#[verifier::external_body]
fn unix_epoch() -> std::time::SystemTime {
    std::time::UNIX_EPOCH
}

/// Reads the clock: nanoseconds since the Unix epoch, or `None` where the
/// clock reads earlier than the epoch.
fn clock_nanos() -> (r: Option<u128>) {
    match std::time::SystemTime::now().duration_since(unix_epoch()) {
        Ok(d) => Some(d.as_nanos()),
        Err(_) => None,
    }
}

/// Collects up to four seed words, then builds a [`Random`].
pub struct RandomBuilder(Vec<u32>);

impl View for RandomBuilder {
    type V = Seq<u32>;

    closed spec fn view(&self) -> Seq<u32> {
        self.0@
    }
}

impl Default for RandomBuilder {
    fn default() -> (r: Self)
        ensures
            r@ == Seq::<u32>::empty(),
    {
        RandomBuilder(Vec::new())
    }
}

impl RandomBuilder {
    /// Offers one more seed word; it is kept only while fewer than four are.
    pub fn add_seed(self, value: u32) -> (r: Self)
        ensures
            r@ == keep_seed(self@, value),
    {
        let mut b = self;
        b.seed(value);
        b
    }

    /// Offers one more seed word in place; it is kept only while fewer than
    /// four are.
    pub fn seed(&mut self, value: u32) -> (r: &mut Self)
        ensures
            (*r)@ == keep_seed(old(self)@, value),
            *final(self) == *final(r),
    {
        if self.0.len() < MAX_SEEDS {
            self.0.push(value);
        }
        self
    }

    /// Builds the generator. With no seed word, one is taken from the clock.
    pub fn build(self) -> (r: Random)
        ensures
            r.wf(),
            self@.len() > 0 ==> r@ == seeded_state(self@),
            self@.len() == 0 ==> exists|seed: u32| r@ == expand_one(seed),
    {
        let nanos = if self.0.len() == 0 {
            clock_nanos()
        } else {
            None
        };
        let r = self.build_with_clock(nanos);
        assert(self@.len() == 0 ==> r@ == expand_one(clock_seed(nanos)));
        r
    }

    /// Builds the generator, taking the clock reading `nanos` (nanoseconds
    /// since the Unix epoch) as the seed when no seed word was given.
    pub fn build_with_clock(self, nanos: Option<u128>) -> (r: Random)
        ensures
            r.wf(),
            self@.len() > 0 ==> r@ == seeded_state(self@),
            self@.len() == 0 ==> r@ == expand_one(clock_seed(nanos)),
    {
        proof {
            if self@.len() > 0 {
                lemma_seeded_state_nonzero(self@);
            }
            lemma_expand_one_nonzero(clock_seed(nanos));
        }
        let len = self.0.len();
        let context = if len == 0 {
            let seed: u32 = match nanos {
                Some(n) => if n <= u32::MAX as u128 {
                    n as u32
                } else {
                    0
                },
                None => 0,
            };
            Self::build_with_one(seed)
        } else if len == 1 {
            Self::build_with_one(self.0[0])
        } else if len == 2 {
            Self::build_with_four(self.0[0], self.0[1], 0, 0)
        } else if len == 3 {
            Self::build_with_four(self.0[0], self.0[1], self.0[2], 0)
        } else {
            Self::build_with_four(self.0[0], self.0[1], self.0[2], self.0[3])
        };
        Random { context }
    }

    fn build_with_one(val: u32) -> (r: [u32; 4])
        ensures
            state_of(r) == expand_one(val),
    {
        let a: u32 = SEED_MULT.wrapping_mul(val ^ (val >> 30u32)).wrapping_add(1);
        let b: u32 = SEED_MULT.wrapping_mul(a ^ (a >> 30u32)).wrapping_add(2);
        let c: u32 = SEED_MULT.wrapping_mul(b ^ (b >> 30u32)).wrapping_add(3);
        let d: u32 = SEED_MULT.wrapping_mul(c ^ (c >> 30u32)).wrapping_add(4);
        let r = [a, b, c, d];
        assert(r@ =~= seq![a, b, c, d]);
        r
    }

    fn build_with_four(val1: u32, val2: u32, val3: u32, val4: u32) -> (r: [u32; 4])
        ensures
            state_of(r) == expand_four(val1, val2, val3, val4),
    {
        if val1 | val2 | val3 | val4 == 0 {
            let r = [1u32, 0x6C07_8967u32, 0x714A_CB41u32, 0x4807_7044u32];
            assert(r@ =~= seq![1u32, 0x6C07_8967u32, 0x714A_CB41u32, 0x4807_7044u32]);
            r
        } else {
            let r = [val1, val2, val3, val4];
            assert(r@ =~= seq![val1, val2, val3, val4]);
            r
        }
    }
}
/// Determinism: the same seed words, offered in the same order, give the same
/// starting state and therefore the same stream of 32-bit and of 64-bit
/// values.
pub proof fn lemma_same_seeds_same_outputs(a: Seq<u32>, b: Seq<u32>, n: nat)
    requires
        a == b,
        a.len() > 0,
    ensures
        seeded_state(kept_seeds(a)) == seeded_state(kept_seeds(b)),
        outputs32(seeded_state(kept_seeds(a)), n) == outputs32(seeded_state(kept_seeds(b)), n),
        outputs64(seeded_state(kept_seeds(a)), n) == outputs64(seeded_state(kept_seeds(b)), n),
{
}

/// Zero-seed guard: four zero seed words give the fixed fallback state,
/// which is not all zero.
pub proof fn lemma_zero_seeds_fallback(seeds: Seq<u32>)
    requires
        seeds.len() == 4,
        forall|i: int| 0 <= i < 4 ==> seeds[i] == 0,
    ensures
        seeded_state(seeds) == fallback_state(),
        seeded_state(seeds) != zero_state(),
{
    assert(0u32 | 0u32 | 0u32 | 0u32 == 0) by (bit_vector);
}

/// Any nonempty seed words give a state that is not all zero.
pub proof fn lemma_seeded_state_nonzero(seeds: Seq<u32>)
    requires
        seeds.len() >= 1,
    ensures
        seeded_state(seeds) != zero_state(),
{
    if seeds.len() == 1 {
        lemma_expand_one_nonzero(seeds[0]);
    } else {
        lemma_expand_four_nonzero(
            seed_word(seeds, 0),
            seed_word(seeds, 1),
            seed_word(seeds, 2),
            seed_word(seeds, 3),
        );
    }
}

/// The words kept are the first four offered.
pub proof fn lemma_kept_seeds_prefix(seeds: Seq<u32>)
    ensures
        kept_seeds(seeds) == if seeds.len() <= 4 {
            seeds
        } else {
            seeds.take(4)
        },
    decreases seeds.len(),
{
    if seeds.len() > 0 {
        let rest = seeds.drop_last();
        lemma_kept_seeds_prefix(rest);
        if seeds.len() <= 4 {
            assert(rest.push(seeds.last()) =~= seeds);
        } else {
            assert(rest.take(4) =~= seeds.take(4));
        }
    }
}

/// Extra seeds are ignored: offering more than four seed words keeps, and
/// builds from, exactly the first four.
pub proof fn lemma_extra_seeds_ignored(seeds: Seq<u32>)
    requires
        seeds.len() > 4,
    ensures
        kept_seeds(seeds) == kept_seeds(seeds.take(4)),
        seeded_state(kept_seeds(seeds)) == seeded_state(kept_seeds(seeds.take(4))),
{
    lemma_kept_seeds_prefix(seeds);
    lemma_kept_seeds_prefix(seeds.take(4));
}

/// Partial seeds are padded: two or three seed words give the state of the
/// same words followed by zeros up to four, under the four-word rule.
pub proof fn lemma_partial_seeds_padded(seeds: Seq<u32>)
    requires
        2 <= seeds.len() <= 3,
    ensures
        seeded_state(seeds) == seeded_state(seeds + Seq::new((4 - seeds.len()) as nat, |i: int| 0u32)),
        seeded_state(seeds) == expand_four(seeds[0], seeds[1], seed_word(seeds, 2), 0),
{
    let padded = seeds + Seq::new((4 - seeds.len()) as nat, |i: int| 0u32);
    assert(seed_word(padded, 0) == seed_word(seeds, 0));
    assert(seed_word(padded, 1) == seed_word(seeds, 1));
    assert(seed_word(padded, 2) == seed_word(seeds, 2));
    assert(seed_word(padded, 3) == seed_word(seeds, 3));
}

} // verus!
