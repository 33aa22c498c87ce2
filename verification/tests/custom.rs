use urandom::distr::{Dice, Mapped};
use urandom::rng::fill::{fill_bytes, fill_u32, fill_u64};
use urandom::rng::{Mock, System};
use urandom::{Random, Rng};

/// Counts up from its seed, one step for every word.
#[derive(Clone)]
struct Counter(u64);

impl Rng for Counter {
    fn next_u32(&mut self) -> u32 {
        self.next_u64() as u32
    }
    fn next_u64(&mut self) -> u64 {
        self.0 = self.0.wrapping_add(1);
        self.0
    }
    fn next_f32_bits(&mut self) -> u32 {
        urandom::rng::util::unit_f32_bits(self.next_u32())
    }
    fn next_f64_bits(&mut self) -> u64 {
        urandom::rng::util::unit_f64_bits(self.next_u64())
    }
    fn fill_bytes(&mut self, buf: &mut [u8]) {
        for byte in buf {
            *byte = self.next_u64() as u8;
        }
    }
    fn jump(&mut self) {
        self.0 = self.0.wrapping_add(1 << 32);
    }
}

#[test]
fn a_generator_of_the_caller_feeds_the_samplers() {
    let mut rand = Random::wrap(Counter(0));
    assert_eq!(rand.next_u64(), 1);
    // 2 * 6 = 12: the candidate 0 stands, its lower half 12 is above 2^64 mod 6.
    assert_eq!(rand.uniform(0u64, 6), 0);
    let mut ahead = rand.split();
    assert_eq!(ahead.next_u64(), 3);
    assert_eq!(rand.next_u64(), (1 << 32) + 3);
    let mut buf = [0u8; 3];
    rand.fill_bytes(&mut buf);
    assert_eq!(buf, [4, 5, 6]);
    assert_eq!(rand.into_inner().0, (1 << 32) + 6);
}

#[test]
fn fills_of_words_and_bytes() {
    let mut words = [0u32; 5];
    let rest = fill_u32(Counter(0x1_0000_0000), &mut words);
    assert_eq!(words, [1, 1, 2, 1, 3]);
    assert_eq!(rest.0, 0x1_0000_0003);

    let mut words = [0u64; 3];
    let rest = fill_u64(Counter(10), &mut words);
    assert_eq!(words, [11, 12, 13]);
    assert_eq!(rest.0, 13);

    let mut bytes = [0u8; 10];
    let rest = fill_bytes(Counter(0x0102_0304_0506_0700), &mut bytes);
    assert_eq!(bytes, [1, 7, 6, 5, 4, 3, 2, 1, 2, 7]);
    assert_eq!(rest.0, 0x0102_0304_0506_0702);

    let mut none = [0u32; 0];
    let rest = fill_u32(Counter(5), &mut none);
    assert_eq!(rest.0, 5);
}

#[test]
fn mapped_distribution_applies_the_function() {
    let even = Mapped::new(Dice::d6(), |side: i32| side % 2 == 0);
    let mut rand = Mock::repeat(0x8000_0001);
    // the side 4
    assert!(rand.sample(&even));
    let mut rand = urandom::seeded(3);
    let doubled = Mapped::new(Dice::d20(), |side: i32| 2 * side);
    for _ in 0..1000 {
        let value = rand.sample(&doubled);
        assert!(value % 2 == 0 && value >= 2 && value <= 40);
    }
}

#[test]
fn system_reads_the_entropy_source() {
    let mut rand = System::<31>::new();
    let mut words = Vec::new();
    for _ in 0..100 {
        words.push(rand.next_u32().unwrap());
        words.push(rand.next_u64().unwrap() as u32);
    }
    words.sort();
    words.dedup();
    assert!(words.len() > 190);
    let mut buf = [0u8; 64];
    rand.fill_bytes(&mut buf).unwrap();
    assert_ne!(buf, [0u8; 64]);
    rand.jump();
    rand.next_u64().unwrap();
    let mut small = System::<2>::new();
    let a = small.next_u64().unwrap();
    let b = small.next_u64().unwrap();
    assert_ne!(a, b);
    assert_eq!(urandom::rng::EntropyError::NotReady.message(), "getentropy not ready");
}

#[test]
fn a_failing_entropy_source_is_not_ready() {
    use_entropy_result();
}

fn use_entropy_result() {
    let failed = urandom::rng::entropy::entropy_result(Err(getrandom::Error::UNSUPPORTED));
    assert_eq!(failed, Err(urandom::rng::EntropyError::NotReady));
    assert_eq!(urandom::rng::entropy::entropy_result(Ok(())), Ok(()));
    let mut a = [0u8; 32];
    let mut b = [0u8; 32];
    urandom::rng::getentropy(&mut a).unwrap();
    urandom::rng::getentropy(&mut b).unwrap();
    assert_ne!(a, b);
    let mut none = [0u8; 0];
    urandom::rng::getentropy(&mut none).unwrap();
}

#[test]
fn block_adapter_reads_across_blocks() {
    use_block_adapter();
}

fn use_block_adapter() {
    // Fills of whole blocks leave the buffered block alone.
    let mut rand = urandom::rng::ChaCha8::from_seed(9);
    let mut twin = rand.clone();
    let first = rand.next_u32();
    let mut big = [0u8; 600];
    rand.fill_bytes(&mut big);
    assert_eq!(twin.next_u32(), first);
    let second = rand.next_u32();
    // `twin` buffers block 0 of its first call; `rand` generated two more
    // calls' worth for the 512 bytes and took the last 88 from its buffer.
    let mut expect = [0u8; 88];
    twin.fill_bytes(&mut expect);
    assert_eq!(big[512..], expect);
    assert_eq!(twin.next_u32(), second);

    // A read that the buffer cannot serve starts a new block.
    let mut rand = urandom::rng::ChaCha8::from_seed(9);
    let mut bytes = [0u8; 253];
    rand.fill_bytes(&mut bytes);
    let mut twin = rand.clone();
    let word = rand.next_u32();
    let mut skip = [0u8; 3];
    twin.fill_bytes(&mut skip);
    assert_eq!(twin.next_u32(), word);
    let mut tail = [0u8; 255];
    rand.fill_bytes(&mut tail);
    let mut twin = rand.clone();
    assert_eq!(rand.next_u64(), twin.next_u64());
}

#[test]
fn ziggurat_words_make_layers_and_floats() {
    use_ziggurat();
}

fn use_ziggurat() {
    use_layer(0x1234_5678_9abc_def0, 0xf0);
    use_layer(u64::MAX, 255);
    use_layer(0xff00, 0);
    let one = urandom::distr::ziggurat::into_float_with_exponent(0, 0);
    assert_eq!(f64::from_bits(one), 1.0);
    let two = urandom::distr::ziggurat::into_float_with_exponent(0, 1);
    assert_eq!(f64::from_bits(two), 2.0);
    let top = urandom::distr::ziggurat::into_float_with_exponent(u64::MAX, 1);
    assert_eq!(f64::from_bits(top), 4.0 - 2.0 * f64::EPSILON);
    let mid = urandom::distr::ziggurat::into_float_with_exponent(1 << 63, 0);
    assert_eq!(f64::from_bits(mid), 1.5);
}

fn use_layer(bits: u64, expected: usize) {
    assert_eq!(urandom::distr::ziggurat::layer(bits), expected);
}

#[test]
fn exponents_are_replaced() {
    use_exponents();
}

fn use_exponents() {
    let bits = urandom::distr::float01::replace_exponent_f64(1.75f64.to_bits(), 1022);
    assert_eq!(f64::from_bits(bits), 0.875);
    let bits = urandom::distr::float01::replace_exponent_f32(1.5f32.to_bits(), 125);
    assert_eq!(f32::from_bits(bits), 0.375);
}

#[test]
fn helpers_of_the_generators() {
    use_helpers();
}

fn use_helpers() {
    assert_eq!(urandom::rng::util::rotl64(0x8000_0000_0000_0001, 1), 3);
    assert_eq!(urandom::rng::chacha::rounds::rotl32(0x8000_0001, 4), 0x18);
    assert_eq!(urandom::rng::util::wide_mul(1 << 32, 1 << 32), (1, 0));
    assert_eq!(urandom::rng::util::low32(0x1122_3344_5566_7788), 0x5566_7788);
    assert_eq!(urandom::rng::util::high32(0x1122_3344_5566_7788), 0x1122_3344);
    assert_eq!(urandom::rng::util::le_byte(0x1122_3344_5566_7788, 0), 0x88);
    assert_eq!(urandom::rng::util::le_byte(0x1122_3344_5566_7788, 7), 0x11);
    assert_eq!(urandom::rng::util::u32_from_le(&[1, 2, 3, 4, 5], 1), 0x0504_0302);
    assert_eq!(urandom::rng::util::u64_from_le(&[1, 2, 3, 4, 5, 6, 7, 8], 0), 0x0807_0605_0403_0201);
    assert_eq!(urandom::rng::wyrand::rapid_mum(1 << 63, 4), (0, 2));
    assert_eq!(urandom::rng::wyrand::rapid_mix(u64::MAX, u64::MAX), 1 ^ (u64::MAX - 1));
    assert_eq!(urandom::rng::splitmix64::mix64(0), 0);
    assert_eq!(urandom::rng::chacha::slp::u32x4_add([1, 2, 3, u32::MAX], [1, 1, 1, 1]), [2, 3, 4, 0]);
    assert_eq!(urandom::rng::chacha::slp::u32x4_xor([1, 2, 3, 4], [1, 1, 1, 1]), [0, 3, 2, 5]);
    assert_eq!(urandom::rng::chacha::slp::u32x4_rol([1, 2, 3, 0x8000_0000], 1), [2, 4, 6, 1]);
    let mut state = [0u32; 16];
    state[12] = u32::MAX;
    state[13] = u32::MAX;
    urandom::rng::chacha::scalar::increment_counter(&mut state);
    assert_eq!(state[12..16], [0, 0, 1, 0]);
    state[12..16].copy_from_slice(&[u32::MAX; 4]);
    urandom::rng::chacha::scalar::increment_counter(&mut state);
    assert_eq!(state, [0u32; 16]);
}

#[test]
fn an_empty_buffer_is_always_served() {
    let mut none = [0u8; 0];
    assert_eq!(urandom::rng::getentropy(&mut none), Ok(()));
    let mut rand = System::<4>::new();
    assert_eq!(rand.fill_bytes(&mut none), Ok(()));
    let mut rand = System::<0>::new();
    assert_eq!(rand.fill_bytes(&mut none), Ok(()));
    // A block of 70 words takes two calls of the source, the second for six
    // words; all 70 are served before the next fetch.
    let mut rand = System::<70>::new();
    let mut words = Vec::new();
    for _ in 0..70 {
        words.push(rand.next_u32().unwrap());
    }
    words.sort();
    words.dedup();
    assert!(words.len() > 60);
}
