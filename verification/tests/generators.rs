use urandom::rng::chacha::scalar;
use urandom::rng::chacha::slp::block;
use urandom::rng::chacha::{ChaChaCore, ChaChaState};
use urandom::rng::util::rng_fill_bytes;
use urandom::rng::{ChaCha12, ChaCha20, ChaCha8, Mock, SplitMix64, Wyrand, Xoshiro256};
use urandom::{Random, Rng};

fn check_fill_bytes<R: Rng + Clone>(master: &mut Random<R>) {
    check_fill_bytes_with(master, true);
}

fn check_fill_bytes_with<R: Rng + Clone>(master: &mut Random<R>, count_zeroes: bool) {
    master.next_u64();
    master.next_u64();
    master.next_u64();
    master.next_u32();

    let zeroes = [0u8; 256];
    let mut old = [0u8; 256];
    for i in 1..256 {
        let mut rand = master.clone();
        let mut buf = [0u8; 256];
        rand.fill_bytes(&mut buf[..i]);

        // Check the buffer is correctly filled
        let nzeroes = buf[..i].iter().filter(|&&b| b == 0).count();
        assert!(!count_zeroes || nzeroes < 4, "too many zeroes in {:?}", &buf[..i]);
        assert!(i < 16 || nzeroes < i / 2, "too many zeroes in {:?}", &buf[..i]);

        // Check OOB writes
        assert_eq!(buf[i..], zeroes[i..]);

        // Check the output of fill_bytes is consistent
        assert_eq!(buf[..i - 1], old[..i - 1]);
        old = buf;
    }
}

#[test]
fn splitmix64_seed_42_first_word() {
    let mut rand = SplitMix64::from_seed(42);
    assert_eq!(rand.next_u32(), 3184996902);
}

#[test]
fn xoshiro256_seed_42_first_word() {
    let mut rand = Xoshiro256::from_seed(42);
    assert_eq!(rand.next_u32(), 368317477);
    let mut rand = urandom::seeded(42);
    assert_eq!(rand.next_u32() as i32, 368317477);
}

#[test]
fn wyrand_seed_42_first_word() {
    let mut rand = Wyrand::from_seed(42);
    assert_eq!(rand.next_u32(), 3396458620);
}

#[test]
fn chacha12_seed_42_first_word() {
    let mut rand = ChaCha12::from_seed(42);
    assert_eq!(rand.next_u32() as i32, 631540493);
}

#[test]
fn splitmix64_known_answers() {
    // Reference values of the splitting mixer for the seed 1234567.
    let mut rand = SplitMix64::from_seed(1234567);
    assert_eq!(rand.next_u64(), 6457827717110365317);
    assert_eq!(rand.next_u64(), 3203168211198807973);
    assert_eq!(rand.next_u64(), 9817491932198370423);
    assert_eq!(rand.next_u64(), 4593380528125082431);
    assert_eq!(rand.next_u64(), 16408922859458223821);
}

#[test]
fn seed_zero_is_not_degenerate() {
    let mut a = SplitMix64::from_seed(0);
    let mut b = Xoshiro256::from_seed(0);
    let mut c = Wyrand::from_seed(0);
    let mut d = ChaCha20::from_seed(0);
    for rand in [a.next_u64(), b.next_u64(), c.next_u64(), d.next_u64()] {
        assert_ne!(rand, 0);
    }
    assert_ne!(a.next_u64(), a.next_u64());
    assert_ne!(b.next_u64(), b.next_u64());
    assert_ne!(c.next_u64(), c.next_u64());
    assert_ne!(d.next_u64(), d.next_u64());
}

#[test]
fn fill_bytes_is_consistent_for_every_generator() {
    check_fill_bytes(&mut SplitMix64::from_seed(7));
    check_fill_bytes(&mut Xoshiro256::from_seed(7));
    check_fill_bytes(&mut Wyrand::from_seed(7));
    check_fill_bytes(&mut ChaCha8::from_seed(7));
    check_fill_bytes(&mut ChaCha12::from_seed(7));
    check_fill_bytes(&mut ChaCha20::from_seed(7));
}

#[test]
fn fill_bytes_of_entropy_seeded_generators() {
    // Seeds of the system differ from run to run, so the zeroes are counted
    // with a margin that no run exceeds.
    check_fill_bytes_with(&mut urandom::new().unwrap(), false);
    check_fill_bytes_with(&mut urandom::csprng().unwrap(), false);
    check_fill_bytes_with(&mut SplitMix64::new().unwrap(), false);
    check_fill_bytes_with(&mut Wyrand::new().unwrap(), false);
}

#[test]
fn fill_bytes_packs_words_little_endian() {
    let mut words = Xoshiro256::from_seed(99);
    let mut bytes = words.clone();
    let mut buf = [0u8; 21];
    bytes.fill_bytes(&mut buf);
    let a = words.next_u64().to_le_bytes();
    let b = words.next_u64().to_le_bytes();
    let c = words.next_u64().to_le_bytes();
    assert_eq!(buf[0..8], a);
    assert_eq!(buf[8..16], b);
    assert_eq!(buf[16..21], c[0..5]);
    // one word for every eight bytes, begun or complete
    assert_eq!(bytes.next_u64(), words.next_u64());
}

#[test]
fn rng_fill_bytes_of_a_mock() {
    let mut rand = Mock::slice(&[0x0807060504030201, 0x100f0e0d0c0b0a09]).into_inner();
    let mut buf = [0u8; 11];
    rng_fill_bytes(&mut rand, &mut buf);
    assert_eq!(buf, [1, 2, 3, 4, 5, 6, 7, 8, 9, 10, 11]);
    let mut empty = [0u8; 0];
    rng_fill_bytes(&mut rand, &mut empty);
    assert_eq!(rand.next_u64(), 0x0807060504030201);
}

#[test]
fn mock_hands_out_its_words() {
    let mut rand = Mock::slice(&[1, 2, 13, 42]);
    assert_eq!(rand.next_u64(), 1);
    assert_eq!(rand.next_u64(), 2);
    assert_eq!(rand.next_u64(), 13);
    assert_eq!(rand.next_u64(), 42);
    // and starts over
    assert_eq!(rand.next_u64(), 1);
    assert_eq!(rand.next_u32(), 2);

    let mut rand = Mock::repeat(42);
    assert_eq!(rand.next_u64(), 42);
    assert_eq!(rand.next_u64(), 42);
    assert_eq!(rand.next_u64(), 42);

    let mut rand = Mock::slice(&[0x1_0000_0007]);
    assert_eq!(rand.next_u32(), 7);
    rand.jump();
    assert_eq!(rand.next_u64(), 0x1_0000_0007);

    let mut rand = Mock::slice(&[]);
    assert_eq!(rand.next_u64(), 0);
}

#[test]
fn unit_floats_lie_in_one_to_two() {
    let mut rand = Xoshiro256::from_seed(1);
    for _ in 0..1000 {
        let x = f32::from_bits(rand.next_f32_bits());
        assert!(x >= 1.0 && x < 2.0);
        let y = f64::from_bits(rand.next_f64_bits());
        assert!(y >= 1.0 && y < 2.0);
    }
    let mut rand = Mock::slice(&[0, !0]);
    assert_eq!(f64::from_bits(rand.next_f64_bits()), 1.0);
    assert_eq!(f64::from_bits(rand.next_f64_bits()), 2.0 - f64::EPSILON);
    assert_eq!(f32::from_bits(rand.next_f32_bits()), 1.0);
    assert_eq!(f32::from_bits(rand.next_f32_bits()), 2.0 - f32::EPSILON);
    assert_eq!(urandom::rng::util::unit_f32_bits(0x8000_0000), 1.5f32.to_bits());
    assert_eq!(urandom::rng::util::unit_f64_bits(0x4000_0000_0000_0000), 1.25f64.to_bits());
}

#[test]
fn splitmix64_jump_is_two_to_the_forty_steps() {
    // 2^40 steps are too many to take; 2^16 jumps of a generator whose
    // increment is shifted down by 16 bits are not.
    let mut jumped = SplitMix64::from_seed(5);
    jumped.jump();
    let mut stepped = SplitMix64::from_seed(5u64.wrapping_add(0x9e3779b97f4a7c15u64.wrapping_mul(1 << 40)));
    assert_eq!(jumped.next_u64(), stepped.next_u64());
    let mut jumped = Wyrand::from_seed(5);
    jumped.jump();
    let mut stepped = Wyrand::from_seed(5u64.wrapping_add(0x2d358dccaa6c78a5u64.wrapping_mul(1 << 40)));
    assert_eq!(jumped.next_u64(), stepped.next_u64());
}

#[test]
fn jumped_clones_do_not_overlap() {
    fn check<R: Rng + Clone>(mut rand: Random<R>) {
        let mut ahead = rand.split();
        // `split` hands out the generator as it stood; `rand` has jumped.
        let here: Vec<u64> = (0..1000).map(|_| ahead.next_u64()).collect();
        let there: Vec<u64> = (0..1000).map(|_| rand.next_u64()).collect();
        assert_ne!(here, there);
        let common = here.iter().filter(|word| there.contains(word)).count();
        assert_eq!(common, 0);
    }
    check(SplitMix64::from_seed(3));
    check(Xoshiro256::from_seed(3));
    check(Wyrand::from_seed(3));
    check(ChaCha12::from_seed(3));
}

#[test]
fn xoshiro256_jump_known_answer() {
    // The jump of the reference implementation, on the state 1, 2, 3, 4.
    let mut rand = Xoshiro256::from_state([1, 2, 3, 4]);
    assert_eq!(rand.next_u64(), 41943041);
    assert_eq!(rand.next_u64(), 58720359);
    assert_eq!(rand.next_u64(), 3588806011781223);
    let mut rand = Xoshiro256::from_state([1, 2, 3, 4]);
    let mut same = Xoshiro256::from_state([1, 2, 3, 4]);
    rand.jump();
    same.jump();
    assert_eq!(rand.next_u64(), same.next_u64());
    let mut fresh = Xoshiro256::from_state([1, 2, 3, 4]);
    assert_ne!(rand.next_u64(), fresh.next_u64());
}

#[test]
fn chacha_words_match_the_block() {
    let mut state = ChaChaState::<20>::new([0; 8], 0, 0);
    assert_eq!(state.get_counter(), 0);
    assert_eq!(state.get_stream(), 0);
    state.set_counter(0x1_0000_0002);
    state.set_stream(0x3_0000_0004);
    assert_eq!(
        state.get_state(),
        [
            [0x61707865, 0x3320646e, 0x79622d32, 0x6b206574],
            [0; 4],
            [0; 4],
            [2, 1, 4, 3]
        ]
    );
    let next = state.add_counter(u64::MAX);
    assert_eq!(next.get_counter(), 0x1_0000_0001);
    assert_eq!(next.get_stream(), 0x3_0000_0004);

    // The generator with the all-zero key reads the test vector word by word.
    let mut rand = ChaCha20::from_bytes(&[0u8; 48]);
    assert_eq!(rand.next_u32(), 0xade0b876);
    assert_eq!(rand.next_u32(), 0x903df1a0);
    assert_eq!(rand.next_u64(), 0x28bd8653_e56a5d40);
    let mut bytes = [0u8; 3];
    rand.fill_bytes(&mut bytes);
    assert_eq!(bytes, [0xbd, 0xd2, 0x19]);
    // an unaligned read
    assert_eq!(rand.next_u32(), 0xed8da0b8);
}

#[test]
fn chacha_jump_changes_the_stream() {
    let mut rand = ChaCha20::from_bytes(&[0u8; 48]);
    let mut other = rand.clone();
    other.jump();
    let mut third = ChaCha20::from_bytes(&{
        let mut bytes = [0u8; 48];
        bytes[40] = 1;
        bytes
    });
    assert_eq!(other.next_u64(), third.next_u64());
    assert_ne!(rand.next_u64(), other.next_u64());
}

#[test]
fn chacha_four_blocks_at_once_are_four_blocks_in_turn() {
    let key = [1u32, 2, 3, 4, 5, 6, 7, 8];
    let mut state = ChaChaCore::new(key, u64::MAX - 1, 9);
    let mut four = [0u32; 64];
    block(&mut state, &mut four, 20);
    assert_eq!(state.get_counter(), 2);
    let mut flat = [
        0x61707865, 0x3320646e, 0x79622d32, 0x6b206574, 1, 2, 3, 4, 5, 6, 7, 8, 0xffff_fffe,
        0xffff_ffff, 9, 0,
    ];
    let mut one = [0u32; 16];
    scalar::block(&mut flat, &mut one);
    assert_eq!(four[0..16], one);
    scalar::block(&mut flat, &mut one);
    assert_eq!(four[16..32], one);
    // the flat state counts on 128 bits, the four-block state wraps at 64
    assert_eq!(flat[12..16], [0, 0, 10, 0]);
}

#[test]
fn from_rng_takes_the_parent_words() {
    let mut parent = SplitMix64::from_seed(11);
    let mut twin = parent.clone();
    let mut child = SplitMix64::from_rng(&mut parent);
    let mut expected = SplitMix64::from_seed(twin.next_u64());
    assert_eq!(child.next_u64(), expected.next_u64());

    let mut child = Xoshiro256::from_rng(&mut parent);
    let words = [twin.next_u64(), twin.next_u64(), twin.next_u64(), twin.next_u64()];
    let mut expected = Xoshiro256::from_state(words);
    assert_eq!(child.next_u64(), expected.next_u64());

    let mut secure = ChaCha12::from_seed(1);
    let mut child = ChaCha20::from_rng(&mut secure);
    let mut again = ChaCha20::from_rng(&mut ChaCha12::from_seed(1));
    assert_eq!(child.next_u64(), again.next_u64());
}

#[test]
fn xoshiro256_seeds_are_never_all_zero() {
    // The seed whose first expanded word is zero: the mixer maps zero to
    // zero, and the state before the first word is the seed plus the gamma.
    let seed = 0u64.wrapping_sub(0x9e3779b97f4a7c15);
    let mut master = SplitMix64::from_seed(seed);
    assert_eq!(master.next_u64(), 0);
    let mut rand = Xoshiro256::from_seed(seed);
    let words: Vec<u64> = (0..100).map(|_| rand.next_u64()).collect();
    assert!(words.iter().any(|&word| word != 0));
    let mut sorted = words.clone();
    sorted.sort();
    sorted.dedup();
    assert_eq!(sorted.len(), 100);
}

#[test]
fn block_cursor_stays_valid() {
    // Words and bytes in turn, across the end of a block.
    let mut rand = ChaCha8::from_seed(1);
    let mut twin = ChaCha8::from_seed(1);
    let mut all = [0u8; 1024];
    twin.fill_bytes(&mut all[..255]);
    let mut at = 0;
    for step in 0..60 {
        if step % 3 == 0 {
            let mut bytes = [0u8; 5];
            rand.fill_bytes(&mut bytes);
            if at + 5 <= 255 {
                assert_eq!(bytes, all[at..at + 5]);
            }
            at += 5;
        } else {
            let word = rand.next_u32();
            if at + 4 <= 255 {
                assert_eq!(word.to_le_bytes(), all[at..at + 4]);
            }
            at += 4;
        }
    }
}
