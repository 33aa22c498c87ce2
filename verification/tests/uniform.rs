use urandom::distr::uniform::integer::{sample32, sample64, wmul32, wmul64, REJECTION_LIMIT};
use urandom::distr::{Alnum, Bernoulli, Choose, Dice, Distribution, Float01, UniformError, UniformInt};
use urandom::rng::{Mock, Xoshiro256};

#[test]
fn tests_test_yolo() {
    let mut rand = urandom::new().unwrap();
    for _ in 0..10000 {
        let mut low: i16 = rand.next_u32() as i16;
        let mut high: i16 = rand.next_u32() as i16;
        if high < low {
            let tmp = low;
            low = high;
            high = tmp;
        }
        let value = rand.uniform_inclusive(low, high);
        assert!(value >= low && value <= high);
        if low != high {
            let value = rand.uniform(low, high);
            assert!(value >= low && value < high);
        }
    }
}

#[test]
fn int_test_yolo() {
    let mut rng = urandom::new().unwrap();
    for _ in 0..10000 {
        let mut low: i16 = rng.next_u32() as i16;
        let mut high: i16 = rng.next_u32() as i16;
        if high < low {
            let tmp = low;
            low = high;
            high = tmp;
        }
        let value = rng.sample(&UniformInt::new_inclusive(low, high));
        assert!(value >= low && value <= high);
        if low != high {
            let value = rng.range(low, high);
            assert!(value >= low && value < high);
        }
    }
}

#[test]
fn tests_test_bias() {
    let distr = UniformInt::new_inclusive(0u32, 0xC0000000);
    let mut rand = urandom::new().unwrap();
    let mut buckets = [0u32; 3];

    for _ in 0..100000 {
        let value = rand.sample(&distr);
        if value < 0x40000000 {
            buckets[0] += 1;
        } else if value < 0x80000000 {
            buckets[1] += 1;
        } else if value <= 0xC0000000 {
            buckets[2] += 1;
        } else {
            panic!("value: {:#x}", value);
        }
    }

    let mean = (buckets[0] as i64 + buckets[1] as i64 + buckets[2] as i64) / 3;
    let pass = buckets.iter().all(|&odd| (odd as i64 - mean).abs() < 1000);
    println!("mean:{mean} buckets:{buckets:?} pass:{pass}");
    assert!(pass);
}

#[test]
fn tests_test_edges_large() {
    let distr = UniformInt::new_inclusive(u32::MIN, u32::MAX);
    let mut rand = urandom::new().unwrap();
    let mut zeros = 0;
    for _ in 0..100000 {
        if rand.sample(&distr) == 0 {
            zeros += 1;
        }
    }
    assert!(zeros < 5, "found {zeros} zero samples!");
}

#[test]
fn tests_test_edges_small() {
    let distr1 = UniformInt::new_inclusive(10, 10);
    let distr2 = UniformInt::new(23, 24);
    let mut rand = urandom::new().unwrap();
    for _ in 0..100 {
        let value1: i32 = rand.sample(&distr1);
        assert_eq!(value1, 10);
    }
    for _ in 0..100 {
        let value2: i32 = rand.sample(&distr2);
        assert_eq!(value2, 23);
    }
}

#[test]
fn empty_ranges_are_refused() {
    assert_eq!(UniformInt::try_new(5u8, 5).err(), Some(UniformError::EmptyRange));
    assert_eq!(UniformInt::try_new(6i64, 5).err(), Some(UniformError::EmptyRange));
    assert_eq!(UniformInt::try_new_inclusive(6usize, 5).err(), Some(UniformError::EmptyRange));
    assert!(UniformInt::try_new_inclusive(5isize, 5).is_ok());
    assert!(UniformInt::try_new(i8::MIN, i8::MAX).is_ok());
    assert!(UniformInt::try_new_inclusive(i64::MIN, i64::MAX).is_ok());
    assert_ne!(UniformError::EmptyRange, UniformError::NonFinite);
}

#[test]
fn wide_multiplication() {
    assert_eq!(wmul32(0xffff_ffff, 0xffff_ffff), (0xffff_fffe, 1));
    assert_eq!(wmul32(0x8000_0000, 6), (3, 0));
    assert_eq!(wmul64(u64::MAX, u64::MAX), (u64::MAX - 1, 1));
    assert_eq!(wmul64(1 << 63, 10), (5, 0));
    assert_eq!(wmul64(3, 4), (0, 12));
}

#[test]
fn lemire_turns_down_the_lowest_products() {
    // For six values 2^64 mod 6 = 4 words are turned down: those whose
    // product has a lower half below 4. The words 0 and 2^63 are two of them,
    // 2^63 + 1 is none.
    let mut rand = Mock::slice(&[0, 1 << 63, (1 << 63) + 1, 7]);
    assert_eq!(sample64(&mut rand, 6), 3);
    assert_eq!(rand.next_u64(), 7);
    // 2^32 mod 6 = 4 as well; the mock hands out the lower half of a word.
    let mut rand = Mock::slice(&[0, 0x8000_0000, 0x8000_0001, 7]);
    assert_eq!(sample32(&mut rand, 6), 3);
    assert_eq!(rand.next_u64(), 7);
    // Zero values stand for the whole width: the word itself.
    let mut rand = Mock::slice(&[0x1234_5678_9abc_def0]);
    assert_eq!(sample64(&mut rand, 0), 0x1234_5678_9abc_def0);
    assert_eq!(sample32(&mut rand, 0), 0x9abc_def0);
    // A power of two turns nothing down.
    let mut rand = Mock::repeat(0);
    assert_eq!(sample64(&mut rand, 1 << 20), 0);
    assert_eq!(REJECTION_LIMIT, u64::MAX);
}

#[test]
fn uniform_int_places_the_candidate() {
    // The top of the word picks the value: 2^63 is the middle of the range.
    let mut rand = Mock::repeat((1 << 63) + 1);
    assert_eq!(rand.uniform(-10i64, 10), 0);
    assert_eq!(rand.uniform_inclusive(100u64, 101), 101);
    assert_eq!(rand.uniform(0usize, 4), 2);
    assert_eq!(rand.uniform(-4isize, 0), -2);
    assert_eq!(rand.uniform(i32::MIN, i32::MAX), -1);
    let mut rand = Mock::repeat(0x8000_0001);
    assert_eq!(rand.uniform(-100i8, 100), 0);
    assert_eq!(rand.uniform(0u8, 255), 127);
    assert_eq!(rand.uniform(-2i16, 2), 0);
    assert_eq!(rand.uniform(1000u16, 1002), 1001);
    // The whole type takes the lowest bits of the word.
    let mut rand = Mock::repeat(0x0123_4567_89ab_cdef);
    assert_eq!(rand.uniform_inclusive(u8::MIN, u8::MAX), 0xef);
    assert_eq!(rand.uniform_inclusive(i8::MIN, i8::MAX), 0xefu8 as i8);
    assert_eq!(rand.uniform_inclusive(u16::MIN, u16::MAX), 0xcdef);
    assert_eq!(rand.uniform_inclusive(u32::MIN, u32::MAX), 0x89ab_cdef);
    assert_eq!(rand.uniform_inclusive(i32::MIN, i32::MAX), 0x89ab_cdefu32 as i32);
    assert_eq!(rand.uniform_inclusive(u64::MIN, u64::MAX), 0x0123_4567_89ab_cdef);
    assert_eq!(rand.uniform_inclusive(i64::MIN, i64::MAX), 0x0123_4567_89ab_cdef);
    assert_eq!(rand.uniform_inclusive(usize::MIN, usize::MAX), 0x0123_4567_89ab_cdefu64 as usize);
}

#[test]
fn uniform_int_stays_in_range_for_every_type() {
    let mut rand = Xoshiro256::from_seed(1);
    for _ in 0..100000 {
        let v = rand.uniform(-3i8, 3);
        assert!(v >= -3 && v < 3);
        let v = rand.uniform(250u8, 255);
        assert!(v >= 250 && v < 255);
        let v = rand.uniform(i64::MIN, i64::MIN + 3);
        assert!(v >= i64::MIN && v < i64::MIN + 3);
        let v = rand.uniform(u64::MAX - 3, u64::MAX);
        assert!(v >= u64::MAX - 3 && v < u64::MAX);
        let v = rand.uniform_inclusive(isize::MAX - 1, isize::MAX);
        assert!(v >= isize::MAX - 1);
    }
    let constant = UniformInt::constant(7u32, 3);
    for _ in 0..1000 {
        let v = rand.sample(&constant);
        assert!(v >= 7 && v < 10);
    }
}

#[test]
fn float01_test_yolo() {
    let mut rand = urandom::new().unwrap();
    for _ in 0..10000 {
        let bits = Float01.sample_f32(&mut rand);
        let float = f32::from_bits(bits);
        assert!(float > 0.0 && float < 1.0, "float({float}) bits({bits:#x})");
    }
    for _ in 0..10000 {
        let bits: u64 = Float01.sample(&mut rand);
        let float = f64::from_bits(bits);
        assert!(float > 0.0 && float < 1.0, "double({float}) bits({bits:#x})");
    }
}

#[test]
fn float01_test_edges() {
    let mut rand = Mock::slice(&[0, 0, !0, !0]);
    let low_bits: u64 = rand.sample(&Float01);
    let low_float = f64::from_bits(low_bits);
    let high_bits: u64 = rand.sample(&Float01);
    let high_float = f64::from_bits(high_bits);
    assert!(low_float > 0.0 && low_float < 1.0, "double({low_float}) bits({low_bits:#x})");
    assert!(high_float > 0.0 && high_float < 1.0, "double({high_float}) bits({high_bits:#x})");
    assert_eq!(low_float, 2.0f64.powi(-65));
    assert_eq!(high_float, 1.0 - f64::EPSILON / 2.0);

    let mut rand = Mock::slice(&[0, 0, !0, !0]);
    let low = f32::from_bits(Float01.sample_f32(&mut rand));
    let high = f32::from_bits(Float01.sample_f32(&mut rand));
    assert_eq!(low, 2.0f32.powi(-65));
    assert_eq!(high, 1.0 - f32::EPSILON / 2.0);

    // One leading zero halves the float: 0.25 + mantissa.
    let mut rand = Mock::slice(&[1 << 62, 1 << 63]);
    let bits: u64 = rand.sample(&Float01);
    assert_eq!(f64::from_bits(bits), 0.375);
}

#[test]
fn bernoulli_test_trivial() {
    let mut rand = urandom::new().unwrap();
    let always_false = Bernoulli::from_bits(0.0f64.to_bits());
    let always_true = Bernoulli::from_bits(1.0f64.to_bits());
    for _ in 0..5 {
        assert_eq!(rand.sample::<bool, _>(&always_false), false);
        assert_eq!(rand.sample::<bool, _>(&always_true), true);
        assert_eq!(Distribution::<bool, _>::sample(&always_false, &mut rand), false);
        assert_eq!(Distribution::<bool, _>::sample(&always_true, &mut rand), true);
    }
}

#[test]
fn bernoulli_compares_as_floats_do() {
    let ps = [
        0.0, -0.0, 1.0, -1.0, 0.5, 0.25, 1e-300, 0.999999, 1.5, f64::INFINITY, f64::NEG_INFINITY,
        f64::NAN, -f64::NAN, f64::MIN_POSITIVE, 5e-324, f64::MAX, f64::MIN,
    ];
    let mut rand = Xoshiro256::from_seed(17);
    for p in ps {
        let distr = Bernoulli::from_bits(p.to_bits());
        assert_eq!(distr.to_bits(), p.to_bits());
        for _ in 0..2000 {
            let mut twin = rand.clone();
            let x: u64 = Float01.sample(&mut twin);
            let expected = f64::from_bits(x) <= p;
            assert_eq!(rand.sample(&distr), expected, "p = {p}");
        }
    }
    let half = Bernoulli::from_bits(0.5f64.to_bits());
    let heads = (0..100000).filter(|_| rand.sample(&half)).count();
    assert!((heads as i64 - 50000).abs() < 1000);
}

#[test]
fn dice_rolls_its_sides() {
    let mut rand = Xoshiro256::from_seed(6);
    let mut seen = [0u32; 7];
    for _ in 0..60000 {
        let side = rand.sample(&Dice::d6());
        assert!(side >= 1 && side <= 6);
        seen[side as usize] += 1;
    }
    for side in 1..=6 {
        assert!((seen[side] as i64 - 10000).abs() < 500);
    }
    for (dice, sides) in [
        (Dice::d4(), 4),
        (Dice::d8(), 8),
        (Dice::d10(), 10),
        (Dice::d20(), 20),
        (Dice::new(1), 1),
        (Dice::new(255), 255),
    ] {
        let mut top = 0;
        for _ in 0..10000 {
            let side: i32 = rand.sample(&dice);
            assert!(side >= 1 && side <= sides);
            top = top.max(side);
        }
        assert_eq!(top, sides);
    }
    let mut rand = Mock::repeat(0x8000_0001);
    assert_eq!(rand.sample(&Dice::d6()), 4);
}

#[test]
fn alnum_gives_letters_and_digits() {
    let mut rand = Xoshiro256::from_seed(8);
    let mut seen = std::collections::BTreeSet::new();
    for _ in 0..10000 {
        let c: char = rand.sample(&Alnum);
        assert!(c.is_ascii_alphanumeric());
        seen.insert(c);
    }
    assert_eq!(seen.len(), 62);
    // The upper six bits pick: 0 is '0', 61 is 'z', 62 and 63 pick nothing.
    let mut rand = Mock::slice(&[0, 61 << 26, 62 << 26, 63 << 26, 10 << 26, 36 << 26]);
    assert_eq!(rand.sample(&Alnum), '0');
    assert_eq!(rand.sample(&Alnum), 'z');
    assert_eq!(rand.sample(&Alnum), 'A');
    assert_eq!(rand.sample(&Alnum), 'a');
}

#[test]
fn choose_test_yolo() {
    let mut rng = urandom::new().unwrap();
    let elements = [0; 100];
    // Test for various slice lengths
    for n in 1..100 {
        // Test for out of bounds panics
        let distr = Choose::new(&elements[..n]);
        for _ in 0..1000 {
            let _ = rng.sample(&distr);
        }
    }
    let letters = ['a', 'b', 'c', 'd'];
    let mut rand = Mock::repeat((1 << 63) + 1);
    assert_eq!(rand.sample(&Choose::new(&letters)), &'c');
}

#[test]
fn int_test_bias() {
    let distr = UniformInt::new_inclusive(0u32, 0xC0000000);
    println!("distr: {:#x?}", distr);

    let mut rng = urandom::new().unwrap();
    let mut buckets = [0u32; 3];

    for _ in 0..10000 {
        let value = rng.sample(&distr);

        if value < 0x40000000 {
            buckets[0] += 1;
        } else if value < 0x80000000 {
            buckets[1] += 1;
        } else if value <= 0xC0000000 {
            buckets[2] += 1;
        } else {
            panic!("value: {:#x}", value);
        }
    }

    let mean = (buckets[0] as i64 + buckets[1] as i64 + buckets[2] as i64) / 3;
    let pass = buckets.iter().all(|&odd| (odd as i64 - mean).abs() < 1000);
    println!("mean:{} buckets:{:?} pass:{}", mean, buckets, pass);
    assert!(pass);
}

#[test]
fn int_test_edges_large() {
    let distr = UniformInt::new_inclusive(u32::MIN, u32::MAX);
    println!("distr: {:#x?}", distr);
    let mut rng = urandom::new().unwrap();
    let mut zeros = 0;
    for _ in 0..10000 {
        let value = rng.sample(&distr);
        if value == 0 {
            zeros += 1;
        }
    }
    assert!(zeros < 5, "found {} zero samples!", zeros);
}

#[test]
fn int_test_edges_small() {
    let distr1 = UniformInt::new_inclusive(10, 10);
    let distr2 = UniformInt::new(23, 24);
    let mut rng = urandom::new().unwrap();
    for _ in 0..100 {
        let value1: i32 = rng.sample(&distr1);
        let value2: i32 = rng.sample(&distr2);
        assert_eq!(value1, 10);
        assert_eq!(value2, 23);
    }
}
