use urandom::rng::{Mock, Xoshiro256};

#[test]
fn test_choose() {
    let mut rand = urandom::new().unwrap();

    let mut array = [0, 1, 2, 3, 4];
    let mut result = [0i32; 5];

    for _ in 0..10000 {
        result[*rand.choose_from(&array).unwrap()] += 1;
        result[*rand.choose_mut(&mut array).unwrap()] += 1;
    }

    let mean = (result[0] + result[1] + result[2] + result[3] + result[4]) / 5;
    let success = result.iter().all(|&x| (x - mean).abs() < 500);
    assert!(success, "mean: {mean}, result: {result:?}");
}

#[test]
fn choose_of_nothing_is_none() {
    let mut rand = Xoshiro256::from_seed(2);
    let mut empty: [u8; 0] = [];
    assert_eq!(rand.choose_from(&empty), None);
    assert_eq!(rand.choose_mut(&mut empty), None);
    let mut one = [9];
    assert_eq!(rand.choose_from(&one), Some(&9));
    *rand.choose_mut(&mut one).unwrap() = 3;
    assert_eq!(one, [3]);
}

#[test]
fn index_stays_in_bounds() {
    let mut rand = urandom::new().unwrap();
    for len in 1..12345 {
        let index = rand.index(len);
        assert!(index < len, "len:{len} index:{index} was not inbounds");
    }
    // A length of zero hands the raw word out.
    let mut rand = Mock::repeat(77);
    assert_eq!(rand.index(0), 77);
    let mut rand = Mock::repeat((1 << 63) + 1);
    assert_eq!(rand.index(10), 5);
}

#[test]
fn shuffle_keeps_the_elements() {
    let mut rand = Xoshiro256::from_seed(4);
    let mut array: Vec<u32> = (0..100).collect();
    rand.shuffle(&mut array);
    assert_ne!(array, (0..100).collect::<Vec<u32>>());
    let mut sorted = array.clone();
    sorted.sort();
    assert_eq!(sorted, (0..100).collect::<Vec<u32>>());

    rand.partial_shuffle(&mut array, 10);
    let mut sorted = array.clone();
    sorted.sort();
    assert_eq!(sorted, (0..100).collect::<Vec<u32>>());
    rand.partial_shuffle(&mut array, 1000);
    let mut sorted = array.clone();
    sorted.sort();
    assert_eq!(sorted, (0..100).collect::<Vec<u32>>());

    let mut none: [u8; 0] = [];
    rand.shuffle(&mut none);
    rand.partial_shuffle(&mut none, 3);
    let mut one = [1];
    rand.shuffle(&mut one);
    rand.partial_shuffle(&mut one, 3);
    assert_eq!(one, [1]);

    // The word 1 picks the first index: every step swaps with the front.
    let mut rand = Mock::repeat(1);
    let mut array = [1, 2, 3, 4];
    rand.shuffle(&mut array);
    assert_eq!(array, [2, 3, 4, 1]);
    let mut array = [1, 2, 3, 4];
    rand.partial_shuffle(&mut array, 2);
    assert_eq!(array, [1, 2, 3, 4]);
}

#[test]
fn coin_flip_is_the_top_bit() {
    let mut rand = Mock::slice(&[0x8000_0000, 0x7fff_ffff, 0xffff_ffff, 0]);
    assert!(rand.coin_flip());
    assert!(!rand.coin_flip());
    assert!(rand.coin_flip());
    assert!(!rand.coin_flip());
    let mut rand = Xoshiro256::from_seed(5);
    let heads = (0..100000).filter(|_| rand.coin_flip()).count();
    assert!((heads as i64 - 50000).abs() < 1000);
}

#[test]
fn split_forks_the_stream() {
    let mut rand = Xoshiro256::from_seed(10);
    let mut twin = rand.clone();
    let mut before = rand.split();
    assert_eq!(before.next_u64(), twin.next_u64());
    twin = Xoshiro256::from_seed(10);
    twin.jump();
    assert_eq!(rand.next_u64(), twin.next_u64());
}

#[test]
fn reservoir_fills_then_samples() {
    let mut rand = Mock::repeat((1 << 63) + 1);
    // the first slots are filled in order, and nothing is drawn
    assert_eq!(rand.reservoir_slot(0, 3), Some(0));
    assert_eq!(rand.reservoir_slot(2, 3), Some(2));
    // element 3 samples below 3 + 1 + 3 = 7: the word picks 3, which is no slot
    assert_eq!(rand.reservoir_slot(3, 3), None);
    let mut rand = Mock::repeat(1);
    assert_eq!(rand.reservoir_slot(3, 3), Some(0));
    assert_eq!(rand.reservoir_slot(0, 0), None);

    let mut rand = Mock::repeat((1 << 63) + 1);
    assert_eq!(rand.position(10), 5);
    assert_eq!(rand.position(0), 0);
}
