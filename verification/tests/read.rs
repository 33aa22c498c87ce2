use urandom::rng::Read;

#[test]
fn test_next_u64() {
    // transmute from the target to avoid endianness concerns.
    let v = [
        0, 0, 0, 0, 0, 0, 0, 1, 0, 4, 0, 0, 3, 0, 0, 2, 5, 0, 0, 0, 0, 0, 0, 0u8,
    ];
    let mut rand = Read::new(&v[..]);

    assert_eq!(rand.next_u64(), 1 << 56);
    assert_eq!(rand.next_u64(), (2 << 56) + (3 << 32) + (4 << 8));
    assert_eq!(rand.next_u64(), 5);
}

#[test]
fn test_next_u32() {
    let v = [0u8, 0, 0, 1, 0, 0, 2, 0, 3, 0, 0, 0];
    let mut rand = Read::new(&v[..]);

    assert_eq!(rand.next_u32(), 1 << 24);
    assert_eq!(rand.next_u32(), 2 << 16);
    assert_eq!(rand.next_u32(), 3);
}

#[test]
fn read_test_fill_bytes() {
    let v = [1u8, 2, 3, 4, 5, 6, 7, 8];
    let mut w = [0u8; 8];

    let mut rand = Read::new(&v[..]);
    rand.fill_bytes(&mut w);

    assert!(v == w);
}

#[test]
fn read_mixes_words_and_bytes() {
    let v = [0x11u8, 0x22, 0x33, 0x44, 0x55, 0x66, 0x77, 0x88, 0x99, 0xaa, 0xbb, 0xcc, 0xdd];
    let mut rand = Read::new(&v[..]);
    assert_eq!(rand.next_u32(), 0x4433_2211);
    let mut w = [0u8; 1];
    rand.fill_bytes(&mut w);
    assert_eq!(w, [0x55]);
    rand.jump();
    assert_eq!(rand.next_u64(), 0xddcc_bbaa_9988_7766);
}
