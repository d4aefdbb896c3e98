use chess_core::bit;

#[test]
fn scan_of_empty_is_zero() {
    assert_eq!(bit::scan(0), 0);
}

#[test]
fn scan_finds_the_lowest_bit() {
    assert_eq!(bit::scan(1), 0);
    assert_eq!(bit::scan(0b1000), 3);
    assert_eq!(bit::scan(0b1010_0000), 5);
    assert_eq!(bit::scan(1u64 << 63), 63);
    assert_eq!(bit::scan(u64::MAX), 0);
    for i in 0..64u8 {
        assert_eq!(bit::scan(1u64 << i), i);
        assert_eq!(bit::scan(u64::MAX << i), i);
    }
}

#[test]
fn count_of_full_and_empty() {
    assert_eq!(bit::count(0xFFFFFFFFFFFFFFFF), 64);
    assert_eq!(bit::count(0), 0);
}

#[test]
fn count_is_the_number_of_set_bits() {
    assert_eq!(bit::count(1), 1);
    assert_eq!(bit::count(0b1011), 3);
    assert_eq!(bit::count(0xFFFF00000000FFFF), 32);
    assert_eq!(bit::count(1u64 << 63), 1);
    let samples = [0x0123_4567_89AB_CDEFu64, 0x8000_0000_0000_0001, 0x5555_5555_5555_5555];
    for s in samples.iter() {
        assert_eq!(bit::count(*s) as u32, s.count_ones());
    }
}

#[test]
fn get_reads_one_bit() {
    assert_eq!(bit::get(0b100, 2), true);
    assert_eq!(bit::get(0b100, 1), false);
    assert_eq!(bit::get(1u64 << 63, 63), true);
    assert_eq!(bit::get(0, 0), false);
}

#[test]
fn set_is_idempotent() {
    let mut bb = 0u64;
    bit::set(&mut bb, 5);
    assert_eq!(bb, 0b10_0000);
    bit::set(&mut bb, 5);
    assert_eq!(bb, 0b10_0000);
    bit::set(&mut bb, 63);
    assert_eq!(bb, (1u64 << 63) | 0b10_0000);
    bit::set(&mut bb, 0);
    assert_eq!(bb, (1u64 << 63) | 0b10_0001);
}

#[test]
fn clear_is_idempotent() {
    let mut bb = 0b1011u64;
    bit::clear(&mut bb, 1);
    assert_eq!(bb, 0b1001);
    bit::clear(&mut bb, 1);
    assert_eq!(bb, 0b1001);
    bit::clear(&mut bb, 2);
    assert_eq!(bb, 0b1001);
    let mut full = u64::MAX;
    bit::clear(&mut full, 63);
    assert_eq!(full, u64::MAX >> 1);
}

#[test]
fn clear_last_drops_the_lowest_bit_only() {
    let mut bb = 0b1011_0000u64;
    bit::clear_last(&mut bb);
    assert_eq!(bb, 0b1010_0000);
    bit::clear_last(&mut bb);
    assert_eq!(bb, 0b1000_0000);
    bit::clear_last(&mut bb);
    assert_eq!(bb, 0);
}

#[test]
fn clear_last_of_empty_is_empty() {
    let mut bb = 0u64;
    bit::clear_last(&mut bb);
    assert_eq!(bb, 0);
}

#[test]
fn clear_last_walks_every_member() {
    let start = 0x8040_2010_0804_0201u64;
    let mut bb = start;
    let mut seen = 0u64;
    let mut steps = 0;
    while bb != 0 {
        let i = bit::scan(bb);
        assert!(bit::get(bb, i));
        bit::set(&mut seen, i);
        bit::clear_last(&mut bb);
        assert!(!bit::get(bb, i));
        steps += 1;
    }
    assert_eq!(seen, start);
    assert_eq!(steps, bit::count(start));
}
