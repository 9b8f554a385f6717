use diffusion_search::bitset::{get_set_bits, pop_count, pop_count64};

#[test]
fn test_pop_count() {
    for i in 0_u8..255 {
        assert_eq!(i.count_ones(), pop_count(i));
    }
}

#[test]
fn test_set_bits() {
    for x in 0_u8..255 {
        let bs = get_set_bits(x);
        let mut y = 0;
        for (i, b) in bs.iter().enumerate() {
            y += b << i;
        }
        assert_eq!(x as u32, y);
    }
}

#[test]
fn pop_count_of_words() {
    assert_eq!(pop_count64(0), 0);
    assert_eq!(pop_count64(u64::MAX), 64);
    assert_eq!(pop_count64(0x8000_0000_0000_0001), 2);
    assert_eq!(pop_count64(0x0123_4567_89ab_cdef), 0x0123_4567_89ab_cdef_u64.count_ones());
    assert_eq!(pop_count(255), 8);
}
