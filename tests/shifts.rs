use diffusion_search::log2::HasLog2;
use diffusion_search::shifts::{init_min_s2, min_s2, MAX_S1, MAX_TOTAL_SHIFT};

fn calc_min_s2(s1: u32) -> u32 {
    // To ensure x >> (s1 + (x >> s2)) has total shift <= m, need s2 >= 64 - log2(m + 1 - s1)
    64 - (MAX_TOTAL_SHIFT + 1 - s1).log2_floor() as u32
}

#[test]
fn shifts_test_max_shift() {
    let table = init_min_s2();
    for s1 in 0_u32..=MAX_S1 {
        let s2 = table[s1 as usize];
        println!("{}, {}", s1, s2);
        assert_eq!(s2, calc_min_s2(s1));
        let s = s1 + u64::MAX.wrapping_shr(s2) as u32;
        assert!(s <= MAX_TOTAL_SHIFT);
    }
}

#[test]
fn mrxsm_test_max_shift() {
    for s1 in 0_u32..=MAX_S1 {
        let s2 = min_s2(s1);
        println!("{}, {}", s1, s2);
        assert_eq!(s2, calc_min_s2(s1));
        let s = s1 + u64::MAX.wrapping_shr(s2) as u32;
        assert!(s <= MAX_TOTAL_SHIFT);
    }
}

#[test]
fn min_s2_table_ends() {
    let table = init_min_s2();
    assert_eq!(table[0], 58);
    assert_eq!(table[32], 59);
    assert_eq!(table[62], 63);
    assert_eq!(table.len(), 63);
}

#[test]
fn shift_bound_holds_for_every_valid_pair() {
    let words = [0_u64, 1, u64::MAX, 0x8000_0000_0000_0000, 0xfc00_0000_0000_0000];
    for s1 in 0_u32..=MAX_S1 {
        for s2 in min_s2(s1)..=63 {
            for &x in words.iter() {
                assert!(s1 as u64 + (x >> s2) <= 63);
            }
        }
    }
}
