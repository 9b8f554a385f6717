use diffusion_search::log2::HasLog2;
use rand::{Rng, SeedableRng};

#[test]
fn test_log2_u32() {
    assert_eq!(31, u32::MAX.log2_floor());
    assert_eq!(32, u32::MAX.log2_ceil());
    assert_eq!(-1, 0u32.log2_floor());
    assert_eq!(-1, 0_u32.log2_ceil());
    assert_eq!(0, 1_u32.log2_floor());
    assert_eq!(0, 1_u32.log2_ceil());
    let mut rng = rand::rngs::StdRng::seed_from_u64(7);
    for s in 1..32 {
        let msb = 1_u32 << s;
        assert_eq!(s, msb.log2_floor());
        assert_eq!(s, msb.log2_ceil());
        for _ in 0..10 {
            let x = msb + rng.gen_range(1..msb);
            assert_eq!(s, x.log2_floor());
            assert_eq!(s + 1, x.log2_ceil());
        }
    }
}

#[test]
fn test_log2_u64() {
    assert_eq!(63, u64::MAX.log2_floor());
    assert_eq!(64, u64::MAX.log2_ceil());
    assert_eq!(-1, 0_u64.log2_floor());
    assert_eq!(-1, 0_u64.log2_ceil());
    assert_eq!(0, 1_u64.log2_floor());
    assert_eq!(0, 1_u64.log2_ceil());
    let mut rng = rand::rngs::StdRng::seed_from_u64(11);
    for s in 1..64 {
        let msb = 1_u64 << s;
        assert_eq!(s, msb.log2_floor());
        assert_eq!(s, msb.log2_ceil());
        for _ in 0..10 {
            let x = msb + rng.gen_range(1..msb);
            assert_eq!(s, x.log2_floor());
            assert_eq!(s + 1, x.log2_ceil());
        }
    }
}
