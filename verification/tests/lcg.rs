use hex_fps::lcg::WorldRng;

struct Reference {
    state: u64,
}

impl Reference {
    fn next_u32(&mut self) -> u32 {
        self.state = self
            .state
            .wrapping_mul(6364136223846793005)
            .wrapping_add(1442695040888963407);
        (self.state >> 33) as u32
    }
}

#[test]
fn default_sequence_matches_reference() {
    let mut rng = WorldRng::default();
    let mut reference = Reference { state: 0x9E37_79B9_7F4A_7C15 };
    for _ in 0..10_000 {
        assert_eq!(rng.next_u32(), reference.next_u32());
    }
}

#[test]
fn first_draw_exact() {
    let mut rng = WorldRng::default();
    let s: u64 = 0x9E37_79B9_7F4A_7C15u64
        .wrapping_mul(6364136223846793005)
        .wrapping_add(1442695040888963407);
    assert_eq!(rng.next_u32(), (s >> 33) as u32);
}

#[test]
fn range_is_modular_and_in_bounds() {
    let mut rng = WorldRng::default();
    let mut reference = Reference { state: 0x9E37_79B9_7F4A_7C15 };
    for i in 0..5_000u32 {
        let lo = i % 13;
        let hi = lo + 1 + i % 50;
        let v = rng.range(lo, hi);
        assert_eq!(v, lo + reference.next_u32() % (hi - lo));
        assert!(lo <= v && v < hi);
    }
}

#[test]
fn range_of_one_value() {
    let mut rng = WorldRng::default();
    for _ in 0..100 {
        assert_eq!(rng.range(9, 10), 9);
    }
}
