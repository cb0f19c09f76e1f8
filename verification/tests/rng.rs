use hex_fps::rng::Rng;

/// The generator as the game writes it, with `f32` arithmetic.
struct FloatRng(u64);

impl FloatRng {
    fn new(seed: u64) -> Self {
        FloatRng(seed | 1)
    }

    fn next_f32(&mut self) -> f32 {
        let mut x = self.0;
        x ^= x << 13;
        x ^= x >> 7;
        x ^= x << 17;
        self.0 = x;
        (x >> 40) as f32 / (1u32 << 24) as f32
    }

    fn range_i32(&mut self, low: i32, high: i32) -> i32 {
        low + (self.next_f32() * (high - low) as f32) as i32
    }
}

#[test]
fn next_u24_is_the_float_numerator() {
    let mut rng = Rng::new(0x9E37_79B9_7F4A_7C15);
    let mut reference = FloatRng::new(0x9E37_79B9_7F4A_7C15);
    for _ in 0..10_000 {
        let k = rng.next_u24();
        let f = reference.next_f32();
        assert!(k < (1 << 24));
        assert_eq!(k as f32 / 16_777_216.0, f);
        assert!((0.0..1.0).contains(&f));
    }
}

#[test]
fn first_draw_from_seed_one() {
    // State 1 steps to 0x4082_2041, whose top 24 bits are zero.
    let mut rng = Rng::new(0);
    assert_eq!(rng.next_u24(), 0);
    let mut reference = FloatRng::new(0);
    reference.next_f32();
    reference.next_f32();
    let expected = (reference.0 >> 40) as u32;
    assert_eq!(rng.next_u24(), expected);
}

#[test]
fn range_i32_matches_float_arithmetic_on_small_spans() {
    let spans = [(-3, 4), (0, 1), (0, 7), (-10, 10), (5, -5), (7, 7), (-100, 1000), (0, 1 << 24)];
    for seed in 0..200u64 {
        let mut rng = Rng::new(seed.wrapping_mul(0x2545_F491_4F6C_DD1D));
        let mut reference = FloatRng::new(seed.wrapping_mul(0x2545_F491_4F6C_DD1D));
        for &(low, high) in spans.iter() {
            assert_eq!(rng.range_i32(low, high), reference.range_i32(low, high), "seed {seed} span {low}..{high}");
        }
    }
}

#[test]
fn range_i32_matches_float_arithmetic_on_wide_spans() {
    // Spans beyond 2^24 make both the span and the product round.
    let spans = [
        (0, 16_777_217),
        (0, 16_777_219),
        (-1_000_000_000, 1_000_000_000),
        (i32::MIN, -1),
        (0, i32::MAX),
        (1_000_000_000, -1_000_000_000),
        (-7, 33_554_435),
    ];
    for i in 0..2_000u64 {
        let seed = i.wrapping_mul(0x9E37_79B9_7F4A_7C15);
        let mut rng = Rng::new(seed);
        let mut reference = FloatRng::new(seed);
        for &(low, high) in spans.iter() {
            assert_eq!(rng.range_i32(low, high), reference.range_i32(low, high), "seed {seed} span {low}..{high}");
        }
    }
}

#[test]
fn range_i32_stays_in_span() {
    let mut rng = Rng::new(42);
    for _ in 0..10_000 {
        let v = rng.range_i32(-3, 4);
        assert!((-3..4).contains(&v));
    }
    for _ in 0..1_000 {
        let v = rng.range_i32(10, -10);
        assert!(-10 < v && v <= 10);
    }
    for _ in 0..100 {
        assert_eq!(rng.range_i32(5, 5), 5);
    }
}

#[test]
fn same_seed_same_draws() {
    let mut a = Rng::new(0x1234_5678);
    let mut b = Rng::new(0x1234_5679);
    // The seed's lowest bit is forced on, so these two seeds coincide.
    for _ in 0..1_000 {
        assert_eq!(a.range_i32(-1000, 1000), b.range_i32(-1000, 1000));
    }
}

#[test]
fn range_i32_rounds_like_f32_not_like_exact_arithmetic() {
    // Over a wide span the f32 product is rounded before truncation; find a
    // draw where that gives a different integer than exact arithmetic.
    let span: i32 = 1_000_000_007;
    let mut found = 0;
    for i in 0..20_000u64 {
        let seed = i.wrapping_mul(0x9E37_79B9_7F4A_7C15);
        let mut probe = FloatRng::new(seed);
        let f = probe.next_f32();
        let k = (f * 16_777_216.0) as u128;
        let exact = (k * span as u128 >> 24) as i32;
        let float = (f * span as f32) as i32;
        let mut rng = Rng::new(seed);
        let got = rng.range_i32(0, span);
        assert_eq!(got, float);
        if exact != float {
            found += 1;
        }
    }
    assert!(found > 0);
}
