use fand::flt::Flt;

fn flt(x: f32) -> Flt {
    Flt { bits: x.to_bits() }
}

/// The result of the machine, with every value that is no number taken as one.
fn same(got: Flt, want: f32) -> bool {
    let got = f32::from_bits(got.bits);
    (got.is_nan() && want.is_nan()) || got.to_bits() == want.to_bits()
}

const EDGES: [u32; 30] = [
    0x0000_0000, 0x8000_0000, 0x0000_0001, 0x8000_0001, 0x0000_0002, 0x007F_FFFF, 0x0080_0000,
    0x0080_0001, 0x00FF_FFFF, 0x3F7F_FFFF, 0x3F80_0000, 0x3F80_0001, 0xBF80_0000, 0x3F00_0000,
    0x3EFF_FFFF, 0x4B7F_FFFF, 0x4B80_0000, 0x4B80_0001, 0x4F00_0000, 0x4F80_0000, 0x5F80_0000,
    0x7F7F_FFFE, 0x7F7F_FFFF, 0xFF7F_FFFF, 0x7F80_0000, 0xFF80_0000, 0x7FC0_0000, 0x3DCC_CCCD,
    0x3E80_0000, 0x42C8_0000,
];

fn random(state: &mut u32) -> u32 {
    *state ^= *state << 13;
    *state ^= *state >> 17;
    *state ^= *state << 5;
    *state
}

fn pairs() -> Vec<(f32, f32)> {
    let mut v = Vec::new();
    for a in EDGES {
        for b in EDGES {
            v.push((f32::from_bits(a), f32::from_bits(b)));
        }
    }
    let mut state = 0xDEAD_BEEF;
    for _ in 0..60_000 {
        v.push((f32::from_bits(random(&mut state)), f32::from_bits(random(&mut state))));
    }
    for _ in 0..60_000 {
        let near = random(&mut state);
        let far = near.wrapping_add(random(&mut state) % 0x0400_0000);
        v.push((f32::from_bits(near), f32::from_bits(far ^ (random(&mut state) & 0x8000_0000))));
    }
    v
}

#[test]
fn sums_are_those_of_the_machine() {
    for (a, b) in pairs() {
        assert!(same(flt(a).add(flt(b)), a + b), "{a:?} + {b:?}");
        assert!(same(flt(a).sub(flt(b)), a - b), "{a:?} - {b:?}");
    }
}

#[test]
fn products_are_those_of_the_machine() {
    for (a, b) in pairs() {
        assert!(same(flt(a).mul(flt(b)), a * b), "{a:?} * {b:?}");
    }
}

#[test]
fn quotients_are_those_of_the_machine() {
    for (a, b) in pairs() {
        assert!(same(flt(a).div(flt(b)), a / b), "{a:?} / {b:?}");
    }
}

#[test]
fn comparisons_are_those_of_the_machine() {
    for (a, b) in pairs() {
        assert_eq!(flt(a).lt(flt(b)), a < b, "{a:?} < {b:?}");
        assert_eq!(flt(a).le(flt(b)), a <= b, "{a:?} <= {b:?}");
        assert_eq!(flt(a).is_nan(), a.is_nan());
        assert_eq!(flt(a).is_finite(), a.is_finite());
        assert!(same(flt(a).neg(), -a));
        assert!(same(flt(a).abs(), a.abs()));
        if a != b {
            assert!(same(flt(a).min(flt(b)), a.min(b)), "min {a:?} {b:?}");
            assert!(same(flt(a).max(flt(b)), a.max(b)), "max {a:?} {b:?}");
        }
    }
}

#[test]
fn whole_numbers_are_those_of_the_machine() {
    let mut state = 0x1234_5678;
    for _ in 0..50_000 {
        let n = random(&mut state) >> (random(&mut state) % 32);
        assert!(same(Flt::from_u32(n), n as f32), "{n}");
        let w = u64::from(n) << (random(&mut state) % 32);
        assert!(same(Flt::from_u64(w), w as f32), "{w}");
        let x = f32::from_bits(random(&mut state));
        assert_eq!(flt(x).round_to_u32(), x.round() as u32, "{x:?}");
        assert_eq!(flt(x).trunc_to_u32(), x as u32, "{x:?}");
    }
    for x in [0.5f32, 1.5, 2.5, 0.49999997, 8388607.5, 16777215.0, 4294967300.0, -0.5, -1.5] {
        assert_eq!(flt(x).round_to_u32(), x.round() as u32, "{x:?}");
        assert_eq!(flt(x).trunc_to_u32(), x as u32, "{x:?}");
    }
}

#[test]
fn clamps_are_those_of_the_machine() {
    for (a, b) in pairs() {
        if a <= b {
            for x in [a, b, (a + b) / 2.0, -1.0, 1e30] {
                assert!(same(flt(x).clamp(flt(a), flt(b)), x.clamp(a, b)), "{x} {a} {b}");
            }
        }
    }
}
