use archipelago_game::palette::{faction_color, Rgb, Unit01, PALETTE_SIZE};
use archipelago_game::quantity::Quantity;
use archipelago_game::ranking::{at_percent, sorted};
use archipelago_game::text::{decimal_text, join, quote, same_text};

fn q(x: f32) -> Quantity {
    Quantity { bits: x.to_bits() }
}

fn share(x: f32) -> f32 {
    f32::from_bits(Unit01::new(q(x)).get().bits)
}

#[test]
fn quantities_are_written_like_numbers() {
    let samples = [
        0.0f32, -0.0, 0.5, 1.5, 2.5, -2.5, 0.05, 0.25, 0.125, 0.0004, 1.0, 9.999, 99.95, 123.456, 1e7, 16777216.0, 3.4e38,
        -3.4e38, 1e-45, 1.17e-38, 0.1, 0.2, 0.3, 12.345, 1234567.9, f32::INFINITY, f32::NEG_INFINITY, f32::NAN,
    ];
    for x in samples {
        assert_eq!(q(x).fixed_text(0), format!("{x:.0}"), "{x:?}");
        assert_eq!(q(x).fixed_text(1), format!("{x:.1}"), "{x:?}");
        assert_eq!(q(x).fixed_text(2), format!("{x:.2}"), "{x:?}");
        assert_eq!(q(x).fixed_text(3), format!("{x:.3}"), "{x:?}");
    }
}

#[test]
fn many_quantities_are_written_like_numbers() {
    let mut bits: u32 = 12345;
    for _ in 0..20000 {
        bits = bits.wrapping_mul(1664525).wrapping_add(1013904223);
        let x = f32::from_bits(bits);
        assert_eq!(q(x).fixed_text(2), format!("{x:.2}"), "{bits:x}");
        assert_eq!(q(x).fixed_text(0), format!("{x:.0}"), "{bits:x}");
    }
}

#[test]
fn quantities_compare_like_numbers() {
    let samples = [0.0f32, -0.0, 1.0, -1.0, 0.5, 1e30, -1e30, f32::INFINITY, f32::NEG_INFINITY, f32::NAN];
    for a in samples {
        assert_eq!(q(a).is_finite(), a.is_finite());
        assert_eq!(q(a).is_nan(), a.is_nan());
        assert_eq!(q(a).is_positive(), a > 0.0);
        for b in samples {
            assert_eq!(q(a).is_less(q(b)), a < b, "{a} {b}");
            assert_eq!(q(a).is_at_most(q(b)), a <= b, "{a} {b}");
        }
    }
}

#[test]
fn sorting_orders_every_pattern() {
    let mut expected = vec![3.0f32, -1.0, f32::NAN, 0.0, -0.0, f32::INFINITY, 2.0, -7.5];
    let values: Vec<Quantity> = expected.iter().map(|x| q(*x)).collect();
    expected.sort_by(f32::total_cmp);
    let found: Vec<u32> = sorted(&values).iter().map(|v| v.bits).collect();
    let wanted: Vec<u32> = expected.iter().map(|x| x.to_bits()).collect();
    assert_eq!(found, wanted);
}

#[test]
fn a_percentile_is_an_item() {
    let list: Vec<Quantity> = (1..=10).map(|i| q(i as f32)).collect();
    assert_eq!(at_percent(&list, 20), q(3.0));
    assert_eq!(at_percent(&list, 90), q(10.0));
    assert_eq!(at_percent(&list, 100), q(10.0));
    assert_eq!(at_percent(&vec![q(4.0)], 80), q(4.0));
}

#[test]
fn shares_lie_between_0_and_1() {
    assert_eq!(share(0.25), 0.25);
    assert_eq!(share(-3.0), 0.0);
    assert_eq!(share(7.0), 1.0);
    assert_eq!(share(f32::NAN), 0.0);
    assert_eq!(share(f32::INFINITY), 0.0);
    assert_eq!(share(1.0), 1.0);
}

#[test]
fn factions_have_colours_of_their_own() {
    for i in 0..PALETTE_SIZE {
        for j in 0..i {
            assert_ne!(faction_color(i), faction_color(j));
        }
    }
    assert_eq!(faction_color(0), Rgb { r: 85, g: 25, b: 25 });
    assert_eq!(faction_color(8), faction_color(0));
}

#[test]
fn numerals_are_decimal() {
    for n in [0usize, 7, 10, 99, 100, 4294967296, usize::MAX] {
        assert_eq!(decimal_text(n), format!("{n}"));
    }
}

#[test]
fn texts_are_joined_and_quoted() {
    assert_eq!(join(&vec!["a".to_string(), "b".to_string(), "c".to_string()], ", "), "a, b, c");
    assert_eq!(join(&Vec::new(), ", "), "");
    assert_eq!(quote("unknown good ", "gold"), "unknown good `gold`");
    assert!(same_text("停戦", "停戦"));
    assert!(!same_text("停戦", "停"));
}

/// Bit patterns from all over, among them every kind of boundary.
fn patterns() -> Vec<u32> {
    let mut list = vec![
        0, 1, 2, 0x7f_ffff, 0x80_0000, 0x80_0001, 0xff_ffff, 0x100_0000, 0x3f7f_ffff, 0x3f80_0000, 0x3f80_0001, 0x4b00_0000,
        0x4b7f_ffff, 0x4b80_0000, 0x7f7f_ffff, 0x7f80_0000, 0x7fc0_0000, 0x3d4c_cccd, 0x3dcc_cccd, 0x40a0_0000, 0x42c8_0000,
        0x3f4c_cccd, 0x3ec2_8f5c, 0x2000_0000, 0x1f80_0000, 0x5f80_0000,
    ];
    let mut seed: u64 = 12345;
    for i in 0..120 {
        seed = seed.wrapping_mul(6364136223846793005).wrapping_add(1442695040888963407);
        let bits = (seed >> 33) as u32 & 0x7fff_ffff;
        list.push(bits);
        list.push(0x3f00_0000 + bits % 0x100_0000 + i);
    }
    let negative: Vec<u32> = list.iter().map(|b| b | 0x8000_0000).collect();
    list.extend(negative);
    list
}

fn agrees(found: Quantity, expected: f32) -> bool {
    found.bits == expected.to_bits() || (found.is_nan() && expected.is_nan())
}

#[test]
fn sums_and_differences_are_those_of_the_machine() {
    for &a in &patterns() {
        for &b in &patterns() {
            let (x, y) = (f32::from_bits(a), f32::from_bits(b));
            let (p, q) = (Quantity { bits: a }, Quantity { bits: b });
            assert!(agrees(p.plus(q), x + y), "{a:#x} + {b:#x}");
            assert!(agrees(p.minus(q), x - y), "{a:#x} - {b:#x}");
        }
    }
}

#[test]
fn products_and_quotients_are_those_of_the_machine() {
    for &a in &patterns() {
        for &b in &patterns() {
            let (x, y) = (f32::from_bits(a), f32::from_bits(b));
            let (p, q) = (Quantity { bits: a }, Quantity { bits: b });
            assert!(agrees(p.times(q), x * y), "{a:#x} * {b:#x}");
            assert!(agrees(p.over(q), x / y), "{a:#x} / {b:#x}");
        }
    }
}

#[test]
fn roots_and_whole_numbers_are_those_of_the_machine() {
    for &a in &patterns() {
        let x = f32::from_bits(a);
        assert!(agrees(Quantity { bits: a }.root(), x.sqrt()), "root of {a:#x}");
        assert_eq!(Quantity::from_whole(a).bits, (a as f32).to_bits(), "{a}");
    }
    assert_eq!(Quantity::from_whole(2).root().bits, 2f32.sqrt().to_bits());
    assert_eq!(Quantity::from_whole(2).root().bits, 0x3fb5_04f3);
}

#[test]
fn arithmetic_gives_exact_values() {
    let q = |x: f32| Quantity { bits: x.to_bits() };
    assert_eq!(q(0.1).plus(q(0.05)), q(0.15));
    assert_eq!(q(1.0).minus(q(0.1)), q(0.9));
    assert_eq!(q(0.25).times(q(100.0)), q(25.0));
    assert_eq!(q(1.0).over(q(3.0)).bits, 0x3eaa_aaab);
    assert_eq!(q(3.0).plus(q(-3.0)).bits, 0, "what cancels out is a positive zero");
    assert_eq!(q(-0.0).plus(q(-0.0)).bits, 0x8000_0000);
    assert!(q(0.0).over(q(0.0)).is_nan());
    assert_eq!(q(f32::MAX).plus(q(f32::MAX)), q(f32::INFINITY));
}
