use drift_linalg::{Neumaier, Op, Vec3, Vec3Accumulator};

fn hardware(op: Op, a: u64, b: u64) -> u64 {
    let a = f64::from_bits(a);
    let b = f64::from_bits(b);
    let r = match op {
        Op::Add => a + b,
        Op::Sub => a - b,
        Op::Mul => a * b,
        Op::Sqrt => a.sqrt(),
    };
    r.to_bits()
}

fn vec3(x: f64, y: f64, z: f64) -> Vec3 {
    Vec3::new(x.to_bits(), y.to_bits(), z.to_bits())
}

fn floats(v: Vec3) -> (f64, f64, f64) {
    (f64::from_bits(v.x), f64::from_bits(v.y), f64::from_bits(v.z))
}

#[test]
fn vec3_accumulator_basic() {
    let mut acc = Vec3Accumulator::new();
    acc.add(vec3(1.0, 2.0, 3.0), &hardware);
    acc.add(vec3(4.0, 5.0, 6.0), &hardware);
    let (x, y, z) = floats(acc.resolve(&hardware));
    assert!((x - 5.0).abs() < 1e-15);
    assert!((y - 7.0).abs() < 1e-15);
    assert!((z - 9.0).abs() < 1e-15);
}

#[test]
fn vec3_accumulator_catastrophic_cancellation() {
    let mut acc = Vec3Accumulator::new();

    acc.add(vec3(1e16, 1e16, 1e16), &hardware);
    acc.add(vec3(1.0, 1.0, 1.0), &hardware);
    acc.add(vec3(-1e16, -1e16, -1e16), &hardware);

    let (x, y, z) = floats(acc.resolve(&hardware));
    assert!((x - 1.0).abs() < 1e-10, "x: expected 1.0, got {}", x);
    assert!((y - 1.0).abs() < 1e-10, "y: expected 1.0, got {}", y);
    assert!((z - 1.0).abs() < 1e-10, "z: expected 1.0, got {}", z);
}

#[test]
fn vec3_accumulator_long_horizon() {
    let mut acc = Vec3Accumulator::new();

    for i in 0..100_000 {
        let large = 1e15 + (i as f64) * 1e-5;
        acc.add(vec3(large, large, large), &hardware);
        acc.add(vec3(-large, -large, -large), &hardware);
    }

    let (x, y, z) = floats(acc.resolve(&hardware));
    assert!(x.abs() < 1e-10, "x drift: {}", x);
    assert!(y.abs() < 1e-10, "y drift: {}", y);
    assert!(z.abs() < 1e-10, "z drift: {}", z);
}

#[test]
fn vec3_accumulator_add_scaled() {
    let mut acc = Vec3Accumulator::new();
    let vec = vec3(10.0, 20.0, 30.0);
    acc.add_scaled(vec, 0.5f64.to_bits(), &hardware);
    let (x, y, z) = floats(acc.resolve(&hardware));
    assert!((x - 5.0).abs() < 1e-15);
    assert!((y - 10.0).abs() < 1e-15);
    assert!((z - 15.0).abs() < 1e-15);
}

#[test]
fn scalar_sum_keeps_what_rounding_loses() {
    let mut acc = Neumaier::new(1e16f64.to_bits());
    acc.add(1.0f64.to_bits(), &hardware);
    assert_eq!(f64::from_bits(acc.sum), 1e16);
    assert_eq!(f64::from_bits(acc.correction), 1.0);
    acc.add((-1e16f64).to_bits(), &hardware);
    assert_eq!(f64::from_bits(acc.sum), 0.0);
    assert_eq!(f64::from_bits(acc.correction), 1.0);
    assert_eq!(f64::from_bits(acc.total(&hardware)), 1.0);
}

#[test]
fn scalar_sum_takes_the_larger_operand_first() {
    // The running sum is the smaller one here: the loss is (value - t) + sum.
    let mut acc = Neumaier::new(1.0f64.to_bits());
    acc.add(1e16f64.to_bits(), &hardware);
    let t = 1.0f64 + 1e16f64;
    assert_eq!(f64::from_bits(acc.sum), t);
    assert_eq!(f64::from_bits(acc.correction), 0.0 + ((1e16f64 - t) + 1.0));
    assert_eq!(f64::from_bits(acc.correction), 1.0);

    // An unbalanced pair where the other order would lose the residue.
    let mut acc = Neumaier::new(0.1f64.to_bits());
    acc.add(0.2f64.to_bits(), &hardware);
    let t = 0.1f64 + 0.2f64;
    assert_eq!(acc.sum, t.to_bits());
    assert_eq!(acc.correction, (0.0 + ((0.2f64 - t) + 0.1)).to_bits());
}

#[test]
fn scalar_sum_of_equal_magnitudes_takes_the_sum_first() {
    let mut acc = Neumaier::new(3.0f64.to_bits());
    acc.add((-3.0f64).to_bits(), &hardware);
    assert_eq!(acc.sum, 0.0f64.to_bits());
    assert_eq!(acc.correction, 0.0f64.to_bits());
}

#[test]
fn scalar_sum_lets_nan_and_infinity_through() {
    let mut acc = Neumaier::new(1.0f64.to_bits());
    acc.add(f64::INFINITY.to_bits(), &hardware);
    assert_eq!(f64::from_bits(acc.sum), f64::INFINITY);
    assert!(f64::from_bits(acc.total(&hardware)).is_nan());

    let mut acc = Neumaier::new(1.0f64.to_bits());
    acc.add(f64::NAN.to_bits(), &hardware);
    assert!(f64::from_bits(acc.sum).is_nan());
    assert!(f64::from_bits(acc.correction).is_nan());
}

#[test]
fn scalar_new_and_reset() {
    let mut acc = Neumaier::new(2.5f64.to_bits());
    assert_eq!(acc.sum, 2.5f64.to_bits());
    assert_eq!(acc.correction, 0);
    assert_eq!(f64::from_bits(acc.total(&hardware)), 2.5);
    acc.add(1e-20f64.to_bits(), &hardware);
    assert_ne!(acc.correction, 0);
    acc.reset();
    assert_eq!((acc.sum, acc.correction), (0, 0));
}

#[test]
fn total_does_not_change_the_sum() {
    let mut acc = Vec3Accumulator::with_initial(vec3(1e16, 2.0, -3.0));
    acc.add(vec3(1.0, 1e-20, 1e20), &hardware);
    let first = acc.resolve(&hardware);
    let second = acc.resolve(&hardware);
    assert_eq!((first.x, first.y, first.z), (second.x, second.y, second.z));
    acc.add(vec3(-1e16, 0.0, -1e20), &hardware);
    let (x, y, z) = floats(acc.resolve(&hardware));
    assert_eq!(x, 1.0);
    assert_eq!(y, 2.0);
    assert_eq!(z, -3.0);
}

#[test]
fn with_initial_seeds_each_axis() {
    let acc = Vec3Accumulator::with_initial(vec3(1.5, -2.25, 3.125));
    let v = acc.resolve(&hardware);
    assert_eq!(floats(v), (1.5, -2.25, 3.125));
}

#[test]
fn axes_do_not_meet() {
    let mut all = Vec3Accumulator::new();
    let mut x_only = Neumaier::new(0);
    let steps = [(1e16, 3.0, -1e-9), (1.0, -1e30, 7.0), (-1e16, 1e30, 1e-9), (0.25, f64::NAN, 2.0)];
    for &(x, y, z) in steps.iter() {
        all.add(vec3(x, y, z), &hardware);
        x_only.add(x.to_bits(), &hardware);
    }
    assert_eq!(all.resolve(&hardware).x, x_only.total(&hardware));
    assert_eq!(f64::from_bits(x_only.total(&hardware)), 1.25);
}

#[test]
fn scaling_is_one_plain_product_per_axis() {
    let mut scaled = Vec3Accumulator::with_initial(vec3(1e16, 1e16, 1e16));
    let mut plain = Vec3Accumulator::with_initial(vec3(1e16, 1e16, 1e16));
    let v = (0.1f64, 0.7f64, -1.3f64);
    let s = 1.0f64 / 60.0;
    scaled.add_scaled(vec3(v.0, v.1, v.2), s.to_bits(), &hardware);
    plain.add(vec3(v.0 * s, v.1 * s, v.2 * s), &hardware);
    let a = scaled.resolve(&hardware);
    let b = plain.resolve(&hardware);
    assert_eq!((a.x, a.y, a.z), (b.x, b.y, b.z));
}

#[test]
fn two_additions_agree_with_the_sum_added_once() {
    let a = (1.0f64, 2.0f64, 3.0f64);
    let b = (4.0f64, 5.0f64, 6.0f64);
    let mut twice = Vec3Accumulator::new();
    twice.add(vec3(a.0, a.1, a.2), &hardware);
    twice.add(vec3(b.0, b.1, b.2), &hardware);
    let mut once = Vec3Accumulator::new();
    once.add(vec3(a.0 + b.0, a.1 + b.1, a.2 + b.2), &hardware);
    let (x1, y1, z1) = floats(twice.resolve(&hardware));
    let (x2, y2, z2) = floats(once.resolve(&hardware));
    assert!((x1 - x2).abs() < 1e-15);
    assert!((y1 - y2).abs() < 1e-15);
    assert!((z1 - z2).abs() < 1e-15);
}

#[test]
fn reset_makes_the_accumulator_new() {
    let mut acc = Vec3Accumulator::with_initial(vec3(1e16, -4.0, 0.5));
    acc.add(vec3(1.0, 1e-20, f64::NAN), &hardware);
    acc.reset();
    let zero = acc.resolve(&hardware);
    assert_eq!((zero.x, zero.y, zero.z), (0, 0, 0));
    assert!(zero == Vec3::zero());

    let mut fresh = Vec3Accumulator::new();
    let steps = [(1e16, 1.0, -2.0), (1.0, 1e-17, 1e16), (-1e16, 3.0, -1e16)];
    for &(x, y, z) in steps.iter() {
        acc.add(vec3(x, y, z), &hardware);
        fresh.add(vec3(x, y, z), &hardware);
        let a = acc.resolve(&hardware);
        let b = fresh.resolve(&hardware);
        assert_eq!((a.x, a.y, a.z), (b.x, b.y, b.z));
    }
    acc.reset();
    acc.reset();
    assert_eq!(floats(acc.resolve(&hardware)), (0.0, 0.0, 0.0));
}

#[test]
fn default_and_clone_keep_the_state() {
    let mut acc = Vec3Accumulator::default();
    assert_eq!(floats(acc.resolve(&hardware)), (0.0, 0.0, 0.0));
    acc.add(vec3(1e16, 1.0, 2.0), &hardware);
    acc.add(vec3(1.0, 1.0, 2.0), &hardware);
    let copy = acc.clone();
    let a = acc.resolve(&hardware);
    let b = copy.resolve(&hardware);
    assert_eq!((a.x, a.y, a.z), (b.x, b.y, b.z));
}

#[test]
fn scalar_default_is_zero() {
    let acc = Neumaier::default();
    assert_eq!((acc.sum, acc.correction), (0, 0));
    assert_eq!(f64::from_bits(acc.total(&hardware)), 0.0);
}

fn units(bits: u64) -> i128 {
    let magnitude = bits & 0x7fff_ffff_ffff_ffff;
    let exponent = magnitude >> 52;
    let fraction = (magnitude & 0x000f_ffff_ffff_ffff) as i128;
    let absolute = if exponent == 0 {
        fraction
    } else {
        ((1i128 << 52) + fraction) << (exponent - 1)
    };
    if bits >> 63 == 1 {
        -absolute
    } else {
        absolute
    }
}

#[test]
fn sum_and_losses_make_up_the_true_sum() {
    // Patterns with small exponent fields, so that the true sum fits an integer.
    let mut seed: u64 = 0x9e37_79b9_7f4a_7c15;
    let mut acc = Neumaier::new(0);
    let mut true_sum: i128 = 0;
    let mut losses: i128 = 0;
    for _ in 0..2000 {
        seed = seed.wrapping_mul(6364136223846793005).wrapping_add(1442695040888963407);
        let exponent = (seed >> 40) % 48;
        let fraction = seed & 0x000f_ffff_ffff_ffff;
        let sign = (seed >> 63) << 63;
        let incoming = sign | (exponent << 52) | fraction;

        let before = acc;
        acc.add(incoming, &hardware);
        let s = f64::from_bits(before.sum);
        let v = f64::from_bits(incoming);
        let t = f64::from_bits(acc.sum);
        let loss = if s.abs() >= v.abs() { (s - t) + v } else { (v - t) + s };
        assert_eq!(acc.sum, (s + v).to_bits());
        assert_eq!(acc.correction, (f64::from_bits(before.correction) + loss).to_bits());
        assert_eq!(units(acc.sum) + units(loss.to_bits()), units(before.sum) + units(incoming));

        true_sum += units(incoming);
        losses += units(loss.to_bits());
        assert_eq!(units(acc.sum) + losses, true_sum);
    }
}
