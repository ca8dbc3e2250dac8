use drift_linalg::{Op, Vec3};

fn hardware(op: Op, a: u64, b: u64) -> u64 {
    let a = f64::from_bits(a);
    let b = f64::from_bits(b);
    let r = match op {
        Op::Add => a + b,
        Op::Sub => a - b,
        Op::Mul => a * b,
        Op::Sqrt => a.sqrt(),
    };
    r.to_bits()
}

fn vec3(x: f64, y: f64, z: f64) -> Vec3 {
    Vec3::new(x.to_bits(), y.to_bits(), z.to_bits())
}

fn floats(v: Vec3) -> (f64, f64, f64) {
    (f64::from_bits(v.x), f64::from_bits(v.y), f64::from_bits(v.z))
}

#[test]
fn dot_multiplies_then_sums_left_to_right() {
    let a = vec3(1.0, 2.0, 3.0);
    let b = vec3(4.0, -5.0, 6.0);
    assert_eq!(f64::from_bits(a.dot(b, &hardware)), 12.0);

    let (x, y, z) = (0.1f64, 0.2f64, 0.3f64);
    let (u, v, w) = (0.7f64, 1e16f64, -3.3f64);
    let expected = x * u + y * v + z * w;
    assert_eq!(vec3(x, y, z).dot(vec3(u, v, w), &hardware), expected.to_bits());
}

#[test]
fn magnitude_squared_is_the_dot_with_itself() {
    let v = vec3(3.0, 4.0, 12.0);
    assert_eq!(f64::from_bits(v.magnitude_squared(&hardware)), 169.0);
    let w = vec3(0.1, -0.2, 0.3);
    assert_eq!(w.magnitude_squared(&hardware), w.dot(w, &hardware));
}

#[test]
fn scale_multiplies_each_component() {
    let v = vec3(10.0, 20.0, 30.0).scale(0.5f64.to_bits(), &hardware);
    assert_eq!(floats(v), (5.0, 10.0, 15.0));
    let w = vec3(0.1, -0.0, f64::INFINITY).scale((-3.0f64).to_bits(), &hardware);
    assert_eq!(w.x, (0.1f64 * -3.0).to_bits());
    assert_eq!(w.y, 0.0f64.to_bits());
    assert_eq!(w.z, f64::NEG_INFINITY.to_bits());
}

#[test]
fn add_and_sub_work_component_by_component() {
    let a = vec3(1.0, 2.0, 3.0);
    let b = vec3(4.0, 5.5, -6.0);
    assert_eq!(floats(a.add(b, &hardware)), (5.0, 7.5, -3.0));
    assert_eq!(floats(a.sub(b, &hardware)), (-3.0, -3.5, 9.0));
    let c = vec3(0.1, 1e16, 1.0);
    let d = vec3(0.2, 1.0, 1e-17);
    let s = c.add(d, &hardware);
    assert_eq!(s.x, (0.1f64 + 0.2f64).to_bits());
    assert_eq!(s.y, 1e16f64.to_bits());
    assert_eq!(s.z, 1.0f64.to_bits());
    let t = c.sub(d, &hardware);
    assert_eq!(t.x, (0.1f64 - 0.2f64).to_bits());
}

#[test]
fn the_unit_is_asked_for_exactly_the_named_operation() {
    // A unit that answers with a tag for the operation shows which one was asked.
    let tagging = |op: Op, _a: u64, _b: u64| -> u64 {
        match op {
            Op::Add => 1,
            Op::Sub => 2,
            Op::Mul => 3,
            Op::Sqrt => 4,
        }
    };
    let v = Vec3::new(7, 8, 9);
    let a = v.add(v, &tagging);
    assert_eq!((a.x, a.y, a.z), (1, 1, 1));
    let s = v.sub(v, &tagging);
    assert_eq!((s.x, s.y, s.z), (2, 2, 2));
    let m = v.scale(5, &tagging);
    assert_eq!((m.x, m.y, m.z), (3, 3, 3));
    assert_eq!(v.dot(v, &tagging), 1);
}

#[test]
fn magnitude_is_the_root_of_the_squared_magnitude() {
    assert_eq!(f64::from_bits(vec3(3.0, 4.0, 12.0).magnitude(&hardware)), 13.0);
    assert_eq!(f64::from_bits(vec3(0.0, -0.0, 0.0).magnitude(&hardware)), 0.0);
    let w = vec3(0.1, -0.2, 0.3);
    let squared = 0.1f64 * 0.1 + -0.2f64 * -0.2 + 0.3f64 * 0.3;
    assert_eq!(w.magnitude(&hardware), squared.sqrt().to_bits());
    let tagging = |op: Op, _a: u64, _b: u64| -> u64 {
        match op {
            Op::Sqrt => 4,
            _ => 0,
        }
    };
    assert_eq!(w.magnitude(&tagging), 4);
}
