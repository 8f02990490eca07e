use vector4i::ArithmeticError;
use vector4i::DecodeError;
use vector4i::Vector4i;
use vector4i::Vector4iAxis;

#[test]
fn coord_min_max() {
    let a = Vector4i::new(1, 3, 5, 0);
    let b = Vector4i::new(0, 5, 2, 1);
    assert_eq!(a.coord_min(b), Vector4i::new(0, 3, 2, 0),);
    assert_eq!(a.coord_max(b), Vector4i::new(1, 5, 5, 1));
}

#[test]
fn serde_roundtrip() {
    let vector = Vector4i::default();
    let expected_json = "{\"x\":0,\"y\":0,\"z\":0,\"w\":0}";

    assert_eq!(vector.to_json(), expected_json);
    assert_eq!(Vector4i::from_json(expected_json), Ok(vector));
}

#[test]
fn constructors() {
    let v = Vector4i::new(1, 2, 3, 4);
    assert_eq!((v.x, v.y, v.z, v.w), (1, 2, 3, 4));
    assert_eq!(Vector4i::splat(7), Vector4i::new(7, 7, 7, 7));
    assert_eq!(Vector4i::zero(), Vector4i::new(0, 0, 0, 0));
    assert_eq!(Vector4i::one(), Vector4i::new(1, 1, 1, 1));
    assert_eq!(Vector4i::default(), Vector4i::zero());
}

#[test]
fn fast_form_roundtrip() {
    let cases = vec![
        Vector4i::new(0, 0, 0, 0),
        Vector4i::new(-1, -2, -3, -4),
        Vector4i::new(i32::MIN, i32::MAX, i32::MIN, i32::MAX),
        Vector4i::new(10, -20, 30, -40),
    ];
    for v in cases {
        assert_eq!(Vector4i::from_glam(v.to_glam()), v);
    }
}

#[test]
fn glam_lane_order() {
    let g = glam::IVec4::new(1, 2, 3, 4);
    assert_eq!(Vector4i::from_glam(g), Vector4i::new(1, 2, 3, 4));
    let h = Vector4i::new(-5, 6, -7, 8).to_glam();
    assert_eq!((h.x, h.y, h.z, h.w), (-5, 6, -7, 8));
}

#[test]
fn ordering_lexicographic() {
    let a = Vector4i::new(1, 0, 0, 0);
    let b = Vector4i::new(1, 1, 0, 0);
    let c = Vector4i::new(2, 0, 0, 0);
    assert!(a < b);
    assert!(b < c);
    assert!(a < c);
    assert!(Vector4i::new(0, 0, 0, -1) < Vector4i::new(0, 0, 0, 1));
    assert!(Vector4i::new(0, 0, 0, 0) <= Vector4i::new(0, 0, 0, 0));
    assert_eq!(
        a.partial_cmp(&a),
        Some(std::cmp::Ordering::Equal)
    );
    assert_eq!(
        c.partial_cmp(&a),
        Some(std::cmp::Ordering::Greater)
    );
}

#[test]
fn axis_roundtrip() {
    let axes = [
        Vector4iAxis::X,
        Vector4iAxis::Y,
        Vector4iAxis::Z,
        Vector4iAxis::W,
    ];
    for axis in axes.iter() {
        let mut v = Vector4i::new(10, 20, 30, 40);
        let before = v;
        v.set(*axis, 99);
        assert_eq!(v.get(*axis), 99);
        for other in axes.iter() {
            if other != axis {
                assert_eq!(v.get(*other), before.get(*other));
            }
        }
    }
}

#[test]
fn elementwise_arithmetic() {
    let a = Vector4i::new(10, -4, 6, 0);
    let b = Vector4i::new(3, 2, -2, 5);
    assert_eq!(a + b, Vector4i::new(13, -2, 4, 5));
    assert_eq!(a - b, Vector4i::new(7, -6, 8, -5));
    assert_eq!(a * b, Vector4i::new(30, -8, -12, 0));
    assert_eq!(-b, Vector4i::new(-3, -2, 2, -5));
    assert_eq!(a / b, Vector4i::new(3, -2, -3, 0));
    assert_eq!(a % b, Vector4i::new(1, 0, 0, 0));
}

#[test]
fn division_truncates_toward_zero() {
    let a = Vector4i::new(-7, 7, -7, 7);
    let b = Vector4i::new(2, -2, -2, 2);
    assert_eq!(a / b, Vector4i::new(-3, -3, 3, 3));
    assert_eq!(a % b, Vector4i::new(-1, 1, -1, 1));
}

#[test]
fn scalar_arithmetic() {
    let a = Vector4i::new(10, -4, 7, 0);
    assert_eq!(a * 3, Vector4i::new(30, -12, 21, 0));
    assert_eq!(a / 2, Vector4i::new(5, -2, 3, 0));
    assert_eq!(a % 3, Vector4i::new(1, -1, 1, 0));
}

#[test]
fn division_by_zero_component_fails() {
    let a = Vector4i::new(1, 2, 3, 4);
    let b = Vector4i::new(1, 0, 1, 1);
    assert_eq!(a.try_div(b), Err(ArithmeticError::DivisionByZero));
    assert_eq!(a.try_rem(b), Err(ArithmeticError::DivisionByZero));
}

#[test]
fn division_overflow_fails() {
    let a = Vector4i::new(i32::MIN, 0, 0, 0);
    let b = Vector4i::new(-1, 1, 1, 1);
    assert_eq!(a.try_div(b), Err(ArithmeticError::Overflow));
    assert_eq!(a.try_rem(b), Err(ArithmeticError::Overflow));
}

#[test]
fn try_div_and_rem_succeed_elsewhere() {
    let a = Vector4i::new(-7, 8, i32::MIN, 1);
    let b = Vector4i::new(2, -3, 1, 1);
    assert_eq!(a.try_div(b), Ok(Vector4i::new(-3, -2, i32::MIN, 1)));
    assert_eq!(a.try_rem(b), Ok(Vector4i::new(-1, 2, 0, 0)));
}

#[test]
fn text_rendering() {
    assert_eq!(Vector4i::new(1, -2, 3, 0).to_text(), "(1, -2, 3, 0)");
    assert_eq!(
        Vector4i::new(i32::MIN, i32::MAX, 0, 10).to_text(),
        "(-2147483648, 2147483647, 0, 10)"
    );
}

#[test]
fn json_encoding_shape() {
    assert_eq!(
        Vector4i::new(1, -2, 3, 0).to_json(),
        "{\"x\":1,\"y\":-2,\"z\":3,\"w\":0}"
    );
}

#[test]
fn json_roundtrip_various() {
    let cases = vec![
        Vector4i::new(0, 0, 0, 0),
        Vector4i::new(-1, -2, -3, -4),
        Vector4i::new(i32::MIN, i32::MAX, 1, -1),
        Vector4i::new(100, 0, -100, 2000000000),
    ];
    for v in cases {
        assert_eq!(Vector4i::from_json(&v.to_json()), Ok(v));
    }
}

#[test]
fn json_decode_key_order_insensitive() {
    let v = Vector4i::from_json("{\"w\":4,\"z\":3,\"y\":2,\"x\":1}");
    assert_eq!(v, Ok(Vector4i::new(1, 2, 3, 4)));
}

#[test]
fn json_decode_tolerates_whitespace() {
    let v = Vector4i::from_json(" { \"x\" : 1 , \"y\" : -2 , \"z\" : 3 , \"w\" : 0 } ");
    assert_eq!(v, Ok(Vector4i::new(1, -2, 3, 0)));
}

#[test]
fn json_decode_rejects_malformed_input() {
    let bad = vec![
        "",
        "{}",
        "{\"x\":1,\"y\":2,\"z\":3}",
        "{\"x\":1,\"y\":2,\"z\":3,\"x\":4}",
        "{\"x\":1,\"y\":2,\"z\":3,\"q\":4}",
        "{\"x\":1.5,\"y\":2,\"z\":3,\"w\":4}",
        "{\"x\":01,\"y\":2,\"z\":3,\"w\":4}",
        "{\"x\":2147483648,\"y\":2,\"z\":3,\"w\":4}",
        "{\"x\":-2147483649,\"y\":2,\"z\":3,\"w\":4}",
        "{\"x\":1,\"y\":2,\"z\":3,\"w\":4} trailing",
        "{\"x\":1,\"y\":2,\"z\":3,\"w\":4",
        "{\"x\":true,\"y\":2,\"z\":3,\"w\":4}",
        "[1,2,3,4]",
    ];
    for s in bad {
        assert_eq!(Vector4i::from_json(s), Err(DecodeError), "input: {}", s);
    }
}

#[test]
fn json_decode_accepts_minus_zero() {
    assert_eq!(
        Vector4i::from_json("{\"x\":-0,\"y\":0,\"z\":0,\"w\":0}"),
        Ok(Vector4i::zero())
    );
}
