//! Scalar, length, segment and transform rounding behavior.

use svg_round::model::{Length, PathSegment, Transform, Unit};
use svg_round::rounder::{round_length, round_path, round_segment, round_transform};
use svg_round::scalar::{pow10_u64, round_number, scalar_is_wf, Scalar, MAX_PRECISION};

fn s(m: i64, scale: u32) -> Scalar {
    Scalar { m, scale }
}

#[test]
fn round_half_away_from_zero_positive() {
    // 2.345 at precision 2 is 2.35: the half rounds away from zero.
    let mut n = s(2345, 3);
    round_number(&mut n, 2);
    assert_eq!(n, s(235, 2));
}

#[test]
fn round_half_away_from_zero_negative() {
    // -2.345 at precision 2 is -2.35, symmetrically.
    let mut n = s(-2345, 3);
    round_number(&mut n, 2);
    assert_eq!(n, s(-235, 2));
}

#[test]
fn round_to_whole_number() {
    // Precision 0 rounds to the nearest whole number; 2.5 goes up to 3.
    let mut n = s(25, 1);
    round_number(&mut n, 0);
    assert_eq!(n, s(3, 0));
    let mut m = s(-25, 1);
    round_number(&mut m, 0);
    assert_eq!(m, s(-3, 0));
}

#[test]
fn round_below_half_goes_down() {
    let mut n = s(2004, 3);
    round_number(&mut n, 2);
    assert_eq!(n, s(200, 2));
}

#[test]
fn round_is_idempotent() {
    // Rounding what is already rounded at the same precision changes nothing.
    let mut n = s(987654, 4);
    round_number(&mut n, 2);
    let once = n;
    round_number(&mut n, 2);
    assert_eq!(n, once);
}

#[test]
fn round_keeps_coarser_value() {
    // A value with fewer decimal places than asked for is untouched.
    let mut n = s(60, 1);
    round_number(&mut n, 2);
    assert_eq!(n, s(60, 1));
}

#[test]
fn rounded_scale_never_exceeds_precision() {
    // The precision bound: a rounded scalar times 10^p is an integer,
    // because its scale comes out at most p.
    for p in 0..=MAX_PRECISION {
        let mut n = s(123456789, 8);
        round_number(&mut n, p);
        assert_eq!(n.scale, p.min(8));
        assert!(n.scale <= p);
    }
}

#[test]
fn pow10_table_values() {
    assert_eq!(pow10_u64(0), 1);
    assert_eq!(pow10_u64(1), 10);
    assert_eq!(pow10_u64(6), 1_000_000);
    assert_eq!(pow10_u64(12), 1_000_000_000_000);
}

#[test]
fn scalar_validity_check() {
    assert!(scalar_is_wf(s(42, 0)));
    assert!(scalar_is_wf(s(-42, MAX_PRECISION)));
    assert!(!scalar_is_wf(s(42, MAX_PRECISION + 1)));
    assert!(!scalar_is_wf(s(i64::MIN, 0)));
}

#[test]
fn length_unit_is_preserved() {
    let l = Length { num: s(2345, 3), unit: Unit::Percent };
    let r = round_length(l, 2);
    assert_eq!(r.num, s(235, 2));
    assert_eq!(r.unit, Unit::Percent);
}

#[test]
fn curve_to_rounds_every_operand() {
    // (1.005, 2.004, 3.006, 4.001, 5.0009, 6.0) at path precision 2
    // becomes (1.01, 2.0, 3.01, 4.0, 5.0, 6.0): 1.005*100 = 100.5,
    // which rounds half away from zero to 101, i.e. 1.01.
    let seg = PathSegment::CurveTo {
        x1: s(1005, 3),
        y1: s(2004, 3),
        x2: s(3006, 3),
        y2: s(4001, 3),
        x: s(50009, 4),
        y: s(60, 1),
    };
    let r = round_segment(seg, 2);
    assert_eq!(
        r,
        PathSegment::CurveTo {
            x1: s(101, 2),
            y1: s(200, 2),
            x2: s(301, 2),
            y2: s(400, 2),
            x: s(500, 2),
            y: s(60, 1),
        }
    );
}

#[test]
fn close_path_is_unaffected() {
    for p in 0..=MAX_PRECISION {
        assert_eq!(round_segment(PathSegment::ClosePath, p), PathSegment::ClosePath);
    }
}

#[test]
fn arc_flags_are_preserved() {
    let seg = PathSegment::EllipticalArc {
        rx: s(15, 1),
        ry: s(25, 1),
        x_axis_rotation: s(12345, 4),
        large_arc: true,
        sweep: false,
        x: s(999, 2),
        y: s(-999, 2),
    };
    let r = round_segment(seg, 1);
    match r {
        PathSegment::EllipticalArc { rx, ry, x_axis_rotation, large_arc, sweep, x, y } => {
            assert_eq!(rx, s(15, 1));
            assert_eq!(ry, s(25, 1));
            assert_eq!(x_axis_rotation, s(12, 1));
            assert!(large_arc);
            assert!(!sweep);
            assert_eq!(x, s(100, 1));
            assert_eq!(y, s(-100, 1));
        }
        _ => panic!("segment kind changed"),
    }
}

#[test]
fn path_keeps_order_and_count() {
    let mut path = vec![
        PathSegment::MoveTo { x: s(1005, 3), y: s(0, 0) },
        PathSegment::LineTo { x: s(2004, 3), y: s(15, 1) },
        PathSegment::HorizontalLineTo { x: s(333, 2) },
        PathSegment::VerticalLineTo { y: s(666, 3) },
        PathSegment::ClosePath,
    ];
    round_path(&mut path, 1);
    assert_eq!(path.len(), 5);
    assert_eq!(path[0], PathSegment::MoveTo { x: s(10, 1), y: s(0, 0) });
    assert_eq!(path[1], PathSegment::LineTo { x: s(20, 1), y: s(15, 1) });
    assert_eq!(path[2], PathSegment::HorizontalLineTo { x: s(33, 1) });
    assert_eq!(path[3], PathSegment::VerticalLineTo { y: s(7, 1) });
    assert_eq!(path[4], PathSegment::ClosePath);
}

#[test]
fn transform_splits_precisions() {
    // Linear components round at the transform precision (2), the
    // translation components at the coordinate precision (1).
    let t = Transform {
        a: s(123456, 5),
        b: s(0, 0),
        c: s(0, 0),
        d: s(123456, 5),
        e: s(1098765, 5),
        f: s(0, 0),
    };
    let r = round_transform(t, 2, 1);
    assert_eq!(r.a, s(123, 2));
    assert_eq!(r.b, s(0, 0));
    assert_eq!(r.c, s(0, 0));
    assert_eq!(r.d, s(123, 2));
    // 10.98765 at precision 1 is 11.0.
    assert_eq!(r.e, s(110, 1));
    assert_eq!(r.f, s(0, 0));
}

#[test]
fn smooth_and_quadratic_operands() {
    let sq = round_segment(PathSegment::SmoothQuadratic { x: s(199, 2), y: s(151, 2) }, 1);
    assert_eq!(sq, PathSegment::SmoothQuadratic { x: s(20, 1), y: s(15, 1) });
    let q = round_segment(
        PathSegment::Quadratic { x1: s(105, 2), y1: s(-105, 2), x: s(1, 2), y: s(-1, 2) },
        1,
    );
    assert_eq!(q, PathSegment::Quadratic { x1: s(11, 1), y1: s(-11, 1), x: s(0, 1), y: s(0, 1) });
}
