//! Classification and the whole-document pass.

use svg_round::classify::{classify, PrecisionClass, PrecisionConfig};
use svg_round::model::{
    document_is_wf, element_is_wf, value_is_wf, AttrId, Attribute, Document, Element, Length,
    PathSegment, Rgb, Transform, Unit, Value,
};
use svg_round::rounder::round_numbers;
use svg_round::scalar::{Scalar, MAX_PRECISION};

fn s(m: i64, scale: u32) -> Scalar {
    Scalar { m, scale }
}

fn cfg(coords: u32, props: u32, paths: u32, ts: u32) -> PrecisionConfig {
    PrecisionConfig {
        coordinates_precision: coords,
        properties_precision: props,
        paths_coordinates_precision: paths,
        transforms_precision: ts,
    }
}

#[test]
fn classification_of_coordinate_identities() {
    let coords = [
        AttrId::X,
        AttrId::Y,
        AttrId::Dx,
        AttrId::Dy,
        AttrId::X1,
        AttrId::Y1,
        AttrId::X2,
        AttrId::Y2,
        AttrId::R,
        AttrId::Rx,
        AttrId::Ry,
        AttrId::Cx,
        AttrId::Cy,
        AttrId::Fx,
        AttrId::Fy,
        AttrId::Width,
        AttrId::Height,
        AttrId::StrokeDasharray,
    ];
    for id in coords {
        assert_eq!(classify(id), Some(PrecisionClass::Coordinate));
    }
}

#[test]
fn classification_of_style_identities() {
    let styles = [
        AttrId::StrokeDashoffset,
        AttrId::StrokeMiterlimit,
        AttrId::StrokeWidth,
        AttrId::Opacity,
        AttrId::FillOpacity,
        AttrId::FloodOpacity,
        AttrId::StrokeOpacity,
        AttrId::StopOpacity,
        AttrId::FontSize,
    ];
    for id in styles {
        assert_eq!(classify(id), Some(PrecisionClass::StyleScalar));
    }
}

#[test]
fn classification_of_transform_path_and_list_identities() {
    for id in [AttrId::Transform, AttrId::GradientTransform, AttrId::PatternTransform] {
        assert_eq!(classify(id), Some(PrecisionClass::Transform));
    }
    assert_eq!(classify(AttrId::D), Some(PrecisionClass::PathData));
    for id in [AttrId::ViewBox, AttrId::Points] {
        assert_eq!(classify(id), Some(PrecisionClass::NumericList));
    }
}

#[test]
fn classification_of_unlisted_identities() {
    for id in [
        AttrId::Fill,
        AttrId::Stroke,
        AttrId::Color,
        AttrId::FontFamily,
        AttrId::Id,
        AttrId::Class,
        AttrId::Style,
    ] {
        assert_eq!(classify(id), None);
    }
}

#[test]
fn empty_document_is_a_no_op() {
    let mut doc = Document { elements: vec![] };
    let options = cfg(1, 2, 2, 2);
    assert!(options.is_valid());
    assert!(document_is_wf(&doc));
    round_numbers(&mut doc, &options);
    assert_eq!(doc, Document { elements: vec![] });
}

#[test]
fn untouched_attribute_stays_identical() {
    // A color "fill" attribute belongs to no class and comes out
    // exactly as it went in.
    let elem = Element {
        attrs: vec![
            Attribute { id: AttrId::Fill, value: Value::Color(Rgb { red: 1, green: 2, blue: 3 }) },
            Attribute { id: AttrId::Class, value: Value::Text(String::from("icon")) },
        ],
    };
    let mut doc = Document { elements: vec![elem.clone()] };
    round_numbers(&mut doc, &cfg(0, 0, 0, 0));
    assert_eq!(doc.elements.len(), 1);
    assert_eq!(doc.elements[0], elem);
}

#[test]
fn mismatched_variant_is_a_no_op() {
    // A coordinate identity carrying a bare Number is not a coordinate
    // shape the class knows; the value stays untouched.
    let elem = Element {
        attrs: vec![Attribute { id: AttrId::X, value: Value::Number(s(12345, 4)) }],
    };
    let mut doc = Document { elements: vec![elem.clone()] };
    round_numbers(&mut doc, &cfg(1, 1, 1, 1));
    assert_eq!(doc.elements[0], elem);
}

#[test]
fn full_pass_rounds_each_class_at_its_precision() {
    let elem = Element {
        attrs: vec![
            // Coordinate: a length, at coordinates_precision = 1.
            Attribute {
                id: AttrId::X,
                value: Value::Length(Length { num: s(2345, 3), unit: Unit::Px }),
            },
            // Coordinate: a length list.
            Attribute {
                id: AttrId::StrokeDasharray,
                value: Value::LengthList(vec![
                    Length { num: s(105, 2), unit: Unit::Unitless },
                    Length { num: s(204, 2), unit: Unit::Em },
                ]),
            },
            // Style scalar: a number, at properties_precision = 2.
            Attribute { id: AttrId::Opacity, value: Value::Number(s(56789, 5)) },
            // Style scalar: a length.
            Attribute {
                id: AttrId::StrokeWidth,
                value: Value::Length(Length { num: s(1004, 3), unit: Unit::Mm }),
            },
            // Transform: linear at 2, translation at 1.
            Attribute {
                id: AttrId::GradientTransform,
                value: Value::Transform(Transform {
                    a: s(123456, 5),
                    b: s(0, 0),
                    c: s(0, 0),
                    d: s(123456, 5),
                    e: s(1098765, 5),
                    f: s(0, 0),
                }),
            },
            // Path data at paths_coordinates_precision = 2.
            Attribute {
                id: AttrId::D,
                value: Value::Path(vec![
                    PathSegment::MoveTo { x: s(1005, 3), y: s(2004, 3) },
                    PathSegment::ClosePath,
                ]),
            },
            // Numeric list at paths_coordinates_precision = 2.
            Attribute {
                id: AttrId::ViewBox,
                value: Value::NumberList(vec![s(0, 0), s(0, 0), s(123456, 3), s(654321, 3)]),
            },
            // Unclassified: untouched.
            Attribute { id: AttrId::Fill, value: Value::Color(Rgb { red: 9, green: 9, blue: 9 }) },
        ],
    };
    let mut doc = Document { elements: vec![elem] };
    let options = cfg(1, 2, 2, 2);
    assert!(options.is_valid());
    assert!(document_is_wf(&doc));
    round_numbers(&mut doc, &options);

    let attrs = &doc.elements[0].attrs;
    assert_eq!(attrs.len(), 8);
    assert_eq!(attrs[0].value, Value::Length(Length { num: s(23, 1), unit: Unit::Px }));
    assert_eq!(
        attrs[1].value,
        Value::LengthList(vec![
            Length { num: s(11, 1), unit: Unit::Unitless },
            Length { num: s(20, 1), unit: Unit::Em },
        ])
    );
    assert_eq!(attrs[2].value, Value::Number(s(57, 2)));
    assert_eq!(attrs[3].value, Value::Length(Length { num: s(100, 2), unit: Unit::Mm }));
    assert_eq!(
        attrs[4].value,
        Value::Transform(Transform {
            a: s(123, 2),
            b: s(0, 0),
            c: s(0, 0),
            d: s(123, 2),
            e: s(110, 1),
            f: s(0, 0),
        })
    );
    assert_eq!(
        attrs[5].value,
        Value::Path(vec![
            PathSegment::MoveTo { x: s(101, 2), y: s(200, 2) },
            PathSegment::ClosePath,
        ])
    );
    assert_eq!(
        attrs[6].value,
        Value::NumberList(vec![s(0, 0), s(0, 0), s(12346, 2), s(65432, 2)])
    );
    assert_eq!(attrs[7].value, Value::Color(Rgb { red: 9, green: 9, blue: 9 }));
}

#[test]
fn pass_preserves_counts_kinds_and_identities() {
    let elems = vec![
        Element {
            attrs: vec![
                Attribute {
                    id: AttrId::Points,
                    value: Value::NumberList(vec![s(11, 1), s(22, 1), s(33, 1)]),
                },
                Attribute { id: AttrId::Stroke, value: Value::Text(String::from("red")) },
            ],
        },
        Element { attrs: vec![] },
        Element {
            attrs: vec![Attribute {
                id: AttrId::D,
                value: Value::Path(vec![
                    PathSegment::MoveTo { x: s(1, 0), y: s(2, 0) },
                    PathSegment::EllipticalArc {
                        rx: s(5, 0),
                        ry: s(5, 0),
                        x_axis_rotation: s(0, 0),
                        large_arc: false,
                        sweep: true,
                        x: s(9, 0),
                        y: s(9, 0),
                    },
                    PathSegment::ClosePath,
                ]),
            }],
        },
    ];
    let mut doc = Document { elements: elems };
    round_numbers(&mut doc, &cfg(0, 0, 0, 0));
    assert_eq!(doc.elements.len(), 3);
    assert_eq!(doc.elements[0].attrs.len(), 2);
    assert_eq!(doc.elements[0].attrs[0].id, AttrId::Points);
    assert_eq!(doc.elements[0].attrs[1].id, AttrId::Stroke);
    match &doc.elements[0].attrs[0].value {
        Value::NumberList(ns) => assert_eq!(ns.len(), 3),
        _ => panic!("value kind changed"),
    }
    assert_eq!(doc.elements[1].attrs.len(), 0);
    match &doc.elements[2].attrs[0].value {
        Value::Path(segs) => {
            assert_eq!(segs.len(), 3);
            match segs[1] {
                PathSegment::EllipticalArc { large_arc, sweep, .. } => {
                    assert!(!large_arc);
                    assert!(sweep);
                }
                _ => panic!("segment kind changed"),
            }
            assert_eq!(segs[2], PathSegment::ClosePath);
        }
        _ => panic!("value kind changed"),
    }
}

#[test]
fn pass_is_idempotent_on_a_document() {
    let mut doc = Document {
        elements: vec![Element {
            attrs: vec![
                Attribute {
                    id: AttrId::Y,
                    value: Value::Length(Length { num: s(987654, 5), unit: Unit::Unitless }),
                },
                Attribute { id: AttrId::Opacity, value: Value::Number(s(4999, 4)) },
            ],
        }],
    };
    let options = cfg(2, 1, 3, 0);
    round_numbers(&mut doc, &options);
    let once = doc.clone();
    round_numbers(&mut doc, &options);
    assert_eq!(doc, once);
}

#[test]
fn validity_checks_reject_bad_scalars() {
    let good = Document {
        elements: vec![Element {
            attrs: vec![Attribute { id: AttrId::X, value: Value::Number(s(1, 1)) }],
        }],
    };
    assert!(document_is_wf(&good));
    assert!(element_is_wf(&good.elements[0]));
    assert!(value_is_wf(&good.elements[0].attrs[0].value));

    let bad = Document {
        elements: vec![Element {
            attrs: vec![Attribute {
                id: AttrId::ViewBox,
                value: Value::NumberList(vec![s(1, 1), s(1, MAX_PRECISION + 1)]),
            }],
        }],
    };
    assert!(!document_is_wf(&bad));
    assert!(!element_is_wf(&bad.elements[0]));
    assert!(!value_is_wf(&bad.elements[0].attrs[0].value));

    let bad_cfg = cfg(1, 1, 1, MAX_PRECISION + 1);
    assert!(!bad_cfg.is_valid());
}
