//! The rounding pass: per-shape value rounding and the traversal driver.
//!
//! Each exec function returns exactly what its `spec_round_*` counterpart
//! describes, so the whole pass is pinned down by
//! `spec_round_document`: every numeric payload of a classified attribute
//! rounded at its class's precision, everything else untouched.

use vstd::prelude::*;
use crate::classify::{class_of, classify, PrecisionClass, PrecisionConfig};
use crate::model::{
    AttrV, Attribute, Document, ElemV, Element, Length, PathSegment, Transform, Value, ValueV,
    spec_doc_wf,
};
use crate::scalar::{round_number, spec_round, Scalar, MAX_PRECISION};

verus! {

/// Rounding a length touches its magnitude and keeps the unit.
pub open spec fn spec_round_length(l: Length, precision: u32) -> Length {
    Length { num: spec_round(l.num, precision), unit: l.unit }
}

/// The linear components `a..d` round at the transform precision, the
/// translation components `e` and `f` at the coordinate precision.
pub open spec fn spec_round_transform(t: Transform, ts_precision: u32, coord_precision: u32) -> Transform {
    Transform {
        a: spec_round(t.a, ts_precision),
        b: spec_round(t.b, ts_precision),
        c: spec_round(t.c, ts_precision),
        d: spec_round(t.d, ts_precision),
        e: spec_round(t.e, coord_precision),
        f: spec_round(t.f, coord_precision),
    }
}

/// Every numeric operand of a segment rounds at one precision; the kind
/// and the arc flags stay.
pub open spec fn spec_round_segment(seg: PathSegment, precision: u32) -> PathSegment {
    match seg {
        PathSegment::MoveTo { x, y } => PathSegment::MoveTo {
            x: spec_round(x, precision),
            y: spec_round(y, precision),
        },
        PathSegment::LineTo { x, y } => PathSegment::LineTo {
            x: spec_round(x, precision),
            y: spec_round(y, precision),
        },
        PathSegment::HorizontalLineTo { x } => PathSegment::HorizontalLineTo {
            x: spec_round(x, precision),
        },
        PathSegment::VerticalLineTo { y } => PathSegment::VerticalLineTo {
            y: spec_round(y, precision),
        },
        PathSegment::CurveTo { x1, y1, x2, y2, x, y } => PathSegment::CurveTo {
            x1: spec_round(x1, precision),
            y1: spec_round(y1, precision),
            x2: spec_round(x2, precision),
            y2: spec_round(y2, precision),
            x: spec_round(x, precision),
            y: spec_round(y, precision),
        },
        PathSegment::SmoothCurveTo { x2, y2, x, y } => PathSegment::SmoothCurveTo {
            x2: spec_round(x2, precision),
            y2: spec_round(y2, precision),
            x: spec_round(x, precision),
            y: spec_round(y, precision),
        },
        PathSegment::Quadratic { x1, y1, x, y } => PathSegment::Quadratic {
            x1: spec_round(x1, precision),
            y1: spec_round(y1, precision),
            x: spec_round(x, precision),
            y: spec_round(y, precision),
        },
        PathSegment::SmoothQuadratic { x, y } => PathSegment::SmoothQuadratic {
            x: spec_round(x, precision),
            y: spec_round(y, precision),
        },
        PathSegment::EllipticalArc { rx, ry, x_axis_rotation, large_arc, sweep, x, y } => {
            PathSegment::EllipticalArc {
                rx: spec_round(rx, precision),
                ry: spec_round(ry, precision),
                x_axis_rotation: spec_round(x_axis_rotation, precision),
                large_arc,
                sweep,
                x: spec_round(x, precision),
                y: spec_round(y, precision),
            }
        },
        PathSegment::ClosePath => PathSegment::ClosePath,
    }
}

/// What rounding a value under a class yields. Only the variants a class
/// knows are touched; any other pairing is a no-op by design.
pub open spec fn spec_round_value(v: ValueV, class: PrecisionClass, options: PrecisionConfig) -> ValueV {
    match class {
        PrecisionClass::Coordinate => match v {
            ValueV::Length(l) => ValueV::Length(
                spec_round_length(l, options.coordinates_precision),
            ),
            ValueV::LengthList(xs) => ValueV::LengthList(
                xs.map_values(|l: Length| spec_round_length(l, options.coordinates_precision)),
            ),
            _ => v,
        },
        PrecisionClass::StyleScalar => match v {
            ValueV::Number(n) => ValueV::Number(spec_round(n, options.properties_precision)),
            ValueV::Length(l) => ValueV::Length(
                spec_round_length(l, options.properties_precision),
            ),
            _ => v,
        },
        PrecisionClass::Transform => match v {
            ValueV::Transform(t) => ValueV::Transform(
                spec_round_transform(t, options.transforms_precision, options.coordinates_precision),
            ),
            _ => v,
        },
        PrecisionClass::PathData => match v {
            ValueV::Path(segs) => ValueV::Path(
                segs.map_values(
                    |s: PathSegment| spec_round_segment(s, options.paths_coordinates_precision),
                ),
            ),
            _ => v,
        },
        PrecisionClass::NumericList => match v {
            ValueV::NumberList(ns) => ValueV::NumberList(
                ns.map_values(|n: Scalar| spec_round(n, options.paths_coordinates_precision)),
            ),
            _ => v,
        },
    }
}

/// A classified attribute has its value rounded under its class; an
/// unclassified one is untouched.
pub open spec fn spec_round_attribute(a: AttrV, options: PrecisionConfig) -> AttrV {
    match class_of(a.id) {
        Some(c) => AttrV { id: a.id, value: spec_round_value(a.value, c, options) },
        None => a,
    }
}

/// Every attribute of an element, rounded; none added, removed or moved.
pub open spec fn spec_round_element(e: ElemV, options: PrecisionConfig) -> ElemV {
    ElemV { attrs: e.attrs.map_values(|a: AttrV| spec_round_attribute(a, options)) }
}

/// Every element of the document, rounded, in place.
pub open spec fn spec_round_document(d: Seq<ElemV>, options: PrecisionConfig) -> Seq<ElemV> {
    d.map_values(|e: ElemV| spec_round_element(e, options))
}

/// By-value form of the scalar primitive.
fn round_scalar(n: Scalar, precision: u32) -> (r: Scalar)
    requires
        n.wf(),
        precision <= MAX_PRECISION,
    ensures
        r == spec_round(n, precision),
        r.wf(),
{
    let mut m = n;
    round_number(&mut m, precision);
    m
}

/// Round a length's magnitude; its unit suffix is untouched.
pub fn round_length(l: Length, precision: u32) -> (r: Length)
    requires
        l.wf(),
        precision <= MAX_PRECISION,
    ensures
        r == spec_round_length(l, precision),
        r.wf(),
{
    Length { num: round_scalar(l.num, precision), unit: l.unit }
}

/// Round one path segment's operands; kind and flags stay.
pub fn round_segment(seg: PathSegment, precision: u32) -> (r: PathSegment)
    requires
        seg.wf(),
        precision <= MAX_PRECISION,
    ensures
        r == spec_round_segment(seg, precision),
        r.wf(),
{
    match seg {
        PathSegment::MoveTo { x, y } => PathSegment::MoveTo {
            x: round_scalar(x, precision),
            y: round_scalar(y, precision),
        },
        PathSegment::LineTo { x, y } => PathSegment::LineTo {
            x: round_scalar(x, precision),
            y: round_scalar(y, precision),
        },
        PathSegment::HorizontalLineTo { x } => PathSegment::HorizontalLineTo {
            x: round_scalar(x, precision),
        },
        PathSegment::VerticalLineTo { y } => PathSegment::VerticalLineTo {
            y: round_scalar(y, precision),
        },
        PathSegment::CurveTo { x1, y1, x2, y2, x, y } => PathSegment::CurveTo {
            x1: round_scalar(x1, precision),
            y1: round_scalar(y1, precision),
            x2: round_scalar(x2, precision),
            y2: round_scalar(y2, precision),
            x: round_scalar(x, precision),
            y: round_scalar(y, precision),
        },
        PathSegment::SmoothCurveTo { x2, y2, x, y } => PathSegment::SmoothCurveTo {
            x2: round_scalar(x2, precision),
            y2: round_scalar(y2, precision),
            x: round_scalar(x, precision),
            y: round_scalar(y, precision),
        },
        PathSegment::Quadratic { x1, y1, x, y } => PathSegment::Quadratic {
            x1: round_scalar(x1, precision),
            y1: round_scalar(y1, precision),
            x: round_scalar(x, precision),
            y: round_scalar(y, precision),
        },
        PathSegment::SmoothQuadratic { x, y } => PathSegment::SmoothQuadratic {
            x: round_scalar(x, precision),
            y: round_scalar(y, precision),
        },
        PathSegment::EllipticalArc { rx, ry, x_axis_rotation, large_arc, sweep, x, y } => {
            PathSegment::EllipticalArc {
                rx: round_scalar(rx, precision),
                ry: round_scalar(ry, precision),
                x_axis_rotation: round_scalar(x_axis_rotation, precision),
                large_arc,
                sweep,
                x: round_scalar(x, precision),
                y: round_scalar(y, precision),
            }
        },
        PathSegment::ClosePath => PathSegment::ClosePath,
    }
}

/// Round the linear part of a matrix at the transform precision and its
/// translation at the coordinate precision.
pub fn round_transform(t: Transform, ts_precision: u32, coord_precision: u32) -> (r: Transform)
    requires
        t.wf(),
        ts_precision <= MAX_PRECISION,
        coord_precision <= MAX_PRECISION,
    ensures
        r == spec_round_transform(t, ts_precision, coord_precision),
        r.wf(),
{
    Transform {
        a: round_scalar(t.a, ts_precision),
        b: round_scalar(t.b, ts_precision),
        c: round_scalar(t.c, ts_precision),
        d: round_scalar(t.d, ts_precision),
        e: round_scalar(t.e, coord_precision),
        f: round_scalar(t.f, coord_precision),
    }
}

/// Round every segment of a path in place; order, kinds and flags stay.
pub fn round_path(path: &mut Vec<PathSegment>, precision: u32)
    requires
        forall|i: int| 0 <= i < old(path)@.len() ==> (#[trigger] old(path)@[i]).wf(),
        precision <= MAX_PRECISION,
    ensures
        final(path)@ == old(path)@.map_values(
            |s: PathSegment| spec_round_segment(s, precision),
        ),
        forall|i: int| 0 <= i < final(path)@.len() ==> (#[trigger] final(path)@[i]).wf(),
{
    let n = path.len();
    let mut out: Vec<PathSegment> = Vec::new();
    let mut i: usize = 0;
    while i < n
        invariant
            i <= n,
            n == path@.len(),
            path@ == old(path)@,
            precision <= MAX_PRECISION,
            forall|j: int| 0 <= j < n ==> (#[trigger] path@[j]).wf(),
            out@.len() == i,
            forall|j: int|
                0 <= j < i ==> #[trigger] out@[j] == spec_round_segment(path@[j], precision),
            forall|j: int| 0 <= j < i ==> (#[trigger] out@[j]).wf(),
        decreases n - i,
    {
        let s = path[i];
        out.push(round_segment(s, precision));
        i = i + 1;
    }
    proof {
        assert(out@ =~= old(path)@.map_values(|s: PathSegment| spec_round_segment(s, precision)));
    }
    *path = out;
}

/// Round a value under its class at the configured precision; a variant
/// the class does not know is returned unchanged.
pub fn round_value(v: Value, class: PrecisionClass, options: &PrecisionConfig) -> (r: Value)
    requires
        v@.wf(),
        options.wf(),
    ensures
        r@ == spec_round_value(v@, class, *options),
        r@.wf(),
{
    match class {
        PrecisionClass::Coordinate => match v {
            Value::Length(l) => Value::Length(round_length(l, options.coordinates_precision)),
            Value::LengthList(xs) => {
                let n = xs.len();
                let mut out: Vec<Length> = Vec::new();
                let mut i: usize = 0;
                while i < n
                    invariant
                        i <= n,
                        n == xs@.len(),
                        options.wf(),
                        forall|j: int| 0 <= j < n ==> (#[trigger] xs@[j]).wf(),
                        out@.len() == i,
                        forall|j: int|
                            0 <= j < i ==> #[trigger] out@[j] == spec_round_length(
                                xs@[j],
                                options.coordinates_precision,
                            ),
                        forall|j: int| 0 <= j < i ==> (#[trigger] out@[j]).wf(),
                    decreases n - i,
                {
                    let l = xs[i];
                    out.push(round_length(l, options.coordinates_precision));
                    i = i + 1;
                }
                proof {
                    assert(out@ =~= xs@.map_values(
                        |l: Length| spec_round_length(l, options.coordinates_precision),
                    ));
                }
                Value::LengthList(out)
            },
            other => other,
        },
        PrecisionClass::StyleScalar => match v {
            Value::Number(n) => Value::Number(round_scalar(n, options.properties_precision)),
            Value::Length(l) => Value::Length(round_length(l, options.properties_precision)),
            other => other,
        },
        PrecisionClass::Transform => match v {
            Value::Transform(t) => Value::Transform(
                round_transform(t, options.transforms_precision, options.coordinates_precision),
            ),
            other => other,
        },
        PrecisionClass::PathData => match v {
            Value::Path(segs) => {
                let mut segs = segs;
                round_path(&mut segs, options.paths_coordinates_precision);
                Value::Path(segs)
            },
            other => other,
        },
        PrecisionClass::NumericList => match v {
            Value::NumberList(ns) => {
                let n = ns.len();
                let mut out: Vec<Scalar> = Vec::new();
                let mut i: usize = 0;
                while i < n
                    invariant
                        i <= n,
                        n == ns@.len(),
                        options.wf(),
                        forall|j: int| 0 <= j < n ==> (#[trigger] ns@[j]).wf(),
                        out@.len() == i,
                        forall|j: int|
                            0 <= j < i ==> #[trigger] out@[j] == spec_round(
                                ns@[j],
                                options.paths_coordinates_precision,
                            ),
                        forall|j: int| 0 <= j < i ==> (#[trigger] out@[j]).wf(),
                    decreases n - i,
                {
                    let s = ns[i];
                    out.push(round_scalar(s, options.paths_coordinates_precision));
                    i = i + 1;
                }
                proof {
                    assert(out@ =~= ns@.map_values(
                        |s: Scalar| spec_round(s, options.paths_coordinates_precision),
                    ));
                }
                Value::NumberList(out)
            },
            other => other,
        },
    }
}

/// Classify one attribute and round its value accordingly; its identity
/// is never changed.
pub fn round_attribute(a: Attribute, options: &PrecisionConfig) -> (r: Attribute)
    requires
        a@.wf(),
        options.wf(),
    ensures
        r@ == spec_round_attribute(a@, *options),
        r@.wf(),
{
    let Attribute { id, value } = a;
    match classify(id) {
        Some(c) => Attribute { id, value: round_value(value, c, options) },
        None => Attribute { id, value },
    }
}

/// Round every attribute of one element; none added, removed or moved.
pub fn round_element(e: Element, options: &PrecisionConfig) -> (r: Element)
    requires
        e@.wf(),
        options.wf(),
    ensures
        r@ == spec_round_element(e@, *options),
        r@.wf(),
{
    let ghost ev = e@;
    let Element { mut attrs } = e;
    let ghost orig = attrs@;
    proof {
        assert forall|j: int| 0 <= j < orig.len() implies (#[trigger] orig[j])@.wf() by {
            assert(ev.attrs[j] == orig[j]@);
            assert(ev.attrs[j].wf());
        }
    }
    let n = attrs.len();
    let mut out: Vec<Attribute> = Vec::new();
    let mut i: usize = 0;
    while i < n
        invariant
            i <= n,
            n == orig.len(),
            attrs@ == orig.skip(i as int),
            options.wf(),
            forall|j: int| 0 <= j < n ==> (#[trigger] orig[j])@.wf(),
            out@.len() == i,
            forall|j: int|
                0 <= j < i ==> (#[trigger] out@[j])@ == spec_round_attribute(orig[j]@, *options),
            forall|j: int| 0 <= j < i ==> (#[trigger] out@[j])@.wf(),
        decreases n - i,
    {
        let a = attrs.remove(0);
        proof {
            assert(attrs@ =~= orig.skip(i + 1));
        }
        out.push(round_attribute(a, options));
        i = i + 1;
    }
    let r = Element { attrs: out };
    proof {
        assert(r@.attrs =~= e@.attrs.map_values(|a: AttrV| spec_round_attribute(a, *options)));
        assert(r@ =~= spec_round_element(e@, *options));
    }
    r
}

/// The traversal driver: visit every element of the document once and
/// round every attribute it carries, in place. Nothing is added, removed
/// or reordered.
pub fn round_numbers(doc: &mut Document, options: &PrecisionConfig)
    requires
        spec_doc_wf(old(doc)@),
        options.wf(),
    ensures
        final(doc)@ == spec_round_document(old(doc)@, *options),
        spec_doc_wf(final(doc)@),
{
    let ghost orig = doc.elements@;
    proof {
        assert forall|j: int| 0 <= j < orig.len() implies (#[trigger] orig[j])@.wf() by {
            assert(old(doc)@[j] == orig[j]@);
            assert(old(doc)@[j].wf());
        }
    }
    let n = doc.elements.len();
    let mut out: Vec<Element> = Vec::new();
    let mut i: usize = 0;
    while i < n
        invariant
            i <= n,
            n == orig.len(),
            doc.elements@ == orig.skip(i as int),
            options.wf(),
            forall|j: int| 0 <= j < n ==> (#[trigger] orig[j])@.wf(),
            out@.len() == i,
            forall|j: int|
                0 <= j < i ==> (#[trigger] out@[j])@ == spec_round_element(orig[j]@, *options),
            forall|j: int| 0 <= j < i ==> (#[trigger] out@[j])@.wf(),
        decreases n - i,
    {
        let e = doc.elements.remove(0);
        proof {
            assert(doc.elements@ =~= orig.skip(i + 1));
        }
        out.push(round_element(e, options));
        i = i + 1;
    }
    doc.elements = out;
    proof {
        assert(doc@ =~= spec_round_document(old(doc)@, *options));
    }
}

} // verus!
