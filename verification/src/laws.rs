//! Properties of the rounding pass, proved once and for all: idempotence,
//! the precision bound on rounded scalars, shape preservation, and the
//! guarantee that unclassified attributes are untouched.

use vstd::prelude::*;
use vstd::arithmetic::mul::lemma_mul_is_associative;
use crate::classify::{class_of, PrecisionClass, PrecisionConfig};
use crate::model::{AttrV, ElemV, Length, PathSegment, ValueV};
use crate::rounder::{
    spec_round_attribute, spec_round_document, spec_round_element, spec_round_length,
    spec_round_segment, spec_round_value,
};
use crate::scalar::{lemma_pow10_adds, pow10, spec_round, Scalar};

verus! {

// ---------------------------------------------------------------------------
// Idempotence: rounding what is already rounded at the same precision is
// the identity, from the scalar primitive up to the whole document.
// ---------------------------------------------------------------------------

/// Rounding a scalar twice at one precision equals rounding it once.
pub proof fn lemma_round_idempotent(s: Scalar, precision: u32)
    ensures
        spec_round(spec_round(s, precision), precision) == spec_round(s, precision),
{
}

/// Rounding a value twice under one class equals rounding it once.
pub proof fn lemma_round_value_idempotent(v: ValueV, class: PrecisionClass, options: PrecisionConfig)
    ensures
        spec_round_value(spec_round_value(v, class, options), class, options)
            == spec_round_value(v, class, options),
{
    match class {
        PrecisionClass::Coordinate => {
            if v is LengthList {
                let xs = v->LengthList_0;
                let f = |l: Length| spec_round_length(l, options.coordinates_precision);
                let once = xs.map_values(f);
                assert forall|i: int| 0 <= i < once.len() implies #[trigger] once.map_values(f)[i]
                    == once[i] by {};
                assert(once.map_values(f) =~= once);
            }
        },
        PrecisionClass::StyleScalar => {},
        PrecisionClass::Transform => {},
        PrecisionClass::PathData => {
            if v is Path {
                let segs = v->Path_0;
                let f = |s: PathSegment| spec_round_segment(s, options.paths_coordinates_precision);
                let once = segs.map_values(f);
                assert forall|i: int| 0 <= i < once.len() implies #[trigger] once.map_values(f)[i]
                    == once[i] by {};
                assert(once.map_values(f) =~= once);
            }
        },
        PrecisionClass::NumericList => {
            if v is NumberList {
                let ns = v->NumberList_0;
                let f = |n: Scalar| spec_round(n, options.paths_coordinates_precision);
                let once = ns.map_values(f);
                assert forall|i: int| 0 <= i < once.len() implies #[trigger] once.map_values(f)[i]
                    == once[i] by {};
                assert(once.map_values(f) =~= once);
            }
        },
    }
}

/// Rounding an attribute twice equals rounding it once.
pub proof fn lemma_round_attribute_idempotent(a: AttrV, options: PrecisionConfig)
    ensures
        spec_round_attribute(spec_round_attribute(a, options), options)
            == spec_round_attribute(a, options),
{
    match class_of(a.id) {
        Some(c) => {
            lemma_round_value_idempotent(a.value, c, options);
        },
        None => {},
    }
}

/// Rounding an element twice equals rounding it once.
pub proof fn lemma_round_element_idempotent(e: ElemV, options: PrecisionConfig)
    ensures
        spec_round_element(spec_round_element(e, options), options)
            == spec_round_element(e, options),
{
    let f = |a: AttrV| spec_round_attribute(a, options);
    let once = e.attrs.map_values(f);
    assert forall|i: int| 0 <= i < once.len() implies #[trigger] once.map_values(f)[i]
        == once[i] by {
        lemma_round_attribute_idempotent(e.attrs[i], options);
    };
    assert(once.map_values(f) =~= once);
    assert(spec_round_element(spec_round_element(e, options), options)
        =~= spec_round_element(e, options));
}

/// Running the whole pass twice with one configuration leaves exactly the
/// document the first run produced.
pub proof fn lemma_round_numbers_idempotent(d: Seq<ElemV>, options: PrecisionConfig)
    ensures
        spec_round_document(spec_round_document(d, options), options)
            == spec_round_document(d, options),
{
    let f = |e: ElemV| spec_round_element(e, options);
    let once = d.map_values(f);
    assert forall|i: int| 0 <= i < once.len() implies #[trigger] once.map_values(f)[i]
        == once[i] by {
        lemma_round_element_idempotent(d[i], options);
    };
    assert(once.map_values(f) =~= once);
}

// ---------------------------------------------------------------------------
// Precision bound: a rounded scalar times 10^precision is an integer.
// ---------------------------------------------------------------------------

/// The scalar's value times `10^precision` is an integer: some `k` with
/// `m * 10^precision == k * 10^scale`, so `(m / 10^scale) * 10^precision == k`.
pub open spec fn times_pow10_is_integer(s: Scalar, precision: u32) -> bool {
    exists|k: int| (s.m as int) * pow10(precision as nat) == #[trigger] (k * pow10(s.scale as nat))
}

/// A scalar rounded to `precision` carries at most that many decimal
/// places, so scaling it by `10^precision` lands on an integer.
pub proof fn lemma_round_precision_bound(s: Scalar, precision: u32)
    ensures
        spec_round(s, precision).is_rounded_to(precision),
        times_pow10_is_integer(spec_round(s, precision), precision),
{
    let r = spec_round(s, precision);
    let a = (precision - r.scale) as nat;
    let b = r.scale as nat;
    lemma_pow10_adds(a, b);
    let k = (r.m as int) * pow10(a);
    assert((r.m as int) * (pow10(a) * pow10(b)) == ((r.m as int) * pow10(a)) * pow10(b)) by {
        lemma_mul_is_associative(r.m as int, pow10(a), pow10(b));
    };
    assert((r.m as int) * pow10(precision as nat) == k * pow10(b));
}

// ---------------------------------------------------------------------------
// Shape preservation: the pass changes numbers only. Variant kinds, list
// lengths, segment kinds, units, arc flags, and everything non-numeric
// stay exactly as they were.
// ---------------------------------------------------------------------------

/// Two segments are the same drawing command, with the same arc flags.
pub open spec fn same_segment_shape(a: PathSegment, b: PathSegment) -> bool {
    match (a, b) {
        (PathSegment::MoveTo { .. }, PathSegment::MoveTo { .. }) => true,
        (PathSegment::LineTo { .. }, PathSegment::LineTo { .. }) => true,
        (PathSegment::HorizontalLineTo { .. }, PathSegment::HorizontalLineTo { .. }) => true,
        (PathSegment::VerticalLineTo { .. }, PathSegment::VerticalLineTo { .. }) => true,
        (PathSegment::CurveTo { .. }, PathSegment::CurveTo { .. }) => true,
        (PathSegment::SmoothCurveTo { .. }, PathSegment::SmoothCurveTo { .. }) => true,
        (PathSegment::Quadratic { .. }, PathSegment::Quadratic { .. }) => true,
        (PathSegment::SmoothQuadratic { .. }, PathSegment::SmoothQuadratic { .. }) => true,
        (
            PathSegment::EllipticalArc { large_arc: f1, sweep: s1, .. },
            PathSegment::EllipticalArc { large_arc: f2, sweep: s2, .. },
        ) => f1 == f2 && s1 == s2,
        (PathSegment::ClosePath, PathSegment::ClosePath) => true,
        _ => false,
    }
}

/// Two values have the same kind and the same non-numeric content: equal
/// lengths of lists, units, segment kinds and flags; non-numeric variants
/// are equal outright.
pub open spec fn same_value_shape(a: ValueV, b: ValueV) -> bool {
    match (a, b) {
        (ValueV::Number(_), ValueV::Number(_)) => true,
        (ValueV::Length(x), ValueV::Length(y)) => x.unit == y.unit,
        (ValueV::LengthList(x), ValueV::LengthList(y)) => x.len() == y.len() && (forall|i: int|
            0 <= i < x.len() ==> (#[trigger] x[i]).unit == y[i].unit),
        (ValueV::NumberList(x), ValueV::NumberList(y)) => x.len() == y.len(),
        (ValueV::Transform(_), ValueV::Transform(_)) => true,
        (ValueV::Path(x), ValueV::Path(y)) => x.len() == y.len() && (forall|i: int|
            0 <= i < x.len() ==> same_segment_shape(#[trigger] x[i], y[i])),
        (ValueV::Color(x), ValueV::Color(y)) => x == y,
        (ValueV::Text(x), ValueV::Text(y)) => x == y,
        _ => false,
    }
}

/// Same identity, same value shape.
pub open spec fn same_attribute_shape(a: AttrV, b: AttrV) -> bool {
    a.id == b.id && same_value_shape(a.value, b.value)
}

/// Same attribute count, pointwise same attribute shape.
pub open spec fn same_element_shape(a: ElemV, b: ElemV) -> bool {
    a.attrs.len() == b.attrs.len() && (forall|i: int|
        0 <= i < a.attrs.len() ==> same_attribute_shape(#[trigger] a.attrs[i], b.attrs[i]))
}

/// Same element count, pointwise same element shape.
pub open spec fn same_document_shape(a: Seq<ElemV>, b: Seq<ElemV>) -> bool {
    a.len() == b.len() && (forall|i: int|
        0 <= i < a.len() ==> same_element_shape(#[trigger] a[i], b[i]))
}

pub proof fn lemma_same_segment_shape_reflexive(s: PathSegment)
    ensures
        same_segment_shape(s, s),
{
}

pub proof fn lemma_same_value_shape_reflexive(v: ValueV)
    ensures
        same_value_shape(v, v),
{
    if v is Path {
        assert forall|i: int| 0 <= i < v->Path_0.len() implies same_segment_shape(
            #[trigger] v->Path_0[i],
            v->Path_0[i],
        ) by {
            lemma_same_segment_shape_reflexive(v->Path_0[i]);
        };
    }
}

/// Rounding a segment keeps its kind and its flags.
pub proof fn lemma_round_segment_preserves_shape(s: PathSegment, precision: u32)
    ensures
        same_segment_shape(s, spec_round_segment(s, precision)),
{
}

/// Rounding a value keeps its kind, lengths, units and flags.
pub proof fn lemma_round_value_preserves_shape(
    v: ValueV,
    class: PrecisionClass,
    options: PrecisionConfig,
)
    ensures
        same_value_shape(v, spec_round_value(v, class, options)),
{
    let r = spec_round_value(v, class, options);
    if r == v {
        lemma_same_value_shape_reflexive(v);
    } else {
        match class {
            PrecisionClass::Coordinate => {
                if v is LengthList {
                    let xs = v->LengthList_0;
                    let f = |l: Length| spec_round_length(l, options.coordinates_precision);
                    assert forall|i: int| 0 <= i < xs.len() implies (#[trigger] xs[i]).unit
                        == xs.map_values(f)[i].unit by {};
                }
            },
            PrecisionClass::PathData => {
                if v is Path {
                    let segs = v->Path_0;
                    let f = |s: PathSegment| spec_round_segment(
                        s,
                        options.paths_coordinates_precision,
                    );
                    assert forall|i: int| 0 <= i < segs.len() implies same_segment_shape(
                        #[trigger] segs[i],
                        segs.map_values(f)[i],
                    ) by {
                        lemma_round_segment_preserves_shape(
                            segs[i],
                            options.paths_coordinates_precision,
                        );
                    };
                }
            },
            _ => {},
        }
    }
}

/// Rounding an attribute keeps its identity and its value's shape.
pub proof fn lemma_round_attribute_preserves_shape(a: AttrV, options: PrecisionConfig)
    ensures
        same_attribute_shape(a, spec_round_attribute(a, options)),
{
    match class_of(a.id) {
        Some(c) => {
            lemma_round_value_preserves_shape(a.value, c, options);
        },
        None => {
            lemma_same_value_shape_reflexive(a.value);
        },
    }
}

/// Rounding an element keeps its attribute count and each attribute's shape.
pub proof fn lemma_round_element_preserves_shape(e: ElemV, options: PrecisionConfig)
    ensures
        same_element_shape(e, spec_round_element(e, options)),
{
    let f = |a: AttrV| spec_round_attribute(a, options);
    assert forall|i: int| 0 <= i < e.attrs.len() implies same_attribute_shape(
        #[trigger] e.attrs[i],
        e.attrs.map_values(f)[i],
    ) by {
        lemma_round_attribute_preserves_shape(e.attrs[i], options);
    };
}

/// The pass keeps the document's element count and every element's shape:
/// nothing but numbers changes.
pub proof fn lemma_round_numbers_preserves_shape(d: Seq<ElemV>, options: PrecisionConfig)
    ensures
        same_document_shape(d, spec_round_document(d, options)),
{
    let f = |e: ElemV| spec_round_element(e, options);
    assert forall|i: int| 0 <= i < d.len() implies same_element_shape(
        #[trigger] d[i],
        d.map_values(f)[i],
    ) by {
        lemma_round_element_preserves_shape(d[i], options);
    };
}

// ---------------------------------------------------------------------------
// Unclassified identities are a guaranteed no-op.
// ---------------------------------------------------------------------------

/// An attribute whose identity no class lists comes out of the pass
/// exactly as it went in.
pub proof fn lemma_unclassified_untouched(a: AttrV, options: PrecisionConfig)
    requires
        class_of(a.id) is None,
    ensures
        spec_round_attribute(a, options) == a,
{
}

} // verus!
