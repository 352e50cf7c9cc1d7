//! The in-memory document model the rounding pass works on.
//!
//! A `Document` owns its elements in depth-first order; each `Element`
//! carries attributes, and each `Attribute` pairs a known identity with a
//! typed `Value`. Every numeric payload is a fixed-point `Scalar`, so the
//! pass's effect can be stated exactly. Ghost counterparts (`ValueV`,
//! `AttrV`, `ElemV`) view the vectors as sequences for use in contracts.

use vstd::prelude::*;
use crate::scalar::{scalar_is_wf, Scalar};

verus! {

/// Identity of an attribute, drawn from the closed set of known names.
#[derive(Clone, Copy, PartialEq, Eq, Structural, Debug)]
pub enum AttrId {
    X,
    Y,
    Dx,
    Dy,
    X1,
    Y1,
    X2,
    Y2,
    R,
    Rx,
    Ry,
    Cx,
    Cy,
    Fx,
    Fy,
    Width,
    Height,
    StrokeDasharray,
    StrokeDashoffset,
    StrokeMiterlimit,
    StrokeWidth,
    Opacity,
    FillOpacity,
    FloodOpacity,
    StrokeOpacity,
    StopOpacity,
    FontSize,
    Transform,
    GradientTransform,
    PatternTransform,
    D,
    ViewBox,
    Points,
    Fill,
    Stroke,
    Color,
    FontFamily,
    Id,
    Class,
    Style,
}

/// Unit suffix of a length; untouched by rounding.
#[derive(Clone, Copy, PartialEq, Eq, Structural, Debug)]
pub enum Unit {
    Unitless,
    Em,
    Ex,
    Px,
    In,
    Cm,
    Mm,
    Pt,
    Pc,
    Percent,
}

/// A scalar magnitude with a unit suffix.
#[derive(Clone, Copy, PartialEq, Eq, Structural, Debug)]
pub struct Length {
    pub num: Scalar,
    pub unit: Unit,
}

impl Length {
    pub open spec fn wf(self) -> bool {
        self.num.wf()
    }
}

/// A 6-component affine matrix; `a..d` are the linear part, `e` and `f`
/// the translation.
#[derive(Clone, Copy, PartialEq, Eq, Structural, Debug)]
pub struct Transform {
    pub a: Scalar,
    pub b: Scalar,
    pub c: Scalar,
    pub d: Scalar,
    pub e: Scalar,
    pub f: Scalar,
}

impl Transform {
    pub open spec fn wf(self) -> bool {
        &&& self.a.wf()
        &&& self.b.wf()
        &&& self.c.wf()
        &&& self.d.wf()
        &&& self.e.wf()
        &&& self.f.wf()
    }
}

/// One drawing command of a path, with its numeric operands and, for
/// arcs, the two boolean flags that rounding never touches.
#[derive(Clone, Copy, PartialEq, Eq, Structural, Debug)]
pub enum PathSegment {
    MoveTo { x: Scalar, y: Scalar },
    LineTo { x: Scalar, y: Scalar },
    HorizontalLineTo { x: Scalar },
    VerticalLineTo { y: Scalar },
    CurveTo { x1: Scalar, y1: Scalar, x2: Scalar, y2: Scalar, x: Scalar, y: Scalar },
    SmoothCurveTo { x2: Scalar, y2: Scalar, x: Scalar, y: Scalar },
    Quadratic { x1: Scalar, y1: Scalar, x: Scalar, y: Scalar },
    SmoothQuadratic { x: Scalar, y: Scalar },
    EllipticalArc {
        rx: Scalar,
        ry: Scalar,
        x_axis_rotation: Scalar,
        large_arc: bool,
        sweep: bool,
        x: Scalar,
        y: Scalar,
    },
    ClosePath,
}

impl PathSegment {
    pub open spec fn wf(self) -> bool {
        match self {
            PathSegment::MoveTo { x, y } => x.wf() && y.wf(),
            PathSegment::LineTo { x, y } => x.wf() && y.wf(),
            PathSegment::HorizontalLineTo { x } => x.wf(),
            PathSegment::VerticalLineTo { y } => y.wf(),
            PathSegment::CurveTo { x1, y1, x2, y2, x, y } => {
                x1.wf() && y1.wf() && x2.wf() && y2.wf() && x.wf() && y.wf()
            },
            PathSegment::SmoothCurveTo { x2, y2, x, y } => {
                x2.wf() && y2.wf() && x.wf() && y.wf()
            },
            PathSegment::Quadratic { x1, y1, x, y } => x1.wf() && y1.wf() && x.wf() && y.wf(),
            PathSegment::SmoothQuadratic { x, y } => x.wf() && y.wf(),
            PathSegment::EllipticalArc { rx, ry, x_axis_rotation, large_arc: _, sweep: _, x, y } => {
                rx.wf() && ry.wf() && x_axis_rotation.wf() && x.wf() && y.wf()
            },
            PathSegment::ClosePath => true,
        }
    }
}

/// An RGB color; a non-numeric payload the pass never touches.
#[derive(Clone, Copy, PartialEq, Eq, Structural, Debug)]
pub struct Rgb {
    pub red: u8,
    pub green: u8,
    pub blue: u8,
}

/// The typed payload of an attribute.
#[derive(Clone, PartialEq, Debug)]
pub enum Value {
    Number(Scalar),
    Length(Length),
    LengthList(Vec<Length>),
    NumberList(Vec<Scalar>),
    Transform(Transform),
    Path(Vec<PathSegment>),
    Color(Rgb),
    Text(String),
}

/// Ghost view of a `Value`: vectors become sequences.
#[verifier::ext_equal]
pub enum ValueV {
    Number(Scalar),
    Length(Length),
    NumberList(Seq<Scalar>),
    LengthList(Seq<Length>),
    Transform(Transform),
    Path(Seq<PathSegment>),
    Color(Rgb),
    Text(Seq<char>),
}

impl View for Value {
    type V = ValueV;

    open spec fn view(&self) -> ValueV {
        match self {
            Value::Number(s) => ValueV::Number(*s),
            Value::Length(l) => ValueV::Length(*l),
            Value::LengthList(xs) => ValueV::LengthList(xs@),
            Value::NumberList(ns) => ValueV::NumberList(ns@),
            Value::Transform(t) => ValueV::Transform(*t),
            Value::Path(segs) => ValueV::Path(segs@),
            Value::Color(c) => ValueV::Color(*c),
            Value::Text(t) => ValueV::Text(t@),
        }
    }
}

pub open spec fn all_lengths_wf(xs: Seq<Length>) -> bool {
    forall|i: int| 0 <= i < xs.len() ==> (#[trigger] xs[i]).wf()
}

pub open spec fn all_scalars_wf(ns: Seq<Scalar>) -> bool {
    forall|i: int| 0 <= i < ns.len() ==> (#[trigger] ns[i]).wf()
}

pub open spec fn all_segments_wf(segs: Seq<PathSegment>) -> bool {
    forall|i: int| 0 <= i < segs.len() ==> (#[trigger] segs[i]).wf()
}

impl ValueV {
    pub open spec fn wf(self) -> bool {
        match self {
            ValueV::Number(s) => s.wf(),
            ValueV::Length(l) => l.wf(),
            ValueV::LengthList(xs) => all_lengths_wf(xs),
            ValueV::NumberList(ns) => all_scalars_wf(ns),
            ValueV::Transform(t) => t.wf(),
            ValueV::Path(segs) => all_segments_wf(segs),
            ValueV::Color(_) => true,
            ValueV::Text(_) => true,
        }
    }
}

/// An attribute: a known identity with its typed payload.
#[derive(Clone, PartialEq, Debug)]
pub struct Attribute {
    pub id: AttrId,
    pub value: Value,
}

/// Ghost view of an `Attribute`.
#[verifier::ext_equal]
pub struct AttrV {
    pub id: AttrId,
    pub value: ValueV,
}

impl View for Attribute {
    type V = AttrV;

    open spec fn view(&self) -> AttrV {
        AttrV { id: self.id, value: self.value@ }
    }
}

impl AttrV {
    pub open spec fn wf(self) -> bool {
        self.value.wf()
    }
}

/// One node of the document: its attributes, in storage order.
#[derive(Clone, PartialEq, Debug)]
pub struct Element {
    pub attrs: Vec<Attribute>,
}

/// Ghost view of an `Element`.
#[verifier::ext_equal]
pub struct ElemV {
    pub attrs: Seq<AttrV>,
}

impl View for Element {
    type V = ElemV;

    open spec fn view(&self) -> ElemV {
        ElemV { attrs: self.attrs@.map_values(|a: Attribute| a@) }
    }
}

pub open spec fn all_attrs_wf(attrs: Seq<AttrV>) -> bool {
    forall|i: int| 0 <= i < attrs.len() ==> (#[trigger] attrs[i]).wf()
}

impl ElemV {
    pub open spec fn wf(self) -> bool {
        all_attrs_wf(self.attrs)
    }
}

/// The document: its elements, listed in depth-first order.
#[derive(Clone, PartialEq, Debug)]
pub struct Document {
    pub elements: Vec<Element>,
}

impl View for Document {
    type V = Seq<ElemV>;

    open spec fn view(&self) -> Seq<ElemV> {
        self.elements@.map_values(|e: Element| e@)
    }
}

/// Every scalar in the document is valid.
pub open spec fn spec_doc_wf(d: Seq<ElemV>) -> bool {
    forall|i: int| 0 <= i < d.len() ==> (#[trigger] d[i]).wf()
}

/// Executable form of `PathSegment::wf`.
pub fn segment_is_wf(s: PathSegment) -> (r: bool)
    ensures
        r == s.wf(),
{
    match s {
        PathSegment::MoveTo { x, y } => scalar_is_wf(x) && scalar_is_wf(y),
        PathSegment::LineTo { x, y } => scalar_is_wf(x) && scalar_is_wf(y),
        PathSegment::HorizontalLineTo { x } => scalar_is_wf(x),
        PathSegment::VerticalLineTo { y } => scalar_is_wf(y),
        PathSegment::CurveTo { x1, y1, x2, y2, x, y } => {
            scalar_is_wf(x1) && scalar_is_wf(y1) && scalar_is_wf(x2) && scalar_is_wf(y2)
                && scalar_is_wf(x) && scalar_is_wf(y)
        },
        PathSegment::SmoothCurveTo { x2, y2, x, y } => {
            scalar_is_wf(x2) && scalar_is_wf(y2) && scalar_is_wf(x) && scalar_is_wf(y)
        },
        PathSegment::Quadratic { x1, y1, x, y } => {
            scalar_is_wf(x1) && scalar_is_wf(y1) && scalar_is_wf(x) && scalar_is_wf(y)
        },
        PathSegment::SmoothQuadratic { x, y } => scalar_is_wf(x) && scalar_is_wf(y),
        PathSegment::EllipticalArc { rx, ry, x_axis_rotation, large_arc: _, sweep: _, x, y } => {
            scalar_is_wf(rx) && scalar_is_wf(ry) && scalar_is_wf(x_axis_rotation)
                && scalar_is_wf(x) && scalar_is_wf(y)
        },
        PathSegment::ClosePath => true,
    }
}

/// Executable form of `ValueV::wf` on a value.
pub fn value_is_wf(v: &Value) -> (r: bool)
    ensures
        r == v@.wf(),
{
    match v {
        Value::Number(s) => scalar_is_wf(*s),
        Value::Length(l) => scalar_is_wf(l.num),
        Value::LengthList(xs) => {
            let n = xs.len();
            let mut i: usize = 0;
            while i < n
                invariant
                    i <= n,
                    n == xs@.len(),
                    v@ == ValueV::LengthList(xs@),
                    forall|j: int| 0 <= j < i ==> (#[trigger] xs@[j]).wf(),
                decreases n - i,
            {
                if !scalar_is_wf(xs[i].num) {
                    proof {
                        assert(!(xs@[i as int]).wf());
                        assert(!all_lengths_wf(xs@));
                        assert(!v@.wf());
                    }
                    return false;
                }
                i = i + 1;
            }
            true
        },
        Value::NumberList(ns) => {
            let n = ns.len();
            let mut i: usize = 0;
            while i < n
                invariant
                    i <= n,
                    n == ns@.len(),
                    v@ == ValueV::NumberList(ns@),
                    forall|j: int| 0 <= j < i ==> (#[trigger] ns@[j]).wf(),
                decreases n - i,
            {
                if !scalar_is_wf(ns[i]) {
                    proof {
                        assert(!(ns@[i as int]).wf());
                        assert(!all_scalars_wf(ns@));
                        assert(!v@.wf());
                    }
                    return false;
                }
                i = i + 1;
            }
            true
        },
        Value::Transform(t) => {
            scalar_is_wf(t.a) && scalar_is_wf(t.b) && scalar_is_wf(t.c) && scalar_is_wf(t.d)
                && scalar_is_wf(t.e) && scalar_is_wf(t.f)
        },
        Value::Path(segs) => {
            let n = segs.len();
            let mut i: usize = 0;
            while i < n
                invariant
                    i <= n,
                    n == segs@.len(),
                    v@ == ValueV::Path(segs@),
                    forall|j: int| 0 <= j < i ==> (#[trigger] segs@[j]).wf(),
                decreases n - i,
            {
                if !segment_is_wf(segs[i]) {
                    proof {
                        assert(!(segs@[i as int]).wf());
                        assert(!all_segments_wf(segs@));
                        assert(!v@.wf());
                    }
                    return false;
                }
                i = i + 1;
            }
            true
        },
        Value::Color(_) => true,
        Value::Text(_) => true,
    }
}

/// Executable form of `ElemV::wf` on an element.
pub fn element_is_wf(e: &Element) -> (r: bool)
    ensures
        r == e@.wf(),
{
    let n = e.attrs.len();
    let mut i: usize = 0;
    while i < n
        invariant
            i <= n,
            n == e.attrs@.len(),
            forall|j: int| 0 <= j < i ==> (#[trigger] e.attrs@[j])@.wf(),
        decreases n - i,
    {
        if !value_is_wf(&e.attrs[i].value) {
            proof {
                assert(e@.attrs[i as int] == e.attrs@[i as int]@);
            }
            return false;
        }
        i = i + 1;
    }
    proof {
        assert forall|j: int| 0 <= j < e@.attrs.len() implies (#[trigger] e@.attrs[j]).wf() by {
            assert(e@.attrs[j] == e.attrs@[j]@);
        }
    }
    true
}

/// Check once, up front, that every scalar of the document is valid; the
/// pass requires it.
pub fn document_is_wf(doc: &Document) -> (r: bool)
    ensures
        r == spec_doc_wf(doc@),
{
    let n = doc.elements.len();
    let mut i: usize = 0;
    while i < n
        invariant
            i <= n,
            n == doc.elements@.len(),
            forall|j: int| 0 <= j < i ==> (#[trigger] doc.elements@[j])@.wf(),
        decreases n - i,
    {
        if !element_is_wf(&doc.elements[i]) {
            proof {
                assert(doc@[i as int] == doc.elements@[i as int]@);
            }
            return false;
        }
        i = i + 1;
    }
    proof {
        assert forall|j: int| 0 <= j < doc@.len() implies (#[trigger] doc@[j]).wf() by {
            assert(doc@[j] == doc.elements@[j]@);
        }
    }
    true
}

} // verus!
