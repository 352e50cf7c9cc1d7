//! Classification of attribute identities into precision classes, and the
//! precision configuration that assigns a decimal precision to each class.

use vstd::prelude::*;
use crate::model::AttrId;
use crate::scalar::MAX_PRECISION;

verus! {

/// The five precision classes; an unclassified identity is left alone.
#[derive(Clone, Copy, PartialEq, Eq, Structural, Debug)]
pub enum PrecisionClass {
    /// Positional or dimensional values, rounded at the coordinate precision.
    Coordinate,
    /// Style and property scalars, rounded at the property precision.
    StyleScalar,
    /// Affine matrices: linear part at the transform precision, translation
    /// at the coordinate precision.
    Transform,
    /// Path geometry, rounded at the path-coordinate precision.
    PathData,
    /// Plain numeric lists, rounded at the path-coordinate precision.
    NumericList,
}

/// The fixed, total mapping from attribute identity to precision class.
pub open spec fn class_of(id: AttrId) -> Option<PrecisionClass> {
    match id {
        AttrId::X | AttrId::Y | AttrId::Dx | AttrId::Dy | AttrId::X1 | AttrId::Y1 | AttrId::X2
            | AttrId::Y2 | AttrId::R | AttrId::Rx | AttrId::Ry | AttrId::Cx | AttrId::Cy
            | AttrId::Fx | AttrId::Fy | AttrId::Width | AttrId::Height
            | AttrId::StrokeDasharray => Some(PrecisionClass::Coordinate),
        AttrId::StrokeDashoffset | AttrId::StrokeMiterlimit | AttrId::StrokeWidth
            | AttrId::Opacity | AttrId::FillOpacity | AttrId::FloodOpacity
            | AttrId::StrokeOpacity | AttrId::StopOpacity | AttrId::FontSize => Some(
            PrecisionClass::StyleScalar,
        ),
        AttrId::Transform | AttrId::GradientTransform | AttrId::PatternTransform => Some(
            PrecisionClass::Transform,
        ),
        AttrId::D => Some(PrecisionClass::PathData),
        AttrId::ViewBox | AttrId::Points => Some(PrecisionClass::NumericList),
        _ => None,
    }
}

/// Classify an attribute identity; `None` means the pass leaves it alone.
pub fn classify(id: AttrId) -> (r: Option<PrecisionClass>)
    ensures
        r == class_of(id),
{
    match id {
        AttrId::X | AttrId::Y | AttrId::Dx | AttrId::Dy | AttrId::X1 | AttrId::Y1 | AttrId::X2
            | AttrId::Y2 | AttrId::R | AttrId::Rx | AttrId::Ry | AttrId::Cx | AttrId::Cy
            | AttrId::Fx | AttrId::Fy | AttrId::Width | AttrId::Height
            | AttrId::StrokeDasharray => Some(PrecisionClass::Coordinate),
        AttrId::StrokeDashoffset | AttrId::StrokeMiterlimit | AttrId::StrokeWidth
            | AttrId::Opacity | AttrId::FillOpacity | AttrId::FloodOpacity
            | AttrId::StrokeOpacity | AttrId::StopOpacity | AttrId::FontSize => Some(
            PrecisionClass::StyleScalar,
        ),
        AttrId::Transform | AttrId::GradientTransform | AttrId::PatternTransform => Some(
            PrecisionClass::Transform,
        ),
        AttrId::D => Some(PrecisionClass::PathData),
        AttrId::ViewBox | AttrId::Points => Some(PrecisionClass::NumericList),
        _ => None,
    }
}

/// The four independent precision settings of the pass.
#[derive(Clone, Copy, PartialEq, Eq, Structural, Debug)]
pub struct PrecisionConfig {
    pub coordinates_precision: u32,
    pub properties_precision: u32,
    pub paths_coordinates_precision: u32,
    pub transforms_precision: u32,
}

impl PrecisionConfig {
    /// Validity: every setting indexes a supported power of ten.
    pub open spec fn wf(self) -> bool {
        &&& self.coordinates_precision <= MAX_PRECISION
        &&& self.properties_precision <= MAX_PRECISION
        &&& self.paths_coordinates_precision <= MAX_PRECISION
        &&& self.transforms_precision <= MAX_PRECISION
    }

    /// Check the settings once, up front; the pass itself requires them
    /// to be in range.
    pub fn is_valid(&self) -> (r: bool)
        ensures
            r == self.wf(),
    {
        self.coordinates_precision <= MAX_PRECISION
            && self.properties_precision <= MAX_PRECISION
            && self.paths_coordinates_precision <= MAX_PRECISION
            && self.transforms_precision <= MAX_PRECISION
    }
}

} // verus!
