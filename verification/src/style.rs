//! The style properties that the layout reads, after their units were
//! converted: absolute lengths are in pixels, and angles are in degrees.
use crate::scalar::Scalar;
use vstd::prelude::*;

verus! {

/// The value of a style property: a keyword or an exact value.
#[derive(Debug, Clone, Copy, PartialEq, PartialOrd)]
pub enum CssPropertyValue<T> {
    Auto,
    NoneKeyword,
    Initial,
    Inherit,
    Revert,
    Unset,
    Exact(T),
}

impl<T> CssPropertyValue<T> {
    /// The exact value, if there is one.
    pub open spec fn property(self) -> Option<T> {
        match self {
            CssPropertyValue::Exact(value) => Some(value),
            _ => None,
        }
    }

    pub fn get_property(&self) -> (r: Option<&T>)
        ensures
            match r {
                Some(value) => self.property() == Some(*value),
                None => self.property() is None,
            },
    {
        match self {
            CssPropertyValue::Exact(value) => Some(value),
            _ => None,
        }
    }
}

/// A length, either in pixels or relative to a length that is known later.
#[derive(Debug, Clone, Copy, PartialEq, PartialOrd)]
pub enum Length<S> {
    /// A number of pixels.
    Absolute(S),
    /// A percentage, 100 being the whole.
    Percent(S),
}

impl<S: Scalar> Length<S> {
    /// The length in pixels if `percent_resolve` is the whole.
    pub open spec fn pixels(self, percent_resolve: S) -> S {
        match self {
            Length::Absolute(px) => px,
            Length::Percent(percent) => percent.spec_over(S::spec_hundred()).spec_times(
                percent_resolve,
            ),
        }
    }

    pub fn to_pixels(&self, percent_resolve: S) -> (r: S)
        ensures
            r == self.pixels(percent_resolve),
    {
        match self {
            Length::Absolute(px) => *px,
            Length::Percent(percent) => percent.over(S::hundred()).times(percent_resolve),
        }
    }
}

/// The length of a property in pixels: that of its exact value, or 0 where the
/// property is absent or only a keyword.
pub open spec fn property_pixels<S: Scalar>(
    property: Option<CssPropertyValue<Length<S>>>,
    percent_resolve: S,
) -> S {
    match property {
        Some(CssPropertyValue::Exact(length)) => length.pixels(percent_resolve),
        _ => S::spec_zero(),
    }
}

/// Resolves the length of a property.
pub fn resolve_property<S: Scalar>(
    property: &Option<CssPropertyValue<Length<S>>>,
    percent_resolve: S,
) -> (r: S)
    ensures
        r == property_pixels(*property, percent_resolve),
{
    match property {
        Some(value) => match value.get_property() {
            Some(length) => length.to_pixels(percent_resolve),
            None => S::zero(),
        },
        None => S::zero(),
    }
}

/// The six coefficients of a 2D matrix.
#[derive(Debug, Clone, Copy, PartialEq)]
pub struct StyleTransformMatrix2D<S> {
    pub a: Length<S>,
    pub b: Length<S>,
    pub c: Length<S>,
    pub d: Length<S>,
    pub tx: Length<S>,
    pub ty: Length<S>,
}

/// The sixteen coefficients of a 3D matrix, row by row.
#[derive(Debug, Clone, Copy, PartialEq)]
pub struct StyleTransformMatrix3D<S> {
    pub m11: Length<S>,
    pub m12: Length<S>,
    pub m13: Length<S>,
    pub m14: Length<S>,
    pub m21: Length<S>,
    pub m22: Length<S>,
    pub m23: Length<S>,
    pub m24: Length<S>,
    pub m31: Length<S>,
    pub m32: Length<S>,
    pub m33: Length<S>,
    pub m34: Length<S>,
    pub m41: Length<S>,
    pub m42: Length<S>,
    pub m43: Length<S>,
    pub m44: Length<S>,
}

#[derive(Debug, Clone, Copy, PartialEq)]
pub struct StyleTransformTranslate2D<S> {
    pub x: Length<S>,
    pub y: Length<S>,
}

#[derive(Debug, Clone, Copy, PartialEq)]
pub struct StyleTransformTranslate3D<S> {
    pub x: Length<S>,
    pub y: Length<S>,
    pub z: Length<S>,
}

/// A rotation about the axis (x, y, z), by an angle in degrees.
#[derive(Debug, Clone, Copy, PartialEq)]
pub struct StyleTransformRotate3D<S> {
    pub x: S,
    pub y: S,
    pub z: S,
    pub angle: S,
}

#[derive(Debug, Clone, Copy, PartialEq)]
pub struct StyleTransformScale2D<S> {
    pub x: S,
    pub y: S,
}

#[derive(Debug, Clone, Copy, PartialEq)]
pub struct StyleTransformScale3D<S> {
    pub x: S,
    pub y: S,
    pub z: S,
}

/// The two angles of a skew, in degrees.
#[derive(Debug, Clone, Copy, PartialEq)]
pub struct StyleTransformSkew2D<S> {
    pub x: S,
    pub y: S,
}

/// One function of a `transform` property. Angles are in degrees.
#[derive(Debug, Clone, Copy, PartialEq)]
pub enum StyleTransform<S> {
    Matrix(StyleTransformMatrix2D<S>),
    Matrix3D(StyleTransformMatrix3D<S>),
    Translate(StyleTransformTranslate2D<S>),
    Translate3D(StyleTransformTranslate3D<S>),
    TranslateX(Length<S>),
    TranslateY(Length<S>),
    TranslateZ(Length<S>),
    Rotate(S),
    Rotate3D(StyleTransformRotate3D<S>),
    RotateX(S),
    RotateY(S),
    RotateZ(S),
    Scale(StyleTransformScale2D<S>),
    Scale3D(StyleTransformScale3D<S>),
    ScaleX(S),
    ScaleY(S),
    ScaleZ(S),
    Skew(StyleTransformSkew2D<S>),
    SkewX(S),
    SkewY(S),
    Perspective(Length<S>),
}

/// The point that a transform leaves in place, relative to the rectangle.
#[derive(Debug, Clone, Copy, PartialEq)]
pub struct StyleTransformOrigin<S> {
    pub x: Length<S>,
    pub y: Length<S>,
}

impl<S: Scalar> StyleTransformOrigin<S> {
    /// The center of the rectangle.
    pub open spec fn spec_default() -> Self {
        let center = Length::Percent(S::spec_hundred().spec_over(S::spec_two()));
        StyleTransformOrigin { x: center, y: center }
    }
}

impl<S: Scalar> Default for StyleTransformOrigin<S> {
    fn default() -> (r: Self)
        ensures
            r == Self::spec_default(),
    {
        let center: Length<S> = Length::Percent(S::hundred().over(S::two()));
        StyleTransformOrigin { x: center, y: center }
    }
}

#[derive(Debug, Clone, Copy, PartialEq, Eq)]
pub enum StyleTextAlignmentHorz {
    Left,
    Center,
    Right,
}

#[derive(Debug, Clone, Copy, PartialEq, Eq)]
pub enum StyleTextAlignmentVert {
    Top,
    Center,
    Bottom,
}

#[derive(Debug, Clone, Copy, PartialEq, Eq, PartialOrd)]
pub enum LayoutBoxSizing {
    ContentBox,
    BorderBox,
}

impl Default for LayoutBoxSizing {
    fn default() -> (r: Self)
        ensures
            r == LayoutBoxSizing::ContentBox,
    {
        LayoutBoxSizing::ContentBox
    }
}

#[derive(Debug, Clone, Copy, PartialEq, Eq, PartialOrd)]
pub enum LayoutOverflow {
    Scroll,
    Auto,
    Hidden,
    Visible,
    Clip,
}

impl Default for LayoutOverflow {
    fn default() -> (r: Self)
        ensures
            r == LayoutOverflow::Visible,
    {
        LayoutOverflow::Visible
    }
}

#[derive(Debug, Clone, Copy, PartialEq, Eq)]
pub enum LayoutPosition {
    Static,
    Relative,
    Absolute,
    Fixed,
    Sticky,
}

#[derive(Debug, Clone, Copy, PartialEq, Eq)]
pub enum LayoutFlexDirection {
    Row,
    RowReverse,
    Column,
    ColumnReverse,
}

#[derive(Debug, Clone, Copy, PartialEq, Eq)]
pub enum LayoutJustifyContent {
    FlexStart,
    FlexEnd,
    Start,
    End,
    Center,
    SpaceBetween,
    SpaceAround,
    SpaceEvenly,
}

/// An RGBA color.
#[derive(Debug, Clone, Copy, PartialEq, Eq, PartialOrd)]
pub struct ColorU {
    pub r: u8,
    pub g: u8,
    pub b: u8,
    pub a: u8,
}

/// On which side of the border a box shadow is drawn.
#[derive(Debug, Clone, Copy, PartialEq, Eq, PartialOrd)]
pub enum BoxShadowClipMode {
    Outset,
    Inset,
}

/// A box shadow, all lengths in pixels.
#[derive(Debug, Clone, Copy, PartialEq, PartialOrd)]
pub struct StyleBoxShadow<S> {
    pub offset_x: S,
    pub offset_y: S,
    pub blur_radius: S,
    pub spread_radius: S,
    pub clip_mode: BoxShadowClipMode,
    pub color: ColorU,
}

} // verus!
