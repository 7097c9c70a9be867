//! Results of the UI layout solver: inline text lines, box constraints,
//! positioned rectangles, computed transforms, the values cached on the GPU
//! and hit testing.
//!
//! Every measured quantity has a type that implements [`Scalar`]. A renderer
//! uses a floating point scalar. The algebraic laws are proved for every scalar
//! whose arithmetic is exact: a [`Ring`](ring::Ring), a [`Field`](ring::Field)
//! or one with [`Angles`](ring::Angles). The crate itself carries `i64`, which is
//! exact modulo 2^64, and [`Residue`], which is exact modulo 7 and divides.
pub mod box_laws;
pub mod composition_laws;
pub mod constraint;
pub mod dom;
pub mod formal_product;
pub mod formal_sum;
pub mod geometry;
pub mod gpu;
pub mod gpu_laws;
pub mod hit;
pub mod hit_laws;
pub mod layout_laws;
pub mod overflow;
mod parallel;
pub mod point_laws;
pub mod rect;
pub mod residue;
pub mod result_laws;
pub mod ring;
pub mod rotation_laws;
pub mod scalar;
pub mod scroll;
pub mod solved;
pub mod style;
pub mod style_laws;
pub mod text;
pub mod transform;
pub mod transform_laws;
pub mod whole;

pub use constraint::WhConstraint;
pub use geometry::{
    LayoutPoint, LayoutRect, LayoutSize, LogicalPosition, LogicalRect, LogicalSize,
};
pub use gpu::{
    GpuEventChanges, GpuKeyEvent, GpuOpacityKeyEvent, GpuTransformKeyEvent, GpuValueCache,
    RelayoutChanges,
};
pub use hit::{HitTest, HitTestItem, LayoutResult, ScrollHitTestItem};
pub use overflow::{DirectionalOverflowInfo, OverflowInfo};
pub use rect::{PositionInfo, PositionedRectangle, ResolvedOffsets, StyleBoxShadowOffsets};
pub use residue::Residue;
pub use scalar::Scalar;
pub use scroll::{ExternalScrollId, OverflowingScrollNode, ScrolledNodes};
pub use solved::{
    HeightCalculatedRect, HeightSolvedResult, HorizontalSolvedPosition, VerticalSolvedPosition,
    WidthCalculatedRect, WidthSolvedResult,
};
pub use text::{
    calculate_horizontal_shift_multiplier, calculate_vertical_shift_multiplier, InlineTextLayout,
    InlineTextLine, ResolvedTextLayoutOptions, TextLayoutOptions,
};
pub use transform::{ComputedTransform3D, CpuFeatures, RotationMode};
