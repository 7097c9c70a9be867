//! Inline text: its lines, their alignment and the options of its layout.
use crate::geometry::{LayoutRect, LogicalRect, LogicalSize};
use crate::scalar::Scalar;
use crate::style::{Length, StyleTextAlignmentHorz, StyleTextAlignmentVert};
use vstd::prelude::*;

verus! {

pub const DEFAULT_FONT_SIZE_PX: isize = 16;

pub const DEFAULT_FONT_ID: &'static str = "serif";

/// The lines of a text and the size of all of them together.
#[derive(Debug, Clone, PartialEq, PartialOrd)]
pub struct InlineTextLayout<S> {
    pub lines: Vec<InlineTextLine<S>>,
    pub content_size: LogicalSize<S>,
}

/// NOTE: The bounds of the text line is the TOP left corner (relative to the text origin),
/// but the word position is the BOTTOM left corner (relative to the text line).
#[derive(Debug, Clone, Copy, PartialEq, PartialOrd)]
pub struct InlineTextLine<S> {
    pub bounds: LogicalRect<S>,
    /// At which word does this line start?
    pub word_start: usize,
    /// At which word does this line end?
    pub word_end: usize,
}

impl<S: Scalar> InlineTextLine<S> {
    pub fn new(bounds: LogicalRect<S>, word_start: usize, word_end: usize) -> (r: Self)
        ensures
            r == (InlineTextLine { bounds, word_start, word_end }),
    {
        InlineTextLine { bounds, word_start, word_end }
    }

    /// The line with its left edge at `x`.
    pub open spec fn at_x(self, x: S) -> Self {
        InlineTextLine {
            bounds: LogicalRect {
                origin: crate::geometry::LogicalPosition { x, ..self.bounds.origin },
                ..self.bounds
            },
            ..self
        }
    }

    /// The line with its top edge at `y`.
    pub open spec fn at_y(self, y: S) -> Self {
        InlineTextLine {
            bounds: LogicalRect {
                origin: crate::geometry::LogicalPosition { y, ..self.bounds.origin },
                ..self.bounds
            },
            ..self
        }
    }

    /// The line, moved to the right by the share `multiplier` of the room that it
    /// leaves in the parent.
    pub open spec fn aligned_horizontal(self, parent_size: LogicalSize<S>, multiplier: S) -> Self {
        self.at_x(
            self.bounds.origin.x.spec_plus(
                multiplier.spec_times(parent_size.width.spec_minus(self.bounds.size.width)),
            ),
        )
    }

    /// The line, moved down by `shift`.
    pub open spec fn moved_down(self, shift: S) -> Self {
        self.at_y(self.bounds.origin.y.spec_plus(shift))
    }
}

impl<S: Scalar> InlineTextLayout<S> {
    /// The left edge of the first line, or 0 without lines.
    pub fn get_leading(&self) -> (r: S)
        ensures
            r == if self.lines@.len() == 0 {
                S::spec_zero()
            } else {
                self.lines@[0].bounds.origin.x
            },
    {
        if self.lines.len() == 0 {
            S::zero()
        } else {
            self.lines[0].bounds.origin.x
        }
    }

    /// The right edge of the first line, or 0 without lines.
    pub fn get_trailing(&self) -> (r: S)
        ensures
            r == if self.lines@.len() == 0 {
                S::spec_zero()
            } else {
                self.lines@[0].bounds.origin.x.spec_plus(self.lines@[0].bounds.size.width)
            },
    {
        if self.lines.len() == 0 {
            S::zero()
        } else {
            self.lines[0].bounds.origin.x.plus(self.lines[0].bounds.size.width)
        }
    }

    /// The lines after they were aligned horizontally.
    pub open spec fn lines_aligned_horizontal(
        lines: Seq<InlineTextLine<S>>,
        parent_size: LogicalSize<S>,
        horizontal_alignment: StyleTextAlignmentHorz,
    ) -> Seq<InlineTextLine<S>> {
        match horizontal_shift_multiplier::<S>(horizontal_alignment) {
            None => lines,
            Some(multiplier) => lines.map_values(
                |line: InlineTextLine<S>| line.aligned_horizontal(parent_size, multiplier),
            ),
        }
    }

    /// Align the lines horizontal to *their bounding box*.
    pub fn align_children_horizontal(
        &mut self,
        parent_size: &LogicalSize<S>,
        horizontal_alignment: StyleTextAlignmentHorz,
    )
        ensures
            final(self).lines@ == Self::lines_aligned_horizontal(
                old(self).lines@,
                *parent_size,
                horizontal_alignment,
            ),
            final(self).content_size == old(self).content_size,
            final(self).lines@.len() == old(self).lines@.len(),
            forall|n: int|
                0 <= n < old(self).lines@.len() ==> {
                    &&& (#[trigger] final(self).lines@[n]).bounds.origin.y
                        == old(self).lines@[n].bounds.origin.y
                    &&& final(self).lines@[n].bounds.size == old(self).lines@[n].bounds.size
                    &&& final(self).lines@[n].word_start == old(self).lines@[n].word_start
                    &&& final(self).lines@[n].word_end == old(self).lines@[n].word_end
                },
    {
        let shift_multiplier: S = match calculate_horizontal_shift_multiplier(
            horizontal_alignment,
        ) {
            None => {
                return ;
            },
            Some(s) => s,
        };
        let mut k: usize = 0;
        while k < self.lines.len()
            invariant
                k <= self.lines.len(),
                self.lines.len() == old(self).lines.len(),
                self.content_size == old(self).content_size,
                forall|n: int|
                    0 <= n < k ==> #[trigger] self.lines@[n]
                        == old(self).lines@[n].aligned_horizontal(*parent_size, shift_multiplier),
                forall|n: int|
                    k <= n < self.lines.len() ==> #[trigger] self.lines@[n]
                        == old(self).lines@[n],
            decreases self.lines.len() - k,
        {
            let mut line: InlineTextLine<S> = self.lines[k];
            line.bounds.origin.x = line.bounds.origin.x.plus(
                shift_multiplier.times(parent_size.width.minus(line.bounds.size.width)),
            );
            self.lines.set(k, line);
            k += 1;
        }
    }

    /// Where the last line starts, or 0 without lines.
    pub open spec fn glyphs_vertical_bottom(lines: Seq<InlineTextLine<S>>) -> S {
        if lines.len() == 0 {
            S::spec_zero()
        } else {
            lines.last().bounds.origin.y
        }
    }

    /// The lines after they were aligned vertically.
    pub open spec fn lines_aligned_vertical(
        lines: Seq<InlineTextLine<S>>,
        parent_size: LogicalSize<S>,
        vertical_alignment: StyleTextAlignmentVert,
    ) -> Seq<InlineTextLine<S>> {
        match vertical_shift_multiplier::<S>(vertical_alignment) {
            None => lines,
            Some(multiplier) => {
                let shift = parent_size.height.spec_minus(
                    Self::glyphs_vertical_bottom(lines),
                ).spec_times(multiplier);
                lines.map_values(|line: InlineTextLine<S>| line.moved_down(shift))
            },
        }
    }

    /// Align the lines vertical to *their parents container*.
    pub fn align_children_vertical_in_parent_bounds(
        &mut self,
        parent_size: &LogicalSize<S>,
        vertical_alignment: StyleTextAlignmentVert,
    )
        ensures
            final(self).lines@ == Self::lines_aligned_vertical(
                old(self).lines@,
                *parent_size,
                vertical_alignment,
            ),
            final(self).content_size == old(self).content_size,
            final(self).lines@.len() == old(self).lines@.len(),
            forall|n: int|
                0 <= n < old(self).lines@.len() ==> {
                    &&& (#[trigger] final(self).lines@[n]).bounds.origin.x
                        == old(self).lines@[n].bounds.origin.x
                    &&& final(self).lines@[n].bounds.size == old(self).lines@[n].bounds.size
                    &&& final(self).lines@[n].word_start == old(self).lines@[n].word_start
                    &&& final(self).lines@[n].word_end == old(self).lines@[n].word_end
                },
    {
        let shift_multiplier: S = match calculate_vertical_shift_multiplier(vertical_alignment) {
            None => {
                return ;
            },
            Some(s) => s,
        };
        let glyphs_vertical_bottom: S = if self.lines.len() == 0 {
            S::zero()
        } else {
            self.lines[self.lines.len() - 1].bounds.origin.y
        };
        let vertical_shift: S = parent_size.height.minus(glyphs_vertical_bottom).times(
            shift_multiplier,
        );
        let mut k: usize = 0;
        while k < self.lines.len()
            invariant
                k <= self.lines.len(),
                self.lines.len() == old(self).lines.len(),
                self.content_size == old(self).content_size,
                forall|n: int|
                    0 <= n < k ==> #[trigger] self.lines@[n] == old(self).lines@[n].moved_down(
                        vertical_shift,
                    ),
                forall|n: int|
                    k <= n < self.lines.len() ==> #[trigger] self.lines@[n]
                        == old(self).lines@[n],
            decreases self.lines.len() - k,
        {
            let mut line: InlineTextLine<S> = self.lines[k];
            line.bounds.origin.y = line.bounds.origin.y.plus(vertical_shift);
            self.lines.set(k, line);
            k += 1;
        }
    }
}

/// The share of the free width by which a line moves, if it moves.
pub open spec fn horizontal_shift_multiplier<S: Scalar>(
    horizontal_alignment: StyleTextAlignmentHorz,
) -> Option<S> {
    match horizontal_alignment {
        StyleTextAlignmentHorz::Left => None,
        StyleTextAlignmentHorz::Center => Some(S::spec_half()),
        StyleTextAlignmentHorz::Right => Some(S::spec_one()),
    }
}

pub fn calculate_horizontal_shift_multiplier<S: Scalar>(
    horizontal_alignment: StyleTextAlignmentHorz,
) -> (r: Option<S>)
    ensures
        r == horizontal_shift_multiplier::<S>(horizontal_alignment),
{
    match horizontal_alignment {
        StyleTextAlignmentHorz::Left => None,
        // move the line by the half width
        StyleTextAlignmentHorz::Center => Some(S::half()),
        // move the line by the full width
        StyleTextAlignmentHorz::Right => Some(S::one()),
    }
}

/// The share of the free height by which the lines move, if they move.
pub open spec fn vertical_shift_multiplier<S: Scalar>(
    vertical_alignment: StyleTextAlignmentVert,
) -> Option<S> {
    match vertical_alignment {
        StyleTextAlignmentVert::Top => None,
        StyleTextAlignmentVert::Center => Some(S::spec_half()),
        StyleTextAlignmentVert::Bottom => Some(S::spec_one()),
    }
}

pub fn calculate_vertical_shift_multiplier<S: Scalar>(
    vertical_alignment: StyleTextAlignmentVert,
) -> (r: Option<S>)
    ensures
        r == vertical_shift_multiplier::<S>(vertical_alignment),
{
    match vertical_alignment {
        StyleTextAlignmentVert::Top => None,
        // move the lines by the half height
        StyleTextAlignmentVert::Center => Some(S::half()),
        // move the lines by the full height
        StyleTextAlignmentVert::Bottom => Some(S::one()),
    }
}

/// Layout options that can impact the flow of word positions.
#[derive(Debug, Clone, PartialEq, PartialOrd)]
pub struct TextLayoutOptions<S> {
    /// Font size (in pixels) that this text has been laid out with
    pub font_size_px: Length<S>,
    /// Multiplier for the line height, default to 1.0
    pub line_height: Option<S>,
    /// Additional spacing between glyphs (in pixels)
    pub letter_spacing: Option<Length<S>>,
    /// Additional spacing between words (in pixels)
    pub word_spacing: Option<Length<S>>,
    /// How many spaces should a tab character emulate
    /// (multiplying value, i.e. `4.0` = one tab = 4 spaces)?
    pub tab_width: Option<S>,
    /// Maximum width of the text (in pixels) - if the text is set to `overflow:visible`, set this to None.
    pub max_horizontal_width: Option<S>,
    /// How many pixels of leading does the first line have? Note that this added onto to the holes,
    /// so for effects like `:first-letter`, use a hole instead of a leading.
    pub leading: Option<S>,
    /// This is more important for inline text layout where items can punch "holes"
    /// into the text flow, for example an image that floats to the right.
    pub holes: Vec<LayoutRect>,
}

impl<S: Scalar> Default for TextLayoutOptions<S> {
    fn default() -> (r: Self)
        ensures
            r.font_size_px == Length::Absolute(S::spec_zero()),
            r.line_height is None,
            r.letter_spacing is None,
            r.word_spacing is None,
            r.tab_width is None,
            r.max_horizontal_width is None,
            r.leading is None,
            r.holes@ == Seq::<LayoutRect>::empty(),
    {
        TextLayoutOptions {
            font_size_px: Length::Absolute(S::zero()),
            line_height: None,
            letter_spacing: None,
            word_spacing: None,
            tab_width: None,
            max_horizontal_width: None,
            leading: None,
            holes: Vec::new(),
        }
    }
}

/// Same as `TextLayoutOptions`, but with the lengths resolved to pixels
/// (because `letter_spacing`, `word_spacing`, etc. may be %-based values).
#[derive(Debug, Clone, PartialEq, PartialOrd)]
pub struct ResolvedTextLayoutOptions<S> {
    /// Font size (in pixels) that this text has been laid out with
    pub font_size_px: S,
    /// Multiplier for the line height, default to 1.0
    pub line_height: Option<S>,
    /// Additional spacing between glyphs (in pixels)
    pub letter_spacing: Option<S>,
    /// Additional spacing between words (in pixels)
    pub word_spacing: Option<S>,
    /// How many spaces should a tab character emulate
    /// (multiplying value, i.e. `4.0` = one tab = 4 spaces)?
    pub tab_width: Option<S>,
    /// Maximum width of the text (in pixels) - if the text is set to `overflow:visible`, set this to None.
    pub max_horizontal_width: Option<S>,
    /// How many pixels of leading does the first line have? Note that this added onto to the holes,
    /// so for effects like `:first-letter`, use a hole instead of a leading.
    pub leading: Option<S>,
    /// This is more important for inline text layout where items can punch "holes"
    /// into the text flow, for example an image that floats to the right.
    pub holes: Vec<LayoutRect>,
}

impl<S: Scalar> Default for ResolvedTextLayoutOptions<S> {
    fn default() -> (r: Self)
        ensures
            r.font_size_px == S::spec_zero(),
            r.line_height is None,
            r.letter_spacing is None,
            r.word_spacing is None,
            r.tab_width is None,
            r.max_horizontal_width is None,
            r.leading is None,
            r.holes@ == Seq::<LayoutRect>::empty(),
    {
        ResolvedTextLayoutOptions {
            font_size_px: S::zero(),
            line_height: None,
            letter_spacing: None,
            word_spacing: None,
            tab_width: None,
            max_horizontal_width: None,
            leading: None,
            holes: Vec::new(),
        }
    }
}

} // verus!
