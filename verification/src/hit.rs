//! Hit testing: which nodes lie under the cursor.
use crate::dom::{DomId, NodeId, StyledDom, TagIdToNodeIdMapping};
use crate::geometry::{LayoutPoint, LayoutRect, LayoutSize, LogicalPosition, LogicalRect};
use crate::gpu::GpuValueCache;
use crate::parallel::map_indices;
use crate::rect::PositionedRectangle;
use crate::scalar::Scalar;
use crate::scroll::{OverflowingScrollNode, ScrolledNodes};
use crate::solved::{
    HeightCalculatedRect, HorizontalSolvedPosition, VerticalSolvedPosition, WidthCalculatedRect,
};
use crate::style::{LayoutFlexDirection, LayoutJustifyContent, LayoutPosition};
use crate::transform::ComputedTransform3D;
use std::collections::BTreeMap;
use vstd::prelude::*;

verus! {

/// A node that the cursor hits.
#[derive(Debug, Clone, Copy, PartialEq, PartialOrd)]
pub struct HitTestItem<S> {
    pub point_in_viewport: LogicalPosition<S>,
    pub point_relative_to_item: LogicalPosition<S>,
    /// The document that the node embeds, with the point in it.
    pub is_iframe_hit: Option<(DomId, LogicalPosition<S>)>,
    pub is_focusable: bool,
}

/// A scroll frame that the cursor hits.
#[derive(Debug, Clone, Copy, PartialEq, PartialOrd)]
pub struct ScrollHitTestItem<S> {
    pub point_in_viewport: LogicalPosition<S>,
    pub point_relative_to_item: LogicalPosition<S>,
    pub scroll_node: OverflowingScrollNode<S>,
}

/// Everything that the cursor hits.
#[derive(Debug, Clone, PartialEq, PartialOrd)]
pub struct HitTest<S> {
    pub regular_hit_test_nodes: BTreeMap<NodeId, HitTestItem<S>>,
    pub scroll_hit_test_nodes: BTreeMap<NodeId, ScrollHitTestItem<S>>,
}

impl<S: Scalar> HitTest<S> {
    pub fn empty() -> (r: Self)
        ensures
            r.regular_hit_test_nodes@ == Map::<NodeId, HitTestItem<S>>::empty(),
            r.scroll_hit_test_nodes@ == Map::<NodeId, ScrollHitTestItem<S>>::empty(),
    {
        HitTest {
            regular_hit_test_nodes: BTreeMap::new(),
            scroll_hit_test_nodes: BTreeMap::new(),
        }
    }

    pub fn is_empty(&self) -> (r: bool)
        ensures
            r == (self.regular_hit_test_nodes@.is_empty()
                && self.scroll_hit_test_nodes@.is_empty()),
    {
        self.regular_hit_test_nodes.is_empty() && self.scroll_hit_test_nodes.is_empty()
    }
}

/// The outcome of a layout.
#[derive(Debug, Clone)]
pub struct LayoutResult<S> {
    pub dom_id: DomId,
    pub parent_dom_id: Option<DomId>,
    pub styled_dom: StyledDom<S>,
    pub root_size: LayoutSize,
    pub root_position: LayoutPoint,
    pub preferred_widths: Vec<Option<S>>,
    pub preferred_heights: Vec<Option<S>>,
    pub width_calculated_rects: Vec<WidthCalculatedRect<S>>,
    pub height_calculated_rects: Vec<HeightCalculatedRect<S>>,
    pub solved_pos_x: Vec<HorizontalSolvedPosition<S>>,
    pub solved_pos_y: Vec<VerticalSolvedPosition<S>>,
    pub layout_flex_grows: Vec<S>,
    pub layout_positions: Vec<LayoutPosition>,
    pub layout_flex_directions: Vec<LayoutFlexDirection>,
    pub layout_justify_contents: Vec<LayoutJustifyContent>,
    pub rects: Vec<PositionedRectangle<S>>,
    pub scrollable_nodes: ScrolledNodes<S>,
    pub iframe_mapping: BTreeMap<NodeId, DomId>,
    pub gpu_value_cache: GpuValueCache<S>,
}

/// The offset of a node in the window; that of no node is (0, 0).
pub open spec fn offset_or_zero<S: Scalar>(
    rects: Seq<PositionedRectangle<S>>,
    node_id: Option<NodeId>,
) -> LogicalPosition<S> {
    match node_id {
        Some(n) => rects[n as int].logical_static_offset(),
        None => LogicalPosition::spec_zero(),
    }
}

/// The cursor, relative to a node instead of the node around it.
pub open spec fn moved_into<S: Scalar>(
    rects: Seq<PositionedRectangle<S>>,
    cursor: LogicalPosition<S>,
    node_id: NodeId,
    parent: Option<NodeId>,
) -> LogicalPosition<S> {
    cursor.spec_minus(
        offset_or_zero(rects, Some(node_id)).spec_minus(offset_or_zero(rects, parent)),
    )
}

/// The cursor before the transform of a node, if it has one that can be undone.
pub open spec fn unprojected<S: Scalar>(
    transforms: Map<NodeId, ComputedTransform3D<S>>,
    cursor: LogicalPosition<S>,
    node_id: NodeId,
) -> LogicalPosition<S> {
    if transforms.contains_key(node_id) {
        match transforms[node_id].spec_inverse().spec_transform_point2d(cursor) {
            Some(p) => p,
            None => cursor,
        }
    } else {
        cursor
    }
}

/// The innermost of the first `count` ancestors.
pub open spec fn innermost(parents: Seq<Option<NodeId>>, count: int) -> Option<NodeId> {
    if count > 0 {
        parents[count - 1]
    } else {
        None
    }
}

/// The cursor after it was moved into, and unprojected by, each of the first `count`
/// ancestors, from the innermost to the root.
pub open spec fn through_ancestors<S: Scalar>(
    rects: Seq<PositionedRectangle<S>>,
    transforms: Map<NodeId, ComputedTransform3D<S>>,
    parents: Seq<Option<NodeId>>,
    count: int,
    cursor: LogicalPosition<S>,
) -> LogicalPosition<S>
    decreases count,
{
    if count <= 0 {
        cursor
    } else {
        let next = match parents[count - 1] {
            None => cursor,
            Some(p) => unprojected(
                transforms,
                moved_into(rects, cursor, p, innermost(parents, count - 1)),
                p,
            ),
        };
        through_ancestors(rects, transforms, parents, count - 1, next)
    }
}

/// The cursor in the coordinates of a node. The node itself only counts if it has a
/// transform.
pub open spec fn projected_cursor<S: Scalar>(
    rects: Seq<PositionedRectangle<S>>,
    transforms: Map<NodeId, ComputedTransform3D<S>>,
    node_id: NodeId,
    parents: Seq<Option<NodeId>>,
    cursor: LogicalPosition<S>,
) -> LogicalPosition<S> {
    let start = if transforms.contains_key(node_id) {
        unprojected(
            transforms,
            moved_into(rects, cursor, node_id, innermost(parents, parents.len() as int)),
            node_id,
        )
    } else {
        cursor
    };
    through_ancestors(rects, transforms, parents, parents.len() as int, start)
}

impl<S: Scalar> LayoutResult<S> {
    /// Whether every node that can be hit, and every ancestor of it, has a rectangle.
    pub open spec fn wf(&self) -> bool {
        forall|t: int|
            0 <= t < self.styled_dom.tag_ids_to_node_ids@.len() ==> self.tag_wf(
                #[trigger] self.styled_dom.tag_ids_to_node_ids@[t],
            )
    }

    /// Whether the node of a tag, if there is one, and its ancestors have rectangles.
    pub open spec fn tag_wf(&self, tag: TagIdToNodeIdMapping) -> bool {
        tag.node_id matches Some(n) ==> {
            &&& n < self.rects@.len()
            &&& self.ancestors_wf(tag)
        }
    }

    /// Whether the ancestors of the node of a tag have rectangles.
    pub open spec fn ancestors_wf(&self, tag: TagIdToNodeIdMapping) -> bool {
        forall|k: int|
            0 <= k < tag.parent_node_ids@.len() ==> (#[trigger] tag.parent_node_ids@[k] matches
                Some(p) ==> p < self.rects@.len())
    }

    /// Whether the node of a tag, if there is one, has style data.
    pub open spec fn has_style(&self, tag: TagIdToNodeIdMapping) -> bool {
        tag.node_id matches Some(n) ==> n < self.styled_dom.node_data@.len()
    }

    pub fn get_bounds(&self) -> (r: LayoutRect)
        ensures
            r == (LayoutRect { origin: self.root_position, size: self.root_size }),
    {
        LayoutRect::new(self.root_position, self.root_size)
    }

    fn offset_of(&self, node_id: Option<NodeId>) -> (r: LogicalPosition<S>)
        requires
            node_id matches Some(n) ==> n < self.rects@.len(),
        ensures
            r == offset_or_zero(self.rects@, node_id),
    {
        match node_id {
            Some(n) => self.rects[n].get_logical_static_offset(),
            None => LogicalPosition::zero(),
        }
    }

    fn move_into(
        &self,
        cursor: LogicalPosition<S>,
        node_id: NodeId,
        parent: Option<NodeId>,
    ) -> (r: LogicalPosition<S>)
        requires
            node_id < self.rects@.len(),
            parent matches Some(p) ==> p < self.rects@.len(),
        ensures
            r == moved_into(self.rects@, cursor, node_id, parent),
    {
        let logical_offset: LogicalPosition<S> = self.offset_of(Some(node_id));
        let parent_offset: LogicalPosition<S> = self.offset_of(parent);
        cursor.minus(logical_offset.minus(parent_offset))
    }

    fn unproject(&self, cursor: LogicalPosition<S>, node_id: NodeId) -> (r: LogicalPosition<S>)
        ensures
            r == unprojected(self.gpu_value_cache.current_transform_values@, cursor, node_id),
    {
        match self.gpu_value_cache.current_transform_values.get(&node_id) {
            Some(transform) => match transform.inverse().transform_point2d(cursor) {
                Some(p) => p,
                None => cursor,
            },
            None => cursor,
        }
    }

    /// The cursor in the coordinates of the node of a tag.
    pub open spec fn cursor_in(
        &self,
        tag: TagIdToNodeIdMapping,
        node_id: NodeId,
        cursor: LogicalPosition<S>,
    ) -> LogicalPosition<S> {
        projected_cursor(
            self.rects@,
            self.gpu_value_cache.current_transform_values@,
            node_id,
            tag.parent_node_ids@,
            cursor,
        )
    }

    /// Goes from the node of a tag to the root and undoes all transforms.
    pub fn project_cursor(
        &self,
        tag: &TagIdToNodeIdMapping,
        node_id: NodeId,
        cursor: LogicalPosition<S>,
    ) -> (r: LogicalPosition<S>)
        requires
            self.ancestors_wf(*tag),
            node_id < self.rects@.len(),
        ensures
            r == self.cursor_in(*tag, node_id, cursor),
    {
        let parents: &Vec<Option<NodeId>> = &tag.parent_node_ids;
        let ghost rects = self.rects@;
        let ghost transforms = self.gpu_value_cache.current_transform_values@;
        let mut cursor_projected: LogicalPosition<S> = cursor;

        // apply the transform of the current node itself if there is any
        if self.gpu_value_cache.current_transform_values.contains_key(&node_id) {
            let parent: Option<NodeId> = if parents.len() > 0 {
                parents[parents.len() - 1]
            } else {
                None
            };
            cursor_projected = self.move_into(cursor_projected, node_id, parent);
            cursor_projected = self.unproject(cursor_projected, node_id);
        }
        let mut count: usize = parents.len();
        while count > 0
            invariant
                count <= parents@.len(),
                parents@ == tag.parent_node_ids@,
                rects == self.rects@,
                transforms == self.gpu_value_cache.current_transform_values@,
                self.ancestors_wf(*tag),
                through_ancestors(rects, transforms, parents@, count as int, cursor_projected)
                    == self.cursor_in(*tag, node_id, cursor),
            decreases count,
        {
            count -= 1;
            if let Some(parent_id) = parents[count] {
                let around: Option<NodeId> = if count > 0 {
                    parents[count - 1]
                } else {
                    None
                };
                cursor_projected = self.move_into(cursor_projected, parent_id, around);
                cursor_projected = self.unproject(cursor_projected, parent_id);
            }
        }
        cursor_projected
    }

    /// The rectangle of a node in its own coordinates.
    pub open spec fn rect_of(&self, node_id: NodeId) -> LogicalRect<S> {
        LogicalRect {
            origin: LogicalPosition::spec_zero(),
            size: self.rects@[node_id as int].size,
        }
    }

    /// The item of a node that was hit at `relative_to_item`.
    pub open spec fn item(
        &self,
        node_id: NodeId,
        cursor: LogicalPosition<S>,
        relative_to_item: LogicalPosition<S>,
    ) -> HitTestItem<S> {
        HitTestItem {
            point_in_viewport: cursor,
            point_relative_to_item: relative_to_item,
            is_iframe_hit: if self.iframe_mapping@.contains_key(node_id) {
                Some((self.iframe_mapping@[node_id], relative_to_item))
            } else {
                None
            },
            is_focusable: self.styled_dom.node_data@[node_id as int].tab_index is Some,
        }
    }

    /// The items of the first `count` tags, where `answers` holds at which point, if
    /// any, the node of each tag was hit. If a node has several tags, the last hit
    /// counts.
    pub open spec fn items(
        &self,
        cursor: LogicalPosition<S>,
        answers: Seq<Option<LogicalPosition<S>>>,
        count: int,
    ) -> Map<NodeId, HitTestItem<S>>
        decreases count,
    {
        if count <= 0 {
            Map::empty()
        } else {
            let before = self.items(cursor, answers, count - 1);
            match (self.styled_dom.tag_ids_to_node_ids@[count - 1].node_id, answers[count - 1]) {
                (Some(node_id), Some(relative_to_item)) => before.insert(
                    node_id,
                    self.item(node_id, cursor, relative_to_item),
                ),
                _ => before,
            }
        }
    }

    /// Collects the items of the nodes that were hit.
    pub fn collect_hits(
        &self,
        cursor: LogicalPosition<S>,
        answers: &Vec<Option<LogicalPosition<S>>>,
    ) -> (r: HitTest<S>)
        requires
            answers@.len() == self.styled_dom.tag_ids_to_node_ids@.len(),
            forall|t: int|
                0 <= t < answers@.len() && answers@[t] is Some ==> self.has_style(
                    #[trigger] self.styled_dom.tag_ids_to_node_ids@[t],
                ),
        ensures
            r.regular_hit_test_nodes@ == self.items(cursor, answers@, answers@.len() as int),
            r.scroll_hit_test_nodes@ == Map::<NodeId, ScrollHitTestItem<S>>::empty(),
    {
        let tags: &Vec<TagIdToNodeIdMapping> = &self.styled_dom.tag_ids_to_node_ids;
        let mut regular_hit_test_nodes: BTreeMap<NodeId, HitTestItem<S>> = BTreeMap::new();
        let mut t: usize = 0;
        while t < answers.len()
            invariant
                t <= answers@.len(),
                tags@ == self.styled_dom.tag_ids_to_node_ids@,
                answers@.len() == tags@.len(),
                forall|u: int|
                    0 <= u < answers@.len() && answers@[u] is Some ==> self.has_style(
                        #[trigger] tags@[u],
                    ),
                regular_hit_test_nodes@ == self.items(cursor, answers@, t as int),
            decreases answers.len() - t,
        {
            if let (Some(node_id), Some(relative_to_item)) = (tags[t].node_id, answers[t]) {
                assert(self.has_style(tags@[t as int]));
                let is_iframe_hit: Option<(DomId, LogicalPosition<S>)> =
                    match self.iframe_mapping.get(&node_id) {
                    Some(iframe_dom_id) => Some((*iframe_dom_id, relative_to_item)),
                    None => None,
                };
                regular_hit_test_nodes.insert(
                    node_id,
                    HitTestItem {
                        point_in_viewport: cursor,
                        point_relative_to_item: relative_to_item,
                        is_iframe_hit,
                        is_focusable: self.styled_dom.node_data[node_id].tab_index.is_some(),
                    },
                );
            }
            t += 1;
        }
        HitTest { regular_hit_test_nodes, scroll_hit_test_nodes: BTreeMap::new() }
    }

    /// Whether `answers` holds, for every tag with a node, what `hit_test` may return
    /// for the rectangle of the node and the cursor in its coordinates.
    pub open spec fn answered<
        F: Fn(LogicalRect<S>, LogicalPosition<S>) -> Option<LogicalPosition<S>>,
    >(
        &self,
        hit_test: &F,
        cursor: LogicalPosition<S>,
        answers: Seq<Option<LogicalPosition<S>>>,
    ) -> bool {
        let tags = self.styled_dom.tag_ids_to_node_ids@;
        &&& answers.len() == tags.len()
        &&& forall|t: int|
            0 <= t < tags.len() ==> self.tag_answered(
                hit_test,
                cursor,
                #[trigger] tags[t],
                answers[t],
            )
    }

    /// Whether `hit_test` may return `answer` for the node of a tag.
    pub open spec fn tag_answered<
        F: Fn(LogicalRect<S>, LogicalPosition<S>) -> Option<LogicalPosition<S>>,
    >(
        &self,
        hit_test: &F,
        cursor: LogicalPosition<S>,
        tag: TagIdToNodeIdMapping,
        answer: Option<LogicalPosition<S>>,
    ) -> bool {
        tag.node_id matches Some(node_id) ==> call_ensures(
            *hit_test,
            (self.rect_of(node_id), self.cursor_in(tag, node_id, cursor)),
            answer,
        )
    }

    /// Whether every node that `hit_test` may find under the cursor has style data.
    pub open spec fn hits_have_style<
        F: Fn(LogicalRect<S>, LogicalPosition<S>) -> Option<LogicalPosition<S>>,
    >(&self, hit_test: &F, cursor: LogicalPosition<S>) -> bool {
        let tags = self.styled_dom.tag_ids_to_node_ids@;
        forall|t: int, answer: Option<LogicalPosition<S>>|
            0 <= t < tags.len() && answer is Some && #[trigger] self.tag_answered(
                hit_test,
                cursor,
                tags[t],
                answer,
            ) ==> self.has_style(tags[t])
    }

    /// Whether `hits` may be the nodes under the cursor, which is given in physical
    /// pixels, going by what `hit_test` may answer.
    pub open spec fn may_hit<
        F: Fn(LogicalRect<S>, LogicalPosition<S>) -> Option<LogicalPosition<S>>,
    >(
        &self,
        cursor: LogicalPosition<S>,
        hidpi_factor: S,
        hit_test: &F,
        hits: Map<NodeId, HitTestItem<S>>,
    ) -> bool {
        if self.styled_dom.root is None {
            hits == Map::<NodeId, HitTestItem<S>>::empty()
        } else {
            exists|answers: Seq<Option<LogicalPosition<S>>>| #[trigger]
                self.answered(hit_test, cursor.spec_over(hidpi_factor), answers) && hits
                    == self.items(
                    cursor.spec_over(hidpi_factor),
                    answers,
                    answers.len() as int,
                )
        }
    }

    fn answer_tag<
        F: Fn(LogicalRect<S>, LogicalPosition<S>) -> Option<LogicalPosition<S>>,
    >(&self, hit_test: &F, cursor: LogicalPosition<S>, t: usize) -> (r: Option<LogicalPosition<S>>)
        requires
            self.wf(),
            t < self.styled_dom.tag_ids_to_node_ids@.len(),
            forall|rect: LogicalRect<S>, p: LogicalPosition<S>| call_requires(hit_test, (rect, p)),
        ensures
            self.tag_answered(
                hit_test,
                cursor,
                self.styled_dom.tag_ids_to_node_ids@[t as int],
                r,
            ),
    {
        let tag: &TagIdToNodeIdMapping = &self.styled_dom.tag_ids_to_node_ids[t];
        assert(self.tag_wf(*tag));
        match tag.node_id {
            None => None,
            Some(node_id) => {
                let cursor_projected: LogicalPosition<S> = self.project_cursor(
                    tag,
                    node_id,
                    cursor,
                );
                let logical_rect: LogicalRect<S> = LogicalRect::new(
                    LogicalPosition::zero(),
                    self.rects[node_id].size,
                );
                hit_test(logical_rect, cursor_projected)
            },
        }
    }

    /// Finds the nodes under the cursor, which is given in physical pixels.
    ///
    /// `hit_test` decides whether a point lies in a rectangle, and returns where. Style
    /// data is read of the nodes that are hit only.
    pub fn get_hits<
        F: Fn(LogicalRect<S>, LogicalPosition<S>) -> Option<LogicalPosition<S>> + Send + Sync,
    >(&self, cursor: &LogicalPosition<S>, hidpi_factor: S, hit_test: F) -> (r: HitTest<S>)
        requires
            self.styled_dom.root is Some ==> self.wf(),
            self.styled_dom.root is Some ==> self.hits_have_style(
                &hit_test,
                cursor.spec_over(hidpi_factor),
            ),
            forall|rect: LogicalRect<S>, p: LogicalPosition<S>| call_requires(hit_test, (rect, p)),
        ensures
            self.may_hit(*cursor, hidpi_factor, &hit_test, r.regular_hit_test_nodes@),
            r.scroll_hit_test_nodes@ == Map::<NodeId, ScrollHitTestItem<S>>::empty(),
    {
        let cursor: LogicalPosition<S> = cursor.over(hidpi_factor);
        if self.styled_dom.root.is_none() {
            return HitTest::empty();
        }
        let answer = |t: usize| -> (o: Option<LogicalPosition<S>>)
            requires
                self.wf(),
                t < self.styled_dom.tag_ids_to_node_ids@.len(),
            ensures
                self.tag_answered(
                    &hit_test,
                    cursor,
                    self.styled_dom.tag_ids_to_node_ids@[t as int],
                    o,
                ),
        {
            self.answer_tag(&hit_test, cursor, t)
        };
        let answers: Vec<Option<LogicalPosition<S>>> = map_indices(
            self.styled_dom.tag_ids_to_node_ids.len(),
            answer,
        );
        proof {
            let tags = self.styled_dom.tag_ids_to_node_ids@;
            assert forall|t: int| 0 <= t < tags.len() implies self.tag_answered(
                &hit_test,
                cursor,
                #[trigger] tags[t],
                answers@[t],
            ) by {
                let k: usize = t as usize;
                assert(call_ensures(answer, (k,), answers@[k as int]));
            }
            assert(self.answered(&hit_test, cursor, answers@));
            assert forall|t: int| 0 <= t < answers@.len() && answers@[t] is Some implies
                self.has_style(#[trigger] tags[t]) by {
                assert(self.tag_answered(&hit_test, cursor, tags[t], answers@[t]));
            }
        }
        self.collect_hits(cursor, &answers)
    }
}

} // verus!
