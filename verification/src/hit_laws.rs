//! Laws of hit testing.
use crate::composition_laws::law_inverse_of_translation;
use crate::dom::{NodeId, TagIdToNodeIdMapping};
use crate::geometry::{LogicalPosition, LogicalRect};
use crate::hit::{
    innermost, moved_into, offset_or_zero, projected_cursor, through_ancestors, unprojected,
    HitTestItem, LayoutResult,
};
use crate::point_laws::{law_inverse_takes_points_back, law_translation_moves_points, passes_on};
use crate::rect::{PositionInfo, PositionedRectangle};
use crate::ring::{lemma_negated, lemma_plus_minus, lemma_regroups, Ring};
use crate::scalar::Scalar;
use crate::transform::ComputedTransform3D;
use crate::transform_laws::is_invertible;
use vstd::prelude::*;

verus! {

/// Whether tag `t` is one of the node, and was hit.
pub open spec fn is_hit_of<S: Scalar>(
    layout: &LayoutResult<S>,
    answers: Seq<Option<LogicalPosition<S>>>,
    node_id: NodeId,
    t: int,
) -> bool {
    layout.styled_dom.tag_ids_to_node_ids@[t].node_id == Some(node_id) && answers[t] is Some
}

/// A node is hit if and only if one of its tags was hit.
pub proof fn law_hit_if_and_only_if_a_tag_is<S: Scalar>(
    layout: &LayoutResult<S>,
    cursor: LogicalPosition<S>,
    answers: Seq<Option<LogicalPosition<S>>>,
    count: int,
    node_id: NodeId,
)
    ensures
        layout.items(cursor, answers, count).contains_key(node_id) <==> exists|t: int|
            0 <= t < count && #[trigger] is_hit_of(layout, answers, node_id, t),
    decreases count,
{
    if count > 0 {
        law_hit_if_and_only_if_a_tag_is(layout, cursor, answers, count - 1, node_id);
        if is_hit_of(layout, answers, node_id, count - 1) {
        } else if exists|t: int| 0 <= t < count && #[trigger] is_hit_of(
            layout,
            answers,
            node_id,
            t,
        ) {
            let t = choose|t: int| 0 <= t < count && #[trigger] is_hit_of(
                layout,
                answers,
                node_id,
                t,
            );
            assert(t < count - 1);
        }
    }
}

/// Where a node has several tags, the last one that was hit tells the point.
pub proof fn law_last_hit_counts<S: Scalar>(
    layout: &LayoutResult<S>,
    cursor: LogicalPosition<S>,
    answers: Seq<Option<LogicalPosition<S>>>,
    count: int,
    node_id: NodeId,
    t: int,
)
    requires
        0 <= t < count,
        is_hit_of(layout, answers, node_id, t),
        forall|u: int| t < u < count ==> !(#[trigger] is_hit_of(layout, answers, node_id, u)),
    ensures
        layout.items(cursor, answers, count).contains_key(node_id),
        layout.items(cursor, answers, count)[node_id] == layout.item(
            node_id,
            cursor,
            answers[t].unwrap(),
        ),
    decreases count,
{
    if t < count - 1 {
        assert(!is_hit_of(layout, answers, node_id, count - 1));
        law_last_hit_counts(layout, cursor, answers, count - 1, node_id, t);
    }
}

/// Every hit has the same point in the viewport, which is the cursor.
pub proof fn law_hits_share_the_cursor<S: Scalar>(
    layout: &LayoutResult<S>,
    cursor: LogicalPosition<S>,
    answers: Seq<Option<LogicalPosition<S>>>,
    count: int,
    node_id: NodeId,
)
    requires
        layout.items(cursor, answers, count).contains_key(node_id),
    ensures
        layout.items(cursor, answers, count)[node_id].point_in_viewport == cursor,
    decreases count,
{
    if count > 0 && !is_hit_of(layout, answers, node_id, count - 1) {
        law_hits_share_the_cursor(layout, cursor, answers, count - 1, node_id);
    }
}

/// Hit testing undoes the transform of a node: from where the transform takes a point,
/// the cursor is taken back to the point.
pub proof fn law_unprojecting_undoes_the_transform<S: Ring>(
    transforms: Map<NodeId, ComputedTransform3D<S>>,
    node_id: NodeId,
    p: LogicalPosition<S>,
)
    requires
        transforms.contains_key(node_id),
        is_invertible(transforms[node_id]),
        passes_on(transforms[node_id], transforms[node_id].spec_inverse(), p),
    ensures
        transforms[node_id].spec_transform_point2d(p) is Some,
        unprojected(
            transforms,
            transforms[node_id].spec_transform_point2d(p).unwrap(),
            node_id,
        ) == p,
{
    law_inverse_takes_points_back(transforms[node_id], p);
}

/// The cursor on a translated node is moved back by the translation.
pub proof fn law_unprojecting_a_translation<S: Ring>(
    transforms: Map<NodeId, ComputedTransform3D<S>>,
    node_id: NodeId,
    x: S,
    y: S,
    z: S,
    cursor: LogicalPosition<S>,
)
    requires
        transforms.contains_key(node_id),
        transforms[node_id] == ComputedTransform3D::spec_new_translation(x, y, z),
    ensures
        unprojected(transforms, cursor, node_id) == cursor.spec_minus(LogicalPosition { x, y }),
{
    law_inverse_of_translation(x, y, z);
    law_translation_moves_points(x.spec_negated(), y.spec_negated(), z.spec_negated(), cursor);
    S::minus_adds_negated(cursor.x, x);
    S::minus_adds_negated(cursor.y, y);
}

/// Without any transform, the cursor is moved into the innermost ancestor: the offsets
/// of the ancestors in between cancel each other.
pub proof fn law_cursor_without_transforms<S: Ring>(
    rects: Seq<PositionedRectangle<S>>,
    transforms: Map<NodeId, ComputedTransform3D<S>>,
    node_id: NodeId,
    parents: Seq<Option<NodeId>>,
    cursor: LogicalPosition<S>,
)
    requires
        !transforms.contains_key(node_id),
        forall|k: int|
            0 <= k < parents.len() ==> (#[trigger] parents[k] matches Some(p)
                && !transforms.contains_key(p)),
    ensures
        projected_cursor(rects, transforms, node_id, parents, cursor) == cursor.spec_minus(
            offset_or_zero(rects, innermost(parents, parents.len() as int)),
        ),
{
    lemma_through_plain_ancestors(rects, transforms, parents, parents.len() as int, cursor);
}

proof fn lemma_through_plain_ancestors<S: Ring>(
    rects: Seq<PositionedRectangle<S>>,
    transforms: Map<NodeId, ComputedTransform3D<S>>,
    parents: Seq<Option<NodeId>>,
    count: int,
    cursor: LogicalPosition<S>,
)
    requires
        0 <= count <= parents.len(),
        forall|k: int|
            0 <= k < parents.len() ==> (#[trigger] parents[k] matches Some(p)
                && !transforms.contains_key(p)),
    ensures
        through_ancestors(rects, transforms, parents, count, cursor) == cursor.spec_minus(
            offset_or_zero(rects, innermost(parents, count)),
        ),
    decreases count,
{
    if count == 0 {
        lemma_negated(cursor.x, cursor.x);
        lemma_negated(cursor.y, cursor.y);
    } else {
        assert(parents[count - 1] is Some);
        let p = parents[count - 1].unwrap();
        let around = innermost(parents, count - 1);
        let next = moved_into(rects, cursor, p, around);
        lemma_through_plain_ancestors(rects, transforms, parents, count - 1, next);
        let inner = offset_or_zero(rects, Some(p));
        let outer = offset_or_zero(rects, around);
        lemma_differences_cancel(cursor.x, inner.x, outer.x);
        lemma_differences_cancel(cursor.y, inner.y, outer.y);
    }
}

proof fn lemma_differences_cancel<S: Ring>(c: S, inner: S, outer: S)
    ensures
        c.spec_minus(inner.spec_minus(outer)).spec_minus(outer) == c.spec_minus(inner),
{
    lemma_regroups(c, inner, outer);
    lemma_plus_minus(c.spec_minus(inner), outer);
}

/// Where a node puts a point of its own, if it has a transform.
pub open spec fn placed<S: Scalar>(
    transforms: Map<NodeId, ComputedTransform3D<S>>,
    p: LogicalPosition<S>,
    node_id: NodeId,
) -> LogicalPosition<S> {
    if transforms.contains_key(node_id) {
        match transforms[node_id].spec_transform_point2d(p) {
            Some(q) => q,
            None => p,
        }
    } else {
        p
    }
}

/// Whether the transform of a node, if it has one, can be undone from where it takes a
/// point.
pub open spec fn undoable<S: Scalar>(
    transforms: Map<NodeId, ComputedTransform3D<S>>,
    p: LogicalPosition<S>,
    node_id: NodeId,
) -> bool {
    transforms.contains_key(node_id) ==> {
        let m = transforms[node_id];
        &&& is_invertible(m)
        &&& passes_on(m, m.spec_inverse(), p)
    }
}

/// A point relative to the node around a node, from the point relative to the node.
pub open spec fn moved_out_of<S: Scalar>(
    rects: Seq<PositionedRectangle<S>>,
    p: LogicalPosition<S>,
    node_id: NodeId,
    parent: Option<NodeId>,
) -> LogicalPosition<S> {
    let d = offset_or_zero(rects, Some(node_id)).spec_minus(offset_or_zero(rects, parent));
    LogicalPosition { x: p.x.spec_plus(d.x), y: p.y.spec_plus(d.y) }
}

/// A point after it was placed by, and moved out of, each of the first `count`
/// ancestors, from the root to the innermost.
pub open spec fn out_of_ancestors<S: Scalar>(
    rects: Seq<PositionedRectangle<S>>,
    transforms: Map<NodeId, ComputedTransform3D<S>>,
    parents: Seq<Option<NodeId>>,
    count: int,
    p: LogicalPosition<S>,
) -> LogicalPosition<S>
    decreases count,
{
    if count <= 0 {
        p
    } else {
        let q = out_of_ancestors(rects, transforms, parents, count - 1, p);
        match parents[count - 1] {
            None => q,
            Some(a) => moved_out_of(
                rects,
                placed(transforms, q, a),
                a,
                innermost(parents, count - 1),
            ),
        }
    }
}

/// Whether the transforms of the first `count` ancestors can be undone on the way of a
/// point.
pub open spec fn undoable_through<S: Scalar>(
    rects: Seq<PositionedRectangle<S>>,
    transforms: Map<NodeId, ComputedTransform3D<S>>,
    parents: Seq<Option<NodeId>>,
    count: int,
    p: LogicalPosition<S>,
) -> bool
    decreases count,
{
    count > 0 ==> {
        &&& undoable_through(rects, transforms, parents, count - 1, p)
        &&& parents[count - 1] matches Some(a) ==> undoable(
            transforms,
            out_of_ancestors(rects, transforms, parents, count - 1, p),
            a,
        )
    }
}

/// Where a point of a node is put by its ancestors and the node itself.
pub open spec fn placed_point<S: Scalar>(
    rects: Seq<PositionedRectangle<S>>,
    transforms: Map<NodeId, ComputedTransform3D<S>>,
    node_id: NodeId,
    parents: Seq<Option<NodeId>>,
    p: LogicalPosition<S>,
) -> LogicalPosition<S> {
    let q = out_of_ancestors(rects, transforms, parents, parents.len() as int, p);
    if transforms.contains_key(node_id) {
        moved_out_of(
            rects,
            placed(transforms, q, node_id),
            node_id,
            innermost(parents, parents.len() as int),
        )
    } else {
        q
    }
}

proof fn lemma_in_and_out<S: Ring>(
    rects: Seq<PositionedRectangle<S>>,
    p: LogicalPosition<S>,
    node_id: NodeId,
    parent: Option<NodeId>,
)
    ensures
        moved_into(rects, moved_out_of(rects, p, node_id, parent), node_id, parent) == p,
{
    let d = offset_or_zero(rects, Some(node_id)).spec_minus(offset_or_zero(rects, parent));
    lemma_plus_minus(p.x, d.x);
    lemma_plus_minus(p.y, d.y);
}

proof fn lemma_placed_and_back<S: Ring>(
    transforms: Map<NodeId, ComputedTransform3D<S>>,
    p: LogicalPosition<S>,
    node_id: NodeId,
)
    requires
        undoable(transforms, p, node_id),
    ensures
        unprojected(transforms, placed(transforms, p, node_id), node_id) == p,
{
    if transforms.contains_key(node_id) {
        law_unprojecting_undoes_the_transform(transforms, node_id, p);
    }
}

proof fn lemma_ancestors_and_back<S: Ring>(
    rects: Seq<PositionedRectangle<S>>,
    transforms: Map<NodeId, ComputedTransform3D<S>>,
    parents: Seq<Option<NodeId>>,
    count: int,
    p: LogicalPosition<S>,
)
    requires
        undoable_through(rects, transforms, parents, count, p),
    ensures
        through_ancestors(
            rects,
            transforms,
            parents,
            count,
            out_of_ancestors(rects, transforms, parents, count, p),
        ) == p,
    decreases count,
{
    if count > 0 {
        let q = out_of_ancestors(rects, transforms, parents, count - 1, p);
        lemma_ancestors_and_back(rects, transforms, parents, count - 1, p);
        if let Some(a) = parents[count - 1] {
            lemma_in_and_out(
                rects,
                placed(transforms, q, a),
                a,
                innermost(parents, count - 1),
            );
            lemma_placed_and_back(transforms, q, a);
        }
    }
}

/// The cursor is taken back to the point of the node that it is on: projecting it
/// undoes, step by step, where the transforms and the offsets of the ancestors and the
/// node itself put the point.
pub proof fn law_projecting_undoes_the_placement<S: Ring>(
    rects: Seq<PositionedRectangle<S>>,
    transforms: Map<NodeId, ComputedTransform3D<S>>,
    node_id: NodeId,
    parents: Seq<Option<NodeId>>,
    p: LogicalPosition<S>,
)
    requires
        undoable_through(rects, transforms, parents, parents.len() as int, p),
        undoable(
            transforms,
            out_of_ancestors(rects, transforms, parents, parents.len() as int, p),
            node_id,
        ),
    ensures
        projected_cursor(
            rects,
            transforms,
            node_id,
            parents,
            placed_point(rects, transforms, node_id, parents, p),
        ) == p,
{
    let q = out_of_ancestors(rects, transforms, parents, parents.len() as int, p);
    lemma_ancestors_and_back(rects, transforms, parents, parents.len() as int, p);
    if transforms.contains_key(node_id) {
        lemma_in_and_out(
            rects,
            placed(transforms, q, node_id),
            node_id,
            innermost(parents, parents.len() as int),
        );
        lemma_placed_and_back(transforms, q, node_id);
    }
}

/// Whether `hit_test` has no more than one answer for any rectangle and point.
pub open spec fn answers_once<
    S: Scalar,
    F: Fn(LogicalRect<S>, LogicalPosition<S>) -> Option<LogicalPosition<S>>,
>(hit_test: &F) -> bool {
    forall|
        rect: LogicalRect<S>,
        p: LogicalPosition<S>,
        a: Option<LogicalPosition<S>>,
        b: Option<LogicalPosition<S>>,
    | #[trigger]
        call_ensures(*hit_test, (rect, p), a) && #[trigger] call_ensures(*hit_test, (rect, p), b)
            ==> a == b
}

proof fn lemma_items_once<
    S: Scalar,
    F: Fn(LogicalRect<S>, LogicalPosition<S>) -> Option<LogicalPosition<S>>,
>(
    layout: &LayoutResult<S>,
    cursor: LogicalPosition<S>,
    hit_test: &F,
    a: Seq<Option<LogicalPosition<S>>>,
    b: Seq<Option<LogicalPosition<S>>>,
    count: int,
)
    requires
        answers_once::<S, F>(hit_test),
        layout.answered(hit_test, cursor, a),
        layout.answered(hit_test, cursor, b),
        count <= a.len(),
    ensures
        layout.items(cursor, a, count) == layout.items(cursor, b, count),
    decreases count,
{
    if count > 0 {
        lemma_items_once(layout, cursor, hit_test, a, b, count - 1);
        let tag = layout.styled_dom.tag_ids_to_node_ids@[count - 1];
        assert(layout.tag_answered(hit_test, cursor, tag, a[count - 1]));
        assert(layout.tag_answered(hit_test, cursor, tag, b[count - 1]));
    }
}

/// A `hit_test` that has one answer for every rectangle and point gives one outcome.
pub proof fn law_hits_are_determined<
    S: Scalar,
    F: Fn(LogicalRect<S>, LogicalPosition<S>) -> Option<LogicalPosition<S>>,
>(
    layout: &LayoutResult<S>,
    cursor: LogicalPosition<S>,
    hidpi_factor: S,
    hit_test: &F,
    hits: Map<NodeId, HitTestItem<S>>,
    other_hits: Map<NodeId, HitTestItem<S>>,
)
    requires
        answers_once::<S, F>(hit_test),
        layout.may_hit(cursor, hidpi_factor, hit_test, hits),
        layout.may_hit(cursor, hidpi_factor, hit_test, other_hits),
    ensures
        hits == other_hits,
{
    if layout.styled_dom.root is Some {
        let c = cursor.spec_over(hidpi_factor);
        let a = choose|a: Seq<Option<LogicalPosition<S>>>| #[trigger]
            layout.answered(hit_test, c, a) && hits == layout.items(c, a, a.len() as int);
        let b = choose|b: Seq<Option<LogicalPosition<S>>>| #[trigger]
            layout.answered(hit_test, c, b) && other_hits == layout.items(c, b, b.len() as int);
        lemma_items_once(layout, c, hit_test, a, b, a.len() as int);
    }
}

/// The factor of the screen only rescales the cursor: a cursor with a factor gives what
/// the divided cursor gives with the factor 1. With a `hit_test` that has one answer for
/// every rectangle and point, both give the same hits.
pub proof fn law_hidpi_factor_rescales_the_cursor<
    S: Ring,
    F: Fn(LogicalRect<S>, LogicalPosition<S>) -> Option<LogicalPosition<S>>,
>(
    layout: &LayoutResult<S>,
    cursor: LogicalPosition<S>,
    hidpi_factor: S,
    hit_test: &F,
    hits: Map<NodeId, HitTestItem<S>>,
    rescaled_hits: Map<NodeId, HitTestItem<S>>,
)
    ensures
        layout.may_hit(cursor, hidpi_factor, hit_test, hits) <==> layout.may_hit(
            cursor.spec_over(hidpi_factor),
            S::spec_one(),
            hit_test,
            hits,
        ),
        answers_once::<S, F>(hit_test) && layout.may_hit(cursor, hidpi_factor, hit_test, hits)
            && layout.may_hit(
            cursor.spec_over(hidpi_factor),
            S::spec_one(),
            hit_test,
            rescaled_hits,
        ) ==> hits == rescaled_hits,
{
    let c = cursor.spec_over(hidpi_factor);
    S::over_one(c.x);
    S::over_one(c.y);
    assert(c.spec_over(S::spec_one()) == c);
    if answers_once::<S, F>(hit_test) && layout.may_hit(cursor, hidpi_factor, hit_test, hits)
        && layout.may_hit(c, S::spec_one(), hit_test, rescaled_hits) {
        assert(layout.may_hit(cursor, hidpi_factor, hit_test, rescaled_hits));
        law_hits_are_determined(layout, cursor, hidpi_factor, hit_test, hits, rescaled_hits);
    }
}

/// Where a rectangle lies in the window: the two static offsets of its position, whatever
/// the kind of position.
pub open spec fn place_in_window<S>(rect: PositionedRectangle<S>) -> (S, S) {
    match rect.position {
        PositionInfo::Static { static_x_offset, static_y_offset, .. } => (
            static_x_offset,
            static_y_offset,
        ),
        PositionInfo::Fixed { static_x_offset, static_y_offset, .. } => (
            static_x_offset,
            static_y_offset,
        ),
        PositionInfo::Absolute { static_x_offset, static_y_offset, .. } => (
            static_x_offset,
            static_y_offset,
        ),
        PositionInfo::Relative { static_x_offset, static_y_offset, .. } => (
            static_x_offset,
            static_y_offset,
        ),
    }
}

/// Without transforms, the cursor is tested relative to where the innermost ancestor lies
/// in the window, whatever the kinds of position of the ancestors; a node without
/// ancestors is tested against the cursor itself.
pub proof fn law_cursor_is_relative_to_innermost_ancestor<S: Ring>(
    layout: &LayoutResult<S>,
    tag: TagIdToNodeIdMapping,
    node_id: NodeId,
    cursor: LogicalPosition<S>,
)
    requires
        !layout.gpu_value_cache.current_transform_values@.contains_key(node_id),
        forall|k: int|
            0 <= k < tag.parent_node_ids@.len() ==> (#[trigger] tag.parent_node_ids@[k] matches
                Some(p) && !layout.gpu_value_cache.current_transform_values@.contains_key(p)),
    ensures
        tag.parent_node_ids@.len() == 0 ==> layout.cursor_in(tag, node_id, cursor) == cursor,
        tag.parent_node_ids@.len() > 0 ==> ({
            let place = place_in_window(
                layout.rects@[tag.parent_node_ids@.last().unwrap() as int],
            );
            &&& layout.cursor_in(tag, node_id, cursor).x == cursor.x.spec_minus(place.0)
            &&& layout.cursor_in(tag, node_id, cursor).y == cursor.y.spec_minus(place.1)
        }),
{
    let parents = tag.parent_node_ids@;
    law_cursor_without_transforms(
        layout.rects@,
        layout.gpu_value_cache.current_transform_values@,
        node_id,
        parents,
        cursor,
    );
    lemma_negated(cursor.x, cursor.x);
    lemma_negated(cursor.y, cursor.y);
    if parents.len() > 0 {
        assert(parents[parents.len() - 1] is Some);
    }
}

/// From a node that has a transform to the node around it: the cursor is moved by the
/// distance between the places of the two in the window, and only then the transform is
/// undone; without a node around it, it is moved by the place of the node.
pub proof fn law_cursor_in_transformed_node<S: Ring>(
    layout: &LayoutResult<S>,
    tag: TagIdToNodeIdMapping,
    node_id: NodeId,
    cursor: LogicalPosition<S>,
    x: S,
    y: S,
    z: S,
)
    requires
        layout.gpu_value_cache.current_transform_values@.contains_key(node_id),
        layout.gpu_value_cache.current_transform_values@[node_id]
            == ComputedTransform3D::spec_new_translation(x, y, z),
        tag.parent_node_ids@.len() == 0,
    ensures
        ({
            let place = place_in_window(layout.rects@[node_id as int]);
            let point = layout.cursor_in(tag, node_id, cursor);
            &&& point.x == cursor.x.spec_minus(place.0).spec_minus(x)
            &&& point.y == cursor.y.spec_minus(place.1).spec_minus(y)
        }),
{
    let place = place_in_window(layout.rects@[node_id as int]);
    let moved = LogicalPosition {
        x: cursor.x.spec_minus(place.0),
        y: cursor.y.spec_minus(place.1),
    };
    lemma_negated(place.0, place.0);
    lemma_negated(place.1, place.1);
    law_unprojecting_a_translation(
        layout.gpu_value_cache.current_transform_values@,
        node_id,
        x,
        y,
        z,
        moved,
    );
}

/// The point of a transformed node and of transformed ancestors: stepping from a node to
/// the ones around it subtracts the distance of their places in the window and undoes the
/// transform of each.
pub proof fn law_cursor_steps_outwards<S: Ring>(
    rects: Seq<PositionedRectangle<S>>,
    transforms: Map<NodeId, ComputedTransform3D<S>>,
    parents: Seq<Option<NodeId>>,
    ancestor: NodeId,
    cursor: LogicalPosition<S>,
)
    requires
        parents.len() > 0,
        parents.last() == Some(ancestor),
        parents.len() > 1 ==> parents[parents.len() - 2] is Some,
    ensures
        ({
            let place = place_in_window(rects[ancestor as int]);
            let around = if parents.len() > 1 {
                place_in_window(rects[parents[parents.len() - 2].unwrap() as int])
            } else {
                (S::spec_zero(), S::spec_zero())
            };
            let moved = LogicalPosition {
                x: cursor.x.spec_minus(place.0.spec_minus(around.0)),
                y: cursor.y.spec_minus(place.1.spec_minus(around.1)),
            };
            let next = if transforms.contains_key(ancestor) {
                match transforms[ancestor].spec_inverse().spec_transform_point2d(moved) {
                    Some(p) => p,
                    None => moved,
                }
            } else {
                moved
            };
            through_ancestors(rects, transforms, parents, parents.len() as int, cursor)
                == through_ancestors(
                rects,
                transforms,
                parents.drop_last(),
                parents.len() - 1,
                next,
            )
        }),
        through_ancestors(rects, transforms, Seq::empty(), 0, cursor) == cursor,
{
    let count = parents.len() - 1;
    let place = place_in_window(rects[ancestor as int]);
    let around = if parents.len() > 1 {
        place_in_window(rects[parents[parents.len() - 2].unwrap() as int])
    } else {
        (S::spec_zero(), S::spec_zero())
    };
    let moved = LogicalPosition {
        x: cursor.x.spec_minus(place.0.spec_minus(around.0)),
        y: cursor.y.spec_minus(place.1.spec_minus(around.1)),
    };
    assert(moved == moved_into(rects, cursor, ancestor, innermost(parents, count)));
    lemma_shorter(
        rects,
        transforms,
        parents,
        parents.drop_last(),
        count,
        unprojected(transforms, moved, ancestor),
    );
}

proof fn lemma_shorter<S: Scalar>(
    rects: Seq<PositionedRectangle<S>>,
    transforms: Map<NodeId, ComputedTransform3D<S>>,
    parents: Seq<Option<NodeId>>,
    others: Seq<Option<NodeId>>,
    count: int,
    cursor: LogicalPosition<S>,
)
    requires
        forall|k: int| 0 <= k < count ==> parents[k] == #[trigger] others[k],
    ensures
        through_ancestors(rects, transforms, parents, count, cursor) == through_ancestors(
            rects,
            transforms,
            others,
            count,
            cursor,
        ),
    decreases count,
{
    if count > 0 {
        assert(parents[count - 1] == others[count - 1]);
        if count > 1 {
            assert(parents[count - 2] == others[count - 2]);
        }
        let next = match parents[count - 1] {
            None => cursor,
            Some(p) => unprojected(
                transforms,
                moved_into(rects, cursor, p, innermost(parents, count - 1)),
                p,
            ),
        };
        lemma_shorter(rects, transforms, parents, others, count - 1, next);
    }
}

/// An ancestor that is not in the document is passed over, and what lies in it is moved
/// by its own place in the window.
pub proof fn law_missing_ancestors_are_passed_over<S: Ring>(
    rects: Seq<PositionedRectangle<S>>,
    transforms: Map<NodeId, ComputedTransform3D<S>>,
    parents: Seq<Option<NodeId>>,
    cursor: LogicalPosition<S>,
)
    requires
        parents.len() > 0,
        parents.last() is None,
    ensures
        through_ancestors(rects, transforms, parents, parents.len() as int, cursor)
            == through_ancestors(
            rects,
            transforms,
            parents.drop_last(),
            parents.len() - 1,
            cursor,
        ),
{
    lemma_shorter(rects, transforms, parents, parents.drop_last(), parents.len() - 1, cursor);
}

/// A node without a transform starts from the cursor itself, and one with a transform
/// first steps out of itself as any ancestor does.
pub proof fn law_cursor_starts_at_the_node<S: Ring>(
    layout: &LayoutResult<S>,
    tag: TagIdToNodeIdMapping,
    node_id: NodeId,
    cursor: LogicalPosition<S>,
)
    ensures
        ({
            let transforms = layout.gpu_value_cache.current_transform_values@;
            let parents = tag.parent_node_ids@;
            let inside = parents.push(Some(node_id));
            layout.cursor_in(tag, node_id, cursor) == if transforms.contains_key(node_id) {
                through_ancestors(
                    layout.rects@,
                    transforms,
                    inside,
                    inside.len() as int,
                    cursor,
                )
            } else {
                through_ancestors(
                    layout.rects@,
                    transforms,
                    parents,
                    parents.len() as int,
                    cursor,
                )
            }
        }),
{
    let transforms = layout.gpu_value_cache.current_transform_values@;
    let parents = tag.parent_node_ids@;
    let inside = parents.push(Some(node_id));
    if transforms.contains_key(node_id) {
        let count = parents.len() as int;
        assert(inside[count] == Some(node_id));
        assert(innermost(inside, count) == innermost(parents, count));
        let next = unprojected(
            transforms,
            moved_into(layout.rects@, cursor, node_id, innermost(parents, count)),
            node_id,
        );
        lemma_shorter(layout.rects@, transforms, inside, parents, count, next);
    }
}

/// A node is tested as the rectangle of its own size that starts at (0, 0), with the
/// cursor in its own coordinates; a tag without a node is not tested.
pub proof fn law_what_is_tested<
    S: Scalar,
    F: Fn(LogicalRect<S>, LogicalPosition<S>) -> Option<LogicalPosition<S>>,
>(
    layout: &LayoutResult<S>,
    hit_test: &F,
    cursor: LogicalPosition<S>,
    tag: TagIdToNodeIdMapping,
    answer: Option<LogicalPosition<S>>,
)
    ensures
        match tag.node_id {
            Some(node_id) => layout.tag_answered(hit_test, cursor, tag, answer) <==> call_ensures(
                *hit_test,
                (
                    LogicalRect {
                        origin: LogicalPosition { x: S::spec_zero(), y: S::spec_zero() },
                        size: layout.rects@[node_id as int].size,
                    },
                    layout.cursor_in(tag, node_id, cursor),
                ),
                answer,
            ),
            None => layout.tag_answered(hit_test, cursor, tag, answer),
        },
{
}

/// A hit tells the cursor, the point in the node, the document that the node embeds
/// with that same point, and whether the node can have the focus.
pub proof fn law_what_a_hit_tells<S: Scalar>(
    layout: &LayoutResult<S>,
    node_id: NodeId,
    cursor: LogicalPosition<S>,
    point: LogicalPosition<S>,
)
    ensures
        ({
            let item = layout.item(node_id, cursor, point);
            &&& item.point_in_viewport == cursor
            &&& item.point_relative_to_item == point
            &&& item.is_iframe_hit is Some <==> layout.iframe_mapping@.contains_key(node_id)
            &&& item.is_iframe_hit matches Some((dom_id, inner)) ==> dom_id
                == layout.iframe_mapping@[node_id] && inner == point
            &&& item.is_focusable <==> layout.styled_dom.node_data@[node_id as int].tab_index
                is Some
        }),
{
}

/// Nothing is hit in a document without a root. In any other, every hit has the cursor,
/// divided by the factor of the screen, a point that `hit_test` may answer for one of the
/// tags of the node, the document that the node embeds with that point, and whether the
/// node can have the focus.
pub proof fn law_hits_come_from_answers<
    S: Scalar,
    F: Fn(LogicalRect<S>, LogicalPosition<S>) -> Option<LogicalPosition<S>>,
>(
    layout: &LayoutResult<S>,
    cursor: LogicalPosition<S>,
    hidpi_factor: S,
    hit_test: &F,
    hits: Map<NodeId, HitTestItem<S>>,
    node_id: NodeId,
)
    requires
        layout.may_hit(cursor, hidpi_factor, hit_test, hits),
    ensures
        layout.styled_dom.root is None ==> !hits.contains_key(node_id),
        hits.contains_key(node_id) ==> {
            &&& hits[node_id].point_in_viewport.x == cursor.x.spec_over(hidpi_factor)
            &&& hits[node_id].point_in_viewport.y == cursor.y.spec_over(hidpi_factor)
            &&& hits[node_id].is_iframe_hit == if layout.iframe_mapping@.contains_key(node_id) {
                Some((layout.iframe_mapping@[node_id], hits[node_id].point_relative_to_item))
            } else {
                None
            }
            &&& hits[node_id].is_focusable
                == layout.styled_dom.node_data@[node_id as int].tab_index is Some
            &&& exists|t: int| #[trigger]
                is_answer(
                    layout,
                    cursor.spec_over(hidpi_factor),
                    hit_test,
                    node_id,
                    t,
                    hits[node_id].point_relative_to_item,
                )
        },
{
    if layout.styled_dom.root is Some {
        let c = cursor.spec_over(hidpi_factor);
        let answers = choose|a: Seq<Option<LogicalPosition<S>>>| #[trigger]
            layout.answered(hit_test, c, a) && hits == layout.items(c, a, a.len() as int);
        let count = answers.len() as int;
        if hits.contains_key(node_id) {
            law_hits_share_the_cursor(layout, c, answers, count, node_id);
            lemma_last_answer(layout, c, answers, count, node_id);
            let t = choose|t: int|
                0 <= t < count && #[trigger] is_hit_of(layout, answers, node_id, t)
                    && layout.items(c, answers, count)[node_id] == layout.item(
                    node_id,
                    c,
                    answers[t].unwrap(),
                );
            let tag = layout.styled_dom.tag_ids_to_node_ids@[t];
            assert(layout.tag_answered(hit_test, c, tag, answers[t]));
            assert(is_answer(
                layout,
                c,
                hit_test,
                node_id,
                t,
                hits[node_id].point_relative_to_item,
            ));
        }
    }
}

/// What `hit_test` cannot deny is hit: a node with a tag for which `hit_test` has no
/// answer but that it lies under the cursor.
pub proof fn law_answers_become_hits<
    S: Scalar,
    F: Fn(LogicalRect<S>, LogicalPosition<S>) -> Option<LogicalPosition<S>>,
>(
    layout: &LayoutResult<S>,
    cursor: LogicalPosition<S>,
    hidpi_factor: S,
    hit_test: &F,
    hits: Map<NodeId, HitTestItem<S>>,
    node_id: NodeId,
    t: int,
)
    requires
        layout.styled_dom.root is Some,
        layout.may_hit(cursor, hidpi_factor, hit_test, hits),
        0 <= t < layout.styled_dom.tag_ids_to_node_ids@.len(),
        layout.styled_dom.tag_ids_to_node_ids@[t].node_id == Some(node_id),
        !call_ensures(
            *hit_test,
            (
                LogicalRect {
                    origin: LogicalPosition { x: S::spec_zero(), y: S::spec_zero() },
                    size: layout.rects@[node_id as int].size,
                },
                layout.cursor_in(
                    layout.styled_dom.tag_ids_to_node_ids@[t],
                    node_id,
                    cursor.spec_over(hidpi_factor),
                ),
            ),
            None,
        ),
    ensures
        hits.contains_key(node_id),
{
    let c = cursor.spec_over(hidpi_factor);
    let answers = choose|a: Seq<Option<LogicalPosition<S>>>| #[trigger]
        layout.answered(hit_test, c, a) && hits == layout.items(c, a, a.len() as int);
    let tag = layout.styled_dom.tag_ids_to_node_ids@[t];
    assert(layout.tag_answered(hit_test, c, tag, answers[t]));
    assert(is_hit_of(layout, answers, node_id, t));
    law_hit_if_and_only_if_a_tag_is(layout, c, answers, answers.len() as int, node_id);
}

/// Whether tag `t` is one of the node, and `hit_test` may answer `point` for it.
pub open spec fn is_answer<
    S: Scalar,
    F: Fn(LogicalRect<S>, LogicalPosition<S>) -> Option<LogicalPosition<S>>,
>(
    layout: &LayoutResult<S>,
    cursor: LogicalPosition<S>,
    hit_test: &F,
    node_id: NodeId,
    t: int,
    point: LogicalPosition<S>,
) -> bool {
    let tags = layout.styled_dom.tag_ids_to_node_ids@;
    &&& 0 <= t < tags.len()
    &&& tags[t].node_id == Some(node_id)
    &&& call_ensures(
        *hit_test,
        (
            LogicalRect {
                origin: LogicalPosition { x: S::spec_zero(), y: S::spec_zero() },
                size: layout.rects@[node_id as int].size,
            },
            layout.cursor_in(tags[t], node_id, cursor),
        ),
        Some(point),
    )
}

proof fn lemma_last_answer<S: Scalar>(
    layout: &LayoutResult<S>,
    cursor: LogicalPosition<S>,
    answers: Seq<Option<LogicalPosition<S>>>,
    count: int,
    node_id: NodeId,
)
    requires
        layout.items(cursor, answers, count).contains_key(node_id),
    ensures
        exists|t: int|
            0 <= t < count && #[trigger] is_hit_of(layout, answers, node_id, t) && layout.items(
                cursor,
                answers,
                count,
            )[node_id] == layout.item(node_id, cursor, answers[t].unwrap()),
    decreases count,
{
    if count > 0 {
        if is_hit_of(layout, answers, node_id, count - 1) {
        } else {
            lemma_last_answer(layout, cursor, answers, count - 1, node_id);
        }
    }
}

} // verus!
