//! Geometry model: points with handles, contours, outlines.
//!
//! Coordinates are integers in font units.  Every coordinate carried by a
//! well-formed outline stays within `COORD_LIMIT`, which keeps all of the
//! editor's offset arithmetic free of overflow.

use vstd::prelude::*;

verus! {

/// Largest magnitude a coordinate of a well-formed outline may have.
pub const COORD_LIMIT: i64 = 0x1_0000_0000;

/// Tag of a point inside a contour.  `Move` marks the structural anchor that
/// starts an open contour.
#[derive(Clone, Copy, PartialEq, Eq, Structural, Debug)]
pub enum PointType {
    Move,
    Line,
    Curve,
    QCurve,
    OffCurve,
}

/// A curve-control handle, stored as an offset from its point, or colocated
/// with the point (no effective handle).
#[derive(Clone, Copy, PartialEq, Eq, Structural, Debug)]
pub enum Handle {
    Colocated,
    At(i64, i64),
}

/// One on-curve point: a position, its two handles, and its type tag.
#[derive(Clone, Copy, PartialEq, Eq, Structural, Debug)]
pub struct Point {
    pub x: i64,
    pub y: i64,
    pub a: Handle,
    pub b: Handle,
    pub ptype: PointType,
}

/// An index pair addressing one point of an outline.
#[derive(Clone, Copy, PartialEq, Eq, Structural, Debug)]
pub struct PointId {
    pub contour: usize,
    pub point: usize,
}

/// Which part of a point a hit test landed on.
#[derive(Clone, Copy, PartialEq, Eq, Structural, Debug)]
pub enum WhichHandle {
    Neither,
    A,
    B,
}

/// Whether an endpoint is the first or the last point of its contour.
#[derive(Clone, Copy, PartialEq, Eq, Structural, Debug)]
pub enum SelectPointInfo {
    Start,
    End,
}

/// An ordered run of points, with an explicit closed/open flag.
#[derive(Clone, PartialEq, Debug)]
pub struct Contour {
    pub points: Vec<Point>,
    pub closed: bool,
}

/// The whole glyph geometry: an ordered sequence of contours.
pub type Outline = Vec<Contour>;

/// Mathematical model of a contour.
#[verifier::ext_equal]
pub ghost struct ContourView {
    pub points: Seq<Point>,
    pub closed: bool,
}

impl View for Contour {
    type V = ContourView;

    open spec fn view(&self) -> ContourView {
        ContourView { points: self.points@, closed: self.closed }
    }
}

/// Model of an outline: the sequence of contour models.
pub open spec fn outline_view(o: Seq<Contour>) -> Seq<ContourView> {
    Seq::new(o.len(), |i: int| o[i]@)
}

pub open spec fn handle_wf(h: Handle) -> bool {
    match h {
        Handle::Colocated => true,
        Handle::At(dx, dy) => -COORD_LIMIT <= dx <= COORD_LIMIT && -COORD_LIMIT <= dy
            <= COORD_LIMIT,
    }
}

pub open spec fn point_wf(p: Point) -> bool {
    &&& -COORD_LIMIT <= p.x <= COORD_LIMIT
    &&& -COORD_LIMIT <= p.y <= COORD_LIMIT
    &&& handle_wf(p.a)
    &&& handle_wf(p.b)
}

/// A contour is well formed when it is nonempty (an empty contour is invalid
/// and must be pruned) and all of its points are in range.
pub open spec fn contour_view_wf(c: ContourView) -> bool {
    &&& c.points.len() > 0
    &&& forall|i: int| 0 <= i < c.points.len() ==> point_wf(#[trigger] c.points[i])
}

pub open spec fn outline_view_wf(o: Seq<ContourView>) -> bool {
    forall|i: int| 0 <= i < o.len() ==> contour_view_wf(#[trigger] o[i])
}

pub open spec fn outline_wf(o: Seq<Contour>) -> bool {
    outline_view_wf(outline_view(o))
}

/// Every selected index addresses a point of the outline.
pub open spec fn selection_valid(sel: Seq<PointId>, o: Seq<ContourView>) -> bool {
    forall|i: int| 0 <= i < sel.len() ==> id_in_bounds(o, #[trigger] sel[i])
}

/// No point is selected twice.
pub open spec fn selection_nodup(sel: Seq<PointId>) -> bool {
    forall|i: int, j: int| 0 <= i < j < sel.len() ==> sel[i] != sel[j]
}

/// Is `id` a valid point address within the outline model `o`?
pub open spec fn id_in_bounds(o: Seq<ContourView>, id: PointId) -> bool {
    id.contour < o.len() && id.point < o[id.contour as int].points.len()
}

/// `p` moved to an absolute position, handles and type carried along.
pub open spec fn with_position(p: Point, x: i64, y: i64) -> Point {
    Point { x, y, ..p }
}

/// The outline model with the point at `(ci, pi)` moved to `(x, y)`.
pub open spec fn outline_move_point(
    o: Seq<ContourView>,
    ci: int,
    pi: int,
    x: i64,
    y: i64,
) -> Seq<ContourView> {
    o.update(
        ci,
        (ContourView { points: o[ci].points.update(pi, with_position(o[ci].points[pi], x, y)), ..o[ci] }),
    )
}

/// Sets the absolute position of one point of the outline.  The call applies
/// exactly when the indices address a point and the position is in range;
/// otherwise the outline is left untouched.
pub fn move_point(outline: &mut Vec<Contour>, ci: usize, pi: usize, x: i64, y: i64) -> (applied:
    bool)
    ensures
        applied <==> (ci < old(outline)@.len() && pi < old(outline)@[ci as int].points@.len()
            && -COORD_LIMIT <= x <= COORD_LIMIT && -COORD_LIMIT <= y <= COORD_LIMIT),
        applied ==> outline_view(final(outline)@) == outline_move_point(
            outline_view(old(outline)@),
            ci as int,
            pi as int,
            x,
            y,
        ),
        !applied ==> *final(outline) == *old(outline),
{
    if ci < outline.len() && pi < outline[ci].points.len() && -COORD_LIMIT <= x && x <= COORD_LIMIT
        && -COORD_LIMIT <= y && y <= COORD_LIMIT {
        let p = outline[ci].points[pi];
        let np = Point { x, y, a: p.a, b: p.b, ptype: p.ptype };
        outline[ci].points[pi] = np;
        proof {
            assert(outline_view(outline@) =~= outline_move_point(
                outline_view(old(outline)@),
                ci as int,
                pi as int,
                x,
                y,
            ));
        }
        true
    } else {
        false
    }
}

/// Classifies the addressed point as its contour's structural start or end
/// anchor, or neither.
pub open spec fn spec_start_or_end(o: Seq<ContourView>, ci: int, pi: int) -> Option<
    SelectPointInfo,
> {
    if pi == 0 {
        Some(SelectPointInfo::Start)
    } else if pi == o[ci].points.len() - 1 {
        Some(SelectPointInfo::End)
    } else {
        None
    }
}

/// Whether the addressed point is the first (`Start`) or last (`End`) point
/// of its contour; `None` for interior points or invalid indices.
pub fn get_contour_start_or_end(outline: &Vec<Contour>, ci: usize, pi: usize) -> (r: Option<
    SelectPointInfo,
>)
    ensures
        r == if ci < outline@.len() && pi < outline@[ci as int].points@.len() {
            spec_start_or_end(outline_view(outline@), ci as int, pi as int)
        } else {
            None::<SelectPointInfo>
        },
{
    if ci < outline.len() && pi < outline[ci].points.len() {
        if pi == 0 {
            Some(SelectPointInfo::Start)
        } else if pi == outline[ci].points.len() - 1 {
            Some(SelectPointInfo::End)
        } else {
            None
        }
    } else {
        None
    }
}

/// Default half-width, in font units, of the box around a point or handle
/// that counts as clicking it.
pub const HIT_RADIUS: i64 = 8;

pub open spec fn within_box(px: int, py: int, x: int, y: int, radius: int) -> bool {
    &&& -radius <= px - x <= radius
    &&& -radius <= py - y <= radius
}

/// What a click at `(x, y)` with the given radius lands on at the addressed
/// point: the point itself, one of its handles, or nothing.  The excluded
/// point (the one being dragged) is never hit.
pub open spec fn spec_hit_at(
    o: Seq<ContourView>,
    x: int,
    y: int,
    radius: int,
    exclude: Option<PointId>,
    ci: int,
    pi: int,
) -> Option<WhichHandle> {
    let p = o[ci].points[pi];
    if exclude matches Some(id) && id.contour == ci && id.point == pi {
        None
    } else if within_box(p.x as int, p.y as int, x, y, radius) {
        Some(WhichHandle::Neither)
    } else if p.a matches Handle::At(dx, dy) && within_box(
        p.x + dx,
        p.y + dy,
        x,
        y,
        radius,
    ) {
        Some(WhichHandle::A)
    } else if p.b matches Handle::At(dx, dy) && within_box(
        p.x + dx,
        p.y + dy,
        x,
        y,
        radius,
    ) {
        Some(WhichHandle::B)
    } else {
        None
    }
}

/// `(cj, pj)` addresses a point strictly before `(ci, pi)` in outline order.
pub open spec fn lex_before(cj: int, pj: int, ci: int, pi: int) -> bool {
    cj < ci || (cj == ci && pj < pi)
}

/// Hit-tests the whole outline against a click at `pos`: returns the first
/// point (in contour-then-point order) whose body or handle lies within
/// `radius` of the click, skipping `exclude`.  Ties between several
/// overlapping points always go to the earliest indices.
pub fn clicked_point_or_handle(
    outline: &Vec<Contour>,
    pos: (i64, i64),
    radius: i64,
    exclude: Option<PointId>,
) -> (r: Option<(PointId, WhichHandle)>)
    requires
        outline_wf(outline@),
        0 <= radius <= COORD_LIMIT,
    ensures
        match r {
            Some((id, wh)) => {
                &&& id_in_bounds(outline_view(outline@), id)
                &&& spec_hit_at(
                    outline_view(outline@),
                    pos.0 as int,
                    pos.1 as int,
                    radius as int,
                    exclude,
                    id.contour as int,
                    id.point as int,
                ) == Some(wh)
                &&& forall|cj: int, pj: int|
                    0 <= cj < outline@.len() && 0 <= pj < outline_view(outline@)[cj].points.len()
                        && lex_before(cj, pj, id.contour as int, id.point as int)
                        ==> spec_hit_at(
                        outline_view(outline@),
                        pos.0 as int,
                        pos.1 as int,
                        radius as int,
                        exclude,
                        cj,
                        pj,
                    ) is None
            },
            None => forall|cj: int, pj: int|
                0 <= cj < outline@.len() && 0 <= pj < outline_view(outline@)[cj].points.len()
                    ==> spec_hit_at(
                    outline_view(outline@),
                    pos.0 as int,
                    pos.1 as int,
                    radius as int,
                    exclude,
                    cj,
                    pj,
                ) is None,
        },
{
    let (x, y) = pos;
    if x < -4 * COORD_LIMIT || x > 4 * COORD_LIMIT || y < -4 * COORD_LIMIT || y > 4 * COORD_LIMIT {
        proof {
            assert forall|cj: int, pj: int|
                0 <= cj < outline@.len() && 0 <= pj < outline_view(outline@)[cj].points.len()
                    implies spec_hit_at(
                    outline_view(outline@),
                    pos.0 as int,
                    pos.1 as int,
                    radius as int,
                    exclude,
                    cj,
                    pj,
                ) is None by {
                assert(point_wf(outline_view(outline@)[cj].points[pj]));
            }
        }
        return None;
    }
    let mut ci: usize = 0;
    while ci < outline.len()
        invariant
            outline_wf(outline@),
            0 <= radius <= COORD_LIMIT,
            -4 * COORD_LIMIT <= x <= 4 * COORD_LIMIT,
            -4 * COORD_LIMIT <= y <= 4 * COORD_LIMIT,
            (x, y) == pos,
            ci <= outline@.len(),
            forall|cj: int, pj: int|
                0 <= cj < ci && 0 <= pj < outline_view(outline@)[cj].points.len()
                    ==> spec_hit_at(
                    outline_view(outline@),
                    pos.0 as int,
                    pos.1 as int,
                    radius as int,
                    exclude,
                    cj,
                    pj,
                ) is None,
        decreases outline@.len() - ci,
    {
        let mut pi: usize = 0;
        while pi < outline[ci].points.len()
            invariant
                outline_wf(outline@),
                0 <= radius <= COORD_LIMIT,
                -4 * COORD_LIMIT <= x <= 4 * COORD_LIMIT,
                -4 * COORD_LIMIT <= y <= 4 * COORD_LIMIT,
                (x, y) == pos,
                ci < outline@.len(),
                pi <= outline_view(outline@)[ci as int].points.len(),
                forall|cj: int, pj: int|
                    0 <= cj < ci && 0 <= pj < outline_view(outline@)[cj].points.len()
                        ==> spec_hit_at(
                        outline_view(outline@),
                        pos.0 as int,
                        pos.1 as int,
                        radius as int,
                        exclude,
                        cj,
                        pj,
                    ) is None,
                forall|pj: int|
                    0 <= pj < pi ==> spec_hit_at(
                        outline_view(outline@),
                        pos.0 as int,
                        pos.1 as int,
                        radius as int,
                        exclude,
                        ci as int,
                        pj,
                    ) is None,
            decreases outline@[ci as int].points@.len() - pi,
        {
            let p = outline[ci].points[pi];
            proof {
                assert(contour_view_wf(outline_view(outline@)[ci as int]));
                assert(point_wf(outline_view(outline@)[ci as int].points[pi as int]));
            }
            let excluded = match exclude {
                Some(id) => id.contour == ci && id.point == pi,
                None => false,
            };
            if !excluded {
                if p.x - x >= -radius && p.x - x <= radius && p.y - y >= -radius && p.y - y
                    <= radius {
                    return Some((PointId { contour: ci, point: pi }, WhichHandle::Neither));
                }
                let hit_a = match p.a {
                    Handle::At(dx, dy) => (p.x + dx) - x >= -radius && (p.x + dx) - x <= radius
                        && (p.y + dy) - y >= -radius && (p.y + dy) - y <= radius,
                    Handle::Colocated => false,
                };
                if hit_a {
                    return Some((PointId { contour: ci, point: pi }, WhichHandle::A));
                }
                let hit_b = match p.b {
                    Handle::At(dx, dy) => (p.x + dx) - x >= -radius && (p.x + dx) - x <= radius
                        && (p.y + dy) - y >= -radius && (p.y + dy) - y <= radius,
                    Handle::Colocated => false,
                };
                if hit_b {
                    return Some((PointId { contour: ci, point: pi }, WhichHandle::B));
                }
            }
            pi = pi + 1;
        }
        ci = ci + 1;
    }
    None
}

/// What a whole-outline hit test returns: the first point, in
/// contour-then-point order, that the click lands on.
pub open spec fn spec_first_hit(
    o: Seq<ContourView>,
    x: int,
    y: int,
    radius: int,
    exclude: Option<PointId>,
) -> Option<(PointId, WhichHandle)> {
    if exists|ci: int, pi: int|
        0 <= ci < o.len() && 0 <= pi < o[ci].points.len() && (#[trigger] spec_hit_at(
            o,
            x,
            y,
            radius,
            exclude,
            ci,
            pi,
        )) is Some && (forall|cj: int, pj: int|
            0 <= cj < o.len() && 0 <= pj < o[cj].points.len() && lex_before(cj, pj, ci, pi)
                ==> spec_hit_at(o, x, y, radius, exclude, cj, pj) is None) {
        let (ci, pi) = choose|ci: int, pi: int|
            0 <= ci < o.len() && 0 <= pi < o[ci].points.len() && (#[trigger] spec_hit_at(
                o,
                x,
                y,
                radius,
                exclude,
                ci,
                pi,
            )) is Some && (forall|cj: int, pj: int|
                0 <= cj < o.len() && 0 <= pj < o[cj].points.len() && lex_before(cj, pj, ci, pi)
                    ==> spec_hit_at(o, x, y, radius, exclude, cj, pj) is None);
        Some(
            (
                PointId { contour: ci as usize, point: pi as usize },
                spec_hit_at(o, x, y, radius, exclude, ci, pi).unwrap(),
            ),
        )
    } else {
        None
    }
}

/// What `clicked_point_or_handle` promises pins down `spec_first_hit`.
pub proof fn lemma_first_hit_characterization(
    o: Seq<ContourView>,
    x: int,
    y: int,
    radius: int,
    exclude: Option<PointId>,
    r: Option<(PointId, WhichHandle)>,
)
    requires
        match r {
            Some((id, wh)) => {
                &&& id_in_bounds(o, id)
                &&& spec_hit_at(o, x, y, radius, exclude, id.contour as int, id.point as int)
                    == Some(wh)
                &&& forall|cj: int, pj: int|
                    0 <= cj < o.len() && 0 <= pj < o[cj].points.len() && lex_before(
                        cj,
                        pj,
                        id.contour as int,
                        id.point as int,
                    ) ==> spec_hit_at(o, x, y, radius, exclude, cj, pj) is None
            },
            None => forall|cj: int, pj: int|
                0 <= cj < o.len() && 0 <= pj < o[cj].points.len() ==> spec_hit_at(
                    o,
                    x,
                    y,
                    radius,
                    exclude,
                    cj,
                    pj,
                ) is None,
        },
    ensures
        r == spec_first_hit(o, x, y, radius, exclude),
{
    match r {
        Some((id, wh)) => {
            let ci0 = id.contour as int;
            let pi0 = id.point as int;
            assert(spec_hit_at(o, x, y, radius, exclude, ci0, pi0) is Some);
            assert(spec_first_hit(o, x, y, radius, exclude) is Some);
            let (ci, pi) = choose|ci: int, pi: int|
                0 <= ci < o.len() && 0 <= pi < o[ci].points.len() && (#[trigger] spec_hit_at(
                    o,
                    x,
                    y,
                    radius,
                    exclude,
                    ci,
                    pi,
                )) is Some && (forall|cj: int, pj: int|
                    0 <= cj < o.len() && 0 <= pj < o[cj].points.len() && lex_before(cj, pj, ci, pi)
                        ==> spec_hit_at(o, x, y, radius, exclude, cj, pj) is None);
            if lex_before(ci, pi, ci0, pi0) {
                assert(spec_hit_at(o, x, y, radius, exclude, ci, pi) is None);
            } else if lex_before(ci0, pi0, ci, pi) {
                assert(spec_hit_at(o, x, y, radius, exclude, ci0, pi0) is None);
            }
            assert(ci == ci0 && pi == pi0);
        },
        None => {
            if spec_first_hit(o, x, y, radius, exclude) is Some {
                let (ci, pi) = choose|ci: int, pi: int|
                    0 <= ci < o.len() && 0 <= pi < o[ci].points.len() && (#[trigger] spec_hit_at(
                        o,
                        x,
                        y,
                        radius,
                        exclude,
                        ci,
                        pi,
                    )) is Some && (forall|cj: int, pj: int|
                        0 <= cj < o.len() && 0 <= pj < o[cj].points.len() && lex_before(
                            cj,
                            pj,
                            ci,
                            pi,
                        ) ==> spec_hit_at(o, x, y, radius, exclude, cj, pj) is None);
                assert(spec_hit_at(o, x, y, radius, exclude, ci, pi) is None);
            }
        },
    }
}

/// The type tag of a contour: the tag of its first point.
pub open spec fn spec_contour_type(o: Seq<ContourView>, ci: int) -> PointType {
    o[ci].points[0].ptype
}

/// The contour's type tag (the tag of its first point), or `None` when the
/// index is out of bounds or the contour is empty.
pub fn get_contour_type(outline: &Vec<Contour>, ci: usize) -> (r: Option<PointType>)
    ensures
        r == if ci < outline@.len() && outline@[ci as int].points@.len() > 0 {
            Some(spec_contour_type(outline_view(outline@), ci as int))
        } else {
            None::<PointType>
        },
{
    if ci < outline.len() && outline[ci].points.len() > 0 {
        Some(outline[ci].points[0].ptype)
    } else {
        None
    }
}

} // verus!
