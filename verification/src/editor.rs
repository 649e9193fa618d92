//! The editor state: composition root owning the outline, the selection,
//! the clipboard, the undo history, the active tool, and the behavior
//! stack.
//!
//! Mutation engine operations are atomic: each either applies fully or
//! leaves the state untouched, and missing selections or invalid indices
//! are reported as explicit outcomes rather than panics.

use crate::behaviors::Behavior;
use crate::geometry::{
    contour_view_wf, id_in_bounds, outline_view, outline_view_wf, selection_nodup, selection_valid,
    Contour, ContourView, Point, PointId, PointType, SelectPointInfo, spec_start_or_end,
    with_position, COORD_LIMIT,
};
use crate::history::{
    history_view_wf, spec_begin, spec_commit, spec_end, spec_redo, spec_undo, EntryView, History,
    HistoryView,
};
use crate::tools::ToolEnum;
use vstd::prelude::*;

verus! {

/// The camera: an offset in font units and a stepped zoom level.  The
/// floating-point scale factor a renderer derives from the level is outside
/// this crate's concern.
#[derive(Clone, Copy, PartialEq, Eq, Structural, Debug)]
pub struct Viewport {
    pub offset_x: i64,
    pub offset_y: i64,
    pub zoom_level: i64,
}

/// Bound on the zoom level steps.
pub const ZOOM_LEVEL_LIMIT: i64 = 100;

/// What a mutation engine call did.
#[derive(Clone, Copy, PartialEq, Eq, Structural, Debug)]
pub enum MutationOutcome {
    /// The operation was applied in full.
    Applied,
    /// There was nothing to act on (no selection, no clipboard, no active
    /// point, or an out-of-bounds index): a silent no-op.
    Ignored,
    /// A precondition deliberately refused the operation (the merge guard).
    Refused,
    /// The result would have left the coordinate range; nothing was changed.
    Rejected,
}

/// Mathematical model of the whole editor state.
#[verifier::ext_equal]
pub ghost struct EditorView {
    pub outline: Seq<ContourView>,
    pub selected: Seq<PointId>,
    pub clipboard: Seq<ContourView>,
    pub history: HistoryView,
    pub contour_idx: Option<usize>,
    pub point_idx: Option<usize>,
    pub behaviors: Seq<Behavior>,
    pub tool: ToolEnum,
    pub viewport: Viewport,
    pub quit_requested: bool,
}

/// The editor state.
#[derive(Debug)]
pub struct Editor {
    pub outline: Vec<Contour>,
    pub selected: Vec<PointId>,
    pub clipboard: Vec<Contour>,
    pub history: History,
    pub contour_idx: Option<usize>,
    pub point_idx: Option<usize>,
    pub behaviors: Vec<Behavior>,
    pub tool: ToolEnum,
    pub viewport: Viewport,
    pub quit_requested: bool,
}

impl View for Editor {
    type V = EditorView;

    open spec fn view(&self) -> EditorView {
        EditorView {
            outline: outline_view(self.outline@),
            selected: self.selected@,
            clipboard: outline_view(self.clipboard@),
            history: self.history@,
            contour_idx: self.contour_idx,
            point_idx: self.point_idx,
            behaviors: self.behaviors@,
            tool: self.tool,
            viewport: self.viewport,
            quit_requested: self.quit_requested,
        }
    }
}

/// The active point, when one is armed.
pub open spec fn spec_active(v: EditorView) -> Option<PointId> {
    match (v.contour_idx, v.point_idx) {
        (Some(ci), Some(pi)) => Some(PointId { contour: ci, point: pi }),
        _ => None,
    }
}

pub open spec fn viewport_wf(vp: Viewport) -> bool {
    &&& -COORD_LIMIT <= vp.offset_x <= COORD_LIMIT
    &&& -COORD_LIMIT <= vp.offset_y <= COORD_LIMIT
    &&& -ZOOM_LEVEL_LIMIT <= vp.zoom_level <= ZOOM_LEVEL_LIMIT
}

pub open spec fn editor_view_wf(v: EditorView) -> bool {
    &&& outline_view_wf(v.outline)
    &&& selection_valid(v.selected, v.outline)
    &&& selection_nodup(v.selected)
    &&& outline_view_wf(v.clipboard)
    &&& history_view_wf(v.history)
    &&& match (v.contour_idx, v.point_idx) {
        (Some(ci), Some(pi)) => id_in_bounds(v.outline, PointId { contour: ci, point: pi }),
        (None, None) => true,
        _ => false,
    }
    &&& viewport_wf(v.viewport)
}

impl Editor {
    /// The editor's validity invariant: every index held anywhere stays
    /// within the current outline, contours are nonempty, and all
    /// coordinates stay within range.
    pub open spec fn wf(&self) -> bool {
        editor_view_wf(self@)
    }

    /// A fresh editor: empty outline, nothing selected, empty history.
    pub fn new() -> (r: Editor)
        ensures
            r.wf(),
            r@.outline.len() == 0,
            r@.selected.len() == 0,
            r@.clipboard.len() == 0,
            r@.history == (HistoryView { undo: Seq::<EntryView>::empty(), redo: Seq::<EntryView>::empty(), pending: None }),
            r@.contour_idx is None,
            r@.point_idx is None,
            r@.behaviors.len() == 0,
            r@.tool == ToolEnum::Select,
            r@.viewport == (Viewport { offset_x: 0, offset_y: 0, zoom_level: 0 }),
            r@.quit_requested == false,
    {
        let r = Editor {
            outline: Vec::new(),
            selected: Vec::new(),
            clipboard: Vec::new(),
            history: History::new(),
            contour_idx: None,
            point_idx: None,
            behaviors: Vec::new(),
            tool: ToolEnum::Select,
            viewport: Viewport { offset_x: 0, offset_y: 0, zoom_level: 0 },
            quit_requested: false,
        };
        proof {
            assert(outline_view(r.outline@) =~= Seq::<ContourView>::empty());
            assert(outline_view(r.clipboard@) =~= Seq::<ContourView>::empty());
        }
        r
    }

    /// Is a modification bracket currently open?
    pub fn is_modifying(&self) -> (r: bool)
        ensures
            r == (self@.history.pending is Some),
    {
        self.history.is_modifying()
    }

    /// Opens a modification bracket under the given label, capturing the
    /// current outline and selection; a no-op when one is already open.
    pub fn begin_modification(&mut self, label: &str)
        ensures
            final(self)@ == (EditorView {
                history: spec_begin(
                    old(self)@.history,
                    old(self)@.outline,
                    old(self)@.selected,
                    label@,
                ),
                ..old(self)@
            }),
    {
        self.history.begin_modification(&self.outline, &self.selected, label);
        proof {
            assert(self@ =~= (EditorView {
                history: spec_begin(
                    old(self)@.history,
                    old(self)@.outline,
                    old(self)@.selected,
                    label@,
                ),
                ..old(self)@
            }));
        }
    }

    /// Closes the open modification bracket; a no-op when none is open.
    pub fn end_modification(&mut self)
        ensures
            final(self)@ == (EditorView { history: spec_end(old(self)@.history), ..old(self)@ }),
    {
        self.history.end_modification();
        proof {
            assert(self@ =~= (EditorView { history: spec_end(old(self)@.history), ..old(self)@ }));
        }
    }

    /// Undoes the most recent modification; a no-op when nothing can be
    /// undone.  The active point is cleared.
    pub fn undo(&mut self) -> (applied: bool)
        requires
            old(self).wf(),
        ensures
            final(self).wf(),
            applied == (old(self)@.history.undo.len() > 0),
            ({
                let (h1, o1, s1) = spec_undo(
                    old(self)@.history,
                    old(self)@.outline,
                    old(self)@.selected,
                );
                final(self)@ == (EditorView {
                    history: h1,
                    outline: o1,
                    selected: s1,
                    contour_idx: None,
                    point_idx: None,
                    ..old(self)@
                })
            }),
    {
        let applied = self.history.undo(&mut self.outline, &mut self.selected);
        self.contour_idx = None;
        self.point_idx = None;
        proof {
            let (h1, o1, s1) = spec_undo(
                old(self)@.history,
                old(self)@.outline,
                old(self)@.selected,
            );
            assert(self@ =~= (EditorView {
                history: h1,
                outline: o1,
                selected: s1,
                contour_idx: None,
                point_idx: None,
                ..old(self)@
            }));
            if applied {
                assert(entry_wf_unfold(old(self)@.history, o1, s1));
            }
        }
        applied
    }

    /// Redoes the most recently undone modification; the mirror of `undo`.
    pub fn redo(&mut self) -> (applied: bool)
        requires
            old(self).wf(),
        ensures
            final(self).wf(),
            applied == (old(self)@.history.redo.len() > 0),
            ({
                let (h1, o1, s1) = spec_redo(
                    old(self)@.history,
                    old(self)@.outline,
                    old(self)@.selected,
                );
                final(self)@ == (EditorView {
                    history: h1,
                    outline: o1,
                    selected: s1,
                    contour_idx: None,
                    point_idx: None,
                    ..old(self)@
                })
            }),
    {
        let applied = self.history.redo(&mut self.outline, &mut self.selected);
        self.contour_idx = None;
        self.point_idx = None;
        proof {
            let (h1, o1, s1) = spec_redo(
                old(self)@.history,
                old(self)@.outline,
                old(self)@.selected,
            );
            assert(self@ =~= (EditorView {
                history: h1,
                outline: o1,
                selected: s1,
                contour_idx: None,
                point_idx: None,
                ..old(self)@
            }));
            if applied {
                assert(redo_entry_wf_unfold(old(self)@.history, o1, s1));
            }
        }
        applied
    }
}

/// The points of one contour that survive deleting the selection: those
/// whose address is not selected.
pub open spec fn spec_kept_points(pts: Seq<Point>, ci: usize, sel: Seq<PointId>) -> Seq<Point>
    decreases pts.len(),
{
    if pts.len() == 0 {
        Seq::empty()
    } else {
        let prefix = spec_kept_points(pts.drop_last(), ci, sel);
        if sel.contains(PointId { contour: ci, point: (pts.len() - 1) as usize }) {
            prefix
        } else {
            prefix.push(pts.last())
        }
    }
}

/// The outline after deleting the selection: each contour keeps its
/// unselected points, and contours left empty are pruned.
pub open spec fn spec_delete_outline(o: Seq<ContourView>, sel: Seq<PointId>) -> Seq<ContourView>
    decreases o.len(),
{
    if o.len() == 0 {
        Seq::empty()
    } else {
        let prefix = spec_delete_outline(o.drop_last(), sel);
        let kept = spec_kept_points(o.last().points, (o.len() - 1) as usize, sel);
        if kept.len() == 0 {
            prefix
        } else {
            prefix.push(ContourView { points: kept, closed: o.last().closed })
        }
    }
}

/// Deleting the selection, as a whole-editor transition.
pub open spec fn spec_delete_selection(v: EditorView) -> EditorView {
    if v.selected.len() == 0 {
        v
    } else {
        EditorView {
            outline: spec_delete_outline(v.outline, v.selected),
            selected: Seq::empty(),
            contour_idx: None,
            point_idx: None,
            history: spec_commit(v.history, v.outline, v.selected, "Delete selection."@),
            ..v
        }
    }
}

/// The selected points of one contour, in order.
pub open spec fn spec_copied_points(pts: Seq<Point>, ci: usize, sel: Seq<PointId>) -> Seq<Point>
    decreases pts.len(),
{
    if pts.len() == 0 {
        Seq::empty()
    } else {
        let prefix = spec_copied_points(pts.drop_last(), ci, sel);
        if sel.contains(PointId { contour: ci, point: (pts.len() - 1) as usize }) {
            prefix.push(pts.last())
        } else {
            prefix
        }
    }
}

/// The clipboard contents after copying the selection: one open contour per
/// contour that has selected points, holding them in order.
pub open spec fn spec_copy_clipboard(o: Seq<ContourView>, sel: Seq<PointId>) -> Seq<ContourView>
    decreases o.len(),
{
    if o.len() == 0 {
        Seq::empty()
    } else {
        let prefix = spec_copy_clipboard(o.drop_last(), sel);
        let copied = spec_copied_points(o.last().points, (o.len() - 1) as usize, sel);
        if copied.len() == 0 {
            prefix
        } else {
            prefix.push(ContourView { points: copied, closed: false })
        }
    }
}

/// Copying the selection, as a whole-editor transition.
pub open spec fn spec_copy_selection(v: EditorView) -> EditorView {
    if v.selected.len() == 0 {
        v
    } else {
        EditorView { clipboard: spec_copy_clipboard(v.outline, v.selected), ..v }
    }
}

/// Every point of `spec_kept_points` and `spec_copied_points` is a point of
/// the contour it came from.
proof fn lemma_filtered_points_sub(pts: Seq<Point>, ci: usize, sel: Seq<PointId>)
    ensures
        spec_kept_points(pts, ci, sel).len() <= pts.len(),
        forall|k: int|
            0 <= k < spec_kept_points(pts, ci, sel).len() ==> pts.contains(
                #[trigger] spec_kept_points(pts, ci, sel)[k],
            ),
        spec_copied_points(pts, ci, sel).len() <= pts.len(),
        forall|k: int|
            0 <= k < spec_copied_points(pts, ci, sel).len() ==> pts.contains(
                #[trigger] spec_copied_points(pts, ci, sel)[k],
            ),
    decreases pts.len(),
{
    if pts.len() > 0 {
        lemma_filtered_points_sub(pts.drop_last(), ci, sel);
        assert forall|k: int|
            0 <= k < spec_kept_points(pts, ci, sel).len() implies pts.contains(
            #[trigger] spec_kept_points(pts, ci, sel)[k],
        ) by {
            let v = spec_kept_points(pts, ci, sel)[k];
            if k < spec_kept_points(pts.drop_last(), ci, sel).len() {
                let j = choose|j: int|
                    0 <= j < pts.drop_last().len() && pts.drop_last()[j] == v;
                assert(pts[j] == v);
            } else {
                assert(v == pts.last());
                assert(pts[pts.len() - 1] == v);
            }
        }
        assert forall|k: int|
            0 <= k < spec_copied_points(pts, ci, sel).len() implies pts.contains(
            #[trigger] spec_copied_points(pts, ci, sel)[k],
        ) by {
            let v = spec_copied_points(pts, ci, sel)[k];
            if k < spec_copied_points(pts.drop_last(), ci, sel).len() {
                let j = choose|j: int|
                    0 <= j < pts.drop_last().len() && pts.drop_last()[j] == v;
                assert(pts[j] == v);
            } else {
                assert(v == pts.last());
                assert(pts[pts.len() - 1] == v);
            }
        }
    }
}

/// Does the selection contain this address?
fn selection_contains(sel: &Vec<PointId>, id: PointId) -> (r: bool)
    ensures
        r == sel@.contains(id),
{
    let n = sel.len();
    let mut i: usize = 0;
    while i < n
        invariant
            n == sel@.len(),
            i <= n,
            forall|l: int| 0 <= l < i ==> sel@[l] != id,
        decreases n - i,
    {
        if sel[i].contour == id.contour && sel[i].point == id.point {
            proof {
                assert(sel@[i as int] == id);
            }
            return true;
        }
        i = i + 1;
    }
    false
}

/// Filters one contour's points by the selection: the kept (unselected) and
/// copied (selected) points.
fn split_contour_points(c: &Contour, ci: usize, sel: &Vec<PointId>) -> (r: (Vec<Point>, Vec<Point>))
    ensures
        r.0@ == spec_kept_points(c.points@, ci, sel@),
        r.1@ == spec_copied_points(c.points@, ci, sel@),
{
    let mut kept: Vec<Point> = Vec::new();
    let mut copied: Vec<Point> = Vec::new();
    let n = c.points.len();
    let mut pi: usize = 0;
    while pi < n
        invariant
            n == c.points@.len(),
            pi <= n,
            kept@ == spec_kept_points(c.points@.subrange(0, pi as int), ci, sel@),
            copied@ == spec_copied_points(c.points@.subrange(0, pi as int), ci, sel@),
        decreases n - pi,
    {
        let p = c.points[pi];
        if selection_contains(sel, PointId { contour: ci, point: pi }) {
            copied.push(p);
        } else {
            kept.push(p);
        }
        proof {
            let sub1 = c.points@.subrange(0, pi + 1 as int);
            assert(sub1.drop_last() =~= c.points@.subrange(0, pi as int));
            assert(sub1.last() == c.points@[pi as int]);
            assert((sub1.len() - 1) as usize == pi);
        }
        pi = pi + 1;
    }
    proof {
        assert(c.points@.subrange(0, n as int) =~= c.points@);
    }
    (kept, copied)
}

impl Editor {
    /// Deletes every selected point; contours left without points are
    /// pruned, the selection is cleared, and the whole edit is wrapped in
    /// one modification bracket.  With nothing selected this is a no-op.
    pub fn delete_selection(&mut self) -> (outcome: MutationOutcome)
        requires
            old(self).wf(),
        ensures
            final(self).wf(),
            final(self)@ == spec_delete_selection(old(self)@),
            outcome == if old(self)@.selected.len() == 0 {
                MutationOutcome::Ignored
            } else {
                MutationOutcome::Applied
            },
    {
        if self.selected.is_empty() {
            return MutationOutcome::Ignored;
        }
        let was_open = self.history.is_modifying();
        self.history.begin_modification(&self.outline, &self.selected, "Delete selection.");
        let mut result: Vec<Contour> = Vec::new();
        let n = self.outline.len();
        let mut ci: usize = 0;
        while ci < n
            invariant
                n == self.outline@.len(),
                ci <= n,
                outline_view(result@) =~= spec_delete_outline(
                    outline_view(self.outline@).subrange(0, ci as int),
                    self.selected@,
                ),
            decreases n - ci,
        {
            let (kept, _) = split_contour_points(&self.outline[ci], ci, &self.selected);
            proof {
                let ov = outline_view(self.outline@);
                let sub1 = ov.subrange(0, ci + 1 as int);
                assert(sub1.drop_last() =~= ov.subrange(0, ci as int));
                assert(sub1.last() == ov[ci as int]);
                assert(ov[ci as int].points == self.outline@[ci as int].points@);
                assert((sub1.len() - 1) as usize == ci);
            }
            if kept.len() > 0 {
                result.push(Contour { points: kept, closed: self.outline[ci].closed });
                proof {
                    let ov = outline_view(self.outline@);
                    assert(outline_view(result@) =~= spec_delete_outline(
                        ov.subrange(0, ci + 1 as int),
                        self.selected@,
                    ));
                }
            } else {
                proof {
                    let ov = outline_view(self.outline@);
                    assert(outline_view(result@) =~= spec_delete_outline(
                        ov.subrange(0, ci + 1 as int),
                        self.selected@,
                    ));
                }
            }
            ci = ci + 1;
        }
        proof {
            let ov = outline_view(self.outline@);
            assert(ov.subrange(0, n as int) =~= ov);
        }
        self.outline = result;
        self.selected = Vec::new();
        self.contour_idx = None;
        self.point_idx = None;
        if !was_open {
            self.history.end_modification();
        }
        proof {
            assert(self@ =~= spec_delete_selection(old(self)@));
            lemma_delete_outline_wf(old(self)@.outline, old(self)@.selected);
        }
        MutationOutcome::Applied
    }

    /// Copies the selected points into the clipboard, one open contour per
    /// source contour, leaving everything else untouched.  With nothing
    /// selected this is a no-op.
    pub fn copy_selection(&mut self) -> (outcome: MutationOutcome)
        requires
            old(self).wf(),
        ensures
            final(self).wf(),
            final(self)@ == spec_copy_selection(old(self)@),
            outcome == if old(self)@.selected.len() == 0 {
                MutationOutcome::Ignored
            } else {
                MutationOutcome::Applied
            },
    {
        if self.selected.is_empty() {
            return MutationOutcome::Ignored;
        }
        let mut result: Vec<Contour> = Vec::new();
        let n = self.outline.len();
        let mut ci: usize = 0;
        while ci < n
            invariant
                n == self.outline@.len(),
                ci <= n,
                outline_view(result@) =~= spec_copy_clipboard(
                    outline_view(self.outline@).subrange(0, ci as int),
                    self.selected@,
                ),
            decreases n - ci,
        {
            let (_, copied) = split_contour_points(&self.outline[ci], ci, &self.selected);
            proof {
                let ov = outline_view(self.outline@);
                let sub1 = ov.subrange(0, ci + 1 as int);
                assert(sub1.drop_last() =~= ov.subrange(0, ci as int));
                assert(sub1.last() == ov[ci as int]);
                assert(ov[ci as int].points == self.outline@[ci as int].points@);
                assert((sub1.len() - 1) as usize == ci);
            }
            if copied.len() > 0 {
                result.push(Contour { points: copied, closed: false });
                proof {
                    let ov = outline_view(self.outline@);
                    assert(outline_view(result@) =~= spec_copy_clipboard(
                        ov.subrange(0, ci + 1 as int),
                        self.selected@,
                    ));
                }
            } else {
                proof {
                    let ov = outline_view(self.outline@);
                    assert(outline_view(result@) =~= spec_copy_clipboard(
                        ov.subrange(0, ci + 1 as int),
                        self.selected@,
                    ));
                }
            }
            ci = ci + 1;
        }
        proof {
            let ov = outline_view(self.outline@);
            assert(ov.subrange(0, n as int) =~= ov);
        }
        self.clipboard = result;
        proof {
            assert(self@ =~= spec_copy_selection(old(self)@));
            lemma_copy_clipboard_wf(old(self)@.outline, old(self)@.selected);
        }
        MutationOutcome::Applied
    }

    /// Cuts the selection: copy, then delete, as one user action.
    pub fn cut_selection(&mut self) -> (outcome: MutationOutcome)
        requires
            old(self).wf(),
        ensures
            final(self).wf(),
            final(self)@ == spec_delete_selection(spec_copy_selection(old(self)@)),
            outcome == if old(self)@.selected.len() == 0 {
                MutationOutcome::Ignored
            } else {
                MutationOutcome::Applied
            },
    {
        self.copy_selection();
        self.delete_selection()
    }

    /// Adds a point to the selection.  Fails (and changes nothing) when the
    /// address is out of bounds or already selected.
    pub fn select_point(&mut self, id: PointId) -> (added: bool)
        requires
            old(self).wf(),
        ensures
            final(self).wf(),
            added == (id_in_bounds(old(self)@.outline, id) && !old(self)@.selected.contains(id)),
            added ==> final(self)@ == (EditorView {
                selected: old(self)@.selected.push(id),
                ..old(self)@
            }),
            !added ==> final(self)@ == old(self)@,
    {
        let in_bounds = id.contour < self.outline.len() && id.point
            < self.outline[id.contour].points.len();
        if in_bounds && !selection_contains(&self.selected, id) {
            self.selected.push(id);
            proof {
                assert(self@ =~= (EditorView {
                    selected: old(self)@.selected.push(id),
                    ..old(self)@
                }));
            }
            true
        } else {
            proof {
                assert(self@ =~= old(self)@);
            }
            false
        }
    }

    /// Clears the selection.
    pub fn clear_selection(&mut self)
        requires
            old(self).wf(),
        ensures
            final(self).wf(),
            final(self)@ == (EditorView { selected: Seq::empty(), ..old(self)@ }),
    {
        self.selected = Vec::new();
        proof {
            assert(self@ =~= (EditorView { selected: Seq::<PointId>::empty(), ..old(self)@ }));
        }
    }

    /// Arms the given point as the active (grabbed) one.  Fails when the
    /// address is out of bounds.
    pub fn set_active_point(&mut self, id: PointId) -> (armed: bool)
        requires
            old(self).wf(),
        ensures
            final(self).wf(),
            armed == id_in_bounds(old(self)@.outline, id),
            armed ==> final(self)@ == (EditorView {
                contour_idx: Some(id.contour),
                point_idx: Some(id.point),
                ..old(self)@
            }),
            !armed ==> final(self)@ == old(self)@,
    {
        if id.contour < self.outline.len() && id.point < self.outline[id.contour].points.len() {
            self.contour_idx = Some(id.contour);
            self.point_idx = Some(id.point);
            proof {
                assert(self@ =~= (EditorView {
                    contour_idx: Some(id.contour),
                    point_idx: Some(id.point),
                    ..old(self)@
                }));
            }
            true
        } else {
            proof {
                assert(self@ =~= old(self)@);
            }
            false
        }
    }

    /// Disarms the active point.
    pub fn clear_active_point(&mut self)
        requires
            old(self).wf(),
        ensures
            final(self).wf(),
            final(self)@ == (EditorView { contour_idx: None, point_idx: None, ..old(self)@ }),
    {
        self.contour_idx = None;
        self.point_idx = None;
        proof {
            assert(self@ =~= (EditorView { contour_idx: None, point_idx: None, ..old(self)@ }));
        }
    }
}

/// Deleting preserves outline well-formedness: every surviving contour is
/// nonempty by construction and keeps only points of the original.
proof fn lemma_delete_outline_wf(o: Seq<ContourView>, sel: Seq<PointId>)
    requires
        outline_view_wf(o),
    ensures
        outline_view_wf(spec_delete_outline(o, sel)),
    decreases o.len(),
{
    if o.len() > 0 {
        assert(outline_view_wf(o.drop_last())) by {
            assert(forall|i: int|
                0 <= i < o.drop_last().len() ==> o.drop_last()[i] == o[i]);
        }
        lemma_delete_outline_wf(o.drop_last(), sel);
        let prefix = spec_delete_outline(o.drop_last(), sel);
        let ci = (o.len() - 1) as usize;
        let kept = spec_kept_points(o.last().points, ci, sel);
        if kept.len() > 0 {
            assert(contour_view_wf(ContourView { points: kept, closed: o.last().closed })) by {
                lemma_filtered_points_sub(o.last().points, ci, sel);
                assert(contour_view_wf(o[o.len() - 1]));
                assert forall|k: int| 0 <= k < kept.len() implies crate::geometry::point_wf(
                    #[trigger] kept[k],
                ) by {
                    let j = choose|j: int|
                        0 <= j < o.last().points.len() && o.last().points[j] == kept[k];
                }
            }
            assert forall|i: int|
                0 <= i < spec_delete_outline(o, sel).len() implies contour_view_wf(
                #[trigger] spec_delete_outline(o, sel)[i],
            ) by {
                if i < prefix.len() {
                    assert(contour_view_wf(prefix[i]));
                }
            }
        }
    }
}

/// Copying produces a well-formed clipboard.
proof fn lemma_copy_clipboard_wf(o: Seq<ContourView>, sel: Seq<PointId>)
    requires
        outline_view_wf(o),
    ensures
        outline_view_wf(spec_copy_clipboard(o, sel)),
    decreases o.len(),
{
    if o.len() > 0 {
        assert(outline_view_wf(o.drop_last())) by {
            assert(forall|i: int|
                0 <= i < o.drop_last().len() ==> o.drop_last()[i] == o[i]);
        }
        lemma_copy_clipboard_wf(o.drop_last(), sel);
        let prefix = spec_copy_clipboard(o.drop_last(), sel);
        let ci = (o.len() - 1) as usize;
        let copied = spec_copied_points(o.last().points, ci, sel);
        if copied.len() > 0 {
            assert(contour_view_wf(ContourView { points: copied, closed: false })) by {
                lemma_filtered_points_sub(o.last().points, ci, sel);
                assert(contour_view_wf(o[o.len() - 1]));
                assert forall|k: int| 0 <= k < copied.len() implies crate::geometry::point_wf(
                    #[trigger] copied[k],
                ) by {
                    let j = choose|j: int|
                        0 <= j < o.last().points.len() && o.last().points[j] == copied[k];
                }
            }
            assert forall|i: int|
                0 <= i < spec_copy_clipboard(o, sel).len() implies contour_view_wf(
                #[trigger] spec_copy_clipboard(o, sel)[i],
            ) by {
                if i < prefix.len() {
                    assert(contour_view_wf(prefix[i]));
                }
            }
        }
    }
}

/// The merge preconditions: both touched points must be endpoints of two
/// distinct contours whose type tag is `Move`, and their Start/End
/// classifications must differ.  Two Starts or two Ends are refused: that
/// guard prevents an ambiguous self-loop splice.
pub open spec fn spec_can_merge(o: Seq<ContourView>, a: PointId, b: PointId) -> bool {
    &&& id_in_bounds(o, a)
    &&& id_in_bounds(o, b)
    &&& a.contour != b.contour
    &&& crate::geometry::spec_contour_type(o, a.contour as int) == PointType::Move
    &&& crate::geometry::spec_contour_type(o, b.contour as int) == PointType::Move
    &&& spec_start_or_end(o, a.contour as int, a.point as int) is Some
    &&& spec_start_or_end(o, b.contour as int, b.point as int) is Some
    &&& spec_start_or_end(o, a.contour as int, a.point as int) != spec_start_or_end(
        o,
        b.contour as int,
        b.point as int,
    )
}

/// The spliced outline: the contour whose touched endpoint is classified
/// End keeps its place and points; the Start-classified contour's points,
/// minus its leading anchor, are appended to it, and its slot is removed.
pub open spec fn spec_merged_outline(o: Seq<ContourView>, a: PointId, b: PointId) -> Seq<
    ContourView,
> {
    let a_start = spec_start_or_end(o, a.contour as int, a.point as int) == Some(
        SelectPointInfo::Start,
    );
    let start_c = if a_start {
        a.contour as int
    } else {
        b.contour as int
    };
    let end_c = if a_start {
        b.contour as int
    } else {
        a.contour as int
    };
    let merged = ContourView {
        points: o[end_c].points + o[start_c].points.drop_first(),
        closed: o[end_c].closed,
    };
    o.update(end_c, merged).remove(start_c)
}

/// Merging, as a whole-editor transition: on success the selection and the
/// active point are cleared; a refused merge changes nothing.
pub open spec fn spec_merge_contours(v: EditorView, a: PointId, b: PointId) -> EditorView {
    if spec_can_merge(v.outline, a, b) {
        EditorView {
            outline: spec_merged_outline(v.outline, a, b),
            selected: Seq::empty(),
            contour_idx: None,
            point_idx: None,
            ..v
        }
    } else {
        v
    }
}

/// A point with its handles exchanged, for direction reversal.
pub open spec fn spec_swap_handles(p: Point) -> Point {
    Point { a: p.b, b: p.a, ..p }
}

/// A contour traversed backwards, each point's handles exchanged.
pub open spec fn spec_reversed_contour(c: ContourView) -> ContourView {
    ContourView {
        points: Seq::new(c.points.len(), |j: int| spec_swap_handles(c.points[c.points.len() - 1 - j])),
        ..c
    }
}

/// Selected addresses inside the reversed contour, remapped to the new
/// point order.
pub open spec fn spec_remap_reversed(sel: Seq<PointId>, ci: usize, n: int) -> Seq<PointId> {
    Seq::new(
        sel.len(),
        |k: int|
            if sel[k].contour == ci {
                PointId { contour: ci, point: (n - 1 - sel[k].point) as usize }
            } else {
                sel[k]
            },
    )
}

/// Reversing one contour, as a whole-editor transition: the contour's
/// points run backwards with handles exchanged, and every index that
/// addressed a point of it is remapped to keep addressing the same point.
pub open spec fn spec_reverse_contour(v: EditorView, ci: usize) -> EditorView {
    if ci < v.outline.len() {
        let n = v.outline[ci as int].points.len() as int;
        EditorView {
            outline: v.outline.update(ci as int, spec_reversed_contour(v.outline[ci as int])),
            selected: spec_remap_reversed(v.selected, ci, n),
            point_idx: if v.contour_idx == Some(ci) {
                match v.point_idx {
                    Some(pi) => Some((n - 1 - pi) as usize),
                    None => None,
                }
            } else {
                v.point_idx
            },
            history: spec_commit(v.history, v.outline, v.selected, "Reverse contour."@),
            ..v
        }
    } else {
        v
    }
}

/// Checks the merge preconditions, read-only.
pub fn can_merge(outline: &Vec<Contour>, a: PointId, b: PointId) -> (r: bool)
    ensures
        r == spec_can_merge(outline_view(outline@), a, b),
{
    let ok = a.contour < outline.len() && a.point < outline[a.contour].points.len() && b.contour
        < outline.len() && b.point < outline[b.contour].points.len() && a.contour != b.contour;
    if !ok {
        return false;
    }
    let a_type = match crate::geometry::get_contour_type(outline, a.contour) {
        Some(t) => t,
        None => {
            return false;
        },
    };
    let b_type = match crate::geometry::get_contour_type(outline, b.contour) {
        Some(t) => t,
        None => {
            return false;
        },
    };
    if !(a_type == PointType::Move && b_type == PointType::Move) {
        return false;
    }
    let a_info = match crate::geometry::get_contour_start_or_end(outline, a.contour, a.point) {
        Some(i) => i,
        None => {
            return false;
        },
    };
    let b_info = match crate::geometry::get_contour_start_or_end(outline, b.contour, b.point) {
        Some(i) => i,
        None => {
            return false;
        },
    };
    a_info != b_info
}

impl Editor {
    /// Splices two contours into one.  The touched points are re-checked
    /// here: unless both are `Move`-typed endpoints of two distinct
    /// contours with differing Start/End classification, the merge is
    /// refused and the outline is left byte-for-byte unchanged.
    pub fn merge_contours(&mut self, grabbed: PointId, target: PointId) -> (outcome:
        MutationOutcome)
        requires
            old(self).wf(),
        ensures
            final(self).wf(),
            final(self)@ == spec_merge_contours(old(self)@, grabbed, target),
            outcome == if spec_can_merge(old(self)@.outline, grabbed, target) {
                MutationOutcome::Applied
            } else {
                MutationOutcome::Refused
            },
    {
        let ok = grabbed.contour < self.outline.len() && grabbed.point
            < self.outline[grabbed.contour].points.len() && target.contour < self.outline.len()
            && target.point < self.outline[target.contour].points.len() && grabbed.contour
            != target.contour;
        if !ok {
            return MutationOutcome::Refused;
        }
        let g_type = match crate::geometry::get_contour_type(&self.outline, grabbed.contour) {
            Some(t) => t,
            None => {
                return MutationOutcome::Refused;
            },
        };
        let t_type = match crate::geometry::get_contour_type(&self.outline, target.contour) {
            Some(t) => t,
            None => {
                return MutationOutcome::Refused;
            },
        };
        if !(g_type == PointType::Move && t_type == PointType::Move) {
            return MutationOutcome::Refused;
        }
        let g_info = match crate::geometry::get_contour_start_or_end(
            &self.outline,
            grabbed.contour,
            grabbed.point,
        ) {
            Some(i) => i,
            None => {
                return MutationOutcome::Refused;
            },
        };
        let t_info = match crate::geometry::get_contour_start_or_end(
            &self.outline,
            target.contour,
            target.point,
        ) {
            Some(i) => i,
            None => {
                return MutationOutcome::Refused;
            },
        };
        if g_info == t_info {
            return MutationOutcome::Refused;
        }
        let (start_c, end_c) = if g_info == SelectPointInfo::Start {
            (grabbed.contour, target.contour)
        } else {
            (target.contour, grabbed.contour)
        };
        let mut merged: Vec<Point> = Vec::new();
        let end_len = self.outline[end_c].points.len();
        let mut i: usize = 0;
        while i < end_len
            invariant
                end_c < self.outline@.len(),
                end_len == self.outline@[end_c as int].points@.len(),
                i <= end_len,
                merged@ == self.outline@[end_c as int].points@.subrange(0, i as int),
            decreases end_len - i,
        {
            merged.push(self.outline[end_c].points[i]);
            proof {
                assert(merged@ =~= self.outline@[end_c as int].points@.subrange(0, i + 1 as int));
            }
            i = i + 1;
        }
        let start_len = self.outline[start_c].points.len();
        let mut j: usize = 1;
        while j < start_len
            invariant
                start_c < self.outline@.len(),
                end_c < self.outline@.len(),
                start_len == self.outline@[start_c as int].points@.len(),
                start_len >= 1,
                1 <= j <= start_len,
                end_len == self.outline@[end_c as int].points@.len(),
                merged@ == self.outline@[end_c as int].points@ + self.outline@[start_c as int].points@.subrange(
                    1,
                    j as int,
                ),
            decreases start_len - j,
        {
            merged.push(self.outline[start_c].points[j]);
            proof {
                assert(merged@ =~= self.outline@[end_c as int].points@
                    + self.outline@[start_c as int].points@.subrange(1, j + 1 as int));
            }
            j = j + 1;
        }
        proof {
            assert(merged@ =~= self.outline@[end_c as int].points@
                + self.outline@[start_c as int].points@.drop_first());
        }
        let closed = self.outline[end_c].closed;
        self.outline[end_c] = Contour { points: merged, closed };
        let _removed = self.outline.remove(start_c);
        self.selected = Vec::new();
        self.contour_idx = None;
        self.point_idx = None;
        proof {
            let o0 = old(self)@.outline;
            assert(spec_can_merge(o0, grabbed, target));
            assert(outline_view(self.outline@) =~~= spec_merged_outline(o0, grabbed, target));
            assert(self@ =~= spec_merge_contours(old(self)@, grabbed, target));
            let merged_view = spec_merged_outline(o0, grabbed, target);
            assert forall|c: int| 0 <= c < merged_view.len() implies contour_view_wf(
                #[trigger] merged_view[c],
            ) by {
                let a_start = spec_start_or_end(o0, grabbed.contour as int, grabbed.point as int)
                    == Some(SelectPointInfo::Start);
                let sc = if a_start {
                    grabbed.contour as int
                } else {
                    target.contour as int
                };
                let ec = if a_start {
                    target.contour as int
                } else {
                    grabbed.contour as int
                };
                assert(contour_view_wf(o0[sc]));
                assert(contour_view_wf(o0[ec]));
            }
        }
        MutationOutcome::Applied
    }

    /// Reverses the direction of one contour inside a modification bracket,
    /// remapping the selection and the active point; a no-op for an
    /// out-of-bounds index.
    pub fn reverse_contour(&mut self, ci: usize) -> (outcome: MutationOutcome)
        requires
            old(self).wf(),
        ensures
            final(self).wf(),
            final(self)@ == spec_reverse_contour(old(self)@, ci),
            outcome == if ci < old(self)@.outline.len() {
                MutationOutcome::Applied
            } else {
                MutationOutcome::Ignored
            },
    {
        if ci >= self.outline.len() {
            return MutationOutcome::Ignored;
        }
        let was_open = self.history.is_modifying();
        self.history.begin_modification(&self.outline, &self.selected, "Reverse contour.");
        let n = self.outline[ci].points.len();
        let mut rev: Vec<Point> = Vec::new();
        let mut j: usize = 0;
        while j < n
            invariant
                ci < self.outline@.len(),
                n == self.outline@[ci as int].points@.len(),
                j <= n,
                rev@.len() == j,
                forall|k: int|
                    0 <= k < j ==> rev@[k] == spec_swap_handles(
                        self.outline@[ci as int].points@[n - 1 - k],
                    ),
            decreases n - j,
        {
            let p = self.outline[ci].points[n - 1 - j];
            rev.push(Point { x: p.x, y: p.y, a: p.b, b: p.a, ptype: p.ptype });
            j = j + 1;
        }
        let closed = self.outline[ci].closed;
        self.outline[ci] = Contour { points: rev, closed };
        let mut remapped: Vec<PointId> = Vec::new();
        let m = self.selected.len();
        let mut k: usize = 0;
        while k < m
            invariant
                m == self.selected@.len(),
                k <= m,
                remapped@.len() == k,
                selection_valid(old(self)@.selected, old(self)@.outline),
                ci < old(self)@.outline.len(),
                n == old(self)@.outline[ci as int].points.len(),
                self.selected@ == old(self)@.selected,
                forall|l: int|
                    0 <= l < k ==> remapped@[l] == spec_remap_reversed(
                        self.selected@,
                        ci,
                        n as int,
                    )[l],
            decreases m - k,
        {
            let id = self.selected[k];
            if id.contour == ci {
                proof {
                    assert(id_in_bounds(old(self)@.outline, old(self)@.selected[k as int]));
                }
                remapped.push(PointId { contour: ci, point: n - 1 - id.point });
            } else {
                remapped.push(id);
            }
            k = k + 1;
        }
        self.selected = remapped;
        match (self.contour_idx, self.point_idx) {
            (Some(ac), Some(ap)) => {
                if ac == ci {
                    proof {
                        assert(id_in_bounds(old(self)@.outline, PointId { contour: ac, point: ap }));
                    }
                    self.point_idx = Some(n - 1 - ap);
                }
            },
            _ => {},
        }
        if !was_open {
            self.history.end_modification();
        }
        proof {
            assert(self.selected@ =~= spec_remap_reversed(old(self)@.selected, ci, n as int));
            assert(outline_view(self.outline@)[ci as int] =~= spec_reversed_contour(
                old(self)@.outline[ci as int],
            ));
            assert(outline_view(self.outline@) =~= spec_reverse_contour(old(self)@, ci).outline);
            assert(self@ =~= spec_reverse_contour(old(self)@, ci));
            assert(contour_view_wf(spec_reversed_contour(old(self)@.outline[ci as int]))) by {
                assert(contour_view_wf(old(self)@.outline[ci as int]));
            }
            assert(selection_nodup(self.selected@)) by {
                assert forall|a: int, b: int|
                    0 <= a < b < self.selected@.len() implies self.selected@[a]
                    != self.selected@[b] by {
                    assert(old(self)@.selected[a] != old(self)@.selected[b]);
                    assert(id_in_bounds(old(self)@.outline, old(self)@.selected[a]));
                    assert(id_in_bounds(old(self)@.outline, old(self)@.selected[b]));
                }
            }
        }
        MutationOutcome::Applied
    }
}

pub open spec fn coord_in_range(c: int) -> bool {
    -COORD_LIMIT <= c <= COORD_LIMIT
}

/// Where one point of the outline sits after a drag of the grabbed point to
/// `(x, y)`: the grabbed point lands on the cursor; when the whole
/// selection moves too, each selected point lands at the cursor plus its
/// offset from the grabbed point — offsets are taken from the positions at
/// the start of the event, never accumulated frame by frame.
pub open spec fn spec_dragged_point(
    o: Seq<ContourView>,
    sel: Seq<PointId>,
    move_selected: bool,
    g: PointId,
    x: i64,
    y: i64,
    ci: int,
    pi: int,
) -> Point {
    let p = o[ci].points[pi];
    let rx = o[g.contour as int].points[g.point as int].x;
    let ry = o[g.contour as int].points[g.point as int].y;
    if ci == g.contour && pi == g.point {
        with_position(p, x, y)
    } else if move_selected && sel.contains(PointId { contour: ci as usize, point: pi as usize }) {
        with_position(p, (x + p.x - rx) as i64, (y + p.y - ry) as i64)
    } else {
        p
    }
}

/// The whole outline after one drag event.
pub open spec fn spec_drag_outline(
    o: Seq<ContourView>,
    sel: Seq<PointId>,
    move_selected: bool,
    g: PointId,
    x: i64,
    y: i64,
) -> Seq<ContourView> {
    Seq::new(
        o.len(),
        |ci: int|
            ContourView {
                points: Seq::new(
                    o[ci].points.len(),
                    |pi: int| spec_dragged_point(o, sel, move_selected, g, x, y, ci, pi),
                ),
                closed: o[ci].closed,
            },
    )
}

/// Every position the drag produces stays within the coordinate range.
pub open spec fn spec_drag_in_range(
    o: Seq<ContourView>,
    sel: Seq<PointId>,
    move_selected: bool,
    g: PointId,
    x: i64,
    y: i64,
) -> bool {
    forall|ci: int, pi: int|
        0 <= ci < o.len() && 0 <= pi < o[ci].points.len() ==> {
            let p = #[trigger] spec_dragged_point(o, sel, move_selected, g, x, y, ci, pi);
            coord_in_range(p.x as int) && coord_in_range(p.y as int)
        }
}

impl Editor {
    /// One drag event: places the grabbed point on the cursor and, when
    /// asked, the whole selection relative to it, atomically.  An
    /// out-of-bounds grab is ignored, and a drag that would push any point
    /// out of the coordinate range is rejected without touching anything.
    /// History is the caller's concern: the gesture opens the bracket.
    pub fn apply_drag(&mut self, grabbed: PointId, x: i64, y: i64, move_selected: bool) -> (outcome:
        MutationOutcome)
        requires
            old(self).wf(),
        ensures
            final(self).wf(),
            !id_in_bounds(old(self)@.outline, grabbed) ==> final(self)@ == old(self)@ && outcome
                == MutationOutcome::Ignored,
            id_in_bounds(old(self)@.outline, grabbed) && !(coord_in_range(x as int)
                && coord_in_range(y as int) && spec_drag_in_range(
                old(self)@.outline,
                old(self)@.selected,
                move_selected,
                grabbed,
                x,
                y,
            )) ==> final(self)@ == old(self)@ && outcome == MutationOutcome::Rejected,
            id_in_bounds(old(self)@.outline, grabbed) && coord_in_range(x as int) && coord_in_range(
                y as int,
            ) && spec_drag_in_range(
                old(self)@.outline,
                old(self)@.selected,
                move_selected,
                grabbed,
                x,
                y,
            ) ==> final(self)@ == (EditorView {
                outline: spec_drag_outline(
                    old(self)@.outline,
                    old(self)@.selected,
                    move_selected,
                    grabbed,
                    x,
                    y,
                ),
                ..old(self)@
            }) && outcome == MutationOutcome::Applied,
    {
        if !(grabbed.contour < self.outline.len() && grabbed.point
            < self.outline[grabbed.contour].points.len()) {
            return MutationOutcome::Ignored;
        }
        if x < -COORD_LIMIT || x > COORD_LIMIT || y < -COORD_LIMIT || y > COORD_LIMIT {
            proof {
                assert(!coord_in_range(x as int) || !coord_in_range(y as int));
            }
            return MutationOutcome::Rejected;
        }
        let rx = self.outline[grabbed.contour].points[grabbed.point].x;
        let ry = self.outline[grabbed.contour].points[grabbed.point].y;
        let ghost o0 = self@.outline;
        let ghost sel0 = self@.selected;
        let mut result: Vec<Contour> = Vec::new();
        let n = self.outline.len();
        let mut ci: usize = 0;
        while ci < n
            invariant
                self.wf(),
                *self == *old(self),
                n == self.outline@.len(),
                o0 == self@.outline,
                sel0 == self@.selected,
                id_in_bounds(o0, grabbed),
                rx == o0[grabbed.contour as int].points[grabbed.point as int].x,
                ry == o0[grabbed.contour as int].points[grabbed.point as int].y,
                coord_in_range(x as int),
                coord_in_range(y as int),
                ci <= n,
                result@.len() == ci,
                forall|c: int|
                    0 <= c < ci ==> (#[trigger] outline_view(result@)[c]).points.len()
                        == o0[c].points.len() && outline_view(result@)[c].closed == o0[c].closed
                        && contour_view_wf(outline_view(result@)[c]),
                forall|c: int, k: int|
                    0 <= c < ci && 0 <= k < o0[c].points.len()
                        ==> #[trigger] outline_view(result@)[c].points[k] == spec_dragged_point(
                        o0,
                        sel0,
                        move_selected,
                        grabbed,
                        x,
                        y,
                        c,
                        k,
                    ),
            decreases n - ci,
        {
            let m = self.outline[ci].points.len();
            let mut pts: Vec<Point> = Vec::new();
            let mut pi: usize = 0;
            while pi < m
                invariant
                    self.wf(),
                    *self == *old(self),
                    o0 == self@.outline,
                    sel0 == self@.selected,
                    id_in_bounds(o0, grabbed),
                    rx == o0[grabbed.contour as int].points[grabbed.point as int].x,
                    ry == o0[grabbed.contour as int].points[grabbed.point as int].y,
                    coord_in_range(x as int),
                    coord_in_range(y as int),
                    ci < self.outline@.len(),
                    m == o0[ci as int].points.len(),
                    pi <= m,
                    pts@.len() == pi,
                    forall|k: int| 0 <= k < pi ==> crate::geometry::point_wf(#[trigger] pts@[k]),
                    forall|k: int|
                        0 <= k < pi ==> pts@[k] == spec_dragged_point(
                            o0,
                            sel0,
                            move_selected,
                            grabbed,
                            x,
                            y,
                            ci as int,
                            k,
                        ),
                decreases m - pi,
            {
                let p = self.outline[ci].points[pi];
                proof {
                    assert(contour_view_wf(o0[ci as int]));
                    assert(crate::geometry::point_wf(o0[ci as int].points[pi as int]));
                    assert(contour_view_wf(o0[grabbed.contour as int]));
                    assert(crate::geometry::point_wf(
                        o0[grabbed.contour as int].points[grabbed.point as int],
                    ));
                }
                if ci == grabbed.contour && pi == grabbed.point {
                    pts.push(Point { x, y, a: p.a, b: p.b, ptype: p.ptype });
                } else if move_selected && selection_contains(
                    &self.selected,
                    PointId { contour: ci, point: pi },
                ) {
                    let nx = x + (p.x - rx);
                    let ny = y + (p.y - ry);
                    if nx < -COORD_LIMIT || nx > COORD_LIMIT || ny < -COORD_LIMIT || ny
                        > COORD_LIMIT {
                        proof {
                            let dp = spec_dragged_point(
                                o0,
                                sel0,
                                move_selected,
                                grabbed,
                                x,
                                y,
                                ci as int,
                                pi as int,
                            );
                            assert(dp.x == nx && dp.y == ny);
                            assert(!spec_drag_in_range(o0, sel0, move_selected, grabbed, x, y));
                        }
                        return MutationOutcome::Rejected;
                    }
                    pts.push(Point { x: nx, y: ny, a: p.a, b: p.b, ptype: p.ptype });
                } else {
                    pts.push(p);
                }
                pi = pi + 1;
            }
            let closed = self.outline[ci].closed;
            let ghost prev = result@;
            result.push(Contour { points: pts, closed });
            proof {
                assert forall|c: int|
                    0 <= c < ci + 1 implies ((#[trigger] outline_view(result@)[c]).points.len()
                    == o0[c].points.len() && outline_view(result@)[c].closed == o0[c].closed
                    && contour_view_wf(outline_view(result@)[c])) by {
                    if c < ci {
                        assert(result@[c] == prev[c]);
                        assert(outline_view(result@)[c] == outline_view(prev)[c]);
                    } else {
                        assert(outline_view(result@)[c] == (ContourView {
                            points: pts@,
                            closed: o0[ci as int].closed,
                        }));
                    }
                }
                assert forall|c: int, k: int|
                    0 <= c < ci + 1 && 0 <= k < o0[c].points.len()
                    implies #[trigger] outline_view(result@)[c].points[k] == spec_dragged_point(
                    o0,
                    sel0,
                    move_selected,
                    grabbed,
                    x,
                    y,
                    c,
                    k,
                ) by {
                    if c < ci {
                        assert(result@[c] == prev[c]);
                        assert(outline_view(result@)[c] == outline_view(prev)[c]);
                        assert(outline_view(prev)[c].points[k] == spec_dragged_point(
                            o0,
                            sel0,
                            move_selected,
                            grabbed,
                            x,
                            y,
                            c,
                            k,
                        ));
                    } else {
                        assert(outline_view(result@)[c].points[k] == pts@[k]);
                    }
                }
            }
            ci = ci + 1;
        }
        proof {
            assert forall|c: int, k: int|
                0 <= c < o0.len() && 0 <= k < o0[c].points.len() implies {
                let dp = #[trigger] spec_dragged_point(o0, sel0, move_selected, grabbed, x, y, c, k);
                coord_in_range(dp.x as int) && coord_in_range(dp.y as int)
            } by {
                assert(contour_view_wf(outline_view(result@)[c]));
                assert(crate::geometry::point_wf(outline_view(result@)[c].points[k]));
                assert(outline_view(result@)[c].points[k] == spec_dragged_point(
                    o0,
                    sel0,
                    move_selected,
                    grabbed,
                    x,
                    y,
                    c,
                    k,
                ));
            }
            assert(spec_drag_in_range(o0, sel0, move_selected, grabbed, x, y));
        }
        self.outline = result;
        proof {
            assert forall|c: int|
                0 <= c < o0.len() implies outline_view(self.outline@)[c] =~= spec_drag_outline(
                o0,
                sel0,
                move_selected,
                grabbed,
                x,
                y,
            )[c] by {}
            assert(outline_view(self.outline@) =~= spec_drag_outline(
                o0,
                sel0,
                move_selected,
                grabbed,
                x,
                y,
            ));
            assert(self@ =~= (EditorView {
                outline: spec_drag_outline(o0, sel0, move_selected, grabbed, x, y),
                ..old(self)@
            }));
        }
        MutationOutcome::Applied
    }
}

/// Wherever the cursor went in between, dragging to the same final cursor
/// position yields the same final outline: applying one drag after another
/// equals applying only the second.  Offsets are relative to the grabbed
/// point, so no error accumulates along the way.
pub proof fn lemma_drag_path_independent(
    o: Seq<ContourView>,
    sel: Seq<PointId>,
    move_selected: bool,
    g: PointId,
    x1: i64,
    y1: i64,
    x2: i64,
    y2: i64,
)
    requires
        outline_view_wf(o),
        id_in_bounds(o, g),
        coord_in_range(x1 as int),
        coord_in_range(y1 as int),
        coord_in_range(x2 as int),
        coord_in_range(y2 as int),
        spec_drag_in_range(o, sel, move_selected, g, x1, y1),
    ensures
        spec_drag_outline(
            spec_drag_outline(o, sel, move_selected, g, x1, y1),
            sel,
            move_selected,
            g,
            x2,
            y2,
        ) == spec_drag_outline(o, sel, move_selected, g, x2, y2),
{
    let o1 = spec_drag_outline(o, sel, move_selected, g, x1, y1);
    let lhs = spec_drag_outline(o1, sel, move_selected, g, x2, y2);
    let rhs = spec_drag_outline(o, sel, move_selected, g, x2, y2);
    assert forall|ci: int| 0 <= ci < lhs.len() implies lhs[ci] =~= rhs[ci] by {
        assert forall|pi: int| 0 <= pi < o[ci].points.len() implies lhs[ci].points[pi]
            == rhs[ci].points[pi] by {
            assert(contour_view_wf(o[ci]));
            assert(crate::geometry::point_wf(o[ci].points[pi]));
            assert(contour_view_wf(o[g.contour as int]));
            assert(crate::geometry::point_wf(o[g.contour as int].points[g.point as int]));
            assert(o1[ci].points[pi] == spec_dragged_point(
                o,
                sel,
                move_selected,
                g,
                x1,
                y1,
                ci,
                pi,
            ));
            assert(o1[g.contour as int].points[g.point as int] == spec_dragged_point(
                o,
                sel,
                move_selected,
                g,
                x1,
                y1,
                g.contour as int,
                g.point as int,
            ));
            assert(spec_dragged_point(o, sel, move_selected, g, x1, y1, ci, pi) == (
            if ci == g.contour && pi == g.point {
                with_position(o[ci].points[pi], x1, y1)
            } else if move_selected && sel.contains(
                PointId { contour: ci as usize, point: pi as usize },
            ) {
                with_position(
                    o[ci].points[pi],
                    (x1 + o[ci].points[pi].x - o[g.contour as int].points[g.point as int].x) as i64,
                    (y1 + o[ci].points[pi].y - o[g.contour as int].points[g.point as int].y) as i64,
                )
            } else {
                o[ci].points[pi]
            }));
        }
    }
    assert(lhs =~= rhs);
}

/// The outline after a whole sequence of drag events of one gesture.
pub open spec fn spec_drag_trace(
    o: Seq<ContourView>,
    sel: Seq<PointId>,
    move_selected: bool,
    g: PointId,
    trace: Seq<(i64, i64)>,
) -> Seq<ContourView>
    decreases trace.len(),
{
    if trace.len() == 0 {
        o
    } else {
        spec_drag_outline(
            spec_drag_trace(o, sel, move_selected, g, trace.drop_last()),
            sel,
            move_selected,
            g,
            trace.last().0,
            trace.last().1,
        )
    }
}

/// Moving a selection through any number of intermediate cursor positions
/// and ending at `(x, y)` yields exactly the outline of moving directly to
/// `(x, y)` in one step: the drag policy accumulates no drift.
pub proof fn lemma_drag_trace_path_independent(
    o: Seq<ContourView>,
    sel: Seq<PointId>,
    move_selected: bool,
    g: PointId,
    trace: Seq<(i64, i64)>,
    x: i64,
    y: i64,
)
    requires
        outline_view_wf(o),
        id_in_bounds(o, g),
        forall|k: int|
            0 <= k < trace.len() ==> coord_in_range((#[trigger] trace[k]).0 as int)
                && coord_in_range(trace[k].1 as int) && spec_drag_in_range(
                o,
                sel,
                move_selected,
                g,
                trace[k].0,
                trace[k].1,
            ),
        coord_in_range(x as int),
        coord_in_range(y as int),
    ensures
        spec_drag_outline(
            spec_drag_trace(o, sel, move_selected, g, trace),
            sel,
            move_selected,
            g,
            x,
            y,
        ) == spec_drag_outline(o, sel, move_selected, g, x, y),
    decreases trace.len(),
{
    if trace.len() > 0 {
        let t1 = trace.drop_last();
        let x1 = trace.last().0;
        let y1 = trace.last().1;
        assert(forall|k: int|
            0 <= k < t1.len() ==> coord_in_range((#[trigger] t1[k]).0 as int) && coord_in_range(
                t1[k].1 as int,
            ) && spec_drag_in_range(o, sel, move_selected, g, t1[k].0, t1[k].1)) by {
            assert(forall|k: int| 0 <= k < t1.len() ==> t1[k] == trace[k]);
        }
        lemma_drag_trace_path_independent(o, sel, move_selected, g, t1, x1, y1);
        assert(coord_in_range(trace[trace.len() - 1].0 as int));
        lemma_drag_path_independent(o, sel, move_selected, g, x1, y1, x, y);
    }
}

/// A drag leaves offsets between points unchanged, so the positions that
/// stay in range for one cursor target stay in range for it after any
/// earlier drag of the same gesture.
pub proof fn lemma_drag_in_range_stable(
    o: Seq<ContourView>,
    sel: Seq<PointId>,
    move_selected: bool,
    g: PointId,
    x1: i64,
    y1: i64,
    x2: i64,
    y2: i64,
)
    requires
        outline_view_wf(o),
        id_in_bounds(o, g),
        coord_in_range(x1 as int),
        coord_in_range(y1 as int),
        coord_in_range(x2 as int),
        coord_in_range(y2 as int),
        spec_drag_in_range(o, sel, move_selected, g, x1, y1),
    ensures
        spec_drag_in_range(
            spec_drag_outline(o, sel, move_selected, g, x1, y1),
            sel,
            move_selected,
            g,
            x2,
            y2,
        ) == spec_drag_in_range(o, sel, move_selected, g, x2, y2),
{
    lemma_drag_path_independent(o, sel, move_selected, g, x1, y1, x2, y2);
    let o1 = spec_drag_outline(o, sel, move_selected, g, x1, y1);
    let lhs = spec_drag_outline(o1, sel, move_selected, g, x2, y2);
    let rhs = spec_drag_outline(o, sel, move_selected, g, x2, y2);
    assert forall|ci: int, pi: int|
        0 <= ci < o1.len() && 0 <= pi < o1[ci].points.len() implies #[trigger] spec_dragged_point(
        o1,
        sel,
        move_selected,
        g,
        x2,
        y2,
        ci,
        pi,
    ) == spec_dragged_point(o, sel, move_selected, g, x2, y2, ci, pi) by {
        assert(lhs[ci].points[pi] == rhs[ci].points[pi]);
    }
    if spec_drag_in_range(o, sel, move_selected, g, x2, y2) {
        assert forall|ci: int, pi: int|
            0 <= ci < o1.len() && 0 <= pi < o1[ci].points.len() implies {
            let dp = #[trigger] spec_dragged_point(o1, sel, move_selected, g, x2, y2, ci, pi);
            coord_in_range(dp.x as int) && coord_in_range(dp.y as int)
        } by {
            let dq = spec_dragged_point(o, sel, move_selected, g, x2, y2, ci, pi);
            assert(coord_in_range(dq.x as int) && coord_in_range(dq.y as int));
        }
        assert(spec_drag_in_range(o1, sel, move_selected, g, x2, y2));
    } else {
        let (ci, pi): (int, int) = choose|ci: int, pi: int|
            0 <= ci < o.len() && 0 <= pi < o[ci].points.len() && !{
                let dp = #[trigger] spec_dragged_point(o, sel, move_selected, g, x2, y2, ci, pi);
                coord_in_range(dp.x as int) && coord_in_range(dp.y as int)
            };
        assert(spec_dragged_point(o1, sel, move_selected, g, x2, y2, ci, pi)
            == spec_dragged_point(o, sel, move_selected, g, x2, y2, ci, pi));
        assert(!spec_drag_in_range(o1, sel, move_selected, g, x2, y2));
    }
}

impl Editor {
    /// Arms a gesture: pushes a behavior onto the stack.  While the stack is
    /// non-empty, its topmost behavior intercepts every event.
    pub fn push_behavior(&mut self, b: Behavior)
        requires
            old(self).wf(),
        ensures
            final(self).wf(),
            final(self)@ == (EditorView { behaviors: old(self)@.behaviors.push(b), ..old(self)@ }),
    {
        self.behaviors.push(b);
        proof {
            assert(self@ =~= (EditorView {
                behaviors: old(self)@.behaviors.push(b),
                ..old(self)@
            }));
        }
    }

    /// Disarms the topmost gesture.  Pops are strictly last-in first-out; an
    /// empty stack is left alone.
    pub fn pop_behavior(&mut self)
        requires
            old(self).wf(),
        ensures
            final(self).wf(),
            final(self)@ == (EditorView {
                behaviors: if old(self)@.behaviors.len() > 0 {
                    old(self)@.behaviors.drop_last()
                } else {
                    old(self)@.behaviors
                },
                ..old(self)@
            }),
    {
        let popped = self.behaviors.pop();
        proof {
            if popped is Some {
                assert(self@.behaviors =~= old(self)@.behaviors.drop_last());
            }
            assert(self@ =~= (EditorView {
                behaviors: if old(self)@.behaviors.len() > 0 {
                    old(self)@.behaviors.drop_last()
                } else {
                    old(self)@.behaviors
                },
                ..old(self)@
            }));
        }
    }

    /// Cancels the in-progress gesture on a cancellation signal: the open
    /// modification bracket, if any, is closed rather than left dangling,
    /// and the topmost behavior is popped without its own commit decision.
    pub fn cancel_gesture(&mut self)
        requires
            old(self).wf(),
        ensures
            final(self).wf(),
            final(self)@ == (EditorView {
                history: spec_end(old(self)@.history),
                behaviors: if old(self)@.behaviors.len() > 0 {
                    old(self)@.behaviors.drop_last()
                } else {
                    old(self)@.behaviors
                },
                ..old(self)@
            }),
    {
        self.end_modification();
        self.pop_behavior();
    }

    /// Switches the active tool.
    pub fn set_tool(&mut self, tool: ToolEnum)
        requires
            old(self).wf(),
        ensures
            final(self).wf(),
            final(self)@ == (EditorView { tool, ..old(self)@ }),
    {
        self.tool = tool;
        proof {
            assert(self@ =~= (EditorView { tool, ..old(self)@ }));
        }
    }

    /// Asks the main loop to stop.
    pub fn quit(&mut self)
        requires
            old(self).wf(),
        ensures
            final(self).wf(),
            final(self)@ == (EditorView { quit_requested: true, ..old(self)@ }),
    {
        self.quit_requested = true;
        proof {
            assert(self@ =~= (EditorView { quit_requested: true, ..old(self)@ }));
        }
    }

    /// Replaces the whole editing session with a freshly loaded outline:
    /// selection, clipboard, history and gestures are all discarded.  An
    /// outline with an empty contour or an out-of-range coordinate is
    /// rejected and nothing changes.
    pub fn load_outline(&mut self, outline: Vec<Contour>) -> (loaded: bool)
        requires
            old(self).wf(),
        ensures
            final(self).wf(),
            loaded == outline_view_wf(outline_view(outline@)),
            loaded ==> final(self)@ == (EditorView {
                outline: outline_view(outline@),
                selected: Seq::empty(),
                clipboard: Seq::empty(),
                history: (HistoryView {
                    undo: Seq::<EntryView>::empty(),
                    redo: Seq::<EntryView>::empty(),
                    pending: None,
                }),
                contour_idx: None,
                point_idx: None,
                behaviors: Seq::empty(),
                ..old(self)@
            }),
            !loaded ==> final(self)@ == old(self)@,
    {
        let n = outline.len();
        let mut ci: usize = 0;
        while ci < n
            invariant
                *self == *old(self),
                old(self).wf(),
                n == outline@.len(),
                ci <= n,
                forall|c: int|
                    0 <= c < ci ==> contour_view_wf(#[trigger] outline_view(outline@)[c]),
            decreases n - ci,
        {
            if outline[ci].points.is_empty() {
                proof {
                    assert(!contour_view_wf(outline_view(outline@)[ci as int]));
                }
                return false;
            }
            let m = outline[ci].points.len();
            let mut pi: usize = 0;
            while pi < m
                invariant
                    *self == *old(self),
                    old(self).wf(),
                    ci < outline@.len(),
                    m == outline@[ci as int].points@.len(),
                    m > 0,
                    pi <= m,
                    forall|k: int|
                        0 <= k < pi ==> crate::geometry::point_wf(
                            #[trigger] outline_view(outline@)[ci as int].points[k],
                        ),
                decreases m - pi,
            {
                let p = outline[ci].points[pi];
                let handle_ok_a = match p.a {
                    crate::geometry::Handle::Colocated => true,
                    crate::geometry::Handle::At(hx, hy) => -COORD_LIMIT <= hx && hx <= COORD_LIMIT
                        && -COORD_LIMIT <= hy && hy <= COORD_LIMIT,
                };
                let handle_ok_b = match p.b {
                    crate::geometry::Handle::Colocated => true,
                    crate::geometry::Handle::At(hx, hy) => -COORD_LIMIT <= hx && hx <= COORD_LIMIT
                        && -COORD_LIMIT <= hy && hy <= COORD_LIMIT,
                };
                if !(p.x >= -COORD_LIMIT && p.x <= COORD_LIMIT && p.y >= -COORD_LIMIT && p.y
                    <= COORD_LIMIT && handle_ok_a && handle_ok_b) {
                    proof {
                        assert(!crate::geometry::point_wf(
                            outline_view(outline@)[ci as int].points[pi as int],
                        ));
                        assert(!contour_view_wf(outline_view(outline@)[ci as int]));
                    }
                    return false;
                }
                pi = pi + 1;
            }
            ci = ci + 1;
        }
        self.outline = outline;
        self.selected = Vec::new();
        self.clipboard = Vec::new();
        self.history = History::new();
        self.contour_idx = None;
        self.point_idx = None;
        self.behaviors = Vec::new();
        proof {
            assert(outline_view(self.clipboard@) =~= Seq::<ContourView>::empty());
            assert(self@ =~= (EditorView {
                outline: outline_view(outline@),
                selected: Seq::<PointId>::empty(),
                clipboard: Seq::<ContourView>::empty(),
                history: (HistoryView {
                    undo: Seq::<EntryView>::empty(),
                    redo: Seq::<EntryView>::empty(),
                    pending: None,
                }),
                contour_idx: None,
                point_idx: None,
                behaviors: Seq::<Behavior>::empty(),
                ..old(self)@
            }));
        }
        true
    }
}

/// All clipboard points, in clipboard order.
pub open spec fn spec_flatten_points(o: Seq<ContourView>) -> Seq<Point>
    decreases o.len(),
{
    if o.len() == 0 {
        Seq::empty()
    } else {
        spec_flatten_points(o.drop_last()) + o.last().points
    }
}

pub open spec fn spec_min_x(pts: Seq<Point>) -> int
    decreases pts.len(),
{
    if pts.len() <= 1 {
        pts[0].x as int
    } else {
        let m = spec_min_x(pts.drop_last());
        if pts.last().x < m {
            pts.last().x as int
        } else {
            m
        }
    }
}

pub open spec fn spec_max_x(pts: Seq<Point>) -> int
    decreases pts.len(),
{
    if pts.len() <= 1 {
        pts[0].x as int
    } else {
        let m = spec_max_x(pts.drop_last());
        if pts.last().x > m {
            pts.last().x as int
        } else {
            m
        }
    }
}

pub open spec fn spec_min_y(pts: Seq<Point>) -> int
    decreases pts.len(),
{
    if pts.len() <= 1 {
        pts[0].y as int
    } else {
        let m = spec_min_y(pts.drop_last());
        if pts.last().y < m {
            pts.last().y as int
        } else {
            m
        }
    }
}

pub open spec fn spec_max_y(pts: Seq<Point>) -> int
    decreases pts.len(),
{
    if pts.len() <= 1 {
        pts[0].y as int
    } else {
        let m = spec_max_y(pts.drop_last());
        if pts.last().y > m {
            pts.last().y as int
        } else {
            m
        }
    }
}

/// The translation a paste applies: nothing for an in-place paste, and for
/// a positioned paste the move that takes the clipboard's bounding-box
/// center onto the given position.
pub open spec fn spec_paste_offset(clip: Seq<ContourView>, at: Option<(i64, i64)>) -> (int, int) {
    match at {
        Option::None => (0, 0),
        Option::Some(p) => {
            let pts = spec_flatten_points(clip);
            let cx = spec_min_x(pts) + (spec_max_x(pts) - spec_min_x(pts)) / 2;
            let cy = spec_min_y(pts) + (spec_max_y(pts) - spec_min_y(pts)) / 2;
            (p.0 - cx, p.1 - cy)
        },
    }
}

/// One clipboard contour translated by the paste offset.
pub open spec fn spec_shift_contour(c: ContourView, dx: int, dy: int) -> ContourView {
    ContourView {
        points: Seq::new(
            c.points.len(),
            |j: int|
                (Point {
                    x: (c.points[j].x + dx) as i64,
                    y: (c.points[j].y + dy) as i64,
                    ..c.points[j]
                }),
        ),
        ..c
    }
}

/// The addresses of all pasted points, in paste order, starting at contour
/// slot `base`.
pub open spec fn spec_pasted_ids(base: int, clip: Seq<ContourView>) -> Seq<PointId>
    decreases clip.len(),
{
    if clip.len() == 0 {
        Seq::empty()
    } else {
        spec_pasted_ids(base, clip.drop_last()) + Seq::new(
            clip.last().points.len(),
            |j: int| PointId { contour: (base + clip.len() - 1) as usize, point: j as usize },
        )
    }
}

/// A positioned paste is possible only when the position and every
/// translated point stay within the coordinate range.
pub open spec fn spec_paste_in_range(clip: Seq<ContourView>, at: Option<(i64, i64)>) -> bool {
    match at {
        Option::None => true,
        Option::Some(p) => coord_in_range(p.0 as int) && coord_in_range(p.1 as int) && {
            let (dx, dy) = spec_paste_offset(clip, at);
            forall|k: int, j: int|
                0 <= k < clip.len() && 0 <= j < clip[k].points.len() ==> coord_in_range(
                    (#[trigger] clip[k].points[j]).x + dx,
                ) && coord_in_range(clip[k].points[j].y + dy)
        },
    }
}

/// Pasting, as a whole-editor transition: the clipboard contours are
/// appended (translated, for a positioned paste), the selection is
/// rewritten to the pasted points, and the edit is bracketed.
pub open spec fn spec_paste_selection(v: EditorView, at: Option<(i64, i64)>) -> EditorView {
    if v.clipboard.len() == 0 || !spec_paste_in_range(v.clipboard, at) {
        v
    } else {
        let (dx, dy) = spec_paste_offset(v.clipboard, at);
        EditorView {
            outline: v.outline + Seq::new(
                v.clipboard.len(),
                |k: int| spec_shift_contour(v.clipboard[k], dx, dy),
            ),
            selected: spec_pasted_ids(v.outline.len() as int, v.clipboard),
            contour_idx: None,
            point_idx: None,
            history: spec_commit(v.history, v.outline, v.selected, "Paste selection."@),
            ..v
        }
    }
}

/// Every flattened point is a point of some clipboard contour.
proof fn lemma_flatten_wf(o: Seq<ContourView>)
    requires
        outline_view_wf(o),
    ensures
        forall|k: int|
            0 <= k < spec_flatten_points(o).len() ==> crate::geometry::point_wf(
                #[trigger] spec_flatten_points(o)[k],
            ),
    decreases o.len(),
{
    if o.len() > 0 {
        assert(outline_view_wf(o.drop_last())) by {
            assert(forall|i: int| 0 <= i < o.drop_last().len() ==> o.drop_last()[i] == o[i]);
        }
        lemma_flatten_wf(o.drop_last());
        assert forall|k: int|
            0 <= k < spec_flatten_points(o).len() implies crate::geometry::point_wf(
            #[trigger] spec_flatten_points(o)[k],
        ) by {
            let prefix = spec_flatten_points(o.drop_last());
            if k >= prefix.len() {
                assert(contour_view_wf(o[o.len() - 1]));
                assert(spec_flatten_points(o)[k] == o.last().points[k - prefix.len()]);
            }
        }
    }
}

impl Editor {
    /// Pastes the clipboard: with no position the contours come back at
    /// their original coordinates; with a position they are translated so
    /// that their bounding-box center lands on it.  The pasted points
    /// become the new selection.  An empty clipboard is a no-op; a
    /// translation that would leave the coordinate range is rejected
    /// without touching anything.
    pub fn paste_selection(&mut self, at: Option<(i64, i64)>) -> (outcome: MutationOutcome)
        requires
            old(self).wf(),
        ensures
            final(self).wf(),
            final(self)@ == spec_paste_selection(old(self)@, at),
            outcome == if old(self)@.clipboard.len() == 0 {
                MutationOutcome::Ignored
            } else if !spec_paste_in_range(old(self)@.clipboard, at) {
                MutationOutcome::Rejected
            } else {
                MutationOutcome::Applied
            },
    {
        if self.clipboard.is_empty() {
            return MutationOutcome::Ignored;
        }
        let ghost clip = self@.clipboard;
        let (dx, dy) = match at {
            Option::None => (0i64, 0i64),
            Option::Some(p) => {
                if p.0 < -COORD_LIMIT || p.0 > COORD_LIMIT || p.1 < -COORD_LIMIT || p.1
                    > COORD_LIMIT {
                    return MutationOutcome::Rejected;
                }
                // Flatten the clipboard's points to compute its bounding box.
                let mut flat: Vec<Point> = Vec::new();
                let cn = self.clipboard.len();
                let mut k: usize = 0;
                while k < cn
                    invariant
                        self.wf(),
                        clip == self@.clipboard,
                        cn == self.clipboard@.len(),
                        k <= cn,
                        flat@ == spec_flatten_points(clip.subrange(0, k as int)),
                    decreases cn - k,
                {
                    let m = self.clipboard[k].points.len();
                    let mut j: usize = 0;
                    while j < m
                        invariant
                            self.wf(),
                            clip == self@.clipboard,
                            k < self.clipboard@.len(),
                            m == clip[k as int].points.len(),
                            j <= m,
                            flat@ == spec_flatten_points(clip.subrange(0, k as int)) + clip[k as int].points.subrange(
                                0,
                                j as int,
                            ),
                        decreases m - j,
                    {
                        flat.push(self.clipboard[k].points[j]);
                        proof {
                            assert(flat@ =~= spec_flatten_points(clip.subrange(0, k as int))
                                + clip[k as int].points.subrange(0, j + 1 as int));
                        }
                        j = j + 1;
                    }
                    proof {
                        let sub1 = clip.subrange(0, k + 1 as int);
                        assert(sub1.drop_last() =~= clip.subrange(0, k as int));
                        assert(sub1.last() == clip[k as int]);
                        assert(clip[k as int].points.subrange(0, m as int) =~= clip[k as int].points);
                        assert(flat@ =~= spec_flatten_points(clip.subrange(0, k + 1 as int)));
                    }
                    k = k + 1;
                }
                proof {
                    assert(clip.subrange(0, cn as int) =~= clip);
                    lemma_flatten_wf(clip);
                    assert(contour_view_wf(clip[0]));
                    assert(spec_flatten_points(clip).len() >= clip[0].points.len()) by {
                        lemma_flatten_len_lower(clip);
                    }
                }
                // Bounding box.
                let ghost fp = spec_flatten_points(clip);
                let fl = flat.len();
                let mut min_x = flat[0].x;
                let mut max_x = flat[0].x;
                let mut min_y = flat[0].y;
                let mut max_y = flat[0].y;
                let mut i: usize = 1;
                proof {
                    assert(crate::geometry::point_wf(flat@[0]));
                    assert(flat@.subrange(0, 1) =~= seq![flat@[0]]);
                }
                while i < fl
                    invariant
                        1 <= i <= fl,
                        fl == flat@.len(),
                        flat@ == spec_flatten_points(clip),
                        forall|l: int|
                            0 <= l < fl ==> crate::geometry::point_wf(#[trigger] flat@[l]),
                        min_x as int == spec_min_x(flat@.subrange(0, i as int)),
                        max_x as int == spec_max_x(flat@.subrange(0, i as int)),
                        min_y as int == spec_min_y(flat@.subrange(0, i as int)),
                        max_y as int == spec_max_y(flat@.subrange(0, i as int)),
                        -COORD_LIMIT <= min_x <= max_x <= COORD_LIMIT,
                        -COORD_LIMIT <= min_y <= max_y <= COORD_LIMIT,
                    decreases fl - i,
                {
                    let p = flat[i];
                    proof {
                        let sub1 = flat@.subrange(0, i + 1 as int);
                        assert(sub1.drop_last() =~= flat@.subrange(0, i as int));
                        assert(sub1.last() == flat@[i as int]);
                        assert(crate::geometry::point_wf(flat@[i as int]));
                    }
                    if p.x < min_x {
                        min_x = p.x;
                    }
                    if p.x > max_x {
                        max_x = p.x;
                    }
                    if p.y < min_y {
                        min_y = p.y;
                    }
                    if p.y > max_y {
                        max_y = p.y;
                    }
                    i = i + 1;
                }
                proof {
                    assert(flat@.subrange(0, fl as int) =~= flat@);
                }
                let cx = min_x + ((max_x - min_x) as u64 / 2) as i64;
                let cy = min_y + ((max_y - min_y) as u64 / 2) as i64;
                proof {
                    assert(cx as int == spec_min_x(fp) + (spec_max_x(fp) - spec_min_x(fp)) / 2);
                    assert(cy as int == spec_min_y(fp) + (spec_max_y(fp) - spec_min_y(fp)) / 2);
                    assert(min_x <= cx <= max_x);
                    assert(min_y <= cy <= max_y);
                }
                (p.0 - cx, p.1 - cy)
            },
        };
        proof {
            assert((dx as int, dy as int) == spec_paste_offset(clip, at));
        }
        // Translate the clipboard, rejecting the paste if any point would
        // leave the coordinate range.
        let mut shifted: Vec<Contour> = Vec::new();
        let cn = self.clipboard.len();
        let mut k: usize = 0;
        while k < cn
            invariant
                self.wf(),
                clip == self@.clipboard,
                cn == self.clipboard@.len(),
                (dx as int, dy as int) == spec_paste_offset(clip, at),
                at matches Option::Some(p) ==> coord_in_range(p.0 as int) && coord_in_range(
                    p.1 as int,
                ),
                at is None ==> dx == 0 && dy == 0,
                -2 * COORD_LIMIT <= dx <= 2 * COORD_LIMIT,
                -2 * COORD_LIMIT <= dy <= 2 * COORD_LIMIT,
                k <= cn,
                shifted@.len() == k,
                forall|c: int|
                    0 <= c < k ==> (#[trigger] outline_view(shifted@)[c]) =~= spec_shift_contour(
                        clip[c],
                        dx as int,
                        dy as int,
                    ) && contour_view_wf(outline_view(shifted@)[c]),
            decreases cn - k,
        {
            let m = self.clipboard[k].points.len();
            let mut pts: Vec<Point> = Vec::new();
            let mut j: usize = 0;
            while j < m
                invariant
                    self.wf(),
                    clip == self@.clipboard,
                    k < self.clipboard@.len(),
                    m == clip[k as int].points.len(),
                    (dx as int, dy as int) == spec_paste_offset(clip, at),
                    at matches Option::Some(p) ==> coord_in_range(p.0 as int) && coord_in_range(
                        p.1 as int,
                    ),
                    at is None ==> dx == 0 && dy == 0,
                    -2 * COORD_LIMIT <= dx <= 2 * COORD_LIMIT,
                    -2 * COORD_LIMIT <= dy <= 2 * COORD_LIMIT,
                    j <= m,
                    pts@.len() == j,
                    forall|l: int|
                        0 <= l < j ==> #[trigger] pts@[l] == (Point {
                            x: (clip[k as int].points[l].x + dx) as i64,
                            y: (clip[k as int].points[l].y + dy) as i64,
                            ..clip[k as int].points[l]
                        }) && crate::geometry::point_wf(pts@[l]),
                decreases m - j,
            {
                let p = self.clipboard[k].points[j];
                proof {
                    assert(contour_view_wf(clip[k as int]));
                    assert(crate::geometry::point_wf(clip[k as int].points[j as int]));
                }
                let nx = p.x + dx;
                let ny = p.y + dy;
                if nx < -COORD_LIMIT || nx > COORD_LIMIT || ny < -COORD_LIMIT || ny > COORD_LIMIT {
                    proof {
                        assert(!spec_paste_in_range(clip, at));
                    }
                    return MutationOutcome::Rejected;
                }
                pts.push(Point { x: nx, y: ny, a: p.a, b: p.b, ptype: p.ptype });
                j = j + 1;
            }
            let closed = self.clipboard[k].closed;
            let ghost prev = shifted@;
            shifted.push(Contour { points: pts, closed });
            proof {
                assert forall|c: int|
                    0 <= c < k + 1 implies ((#[trigger] outline_view(shifted@)[c])
                    =~= spec_shift_contour(clip[c], dx as int, dy as int) && contour_view_wf(
                    outline_view(shifted@)[c],
                )) by {
                    if c < k {
                        assert(shifted@[c] == prev[c]);
                        assert(outline_view(shifted@)[c] == outline_view(prev)[c]);
                        assert(outline_view(prev)[c] =~= spec_shift_contour(
                            clip[c],
                            dx as int,
                            dy as int,
                        ));
                    } else {
                        assert(outline_view(shifted@)[c] == (ContourView {
                            points: pts@,
                            closed: clip[k as int].closed,
                        }));
                        assert(outline_view(shifted@)[c] =~= spec_shift_contour(
                            clip[c],
                            dx as int,
                            dy as int,
                        ));
                        assert(contour_view_wf(clip[k as int]));
                    }
                }
            }
            k = k + 1;
        }
        proof {
            assert(spec_paste_in_range(clip, at)) by {
                if at is Some {
                    assert forall|c: int, j: int|
                        0 <= c < clip.len() && 0 <= j < clip[c].points.len() implies coord_in_range(
                        (#[trigger] clip[c].points[j]).x + dx,
                    ) && coord_in_range(clip[c].points[j].y + dy) by {
                        assert(outline_view(shifted@)[c].points[j] == (Point {
                            x: (clip[c].points[j].x + dx) as i64,
                            y: (clip[c].points[j].y + dy) as i64,
                            ..clip[c].points[j]
                        }));
                        assert(contour_view_wf(outline_view(shifted@)[c]));
                        assert(crate::geometry::point_wf(outline_view(shifted@)[c].points[j]));
                    }
                }
            }
        }
        // Apply: bracket, append, rewrite the selection to the pasted points.
        let was_open = self.history.is_modifying();
        self.history.begin_modification(&self.outline, &self.selected, "Paste selection.");
        let base = self.outline.len();
        let ghost old_outline = self@.outline;
        let ghost shifted_view = outline_view(shifted@);
        self.outline.append(&mut shifted);
        let mut ids: Vec<PointId> = Vec::new();
        let mut k2: usize = 0;
        while k2 < cn
            invariant
                clip == self@.clipboard,
                cn == clip.len(),
                base + cn == self.outline@.len(),
                k2 <= cn,
                ids@ == spec_pasted_ids(base as int, clip.subrange(0, k2 as int)),
                forall|l: int|
                    0 <= l < ids@.len() ==> (#[trigger] ids@[l]).contour < base + k2
                        && ids@[l].contour >= base,
            decreases cn - k2,
        {
            let m = self.clipboard[k2].points.len();
            let mut j: usize = 0;
            proof {
                assert(ids@ =~= spec_pasted_ids(base as int, clip.subrange(0, k2 as int))
                    + Seq::new(
                    0 as nat,
                    |l: int| PointId { contour: (base + k2) as usize, point: l as usize },
                ));
            }
            while j < m
                invariant
                    clip == self@.clipboard,
                    k2 < clip.len(),
                    base + clip.len() == self.outline@.len(),
                    m == clip[k2 as int].points.len(),
                    j <= m,
                    ids@ == spec_pasted_ids(base as int, clip.subrange(0, k2 as int)) + Seq::new(
                        j as nat,
                        |l: int| PointId { contour: (base + k2) as usize, point: l as usize },
                    ),
                    forall|l: int|
                        0 <= l < ids@.len() ==> (#[trigger] ids@[l]).contour < base + k2 + 1
                            && ids@[l].contour >= base,
                decreases m - j,
            {
                proof {
                    assert(base + k2 < self.outline.len());
                }
                ids.push(PointId { contour: base + k2, point: j });
                proof {
                    assert(ids@ =~= spec_pasted_ids(base as int, clip.subrange(0, k2 as int))
                        + Seq::new(
                        (j + 1) as nat,
                        |l: int| PointId { contour: (base + k2) as usize, point: l as usize },
                    ));
                }
                j = j + 1;
            }
            proof {
                let sub1 = clip.subrange(0, k2 + 1 as int);
                assert(sub1.drop_last() =~= clip.subrange(0, k2 as int));
                assert(sub1.last() == clip[k2 as int]);
                assert(ids@ =~= spec_pasted_ids(base as int, clip.subrange(0, k2 + 1 as int)));
            }
            k2 = k2 + 1;
        }
        proof {
            assert(clip.subrange(0, cn as int) =~= clip);
        }
        self.selected = ids;
        self.contour_idx = None;
        self.point_idx = None;
        if !was_open {
            self.history.end_modification();
        }
        proof {
            let shifted_seq = Seq::new(
                clip.len(),
                |c: int| spec_shift_contour(clip[c], dx as int, dy as int),
            );
            assert(outline_view(self.outline@) =~= old_outline + shifted_seq) by {
                assert forall|c: int|
                    0 <= c < self.outline@.len() implies outline_view(self.outline@)[c] =~= (
                old_outline + shifted_seq)[c] by {
                    if c >= base {
                        assert(outline_view(self.outline@)[c] == shifted_view[c - base]);
                        assert(shifted_view[c - base] =~= spec_shift_contour(
                            clip[c - base],
                            dx as int,
                            dy as int,
                        ));
                    }
                }
            }
            assert(self@ =~= spec_paste_selection(old(self)@, at));
            assert(editor_view_wf(self@)) by {
                assert forall|c: int|
                    0 <= c < self@.outline.len() implies contour_view_wf(#[trigger] self@.outline[c]) by {
                    if c < old_outline.len() {
                        assert(self@.outline[c] == old_outline[c]);
                        assert(contour_view_wf(old_outline[c]));
                    } else {
                        assert(self@.outline[c] =~= spec_shift_contour(
                            clip[c - old_outline.len()],
                            dx as int,
                            dy as int,
                        ));
                    }
                }
                assert(base + clip.len() == self.outline.len());
                assert forall|k: int|
                    0 <= k < clip.len() implies (#[trigger] clip[k]).points.len() <= usize::MAX by {
                    assert(clip[k].points == self.clipboard@[k].points@);
                    assert(self.clipboard@[k].points@.len() == self.clipboard@[k].points.len());
                }
                lemma_pasted_ids_shape(base as int, clip);
                assert(selection_valid(self@.selected, self@.outline)) by {
                    assert forall|l: int|
                        0 <= l < self@.selected.len() implies id_in_bounds(
                        self@.outline,
                        #[trigger] self@.selected[l],
                    ) by {
                        let id = self@.selected[l];
                        assert(self@.outline[id.contour as int] =~= spec_shift_contour(
                            clip[id.contour - base],
                            dx as int,
                            dy as int,
                        ));
                    }
                }
            }
        }
        MutationOutcome::Applied
    }
}

/// The flattened clipboard holds at least the first contour's points.
proof fn lemma_flatten_len_lower(o: Seq<ContourView>)
    requires
        o.len() > 0,
    ensures
        spec_flatten_points(o).len() >= o[0].points.len(),
    decreases o.len(),
{
    if o.len() > 1 {
        lemma_flatten_len_lower(o.drop_last());
        assert(o.drop_last()[0] == o[0]);
    }
}

/// The pasted addresses: one for each pasted point, in order, all distinct.
proof fn lemma_pasted_ids_shape(base: int, clip: Seq<ContourView>)
    requires
        0 <= base,
        base + clip.len() <= usize::MAX,
        forall|k: int| 0 <= k < clip.len() ==> (#[trigger] clip[k]).points.len() <= usize::MAX,
    ensures
        forall|l: int|
            0 <= l < spec_pasted_ids(base, clip).len() ==> {
                let id = #[trigger] spec_pasted_ids(base, clip)[l];
                base <= id.contour < base + clip.len() && id.point < clip[id.contour
                    - base].points.len()
            },
        selection_nodup(spec_pasted_ids(base, clip)),
    decreases clip.len(),
{
    if clip.len() > 0 {
        assert(forall|k: int|
            0 <= k < clip.drop_last().len() ==> (#[trigger] clip.drop_last()[k]).points.len()
                <= usize::MAX) by {
            assert(forall|k: int|
                0 <= k < clip.drop_last().len() ==> clip.drop_last()[k] == clip[k]);
        }
        lemma_pasted_ids_shape(base, clip.drop_last());
        let prefix = spec_pasted_ids(base, clip.drop_last());
        let block = Seq::new(
            clip.last().points.len(),
            |j: int| PointId { contour: (base + clip.len() - 1) as usize, point: j as usize },
        );
        assert forall|l: int|
            0 <= l < spec_pasted_ids(base, clip).len() implies {
            let id = #[trigger] spec_pasted_ids(base, clip)[l];
            base <= id.contour < base + clip.len() && id.point < clip[id.contour
                - base].points.len()
        } by {
            if l < prefix.len() {
                let id = prefix[l];
                assert(clip.drop_last()[id.contour - base] == clip[id.contour - base]);
            } else {
                assert(spec_pasted_ids(base, clip)[l] == block[l - prefix.len()]);
            }
        }
        assert forall|a: int, b: int|
            0 <= a < b < spec_pasted_ids(base, clip).len() implies spec_pasted_ids(base, clip)[a]
            != spec_pasted_ids(base, clip)[b] by {
            let ia = spec_pasted_ids(base, clip)[a];
            let ib = spec_pasted_ids(base, clip)[b];
            if a < prefix.len() && b < prefix.len() {
                assert(ia == prefix[a]);
                assert(ib == prefix[b]);
                assert(prefix[a] != prefix[b]);
            } else if a < prefix.len() {
                assert(ia == prefix[a]);
                assert(base <= prefix[a].contour < base + clip.drop_last().len());
                assert(ib == block[b - prefix.len()]);
                assert(ib.contour == base + clip.len() - 1);
            } else {
                assert(ia == block[a - prefix.len()]);
                assert(ib == block[b - prefix.len()]);
                assert(clip[clip.len() - 1].points.len() <= usize::MAX);
                assert(ia.point == (a - prefix.len()) as usize);
                assert(ib.point == (b - prefix.len()) as usize);
            }
        }
    }
}

/// Helper fact: the state an undo restores comes from a well-formed entry.
spec fn entry_wf_unfold(h: HistoryView, o: Seq<ContourView>, s: Seq<PointId>) -> bool {
    h.undo.len() > 0 ==> (outline_view_wf(o) && selection_valid(s, o) && selection_nodup(s))
}

spec fn redo_entry_wf_unfold(h: HistoryView, o: Seq<ContourView>, s: Seq<PointId>) -> bool {
    h.redo.len() > 0 ==> (outline_view_wf(o) && selection_valid(s, o) && selection_nodup(s))
}

} // verus!
