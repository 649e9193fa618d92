//! Gesture behaviors: self-terminating state objects for in-progress
//! multi-event mouse gestures, kept on a stack owned by the editor.
//!
//! While the stack is non-empty the topmost behavior receives every input
//! event before the active tool does; a behavior pops itself when it sees
//! the release of the same button that armed it.

use crate::command::{Command, CommandMod};
use crate::editor::{
    coord_in_range, editor_view_wf, spec_active, spec_drag_in_range, spec_drag_outline,
    spec_merge_contours, Editor, EditorView, MutationOutcome, Viewport, ZOOM_LEVEL_LIMIT,
};
use crate::geometry::{
    lemma_first_hit_characterization, spec_first_hit, PointId, WhichHandle, COORD_LIMIT,
    HIT_RADIUS,
};
use crate::history::{spec_begin, spec_end};
use vstd::prelude::*;

verus! {

/// Which mouse button an event carries.
#[derive(Clone, Copy, PartialEq, Eq, Structural, Debug)]
pub enum MouseButton {
    Left,
    Middle,
    Right,
    Unknown,
}

/// A snapshot of the pointer at one event: its position in font units, the
/// button involved, and the modifier keys held.
#[derive(Clone, Copy, PartialEq, Debug)]
pub struct MouseInfo {
    pub position: (i64, i64),
    pub button: MouseButton,
    pub modifiers: CommandMod,
}

/// The kinds of mouse events routed to tools and behaviors.
#[derive(Clone, Copy, PartialEq, Eq, Structural, Debug)]
pub enum MouseEventType {
    Pressed,
    DoubleClick,
    Released,
    Moved,
}

/// One routed input event.
#[derive(Clone, Copy, PartialEq, Debug)]
pub enum EditorEvent {
    MouseEvent { event_type: MouseEventType, mouse_info: MouseInfo },
    ScrollEvent { horizontal: i64, vertical: i64 },
    ToolCommand { command: Command, command_mod: CommandMod },
}

/// The move-point gesture: armed by a press on a point, it drags the point
/// (and, when asked, the whole selection with it) and commits on release of
/// the same button, merging contours when released onto a fitting endpoint.
#[derive(Clone, Copy, PartialEq, Debug)]
pub struct MovePoint {
    pub mouse_info: MouseInfo,
    pub move_selected: bool,
}

/// The pan gesture: armed by a press, it drags the viewport offset.
#[derive(Clone, Copy, PartialEq, Debug)]
pub struct PanBehavior {
    pub mouse_info: MouseInfo,
    pub start_offset: (i64, i64),
}

/// Scroll-driven zooming, handled immediately rather than armed.
#[derive(Clone, Copy, PartialEq, Eq, Structural, Debug, Default)]
pub struct ZoomScroll;

/// A stack entry: one in-progress gesture.
#[derive(Clone, Copy, PartialEq, Debug)]
pub enum Behavior {
    MovePoint(MovePoint),
    Pan(PanBehavior),
}

impl MovePoint {
    pub fn new(move_selected: bool, mouse_info: MouseInfo) -> (r: Self)
        ensures
            r == (MovePoint { mouse_info, move_selected }),
    {
        MovePoint { mouse_info, move_selected }
    }
}

impl PanBehavior {
    pub fn new(start_offset: (i64, i64), mouse_info: MouseInfo) -> (r: Self)
        ensures
            r == (PanBehavior { mouse_info, start_offset }),
    {
        PanBehavior { mouse_info, start_offset }
    }
}

/// What one drag event of the move-point gesture does to the editor: with
/// an active point, it opens the modification bracket (once per gesture)
/// and applies the relative-offset drag policy; without one it is ignored,
/// and a drag that would leave the coordinate range changes no geometry.
pub open spec fn spec_mouse_moved(v: EditorView, mp: MovePoint, mi: MouseInfo) -> EditorView {
    match spec_active(v) {
        Option::None => v,
        Option::Some(g) => {
            let v1 = EditorView {
                history: spec_begin(v.history, v.outline, v.selected, "Move point."@),
                ..v
            };
            if coord_in_range(mi.position.0 as int) && coord_in_range(mi.position.1 as int)
                && spec_drag_in_range(
                v.outline,
                v.selected,
                mp.move_selected,
                g,
                mi.position.0,
                mi.position.1,
            ) {
                EditorView {
                    outline: spec_drag_outline(
                        v.outline,
                        v.selected,
                        mp.move_selected,
                        g,
                        mi.position.0,
                        mi.position.1,
                    ),
                    ..v1
                }
            } else {
                v1
            }
        },
    }
}

/// What releasing the arming button does: while a modification is open, a
/// release over another point's body (not a handle) attempts the contour
/// merge; the bracket is then closed and the behavior pops itself.  A
/// release of any other button does nothing.
pub open spec fn spec_mouse_released(v: EditorView, mp: MovePoint, mi: MouseInfo) -> EditorView {
    if mi.button != mp.mouse_info.button {
        v
    } else {
        let v1 = match spec_active(v) {
            Option::Some(g) => {
                if v.history.pending is Some {
                    match spec_first_hit(
                        v.outline,
                        mi.position.0 as int,
                        mi.position.1 as int,
                        HIT_RADIUS as int,
                        Some(g),
                    ) {
                        Option::Some((tid, WhichHandle::Neither)) => spec_merge_contours(v, g, tid),
                        _ => v,
                    }
                } else {
                    v
                }
            },
            Option::None => v,
        };
        let v2 = EditorView { history: spec_end(v1.history), ..v1 };
        EditorView {
            behaviors: if v2.behaviors.len() > 0 {
                v2.behaviors.drop_last()
            } else {
                v2.behaviors
            },
            ..v2
        }
    }
}

/// Whether releasing commits a merge: the arming button is released while a
/// modification is open, the cursor sits on another point's body, and the
/// merge preconditions hold there.
pub open spec fn spec_release_merges(v: EditorView, mp: MovePoint, mi: MouseInfo) -> bool {
    &&& mi.button == mp.mouse_info.button
    &&& v.history.pending is Some
    &&& match spec_active(v) {
        Option::Some(g) => match spec_first_hit(
            v.outline,
            mi.position.0 as int,
            mi.position.1 as int,
            HIT_RADIUS as int,
            Some(g),
        ) {
            Option::Some((tid, WhichHandle::Neither)) => crate::editor::spec_can_merge(
                v.outline,
                g,
                tid,
            ),
            _ => false,
        },
        Option::None => false,
    }
}

impl MovePoint {
    /// Routes one drag event into the editor.
    pub fn mouse_moved(&mut self, v: &mut Editor, mouse_info: MouseInfo) -> (outcome:
        MutationOutcome)
        requires
            old(v).wf(),
        ensures
            final(v).wf(),
            *final(self) == *old(self),
            final(v)@ == spec_mouse_moved(old(v)@, *old(self), mouse_info),
            outcome == MutationOutcome::Ignored <==> spec_active(old(v)@) is None,
            outcome == MutationOutcome::Applied <==> (spec_active(old(v)@) matches Some(g)
                && coord_in_range(mouse_info.position.0 as int) && coord_in_range(
                mouse_info.position.1 as int,
            ) && spec_drag_in_range(
                old(v)@.outline,
                old(v)@.selected,
                old(self).move_selected,
                g,
                mouse_info.position.0,
                mouse_info.position.1,
            )),
    {
        let (vci, vpi) = match (v.contour_idx, v.point_idx) {
            (Some(a), Some(b)) => (a, b),
            _ => {
                return MutationOutcome::Ignored;
            },
        };
        if !v.is_modifying() {
            v.begin_modification("Move point.");
        } else {
            proof {
                assert(v@ =~= (EditorView {
                    history: spec_begin(
                        old(v)@.history,
                        old(v)@.outline,
                        old(v)@.selected,
                        "Move point."@,
                    ),
                    ..old(v)@
                }));
            }
        }
        proof {
            assert(editor_view_wf(v@));
        }
        let outcome = v.apply_drag(
            PointId { contour: vci, point: vpi },
            mouse_info.position.0,
            mouse_info.position.1,
            self.move_selected,
        );
        proof {
            assert(final(v)@ =~= spec_mouse_moved(old(v)@, *old(self), mouse_info));
        }
        outcome
    }

    /// Routes the release of the arming button into the editor: commits the
    /// merge when the preconditions hold, closes the bracket, pops itself.
    pub fn mouse_released(&mut self, v: &mut Editor, mouse_info: MouseInfo) -> (outcome:
        MutationOutcome)
        requires
            old(v).wf(),
        ensures
            final(v).wf(),
            *final(self) == *old(self),
            final(v)@ == spec_mouse_released(old(v)@, *old(self), mouse_info),
            (outcome == MutationOutcome::Applied) == spec_release_merges(
                old(v)@,
                *old(self),
                mouse_info,
            ),
    {
        if !(mouse_info.button == self.mouse_info.button) {
            return MutationOutcome::Ignored;
        }
        let active = match (v.contour_idx, v.point_idx) {
            (Some(a), Some(b)) => Some(PointId { contour: a, point: b }),
            _ => None,
        };
        let mut outcome = MutationOutcome::Ignored;
        match active {
            Some(g) => {
                if v.is_modifying() {
                    let hit = crate::geometry::clicked_point_or_handle(
                        &v.outline,
                        mouse_info.position,
                        HIT_RADIUS,
                        Some(g),
                    );
                    proof {
                        lemma_first_hit_characterization(
                            v@.outline,
                            mouse_info.position.0 as int,
                            mouse_info.position.1 as int,
                            HIT_RADIUS as int,
                            Some(g),
                            hit,
                        );
                    }
                    match hit {
                        Some((tid, WhichHandle::Neither)) => {
                            outcome = v.merge_contours(g, tid);
                        },
                        _ => {},
                    }
                }
            },
            None => {},
        }
        v.end_modification();
        v.pop_behavior();
        proof {
            assert(final(v)@ =~= spec_mouse_released(old(v)@, *old(self), mouse_info));
        }
        outcome
    }

    /// Routes one event of the gesture: drags on movement, commits on
    /// release of the arming button, ignores everything else.
    pub fn event(&mut self, v: &mut Editor, event: EditorEvent)
        requires
            old(v).wf(),
        ensures
            final(v).wf(),
            *final(self) == *old(self),
            final(v)@ == spec_move_point_event(old(v)@, *old(self), event),
    {
        match event {
            EditorEvent::MouseEvent { event_type, mouse_info } => {
                match event_type {
                    MouseEventType::Released => {
                        self.mouse_released(v, mouse_info);
                    },
                    MouseEventType::Moved => {
                        self.mouse_moved(v, mouse_info);
                    },
                    _ => {},
                }
            },
            _ => {},
        }
    }
}

/// The move-point gesture's whole event table.
pub open spec fn spec_move_point_event(v: EditorView, mp: MovePoint, event: EditorEvent) -> EditorView {
    match event {
        EditorEvent::MouseEvent { event_type, mouse_info } => {
            match event_type {
                MouseEventType::Released => spec_mouse_released(v, mp, mouse_info),
                MouseEventType::Moved => spec_mouse_moved(v, mp, mouse_info),
                _ => v,
            }
        },
        _ => v,
    }
}

/// What one pan drag does: the viewport offset becomes the offset captured
/// at gesture start plus how far the cursor has come since — absolute, so
/// the pan is as path-independent as the point drag.  Out-of-range
/// positions are ignored.
pub open spec fn spec_pan_moved(v: EditorView, pb: PanBehavior, mi: MouseInfo) -> EditorView {
    let ox: int = pb.start_offset.0 + mi.position.0 - pb.mouse_info.position.0;
    let oy: int = pb.start_offset.1 + mi.position.1 - pb.mouse_info.position.1;
    if coord_in_range(pb.start_offset.0 as int) && coord_in_range(pb.start_offset.1 as int)
        && coord_in_range(pb.mouse_info.position.0 as int) && coord_in_range(
        pb.mouse_info.position.1 as int,
    ) && coord_in_range(mi.position.0 as int) && coord_in_range(mi.position.1 as int)
        && coord_in_range(ox) && coord_in_range(oy) {
        EditorView {
            viewport: (Viewport {
                offset_x: ox as i64,
                offset_y: oy as i64,
                zoom_level: v.viewport.zoom_level,
            }),
            ..v
        }
    } else {
        v
    }
}

/// Releasing the arming button pops the pan; other buttons are ignored.
pub open spec fn spec_pan_released(v: EditorView, pb: PanBehavior, mi: MouseInfo) -> EditorView {
    if mi.button != pb.mouse_info.button {
        v
    } else {
        EditorView {
            behaviors: if v.behaviors.len() > 0 {
                v.behaviors.drop_last()
            } else {
                v.behaviors
            },
            ..v
        }
    }
}

/// The pan gesture's whole event table.
pub open spec fn spec_pan_event(v: EditorView, pb: PanBehavior, event: EditorEvent) -> EditorView {
    match event {
        EditorEvent::MouseEvent { event_type, mouse_info } => {
            match event_type {
                MouseEventType::Released => spec_pan_released(v, pb, mouse_info),
                MouseEventType::Moved => spec_pan_moved(v, pb, mouse_info),
                _ => v,
            }
        },
        _ => v,
    }
}

impl PanBehavior {
    /// One pan drag event.
    pub fn mouse_moved(&mut self, v: &mut Editor, mouse_info: MouseInfo)
        requires
            old(v).wf(),
        ensures
            final(v).wf(),
            *final(self) == *old(self),
            final(v)@ == spec_pan_moved(old(v)@, *old(self), mouse_info),
    {
        let (sx, sy) = self.start_offset;
        let (mx, my) = self.mouse_info.position;
        let (cx, cy) = mouse_info.position;
        if sx < -COORD_LIMIT || sx > COORD_LIMIT || sy < -COORD_LIMIT || sy > COORD_LIMIT || mx
            < -COORD_LIMIT || mx > COORD_LIMIT || my < -COORD_LIMIT || my > COORD_LIMIT || cx
            < -COORD_LIMIT || cx > COORD_LIMIT || cy < -COORD_LIMIT || cy > COORD_LIMIT {
            return ;
        }
        let ox = sx + cx - mx;
        let oy = sy + cy - my;
        if ox < -COORD_LIMIT || ox > COORD_LIMIT || oy < -COORD_LIMIT || oy > COORD_LIMIT {
            return ;
        }
        let zl = v.viewport.zoom_level;
        v.viewport = Viewport { offset_x: ox, offset_y: oy, zoom_level: zl };
        proof {
            assert(v@ =~= spec_pan_moved(old(v)@, *old(self), mouse_info));
        }
    }

    /// Pops the pan when its arming button is released.
    pub fn mouse_released(&mut self, v: &mut Editor, mouse_info: MouseInfo)
        requires
            old(v).wf(),
        ensures
            final(v).wf(),
            *final(self) == *old(self),
            final(v)@ == spec_pan_released(old(v)@, *old(self), mouse_info),
    {
        if mouse_info.button == self.mouse_info.button {
            v.pop_behavior();
        }
    }

    /// Routes one event of the pan gesture.
    pub fn event(&mut self, v: &mut Editor, event: EditorEvent)
        requires
            old(v).wf(),
        ensures
            final(v).wf(),
            *final(self) == *old(self),
            final(v)@ == spec_pan_event(old(v)@, *old(self), event),
    {
        match event {
            EditorEvent::MouseEvent { event_type, mouse_info } => {
                match event_type {
                    MouseEventType::Released => self.mouse_released(v, mouse_info),
                    MouseEventType::Moved => self.mouse_moved(v, mouse_info),
                    _ => {},
                }
            },
            _ => {},
        }
    }
}

/// Scroll-driven zoom: the level moves by the scroll amount and saturates
/// at the level bounds.
pub open spec fn spec_zoom_scroll(v: EditorView, vertical: i64) -> EditorView {
    let sum: int = v.viewport.zoom_level + vertical;
    let nl: i64 = if sum > ZOOM_LEVEL_LIMIT {
        ZOOM_LEVEL_LIMIT
    } else if sum < -ZOOM_LEVEL_LIMIT {
        (-ZOOM_LEVEL_LIMIT) as i64
    } else {
        sum as i64
    };
    EditorView {
        viewport: (Viewport {
            offset_x: v.viewport.offset_x,
            offset_y: v.viewport.offset_y,
            zoom_level: nl,
        }),
        ..v
    }
}

/// The zoom-scroll handler's whole event table.
pub open spec fn spec_zoom_scroll_event(v: EditorView, event: EditorEvent) -> EditorView {
    match event {
        EditorEvent::ScrollEvent { horizontal, vertical } => spec_zoom_scroll(v, vertical),
        _ => v,
    }
}

impl ZoomScroll {
    /// Applies a scroll event to the zoom level, saturating at the bounds.
    pub fn event(&mut self, v: &mut Editor, event: EditorEvent)
        requires
            old(v).wf(),
        ensures
            final(v).wf(),
            *final(self) == *old(self),
            final(v)@ == spec_zoom_scroll_event(old(v)@, event),
    {
        match event {
            EditorEvent::ScrollEvent { horizontal: _, vertical } => {
                let lv = v.viewport.zoom_level;
                let nl = if vertical >= 0 {
                    if vertical > ZOOM_LEVEL_LIMIT - lv {
                        ZOOM_LEVEL_LIMIT
                    } else {
                        lv + vertical
                    }
                } else {
                    if vertical < -ZOOM_LEVEL_LIMIT - lv {
                        -ZOOM_LEVEL_LIMIT
                    } else {
                        lv + vertical
                    }
                };
                let ox = v.viewport.offset_x;
                let oy = v.viewport.offset_y;
                v.viewport = Viewport { offset_x: ox, offset_y: oy, zoom_level: nl };
                proof {
                    assert(v@ =~= spec_zoom_scroll_event(old(v)@, event));
                }
            },
            _ => {},
        }
    }
}

/// One stack entry's whole event table.
pub open spec fn spec_behavior_event(b: Behavior, v: EditorView, event: EditorEvent) -> EditorView {
    match b {
        Behavior::MovePoint(mp) => spec_move_point_event(v, mp, event),
        Behavior::Pan(pb) => spec_pan_event(v, pb, event),
    }
}

impl Behavior {
    /// Routes one event to the gesture this entry holds.
    pub fn event(&mut self, v: &mut Editor, event: EditorEvent)
        requires
            old(v).wf(),
        ensures
            final(v).wf(),
            *final(self) == *old(self),
            final(v)@ == spec_behavior_event(*old(self), old(v)@, event),
    {
        match self {
            Behavior::MovePoint(mp) => mp.event(v, event),
            Behavior::Pan(pb) => pb.event(v, event),
        }
    }
}

/// The point a release at `pos` would merge the grabbed point with, if the
/// merge preconditions hold there: what the per-frame preview highlights
/// before the gesture commits.
pub open spec fn spec_merge_preview(v: EditorView, pos: (i64, i64)) -> Option<PointId> {
    match spec_active(v) {
        Option::None => None,
        Option::Some(g) => match spec_first_hit(
            v.outline,
            pos.0 as int,
            pos.1 as int,
            HIT_RADIUS as int,
            Some(g),
        ) {
            Option::Some((tid, WhichHandle::Neither)) => if crate::editor::spec_can_merge(
                v.outline,
                g,
                tid,
            ) {
                Some(tid)
            } else {
                None
            },
            _ => None,
        },
    }
}

/// Decides, read-only, whether releasing at `pos` would merge, and with
/// which point; a renderer draws the returned point highlighted.
pub fn merge_preview(v: &Editor, pos: (i64, i64)) -> (r: Option<PointId>)
    requires
        v.wf(),
    ensures
        r == spec_merge_preview(v@, pos),
{
    let g = match (v.contour_idx, v.point_idx) {
        (Some(a), Some(b)) => PointId { contour: a, point: b },
        _ => {
            return None;
        },
    };
    let hit = crate::geometry::clicked_point_or_handle(&v.outline, pos, HIT_RADIUS, Some(g));
    proof {
        lemma_first_hit_characterization(
            v@.outline,
            pos.0 as int,
            pos.1 as int,
            HIT_RADIUS as int,
            Some(g),
            hit,
        );
    }
    match hit {
        Some((tid, WhichHandle::Neither)) => {
            if crate::editor::can_merge(&v.outline, g, tid) {
                Some(tid)
            } else {
                None
            }
        },
        _ => None,
    }
}

/// Pops are strictly last-in first-out: after arming gesture `a` and then
/// gesture `b`, the stack's top is `b`, and one pop brings `a` back to the
/// top with the stack as it was before `b` was armed.
pub proof fn lemma_behavior_stack_lifo(stack: Seq<Behavior>, a: Behavior, b: Behavior)
    ensures
        stack.push(a).push(b).last() == b,
        stack.push(a).push(b).drop_last() == stack.push(a),
        stack.push(a).last() == a,
{
    assert(stack.push(a).push(b).drop_last() =~= stack.push(a));
}

} // verus!
