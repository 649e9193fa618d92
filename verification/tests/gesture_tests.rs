use glyphedit::behaviors::{
    merge_preview, Behavior, EditorEvent, MouseButton, MouseEventType, MouseInfo, MovePoint,
    PanBehavior,
};
use glyphedit::command::{Command, CommandMod};
use glyphedit::dispatch::{AppRequest, Routed};
use glyphedit::editor::Editor;
use glyphedit::geometry::{Contour, Handle, Point, PointId, PointType};
use glyphedit::tools::ToolEnum;

fn gpt(x: i64, y: i64, ptype: PointType) -> Point {
    Point { x, y, a: Handle::Colocated, b: Handle::Colocated, ptype }
}

fn glyph_editor() -> Editor {
    let mut e = Editor::new();
    assert!(e.load_outline(vec![
        Contour { points: vec![gpt(0, 0, PointType::Move), gpt(100, 0, PointType::Line)], closed: false },
        Contour { points: vec![gpt(200, 0, PointType::Move), gpt(300, 0, PointType::Line)], closed: false },
    ]));
    e
}

fn mouse(x: i64, y: i64, button: MouseButton) -> MouseInfo {
    MouseInfo { position: (x, y), button, modifiers: CommandMod::none() }
}

fn mouse_event(t: MouseEventType, x: i64, y: i64, button: MouseButton) -> EditorEvent {
    EditorEvent::MouseEvent { event_type: t, mouse_info: mouse(x, y, button) }
}

#[test]
fn drag_and_release_merges_start_onto_end() {
    // Drag p0 (Start of contour 0) onto p3 (End of contour 1) and let go:
    // the merge succeeds and yields one contour, contour 1's points first,
    // then contour 0's points minus its anchor.
    let mut e = glyph_editor();
    assert!(e.set_active_point(PointId { contour: 0, point: 0 }));
    let arm = mouse(0, 0, MouseButton::Left);
    e.push_behavior(Behavior::MovePoint(MovePoint::new(false, arm)));

    assert_eq!(
        e.dispatch_editor_event(mouse_event(MouseEventType::Moved, 150, 40, MouseButton::Left)),
        Routed::ToBehavior
    );
    assert!(e.is_modifying());
    assert_eq!(
        e.dispatch_editor_event(mouse_event(MouseEventType::Moved, 301, 2, MouseButton::Left)),
        Routed::ToBehavior
    );
    // Before release, the preview names the merge target.
    assert_eq!(
        merge_preview(&e, (301, 2)),
        Some(PointId { contour: 1, point: 1 })
    );
    assert_eq!(
        e.dispatch_editor_event(mouse_event(MouseEventType::Released, 301, 2, MouseButton::Left)),
        Routed::ToBehavior
    );
    assert_eq!(e.outline.len(), 1);
    assert_eq!(
        e.outline[0].points,
        vec![
            gpt(200, 0, PointType::Move),
            gpt(300, 0, PointType::Line),
            gpt(100, 0, PointType::Line),
        ]
    );
    // The gesture closed its bracket and popped itself.
    assert!(!e.is_modifying());
    assert!(e.behaviors.is_empty());
    assert_eq!(e.history.undo_stack.len(), 1);
    // The whole gesture is one undoable step.
    assert!(e.undo());
    assert_eq!(e.outline.len(), 2);
    assert_eq!(e.outline[0].points[0], gpt(0, 0, PointType::Move));
}

#[test]
fn release_on_a_start_point_refuses_the_merge() {
    // Dragging p0 (a Start) onto p2 (also a Start) is refused: both
    // contours survive, only the drag itself is applied.
    let mut e = glyph_editor();
    assert!(e.set_active_point(PointId { contour: 0, point: 0 }));
    e.push_behavior(Behavior::MovePoint(MovePoint::new(false, mouse(0, 0, MouseButton::Left))));
    e.dispatch_editor_event(mouse_event(MouseEventType::Moved, 201, 1, MouseButton::Left));
    assert_eq!(merge_preview(&e, (201, 1)), None);
    e.dispatch_editor_event(mouse_event(MouseEventType::Released, 201, 1, MouseButton::Left));
    assert_eq!(e.outline.len(), 2);
    assert_eq!(e.outline[0].points[0], gpt(201, 1, PointType::Move));
    assert_eq!(e.outline[1].points, vec![gpt(200, 0, PointType::Move), gpt(300, 0, PointType::Line)]);
    assert!(e.behaviors.is_empty());
    assert!(!e.is_modifying());
}

#[test]
fn releasing_another_button_keeps_the_gesture_armed() {
    let mut e = glyph_editor();
    assert!(e.set_active_point(PointId { contour: 0, point: 0 }));
    e.push_behavior(Behavior::MovePoint(MovePoint::new(false, mouse(0, 0, MouseButton::Left))));
    e.dispatch_editor_event(mouse_event(MouseEventType::Moved, 10, 10, MouseButton::Left));
    // A right-button release is not the arming trigger: nothing pops.
    e.dispatch_editor_event(mouse_event(MouseEventType::Released, 10, 10, MouseButton::Right));
    assert_eq!(e.behaviors.len(), 1);
    assert!(e.is_modifying());
    e.dispatch_editor_event(mouse_event(MouseEventType::Released, 10, 10, MouseButton::Left));
    assert!(e.behaviors.is_empty());
    assert!(!e.is_modifying());
}

#[test]
fn drag_moves_whole_selection_relative() {
    let mut e = glyph_editor();
    assert!(e.select_point(PointId { contour: 0, point: 0 }));
    assert!(e.select_point(PointId { contour: 0, point: 1 }));
    assert!(e.set_active_point(PointId { contour: 0, point: 0 }));
    e.push_behavior(Behavior::MovePoint(MovePoint::new(true, mouse(0, 0, MouseButton::Left))));
    e.dispatch_editor_event(mouse_event(MouseEventType::Moved, 500, 500, MouseButton::Left));
    e.dispatch_editor_event(mouse_event(MouseEventType::Moved, 10, 20, MouseButton::Left));
    // Wherever the cursor went in between, the selection follows the final
    // position with its original offsets intact.
    assert_eq!(e.outline[0].points[0], gpt(10, 20, PointType::Move));
    assert_eq!(e.outline[0].points[1], gpt(110, 20, PointType::Line));
}

#[test]
fn stack_pops_in_lifo_order() {
    let mut e = glyph_editor();
    let a = Behavior::MovePoint(MovePoint::new(false, mouse(0, 0, MouseButton::Left)));
    let b = Behavior::Pan(PanBehavior::new((0, 0), mouse(0, 0, MouseButton::Middle)));
    e.push_behavior(a);
    e.push_behavior(b);
    assert_eq!(e.behaviors.len(), 2);
    // The middle-button release terminates B (the pan), not A.
    e.dispatch_editor_event(mouse_event(MouseEventType::Released, 0, 0, MouseButton::Middle));
    assert_eq!(e.behaviors.len(), 1);
    assert!(matches!(e.behaviors[0], Behavior::MovePoint(_)));
    // Then A's own trigger pops A.
    e.dispatch_editor_event(mouse_event(MouseEventType::Released, 0, 0, MouseButton::Left));
    assert!(e.behaviors.is_empty());
}

#[test]
fn events_never_reach_the_tool_while_a_gesture_is_armed() {
    let mut e = glyph_editor();
    e.set_tool(ToolEnum::Grid);
    e.push_behavior(Behavior::Pan(PanBehavior::new((0, 0), mouse(0, 0, MouseButton::Left))));
    // With a non-empty stack, a press goes to the behavior: the grid tool
    // would have armed a second pan if it had seen the event.
    let routed = e.dispatch_editor_event(mouse_event(MouseEventType::Pressed, 5, 5, MouseButton::Left));
    assert_eq!(routed, Routed::ToBehavior);
    assert_eq!(e.behaviors.len(), 1);
    assert_eq!(e.tool, ToolEnum::Grid);
    // With an empty stack the tool sees it and arms a pan.
    e.pop_behavior();
    let routed = e.dispatch_editor_event(mouse_event(MouseEventType::Pressed, 5, 5, MouseButton::Left));
    assert_eq!(routed, Routed::ToTool);
    assert_eq!(e.behaviors.len(), 1);
}

#[test]
fn grid_pan_drags_the_viewport() {
    let mut e = glyph_editor();
    e.set_tool(ToolEnum::Grid);
    e.dispatch_editor_event(mouse_event(MouseEventType::Pressed, 10, 10, MouseButton::Left));
    assert_eq!(e.behaviors.len(), 1);
    e.dispatch_editor_event(mouse_event(MouseEventType::Moved, 25, 40, MouseButton::Left));
    assert_eq!((e.viewport.offset_x, e.viewport.offset_y), (15, 30));
    // The pan recomputes from the captured start, never accumulating.
    e.dispatch_editor_event(mouse_event(MouseEventType::Moved, 13, 14, MouseButton::Left));
    assert_eq!((e.viewport.offset_x, e.viewport.offset_y), (3, 4));
    e.dispatch_editor_event(mouse_event(MouseEventType::Released, 13, 14, MouseButton::Left));
    assert!(e.behaviors.is_empty());
}

#[test]
fn scroll_zooms_and_saturates() {
    let mut e = glyph_editor();
    e.set_tool(ToolEnum::Grid);
    e.dispatch_editor_event(EditorEvent::ScrollEvent { horizontal: 0, vertical: 3 });
    assert_eq!(e.viewport.zoom_level, 3);
    e.dispatch_editor_event(EditorEvent::ScrollEvent { horizontal: 0, vertical: 500 });
    assert_eq!(e.viewport.zoom_level, 100);
    e.dispatch_editor_event(EditorEvent::ScrollEvent { horizontal: 0, vertical: -1000 });
    assert_eq!(e.viewport.zoom_level, -100);
}

#[test]
fn commands_route_to_editor_or_application() {
    let mut e = glyph_editor();
    let none = CommandMod::none();
    assert_eq!(e.apply_command(Command::ToolPan, none, (0, 0)), AppRequest::NoRequest);
    assert_eq!(e.tool, ToolEnum::Pan);
    assert_eq!(e.apply_command(Command::ZoomIn, none, (0, 0)), AppRequest::ZoomIn);
    assert_eq!(e.apply_command(Command::IOOpen, none, (0, 0)), AppRequest::Open);
    assert_eq!(e.apply_command(Command::IOSaveAs, none, (0, 0)), AppRequest::SaveAs);
    assert_eq!(e.apply_command(Command::SkiaDump, none, (0, 0)), AppRequest::SkiaDump);
    assert_eq!(
        e.apply_command(Command::TogglePointLabels, none, (0, 0)),
        AppRequest::TogglePointLabels { forward: true }
    );
    let shift = CommandMod { shift: true, ..CommandMod::default() };
    assert_eq!(
        e.apply_command(Command::TogglePreviewMode, shift, (0, 0)),
        AppRequest::TogglePreviewMode { forward: false }
    );
    // Nudges have no handler at this level.
    assert_eq!(e.apply_command(Command::NudgeUp, none, (0, 0)), AppRequest::Unhandled);
    assert!(!e.quit_requested);
    assert_eq!(e.apply_command(Command::Quit, none, (0, 0)), AppRequest::NoRequest);
    assert!(e.quit_requested);
}

#[test]
fn selection_commands_drive_the_mutation_engine() {
    let mut e = glyph_editor();
    let none = CommandMod::none();
    assert!(e.select_point(PointId { contour: 0, point: 0 }));
    assert!(e.select_point(PointId { contour: 0, point: 1 }));
    assert_eq!(e.apply_command(Command::CopySelection, none, (0, 0)), AppRequest::NoRequest);
    assert_eq!(e.clipboard.len(), 1);
    assert_eq!(e.apply_command(Command::PasteSelection, none, (50, 0)), AppRequest::NoRequest);
    assert_eq!(e.outline.len(), 3);
    assert_eq!(e.apply_command(Command::DeleteSelection, none, (0, 0)), AppRequest::NoRequest);
    assert_eq!(e.outline.len(), 2);
    assert_eq!(e.apply_command(Command::HistoryUndo, none, (0, 0)), AppRequest::NoRequest);
    assert_eq!(e.outline.len(), 3);
    assert_eq!(e.apply_command(Command::HistoryRedo, none, (0, 0)), AppRequest::NoRequest);
    assert_eq!(e.outline.len(), 2);
}

#[test]
fn moved_without_active_point_is_ignored() {
    let mut e = glyph_editor();
    let before = e.outline.clone();
    let mut mp = MovePoint::new(false, mouse(0, 0, MouseButton::Left));
    mp.mouse_moved(&mut e, mouse(50, 50, MouseButton::Left));
    assert_eq!(e.outline, before);
    assert!(!e.is_modifying());
}

#[test]
fn cancellation_closes_the_bracket_and_pops() {
    let mut e = glyph_editor();
    assert!(e.set_active_point(PointId { contour: 0, point: 0 }));
    e.push_behavior(Behavior::MovePoint(MovePoint::new(false, mouse(0, 0, MouseButton::Left))));
    e.dispatch_editor_event(mouse_event(MouseEventType::Moved, 42, 42, MouseButton::Left));
    assert!(e.is_modifying());
    e.cancel_gesture();
    assert!(!e.is_modifying());
    assert!(e.behaviors.is_empty());
    // The cancelled half-gesture is one undoable step, not a dangling one.
    assert_eq!(e.history.undo_stack.len(), 1);
    assert!(e.undo());
    assert_eq!(e.outline[0].points[0], gpt(0, 0, PointType::Move));
}
