use glyphedit::editor::{Editor, MutationOutcome};
use glyphedit::geometry::{
    clicked_point_or_handle, get_contour_start_or_end, get_contour_type, move_point, Contour,
    Handle, Point, PointId, PointType, SelectPointInfo, WhichHandle, COORD_LIMIT, HIT_RADIUS,
};

fn pt(x: i64, y: i64, ptype: PointType) -> Point {
    Point { x, y, a: Handle::Colocated, b: Handle::Colocated, ptype }
}

fn two_open_contours() -> Vec<Contour> {
    vec![
        Contour { points: vec![pt(0, 0, PointType::Move), pt(100, 0, PointType::Line)], closed: false },
        Contour { points: vec![pt(200, 0, PointType::Move), pt(300, 0, PointType::Line)], closed: false },
    ]
}

fn editor_with_two_contours() -> Editor {
    let mut e = Editor::new();
    assert!(e.load_outline(two_open_contours()));
    e
}

#[test]
fn move_point_sets_position() {
    let mut outline = two_open_contours();
    assert!(move_point(&mut outline, 0, 1, 40, 50));
    assert_eq!(outline[0].points[1], pt(40, 50, PointType::Line));
    // Out-of-bounds indices and out-of-range positions leave it untouched.
    let before = outline.clone();
    assert!(!move_point(&mut outline, 5, 0, 1, 1));
    assert!(!move_point(&mut outline, 0, 9, 1, 1));
    assert!(!move_point(&mut outline, 0, 0, COORD_LIMIT + 1, 0));
    assert_eq!(outline, before);
}

#[test]
fn endpoint_classification() {
    let outline = two_open_contours();
    assert_eq!(get_contour_start_or_end(&outline, 0, 0), Some(SelectPointInfo::Start));
    assert_eq!(get_contour_start_or_end(&outline, 0, 1), Some(SelectPointInfo::End));
    assert_eq!(get_contour_start_or_end(&outline, 9, 0), None);
    assert_eq!(get_contour_type(&outline, 1), Some(PointType::Move));
}

#[test]
fn hit_test_finds_first_point() {
    let outline = two_open_contours();
    let hit = clicked_point_or_handle(&outline, (102, 3), HIT_RADIUS, None);
    assert_eq!(hit, Some((PointId { contour: 0, point: 1 }, WhichHandle::Neither)));
    assert_eq!(clicked_point_or_handle(&outline, (150, 150), HIT_RADIUS, None), None);
    // The excluded (grabbed) point is never hit.
    let hit = clicked_point_or_handle(
        &outline,
        (0, 0),
        HIT_RADIUS,
        Some(PointId { contour: 0, point: 0 }),
    );
    assert_eq!(hit, None);
}

#[test]
fn hit_test_sees_handles() {
    let mut outline = two_open_contours();
    outline[0].points[1].a = Handle::At(30, 30);
    let hit = clicked_point_or_handle(&outline, (130, 30), HIT_RADIUS, None);
    assert_eq!(hit, Some((PointId { contour: 0, point: 1 }, WhichHandle::A)));
}

#[test]
fn delete_selection_prunes_contours() {
    let mut e = editor_with_two_contours();
    assert!(e.select_point(PointId { contour: 0, point: 0 }));
    assert!(e.select_point(PointId { contour: 0, point: 1 }));
    assert!(e.select_point(PointId { contour: 1, point: 1 }));
    assert_eq!(e.delete_selection(), MutationOutcome::Applied);
    assert_eq!(e.outline.len(), 1);
    assert_eq!(e.outline[0].points, vec![pt(200, 0, PointType::Move)]);
    assert!(e.selected.is_empty());
    // With nothing selected the call is an explicit no-op.
    assert_eq!(e.delete_selection(), MutationOutcome::Ignored);
}

#[test]
fn copy_then_paste_in_place() {
    let mut e = editor_with_two_contours();
    assert!(e.select_point(PointId { contour: 0, point: 0 }));
    assert!(e.select_point(PointId { contour: 0, point: 1 }));
    assert_eq!(e.copy_selection(), MutationOutcome::Applied);
    assert_eq!(e.paste_selection(None), MutationOutcome::Applied);
    assert_eq!(e.outline.len(), 3);
    // Pasting with no position re-inserts at the original coordinates.
    assert_eq!(e.outline[2].points[0].x, 0);
    assert_eq!(e.outline[2].points[1].x, 100);
    // The pasted points become the selection.
    assert_eq!(
        e.selected,
        vec![PointId { contour: 2, point: 0 }, PointId { contour: 2, point: 1 }]
    );
}

#[test]
fn paste_centers_on_position() {
    let mut e = editor_with_two_contours();
    assert!(e.select_point(PointId { contour: 0, point: 0 }));
    assert!(e.select_point(PointId { contour: 0, point: 1 }));
    e.copy_selection();
    // Clipboard points sit at x 0 and 100: the bounding-box center is
    // (50, 0), so pasting at (10, 10) shifts everything by (-40, 10).
    assert_eq!(e.paste_selection(Some((10, 10))), MutationOutcome::Applied);
    assert_eq!(e.outline[2].points[0], pt(-40, 10, PointType::Move));
    assert_eq!(e.outline[2].points[1], pt(60, 10, PointType::Line));
}

#[test]
fn paste_with_empty_clipboard_is_ignored() {
    let mut e = editor_with_two_contours();
    assert_eq!(e.paste_selection(Some((10, 10))), MutationOutcome::Ignored);
    assert_eq!(e.outline.len(), 2);
}

#[test]
fn cut_is_copy_then_delete() {
    let mut e = editor_with_two_contours();
    assert!(e.select_point(PointId { contour: 1, point: 0 }));
    assert!(e.select_point(PointId { contour: 1, point: 1 }));
    assert_eq!(e.cut_selection(), MutationOutcome::Applied);
    assert_eq!(e.outline.len(), 1);
    assert_eq!(e.clipboard.len(), 1);
    assert_eq!(e.clipboard[0].points[0].x, 200);
}

#[test]
fn reverse_contour_swaps_order_and_handles() {
    let mut e = editor_with_two_contours();
    e.outline[0].points[0].a = Handle::At(5, 5);
    assert!(e.select_point(PointId { contour: 0, point: 0 }));
    assert_eq!(e.reverse_contour(0), MutationOutcome::Applied);
    assert_eq!(e.outline[0].points[0].x, 100);
    assert_eq!(e.outline[0].points[1].x, 0);
    // Handles are exchanged when the direction flips.
    assert_eq!(e.outline[0].points[1].b, Handle::At(5, 5));
    // The selection keeps addressing the same point.
    assert_eq!(e.selected, vec![PointId { contour: 0, point: 1 }]);
    assert_eq!(e.reverse_contour(7), MutationOutcome::Ignored);
}

#[test]
fn merge_preconditions_guard_the_outline() {
    // Start-onto-Start, same contour, and interior points are all refused
    // and leave the outline byte-for-byte unchanged.
    let mut e = editor_with_two_contours();
    let before = e.outline.clone();
    let p0 = PointId { contour: 0, point: 0 };
    let p2 = PointId { contour: 1, point: 0 };
    let p1 = PointId { contour: 0, point: 1 };
    let p3 = PointId { contour: 1, point: 1 };
    assert_eq!(e.merge_contours(p0, p2), MutationOutcome::Refused); // two Starts
    assert_eq!(e.merge_contours(p1, p3), MutationOutcome::Refused); // two Ends
    assert_eq!(e.merge_contours(p0, p1), MutationOutcome::Refused); // same contour
    assert_eq!(e.outline, before);

    // Interior points are no endpoints.
    let mut e3 = Editor::new();
    assert!(e3.load_outline(vec![
        Contour {
            points: vec![
                pt(0, 0, PointType::Move),
                pt(10, 0, PointType::Line),
                pt(20, 0, PointType::Line),
            ],
            closed: false,
        },
        Contour { points: vec![pt(50, 0, PointType::Move), pt(60, 0, PointType::Line)], closed: false },
    ]));
    let before3 = e3.outline.clone();
    assert_eq!(
        e3.merge_contours(PointId { contour: 0, point: 1 }, PointId { contour: 1, point: 0 }),
        MutationOutcome::Refused
    );
    assert_eq!(e3.outline, before3);

    // A contour whose anchor is not Move-typed is refused too.
    let mut e2 = Editor::new();
    assert!(e2.load_outline(vec![
        Contour { points: vec![pt(0, 0, PointType::Line), pt(100, 0, PointType::Line)], closed: false },
        Contour { points: vec![pt(200, 0, PointType::Move), pt(300, 0, PointType::Line)], closed: false },
    ]));
    let before2 = e2.outline.clone();
    assert_eq!(e2.merge_contours(p0, p3), MutationOutcome::Refused);
    assert_eq!(e2.outline, before2);
}

#[test]
fn merge_splices_start_onto_end() {
    let mut e = editor_with_two_contours();
    // p0 is the Start of contour 0, p3 the End of contour 1: the merge
    // keeps contour 1's points and appends contour 0's, minus its anchor.
    let p0 = PointId { contour: 0, point: 0 };
    let p3 = PointId { contour: 1, point: 1 };
    assert_eq!(e.merge_contours(p0, p3), MutationOutcome::Applied);
    assert_eq!(e.outline.len(), 1);
    assert_eq!(
        e.outline[0].points,
        vec![pt(200, 0, PointType::Move), pt(300, 0, PointType::Line), pt(100, 0, PointType::Line)]
    );
    assert!(e.selected.is_empty());
    assert_eq!(e.contour_idx, None);
}

#[test]
fn drag_is_path_independent() {
    // Dragging through many intermediate positions ends exactly where one
    // direct drag ends.
    let mut stepped = editor_with_two_contours();
    assert!(stepped.select_point(PointId { contour: 0, point: 0 }));
    assert!(stepped.select_point(PointId { contour: 0, point: 1 }));
    let grabbed = PointId { contour: 0, point: 0 };
    assert!(stepped.set_active_point(grabbed));
    for step in [(3, 7), (250, -40), (9, 9), (77, 123)] {
        assert_eq!(
            stepped.apply_drag(grabbed, step.0, step.1, true),
            MutationOutcome::Applied
        );
    }
    assert_eq!(stepped.apply_drag(grabbed, 40, 60, true), MutationOutcome::Applied);

    let mut direct = editor_with_two_contours();
    assert!(direct.select_point(PointId { contour: 0, point: 0 }));
    assert!(direct.select_point(PointId { contour: 0, point: 1 }));
    assert!(direct.set_active_point(grabbed));
    assert_eq!(direct.apply_drag(grabbed, 40, 60, true), MutationOutcome::Applied);

    assert_eq!(stepped.outline, direct.outline);
    assert_eq!(stepped.outline[0].points[0], pt(40, 60, PointType::Move));
    assert_eq!(stepped.outline[0].points[1], pt(140, 60, PointType::Line));
}

#[test]
fn drag_moves_only_the_grabbed_point_without_the_flag() {
    let mut e = editor_with_two_contours();
    assert!(e.select_point(PointId { contour: 0, point: 1 }));
    let grabbed = PointId { contour: 0, point: 0 };
    assert!(e.set_active_point(grabbed));
    assert_eq!(e.apply_drag(grabbed, 10, 10, false), MutationOutcome::Applied);
    assert_eq!(e.outline[0].points[0], pt(10, 10, PointType::Move));
    assert_eq!(e.outline[0].points[1], pt(100, 0, PointType::Line));
}

#[test]
fn drag_out_of_range_is_rejected() {
    let mut e = editor_with_two_contours();
    let grabbed = PointId { contour: 0, point: 0 };
    let before = e.outline.clone();
    assert_eq!(
        e.apply_drag(grabbed, COORD_LIMIT + 1, 0, false),
        MutationOutcome::Rejected
    );
    assert_eq!(e.outline, before);
    assert_eq!(
        e.apply_drag(PointId { contour: 9, point: 0 }, 0, 0, false),
        MutationOutcome::Ignored
    );
}

#[test]
fn modification_balance() {
    let mut e = editor_with_two_contours();
    // Ending with no open modification is a no-op.
    e.end_modification();
    assert_eq!(e.history.undo_stack.len(), 0);
    // Beginning twice captures exactly one snapshot.
    e.begin_modification("First.");
    e.begin_modification("Second.");
    assert!(e.is_modifying());
    e.end_modification();
    assert_eq!(e.history.undo_stack.len(), 1);
    assert_eq!(e.history.undo_stack[0].label, "First.");
    assert!(!e.is_modifying());
}

#[test]
fn undo_then_redo_restores_the_state() {
    let mut e = editor_with_two_contours();
    let original = e.outline.clone();
    assert!(e.select_point(PointId { contour: 0, point: 1 }));
    assert_eq!(e.delete_selection(), MutationOutcome::Applied);
    let modified = e.outline.clone();
    assert!(e.undo());
    assert_eq!(e.outline, original);
    assert_eq!(e.selected, vec![PointId { contour: 0, point: 1 }]);
    assert!(e.redo());
    assert_eq!(e.outline, modified);
    // Empty stacks make undo and redo explicit no-ops.
    assert!(e.redo() == false);
    assert!(e.undo());
    assert!(e.undo() == false);
}

#[test]
fn new_edits_clear_the_redo_stack() {
    let mut e = editor_with_two_contours();
    assert!(e.select_point(PointId { contour: 0, point: 1 }));
    e.delete_selection();
    assert!(e.undo());
    assert_eq!(e.history.redo_stack.len(), 1);
    assert!(e.select_point(PointId { contour: 1, point: 1 }));
    e.delete_selection();
    assert_eq!(e.history.redo_stack.len(), 0);
    assert!(!e.redo());
}

#[test]
fn load_outline_rejects_invalid_data() {
    let mut e = editor_with_two_contours();
    // An empty contour is invalid and must be pruned by its producer.
    assert!(!e.load_outline(vec![Contour { points: vec![], closed: false }]));
    assert_eq!(e.outline.len(), 2);
    // An out-of-range coordinate is rejected as a whole.
    assert!(!e.load_outline(vec![Contour {
        points: vec![pt(COORD_LIMIT + 1, 0, PointType::Move)],
        closed: false,
    }]));
    // Loading a valid outline discards the old session.
    e.begin_modification("Edit.");
    e.end_modification();
    assert!(e.load_outline(vec![Contour {
        points: vec![pt(1, 2, PointType::Move)],
        closed: false,
    }]));
    assert_eq!(e.history.undo_stack.len(), 0);
    assert_eq!(e.outline.len(), 1);
}

#[test]
fn selection_rejects_duplicates_and_bad_indices() {
    let mut e = editor_with_two_contours();
    let id = PointId { contour: 0, point: 0 };
    assert!(e.select_point(id));
    assert!(!e.select_point(id));
    assert!(!e.select_point(PointId { contour: 5, point: 0 }));
    assert_eq!(e.selected.len(), 1);
    e.clear_selection();
    assert!(e.selected.is_empty());
}

#[test]
fn hit_test_ties_go_to_the_earliest_point() {
    // Two coincident points: the earliest contour-then-point index wins.
    let outline = vec![
        Contour { points: vec![pt(0, 0, PointType::Move), pt(50, 50, PointType::Line)], closed: false },
        Contour { points: vec![pt(50, 50, PointType::Move)], closed: false },
    ];
    let hit = clicked_point_or_handle(&outline, (50, 50), HIT_RADIUS, None);
    assert_eq!(hit, Some((PointId { contour: 0, point: 1 }, WhichHandle::Neither)));
    // Excluding the earlier point hands the tie to the next one.
    let hit = clicked_point_or_handle(
        &outline,
        (50, 50),
        HIT_RADIUS,
        Some(PointId { contour: 0, point: 1 }),
    );
    assert_eq!(hit, Some((PointId { contour: 1, point: 0 }, WhichHandle::Neither)));
}

#[test]
fn paste_out_of_range_is_rejected() {
    let mut e = editor_with_two_contours();
    assert!(e.select_point(PointId { contour: 0, point: 0 }));
    e.copy_selection();
    let before = e.outline.clone();
    assert_eq!(
        e.paste_selection(Some((COORD_LIMIT + 1, 0))),
        MutationOutcome::Rejected
    );
    assert_eq!(e.outline, before);
    assert_eq!(e.history.undo_stack.len(), 0);
}
