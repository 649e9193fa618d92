//! Tools: the persistent editing modes that receive input when no gesture
//! behavior is active.

use crate::behaviors::{Behavior, EditorEvent, MouseEventType, PanBehavior, ZoomScroll};
use crate::editor::Editor;
use vstd::prelude::*;

verus! {

/// The closed set of tools the editor can switch between.
#[derive(Clone, Copy, PartialEq, Eq, Structural, Debug)]
pub enum ToolEnum {
    Pan,
    Pen,
    Select,
    Zoom,
    VWS,
    Measure,
    Anchors,
    Shapes,
    Grid,
}

/// The grid tool: its own settings live in the surrounding interface; on
/// the canvas it only pans and zooms.
#[derive(Clone, Copy, PartialEq, Eq, Structural, Debug, Default)]
pub struct Grid;

impl Grid {
    pub fn new() -> (r: Self)
        ensures
            r == Grid,
    {
        Grid
    }
}

/// The grid tool's event table: a press arms a pan gesture that captures
/// the current viewport offset, and scrolling zooms immediately.
pub open spec fn spec_grid_event(
    v: crate::editor::EditorView,
    event: EditorEvent,
) -> crate::editor::EditorView {
    match event {
        EditorEvent::MouseEvent { event_type, mouse_info } => {
            match event_type {
                MouseEventType::Pressed => crate::editor::EditorView {
                    behaviors: v.behaviors.push(
                        Behavior::Pan(
                            PanBehavior {
                                mouse_info,
                                start_offset: (v.viewport.offset_x, v.viewport.offset_y),
                            },
                        ),
                    ),
                    ..v
                },
                _ => v,
            }
        },
        EditorEvent::ScrollEvent { horizontal, vertical } => crate::behaviors::spec_zoom_scroll(
            v,
            vertical,
        ),
        _ => v,
    }
}

impl Grid {
    /// Routes one event while the grid tool is active: pressing arms a pan,
    /// scrolling zooms.
    pub fn event(&mut self, v: &mut Editor, event: EditorEvent)
        requires
            old(v).wf(),
        ensures
            final(v).wf(),
            final(v)@ == spec_grid_event(old(v)@, event),
    {
        match event {
            EditorEvent::MouseEvent { event_type, mouse_info } => {
                match event_type {
                    MouseEventType::Pressed => {
                        let start_offset = (v.viewport.offset_x, v.viewport.offset_y);
                        v.push_behavior(Behavior::Pan(PanBehavior::new(start_offset, mouse_info)));
                    },
                    _ => {},
                }
            },
            EditorEvent::ScrollEvent { horizontal: _, vertical: _ } => {
                let mut zs = ZoomScroll;
                zs.event(v, event);
            },
            _ => {},
        }
    }
}

} // verus!
