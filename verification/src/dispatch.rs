//! Event and command dispatch.
//!
//! Raw input arrives as an `EditorEvent`; while the behavior stack is
//! non-empty the topmost gesture intercepts every event, and only with an
//! empty stack does the active tool see it.  Resolved commands are applied
//! here too: editor-owned state changes happen in place, and whatever only
//! the surrounding application can do (zooming the rendered view, file
//! dialogs, saving) is handed back as an explicit request.

use crate::behaviors::{spec_behavior_event, EditorEvent};
use crate::command::{Command, CommandMod};
use crate::editor::{
    spec_copy_selection, spec_delete_selection, spec_paste_selection, Editor, EditorView,
};
use crate::history::{spec_redo, spec_undo};
use crate::tools::{spec_grid_event, Grid, ToolEnum};
use vstd::prelude::*;

verus! {

/// Where an event was routed.
#[derive(Clone, Copy, PartialEq, Eq, Structural, Debug)]
pub enum Routed {
    ToBehavior,
    ToTool,
}

/// What the surrounding application is asked to do after a command was
/// applied: everything the editor state itself cannot carry out.
#[derive(Clone, Copy, PartialEq, Eq, Structural, Debug)]
pub enum AppRequest {
    NoRequest,
    ResetScale,
    ZoomIn,
    ZoomOut,
    TogglePointLabels { forward: bool },
    TogglePreviewMode { forward: bool },
    Open,
    Save,
    SaveAs,
    SaveFlatten,
    Flatten,
    Export,
    SkiaDump,
    Unhandled,
}

/// What the active tool does with an event when the behavior stack is
/// empty.  Only the grid tool arms gestures from here; the other tools'
/// interactions live outside this crate's concern.
pub open spec fn spec_tool_event(v: EditorView, event: EditorEvent) -> EditorView {
    match v.tool {
        ToolEnum::Grid => spec_grid_event(v, event),
        _ => v,
    }
}

/// Undoing, as a whole-editor transition.
pub open spec fn spec_undo_editor(v: EditorView) -> EditorView {
    let (h1, o1, s1) = spec_undo(v.history, v.outline, v.selected);
    EditorView {
        history: h1,
        outline: o1,
        selected: s1,
        contour_idx: None,
        point_idx: None,
        ..v
    }
}

/// Redoing, as a whole-editor transition.
pub open spec fn spec_redo_editor(v: EditorView) -> EditorView {
    let (h1, o1, s1) = spec_redo(v.history, v.outline, v.selected);
    EditorView {
        history: h1,
        outline: o1,
        selected: s1,
        contour_idx: None,
        point_idx: None,
        ..v
    }
}

/// The full command table: the editor state after the command and the
/// request handed back to the application.
pub open spec fn spec_apply_command(
    v: EditorView,
    cmd: Command,
    mods: CommandMod,
    mouse: (i64, i64),
) -> (EditorView, AppRequest) {
    match cmd {
        Command::ResetScale => (v, AppRequest::ResetScale),
        Command::ZoomIn => (v, AppRequest::ZoomIn),
        Command::ZoomOut => (v, AppRequest::ZoomOut),
        Command::NudgeUp => (v, AppRequest::Unhandled),
        Command::NudgeDown => (v, AppRequest::Unhandled),
        Command::NudgeLeft => (v, AppRequest::Unhandled),
        Command::NudgeRight => (v, AppRequest::Unhandled),
        Command::ToolPan => ((EditorView { tool: ToolEnum::Pan, ..v }), AppRequest::NoRequest),
        Command::ToolPen => ((EditorView { tool: ToolEnum::Pen, ..v }), AppRequest::NoRequest),
        Command::ToolSelect => (
            (EditorView { tool: ToolEnum::Select, ..v }),
            AppRequest::NoRequest,
        ),
        Command::ToolZoom => ((EditorView { tool: ToolEnum::Zoom, ..v }), AppRequest::NoRequest),
        Command::ToolVWS => ((EditorView { tool: ToolEnum::VWS, ..v }), AppRequest::NoRequest),
        Command::ToolMeasure => (
            (EditorView { tool: ToolEnum::Measure, ..v }),
            AppRequest::NoRequest,
        ),
        Command::ToolAnchors => (
            (EditorView { tool: ToolEnum::Anchors, ..v }),
            AppRequest::NoRequest,
        ),
        Command::ToolShapes => (
            (EditorView { tool: ToolEnum::Shapes, ..v }),
            AppRequest::NoRequest,
        ),
        Command::DeleteSelection => (spec_delete_selection(v), AppRequest::NoRequest),
        Command::SelectAll => (v, AppRequest::NoRequest),
        Command::CopySelection => (spec_copy_selection(v), AppRequest::NoRequest),
        Command::PasteSelection => (
            spec_paste_selection(v, Some(mouse)),
            AppRequest::NoRequest,
        ),
        Command::CutSelection => (
            spec_delete_selection(spec_copy_selection(v)),
            AppRequest::NoRequest,
        ),
        Command::HistoryUndo => (spec_undo_editor(v), AppRequest::NoRequest),
        Command::HistoryRedo => (spec_redo_editor(v), AppRequest::NoRequest),
        Command::IOOpen => (v, AppRequest::Open),
        Command::IOSave => (v, AppRequest::Save),
        Command::IOSaveAs => (v, AppRequest::SaveAs),
        Command::IOSaveFlatten => (v, AppRequest::SaveFlatten),
        Command::IOFlatten => (v, AppRequest::Flatten),
        Command::IOExport => (v, AppRequest::Export),
        Command::TogglePointLabels => (
            v,
            AppRequest::TogglePointLabels { forward: !mods.shift },
        ),
        Command::TogglePreviewMode => (
            v,
            AppRequest::TogglePreviewMode { forward: !mods.shift },
        ),
        Command::ToggleConsole => (v, AppRequest::NoRequest),
        Command::Quit => ((EditorView { quit_requested: true, ..v }), AppRequest::NoRequest),
        Command::ReverseContour => (v, AppRequest::NoRequest),
        Command::SkiaDump => (v, AppRequest::SkiaDump),
    }
}

impl Editor {
    /// Hands an event to the active tool.  Only the grid tool reacts here;
    /// the remaining tools' canvas interactions are outside this crate.
    pub fn tool_event(&mut self, event: EditorEvent)
        requires
            old(self).wf(),
        ensures
            final(self).wf(),
            final(self)@ == spec_tool_event(old(self)@, event),
    {
        match self.tool {
            ToolEnum::Grid => {
                let mut g = Grid::new();
                g.event(self, event);
            },
            _ => {},
        }
    }

    /// Routes one input event: the topmost behavior intercepts it whenever
    /// the stack is non-empty, and only an empty stack lets the active tool
    /// see it — so the tool is never reached, nor changed, while a gesture
    /// is in progress.
    pub fn dispatch_editor_event(&mut self, event: EditorEvent) -> (routed: Routed)
        requires
            old(self).wf(),
        ensures
            final(self).wf(),
            routed == if old(self)@.behaviors.len() > 0 {
                Routed::ToBehavior
            } else {
                Routed::ToTool
            },
            old(self)@.behaviors.len() > 0 ==> final(self)@ == spec_behavior_event(
                old(self)@.behaviors.last(),
                old(self)@,
                event,
            ) && final(self)@.tool == old(self)@.tool,
            old(self)@.behaviors.len() == 0 ==> final(self)@ == spec_tool_event(
                old(self)@,
                event,
            ),
    {
        let n = self.behaviors.len();
        if n > 0 {
            let mut top = self.behaviors[n - 1];
            top.event(self, event);
            Routed::ToBehavior
        } else {
            self.tool_event(event);
            Routed::ToTool
        }
    }

    /// Applies one resolved command: editor-owned changes happen here, and
    /// whatever only the surrounding application can carry out comes back
    /// as a request.
    pub fn apply_command(&mut self, cmd: Command, mods: CommandMod, mouse: (i64, i64)) -> (r:
        AppRequest)
        requires
            old(self).wf(),
        ensures
            final(self).wf(),
            final(self)@ == spec_apply_command(old(self)@, cmd, mods, mouse).0,
            r == spec_apply_command(old(self)@, cmd, mods, mouse).1,
    {
        match cmd {
            Command::ResetScale => AppRequest::ResetScale,
            Command::ZoomIn => AppRequest::ZoomIn,
            Command::ZoomOut => AppRequest::ZoomOut,
            Command::NudgeUp => AppRequest::Unhandled,
            Command::NudgeDown => AppRequest::Unhandled,
            Command::NudgeLeft => AppRequest::Unhandled,
            Command::NudgeRight => AppRequest::Unhandled,
            Command::ToolPan => {
                self.set_tool(ToolEnum::Pan);
                AppRequest::NoRequest
            },
            Command::ToolPen => {
                self.set_tool(ToolEnum::Pen);
                AppRequest::NoRequest
            },
            Command::ToolSelect => {
                self.set_tool(ToolEnum::Select);
                AppRequest::NoRequest
            },
            Command::ToolZoom => {
                self.set_tool(ToolEnum::Zoom);
                AppRequest::NoRequest
            },
            Command::ToolVWS => {
                self.set_tool(ToolEnum::VWS);
                AppRequest::NoRequest
            },
            Command::ToolMeasure => {
                self.set_tool(ToolEnum::Measure);
                AppRequest::NoRequest
            },
            Command::ToolAnchors => {
                self.set_tool(ToolEnum::Anchors);
                AppRequest::NoRequest
            },
            Command::ToolShapes => {
                self.set_tool(ToolEnum::Shapes);
                AppRequest::NoRequest
            },
            Command::DeleteSelection => {
                self.delete_selection();
                AppRequest::NoRequest
            },
            Command::SelectAll => AppRequest::NoRequest,
            Command::CopySelection => {
                self.copy_selection();
                AppRequest::NoRequest
            },
            Command::PasteSelection => {
                self.paste_selection(Some(mouse));
                AppRequest::NoRequest
            },
            Command::CutSelection => {
                self.cut_selection();
                AppRequest::NoRequest
            },
            Command::HistoryUndo => {
                self.undo();
                AppRequest::NoRequest
            },
            Command::HistoryRedo => {
                self.redo();
                AppRequest::NoRequest
            },
            Command::IOOpen => AppRequest::Open,
            Command::IOSave => AppRequest::Save,
            Command::IOSaveAs => AppRequest::SaveAs,
            Command::IOSaveFlatten => AppRequest::SaveFlatten,
            Command::IOFlatten => AppRequest::Flatten,
            Command::IOExport => AppRequest::Export,
            Command::TogglePointLabels => AppRequest::TogglePointLabels { forward: !mods.shift },
            Command::TogglePreviewMode => AppRequest::TogglePreviewMode { forward: !mods.shift },
            Command::ToggleConsole => AppRequest::NoRequest,
            Command::Quit => {
                self.quit();
                AppRequest::NoRequest
            },
            Command::ReverseContour => AppRequest::NoRequest,
            Command::SkiaDump => AppRequest::SkiaDump,
        }
    }
}

} // verus!
