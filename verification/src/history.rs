//! Undo history: a stack of pre-mutation snapshots.
//!
//! A modification bracket is opened with `begin_modification`, which
//! captures the current outline and selection, and closed with
//! `end_modification`, which pushes the captured snapshot onto the undo
//! stack and clears the redo stack.  At most one modification is open at any
//! time, by construction: the open guard is the pending snapshot itself.
//! Opening while one is open, or closing while none is, is a no-op.

use crate::geometry::{
    outline_view, outline_view_wf, Contour, ContourView, Point, PointId, selection_nodup,
    selection_valid,
};
use vstd::prelude::*;
use vstd::string::StringExecFns;

verus! {

/// One undo step: the outline and selection as they were before the labeled
/// modification.
#[derive(Debug)]
pub struct UndoEntry {
    pub outline: Vec<Contour>,
    pub selection: Vec<PointId>,
    pub label: String,
}

/// Mathematical model of an undo step.
#[verifier::ext_equal]
pub ghost struct EntryView {
    pub outline: Seq<ContourView>,
    pub selection: Seq<PointId>,
    pub label: Seq<char>,
}

impl View for UndoEntry {
    type V = EntryView;

    open spec fn view(&self) -> EntryView {
        EntryView {
            outline: outline_view(self.outline@),
            selection: self.selection@,
            label: self.label@,
        }
    }
}

pub open spec fn entry_view_wf(e: EntryView) -> bool {
    &&& outline_view_wf(e.outline)
    &&& selection_valid(e.selection, e.outline)
    &&& selection_nodup(e.selection)
}

/// The undo and redo stacks, plus the single in-flight pending snapshot.
#[derive(Debug)]
pub struct History {
    pub undo_stack: Vec<UndoEntry>,
    pub redo_stack: Vec<UndoEntry>,
    pub pending: Option<UndoEntry>,
}

/// Mathematical model of the history.
#[verifier::ext_equal]
pub ghost struct HistoryView {
    pub undo: Seq<EntryView>,
    pub redo: Seq<EntryView>,
    pub pending: Option<EntryView>,
}

impl View for History {
    type V = HistoryView;

    open spec fn view(&self) -> HistoryView {
        HistoryView {
            undo: Seq::new(self.undo_stack@.len(), |i: int| self.undo_stack@[i]@),
            redo: Seq::new(self.redo_stack@.len(), |i: int| self.redo_stack@[i]@),
            pending: match self.pending {
                Option::Some(e) => Some(e@),
                Option::None => None,
            },
        }
    }
}

pub open spec fn history_view_wf(h: HistoryView) -> bool {
    &&& forall|i: int| 0 <= i < h.undo.len() ==> entry_view_wf(#[trigger] h.undo[i])
    &&& forall|i: int| 0 <= i < h.redo.len() ==> entry_view_wf(#[trigger] h.redo[i])
    &&& (h.pending matches Some(e) ==> entry_view_wf(e))
}

/// Opening a bracket: captures a snapshot unless one is already open.
pub open spec fn spec_begin(
    h: HistoryView,
    o: Seq<ContourView>,
    s: Seq<PointId>,
    label: Seq<char>,
) -> HistoryView {
    if h.pending is Some {
        h
    } else {
        HistoryView { pending: Some(EntryView { outline: o, selection: s, label }), ..h }
    }
}

/// Closing a bracket: pushes the pending snapshot onto the undo stack and
/// clears the redo stack; a no-op when no bracket is open.
pub open spec fn spec_end(h: HistoryView) -> HistoryView {
    match h.pending {
        Some(e) => HistoryView { undo: h.undo.push(e), redo: Seq::empty(), pending: None },
        None => h,
    }
}

/// Undoing: the current state goes onto the redo stack under the undone
/// entry's label, and the topmost undo entry becomes current.
pub open spec fn spec_undo(h: HistoryView, o: Seq<ContourView>, s: Seq<PointId>) -> (
    HistoryView,
    Seq<ContourView>,
    Seq<PointId>,
) {
    if h.undo.len() == 0 {
        (h, o, s)
    } else {
        let top = h.undo.last();
        (
            HistoryView {
                undo: h.undo.drop_last(),
                redo: h.redo.push(EntryView { outline: o, selection: s, label: top.label }),
                pending: h.pending,
            },
            top.outline,
            top.selection,
        )
    }
}

/// Redoing: the mirror of undoing.
pub open spec fn spec_redo(h: HistoryView, o: Seq<ContourView>, s: Seq<PointId>) -> (
    HistoryView,
    Seq<ContourView>,
    Seq<PointId>,
) {
    if h.redo.len() == 0 {
        (h, o, s)
    } else {
        let top = h.redo.last();
        (
            HistoryView {
                undo: h.undo.push(EntryView { outline: o, selection: s, label: top.label }),
                redo: h.redo.drop_last(),
                pending: h.pending,
            },
            top.outline,
            top.selection,
        )
    }
}

/// A whole bracket around one mutation: what the history is after opening
/// with the pre-mutation state and closing again.  When a bracket was
/// already open, both calls are no-ops and the history is unchanged.
pub open spec fn spec_commit(
    h: HistoryView,
    o: Seq<ContourView>,
    s: Seq<PointId>,
    label: Seq<char>,
) -> HistoryView {
    if h.pending is Some {
        h
    } else {
        spec_end(spec_begin(h, o, s, label))
    }
}

/// Undo immediately followed by redo restores the outline, the selection,
/// and both history stacks exactly.
pub proof fn lemma_undo_redo_round_trip(h: HistoryView, o: Seq<ContourView>, s: Seq<PointId>)
    requires
        h.undo.len() > 0,
    ensures
        ({
            let (h1, o1, s1) = spec_undo(h, o, s);
            let (h2, o2, s2) = spec_redo(h1, o1, s1);
            h2 == h && o2 == o && s2 == s
        }),
{
    let (h1, o1, s1) = spec_undo(h, o, s);
    let (h2, o2, s2) = spec_redo(h1, o1, s1);
    assert(h1.redo.len() > 0);
    assert(h1.redo.last() == (EntryView { outline: o, selection: s, label: h.undo.last().label }));
    assert(h2.undo =~= h.undo) by {
        assert(h2.undo == h1.undo.push(
            (EntryView { outline: o1, selection: s1, label: h1.redo.last().label }),
        ));
        assert((EntryView { outline: o1, selection: s1, label: h1.redo.last().label }) =~= h.undo.last());
    }
    assert(h2.redo =~= h.redo);
    assert(h2 =~= h);
}

/// Redo immediately followed by undo likewise restores everything.
pub proof fn lemma_redo_undo_round_trip(h: HistoryView, o: Seq<ContourView>, s: Seq<PointId>)
    requires
        h.redo.len() > 0,
    ensures
        ({
            let (h1, o1, s1) = spec_redo(h, o, s);
            let (h2, o2, s2) = spec_undo(h1, o1, s1);
            h2 == h && o2 == o && s2 == s
        }),
{
    let (h1, o1, s1) = spec_redo(h, o, s);
    let (h2, o2, s2) = spec_undo(h1, o1, s1);
    assert(h1.undo.len() > 0);
    assert(h1.undo.last() == (EntryView { outline: o, selection: s, label: h.redo.last().label }));
    assert(h2.redo =~= h.redo) by {
        assert((EntryView { outline: o1, selection: s1, label: h1.undo.last().label }) =~= h.redo.last());
    }
    assert(h2.undo =~= h.undo);
    assert(h2 =~= h);
}

/// Copies the points of one contour.
fn copy_contour(c: &Contour) -> (r: Contour)
    ensures
        r@ == c@,
{
    let mut points: Vec<Point> = Vec::new();
    let n = c.points.len();
    let mut i: usize = 0;
    while i < n
        invariant
            n == c.points@.len(),
            i <= n,
            points@ == c.points@.subrange(0, i as int),
        decreases n - i,
    {
        points.push(c.points[i]);
        proof {
            assert(points@ =~= c.points@.subrange(0, i + 1 as int));
        }
        i = i + 1;
    }
    proof {
        assert(points@ =~= c.points@);
    }
    Contour { points, closed: c.closed }
}

/// Copies a whole outline, for snapshots.
pub fn copy_outline(o: &Vec<Contour>) -> (r: Vec<Contour>)
    ensures
        outline_view(r@) == outline_view(o@),
{
    let mut r: Vec<Contour> = Vec::new();
    let n = o.len();
    let mut i: usize = 0;
    while i < n
        invariant
            n == o@.len(),
            i <= n,
            r@.len() == i,
            forall|k: int| 0 <= k < i ==> (#[trigger] r@[k])@ == o@[k]@,
        decreases n - i,
    {
        let c = copy_contour(&o[i]);
        r.push(c);
        i = i + 1;
    }
    proof {
        assert(outline_view(r@) =~= outline_view(o@));
    }
    r
}

/// Copies a selection, for snapshots.
pub fn copy_selection_vec(s: &Vec<PointId>) -> (r: Vec<PointId>)
    ensures
        r@ == s@,
{
    let mut r: Vec<PointId> = Vec::new();
    let n = s.len();
    let mut i: usize = 0;
    while i < n
        invariant
            n == s@.len(),
            i <= n,
            r@ == s@.subrange(0, i as int),
        decreases n - i,
    {
        r.push(s[i]);
        proof {
            assert(r@ =~= s@.subrange(0, i + 1 as int));
        }
        i = i + 1;
    }
    proof {
        assert(r@ =~= s@);
    }
    r
}

impl History {
    /// An empty history: nothing to undo or redo, no open modification.
    pub fn new() -> (r: History)
        ensures
            r@ == (HistoryView { undo: Seq::empty(), redo: Seq::empty(), pending: None }),
            history_view_wf(r@),
    {
        let r = History { undo_stack: Vec::new(), redo_stack: Vec::new(), pending: None };
        proof {
            assert(r@ =~= (HistoryView { undo: Seq::empty(), redo: Seq::empty(), pending: None }));
        }
        r
    }

    /// Is a modification bracket currently open?
    pub fn is_modifying(&self) -> (r: bool)
        ensures
            r == (self@.pending is Some),
    {
        match &self.pending {
            Option::Some(_) => true,
            Option::None => false,
        }
    }

    /// Opens a modification bracket, capturing the given pre-mutation state;
    /// a no-op when a bracket is already open, so only one snapshot is
    /// captured per bracket.
    pub fn begin_modification(
        &mut self,
        outline: &Vec<Contour>,
        selection: &Vec<PointId>,
        label: &str,
    )
        ensures
            final(self)@ == spec_begin(old(self)@, outline_view(outline@), selection@, label@),
    {
        if let Option::Some(_) = &self.pending {
            proof {
                assert(self@ =~= spec_begin(self@, outline_view(outline@), selection@, label@));
            }
            return ;
        }
        let entry = UndoEntry {
            outline: copy_outline(outline),
            selection: copy_selection_vec(selection),
            label: String::from_str(label),
        };
        self.pending = Option::Some(entry);
        proof {
            assert(self@ =~= spec_begin(old(self)@, outline_view(outline@), selection@, label@));
        }
    }

    /// Closes the open modification bracket, pushing its snapshot onto the
    /// undo stack and clearing the redo stack; a no-op when none is open.
    pub fn end_modification(&mut self)
        ensures
            final(self)@ == spec_end(old(self)@),
    {
        let mut pending: Option<UndoEntry> = Option::None;
        core::mem::swap(&mut pending, &mut self.pending);
        match pending {
            Option::Some(e) => {
                self.undo_stack.push(e);
                self.redo_stack.clear();
                proof {
                    assert(self@ =~= spec_end(old(self)@));
                }
            },
            Option::None => {
                proof {
                    assert(self@ =~= spec_end(old(self)@));
                }
            },
        }
    }

    /// Undoes the most recent committed modification, exchanging the current
    /// state with the top of the undo stack; a no-op when the stack is
    /// empty.
    pub fn undo(&mut self, outline: &mut Vec<Contour>, selection: &mut Vec<PointId>) -> (applied:
        bool)
        ensures
            applied == (old(self)@.undo.len() > 0),
            ({
                let (h1, o1, s1) = spec_undo(
                    old(self)@,
                    outline_view(old(outline)@),
                    old(selection)@,
                );
                final(self)@ == h1 && outline_view(final(outline)@) == o1 && final(selection)@
                    == s1
            }),
    {
        match self.undo_stack.pop() {
            Option::Some(e) => {
                let UndoEntry { outline: mut snap_outline, selection: mut snap_selection, label } = e;
                core::mem::swap(outline, &mut snap_outline);
                core::mem::swap(selection, &mut snap_selection);
                self.redo_stack.push(
                    UndoEntry { outline: snap_outline, selection: snap_selection, label },
                );
                proof {
                    let (h1, o1, s1) = spec_undo(
                        old(self)@,
                        outline_view(old(outline)@),
                        old(selection)@,
                    );
                    assert(self@.undo =~= h1.undo);
                    assert(self@.redo =~= h1.redo);
                    assert(self@ =~= h1);
                }
                true
            },
            Option::None => false,
        }
    }

    /// Redoes the most recently undone modification; the mirror of `undo`.
    pub fn redo(&mut self, outline: &mut Vec<Contour>, selection: &mut Vec<PointId>) -> (applied:
        bool)
        ensures
            applied == (old(self)@.redo.len() > 0),
            ({
                let (h1, o1, s1) = spec_redo(
                    old(self)@,
                    outline_view(old(outline)@),
                    old(selection)@,
                );
                final(self)@ == h1 && outline_view(final(outline)@) == o1 && final(selection)@
                    == s1
            }),
    {
        match self.redo_stack.pop() {
            Option::Some(e) => {
                let UndoEntry { outline: mut snap_outline, selection: mut snap_selection, label } = e;
                core::mem::swap(outline, &mut snap_outline);
                core::mem::swap(selection, &mut snap_selection);
                self.undo_stack.push(
                    UndoEntry { outline: snap_outline, selection: snap_selection, label },
                );
                proof {
                    let (h1, o1, s1) = spec_redo(
                        old(self)@,
                        outline_view(old(outline)@),
                        old(selection)@,
                    );
                    assert(self@.undo =~= h1.undo);
                    assert(self@.redo =~= h1.redo);
                    assert(self@ =~= h1);
                }
                true
            },
            Option::None => false,
        }
    }
}

} // verus!
