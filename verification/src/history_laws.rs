//! What holds of every stroke history, proved over its mathematical state.

use vstd::prelude::*;
use crate::geometry::{Line, Point};
use crate::history::{History, Record, backward, forward, single_valued};

verus! {

/// The stored segment lies on the allowed side of the frontier, and the
/// frontier then moves to the far end of that segment: in a forward stroke it
/// never decreases, in a backward stroke it never increases. The direction,
/// once known, stays.
pub proof fn law_segment_respects_frontier(r: Record, start: Point, end: Point)
    ensures
        !(r.engage(start, end).direction is Undefined),
        r.advance(start, end).direction == r.engage(start, end).direction,
        !(r.direction is Undefined) ==> r.engage(start, end) == r,
        r.engage(start, end).direction is Right ==> {
            &&& r.engage(start, end).clamp_x <= r.place(start, end).lo()
            &&& r.advance(start, end).clamp_x == r.place(start, end).hi()
        },
        r.engage(start, end).direction is Left ==> {
            &&& r.place(start, end).hi() <= r.engage(start, end).clamp_x
            &&& r.advance(start, end).clamp_x == r.place(start, end).lo()
        },
{
}

/// A segment that already lies on the allowed side of the frontier is stored
/// as it was given.
pub proof fn law_segment_beyond_frontier_is_kept(r: Record, start: Point, end: Point)
    requires
        r.engage(start, end).direction is Right ==> r.engage(start, end).clamp_x <= start.x
            && r.engage(start, end).clamp_x <= end.x,
        r.engage(start, end).direction is Left ==> r.engage(start, end).clamp_x >= start.x
            && r.engage(start, end).clamp_x >= end.x,
    ensures
        r.place(start, end) == (Line { start, end }),
{
}

/// Appending a segment placed by a record that describes the stroke gives a
/// stroke that the advanced record describes.
pub proof fn law_record_follows_extended_stroke(r: Record, s: Seq<Line>, start: Point, end: Point)
    requires
        r.follows(s),
    ensures
        r.advance(start, end).follows(s.push(r.place(start, end))),
        single_valued(s.push(r.place(start, end))),
{
    let e = r.engage(start, end);
    let l = r.place(start, end);
    let t = s.push(l);
    let a = r.advance(start, end);
    if e.direction is Right {
        assert forall|i: int| 0 <= i < t.len() implies 0 <= #[trigger] t[i].lo() by {
            if i < s.len() {
                assert(t[i] == s[i]);
            }
        }
        assert forall|i: int, j: int| 0 <= i < j < t.len() implies #[trigger] t[i].hi()
            <= #[trigger] t[j].lo() by {
            assert(t[i] == s[i]);
            if j < s.len() {
                assert(t[j] == s[j]);
            }
        }
        assert forall|i: int| 0 <= i < t.len() implies #[trigger] t[i].hi() <= a.clamp_x by {
            if i < s.len() {
                assert(t[i] == s[i]);
            }
        }
        assert(forward(t));
    } else {
        assert forall|i: int, j: int| 0 <= i < j < t.len() implies #[trigger] t[i].lo()
            >= #[trigger] t[j].hi() by {
            assert(t[i] == s[i]);
            if j < s.len() {
                assert(t[j] == s[j]);
            }
        }
        assert forall|i: int| 0 <= i < t.len() implies #[trigger] t[i].lo() >= a.clamp_x by {
            if i < s.len() {
                assert(t[i] == s[i]);
            }
        }
        assert(backward(t));
    }
}

/// A stroke that its record describes is single-valued in time.
pub proof fn law_described_stroke_is_single_valued(r: Record, s: Seq<Line>)
    requires
        r.follows(s),
    ensures
        single_valued(s),
{
}

/// In a history where each record describes its stroke, every stroke, drawn
/// or undone, is single-valued in time.
pub proof fn law_history_is_single_valued(h: History)
    requires
        h.wf(),
    ensures
        h.single_valued(),
{
    assert forall|k: int| 0 <= k < h.strokes.len() implies single_valued(
        #[trigger] h.strokes[k],
    ) by {
        law_described_stroke_is_single_valued(h.records[k], h.strokes[k]);
    }
    assert forall|k: int| 0 <= k < h.undone.len() implies single_valued(#[trigger] h.undone[k]) by {
        law_described_stroke_is_single_valued(h.undone_records[k], h.undone[k]);
    }
}

/// Adding a segment keeps each record describing its stroke, whatever the
/// pointer did: a segment never reaches back over the frontier of its
/// stroke.
pub proof fn law_add_line_keeps_wf(h: History, start: Point, end: Point)
    requires
        h.wf(),
    ensures
        h.add_line(start, end).wf(),
        h.strokes.len() == 0 ==> h.add_line(start, end) == h,
{
    let g = h.add_line(start, end);
    if h.strokes.len() > 0 {
        let last = h.strokes.len() - 1;
        assert(h.current() == h.records[last]);
        law_record_follows_extended_stroke(h.records[last], h.strokes[last], start, end);
        assert forall|k: int| 0 <= k < g.strokes.len() implies (#[trigger] g.records[k]).follows(
            g.strokes[k],
        ) by {
            if k < last {
                assert(g.strokes[k] == h.strokes[k]);
                assert(g.records[k] == h.records[k]);
            }
        }
    }
}

/// Starting a stroke keeps each record describing its stroke; the new stroke
/// is empty and its record is fresh.
pub proof fn law_new_record_keeps_wf(h: History)
    requires
        h.wf(),
    ensures
        h.new_record().wf(),
        h.new_record().current() == Record::fresh(),
        h.new_record().strokes.last() == Seq::<Line>::empty(),
{
    let g = h.new_record();
    assert forall|k: int| 0 <= k < g.strokes.len() implies (#[trigger] g.records[k]).follows(
        g.strokes[k],
    ) by {
        if k < g.strokes.len() - 1 {
            assert(g.strokes[k] == h.strokes[k]);
            assert(g.records[k] == h.records[k]);
        }
    }
}

/// Undo and redo move whole strokes with their records, so each record keeps
/// describing its stroke.
pub proof fn law_undo_redo_keep_wf(h: History)
    requires
        h.wf(),
    ensures
        h.undo().wf(),
        h.redo().wf(),
{
    let u = h.undo();
    assert forall|k: int| 0 <= k < u.strokes.len() implies (#[trigger] u.records[k]).follows(
        u.strokes[k],
    ) by {
        assert(u.strokes[k] == h.strokes[k]);
        assert(u.records[k] == h.records[k]);
    }
    assert forall|k: int| 0 <= k < u.undone.len() implies (#[trigger] u.undone_records[k]).follows(
        u.undone[k],
    ) by {
        if k < h.undone.len() {
            assert(u.undone[k] == h.undone[k]);
            assert(u.undone_records[k] == h.undone_records[k]);
        } else {
            assert(u.undone[k] == h.strokes[h.strokes.len() - 1]);
            assert(u.undone_records[k] == h.records[h.strokes.len() - 1]);
        }
    }
    let r = h.redo();
    assert forall|k: int| 0 <= k < r.strokes.len() implies (#[trigger] r.records[k]).follows(
        r.strokes[k],
    ) by {
        if k < h.strokes.len() {
            assert(r.strokes[k] == h.strokes[k]);
            assert(r.records[k] == h.records[k]);
        } else {
            assert(r.strokes[k] == h.undone[h.undone.len() - 1]);
            assert(r.records[k] == h.undone_records[h.undone.len() - 1]);
        }
    }
    assert forall|k: int| 0 <= k < r.undone.len() implies (#[trigger] r.undone_records[k]).follows(
        r.undone[k],
    ) by {
        assert(r.undone[k] == h.undone[k]);
        assert(r.undone_records[k] == h.undone_records[k]);
    }
}

/// Undoing a stroke and redoing it at once gives back the history as it was:
/// the same strokes with the same segments and records, and the same undone
/// strokes.
pub proof fn law_undo_then_redo_restores(h: History)
    requires
        h.wf(),
        h.strokes.len() > 0,
    ensures
        h.undo().redo() == h,
{
    assert(h.undo().redo() =~= h);
}

/// Redoing a stroke and undoing it at once gives back the history as it was.
pub proof fn law_redo_then_undo_restores(h: History)
    requires
        h.wf(),
        h.undone.len() > 0,
    ensures
        h.redo().undo() == h,
{
    assert(h.redo().undo() =~= h);
}

/// Starting a stroke forgets the undone strokes, so a redo that follows
/// changes nothing. This holds in particular after an undo.
pub proof fn law_new_record_disables_redo(h: History)
    ensures
        h.new_record().undone.len() == 0,
        h.new_record().redo() == h.new_record(),
        h.undo().new_record().redo() == h.undo().new_record(),
{
}

/// Undo without a stroke, redo without an undone stroke and a segment without
/// a stroke change nothing.
pub proof fn law_steps_without_stroke_change_nothing(h: History, start: Point, end: Point)
    ensures
        h.strokes.len() == 0 ==> h.undo() == h,
        h.undone.len() == 0 ==> h.redo() == h,
        h.strokes.len() == 0 ==> h.add_line(start, end) == h,
{
}

/// One step in the life of a history.
pub enum Step {
    NewRecord,
    AddLine(Point, Point),
    Undo,
    Redo,
}

/// The history after a step.
pub open spec fn apply(h: History, step: Step) -> History {
    match step {
        Step::NewRecord => h.new_record(),
        Step::AddLine(start, end) => h.add_line(start, end),
        Step::Undo => h.undo(),
        Step::Redo => h.redo(),
    }
}

/// The history that the steps build, starting without strokes.
pub open spec fn run(steps: Seq<Step>) -> History
    decreases steps.len(),
{
    if steps.len() == 0 {
        History::empty()
    } else {
        apply(run(steps.drop_last()), steps.last())
    }
}

/// Whatever steps are taken and in whatever order, and however the pointer
/// moves, every stroke of the history is single-valued in time: no segment
/// reaches back over an earlier one of its stroke.
pub proof fn law_every_history_is_single_valued(steps: Seq<Step>)
    ensures
        run(steps).wf(),
        run(steps).single_valued(),
    decreases steps.len(),
{
    if steps.len() > 0 {
        let before = steps.drop_last();
        law_every_history_is_single_valued(before);
        let h = run(before);
        match steps.last() {
            Step::NewRecord => {
                law_new_record_keeps_wf(h);
            },
            Step::AddLine(start, end) => {
                law_add_line_keeps_wf(h, start, end);
            },
            Step::Undo => {
                law_undo_redo_keep_wf(h);
            },
            Step::Redo => {
                law_undo_redo_keep_wf(h);
            },
        }
    }
    law_history_is_single_valued(run(steps));
}

} // verus!
