//! What holds of every canvas, proved over its mathematical state.

use vstd::prelude::*;
use crate::geometry::{Line, Point};
use crate::history_laws::{law_add_line_keeps_wf, law_new_record_keeps_wf, law_undo_redo_keep_wf};
use crate::paint::{
    CanvasModel, blank, paint_stroke, paint_strokes, render, segment_hits, stroke_hits,
    strokes_hit, lemma_paint_stroke_keeps_size, lemma_paint_strokes_keeps_size,
};

verus! {

/// After a stroke was drawn, a pixel has full intensity if a segment of the
/// stroke passes through it, and is as it was otherwise.
pub proof fn lemma_paint_stroke_pixels(
    bitmap: Seq<u8>,
    width: int,
    height: int,
    stroke: Seq<Line>,
    i: int,
)
    requires
        0 <= i < bitmap.len(),
    ensures
        paint_stroke(bitmap, width, height, stroke)[i] == if stroke_hits(stroke, width, height, i) {
            255u8
        } else {
            bitmap[i]
        },
    decreases stroke.len(),
{
    if stroke.len() > 0 {
        let rest = stroke.drop_last();
        let l = stroke.last();
        lemma_paint_stroke_pixels(bitmap, width, height, rest, i);
        lemma_paint_stroke_keeps_size(bitmap, width, height, rest);
        if stroke_hits(rest, width, height, i) {
            let g = choose|g: int|
                0 <= g < rest.len() && segment_hits(#[trigger] rest[g], width, height, i);
            assert(segment_hits(stroke[g], width, height, i));
        }
        if segment_hits(l, width, height, i) {
            assert(segment_hits(stroke[stroke.len() - 1], width, height, i));
        }
        if stroke_hits(stroke, width, height, i) {
            let g = choose|g: int|
                0 <= g < stroke.len() && segment_hits(#[trigger] stroke[g], width, height, i);
            if g < rest.len() {
                assert(segment_hits(rest[g], width, height, i));
            }
        }
    }
}

/// After strokes were drawn, a pixel has full intensity if a segment of one
/// of them passes through it, and is as it was otherwise.
pub proof fn lemma_paint_strokes_pixels(
    bitmap: Seq<u8>,
    width: int,
    height: int,
    strokes: Seq<Seq<Line>>,
    i: int,
)
    requires
        0 <= i < bitmap.len(),
    ensures
        paint_strokes(bitmap, width, height, strokes)[i] == if strokes_hit(
            strokes,
            width,
            height,
            i,
        ) {
            255u8
        } else {
            bitmap[i]
        },
    decreases strokes.len(),
{
    if strokes.len() > 0 {
        let rest = strokes.drop_last();
        let last = strokes.last();
        lemma_paint_strokes_pixels(bitmap, width, height, rest, i);
        lemma_paint_strokes_keeps_size(bitmap, width, height, rest);
        lemma_paint_stroke_pixels(
            paint_strokes(bitmap, width, height, rest),
            width,
            height,
            last,
            i,
        );
        if strokes_hit(rest, width, height, i) {
            let s = choose|s: int|
                0 <= s < rest.len() && stroke_hits(#[trigger] rest[s], width, height, i);
            assert(stroke_hits(strokes[s], width, height, i));
        }
        if stroke_hits(last, width, height, i) {
            assert(stroke_hits(strokes[strokes.len() - 1], width, height, i));
        }
        if strokes_hit(strokes, width, height, i) {
            let s = choose|s: int|
                0 <= s < strokes.len() && stroke_hits(#[trigger] strokes[s], width, height, i);
            if s < rest.len() {
                assert(stroke_hits(rest[s], width, height, i));
            }
        }
    }
}

/// The picture of a history has one intensity for each pixel: full where a
/// segment that lies on the canvas passes through the pixel, zero elsewhere.
pub proof fn law_render_shows_exactly_the_strokes(
    strokes: Seq<Seq<Line>>,
    width: int,
    height: int,
    i: int,
)
    requires
        0 <= width,
        0 <= height,
        0 <= i < width * height,
    ensures
        render(strokes, width, height).len() == width * height,
        render(strokes, width, height)[i] == if strokes_hit(strokes, width, height, i) {
            255u8
        } else {
            0u8
        },
{
    lemma_paint_strokes_keeps_size(blank(width, height), width, height, strokes);
    lemma_paint_strokes_pixels(blank(width, height), width, height, strokes, i);
}

/// A history without segments gives a dark picture.
pub proof fn law_render_without_segments_is_dark(strokes: Seq<Seq<Line>>, width: int, height: int)
    requires
        forall|s: int| 0 <= s < strokes.len() ==> (#[trigger] strokes[s]).len() == 0,
    ensures
        render(strokes, width, height) == blank(width, height),
    decreases strokes.len(),
{
    if strokes.len() > 0 {
        assert forall|s: int| 0 <= s < strokes.drop_last().len() implies (
        #[trigger] strokes.drop_last()[s]).len() == 0 by {
            assert(strokes.drop_last()[s] == strokes[s]);
        }
        law_render_without_segments_is_dark(strokes.drop_last(), width, height);
        assert(strokes.last() == strokes[strokes.len() - 1]);
    }
}

/// Resizing a canvas, resizing it to any other size and then back gives the
/// bitmap of the first resize again, bit for bit, with the same history.
pub proof fn law_resize_round_trip(c: CanvasModel, width: int, height: int, w: int, h: int)
    ensures
        c.resize(width, height).resize(w, h).resize(width, height) == c.resize(width, height),
{
}

/// A canvas that shows its history shows the same bitmap again after it was
/// resized to any size and back.
pub proof fn law_resize_back_restores_bitmap(c: CanvasModel, w: int, h: int)
    requires
        c.shows_history(),
    ensures
        c.resize(w, h).resize(c.width, c.height).bitmap == c.bitmap,
        c.resize(w, h).resize(c.width, c.height).history == c.history,
{
}

/// A new canvas shows its empty history, and a resize makes any canvas show
/// its history.
pub proof fn law_new_and_resized_canvas_show_history(c: CanvasModel, width: int, height: int)
    requires
        0 <= width,
        0 <= height,
    ensures
        CanvasModel::new(width, height).wf(),
        c.resize(width, height).shows_history(),
        c.resize(width, height).sized(),
        c.history.wf() ==> c.resize(width, height).wf(),
{
    lemma_paint_strokes_keeps_size(blank(width, height), width, height, c.history.strokes);
    assert(0 <= width * height) by (nonlinear_arith)
        requires
            0 <= width,
            0 <= height,
    ;
}

/// Starting a stroke changes no picture: a canvas that shows its history
/// still does.
pub proof fn law_new_record_keeps_picture(c: CanvasModel)
    requires
        c.shows_history(),
    ensures
        c.new_record().shows_history(),
        c.new_record().bitmap == c.bitmap,
{
    let strokes = c.history.strokes;
    let kept = if strokes.len() > 0 && strokes.last().len() == 0 {
        strokes.drop_last()
    } else {
        strokes
    };
    let next = kept.push(Seq::empty());
    assert(next.drop_last() =~= kept);
    assert(next.last() =~= Seq::<Line>::empty());
    assert(render(next, c.width, c.height) == render(kept, c.width, c.height));
}

/// A canvas that shows its history still does after a segment was added:
/// the segment is drawn exactly when it is stored.
pub proof fn law_line_keeps_picture(c: CanvasModel, start: Point, end: Point)
    requires
        c.shows_history(),
    ensures
        c.line(start, end).shows_history(),
        c.history.strokes.len() == 0 ==> c.line(start, end) == c,
{
    if c.history.strokes.len() > 0 {
        let strokes = c.history.strokes;
        let l = c.history.current().place(start, end);
        let next = c.history.add_line(start, end).strokes;
        assert(next.drop_last() =~= strokes.drop_last());
        assert(next.last() == strokes.last().push(l));
        assert(strokes.last().push(l).drop_last() =~= strokes.last());
        assert(strokes.last().push(l).last() == l);
    }
}

/// Undo makes a canvas show what is left of its history, and redo keeps a
/// canvas that shows its history showing it.
pub proof fn law_undo_redo_keep_picture(c: CanvasModel)
    requires
        c.shows_history(),
    ensures
        c.undo().shows_history(),
        c.redo().shows_history(),
{
    if c.history.undone.len() > 0 {
        let next = c.history.redo().strokes;
        assert(next.drop_last() =~= c.history.strokes);
        assert(next.last() == c.history.undone.last());
    }
}

/// Undoing a stroke and redoing it at once gives back the bitmap and the
/// history of a canvas that shows its history.
pub proof fn law_canvas_undo_then_redo_restores(c: CanvasModel)
    requires
        c.wf(),
        c.history.strokes.len() > 0,
    ensures
        c.undo().redo().bitmap == c.bitmap,
        c.undo().redo().history == c.history,
{
    law_undo_redo_keep_picture(c);
    law_undo_redo_keep_picture(c.undo());
    assert(c.history.undo().redo() =~= c.history);
}

/// Undoing the only stroke of a canvas leaves every pixel dark.
pub proof fn law_undo_of_only_stroke_darkens(c: CanvasModel)
    requires
        c.history.strokes.len() == 1,
    ensures
        c.undo().bitmap == blank(c.width, c.height),
        c.undo().history.strokes.len() == 0,
{
    assert(c.history.undo().strokes =~= Seq::<Seq<Line>>::empty());
}

/// Whatever is done to a canvas, its bitmap keeps showing the strokes of its
/// history and nothing else: the bitmap is a function of the history and the
/// size.
pub proof fn law_canvas_stays_wf(c: CanvasModel, start: Point, end: Point)
    requires
        c.wf(),
    ensures
        c.new_record().wf(),
        c.line(start, end).wf(),
        c.undo().wf(),
        c.redo().wf(),
        c.update().wf(),
{
    law_new_record_keeps_picture(c);
    law_new_record_keeps_wf(c.history);
    law_line_keeps_picture(c, start, end);
    law_add_line_keeps_wf(c.history, start, end);
    law_undo_redo_keep_picture(c);
    law_undo_redo_keep_wf(c.history);
    lemma_paint_strokes_keeps_size(
        blank(c.width, c.height),
        c.width,
        c.height,
        c.history.undo().strokes,
    );
    if c.history.undone.len() > 0 {
        lemma_paint_stroke_keeps_size(c.bitmap, c.width, c.height, c.history.undone.last());
    }
}

/// Every change of the history makes the canvas dirty, and so does every
/// resize; handing the bitmap out makes it clean.
pub proof fn law_history_change_makes_dirty(
    c: CanvasModel,
    start: Point,
    end: Point,
    width: int,
    height: int,
)
    ensures
        c.new_record().dirty,
        c.history.strokes.len() > 0 ==> c.line(start, end).dirty && c.undo().dirty,
        c.history.undone.len() > 0 ==> c.redo().dirty,
        c.resize(width, height).dirty,
        !c.update().dirty,
        c.line(start, end).history == c.history ==> c.line(start, end).dirty == c.dirty,
        c.undo().history == c.history ==> c.undo().dirty == c.dirty,
        c.redo().history == c.history ==> c.redo().dirty == c.dirty,
{
    if c.history.strokes.len() > 0 {
        let g = c.history.add_line(start, end);
        let last = c.history.strokes.len() - 1;
        assert(g.strokes[last].len() == c.history.strokes[last].len() + 1);
        assert(c.history.undo().strokes.len() != c.history.strokes.len());
    }
    if c.history.undone.len() > 0 {
        assert(c.history.redo().strokes.len() != c.history.strokes.len());
    }
}

} // verus!
