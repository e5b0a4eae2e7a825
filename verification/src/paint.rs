//! The preview canvas: a bitmap of eight-bit intensities that shows the
//! strokes of its own history and can be rebuilt from them at any size.

use vstd::prelude::*;
use crate::geometry::{ONE, Point};
use crate::raster::{draw_segment, hits, stamp};
use crate::canvas_laws::{
    law_line_keeps_picture, law_new_record_keeps_picture, law_undo_redo_keep_picture,
};
use crate::history::{History, RecordSystem, strokes_of};

pub use crate::geometry::Line;

verus! {

/// The pixel column (or row) that holds the coordinate `v` on an axis of
/// `extent` pixels: `v * extent`, rounded down to a whole pixel.
pub open spec fn pixel_of(v: int, extent: int) -> int {
    (v * extent) / (ONE as int)
}

/// Whether a segment lies on the canvas with both ends: each coordinate is at
/// least zero and less than one.
pub open spec fn visible(l: Line) -> bool {
    &&& 0 <= l.start.x < ONE
    &&& 0 <= l.start.y < ONE
    &&& 0 <= l.end.x < ONE
    &&& 0 <= l.end.y < ONE
}

/// The pixel of the first end of a segment.
pub open spec fn start_pixel(l: Line, width: int, height: int) -> (int, int) {
    (pixel_of(l.start.x as int, width), pixel_of(l.start.y as int, height))
}

/// The pixel of the second end of a segment.
pub open spec fn end_pixel(l: Line, width: int, height: int) -> (int, int) {
    (pixel_of(l.end.x as int, width), pixel_of(l.end.y as int, height))
}

/// Whether drawing the segment sets the pixel at place `i`.
pub open spec fn segment_hits(l: Line, width: int, height: int, i: int) -> bool {
    visible(l) && hits(start_pixel(l, width, height), end_pixel(l, width, height), width, i)
}

/// Whether drawing the stroke sets the pixel at place `i`.
pub open spec fn stroke_hits(stroke: Seq<Line>, width: int, height: int, i: int) -> bool {
    exists|g: int| 0 <= g < stroke.len() && segment_hits(#[trigger] stroke[g], width, height, i)
}

/// Whether drawing the strokes sets the pixel at place `i`.
pub open spec fn strokes_hit(strokes: Seq<Seq<Line>>, width: int, height: int, i: int) -> bool {
    exists|s: int| 0 <= s < strokes.len() && stroke_hits(#[trigger] strokes[s], width, height, i)
}

/// Whether a stroke has a segment that lies on the canvas.
pub open spec fn any_visible(stroke: Seq<Line>) -> bool {
    exists|g: int| 0 <= g < stroke.len() && visible(#[trigger] stroke[g])
}

/// A bitmap after a segment was drawn into it. A segment with an end off the
/// canvas is dropped as a whole.
pub open spec fn paint(bitmap: Seq<u8>, width: int, height: int, l: Line) -> Seq<u8> {
    if visible(l) {
        stamp(bitmap, width, start_pixel(l, width, height), end_pixel(l, width, height))
    } else {
        bitmap
    }
}

/// A bitmap after the segments of a stroke were drawn into it in order.
pub open spec fn paint_stroke(bitmap: Seq<u8>, width: int, height: int, stroke: Seq<Line>) -> Seq<u8>
    decreases stroke.len(),
{
    if stroke.len() == 0 {
        bitmap
    } else {
        paint(paint_stroke(bitmap, width, height, stroke.drop_last()), width, height, stroke.last())
    }
}

/// A bitmap after strokes were drawn into it in order.
pub open spec fn paint_strokes(
    bitmap: Seq<u8>,
    width: int,
    height: int,
    strokes: Seq<Seq<Line>>,
) -> Seq<u8>
    decreases strokes.len(),
{
    if strokes.len() == 0 {
        bitmap
    } else {
        paint_stroke(
            paint_strokes(bitmap, width, height, strokes.drop_last()),
            width,
            height,
            strokes.last(),
        )
    }
}

/// The bitmap of the given size with every pixel dark.
pub open spec fn blank(width: int, height: int) -> Seq<u8> {
    Seq::new((width * height) as nat, |i: int| 0u8)
}

/// The picture of the strokes at the given size.
pub open spec fn render(strokes: Seq<Seq<Line>>, width: int, height: int) -> Seq<u8> {
    paint_strokes(blank(width, height), width, height, strokes)
}

/// The mathematical state of a canvas.
#[verifier::ext_equal]
pub struct CanvasModel {
    pub width: int,
    pub height: int,
    /// The intensities, row after row.
    pub bitmap: Seq<u8>,
    pub history: History,
    /// Whether the bitmap has changed since it was last handed out for upload.
    pub dirty: bool,
}

impl CanvasModel {
    pub open spec fn new(width: int, height: int) -> CanvasModel {
        CanvasModel {
            width,
            height,
            bitmap: blank(width, height),
            history: History::empty(),
            dirty: false,
        }
    }

    /// The bitmap has one intensity for each pixel.
    pub open spec fn sized(self) -> bool {
        &&& 0 <= self.width
        &&& 0 <= self.height
        &&& self.bitmap.len() == self.width * self.height
    }

    /// The bitmap has one intensity for each pixel and shows the strokes of
    /// the history and nothing else, and each stroke has its record.
    pub open spec fn wf(self) -> bool {
        &&& self.sized()
        &&& self.history.wf()
        &&& self.shows_history()
    }

    /// The bitmap shows the strokes of the history and nothing else.
    pub open spec fn shows_history(self) -> bool {
        self.bitmap == render(self.history.strokes, self.width, self.height)
    }

    /// Starting a stroke changes the history, so the canvas becomes dirty.
    pub open spec fn new_record(self) -> CanvasModel {
        CanvasModel { history: self.history.new_record(), dirty: true, ..self }
    }

    /// A segment is clamped against the frontier of the last stroke, drawn,
    /// and recorded in that stroke; the canvas becomes dirty. Without a
    /// stroke nothing changes.
    pub open spec fn line(self, start: Point, end: Point) -> CanvasModel {
        if self.history.strokes.len() > 0 {
            CanvasModel {
                bitmap: paint(
                    self.bitmap,
                    self.width,
                    self.height,
                    self.history.current().place(start, end),
                ),
                history: self.history.add_line(start, end),
                dirty: true,
                ..self
            }
        } else {
            self
        }
    }

    /// Drawing a segment without recording it.
    pub open spec fn draw_line(self, l: Line) -> CanvasModel {
        CanvasModel {
            bitmap: paint(self.bitmap, self.width, self.height, l),
            dirty: self.dirty || visible(l),
            ..self
        }
    }

    /// Resizing rebuilds the bitmap from the history at the new size.
    pub open spec fn resize(self, width: int, height: int) -> CanvasModel {
        CanvasModel {
            width,
            height,
            bitmap: render(self.history.strokes, width, height),
            history: self.history,
            dirty: true,
        }
    }

    /// Undo takes the last stroke away and rebuilds the bitmap; the canvas
    /// becomes dirty. Without a stroke nothing changes.
    pub open spec fn undo(self) -> CanvasModel {
        if self.history.strokes.len() > 0 {
            CanvasModel {
                bitmap: render(self.history.undo().strokes, self.width, self.height),
                history: self.history.undo(),
                dirty: true,
                ..self
            }
        } else {
            self
        }
    }

    /// Redo draws the stroke undone last over the bitmap and puts it back;
    /// the canvas becomes dirty. Without an undone stroke nothing changes.
    pub open spec fn redo(self) -> CanvasModel {
        if self.history.undone.len() > 0 {
            CanvasModel {
                bitmap: paint_stroke(
                    self.bitmap,
                    self.width,
                    self.height,
                    self.history.undone.last(),
                ),
                history: self.history.redo(),
                dirty: true,
                ..self
            }
        } else {
            self
        }
    }

    /// Handing the bitmap out for upload.
    pub open spec fn update(self) -> CanvasModel {
        CanvasModel { dirty: false, ..self }
    }
}

/// The pixel that holds a coordinate of the canvas.
pub fn pixel(v: i32, extent: usize) -> (p: usize)
    requires
        0 <= v < ONE,
    ensures
        p == pixel_of(v as int, extent as int),
        extent > 0 ==> p < extent,
{
    proof {
        assert(0 <= (v as int) * (extent as int) <= 65535 * (extent as int)) by (nonlinear_arith)
            requires
                0 <= v < 65536,
                0 <= extent,
        ;
        assert(((v as int) * (extent as int)) / 65536 <= extent as int) by (nonlinear_arith)
            requires
                0 <= (v as int) * (extent as int) <= 65535 * (extent as int),
        ;
        if extent > 0 {
            assert(((v as int) * (extent as int)) / 65536 < extent as int) by (nonlinear_arith)
                requires
                    0 <= (v as int) * (extent as int) <= 65535 * (extent as int),
                    extent > 0,
            ;
        }
    }
    let scaled: u128 = (v as u128) * (extent as u128);
    (scaled / 65536) as usize
}

/// Draws a segment into a row-major bitmap of the given size, or drops it if
/// one of its ends is off the canvas. Returns whether it was drawn.
pub fn paint_line(data: &mut Vec<u8>, width: usize, height: usize, line: &Line) -> (drawn: bool)
    requires
        old(data).len() == width * height,
    ensures
        final(data)@ == paint(old(data)@, width as int, height as int, *line),
        drawn == visible(*line),
{
    if line.start.x < 0 || line.start.y < 0 || line.end.x < 0 || line.end.y < 0 {
        return false;
    }
    if line.start.x >= ONE || line.start.y >= ONE || line.end.x >= ONE || line.end.y >= ONE {
        return false;
    }
    if width == 0 || height == 0 {
        proof {
            assert(width * height == 0) by (nonlinear_arith)
                requires
                    width == 0 || height == 0,
            ;
            assert(data@ =~= paint(data@, width as int, height as int, *line));
        }
        return true;
    }
    let x0: usize = pixel(line.start.x, width);
    let y0: usize = pixel(line.start.y, height);
    let x1: usize = pixel(line.end.x, width);
    let y1: usize = pixel(line.end.y, height);
    draw_segment(data, width, height, x0, y0, x1, y1);
    true
}

/// Draws the segments of a stroke in order and returns whether any was drawn.
pub fn paint_lines(data: &mut Vec<u8>, width: usize, height: usize, stroke: &Vec<Line>) -> (drawn:
    bool)
    requires
        old(data).len() == width * height,
    ensures
        final(data)@ == paint_stroke(old(data)@, width as int, height as int, stroke@),
        drawn == any_visible(stroke@),
{
    let ghost before = data@;
    let mut drawn: bool = false;
    let mut g: usize = 0;
    while g < stroke.len()
        invariant
            g <= stroke.len(),
            data.len() == width * height,
            data@ == paint_stroke(before, width as int, height as int, stroke@.take(g as int)),
            drawn == any_visible(stroke@.take(g as int)),
        decreases stroke.len() - g,
    {
        let hit = paint_line(data, width, height, &stroke[g]);
        proof {
            let next = stroke@.take(g + 1);
            assert(next.drop_last() =~= stroke@.take(g as int));
            assert(next.last() == stroke@[g as int]);
            lemma_paint_keeps_size(
                paint_stroke(before, width as int, height as int, stroke@.take(g as int)),
                width as int,
                height as int,
                stroke@[g as int],
            );
            if any_visible(stroke@.take(g as int)) {
                let j = choose|j: int|
                    0 <= j < stroke@.take(g as int).len() && visible(
                        #[trigger] stroke@.take(g as int)[j],
                    );
                assert(visible(next[j]));
            }
            if hit {
                assert(visible(next[g as int]));
            }
            if any_visible(next) {
                let j = choose|j: int| 0 <= j < next.len() && visible(#[trigger] next[j]);
                if j < g {
                    assert(visible(stroke@.take(g as int)[j]));
                }
            }
        }
        drawn = drawn || hit;
        g += 1;
    }
    assert(stroke@.take(g as int) =~= stroke@);
    drawn
}

/// Drawing a segment changes no bitmap's size.
pub proof fn lemma_paint_keeps_size(bitmap: Seq<u8>, width: int, height: int, l: Line)
    ensures
        paint(bitmap, width, height, l).len() == bitmap.len(),
{
}

/// Drawing a stroke changes no bitmap's size.
pub proof fn lemma_paint_stroke_keeps_size(
    bitmap: Seq<u8>,
    width: int,
    height: int,
    stroke: Seq<Line>,
)
    ensures
        paint_stroke(bitmap, width, height, stroke).len() == bitmap.len(),
    decreases stroke.len(),
{
    if stroke.len() > 0 {
        lemma_paint_stroke_keeps_size(bitmap, width, height, stroke.drop_last());
    }
}

/// Drawing strokes changes no bitmap's size.
pub proof fn lemma_paint_strokes_keeps_size(
    bitmap: Seq<u8>,
    width: int,
    height: int,
    strokes: Seq<Seq<Line>>,
)
    ensures
        paint_strokes(bitmap, width, height, strokes).len() == bitmap.len(),
    decreases strokes.len(),
{
    if strokes.len() > 0 {
        lemma_paint_strokes_keeps_size(bitmap, width, height, strokes.drop_last());
        lemma_paint_stroke_keeps_size(
            paint_strokes(bitmap, width, height, strokes.drop_last()),
            width,
            height,
            strokes.last(),
        );
    }
}

/// The canvas.
pub struct Canvas {
    width: usize,
    height: usize,
    data: Vec<u8>,
    records: RecordSystem,
    dirty: bool,
}

impl View for Canvas {
    type V = CanvasModel;

    closed spec fn view(&self) -> CanvasModel {
        CanvasModel {
            width: self.width as int,
            height: self.height as int,
            bitmap: self.data@,
            history: self.records@,
            dirty: self.dirty,
        }
    }
}

impl Canvas {
    /// A dark canvas of the given size without strokes.
    pub fn new(width: usize, height: usize) -> (c: Canvas)
        requires
            width * height <= usize::MAX,
        ensures
            c@ == CanvasModel::new(width as int, height as int),
            c@.wf(),
    {
        let c = Canvas {
            width,
            height,
            data: vec![0u8; width * height],
            records: RecordSystem::new(),
            dirty: false,
        };
        assert(c@ =~= CanvasModel::new(width as int, height as int));
        c
    }

    /// Reports whether the bitmap or the history has changed since the last
    /// call, in which case the bitmap is due for upload, and takes it for
    /// uploaded.
    pub fn update(&mut self) -> (upload: bool)
        ensures
            final(self)@ == old(self)@.update(),
            upload == old(self)@.dirty,
    {
        let upload = self.dirty;
        self.dirty = false;
        upload
    }

    /// Starts a stroke.
    pub fn new_record(&mut self)
        requires
            old(self)@.wf(),
        ensures
            final(self)@ == old(self)@.new_record(),
            final(self)@.wf(),
    {
        self.records.new_record();
        self.dirty = true;
        proof {
            law_new_record_keeps_picture(old(self)@);
        }
    }

    /// Draws a segment without recording it. A segment with an end off the
    /// canvas is dropped as a whole.
    fn draw_line(&mut self, line: &Line)
        requires
            old(self)@.sized(),
        ensures
            final(self)@ == old(self)@.draw_line(*line),
            final(self)@.sized(),
    {
        if paint_line(&mut self.data, self.width, self.height, line) {
            self.dirty = true;
        }
    }

    /// Takes the pointer movement from `start` to `end`: the segment is
    /// clamped against the frontier of the last stroke, drawn, and recorded
    /// in that stroke. Without a stroke nothing happens.
    pub fn line(&mut self, start: Point, end: Point)
        requires
            old(self)@.wf(),
        ensures
            final(self)@ == old(self)@.line(start, end),
            final(self)@.wf(),
    {
        if self.records.has_stroke() {
            let line = self.records.place(start, end);
            self.draw_line(&line);
            self.records.record_line(start, end);
            self.dirty = true;
            proof {
                law_line_keeps_picture(old(self)@, start, end);
            }
        }
    }

    /// Gives the canvas a new size and rebuilds the bitmap from the history.
    pub fn resize(&mut self, width: usize, height: usize)
        requires
            old(self)@.wf(),
            width * height <= usize::MAX,
        ensures
            final(self)@ == old(self)@.resize(width as int, height as int),
            final(self)@.wf(),
    {
        self.rebuild(width, height);
    }

    /// Gives the canvas a size and rebuilds the bitmap from the history,
    /// whatever the bitmap showed before.
    fn rebuild(&mut self, width: usize, height: usize)
        requires
            old(self)@.history.wf(),
            width * height <= usize::MAX,
        ensures
            final(self)@ == old(self)@.resize(width as int, height as int),
            final(self)@.wf(),
    {
        self.width = width;
        self.height = height;
        self.data = vec![0u8; width * height];
        self.dirty = true;
        assert(self.data@ =~= blank(width as int, height as int));
        let ghost all = self.records@.strokes;
        let strokes = self.records.lines();
        let mut s: usize = 0;
        while s < strokes.len()
            invariant
                s <= strokes.len(),
                strokes_of(strokes@) == all,
                self.width == width,
                self.height == height,
                self.dirty,
                self.records@ == old(self).records@,
                all == old(self).records@.strokes,
                self.data.len() == width * height,
                self.data@ == render(all.take(s as int), width as int, height as int),
            decreases strokes.len() - s,
        {
            paint_lines(&mut self.data, width, height, &strokes[s]);
            proof {
                let next = all.take(s + 1);
                assert(next.drop_last() =~= all.take(s as int));
                assert(next.last() == strokes[s as int]@);
                lemma_paint_stroke_keeps_size(
                    render(all.take(s as int), width as int, height as int),
                    width as int,
                    height as int,
                    strokes[s as int]@,
                );
            }
            s += 1;
        }
        assert(all.take(s as int) =~= all);
    }

    /// Takes the last stroke away and rebuilds the bitmap. Does nothing
    /// without a stroke.
    pub fn undo(&mut self)
        requires
            old(self)@.wf(),
        ensures
            final(self)@ == old(self)@.undo(),
            final(self)@.wf(),
    {
        if self.records.undo_stroke() {
            proof {
                assert(self.data.len() == self.width * self.height);
            }
            self.rebuild(self.width, self.height);
        }
    }

    /// Puts the stroke undone last back and draws it over the bitmap. Does
    /// nothing when no stroke is undone.
    pub fn redo(&mut self)
        requires
            old(self)@.wf(),
        ensures
            final(self)@ == old(self)@.redo(),
            final(self)@.wf(),
    {
        if self.records.redo_stroke() {
            let strokes = self.records.lines();
            assert(strokes_of(strokes@).last() == old(self)@.history.undone.last());
            let stroke = &strokes[strokes.len() - 1];
            paint_lines(&mut self.data, self.width, self.height, stroke);
            self.dirty = true;
            proof {
                lemma_paint_stroke_keeps_size(
                    old(self)@.bitmap,
                    self.width as int,
                    self.height as int,
                    stroke@,
                );
                law_undo_redo_keep_picture(old(self)@);
            }
        }
    }

    pub fn get_width(&self) -> (w: usize)
        ensures
            w == self@.width,
    {
        self.width
    }

    pub fn get_height(&self) -> (h: usize)
        ensures
            h == self@.height,
    {
        self.height
    }

    /// The strokes drawn and not undone, oldest first.
    pub fn get_lines(&self) -> (strokes: &Vec<Vec<Line>>)
        ensures
            strokes_of(strokes@) == self@.history.strokes,
    {
        self.records.lines()
    }

    /// The intensities, row after row.
    pub fn data(&self) -> (bitmap: &Vec<u8>)
        ensures
            bitmap@ == self@.bitmap,
    {
        &self.data
    }

    /// Whether the bitmap has changed since it was last handed out for upload.
    pub fn is_dirty(&self) -> (dirty: bool)
        ensures
            dirty == self@.dirty,
    {
        self.dirty
    }
}

} // verus!
