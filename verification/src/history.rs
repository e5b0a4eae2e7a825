//! The stroke history: strokes are recorded segment by segment, each stroke is
//! kept single-valued in time by clamping new segments against a frontier, and
//! whole strokes can be undone and redone.

use vstd::prelude::*;
use crate::geometry::{Line, Point, max_coord, min_coord};
use crate::history_laws::{law_add_line_keeps_wf, law_new_record_keeps_wf, law_undo_redo_keep_wf};

verus! {

/// The direction in which a stroke advances through time. It is fixed by the
/// first segment of the stroke.
#[derive(Clone, Copy, PartialEq, Eq, Debug, Structural)]
pub enum RecordDirection {
    Undefined,
    Right,
    Left,
}

/// What is remembered while a stroke is being drawn: its direction and the
/// frontier, the extreme time the stroke has reached so far.
#[derive(Clone, Copy, PartialEq, Eq, Debug, Structural)]
pub struct Record {
    pub direction: RecordDirection,
    pub clamp_x: i32,
}

impl Record {
    /// The record of a stroke that has no segment yet.
    pub open spec fn fresh() -> Record {
        Record { direction: RecordDirection::Undefined, clamp_x: 0 }
    }

    /// The record once the direction is known. A first segment that moves
    /// strictly to the right starts a forward stroke with frontier zero; any
    /// other first segment starts a backward stroke whose frontier is the
    /// largest coordinate, which clamps nothing.
    pub open spec fn engage(self, start: Point, end: Point) -> Record {
        if self.direction is Undefined {
            if start.x < end.x {
                Record { direction: RecordDirection::Right, clamp_x: 0 }
            } else {
                Record { direction: RecordDirection::Left, clamp_x: i32::MAX }
            }
        } else {
            self
        }
    }

    /// A time coordinate held on the allowed side of the frontier.
    pub open spec fn clamp(self, x: i32) -> i32 {
        if self.direction is Right {
            if x >= self.clamp_x { x } else { self.clamp_x }
        } else {
            if x <= self.clamp_x { x } else { self.clamp_x }
        }
    }

    /// The segment that is stored for a pointer movement from `start` to `end`.
    pub open spec fn place(self, start: Point, end: Point) -> Line {
        let r = self.engage(start, end);
        Line {
            start: Point { x: r.clamp(start.x), y: start.y },
            end: Point { x: r.clamp(end.x), y: end.y },
        }
    }

    /// The record after the movement from `start` to `end`: the frontier moves
    /// to the far end of the stored segment.
    pub open spec fn advance(self, start: Point, end: Point) -> Record {
        let r = self.engage(start, end);
        let l = self.place(start, end);
        Record {
            direction: r.direction,
            clamp_x: if r.direction is Right { l.hi() as i32 } else { l.lo() as i32 },
        }
    }

    /// The record describes the stroke `s`: the stroke runs in the record's
    /// direction and has not passed the frontier.
    pub open spec fn follows(self, s: Seq<Line>) -> bool {
        match self.direction {
            RecordDirection::Undefined => s.len() == 0,
            RecordDirection::Right => {
                &&& forward(s)
                &&& self.clamp_x >= 0
                &&& forall|i: int| 0 <= i < s.len() ==> #[trigger] s[i].hi() <= self.clamp_x
            },
            RecordDirection::Left => {
                &&& backward(s)
                &&& forall|i: int| 0 <= i < s.len() ==> #[trigger] s[i].lo() >= self.clamp_x
            },
        }
    }

    /// Clamps the movement against the frontier, moves the frontier and returns
    /// the segment to store.
    pub fn record(&mut self, start: Point, end: Point) -> (line: Line)
        ensures
            line == old(self).place(start, end),
            *final(self) == old(self).advance(start, end),
    {
        if self.direction == RecordDirection::Undefined {
            if start.x < end.x {
                self.direction = RecordDirection::Right;
                self.clamp_x = 0;
            } else {
                self.direction = RecordDirection::Left;
                self.clamp_x = i32::MAX;
            }
        }
        let forward: bool = self.direction == RecordDirection::Right;
        let start_x: i32 = if forward {
            max_coord(start.x, self.clamp_x)
        } else {
            min_coord(start.x, self.clamp_x)
        };
        let end_x: i32 = if forward {
            max_coord(end.x, self.clamp_x)
        } else {
            min_coord(end.x, self.clamp_x)
        };
        self.clamp_x = if forward {
            max_coord(self.clamp_x, max_coord(start_x, end_x))
        } else {
            min_coord(self.clamp_x, min_coord(start_x, end_x))
        };
        Line { start: Point { x: start_x, y: start.y }, end: Point { x: end_x, y: end.y } }
    }
}

impl Default for Record {
    fn default() -> (r: Record)
        ensures
            r == Record::fresh(),
    {
        Record { direction: RecordDirection::Undefined, clamp_x: 0 }
    }
}

/// A stroke that runs forward: no segment starts before time zero, and no
/// segment reaches back before the end of an earlier one.
pub open spec fn forward(s: Seq<Line>) -> bool {
    &&& forall|i: int| 0 <= i < s.len() ==> 0 <= #[trigger] s[i].lo()
    &&& forall|i: int, j: int|
        0 <= i < j < s.len() ==> #[trigger] s[i].hi() <= #[trigger] s[j].lo()
}

/// A stroke that runs backward: no segment reaches past the start of an
/// earlier one.
pub open spec fn backward(s: Seq<Line>) -> bool {
    forall|i: int, j: int| 0 <= i < j < s.len() ==> #[trigger] s[i].lo() >= #[trigger] s[j].hi()
}

/// A stroke that never revisits a time it has left, so that it gives each
/// time at most one pitch run.
pub open spec fn single_valued(s: Seq<Line>) -> bool {
    forward(s) || backward(s)
}

/// The strokes held by a vector of vectors.
pub open spec fn strokes_of(v: Seq<Vec<Line>>) -> Seq<Seq<Line>> {
    Seq::new(v.len(), |i: int| v[i]@)
}

/// The mathematical state of a stroke history.
#[verifier::ext_equal]
pub struct History {
    /// The strokes drawn and not undone, oldest first.
    pub strokes: Seq<Seq<Line>>,
    /// For each stroke its record: its direction and frontier.
    pub records: Seq<Record>,
    /// The undone strokes, the one to redo next last.
    pub undone: Seq<Seq<Line>>,
    /// For each undone stroke its record.
    pub undone_records: Seq<Record>,
}

impl History {
    pub open spec fn empty() -> History {
        History {
            strokes: Seq::empty(),
            records: Seq::empty(),
            undone: Seq::empty(),
            undone_records: Seq::empty(),
        }
    }

    /// Each stroke, drawn or undone, has its record, and the record
    /// describes the stroke.
    pub open spec fn wf(self) -> bool {
        &&& self.records.len() == self.strokes.len()
        &&& self.undone_records.len() == self.undone.len()
        &&& forall|k: int|
            0 <= k < self.strokes.len() ==> (#[trigger] self.records[k]).follows(self.strokes[k])
        &&& forall|k: int|
            0 <= k < self.undone.len() ==> (#[trigger] self.undone_records[k]).follows(
                self.undone[k],
            )
    }

    /// The record of the last stroke, the one a new segment goes to; the
    /// fresh record without a stroke.
    pub open spec fn current(self) -> Record {
        if self.records.len() > 0 {
            self.records.last()
        } else {
            Record::fresh()
        }
    }

    /// Starting a stroke drops the last stroke if it has no segment, forgets
    /// the undone strokes and appends an empty stroke with a fresh record.
    pub open spec fn new_record(self) -> History {
        let drops = self.strokes.len() > 0 && self.strokes.last().len() == 0;
        History {
            strokes: (if drops { self.strokes.drop_last() } else { self.strokes }).push(
                Seq::empty(),
            ),
            records: (if drops { self.records.drop_last() } else { self.records }).push(
                Record::fresh(),
            ),
            undone: Seq::empty(),
            undone_records: Seq::empty(),
        }
    }

    /// Adding a segment clamps it against the frontier of the last stroke,
    /// appends it to that stroke and moves the frontier. Without a stroke
    /// nothing changes.
    pub open spec fn add_line(self, start: Point, end: Point) -> History {
        if self.strokes.len() > 0 {
            History {
                strokes: self.strokes.update(
                    self.strokes.len() - 1,
                    self.strokes.last().push(self.current().place(start, end)),
                ),
                records: self.records.update(
                    self.records.len() - 1,
                    self.current().advance(start, end),
                ),
                ..self
            }
        } else {
            self
        }
    }

    /// Undo moves the last stroke, with its record, to the undone strokes.
    pub open spec fn undo(self) -> History {
        if self.strokes.len() > 0 {
            History {
                strokes: self.strokes.drop_last(),
                records: self.records.drop_last(),
                undone: self.undone.push(self.strokes.last()),
                undone_records: self.undone_records.push(self.records.last()),
            }
        } else {
            self
        }
    }

    /// Redo moves the stroke undone last back, with its record.
    pub open spec fn redo(self) -> History {
        if self.undone.len() > 0 {
            History {
                strokes: self.strokes.push(self.undone.last()),
                records: self.records.push(self.undone_records.last()),
                undone: self.undone.drop_last(),
                undone_records: self.undone_records.drop_last(),
            }
        } else {
            self
        }
    }

    /// Every stroke, drawn or undone, is single-valued in time.
    pub open spec fn single_valued(self) -> bool {
        &&& forall|k: int| 0 <= k < self.strokes.len() ==> single_valued(#[trigger] self.strokes[k])
        &&& forall|k: int| 0 <= k < self.undone.len() ==> single_valued(#[trigger] self.undone[k])
    }
}

/// The stroke history.
pub struct RecordSystem {
    history: Vec<Vec<Line>>,
    records: Vec<Record>,
    undo_history: Vec<Vec<Line>>,
    undo_records: Vec<Record>,
}

impl View for RecordSystem {
    type V = History;

    closed spec fn view(&self) -> History {
        History {
            strokes: strokes_of(self.history@),
            records: self.records@,
            undone: strokes_of(self.undo_history@),
            undone_records: self.undo_records@,
        }
    }
}

impl Default for RecordSystem {
    /// A history without strokes.
    fn default() -> (r: RecordSystem)
        ensures
            r@ == History::empty(),
            r@.wf(),
    {
        RecordSystem::new()
    }
}

impl RecordSystem {
    /// A history without strokes.
    pub fn new() -> (r: RecordSystem)
        ensures
            r@ == History::empty(),
            r@.wf(),
    {
        let r = RecordSystem {
            history: Vec::new(),
            records: Vec::new(),
            undo_history: Vec::new(),
            undo_records: Vec::new(),
        };
        assert(r@ =~= History::empty());
        r
    }

    /// Starts a stroke.
    pub fn new_record(&mut self)
        requires
            old(self)@.wf(),
        ensures
            final(self)@ == old(self)@.new_record(),
            final(self)@.wf(),
    {
        self.undo_history.clear();
        self.undo_records.clear();
        let n: usize = self.history.len();
        if n > 0 && self.history[n - 1].len() == 0 {
            self.history.pop();
            self.records.pop();
        }
        self.history.push(Vec::new());
        self.records.push(Record::default());
        proof {
            assert(self@ =~= old(self)@.new_record());
            law_new_record_keeps_wf(old(self)@);
        }
    }

    /// Whether there is a stroke that a segment can go to.
    pub fn has_stroke(&self) -> (open: bool)
        ensures
            open == (self@.strokes.len() > 0),
    {
        self.history.len() > 0
    }

    /// Records the pointer movement from `start` to `end` in the last stroke
    /// and returns the stored segment. Without a stroke nothing changes and
    /// `None` is returned.
    pub fn record_line(&mut self, start: Point, end: Point) -> (added: Option<Line>)
        requires
            old(self)@.wf(),
        ensures
            final(self)@ == old(self)@.add_line(start, end),
            final(self)@.wf(),
            added == if old(self)@.strokes.len() > 0 {
                Some(old(self)@.current().place(start, end))
            } else {
                None
            },
    {
        let n: usize = self.history.len();
        if n > 0 {
            let mut record = self.records[n - 1];
            let line = record.record(start, end);
            self.records.set(n - 1, record);
            self.history[n - 1].push(line);
            proof {
                assert(self@ =~= old(self)@.add_line(start, end));
                law_add_line_keeps_wf(old(self)@, start, end);
            }
            Some(line)
        } else {
            None
        }
    }

    /// The segment that would be stored for the pointer movement from `start`
    /// to `end`.
    pub fn place(&self, start: Point, end: Point) -> (line: Line)
        ensures
            line == self@.current().place(start, end),
    {
        let mut record = self.current();
        record.record(start, end)
    }

    /// Moves the last stroke to the undone strokes. Returns whether there was
    /// one.
    pub fn undo_stroke(&mut self) -> (changed: bool)
        requires
            old(self)@.wf(),
        ensures
            final(self)@ == old(self)@.undo(),
            final(self)@.wf(),
            changed == (old(self)@.strokes.len() > 0),
    {
        let n: usize = self.history.len();
        if n > 0 {
            let record = self.records[n - 1];
            self.records.pop();
            self.undo_records.push(record);
            match self.history.pop() {
                Some(lines) => {
                    self.undo_history.push(lines);
                },
                None => {},
            }
            proof {
                assert(self@ =~= old(self)@.undo());
                law_undo_redo_keep_wf(old(self)@);
            }
            true
        } else {
            false
        }
    }

    /// Moves the stroke undone last back. Returns whether there was one.
    pub fn redo_stroke(&mut self) -> (changed: bool)
        requires
            old(self)@.wf(),
        ensures
            final(self)@ == old(self)@.redo(),
            final(self)@.wf(),
            changed == (old(self)@.undone.len() > 0),
    {
        let n: usize = self.undo_history.len();
        if n > 0 {
            let record = self.undo_records[n - 1];
            self.undo_records.pop();
            self.records.push(record);
            match self.undo_history.pop() {
                Some(lines) => {
                    self.history.push(lines);
                },
                None => {},
            }
            proof {
                assert(self@ =~= old(self)@.redo());
                law_undo_redo_keep_wf(old(self)@);
            }
            true
        } else {
            false
        }
    }
}

/// Remembers whether the strokes shown on screen are out of date.
pub struct ToneSystem {
    dirty: bool,
}

impl ToneSystem {
    /// Whether the strokes have changed since the last [`ToneSystem::update`].
    pub closed spec fn is_dirty(self) -> bool {
        self.dirty
    }

    pub fn new() -> (t: ToneSystem)
        ensures
            !t.is_dirty(),
    {
        ToneSystem { dirty: false }
    }

    pub fn mark_dirty(&mut self)
        ensures
            final(self).is_dirty(),
    {
        self.dirty = true;
    }

    /// Hands out every segment of the history, stroke after stroke, when the
    /// strokes have changed since the last call, and `None` otherwise.
    pub fn update(&mut self, record_system: &RecordSystem) -> (lines: Option<Vec<Line>>)
        ensures
            !final(self).is_dirty(),
            old(self).is_dirty() ==> lines is Some && lines->0@ == record_system@.strokes.flatten(),
            !old(self).is_dirty() ==> lines is None,
    {
        if self.dirty {
            self.dirty = false;
            Some(record_system.all_lines())
        } else {
            None
        }
    }
}

impl Default for ToneSystem {
    fn default() -> (t: ToneSystem)
        ensures
            !t.is_dirty(),
    {
        ToneSystem { dirty: false }
    }
}

impl RecordSystem {
    /// Records the pointer movement from `start` to `end` in the last stroke,
    /// marks the shown strokes as out of date and returns the stored segment.
    /// Without a stroke nothing is stored and `None` is returned.
    pub fn add_line(&mut self, start: Point, end: Point, tone_system: &mut ToneSystem) -> (added:
        Option<&Line>)
        requires
            old(self)@.wf(),
        ensures
            final(self)@ == old(self)@.add_line(start, end),
            final(self)@.wf(),
            old(self)@.strokes.len() > 0 ==> added == Some(&old(self)@.current().place(start, end))
                && final(tone_system).is_dirty(),
            old(self)@.strokes.len() == 0 ==> added is None
                && *final(tone_system) == *old(tone_system),
    {
        match self.record_line(start, end) {
            Some(_) => {
                tone_system.mark_dirty();
                let n: usize = self.history.len();
                assert(n == self@.strokes.len());
                assert(self.history[n - 1]@ == self@.strokes[n - 1]);
                let last = &self.history[n - 1];
                Some(&last[last.len() - 1])
            },
            None => None,
        }
    }

    /// Moves the last stroke to the undone strokes and marks the shown strokes
    /// as out of date. Does nothing without a stroke.
    pub fn undo(&mut self, tone_system: &mut ToneSystem)
        requires
            old(self)@.wf(),
        ensures
            final(self)@ == old(self)@.undo(),
            final(self)@.wf(),
            old(self)@.strokes.len() > 0 ==> final(tone_system).is_dirty(),
            old(self)@.strokes.len() == 0 ==> *final(tone_system) == *old(tone_system),
    {
        if self.undo_stroke() {
            tone_system.mark_dirty();
        }
    }

    /// Moves the stroke undone last back and marks the shown strokes as out of
    /// date. Does nothing when no stroke is undone.
    pub fn redo(&mut self, tone_system: &mut ToneSystem)
        requires
            old(self)@.wf(),
        ensures
            final(self)@ == old(self)@.redo(),
            final(self)@.wf(),
            old(self)@.undone.len() > 0 ==> final(tone_system).is_dirty(),
            old(self)@.undone.len() == 0 ==> *final(tone_system) == *old(tone_system),
    {
        if self.redo_stroke() {
            tone_system.mark_dirty();
        }
    }

    /// The strokes drawn and not undone, oldest first.
    pub fn lines(&self) -> (strokes: &Vec<Vec<Line>>)
        ensures
            strokes_of(strokes@) == self@.strokes,
    {
        &self.history
    }

    /// The undone strokes, the one to redo next last.
    pub fn undone_lines(&self) -> (strokes: &Vec<Vec<Line>>)
        ensures
            strokes_of(strokes@) == self@.undone,
    {
        &self.undo_history
    }

    /// The record of the last stroke, and the fresh record without a stroke.
    pub fn current(&self) -> (r: Record)
        ensures
            r == self@.current(),
    {
        let n: usize = self.records.len();
        if n > 0 {
            self.records[n - 1]
        } else {
            Record::default()
        }
    }

    /// Every segment of the history, stroke after stroke.
    pub fn all_lines(&self) -> (lines: Vec<Line>)
        ensures
            lines@ == self@.strokes.flatten(),
    {
        flatten_lines(&self.history)
    }
}

/// Every segment of the strokes, stroke after stroke.
pub fn flatten_lines(strokes: &Vec<Vec<Line>>) -> (lines: Vec<Line>)
    ensures
        lines@ == strokes_of(strokes@).flatten(),
{
    let mut lines: Vec<Line> = Vec::new();
    let mut s: usize = 0;
    while s < strokes.len()
        invariant
            s <= strokes.len(),
            lines@ == strokes_of(strokes@).take(s as int).flatten(),
        decreases strokes.len() - s,
    {
        let stroke = &strokes[s];
        let mut g: usize = 0;
        while g < stroke.len()
            invariant
                g <= stroke.len(),
                s < strokes.len(),
                stroke == strokes[s as int],
                lines@ == strokes_of(strokes@).take(s as int).flatten() + stroke@.take(g as int),
            decreases stroke.len() - g,
        {
            lines.push(stroke[g]);
            assert(stroke@.take(g as int).push(stroke@[g as int]) =~= stroke@.take(g + 1));
            g += 1;
        }
        proof {
            let all = strokes_of(strokes@);
            assert(stroke@.take(g as int) =~= stroke@);
            assert(all.take(s + 1) =~= all.take(s as int).push(stroke@));
            lemma_flatten_push(all.take(s as int), stroke@);
        }
        s += 1;
    }
    assert(strokes_of(strokes@).take(s as int) =~= strokes_of(strokes@));
    lines
}

/// Flattening distributes over appending one more sequence.
pub proof fn lemma_flatten_push<A>(ss: Seq<Seq<A>>, s: Seq<A>)
    ensures
        ss.push(s).flatten() == ss.flatten() + s,
    decreases ss.len(),
{
    if ss.len() == 0 {
        assert(ss.push(s) =~= seq![s]);
        assert(ss.push(s).drop_first() =~= Seq::<Seq<A>>::empty());
        assert(ss.push(s).flatten() =~= s + Seq::<Seq<A>>::empty().flatten());
        assert(ss.flatten() + s =~= s);
    } else {
        assert(ss.push(s).drop_first() =~= ss.drop_first().push(s));
        lemma_flatten_push(ss.drop_first(), s);
        assert(ss.push(s).flatten() =~= ss.first() + (ss.drop_first().flatten() + s));
        assert(ss.flatten() + s =~= ss.first() + (ss.drop_first().flatten() + s));
    }
}

} // verus!
