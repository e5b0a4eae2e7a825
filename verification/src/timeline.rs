//! The timeline: the stroke history together with the pointer gesture that
//! feeds it and the playback of its audio.

use vstd::prelude::*;
use crate::audio::{Mix, PlayerSource, SAMPLE_RATE, envelope_len, envelope_length, envelopes, render};
use crate::engine::window::{KEY_LEFT_CONTROL, KEY_LEFT_SHIFT, KEY_Z, Window, WindowState};
use crate::geometry::Point;
use crate::history::{History, RecordSystem, ToneSystem};

pub use crate::geometry::Line;

verus! {

/// How far the pointer has to move from where it went down before a stroke
/// begins: `0.01` in units of `1 / ONE`, rounded down.
pub const SAFE_RADIUS: i32 = 655;

/// What the pointer did in a frame, in timeline coordinates.
#[derive(Clone, Copy, PartialEq, Eq, Debug, Structural)]
pub struct Pointer {
    /// Whether the button went down in this frame.
    pub just_pressed: bool,
    /// Whether the button is down.
    pub pressed: bool,
    /// Where the pointer is.
    pub position: Point,
    /// Where the pointer was in the frame before.
    pub last_position: Point,
    /// Whether the pointer has moved since the frame before.
    pub moved: bool,
}

/// Whether `p` lies outside the safe radius around the anchor on either axis.
/// Without an anchor every point does.
pub open spec fn outside_safe_radius(anchor: Option<Point>, p: Point) -> bool {
    match anchor {
        None => true,
        Some(a) => {
            ||| p.x - a.x > SAFE_RADIUS
            ||| a.x - p.x > SAFE_RADIUS
            ||| p.y - a.y > SAFE_RADIUS
            ||| a.y - p.y > SAFE_RADIUS
        },
    }
}

/// The anchor during a frame: where the button went down, if it did in this
/// frame, and the anchor kept from before otherwise.
pub open spec fn anchor_in_frame(anchor: Option<Point>, pointer: Pointer) -> Option<Point> {
    if pointer.just_pressed {
        Some(pointer.position)
    } else {
        anchor
    }
}

/// Whether the gesture draws in this frame: the button is down and the
/// pointer has left the safe radius.
pub open spec fn draws(anchor: Option<Point>, pointer: Pointer) -> bool {
    pointer.pressed && outside_safe_radius(anchor_in_frame(anchor, pointer), pointer.position)
}

/// The segment that the gesture adds in this frame, if any: the first one
/// runs from the anchor to the pointer, each later one from where the
/// pointer was to where it is, as long as the pointer moves.
pub open spec fn segment_drawn(anchor: Option<Point>, pointer: Pointer) -> Option<(Point, Point)> {
    if draws(anchor, pointer) {
        match anchor_in_frame(anchor, pointer) {
            Some(a) => Some((a, pointer.position)),
            None => if pointer.moved {
                Some((pointer.last_position, pointer.position))
            } else {
                None
            },
        }
    } else {
        None
    }
}

/// The anchor after the frame: it is given up once the gesture draws.
pub open spec fn anchor_after(anchor: Option<Point>, pointer: Pointer) -> Option<Point> {
    if draws(anchor, pointer) {
        None
    } else {
        anchor_in_frame(anchor, pointer)
    }
}

/// The history after the gesture of a frame: a button that went down starts
/// a stroke, and the segment drawn is added.
pub open spec fn history_after(h: History, anchor: Option<Point>, pointer: Pointer) -> History {
    let started = if pointer.just_pressed { h.new_record() } else { h };
    match segment_drawn(anchor, pointer) {
        Some((from, to)) => started.add_line(from, to),
        None => started,
    }
}

/// Whether the gesture of a frame stores a segment.
pub open spec fn stores_segment(h: History, anchor: Option<Point>, pointer: Pointer) -> bool {
    segment_drawn(anchor, pointer) is Some && (pointer.just_pressed || h.strokes.len() > 0)
}

/// Turns the pointer's movements into strokes.
pub struct DrawingSystem {
    anchor: Option<Point>,
}

impl View for DrawingSystem {
    type V = Option<Point>;

    closed spec fn view(&self) -> Option<Point> {
        self.anchor
    }
}

impl Default for DrawingSystem {
    /// The gesture starts with its anchor at the origin.
    fn default() -> (d: DrawingSystem)
        ensures
            d@ == Some(Point { x: 0, y: 0 }),
    {
        DrawingSystem { anchor: Some(Point { x: 0, y: 0 }) }
    }
}

impl DrawingSystem {
    /// Whether `p` lies outside the safe radius around the anchor.
    pub fn is_outside_safe_radius(&self, p: Point) -> (outside: bool)
        ensures
            outside == outside_safe_radius(self@, p),
    {
        match self.anchor {
            None => true,
            Some(a) => {
                let dx: i64 = (p.x as i64) - (a.x as i64);
                let dy: i64 = (p.y as i64) - (a.y as i64);
                let r: i64 = SAFE_RADIUS as i64;
                dx > r || -dx > r || dy > r || -dy > r
            },
        }
    }

    /// Takes what the pointer did in a frame. A button that went down starts
    /// a stroke and sets the anchor. While the button is down and the pointer
    /// is outside the safe radius, a segment is added and the anchor is
    /// given up.
    pub fn update(
        &mut self,
        pointer: &Pointer,
        tone_system: &mut ToneSystem,
        record_system: &mut RecordSystem,
    )
        requires
            old(record_system)@.wf(),
        ensures
            final(self)@ == anchor_after(old(self)@, *pointer),
            final(record_system)@ == history_after(old(record_system)@, old(self)@, *pointer),
            final(record_system)@.wf(),
            stores_segment(old(record_system)@, old(self)@, *pointer)
                ==> final(tone_system).is_dirty(),
            !stores_segment(old(record_system)@, old(self)@, *pointer) ==> *final(tone_system)
                == *old(tone_system),
    {
        if pointer.just_pressed {
            record_system.new_record();
            self.anchor = Some(pointer.position);
        }
        if pointer.pressed && self.is_outside_safe_radius(pointer.position) {
            match self.anchor {
                Some(a) => {
                    record_system.add_line(a, pointer.position, tone_system);
                },
                None => {
                    if pointer.moved {
                        record_system.add_line(pointer.last_position, pointer.position, tone_system);
                    }
                },
            }
            self.anchor = None;
        }
    }
}

/// The mathematical state of a timeline.
#[verifier::ext_equal]
pub struct TimelineState {
    pub history: History,
    /// The anchor of the pointer gesture.
    pub anchor: Option<Point>,
    /// Whether the strokes shown are out of date.
    pub dirty: bool,
    pub playing: bool,
    /// The playing time of the audio being played, in nanoseconds.
    pub duration: int,
    /// The tempo in beats per minute.
    pub bpm: int,
}

impl TimelineState {
    /// Each stroke has its record, and the tempo is not zero.
    pub open spec fn wf(self) -> bool {
        self.history.wf() && self.bpm > 0
    }

    /// Control and Z undo a stroke, with Shift they redo one.
    pub open spec fn update_record_system(self, w: WindowState) -> TimelineState {
        if w.key_pressed(KEY_LEFT_CONTROL as int) && w.key_just_pressed(KEY_Z as int) {
            if w.key_pressed(KEY_LEFT_SHIFT as int) {
                TimelineState {
                    history: self.history.redo(),
                    dirty: self.dirty || self.history.undone.len() > 0,
                    ..self
                }
            } else {
                TimelineState {
                    history: self.history.undo(),
                    dirty: self.dirty || self.history.strokes.len() > 0,
                    ..self
                }
            }
        } else {
            self
        }
    }

    /// Playback stops once the playing time has passed.
    pub open spec fn update_player(self, elapsed: int) -> TimelineState {
        if self.playing && elapsed >= self.duration {
            TimelineState { playing: false, duration: 0, ..self }
        } else {
            self
        }
    }

    /// The pointer gesture feeds the history.
    pub open spec fn update_drawing_system(self, pointer: Pointer) -> TimelineState {
        TimelineState {
            history: history_after(self.history, self.anchor, pointer),
            anchor: anchor_after(self.anchor, pointer),
            dirty: self.dirty || stores_segment(self.history, self.anchor, pointer),
            ..self
        }
    }

    /// Playback starts; the playing time is that of the audio, and stays as
    /// it was where the audio has none.
    pub open spec fn play(self) -> TimelineState {
        TimelineState {
            playing: true,
            duration: match self.audio().duration() {
                Some(d) => d,
                None => self.duration,
            },
            ..self
        }
    }

    /// The audio of the history, about to play.
    pub open spec fn audio(self) -> Mix {
        Mix::fresh(SAMPLE_RATE as int, envelopes(self.history.strokes, self.bpm))
    }
}

/// What is left to do after a frame of the timeline.
pub struct FrameWork {
    /// Whether the playback timer is to start anew.
    pub restart_timer: bool,
    /// The segments to show, where the strokes shown are out of date.
    pub lines: Option<Vec<Line>>,
}

/// The timeline.
pub struct Timeline {
    record_system: RecordSystem,
    drawing_system: DrawingSystem,
    tone_system: ToneSystem,
    playing: bool,
    player_duration: u128,
    player_bpm: u32,
}

impl View for Timeline {
    type V = TimelineState;

    closed spec fn view(&self) -> TimelineState {
        TimelineState {
            history: self.record_system@,
            anchor: self.drawing_system@,
            dirty: self.tone_system.is_dirty(),
            playing: self.playing,
            duration: self.player_duration as int,
            bpm: self.player_bpm as int,
        }
    }
}

impl Default for Timeline {
    /// An empty timeline at 120 beats per minute that does not play.
    fn default() -> (t: Timeline)
        ensures
            t@.wf(),
            t@ == (TimelineState {
                history: History::empty(),
                anchor: Some(Point { x: 0, y: 0 }),
                dirty: false,
                playing: false,
                duration: 0,
                bpm: 120,
            }),
    {
        Timeline {
            record_system: RecordSystem::new(),
            drawing_system: DrawingSystem::default(),
            tone_system: ToneSystem::default(),
            playing: false,
            player_duration: 0,
            player_bpm: 120,
        }
    }
}

impl Timeline {
    /// Undoes or redoes a stroke where the keys ask for it.
    pub fn update_record_system(&mut self, window: &Window)
        requires
            old(self)@.wf(),
        ensures
            final(self)@ == old(self)@.update_record_system(window@),
            final(self)@.wf(),
    {
        if window.is_key_pressed(KEY_LEFT_CONTROL) && window.is_key_just_pressed(KEY_Z) {
            if window.is_key_pressed(KEY_LEFT_SHIFT) {
                self.record_system.redo(&mut self.tone_system);
            } else {
                self.record_system.undo(&mut self.tone_system);
            }
        }
    }

    /// Stops playback once `elapsed` nanoseconds, the time since the
    /// playback timer started, reach the playing time. Returns whether the timer
    /// is to start anew, which is the case while nothing plays.
    pub fn update_player(&mut self, elapsed: u128) -> (restart_timer: bool)
        ensures
            final(self)@ == old(self)@.update_player(elapsed as int),
            old(self)@.wf() ==> final(self)@.wf(),
            restart_timer == !old(self)@.playing,
    {
        if self.playing {
            if elapsed >= self.player_duration {
                self.playing = false;
                self.player_duration = 0;
            }
            false
        } else {
            true
        }
    }

    /// Feeds the pointer gesture of a frame to the history.
    pub fn update_drawing_system(&mut self, pointer: &Pointer)
        requires
            old(self)@.wf(),
        ensures
            final(self)@ == old(self)@.update_drawing_system(*pointer),
            final(self)@.wf(),
    {
        self.drawing_system.update(pointer, &mut self.tone_system, &mut self.record_system);
    }

    /// A frame of the timeline: the keys, the playback timer and the pointer
    /// are looked at in this order, and the segments to show are handed out
    /// where they have changed.
    pub fn update(&mut self, window: &Window, pointer: &Pointer, elapsed: u128) -> (work: FrameWork)
        requires
            old(self)@.wf(),
        ensures
            final(self)@.wf(),
            final(self)@ == (TimelineState {
                dirty: false,
                ..old(self)@.update_record_system(window@).update_player(
                    elapsed as int,
                ).update_drawing_system(*pointer)
            }),
            work.restart_timer == !old(self)@.playing,
            work.lines is Some <==> old(self)@.update_record_system(window@).update_player(
                elapsed as int,
            ).update_drawing_system(*pointer).dirty,
            work.lines matches Some(lines) ==> lines@ == final(self)@.history.strokes.flatten(),
    {
        self.update_record_system(window);
        let restart_timer = self.update_player(elapsed);
        self.update_drawing_system(pointer);
        let lines = self.tone_system.update(&self.record_system);
        FrameWork { restart_timer, lines }
    }

    /// The number of samples in each envelope of the audio.
    pub fn envelope_length(&self) -> (len: u64)
        requires
            self@.wf(),
        ensures
            len == envelope_len(self@.history.strokes, self@.bpm),
    {
        envelope_length(self.record_system.lines(), self.player_bpm)
    }

    /// The audio of the history, about to play.
    pub fn render_audio(&self) -> (source: PlayerSource)
        requires
            self@.wf(),
            envelope_len(self@.history.strokes, self@.bpm) <= usize::MAX,
        ensures
            source@ == self@.audio(),
    {
        render(self.record_system.lines(), self.player_bpm)
    }

    /// Starts playback and returns the audio to play.
    pub fn play(&mut self) -> (source: PlayerSource)
        requires
            old(self)@.wf(),
            envelope_len(old(self)@.history.strokes, old(self)@.bpm) <= usize::MAX,
        ensures
            final(self)@ == old(self)@.play(),
            final(self)@.wf(),
            source@ == old(self)@.audio(),
    {
        let source = self.render_audio();
        self.playing = true;
        match source.total_duration() {
            Some(duration) => {
                self.player_duration = duration;
            },
            None => {},
        }
        source
    }

    pub fn is_playing(&self) -> (playing: bool)
        ensures
            playing == self@.playing,
    {
        self.playing
    }

    /// The playing time of the audio being played, in nanoseconds.
    pub fn player_duration(&self) -> (nanos: u128)
        ensures
            nanos == self@.duration,
    {
        self.player_duration
    }

    /// The tempo in beats per minute.
    pub fn player_bpm(&self) -> (bpm: u32)
        ensures
            bpm == self@.bpm,
    {
        self.player_bpm
    }

    pub fn record_system(&self) -> (r: &RecordSystem)
        ensures
            r@ == self@.history,
    {
        &self.record_system
    }
}

} // verus!
