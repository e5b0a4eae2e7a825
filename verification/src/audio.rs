//! From strokes to tones: each stroke becomes an envelope that holds, for
//! every audio sample, the pitch the stroke has at that time and how loud it
//! sounds there.

use vstd::prelude::*;
use crate::geometry::{Line, ONE, Point};
use crate::history::{flatten_lines, strokes_of};

verus! {

/// Audio samples per second.
pub const SAMPLE_RATE: u32 = 44100;

/// Audio samples per minute.
pub const SAMPLES_PER_MINUTE: u64 = 2646000;

/// The amplitude of a sounding sample, `0.33` in units of `1 / ONE`.
pub const AMPLITUDE: i32 = 21627;

/// What is added to a drawn pitch before it is turned into a frequency: half
/// a row, so that a row sounds at its centre, and the three semitones between
/// row zero and the reference pitch. In units of `1 / ONE`.
pub const PITCH_OFFSET: i32 = 229376;

/// What a stroke contributes to one audio sample.
#[derive(Clone, Copy, PartialEq, Eq, Debug, Structural)]
pub struct Tone {
    /// The pitch in semitones above the reference pitch of 440 Hz, in units of
    /// `1 / ONE`. It means nothing where the amplitude is zero.
    pub pitch: i64,
    /// The amplitude in units of `1 / ONE`; zero is silence.
    pub amplitude: i32,
}

/// Silence.
pub open spec fn silent() -> Tone {
    Tone { pitch: 0, amplitude: 0 }
}

/// The place of a time on the common scale of times and samples.
pub open spec fn time_position(x: int) -> int {
    x * (SAMPLES_PER_MINUTE as int)
}

/// The place of a sample on the common scale of times and samples, at a tempo
/// of `bpm` beats per minute.
pub open spec fn sample_position(i: int, bpm: int) -> int {
    i * (bpm * (ONE as int))
}

/// Whether the time of sample `i` lies within the segment.
pub open spec fn covers(l: Line, bpm: int, i: int) -> bool {
    time_position(l.lo()) <= sample_position(i, bpm) <= time_position(l.hi())
}

/// The end of a segment that comes first in time.
pub open spec fn early_end(l: Line) -> Point {
    if l.start.x < l.end.x {
        l.start
    } else {
        l.end
    }
}

/// The end of a segment that comes last in time.
pub open spec fn late_end(l: Line) -> Point {
    if l.start.x > l.end.x {
        l.start
    } else {
        l.end
    }
}

/// The value `num / den` of the way from `from` to `to`, rounded toward
/// `from`. Where `den` is zero the value is `from`.
pub open spec fn glide(from: int, to: int, num: int, den: int) -> int {
    if den > 0 {
        if to >= from {
            from + ((to - from) * num) / den
        } else {
            from - ((from - to) * num) / den
        }
    } else {
        from
    }
}

/// The pitch of a segment at the time of sample `i`: the drawn pitch, taken
/// on the straight line between the two ends, plus [`PITCH_OFFSET`]. A
/// segment that spans no time has the pitch of its end point.
pub open spec fn pitch_at(l: Line, bpm: int, i: int) -> int {
    glide(
        early_end(l).y as int,
        late_end(l).y as int,
        sample_position(i, bpm) - time_position(early_end(l).x as int),
        time_position(late_end(l).x as int) - time_position(early_end(l).x as int),
    ) + PITCH_OFFSET
}

/// The tone of a segment at sample `i`.
pub open spec fn tone_of(l: Line, bpm: int, i: int) -> Tone {
    Tone { pitch: pitch_at(l, bpm, i) as i64, amplitude: AMPLITUDE }
}

/// An envelope after a segment was laid over it: the samples within the
/// segment take its tone, the others stay.
pub open spec fn overlay(envelope: Seq<Tone>, l: Line, bpm: int) -> Seq<Tone> {
    Seq::new(
        envelope.len(),
        |i: int| if covers(l, bpm, i) { tone_of(l, bpm, i) } else { envelope[i] },
    )
}

/// The envelope of a stroke: silence with the segments laid over it in the
/// order they were drawn.
pub open spec fn envelope(stroke: Seq<Line>, bpm: int, len: nat) -> Seq<Tone>
    decreases stroke.len(),
{
    if stroke.len() == 0 {
        Seq::new(len, |i: int| silent())
    } else {
        overlay(envelope(stroke.drop_last(), bpm, len), stroke.last(), bpm)
    }
}

/// The latest time that any of the segments touches, and zero if that is
/// later.
pub open spec fn latest(lines: Seq<Line>) -> int
    decreases lines.len(),
{
    if lines.len() == 0 {
        0
    } else if lines.last().hi() >= latest(lines.drop_last()) {
        lines.last().hi()
    } else {
        latest(lines.drop_last())
    }
}

/// The number of samples in each envelope of a history: none without a
/// segment; otherwise the samples up to the latest time drawn, and one more.
pub open spec fn envelope_len(strokes: Seq<Seq<Line>>, bpm: int) -> int {
    if strokes.flatten().len() == 0 {
        0
    } else {
        time_position(latest(strokes.flatten())) / (bpm * (ONE as int)) + 1
    }
}

/// The envelopes of a history, one for each stroke.
pub open spec fn envelopes(strokes: Seq<Seq<Line>>, bpm: int) -> Seq<Seq<Tone>> {
    if envelope_len(strokes, bpm) <= 0 {
        Seq::empty()
    } else {
        Seq::new(
            strokes.len(),
            |s: int| envelope(strokes[s], bpm, envelope_len(strokes, bpm) as nat),
        )
    }
}

/// The samples within a segment are those from the first sample at or after
/// its earliest time to the last sample at or before its latest time.
pub proof fn lemma_cover_range(l: Line, bpm: int, i: int)
    requires
        bpm > 0,
        0 <= i,
    ensures
        covers(l, bpm, i) <==> {
            &&& l.hi() >= 0
            &&& i <= time_position(l.hi()) / (bpm * (ONE as int))
            &&& (l.lo() > 0 ==> i >= (time_position(l.lo()) + bpm * (ONE as int) - 1) / (bpm * (
                ONE as int)))
        },
{
    let d = bpm * (ONE as int);
    let hi = time_position(l.hi());
    let lo = time_position(l.lo());
    assert(d > 0);
    assert(sample_position(i, bpm) == i * d);
    assert(0 <= i * d) by (nonlinear_arith)
        requires
            0 <= i,
            d > 0,
    ;
    if l.hi() >= 0 {
        assert(hi >= 0);
        assert(i <= hi / d <==> i * d <= hi) by (nonlinear_arith)
            requires
                d > 0,
                hi >= 0,
                i >= 0,
        ;
    } else {
        assert(hi < 0);
    }
    if l.lo() > 0 {
        assert(lo > 0);
        assert(i >= (lo + d - 1) / d <==> i * d >= lo) by (nonlinear_arith)
            requires
                d > 0,
                lo > 0,
                i >= 0,
        ;
    } else {
        assert(lo <= 0);
    }
}

/// Between its ends a segment's pitch stays between the pitches of the ends.
pub proof fn lemma_glide_between(from: int, to: int, num: int, den: int)
    requires
        0 <= num <= den,
    ensures
        from <= glide(from, to, num, den) <= to || to <= glide(from, to, num, den) <= from,
        num == 0 ==> glide(from, to, num, den) == from,
        den > 0 && num == den ==> glide(from, to, num, den) == to,
{
    if den > 0 {
        let w = if to >= from { to - from } else { from - to };
        assert(0 <= (w * num) / den <= w) by (nonlinear_arith)
            requires
                0 <= num <= den,
                den > 0,
                w >= 0,
        ;
        if num == 0 {
            assert((w * num) / den == 0) by (nonlinear_arith)
                requires
                    num == 0,
                    den > 0,
            ;
        }
        if num == den {
            assert((w * num) / den == w) by (nonlinear_arith)
                requires
                    num == den,
                    den > 0,
            ;
        }
    }
}

/// The pitch of a segment at a sample that lies within it.
pub fn segment_pitch(line: &Line, bpm: u32, i: u64) -> (pitch: i64)
    requires
        bpm > 0,
        covers(*line, bpm as int, i as int),
    ensures
        pitch == pitch_at(*line, bpm as int, i as int),
{
    let early: Point = if line.start.x < line.end.x { line.start } else { line.end };
    let late: Point = if line.start.x > line.end.x { line.start } else { line.end };
    let unit: i128 = (bpm as i128) * 65536;
    let per_minute: i128 = 2646000;
    proof {
        assert(early == early_end(*line));
        assert(late == late_end(*line));
        assert(early.x == line.lo());
        assert(late.x == line.hi());
        assert(-0x8000_0000 * 2646000 <= early.x * 2646000 <= 0x8000_0000 * 2646000);
        assert(-0x8000_0000 * 2646000 <= late.x * 2646000 <= 0x8000_0000 * 2646000);
        assert(sample_position(i as int, bpm as int) == i * unit);
    }
    let lo: i128 = (early.x as i128) * per_minute;
    let hi: i128 = (late.x as i128) * per_minute;
    let at: i128 = (i as i128) * unit;
    let num: i128 = at - lo;
    let den: i128 = hi - lo;
    let from: i128 = early.y as i128;
    let to: i128 = late.y as i128;
    proof {
        lemma_glide_between(from as int, to as int, num as int, den as int);
    }
    if den > 0 {
        if to >= from {
            let width: i128 = to - from;
            proof {
                assert(0 <= width * num <= 0x1_0000_0000 * den) by (nonlinear_arith)
                    requires
                        0 <= width <= 0x1_0000_0000,
                        0 <= num <= den,
                ;
            }
            (from + (width * num) / den + 229376) as i64
        } else {
            let width: i128 = from - to;
            proof {
                assert(0 <= width * num <= 0x1_0000_0000 * den) by (nonlinear_arith)
                    requires
                        0 <= width <= 0x1_0000_0000,
                        0 <= num <= den,
                ;
            }
            (from - (width * num) / den + 229376) as i64
        }
    } else {
        (from + 229376) as i64
    }
}

/// Lays a segment over an envelope: every sample within the segment takes
/// the segment's tone.
pub fn lay_segment(samples: &mut Vec<Tone>, line: &Line, bpm: u32)
    requires
        bpm > 0,
    ensures
        final(samples)@ == overlay(old(samples)@, *line, bpm as int),
{
    let ghost before = samples@;
    let lo: i32 = line.earliest();
    let hi: i32 = line.latest();
    if hi < 0 || samples.len() == 0 {
        proof {
            assert forall|i: int| 0 <= i < before.len() implies !covers(*line, bpm as int, i) by {
                lemma_cover_range(*line, bpm as int, i);
            }
            assert(samples@ =~= overlay(before, *line, bpm as int));
        }
        return ;
    }
    let unit: u64 = (bpm as u64) * 65536;
    let first: u64 = if lo <= 0 {
        0
    } else {
        ((lo as u64) * 2646000 + unit - 1) / unit
    };
    let last: u64 = ((hi as u64) * 2646000) / unit;
    let count: u64 = samples.len() as u64;
    proof {
        assert forall|i: int| 0 <= i < before.len() implies (covers(*line, bpm as int, i) <==> first
            <= i <= last) by {
            lemma_cover_range(*line, bpm as int, i);
        }
    }
    let mut i: u64 = first;
    while i <= last && i < count
        invariant
            bpm > 0,
            first <= i,
            i == first || i <= last + 1,
            count == samples.len(),
            samples.len() == before.len(),
            last < u64::MAX,
            forall|j: int|
                0 <= j < before.len() ==> (covers(*line, bpm as int, j) <==> first <= j <= last),
            forall|j: int|
                0 <= j < before.len() ==> #[trigger] samples@[j] == if first <= j < i {
                    tone_of(*line, bpm as int, j)
                } else {
                    before[j]
                },
        decreases count - i,
    {
        let pitch: i64 = segment_pitch(line, bpm, i);
        samples.set(i as usize, Tone { pitch, amplitude: AMPLITUDE });
        i += 1;
    }
    proof {
        let laid = overlay(before, *line, bpm as int);
        assert forall|j: int| 0 <= j < before.len() implies samples@[j] == laid[j] by {
            assert(covers(*line, bpm as int, j) <==> first <= j <= last);
            assert(first <= j <= last <==> first <= j < i);
        }
        assert(samples@ =~= laid);
    }
}

/// The envelope of a stroke with `len` samples.
pub fn stroke_envelope(stroke: &Vec<Line>, bpm: u32, len: usize) -> (samples: Vec<Tone>)
    requires
        bpm > 0,
    ensures
        samples@ == envelope(stroke@, bpm as int, len as nat),
{
    let mut samples: Vec<Tone> = vec![Tone { pitch: 0, amplitude: 0 }; len];
    assert(samples@ =~= envelope(stroke@.take(0), bpm as int, len as nat));
    let mut g: usize = 0;
    while g < stroke.len()
        invariant
            bpm > 0,
            g <= stroke.len(),
            samples@ == envelope(stroke@.take(g as int), bpm as int, len as nat),
        decreases stroke.len() - g,
    {
        lay_segment(&mut samples, &stroke[g], bpm);
        proof {
            let next = stroke@.take(g + 1);
            assert(next.drop_last() =~= stroke@.take(g as int));
            assert(next.last() == stroke@[g as int]);
        }
        g += 1;
    }
    assert(stroke@.take(g as int) =~= stroke@);
    samples
}

/// The latest time that any of the segments touches, and zero if that is
/// later.
pub fn latest_time(lines: &Vec<Line>) -> (x: i32)
    ensures
        x == latest(lines@),
{
    let mut x: i32 = 0;
    let mut g: usize = 0;
    while g < lines.len()
        invariant
            g <= lines.len(),
            x == latest(lines@.take(g as int)),
        decreases lines.len() - g,
    {
        proof {
            let next = lines@.take(g + 1);
            assert(next.drop_last() =~= lines@.take(g as int));
            assert(next.last() == lines@[g as int]);
        }
        let hi: i32 = lines[g].latest();
        if hi >= x {
            x = hi;
        }
        g += 1;
    }
    assert(lines@.take(g as int) =~= lines@);
    x
}

/// No time lies before zero on the scale of [`latest`].
pub proof fn lemma_latest_not_negative(lines: Seq<Line>)
    ensures
        0 <= latest(lines) <= i32::MAX,
    decreases lines.len(),
{
    if lines.len() > 0 {
        lemma_latest_not_negative(lines.drop_last());
    }
}

/// The mathematical state of one voice: the envelope of a stroke and how far
/// it has been played.
pub struct Voice {
    pub samples: Seq<Tone>,
    /// The number of tones handed out so far.
    pub cursor: int,
    /// Whether the voice has reported its end.
    pub ended: bool,
}

impl Voice {
    pub open spec fn fresh(samples: Seq<Tone>) -> Voice {
        Voice { samples, cursor: 0, ended: false }
    }

    /// Whether the voice has a tone left to hand out.
    pub open spec fn has_next(self) -> bool {
        !self.ended && 0 <= self.cursor < self.samples.len()
    }

    /// The voice after it was asked for its next tone.
    pub open spec fn advance(self) -> Voice {
        if self.has_next() {
            Voice { cursor: self.cursor + 1, ..self }
        } else {
            Voice { ended: true, ..self }
        }
    }

    /// The tone handed out last, unless the voice has ended or not begun.
    pub open spec fn last_tone(self) -> Option<Tone> {
        if !self.ended && 0 < self.cursor <= self.samples.len() {
            Some(self.samples[self.cursor - 1])
        } else {
            None
        }
    }

    /// The amplitude of the tone handed out last, and zero without one.
    pub open spec fn last_amplitude(self) -> int {
        match self.last_tone() {
            Some(tone) => tone.amplitude as int,
            None => 0,
        }
    }
}

/// The envelope of one stroke with a cursor that hands out its tones one by
/// one.
pub struct ToneSamples {
    samples: Vec<Tone>,
    i: usize,
    ended: bool,
}

impl View for ToneSamples {
    type V = Voice;

    closed spec fn view(&self) -> Voice {
        Voice { samples: self.samples@, cursor: self.i as int, ended: self.ended }
    }
}

impl ToneSamples {
    pub fn new(samples: Vec<Tone>) -> (t: ToneSamples)
        ensures
            t@ == Voice::fresh(samples@),
    {
        ToneSamples { samples, i: 0, ended: false }
    }

    /// The amplitude of the tone handed out last, and zero if the voice has
    /// ended or not begun.
    pub fn last_amplitude(&self) -> (amplitude: i32)
        ensures
            amplitude == self@.last_amplitude(),
    {
        match self.last_tone() {
            Some(tone) => tone.amplitude,
            None => 0,
        }
    }

    /// The tone handed out last, unless the voice has ended or not begun.
    pub fn last_tone(&self) -> (tone: Option<Tone>)
        ensures
            tone == self@.last_tone(),
    {
        if !self.ended && 0 < self.i && self.i <= self.samples.len() {
            Some(self.samples[self.i - 1])
        } else {
            None
        }
    }

    /// Hands out the tone at the cursor and moves the cursor on. Once the
    /// cursor has reached the end of the envelope, reports the end instead.
    pub fn next(&mut self) -> (tone: Option<Tone>)
        ensures
            final(self)@ == old(self)@.advance(),
            tone == if old(self)@.has_next() {
                Some(old(self)@.samples[old(self)@.cursor])
            } else {
                None
            },
            tone == final(self)@.last_tone(),
    {
        if !self.ended && self.i < self.samples.len() {
            let tone = self.samples[self.i];
            self.i += 1;
            Some(tone)
        } else {
            self.ended = true;
            None
        }
    }

    /// The number of tones in the envelope.
    pub fn len(&self) -> (n: usize)
        ensures
            n == self@.samples.len(),
    {
        self.samples.len()
    }
}

/// The voices held by a vector of envelopes with cursors.
pub open spec fn voices_of(v: Seq<ToneSamples>) -> Seq<Voice> {
    Seq::new(v.len(), |k: int| v[k]@)
}

/// The sum of the amplitudes of the tones that the voices handed out last.
pub open spec fn amplitude_sum(voices: Seq<Voice>) -> int
    decreases voices.len(),
{
    if voices.len() == 0 {
        0
    } else {
        amplitude_sum(voices.drop_last()) + voices.last().last_amplitude()
    }
}

/// Whether one of the voices has a tone left to hand out.
pub open spec fn any_has_next(voices: Seq<Voice>) -> bool {
    exists|k: int| 0 <= k < voices.len() && (#[trigger] voices[k]).has_next()
}

/// The number of samples of the longest envelope, zero without voices.
pub open spec fn longest(voices: Seq<Voice>) -> int
    decreases voices.len(),
{
    if voices.len() == 0 {
        0
    } else if voices.last().samples.len() >= longest(voices.drop_last()) {
        voices.last().samples.len() as int
    } else {
        longest(voices.drop_last())
    }
}

/// The mathematical state of a mix of voices.
#[verifier::ext_equal]
pub struct Mix {
    pub sample_rate: int,
    pub voices: Seq<Voice>,
}

impl Mix {
    /// The mix that is about to play the given envelopes from their start.
    pub open spec fn fresh(sample_rate: int, envelopes: Seq<Seq<Tone>>) -> Mix {
        Mix {
            sample_rate,
            voices: Seq::new(envelopes.len(), |k: int| Voice::fresh(envelopes[k])),
        }
    }

    /// The mix after every voice was asked for its next tone.
    pub open spec fn advance(self) -> Mix {
        Mix {
            sample_rate: self.sample_rate,
            voices: Seq::new(self.voices.len(), |k: int| self.voices[k].advance()),
        }
    }

    /// What the next frame reports: the end once no voice has a tone left,
    /// and otherwise the summed amplitude of the tones of the frame.
    pub open spec fn frame(self) -> Option<int> {
        if any_has_next(self.voices) {
            Some(amplitude_sum(self.advance().voices))
        } else {
            None
        }
    }

    /// The playing time of the longest envelope in nanoseconds, rounded down;
    /// nothing where no envelope has a sample.
    pub open spec fn duration(self) -> Option<int> {
        if longest(self.voices) == 0 {
            None
        } else {
            Some(longest(self.voices) * 1000000000 / self.sample_rate)
        }
    }
}

/// The source of the mixed audio: one voice for each stroke, all played in
/// step.
pub struct PlayerSource {
    sample_rate: u32,
    tones_samples: Vec<ToneSamples>,
}

impl View for PlayerSource {
    type V = Mix;

    closed spec fn view(&self) -> Mix {
        Mix { sample_rate: self.sample_rate as int, voices: voices_of(self.tones_samples@) }
    }
}

impl PlayerSource {
    #[verifier::type_invariant]
    spec fn positive_rate(self) -> bool {
        self.sample_rate > 0
    }

    pub fn new(tones_samples: Vec<ToneSamples>, sample_rate: u32) -> (source: PlayerSource)
        requires
            sample_rate > 0,
        ensures
            source@.sample_rate == sample_rate,
            source@.voices == voices_of(tones_samples@),
    {
        PlayerSource { sample_rate, tones_samples }
    }

    /// Moves every voice on by one sample. Reports the end once no voice had
    /// a tone left, and otherwise the summed amplitude of the tones of this
    /// frame, by whose square root the mixed sample is divided.
    pub fn next(&mut self) -> (amplitude: Option<i128>)
        ensures
            final(self)@ == old(self)@.advance(),
            match amplitude {
                Some(sum) => old(self)@.frame() == Some(sum as int),
                None => old(self)@.frame() is None,
            },
    {
        proof {
            use_type_invariant(&*self);
        }
        let ghost before = self@.voices;
        let mut sum: i128 = 0;
        let mut any: bool = false;
        let mut k: usize = 0;
        let n: usize = self.tones_samples.len();
        while k < n
            invariant
                k <= n,
                n == self.tones_samples.len(),
                n == before.len(),
                self.sample_rate == old(self).sample_rate,
                self.sample_rate > 0,
                forall|j: int| 0 <= j < k ==> (#[trigger] self.tones_samples[j])@ == before[j].advance(),
                forall|j: int| k <= j < n ==> (#[trigger] self.tones_samples[j])@ == before[j],
                sum == amplitude_sum(before.take(k as int).map_values(|v: Voice| v.advance())),
                -0x8000_0000 * k <= sum <= 0x8000_0000 * k,
                any == any_has_next(before.take(k as int)),
            decreases n - k,
        {
            let tone = self.tones_samples[k].next();
            proof {
                let done = before.take(k as int);
                let next = before.take(k + 1);
                assert(next.drop_last() =~= done);
                assert(next.last() == before[k as int]);
                assert(next.map_values(|v: Voice| v.advance()).drop_last() =~= done.map_values(
                    |v: Voice| v.advance(),
                ));
                assert(next.map_values(|v: Voice| v.advance()).last() == before[k as int].advance());
                if any_has_next(done) {
                    let j = choose|j: int| 0 <= j < done.len() && (#[trigger] done[j]).has_next();
                    assert(next[j].has_next());
                }
                if before[k as int].has_next() {
                    assert(next[k as int].has_next());
                }
                if any_has_next(next) {
                    let j = choose|j: int| 0 <= j < next.len() && (#[trigger] next[j]).has_next();
                    if j < k {
                        assert(done[j].has_next());
                    }
                }
            }
            match tone {
                Some(t) => {
                    any = true;
                    sum = sum + (t.amplitude as i128);
                },
                None => {},
            }
            k += 1;
        }
        proof {
            assert(before.take(k as int) =~= before);
            assert(before.map_values(|v: Voice| v.advance()) =~= old(self)@.advance().voices);
            assert(self@.voices =~= old(self)@.advance().voices);
        }
        if any {
            Some(sum)
        } else {
            None
        }
    }

    /// The source has one channel.
    pub fn channels(&self) -> (n: u16)
        ensures
            n == 1,
    {
        1
    }

    pub fn sample_rate(&self) -> (rate: u32)
        ensures
            rate == self@.sample_rate,
            rate > 0,
    {
        proof {
            use_type_invariant(self);
        }
        self.sample_rate
    }

    /// The source does not say how many samples come before its parameters
    /// change, since they never do.
    pub fn current_frame_len(&self) -> (len: Option<usize>)
        ensures
            len is None,
    {
        None
    }

    /// The number of samples of the longest envelope.
    pub fn total_samples(&self) -> (count: usize)
        ensures
            count == longest(self@.voices),
    {
        let mut count: usize = 0;
        let mut k: usize = 0;
        while k < self.tones_samples.len()
            invariant
                k <= self.tones_samples.len(),
                count == longest(self@.voices.take(k as int)),
            decreases self.tones_samples.len() - k,
        {
            proof {
                let next = self@.voices.take(k + 1);
                assert(next.drop_last() =~= self@.voices.take(k as int));
                assert(next.last() == self.tones_samples[k as int]@);
            }
            let len: usize = self.tones_samples[k].len();
            if len >= count {
                count = len;
            }
            k += 1;
        }
        assert(self@.voices.take(k as int) =~= self@.voices);
        count
    }

    /// The playing time in nanoseconds: that of the longest envelope, rounded
    /// down. There is none where no envelope has a sample.
    pub fn total_duration(&self) -> (nanos: Option<u128>)
        ensures
            match nanos {
                Some(d) => self@.duration() == Some(d as int),
                None => self@.duration() is None,
            },
    {
        proof {
            use_type_invariant(self);
        }
        let count: usize = self.total_samples();
        if count == 0 {
            return None;
        }
        let scaled: u128 = (count as u128) * 1000000000;
        Some(scaled / (self.sample_rate as u128))
    }

    /// The number of voices.
    pub fn voice_count(&self) -> (n: usize)
        ensures
            n == self@.voices.len(),
    {
        self.tones_samples.len()
    }

    /// The voice of stroke `k`.
    pub fn voice(&self, k: usize) -> (voice: &ToneSamples)
        requires
            k < self@.voices.len(),
        ensures
            voice@ == self@.voices[k as int],
    {
        &self.tones_samples[k]
    }
}

/// The number of samples in each envelope of a history at the given tempo.
pub fn envelope_length(strokes: &Vec<Vec<Line>>, bpm: u32) -> (len: u64)
    requires
        bpm > 0,
    ensures
        len == envelope_len(strokes_of(strokes@), bpm as int),
{
    let lines = flatten_lines(strokes);
    if lines.len() == 0 {
        0
    } else {
        let top: i32 = latest_time(&lines);
        proof {
            lemma_latest_not_negative(lines@);
        }
        ((top as u64) * 2646000) / ((bpm as u64) * 65536) + 1
    }
}

/// Turns a history into the source of its audio: one voice for each stroke,
/// each with the envelope of its stroke, all of the same length and at their
/// start. A history without a segment gives a source without voices.
pub fn render(strokes: &Vec<Vec<Line>>, bpm: u32) -> (source: PlayerSource)
    requires
        bpm > 0,
        envelope_len(strokes_of(strokes@), bpm as int) <= usize::MAX,
    ensures
        source@ == Mix::fresh(SAMPLE_RATE as int, envelopes(strokes_of(strokes@), bpm as int)),
{
    let ghost all = strokes_of(strokes@);
    let mut tones_samples: Vec<ToneSamples> = Vec::new();
    let length: u64 = envelope_length(strokes, bpm);
    if length > 0 {
        let len: usize = length as usize;
        let mut s: usize = 0;
        while s < strokes.len()
            invariant
                bpm > 0,
                s <= strokes.len(),
                all == strokes_of(strokes@),
                len == envelope_len(all, bpm as int),
                tones_samples.len() == s,
                forall|k: int|
                    0 <= k < s ==> (#[trigger] tones_samples[k])@ == Voice::fresh(
                        envelope(all[k], bpm as int, len as nat),
                    ),
            decreases strokes.len() - s,
        {
            let samples = stroke_envelope(&strokes[s], bpm, len);
            tones_samples.push(ToneSamples::new(samples));
            s += 1;
        }
    }
    let source = PlayerSource::new(tones_samples, SAMPLE_RATE);
    assert(source@ =~= Mix::fresh(SAMPLE_RATE as int, envelopes(all, bpm as int)));
    source
}

} // verus!
