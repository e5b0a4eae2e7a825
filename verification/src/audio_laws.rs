//! What holds of every envelope and every mix, proved over their mathematical
//! state.

use vstd::prelude::*;
use crate::geometry::{Line, ONE};
use crate::audio::{
    AMPLITUDE, Mix, PITCH_OFFSET, Tone, Voice, any_has_next, covers, early_end, envelope,
    envelope_len, envelopes, glide, late_end, latest, lemma_latest_not_negative, longest, pitch_at,
    sample_position, silent, time_position, tone_of,
};

verus! {

/// An envelope has the length asked for.
pub proof fn law_envelope_length(stroke: Seq<Line>, bpm: int, len: nat)
    ensures
        envelope(stroke, bpm, len).len() == len,
    decreases stroke.len(),
{
    if stroke.len() > 0 {
        law_envelope_length(stroke.drop_last(), bpm, len);
    }
}

/// A sample that lies within no segment of the stroke is silent.
pub proof fn law_uncovered_sample_is_silent(stroke: Seq<Line>, bpm: int, len: nat, i: int)
    requires
        0 <= i < len,
        forall|g: int| 0 <= g < stroke.len() ==> !covers(#[trigger] stroke[g], bpm, i),
    ensures
        envelope(stroke, bpm, len)[i] == silent(),
    decreases stroke.len(),
{
    if stroke.len() > 0 {
        let rest = stroke.drop_last();
        assert forall|g: int| 0 <= g < rest.len() implies !covers(#[trigger] rest[g], bpm, i) by {
            assert(rest[g] == stroke[g]);
        }
        law_uncovered_sample_is_silent(rest, bpm, len, i);
        law_envelope_length(rest, bpm, len);
        assert(!covers(stroke[stroke.len() - 1], bpm, i));
    }
}

/// A sample that lies within a segment takes the tone of the segment drawn
/// last among those it lies within, at the fixed amplitude.
pub proof fn law_covered_sample_sounds(stroke: Seq<Line>, bpm: int, len: nat, i: int, g: int)
    requires
        0 <= i < len,
        0 <= g < stroke.len(),
        covers(stroke[g], bpm, i),
        forall|h: int| g < h < stroke.len() ==> !covers(#[trigger] stroke[h], bpm, i),
    ensures
        envelope(stroke, bpm, len)[i] == tone_of(stroke[g], bpm, i),
        envelope(stroke, bpm, len)[i].amplitude == AMPLITUDE,
    decreases stroke.len(),
{
    let rest = stroke.drop_last();
    law_envelope_length(rest, bpm, len);
    if g < stroke.len() - 1 {
        assert(rest[g] == stroke[g]);
        assert forall|h: int| g < h < rest.len() implies !covers(#[trigger] rest[h], bpm, i) by {
            assert(rest[h] == stroke[h]);
        }
        law_covered_sample_sounds(rest, bpm, len, i, g);
        assert(!covers(stroke[stroke.len() - 1], bpm, i));
    }
}

/// A segment drawn at one pitch sounds at that pitch throughout.
pub proof fn law_flat_segment_has_one_pitch(l: Line, bpm: int, i: int)
    requires
        l.start.y == l.end.y,
    ensures
        pitch_at(l, bpm, i) == l.start.y + PITCH_OFFSET,
{
    let num = sample_position(i, bpm) - time_position(early_end(l).x as int);
    let den = time_position(late_end(l).x as int) - time_position(early_end(l).x as int);
    if den > 0 {
        assert((0 * num) / den == 0) by (nonlinear_arith)
            requires
                den > 0,
        ;
    }
    assert(glide(l.start.y as int, l.start.y as int, num, den) == l.start.y);
}

/// The envelopes of a history are as many as its strokes and all of one
/// length; a history without a segment has none.
pub proof fn law_envelopes_shape(strokes: Seq<Seq<Line>>, bpm: int, s: int)
    requires
        bpm > 0,
    ensures
        strokes.flatten().len() == 0 ==> envelopes(strokes, bpm).len() == 0,
        strokes.flatten().len() > 0 ==> envelopes(strokes, bpm).len() == strokes.len()
            && envelope_len(strokes, bpm) >= 1,
        0 <= s < envelopes(strokes, bpm).len() ==> envelopes(strokes, bpm)[s].len()
            == envelope_len(strokes, bpm),
{
    if strokes.flatten().len() > 0 {
        lemma_latest_not_negative(strokes.flatten());
        let top = time_position(latest(strokes.flatten()));
        let d = bpm * (ONE as int);
        assert(top / d >= 0) by (nonlinear_arith)
            requires
                top >= 0,
                d > 0,
        ;
        if 0 <= s < strokes.len() {
            law_envelope_length(strokes[s], bpm, envelope_len(strokes, bpm) as nat);
        }
    }
}

/// The voice after `k` requests for its next tone.
pub open spec fn advanced(v: Voice, k: nat) -> Voice
    decreases k,
{
    if k == 0 {
        v
    } else {
        advanced(v, (k - 1) as nat).advance()
    }
}

/// A voice hands out each sample of its envelope once and in order: after `k`
/// requests, `k` not above the envelope's length, the cursor is at `k`, the
/// tone handed out last is sample `k - 1`, and the voice has a tone left
/// exactly if `k` is below the length. The request after the last sample
/// ends the voice.
pub proof fn law_voice_plays_every_sample(samples: Seq<Tone>, k: nat)
    requires
        k <= samples.len(),
    ensures
        advanced(Voice::fresh(samples), k).cursor == k,
        advanced(Voice::fresh(samples), k).samples == samples,
        !advanced(Voice::fresh(samples), k).ended,
        advanced(Voice::fresh(samples), k).has_next() <==> k < samples.len(),
        k > 0 ==> advanced(Voice::fresh(samples), k).last_tone() == Some(samples[k - 1]),
        advanced(Voice::fresh(samples), samples.len() + 1).ended,
        advanced(Voice::fresh(samples), samples.len() + 1).last_tone() is None,
{
    lemma_voice_cursor(samples, k);
    lemma_voice_cursor(samples, samples.len());
    assert(advanced(Voice::fresh(samples), samples.len() + 1) == advanced(
        Voice::fresh(samples),
        samples.len(),
    ).advance());
}

/// While samples are left, each request moves the cursor by one.
proof fn lemma_voice_cursor(samples: Seq<Tone>, k: nat)
    requires
        k <= samples.len(),
    ensures
        advanced(Voice::fresh(samples), k) == (Voice { samples, cursor: k as int, ended: false }),
    decreases k,
{
    if k > 0 {
        lemma_voice_cursor(samples, (k - 1) as nat);
    }
}

/// A mix reports its end exactly when no voice has a tone left, and a mix
/// without voices ends at once.
pub proof fn law_mix_ends_with_its_voices(m: Mix)
    ensures
        m.frame() is None <==> !any_has_next(m.voices),
        m.voices.len() == 0 ==> m.frame() is None,
        m.advance().voices.len() == m.voices.len(),
        m.advance().sample_rate == m.sample_rate,
{
}

/// The longest envelope is at least as long as each envelope, and as long as
/// one of them.
pub proof fn law_longest_bounds(voices: Seq<Voice>, k: int)
    ensures
        0 <= k < voices.len() ==> voices[k].samples.len() <= longest(voices),
        longest(voices) >= 0,
        voices.len() > 0 ==> exists|j: int|
            0 <= j < voices.len() && (#[trigger] voices[j]).samples.len() == longest(voices),
    decreases voices.len(),
{
    if voices.len() > 0 {
        let rest = voices.drop_last();
        law_longest_bounds(rest, k);
        if 0 <= k < rest.len() {
            assert(rest[k] == voices[k]);
        }
        if voices.last().samples.len() >= longest(rest) {
            assert(voices[voices.len() - 1].samples.len() == longest(voices));
        } else {
            let j = choose|j: int|
                0 <= j < rest.len() && (#[trigger] rest[j]).samples.len() == longest(rest);
            assert(voices[j] == rest[j]);
        }
    }
}

/// The audio of a history with a segment plays for the envelope length
/// divided by the sample rate; the audio of a history without one has no
/// playing time.
pub proof fn law_rendered_duration(strokes: Seq<Seq<Line>>, bpm: int, sample_rate: int)
    requires
        bpm > 0,
    ensures
        strokes.flatten().len() == 0 ==> Mix::fresh(sample_rate, envelopes(strokes, bpm)).duration()
            is None,
        strokes.flatten().len() > 0 ==> Mix::fresh(sample_rate, envelopes(strokes, bpm)).duration()
            == Some(envelope_len(strokes, bpm) * 1000000000 / sample_rate),
{
    let m = Mix::fresh(sample_rate, envelopes(strokes, bpm));
    law_envelopes_shape(strokes, bpm, 0);
    if strokes.flatten().len() > 0 {
        if strokes.len() == 0 {
            assert(strokes.flatten() =~= Seq::<Line>::empty());
        }
        law_longest_bounds(m.voices, 0);
        let j = choose|j: int|
            0 <= j < m.voices.len() && (#[trigger] m.voices[j]).samples.len() == longest(m.voices);
        law_envelopes_shape(strokes, bpm, j);
    }
}

} // verus!
