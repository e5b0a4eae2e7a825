use note_painter::audio::{
    envelope_length, latest_time, lay_segment, render, segment_pitch, stroke_envelope,
    PlayerSource, Tone, ToneSamples, AMPLITUDE, PITCH_OFFSET, SAMPLES_PER_MINUTE, SAMPLE_RATE,
};
use note_painter::geometry::{Line, Point, ONE};
use note_painter::history::{RecordSystem, ToneSystem};

fn fixed(v: f64) -> i32 {
    (v * ONE as f64).round() as i32
}

fn line(x0: f64, y0: f64, x1: f64, y1: f64) -> Line {
    Line::new(Point::new(fixed(x0), fixed(y0)), Point::new(fixed(x1), fixed(y1)))
}

const SILENT: Tone = Tone { pitch: 0, amplitude: 0 };

#[test]
fn constants_agree() {
    assert_eq!(SAMPLES_PER_MINUTE, 60 * SAMPLE_RATE as u64);
    assert_eq!(AMPLITUDE, (0.33 * ONE as f64).round() as i32);
    assert_eq!(PITCH_OFFSET, 3 * ONE + ONE / 2);
}

#[test]
fn flat_segment_has_one_pitch() {
    let l = line(0.0, 0.5, 0.5, 0.5);
    for i in [0u64, 1, 5000, 11025] {
        assert_eq!(segment_pitch(&l, 120, i), 4 * ONE as i64);
    }
}

#[test]
fn rising_segment_is_interpolated_and_rounded_toward_its_early_end() {
    let l = line(0.0, 0.0, 1.0, 12.0);
    assert_eq!(segment_pitch(&l, 120, 0), PITCH_OFFSET as i64);
    assert_eq!(segment_pitch(&l, 120, 1), PITCH_OFFSET as i64 + 35);
    assert_eq!(segment_pitch(&l, 120, 11025), PITCH_OFFSET as i64 + 6 * ONE as i64);
    assert_eq!(segment_pitch(&l, 120, 22050), PITCH_OFFSET as i64 + 12 * ONE as i64);
}

#[test]
fn falling_segment_and_segment_drawn_backward() {
    let falling = line(0.0, 12.0, 1.0, 0.0);
    let backward = line(1.0, 0.0, 0.0, 12.0);
    for l in [falling, backward] {
        assert_eq!(segment_pitch(&l, 120, 0), PITCH_OFFSET as i64 + 12 * ONE as i64);
        assert_eq!(segment_pitch(&l, 120, 1), PITCH_OFFSET as i64 + 12 * ONE as i64 - 35);
        assert_eq!(segment_pitch(&l, 120, 22050), PITCH_OFFSET as i64);
    }
}

#[test]
fn vertical_segment_is_a_single_instant_at_the_pitch_of_its_end() {
    let l = line(0.5, 2.0, 0.5, 7.0);
    assert_eq!(segment_pitch(&l, 120, 11025), PITCH_OFFSET as i64 + 7 * ONE as i64);
    let mut samples = vec![SILENT; 11030];
    lay_segment(&mut samples, &l, 120);
    for (i, tone) in samples.iter().enumerate() {
        if i == 11025 {
            assert_eq!(*tone, Tone { pitch: PITCH_OFFSET as i64 + 7 * ONE as i64, amplitude: AMPLITUDE });
        } else {
            assert_eq!(*tone, SILENT);
        }
    }
    let between = Line::new(Point::new(fixed(0.5) + 1, 0), Point::new(fixed(0.5) + 1, 5));
    let mut samples = vec![SILENT; 11030];
    lay_segment(&mut samples, &between, 120);
    assert!(samples.iter().all(|t| *t == SILENT));
}

#[test]
fn segment_covers_the_samples_within_its_times() {
    let l = line(0.25, 1.0, 0.5, 1.0);
    let mut samples = vec![SILENT; 12000];
    lay_segment(&mut samples, &l, 120);
    for (i, tone) in samples.iter().enumerate() {
        let covered = (5513..=11025).contains(&i);
        assert_eq!(tone.amplitude, if covered { AMPLITUDE } else { 0 }, "sample {}", i);
    }
    let mut short = vec![SILENT; 6000];
    lay_segment(&mut short, &l, 120);
    assert_eq!(short.iter().filter(|t| t.amplitude != 0).count(), 6000 - 5513);
}

#[test]
fn segment_before_time_zero_covers_nothing_but_a_straddling_one_starts_at_zero() {
    let before = line(-0.5, 1.0, -0.25, 1.0);
    let mut samples = vec![SILENT; 100];
    lay_segment(&mut samples, &before, 120);
    assert!(samples.iter().all(|t| *t == SILENT));
    let straddling = line(-1.0, 0.0, 1.0, 2.0);
    lay_segment(&mut samples, &straddling, 120);
    assert!(samples.iter().all(|t| t.amplitude == AMPLITUDE));
    assert_eq!(samples[0].pitch, PITCH_OFFSET as i64 + ONE as i64);
    let mut none: Vec<Tone> = Vec::new();
    lay_segment(&mut none, &straddling, 120);
    assert!(none.is_empty());
}

#[test]
fn later_segment_overwrites_earlier_one() {
    let stroke = vec![line(0.0, 1.0, 0.5, 1.0), line(0.25, 3.0, 0.75, 3.0)];
    let samples = stroke_envelope(&stroke, 120, 20000);
    assert_eq!(samples.len(), 20000);
    assert_eq!(samples[0].pitch, PITCH_OFFSET as i64 + ONE as i64);
    assert_eq!(samples[5512].pitch, PITCH_OFFSET as i64 + ONE as i64);
    assert_eq!(samples[5513].pitch, PITCH_OFFSET as i64 + 3 * ONE as i64);
    assert_eq!(samples[11025].pitch, PITCH_OFFSET as i64 + 3 * ONE as i64);
    assert_eq!(samples[16537].pitch, PITCH_OFFSET as i64 + 3 * ONE as i64);
    assert_eq!(samples[16538], SILENT);
    assert_eq!(stroke_envelope(&vec![], 120, 3), vec![SILENT; 3]);
}

#[test]
fn envelope_length_follows_the_latest_time_and_the_tempo() {
    assert_eq!(envelope_length(&vec![], 120), 0);
    assert_eq!(envelope_length(&vec![vec![], vec![]], 120), 0);
    let strokes = vec![vec![line(0.0, 0.5, 0.5, 0.5)], vec![], vec![line(0.25, 0.0, 0.125, 0.0)]];
    assert_eq!(envelope_length(&strokes, 120), 11026);
    assert_eq!(envelope_length(&strokes, 60), 22051);
    assert_eq!(envelope_length(&strokes, 1), 1323001);
    assert_eq!(envelope_length(&vec![vec![line(-2.0, 0.0, -1.0, 0.0)]], 120), 1);
    assert_eq!(latest_time(&vec![line(-2.0, 0.0, -1.0, 0.0)]), 0);
    assert_eq!(latest_time(&vec![line(0.5, 0.0, 0.25, 0.0), line(0.1, 0.0, 0.3, 0.0)]), fixed(0.5));
}

#[test]
fn flat_forward_stroke_renders_to_one_pitch_for_half_a_beat() {
    let mut tones = ToneSystem::new();
    let mut records = RecordSystem::new();
    records.new_record();
    records.add_line(Point::new(0, fixed(0.5)), Point::new(fixed(0.5), fixed(0.5)), &mut tones);
    for bpm in [120u32, 60] {
        let mut source = render(records.lines(), bpm);
        assert_eq!(source.voice_count(), 1);
        let seconds_per_beat = 60.0 / bpm as f64;
        let expected = 0.5 * seconds_per_beat * 44100.0;
        let mut sounding = 0usize;
        let mut frames = 0usize;
        while let Some(sum) = source.next() {
            frames += 1;
            let tone = source.voice(0).last_tone().unwrap();
            if tone.amplitude != 0 {
                sounding += 1;
                assert_eq!(tone.pitch, 4 * ONE as i64);
                assert_eq!(sum, AMPLITUDE as i128);
            } else {
                assert_eq!(sum, 0);
            }
        }
        assert!((sounding as f64 - expected).abs() <= 1.0);
        assert_eq!(frames, expected as usize + 1);
        let frequency = 440.0 * 2f64.powf((4 * ONE) as f64 / ONE as f64 / 12.0);
        assert!((frequency - 554.365).abs() < 0.001);
    }
}

#[test]
fn undone_stroke_renders_to_no_audio() {
    let mut tones = ToneSystem::new();
    let mut records = RecordSystem::new();
    records.new_record();
    records.add_line(Point::new(0, 0), Point::new(fixed(0.5), 0), &mut tones);
    records.undo(&mut tones);
    let mut source = render(records.lines(), 120);
    assert_eq!(source.voice_count(), 0);
    assert_eq!(source.total_duration(), None);
    assert_eq!(source.total_samples(), 0);
    assert_eq!(source.next(), None);
    assert_eq!(source.next(), None);
}

#[test]
fn mix_sums_the_amplitudes_of_the_sounding_voices() {
    let strokes = vec![
        vec![line(0.0, 1.0, 0.5, 1.0)],
        vec![],
        vec![line(0.5, 2.0, 0.25, 5.0)],
    ];
    let mut source = render(&strokes, 120);
    assert_eq!(source.voice_count(), 3);
    assert_eq!(source.sample_rate(), 44100);
    assert_eq!(source.channels(), 1);
    assert_eq!(source.current_frame_len(), None);
    assert_eq!(source.total_samples(), 11026);
    assert_eq!(source.total_duration(), Some(250022675));
    for k in 0..3 {
        assert_eq!(source.voice(k).len(), 11026);
        assert_eq!(source.voice(k).last_tone(), None);
    }
    let mut frames = 0usize;
    while let Some(sum) = source.next() {
        let both = frames >= 5513;
        assert_eq!(sum, if both { 2 * AMPLITUDE as i128 } else { AMPLITUDE as i128 });
        assert_eq!(source.voice(0).last_amplitude(), AMPLITUDE);
        assert_eq!(source.voice(1).last_tone(), Some(SILENT));
        assert_eq!(source.voice(2).last_amplitude(), if both { AMPLITUDE } else { 0 });
        frames += 1;
    }
    assert_eq!(frames, 11026);
    assert_eq!(source.voice(0).last_tone(), None);
    assert_eq!(source.next(), None);
}

#[test]
fn voice_hands_out_each_tone_once() {
    let tones = vec![
        Tone { pitch: 1, amplitude: 10 },
        Tone { pitch: 2, amplitude: 0 },
        Tone { pitch: 3, amplitude: 30 },
    ];
    let mut voice = ToneSamples::new(tones.clone());
    assert_eq!(voice.len(), 3);
    assert_eq!(voice.last_tone(), None);
    assert_eq!(voice.last_amplitude(), 0);
    for tone in tones.iter() {
        assert_eq!(voice.next(), Some(*tone));
        assert_eq!(voice.last_tone(), Some(*tone));
        assert_eq!(voice.last_amplitude(), tone.amplitude);
    }
    assert_eq!(voice.next(), None);
    assert_eq!(voice.last_tone(), None);
    assert_eq!(voice.last_amplitude(), 0);
    assert_eq!(voice.next(), None);
    let mut empty = ToneSamples::new(vec![]);
    assert_eq!(empty.next(), None);
}

#[test]
fn mix_of_voices_of_different_lengths_ends_with_the_longest() {
    let short = ToneSamples::new(vec![Tone { pitch: 0, amplitude: 5 }]);
    let long = ToneSamples::new(vec![Tone { pitch: 0, amplitude: 7 }; 3]);
    let mut source = PlayerSource::new(vec![short, long], 3);
    assert_eq!(source.total_samples(), 3);
    assert_eq!(source.total_duration(), Some(1_000_000_000));
    assert_eq!(source.next(), Some(12));
    assert_eq!(source.next(), Some(7));
    assert_eq!(source.voice(0).last_tone(), None);
    assert_eq!(source.next(), Some(7));
    assert_eq!(source.next(), None);
    let mut negative = PlayerSource::new(
        vec![
            ToneSamples::new(vec![Tone { pitch: 0, amplitude: i32::MIN }]),
            ToneSamples::new(vec![Tone { pitch: 0, amplitude: i32::MIN }]),
        ],
        44100,
    );
    assert_eq!(negative.next(), Some(2 * i32::MIN as i128));
    assert_eq!(negative.next(), None);
}

#[test]
fn two_equal_voices_are_divided_by_the_root_of_their_summed_amplitude() {
    let stroke = vec![line(0.0, 1.0, 0.5, 1.0)];
    let mut single = render(&vec![stroke.clone()], 120);
    let mut double = render(&vec![stroke.clone(), stroke], 120);
    let one = single.next().unwrap() as f64 / ONE as f64;
    let two = double.next().unwrap() as f64 / ONE as f64;
    assert_eq!(two, 2.0 * one);
    let a = AMPLITUDE as f64 / ONE as f64;
    let crest = 1.0f64;
    let single_sample = crest * a / one.sqrt();
    let double_sample = 2.0 * crest * a / two.sqrt();
    assert!((double_sample / single_sample - 2f64.sqrt()).abs() < 1e-12);
    assert!(double_sample < 2.0 * single_sample);
}
