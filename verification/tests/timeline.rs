use note_painter::audio::AMPLITUDE;
use note_painter::engine::window::{
    Action, Window, KEY_LEFT_CONTROL, KEY_LEFT_SHIFT, KEY_Z,
};
use note_painter::geometry::{Line, Point, ONE};
use note_painter::history::{RecordSystem, ToneSystem};
use note_painter::timeline::{DrawingSystem, Pointer, Timeline, SAFE_RADIUS};

fn fixed(v: f64) -> i32 {
    (v * ONE as f64).round() as i32
}

fn point(x: f64, y: f64) -> Point {
    Point::new(fixed(x), fixed(y))
}

fn idle(at: Point) -> Pointer {
    Pointer { just_pressed: false, pressed: false, position: at, last_position: at, moved: false }
}

fn down(at: Point) -> Pointer {
    Pointer { just_pressed: true, pressed: true, position: at, last_position: at, moved: false }
}

fn drag(from: Point, to: Point) -> Pointer {
    Pointer { just_pressed: false, pressed: true, position: to, last_position: from, moved: from != to }
}

fn draw(timeline: &mut Timeline, window: &Window, path: &[Point]) {
    timeline.update(window, &down(path[0]), 0);
    for pair in path.windows(2) {
        timeline.update(window, &drag(pair[0], pair[1]), 0);
    }
    timeline.update(window, &idle(path[path.len() - 1]), 0);
}

#[test]
fn safe_radius_is_a_hundredth() {
    assert_eq!(SAFE_RADIUS, fixed(0.01));
}

#[test]
fn gesture_waits_until_the_pointer_leaves_the_safe_radius() {
    let mut drawing = DrawingSystem::default();
    let mut tones = ToneSystem::new();
    let mut records = RecordSystem::new();
    let start = point(1.0, 2.0);
    drawing.update(&down(start), &mut tones, &mut records);
    assert_eq!(records.lines(), &vec![Vec::<Line>::new()]);
    let near = Point::new(start.x + SAFE_RADIUS, start.y - SAFE_RADIUS);
    assert!(!drawing.is_outside_safe_radius(near));
    drawing.update(&drag(start, near), &mut tones, &mut records);
    assert!(records.lines()[0].is_empty());
    assert_eq!(tones.update(&records), None);

    let far = Point::new(start.x + SAFE_RADIUS + 1, start.y);
    assert!(drawing.is_outside_safe_radius(far));
    drawing.update(&drag(near, far), &mut tones, &mut records);
    assert_eq!(records.lines()[0], vec![Line::new(start, far)]);
    assert!(drawing.is_outside_safe_radius(far));
    assert!(drawing.is_outside_safe_radius(start));

    let next = point(1.5, 2.5);
    drawing.update(&drag(far, next), &mut tones, &mut records);
    assert_eq!(records.lines()[0], vec![Line::new(start, far), Line::new(far, next)]);
    let still = Pointer { moved: false, ..drag(next, next) };
    drawing.update(&still, &mut tones, &mut records);
    assert_eq!(records.lines()[0].len(), 2);
    assert!(tones.update(&records).is_some());

    drawing.update(&idle(next), &mut tones, &mut records);
    assert_eq!(records.lines()[0].len(), 2);
    assert_eq!(tones.update(&records), None);
}

#[test]
fn gesture_leaves_the_radius_on_either_axis_and_in_either_direction() {
    let mut tones = ToneSystem::new();
    let start = Point::new(0, 0);
    for far in [
        Point::new(SAFE_RADIUS + 1, 0),
        Point::new(-SAFE_RADIUS - 1, 0),
        Point::new(0, SAFE_RADIUS + 1),
        Point::new(0, -SAFE_RADIUS - 1),
        Point::new(i32::MAX, i32::MIN),
    ] {
        let mut drawing = DrawingSystem::default();
        let mut records = RecordSystem::new();
        drawing.update(&down(start), &mut tones, &mut records);
        drawing.update(&drag(start, far), &mut tones, &mut records);
        assert_eq!(records.lines()[0].len(), 1);
    }
    let mut drawing = DrawingSystem::default();
    assert!(!drawing.is_outside_safe_radius(Point::new(SAFE_RADIUS, -SAFE_RADIUS)));
    let mut records = RecordSystem::new();
    drawing.update(&Pointer { pressed: false, ..down(Point::new(i32::MIN, 0)) }, &mut tones, &mut records);
    assert!(drawing.is_outside_safe_radius(Point::new(i32::MAX, 0)));
}

#[test]
fn each_press_starts_a_stroke() {
    let window = Window::new(800, 600, 0);
    let mut timeline = Timeline::default();
    draw(&mut timeline, &window, &[point(0.0, 0.5), point(0.25, 0.5), point(0.5, 0.5)]);
    draw(&mut timeline, &window, &[point(3.0, 1.0), point(2.0, 1.5)]);
    let lines = timeline.record_system().lines();
    assert_eq!(lines.len(), 2);
    assert_eq!(
        lines[0],
        vec![
            Line::new(point(0.0, 0.5), point(0.25, 0.5)),
            Line::new(point(0.25, 0.5), point(0.5, 0.5)),
        ]
    );
    assert_eq!(lines[1], vec![Line::new(point(3.0, 1.0), point(2.0, 1.5))]);
}

#[test]
fn frame_hands_out_the_lines_when_they_changed() {
    let window = Window::new(800, 600, 0);
    let mut timeline = Timeline::default();
    let a = point(0.0, 0.5);
    let b = point(0.5, 0.5);
    let work = timeline.update(&window, &down(a), 0);
    assert!(work.restart_timer);
    assert_eq!(work.lines, None);
    let work = timeline.update(&window, &drag(a, b), 0);
    assert_eq!(work.lines, Some(vec![Line::new(a, b)]));
    let work = timeline.update(&window, &idle(b), 0);
    assert_eq!(work.lines, None);
}

#[test]
fn control_z_undoes_and_with_shift_redoes() {
    let mut window = Window::new(800, 600, 0);
    let mut timeline = Timeline::default();
    window.begin_frame();
    draw(&mut timeline, &window, &[point(0.0, 0.5), point(0.5, 0.5)]);
    let at = point(0.5, 0.5);

    window.begin_frame();
    window.key_event(KEY_LEFT_CONTROL, Action::Press);
    let work = timeline.update(&window, &idle(at), 0);
    assert_eq!(work.lines, None);
    assert_eq!(timeline.record_system().lines().len(), 1);

    window.begin_frame();
    window.key_event(KEY_Z, Action::Press);
    let work = timeline.update(&window, &idle(at), 0);
    assert_eq!(work.lines, Some(vec![]));
    assert!(timeline.record_system().lines().is_empty());
    assert_eq!(timeline.record_system().undone_lines().len(), 1);

    window.begin_frame();
    let work = timeline.update(&window, &idle(at), 0);
    assert_eq!(work.lines, None);

    window.begin_frame();
    window.key_event(KEY_Z, Action::Release);
    window.key_event(KEY_LEFT_SHIFT, Action::Press);
    window.key_event(KEY_Z, Action::Press);
    let work = timeline.update(&window, &idle(at), 0);
    assert_eq!(work.lines, Some(vec![Line::new(point(0.0, 0.5), at)]));
    assert_eq!(timeline.record_system().lines().len(), 1);

    window.begin_frame();
    window.key_event(KEY_Z, Action::Release);
    window.key_event(KEY_LEFT_CONTROL, Action::Release);
    window.key_event(KEY_Z, Action::Press);
    timeline.update(&window, &idle(at), 0);
    assert_eq!(timeline.record_system().lines().len(), 1);
}

#[test]
fn playback_lasts_for_the_duration_of_the_audio() {
    let window = Window::new(800, 600, 0);
    let mut timeline = Timeline::default();
    assert_eq!(timeline.player_bpm(), 120);
    assert!(!timeline.is_playing());
    assert!(timeline.update_player(5));
    draw(&mut timeline, &window, &[point(0.0, 0.5), point(0.5, 0.5)]);
    assert_eq!(timeline.envelope_length(), 11026);

    let mut source = timeline.play();
    assert!(timeline.is_playing());
    assert_eq!(timeline.player_duration(), 250022675);
    assert_eq!(source.total_duration(), Some(250022675));
    assert_eq!(source.next(), Some(AMPLITUDE as i128));

    assert!(!timeline.update_player(250022674));
    assert!(timeline.is_playing());
    assert!(!timeline.update_player(250022675));
    assert!(!timeline.is_playing());
    assert_eq!(timeline.player_duration(), 0);
    assert!(timeline.update_player(0));
}

#[test]
fn playing_an_empty_timeline_stops_at_once() {
    let mut timeline = Timeline::default();
    let mut source = timeline.play();
    assert_eq!(source.next(), None);
    assert!(timeline.is_playing());
    assert_eq!(timeline.player_duration(), 0);
    assert!(!timeline.update_player(0));
    assert!(!timeline.is_playing());
    let rendered = timeline.render_audio();
    assert_eq!(rendered.voice_count(), 0);
}

#[test]
fn playing_again_keeps_the_duration_where_the_audio_has_none() {
    let mut window = Window::new(800, 600, 0);
    let mut timeline = Timeline::default();
    window.begin_frame();
    draw(&mut timeline, &window, &[point(0.0, 0.5), point(0.5, 0.5)]);
    timeline.play();
    window.begin_frame();
    window.key_event(KEY_LEFT_CONTROL, Action::Press);
    window.key_event(KEY_Z, Action::Press);
    timeline.update(&window, &idle(point(0.5, 0.5)), 0);
    assert!(timeline.is_playing());
    timeline.play();
    assert_eq!(timeline.player_duration(), 250022675);
}

#[test]
fn undo_while_the_button_is_held_keeps_every_stroke_single_valued() {
    let mut window = Window::new(800, 600, 0);
    let mut timeline = Timeline::default();
    window.begin_frame();
    draw(&mut timeline, &window, &[point(0.0, 0.5), point(0.5, 0.5)]);

    timeline.update(&window, &down(point(0.9, 1.0)), 0);
    timeline.update(&window, &drag(point(0.9, 1.0), point(0.8, 1.0)), 0);
    window.begin_frame();
    window.key_event(KEY_LEFT_CONTROL, Action::Press);
    window.key_event(KEY_Z, Action::Press);
    timeline.update(&window, &drag(point(0.8, 1.0), point(0.1, 1.0)), 0);
    window.begin_frame();
    timeline.update(&window, &drag(point(0.1, 1.0), point(0.05, 2.0)), 0);

    let lines = timeline.record_system().lines();
    assert_eq!(lines.len(), 1);
    assert_eq!(
        lines[0],
        vec![
            Line::new(point(0.0, 0.5), point(0.5, 0.5)),
            Line::new(point(0.8, 1.0), point(0.5, 1.0)),
            Line::new(point(0.8, 1.0), point(0.8, 2.0)),
        ]
    );
    for pair in lines[0].windows(2) {
        assert!(pair[1].earliest() >= pair[0].latest());
    }
    assert_eq!(timeline.record_system().undone_lines().len(), 1);
}
