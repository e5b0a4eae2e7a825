use note_painter::geometry::{Line, Point, ONE};
use note_painter::paint::{paint_line, paint_lines, pixel, Canvas};

fn at(px: usize, extent: usize) -> i32 {
    ((px as i64 * ONE as i64) / extent as i64) as i32 + 1
}

fn point(px: usize, py: usize, w: usize, h: usize) -> Point {
    Point::new(at(px, w), at(py, h))
}

fn lit(data: &[u8], width: usize) -> Vec<(usize, usize)> {
    let mut pixels = Vec::new();
    for (i, v) in data.iter().enumerate() {
        assert!(*v == 0 || *v == 255);
        if *v == 255 {
            pixels.push((i % width, i / width));
        }
    }
    pixels
}

fn sample_canvas() -> Canvas {
    let mut canvas = Canvas::new(16, 12);
    canvas.new_record();
    canvas.line(point(1, 1, 16, 12), point(6, 3, 16, 12));
    canvas.line(point(6, 3, 16, 12), point(4, 9, 16, 12));
    canvas.line(point(6, 9, 16, 12), point(14, 11, 16, 12));
    canvas.new_record();
    canvas.line(point(15, 0, 16, 12), point(9, 5, 16, 12));
    canvas.line(point(9, 5, 16, 12), point(2, 5, 16, 12));
    canvas
}

#[test]
fn pixel_rounds_down() {
    assert_eq!(pixel(0, 800), 0);
    assert_eq!(pixel(ONE - 1, 800), 799);
    assert_eq!(pixel(ONE / 2, 800), 400);
    assert_eq!(pixel(ONE / 2 - 1, 800), 399);
    assert_eq!(pixel(ONE / 3, 3), 0);
    assert_eq!(pixel(ONE / 3 + 1, 3), 1);
    assert_eq!(pixel(ONE - 1, 0), 0);
    assert_eq!(pixel(ONE - 1, usize::MAX), usize::MAX - usize::MAX.div_ceil(ONE as usize));
}

#[test]
fn new_canvas_is_dark_and_clean() {
    let mut canvas = Canvas::new(5, 3);
    assert_eq!(canvas.get_width(), 5);
    assert_eq!(canvas.get_height(), 3);
    assert_eq!(canvas.data(), &vec![0u8; 15]);
    assert!(canvas.get_lines().is_empty());
    assert!(!canvas.is_dirty());
    assert!(!canvas.update());
    canvas.new_record();
    assert!(canvas.is_dirty());
    assert_eq!(canvas.get_lines(), &vec![Vec::<Line>::new()]);
}

#[test]
fn line_is_drawn_and_recorded() {
    let mut canvas = Canvas::new(8, 4);
    canvas.new_record();
    canvas.line(point(0, 0, 8, 4), point(4, 2, 8, 4));
    assert_eq!(lit(canvas.data(), 8), vec![(0, 0), (1, 0), (2, 1), (3, 1), (4, 2)]);
    assert_eq!(canvas.get_lines(), &vec![vec![Line::new(point(0, 0, 8, 4), point(4, 2, 8, 4))]]);
    assert!(canvas.is_dirty());
    assert!(canvas.update());
    assert!(!canvas.is_dirty());
    assert!(!canvas.update());
}

#[test]
fn segment_with_an_end_off_the_canvas_is_dropped_whole() {
    let offs = [
        Line::new(Point::new(-1, 10), Point::new(100, 10)),
        Line::new(Point::new(10, -1), Point::new(100, 10)),
        Line::new(Point::new(10, 10), Point::new(ONE, 10)),
        Line::new(Point::new(10, 10), Point::new(100, ONE)),
        Line::new(Point::new(ONE, 10), Point::new(100, 10)),
        Line::new(Point::new(10, 10), Point::new(100, -1)),
    ];
    for off in offs.iter() {
        let mut data = vec![0u8; 64];
        assert!(!paint_line(&mut data, 8, 8, off));
        assert_eq!(data, vec![0u8; 64]);
    }
    let mut data = vec![0u8; 64];
    assert!(paint_line(&mut data, 8, 8, &Line::new(Point::new(0, 0), Point::new(ONE - 1, ONE - 1))));
    assert_eq!(lit(&data, 8).len(), 8);
}

#[test]
fn stored_segment_off_the_canvas_is_not_drawn_but_makes_the_canvas_dirty() {
    let offs = [
        (Point::new(0, -1), Point::new(1, -1)),
        (Point::new(10, 10), Point::new(ONE, 10)),
        (Point::new(10, 10), Point::new(100, ONE)),
        (Point::new(100, 10), Point::new(-1, 10)),
    ];
    for (start, end) in offs {
        let mut canvas = Canvas::new(4, 4);
        canvas.new_record();
        assert!(canvas.update());
        canvas.line(start, end);
        assert_eq!(canvas.get_lines(), &vec![vec![Line::new(start, end)]]);
        assert_eq!(canvas.data(), &vec![0u8; 16]);
        assert!(canvas.is_dirty());
    }
}

#[test]
fn every_change_of_the_history_makes_the_canvas_dirty() {
    let mut canvas = Canvas::new(4, 4);
    canvas.new_record();
    assert!(canvas.update());
    canvas.line(Point::new(0, -5), Point::new(10, -5));
    assert!(canvas.update());
    canvas.undo();
    assert!(canvas.update());
    canvas.redo();
    assert!(canvas.update());
    assert_eq!(canvas.data(), &vec![0u8; 16]);
    canvas.redo();
    assert!(!canvas.update());
    canvas.new_record();
    assert!(canvas.update());
    canvas.resize(4, 4);
    assert!(canvas.update());
    assert!(!canvas.update());
}

#[test]
fn backward_part_of_a_forward_stroke_is_not_drawn_again() {
    let mut canvas = Canvas::new(10, 10);
    canvas.new_record();
    canvas.line(point(0, 5, 10, 10), point(3, 5, 10, 10));
    canvas.line(point(3, 5, 10, 10), point(1, 8, 10, 10));
    let pixels = lit(canvas.data(), 10);
    assert!(pixels.contains(&(3, 8)));
    assert!(!pixels.contains(&(1, 8)));
    assert!(!pixels.contains(&(2, 7)));
    assert_eq!(
        pixels,
        vec![(0, 5), (1, 5), (2, 5), (3, 5), (3, 6), (3, 7), (3, 8)]
    );
    assert_eq!(canvas.get_lines()[0][1].end.x, canvas.get_lines()[0][0].end.x);
}

#[test]
fn line_without_stroke_does_nothing() {
    let mut canvas = Canvas::new(4, 4);
    canvas.line(point(0, 0, 4, 4), point(3, 0, 4, 4));
    assert_eq!(canvas.data(), &vec![0u8; 16]);
    assert!(canvas.get_lines().is_empty());
    assert!(!canvas.is_dirty());
    canvas.new_record();
    canvas.undo();
    canvas.update();
    canvas.line(point(0, 0, 4, 4), point(3, 0, 4, 4));
    assert_eq!(canvas.data(), &vec![0u8; 16]);
    assert!(!canvas.is_dirty());
    canvas.new_record();
    canvas.line(point(3, 0, 4, 4), point(0, 0, 4, 4));
    assert_eq!(lit(canvas.data(), 4), vec![(0, 0), (1, 0), (2, 0), (3, 0)]);
    let shown = canvas.data().clone();
    canvas.resize(4, 4);
    assert_eq!(canvas.data(), &shown);
}

#[test]
fn segment_added_after_an_undo_goes_to_the_stroke_before_with_its_own_frontier() {
    let mut canvas = Canvas::new(10, 10);
    canvas.new_record();
    canvas.line(point(0, 5, 10, 10), point(5, 5, 10, 10));
    canvas.new_record();
    canvas.line(point(9, 1, 10, 10), point(8, 1, 10, 10));
    canvas.undo();
    canvas.line(point(1, 5, 10, 10), point(0, 8, 10, 10));
    assert_eq!(canvas.get_lines().len(), 1);
    let stroke = &canvas.get_lines()[0];
    assert_eq!(stroke.len(), 2);
    assert_eq!(stroke[1].start.x, stroke[0].end.x);
    assert_eq!(stroke[1].end.x, stroke[0].end.x);
    let pixels = lit(canvas.data(), 10);
    assert!(pixels.contains(&(5, 8)));
    assert!(!pixels.contains(&(0, 8)));
    let shown = canvas.data().clone();
    canvas.resize(10, 10);
    assert_eq!(canvas.data(), &shown);
}

#[test]
fn resize_there_and_back_restores_the_bitmap() {
    let mut canvas = sample_canvas();
    let first = canvas.data().clone();
    let lines = canvas.get_lines().clone();
    assert!(first.iter().any(|v| *v == 255));
    canvas.resize(7, 5);
    assert_eq!(canvas.get_width(), 7);
    assert_eq!(canvas.get_height(), 5);
    assert_eq!(canvas.data().len(), 35);
    assert!(canvas.data().iter().any(|v| *v == 255));
    canvas.resize(16, 12);
    assert_eq!(canvas.data(), &first);
    assert_eq!(canvas.get_lines(), &lines);
    canvas.resize(3, 200);
    canvas.resize(1, 1);
    assert_eq!(canvas.data(), &vec![255u8]);
    canvas.resize(16, 12);
    assert_eq!(canvas.data(), &first);
}

#[test]
fn resize_rebuilds_from_the_history_alone() {
    let canvas = sample_canvas();
    let mut other = Canvas::new(3, 3);
    for stroke in canvas.get_lines() {
        other.new_record();
        for line in stroke {
            other.line(line.start, line.end);
        }
    }
    other.resize(16, 12);
    assert_eq!(other.data(), canvas.data());
}

#[test]
fn resize_marks_dirty_and_clears_to_size() {
    let mut canvas = Canvas::new(2, 2);
    canvas.resize(3, 5);
    assert!(canvas.is_dirty());
    assert_eq!(canvas.data(), &vec![0u8; 15]);
    canvas.resize(0, 5);
    assert_eq!(canvas.data().len(), 0);
    canvas.new_record();
    canvas.line(Point::new(0, 0), Point::new(100, 100));
    assert_eq!(canvas.data().len(), 0);
    assert_eq!(canvas.get_lines()[0].len(), 1);
    canvas.resize(2, 2);
    assert_eq!(canvas.data(), &vec![255u8, 0, 0, 0]);
}

#[test]
fn undo_of_the_only_stroke_leaves_a_dark_bitmap() {
    let mut canvas = Canvas::new(8, 8);
    canvas.new_record();
    canvas.line(point(0, 0, 8, 8), point(7, 7, 8, 8));
    canvas.update();
    canvas.undo();
    assert_eq!(canvas.data(), &vec![0u8; 64]);
    assert!(canvas.get_lines().is_empty());
    assert!(canvas.is_dirty());
}

#[test]
fn undo_then_redo_restores_bitmap_and_lines() {
    let mut canvas = sample_canvas();
    let first = canvas.data().clone();
    let lines = canvas.get_lines().clone();
    canvas.undo();
    assert_ne!(canvas.data(), &first);
    assert_eq!(canvas.get_lines().len(), 1);
    canvas.redo();
    assert_eq!(canvas.data(), &first);
    assert_eq!(canvas.get_lines(), &lines);
    canvas.undo();
    canvas.undo();
    assert_eq!(canvas.data(), &vec![0u8; 16 * 12]);
    canvas.undo();
    canvas.redo();
    canvas.redo();
    canvas.redo();
    assert_eq!(canvas.data(), &first);
    assert_eq!(canvas.get_lines(), &lines);
}

#[test]
fn new_stroke_after_undo_forgets_the_undone_stroke() {
    let mut canvas = sample_canvas();
    canvas.undo();
    let after_undo = canvas.data().clone();
    canvas.new_record();
    canvas.redo();
    assert_eq!(canvas.data(), &after_undo);
    assert_eq!(canvas.get_lines().len(), 2);
    assert!(canvas.get_lines()[1].is_empty());
}

#[test]
fn redo_without_undone_stroke_keeps_the_canvas_clean() {
    let mut canvas = Canvas::new(4, 4);
    canvas.redo();
    canvas.undo();
    assert!(!canvas.is_dirty());
    assert_eq!(canvas.data(), &vec![0u8; 16]);
}

#[test]
fn paint_lines_reports_whether_anything_was_drawn() {
    let mut data = vec![0u8; 16];
    let off = Line::new(Point::new(-5, 0), Point::new(5, 0));
    let on = Line::new(Point::new(0, 0), Point::new(ONE / 2, 0));
    assert!(!paint_lines(&mut data, 4, 4, &vec![off, off]));
    assert_eq!(data, vec![0u8; 16]);
    assert!(paint_lines(&mut data, 4, 4, &vec![off, on]));
    assert_eq!(lit(&data, 4), vec![(0, 0), (1, 0), (2, 0)]);
    assert!(!paint_lines(&mut data, 4, 4, &vec![]));
}
