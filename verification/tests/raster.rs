use note_painter::raster::draw_segment;

fn lit(data: &[u8], width: usize) -> Vec<(usize, usize)> {
    let mut pixels = Vec::new();
    for (i, v) in data.iter().enumerate() {
        assert!(*v == 0 || *v == 255);
        if *v == 255 {
            pixels.push((i % width, i / width));
        }
    }
    pixels.sort();
    pixels
}

fn nearest(a: (usize, usize), b: (usize, usize)) -> Vec<(usize, usize)> {
    let dx = (b.0 as i64 - a.0 as i64).abs();
    let dy = (b.1 as i64 - a.1 as i64).abs();
    let sx = (b.0 as i64 - a.0 as i64).signum();
    let sy = (b.1 as i64 - a.1 as i64).signum();
    let n = dx.max(dy);
    let m = dx.min(dy);
    let mut pixels = Vec::new();
    for k in 0..=n {
        let off = if n > 0 { (2 * k * m + n - 1) / (2 * n) } else { 0 };
        let (x, y) = if dx >= dy {
            (a.0 as i64 + sx * k, a.1 as i64 + sy * off)
        } else {
            (a.0 as i64 + sx * off, a.1 as i64 + sy * k)
        };
        pixels.push((x as usize, y as usize));
    }
    pixels.sort();
    pixels
}

#[test]
fn shallow_line_takes_the_nearest_pixels() {
    let mut data = vec![0u8; 8 * 4];
    draw_segment(&mut data, 8, 4, 0, 0, 4, 2);
    assert_eq!(lit(&data, 8), vec![(0, 0), (1, 0), (2, 1), (3, 1), (4, 2)]);
}

#[test]
fn steep_line_takes_the_nearest_pixels() {
    let mut data = vec![0u8; 4 * 8];
    draw_segment(&mut data, 4, 8, 3, 6, 2, 1);
    assert_eq!(lit(&data, 4), vec![(2, 1), (2, 2), (2, 3), (3, 4), (3, 5), (3, 6)]);
}

#[test]
fn single_pixel_line() {
    let mut data = vec![0u8; 9];
    draw_segment(&mut data, 3, 3, 1, 2, 1, 2);
    assert_eq!(lit(&data, 3), vec![(1, 2)]);
}

#[test]
fn diagonal_and_axis_lines() {
    let mut data = vec![0u8; 25];
    draw_segment(&mut data, 5, 5, 4, 0, 0, 4);
    assert_eq!(lit(&data, 5), vec![(0, 4), (1, 3), (2, 2), (3, 1), (4, 0)]);
    let mut data = vec![0u8; 25];
    draw_segment(&mut data, 5, 5, 0, 3, 4, 3);
    assert_eq!(lit(&data, 5), vec![(0, 3), (1, 3), (2, 3), (3, 3), (4, 3)]);
    let mut data = vec![0u8; 25];
    draw_segment(&mut data, 5, 5, 2, 4, 2, 1);
    assert_eq!(lit(&data, 5), vec![(2, 1), (2, 2), (2, 3), (2, 4)]);
}

#[test]
fn every_line_of_a_small_grid_matches_the_closed_form() {
    let (w, h) = (7usize, 6usize);
    for x0 in 0..w {
        for y0 in 0..h {
            for x1 in 0..w {
                for y1 in 0..h {
                    let mut data = vec![0u8; w * h];
                    draw_segment(&mut data, w, h, x0, y0, x1, y1);
                    assert_eq!(lit(&data, w), nearest((x0, y0), (x1, y1)));
                }
            }
        }
    }
}

#[test]
fn drawing_keeps_what_was_lit() {
    let mut data = vec![0u8; 16];
    data[5] = 255;
    data[6] = 17;
    draw_segment(&mut data, 4, 4, 0, 0, 3, 0);
    assert_eq!(&data[0..4], &[255, 255, 255, 255]);
    assert_eq!(data[5], 255);
    assert_eq!(data[6], 17);
    assert_eq!(data.iter().filter(|v| **v != 0).count(), 6);
}
