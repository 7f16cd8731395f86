use graphics::{Color, EncodingError, Point, RGB16Color, RGB8Color, Scalar, Screen};

fn s(n: i64) -> Scalar {
    Scalar::from_int(n)
}

fn pt(x: i64, y: i64, z: i64) -> Point {
    (s(x), s(y), s(z))
}

fn white() -> RGB8Color {
    RGB8Color::from((255, 255, 255))
}

fn red() -> RGB8Color {
    RGB8Color::from((255, 0, 0))
}

fn green() -> RGB8Color {
    RGB8Color::from((0, 255, 0))
}

fn blue() -> RGB8Color {
    RGB8Color::from((0, 0, 255))
}

fn lit_pixels(screen: &Screen<RGB8Color>) -> Vec<(usize, usize)> {
    let mut out = Vec::new();
    for y in 0..screen.height() {
        for x in 0..screen.width() {
            let (c, _) = screen.pixel(x, y).unwrap();
            if c != RGB8Color::default() {
                out.push((x, y));
            }
        }
    }
    out
}

fn drawn_by_line(from: Point, to: Point) -> Vec<(usize, usize)> {
    let mut screen = Screen::<RGB8Color>::with_size(16, 16);
    screen.draw_line(from, to, white());
    lit_pixels(&screen)
}

#[test]
fn new_screen_is_black_and_infinitely_far() {
    let screen = Screen::<RGB8Color>::with_size(3, 2);
    assert_eq!(screen.width(), 3);
    assert_eq!(screen.height(), 2);
    assert_eq!(screen.cell_count(), 6);
    for y in 0..2 {
        for x in 0..3 {
            assert_eq!(screen.pixel(x, y), Some((RGB8Color::default(), Scalar::neg_infinity())));
        }
    }
    assert_eq!(screen.pixel(3, 0), None);
    assert_eq!(screen.pixel(0, 2), None);
}

#[test]
fn empty_screen_has_no_pixels() {
    let mut screen = Screen::<RGB8Color>::with_size(0, 5);
    assert_eq!(screen.cell_count(), 0);
    assert_eq!(screen.pixel(0, 0), None);
    screen.plot(0, 0, s(1), white());
    screen.draw_line(pt(0, 0, 0), pt(3, 3, 0), white());
    assert_eq!(screen.byte_vec().unwrap(), b"P6\n0 5\n255\n".to_vec());
}

#[test]
fn plot_writes_color_and_depth_together() {
    let mut screen = Screen::<RGB8Color>::with_size(4, 4);
    screen.plot(1, 2, s(7), red());
    assert_eq!(screen.pixel(1, 2), Some((red(), s(7))));
    assert_eq!(lit_pixels(&screen), vec![(1, 2)]);
    assert_eq!(screen.color_at_index(2 * 4 + 1), red());
}

#[test]
fn plot_outside_the_screen_is_dropped() {
    let mut screen = Screen::<RGB8Color>::with_size(4, 4);
    screen.plot(-1, 0, s(1), red());
    screen.plot(0, -1, s(1), red());
    screen.plot(4, 0, s(1), red());
    screen.plot(0, 4, s(1), red());
    screen.plot(i64::MAX, i64::MIN, s(1), red());
    assert_eq!(lit_pixels(&screen), vec![]);
}

#[test]
fn depth_test_lets_only_strictly_nearer_writes_through() {
    let mut screen = Screen::<RGB8Color>::with_size(2, 2);
    screen.plot(0, 0, s(5), red());
    screen.plot(0, 0, s(3), green());
    assert_eq!(screen.pixel(0, 0), Some((red(), s(5))));
    screen.plot(0, 0, s(5), blue());
    assert_eq!(screen.pixel(0, 0), Some((red(), s(5))));
    screen.plot(0, 0, Scalar::from_raw(5 * 65536 + 1), blue());
    assert_eq!(screen.pixel(0, 0), Some((blue(), Scalar::from_raw(5 * 65536 + 1))));
}

#[test]
fn nothing_is_nearer_than_negative_infinity_itself() {
    let mut screen = Screen::<RGB8Color>::with_size(1, 1);
    screen.plot(0, 0, Scalar::neg_infinity(), red());
    assert_eq!(screen.pixel(0, 0), Some((RGB8Color::default(), Scalar::neg_infinity())));
    screen.plot(0, 0, Scalar::from_raw(i64::MIN + 1), red());
    assert_eq!(screen.pixel(0, 0), Some((red(), Scalar::from_raw(i64::MIN + 1))));
}

#[test]
fn clear_resets_colors_and_depths() {
    let mut screen = Screen::<RGB8Color>::with_size(3, 3);
    screen.plot(1, 1, s(9), red());
    screen.clear();
    assert_eq!(lit_pixels(&screen), vec![]);
    assert_eq!(screen.pixel(1, 1), Some((RGB8Color::default(), Scalar::neg_infinity())));
    screen.plot(1, 1, s(-100), green());
    assert_eq!(screen.pixel(1, 1), Some((green(), s(-100))));
}

#[test]
fn diagonal_line_lights_the_ten_diagonal_pixels() {
    let mut screen = Screen::<RGB8Color>::with_size(10, 10);
    screen.draw_line(pt(0, 0, 0), pt(9, 9, 0), white());
    let expected: Vec<(usize, usize)> = (0..10).map(|i| (i, i)).collect();
    assert_eq!(lit_pixels(&screen), expected);
}

#[test]
fn line_from_a_point_to_itself_is_one_pixel() {
    let mut screen = Screen::<RGB8Color>::with_size(8, 8);
    screen.draw_line(pt(3, 5, 1), pt(3, 5, 1), white());
    assert_eq!(lit_pixels(&screen), vec![(3, 5)]);
    assert_eq!(screen.pixel(3, 5), Some((white(), s(1))));
}

#[test]
fn point_line_off_screen_changes_nothing() {
    let mut screen = Screen::<RGB8Color>::with_size(8, 8);
    screen.draw_line(pt(-1, 4, 0), pt(-1, 4, 0), white());
    screen.draw_line(pt(8, 0, 0), pt(8, 0, 0), white());
    assert_eq!(lit_pixels(&screen), vec![]);
}

#[test]
fn line_coordinates_are_cut_to_whole_pixels() {
    let mut screen = Screen::<RGB8Color>::with_size(8, 8);
    let from = (Scalar::from_ratio(5, 2), Scalar::from_ratio(7, 4), s(0));
    let to = (Scalar::from_ratio(9, 2), Scalar::from_ratio(7, 4), s(0));
    screen.draw_line(from, to, white());
    assert_eq!(lit_pixels(&screen), vec![(2, 1), (3, 1), (4, 1)]);
}

#[test]
fn shallow_line_rounds_to_the_nearest_row() {
    // 3 steps in x for 1 in y: the rows are 0, 0, 1, 1.
    assert_eq!(drawn_by_line(pt(0, 0, 0), pt(3, 1, 0)), vec![(0, 0), (1, 0), (2, 1), (3, 1)]);
    // steep lines step in y
    assert_eq!(drawn_by_line(pt(0, 0, 0), pt(1, 3, 0)), vec![(0, 0), (0, 1), (1, 2), (1, 3)]);
}

#[test]
fn line_is_clipped_pixel_by_pixel() {
    let mut screen = Screen::<RGB8Color>::with_size(4, 4);
    screen.draw_line(pt(-2, 1, 0), pt(6, 1, 0), white());
    assert_eq!(lit_pixels(&screen), vec![(0, 1), (1, 1), (2, 1), (3, 1)]);
}

#[test]
fn line_without_ties_is_the_same_from_either_end() {
    for (a, b) in [
        (pt(0, 0, 0), pt(3, 1, 0)),
        (pt(0, 0, 0), pt(9, 9, 0)),
        (pt(1, 7, 0), pt(8, 2, 0)),
        (pt(2, 0, 0), pt(5, 11, 0)),
        (pt(0, 3, 0), pt(7, 3, 0)),
    ] {
        assert_eq!(drawn_by_line(a, b), drawn_by_line(b, a));
    }
}

#[test]
fn line_with_a_tie_rounds_toward_its_start() {
    // Halfway along, the line lies exactly between row 0 and row 1.
    assert_eq!(drawn_by_line(pt(0, 0, 0), pt(2, 1, 0)), vec![(0, 0), (1, 0), (2, 1)]);
    assert_eq!(drawn_by_line(pt(2, 1, 0), pt(0, 0, 0)), vec![(0, 0), (1, 1), (2, 1)]);
}

#[test]
fn depth_runs_along_a_line_in_whole_steps() {
    let mut screen = Screen::<RGB8Color>::with_size(8, 2);
    screen.draw_line(pt(0, 0, 0), pt(4, 0, 4), white());
    for x in 0..5usize {
        assert_eq!(screen.pixel(x, 0), Some((white(), s(x as i64))));
    }
    let mut back = Screen::<RGB8Color>::with_size(8, 2);
    back.draw_line(pt(0, 1, 3), pt(6, 1, 0), white());
    let depths: Vec<i64> = (0..7).map(|x| back.pixel(x, 1).unwrap().1.trunc()).collect();
    assert_eq!(depths, vec![3, 3, 2, 2, 1, 1, 0]);
}

#[test]
fn line_that_runs_only_in_depth_writes_its_pixel_again_and_again() {
    let mut screen = Screen::<RGB8Color>::with_size(2, 2);
    screen.draw_line(pt(1, 1, 0), pt(1, 1, 5), white());
    assert_eq!(lit_pixels(&screen), vec![(1, 1)]);
    assert_eq!(screen.pixel(1, 1), Some((white(), s(5))));
}

#[test]
fn lines_obey_the_depth_test() {
    let mut screen = Screen::<RGB8Color>::with_size(5, 5);
    screen.draw_line(pt(0, 2, 5), pt(4, 2, 5), red());
    screen.draw_line(pt(2, 0, 1), pt(2, 4, 1), green());
    assert_eq!(screen.pixel(2, 2), Some((red(), s(5))));
    assert_eq!(screen.pixel(2, 1), Some((green(), s(1))));
}

#[test]
fn right_triangle_fills_its_staircase() {
    let mut screen = Screen::<RGB8Color>::with_size(8, 8);
    screen.draw_tri(pt(0, 0, 0), pt(4, 0, 0), pt(0, 4, 0), white());
    let mut expected = Vec::new();
    for y in 0..5usize {
        for x in 0..(5 - y) {
            expected.push((x, y));
        }
    }
    assert_eq!(lit_pixels(&screen), expected);
}

#[test]
fn triangle_is_the_same_whatever_corner_comes_first() {
    let corners = [pt(1, 1, 0), pt(6, 2, 0), pt(3, 6, 0)];
    let mut first = Screen::<RGB8Color>::with_size(8, 8);
    first.draw_tri(corners[0], corners[1], corners[2], white());
    let mut second = Screen::<RGB8Color>::with_size(8, 8);
    second.draw_tri(corners[2], corners[0], corners[1], white());
    assert_eq!(lit_pixels(&first), lit_pixels(&second));
    assert!(lit_pixels(&first).contains(&(1, 1)));
    assert!(lit_pixels(&first).contains(&(3, 6)));
}

#[test]
fn triangle_of_no_height_is_one_row() {
    let mut screen = Screen::<RGB8Color>::with_size(8, 2);
    screen.draw_tri(pt(0, 0, 0), pt(4, 0, 8), pt(2, 0, 4), white());
    assert_eq!(lit_pixels(&screen), vec![(2, 0), (3, 0), (4, 0)]);
    assert_eq!(screen.pixel(2, 0).unwrap().1.raw(), 4 * 65536);
    assert_eq!(screen.pixel(3, 0).unwrap().1.raw(), 4 * 65536 + 87381);
    assert_eq!(screen.pixel(4, 0).unwrap().1.raw(), 4 * 65536 + 2 * 87381);
}

#[test]
fn triangle_that_is_a_point_is_one_pixel() {
    let mut screen = Screen::<RGB8Color>::with_size(4, 4);
    screen.draw_tri(pt(2, 3, 1), pt(2, 3, 1), pt(2, 3, 1), red());
    assert_eq!(lit_pixels(&screen), vec![(2, 3)]);
    assert_eq!(screen.pixel(2, 3), Some((red(), s(1))));
}

#[test]
fn triangle_is_clipped_pixel_by_pixel() {
    let mut screen = Screen::<RGB8Color>::with_size(3, 3);
    screen.draw_tri(pt(-5, -5, 0), pt(20, -5, 0), pt(-5, 20, 0), white());
    assert_eq!(lit_pixels(&screen).len(), 9);
    let mut away = Screen::<RGB8Color>::with_size(3, 3);
    away.draw_tri(pt(10, 10, 0), pt(20, 10, 0), pt(10, 20, 0), white());
    assert_eq!(lit_pixels(&away), vec![]);
}

#[test]
fn nearer_triangle_wins_in_either_order() {
    let near = [pt(0, 0, 5), pt(6, 0, 5), pt(0, 6, 5)];
    let far = [pt(0, 0, 2), pt(6, 0, 2), pt(0, 6, 2)];
    let mut near_first = Screen::<RGB8Color>::with_size(8, 8);
    near_first.draw_tri(near[0], near[1], near[2], red());
    near_first.draw_tri(far[0], far[1], far[2], green());
    let mut far_first = Screen::<RGB8Color>::with_size(8, 8);
    far_first.draw_tri(far[0], far[1], far[2], green());
    far_first.draw_tri(near[0], near[1], near[2], red());
    for y in 0..8 {
        for x in 0..8 {
            assert_eq!(near_first.pixel(x, y), far_first.pixel(x, y));
        }
    }
    assert_eq!(near_first.pixel(1, 1), Some((red(), s(5))));
    assert_eq!(far_first.pixel(2, 3), Some((red(), s(5))));
}

#[test]
fn nearer_triangle_wins_where_the_two_overlap_only() {
    let mut screen = Screen::<RGB8Color>::with_size(8, 8);
    screen.draw_tri(pt(0, 0, 5), pt(2, 0, 5), pt(0, 2, 5), red());
    screen.draw_tri(pt(0, 0, 2), pt(6, 0, 2), pt(0, 6, 2), green());
    assert_eq!(screen.pixel(0, 0), Some((red(), s(5))));
    assert_eq!(screen.pixel(5, 0), Some((green(), s(2))));
}

#[test]
fn blank_screen_is_header_and_zero_bytes() {
    let screen = Screen::<RGB8Color>::with_size(4, 3);
    let bytes = screen.byte_vec().unwrap();
    let header = b"P6\n4 3\n255\n";
    assert_eq!(&bytes[..header.len()], header);
    assert_eq!(bytes.len(), header.len() + 4 * 3 * 3);
    assert!(bytes[header.len()..].iter().all(|b| *b == 0));
}

#[test]
fn header_spells_out_the_size_in_decimal() {
    let screen = Screen::<RGB8Color>::with_size(500, 12);
    let bytes = screen.byte_vec().unwrap();
    let header = b"P6\n500 12\n255\n";
    assert_eq!(&bytes[..header.len()], header);
    assert_eq!(bytes.len(), header.len() + 500 * 12 * 3);
}

#[test]
fn pixels_are_written_row_by_row_from_the_bottom() {
    let mut screen = Screen::<RGB8Color>::with_size(2, 2);
    screen.plot(0, 0, s(0), RGB8Color::from((1, 2, 3)));
    screen.plot(1, 0, s(0), RGB8Color::from((4, 5, 6)));
    screen.plot(0, 1, s(0), RGB8Color::from((7, 8, 9)));
    let mut expected = b"P6\n2 2\n255\n".to_vec();
    expected.extend_from_slice(&[1, 2, 3, 4, 5, 6, 7, 8, 9, 0, 0, 0]);
    assert_eq!(screen.byte_vec(), Ok(expected));
}

#[test]
fn sixteen_bit_channels_take_two_bytes_low_byte_first() {
    let mut screen = Screen::<RGB16Color>::with_size(1, 1);
    screen.plot(0, 0, s(0), RGB16Color::from((0x0102, 0x0304, 0xffff)));
    let mut expected = b"P6\n1 1\n65535\n".to_vec();
    expected.extend_from_slice(&[0x02, 0x01, 0x04, 0x03, 0xff, 0xff]);
    assert_eq!(screen.byte_vec(), Ok(expected));
}

#[derive(Clone, Copy)]
struct Dim(u16);

impl Color for Dim {
    fn spec_red(&self) -> u16 {
        self.0
    }
    fn spec_green(&self) -> u16 {
        0
    }
    fn spec_blue(&self) -> u16 {
        0
    }
    fn spec_max_val() -> u16 {
        100
    }
    fn spec_black() -> Self {
        Dim(0)
    }
    fn spec_mult(&self, _k: (Scalar, Scalar, Scalar)) -> Self {
        *self
    }
    fn spec_plus(&self, rhs: Self) -> Self {
        Dim(self.0 + rhs.0)
    }
    fn spec_minus(&self, rhs: Self) -> Self {
        Dim(self.0 - rhs.0)
    }
    fn red(&self) -> u16 {
        self.0
    }
    fn green(&self) -> u16 {
        0
    }
    fn blue(&self) -> u16 {
        0
    }
    fn random_color() -> Self {
        Dim(0)
    }
    fn max_val() -> u16 {
        100
    }
    fn black() -> Self {
        Dim(0)
    }
    fn mult(&self, _k: (Scalar, Scalar, Scalar)) -> Self {
        *self
    }
    fn plus(self, rhs: Self) -> Self {
        Dim(self.0 + rhs.0)
    }
    fn minus(self, rhs: Self) -> Self {
        Dim(self.0 - rhs.0)
    }
}

#[test]
fn channel_beyond_the_maximum_cannot_be_written() {
    let mut screen = Screen::<Dim>::with_size(2, 2);
    screen.plot(1, 0, s(0), Dim(100));
    assert!(screen.byte_vec().is_ok());
    screen.plot(0, 1, s(0), Dim(101));
    screen.plot(1, 1, s(0), Dim(500));
    assert_eq!(screen.byte_vec(), Err(EncodingError::ChannelOutOfRange { index: 2 }));
}
