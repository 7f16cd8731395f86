use graphics::space::render::is_front_facing;
use graphics::space::shading::{centroid, phong_color};
use graphics::space::draw_space;
use graphics::{Color, Light, Point, RGB8Color, Scalar, Screen, Space};

fn s(n: i64) -> Scalar {
    Scalar::from_int(n)
}

fn pt(x: i64, y: i64, z: i64) -> Point {
    (s(x), s(y), s(z))
}

fn frac(n: i64, d: i64) -> Scalar {
    Scalar::from_ratio(n, d)
}

fn drawn_pixels(screen: &Screen<RGB8Color>) -> usize {
    let mut count = 0;
    for y in 0..screen.height() {
        for x in 0..screen.width() {
            if screen.pixel(x, y).unwrap().1 != Scalar::neg_infinity() {
                count += 1;
            }
        }
    }
    count
}

fn lit_space() -> Space<RGB8Color> {
    let mut space = Space::<RGB8Color>::new();
    space.set_ambient_light(RGB8Color::from((50, 50, 50)));
    space.set_ambient_reflection((frac(1, 2), frac(1, 2), frac(1, 2)));
    space.set_diffuse_reflection((frac(1, 2), frac(1, 4), s(0)));
    space.set_specular_reflection((frac(1, 10), s(0), s(0)));
    space.set_camera(pt(0, 0, 1));
    space
}

#[test]
fn centroid_is_the_average_of_the_corners() {
    assert_eq!(centroid(pt(0, 0, 0), pt(3, 0, 0), pt(0, 3, 0)), pt(1, 1, 0));
    assert_eq!(centroid(pt(1, 1, 1), pt(1, 1, 1), pt(1, 1, 1)), pt(1, 1, 1));
    assert_eq!(centroid(pt(0, 0, 0), pt(1, 0, 0), pt(0, 0, -1)), (frac(1, 3), s(0), frac(-1, 3)));
    let big = Scalar::from_raw(i64::MAX);
    assert_eq!(centroid((big, big, big), (big, big, big), (big, big, big)), (big, big, big));
}

#[test]
fn without_lights_the_color_is_the_ambient_one() {
    let space = lit_space();
    let c = phong_color(pt(0, 0, 0), pt(3, 0, 0), pt(0, 3, 0), &space);
    assert_eq!(c, RGB8Color::from((25, 25, 25)));
}

#[test]
fn light_in_front_adds_diffuse_and_specular_terms() {
    let mut space = lit_space();
    space.add_light(Light::new(pt(1, 1, 10), RGB8Color::from((255, 255, 255))));
    let c = phong_color(pt(0, 0, 0), pt(3, 0, 0), pt(0, 3, 0), &space);
    // ambient 25; diffuse 127, 63, 0; specular 25, 0, 0
    assert_eq!(c, RGB8Color::from((177, 88, 25)));
}

#[test]
fn light_behind_adds_nothing() {
    let mut space = lit_space();
    space.add_light(Light::new(pt(1, 1, -10), RGB8Color::from((255, 255, 255))));
    let c = phong_color(pt(0, 0, 0), pt(3, 0, 0), pt(0, 3, 0), &space);
    assert_eq!(c, RGB8Color::from((25, 25, 25)));
}

#[test]
fn light_at_the_centroid_adds_nothing() {
    let mut space = lit_space();
    space.add_light(Light::new(pt(1, 1, 0), RGB8Color::from((255, 255, 255))));
    let c = phong_color(pt(0, 0, 0), pt(3, 0, 0), pt(0, 3, 0), &space);
    assert_eq!(c, RGB8Color::from((25, 25, 25)));
}

#[test]
fn light_at_a_slant_is_dimmer() {
    let mut space = lit_space();
    space.set_specular_reflection((s(0), s(0), s(0)));
    // from the centroid (1, 1, 0) the light lies along (3, 0, 4): cosine 4/5
    space.add_light(Light::new(pt(4, 1, 4), RGB8Color::from((200, 200, 200))));
    let c = phong_color(pt(0, 0, 0), pt(3, 0, 0), pt(0, 3, 0), &space);
    // diffuse: 200 * 0.5 * 0.8 = 80 and 200 * 0.25 * 0.8 = 40, less rounding
    assert_eq!(c, RGB8Color::from((25 + 79, 25 + 39, 25)));
}

#[test]
fn many_lights_saturate() {
    let mut space = lit_space();
    space.set_diffuse_reflection((s(1), s(1), s(1)));
    for _ in 0..3 {
        space.add_light(Light::new(pt(1, 1, 10), RGB8Color::from((200, 100, 0))));
    }
    let c = phong_color(pt(0, 0, 0), pt(3, 0, 0), pt(0, 3, 0), &space);
    assert_eq!(c, RGB8Color::from((255, 255, 25)));
}

#[test]
fn counter_clockwise_triangles_face_the_viewer() {
    assert!(is_front_facing(pt(0, 0, 0), pt(3, 0, 0), pt(0, 3, 0)));
    assert!(!is_front_facing(pt(0, 0, 0), pt(0, 3, 0), pt(3, 0, 0)));
    // seen edge-on, neither orientation is visible
    assert!(!is_front_facing(pt(0, 0, 0), pt(3, 0, 0), pt(6, 0, 0)));
    assert!(!is_front_facing(pt(0, 0, 0), pt(6, 0, 0), pt(3, 0, 0)));
}

#[test]
fn triangle_is_drawn_in_exactly_one_orientation() {
    let corners = [pt(1, 1, 0), pt(6, 1, 0), pt(1, 6, 0)];
    let mut facing = lit_space();
    facing.add_tri(corners[0], corners[1], corners[2]);
    let mut screen = Screen::<RGB8Color>::with_size(8, 8);
    Space::draw_space(&facing, RGB8Color::default(), &mut screen);
    assert_eq!(drawn_pixels(&screen), 6 + 5 + 4 + 3 + 2 + 1);
    assert_eq!(screen.pixel(2, 2), Some((RGB8Color::from((25, 25, 25)), s(0))));

    let mut turned = lit_space();
    turned.add_tri(corners[0], corners[2], corners[1]);
    let mut other = Screen::<RGB8Color>::with_size(8, 8);
    Space::draw_space(&turned, RGB8Color::default(), &mut other);
    assert_eq!(drawn_pixels(&other), 0);
}

#[test]
fn lines_are_drawn_in_the_color_supplied() {
    let mut space = lit_space();
    space.add_line(pt(0, 0, 0), pt(3, 0, 0));
    space.add_line(pt(0, 2, 0), pt(0, 3, 0));
    let mut screen = Screen::<RGB8Color>::with_size(4, 4);
    let color = RGB8Color::from((9, 8, 7));
    Space::draw_space(&space, color, &mut screen);
    assert_eq!(drawn_pixels(&screen), 6);
    assert_eq!(screen.pixel(3, 0), Some((color, s(0))));
    assert_eq!(screen.pixel(0, 3), Some((color, s(0))));
}

#[test]
fn lines_in_random_colors_cover_the_same_pixels() {
    let mut space = lit_space();
    space.add_line(pt(0, 0, 0), pt(3, 3, 0));
    space.add_tri(pt(0, 0, -1), pt(3, 0, -1), pt(0, 3, -1));
    let mut screen = Screen::<RGB8Color>::with_size(4, 4);
    draw_space(&space, &mut screen);
    // the triangle lies behind the line
    assert_eq!(screen.pixel(1, 1).unwrap().1, s(0));
    assert_eq!(screen.pixel(3, 3).unwrap().1, s(0));
    assert_eq!(screen.pixel(1, 0), Some((RGB8Color::from((25, 25, 25)), s(-1))));
    assert_eq!(drawn_pixels(&screen), 4 + 3 + 2 + 1 + 2);
}

#[test]
fn light_keeps_what_it_is_given() {
    let l = Light::new(pt(1, 2, 3), RGB8Color::from((4, 5, 6)));
    assert_eq!(l.pos, pt(1, 2, 3));
    assert_eq!(l.col, RGB8Color::from((4, 5, 6)));
    assert_eq!(l.col.red(), 4);
}
