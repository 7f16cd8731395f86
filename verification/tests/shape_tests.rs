use graphics::draw::{angle_of_turn, sphere_points, torus_points, RESOLUTION};
use graphics::{
    add_bezier, add_box, add_circle, add_hermite, add_sphere, add_torus, RGB8Color, Scalar, Space,
};

fn s(n: i64) -> Scalar {
    Scalar::from_int(n)
}

fn v(x: i64, y: i64, z: i64) -> [Scalar; 4] {
    [s(x), s(y), s(z), s(1)]
}

fn near(a: Scalar, b: i64) -> bool {
    (a.raw() - b * 65536).abs() <= 64
}

#[test]
fn angles_are_fractions_of_a_turn() {
    assert_eq!(angle_of_turn(0, 20), s(0));
    assert_eq!(angle_of_turn(5, 20), s(90));
    assert_eq!(angle_of_turn(20, 20), s(360));
    assert_eq!(angle_of_turn(19, 38), s(180));
    assert_eq!(angle_of_turn(1, 19).raw(), 360 * 65536 / 19);
}

#[test]
fn box_is_twelve_triangles() {
    let mut space = Space::<RGB8Color>::new();
    add_box(s(1), s(5), s(2), s(3), s(4), s(6), &mut space);
    let t = space.triangles();
    assert_eq!(t.len(), 12);
    // front face
    assert_eq!(t[0], (v(1, 5, 2), v(1, 1, 2), v(4, 1, 2)));
    assert_eq!(t[1], (v(1, 5, 2), v(4, 1, 2), v(4, 5, 2)));
    // right face
    assert_eq!(t[2], (v(4, 5, 2), v(4, 1, 2), v(4, 1, -4)));
    assert_eq!(t[3], (v(4, 5, 2), v(4, 1, -4), v(4, 5, -4)));
    // back face
    assert_eq!(t[4], (v(1, 5, -4), v(4, 1, -4), v(1, 1, -4)));
    assert_eq!(t[5], (v(4, 5, -4), v(4, 1, -4), v(1, 5, -4)));
    // left face
    assert_eq!(t[6], (v(1, 5, 2), v(1, 1, -4), v(1, 1, 2)));
    assert_eq!(t[7], (v(1, 5, 2), v(1, 5, -4), v(1, 1, -4)));
    // top face
    assert_eq!(t[8], (v(4, 5, -4), v(1, 5, 2), v(4, 5, 2)));
    assert_eq!(t[9], (v(4, 5, -4), v(1, 5, -4), v(1, 5, 2)));
    // bottom face
    assert_eq!(t[10], (v(4, 1, 2), v(1, 1, 2), v(4, 1, -4)));
    assert_eq!(t[11], (v(1, 1, 2), v(1, 1, -4), v(4, 1, -4)));
    assert_eq!(space.lines().len(), 0);
}

#[test]
fn box_is_added_after_what_is_there() {
    let mut space = Space::<RGB8Color>::new();
    space.add_tri((s(0), s(0), s(0)), (s(1), s(0), s(0)), (s(0), s(1), s(0)));
    add_box(s(0), s(1), s(0), s(1), s(1), s(1), &mut space);
    assert_eq!(space.triangles().len(), 13);
    assert_eq!(space.triangles()[0], (v(0, 0, 0), v(1, 0, 0), v(0, 1, 0)));
}

#[test]
fn sphere_points_run_from_pole_to_pole() {
    let p = sphere_points(s(1), s(2), s(3), s(10));
    assert_eq!(p.len(), RESOLUTION * RESOLUTION);
    // the first half circle starts at one pole and ends at the other
    assert_eq!(p[0], (s(11), s(2), s(3)));
    assert_eq!(p[19], (s(-9), s(2), s(3)));
    // every half circle does
    assert_eq!(p[7 * 20], (s(11), s(2), s(3)));
    assert_eq!(p[7 * 20 + 19], (s(-9), s(2), s(3)));
    // all points lie ten from the center
    for q in p.iter() {
        let dx = (q.0.raw() - 65536) as f64 / 65536.0;
        let dy = (q.1.raw() - 2 * 65536) as f64 / 65536.0;
        let dz = (q.2.raw() - 3 * 65536) as f64 / 65536.0;
        let r = (dx * dx + dy * dy + dz * dz).sqrt();
        assert!((r - 10.0).abs() < 0.01);
    }
}

#[test]
fn sphere_is_a_mesh_of_720_triangles() {
    let mut space = Space::<RGB8Color>::new();
    add_sphere(s(0), s(0), s(0), s(10), &mut space);
    assert_eq!(space.triangles().len(), 20 * (1 + 1 + 17 * 2));
    let p = sphere_points(s(0), s(0), s(0), s(10));
    let t = space.triangles();
    let h = |q: (Scalar, Scalar, Scalar)| [q.0, q.1, q.2, s(1)];
    // at the pole one triangle, then two for each step
    assert_eq!(t[0], (h(p[0]), h(p[1]), h(p[21])));
    assert_eq!(t[1], (h(p[1]), h(p[2]), h(p[22])));
    assert_eq!(t[2], (h(p[1]), h(p[22]), h(p[21])));
    // the last half circle closes onto the first
    let last = t[t.len() - 1];
    assert_eq!(last, (h(p[19 * 20 + 18]), h(p[19]), h(p[18])));
}

#[test]
fn torus_points_lie_on_the_tube() {
    let p = torus_points(s(0), s(0), s(0), s(2), s(10));
    assert_eq!(p.len(), 400);
    assert_eq!(p[0], (s(12), s(0), s(0)));
    // a quarter around the tube: top of the tube
    assert_eq!(p[5], (s(10), s(2), s(0)));
    // half around the tube: inner side
    assert_eq!(p[10], (s(8), s(0), s(0)));
    // a quarter around the axis
    assert_eq!(p[5 * 20], (s(0), s(0), s(12)));
    assert!(near(p[10 * 20].0, -12));
}

#[test]
fn torus_is_a_mesh_of_800_triangles() {
    let mut space = Space::<RGB8Color>::new();
    add_torus(s(0), s(0), s(0), s(2), s(10), &mut space);
    assert_eq!(space.triangles().len(), 800);
    let p = torus_points(s(0), s(0), s(0), s(2), s(10));
    let t = space.triangles();
    let h = |q: (Scalar, Scalar, Scalar)| [q.0, q.1, q.2, s(1)];
    assert_eq!(t[0], (h(p[0]), h(p[1]), h(p[21])));
    assert_eq!(t[1], (h(p[0]), h(p[21]), h(p[20])));
    // the last step around the tube closes onto the first
    assert_eq!(t[2 * 19], (h(p[19]), h(p[0]), h(p[20])));
    assert_eq!(t[2 * 19 + 1], (h(p[19]), h(p[20]), h(p[39])));
    // the last circle closes onto the first
    assert_eq!(t[799], (h(p[399]), h(p[0]), h(p[19])));
}

#[test]
fn circle_is_twenty_lines_end_to_end() {
    let mut space = Space::<RGB8Color>::new();
    add_circle(s(5), s(5), s(1), s(4), &mut space);
    let l = space.lines();
    assert_eq!(l.len(), 20);
    assert_eq!(l[0].0, [s(9), s(5), s(1), s(1)]);
    assert_eq!(l[4].1, [s(5), s(9), s(1), s(1)]);
    assert_eq!(l[9].1, [s(1), s(5), s(1), s(1)]);
    assert_eq!(l[19].1, [s(9), s(5), s(1), s(1)]);
    for i in 0..19 {
        assert_eq!(l[i].1, l[i + 1].0);
    }
    assert_eq!(space.triangles().len(), 0);
}

#[test]
fn hermite_curve_runs_from_start_to_end() {
    let mut space = Space::<RGB8Color>::new();
    add_hermite(s(1), s(2), s(30), s(40), s(5), s(0), s(0), s(-5), &mut space);
    let l = space.lines();
    assert_eq!(l.len(), 20);
    assert_eq!(l[0].0, [s(1), s(2), s(0), s(1)]);
    assert_eq!(l[19].1, [s(30), s(40), s(0), s(1)]);
    for i in 0..19 {
        assert_eq!(l[i].1, l[i + 1].0);
    }
}

#[test]
fn hermite_curve_without_slopes_at_its_middle() {
    let mut space = Space::<RGB8Color>::new();
    add_hermite(s(0), s(0), s(16), s(-16), s(0), s(0), s(0), s(0), &mut space);
    // at t = 1/2 the cubic -2 t^3 + 3 t^2 is 1/2
    assert_eq!(space.lines()[10].0, [s(8), s(-8), s(0), s(1)]);
}

#[test]
fn bezier_curve_runs_from_start_to_end() {
    let mut space = Space::<RGB8Color>::new();
    add_bezier(s(0), s(0), s(10), s(30), s(20), s(30), s(30), s(0), &mut space);
    let l = space.lines();
    assert_eq!(l.len(), 20);
    assert_eq!(l[0].0, [s(0), s(0), s(0), s(1)]);
    assert_eq!(l[19].1, [s(30), s(0), s(0), s(1)]);
    // at t = 1/2: x = 15 and y = 3/4 * 30
    assert_eq!(l[10].0, [s(15), Scalar::from_ratio(45, 2), s(0), s(1)]);
}
