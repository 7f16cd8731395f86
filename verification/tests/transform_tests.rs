use graphics::space::{move_matrix, rotx_matrix, roty_matrix, rotz_matrix, scale_matrix};
use graphics::trig::{cosine, sine};
use graphics::{ConfigurationError, Modtrix, RGB8Color, Scalar, Space, TransformStack};

fn s(n: i64) -> Scalar {
    Scalar::from_int(n)
}

fn rows(m: &Modtrix) -> [[i64; 4]; 4] {
    let mut out = [[0i64; 4]; 4];
    for i in 0..4 {
        for j in 0..4 {
            out[i][j] = m.store[i][j].raw();
        }
    }
    out
}

fn whole(rows: [[i64; 4]; 4]) -> [[i64; 4]; 4] {
    let mut out = rows;
    for i in 0..4 {
        for j in 0..4 {
            out[i][j] = rows[i][j] * 65536;
        }
    }
    out
}

#[test]
fn identity_has_ones_on_the_diagonal() {
    let m = Modtrix::ident();
    assert_eq!(rows(&m), whole([[1, 0, 0, 0], [0, 1, 0, 0], [0, 0, 1, 0], [0, 0, 0, 1]]));
}

#[test]
fn canonical_matrices() {
    assert_eq!(
        rows(&move_matrix(s(1), s(2), s(3))),
        whole([[1, 0, 0, 1], [0, 1, 0, 2], [0, 0, 1, 3], [0, 0, 0, 1]])
    );
    assert_eq!(
        rows(&scale_matrix(s(2), s(3), s(4))),
        whole([[2, 0, 0, 0], [0, 3, 0, 0], [0, 0, 4, 0], [0, 0, 0, 1]])
    );
    // a quarter turn: sine one, cosine zero
    assert_eq!(
        rows(&rotz_matrix(s(1), s(0))),
        whole([[0, -1, 0, 0], [1, 0, 0, 0], [0, 0, 1, 0], [0, 0, 0, 1]])
    );
    assert_eq!(
        rows(&rotx_matrix(s(1), s(0))),
        whole([[1, 0, 0, 0], [0, 0, -1, 0], [0, 1, 0, 0], [0, 0, 0, 1]])
    );
    assert_eq!(
        rows(&roty_matrix(s(1), s(0))),
        whole([[0, 0, 1, 0], [0, 1, 0, 0], [-1, 0, 0, 0], [0, 0, 0, 1]])
    );
}

#[test]
fn matrix_from_rows() {
    let store = [[s(1), s(2), s(3), s(4)]; 4];
    let m = Modtrix::from(store);
    assert_eq!(m.store, store);
}

#[test]
fn multr_multiplies_from_the_right() {
    let mut m = move_matrix(s(1), s(2), s(3));
    Modtrix::multr(&mut m, &scale_matrix(s(2), s(2), s(2)));
    assert_eq!(rows(&m), whole([[2, 0, 0, 1], [0, 2, 0, 2], [0, 0, 2, 3], [0, 0, 0, 1]]));
    let mut n = scale_matrix(s(2), s(2), s(2));
    Modtrix::multr(&mut n, &move_matrix(s(1), s(2), s(3)));
    assert_eq!(rows(&n), whole([[2, 0, 0, 2], [0, 2, 0, 4], [0, 0, 2, 6], [0, 0, 0, 1]]));
}

#[test]
fn identity_is_neutral() {
    let mut m = move_matrix(s(5), s(-6), s(7));
    let before = m.store;
    Modtrix::multr(&mut m, &Modtrix::ident());
    assert_eq!(m.store, before);
    let mut id = Modtrix::ident();
    Modtrix::multr(&mut id, &m);
    assert_eq!(id.store, before);
}

#[test]
fn push_then_pop_leaves_the_top_unchanged() {
    let mut stack = TransformStack::new();
    stack.apply(&move_matrix(s(1), s(2), s(3)));
    let before = stack.top().store;
    stack.push();
    assert_eq!(stack.top().store, before);
    stack.apply(&scale_matrix(s(9), s(9), s(9)));
    assert_ne!(stack.top().store, before);
    assert_eq!(stack.pop(), Ok(()));
    assert_eq!(stack.top().store, before);
}

#[test]
fn pop_of_the_base_frame_is_rejected() {
    let mut stack = TransformStack::new();
    assert!(stack.is_base());
    assert_eq!(stack.pop(), Err(ConfigurationError::StackUnderflow));
    assert!(stack.is_base());
    assert_eq!(stack.top().store, Modtrix::ident().store);
    stack.push();
    assert!(!stack.is_base());
    assert_eq!(stack.pop(), Ok(()));
    assert_eq!(stack.pop(), Err(ConfigurationError::StackUnderflow));
}

#[test]
fn stack_apply_composes_onto_the_top() {
    let mut stack = TransformStack::new();
    stack.apply(&move_matrix(s(1), s(0), s(0)));
    stack.apply(&scale_matrix(s(2), s(2), s(2)));
    // scale first, then move
    assert_eq!(
        rows(stack.top()),
        whole([[2, 0, 0, 1], [0, 2, 0, 0], [0, 0, 2, 0], [0, 0, 0, 1]])
    );
}

#[test]
fn stack_clear_goes_back_to_the_identity() {
    let mut stack = TransformStack::new();
    stack.push();
    stack.apply(&move_matrix(s(1), s(0), s(0)));
    stack.clear();
    assert!(stack.is_base());
    assert_eq!(stack.top().store, Modtrix::ident().store);
}

#[test]
fn space_collects_lines_and_triangles() {
    let mut space = Space::<RGB8Color>::new();
    assert_eq!(space.lines().len(), 0);
    space.add_line((s(1), s(2), s(3)), (s(4), s(5), s(6)));
    space.add_tri((s(0), s(0), s(0)), (s(1), s(0), s(0)), (s(0), s(1), s(0)));
    space.add_tri((s(0), s(0), s(0)), (s(1), s(0), s(0)), (s(0), s(1), s(0)));
    assert_eq!(space.lines().len(), 1);
    assert_eq!(space.triangles().len(), 2);
    assert_eq!(space.lines()[0].0, [s(1), s(2), s(3), s(1)]);
    assert_eq!(space.lines()[0].1, [s(4), s(5), s(6), s(1)]);
    space.clear_lines();
    assert_eq!(space.lines().len(), 0);
    assert_eq!(space.triangles().len(), 2);
    space.clear_tris();
    assert_eq!(space.triangles().len(), 0);
}

#[test]
fn space_with_capacity_starts_empty() {
    let space = Space::<RGB8Color>::with_capacity(16);
    assert_eq!(space.lines().len(), 0);
    assert_eq!(space.triangles().len(), 0);
    assert_eq!(space.lights().len(), 0);
    assert_eq!(space.camera(), (s(0), s(0), s(1)));
    assert_eq!(space.ambient_light(), RGB8Color::default());
    assert_eq!(space.ambient_reflection(), (s(0), s(0), s(0)));
}

#[test]
fn apply_moves_every_vertex_and_nothing_else() {
    let mut space = Space::<RGB8Color>::new();
    space.set_camera((s(0), s(1), s(0)));
    space.set_ambient_light(RGB8Color::from((1, 2, 3)));
    space.add_line((s(1), s(1), s(1)), (s(2), s(2), s(2)));
    space.add_tri((s(0), s(0), s(0)), (s(1), s(0), s(0)), (s(0), s(1), s(0)));
    space.apply(&move_matrix(s(1), s(2), s(3)));
    assert_eq!(space.lines()[0].0, [s(2), s(3), s(4), s(1)]);
    assert_eq!(space.lines()[0].1, [s(3), s(4), s(5), s(1)]);
    assert_eq!(space.triangles()[0].0, [s(1), s(2), s(3), s(1)]);
    assert_eq!(space.triangles()[0].1, [s(2), s(2), s(3), s(1)]);
    assert_eq!(space.triangles()[0].2, [s(1), s(3), s(3), s(1)]);
    assert_eq!(space.camera(), (s(0), s(1), s(0)));
    assert_eq!(space.ambient_light(), RGB8Color::from((1, 2, 3)));
}

#[test]
fn applying_two_transforms_is_applying_their_product() {
    let first = move_matrix(s(3), s(-1), s(2));
    let second = rotz_matrix(s(1), s(0));
    let mut twice = Space::<RGB8Color>::new();
    twice.add_line((s(1), s(2), s(3)), (s(-4), s(5), s(6)));
    twice.add_tri((s(7), s(8), s(9)), (s(1), s(0), s(0)), (s(0), s(1), s(0)));
    let mut once = Space::<RGB8Color>::new();
    once.add_line((s(1), s(2), s(3)), (s(-4), s(5), s(6)));
    once.add_tri((s(7), s(8), s(9)), (s(1), s(0), s(0)), (s(0), s(1), s(0)));
    twice.apply(&first);
    twice.apply(&second);
    let mut both = second;
    Modtrix::multr(&mut both, &first);
    once.apply(&both);
    assert_eq!(twice.lines()[0], once.lines()[0]);
    assert_eq!(twice.triangles()[0], once.triangles()[0]);
    // (1, 2, 3) moved to (4, 1, 5), then turned a quarter about z: (-1, 4, 5)
    assert_eq!(twice.lines()[0].0, [s(-1), s(4), s(5), s(1)]);
}

#[test]
fn applying_two_transforms_is_nearly_applying_their_product_where_products_round() {
    let first = rotz_matrix(sine(s(30)), cosine(s(30)));
    let second = scale_matrix(Scalar::from_ratio(3, 2), Scalar::from_ratio(1, 3), s(1));
    let mut twice = Space::<RGB8Color>::new();
    twice.add_line((s(100), s(37), s(-5)), (s(-41), s(250), s(63)));
    let mut once = Space::<RGB8Color>::new();
    once.add_line((s(100), s(37), s(-5)), (s(-41), s(250), s(63)));
    twice.apply(&first);
    twice.apply(&second);
    let mut both = second;
    Modtrix::multr(&mut both, &first);
    once.apply(&both);
    for end in [(twice.lines()[0].0, once.lines()[0].0), (twice.lines()[0].1, once.lines()[0].1)] {
        for c in 0..4 {
            let apart = (end.0[c].raw() - end.1[c].raw()).abs();
            // four raw counts for each unit of the sizes involved, and eight more
            assert!(apart <= 4 * (2 + 400) + 8);
        }
    }
    // (100, 37) turned by thirty degrees is about (68.1, 82.0)
    let x = twice.lines()[0].0[0].raw() as f64 / 65536.0;
    let y = twice.lines()[0].0[1].raw() as f64 / 65536.0;
    assert!((x - 1.5 * 68.1025).abs() < 0.01);
    assert!((y - 82.0429 / 3.0).abs() < 0.01);
}
