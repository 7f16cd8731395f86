use graphics::{ConfigurationError, Engine, Light, Modtrix, RGB8Color, Scalar};

fn s(n: i64) -> Scalar {
    Scalar::from_int(n)
}

fn whole_rows(m: &Modtrix) -> [[i64; 4]; 4] {
    let mut out = [[0i64; 4]; 4];
    for i in 0..4 {
        for j in 0..4 {
            assert_eq!(m.store[i][j].raw() % 65536, 0);
            out[i][j] = m.store[i][j].raw() / 65536;
        }
    }
    out
}

fn drawn(eng: &Engine<RGB8Color>) -> Vec<(usize, usize)> {
    let mut out = Vec::new();
    let screen = eng.screen();
    for y in 0..screen.height() {
        for x in 0..screen.width() {
            if screen.pixel(x, y).unwrap().1 != Scalar::neg_infinity() {
                out.push((x, y));
            }
        }
    }
    out
}

#[test]
fn new_engine_is_empty() {
    let eng = Engine::<RGB8Color>::with_screen_dims(5, 4);
    assert_eq!(eng.screen().width(), 5);
    assert_eq!(eng.screen().height(), 4);
    assert_eq!(eng.space().lines().len(), 0);
    assert_eq!(eng.space().triangles().len(), 0);
    assert_eq!(eng.current_frame().store, Modtrix::ident().store);
    assert_eq!(drawn(&eng), vec![]);
}

#[test]
fn transforms_compose_onto_the_current_frame() {
    let mut eng = Engine::<RGB8Color>::with_screen_dims(4, 4);
    eng.move_sys(s(1), s(2), s(3));
    eng.scale_sys(s(2), s(2), s(2));
    assert_eq!(
        whole_rows(eng.current_frame()),
        [[2, 0, 0, 1], [0, 2, 0, 2], [0, 0, 2, 3], [0, 0, 0, 1]]
    );
    assert_eq!(eng.rotate_sys(s(2), s(90)), Ok(()));
    assert_eq!(
        whole_rows(eng.current_frame()),
        [[0, -2, 0, 1], [2, 0, 0, 2], [0, 0, 2, 3], [0, 0, 0, 1]]
    );
}

#[test]
fn rotation_about_each_axis() {
    let mut x = Engine::<RGB8Color>::with_screen_dims(1, 1);
    assert_eq!(x.rotate_sys(s(0), s(90)), Ok(()));
    assert_eq!(
        whole_rows(x.current_frame()),
        [[1, 0, 0, 0], [0, 0, -1, 0], [0, 1, 0, 0], [0, 0, 0, 1]]
    );
    let mut y = Engine::<RGB8Color>::with_screen_dims(1, 1);
    assert_eq!(y.rotate_sys(s(1), s(90)), Ok(()));
    assert_eq!(
        whole_rows(y.current_frame()),
        [[0, 0, 1, 0], [0, 1, 0, 0], [-1, 0, 0, 0], [0, 0, 0, 1]]
    );
    let mut z = Engine::<RGB8Color>::with_screen_dims(1, 1);
    assert_eq!(z.rotate_sys(s(2), s(-90)), Ok(()));
    assert_eq!(
        whole_rows(z.current_frame()),
        [[0, 1, 0, 0], [-1, 0, 0, 0], [0, 0, 1, 0], [0, 0, 0, 1]]
    );
}

#[test]
fn rotation_about_an_unknown_axis_is_rejected() {
    let mut eng = Engine::<RGB8Color>::with_screen_dims(1, 1);
    eng.move_sys(s(1), s(2), s(3));
    let before = eng.current_frame().store;
    assert_eq!(eng.rotate_sys(s(3), s(90)), Err(ConfigurationError::UnknownAxis));
    assert_eq!(eng.rotate_sys(s(-1), s(90)), Err(ConfigurationError::UnknownAxis));
    assert_eq!(
        eng.rotate_sys(Scalar::from_ratio(1, 2), s(90)),
        Err(ConfigurationError::UnknownAxis)
    );
    assert_eq!(eng.current_frame().store, before);
}

#[test]
fn push_and_pop_nest_frames() {
    let mut eng = Engine::<RGB8Color>::with_screen_dims(1, 1);
    eng.move_sys(s(1), s(0), s(0));
    let outer = eng.current_frame().store;
    eng.push_sys();
    assert_eq!(eng.current_frame().store, outer);
    eng.move_sys(s(0), s(5), s(0));
    assert_eq!(
        whole_rows(eng.current_frame()),
        [[1, 0, 0, 1], [0, 1, 0, 5], [0, 0, 1, 0], [0, 0, 0, 1]]
    );
    assert_eq!(eng.pop_sys(), Ok(()));
    assert_eq!(eng.current_frame().store, outer);
    assert_eq!(eng.pop_sys(), Err(ConfigurationError::StackUnderflow));
    assert_eq!(eng.current_frame().store, outer);
}

#[test]
fn clear_stack_goes_back_to_the_identity() {
    let mut eng = Engine::<RGB8Color>::with_screen_dims(1, 1);
    eng.push_sys();
    eng.scale_sys(s(3), s(3), s(3));
    eng.clear_stack();
    assert_eq!(eng.current_frame().store, Modtrix::ident().store);
    assert_eq!(eng.pop_sys(), Err(ConfigurationError::StackUnderflow));
}

#[test]
fn geometry_is_moved_into_the_current_frame_and_drawn() {
    let mut eng = Engine::<RGB8Color>::with_screen_dims(8, 8);
    eng.move_sys(s(2), s(3), s(0));
    eng.add_line((s(0), s(0), s(0)), (s(3), s(0), s(0)));
    assert_eq!(eng.space().lines().len(), 1);
    eng.apply_sys();
    assert_eq!(eng.space().lines()[0].0, [s(2), s(3), s(0), s(1)]);
    eng.draw_space();
    assert_eq!(drawn(&eng), vec![(2, 3), (3, 3), (4, 3), (5, 3)]);
    eng.clear_lines();
    assert_eq!(eng.space().lines().len(), 0);
    eng.clear_screen();
    assert_eq!(drawn(&eng), vec![]);
}

#[test]
fn shapes_go_to_the_space() {
    let mut eng = Engine::<RGB8Color>::with_screen_dims(8, 8);
    eng.add_box((s(0), s(4), s(0)), s(4), s(2), s(1));
    assert_eq!(eng.space().triangles().len(), 12);
    // the corner, then height 4 down and width 2 across
    assert_eq!(eng.space().triangles()[0].0, [s(0), s(4), s(0), s(1)]);
    assert_eq!(eng.space().triangles()[0].1, [s(0), s(0), s(0), s(1)]);
    assert_eq!(eng.space().triangles()[0].2, [s(2), s(0), s(0), s(1)]);
    eng.add_sphere((s(0), s(0), s(0)), s(3));
    assert_eq!(eng.space().triangles().len(), 12 + 720);
    eng.add_torus((s(0), s(0), s(0)), s(1), s(3));
    assert_eq!(eng.space().triangles().len(), 12 + 720 + 800);
    eng.clear_tris();
    assert_eq!(eng.space().triangles().len(), 0);
}

#[test]
fn lighting_state_is_plain_replacement() {
    let mut eng = Engine::<RGB8Color>::with_screen_dims(1, 1);
    eng.set_ambient_light(RGB8Color::from((50, 50, 50)));
    eng.add_light(Light::new((s(1), s(2), s(3)), RGB8Color::from((255, 255, 255))));
    eng.set_camera((s(0), s(0), s(1)));
    let k = [s(1), s(2), s(3), s(4), s(5), s(6), s(7), s(8), s(9)];
    eng.set_constants(k);
    assert_eq!(eng.space().ambient_light(), RGB8Color::from((50, 50, 50)));
    assert_eq!(eng.space().lights().len(), 1);
    assert_eq!(eng.space().lights()[0].pos, (s(1), s(2), s(3)));
    assert_eq!(eng.space().camera(), (s(0), s(0), s(1)));
    assert_eq!(eng.space().ambient_reflection(), (s(1), s(2), s(3)));
    assert_eq!(eng.space().diffuse_reflection(), (s(4), s(5), s(6)));
    assert_eq!(eng.space().specular_reflection(), (s(7), s(8), s(9)));
}

#[test]
fn box_is_shaded_and_written_out() {
    let mut eng = Engine::<RGB8Color>::with_screen_dims(4, 4);
    eng.set_ambient_light(RGB8Color::from((100, 100, 100)));
    let half = Scalar::from_ratio(1, 2);
    eng.set_constants([half, half, half, s(0), s(0), s(0), s(0), s(0), s(0)]);
    eng.add_box((s(0), s(3), s(0)), s(3), s(3), s(3));
    eng.apply_sys();
    eng.draw_space_with(RGB8Color::default());
    // only the front face looks at the viewer
    assert_eq!(drawn(&eng).len(), 16);
    let bytes = eng.ppm_byte_vec().unwrap();
    let header = b"P6\n4 4\n255\n";
    assert_eq!(&bytes[..header.len()], header);
    assert!(bytes[header.len()..].iter().all(|b| *b == 50));
}

#[test]
fn reset_for_next_frame_keeps_lights_and_knobs() {
    let mut eng = Engine::<RGB8Color>::with_screen_dims(4, 4);
    eng.add_light(Light::new((s(1), s(2), s(3)), RGB8Color::from((255, 255, 255))));
    assert_eq!(eng.add_vary("k".to_string(), 0, 1, s(0), s(1), 1), Ok(()));
    eng.push_sys();
    eng.move_sys(s(1), s(1), s(1));
    eng.add_line((s(0), s(0), s(0)), (s(1), s(1), s(0)));
    eng.add_box((s(0), s(1), s(0)), s(1), s(1), s(1));
    eng.apply_sys();
    eng.draw_space();
    eng.reset_for_next_frame();
    assert_eq!(drawn(&eng), vec![]);
    assert_eq!(eng.space().lines().len(), 0);
    assert_eq!(eng.space().triangles().len(), 0);
    assert_eq!(eng.current_frame().store, Modtrix::ident().store);
    assert_eq!(eng.pop_sys(), Err(ConfigurationError::StackUnderflow));
    assert_eq!(eng.space().lights().len(), 1);
    assert_eq!(eng.get_knob_val("k".to_string(), 0), Ok(s(0)));
}
