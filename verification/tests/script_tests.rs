use graphics::{
    Command, ConfigurationError, Engine, Knob, Modtrix, Output, Plan, RGB8Color, Scalar, Script,
    ScriptError,
};

fn s(n: i64) -> Scalar {
    Scalar::from_int(n)
}

fn zeros() -> [Scalar; 9] {
    [s(0); 9]
}

fn ambient() -> [Scalar; 9] {
    [s(1), s(1), s(1), s(0), s(0), s(0), s(0), s(0), s(0)]
}

fn engine() -> Engine<RGB8Color> {
    let mut eng = Engine::<RGB8Color>::with_screen_dims(8, 8);
    eng.set_ambient_light(RGB8Color::from((10, 20, 30)));
    eng
}

fn whole_rows(m: &Modtrix) -> [[i64; 4]; 4] {
    let mut out = [[0i64; 4]; 4];
    for i in 0..4 {
        for j in 0..4 {
            assert_eq!(m.store[i][j].raw() % 65536, 0);
            out[i][j] = m.store[i][j].raw() / 65536;
        }
    }
    out
}

fn drawn(eng: &Engine<RGB8Color>) -> Vec<(usize, usize)> {
    let mut out = Vec::new();
    let screen = eng.screen();
    for y in 0..screen.height() {
        for x in 0..screen.width() {
            if screen.pixel(x, y).unwrap().1 != Scalar::neg_infinity() {
                out.push((x, y));
            }
        }
    }
    out
}

fn line(x0: i64, y0: i64, x1: i64, y1: i64) -> Command {
    Command::Line { x0: s(x0), y0: s(y0), z0: s(0), x1: s(x1), y1: s(y1), z1: s(0) }
}

fn vary(name: &str, start_frame: u32, end_frame: u32, from: i64, to: i64) -> Command {
    Command::Vary {
        name: name.to_string(),
        start_frame,
        end_frame,
        start_val: s(from),
        end_val: s(to),
    }
}

#[test]
fn script_without_frames_is_a_still_image() {
    let script = Script {
        commands: vec![Command::Push, line(0, 0, 1, 1), Command::Display, Command::End],
    };
    assert!(matches!(script.plan(), Ok(Plan::Still)));
    let empty = Script { commands: vec![] };
    assert!(matches!(empty.plan(), Ok(Plan::Still)));
}

#[test]
fn a_basename_alone_makes_no_animation() {
    let script = Script {
        commands: vec![Command::Basename { basename: "spin".to_string() }, line(0, 0, 1, 1)],
    };
    assert!(matches!(script.plan(), Ok(Plan::Still)));
}

#[test]
fn last_frames_and_basename_commands_count() {
    let script = Script {
        commands: vec![
            Command::Frames { frames: 10 },
            Command::Basename { basename: "first".to_string() },
            vary("k", 0, 9, 0, 1),
            Command::Frames { frames: 20 },
            Command::Basename { basename: "second".to_string() },
            Command::End,
        ],
    };
    match script.plan() {
        Ok(Plan::Animation { frames, basename }) => {
            assert_eq!(frames, 20);
            assert_eq!(basename, Some("second".to_string()));
        }
        _ => panic!("an animation was expected"),
    }
}

#[test]
fn animation_without_a_basename() {
    let script = Script { commands: vec![Command::Frames { frames: 3 }] };
    match script.plan() {
        Ok(Plan::Animation { frames, basename }) => {
            assert_eq!(frames, 3);
            assert_eq!(basename, None);
        }
        _ => panic!("an animation was expected"),
    }
}

#[test]
fn vary_without_frames_is_rejected() {
    let script = Script { commands: vec![Command::Push, vary("k", 0, 9, 0, 1)] };
    assert!(matches!(script.plan(), Err(ScriptError::VaryWithoutFrames)));
}

#[test]
fn only_still_images_are_saved_and_shown_on_command() {
    let save = Command::Save { file: "out.png".to_string() };
    assert!(matches!(save.output(false), Output::Save(name) if name == "out.png"));
    assert!(matches!(save.output(true), Output::Nothing));
    assert!(matches!(Command::Display.output(false), Output::Display));
    assert!(matches!(Command::Display.output(true), Output::Nothing));
    assert!(matches!(Command::Push.output(false), Output::Nothing));
    assert!(matches!(line(0, 0, 1, 1).output(false), Output::Nothing));
}

#[test]
fn transform_commands_change_the_current_frame() {
    let mut eng = engine();
    let color = RGB8Color::default();
    assert_eq!(eng.execute_with(&Command::Push, None, color), Ok(()));
    let mv = Command::Move { x: s(1), y: s(2), z: s(3), knob: Knob::Constant };
    assert_eq!(eng.execute_with(&mv, None, color), Ok(()));
    let sc = Command::Scale { x: s(2), y: s(2), z: s(2), knob: Knob::Constant };
    assert_eq!(eng.execute_with(&sc, None, color), Ok(()));
    let rot = Command::Rotate { axis: s(2), theta: s(90), knob: Knob::Constant };
    assert_eq!(eng.execute_with(&rot, None, color), Ok(()));
    assert_eq!(
        whole_rows(eng.current_frame()),
        [[0, -2, 0, 1], [2, 0, 0, 2], [0, 0, 2, 3], [0, 0, 0, 1]]
    );
    assert_eq!(eng.execute_with(&Command::Pop, None, color), Ok(()));
    assert_eq!(eng.current_frame().store, Modtrix::ident().store);
    assert_eq!(
        eng.execute_with(&Command::Pop, None, color),
        Err(ConfigurationError::StackUnderflow)
    );
}

#[test]
fn failing_commands_change_nothing() {
    let mut eng = engine();
    let color = RGB8Color::default();
    let mv = Command::Move { x: s(1), y: s(2), z: s(3), knob: Knob::Constant };
    assert_eq!(eng.execute_with(&mv, None, color), Ok(()));
    let before = eng.current_frame().store;
    let rot = Command::Rotate { axis: s(7), theta: s(90), knob: Knob::Constant };
    assert_eq!(eng.execute_with(&rot, None, color), Err(ConfigurationError::UnknownAxis));
    let named = Command::Move { x: s(1), y: s(1), z: s(1), knob: Knob::Name("k".to_string()) };
    assert_eq!(eng.execute_with(&named, Some(0), color), Err(ConfigurationError::UnknownKnob));
    assert_eq!(eng.add_vary("k".to_string(), 0, 1, s(0), s(1), 1), Ok(()));
    assert_eq!(eng.execute_with(&named, Some(2), color), Err(ConfigurationError::FrameOutOfRange));
    assert_eq!(eng.current_frame().store, before);
}

#[test]
fn knobs_scale_the_arguments_of_transforms_frame_by_frame() {
    let mut eng = engine();
    let color = RGB8Color::default();
    assert_eq!(eng.add_vary("k".to_string(), 0, 4, s(0), s(4), 4), Ok(()));
    let mv = Command::Move { x: s(1), y: s(2), z: s(3), knob: Knob::Name("k".to_string()) };
    assert_eq!(eng.execute_with(&mv, Some(3), color), Ok(()));
    assert_eq!(
        whole_rows(eng.current_frame()),
        [[1, 0, 0, 3], [0, 1, 0, 6], [0, 0, 1, 9], [0, 0, 0, 1]]
    );
    eng.clear_stack();
    let sc = Command::Scale { x: s(1), y: s(2), z: s(3), knob: Knob::Name("k".to_string()) };
    assert_eq!(eng.execute_with(&sc, Some(2), color), Ok(()));
    assert_eq!(
        whole_rows(eng.current_frame()),
        [[2, 0, 0, 0], [0, 4, 0, 0], [0, 0, 6, 0], [0, 0, 0, 1]]
    );
    eng.clear_stack();
    let rot = Command::Rotate { axis: s(2), theta: s(45), knob: Knob::Name("k".to_string()) };
    assert_eq!(eng.execute_with(&rot, Some(2), color), Ok(()));
    assert_eq!(
        whole_rows(eng.current_frame()),
        [[0, -1, 0, 0], [1, 0, 0, 0], [0, 0, 1, 0], [0, 0, 0, 1]]
    );
}

#[test]
fn knobs_are_not_consulted_for_a_still_image() {
    let mut eng = engine();
    let mv = Command::Move { x: s(1), y: s(2), z: s(3), knob: Knob::Name("nobody".to_string()) };
    assert_eq!(eng.execute_with(&mv, None, RGB8Color::default()), Ok(()));
    assert_eq!(
        whole_rows(eng.current_frame()),
        [[1, 0, 0, 1], [0, 1, 0, 2], [0, 0, 1, 3], [0, 0, 0, 1]]
    );
}

#[test]
fn drawing_commands_draw_at_once_and_drop_their_geometry() {
    let mut eng = engine();
    let color = RGB8Color::from((1, 2, 3));
    let mv = Command::Move { x: s(2), y: s(1), z: s(0), knob: Knob::Constant };
    assert_eq!(eng.execute_with(&mv, None, color), Ok(()));
    assert_eq!(eng.execute_with(&line(0, 0, 3, 0), None, color), Ok(()));
    assert_eq!(drawn(&eng), vec![(2, 1), (3, 1), (4, 1), (5, 1)]);
    assert_eq!(eng.screen().pixel(2, 1), Some((color, s(0))));
    assert_eq!(eng.space().lines().len(), 0);
    assert_eq!(eng.space().triangles().len(), 0);
    let bx = Command::Box { x: s(0), y: s(3), z: s(0), h: s(2), w: s(2), d: s(2), constants: ambient() };
    assert_eq!(eng.execute_with(&bx, None, color), Ok(()));
    assert_eq!(eng.space().triangles().len(), 0);
    assert_eq!(eng.space().ambient_reflection(), (s(1), s(1), s(1)));
    // the front face: x from 2 to 4, y from 2 to 4
    assert_eq!(eng.screen().pixel(3, 3), Some((RGB8Color::from((10, 20, 30)), s(0))));
    assert_eq!(drawn(&eng).len(), 4 + 9);
}

#[test]
fn sphere_and_torus_commands_draw_something_round() {
    let mut eng = engine();
    let mv = Command::Move { x: s(4), y: s(4), z: s(0), knob: Knob::Constant };
    assert_eq!(eng.execute(&mv, None), Ok(()));
    let sp = Command::Sphere { x: s(0), y: s(0), z: s(0), r: s(3), constants: ambient() };
    assert_eq!(eng.execute(&sp, None), Ok(()));
    let pixels = drawn(&eng);
    assert!(pixels.contains(&(4, 4)));
    assert!(!pixels.contains(&(0, 0)));
    assert!(!pixels.contains(&(7, 7)));
    assert_eq!(eng.space().triangles().len(), 0);
    eng.clear_screen();
    let to = Command::Torus { x: s(0), y: s(0), z: s(0), r0: s(1), r1: s(2), constants: zeros() };
    assert_eq!(eng.execute(&to, None), Ok(()));
    assert!(!drawn(&eng).is_empty());
    assert!(!drawn(&eng).contains(&(0, 0)));
}

#[test]
fn other_commands_do_nothing_to_the_engine() {
    let mut eng = engine();
    for c in [
        Command::Save { file: "a.png".to_string() },
        Command::Display,
        Command::Basename { basename: "b".to_string() },
        Command::Frames { frames: 5 },
        vary("k", 0, 4, 0, 1),
        Command::End,
    ] {
        assert_eq!(eng.execute(&c, None), Ok(()));
        assert_eq!(eng.execute(&c, Some(1)), Ok(()));
    }
    assert_eq!(drawn(&eng), vec![]);
    assert_eq!(eng.current_frame().store, Modtrix::ident().store);
    assert_eq!(eng.get_knob_val("k".to_string(), 0), Err(ConfigurationError::UnknownKnob));
}

#[test]
fn varies_are_registered_in_script_order() {
    let mut eng = engine();
    let commands = vec![
        Command::Frames { frames: 4 },
        vary("a", 0, 2, 0, 2),
        Command::Push,
        vary("b", 1, 3, 10, 30),
        vary("a", 3, 4, 7, 8),
    ];
    assert_eq!(eng.register_varies(&commands, 4), Ok(()));
    let a: Vec<Scalar> = (0..5).map(|f| eng.get_knob_val("a".to_string(), f).unwrap()).collect();
    assert_eq!(a, vec![s(0), s(1), s(2), s(7), s(8)]);
    assert_eq!(eng.get_knob_val("b".to_string(), 2), Ok(s(20)));
    assert_eq!(eng.current_frame().store, Modtrix::ident().store);
}

#[test]
fn first_bad_vary_stops_the_registration() {
    let mut eng = engine();
    let commands = vec![vary("a", 0, 2, 0, 2), Command::Push, vary("b", 3, 3, 0, 1), vary("c", 0, 1, 0, 1)];
    assert_eq!(
        eng.register_varies(&commands, 4),
        Err(ScriptError::Command { index: 2, cause: ConfigurationError::ZeroLengthVary })
    );
    assert_eq!(eng.get_knob_val("a".to_string(), 1), Ok(s(1)));
    assert_eq!(eng.get_knob_val("c".to_string(), 0), Err(ConfigurationError::UnknownKnob));
    let too_far = vec![vary("d", 0, 9, 0, 1)];
    assert_eq!(
        eng.register_varies(&too_far, 4),
        Err(ScriptError::Command { index: 0, cause: ConfigurationError::VaryOutOfRange })
    );
}

#[test]
fn frame_is_drawn_written_out_and_the_engine_reset() {
    let mut eng = Engine::<RGB8Color>::with_screen_dims(4, 2);
    eng.set_ambient_light(RGB8Color::from((10, 20, 30)));
    let commands = vec![
        Command::Frames { frames: 3 },
        vary("slide", 0, 2, 0, 2),
        Command::Push,
        Command::Move { x: s(1), y: s(0), z: s(0), knob: Knob::Name("slide".to_string()) },
        Command::Box { x: s(0), y: s(1), z: s(0), h: s(1), w: s(1), d: s(1), constants: ambient() },
        Command::Pop,
        Command::Save { file: "never.png".to_string() },
    ];
    assert_eq!(eng.register_varies(&commands, 3), Ok(()));
    for frame in 0..3u32 {
        let bytes = eng.render_frame(&commands, frame).unwrap();
        let mut expected = b"P6\n4 2\n255\n".to_vec();
        for _row in 0..2 {
            for x in 0..4u32 {
                if x == frame || x == frame + 1 {
                    expected.extend_from_slice(&[10, 20, 30]);
                } else {
                    expected.extend_from_slice(&[0, 0, 0]);
                }
            }
        }
        assert_eq!(bytes, expected);
        assert_eq!(drawn(&eng), vec![]);
        assert_eq!(eng.current_frame().store, Modtrix::ident().store);
        assert_eq!(eng.space().triangles().len(), 0);
    }
}

#[test]
fn frame_stops_at_the_first_command_that_cannot_run() {
    let mut eng = engine();
    let commands = vec![
        Command::Push,
        Command::Move { x: s(1), y: s(0), z: s(0), knob: Knob::Constant },
        Command::Rotate { axis: s(5), theta: s(1), knob: Knob::Constant },
        line(0, 0, 3, 3),
    ];
    assert_eq!(
        eng.render_frame(&commands, 0),
        Err(ScriptError::Command { index: 2, cause: ConfigurationError::UnknownAxis })
    );
    // what ran before the failure stays
    assert_eq!(
        whole_rows(eng.current_frame()),
        [[1, 0, 0, 1], [0, 1, 0, 0], [0, 0, 1, 0], [0, 0, 0, 1]]
    );
    assert_eq!(eng.pop_sys(), Ok(()));
    assert_eq!(drawn(&eng), vec![]);
}
