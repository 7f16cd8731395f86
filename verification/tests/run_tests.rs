use graphics::{
    Command, ConfigurationError, Engine, Knob, RGB8Color, Scalar, Script, ScriptError, Target,
};

fn s(n: i64) -> Scalar {
    Scalar::from_int(n)
}

fn ambient() -> [Scalar; 9] {
    [s(1), s(1), s(1), s(0), s(0), s(0), s(0), s(0), s(0)]
}

fn engine(width: usize, height: usize) -> Engine<RGB8Color> {
    let mut eng = Engine::<RGB8Color>::with_screen_dims(width, height);
    eng.set_ambient_light(RGB8Color::from((10, 20, 30)));
    eng
}

fn small_box(x: i64) -> Command {
    Command::Box { x: s(x), y: s(1), z: s(0), h: s(1), w: s(1), d: s(1), constants: ambient() }
}

// The image of a screen six wide and two high on which the boxes that
// start at the given columns have been drawn: each covers two columns.
fn image(boxes: &[usize]) -> Vec<u8> {
    let mut out = b"P6\n6 2\n255\n".to_vec();
    for _row in 0..2 {
        for x in 0..6usize {
            if boxes.iter().any(|b| x == *b || x == *b + 1) {
                out.extend_from_slice(&[10, 20, 30]);
            } else {
                out.extend_from_slice(&[0, 0, 0]);
            }
        }
    }
    out
}

#[test]
fn still_image_is_pictured_at_each_save_and_display() {
    let mut eng = engine(6, 2);
    let script = Script {
        commands: vec![
            small_box(0),
            Command::Save { file: "first.png".to_string() },
            Command::Push,
            Command::Move { x: s(3), y: s(0), z: s(0), knob: Knob::Constant },
            small_box(1),
            Command::Display,
            Command::Pop,
            Command::End,
        ],
    };
    let pictures = script.exec(&mut eng).unwrap();
    assert_eq!(pictures.len(), 2);
    assert!(matches!(&pictures[0].target, Target::File(name) if name == "first.png"));
    assert_eq!(pictures[0].image, image(&[0]));
    assert!(matches!(&pictures[1].target, Target::Display));
    assert_eq!(pictures[1].image, image(&[0, 4]));
    // a still image leaves the engine as the script left it
    assert_eq!(eng.screen().pixel(5, 0).unwrap().0, RGB8Color::from((10, 20, 30)));
}

#[test]
fn still_image_without_save_makes_no_picture() {
    let mut eng = engine(2, 2);
    let script = Script { commands: vec![small_box(0), Command::End] };
    assert_eq!(script.exec(&mut eng).unwrap().len(), 0);
}

#[test]
fn animation_makes_one_picture_for_each_frame() {
    let mut eng = engine(6, 2);
    let script = Script {
        commands: vec![
            Command::Frames { frames: 3 },
            Command::Basename { basename: "slide".to_string() },
            Command::Vary {
                name: "k".to_string(),
                start_frame: 0,
                end_frame: 2,
                start_val: s(0),
                end_val: s(2),
            },
            Command::Move { x: s(1), y: s(0), z: s(0), knob: Knob::Name("k".to_string()) },
            small_box(0),
            Command::Save { file: "ignored.png".to_string() },
            Command::Display,
        ],
    };
    let pictures = script.exec(&mut eng).unwrap();
    assert_eq!(pictures.len(), 3);
    for f in 0..3usize {
        assert!(matches!(pictures[f].target, Target::Frame(n) if n as usize == f));
        assert_eq!(pictures[f].image, image(&[f]));
    }
    // the engine is ready for another frame, and the knob is still there
    assert_eq!(eng.screen().pixel(2, 0).unwrap().1, Scalar::neg_infinity());
    assert_eq!(eng.get_knob_val("k".to_string(), 1), Ok(s(1)));
}

#[test]
fn animation_of_no_frames_makes_no_picture() {
    let mut eng = engine(2, 2);
    let script = Script { commands: vec![Command::Frames { frames: 0 }, small_box(0)] };
    assert_eq!(script.exec(&mut eng).unwrap().len(), 0);
    assert_eq!(eng.screen().pixel(0, 0).unwrap().1, Scalar::neg_infinity());
}

#[test]
fn vary_without_frames_stops_the_script_before_it_starts() {
    let mut eng = engine(2, 2);
    let script = Script {
        commands: vec![
            small_box(0),
            Command::Vary {
                name: "k".to_string(),
                start_frame: 0,
                end_frame: 2,
                start_val: s(0),
                end_val: s(2),
            },
        ],
    };
    assert!(matches!(script.exec(&mut eng), Err(ScriptError::VaryWithoutFrames)));
    assert_eq!(eng.screen().pixel(0, 0).unwrap().1, Scalar::neg_infinity());
    assert_eq!(eng.get_knob_val("k".to_string(), 0), Err(ConfigurationError::UnknownKnob));
}

#[test]
fn vary_of_no_length_stops_an_animation_before_the_first_frame() {
    let mut eng = engine(2, 2);
    let script = Script {
        commands: vec![
            Command::Frames { frames: 4 },
            small_box(0),
            Command::Vary {
                name: "k".to_string(),
                start_frame: 2,
                end_frame: 2,
                start_val: s(0),
                end_val: s(2),
            },
        ],
    };
    assert!(matches!(
        script.exec(&mut eng),
        Err(ScriptError::Command { index: 2, cause: ConfigurationError::ZeroLengthVary })
    ));
    assert_eq!(eng.screen().pixel(0, 0).unwrap().1, Scalar::neg_infinity());
}

#[test]
fn command_that_cannot_run_stops_the_script() {
    let mut eng = engine(2, 2);
    let script = Script {
        commands: vec![
            small_box(0),
            Command::Save { file: "a.png".to_string() },
            Command::Pop,
            small_box(1),
        ],
    };
    assert!(matches!(
        script.exec(&mut eng),
        Err(ScriptError::Command { index: 2, cause: ConfigurationError::StackUnderflow })
    ));
    // what ran before the failure stays
    assert_eq!(eng.screen().pixel(0, 0).unwrap().1, s(0));
    assert_eq!(eng.screen().pixel(1, 1).unwrap().1, s(0));

    let mut again = engine(2, 2);
    let animated = Script {
        commands: vec![
            Command::Frames { frames: 2 },
            Command::Rotate { axis: s(9), theta: s(1), knob: Knob::Constant },
        ],
    };
    assert!(matches!(
        animated.exec(&mut again),
        Err(ScriptError::Command { index: 1, cause: ConfigurationError::UnknownAxis })
    ));
}

#[derive(Clone, Copy)]
struct Glare(u16);

impl graphics::Color for Glare {
    fn spec_red(&self) -> u16 {
        self.0
    }
    fn spec_green(&self) -> u16 {
        0
    }
    fn spec_blue(&self) -> u16 {
        0
    }
    fn spec_max_val() -> u16 {
        100
    }
    fn spec_black() -> Self {
        Glare(0)
    }
    fn spec_mult(&self, _k: (Scalar, Scalar, Scalar)) -> Self {
        *self
    }
    fn spec_plus(&self, rhs: Self) -> Self {
        Glare(self.0 + rhs.0)
    }
    fn spec_minus(&self, rhs: Self) -> Self {
        Glare(self.0 - rhs.0)
    }
    fn red(&self) -> u16 {
        self.0
    }
    fn green(&self) -> u16 {
        0
    }
    fn blue(&self) -> u16 {
        0
    }
    fn random_color() -> Self {
        Glare(0)
    }
    fn max_val() -> u16 {
        100
    }
    fn black() -> Self {
        Glare(0)
    }
    fn mult(&self, _k: (Scalar, Scalar, Scalar)) -> Self {
        *self
    }
    fn plus(self, rhs: Self) -> Self {
        Glare(self.0 + rhs.0)
    }
    fn minus(self, rhs: Self) -> Self {
        Glare(self.0 - rhs.0)
    }
}

#[test]
fn screen_that_cannot_be_written_stops_the_script() {
    let mut eng = Engine::<Glare>::with_screen_dims(2, 2);
    eng.set_ambient_light(Glare(500));
    let still = Script {
        commands: vec![small_box(0), Command::Save { file: "a.png".to_string() }],
    };
    assert!(matches!(
        still.exec(&mut eng),
        Err(ScriptError::Encoding(graphics::EncodingError::ChannelOutOfRange { index: 0 }))
    ));

    let mut again = Engine::<Glare>::with_screen_dims(2, 2);
    again.set_ambient_light(Glare(500));
    let animated = Script { commands: vec![Command::Frames { frames: 2 }, small_box(0)] };
    assert!(matches!(
        animated.exec(&mut again),
        Err(ScriptError::Encoding(graphics::EncodingError::ChannelOutOfRange { index: 0 }))
    ));
    // the screen is left as the commands made it
    assert_eq!(again.screen().pixel(0, 0).unwrap().1, s(0));

    let mut dim = Engine::<Glare>::with_screen_dims(2, 2);
    dim.set_ambient_light(Glare(100));
    let fine = Script { commands: vec![small_box(0), Command::Display] };
    assert_eq!(fine.exec(&mut dim).unwrap().len(), 1);
}
