use graphics::knob::{interpolate, KnobTable};
use graphics::{ConfigurationError, Engine, RGB8Color, Scalar};

fn s(n: i64) -> Scalar {
    Scalar::from_int(n)
}

fn engine() -> Engine<RGB8Color> {
    Engine::<RGB8Color>::with_screen_dims(4, 4)
}

#[test]
fn vary_interpolates_inside_and_is_neutral_outside() {
    let mut eng = engine();
    assert_eq!(eng.add_vary("k".to_string(), 2, 5, s(0), s(1), 10), Ok(()));
    assert_eq!(eng.get_knob_val("k".to_string(), 2), Ok(s(0)));
    assert_eq!(eng.get_knob_val("k".to_string(), 5), Ok(s(1)));
    assert_eq!(eng.get_knob_val("k".to_string(), 3), Ok(Scalar::from_raw(21845)));
    assert_eq!(eng.get_knob_val("k".to_string(), 4), Ok(Scalar::from_raw(43690)));
    assert_eq!(eng.get_knob_val("k".to_string(), 0), Ok(s(1)));
    assert_eq!(eng.get_knob_val("k".to_string(), 1), Ok(s(1)));
    assert_eq!(eng.get_knob_val("k".to_string(), 6), Ok(s(1)));
    assert_eq!(eng.get_knob_val("k".to_string(), 10), Ok(s(1)));
}

#[test]
fn vary_values_rise_from_first_to_last() {
    let mut eng = engine();
    assert_eq!(eng.add_vary("k".to_string(), 0, 9, s(-3), s(40), 9), Ok(()));
    let mut last = eng.get_knob_val("k".to_string(), 0).unwrap();
    assert_eq!(last, s(-3));
    for f in 1..10 {
        let v = eng.get_knob_val("k".to_string(), f).unwrap();
        assert!(last.lt(v));
        last = v;
    }
    assert_eq!(last, s(40));
}

#[test]
fn vary_with_no_length_is_rejected_before_anything_is_done() {
    let mut eng = engine();
    assert_eq!(
        eng.add_vary("k".to_string(), 3, 3, s(0), s(1), 10),
        Err(ConfigurationError::ZeroLengthVary)
    );
    assert_eq!(eng.get_knob_val("k".to_string(), 3), Err(ConfigurationError::UnknownKnob));
    // an existing knob stays as it was
    assert_eq!(eng.add_vary("k".to_string(), 0, 2, s(5), s(7), 4), Ok(()));
    assert_eq!(
        eng.add_vary("k".to_string(), 1, 1, s(0), s(0), 4),
        Err(ConfigurationError::ZeroLengthVary)
    );
    assert_eq!(eng.get_knob_val("k".to_string(), 1), Ok(s(6)));
}

#[test]
fn vary_that_runs_backwards_or_too_far_is_rejected() {
    let mut eng = engine();
    assert_eq!(
        eng.add_vary("k".to_string(), 5, 2, s(0), s(1), 10),
        Err(ConfigurationError::VaryOutOfRange)
    );
    assert_eq!(
        eng.add_vary("k".to_string(), 2, 11, s(0), s(1), 10),
        Err(ConfigurationError::VaryOutOfRange)
    );
    assert_eq!(eng.get_knob_val("k".to_string(), 0), Err(ConfigurationError::UnknownKnob));
    assert_eq!(eng.add_vary("k".to_string(), 2, 10, s(0), s(1), 10), Ok(()));
    // the track keeps the length it was made with
    assert_eq!(
        eng.add_vary("k".to_string(), 2, 11, s(0), s(1), 20),
        Err(ConfigurationError::VaryOutOfRange)
    );
}

#[test]
fn unknown_knob_and_frame_beyond_the_track() {
    let mut eng = engine();
    assert_eq!(eng.get_knob_val("spin".to_string(), 0), Err(ConfigurationError::UnknownKnob));
    assert_eq!(eng.add_vary("spin".to_string(), 0, 3, s(0), s(3), 3), Ok(()));
    assert_eq!(eng.get_knob_val("spin".to_string(), 3), Ok(s(3)));
    assert_eq!(eng.get_knob_val("spin".to_string(), 4), Err(ConfigurationError::FrameOutOfRange));
    assert_eq!(eng.get_knob_val("spun".to_string(), 0), Err(ConfigurationError::UnknownKnob));
}

#[test]
fn knobs_are_kept_apart_and_can_be_varied_again() {
    let mut table = KnobTable::new();
    assert_eq!(table.add_vary("a".to_string(), 0, 2, s(0), s(2), 4), Ok(()));
    assert_eq!(table.add_vary("b".to_string(), 1, 3, s(10), s(30), 4), Ok(()));
    assert_eq!(table.add_vary("a".to_string(), 3, 4, s(7), s(8), 4), Ok(()));
    let a: Vec<Scalar> = (0..5).map(|f| table.get_knob_val("a".to_string(), f).unwrap()).collect();
    let b: Vec<Scalar> = (0..5).map(|f| table.get_knob_val("b".to_string(), f).unwrap()).collect();
    assert_eq!(a, vec![s(0), s(1), s(2), s(7), s(8)]);
    assert_eq!(b, vec![s(1), s(10), s(20), s(30), s(1)]);
}

#[test]
fn interpolation_formula() {
    assert_eq!(interpolate(s(10), s(20), 0, 4, 1), Scalar::from_ratio(25, 2));
    assert_eq!(interpolate(s(10), s(0), 2, 4, 3), s(5));
    assert_eq!(interpolate(s(0), s(1), 0, 3, 2), Scalar::from_raw(43690));
    assert_eq!(interpolate(s(0), s(-1), 0, 3, 2), Scalar::from_raw(-43690));
    let low = Scalar::from_raw(i64::MIN);
    let high = Scalar::from_raw(i64::MAX);
    assert_eq!(interpolate(low, high, 0, 2, 0), low);
    assert_eq!(interpolate(low, high, 0, 2, 2).raw(), -1);
}
