use nc_parser::decimal::Decimal;
use nc_parser::error::{Error, NumeralFault};
use nc_parser::structs::coordinate::{XCoordinate, YCoordinate};
use nc_parser::structs::line_parser::Line;
use nc_parser::structs::positioning_mode::PositioningMode;
use nc_parser::structs::state::State;

/// The state with the given mode and whole-numbered position.
fn state(incremental: bool, x: i32, y: i32) -> State {
    State::new(
        PositioningMode::new('G', if incremental { 91 } else { 90 }).unwrap(),
        XCoordinate::new('X', Decimal::from_integer(x)).unwrap(),
        YCoordinate::new('Y', Decimal::from_integer(y)).unwrap(),
    )
}

fn x_of(value: i32) -> XCoordinate {
    XCoordinate::new('X', Decimal::from_integer(value)).unwrap()
}

fn y_of(value: i32) -> YCoordinate {
    YCoordinate::new('Y', Decimal::from_integer(value)).unwrap()
}

#[test]
fn state_default() {
    let result = State::default();
    assert_eq!(result, state(false, 0, 0));
    assert_eq!(result.get_incremental(), false);
    assert_eq!(result.get_x(), Decimal { micros: 0 });
    assert_eq!(result.get_y(), Decimal { micros: 0 });
}

#[test]
fn state_new_normal() {
    let datas = [
        ((false, 100, -100), (('G', 90), ('X', 100), ('Y', -100))),
        ((true, 100, -100), (('G', 91), ('X', 100), ('Y', -100))),
    ];
    datas.iter().for_each(
        |&((incremental, x, y), ((gcode, gvalue), (xcode, xvalue), (ycode, yvalue)))| {
            let result = State::new(
                PositioningMode::new(gcode, gvalue).unwrap(),
                XCoordinate::new(xcode, Decimal::from_integer(xvalue)).unwrap(),
                YCoordinate::new(ycode, Decimal::from_integer(yvalue)).unwrap(),
            );

            assert_eq!(result.get_incremental(), incremental);
            assert_eq!(result.get_x(), Decimal::from_integer(x));
            assert_eq!(result.get_y(), Decimal::from_integer(y));
            assert_eq!(
                format!("{:?}", result),
                format!(
                    "State {{ incremental: {:?}, x: {:?}, y: {:?} }}",
                    incremental,
                    Decimal { micros: x as i64 * 1_000_000 },
                    Decimal { micros: y as i64 * 1_000_000 }
                )
            );
        },
    );
}

#[test]
fn state_incremental_set() {
    let mut expected = state(true, 100, -100);
    let mut state = State::default();
    state.incremental_set(PositioningMode::new('G', 91).unwrap());
    assert_eq!(state.get_incremental(), expected.get_incremental());

    expected.incremental_set(PositioningMode::new('G', 90).unwrap());
    state.incremental_set(PositioningMode::new('G', 90).unwrap());
    assert_eq!(state.get_incremental(), expected.get_incremental());
    assert_eq!(state, State::default());
}

#[test]
fn state_absolute_x_set() {
    let mut result = state(false, 0, 0);
    result.x_set(x_of(100)).unwrap();
    result.x_set(x_of(-100)).unwrap();
    result.x_set(x_of(10)).unwrap();
    result.x_set(x_of(-125)).unwrap();

    assert_eq!(result, state(false, -125, 0));
}

#[test]
fn state_incremental_x_set() {
    let mut result = state(true, 0, 0);
    result.x_set(x_of(100)).unwrap();
    result.x_set(x_of(-100)).unwrap();
    result.x_set(x_of(10)).unwrap();
    result.x_set(x_of(-125)).unwrap();

    assert_eq!(result, state(true, -115, 0));
}

#[test]
fn state_absolute_y_set() {
    let mut result = state(false, 0, 0);
    result.y_set(y_of(100)).unwrap();
    result.y_set(y_of(-100)).unwrap();
    result.y_set(y_of(10)).unwrap();
    result.y_set(y_of(-125)).unwrap();

    assert_eq!(result, state(false, 0, -125));
}

#[test]
fn state_incremental_y_set() {
    let mut result = state(true, 0, 0);
    result.y_set(y_of(100)).unwrap();
    result.y_set(y_of(-100)).unwrap();
    result.y_set(y_of(10)).unwrap();
    result.y_set(y_of(-125)).unwrap();

    assert_eq!(result, state(true, 0, -115));
}

#[test]
fn state_get_incremental() {
    let datas = [(state(true, 0, 0), true), (state(false, 0, 0), false)];

    datas.iter().for_each(|&(state, expected)| {
        assert_eq!(state.get_incremental(), expected);
    })
}

#[test]
fn state_get_x() {
    let datas = [
        (state(true, 100, 0), Decimal::from_integer(100)),
        (state(false, -125, 0), Decimal::from_integer(-125)),
    ];

    datas.iter().for_each(|&(state, expected)| {
        assert_eq!(state.get_x(), expected);
    })
}

#[test]
fn state_get_y() {
    let datas = [
        (state(true, 0, 100), Decimal::from_integer(100)),
        (state(false, 0, -125), Decimal::from_integer(-125)),
    ];

    datas.iter().for_each(|&(state, expected)| {
        assert_eq!(state.get_y(), expected);
    })
}

#[test]
fn state_state_update() {
    let datas = [
        (("Z-500.0G91X100.0Y-100.0W-700.0"), Some(state(true, 200, -200))),
        (("Z-500.0G91X100.0W-700.0"), Some(state(true, 200, -100))),
        (("Z-500.0G91Y-100.0W-700.0"), Some(state(true, 100, -200))),
        (("Z-500.0X100.0Y-100.0W-700.0"), Some(state(false, 100, -100))),
        (("Z-500.0X100.0W-700.0"), Some(state(false, 100, -100))),
        (("Z-500.0Y-100.0W-700.0"), Some(state(false, 100, -100))),
        (("Z-500.0W-700.0"), None),
        (("Z-500.0G91W-700.0"), None),
    ];
    datas.iter().for_each(|&(line_str, expected)| {
        let line = Line::new(line_str.to_string());
        let mut state = State::new(
            PositioningMode::new('G', 90).unwrap(),
            XCoordinate::new('X', Decimal::from_integer(100)).unwrap(),
            YCoordinate::new('Y', Decimal::from_integer(-100)).unwrap(),
        );
        let result = state.state_update(line);

        assert_eq!(result.unwrap(), expected);
    })
}

#[test]
fn state_update_decision_table() {
    // (line, reported, mode after, x after, y after), each from (absolute, 100, -100)
    let datas = [
        ("G91X1Y2", true, true, 101, -98),
        ("G91X1", true, true, 101, -100),
        ("G91Y2", true, true, 100, -98),
        ("X1Y2", true, false, 1, 2),
        ("X1", true, false, 1, -100),
        ("Y2", true, false, 100, 2),
        ("", false, false, 100, -100),
        ("G91", false, true, 100, -100),
    ];
    datas.iter().for_each(|&(line_str, reported, incremental, x, y)| {
        let mut current = state(false, 100, -100);
        let result = current.state_update(Line::new(line_str.to_string())).unwrap();
        assert_eq!(current, state(incremental, x, y));
        assert_eq!(result, if reported { Some(current) } else { None });
    })
}

#[test]
fn state_update_order_of_tokens_in_the_line_does_not_matter() {
    let orders = ["G91X1Y2", "G91Y2X1", "X1G91Y2", "X1Y2G91", "Y2G91X1", "Y2X1G91"];
    orders.iter().for_each(|&line_str| {
        let mut current = state(false, 100, -100);
        let result = current.state_update(Line::new(line_str.to_string())).unwrap();
        assert_eq!(result, Some(state(true, 101, -98)));
    })
}

#[test]
fn state_update_unknown_mode_number_is_ignored() {
    let lines = ["G0X5", "G92X5", "G1X5", "G090X5"];
    lines.iter().for_each(|&line_str| {
        let mut current = state(true, 100, -100);
        let result = current.state_update(Line::new(line_str.to_string())).unwrap();
        let expected = if line_str == "G090X5" {
            state(false, 5, -100)
        } else {
            state(true, 105, -100)
        };
        assert_eq!(result, Some(expected));
        assert_eq!(current, expected);
    })
}

#[test]
fn state_update_mode_only_line_shows_in_the_next_line() {
    let mut current = state(false, 100, -100);
    assert_eq!(current.state_update(Line::new("G91".to_string())).unwrap(), None);
    assert_eq!(current, state(true, 100, -100));
    assert_eq!(
        current.state_update(Line::new("X10.0".to_string())).unwrap(),
        Some(state(true, 110, -100))
    );
    assert_eq!(current.state_update(Line::new("G90".to_string())).unwrap(), None);
    assert_eq!(current, state(false, 110, -100));
    assert_eq!(
        current.state_update(Line::new("Y10.0".to_string())).unwrap(),
        Some(state(false, 110, 10))
    );
}

#[test]
fn state_update_absolute_is_idempotent() {
    let mut once = state(false, 3, 4);
    once.state_update(Line::new("X12.5".to_string())).unwrap();
    let mut twice = state(false, 3, 4);
    twice.state_update(Line::new("X12.5".to_string())).unwrap();
    twice.state_update(Line::new("X12.5".to_string())).unwrap();
    assert_eq!(once, twice);
    assert_eq!(twice.get_x(), Decimal { micros: 12_500_000 });
}

#[test]
fn state_update_incremental_is_additive() {
    let mut current = state(true, 3, 4);
    current.state_update(Line::new("X12.5".to_string())).unwrap();
    current.state_update(Line::new("X-0.25".to_string())).unwrap();
    assert_eq!(current.get_x(), Decimal { micros: 3_000_000 + 12_500_000 - 250_000 });
    assert_eq!(current.get_y(), Decimal::from_integer(4));
    // Tenths add up without drift.
    let mut tenths = state(true, 0, 0);
    for _ in 0..10 {
        tenths.state_update(Line::new("X0.1".to_string())).unwrap();
    }
    assert_eq!(tenths.get_x(), Decimal::from_integer(1));
}

#[test]
fn state_update_no_markers_changes_nothing() {
    let lines = ["", "Z-500.0W-700.0", "x100.0y-100.0g91", "(comment) 12.5 -3", "M30"];
    lines.iter().for_each(|&line_str| {
        let mut current = state(true, 100, -100);
        let result = current.state_update(Line::new(line_str.to_string())).unwrap();
        assert_eq!(result, None);
        assert_eq!(current, state(true, 100, -100));
    })
}

#[test]
fn state_update_grammar_error() {
    let datas = [
        ("XY-100.0", "Y-100.0"),
        ("G90XY-100.0", "Y-100.0"),
        ("X100.0GY-100.0", "Y-100.0"),
        ("G91X5Y", ""),
        ("G91X-", ""),
    ];
    datas.iter().for_each(|&(line_str, rest)| {
        let mut current = state(false, 100, -100);
        let result = current.state_update(Line::new(line_str.to_string()));
        assert_eq!(result, Err(Error::InvalidParser(rest.to_string())));
        assert_eq!(current, state(false, 100, -100));
    })
}

#[test]
fn state_update_mode_number_errors() {
    let datas = [
        ("G91.2X5", NumeralFault::Malformed),
        ("G91.X5", NumeralFault::Malformed),
        ("G2147483648X5", NumeralFault::OutOfRange),
        ("G99999999999999999999999X5", NumeralFault::OutOfRange),
    ];
    datas.iter().for_each(|&(line_str, fault)| {
        let mut current = state(false, 100, -100);
        let result = current.state_update(Line::new(line_str.to_string()));
        assert_eq!(result, Err(Error::ParseIntError(fault)));
        assert_eq!(current, state(false, 100, -100));
    });
    let mut current = state(false, 100, -100);
    let result = current.state_update(Line::new("G2147483647X5".to_string()));
    assert_eq!(result, Ok(Some(state(false, 5, -100))));
}

#[test]
fn state_update_coordinate_out_of_range() {
    let datas = ["X9223372036855", "G91Y-9223372036855.0", "X1Y99999999999999999999"];
    datas.iter().for_each(|&line_str| {
        let mut current = state(false, 100, -100);
        let result = current.state_update(Line::new(line_str.to_string()));
        assert_eq!(result, Err(Error::ParseDecimalError(NumeralFault::OutOfRange)));
        assert_eq!(current, state(false, 100, -100));
    })
}

#[test]
fn state_update_sum_out_of_range() {
    let mut current = State::default();
    current.state_update(Line::new("G91X9223372036854.0Y-9223372036854.0".to_string())).unwrap();
    let before = current;
    // The mode and the X coordinate of the failing line are not applied either.
    let result = current.state_update(Line::new("G90X1Y-1".to_string()));
    assert_eq!(result, Ok(Some(current)));
    assert_eq!(current.get_incremental(), false);
    let mut current = before;
    let result = current.state_update(Line::new("X-5Y-1".to_string()));
    assert_eq!(result, Err(Error::InvalidStateSetting));
    assert_eq!(current, before);
    let result = current.state_update(Line::new("X1".to_string()));
    assert_eq!(result, Err(Error::InvalidStateSetting));
    assert_eq!(current, before);
    let result = current.state_update(Line::new("X0.775807Y-0.775808".to_string())).unwrap();
    assert_eq!(result.unwrap().get_x(), Decimal { micros: i64::MAX });
    assert_eq!(result.unwrap().get_y(), Decimal { micros: i64::MIN });
}

#[test]
fn state_set_out_of_range() {
    let largest = Decimal { micros: i64::MAX };
    let smallest = Decimal { micros: i64::MIN };
    let one = Decimal { micros: 1 };
    let mut current = State::new(
        PositioningMode::new('G', 91).unwrap(),
        XCoordinate::new('X', largest).unwrap(),
        YCoordinate::new('Y', smallest).unwrap(),
    );
    let before = current;
    assert_eq!(current.x_set(XCoordinate::new('X', one).unwrap()), Err(Error::InvalidStateSetting));
    assert_eq!(
        current.y_set(YCoordinate::new('Y', Decimal { micros: -1 }).unwrap()),
        Err(Error::InvalidStateSetting)
    );
    assert_eq!(current, before);
    assert_eq!(current.x_set(XCoordinate::new('X', smallest).unwrap()), Ok(()));
    assert_eq!(current.get_x(), Decimal { micros: -1 });
    assert_eq!(current.y_set(YCoordinate::new('Y', largest).unwrap()), Ok(()));
    assert_eq!(current.get_y(), Decimal { micros: -1 });
    // In absolute mode nothing is added, so nothing can leave the range.
    current.incremental_set(PositioningMode::new('G', 90).unwrap());
    assert_eq!(current.x_set(XCoordinate::new('X', largest).unwrap()), Ok(()));
    assert_eq!(current.x_set(XCoordinate::new('X', largest).unwrap()), Ok(()));
    assert_eq!(current.get_x(), largest);
}

#[test]
fn state_apply_tokens_checks_the_codes() {
    let mut current = state(false, 100, -100);
    let result = current.apply_tokens(None, Some(('Y', "1")), None);
    assert_eq!(result, Err(Error::InvalidCode('Y')));
    let result = current.apply_tokens(None, None, Some(('X', "1")));
    assert_eq!(result, Err(Error::InvalidCode('X')));
    let result = current.apply_tokens(Some(('G', "91")), Some(('X', "1")), Some(('y', "1")));
    assert_eq!(result, Err(Error::InvalidCode('y')));
    assert_eq!(current, state(false, 100, -100));
    // A mode token with another code selects no mode, and is no error.
    let result = current.apply_tokens(Some(('X', "91")), Some(('X', "1")), None);
    assert_eq!(result, Ok(Some(state(false, 1, -100))));
}

#[test]
fn state_apply_tokens_reads_the_numerals() {
    let mut current = state(true, 100, -100);
    let result = current.apply_tokens(Some(('G', "90")), Some(('X', "-1.5")), Some(('Y', "2.")));
    assert_eq!(result.unwrap().unwrap().get_x(), Decimal { micros: -1_500_000 });
    assert_eq!(current.get_y(), Decimal { micros: 2_000_000 });
    assert_eq!(current.get_incremental(), false);
    let before = current;
    let datas = [
        ((Some(('G', "")), None, None), Error::ParseIntError(NumeralFault::Malformed)),
        ((Some(('G', "-90")), None, None), Error::ParseIntError(NumeralFault::Malformed)),
        (
            (Some(('G', "9x")), Some(('X', "bad")), None),
            Error::ParseIntError(NumeralFault::Malformed),
        ),
        ((None, Some(('X', "")), None), Error::ParseDecimalError(NumeralFault::Malformed)),
        ((None, Some(('X', "1.2.3")), None), Error::ParseDecimalError(NumeralFault::Malformed)),
        ((None, Some(('Y', "+1")), None), Error::ParseDecimalError(NumeralFault::Malformed)),
        ((None, None, Some(('Y', "1e3"))), Error::ParseDecimalError(NumeralFault::Malformed)),
        (
            (None, Some(('X', "1")), Some(('X', " 1"))),
            Error::ParseDecimalError(NumeralFault::Malformed),
        ),
    ];
    datas.iter().for_each(|&((g, x, y), ref expected)| {
        let result = current.apply_tokens(g, x, y);
        assert_eq!(result.as_ref(), Err(expected));
        assert_eq!(current, before);
    });
    // Neither a mode alone nor no token at all reports a position.
    assert_eq!(current.apply_tokens(Some(('G', "91")), None, None), Ok(None));
    assert_eq!(current.get_incremental(), true);
    assert_eq!(current.apply_tokens(None, None, None), Ok(None));
}
