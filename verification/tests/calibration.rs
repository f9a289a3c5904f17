use logi_headset::calibration::{curve_for_model, voltage_to_percent, Calibration};

#[test]
fn g533_reading_from_readme() {
    // README: a G533 at 3.69 V is about 7 %.
    let pts = Calibration::G533.points();
    assert_eq!(voltage_to_percent(&pts, 3690), 7);
}

#[test]
fn at_or_above_first_point_is_full() {
    let pts = Calibration::G533.points();
    assert_eq!(voltage_to_percent(&pts, 4200), 100);
    assert_eq!(voltage_to_percent(&pts, 4300), 100);
    assert_eq!(voltage_to_percent(&pts, 65535), 100);
}

#[test]
fn calibration_points_are_exact() {
    for cal in [Calibration::G533, Calibration::G633, Calibration::Generic] {
        let pts = cal.points();
        for (i, &(mv, pct)) in pts.iter().enumerate() {
            let expected = if i == 0 { 100 } else { pct };
            assert_eq!(voltage_to_percent(&pts, mv), expected);
        }
    }
}

#[test]
fn interpolation_values() {
    assert_eq!(voltage_to_percent(&Calibration::G533.points(), 4000), 71);
    assert_eq!(voltage_to_percent(&Calibration::G533.points(), 3770), 25);
    assert_eq!(voltage_to_percent(&Calibration::G633.points(), 3700), 30);
    assert_eq!(voltage_to_percent(&Calibration::Generic.points(), 3750), 50);
}

#[test]
fn below_last_point_is_empty() {
    assert_eq!(voltage_to_percent(&Calibration::G533.points(), 3000), 0);
    assert_eq!(voltage_to_percent(&Calibration::G633.points(), 0), 0);
    assert_eq!(voltage_to_percent(&Calibration::Generic.points(), 3199), 0);
}

#[test]
fn percent_never_decreases_with_voltage() {
    for cal in [Calibration::G533, Calibration::G633, Calibration::Generic] {
        let pts = cal.points();
        let mut last = 0u8;
        for mv in 2800u16..4400 {
            let p = voltage_to_percent(&pts, mv);
            assert!(p >= last);
            assert!(p <= 100);
            last = p;
        }
    }
}

#[test]
fn custom_curve() {
    let curve = [(200u16, 90u8), (100u16, 10u8)];
    assert_eq!(voltage_to_percent(&curve, 150), 50);
    assert_eq!(voltage_to_percent(&curve, 100), 10);
    assert_eq!(voltage_to_percent(&curve, 99), 0);
    assert_eq!(voltage_to_percent(&curve, 200), 100);
    let single = [(3000u16, 40u8)];
    assert_eq!(voltage_to_percent(&single, 2999), 0);
}

#[test]
fn model_curves() {
    assert_eq!(curve_for_model(Some("G533 Gaming Headset")), Calibration::G533);
    assert_eq!(curve_for_model(Some("Logitech g733 lightspeed")), Calibration::G633);
    assert_eq!(curve_for_model(Some("G633")), Calibration::G633);
    assert_eq!(curve_for_model(Some("G933")), Calibration::G633);
    assert_eq!(curve_for_model(Some("g935")), Calibration::G633);
    assert_eq!(curve_for_model(Some("PRO X")), Calibration::Generic);
    assert_eq!(curve_for_model(Some("")), Calibration::Generic);
    assert_eq!(curve_for_model(None), Calibration::Generic);
}
