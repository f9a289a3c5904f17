use logi_headset::battery::{battery_search_step, BatterySearch};
use logi_headset::battery::{battery_candidate, low_battery_text, voltage_label_text, Battery};
use logi_headset::calibration::Calibration;

fn answer(index: u8, fb: u8, b4: u8, b5: u8, b6: u8) -> [u8; 20] {
    let mut r = [0u8; 20];
    r[0] = 0x11;
    r[1] = 0xFF;
    r[2] = index;
    r[3] = fb;
    r[4] = b4;
    r[5] = b5;
    r[6] = b6;
    r
}

#[test]
fn candidates_in_order() {
    assert_eq!(battery_candidate(0), (0x1F20, 0, true));
    assert_eq!(battery_candidate(1), (0x1004, 1, false));
    assert_eq!(battery_candidate(2), (0x1000, 0, false));
}

#[test]
fn detect_and_poll_schedule() {
    let mut b = Battery::detect(0, 8, 15, Calibration::G533, 1000);
    assert_eq!(b.fb, 0x0F);
    assert!(b.voltage_mode);
    assert!(!b.warned);
    assert_eq!(b.next_poll, 6000);
    assert!(!b.due(5999));
    assert!(b.due(6000));
    let r = b.request(6000);
    assert_eq!(&r[..4], &[0x11, 0xFF, 8, 0x0F]);
    assert!(r[4..].iter().all(|&x| x == 0));
    assert_eq!(b.next_poll, 306000);
    let b2 = Battery::detect(1, 5, 0, Calibration::Generic, 0);
    assert_eq!(b2.fb, 0x1F);
    assert!(!b2.voltage_mode);
}

#[test]
fn responses_are_recognised() {
    let b = Battery::detect(0, 8, 15, Calibration::G533, 0);
    assert!(b.is_response(&answer(8, 0x0F, 0x0E, 0x6A, 1)[..7]));
    assert!(!b.is_response(&answer(8, 0x0F, 0x0E, 0x6A, 1)[..6]));
    assert!(!b.is_response(&answer(8, 0x00, 1, 0, 0)));
    assert!(!b.is_response(&answer(9, 0x0F, 0x0E, 0x6A, 1)));
}

#[test]
fn low_battery_warns_once_then_rearms() {
    let mut b = Battery::detect(0, 8, 15, Calibration::G533, 0);
    // 3.69 V on a G533: ~7 %
    let u = b.handle(&answer(8, 0x0F, 0x0E, 0x6A, 0x01)).unwrap();
    assert_eq!(u.percent, 7);
    assert_eq!(u.label, "~7 % (3.69 V)");
    assert!(!u.charging);
    assert!(u.notify);
    assert!(b.warned);
    let u = b.handle(&answer(8, 0x0F, 0x0E, 0x6A, 0x01)).unwrap();
    assert!(!u.notify);
    assert!(b.warned);
    // 3.77 V: 25 % = threshold + margin: re-armed
    let u = b.handle(&answer(8, 0x0F, 0x0E, 0xBA, 0x01)).unwrap();
    assert_eq!(u.percent, 25);
    assert!(!u.notify);
    assert!(!b.warned);
    let u = b.handle(&answer(8, 0x0F, 0x0E, 0x6A, 0x01)).unwrap();
    assert!(u.notify);
}

#[test]
fn warning_stays_until_margin() {
    let mut b = Battery::detect(0, 8, 15, Calibration::G533, 0);
    b.handle(&answer(8, 0x0F, 0x0E, 0x6A, 0x01));
    assert!(b.warned);
    // 3.76 V: 22 %, above the threshold but under threshold + 10
    let u = b.handle(&answer(8, 0x0F, 0x0E, 0xB0, 0x01)).unwrap();
    assert_eq!(u.percent, 22);
    assert!(!u.notify);
    assert!(b.warned);
}

#[test]
fn charging_rearms_without_alert() {
    let mut b = Battery::detect(0, 8, 15, Calibration::G533, 0);
    b.handle(&answer(8, 0x0F, 0x0E, 0x6A, 0x01));
    assert!(b.warned);
    let u = b.handle(&answer(8, 0x0F, 0x0E, 0x6A, 0x03)).unwrap();
    assert!(u.charging);
    assert!(!u.notify);
    assert_eq!(u.label, "~7 % (3.69 V, en charge)");
    assert!(!b.warned);
}

#[test]
fn ignored_readings() {
    let mut b = Battery::detect(0, 8, 15, Calibration::G533, 0);
    assert!(b.handle(&answer(8, 0x0F, 0, 0, 1)).is_none());
    let mut p = Battery::detect(2, 4, 15, Calibration::Generic, 0);
    assert!(p.handle(&answer(4, 0x0F, 0, 0, 0)).is_none());
    let u = p.handle(&answer(4, 0x0F, 42, 0, 0)).unwrap();
    assert_eq!(u.label, "42 %");
    assert_eq!(u.percent, 42);
    assert!(!u.notify);
}

#[test]
fn zero_threshold_never_alerts() {
    let mut p = Battery::detect(2, 4, 0, Calibration::Generic, 0);
    assert!(!p.handle(&answer(4, 0x0F, 1, 0, 0)).unwrap().notify);
    let mut v = Battery::detect(0, 8, 0, Calibration::G533, 0);
    // 3.20 V is below the curve: 0 %, but a threshold of 0 means no alert.
    let u = v.handle(&answer(8, 0x0F, 0x0C, 0x80, 0x01)).unwrap();
    assert_eq!(u.percent, 0);
    assert_eq!(u.label, "~0 % (3.20 V)");
    assert!(!u.notify);
    assert!(!v.warned);
}

#[test]
fn labels() {
    assert_eq!(voltage_label_text(100, 4005, false), "~100 % (4.00 V)");
    assert_eq!(voltage_label_text(30, 3705, false), "~30 % (3.70 V)");
    assert_eq!(voltage_label_text(71, 4050, true), "~71 % (4.05 V, en charge)");
    assert_eq!(
        low_battery_text("~7 % (3.69 V)"),
        "Niveau : ~7 % (3.69 V). Pense a recharger."
    );
}

#[test]
fn battery_search_takes_first_present() {
    assert!(matches!(battery_search_step(0, None, 15, Calibration::G533, 0), BatterySearch::Ask(1)));
    assert!(matches!(battery_search_step(1, None, 15, Calibration::G533, 0), BatterySearch::Ask(2)));
    assert!(matches!(battery_search_step(2, None, 15, Calibration::G533, 0), BatterySearch::Absent));
    match battery_search_step(1, Some(6), 20, Calibration::Generic, 100) {
        BatterySearch::Found(b) => {
            assert_eq!(b.index, 6);
            assert_eq!(b.fb, 0x1F);
            assert!(!b.voltage_mode);
            assert_eq!(b.warn, 20);
            assert!(!b.warned);
            assert_eq!(b.next_poll, 5100);
        }
        other => panic!("unexpected {other:?}"),
    }
    match battery_search_step(0, Some(8), 15, Calibration::G533, 0) {
        BatterySearch::Found(b) => {
            assert_eq!(b.fb, 0x0F);
            assert!(b.voltage_mode);
        }
        other => panic!("unexpected {other:?}"),
    }
}
