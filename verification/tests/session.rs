use logi_headset::cli::DaemonStatus;
use logi_headset::session::SessionEnd;
use logi_headset::battery::Battery;
use logi_headset::calibration::Calibration;
use logi_headset::config::{Config, LedMode};
use logi_headset::session::{caps_text, Event, Session};

fn gkey(index: u8, pressed: bool) -> [u8; 20] {
    let mut r = [0u8; 20];
    r[0] = 0x11;
    r[1] = 0xFF;
    r[2] = index;
    r[3] = 0x00;
    r[4] = if pressed { 0x01 } else { 0x00 };
    r
}

fn double_cfg() -> Config {
    let mut c = Config::default();
    c.double_code = Some(163);
    c
}

#[test]
fn new_session() {
    let mut c = Config::default();
    c.led_mode = LedMode::Color;
    c.led_color = (1, 2, 3);
    let s = Session::new(&c, 3, Some(8), None, None, 10);
    assert_eq!(s.rgb_index, 4);
    assert_eq!(s.led, Some((1, 2, 3)));
    assert_eq!(s.last_assert, 10);
    assert!(!s.prev);
    assert_eq!(s.pending, None);
    let s = Session::new(&Config::default(), 3, None, Some(7), None, 0);
    assert_eq!(s.rgb_index, 7);
    assert_eq!(s.led, None);
    assert_eq!(s.poll_timeout(0), 1000);
    assert_eq!(s.divert(true)[..5], [0x11, 0xFF, 3, 0x2F, 1]);
}

#[test]
fn single_click_without_double_key() {
    let mut s = Session::new(&Config::default(), 3, Some(8), None, None, 0);
    assert!(matches!(s.on_report(&gkey(3, true), 10), Event::Key(164)));
    assert!(matches!(s.on_report(&gkey(3, true), 20), Event::Nothing));
    assert!(matches!(s.on_report(&gkey(3, false), 30), Event::Nothing));
    assert!(matches!(s.on_report(&gkey(3, true), 40), Event::Key(164)));
    assert_eq!(s.pending, None);
    assert!(s.tick(5000).key.is_none());
}

#[test]
fn double_click() {
    let mut s = Session::new(&double_cfg(), 3, Some(8), None, None, 0);
    assert!(matches!(s.on_report(&gkey(3, true), 0), Event::Nothing));
    assert_eq!(s.pending, Some(0));
    assert!(matches!(s.on_report(&gkey(3, false), 100), Event::Nothing));
    assert_eq!(s.poll_timeout(500), 500);
    assert!(s.tick(500).key.is_none());
    assert!(matches!(s.on_report(&gkey(3, true), 600), Event::Key(163)));
    assert_eq!(s.pending, None);
    assert!(s.tick(2000).key.is_none());
}

#[test]
fn deferred_single_click() {
    let mut s = Session::new(&double_cfg(), 3, Some(8), None, None, 0);
    s.on_report(&gkey(3, true), 0);
    s.on_report(&gkey(3, false), 50);
    assert!(s.tick(999).key.is_none());
    assert_eq!(s.tick(1000).key, Some(164));
    assert!(s.tick(1500).key.is_none());
}

#[test]
fn late_second_press_starts_over() {
    let mut s = Session::new(&double_cfg(), 3, Some(8), None, None, 0);
    s.on_report(&gkey(3, true), 0);
    s.on_report(&gkey(3, false), 50);
    assert!(matches!(s.on_report(&gkey(3, true), 1001), Event::Nothing));
    assert_eq!(s.pending, Some(1001));
}

#[test]
fn poll_timeouts() {
    let mut c = double_cfg();
    c.double_ms = 3000;
    let mut s = Session::new(&c, 3, None, None, None, 0);
    s.on_report(&gkey(3, true), 0);
    assert_eq!(s.poll_timeout(100), 1000);
    assert_eq!(s.poll_timeout(2500), 500);
    assert_eq!(s.poll_timeout(3000), 1);
    assert_eq!(s.poll_timeout(9000), 1);
}

#[test]
fn wake_and_reassert() {
    let mut s = Session::new(&Config::default(), 3, Some(8), None, None, 0);
    assert!(!s.tick(4999).reassert);
    assert!(s.tick(5000).reassert);
    assert!(!s.tick(6000).reassert);
    assert!(matches!(s.on_report(&gkey(8, true), 7000), Event::Wake));
    assert_eq!(s.last_assert, 7000);
    // switching off (byte 4 = 0) is not a wake-up
    assert!(matches!(s.on_report(&gkey(8, false), 8000), Event::Nothing));
    assert!(matches!(s.on_report(&[0x11, 0xFF, 3, 0x00], 8000), Event::Nothing));
}

#[test]
fn battery_in_session() {
    let b = Battery::detect(0, 8, 15, Calibration::G533, 0);
    let mut s = Session::new(&Config::default(), 3, Some(8), None, Some(b), 0);
    let t = s.tick(4000);
    assert!(t.battery_request.is_none());
    let t = s.tick(5000);
    assert_eq!(t.battery_request.unwrap()[..4], [0x11, 0xFF, 8, 0x0F]);
    assert_eq!(s.battery.unwrap().next_poll, 305000);
    let mut r = [0u8; 20];
    r[..7].copy_from_slice(&[0x11, 0xFF, 8, 0x0F, 0x0E, 0x6A, 0x01]);
    match s.on_report(&r, 5100) {
        Event::Battery(Some(u)) => {
            assert_eq!(u.label, "~7 % (3.69 V)");
            assert!(u.notify);
        }
        other => panic!("unexpected {:?}", other),
    }
    assert!(s.battery.unwrap().warned);
}

#[test]
fn caps() {
    assert_eq!(caps_text(Some(4)), "rgb=1\n");
    assert_eq!(caps_text(None), "rgb=0\n");
}

#[test]
fn session_end() {
    let s = Session::new(&Config::default(), 3, Some(8), None, None, 0);
    let stop = s.close(SessionEnd::Stopped);
    let r = stop.divert_off.expect("diversion is switched off on a stop");
    assert_eq!(&r[..6], &[0x11, 0xFF, 3, 0x2F, 0, 0]);
    assert_eq!(stop.status, None);
    let gone = s.close(SessionEnd::Disconnected);
    assert!(gone.divert_off.is_none());
    assert_eq!(gone.status, Some(DaemonStatus::Searching));
}
