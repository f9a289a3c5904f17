use logi_headset::diagnostics::diagnose_report;
use logi_headset::cli::{effective_config, parse_args, DaemonStatus, Invocation};
use logi_headset::config::{Config, LedMode};
use logi_headset::diagnostics::{battery_reading_text, feature_line, hex_dump, protocol_version};
use logi_headset::calibration::Calibration;
use logi_headset::panel::{headset_line, status_word, HeadsetLine};
use logi_headset::stop::stopped;
use logi_headset::uinput::{device_record, key_events, push_event, EV_KEY, EV_SYN};
use std::sync::atomic::AtomicBool;

fn args(v: &[&str]) -> Vec<String> {
    v.iter().map(|s| s.to_string()).collect()
}

#[test]
fn command_lines() {
    assert!(matches!(parse_args(&args(&[])), Invocation::Run { config: None, leds_off: false }));
    match parse_args(&args(&["--leds-off", "--config", "/tmp/c"])) {
        Invocation::Run { config, leds_off } => {
            assert_eq!(config.as_deref(), Some("/tmp/c"));
            assert!(leds_off);
        }
        other => panic!("unexpected {:?}", other),
    }
    match parse_args(&args(&["--config", "a", "--config", "b"])) {
        Invocation::Run { config, .. } => assert_eq!(config.as_deref(), Some("b")),
        other => panic!("unexpected {:?}", other),
    }
    assert!(matches!(parse_args(&args(&["--diagnose", "--bogus"])), Invocation::Diagnose));
    assert!(matches!(parse_args(&args(&["--watch"])), Invocation::Watch));
    assert!(matches!(parse_args(&args(&["-h"])), Invocation::Help));
    assert!(matches!(parse_args(&args(&["--help"])), Invocation::Help));
    assert!(matches!(parse_args(&args(&["--config"])), Invocation::MissingConfigPath));
    match parse_args(&args(&["--leds-off", "-x"])) {
        Invocation::Unknown(s) => assert_eq!(s, "-x"),
        other => panic!("unexpected {:?}", other),
    }
}

#[test]
fn forced_leds_off() {
    let c = Config::default();
    assert_eq!(effective_config(c, true).led_mode, LedMode::Off);
    assert_eq!(effective_config(c, false), c);
}

#[test]
fn status_words() {
    assert_eq!(DaemonStatus::Searching.text(), "recherche");
    assert_eq!(DaemonStatus::Connected.text(), "connecte");
    assert_eq!(DaemonStatus::Stopped.text(), "arrete");
    assert!(DaemonStatus::Connected.keeps_device_info());
    assert!(!DaemonStatus::Searching.keeps_device_info());
    assert!(!DaemonStatus::Stopped.keeps_device_info());
    let read = status_word(&format!("{}\n", DaemonStatus::Connected.text()));
    assert_eq!(headset_line(Some(read.as_str())), HeadsetLine::Connected);
}

#[test]
fn diagnostic_lines() {
    assert_eq!(feature_line(1, 0x0001), "   1  0x0001  IFeatureSet");
    assert_eq!(feature_line(12, 0x8010), "  12  0x8010  G-keys");
    assert_eq!(feature_line(100, 0x1234), "  100  0x1234  ");
    let mut r = [0u8; 16];
    r[0] = 4;
    r[1] = 2;
    assert_eq!(protocol_version(&r), "v4.2");
    r[0] = 0x0E;
    r[1] = 0x6A;
    assert_eq!(battery_reading_text(true, Calibration::G533, &r), "~7 % (3.69 V)");
    r[0] = 55;
    assert_eq!(battery_reading_text(false, Calibration::G533, &r), "55 %");
    assert_eq!(hex_dump(&[0x11, 0xff, 0x08]), "  11 ff 08");
    assert_eq!(hex_dump(&[]), "  ");
}

#[test]
fn input_events() {
    let mut buf = Vec::new();
    push_event(&mut buf, EV_KEY, 164, 1);
    let mut want = vec![0u8; 16];
    want.extend_from_slice(&[1, 0, 164, 0, 1, 0, 0, 0]);
    assert_eq!(buf, want);
    let mut buf = Vec::new();
    push_event(&mut buf, EV_SYN, 0x1234, -1);
    assert_eq!(&buf[16..], &[0, 0, 0x34, 0x12, 0xff, 0xff, 0xff, 0xff]);
    let k = key_events(163);
    assert_eq!(k.len(), 96);
    assert_eq!(&k[16..24], &[1, 0, 163, 0, 1, 0, 0, 0]);
    assert_eq!(&k[40..48], &[0, 0, 0, 0, 0, 0, 0, 0]);
    assert_eq!(&k[64..72], &[1, 0, 163, 0, 0, 0, 0, 0]);
}

#[test]
fn uinput_device_record() {
    let d = device_record();
    assert_eq!(d.len(), 1116);
    assert_eq!(&d[..18], b"logi-headset remap");
    assert!(d[18..80].iter().all(|&x| x == 0));
    assert_eq!(&d[80..88], &[0x03, 0x00, 0x6d, 0x04, 0x1f, 0x0b, 0x01, 0x00]);
    assert!(d[88..].iter().all(|&x| x == 0));
}

#[test]
fn stop_flag() {
    assert!(stopped(&AtomicBool::new(true)));
    assert!(!stopped(&AtomicBool::new(false)));
}

#[test]
fn diagnose_output_without_headset_is_no_report() {
    let none = "Aucun casque Logitech (feature G-keys 0x8010) detecte.\nVerifie qu'il est allume et que le service est arrete :\n  systemctl --user stop logi-headset\n";
    assert_eq!(diagnose_report(none), None);
    assert_eq!(diagnose_report(""), None);
    assert_eq!(diagnose_report("  \n"), None);
    let report = "=== Diagnostic casque Logitech \u{2014} logi-headset v1.0.0 ===\nPeripherique : /dev/hidraw3\n\n";
    assert_eq!(
        diagnose_report(report).as_deref(),
        Some("=== Diagnostic casque Logitech \u{2014} logi-headset v1.0.0 ===\nPeripherique : /dev/hidraw3")
    );
}
