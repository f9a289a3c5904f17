use logi_headset::hidpp::{
    divert_report, feature_id_of, feature_name, feature_query_report, feature_reply,
    function_byte, hidpp_long, is_logitech_uevent, led_zone_report, led_zones, plain_request,
    request_reply, uevent_names_logitech, FeatureReply, NameReader, RequestReply,
};

fn report(head: &[u8]) -> [u8; 20] {
    let mut r = [0u8; 20];
    r[..head.len()].copy_from_slice(head);
    r
}

#[test]
fn long_report_layout() {
    assert_eq!(hidpp_long(0x08, 0x2F, &[1]), report(&[0x11, 0xFF, 0x08, 0x2F, 0x01]));
    let params: Vec<u8> = (1..=20).collect();
    let r = hidpp_long(3, 4, &params);
    assert_eq!(&r[..4], &[0x11, 0xFF, 3, 4]);
    assert_eq!(&r[4..], &params[..16]);
    assert_eq!(hidpp_long(0, 0, &[]), report(&[0x11, 0xFF]));
}

#[test]
fn function_bytes() {
    assert_eq!(function_byte(0), 0x0F);
    assert_eq!(function_byte(1), 0x1F);
    assert_eq!(function_byte(2), 0x2F);
    assert_eq!(function_byte(3), 0x3F);
    assert_eq!(function_byte(0x13), 0x3F);
}

#[test]
fn requests() {
    assert_eq!(feature_query_report(0x8010), report(&[0x11, 0xFF, 0, 0x0F, 0x80, 0x10]));
    assert_eq!(divert_report(8, true), report(&[0x11, 0xFF, 8, 0x2F, 1]));
    assert_eq!(divert_report(8, false), report(&[0x11, 0xFF, 8, 0x2F, 0]));
    assert_eq!(
        led_zone_report(4, 1, (0xa5, 0x1d, 0x2d)),
        report(&[0x11, 0xFF, 4, 0x3F, 1, 1, 0xa5, 0x1d, 0x2d, 2])
    );
    assert_eq!(led_zones(), [0, 1]);
    assert_eq!(plain_request(6, 0x1F), report(&[0x11, 0xFF, 6, 0x1F]));
}

#[test]
fn feature_replies() {
    assert_eq!(feature_reply(&[0x11, 0xFF, 0, 0x0F, 5, 0, 0]), FeatureReply::Found(5));
    assert_eq!(feature_reply(&[0x11, 0xFF, 0, 0x0F, 0]), FeatureReply::Absent);
    assert_eq!(feature_reply(&[0x11, 0xFF, 0, 0x0F]), FeatureReply::Other);
    assert_eq!(feature_reply(&[0x11, 0x01, 0, 0x0F, 5]), FeatureReply::Other);
    assert_eq!(feature_reply(&[0x10, 0xFF, 0, 0x0F, 5]), FeatureReply::Other);
    assert_eq!(feature_reply(&[0x11, 0xFF, 0, 0x00, 5]), FeatureReply::Other);
}

#[test]
fn request_replies() {
    let mut ok = report(&[0x11, 0xFF, 6, 0x1F]);
    for i in 4..20 {
        ok[i] = i as u8;
    }
    match request_reply(&ok, 6, 0x1F) {
        RequestReply::Data(d) => assert_eq!(&d[..], &ok[4..20]),
        other => panic!("unexpected {:?}", other),
    }
    assert_eq!(request_reply(&ok[..19], 6, 0x1F), RequestReply::Other);
    assert_eq!(request_reply(&ok, 7, 0x1F), RequestReply::Other);
    let err = report(&[0x11, 0xFF, 0xFF, 6, 0x1F, 0x05]);
    assert_eq!(request_reply(&err, 6, 0x1F), RequestReply::Failed);
}

#[test]
fn device_name_reading() {
    assert!(NameReader::new(&[0u8; 16]).is_none());
    let mut len = [0u8; 16];
    len[0] = 20;
    let mut r = NameReader::new(&len).unwrap();
    assert_eq!(r.next_offset(), Some(0));
    let mut chunk = [0u8; 16];
    chunk.copy_from_slice(b"G533 Gaming Head");
    assert!(r.absorb(&chunk));
    assert_eq!(r.next_offset(), Some(16));
    let mut chunk2 = [0u8; 16];
    chunk2[..4].copy_from_slice(b"set ");
    assert!(r.absorb(&chunk2));
    assert_eq!(r.next_offset(), None);
    assert_eq!(r.finish().as_deref(), Some("G533 Gaming Headset"));
}

#[test]
fn device_name_stops_without_progress() {
    let mut len = [0u8; 16];
    len[0] = 10;
    let mut r = NameReader::new(&len).unwrap();
    let mut chunk = [0u8; 16];
    chunk[..3].copy_from_slice(b"Pro");
    assert!(r.absorb(&chunk));
    assert_eq!(r.next_offset(), Some(3));
    assert!(!r.absorb(&[0u8; 16]));
    assert_eq!(r.finish().as_deref(), Some("Pro"));
}

#[test]
fn device_name_counts_bytes() {
    let mut len = [0u8; 16];
    len[0] = 3;
    let mut r = NameReader::new(&len).unwrap();
    let mut chunk = [0u8; 16];
    chunk[..4].copy_from_slice(&[0xE9, b'a', b'b', b'c']);
    assert!(r.absorb(&chunk));
    assert_eq!(r.raw, vec![0xE9, b'a']);
    assert_eq!(r.len, 3);
    assert_eq!(r.finish().as_deref(), Some("\u{e9}a"));
}

#[test]
fn blank_device_name() {
    let mut len = [0u8; 16];
    len[0] = 3;
    let mut r = NameReader::new(&len).unwrap();
    let mut chunk = [0u8; 16];
    chunk[..3].copy_from_slice(b"   ");
    r.absorb(&chunk);
    assert_eq!(r.finish(), None);
}

#[test]
fn feature_names() {
    assert_eq!(feature_name(0x0000), "Root");
    assert_eq!(feature_name(0x0005), "DeviceName");
    assert_eq!(feature_name(0x1f20), "proprietaire (etat + batterie)");
    assert_eq!(feature_name(0x8010), "G-keys");
    assert_eq!(feature_name(0x8310), "EqualizerCfg");
    assert_eq!(feature_name(0x1234), "");
}

#[test]
fn feature_ids() {
    let mut r = [0u8; 16];
    r[0] = 0x1f;
    r[1] = 0x20;
    assert_eq!(feature_id_of(&r), 0x1f20);
}

#[test]
fn logitech_uevents() {
    assert!(is_logitech_uevent("DRIVER=hid-generic\nHID_ID=0003:0000046D:00000AF7\n"));
    assert!(is_logitech_uevent("hid_id=0003:0000046d:00000af7\n"));
    assert!(!is_logitech_uevent("HID_ID=0003:0000054C:000009CC\n"));
    assert!(!is_logitech_uevent(""));
    assert!(uevent_names_logitech("X HID_ID=0003:0000046D:"));
    assert!(!uevent_names_logitech("hid_id=0003:0000046d:"));
}
