use logi_headset::config::{
    config_from_text, key_name_to_code, led_target, parse_color, uinput_keys, Config, LedMode,
};

#[test]
fn key_names() {
    assert_eq!(key_name_to_code("playpause"), Some(164));
    assert_eq!(key_name_to_code("play_pause"), Some(164));
    assert_eq!(key_name_to_code("  Next "), Some(163));
    assert_eq!(key_name_to_code("nextsong"), Some(163));
    assert_eq!(key_name_to_code("PREV"), Some(165));
    assert_eq!(key_name_to_code("previoussong"), Some(165));
    assert_eq!(key_name_to_code("stopcd"), Some(166));
    assert_eq!(key_name_to_code("mute"), Some(113));
    assert_eq!(key_name_to_code("mic_mute"), Some(248));
    assert_eq!(key_name_to_code("volume_up"), Some(115));
    assert_eq!(key_name_to_code("VolumeDown"), Some(114));
}

#[test]
fn key_codes_as_numbers() {
    assert_eq!(key_name_to_code("200"), Some(200));
    assert_eq!(key_name_to_code("+7"), Some(7));
    assert_eq!(key_name_to_code("65535"), Some(65535));
    assert_eq!(key_name_to_code("65536"), None);
    assert_eq!(key_name_to_code("-1"), None);
    assert_eq!(key_name_to_code("+"), None);
    assert_eq!(key_name_to_code("foo"), None);
    assert_eq!(key_name_to_code(""), None);
}

#[test]
fn colors() {
    assert_eq!(parse_color("a51d2d"), Some((0xa5, 0x1d, 0x2d)));
    assert_eq!(parse_color("#FF0080"), Some((255, 0, 128)));
    assert_eq!(parse_color("##00ff00"), Some((0, 255, 0)));
    assert_eq!(parse_color(" 123456 "), Some((0x12, 0x34, 0x56)));
    assert_eq!(parse_color("+f+f+f"), None);
    assert_eq!(parse_color("+1+2+3"), None);
    assert_eq!(parse_color("12345"), None);
    assert_eq!(parse_color("1234567"), None);
    assert_eq!(parse_color("12345g"), None);
    assert_eq!(parse_color("# 123456"), None);
    assert_eq!(parse_color("-1ffff"), None);
    assert_eq!(parse_color("\u{e9}\u{e9}12"), None);
    assert_eq!(parse_color("\u{e9}12345"), None);
    assert_eq!(parse_color("\u{e9}\u{e9}\u{e9}"), None);
}

#[test]
fn led_targets() {
    let mut c = Config::default();
    assert_eq!(led_target(&c), None);
    c.led_mode = LedMode::Off;
    c.led_color = (1, 2, 3);
    assert_eq!(led_target(&c), Some((0, 0, 0)));
    c.led_mode = LedMode::Color;
    assert_eq!(led_target(&c), Some((1, 2, 3)));
}

#[test]
fn empty_config_is_default() {
    let c = config_from_text("");
    assert_eq!(c, Config::default());
    assert_eq!(c.key_code, 164);
    assert_eq!(c.double_code, None);
    assert_eq!(c.double_ms, 1000);
    assert_eq!(c.led_mode, LedMode::Keep);
    assert_eq!(c.led_color, (0, 0, 0));
    assert_eq!(c.battery_warn, 15);
}

#[test]
fn full_config() {
    let c = config_from_text(
        "key=next\nkey_double=PREV\ndouble_ms=50\nleds=Color\nled_color=#00ff7f\nbattery_warn=off\n",
    );
    assert_eq!(c.key_code, 163);
    assert_eq!(c.double_code, Some(165));
    assert_eq!(c.double_ms, 100);
    assert_eq!(c.led_mode, LedMode::Color);
    assert_eq!(c.led_color, (0, 255, 127));
    assert_eq!(c.battery_warn, 0);
}

#[test]
fn config_clamps_and_keeps() {
    let c = config_from_text("double_ms=99999\r\nbattery_warn=250");
    assert_eq!(c.double_ms, 3000);
    assert_eq!(c.battery_warn, 100);
    let c = config_from_text("battery_warn=40\nbattery_warn=abc\n");
    assert_eq!(c.battery_warn, 40);
    let c = config_from_text("batterie=non\n");
    assert_eq!(c.battery_warn, 0);
    let c = config_from_text("double_ms=-5\ndouble_ms=1.5\n");
    assert_eq!(c.double_ms, 1000);
}

#[test]
fn config_comments_and_noise() {
    let c = config_from_text("# comment\n\n   key = mute  \nbogus line\nunknown=3\nkey=nothing\n");
    assert_eq!(c.key_code, 113);
    let c = config_from_text("key_double = next\nkey_double=aucune\n");
    assert_eq!(c.double_code, None);
    let c = config_from_text("key_double=next\nkey_double=\n");
    assert_eq!(c.double_code, None);
    let c = config_from_text("key_double=Stop\n");
    assert_eq!(c.double_code, Some(166));
    let c = config_from_text("leds=off\nleds=something\n");
    assert_eq!(c.led_mode, LedMode::Keep);
    let c = config_from_text("led_color=112233\nled_color=zz\n");
    assert_eq!(c.led_color, (0x11, 0x22, 0x33));
}

#[test]
fn config_trailing_comments() {
    let c = config_from_text("leds = off # keep | off | color\nkey_double = next # double\n");
    assert_eq!(c.led_mode, LedMode::Off);
    assert_eq!(c.double_code, Some(163));
    let c = config_from_text("led_color = #00FF80   # green\n");
    assert_eq!(c.led_color, (0x00, 0xff, 0x80));
    let c = config_from_text("led_color = #00FF80\n");
    assert_eq!(c.led_color, (0x00, 0xff, 0x80));
    // A '#' glued to the value is part of it.
    let c = config_from_text("key = mute#x\n");
    assert_eq!(c.key_code, 164);
    let c = config_from_text("key_double = # none\n");
    assert_eq!(c.double_code, None);
}

#[test]
fn config_unreadable_color_is_ignored() {
    let c = config_from_text("led_color=112233\nled_color=\u{e9}\u{e9}\u{e9}\nled_color=+1+2+3\n");
    assert_eq!(c.led_color, (0x11, 0x22, 0x33));
}

#[test]
fn documented_example_config_verbatim() {
    let c = config_from_text(
        "key          = playpause        # single-click action\n\
         key_double   = next             # double-click action (or 'none')\n\
         double_ms    = 1000             # double-click window (ms)\n\
         leds         = off              # keep | off | color\n\
         led_color    = a51d2d           # RRGGBB (if leds=color)\n\
         battery_warn = 15               # low-battery threshold in % (0 = no alert)\n",
    );
    assert_eq!(c.key_code, 164);
    assert_eq!(c.double_code, Some(163));
    assert_eq!(c.double_ms, 1000);
    assert_eq!(c.led_mode, LedMode::Off);
    assert_eq!(c.led_color, (0xa5, 0x1d, 0x2d));
    assert_eq!(c.battery_warn, 15);
}

#[test]
fn keys_declared_for_uinput() {
    let mut c = Config::default();
    assert_eq!(uinput_keys(&c), vec![164]);
    c.double_code = Some(164);
    assert_eq!(uinput_keys(&c), vec![164]);
    c.double_code = Some(163);
    assert_eq!(uinput_keys(&c), vec![164, 163]);
}

#[test]
fn documented_example_config() {
    let c = config_from_text(
        "key          = playpause\nkey_double   = next\ndouble_ms    = 1000\nleds         = off\nled_color    = a51d2d\nbattery_warn = 15\n",
    );
    assert_eq!(c.key_code, 164);
    assert_eq!(c.double_code, Some(163));
    assert_eq!(c.double_ms, 1000);
    assert_eq!(c.led_mode, LedMode::Off);
    assert_eq!(c.led_color, (0xa5, 0x1d, 0x2d));
    assert_eq!(c.battery_warn, 15);
    assert_eq!(led_target(&c), Some((0, 0, 0)));
}
