use logi_headset::config::{config_from_text, parse_color, LedMode};
use logi_headset::panel::{
    color_hex, double_selection, double_value_at, has_rgb_from_caps, headset_line, index_of,
    is_slow_model, key_value_at, language_of, led_value_at, panel_config_from_text, panel_text,
    pick_language, published_text, status_view, status_word, HeadsetLine, Lang, key_selection,
    led_selection,
};

#[test]
fn languages() {
    assert_eq!(language_of("fr_FR.UTF-8"), Some(Lang::Fr));
    assert_eq!(language_of("de"), Some(Lang::De));
    assert_eq!(language_of("it_IT"), Some(Lang::It));
    assert_eq!(language_of("es_ES"), Some(Lang::Es));
    assert_eq!(language_of("pt_BR"), Some(Lang::Pt));
    assert_eq!(language_of("en_US.UTF-8"), Some(Lang::En));
    assert_eq!(language_of("C"), None);
    assert_eq!(language_of("C.UTF-8"), None);
    assert_eq!(language_of("\u{e9}r"), None);
    assert_eq!(language_of(""), None);
}

#[test]
fn language_choice_order() {
    assert_eq!(
        pick_language(&[None, Some("C.UTF-8".to_string()), Some("de_DE".to_string())]),
        Lang::De
    );
    assert_eq!(
        pick_language(&[Some("it_IT".to_string()), Some("fr_FR".to_string()), None]),
        Lang::It
    );
    assert_eq!(pick_language(&[Some("xx".to_string()), None, None]), Lang::En);
    assert_eq!(pick_language(&[]), Lang::En);
}

#[test]
fn choices() {
    assert_eq!(index_of(&["a", "b", "c"], "c"), 2);
    assert_eq!(index_of(&["a", "b", "a"], "a"), 0);
    assert_eq!(index_of(&["a", "b", "c"], "z"), 0);
    assert_eq!(key_value_at(0), "playpause");
    assert_eq!(key_value_at(1), "next");
    assert_eq!(key_value_at(7), "volumedown");
    assert_eq!(key_value_at(99), "playpause");
    assert_eq!(double_value_at(0), "none");
    assert_eq!(double_value_at(2), "next");
    assert_eq!(double_value_at(9), "none");
    assert_eq!(led_value_at(2), "color");
    assert_eq!(led_value_at(5), "keep");
    assert_eq!(double_selection("none"), 0);
    assert_eq!(double_selection(""), 0);
    assert_eq!(double_selection("next"), 2);
    assert_eq!(double_selection("volumedown"), 8);
    assert_eq!(double_selection("bogus"), 1);
}

#[test]
fn panel_reads_file() {
    let p = panel_config_from_text(
        "key=next\nkey_double=stop\ndouble_ms=750.5\nleds=off\nled_color=##abcdef\nbattery_warn=NONE\n",
    );
    assert_eq!(p.key, "next");
    assert_eq!(p.key_double, "stop");
    assert_eq!(p.double_ms, vec!["750.5".to_string()]);
    assert_eq!(p.leds, "off");
    assert_eq!(p.color, "abcdef");
    assert_eq!(p.battery_warn, 0);
    let d = panel_config_from_text("");
    assert_eq!(d.key, "playpause");
    assert_eq!(d.key_double, "none");
    assert!(d.double_ms.is_empty());
    assert_eq!(d.leds, "keep");
    assert_eq!(d.color, "ffffff");
    assert_eq!(d.battery_warn, 15);
    assert_eq!(panel_config_from_text("battery_warn=300").battery_warn, 15);
    assert_eq!(panel_config_from_text("battery_warn=250").battery_warn, 100);
    assert_eq!(panel_config_from_text("battery_warn=40\nbatterie=xyz").battery_warn, 15);
}

#[test]
fn panel_writes_file() {
    assert_eq!(
        panel_text("playpause", "none", 1000, "keep", "ffffff", 15),
        "key=playpause\nkey_double=none\ndouble_ms=1000\nleds=keep\nled_color=ffffff\nbattery_warn=15\n"
    );
}

#[test]
fn daemon_reads_what_panel_writes() {
    let text = panel_text("next", "volumeup", 650, "color", "a51d2d", 20);
    let c = config_from_text(&text);
    assert_eq!(c.key_code, 163);
    assert_eq!(c.double_code, Some(115));
    assert_eq!(c.double_ms, 650);
    assert_eq!(c.led_mode, LedMode::Color);
    assert_eq!(c.led_color, (0xa5, 0x1d, 0x2d));
    assert_eq!(c.battery_warn, 20);
    let c = config_from_text(&panel_text("mute", "none", 50, "off", "000000", 0));
    assert_eq!(c.double_code, None);
    assert_eq!(c.double_ms, 100);
    assert_eq!(c.led_mode, LedMode::Off);
    assert_eq!(c.battery_warn, 0);
}

#[test]
fn panel_reads_what_it_writes() {
    let p = panel_config_from_text(&panel_text("stop", "next", 1200, "off", "#102030", 220));
    assert_eq!(p.key, "stop");
    assert_eq!(p.key_double, "next");
    assert_eq!(p.double_ms, vec!["1200".to_string()]);
    assert_eq!(p.leds, "off");
    assert_eq!(p.color, "102030");
    assert_eq!(p.battery_warn, 100);
}

#[test]
fn colors_round_trip() {
    assert_eq!(color_hex(165, 29, 45), "a51d2d");
    assert_eq!(color_hex(0, 0, 0), "000000");
    assert_eq!(color_hex(255, 255, 255), "ffffff");
    for (r, g, b) in [(0u8, 1u8, 2u8), (165, 29, 45), (255, 128, 7)] {
        assert_eq!(parse_color(&color_hex(r, g, b)), Some((r, g, b)));
    }
}

#[test]
fn published_files() {
    assert_eq!(published_text("  G533 Gaming Headset\n").as_deref(), Some("G533 Gaming Headset"));
    assert_eq!(published_text("  \n"), None);
    assert_eq!(published_text(""), None);
    assert_eq!(status_word(" connecte\n"), "connecte");
    assert_eq!(status_word(""), "");
}

#[test]
fn caps_file() {
    assert_eq!(has_rgb_from_caps("rgb=1\n"), Some(true));
    assert_eq!(has_rgb_from_caps("rgb=0\n"), Some(false));
    assert_eq!(has_rgb_from_caps("foo\n  rgb= 1 \n"), Some(true));
    assert_eq!(has_rgb_from_caps("x=1\nrgb=2"), Some(false));
    assert_eq!(has_rgb_from_caps("rgb=1\nrgb=0\n"), Some(true));
    assert_eq!(has_rgb_from_caps(""), None);
    assert_eq!(has_rgb_from_caps("nothing here"), None);
}

#[test]
fn headset_lines() {
    assert_eq!(headset_line(Some("connecte")), HeadsetLine::Connected);
    assert_eq!(headset_line(Some("recherche")), HeadsetLine::Searching);
    assert_eq!(headset_line(Some("arrete")), HeadsetLine::Unknown);
    assert_eq!(headset_line(None), HeadsetLine::Unknown);
}

#[test]
fn slow_models() {
    assert!(is_slow_model("Logitech g533"));
    assert!(is_slow_model("G533 Gaming Headset"));
    assert!(!is_slow_model("G733"));
    assert!(!is_slow_model(""));
}

#[test]
fn status_area() {
    let v = status_view(true, Some("connecte"), Some("G533 Gaming Headset"), Some(false), Some("~50 % (3.85 V)"));
    assert_eq!(v.headset, HeadsetLine::Connected);
    assert_eq!(v.model.as_deref(), Some("G533 Gaming Headset"));
    assert!(v.slow_model);
    assert!(!v.led_enabled);
    assert_eq!(v.battery, "~50 % (3.85 V)");
    // Service stopped: the status file does not count.
    let v = status_view(false, Some("connecte"), Some("G733"), Some(false), Some("80 %"));
    assert_eq!(v.headset, HeadsetLine::Unknown);
    assert_eq!(v.model, None);
    assert!(!v.slow_model);
    assert!(v.led_enabled);
    assert_eq!(v.battery, "\u{2014}");
    let v = status_view(true, Some("recherche"), Some("G733"), None, None);
    assert_eq!(v.headset, HeadsetLine::Searching);
    assert_eq!(v.model, None);
    assert_eq!(v.battery, "\u{2014}");
    let v = status_view(true, Some("connecte"), Some("G733"), Some(true), None);
    assert!(v.led_enabled);
    assert!(!v.slow_model);
    assert_eq!(v.battery, "\u{2014}");
}

#[test]
fn apply_unchanged_writes_same_choices() {
    assert_eq!(key_selection("volumedown"), 7);
    assert_eq!(key_selection("bogus"), 0);
    assert_eq!(led_selection("color"), 2);
    assert_eq!(led_selection("bogus"), 0);
    let text = panel_text("previous", "micmute", 800, "off", "a51d2d", 30);
    let p = panel_config_from_text(&text);
    assert_eq!(key_value_at(key_selection(&p.key)), "previous");
    assert_eq!(double_value_at(double_selection(&p.key_double)), "micmute");
    assert_eq!(led_value_at(led_selection(&p.leds)), "off");
    let text = panel_text("next", "none", 800, "color", "a51d2d", 30);
    let p = panel_config_from_text(&text);
    assert_eq!(double_value_at(double_selection(&p.key_double)), "none");
    assert_eq!(led_value_at(led_selection(&p.leds)), "color");
}
