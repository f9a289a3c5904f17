//! The configuration panel's logic: the interface language, reading and
//! writing the shared config file, the choices of its drop-downs, and what the
//! status area shows from the files the daemon publishes.
use vstd::prelude::*;
use crate::calibration::Calibration;
use crate::config::{split_lines, strip_hash_chars, strip_hashes};
use crate::text::{
    chars_of, contains, contains_chars, copy_range, decimal, find_char, first_index,
    hex_char, hex_char_of, is_word, lemma_first_index, lower, lowercased, parse_decimal,
    parse_unsigned, push_chars, push_decimal, push_str, string_from_chars, trim, trimmed,
    upper, uppercased,
};

verus! {

/// Threshold shown when the file gives none (aligned with the daemon's default).
pub const DEFAULT_BATTERY_WARN: u8 = 15;

// ---- language ------------------------------------------------------------------

/// Interface languages.
#[derive(Clone, Copy, PartialEq, Eq, Structural, Debug)]
pub enum Lang {
    En,
    Fr,
    De,
    It,
    Es,
    Pt,
}

/// The language a locale value names by its first two bytes (`fr_FR.UTF-8` is
/// French). The codes are ASCII, so comparing the first two characters is the
/// same as comparing the first two bytes.
pub open spec fn lang_of(v: Seq<char>) -> Option<Lang> {
    if v.len() < 2 {
        None
    } else {
        let c = v.take(2);
        if c == "fr"@ {
            Some(Lang::Fr)
        } else if c == "de"@ {
            Some(Lang::De)
        } else if c == "it"@ {
            Some(Lang::It)
        } else if c == "es"@ {
            Some(Lang::Es)
        } else if c == "pt"@ {
            Some(Lang::Pt)
        } else if c == "en"@ {
            Some(Lang::En)
        } else {
            None
        }
    }
}

pub fn language_of(v: &str) -> (r: Option<Lang>)
    ensures
        r == lang_of(v@),
{
    let cs = chars_of(v);
    if cs.len() < 2 {
        return None;
    }
    let c = copy_range(&cs, 0, 2);
    if is_word(&c, "fr") {
        Some(Lang::Fr)
    } else if is_word(&c, "de") {
        Some(Lang::De)
    } else if is_word(&c, "it") {
        Some(Lang::It)
    } else if is_word(&c, "es") {
        Some(Lang::Es)
    } else if is_word(&c, "pt") {
        Some(Lang::Pt)
    } else if is_word(&c, "en") {
        Some(Lang::En)
    } else {
        None
    }
}

/// The first recognised language among the locale variables, in order.
pub open spec fn first_lang(vs: Seq<Option<Seq<char>>>) -> Option<Lang>
    decreases vs.len(),
{
    if vs.len() == 0 {
        None
    } else {
        match first_lang(vs.drop_last()) {
            Some(l) => Some(l),
            None => match vs.last() {
                Some(v) => lang_of(v),
                None => None,
            },
        }
    }
}

/// The interface language from the values of `LC_ALL`, `LC_MESSAGES` and `LANG`
/// (in that order, `None` for unset ones): the first recognised one, else English.
pub fn pick_language(values: &[Option<String>]) -> (l: Lang)
    ensures
        l == match first_lang(values@.map_values(|o: Option<String>| match o {
            Some(s) => Some(s@),
            None => None,
        })) {
            Some(x) => x,
            None => Lang::En,
        },
{
    let ghost vs = values@.map_values(|o: Option<String>| match o {
        Some(s) => Some(s@),
        None => None,
    });
    let mut i: usize = 0;
    while i < values.len()
        invariant
            i <= values@.len(),
            vs == values@.map_values(|o: Option<String>| match o {
                Some(s) => Some(s@),
                None => None,
            }),
            first_lang(vs.take(i as int)) is None,
        decreases values@.len() - i,
    {
        assert(vs.take(i + 1).drop_last() =~= vs.take(i as int));
        if let Some(s) = &values[i] {
            if let Some(l) = language_of(s.as_str()) {
                proof {
                    lemma_first_lang_extend(vs.take(i + 1), vs.skip(i + 1));
                    assert(vs.take(i + 1) + vs.skip(i + 1) =~= vs);
                }
                return l;
            }
        }
        i = i + 1;
    }
    assert(vs.take(vs.len() as int) =~= vs);
    Lang::En
}

proof fn lemma_first_lang_extend(a: Seq<Option<Seq<char>>>, b: Seq<Option<Seq<char>>>)
    requires
        first_lang(a) is Some,
    ensures
        first_lang(a + b) == first_lang(a),
    decreases b.len(),
{
    if b.len() == 0 {
        assert(a + b =~= a);
    } else {
        assert((a + b).drop_last() =~= a + b.drop_last());
        lemma_first_lang_extend(a, b.drop_last());
    }
}

// ---- choices ---------------------------------------------------------------------

/// The config values of the key drop-down, in display order.
pub open spec fn key_values() -> Seq<Seq<char>> {
    seq![
        "playpause"@,
        "next"@,
        "previous"@,
        "stop"@,
        "mute"@,
        "micmute"@,
        "volumeup"@,
        "volumedown"@,
    ]
}

/// The config values of the LED drop-down, in display order.
pub open spec fn led_values() -> Seq<Seq<char>> {
    seq!["keep"@, "off"@, "color"@]
}

pub const KEY_CHOICES: u32 = 8;
pub const LED_CHOICES: u32 = 3;

/// The key value at a drop-down position (`playpause` past the end).
pub open spec fn key_value_of(sel: int) -> Seq<char> {
    if 0 <= sel < KEY_CHOICES {
        key_values()[sel]
    } else {
        "playpause"@
    }
}

/// The double-click value at a drop-down position: `none` first, then the keys.
pub open spec fn double_value_of(sel: int) -> Seq<char> {
    if 1 <= sel <= KEY_CHOICES {
        key_values()[sel - 1]
    } else {
        "none"@
    }
}

/// The LED value at a drop-down position (`keep` past the end).
pub open spec fn led_value_of(sel: int) -> Seq<char> {
    if 0 <= sel < LED_CHOICES {
        led_values()[sel]
    } else {
        "keep"@
    }
}

/// The key value at a drop-down position (`playpause` past the end).
pub fn key_value_at(sel: u32) -> (v: &'static str)
    ensures
        v@ == key_value_of(sel as int),
{
    match sel {
        0 => "playpause",
        1 => "next",
        2 => "previous",
        3 => "stop",
        4 => "mute",
        5 => "micmute",
        6 => "volumeup",
        7 => "volumedown",
        _ => "playpause",
    }
}

/// The double-click value at a drop-down position: `none` first, then the keys.
pub fn double_value_at(sel: u32) -> (v: &'static str)
    ensures
        v@ == double_value_of(sel as int),
{
    match sel {
        1 => "playpause",
        2 => "next",
        3 => "previous",
        4 => "stop",
        5 => "mute",
        6 => "micmute",
        7 => "volumeup",
        8 => "volumedown",
        _ => "none",
    }
}

/// The LED value at a drop-down position (`keep` past the end).
pub fn led_value_at(sel: u32) -> (v: &'static str)
    ensures
        v@ == led_value_of(sel as int),
{
    match sel {
        0 => "keep",
        1 => "off",
        2 => "color",
        _ => "keep",
    }
}

/// The position of the first entry equal to `value`, or 0 when there is none.
pub open spec fn position_of(values: Seq<Seq<char>>, value: Seq<char>) -> int
    decreases values.len(),
{
    if values.len() == 0 {
        0
    } else if position_in(values.drop_last(), value) {
        position_of(values.drop_last(), value)
    } else if values.last() == value {
        values.len() - 1
    } else {
        0
    }
}

/// Whether `value` is one of `values`.
pub open spec fn position_in(values: Seq<Seq<char>>, value: Seq<char>) -> bool {
    exists|i: int| 0 <= i < values.len() && values[i] == value
}

/// Position of `value` in `values` (0 when absent).
pub fn index_of(values: &[&str], value: &str) -> (r: u32)
    ensures
        r == position_of(values@.map_values(|s: &str| s@), value@) as u32,
{
    let ghost vs = values@.map_values(|s: &str| s@);
    let target = chars_of(value);
    let mut i: usize = 0;
    while i < values.len()
        invariant
            i <= values@.len(),
            vs == values@.map_values(|s: &str| s@),
            target@ == value@,
            !position_in(vs.take(i as int), value@),
        decreases values@.len() - i,
    {
        let w = chars_of(values[i]);
        assert(vs.take(i + 1).drop_last() =~= vs.take(i as int));
        if crate::text::same_chars(&w, &target) {
            proof {
                assert(vs.take(i + 1).last() == value@);
                assert(position_of(vs.take(i + 1), value@) == i);
                lemma_position_extend(vs.take(i + 1), vs.skip(i + 1), value@);
                assert(vs.take(i + 1) + vs.skip(i + 1) =~= vs);
            }
            return i as u32;
        }
        proof {
            let t = vs.take(i + 1);
            assert(!position_in(t, value@)) by {
                if position_in(t, value@) {
                    let k = choose|k: int| 0 <= k < t.len() && #[trigger] t[k] == value@;
                    if k < i {
                        assert(t[k] == vs.take(i as int)[k]);
                    } else {
                        assert(w@ == vs[i as int]);
                    }
                }
            }
        }
        i = i + 1;
    }
    assert(vs.take(vs.len() as int) =~= vs);
    proof {
        lemma_position_absent(vs, value@);
    }
    0
}

proof fn lemma_position_bound(values: Seq<Seq<char>>, value: Seq<char>)
    ensures
        0 <= position_of(values, value),
        values.len() > 0 ==> position_of(values, value) < values.len(),
    decreases values.len(),
{
    if values.len() > 0 {
        lemma_position_bound(values.drop_last(), value);
    }
}

proof fn lemma_position_absent(values: Seq<Seq<char>>, value: Seq<char>)
    requires
        !position_in(values, value),
    ensures
        position_of(values, value) == 0,
    decreases values.len(),
{
    if values.len() > 0 {
        assert(!position_in(values.drop_last(), value)) by {
            if position_in(values.drop_last(), value) {
                let i = choose|i: int|
                    0 <= i < values.drop_last().len() && values.drop_last()[i] == value;
                assert(values[i] == value);
            }
        }
        assert(values.last() != value) by {
            if values.last() == value {
                assert(values[values.len() - 1] == value);
            }
        }
    }
}

proof fn lemma_position_extend(a: Seq<Seq<char>>, b: Seq<Seq<char>>, value: Seq<char>)
    requires
        position_in(a, value),
    ensures
        position_of(a + b, value) == position_of(a, value),
        position_in(a + b, value),
    decreases b.len(),
{
    if b.len() == 0 {
        assert(a + b =~= a);
    } else {
        assert((a + b).drop_last() =~= a + b.drop_last());
        lemma_position_extend(a, b.drop_last(), value);
    }
}

/// The double-click drop-down position for a config value: 0 (none) for `none`
/// or an empty value, else one past the key's position.
pub open spec fn double_selection_of(key_double: Seq<char>) -> int {
    if key_double == "none"@ || key_double.len() == 0 {
        0
    } else {
        position_of(key_values(), key_double) + 1
    }
}

pub fn double_selection(key_double: &str) -> (r: u32)
    ensures
        r == double_selection_of(key_double@),
{
    let kd = chars_of(key_double);
    if is_word(&kd, "none") || kd.len() == 0 {
        return 0;
    }
    let values: [&str; 8] = [
        "playpause",
        "next",
        "previous",
        "stop",
        "mute",
        "micmute",
        "volumeup",
        "volumedown",
    ];
    assert(values@.map_values(|s: &str| s@) =~= key_values());
    let p = index_of(&values, key_double);
    proof {
        lemma_position_bound(key_values(), key_double@);
    }
    p + 1
}

/// The key drop-down position for a config value (0 when it is none of them).
pub fn key_selection(key: &str) -> (r: u32)
    ensures
        r == position_of(key_values(), key@),
{
    let values: [&str; 8] = [
        "playpause",
        "next",
        "previous",
        "stop",
        "mute",
        "micmute",
        "volumeup",
        "volumedown",
    ];
    assert(values@.map_values(|s: &str| s@) =~= key_values());
    proof {
        lemma_position_bound(key_values(), key@);
    }
    index_of(&values, key)
}

/// The LED drop-down position for a config value (0 when it is none of them).
pub fn led_selection(leds: &str) -> (r: u32)
    ensures
        r == position_of(led_values(), leds@),
{
    let values: [&str; 3] = ["keep", "off", "color"];
    assert(values@.map_values(|s: &str| s@) =~= led_values());
    proof {
        lemma_position_bound(led_values(), leds@);
    }
    index_of(&values, leds)
}

/// The entry at the position found is the value looked for.
pub proof fn lemma_position_found(values: Seq<Seq<char>>, value: Seq<char>)
    requires
        position_in(values, value),
    ensures
        0 <= position_of(values, value) < values.len(),
        values[position_of(values, value)] == value,
    decreases values.len(),
{
    lemma_position_bound(values, value);
    if position_in(values.drop_last(), value) {
        lemma_position_found(values.drop_last(), value);
    } else {
        let i = choose|i: int| 0 <= i < values.len() && values[i] == value;
        if i < values.len() - 1 {
            assert(values.drop_last()[i] == value);
        }
    }
}

// ---- the config file as the panel reads it --------------------------------------

/// The panel's view of the config file: the values as text, except the
/// threshold. Every `double_ms` value is kept in order: the panel reads it as a
/// decimal fraction and keeps the last one that reads.
pub struct PanelConfig {
    pub key: String,
    pub key_double: String,
    pub double_ms: Vec<String>,
    pub leds: String,
    pub color: String,
    pub battery_warn: u8,
}

/// [`PanelConfig`] as plain sequences.
pub struct PanelSettings {
    pub key: Seq<char>,
    pub key_double: Seq<char>,
    pub double_ms: Seq<Seq<char>>,
    pub leds: Seq<char>,
    pub color: Seq<char>,
    pub battery_warn: u8,
}

impl View for PanelConfig {
    type V = PanelSettings;

    open spec fn view(&self) -> PanelSettings {
        PanelSettings {
            key: self.key@,
            key_double: self.key_double@,
            double_ms: self.double_ms@.map_values(|s: String| s@),
            leds: self.leds@,
            color: self.color@,
            battery_warn: self.battery_warn,
        }
    }
}

pub open spec fn panel_defaults() -> PanelSettings {
    PanelSettings {
        key: "playpause"@,
        key_double: "none"@,
        double_ms: Seq::empty(),
        leds: "keep"@,
        color: "ffffff"@,
        battery_warn: DEFAULT_BATTERY_WARN,
    }
}

/// The threshold for a value: `off`, `none`, `aucune` or `non` (any ASCII case)
/// disable it; a number is capped at 100; anything else gives the default.
pub open spec fn panel_warn(v: Seq<char>) -> u8 {
    let l = lower(v);
    if l == "off"@ || l == "none"@ || l == "aucune"@ || l == "non"@ {
        0
    } else {
        let p = match parse_unsigned(l, 0xff) {
            Some(p) => p as u8,
            None => DEFAULT_BATTERY_WARN,
        };
        if p > 100 {
            100
        } else {
            p
        }
    }
}

pub open spec fn panel_setting(p: PanelSettings, k: Seq<char>, v: Seq<char>) -> PanelSettings {
    if k == "key"@ {
        PanelSettings { key: v, ..p }
    } else if k == "key_double"@ {
        PanelSettings { key_double: v, ..p }
    } else if k == "double_ms"@ {
        PanelSettings { double_ms: p.double_ms.push(v), ..p }
    } else if k == "leds"@ {
        PanelSettings { leds: v, ..p }
    } else if k == "led_color"@ {
        PanelSettings { color: strip_hashes(v), ..p }
    } else if k == "battery_warn"@ || k == "batterie"@ {
        PanelSettings { battery_warn: panel_warn(v), ..p }
    } else {
        p
    }
}

pub open spec fn panel_line(p: PanelSettings, line: Seq<char>) -> PanelSettings {
    let l = trim(line);
    if l.len() == 0 || l[0] == '#' {
        p
    } else {
        match first_index(l, '=') {
            None => p,
            Some(e) => panel_setting(p, trim(l.take(e)), trim(l.skip(e + 1))),
        }
    }
}

pub open spec fn panel_lines(p: PanelSettings, ls: Seq<Seq<char>>) -> PanelSettings
    decreases ls.len(),
{
    if ls.len() == 0 {
        p
    } else {
        panel_line(panel_lines(p, ls.drop_last()), ls.last())
    }
}

pub open spec fn panel_of_text(s: Seq<char>) -> PanelSettings {
    panel_lines(panel_defaults(), split_lines(s))
}

fn panel_warn_exec(v: &[char]) -> (w: u8)
    ensures
        w == panel_warn(v@),
{
    let l = lowercased(v);
    if is_word(&l, "off") || is_word(&l, "none") || is_word(&l, "aucune") || is_word(&l, "non") {
        0
    } else {
        let p = match parse_decimal(&l, 0xff) {
            Some(p) => p as u8,
            None => DEFAULT_BATTERY_WARN,
        };
        if p > 100 {
            100
        } else {
            p
        }
    }
}

fn panel_setting_exec(p: &mut PanelConfig, k: &[char], v: &[char])
    ensures
        final(p)@ == panel_setting(old(p)@, k@, v@),
{
    if is_word(k, "key") {
        p.key = string_from_chars(v);
    } else if is_word(k, "key_double") {
        p.key_double = string_from_chars(v);
    } else if is_word(k, "double_ms") {
        let ghost before = p.double_ms@;
        p.double_ms.push(string_from_chars(v));
        assert(p.double_ms@.map_values(|s: String| s@) =~= before.map_values(|s: String| s@).push(
            v@,
        ));
    } else if is_word(k, "leds") {
        p.leds = string_from_chars(v);
    } else if is_word(k, "led_color") {
        let s = strip_hash_chars(v);
        p.color = string_from_chars(&s);
    } else if is_word(k, "battery_warn") || is_word(k, "batterie") {
        p.battery_warn = panel_warn_exec(v);
    }
}

fn panel_line_exec(p: &mut PanelConfig, line: &[char])
    ensures
        final(p)@ == panel_line(old(p)@, line@),
{
    let l = trimmed(line);
    if l.len() == 0 || l[0] == '#' {
        return ;
    }
    match find_char(&l, '=') {
        None => {},
        Some(e) => {
            proof {
                lemma_first_index(l@, '=');
            }
            let kr = copy_range(&l, 0, e);
            let vr = copy_range(&l, e + 1, l.len());
            assert(kr@ =~= l@.take(e as int));
            assert(vr@ =~= l@.skip(e + 1));
            let k = trimmed(&kr);
            let v = trimmed(&vr);
            panel_setting_exec(p, &k, &v);
        },
    }
}

/// Reads the panel's settings from the text of the config file.
pub fn panel_config_from_text(txt: &str) -> (p: PanelConfig)
    ensures
        p@ == panel_of_text(txt@),
{
    let s = chars_of(txt);
    let mut p = PanelConfig {
        key: string_from_chars(&chars_of("playpause")),
        key_double: string_from_chars(&chars_of("none")),
        double_ms: Vec::new(),
        leds: string_from_chars(&chars_of("keep")),
        color: string_from_chars(&chars_of("ffffff")),
        battery_warn: DEFAULT_BATTERY_WARN,
    };
    assert(p.double_ms@.map_values(|s: String| s@) =~= Seq::<Seq<char>>::empty());
    let mut cur: Vec<char> = Vec::new();
    let mut i: usize = 0;
    assert(s@.take(0) =~= Seq::<char>::empty());
    while i < s.len()
        invariant
            i <= s@.len(),
            s@ == txt@,
            split_lines(s@.take(i as int)).len() >= 1,
            cur@ == split_lines(s@.take(i as int)).last(),
            p@ == panel_lines(panel_defaults(), split_lines(s@.take(i as int)).drop_last()),
        decreases s@.len() - i,
    {
        let c = s[i];
        let ghost before = split_lines(s@.take(i as int));
        assert(s@.take(i + 1).drop_last() =~= s@.take(i as int));
        assert(s@.take(i + 1).last() == c);
        if c == '\n' {
            let ghost after = split_lines(s@.take(i + 1));
            assert(after == before.push(Seq::empty()));
            let ghost old_p = p@;
            panel_line_exec(&mut p, &cur);
            assert(after.drop_last() =~= before.drop_last().push(before.last()));
            assert(after.drop_last().drop_last() =~= before.drop_last());
            assert(panel_lines(panel_defaults(), after.drop_last()) == panel_line(
                panel_lines(panel_defaults(), before.drop_last()),
                before.last(),
            ));
            assert(p@ == panel_line(old_p, cur@));
            cur = Vec::new();
        } else {
            let ghost after = split_lines(s@.take(i + 1));
            cur.push(c);
            assert(after.drop_last() =~= before.drop_last());
        }
        i = i + 1;
    }
    assert(s@.take(s@.len() as int) =~= s@);
    panel_line_exec(&mut p, &cur);
    proof {
        let ls = split_lines(s@);
        assert(ls.drop_last().push(ls.last()) =~= ls);
    }
    p
}

/// One `name=value` line.
pub open spec fn setting_line(name: Seq<char>, v: Seq<char>) -> Seq<char> {
    name + "="@ + v + "\n"@
}

/// The file the panel writes.
pub open spec fn panel_text_of(
    key: Seq<char>,
    key_double: Seq<char>,
    double_ms: u64,
    leds: Seq<char>,
    color: Seq<char>,
    battery_warn: u8,
) -> Seq<char> {
    setting_line("key"@, key) + setting_line("key_double"@, key_double) + setting_line(
        "double_ms"@,
        decimal(double_ms as nat),
    ) + setting_line("leds"@, leds) + setting_line("led_color"@, color) + setting_line(
        "battery_warn"@,
        decimal(battery_warn as nat),
    )
}

fn push_setting(out: &mut Vec<char>, name: &str, v: &[char])
    ensures
        final(out)@ == old(out)@ + setting_line(name@, v@),
{
    let ghost start = out@;
    push_str(out, name);
    push_str(out, "=");
    push_chars(out, v);
    push_str(out, "\n");
    assert(out@ =~= start + setting_line(name@, v@));
}

/// The text of the config file for the panel's choices.
pub fn panel_text(
    key: &str,
    key_double: &str,
    double_ms: u64,
    leds: &str,
    color: &str,
    battery_warn: u8,
) -> (s: String)
    ensures
        s@ == panel_text_of(key@, key_double@, double_ms, leds@, color@, battery_warn),
{
    let mut out: Vec<char> = Vec::new();
    push_setting(&mut out, "key", &chars_of(key));
    push_setting(&mut out, "key_double", &chars_of(key_double));
    let ms = crate::text::decimal_chars(double_ms);
    push_setting(&mut out, "double_ms", &ms);
    push_setting(&mut out, "leds", &chars_of(leds));
    push_setting(&mut out, "led_color", &chars_of(color));
    let w = crate::text::decimal_chars(battery_warn as u64);
    push_setting(&mut out, "battery_warn", &w);
    assert(out@ =~= panel_text_of(key@, key_double@, double_ms, leds@, color@, battery_warn));
    string_from_chars(&out)
}

/// A color as `rrggbb` in lower-case hexadecimal.
pub open spec fn color_hex_of(r: u8, g: u8, b: u8) -> Seq<char> {
    seq![
        hex_char(r as int / 16),
        hex_char(r as int % 16),
        hex_char(g as int / 16),
        hex_char(g as int % 16),
        hex_char(b as int / 16),
        hex_char(b as int % 16),
    ]
}

pub fn color_hex(r: u8, g: u8, b: u8) -> (s: String)
    ensures
        s@ == color_hex_of(r, g, b),
{
    let mut out: Vec<char> = Vec::new();
    out.push(hex_char_of(r / 16));
    out.push(hex_char_of(r % 16));
    out.push(hex_char_of(g / 16));
    out.push(hex_char_of(g % 16));
    out.push(hex_char_of(b / 16));
    out.push(hex_char_of(b % 16));
    assert(out@ =~= color_hex_of(r, g, b));
    string_from_chars(&out)
}

// ---- status files ----------------------------------------------------------------

/// A published value: the file's text trimmed, or `None` when that is empty.
pub fn published_text(txt: &str) -> (r: Option<String>)
    ensures
        match r {
            Some(s) => s@ == trim(txt@) && s@.len() > 0,
            None => trim(txt@).len() == 0,
        },
{
    let t = trimmed(&chars_of(txt));
    if t.len() == 0 {
        None
    } else {
        Some(string_from_chars(&t))
    }
}

/// The status word: the file's text trimmed.
pub fn status_word(txt: &str) -> (s: String)
    ensures
        s@ == trim(txt@),
{
    let t = trimmed(&chars_of(txt));
    string_from_chars(&t)
}

/// The RGB capability a caps line states, if it is an `rgb=` line.
pub open spec fn caps_line(line: Seq<char>) -> Option<bool> {
    let l = trim(line);
    if l.len() >= 4 && l.take(4) == "rgb="@ {
        Some(trim(l.skip(4)) == "1"@)
    } else {
        None
    }
}

pub open spec fn caps_of_lines(ls: Seq<Seq<char>>) -> Option<bool>
    decreases ls.len(),
{
    if ls.len() == 0 {
        None
    } else {
        match caps_of_lines(ls.drop_last()) {
            Some(b) => Some(b),
            None => caps_line(ls.last()),
        }
    }
}

fn caps_line_exec(line: &[char]) -> (r: Option<bool>)
    ensures
        r == caps_line(line@),
{
    let l = trimmed(line);
    if l.len() >= 4 {
        let head = copy_range(&l, 0, 4);
        assert(head@ =~= l@.take(4));
        if is_word(&head, "rgb=") {
            let rest = copy_range(&l, 4, l.len());
            assert(rest@ =~= l@.skip(4));
            let v = trimmed(&rest);
            return Some(is_word(&v, "1"));
        }
    }
    None
}

/// RGB capability from the caps file: the first `rgb=` line says whether the
/// value is `1`; `None` when no line says.
pub fn has_rgb_from_caps(txt: &str) -> (r: Option<bool>)
    ensures
        r == caps_of_lines(split_lines(txt@)),
{
    let s = chars_of(txt);
    let mut cur: Vec<char> = Vec::new();
    let mut i: usize = 0;
    assert(s@.take(0) =~= Seq::<char>::empty());
    while i < s.len()
        invariant
            i <= s@.len(),
            s@ == txt@,
            split_lines(s@.take(i as int)).len() >= 1,
            cur@ == split_lines(s@.take(i as int)).last(),
            caps_of_lines(split_lines(s@.take(i as int)).drop_last()) is None,
        decreases s@.len() - i,
    {
        let c = s[i];
        let ghost before = split_lines(s@.take(i as int));
        assert(s@.take(i + 1).drop_last() =~= s@.take(i as int));
        assert(s@.take(i + 1).last() == c);
        if c == '\n' {
            let ghost after = split_lines(s@.take(i + 1));
            assert(after == before.push(Seq::empty()));
            assert(after.drop_last() =~= before.drop_last().push(before.last()));
            assert(after.drop_last().drop_last() =~= before.drop_last());
            assert(caps_of_lines(after.drop_last()) == caps_line(cur@));
            if let Some(b) = caps_line_exec(&cur) {
                proof {
                    crate::config::lemma_split_lines_prefix(s@, i + 1);
                    lemma_caps_extend(s@, i + 1);
                }
                return Some(b);
            }
            cur = Vec::new();
        } else {
            let ghost after = split_lines(s@.take(i + 1));
            cur.push(c);
            assert(after.drop_last() =~= before.drop_last());
        }
        i = i + 1;
    }
    assert(s@.take(s@.len() as int) =~= s@);
    let r = caps_line_exec(&cur);
    proof {
        let ls = split_lines(s@);
        assert(ls.drop_last().push(ls.last()) =~= ls);
    }
    r
}

/// Once a prefix of the lines decides, the whole text decides the same way.
proof fn lemma_caps_extend(s: Seq<char>, i: int)
    requires
        0 <= i <= s.len(),
        caps_of_lines(split_lines(s.take(i)).drop_last()) is Some,
    ensures
        caps_of_lines(split_lines(s)) == caps_of_lines(split_lines(s.take(i)).drop_last()),
{
    crate::config::lemma_split_lines_prefix(s, i);
    crate::config::lemma_split_lines_len(s.take(i));
    let a = split_lines(s.take(i)).drop_last();
    let whole = split_lines(s);
    assert(whole.take(a.len() as int) =~= a);
    lemma_caps_prefix(whole, a.len() as int);
}

proof fn lemma_caps_prefix(ls: Seq<Seq<char>>, n: int)
    requires
        0 <= n <= ls.len(),
        caps_of_lines(ls.take(n)) is Some,
    ensures
        caps_of_lines(ls) == caps_of_lines(ls.take(n)),
    decreases ls.len(),
{
    if n < ls.len() {
        assert(ls.drop_last().take(n) =~= ls.take(n));
        lemma_caps_prefix(ls.drop_last(), n);
    } else {
        assert(ls.take(n) =~= ls);
    }
}

/// What the panel says of the headset, from the daemon's status word.
#[derive(Clone, Copy, PartialEq, Eq, Structural, Debug)]
pub enum HeadsetLine {
    Connected,
    Searching,
    Unknown,
}

pub open spec fn headset_line_of(status: Option<Seq<char>>) -> HeadsetLine {
    match status {
        Some(s) => if s == "connecte"@ {
            HeadsetLine::Connected
        } else if s == "recherche"@ {
            HeadsetLine::Searching
        } else {
            HeadsetLine::Unknown
        },
        None => HeadsetLine::Unknown,
    }
}

pub fn headset_line(status: Option<&str>) -> (h: HeadsetLine)
    ensures
        h == headset_line_of(
            match status {
                Some(s) => Some(s@),
                None => None,
            },
        ),
{
    match status {
        Some(s) => {
            let v = chars_of(s);
            if is_word(&v, "connecte") {
                HeadsetLine::Connected
            } else if is_word(&v, "recherche") {
                HeadsetLine::Searching
            } else {
                HeadsetLine::Unknown
            }
        },
        None => HeadsetLine::Unknown,
    }
}

/// Models whose mute button takes about a minute to answer after power-on:
/// names containing `G533` in any ASCII case.
pub fn is_slow_model(name: &str) -> (r: bool)
    ensures
        r == contains(upper(name@), "G533"@),
{
    let u = uppercased(&chars_of(name));
    contains_chars(&u, &chars_of("G533"))
}

/// What the status area shows.
#[derive(Debug)]
pub struct StatusView {
    /// The headset line.
    pub headset: HeadsetLine,
    /// The model name, shown while connected.
    pub model: Option<String>,
    /// Show the note on models slow to accept the button after power-on.
    pub slow_model: bool,
    /// The LED settings can be used (not a connected headset without RGB LEDs).
    pub led_enabled: bool,
    /// The charge text, or a dash when there is none to show.
    pub battery: String,
}

pub open spec fn str_view(o: Option<&str>) -> Option<Seq<char>> {
    match o {
        Some(s) => Some(s@),
        None => None,
    }
}

/// The status area from what was read: whether the user service is active, the
/// daemon's status word, and the model, caps and charge it published. The
/// status counts only while the service is active; the model, the missing RGB
/// LEDs and the charge count only while the headset is connected.
pub fn status_view(
    active: bool,
    status: Option<&str>,
    model: Option<&str>,
    has_rgb: Option<bool>,
    battery: Option<&str>,
) -> (v: StatusView)
    ensures
        v.headset == headset_line_of(
            if active {
                str_view(status)
            } else {
                None
            },
        ),
        v.headset == HeadsetLine::Connected && model is Some ==> (v.model matches Some(m) && Some(
            m@,
        ) == str_view(model)),
        !(v.headset == HeadsetLine::Connected && model is Some) ==> v.model is None,
        v.slow_model == (v.model matches Some(m) && contains(upper(m@), "G533"@)),
        v.led_enabled == !(v.headset == HeadsetLine::Connected && has_rgb == Some(false)),
        v.battery@ == if v.headset == HeadsetLine::Connected && battery is Some {
            str_view(battery)->0
        } else {
            "\u{2014}"@
        },
{
    let headset = if active {
        headset_line(status)
    } else {
        headset_line(None)
    };
    let connected = match headset {
        HeadsetLine::Connected => true,
        _ => false,
    };
    let shown: Option<String> = if connected {
        match model {
            Some(m) => Some(string_from_chars(&chars_of(m))),
            None => None,
        }
    } else {
        None
    };
    let slow_model = match &shown {
        Some(m) => is_slow_model(m.as_str()),
        None => false,
    };
    let led_enabled = !(connected && has_rgb == Some(false));
    let text = match battery {
        Some(b) if connected => string_from_chars(&chars_of(b)),
        _ => string_from_chars(&chars_of("\u{2014}")),
    };
    StatusView { headset, model: shown, slow_model, led_enabled, battery: text }
}

} // verus!
