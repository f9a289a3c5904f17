//! The daemon's configuration: `key = value` lines in
//! `~/.config/logi-headset/config`, read into a [`Config`]. Lines starting with
//! `#` are comments, and so is what follows a `#` after whitespace in a value;
//! a value that does not read leaves its setting as it was.
use vstd::prelude::*;
use crate::text::{
    all_digits, chars_of, copy_range, first_index, find_char, hex_digit, hex_digit_value,
    char_is_space, is_space, is_word, lemma_first_index, lower, lowercased, parse_decimal, parse_unsigned,
    trim, trimmed,
};

verus! {

/// evdev code of KEY_PLAYPAUSE, the default action.
pub const KEY_PLAYPAUSE: u16 = 164;

/// Default double-click window (ms).
pub const DEFAULT_DOUBLE_MS: u64 = 1000;

/// Default low-battery threshold (%).
pub const BATT_WARN_DEFAULT: u8 = 15;

/// What to do with the headset LEDs.
#[derive(Clone, Copy, PartialEq, Eq, Structural, Debug)]
pub enum LedMode {
    Keep,
    Off,
    Color,
}

/// The daemon's settings.
#[derive(Clone, Copy, PartialEq, Eq, Debug)]
pub struct Config {
    /// Key sent on a single click.
    pub key_code: u16,
    /// Key sent on a double click; `None` disables double-click detection.
    pub double_code: Option<u16>,
    /// Double-click window (ms).
    pub double_ms: u64,
    pub led_mode: LedMode,
    pub led_color: (u8, u8, u8),
    /// Low-battery alert threshold in percent (0 = no alert).
    pub battery_warn: u8,
}

pub open spec fn default_config() -> Config {
    Config {
        key_code: KEY_PLAYPAUSE,
        double_code: None,
        double_ms: DEFAULT_DOUBLE_MS,
        led_mode: LedMode::Keep,
        led_color: (0, 0, 0),
        battery_warn: BATT_WARN_DEFAULT,
    }
}

impl Default for Config {
    fn default() -> (c: Self)
        ensures
            c == default_config(),
    {
        Config {
            key_code: KEY_PLAYPAUSE,
            double_code: None,
            double_ms: DEFAULT_DOUBLE_MS,
            led_mode: LedMode::Keep,
            led_color: (0, 0, 0),
            battery_warn: BATT_WARN_DEFAULT,
        }
    }
}

// ---- key names -----------------------------------------------------------------

/// The evdev key code for a key name (trimmed, any ASCII case), or the name read
/// as a decimal code. Case folding is ASCII: the only other character whose
/// Unicode lower case is ASCII, the Kelvin sign, folds to `k`, which no name holds.
pub open spec fn key_code_of(name: Seq<char>) -> Option<u16> {
    let n = lower(trim(name));
    if n == "playpause"@ || n == "play_pause"@ {
        Some(164)
    } else if n == "next"@ || n == "nextsong"@ {
        Some(163)
    } else if n == "previous"@ || n == "prev"@ || n == "previoussong"@ {
        Some(165)
    } else if n == "stop"@ || n == "stopcd"@ {
        Some(166)
    } else if n == "mute"@ {
        Some(113)
    } else if n == "micmute"@ || n == "mic_mute"@ {
        Some(248)
    } else if n == "volumeup"@ || n == "volume_up"@ {
        Some(115)
    } else if n == "volumedown"@ || n == "volume_down"@ {
        Some(114)
    } else {
        match parse_unsigned(n, 0xffff) {
            Some(v) => Some(v as u16),
            None => None,
        }
    }
}

fn key_code_chars(name: &[char]) -> (r: Option<u16>)
    ensures
        r == key_code_of(name@),
{
    let t = trimmed(name);
    let n = lowercased(&t);
    if is_word(&n, "playpause") || is_word(&n, "play_pause") {
        Some(164)
    } else if is_word(&n, "next") || is_word(&n, "nextsong") {
        Some(163)
    } else if is_word(&n, "previous") || is_word(&n, "prev") || is_word(&n, "previoussong") {
        Some(165)
    } else if is_word(&n, "stop") || is_word(&n, "stopcd") {
        Some(166)
    } else if is_word(&n, "mute") {
        Some(113)
    } else if is_word(&n, "micmute") || is_word(&n, "mic_mute") {
        Some(248)
    } else if is_word(&n, "volumeup") || is_word(&n, "volume_up") {
        Some(115)
    } else if is_word(&n, "volumedown") || is_word(&n, "volume_down") {
        Some(114)
    } else {
        match parse_decimal(&n, 0xffff) {
            Some(v) => Some(v as u16),
            None => None,
        }
    }
}

/// Key name -> evdev keycode. Also accepts a raw numeric code.
pub fn key_name_to_code(name: &str) -> (r: Option<u16>)
    ensures
        r == key_code_of(name@),
{
    let v = chars_of(name);
    key_code_chars(&v)
}

// ---- colors --------------------------------------------------------------------

/// `s` without its leading `#` characters.
pub open spec fn strip_hashes(s: Seq<char>) -> Seq<char>
    decreases s.len(),
{
    if s.len() > 0 && s[0] == '#' {
        strip_hashes(s.drop_first())
    } else {
        s
    }
}

/// Two hexadecimal digits (either case) as a byte.
pub open spec fn hex_pair(a: char, b: char) -> Option<u8> {
    match (hex_digit(a), hex_digit(b)) {
        (Some(x), Some(y)) => Some((16 * x + y) as u8),
        _ => None,
    }
}

/// The color that `RRGGBB` text (after trimming and dropping leading `#`)
/// denotes: exactly six hexadecimal digits, anything else gives none.
pub open spec fn color_chars(t: Seq<char>) -> Option<(u8, u8, u8)> {
    if t.len() != 6 {
        None
    } else {
        match (hex_pair(t[0], t[1]), hex_pair(t[2], t[3]), hex_pair(t[4], t[5])) {
            (Some(r), Some(g), Some(b)) => Some((r, g, b)),
            _ => None,
        }
    }
}

pub open spec fn color_of(s: Seq<char>) -> Option<(u8, u8, u8)> {
    color_chars(strip_hashes(trim(s)))
}

fn hex_pair_of(a: char, b: char) -> (r: Option<u8>)
    ensures
        r == hex_pair(a, b),
{
    match (hex_digit_value(a), hex_digit_value(b)) {
        (Some(x), Some(y)) => Some(16 * x + y),
        _ => None,
    }
}

fn color_of_chars(s: &[char]) -> (r: Option<(u8, u8, u8)>)
    ensures
        r == color_of(s@),
{
    let t = trimmed(s);
    let u = strip_hash_chars(&t);
    if u.len() != 6 {
        return None;
    }
    match (hex_pair_of(u[0], u[1]), hex_pair_of(u[2], u[3]), hex_pair_of(u[4], u[5])) {
        (Some(r), Some(g), Some(b)) => Some((r, g, b)),
        _ => None,
    }
}

/// Parses `RRGGBB` (optionally prefixed by `#`) into a color; any other text,
/// non-ASCII text included, gives `None`.
pub fn parse_color(s: &str) -> (r: Option<(u8, u8, u8)>)
    ensures
        r == color_of(s@),
{
    let v = chars_of(s);
    color_of_chars(&v)
}

/// The characters of `v` without its leading `#`.
pub fn strip_hash_chars(v: &[char]) -> (r: Vec<char>)
    ensures
        r@ == strip_hashes(v@),
{
    let mut k: usize = 0;
    assert(v@.skip(0) =~= v@);
    while k < v.len() && v[k] == '#'
        invariant
            k <= v@.len(),
            strip_hashes(v@) == strip_hashes(v@.skip(k as int)),
        decreases v@.len() - k,
    {
        assert(v@.skip(k as int).drop_first() =~= v@.skip(k + 1));
        k = k + 1;
    }
    let r = copy_range(v, k, v.len());
    assert(r@ =~= v@.skip(k as int));
    r
}

/// The color to apply for the LED mode, or `None` to leave the LEDs alone.
pub open spec fn led_color_for(cfg: Config) -> Option<(u8, u8, u8)> {
    match cfg.led_mode {
        LedMode::Keep => None,
        LedMode::Off => Some((0, 0, 0)),
        LedMode::Color => Some(cfg.led_color),
    }
}

pub fn led_target(cfg: &Config) -> (r: Option<(u8, u8, u8)>)
    ensures
        r == led_color_for(*cfg),
{
    match cfg.led_mode {
        LedMode::Keep => None,
        LedMode::Off => Some((0, 0, 0)),
        LedMode::Color => Some(cfg.led_color),
    }
}

// ---- the configuration file ------------------------------------------------------

/// The pieces of `s` between `\n` characters. (`str::lines` also drops one
/// trailing `\r` per line and a final empty piece; every line is trimmed and
/// empty lines are skipped, so neither changes the result.)
pub open spec fn split_lines(s: Seq<char>) -> Seq<Seq<char>>
    decreases s.len(),
{
    if s.len() == 0 {
        seq![Seq::empty()]
    } else {
        let p = split_lines(s.drop_last());
        if s.last() == '\n' {
            p.push(Seq::empty())
        } else {
            p.update(p.len() - 1, p.last().push(s.last()))
        }
    }
}

pub proof fn lemma_split_lines_len(s: Seq<char>)
    ensures
        split_lines(s).len() >= 1,
    decreases s.len(),
{
    if s.len() > 0 {
        lemma_split_lines_len(s.drop_last());
    }
}

/// Lines completed in a prefix are lines of the whole text.
pub proof fn lemma_split_lines_prefix(s: Seq<char>, i: int)
    requires
        0 <= i <= s.len(),
    ensures
        split_lines(s.take(i)).len() <= split_lines(s).len(),
        forall|k: int|
            0 <= k < split_lines(s.take(i)).len() - 1 ==> #[trigger] split_lines(s)[k]
                == split_lines(s.take(i))[k],
    decreases s.len(),
{
    lemma_split_lines_len(s);
    if i == s.len() {
        assert(s.take(i) =~= s);
    } else {
        lemma_split_lines_prefix(s.drop_last(), i);
        assert(s.drop_last().take(i) =~= s.take(i));
        lemma_split_lines_len(s.drop_last());
    }
}

/// Applies one `key = value` setting; unknown keys and unreadable values leave
/// the setting as it was.
pub open spec fn apply_setting(cfg: Config, k: Seq<char>, v: Seq<char>) -> Config {
    if k == "key"@ {
        match key_code_of(v) {
            Some(c) => Config { key_code: c, ..cfg },
            None => cfg,
        }
    } else if k == "key_double"@ {
        let l = lower(v);
        Config {
            double_code: if l == ""@ || l == "none"@ || l == "aucune"@ {
                None
            } else {
                key_code_of(l)
            },
            ..cfg
        }
    } else if k == "double_ms"@ {
        match parse_unsigned(v, 0xffff_ffff_ffff_ffff) {
            Some(ms) => Config {
                double_ms: if ms < 100 {
                    100
                } else if ms > 3000 {
                    3000
                } else {
                    ms as u64
                },
                ..cfg
            },
            None => cfg,
        }
    } else if k == "leds"@ {
        let l = lower(v);
        Config {
            led_mode: if l == "off"@ {
                LedMode::Off
            } else if l == "color"@ {
                LedMode::Color
            } else {
                LedMode::Keep
            },
            ..cfg
        }
    } else if k == "led_color"@ {
        match color_of(v) {
            Some(c) => Config { led_color: c, ..cfg },
            None => cfg,
        }
    } else if k == "battery_warn"@ || k == "batterie"@ {
        let l = lower(v);
        Config {
            battery_warn: if l == "off"@ || l == "none"@ || l == "aucune"@ || l == "non"@ {
                0
            } else {
                let p = match parse_unsigned(l, 0xff) {
                    Some(p) => p as u8,
                    None => cfg.battery_warn,
                };
                if p > 100 {
                    100
                } else {
                    p
                }
            },
            ..cfg
        }
    } else {
        cfg
    }
}

/// Where a trailing comment starts in `v`, looking from index `i` on: the first
/// `#` that follows a whitespace character.
pub open spec fn comment_from(v: Seq<char>, i: int) -> Option<int>
    decreases v.len() - i,
{
    if i < 1 || i >= v.len() {
        None
    } else if v[i] == '#' && is_space(v[i - 1]) {
        Some(i)
    } else {
        comment_from(v, i + 1)
    }
}

/// A value as written after `=`: trimmed, then cut before a trailing comment
/// (`#` after whitespace) and trimmed again. A `#` that starts the value, as in
/// `#00FF80`, is part of it.
pub open spec fn value_text(raw: Seq<char>) -> Seq<char> {
    let t = trim(raw);
    match comment_from(t, 1) {
        Some(i) => trim(t.take(i)),
        None => t,
    }
}

/// A line: trimmed; blank lines and `#` comments are skipped; otherwise the
/// text before the first `=` (trimmed) is the key and the rest, without its
/// trailing comment, the value.
pub open spec fn apply_line(cfg: Config, line: Seq<char>) -> Config {
    let l = trim(line);
    if l.len() == 0 || l[0] == '#' {
        cfg
    } else {
        match first_index(l, '=') {
            None => cfg,
            Some(e) => apply_setting(cfg, trim(l.take(e)), value_text(l.skip(e + 1))),
        }
    }
}

pub open spec fn apply_lines(cfg: Config, ls: Seq<Seq<char>>) -> Config
    decreases ls.len(),
{
    if ls.len() == 0 {
        cfg
    } else {
        apply_line(apply_lines(cfg, ls.drop_last()), ls.last())
    }
}

/// The configuration a file's text gives: the defaults, then each line in order.
pub open spec fn config_of_text(s: Seq<char>) -> Config {
    apply_lines(default_config(), split_lines(s))
}

/// The settings stay in the ranges the daemon relies on.
pub open spec fn config_in_range(cfg: Config) -> bool {
    &&& 100 <= cfg.double_ms <= 3000
    &&& cfg.battery_warn <= 100
}

fn apply_setting_exec(cfg: Config, k: &[char], v: &[char]) -> (r: Config)
    ensures
        r == apply_setting(cfg, k@, v@),
{
    let mut c = cfg;
    if is_word(k, "key") {
        if let Some(code) = key_code_chars(v) {
            c.key_code = code;
        }
    } else if is_word(k, "key_double") {
        let l = lowercased(v);
        c.double_code = if is_word(&l, "") || is_word(&l, "none") || is_word(&l, "aucune") {
            None
        } else {
            key_code_chars(&l)
        };
    } else if is_word(k, "double_ms") {
        if let Some(ms) = parse_decimal(v, 0xffff_ffff_ffff_ffff) {
            c.double_ms = if ms < 100 {
                100
            } else if ms > 3000 {
                3000
            } else {
                ms
            };
        }
    } else if is_word(k, "leds") {
        let l = lowercased(v);
        c.led_mode = if is_word(&l, "off") {
            LedMode::Off
        } else if is_word(&l, "color") {
            LedMode::Color
        } else {
            LedMode::Keep
        };
    } else if is_word(k, "led_color") {
        if let Some(col) = color_of_chars(v) {
            c.led_color = col;
        }
    } else if is_word(k, "battery_warn") || is_word(k, "batterie") {
        let l = lowercased(v);
        c.battery_warn = if is_word(&l, "off") || is_word(&l, "none") || is_word(&l, "aucune")
            || is_word(&l, "non") {
            0
        } else {
            let p = match parse_decimal(&l, 0xff) {
                Some(p) => p as u8,
                None => cfg.battery_warn,
            };
            if p > 100 {
                100
            } else {
                p
            }
        };
    }
    c
}

/// The start of a trailing comment, as [`comment_from`] from index 1.
fn comment_start(v: &[char]) -> (r: Option<usize>)
    ensures
        match r {
            Some(i) => comment_from(v@, 1) == Some(i as int) && i < v@.len(),
            None => comment_from(v@, 1) is None,
        },
{
    let mut i: usize = 1;
    while i < v.len()
        invariant
            1 <= i,
            comment_from(v@, 1) == comment_from(v@, i as int),
        decreases v@.len() - i,
    {
        if v[i] == '#' && char_is_space(v[i - 1]) {
            return Some(i);
        }
        i = i + 1;
    }
    None
}

/// The value text after `=` (see [`value_text`]).
fn value_chars(raw: &[char]) -> (r: Vec<char>)
    ensures
        r@ == value_text(raw@),
{
    let t = trimmed(raw);
    match comment_start(&t) {
        Some(i) => {
            let c = copy_range(&t, 0, i);
            assert(c@ =~= t@.take(i as int));
            trimmed(&c)
        },
        None => t,
    }
}

fn apply_line_exec(cfg: Config, line: &[char]) -> (r: Config)
    ensures
        r == apply_line(cfg, line@),
{
    let l = trimmed(line);
    if l.len() == 0 || l[0] == '#' {
        return cfg;
    }
    match find_char(&l, '=') {
        None => cfg,
        Some(e) => {
            proof {
                lemma_first_index(l@, '=');
            }
            let kr = copy_range(&l, 0, e);
            let vr = copy_range(&l, e + 1, l.len());
            assert(kr@ =~= l@.take(e as int));
            assert(vr@ =~= l@.skip(e + 1));
            let k = trimmed(&kr);
            let v = value_chars(&vr);
            apply_setting_exec(cfg, &k, &v)
        },
    }
}

proof fn lemma_apply_setting_in_range(cfg: Config, k: Seq<char>, v: Seq<char>)
    requires
        config_in_range(cfg),
    ensures
        config_in_range(apply_setting(cfg, k, v)),
{
}

/// Whatever the file holds, the window stays within 100..=3000 ms and the
/// threshold within 0..=100 %.
pub proof fn lemma_config_in_range(ls: Seq<Seq<char>>)
    ensures
        config_in_range(apply_lines(default_config(), ls)),
    decreases ls.len(),
{
    if ls.len() > 0 {
        lemma_config_in_range(ls.drop_last());
        let prev = apply_lines(default_config(), ls.drop_last());
        let l = trim(ls.last());
        if !(l.len() == 0 || l[0] == '#') {
            if let Some(e) = first_index(l, '=') {
                lemma_apply_setting_in_range(prev, trim(l.take(e)), value_text(l.skip(e + 1)));
            }
        }
    }
}

/// Reads the configuration from the text of the config file.
pub fn config_from_text(txt: &str) -> (cfg: Config)
    ensures
        cfg == config_of_text(txt@),
        config_in_range(cfg),
{
    let s = chars_of(txt);
    let mut cfg = Config::default();
    let mut cur: Vec<char> = Vec::new();
    let mut i: usize = 0;
    proof {
        assert(s@.take(0) =~= Seq::<char>::empty());
    }
    while i < s.len()
        invariant
            i <= s@.len(),
            s@ == txt@,
            split_lines(s@.take(i as int)).len() >= 1,
            cur@ == split_lines(s@.take(i as int)).last(),
            cfg == apply_lines(default_config(), split_lines(s@.take(i as int)).drop_last()),
        decreases s@.len() - i,
    {
        let c = s[i];
        let ghost before = split_lines(s@.take(i as int));
        assert(s@.take(i + 1).drop_last() =~= s@.take(i as int));
        assert(s@.take(i + 1).last() == c);
        if c == '\n' {
            let ghost after = split_lines(s@.take(i + 1));
            assert(after == before.push(Seq::empty()));
            proof {
                lemma_split_lines_prefix(s@, i + 1);
                assert(after[after.len() - 2] == before.last());
                assert(split_lines(s@)[after.len() - 2] == cur@);
            }
            cfg = apply_line_exec(cfg, &cur);
            assert(after.drop_last().drop_last() =~= before.drop_last());
            assert(after.drop_last() =~= before.drop_last().push(before.last()));
            cur = Vec::new();
        } else {
            let ghost after = split_lines(s@.take(i + 1));
            cur.push(c);
            assert(after.drop_last() =~= before.drop_last());
        }
        i = i + 1;
    }
    assert(s@.take(s@.len() as int) =~= s@);
    proof {
        lemma_split_lines_len(s@);
        assert(split_lines(s@)[split_lines(s@).len() - 1] == cur@);
    }
    cfg = apply_line_exec(cfg, &cur);
    proof {
        let ls = split_lines(s@);
        assert(ls.drop_last().push(ls.last()) =~= ls);
        lemma_config_in_range(ls);
    }
    cfg
}

/// The keys the virtual keyboard must declare: the single-click key, then the
/// double-click key when it is set and different.
pub fn uinput_keys(cfg: &Config) -> (keys: Vec<u16>)
    ensures
        keys@ == match cfg.double_code {
            Some(dc) if dc != cfg.key_code => seq![cfg.key_code, dc],
            _ => seq![cfg.key_code],
        },
{
    let mut keys: Vec<u16> = Vec::new();
    keys.push(cfg.key_code);
    if let Some(dc) = cfg.double_code {
        if dc != cfg.key_code {
            keys.push(dc);
        }
    }
    assert(keys@ =~= match cfg.double_code {
        Some(dc) if dc != cfg.key_code => seq![cfg.key_code, dc],
        _ => seq![cfg.key_code],
    });
    keys
}

} // verus!
