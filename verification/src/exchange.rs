//! What one program writes and the other reads: the configuration file written
//! by the panel and read by the daemon (and by the panel again), the status and
//! caps files written by the daemon and read by the panel, and the LED color.
use vstd::prelude::*;
use crate::cli::{status_text_of, DaemonStatus};
use crate::config::{
    apply_line, apply_lines, apply_setting, color_of, comment_from, config_of_text,
    default_config, hex_pair, key_code_of, split_lines, strip_hashes, value_text, Config, LedMode,
    KEY_PLAYPAUSE,
};
use crate::panel::{
    double_selection_of, double_value_of, key_value_of, lemma_position_found, led_value_of,
    led_values, position_in, position_of,
    panel_warn, DEFAULT_BATTERY_WARN,
    caps_line, caps_of_lines, color_hex_of, headset_line_of, key_values, panel_defaults,
    panel_line, panel_lines, panel_of_text, panel_setting, panel_text_of, setting_line,
    HeadsetLine, PanelSettings,
};
use crate::text::{
    all_digits, decimal, first_index, hex_char, hex_digit, is_digit, is_space, lemma_decimal_digits,
    lemma_decimal_parse, lemma_first_index, lemma_first_index_extend, lemma_hex_char,
    lemma_trim_end_idempotent, lemma_trim_end_prefix, lemma_trim_fixed,
    lemma_trim_start_idempotent, lower, lower_char, parse_unsigned, trim, trim_end, trim_start,
};

verus! {

// ---- line splitting -----------------------------------------------------------

pub open spec fn has_no_newline(s: Seq<char>) -> bool {
    forall|i: int| 0 <= i < s.len() ==> s[i] != '\n'
}

/// Text without a line break extends the last line.
proof fn lemma_split_lines_extend(p: Seq<char>, a: Seq<char>)
    requires
        has_no_newline(a),
    ensures
        split_lines(p + a) == split_lines(p).update(
            split_lines(p).len() - 1,
            split_lines(p).last() + a,
        ),
    decreases a.len(),
{
    crate::config::lemma_split_lines_len(p);
    if a.len() == 0 {
        assert(p + a =~= p);
        assert(split_lines(p).last() + a =~= split_lines(p).last());
        assert(split_lines(p).update(split_lines(p).len() - 1, split_lines(p).last() + a)
            =~= split_lines(p));
    } else {
        lemma_split_lines_extend(p, a.drop_last());
        assert((p + a).drop_last() =~= p + a.drop_last());
        assert((p + a).last() == a.last());
        assert(a.last() == a[a.len() - 1]);
        let q = split_lines(p);
        let r = split_lines(p + a.drop_last());
        assert(r.len() == q.len());
        assert(r.last() == q.last() + a.drop_last());
        assert(r.last().push(a.last()) =~= q.last() + a);
        assert(split_lines(p + a) =~= q.update(q.len() - 1, q.last() + a));
    }
}

/// Appending a line and its line break to text that ends a line.
proof fn lemma_split_lines_append(p: Seq<char>, ls: Seq<Seq<char>>, l: Seq<char>)
    requires
        split_lines(p) == ls.push(Seq::empty()),
        has_no_newline(l),
    ensures
        split_lines(p + l + "\n"@) == ls.push(l).push(Seq::empty()),
{
    reveal_strlit("\n");
    lemma_split_lines_extend(p, l);
    assert(Seq::<char>::empty() + l =~= l);
    assert(split_lines(p + l) =~= ls.push(l));
    assert((p + l + "\n"@).drop_last() =~= p + l);
    assert((p + l + "\n"@).last() == '\n');
}

// ---- one setting line -----------------------------------------------------------

proof fn lemma_trimmed_ends(v: Seq<char>)
    requires
        trim(v) == v,
    ensures
        v.len() > 0 ==> !is_space(v[0]) && !is_space(v.last()),
{
    lemma_trim_start_idempotent(v);
    lemma_trim_end_idempotent(trim_start(v));
    lemma_trim_end_prefix(trim_start(v));
}

/// A name as the file uses them: no blanks at the ends, not a comment, no `=`
/// and no line break.
pub open spec fn plain_name(name: Seq<char>) -> bool {
    &&& name.len() > 0
    &&& trim(name) == name
    &&& name[0] != '#'
    &&& forall|i: int| 0 <= i < name.len() ==> name[i] != '=' && name[i] != '\n'
}

/// A value as the panel writes them: no blanks at the ends and no line break.
pub open spec fn plain_value(v: Seq<char>) -> bool {
    trim(v) == v && has_no_newline(v)
}

/// A value with no trailing comment in it (no `#` after whitespace).
pub open spec fn no_comment(v: Seq<char>) -> bool {
    comment_from(v, 1) is None
}

/// Text without any `#` holds no comment.
proof fn lemma_no_hash_no_comment(v: Seq<char>, i: int)
    requires
        forall|k: int| 0 <= k < v.len() ==> v[k] != '#',
    ensures
        comment_from(v, i) is None,
    decreases v.len() - i,
{
    if i >= 1 && i < v.len() {
        lemma_no_hash_no_comment(v, i + 1);
    }
}

proof fn lemma_setting_line_parts(name: Seq<char>, v: Seq<char>)
    requires
        plain_name(name),
        plain_value(v),
    ensures
        ({
            let line = name + "="@ + v;
            &&& trim(line) == line
            &&& line.len() > 0
            &&& line[0] == name[0]
            &&& first_index(line, '=') == Some(name.len() as int)
            &&& trim(line.take(name.len() as int)) == name
            &&& trim(line.skip(name.len() as int + 1)) == v
            &&& has_no_newline(line)
        }),
{
    reveal_strlit("=");
    let a = name + "="@;
    let line = a + v;
    lemma_trimmed_ends(name);
    lemma_trimmed_ends(v);
    assert(line[0] == name[0]);
    if v.len() > 0 {
        assert(line.last() == v.last());
    } else {
        assert(line.last() == '=');
    }
    lemma_trim_fixed(line);
    assert(first_index(name, '=') is None) by {
        lemma_first_index(name, '=');
        if let Some(k) = first_index(name, '=') {
            assert(name[k] == '=');
        }
    }
    assert(a.drop_last() =~= name);
    assert(a.last() == '=');
    assert(first_index(a, '=') == Some(name.len() as int));
    lemma_first_index_extend(a, v, '=');
    assert(line.take(name.len() as int) =~= name);
    assert(line.skip(name.len() as int + 1) =~= v);
    assert forall|i: int| 0 <= i < line.len() implies line[i] != '\n' by {
        if i < name.len() {
            assert(line[i] == name[i]);
        } else if i > name.len() {
            assert(line[i] == v[i - name.len() - 1]);
        }
    }
}

/// The daemon reads a `name=value` line as that setting.
pub proof fn lemma_setting_line(cfg: Config, name: Seq<char>, v: Seq<char>)
    requires
        plain_name(name),
        plain_value(v),
        no_comment(v),
    ensures
        apply_line(cfg, name + "="@ + v) == apply_setting(cfg, name, v),
{
    lemma_setting_line_parts(name, v);
    assert(value_text(v) == v);
}

/// The panel reads a `name=value` line as that setting.
pub proof fn lemma_panel_setting_line(p: PanelSettings, name: Seq<char>, v: Seq<char>)
    requires
        plain_name(name),
        plain_value(v),
    ensures
        panel_line(p, name + "="@ + v) == panel_setting(p, name, v),
{
    lemma_setting_line_parts(name, v);
}

// ---- the file the panel writes ---------------------------------------------------

proof fn lemma_names_plain()
    ensures
        plain_name("key"@),
        plain_name("key_double"@),
        plain_name("double_ms"@),
        plain_name("leds"@),
        plain_name("led_color"@),
        plain_name("battery_warn"@),
        "key"@ != "key_double"@,
        "key"@ != "double_ms"@,
        "key"@ != "leds"@,
        "key"@ != "led_color"@,
        "key"@ != "battery_warn"@,
        "key_double"@ != "double_ms"@,
        "key_double"@ != "leds"@,
        "key_double"@ != "led_color"@,
        "key_double"@ != "battery_warn"@,
        "double_ms"@ != "leds"@,
        "double_ms"@ != "led_color"@,
        "double_ms"@ != "battery_warn"@,
        "leds"@ != "led_color"@,
        "leds"@ != "battery_warn"@,
        "led_color"@ != "battery_warn"@,
        "batterie"@ != "key"@,
        "batterie"@ != "key_double"@,
        "batterie"@ != "double_ms"@,
        "batterie"@ != "leds"@,
        "batterie"@ != "led_color"@,
{
    reveal_strlit("key");
    reveal_strlit("key_double");
    reveal_strlit("double_ms");
    reveal_strlit("leds");
    reveal_strlit("led_color");
    reveal_strlit("battery_warn");
    reveal_strlit("batterie");
    assert("key"@.len() == 3);
    assert("key_double"@.len() == 10);
    assert("double_ms"@.len() == 9);
    assert("leds"@.len() == 4);
    assert("led_color"@.len() == 9);
    assert("battery_warn"@.len() == 12);
    assert("batterie"@.len() == 8);
    assert("double_ms"@[0] != "led_color"@[0]);
    assert("battery_warn"@[7] != "batterie"@[7]) by {
        assert("battery_warn"@.len() != "batterie"@.len());
    }
    lemma_trim_fixed("key"@);
    lemma_trim_fixed("key_double"@);
    lemma_trim_fixed("double_ms"@);
    lemma_trim_fixed("leds"@);
    lemma_trim_fixed("led_color"@);
    lemma_trim_fixed("battery_warn"@);
}

proof fn lemma_decimal_plain(n: nat)
    ensures
        plain_value(decimal(n)),
        lower(decimal(n)) == decimal(n),
        decimal(n) != "off"@,
        decimal(n) != "none"@,
        decimal(n) != "aucune"@,
        decimal(n) != "non"@,
        no_comment(decimal(n)),
{
    lemma_decimal_digits(n);
    let s = decimal(n);
    assert forall|k: int| 0 <= k < s.len() implies s[k] != '#' by {
        assert(is_digit(s[k]));
    }
    lemma_no_hash_no_comment(s, 1);
    lemma_trim_fixed(s);
    assert forall|i: int| 0 <= i < s.len() implies s[i] != '\n' by {
        assert(is_digit(s[i]));
    }
    assert(lower(s) =~= s) by {
        assert forall|i: int| 0 <= i < s.len() implies lower(s)[i] == s[i] by {
            assert(is_digit(s[i]));
        }
    }
    reveal_strlit("off");
    reveal_strlit("none");
    reveal_strlit("aucune");
    reveal_strlit("non");
    assert(is_digit(s[0]));
}

proof fn lemma_line_no_newline(name: Seq<char>, v: Seq<char>)
    requires
        plain_name(name),
        plain_value(v),
    ensures
        has_no_newline(name + "="@ + v),
{
    lemma_setting_line_parts(name, v);
}

/// The lines of the file the panel writes.
proof fn lemma_panel_text_lines(
    key: Seq<char>,
    key_double: Seq<char>,
    double_ms: u64,
    leds: Seq<char>,
    color: Seq<char>,
    battery_warn: u8,
)
    requires
        plain_value(key),
        plain_value(key_double),
        plain_value(leds),
        plain_value(color),
    ensures
        split_lines(panel_text_of(key, key_double, double_ms, leds, color, battery_warn)) == seq![
            "key"@ + "="@ + key,
            "key_double"@ + "="@ + key_double,
            "double_ms"@ + "="@ + decimal(double_ms as nat),
            "leds"@ + "="@ + leds,
            "led_color"@ + "="@ + color,
            "battery_warn"@ + "="@ + decimal(battery_warn as nat),
            Seq::<char>::empty(),
        ],
{
    lemma_names_plain();
    lemma_decimal_plain(double_ms as nat);
    lemma_decimal_plain(battery_warn as nat);
    let l1 = "key"@ + "="@ + key;
    let l2 = "key_double"@ + "="@ + key_double;
    let l3 = "double_ms"@ + "="@ + decimal(double_ms as nat);
    let l4 = "leds"@ + "="@ + leds;
    let l5 = "led_color"@ + "="@ + color;
    let l6 = "battery_warn"@ + "="@ + decimal(battery_warn as nat);
    lemma_line_no_newline("key"@, key);
    lemma_line_no_newline("key_double"@, key_double);
    lemma_line_no_newline("double_ms"@, decimal(double_ms as nat));
    lemma_line_no_newline("leds"@, leds);
    lemma_line_no_newline("led_color"@, color);
    lemma_line_no_newline("battery_warn"@, decimal(battery_warn as nat));
    let e = Seq::<char>::empty();
    let s0 = Seq::<Seq<char>>::empty();
    assert(split_lines(e) == s0.push(e));
    let p1 = e + l1 + "\n"@;
    lemma_split_lines_append(e, s0, l1);
    let s1 = s0.push(l1);
    let p2 = p1 + l2 + "\n"@;
    lemma_split_lines_append(p1, s1, l2);
    let s2 = s1.push(l2);
    let p3 = p2 + l3 + "\n"@;
    lemma_split_lines_append(p2, s2, l3);
    let s3 = s2.push(l3);
    let p4 = p3 + l4 + "\n"@;
    lemma_split_lines_append(p3, s3, l4);
    let s4 = s3.push(l4);
    let p5 = p4 + l5 + "\n"@;
    lemma_split_lines_append(p4, s4, l5);
    let s5 = s4.push(l5);
    let p6 = p5 + l6 + "\n"@;
    lemma_split_lines_append(p5, s5, l6);
    let s6 = s5.push(l6);
    assert(p6 =~= panel_text_of(key, key_double, double_ms, leds, color, battery_warn));
    assert(s6.push(e) =~= seq![l1, l2, l3, l4, l5, l6, e]);
}

/// The double-click key the daemon derives from a `key_double` value.
pub open spec fn double_code_of(v: Seq<char>) -> Option<u16> {
    let l = lower(v);
    if l == ""@ || l == "none"@ || l == "aucune"@ {
        None
    } else {
        key_code_of(l)
    }
}

/// The LED mode the daemon derives from a `leds` value.
pub open spec fn led_mode_of(v: Seq<char>) -> LedMode {
    let l = lower(v);
    if l == "off"@ {
        LedMode::Off
    } else if l == "color"@ {
        LedMode::Color
    } else {
        LedMode::Keep
    }
}

/// Folding the lines of the panel's file: its settings, then an empty last line.
proof fn lemma_apply_file_lines(d: Config, ls: Seq<Seq<char>>)
    requires
        ls.len() == 7,
        ls[6].len() == 0,
    ensures
        apply_lines(d, ls) == apply_line(
            apply_line(
                apply_line(apply_line(apply_line(apply_line(d, ls[0]), ls[1]), ls[2]), ls[3]),
                ls[4],
            ),
            ls[5],
        ),
{
    let e = Seq::<Seq<char>>::empty();
    assert(apply_lines(d, e) == d);
    let a1 = apply_line(d, ls[0]);
    let a2 = apply_line(a1, ls[1]);
    let a3 = apply_line(a2, ls[2]);
    let a4 = apply_line(a3, ls[3]);
    let a5 = apply_line(a4, ls[4]);
    let a6 = apply_line(a5, ls[5]);
    assert(apply_lines(d, ls.take(1)) == a1) by {
        assert(ls.take(1).drop_last() =~= e);
        assert(ls.take(1).last() == ls[0]);
    }
    assert(apply_lines(d, ls.take(2)) == a2) by {
        assert(ls.take(2).drop_last() =~= ls.take(1));
        assert(ls.take(2).last() == ls[1]);
    }
    assert(apply_lines(d, ls.take(3)) == a3) by {
        assert(ls.take(3).drop_last() =~= ls.take(2));
        assert(ls.take(3).last() == ls[2]);
    }
    assert(apply_lines(d, ls.take(4)) == a4) by {
        assert(ls.take(4).drop_last() =~= ls.take(3));
        assert(ls.take(4).last() == ls[3]);
    }
    assert(apply_lines(d, ls.take(5)) == a5) by {
        assert(ls.take(5).drop_last() =~= ls.take(4));
        assert(ls.take(5).last() == ls[4]);
    }
    assert(apply_lines(d, ls.take(6)) == a6) by {
        assert(ls.take(6).drop_last() =~= ls.take(5));
        assert(ls.take(6).last() == ls[5]);
    }
    assert(trim(ls[6]).len() == 0);
    assert(ls.drop_last() =~= ls.take(6));
    assert(ls.last() == ls[6]);
    assert(apply_line(a6, ls[6]) == a6);
}

proof fn lemma_panel_file_lines(d: PanelSettings, ls: Seq<Seq<char>>)
    requires
        ls.len() == 7,
        ls[6].len() == 0,
    ensures
        panel_lines(d, ls) == panel_line(
            panel_line(
                panel_line(panel_line(panel_line(panel_line(d, ls[0]), ls[1]), ls[2]), ls[3]),
                ls[4],
            ),
            ls[5],
        ),
{
    let e = Seq::<Seq<char>>::empty();
    assert(panel_lines(d, e) == d);
    let a1 = panel_line(d, ls[0]);
    let a2 = panel_line(a1, ls[1]);
    let a3 = panel_line(a2, ls[2]);
    let a4 = panel_line(a3, ls[3]);
    let a5 = panel_line(a4, ls[4]);
    let a6 = panel_line(a5, ls[5]);
    assert(panel_lines(d, ls.take(1)) == a1) by {
        assert(ls.take(1).drop_last() =~= e);
        assert(ls.take(1).last() == ls[0]);
    }
    assert(panel_lines(d, ls.take(2)) == a2) by {
        assert(ls.take(2).drop_last() =~= ls.take(1));
        assert(ls.take(2).last() == ls[1]);
    }
    assert(panel_lines(d, ls.take(3)) == a3) by {
        assert(ls.take(3).drop_last() =~= ls.take(2));
        assert(ls.take(3).last() == ls[2]);
    }
    assert(panel_lines(d, ls.take(4)) == a4) by {
        assert(ls.take(4).drop_last() =~= ls.take(3));
        assert(ls.take(4).last() == ls[3]);
    }
    assert(panel_lines(d, ls.take(5)) == a5) by {
        assert(ls.take(5).drop_last() =~= ls.take(4));
        assert(ls.take(5).last() == ls[4]);
    }
    assert(panel_lines(d, ls.take(6)) == a6) by {
        assert(ls.take(6).drop_last() =~= ls.take(5));
        assert(ls.take(6).last() == ls[5]);
    }
    assert(trim(ls[6]).len() == 0);
    assert(ls.drop_last() =~= ls.take(6));
    assert(ls.last() == ls[6]);
    assert(panel_line(a6, ls[6]) == a6);
}

/// The daemon reads back what the panel saved: from the panel's file it gets the
/// key codes of the key names, the window clamped to 100..=3000 ms, the LED mode,
/// the color (the default when it does not read), and the threshold capped at 100.
#[verifier::rlimit(60)]
pub proof fn lemma_daemon_reads_panel_file(
    key: Seq<char>,
    key_double: Seq<char>,
    double_ms: u64,
    leds: Seq<char>,
    color: Seq<char>,
    battery_warn: u8,
)
    requires
        plain_value(key),
        plain_value(key_double),
        plain_value(leds),
        plain_value(color),
        no_comment(key),
        no_comment(key_double),
        no_comment(leds),
        no_comment(color),
    ensures
        config_of_text(panel_text_of(key, key_double, double_ms, leds, color, battery_warn))
            == (Config {
            key_code: match key_code_of(key) {
                Some(c) => c,
                None => KEY_PLAYPAUSE,
            },
            double_code: double_code_of(key_double),
            double_ms: if double_ms < 100 {
                100
            } else if double_ms > 3000 {
                3000
            } else {
                double_ms
            },
            led_mode: led_mode_of(leds),
            led_color: match color_of(color) {
                Some(c) => c,
                None => (0, 0, 0),
            },
            battery_warn: if battery_warn > 100 {
                100
            } else {
                battery_warn
            },
        }),
{
    let t = panel_text_of(key, key_double, double_ms, leds, color, battery_warn);
    lemma_panel_text_lines(key, key_double, double_ms, leds, color, battery_warn);
    lemma_names_plain();
    lemma_decimal_plain(double_ms as nat);
    lemma_decimal_plain(battery_warn as nat);
    lemma_decimal_parse(double_ms as nat, 0xffff_ffff_ffff_ffff);
    lemma_decimal_parse(battery_warn as nat, 0xff);
    let dm = decimal(double_ms as nat);
    let dw = decimal(battery_warn as nat);
    let ls = split_lines(t);
    let d = default_config();
    assert(ls[0] == "key"@ + "="@ + key);
    assert(ls[1] == "key_double"@ + "="@ + key_double);
    assert(ls[2] == "double_ms"@ + "="@ + dm);
    assert(ls[3] == "leds"@ + "="@ + leds);
    assert(ls[4] == "led_color"@ + "="@ + color);
    assert(ls[5] == "battery_warn"@ + "="@ + dw);
    assert(ls[6] == Seq::<char>::empty());
    lemma_apply_file_lines(d, ls);
    let c1 = apply_setting(d, "key"@, key);
    let c2 = apply_setting(c1, "key_double"@, key_double);
    let c3 = apply_setting(c2, "double_ms"@, dm);
    let c4 = apply_setting(c3, "leds"@, leds);
    let c5 = apply_setting(c4, "led_color"@, color);
    let c6 = apply_setting(c5, "battery_warn"@, dw);
    lemma_setting_line(d, "key"@, key);
    lemma_setting_line(c1, "key_double"@, key_double);
    lemma_setting_line(c2, "double_ms"@, dm);
    lemma_setting_line(c3, "leds"@, leds);
    lemma_setting_line(c4, "led_color"@, color);
    lemma_setting_line(c5, "battery_warn"@, dw);
}

/// The panel reads back what it saved: the texts as written (the color without
/// leading `#`), the window as its decimal text, the threshold capped at 100.
#[verifier::rlimit(60)]
pub proof fn lemma_panel_reads_own_file(
    key: Seq<char>,
    key_double: Seq<char>,
    double_ms: u64,
    leds: Seq<char>,
    color: Seq<char>,
    battery_warn: u8,
)
    requires
        plain_value(key),
        plain_value(key_double),
        plain_value(leds),
        plain_value(color),
    ensures
        panel_of_text(panel_text_of(key, key_double, double_ms, leds, color, battery_warn))
            == (PanelSettings {
            key: key,
            key_double: key_double,
            double_ms: seq![decimal(double_ms as nat)],
            leds: leds,
            color: strip_hashes(color),
            battery_warn: if battery_warn > 100 {
                100
            } else {
                battery_warn
            },
        }),
{
    let t = panel_text_of(key, key_double, double_ms, leds, color, battery_warn);
    lemma_panel_text_lines(key, key_double, double_ms, leds, color, battery_warn);
    lemma_names_plain();
    lemma_decimal_plain(double_ms as nat);
    lemma_decimal_plain(battery_warn as nat);
    lemma_decimal_parse(battery_warn as nat, 0xff);
    let dm = decimal(double_ms as nat);
    let dw = decimal(battery_warn as nat);
    let ls = split_lines(t);
    let d = panel_defaults();
    assert(ls[0] == "key"@ + "="@ + key);
    assert(ls[1] == "key_double"@ + "="@ + key_double);
    assert(ls[2] == "double_ms"@ + "="@ + dm);
    assert(ls[3] == "leds"@ + "="@ + leds);
    assert(ls[4] == "led_color"@ + "="@ + color);
    assert(ls[5] == "battery_warn"@ + "="@ + dw);
    assert(ls[6] == Seq::<char>::empty());
    lemma_panel_file_lines(d, ls);
    let c1 = panel_setting(d, "key"@, key);
    let c2 = panel_setting(c1, "key_double"@, key_double);
    let c3 = panel_setting(c2, "double_ms"@, dm);
    let c4 = panel_setting(c3, "leds"@, leds);
    let c5 = panel_setting(c4, "led_color"@, color);
    let c6 = panel_setting(c5, "battery_warn"@, dw);
    lemma_panel_setting_line(d, "key"@, key);
    lemma_panel_setting_line(c1, "key_double"@, key_double);
    lemma_panel_setting_line(c2, "double_ms"@, dm);
    lemma_panel_setting_line(c3, "leds"@, leds);
    lemma_panel_setting_line(c4, "led_color"@, color);
    lemma_panel_setting_line(c5, "battery_warn"@, dw);
    assert(Seq::<Seq<char>>::empty().push(dm) =~= seq![dm]);
}

// ---- the alert threshold ---------------------------------------------------------

/// `off`, `none`, `aucune` and `non`, in any ASCII case, turn the alert off for
/// the daemon and for the panel alike; nothing else of the configuration changes.
pub proof fn lemma_warn_off_words(cfg: Config, p: PanelSettings, k: Seq<char>, v: Seq<char>)
    requires
        k == "battery_warn"@ || k == "batterie"@,
        lower(v) == "off"@ || lower(v) == "none"@ || lower(v) == "aucune"@ || lower(v) == "non"@,
    ensures
        apply_setting(cfg, k, v) == (Config { battery_warn: 0, ..cfg }),
        panel_warn(v) == 0,
        panel_setting(p, k, v) == (PanelSettings { battery_warn: 0, ..p }),
{
    lemma_names_plain();
}

/// A threshold written in decimal is read as that number, capped at 100 %, by
/// the daemon and by the panel alike.
pub proof fn lemma_warn_number(cfg: Config, k: Seq<char>, n: u8)
    requires
        k == "battery_warn"@ || k == "batterie"@,
    ensures
        apply_setting(cfg, k, decimal(n as nat)) == (Config {
            battery_warn: if n > 100 {
                100
            } else {
                n
            },
            ..cfg
        }),
        panel_warn(decimal(n as nat)) == if n > 100 {
            100
        } else {
            n
        },
{
    lemma_names_plain();
    lemma_decimal_plain(n as nat);
    lemma_decimal_parse(n as nat, 0xff);
}

/// The daemon and the panel read any `battery_warn` value the same way (from
/// the default threshold, which both keep when the value does not read).
pub proof fn lemma_warn_readers_agree(cfg: Config, v: Seq<char>)
    requires
        cfg.battery_warn == DEFAULT_BATTERY_WARN,
    ensures
        apply_setting(cfg, "battery_warn"@, v).battery_warn == panel_warn(v),
        apply_setting(cfg, "batterie"@, v).battery_warn == panel_warn(v),
{
    lemma_names_plain();
}

// ---- applying unchanged choices -----------------------------------------------------

proof fn lemma_choices_plain()
    ensures
        forall|i: int| 0 <= i < key_values().len() ==> plain_value(#[trigger] key_values()[i]),
        forall|i: int| 0 <= i < key_values().len() ==> #[trigger] key_values()[i].len() > 0,
        forall|i: int| 0 <= i < led_values().len() ==> plain_value(#[trigger] led_values()[i]),
        plain_value("none"@),
{
    reveal_strlit("playpause");
    reveal_strlit("next");
    reveal_strlit("previous");
    reveal_strlit("stop");
    reveal_strlit("mute");
    reveal_strlit("micmute");
    reveal_strlit("volumeup");
    reveal_strlit("volumedown");
    reveal_strlit("keep");
    reveal_strlit("off");
    reveal_strlit("color");
    reveal_strlit("none");
    assert forall|i: int| 0 <= i < key_values().len() implies plain_value(
        #[trigger] key_values()[i],
    ) by {
        lemma_trim_fixed(key_values()[i]);
    }
    assert forall|i: int| 0 <= i < led_values().len() implies plain_value(
        #[trigger] led_values()[i],
    ) by {
        lemma_trim_fixed(led_values()[i]);
    }
    lemma_trim_fixed("none"@);
}

/// Applying the panel's choices unchanged writes them back unchanged: the key,
/// double-click and LED values the panel wrote are read back, shown at their
/// drop-down positions, and those positions give the same values again.
pub proof fn lemma_apply_unchanged(
    key: Seq<char>,
    key_double: Seq<char>,
    double_ms: u64,
    leds: Seq<char>,
    color: Seq<char>,
    battery_warn: u8,
)
    requires
        position_in(key_values(), key),
        key_double == "none"@ || position_in(key_values(), key_double),
        position_in(led_values(), leds),
        plain_value(color),
    ensures
        ({
            let p = panel_of_text(panel_text_of(key, key_double, double_ms, leds, color, battery_warn));
            &&& key_value_of(position_of(key_values(), p.key)) == key
            &&& double_value_of(double_selection_of(p.key_double)) == key_double
            &&& led_value_of(position_of(led_values(), p.leds)) == leds
        }),
{
    lemma_choices_plain();
    lemma_position_found(key_values(), key);
    lemma_position_found(led_values(), leds);
    if key_double != "none"@ {
        lemma_position_found(key_values(), key_double);
    }
    lemma_panel_reads_own_file(key, key_double, double_ms, leds, color, battery_warn);
    if key_double != "none"@ {
        assert(key_values()[position_of(key_values(), key_double)].len() > 0);
    }
}

// ---- color -----------------------------------------------------------------------

proof fn lemma_hex_pair_back(x: u8)
    ensures
        hex_pair(hex_char(x as int / 16), hex_char(x as int % 16)) == Some(x),
{
    lemma_hex_char(x as int / 16);
    lemma_hex_char(x as int % 16);
}

/// The daemon reads the color the panel writes: `parse_color` of `rrggbb` gives
/// back the three bytes.
pub proof fn lemma_color_roundtrip(r: u8, g: u8, b: u8)
    ensures
        color_of(color_hex_of(r, g, b)) == Some((r, g, b)),
{
    let s = color_hex_of(r, g, b);
    lemma_hex_char(r as int / 16);
    lemma_hex_char(r as int % 16);
    lemma_hex_char(g as int / 16);
    lemma_hex_char(g as int % 16);
    lemma_hex_char(b as int / 16);
    lemma_hex_char(b as int % 16);
    lemma_trim_fixed(s);
    assert(strip_hashes(s) == s);
    lemma_hex_pair_back(r);
    lemma_hex_pair_back(g);
    lemma_hex_pair_back(b);
}

// ---- status and caps ------------------------------------------------------------

/// The panel reads the daemon's status word: connected, searching, or (stopped)
/// nothing to report.
pub proof fn lemma_status_roundtrip(s: DaemonStatus)
    ensures
        headset_line_of(Some(trim(status_text_of(s)))) == match s {
            DaemonStatus::Connected => HeadsetLine::Connected,
            DaemonStatus::Searching => HeadsetLine::Searching,
            DaemonStatus::Stopped => HeadsetLine::Unknown,
        },
{
    reveal_strlit("connecte");
    reveal_strlit("recherche");
    reveal_strlit("arrete");
    lemma_trim_fixed("connecte"@);
    lemma_trim_fixed("recherche"@);
    lemma_trim_fixed("arrete"@);
    assert("connecte"@ != "recherche"@) by {
        assert("connecte"@.len() != "recherche"@.len());
    }
    assert("arrete"@ != "recherche"@) by {
        assert("arrete"@.len() != "recherche"@.len());
    }
    assert("arrete"@ != "connecte"@) by {
        assert("arrete"@.len() != "connecte"@.len());
    }
}

/// The panel reads the RGB capability the daemon publishes.
pub proof fn lemma_caps_roundtrip(present: bool)
    ensures
        caps_of_lines(split_lines(if present {
            "rgb=1\n"@
        } else {
            "rgb=0\n"@
        })) == Some(present),
{
    reveal_strlit("rgb=1\n");
    reveal_strlit("rgb=0\n");
    reveal_strlit("rgb=1");
    reveal_strlit("rgb=0");
    reveal_strlit("rgb=");
    reveal_strlit("1");
    reveal_strlit("0");
    reveal_strlit("\n");
    let line = if present {
        "rgb=1"@
    } else {
        "rgb=0"@
    };
    let text = if present {
        "rgb=1\n"@
    } else {
        "rgb=0\n"@
    };
    assert forall|i: int| 0 <= i < line.len() implies line[i] != '\n' by {}
    let e = Seq::<char>::empty();
    assert(split_lines(e) == Seq::<Seq<char>>::empty().push(e));
    lemma_split_lines_append(e, Seq::<Seq<char>>::empty(), line);
    assert(e + line + "\n"@ =~= text);
    let ls = split_lines(text);
    assert(Seq::<Seq<char>>::empty().push(line).push(e) =~= seq![line, e]);
    lemma_trim_fixed(line);
    assert(line.take(4) =~= "rgb="@);
    assert(line.skip(4) =~= if present {
        "1"@
    } else {
        "0"@
    });
    lemma_trim_fixed(line.skip(4));
    assert(caps_line(line) == Some(present));
    assert(ls == seq![line, e]);
    assert(ls.drop_last() =~= seq![line]);
    assert(seq![line].drop_last() =~= Seq::<Seq<char>>::empty());
    assert(caps_of_lines(Seq::<Seq<char>>::empty()) is None);
    assert(caps_of_lines(seq![line]) == Some(present));
    assert(caps_line(e) is None);
}

// ---- key choices -----------------------------------------------------------------

/// Every key the panel offers is a key name the daemon knows.
pub proof fn lemma_panel_keys_known(i: int)
    requires
        0 <= i < 8,
    ensures
        key_code_of(key_values()[i]) == Some(
            if i == 0 {
                164u16
            } else if i == 1 {
                163u16
            } else if i == 2 {
                165u16
            } else if i == 3 {
                166u16
            } else if i == 4 {
                113u16
            } else if i == 5 {
                248u16
            } else if i == 6 {
                115u16
            } else {
                114u16
            },
        ),
{
    let v = key_values()[i];
    reveal_strlit("playpause");
    reveal_strlit("play_pause");
    reveal_strlit("next");
    reveal_strlit("nextsong");
    reveal_strlit("previous");
    reveal_strlit("prev");
    reveal_strlit("previoussong");
    reveal_strlit("stop");
    reveal_strlit("stopcd");
    reveal_strlit("mute");
    reveal_strlit("micmute");
    reveal_strlit("mic_mute");
    reveal_strlit("volumeup");
    reveal_strlit("volume_up");
    reveal_strlit("volumedown");
    reveal_strlit("volume_down");
    lemma_trim_fixed(v);
    assert(lower(v) =~= v);
}

} // verus!
