//! Text of the `--diagnose` report and of the `--watch` dump.
use vstd::prelude::*;
use crate::battery::{volts_chars, voltage_label};
use crate::calibration::{
    curve_percent, lemma_library_curves, lemma_well_formed_segments, voltage_to_percent,
    Calibration,
};
use crate::hidpp::{feature_label, feature_name};
use crate::text::{
    chars_of, copy_range, decimal, decimal_chars, hex_text, padded, push_decimal, push_hex,
    push_padded, push_str, same_chars, string_from_chars, trim, trimmed,
};

verus! {

/// `  {idx:>2}  0x{fid:04x}  {name}`: one feature of the enumeration.
pub open spec fn feature_line_of(idx: u8, fid: u16) -> Seq<char> {
    "  "@ + padded(decimal(idx as nat), 2, ' ') + "  0x"@ + hex_text(fid as nat, 4) + "  "@
        + feature_label(fid)
}

pub fn feature_line(idx: u8, fid: u16) -> (s: String)
    ensures
        s@ == feature_line_of(idx, fid),
{
    let mut out: Vec<char> = Vec::new();
    push_str(&mut out, "  ");
    let d = decimal_chars(idx as u64);
    push_padded(&mut out, &d, 2, ' ');
    push_str(&mut out, "  0x");
    push_hex(&mut out, fid as u64, 4);
    push_str(&mut out, "  ");
    push_str(&mut out, feature_name(fid));
    assert(out@ =~= feature_line_of(idx, fid));
    string_from_chars(&out)
}

/// `v{major}.{minor}` from the answer to the root's ping (bytes 0 and 1).
pub fn protocol_version(reply: &[u8; 16]) -> (s: String)
    ensures
        s@ == "v"@ + decimal(reply@[0] as nat) + "."@ + decimal(reply@[1] as nat),
{
    let mut out: Vec<char> = Vec::new();
    push_str(&mut out, "v");
    push_decimal(&mut out, reply[0] as u64);
    push_str(&mut out, ".");
    push_decimal(&mut out, reply[1] as u64);
    assert(out@ =~= "v"@ + decimal(reply@[0] as nat) + "."@ + decimal(reply@[1] as nat));
    string_from_chars(&out)
}

/// The battery reading of the report: a voltage answer as `~P % (V)` using the
/// model's curve (the millivolts are big-endian in bytes 0 and 1), a percent
/// answer as `P %` (byte 0).
pub fn battery_reading_text(voltage_mode: bool, curve: Calibration, reply: &[u8; 16]) -> (s: String)
    ensures
        s@ == if voltage_mode {
            let mv = reply@[0] as int * 256 + reply@[1] as int;
            voltage_label(curve_percent(curve.spec_points(), mv), mv, false)
        } else {
            decimal(reply@[0] as nat) + " %"@
        },
{
    let mut out: Vec<char> = Vec::new();
    if voltage_mode {
        let mv = reply[0] as u16 * 256 + reply[1] as u16;
        let pts = curve.points();
        proof {
            lemma_library_curves(curve);
            lemma_well_formed_segments(pts@, 0, mv as int);
        }
        let pct = voltage_to_percent(&pts, mv);
        push_str(&mut out, "~");
        push_decimal(&mut out, pct as u64);
        push_str(&mut out, " % (");
        volts_chars(&mut out, mv);
        push_str(&mut out, ")");
        assert(out@ =~= voltage_label(pct as int, mv as int, false));
    } else {
        push_decimal(&mut out, reply[0] as u64);
        push_str(&mut out, " %");
        assert(out@ =~= decimal(reply@[0] as nat) + " %"@);
    }
    string_from_chars(&out)
}

/// The bytes in two-digit lower-case hexadecimal, separated by spaces.
pub open spec fn hex_bytes(bs: Seq<u8>) -> Seq<char>
    decreases bs.len(),
{
    if bs.len() == 0 {
        Seq::empty()
    } else if bs.len() == 1 {
        hex_text(bs[0] as nat, 2)
    } else {
        hex_bytes(bs.drop_last()) + " "@ + hex_text(bs.last() as nat, 2)
    }
}

/// A line of the `--watch` dump: two spaces, then the bytes.
pub fn hex_dump(bytes: &[u8]) -> (s: String)
    ensures
        s@ == "  "@ + hex_bytes(bytes@),
{
    let mut out: Vec<char> = Vec::new();
    push_str(&mut out, "  ");
    let ghost start = out@;
    let mut i: usize = 0;
    while i < bytes.len()
        invariant
            i <= bytes@.len(),
            out@ == start + hex_bytes(bytes@.take(i as int)),
        decreases bytes@.len() - i,
    {
        assert(bytes@.take(i + 1).drop_last() =~= bytes@.take(i as int));
        if i > 0 {
            push_str(&mut out, " ");
        }
        push_hex(&mut out, bytes[i] as u64, 2);
        i = i + 1;
        assert(out@ =~= start + hex_bytes(bytes@.take(i as int)));
    }
    assert(bytes@.take(bytes@.len() as int) =~= bytes@);
    string_from_chars(&out)
}

/// How a diagnostic report begins (the daemon prints it first, then the
/// version); without a headset the output is a message instead.
pub open spec fn report_title() -> Seq<char> {
    "=== Diagnostic casque Logitech"@
}

/// The report in the output of `--diagnose`: the trimmed output when it is a
/// report, `None` when the headset did not answer (or nothing came out).
pub open spec fn diagnose_report_of(out: Seq<char>) -> Option<Seq<char>> {
    let t = trim(out);
    if t.len() >= report_title().len() && t.take(report_title().len() as int) == report_title() {
        Some(t)
    } else {
        None
    }
}

/// The report to show from the output of `--diagnose`.
pub fn diagnose_report(output: &str) -> (r: Option<String>)
    ensures
        match r {
            Some(s) => diagnose_report_of(output@) == Some(s@),
            None => diagnose_report_of(output@) is None,
        },
{
    let t = trimmed(&chars_of(output));
    let title = chars_of("=== Diagnostic casque Logitech");
    if t.len() < title.len() {
        return None;
    }
    let head = copy_range(&t, 0, title.len());
    assert(head@ =~= t@.take(title@.len() as int));
    if same_chars(&head, &title) {
        Some(string_from_chars(&t))
    } else {
        None
    }
}

} // verus!
