//! Battery monitoring: which HID++ feature reports the charge, when to ask,
//! how to read the answer, and when to warn.
//!
//! The request is sent without waiting; its answer is picked up by the main
//! read loop like the button notifications, so no synchronous read can swallow
//! a button press. Alerts use hysteresis: one notification when the charge drops
//! to the threshold, re-armed once it is back above threshold + 10 % or while
//! charging.
use vstd::prelude::*;
use crate::calibration::{
    curve_percent, lemma_library_curves, lemma_well_formed_segments, voltage_to_percent,
    Calibration,
};
use crate::hidpp::{function_byte, function_byte_of, long_report, plain_request, LONG_LEN};
use crate::text::{
    decimal, decimal_chars, padded, push_chars, push_decimal, push_padded, push_str,
    string_from_chars,
};

verus! {

/// Hysteresis: the alert re-arms above threshold + this margin (%).
pub const BATT_REARM_MARGIN: u8 = 10;
/// First reading shortly after connecting (ms).
pub const BATT_FIRST_POLL_MS: u64 = 5000;
/// Then one reading every 5 minutes (ms).
pub const BATT_POLL_MS: u64 = 300_000;
/// Number of battery features tried.
pub const BATTERY_CANDIDATES: usize = 3;

/// The battery features in the order they are tried: `(feature id, read
/// function, voltage mode)` — 0x1F20 (voltage in mV, function 0), then the
/// standard 0x1004 (percent, function 1) and 0x1000 (percent, function 0).
pub open spec fn candidate(i: int) -> (u16, u8, bool) {
    if i == 0 {
        (0x1F20u16, 0u8, true)
    } else if i == 1 {
        (0x1004u16, 1u8, false)
    } else {
        (0x1000u16, 0u8, false)
    }
}

pub fn battery_candidate(i: usize) -> (c: (u16, u8, bool))
    requires
        i < BATTERY_CANDIDATES,
    ensures
        c == candidate(i as int),
{
    if i == 0 {
        (0x1F20, 0x00, true)
    } else if i == 1 {
        (0x1004, 0x01, false)
    } else {
        (0x1000, 0x00, false)
    }
}

/// State of the battery monitor of one connection.
#[derive(Clone, Copy, Debug)]
pub struct Battery {
    /// Index of the battery feature on this headset.
    pub index: u8,
    /// Function byte of the read request; also identifies the answer.
    pub fb: u8,
    /// Voltage feature (0x1F20) rather than a percent feature.
    pub voltage_mode: bool,
    /// Alert threshold (%).
    pub warn: u8,
    /// An alert was sent since the last re-arming.
    pub warned: bool,
    /// When the next reading is due (ms on the caller's monotonic clock).
    pub next_poll: u64,
    /// Curve converting volts to percent.
    pub curve: Calibration,
}

/// What one answer yields.
#[derive(Debug)]
pub struct BatteryUpdate {
    pub percent: u8,
    /// Text published for the configuration panel.
    pub label: String,
    pub charging: bool,
    /// Send the low-battery notification now.
    pub notify: bool,
}

/// The voltage as `{}.{:02} V` (volts, then hundredths).
pub open spec fn volts_text(mv: int) -> Seq<char> {
    decimal((mv / 1000) as nat) + "."@ + padded(decimal(((mv % 1000) / 10) as nat), 2, '0')
        + " V"@
}

/// `~P % (V)`, or `~P % (V, en charge)` while charging.
pub open spec fn voltage_label(pct: int, mv: int, charging: bool) -> Seq<char> {
    "~"@ + decimal(pct as nat) + " % ("@ + volts_text(mv) + if charging {
        ", en charge)"@
    } else {
        ")"@
    }
}

/// `P %`.
pub open spec fn percent_label(pct: int) -> Seq<char> {
    decimal(pct as nat) + " %"@
}

/// The millivolts of a voltage answer (big-endian bytes 4 and 5).
pub open spec fn answer_mv(buf: Seq<u8>) -> int {
    buf[4] as int * 256 + buf[5] as int
}

/// `(percent, label, charging)` of an answer, or `None` for a reading that is
/// ignored (0 mV, or 0 % from a percent feature). In voltage mode byte 6 is the
/// status: 1 on battery, anything else charging.
pub open spec fn reading_of(b: Battery, buf: Seq<u8>) -> Option<(u8, Seq<char>, bool)> {
    if b.voltage_mode {
        let mv = answer_mv(buf);
        if mv == 0 {
            None
        } else {
            let charging = buf[6] != 1;
            let pct = curve_percent(b.curve.spec_points(), mv);
            Some((pct as u8, voltage_label(pct, mv, charging), charging))
        }
    } else {
        let pct = buf[4];
        if pct == 0 {
            None
        } else {
            Some((pct, percent_label(pct as int), false))
        }
    }
}

/// Whether a reading sends the notification: on battery, not yet warned, at or
/// below a threshold that is set (a threshold of 0 turns the alert off).
pub open spec fn notifies(warned: bool, warn: u8, pct: u8, charging: bool) -> bool {
    !charging && !warned && warn > 0 && pct <= warn
}

/// The `warned` flag after a reading.
pub open spec fn warned_after(warned: bool, warn: u8, pct: u8, charging: bool) -> bool {
    if charging {
        false
    } else if !warned && warn > 0 && pct <= warn {
        true
    } else if warned && pct >= if warn as int + BATT_REARM_MARGIN <= 255 {
        warn as int + BATT_REARM_MARGIN
    } else {
        255
    } {
        false
    } else {
        warned
    }
}

pub fn volts_chars(out: &mut Vec<char>, mv: u16)
    ensures
        final(out)@ == old(out)@ + volts_text(mv as int),
{
    let ghost start = out@;
    push_decimal(out, (mv / 1000) as u64);
    push_str(out, ".");
    let cents = decimal_chars(((mv % 1000) / 10) as u64);
    push_padded(out, &cents, 2, '0');
    push_str(out, " V");
    assert(out@ =~= start + volts_text(mv as int));
}

/// The label for a voltage reading.
pub fn voltage_label_text(pct: u8, mv: u16, charging: bool) -> (s: String)
    ensures
        s@ == voltage_label(pct as int, mv as int, charging),
{
    let mut out: Vec<char> = Vec::new();
    push_str(&mut out, "~");
    push_decimal(&mut out, pct as u64);
    push_str(&mut out, " % (");
    volts_chars(&mut out, mv);
    if charging {
        push_str(&mut out, ", en charge)");
    } else {
        push_str(&mut out, ")");
    }
    assert(out@ =~= voltage_label(pct as int, mv as int, charging));
    string_from_chars(&out)
}

/// The body of the low-battery notification.
pub fn low_battery_text(label: &str) -> (s: String)
    ensures
        s@ == "Niveau : "@ + label@ + ". Pense a recharger."@,
{
    let mut out: Vec<char> = Vec::new();
    push_str(&mut out, "Niveau : ");
    push_str(&mut out, label);
    push_str(&mut out, ". Pense a recharger.");
    assert(out@ =~= "Niveau : "@ + label@ + ". Pense a recharger."@);
    string_from_chars(&out)
}

/// How handling an answer `buf` takes the monitor from `b` to `b2` with result `u`:
/// an ignored reading changes nothing; otherwise the update carries the reading
/// and the notification decision, and only the alert flag changes.
pub open spec fn battery_handled(b: Battery, buf: Seq<u8>, b2: Battery, u: Option<BatteryUpdate>) -> bool {
    match reading_of(b, buf) {
        None => u is None && b2 == b,
        Some((pct, label, charging)) => u matches Some(up) && up.percent == pct && up.label@ == label
            && up.charging == charging && up.notify == notifies(b.warned, b.warn, pct, charging)
            && b2 == (Battery { warned: warned_after(b.warned, b.warn, pct, charging), ..b }),
    }
}

/// The monitor for candidate `c` found at `index`, first reading 5 s after `now`.
pub open spec fn detected(c: int, index: u8, warn: u8, curve: Calibration, now: u64) -> Battery {
    Battery {
        index,
        fb: function_byte_of(candidate(c).1),
        voltage_mode: candidate(c).2,
        warn,
        warned: false,
        next_poll: (now + BATT_FIRST_POLL_MS) as u64,
        curve,
    }
}

impl Battery {
    /// The monitor for battery candidate `candidate`, found at `index`; the first
    /// reading is due 5 s after `now`.
    pub fn detect(candidate_index: usize, index: u8, warn: u8, curve: Calibration, now: u64) -> (b:
        Battery)
        requires
            candidate_index < BATTERY_CANDIDATES,
            now <= u64::MAX - BATT_FIRST_POLL_MS,
        ensures
            b.index == index,
            b.fb == function_byte_of(candidate(candidate_index as int).1),
            b.voltage_mode == candidate(candidate_index as int).2,
            b.warn == warn,
            !b.warned,
            b.next_poll == now + BATT_FIRST_POLL_MS,
            b.curve == curve,
            b == detected(candidate_index as int, index, warn, curve, now),
    {
        let (_feature, func, voltage_mode) = battery_candidate(candidate_index);
        Battery {
            index,
            fb: function_byte(func),
            voltage_mode,
            warn,
            warned: false,
            next_poll: now + BATT_FIRST_POLL_MS,
            curve,
        }
    }

    /// Whether a reading is due at `now`.
    pub fn due(&self, now: u64) -> (r: bool)
        ensures
            r == (now >= self.next_poll),
    {
        now >= self.next_poll
    }

    /// The request to send now; the next reading is due 5 minutes later.
    pub fn request(&mut self, now: u64) -> (report: [u8; LONG_LEN])
        requires
            now <= u64::MAX - BATT_POLL_MS,
        ensures
            report@ == long_report(old(self).index, old(self).fb, Seq::empty()),
            *final(self) == (Battery { next_poll: (now + BATT_POLL_MS) as u64, ..*old(self) }),
    {
        let report = plain_request(self.index, self.fb);
        self.next_poll = now + BATT_POLL_MS;
        report
    }

    /// Whether `buf` answers this monitor's request (same index, same function byte).
    pub fn is_response(&self, buf: &[u8]) -> (r: bool)
        ensures
            r == (buf@.len() >= 7 && buf@[2] == self.index && buf@[3] == self.fb),
    {
        buf.len() >= 7 && buf[2] == self.index && buf[3] == self.fb
    }

    /// Reads an answer; updates the alert state and says whether to notify.
    pub fn handle(&mut self, buf: &[u8]) -> (u: Option<BatteryUpdate>)
        requires
            buf@.len() >= 7,
        ensures
            battery_handled(*old(self), buf@, *final(self), u),
    {
        let (percent, label, charging) = if self.voltage_mode {
            let mv = buf[4] as u16 * 256 + buf[5] as u16;
            if mv == 0 {
                return None;
            }
            let charging = buf[6] != 0x01;
            let pts = self.curve.points();
            proof {
                lemma_library_curves(self.curve);
                lemma_well_formed_segments(pts@, 0, mv as int);
            }
            let pct = voltage_to_percent(&pts, mv);
            (pct, voltage_label_text(pct, mv, charging), charging)
        } else {
            let pct = buf[4];
            if pct == 0 {
                return None;
            }
            let mut out: Vec<char> = Vec::new();
            push_decimal(&mut out, pct as u64);
            push_str(&mut out, " %");
            assert(out@ =~= percent_label(pct as int));
            (pct, string_from_chars(&out), false)
        };
        let mut notify = false;
        if charging {
            self.warned = false;
        } else if !self.warned && self.warn > 0 && percent <= self.warn {
            notify = true;
            self.warned = true;
        } else if self.warned && percent >= self.warn.saturating_add(BATT_REARM_MARGIN) {
            self.warned = false;
        }
        Some(BatteryUpdate { percent, label, charging, notify })
    }
}

/// The next move of the search for the battery feature.
#[derive(Debug)]
pub enum BatterySearch {
    /// Ask the headset for the feature of this candidate.
    Ask(usize),
    /// The feature was found: the monitor to use.
    Found(Battery),
    /// None of the candidates is present.
    Absent,
}

/// The first candidate from `i` on that the replies show present, with the
/// index it was found at. `replies[k]` is the headset's answer for candidate `k`.
pub open spec fn first_present(replies: Seq<Option<u8>>, i: int) -> Option<(int, u8)>
    decreases replies.len() - i,
{
    if i < 0 || i >= replies.len() {
        None
    } else {
        match replies[i] {
            Some(x) => Some((i, x)),
            None => first_present(replies, i + 1),
        }
    }
}

/// One step of the search, after candidate `i` was asked for and `reply` came
/// back: a present feature ends the search with its monitor; otherwise the next
/// candidate is asked for, and after the last one there is no battery.
pub fn battery_search_step(i: usize, reply: Option<u8>, warn: u8, curve: Calibration, now: u64) -> (s:
    BatterySearch)
    requires
        i < BATTERY_CANDIDATES,
        now <= u64::MAX - BATT_FIRST_POLL_MS,
    ensures
        match reply {
            Some(index) => s matches BatterySearch::Found(b) && b == detected(
                i as int,
                index,
                warn,
                curve,
                now,
            ),
            None => if i + 1 < BATTERY_CANDIDATES {
                s matches BatterySearch::Ask(j) && j == i + 1
            } else {
                s is Absent
            },
        },
{
    match reply {
        Some(index) => BatterySearch::Found(Battery::detect(i, index, warn, curve, now)),
        None => if i + 1 < BATTERY_CANDIDATES {
            BatterySearch::Ask(i + 1)
        } else {
            BatterySearch::Absent
        },
    }
}

/// The search from candidate `i` over the replies, step by step as
/// [`battery_search_step`] takes it: the candidate found and its index.
pub open spec fn search_from(replies: Seq<Option<u8>>, i: int) -> Option<(int, u8)>
    decreases BATTERY_CANDIDATES - i,
{
    if i < 0 || i >= BATTERY_CANDIDATES || i >= replies.len() {
        None
    } else {
        match replies[i] {
            Some(x) => Some((i, x)),
            None => if i + 1 < BATTERY_CANDIDATES {
                search_from(replies, i + 1)
            } else {
                None
            },
        }
    }
}

/// The search from the first candidate finds the first candidate present, in
/// the order 0x1F20, 0x1004, 0x1000, asks for none after it, and finds nothing
/// exactly when all three are absent.
pub proof fn lemma_battery_search(replies: Seq<Option<u8>>)
    requires
        replies.len() == BATTERY_CANDIDATES,
    ensures
        search_from(replies, 0) == first_present(replies, 0),
        search_from(replies, 0) is None <==> (forall|k: int|
            0 <= k < BATTERY_CANDIDATES ==> #[trigger] replies[k] is None),
        forall|k: int, x: u8|
            search_from(replies, 0) == Some((k, x)) ==> 0 <= k < BATTERY_CANDIDATES && replies[k]
                == Some(x) && forall|j: int| 0 <= j < k ==> #[trigger] replies[j] is None,
{
    reveal_with_fuel(search_from, 4);
    reveal_with_fuel(first_present, 4);
}

/// Alerts do not repeat: once a notification was sent, none is sent again until
/// a reading re-arms the alert, that is a reading while charging or one at or
/// above threshold + 10 %; and a reading only notifies below or at the threshold
/// and on battery.
pub proof fn lemma_alert_hysteresis(warned: bool, warn: u8, pct: u8, charging: bool)
    ensures
        notifies(warned, warn, pct, charging) ==> warned_after(warned, warn, pct, charging),
        warned ==> !notifies(warned, warn, pct, charging),
        notifies(warned, warn, pct, charging) ==> pct <= warn && !charging,
        charging ==> !warned_after(warned, warn, pct, charging),
        warned && !charging && warn as int + BATT_REARM_MARGIN <= 255 && pct < warn as int
            + BATT_REARM_MARGIN ==> warned_after(
            warned,
            warn,
            pct,
            charging,
        ),
{
}

/// On battery, with no alert sent yet and a threshold set, a reading alerts
/// exactly when its charge is at or below the threshold, and then stays warned;
/// above the threshold it neither alerts nor arms.
pub proof fn lemma_alert_at_threshold(warned: bool, warn: u8, pct: u8, charging: bool)
    requires
        !charging,
        !warned,
        warn > 0,
    ensures
        notifies(warned, warn, pct, charging) <==> pct <= warn,
        warned_after(warned, warn, pct, charging) <==> pct <= warn,
{
}

/// What handling an answer tells: a reading taken on battery, before any alert
/// and with a threshold set, notifies exactly when its percent is at or below
/// the threshold, and the monitor is then warned.
pub proof fn lemma_handle_alerts(b: Battery, buf: Seq<u8>, b2: Battery, u: Option<BatteryUpdate>)
    requires
        battery_handled(b, buf, b2, u),
        !b.warned,
        b.warn > 0,
    ensures
        match u {
            Some(up) => !up.charging ==> (up.notify <==> up.percent <= b.warn) && (b2.warned
                <==> up.percent <= b.warn),
            None => !b2.warned,
        },
{
}

/// With a threshold of 0 no reading ever alerts, and the alert is never armed.
pub proof fn lemma_zero_threshold_silent(warned: bool, pct: u8, charging: bool)
    ensures
        !notifies(warned, 0, pct, charging),
        !warned ==> !warned_after(warned, 0, pct, charging),
{
}

} // verus!
