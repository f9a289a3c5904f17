//! One connection to the headset: the decisions of the daemon's main loop.
//!
//! The caller owns the file descriptors and a monotonic clock in milliseconds.
//! Each turn it asks [`Session::poll_timeout`], waits that long for a report,
//! calls [`Session::tick`] and performs what it returns, then, if a report came,
//! hands it to [`Session::on_report`] and performs what that returns.
//!
//! The mute button is diverted to HID++ notifications; each press (rising
//! edge) injects the configured key. With a double-click key set, the single
//! click is deferred by the double-click window so that a second press within
//! the window injects the double-click key instead.
use vstd::prelude::*;
use crate::battery::{battery_handled, Battery, BatteryUpdate, BATT_POLL_MS};
use crate::cli::DaemonStatus;
use crate::config::{led_color_for, led_target, Config};
use crate::hidpp::{
    divert_report, long_report, LONG_LEN, LONG_REPORT_ID, RGB_INDEX_FALLBACK, WAKE_OFF,
};
use crate::text::{push_str, string_from_chars};

verus! {

/// Diversion and LEDs are re-applied at least this often (ms).
pub const REASSERT_MS: u64 = 5000;
/// Longest wait for a report when no click is pending (ms).
pub const IDLE_POLL_MS: i32 = 1000;

/// The state of one connection.
#[derive(Debug)]
pub struct Session {
    /// Index of the G-keys feature.
    pub gkey_index: u8,
    /// Index of the state feature (0x1F20) whose notifications report power on/off.
    pub state_index: Option<u8>,
    /// Index of the RGB feature (or the usual index when the headset has none).
    pub rgb_index: u8,
    /// Color to keep the LEDs at, if any.
    pub led: Option<(u8, u8, u8)>,
    pub battery: Option<Battery>,
    pub key_code: u16,
    pub double_code: Option<u16>,
    pub double_ms: u64,
    /// When diversion and LEDs were last applied.
    pub last_assert: u64,
    /// Whether the button was down in the last notification.
    pub prev: bool,
    /// Time of a first press waiting for a possible second one.
    pub pending: Option<u64>,
}

/// What the caller does after a wait.
#[derive(Debug)]
pub struct Tick {
    /// Re-apply the diversion and the LEDs.
    pub reassert: bool,
    /// Send this battery request.
    pub battery_request: Option<[u8; LONG_LEN]>,
    /// Inject this key (a deferred single click).
    pub key: Option<u16>,
}

/// What a report from the headset asks for.
#[derive(Debug)]
pub enum Event {
    /// The answer to the battery request.
    Battery(Option<BatteryUpdate>),
    /// The headset switched on: re-apply the diversion and the LEDs.
    Wake,
    /// Inject this key.
    Key(u16),
    /// Nothing to do.
    Nothing,
}

/// Why a session ends.
#[derive(Clone, Copy, Debug)]
pub enum SessionEnd {
    /// A stop was requested (SIGINT / SIGTERM).
    Stopped,
    /// Reading from the headset failed: it went away.
    Disconnected,
}

/// What the caller does when a session ends.
#[derive(Debug)]
pub struct Closing {
    /// Send this report to give the mute button back to the headset.
    pub divert_off: Option<[u8; LONG_LEN]>,
    /// Publish this status.
    pub status: Option<DaemonStatus>,
}

/// Milliseconds from `t` to `now` (0 if `now` is earlier).
pub open spec fn elapsed(now: u64, t: u64) -> int {
    if now >= t {
        now - t
    } else {
        0
    }
}

pub open spec fn clamp(x: int, lo: int, hi: int) -> int {
    if x < lo {
        lo
    } else if x > hi {
        hi
    } else {
        x
    }
}

/// A press (rising edge) of the button: `(pending, key)` afterwards.
/// Without a double-click key it injects the key at once. With one, a press
/// within the window of a pending first press injects the double-click key;
/// otherwise the press becomes the pending first press.
pub open spec fn press_step(
    pending: Option<u64>,
    key_code: u16,
    double_code: Option<u16>,
    double_ms: u64,
    now: u64,
) -> (Option<u64>, Option<u16>) {
    match double_code {
        None => (pending, Some(key_code)),
        Some(dc) => match pending {
            Some(t) if elapsed(now, t) <= double_ms => (None, Some(dc)),
            _ => (Some(now), None),
        },
    }
}

/// The end of the window of a pending first press: `(pending, key)` afterwards.
pub open spec fn expiry_step(pending: Option<u64>, key_code: u16, double_ms: u64, now: u64) -> (
    Option<u64>,
    Option<u16>,
) {
    match pending {
        Some(t) if elapsed(now, t) >= double_ms => (None, Some(key_code)),
        _ => (pending, None),
    }
}

/// Whether the report is a notification (long report, function byte 0).
pub open spec fn is_notification(r: Seq<u8>) -> bool {
    r.len() >= 5 && r[0] == LONG_REPORT_ID && r[3] == 0
}

/// Caps text published for the panel: `rgb=1` when the headset has RGB LEDs.
pub fn caps_text(rgb_present: Option<u8>) -> (s: String)
    ensures
        s@ == if rgb_present is Some {
            "rgb=1\n"@
        } else {
            "rgb=0\n"@
        },
{
    let mut out: Vec<char> = Vec::new();
    if rgb_present.is_some() {
        push_str(&mut out, "rgb=1\n");
    } else {
        push_str(&mut out, "rgb=0\n");
    }
    assert(out@ =~= if rgb_present is Some {
        "rgb=1\n"@
    } else {
        "rgb=0\n"@
    });
    string_from_chars(&out)
}

impl Session {
    /// A session after connecting: the feature indexes found, the configuration,
    /// and the battery monitor if one was detected.
    pub fn new(
        cfg: &Config,
        gkey_index: u8,
        state_index: Option<u8>,
        rgb_present: Option<u8>,
        battery: Option<Battery>,
        now: u64,
    ) -> (s: Session)
        ensures
            s.gkey_index == gkey_index,
            s.state_index == state_index,
            s.rgb_index == match rgb_present {
                Some(i) => i,
                None => RGB_INDEX_FALLBACK,
            },
            s.led == led_color_for(*cfg),
            s.battery == battery,
            s.key_code == cfg.key_code,
            s.double_code == cfg.double_code,
            s.double_ms == cfg.double_ms,
            s.last_assert == now,
            !s.prev,
            s.pending is None,
    {
        Session {
            gkey_index,
            state_index,
            rgb_index: match rgb_present {
                Some(i) => i,
                None => RGB_INDEX_FALLBACK,
            },
            led: led_target(cfg),
            battery,
            key_code: cfg.key_code,
            double_code: cfg.double_code,
            double_ms: cfg.double_ms,
            last_assert: now,
            prev: false,
            pending: None,
        }
    }

    /// The report switching the diversion on or off.
    pub fn divert(&self, enable: bool) -> (r: [u8; LONG_LEN])
        ensures
            r@ == long_report(self.gkey_index, 0x2F, seq![if enable { 1u8 } else { 0u8 }]),
    {
        divert_report(self.gkey_index, enable)
    }

    /// The end of the session. On a stop the button is given back to the
    /// headset (diversion off); after a disconnection the headset has reset its
    /// state, so nothing is sent, and the daemon is searching again.
    pub fn close(&self, end: SessionEnd) -> (c: Closing)
        ensures
            match end {
                SessionEnd::Stopped => {
                    &&& c.divert_off matches Some(r)
                    &&& r@ == long_report(self.gkey_index, 0x2F, seq![0u8])
                    &&& c.status is None
                },
                SessionEnd::Disconnected => c.divert_off is None && c.status == Some(
                    DaemonStatus::Searching,
                ),
            },
    {
        match end {
            SessionEnd::Stopped => Closing { divert_off: Some(self.divert(false)), status: None },
            SessionEnd::Disconnected => Closing {
                divert_off: None,
                status: Some(DaemonStatus::Searching),
            },
        }
    }

    /// How long to wait for a report: until the end of the window of a pending
    /// press (at least 1 ms, at most 1 s), otherwise 1 s.
    pub fn poll_timeout(&self, now: u64) -> (ms: i32)
        ensures
            ms == match self.pending {
                Some(t) => clamp(self.double_ms - elapsed(now, t), 1, 1000),
                None => 1000,
            },
    {
        match self.pending {
            Some(t) => {
                let el: u64 = if now >= t {
                    now - t
                } else {
                    0
                };
                if el >= self.double_ms {
                    1
                } else {
                    let left = self.double_ms - el;
                    if left > 1000 {
                        1000
                    } else if left < 1 {
                        1
                    } else {
                        left as i32
                    }
                }
            },
            None => IDLE_POLL_MS,
        }
    }

    /// After each wait: re-apply the state when 5 s have passed since it was last
    /// applied, request a battery reading when one is due, and inject the single
    /// click whose double-click window has run out.
    pub fn tick(&mut self, now: u64) -> (t: Tick)
        requires
            now <= u64::MAX - BATT_POLL_MS,
        ensures
            t.reassert == (elapsed(now, old(self).last_assert) >= REASSERT_MS),
            final(self).last_assert == if t.reassert {
                now
            } else {
                old(self).last_assert
            },
            match old(self).battery {
                Some(b) => if now >= b.next_poll {
                    (t.battery_request matches Some(r) && r@ == long_report(
                        b.index,
                        b.fb,
                        Seq::empty(),
                    )) && final(self).battery == Some(
                        Battery { next_poll: (now + BATT_POLL_MS) as u64, ..b },
                    )
                } else {
                    t.battery_request is None && final(self).battery == Some(b)
                },
                None => t.battery_request is None && final(self).battery is None,
            },
            (final(self).pending, t.key) == expiry_step(
                old(self).pending,
                old(self).key_code,
                old(self).double_ms,
                now,
            ),
            final(self).gkey_index == old(self).gkey_index,
            final(self).state_index == old(self).state_index,
            final(self).rgb_index == old(self).rgb_index,
            final(self).led == old(self).led,
            final(self).key_code == old(self).key_code,
            final(self).double_code == old(self).double_code,
            final(self).double_ms == old(self).double_ms,
            final(self).prev == old(self).prev,
    {
        let since: u64 = if now >= self.last_assert {
            now - self.last_assert
        } else {
            0
        };
        let reassert = since >= REASSERT_MS;
        if reassert {
            self.last_assert = now;
        }
        let battery_request = match self.battery {
            Some(b) => {
                let mut b2 = b;
                if b2.due(now) {
                    let r = b2.request(now);
                    self.battery = Some(b2);
                    Some(r)
                } else {
                    None
                }
            },
            None => None,
        };
        let mut key = None;
        if let Some(t) = self.pending {
            let el: u64 = if now >= t {
                now - t
            } else {
                0
            };
            if el >= self.double_ms {
                key = Some(self.key_code);
                self.pending = None;
            }
        }
        Tick { reassert, battery_request, key }
    }

    /// A report read from the headset: the battery answer, a power-on
    /// notification, or a G-key notification (the button's state in bit 0 of
    /// byte 4; a rising edge is a press).
    pub fn on_report(&mut self, report: &[u8], now: u64) -> (e: Event)
        ensures
            final(self).gkey_index == old(self).gkey_index,
            final(self).state_index == old(self).state_index,
            final(self).rgb_index == old(self).rgb_index,
            final(self).led == old(self).led,
            final(self).key_code == old(self).key_code,
            final(self).double_code == old(self).double_code,
            final(self).double_ms == old(self).double_ms,
            match old(self).battery {
                Some(b) if report@.len() >= 7 && report@[2] == b.index && report@[3] == b.fb => {
                    &&& e matches Event::Battery(u)
                    &&& final(self).battery matches Some(b2)
                    &&& battery_handled(b, report@, b2, u)
                    &&& final(self).last_assert == old(self).last_assert
                    &&& final(self).prev == old(self).prev
                    &&& final(self).pending == old(self).pending
                },
                _ => {
                    &&& final(self).battery == old(self).battery
                    &&& if is_notification(report@) && old(self).state_index == Some(report@[2])
                        && report@[4] != WAKE_OFF {
                        &&& e is Wake
                        &&& final(self).last_assert == now
                        &&& final(self).prev == old(self).prev
                        &&& final(self).pending == old(self).pending
                    } else if is_notification(report@) && report@[2] == old(self).gkey_index {
                        let pressed = report@[4] % 2 == 1;
                        let (p, k) = if pressed && !old(self).prev {
                            press_step(
                                old(self).pending,
                                old(self).key_code,
                                old(self).double_code,
                                old(self).double_ms,
                                now,
                            )
                        } else {
                            (old(self).pending, None)
                        };
                        &&& final(self).last_assert == old(self).last_assert
                        &&& final(self).prev == pressed
                        &&& final(self).pending == p
                        &&& match k {
                            Some(key) => e == Event::Key(key),
                            None => e is Nothing,
                        }
                    } else {
                        &&& e is Nothing
                        &&& final(self).last_assert == old(self).last_assert
                        &&& final(self).prev == old(self).prev
                        &&& final(self).pending == old(self).pending
                    }
                },
            },
    {
        if let Some(b) = self.battery {
            if b.is_response(report) {
                let mut b2 = b;
                let u = b2.handle(report);
                self.battery = Some(b2);
                return Event::Battery(u);
            }
        }
        if report.len() >= 5 && report[0] == LONG_REPORT_ID && report[3] == 0x00 {
            if self.state_index == Some(report[2]) && report[4] != WAKE_OFF {
                self.last_assert = now;
                return Event::Wake;
            } else if report[2] == self.gkey_index {
                let b4 = report[4];
                let pressed = (b4 & 0x01) != 0;
                assert((b4 & 0x01) != 0 <==> b4 % 2 == 1) by (bit_vector);
                let mut ev = Event::Nothing;
                if pressed && !self.prev {
                    match self.double_code {
                        None => {
                            ev = Event::Key(self.key_code);
                        },
                        Some(dc) => {
                            let first = self.pending;
                            self.pending = None;
                            match first {
                                Some(t) if (if now >= t {
                                    now - t
                                } else {
                                    0
                                }) <= self.double_ms => {
                                    ev = Event::Key(dc);
                                },
                                _ => {
                                    self.pending = Some(now);
                                },
                            }
                        },
                    }
                }
                self.prev = pressed;
                return ev;
            }
        }
        Event::Nothing
    }
}

// ---- laws of the click logic -----------------------------------------------------

/// Without a double-click key, every press injects the single-click key at once
/// and nothing is ever left pending.
pub proof fn lemma_single_click_immediate(key_code: u16, double_ms: u64, now: u64)
    ensures
        press_step(None, key_code, None, double_ms, now) == (None::<u64>, Some(key_code)),
        expiry_step(None, key_code, double_ms, now) == (None::<u64>, None::<u16>),
{
}

/// With a double-click key: a first press injects nothing and waits; a second
/// press within the window injects the double-click key and leaves nothing
/// pending, so the single-click key is not injected afterwards.
pub proof fn lemma_double_click(
    key_code: u16,
    dc: u16,
    double_ms: u64,
    t1: u64,
    t2: u64,
    t3: u64,
)
    requires
        t1 <= t2,
        t2 - t1 <= double_ms,
    ensures
        press_step(None, key_code, Some(dc), double_ms, t1) == (Some(t1), None::<u16>),
        press_step(Some(t1), key_code, Some(dc), double_ms, t2) == (None::<u64>, Some(dc)),
        expiry_step(None, key_code, double_ms, t3) == (None::<u64>, None::<u16>),
{
}

/// With a double-click key: a lone press is injected as the single-click key
/// exactly once, when its window has run out, and not before.
pub proof fn lemma_deferred_single_click(
    key_code: u16,
    dc: u16,
    double_ms: u64,
    t1: u64,
    early: u64,
    late: u64,
    later: u64,
)
    requires
        t1 <= early,
        early - t1 < double_ms,
        t1 <= late,
        late - t1 >= double_ms,
    ensures
        press_step(None, key_code, Some(dc), double_ms, t1) == (Some(t1), None::<u16>),
        expiry_step(Some(t1), key_code, double_ms, early) == (Some(t1), None::<u16>),
        expiry_step(Some(t1), key_code, double_ms, late) == (None::<u64>, Some(key_code)),
        expiry_step(None, key_code, double_ms, later) == (None::<u64>, None::<u16>),
{
}

/// A press after the window has run out (and before the tick that would have
/// injected the single click) starts a new wait instead of counting as a double click.
pub proof fn lemma_late_second_press(key_code: u16, dc: u16, double_ms: u64, t1: u64, t2: u64)
    requires
        t1 <= t2,
        t2 - t1 > double_ms,
    ensures
        press_step(Some(t1), key_code, Some(dc), double_ms, t2) == (Some(t2), None::<u16>),
{
}

// ---- re-applying the state ---------------------------------------------------------

/// When the state was last applied after ticks at the times `ts`, starting
/// from `l0`, each tick re-applying it as [`Session::tick`] does once
/// `REASSERT_MS` have passed.
pub open spec fn last_applied(l0: u64, ts: Seq<u64>) -> u64
    decreases ts.len(),
{
    if ts.len() == 0 {
        l0
    } else {
        let l = last_applied(l0, ts.drop_last());
        if elapsed(ts.last(), l) >= REASSERT_MS {
            ts.last()
        } else {
            l
        }
    }
}

/// The diversion and the LEDs are never older than 5 s at a tick: with ticks at
/// nondecreasing times after the start, after each tick the state was applied
/// at most `REASSERT_MS` ago, and never later than that tick. As each wait is
/// bounded by [`Session::poll_timeout`] (at most 1 s), the state is re-sent at
/// least every 5 s plus one wait and the work of a turn.
pub proof fn lemma_reassert_liveness(l0: u64, ts: Seq<u64>)
    requires
        ts.len() > 0 ==> l0 <= ts[0],
        forall|i: int, j: int| 0 <= i <= j < ts.len() ==> ts[i] <= ts[j],
    ensures
        forall|k: int|
            0 <= k < ts.len() ==> last_applied(l0, ts.take(k + 1)) <= #[trigger] ts[k] && ts[k]
                - last_applied(l0, ts.take(k + 1)) < REASSERT_MS,
    decreases ts.len(),
{
    if ts.len() > 0 {
        let p = ts.drop_last();
        lemma_reassert_liveness(l0, p);
        assert forall|k: int| 0 <= k < ts.len() implies last_applied(l0, ts.take(k + 1))
            <= #[trigger] ts[k] && ts[k] - last_applied(l0, ts.take(k + 1)) < REASSERT_MS by {
            if k < ts.len() - 1 {
                assert(ts.take(k + 1) =~= p.take(k + 1));
                assert(p[k] == ts[k]);
            } else {
                assert(ts.take(k + 1) =~= ts);
                assert(ts.drop_last() == p);
                if k > 0 {
                    let j = k - 1;
                    assert(p[j] == ts[j]);
                    assert(p.take(j + 1) =~= p);
                    assert(last_applied(l0, p) <= p[j]);
                    assert(ts[j] <= ts[k]);
                } else {
                    assert(p =~= Seq::<u64>::empty());
                    assert(last_applied(l0, p) == l0);
                }
            }
        }
    }
}

/// A turn of the loop waits at most 1 s for a report.
pub proof fn lemma_wait_bounded(s: Session, now: u64)
    ensures
        1 <= match s.pending {
            Some(t) => clamp(s.double_ms - elapsed(now, t), 1, 1000),
            None => 1000,
        } <= 1000,
{
}

} // verus!
