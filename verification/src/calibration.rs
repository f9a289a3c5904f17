//! Battery calibration: the headset reports a cell voltage (mV); the charge in
//! percent is estimated by linear interpolation on a per-model curve of
//! `(millivolts, percent)` points listed from the highest voltage down.
use vstd::prelude::*;
use crate::text::{chars_of, contains, contains_chars, upper, uppercased};

verus! {

/// The calibration curves the library knows.
#[derive(Clone, Copy, PartialEq, Eq, Structural, Debug)]
pub enum Calibration {
    /// Logitech G533.
    G533,
    /// Logitech G633; the G733, G933 and G935 share it.
    G633,
    /// A generic Li-ion curve, for unknown models.
    Generic,
}

impl Calibration {
    pub open spec fn spec_points(self) -> Seq<(u16, u8)> {
        match self {
            Calibration::G533 => seq![
                (4200u16, 100u8),
                (3850u16, 50u8),
                (3790u16, 30u8),
                (3750u16, 20u8),
                (3680u16, 5u8),
                (3330u16, 0u8),
            ],
            Calibration::G633 => seq![
                (4100u16, 100u8),
                (3950u16, 80u8),
                (3850u16, 60u8),
                (3750u16, 40u8),
                (3650u16, 20u8),
                (3500u16, 10u8),
                (3300u16, 5u8),
                (3150u16, 0u8),
            ],
            Calibration::Generic => seq![
                (4200u16, 100u8),
                (4100u16, 92u8),
                (4000u16, 81u8),
                (3900u16, 69u8),
                (3800u16, 56u8),
                (3700u16, 44u8),
                (3650u16, 36u8),
                (3600u16, 28u8),
                (3550u16, 20u8),
                (3500u16, 13u8),
                (3400u16, 6u8),
                (3200u16, 0u8),
            ],
        }
    }

    /// The points of the curve, highest voltage first.
    pub fn points(&self) -> (v: Vec<(u16, u8)>)
        ensures
            v@ == self.spec_points(),
    {
        let v = match self {
            Calibration::G533 => vec![
                (4200u16, 100u8),
                (3850u16, 50u8),
                (3790u16, 30u8),
                (3750u16, 20u8),
                (3680u16, 5u8),
                (3330u16, 0u8),
            ],
            Calibration::G633 => vec![
                (4100u16, 100u8),
                (3950u16, 80u8),
                (3850u16, 60u8),
                (3750u16, 40u8),
                (3650u16, 20u8),
                (3500u16, 10u8),
                (3300u16, 5u8),
                (3150u16, 0u8),
            ],
            Calibration::Generic => vec![
                (4200u16, 100u8),
                (4100u16, 92u8),
                (4000u16, 81u8),
                (3900u16, 69u8),
                (3800u16, 56u8),
                (3700u16, 44u8),
                (3650u16, 36u8),
                (3600u16, 28u8),
                (3550u16, 20u8),
                (3500u16, 13u8),
                (3400u16, 6u8),
                (3200u16, 0u8),
            ],
        };
        assert(v@ =~= self.spec_points());
        v
    }
}

/// The curve for a model name: a name containing `G533` (in any ASCII case)
/// gets the G533 curve, one containing `G733`, `G633`, `G933` or `G935` the G633
/// curve, anything else (and no name) the generic curve.
pub open spec fn model_curve(name: Option<Seq<char>>) -> Calibration {
    let n = upper(
        match name {
            Some(s) => s,
            None => Seq::empty(),
        },
    );
    if contains(n, "G533"@) {
        Calibration::G533
    } else if contains(n, "G733"@) || contains(n, "G633"@) || contains(n, "G933"@) || contains(
        n,
        "G935"@,
    ) {
        Calibration::G633
    } else {
        Calibration::Generic
    }
}

/// Chooses the calibration curve from the model name (fallback: generic).
pub fn curve_for_model(name: Option<&str>) -> (c: Calibration)
    ensures
        c == model_curve(
            match name {
                Some(s) => Some(s@),
                None => None,
            },
        ),
{
    let raw: Vec<char> = match name {
        Some(s) => chars_of(s),
        None => Vec::new(),
    };
    let n = uppercased(&raw);
    if contains_chars(&n, &chars_of("G533")) {
        Calibration::G533
    } else if contains_chars(&n, &chars_of("G733")) || contains_chars(&n, &chars_of("G633"))
        || contains_chars(&n, &chars_of("G933")) || contains_chars(&n, &chars_of("G935")) {
        Calibration::G633
    } else {
        Calibration::Generic
    }
}

// ---- interpolation -----------------------------------------------------------

/// The estimate found by searching the segments from `(c[i], c[i+1])` on: the
/// first segment whose lower voltage is at most `mv` gives the value linearly
/// interpolated in it (integer division); past the last point the charge is 0.
pub open spec fn percent_from(c: Seq<(u16, u8)>, i: int, mv: int) -> int
    decreases c.len() - i,
{
    if i < 0 || i + 1 >= c.len() {
        0
    } else if mv >= c[i + 1].0 {
        c[i + 1].1 + (mv - c[i + 1].0) * (c[i].1 - c[i + 1].1) / (c[i].0 - c[i + 1].0)
    } else {
        percent_from(c, i + 1, mv)
    }
}

/// The charge estimate for `mv` on curve `c`: 100 at or above the first point.
pub open spec fn curve_percent(c: Seq<(u16, u8)>, mv: int) -> int {
    if mv >= c[0].0 {
        100
    } else {
        percent_from(c, 0, mv)
    }
}

/// The segment where the search from `i` stops never rises in percent; this is
/// what the computation needs to be defined (its subtraction of percents).
pub open spec fn segments_ok(c: Seq<(u16, u8)>, i: int, mv: int) -> bool
    decreases c.len() - i,
{
    if i < 0 || i + 1 >= c.len() {
        true
    } else if mv >= c[i + 1].0 {
        c[i].1 >= c[i + 1].1
    } else {
        segments_ok(c, i + 1, mv)
    }
}

/// A calibration curve as the library writes them: voltages strictly
/// decreasing and percents never increasing along the list.
pub open spec fn well_formed_curve(c: Seq<(u16, u8)>) -> bool {
    &&& c.len() > 0
    &&& forall|i: int, j: int| 0 <= i < j < c.len() ==> c[i].0 > c[j].0 && c[i].1 >= c[j].1
}

/// Converts a voltage (mV) into an approximate charge (%) on the given curve.
pub fn voltage_to_percent(curve: &[(u16, u8)], mv: u16) -> (p: u8)
    requires
        curve@.len() > 0,
        mv < curve@[0].0 ==> segments_ok(curve@, 0, mv as int),
    ensures
        p == curve_percent(curve@, mv as int),
{
    if mv >= curve[0].0 {
        return 100;
    }
    let n = curve.len();
    let mut i: usize = 0;
    while i + 1 < n
        invariant
            n == curve@.len(),
            i < n,
            mv < curve@[0].0,
            mv < curve@[i as int].0,
            percent_from(curve@, 0, mv as int) == percent_from(curve@, i as int, mv as int),
            segments_ok(curve@, i as int, mv as int),
        decreases n - i,
    {
        let (hi_mv, hi_pct) = curve[i];
        let (lo_mv, lo_pct) = curve[i + 1];
        if mv >= lo_mv {
            let span = (hi_mv - lo_mv) as u32;
            let frac = (mv - lo_mv) as u32;
            let delta = (hi_pct - lo_pct) as u32;
            assert(frac < span);
            assert(frac * delta <= 65535 * 255) by (nonlinear_arith)
                requires
                    frac < 65536,
                    delta < 256,
            {}
            proof {
                lemma_segment_bounds(frac as int, frac as int, delta as int, span as int);
            }
            let r = lo_pct as u32 + frac * delta / span;
            assert(curve@[i as int] == (hi_mv, hi_pct));
            assert(curve@[i + 1] == (lo_mv, lo_pct));
            assert(percent_from(curve@, i as int, mv as int) == lo_pct + (mv - lo_mv) * (hi_pct
                - lo_pct) / (hi_mv - lo_mv));
            assert(r == percent_from(curve@, i as int, mv as int));
            assert(r <= 255);
            return r as u8;
        }
        i = i + 1;
    }
    0
}

// ---- properties of the estimate --------------------------------------------------

proof fn lemma_segment_bounds(a: int, b: int, d: int, s: int)
    requires
        0 <= a <= b < s,
        0 <= d,
    ensures
        0 <= a * d / s <= b * d / s,
        b * d / s <= d,
        a == 0 ==> a * d / s == 0,
{
    assert(0 <= a * d <= b * d) by (nonlinear_arith)
        requires
            0 <= a <= b,
            0 <= d,
    ;
    assert(b * d <= s * d) by (nonlinear_arith)
        requires
            b < s,
            0 <= d,
    ;
    vstd::arithmetic::div_mod::lemma_div_is_ordered(a * d, b * d, s);
    vstd::arithmetic::div_mod::lemma_div_is_ordered(b * d, s * d, s);
    vstd::arithmetic::div_mod::lemma_div_pos_is_pos(a * d, s);
    vstd::arithmetic::mul::lemma_mul_is_commutative(s, d);
    vstd::arithmetic::div_mod::lemma_div_multiples_vanish(d, s);
}

/// Below the voltage of point `i`, the estimate is at most the percent of point `i`.
proof fn lemma_percent_from_upper(c: Seq<(u16, u8)>, i: int, mv: int)
    requires
        well_formed_curve(c),
        0 <= i < c.len(),
        mv < c[i].0,
    ensures
        0 <= percent_from(c, i, mv) <= c[i].1,
    decreases c.len() - i,
{
    if i + 1 < c.len() {
        if mv >= c[i + 1].0 {
            lemma_segment_bounds(
                mv - c[i + 1].0,
                mv - c[i + 1].0,
                c[i].1 - c[i + 1].1,
                c[i].0 - c[i + 1].0,
            );
        } else {
            lemma_percent_from_upper(c, i + 1, mv);
        }
    }
}

/// At or above the voltage of point `i + 1`, the search from `i` gives at least its percent.
proof fn lemma_percent_from_lower(c: Seq<(u16, u8)>, i: int, mv: int)
    requires
        well_formed_curve(c),
        0 <= i,
        i + 1 < c.len(),
        c[i + 1].0 <= mv < c[i].0,
    ensures
        c[i + 1].1 <= percent_from(c, i, mv),
{
    lemma_segment_bounds(
        mv - c[i + 1].0,
        mv - c[i + 1].0,
        c[i].1 - c[i + 1].1,
        c[i].0 - c[i + 1].0,
    );
}

proof fn lemma_percent_from_monotonic(c: Seq<(u16, u8)>, i: int, m1: int, m2: int)
    requires
        well_formed_curve(c),
        0 <= i < c.len(),
        m1 <= m2 < c[i].0,
    ensures
        percent_from(c, i, m1) <= percent_from(c, i, m2),
    decreases c.len() - i,
{
    if i + 1 < c.len() {
        if m1 >= c[i + 1].0 {
            lemma_segment_bounds(
                m1 - c[i + 1].0,
                m2 - c[i + 1].0,
                c[i].1 - c[i + 1].1,
                c[i].0 - c[i + 1].0,
            );
        } else if m2 >= c[i + 1].0 {
            lemma_percent_from_upper(c, i + 1, m1);
            lemma_percent_from_lower(c, i, m2);
        } else {
            lemma_percent_from_monotonic(c, i + 1, m1, m2);
        }
    }
}

/// Every segment of a well-formed curve is well ordered, so the estimate is defined.
pub proof fn lemma_well_formed_segments(c: Seq<(u16, u8)>, i: int, mv: int)
    requires
        well_formed_curve(c),
        0 <= i,
    ensures
        segments_ok(c, i, mv),
    decreases c.len() - i,
{
    if i + 1 < c.len() && mv < c[i + 1].0 {
        lemma_well_formed_segments(c, i + 1, mv);
    }
}

/// On a well-formed curve whose percents are at most 100, the estimate lies in
/// `0..=100` and never decreases when the voltage rises.
pub proof fn lemma_percent_monotonic(c: Seq<(u16, u8)>, m1: int, m2: int)
    requires
        well_formed_curve(c),
        c[0].1 <= 100,
        m1 <= m2,
    ensures
        0 <= curve_percent(c, m1) <= curve_percent(c, m2) <= 100,
{
    if m2 >= c[0].0 {
        if m1 < c[0].0 {
            lemma_percent_from_upper(c, 0, m1);
        }
    } else {
        lemma_percent_from_monotonic(c, 0, m1, m2);
        lemma_percent_from_upper(c, 0, m1);
        lemma_percent_from_upper(c, 0, m2);
    }
}

/// The estimate passes through the calibration points: at the voltage of point
/// `k` it is that point's percent (at the first point, 100).
pub proof fn lemma_percent_at_points(c: Seq<(u16, u8)>, k: int)
    requires
        well_formed_curve(c),
        0 <= k < c.len(),
    ensures
        curve_percent(c, c[k].0 as int) == if k == 0 {
            100
        } else {
            c[k].1 as int
        },
{
    if k > 0 {
        lemma_percent_from_at(c, 0, k);
    }
}

proof fn lemma_percent_from_at(c: Seq<(u16, u8)>, i: int, k: int)
    requires
        well_formed_curve(c),
        0 <= i < k < c.len(),
    ensures
        percent_from(c, i, c[k].0 as int) == c[k].1,
    decreases k - i,
{
    if i + 1 < k {
        lemma_percent_from_at(c, i + 1, k);
    } else {
        assert((c[k].0 - c[k].0) * (c[i].1 - c[k].1) == 0);
    }
}

/// Below the last point the estimate is 0.
pub proof fn lemma_percent_below_curve(c: Seq<(u16, u8)>, mv: int)
    requires
        well_formed_curve(c),
        mv < c.last().0,
    ensures
        curve_percent(c, mv) == 0,
{
    lemma_percent_from_below(c, 0, mv);
}

proof fn lemma_percent_from_below(c: Seq<(u16, u8)>, i: int, mv: int)
    requires
        well_formed_curve(c),
        0 <= i < c.len(),
        mv < c.last().0,
    ensures
        percent_from(c, i, mv) == 0,
    decreases c.len() - i,
{
    if i + 1 < c.len() {
        assert(c[i + 1].0 >= c.last().0);
        lemma_percent_from_below(c, i + 1, mv);
    }
}

/// The curves of the library are well formed, with percents up to 100.
pub proof fn lemma_library_curves(cal: Calibration)
    ensures
        well_formed_curve(cal.spec_points()),
        cal.spec_points()[0].1 == 100,
        cal.spec_points().last().1 == 0,
{
    let c = cal.spec_points();
    assert forall|i: int, j: int| 0 <= i < j < c.len() implies c[i].0 > c[j].0 && c[i].1
        >= c[j].1 by {
        assert(c[i].0 > c[j].0 && c[i].1 >= c[j].1);
    }
}

/// The calibration tables (HeadsetControl's for the G533 and the G633, which
/// the G733, G933 and G935 share, and a generic Li-ion table), in mV and %.
pub proof fn lemma_calibration_tables()
    ensures
        Calibration::G533.spec_points() == seq![
            (4200u16, 100u8),
            (3850u16, 50u8),
            (3790u16, 30u8),
            (3750u16, 20u8),
            (3680u16, 5u8),
            (3330u16, 0u8),
        ],
        Calibration::G633.spec_points() == seq![
            (4100u16, 100u8),
            (3950u16, 80u8),
            (3850u16, 60u8),
            (3750u16, 40u8),
            (3650u16, 20u8),
            (3500u16, 10u8),
            (3300u16, 5u8),
            (3150u16, 0u8),
        ],
        Calibration::Generic.spec_points() == seq![
            (4200u16, 100u8),
            (4100u16, 92u8),
            (4000u16, 81u8),
            (3900u16, 69u8),
            (3800u16, 56u8),
            (3700u16, 44u8),
            (3650u16, 36u8),
            (3600u16, 28u8),
            (3550u16, 20u8),
            (3500u16, 13u8),
            (3400u16, 6u8),
            (3200u16, 0u8),
        ],
{
}

proof fn lemma_percent_from_skip(c: Seq<(u16, u8)>, i: int, k: int, mv: int)
    requires
        well_formed_curve(c),
        0 <= i <= k,
        k + 1 < c.len(),
        mv < c[k].0,
    ensures
        percent_from(c, i, mv) == percent_from(c, k, mv),
    decreases k - i,
{
    if i < k {
        assert(c[i + 1].0 >= c[k].0);
        lemma_percent_from_skip(c, i + 1, k, mv);
    }
}

/// Between two neighbouring points the estimate is the straight line through
/// them, rounded down: from the lower point's percent, rising by the percent
/// difference in proportion to the voltage above the lower point.
pub proof fn lemma_percent_interpolates(c: Seq<(u16, u8)>, k: int, mv: int)
    requires
        well_formed_curve(c),
        0 <= k,
        k + 1 < c.len(),
        c[k + 1].0 <= mv < c[k].0,
    ensures
        curve_percent(c, mv) == c[k + 1].1 + (mv - c[k + 1].0) * (c[k].1 - c[k + 1].1) / (c[k].0
            - c[k + 1].0),
{
    if k > 0 {
        assert(c[0].0 > c[k].0);
    }
    lemma_percent_from_skip(c, 0, k, mv);
}

/// Which curve a model name gets: names with `G533` (any ASCII case) the G533
/// table; names with `G733`, `G633`, `G933` or `G935` and not `G533` the G633
/// table; other names, and no name, the generic table.
pub proof fn lemma_model_curves(name: Seq<char>)
    ensures
        contains(upper(name), "G533"@) ==> model_curve(Some(name)) == Calibration::G533,
        !contains(upper(name), "G533"@) && (contains(upper(name), "G733"@) || contains(
            upper(name),
            "G633"@,
        ) || contains(upper(name), "G933"@) || contains(upper(name), "G935"@)) ==> model_curve(
            Some(name),
        ) == Calibration::G633,
        !contains(upper(name), "G533"@) && !contains(upper(name), "G733"@) && !contains(
            upper(name),
            "G633"@,
        ) && !contains(upper(name), "G933"@) && !contains(upper(name), "G935"@) ==> model_curve(
            Some(name),
        ) == Calibration::Generic,
        model_curve(None) == Calibration::Generic,
{
    assert(upper(Seq::<char>::empty()) =~= Seq::<char>::empty());
    reveal_strlit("G533");
    reveal_strlit("G733");
    reveal_strlit("G633");
    reveal_strlit("G933");
    reveal_strlit("G935");
}

} // verus!
