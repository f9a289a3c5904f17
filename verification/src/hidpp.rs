//! The HID++ 2.0 long-report protocol as the headset speaks it: building the
//! 20-byte requests and recognising the replies that answer them.
use vstd::prelude::*;
use crate::text::{chars_of, contains, contains_chars, string_from_chars, trim, trimmed};

verus! {

/// Logitech's USB vendor id.
pub const VID: u16 = 0x046D;
/// The G733's product id (used for the virtual keyboard's identity).
pub const PID: u16 = 0x0B1F;
/// Device index of a directly connected device.
pub const DEV_INDEX: u8 = 0xFF;
/// Report id of a long (20-byte) HID++ report.
pub const LONG_REPORT_ID: u8 = 0x11;
/// Length of a long report.
pub const LONG_LEN: usize = 20;
/// Software id the daemon puts in the low nibble of every function byte.
pub const SW_ID: u8 = 0x0F;
/// Feature ids.
pub const ROOT_FEATURE: u16 = 0x0000;
pub const FEATURE_SET: u16 = 0x0001;
pub const DEVICE_NAME: u16 = 0x0005;
pub const GKEY_FEATURE: u16 = 0x8010;
pub const RGB_FEATURE: u16 = 0x8070;
pub const BATT_VOLTAGE: u16 = 0x1F20;
pub const BATT_UNIFIED: u16 = 0x1004;
pub const BATT_LEVEL: u16 = 0x1000;
/// G-keys function 2: divert the keys to HID++ notifications.
pub const FN_DIVERT: u8 = 0x02;
/// RGB effects function 3: fixed color.
pub const FN_SET_FIXED: u8 = 0x03;
pub const MODE_FIXED: u8 = 0x01;
/// RGB feature index used when the headset does not report one.
pub const RGB_INDEX_FALLBACK: u8 = 0x04;
/// Byte 4 of a state notification: 0 means the headset switched off.
pub const WAKE_OFF: u8 = 0x00;

/// A long report: report id, device index, feature index, function byte, then
/// the first 16 parameters, zero-filled to 20 bytes.
pub open spec fn long_report(feature_index: u8, fb: u8, params: Seq<u8>) -> Seq<u8> {
    Seq::new(
        20,
        |i: int|
            if i == 0 {
                LONG_REPORT_ID
            } else if i == 1 {
                DEV_INDEX
            } else if i == 2 {
                feature_index
            } else if i == 3 {
                fb
            } else if i - 4 < params.len() {
                params[i - 4]
            } else {
                0u8
            },
    )
}

/// Builds a long HID++ report.
pub fn hidpp_long(feature_index: u8, fb: u8, params: &[u8]) -> (buf: [u8; LONG_LEN])
    ensures
        buf@ == long_report(feature_index, fb, params@),
{
    let mut buf = [0u8;LONG_LEN];
    buf[0] = LONG_REPORT_ID;
    buf[1] = DEV_INDEX;
    buf[2] = feature_index;
    buf[3] = fb;
    let n = if params.len() < 16 {
        params.len()
    } else {
        16
    };
    let mut i: usize = 0;
    while i < n
        invariant
            n <= 16,
            n <= params@.len(),
            n == params@.len() || n == 16,
            i <= n,
            buf@.len() == 20,
            forall|k: int| 0 <= k < 4 + i ==> buf@[k] == long_report(feature_index, fb, params@)[k],
            forall|k: int| 4 + i <= k < 20 ==> buf@[k] == 0,
        decreases n - i,
    {
        buf[4 + i] = params[i];
        i = i + 1;
    }
    assert(buf@ =~= long_report(feature_index, fb, params@));
    buf
}

/// The function byte: function number in the high nibble, software id in the low one.
pub open spec fn function_byte_of(function: u8) -> u8 {
    ((function % 16) * 16 + 15) as u8
}

pub fn function_byte(function: u8) -> (fb: u8)
    ensures
        fb == function_byte_of(function),
{
    let fb = (function << 4) | SW_ID;
    assert(((function << 4) | 0x0f) == ((function % 16) * 16 + 15) as u8) by (bit_vector);
    fb
}

/// `root.getFeature(feature_id)`: feature index 0, function 0.
pub fn feature_query_report(feature_id: u16) -> (buf: [u8; LONG_LEN])
    ensures
        buf@ == long_report(0, 0x0F, seq![(feature_id / 256) as u8, (feature_id % 256) as u8]),
{
    let params = [(feature_id >> 8) as u8, (feature_id & 0xFF) as u8];
    assert((feature_id >> 8) as u8 == (feature_id / 256) as u8) by (bit_vector);
    assert((feature_id & 0xFF) as u8 == (feature_id % 256) as u8) by (bit_vector);
    assert(params@ =~= seq![(feature_id / 256) as u8, (feature_id % 256) as u8]);
    hidpp_long(0x00, 0x0F, &params)
}

/// What a report read while waiting for a `getFeature` answer says.
#[derive(Clone, Copy, PartialEq, Eq, Structural, Debug)]
pub enum FeatureReply {
    /// Not the answer: keep waiting.
    Other,
    /// The feature exists at this index.
    Found(u8),
    /// The device answered that the feature is absent.
    Absent,
}

pub open spec fn feature_reply_of(report: Seq<u8>) -> FeatureReply {
    if report.len() < 5 {
        FeatureReply::Other
    } else if report[0] == LONG_REPORT_ID && report[1] == DEV_INDEX && report[2] == 0
        && report[3] == 0x0F {
        if report[4] != 0 {
            FeatureReply::Found(report[4])
        } else {
            FeatureReply::Absent
        }
    } else {
        FeatureReply::Other
    }
}

/// Classifies the bytes of one read (`report` is what the read returned).
pub fn feature_reply(report: &[u8]) -> (r: FeatureReply)
    ensures
        r == feature_reply_of(report@),
{
    if report.len() < 5 {
        return FeatureReply::Other;
    }
    if report[0] == LONG_REPORT_ID && report[1] == DEV_INDEX && report[2] == 0x00 && report[3]
        == 0x0F {
        let idx = report[4];
        if idx != 0 {
            FeatureReply::Found(idx)
        } else {
            FeatureReply::Absent
        }
    } else {
        FeatureReply::Other
    }
}

/// What a report read while waiting for the answer to a request says.
#[derive(Clone, Copy, PartialEq, Eq, Debug)]
pub enum RequestReply {
    /// Not the answer: keep waiting.
    Other,
    /// A HID++ error answered the request.
    Failed,
    /// The 16 parameter bytes of the answer.
    Data([u8; 16]),
}

/// Classifies one read against a request to `index` with function byte `fb`:
/// reads shorter than 20 bytes are skipped; an error report (`0xFF` in byte 2,
/// then the request's index and function byte) fails; a report from the same
/// index and function byte answers with bytes 4..20.
pub fn request_reply(report: &[u8], index: u8, fb: u8) -> (r: RequestReply)
    ensures
        report@.len() < 20 ==> r == RequestReply::Other,
        report@.len() >= 20 ==> {
            if report@[0] == LONG_REPORT_ID && report@[2] == 0xFF && report@[3] == index
                && report@[4] == fb {
                r == RequestReply::Failed
            } else if report@[0] == LONG_REPORT_ID && report@[2] == index && report@[3] == fb {
                (r matches RequestReply::Data(d) && d@ == report@.subrange(4, 20))
            } else {
                r == RequestReply::Other
            }
        },
{
    if report.len() < 20 {
        return RequestReply::Other;
    }
    if report[0] == LONG_REPORT_ID && report[2] == 0xFF && report[3] == index && report[4] == fb {
        return RequestReply::Failed;
    }
    if report[0] == LONG_REPORT_ID && report[2] == index && report[3] == fb {
        let mut out = [0u8;16];
        let mut i: usize = 0;
        while i < 16
            invariant
                report@.len() >= 20,
                i <= 16,
                out@.len() == 16,
                forall|k: int| 0 <= k < i ==> out@[k] == report@[4 + k],
            decreases 16 - i,
        {
            out[i] = report[4 + i];
            i = i + 1;
        }
        assert(out@ =~= report@.subrange(4, 20));
        return RequestReply::Data(out);
    }
    RequestReply::Other
}

/// Turns the diversion of the G-key on or off (function 2, parameter 1 or 0).
pub fn divert_report(gkey_index: u8, enable: bool) -> (buf: [u8; LONG_LEN])
    ensures
        buf@ == long_report(gkey_index, 0x2F, seq![if enable { 1u8 } else { 0u8 }]),
{
    let fb = function_byte(FN_DIVERT);
    let params = [if enable {
        0x01u8
    } else {
        0x00u8
    }];
    assert(params@ =~= seq![if enable { 1u8 } else { 0u8 }]);
    hidpp_long(gkey_index, fb, &params)
}

/// Sets one LED zone to a fixed color (function 3: zone, fixed mode, R, G, B, 2).
pub fn led_zone_report(rgb_index: u8, zone: u8, rgb: (u8, u8, u8)) -> (buf: [u8; LONG_LEN])
    ensures
        buf@ == long_report(rgb_index, 0x3F, seq![zone, MODE_FIXED, rgb.0, rgb.1, rgb.2, 2u8]),
{
    let fb = function_byte(FN_SET_FIXED);
    let params = [zone, MODE_FIXED, rgb.0, rgb.1, rgb.2, 0x02];
    assert(params@ =~= seq![zone, MODE_FIXED, rgb.0, rgb.1, rgb.2, 2u8]);
    hidpp_long(rgb_index, fb, &params)
}

/// The two LED zones (left and right ear cup), written in this order.
pub fn led_zones() -> (z: [u8; 2])
    ensures
        z@ == seq![0u8, 1u8],
{
    let z = [0x00u8, 0x01u8];
    assert(z@ =~= seq![0u8, 1u8]);
    z
}

/// A request with no parameters to `index`, function byte `fb`.
pub fn plain_request(index: u8, fb: u8) -> (buf: [u8; LONG_LEN])
    ensures
        buf@ == long_report(index, fb, Seq::empty()),
{
    let params: [u8; 0] = [];
    assert(params@ =~= Seq::<u8>::empty());
    hidpp_long(index, fb, &params)
}

// ---- device name --------------------------------------------------------------

/// A byte read as a character (`b as char`, Latin-1).
pub open spec fn byte_char(b: u8) -> char {
    (b as u32) as char
}

/// Bytes of `String::len` after pushing each byte as a character.
pub open spec fn latin1_len(bs: Seq<u8>) -> nat
    decreases bs.len(),
{
    if bs.len() == 0 {
        0
    } else {
        latin1_len(bs.drop_last()) + if bs.last() < 0x80 {
            1nat
        } else {
            2nat
        }
    }
}

/// The longest name the reader asks for, in bytes.
pub const NAME_MAX: usize = 64;

/// Reads the model name through the DeviceName feature (0x0005): function 0
/// gives the length, function 1 gives 16-byte chunks from an offset.
pub struct NameReader {
    /// The announced length.
    pub count: usize,
    /// The bytes received, each pushed as a character.
    pub raw: Vec<u8>,
    /// The length in bytes of the text built so far.
    pub len: usize,
}

impl NameReader {
    pub open spec fn wf(&self) -> bool {
        &&& self.len == latin1_len(self.raw@)
        &&& self.len <= NAME_MAX + 32
        &&& self.count <= 255
    }

    /// Starts from the answer to function 0; `None` when the name is empty.
    pub fn new(length_reply: &[u8; 16]) -> (r: Option<NameReader>)
        ensures
            length_reply@[0] == 0 ==> r is None,
            length_reply@[0] != 0 ==> (r matches Some(n) && n.wf() && n.count == length_reply@[0]
                && n.raw@ == Seq::<u8>::empty()),
    {
        let count = length_reply[0] as usize;
        if count == 0 {
            return None;
        }
        Some(NameReader { count, raw: Vec::new(), len: 0 })
    }

    /// The offset of the next chunk to ask for, or `None` once the name is complete
    /// (its length reached the announced count or 64 bytes).
    pub fn next_offset(&self) -> (r: Option<u8>)
        requires
            self.wf(),
        ensures
            r == if self.len < self.count && self.len < NAME_MAX {
                Some(self.len as u8)
            } else {
                None
            },
    {
        if self.len < self.count && self.len < NAME_MAX {
            Some(self.len as u8)
        } else {
            None
        }
    }

    /// Appends a chunk: its bytes up to the first zero, stopping once the length
    /// reaches the count. Returns whether anything was appended (no progress ends
    /// the reading).
    pub fn absorb(&mut self, chunk: &[u8; 16]) -> (progress: bool)
        requires
            old(self).wf(),
            old(self).len < NAME_MAX,
        ensures
            final(self).wf(),
            final(self).count == old(self).count,
            progress == (final(self).len != old(self).len),
            exists|k: int|
                #![trigger chunk@.take(k)]
                0 <= k <= 16 && final(self).raw@ == old(self).raw@ + chunk@.take(k) && (forall|
                    m: int,
                |
                    0 <= m < k ==> chunk@[m] != 0) && (k < 16 ==> (chunk@[k] == 0 || latin1_len(
                    old(self).raw@ + chunk@.take(k),
                ) >= old(self).count)) && (forall|m: int|
                    0 <= m < k ==> latin1_len(old(self).raw@ + chunk@.take(m)) < old(self).count),
    {
        let ghost start = self.raw@;
        let before = self.len;
        let mut i: usize = 0;
        while i < 16
            invariant
                i <= 16,
                self.count == old(self).count,
                self.count <= 255,
                self.raw@ == start + chunk@.take(i as int),
                self.len == latin1_len(self.raw@),
                self.len <= before + 2 * i,
                before < NAME_MAX,
                start == old(self).raw@,
                forall|m: int| 0 <= m < i ==> chunk@[m] != 0,
                forall|m: int| 0 <= m < i ==> latin1_len(start + chunk@.take(m)) < self.count,
            ensures
                self.count == old(self).count,
                self.len == latin1_len(self.raw@),
                self.len <= before + 32,
                i <= 16,
                self.raw@ == start + chunk@.take(i as int),
                forall|m: int| 0 <= m < i ==> chunk@[m] != 0,
                forall|m: int| 0 <= m < i ==> latin1_len(start + chunk@.take(m)) < self.count,
                i < 16 ==> (chunk@[i as int] == 0 || self.len >= self.count),
            decreases 16 - i,
        {
            let b = chunk[i];
            if self.len >= self.count || b == 0 {
                break;
            }
            self.raw.push(b);
            assert(self.raw@.drop_last() =~= start + chunk@.take(i as int));
            self.len = self.len + if b < 0x80 {
                1
            } else {
                2
            };
            i = i + 1;
            assert(self.raw@ =~= start + chunk@.take(i as int));
        }
        self.len != before
    }

    /// The name read: the bytes as characters, trimmed; `None` when nothing is left.
    pub fn finish(&self) -> (r: Option<String>)
        ensures
            match r {
                Some(s) => s@ == trim(self.raw@.map_values(|b: u8| byte_char(b))) && s@.len()
                    > 0,
                None => trim(self.raw@.map_values(|b: u8| byte_char(b))).len() == 0,
            },
    {
        let mut cs: Vec<char> = Vec::new();
        let mut i: usize = 0;
        while i < self.raw.len()
            invariant
                i <= self.raw@.len(),
                cs@ == self.raw@.take(i as int).map_values(|b: u8| byte_char(b)),
            decreases self.raw@.len() - i,
        {
            let b = self.raw[i];
            let c = b as char;
            assert(c == byte_char(b));
            cs.push(c);
            i = i + 1;
            assert(cs@ =~= self.raw@.take(i as int).map_values(|b: u8| byte_char(b)));
        }
        assert(self.raw@.take(self.raw@.len() as int) =~= self.raw@);
        let t = trimmed(&cs);
        if t.len() == 0 {
            None
        } else {
            Some(string_from_chars(&t))
        }
    }
}

// ---- feature names ------------------------------------------------------------

/// Readable name of a HID++ feature id (the subset useful for diagnostics).
pub open spec fn feature_label(fid: u16) -> Seq<char> {
    if fid == 0x0000 {
        "Root"@
    } else if fid == 0x0001 {
        "IFeatureSet"@
    } else if fid == 0x0003 {
        "DeviceFwVersion"@
    } else if fid == 0x0005 {
        "DeviceName"@
    } else if fid == 0x1000 {
        "BatteryLevelStatus"@
    } else if fid == 0x1001 {
        "BatteryVoltage"@
    } else if fid == 0x1004 {
        "UnifiedBattery"@
    } else if fid == 0x1814 {
        "ChangeHost"@
    } else if fid == 0x1b04 {
        "ReprogControlsV4"@
    } else if fid == 0x1f20 {
        "proprietaire (etat + batterie)"@
    } else if fid == 0x8010 {
        "G-keys"@
    } else if fid == 0x8060 {
        "ReportRate"@
    } else if fid == 0x8070 {
        "RGB Effects"@
    } else if fid == 0x8300 {
        "Sidetone"@
    } else if fid == 0x8310 {
        "EqualizerCfg"@
    } else {
        ""@
    }
}

pub fn feature_name(fid: u16) -> (s: &'static str)
    ensures
        s@ == feature_label(fid),
{
    match fid {
        0x0000 => "Root",
        0x0001 => "IFeatureSet",
        0x0003 => "DeviceFwVersion",
        0x0005 => "DeviceName",
        0x1000 => "BatteryLevelStatus",
        0x1001 => "BatteryVoltage",
        0x1004 => "UnifiedBattery",
        0x1814 => "ChangeHost",
        0x1b04 => "ReprogControlsV4",
        0x1f20 => "proprietaire (etat + batterie)",
        0x8010 => "G-keys",
        0x8060 => "ReportRate",
        0x8070 => "RGB Effects",
        0x8300 => "Sidetone",
        0x8310 => "EqualizerCfg",
        _ => "",
    }
}

/// The feature id in the answer to `IFeatureSet.getFeatureId` (big-endian bytes 0 and 1).
pub fn feature_id_of(reply: &[u8; 16]) -> (fid: u16)
    ensures
        fid == reply@[0] as int * 256 + reply@[1] as int,
{
    let hi = reply[0] as u16;
    let lo = reply[1] as u16;
    assert((hi << 8) | lo == hi * 256 + lo) by (bit_vector)
        requires
            hi < 256,
            lo < 256,
    ;
    (hi << 8) | lo
}

// ---- finding the headset --------------------------------------------------------

// `str::to_uppercase`: the Unicode upper case of a text. Its full definition
// is Unicode's case tables; nothing more is stated of it here.
pub uninterp spec fn unicode_upper(s: Seq<char>) -> Seq<char>;

/// `str::to_uppercase`; the result is named [`unicode_upper`] of the text.
#[verifier::external_body]
fn to_uppercase(s: &str) -> (r: String)
    ensures
        r@ == unicode_upper(s@),
{
    s.to_uppercase()
}

/// What a Logitech device's `uevent` holds: `HID_ID=0003:0000046D:`.
pub open spec fn logitech_hid_id() -> Seq<char> {
    "HID_ID=0003:0000046D:"@
}

/// Whether an upper-cased `uevent` text names a Logitech USB HID device.
pub fn uevent_names_logitech(upper: &str) -> (r: bool)
    ensures
        r == contains(upper@, logitech_hid_id()),
{
    let u = chars_of(upper);
    let p = chars_of("HID_ID=0003:0000046D:");
    contains_chars(&u, &p)
}

/// Whether a hidraw node's `uevent` text is that of a Logitech USB device.
pub fn is_logitech_uevent(uevent: &str) -> (r: bool)
    ensures
        r == contains(unicode_upper(uevent@), logitech_hid_id()),
{
    let up = to_uppercase(uevent);
    uevent_names_logitech(up.as_str())
}

} // verus!
