//! The virtual keyboard (Linux uinput): the device description written at
//! creation and the input events that inject a key press.
use vstd::prelude::*;
use crate::hidpp::{PID, VID};

verus! {

pub const EV_SYN: u16 = 0x00;
pub const EV_KEY: u16 = 0x01;
/// Size of `struct input_event` on 64-bit Linux.
pub const EVENT_LEN: usize = 24;
/// Size of `struct uinput_user_dev`.
pub const UINPUT_DEV_LEN: usize = 1116;
/// Bus type of the virtual keyboard: BUS_USB.
pub const BUS_USB: u16 = 0x03;

/// Little-endian bytes of a 16-bit value.
pub open spec fn le16(x: int) -> Seq<u8> {
    seq![(x % 256) as u8, ((x / 256) % 256) as u8]
}

/// Little-endian bytes of a 32-bit value.
pub open spec fn le32(x: int) -> Seq<u8> {
    seq![
        (x % 256) as u8,
        ((x / 256) % 256) as u8,
        ((x / 65536) % 256) as u8,
        ((x / 16777216) % 256) as u8,
    ]
}

/// `struct input_event` with a zero timestamp: 16 zero bytes (seconds and
/// microseconds), then type, code and value in little-endian.
pub open spec fn input_event(etype: u16, code: u16, value: i32) -> Seq<u8> {
    Seq::new(16, |i: int| 0u8) + le16(etype as int) + le16(code as int) + le32(
        (value as u32) as int,
    )
}

fn push_le16(buf: &mut Vec<u8>, x: u16)
    ensures
        final(buf)@ == old(buf)@ + le16(x as int),
{
    buf.push((x % 256) as u8);
    buf.push(((x / 256) % 256) as u8);
    assert(final(buf)@ =~= old(buf)@ + le16(x as int));
}

/// Appends one input event with a zero timestamp.
pub fn push_event(buf: &mut Vec<u8>, etype: u16, code: u16, value: i32)
    ensures
        final(buf)@ == old(buf)@ + input_event(etype, code, value),
{
    let ghost start = buf@;
    let mut k: usize = 0;
    while k < 16
        invariant
            k <= 16,
            buf@ == start + Seq::new(k as nat, |i: int| 0u8),
        decreases 16 - k,
    {
        buf.push(0u8);
        k = k + 1;
        assert(buf@ =~= start + Seq::new(k as nat, |i: int| 0u8));
    }
    push_le16(buf, etype);
    push_le16(buf, code);
    let v = value as u32;
    buf.push((v % 256) as u8);
    buf.push(((v / 256) % 256) as u8);
    buf.push(((v / 65536) % 256) as u8);
    buf.push(((v / 16777216) % 256) as u8);
    assert(buf@ =~= start + input_event(etype, code, value));
}

/// A key press and release: key down, sync, key up, sync.
pub open spec fn key_press_events(code: u16) -> Seq<u8> {
    input_event(EV_KEY, code, 1) + input_event(EV_SYN, 0, 0) + input_event(EV_KEY, code, 0)
        + input_event(EV_SYN, 0, 0)
}

pub fn key_events(code: u16) -> (buf: Vec<u8>)
    ensures
        buf@ == key_press_events(code),
        buf@.len() == 4 * EVENT_LEN,
{
    let mut buf: Vec<u8> = Vec::new();
    push_event(&mut buf, EV_KEY, code, 1);
    push_event(&mut buf, EV_SYN, 0, 0);
    push_event(&mut buf, EV_KEY, code, 0);
    push_event(&mut buf, EV_SYN, 0, 0);
    assert(buf@ =~= key_press_events(code));
    buf
}

/// Name of the virtual keyboard.
pub open spec fn device_name() -> Seq<u8> {
    seq![
        0x6cu8, 0x6fu8, 0x67u8, 0x69u8, 0x2du8, 0x68u8, 0x65u8, 0x61u8, 0x64u8,
        0x73u8, 0x65u8, 0x74u8, 0x20u8, 0x72u8, 0x65u8, 0x6du8, 0x61u8, 0x70u8,
    ]
}

/// `struct uinput_user_dev`: the name (`logi-headset remap`) zero-padded to 80
/// bytes, then bus type, vendor, product and version (1) in little-endian, and
/// zeros for `ff_effects_max` and the absolute-axis tables.
pub open spec fn uinput_device() -> Seq<u8> {
    device_name() + Seq::new(62, |i: int| 0u8) + le16(BUS_USB as int) + le16(VID as int) + le16(
        PID as int,
    ) + le16(1) + Seq::new(1028, |i: int| 0u8)
}

fn push_zeros(buf: &mut Vec<u8>, n: usize)
    ensures
        final(buf)@ == old(buf)@ + Seq::new(n as nat, |i: int| 0u8),
{
    let ghost start = buf@;
    let mut k: usize = 0;
    while k < n
        invariant
            k <= n,
            buf@ == start + Seq::new(k as nat, |i: int| 0u8),
        decreases n - k,
    {
        buf.push(0u8);
        k = k + 1;
        assert(buf@ =~= start + Seq::new(k as nat, |i: int| 0u8));
    }
}

pub fn device_record() -> (buf: Vec<u8>)
    ensures
        buf@ == uinput_device(),
        buf@.len() == UINPUT_DEV_LEN,
{
    let mut buf: Vec<u8> = vec![
        0x6cu8, 0x6fu8, 0x67u8, 0x69u8, 0x2du8, 0x68u8, 0x65u8, 0x61u8, 0x64u8,
        0x73u8, 0x65u8, 0x74u8, 0x20u8, 0x72u8, 0x65u8, 0x6du8, 0x61u8, 0x70u8,
    ];
    assert(buf@ =~= device_name());
    push_zeros(&mut buf, 62);
    push_le16(&mut buf, BUS_USB);
    push_le16(&mut buf, VID);
    push_le16(&mut buf, PID);
    push_le16(&mut buf, 1);
    push_zeros(&mut buf, 1028);
    assert(buf@ =~= uinput_device());
    buf
}

} // verus!
