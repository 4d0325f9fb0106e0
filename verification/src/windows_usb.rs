//! USB devices as the Windows SetupAPI reports them: reading VID and PID
//! from a hardware id, and the USB/IP device entry of a device.
use vstd::prelude::*;
use vstd::string::StringSliceAdditionalSpecFns;
use crate::codec::{copy_prefix_padded, parse_unsigned, parse_unsigned_exec, zero_padded};
use crate::protocol::UsbIpDeviceEntry;

verus! {

/// A USB device found through SetupAPI.
#[derive(Debug, Clone)]
pub struct UsbDeviceInfo {
    pub vendor_id: u16,
    pub product_id: u16,
    /// Device description (from the registry).
    pub description: String,
    /// Instance id, e.g. `USB\VID_046D&PID_C261\123456`.
    pub instance_id: String,
    /// Hardware id, e.g. `USB\VID_046D&PID_C261&REV_0100`.
    pub hardware_id: String,
    /// 0 = unknown, 1 = low, 2 = full, 3 = high, 4 = super.
    pub speed: u32,
}

impl Default for UsbDeviceInfo {
    /// No ids, empty texts, unknown speed.
    fn default() -> (d: Self)
        ensures
            d.vendor_id == 0,
            d.product_id == 0,
            d.description@.len() == 0,
            d.instance_id@.len() == 0,
            d.hardware_id@.len() == 0,
            d.speed == 0,
    {
        UsbDeviceInfo {
            vendor_id: 0,
            product_id: 0,
            description: String::new(),
            instance_id: String::new(),
            hardware_id: String::new(),
            speed: 0,
        }
    }
}

// ─── VID / PID in a hardware id ───────────────────────────────────

/// The bytes of `VID_`.
pub open spec fn vid_tag() -> Seq<u8> {
    seq![86u8, 73u8, 68u8, 95u8]
}

/// The bytes of `PID_`.
pub open spec fn pid_tag() -> Seq<u8> {
    seq![80u8, 73u8, 68u8, 95u8]
}

/// Position of the first occurrence of `tag` in `s` at or after `i`, or
/// -1 when there is none.
pub open spec fn find_from(s: Seq<u8>, tag: Seq<u8>, i: int) -> int
    decreases s.len() - i,
{
    if i < 0 || i >= s.len() || i + tag.len() > s.len() {
        -1
    } else if s.subrange(i, i + tag.len()) == tag {
        i
    } else {
        find_from(s, tag, i + 1)
    }
}

/// The four hex digits after the first `tag` in `s`, as a number; `None`
/// when there is no `tag` or the four characters are not a hex number.
pub open spec fn tag_value(s: Seq<u8>, tag: Seq<u8>) -> Option<u16> {
    let i = find_from(s, tag, 0);
    if i < 0 {
        None
    } else {
        match parse_unsigned(s.subrange(i + 4, i + 8), 16, 0xffff) {
            Some(v) => Some(v as u16),
            None => None,
        }
    }
}

/// Whether the four characters after the first `tag` (if any) can be
/// sliced out of the text: they lie within it and end on a character
/// boundary.
pub open spec fn tag_field_in_bounds(s: Seq<u8>, tag: Seq<u8>) -> bool {
    let i = find_from(s, tag, 0);
    i >= 0 ==> i + 8 <= s.len() && vstd::utf8::is_char_boundary(s, i + 8)
}

/// Position of the first occurrence of the 4-byte `tag` in `s`.
fn find_tag(s: &[u8], tag: [u8; 4]) -> (r: Option<usize>)
    ensures
        r matches Some(i) ==> i == find_from(s@, tag@, 0) && i + 4 <= s@.len(),
        r is None ==> find_from(s@, tag@, 0) == -1,
{
    if s.len() < 4 {
        return None;
    }
    let mut i: usize = 0;
    while i <= s.len() - 4
        invariant
            i <= s@.len() - 3,
            s@.len() >= 4,
            tag@.len() == 4,
            find_from(s@, tag@, i as int) == find_from(s@, tag@, 0),
        decreases s@.len() - i,
    {
        if s[i] == tag[0] && s[i + 1] == tag[1] && s[i + 2] == tag[2] && s[i + 3] == tag[3] {
            assert(s@.subrange(i as int, i + 4) =~= tag@);
            return Some(i);
        }
        assert(s@.subrange(i as int, i + 4) != tag@) by {
            if s@.subrange(i as int, i + 4) == tag@ {
                assert(s@.subrange(i as int, i + 4)[0] == tag@[0]);
                assert(s@.subrange(i as int, i + 4)[1] == tag@[1]);
                assert(s@.subrange(i as int, i + 4)[2] == tag@[2]);
                assert(s@.subrange(i as int, i + 4)[3] == tag@[3]);
            }
        }
        i = i + 1;
    }
    None
}

/// The value of the four hex digits after `tag`, when `tag` occurs.
fn tag_hex(s: &[u8], tag: [u8; 4]) -> (r: Option<u16>)
    requires
        tag_field_in_bounds(s@, tag@),
    ensures
        r == tag_value(s@, tag@),
{
    let n = s.len();
    match find_tag(s, tag) {
        None => None,
        Some(i) => {
            assert(i + 8 <= s@.len());
            match parse_unsigned_exec(&s[i + 4..i + 8], 16, 0xffff) {
                Some(v) => Some(v as u16),
                None => None,
            }
        },
    }
}

/// Read VID and PID from a USB hardware id such as
/// `USB\VID_046D&PID_C261&REV_0100`: the four hex digits after the first
/// `VID_` and after the first `PID_`, in either order. A value that is
/// missing or not hex leaves its output unchanged.
pub fn parse_vid_pid_from_hardware_id(hw_id: &str, vid: &mut u16, pid: &mut u16)
    requires
        tag_field_in_bounds(hw_id.spec_bytes(), vid_tag()),
        tag_field_in_bounds(hw_id.spec_bytes(), pid_tag()),
    ensures
        *final(vid) == (match tag_value(hw_id.spec_bytes(), vid_tag()) {
            Some(v) => v,
            None => *old(vid),
        }),
        *final(pid) == (match tag_value(hw_id.spec_bytes(), pid_tag()) {
            Some(p) => p,
            None => *old(pid),
        }),
{
    let s = hw_id.as_bytes();
    let vtag: [u8; 4] = [86u8, 73u8, 68u8, 95u8];
    let ptag: [u8; 4] = [80u8, 73u8, 68u8, 95u8];
    assert(vtag@ =~= vid_tag());
    assert(ptag@ =~= pid_tag());
    match tag_hex(s, vtag) {
        Some(v) => *vid = v,
        None => {},
    }
    match tag_hex(s, ptag) {
        Some(p) => *pid = p,
        None => {},
    }
}

// ─── Device entry ─────────────────────────────────────────────────

/// Where the last segment of `s` starts: just after its last byte `b`, or 0
/// when `b` does not occur.
pub open spec fn after_last(s: Seq<u8>, b: u8) -> int
    decreases s.len(),
{
    if s.len() == 0 {
        0
    } else if s.last() == b {
        s.len() as int
    } else {
        after_last(s.drop_last(), b)
    }
}

/// ASCII `\`, the separator of an instance id's segments.
pub const INSTANCE_ID_SEPARATOR: u8 = 92;

/// Start of the last segment of `s`.
fn last_segment_start(s: &[u8], b: u8) -> (r: usize)
    ensures
        r == after_last(s@, b),
        r <= s@.len(),
{
    let mut i: usize = s.len();
    assert(s@.subrange(0, i as int) =~= s@);
    while i > 0 && s[i - 1] != b
        invariant
            i <= s@.len(),
            after_last(s@.subrange(0, i as int), b) == after_last(s@, b),
        decreases i,
    {
        assert(s@.subrange(0, i as int).drop_last() =~= s@.subrange(0, i - 1));
        i = i - 1;
    }
    i
}

/// The USB/IP entry of a device: its instance id as the path, the last
/// segment of the instance id as the bus id (each cut to fit with a
/// terminating NUL), its ids and speed, and zero elsewhere.
pub fn to_usbip_device_entry(info: &UsbDeviceInfo) -> (e: UsbIpDeviceEntry)
    ensures
        e.path@ == zero_padded(vstd::utf8::encode_utf8(info.instance_id@), 255, 256),
        e.busid@ == zero_padded(
            vstd::utf8::encode_utf8(info.instance_id@).subrange(
                after_last(vstd::utf8::encode_utf8(info.instance_id@), INSTANCE_ID_SEPARATOR),
                vstd::utf8::encode_utf8(info.instance_id@).len() as int,
            ),
            31,
            32,
        ),
        e.busnum == 0,
        e.devnum == 0,
        e.speed == info.speed,
        e.id_vendor == info.vendor_id,
        e.id_product == info.product_id,
        e.bcd_device == 0,
        e.b_device_class == 0,
        e.b_device_sub_class == 0,
        e.b_device_protocol == 0,
        e.b_configuration_value == 0,
        e.b_num_configurations == 0,
        e.b_num_interfaces == 0,
{
    let id: &[u8] = info.instance_id.as_str().as_bytes();
    let path: [u8; 256] = copy_prefix_padded::<256>(id, 255);
    let start = last_segment_start(id, INSTANCE_ID_SEPARATOR);
    let busid: [u8; 32] = copy_prefix_padded::<32>(&id[start..id.len()], 31);
    UsbIpDeviceEntry {
        path,
        busid,
        busnum: 0,
        devnum: 0,
        speed: info.speed,
        id_vendor: info.vendor_id,
        id_product: info.product_id,
        bcd_device: 0,
        b_device_class: 0,
        b_device_sub_class: 0,
        b_device_protocol: 0,
        b_configuration_value: 0,
        b_num_configurations: 0,
        b_num_interfaces: 0,
    }
}

} // verus!
