//! USB/IP wire protocol constants, the message header and the device entry.
//!
//! Multi-byte header fields travel big-endian (network byte order).
use vstd::prelude::*;
use crate::codec::{
    be16, be16_at, be32, be32_at, find_nul, lemma_be16_bytes, lemma_be16_roundtrip,
    lemma_be32_bytes, lemma_be32_roundtrip, nul_end, push_be16, push_be32, push_bytes, read_be16,
    read_be32, take_array, utf8_str,
};

verus! {

// ─── Command codes ────────────────────────────────────────────────

/// Request device list (client to server).
pub const OP_REQ_DEVLIST: u16 = 0x8003;

/// Reply with device list (server to client).
pub const OP_REP_DEVLIST: u16 = 0x0005;

/// Request to import a device (client to server).
pub const OP_REQ_IMPORT: u16 = 0x8006;

/// Reply to an import request (server to client).
pub const OP_REP_IMPORT: u16 = 0x0007;

/// Submit a URB (client to server).
pub const USBIP_CMD_SUBMIT: u16 = 0x0001;

/// URB unlink notification (server to client).
pub const USBIP_RET_UNLINK: u16 = 0x0002;

/// URB submission reply (server to client).
pub const USBIP_RET_SUBMIT: u16 = 0x0003;

// ─── Status codes ─────────────────────────────────────────────────

pub const STATUS_SUCCESS: i32 = 0;
/// Device not available.
pub const STATUS_ST_NA: i32 = 1;
/// Device already exported.
pub const STATUS_ST_DEV_BUSY: i32 = 2;
/// Device error.
pub const STATUS_ST_DEV_ERR: i32 = 3;
/// No such device.
pub const STATUS_ST_NODEV: i32 = 4;
/// Generic error.
pub const STATUS_ST_ERROR: i32 = 5;

// ─── URB transfer flags ───────────────────────────────────────────

pub const URB_SHORT_NOT_OK: u32 = 0x0001;
pub const URB_ISO_ASAP: u32 = 0x0002;
pub const URB_NO_TRANSFER_DMA_MAP: u32 = 0x0004;
pub const URB_ZERO_PACKET: u32 = 0x0040;
pub const URB_NO_INTERRUPT: u32 = 0x0080;
pub const URB_FREE_BUFFER: u32 = 0x0100;
pub const URB_DIR_IN: u32 = 0x0200;
pub const URB_DIR_OUT: u32 = 0;

// ─── Header ───────────────────────────────────────────────────────

/// The 8-byte header that starts every USB/IP message.
#[derive(Debug, Clone, Copy, PartialEq, Eq, Structural)]
pub struct UsbIpHeader {
    pub version: u16,
    pub command: u16,
    pub status: i32,
}

/// Wire size of [`UsbIpHeader`].
pub const HEADER_SIZE: usize = 8;

impl UsbIpHeader {
    pub const SIZE: usize = 8;

    /// The wire bytes of this header.
    pub open spec fn spec_bytes(self) -> Seq<u8> {
        be16(self.version) + be16(self.command) + be32(self.status as u32)
    }

    /// The header stored at the start of `s`, when `s` has at least 8 bytes.
    pub open spec fn spec_parse(s: Seq<u8>) -> Option<UsbIpHeader> {
        if s.len() >= 8 {
            Some(
                UsbIpHeader {
                    version: be16_at(s, 0),
                    command: be16_at(s, 2),
                    status: be32_at(s, 4) as i32,
                },
            )
        } else {
            None
        }
    }

    /// The header [`UsbIpHeader::new`] builds.
    pub open spec fn new_spec(command: u16) -> UsbIpHeader {
        UsbIpHeader { version: crate::USBIP_VERSION, command, status: 0 }
    }

    /// A header for `command` with the current protocol version and status 0.
    pub fn new(command: u16) -> (h: Self)
        ensures
            h == Self::new_spec(command),
    {
        UsbIpHeader { version: crate::USBIP_VERSION, command, status: 0 }
    }

    /// A header for `command` with the current protocol version and `status`.
    pub fn with_status(command: u16, status: i32) -> (h: Self)
        ensures
            h == (UsbIpHeader { version: crate::USBIP_VERSION, command, status }),
    {
        UsbIpHeader { version: crate::USBIP_VERSION, command, status }
    }

    /// Append the wire bytes of this header to `buf`.
    pub fn write_to(&self, buf: &mut Vec<u8>)
        ensures
            final(buf)@ == old(buf)@ + self.spec_bytes(),
    {
        push_be16(buf, self.version);
        push_be16(buf, self.command);
        push_be32(buf, self.status as u32);
        assert(final(buf)@ =~= old(buf)@ + self.spec_bytes());
    }

    /// The wire bytes of this header.
    pub fn to_bytes(&self) -> (b: Vec<u8>)
        ensures
            b@ == self.spec_bytes(),
    {
        let mut b = Vec::new();
        self.write_to(&mut b);
        assert(b@ =~= self.spec_bytes());
        b
    }

    /// Decode the header at the start of `bytes`; `None` when fewer than 8
    /// bytes are given.
    pub fn read_from_prefix(bytes: &[u8]) -> (r: Option<Self>)
        ensures
            r == Self::spec_parse(bytes@),
    {
        if bytes.len() < 8 {
            return None;
        }
        let version = read_be16(bytes, 0);
        let command = read_be16(bytes, 2);
        let status = read_be32(bytes, 4) as i32;
        Some(UsbIpHeader { version, command, status })
    }
}

/// Decoding the encoding of a header gives the header back.
pub proof fn law_header_roundtrip(h: UsbIpHeader)
    ensures
        h.spec_bytes().len() == 8,
        UsbIpHeader::spec_parse(h.spec_bytes()) == Some(h),
{
    lemma_be16_roundtrip(h.version);
    lemma_be16_roundtrip(h.command);
    lemma_be32_roundtrip(h.status as u32);
    let b = h.spec_bytes();
    assert(b.subrange(0, 2) =~= be16(h.version));
    assert(b.subrange(2, 4) =~= be16(h.command));
    assert(b.subrange(4, 8) =~= be32(h.status as u32));
    assert(be16_at(b, 2) == be16_at(be16(h.command), 0));
    assert(be32_at(b, 4) == be32_at(be32(h.status as u32), 0));
    let s = h.status;
    assert((s as u32) as i32 == s) by (bit_vector);
}

/// Encoding a decoded header gives back the bytes it was read from.
pub proof fn law_header_reencodes(s: Seq<u8>)
    requires
        s.len() >= 8,
    ensures
        UsbIpHeader::spec_parse(s).unwrap().spec_bytes() =~= s.subrange(0, 8),
{
    let h = UsbIpHeader::spec_parse(s).unwrap();
    lemma_be16_bytes(s, 0);
    lemma_be16_bytes(s, 2);
    lemma_be32_bytes(s, 4);
    let x = be32_at(s, 4);
    assert((x as i32) as u32 == x) by (bit_vector);
    assert(s.subrange(0, 8) =~= s.subrange(0, 2) + s.subrange(2, 4) + s.subrange(4, 8));
}

// ─── Device entry ─────────────────────────────────────────────────

/// A single device entry of OP_REP_DEVLIST / OP_REP_IMPORT (312 bytes).
#[derive(Debug, Clone, Copy)]
pub struct UsbIpDeviceEntry {
    pub path: [u8; 256],
    pub busid: [u8; 32],
    pub busnum: u32,
    pub devnum: u32,
    pub speed: u32,
    pub id_vendor: u16,
    pub id_product: u16,
    pub bcd_device: u16,
    pub b_device_class: u8,
    pub b_device_sub_class: u8,
    pub b_device_protocol: u8,
    pub b_configuration_value: u8,
    pub b_num_configurations: u8,
    pub b_num_interfaces: u8,
}

/// Wire size of [`UsbIpDeviceEntry`].
pub const DEVICE_ENTRY_SIZE: usize = 312;

/// The characters a NUL-terminated byte field reads as: the bytes up to the
/// first zero when they are valid UTF-8, else `"???"`.
pub open spec fn field_text(field: Seq<u8>, fallback: Seq<char>) -> Seq<char> {
    let prefix = field.subrange(0, nul_end(field));
    if vstd::utf8::valid_utf8(prefix) {
        vstd::utf8::decode_utf8(prefix)
    } else {
        fallback
    }
}

impl UsbIpDeviceEntry {
    pub const SIZE: usize = 312;

    /// The wire bytes of this entry.
    pub open spec fn spec_bytes(self) -> Seq<u8> {
        self.path@ + self.busid@ + be32(self.busnum) + be32(self.devnum) + be32(self.speed) + be16(
            self.id_vendor,
        ) + be16(self.id_product) + be16(self.bcd_device) + seq![
            self.b_device_class,
            self.b_device_sub_class,
            self.b_device_protocol,
            self.b_configuration_value,
            self.b_num_configurations,
            self.b_num_interfaces,
        ]
    }

    /// The entry stored at the start of `s`, when `s` has at least 312 bytes.
    pub open spec fn spec_parse(s: Seq<u8>) -> Option<UsbIpDeviceEntry> {
        if s.len() >= 312 {
            Some(
                UsbIpDeviceEntry {
                    path: arbitrary(),
                    busid: arbitrary(),
                    busnum: be32_at(s, 288),
                    devnum: be32_at(s, 292),
                    speed: be32_at(s, 296),
                    id_vendor: be16_at(s, 300),
                    id_product: be16_at(s, 302),
                    bcd_device: be16_at(s, 304),
                    b_device_class: s[306],
                    b_device_sub_class: s[307],
                    b_device_protocol: s[308],
                    b_configuration_value: s[309],
                    b_num_configurations: s[310],
                    b_num_interfaces: s[311],
                },
            )
        } else {
            None
        }
    }

    /// Whether `e` is the entry stored at the start of `s`.
    pub open spec fn parsed_from(e: UsbIpDeviceEntry, s: Seq<u8>) -> bool {
        &&& s.len() >= 312
        &&& e.path@ == s.subrange(0, 256)
        &&& e.busid@ == s.subrange(256, 288)
        &&& Self::spec_parse(s) matches Some(p) && p.busnum == e.busnum && p.devnum == e.devnum
            && p.speed == e.speed && p.id_vendor == e.id_vendor && p.id_product == e.id_product
            && p.bcd_device == e.bcd_device && p.b_device_class == e.b_device_class
            && p.b_device_sub_class == e.b_device_sub_class && p.b_device_protocol
            == e.b_device_protocol && p.b_configuration_value == e.b_configuration_value
            && p.b_num_configurations == e.b_num_configurations && p.b_num_interfaces
            == e.b_num_interfaces
    }

    /// Append the wire bytes of this entry to `buf`.
    pub fn write_to(&self, buf: &mut Vec<u8>)
        ensures
            final(buf)@ == old(buf)@ + self.spec_bytes(),
    {
        push_bytes(buf, &self.path);
        push_bytes(buf, &self.busid);
        push_be32(buf, self.busnum);
        push_be32(buf, self.devnum);
        push_be32(buf, self.speed);
        push_be16(buf, self.id_vendor);
        push_be16(buf, self.id_product);
        push_be16(buf, self.bcd_device);
        buf.push(self.b_device_class);
        buf.push(self.b_device_sub_class);
        buf.push(self.b_device_protocol);
        buf.push(self.b_configuration_value);
        buf.push(self.b_num_configurations);
        buf.push(self.b_num_interfaces);
        assert(final(buf)@ =~= old(buf)@ + self.spec_bytes());
    }

    /// The wire bytes of this entry.
    pub fn to_bytes(&self) -> (b: Vec<u8>)
        ensures
            b@ == self.spec_bytes(),
    {
        let mut b = Vec::new();
        self.write_to(&mut b);
        assert(b@ =~= self.spec_bytes());
        b
    }

    /// Decode the entry at the start of `bytes`; `None` when fewer than 312
    /// bytes are given.
    pub fn read_from_prefix(bytes: &[u8]) -> (r: Option<Self>)
        ensures
            r is Some <==> bytes@.len() >= 312,
            r matches Some(e) ==> Self::parsed_from(e, bytes@),
    {
        if bytes.len() < 312 {
            return None;
        }
        let path: [u8; 256] = take_array(bytes, 0);
        let busid: [u8; 32] = take_array(bytes, 256);
        Some(
            UsbIpDeviceEntry {
                path,
                busid,
                busnum: read_be32(bytes, 288),
                devnum: read_be32(bytes, 292),
                speed: read_be32(bytes, 296),
                id_vendor: read_be16(bytes, 300),
                id_product: read_be16(bytes, 302),
                bcd_device: read_be16(bytes, 304),
                b_device_class: bytes[306],
                b_device_sub_class: bytes[307],
                b_device_protocol: bytes[308],
                b_configuration_value: bytes[309],
                b_num_configurations: bytes[310],
                b_num_interfaces: bytes[311],
            },
        )
    }

    /// The bus id as text: the bytes before the first NUL when they are valid
    /// UTF-8, else `"???"`.
    pub fn busid_str(&self) -> (r: &str)
        ensures
            r@ == field_text(self.busid@, "???"@),
    {
        let field: &[u8] = self.busid.as_slice();
        let end = find_nul(field);
        let prefix = &field[0..end];
        match utf8_str(prefix) {
            Some(s) => s,
            None => "???",
        }
    }

    /// The sysfs path as text: the bytes before the first NUL when they are
    /// valid UTF-8, else `"???"`.
    pub fn path_str(&self) -> (r: &str)
        ensures
            r@ == field_text(self.path@, "???"@),
    {
        let field: &[u8] = self.path.as_slice();
        let end = find_nul(field);
        let prefix = &field[0..end];
        match utf8_str(prefix) {
            Some(s) => s,
            None => "???",
        }
    }

    /// Vendor id.
    pub fn vid(&self) -> (r: u16)
        ensures
            r == self.id_vendor,
    {
        self.id_vendor
    }

    /// Product id.
    pub fn pid(&self) -> (r: u16)
        ensures
            r == self.id_product,
    {
        self.id_product
    }

    /// Wire speed number.
    pub fn speed_val(&self) -> (r: u32)
        ensures
            r == self.speed,
    {
        self.speed
    }
}

/// Decoding the encoding of a device entry gives the entry back.
pub proof fn law_device_entry_roundtrip(e: UsbIpDeviceEntry)
    ensures
        e.spec_bytes().len() == 312,
        UsbIpDeviceEntry::parsed_from(e, e.spec_bytes()),
{
    let b = e.spec_bytes();
    assert(b.len() == 312);
    assert(b.subrange(0, 256) =~= e.path@);
    assert(b.subrange(256, 288) =~= e.busid@);
    lemma_be32_roundtrip(e.busnum);
    lemma_be32_roundtrip(e.devnum);
    lemma_be32_roundtrip(e.speed);
    lemma_be16_roundtrip(e.id_vendor);
    lemma_be16_roundtrip(e.id_product);
    lemma_be16_roundtrip(e.bcd_device);
    assert(b.subrange(288, 292) =~= be32(e.busnum));
    assert(b.subrange(292, 296) =~= be32(e.devnum));
    assert(b.subrange(296, 300) =~= be32(e.speed));
    assert(b.subrange(300, 302) =~= be16(e.id_vendor));
    assert(b.subrange(302, 304) =~= be16(e.id_product));
    assert(b.subrange(304, 306) =~= be16(e.bcd_device));
    assert(be32_at(b, 288) == be32_at(be32(e.busnum), 0));
    assert(be32_at(b, 292) == be32_at(be32(e.devnum), 0));
    assert(be32_at(b, 296) == be32_at(be32(e.speed), 0));
    assert(be16_at(b, 300) == be16_at(be16(e.id_vendor), 0));
    assert(be16_at(b, 302) == be16_at(be16(e.id_product), 0));
    assert(be16_at(b, 304) == be16_at(be16(e.bcd_device), 0));
}

/// The variable-length part of OP_REP_IMPORT: device entry + descriptor tree.
#[derive(Debug, Clone)]
pub struct UsbIpImportReply {
    pub device: UsbIpDeviceEntry,
    pub descriptors: Vec<u8>,
}

} // verus!
