//! The server side of the wire protocol: configuration, request dispatch,
//! the device-list and import replies, and the reading of URB frames.
use vstd::prelude::*;
use crate::bandwidth::BandwidthLimit;
use crate::codec::{be32, find_nul, nul_end, push_be32, push_bytes};
use crate::protocol::{
    UsbIpDeviceEntry, UsbIpHeader, OP_REP_DEVLIST, OP_REP_IMPORT, OP_REQ_DEVLIST, OP_REQ_IMPORT,
    STATUS_ST_DEV_BUSY, STATUS_ST_NODEV, USBIP_CMD_SUBMIT,
};
use crate::urb::UsbIpCmdSubmit;

verus! {

/// Server configuration.
#[derive(Debug, Clone)]
pub struct ServerConfig {
    pub bind_address: String,
    pub port: u16,
    pub allowed_vid_pid: Vec<(u16, u16)>,
    pub require_confirmation: bool,
    pub encryption_enabled: bool,
    pub tcp_nodelay: bool,
    /// Global default bandwidth limit (0 = unlimited).
    pub max_bandwidth: BandwidthLimit,
    /// Per-client bandwidth override.
    pub per_client_bandwidth: Option<BandwidthLimit>,
}

impl Default for ServerConfig {
    /// Listen on all addresses at the USB/IP port, export every device, ask
    /// for confirmation, no encryption, `TCP_NODELAY`, no bandwidth cap.
    fn default() -> (c: Self)
        ensures
            c.bind_address@ == "0.0.0.0"@,
            c.port == crate::USBIP_PORT,
            c.allowed_vid_pid@.len() == 0,
            c.require_confirmation,
            !c.encryption_enabled,
            c.tcp_nodelay,
            c.max_bandwidth.bytes_per_sec == 0,
            c.per_client_bandwidth is None,
    {
        ServerConfig {
            bind_address: "0.0.0.0".to_owned(),
            port: crate::USBIP_PORT,
            allowed_vid_pid: Vec::new(),
            require_confirmation: true,
            encryption_enabled: false,
            tcp_nodelay: true,
            max_bandwidth: BandwidthLimit::unlimited(),
            per_client_bandwidth: None,
        }
    }
}

// ─── Request dispatch ─────────────────────────────────────────────

/// What a client's first message asks for.
#[derive(Debug, Clone, Copy, PartialEq, Eq, Structural)]
pub enum ClientRequest {
    DeviceList,
    Import,
    /// Any other command; it is logged and the connection ends.
    Unknown(u16),
}

/// The request a header's command code names.
pub open spec fn request_of(command: u16) -> ClientRequest {
    if command == OP_REQ_DEVLIST {
        ClientRequest::DeviceList
    } else if command == OP_REQ_IMPORT {
        ClientRequest::Import
    } else {
        ClientRequest::Unknown(command)
    }
}

/// Classify a client's opening header.
pub fn classify_request(header: &UsbIpHeader) -> (r: ClientRequest)
    ensures
        r == request_of(header.command),
{
    if header.command == OP_REQ_DEVLIST {
        ClientRequest::DeviceList
    } else if header.command == OP_REQ_IMPORT {
        ClientRequest::Import
    } else {
        ClientRequest::Unknown(header.command)
    }
}

// ─── OP_REP_DEVLIST ───────────────────────────────────────────────

/// The wire bytes of a sequence of device entries, one after another.
pub open spec fn entries_bytes(devices: Seq<UsbIpDeviceEntry>) -> Seq<u8>
    decreases devices.len(),
{
    if devices.len() == 0 {
        Seq::empty()
    } else {
        entries_bytes(devices.drop_last()) + devices.last().spec_bytes()
    }
}

/// The OP_REP_DEVLIST reply for `devices`: the header, the device count as
/// a big-endian `u32`, then the entries.
pub open spec fn devlist_reply_bytes(devices: Seq<UsbIpDeviceEntry>) -> Seq<u8> {
    UsbIpHeader::new_spec(OP_REP_DEVLIST).spec_bytes() + be32(devices.len() as u32)
        + entries_bytes(devices)
}

/// Build the OP_REP_DEVLIST reply for `devices`.
pub fn devlist_reply(devices: &[UsbIpDeviceEntry]) -> (r: Vec<u8>)
    ensures
        r@ == devlist_reply_bytes(devices@),
{
    let mut reply: Vec<u8> = Vec::new();
    UsbIpHeader::new(OP_REP_DEVLIST).write_to(&mut reply);
    push_be32(&mut reply, devices.len() as u32);
    let ghost prefix = reply@;
    let mut i: usize = 0;
    while i < devices.len()
        invariant
            i <= devices@.len(),
            prefix == UsbIpHeader::new_spec(OP_REP_DEVLIST).spec_bytes() + be32(
                devices@.len() as u32,
            ),
            reply@ == prefix + entries_bytes(devices@.subrange(0, i as int)),
        decreases devices@.len() - i,
    {
        devices[i].write_to(&mut reply);
        proof {
            let s = devices@.subrange(0, i + 1);
            assert(s.drop_last() =~= devices@.subrange(0, i as int));
            assert(s.last() == devices@[i as int]);
        }
        i = i + 1;
    }
    assert(devices@.subrange(0, devices@.len() as int) =~= devices@);
    reply
}

// ─── OP_REQ_IMPORT / OP_REP_IMPORT ────────────────────────────────

/// Lossy UTF-8 decoding: invalid sequences become U+FFFD.
pub uninterp spec fn lossy_utf8(bytes: Seq<u8>) -> Seq<char>;

/// `String::from_utf8_lossy`: the text of `bytes` with each invalid
/// sequence replaced by U+FFFD; valid UTF-8 decodes exactly. The
/// replacement of invalid input is not written out here.
#[verifier::external_body]
fn utf8_lossy(bytes: &[u8]) -> (s: String)
    ensures
        s@ == lossy_utf8(bytes@),
        vstd::utf8::valid_utf8(bytes@) ==> s@ == vstd::utf8::decode_utf8(bytes@),
{
    String::from_utf8_lossy(bytes).into_owned()
}

/// The bus id an import request carries in `field`: the bytes before the
/// first NUL (or all of them), decoded lossily.
pub fn busid_from_request(field: &[u8]) -> (r: String)
    ensures
        r@ == lossy_utf8(field@.subrange(0, nul_end(field@))),
{
    let end = find_nul(field);
    utf8_lossy(&field[0..end])
}

/// How the server answers an import request.
#[derive(Debug, Clone, Copy)]
pub enum ImportDecision {
    /// No such device: reply with `ST_NODEV`.
    NoDevice,
    /// The device is already exported: reply with `ST_DEV_BUSY`.
    Busy,
    /// Export the device.
    Accept(UsbIpDeviceEntry),
}

/// Decide an import from the device lookup and whether the device is
/// already exported; a missing device wins over a busy one.
pub fn decide_import(entry: Option<UsbIpDeviceEntry>, already_exported: bool) -> (r:
    ImportDecision)
    ensures
        entry is None ==> r is NoDevice,
        entry is Some && already_exported ==> r is Busy,
        entry is Some && !already_exported ==> r == ImportDecision::Accept(entry->0),
{
    match entry {
        None => ImportDecision::NoDevice,
        Some(e) => if already_exported {
            ImportDecision::Busy
        } else {
            ImportDecision::Accept(e)
        },
    }
}

/// The header-only OP_REP_IMPORT reply carrying a failure `status`.
pub fn import_status_reply(status: i32) -> (r: Vec<u8>)
    ensures
        r@ == (UsbIpHeader { version: crate::USBIP_VERSION, command: OP_REP_IMPORT, status }).spec_bytes(),
{
    UsbIpHeader::with_status(OP_REP_IMPORT, status).to_bytes()
}

/// The reply for a decision that refuses the import: `ST_NODEV` or
/// `ST_DEV_BUSY`.
pub fn refusal_status(d: &ImportDecision) -> (r: Option<i32>)
    ensures
        d is NoDevice ==> r == Some(STATUS_ST_NODEV),
        d is Busy ==> r == Some(STATUS_ST_DEV_BUSY),
        d is Accept ==> r is None,
{
    match d {
        ImportDecision::NoDevice => Some(STATUS_ST_NODEV),
        ImportDecision::Busy => Some(STATUS_ST_DEV_BUSY),
        ImportDecision::Accept(_) => None,
    }
}

/// The successful OP_REP_IMPORT reply: header, device entry, descriptors.
pub open spec fn import_reply_bytes(entry: UsbIpDeviceEntry, descriptors: Seq<u8>) -> Seq<u8> {
    UsbIpHeader::new_spec(OP_REP_IMPORT).spec_bytes() + entry.spec_bytes() + descriptors
}

/// Build the successful OP_REP_IMPORT reply.
pub fn import_reply(entry: &UsbIpDeviceEntry, descriptors: &[u8]) -> (r: Vec<u8>)
    ensures
        r@ == import_reply_bytes(*entry, descriptors@),
{
    let mut reply: Vec<u8> = Vec::new();
    UsbIpHeader::new(OP_REP_IMPORT).write_to(&mut reply);
    entry.write_to(&mut reply);
    push_bytes(&mut reply, descriptors);
    assert(reply@ =~= import_reply_bytes(*entry, descriptors@));
    reply
}

// ─── URB frames ───────────────────────────────────────────────────

/// Size of the message header at the start of a frame.
pub const FRAME_HEADER_SIZE: usize = 8;

/// Where the OUT data of a CMD_SUBMIT starts, counted from the end of the
/// message header.
pub const SUBMIT_DATA_OFFSET: usize = 48;

/// What the URB loop does with one frame.
#[derive(Debug, Clone, Copy)]
pub enum UrbFrame {
    /// The frame is short or malformed: end the loop.
    Stop,
    /// A command other than CMD_SUBMIT: skip it.
    Ignore(u16),
    /// A CMD_SUBMIT whose OUT data is `frame[data_start..data_start + data_len]`.
    Submit { cmd: UsbIpCmdSubmit, data_start: usize, data_len: usize },
}

/// Whether a command carries OUT data in its frame.
pub open spec fn carries_out_data(cmd: UsbIpCmdSubmit) -> bool {
    !cmd.spec_is_in() && cmd.transfer_buffer_length > 0
}

/// The command code of a frame with at least a header.
pub open spec fn frame_command(f: Seq<u8>) -> u16 {
    UsbIpHeader::spec_parse(f)->0.command
}

/// How a CMD_SUBMIT frame reads: its command is parsed from the bytes after
/// the header, and OUT data of the command's transfer length follows 48
/// bytes after the header when the command carries any.
pub open spec fn submit_frame(f: Seq<u8>, r: UrbFrame) -> bool {
    let p = f.subrange(FRAME_HEADER_SIZE as int, f.len() as int);
    match r {
        UrbFrame::Stop => p.len() < SUBMIT_DATA_OFFSET || exists|c: UsbIpCmdSubmit|
            UsbIpCmdSubmit::parsed_from(c, p) && carries_out_data(c) && p.len() < SUBMIT_DATA_OFFSET
                + c.transfer_buffer_length,
        UrbFrame::Submit { cmd, data_start, data_len } => {
            &&& p.len() >= SUBMIT_DATA_OFFSET
            &&& UsbIpCmdSubmit::parsed_from(cmd, p)
            &&& data_start == FRAME_HEADER_SIZE + SUBMIT_DATA_OFFSET
            &&& data_len == (if carries_out_data(cmd) {
                cmd.transfer_buffer_length as int
            } else {
                0
            })
            &&& data_start + data_len <= f.len()
        },
        UrbFrame::Ignore(_) => false,
    }
}

/// Read one frame of the URB loop.
pub fn parse_urb_frame(frame: &[u8]) -> (r: UrbFrame)
    ensures
        frame@.len() < FRAME_HEADER_SIZE ==> r is Stop,
        frame@.len() >= FRAME_HEADER_SIZE && frame_command(frame@) != USBIP_CMD_SUBMIT ==> r
            == UrbFrame::Ignore(frame_command(frame@)),
        frame@.len() >= FRAME_HEADER_SIZE && frame_command(frame@) == USBIP_CMD_SUBMIT
            ==> submit_frame(frame@, r),
{
    let header = match UsbIpHeader::read_from_prefix(frame) {
        Some(h) => h,
        None => return UrbFrame::Stop,
    };
    if header.command != USBIP_CMD_SUBMIT {
        return UrbFrame::Ignore(header.command);
    }
    let payload: &[u8] = &frame[FRAME_HEADER_SIZE..frame.len()];
    if payload.len() < SUBMIT_DATA_OFFSET {
        return UrbFrame::Stop;
    }
    let cmd = match UsbIpCmdSubmit::read_from_prefix(payload) {
        Some(c) => c,
        None => return UrbFrame::Stop,
    };
    let n = cmd.transfer_buffer_length as usize;
    if !cmd.is_in() && n > 0 {
        if payload.len() - SUBMIT_DATA_OFFSET < n {
            proof {
                let p = frame@.subrange(FRAME_HEADER_SIZE as int, frame@.len() as int);
                assert(payload@ == p);
                assert(UsbIpCmdSubmit::parsed_from(cmd, p) && carries_out_data(cmd) && p.len()
                    < SUBMIT_DATA_OFFSET + cmd.transfer_buffer_length);
            }
            return UrbFrame::Stop;
        }
        UrbFrame::Submit { cmd, data_start: FRAME_HEADER_SIZE + SUBMIT_DATA_OFFSET, data_len: n }
    } else {
        UrbFrame::Submit { cmd, data_start: FRAME_HEADER_SIZE + SUBMIT_DATA_OFFSET, data_len: 0 }
    }
}

} // verus!
