//! USB Request Block (URB) wire types: CMD_SUBMIT, RET_SUBMIT, RET_UNLINK,
//! plus the in-memory message and the reusable URB buffer.
use vstd::prelude::*;
use crate::codec::{
    be32, be32_at, lemma_be32_roundtrip, push_be32, push_bytes, read_be32, take_array,
};
use crate::protocol::{UsbIpHeader, URB_DIR_IN, USBIP_CMD_SUBMIT, USBIP_RET_SUBMIT, USBIP_RET_UNLINK};

verus! {

/// USBIP_CMD_SUBMIT: the client asks for a USB transfer.
///
/// The fixed part is 44 bytes on the wire; in a URB buffer, data for OUT
/// transfers follows at offset [`UsbIpCmdSubmit::HEADER_SIZE`].
#[derive(Debug, Clone, Copy, PartialEq, Eq)]
pub struct UsbIpCmdSubmit {
    pub seqnum: u32,
    pub devid: u32,
    pub direction: u32,
    pub ep: u32,
    pub transfer_flags: u32,
    pub transfer_buffer_length: u32,
    pub start_frame: u32,
    pub number_of_packets: u32,
    pub interval: u32,
    pub setup: [u8; 8],
}

/// Number of bytes the fixed fields of CMD_SUBMIT and RET_SUBMIT occupy.
pub const SUBMIT_FIELDS_SIZE: usize = 44;

impl UsbIpCmdSubmit {
    /// Room reserved for the command's fixed fields (44 bytes, rounded up
    /// to 48) in front of its OUT data in a URB buffer.
    pub const HEADER_SIZE: usize = 48;

    /// The wire bytes of the fixed fields.
    pub open spec fn spec_bytes(self) -> Seq<u8> {
        be32(self.seqnum) + be32(self.devid) + be32(self.direction) + be32(self.ep) + be32(
            self.transfer_flags,
        ) + be32(self.transfer_buffer_length) + be32(self.start_frame) + be32(
            self.number_of_packets,
        ) + be32(self.interval) + self.setup@
    }

    /// Whether `c` is the command stored at the start of `s`.
    pub open spec fn parsed_from(c: UsbIpCmdSubmit, s: Seq<u8>) -> bool {
        &&& s.len() >= 44
        &&& c.seqnum == be32_at(s, 0)
        &&& c.devid == be32_at(s, 4)
        &&& c.direction == be32_at(s, 8)
        &&& c.ep == be32_at(s, 12)
        &&& c.transfer_flags == be32_at(s, 16)
        &&& c.transfer_buffer_length == be32_at(s, 20)
        &&& c.start_frame == be32_at(s, 24)
        &&& c.number_of_packets == be32_at(s, 28)
        &&& c.interval == be32_at(s, 32)
        &&& c.setup@ == s.subrange(36, 44)
    }

    /// Decode the command at the start of `bytes`; `None` when fewer than 44
    /// bytes are given.
    pub fn read_from_prefix(bytes: &[u8]) -> (r: Option<Self>)
        ensures
            r is Some <==> bytes@.len() >= 44,
            r matches Some(c) ==> Self::parsed_from(c, bytes@),
    {
        if bytes.len() < 44 {
            return None;
        }
        let setup: [u8; 8] = take_array(bytes, 36);
        Some(
            UsbIpCmdSubmit {
                seqnum: read_be32(bytes, 0),
                devid: read_be32(bytes, 4),
                direction: read_be32(bytes, 8),
                ep: read_be32(bytes, 12),
                transfer_flags: read_be32(bytes, 16),
                transfer_buffer_length: read_be32(bytes, 20),
                start_frame: read_be32(bytes, 24),
                number_of_packets: read_be32(bytes, 28),
                interval: read_be32(bytes, 32),
                setup,
            },
        )
    }

    /// Append the wire bytes of the fixed fields to `buf`.
    pub fn write_to(&self, buf: &mut Vec<u8>)
        ensures
            final(buf)@ == old(buf)@ + self.spec_bytes(),
    {
        push_be32(buf, self.seqnum);
        push_be32(buf, self.devid);
        push_be32(buf, self.direction);
        push_be32(buf, self.ep);
        push_be32(buf, self.transfer_flags);
        push_be32(buf, self.transfer_buffer_length);
        push_be32(buf, self.start_frame);
        push_be32(buf, self.number_of_packets);
        push_be32(buf, self.interval);
        push_bytes(buf, self.setup.as_slice());
        assert(final(buf)@ =~= old(buf)@ + self.spec_bytes());
    }

    pub fn seqnum(&self) -> (r: u32)
        ensures
            r == self.seqnum,
    {
        self.seqnum
    }

    pub fn devid(&self) -> (r: u32)
        ensures
            r == self.devid,
    {
        self.devid
    }

    pub fn dir(&self) -> (r: u32)
        ensures
            r == self.direction,
    {
        self.direction
    }

    pub fn ep_num(&self) -> (r: u32)
        ensures
            r == self.ep,
    {
        self.ep
    }

    pub fn flags(&self) -> (r: u32)
        ensures
            r == self.transfer_flags,
    {
        self.transfer_flags
    }

    pub fn data_len(&self) -> (r: u32)
        ensures
            r == self.transfer_buffer_length,
    {
        self.transfer_buffer_length
    }

    pub fn interval_val(&self) -> (r: u32)
        ensures
            r == self.interval,
    {
        self.interval
    }

    /// Whether the IN-direction flag is set in the transfer flags.
    pub open spec fn spec_is_in(self) -> bool {
        self.transfer_flags & URB_DIR_IN != 0
    }

    /// Whether the setup packet is not all zero.
    pub open spec fn spec_is_control(self) -> bool {
        exists|i: int| 0 <= i < 8 && self.setup@[i] != 0
    }

    /// True for an IN (device to host) transfer.
    pub fn is_in(&self) -> (r: bool)
        ensures
            r == self.spec_is_in(),
    {
        (self.transfer_flags & URB_DIR_IN) != 0
    }

    /// True when the setup packet is non-zero (a control transfer).
    pub fn is_control(&self) -> (r: bool)
        ensures
            r == self.spec_is_control(),
    {
        let mut i: usize = 0;
        while i < 8
            invariant
                i <= 8,
                forall|k: int| 0 <= k < i ==> self.setup@[k] == 0,
            decreases 8 - i,
        {
            if self.setup[i] != 0 {
                assert(self.setup@[i as int] != 0);
                return true;
            }
            i = i + 1;
        }
        false
    }

    /// The room this command takes in a URB buffer: `HEADER_SIZE` bytes
    /// (48, of which the fixed fields fill 44; see [`SUBMIT_FIELDS_SIZE`]),
    /// plus the data length for an OUT transfer. This is a budget, not the
    /// length of the encoded fields, which is always 44.
    pub fn wire_size(&self) -> (r: usize)
        requires
            48 + self.transfer_buffer_length <= usize::MAX,
        ensures
            r == (if self.spec_is_in() {
                48
            } else {
                48 + self.transfer_buffer_length
            }),
    {
        let base = Self::HEADER_SIZE;
        if !self.is_in() {
            base + self.data_len() as usize
        } else {
            base
        }
    }
}

/// Decoding the encoding of a command gives the command back.
pub proof fn law_cmd_submit_roundtrip(c: UsbIpCmdSubmit)
    ensures
        c.spec_bytes().len() == 44,
        UsbIpCmdSubmit::parsed_from(c, c.spec_bytes()),
{
    let b = c.spec_bytes();
    let fields = seq![
        c.seqnum,
        c.devid,
        c.direction,
        c.ep,
        c.transfer_flags,
        c.transfer_buffer_length,
        c.start_frame,
        c.number_of_packets,
        c.interval,
    ];
    assert forall|k: int| 0 <= k < 9 implies be32_at(b, 4 * k) == #[trigger] fields[k] by {
        lemma_be32_roundtrip(fields[k]);
        assert(b.subrange(4 * k, 4 * k + 4) =~= be32(fields[k]));
        assert(be32_at(b, 4 * k) == be32_at(be32(fields[k]), 0));
    }
    assert(be32_at(b, 0) == fields[0]);
    assert(be32_at(b, 4) == fields[1]);
    assert(be32_at(b, 8) == fields[2]);
    assert(be32_at(b, 12) == fields[3]);
    assert(be32_at(b, 16) == fields[4]);
    assert(be32_at(b, 20) == fields[5]);
    assert(be32_at(b, 24) == fields[6]);
    assert(be32_at(b, 28) == fields[7]);
    assert(be32_at(b, 32) == fields[8]);
    assert(b.subrange(36, 44) =~= c.setup@);
}

/// USBIP_RET_SUBMIT: the server's reply to a URB submission (44 bytes;
/// data for IN transfers follows).
#[derive(Debug, Clone, Copy, PartialEq, Eq)]
pub struct UsbIpRetSubmit {
    pub seqnum: u32,
    pub devid: u32,
    pub direction: u32,
    pub ep: u32,
    pub status: u32,
    pub actual_length: u32,
    pub start_frame: u32,
    pub number_of_packets: u32,
    pub error_count: u32,
    pub setup: [u8; 8],
}

impl UsbIpRetSubmit {
    pub const HEADER_SIZE: usize = 44;

    /// The wire bytes of the fixed fields.
    pub open spec fn spec_bytes(self) -> Seq<u8> {
        be32(self.seqnum) + be32(self.devid) + be32(self.direction) + be32(self.ep) + be32(
            self.status,
        ) + be32(self.actual_length) + be32(self.start_frame) + be32(self.number_of_packets)
            + be32(self.error_count) + self.setup@
    }

    /// Whether `r` is the reply stored at the start of `s`.
    pub open spec fn parsed_from(r: UsbIpRetSubmit, s: Seq<u8>) -> bool {
        &&& s.len() >= 44
        &&& r.seqnum == be32_at(s, 0)
        &&& r.devid == be32_at(s, 4)
        &&& r.direction == be32_at(s, 8)
        &&& r.ep == be32_at(s, 12)
        &&& r.status == be32_at(s, 16)
        &&& r.actual_length == be32_at(s, 20)
        &&& r.start_frame == be32_at(s, 24)
        &&& r.number_of_packets == be32_at(s, 28)
        &&& r.error_count == be32_at(s, 32)
        &&& r.setup@ == s.subrange(36, 44)
    }

    /// Decode the reply at the start of `bytes`; `None` when fewer than 44
    /// bytes are given.
    pub fn read_from_prefix(bytes: &[u8]) -> (r: Option<Self>)
        ensures
            r is Some <==> bytes@.len() >= 44,
            r matches Some(x) ==> Self::parsed_from(x, bytes@),
    {
        if bytes.len() < 44 {
            return None;
        }
        let setup: [u8; 8] = take_array(bytes, 36);
        Some(
            UsbIpRetSubmit {
                seqnum: read_be32(bytes, 0),
                devid: read_be32(bytes, 4),
                direction: read_be32(bytes, 8),
                ep: read_be32(bytes, 12),
                status: read_be32(bytes, 16),
                actual_length: read_be32(bytes, 20),
                start_frame: read_be32(bytes, 24),
                number_of_packets: read_be32(bytes, 28),
                error_count: read_be32(bytes, 32),
                setup,
            },
        )
    }

    /// Append the wire bytes of the fixed fields to `buf`.
    pub fn write_to(&self, buf: &mut Vec<u8>)
        ensures
            final(buf)@ == old(buf)@ + self.spec_bytes(),
    {
        push_be32(buf, self.seqnum);
        push_be32(buf, self.devid);
        push_be32(buf, self.direction);
        push_be32(buf, self.ep);
        push_be32(buf, self.status);
        push_be32(buf, self.actual_length);
        push_be32(buf, self.start_frame);
        push_be32(buf, self.number_of_packets);
        push_be32(buf, self.error_count);
        push_bytes(buf, self.setup.as_slice());
        assert(final(buf)@ =~= old(buf)@ + self.spec_bytes());
    }

    pub fn seqnum(&self) -> (r: u32)
        ensures
            r == self.seqnum,
    {
        self.seqnum
    }

    pub fn devid(&self) -> (r: u32)
        ensures
            r == self.devid,
    {
        self.devid
    }

    pub fn status_val(&self) -> (r: u32)
        ensures
            r == self.status,
    {
        self.status
    }

    pub fn actual_len(&self) -> (r: u32)
        ensures
            r == self.actual_length,
    {
        self.actual_length
    }

    pub fn dir(&self) -> (r: u32)
        ensures
            r == self.direction,
    {
        self.direction
    }

    /// True when the status is 0.
    pub fn is_success(&self) -> (r: bool)
        ensures
            r == (self.status == 0),
    {
        self.status == 0
    }

    /// Whether data follows: a successful IN transfer (direction 1) with a
    /// non-zero length.
    pub open spec fn spec_has_data(self) -> bool {
        self.status == 0 && self.direction == 1 && self.actual_length > 0
    }

    /// True when data follows the header: a successful IN transfer
    /// (direction 1) that moved some bytes.
    pub fn has_data(&self) -> (r: bool)
        ensures
            r == self.spec_has_data(),
    {
        self.is_success() && self.direction == 1 && self.actual_length > 0
    }

    /// Total wire size: 44, plus the actual length when data follows.
    pub fn wire_size(&self) -> (r: usize)
        requires
            44 + self.actual_length <= usize::MAX,
        ensures
            r == (if self.spec_has_data() {
                44 + self.actual_length
            } else {
                44
            }),
    {
        let base = Self::HEADER_SIZE;
        if self.has_data() {
            base + self.actual_len() as usize
        } else {
            base
        }
    }
}

/// Decoding the encoding of a RET_SUBMIT gives it back.
pub proof fn law_ret_submit_roundtrip(r: UsbIpRetSubmit)
    ensures
        r.spec_bytes().len() == 44,
        UsbIpRetSubmit::parsed_from(r, r.spec_bytes()),
{
    let b = r.spec_bytes();
    let fields = seq![
        r.seqnum,
        r.devid,
        r.direction,
        r.ep,
        r.status,
        r.actual_length,
        r.start_frame,
        r.number_of_packets,
        r.error_count,
    ];
    assert forall|k: int| 0 <= k < 9 implies be32_at(b, 4 * k) == #[trigger] fields[k] by {
        lemma_be32_roundtrip(fields[k]);
        assert(b.subrange(4 * k, 4 * k + 4) =~= be32(fields[k]));
        assert(be32_at(b, 4 * k) == be32_at(be32(fields[k]), 0));
    }
    assert(be32_at(b, 0) == fields[0]);
    assert(be32_at(b, 4) == fields[1]);
    assert(be32_at(b, 8) == fields[2]);
    assert(be32_at(b, 12) == fields[3]);
    assert(be32_at(b, 16) == fields[4]);
    assert(be32_at(b, 20) == fields[5]);
    assert(be32_at(b, 24) == fields[6]);
    assert(be32_at(b, 28) == fields[7]);
    assert(be32_at(b, 32) == fields[8]);
    assert(b.subrange(36, 44) =~= r.setup@);
}

/// USBIP_RET_UNLINK: the server tells the client a URB was cancelled.
#[derive(Debug, Clone, Copy, PartialEq, Eq, Structural)]
pub struct UsbIpRetUnlink {
    pub seqnum: u32,
    pub devid: u32,
    pub status: u32,
}

impl UsbIpRetUnlink {
    pub const SIZE: usize = 12;

    /// The wire bytes of this notification.
    pub open spec fn spec_bytes(self) -> Seq<u8> {
        be32(self.seqnum) + be32(self.devid) + be32(self.status)
    }

    /// Decode the notification at the start of `bytes`; `None` when fewer
    /// than 12 bytes are given.
    pub fn read_from_prefix(bytes: &[u8]) -> (r: Option<Self>)
        ensures
            r is Some <==> bytes@.len() >= 12,
            r matches Some(x) ==> x.seqnum == be32_at(bytes@, 0) && x.devid == be32_at(bytes@, 4)
                && x.status == be32_at(bytes@, 8),
    {
        if bytes.len() < 12 {
            return None;
        }
        Some(
            UsbIpRetUnlink {
                seqnum: read_be32(bytes, 0),
                devid: read_be32(bytes, 4),
                status: read_be32(bytes, 8),
            },
        )
    }

    /// Append the wire bytes of this notification to `buf`.
    pub fn write_to(&self, buf: &mut Vec<u8>)
        ensures
            final(buf)@ == old(buf)@ + self.spec_bytes(),
    {
        push_be32(buf, self.seqnum);
        push_be32(buf, self.devid);
        push_be32(buf, self.status);
        assert(final(buf)@ =~= old(buf)@ + self.spec_bytes());
    }

    pub fn seqnum(&self) -> (r: u32)
        ensures
            r == self.seqnum,
    {
        self.seqnum
    }

    pub fn devid(&self) -> (r: u32)
        ensures
            r == self.devid,
    {
        self.devid
    }

    pub fn status_val(&self) -> (r: u32)
        ensures
            r == self.status,
    {
        self.status
    }
}

// ─── In-memory message ────────────────────────────────────────────

/// A complete USB/IP message: header plus every byte after it.
#[derive(Debug)]
pub struct UsbIpMessage {
    pub header: UsbIpHeader,
    /// All bytes that follow the 8-byte header.
    pub payload: Vec<u8>,
}

impl UsbIpMessage {
    /// The CMD_SUBMIT carried by this message: `Some` exactly when the
    /// command is CMD_SUBMIT and the payload holds at least 44 bytes.
    pub fn as_cmd_submit(&self) -> (r: Option<UsbIpCmdSubmit>)
        ensures
            r is Some <==> self.header.command == USBIP_CMD_SUBMIT && self.payload@.len() >= 44,
            r matches Some(c) ==> UsbIpCmdSubmit::parsed_from(c, self.payload@),
    {
        if self.header.command != USBIP_CMD_SUBMIT {
            return None;
        }
        UsbIpCmdSubmit::read_from_prefix(self.payload.as_slice())
    }

    /// The RET_SUBMIT carried by this message: `Some` exactly when the
    /// command is RET_SUBMIT and the payload holds at least 44 bytes.
    pub fn as_ret_submit(&self) -> (r: Option<UsbIpRetSubmit>)
        ensures
            r is Some <==> self.header.command == USBIP_RET_SUBMIT && self.payload@.len() >= 44,
            r matches Some(x) ==> UsbIpRetSubmit::parsed_from(x, self.payload@),
    {
        if self.header.command != USBIP_RET_SUBMIT {
            return None;
        }
        UsbIpRetSubmit::read_from_prefix(self.payload.as_slice())
    }

    /// The RET_UNLINK carried by this message: `Some` exactly when the
    /// command is RET_UNLINK and the payload holds at least 12 bytes.
    pub fn as_ret_unlink(&self) -> (r: Option<UsbIpRetUnlink>)
        ensures
            r is Some <==> self.header.command == USBIP_RET_UNLINK && self.payload@.len() >= 12,
            r matches Some(x) ==> x.seqnum == be32_at(self.payload@, 0) && x.devid == be32_at(
                self.payload@,
                4,
            ) && x.status == be32_at(self.payload@, 8),
    {
        if self.header.command != USBIP_RET_UNLINK {
            return None;
        }
        UsbIpRetUnlink::read_from_prefix(self.payload.as_slice())
    }
}

// ─── Reusable URB buffer ──────────────────────────────────────────

/// A pre-allocated URB buffer: header + URB struct + data.
#[derive(Debug)]
pub struct UrbBuffer {
    /// Raw bytes for the wire message.
    pub buf: Vec<u8>,
    /// Where the data payload starts within `buf`.
    pub data_offset: usize,
    /// Capacity for data in this buffer.
    pub data_capacity: usize,
}

impl UrbBuffer {
    /// A zeroed buffer with room for the 56 header bytes plus
    /// `data_capacity` data bytes.
    pub fn new(data_capacity: usize) -> (b: Self)
        requires
            data_capacity + 56 <= usize::MAX,
        ensures
            b.data_offset == 56,
            b.data_capacity == data_capacity,
            b.buf@ == Seq::new((56 + data_capacity) as nat, |i: int| 0u8),
    {
        let header_size = UsbIpCmdSubmit::HEADER_SIZE + crate::protocol::UsbIpHeader::SIZE;
        let total = header_size + data_capacity;
        let buf = vec![0u8; total];
        assert(buf@ =~= Seq::new((56 + data_capacity) as nat, |i: int| 0u8));
        UrbBuffer { buf, data_offset: header_size, data_capacity }
    }

    /// Zero every byte, keeping the length.
    pub fn reset(&mut self)
        ensures
            final(self).buf@ == Seq::new(old(self).buf@.len(), |i: int| 0u8),
            final(self).data_offset == old(self).data_offset,
            final(self).data_capacity == old(self).data_capacity,
    {
        let n = self.buf.len();
        let mut i: usize = 0;
        while i < n
            invariant
                i <= n,
                n == self.buf@.len(),
                n == old(self).buf@.len(),
                self.data_offset == old(self).data_offset,
                self.data_capacity == old(self).data_capacity,
                forall|k: int| 0 <= k < i ==> self.buf@[k] == 0u8,
            decreases n - i,
        {
            self.buf[i] = 0u8;
            i = i + 1;
        }
        assert(self.buf@ =~= Seq::new(old(self).buf@.len(), |i: int| 0u8));
    }
}

} // verus!
