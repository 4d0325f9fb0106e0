//! USBIP_RET_SUBMIT reply serialization: header, RET_SUBMIT, then data.
use vstd::prelude::*;
use crate::codec::{be32, be32_at, lemma_be32_roundtrip, push_bytes};
use crate::protocol::{law_header_roundtrip, UsbIpHeader, USBIP_RET_SUBMIT};
use crate::urb::{law_ret_submit_roundtrip, UsbIpCmdSubmit, UsbIpRetSubmit};

verus! {

/// The RET_SUBMIT answering `cmd` with `status` and `actual_length`: the
/// identifying fields are copied from the command, the error count is 0
/// on success and 1 otherwise.
pub open spec fn ret_for(cmd: UsbIpCmdSubmit, status: i32, actual_length: u32) -> UsbIpRetSubmit {
    UsbIpRetSubmit {
        seqnum: cmd.seqnum,
        devid: cmd.devid,
        direction: cmd.direction,
        ep: cmd.ep,
        status: status as u32,
        actual_length,
        start_frame: cmd.start_frame,
        number_of_packets: cmd.number_of_packets,
        error_count: if status == 0 {
            0
        } else {
            1
        },
        setup: cmd.setup,
    }
}

/// The complete wire bytes of a RET_SUBMIT reply.
pub open spec fn reply_bytes(
    cmd: UsbIpCmdSubmit,
    status: i32,
    actual_length: u32,
    data: Seq<u8>,
) -> Seq<u8> {
    UsbIpHeader::new_spec(USBIP_RET_SUBMIT).spec_bytes() + ret_for(
        cmd,
        status,
        actual_length,
    ).spec_bytes() + data
}

/// Build the RET_SUBMIT for a command and result.
pub fn ret_submit_for(cmd: &UsbIpCmdSubmit, status: i32, actual_length: u32) -> (r: UsbIpRetSubmit)
    ensures
        r == ret_for(*cmd, status, actual_length),
        r.seqnum == cmd.seqnum,
        r.devid == cmd.devid,
        r.direction == cmd.direction,
        r.ep == cmd.ep,
        r.status == status as u32,
        r.actual_length == actual_length,
{
    UsbIpRetSubmit {
        seqnum: cmd.seqnum,
        devid: cmd.devid,
        direction: cmd.direction,
        ep: cmd.ep,
        status: status as u32,
        actual_length,
        start_frame: cmd.start_frame,
        number_of_packets: cmd.number_of_packets,
        error_count: if status == 0 {
            0
        } else {
            1
        },
        setup: cmd.setup,
    }
}

/// Serialize a complete RET_SUBMIT reply into a new buffer.
pub fn serialize_reply(cmd: &UsbIpCmdSubmit, status: i32, actual_length: u32, data: &[u8]) -> (r:
    Vec<u8>)
    ensures
        r@ == reply_bytes(*cmd, status, actual_length, data@),
{
    let mut buf = Vec::new();
    serialize_reply_into(&mut buf, cmd, status, actual_length, data);
    assert(buf@ =~= reply_bytes(*cmd, status, actual_length, data@));
    buf
}

/// Append a RET_SUBMIT reply to `buf`; returns the number of bytes appended
/// (52 plus the data length).
pub fn serialize_reply_into(
    buf: &mut Vec<u8>,
    cmd: &UsbIpCmdSubmit,
    status: i32,
    actual_length: u32,
    data: &[u8],
) -> (n: usize)
    ensures
        final(buf)@ == old(buf)@ + reply_bytes(*cmd, status, actual_length, data@),
        n == 52 + data@.len(),
{
    let start = buf.len();
    let header = UsbIpHeader::new(USBIP_RET_SUBMIT);
    header.write_to(buf);
    let ret = ret_submit_for(cmd, status, actual_length);
    ret.write_to(buf);
    push_bytes(buf, data);
    assert(buf@ =~= old(buf)@ + reply_bytes(*cmd, status, actual_length, data@));
    buf.len() - start
}

} // verus!

verus! {

/// A RET_SUBMIT is read the same from any bytes that start with its
/// encoding.
proof fn lemma_ret_read_from_prefix(r: UsbIpRetSubmit, s: Seq<u8>)
    requires
        s.len() >= 44,
        s.subrange(0, 44) == r.spec_bytes(),
    ensures
        UsbIpRetSubmit::parsed_from(r, s),
{
    law_ret_submit_roundtrip(r);
    let p = r.spec_bytes();
    assert forall|k: int| 0 <= k < 44 implies #[trigger] s[k] == p[k] by {
        assert(s.subrange(0, 44)[k] == s[k]);
    }
    assert(s.subrange(36, 44) =~= p.subrange(36, 44));
}

/// A RET_SUBMIT reply reads back as what was written: a RET_SUBMIT
/// header, the RET_SUBMIT built from the command and result, then the
/// data.
pub proof fn law_reply_reads_back(cmd: UsbIpCmdSubmit, status: i32, actual_length: u32, data: Seq<u8>)
    ensures
        reply_bytes(cmd, status, actual_length, data).len() == 52 + data.len(),
        UsbIpHeader::spec_parse(reply_bytes(cmd, status, actual_length, data)) == Some(
            UsbIpHeader::new_spec(USBIP_RET_SUBMIT),
        ),
        UsbIpRetSubmit::parsed_from(
            ret_for(cmd, status, actual_length),
            reply_bytes(cmd, status, actual_length, data).subrange(8, 52 + data.len() as int),
        ),
        reply_bytes(cmd, status, actual_length, data).subrange(52, 52 + data.len() as int) == data,
{
    let h = UsbIpHeader::new_spec(USBIP_RET_SUBMIT);
    let r = ret_for(cmd, status, actual_length);
    let hb = h.spec_bytes();
    let rb = r.spec_bytes();
    let b = reply_bytes(cmd, status, actual_length, data);
    law_header_roundtrip(h);
    law_ret_submit_roundtrip(r);
    assert(b == hb + rb + data);
    let rest = b.subrange(8, 52 + data.len() as int);
    assert(rest =~= rb + data);
    assert((rb + data).subrange(0, 44) =~= rb);
    lemma_ret_read_from_prefix(r, rb + data);
    assert(b.subrange(52, 52 + data.len() as int) =~= data);
    assert(b[0] == hb[0] && b[1] == hb[1] && b[2] == hb[2] && b[3] == hb[3]);
    assert(b[4] == hb[4] && b[5] == hb[5] && b[6] == hb[6] && b[7] == hb[7]);
}


/// A reply names the command it answers: after the 8-byte header, its
/// first field is the command's sequence number and its second the
/// command's device id, then come the command's direction and endpoint,
/// the status and the actual length; the data follows the 52 bytes of
/// header and fields.
pub proof fn law_reply_names_its_command(
    cmd: UsbIpCmdSubmit,
    status: i32,
    actual_length: u32,
    data: Seq<u8>,
)
    ensures
        ({
            let w = reply_bytes(cmd, status, actual_length, data);
            &&& w.len() == 52 + data.len()
            &&& be32_at(w, 8) == cmd.seqnum
            &&& be32_at(w, 12) == cmd.devid
            &&& be32_at(w, 16) == cmd.direction
            &&& be32_at(w, 20) == cmd.ep
            &&& be32_at(w, 24) == status as u32
            &&& be32_at(w, 28) == actual_length
            &&& w.subrange(52, w.len() as int) == data
        }),
{
    let w = reply_bytes(cmd, status, actual_length, data);
    let h = UsbIpHeader::new_spec(USBIP_RET_SUBMIT).spec_bytes();
    assert(h.len() == 8);
    lemma_be32_roundtrip(cmd.seqnum);
    lemma_be32_roundtrip(cmd.devid);
    lemma_be32_roundtrip(cmd.direction);
    lemma_be32_roundtrip(cmd.ep);
    lemma_be32_roundtrip(status as u32);
    lemma_be32_roundtrip(actual_length);
    lemma_be32_roundtrip(cmd.start_frame);
    lemma_be32_roundtrip(cmd.number_of_packets);
    lemma_be32_roundtrip(if status == 0 { 0u32 } else { 1u32 });
    assert(w.subrange(8, 12) =~= be32(cmd.seqnum));
    assert(w.subrange(12, 16) =~= be32(cmd.devid));
    assert(w.subrange(16, 20) =~= be32(cmd.direction));
    assert(w.subrange(20, 24) =~= be32(cmd.ep));
    assert(w.subrange(24, 28) =~= be32(status as u32));
    assert(w.subrange(28, 32) =~= be32(actual_length));
    assert(be32_at(w, 8) == be32_at(w.subrange(8, 12), 0));
    assert(be32_at(w, 12) == be32_at(w.subrange(12, 16), 0));
    assert(be32_at(w, 16) == be32_at(w.subrange(16, 20), 0));
    assert(be32_at(w, 20) == be32_at(w.subrange(20, 24), 0));
    assert(be32_at(w, 24) == be32_at(w.subrange(24, 28), 0));
    assert(be32_at(w, 28) == be32_at(w.subrange(28, 32), 0));
    assert(w.subrange(52, w.len() as int) =~= data);
}
} // verus!
