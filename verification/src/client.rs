//! The client side of the import handshake and of the URB stream: the
//! request bytes it sends and the checks on the server's replies.
use vstd::prelude::*;
use vstd::string::StringSliceAdditionalSpecFns;
use crate::codec::{copy_prefix_padded, push_bytes, signed_text, text_with_number, zero_padded};
use crate::error::{ErrorKind, UsbIpError, UsbIpResult};
use crate::protocol::{
    UsbIpHeader, OP_REP_DEVLIST, OP_REP_IMPORT, OP_REQ_IMPORT, STATUS_SUCCESS, USBIP_CMD_SUBMIT,
    USBIP_RET_SUBMIT, USBIP_RET_UNLINK,
};

verus! {

/// Size of the bus id field of an import request.
pub const BUSID_FIELD_SIZE: usize = 32;

/// The bus id field of an import request: at most 31 bytes of the bus id,
/// zero-filled to 32 bytes so that it stays NUL-terminated.
pub fn busid_field(busid: &str) -> (f: [u8; 32])
    ensures
        f@ == zero_padded(busid.spec_bytes(), 31, 32),
{
    copy_prefix_padded::<32>(busid.as_bytes(), 31)
}

/// The OP_REQ_IMPORT request for `busid`: header, then the bus id field.
pub fn import_request(busid: &str) -> (r: Vec<u8>)
    ensures
        r@ == UsbIpHeader::new_spec(OP_REQ_IMPORT).spec_bytes() + zero_padded(
            busid.spec_bytes(),
            31,
            32,
        ),
{
    let mut out = UsbIpHeader::new(OP_REQ_IMPORT).to_bytes();
    let field = busid_field(busid);
    push_bytes(&mut out, &field);
    out
}

/// Whether `e` is a protocol error with exactly the text `text`.
pub open spec fn is_protocol_error(e: UsbIpError, text: Seq<char>) -> bool {
    e.spec_kind() matches ErrorKind::Protocol(m) && m@ == text
}

/// Check the header of an OP_REP_DEVLIST reply.
pub fn check_devlist_reply(header: &UsbIpHeader) -> (r: UsbIpResult<()>)
    ensures
        header.command == OP_REP_DEVLIST ==> r is Ok,
        header.command != OP_REP_DEVLIST ==> (r matches Err(e) && is_protocol_error(
            e,
            "unexpected reply"@,
        )),
{
    if header.command != OP_REP_DEVLIST {
        return Err(UsbIpError::from_kind(ErrorKind::Protocol("unexpected reply".to_owned())));
    }
    Ok(())
}

/// The text of the error for an import the server refused.
pub open spec fn rejected_import_message(status: i32) -> Seq<char> {
    "server rejected import (status="@ + signed_text(status as int) + ")"@
}

/// Check the header of an OP_REP_IMPORT reply: it must be an import reply
/// (else a protocol error) with success status (else the device is
/// reported busy, with the status in the text).
pub fn check_import_reply(header: &UsbIpHeader) -> (r: UsbIpResult<()>)
    ensures
        header.command == OP_REP_IMPORT && header.status == STATUS_SUCCESS ==> r is Ok,
        header.command != OP_REP_IMPORT ==> (r matches Err(e) && is_protocol_error(
            e,
            "unexpected reply"@,
        )),
        header.command == OP_REP_IMPORT && header.status != STATUS_SUCCESS ==> (r matches Err(e)
            && e.spec_kind() matches ErrorKind::DeviceBusy(m) && m@ == rejected_import_message(
            header.status,
        )),
{
    if header.command != OP_REP_IMPORT {
        return Err(UsbIpError::from_kind(ErrorKind::Protocol("unexpected reply".to_owned())));
    }
    if header.status != STATUS_SUCCESS {
        let mut msg = text_with_number("server rejected import (status=", header.status as i64);
        msg.append(")");
        proof {
            reveal_strlit("server rejected import (status=");
            reveal_strlit(")");
        }
        return Err(UsbIpError::from_kind(ErrorKind::DeviceBusy(msg)));
    }
    Ok(())
}

/// What the client's URB loop does with a message from the server.
#[derive(Debug, Clone, Copy, PartialEq, Eq, Structural)]
pub enum ServerMessage {
    /// A CMD_SUBMIT from the server: nothing to do.
    Submit,
    /// A RET_SUBMIT follows: complete the URB.
    RetSubmit,
    /// A RET_UNLINK follows: cancel the URB.
    RetUnlink,
    /// Anything else: log it and go on.
    Unknown(u16),
}

/// The message a header's command names.
pub open spec fn server_message_of(command: u16) -> ServerMessage {
    if command == USBIP_CMD_SUBMIT {
        ServerMessage::Submit
    } else if command == USBIP_RET_SUBMIT {
        ServerMessage::RetSubmit
    } else if command == USBIP_RET_UNLINK {
        ServerMessage::RetUnlink
    } else {
        ServerMessage::Unknown(command)
    }
}

/// Classify a message from the server by its header.
pub fn classify_server_message(header: &UsbIpHeader) -> (r: ServerMessage)
    ensures
        r == server_message_of(header.command),
{
    if header.command == USBIP_CMD_SUBMIT {
        ServerMessage::Submit
    } else if header.command == USBIP_RET_SUBMIT {
        ServerMessage::RetSubmit
    } else if header.command == USBIP_RET_UNLINK {
        ServerMessage::RetUnlink
    } else {
        ServerMessage::Unknown(header.command)
    }
}

} // verus!
