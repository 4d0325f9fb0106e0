use anyplug::error::{ErrorKind, UsbErrorCode, UsbIpError};
use anyplug::protocol::{UsbIpHeader, URB_DIR_IN, URB_DIR_OUT, USBIP_RET_SUBMIT};
use anyplug::urb::{UsbIpCmdSubmit, UsbIpRetSubmit};
use anyplug::urb_executor::{UrbExecutor, UrbResult};
use anyplug::usb::UrbTransferResult;

fn make_cmd(endpoint: u32, direction: u32, transfer_buffer_length: u32, setup: [u8; 8]) -> UsbIpCmdSubmit {
    let flags = if direction == 1 { URB_DIR_IN } else { URB_DIR_OUT };
    UsbIpCmdSubmit {
        seqnum: 1,
        devid: 1,
        direction,
        ep: endpoint,
        transfer_flags: flags,
        transfer_buffer_length,
        start_frame: 0,
        number_of_packets: 0,
        interval: 0,
        setup,
    }
}

fn executor() -> UrbExecutor {
    UrbExecutor::new("1-1".to_string())
}

fn be_u16(bytes: &[u8], offset: usize) -> u16 {
    u16::from_be_bytes([bytes[offset], bytes[offset + 1]])
}

fn be_u32(bytes: &[u8], offset: usize) -> u32 {
    u32::from_be_bytes([bytes[offset], bytes[offset + 1], bytes[offset + 2], bytes[offset + 3]])
}

#[test]
fn test_make_cmd_in() {
    let cmd = make_cmd(0x81, 1, 64, [0u8; 8]);
    assert!(cmd.is_in());
    assert_eq!(cmd.ep_num(), 0x81);
    assert_eq!(cmd.data_len(), 64);
}

#[test]
fn test_make_cmd_out() {
    let cmd = make_cmd(0x02, 0, 512, [0u8; 8]);
    assert!(!cmd.is_in());
    assert_eq!(cmd.ep_num(), 0x02);
    assert_eq!(cmd.data_len(), 512);
}

#[test]
fn test_urb_result_ok_in() {
    let result = UrbResult { status: 0, actual_length: 64, data: vec![0xAB; 64] };
    assert_eq!(result.status, 0);
    assert_eq!(result.actual_length, 64);
    assert_eq!(result.data.len(), 64);
}

#[test]
fn test_urb_result_ok_out() {
    let result = UrbResult { status: 0, actual_length: 64, data: Vec::new() };
    assert_eq!(result.status, 0);
    assert_eq!(result.actual_length, 64);
    assert!(result.data.is_empty());
}

#[test]
fn test_urb_result_error() {
    let result = UrbResult { status: -5, actual_length: 0, data: Vec::new() };
    assert_eq!(result.status, -5);
    assert_eq!(result.actual_length, 0);
    assert!(result.data.is_empty());
}

#[test]
fn test_build_reply_success_in() {
    let ex = executor();
    let cmd = make_cmd(0x81, 1, 64, [0u8; 8]);
    let result = UrbResult { status: 0, actual_length: 64, data: vec![0xCD; 64] };
    let reply = ex.build_reply(&cmd, &result);
    let expected_len = UsbIpHeader::SIZE + UsbIpRetSubmit::HEADER_SIZE + 64;
    assert_eq!(reply.len(), expected_len);
    assert_eq!(be_u16(&reply, 2), USBIP_RET_SUBMIT, "command at offset 2");
    assert_eq!(be_u32(&reply, 8), 1);
    assert_eq!(be_u32(&reply, 24), 0);
    assert_eq!(be_u32(&reply, 28), 64);
    assert_eq!(be_u32(&reply, 40), 0);
    assert_eq!(&reply[UsbIpHeader::SIZE + UsbIpRetSubmit::HEADER_SIZE..], &[0xCD; 64]);
}

#[test]
fn test_build_reply_success_out() {
    let ex = executor();
    let cmd = make_cmd(0x02, 0, 512, [0u8; 8]);
    let result = UrbResult { status: 0, actual_length: 512, data: Vec::new() };
    let reply = ex.build_reply(&cmd, &result);
    let expected_len = UsbIpHeader::SIZE + UsbIpRetSubmit::HEADER_SIZE;
    assert_eq!(reply.len(), expected_len);
    assert_eq!(be_u16(&reply, 2), USBIP_RET_SUBMIT, "command at offset 2");
    assert_eq!(be_u32(&reply, 8), 1);
    assert_eq!(be_u32(&reply, 24), 0);
    assert_eq!(be_u32(&reply, 28), 512);
    assert_eq!(be_u32(&reply, 40), 0);
}

#[test]
fn test_build_reply_error() {
    let ex = executor();
    let cmd = make_cmd(0x81, 1, 64, [0u8; 8]);
    let result = UrbResult { status: -5, actual_length: 0, data: Vec::new() };
    let reply = ex.build_reply(&cmd, &result);
    let expected_len = UsbIpHeader::SIZE + UsbIpRetSubmit::HEADER_SIZE;
    assert_eq!(reply.len(), expected_len);
    assert_eq!(be_u16(&reply, 2), USBIP_RET_SUBMIT, "command at offset 2");
    assert_eq!(be_u32(&reply, 8), 1);
    assert_eq!(be_u32(&reply, 24), (-5i32) as u32);
    assert_eq!(be_u32(&reply, 28), 0);
    assert_eq!(be_u32(&reply, 40), 1);
}

#[test]
fn test_build_reply_zero_length_in() {
    let ex = executor();
    let cmd = make_cmd(0x00, 1, 0, [0x80, 0x06, 0x00, 0x01, 0x00, 0x00, 0x00, 0x00]);
    let result = UrbResult { status: 0, actual_length: 0, data: Vec::new() };
    let reply = ex.build_reply(&cmd, &result);
    let expected_len = UsbIpHeader::SIZE + UsbIpRetSubmit::HEADER_SIZE;
    assert_eq!(reply.len(), expected_len);
    assert_eq!(be_u16(&reply, 2), USBIP_RET_SUBMIT, "command at offset 2");
    assert_eq!(be_u32(&reply, 24), 0);
    assert_eq!(be_u32(&reply, 28), 0);
    assert_eq!(be_u32(&reply, 40), 0);
}

#[test]
fn outcome_of_completed_transfer_is_kept() {
    let t = UrbTransferResult { status: 0, actual_length: 3, data: vec![1, 2, 3] };
    let r = UrbResult::from_outcome(Ok(t));
    assert_eq!((r.status, r.actual_length, r.data), (0, 3, vec![1, 2, 3]));
}

#[test]
fn outcome_errors_map_to_urb_statuses() {
    let cases = vec![
        (ErrorKind::DeviceNotFound("1-1".into()), -19),
        (ErrorKind::Timeout, -62),
        (ErrorKind::Usb(UsbErrorCode::Pipe), -32),
        (ErrorKind::Usb(UsbErrorCode::Busy), -16),
        (ErrorKind::ConnectionClosed, -5),
        (ErrorKind::Protocol("x".into()), -5),
    ];
    for (kind, status) in cases {
        let r = UrbResult::from_outcome(Err(UsbIpError::from_kind(kind)));
        assert_eq!(r.status, status);
        assert_eq!(r.actual_length, 0);
        assert!(r.data.is_empty());
    }
}
