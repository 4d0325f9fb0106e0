use anyplug::protocol::{UsbIpHeader, URB_DIR_IN, URB_DIR_OUT, USBIP_CMD_SUBMIT};
use anyplug::urb::{UrbBuffer, UsbIpCmdSubmit, UsbIpMessage, UsbIpRetSubmit, UsbIpRetUnlink};

fn build_cmd_submit(endpoint: u32, direction: u32, transfer_buffer_length: u32, setup: [u8; 8]) -> UsbIpCmdSubmit {
    let flags = if direction == 1 { URB_DIR_IN } else { URB_DIR_OUT };
    UsbIpCmdSubmit {
        seqnum: 1,
        devid: 1,
        direction,
        ep: endpoint,
        transfer_flags: flags,
        transfer_buffer_length,
        start_frame: 0,
        number_of_packets: 0,
        interval: 0,
        setup,
    }
}

fn bytes_of(cmd: &UsbIpCmdSubmit) -> Vec<u8> {
    let mut b = Vec::new();
    cmd.write_to(&mut b);
    b
}

#[test]
fn test_hid_interrupt_in_roundtrip() {
    let cmd = build_cmd_submit(0x81, 1, 64, [0u8; 8]);
    let bytes = bytes_of(&cmd);
    let deserialized = UsbIpCmdSubmit::read_from_prefix(&bytes).unwrap();
    assert_eq!(deserialized.ep_num(), 0x81);
    assert!(deserialized.is_in());
    assert_eq!(deserialized.data_len(), 64);
    assert!(!deserialized.is_control());
}

#[test]
fn test_bulk_out_roundtrip() {
    let cmd = build_cmd_submit(0x02, 0, 512, [0u8; 8]);
    let bytes = bytes_of(&cmd);
    let deserialized = UsbIpCmdSubmit::read_from_prefix(&bytes).unwrap();
    assert_eq!(deserialized.ep_num(), 0x02);
    assert_eq!(deserialized.dir(), 0);
    assert_eq!(deserialized.data_len(), 512);
    assert!(!deserialized.is_in());
    assert!(!deserialized.is_control());
}

#[test]
fn test_control_transfer_roundtrip() {
    let setup: [u8; 8] = [0x80, 0x06, 0x00, 0x01, 0x00, 0x00, 0x40, 0x00];
    let cmd = build_cmd_submit(0x00, 1, 64, setup);
    let bytes = bytes_of(&cmd);
    let deserialized = UsbIpCmdSubmit::read_from_prefix(&bytes).unwrap();
    assert!(deserialized.is_control());
    assert_eq!(deserialized.setup, setup);
    assert_eq!(deserialized.ep_num(), 0x00);
    assert_eq!(deserialized.data_len(), 64);
}

#[test]
fn cmd_submit_is_44_big_endian_bytes() {
    let cmd = build_cmd_submit(0x81, 1, 0x0102, [9; 8]);
    let b = bytes_of(&cmd);
    assert_eq!(b.len(), 44);
    assert_eq!(&b[0..4], &[0, 0, 0, 1]);
    assert_eq!(&b[20..24], &[0, 0, 1, 2]);
    assert!(UsbIpCmdSubmit::read_from_prefix(&b[..43]).is_none());
}

#[test]
fn ret_submit_roundtrip_and_data() {
    let r = UsbIpRetSubmit {
        seqnum: 5,
        devid: 2,
        direction: 1,
        ep: 1,
        status: 0,
        actual_length: 8,
        start_frame: 0,
        number_of_packets: 0,
        error_count: 0,
        setup: [0; 8],
    };
    let mut b = Vec::new();
    r.write_to(&mut b);
    assert_eq!(b.len(), UsbIpRetSubmit::HEADER_SIZE);
    let back = UsbIpRetSubmit::read_from_prefix(&b).unwrap();
    assert_eq!((back.seqnum(), back.devid(), back.actual_len()), (5, 2, 8));
    assert!(back.is_success());
    assert!(back.has_data());
    assert_eq!(back.wire_size(), 44 + 8);
    let flag_only = UsbIpRetSubmit { direction: URB_DIR_IN, ..back };
    assert!(!flag_only.has_data(), "only direction 1 (IN) carries data");
    assert_eq!(flag_only.wire_size(), 44);
    let out = UsbIpRetSubmit { direction: 0, ..back };
    assert!(!out.has_data());
}

#[test]
fn ret_unlink_roundtrip() {
    let u = UsbIpRetUnlink { seqnum: 3, devid: 4, status: 0xffff_fffe };
    let mut b = Vec::new();
    u.write_to(&mut b);
    assert_eq!(b.len(), UsbIpRetUnlink::SIZE);
    let back = UsbIpRetUnlink::read_from_prefix(&b).unwrap();
    assert_eq!((back.seqnum(), back.devid(), back.status_val()), (3, 4, 0xffff_fffe));
}

#[test]
fn message_accessors_pick_their_variant() {
    let payload = bytes_of(&build_cmd_submit(1, 0, 0, [0; 8]));
    let m = UsbIpMessage { header: UsbIpHeader::new(USBIP_CMD_SUBMIT), payload };
    assert_eq!(m.as_cmd_submit().unwrap().ep_num(), 1);
    assert!(m.as_ret_submit().is_none());
    assert!(m.as_ret_unlink().is_none());
    let short = UsbIpMessage { header: UsbIpHeader::new(USBIP_CMD_SUBMIT), payload: vec![0; 10] };
    assert!(short.as_cmd_submit().is_none());
}

#[test]
fn urb_buffer_layout_and_reset() {
    let mut b = UrbBuffer::new(64);
    assert_eq!(b.data_offset, 56);
    assert_eq!(b.data_capacity, 64);
    assert_eq!(b.buf.len(), 120);
    b.buf[3] = 9;
    b.reset();
    assert!(b.buf.iter().all(|&x| x == 0));
    assert_eq!(b.buf.len(), 120);
}
