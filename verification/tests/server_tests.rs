use anyplug::protocol::{
    UsbIpDeviceEntry, UsbIpHeader, OP_REQ_DEVLIST, OP_REQ_IMPORT, STATUS_ST_DEV_BUSY,
    STATUS_ST_NODEV, URB_DIR_IN, USBIP_CMD_SUBMIT,
};
use anyplug::server::{
    busid_from_request, classify_request, decide_import, devlist_reply, import_reply,
    import_status_reply, parse_urb_frame, refusal_status, ClientRequest, ImportDecision,
    ServerConfig, UrbFrame,
};
use anyplug::urb::UsbIpCmdSubmit;

fn entry(busid: &str) -> UsbIpDeviceEntry {
    let mut e = UsbIpDeviceEntry::read_from_prefix(&[0u8; 312]).unwrap();
    e.busid[..busid.len()].copy_from_slice(busid.as_bytes());
    e.id_vendor = 0x1234;
    e
}

fn submit_frame(flags: u32, len: u32, data: &[u8]) -> Vec<u8> {
    let mut f = UsbIpHeader::new(USBIP_CMD_SUBMIT).to_bytes();
    let cmd = UsbIpCmdSubmit {
        seqnum: 9,
        devid: 1,
        direction: 0,
        ep: 2,
        transfer_flags: flags,
        transfer_buffer_length: len,
        start_frame: 0,
        number_of_packets: 0,
        interval: 0,
        setup: [0; 8],
    };
    cmd.write_to(&mut f);
    f.extend_from_slice(&[0u8; 4]);
    f.extend_from_slice(data);
    f
}

#[test]
fn default_server_config() {
    let c = ServerConfig::default();
    assert_eq!(c.bind_address, "0.0.0.0");
    assert_eq!(c.port, 3240);
    assert!(c.allowed_vid_pid.is_empty());
    assert!(c.require_confirmation && !c.encryption_enabled && c.tcp_nodelay);
    assert!(c.max_bandwidth.is_unlimited());
    assert!(c.per_client_bandwidth.is_none());
}

#[test]
fn requests_are_classified_by_command() {
    assert_eq!(classify_request(&UsbIpHeader::new(OP_REQ_DEVLIST)), ClientRequest::DeviceList);
    assert_eq!(classify_request(&UsbIpHeader::new(OP_REQ_IMPORT)), ClientRequest::Import);
    assert_eq!(classify_request(&UsbIpHeader::new(0x1234)), ClientRequest::Unknown(0x1234));
}

#[test]
fn devlist_reply_layout() {
    let devices = vec![entry("1-1"), entry("1-2")];
    let r = devlist_reply(&devices);
    assert_eq!(r.len(), 8 + 4 + 2 * 312);
    assert_eq!(&r[2..4], &[0x00, 0x05]);
    assert_eq!(&r[8..12], &[0, 0, 0, 2]);
    let second = UsbIpDeviceEntry::read_from_prefix(&r[12 + 312..]).unwrap();
    assert_eq!(second.busid_str(), "1-2");
    assert_eq!(devlist_reply(&[]).len(), 12);
}

#[test]
fn busid_field_is_read_up_to_nul() {
    let mut field = [0u8; 32];
    field[..3].copy_from_slice(b"3-2");
    assert_eq!(busid_from_request(&field), "3-2");
    let full = [b'a'; 32];
    assert_eq!(busid_from_request(&full), "a".repeat(32));
    let mut bad = [0u8; 32];
    bad[0] = 0xff;
    bad[1] = b'x';
    assert_eq!(busid_from_request(&bad), "\u{fffd}x");
}

#[test]
fn import_decisions_and_replies() {
    assert!(matches!(decide_import(None, false), ImportDecision::NoDevice));
    assert!(matches!(decide_import(None, true), ImportDecision::NoDevice));
    assert!(matches!(decide_import(Some(entry("1-1")), true), ImportDecision::Busy));
    match decide_import(Some(entry("1-1")), false) {
        ImportDecision::Accept(e) => assert_eq!(e.busid_str(), "1-1"),
        _ => panic!("expected Accept"),
    }
    assert_eq!(refusal_status(&ImportDecision::NoDevice), Some(STATUS_ST_NODEV));
    assert_eq!(refusal_status(&ImportDecision::Busy), Some(STATUS_ST_DEV_BUSY));
    let nodev = import_status_reply(STATUS_ST_NODEV);
    assert_eq!(nodev, vec![0x01, 0x11, 0x00, 0x07, 0, 0, 0, 4]);
    let ok = import_reply(&entry("1-1"), &[0x12, 0x01]);
    assert_eq!(ok.len(), 8 + 312 + 2);
    assert_eq!(&ok[4..8], &[0, 0, 0, 0]);
    assert_eq!(&ok[320..], &[0x12, 0x01]);
}

#[test]
fn urb_frames() {
    assert!(matches!(parse_urb_frame(&[0u8; 7]), UrbFrame::Stop));
    let other = UsbIpHeader::new(0x0042).to_bytes();
    assert!(matches!(parse_urb_frame(&other), UrbFrame::Ignore(0x0042)));
    let short = submit_frame(0, 0, &[]);
    assert!(matches!(parse_urb_frame(&short[..8 + 47]), UrbFrame::Stop));

    let out = submit_frame(0, 3, &[7, 8, 9]);
    match parse_urb_frame(&out) {
        UrbFrame::Submit { cmd, data_start, data_len } => {
            assert_eq!(cmd.seqnum, 9);
            assert_eq!((data_start, data_len), (56, 3));
            assert_eq!(&out[data_start..data_start + data_len], &[7, 8, 9]);
        },
        _ => panic!("expected Submit"),
    }
    let truncated = submit_frame(0, 4, &[1, 2, 3]);
    assert!(matches!(parse_urb_frame(&truncated), UrbFrame::Stop));
    let input = submit_frame(URB_DIR_IN, 64, &[]);
    assert!(matches!(parse_urb_frame(&input), UrbFrame::Submit { data_len: 0, .. }));
}
