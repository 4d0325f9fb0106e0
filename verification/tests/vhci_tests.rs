use anyplug::protocol::UsbIpDeviceEntry;
use anyplug::vhci::{
    attach_line, attached_device, detach_line, free_port, port_file, urb_complete_payload,
    urb_unlink_payload, windows_attach_input, windows_descriptor_block,
};

#[test]
fn test_attach_and_detach_lines() {
    assert_eq!(attach_line(3, 3, 2), "3 3 2\n");
    assert_eq!(attach_line(0, 17, 5), "0 17 5\n");
    assert_eq!(detach_line(12), "12\n");
    assert_eq!(port_file(4, "urb_complete"), "port4/urb_complete");
}

#[test]
fn test_urb_complete_payload_layout() {
    let p = urb_complete_payload(1, -32, 5, &[9, 8]);
    assert_eq!(p, vec![0, 0, 0, 1, 0xff, 0xff, 0xff, 0xe0, 0, 0, 0, 5, 9, 8]);
    assert_eq!(urb_unlink_payload(0x0102_0304), vec![1, 2, 3, 4]);
}

#[test]
fn test_free_port_is_first_unattached_port_line() {
    assert_eq!(free_port(b"Port 0: Attached\nPort 1: free\nPort 2: free\n"), 1);
    assert_eq!(free_port(b"header\nPort 7\n"), 1);
    assert_eq!(free_port(b"Port 0 up\r\nPort 1 Attached\r\n"), 0);
    assert_eq!(free_port(b"Port 0: Attached\nPort 1: Attached"), 0);
    assert_eq!(free_port(b""), 0);
    assert_eq!(free_port(b"hub port sta spd\nhs 0000 004 000\n"), 0);
    assert_eq!(free_port(b"a\nb\nc\nAttached Port\nPort"), 4);
}

#[test]
fn test_attached_device_takes_port_as_devid() {
    let mut e = UsbIpDeviceEntry::read_from_prefix(&[0u8; 312]).unwrap();
    e.busid[..3].copy_from_slice(b"1-4");
    e.id_vendor = 0x046d;
    e.id_product = 0xc077;
    let d = attached_device(6, &e);
    assert_eq!((d.port, d.devid), (6, 6));
    assert_eq!(d.busid, "1-4");
    assert_eq!((d.vid, d.pid), (0x046d, 0xc077));
}

#[test]
fn test_windows_attach_request() {
    let block = windows_descriptor_block(&[1, 2, 3]);
    assert_eq!(block, vec![3, 0, 0, 0, 1, 2, 3]);
    let input = windows_attach_input(1, 1, 3, &block);
    assert_eq!(input, vec![1, 0, 0, 0, 1, 0, 0, 0, 3, 0, 0, 0, 3, 0, 0, 0, 1, 2, 3]);
}
