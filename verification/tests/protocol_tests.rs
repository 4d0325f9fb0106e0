use anyplug::protocol::{
    UsbIpDeviceEntry, UsbIpHeader, OP_REP_DEVLIST, OP_REQ_IMPORT, STATUS_ST_NODEV,
};
use anyplug::{Direction, UsbSpeed, USBIP_VERSION};

#[test]
fn header_is_eight_big_endian_bytes() {
    let h = UsbIpHeader::with_status(OP_REP_DEVLIST, STATUS_ST_NODEV);
    let b = h.to_bytes();
    assert_eq!(b, vec![0x01, 0x11, 0x00, 0x05, 0, 0, 0, 4]);
    assert_eq!(UsbIpHeader::read_from_prefix(&b), Some(h));
    assert_eq!(UsbIpHeader::read_from_prefix(&b[..7]), None);
    assert_eq!(UsbIpHeader::new(OP_REQ_IMPORT).version, USBIP_VERSION);
}

#[test]
fn device_entry_roundtrip() {
    let mut e = UsbIpDeviceEntry {
        path: [0u8; 256],
        busid: [0u8; 32],
        busnum: 3,
        devnum: 2,
        speed: 3,
        id_vendor: 0x046d,
        id_product: 0xc261,
        bcd_device: 0x0100,
        b_device_class: 0,
        b_device_sub_class: 0,
        b_device_protocol: 0,
        b_configuration_value: 1,
        b_num_configurations: 1,
        b_num_interfaces: 1,
    };
    e.busid[..3].copy_from_slice(b"3-2");
    e.path[..4].copy_from_slice(b"/sys");
    let b = e.to_bytes();
    assert_eq!(b.len(), UsbIpDeviceEntry::SIZE);
    let back = UsbIpDeviceEntry::read_from_prefix(&b).unwrap();
    assert_eq!(back.busid_str(), "3-2");
    assert_eq!(back.path_str(), "/sys");
    assert_eq!((back.busnum, back.devnum, back.vid(), back.pid()), (3, 2, 0x046d, 0xc261));
    assert!(UsbIpDeviceEntry::read_from_prefix(&b[..311]).is_none());
}

#[test]
fn invalid_utf8_busid_reads_as_question_marks() {
    let mut e = UsbIpDeviceEntry::read_from_prefix(&[0u8; 312]).unwrap();
    e.busid[0] = 0xff;
    assert_eq!(e.busid_str(), "???");
}

#[test]
fn speeds_and_directions() {
    assert_eq!(UsbSpeed::from_u32(3), UsbSpeed::High);
    assert_eq!(UsbSpeed::from_u32(6), UsbSpeed::SuperPlus);
    assert_eq!(UsbSpeed::from_u32(0), UsbSpeed::Unknown);
    assert_eq!(UsbSpeed::from_u32(99), UsbSpeed::Unknown);
    assert_eq!(Direction::from_u32(0), Direction::Out);
    assert_eq!(Direction::from_u32(1), Direction::In);
    assert_eq!(Direction::from_u32(7), Direction::In);
}
