use anyplug::windows_usb::{parse_vid_pid_from_hardware_id, to_usbip_device_entry, UsbDeviceInfo};

#[test]
fn test_parse_vid_pid() {
    let hw_id = "USB\\VID_046D&PID_C261&REV_0100";
    let mut vid = 0u16;
    let mut pid = 0u16;
    parse_vid_pid_from_hardware_id(hw_id, &mut vid, &mut pid);
    assert_eq!(vid, 0x046D);
    assert_eq!(pid, 0xC261);
}

#[test]
fn test_parse_vid_pid_pc() {
    let hw_id = "USB\\VID_046D&PID_C262&REV_0100";
    let mut vid = 0u16;
    let mut pid = 0u16;
    parse_vid_pid_from_hardware_id(hw_id, &mut vid, &mut pid);
    assert_eq!(vid, 0x046D);
    assert_eq!(pid, 0xC262);
}

#[test]
fn test_parse_vid_pid_reverse_order() {
    let hw_id = "USB\\PID_C261&VID_046D";
    let mut vid = 0u16;
    let mut pid = 0u16;
    parse_vid_pid_from_hardware_id(hw_id, &mut vid, &mut pid);
    assert_eq!(vid, 0x046D);
    assert_eq!(pid, 0xC261);
}

#[test]
fn missing_or_bad_ids_leave_outputs() {
    let mut vid = 7u16;
    let mut pid = 9u16;
    parse_vid_pid_from_hardware_id("USB\\ROOT_HUB30", &mut vid, &mut pid);
    assert_eq!((vid, pid), (7, 9));
    parse_vid_pid_from_hardware_id("USB\\VID_ZZZZ&PID_00aF", &mut vid, &mut pid);
    assert_eq!((vid, pid), (7, 0x00af));
}

#[test]
fn default_device_info_is_blank() {
    let d = UsbDeviceInfo::default();
    assert_eq!((d.vendor_id, d.product_id, d.speed), (0, 0, 0));
    assert!(d.description.is_empty() && d.instance_id.is_empty() && d.hardware_id.is_empty());
}

#[test]
fn device_entry_takes_last_instance_segment_as_busid() {
    let info = UsbDeviceInfo {
        vendor_id: 0x046d,
        product_id: 0xc261,
        description: "Mouse".into(),
        instance_id: "USB\\VID_046D&PID_C261\\1-2.3".into(),
        hardware_id: String::new(),
        speed: 3,
    };
    let e = to_usbip_device_entry(&info);
    assert_eq!(e.busid_str(), "1-2.3");
    assert_eq!(e.path_str(), "USB\\VID_046D&PID_C261\\1-2.3");
    assert_eq!((e.vid(), e.pid(), e.speed_val()), (0x046d, 0xc261, 3));
    assert_eq!((e.busnum, e.devnum, e.b_num_interfaces), (0, 0, 0));

    let plain = UsbDeviceInfo { instance_id: "abc".into(), ..UsbDeviceInfo::default() };
    assert_eq!(to_usbip_device_entry(&plain).busid_str(), "abc");
    let long = UsbDeviceInfo { instance_id: "x".repeat(40), ..UsbDeviceInfo::default() };
    assert_eq!(to_usbip_device_entry(&long).busid_str().len(), 31);
}
