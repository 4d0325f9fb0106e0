use anyplug::descriptor::{
    attributes_byte, descriptor_tree_bytes, ConfigDescriptor, ConfigSource, DeviceDescriptor,
    EndpointDescriptor, EndpointType, HidDescriptor, InterfaceDescriptor, InterfaceSource, Outcome,
    UsbDeviceInfo,
};

fn device() -> DeviceDescriptor {
    DeviceDescriptor {
        b_length: 18,
        b_descriptor_type: 1,
        bcd_usb: 0x0200,
        b_device_class: 0,
        b_device_sub_class: 0,
        b_device_protocol: 0,
        b_max_packet_size0: 64,
        id_vendor: 0x046d,
        id_product: 0xc261,
        bcd_device: 0x0110,
        i_manufacturer: 1,
        i_product: 2,
        i_serial_number: 0,
        b_num_configurations: 1,
    }
}

fn hid_mouse_tree() -> Vec<u8> {
    let mut t = device().to_bytes();
    let config = ConfigDescriptor {
        b_length: 9,
        b_descriptor_type: 2,
        w_total_length: 34,
        b_num_interfaces: 1,
        b_configuration_value: 1,
        i_configuration: 0,
        bm_attributes: 0xa0,
        b_max_power: 50,
    };
    t.extend_from_slice(&config.to_bytes());
    let iface = InterfaceDescriptor {
        b_length: 9,
        b_descriptor_type: 4,
        b_interface_number: 0,
        b_alternate_setting: 0,
        b_num_endpoints: 1,
        b_interface_class: 3,
        b_interface_sub_class: 1,
        b_interface_protocol: 2,
        i_interface: 0,
    };
    t.extend_from_slice(&iface.to_bytes());
    t.extend_from_slice(&[9, 0x21, 0x11, 0x01, 0, 1, 0x22, 52, 0]);
    let ep = EndpointDescriptor {
        b_length: 7,
        b_descriptor_type: 5,
        b_endpoint_address: 0x81,
        bm_attributes: 3,
        w_max_packet_size: 8,
        b_interval: 10,
    };
    t.extend_from_slice(&ep.to_bytes());
    t
}

#[test]
fn device_descriptor_bytes_roundtrip() {
    let d = device();
    let b = d.to_bytes();
    assert_eq!(b.len(), DeviceDescriptor::SIZE);
    assert_eq!(&b[8..10], &[0x6d, 0x04], "little-endian vendor id");
    assert_eq!(DeviceDescriptor::parse(&b), Some(d));
    assert_eq!(DeviceDescriptor::parse(&b[..17]), None);
}

#[test]
fn typed_descriptors_check_their_type_byte() {
    assert!(ConfigDescriptor::parse(&[9, 2, 9, 0, 0, 1, 0, 0x80, 50]).is_some());
    assert!(ConfigDescriptor::parse(&[9, 4, 9, 0, 0, 1, 0, 0x80, 50]).is_none());
    assert!(InterfaceDescriptor::parse(&[9, 4, 0, 0, 1, 3, 1, 2, 0]).is_some());
    assert!(EndpointDescriptor::parse(&[7, 5, 0x81, 3, 8, 0]).is_none());
    let hid = HidDescriptor::parse(&[9, 0x21, 0x11, 0x01, 0, 1, 0x22, 52, 0]).unwrap();
    assert_eq!(hid.w_report_descriptor_length, 52);
}

#[test]
fn endpoint_fields() {
    let ep = EndpointDescriptor::parse(&[7, 5, 0x82, 2, 0x00, 0x02, 0]).unwrap();
    assert_eq!(ep.ep_number(), 2);
    assert!(ep.is_in());
    assert_eq!(ep.transfer_type(), EndpointType::Bulk);
    assert_eq!(ep.w_max_packet_size, 512);
    let out = EndpointDescriptor::parse(&[7, 5, 0x01, 3, 8, 0, 1]).unwrap();
    assert!(!out.is_in());
    assert_eq!(out.transfer_type(), EndpointType::Interrupt);
}

#[test]
fn parses_hid_mouse_tree() {
    let tree = hid_mouse_tree();
    let info = UsbDeviceInfo::parse_descriptor_tree(&tree).unwrap();
    assert_eq!(info.device.id_vendor, 0x046d);
    assert_eq!(info.configs.len(), 1);
    let c = &info.configs[0];
    assert_eq!(c.interfaces.len(), 1);
    let i = &c.interfaces[0];
    assert_eq!(i.interface.b_interface_class, 3);
    assert!(i.hid.is_some());
    assert_eq!(i.endpoints.len(), 1);
    assert_eq!(i.endpoints[0].b_endpoint_address, 0x81);
}

#[test]
fn tree_needs_a_device_descriptor() {
    assert!(UsbDeviceInfo::parse_descriptor_tree(&[0x12, 0x01, 0x00, 0x02]).is_none());
    let only_device = device().to_bytes();
    let info = UsbDeviceInfo::parse_descriptor_tree(&only_device).unwrap();
    assert!(info.configs.is_empty());
}

#[test]
fn unknown_descriptors_are_skipped() {
    let mut t = device().to_bytes();
    t.extend_from_slice(&[4, 0x0f, 0, 0]);
    let info = UsbDeviceInfo::parse_descriptor_tree(&t).unwrap();
    assert!(info.configs.is_empty());
}

#[test]
fn scan_tells_apart_trees_that_cannot_be_parsed() {
    let tree = hid_mouse_tree();
    assert!(matches!(UsbDeviceInfo::scan_descriptor_tree(&tree), Outcome::Yields(_)));
    assert!(matches!(
        UsbDeviceInfo::scan_descriptor_tree(&[0x12, 0x01, 0x00, 0x02]),
        Outcome::Rejects
    ));
    // A lone length byte after the device descriptor: its type byte lies
    // past the end.
    let mut cut = device().to_bytes();
    cut.push(9);
    assert!(matches!(UsbDeviceInfo::scan_descriptor_tree(&cut), Outcome::Panics));
    // A configuration whose total length is 0 never advances.
    let mut stuck = device().to_bytes();
    stuck.extend_from_slice(&[9, 2, 0, 0, 1, 1, 0, 0x80, 50]);
    assert!(matches!(UsbDeviceInfo::scan_descriptor_tree(&stuck), Outcome::Panics));
}

#[test]
fn descriptor_tree_bytes_assembles_device_configs_interfaces_endpoints() {
    let device = DeviceDescriptor {
        b_length: 18,
        b_descriptor_type: 1,
        bcd_usb: 0x0200,
        b_device_class: 0,
        b_device_sub_class: 0,
        b_device_protocol: 0,
        b_max_packet_size0: 64,
        id_vendor: 0x1234,
        id_product: 0x5678,
        bcd_device: 0x0100,
        i_manufacturer: 1,
        i_product: 2,
        i_serial_number: 3,
        b_num_configurations: 1,
    };
    let hid = InterfaceSource {
        descriptor: InterfaceDescriptor {
            b_length: 9,
            b_descriptor_type: 4,
            b_interface_number: 0,
            b_alternate_setting: 0,
            b_num_endpoints: 1,
            b_interface_class: 3,
            b_interface_sub_class: 1,
            b_interface_protocol: 2,
            i_interface: 0,
        },
        extra: vec![9, 0x21, 0x11, 0x01, 0, 1, 0x22, 0x3f, 0],
        endpoints: vec![EndpointDescriptor {
            b_length: 7,
            b_descriptor_type: 5,
            b_endpoint_address: 0x81,
            bm_attributes: 3,
            w_max_packet_size: 8,
            b_interval: 10,
        }],
    };
    let vendor = InterfaceSource {
        descriptor: InterfaceDescriptor {
            b_length: 9,
            b_descriptor_type: 4,
            b_interface_number: 1,
            b_alternate_setting: 0,
            b_num_endpoints: 0,
            b_interface_class: 0xff,
            b_interface_sub_class: 0,
            b_interface_protocol: 0,
            i_interface: 0,
        },
        extra: vec![1, 2, 3],
        endpoints: vec![],
    };
    let config = ConfigSource {
        b_length: 9,
        b_descriptor_type: 2,
        w_total_length: 0x0022,
        b_num_interfaces: 2,
        b_configuration_value: 1,
        i_configuration: 0,
        self_powered: true,
        remote_wakeup: true,
        b_max_power: 50,
        interfaces: vec![hid, vendor],
    };
    let tree = descriptor_tree_bytes(&device, &[config]);
    let expected: Vec<u8> = vec![
        18, 1, 0x00, 0x02, 0, 0, 0, 64, 0x34, 0x12, 0x78, 0x56, 0x00, 0x01, 1, 2, 3, 1, // device
        9, 2, 0x22, 0x00, 2, 1, 0, 0x60, 50, // configuration
        9, 4, 0, 0, 1, 3, 1, 2, 0, // HID interface
        9, 0x21, 0x11, 0x01, 0, 1, 0x22, 0x3f, 0, // its HID descriptor
        7, 5, 0x81, 3, 8, 0, 10, // its endpoint
        9, 4, 1, 0, 0, 0xff, 0, 0, 0, // vendor interface, extra bytes left out
    ];
    assert_eq!(tree, expected);
    assert_eq!(descriptor_tree_bytes(&device, &[]), expected[..18].to_vec());
    assert_eq!(attributes_byte(true, false), 0x40);
    assert_eq!(attributes_byte(false, true), 0x20);
    assert_eq!(attributes_byte(false, false), 0);
}
