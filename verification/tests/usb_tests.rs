use anyplug::error::{ErrorKind, UsbErrorCode, UsbIpError, UsbIpResult};
use anyplug::protocol::UsbIpDeviceEntry;
use anyplug::urb::UsbIpCmdSubmit;
use anyplug::urb_executor::UrbExecutor;
use anyplug::usb::{
    filter_exportable, parse_busid, select_device_entry, UrbTransferResult, UsbBackend,
    UsbDeviceManager,
};

struct FakeBackend {
    devices: Vec<UsbIpDeviceEntry>,
}

impl FakeBackend {
    fn new(devices: Vec<UsbIpDeviceEntry>) -> Self {
        Self { devices }
    }
}

impl UsbBackend for FakeBackend {
    fn list_devices(&self) -> Vec<UsbIpDeviceEntry> {
        self.devices.clone()
    }

    fn get_device_entry(&self, busid: &str) -> Option<UsbIpDeviceEntry> {
        self.devices.iter().find(|d| d.busid_str() == busid).cloned()
    }

    fn claim_device(&self, busid: &str) -> UsbIpResult<()> {
        if self.devices.iter().any(|d| d.busid_str() == busid) {
            Ok(())
        } else {
            Err(UsbIpError::from_kind(ErrorKind::DeviceNotFound(busid.into())))
        }
    }

    fn release_device(&self, _busid: &str) -> UsbIpResult<()> {
        Ok(())
    }

    fn get_descriptor_tree(&self, busid: &str) -> UsbIpResult<Vec<u8>> {
        if self.devices.iter().any(|d| d.busid_str() == busid) {
            Ok(vec![0x12, 0x01, 0x00, 0x02])
        } else {
            Err(UsbIpError::from_kind(ErrorKind::DeviceNotFound(busid.into())))
        }
    }

    fn execute_urb(
        &self,
        _busid: &str,
        _cmd: &UsbIpCmdSubmit,
        _out_data: &[u8],
    ) -> UsbIpResult<UrbTransferResult> {
        Ok(UrbTransferResult { status: 0, actual_length: 0, data: Vec::new() })
    }
}

fn make_test_entry(busid: &str, vid: u16, pid: u16) -> UsbIpDeviceEntry {
    let mut entry = UsbIpDeviceEntry {
        path: [0u8; 256],
        busid: [0u8; 32],
        busnum: 1,
        devnum: 1,
        speed: 3,
        id_vendor: vid,
        id_product: pid,
        bcd_device: 0x0100,
        b_device_class: 0,
        b_device_sub_class: 0,
        b_device_protocol: 0,
        b_configuration_value: 1,
        b_num_configurations: 1,
        b_num_interfaces: 1,
    };
    let busid_bytes = busid.as_bytes();
    let copy_len = busid_bytes.len().min(31);
    entry.busid[..copy_len].copy_from_slice(&busid_bytes[..copy_len]);
    let path_str = format!("/sys/bus/usb/devices/{}", busid);
    let path_bytes = path_str.as_bytes();
    let copy_len = path_bytes.len().min(255);
    entry.path[..copy_len].copy_from_slice(&path_bytes[..copy_len]);
    entry
}

fn cmd() -> UsbIpCmdSubmit {
    UsbIpCmdSubmit {
        seqnum: 1,
        devid: 1,
        direction: 0,
        ep: 0x02,
        transfer_flags: 0,
        transfer_buffer_length: 0,
        start_frame: 0,
        number_of_packets: 0,
        interval: 0,
        setup: [0u8; 8],
    }
}

#[test]
fn usb_test_parse_busid_valid() {
    let (bus, dev) = parse_busid("3-2").unwrap();
    assert_eq!(bus, 3);
    assert_eq!(dev, 2);
}

#[test]
fn usb_test_parse_busid_invalid() {
    assert!(parse_busid("").is_err());
    assert!(parse_busid("abc").is_err());
    assert!(parse_busid("3").is_err());
}

#[test]
fn usb_test_parse_busid_multidigit() {
    let (bus, dev) = parse_busid("12-5").unwrap();
    assert_eq!(bus, 12);
    assert_eq!(dev, 5);
}

#[test]
fn usb_backend_test_parse_busid_valid() {
    assert_eq!(parse_busid("3-2").unwrap(), (3, 2));
}

#[test]
fn usb_backend_test_parse_busid_invalid() {
    assert!(parse_busid("").is_err());
    assert!(parse_busid("abc").is_err());
    assert!(parse_busid("3").is_err());
}

#[test]
fn usb_backend_test_parse_busid_multidigit() {
    assert_eq!(parse_busid("12-5").unwrap(), (12, 5));
}

#[test]
fn parse_busid_edge_cases() {
    assert_eq!(parse_busid("1-2-3").unwrap(), (1, 2));
    assert_eq!(parse_busid("+1-+2").unwrap(), (1, 2));
    assert!(parse_busid("256-1").is_err());
    assert!(parse_busid("1-").is_err());
    assert!(parse_busid("-1").is_err());
    let e = parse_busid("nope").unwrap_err();
    assert!(matches!(e.kind(), ErrorKind::DeviceNotFound(s) if s == "nope"));
}

#[test]
fn test_rusb_to_urb_status_mapping() {
    assert_eq!(anyplug::error::rusb_to_urb_status(UsbErrorCode::from_rusb(&rusb::Error::Io)), -5);
    assert_eq!(anyplug::error::rusb_to_urb_status(UsbErrorCode::from_rusb(&rusb::Error::Timeout)), -62);
    assert_eq!(anyplug::error::rusb_to_urb_status(UsbErrorCode::from_rusb(&rusb::Error::NoDevice)), -19);
    assert_eq!(anyplug::error::rusb_to_urb_status(UsbErrorCode::from_rusb(&rusb::Error::NotSupported)), -95);
}

#[test]
fn test_with_backend_accepts_fake_backend() {
    let fake = FakeBackend::new(vec![]);
    let mgr = UsbDeviceManager::with_backend(Box::new(fake));
    assert!(mgr.list_devices().is_empty());
}

#[test]
fn test_list_exportable_devices_empty_allowlist() {
    let entry = make_test_entry("1-1", 0x046d, 0xc261);
    let fake = FakeBackend::new(vec![entry]);
    let mgr = UsbDeviceManager::with_backend(Box::new(fake));
    let devs = mgr.list_exportable_devices(&[]);
    assert_eq!(devs.len(), 1);
    assert_eq!(devs[0].vid(), 0x046d);
}

#[test]
fn test_list_exportable_devices_filters() {
    let dev1 = make_test_entry("1-1", 0x046d, 0xc261);
    let dev2 = make_test_entry("1-2", 0x8087, 0x0024);
    let fake = FakeBackend::new(vec![dev1, dev2]);
    let mgr = UsbDeviceManager::with_backend(Box::new(fake));
    let devs = mgr.list_exportable_devices(&[(0x046d, 0xc261)]);
    assert_eq!(devs.len(), 1);
    assert_eq!(devs[0].vid(), 0x046d);
    assert_eq!(devs[0].pid(), 0xc261);
}

#[test]
fn test_list_exportable_devices_multiple_allowed() {
    let dev1 = make_test_entry("1-1", 0x046d, 0xc261);
    let dev2 = make_test_entry("1-2", 0x8087, 0x0024);
    let dev3 = make_test_entry("1-3", 0x1234, 0x5678);
    let fake = FakeBackend::new(vec![dev1, dev2, dev3]);
    let mgr = UsbDeviceManager::with_backend(Box::new(fake));
    let devs = mgr.list_exportable_devices(&[(0x046d, 0xc261), (0x8087, 0x0024)]);
    assert_eq!(devs.len(), 2);
}

#[test]
fn filter_keeps_order_of_admitted_devices() {
    let a = make_test_entry("1-1", 1, 1);
    let b = make_test_entry("1-2", 2, 2);
    let c = make_test_entry("1-3", 1, 1);
    let out = filter_exportable(vec![a, b, c], &[(1, 1)]);
    assert_eq!(out.len(), 2);
    assert_eq!(out[0].busid_str(), "1-1");
    assert_eq!(out[1].busid_str(), "1-3");
}

#[test]
fn select_entry_uses_bus_and_device_numbers() {
    let mut a = make_test_entry("1-1", 1, 1);
    a.busnum = 2;
    a.devnum = 7;
    let mut b = make_test_entry("2-7", 9, 9);
    b.busnum = 2;
    b.devnum = 7;
    let devices = vec![a, b];
    let found = select_device_entry(&devices, "2-7").unwrap();
    assert_eq!(found.vid(), 1, "the first matching entry is chosen");
    assert!(select_device_entry(&devices, "2-8").is_none());
    assert!(select_device_entry(&devices, "bad").is_none());
}

#[test]
fn test_backend_empty_list() {
    let backend = FakeBackend::new(vec![]);
    assert!(backend.list_devices().is_empty());
}

#[test]
fn test_backend_returns_list() {
    let devices = vec![make_test_entry("1-1", 0x046d, 0xc261), make_test_entry("1-2", 0x8087, 0x0024)];
    let backend = FakeBackend::new(devices.clone());
    let listed = backend.list_devices();
    assert_eq!(listed.len(), 2);
    assert_eq!(listed[0].vid(), 0x046d);
    assert_eq!(listed[0].pid(), 0xc261);
}

#[test]
fn test_backend_claim_existing_device() {
    let backend = FakeBackend::new(vec![make_test_entry("1-1", 0x046d, 0xc261)]);
    assert!(backend.claim_device("1-1").is_ok());
}

#[test]
fn test_backend_claim_nonexistent_device() {
    let backend = FakeBackend::new(vec![]);
    assert!(backend.claim_device("999-999").is_err());
}

#[test]
fn test_backend_release_device() {
    let backend = FakeBackend::new(vec![]);
    assert!(backend.release_device("1-1").is_ok());
}

#[test]
fn test_backend_descriptor_tree_ok() {
    let backend = FakeBackend::new(vec![make_test_entry("1-1", 0x046d, 0xc261)]);
    let tree = backend.get_descriptor_tree("1-1").unwrap();
    assert_eq!(tree[0], 0x12);
    assert_eq!(tree[1], 0x01);
}

#[test]
fn test_backend_descriptor_tree_error() {
    let backend = FakeBackend::new(vec![]);
    assert!(backend.get_descriptor_tree("999-999").is_err());
}

#[test]
fn test_backend_execute_urb_ok() {
    let backend = FakeBackend::new(vec![make_test_entry("1-1", 0x046d, 0xc261)]);
    let result = backend.execute_urb("1-1", &cmd(), &[]).unwrap();
    assert_eq!(result.status, 0);
    assert!(result.data.is_empty());
}

#[test]
fn test_backend_trait_is_send_sync() {
    fn assert_send_sync<T: Send + Sync>() {}
    assert_send_sync::<FakeBackend>();
}

#[test]
fn test_get_device_entry_found() {
    let backend = FakeBackend::new(vec![make_test_entry("1-1", 0x046d, 0xc261)]);
    let entry = backend.get_device_entry("1-1");
    assert!(entry.is_some());
    assert_eq!(entry.unwrap().vid(), 0x046d);
}

#[test]
fn test_get_device_entry_not_found() {
    let backend = FakeBackend::new(vec![]);
    assert!(backend.get_device_entry("999-999").is_none());
}

#[test]
fn manager_finds_device_by_bus_numbers() {
    let mgr = UsbDeviceManager::with_backend(Box::new(FakeBackend::new(vec![make_test_entry("1-1", 5, 6)])));
    assert_eq!(mgr.get_device_entry("1-1").unwrap().vid(), 5);
    assert!(mgr.get_device_entry("1-x").is_none());
}

#[test]
fn urbs_need_a_claimed_device() {
    let mut mgr = UsbDeviceManager::with_backend(Box::new(FakeBackend::new(vec![make_test_entry("1-1", 5, 6)])));
    let err = mgr.execute_urb("1-1", &cmd(), &[]).unwrap_err();
    assert!(matches!(err.kind(), ErrorKind::DeviceNotFound(s) if s == "1-1"));
    let ex = UrbExecutor::new("1-1".to_string());
    assert_eq!(ex.execute(&mgr, &cmd(), &[]).status, -19);

    mgr.claim_device("1-1").unwrap();
    assert!(mgr.execute_urb("1-1", &cmd(), &[]).is_ok());
    assert_eq!(ex.execute(&mgr, &cmd(), &[]).status, 0);

    mgr.release_device("1-1").unwrap();
    assert!(mgr.execute_urb("1-1", &cmd(), &[]).is_err());
}

#[test]
fn failed_claim_records_nothing() {
    let mut mgr = UsbDeviceManager::with_backend(Box::new(FakeBackend::new(vec![])));
    assert!(mgr.claim_device("9-9").is_err());
    assert!(mgr.execute_urb("9-9", &cmd(), &[]).is_err());
}

#[test]
fn descriptor_tree_comes_from_backend() {
    let mgr = UsbDeviceManager::with_backend(Box::new(FakeBackend::new(vec![make_test_entry("1-1", 5, 6)])));
    assert_eq!(mgr.get_descriptor_tree("1-1").unwrap(), vec![0x12, 0x01, 0x00, 0x02]);
    assert!(mgr.get_descriptor_tree("2-2").is_err());
}

#[test]
fn record_claim_keeps_backend_answer() {
    let fake = FakeBackend::new(vec![make_test_entry("1-1", 1, 2)]);
    let mut mgr = UsbDeviceManager::with_backend(Box::new(fake));
    let refused: UsbIpResult<()> =
        Err(UsbIpError::from_kind(ErrorKind::DeviceBusy("1-1".to_string())));
    let r = mgr.record_claim("1-1", refused);
    assert!(matches!(r, Err(ref e) if matches!(e.kind(), ErrorKind::DeviceBusy(_))));
    assert!(mgr.execute_urb("1-1", &cmd(), &[]).is_err());
    assert!(mgr.record_claim("1-1", Ok(())).is_ok());
    assert!(mgr.execute_urb("1-1", &cmd(), &[]).is_ok());
}

/// Answers every transfer with the OUT data it was handed, so a test sees
/// what reached the backend.
struct EchoBackend;

impl UsbBackend for EchoBackend {
    fn list_devices(&self) -> Vec<UsbIpDeviceEntry> {
        Vec::new()
    }

    fn get_device_entry(&self, _busid: &str) -> Option<UsbIpDeviceEntry> {
        None
    }

    fn claim_device(&self, _busid: &str) -> UsbIpResult<()> {
        Ok(())
    }

    fn release_device(&self, _busid: &str) -> UsbIpResult<()> {
        Ok(())
    }

    fn get_descriptor_tree(&self, busid: &str) -> UsbIpResult<Vec<u8>> {
        Ok(busid.as_bytes().to_vec())
    }

    fn execute_urb(
        &self,
        busid: &str,
        cmd: &UsbIpCmdSubmit,
        out_data: &[u8],
    ) -> UsbIpResult<UrbTransferResult> {
        if busid != "3-4" {
            return Err(UsbIpError::from_kind(ErrorKind::Timeout));
        }
        Ok(UrbTransferResult {
            status: cmd.seqnum as i32,
            actual_length: out_data.len() as u32,
            data: out_data.to_vec(),
        })
    }
}

#[test]
fn executor_hands_command_and_out_data_to_backend() {
    let mut mgr = UsbDeviceManager::with_backend(Box::new(EchoBackend));
    mgr.claim_device("3-4").unwrap();
    let ex = UrbExecutor::new("3-4".to_string());
    let r = ex.execute(&mgr, &cmd(), &[7, 8, 9]);
    assert_eq!(r.status, cmd().seqnum as i32);
    assert_eq!(r.actual_length, 3);
    assert_eq!(r.data, vec![7, 8, 9]);
    let direct = mgr.execute_urb("3-4", &cmd(), &[5]).unwrap();
    assert_eq!(direct.data, vec![5]);
    assert_eq!(mgr.get_descriptor_tree("3-4").unwrap(), b"3-4".to_vec());
}

#[test]
fn executor_uses_its_own_bus_id() {
    let mut mgr = UsbDeviceManager::with_backend(Box::new(EchoBackend));
    mgr.claim_device("1-2").unwrap();
    let ex = UrbExecutor::new("1-2".to_string());
    let r = ex.execute(&mgr, &cmd(), &[1]);
    assert_eq!(r.status, -62);
    assert_eq!(r.actual_length, 0);
    assert!(r.data.is_empty());
}
