//! USB descriptor parsing: device, configuration, interface, endpoint,
//! HID, and the full descriptor tree received in OP_REP_IMPORT.
//!
//! Multi-byte descriptor fields are little-endian (USB native).
use vstd::prelude::*;
use crate::codec::{le16, le16_at, lemma_le16_roundtrip, push_bytes, push_le16, read_le16};

verus! {

/// Standard USB device descriptor (18 bytes).
#[derive(Debug, Clone, Copy, PartialEq, Eq, Structural)]
pub struct DeviceDescriptor {
    pub b_length: u8,
    pub b_descriptor_type: u8,
    pub bcd_usb: u16,
    pub b_device_class: u8,
    pub b_device_sub_class: u8,
    pub b_device_protocol: u8,
    pub b_max_packet_size0: u8,
    pub id_vendor: u16,
    pub id_product: u16,
    pub bcd_device: u16,
    pub i_manufacturer: u8,
    pub i_product: u8,
    pub i_serial_number: u8,
    pub b_num_configurations: u8,
}

impl DeviceDescriptor {
    pub const SIZE: usize = 18;

    /// The device descriptor at the start of `s`: any 18 bytes qualify.
    pub open spec fn spec_parse(s: Seq<u8>) -> Option<DeviceDescriptor> {
        if s.len() < 18 {
            None
        } else {
            Some(
                DeviceDescriptor {
                    b_length: s[0],
                    b_descriptor_type: s[1],
                    bcd_usb: le16_at(s, 2),
                    b_device_class: s[4],
                    b_device_sub_class: s[5],
                    b_device_protocol: s[6],
                    b_max_packet_size0: s[7],
                    id_vendor: le16_at(s, 8),
                    id_product: le16_at(s, 10),
                    bcd_device: le16_at(s, 12),
                    i_manufacturer: s[14],
                    i_product: s[15],
                    i_serial_number: s[16],
                    b_num_configurations: s[17],
                },
            )
        }
    }

    /// Parse a device descriptor; `None` when fewer than 18 bytes are given.
    pub fn parse(raw: &[u8]) -> (r: Option<Self>)
        ensures
            r == Self::spec_parse(raw@),
    {
        if raw.len() < 18 {
            return None;
        }
        Some(
            DeviceDescriptor {
                b_length: raw[0],
                b_descriptor_type: raw[1],
                bcd_usb: read_le16(raw, 2),
                b_device_class: raw[4],
                b_device_sub_class: raw[5],
                b_device_protocol: raw[6],
                b_max_packet_size0: raw[7],
                id_vendor: read_le16(raw, 8),
                id_product: read_le16(raw, 10),
                bcd_device: read_le16(raw, 12),
                i_manufacturer: raw[14],
                i_product: raw[15],
                i_serial_number: raw[16],
                b_num_configurations: raw[17],
            },
        )
    }
}

/// Standard USB configuration descriptor (9 bytes, type 0x02).
#[derive(Debug, Clone, Copy, PartialEq, Eq, Structural)]
pub struct ConfigDescriptor {
    pub b_length: u8,
    pub b_descriptor_type: u8,
    pub w_total_length: u16,
    pub b_num_interfaces: u8,
    pub b_configuration_value: u8,
    pub i_configuration: u8,
    pub bm_attributes: u8,
    pub b_max_power: u8,
}

impl ConfigDescriptor {
    pub const SIZE: usize = 9;

    /// The configuration descriptor at the start of `s`: at least 9 bytes
    /// with type byte 0x02.
    pub open spec fn spec_parse(s: Seq<u8>) -> Option<ConfigDescriptor> {
        if s.len() < 9 || s[1] != 0x02 {
            None
        } else {
            Some(
                ConfigDescriptor {
                    b_length: s[0],
                    b_descriptor_type: s[1],
                    w_total_length: le16_at(s, 2),
                    b_num_interfaces: s[4],
                    b_configuration_value: s[5],
                    i_configuration: s[6],
                    bm_attributes: s[7],
                    b_max_power: s[8],
                },
            )
        }
    }

    /// Parse a configuration descriptor.
    pub fn parse(raw: &[u8]) -> (r: Option<Self>)
        ensures
            r == Self::spec_parse(raw@),
    {
        if raw.len() < 9 || raw[1] != 0x02 {
            return None;
        }
        Some(
            ConfigDescriptor {
                b_length: raw[0],
                b_descriptor_type: raw[1],
                w_total_length: read_le16(raw, 2),
                b_num_interfaces: raw[4],
                b_configuration_value: raw[5],
                i_configuration: raw[6],
                bm_attributes: raw[7],
                b_max_power: raw[8],
            },
        )
    }
}

/// Standard USB interface descriptor (9 bytes, type 0x04).
#[derive(Debug, Clone, Copy, PartialEq, Eq, Structural)]
pub struct InterfaceDescriptor {
    pub b_length: u8,
    pub b_descriptor_type: u8,
    pub b_interface_number: u8,
    pub b_alternate_setting: u8,
    pub b_num_endpoints: u8,
    pub b_interface_class: u8,
    pub b_interface_sub_class: u8,
    pub b_interface_protocol: u8,
    pub i_interface: u8,
}

impl InterfaceDescriptor {
    pub const SIZE: usize = 9;

    /// The interface descriptor at the start of `s`: at least 9 bytes with
    /// type byte 0x04.
    pub open spec fn spec_parse(s: Seq<u8>) -> Option<InterfaceDescriptor> {
        if s.len() < 9 || s[1] != 0x04 {
            None
        } else {
            Some(
                InterfaceDescriptor {
                    b_length: s[0],
                    b_descriptor_type: s[1],
                    b_interface_number: s[2],
                    b_alternate_setting: s[3],
                    b_num_endpoints: s[4],
                    b_interface_class: s[5],
                    b_interface_sub_class: s[6],
                    b_interface_protocol: s[7],
                    i_interface: s[8],
                },
            )
        }
    }

    /// Parse an interface descriptor.
    pub fn parse(raw: &[u8]) -> (r: Option<Self>)
        ensures
            r == Self::spec_parse(raw@),
    {
        if raw.len() < 9 || raw[1] != 0x04 {
            return None;
        }
        Some(
            InterfaceDescriptor {
                b_length: raw[0],
                b_descriptor_type: raw[1],
                b_interface_number: raw[2],
                b_alternate_setting: raw[3],
                b_num_endpoints: raw[4],
                b_interface_class: raw[5],
                b_interface_sub_class: raw[6],
                b_interface_protocol: raw[7],
                i_interface: raw[8],
            },
        )
    }
}

/// Transfer type of an endpoint (bits 0-1 of `bmAttributes`).
#[derive(Debug, Clone, Copy, PartialEq, Eq, Structural)]
pub enum EndpointType {
    Control,
    Isochronous,
    Bulk,
    Interrupt,
}

/// Standard USB endpoint descriptor (7 bytes, type 0x05).
#[derive(Debug, Clone, Copy, PartialEq, Eq, Structural)]
pub struct EndpointDescriptor {
    pub b_length: u8,
    pub b_descriptor_type: u8,
    pub b_endpoint_address: u8,
    pub bm_attributes: u8,
    pub w_max_packet_size: u16,
    pub b_interval: u8,
}

impl EndpointDescriptor {
    pub const SIZE: usize = 7;

    /// The endpoint descriptor at the start of `s`: at least 7 bytes with
    /// type byte 0x05.
    pub open spec fn spec_parse(s: Seq<u8>) -> Option<EndpointDescriptor> {
        if s.len() < 7 || s[1] != 0x05 {
            None
        } else {
            Some(
                EndpointDescriptor {
                    b_length: s[0],
                    b_descriptor_type: s[1],
                    b_endpoint_address: s[2],
                    bm_attributes: s[3],
                    w_max_packet_size: le16_at(s, 4),
                    b_interval: s[6],
                },
            )
        }
    }

    /// Parse an endpoint descriptor.
    pub fn parse(raw: &[u8]) -> (r: Option<Self>)
        ensures
            r == Self::spec_parse(raw@),
    {
        if raw.len() < 7 || raw[1] != 0x05 {
            return None;
        }
        Some(
            EndpointDescriptor {
                b_length: raw[0],
                b_descriptor_type: raw[1],
                b_endpoint_address: raw[2],
                bm_attributes: raw[3],
                w_max_packet_size: read_le16(raw, 4),
                b_interval: raw[6],
            },
        )
    }

    /// Endpoint number: the low 4 bits of the address.
    pub fn ep_number(&self) -> (r: u8)
        ensures
            r == self.b_endpoint_address & 0x0F,
    {
        self.b_endpoint_address & 0x0F
    }

    /// Direction: true for IN (device to host), bit 7 of the address.
    pub fn is_in(&self) -> (r: bool)
        ensures
            r == (self.b_endpoint_address & 0x80 != 0),
    {
        (self.b_endpoint_address & 0x80) != 0
    }

    /// Transfer type from bits 0-1 of `bmAttributes`.
    pub fn transfer_type(&self) -> (r: EndpointType)
        ensures
            r == transfer_type_of(self.bm_attributes),
            self.bm_attributes % 4 == 0 ==> r == EndpointType::Control,
            self.bm_attributes % 4 == 1 ==> r == EndpointType::Isochronous,
            self.bm_attributes % 4 == 2 ==> r == EndpointType::Bulk,
            self.bm_attributes % 4 == 3 ==> r == EndpointType::Interrupt,
    {
        proof {
            law_transfer_type_by_low_bits(self.bm_attributes);
        }
        match self.bm_attributes & 0x03 {
            0 => EndpointType::Control,
            1 => EndpointType::Isochronous,
            2 => EndpointType::Bulk,
            _ => EndpointType::Interrupt,
        }
    }
}

/// The transfer type encoded in an endpoint's attribute byte.
pub open spec fn transfer_type_of(bm_attributes: u8) -> EndpointType {
    let t = bm_attributes & 0x03;
    if t == 0 {
        EndpointType::Control
    } else if t == 1 {
        EndpointType::Isochronous
    } else if t == 2 {
        EndpointType::Bulk
    } else {
        EndpointType::Interrupt
    }
}

/// The two low bits of an endpoint's attribute byte name its transfer
/// type, whatever the other bits hold: 0 control, 1 isochronous, 2 bulk,
/// 3 interrupt.
pub proof fn law_transfer_type_by_low_bits(bm_attributes: u8)
    ensures
        bm_attributes % 4 == 0 ==> transfer_type_of(bm_attributes) == EndpointType::Control,
        bm_attributes % 4 == 1 ==> transfer_type_of(bm_attributes) == EndpointType::Isochronous,
        bm_attributes % 4 == 2 ==> transfer_type_of(bm_attributes) == EndpointType::Bulk,
        bm_attributes % 4 == 3 ==> transfer_type_of(bm_attributes) == EndpointType::Interrupt,
{
    assert(bm_attributes & 0x03 == bm_attributes % 4) by (bit_vector);
}

/// HID class descriptor (9 bytes, type 0x21), following an interface.
#[derive(Debug, Clone, Copy, PartialEq, Eq, Structural)]
pub struct HidDescriptor {
    pub b_length: u8,
    pub b_descriptor_type: u8,
    pub bcd_hid: u16,
    pub b_country_code: u8,
    pub b_num_descriptors: u8,
    pub report_descriptor_type: u8,
    pub w_report_descriptor_length: u16,
}

impl HidDescriptor {
    pub const SIZE: usize = 9;

    /// The HID descriptor at the start of `s`: at least 9 bytes with type
    /// byte 0x21.
    pub open spec fn spec_parse(s: Seq<u8>) -> Option<HidDescriptor> {
        if s.len() < 9 || s[1] != 0x21 {
            None
        } else {
            Some(
                HidDescriptor {
                    b_length: s[0],
                    b_descriptor_type: s[1],
                    bcd_hid: le16_at(s, 2),
                    b_country_code: s[4],
                    b_num_descriptors: s[5],
                    report_descriptor_type: s[6],
                    w_report_descriptor_length: le16_at(s, 7),
                },
            )
        }
    }

    /// Parse a HID descriptor.
    pub fn parse(raw: &[u8]) -> (r: Option<Self>)
        ensures
            r == Self::spec_parse(raw@),
    {
        if raw.len() < 9 || raw[1] != 0x21 {
            return None;
        }
        Some(
            HidDescriptor {
                b_length: raw[0],
                b_descriptor_type: raw[1],
                bcd_hid: read_le16(raw, 2),
                b_country_code: raw[4],
                b_num_descriptors: raw[5],
                report_descriptor_type: raw[6],
                w_report_descriptor_length: read_le16(raw, 7),
            },
        )
    }
}

} // verus!

verus! {

/// A fully parsed USB device with all its descriptors.
#[derive(Debug, Clone)]
pub struct UsbDeviceInfo {
    pub device: DeviceDescriptor,
    pub configs: Vec<ConfigInfo>,
}

/// One configuration with its interfaces.
#[derive(Debug, Clone)]
pub struct ConfigInfo {
    pub config: ConfigDescriptor,
    pub interfaces: Vec<InterfaceInfo>,
}

/// One interface with its endpoints and optional HID descriptor.
#[derive(Debug, Clone)]
pub struct InterfaceInfo {
    pub interface: InterfaceDescriptor,
    pub endpoints: Vec<EndpointDescriptor>,
    pub hid: Option<HidDescriptor>,
}

/// Mathematical model of [`InterfaceInfo`].
pub struct InterfaceModel {
    pub interface: InterfaceDescriptor,
    pub endpoints: Seq<EndpointDescriptor>,
    pub hid: Option<HidDescriptor>,
}

/// Mathematical model of [`ConfigInfo`].
pub struct ConfigModel {
    pub config: ConfigDescriptor,
    pub interfaces: Seq<InterfaceModel>,
}

/// Mathematical model of [`UsbDeviceInfo`].
pub struct DeviceModel {
    pub device: DeviceDescriptor,
    pub configs: Seq<ConfigModel>,
}

impl View for InterfaceInfo {
    type V = InterfaceModel;

    open spec fn view(&self) -> InterfaceModel {
        InterfaceModel { interface: self.interface, endpoints: self.endpoints@, hid: self.hid }
    }
}

pub open spec fn interfaces_model(v: Seq<InterfaceInfo>) -> Seq<InterfaceModel> {
    v.map_values(|i: InterfaceInfo| i@)
}

impl View for ConfigInfo {
    type V = ConfigModel;

    open spec fn view(&self) -> ConfigModel {
        ConfigModel { config: self.config, interfaces: interfaces_model(self.interfaces@) }
    }
}

pub open spec fn configs_model(v: Seq<ConfigInfo>) -> Seq<ConfigModel> {
    v.map_values(|c: ConfigInfo| c@)
}

impl View for UsbDeviceInfo {
    type V = DeviceModel;

    open spec fn view(&self) -> DeviceModel {
        DeviceModel { device: self.device, configs: configs_model(self.configs@) }
    }
}

/// What parsing a descriptor tree does: it panics or never returns, it
/// rejects the input (`None`), or it yields a value.
pub enum Outcome<T> {
    Panics,
    Rejects,
    Yields(T),
}

/// The endpoint/HID scan after an interface descriptor: at most `k` more
/// descriptors are read starting at `off`, stopping at the first one that
/// is neither a valid endpoint (0x05) nor a valid HID (0x21) descriptor or
/// when fewer than 2 bytes remain before `end`. `None` when a type byte
/// would be read past the input.
pub open spec fn scan_endpoints(
    raw: Seq<u8>,
    end: int,
    off: int,
    k: nat,
    eps: Seq<EndpointDescriptor>,
    hid: Option<HidDescriptor>,
) -> Option<(int, Seq<EndpointDescriptor>, Option<HidDescriptor>)>
    decreases k,
{
    if k == 0 || off + 2 > end {
        Some((off, eps, hid))
    } else if off + 1 >= raw.len() || off < 0 {
        None
    } else if raw[off + 1] == 0x05 && EndpointDescriptor::spec_parse(
        raw.subrange(off, raw.len() as int),
    ) is Some {
        scan_endpoints(
            raw,
            end,
            off + 7,
            (k - 1) as nat,
            eps.push(EndpointDescriptor::spec_parse(raw.subrange(off, raw.len() as int)).unwrap()),
            hid,
        )
    } else if raw[off + 1] == 0x21 && HidDescriptor::spec_parse(
        raw.subrange(off, raw.len() as int),
    ) is Some {
        scan_endpoints(
            raw,
            end,
            off + 9,
            (k - 1) as nat,
            eps,
            Some(HidDescriptor::spec_parse(raw.subrange(off, raw.len() as int)).unwrap()),
        )
    } else {
        Some((off, eps, hid))
    }
}

/// The endpoint scan never moves backwards and never past the input.
pub proof fn lemma_scan_endpoints_bounds(
    raw: Seq<u8>,
    end: int,
    off: int,
    k: nat,
    eps: Seq<EndpointDescriptor>,
    hid: Option<HidDescriptor>,
)
    requires
        0 <= off <= raw.len(),
    ensures
        scan_endpoints(raw, end, off, k, eps, hid) matches Some((o, _, _)) ==> off <= o
            <= raw.len(),
    decreases k,
{
    if k == 0 || off + 2 > end {
    } else if off + 1 >= raw.len() || off < 0 {
    } else if raw[off + 1] == 0x05 && EndpointDescriptor::spec_parse(
        raw.subrange(off, raw.len() as int),
    ) is Some {
        lemma_scan_endpoints_bounds(
            raw,
            end,
            off + 7,
            (k - 1) as nat,
            eps.push(EndpointDescriptor::spec_parse(raw.subrange(off, raw.len() as int)).unwrap()),
            hid,
        );
    } else if raw[off + 1] == 0x21 && HidDescriptor::spec_parse(
        raw.subrange(off, raw.len() as int),
    ) is Some {
        lemma_scan_endpoints_bounds(
            raw,
            end,
            off + 9,
            (k - 1) as nat,
            eps,
            Some(HidDescriptor::spec_parse(raw.subrange(off, raw.len() as int)).unwrap()),
        );
    }
}

/// The interfaces of one configuration, read from `off` while a whole
/// interface descriptor fits before `end`.
pub open spec fn scan_interfaces(raw: Seq<u8>, end: int, off: int, ifaces: Seq<InterfaceModel>) ->
    Outcome<Seq<InterfaceModel>>
    decreases raw.len() - off,
{
    if !(off + 9 <= end) {
        Outcome::Yields(ifaces)
    } else if off < 0 || off > raw.len() {
        Outcome::Panics
    } else {
        match InterfaceDescriptor::spec_parse(raw.subrange(off, raw.len() as int)) {
            None => Outcome::Rejects,
            Some(iface) => {
                if iface.b_num_endpoints == 255 {
                    Outcome::Panics
                } else {
                    match scan_endpoints(
                        raw,
                        end,
                        off + 9,
                        (iface.b_num_endpoints + 1) as nat,
                        Seq::empty(),
                        None,
                    ) {
                        None => Outcome::Panics,
                        Some((off2, eps, hid)) => {
                            let next = ifaces.push(
                                InterfaceModel { interface: iface, endpoints: eps, hid },
                            );
                            proof {
                                lemma_scan_endpoints_bounds(
                                    raw,
                                    end,
                                    off + 9,
                                    (iface.b_num_endpoints + 1) as nat,
                                    Seq::empty(),
                                    None,
                                );
                            }
                            if off2 >= end {
                                Outcome::Yields(next)
                            } else {
                                scan_interfaces(raw, end, off2, next)
                            }
                        },
                    }
                }
            },
        }
    }
}

/// Where a configuration found at `off` ends: `off` plus the smaller of its
/// total length and the input length.
pub open spec fn config_end(raw: Seq<u8>, off: int, c: ConfigDescriptor) -> int {
    off + if (c.w_total_length as int) < raw.len() {
        c.w_total_length as int
    } else {
        raw.len() as int
    }
}

/// The configurations read from `off`: configuration descriptors (type
/// 0x02) are expanded with their interfaces, other descriptors are skipped
/// by their length; a zero or overlong length ends the scan.
pub open spec fn scan_configs(raw: Seq<u8>, off: int, configs: Seq<ConfigModel>) -> Outcome<
    Seq<ConfigModel>,
>
    decreases (if off < raw.len() {
        raw.len() - off
    } else {
        0
    }),
{
    if off >= raw.len() || off < 0 {
        Outcome::Yields(configs)
    } else if off + 1 >= raw.len() {
        Outcome::Panics
    } else if raw[off + 1] == 0x02 {
        match ConfigDescriptor::spec_parse(raw.subrange(off, raw.len() as int)) {
            None => Outcome::Rejects,
            Some(c) => {
                let end = config_end(raw, off, c);
                if end <= off {
                    Outcome::Panics
                } else {
                    match scan_interfaces(raw, end, off + 9, Seq::empty()) {
                        Outcome::Panics => Outcome::Panics,
                        Outcome::Rejects => Outcome::Rejects,
                        Outcome::Yields(ifaces) => scan_configs(
                            raw,
                            end,
                            configs.push(ConfigModel { config: c, interfaces: ifaces }),
                        ),
                    }
                }
            },
        }
    } else {
        let dl = raw[off] as int;
        if dl == 0 || off + dl > raw.len() {
            Outcome::Yields(configs)
        } else {
            scan_configs(raw, off + dl, configs)
        }
    }
}

/// What parsing the descriptor tree `raw` does.
pub open spec fn tree_outcome(raw: Seq<u8>) -> Outcome<DeviceModel> {
    match DeviceDescriptor::spec_parse(raw) {
        None => Outcome::Rejects,
        Some(d) => match scan_configs(raw, 18, Seq::empty()) {
            Outcome::Panics => Outcome::Panics,
            Outcome::Rejects => Outcome::Rejects,
            Outcome::Yields(cs) => Outcome::Yields(DeviceModel { device: d, configs: cs }),
        },
    }
}

} // verus!

verus! {

impl UsbDeviceInfo {
    /// Parse a raw descriptor tree (as received in OP_REP_IMPORT).
    ///
    /// Inputs on which the scan would read a type byte past the end, meet an
    /// interface claiming 255 endpoints, or meet a configuration whose total
    /// length is 0 (the scan then never advances) are outside the contract;
    /// `scan_descriptor_tree` tells them apart.
    pub fn parse_descriptor_tree(raw: &[u8]) -> (r: Option<Self>)
        requires
            raw@.len() <= usize::MAX / 2,
            !(tree_outcome(raw@) is Panics),
        ensures
            tree_outcome(raw@) is Rejects ==> r is None,
            tree_outcome(raw@) matches Outcome::Yields(m) ==> (r matches Some(info) && info@ == m),
    {
        match Self::scan_descriptor_tree(raw) {
            Outcome::Yields(info) => Some(info),
            _ => None,
        }
    }

    /// Scan a raw descriptor tree: the tree, its rejection, or `Panics` for
    /// the inputs on which parsing it panics or never returns.
    pub fn scan_descriptor_tree(raw: &[u8]) -> (r: Outcome<Self>)
        requires
            raw@.len() <= usize::MAX / 2,
        ensures
            tree_outcome(raw@) is Panics ==> r is Panics,
            tree_outcome(raw@) is Rejects ==> r is Rejects,
            tree_outcome(raw@) matches Outcome::Yields(m) ==> (r matches Outcome::Yields(info)
                && info@ == m),
    {
        let device = match DeviceDescriptor::parse(raw) {
            Some(d) => d,
            None => return Outcome::Rejects,
        };
        let ghost init = scan_configs(raw@, 18, Seq::empty());
        let n = raw.len();
        let mut configs: Vec<ConfigInfo> = Vec::new();
        let mut offset: usize = 18;
        let mut done = false;
        assert(configs_model(configs@) =~= Seq::<ConfigModel>::empty());
        while !done && offset < n
            invariant
                n == raw@.len(),
                n <= usize::MAX / 2,
                offset <= 2 * n,
                init == scan_configs(raw@, 18, Seq::empty()),
                init is Rejects ==> tree_outcome(raw@) is Rejects,
                init is Panics ==> tree_outcome(raw@) is Panics,
                !done ==> scan_configs(raw@, offset as int, configs_model(configs@)) == init,
                done ==> init == Outcome::Yields(configs_model(configs@)),
            decreases (if offset < n {
                n - offset
            } else {
                0
            }) + (if done {
                0int
            } else {
                1int
            }),
        {
            if offset + 1 >= n {
                return Outcome::Panics;
            }
            let desc_len = raw[offset] as usize;
            let desc_type = raw[offset + 1];
            if desc_type == 2 {
                let config = match ConfigDescriptor::parse(&raw[offset..n]) {
                    Some(c) => c,
                    None => return Outcome::Rejects,
                };
                let total_len = config.w_total_length as usize;
                let cend = offset + if total_len < n {
                    total_len
                } else {
                    n
                };
                assert(cend == config_end(raw@, offset as int, config));
                if cend <= offset {
                    return Outcome::Panics;
                }
                let ghost ifinit = scan_interfaces(raw@, cend as int, offset + 9, Seq::empty());
                let mut interfaces: Vec<InterfaceInfo> = Vec::new();
                let mut inner = offset + 9;
                let mut idone = false;
                assert(interfaces_model(interfaces@) =~= Seq::<InterfaceModel>::empty());
                assert(ifinit is Rejects ==> tree_outcome(raw@) is Rejects);
                assert(ifinit is Panics ==> tree_outcome(raw@) is Panics);
                while !idone && inner + 9 <= cend
                    invariant
                        ifinit is Rejects ==> tree_outcome(raw@) is Rejects,
                        ifinit is Panics ==> tree_outcome(raw@) is Panics,
                        n == raw@.len(),
                        n <= usize::MAX / 2,
                        cend <= 2 * n,
                        inner <= n + 9,
                        !idone ==> scan_interfaces(
                            raw@,
                            cend as int,
                            inner as int,
                            interfaces_model(interfaces@),
                        ) == ifinit,
                        idone ==> ifinit == Outcome::Yields(interfaces_model(interfaces@)),
                    decreases (n - inner) + (if idone {
                        0int
                    } else {
                        1int
                    }),
                {
                    if inner > n {
                        return Outcome::Panics;
                    }
                    let iface = match InterfaceDescriptor::parse(&raw[inner..n]) {
                        Some(i) => i,
                        None => return Outcome::Rejects,
                    };
                    if iface.b_num_endpoints == 255 {
                        return Outcome::Panics;
                    }
                    let count: u8 = iface.b_num_endpoints + 1;
                    let ghost epinit = scan_endpoints(
                        raw@,
                        cend as int,
                        inner + 9,
                        count as nat,
                        Seq::empty(),
                        None,
                    );
                    proof {
                        lemma_scan_endpoints_bounds(
                            raw@,
                            cend as int,
                            inner + 9,
                            count as nat,
                            Seq::empty(),
                            None,
                        );
                    }
                    let mut endpoints: Vec<EndpointDescriptor> = Vec::new();
                    let mut hid: Option<HidDescriptor> = None;
                    let mut pos = inner + 9;
                    let mut remaining: u8 = count;
                    let mut edone = false;
                    assert(endpoints@ =~= Seq::<EndpointDescriptor>::empty());
                    while !edone && remaining > 0
                        invariant
                            n == raw@.len(),
                            n <= usize::MAX / 2,
                            cend <= 2 * n,
                            pos <= n,
                            epinit is None ==> tree_outcome(raw@) is Panics,
                            !edone ==> scan_endpoints(
                                raw@,
                                cend as int,
                                pos as int,
                                remaining as nat,
                                endpoints@,
                                hid,
                            ) == epinit,
                            edone ==> epinit == Some((pos as int, endpoints@, hid)),
                        decreases remaining as int + (if edone {
                            0int
                        } else {
                            1int
                        }),
                    {
                        if pos + 2 > cend {
                            edone = true;
                        } else if pos + 1 >= n {
                            return Outcome::Panics;
                        } else {
                            let sub_type = raw[pos + 1];
                            let mut stepped = false;
                            if sub_type == 5 {
                                match EndpointDescriptor::parse(&raw[pos..n]) {
                                    Some(ep) => {
                                        endpoints.push(ep);
                                        pos = pos + 7;
                                        remaining = remaining - 1;
                                        stepped = true;
                                    },
                                    None => {},
                                }
                            }
                            if !stepped && sub_type == 0x21 {
                                match HidDescriptor::parse(&raw[pos..n]) {
                                    Some(h) => {
                                        hid = Some(h);
                                        pos = pos + 9;
                                        remaining = remaining - 1;
                                        stepped = true;
                                    },
                                    None => {},
                                }
                            }
                            if !stepped {
                                edone = true;
                            }
                        }
                    }
                    let ghost before = interfaces_model(interfaces@);
                    let info = InterfaceInfo { interface: iface, endpoints, hid };
                    interfaces.push(info);
                    assert(interfaces_model(interfaces@) =~= before.push(info@));
                    inner = pos;
                    if inner >= cend {
                        idone = true;
                    }
                }
                let ghost before = configs_model(configs@);
                let ci = ConfigInfo { config, interfaces };
                configs.push(ci);
                assert(configs_model(configs@) =~= before.push(ci@));
                offset = cend;
            } else {
                if desc_len == 0 || offset + desc_len > n {
                    done = true;
                } else {
                    offset = offset + desc_len;
                }
            }
        }
        Outcome::Yields(UsbDeviceInfo { device, configs })
    }

}

} // verus!

verus! {

// ─── Encoding ─────────────────────────────────────────────────────

impl DeviceDescriptor {
    /// The 18 wire bytes of this descriptor.
    pub open spec fn spec_bytes(self) -> Seq<u8> {
        seq![self.b_length, self.b_descriptor_type] + le16(self.bcd_usb) + seq![
            self.b_device_class,
            self.b_device_sub_class,
            self.b_device_protocol,
            self.b_max_packet_size0,
        ] + le16(self.id_vendor) + le16(self.id_product) + le16(self.bcd_device) + seq![
            self.i_manufacturer,
            self.i_product,
            self.i_serial_number,
            self.b_num_configurations,
        ]
    }

    /// The wire bytes of this descriptor.
    pub fn to_bytes(&self) -> (b: Vec<u8>)
        ensures
            b@ == self.spec_bytes(),
    {
        let mut b: Vec<u8> = Vec::new();
        b.push(self.b_length);
        b.push(self.b_descriptor_type);
        push_le16(&mut b, self.bcd_usb);
        b.push(self.b_device_class);
        b.push(self.b_device_sub_class);
        b.push(self.b_device_protocol);
        b.push(self.b_max_packet_size0);
        push_le16(&mut b, self.id_vendor);
        push_le16(&mut b, self.id_product);
        push_le16(&mut b, self.bcd_device);
        b.push(self.i_manufacturer);
        b.push(self.i_product);
        b.push(self.i_serial_number);
        b.push(self.b_num_configurations);
        assert(b@ =~= self.spec_bytes());
        b
    }
}

/// Parsing the bytes of a device descriptor gives it back.
pub proof fn law_device_descriptor_roundtrip(d: DeviceDescriptor)
    ensures
        d.spec_bytes().len() == DeviceDescriptor::SIZE,
        DeviceDescriptor::spec_parse(d.spec_bytes()) == Some(d),
{
    let s = d.spec_bytes();
    assert(le16_at(s, 2) == le16_at(le16(d.bcd_usb), 0));
    assert(le16_at(s, 8) == le16_at(le16(d.id_vendor), 0));
    assert(le16_at(s, 10) == le16_at(le16(d.id_product), 0));
    assert(le16_at(s, 12) == le16_at(le16(d.bcd_device), 0));
    lemma_le16_roundtrip(d.bcd_usb);
    lemma_le16_roundtrip(d.id_vendor);
    lemma_le16_roundtrip(d.id_product);
    lemma_le16_roundtrip(d.bcd_device);
}

impl ConfigDescriptor {
    /// The 9 wire bytes of this descriptor.
    pub open spec fn spec_bytes(self) -> Seq<u8> {
        seq![self.b_length, self.b_descriptor_type] + le16(self.w_total_length) + seq![
            self.b_num_interfaces,
            self.b_configuration_value,
            self.i_configuration,
            self.bm_attributes,
            self.b_max_power,
        ]
    }

    /// The wire bytes of this descriptor.
    pub fn to_bytes(&self) -> (b: Vec<u8>)
        ensures
            b@ == self.spec_bytes(),
    {
        let mut b: Vec<u8> = Vec::new();
        b.push(self.b_length);
        b.push(self.b_descriptor_type);
        push_le16(&mut b, self.w_total_length);
        b.push(self.b_num_interfaces);
        b.push(self.b_configuration_value);
        b.push(self.i_configuration);
        b.push(self.bm_attributes);
        b.push(self.b_max_power);
        assert(b@ =~= self.spec_bytes());
        b
    }
}

/// Parsing the bytes of a configuration descriptor of type 0x02 gives it
/// back.
pub proof fn law_config_descriptor_roundtrip(d: ConfigDescriptor)
    requires
        d.b_descriptor_type == 0x02,
    ensures
        d.spec_bytes().len() == ConfigDescriptor::SIZE,
        ConfigDescriptor::spec_parse(d.spec_bytes()) == Some(d),
{
    let s = d.spec_bytes();
    assert(le16_at(s, 2) == le16_at(le16(d.w_total_length), 0));
    lemma_le16_roundtrip(d.w_total_length);
}

impl InterfaceDescriptor {
    /// The 9 wire bytes of this descriptor.
    pub open spec fn spec_bytes(self) -> Seq<u8> {
        seq![
            self.b_length,
            self.b_descriptor_type,
            self.b_interface_number,
            self.b_alternate_setting,
            self.b_num_endpoints,
            self.b_interface_class,
            self.b_interface_sub_class,
            self.b_interface_protocol,
            self.i_interface,
        ]
    }

    /// The wire bytes of this descriptor.
    pub fn to_bytes(&self) -> (b: Vec<u8>)
        ensures
            b@ == self.spec_bytes(),
    {
        let mut b: Vec<u8> = Vec::new();
        b.push(self.b_length);
        b.push(self.b_descriptor_type);
        b.push(self.b_interface_number);
        b.push(self.b_alternate_setting);
        b.push(self.b_num_endpoints);
        b.push(self.b_interface_class);
        b.push(self.b_interface_sub_class);
        b.push(self.b_interface_protocol);
        b.push(self.i_interface);
        assert(b@ =~= self.spec_bytes());
        b
    }
}

/// Parsing the bytes of an interface descriptor of type 0x04 gives it
/// back.
pub proof fn law_interface_descriptor_roundtrip(d: InterfaceDescriptor)
    requires
        d.b_descriptor_type == 0x04,
    ensures
        d.spec_bytes().len() == InterfaceDescriptor::SIZE,
        InterfaceDescriptor::spec_parse(d.spec_bytes()) == Some(d),
{
}

impl EndpointDescriptor {
    /// The 7 wire bytes of this descriptor.
    pub open spec fn spec_bytes(self) -> Seq<u8> {
        seq![self.b_length, self.b_descriptor_type, self.b_endpoint_address, self.bm_attributes]
            + le16(self.w_max_packet_size) + seq![self.b_interval]
    }

    /// The wire bytes of this descriptor.
    pub fn to_bytes(&self) -> (b: Vec<u8>)
        ensures
            b@ == self.spec_bytes(),
    {
        let mut b: Vec<u8> = Vec::new();
        b.push(self.b_length);
        b.push(self.b_descriptor_type);
        b.push(self.b_endpoint_address);
        b.push(self.bm_attributes);
        push_le16(&mut b, self.w_max_packet_size);
        b.push(self.b_interval);
        assert(b@ =~= self.spec_bytes());
        b
    }
}

/// Parsing the bytes of an endpoint descriptor of type 0x05 gives it
/// back.
pub proof fn law_endpoint_descriptor_roundtrip(d: EndpointDescriptor)
    requires
        d.b_descriptor_type == 0x05,
    ensures
        d.spec_bytes().len() == EndpointDescriptor::SIZE,
        EndpointDescriptor::spec_parse(d.spec_bytes()) == Some(d),
{
    let s = d.spec_bytes();
    assert(le16_at(s, 4) == le16_at(le16(d.w_max_packet_size), 0));
    lemma_le16_roundtrip(d.w_max_packet_size);
}


// ─── What a parsed tree holds ─────────────────────────────────────

/// 1 when a HID descriptor is present, else 0.
pub open spec fn hid_count(h: Option<HidDescriptor>) -> nat {
    if h is Some {
        1
    } else {
        0
    }
}

/// Endpoints of type 0x05 and, when present, a HID descriptor of type 0x21.
pub open spec fn endpoints_typed(eps: Seq<EndpointDescriptor>, hid: Option<HidDescriptor>) -> bool {
    &&& forall|i: int| 0 <= i < eps.len() ==> (#[trigger] eps[i]).b_descriptor_type == 0x05
    &&& hid matches Some(h) ==> h.b_descriptor_type == 0x21
}

/// An interface of type 0x04 whose endpoints and HID descriptor are typed,
/// with no more of them than its endpoint count plus one.
pub open spec fn interface_typed(i: InterfaceModel) -> bool {
    &&& i.interface.b_descriptor_type == 0x04
    &&& endpoints_typed(i.endpoints, i.hid)
    &&& i.endpoints.len() + hid_count(i.hid) <= i.interface.b_num_endpoints + 1
}

/// Every interface typed.
pub open spec fn interfaces_typed(v: Seq<InterfaceModel>) -> bool {
    forall|i: int| 0 <= i < v.len() ==> interface_typed(#[trigger] v[i])
}

/// Configurations of type 0x02 whose interfaces are typed.
pub open spec fn configs_typed(v: Seq<ConfigModel>) -> bool {
    forall|i: int|
        0 <= i < v.len() ==> (#[trigger] v[i]).config.b_descriptor_type == 0x02 && interfaces_typed(
            v[i].interfaces,
        )
}

proof fn lemma_endpoints_typed(
    raw: Seq<u8>,
    end: int,
    off: int,
    k: nat,
    eps: Seq<EndpointDescriptor>,
    hid: Option<HidDescriptor>,
)
    requires
        endpoints_typed(eps, hid),
    ensures
        scan_endpoints(raw, end, off, k, eps, hid) matches Some((_, e2, h2)) ==> endpoints_typed(
            e2,
            h2,
        ) && e2.len() + hid_count(h2) <= eps.len() + hid_count(hid) + k,
    decreases k,
{
    if k == 0 || off + 2 > end {
    } else if off + 1 >= raw.len() || off < 0 {
    } else if raw[off + 1] == 0x05 && EndpointDescriptor::spec_parse(
        raw.subrange(off, raw.len() as int),
    ) is Some {
        let e = EndpointDescriptor::spec_parse(raw.subrange(off, raw.len() as int)).unwrap();
        let eps2 = eps.push(e);
        assert(endpoints_typed(eps2, hid)) by {
            assert forall|i: int| 0 <= i < eps2.len() implies (#[trigger] eps2[i]).b_descriptor_type
                == 0x05 by {
                if i < eps.len() {
                    assert(eps2[i] == eps[i]);
                }
            }
        }
        lemma_endpoints_typed(raw, end, off + 7, (k - 1) as nat, eps2, hid);
    } else if raw[off + 1] == 0x21 && HidDescriptor::spec_parse(
        raw.subrange(off, raw.len() as int),
    ) is Some {
        let h = HidDescriptor::spec_parse(raw.subrange(off, raw.len() as int)).unwrap();
        lemma_endpoints_typed(raw, end, off + 9, (k - 1) as nat, eps, Some(h));
    }
}

proof fn lemma_interfaces_typed(raw: Seq<u8>, end: int, off: int, ifaces: Seq<InterfaceModel>)
    requires
        interfaces_typed(ifaces),
    ensures
        scan_interfaces(raw, end, off, ifaces) matches Outcome::Yields(v) ==> interfaces_typed(v),
    decreases raw.len() - off,
{
    if !(off + 9 <= end) {
    } else if off < 0 || off > raw.len() {
    } else {
        match InterfaceDescriptor::spec_parse(raw.subrange(off, raw.len() as int)) {
            None => {},
            Some(iface) => {
                if iface.b_num_endpoints != 255 {
                    let k = (iface.b_num_endpoints + 1) as nat;
                    lemma_scan_endpoints_bounds(raw, end, off + 9, k, Seq::empty(), None);
                    lemma_endpoints_typed(raw, end, off + 9, k, Seq::empty(), None);
                    match scan_endpoints(raw, end, off + 9, k, Seq::empty(), None) {
                        None => {},
                        Some((off2, eps, hid)) => {
                            let m = InterfaceModel { interface: iface, endpoints: eps, hid };
                            let next = ifaces.push(m);
                            assert(interfaces_typed(next)) by {
                                assert forall|i: int| 0 <= i < next.len() implies interface_typed(
                                    #[trigger] next[i],
                                ) by {
                                    if i < ifaces.len() {
                                        assert(next[i] == ifaces[i]);
                                    }
                                }
                            }
                            if off2 < end {
                                lemma_interfaces_typed(raw, end, off2, next);
                            }
                        },
                    }
                }
            },
        }
    }
}

proof fn lemma_configs_typed(raw: Seq<u8>, off: int, configs: Seq<ConfigModel>)
    requires
        configs_typed(configs),
    ensures
        scan_configs(raw, off, configs) matches Outcome::Yields(v) ==> configs_typed(v),
    decreases (if off < raw.len() {
        raw.len() - off
    } else {
        0
    }),
{
    if off >= raw.len() || off < 0 {
    } else if off + 1 >= raw.len() {
    } else if raw[off + 1] == 0x02 {
        match ConfigDescriptor::spec_parse(raw.subrange(off, raw.len() as int)) {
            None => {},
            Some(c) => {
                let end = config_end(raw, off, c);
                if end > off {
                    lemma_interfaces_typed(raw, end, off + 9, Seq::empty());
                    match scan_interfaces(raw, end, off + 9, Seq::empty()) {
                        Outcome::Yields(ifaces) => {
                            let next = configs.push(ConfigModel { config: c, interfaces: ifaces });
                            assert(configs_typed(next)) by {
                                assert forall|i: int| 0 <= i < next.len() implies (
                                #[trigger] next[i]).config.b_descriptor_type == 0x02
                                    && interfaces_typed(next[i].interfaces) by {
                                    if i < configs.len() {
                                        assert(next[i] == configs[i]);
                                    }
                                }
                            }
                            lemma_configs_typed(raw, end, next);
                        },
                        _ => {},
                    }
                }
            },
        }
    } else {
        let dl = raw[off] as int;
        if !(dl == 0 || off + dl > raw.len()) {
            lemma_configs_typed(raw, off + dl, configs);
        }
    }
}

/// A parsed tree holds what its bytes say: the device descriptor read from
/// the start, configurations of type 0x02, interfaces of type 0x04,
/// endpoints of type 0x05 and HID descriptors of type 0x21, and no
/// interface with more endpoint and HID descriptors than its endpoint
/// count plus one.
pub proof fn law_parsed_tree_is_typed(raw: Seq<u8>)
    ensures
        tree_outcome(raw) matches Outcome::Yields(m) ==> {
            &&& Some(m.device) == DeviceDescriptor::spec_parse(raw)
            &&& configs_typed(m.configs)
        },
{
    lemma_configs_typed(raw, 18, Seq::empty());
}

} // verus!

verus! {

// ─── Assembling a device's tree ───────────────────────────────────

/// The HID interface class.
pub const HID_INTERFACE_CLASS: u8 = 0x03;

/// One interface alternate setting as a device reports it: its descriptor,
/// the extra (class-specific) bytes that follow it, and its endpoints in
/// order.
#[derive(Debug, Clone)]
pub struct InterfaceSource {
    pub descriptor: InterfaceDescriptor,
    pub extra: Vec<u8>,
    pub endpoints: Vec<EndpointDescriptor>,
}

/// One configuration as a device reports it: the fields of its
/// descriptor, whether it is self-powered and supports remote wakeup, and
/// every alternate setting of every interface, in order.
#[derive(Debug, Clone)]
pub struct ConfigSource {
    pub b_length: u8,
    pub b_descriptor_type: u8,
    pub w_total_length: u16,
    pub b_num_interfaces: u8,
    pub b_configuration_value: u8,
    pub i_configuration: u8,
    pub self_powered: bool,
    pub remote_wakeup: bool,
    pub b_max_power: u8,
    pub interfaces: Vec<InterfaceSource>,
}

/// The attributes byte of a configuration: 0x40 when it is self-powered,
/// plus 0x20 when it supports remote wakeup.
pub open spec fn config_attributes(self_powered: bool, remote_wakeup: bool) -> u8 {
    ((if self_powered { 0x40int } else { 0 }) + (if remote_wakeup { 0x20int } else { 0 })) as u8
}

/// The attributes byte of a configuration.
pub fn attributes_byte(self_powered: bool, remote_wakeup: bool) -> (r: u8)
    ensures
        r == config_attributes(self_powered, remote_wakeup),
{
    let power: u8 = if self_powered { 0x40 } else { 0 };
    let wakeup: u8 = if remote_wakeup { 0x20 } else { 0 };
    power + wakeup
}

impl ConfigSource {
    /// The configuration descriptor this configuration is reported as.
    pub open spec fn spec_descriptor(&self) -> ConfigDescriptor {
        ConfigDescriptor {
            b_length: self.b_length,
            b_descriptor_type: self.b_descriptor_type,
            w_total_length: self.w_total_length,
            b_num_interfaces: self.b_num_interfaces,
            b_configuration_value: self.b_configuration_value,
            i_configuration: self.i_configuration,
            bm_attributes: config_attributes(self.self_powered, self.remote_wakeup),
            b_max_power: self.b_max_power,
        }
    }

    /// The configuration descriptor this configuration is reported as.
    pub fn descriptor(&self) -> (d: ConfigDescriptor)
        ensures
            d == self.spec_descriptor(),
    {
        ConfigDescriptor {
            b_length: self.b_length,
            b_descriptor_type: self.b_descriptor_type,
            w_total_length: self.w_total_length,
            b_num_interfaces: self.b_num_interfaces,
            b_configuration_value: self.b_configuration_value,
            i_configuration: self.i_configuration,
            bm_attributes: attributes_byte(self.self_powered, self.remote_wakeup),
            b_max_power: self.b_max_power,
        }
    }
}

/// The bytes of endpoint descriptors, one after the other.
pub open spec fn endpoints_bytes(eps: Seq<EndpointDescriptor>) -> Seq<u8>
    decreases eps.len(),
{
    if eps.len() == 0 {
        Seq::empty()
    } else {
        endpoints_bytes(eps.drop_last()) + eps.last().spec_bytes()
    }
}

/// The extra bytes of an interface that go into the tree: those of a HID
/// interface (its HID descriptor), none for any other class.
pub open spec fn tree_extra(i: InterfaceSource) -> Seq<u8> {
    if i.descriptor.b_interface_class == HID_INTERFACE_CLASS {
        i.extra@
    } else {
        Seq::empty()
    }
}

/// The bytes of one interface alternate setting in the tree: its
/// descriptor, its extra bytes when it is HID, then its endpoints.
pub open spec fn interface_source_bytes(i: InterfaceSource) -> Seq<u8> {
    i.descriptor.spec_bytes() + tree_extra(i) + endpoints_bytes(i.endpoints@)
}

/// The bytes of interface alternate settings, one after the other.
pub open spec fn interfaces_bytes(v: Seq<InterfaceSource>) -> Seq<u8>
    decreases v.len(),
{
    if v.len() == 0 {
        Seq::empty()
    } else {
        interfaces_bytes(v.drop_last()) + interface_source_bytes(v.last())
    }
}

/// The bytes of one configuration in the tree: its descriptor, then its
/// interfaces.
pub open spec fn config_source_bytes(c: ConfigSource) -> Seq<u8> {
    c.spec_descriptor().spec_bytes() + interfaces_bytes(c.interfaces@)
}

/// The bytes of configurations, one after the other.
pub open spec fn configs_bytes(v: Seq<ConfigSource>) -> Seq<u8>
    decreases v.len(),
{
    if v.len() == 0 {
        Seq::empty()
    } else {
        configs_bytes(v.drop_last()) + config_source_bytes(v.last())
    }
}

/// The descriptor tree of a device: its device descriptor, then each of
/// its configurations in order.
pub open spec fn tree_bytes(device: DeviceDescriptor, configs: Seq<ConfigSource>) -> Seq<u8> {
    device.spec_bytes() + configs_bytes(configs)
}

/// Append the bytes of one interface alternate setting.
fn push_interface_source(out: &mut Vec<u8>, i: &InterfaceSource)
    ensures
        final(out)@ == old(out)@ + interface_source_bytes(*i),
{
    let ghost start = out@;
    let d = i.descriptor.to_bytes();
    push_bytes(out, d.as_slice());
    if i.descriptor.b_interface_class == HID_INTERFACE_CLASS {
        push_bytes(out, i.extra.as_slice());
    } else {
        assert(out@ =~= out@ + tree_extra(*i));
    }
    let ghost head = out@;
    assert(head == start + i.descriptor.spec_bytes() + tree_extra(*i));
    let mut k: usize = 0;
    while k < i.endpoints.len()
        invariant
            k <= i.endpoints@.len(),
            out@ == head + endpoints_bytes(i.endpoints@.take(k as int)),
        decreases i.endpoints@.len() - k,
    {
        let e = i.endpoints[k].to_bytes();
        push_bytes(out, e.as_slice());
        proof {
            let s = i.endpoints@;
            assert(s.take(k + 1).drop_last() =~= s.take(k as int));
            assert(s.take(k + 1).last() == s[k as int]);
            assert(out@ =~= head + endpoints_bytes(s.take(k + 1)));
        }
        k = k + 1;
    }
    proof {
        assert(i.endpoints@.take(k as int) =~= i.endpoints@);
        assert(out@ =~= start + interface_source_bytes(*i));
    }
}

/// Append the bytes of one configuration.
fn push_config_source(out: &mut Vec<u8>, c: &ConfigSource)
    ensures
        final(out)@ == old(out)@ + config_source_bytes(*c),
{
    let ghost start = out@;
    let d = c.descriptor().to_bytes();
    push_bytes(out, d.as_slice());
    let ghost head = out@;
    let mut k: usize = 0;
    while k < c.interfaces.len()
        invariant
            k <= c.interfaces@.len(),
            head == start + c.spec_descriptor().spec_bytes(),
            out@ == head + interfaces_bytes(c.interfaces@.take(k as int)),
        decreases c.interfaces@.len() - k,
    {
        push_interface_source(out, &c.interfaces[k]);
        proof {
            let s = c.interfaces@;
            assert(s.take(k + 1).drop_last() =~= s.take(k as int));
            assert(s.take(k + 1).last() == s[k as int]);
            assert(out@ =~= head + interfaces_bytes(s.take(k + 1)));
        }
        k = k + 1;
    }
    proof {
        assert(c.interfaces@.take(k as int) =~= c.interfaces@);
        assert(out@ =~= start + config_source_bytes(*c));
    }
}

/// The descriptor tree a server sends for a device: the device
/// descriptor, then for each configuration its descriptor (attributes from
/// its power flags), and for each interface alternate setting its
/// descriptor, its HID descriptor bytes when it is a HID interface, and
/// its endpoint descriptors.
pub fn descriptor_tree_bytes(device: &DeviceDescriptor, configs: &[ConfigSource]) -> (r: Vec<u8>)
    ensures
        r@ == tree_bytes(*device, configs@),
{
    let mut out = device.to_bytes();
    let mut k: usize = 0;
    while k < configs.len()
        invariant
            k <= configs@.len(),
            out@ == device.spec_bytes() + configs_bytes(configs@.take(k as int)),
        decreases configs@.len() - k,
    {
        push_config_source(&mut out, &configs[k]);
        proof {
            let s = configs@;
            assert(s.take(k + 1).drop_last() =~= s.take(k as int));
            assert(s.take(k + 1).last() == s[k as int]);
            assert(out@ =~= device.spec_bytes() + configs_bytes(s.take(k + 1)));
        }
        k = k + 1;
    }
    proof {
        assert(configs@.take(k as int) =~= configs@);
    }
    out
}

} // verus!
