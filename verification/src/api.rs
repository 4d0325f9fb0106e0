//! The administrative REST API's data and rules: the configuration it
//! exposes and updates, port validation, scan timeouts, device status, and
//! the services it is wired to.
use vstd::prelude::*;
use vstd::string::StringExecFns;
use crate::error::{ErrorCategory, ErrorKind, UsbIpError, UsbIpResult};
use crate::protocol::UsbIpDeviceEntry;
use crate::usb::UsbDeviceManager;

verus! {

/// Capacity of the latency broadcast channel, so that a slow WebSocket
/// client can miss about a second of samples before lagging.
pub const LATENCY_CHANNEL_CAPACITY: usize = 1024;

/// One URB round-trip time measurement.
#[derive(Debug, Clone)]
pub struct LatencySample {
    pub latency_us: u64,
    pub device: String,
    pub seqnum: u64,
}

/// Device listing, injected so that the API can run over a test double.
pub trait DeviceLister {
    fn list_devices(&self) -> Vec<UsbIpDeviceEntry>;
}

impl DeviceLister for UsbDeviceManager {
    fn list_devices(&self) -> Vec<UsbIpDeviceEntry> {
        UsbDeviceManager::list_devices(self)
    }
}

/// Import of a device from a remote USB/IP server.
pub trait RemoteImporter {
    /// Import the device `busid` from `host:port`; the device entry on
    /// success.
    fn import(&self, host: &str, port: u16, busid: &str) -> UsbIpResult<UsbIpDeviceEntry>;
}

/// The importer of hosts without a VHCI driver: every import fails as
/// not supported.
pub struct UnsupportedImporter;

/// The text of the not-supported import error.
pub open spec fn unsupported_import_message() -> Seq<char> {
    "remote import requires a host with VHCI driver (Linux)"@
}

impl RemoteImporter for UnsupportedImporter {
    fn import(&self, host: &str, port: u16, busid: &str) -> (r: UsbIpResult<UsbIpDeviceEntry>)
        ensures
            r matches Err(e) && e.spec_kind() matches ErrorKind::NotSupported(m) && m@
                == unsupported_import_message(),
            r matches Err(e) && e.spec_category() == ErrorCategory::Permanent,
    {
        Err(
            UsbIpError::from_kind(
                ErrorKind::NotSupported(
                    "remote import requires a host with VHCI driver (Linux)".to_owned(),
                ),
            ),
        )
    }
}

/// Server configuration as the API exposes it.
#[derive(Debug, Clone)]
pub struct ApiConfig {
    pub bind_address: String,
    pub port: u16,
    pub api_port: u16,
    pub encryption_enabled: bool,
}

/// Default REST API port.
pub const DEFAULT_API_PORT: u16 = 3241;

impl Default for ApiConfig {
    /// All addresses, the USB/IP port, the default API port, no
    /// encryption.
    fn default() -> (c: Self)
        ensures
            c.bind_address@ == "0.0.0.0"@,
            c.port == crate::USBIP_PORT,
            c.api_port == DEFAULT_API_PORT,
            !c.encryption_enabled,
    {
        ApiConfig {
            bind_address: "0.0.0.0".to_owned(),
            port: crate::USBIP_PORT,
            api_port: DEFAULT_API_PORT,
            encryption_enabled: false,
        }
    }
}

// ─── Scans and device status ──────────────────────────────────────

/// Default mDNS browse time, in seconds.
pub const DEFAULT_SCAN_SECS: u32 = 5;

/// Shortest and longest mDNS browse time, in seconds.
pub const MIN_SCAN_SECS: u32 = 1;
pub const MAX_SCAN_SECS: u32 = 30;

/// The browse time a scan request asks for, defaulting to 5 s and clamped
/// to 1..=30 s.
pub open spec fn scan_secs(requested: Option<u32>) -> u32 {
    let t = match requested {
        Some(t) => t,
        None => DEFAULT_SCAN_SECS,
    };
    if t < MIN_SCAN_SECS {
        MIN_SCAN_SECS
    } else if t > MAX_SCAN_SECS {
        MAX_SCAN_SECS
    } else {
        t
    }
}

/// The browse time for a scan request.
pub fn scan_timeout(requested: Option<u32>) -> (r: u32)
    ensures
        r == scan_secs(requested),
{
    let t = match requested {
        Some(t) => t,
        None => DEFAULT_SCAN_SECS,
    };
    if t < MIN_SCAN_SECS {
        MIN_SCAN_SECS
    } else if t > MAX_SCAN_SECS {
        MAX_SCAN_SECS
    } else {
        t
    }
}

/// The status the device list shows for a device.
pub fn device_status(exported: bool) -> (r: String)
    ensures
        r@ == (if exported {
            "exported"@
        } else {
            "available"@
        }),
{
    if exported {
        "exported".to_owned()
    } else {
        "available".to_owned()
    }
}

// ─── Port validation and configuration updates ────────────────────

#[verifier::external_type_specification]
#[verifier::external_body]
pub struct ExJsonValue(serde_json::Value);

/// The unsigned integer a JSON value holds, if it holds one.
pub uninterp spec fn json_u64(v: serde_json::Value) -> Option<u64>;

/// `serde_json::Value::as_u64`: the value as a `u64` when it is a number
/// that fits one.
#[verifier::external_body]
fn json_as_u64(v: &serde_json::Value) -> (r: Option<u64>)
    ensures
        r == json_u64(*v),
{
    v.as_u64()
}

/// The port a requested number names: 1..=65535.
pub open spec fn port_value(v: Option<u64>) -> Option<u16> {
    match v {
        Some(p) => if 1 <= p && p <= u16::MAX {
            Some(p as u16)
        } else {
            None
        },
        None => None,
    }
}

/// The text of the error for a bad port value in `field`.
pub open spec fn port_error_message(v: Option<u64>, field: Seq<char>) -> Seq<char> {
    match v {
        None => field + " must be an integer"@,
        Some(_) => field + " must be in 1..=65535"@,
    }
}

/// Whether `e` is the protocol error reporting a bad port value.
pub open spec fn is_port_error(e: UsbIpError, v: Option<u64>, field: Seq<char>) -> bool {
    e.spec_kind() matches ErrorKind::Protocol(m) && m@ == port_error_message(v, field)
}

/// Check a requested port number (absent when the JSON value is not an
/// unsigned integer).
pub fn check_port(value: Option<u64>, field: &str) -> (r: UsbIpResult<u16>)
    ensures
        port_value(value) matches Some(p) ==> r == Ok::<u16, UsbIpError>(p),
        port_value(value) is None ==> (r matches Err(e) && is_port_error(e, value, field@)),
{
    match value {
        None => {
            let mut msg = field.to_owned();
            msg.append(" must be an integer");
            Err(UsbIpError::from_kind(ErrorKind::Protocol(msg)))
        },
        Some(p) => {
            if p == 0 || p > u16::MAX as u64 {
                let mut msg = field.to_owned();
                msg.append(" must be in 1..=65535");
                Err(UsbIpError::from_kind(ErrorKind::Protocol(msg)))
            } else {
                Ok(p as u16)
            }
        },
    }
}

/// Validate a port given as a JSON value: it must be an integer in
/// 1..=65535.
pub fn validate_port(value: &serde_json::Value, field: &str) -> (r: UsbIpResult<u16>)
    ensures
        port_value(json_u64(*value)) matches Some(p) ==> r == Ok::<u16, UsbIpError>(p),
        port_value(json_u64(*value)) is None ==> (r matches Err(e) && is_port_error(
            e,
            json_u64(*value),
            field@,
        )),
{
    check_port(json_as_u64(value), field)
}

/// Whether an optional requested port is acceptable.
pub open spec fn port_update_ok(v: Option<&serde_json::Value>) -> bool {
    match v {
        Some(j) => port_value(json_u64(*j)) is Some,
        None => true,
    }
}

/// The port after an optional update.
pub open spec fn port_after(current: u16, v: Option<&serde_json::Value>) -> u16 {
    match v {
        Some(j) => port_value(json_u64(*j))->0,
        None => current,
    }
}

/// Apply a configuration update: each field that is given replaces the
/// current one; a bad `port` (checked first) or `api_port` refuses the
/// whole update.
pub fn updated_config(
    current: &ApiConfig,
    bind_address: Option<String>,
    port: Option<&serde_json::Value>,
    api_port: Option<&serde_json::Value>,
    encryption_enabled: Option<bool>,
) -> (r: UsbIpResult<ApiConfig>)
    ensures
        r is Ok <==> port_update_ok(port) && port_update_ok(api_port),
        r matches Ok(c) ==> {
            &&& c.port == port_after(current.port, port)
            &&& c.api_port == port_after(current.api_port, api_port)
            &&& c.bind_address@ == (match bind_address {
                Some(b) => b@,
                None => current.bind_address@,
            })
            &&& c.encryption_enabled == (match encryption_enabled {
                Some(e) => e,
                None => current.encryption_enabled,
            })
        },
        !port_update_ok(port) ==> (r matches Err(e) && is_port_error(
            e,
            json_u64(*port->0),
            "port"@,
        )),
        port_update_ok(port) && !port_update_ok(api_port) ==> (r matches Err(e) && is_port_error(
            e,
            json_u64(*api_port->0),
            "api_port"@,
        )),
{
    let new_port = match port {
        Some(v) => match validate_port(v, "port") {
            Ok(p) => p,
            Err(e) => return Err(e),
        },
        None => current.port,
    };
    let new_api_port = match api_port {
        Some(v) => match validate_port(v, "api_port") {
            Ok(p) => p,
            Err(e) => return Err(e),
        },
        None => current.api_port,
    };
    let new_bind = match bind_address {
        Some(b) => b,
        None => current.bind_address.clone(),
    };
    let new_encryption = match encryption_enabled {
        Some(e) => e,
        None => current.encryption_enabled,
    };
    Ok(
        ApiConfig {
            bind_address: new_bind,
            port: new_port,
            api_port: new_api_port,
            encryption_enabled: new_encryption,
        },
    )
}

} // verus!
