//! USB/IP protocol core: wire formats, descriptor parsing, URB replies,
//! batching, device management and the client reconnect state machine.
use vstd::prelude::*;

pub mod codec;
pub mod protocol;
pub mod urb;
pub mod reply;
pub mod descriptor;
pub mod error;
pub mod crypto;
pub mod usb;
pub mod urb_executor;
pub mod batcher;
pub mod reconnect;
pub mod bandwidth;
pub mod hotplug;
pub mod metrics;
pub mod server;
pub mod framing;
pub mod client;
pub mod api;
pub mod windows_usb;
pub mod controller;
pub mod cli;
pub mod pool;
pub mod daemon;
pub mod vhci;

verus! {

/// Default USB/IP TCP port (IANA-registered).
pub const USBIP_PORT: u16 = 3240;

/// USB/IP protocol version spoken by this implementation (v1.1.1).
pub const USBIP_VERSION: u16 = 0x0111;

/// Maximum size of a single USB/IP message (header + payload), 1 MiB.
pub const MAX_MESSAGE_SIZE: usize = 1048576;

/// Maximum number of devices in a devlist reply.
pub const MAX_DEVICES: u32 = 256;

/// USB device speeds as carried in USB/IP device entries.
#[derive(Debug, Clone, Copy, PartialEq, Eq, Structural)]
pub enum UsbSpeed {
    Unknown,
    Low,
    Full,
    High,
    Wireless,
    Super,
    SuperPlus,
}

/// The wire number of a speed.
pub open spec fn speed_code(s: UsbSpeed) -> u32 {
    match s {
        UsbSpeed::Unknown => 0,
        UsbSpeed::Low => 1,
        UsbSpeed::Full => 2,
        UsbSpeed::High => 3,
        UsbSpeed::Wireless => 4,
        UsbSpeed::Super => 5,
        UsbSpeed::SuperPlus => 6,
    }
}

impl UsbSpeed {
    /// Decode a wire speed number; numbers outside 1..=6 map to `Unknown`.
    pub fn from_u32(v: u32) -> (s: Self)
        ensures
            1 <= v <= 6 ==> speed_code(s) == v,
            !(1 <= v <= 6) ==> s == UsbSpeed::Unknown,
            v == 1 ==> s == UsbSpeed::Low,
            v == 2 ==> s == UsbSpeed::Full,
            v == 3 ==> s == UsbSpeed::High,
            v == 4 ==> s == UsbSpeed::Wireless,
            v == 5 ==> s == UsbSpeed::Super,
            v == 6 ==> s == UsbSpeed::SuperPlus,
    {
        match v {
            1 => UsbSpeed::Low,
            2 => UsbSpeed::Full,
            3 => UsbSpeed::High,
            4 => UsbSpeed::Wireless,
            5 => UsbSpeed::Super,
            6 => UsbSpeed::SuperPlus,
            _ => UsbSpeed::Unknown,
        }
    }
}

/// The wire numbers of the speeds, as USB/IP and Linux number them: 1 low
/// (1.5 Mb/s), 2 full (12 Mb/s), 3 high, 4 wireless, 5 super, 6 super-plus;
/// no two speeds share a number.
pub proof fn law_speed_numbers(a: UsbSpeed, b: UsbSpeed)
    ensures
        speed_code(UsbSpeed::Low) == 1,
        speed_code(UsbSpeed::Full) == 2,
        speed_code(UsbSpeed::High) == 3,
        speed_code(UsbSpeed::Wireless) == 4,
        speed_code(UsbSpeed::Super) == 5,
        speed_code(UsbSpeed::SuperPlus) == 6,
        speed_code(a) == speed_code(b) ==> a == b,
{
}

/// USB transfer direction.
#[derive(Debug, Clone, Copy, PartialEq, Eq, Structural)]
pub enum Direction {
    /// Host to device.
    Out,
    /// Device to host.
    In,
}

impl Direction {
    /// Decode a wire direction: 0 is `Out`, anything else is `In`.
    pub fn from_u32(v: u32) -> (d: Self)
        ensures
            d == (if v == 0 { Direction::Out } else { Direction::In }),
    {
        match v {
            0 => Direction::Out,
            _ => Direction::In,
        }
    }
}

} // verus!
