//! USB attach/detach events and the sources that produce them.
use vstd::prelude::*;
use crate::error::CorrelationId;

verus! {

/// An attach or detach of a USB device.
#[derive(Debug, Clone, PartialEq, Eq)]
pub enum HotplugEvent {
    /// A device was attached at `busid`.
    Attached { busid: String, vid: u16, pid: u16 },
    /// The device at `busid` was removed; the id links it to any URB error
    /// in flight.
    Detached { busid: String, correlation_id: CorrelationId },
}

/// A platform source of hotplug events (libusb callbacks, IOKit, Windows
/// device notifications, ...).
pub trait HotplugSource: Send + 'static {
    /// The next pending event, if any.
    fn poll(&mut self) -> Option<HotplugEvent>;
}

/// A source that never produces an event, for platforms without hotplug
/// support.
pub struct NoopHotplugSource;

impl HotplugSource for NoopHotplugSource {
    fn poll(&mut self) -> (r: Option<HotplugEvent>)
        ensures
            r is None,
    {
        None
    }
}

} // verus!
