//! URB execution: run a parsed CMD_SUBMIT on a claimed device, map every
//! failure to a negative URB status, and build the RET_SUBMIT reply.
use vstd::prelude::*;
use crate::error::{urb_status_of, ErrorKind, UsbIpError};
use crate::reply::{reply_bytes, serialize_reply};
use crate::urb::UsbIpCmdSubmit;
use crate::usb::{UrbTransferResult, UsbDeviceManager};

verus! {

/// Outcome of one URB. Not a `Result`: a failure is a negative status, so
/// every outcome has a wire reply.
#[derive(Debug, Clone)]
pub struct UrbResult {
    pub status: i32,
    pub actual_length: u32,
    pub data: Vec<u8>,
}

/// `-ENODEV`.
pub const URB_STATUS_NO_DEVICE: i32 = -19;

/// `-ETIME`.
pub const URB_STATUS_TIMEOUT: i32 = -62;

/// `-EIO`.
pub const URB_STATUS_IO: i32 = -5;

/// The URB status an error is reported as: libusb errors by their own
/// mapping, a missing device as `-ENODEV`, a timeout as `-ETIME`, anything
/// else as `-EIO`.
pub open spec fn error_urb_status(k: ErrorKind) -> i32 {
    match k {
        ErrorKind::Usb(c) => urb_status_of(c),
        ErrorKind::DeviceNotFound(_) => URB_STATUS_NO_DEVICE,
        ErrorKind::Timeout => URB_STATUS_TIMEOUT,
        _ => URB_STATUS_IO,
    }
}

/// Status, length and data of the result an outcome becomes.
pub open spec fn outcome_fields(o: Result<UrbTransferResult, UsbIpError>) -> (i32, u32, Seq<u8>) {
    match o {
        Ok(t) => (t.status, t.actual_length, t.data@),
        Err(e) => (error_urb_status(e.spec_kind()), 0, Seq::empty()),
    }
}

impl UrbResult {
    /// The fields of this result as a triple.
    pub open spec fn fields(&self) -> (i32, u32, Seq<u8>) {
        (self.status, self.actual_length, self.data@)
    }

    /// The result a transfer outcome is reported as: a completed transfer
    /// as it is, a failure as its status with no data.
    pub fn from_outcome(o: Result<UrbTransferResult, UsbIpError>) -> (r: UrbResult)
        ensures
            r.fields() == outcome_fields(o),
    {
        match o {
            Ok(t) => UrbResult { status: t.status, actual_length: t.actual_length, data: t.data },
            Err(e) => {
                let status = match e.kind() {
                    ErrorKind::Usb(c) => c.urb_status(),
                    ErrorKind::DeviceNotFound(_) => URB_STATUS_NO_DEVICE,
                    ErrorKind::Timeout => URB_STATUS_TIMEOUT,
                    _ => URB_STATUS_IO,
                };
                UrbResult { status, actual_length: 0, data: Vec::new() }
            },
        }
    }
}

/// Executes URBs against one claimed device, named by its bus id.
pub struct UrbExecutor {
    busid: String,
}

impl UrbExecutor {
    /// The bus id this executor submits to.
    pub closed spec fn spec_busid(&self) -> Seq<char> {
        self.busid@
    }

    /// An executor for the device at `busid`.
    pub fn new(busid: String) -> (e: Self)
        ensures
            e.spec_busid() == busid@,
    {
        UrbExecutor { busid }
    }

    /// Execute a URB on the device through `usb`. A device that is not
    /// claimed gives `-ENODEV`; otherwise the command and its OUT data go to
    /// the backend for this executor's bus id, and the backend's outcome is
    /// reported as [`UrbResult::from_outcome`] describes.
    pub fn execute(&self, usb: &UsbDeviceManager, cmd: &UsbIpCmdSubmit, out_data: &[u8]) -> (r:
        UrbResult)
        ensures
            !usb.claimed().contains(self.spec_busid()) ==> r.fields() == (
                URB_STATUS_NO_DEVICE,
                0u32,
                Seq::<u8>::empty(),
            ),
            usb.claimed().contains(self.spec_busid()) ==> exists|
                o: Result<UrbTransferResult, UsbIpError>,
            |
                usb.backend_transfers(self.spec_busid(), *cmd, out_data@, o) && r.fields()
                    == outcome_fields(o),
    {
        let o = usb.execute_urb(self.busid.as_str(), cmd, out_data);
        UrbResult::from_outcome(o)
    }

    /// The wire RET_SUBMIT reply for a command and its result.
    pub fn build_reply(&self, cmd: &UsbIpCmdSubmit, result: &UrbResult) -> (r: Vec<u8>)
        ensures
            r@ == reply_bytes(*cmd, result.status, result.actual_length, result.data@),
    {
        serialize_reply(cmd, result.status, result.actual_length, result.data.as_slice())
    }
}

} // verus!

verus! {

/// Every failure is reported as a negative URB status with no data.
pub proof fn law_failures_are_negative(e: UsbIpError)
    ensures
        outcome_fields(Err(e)).0 < 0,
        outcome_fields(Err(e)).1 == 0,
        outcome_fields(Err(e)).2.len() == 0,
{
}

} // verus!
