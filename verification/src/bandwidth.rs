//! Bandwidth caps. A cap of 0 bytes per second means no throttling.
use vstd::prelude::*;

verus! {

/// A bandwidth cap in bytes per second; 0 means unlimited.
#[derive(Debug, Clone, Copy, PartialEq, Eq, Structural)]
pub struct BandwidthLimit {
    /// Maximum bytes per second (0 = unlimited).
    pub bytes_per_sec: u64,
}

impl BandwidthLimit {
    /// The unlimited cap.
    pub fn unlimited() -> (r: Self)
        ensures
            r.bytes_per_sec == 0,
    {
        BandwidthLimit { bytes_per_sec: 0 }
    }

    /// Whether this cap disables throttling (its rate is 0).
    pub fn is_unlimited(&self) -> (r: bool)
        ensures
            r == (self.bytes_per_sec == 0),
    {
        self.bytes_per_sec == 0
    }
}

impl Default for BandwidthLimit {
    /// The unlimited cap.
    fn default() -> (r: Self)
        ensures
            r.bytes_per_sec == 0,
    {
        Self::unlimited()
    }
}

} // verus!
