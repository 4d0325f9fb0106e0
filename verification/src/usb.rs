//! USB device management through a pluggable [`UsbBackend`].
use vstd::prelude::*;
use vstd::string::StringSliceAdditionalSpecFns;
use crate::codec::{byte_end, find_byte, parse_unsigned, parse_unsigned_exec};
use crate::error::{ErrorKind, UsbIpError, UsbIpResult};
use crate::protocol::UsbIpDeviceEntry;
use crate::urb::UsbIpCmdSubmit;

verus! {

/// Result of a single URB transfer: status, transferred length, IN data.
#[derive(Debug, Clone)]
pub struct UrbTransferResult {
    pub status: i32,
    pub actual_length: u32,
    pub data: Vec<u8>,
}

/// Platform USB access (libusb, IOKit, test doubles). Each query comes
/// with a predicate: which answers the implementation may give to that
/// query. A real device may answer differently from one call to the next,
/// so these say what an answer may be, not which one comes. By default
/// every answer is possible; an implementation that promises more
/// overrides the predicate. Code that holds a backend only as
/// `dyn UsbBackend` knows nothing of which predicate it has, so what it
/// proves holds for every implementation.
pub trait UsbBackend: Send + Sync {
    /// Whether `r` is a device list this backend may report.
    open spec fn lists(&self, r: Seq<UsbIpDeviceEntry>) -> bool {
        true
    }

    /// Whether `r` is an answer this backend may give when asked for the
    /// device entry of `busid`.
    open spec fn finds(&self, busid: Seq<char>, r: Option<UsbIpDeviceEntry>) -> bool {
        true
    }

    /// Whether `r` is an answer this backend may give to a claim of `busid`.
    open spec fn claims(&self, busid: Seq<char>, r: UsbIpResult<()>) -> bool {
        true
    }

    /// Whether `r` is an answer this backend may give when asked for the
    /// descriptor tree of `busid`.
    open spec fn reads_tree(&self, busid: Seq<char>, r: UsbIpResult<Vec<u8>>) -> bool {
        true
    }

    /// Whether `r` is an outcome this backend may report for the URB `cmd`
    /// with OUT data `data` on `busid`.
    open spec fn transfers(
        &self,
        busid: Seq<char>,
        cmd: UsbIpCmdSubmit,
        data: Seq<u8>,
        r: UsbIpResult<UrbTransferResult>,
    ) -> bool {
        true
    }

    /// Whether `r` is an answer this backend may give to a release of
    /// `busid`.
    open spec fn releases(&self, busid: Seq<char>, r: UsbIpResult<()>) -> bool {
        true
    }

    fn list_devices(&self) -> (r: Vec<UsbIpDeviceEntry>)
        ensures
            self.lists(r@),
    ;

    fn get_device_entry(&self, busid: &str) -> (r: Option<UsbIpDeviceEntry>)
        ensures
            self.finds(busid@, r),
    ;

    fn claim_device(&self, busid: &str) -> (r: UsbIpResult<()>)
        ensures
            self.claims(busid@, r),
    ;

    fn get_descriptor_tree(&self, busid: &str) -> (r: UsbIpResult<Vec<u8>>)
        ensures
            self.reads_tree(busid@, r),
    ;

    fn execute_urb(&self, busid: &str, cmd: &UsbIpCmdSubmit, out_data: &[u8]) -> (r: UsbIpResult<
        UrbTransferResult,
    >)
        ensures
            self.transfers(busid@, *cmd, out_data@, r),
    ;

    fn release_device(&self, busid: &str) -> (r: UsbIpResult<()>)
        ensures
            self.releases(busid@, r),
    ;
}

// ─── Bus ids ──────────────────────────────────────────────────────

/// ASCII `-`, the separator of a bus id.
pub const BUSID_SEPARATOR: u8 = 45;

/// The (bus number, device number) a bus id `"<bus>-<dev>"` names: the
/// text before the first `-` and the text between it and the next `-` (or
/// the end), each a decimal `u8`; `None` when there is no `-` or either
/// part is not such a number.
pub open spec fn busid_numbers(s: Seq<u8>) -> Option<(u8, u8)> {
    let i = byte_end(s, BUSID_SEPARATOR);
    if i >= s.len() {
        None
    } else {
        let rest = s.subrange(i + 1, s.len() as int);
        let j = byte_end(rest, BUSID_SEPARATOR);
        match (parse_unsigned(s.subrange(0, i), 10, 255), parse_unsigned(rest.subrange(0, j), 10, 255)) {
            (Some(b), Some(d)) => Some((b as u8, d as u8)),
            _ => None,
        }
    }
}

/// Whether `e` is the device-not-found error for `busid`.
pub open spec fn is_not_found_for(e: UsbIpError, busid: Seq<char>) -> bool {
    e.spec_kind() matches ErrorKind::DeviceNotFound(m) && m@ == busid
}

/// The device-not-found error for `busid`.
fn not_found(busid: &str) -> (e: UsbIpError)
    ensures
        is_not_found_for(e, busid@),
{
    UsbIpError::from_kind(ErrorKind::DeviceNotFound(busid.to_owned()))
}

/// Parse a bus id `"<bus>-<dev>"` into its numeric components.
pub fn parse_busid(busid: &str) -> (r: UsbIpResult<(u8, u8)>)
    ensures
        match r {
            Ok(p) => busid_numbers(busid.spec_bytes()) == Some(p),
            Err(e) => busid_numbers(busid.spec_bytes()) is None && is_not_found_for(e, busid@),
        },
{
    let s: &[u8] = busid.as_bytes();
    let i = find_byte(s, BUSID_SEPARATOR);
    if i >= s.len() {
        return Err(not_found(busid));
    }
    let rest: &[u8] = &s[i + 1..s.len()];
    let j = find_byte(rest, BUSID_SEPARATOR);
    let first = parse_unsigned_exec(&s[0..i], 10, 255);
    let second = parse_unsigned_exec(&rest[0..j], 10, 255);
    match (first, second) {
        (Some(b), Some(d)) => Ok((b as u8, d as u8)),
        _ => Err(not_found(busid)),
    }
}

// ─── Device selection ─────────────────────────────────────────────

/// Whether `(vid, pid)` is one of the pairs of `allowed`.
pub open spec fn allows(allowed: Seq<(u16, u16)>, vid: u16, pid: u16) -> bool {
    exists|k: int| 0 <= k < allowed.len() && #[trigger] allowed[k] == (vid, pid)
}

/// The devices of `all` that an allowlist admits: all of them when the
/// list is empty, else those whose VID:PID it names, in their order.
pub open spec fn exportable(all: Seq<UsbIpDeviceEntry>, allowed: Seq<(u16, u16)>) -> Seq<
    UsbIpDeviceEntry,
> {
    if allowed.len() == 0 {
        all
    } else {
        all.filter(|d: UsbIpDeviceEntry| allows(allowed, d.id_vendor, d.id_product))
    }
}

/// Whether `(vid, pid)` occurs in `allowed`.
fn is_allowed(allowed: &[(u16, u16)], vid: u16, pid: u16) -> (b: bool)
    ensures
        b == allows(allowed@, vid, pid),
{
    let mut k: usize = 0;
    while k < allowed.len()
        invariant
            k <= allowed@.len(),
            forall|m: int| 0 <= m < k ==> #[trigger] allowed@[m] != (vid, pid),
        decreases allowed@.len() - k,
    {
        let (v, p) = allowed[k];
        if v == vid && p == pid {
            assert(allowed@[k as int] == (vid, pid));
            return true;
        }
        k = k + 1;
    }
    false
}

/// Keep the devices an allowlist of (VID, PID) pairs admits; an empty
/// list admits every device.
pub fn filter_exportable(all: Vec<UsbIpDeviceEntry>, allowed: &[(u16, u16)]) -> (r: Vec<
    UsbIpDeviceEntry,
>)
    ensures
        r@ == exportable(all@, allowed@),
{
    if allowed.len() == 0 {
        return all;
    }
    let ghost pred = |d: UsbIpDeviceEntry| allows(allowed@, d.id_vendor, d.id_product);
    let mut out: Vec<UsbIpDeviceEntry> = Vec::new();
    let mut i: usize = 0;
    while i < all.len()
        invariant
            i <= all@.len(),
            allowed@.len() > 0,
            pred == (|d: UsbIpDeviceEntry| allows(allowed@, d.id_vendor, d.id_product)),
            out@ == all@.subrange(0, i as int).filter(pred),
        decreases all@.len() - i,
    {
        let d = all[i];
        let keep = is_allowed(allowed, d.id_vendor, d.id_product);
        proof {
            reveal(Seq::filter);
            assert(all@.subrange(0, i + 1).drop_last() =~= all@.subrange(0, i as int));
            assert(all@.subrange(0, i + 1).last() == d);
            assert(pred(d) == keep);
        }
        if keep {
            out.push(d);
        }
        i = i + 1;
    }
    assert(all@.subrange(0, all@.len() as int) =~= all@);
    out
}

/// Whether a device sits at the given bus and device numbers.
pub open spec fn at_numbers(e: UsbIpDeviceEntry, busnum: u8, devnum: u8) -> bool {
    e.busnum == busnum as u32 && e.devnum == devnum as u32
}

/// Index of the first device of `devices` at the given bus and device
/// numbers, or the length when there is none.
pub open spec fn first_at(devices: Seq<UsbIpDeviceEntry>, busnum: u8, devnum: u8) -> int
    decreases devices.len(),
{
    if devices.len() == 0 {
        0
    } else if at_numbers(devices[0], busnum, devnum) {
        0
    } else {
        1 + first_at(devices.drop_first(), busnum, devnum)
    }
}

proof fn lemma_first_at(devices: Seq<UsbIpDeviceEntry>, busnum: u8, devnum: u8)
    ensures
        0 <= first_at(devices, busnum, devnum) <= devices.len(),
        forall|k: int|
            0 <= k < first_at(devices, busnum, devnum) ==> !at_numbers(
                #[trigger] devices[k],
                busnum,
                devnum,
            ),
        first_at(devices, busnum, devnum) < devices.len() ==> at_numbers(
            devices[first_at(devices, busnum, devnum)],
            busnum,
            devnum,
        ),
    decreases devices.len(),
{
    if devices.len() > 0 && !at_numbers(devices[0], busnum, devnum) {
        lemma_first_at(devices.drop_first(), busnum, devnum);
        assert forall|k: int| 0 <= k < first_at(devices, busnum, devnum) implies !at_numbers(
            #[trigger] devices[k],
            busnum,
            devnum,
        ) by {
            if k > 0 {
                assert(devices[k] == devices.drop_first()[k - 1]);
            }
        }
    }
}

/// The entry of `devices` a bus id selects: the first one whose bus and
/// device numbers are those the bus id names.
pub open spec fn selected_entry(devices: Seq<UsbIpDeviceEntry>, busid: Seq<u8>) -> Option<
    UsbIpDeviceEntry,
> {
    match busid_numbers(busid) {
        None => None,
        Some((b, d)) => {
            let k = first_at(devices, b, d);
            if k < devices.len() {
                Some(devices[k])
            } else {
                None
            }
        },
    }
}

/// The entry among `devices` that `busid` names.
pub fn select_device_entry(devices: &[UsbIpDeviceEntry], busid: &str) -> (r: Option<
    UsbIpDeviceEntry,
>)
    ensures
        r == selected_entry(devices@, busid.spec_bytes()),
{
    let parsed = parse_busid(busid);
    let (busnum, devnum) = match parsed {
        Ok(p) => p,
        Err(_) => return None,
    };
    assert(busid_numbers(busid.spec_bytes()) == Some((busnum, devnum)));
    proof {
        lemma_first_at(devices@, busnum, devnum);
    }
    let mut i: usize = 0;
    while i < devices.len()
        invariant
            i <= devices@.len(),
            i <= first_at(devices@, busnum, devnum),
            busid_numbers(busid.spec_bytes()) == Some((busnum, devnum)),
        decreases devices@.len() - i,
    {
        if devices[i].busnum == busnum as u32 && devices[i].devnum == devnum as u32 {
            proof {
                lemma_first_at(devices@, busnum, devnum);
                assert(at_numbers(devices@[i as int], busnum, devnum));
                assert(first_at(devices@, busnum, devnum) == i);
            }
            return Some(devices[i]);
        }
        proof {
            lemma_first_at(devices@, busnum, devnum);
        }
        i = i + 1;
    }
    None
}

// ─── Manager ──────────────────────────────────────────────────────

/// Manages USB devices for the server, delegating to a backend and keeping
/// the set of claimed bus ids.
pub struct UsbDeviceManager {
    backend: Box<dyn UsbBackend>,
    handles: Vec<String>,
}

impl UsbDeviceManager {
    /// No bus id is recorded twice.
    #[verifier::type_invariant]
    spec fn distinct_handles(self) -> bool {
        forall|i: int, j: int|
            0 <= i < self.handles@.len() && 0 <= j < self.handles@.len() && i != j ==> (
            #[trigger] self.handles@[i])@ != (#[trigger] self.handles@[j])@
    }

    /// The bus ids currently claimed.
    pub closed spec fn claimed(self) -> Set<Seq<char>> {
        Set::new(
            |k: Seq<char>| exists|i: int| 0 <= i < self.handles@.len() && (#[trigger] self.handles@[i])@ == k,
        )
    }

    /// Whether `r` is a device list the manager's backend may report.
    pub closed spec fn backend_lists(self, r: Seq<UsbIpDeviceEntry>) -> bool {
        self.backend.lists(r)
    }

    /// Whether `r` is an answer the backend may give to a claim of `busid`.
    pub closed spec fn backend_claims(self, busid: Seq<char>, r: UsbIpResult<()>) -> bool {
        self.backend.claims(busid, r)
    }

    /// Whether `r` is an answer the backend may give when asked for the
    /// descriptor tree of `busid`.
    pub closed spec fn backend_reads_tree(self, busid: Seq<char>, r: UsbIpResult<Vec<u8>>) -> bool {
        self.backend.reads_tree(busid, r)
    }

    /// Whether `r` is an outcome the backend may report for the URB `cmd`
    /// with OUT data `data` on `busid`.
    pub closed spec fn backend_transfers(
        self,
        busid: Seq<char>,
        cmd: UsbIpCmdSubmit,
        data: Seq<u8>,
        r: UsbIpResult<UrbTransferResult>,
    ) -> bool {
        self.backend.transfers(busid, cmd, data, r)
    }

    /// Whether `r` is an answer the backend may give to a release of
    /// `busid`.
    pub closed spec fn backend_releases(self, busid: Seq<char>, r: UsbIpResult<()>) -> bool {
        self.backend.releases(busid, r)
    }

    /// A manager over the given backend with nothing claimed.
    pub fn with_backend(backend: Box<dyn UsbBackend>) -> (m: Self)
        ensures
            m.claimed() == Set::<Seq<char>>::empty(),
    {
        let m = UsbDeviceManager { backend, handles: Vec::new() };
        assert(m.claimed() =~= Set::<Seq<char>>::empty());
        m
    }

    /// Where `busid` is recorded, if it is.
    fn position(&self, busid: &str) -> (r: Option<usize>)
        ensures
            r matches Some(i) ==> i < self.handles@.len() && self.handles@[i as int]@ == busid@,
            r is None ==> forall|m: int|
                0 <= m < self.handles@.len() ==> (#[trigger] self.handles@[m])@ != busid@,
            r is Some == self.claimed().contains(busid@),
    {
        let key = busid.to_owned();
        let mut i: usize = 0;
        while i < self.handles.len()
            invariant
                i <= self.handles@.len(),
                key@ == busid@,
                forall|m: int| 0 <= m < i ==> (#[trigger] self.handles@[m])@ != key@,
            decreases self.handles@.len() - i,
        {
            if self.handles[i] == key {
                assert(self.handles@[i as int]@ == busid@);
                return Some(i);
            }
            i = i + 1;
        }
        None
    }

    /// All devices the backend reports.
    pub fn list_devices(&self) -> (r: Vec<UsbIpDeviceEntry>)
        ensures
            self.backend_lists(r@),
    {
        self.backend.list_devices()
    }

    /// The devices an allowlist of (VID, PID) pairs admits, in the
    /// backend's order; an empty list admits every device.
    pub fn list_exportable_devices(&self, allowed: &[(u16, u16)]) -> (r: Vec<UsbIpDeviceEntry>)
        ensures
            exists|all: Seq<UsbIpDeviceEntry>|
                self.backend_lists(all) && r@ == exportable(all, allowed@),
    {
        let all = self.list_devices();
        let ghost listed = all@;
        let r = filter_exportable(all, allowed);
        assert(r@ == exportable(listed, allowed@));
        r
    }

    /// The device entry `busid` names among those the backend lists;
    /// `None` for a malformed bus id.
    pub fn get_device_entry(&self, busid: &str) -> (r: Option<UsbIpDeviceEntry>)
        ensures
            busid_numbers(busid.spec_bytes()) is None ==> r is None,
            exists|all: Seq<UsbIpDeviceEntry>|
                self.backend_lists(all) && r == selected_entry(all, busid.spec_bytes()),
    {
        let all = self.list_devices();
        let r = select_device_entry(all.as_slice(), busid);
        assert(r == selected_entry(all@, busid.spec_bytes()));
        r
    }

    /// Claim a device through the backend and record it as claimed when the
    /// backend succeeds.
    pub fn claim_device(&mut self, busid: &str) -> (r: UsbIpResult<()>)
        ensures
            old(self).backend_claims(busid@, r),
            r is Ok ==> final(self).claimed() == old(self).claimed().insert(busid@),
            r is Err ==> final(self).claimed() == old(self).claimed(),
    {
        proof {
            use_type_invariant(&*self);
        }
        let outcome = self.backend.claim_device(busid);
        self.record_claim(busid, outcome)
    }

    /// Record the backend's answer to a claim of `busid`: on success the bus
    /// id is claimed, on failure nothing changes; the answer is handed back
    /// as it is.
    pub fn record_claim(&mut self, busid: &str, outcome: UsbIpResult<()>) -> (r: UsbIpResult<()>)
        ensures
            r == outcome,
            outcome is Ok ==> final(self).claimed() == old(self).claimed().insert(busid@),
            outcome is Err ==> final(self).claimed() == old(self).claimed(),
    {
        proof {
            use_type_invariant(&*self);
        }
        match outcome {
            Ok(()) => {},
            Err(e) => return Err(e),
        }
        match self.position(busid) {
            Some(_) => {
                assert(old(self).claimed().insert(busid@) =~= old(self).claimed());
            },
            None => {
                let ghost before = self.handles@;
                let mut handles: Vec<String> = Vec::new();
                std::mem::swap(&mut handles, &mut self.handles);
                handles.push(busid.to_owned());
                proof {
                    let after = handles@;
                    assert forall|i: int, j: int|
                        0 <= i < after.len() && 0 <= j < after.len() && i != j implies (
                        #[trigger] after[i])@ != (#[trigger] after[j])@ by {
                        if i < before.len() && j < before.len() {
                            assert(before[i]@ != before[j]@);
                        } else if i < before.len() {
                            assert(before[i]@ != busid@);
                        } else {
                            assert(before[j]@ != busid@);
                        }
                    }
                }
                self.handles = handles;
                proof {
                    let after = self.handles@;
                    assert forall|k: Seq<char>| #[trigger]
                        self.claimed().contains(k) == old(self).claimed().insert(busid@).contains(
                            k,
                        ) by {
                        if self.claimed().contains(k) {
                            let i = choose|i: int|
                                0 <= i < after.len() && (#[trigger] after[i])@ == k;
                            if i < before.len() {
                                assert(before[i]@ == k);
                            }
                        }
                        if old(self).claimed().contains(k) {
                            let i = choose|i: int|
                                0 <= i < before.len() && (#[trigger] before[i])@ == k;
                            assert(after[i]@ == k);
                        }
                        if k == busid@ {
                            assert(after[before.len() as int]@ == k);
                        }
                    }
                    assert(self.claimed() =~= old(self).claimed().insert(busid@));
                }
            },
        }
        proof {
            assert(outcome matches Ok(u) && u == ());
        }
        Ok(())
    }

    /// The full descriptor tree of a device, as the backend reads it.
    pub fn get_descriptor_tree(&self, busid: &str) -> (r: UsbIpResult<Vec<u8>>)
        ensures
            self.backend_reads_tree(busid@, r),
    {
        self.backend.get_descriptor_tree(busid)
    }

    /// Submit a URB to a claimed device; a device that is not claimed is
    /// reported as not found without reaching the backend.
    pub fn execute_urb(&self, busid: &str, cmd: &UsbIpCmdSubmit, out_data: &[u8]) -> (r:
        UsbIpResult<UrbTransferResult>)
        ensures
            !self.claimed().contains(busid@) ==> (r matches Err(e) && is_not_found_for(e, busid@)),
            self.claimed().contains(busid@) ==> self.backend_transfers(busid@, *cmd, out_data@, r),
    {
        if self.position(busid).is_none() {
            return Err(not_found(busid));
        }
        self.backend.execute_urb(busid, cmd, out_data)
    }

    /// Forget a claimed device, then release it through the backend.
    pub fn release_device(&mut self, busid: &str) -> (r: UsbIpResult<()>)
        ensures
            final(self).claimed() == old(self).claimed().remove(busid@),
            old(self).backend_releases(busid@, r),
    {
        proof {
            use_type_invariant(&*self);
        }
        match self.position(busid) {
            None => {
                assert(old(self).claimed().remove(busid@) =~= old(self).claimed());
            },
            Some(i) => {
                let ghost before = self.handles@;
                let mut handles: Vec<String> = Vec::new();
                std::mem::swap(&mut handles, &mut self.handles);
                handles.remove(i);
                proof {
                    let after = handles@;
                    assert(after =~= before.remove(i as int));
                    assert forall|a: int, b: int|
                        0 <= a < after.len() && 0 <= b < after.len() && a != b implies (
                        #[trigger] after[a])@ != (#[trigger] after[b])@ by {
                        let a2 = if a < i { a } else { a + 1 };
                        let b2 = if b < i { b } else { b + 1 };
                        assert(after[a] == before[a2]);
                        assert(after[b] == before[b2]);
                        assert(before[a2]@ != before[b2]@);
                    }
                }
                self.handles = handles;
                proof {
                    let after = self.handles@;
                    assert forall|k: Seq<char>| #[trigger]
                        self.claimed().contains(k) == old(self).claimed().remove(busid@).contains(
                            k,
                        ) by {
                        if self.claimed().contains(k) {
                            let m = choose|m: int|
                                0 <= m < after.len() && (#[trigger] after[m])@ == k;
                            if m < i {
                                assert(before[m]@ == k);
                                assert(before[m]@ != before[i as int]@);
                            } else {
                                assert(before[m + 1]@ == k);
                                assert(before[m + 1]@ != before[i as int]@);
                            }
                        }
                        if old(self).claimed().remove(busid@).contains(k) {
                            let n = choose|n: int|
                                0 <= n < before.len() && (#[trigger] before[n])@ == k;
                            if n < i {
                                assert(after[n]@ == k);
                            } else {
                                assert(n != i);
                                assert(after[n - 1]@ == k);
                            }
                        }
                    }
                    assert(self.claimed() =~= old(self).claimed().remove(busid@));
                }
            },
        }
        self.backend.release_device(busid)
    }
}

} // verus!

verus! {

/// Claiming a device and then releasing it leaves the set of claimed
/// devices as it was, but for that device, which is no longer claimed.
pub proof fn law_claim_then_release(
    m0: UsbDeviceManager,
    m1: UsbDeviceManager,
    m2: UsbDeviceManager,
    busid: Seq<char>,
)
    requires
        m1.claimed() == m0.claimed().insert(busid),
        m2.claimed() == m1.claimed().remove(busid),
    ensures
        !m2.claimed().contains(busid),
        m2.claimed() == m0.claimed().remove(busid),
{
    assert(m2.claimed() =~= m0.claimed().remove(busid));
}

/// A well-formed bus id of the form `<bus>-<dev>` (decimal, below 256)
/// names exactly those numbers.
pub proof fn law_busid_of_two_numbers(b: Seq<u8>, d: Seq<u8>, bus: u8, dev: u8)
    requires
        parse_unsigned(b, 10, 255) == Some(bus as nat),
        parse_unsigned(d, 10, 255) == Some(dev as nat),
        forall|k: int| 0 <= k < b.len() ==> b[k] != BUSID_SEPARATOR,
        forall|k: int| 0 <= k < d.len() ==> d[k] != BUSID_SEPARATOR,
    ensures
        busid_numbers(b + seq![BUSID_SEPARATOR] + d) == Some((bus, dev)),
{
    let s = b + seq![BUSID_SEPARATOR] + d;
    crate::codec::lemma_byte_end(s, BUSID_SEPARATOR);
    let i = byte_end(s, BUSID_SEPARATOR);
    if i < b.len() {
        assert(s[i] == b[i]);
    }
    if i > b.len() {
        assert(s[b.len() as int] == BUSID_SEPARATOR);
    }
    assert(i == b.len());
    let rest = s.subrange(i + 1, s.len() as int);
    assert(rest =~= d);
    crate::codec::lemma_byte_end(d, BUSID_SEPARATOR);
    assert(byte_end(d, BUSID_SEPARATOR) == d.len()) by {
        if byte_end(d, BUSID_SEPARATOR) < d.len() {
            assert(d[byte_end(d, BUSID_SEPARATOR)] == BUSID_SEPARATOR);
        }
    }
    assert(s.subrange(0, i) =~= b);
    assert(d.subrange(0, d.len() as int) =~= d);
}

} // verus!
