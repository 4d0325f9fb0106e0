//! What the client writes to a virtual host controller (VHCI) to attach,
//! complete, cancel and detach imported devices: the text commands and
//! binary payloads of the Linux `vhci_hcd` sysfs files, the free-port scan
//! of its status file, and the attach request of the Windows driver.
use vstd::prelude::*;
use vstd::string::StringExecFns;
use crate::codec::{
    be32, byte_end, decimal_text, int_text, lemma_byte_end, le32, push_be32, push_bytes, push_le32,
};
use crate::protocol::{field_text, UsbIpDeviceEntry};

verus! {

/// A device attached to a virtual host controller.
#[derive(Debug, Clone)]
pub struct VhciDevice {
    /// The controller port it sits on.
    pub port: u32,
    /// The device id the controller knows it by.
    pub devid: u32,
    pub busid: String,
    pub vid: u16,
    pub pid: u16,
}

/// The device attached at `port` for `entry`; its device id is its port.
pub fn attached_device(port: u32, entry: &UsbIpDeviceEntry) -> (d: VhciDevice)
    ensures
        d.port == port,
        d.devid == port,
        d.busid@ == field_text(entry.busid@, "???"@),
        d.vid == entry.id_vendor,
        d.pid == entry.id_product,
{
    VhciDevice {
        port,
        devid: port,
        busid: entry.busid_str().to_owned(),
        vid: entry.vid(),
        pid: entry.pid(),
    }
}

// ── Linux sysfs commands ─────────────────────────────────────────────

/// Append the decimal text of `v`.
fn push_decimal(s: &mut String, v: u32)
    ensures
        final(s)@ == old(s)@ + decimal_text(v as nat),
{
    let t = int_text(v as i64);
    s.append(t.as_str());
}

/// The line written to `attach`: `<port> <devid> <speed>` and a newline.
pub fn attach_line(port: u32, devid: u32, speed: u32) -> (r: String)
    ensures
        r@ == decimal_text(port as nat) + " "@ + decimal_text(devid as nat) + " "@ + decimal_text(
            speed as nat,
        ) + "\n"@,
{
    let mut s = String::new();
    push_decimal(&mut s, port);
    s.append(" ");
    push_decimal(&mut s, devid);
    s.append(" ");
    push_decimal(&mut s, speed);
    s.append("\n");
    s
}

/// The line written to `detach`: the port and a newline.
pub fn detach_line(port: u32) -> (r: String)
    ensures
        r@ == decimal_text(port as nat) + "\n"@,
{
    let mut s = String::new();
    push_decimal(&mut s, port);
    s.append("\n");
    s
}

/// The name of a per-port file below the controller: `port<n>/<leaf>`.
pub fn port_file(port: u32, leaf: &str) -> (r: String)
    ensures
        r@ == "port"@ + decimal_text(port as nat) + "/"@ + leaf@,
{
    let mut s = "port".to_owned();
    push_decimal(&mut s, port);
    s.append("/");
    s.append(leaf);
    s
}

/// The bytes that complete a URB: sequence number, status and actual
/// length, each as 32 big-endian bits (the status in two's complement),
/// then the data.
pub fn urb_complete_payload(seqnum: u32, status: i32, actual_length: u32, data: &[u8]) -> (r: Vec<
    u8,
>)
    ensures
        r@ == be32(seqnum) + be32(status as u32) + be32(actual_length) + data@,
{
    let mut buf: Vec<u8> = Vec::new();
    push_be32(&mut buf, seqnum);
    push_be32(&mut buf, status as u32);
    push_be32(&mut buf, actual_length);
    push_bytes(&mut buf, data);
    buf
}

/// The bytes that cancel a URB: its sequence number, 32 big-endian bits.
pub fn urb_unlink_payload(seqnum: u32) -> (r: Vec<u8>)
    ensures
        r@ == be32(seqnum),
{
    let mut buf: Vec<u8> = Vec::new();
    push_be32(&mut buf, seqnum);
    buf
}

// ── The free-port scan of the status file ────────────────────────────

/// The ASCII bytes of `Port`.
pub open spec fn port_word() -> Seq<u8> {
    seq![80u8, 111u8, 114u8, 116u8]
}

/// The ASCII bytes of `Attached`.
pub open spec fn attached_word() -> Seq<u8> {
    seq![65u8, 116u8, 116u8, 97u8, 99u8, 104u8, 101u8, 100u8]
}

/// Whether `needle` occurs in `hay`.
pub open spec fn contains_bytes(hay: Seq<u8>, needle: Seq<u8>) -> bool {
    exists|i: int| 0 <= i && i + needle.len() <= hay.len() && #[trigger] hay.subrange(i, i + needle.len()) == needle
}

/// A status line of a free port: it mentions `Port` but not `Attached`.
pub open spec fn is_free_line(line: Seq<u8>) -> bool {
    contains_bytes(line, port_word()) && !contains_bytes(line, attached_word())
}

/// Where the line that starts at `off` ends: at the next newline, or at
/// the end of the text.
pub open spec fn line_end(s: Seq<u8>, off: int) -> int {
    off + byte_end(s.subrange(off, s.len() as int), 10u8)
}

/// Among the lines from the one starting at `off` on, the number of the
/// first free one, counting from 0; -1 when there is none.
pub open spec fn free_line_from(s: Seq<u8>, off: int) -> int
    decreases s.len() - off,
    when 0 <= off <= s.len()
{
    proof {
        lemma_byte_end(s.subrange(off, s.len() as int), 10u8);
    }
    let e = line_end(s, off);
    if is_free_line(s.subrange(off, e)) {
        0
    } else if e >= s.len() {
        -1
    } else {
        let r = free_line_from(s, e + 1);
        if r < 0 {
            -1
        } else {
            r + 1
        }
    }
}

/// The port the status text names free: the number of its first line
/// that mentions `Port` but not `Attached`, or 0 when no line does.
pub open spec fn free_port_of(s: Seq<u8>) -> u32 {
    let k = free_line_from(s, 0);
    if k >= 0 {
        k as u32
    } else {
        0
    }
}

/// Position of the first `b` at or after `off`, or the length.
fn find_byte_from(s: &[u8], off: usize, b: u8) -> (r: usize)
    requires
        off <= s@.len(),
    ensures
        r == off + byte_end(s@.subrange(off as int, s@.len() as int), b),
{
    let ghost t = s@.subrange(off as int, s@.len() as int);
    let mut i: usize = off;
    while i < s.len() && s[i] != b
        invariant
            off <= i <= s@.len(),
            t == s@.subrange(off as int, s@.len() as int),
            forall|k: int| off <= k < i ==> s@[k] != b,
        decreases s@.len() - i,
    {
        i = i + 1;
    }
    proof {
        lemma_byte_end(t, b);
        let e = byte_end(t, b);
        let j = i - off;
        if e < j {
            assert(t[e] == s@[off + e]);
        } else if j < e {
            assert(t[j] == s@[i as int]);
        }
    }
    i
}

/// Whether `needle` occurs at `s[i..]`.
fn matches_at(s: &[u8], i: usize, needle: &[u8]) -> (r: bool)
    requires
        i + needle@.len() <= s@.len(),
    ensures
        r == (s@.subrange(i as int, i + needle@.len()) == needle@),
{
    let sl = s.len();
    let mut j: usize = 0;
    while j < needle.len()
        invariant
            j <= needle@.len(),
            sl == s@.len(),
            i + needle@.len() <= sl,
            forall|k: int| 0 <= k < j ==> s@[i + k] == needle@[k],
        decreases needle@.len() - j,
    {
        if s[i + j] != needle[j] {
            assert(s@.subrange(i as int, i + needle@.len())[j as int] != needle@[j as int]);
            return false;
        }
        j = j + 1;
    }
    assert(s@.subrange(i as int, i + needle@.len()) =~= needle@);
    true
}

/// Whether `needle` occurs in `s[start..end]`.
fn contains_in(s: &[u8], start: usize, end: usize, needle: &[u8]) -> (r: bool)
    requires
        start <= end <= s@.len(),
    ensures
        r == contains_bytes(s@.subrange(start as int, end as int), needle@),
{
    let ghost line = s@.subrange(start as int, end as int);
    let n = needle.len();
    if n > end - start {
        return false;
    }
    if n == 0 {
        assert(line.subrange(0int, 0int + needle@.len()) =~= needle@);
        return true;
    }
    let mut i: usize = start;
    while i <= end - n
        invariant
            start <= i <= end - n + 1,
            n == needle@.len(),
            1 <= n <= end - start,
            end <= s@.len(),
            line == s@.subrange(start as int, end as int),
            forall|j: int|
                0 <= j && start + j < i ==> #[trigger] line.subrange(j, j + n) != needle@,
        decreases end - n + 1 - i,
    {
        if matches_at(s, i, needle) {
            let ghost j = i - start;
            assert(line.subrange(j, j + n) =~= s@.subrange(i as int, i + n));
            return true;
        }
        assert(line.subrange(i - start, i - start + n) =~= s@.subrange(i as int, i + n));
        i = i + 1;
    }
    false
}

/// The port that the text of the controller's status file names free (see
/// `free_port_of`).
pub fn free_port(status: &[u8]) -> (r: u32)
    ensures
        r == free_port_of(status@),
{
    let port: [u8; 4] = [80, 111, 114, 116];
    let attached: [u8; 8] = [65, 116, 116, 97, 99, 104, 101, 100];
    assert(port@ =~= port_word());
    assert(attached@ =~= attached_word());
    let ghost s = status@;
    let mut off: usize = 0;
    let mut k: usize = 0;
    while off <= status.len()
        invariant
            off <= s.len(),
            k <= off,
            s == status@,
            port@ == port_word(),
            attached@ == attached_word(),
            free_line_from(s, 0) == (if free_line_from(s, off as int) < 0 {
                -1
            } else {
                free_line_from(s, off as int) + k
            }),
        decreases s.len() + 1 - off,
    {
        let e = find_byte_from(status, off, 10u8);
        proof {
            lemma_byte_end(s.subrange(off as int, s.len() as int), 10u8);
        }
        if contains_in(status, off, e, port.as_slice()) && !contains_in(
            status,
            off,
            e,
            attached.as_slice(),
        ) {
            return k as u32;
        }
        if e >= status.len() {
            return 0;
        }
        off = e + 1;
        k = k + 1;
    }
    0
}

// ── The Windows driver ───────────────────────────────────────────────

/// The descriptor block of the Windows driver: the length of the
/// descriptor tree, 32 little-endian bits, then the tree.
pub fn windows_descriptor_block(descriptors: &[u8]) -> (r: Vec<u8>)
    requires
        descriptors@.len() <= u32::MAX,
    ensures
        r@ == le32(descriptors@.len() as u32) + descriptors@,
{
    let mut block: Vec<u8> = Vec::new();
    push_le32(&mut block, descriptors.len() as u32);
    push_bytes(&mut block, descriptors);
    block
}

/// The input of the Windows attach request: port, device id and speed,
/// each 32 little-endian bits, then the descriptor block.
pub fn windows_attach_input(port: u32, devid: u32, speed: u32, block: &[u8]) -> (r: Vec<u8>)
    ensures
        r@ == le32(port) + le32(devid) + le32(speed) + block@,
{
    let mut input: Vec<u8> = Vec::new();
    push_le32(&mut input, port);
    push_le32(&mut input, devid);
    push_le32(&mut input, speed);
    push_bytes(&mut input, block);
    input
}

} // verus!
