//! Command-line helpers of the server: `VID:PID` allowlist entries and
//! the choice of bind address.
use vstd::prelude::*;
use vstd::string::StringSliceAdditionalSpecFns;
use crate::codec::{byte_end, find_byte, lemma_byte_end, lemma_ascii_byte_boundaries, parse_unsigned};
use crate::error::UsbIpResult;

verus! {

/// ASCII `:`.
pub const VID_PID_SEPARATOR: u8 = 58;

/// `u16::from_str_radix(s, 16)`: the value of a hexadecimal `u16` literal
/// (one leading `+` allowed). On failure the error's text is returned; which
/// of std's texts (empty string, invalid digit, too large) it is, is not
/// stated here.
#[verifier::external_body]
fn u16_from_hex(s: &str) -> (r: Result<u16, String>)
    ensures
        match parse_unsigned(s.spec_bytes(), 16, 0xffff) {
            Some(v) => r == Ok::<u16, String>(v as u16),
            None => r is Err,
        },
{
    u16::from_str_radix(s, 16).map_err(|e| e.to_string())
}

/// The text of the error for a `VID:PID` without exactly one `:`.
pub open spec fn vid_pid_format_message() -> Seq<char> {
    "format: VID:PID (e.g., 046d:c261)"@
}

/// The (VID, PID) of `VID:PID`: exactly one `:`, and a hexadecimal `u16`
/// on each side.
pub open spec fn vid_pid_of(s: Seq<u8>) -> Option<(u16, u16)> {
    let i = byte_end(s, VID_PID_SEPARATOR);
    let rest = s.subrange(i + 1, s.len() as int);
    if i >= s.len() || byte_end(rest, VID_PID_SEPARATOR) < rest.len() {
        None
    } else {
        match (parse_unsigned(s.subrange(0, i), 16, 0xffff), parse_unsigned(rest, 16, 0xffff)) {
            (Some(v), Some(p)) => Some((v as u16, p as u16)),
            _ => None,
        }
    }
}

/// Parse an allowlist entry `VID:PID` (hexadecimal, e.g. `046d:c261`).
pub fn parse_vid_pid(s: &str) -> (r: Result<(u16, u16), String>)
    ensures
        match vid_pid_of(s.spec_bytes()) {
            Some(p) => r == Ok::<(u16, u16), String>(p),
            None => r is Err,
        },
        byte_end(s.spec_bytes(), VID_PID_SEPARATOR) >= s.spec_bytes().len() ==> (r matches Err(m)
            && m@ == vid_pid_format_message()),
{
    let b: &[u8] = s.as_bytes();
    let i = find_byte(b, VID_PID_SEPARATOR);
    if i >= b.len() {
        return Err("format: VID:PID (e.g., 046d:c261)".to_owned());
    }
    let rest: &[u8] = &b[i + 1..b.len()];
    let j = find_byte(rest, VID_PID_SEPARATOR);
    if j < rest.len() {
        return Err("format: VID:PID (e.g., 046d:c261)".to_owned());
    }
    proof {
        vstd::utf8::encode_utf8_valid_utf8(s@);
        lemma_byte_end(b@, VID_PID_SEPARATOR);
        lemma_ascii_byte_boundaries(s.spec_bytes(), i as int);
    }
    let (left, _) = s.split_at(i);
    let (_, right) = s.split_at(i + 1);
    assert(left.spec_bytes() =~= b@.subrange(0, i as int));
    assert(right.spec_bytes() =~= rest@);
    let vid = match u16_from_hex(left) {
        Ok(v) => v,
        Err(e) => return Err(e),
    };
    let pid = match u16_from_hex(right) {
        Ok(p) => p,
        Err(e) => return Err(e),
    };
    Ok((vid, pid))
}

/// The address to bind: the address of interface `iface` when one is named
/// and `lookup` resolves it, else `bind`.
pub fn resolve_bind_address<F: Fn(&str) -> Option<String>>(
    bind: &str,
    iface: Option<&str>,
    lookup: &F,
) -> (r: UsbIpResult<String>)
    requires
        forall|name: &str| call_requires(*lookup, (name,)),
    ensures
        r matches Ok(addr) && match iface {
            None => addr@ == bind@,
            Some(name) => exists|found: Option<String>|
                call_ensures(*lookup, (name,), found) && addr@ == (match found {
                    Some(ip) => ip@,
                    None => bind@,
                }),
        },
{
    match iface {
        Some(name) => match lookup(name) {
            Some(ip) => Ok(ip),
            None => Ok(bind.to_owned()),
        },
        None => Ok(bind.to_owned()),
    }
}

} // verus!
