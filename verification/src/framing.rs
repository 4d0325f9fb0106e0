//! Message framing on the wire after the import handshake: every USB/IP
//! message travels as a 4-byte big-endian length followed by that many
//! bytes (ciphertext when the tunnel is encrypted), and the key exchange
//! sends each side's X25519 public key the same way.
use vstd::prelude::*;
use crate::codec::{be32, be32_at, push_be32, push_bytes, read_be32, signed_text, text_with_number};
use crate::error::{ErrorKind, UsbIpError, UsbIpResult};

verus! {

/// Largest frame accepted: one USB/IP message sealed, that is with the
/// 4-byte nonce length, the 12-byte nonce and the 16-byte tag.
pub const ENCRYPTED_MAX: usize = crate::MAX_MESSAGE_SIZE + 32;

/// Length of an X25519 public key.
pub const PUBLIC_KEY_LEN: u32 = 32;

/// A payload with its 4-byte big-endian length in front.
pub open spec fn framed(payload: Seq<u8>) -> Seq<u8> {
    be32(payload.len() as u32) + payload
}

/// Prefix `payload` with its length.
pub fn frame_message(payload: &[u8]) -> (r: Vec<u8>)
    ensures
        r@ == framed(payload@),
{
    let mut out: Vec<u8> = Vec::new();
    push_be32(&mut out, payload.len() as u32);
    push_bytes(&mut out, payload);
    assert(out@ =~= framed(payload@));
    out
}

/// The key-exchange message: the key length 32, then the key.
pub fn key_exchange_message(public_key: &[u8]) -> (r: Vec<u8>)
    ensures
        r@ == be32(PUBLIC_KEY_LEN) + public_key@,
{
    let mut out: Vec<u8> = Vec::new();
    push_be32(&mut out, PUBLIC_KEY_LEN);
    push_bytes(&mut out, public_key);
    assert(out@ =~= be32(PUBLIC_KEY_LEN) + public_key@);
    out
}

/// Whether a frame length is accepted: non-zero and at most
/// [`ENCRYPTED_MAX`].
pub open spec fn frame_len_ok(len: u32) -> bool {
    0 < len && len <= ENCRYPTED_MAX
}

/// The text of a refused frame length's error.
pub open spec fn frame_len_message(len: u32, encrypted: bool) -> Seq<char> {
    if encrypted {
        "invalid encrypted frame length: "@ + signed_text(len as int)
    } else {
        "invalid frame length: "@ + signed_text(len as int)
    }
}

/// Read the length prefix of a frame; a zero or too large length is an
/// error (an encryption error when `encrypted`, else an invalid message)
/// whose text gives the length.
pub fn read_frame_length(prefix: &[u8; 4], encrypted: bool) -> (r: UsbIpResult<usize>)
    ensures
        frame_len_ok(be32_at(prefix@, 0)) ==> r == Ok::<usize, UsbIpError>(
            be32_at(prefix@, 0) as usize,
        ),
        !frame_len_ok(be32_at(prefix@, 0)) ==> (r matches Err(e) && match e.spec_kind() {
            ErrorKind::Encryption(m) => encrypted && m@ == frame_len_message(
                be32_at(prefix@, 0),
                true,
            ),
            ErrorKind::InvalidMessage(m) => !encrypted && m@ == frame_len_message(
                be32_at(prefix@, 0),
                false,
            ),
            _ => false,
        }),
{
    let len = read_be32(prefix.as_slice(), 0);
    if len == 0 || len as usize > ENCRYPTED_MAX {
        let kind = if encrypted {
            ErrorKind::Encryption(text_with_number("invalid encrypted frame length: ", len as i64))
        } else {
            ErrorKind::InvalidMessage(text_with_number("invalid frame length: ", len as i64))
        };
        proof {
            reveal_strlit("invalid encrypted frame length: ");
            reveal_strlit("invalid frame length: ");
        }
        return Err(UsbIpError::from_kind(kind));
    }
    Ok(len as usize)
}

/// The text of a refused peer key length's error.
pub open spec fn peer_key_message(len: u32, peer_is_client: bool) -> Seq<char> {
    if peer_is_client {
        "unexpected client pubkey length: "@ + signed_text(len as int)
    } else {
        "unexpected server pubkey length: "@ + signed_text(len as int)
    }
}

/// Check the length prefix of the peer's public key: it must be 32, else
/// an encryption error whose text names the peer and the length.
pub fn check_peer_key_length(prefix: &[u8; 4], peer_is_client: bool) -> (r: UsbIpResult<()>)
    ensures
        be32_at(prefix@, 0) == PUBLIC_KEY_LEN ==> r is Ok,
        be32_at(prefix@, 0) != PUBLIC_KEY_LEN ==> (r matches Err(e) && e.spec_kind() matches ErrorKind::Encryption(m)
            && m@ == peer_key_message(be32_at(prefix@, 0), peer_is_client)),
{
    let len = read_be32(prefix.as_slice(), 0);
    if len != PUBLIC_KEY_LEN {
        let msg = if peer_is_client {
            text_with_number("unexpected client pubkey length: ", len as i64)
        } else {
            text_with_number("unexpected server pubkey length: ", len as i64)
        };
        return Err(UsbIpError::from_kind(ErrorKind::Encryption(msg)));
    }
    Ok(())
}

} // verus!

verus! {

/// The length prefix of a framed message reads back as the message's
/// length, and is accepted when the message is non-empty and fits.
pub proof fn law_frame_length_reads_back(payload: Seq<u8>)
    requires
        0 < payload.len() <= ENCRYPTED_MAX,
    ensures
        be32_at(framed(payload), 0) == payload.len(),
        frame_len_ok(be32_at(framed(payload), 0)),
        framed(payload).subrange(4, framed(payload).len() as int) == payload,
{
    crate::codec::lemma_be32_roundtrip(payload.len() as u32);
    let f = framed(payload);
    assert(be32_at(f, 0) == be32_at(be32(payload.len() as u32), 0));
    assert(f.subrange(4, f.len() as int) =~= payload);
}


/// Every message of up to `MAX_MESSAGE_SIZE` bytes goes through the
/// encrypted tunnel: what encrypting it under the session key gives is
/// 32 bytes longer, so its frame's length prefix reads back as its length
/// and is accepted, the bytes after the prefix are the encrypted message,
/// and they decrypt under the same key to the message.
pub proof fn law_tunnel_roundtrip(
    key: crate::crypto::SessionKey,
    message: Seq<u8>,
    wire: Seq<u8>,
)
    requires
        message.len() <= crate::MAX_MESSAGE_SIZE,
        crate::crypto::encrypts_to(key@, message, wire),
    ensures
        wire.len() == message.len() + 32,
        be32_at(framed(wire), 0) == wire.len(),
        frame_len_ok(be32_at(framed(wire), 0)),
        framed(wire).subrange(4, framed(wire).len() as int) == wire,
        crate::crypto::opens_to(key@, wire, message),
{
    let (n, c) = choose|n: Seq<u8>, c: Seq<u8>|
        {
            &&& n.len() == 12
            &&& c.len() == message.len() + 16
            &&& #[trigger] crate::crypto::aes256_gcm_open(key@, n, c) == Some(message)
            &&& wire == crate::crypto::sealed_frame(n, c)
        };
    assert(be32(12).len() == 4);
    assert(wire.len() == message.len() + 32);
    law_frame_length_reads_back(wire);
    crate::crypto::law_session_decrypt_undoes_encrypt(key, message, wire);
}
} // verus!
