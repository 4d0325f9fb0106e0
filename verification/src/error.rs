//! Structured errors for the USB/IP stack.
//!
//! Every error carries a correlation id (UUIDv7) and an [`ErrorCategory`]
//! telling the caller whether the failure is transient, permanent or fatal:
//! hot-plug detection recognises permanent "device not found" errors and
//! auto-reconnect recognises transient timeouts and closed connections.
use vstd::prelude::*;
use vstd::utf8::encode_utf8;
use crate::codec::{bytes_less, bytes_lt, lemma_bytes_lt_order, signed_text, text_with_number};
use vstd::string::StringExecFns;

verus! {

/// How a failure should be handled.
#[derive(Debug, Clone, Copy, PartialEq, Eq, Structural)]
pub enum ErrorCategory {
    /// Network blip or timeout: retrying is appropriate.
    Transient,
    /// Device removed or protocol violation: retrying is futile.
    Permanent,
    /// Corrupt state or broken invariant: the caller should abort.
    Fatal,
}

impl ErrorCategory {
    /// The lower-case name of the category ("transient", "permanent",
    /// "fatal"), as it appears in error messages.
    pub fn to_string(&self) -> (r: String)
        ensures
            r@ == (match *self {
                ErrorCategory::Transient => "transient"@,
                ErrorCategory::Permanent => "permanent"@,
                ErrorCategory::Fatal => "fatal"@,
            }),
    {
        match self {
            ErrorCategory::Transient => "transient".to_owned(),
            ErrorCategory::Permanent => "permanent".to_owned(),
            ErrorCategory::Fatal => "fatal".to_owned(),
        }
    }
}

/// A time-sortable unique identifier that follows an error through the
/// system (UUIDv7).
pub type CorrelationId = uuid::Uuid;

#[verifier::external_type_specification]
#[verifier::external_body]
pub struct ExUuid(uuid::Uuid);

/// `Uuid::clone`: `Uuid` derives `Clone` and `Copy`, so a clone is the same
/// value.
pub assume_specification[ <uuid::Uuid as Clone>::clone ](u: &uuid::Uuid) -> (r: uuid::Uuid)
    ensures
        r == *u,
;

/// A fresh correlation id.
///
/// Calls `uuid::Uuid::now_v7`; the value depends on the clock and a random
/// source, so nothing is stated of it.
#[verifier::external_body]
fn fresh_correlation_id() -> CorrelationId {
    uuid::Uuid::now_v7()
}

/// The kinds of I/O failure the error classification distinguishes.
#[derive(Debug, Clone, Copy, PartialEq, Eq, Structural)]
pub enum IoErrorKind {
    WouldBlock,
    TimedOut,
    Interrupted,
    NotConnected,
    ConnectionReset,
    ConnectionRefused,
    ConnectionAborted,
    BrokenPipe,
    UnexpectedEof,
    /// Any other I/O failure.
    Other,
}

/// An I/O failure: what kind it was and its message.
#[derive(Debug, Clone)]
pub struct IoFailure {
    pub kind: IoErrorKind,
    pub message: String,
}

/// The category of an I/O failure: everything but `Other` is transient.
pub open spec fn io_category(k: IoErrorKind) -> ErrorCategory {
    if k == IoErrorKind::Other {
        ErrorCategory::Permanent
    } else {
        ErrorCategory::Transient
    }
}

#[verifier::external_type_specification]
#[verifier::external_body]
pub struct ExIoError(std::io::Error);

/// The kind of an `std::io::Error` (`std::io::Error::kind`), narrowed to
/// the kinds this crate distinguishes; all other kinds become `Other`.
/// Nothing is stated of the result: the error value is opaque here.
#[verifier::external_body]
fn io_error_kind(e: &std::io::Error) -> IoErrorKind {
    match e.kind() {
        std::io::ErrorKind::WouldBlock => IoErrorKind::WouldBlock,
        std::io::ErrorKind::TimedOut => IoErrorKind::TimedOut,
        std::io::ErrorKind::Interrupted => IoErrorKind::Interrupted,
        std::io::ErrorKind::NotConnected => IoErrorKind::NotConnected,
        std::io::ErrorKind::ConnectionReset => IoErrorKind::ConnectionReset,
        std::io::ErrorKind::ConnectionRefused => IoErrorKind::ConnectionRefused,
        std::io::ErrorKind::ConnectionAborted => IoErrorKind::ConnectionAborted,
        std::io::ErrorKind::BrokenPipe => IoErrorKind::BrokenPipe,
        std::io::ErrorKind::UnexpectedEof => IoErrorKind::UnexpectedEof,
        _ => IoErrorKind::Other,
    }
}

/// The display text of an `std::io::Error` (its `to_string`). Nothing is
/// stated of the text.
#[verifier::external_body]
fn io_error_message(e: &std::io::Error) -> String {
    e.to_string()
}

impl IoFailure {
    /// Capture the kind and message of an I/O error.
    pub fn from_io_error(e: &std::io::Error) -> IoFailure {
        IoFailure { kind: io_error_kind(e), message: io_error_message(e) }
    }
}

/// Failures reported by libusb, one for each `rusb::Error` variant.
#[derive(Debug, Clone, Copy, PartialEq, Eq, Structural)]
pub enum UsbErrorCode {
    Io,
    InvalidParam,
    Access,
    NoDevice,
    NotFound,
    Busy,
    Timeout,
    Overflow,
    Pipe,
    Interrupted,
    NoMem,
    NotSupported,
    BadDescriptor,
    Other,
}

#[verifier::external_type_specification]
#[verifier::external_body]
pub struct ExRusbError(rusb::Error);

/// The variant of a `rusb::Error` as a [`UsbErrorCode`] (one arm per
/// variant). The error value is opaque here, so nothing is stated.
#[verifier::external_body]
fn usb_error_code(e: &rusb::Error) -> UsbErrorCode {
    match e {
        rusb::Error::Io => UsbErrorCode::Io, rusb::Error::Access => UsbErrorCode::Access,
        rusb::Error::InvalidParam => UsbErrorCode::InvalidParam,
        rusb::Error::NoDevice => UsbErrorCode::NoDevice,
        rusb::Error::NotFound => UsbErrorCode::NotFound, rusb::Error::Busy => UsbErrorCode::Busy,
        rusb::Error::Timeout => UsbErrorCode::Timeout, rusb::Error::Pipe => UsbErrorCode::Pipe,
        rusb::Error::Overflow => UsbErrorCode::Overflow, rusb::Error::NoMem => UsbErrorCode::NoMem,
        rusb::Error::Interrupted => UsbErrorCode::Interrupted,
        rusb::Error::NotSupported => UsbErrorCode::NotSupported,
        rusb::Error::BadDescriptor => UsbErrorCode::BadDescriptor,
        rusb::Error::Other => UsbErrorCode::Other,
    }
}

/// The URB status (negated errno) reported for a libusb failure.
pub open spec fn urb_status_of(c: UsbErrorCode) -> i32 {
    match c {
        UsbErrorCode::Io => -5i32,
        UsbErrorCode::InvalidParam => -22i32,
        UsbErrorCode::Access => -1i32,
        UsbErrorCode::NoDevice => -19i32,
        UsbErrorCode::NotFound => -2i32,
        UsbErrorCode::Busy => -16i32,
        UsbErrorCode::Timeout => -62i32,
        UsbErrorCode::Overflow => -75i32,
        UsbErrorCode::Pipe => -32i32,
        UsbErrorCode::Interrupted => -4i32,
        UsbErrorCode::NoMem => -12i32,
        UsbErrorCode::NotSupported => -95i32,
        UsbErrorCode::BadDescriptor => -5i32,
        UsbErrorCode::Other => -5i32,
    }
}

impl UsbErrorCode {
    /// Capture the variant of a libusb error.
    pub fn from_rusb(e: &rusb::Error) -> UsbErrorCode {
        usb_error_code(e)
    }

    /// The URB status for this failure: -EIO, -EINVAL, -EPERM, -ENODEV,
    /// -ENOENT, -EBUSY, -ETIME, -EOVERFLOW, -EPIPE, -EINTR, -ENOMEM,
    /// -EOPNOTSUPP; malformed descriptors and other failures give -EIO.
    pub fn urb_status(&self) -> (r: i32)
        ensures
            r == urb_status_of(*self),
    {
        match self {
            UsbErrorCode::Io => -5,
            UsbErrorCode::InvalidParam => -22,
            UsbErrorCode::Access => -1,
            UsbErrorCode::NoDevice => -19,
            UsbErrorCode::NotFound => -2,
            UsbErrorCode::Busy => -16,
            UsbErrorCode::Timeout => -62,
            UsbErrorCode::Overflow => -75,
            UsbErrorCode::Pipe => -32,
            UsbErrorCode::Interrupted => -4,
            UsbErrorCode::NoMem => -12,
            UsbErrorCode::NotSupported => -95,
            UsbErrorCode::BadDescriptor => -5,
            UsbErrorCode::Other => -5,
        }
    }
}

/// The USB/IP URB status code of a libusb failure (see
/// [`UsbErrorCode::from_rusb`] for taking it from a `rusb::Error`).
pub fn rusb_to_urb_status(code: UsbErrorCode) -> (r: i32)
    ensures
        r == urb_status_of(code),
{
    code.urb_status()
}

/// The specific kind of a USB/IP error.
#[derive(Debug, Clone)]
pub enum ErrorKind {
    Io(IoFailure),
    Usb(UsbErrorCode),
    Protocol(String),
    InvalidMessage(String),
    ConnectionClosed,
    DeviceNotFound(String),
    DeviceBusy(String),
    UrbFailed(u32),
    Timeout,
    NotSupported(String),
    Encryption(String),
    Serialization(String),
}

/// Every I/O failure but one of kind `Other` is transient, so a reconnect
/// follows it: a refused, reset, aborted or not yet made connection, a
/// timeout, an interruption, a would-block, a broken pipe or an early end
/// of stream. An `Other` failure is permanent.
pub proof fn law_io_failures_are_transient(f: IoFailure)
    ensures
        f.kind == IoErrorKind::WouldBlock ==> kind_category(ErrorKind::Io(f)) == ErrorCategory::Transient,
        f.kind == IoErrorKind::TimedOut ==> kind_category(ErrorKind::Io(f)) == ErrorCategory::Transient,
        f.kind == IoErrorKind::Interrupted ==> kind_category(ErrorKind::Io(f)) == ErrorCategory::Transient,
        f.kind == IoErrorKind::NotConnected ==> kind_category(ErrorKind::Io(f)) == ErrorCategory::Transient,
        f.kind == IoErrorKind::ConnectionReset ==> kind_category(ErrorKind::Io(f)) == ErrorCategory::Transient,
        f.kind == IoErrorKind::ConnectionRefused ==> kind_category(ErrorKind::Io(f)) == ErrorCategory::Transient,
        f.kind == IoErrorKind::ConnectionAborted ==> kind_category(ErrorKind::Io(f)) == ErrorCategory::Transient,
        f.kind == IoErrorKind::BrokenPipe ==> kind_category(ErrorKind::Io(f)) == ErrorCategory::Transient,
        f.kind == IoErrorKind::UnexpectedEof ==> kind_category(ErrorKind::Io(f)) == ErrorCategory::Transient,
        f.kind == IoErrorKind::Other ==> kind_category(ErrorKind::Io(f)) == ErrorCategory::Permanent,
{
}

/// The canonical category of each error kind.
pub open spec fn kind_category(k: ErrorKind) -> ErrorCategory {
    match k {
        ErrorKind::Timeout | ErrorKind::ConnectionClosed => ErrorCategory::Transient,
        ErrorKind::Io(f) => io_category(f.kind),
        ErrorKind::Usb(c) => if c == UsbErrorCode::Timeout || c == UsbErrorCode::Busy {
            ErrorCategory::Transient
        } else {
            ErrorCategory::Permanent
        },
        ErrorKind::DeviceNotFound(_)
        | ErrorKind::DeviceBusy(_)
        | ErrorKind::NotSupported(_)
        | ErrorKind::Protocol(_)
        | ErrorKind::InvalidMessage(_) => ErrorCategory::Permanent,
        ErrorKind::UrbFailed(_) | ErrorKind::Encryption(_) | ErrorKind::Serialization(_) =>
            ErrorCategory::Fatal,
    }
}

impl ErrorKind {
    /// The canonical [`ErrorCategory`] of this kind.
    pub fn category(&self) -> (r: ErrorCategory)
        ensures
            r == kind_category(*self),
            self matches ErrorKind::Io(f) ==> (r == ErrorCategory::Permanent <==> f.kind
                == IoErrorKind::Other),
            self matches ErrorKind::Io(f) ==> (r == ErrorCategory::Transient <==> f.kind
                != IoErrorKind::Other),
    {
        match self {
            ErrorKind::Timeout | ErrorKind::ConnectionClosed => ErrorCategory::Transient,
            ErrorKind::Io(f) => {
                if f.kind == IoErrorKind::Other {
                    ErrorCategory::Permanent
                } else {
                    ErrorCategory::Transient
                }
            },
            ErrorKind::Usb(c) => {
                if *c == UsbErrorCode::Timeout || *c == UsbErrorCode::Busy {
                    ErrorCategory::Transient
                } else {
                    ErrorCategory::Permanent
                }
            },
            ErrorKind::DeviceNotFound(_)
            | ErrorKind::DeviceBusy(_)
            | ErrorKind::NotSupported(_)
            | ErrorKind::Protocol(_)
            | ErrorKind::InvalidMessage(_) => ErrorCategory::Permanent,
            ErrorKind::UrbFailed(_) | ErrorKind::Encryption(_) | ErrorKind::Serialization(_) => {
                ErrorCategory::Fatal
            },
        }
    }
}

} // verus!

verus! {

/// A structured USB/IP error: kind, category, correlation id, and
/// key-value context.
#[derive(Debug)]
pub struct UsbIpError {
    kind: ErrorKind,
    category: ErrorCategory,
    correlation_id: CorrelationId,
    context: Vec<(String, String)>,
}

/// The key-value map a list of pairs with distinct keys denotes.
pub open spec fn pairs_map(s: Seq<(String, String)>) -> Map<Seq<char>, Seq<char>> {
    Map::new(
        |k: Seq<char>| exists|i: int| 0 <= i < s.len() && (#[trigger] s[i]).0@ == k,
        |k: Seq<char>| s[choose|i: int| 0 <= i < s.len() && (#[trigger] s[i]).0@ == k].1@,
    )
}

/// No key occurs twice.
pub open spec fn distinct_keys(s: Seq<(String, String)>) -> bool {
    forall|i: int, j: int|
        0 <= i < s.len() && 0 <= j < s.len() && i != j ==> (#[trigger] s[i]).0@ != (#[trigger] s[
            j]).0@
}

/// The order of context keys: byte-wise order of their UTF-8 text, the
/// order of `str`.
pub open spec fn key_lt(a: Seq<char>, b: Seq<char>) -> bool {
    bytes_lt(encode_utf8(a), encode_utf8(b))
}

/// The keys strictly increase.
pub open spec fn sorted_keys(s: Seq<(String, String)>) -> bool {
    forall|i: int, j: int| 0 <= i < j < s.len() ==> key_lt((#[trigger] s[i]).0@, (#[trigger] s[j]).0@)
}

/// `key_lt` is a strict total order.
pub proof fn lemma_key_lt_order(a: Seq<char>, b: Seq<char>, c: Seq<char>)
    ensures
        !key_lt(a, a),
        key_lt(a, b) ==> !key_lt(b, a),
        key_lt(a, b) && key_lt(b, c) ==> key_lt(a, c),
        a != b ==> key_lt(a, b) || key_lt(b, a),
{
    lemma_bytes_lt_order(encode_utf8(a), encode_utf8(b), encode_utf8(c));
    if a != b {
        vstd::utf8::encode_utf8_decode_utf8(a);
        vstd::utf8::encode_utf8_decode_utf8(b);
    }
}

proof fn lemma_sorted_distinct(s: Seq<(String, String)>)
    requires
        sorted_keys(s),
    ensures
        distinct_keys(s),
{
    assert forall|i: int, j: int|
        0 <= i < s.len() && 0 <= j < s.len() && i != j implies (#[trigger] s[i]).0@ != (
        #[trigger] s[j]).0@ by {
        lemma_key_lt_order(s[i].0@, s[j].0@, s[j].0@);
        lemma_key_lt_order(s[j].0@, s[i].0@, s[i].0@);
    }
}

proof fn lemma_pairs_map_entry(s: Seq<(String, String)>, i: int)
    requires
        distinct_keys(s),
        0 <= i < s.len(),
    ensures
        pairs_map(s).contains_key(s[i].0@),
        pairs_map(s)[s[i].0@] == s[i].1@,
{
    let k = s[i].0@;
    assert(s[i].0@ == k);
    let j = choose|j: int| 0 <= j < s.len() && (#[trigger] s[j]).0@ == k;
    if j != i {
        assert(s[i].0@ != s[j].0@);
    }
}

proof fn lemma_pairs_map_ext(s: Seq<(String, String)>, m: Map<Seq<char>, Seq<char>>)
    requires
        distinct_keys(s),
        forall|i: int|
            0 <= i < s.len() ==> m.contains_key((#[trigger] s[i]).0@) && m[s[i].0@] == s[i].1@,
        forall|k: Seq<char>|
            m.contains_key(k) ==> exists|i: int| 0 <= i < s.len() && (#[trigger] s[i]).0@ == k,
    ensures
        pairs_map(s) == m,
{
    assert forall|k: Seq<char>| #[trigger] pairs_map(s).contains_key(k) implies m.contains_key(k)
        && pairs_map(s)[k] == m[k] by {
        let i = choose|i: int| 0 <= i < s.len() && (#[trigger] s[i]).0@ == k;
        lemma_pairs_map_entry(s, i);
    }
    assert forall|k: Seq<char>| m.contains_key(k) implies #[trigger] pairs_map(s).contains_key(
        k,
    ) by {
        let i = choose|i: int| 0 <= i < s.len() && (#[trigger] s[i]).0@ == k;
        lemma_pairs_map_entry(s, i);
    }
    assert(pairs_map(s) =~= m);
}

/// Whether key `a` comes before key `b`.
fn key_less(a: &str, b: &str) -> (r: bool)
    ensures
        r == key_lt(a@, b@),
{
    bytes_less(a.as_bytes(), b.as_bytes())
}

impl UsbIpError {
    #[verifier::type_invariant]
    spec fn inv(self) -> bool {
        sorted_keys(self.context@)
    }

    /// The kind of this error.
    pub closed spec fn spec_kind(self) -> ErrorKind {
        self.kind
    }

    /// The category of this error.
    pub closed spec fn spec_category(self) -> ErrorCategory {
        self.category
    }

    /// The correlation id of this error.
    pub closed spec fn spec_correlation_id(self) -> CorrelationId {
        self.correlation_id
    }

    /// The attached context, key to value.
    pub closed spec fn context_map(self) -> Map<Seq<char>, Seq<char>> {
        pairs_map(self.context@)
    }

    /// A new error with a fresh correlation id and no context.
    pub fn new(kind: ErrorKind, category: ErrorCategory) -> (e: Self)
        ensures
            e.spec_kind() == kind,
            e.spec_category() == category,
            e.context_map() == Map::<Seq<char>, Seq<char>>::empty(),
    {
        let e = UsbIpError {
            kind,
            category,
            correlation_id: fresh_correlation_id(),
            context: Vec::new(),
        };
        assert(e.context_map() =~= Map::<Seq<char>, Seq<char>>::empty());
        e
    }

    /// A new error whose category is the kind's canonical one.
    pub fn from_kind(kind: ErrorKind) -> (e: Self)
        ensures
            e.spec_kind() == kind,
            e.spec_category() == kind_category(kind),
            e.context_map() == Map::<Seq<char>, Seq<char>>::empty(),
    {
        let category = kind.category();
        Self::new(kind, category)
    }

    /// An I/O error, transient for the interrupted / timed-out / closed
    /// connection kinds and permanent otherwise.
    pub fn from_io(failure: IoFailure) -> (e: Self)
        ensures
            e.spec_kind() == ErrorKind::Io(failure),
            e.spec_category() == io_category(failure.kind),
            e.context_map() == Map::<Seq<char>, Seq<char>>::empty(),
    {
        Self::from_kind(ErrorKind::Io(failure))
    }

    /// A libusb error, transient for timeouts and busy devices and
    /// permanent otherwise.
    pub fn from_usb(code: UsbErrorCode) -> (e: Self)
        ensures
            e.spec_kind() == ErrorKind::Usb(code),
            e.spec_category() == kind_category(ErrorKind::Usb(code)),
            e.context_map() == Map::<Seq<char>, Seq<char>>::empty(),
    {
        Self::from_kind(ErrorKind::Usb(code))
    }

    /// Attach a key-value pair; an existing value for the key is replaced.
    pub fn with_context(self, key: &'static str, value: &str) -> (e: Self)
        ensures
            e.spec_kind() == self.spec_kind(),
            e.spec_category() == self.spec_category(),
            e.spec_correlation_id() == self.spec_correlation_id(),
            e.context_map() == self.context_map().insert(key@, value@),
    {
        proof {
            use_type_invariant(&self);
        }
        let UsbIpError { kind, category, correlation_id, mut context } = self;
        let k = key.to_owned();
        let v = value.to_owned();
        let ghost old_ctx = context@;
        let mut i: usize = 0;
        let mut found = false;
        let mut stop = false;
        while i < context.len() && !stop
            invariant
                i <= context@.len(),
                context@ == old_ctx,
                k@ == key@,
                sorted_keys(old_ctx),
                forall|m: int| 0 <= m < i ==> key_lt((#[trigger] old_ctx[m]).0@, k@),
                stop ==> i < old_ctx.len(),
                stop && found ==> old_ctx[i as int].0@ == k@,
                stop && !found ==> key_lt(k@, old_ctx[i as int].0@),
                !stop ==> !found,
            decreases context@.len() - i + (if stop {
                0int
            } else {
                1int
            }),
        {
            if context[i].0 == k {
                found = true;
                stop = true;
            } else if key_less(k.as_str(), context[i].0.as_str()) {
                stop = true;
            } else {
                proof {
                    lemma_key_lt_order(old_ctx[i as int].0@, k@, k@);
                }
                i = i + 1;
            }
        }
        let ghost m = pairs_map(old_ctx).insert(key@, value@);
        proof {
            lemma_sorted_distinct(old_ctx);
        }
        if found {
            context.set(i, (k, v));
            proof {
                let t = context@;
                assert forall|a: int, b: int| 0 <= a < b < t.len() implies key_lt(
                    (#[trigger] t[a]).0@,
                    (#[trigger] t[b]).0@,
                ) by {
                    assert(key_lt(old_ctx[a].0@, old_ctx[b].0@));
                }
                lemma_sorted_distinct(t);
                assert forall|j: int| 0 <= j < t.len() implies m.contains_key(
                    (#[trigger] t[j]).0@,
                ) && m[t[j].0@] == t[j].1@ by {
                    if j != i {
                        lemma_pairs_map_entry(old_ctx, j);
                        assert(old_ctx[j].0@ != old_ctx[i as int].0@);
                    }
                }
                assert forall|q: Seq<char>| m.contains_key(q) implies exists|j: int|
                    0 <= j < t.len() && (#[trigger] t[j]).0@ == q by {
                    if q == key@ {
                        assert(t[i as int].0@ == q);
                    } else {
                        let j = choose|j: int|
                            0 <= j < old_ctx.len() && (#[trigger] old_ctx[j]).0@ == q;
                        assert(t[j].0@ == q);
                    }
                }
                lemma_pairs_map_ext(t, m);
            }
        } else {
            context.insert(i, (k, v));
            proof {
                let t = context@;
                assert forall|a: int, b: int| 0 <= a < b < t.len() implies key_lt(
                    (#[trigger] t[a]).0@,
                    (#[trigger] t[b]).0@,
                ) by {
                    if b < i {
                        assert(key_lt(old_ctx[a].0@, old_ctx[b].0@));
                    } else if b == i {
                        assert(key_lt(old_ctx[a].0@, k@));
                    } else if a < i {
                        assert(t[b] == old_ctx[b - 1]);
                        assert(key_lt(old_ctx[a].0@, k@));
                        assert(key_lt(k@, old_ctx[i as int].0@));
                        if b - 1 > i {
                            assert(key_lt(old_ctx[i as int].0@, old_ctx[b - 1].0@));
                            lemma_key_lt_order(k@, old_ctx[i as int].0@, old_ctx[b - 1].0@);
                        }
                        lemma_key_lt_order(old_ctx[a].0@, k@, old_ctx[b - 1].0@);
                    } else if a == i {
                        assert(t[b] == old_ctx[b - 1]);
                        if b - 1 > i {
                            assert(key_lt(old_ctx[i as int].0@, old_ctx[b - 1].0@));
                            lemma_key_lt_order(k@, old_ctx[i as int].0@, old_ctx[b - 1].0@);
                        }
                    } else {
                        assert(t[a] == old_ctx[a - 1]);
                        assert(t[b] == old_ctx[b - 1]);
                        assert(key_lt(old_ctx[a - 1].0@, old_ctx[b - 1].0@));
                    }
                }
                lemma_sorted_distinct(t);
                assert forall|j: int| 0 <= j < t.len() implies m.contains_key(
                    (#[trigger] t[j]).0@,
                ) && m[t[j].0@] == t[j].1@ by {
                    if j < i {
                        lemma_pairs_map_entry(old_ctx, j);
                        lemma_key_lt_order(old_ctx[j].0@, k@, k@);
                    } else if j > i {
                        assert(t[j] == old_ctx[j - 1]);
                        lemma_pairs_map_entry(old_ctx, j - 1);
                        assert(key_lt(k@, old_ctx[i as int].0@));
                        if j - 1 > i {
                            assert(key_lt(old_ctx[i as int].0@, old_ctx[j - 1].0@));
                            lemma_key_lt_order(k@, old_ctx[i as int].0@, old_ctx[j - 1].0@);
                        }
                        lemma_key_lt_order(k@, old_ctx[j - 1].0@, old_ctx[j - 1].0@);
                    }
                }
                assert forall|q: Seq<char>| m.contains_key(q) implies exists|j: int|
                    0 <= j < t.len() && (#[trigger] t[j]).0@ == q by {
                    if q == key@ {
                        assert(t[i as int].0@ == q);
                    } else {
                        let j = choose|j: int|
                            0 <= j < old_ctx.len() && (#[trigger] old_ctx[j]).0@ == q;
                        if j < i {
                            assert(t[j].0@ == q);
                        } else {
                            assert(t[j + 1].0@ == q);
                        }
                    }
                }
                lemma_pairs_map_ext(t, m);
            }
        }
        let e = UsbIpError { kind, category, correlation_id, context };
        e
    }
}

impl UsbIpError {
    /// The value attached under `key`, if any.
    pub fn get_context(&self, key: &str) -> (r: Option<&String>)
        ensures
            r is Some <==> self.context_map().contains_key(key@),
            r matches Some(v) ==> v@ == self.context_map()[key@],
    {
        proof {
            use_type_invariant(self);
            lemma_sorted_distinct(self.context@);
        }
        let k = key.to_owned();
        let mut i: usize = 0;
        while i < self.context.len()
            invariant
                i <= self.context@.len(),
                k@ == key@,
                distinct_keys(self.context@),
                forall|j: int| 0 <= j < i ==> (#[trigger] self.context@[j]).0@ != k@,
            decreases self.context@.len() - i,
        {
            let eq = self.context[i].0 == k;
            if eq {
                proof {
                    let s = self.context@;
                    assert(s[i as int].0@ == k@);
                    assert(s[i as int].0@ == key@);
                    let j = choose|j: int| 0 <= j < s.len() && (#[trigger] s[j]).0@ == key@;
                    if j != i {
                        assert(s[i as int].0@ != s[j].0@);
                    }
                }
                return Some(&self.context[i].1);
            }
            i = i + 1;
        }
        proof {
            let s = self.context@;
            if pairs_map(s).contains_key(key@) {
                let j = choose|j: int| 0 <= j < s.len() && (#[trigger] s[j]).0@ == key@;
                assert(s[j].0@ != k@);
            }
        }
        None
    }

    /// The specific error kind.
    pub fn kind(&self) -> (r: &ErrorKind)
        ensures
            *r == self.spec_kind(),
    {
        &self.kind
    }

    /// The error category.
    pub fn category(&self) -> (r: ErrorCategory)
        ensures
            r == self.spec_category(),
    {
        self.category
    }

    /// The correlation id of this error instance.
    pub fn correlation_id(&self) -> (r: CorrelationId)
        ensures
            r == self.spec_correlation_id(),
    {
        self.correlation_id
    }
}

impl From<ErrorKind> for UsbIpError {
    /// An error of the given kind in the kind's canonical category.
    fn from(kind: ErrorKind) -> (e: Self) {
        Self::from_kind(kind)
    }
}

impl vstd::std_specs::convert::FromSpecImpl<ErrorKind> for UsbIpError {
    /// Each conversion draws a fresh correlation id, so no single value is
    /// promised.
    open spec fn obeys_from_spec() -> bool {
        false
    }

    open spec fn from_spec(kind: ErrorKind) -> Self {
        arbitrary()
    }
}

/// Result alias for USB/IP operations.
pub type UsbIpResult<T> = Result<T, UsbIpError>;

/// Reading a key after attaching it gives the attached value; other keys
/// keep what they had.
pub proof fn law_context_read_after_write(
    before: UsbIpError,
    after: UsbIpError,
    key: Seq<char>,
    value: Seq<char>,
    other: Seq<char>,
)
    requires
        after.context_map() == before.context_map().insert(key, value),
        other != key,
    ensures
        after.context_map().contains_key(key) && after.context_map()[key] == value,
        after.context_map().contains_key(other) == before.context_map().contains_key(other),
        before.context_map().contains_key(other) ==> after.context_map()[other]
            == before.context_map()[other],
{
}

} // verus!

verus! {

// ── Display texts ────────────────────────────────────────────────────

/// The display text of a libusb error, as `rusb::Error` writes it.
pub open spec fn usb_error_text(c: UsbErrorCode) -> Seq<char> {
    match c {
        UsbErrorCode::Io => "Input/Output Error"@,
        UsbErrorCode::InvalidParam => "Invalid parameter"@,
        UsbErrorCode::Access => "Access denied (insufficient permissions)"@,
        UsbErrorCode::NoDevice => "No such device (it may have been disconnected)"@,
        UsbErrorCode::NotFound => "Entity not found"@,
        UsbErrorCode::Busy => "Resource busy"@,
        UsbErrorCode::Timeout => "Operation timed out"@,
        UsbErrorCode::Overflow => "Overflow"@,
        UsbErrorCode::Pipe => "Pipe error"@,
        UsbErrorCode::Interrupted => "System call interrupted (perhaps due to signal)"@,
        UsbErrorCode::NoMem => "Insufficient memory"@,
        UsbErrorCode::NotSupported => "Operation not supported or unimplemented on this platform"@,
        UsbErrorCode::BadDescriptor => "Malformed descriptor"@,
        UsbErrorCode::Other => "Other error"@,
    }
}

/// `rusb::Error`'s `Display`: a fixed text for each variant.
#[verifier::external_body]
fn usb_error_display(c: UsbErrorCode) -> (s: String)
    ensures
        s@ == usb_error_text(c),
{
    let e = match c {
        UsbErrorCode::Io => rusb::Error::Io, UsbErrorCode::Access => rusb::Error::Access,
        UsbErrorCode::InvalidParam => rusb::Error::InvalidParam,
        UsbErrorCode::NoDevice => rusb::Error::NoDevice,
        UsbErrorCode::NotFound => rusb::Error::NotFound, UsbErrorCode::Busy => rusb::Error::Busy,
        UsbErrorCode::Timeout => rusb::Error::Timeout, UsbErrorCode::Pipe => rusb::Error::Pipe,
        UsbErrorCode::Overflow => rusb::Error::Overflow, UsbErrorCode::NoMem => rusb::Error::NoMem,
        UsbErrorCode::Interrupted => rusb::Error::Interrupted,
        UsbErrorCode::NotSupported => rusb::Error::NotSupported,
        UsbErrorCode::BadDescriptor => rusb::Error::BadDescriptor,
        UsbErrorCode::Other => rusb::Error::Other,
    };
    e.to_string()
}

/// The text of a correlation id (hyphenated lower-case hex).
pub uninterp spec fn uuid_text(u: uuid::Uuid) -> Seq<char>;

/// `Uuid`'s `Display`: the 36-character hyphenated lower-case form.
#[verifier::external_body]
fn uuid_display(u: &uuid::Uuid) -> (s: String)
    ensures
        s@ == uuid_text(*u),
        s@.len() == 36,
{
    u.to_string()
}

/// The lower-case name of a category.
pub open spec fn category_name(c: ErrorCategory) -> Seq<char> {
    match c {
        ErrorCategory::Transient => "transient"@,
        ErrorCategory::Permanent => "permanent"@,
        ErrorCategory::Fatal => "fatal"@,
    }
}

/// The message of an error kind.
pub open spec fn kind_message(k: ErrorKind) -> Seq<char> {
    match k {
        ErrorKind::Io(f) => "I/O error: "@ + f.message@,
        ErrorKind::Usb(c) => "USB error: "@ + usb_error_text(c),
        ErrorKind::Protocol(m) => "Protocol error: "@ + m@,
        ErrorKind::InvalidMessage(m) => "Invalid message: "@ + m@,
        ErrorKind::ConnectionClosed => "Connection closed by peer"@,
        ErrorKind::DeviceNotFound(m) => "Device not found: "@ + m@,
        ErrorKind::DeviceBusy(m) => "Device busy: "@ + m@,
        ErrorKind::UrbFailed(n) => "Device error (URB failed): status="@ + signed_text(n as int),
        ErrorKind::Timeout => "Operation timed out"@,
        ErrorKind::NotSupported(m) => "Not supported: "@ + m@,
        ErrorKind::Encryption(m) => "Encryption error: "@ + m@,
        ErrorKind::Serialization(m) => "Serialization error: "@ + m@,
    }
}

/// `prefix` followed by `s`.
fn joined(prefix: &str, s: &str) -> (r: String)
    ensures
        r@ == prefix@ + s@,
{
    let mut r = prefix.to_owned();
    r.append(s);
    r
}

impl ErrorKind {
    /// The message of this kind, e.g. `Device not found: 3-2`.
    pub fn to_string(&self) -> (r: String)
        ensures
            r@ == kind_message(*self),
    {
        match self {
            ErrorKind::Io(f) => joined("I/O error: ", f.message.as_str()),
            ErrorKind::Usb(c) => joined("USB error: ", usb_error_display(*c).as_str()),
            ErrorKind::Protocol(m) => joined("Protocol error: ", m.as_str()),
            ErrorKind::InvalidMessage(m) => joined("Invalid message: ", m.as_str()),
            ErrorKind::ConnectionClosed => "Connection closed by peer".to_owned(),
            ErrorKind::DeviceNotFound(m) => joined("Device not found: ", m.as_str()),
            ErrorKind::DeviceBusy(m) => joined("Device busy: ", m.as_str()),
            ErrorKind::UrbFailed(n) => text_with_number(
                "Device error (URB failed): status=",
                *n as i64,
            ),
            ErrorKind::Timeout => "Operation timed out".to_owned(),
            ErrorKind::NotSupported(m) => joined("Not supported: ", m.as_str()),
            ErrorKind::Encryption(m) => joined("Encryption error: ", m.as_str()),
            ErrorKind::Serialization(m) => joined("Serialization error: ", m.as_str()),
        }
    }
}

/// The text of context entries: ` key=value` for each, in order.
pub open spec fn entries_text(es: Seq<(Seq<char>, Seq<char>)>) -> Seq<char>
    decreases es.len(),
{
    if es.len() == 0 {
        Seq::empty()
    } else {
        entries_text(es.drop_last()) + " "@ + es.last().0 + "="@ + es.last().1
    }
}

/// The one-line text of an error: `[category] [correlation id] message`,
/// then ` key=value` for each context entry in key order.
pub open spec fn error_text(
    category: ErrorCategory,
    id: uuid::Uuid,
    kind: ErrorKind,
    entries: Seq<(Seq<char>, Seq<char>)>,
) -> Seq<char> {
    "["@ + category_name(category) + "] ["@ + uuid_text(id) + "] "@ + kind_message(kind)
        + entries_text(entries)
}

impl UsbIpError {
    /// The context entries (key, value) in increasing key order.
    pub closed spec fn context_entries(self) -> Seq<(Seq<char>, Seq<char>)> {
        self.context@.map_values(|p: (String, String)| (p.0@, p.1@))
    }

    /// The one-line text of this error; the context entries are those of
    /// the context map, in increasing key order.
    pub fn to_string(&self) -> (r: String)
        ensures
            r@ == error_text(
                self.spec_category(),
                self.spec_correlation_id(),
                self.spec_kind(),
                self.context_entries(),
            ),
            forall|i: int, j: int|
                0 <= i < j < self.context_entries().len() ==> key_lt(
                    (#[trigger] self.context_entries()[i]).0,
                    (#[trigger] self.context_entries()[j]).0,
                ),
            forall|i: int|
                0 <= i < self.context_entries().len() ==> self.context_map().contains_key(
                    (#[trigger] self.context_entries()[i]).0,
                ) && self.context_map()[self.context_entries()[i].0]
                    == self.context_entries()[i].1,
            forall|k: Seq<char>| #[trigger]
                self.context_map().contains_key(k) ==> exists|i: int|
                    0 <= i < self.context_entries().len() && (#[trigger] self.context_entries()[i]).0
                        == k,
    {
        proof {
            use_type_invariant(self);
            lemma_sorted_distinct(self.context@);
        }
        let mut s = "[".to_owned();
        s.append(self.category.to_string().as_str());
        s.append("] [");
        s.append(uuid_display(&self.correlation_id).as_str());
        s.append("] ");
        s.append(self.kind.to_string().as_str());
        let ghost prefix = s@;
        let ghost es = self.context_entries();
        let mut i: usize = 0;
        while i < self.context.len()
            invariant
                i <= self.context@.len(),
                es == self.context_entries(),
                es.len() == self.context@.len(),
                s@ == prefix + entries_text(es.take(i as int)),
            decreases self.context@.len() - i,
        {
            s.append(" ");
            s.append(self.context[i].0.as_str());
            s.append("=");
            s.append(self.context[i].1.as_str());
            proof {
                assert(es.take(i + 1).drop_last() =~= es.take(i as int));
                assert(es.take(i + 1).last() == es[i as int]);
            }
            i = i + 1;
        }
        proof {
            assert(es.take(es.len() as int) =~= es);
            let c = self.context@;
            assert forall|i: int| 0 <= i < es.len() implies self.context_map().contains_key(
                (#[trigger] es[i]).0,
            ) && self.context_map()[es[i].0] == es[i].1 by {
                lemma_pairs_map_entry(c, i);
            }
            assert forall|k: Seq<char>| #[trigger]
                self.context_map().contains_key(k) implies exists|i: int|
                0 <= i < es.len() && (#[trigger] es[i]).0 == k by {
                let i = choose|i: int| 0 <= i < c.len() && (#[trigger] c[i]).0@ == k;
                assert(es[i].0 == k);
            }
        }
        s
    }
}

} // verus!
