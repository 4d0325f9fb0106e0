//! The client daemon's bookkeeping: the connections it manages, the
//! answers to its control commands, and the auto-connect cycle that keeps
//! each managed connection up.
//!
//! A server is named by the text of its socket address (`ip:port`).
use vstd::prelude::*;
use vstd::string::StringExecFns;
use crate::error::{error_text, UsbIpError, UsbIpResult};
use crate::protocol::UsbIpDeviceEntry;

verus! {

// ── Connection states ────────────────────────────────────────────────

/// The state of one managed connection.
#[derive(Debug, Clone, PartialEq)]
pub enum ConnectionState {
    Disconnected,
    Connecting,
    Connected,
    /// The last import failed, with the error's text.
    Error(String),
}

/// A connection state as a value of mathematics.
pub enum StateModel {
    Disconnected,
    Connecting,
    Connected,
    Error(Seq<char>),
}

/// The model of a state.
pub open spec fn state_model(s: ConnectionState) -> StateModel {
    match s {
        ConnectionState::Disconnected => StateModel::Disconnected,
        ConnectionState::Connecting => StateModel::Connecting,
        ConnectionState::Connected => StateModel::Connected,
        ConnectionState::Error(e) => StateModel::Error(e@),
    }
}

/// The text a status report gives a state.
pub open spec fn state_text(s: StateModel) -> Seq<char> {
    match s {
        StateModel::Disconnected => "disconnected"@,
        StateModel::Connecting => "connecting"@,
        StateModel::Connected => "connected"@,
        StateModel::Error(e) => "error: "@ + e,
    }
}

/// A copy of a state.
pub fn copy_state(s: &ConnectionState) -> (r: ConnectionState)
    ensures
        state_model(r) == state_model(*s),
{
    match s {
        ConnectionState::Disconnected => ConnectionState::Disconnected,
        ConnectionState::Connecting => ConnectionState::Connecting,
        ConnectionState::Connected => ConnectionState::Connected,
        ConnectionState::Error(e) => ConnectionState::Error(e.clone()),
    }
}

// ── The table of managed connections ─────────────────────────────────

/// One managed connection as a value of mathematics.
pub struct EntryModel {
    pub server: Seq<char>,
    pub busid: Seq<char>,
    pub state: StateModel,
}

/// Whether an entry is the connection to `server` for `busid`.
pub open spec fn same_pair(server: Seq<char>, busid: Seq<char>) -> spec_fn(EntryModel) -> bool {
    |e: EntryModel| e.server == server && e.busid == busid
}

/// Whether an entry is a connection for `busid`, to any server.
pub open spec fn same_busid(busid: Seq<char>) -> spec_fn(EntryModel) -> bool {
    |e: EntryModel| e.busid == busid
}

/// `k` is the first position whose entry satisfies `p`.
pub open spec fn is_first<H>(m: Seq<(EntryModel, H)>, p: spec_fn(EntryModel) -> bool, k: int) -> bool {
    &&& 0 <= k < m.len()
    &&& p(m[k].0)
    &&& forall|j: int| 0 <= j < k ==> !p(#[trigger] m[j].0)
}

/// The first position whose entry satisfies `p`, or -1 when none does.
pub open spec fn first_where<H>(m: Seq<(EntryModel, H)>, p: spec_fn(EntryModel) -> bool) -> int {
    if exists|k: int| is_first(m, p, k) {
        choose|k: int| is_first(m, p, k)
    } else {
        -1
    }
}

/// The first position is unique, and -1 means that no entry satisfies
/// `p`.
pub proof fn lemma_first_where<H>(m: Seq<(EntryModel, H)>, p: spec_fn(EntryModel) -> bool, k: int)
    ensures
        is_first(m, p, k) ==> first_where(m, p) == k,
        (forall|j: int| 0 <= j < m.len() ==> !p(#[trigger] m[j].0)) ==> first_where(m, p) == -1,
        first_where(m, p) == -1 || is_first(m, p, first_where(m, p)),
{
    if is_first(m, p, k) {
        let c = choose|c: int| is_first(m, p, c);
        if c < k {
            assert(!p(m[c].0));
        } else if k < c {
            assert(!p(m[k].0));
        }
    }
    if forall|j: int| 0 <= j < m.len() ==> !p(#[trigger] m[j].0) {
        if exists|c: int| is_first(m, p, c) {
            let c = choose|c: int| is_first(m, p, c);
            assert(p(m[c].0));
        }
    }
}

/// The table after giving `st` to the first connection to `server` for
/// `busid`; unchanged when there is none.
pub open spec fn set_first_state<H>(
    m: Seq<(EntryModel, H)>,
    server: Seq<char>,
    busid: Seq<char>,
    st: StateModel,
) -> Seq<(EntryModel, H)> {
    let k = first_where(m, same_pair(server, busid));
    if k >= 0 {
        m.update(k, (EntryModel { server: m[k].0.server, busid: m[k].0.busid, state: st }, m[k].1))
    } else {
        m
    }
}

/// The table after removing the first connection for `busid`; unchanged
/// when there is none.
pub open spec fn remove_first_busid<H>(m: Seq<(EntryModel, H)>, busid: Seq<char>) -> Seq<
    (EntryModel, H),
> {
    let k = first_where(m, same_busid(busid));
    if k >= 0 {
        m.remove(k)
    } else {
        m
    }
}

/// Whether some connection to `server` for `busid` is managed.
pub open spec fn manages<H>(m: Seq<(EntryModel, H)>, server: Seq<char>, busid: Seq<char>) -> bool {
    exists|i: int| 0 <= i < m.len() && #[trigger] same_pair(server, busid)(m[i].0)
}

/// Whether some connection to `server` for `busid` is connected.
pub open spec fn connected<H>(m: Seq<(EntryModel, H)>, server: Seq<char>, busid: Seq<char>) -> bool {
    exists|i: int|
        0 <= i < m.len() && #[trigger] same_pair(server, busid)(m[i].0) && m[i].0.state
            == StateModel::Connected
}

/// The connections a daemon manages, in the order they were added, each
/// with a handle of the caller's (such as the token that cancels its
/// task).
pub struct ConnectionTable<H> {
    servers: Vec<String>,
    busids: Vec<String>,
    states: Vec<ConnectionState>,
    handles: Vec<H>,
}

impl<H> View for ConnectionTable<H> {
    type V = Seq<(EntryModel, H)>;

    closed spec fn view(&self) -> Seq<(EntryModel, H)> {
        Seq::new(
            self.servers@.len(),
            |i: int|
                (
                    EntryModel {
                        server: self.servers@[i]@,
                        busid: self.busids@[i]@,
                        state: state_model(self.states@[i]),
                    },
                    self.handles@[i],
                ),
        )
    }
}

impl<H> ConnectionTable<H> {
    #[verifier::type_invariant]
    spec fn aligned(self) -> bool {
        &&& self.busids@.len() == self.servers@.len()
        &&& self.states@.len() == self.servers@.len()
        &&& self.handles@.len() == self.servers@.len()
    }

    /// No connections.
    pub fn new() -> (t: Self)
        ensures
            t@ == Seq::<(EntryModel, H)>::empty(),
    {
        let t = ConnectionTable {
            servers: Vec::new(),
            busids: Vec::new(),
            states: Vec::new(),
            handles: Vec::new(),
        };
        assert(t@ =~= Seq::<(EntryModel, H)>::empty());
        t
    }

    /// The number of managed connections.
    pub fn len(&self) -> (n: usize)
        ensures
            n == self@.len(),
    {
        self.servers.len()
    }

    /// The position of the first entry to `server` for `busid`.
    fn find_pair(&self, server: &str, busid: &str) -> (r: Option<usize>)
        ensures
            r matches Some(k) ==> is_first(self@, same_pair(server@, busid@), k as int),
            r is None ==> forall|j: int|
                0 <= j < self@.len() ==> !(#[trigger] same_pair(server@, busid@)(self@[j].0)),
    {
        proof {
            use_type_invariant(self);
        }
        let s = server.to_owned();
        let b = busid.to_owned();
        let mut i: usize = 0;
        while i < self.servers.len()
            invariant
                i <= self.servers@.len(),
                s@ == server@,
                b@ == busid@,
                self.busids@.len() == self.servers@.len(),
                self.states@.len() == self.servers@.len(),
                self.handles@.len() == self.servers@.len(),
                forall|j: int|
                    0 <= j < i ==> !(#[trigger] same_pair(server@, busid@)(self@[j].0)),
            decreases self.servers@.len() - i,
        {
            if self.servers[i] == s && self.busids[i] == b {
                return Some(i);
            }
            i = i + 1;
        }
        None
    }

    /// The position of the first entry for `busid`.
    fn find_busid(&self, busid: &str) -> (r: Option<usize>)
        ensures
            r matches Some(k) ==> is_first(self@, same_busid(busid@), k as int),
            r is None ==> forall|j: int|
                0 <= j < self@.len() ==> !(#[trigger] same_busid(busid@)(self@[j].0)),
    {
        proof {
            use_type_invariant(self);
        }
        let b = busid.to_owned();
        let mut i: usize = 0;
        while i < self.busids.len()
            invariant
                i <= self.servers@.len(),
                b@ == busid@,
                self.busids@.len() == self.servers@.len(),
                self.states@.len() == self.servers@.len(),
                self.handles@.len() == self.servers@.len(),
                forall|j: int| 0 <= j < i ==> !(#[trigger] same_busid(busid@)(self@[j].0)),
            decreases self.servers@.len() - i,
        {
            if self.busids[i] == b {
                return Some(i);
            }
            i = i + 1;
        }
        None
    }

    /// Whether a connection to `server` for `busid` is managed.
    pub fn is_managed(&self, server: &str, busid: &str) -> (r: bool)
        ensures
            r == manages(self@, server@, busid@),
    {
        match self.find_pair(server, busid) {
            Some(k) => {
                assert(same_pair(server@, busid@)(self@[k as int].0));
                true
            },
            None => false,
        }
    }

    /// Whether a connection to `server` for `busid` is managed and
    /// connected.
    pub fn is_connected(&self, server: &str, busid: &str) -> (r: bool)
        ensures
            r == connected(self@, server@, busid@),
    {
        proof {
            use_type_invariant(self);
        }
        let s = server.to_owned();
        let b = busid.to_owned();
        let mut i: usize = 0;
        while i < self.servers.len()
            invariant
                i <= self.servers@.len(),
                s@ == server@,
                b@ == busid@,
                self.busids@.len() == self.servers@.len(),
                self.states@.len() == self.servers@.len(),
                self.handles@.len() == self.servers@.len(),
                forall|j: int|
                    0 <= j < i ==> !(#[trigger] same_pair(server@, busid@)(self@[j].0) && self@[j].0.state
                        == StateModel::Connected),
            decreases self.servers@.len() - i,
        {
            if self.servers[i] == s && self.busids[i] == b {
                match &self.states[i] {
                    ConnectionState::Connected => {
                        assert(same_pair(server@, busid@)(self@[i as int].0));
                        return true;
                    },
                    _ => {},
                }
            }
            i = i + 1;
        }
        false
    }

    /// Add a connection at the end.
    pub fn push(&mut self, server: String, busid: String, state: ConnectionState, handle: H)
        ensures
            final(self)@ == old(self)@.push(
                (EntryModel { server: server@, busid: busid@, state: state_model(state) }, handle),
            ),
    {
        proof {
            use_type_invariant(&*self);
        }
        let ghost before = self@;
        let mut t = ConnectionTable::new();
        std::mem::swap(&mut t, self);
        let ConnectionTable { mut servers, mut busids, mut states, mut handles } = t;
        servers.push(server);
        busids.push(busid);
        states.push(state);
        handles.push(handle);
        *self = ConnectionTable { servers, busids, states, handles };
        assert(self@ =~= before.push(
            (EntryModel { server: server@, busid: busid@, state: state_model(state) }, handle),
        ));
    }

    /// Give `state` to the first connection to `server` for `busid`, if
    /// there is one.
    pub fn set_state(&mut self, server: &str, busid: &str, state: ConnectionState)
        ensures
            final(self)@ == set_first_state(old(self)@, server@, busid@, state_model(state)),
    {
        proof {
            use_type_invariant(&*self);
        }
        let ghost before = self@;
        match self.find_pair(server, busid) {
            Some(k) => {
                proof {
                    lemma_first_where(before, same_pair(server@, busid@), k as int);
                }
                let ghost st = state_model(state);
                let mut t = ConnectionTable::new();
                std::mem::swap(&mut t, self);
                let ConnectionTable { servers, busids, mut states, handles } = t;
                states.set(k, state);
                *self = ConnectionTable { servers, busids, states, handles };
                assert(self@ =~= set_first_state(before, server@, busid@, st));
            },
            None => {
                proof {
                    lemma_first_where(before, same_pair(server@, busid@), 0);
                }
            },
        }
    }

    /// Remove the first connection for `busid`, whatever its server, and
    /// hand back its handle; `None` when there is none.
    pub fn remove_busid(&mut self, busid: &str) -> (r: Option<H>)
        ensures
            final(self)@ == remove_first_busid(old(self)@, busid@),
            first_where(old(self)@, same_busid(busid@)) >= 0 ==> r == Some(
                old(self)@[first_where(old(self)@, same_busid(busid@))].1,
            ),
            first_where(old(self)@, same_busid(busid@)) < 0 ==> r is None,
    {
        proof {
            use_type_invariant(&*self);
        }
        let ghost before = self@;
        match self.find_busid(busid) {
            Some(k) => {
                proof {
                    lemma_first_where(before, same_busid(busid@), k as int);
                }
                let mut t = ConnectionTable::new();
                std::mem::swap(&mut t, self);
                let ConnectionTable { mut servers, mut busids, mut states, mut handles } = t;
                servers.remove(k);
                busids.remove(k);
                states.remove(k);
                let h = handles.remove(k);
                *self = ConnectionTable { servers, busids, states, handles };
                assert(self@ =~= before.remove(k as int));
                Some(h)
            },
            None => {
                proof {
                    lemma_first_where(before, same_busid(busid@), 0);
                }
                None
            },
        }
    }
}


// ── Status reports ───────────────────────────────────────────────────

/// The status of one managed connection, as the daemon reports it.
#[derive(Debug, Clone)]
pub struct ConnectionStatus {
    pub server: String,
    pub busid: String,
    /// `connected`, `connecting`, `disconnected` or `error: <text>`.
    pub state: String,
    /// The error's text, for a connection in the error state.
    pub error: Option<String>,
}

/// Whether `s` reports the connection `e`.
pub open spec fn reports(s: ConnectionStatus, e: EntryModel) -> bool {
    &&& s.server@ == e.server
    &&& s.busid@ == e.busid
    &&& s.state@ == state_text(e.state)
    &&& match e.state {
        StateModel::Error(m) => s.error matches Some(t) && t@ == m,
        _ => s.error is None,
    }
}

/// Whether `v` reports the connections of `m`, one each, in order.
pub open spec fn reports_all<H>(v: Seq<ConnectionStatus>, m: Seq<(EntryModel, H)>) -> bool {
    &&& v.len() == m.len()
    &&& forall|i: int| 0 <= i < m.len() ==> #[trigger] reports(v[i], m[i].0)
}

/// The status text of a state.
pub fn state_string(s: &ConnectionState) -> (r: String)
    ensures
        r@ == state_text(state_model(*s)),
{
    match s {
        ConnectionState::Disconnected => "disconnected".to_owned(),
        ConnectionState::Connecting => "connecting".to_owned(),
        ConnectionState::Connected => "connected".to_owned(),
        ConnectionState::Error(e) => {
            let mut t = "error: ".to_owned();
            t.append(e.as_str());
            t
        },
    }
}

impl<H> ConnectionTable<H> {
    /// The status of every managed connection, in table order.
    pub fn statuses(&self) -> (v: Vec<ConnectionStatus>)
        ensures
            reports_all(v@, self@),
    {
        proof {
            use_type_invariant(self);
        }
        let mut v: Vec<ConnectionStatus> = Vec::new();
        let mut i: usize = 0;
        while i < self.servers.len()
            invariant
                i <= self.servers@.len(),
                self.busids@.len() == self.servers@.len(),
                self.states@.len() == self.servers@.len(),
                self.handles@.len() == self.servers@.len(),
                v@.len() == i,
                forall|j: int| 0 <= j < i ==> #[trigger] reports(v@[j], self@[j].0),
            decreases self.servers@.len() - i,
        {
            let error = match &self.states[i] {
                ConnectionState::Error(e) => Some(e.clone()),
                _ => None,
            };
            let st = ConnectionStatus {
                server: self.servers[i].clone(),
                busid: self.busids[i].clone(),
                state: state_string(&self.states[i]),
                error,
            };
            v.push(st);
            i = i + 1;
        }
        v
    }
}

// ── Hexadecimal text ─────────────────────────────────────────────────

/// The lower-case hexadecimal digit of `d` (below 16).
pub open spec fn hex_digit(d: int) -> char {
    if d < 10 {
        (48 + d) as char
    } else {
        (87 + d) as char
    }
}

/// `v` as four lower-case hexadecimal digits, as `{:04x}` writes it.
pub open spec fn hex4(v: u16) -> Seq<char> {
    seq![
        hex_digit(v as int / 4096),
        hex_digit((v as int / 256) % 16),
        hex_digit((v as int / 16) % 16),
        hex_digit(v as int % 16),
    ]
}

/// The one-digit text of `d`.
fn hex_digit_str(d: u16) -> (r: &'static str)
    requires
        d < 16,
    ensures
        r@ == seq![hex_digit(d as int)],
{
    match d {
        0 => { proof { reveal_strlit("0"); } "0" },
        1 => { proof { reveal_strlit("1"); } "1" },
        2 => { proof { reveal_strlit("2"); } "2" },
        3 => { proof { reveal_strlit("3"); } "3" },
        4 => { proof { reveal_strlit("4"); } "4" },
        5 => { proof { reveal_strlit("5"); } "5" },
        6 => { proof { reveal_strlit("6"); } "6" },
        7 => { proof { reveal_strlit("7"); } "7" },
        8 => { proof { reveal_strlit("8"); } "8" },
        9 => { proof { reveal_strlit("9"); } "9" },
        10 => { proof { reveal_strlit("a"); } "a" },
        11 => { proof { reveal_strlit("b"); } "b" },
        12 => { proof { reveal_strlit("c"); } "c" },
        13 => { proof { reveal_strlit("d"); } "d" },
        14 => { proof { reveal_strlit("e"); } "e" },
        _ => { proof { reveal_strlit("f"); } "f" },
    }
}

/// Append `v` as four hexadecimal digits.
pub fn push_hex4(s: &mut String, v: u16)
    ensures
        final(s)@ == old(s)@ + hex4(v),
{
    s.append(hex_digit_str(v / 4096));
    s.append(hex_digit_str((v / 256) % 16));
    s.append(hex_digit_str((v / 16) % 16));
    s.append(hex_digit_str(v % 16));
    assert(s@ =~= old(s)@ + hex4(v));
}

// ── Control commands and their answers ───────────────────────────────

/// A command sent to the daemon over its control socket.
#[derive(Debug, Clone)]
pub enum DaemonCommand {
    /// Connect to `server` and import `busid` from it.
    Connect { server: String, busid: String },
    /// Drop the managed connection for `busid`.
    Disconnect { busid: String },
    /// Report every managed connection.
    Status,
    /// Stop the daemon.
    Shutdown,
}

/// The daemon's answer to a command.
#[derive(Debug, Clone)]
pub struct DaemonResponse {
    /// `ok` or `error`.
    pub status: String,
    pub message: Option<String>,
    pub connections: Option<Vec<ConnectionStatus>>,
}

/// Whether `r` is an answer with status `ok` (or `error`) and `message`,
/// reporting no connections.
pub open spec fn answers(r: DaemonResponse, ok: bool, message: Seq<char>) -> bool {
    &&& r.status@ == (if ok { "ok"@ } else { "error"@ })
    &&& r.message matches Some(t) && t@ == message
    &&& r.connections is None
}

/// Whether `r` is the status report of the connections `m`.
pub open spec fn reports_status<H>(r: DaemonResponse, m: Seq<(EntryModel, H)>) -> bool {
    &&& r.status@ == "ok"@
    &&& r.message is None
    &&& r.connections matches Some(v) && reports_all(v@, m)
}

/// The text of an error, as its `to_string` gives it.
pub open spec fn error_display(e: UsbIpError) -> Seq<char> {
    error_text(e.spec_category(), e.spec_correlation_id(), e.spec_kind(), e.context_entries())
}

/// The answer to a connect for a connection already managed.
pub open spec fn already_managing_message(server: Seq<char>, busid: Seq<char>) -> Seq<char> {
    "already managing "@ + busid + " from "@ + server
}

/// The answer to a successful import of a device from `server`.
pub open spec fn imported_message(server: Seq<char>, vid: u16, pid: u16) -> Seq<char> {
    "imported "@ + hex4(vid) + ":"@ + hex4(pid) + " from "@ + server
}

/// The answer to a failed import.
pub open spec fn import_failed_message(e: UsbIpError) -> Seq<char> {
    "import failed: "@ + error_display(e)
}

/// The answer to a disconnect of `busid`.
pub open spec fn disconnected_message(busid: Seq<char>) -> Seq<char> {
    "disconnected "@ + busid
}

/// The answer to a disconnect of a `busid` that nothing manages.
pub open spec fn not_found_message(busid: Seq<char>) -> Seq<char> {
    "no connection found for busid "@ + busid
}

/// An answer with a message and no connections.
fn answer(ok: bool, message: String) -> (r: DaemonResponse)
    ensures
        answers(r, ok, message@),
{
    let status = if ok {
        "ok".to_owned()
    } else {
        "error".to_owned()
    };
    DaemonResponse { status, message: Some(message), connections: None }
}

/// `a` followed by `b`.
fn concat2(a: &str, b: &str) -> (r: String)
    ensures
        r@ == a@ + b@,
{
    let mut r = a.to_owned();
    r.append(b);
    r
}

/// The answer to a line that is no command, with the parser's text.
pub fn invalid_command_response(reason: &str) -> (r: DaemonResponse)
    ensures
        answers(r, false, "invalid command: "@ + reason@),
{
    answer(false, concat2("invalid command: ", reason))
}

/// What the daemon does for a command.
pub enum CommandAction<H> {
    /// Send this answer.
    Reply(DaemonResponse),
    /// Import `busid` from `server`, then hand the outcome to
    /// `finish_connect`.
    Import { server: String, busid: String },
    /// Cancel the removed connection's task through its handle, then send
    /// the answer.
    Cancel { handle: H, response: DaemonResponse },
    /// Stop the daemon, then send the answer.
    Shutdown(DaemonResponse),
}

/// Start handling a command: a connect for a connection already managed
/// is answered at once, another one asks for an import; a disconnect
/// removes the first connection for its bus id; a status request reports
/// every connection; a shutdown stops the daemon.
pub fn begin_command<H>(table: &mut ConnectionTable<H>, cmd: DaemonCommand) -> (r: CommandAction<H>)
    ensures
        match cmd {
            DaemonCommand::Connect { server, busid } => {
                &&& final(table)@ == old(table)@
                &&& manages(old(table)@, server@, busid@) ==> (r matches CommandAction::Reply(resp)
                    && answers(resp, true, already_managing_message(server@, busid@)))
                &&& !manages(old(table)@, server@, busid@) ==> (r matches CommandAction::Import {
                    server: s,
                    busid: b,
                } && s@ == server@ && b@ == busid@)
            },
            DaemonCommand::Disconnect { busid } => {
                let k = first_where(old(table)@, same_busid(busid@));
                &&& final(table)@ == remove_first_busid(old(table)@, busid@)
                &&& k >= 0 ==> (r matches CommandAction::Cancel { handle, response } && handle
                    == old(table)@[k].1 && answers(response, true, disconnected_message(busid@)))
                &&& k < 0 ==> (r matches CommandAction::Reply(resp) && answers(
                    resp,
                    false,
                    not_found_message(busid@),
                ))
            },
            DaemonCommand::Status => {
                &&& final(table)@ == old(table)@
                &&& r matches CommandAction::Reply(resp) && reports_status(resp, old(table)@)
            },
            DaemonCommand::Shutdown => {
                &&& final(table)@ == old(table)@
                &&& r matches CommandAction::Shutdown(resp) && answers(resp, true, "shutting down"@)
            },
        },
{
    match cmd {
        DaemonCommand::Connect { server, busid } => {
            if table.is_managed(server.as_str(), busid.as_str()) {
                let mut m = concat2("already managing ", busid.as_str());
                m.append(" from ");
                m.append(server.as_str());
                CommandAction::Reply(answer(true, m))
            } else {
                CommandAction::Import { server, busid }
            }
        },
        DaemonCommand::Disconnect { busid } => {
            match table.remove_busid(busid.as_str()) {
                Some(handle) => CommandAction::Cancel {
                    handle,
                    response: answer(true, concat2("disconnected ", busid.as_str())),
                },
                None => CommandAction::Reply(
                    answer(false, concat2("no connection found for busid ", busid.as_str())),
                ),
            }
        },
        DaemonCommand::Status => {
            let v = table.statuses();
            CommandAction::Reply(
                DaemonResponse { status: "ok".to_owned(), message: None, connections: Some(v) },
            )
        },
        DaemonCommand::Shutdown => CommandAction::Shutdown(answer(true, "shutting down".to_owned())),
    }
}

/// Finish a connect with the import's outcome. On success the connection
/// is added, connected, with `handle`, and the answer names the device,
/// unless a connection to the same server for the same bus id was added
/// meanwhile: then nothing is added and the answer says it is already
/// managed. On failure nothing is added and the answer carries the error's
/// text. The flag tells whether the connection was added.
pub fn finish_connect<H>(
    table: &mut ConnectionTable<H>,
    server: String,
    busid: String,
    outcome: UsbIpResult<UsbIpDeviceEntry>,
    handle: H,
) -> (r: (DaemonResponse, bool))
    ensures
        outcome is Ok ==> final(table)@ == after_connect(old(table)@, server@, busid@, handle),
        match outcome {
            Ok(entry) => if manages(old(table)@, server@, busid@) {
                &&& final(table)@ == old(table)@
                &&& answers(r.0, true, already_managing_message(server@, busid@))
                &&& !r.1
            } else {
                &&& final(table)@ == old(table)@.push(
                    (
                        EntryModel {
                            server: server@,
                            busid: busid@,
                            state: StateModel::Connected,
                        },
                        handle,
                    ),
                )
                &&& answers(r.0, true, imported_message(server@, entry.id_vendor, entry.id_product))
                &&& r.1
            },
            Err(e) => {
                &&& final(table)@ == old(table)@
                &&& answers(r.0, false, import_failed_message(e))
                &&& !r.1
            },
        },
{
    match outcome {
        Ok(entry) => {
            if table.is_managed(server.as_str(), busid.as_str()) {
                let mut m = concat2("already managing ", busid.as_str());
                m.append(" from ");
                m.append(server.as_str());
                return (answer(true, m), false);
            }
            let mut m = "imported ".to_owned();
            push_hex4(&mut m, entry.vid());
            m.append(":");
            push_hex4(&mut m, entry.pid());
            m.append(" from ");
            m.append(server.as_str());
            table.push(server, busid, ConnectionState::Connected, handle);
            (answer(true, m), true)
        },
        Err(e) => (answer(false, concat2("import failed: ", e.to_string().as_str())), false),
    }
}

// ── The auto-connect cycle ───────────────────────────────────────────

/// Where the auto-connect task of one connection stands.
#[derive(Debug, Clone, Copy, PartialEq, Eq, Structural)]
pub enum AutoPhase {
    /// Waiting a moment before the next import.
    Pausing,
    /// The import is under way.
    Importing,
    /// Connected; waiting before looking whether it still is.
    Holding,
    /// The import failed; waiting before the next try.
    BackingOff,
}

/// What the task's surroundings report.
pub enum AutoEvent {
    /// The connection's own cancellation fired.
    Cancelled,
    /// The daemon is shutting down.
    Shutdown,
    /// The requested pause is over.
    Elapsed,
    /// The import finished, with its outcome.
    Imported(UsbIpResult<UsbIpDeviceEntry>),
}

/// What the task does next.
#[derive(Debug, Clone, Copy, PartialEq, Eq, Structural)]
pub enum AutoAction {
    /// Wait this many milliseconds, unless cancelled or shut down.
    Pause(u64),
    /// Import the device.
    Import,
    /// End the task.
    Stop,
}

/// Where a task stands and how many imports in a row have failed.
#[derive(Debug, Clone, Copy, PartialEq, Eq, Structural)]
pub struct AutoState {
    pub phase: AutoPhase,
    /// Consecutive failed imports; a successful import resets it.
    pub failures: u32,
}

/// The pause before each import, in milliseconds.
pub const RECONNECT_PAUSE_MS: u64 = 100;

/// The wait between looks at a connected connection, in milliseconds.
pub const SETTLE_MS: u64 = 1000;

/// The longest wait after a failed import, in milliseconds.
pub const MAX_BACKOFF_MS: u64 = 16000;

/// The wait after the `k`-th failed import in a row (`k >= 1`): 1 s, 2 s,
/// 4 s, 8 s, then 16 s, that is min(2^(k-1), 16) seconds.
pub open spec fn backoff_ms(k: u32) -> u64 {
    if k <= 1 {
        1000
    } else if k == 2 {
        2000
    } else if k == 3 {
        4000
    } else if k == 4 {
        8000
    } else {
        MAX_BACKOFF_MS
    }
}

/// The wait after the `k`-th failed import in a row.
pub fn backoff_delay_ms(k: u32) -> (r: u64)
    ensures
        r == backoff_ms(k),
{
    if k <= 1 {
        1000
    } else if k == 2 {
        2000
    } else if k == 3 {
        4000
    } else if k == 4 {
        8000
    } else {
        MAX_BACKOFF_MS
    }
}

/// One more failure, the count staying at `u32::MAX` once there.
pub open spec fn one_more(k: u32) -> u32 {
    if k == u32::MAX {
        k
    } else {
        (k + 1) as u32
    }
}

/// The state a task starts in: pausing before its first import, with no
/// failures yet.
pub open spec fn auto_start_state() -> AutoState {
    AutoState { phase: AutoPhase::Pausing, failures: 0 }
}

/// The first step of a task: no failures yet, a pause, then an import.
pub fn auto_connect_start() -> (r: (AutoState, AutoAction))
    ensures
        r == (auto_start_state(), AutoAction::Pause(RECONNECT_PAUSE_MS)),
{
    (AutoState { phase: AutoPhase::Pausing, failures: 0 }, AutoAction::Pause(RECONNECT_PAUSE_MS))
}

/// The next state and action of a task in `st` on `event`, where `managed`
/// tells whether its connection is still in the table and `still_connected`
/// whether it is there and connected. A connected connection is held,
/// looked at again every `SETTLE_MS`, and imported again only once it is
/// no longer connected; a failed import waits `backoff_ms` of the failures
/// in a row. Cancellation and shutdown end the task, and so does a look
/// that finds the connection gone; an event that the phase does not wait
/// for ends it too.
pub open spec fn auto_next(st: AutoState, event: AutoEvent, managed: bool, still_connected: bool) -> (
    AutoState,
    AutoAction,
) {
    let f = st.failures;
    match (st.phase, event) {
        (AutoPhase::Pausing, AutoEvent::Elapsed) => (
            AutoState { phase: AutoPhase::Importing, failures: f },
            AutoAction::Import,
        ),
        (AutoPhase::Importing, AutoEvent::Imported(Ok(_))) => (
            AutoState { phase: AutoPhase::Holding, failures: 0 },
            AutoAction::Pause(SETTLE_MS),
        ),
        (AutoPhase::Importing, AutoEvent::Imported(Err(_))) => (
            AutoState { phase: AutoPhase::BackingOff, failures: one_more(f) },
            AutoAction::Pause(backoff_ms(one_more(f))),
        ),
        (AutoPhase::Holding, AutoEvent::Elapsed) => if still_connected {
            (st, AutoAction::Pause(SETTLE_MS))
        } else if managed {
            (AutoState { phase: AutoPhase::Pausing, failures: f }, AutoAction::Pause(RECONNECT_PAUSE_MS))
        } else {
            (st, AutoAction::Stop)
        },
        (AutoPhase::BackingOff, AutoEvent::Elapsed) => (
            AutoState { phase: AutoPhase::Pausing, failures: f },
            AutoAction::Pause(RECONNECT_PAUSE_MS),
        ),
        _ => (st, AutoAction::Stop),
    }
}

/// The table after a task for `server`/`busid` in `phase` sees `event`:
/// an import starts `connecting`, a successful one makes it `connected`,
/// a failed one puts it in the error state with the error's text; other
/// steps leave the table alone.
pub open spec fn auto_effect<H>(
    m: Seq<(EntryModel, H)>,
    server: Seq<char>,
    busid: Seq<char>,
    phase: AutoPhase,
    event: AutoEvent,
) -> Seq<(EntryModel, H)> {
    match (phase, event) {
        (AutoPhase::Pausing, AutoEvent::Elapsed) => set_first_state(
            m,
            server,
            busid,
            StateModel::Connecting,
        ),
        (AutoPhase::Importing, AutoEvent::Imported(Ok(_))) => set_first_state(
            m,
            server,
            busid,
            StateModel::Connected,
        ),
        (AutoPhase::Importing, AutoEvent::Imported(Err(e))) => set_first_state(
            m,
            server,
            busid,
            StateModel::Error(error_display(e)),
        ),
        _ => m,
    }
}

/// One step of the auto-connect task of the connection to `server` for
/// `busid`.
pub fn auto_connect_step<H>(
    table: &mut ConnectionTable<H>,
    server: &str,
    busid: &str,
    st: AutoState,
    event: AutoEvent,
) -> (r: (AutoState, AutoAction))
    ensures
        final(table)@ == auto_effect(old(table)@, server@, busid@, st.phase, event),
        r == auto_next(
            st,
            event,
            manages(old(table)@, server@, busid@),
            connected(old(table)@, server@, busid@),
        ),
{
    let f = st.failures;
    match (st.phase, event) {
        (AutoPhase::Pausing, AutoEvent::Elapsed) => {
            table.set_state(server, busid, ConnectionState::Connecting);
            (AutoState { phase: AutoPhase::Importing, failures: f }, AutoAction::Import)
        },
        (AutoPhase::Importing, AutoEvent::Imported(Ok(_))) => {
            table.set_state(server, busid, ConnectionState::Connected);
            (AutoState { phase: AutoPhase::Holding, failures: 0 }, AutoAction::Pause(SETTLE_MS))
        },
        (AutoPhase::Importing, AutoEvent::Imported(Err(e))) => {
            table.set_state(server, busid, ConnectionState::Error(e.to_string()));
            let k = if f == u32::MAX {
                f
            } else {
                f + 1
            };
            (
                AutoState { phase: AutoPhase::BackingOff, failures: k },
                AutoAction::Pause(backoff_delay_ms(k)),
            )
        },
        (AutoPhase::Holding, AutoEvent::Elapsed) => {
            if table.is_connected(server, busid) {
                (st, AutoAction::Pause(SETTLE_MS))
            } else if table.is_managed(server, busid) {
                (
                    AutoState { phase: AutoPhase::Pausing, failures: f },
                    AutoAction::Pause(RECONNECT_PAUSE_MS),
                )
            } else {
                (st, AutoAction::Stop)
            }
        },
        (AutoPhase::BackingOff, AutoEvent::Elapsed) => (
            AutoState { phase: AutoPhase::Pausing, failures: f },
            AutoAction::Pause(RECONNECT_PAUSE_MS),
        ),
        _ => (st, AutoAction::Stop),
    }
}

// ── Laws ─────────────────────────────────────────────────────────────

/// A connection added by a successful connect is managed: a second
/// connect for the same server and bus id is answered as already managed
/// and imports nothing.
pub proof fn law_connected_pair_is_managed<H>(
    m: Seq<(EntryModel, H)>,
    server: Seq<char>,
    busid: Seq<char>,
    h: H,
)
    ensures
        manages(
            m.push((EntryModel { server, busid, state: StateModel::Connected }, h)),
            server,
            busid,
        ),
{
    let n = m.push((EntryModel { server, busid, state: StateModel::Connected }, h));
    assert(same_pair(server, busid)(n[m.len() as int].0));
}

/// Disconnecting a bus id right after it was connected, when nothing
/// else managed it, gives back the table as it was.
pub proof fn law_disconnect_undoes_connect<H>(
    m: Seq<(EntryModel, H)>,
    server: Seq<char>,
    busid: Seq<char>,
    st: StateModel,
    h: H,
)
    requires
        forall|i: int| 0 <= i < m.len() ==> (#[trigger] m[i]).0.busid != busid,
    ensures
        remove_first_busid(m.push((EntryModel { server, busid, state: st }, h)), busid) == m,
{
    let n = m.push((EntryModel { server, busid, state: st }, h));
    let k = m.len() as int;
    assert forall|j: int| 0 <= j < k implies !(#[trigger] same_busid(busid)(n[j].0)) by {
        assert(n[j] == m[j]);
    }
    lemma_first_where(n, same_busid(busid), k);
    assert(n.remove(k) =~= m);
}

/// A state update changes no connection's server, bus id or handle, nor
/// their number.
pub proof fn law_state_updates_keep_connections<H>(
    m: Seq<(EntryModel, H)>,
    server: Seq<char>,
    busid: Seq<char>,
    st: StateModel,
)
    ensures
        set_first_state(m, server, busid, st).len() == m.len(),
        forall|i: int|
            0 <= i < m.len() ==> {
                let e = #[trigger] set_first_state(m, server, busid, st)[i];
                &&& e.0.server == m[i].0.server
                &&& e.0.busid == m[i].0.busid
                &&& e.1 == m[i].1
            },
{
    lemma_first_where(m, same_pair(server, busid), 0);
}

/// The task of a connection that is no longer managed changes nothing in
/// the table, and it ends at its next look at the connection.
pub proof fn law_unmanaged_task_is_inert<H>(
    m: Seq<(EntryModel, H)>,
    server: Seq<char>,
    busid: Seq<char>,
    st: AutoState,
    event: AutoEvent,
)
    requires
        !manages(m, server, busid),
    ensures
        auto_effect(m, server, busid, st.phase, event) == m,
        auto_next(
            AutoState { phase: AutoPhase::Holding, failures: st.failures },
            AutoEvent::Elapsed,
            manages(m, server, busid),
            connected(m, server, busid),
        ).1 == AutoAction::Stop,
{
    assert forall|j: int| 0 <= j < m.len() implies !(#[trigger] same_pair(server, busid)(
        m[j].0,
    )) by {}
    lemma_first_where(m, same_pair(server, busid), 0);
    if connected(m, server, busid) {
        let i = choose|i: int|
            0 <= i < m.len() && #[trigger] same_pair(server, busid)(m[i].0) && m[i].0.state
                == StateModel::Connected;
        assert(same_pair(server, busid)(m[i].0));
    }
}

/// A connection that stays connected is held: its task only waits and
/// looks again, never imports, and leaves the table alone.
pub proof fn law_connected_is_held<H>(
    m: Seq<(EntryModel, H)>,
    server: Seq<char>,
    busid: Seq<char>,
    failures: u32,
)
    requires
        connected(m, server, busid),
    ensures
        ({
            let st = AutoState { phase: AutoPhase::Holding, failures };
            auto_next(st, AutoEvent::Elapsed, manages(m, server, busid), true) == (
                st,
                AutoAction::Pause(SETTLE_MS),
            )
        }),
        auto_effect(m, server, busid, AutoPhase::Holding, AutoEvent::Elapsed) == m,
{
}

/// After the `k`-th failed import in a row the task waits
/// min(2^(k-1), 16) seconds before it imports again: the wait doubles
/// from 1 s with each further failure until it reaches 16 s.
pub proof fn law_backoff_doubles_to_cap(st: AutoState, e: UsbIpError, managed: bool, connected: bool)
    requires
        st.phase == AutoPhase::Importing,
    ensures
        ({
            let (next, action) = auto_next(st, AutoEvent::Imported(Err(e)), managed, connected);
            &&& next.phase == AutoPhase::BackingOff
            &&& next.failures == one_more(st.failures)
            &&& action == AutoAction::Pause(backoff_ms(next.failures))
        }),
        backoff_ms(1) == 1000,
        forall|k: u32| 1 <= k < 5 ==> #[trigger] backoff_ms((k + 1) as u32) == 2 * backoff_ms(k),
        forall|k: u32| #[trigger] backoff_ms(k) <= MAX_BACKOFF_MS,
        forall|k: u32| k >= 5 ==> #[trigger] backoff_ms(k) == MAX_BACKOFF_MS,
{
}

/// Cancellation and shutdown end a task in every phase, and leave the
/// table alone.
pub proof fn law_cancellation_stops<H>(
    m: Seq<(EntryModel, H)>,
    server: Seq<char>,
    busid: Seq<char>,
    st: AutoState,
    managed: bool,
    still_connected: bool,
)
    ensures
        auto_next(st, AutoEvent::Cancelled, managed, still_connected).1 == AutoAction::Stop,
        auto_next(st, AutoEvent::Shutdown, managed, still_connected).1 == AutoAction::Stop,
        auto_effect(m, server, busid, st.phase, AutoEvent::Cancelled) == m,
        auto_effect(m, server, busid, st.phase, AutoEvent::Shutdown) == m,
{
}

/// Whether at most one entry is the connection to `server` for `busid`.
pub open spec fn at_most_one<H>(m: Seq<(EntryModel, H)>, server: Seq<char>, busid: Seq<char>) -> bool {
    forall|i: int, j: int|
        0 <= i < m.len() && 0 <= j < m.len() && #[trigger] same_pair(server, busid)(m[i].0)
            && #[trigger] same_pair(server, busid)(m[j].0) ==> i == j
}

/// The table after a successful import is finished: the connection is
/// added only when its pair is not managed yet (see `finish_connect`).
pub open spec fn after_connect<H>(
    m: Seq<(EntryModel, H)>,
    server: Seq<char>,
    busid: Seq<char>,
    h: H,
) -> Seq<(EntryModel, H)> {
    if manages(m, server, busid) {
        m
    } else {
        m.push((EntryModel { server, busid, state: StateModel::Connected }, h))
    }
}

/// However connects overlap, a server and bus id never get two entries:
/// finishing a connect keeps at most one entry for each pair.
pub proof fn law_connect_keeps_pairs_unique<H>(
    m: Seq<(EntryModel, H)>,
    server: Seq<char>,
    busid: Seq<char>,
    h: H,
    s2: Seq<char>,
    b2: Seq<char>,
)
    requires
        at_most_one(m, s2, b2),
    ensures
        at_most_one(after_connect(m, server, busid, h), s2, b2),
{
    if !manages(m, server, busid) {
        let n = after_connect(m, server, busid, h);
        let k = m.len() as int;
        assert forall|i: int, j: int|
            0 <= i < n.len() && 0 <= j < n.len() && #[trigger] same_pair(s2, b2)(n[i].0)
                && #[trigger] same_pair(s2, b2)(n[j].0) implies i == j by {
            if i < k && j < k {
                assert(n[i] == m[i] && n[j] == m[j]);
            } else if i < k {
                assert(n[i] == m[i]);
                assert(same_pair(server, busid)(m[i].0));
            } else if j < k {
                assert(n[j] == m[j]);
                assert(same_pair(server, busid)(m[j].0));
            }
        }
    }
}


/// One change the daemon makes to its table: a connect finished with a
/// successful import, a disconnect, or a state update of a connection's
/// task.
pub enum TableOp<H> {
    Connect { server: Seq<char>, busid: Seq<char>, handle: H },
    Disconnect { busid: Seq<char> },
    SetState { server: Seq<char>, busid: Seq<char>, state: StateModel },
}

/// The table after one change, as `finish_connect`, `begin_command` and
/// `auto_connect_step` make it.
pub open spec fn apply_op<H>(m: Seq<(EntryModel, H)>, op: TableOp<H>) -> Seq<(EntryModel, H)> {
    match op {
        TableOp::Connect { server, busid, handle } => after_connect(m, server, busid, handle),
        TableOp::Disconnect { busid } => remove_first_busid(m, busid),
        TableOp::SetState { server, busid, state } => set_first_state(m, server, busid, state),
    }
}

/// The table after a sequence of changes, in order.
pub open spec fn apply_ops<H>(m: Seq<(EntryModel, H)>, ops: Seq<TableOp<H>>) -> Seq<
    (EntryModel, H),
>
    decreases ops.len(),
{
    if ops.len() == 0 {
        m
    } else {
        apply_op(apply_ops(m, ops.drop_last()), ops.last())
    }
}

proof fn lemma_set_state_keeps_unique<H>(
    m: Seq<(EntryModel, H)>,
    server: Seq<char>,
    busid: Seq<char>,
    st: StateModel,
    s2: Seq<char>,
    b2: Seq<char>,
)
    requires
        at_most_one(m, s2, b2),
    ensures
        at_most_one(set_first_state(m, server, busid, st), s2, b2),
{
    let n = set_first_state(m, server, busid, st);
    law_state_updates_keep_connections(m, server, busid, st);
    assert forall|i: int, j: int|
        0 <= i < n.len() && 0 <= j < n.len() && #[trigger] same_pair(s2, b2)(n[i].0)
            && #[trigger] same_pair(s2, b2)(n[j].0) implies i == j by {
        assert(n[i].0.server == m[i].0.server && n[i].0.busid == m[i].0.busid);
        assert(n[j].0.server == m[j].0.server && n[j].0.busid == m[j].0.busid);
        assert(same_pair(s2, b2)(m[i].0) && same_pair(s2, b2)(m[j].0));
    }
}

proof fn lemma_remove_keeps_unique<H>(
    m: Seq<(EntryModel, H)>,
    busid: Seq<char>,
    s2: Seq<char>,
    b2: Seq<char>,
)
    requires
        at_most_one(m, s2, b2),
    ensures
        at_most_one(remove_first_busid(m, busid), s2, b2),
{
    let k = first_where(m, same_busid(busid));
    lemma_first_where(m, same_busid(busid), 0);
    if k >= 0 {
        let n = m.remove(k);
        assert forall|i: int, j: int|
            0 <= i < n.len() && 0 <= j < n.len() && #[trigger] same_pair(s2, b2)(n[i].0)
                && #[trigger] same_pair(s2, b2)(n[j].0) implies i == j by {
            let i2 = if i < k { i } else { i + 1 };
            let j2 = if j < k { j } else { j + 1 };
            assert(n[i] == m[i2] && n[j] == m[j2]);
            assert(same_pair(s2, b2)(m[i2].0) && same_pair(s2, b2)(m[j2].0));
        }
    }
}

/// Every table the daemon can reach from an empty one, by any sequence of
/// connects, disconnects and state updates, holds at most one connection
/// to each server for each bus id.
pub proof fn law_reachable_tables_have_unique_pairs<H>(
    ops: Seq<TableOp<H>>,
    server: Seq<char>,
    busid: Seq<char>,
)
    ensures
        at_most_one(apply_ops(Seq::<(EntryModel, H)>::empty(), ops), server, busid),
    decreases ops.len(),
{
    if ops.len() > 0 {
        law_reachable_tables_have_unique_pairs(ops.drop_last(), server, busid);
        let m = apply_ops(Seq::<(EntryModel, H)>::empty(), ops.drop_last());
        match ops.last() {
            TableOp::Connect { server: s, busid: b, handle } => {
                law_connect_keeps_pairs_unique(m, s, b, handle, server, busid);
            },
            TableOp::Disconnect { busid: b } => {
                lemma_remove_keeps_unique(m, b, server, busid);
            },
            TableOp::SetState { server: s, busid: b, state } => {
                lemma_set_state_keeps_unique(m, s, b, state, server, busid);
            },
        }
    }
}

/// One step of an auto-connect task as its surroundings present it: the
/// event, and whether the connection was managed and connected when the
/// step was taken (what `auto_connect_step` reads from the table).
pub struct AutoStep {
    pub event: AutoEvent,
    pub managed: bool,
    pub still_connected: bool,
}

/// The state of a task that starts in `st` and takes `steps` in order.
pub open spec fn auto_run(st: AutoState, steps: Seq<AutoStep>) -> AutoState
    decreases steps.len(),
{
    if steps.len() == 0 {
        st
    } else {
        let s = auto_run(st, steps.drop_last());
        let e = steps.last();
        auto_next(s, e.event, e.managed, e.still_connected).0
    }
}

/// The action a task that starts in `st` takes at step `i` of `steps`.
pub open spec fn auto_action_at(st: AutoState, steps: Seq<AutoStep>, i: int) -> AutoAction {
    let e = steps[i];
    auto_next(auto_run(st, steps.take(i)), e.event, e.managed, e.still_connected).1
}

/// Whether a task that starts in `st` is still running after `steps`: no
/// step ended it.
pub open spec fn auto_live(st: AutoState, steps: Seq<AutoStep>) -> bool {
    forall|i: int| 0 <= i < steps.len() ==> #[trigger] auto_action_at(st, steps, i) != AutoAction::Stop
}

/// The number of failed imports among `steps` since the last successful
/// one (or since the start).
pub open spec fn failures_in_row(steps: Seq<AutoStep>) -> nat
    decreases steps.len(),
{
    if steps.len() == 0 {
        0
    } else {
        match steps.last().event {
            AutoEvent::Imported(Ok(_)) => 0,
            AutoEvent::Imported(Err(_)) => failures_in_row(steps.drop_last()) + 1,
            _ => failures_in_row(steps.drop_last()),
        }
    }
}

/// `n`, or `u32::MAX` when it is larger.
pub open spec fn saturated(n: nat) -> u32 {
    if n >= u32::MAX {
        u32::MAX
    } else {
        n as u32
    }
}

proof fn lemma_held_run(st: AutoState, steps: Seq<AutoStep>)
    requires
        st.phase == AutoPhase::Holding,
        forall|j: int| 0 <= j < steps.len() ==> (#[trigger] steps[j]).still_connected,
    ensures
        auto_run(st, steps) == st,
    decreases steps.len(),
{
    if steps.len() > 0 {
        let p = steps.drop_last();
        assert forall|j: int| 0 <= j < p.len() implies (#[trigger] p[j]).still_connected by {
            assert(p[j] == steps[j]);
        }
        lemma_held_run(st, p);
        assert(steps.last() == steps[steps.len() - 1]);
    }
}

/// A connected connection is not imported again while it stays
/// connected: a task holding it keeps its state as long as every look
/// finds the connection connected, and any later import comes only after
/// a look that found it no longer connected.
pub proof fn law_no_import_while_connected(st: AutoState, steps: Seq<AutoStep>)
    requires
        st.phase == AutoPhase::Holding,
    ensures
        (forall|j: int| 0 <= j < steps.len() ==> (#[trigger] steps[j]).still_connected)
            ==> auto_run(st, steps) == st,
        forall|i: int|
            0 <= i < steps.len() && #[trigger] auto_action_at(st, steps, i) == AutoAction::Import
                ==> exists|j: int| 0 <= j < i && !(#[trigger] steps[j]).still_connected,
{
    if forall|j: int| 0 <= j < steps.len() ==> (#[trigger] steps[j]).still_connected {
        lemma_held_run(st, steps);
    }
    assert forall|i: int|
        0 <= i < steps.len() && #[trigger] auto_action_at(st, steps, i)
            == AutoAction::Import implies exists|j: int|
        0 <= j < i && !(#[trigger] steps[j]).still_connected by {
        let p = steps.take(i);
        if forall|j: int| 0 <= j < i ==> (#[trigger] steps[j]).still_connected {
            assert forall|j: int| 0 <= j < p.len() implies (#[trigger] p[j]).still_connected by {
                assert(p[j] == steps[j]);
            }
            lemma_held_run(st, p);
        }
    }
}

/// Over every run of a task from its start in which no step has ended it,
/// the failure count is the number of failed imports since the last
/// successful one (saturating at `u32::MAX`).
pub proof fn law_failures_count_consecutive(steps: Seq<AutoStep>)
    requires
        auto_live(auto_start_state(), steps),
    ensures
        auto_run(auto_start_state(), steps).failures == saturated(failures_in_row(steps)),
    decreases steps.len(),
{
    let st = auto_start_state();
    if steps.len() > 0 {
        let p = steps.drop_last();
        let n = (steps.len() - 1) as int;
        assert forall|i: int| 0 <= i < p.len() implies #[trigger] auto_action_at(st, p, i)
            != AutoAction::Stop by {
            assert(p.take(i) =~= steps.take(i));
            assert(p[i] == steps[i]);
            assert(auto_action_at(st, steps, i) != AutoAction::Stop);
        }
        law_failures_count_consecutive(p);
        assert(steps.take(n) =~= p);
        assert(auto_action_at(st, steps, n) != AutoAction::Stop);
        assert(steps.last() == steps[n]);
    }
}

/// After the `k`-th failed import in a row of a running task, the task
/// waits `backoff_ms(k)` (1 s, 2 s, 4 s, 8 s, then 16 s), and its next
/// step, whatever it is, is no import.
pub proof fn law_backoff_after_failures(steps: Seq<AutoStep>, next: AutoStep)
    requires
        steps.len() > 0,
        steps.last().event matches AutoEvent::Imported(Err(_)),
        auto_live(auto_start_state(), steps),
    ensures
        ({
            let st = auto_start_state();
            let k = saturated(failures_in_row(steps));
            &&& auto_action_at(st, steps, steps.len() - 1) == AutoAction::Pause(backoff_ms(k))
            &&& auto_run(st, steps).phase == AutoPhase::BackingOff
            &&& auto_next(auto_run(st, steps), next.event, next.managed, next.still_connected).1
                != AutoAction::Import
        }),
{
    let st = auto_start_state();
    let p = steps.drop_last();
    let n = (steps.len() - 1) as int;
    assert forall|i: int| 0 <= i < p.len() implies #[trigger] auto_action_at(st, p, i)
        != AutoAction::Stop by {
        assert(p.take(i) =~= steps.take(i));
        assert(p[i] == steps[i]);
        assert(auto_action_at(st, steps, i) != AutoAction::Stop);
    }
    law_failures_count_consecutive(p);
    law_failures_count_consecutive(steps);
    assert(steps.take(n) =~= p);
    assert(auto_action_at(st, steps, n) != AutoAction::Stop);
    assert(steps.last() == steps[n]);
}

} // verus!
