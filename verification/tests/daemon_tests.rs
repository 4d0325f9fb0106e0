use anyplug::daemon::{
    auto_connect_start, auto_connect_step, begin_command, finish_connect,
    invalid_command_response, push_hex4, state_string, AutoAction, AutoEvent, AutoPhase,
    AutoState, CommandAction, ConnectionState, ConnectionTable, DaemonCommand, DaemonResponse,
};
use anyplug::error::{ErrorKind, UsbIpError};
use anyplug::protocol::UsbIpDeviceEntry;

const SERVER: &str = "192.168.1.10:3240";

fn device(vid: u16, pid: u16) -> UsbIpDeviceEntry {
    let mut e = UsbIpDeviceEntry::read_from_prefix(&[0u8; 312]).unwrap();
    e.id_vendor = vid;
    e.id_product = pid;
    e
}

fn connect(busid: &str) -> DaemonCommand {
    DaemonCommand::Connect { server: SERVER.to_string(), busid: busid.to_string() }
}

fn reply(a: CommandAction<u32>) -> DaemonResponse {
    match a {
        CommandAction::Reply(r) => r,
        _ => panic!("expected a reply"),
    }
}

fn message(r: &DaemonResponse) -> &str {
    r.message.as_deref().unwrap()
}

#[test]
fn test_connect_imports_then_reports_already_managing() {
    let mut table: ConnectionTable<u32> = ConnectionTable::new();
    match begin_command(&mut table, connect("1-1")) {
        CommandAction::Import { server, busid } => {
            assert_eq!(server, SERVER);
            assert_eq!(busid, "1-1");
        },
        _ => panic!("expected an import"),
    }
    let (r, added) = finish_connect(
        &mut table,
        SERVER.to_string(),
        "1-1".to_string(),
        Ok(device(0x046d, 0xc52b)),
        7,
    );
    assert!(added);
    assert_eq!(r.status, "ok");
    assert_eq!(message(&r), "imported 046d:c52b from 192.168.1.10:3240");
    assert_eq!(table.len(), 1);
    assert!(table.is_managed(SERVER, "1-1"));
    assert!(table.is_connected(SERVER, "1-1"));

    let again = reply(begin_command(&mut table, connect("1-1")));
    assert_eq!(again.status, "ok");
    assert_eq!(message(&again), "already managing 1-1 from 192.168.1.10:3240");
    assert_eq!(table.len(), 1);
}

#[test]
fn test_failed_import_adds_nothing() {
    let mut table: ConnectionTable<u32> = ConnectionTable::new();
    let err = UsbIpError::from_kind(ErrorKind::DeviceBusy("1-1".to_string()));
    let text = err.to_string();
    let (r, added) =
        finish_connect(&mut table, SERVER.to_string(), "1-1".to_string(), Err(err), 7);
    assert!(!added);
    assert_eq!(r.status, "error");
    assert_eq!(message(&r), format!("import failed: {}", text));
    assert!(r.connections.is_none());
    assert_eq!(table.len(), 0);
}

#[test]
fn test_disconnect_cancels_first_connection_for_busid() {
    let mut table: ConnectionTable<u32> = ConnectionTable::new();
    table.push("10.0.0.1:3240".to_string(), "2-1".to_string(), ConnectionState::Connected, 1);
    table.push("10.0.0.2:3240".to_string(), "2-1".to_string(), ConnectionState::Connecting, 2);
    match begin_command(&mut table, DaemonCommand::Disconnect { busid: "2-1".to_string() }) {
        CommandAction::Cancel { handle, response } => {
            assert_eq!(handle, 1);
            assert_eq!(response.status, "ok");
            assert_eq!(message(&response), "disconnected 2-1");
        },
        _ => panic!("expected a cancel"),
    }
    assert_eq!(table.len(), 1);
    assert!(!table.is_managed("10.0.0.1:3240", "2-1"));
    assert!(table.is_managed("10.0.0.2:3240", "2-1"));
}

#[test]
fn test_disconnect_unknown_busid_is_an_error() {
    let mut table: ConnectionTable<u32> = ConnectionTable::new();
    let r = reply(begin_command(&mut table, DaemonCommand::Disconnect { busid: "9-9".to_string() }));
    assert_eq!(r.status, "error");
    assert_eq!(message(&r), "no connection found for busid 9-9");
}

#[test]
fn test_status_reports_every_connection() {
    let mut table: ConnectionTable<u32> = ConnectionTable::new();
    table.push("10.0.0.1:3240".to_string(), "1-1".to_string(), ConnectionState::Connected, 1);
    table.push(
        "10.0.0.1:3240".to_string(),
        "1-2".to_string(),
        ConnectionState::Error("timed out".to_string()),
        2,
    );
    table.push("10.0.0.3:3240".to_string(), "3-1".to_string(), ConnectionState::Disconnected, 3);
    let r = reply(begin_command(&mut table, DaemonCommand::Status));
    assert_eq!(r.status, "ok");
    assert!(r.message.is_none());
    let v = r.connections.unwrap();
    assert_eq!(v.len(), 3);
    assert_eq!(v[0].server, "10.0.0.1:3240");
    assert_eq!(v[0].busid, "1-1");
    assert_eq!(v[0].state, "connected");
    assert!(v[0].error.is_none());
    assert_eq!(v[1].state, "error: timed out");
    assert_eq!(v[1].error.as_deref(), Some("timed out"));
    assert_eq!(v[2].state, "disconnected");
    assert_eq!(table.len(), 3);
}

#[test]
fn test_shutdown_answers_and_stops() {
    let mut table: ConnectionTable<u32> = ConnectionTable::new();
    match begin_command(&mut table, DaemonCommand::Shutdown) {
        CommandAction::Shutdown(r) => {
            assert_eq!(r.status, "ok");
            assert_eq!(message(&r), "shutting down");
        },
        _ => panic!("expected a shutdown"),
    }
}

#[test]
fn test_invalid_command_response() {
    let r = invalid_command_response("expected value at line 1 column 1");
    assert_eq!(r.status, "error");
    assert_eq!(message(&r), "invalid command: expected value at line 1 column 1");
}

#[test]
fn test_state_strings() {
    assert_eq!(state_string(&ConnectionState::Connecting), "connecting");
    assert_eq!(state_string(&ConnectionState::Error("x".to_string())), "error: x");
}

#[test]
fn test_hex4_pads_to_four_digits() {
    let mut s = String::from("id=");
    push_hex4(&mut s, 0x00af);
    assert_eq!(s, "id=00af");
    let mut t = String::new();
    push_hex4(&mut t, 0xffff);
    assert_eq!(t, "ffff");
}

#[test]
fn test_auto_connect_cycle() {
    let mut table: ConnectionTable<u32> = ConnectionTable::new();
    table.push(SERVER.to_string(), "1-1".to_string(), ConnectionState::Disconnected, 1);

    let (st, action) = auto_connect_start();
    assert_eq!(st, AutoState { phase: AutoPhase::Pausing, failures: 0 });
    assert_eq!(action, AutoAction::Pause(100));

    let (st, action) = auto_connect_step(&mut table, SERVER, "1-1", st, AutoEvent::Elapsed);
    assert_eq!((st.phase, action), (AutoPhase::Importing, AutoAction::Import));
    let status = reply(begin_command(&mut table, DaemonCommand::Status)).connections.unwrap();
    assert_eq!(status[0].state, "connecting");

    // Three failures in a row: 1 s, 2 s, 4 s.
    let mut st = st;
    let mut text = String::new();
    for (k, wait) in [(1u32, 1000u64), (2, 2000), (3, 4000)] {
        let err = UsbIpError::from_kind(ErrorKind::Timeout);
        text = err.to_string();
        let (s1, a1) = auto_connect_step(&mut table, SERVER, "1-1", st, AutoEvent::Imported(Err(err)));
        assert_eq!(s1, AutoState { phase: AutoPhase::BackingOff, failures: k });
        assert_eq!(a1, AutoAction::Pause(wait));
        let status = reply(begin_command(&mut table, DaemonCommand::Status)).connections.unwrap();
        assert_eq!(status[0].state, format!("error: {}", text));
        assert_eq!(status[0].error.as_deref(), Some(text.as_str()));
        let (s2, a2) = auto_connect_step(&mut table, SERVER, "1-1", s1, AutoEvent::Elapsed);
        assert_eq!((s2.phase, a2), (AutoPhase::Pausing, AutoAction::Pause(100)));
        let (s3, a3) = auto_connect_step(&mut table, SERVER, "1-1", s2, AutoEvent::Elapsed);
        assert_eq!((s3.phase, a3), (AutoPhase::Importing, AutoAction::Import));
        st = s3;
    }
    assert!(!text.is_empty());

    let (st, action) =
        auto_connect_step(&mut table, SERVER, "1-1", st, AutoEvent::Imported(Ok(device(1, 2))));
    assert_eq!(st, AutoState { phase: AutoPhase::Holding, failures: 0 });
    assert_eq!(action, AutoAction::Pause(1000));
    assert!(table.is_connected(SERVER, "1-1"));

    // While connected, the task only keeps looking.
    let (st2, action) = auto_connect_step(&mut table, SERVER, "1-1", st, AutoEvent::Elapsed);
    assert_eq!(st2, st);
    assert_eq!(action, AutoAction::Pause(1000));

    // Once it is no longer connected, it reconnects.
    table.set_state(SERVER, "1-1", ConnectionState::Disconnected);
    let (st3, action) = auto_connect_step(&mut table, SERVER, "1-1", st2, AutoEvent::Elapsed);
    assert_eq!((st3.phase, action), (AutoPhase::Pausing, AutoAction::Pause(100)));
}

#[test]
fn test_backoff_caps_at_sixteen_seconds() {
    let mut table: ConnectionTable<u32> = ConnectionTable::new();
    let st = AutoState { phase: AutoPhase::Importing, failures: 7 };
    let err = UsbIpError::from_kind(ErrorKind::Timeout);
    let (s, a) = auto_connect_step(&mut table, SERVER, "1-1", st, AutoEvent::Imported(Err(err)));
    assert_eq!(s.failures, 8);
    assert_eq!(a, AutoAction::Pause(16000));
}

#[test]
fn test_second_finished_connect_adds_nothing() {
    let mut table: ConnectionTable<u32> = ConnectionTable::new();
    let (_, first) =
        finish_connect(&mut table, SERVER.to_string(), "1-1".to_string(), Ok(device(1, 2)), 1);
    let (r, second) =
        finish_connect(&mut table, SERVER.to_string(), "1-1".to_string(), Ok(device(1, 2)), 2);
    assert!(first && !second);
    assert_eq!(message(&r), "already managing 1-1 from 192.168.1.10:3240");
    assert_eq!(table.len(), 1);
}

#[test]
fn test_auto_connect_stops_once_disconnected() {
    let mut table: ConnectionTable<u32> = ConnectionTable::new();
    table.push(SERVER.to_string(), "1-1".to_string(), ConnectionState::Connected, 1);
    let _ = begin_command(&mut table, DaemonCommand::Disconnect { busid: "1-1".to_string() });
    let st = AutoState { phase: AutoPhase::Holding, failures: 0 };
    let (_, action) = auto_connect_step(&mut table, SERVER, "1-1", st, AutoEvent::Elapsed);
    assert_eq!(action, AutoAction::Stop);
    assert_eq!(table.len(), 0);
}

#[test]
fn test_auto_connect_cancellation_stops() {
    let mut table: ConnectionTable<u32> = ConnectionTable::new();
    table.push(SERVER.to_string(), "1-1".to_string(), ConnectionState::Connected, 1);
    for phase in [AutoPhase::Pausing, AutoPhase::Holding, AutoPhase::BackingOff] {
        let st = AutoState { phase, failures: 0 };
        let (_, a) = auto_connect_step(&mut table, SERVER, "1-1", st, AutoEvent::Cancelled);
        assert_eq!(a, AutoAction::Stop);
        let (_, b) = auto_connect_step(&mut table, SERVER, "1-1", st, AutoEvent::Shutdown);
        assert_eq!(b, AutoAction::Stop);
    }
    assert!(table.is_connected(SERVER, "1-1"));
}

#[test]
fn held_connection_is_never_imported_again() {
    let mut table: ConnectionTable<u32> = ConnectionTable::new();
    table.push(SERVER.to_string(), "1-1".to_string(), ConnectionState::Connecting, 1);
    let st = AutoState { phase: AutoPhase::Importing, failures: 2 };
    let (held, action) =
        auto_connect_step(&mut table, SERVER, "1-1", st, AutoEvent::Imported(Ok(device(1, 2))));
    assert_eq!(held, AutoState { phase: AutoPhase::Holding, failures: 0 });
    assert_eq!(action, AutoAction::Pause(1000));
    let mut st = held;
    for _ in 0..25 {
        let (next, action) = auto_connect_step(&mut table, SERVER, "1-1", st, AutoEvent::Elapsed);
        assert_eq!(next, held);
        assert_eq!(action, AutoAction::Pause(1000));
        st = next;
    }
    table.set_state(SERVER, "1-1", ConnectionState::Disconnected);
    let (st, action) = auto_connect_step(&mut table, SERVER, "1-1", st, AutoEvent::Elapsed);
    assert_eq!(action, AutoAction::Pause(100));
    let (_, action) = auto_connect_step(&mut table, SERVER, "1-1", st, AutoEvent::Elapsed);
    assert_eq!(action, AutoAction::Import);
}

#[test]
fn failure_count_restarts_after_a_success() {
    let mut table: ConnectionTable<u32> = ConnectionTable::new();
    table.push(SERVER.to_string(), "1-1".to_string(), ConnectionState::Disconnected, 1);
    let (mut st, _) = auto_connect_start();
    let mut waits = Vec::new();
    // fail, fail, succeed, drop, fail
    let outcomes = [false, false, true, false];
    for ok in outcomes {
        let (s, a) = auto_connect_step(&mut table, SERVER, "1-1", st, AutoEvent::Elapsed);
        assert_eq!(a, AutoAction::Import);
        let event = if ok {
            AutoEvent::Imported(Ok(device(1, 2)))
        } else {
            AutoEvent::Imported(Err(UsbIpError::from_kind(ErrorKind::Timeout)))
        };
        let (s, a) = auto_connect_step(&mut table, SERVER, "1-1", s, event);
        waits.push((s.failures, a));
        if ok {
            table.set_state(SERVER, "1-1", ConnectionState::Disconnected);
        }
        let (s, a) = auto_connect_step(&mut table, SERVER, "1-1", s, AutoEvent::Elapsed);
        assert_eq!(a, AutoAction::Pause(100));
        st = s;
    }
    assert_eq!(
        waits,
        vec![
            (1, AutoAction::Pause(1000)),
            (2, AutoAction::Pause(2000)),
            (0, AutoAction::Pause(1000)),
            (1, AutoAction::Pause(1000)),
        ]
    );
}

#[test]
fn table_keeps_one_entry_per_pair_over_many_changes() {
    let mut table: ConnectionTable<u32> = ConnectionTable::new();
    let pairs = [(SERVER, "1-1"), ("10.0.0.2:3240", "1-1"), (SERVER, "2-1")];
    for round in 0..3u32 {
        for (i, (server, busid)) in pairs.iter().enumerate() {
            let _ = finish_connect(
                &mut table,
                server.to_string(),
                busid.to_string(),
                Ok(device(1, 2)),
                round * 10 + i as u32,
            );
            table.set_state(server, busid, ConnectionState::Connecting);
        }
        if round == 1 {
            let _ = begin_command(&mut table, DaemonCommand::Disconnect { busid: "1-1".to_string() });
        }
    }
    let status = reply(begin_command(&mut table, DaemonCommand::Status)).connections.unwrap();
    for (server, busid) in pairs {
        let n = status.iter().filter(|c| c.server == server && c.busid == busid).count();
        assert_eq!(n, 1, "{} {}", server, busid);
    }
    assert_eq!(table.len(), 3);
}
