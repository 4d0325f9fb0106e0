use anyplug::cli::{parse_vid_pid, resolve_bind_address};

#[test]
fn resolve_bind_address_uses_iface_ip() {
    let lookup: Box<dyn Fn(&str) -> Option<String> + Send + Sync> = Box::new(|name| match name {
        "en0" => Some("192.168.1.21".to_string()),
        _ => None,
    });
    let got = resolve_bind_address("0.0.0.0", Some("en0"), &lookup).unwrap();
    assert_eq!(got, "192.168.1.21");
}

#[test]
fn resolve_bind_address_falls_back_when_iface_missing() {
    let lookup: Box<dyn Fn(&str) -> Option<String> + Send + Sync> = Box::new(|_| None);
    let got = resolve_bind_address("10.0.0.5", Some("eth9"), &lookup).unwrap();
    assert_eq!(got, "10.0.0.5");
}

#[test]
fn resolve_bind_address_passthrough_when_no_iface() {
    let lookup: Box<dyn Fn(&str) -> Option<String> + Send + Sync> =
        Box::new(|_| panic!("resolver must not be called without --bind-iface"));
    let got = resolve_bind_address("127.0.0.1", None, &lookup).unwrap();
    assert_eq!(got, "127.0.0.1");
}

#[test]
fn vid_pid_entries() {
    assert_eq!(parse_vid_pid("046d:c261").unwrap(), (0x046d, 0xc261));
    assert_eq!(parse_vid_pid("FFFF:0").unwrap(), (0xffff, 0));
    assert_eq!(parse_vid_pid("046dc261").unwrap_err(), "format: VID:PID (e.g., 046d:c261)");
    assert_eq!(parse_vid_pid("1:2:3").unwrap_err(), "format: VID:PID (e.g., 046d:c261)");
    assert!(parse_vid_pid("xyz:1").is_err());
    assert!(parse_vid_pid("10000:1").is_err());
    assert!(parse_vid_pid(":1").is_err());
}
