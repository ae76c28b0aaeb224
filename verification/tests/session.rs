use ultracam::config::AppConfig;
use ultracam::network::{game_line_event, missing_sequence_event, sequence_loaded_event, NetEvent};
use ultracam::session::{
    apply_event, clock_text, command_packet, log_line, wants_random_actor, CommandInput, LinkState,
    LinkStatus, LogBuffer, LOG_CAPACITY,
};

#[test]
fn events_drive_the_status() {
    let mut st = LinkState::new();
    assert_eq!(st.status, LinkStatus::Waiting);
    let m = apply_event(&mut st, NetEvent::ClientConnected("peer".to_string()));
    assert_eq!(m, "peer");
    assert!(st.connected);
    assert_eq!(st.status.text(), "已连接 ✓");
    let m = apply_event(&mut st, NetEvent::ServerStarted("up".to_string()));
    assert_eq!(m, "up");
    assert!(st.connected);
    assert_eq!(st.status, LinkStatus::Waiting);
    let m = apply_event(&mut st, NetEvent::ClientDisconnected);
    assert_eq!(m, "客户端已断开连接");
    assert!(!st.connected);
    assert_eq!(st.status.text(), "已断开");
    let m = apply_event(&mut st, NetEvent::Error("boom".to_string()));
    assert_eq!(m, "❌ boom");
    assert_eq!(apply_event(&mut st, NetEvent::LogMessage("hi".to_string())), "hi");
}

#[test]
fn log_keeps_the_newest_lines() {
    let mut log = LogBuffer::new();
    for i in 0..(LOG_CAPACITY + 5) {
        log.push(format!("line {i}"));
    }
    assert_eq!(log.len(), LOG_CAPACITY);
    assert_eq!(log.line(0), "line 5");
    assert_eq!(log.line(LOG_CAPACITY - 1), &format!("line {}", LOG_CAPACITY + 4));
    log.clear();
    assert_eq!(log.len(), 0);
}

#[test]
fn clock_is_utc_plus_eight() {
    assert_eq!(clock_text(0), "08:00:00");
    assert_eq!(clock_text(16 * 3600 + 61), "00:01:01");
    assert_eq!(clock_text(1_700_000_000), "06:13:20");
    assert_eq!(log_line("08:00:00", "msg"), "[08:00:00] msg");
}

fn word(data: &[u8], at: usize) -> u32 {
    u32::from_le_bytes(data[at..at + 4].try_into().unwrap())
}

#[test]
fn command_inputs_make_packets() {
    assert_eq!(command_packet(51, &CommandInput::Plain).unwrap(), 51u32.to_le_bytes().to_vec());
    let p = command_packet(32, &CommandInput::Flag(false)).unwrap();
    assert_eq!((word(&p, 0), word(&p, 4)), (32, 0));
    let p = command_packet(40, &CommandInput::FloatBits(Some(30.0f32.to_bits()))).unwrap();
    assert_eq!(f32::from_le_bytes(p[4..8].try_into().unwrap()), 30.0);
    assert!(command_packet(40, &CommandInput::FloatBits(None)).is_none());
    let p = command_packet(43, &CommandInput::IntText("3".to_string())).unwrap();
    assert_eq!((word(&p, 0), word(&p, 4)), (43, 3));
    assert!(command_packet(43, &CommandInput::IntText("three".to_string())).is_none());
    let p = command_packet(10, &CommandInput::VectorBits(1, 2, 3)).unwrap();
    assert_eq!(p.len(), 20);
    let p = command_packet(-1, &CommandInput::TimeText("Dusk".to_string())).unwrap();
    assert_eq!((word(&p, 0), word(&p, 8), word(&p, 12)), (20, 20, 0));
    let p = command_packet(1, &CommandInput::Actor("Foo".to_string(), "x".to_string())).unwrap();
    assert_eq!(word(&p, 4), 1);
    assert_eq!(&p[8..11], b"Foo");
    let p = command_packet(1, &CommandInput::Actor("Foo".to_string(), "4".to_string())).unwrap();
    assert_eq!(word(&p, 4), 4);
}

#[test]
fn random_actor_requests() {
    assert!(wants_random_actor("random"));
    assert!(wants_random_actor("R"));
    assert!(wants_random_actor("RaNdOm"));
    assert!(!wants_random_actor("Enemy_Bokoblin_Junior"));
}

#[test]
fn connection_messages() {
    match game_line_event("KEYFRAME 0 ...".to_string(), "Default") {
        NetEvent::LogMessage(t) => assert_eq!(t, "收到关键帧: Default"),
        other => panic!("{other:?}"),
    }
    match game_line_event("hello".to_string(), "Default") {
        NetEvent::LogMessage(t) => assert_eq!(t, "hello"),
        other => panic!("{other:?}"),
    }
    match sequence_loaded_event("S", 12) {
        NetEvent::LogMessage(t) => assert_eq!(t, "序列 \"S\" 加载完成 (12 帧)"),
        other => panic!("{other:?}"),
    }
    match missing_sequence_event("S") {
        NetEvent::Error(t) => assert_eq!(t, "序列 \"S\" 不存在"),
        other => panic!("{other:?}"),
    }
}

#[test]
fn settings_entries() {
    let d = AppConfig::default();
    assert_eq!((d.ip.as_str(), d.port), ("127.0.0.1", 5555));
    let c = AppConfig::from_entries(Some(" 10.0.0.2 ".to_string()), Some(" 6000\t".to_string()));
    assert_eq!((c.ip.as_str(), c.port), ("10.0.0.2", 6000));
    let c = AppConfig::from_entries(None, Some("70000".to_string()));
    assert_eq!((c.ip.as_str(), c.port), ("127.0.0.1", 5555));
    let c = AppConfig::from_entries(None, None);
    assert_eq!(c.port, 5555);
}
