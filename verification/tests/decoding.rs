use stalk::event::{ExecveEvent, ExitEvent, OpenatEvent, ReadEvent, XdpEvent};
use stalk::raw::{RawExecveEvent, RawExitEvent, RawOpenatEvent, RawReadEvent, RawXdpEvent};
use stalk::text::decode_text;

fn slot32(text: &[u8]) -> [u8; 32] {
    let mut s = [0u8; 32];
    s[..text.len()].copy_from_slice(text);
    s
}

fn window64(text: &[u8]) -> [u8; 64] {
    let mut s = [0u8; 64];
    s[..text.len()].copy_from_slice(text);
    s
}

#[test]
fn text_truncates_at_first_zero_byte() {
    let window = window64(b"/bin/ls\0garbage");
    assert_eq!(decode_text(&window), "/bin/ls");
}

#[test]
fn text_with_no_zero_byte_uses_the_whole_field() {
    let window = [b'x'; 64];
    let decoded = decode_text(&window);
    assert_eq!(decoded.len(), 64);
    assert!(decoded.chars().all(|c| c == 'x'));
}

#[test]
fn text_with_leading_zero_is_empty() {
    assert_eq!(decode_text(&[0u8; 64]), "");
}

#[test]
fn empty_argv_slots_are_omitted_in_order() {
    let raw = RawExecveEvent {
        pid: 1,
        filename: window64(b"/bin/ls"),
        argv: [slot32(b"ls"), slot32(b""), slot32(b"-a"), slot32(b"")],
    };
    let event = ExecveEvent::from_raw(&raw, 5);
    assert_eq!(event.argv, vec!["ls".to_string(), "-a".to_string()]);
    assert_eq!(event.pid, 1);
    assert_eq!(event.filename, "/bin/ls");
    assert_eq!(event.start_time, 5);
}

#[test]
fn all_empty_argv_decodes_to_nothing() {
    let raw = RawExecveEvent { pid: 2, filename: window64(b"/sbin/init"), argv: [[0u8; 32]; 4] };
    let event = ExecveEvent::from_raw(&raw, 0);
    assert!(event.argv.is_empty());
}

#[test]
fn execve_render_matches_expected_line() {
    let raw = RawExecveEvent {
        pid: 42,
        filename: window64(b"/bin/ls"),
        argv: [slot32(b"ls"), slot32(b"-a"), slot32(b""), slot32(b"")],
    };
    let event = ExecveEvent::from_raw(&raw, 0);
    assert_eq!(
        event.render(),
        "ExecveEvent { pid: 42, filename: /bin/ls, argv: [\"ls\", \"-a\"] }"
    );
}

#[test]
fn exit_event_decodes_and_renders() {
    let raw = RawExitEvent { pid: 9, error_code: 3 };
    let event = ExitEvent::from_raw(&raw, 7);
    assert_eq!(event.pid, 9);
    assert_eq!(event.exit_code, 3);
    assert_eq!(event.start_time, 7);
    assert_eq!(event.render(), "ExitEvent { pid: 9, exit_code: 3 }");
}

#[test]
fn read_event_decodes_and_renders() {
    let raw = RawReadEvent { pid: 12, gid: 13, fd: 4, count: 1024 };
    let event = ReadEvent::from_raw(&raw, 100);
    assert_eq!(event.pid, 12);
    assert_eq!(event.gid, 13);
    assert_eq!(event.fd, 4);
    assert_eq!(event.count, 1024);
    assert_eq!(event.start_time, 100);
    assert_eq!(event.end_time, None);
    assert_eq!(event.render(), "ReadEvent { pid: 12, fd: 4, count: 1024 }");
}

#[test]
fn openat_event_decodes_and_renders() {
    let raw = RawOpenatEvent {
        pid: 5,
        gid: 6,
        filename: window64(b"/etc/hosts"),
        flags: 64,
        mode: 0o644,
    };
    let event = OpenatEvent::from_raw(&raw, 1);
    assert_eq!(event.filename, "/etc/hosts");
    assert_eq!(event.flags, 64);
    assert_eq!(event.mode, 0o644);
    assert_eq!(
        event.render(),
        "OpenatEvent { pid: 5, filename: /etc/hosts, flags: 64, mode: 420 }"
    );
}

#[test]
fn xdp_event_decodes_addresses_into_octets() {
    let raw = RawXdpEvent {
        pid: 0,
        source_addr: u32::from_be_bytes([192, 168, 0, 2]),
        dest_addr: u32::from_be_bytes([1, 1, 1, 1]),
        source_port: 80,
        dest_port: 50000,
    };
    let event = XdpEvent::from_raw(&raw, 0);
    assert_eq!(event.source_addr, [192, 168, 0, 2]);
    assert_eq!(event.dest_addr, [1, 1, 1, 1]);
    assert_eq!(
        event.render(),
        "XdpEvent { source_addr: 192.168.0.2, dest_addr: 1.1.1.1, source_port: 80, dest_port: 50000 }"
    );
}

#[test]
fn negative_exit_code_is_widened_as_two_complement() {
    let raw = RawExitEvent { pid: 1, error_code: -1 };
    let event = ExitEvent::from_raw(&raw, 0);
    assert_eq!(event.exit_code, u64::MAX);
}
