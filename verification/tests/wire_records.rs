use stalk::raw::{
    decode_execve, decode_exit, decode_openat, decode_read, decode_read_exit, decode_xdp,
    encode_execve, encode_exit, encode_openat, encode_read, encode_read_exit, encode_xdp,
    RawExecveEvent, RawExitEvent, RawOpenatEvent, RawReadEvent, RawReadEventExit, RawXdpEvent,
};
use stalk::wire::{put_u16_le, put_u32_le, put_u64_le, read_u16_be, read_u16_le, read_u32_be, read_u32_le, read_u64_le, u32_to_be};

#[test]
fn little_endian_fields_round_trip() {
    let mut buf: Vec<u8> = Vec::new();
    put_u16_le(&mut buf, 0xBEEF);
    put_u32_le(&mut buf, 0xDEADBEEF);
    put_u64_le(&mut buf, 0x0123_4567_89AB_CDEF);
    assert_eq!(buf.len(), 14);
    assert_eq!(read_u16_le(&buf, 0), 0xBEEF);
    assert_eq!(read_u32_le(&buf, 2), 0xDEADBEEF);
    assert_eq!(read_u64_le(&buf, 6), 0x0123_4567_89AB_CDEF);
}

#[test]
fn little_endian_byte_order() {
    let mut buf: Vec<u8> = Vec::new();
    put_u32_le(&mut buf, 0x01020304);
    assert_eq!(buf, vec![0x04, 0x03, 0x02, 0x01]);
}

#[test]
fn big_endian_fields() {
    let buf: Vec<u8> = vec![0x01, 0x02, 0x03, 0x04];
    assert_eq!(read_u16_be(&buf, 0), 0x0102);
    assert_eq!(read_u32_be(&buf, 0), 0x01020304);
    assert_eq!(u32_to_be(0x01020304), [0x01, 0x02, 0x03, 0x04]);
}

#[test]
fn exit_record_round_trip() {
    let e = RawExitEvent { pid: 4242, error_code: -13 };
    let bytes = encode_exit(&e);
    assert_eq!(bytes.len(), 8);
    let back = decode_exit(&bytes);
    assert_eq!(back.pid, 4242);
    assert_eq!(back.error_code, -13);
}

#[test]
fn read_record_round_trip() {
    let e = RawReadEvent { pid: 7, gid: 9, fd: 3, count: 65536 };
    let bytes = encode_read(&e);
    assert_eq!(bytes.len(), 24);
    let back = decode_read(&bytes);
    assert_eq!(back.pid, 7);
    assert_eq!(back.gid, 9);
    assert_eq!(back.fd, 3);
    assert_eq!(back.count, 65536);
}

#[test]
fn read_exit_record_round_trip() {
    let e = RawReadEventExit { pid: 1, gid: 2, ret: -1 };
    let bytes = encode_read_exit(&e);
    assert_eq!(bytes.len(), 16);
    let back = decode_read_exit(&bytes);
    assert_eq!(back.pid, 1);
    assert_eq!(back.gid, 2);
    assert_eq!(back.ret, -1);
}

#[test]
fn xdp_record_round_trip() {
    let e = RawXdpEvent {
        pid: 0,
        source_addr: 0xC0A80101,
        dest_addr: 0x08080808,
        source_port: 443,
        dest_port: 51123,
    };
    let bytes = encode_xdp(&e);
    assert_eq!(bytes.len(), 16);
    let back = decode_xdp(&bytes);
    assert_eq!(back.source_addr, 0xC0A80101);
    assert_eq!(back.dest_addr, 0x08080808);
    assert_eq!(back.source_port, 443);
    assert_eq!(back.dest_port, 51123);
}

#[test]
fn openat_record_round_trip() {
    let mut filename = [0u8; 64];
    filename[..8].copy_from_slice(b"/etc/p\0d");
    let e = RawOpenatEvent { pid: 10, gid: 20, filename, flags: -2, mode: 0o644 };
    let bytes = encode_openat(&e);
    assert_eq!(bytes.len(), 88);
    let back = decode_openat(&bytes);
    assert_eq!(back.pid, 10);
    assert_eq!(back.gid, 20);
    assert_eq!(back.filename, filename);
    assert_eq!(back.flags, -2);
    assert_eq!(back.mode, 0o644);
}

#[test]
fn execve_record_round_trip() {
    let mut filename = [0u8; 64];
    filename[..7].copy_from_slice(b"/bin/ls");
    let mut argv = [[0u8; 32]; 4];
    argv[0][..2].copy_from_slice(b"ls");
    argv[2][..2].copy_from_slice(b"-a");
    let e = RawExecveEvent { pid: 33, filename, argv };
    let bytes = encode_execve(&e);
    assert_eq!(bytes.len(), 196);
    let back = decode_execve(&bytes);
    assert_eq!(back.pid, 33);
    assert_eq!(back.filename, filename);
    assert_eq!(back.argv, argv);
}
