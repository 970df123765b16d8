use stalk::channel::Channel;
use stalk::probe::{
    capped_read_64, stalk_exit_group, stalk_openat, stalk_read, stalk_read_exit,
    try_stalk_exit_group, try_stalk_openat,
};
use stalk::raw::{decode_exit, decode_openat, decode_read, decode_read_exit};

fn exit_ctx(error_code: i32) -> Vec<u8> {
    let mut ctx = vec![0u8; 16];
    ctx[12..16].copy_from_slice(&error_code.to_le_bytes());
    ctx
}

#[test]
fn channel_keeps_records_in_order() {
    let mut ch = Channel::new(1024);
    assert!(ch.submit(vec![1, 2, 3]));
    assert!(ch.submit(vec![4]));
    assert!(ch.submit(vec![5, 6]));
    assert_eq!(ch.used(), 6);
    let drained = ch.drain();
    assert_eq!(drained, vec![vec![1, 2, 3], vec![4], vec![5, 6]]);
    assert_eq!(ch.used(), 0);
    assert_eq!(ch.drain(), Vec::<Vec<u8>>::new());
}

#[test]
fn channel_drops_when_full() {
    let mut ch = Channel::new(4);
    assert!(ch.submit(vec![1, 2, 3]));
    assert!(!ch.submit(vec![4, 5]));
    assert!(ch.submit(vec![6]));
    assert!(!ch.submit(vec![7]));
    let drained = ch.drain();
    assert_eq!(drained, vec![vec![1, 2, 3], vec![6]]);
}

#[test]
fn exit_probe_emits_one_record() {
    let mut ch = Channel::new(256 * 1024);
    let tgid_pid: u64 = (77u64 << 32) | 55u64;
    let r = try_stalk_exit_group(&exit_ctx(-9), tgid_pid, &mut ch);
    assert_eq!(r, Ok(0));
    let drained = ch.drain();
    assert_eq!(drained.len(), 1);
    let record = decode_exit(&drained[0]);
    assert_eq!(record.pid, 55);
    assert_eq!(record.error_code, -9);
}

#[test]
fn exit_probe_drops_on_full_channel() {
    let mut ch = Channel::new(7);
    let r = stalk_exit_group(&exit_ctx(1), 3, &mut ch);
    assert_eq!(r, 0);
    assert_eq!(ch.drain().len(), 0);
}

#[test]
fn read_probe_extracts_fd_and_count() {
    let mut ctx = vec![0u8; 40];
    ctx[16..24].copy_from_slice(&42u64.to_le_bytes());
    ctx[32..40].copy_from_slice(&8192u64.to_le_bytes());
    let mut ch = Channel::new(256 * 1024);
    let tgid_pid: u64 = (1000u64 << 32) | 2000u64;
    assert_eq!(stalk_read(&ctx, tgid_pid, &mut ch), 0);
    let drained = ch.drain();
    let record = decode_read(&drained[0]);
    assert_eq!(record.pid, 2000);
    assert_eq!(record.gid, 1000);
    assert_eq!(record.fd, 42);
    assert_eq!(record.count, 8192);
}

#[test]
fn read_exit_probe_extracts_return_value() {
    let mut ctx = vec![0u8; 24];
    ctx[16..24].copy_from_slice(&(-5i64).to_le_bytes());
    let mut ch = Channel::new(256 * 1024);
    assert_eq!(stalk_read_exit(&ctx, 6, &mut ch), 0);
    let drained = ch.drain();
    let record = decode_read_exit(&drained[0]);
    assert_eq!(record.pid, 6);
    assert_eq!(record.gid, 0);
    assert_eq!(record.ret, -5);
}

#[test]
fn openat_probe_copies_capped_filename() {
    let mut ctx = vec![0u8; 48];
    ctx[32..40].copy_from_slice(&64i64.to_le_bytes());
    ctx[40..48].copy_from_slice(&0o600u64.to_le_bytes());
    let mut ch = Channel::new(256 * 1024);
    let user = b"/etc/passwd\0ignored".as_slice();
    let r = try_stalk_openat(&ctx, (4u64 << 32) | 8u64, Some(user), &mut ch);
    assert_eq!(r, Ok(0));
    let drained = ch.drain();
    let record = decode_openat(&drained[0]);
    assert_eq!(record.pid, 8);
    assert_eq!(record.gid, 4);
    assert_eq!(&record.filename[..11], b"/etc/passwd");
    assert!(record.filename[11..].iter().all(|&b| b == 0));
    assert_eq!(record.flags, 64);
    assert_eq!(record.mode, 0o600);
}

#[test]
fn openat_probe_survives_failed_copy() {
    let ctx = vec![0u8; 48];
    let mut ch = Channel::new(256 * 1024);
    let r = stalk_openat(&ctx, 0, None, &mut ch);
    assert_eq!(r, 0);
    let drained = ch.drain();
    let record = decode_openat(&drained[0]);
    assert!(record.filename.iter().all(|&b| b == 0));
}

#[test]
fn capped_copy_stops_at_first_zero() {
    let src = b"abc\0def";
    let copied = capped_read_64(Some(src.as_slice()));
    assert_eq!(&copied[..3], b"abc");
    assert!(copied[3..].iter().all(|&b| b == 0));
}

#[test]
fn capped_copy_never_reads_past_the_cap() {
    let src = [7u8; 200];
    let copied = capped_read_64(Some(src.as_slice()));
    assert!(copied[..63].iter().all(|&b| b == 7));
    assert_eq!(copied[63], 0);
}

#[test]
fn capped_copy_handles_short_source() {
    let src = [9u8; 5];
    let copied = capped_read_64(Some(src.as_slice()));
    assert!(copied[..5].iter().all(|&b| b == 9));
    assert!(copied[5..].iter().all(|&b| b == 0));
}
