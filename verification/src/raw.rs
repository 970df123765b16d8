//! Fixed-layout event records and the hook-context layouts they are drawn
//! from. Each record has one byte image on the wire: the fields in order,
//! little-endian, with no padding and no variable-length data. Encoding and
//! decoding work at explicit byte offsets and are exact inverses.

use vstd::prelude::*;

use crate::wire::{
    put_i32_le, put_i64_le, put_u16_le, put_u32_le, put_u64_le, read_i32_le, read_i64_le,
    read_u16_le, read_u32_le, read_u64_le, spec_i32_le, spec_i32_of_le, spec_i64_le,
    spec_i64_of_le, spec_u16_le, spec_u16_of_le, spec_u32_le, spec_u32_of_le, spec_u64_le,
    spec_u64_of_le, lemma_i32_le_round_trip, lemma_i64_le_round_trip, lemma_u16_le_round_trip,
    lemma_u32_le_round_trip, lemma_u64_le_round_trip,
};

verus! {

/// Byte size of a process-exit record on the wire.
pub const EXIT_RECORD_BYTES: usize = 8;

/// Byte size of a read-enter record on the wire.
pub const READ_RECORD_BYTES: usize = 24;

/// Byte size of a read-exit record on the wire.
pub const READ_EXIT_RECORD_BYTES: usize = 16;

/// Byte size of a network record on the wire.
pub const XDP_RECORD_BYTES: usize = 16;

/// Byte size of a file-open record on the wire.
pub const OPENAT_RECORD_BYTES: usize = 88;

/// Byte size of a program-execution record on the wire.
pub const EXECVE_RECORD_BYTES: usize = 196;

/// Record emitted by the execution probe: the executing process and the
/// capped copies of the executable path and the first four argument strings.
pub struct RawExecveEvent {
    pub pid: u32,
    pub filename: [u8; 64],
    pub argv: [[u8; 32]; 4],
}

/// Layout of the execution hook's context. Pointers into user memory are
/// carried as plain addresses; the probe never follows them without a capped
/// copy.
pub struct SysEnterExecveInfo {
    pub common_type: u16,
    pub common_flags: u8,
    pub common_preempt_count: u8,
    pub common_pid: i32,
    pub syscall_nr: i32,
    pub filename: u64,
    pub argv: u64,
    pub envp: u64,
}

/// Record emitted by the read-enter probe.
pub struct RawReadEvent {
    pub pid: u32,
    pub gid: u32,
    pub fd: u64,
    pub count: u64,
}

/// Layout of the read-enter hook's context.
pub struct SysEnterReadInfo {
    pub common_type: u16,
    pub common_flags: u8,
    pub common_preempt_count: u8,
    pub common_pid: i32,
    pub syscall_nr: i32,
    pub padding: u32,
    pub fd: u64,
    pub buf: u64,
    pub count: u64,
}

/// Record emitted by the read-exit probe.
pub struct RawReadEventExit {
    pub pid: u32,
    pub gid: u32,
    pub ret: i64,
}

/// Layout of the read-exit hook's context.
pub struct SysExitReadInfo {
    pub common_type: u16,
    pub common_flags: u8,
    pub common_preempt_count: u8,
    pub common_pid: i32,
    pub syscall_nr: i32,
    pub padding: u32,
    pub ret: i64,
}

/// Record emitted by the file-open probe.
pub struct RawOpenatEvent {
    pub pid: u32,
    pub gid: u32,
    pub filename: [u8; 64],
    pub flags: i64,
    pub mode: u64,
}

/// Layout of the file-open hook's context.
pub struct SysEnterOpenatInfo {
    pub common_type: u16,
    pub common_flags: u8,
    pub common_preempt_count: u8,
    pub common_pid: i32,
    pub syscall_nr: i32,
    pub padding: u32,
    pub dfd: i64,
    pub filename: u64,
    pub flags: i64,
    pub mode: u64,
}

/// Record emitted by the network probe: the packet's transport 4-tuple,
/// addresses and ports still in network byte order.
pub struct RawXdpEvent {
    pub pid: u32,
    pub source_addr: u32,
    pub dest_addr: u32,
    pub source_port: u16,
    pub dest_port: u16,
}

/// Record emitted by the process-exit probe.
pub struct RawExitEvent {
    pub pid: u32,
    pub error_code: i32,
}

/// Layout of the process-exit hook's context.
pub struct SysEnterExitGroupInfo {
    pub common_type: u16,
    pub common_flags: u8,
    pub common_preempt_count: u8,
    pub common_pid: i32,
    pub syscall_nr: i32,
    pub error_code: i32,
}

/// Marker for the fixed-size record types that cross the transport channel.
pub trait RawEvent {
}

impl RawEvent for RawExecveEvent {
}

impl RawEvent for RawReadEvent {
}

impl RawEvent for RawReadEventExit {
}

impl RawEvent for RawOpenatEvent {
}

impl RawEvent for RawXdpEvent {
}

impl RawEvent for RawExitEvent {
}

/// Appends `a` to `out`.
fn put_bytes(out: &mut Vec<u8>, a: &[u8])
    ensures
        final(out)@ == old(out)@ + a@,
{
    let mut i: usize = 0;
    while i < a.len()
        invariant
            i <= a@.len(),
            out@ == old(out)@ + a@.subrange(0, i as int),
        decreases a@.len() - i,
    {
        out.push(a[i]);
        i = i + 1;
        assert(out@ =~= old(out)@ + a@.subrange(0, i as int));
    }
    assert(out@ =~= old(out)@ + a@);
}

/// Copies the 64 bytes at offset `off` out of `bytes`.
fn read_array_64(bytes: &[u8], off: usize) -> (r: [u8; 64])
    requires
        off + 64 <= bytes@.len(),
    ensures
        r@ == bytes@.subrange(off as int, off + 64),
{
    let mut r: [u8; 64] = [0u8; 64];
    let n: usize = bytes.len();
    let mut i: usize = 0;
    while i < 64
        invariant
            i <= 64,
            n == bytes@.len(),
            off + 64 <= n,
            r@.len() == 64,
            forall|j: int| 0 <= j < i ==> r@[j] == bytes@[off + j],
        decreases 64 - i,
    {
        r[i] = bytes[off + i];
        i = i + 1;
    }
    assert(r@ =~= bytes@.subrange(off as int, off + 64));
    r
}

/// Copies the 32 bytes at offset `off` out of `bytes`.
fn read_array_32(bytes: &[u8], off: usize) -> (r: [u8; 32])
    requires
        off + 32 <= bytes@.len(),
    ensures
        r@ == bytes@.subrange(off as int, off + 32),
{
    let mut r: [u8; 32] = [0u8; 32];
    let n: usize = bytes.len();
    let mut i: usize = 0;
    while i < 32
        invariant
            i <= 32,
            n == bytes@.len(),
            off + 32 <= n,
            r@.len() == 32,
            forall|j: int| 0 <= j < i ==> r@[j] == bytes@[off + j],
        decreases 32 - i,
    {
        r[i] = bytes[off + i];
        i = i + 1;
    }
    assert(r@ =~= bytes@.subrange(off as int, off + 32));
    r
}

/// The byte image of a process-exit record.
pub open spec fn spec_encode_exit(e: RawExitEvent) -> Seq<u8> {
    spec_u32_le(e.pid) + spec_i32_le(e.error_code)
}

/// The process-exit record whose byte image is `b`.
pub open spec fn spec_decode_exit(b: Seq<u8>) -> RawExitEvent
    recommends
        b.len() == EXIT_RECORD_BYTES,
{
    RawExitEvent {
        pid: spec_u32_of_le(b.subrange(0, 4)),
        error_code: spec_i32_of_le(b.subrange(4, 8)),
    }
}

/// Writes the byte image of a process-exit record.
pub fn encode_exit(e: &RawExitEvent) -> (r: Vec<u8>)
    ensures
        r@ == spec_encode_exit(*e),
        r@.len() == EXIT_RECORD_BYTES,
{
    let mut out: Vec<u8> = Vec::new();
    put_u32_le(&mut out, e.pid);
    put_i32_le(&mut out, e.error_code);
    assert(out@ =~= spec_encode_exit(*e));
    out
}

/// Reads a process-exit record back from its byte image.
pub fn decode_exit(bytes: &[u8]) -> (r: RawExitEvent)
    requires
        bytes@.len() == EXIT_RECORD_BYTES,
    ensures
        r == spec_decode_exit(bytes@),
{
    RawExitEvent { pid: read_u32_le(bytes, 0), error_code: read_i32_le(bytes, 4) }
}

/// Decoding the byte image of a process-exit record gives the record back.
pub proof fn lemma_exit_round_trip(e: RawExitEvent)
    ensures
        spec_decode_exit(spec_encode_exit(e)) == e,
{
    let b = spec_encode_exit(e);
    assert(b.subrange(0, 4) =~= spec_u32_le(e.pid));
    assert(b.subrange(4, 8) =~= spec_i32_le(e.error_code));
    lemma_u32_le_round_trip(e.pid);
    lemma_i32_le_round_trip(e.error_code);
}

/// The byte image of a read-enter record.
pub open spec fn spec_encode_read(e: RawReadEvent) -> Seq<u8> {
    spec_u32_le(e.pid) + spec_u32_le(e.gid) + spec_u64_le(e.fd) + spec_u64_le(e.count)
}

/// The read-enter record whose byte image is `b`.
pub open spec fn spec_decode_read(b: Seq<u8>) -> RawReadEvent
    recommends
        b.len() == READ_RECORD_BYTES,
{
    RawReadEvent {
        pid: spec_u32_of_le(b.subrange(0, 4)),
        gid: spec_u32_of_le(b.subrange(4, 8)),
        fd: spec_u64_of_le(b.subrange(8, 16)),
        count: spec_u64_of_le(b.subrange(16, 24)),
    }
}

/// Writes the byte image of a read-enter record.
pub fn encode_read(e: &RawReadEvent) -> (r: Vec<u8>)
    ensures
        r@ == spec_encode_read(*e),
        r@.len() == READ_RECORD_BYTES,
{
    let mut out: Vec<u8> = Vec::new();
    put_u32_le(&mut out, e.pid);
    put_u32_le(&mut out, e.gid);
    put_u64_le(&mut out, e.fd);
    put_u64_le(&mut out, e.count);
    assert(out@ =~= spec_encode_read(*e));
    out
}

/// Reads a read-enter record back from its byte image.
pub fn decode_read(bytes: &[u8]) -> (r: RawReadEvent)
    requires
        bytes@.len() == READ_RECORD_BYTES,
    ensures
        r == spec_decode_read(bytes@),
{
    RawReadEvent {
        pid: read_u32_le(bytes, 0),
        gid: read_u32_le(bytes, 4),
        fd: read_u64_le(bytes, 8),
        count: read_u64_le(bytes, 16),
    }
}

/// Decoding the byte image of a read-enter record gives the record back.
pub proof fn lemma_read_round_trip(e: RawReadEvent)
    ensures
        spec_decode_read(spec_encode_read(e)) == e,
{
    let b = spec_encode_read(e);
    assert(b.subrange(0, 4) =~= spec_u32_le(e.pid));
    assert(b.subrange(4, 8) =~= spec_u32_le(e.gid));
    assert(b.subrange(8, 16) =~= spec_u64_le(e.fd));
    assert(b.subrange(16, 24) =~= spec_u64_le(e.count));
    lemma_u32_le_round_trip(e.pid);
    lemma_u32_le_round_trip(e.gid);
    lemma_u64_le_round_trip(e.fd);
    lemma_u64_le_round_trip(e.count);
}

/// The byte image of a read-exit record.
pub open spec fn spec_encode_read_exit(e: RawReadEventExit) -> Seq<u8> {
    spec_u32_le(e.pid) + spec_u32_le(e.gid) + spec_i64_le(e.ret)
}

/// The read-exit record whose byte image is `b`.
pub open spec fn spec_decode_read_exit(b: Seq<u8>) -> RawReadEventExit
    recommends
        b.len() == READ_EXIT_RECORD_BYTES,
{
    RawReadEventExit {
        pid: spec_u32_of_le(b.subrange(0, 4)),
        gid: spec_u32_of_le(b.subrange(4, 8)),
        ret: spec_i64_of_le(b.subrange(8, 16)),
    }
}

/// Writes the byte image of a read-exit record.
pub fn encode_read_exit(e: &RawReadEventExit) -> (r: Vec<u8>)
    ensures
        r@ == spec_encode_read_exit(*e),
        r@.len() == READ_EXIT_RECORD_BYTES,
{
    let mut out: Vec<u8> = Vec::new();
    put_u32_le(&mut out, e.pid);
    put_u32_le(&mut out, e.gid);
    put_i64_le(&mut out, e.ret);
    assert(out@ =~= spec_encode_read_exit(*e));
    out
}

/// Reads a read-exit record back from its byte image.
pub fn decode_read_exit(bytes: &[u8]) -> (r: RawReadEventExit)
    requires
        bytes@.len() == READ_EXIT_RECORD_BYTES,
    ensures
        r == spec_decode_read_exit(bytes@),
{
    RawReadEventExit {
        pid: read_u32_le(bytes, 0),
        gid: read_u32_le(bytes, 4),
        ret: read_i64_le(bytes, 8),
    }
}

/// Decoding the byte image of a read-exit record gives the record back.
pub proof fn lemma_read_exit_round_trip(e: RawReadEventExit)
    ensures
        spec_decode_read_exit(spec_encode_read_exit(e)) == e,
{
    let b = spec_encode_read_exit(e);
    assert(b.subrange(0, 4) =~= spec_u32_le(e.pid));
    assert(b.subrange(4, 8) =~= spec_u32_le(e.gid));
    assert(b.subrange(8, 16) =~= spec_i64_le(e.ret));
    lemma_u32_le_round_trip(e.pid);
    lemma_u32_le_round_trip(e.gid);
    lemma_i64_le_round_trip(e.ret);
}

/// The byte image of a network record.
pub open spec fn spec_encode_xdp(e: RawXdpEvent) -> Seq<u8> {
    spec_u32_le(e.pid) + spec_u32_le(e.source_addr) + spec_u32_le(e.dest_addr) + spec_u16_le(
        e.source_port,
    ) + spec_u16_le(e.dest_port)
}

/// The network record whose byte image is `b`.
pub open spec fn spec_decode_xdp(b: Seq<u8>) -> RawXdpEvent
    recommends
        b.len() == XDP_RECORD_BYTES,
{
    RawXdpEvent {
        pid: spec_u32_of_le(b.subrange(0, 4)),
        source_addr: spec_u32_of_le(b.subrange(4, 8)),
        dest_addr: spec_u32_of_le(b.subrange(8, 12)),
        source_port: spec_u16_of_le(b.subrange(12, 14)),
        dest_port: spec_u16_of_le(b.subrange(14, 16)),
    }
}

/// Writes the byte image of a network record.
pub fn encode_xdp(e: &RawXdpEvent) -> (r: Vec<u8>)
    ensures
        r@ == spec_encode_xdp(*e),
        r@.len() == XDP_RECORD_BYTES,
{
    let mut out: Vec<u8> = Vec::new();
    put_u32_le(&mut out, e.pid);
    put_u32_le(&mut out, e.source_addr);
    put_u32_le(&mut out, e.dest_addr);
    put_u16_le(&mut out, e.source_port);
    put_u16_le(&mut out, e.dest_port);
    assert(out@ =~= spec_encode_xdp(*e));
    out
}

/// Reads a network record back from its byte image.
pub fn decode_xdp(bytes: &[u8]) -> (r: RawXdpEvent)
    requires
        bytes@.len() == XDP_RECORD_BYTES,
    ensures
        r == spec_decode_xdp(bytes@),
{
    RawXdpEvent {
        pid: read_u32_le(bytes, 0),
        source_addr: read_u32_le(bytes, 4),
        dest_addr: read_u32_le(bytes, 8),
        source_port: read_u16_le(bytes, 12),
        dest_port: read_u16_le(bytes, 14),
    }
}

/// Decoding the byte image of a network record gives the record back.
pub proof fn lemma_xdp_round_trip(e: RawXdpEvent)
    ensures
        spec_decode_xdp(spec_encode_xdp(e)) == e,
{
    let b = spec_encode_xdp(e);
    assert(b.subrange(0, 4) =~= spec_u32_le(e.pid));
    assert(b.subrange(4, 8) =~= spec_u32_le(e.source_addr));
    assert(b.subrange(8, 12) =~= spec_u32_le(e.dest_addr));
    assert(b.subrange(12, 14) =~= spec_u16_le(e.source_port));
    assert(b.subrange(14, 16) =~= spec_u16_le(e.dest_port));
    lemma_u32_le_round_trip(e.pid);
    lemma_u32_le_round_trip(e.source_addr);
    lemma_u32_le_round_trip(e.dest_addr);
    lemma_u16_le_round_trip(e.source_port);
    lemma_u16_le_round_trip(e.dest_port);
}

/// The byte image of a file-open record.
pub open spec fn spec_encode_openat(e: RawOpenatEvent) -> Seq<u8> {
    spec_u32_le(e.pid) + spec_u32_le(e.gid) + e.filename@ + spec_i64_le(e.flags) + spec_u64_le(
        e.mode,
    )
}

/// Writes the byte image of a file-open record.
pub fn encode_openat(e: &RawOpenatEvent) -> (r: Vec<u8>)
    ensures
        r@ == spec_encode_openat(*e),
        r@.len() == OPENAT_RECORD_BYTES,
{
    let mut out: Vec<u8> = Vec::new();
    put_u32_le(&mut out, e.pid);
    put_u32_le(&mut out, e.gid);
    put_bytes(&mut out, e.filename.as_slice());
    put_i64_le(&mut out, e.flags);
    put_u64_le(&mut out, e.mode);
    assert(out@ =~= spec_encode_openat(*e));
    out
}

/// Reads a file-open record back from its byte image.
pub fn decode_openat(bytes: &[u8]) -> (r: RawOpenatEvent)
    requires
        bytes@.len() == OPENAT_RECORD_BYTES,
    ensures
        r.pid == spec_u32_of_le(bytes@.subrange(0, 4)),
        r.gid == spec_u32_of_le(bytes@.subrange(4, 8)),
        r.filename@ == bytes@.subrange(8, 72),
        r.flags == spec_i64_of_le(bytes@.subrange(72, 80)),
        r.mode == spec_u64_of_le(bytes@.subrange(80, 88)),
{
    RawOpenatEvent {
        pid: read_u32_le(bytes, 0),
        gid: read_u32_le(bytes, 4),
        filename: read_array_64(bytes, 8),
        flags: read_i64_le(bytes, 72),
        mode: read_u64_le(bytes, 80),
    }
}

/// Decoding the byte image of a file-open record gives the record back:
/// every field of the image equals the field it was written from.
pub proof fn lemma_openat_round_trip(e: RawOpenatEvent)
    ensures
        spec_encode_openat(e).len() == OPENAT_RECORD_BYTES,
        spec_u32_of_le(spec_encode_openat(e).subrange(0, 4)) == e.pid,
        spec_u32_of_le(spec_encode_openat(e).subrange(4, 8)) == e.gid,
        spec_encode_openat(e).subrange(8, 72) == e.filename@,
        spec_i64_of_le(spec_encode_openat(e).subrange(72, 80)) == e.flags,
        spec_u64_of_le(spec_encode_openat(e).subrange(80, 88)) == e.mode,
{
    let b = spec_encode_openat(e);
    assert(b.subrange(0, 4) =~= spec_u32_le(e.pid));
    assert(b.subrange(4, 8) =~= spec_u32_le(e.gid));
    assert(b.subrange(8, 72) =~= e.filename@);
    assert(b.subrange(72, 80) =~= spec_i64_le(e.flags));
    assert(b.subrange(80, 88) =~= spec_u64_le(e.mode));
    lemma_u32_le_round_trip(e.pid);
    lemma_u32_le_round_trip(e.gid);
    lemma_i64_le_round_trip(e.flags);
    lemma_u64_le_round_trip(e.mode);
}

/// The byte image of a program-execution record.
pub open spec fn spec_encode_execve(e: RawExecveEvent) -> Seq<u8> {
    spec_u32_le(e.pid) + e.filename@ + e.argv@[0]@ + e.argv@[1]@ + e.argv@[2]@ + e.argv@[3]@
}

/// Writes the byte image of a program-execution record.
pub fn encode_execve(e: &RawExecveEvent) -> (r: Vec<u8>)
    ensures
        r@ == spec_encode_execve(*e),
        r@.len() == EXECVE_RECORD_BYTES,
{
    let mut out: Vec<u8> = Vec::new();
    put_u32_le(&mut out, e.pid);
    put_bytes(&mut out, e.filename.as_slice());
    put_bytes(&mut out, e.argv[0].as_slice());
    put_bytes(&mut out, e.argv[1].as_slice());
    put_bytes(&mut out, e.argv[2].as_slice());
    put_bytes(&mut out, e.argv[3].as_slice());
    assert(out@ =~= spec_encode_execve(*e));
    out
}

/// Reads a program-execution record back from its byte image.
pub fn decode_execve(bytes: &[u8]) -> (r: RawExecveEvent)
    requires
        bytes@.len() == EXECVE_RECORD_BYTES,
    ensures
        r.pid == spec_u32_of_le(bytes@.subrange(0, 4)),
        r.filename@ == bytes@.subrange(4, 68),
        r.argv@[0]@ == bytes@.subrange(68, 100),
        r.argv@[1]@ == bytes@.subrange(100, 132),
        r.argv@[2]@ == bytes@.subrange(132, 164),
        r.argv@[3]@ == bytes@.subrange(164, 196),
{
    RawExecveEvent {
        pid: read_u32_le(bytes, 0),
        filename: read_array_64(bytes, 4),
        argv: [
            read_array_32(bytes, 68),
            read_array_32(bytes, 100),
            read_array_32(bytes, 132),
            read_array_32(bytes, 164),
        ],
    }
}

/// Decoding the byte image of a program-execution record gives the record
/// back: every field of the image equals the field it was written from.
pub proof fn lemma_execve_round_trip(e: RawExecveEvent)
    ensures
        spec_encode_execve(e).len() == EXECVE_RECORD_BYTES,
        spec_u32_of_le(spec_encode_execve(e).subrange(0, 4)) == e.pid,
        spec_encode_execve(e).subrange(4, 68) == e.filename@,
        spec_encode_execve(e).subrange(68, 100) == e.argv@[0]@,
        spec_encode_execve(e).subrange(100, 132) == e.argv@[1]@,
        spec_encode_execve(e).subrange(132, 164) == e.argv@[2]@,
        spec_encode_execve(e).subrange(164, 196) == e.argv@[3]@,
{
    let b = spec_encode_execve(e);
    assert(b.subrange(0, 4) =~= spec_u32_le(e.pid));
    assert(b.subrange(4, 68) =~= e.filename@);
    assert(b.subrange(68, 100) =~= e.argv@[0]@);
    assert(b.subrange(100, 132) =~= e.argv@[1]@);
    assert(b.subrange(132, 164) =~= e.argv@[2]@);
    assert(b.subrange(164, 196) =~= e.argv@[3]@);
    lemma_u32_le_round_trip(e.pid);
}

} // verus!
