//! Tracepoint probe logic. Each probe reads fields out of its hook's
//! context record at explicit offsets, copies text from user memory with a
//! hard length cap, builds one fixed-size record and commits it to its
//! transport channel. A probe never fails the instrumented operation: a
//! failed capped copy leaves the field zeroed, and a full channel drops the
//! record silently.

use vstd::prelude::*;

use crate::channel::{total_bytes, Channel};
use crate::raw::{
    encode_exit, encode_openat, encode_read, encode_read_exit, spec_decode_exit,
    spec_decode_read, spec_decode_read_exit, RawExitEvent, RawOpenatEvent, RawReadEvent,
    RawReadEventExit, SysEnterExitGroupInfo, SysEnterOpenatInfo, SysEnterReadInfo,
    SysExitReadInfo, EXIT_RECORD_BYTES, OPENAT_RECORD_BYTES, READ_EXIT_RECORD_BYTES,
    READ_RECORD_BYTES,
};
use crate::text::first_zero;
use crate::wire::{
    read_i32_le, read_i64_le, read_u16_le, read_u32_le, read_u64_le, spec_i32_le, spec_i32_of_le,
    spec_i64_le, spec_i64_of_le, spec_u16_of_le, spec_u32_le, spec_u32_of_le, spec_u64_le,
    spec_u64_of_le,
};

verus! {

/// The probe object's last-resort failure handler. The restricted kernel
/// execution context cannot unwind, and every probe entry point below is
/// verified never to need this; all a failed activation may observably do
/// is emit nothing and yield the hook's neutral verdict, which is what
/// this models.
pub fn panic() -> (r: u32)
    ensures
        r == 0u32,
{
    0u32
}

/// Byte size of the process-exit hook's context record.
pub const EXIT_CTX_BYTES: usize = 16;

/// Byte size of the read-enter hook's context record.
pub const READ_CTX_BYTES: usize = 40;

/// Byte size of the read-exit hook's context record.
pub const READ_EXIT_CTX_BYTES: usize = 24;

/// Byte size of the file-open hook's context record.
pub const OPENAT_CTX_BYTES: usize = 48;

/// The process id half of the kernel's combined thread-group/process word:
/// its low 32 bits.
pub open spec fn spec_pid_of(tgid_pid: u64) -> u32 {
    (tgid_pid % 0x100000000) as u32
}

/// The thread-group id half of the kernel's combined thread-group/process
/// word: its high 32 bits.
pub open spec fn spec_gid_of(tgid_pid: u64) -> u32 {
    (tgid_pid / 0x100000000) as u32
}

/// Splits the kernel's combined thread-group/process word into the process
/// id (low half) and thread-group id (high half).
pub fn split_tgid_pid(tgid_pid: u64) -> (r: (u32, u32))
    ensures
        r.0 == spec_pid_of(tgid_pid),
        r.1 == spec_gid_of(tgid_pid),
{
    (((tgid_pid % 0x100000000) as u32), ((tgid_pid / 0x100000000) as u32))
}

/// Reads the process-exit hook's context fields at their fixed offsets.
pub fn read_exit_group_info(ctx: &[u8]) -> (r: SysEnterExitGroupInfo)
    requires
        ctx@.len() >= EXIT_CTX_BYTES,
    ensures
        r.common_type == spec_u16_of_le(ctx@.subrange(0, 2)),
        r.common_flags == ctx@[2],
        r.common_preempt_count == ctx@[3],
        r.common_pid == spec_i32_of_le(ctx@.subrange(4, 8)),
        r.syscall_nr == spec_i32_of_le(ctx@.subrange(8, 12)),
        r.error_code == spec_i32_of_le(ctx@.subrange(12, 16)),
{
    SysEnterExitGroupInfo {
        common_type: read_u16_le(ctx, 0),
        common_flags: ctx[2],
        common_preempt_count: ctx[3],
        common_pid: read_i32_le(ctx, 4),
        syscall_nr: read_i32_le(ctx, 8),
        error_code: read_i32_le(ctx, 12),
    }
}

/// Reads the read-enter hook's context fields at their fixed offsets.
pub fn read_read_info(ctx: &[u8]) -> (r: SysEnterReadInfo)
    requires
        ctx@.len() >= READ_CTX_BYTES,
    ensures
        r.common_type == spec_u16_of_le(ctx@.subrange(0, 2)),
        r.common_flags == ctx@[2],
        r.common_preempt_count == ctx@[3],
        r.common_pid == spec_i32_of_le(ctx@.subrange(4, 8)),
        r.syscall_nr == spec_i32_of_le(ctx@.subrange(8, 12)),
        r.padding == spec_u32_of_le(ctx@.subrange(12, 16)),
        r.fd == spec_u64_of_le(ctx@.subrange(16, 24)),
        r.buf == spec_u64_of_le(ctx@.subrange(24, 32)),
        r.count == spec_u64_of_le(ctx@.subrange(32, 40)),
{
    SysEnterReadInfo {
        common_type: read_u16_le(ctx, 0),
        common_flags: ctx[2],
        common_preempt_count: ctx[3],
        common_pid: read_i32_le(ctx, 4),
        syscall_nr: read_i32_le(ctx, 8),
        padding: read_u32_le(ctx, 12),
        fd: read_u64_le(ctx, 16),
        buf: read_u64_le(ctx, 24),
        count: read_u64_le(ctx, 32),
    }
}

/// Reads the read-exit hook's context fields at their fixed offsets.
pub fn read_read_exit_info(ctx: &[u8]) -> (r: SysExitReadInfo)
    requires
        ctx@.len() >= READ_EXIT_CTX_BYTES,
    ensures
        r.common_type == spec_u16_of_le(ctx@.subrange(0, 2)),
        r.common_flags == ctx@[2],
        r.common_preempt_count == ctx@[3],
        r.common_pid == spec_i32_of_le(ctx@.subrange(4, 8)),
        r.syscall_nr == spec_i32_of_le(ctx@.subrange(8, 12)),
        r.padding == spec_u32_of_le(ctx@.subrange(12, 16)),
        r.ret == spec_i64_of_le(ctx@.subrange(16, 24)),
{
    SysExitReadInfo {
        common_type: read_u16_le(ctx, 0),
        common_flags: ctx[2],
        common_preempt_count: ctx[3],
        common_pid: read_i32_le(ctx, 4),
        syscall_nr: read_i32_le(ctx, 8),
        padding: read_u32_le(ctx, 12),
        ret: read_i64_le(ctx, 16),
    }
}

/// Reads the file-open hook's context fields at their fixed offsets.
pub fn read_openat_info(ctx: &[u8]) -> (r: SysEnterOpenatInfo)
    requires
        ctx@.len() >= OPENAT_CTX_BYTES,
    ensures
        r.common_type == spec_u16_of_le(ctx@.subrange(0, 2)),
        r.common_flags == ctx@[2],
        r.common_preempt_count == ctx@[3],
        r.common_pid == spec_i32_of_le(ctx@.subrange(4, 8)),
        r.syscall_nr == spec_i32_of_le(ctx@.subrange(8, 12)),
        r.padding == spec_u32_of_le(ctx@.subrange(12, 16)),
        r.dfd == spec_i64_of_le(ctx@.subrange(16, 24)),
        r.filename == spec_u64_of_le(ctx@.subrange(24, 32)),
        r.flags == spec_i64_of_le(ctx@.subrange(32, 40)),
        r.mode == spec_u64_of_le(ctx@.subrange(40, 48)),
{
    SysEnterOpenatInfo {
        common_type: read_u16_le(ctx, 0),
        common_flags: ctx[2],
        common_preempt_count: ctx[3],
        common_pid: read_i32_le(ctx, 4),
        syscall_nr: read_i32_le(ctx, 8),
        padding: read_u32_le(ctx, 12),
        dfd: read_i64_le(ctx, 16),
        filename: read_u64_le(ctx, 24),
        flags: read_i64_le(ctx, 32),
        mode: read_u64_le(ctx, 40),
    }
}

/// What a capped copy of a zero-terminated user string leaves in a 64-byte
/// field: the source bytes up to the first zero, up to at most 63 of them,
/// and zero everywhere after.
pub open spec fn spec_capped_64(src: Seq<u8>) -> Seq<u8> {
    Seq::new(
        64,
        |i: int|
            if i < first_zero(src) && i < src.len() && i < 63 {
                src[i]
            } else {
                0u8
            },
    )
}

/// An empty 64-byte field: what a failed capped copy leaves behind.
pub open spec fn spec_zero_64() -> Seq<u8> {
    Seq::new(64, |i: int| 0u8)
}

/// Copies a zero-terminated string out of user memory into a fixed 64-byte
/// field. The copy stops at the first zero byte or the cap, whichever comes
/// first, and never reads past either; when the source is unreadable
/// (`None`) the field is left zeroed and the probe carries on.
pub fn capped_read_64(user: Option<&[u8]>) -> (r: [u8; 64])
    ensures
        r@ == (match user {
            Option::Some(src) => spec_capped_64(src@),
            Option::None => spec_zero_64(),
        }),
{
    let mut r: [u8; 64] = [0u8; 64];
    match user {
        Option::None => {
            proof {
                assert(r@ =~= spec_zero_64());
            }
        },
        Option::Some(src) => {
            let n: usize = src.len();
            let mut i: usize = 0;
            while i < 63 && i < n && src[i] != 0
                invariant
                    i <= 63,
                    i <= n,
                    n == src@.len(),
                    r@.len() == 64,
                    forall|j: int| 0 <= j < i ==> r@[j] == src@[j] && src@[j] != 0,
                    forall|j: int| i <= j < 64 ==> r@[j] == 0u8,
                decreases 63 - i,
            {
                r[i] = src[i];
                i = i + 1;
            }
            proof {
                crate::text::lemma_first_zero(src@);
                if first_zero(src@) < i {
                    assert(src@[first_zero(src@)] != 0);
                    assert(false);
                }
                if i < 63 && i < n {
                    assert(src@[i as int] == 0);
                    assert(first_zero(src@) <= i);
                }
                assert(r@ =~= spec_capped_64(src@));
            }
        },
    }
    r
}

/// The byte image of the record the process-exit probe emits for a given
/// context and thread-group/process word.
pub open spec fn spec_exit_record(ctx: Seq<u8>, tgid_pid: u64) -> Seq<u8> {
    spec_u32_le(spec_pid_of(tgid_pid)) + spec_i32_le(spec_i32_of_le(ctx.subrange(12, 16)))
}

/// One activation of the process-exit probe: reads the exit code out of the
/// context, builds the record and commits it, dropping it silently when the
/// channel is full. The instrumented operation is never failed.
pub fn try_stalk_exit_group(ctx: &[u8], tgid_pid: u64, events: &mut Channel) -> (r: Result<
    u32,
    i64,
>)
    requires
        ctx@.len() >= EXIT_CTX_BYTES,
        old(events).wf(),
    ensures
        final(events).wf(),
        final(events).spec_capacity() == old(events).spec_capacity(),
        r == Ok::<u32, i64>(0u32),
        total_bytes(old(events)@) + EXIT_RECORD_BYTES <= old(events).spec_capacity()
            ==> final(events)@ == old(events)@.push(spec_exit_record(ctx@, tgid_pid)),
        total_bytes(old(events)@) + EXIT_RECORD_BYTES > old(events).spec_capacity()
            ==> final(events)@ == old(events)@,
{
    let (pid, _gid) = split_tgid_pid(tgid_pid);
    let exit_info = read_exit_group_info(ctx);
    let event = RawExitEvent { pid, error_code: exit_info.error_code };
    let record = encode_exit(&event);
    let _ = events.submit(record);
    Ok(0u32)
}

/// Probe entry point for process exit; never reports failure to the hook.
pub fn stalk_exit_group(ctx: &[u8], tgid_pid: u64, events: &mut Channel) -> (r: u32)
    requires
        ctx@.len() >= EXIT_CTX_BYTES,
        old(events).wf(),
    ensures
        final(events).wf(),
        final(events).spec_capacity() == old(events).spec_capacity(),
        r == 0u32,
        total_bytes(old(events)@) + EXIT_RECORD_BYTES <= old(events).spec_capacity()
            ==> final(events)@ == old(events)@.push(spec_exit_record(ctx@, tgid_pid)),
        total_bytes(old(events)@) + EXIT_RECORD_BYTES > old(events).spec_capacity()
            ==> final(events)@ == old(events)@,
{
    match try_stalk_exit_group(ctx, tgid_pid, events) {
        Ok(ret) => ret,
        Err(_) => 0u32,
    }
}

/// The byte image of the record the read-enter probe emits.
pub open spec fn spec_read_record(ctx: Seq<u8>, tgid_pid: u64) -> Seq<u8> {
    spec_u32_le(spec_pid_of(tgid_pid)) + spec_u32_le(spec_gid_of(tgid_pid)) + spec_u64_le(
        spec_u64_of_le(ctx.subrange(16, 24)),
    ) + spec_u64_le(spec_u64_of_le(ctx.subrange(32, 40)))
}

/// One activation of the read-enter probe: reads the file descriptor and
/// requested byte count out of the context, builds the record and commits
/// it, dropping it silently when the channel is full.
pub fn try_stalk_read(ctx: &[u8], tgid_pid: u64, events: &mut Channel) -> (r: Result<u32, u32>)
    requires
        ctx@.len() >= READ_CTX_BYTES,
        old(events).wf(),
    ensures
        final(events).wf(),
        final(events).spec_capacity() == old(events).spec_capacity(),
        r == Ok::<u32, u32>(0u32),
        total_bytes(old(events)@) + READ_RECORD_BYTES <= old(events).spec_capacity()
            ==> final(events)@ == old(events)@.push(spec_read_record(ctx@, tgid_pid)),
        total_bytes(old(events)@) + READ_RECORD_BYTES > old(events).spec_capacity()
            ==> final(events)@ == old(events)@,
{
    let (pid, gid) = split_tgid_pid(tgid_pid);
    let read_info = read_read_info(ctx);
    let event = RawReadEvent { pid, gid, fd: read_info.fd, count: read_info.count };
    let record = encode_read(&event);
    let _ = events.submit(record);
    Ok(0u32)
}

/// Probe entry point for read entry; never reports failure to the hook.
pub fn stalk_read(ctx: &[u8], tgid_pid: u64, events: &mut Channel) -> (r: u32)
    requires
        ctx@.len() >= READ_CTX_BYTES,
        old(events).wf(),
    ensures
        final(events).wf(),
        final(events).spec_capacity() == old(events).spec_capacity(),
        r == 0u32,
        total_bytes(old(events)@) + READ_RECORD_BYTES <= old(events).spec_capacity()
            ==> final(events)@ == old(events)@.push(spec_read_record(ctx@, tgid_pid)),
        total_bytes(old(events)@) + READ_RECORD_BYTES > old(events).spec_capacity()
            ==> final(events)@ == old(events)@,
{
    match try_stalk_read(ctx, tgid_pid, events) {
        Ok(ret) => ret,
        Err(ret) => ret,
    }
}

/// The byte image of the record the read-exit probe emits.
pub open spec fn spec_read_exit_record(ctx: Seq<u8>, tgid_pid: u64) -> Seq<u8> {
    spec_u32_le(spec_pid_of(tgid_pid)) + spec_u32_le(spec_gid_of(tgid_pid)) + spec_i64_le(
        spec_i64_of_le(ctx.subrange(16, 24)),
    )
}

/// One activation of the read-exit probe: reads the syscall's return value
/// out of the context, builds the record and commits it, dropping it
/// silently when the channel is full.
pub fn try_stalk_read_exit(ctx: &[u8], tgid_pid: u64, events: &mut Channel) -> (r: Result<
    u32,
    u32,
>)
    requires
        ctx@.len() >= READ_EXIT_CTX_BYTES,
        old(events).wf(),
    ensures
        final(events).wf(),
        final(events).spec_capacity() == old(events).spec_capacity(),
        r == Ok::<u32, u32>(0u32),
        total_bytes(old(events)@) + READ_EXIT_RECORD_BYTES <= old(events).spec_capacity()
            ==> final(events)@ == old(events)@.push(spec_read_exit_record(ctx@, tgid_pid)),
        total_bytes(old(events)@) + READ_EXIT_RECORD_BYTES > old(events).spec_capacity()
            ==> final(events)@ == old(events)@,
{
    let (pid, gid) = split_tgid_pid(tgid_pid);
    let read_info = read_read_exit_info(ctx);
    let event = RawReadEventExit { pid, gid, ret: read_info.ret };
    let record = encode_read_exit(&event);
    let _ = events.submit(record);
    Ok(0u32)
}

/// Probe entry point for read exit; never reports failure to the hook.
pub fn stalk_read_exit(ctx: &[u8], tgid_pid: u64, events: &mut Channel) -> (r: u32)
    requires
        ctx@.len() >= READ_EXIT_CTX_BYTES,
        old(events).wf(),
    ensures
        final(events).wf(),
        final(events).spec_capacity() == old(events).spec_capacity(),
        r == 0u32,
        total_bytes(old(events)@) + READ_EXIT_RECORD_BYTES <= old(events).spec_capacity()
            ==> final(events)@ == old(events)@.push(spec_read_exit_record(ctx@, tgid_pid)),
        total_bytes(old(events)@) + READ_EXIT_RECORD_BYTES > old(events).spec_capacity()
            ==> final(events)@ == old(events)@,
{
    match try_stalk_read_exit(ctx, tgid_pid, events) {
        Ok(ret) => ret,
        Err(ret) => ret,
    }
}

/// The byte image of the record the file-open probe emits, given the capped
/// copy of the filename that the probe obtained.
pub open spec fn spec_openat_record(ctx: Seq<u8>, tgid_pid: u64, name: Seq<u8>) -> Seq<u8> {
    spec_u32_le(spec_pid_of(tgid_pid)) + spec_u32_le(spec_gid_of(tgid_pid)) + name + spec_i64_le(
        spec_i64_of_le(ctx.subrange(32, 40)),
    ) + spec_u64_le(spec_u64_of_le(ctx.subrange(40, 48)))
}

/// The capped filename copy a probe activation obtains: the user bytes at
/// the filename pointer when they are readable, a zeroed field otherwise.
pub open spec fn spec_openat_name(user_filename: Option<&[u8]>) -> Seq<u8> {
    match user_filename {
        Option::Some(src) => spec_capped_64(src@),
        Option::None => spec_zero_64(),
    }
}

/// One activation of the file-open probe: reads flags and mode out of the
/// context, copies the filename from user memory under the 64-byte cap
/// (leaving the field zeroed when the copy fails), builds the record and
/// commits it, dropping it silently when the channel is full.
pub fn try_stalk_openat(
    ctx: &[u8],
    tgid_pid: u64,
    user_filename: Option<&[u8]>,
    events: &mut Channel,
) -> (r: Result<u32, u32>)
    requires
        ctx@.len() >= OPENAT_CTX_BYTES,
        old(events).wf(),
    ensures
        final(events).wf(),
        final(events).spec_capacity() == old(events).spec_capacity(),
        r == Ok::<u32, u32>(0u32),
        total_bytes(old(events)@) + OPENAT_RECORD_BYTES <= old(events).spec_capacity()
            ==> final(events)@ == old(events)@.push(
            spec_openat_record(ctx@, tgid_pid, spec_openat_name(user_filename)),
        ),
        total_bytes(old(events)@) + OPENAT_RECORD_BYTES > old(events).spec_capacity()
            ==> final(events)@ == old(events)@,
{
    let (pid, gid) = split_tgid_pid(tgid_pid);
    let openat_info = read_openat_info(ctx);
    let filename = capped_read_64(user_filename);
    let event = RawOpenatEvent {
        pid,
        gid,
        filename,
        flags: openat_info.flags,
        mode: openat_info.mode,
    };
    let record = encode_openat(&event);
    let _ = events.submit(record);
    Ok(0u32)
}

/// Probe entry point for file open; never reports failure to the hook.
pub fn stalk_openat(
    ctx: &[u8],
    tgid_pid: u64,
    user_filename: Option<&[u8]>,
    events: &mut Channel,
) -> (r: u32)
    requires
        ctx@.len() >= OPENAT_CTX_BYTES,
        old(events).wf(),
    ensures
        final(events).wf(),
        final(events).spec_capacity() == old(events).spec_capacity(),
        r == 0u32,
        total_bytes(old(events)@) + OPENAT_RECORD_BYTES <= old(events).spec_capacity()
            ==> final(events)@ == old(events)@.push(
            spec_openat_record(ctx@, tgid_pid, spec_openat_name(user_filename)),
        ),
        total_bytes(old(events)@) + OPENAT_RECORD_BYTES > old(events).spec_capacity()
            ==> final(events)@ == old(events)@,
{
    match try_stalk_openat(ctx, tgid_pid, user_filename, events) {
        Ok(ret) => ret,
        Err(ret) => ret,
    }
}

/// What the process-exit probe commits decodes back to exactly what it
/// read: the process id from the kernel's combined word and the exit code
/// from the context record.
pub proof fn lemma_exit_record_decodes(ctx: Seq<u8>, tgid_pid: u64)
    ensures
        spec_exit_record(ctx, tgid_pid).len() == EXIT_RECORD_BYTES,
        spec_decode_exit(spec_exit_record(ctx, tgid_pid)) == (RawExitEvent {
            pid: spec_pid_of(tgid_pid),
            error_code: spec_i32_of_le(ctx.subrange(12, 16)),
        }),
{
    crate::raw::lemma_exit_round_trip(
        RawExitEvent {
            pid: spec_pid_of(tgid_pid),
            error_code: spec_i32_of_le(ctx.subrange(12, 16)),
        },
    );
}

/// What the read-enter probe commits decodes back to exactly what it read:
/// the process identity and the context's file descriptor and byte count.
#[verifier::rlimit(50)]
pub proof fn lemma_read_record_decodes(ctx: Seq<u8>, tgid_pid: u64)
    ensures
        spec_read_record(ctx, tgid_pid).len() == READ_RECORD_BYTES,
        spec_decode_read(spec_read_record(ctx, tgid_pid)) == (RawReadEvent {
            pid: spec_pid_of(tgid_pid),
            gid: spec_gid_of(tgid_pid),
            fd: spec_u64_of_le(ctx.subrange(16, 24)),
            count: spec_u64_of_le(ctx.subrange(32, 40)),
        }),
{
    let e = RawReadEvent {
        pid: spec_pid_of(tgid_pid),
        gid: spec_gid_of(tgid_pid),
        fd: spec_u64_of_le(ctx.subrange(16, 24)),
        count: spec_u64_of_le(ctx.subrange(32, 40)),
    };
    assert(spec_read_record(ctx, tgid_pid) == crate::raw::spec_encode_read(e));
    crate::raw::lemma_read_round_trip(e);
}

/// What the read-exit probe commits decodes back to exactly what it read:
/// the process identity and the syscall's return value.
pub proof fn lemma_read_exit_record_decodes(ctx: Seq<u8>, tgid_pid: u64)
    ensures
        spec_read_exit_record(ctx, tgid_pid).len() == READ_EXIT_RECORD_BYTES,
        spec_decode_read_exit(spec_read_exit_record(ctx, tgid_pid)) == (RawReadEventExit {
            pid: spec_pid_of(tgid_pid),
            gid: spec_gid_of(tgid_pid),
            ret: spec_i64_of_le(ctx.subrange(16, 24)),
        }),
{
    crate::raw::lemma_read_exit_round_trip(
        RawReadEventExit {
            pid: spec_pid_of(tgid_pid),
            gid: spec_gid_of(tgid_pid),
            ret: spec_i64_of_le(ctx.subrange(16, 24)),
        },
    );
}

/// What the file-open probe commits decodes back to exactly what it read
/// and copied: the process identity, the capped filename copy, and the
/// context's flags and mode.
pub proof fn lemma_openat_record_decodes(ctx: Seq<u8>, tgid_pid: u64, name: Seq<u8>)
    requires
        name.len() == 64,
    ensures
        spec_openat_record(ctx, tgid_pid, name).len() == OPENAT_RECORD_BYTES,
        spec_u32_of_le(spec_openat_record(ctx, tgid_pid, name).subrange(0, 4)) == spec_pid_of(
            tgid_pid,
        ),
        spec_u32_of_le(spec_openat_record(ctx, tgid_pid, name).subrange(4, 8)) == spec_gid_of(
            tgid_pid,
        ),
        spec_openat_record(ctx, tgid_pid, name).subrange(8, 72) == name,
        spec_i64_of_le(spec_openat_record(ctx, tgid_pid, name).subrange(72, 80))
            == spec_i64_of_le(ctx.subrange(32, 40)),
        spec_u64_of_le(spec_openat_record(ctx, tgid_pid, name).subrange(80, 88))
            == spec_u64_of_le(ctx.subrange(40, 48)),
{
    let b = spec_openat_record(ctx, tgid_pid, name);
    assert(b.subrange(0, 4) =~= spec_u32_le(spec_pid_of(tgid_pid)));
    assert(b.subrange(4, 8) =~= spec_u32_le(spec_gid_of(tgid_pid)));
    assert(b.subrange(8, 72) =~= name);
    assert(b.subrange(72, 80) =~= spec_i64_le(spec_i64_of_le(ctx.subrange(32, 40))));
    assert(b.subrange(80, 88) =~= spec_u64_le(spec_u64_of_le(ctx.subrange(40, 48))));
    crate::wire::lemma_u32_le_round_trip(spec_pid_of(tgid_pid));
    crate::wire::lemma_u32_le_round_trip(spec_gid_of(tgid_pid));
    crate::wire::lemma_i64_le_round_trip(spec_i64_of_le(ctx.subrange(32, 40)));
    crate::wire::lemma_u64_le_round_trip(spec_u64_of_le(ctx.subrange(40, 48)));
}

} // verus!
