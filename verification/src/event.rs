//! Decoded domain events: the owned form of a raw record. Text fields are
//! truncated at the first zero byte, empty argument slots are omitted,
//! numeric fields are converted to host-natural units, and a caller-supplied
//! decode-time timestamp (microseconds) is attached — the kernel supplies no
//! wall-clock correlation, so elapsed time is measured from user-space
//! arrival.

use vstd::prelude::*;

use crate::raw::{RawExecveEvent, RawExitEvent, RawOpenatEvent, RawReadEvent, RawXdpEvent};
use crate::render::{
    render_args, spec_args, spec_decimal, u64_to_string,
};
use crate::text::{decode_text, first_zero, spec_text};
use crate::wire::{spec_u32_be, u32_to_be};

verus! {

/// A decoded program-execution event.
pub struct ExecveEvent {
    pub pid: u32,
    pub filename: String,
    pub argv: Vec<String>,
    pub start_time: u64,
}

/// A decoded process-exit event.
pub struct ExitEvent {
    pub pid: u32,
    pub exit_code: u64,
    pub start_time: u64,
}

/// A decoded read operation. `start_time` is attached when the begin-event
/// is decoded; `end_time` is filled in by the correlator when the matching
/// end-event arrives.
pub struct ReadEvent {
    pub pid: u32,
    pub gid: u32,
    pub fd: u64,
    pub count: u64,
    pub start_time: u64,
    pub end_time: Option<u64>,
}

/// A decoded file-open event.
pub struct OpenatEvent {
    pub pid: u32,
    pub filename: String,
    pub flags: u64,
    pub mode: u32,
    pub start_time: u64,
}

/// A decoded network event: the packet's 4-tuple with the addresses split
/// back into their four display octets.
pub struct XdpEvent {
    pub pid: u32,
    pub source_addr: [u8; 4],
    pub dest_addr: [u8; 4],
    pub source_port: u16,
    pub dest_port: u16,
    pub start_time: u64,
}

/// The tagged union of all decoded events; every downstream dispatch
/// matches on this tag.
pub enum StalkEvent {
    Execve(ExecveEvent),
    Exit(ExitEvent),
    Read(ReadEvent),
    Openat(OpenatEvent),
    Xdp(XdpEvent),
}

/// The decoded argument list of a sequence of fixed-size argument slots:
/// slots whose first byte is zero decode to nothing and are omitted; the
/// others decode as zero-terminated text, keeping their relative order.
pub open spec fn spec_argv(slots: Seq<Seq<u8>>) -> Seq<Seq<char>>
    decreases slots.len(),
{
    if slots.len() == 0 {
        Seq::empty()
    } else {
        let rest = spec_argv(slots.drop_last());
        if first_zero(slots.last()) == 0 {
            rest
        } else {
            rest.push(spec_text(slots.last()))
        }
    }
}

/// The decoded argument list keeps exactly the non-empty slots, in order:
/// it is the sequence of slots with the empty ones filtered out, each
/// decoded as zero-terminated text.
pub proof fn lemma_argv_filters_empty_slots(slots: Seq<Seq<u8>>)
    ensures
        spec_argv(slots) == slots.filter(|s: Seq<u8>| first_zero(s) != 0).map_values(
            |s: Seq<u8>| spec_text(s),
        ),
    decreases slots.len(),
{
    reveal(Seq::filter);
    if slots.len() == 0 {
        assert(spec_argv(slots) =~= slots.filter(|s: Seq<u8>| first_zero(s) != 0).map_values(
            |s: Seq<u8>| spec_text(s),
        ));
    } else {
        lemma_argv_filters_empty_slots(slots.drop_last());
        assert(spec_argv(slots) =~= slots.filter(|s: Seq<u8>| first_zero(s) != 0).map_values(
            |s: Seq<u8>| spec_text(s),
        ));
    }
}

/// The slot views of a raw execution record's argument array.
pub open spec fn spec_argv_slots(raw: RawExecveEvent) -> Seq<Seq<u8>> {
    raw.argv@.map_values(|a: [u8; 32]| a@)
}

/// Decodes the argument slots of a raw execution record: empty slots are
/// omitted, the relative order of the rest is preserved.
pub fn decode_argv(raw: &RawExecveEvent) -> (r: Vec<String>)
    ensures
        r@.map_values(|s: String| s@) == spec_argv(spec_argv_slots(*raw)),
{
    let ghost slots = spec_argv_slots(*raw);
    let mut argv_vec: Vec<String> = Vec::new();
    let mut i: usize = 0;
    while i < 4
        invariant
            i <= 4,
            slots == spec_argv_slots(*raw),
            slots.len() == 4,
            argv_vec@.map_values(|s: String| s@) == spec_argv(slots.take(i as int)),
        decreases 4 - i,
    {
        proof {
            assert(slots.take(i + 1).drop_last() =~= slots.take(i as int));
            assert(slots.take(i + 1).last() == slots[i as int]);
            assert(slots[i as int] == raw.argv@[i as int]@);
            assert(slots[i as int].len() == 32);
            crate::text::lemma_first_zero(slots[i as int]);
        }
        if raw.argv[i][0] != 0 {
            let arg: String = decode_text(raw.argv[i].as_slice());
            argv_vec.push(arg);
            proof {
                assert(first_zero(slots[i as int]) != 0);
                assert(argv_vec@.map_values(|s: String| s@) =~= spec_argv(slots.take(i + 1)));
            }
        } else {
            proof {
                assert(first_zero(slots[i as int]) == 0);
                assert(argv_vec@.map_values(|s: String| s@) =~= spec_argv(slots.take(i + 1)));
            }
        }
        i = i + 1;
    }
    proof {
        assert(slots.take(4) =~= slots);
    }
    argv_vec
}

impl ExecveEvent {
    /// Decodes a raw execution record, attaching the decode-time timestamp.
    pub fn from_raw(raw: &RawExecveEvent, now: u64) -> (r: ExecveEvent)
        ensures
            r.pid == raw.pid,
            r.filename@ == spec_text(raw.filename@),
            r.argv@.map_values(|s: String| s@) == spec_argv(spec_argv_slots(*raw)),
            r.start_time == now,
    {
        ExecveEvent {
            pid: raw.pid,
            filename: decode_text(raw.filename.as_slice()),
            argv: decode_argv(raw),
            start_time: now,
        }
    }

    /// The process id the event belongs to.
    pub fn pid(&self) -> (r: u32)
        ensures
            r == self.pid,
    {
        self.pid
    }

    /// The decode-time timestamp attached to the event.
    pub fn start_time(&self) -> (r: u64)
        ensures
            r == self.start_time,
    {
        self.start_time
    }

    /// The event's log line.
    pub fn render(&self) -> (r: String)
        ensures
            r@ == spec_render_execve(*self),
    {
        let mut s: String = String::new();
        s.append("ExecveEvent { pid: ");
        let pid_text: String = u64_to_string(self.pid as u64);
        s.append(pid_text.as_str());
        s.append(", filename: ");
        s.append(self.filename.as_str());
        s.append(", argv: ");
        let args_text: String = render_args(&self.argv);
        s.append(args_text.as_str());
        s.append(" }");
        assert(s@ =~= spec_render_execve(*self));
        s
    }
}

/// The log line of a program-execution event.
pub open spec fn spec_render_execve(e: ExecveEvent) -> Seq<char> {
    "ExecveEvent { pid: "@ + spec_decimal(e.pid as u64) + ", filename: "@ + e.filename@
        + ", argv: "@ + spec_args(e.argv@.map_values(|s: String| s@)) + " }"@
}

impl ExitEvent {
    /// Decodes a raw process-exit record, attaching the decode-time
    /// timestamp. The exit code is widened to a host-natural word.
    pub fn from_raw(raw: &RawExitEvent, now: u64) -> (r: ExitEvent)
        ensures
            r.pid == raw.pid,
            r.exit_code == raw.error_code as u64,
            r.start_time == now,
    {
        ExitEvent { pid: raw.pid, exit_code: raw.error_code as u64, start_time: now }
    }

    /// The process id the event belongs to.
    pub fn pid(&self) -> (r: u32)
        ensures
            r == self.pid,
    {
        self.pid
    }

    /// The decode-time timestamp attached to the event.
    pub fn start_time(&self) -> (r: u64)
        ensures
            r == self.start_time,
    {
        self.start_time
    }

    /// The event's log line.
    pub fn render(&self) -> (r: String)
        ensures
            r@ == spec_render_exit(*self),
    {
        let mut s: String = String::new();
        s.append("ExitEvent { pid: ");
        let pid_text: String = u64_to_string(self.pid as u64);
        s.append(pid_text.as_str());
        s.append(", exit_code: ");
        let code_text: String = u64_to_string(self.exit_code);
        s.append(code_text.as_str());
        s.append(" }");
        assert(s@ =~= spec_render_exit(*self));
        s
    }
}

/// The log line of a process-exit event.
pub open spec fn spec_render_exit(e: ExitEvent) -> Seq<char> {
    "ExitEvent { pid: "@ + spec_decimal(e.pid as u64) + ", exit_code: "@ + spec_decimal(
        e.exit_code,
    ) + " }"@
}

impl ReadEvent {
    /// Decodes a raw read-enter record, attaching the decode-time timestamp
    /// as the operation's start; the end is not known yet.
    pub fn from_raw(raw: &RawReadEvent, now: u64) -> (r: ReadEvent)
        ensures
            r.pid == raw.pid,
            r.gid == raw.gid,
            r.fd == raw.fd,
            r.count == raw.count,
            r.start_time == now,
            r.end_time is None,
    {
        ReadEvent {
            pid: raw.pid,
            gid: raw.gid,
            fd: raw.fd,
            count: raw.count,
            start_time: now,
            end_time: None,
        }
    }

    /// The process id the event belongs to.
    pub fn pid(&self) -> (r: u32)
        ensures
            r == self.pid,
    {
        self.pid
    }

    /// The decode-time timestamp attached to the event.
    pub fn start_time(&self) -> (r: u64)
        ensures
            r == self.start_time,
    {
        self.start_time
    }

    /// The event's log line.
    pub fn render(&self) -> (r: String)
        ensures
            r@ == spec_render_read(*self),
    {
        let mut s: String = String::new();
        s.append("ReadEvent { pid: ");
        let pid_text: String = u64_to_string(self.pid as u64);
        s.append(pid_text.as_str());
        s.append(", fd: ");
        let fd_text: String = u64_to_string(self.fd);
        s.append(fd_text.as_str());
        s.append(", count: ");
        let count_text: String = u64_to_string(self.count);
        s.append(count_text.as_str());
        s.append(" }");
        assert(s@ =~= spec_render_read(*self));
        s
    }
}

/// The log line of a read event.
pub open spec fn spec_render_read(e: ReadEvent) -> Seq<char> {
    "ReadEvent { pid: "@ + spec_decimal(e.pid as u64) + ", fd: "@ + spec_decimal(e.fd)
        + ", count: "@ + spec_decimal(e.count) + " }"@
}

impl OpenatEvent {
    /// Decodes a raw file-open record, attaching the decode-time timestamp.
    /// Flags and mode are converted to host-natural widths.
    pub fn from_raw(raw: &RawOpenatEvent, now: u64) -> (r: OpenatEvent)
        ensures
            r.pid == raw.pid,
            r.filename@ == spec_text(raw.filename@),
            r.flags == raw.flags as u64,
            r.mode == raw.mode as u32,
            r.start_time == now,
    {
        OpenatEvent {
            pid: raw.pid,
            filename: decode_text(raw.filename.as_slice()),
            flags: raw.flags as u64,
            mode: raw.mode as u32,
            start_time: now,
        }
    }

    /// The process id the event belongs to.
    pub fn pid(&self) -> (r: u32)
        ensures
            r == self.pid,
    {
        self.pid
    }

    /// The decode-time timestamp attached to the event.
    pub fn start_time(&self) -> (r: u64)
        ensures
            r == self.start_time,
    {
        self.start_time
    }

    /// The event's log line.
    pub fn render(&self) -> (r: String)
        ensures
            r@ == spec_render_openat(*self),
    {
        let mut s: String = String::new();
        s.append("OpenatEvent { pid: ");
        let pid_text: String = u64_to_string(self.pid as u64);
        s.append(pid_text.as_str());
        s.append(", filename: ");
        s.append(self.filename.as_str());
        s.append(", flags: ");
        let flags_text: String = u64_to_string(self.flags);
        s.append(flags_text.as_str());
        s.append(", mode: ");
        let mode_text: String = u64_to_string(self.mode as u64);
        s.append(mode_text.as_str());
        s.append(" }");
        assert(s@ =~= spec_render_openat(*self));
        s
    }
}

/// The log line of a file-open event.
pub open spec fn spec_render_openat(e: OpenatEvent) -> Seq<char> {
    "OpenatEvent { pid: "@ + spec_decimal(e.pid as u64) + ", filename: "@ + e.filename@
        + ", flags: "@ + spec_decimal(e.flags) + ", mode: "@ + spec_decimal(e.mode as u64)
        + " }"@
}

/// The display form of an address: its four octets in decimal, separated
/// by dots.
pub open spec fn spec_render_addr(a: Seq<u8>) -> Seq<char>
    recommends
        a.len() == 4,
{
    spec_decimal(a[0] as u64) + seq!['.'] + spec_decimal(a[1] as u64) + seq!['.'] + spec_decimal(
        a[2] as u64,
    ) + seq!['.'] + spec_decimal(a[3] as u64)
}

/// Renders an address as four dot-separated decimal octets.
pub fn render_addr(a: &[u8; 4]) -> (r: String)
    ensures
        r@ == spec_render_addr(a@),
{
    let mut s: String = u64_to_string(a[0] as u64);
    s.push('.');
    let o1: String = u64_to_string(a[1] as u64);
    s.append(o1.as_str());
    s.push('.');
    let o2: String = u64_to_string(a[2] as u64);
    s.append(o2.as_str());
    s.push('.');
    let o3: String = u64_to_string(a[3] as u64);
    s.append(o3.as_str());
    assert(s@ =~= spec_render_addr(a@));
    s
}

impl XdpEvent {
    /// Decodes a raw network record, attaching the decode-time timestamp.
    /// The 32-bit addresses are split back into their four network-order
    /// display octets.
    pub fn from_raw(raw: &RawXdpEvent, now: u64) -> (r: XdpEvent)
        ensures
            r.pid == raw.pid,
            r.source_addr@ == spec_u32_be(raw.source_addr),
            r.dest_addr@ == spec_u32_be(raw.dest_addr),
            r.source_port == raw.source_port,
            r.dest_port == raw.dest_port,
            r.start_time == now,
    {
        XdpEvent {
            pid: raw.pid,
            source_addr: u32_to_be(raw.source_addr),
            dest_addr: u32_to_be(raw.dest_addr),
            source_port: raw.source_port,
            dest_port: raw.dest_port,
            start_time: now,
        }
    }

    /// The process id the event belongs to.
    pub fn pid(&self) -> (r: u32)
        ensures
            r == self.pid,
    {
        self.pid
    }

    /// The decode-time timestamp attached to the event.
    pub fn start_time(&self) -> (r: u64)
        ensures
            r == self.start_time,
    {
        self.start_time
    }

    /// The event's log line.
    pub fn render(&self) -> (r: String)
        ensures
            r@ == spec_render_xdp(*self),
    {
        let mut s: String = String::new();
        s.append("XdpEvent { source_addr: ");
        let src_text: String = render_addr(&self.source_addr);
        s.append(src_text.as_str());
        s.append(", dest_addr: ");
        let dst_text: String = render_addr(&self.dest_addr);
        s.append(dst_text.as_str());
        s.append(", source_port: ");
        let sp_text: String = u64_to_string(self.source_port as u64);
        s.append(sp_text.as_str());
        s.append(", dest_port: ");
        let dp_text: String = u64_to_string(self.dest_port as u64);
        s.append(dp_text.as_str());
        s.append(" }");
        assert(s@ =~= spec_render_xdp(*self));
        s
    }
}

/// The log line of a network event.
pub open spec fn spec_render_xdp(e: XdpEvent) -> Seq<char> {
    "XdpEvent { source_addr: "@ + spec_render_addr(e.source_addr@) + ", dest_addr: "@
        + spec_render_addr(e.dest_addr@) + ", source_port: "@ + spec_decimal(
        e.source_port as u64,
    ) + ", dest_port: "@ + spec_decimal(e.dest_port as u64) + " }"@
}

} // verus!
