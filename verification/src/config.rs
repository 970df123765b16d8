//! Configuration: which probes to run and where to serve. Each enabled
//! item spawns exactly one pipeline (the read tracer spawns two, one per
//! side of the operation); the plan function fixes the program, hook and
//! channel names each pipeline uses.

use vstd::prelude::*;

verus! {

/// Command-line arguments: the path of the configuration file.
pub struct Cli {
    pub config_file: String,
}

/// The configuration: the ordered list of enabled items and the serving
/// port. Duplicate items attach the same probe twice and are not handled
/// specially.
pub struct StalkConfig {
    pub items: Vec<StalkItem>,
    pub port: u16,
}

/// One enabled probe item. The network tracer names the interface it
/// attaches to.
pub enum StalkItem {
    Execve,
    Exit,
    Openat,
    Read,
    Net(String),
}

/// Where one pipeline attaches: a program name in the probe object, the
/// hook it binds to (tracepoint category and name, or the network
/// interface), and the transport channel it drains.
pub struct PipelinePlan {
    pub program: String,
    pub attach_category: String,
    pub attach_name: String,
    pub channel: String,
    pub is_xdp: bool,
}

/// The pipelines one configured item spawns: one per tracepoint item, two
/// for the read tracer (enter and exit side), one network pipeline bound
/// to the named interface.
pub fn pipeline_plans(item: &StalkItem) -> (r: Vec<PipelinePlan>)
    ensures
        (match item {
            StalkItem::Execve => {
                &&& r@.len() == 1
                &&& r@[0].program@ == "stalk_execve"@
                &&& r@[0].attach_category@ == "syscalls"@
                &&& r@[0].attach_name@ == "sys_enter_execve"@
                &&& r@[0].channel@ == "EXECVE_EVENTS"@
                &&& !r@[0].is_xdp
            },
            StalkItem::Exit => {
                &&& r@.len() == 1
                &&& r@[0].program@ == "stalk_exit_group"@
                &&& r@[0].attach_category@ == "syscalls"@
                &&& r@[0].attach_name@ == "sys_enter_exit_group"@
                &&& r@[0].channel@ == "TRACEPOINT_EXIT_EVENTS"@
                &&& !r@[0].is_xdp
            },
            StalkItem::Openat => {
                &&& r@.len() == 1
                &&& r@[0].program@ == "stalk_openat"@
                &&& r@[0].attach_category@ == "syscalls"@
                &&& r@[0].attach_name@ == "sys_enter_openat"@
                &&& r@[0].channel@ == "OPENAT_EVENTS"@
                &&& !r@[0].is_xdp
            },
            StalkItem::Read => {
                &&& r@.len() == 2
                &&& r@[0].program@ == "stalk_read"@
                &&& r@[0].attach_category@ == "syscalls"@
                &&& r@[0].attach_name@ == "sys_enter_read"@
                &&& r@[0].channel@ == "READ_EVENTS"@
                &&& !r@[0].is_xdp
                &&& r@[1].program@ == "stalk_read_exit"@
                &&& r@[1].attach_category@ == "syscalls"@
                &&& r@[1].attach_name@ == "sys_exit_read"@
                &&& r@[1].channel@ == "READ_EXIT_EVENTS"@
                &&& !r@[1].is_xdp
            },
            StalkItem::Net(interface) => {
                &&& r@.len() == 1
                &&& r@[0].program@ == "stalk_xdp"@
                &&& r@[0].attach_category@.len() == 0
                &&& r@[0].attach_name@ == interface@
                &&& r@[0].channel@ == "XDP_EVENTS"@
                &&& r@[0].is_xdp
            },
        }),
{
    let mut plans: Vec<PipelinePlan> = Vec::new();
    match item {
        StalkItem::Execve => {
            plans.push(
                PipelinePlan {
                    program: String::from_str("stalk_execve"),
                    attach_category: String::from_str("syscalls"),
                    attach_name: String::from_str("sys_enter_execve"),
                    channel: String::from_str("EXECVE_EVENTS"),
                    is_xdp: false,
                },
            );
        },
        StalkItem::Exit => {
            plans.push(
                PipelinePlan {
                    program: String::from_str("stalk_exit_group"),
                    attach_category: String::from_str("syscalls"),
                    attach_name: String::from_str("sys_enter_exit_group"),
                    channel: String::from_str("TRACEPOINT_EXIT_EVENTS"),
                    is_xdp: false,
                },
            );
        },
        StalkItem::Openat => {
            plans.push(
                PipelinePlan {
                    program: String::from_str("stalk_openat"),
                    attach_category: String::from_str("syscalls"),
                    attach_name: String::from_str("sys_enter_openat"),
                    channel: String::from_str("OPENAT_EVENTS"),
                    is_xdp: false,
                },
            );
        },
        StalkItem::Read => {
            plans.push(
                PipelinePlan {
                    program: String::from_str("stalk_read"),
                    attach_category: String::from_str("syscalls"),
                    attach_name: String::from_str("sys_enter_read"),
                    channel: String::from_str("READ_EVENTS"),
                    is_xdp: false,
                },
            );
            plans.push(
                PipelinePlan {
                    program: String::from_str("stalk_read_exit"),
                    attach_category: String::from_str("syscalls"),
                    attach_name: String::from_str("sys_exit_read"),
                    channel: String::from_str("READ_EXIT_EVENTS"),
                    is_xdp: false,
                },
            );
        },
        StalkItem::Net(interface) => {
            let name: String = String::from_str(interface.as_str());
            plans.push(
                PipelinePlan {
                    program: String::from_str("stalk_xdp"),
                    attach_category: String::new(),
                    attach_name: name,
                    channel: String::from_str("XDP_EVENTS"),
                    is_xdp: true,
                },
            );
        },
    }
    plans
}

} // verus!
