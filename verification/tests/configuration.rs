use stalk::config::{pipeline_plans, StalkConfig, StalkItem};

#[test]
fn each_tracepoint_item_spawns_one_pipeline() {
    let execve = pipeline_plans(&StalkItem::Execve);
    assert_eq!(execve.len(), 1);
    assert_eq!(execve[0].program, "stalk_execve");
    assert_eq!(execve[0].attach_category, "syscalls");
    assert_eq!(execve[0].attach_name, "sys_enter_execve");
    assert_eq!(execve[0].channel, "EXECVE_EVENTS");
    assert!(!execve[0].is_xdp);

    let exit = pipeline_plans(&StalkItem::Exit);
    assert_eq!(exit.len(), 1);
    assert_eq!(exit[0].program, "stalk_exit_group");
    assert_eq!(exit[0].attach_name, "sys_enter_exit_group");
    assert_eq!(exit[0].channel, "TRACEPOINT_EXIT_EVENTS");

    let openat = pipeline_plans(&StalkItem::Openat);
    assert_eq!(openat.len(), 1);
    assert_eq!(openat[0].program, "stalk_openat");
    assert_eq!(openat[0].attach_name, "sys_enter_openat");
    assert_eq!(openat[0].channel, "OPENAT_EVENTS");
}

#[test]
fn read_item_spawns_both_sides() {
    let read = pipeline_plans(&StalkItem::Read);
    assert_eq!(read.len(), 2);
    assert_eq!(read[0].program, "stalk_read");
    assert_eq!(read[0].attach_name, "sys_enter_read");
    assert_eq!(read[0].channel, "READ_EVENTS");
    assert_eq!(read[1].program, "stalk_read_exit");
    assert_eq!(read[1].attach_name, "sys_exit_read");
    assert_eq!(read[1].channel, "READ_EXIT_EVENTS");
}

#[test]
fn network_item_binds_to_its_interface() {
    let net = pipeline_plans(&StalkItem::Net("eth2".to_string()));
    assert_eq!(net.len(), 1);
    assert_eq!(net[0].program, "stalk_xdp");
    assert_eq!(net[0].attach_name, "eth2");
    assert_eq!(net[0].channel, "XDP_EVENTS");
    assert!(net[0].is_xdp);
}

#[test]
fn config_holds_items_in_order() {
    let config = StalkConfig {
        items: vec![
            StalkItem::Execve,
            StalkItem::Openat,
            StalkItem::Read,
            StalkItem::Net("eth2".to_string()),
        ],
        port: 3000,
    };
    assert_eq!(config.items.len(), 4);
    assert_eq!(config.port, 3000);
    let total: usize = config.items.iter().map(|i| pipeline_plans(i).len()).sum();
    assert_eq!(total, 5);
}
