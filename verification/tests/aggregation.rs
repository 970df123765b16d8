use stalk::aggregator::{
    rank_add_string, rank_add_u64, recent_logs, sort_by_score_desc, top_ranked, update_state,
    TuiState,
};
use stalk::event::{ExecveEvent, ExitEvent, ReadEvent, StalkEvent, XdpEvent};
use stalk::render::format_uptime;

fn execve_event(path: &str) -> StalkEvent {
    StalkEvent::Execve(ExecveEvent {
        pid: 1,
        filename: path.to_string(),
        argv: Vec::new(),
        start_time: 0,
    })
}

#[test]
fn execve_events_count_per_path() {
    let mut state = TuiState::new(0);
    update_state(&mut state, execve_event("/bin/ls"));
    update_state(&mut state, execve_event("/bin/cat"));
    update_state(&mut state, execve_event("/bin/ls"));
    assert_eq!(
        state.execve_rank,
        vec![("/bin/ls".to_string(), 2), ("/bin/cat".to_string(), 1)]
    );
    assert_eq!(state.execve_logs.len(), 3);
    assert_eq!(
        state.execve_logs[0],
        "ExecveEvent { pid: 1, filename: /bin/ls, argv: [] }"
    );
    assert!(state.exit_logs.is_empty());
    assert!(state.read_logs.is_empty());
}

#[test]
fn exit_events_count_per_code() {
    let mut state = TuiState::new(0);
    for code in [0u64, 1, 0, 0] {
        update_state(
            &mut state,
            StalkEvent::Exit(ExitEvent { pid: 1, exit_code: code, start_time: 0 }),
        );
    }
    assert_eq!(state.exit_rank, vec![(0, 3), (1, 1)]);
    assert_eq!(state.exit_logs.len(), 4);
}

#[test]
fn read_events_accumulate_duration_per_pid() {
    let mut state = TuiState::new(0);
    let read = |pid: u32, start: u64, end: u64| {
        StalkEvent::Read(ReadEvent {
            pid,
            gid: 0,
            fd: 0,
            count: 0,
            start_time: start,
            end_time: Some(end),
        })
    };
    update_state(&mut state, read(7, 100, 400));
    update_state(&mut state, read(8, 0, 50));
    update_state(&mut state, read(7, 1000, 1200));
    assert_eq!(state.read_rank, vec![(7, 500), (8, 50)]);
}

#[test]
fn network_events_count_per_source_address() {
    let mut state = TuiState::new(0);
    let xdp = |addr: [u8; 4]| {
        StalkEvent::Xdp(XdpEvent {
            pid: 0,
            source_addr: addr,
            dest_addr: [0, 0, 0, 0],
            source_port: 1,
            dest_port: 2,
            start_time: 0,
        })
    };
    update_state(&mut state, xdp([10, 0, 0, 1]));
    update_state(&mut state, xdp([10, 0, 0, 2]));
    update_state(&mut state, xdp([10, 0, 0, 1]));
    assert_eq!(state.net_rank, vec![([10, 0, 0, 1], 2), ([10, 0, 0, 2], 1)]);
}

#[test]
fn top_ranked_sorts_by_strictly_descending_score() {
    let rank = vec![
        ("a".to_string(), 2u64),
        ("b".to_string(), 9),
        ("c".to_string(), 5),
        ("d".to_string(), 7),
    ];
    let top = top_ranked(rank, Some(3));
    assert_eq!(
        top,
        vec![("b".to_string(), 9), ("d".to_string(), 7), ("c".to_string(), 5)]
    );
}

#[test]
fn top_ranked_default_limit_is_ten() {
    let rank: Vec<(u64, u64)> = (0..15).map(|k| (k, k)).collect();
    let top = top_ranked(rank, None);
    assert_eq!(top.len(), 10);
    assert_eq!(top[0], (14, 14));
    assert_eq!(top[9], (5, 5));
}

#[test]
fn top_ranked_with_fewer_entries_returns_them_all() {
    let rank = vec![(1u64, 5u64), (2, 8)];
    let top = top_ranked(rank, None);
    assert_eq!(top, vec![(2, 8), (1, 5)]);
}

#[test]
fn sort_keeps_all_entries() {
    let rank = vec![(1u64, 1u64), (2, 3), (3, 2), (4, 3)];
    let sorted = sort_by_score_desc(rank);
    assert_eq!(sorted.len(), 4);
    assert!(sorted.windows(2).all(|w| w[0].1 >= w[1].1));
    let mut keys: Vec<u64> = sorted.iter().map(|p| p.0).collect();
    keys.sort();
    assert_eq!(keys, vec![1, 2, 3, 4]);
}

#[test]
fn recent_logs_default_limit_is_one_hundred() {
    let logs: Vec<String> = (0..150).map(|i| format!("line {i}")).collect();
    let recent = recent_logs(logs, None);
    assert_eq!(recent.len(), 100);
    assert_eq!(recent[0], "line 0");
    assert_eq!(recent[99], "line 99");
}

#[test]
fn recent_logs_keeps_insertion_order_up_to_limit() {
    let logs = vec!["a".to_string(), "b".to_string(), "c".to_string()];
    assert_eq!(recent_logs(logs.clone(), Some(2)), vec!["a", "b"]);
    assert_eq!(recent_logs(logs, Some(10)), vec!["a", "b", "c"]);
}

#[test]
fn scores_saturate_instead_of_wrapping() {
    let mut rank = vec![("k".to_string(), u64::MAX - 1)];
    rank_add_string(&mut rank, "k".to_string(), 5);
    assert_eq!(rank, vec![("k".to_string(), u64::MAX)]);
}

#[test]
fn integer_rank_accumulates() {
    let mut rank: Vec<(u64, u64)> = Vec::new();
    rank_add_u64(&mut rank, 3, 1);
    rank_add_u64(&mut rank, 3, 1);
    rank_add_u64(&mut rank, 4, 1);
    assert_eq!(rank, vec![(3, 2), (4, 1)]);
}

#[test]
fn uptime_measures_elapsed_time() {
    let state = TuiState::new(1_000_000);
    assert_eq!(state.uptime(4_000_000), 3_000_000);
    assert_eq!(state.uptime(500_000), 0);
}

#[test]
fn uptime_renders_as_hours_minutes_seconds() {
    assert_eq!(format_uptime(0), "00:00:00");
    assert_eq!(format_uptime(59), "00:00:59");
    assert_eq!(format_uptime(3600 + 2 * 60 + 3), "01:02:03");
    assert_eq!(format_uptime(125 * 3600 + 59 * 60 + 59), "125:59:59");
}
