//! End-to-end runs of one pipeline: a probe activation writes a record
//! into its transport channel; the drained bytes are decoded, correlated
//! where the category asks for it, and aggregated.

use stalk::aggregator::{update_state, TuiState};
use stalk::channel::Channel;
use stalk::correlator::Correlator;
use stalk::event::{ExitEvent, StalkEvent, XdpEvent};
use stalk::probe::{try_stalk_exit_group, try_stalk_read, try_stalk_read_exit};
use stalk::raw::{decode_exit, decode_read, decode_read_exit, decode_xdp};
use stalk::xdp::{stalk_xdp, XDP_PASS};

#[test]
fn exit_pipeline_reaches_the_rank_map() {
    let mut ch = Channel::new(256 * 1024);
    let mut ctx = vec![0u8; 16];
    ctx[12..16].copy_from_slice(&7i32.to_le_bytes());
    let tgid_pid: u64 = (3u64 << 32) | 21u64;
    assert_eq!(try_stalk_exit_group(&ctx, tgid_pid, &mut ch), Ok(0));

    let mut state = TuiState::new(0);
    for record in ch.drain() {
        assert_eq!(record.len(), 8);
        let raw = decode_exit(&record);
        let event = ExitEvent::from_raw(&raw, 50);
        update_state(&mut state, StalkEvent::Exit(event));
    }
    assert_eq!(state.exit_rank, vec![(7, 1)]);
    assert_eq!(state.exit_logs, vec!["ExitEvent { pid: 21, exit_code: 7 }"]);
}

#[test]
fn read_pipeline_correlates_and_accumulates() {
    let mut enter_ch = Channel::new(256 * 1024);
    let mut exit_ch = Channel::new(256 * 1024);
    let tgid_pid: u64 = (9u64 << 32) | 33u64;

    let mut enter_ctx = vec![0u8; 40];
    enter_ctx[16..24].copy_from_slice(&5u64.to_le_bytes());
    enter_ctx[32..40].copy_from_slice(&4096u64.to_le_bytes());
    assert_eq!(try_stalk_read(&enter_ctx, tgid_pid, &mut enter_ch), Ok(0));

    let mut exit_ctx = vec![0u8; 24];
    exit_ctx[16..24].copy_from_slice(&4096i64.to_le_bytes());
    assert_eq!(try_stalk_read_exit(&exit_ctx, tgid_pid, &mut exit_ch), Ok(0));

    let mut correlator = Correlator::new();
    for record in enter_ch.drain() {
        correlator.begin(&decode_read(&record), 1_000);
    }
    assert_eq!(correlator.pending_len(), 1);

    let mut state = TuiState::new(0);
    for record in exit_ch.drain() {
        if let Some(completed) = correlator.end(&decode_read_exit(&record), 1_800) {
            update_state(&mut state, StalkEvent::Read(completed));
        }
    }
    assert_eq!(correlator.pending_len(), 0);
    assert_eq!(state.read_rank, vec![(33, 800)]);
    assert_eq!(state.read_logs, vec!["ReadEvent { pid: 33, fd: 5, count: 4096 }"]);
}

#[test]
fn network_pipeline_counts_source_addresses() {
    let mut ch = Channel::new(256 * 1024);
    let mut packet = vec![0u8; 54];
    packet[12] = 0x08;
    packet[23] = 6;
    packet[26..30].copy_from_slice(&[172, 16, 0, 9]);
    packet[30..34].copy_from_slice(&[10, 0, 0, 1]);
    packet[34..36].copy_from_slice(&22u16.to_be_bytes());
    packet[36..38].copy_from_slice(&40000u16.to_be_bytes());
    assert_eq!(stalk_xdp(&packet, &mut ch), XDP_PASS);
    assert_eq!(stalk_xdp(&packet, &mut ch), XDP_PASS);

    let mut state = TuiState::new(0);
    for record in ch.drain() {
        assert_eq!(record.len(), 16);
        let raw = decode_xdp(&record);
        update_state(&mut state, StalkEvent::Xdp(XdpEvent::from_raw(&raw, 0)));
    }
    assert_eq!(state.net_rank, vec![([172, 16, 0, 9], 2)]);
    assert_eq!(state.net_logs.len(), 2);
    assert_eq!(
        state.net_logs[0],
        "XdpEvent { source_addr: 172.16.0.9, dest_addr: 10.0.0.1, source_port: 22, dest_port: 40000 }"
    );
}
