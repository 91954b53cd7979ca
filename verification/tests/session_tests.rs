use rollback_core::input::{FIRE, ROTATE_LEFT};
use rollback_core::session::{
    AdvanceOutcome, ConnectError, Session, SessionConfig, SessionEvent, SessionState,
};
use rollback_core::snapshot::SnapshotError;
use rollback_core::state::{GameState, RollbackState, TURN_STEPS};

fn cfg(input_delay: usize, max_latency_frames: usize, disconnect_timeout: usize) -> SessionConfig {
    SessionConfig {
        num_players: 2,
        input_delay,
        max_latency_frames,
        disconnect_timeout,
        checksum_interval: 1,
        handshake_budget: 8,
    }
}

fn running(input_delay: usize, max_latency_frames: usize, timeout: usize) -> Session<GameState> {
    let mut s = Session::start(
        GameState::initial(),
        vec![true, false],
        cfg(input_delay, max_latency_frames, timeout),
    )
    .unwrap();
    assert_eq!(s.handshake_tick(true), Ok(true));
    s
}

#[test]
fn start_rejects_a_short_roster() {
    let r = Session::start(GameState::initial(), vec![true], cfg(2, 8, 90));
    assert!(matches!(r, Err(ConnectError::InsufficientPeers)));
}

#[test]
fn start_rejects_a_roster_with_no_local_player() {
    let r = Session::start(GameState::initial(), vec![false, false], cfg(2, 8, 90));
    assert!(matches!(r, Err(ConnectError::InsufficientPeers)));
}

#[test]
fn start_begins_synchronizing() {
    let s = Session::start(GameState::initial(), vec![true, false], cfg(2, 8, 90)).unwrap();
    assert_eq!(s.session_state(), SessionState::Synchronizing);
    assert_eq!(s.current_frame(), 0);
    assert_eq!(s.confirmed_watermark(), 2);
    assert_eq!(s.input_delay(), 2);
    assert_eq!(s.rollback_window(), 10);
}

#[test]
fn config_validation() {
    assert!(cfg(2, 8, 90).validate());
    let mut bad = cfg(2, 8, 90);
    bad.disconnect_timeout = 0;
    assert!(!bad.validate());
    let mut one_player = cfg(2, 8, 90);
    one_player.num_players = 1;
    assert!(!one_player.validate());
    let mut no_window = cfg(0, 0, 90);
    no_window.input_delay = 0;
    assert!(!no_window.validate());
}

#[test]
fn handshake_times_out_after_its_budget() {
    let mut s = Session::start(GameState::initial(), vec![true, false], cfg(2, 8, 90)).unwrap();
    for _ in 0..8 {
        assert_eq!(s.handshake_tick(false), Ok(false));
    }
    assert_eq!(s.handshake_tick(false), Err(ConnectError::HandshakeTimeout));
    assert_eq!(s.session_state(), SessionState::Disconnected);
}

#[test]
fn handshake_completes_when_peers_are_ready() {
    let mut s = Session::start(GameState::initial(), vec![true, false], cfg(2, 8, 90)).unwrap();
    assert_eq!(s.handshake_tick(false), Ok(false));
    assert_eq!(s.handshake_tick(true), Ok(true));
    assert_eq!(s.session_state(), SessionState::Running);
}

#[test]
fn ticks_advance_one_frame_each() {
    let mut s = running(2, 8, 90);
    for t in 0..5usize {
        let out = s.advance_frame(&vec![0, 0]).unwrap();
        assert_eq!(out, AdvanceOutcome::Advanced { frame: t });
        assert_eq!(s.current_frame(), t + 1);
    }
}

#[test]
fn matching_prediction_confirms_without_rollback() {
    // The remote input arrives late but equals the predicted value: the
    // slot is reclassified confirmed and no snapshot restore happens.
    let mut s = running(2, 8, 90);
    for _ in 0..3 {
        s.advance_frame(&vec![0, 0]).unwrap();
    }
    let before = s.local_checksum(2).unwrap();
    s.on_remote_input(1, 2, 0);
    let out = s.advance_frame(&vec![0, 0]).unwrap();
    assert!(matches!(out, AdvanceOutcome::Advanced { .. }));
    assert_eq!(s.local_checksum(2), Some(before));
}

#[test]
fn mismatched_prediction_rolls_back() {
    let mut s = running(2, 8, 90);
    for _ in 0..4 {
        s.advance_frame(&vec![0, 0]).unwrap();
    }
    s.on_remote_input(1, 3, 5);
    let out = s.advance_frame(&vec![0, 0]).unwrap();
    assert_eq!(out, AdvanceOutcome::RollbackPerformed { from: 3, to: 4 });
}

#[test]
fn confirmed_inputs_are_idempotent() {
    let mut s = running(2, 8, 90);
    for _ in 0..3 {
        s.advance_frame(&vec![0, 0]).unwrap();
    }
    s.on_remote_input(1, 2, 0);
    s.advance_frame(&vec![0, 0]).unwrap();
    let before = s.local_checksum(2).unwrap();
    // a duplicate — even a contradictory one — changes nothing once the
    // slot is confirmed
    s.on_remote_input(1, 2, 7);
    let out = s.advance_frame(&vec![0, 0]).unwrap();
    assert!(matches!(out, AdvanceOutcome::Advanced { .. }));
    assert_eq!(s.local_checksum(2), Some(before));
}

#[test]
fn watermark_follows_confirmed_rows() {
    let mut s = running(2, 8, 90);
    assert_eq!(s.confirmed_watermark(), 2);
    s.on_remote_input(1, 2, 7);
    s.on_remote_input(1, 3, 9);
    s.advance_frame(&vec![0, 0]).unwrap();
    assert_eq!(s.confirmed_watermark(), 3);
    s.advance_frame(&vec![0, 0]).unwrap();
    assert_eq!(s.confirmed_watermark(), 4);
    s.advance_frame(&vec![0, 0]).unwrap();
    assert_eq!(s.confirmed_watermark(), 4);
}

#[test]
fn late_fire_scenario_rolls_back_once_and_applies_the_true_input() {
    // Two players, input delay 2. The local player fires at frame 10; the
    // remote input for frame 10 arrives three frames late carrying a left
    // turn, which contradicts the predicted zero. Expect exactly one
    // rollback, from frame 10 at frame 13, and a final state equal to a
    // straight simulation with the true input at frame 10.
    let mut s = running(2, 8, 1000);
    let mut rollbacks = 0;
    for t in 0..13usize {
        let local = if t == 8 { FIRE } else { 0 };
        let out = s.advance_frame(&vec![local, 0]).unwrap();
        if matches!(out, AdvanceOutcome::RollbackPerformed { .. }) {
            rollbacks += 1;
        }
    }
    assert_eq!(s.current_frame(), 13);
    s.on_remote_input(1, 10, ROTATE_LEFT);
    let out = s.advance_frame(&vec![0, 0]).unwrap();
    assert_eq!(out, AdvanceOutcome::RollbackPerformed { from: 10, to: 13 });
    if matches!(out, AdvanceOutcome::RollbackPerformed { .. }) {
        rollbacks += 1;
    }
    assert_eq!(rollbacks, 1);
    assert_eq!(s.current_frame(), 14);

    // straight simulation with the true input; the repeat-last heuristic
    // carries the confirmed left turn forward through the still
    // unconfirmed frames 11..13
    let mut expected = GameState::initial();
    for f in 0..14usize {
        let p0 = if f == 10 { FIRE } else { 0 };
        let p1 = if f >= 10 { ROTATE_LEFT } else { 0 };
        expected.step(&vec![p0, p1]);
    }
    assert_eq!(s.current_state(), expected);
    assert_eq!(s.current_state().p1.yaw, TURN_STEPS / 2 + 4);
    assert_eq!(s.current_state().p0.yaw, 0);
}

#[test]
fn silent_peer_disconnects_exactly_once_and_the_session_runs_on() {
    // No packets from the remote peer for 120 ticks with a timeout of 90:
    // one disconnect notification, zero-input substitution from then on,
    // and the session stays running.
    let mut s = running(2, 8, 90);
    let mut disconnects = 0;
    for _ in 0..120usize {
        s.advance_frame(&vec![0, 0]).unwrap();
        for ev in s.drain_events() {
            let SessionEvent::PeerDisconnected { player } = ev;
            assert_eq!(player, 1);
            disconnects += 1;
        }
    }
    assert_eq!(disconnects, 1);
    assert_eq!(s.session_state(), SessionState::Running);
    assert_eq!(s.current_frame(), 120);
    assert!(s.is_disconnected(1));
    assert!(!s.is_disconnected(0));
}

#[test]
fn window_sized_delay_plus_latency_absorbs_a_full_latency_rollback() {
    // Window = input_delay + max_latency_frames = 5. An input arriving a
    // whole window late still finds its snapshot.
    let mut s = running(2, 3, 1000);
    for _ in 0..10usize {
        s.advance_frame(&vec![0, 0]).unwrap();
    }
    s.on_remote_input(1, 5, ROTATE_LEFT);
    let out = s.advance_frame(&vec![0, 0]).unwrap();
    assert_eq!(out, AdvanceOutcome::RollbackPerformed { from: 5, to: 10 });
    assert_eq!(s.session_state(), SessionState::Running);
}

#[test]
fn window_one_frame_short_evicts_the_needed_snapshot() {
    // Same lateness, window one frame smaller: the snapshot of the
    // mismatched frame is gone and the session must end rather than
    // continue from corrupted state.
    let mut s = running(2, 2, 1000);
    for _ in 0..10usize {
        s.advance_frame(&vec![0, 0]).unwrap();
    }
    s.on_remote_input(1, 5, ROTATE_LEFT);
    let out = s.advance_frame(&vec![0, 0]);
    assert_eq!(out, Err(SnapshotError::Evicted));
    assert_eq!(s.session_state(), SessionState::Disconnected);
}

#[test]
fn two_peers_with_identical_histories_agree_on_every_checksum() {
    // Two in-process sessions, mirrored rosters. One direction delivers
    // instantly, the other lags three ticks, so one side predicts and
    // rolls back; confirmed frames nevertheless hash identically.
    let mut a = running(1, 5, 1000);
    let mut b = Session::start(GameState::initial(), vec![false, true], cfg(1, 5, 1000)).unwrap();
    assert_eq!(b.handshake_tick(true), Ok(true));

    let ia = |t: usize| -> u8 { (t * 5 % 31) as u8 };
    let ib = |t: usize| -> u8 { (t * 11 % 31) as u8 };
    let ticks = 30usize;
    for t in 0..ticks {
        a.advance_frame(&vec![ia(t), 0]).unwrap();
        b.advance_frame(&vec![0, ib(t)]).unwrap();
        b.on_remote_input(0, t + 1, ia(t));
        if t >= 3 {
            a.on_remote_input(1, t - 3 + 1, ib(t - 3));
        }
    }
    for t in (ticks - 3)..ticks {
        a.on_remote_input(1, t + 1, ib(t));
    }
    a.advance_frame(&vec![ia(ticks), 0]).unwrap();
    b.advance_frame(&vec![0, ib(ticks)]).unwrap();

    let w = a.confirmed_watermark().min(b.confirmed_watermark());
    let frames = a.current_frame().min(b.current_frame());
    let upto = w.min(frames);
    assert!(upto >= 20);
    for f in 0..upto {
        let sa = a.local_checksum(f).unwrap();
        let sb = b.local_checksum(f).unwrap();
        assert_eq!(sa, sb);
        // exchanging them raises no desync
        assert_eq!(a.on_remote_checksum(f, sb), None);
        assert_eq!(b.on_remote_checksum(f, sa), None);
    }
    assert_eq!(a.desync_count(), 0);
    assert_eq!(b.desync_count(), 0);
}

#[test]
fn a_wrong_remote_checksum_is_a_desync() {
    let mut s = running(2, 8, 90);
    for _ in 0..3 {
        s.advance_frame(&vec![0, 0]).unwrap();
    }
    // frames 0 and 1 are settled (pre-filled by the input delay)
    let local = s.local_checksum(0).unwrap();
    assert_eq!(s.on_remote_checksum(0, local), None);
    assert_eq!(s.desync_count(), 0);
    let ev = s.on_remote_checksum(0, local ^ 1).unwrap();
    assert_eq!(ev.frame, 0);
    assert_eq!(ev.local, local);
    assert_eq!(ev.remote, local ^ 1);
    assert_eq!(s.desync_count(), 1);
    // an unsettled or unsimulated frame is ignored
    assert_eq!(s.on_remote_checksum(2, 123), None);
    assert_eq!(s.on_remote_checksum(50, 123), None);
    assert_eq!(s.desync_count(), 1);
}

#[test]
fn checksum_exchange_interval_is_respected() {
    let mut c = cfg(2, 8, 90);
    c.checksum_interval = 4;
    let mut s = Session::start(GameState::initial(), vec![true, false], c).unwrap();
    s.handshake_tick(true).unwrap();
    assert!(s.checksum_due(0));
    assert!(!s.checksum_due(3));
    assert!(s.checksum_due(8));
}
