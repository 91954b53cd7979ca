//! The session manager: peer roster, frame-indexed input history, and the
//! confirm/predict/rollback protocol.
//!
//! One session value is owned by the caller and advanced one fixed tick at a
//! time. Local inputs are delayed by a configured number of frames before
//! they are consumed; missing remote inputs are predicted by repeating the
//! last known value; every tick snapshots the pre-step state before the
//! deterministic step function runs. When a late remote input contradicts a
//! prediction, the next tick restores the snapshot of the earliest
//! mismatched frame and re-simulates forward with the corrected inputs —
//! several corrections arriving in one tick coalesce into a single restore
//! at the earliest of them. A peer that stays silent past the disconnect
//! timeout is substituted with the zero input from then on, exactly once
//! announced, and the session keeps running.

use vstd::prelude::*;

use crate::checksum::DesyncDetector;
use crate::checksum::DesyncEvent;
use crate::snapshot::SnapshotError;
use crate::snapshot::SnapshotStore;
use crate::state::RollbackState;
use crate::state::replay_row;
use crate::state::spec_replay;

verus! {

/// Failure to bring a session up.
#[derive(Clone, Copy, PartialEq, Eq, Structural, Debug)]
pub enum ConnectError {
    /// The roster does not provide the required number of players, or no
    /// player is local.
    InsufficientPeers,
    /// Signaling did not complete within the configured retry budget.
    HandshakeTimeout,
}

/// The lifecycle state of a session.
#[derive(Clone, Copy, PartialEq, Eq, Structural, Debug)]
pub enum SessionState {
    /// Exchanging the initial handshake; the simulation has not started.
    Synchronizing,
    /// Steady state: ticking, predicting and rolling back.
    Running,
    /// Terminal: no further ticks.
    Disconnected,
}

/// The tag on one stored input.
#[derive(Clone, Copy, PartialEq, Eq, Structural, Debug)]
pub enum InputStatus {
    /// Received from the owning peer (or authored locally); never changes.
    Confirmed,
    /// A speculative stand-in; may be overwritten when the real value
    /// arrives.
    Predicted,
    /// The owning peer is gone; the zero input stands in permanently.
    Disconnected,
}

/// What one tick did.
#[derive(Clone, Copy, PartialEq, Eq, Structural, Debug)]
pub enum AdvanceOutcome {
    /// The tick simulated this frame; no rollback was needed.
    Advanced { frame: usize },
    /// Before simulating, the tick restored the snapshot of `from` and
    /// re-simulated the frames `from .. to`; it then simulated frame `to`.
    RollbackPerformed { from: usize, to: usize },
}

/// A notification surfaced to the caller, drained once per tick.
#[derive(Clone, Copy, PartialEq, Eq, Structural, Debug)]
pub enum SessionEvent {
    /// This peer stayed silent past the disconnect timeout; its input is
    /// the zero value from now on. Emitted exactly once per peer.
    PeerDisconnected { player: usize },
}

/// The tunable parameters of a session.
#[derive(Clone, Copy, PartialEq, Eq, Structural, Debug)]
pub struct SessionConfig {
    /// How many players the session requires, local players included.
    pub num_players: usize,
    /// Frames a local input is held back before it is consumed.
    pub input_delay: usize,
    /// The worst network latency the session absorbs without data loss, in
    /// frames. The snapshot ring holds `input_delay + max_latency_frames`
    /// frames.
    pub max_latency_frames: usize,
    /// Ticks without any packet from a peer before it counts as gone.
    pub disconnect_timeout: usize,
    /// Frames between two checksum exchanges.
    pub checksum_interval: usize,
    /// Handshake polls allowed before `ConnectError::HandshakeTimeout`.
    pub handshake_budget: usize,
}

impl SessionConfig {
    /// The configuration limits a session can be started under.
    pub open spec fn valid(self) -> bool {
        &&& self.num_players >= 2
        &&& self.input_delay + self.max_latency_frames >= 1
        &&& self.input_delay + self.max_latency_frames <= usize::MAX
        &&& self.disconnect_timeout >= 1
        &&& self.checksum_interval >= 1
    }

    /// Tests the configuration limits.
    pub fn validate(&self) -> (r: bool)
        ensures
            r == self.valid(),
    {
        self.num_players >= 2 && self.input_delay <= usize::MAX - self.max_latency_frames
            && self.input_delay + self.max_latency_frames >= 1 && self.disconnect_timeout >= 1
            && self.checksum_interval >= 1
    }
}

/// One stored input slot: a value, its status, and whether anything has
/// been stored at all.
#[derive(Clone, Copy, PartialEq, Eq, Structural, Debug)]
struct Cell {
    value: u8,
    status: InputStatus,
    present: bool,
}

/// A rollback session over a simulation state.
pub struct Session<S: RollbackState> {
    num_players: usize,
    local_mask: Vec<bool>,
    input_delay: usize,
    timeout: usize,
    sync_budget: usize,
    phase: SessionState,
    frame: usize,
    state: S,
    init: Ghost<S>,
    sim: Ghost<Seq<Seq<u8>>>,
    hist: Vec<Vec<Cell>>,
    snaps: SnapshotStore<S>,
    detector: DesyncDetector,
    rollback_needed: Option<usize>,
    settled: usize,
    disconnected: Vec<bool>,
    silence: Vec<usize>,
    events: Vec<SessionEvent>,
}

impl<S: RollbackState> Session<S> {
    /// How many players the session was started with.
    pub closed spec fn num_players_spec(self) -> int {
        self.num_players as int
    }

    /// The configured input delay, in frames.
    pub closed spec fn delay_spec(self) -> int {
        self.input_delay as int
    }

    /// The configured disconnect timeout, in ticks.
    pub closed spec fn timeout_spec(self) -> int {
        self.timeout as int
    }

    /// The snapshot ring capacity: the deepest rollback the session can
    /// replay.
    pub closed spec fn window_spec(self) -> int {
        self.snaps.capacity_spec()
    }

    /// Handshake polls left before the session gives up synchronizing.
    pub closed spec fn budget_spec(self) -> int {
        self.sync_budget as int
    }

    /// The lifecycle state.
    pub closed spec fn phase_spec(self) -> SessionState {
        self.phase
    }

    /// The next frame to simulate; frames below it have been simulated.
    pub closed spec fn frame_spec(self) -> int {
        self.frame as int
    }

    /// The current simulation state.
    pub closed spec fn state_spec(self) -> S {
        self.state
    }

    /// The initial simulation state the session was started from.
    pub closed spec fn init_spec(self) -> S {
        self.init@
    }

    /// How many frames have an input row stored (simulated ones, delayed
    /// local inputs, and early remote arrivals).
    pub closed spec fn rows_stored(self) -> int {
        self.hist@.len() as int
    }

    spec fn cell(self, f: int, p: int) -> Cell {
        self.hist@[f]@[p]
    }

    /// Whether an input value is stored for player `p` at frame `f`.
    pub closed spec fn present_at(self, f: int, p: int) -> bool {
        0 <= f < self.hist@.len() && 0 <= p < self.num_players && self.cell(f, p).present
    }

    /// The stored input of player `p` at frame `f`; zero where none is
    /// stored.
    pub closed spec fn value_at(self, f: int, p: int) -> u8 {
        if self.present_at(f, p) {
            self.cell(f, p).value
        } else {
            0
        }
    }

    /// Whether the stored input of player `p` at frame `f` is confirmed.
    pub closed spec fn confirmed_at(self, f: int, p: int) -> bool {
        self.present_at(f, p) && self.cell(f, p).status == InputStatus::Confirmed
    }

    /// Whether the stored input of player `p` at frame `f` is a prediction.
    pub closed spec fn predicted_at(self, f: int, p: int) -> bool {
        self.present_at(f, p) && self.cell(f, p).status == InputStatus::Predicted
    }

    /// Whether the slot of player `p` at frame `f` is the permanent
    /// disconnect substitute.
    pub closed spec fn disconnected_at(self, f: int, p: int) -> bool {
        self.present_at(f, p) && self.cell(f, p).status == InputStatus::Disconnected
    }

    /// An input that can no longer change: confirmed, or the permanent
    /// disconnect substitute.
    pub open spec fn input_settled(self, f: int, p: int) -> bool {
        self.confirmed_at(f, p) || self.disconnected_at(f, p)
    }

    /// Whether every player's input at frame `f` is settled.
    pub open spec fn row_settled(self, f: int) -> bool {
        forall|p: int| 0 <= p < self.num_players_spec() ==> self.input_settled(f, p)
    }

    /// The stored input rows, one `Seq<u8>` per frame, absent slots as
    /// zero.
    pub open spec fn stored_row(self, f: int) -> Seq<u8> {
        Seq::new(self.num_players_spec() as nat, |p: int| self.value_at(f, p))
    }

    /// How many leading frames are fully settled: the confirmed watermark,
    /// as a count. Every frame below it has every player's input settled.
    pub closed spec fn settled_spec(self) -> int {
        self.settled as int
    }

    /// Whether the watermark is tight: the next frame is not fully settled
    /// (or no further frame is stored). Re-established by every tick; an
    /// input arriving between ticks may settle a row early.
    pub closed spec fn watermark_tight(self) -> bool {
        self.settled == self.hist@.len() || !self.row_settled(self.settled as int)
    }

    /// Whether player `p` is local to this session.
    pub closed spec fn local_spec(self, p: int) -> bool {
        self.local_mask@[p]
    }

    /// Whether player `p` has been declared gone.
    pub closed spec fn disc_spec(self, p: int) -> bool {
        self.disconnected@[p]
    }

    /// Ticks since the last packet of player `p`.
    pub closed spec fn silence_spec(self, p: int) -> int {
        self.silence@[p] as int
    }

    /// The pending rollback: the earliest mismatched simulated frame, if a
    /// late input contradicted its prediction since the last tick.
    pub closed spec fn rollback_spec(self) -> Option<usize> {
        self.rollback_needed
    }

    /// The notifications not yet drained.
    pub closed spec fn events_spec(self) -> Seq<SessionEvent> {
        self.events@
    }

    /// The recorded local checksums, one per simulated frame.
    pub closed spec fn sums_spec(self) -> Seq<u64> {
        self.detector.sums_spec()
    }

    /// How many desyncs have been detected.
    pub closed spec fn desyncs_spec(self) -> int {
        self.detector.desyncs_spec()
    }

    /// The configured checksum exchange interval.
    pub closed spec fn interval_spec(self) -> int {
        self.detector.interval_spec()
    }

    /// The frames the simulated prefix was actually stepped with: equal to
    /// the stored rows below the rollback point (everywhere, when no
    /// rollback is pending).
    spec fn sync_horizon(self) -> int {
        match self.rollback_needed {
            Some(rb) => rb as int,
            None => self.frame as int,
        }
    }

    /// The session invariant.
    ///
    /// Its heart is replay-correctness: the current state is exactly the
    /// step function folded from the initial state through the input rows
    /// the simulation actually consumed (`sim`), every held snapshot is the
    /// replay up to its frame, and every recorded checksum is the checksum
    /// of the replay past its frame. Below the pending-rollback point, the
    /// consumed rows agree with the stored rows.
    pub closed spec fn wf(self) -> bool {
        &&& self.num_players >= 2
        &&& self.local_mask@.len() == self.num_players
        &&& self.disconnected@.len() == self.num_players
        &&& self.silence@.len() == self.num_players
        &&& self.timeout >= 1
        &&& self.detector.wf()
        &&& self.hist@.len() >= self.frame + self.input_delay
        &&& (forall|f: int|
            0 <= f < self.hist@.len() ==> (#[trigger] self.hist@[f])@.len() == self.num_players)
        &&& (forall|f: int, p: int|
            #![trigger self.hist@[f]@[p]]
            0 <= f < self.frame && 0 <= p < self.num_players ==> self.hist@[f]@[p].present)
        &&& (forall|f: int, p: int|
            #![trigger self.hist@[f]@[p]]
            0 <= f < self.frame + self.input_delay && 0 <= p < self.num_players
                && self.local_mask@[p] ==> self.hist@[f]@[p].present && self.hist@[f]@[p].status
                == InputStatus::Confirmed)
        &&& (forall|f: int, p: int|
            #![trigger self.hist@[f]@[p]]
            self.frame <= f < self.hist@.len() && 0 <= p < self.num_players
                && self.hist@[f]@[p].present ==> self.hist@[f]@[p].status
                != InputStatus::Predicted)
        &&& self.settled <= self.hist@.len()
        &&& (forall|f: int, p: int|
            #![trigger self.hist@[f]@[p]]
            0 <= f < self.settled && 0 <= p < self.num_players ==> self.hist@[f]@[p].present
                && self.hist@[f]@[p].status != InputStatus::Predicted)
        &&& (self.rollback_needed is Some ==> (self.rollback_needed.unwrap() as int)
            < self.frame)
        &&& self.snaps.wf()
        &&& self.snaps.capacity_spec() >= 1
        &&& (self.frame == 0 ==> self.snaps.is_empty_spec())
        &&& (self.frame > 0 ==> !self.snaps.is_empty_spec() && self.snaps.hi_spec() == self.frame
            - 1 && self.snaps.lo_spec() == (if self.frame >= self.snaps.capacity_spec() {
            self.frame - self.snaps.capacity_spec()
        } else {
            0
        }))
        &&& self.sim@.len() == self.frame
        &&& (forall|f: int|
            0 <= f < self.frame ==> (#[trigger] self.sim@[f]).len() == self.num_players)
        &&& self.state == spec_replay(self.init@, self.sim@, self.frame as int)
        &&& (forall|f: int|
            #[trigger] self.snaps.has_frame(f) ==> self.snaps.state_at(f) == spec_replay(
                self.init@,
                self.sim@,
                f,
            ))
        &&& self.detector.sums_spec().len() == self.frame
        &&& (forall|f: int|
            0 <= f < self.frame ==> #[trigger] self.detector.sums_spec()[f] == spec_replay(
                self.init@,
                self.sim@,
                f + 1,
            ).sum())
        &&& (forall|f: int, p: int|
            #![trigger self.sim@[f][p]]
            0 <= f < self.sync_horizon() && 0 <= p < self.num_players ==> self.sim@[f][p] == (
            if self.hist@[f]@[p].present {
                self.hist@[f]@[p].value
            } else {
                0
            }))
    }

    /// Whether two session values store exactly the same inputs: the same
    /// frames, and per slot the same presence, status and value.
    pub open spec fn same_inputs(self, other: Session<S>) -> bool {
        &&& self.rows_stored() == other.rows_stored()
        &&& (forall|f: int, p: int|
            #![trigger other.present_at(f, p)]
            #![trigger other.value_at(f, p)]
            {
                &&& other.present_at(f, p) == self.present_at(f, p)
                &&& other.value_at(f, p) == self.value_at(f, p)
                &&& other.confirmed_at(f, p) == self.confirmed_at(f, p)
                &&& other.predicted_at(f, p) == self.predicted_at(f, p)
                &&& other.disconnected_at(f, p) == self.disconnected_at(f, p)
            })
    }

    /// Whether two session values agree on everything a tick reads except
    /// the stored inputs, the pending rollback, the event queue and the
    /// silence counters: configuration, simulation progress, snapshots and
    /// checksum history.
    pub open spec fn same_progress(self, other: Session<S>) -> bool {
        &&& other.num_players_spec() == self.num_players_spec()
        &&& other.delay_spec() == self.delay_spec()
        &&& other.timeout_spec() == self.timeout_spec()
        &&& other.interval_spec() == self.interval_spec()
        &&& other.window_spec() == self.window_spec()
        &&& other.budget_spec() == self.budget_spec()
        &&& (forall|p: int| #[trigger] other.local_spec(p) == self.local_spec(p))
        &&& other.phase_spec() == self.phase_spec()
        &&& other.frame_spec() == self.frame_spec()
        &&& other.state_spec() == self.state_spec()
        &&& other.init_spec() == self.init_spec()
        &&& other.settled_spec() == self.settled_spec()
        &&& other.sums_spec() == self.sums_spec()
        &&& (forall|p: int| #[trigger] other.disc_spec(p) == self.disc_spec(p))
    }

    /// Opens a session over an initial state and a player roster:
    /// `local_players[p]` says whether handle `p` is local. Fails with
    /// `ConnectError::InsufficientPeers` exactly when the roster does not
    /// name `cfg.num_players` players or none of them is local.
    ///
    /// The session starts in `SessionState::Synchronizing`; drive the
    /// handshake with [`Session::handshake_tick`]. The first `input_delay`
    /// frames are pre-filled with confirmed zero inputs for every player, so
    /// delayed local input and remote input line up from frame zero.
    pub fn start(initial: S, local_players: Vec<bool>, cfg: SessionConfig) -> (r: Result<
        Session<S>,
        ConnectError,
    >)
        requires
            cfg.valid(),
        ensures
            r is Ok <==> local_players@.len() == cfg.num_players && (exists|p: int|
                0 <= p < local_players@.len() && local_players@[p]),
            r is Err ==> r == Err::<Session<S>, ConnectError>(ConnectError::InsufficientPeers),
            r is Ok ==> {
                let s = r.unwrap();
                &&& s.wf()
                &&& s.phase_spec() == SessionState::Synchronizing
                &&& s.frame_spec() == 0
                &&& s.num_players_spec() == cfg.num_players
                &&& s.delay_spec() == cfg.input_delay
                &&& s.timeout_spec() == cfg.disconnect_timeout
                &&& s.interval_spec() == cfg.checksum_interval
                &&& s.budget_spec() == cfg.handshake_budget
                &&& s.window_spec() == cfg.input_delay + cfg.max_latency_frames
                &&& s.init_spec() == initial
                &&& s.state_spec() == initial
                &&& s.settled_spec() == cfg.input_delay
                &&& s.rows_stored() == cfg.input_delay
                &&& s.rollback_spec() is None
                &&& s.events_spec() == Seq::<SessionEvent>::empty()
                &&& s.sums_spec() == Seq::<u64>::empty()
                &&& s.desyncs_spec() == 0
                &&& (forall|p: int|
                    0 <= p < cfg.num_players ==> s.local_spec(p) == local_players@[p]
                        && !s.disc_spec(p) && s.silence_spec(p) == 0)
                &&& (forall|f: int, p: int|
                    0 <= f < cfg.input_delay && 0 <= p < cfg.num_players ==> s.confirmed_at(f, p)
                        && s.value_at(f, p) == 0)
                &&& s.watermark_tight()
            },
    {
        if local_players.len() != cfg.num_players {
            return Err(ConnectError::InsufficientPeers);
        }
        let mut any_local = false;
        let mut p: usize = 0;
        while p < local_players.len()
            invariant
                p <= local_players@.len(),
                any_local == (exists|q: int| 0 <= q < p && local_players@[q]),
            decreases local_players@.len() - p,
        {
            if local_players[p] {
                any_local = true;
            }
            p = p + 1;
        }
        if !any_local {
            return Err(ConnectError::InsufficientPeers);
        }
        let mut hist: Vec<Vec<Cell>> = Vec::new();
        let mut f: usize = 0;
        while f < cfg.input_delay
            invariant
                f <= cfg.input_delay,
                hist@.len() == f,
                forall|g: int|
                    0 <= g < f ==> (#[trigger] hist@[g])@ == Seq::new(
                        cfg.num_players as nat,
                        |q: int| Cell { value: 0, status: InputStatus::Confirmed, present: true },
                    ),
            decreases cfg.input_delay - f,
        {
            let mut row: Vec<Cell> = Vec::new();
            let mut q: usize = 0;
            while q < cfg.num_players
                invariant
                    q <= cfg.num_players,
                    row@.len() == q,
                    forall|i: int|
                        0 <= i < q ==> row@[i] == (Cell {
                            value: 0,
                            status: InputStatus::Confirmed,
                            present: true,
                        }),
                decreases cfg.num_players - q,
            {
                row.push(Cell { value: 0, status: InputStatus::Confirmed, present: true });
                q = q + 1;
            }
            assert(row@ =~= Seq::new(
                cfg.num_players as nat,
                |i: int| Cell { value: 0, status: InputStatus::Confirmed, present: true },
            ));
            hist.push(row);
            f = f + 1;
        }
        let mut disconnected: Vec<bool> = Vec::new();
        let mut silence: Vec<usize> = Vec::new();
        let mut q: usize = 0;
        while q < cfg.num_players
            invariant
                q <= cfg.num_players,
                disconnected@.len() == q,
                silence@.len() == q,
                forall|i: int| 0 <= i < q ==> !disconnected@[i] && silence@[i] == 0,
            decreases cfg.num_players - q,
        {
            disconnected.push(false);
            silence.push(0);
            q = q + 1;
        }
        let s = Session {
            num_players: cfg.num_players,
            local_mask: local_players,
            input_delay: cfg.input_delay,
            timeout: cfg.disconnect_timeout,
            sync_budget: cfg.handshake_budget,
            phase: SessionState::Synchronizing,
            frame: 0,
            state: initial,
            init: Ghost(initial),
            sim: Ghost(Seq::empty()),
            hist,
            snaps: SnapshotStore::new(cfg.input_delay + cfg.max_latency_frames),
            detector: DesyncDetector::new(cfg.checksum_interval),
            rollback_needed: None,
            settled: cfg.input_delay,
            disconnected,
            silence,
            events: Vec::new(),
        };
        Ok(s)
    }

    /// One handshake poll, driven by the caller's signaling loop:
    /// `all_peers_ready` says whether every required peer is connected.
    /// Ready flips the session to `SessionState::Running` and returns
    /// `Ok(true)`; not ready consumes one unit of the retry budget and
    /// returns `Ok(false)`; an exhausted budget fails with
    /// `ConnectError::HandshakeTimeout` and ends the session.
    pub fn handshake_tick(&mut self, all_peers_ready: bool) -> (r: Result<bool, ConnectError>)
        requires
            old(self).wf(),
            old(self).phase_spec() == SessionState::Synchronizing,
        ensures
            final(self).wf(),
            all_peers_ready ==> r == Ok::<bool, ConnectError>(true) && final(self).phase_spec()
                == SessionState::Running && final(self).budget_spec() == old(self).budget_spec(),
            !all_peers_ready && old(self).budget_spec() > 0 ==> r == Ok::<bool, ConnectError>(false)
                && final(self).phase_spec() == SessionState::Synchronizing
                && final(self).budget_spec() == old(self).budget_spec() - 1,
            !all_peers_ready && old(self).budget_spec() == 0 ==> r == Err::<bool, ConnectError>(
                ConnectError::HandshakeTimeout,
            ) && final(self).phase_spec() == SessionState::Disconnected,
            final(self).frame_spec() == old(self).frame_spec(),
            final(self).state_spec() == old(self).state_spec(),
            final(self).events_spec() == old(self).events_spec(),
            final(self).settled_spec() == old(self).settled_spec(),
    {
        if all_peers_ready {
            self.phase = SessionState::Running;
            Ok(true)
        } else if self.sync_budget > 0 {
            self.sync_budget = self.sync_budget - 1;
            Ok(false)
        } else {
            self.phase = SessionState::Disconnected;
            Err(ConnectError::HandshakeTimeout)
        }
    }

    /// Hands the caller everything announced since the last drain, oldest
    /// first, and empties the queue. Pull-style: call once per tick.
    pub fn drain_events(&mut self) -> (evs: Vec<SessionEvent>)
        requires
            old(self).wf(),
        ensures
            final(self).wf(),
            evs@ == old(self).events_spec(),
            final(self).events_spec() == Seq::<SessionEvent>::empty(),
            old(self).same_inputs(*final(self)),
            old(self).same_progress(*final(self)),
            final(self).rollback_spec() == old(self).rollback_spec(),
            final(self).desyncs_spec() == old(self).desyncs_spec(),
            forall|p: int| #[trigger] final(self).silence_spec(p) == old(self).silence_spec(p),
    {
        let mut evs: Vec<SessionEvent> = Vec::new();
        let mut i: usize = 0;
        while i < self.events.len()
            invariant
                i <= self.events@.len(),
                evs@ == self.events@.subrange(0, i as int),
            decreases self.events@.len() - i,
        {
            evs.push(self.events[i]);
            i = i + 1;
        }
        assert(evs@ =~= self.events@);
        self.events = Vec::new();
        assert(self.events@ =~= Seq::<SessionEvent>::empty());
        evs
    }

    /// Extends the history with empty rows until `upto` frames are stored.
    fn grow_rows(&mut self, upto: usize)
        requires
            old(self).wf(),
        ensures
            final(self).wf(),
            *final(self) == (Session { hist: final(self).hist, ..*old(self) }),
            final(self).hist@.len() == (if old(self).hist@.len() >= upto {
                old(self).hist@.len() as int
            } else {
                upto as int
            }),
            forall|f: int|
                0 <= f < old(self).hist@.len() ==> #[trigger] final(self).hist@[f] == old(self).hist@[f],
            forall|f: int, p: int|
                #![trigger final(self).hist@[f]@[p]]
                old(self).hist@.len() <= f < final(self).hist@.len() && 0 <= p < old(self).num_players ==> !final(self).hist@[f]@[p].present,
    {
        while self.hist.len() < upto
            invariant
                self.wf(),
                *self == (Session { hist: self.hist, ..*old(self) }),
                old(self).hist@.len() <= self.hist@.len(),
                self.hist@.len() <= upto || self.hist@.len() == old(self).hist@.len(),
                forall|f: int|
                    0 <= f < old(self).hist@.len() ==> #[trigger] self.hist@[f] == old(self).hist@[f],
                forall|f: int, p: int|
                    #![trigger self.hist@[f]@[p]]
                    old(self).hist@.len() <= f < self.hist@.len() && 0 <= p < old(self).num_players ==> !self.hist@[f]@[p].present,
            decreases upto - self.hist@.len(),
        {
            let mut row: Vec<Cell> = Vec::new();
            let mut q: usize = 0;
            while q < self.num_players
                invariant
                    q <= self.num_players,
                    row@.len() == q,
                    forall|i: int| 0 <= i < q ==> !(#[trigger] row@[i]).present,
                decreases self.num_players - q,
            {
                row.push(Cell { value: 0, status: InputStatus::Predicted, present: false });
                q = q + 1;
            }
            self.hist.push(row);
        }
    }

    /// Takes one decoded remote input packet: player `player` pressed
    /// `input` at frame `frame`. Called by the transport adapter; process a
    /// batch of packets before the next [`Session::advance_frame`] call.
    ///
    /// A settled slot never changes, so loss and duplication are tolerated:
    /// inputs are idempotent by frame. An unsettled slot becomes the
    /// confirmed true value. If the frame was already simulated with a
    /// predicted value and the true value differs, a rollback is scheduled
    /// at the earliest such frame; if the prediction was correct, the input
    /// is merely reclassified as confirmed and no rollback is scheduled.
    pub fn on_remote_input(&mut self, player: usize, frame: usize, input: u8)
        requires
            old(self).wf(),
            player < old(self).num_players_spec(),
            !old(self).local_spec(player as int),
            frame < usize::MAX,
        ensures
            final(self).wf(),
            final(self).silence_spec(player as int) == 0,
            forall|q: int|
                0 <= q < old(self).num_players_spec() && q != player
                    ==> #[trigger] final(self).silence_spec(q) == old(self).silence_spec(q),
            old(self).same_progress(*final(self)),
            final(self).events_spec() == old(self).events_spec(),
            final(self).desyncs_spec() == old(self).desyncs_spec(),
            final(self).rows_stored() == (if old(self).rows_stored() >= frame + 1 {
                old(self).rows_stored()
            } else {
                frame as int + 1
            }),
            forall|f: int, p: int|
                #![trigger final(self).present_at(f, p)]
                #![trigger final(self).value_at(f, p)]
                !(f == frame && p == player) ==> {
                    &&& final(self).present_at(f, p) == old(self).present_at(f, p)
                    &&& final(self).value_at(f, p) == old(self).value_at(f, p)
                    &&& final(self).confirmed_at(f, p) == old(self).confirmed_at(f, p)
                    &&& final(self).predicted_at(f, p) == old(self).predicted_at(f, p)
                    &&& final(self).disconnected_at(f, p) == old(self).disconnected_at(f, p)
                },
            old(self).input_settled(frame as int, player as int) ==> final(self).value_at(
                frame as int,
                player as int,
            ) == old(self).value_at(frame as int, player as int) && final(self).confirmed_at(
                frame as int,
                player as int,
            ) == old(self).confirmed_at(frame as int, player as int),
            !old(self).input_settled(frame as int, player as int) ==> final(self).confirmed_at(
                frame as int,
                player as int,
            ) && final(self).value_at(frame as int, player as int) == input,
            old(self).predicted_at(frame as int, player as int) && old(self).value_at(
                frame as int,
                player as int,
            ) != input ==> final(self).rollback_spec() == Some(
                (match old(self).rollback_spec() {
                    Some(rb) => if frame < rb {
                        frame
                    } else {
                        rb
                    },
                    None => frame,
                }),
            ),
            !(old(self).predicted_at(frame as int, player as int) && old(self).value_at(
                frame as int,
                player as int,
            ) != input) ==> final(self).rollback_spec() == old(self).rollback_spec(),
    {
        self.silence.set(player, 0);
        self.grow_rows(frame + 1);
        let c = self.hist[frame][player];
        if c.present {
            if c.status == InputStatus::Predicted {
                if c.value != input {
                    self.hist[frame].set(
                        player,
                        Cell { value: input, status: InputStatus::Confirmed, present: true },
                    );
                    let rb = match self.rollback_needed {
                        Some(rb) => if frame < rb {
                            frame
                        } else {
                            rb
                        },
                        None => frame,
                    };
                    self.rollback_needed = Some(rb);
                } else {
                    self.hist[frame].set(
                        player,
                        Cell { value: c.value, status: InputStatus::Confirmed, present: true },
                    );
                }
            }
        } else {
            self.hist[frame].set(
                player,
                Cell { value: input, status: InputStatus::Confirmed, present: true },
            );
        }
    }

    /// Takes a remote peer's checksum for a frame and compares it with the
    /// local one, when that frame is already simulated and fully settled
    /// here. Disagreement is a desync: counted and returned, never silently
    /// dropped; the session keeps running either way. A checksum for a
    /// frame not yet settled or not yet simulated is ignored — the peer
    /// exchanges checksums at an interval, and may deliver again.
    pub fn on_remote_checksum(&mut self, frame: usize, remote: u64) -> (r: Option<DesyncEvent>)
        requires
            old(self).wf(),
            old(self).desyncs_spec() < usize::MAX,
        ensures
            final(self).wf(),
            old(self).same_inputs(*final(self)),
            old(self).same_progress(*final(self)),
            final(self).rollback_spec() == old(self).rollback_spec(),
            final(self).events_spec() == old(self).events_spec(),
            forall|p: int| #[trigger] final(self).silence_spec(p) == old(self).silence_spec(p),
            frame < old(self).settled_spec() && frame < old(self).frame_spec() && old(self).sums_spec()[frame as int] == remote ==> r is None && final(self).desyncs_spec()
                == old(self).desyncs_spec(),
            frame < old(self).settled_spec() && frame < old(self).frame_spec() && old(self).sums_spec()[frame as int] != remote ==> r == Some(
                DesyncEvent { frame, local: old(self).sums_spec()[frame as int], remote },
            ) && final(self).desyncs_spec() == old(self).desyncs_spec() + 1,
            !(frame < old(self).settled_spec() && frame < old(self).frame_spec()) ==> r is None
                && final(self).desyncs_spec() == old(self).desyncs_spec(),
    {
        if frame < self.settled && frame < self.frame {
            self.detector.check_remote(frame, remote)
        } else {
            None
        }
    }

    /// The next frame to simulate; everything below it has been simulated
    /// (speculatively where inputs were predicted).
    pub fn current_frame(&self) -> (f: usize)
        ensures
            f == self.frame_spec(),
    {
        self.frame
    }

    /// The lifecycle state of the session.
    pub fn session_state(&self) -> (s: SessionState)
        ensures
            s == self.phase_spec(),
    {
        self.phase
    }

    /// The current simulation state, for the presentation layer to read.
    pub fn current_state(&self) -> (s: S)
        ensures
            s == self.state_spec(),
    {
        self.state
    }

    /// The confirmed watermark, as a count: every frame below it has every
    /// player's input settled, and — as of the last tick — the frame at the
    /// watermark does not (or is not stored yet). Monotonically
    /// non-decreasing.
    pub fn confirmed_watermark(&self) -> (w: usize)
        requires
            self.wf(),
        ensures
            w == self.settled_spec(),
            forall|f: int| 0 <= f < w ==> #[trigger] self.row_settled(f),
    {
        assert forall|f: int| 0 <= f < self.settled implies #[trigger] self.row_settled(f) by {
            assert forall|p: int| 0 <= p < self.num_players_spec() implies self.input_settled(
                f,
                p,
            ) by {
                assert(self.hist@[f]@[p].present && self.hist@[f]@[p].status
                    != InputStatus::Predicted);
            }
        }
        self.settled
    }

    /// The configured input delay, in frames.
    pub fn input_delay(&self) -> (d: usize)
        ensures
            d == self.delay_spec(),
    {
        self.input_delay
    }

    /// How deep a rollback the session can replay: the snapshot ring
    /// capacity.
    pub fn rollback_window(&self) -> (w: usize)
        ensures
            w == self.window_spec(),
    {
        self.snaps.capacity()
    }

    /// How many desyncs have been detected so far.
    pub fn desync_count(&self) -> (n: usize)
        ensures
            n == self.desyncs_spec(),
    {
        self.detector.desync_count()
    }

    /// The recorded checksum of a simulated frame, if any.
    pub fn local_checksum(&self, frame: usize) -> (r: Option<u64>)
        ensures
            frame < self.sums_spec().len() ==> r == Some(self.sums_spec()[frame as int]),
            frame >= self.sums_spec().len() ==> r is None,
    {
        self.detector.local_checksum(frame)
    }

    /// Whether this frame's checksum is due for exchange with the peers.
    pub fn checksum_due(&self, frame: usize) -> (r: bool)
        requires
            self.wf(),
        ensures
            r == (frame as int % self.interval_spec() == 0),
    {
        self.detector.should_exchange(frame)
    }

    /// Whether player `p` is local to this session.
    pub fn is_local(&self, p: usize) -> (r: bool)
        requires
            self.wf(),
            p < self.num_players_spec(),
        ensures
            r == self.local_spec(p as int),
    {
        self.local_mask[p]
    }

    /// Whether player `p` has been declared gone.
    pub fn is_disconnected(&self, p: usize) -> (r: bool)
        requires
            self.wf(),
            p < self.num_players_spec(),
        ensures
            r == self.disc_spec(p as int),
    {
        self.disconnected[p]
    }

    /// The player a notification names.
    pub open spec fn event_player(e: SessionEvent) -> int {
        match e {
            SessionEvent::PeerDisconnected { player } => player as int,
        }
    }

    /// Stores this tick's local inputs, confirmed, at the delayed frame
    /// `frame + input_delay`. Only local players' slots are written.
    fn store_local(&mut self, local_inputs: &Vec<u8>)
        requires
            old(self).wf(),
            local_inputs@.len() == old(self).num_players_spec(),
            old(self).frame + old(self).input_delay < old(self).hist@.len(),
        ensures
            final(self).wf(),
            *final(self) == (Session { hist: final(self).hist, ..*old(self) }),
            final(self).hist@.len() == old(self).hist@.len(),
            forall|f: int|
                0 <= f < old(self).hist@.len() && f != old(self).frame + old(self).input_delay
                    ==> #[trigger] final(self).hist@[f] == old(self).hist@[f],
            forall|p: int|
                #![trigger final(self).hist@[old(self).frame + old(self).input_delay]@[p]]
                0 <= p < old(self).num_players ==> final(self).hist@[old(self).frame + old(self).input_delay]@[p] == (if old(self).local_mask@[p] {
                    Cell {
                        value: local_inputs@[p],
                        status: InputStatus::Confirmed,
                        present: true,
                    }
                } else {
                    old(self).hist@[old(self).frame + old(self).input_delay]@[p]
                }),
    {
        let bound = self.hist.len();
        assert(self.frame + self.input_delay < bound);
        let row = self.frame + self.input_delay;
        let mut p: usize = 0;
        while p < self.num_players
            invariant
                p <= self.num_players,
                self.wf(),
                *self == (Session { hist: self.hist, ..*old(self) }),
                self.hist@.len() == old(self).hist@.len(),
                row == old(self).frame + old(self).input_delay,
                row < self.hist@.len(),
                local_inputs@.len() == self.num_players,
                forall|f: int|
                    0 <= f < old(self).hist@.len() && f != row ==> #[trigger] self.hist@[f] == old(self).hist@[f],
                forall|q: int|
                    #![trigger self.hist@[row as int]@[q]]
                    0 <= q < p ==> self.hist@[row as int]@[q] == (if old(self).local_mask@[q] {
                        Cell {
                            value: local_inputs@[q],
                            status: InputStatus::Confirmed,
                            present: true,
                        }
                    } else {
                        old(self).hist@[row as int]@[q]
                    }),
                forall|q: int|
                    #![trigger self.hist@[row as int]@[q]]
                    p <= q < self.num_players ==> self.hist@[row as int]@[q] == old(self).hist@[row as int]@[q],
            decreases self.num_players - p,
        {
            if self.local_mask[p] {
                self.hist[row].set(
                    p,
                    Cell { value: local_inputs[p], status: InputStatus::Confirmed, present: true },
                );
            }
            p = p + 1;
        }
    }

    /// Advances the silence clocks and declares peers gone once they cross
    /// the disconnect timeout, announcing each such peer exactly once.
    fn scan_timeouts(&mut self)
        requires
            old(self).wf(),
        ensures
            final(self).wf(),
            *final(self) == (Session {
                silence: final(self).silence,
                disconnected: final(self).disconnected,
                events: final(self).events,
                ..*old(self)
            }),
            final(self).silence@.len() == old(self).silence@.len(),
            final(self).disconnected@.len() == old(self).disconnected@.len(),
            forall|p: int|
                #![trigger final(self).silence@[p]]
                0 <= p < old(self).num_players ==> final(self).silence@[p] as int == (if old(self).local_mask@[p] || old(self).disconnected@[p] {
                    old(self).silence@[p] as int
                } else if old(self).silence@[p] + 1 >= old(self).timeout {
                    old(self).timeout as int
                } else {
                    old(self).silence@[p] + 1
                }),
            forall|p: int|
                #![trigger final(self).disconnected@[p]]
                0 <= p < old(self).num_players ==> final(self).disconnected@[p] == (old(self).disconnected@[p] || (!old(self).local_mask@[p] && old(self).silence@[p] + 1
                    >= old(self).timeout)),
            final(self).events@.len() >= old(self).events@.len(),
            final(self).events@.take(old(self).events@.len() as int) == old(self).events@,
            forall|i: int|
                old(self).events@.len() <= i < final(self).events@.len() ==> {
                    let p = Self::event_player(#[trigger] final(self).events@[i]);
                    &&& 0 <= p < old(self).num_players
                    &&& !old(self).disconnected@[p]
                    &&& final(self).disconnected@[p]
                    &&& final(self).events@[i] == (SessionEvent::PeerDisconnected {
                        player: p as usize,
                    })
                },
            forall|p: int|
                #![trigger final(self).disconnected@[p]]
                0 <= p < old(self).num_players && !old(self).disconnected@[p] && final(self).disconnected@[p] ==> exists|i: int|
                    old(self).events@.len() <= i < final(self).events@.len() && Self::event_player(
                        #[trigger] final(self).events@[i],
                    ) == p,
            forall|i: int, j: int|
                old(self).events@.len() <= i < j < final(self).events@.len() ==> Self::event_player(
                    final(self).events@[i],
                ) < Self::event_player(final(self).events@[j]),
    {
        let mut p: usize = 0;
        while p < self.num_players
            invariant
                p <= self.num_players,
                self.wf(),
                *self == (Session {
                    silence: self.silence,
                    disconnected: self.disconnected,
                    events: self.events,
                    ..*old(self)
                }),
                self.silence@.len() == old(self).silence@.len(),
                self.disconnected@.len() == old(self).disconnected@.len(),
                forall|q: int|
                    #![trigger self.silence@[q]]
                    0 <= q < p ==> self.silence@[q] as int == (if old(self).local_mask@[q] || old(self).disconnected@[q] {
                        old(self).silence@[q] as int
                    } else if old(self).silence@[q] + 1 >= old(self).timeout {
                        old(self).timeout as int
                    } else {
                        old(self).silence@[q] + 1
                    }),
                forall|q: int|
                    #![trigger self.silence@[q]]
                    p <= q < self.num_players ==> self.silence@[q] == old(self).silence@[q],
                forall|q: int|
                    #![trigger self.disconnected@[q]]
                    0 <= q < p ==> self.disconnected@[q] == (old(self).disconnected@[q] || (!old(self).local_mask@[q] && old(self).silence@[q] + 1 >= old(self).timeout)),
                forall|q: int|
                    #![trigger self.disconnected@[q]]
                    p <= q < self.num_players ==> self.disconnected@[q] == old(self).disconnected@[q],
                self.events@.len() >= old(self).events@.len(),
                self.events@.take(old(self).events@.len() as int) == old(self).events@,
                forall|i: int|
                    old(self).events@.len() <= i < self.events@.len() ==> {
                        let q = Self::event_player(#[trigger] self.events@[i]);
                        &&& 0 <= q < p
                        &&& !old(self).disconnected@[q]
                        &&& self.disconnected@[q]
                        &&& self.events@[i] == (SessionEvent::PeerDisconnected {
                            player: q as usize,
                        })
                    },
                forall|q: int|
                    #![trigger self.disconnected@[q]]
                    0 <= q < p && !old(self).disconnected@[q] && self.disconnected@[q] ==> exists|
                        i: int,
                    |
                        old(self).events@.len() <= i < self.events@.len() && Self::event_player(
                            #[trigger] self.events@[i],
                        ) == q,
                forall|i: int, j: int|
                    old(self).events@.len() <= i < j < self.events@.len() ==> Self::event_player(
                        self.events@[i],
                    ) < Self::event_player(self.events@[j]),
            decreases self.num_players - p,
        {
            let ghost pre = *self;
            if !self.local_mask[p] && !self.disconnected[p] {
                let s = self.silence[p];
                let bumped = if s >= self.timeout - 1 {
                    self.timeout
                } else {
                    s + 1
                };
                self.silence.set(p, bumped);
                if bumped >= self.timeout {
                    self.disconnected.set(p, true);
                    self.events.push(SessionEvent::PeerDisconnected { player: p });
                }
            }
            proof {
                assert forall|q: int|
                    0 <= q < p + 1 && !old(self).disconnected@[q]
                        && self.disconnected@[q] implies exists|i: int|
                    old(self).events@.len() <= i < self.events@.len() && Self::event_player(
                        #[trigger] self.events@[i],
                    ) == q by {
                    if q == p {
                        assert(Self::event_player(self.events@[self.events@.len() - 1]) == q);
                    } else {
                        let i0 = choose|i: int|
                            old(self).events@.len() <= i < pre.events@.len() && Self::event_player(
                                #[trigger] pre.events@[i],
                            ) == q;
                        assert(Self::event_player(self.events@[i0]) == q);
                    }
                }
            }
            p = p + 1;
        }
    }

    /// Collects the stored input values of one row, absent slots as zero.
    fn collect_row(&self, f: usize) -> (r: Vec<u8>)
        requires
            f < self.hist@.len(),
            self.hist@[f as int]@.len() == self.num_players as int,
        ensures
            r@.len() == self.num_players_spec(),
            forall|p: int|
                0 <= p < self.num_players_spec() ==> #[trigger] r@[p] == (if self.hist@[f as int]@[p].present {
                    self.hist@[f as int]@[p].value
                } else {
                    0u8
                }),
    {
        let mut r: Vec<u8> = Vec::new();
        let mut p: usize = 0;
        while p < self.num_players
            invariant
                p <= self.num_players,
                f < self.hist@.len(),
                self.hist@[f as int]@.len() == self.num_players as int,
                r@.len() == p,
                forall|q: int|
                    0 <= q < p ==> #[trigger] r@[q] == (if self.hist@[f as int]@[q].present {
                        self.hist@[f as int]@[q].value
                    } else {
                        0u8
                    }),
            decreases self.num_players - p,
        {
            let c = self.hist[f][p];
            if c.present {
                r.push(c.value);
            } else {
                r.push(0);
            }
            p = p + 1;
        }
        r
    }

    /// Completes one row ahead of simulating it: a slot that is already
    /// settled stays; the slot of a gone peer becomes the permanent zero
    /// substitute; anything else — absent, or a prediction being re-made
    /// during a rollback replay — becomes a prediction carrying the
    /// previous frame's value forward (zero at frame zero).
    fn fill_row(&mut self, f: usize)
        requires
            f < old(self).hist@.len(),
            forall|g: int|
                0 <= g < old(self).hist@.len() ==> (#[trigger] old(self).hist@[g])@.len() == old(self).num_players,
            old(self).disconnected@.len() == old(self).num_players,
        ensures
            *final(self) == (Session { hist: final(self).hist, ..*old(self) }),
            final(self).hist@.len() == old(self).hist@.len(),
            forall|g: int|
                0 <= g < old(self).hist@.len() && g != f ==> #[trigger] final(self).hist@[g] == old(self).hist@[g],
            final(self).hist@[f as int]@.len() == old(self).num_players as int,
            forall|p: int|
                #![trigger final(self).hist@[f as int]@[p]]
                0 <= p < old(self).num_players ==> final(self).hist@[f as int]@[p] == (if old(self).hist@[f as int]@[p].present && old(self).hist@[f as int]@[p].status
                    != InputStatus::Predicted {
                    old(self).hist@[f as int]@[p]
                } else if old(self).disconnected@[p] {
                    Cell { value: 0, status: InputStatus::Disconnected, present: true }
                } else {
                    Cell {
                        value: (if f == 0 {
                            0u8
                        } else if old(self).hist@[f - 1]@[p].present {
                            old(self).hist@[f - 1]@[p].value
                        } else {
                            0u8
                        }),
                        status: InputStatus::Predicted,
                        present: true,
                    }
                }),
    {
        let mut p: usize = 0;
        while p < self.num_players
            invariant
                p <= self.num_players,
                f < self.hist@.len(),
                *self == (Session { hist: self.hist, ..*old(self) }),
                self.hist@.len() == old(self).hist@.len(),
                self.num_players == old(self).num_players,
                forall|g: int|
                    0 <= g < old(self).hist@.len() && g != f ==> #[trigger] self.hist@[g] == old(self).hist@[g],
                self.hist@[f as int]@.len() == old(self).num_players as int,
                forall|q: int|
                    #![trigger self.hist@[f as int]@[q]]
                    0 <= q < p ==> self.hist@[f as int]@[q] == (if old(self).hist@[f as int]@[q].present && old(self).hist@[f as int]@[q].status
                        != InputStatus::Predicted {
                        old(self).hist@[f as int]@[q]
                    } else if old(self).disconnected@[q] {
                        Cell { value: 0, status: InputStatus::Disconnected, present: true }
                    } else {
                        Cell {
                            value: (if f == 0 {
                                0u8
                            } else if old(self).hist@[f - 1]@[q].present {
                                old(self).hist@[f - 1]@[q].value
                            } else {
                                0u8
                            }),
                            status: InputStatus::Predicted,
                            present: true,
                        }
                    }),
                forall|q: int|
                    #![trigger self.hist@[f as int]@[q]]
                    p <= q < self.num_players ==> self.hist@[f as int]@[q] == old(self).hist@[f as int]@[q],
                forall|g: int|
                    0 <= g < old(self).hist@.len() ==> (#[trigger] old(self).hist@[g])@.len()
                        == old(self).num_players,
                self.disconnected@ == old(self).disconnected@,
                self.disconnected@.len() == self.num_players,
            decreases self.num_players - p,
        {
            let c = self.hist[f][p];
            if !(c.present && !matches!(c.status, InputStatus::Predicted)) {
                if self.disconnected[p] {
                    self.hist[f].set(
                        p,
                        Cell { value: 0, status: InputStatus::Disconnected, present: true },
                    );
                } else {
                    let carry: u8 = if f == 0 {
                        0
                    } else {
                        let prev = self.hist[f - 1][p];
                        if prev.present {
                            prev.value
                        } else {
                            0
                        }
                    };
                    self.hist[f].set(
                        p,
                        Cell { value: carry, status: InputStatus::Predicted, present: true },
                    );
                }
            }
            p = p + 1;
        }
    }

    /// The state a tick is in while re-simulating: `g` frames are replayed
    /// so far, rows outside `rb .. g` are untouched since `mid` (the value
    /// at tick start), replayed rows are fully present with settled slots
    /// kept, and the replay bookkeeping — consumed rows, state, snapshots,
    /// checksums — is consistent up to `g`.
    spec fn replay_inv(self, mid: Session<S>, rb: int, g: int) -> bool {
        &&& self.num_players == mid.num_players
        &&& self.local_mask == mid.local_mask
        &&& self.input_delay == mid.input_delay
        &&& self.timeout == mid.timeout
        &&& self.sync_budget == mid.sync_budget
        &&& self.phase == mid.phase
        &&& self.frame == mid.frame
        &&& self.init == mid.init
        &&& self.rollback_needed is None
        &&& self.settled == mid.settled
        &&& self.disconnected == mid.disconnected
        &&& self.silence == mid.silence
        &&& self.events == mid.events
        &&& self.detector.wf()
        &&& self.detector.interval_spec() == mid.detector.interval_spec()
        &&& self.detector.desyncs_spec() == mid.detector.desyncs_spec()
        &&& self.hist@.len() == mid.hist@.len()
        &&& (forall|r: int|
            #![trigger self.hist@[r]]
            0 <= r < self.hist@.len() && !(rb <= r < g) ==> self.hist@[r] == mid.hist@[r])
        &&& (forall|r: int|
            #![trigger self.hist@[r]]
            0 <= r < self.hist@.len() ==> self.hist@[r]@.len() == self.num_players)
        &&& (forall|r: int, p: int|
            #![trigger self.hist@[r]@[p]]
            rb <= r < g && 0 <= p < self.num_players ==> self.hist@[r]@[p].present && (
            mid.hist@[r]@[p].present && mid.hist@[r]@[p].status != InputStatus::Predicted
                ==> self.hist@[r]@[p] == mid.hist@[r]@[p]))
        &&& self.sim@.len() == g
        &&& (forall|f: int|
            #![trigger self.sim@[f]]
            0 <= f < g ==> self.sim@[f].len() == self.num_players)
        &&& (forall|f: int, p: int|
            #![trigger self.sim@[f][p]]
            0 <= f < g && 0 <= p < self.num_players ==> self.sim@[f][p] == (
            if self.hist@[f]@[p].present {
                self.hist@[f]@[p].value
            } else {
                0
            }))
        &&& self.state == spec_replay(self.init@, self.sim@, g)
        &&& self.snaps.wf()
        &&& self.snaps.capacity_spec() == mid.snaps.capacity_spec()
        &&& self.snaps.len_spec() == mid.snaps.len_spec()
        &&& (self.snaps.len_spec() > 0 ==> self.snaps.lo_spec() == mid.snaps.lo_spec())
        &&& (forall|f: int|
            #![trigger self.snaps.state_at(f)]
            self.snaps.has_frame(f) && f < g ==> self.snaps.state_at(f) == spec_replay(
                self.init@,
                self.sim@,
                f,
            ))
        &&& self.detector.sums_spec().len() == mid.detector.sums_spec().len()
        &&& (forall|f: int|
            #![trigger self.detector.sums_spec()[f]]
            0 <= f < g ==> self.detector.sums_spec()[f] == spec_replay(
                self.init@,
                self.sim@,
                f + 1,
            ).sum())
    }

    /// Whether every player's input at a stored frame is settled.
    fn row_settled_exec(&self, f: usize) -> (r: bool)
        requires
            self.wf(),
            f < self.hist@.len(),
        ensures
            r == self.row_settled(f as int),
    {
        let mut p: usize = 0;
        let mut all: bool = true;
        while p < self.num_players
            invariant
                p <= self.num_players,
                self.wf(),
                f < self.hist@.len(),
                all == (forall|q: int| 0 <= q < p ==> self.input_settled(f as int, q)),
            decreases self.num_players - p,
        {
            let c = self.hist[f][p];
            let ok = c.present && !matches!(c.status, InputStatus::Predicted);
            proof {
                assert(ok == self.input_settled(f as int, p as int));
            }
            all = all && ok;
            p = p + 1;
        }
        all
    }

    /// Moves the confirmed watermark forward over every newly settled row.
    fn rescan_watermark(&mut self)
        requires
            old(self).wf(),
        ensures
            final(self).wf(),
            *final(self) == (Session { settled: final(self).settled, ..*old(self) }),
            final(self).settled >= old(self).settled,
            final(self).watermark_tight(),
    {
        let mut done = false;
        while !done
            invariant
                self.wf(),
                *self == (Session { settled: self.settled, ..*old(self) }),
                self.settled >= old(self).settled,
                done ==> self.watermark_tight(),
            decreases self.hist@.len() - self.settled + (if done {
                0int
            } else {
                1int
            }),
        {
            if self.settled < self.hist.len() {
                let f = self.settled;
                if self.row_settled_exec(f) {
                    proof {
                        assert forall|p: int|
                            0 <= p < self.num_players implies self.hist@[f as int]@[p].present
                            && self.hist@[f as int]@[p].status != InputStatus::Predicted by {
                            assert(self.input_settled(f as int, p));
                        }
                    }
                    self.settled = self.settled + 1;
                } else {
                    done = true;
                }
            } else {
                done = true;
            }
        }
    }

    /// Runs one tick: the single per-tick entry point.
    ///
    /// `local_inputs` holds one input per player handle; only local players'
    /// slots are read. The tick, in order: stores the local inputs,
    /// confirmed, at the delayed frame `current + input_delay`; advances the
    /// disconnect clocks, declaring silent peers gone; if a late remote
    /// input contradicted a prediction since the last tick, restores the
    /// snapshot of the earliest mismatched frame and re-simulates forward
    /// from it with the corrected and re-predicted inputs; fills the current
    /// frame's missing inputs with predictions (or the zero substitute for
    /// gone peers); captures a snapshot of the pre-step state
    /// unconditionally; steps the simulation once; records the new state's
    /// checksum; and moves the confirmed watermark forward.
    ///
    /// Fails with `SnapshotError::Evicted` — ending the session — exactly
    /// when the pending rollback reaches below the snapshot window;
    /// otherwise reports the rollback it performed, or the frame it
    /// advanced.
    pub fn advance_frame(&mut self, local_inputs: &Vec<u8>) -> (r: Result<
        AdvanceOutcome,
        SnapshotError,
    >)
        requires
            old(self).wf(),
            old(self).phase_spec() == SessionState::Running,
            local_inputs@.len() == old(self).num_players_spec(),
            old(self).frame_spec() + old(self).delay_spec() + 1 <= usize::MAX,
        ensures
            final(self).wf(),
            final(self).num_players_spec() == old(self).num_players_spec(),
            final(self).delay_spec() == old(self).delay_spec(),
            final(self).timeout_spec() == old(self).timeout_spec(),
            final(self).interval_spec() == old(self).interval_spec(),
            final(self).window_spec() == old(self).window_spec(),
            final(self).budget_spec() == old(self).budget_spec(),
            final(self).init_spec() == old(self).init_spec(),
            final(self).desyncs_spec() == old(self).desyncs_spec(),
            forall|p: int| #[trigger] final(self).local_spec(p) == old(self).local_spec(p),
            r is Err <==> (old(self).rollback_spec() is Some && !old(self).snapshot_holds(
                old(self).rollback_spec().unwrap() as int,
            )),
            r is Err ==> r == Err::<AdvanceOutcome, SnapshotError>(SnapshotError::Evicted) && final(self).phase_spec() == SessionState::Disconnected && final(self).frame_spec() == old(self).frame_spec() && final(self).rollback_spec() == old(self).rollback_spec(),
            r is Ok ==> final(self).phase_spec() == SessionState::Running && final(self).frame_spec() == old(self).frame_spec() + 1 && final(self).rollback_spec() is None
                && final(self).sums_spec().len() == old(self).frame_spec() + 1 && final(self).watermark_tight(),
            r is Ok ==> r == Ok::<AdvanceOutcome, SnapshotError>(
                match old(self).rollback_spec() {
                    Some(rb) => AdvanceOutcome::RollbackPerformed {
                        from: rb,
                        to: old(self).frame_spec() as usize,
                    },
                    None => AdvanceOutcome::Advanced { frame: old(self).frame_spec() as usize },
                },
            ),
            final(self).rows_stored() >= old(self).frame_spec() + old(self).delay_spec() + 1,
            final(self).rows_stored() >= old(self).rows_stored(),
            final(self).settled_spec() >= old(self).settled_spec(),
            forall|f: int, p: int|
                #![trigger old(self).input_settled(f, p)]
                old(self).input_settled(f, p) && !(f == old(self).frame_spec() + old(self).delay_spec() && old(self).local_spec(p)) ==> {
                    &&& final(self).input_settled(f, p)
                    &&& final(self).value_at(f, p) == old(self).value_at(f, p)
                    &&& final(self).confirmed_at(f, p) == old(self).confirmed_at(f, p)
                    &&& final(self).disconnected_at(f, p) == old(self).disconnected_at(f, p)
                },
            r is Ok ==> (forall|p: int|
                #![trigger final(self).value_at(old(self).frame_spec(), p)]
                0 <= p < old(self).num_players_spec() && !old(self).input_settled(
                    old(self).frame_spec(),
                    p,
                ) && !old(self).local_spec(p) ==> final(self).value_at(old(self).frame_spec(), p)
                    == (if final(self).disc_spec(p) {
                    0u8
                } else if old(self).frame_spec() == 0 {
                    0u8
                } else {
                    final(self).value_at(old(self).frame_spec() - 1, p)
                }) && final(self).predicted_at(old(self).frame_spec(), p) == !final(self).disc_spec(
                    p,
                )),
            forall|p: int|
                0 <= p < old(self).num_players_spec() && old(self).local_spec(p)
                    ==> #[trigger] final(self).confirmed_at(
                    old(self).frame_spec() + old(self).delay_spec(),
                    p,
                ) && final(self).value_at(old(self).frame_spec() + old(self).delay_spec(), p)
                    == local_inputs@[p],
            forall|p: int|
                0 <= p < old(self).num_players_spec() ==> #[trigger] final(self).disc_spec(p) == (
                old(self).disc_spec(p) || (!old(self).local_spec(p) && old(self).silence_spec(p) + 1
                    >= old(self).timeout_spec())),
            forall|p: int|
                0 <= p < old(self).num_players_spec() ==> #[trigger] final(self).silence_spec(p)
                    == (if old(self).local_spec(p) || old(self).disc_spec(p) {
                    old(self).silence_spec(p)
                } else if old(self).silence_spec(p) + 1 >= old(self).timeout_spec() {
                    old(self).timeout_spec()
                } else {
                    old(self).silence_spec(p) + 1
                }),
            final(self).events_spec().len() >= old(self).events_spec().len(),
            final(self).events_spec().take(old(self).events_spec().len() as int) == old(self).events_spec(),
            forall|i: int|
                old(self).events_spec().len() <= i < final(self).events_spec().len() ==> {
                    let p = Self::event_player(#[trigger] final(self).events_spec()[i]);
                    &&& 0 <= p < old(self).num_players_spec()
                    &&& !old(self).disc_spec(p)
                    &&& final(self).disc_spec(p)
                    &&& final(self).events_spec()[i] == (SessionEvent::PeerDisconnected {
                        player: p as usize,
                    })
                },
            forall|p: int|
                0 <= p < old(self).num_players_spec() && !old(self).disc_spec(p) && final(self).disc_spec(p) ==> exists|i: int|
                    old(self).events_spec().len() <= i < final(self).events_spec().len()
                        && Self::event_player(#[trigger] final(self).events_spec()[i]) == p,
            forall|i: int, j: int|
                old(self).events_spec().len() <= i < j < final(self).events_spec().len()
                    ==> Self::event_player(final(self).events_spec()[i]) < Self::event_player(
                    final(self).events_spec()[j],
                ),
    {
        let cur = self.frame;
        self.grow_rows(cur + self.input_delay + 1);
        self.scan_timeouts();
        let ghost postscan = *self;
        self.store_local(local_inputs);
        let ghost mid = *self;
        let rollback = self.rollback_needed;
        let ghost rbx: int = match rollback {
            Some(rb) => rb as int,
            None => cur as int,
        };
        if let Some(rb) = rollback {
            match self.snaps.restore(rb) {
                Err(e) => {
                    self.phase = SessionState::Disconnected;
                    proof {
                        assert forall|p: int|
                            0 <= p < old(self).num_players_spec() && !old(self).disc_spec(p)
                                && self.disc_spec(p) implies exists|i: int|
                            old(self).events_spec().len() <= i < self.events_spec().len()
                                && Self::event_player(#[trigger] self.events_spec()[i]) == p by {
                            assert(self.disconnected@[p]);
                            assert(postscan.disconnected@[p]);
                            assert(!old(self).disconnected@[p]);
                            assert(exists|i: int|
                                old(self).events@.len() <= i < postscan.events@.len()
                                    && Self::event_player(#[trigger] postscan.events@[i]) == p);
                            let i0 = choose|i: int|
                                old(self).events@.len() <= i < postscan.events@.len()
                                    && Self::event_player(#[trigger] postscan.events@[i]) == p;
                            assert(self.events@ == postscan.events@);
                            assert(Self::event_player(self.events_spec()[i0]) == p);
                            assert(old(self).events_spec().len() <= i0 < self.events_spec().len());
                        }
                    }
                    return Err(e);
                },
                Ok(s) => {
                    self.state = s;
                    self.rollback_needed = None;
                    self.sim = Ghost(mid.sim@.take(rb as int));
                    proof {
                        assert forall|f: int|
                            0 <= f < rb implies crate::state::replay_row(mid.sim@, f)
                            == crate::state::replay_row(self.sim@, f) by {}
                        crate::state::lemma_replay_prefix_range(
                            mid.init@,
                            mid.sim@,
                            self.sim@,
                            rb as int,
                        );
                        assert(self.replay_inv(mid, rbx, rb as int));
                    }
                },
            }
        } else {
            proof {
                assert(self.sim@ =~= mid.sim@);
                assert(self.replay_inv(mid, rbx, cur as int));
            }
        }
        let mut g: usize = if let Some(rb) = rollback {
            rb
        } else {
            cur
        };
        while g < cur
            invariant
                rbx <= g <= cur,
                mid.wf(),
                mid.frame == cur,
                mid.rollback_needed == rollback,
                rollback is Some ==> rbx == rollback.unwrap() && rbx < cur,
                rollback is None ==> rbx == cur,
                rollback is Some ==> mid.snaps.has_frame(rbx),
                self.replay_inv(mid, rbx, g as int),
                cur < self.hist@.len(),
            decreases cur - g,
        {
            let ghost pre = *self;
            self.fill_row(g);
            let row = self.collect_row(g);
            proof {
                assert(rollback is Some);
                assert(mid.snaps.hi_spec() == cur - 1);
                assert(self.snaps.lo_spec() == mid.snaps.lo_spec());
                assert(rbx >= mid.snaps.lo_spec());
                assert(self.snaps.lo_spec() <= g <= self.snaps.hi_spec());
            }
            self.snaps.capture(g, self.state);
            let mut st = self.state;
            st.step(&row);
            self.state = st;
            self.sim = Ghost(self.sim@.push(row@));
            proof {
                assert forall|f: int|
                    0 <= f < g implies crate::state::replay_row(pre.sim@, f)
                    == crate::state::replay_row(self.sim@, f) by {}
                crate::state::lemma_replay_prefix_range(mid.init@, pre.sim@, self.sim@, g as int);
                assert(crate::state::replay_row(self.sim@, g as int) == row@);
                assert(self.state == spec_replay(self.init@, self.sim@, g + 1));
            }
            let c = self.state.checksum();
            self.detector.rewrite(g, c);
            proof {
                assert(self.replay_inv(mid, rbx, g + 1));
            }
            g = g + 1;
        }
        let ghost pre = *self;
        self.fill_row(cur);
        let row = self.collect_row(cur);
        self.snaps.capture(cur, self.state);
        let mut st = self.state;
        st.step(&row);
        self.state = st;
        self.sim = Ghost(self.sim@.push(row@));
        proof {
            assert forall|f: int|
                0 <= f < cur implies crate::state::replay_row(pre.sim@, f)
                == crate::state::replay_row(self.sim@, f) by {}
            crate::state::lemma_replay_prefix_range(mid.init@, pre.sim@, self.sim@, cur as int);
            assert(crate::state::replay_row(self.sim@, cur as int) == row@);
            assert(self.state == spec_replay(self.init@, self.sim@, cur + 1));
        }
        let c = self.state.checksum();
        self.detector.record(c);
        self.frame = cur + 1;
        proof {
            assert(self.wf());
        }
        self.rescan_watermark();
        proof {
            assert forall|p: int|
                0 <= p < old(self).num_players_spec() && !old(self).disc_spec(p) && self.disc_spec(
                    p,
                ) implies exists|i: int|
                old(self).events_spec().len() <= i < self.events_spec().len()
                    && Self::event_player(#[trigger] self.events_spec()[i]) == p by {
                assert(self.disconnected@[p]);
                assert(postscan.disconnected@[p]);
                assert(!old(self).disconnected@[p]);
                assert(exists|i: int|
                    old(self).events@.len() <= i < postscan.events@.len() && Self::event_player(
                        #[trigger] postscan.events@[i],
                    ) == p);
                let i0 = choose|i: int|
                    old(self).events@.len() <= i < postscan.events@.len() && Self::event_player(
                        #[trigger] postscan.events@[i],
                    ) == p;
                assert(self.events@ == postscan.events@);
                assert(Self::event_player(self.events_spec()[i0]) == p);
                assert(old(self).events_spec().len() <= i0 < self.events_spec().len());
            }
        }
        match rollback {
            Some(rb) => Ok(AdvanceOutcome::RollbackPerformed { from: rb, to: cur }),
            None => Ok(AdvanceOutcome::Advanced { frame: cur }),
        }
    }

    /// Whether the snapshot of frame `f` is currently held.
    pub closed spec fn snapshot_holds(self, f: int) -> bool {
        self.snaps.has_frame(f)
    }

    /// The stored input rows, one per stored frame, absent slots as zero.
    pub open spec fn stored_inputs(self) -> Seq<Seq<u8>> {
        Seq::new(self.rows_stored() as nat, |f: int| self.stored_row(f))
    }

    /// Law (rollback correctness): with no rollback pending, the current
    /// state is exactly the deterministic replay of the stored input rows
    /// from the initial state. In particular, after a late input corrected
    /// frame `F` and the following tick rolled back and re-simulated, the
    /// state equals the one a straight simulation with the true input at
    /// `F` would have produced — speculation leaves no trace.
    pub proof fn lemma_state_is_replay(self)
        requires
            self.wf(),
            self.rollback_spec() is None,
        ensures
            self.state_spec() == spec_replay(
                self.init_spec(),
                self.stored_inputs(),
                self.frame_spec(),
            ),
    {
        assert forall|f: int|
            0 <= f < self.frame_spec() implies replay_row(self.sim@, f) == replay_row(
            self.stored_inputs(),
            f,
        ) by {
            assert(self.sim@[f] =~= self.stored_row(f));
        }
        crate::state::lemma_replay_deterministic(
            self.init_spec(),
            self.sim@,
            self.stored_inputs(),
            self.frame_spec(),
        );
    }

    /// Law: with no rollback pending, every recorded checksum is the
    /// checksum of the deterministic replay of the stored input rows up to
    /// and past its frame.
    pub proof fn lemma_checksums_follow_replay(self)
        requires
            self.wf(),
            self.rollback_spec() is None,
        ensures
            forall|f: int|
                0 <= f < self.frame_spec() ==> #[trigger] self.sums_spec()[f] == spec_replay(
                    self.init_spec(),
                    self.stored_inputs(),
                    f + 1,
                ).sum(),
    {
        assert forall|f: int|
            0 <= f < self.frame_spec() implies replay_row(self.sim@, f) == replay_row(
            self.stored_inputs(),
            f,
        ) by {
            assert(self.sim@[f] =~= self.stored_row(f));
        }
        assert forall|f: int|
            0 <= f < self.frame_spec() implies #[trigger] self.sums_spec()[f] == spec_replay(
            self.init_spec(),
            self.stored_inputs(),
            f + 1,
        ).sum() by {
            crate::state::lemma_replay_deterministic(
                self.init_spec(),
                self.sim@,
                self.stored_inputs(),
                f + 1,
            );
        }
    }

    /// Law (cross-peer agreement): two sessions seeded with the same
    /// initial state whose stored input histories agree on every frame
    /// below `n` record equal checksums for every frame below `n`. Two
    /// peers whose inputs for a frame are confirmed and identical therefore
    /// agree on that frame's checksum, whatever predictions and rollbacks
    /// each went through on the way.
    pub proof fn lemma_checksum_agreement(self, other: Session<S>, n: int)
        requires
            self.wf(),
            other.wf(),
            self.rollback_spec() is None,
            other.rollback_spec() is None,
            self.init_spec() == other.init_spec(),
            0 <= n <= self.frame_spec(),
            n <= other.frame_spec(),
            forall|f: int, p: int|
                0 <= f < n && 0 <= p < self.num_players_spec() ==> #[trigger] self.value_at(f, p)
                    == other.value_at(f, p),
            self.num_players_spec() == other.num_players_spec(),
        ensures
            forall|f: int|
                0 <= f < n ==> #[trigger] self.sums_spec()[f] == other.sums_spec()[f],
    {
        assert forall|f: int|
            0 <= f < n implies replay_row(self.sim@, f) == replay_row(other.sim@, f) by {
            assert forall|p: int|
                0 <= p < self.num_players_spec() implies self.sim@[f][p] == other.sim@[f][p] by {
                assert(self.sim@[f][p] == self.value_at(f, p));
                assert(other.sim@[f][p] == other.value_at(f, p));
            }
            assert(self.sim@[f].len() == self.num_players_spec());
            assert(other.sim@[f].len() == other.num_players_spec());
            assert(self.sim@[f] =~= other.sim@[f]);
        }
        assert forall|f: int| 0 <= f < n implies #[trigger] self.sums_spec()[f]
            == other.sums_spec()[f] by {
            crate::state::lemma_replay_deterministic(self.init_spec(), self.sim@, other.sim@, f + 1);
        }
    }

    /// Law (snapshot retention): the ring holds exactly the last `window`
    /// simulated frames — every frame from `frame - window` (or zero) up to
    /// the last simulated one, and nothing else.
    pub proof fn lemma_snapshot_range(self)
        requires
            self.wf(),
        ensures
            forall|f: int|
                #[trigger] self.snapshot_holds(f) <==> ((if self.frame_spec()
                    >= self.window_spec() {
                    self.frame_spec() - self.window_spec()
                } else {
                    0
                }) <= f < self.frame_spec()),
    {
    }

    /// Law (window sufficiency): a pending rollback no deeper than the
    /// snapshot window finds its snapshot still held, so the next tick
    /// cannot fail with `SnapshotError::Evicted`. With the window sized
    /// `input_delay + max_latency_frames`, a remote input arriving within
    /// that many frames of its own frame always rolls back safely; only a
    /// deeper correction is fatal.
    pub proof fn lemma_window_sufficient(self)
        requires
            self.wf(),
            self.rollback_spec() is Some,
            self.frame_spec() - (self.rollback_spec().unwrap() as int) <= self.window_spec(),
        ensures
            self.snapshot_holds(self.rollback_spec().unwrap() as int),
    {
    }
}

} // verus!
