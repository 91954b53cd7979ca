//! The deterministic step function the session consumes, and a concrete
//! two-player simulation state implementing it.
//!
//! The session only needs three things of a simulation state: it advances by
//! exactly one fixed tick as a pure function of (prior state, one input per
//! player), it folds into a stable checksum, and it copies bitwise so a
//! snapshot restores it exactly. Anything satisfying `RollbackState` can be
//! driven; `GameState` is the game shipped with the library: two avatars
//! that rotate under input, each with one projectile in flight at a time.
//! All quantities are integers — angles in whole rotation steps, distances
//! in integer units — so a step is exactly reproducible on every peer.

use vstd::prelude::*;

use crate::checksum;
use crate::input;

verus! {

/// A simulation state the rollback session can drive.
///
/// `Copy` is required so that snapshots are bitwise copies: a restored state
/// is equal to the state that was captured, with nothing hidden outside the
/// value.
pub trait RollbackState: Sized + Copy {
    /// The state one deterministic tick later, given one input per player.
    /// A pure function: no clock, no unseeded randomness. Missing inputs
    /// count as the zero input.
    spec fn next(self, inputs: Seq<u8>) -> Self;

    /// The stable checksum of the state.
    spec fn sum(self) -> u64;

    /// Advances the state by exactly one tick.
    fn step(&mut self, inputs: &Vec<u8>)
        ensures
            *final(self) == old(self).next(inputs@),
    ;

    /// Computes the state's checksum.
    fn checksum(&self) -> (c: u64)
        ensures
            c == self.sum(),
    ;
}

/// The input row fed into tick `f` of a replay: the stored row, or the empty
/// row where none is stored.
pub open spec fn replay_row(rows: Seq<Seq<u8>>, f: int) -> Seq<u8> {
    if 0 <= f < rows.len() {
        rows[f]
    } else {
        Seq::empty()
    }
}

/// The state reached by replaying the step function from `init` through the
/// first `n` input rows, in order. This is the meaning of a simulation: the
/// state of any frame is a pure function of the initial state and the input
/// history before it.
pub open spec fn spec_replay<S: RollbackState>(init: S, rows: Seq<Seq<u8>>, n: int) -> S
    decreases n,
{
    if n <= 0 {
        init
    } else {
        spec_replay(init, rows, n - 1).next(replay_row(rows, n - 1))
    }
}

/// Law: a replayed state depends only on the input rows before it. Two input
/// histories that agree on every frame below `n` reach the same state — and
/// so the same checksum — at `n`. In particular, replaying the same confirmed
/// inputs from the same initial state is deterministic: any two runs agree
/// frame by frame, on each peer.
pub proof fn lemma_replay_deterministic<S: RollbackState>(
    init: S,
    rows1: Seq<Seq<u8>>,
    rows2: Seq<Seq<u8>>,
    n: int,
)
    requires
        forall|f: int| 0 <= f < n ==> replay_row(rows1, f) == replay_row(rows2, f),
    ensures
        spec_replay(init, rows1, n) == spec_replay(init, rows2, n),
        spec_replay(init, rows1, n).sum() == spec_replay(init, rows2, n).sum(),
    decreases n,
{
    if n > 0 {
        lemma_replay_deterministic(init, rows1, rows2, n - 1);
    }
}

/// Law: every prefix of a replay depends only on the input rows before it.
pub proof fn lemma_replay_prefix_range<S: RollbackState>(
    init: S,
    rows1: Seq<Seq<u8>>,
    rows2: Seq<Seq<u8>>,
    n: int,
)
    requires
        forall|f: int| 0 <= f < n ==> replay_row(rows1, f) == replay_row(rows2, f),
    ensures
        forall|k: int|
            0 <= k <= n ==> #[trigger] spec_replay(init, rows1, k) == spec_replay(init, rows2, k),
{
    assert forall|k: int|
        0 <= k <= n implies #[trigger] spec_replay(init, rows1, k) == spec_replay(
        init,
        rows2,
        k,
    ) by {
        lemma_replay_deterministic(init, rows1, rows2, k);
    }
}

/// The rows of an input table, viewed as a sequence of sequences.
pub open spec fn rows_view(rows: Seq<Vec<u8>>) -> Seq<Seq<u8>> {
    Seq::new(rows.len(), |i: int| rows[i]@)
}

/// Replays a whole input history from an initial state and hands back the
/// checksum after every frame: the trace a synchronization test compares
/// between runs. Deterministic: two calls over equal inputs return equal
/// traces (law `lemma_replay_deterministic`).
pub fn replay_checksums<S: RollbackState>(init: S, rows: &Vec<Vec<u8>>) -> (sums: Vec<u64>)
    ensures
        sums@.len() == rows@.len(),
        forall|f: int|
            0 <= f < rows@.len() ==> #[trigger] sums@[f] == spec_replay(
                init,
                rows_view(rows@),
                f + 1,
            ).sum(),
{
    let mut sums: Vec<u64> = Vec::new();
    let mut st = init;
    let mut f: usize = 0;
    while f < rows.len()
        invariant
            f <= rows@.len(),
            sums@.len() == f,
            st == spec_replay(init, rows_view(rows@), f as int),
            forall|g: int|
                0 <= g < f ==> #[trigger] sums@[g] == spec_replay(
                    init,
                    rows_view(rows@),
                    g + 1,
                ).sum(),
        decreases rows@.len() - f,
    {
        st.step(&rows[f]);
        sums.push(st.checksum());
        f = f + 1;
    }
    sums
}

/// Rotation steps in a full turn.
pub const TURN_STEPS: u32 = 240;

/// Distance a projectile travels per tick, in world millesimal units.
pub const SHOT_SPEED: u64 = 83;

/// Ticks a projectile lives after it is fired.
pub const SHOT_TTL: u32 = 120;

/// Distance at which a projectile stops gaining range.
pub const SHOT_RANGE: u64 = 1000000;

/// One projectile: the direction it was fired in, how far it has flown and
/// how many ticks it has left. A `ttl` of zero means no projectile is in
/// flight and the other fields are zero.
#[derive(Clone, Copy, PartialEq, Eq, Structural, Debug)]
pub struct Shot {
    pub yaw: u32,
    pub pitch: u32,
    pub dist: u64,
    pub ttl: u32,
}

/// One player's rollback-relevant state: orientation, fixed position on the
/// x axis, and the single projectile it may have in flight.
#[derive(Clone, Copy, PartialEq, Eq, Structural, Debug)]
pub struct PlayerAvatar {
    pub yaw: u32,
    pub pitch: u32,
    pub x: u64,
    pub shot: Shot,
}

/// The whole two-player simulation state.
#[derive(Clone, Copy, PartialEq, Eq, Structural, Debug)]
pub struct GameState {
    pub p0: PlayerAvatar,
    pub p1: PlayerAvatar,
}

/// The input of player `i`, or zero where none was handed in.
pub open spec fn input_of(inputs: Seq<u8>, i: int) -> u8 {
    if 0 <= i < inputs.len() {
        inputs[i]
    } else {
        0
    }
}

/// An angle moved by one step in either direction, kept in
/// `0 .. TURN_STEPS`.
pub open spec fn spec_turn(a: u32, d: int) -> u32 {
    if d > 0 {
        ((a % TURN_STEPS + 1) % (TURN_STEPS as int)) as u32
    } else if d < 0 {
        ((a % TURN_STEPS + (TURN_STEPS - 1)) % (TURN_STEPS as int)) as u32
    } else {
        (a % TURN_STEPS) as u32
    }
}

/// The empty projectile slot.
pub open spec fn spec_no_shot() -> Shot {
    Shot { yaw: 0, pitch: 0, dist: 0, ttl: 0 }
}

/// One player's state after one tick under one input: rotate, then fire if
/// the barrel is free, then move the projectile, then age it.
pub open spec fn spec_step_player(p: PlayerAvatar, inp: u8) -> PlayerAvatar {
    let yaw = spec_turn(p.yaw, input::spec_yaw_delta(inp));
    let pitch = spec_turn(p.pitch, input::spec_pitch_delta(inp));
    let fired = if input::spec_fire(inp) && p.shot.ttl == 0 {
        Shot { yaw, pitch, dist: 0, ttl: SHOT_TTL }
    } else {
        p.shot
    };
    let moved = if fired.ttl > 0 && fired.dist < SHOT_RANGE {
        Shot { dist: (fired.dist + SHOT_SPEED) as u64, ..fired }
    } else {
        fired
    };
    let aged = if moved.ttl > 0 {
        if moved.ttl == 1 {
            spec_no_shot()
        } else {
            Shot { ttl: (moved.ttl - 1) as u32, ..moved }
        }
    } else {
        moved
    };
    PlayerAvatar { yaw, pitch, x: p.x, shot: aged }
}

/// Turns an angle by a decoded rotation delta.
fn turn(a: u32, d: i8) -> (r: u32)
    requires
        -1 <= d <= 1,
    ensures
        r == spec_turn(a, d as int),
{
    let base = a % TURN_STEPS;
    if d > 0 {
        (base + 1) % TURN_STEPS
    } else if d < 0 {
        (base + (TURN_STEPS - 1)) % TURN_STEPS
    } else {
        base
    }
}

/// Advances one player by one tick under one input.
fn step_player(p: &PlayerAvatar, inp: u8) -> (r: PlayerAvatar)
    ensures
        r == spec_step_player(*p, inp),
{
    let (dy, dp) = input::rotation(inp);
    let yaw = turn(p.yaw, dy);
    let pitch = turn(p.pitch, dp);
    let mut shot = p.shot;
    if input::fire(inp) && shot.ttl == 0 {
        shot = Shot { yaw, pitch, dist: 0, ttl: SHOT_TTL };
    }
    if shot.ttl > 0 && shot.dist < SHOT_RANGE {
        shot = Shot { dist: shot.dist + SHOT_SPEED, ..shot };
    }
    if shot.ttl > 0 {
        if shot.ttl == 1 {
            shot = Shot { yaw: 0, pitch: 0, dist: 0, ttl: 0 };
        } else {
            shot = Shot { ttl: shot.ttl - 1, ..shot };
        }
    }
    PlayerAvatar { yaw, pitch, x: p.x, shot }
}

impl GameState {
    /// The word sequence the checksum folds: every rollback-relevant field
    /// of both players, players in handle order, fields in a fixed order.
    pub open spec fn words(self) -> Seq<u64> {
        seq![
            self.p0.yaw as u64,
            self.p0.pitch as u64,
            self.p0.x,
            self.p0.shot.yaw as u64,
            self.p0.shot.pitch as u64,
            self.p0.shot.dist,
            self.p0.shot.ttl as u64,
            self.p1.yaw as u64,
            self.p1.pitch as u64,
            self.p1.x,
            self.p1.shot.yaw as u64,
            self.p1.shot.pitch as u64,
            self.p1.shot.dist,
            self.p1.shot.ttl as u64,
        ]
    }

    /// The session-start state: the two avatars face each other from fixed
    /// positions on the x axis, barrels empty.
    pub open spec fn spec_initial() -> GameState {
        GameState {
            p0: PlayerAvatar { yaw: 0, pitch: 0, x: 2000, shot: spec_no_shot() },
            p1: PlayerAvatar {
                yaw: (TURN_STEPS / 2) as u32,
                pitch: 0,
                x: 6000,
                shot: spec_no_shot(),
            },
        }
    }

    /// Builds the session-start state.
    pub fn initial() -> (r: GameState)
        ensures
            r == GameState::spec_initial(),
    {
        GameState {
            p0: PlayerAvatar {
                yaw: 0,
                pitch: 0,
                x: 2000,
                shot: Shot { yaw: 0, pitch: 0, dist: 0, ttl: 0 },
            },
            p1: PlayerAvatar {
                yaw: TURN_STEPS / 2,
                pitch: 0,
                x: 6000,
                shot: Shot { yaw: 0, pitch: 0, dist: 0, ttl: 0 },
            },
        }
    }
}

impl RollbackState for GameState {
    open spec fn next(self, inputs: Seq<u8>) -> GameState {
        GameState {
            p0: spec_step_player(self.p0, input_of(inputs, 0)),
            p1: spec_step_player(self.p1, input_of(inputs, 1)),
        }
    }

    open spec fn sum(self) -> u64 {
        checksum::spec_hash(self.words())
    }

    fn step(&mut self, inputs: &Vec<u8>) {
        let i0: u8 = if inputs.len() > 0 {
            inputs[0]
        } else {
            0
        };
        let i1: u8 = if inputs.len() > 1 {
            inputs[1]
        } else {
            0
        };
        self.p0 = step_player(&self.p0, i0);
        self.p1 = step_player(&self.p1, i1);
    }

    fn checksum(&self) -> (c: u64) {
        let mut ws: Vec<u64> = Vec::new();
        ws.push(self.p0.yaw as u64);
        ws.push(self.p0.pitch as u64);
        ws.push(self.p0.x);
        ws.push(self.p0.shot.yaw as u64);
        ws.push(self.p0.shot.pitch as u64);
        ws.push(self.p0.shot.dist);
        ws.push(self.p0.shot.ttl as u64);
        ws.push(self.p1.yaw as u64);
        ws.push(self.p1.pitch as u64);
        ws.push(self.p1.x);
        ws.push(self.p1.shot.yaw as u64);
        ws.push(self.p1.shot.pitch as u64);
        ws.push(self.p1.shot.dist);
        ws.push(self.p1.shot.ttl as u64);
        assert(ws@ =~= self.words());
        checksum::hash_words(&ws)
    }
}

} // verus!
