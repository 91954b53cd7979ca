//! Checksum and desync detection.
//!
//! Each peer folds its authoritative state into a stable 64-bit hash per
//! frame and exchanges the hashes at a configurable interval. A mismatch for
//! the same confirmed frame is a desync: it is recorded and counted, never
//! silently dropped, but it does not halt the session — no automatic resync
//! protocol exists, so recovery is left to the operator.
//!
//! Values that come from floating-point fields enter as their raw bit
//! patterns; non-finite patterns are rejected up front, since NaN payloads
//! are not hash-stable.

use vstd::prelude::*;

verus! {

/// Offset basis of the 64-bit FNV-1a fold.
pub const HASH_SEED: u64 = 0xcbf29ce484222325;

/// Multiplier of the 64-bit FNV-1a fold.
pub const HASH_PRIME: u64 = 0x100000001b3;

/// One fold step: absorb a word into the running hash.
pub open spec fn spec_mix(h: u64, w: u64) -> u64 {
    (h ^ w).wrapping_mul(HASH_PRIME)
}

/// The hash of a word sequence: the seed folded through every word in order.
pub open spec fn spec_hash(ws: Seq<u64>) -> u64
    decreases ws.len(),
{
    if ws.len() == 0 {
        HASH_SEED
    } else {
        spec_mix(spec_hash(ws.drop_last()), ws.last())
    }
}

/// Folds a word sequence into its 64-bit hash.
///
/// Pure: the result depends on the words alone, so two runs that fold the
/// same sequence agree on every machine.
pub fn hash_words(ws: &Vec<u64>) -> (h: u64)
    ensures
        h == spec_hash(ws@),
{
    let mut h: u64 = HASH_SEED;
    let mut i: usize = 0;
    while i < ws.len()
        invariant
            i <= ws@.len(),
            h == spec_hash(ws@.subrange(0, i as int)),
        decreases ws@.len() - i,
    {
        assert(ws@.subrange(0, i + 1).drop_last() =~= ws@.subrange(0, i as int));
        h = (h ^ ws[i]).wrapping_mul(HASH_PRIME);
        i = i + 1;
    }
    assert(ws@.subrange(0, ws@.len() as int) =~= ws@);
    h
}

/// Failure of a checksum computation.
#[derive(Clone, Copy, PartialEq, Eq, Structural, Debug)]
pub enum ChecksumError {
    /// A hashed field held a non-finite floating-point bit pattern.
    NonFinite,
}

/// Whether a 32-bit float bit pattern is finite: the exponent bits are not
/// all ones (all ones encodes an infinity or a NaN).
pub open spec fn spec_finite_bits(w: u32) -> bool {
    (w / 0x800000) % 256 != 255
}

/// Tests a 32-bit float bit pattern for finiteness.
pub fn finite_bits(w: u32) -> (r: bool)
    ensures
        r == spec_finite_bits(w),
{
    proof {
        assert((w & 0x7f800000 != 0x7f800000) == ((w / 0x800000) % 256 != 255)) by (bit_vector);
    }
    w & 0x7f800000 != 0x7f800000
}

/// The gameplay-relevant words of a transform, as raw 32-bit float bit
/// patterns: translation x, y, z and rotation x, y, z, w. Scale is excluded
/// deliberately — it is cosmetic and takes no part in gameplay.
pub struct TransformBits {
    pub translation: (u32, u32, u32),
    pub rotation: (u32, u32, u32, u32),
}

impl TransformBits {
    /// The words in hashing order.
    pub open spec fn words(self) -> Seq<u64> {
        seq![
            self.translation.0 as u64,
            self.translation.1 as u64,
            self.translation.2 as u64,
            self.rotation.0 as u64,
            self.rotation.1 as u64,
            self.rotation.2 as u64,
            self.rotation.3 as u64,
        ]
    }

    /// Whether every word is a finite float bit pattern.
    pub open spec fn finite(self) -> bool {
        &&& spec_finite_bits(self.translation.0)
        &&& spec_finite_bits(self.translation.1)
        &&& spec_finite_bits(self.translation.2)
        &&& spec_finite_bits(self.rotation.0)
        &&& spec_finite_bits(self.rotation.1)
        &&& spec_finite_bits(self.rotation.2)
        &&& spec_finite_bits(self.rotation.3)
    }
}

/// Hashes a transform's gameplay-relevant fields, translation before
/// rotation, skipping scale.
///
/// Fails fast with `ChecksumError::NonFinite` — and hashes nothing — if any
/// field's bit pattern is an infinity or a NaN, exactly when `t.finite()`
/// does not hold.
pub fn checksum_transform(t: &TransformBits) -> (r: Result<u64, ChecksumError>)
    ensures
        t.finite() ==> r == Ok::<u64, ChecksumError>(spec_hash(t.words())),
        !t.finite() ==> r == Err::<u64, ChecksumError>(ChecksumError::NonFinite),
{
    let ok = finite_bits(t.translation.0) && finite_bits(t.translation.1) && finite_bits(
        t.translation.2,
    ) && finite_bits(t.rotation.0) && finite_bits(t.rotation.1) && finite_bits(t.rotation.2)
        && finite_bits(t.rotation.3);
    if !ok {
        return Err(ChecksumError::NonFinite);
    }
    let mut ws: Vec<u64> = Vec::new();
    ws.push(t.translation.0 as u64);
    ws.push(t.translation.1 as u64);
    ws.push(t.translation.2 as u64);
    ws.push(t.rotation.0 as u64);
    ws.push(t.rotation.1 as u64);
    ws.push(t.rotation.2 as u64);
    ws.push(t.rotation.3 as u64);
    assert(ws@ =~= t.words());
    Ok(hash_words(&ws))
}

/// A recorded divergence: two peers disagreed on the checksum of the same
/// confirmed frame.
#[derive(Clone, Copy, PartialEq, Eq, Structural, Debug)]
pub struct DesyncEvent {
    /// The confirmed frame the peers disagree on.
    pub frame: usize,
    /// The checksum this peer computed.
    pub local: u64,
    /// The checksum the remote peer reported.
    pub remote: u64,
}

/// Per-frame checksum history and desync bookkeeping for one peer.
pub struct DesyncDetector {
    interval: usize,
    sums: Vec<u64>,
    desyncs: usize,
}

impl DesyncDetector {
    /// The exchange interval, in frames.
    pub closed spec fn interval_spec(self) -> int {
        self.interval as int
    }

    /// The recorded local checksums, one per simulated frame.
    pub closed spec fn sums_spec(self) -> Seq<u64> {
        self.sums@
    }

    /// How many desyncs have been recorded.
    pub closed spec fn desyncs_spec(self) -> int {
        self.desyncs as int
    }

    /// Well-formed: the interval is positive.
    pub closed spec fn wf(self) -> bool {
        self.interval >= 1
    }

    /// Creates a detector that exchanges checksums every `interval` frames.
    pub fn new(interval: usize) -> (r: DesyncDetector)
        requires
            interval >= 1,
        ensures
            r.wf(),
            r.interval_spec() == interval,
            r.sums_spec() == Seq::<u64>::empty(),
            r.desyncs_spec() == 0,
    {
        DesyncDetector { interval, sums: Vec::new(), desyncs: 0 }
    }

    /// How many frames have a recorded checksum.
    pub fn frames_recorded(&self) -> (n: usize)
        ensures
            n == self.sums_spec().len(),
    {
        self.sums.len()
    }

    /// Appends the checksum of the next simulated frame.
    pub fn record(&mut self, sum: u64)
        ensures
            final(self).sums_spec() == old(self).sums_spec().push(sum),
            final(self).interval_spec() == old(self).interval_spec(),
            final(self).desyncs_spec() == old(self).desyncs_spec(),
            final(self).wf() == old(self).wf(),
    {
        self.sums.push(sum);
    }

    /// Overwrites the checksum of an already-simulated frame after a
    /// rollback re-simulated it.
    pub fn rewrite(&mut self, frame: usize, sum: u64)
        requires
            frame < old(self).sums_spec().len(),
        ensures
            final(self).sums_spec() == old(self).sums_spec().update(frame as int, sum),
            final(self).interval_spec() == old(self).interval_spec(),
            final(self).desyncs_spec() == old(self).desyncs_spec(),
            final(self).wf() == old(self).wf(),
    {
        self.sums.set(frame, sum);
    }

    /// The recorded checksum of a simulated frame, if any.
    pub fn local_checksum(&self, frame: usize) -> (r: Option<u64>)
        ensures
            frame < self.sums_spec().len() ==> r == Some(self.sums_spec()[frame as int]),
            frame >= self.sums_spec().len() ==> r is None,
    {
        if frame < self.sums.len() {
            Some(self.sums[frame])
        } else {
            None
        }
    }

    /// Whether this frame's checksum is due to be sent to the peers: frames
    /// are exchanged every `interval` frames, not every frame, to bound
    /// bandwidth.
    pub fn should_exchange(&self, frame: usize) -> (r: bool)
        requires
            self.wf(),
        ensures
            r == (frame as int % self.interval_spec() == 0),
    {
        frame % self.interval == 0
    }

    /// Compares a remote peer's checksum for a recorded frame against the
    /// local one. Disagreement is a desync: the counter rises by one and the
    /// event is returned; agreement changes nothing and returns `None`.
    pub fn check_remote(&mut self, frame: usize, remote: u64) -> (r: Option<DesyncEvent>)
        requires
            frame < old(self).sums_spec().len(),
            old(self).desyncs_spec() < usize::MAX,
        ensures
            final(self).sums_spec() == old(self).sums_spec(),
            final(self).interval_spec() == old(self).interval_spec(),
            final(self).wf() == old(self).wf(),
            old(self).sums_spec()[frame as int] == remote ==> r is None && final(self).desyncs_spec()
                == old(self).desyncs_spec(),
            old(self).sums_spec()[frame as int] != remote ==> r == Some(
                DesyncEvent {
                    frame,
                    local: old(self).sums_spec()[frame as int],
                    remote,
                },
            ) && final(self).desyncs_spec() == old(self).desyncs_spec() + 1,
    {
        let local = self.sums[frame];
        if local == remote {
            None
        } else {
            self.desyncs = self.desyncs + 1;
            Some(DesyncEvent { frame, local, remote })
        }
    }

    /// How many desyncs have been recorded so far.
    pub fn desync_count(&self) -> (n: usize)
        ensures
            n == self.desyncs_spec(),
    {
        self.desyncs
    }
}

} // verus!
