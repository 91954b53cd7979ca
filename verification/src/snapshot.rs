//! The snapshot store: simulation states keyed by frame, kept in a bounded
//! ring.
//!
//! Every tick captures the pre-step state, so the store always holds a
//! contiguous range of the most recent frames. Capacity bounds the rollback
//! window: once the ring is full, capturing the next frame evicts the
//! oldest one. Restoring an evicted frame fails with
//! [`SnapshotError::Evicted`] — a fatal condition for a session, since a
//! rollback deeper than the retained window can no longer be replayed
//! exactly.

use vstd::prelude::*;

verus! {

/// Failure of a snapshot restore.
#[derive(Clone, Copy, PartialEq, Eq, Structural, Debug)]
pub enum SnapshotError {
    /// The requested frame is older than the retained window.
    Evicted,
}

/// One captured state with its frame index.
#[derive(Clone, Copy)]
pub struct Snapshot<S> {
    pub frame: usize,
    pub state: S,
}

/// A bounded ring of snapshots over a contiguous frame range.
pub struct SnapshotStore<S> {
    cap: usize,
    entries: Vec<Snapshot<S>>,
}

impl<S: Copy> SnapshotStore<S> {
    /// The capacity: how many frames the ring retains.
    pub closed spec fn capacity_spec(self) -> int {
        self.cap as int
    }

    /// How many frames are held.
    pub closed spec fn len_spec(self) -> int {
        self.entries@.len() as int
    }

    /// Whether no frame is held.
    pub open spec fn is_empty_spec(self) -> bool {
        self.len_spec() == 0
    }

    /// The oldest held frame. Meaningful only when the store is not empty.
    pub closed spec fn lo_spec(self) -> int {
        self.entries@[0].frame as int
    }

    /// The newest held frame. Meaningful only when the store is not empty.
    pub open spec fn hi_spec(self) -> int {
        self.lo_spec() + self.len_spec() - 1
    }

    /// Whether the state of frame `f` is held.
    pub open spec fn has_frame(self, f: int) -> bool {
        self.len_spec() > 0 && self.lo_spec() <= f <= self.hi_spec()
    }

    /// The held state of frame `f`. Meaningful only when `has_frame(f)`.
    pub closed spec fn state_at(self, f: int) -> S {
        self.entries@[f - self.lo_spec()].state
    }

    /// Well-formed: positive capacity, no more entries than the capacity,
    /// and the held frames form a contiguous ascending range.
    pub closed spec fn wf(self) -> bool {
        &&& self.cap >= 1
        &&& self.entries@.len() <= self.cap
        &&& forall|i: int|
            0 <= i < self.entries@.len() ==> (#[trigger] self.entries@[i].frame) as int
                == self.entries@[0].frame + i
    }

    /// Creates an empty store retaining at most `capacity` frames.
    pub fn new(capacity: usize) -> (r: SnapshotStore<S>)
        requires
            capacity >= 1,
        ensures
            r.wf(),
            r.capacity_spec() == capacity,
            r.is_empty_spec(),
    {
        SnapshotStore { cap: capacity, entries: Vec::new() }
    }

    /// The capacity, as configured at creation.
    pub fn capacity(&self) -> (c: usize)
        ensures
            c == self.capacity_spec(),
    {
        self.cap
    }

    /// The oldest held frame, if any.
    pub fn oldest_frame(&self) -> (r: Option<usize>)
        requires
            self.wf(),
        ensures
            self.is_empty_spec() ==> r is None,
            !self.is_empty_spec() ==> r == Some(self.lo_spec() as usize),
    {
        if self.entries.len() == 0 {
            None
        } else {
            Some(self.entries[0].frame)
        }
    }

    /// Stores a deep copy of the state keyed by `frame`: either overwriting
    /// the held entry of a frame in the range, or appending the next frame,
    /// evicting the oldest frame when the ring is full.
    pub fn capture(&mut self, frame: usize, state: S)
        requires
            old(self).wf(),
            old(self).is_empty_spec() || old(self).lo_spec() <= frame <= old(self).hi_spec() + 1,
        ensures
            final(self).wf(),
            final(self).capacity_spec() == old(self).capacity_spec(),
            final(self).has_frame(frame as int),
            final(self).state_at(frame as int) == state,
            forall|f: int|
                #![trigger final(self).has_frame(f)]
                #![trigger final(self).state_at(f)]
                final(self).has_frame(f) && f != frame ==> old(self).has_frame(f)
                    && final(self).state_at(f) == old(self).state_at(f),
            old(self).is_empty_spec() ==> final(self).lo_spec() == frame && final(self).hi_spec()
                == frame,
            !old(self).is_empty_spec() && frame <= old(self).hi_spec() ==> final(self).lo_spec()
                == old(self).lo_spec() && final(self).hi_spec() == old(self).hi_spec(),
            !old(self).is_empty_spec() && frame == old(self).hi_spec() + 1 && old(self).len_spec()
                < old(self).capacity_spec() ==> final(self).lo_spec() == old(self).lo_spec()
                && final(self).hi_spec() == frame,
            !old(self).is_empty_spec() && frame == old(self).hi_spec() + 1 && old(self).len_spec()
                == old(self).capacity_spec() ==> final(self).lo_spec() == old(self).lo_spec() + 1
                && final(self).hi_spec() == frame,
    {
        if self.entries.len() == 0 {
            self.entries.push(Snapshot { frame, state });
            return ;
        }
        let lo = self.entries[0].frame;
        if frame - lo < self.entries.len() {
            let idx = frame - lo;
            self.entries.set(idx, Snapshot { frame, state });
        } else {
            self.entries.push(Snapshot { frame, state });
            if self.entries.len() > self.cap {
                self.entries.remove(0);
            }
        }
    }

    /// Hands back the state captured for `frame`, or
    /// `SnapshotError::Evicted` exactly when that frame is no longer (or
    /// was never) held.
    pub fn restore(&self, frame: usize) -> (r: Result<S, SnapshotError>)
        requires
            self.wf(),
        ensures
            self.has_frame(frame as int) ==> r == Ok::<S, SnapshotError>(
                self.state_at(frame as int),
            ),
            !self.has_frame(frame as int) ==> r == Err::<S, SnapshotError>(SnapshotError::Evicted),
    {
        if self.entries.len() == 0 {
            return Err(SnapshotError::Evicted);
        }
        let lo = self.entries[0].frame;
        if frame >= lo && frame - lo < self.entries.len() {
            Ok(self.entries[frame - lo].state)
        } else {
            Err(SnapshotError::Evicted)
        }
    }
}

} // verus!
