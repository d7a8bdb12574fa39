use vstd::prelude::*;

verus! {

/// Number of frames that may be in flight on the GPU at once.
pub const MAX_FRAMES: usize = 2;

/// Frame counters owned by the device.
///
/// `current` is the frame slot being recorded, `previous` the slot recorded
/// before it, and `absolute` the number of frames presented so far.
pub struct FrameCounters {
    pub current: u64,
    pub previous: u64,
    pub absolute: u64,
}

/// The slot that follows `slot` in the cyclic order of frame slots.
pub open spec fn next_slot(slot: nat) -> nat {
    (slot + 1) % (MAX_FRAMES as nat)
}

/// Counters after `k` frame advances from `c`.
pub open spec fn advanced_by(c: FrameCounters, k: nat) -> (nat, nat, nat)
    decreases k,
{
    if k == 0 {
        (c.current as nat, c.previous as nat, c.absolute as nat)
    } else {
        let (cur, _prev, abs) = advanced_by(c, (k - 1) as nat);
        (next_slot(cur), cur, abs + 1)
    }
}

impl FrameCounters {
    /// The slot in use is the number of presented frames modulo `MAX_FRAMES`,
    /// and the previous slot the one before it.
    pub open spec fn wf(&self) -> bool {
        &&& self.current as nat == self.absolute as nat % (MAX_FRAMES as nat)
        &&& self.previous as nat == if self.absolute == 0 {
            0
        } else {
            (self.absolute - 1) as nat % (MAX_FRAMES as nat)
        }
    }

    pub fn new() -> (r: FrameCounters)
        ensures
            r.current == 0,
            r.previous == 0,
            r.absolute == 0,
            r.wf(),
    {
        FrameCounters { current: 0, previous: 0, absolute: 0 }
    }

    /// Moves to the next frame slot: `previous` takes `current`, `current`
    /// steps cyclically and `absolute` grows by one.
    pub fn advance(&mut self)
        requires
            old(self).wf(),
            old(self).absolute < u64::MAX,
        ensures
            final(self).previous == old(self).current,
            final(self).current as nat == next_slot(old(self).current as nat),
            final(self).absolute == old(self).absolute + 1,
            final(self).wf(),
    {
        self.previous = self.current;
        self.current = (self.current + 1) % (MAX_FRAMES as u64);
        self.absolute = self.absolute + 1;
    }

    /// The timeline value a new frame waits for before it reuses its slot:
    /// the completion of the frame recorded `MAX_FRAMES` frames ago.
    pub fn graphics_wait_value(&self) -> (r: u64)
        requires
            self.absolute >= MAX_FRAMES - 1,
        ensures
            r == self.absolute - (MAX_FRAMES - 1),
    {
        self.absolute - (MAX_FRAMES as u64 - 1)
    }
}

/// Each present advances the frame counters by exactly one frame: after `k`
/// advances `absolute` has grown by `k` and the slot has stepped `k` times
/// through `[0, MAX_FRAMES)` in order.
pub proof fn lemma_frames_advance_in_order(c: FrameCounters, k: nat)
    requires
        c.wf(),
    ensures
        advanced_by(c, k).2 == c.absolute + k,
        advanced_by(c, k).0 == ((c.absolute + k) as nat) % (MAX_FRAMES as nat),
        advanced_by(c, k).0 < MAX_FRAMES,
        k > 0 ==> advanced_by(c, k).1 == ((c.absolute + k - 1) as nat) % (MAX_FRAMES as nat),
    decreases k,
{
    if k > 0 {
        lemma_frames_advance_in_order(c, (k - 1) as nat);
    }
}

} // verus!
