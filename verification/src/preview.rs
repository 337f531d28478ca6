//! The transport of preview frames: their memory layout and the ring of slots that a producer
//! and a consumer share.

use vstd::prelude::*;

use crate::config::ExecutionProvider;

verus! {

/// The rows of a copied texture begin at multiples of this many bytes.
pub const COPY_ALIGNMENT: u32 = 256;

/// The memory layout of one preview frame, four bytes to a pixel.
#[derive(Debug, Clone, Copy, PartialEq, Eq)]
pub struct PreviewGeometry {
    width: u32,
    height: u32,
    row_bytes: u32,
    buffer_size: u64,
}

/// The bytes of a row of `width` pixels, rounded up to the alignment.
pub open spec fn aligned_row(width: int) -> int {
    (4 * width + 255) / 256 * 256
}

impl PreviewGeometry {
    /// Pixels in a row.
    pub closed spec fn columns(self) -> u32 {
        self.width
    }

    /// Rows.
    pub closed spec fn rows(self) -> u32 {
        self.height
    }

    /// Bytes of a row with its padding.
    pub closed spec fn pitch(self) -> u32 {
        self.row_bytes
    }

    /// Bytes of the frame.
    pub closed spec fn bytes(self) -> u64 {
        self.buffer_size
    }

    /// The layout of a frame; `None` for an empty frame and for rows that do not fit 32 bits.
    pub fn new(width: u32, height: u32) -> (r: Option<Self>)
        ensures
            r is Some <==> width > 0 && height > 0 && 4 * width + 255 <= u32::MAX,
            match r {
                Some(g) => {
                    &&& g.columns() == width
                    &&& g.rows() == height
                    &&& g.pitch() == aligned_row(width as int)
                    &&& g.bytes() == g.pitch() * height
                },
                None => true,
            },
    {
        if width == 0 || height == 0 {
            return None;
        }
        let packed: u32 = match width.checked_mul(4) {
            Some(packed) => packed,
            None => return None,
        };
        let padded: u32 = match packed.checked_add(COPY_ALIGNMENT - 1) {
            Some(padded) => padded,
            None => return None,
        };
        let row_bytes: u32 = padded / COPY_ALIGNMENT * COPY_ALIGNMENT;
        proof {
            assert(row_bytes as int * height as int <= u64::MAX) by (nonlinear_arith)
                requires
                    0 <= row_bytes <= u32::MAX,
                    0 <= height <= u32::MAX,
            ;
        }
        let buffer_size: u64 = row_bytes as u64 * height as u64;
        Some(PreviewGeometry { width, height, row_bytes, buffer_size })
    }

    /// Pixels in a row.
    pub fn width(self) -> (r: u32)
        ensures
            r == self.columns(),
    {
        self.width
    }

    /// Rows.
    pub fn height(self) -> (r: u32)
        ensures
            r == self.rows(),
    {
        self.height
    }

    /// Bytes of a row with its padding.
    pub fn row_bytes(self) -> (r: u32)
        ensures
            r == self.pitch(),
    {
        self.row_bytes
    }

    /// Bytes of the frame.
    pub fn buffer_size(self) -> (r: u64)
        ensures
            r == self.bytes(),
    {
        self.buffer_size
    }
}

/// A padded row holds its pixels, begins at a multiple of the alignment, and wastes less than one
/// alignment.
pub proof fn padded_rows_are_tight(width: int)
    requires
        width >= 0,
    ensures
        aligned_row(width) % 256 == 0,
        4 * width <= aligned_row(width) < 4 * width + 256,
{
}

/// Where a slot of the ring is in its round: free, written, ready, read, and free again.
#[derive(Debug, Clone, Copy, PartialEq, Eq, Structural)]
pub enum SlotState {
    Free,
    Writing,
    Ready,
    Reading,
}

/// One slot of the ring. The sequence number grows with every published frame.
#[derive(Debug, Clone, Copy, PartialEq, Eq, Structural)]
pub struct PreviewSlot {
    pub state: SlotState,
    pub sequence: u64,
}

/// `i` is the slot whose frame is the newest of those ready; of two that are equally new, the one
/// that stands later.
pub open spec fn is_latest(slots: Seq<PreviewSlot>, i: int) -> bool {
    &&& 0 <= i < slots.len()
    &&& slots[i].state == SlotState::Ready
    &&& forall|j: int|
        0 <= j < slots.len() && (#[trigger] slots[j]).state == SlotState::Ready
            ==> slots[j].sequence < slots[i].sequence || (slots[j].sequence == slots[i].sequence
            && j <= i)
}

/// The slots after the frame in `i` was taken: it is read, and the other ready frames are given
/// up.
pub open spec fn taken(slots: Seq<PreviewSlot>, i: int) -> Seq<PreviewSlot> {
    Seq::new(
        slots.len(),
        |j: int|
            if j == i {
                PreviewSlot { state: SlotState::Reading, sequence: slots[j].sequence }
            } else if slots[j].state == SlotState::Ready {
                PreviewSlot { state: SlotState::Free, sequence: slots[j].sequence }
            } else {
                slots[j]
            },
    )
}

/// The slots with slot `i` in another state.
pub open spec fn moved(slots: Seq<PreviewSlot>, i: int, state: SlotState) -> Seq<PreviewSlot> {
    slots.update(i, PreviewSlot { state, sequence: slots[i].sequence })
}

/// The slots after the frame in `i` was published with a sequence number.
pub open spec fn published(slots: Seq<PreviewSlot>, i: int, sequence: u64) -> Seq<PreviewSlot> {
    slots.update(i, PreviewSlot { state: SlotState::Ready, sequence })
}

/// Some slot is ready.
pub open spec fn any_ready(slots: Seq<PreviewSlot>) -> bool {
    exists|j: int| 0 <= j < slots.len() && (#[trigger] slots[j]).state == SlotState::Ready
}

/// Latest-frame ring. A producer never gets a slot that is being read, and the consumer gives up
/// older ready frames when a newer one is there.
#[derive(Debug)]
pub struct PreviewRingState {
    slots: Vec<PreviewSlot>,
    next_sequence: u64,
}

impl View for PreviewRingState {
    type V = Seq<PreviewSlot>;

    closed spec fn view(&self) -> Seq<PreviewSlot> {
        self.slots@
    }
}

impl PreviewRingState {
    /// The sequence number of the next published frame.
    pub closed spec fn upcoming(&self) -> u64 {
        self.next_sequence
    }

    /// A ring of free slots.
    pub fn new(capacity: usize) -> (r: Self)
        requires
            capacity > 0,
        ensures
            r@ == Seq::new(
                capacity as nat,
                |i: int| PreviewSlot { state: SlotState::Free, sequence: 0 },
            ),
            r.upcoming() == 1,
    {
        let mut slots: Vec<PreviewSlot> = Vec::new();
        let mut i: usize = 0;
        while i < capacity
            invariant
                i <= capacity,
                slots.len() == i,
                forall|j: int|
                    0 <= j < i ==> #[trigger] slots@[j] == (PreviewSlot {
                        state: SlotState::Free,
                        sequence: 0,
                    }),
            decreases capacity - i,
        {
            slots.push(PreviewSlot { state: SlotState::Free, sequence: 0 });
            i = i + 1;
        }
        proof {
            assert(slots@ =~= Seq::new(
                capacity as nat,
                |i: int| PreviewSlot { state: SlotState::Free, sequence: 0 },
            ));
        }
        PreviewRingState { slots, next_sequence: 1 }
    }

    /// Takes the first free slot for writing.
    pub fn acquire(&mut self) -> (r: Option<usize>)
        ensures
            final(self).upcoming() == old(self).upcoming(),
            match r {
                Some(i) => {
                    &&& i < old(self)@.len()
                    &&& old(self)@[i as int].state == SlotState::Free
                    &&& forall|j: int|
                        0 <= j < i ==> (#[trigger] old(self)@[j]).state != SlotState::Free
                    &&& final(self)@ == moved(old(self)@, i as int, SlotState::Writing)
                },
                None => {
                    &&& forall|j: int|
                        0 <= j < old(self)@.len() ==> (#[trigger] old(self)@[j]).state
                            != SlotState::Free
                    &&& final(self)@ == old(self)@
                },
            },
    {
        let mut i: usize = 0;
        while i < self.slots.len()
            invariant
                i <= self.slots.len(),
                self.slots@ == old(self)@,
                self.next_sequence == old(self).next_sequence,
                forall|j: int| 0 <= j < i ==> (#[trigger] old(self)@[j]).state != SlotState::Free,
            decreases self.slots.len() - i,
        {
            let slot: PreviewSlot = self.slots[i];
            if slot.state == SlotState::Free {
                self.slots[i] = PreviewSlot { state: SlotState::Writing, sequence: slot.sequence };
                return Some(i);
            }
            i = i + 1;
        }
        None
    }

    /// Makes the frame written into `slot` ready, the newest one.
    pub fn publish(&mut self, slot: usize)
        requires
            slot < old(self)@.len(),
            old(self)@[slot as int].state == SlotState::Writing,
        ensures
            final(self)@ == published(old(self)@, slot as int, old(self).upcoming()),
            final(self).upcoming() == if old(self).upcoming() == u64::MAX {
                0
            } else {
                (old(self).upcoming() + 1) as u64
            },
    {
        let sequence: u64 = self.next_sequence;
        self.next_sequence = if sequence == u64::MAX { 0 } else { sequence + 1 };
        self.slots[slot] = PreviewSlot { state: SlotState::Ready, sequence };
    }

    /// Gives a slot back that was taken for writing.
    pub fn discard_write(&mut self, slot: usize)
        requires
            slot < old(self)@.len(),
            old(self)@[slot as int].state == SlotState::Writing,
        ensures
            final(self)@ == moved(old(self)@, slot as int, SlotState::Free),
            final(self).upcoming() == old(self).upcoming(),
    {
        let sequence: u64 = self.slots[slot].sequence;
        self.slots[slot] = PreviewSlot { state: SlotState::Free, sequence };
    }

    /// The newest frame that is ready.
    fn find_latest(&self) -> (r: Option<usize>)
        ensures
            match r {
                Some(i) => is_latest(self@, i as int),
                None => !any_ready(self@),
            },
    {
        let mut best: Option<usize> = None;
        let mut i: usize = 0;
        while i < self.slots.len()
            invariant
                i <= self.slots.len(),
                match best {
                    Some(b) => {
                        &&& b < i
                        &&& self@[b as int].state == SlotState::Ready
                        &&& forall|j: int|
                            0 <= j < i && (#[trigger] self@[j]).state == SlotState::Ready
                                ==> self@[j].sequence < self@[b as int].sequence || (
                            self@[j].sequence == self@[b as int].sequence && j <= b)
                    },
                    None => forall|j: int|
                        0 <= j < i ==> (#[trigger] self@[j]).state != SlotState::Ready,
                },
            decreases self.slots.len() - i,
        {
            let slot: PreviewSlot = self.slots[i];
            if slot.state == SlotState::Ready {
                best = match best {
                    Some(b) => if self.slots[b].sequence <= slot.sequence {
                        Some(i)
                    } else {
                        Some(b)
                    },
                    None => Some(i),
                };
            }
            i = i + 1;
        }
        best
    }

    /// Takes the newest ready frame for reading, and gives the older ready frames up.
    pub fn take_latest(&mut self) -> (r: Option<usize>)
        ensures
            final(self).upcoming() == old(self).upcoming(),
            match r {
                Some(i) => is_latest(old(self)@, i as int) && final(self)@ == taken(
                    old(self)@,
                    i as int,
                ),
                None => !any_ready(old(self)@) && final(self)@ == old(self)@,
            },
    {
        let latest: usize = match self.find_latest() {
            Some(i) => i,
            None => return None,
        };
        let ghost before = self.slots@;
        let mut i: usize = 0;
        while i < self.slots.len()
            invariant
                i <= self.slots.len(),
                latest < self.slots.len(),
                self.slots.len() == before.len(),
                self.next_sequence == old(self).next_sequence,
                forall|j: int|
                    0 <= j < before.len() ==> #[trigger] self.slots@[j] == if j < i {
                        taken(before, latest as int)[j]
                    } else {
                        before[j]
                    },
            decreases self.slots.len() - i,
        {
            let slot: PreviewSlot = self.slots[i];
            if i == latest {
                self.slots[i] = PreviewSlot { state: SlotState::Reading, sequence: slot.sequence };
            } else if slot.state == SlotState::Ready {
                self.slots[i] = PreviewSlot { state: SlotState::Free, sequence: slot.sequence };
            }
            i = i + 1;
        }
        proof {
            assert(self.slots@ =~= taken(before, latest as int));
        }
        Some(latest)
    }

    /// Gives a slot back that was read.
    pub fn release(&mut self, slot: usize)
        requires
            slot < old(self)@.len(),
            old(self)@[slot as int].state == SlotState::Reading,
        ensures
            final(self)@ == moved(old(self)@, slot as int, SlotState::Free),
            final(self).upcoming() == old(self).upcoming(),
    {
        let sequence: u64 = self.slots[slot].sequence;
        self.slots[slot] = PreviewSlot { state: SlotState::Free, sequence };
    }

    /// Whether `slot` is free.
    pub fn is_free(&self, slot: usize) -> (r: bool)
        requires
            slot < self@.len(),
        ensures
            r == (self@[slot as int].state == SlotState::Free),
    {
        self.slots[slot].state == SlotState::Free
    }

    /// The state of `slot`.
    pub fn slot_state(&self, slot: usize) -> (r: SlotState)
        requires
            slot < self@.len(),
        ensures
            r == self@[slot as int].state,
    {
        self.slots[slot].state
    }
}

/// Every ready frame is older than the next one to be published. A ring begins in this state, and
/// it stays there until the sequence numbers run out.
pub open spec fn in_sequence(slots: Seq<PreviewSlot>, upcoming: u64) -> bool {
    forall|j: int|
        0 <= j < slots.len() && (#[trigger] slots[j]).state == SlotState::Ready
            ==> slots[j].sequence < upcoming
}

/// The frame published last is the one that is taken next.
pub proof fn published_frame_is_taken_next(
    slots: Seq<PreviewSlot>,
    upcoming: u64,
    slot: int,
    next: int,
)
    requires
        in_sequence(slots, upcoming),
        0 <= slot < slots.len(),
        is_latest(published(slots, slot, upcoming), next),
    ensures
        next == slot,
{
    let after = published(slots, slot, upcoming);
    assert(after[slot].state == SlotState::Ready);
    if next != slot {
        assert(after[next] == slots[next]);
    }
}

/// Publishing and taking keep the frames in sequence, as long as sequence numbers are left.
pub proof fn frames_stay_in_sequence(slots: Seq<PreviewSlot>, upcoming: u64, slot: int)
    requires
        in_sequence(slots, upcoming),
        0 <= slot < slots.len(),
        upcoming < u64::MAX,
    ensures
        in_sequence(published(slots, slot, upcoming), (upcoming + 1) as u64),
        in_sequence(taken(slots, slot), upcoming),
        in_sequence(moved(slots, slot, SlotState::Free), upcoming),
        in_sequence(moved(slots, slot, SlotState::Writing), upcoming),
{
    let after = published(slots, slot, upcoming);
    assert forall|j: int|
        0 <= j < after.len() && (#[trigger] after[j]).state == SlotState::Ready implies after[j].sequence
        < (upcoming + 1) as u64 by {
        if j != slot {
            assert(after[j] == slots[j]);
        }
    }
    let freed = moved(slots, slot, SlotState::Free);
    assert forall|j: int|
        0 <= j < freed.len() && (#[trigger] freed[j]).state == SlotState::Ready implies freed[j].sequence
        < upcoming by {
        assert(freed[j] == slots[j]);
    }
    let written = moved(slots, slot, SlotState::Writing);
    assert forall|j: int|
        0 <= j < written.len() && (#[trigger] written[j]).state
            == SlotState::Ready implies written[j].sequence < upcoming by {
        assert(written[j] == slots[j]);
    }
}

/// A slot that is being read keeps being read whatever the producer does, and a slot that is
/// being written keeps being written when the consumer takes a frame.
pub proof fn owners_keep_their_slots(slots: Seq<PreviewSlot>, slot: int, other: int)
    requires
        0 <= slot < slots.len(),
        0 <= other < slots.len(),
        slot != other,
    ensures
        slots[slot].state == SlotState::Reading ==> moved(
            slots,
            other,
            SlotState::Writing,
        )[slot].state == SlotState::Reading,
        slots[slot].state == SlotState::Reading ==> taken(slots, other)[slot].state
            == SlotState::Reading,
        slots[slot].state == SlotState::Writing ==> taken(slots, other)[slot].state
            == SlotState::Writing,
{
}

/// Taking a frame leaves no ready frame behind.
pub proof fn taking_leaves_nothing_ready(slots: Seq<PreviewSlot>, i: int)
    requires
        is_latest(slots, i),
    ensures
        !any_ready(taken(slots, i)),
{
}

/// Whether the window of the live preview is open, and whether its user asked to close it.
#[derive(Debug, Clone, Copy, PartialEq, Eq)]
pub struct RealtimePreviewState {
    open: bool,
    close_requested: bool,
}

impl Default for RealtimePreviewState {
    fn default() -> (r: Self)
        ensures
            !r.shown() && !r.closing(),
    {
        RealtimePreviewState { open: false, close_requested: false }
    }
}

impl RealtimePreviewState {
    /// The window is open.
    pub closed spec fn shown(self) -> bool {
        self.open
    }

    /// The user asked to close the window.
    pub closed spec fn closing(self) -> bool {
        self.close_requested
    }

    /// Opens the window; an earlier request to close it is forgotten.
    pub fn open(&mut self)
        ensures
            final(self).shown() && !final(self).closing(),
    {
        self.close_requested = false;
        self.open = true;
    }

    /// Closes the window, and says whether it was open, so that it has to be told.
    pub fn close(&mut self) -> (was_open: bool)
        ensures
            was_open == old(self).shown(),
            !final(self).shown() && !final(self).closing(),
    {
        let was_open = self.open;
        self.open = false;
        self.close_requested = false;
        was_open
    }

    /// Notes that the user asked to close the window.
    pub fn mark_close_requested(&mut self)
        ensures
            final(self).closing(),
            final(self).shown() == old(self).shown(),
    {
        self.close_requested = true;
    }

    /// Closes the window if that was asked for, and says whether it was.
    pub fn apply_close_request(&mut self) -> (r: bool)
        ensures
            r == old(self).closing(),
            !final(self).closing(),
            final(self).shown() == (old(self).shown() && !old(self).closing()),
    {
        if self.close_requested {
            self.close_requested = false;
            self.open = false;
            true
        } else {
            false
        }
    }

    /// Whether the window is open.
    pub fn is_open(&self) -> (r: bool)
        ensures
            r == self.shown(),
    {
        self.open
    }
}

/// The name of an execution provider for people.
pub open spec fn provider_name(provider: ExecutionProvider) -> Seq<char> {
    match provider {
        ExecutionProvider::Cuda => "Native CUDA"@,
        ExecutionProvider::TensorRT => "TensorRT"@,
    }
}

/// The name of an execution provider for people.
pub fn provider_label(provider: ExecutionProvider) -> (r: &'static str)
    ensures
        r@ == provider_name(provider),
{
    match provider {
        ExecutionProvider::Cuda => "Native CUDA",
        ExecutionProvider::TensorRT => "TensorRT",
    }
}

} // verus!
