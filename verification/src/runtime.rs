//! The editor's background jobs: their phases, their cancellation, and the markers and memory
//! that a job works with.

use std::collections::BTreeMap;

use vstd::prelude::*;

use crate::engine::builder::BuildPhase;
use crate::media::MediaKind;
use crate::text::join2;

verus! {

broadcast use vstd::std_specs::btree::group_btree_axioms;

/// What the worker is doing.
#[derive(Debug, Clone, Copy, PartialEq, Eq, Structural)]
pub enum EditorJobPhase {
    Idle,
    Analyzing,
    Building,
    Previewing,
    Recording,
    Cancelling,
    Failed,
}

impl Default for EditorJobPhase {
    fn default() -> (r: Self)
        ensures
            r == EditorJobPhase::Idle,
    {
        EditorJobPhase::Idle
    }
}

impl EditorJobPhase {
    /// The name of a phase.
    pub open spec fn name(self) -> Seq<char> {
        match self {
            EditorJobPhase::Idle => "Idle"@,
            EditorJobPhase::Analyzing => "Analyzing"@,
            EditorJobPhase::Building => "Building"@,
            EditorJobPhase::Previewing => "Previewing"@,
            EditorJobPhase::Recording => "Recording"@,
            EditorJobPhase::Cancelling => "Cancelling"@,
            EditorJobPhase::Failed => "Failed"@,
        }
    }

    /// The name of the phase.
    pub fn label(self) -> (r: &'static str)
        ensures
            r@ == self.name(),
    {
        match self {
            EditorJobPhase::Idle => "Idle",
            EditorJobPhase::Analyzing => "Analyzing",
            EditorJobPhase::Building => "Building",
            EditorJobPhase::Previewing => "Previewing",
            EditorJobPhase::Recording => "Recording",
            EditorJobPhase::Cancelling => "Cancelling",
            EditorJobPhase::Failed => "Failed",
        }
    }
}

/// Why a job could not be begun or cancelled.
#[derive(Debug, PartialEq, Eq)]
pub enum EditorRuntimeError {
    Busy(EditorJobPhase),
    NotRunning,
    WorkerStopped,
    Spawn(String),
}

/// The phase of the one job that runs at a time.
#[derive(Debug, Clone, Copy, PartialEq, Eq)]
pub struct EditorJobState {
    phase: EditorJobPhase,
}

/// No job runs in this phase, so one can be begun.
pub open spec fn startable(phase: EditorJobPhase) -> bool {
    phase == EditorJobPhase::Idle || phase == EditorJobPhase::Failed
}

/// A job runs in this phase that can be cancelled.
pub open spec fn cancellable(phase: EditorJobPhase) -> bool {
    phase == EditorJobPhase::Analyzing || phase == EditorJobPhase::Building || phase
        == EditorJobPhase::Previewing || phase == EditorJobPhase::Recording
}

impl Default for EditorJobState {
    fn default() -> (r: Self)
        ensures
            r.current() == EditorJobPhase::Idle,
    {
        EditorJobState { phase: EditorJobPhase::Idle }
    }
}

impl EditorJobState {
    /// The phase of the job.
    pub closed spec fn current(self) -> EditorJobPhase {
        self.phase
    }

    /// The phase of the job.
    pub fn phase(&self) -> (r: EditorJobPhase)
        ensures
            r == self.current(),
    {
        self.phase
    }

    /// Begins a job in `phase`, unless one runs.
    pub fn begin(&mut self, phase: EditorJobPhase) -> (r: Result<(), EditorRuntimeError>)
        ensures
            match r {
                Ok(()) => startable(old(self).current()) && final(self).current() == phase,
                Err(e) => !startable(old(self).current()) && *final(self) == *old(self) && e
                    == EditorRuntimeError::Busy(old(self).current()),
            },
    {
        if self.phase != EditorJobPhase::Idle && self.phase != EditorJobPhase::Failed {
            return Err(EditorRuntimeError::Busy(self.phase));
        }
        self.phase = phase;
        Ok(())
    }

    /// Asks the job that runs to stop.
    pub fn cancel(&mut self) -> (r: Result<(), EditorRuntimeError>)
        ensures
            match r {
                Ok(()) => cancellable(old(self).current()) && final(self).current()
                    == EditorJobPhase::Cancelling,
                Err(e) => !cancellable(old(self).current()) && *final(self) == *old(self) && e
                    == EditorRuntimeError::NotRunning,
            },
    {
        if self.phase == EditorJobPhase::Analyzing || self.phase == EditorJobPhase::Building
            || self.phase == EditorJobPhase::Previewing || self.phase
            == EditorJobPhase::Recording {
            self.phase = EditorJobPhase::Cancelling;
            Ok(())
        } else {
            Err(EditorRuntimeError::NotRunning)
        }
    }

    /// The job ended.
    pub fn settle(&mut self)
        ensures
            final(self).current() == EditorJobPhase::Idle,
    {
        self.phase = EditorJobPhase::Idle;
    }

    /// The job failed.
    pub fn fail(&mut self)
        ensures
            final(self).current() == EditorJobPhase::Failed,
    {
        self.phase = EditorJobPhase::Failed;
    }

    /// The worker reported a phase.
    pub fn observe(&mut self, phase: EditorJobPhase)
        ensures
            final(self).current() == phase,
    {
        self.phase = phase;
    }
}

/// A phase in which a job can be begun is not one in which a job can be cancelled.
pub proof fn idle_jobs_are_not_cancelled(phase: EditorJobPhase)
    requires
        startable(phase),
    ensures
        !cancellable(phase),
{
}

/// Counts cancellations. A job remembers the count at which it was accepted.
#[derive(Debug, Clone, Copy, PartialEq, Eq)]
pub struct CancellationEpoch(u64);

/// What a job remembers of the cancellations before it.
#[derive(Debug, Clone, Copy, PartialEq, Eq)]
pub struct CancellationToken {
    accepted: u64,
}

impl Default for CancellationEpoch {
    fn default() -> (r: Self)
        ensures
            r.count() == 0,
    {
        CancellationEpoch(0)
    }
}

/// The count after one more cancellation; it wraps around.
pub open spec fn next_epoch(count: u64) -> u64 {
    if count == u64::MAX {
        0
    } else {
        (count + 1) as u64
    }
}

/// The count after `n` more cancellations.
pub open spec fn epoch_after(count: u64, n: nat) -> u64
    decreases n,
{
    if n == 0 {
        count
    } else {
        next_epoch(epoch_after(count, (n - 1) as nat))
    }
}

proof fn epoch_arithmetic(count: u64, n: nat)
    ensures
        epoch_after(count, n) == (count + n) % 0x1_0000_0000_0000_0000,
    decreases n,
{
    if n > 0 {
        epoch_arithmetic(count, (n - 1) as nat);
        let before = (count + n - 1) % 0x1_0000_0000_0000_0000;
        assert((count + n) % 0x1_0000_0000_0000_0000 == (before + 1) % 0x1_0000_0000_0000_0000);
    }
}

/// A job that was cancelled is not revived by later cancellations, short of as many as make the
/// count come round.
pub proof fn cancelled_job_stays_cancelled(accepted: u64, n: nat)
    requires
        0 < n < 0x1_0000_0000_0000_0000,
    ensures
        epoch_after(accepted, n) != accepted,
{
    epoch_arithmetic(accepted, n);
}

impl CancellationEpoch {
    /// The number of cancellations.
    pub closed spec fn count(self) -> u64 {
        self.0
    }

    /// A token for a job that is accepted now.
    pub fn capture(&self) -> (r: CancellationToken)
        ensures
            r.epoch() == self.count(),
            !r.stopped_by(*self),
    {
        CancellationToken { accepted: self.0 }
    }

    /// The number of cancellations.
    pub fn capture_value(&self) -> (r: u64)
        ensures
            r == self.count(),
    {
        self.0
    }

    /// The token of a job that was accepted at the count `accepted`.
    pub fn token(&self, accepted: u64) -> (r: CancellationToken)
        ensures
            r.epoch() == accepted,
    {
        CancellationToken { accepted }
    }

    /// Cancels every job accepted so far.
    pub fn cancel(&mut self)
        ensures
            final(self).count() == next_epoch(old(self).count()),
            forall|token: CancellationToken|
                !token.stopped_by(*old(self)) ==> #[trigger] token.stopped_by(*final(self)),
    {
        self.0 = if self.0 == u64::MAX { 0 } else { self.0 + 1 };
    }
}

/// The job `operation` was cancelled.
#[derive(Debug, PartialEq, Eq)]
pub struct JobCancelled {
    pub message: String,
}

impl CancellationToken {
    /// The count at which the job was accepted.
    pub closed spec fn epoch(self) -> u64 {
        self.accepted
    }

    /// The job is cancelled.
    pub open spec fn stopped_by(self, source: CancellationEpoch) -> bool {
        source.count() != self.epoch()
    }

    /// Whether the job is cancelled.
    pub fn is_cancelled(&self, source: &CancellationEpoch) -> (r: bool)
        ensures
            r == self.stopped_by(*source),
    {
        source.0 != self.accepted
    }

    /// Succeeds while the job is not cancelled.
    pub fn ensure_active(&self, source: &CancellationEpoch, operation: &str) -> (r: Result<
        (),
        JobCancelled,
    >)
        ensures
            match r {
                Ok(()) => !self.stopped_by(*source),
                Err(e) => self.stopped_by(*source) && e.message@ == operation@ + " cancelled"@,
            },
    {
        if self.is_cancelled(source) {
            Err(JobCancelled { message: join2(operation, " cancelled") })
        } else {
            Ok(())
        }
    }
}

/// `key` is the last marker at or before `frame`.
pub open spec fn governs<T>(markers: Map<u64, T>, key: u64, frame: u64) -> bool {
    &&& markers.dom().contains(key)
    &&& key <= frame
    &&& forall|k: u64| #[trigger] markers.dom().contains(k) && k <= frame ==> k <= key
}

/// `frame` comes before every marker.
pub open spec fn before_all<T>(markers: Map<u64, T>, frame: u64) -> bool {
    forall|k: u64| #[trigger] markers.dom().contains(k) ==> k > frame
}

/// The markers after `frame`.
pub open spec fn later<T>(markers: Map<u64, T>, frame: u64) -> Map<u64, T> {
    markers.restrict(Set::new(|k: u64| k > frame))
}

/// The frames that have a marker.
fn marker_frames<T>(markers: &BTreeMap<u64, T>) -> (r: Vec<u64>)
    ensures
        forall|k: u64| r@.contains(k) <==> #[trigger] markers@.dom().contains(k),
{
    let mut frames: Vec<u64> = Vec::new();
    for key in it: markers.keys()
        invariant
            it.seq().unref().to_set() == markers@.dom(),
            frames@ == it.seq().unref().take(it.index() as int),
            it.index() == it.seq().len() ==> frames@ == it.seq().unref(),
    {
        frames.push(*key);
        proof {
            assert(frames@ =~= it.seq().unref().take(it.index() + 1));
            assert(it.index() + 1 == it.seq().len() ==> frames@ =~= it.seq().unref());
        }
    }
    proof {
        assert(frames@.to_set() == markers@.dom());
        assert forall|k: u64| frames@.contains(k) <==> #[trigger] markers@.dom().contains(k) by {
            assert(frames@.to_set().contains(k) <==> frames@.contains(k));
        }
    }
    frames
}

/// The request in force at `frame`: that of the last marker at or before it, or `fallback`. The
/// markers up to `frame` are taken out.
pub fn take_effective_request<T>(
    fallback: T,
    markers: &mut BTreeMap<u64, T>,
    frame: u64,
) -> (r: T)
    ensures
        final(markers)@ == later(old(markers)@, frame),
        forall|key: u64| #[trigger] governs(old(markers)@, key, frame) ==> r == old(markers)@[key],
        before_all(old(markers)@, frame) ==> r == fallback,
{
    let frames: Vec<u64> = marker_frames(markers);
    let ghost before = markers@;
    let mut effective: Option<u64> = None;
    let mut i: usize = 0;
    while i < frames.len()
        invariant
            i <= frames.len(),
            match effective {
                Some(best) => {
                    &&& best <= frame
                    &&& frames@.contains(best)
                    &&& forall|j: int| 0 <= j < i && #[trigger] frames@[j] <= frame ==> frames@[j]
                        <= best
                },
                None => forall|j: int| 0 <= j < i ==> #[trigger] frames@[j] > frame,
            },
        decreases frames.len() - i,
    {
        let key: u64 = frames[i];
        if key <= frame {
            effective = match effective {
                Some(best) => if best < key {
                    Some(key)
                } else {
                    Some(best)
                },
                None => Some(key),
            };
        }
        assert(frames@.contains(frames@[i as int]));
        i = i + 1;
    }
    proof {
        assert forall|k: u64| before.dom().contains(k) implies exists|j: int|
            0 <= j < frames.len() && #[trigger] frames@[j] == k by {
            assert(frames@.contains(k));
        }
    }
    let taken: Option<T> = match effective {
        Some(best) => markers.remove(&best),
        None => None,
    };
    let ghost rest = markers@;
    let mut i: usize = 0;
    while i < frames.len()
        invariant
            i <= frames.len(),
            forall|k: u64| #[trigger]
                markers@.dom().contains(k) <==> rest.dom().contains(k) && !(exists|j: int|
                    0 <= j < i && frames@[j] <= frame && #[trigger] frames@[j] == k),
            forall|k: u64| #[trigger] markers@.dom().contains(k) ==> markers@[k] == rest[k],
        decreases frames.len() - i,
    {
        let key: u64 = frames[i];
        let ghost step = markers@;
        if key <= frame {
            let _ = markers.remove(&key);
        }
        proof {
            assert forall|k: u64| #[trigger]
                markers@.dom().contains(k) <==> rest.dom().contains(k) && !(exists|j: int|
                    0 <= j < i + 1 && frames@[j] <= frame && #[trigger] frames@[j] == k) by {
                assert(step.dom().contains(k) <==> rest.dom().contains(k) && !(exists|j: int|
                    0 <= j < i && frames@[j] <= frame && #[trigger] frames@[j] == k));
                assert(frames@[i as int] == key);
            }
        }
        i = i + 1;
    }
    proof {
        assert forall|k: u64| #[trigger] markers@.dom().contains(k) <==> later(
            before,
            frame,
        ).dom().contains(k) by {
            if before.dom().contains(k) && k <= frame {
                let j = choose|j: int| 0 <= j < frames.len() && #[trigger] frames@[j] == k;
                assert(frames@[j] == k);
            }
        }
        assert(markers@ =~= later(before, frame));
    }
    match taken {
        Some(request) => request,
        None => fallback,
    }
}

/// Whether a whole video is decoded into GPU memory before it is processed.
#[derive(Debug, Clone, Copy, PartialEq, Eq, Structural)]
pub enum PredecodeMode {
    Off,
    Auto,
    Full,
}

/// Free memory below which nothing is decoded ahead: 16 GiB.
pub const FULL_PREDECODE_MIN_FREE_BYTES: u64 = 17_179_869_184;

/// Memory that stays free beside the decoded frames: 2 GiB.
pub const PREDECODE_HEADROOM_BYTES: u64 = 2_147_483_648;

/// Why a video cannot be decoded ahead although that was asked for.
#[derive(Debug, Clone, Copy, PartialEq, Eq, Structural)]
pub enum PredecodeError {
    /// Less memory is free than decoding ahead takes at least.
    TooLittleFree { free_bytes: u64 },
    /// The frames do not fit beside the headroom.
    DoesNotFit { required_bytes: u64, free_bytes: u64 },
    /// The length of the video is not known.
    MissingMetadata,
}

/// Enough memory is free to decode ahead at all.
pub open spec fn enough_free(free_bytes: u64) -> bool {
    free_bytes >= FULL_PREDECODE_MIN_FREE_BYTES
}

/// The frames fit beside the headroom.
pub open spec fn leaves_headroom(free_bytes: u64, required_bytes: u64) -> bool {
    required_bytes + PREDECODE_HEADROOM_BYTES <= free_bytes
}

/// Whether a video is decoded ahead. Automatically this is done where memory allows; where it was
/// asked for, it is an error that memory does not.
pub fn full_predecode_allowed(mode: PredecodeMode, free_bytes: u64, required_bytes: u64) -> (r: Result<
    bool,
    PredecodeError,
>)
    ensures
        match mode {
            PredecodeMode::Off => r == Ok::<bool, PredecodeError>(false),
            PredecodeMode::Auto => r == Ok::<bool, PredecodeError>(
                enough_free(free_bytes) && leaves_headroom(free_bytes, required_bytes),
            ),
            PredecodeMode::Full => r == if !enough_free(free_bytes) {
                Err::<bool, PredecodeError>(PredecodeError::TooLittleFree { free_bytes })
            } else if !leaves_headroom(free_bytes, required_bytes) {
                Err::<bool, PredecodeError>(
                    PredecodeError::DoesNotFit { required_bytes, free_bytes },
                )
            } else {
                Ok::<bool, PredecodeError>(true)
            },
        },
{
    if mode == PredecodeMode::Off {
        return Ok(false);
    }
    let enough = free_bytes >= FULL_PREDECODE_MIN_FREE_BYTES;
    let fits = match required_bytes.checked_add(PREDECODE_HEADROOM_BYTES) {
        Some(with_headroom) => with_headroom <= free_bytes,
        None => false,
    };
    if mode == PredecodeMode::Full {
        if !enough {
            return Err(PredecodeError::TooLittleFree { free_bytes });
        }
        if !fits {
            return Err(PredecodeError::DoesNotFit { required_bytes, free_bytes });
        }
    }
    Ok(enough && fits)
}

/// The next step of somebody who waits for a shadow build.
#[derive(Debug, Clone, Copy, PartialEq, Eq, Structural)]
pub enum BuildWait {
    /// The build is not done and the deadline has not passed.
    KeepWaiting,
    /// The generation is there, or nothing had to be built: activate and go on.
    Activate,
    /// The build failed.
    Failed,
    /// The deadline passed first.
    TimedOut,
}

/// What to do after a wait for a shadow build, by the phase that the queue is in and whether the
/// deadline has passed.
pub fn after_build_wait(phase: BuildPhase, deadline_passed: bool) -> (r: BuildWait)
    ensures
        r == match phase {
            BuildPhase::Ready => BuildWait::Activate,
            BuildPhase::Failed => BuildWait::Failed,
            BuildPhase::Idle => if deadline_passed {
                BuildWait::Activate
            } else {
                BuildWait::KeepWaiting
            },
            BuildPhase::Queued | BuildPhase::Building => if deadline_passed {
                BuildWait::TimedOut
            } else {
                BuildWait::KeepWaiting
            },
        },
{
    match phase {
        BuildPhase::Ready => BuildWait::Activate,
        BuildPhase::Failed => BuildWait::Failed,
        BuildPhase::Idle => if deadline_passed {
            BuildWait::Activate
        } else {
            BuildWait::KeepWaiting
        },
        BuildPhase::Queued | BuildPhase::Building => if deadline_passed {
            BuildWait::TimedOut
        } else {
            BuildWait::KeepWaiting
        },
    }
}

/// A note from the worker to the editor at the end of a job.
#[derive(Debug, PartialEq, Eq)]
pub enum JobNotice {
    Phase(EditorJobPhase),
    Failed(String),
}

/// What the worker reports when a job ended: that it is idle, or that it failed and why.
pub fn job_notices(result: Result<(), String>) -> (r: Vec<JobNotice>)
    ensures
        match result {
            Ok(()) => r@ == seq![JobNotice::Phase(EditorJobPhase::Idle)],
            Err(reason) => r@ == seq![
                JobNotice::Phase(EditorJobPhase::Failed),
                JobNotice::Failed(reason),
            ],
        },
{
    let mut notices: Vec<JobNotice> = Vec::new();
    match result {
        Ok(()) => {
            notices.push(JobNotice::Phase(EditorJobPhase::Idle));
        },
        Err(reason) => {
            notices.push(JobNotice::Phase(EditorJobPhase::Failed));
            notices.push(JobNotice::Failed(reason));
        },
    }
    notices
}

/// The number of frames to show for a medium of which frame `frame_index` is looked at: an image
/// has one, and a video of unknown length has at least that frame.
pub fn shown_frames(kind: MediaKind, frame_count: Option<u64>, frame_index: u64) -> (r: u64)
    ensures
        r == match (kind, frame_count) {
            (MediaKind::Image, _) => 1,
            (MediaKind::Video, Some(count)) => count as int,
            (MediaKind::Video, None) => if frame_index == u64::MAX {
                u64::MAX as int
            } else {
                frame_index + 1
            },
        },
{
    match kind {
        MediaKind::Image => 1,
        MediaKind::Video => match frame_count {
            Some(count) => count,
            None => frame_index.saturating_add(1),
        },
    }
}

/// Every phase is one of three: nothing runs and a job can be begun, a job runs and can be
/// cancelled, or it is being cancelled.
pub proof fn phases_are_apart(phase: EditorJobPhase)
    ensures
        startable(phase) <==> !cancellable(phase) && !(phase is Cancelling),
        cancellable(phase) ==> !(phase is Cancelling),
        startable(EditorJobPhase::Idle) && startable(EditorJobPhase::Failed),
        cancellable(EditorJobPhase::Analyzing) && cancellable(EditorJobPhase::Building),
        cancellable(EditorJobPhase::Previewing) && cancellable(EditorJobPhase::Recording),
{
}

/// A video is decoded ahead only where 16 GiB are free and 2 GiB of them stay free beside it.
pub proof fn decoding_ahead_leaves_memory(free_bytes: u64, required_bytes: u64)
    ensures
        enough_free(free_bytes) <==> 16 * 1024 * 1024 * 1024 <= free_bytes,
        leaves_headroom(free_bytes, required_bytes) <==> required_bytes + 2 * 1024 * 1024 * 1024
            <= free_bytes,
{
}

} // verus!
