//! What the worker of an editor decides while it goes through the frames of a video.

use std::collections::BTreeMap;

use vstd::prelude::*;

use crate::engine::builder::BuildPhase;
use crate::number::{Single, ONE};
use crate::ordered::TextMap;
use crate::runtime::take_effective_request;
use crate::runtime::{before_all, governs, later};
use crate::session::events::AnalyzedIdentity;
use crate::text::join2;

verus! {

broadcast use vstd::std_specs::btree::group_btree_axioms;

/// The request in force at a frame: that of the last marker at or before it, or the one that was
/// there from the start.
pub open spec fn in_force<T>(markers: Map<u64, T>, fallback: T, frame: u64) -> T {
    if exists|key: u64| governs(markers, key, frame) {
        markers[choose|key: u64| governs(markers, key, frame)]
    } else {
        fallback
    }
}

/// There is a last marker at or before a frame, unless all come after it.
pub proof fn some_marker_governs<T>(markers: Map<u64, T>, frame: u64)
    ensures
        before_all(markers, frame) || exists|key: u64| governs(markers, key, frame),
    decreases frame,
{
    if markers.dom().contains(frame) {
        assert(governs(markers, frame, frame));
    } else if frame > 0 {
        let earlier = (frame - 1) as u64;
        some_marker_governs(markers, earlier);
        if exists|key: u64| governs(markers, key, earlier) {
            let key = choose|key: u64| governs(markers, key, earlier);
            assert(governs(markers, key, frame));
        } else {
            assert forall|k: u64| #[trigger] markers.dom().contains(k) implies k > frame by {
                if k <= frame {
                    assert(k <= earlier);
                }
            }
        }
    } else {
        assert forall|k: u64| #[trigger] markers.dom().contains(k) implies k > frame by {}
    }
}

/// Only one marker governs a frame.
proof fn governing_marker_is_unique<T>(markers: Map<u64, T>, frame: u64, a: u64, b: u64)
    requires
        governs(markers, a, frame),
        governs(markers, b, frame),
    ensures
        a == b,
{
}

/// From one frame to the next, the request in force changes exactly where a marker stands.
pub proof fn markers_take_force_in_order<T>(markers: Map<u64, T>, fallback: T, frame: u64)
    requires
        frame < u64::MAX,
    ensures
        ({
            let next = (frame + 1) as u64;
            in_force(markers, fallback, next) == if later(markers, frame).dom().contains(next) {
                later(markers, frame)[next]
            } else {
                in_force(markers, fallback, frame)
            }
        }),
        later(markers, (frame + 1) as u64) == later(markers, frame).remove((frame + 1) as u64),
{
    let next = (frame + 1) as u64;
    if markers.dom().contains(next) {
        assert(governs(markers, next, next));
        let chosen = choose|key: u64| governs(markers, key, next);
        governing_marker_is_unique(markers, next, next, chosen);
    } else {
        assert forall|key: u64| governs(markers, key, frame) <==> #[trigger] governs(
            markers,
            key,
            next,
        ) by {}
        if exists|key: u64| governs(markers, key, frame) {
            let a = choose|key: u64| governs(markers, key, frame);
            assert(governs(markers, a, next));
            let b = choose|key: u64| governs(markers, key, next);
            governing_marker_is_unique(markers, next, a, b);
        } else if exists|key: u64| governs(markers, key, next) {
            let b = choose|key: u64| governs(markers, key, next);
            assert(governs(markers, b, frame));
        }
    }
    assert(later(markers, next) =~= later(markers, frame).remove(next));
}

/// What the worker does with the next frame.
#[derive(Debug, PartialEq, Eq)]
pub enum FrameStep<T> {
    /// There are no more frames.
    End,
    /// The job was cancelled.
    Cancelled,
    /// The engine is configured anew before the frame is processed.
    Configure(T),
    Process,
}

/// A job that goes through the frames of a video.
#[derive(Debug)]
pub struct FrameRun<T> {
    markers: BTreeMap<u64, T>,
    index: u64,
}

impl<T> FrameRun<T> {
    /// The markers that were not reached yet.
    pub closed spec fn ahead(&self) -> Map<u64, T> {
        self.markers@
    }

    /// The frame that comes next.
    pub closed spec fn at(&self) -> u64 {
        self.index
    }

    /// Begins at a frame. Gives back the request in force there.
    pub fn begin(fallback: T, markers: BTreeMap<u64, T>, start: u64) -> (r: (Self, T))
        ensures
            r.0.ahead() == later(markers@, start),
            r.0.at() == start,
            r.1 == in_force(markers@, fallback, start),
    {
        let ghost all = markers@;
        let mut rest = markers;
        let request = take_effective_request(fallback, &mut rest, start);
        proof {
            some_marker_governs(all, start);
            if exists|key: u64| governs(all, key, start) {
                let key = choose|key: u64| governs(all, key, start);
                assert(request == all[key]);
            }
        }
        (FrameRun { markers: rest, index: start }, request)
    }

    /// What is done next. A marker at the frame is taken.
    pub fn next(&mut self, more: bool, cancelled: bool) -> (r: FrameStep<T>)
        ensures
            final(self).at() == old(self).at(),
            if !more {
                r is End && final(self).ahead() == old(self).ahead()
            } else if cancelled {
                r is Cancelled && final(self).ahead() == old(self).ahead()
            } else {
                &&& final(self).ahead() == old(self).ahead().remove(old(self).at())
                &&& if old(self).ahead().dom().contains(old(self).at()) {
                    r matches FrameStep::Configure(request) && request == old(self).ahead()[old(
                        self,
                    ).at()]
                } else {
                    r is Process
                }
            },
    {
        if !more {
            return FrameStep::End;
        }
        if cancelled {
            return FrameStep::Cancelled;
        }
        let ghost before = self.markers@;
        match self.markers.remove(&self.index) {
            Some(request) => FrameStep::Configure(request),
            None => {
                proof {
                    assert(self.markers@ =~= before.remove(self.index));
                }
                FrameStep::Process
            },
        }
    }

    /// A frame was processed. Gives back how many were.
    pub fn frame_done(&mut self) -> (r: u64)
        ensures
            r == if old(self).at() == u64::MAX {
                u64::MAX as int
            } else {
                old(self).at() + 1
            },
            final(self).at() == r,
            final(self).ahead() == old(self).ahead(),
    {
        self.index = self.index.saturating_add(1);
        self.index
    }
}

/// The larger of two numbers; a value that is not a number does not count.
pub open spec fn larger_number(a: Single, b: Single) -> Single {
    if a.nan() || a.at_most(b) {
        b
    } else {
        a
    }
}

/// The smaller of two numbers; a value that is not a number does not count.
pub open spec fn smaller_number(a: Single, b: Single) -> Single {
    if a.nan() || b.at_most(a) {
        b
    } else {
        a
    }
}

fn larger_of(a: Single, b: Single) -> (r: Single)
    ensures
        r == larger_number(a, b),
{
    if a.is_nan() || a.is_at_most(b) {
        b
    } else {
        a
    }
}

fn smaller_of(a: Single, b: Single) -> (r: Single)
    ensures
        r == smaller_number(a, b),
{
    if a.is_nan() || b.is_at_most(a) {
        b
    } else {
        a
    }
}

/// The rate at which a video is played: its own, or a lower one that was asked for, and at least
/// one frame per second.
pub open spec fn played_rate(limit: Option<Single>, video: Single) -> Single {
    let one = Single { bits: ONE };
    let own = larger_number(video, one);
    match limit {
        Some(limit) => larger_number(smaller_number(limit, own), one),
        None => own,
    }
}

/// The rate at which a video is played.
pub fn playback_rate(limit: Option<Single>, video: Single) -> (r: Single)
    ensures
        r == played_rate(limit, video),
{
    let one = Single { bits: ONE };
    let own = larger_of(video, one);
    match limit {
        Some(limit) => {
            let low = smaller_of(limit, own);
            larger_of(low, one)
        },
        None => {
            let held = smaller_of(own, own);
            larger_of(held, one)
        },
    }
}

/// A video is played at least at one frame per second, and never faster than it is where it has
/// a rate of at least one.
pub proof fn playback_rate_is_held(limit: Option<Single>, video: Single)
    ensures
        (Single { bits: ONE }).at_most(played_rate(limit, video)),
        (Single { bits: ONE }).at_most(video) ==> played_rate(limit, video).at_most(video),
{
}

/// How long to wait after a frame, where its time is not over. Times are in nanoseconds.
pub fn remaining_time(frame: u64, elapsed: u64) -> (r: Option<u64>)
    ensures
        r == if elapsed <= frame {
            Some((frame - elapsed) as u64)
        } else {
            None
        },
{
    if elapsed <= frame {
        Some(frame - elapsed)
    } else {
        None
    }
}

/// Whether a build that was asked for has to be waited for.
pub fn build_is_pending(phase: BuildPhase) -> (r: bool)
    ensures
        r == !(phase is Idle),
{
    match phase {
        BuildPhase::Idle => false,
        _ => true,
    }
}

/// What has to be made anew before a frame is shown: the ring of frames, and the textures.
pub fn preview_changes(
    ring: Option<(u32, u32)>,
    textures: Option<(u32, u32)>,
    frame: (u32, u32),
) -> (r: (bool, bool))
    ensures
        r.0 == (ring != Some(frame)),
        r.1 == (textures != Some(frame)),
{
    let ring_changed = match ring {
        Some(size) => size.0 != frame.0 || size.1 != frame.1,
        None => true,
    };
    let textures_changed = match textures {
        Some(size) => size.0 != frame.0 || size.1 != frame.1,
        None => true,
    };
    (ring_changed, textures_changed)
}

/// What an analysis does next.
#[derive(Debug, PartialEq, Eq)]
pub enum AnalysisStep {
    /// Find the faces in the picture at a path.
    Find(String),
    Cancelled,
    Done,
}

/// An analysis that goes through the pictures of sources, one after the other.
#[derive(Debug)]
pub struct AnalysisRun {
    /// The ids of the sources and the paths of their pictures.
    sources: Vec<(String, String)>,
    index: usize,
    found: TextMap<AnalyzedIdentity>,
}

impl AnalysisRun {
    /// The ids of the sources and the paths of their pictures.
    pub closed spec fn sources(self) -> Seq<(String, String)> {
        self.sources@
    }

    /// How many pictures were gone through.
    pub closed spec fn index(self) -> int {
        self.index as int
    }

    /// The faces that were found, by the ids of the sources.
    pub closed spec fn found(self) -> Map<Seq<char>, AnalyzedIdentity> {
        self.found@
    }

    /// No picture is past the last.
    pub closed spec fn wf(self) -> bool {
        self.index <= self.sources@.len()
    }

    /// Begins an analysis.
    pub fn begin(sources: Vec<(String, String)>) -> (r: Self)
        ensures
            r.wf(),
            r.sources() == sources@,
            r.index() == 0,
            r.found() == Map::<Seq<char>, AnalyzedIdentity>::empty(),
    {
        AnalysisRun { sources, index: 0, found: TextMap::new() }
    }

    /// What is done next.
    pub fn next(&self, cancelled: bool) -> (r: AnalysisStep)
        requires
            self.wf(),
        ensures
            if self.index() >= self.sources().len() {
                r is Done
            } else if cancelled {
                r is Cancelled
            } else {
                r matches AnalysisStep::Find(path) && path@ == self.sources()[self.index()].1@
            },
    {
        if self.index >= self.sources.len() {
            AnalysisStep::Done
        } else if cancelled {
            AnalysisStep::Cancelled
        } else {
            AnalysisStep::Find(self.sources[self.index].1.clone())
        }
    }

    /// Takes the first of the faces that were found in a picture. A picture without a face ends
    /// the analysis; the error says so.
    pub fn took(&mut self, faces: Vec<AnalyzedIdentity>) -> (r: Result<(), String>)
        requires
            old(self).wf(),
            old(self).index() < old(self).sources().len(),
        ensures
            final(self).wf(),
            final(self).sources() == old(self).sources(),
            match r {
                Ok(()) => {
                    &&& faces@.len() > 0
                    &&& final(self).index() == old(self).index() + 1
                    &&& final(self).found() == old(self).found().insert(
                        old(self).sources()[old(self).index()].0@,
                        faces@[0],
                    )
                },
                Err(message) => {
                    &&& faces@.len() == 0
                    &&& *final(self) == *old(self)
                    &&& message@ == "no source face detected in "@ + old(self).sources()[old(
                        self,
                    ).index()].1@
                },
            },
    {
        if faces.len() == 0 {
            return Err(
                join2("no source face detected in ", self.sources[self.index].1.as_str()),
            );
        }
        let count: usize = self.sources.len();
        assert(self.index < count);
        let mut faces: Vec<AnalyzedIdentity> = faces;
        let first: AnalyzedIdentity = faces.remove(0);
        let id: String = self.sources[self.index].0.clone();
        let _ = self.found.insert(id, first);
        self.index = self.index + 1;
        Ok(())
    }

    /// The faces that were found.
    pub fn into_found(self) -> (r: TextMap<AnalyzedIdentity>)
        ensures
            r@ == self.found(),
    {
        self.found
    }
}

/// What an analysis has found after the first `n` pictures had faces.
pub open spec fn found_after(
    sources: Seq<(String, String)>,
    faces: Seq<AnalyzedIdentity>,
    n: nat,
) -> Map<Seq<char>, AnalyzedIdentity>
    decreases n,
{
    if n == 0 {
        Map::empty()
    } else {
        found_after(sources, faces, (n - 1) as nat).insert(sources[n - 1].0@, faces[n - 1])
    }
}

/// An analysis that ends has a face for every source, and for nothing else.
pub proof fn every_source_has_a_face(
    sources: Seq<(String, String)>,
    faces: Seq<AnalyzedIdentity>,
    n: nat,
)
    requires
        n <= sources.len(),
    ensures
        forall|id: Seq<char>| #[trigger]
            found_after(sources, faces, n).dom().contains(id) <==> exists|i: int|
                0 <= i < n && (#[trigger] sources[i]).0@ == id,
    decreases n,
{
    if n > 0 {
        every_source_has_a_face(sources, faces, (n - 1) as nat);
        assert forall|id: Seq<char>| #[trigger]
            found_after(sources, faces, n).dom().contains(id) <==> exists|i: int|
                0 <= i < n && (#[trigger] sources[i]).0@ == id by {
            if sources[n - 1].0@ == id {
                assert(0 <= n - 1 < n && sources[n - 1].0@ == id);
            } else if found_after(sources, faces, (n - 1) as nat).dom().contains(id) {
                let i = choose|i: int| 0 <= i < n - 1 && (#[trigger] sources[i]).0@ == id;
                assert(0 <= i < n && sources[i].0@ == id);
            }
        }
    }
}

} // verus!
