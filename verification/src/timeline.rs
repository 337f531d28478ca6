//! The timeline of a video: the current frame, and markers from which other control values hold.

use std::collections::BTreeMap;

use vstd::prelude::*;

use crate::controls::{ControlState, ControlValue};
use crate::number::{Single, THIRTY};
use crate::ordered::TextMap;

verus! {

broadcast use vstd::std_specs::btree::group_btree_axioms;

/// The control values that hold from a frame on: those of the editor and those of single faces.
#[derive(Debug)]
pub struct EditorMarker {
    pub controls: ControlState,
    pub face_controls: TextMap<ControlState>,
}

/// The content of a marker.
#[verifier::ext_equal]
pub ghost struct Marker {
    pub controls: Map<Seq<char>, ControlValue>,
    pub faces: Map<Seq<char>, Map<Seq<char>, ControlValue>>,
}

impl View for EditorMarker {
    type V = Marker;

    open spec fn view(&self) -> Marker {
        Marker {
            controls: self.controls@,
            faces: self.face_controls@.map_values(|c: ControlState| c@),
        }
    }
}

impl EditorMarker {
    /// A marker with the same content.
    pub fn duplicate(&self) -> (r: Self)
        ensures
            r@ == self@,
    {
        let copy = |controls: &ControlState| -> (r: ControlState)
            ensures
                r@ == controls@,
            { controls.duplicate() };
        let face_controls: TextMap<ControlState> = self.face_controls.copied(copy);
        let r = EditorMarker { controls: self.controls.duplicate(), face_controls };
        proof {
            assert forall|key: Seq<char>| #[trigger] self.face_controls@.dom().contains(
                key,
            ) implies r@.faces[key] == self@.faces[key] by {}
            assert(r@.faces =~= self@.faces);
        }
        r
    }
}

/// The state of a timeline.
#[verifier::ext_equal]
pub ghost struct Timeline {
    pub total: u64,
    pub current: u64,
    pub fps: Single,
    pub playing: bool,
    pub markers: Map<u64, Marker>,
}

/// The frame that is reached where `frame` is asked for: at most the last one.
pub open spec fn reached(frame: u64, total: u64) -> u64 {
    let last = if total == 0 {
        0
    } else {
        (total - 1) as u64
    };
    if frame < last {
        frame
    } else {
        last
    }
}

/// `frame + delta`, held to the range of frames.
pub open spec fn stepped(frame: u64, delta: i64) -> u64 {
    if frame + delta < 0 {
        0
    } else if frame + delta > u64::MAX {
        u64::MAX
    } else {
        (frame + delta) as u64
    }
}

/// `frame` is the last marker before `current`.
pub open spec fn is_previous<T>(markers: Map<u64, T>, current: u64, frame: u64) -> bool {
    &&& markers.dom().contains(frame)
    &&& frame < current
    &&& forall|k: u64| #[trigger] markers.dom().contains(k) && k < current ==> k <= frame
}

/// `frame` is the first marker after `current`.
pub open spec fn is_next<T>(markers: Map<u64, T>, current: u64, frame: u64) -> bool {
    &&& markers.dom().contains(frame)
    &&& frame > current
    &&& forall|k: u64| #[trigger] markers.dom().contains(k) && k > current ==> k >= frame
}

/// The timeline of a video.
#[derive(Debug)]
pub struct EditorTimeline {
    total_frames: u64,
    current_frame: u64,
    fps: Single,
    playing: bool,
    markers: BTreeMap<u64, EditorMarker>,
}

impl View for EditorTimeline {
    type V = Timeline;

    closed spec fn view(&self) -> Timeline {
        Timeline {
            total: self.total_frames,
            current: self.current_frame,
            fps: self.fps,
            playing: self.playing,
            markers: self.markers@.map_values(|m: EditorMarker| m@),
        }
    }
}

impl Default for EditorTimeline {
    fn default() -> (r: Self)
        ensures
            r@ == (Timeline {
                total: 1,
                current: 0,
                fps: Single { bits: THIRTY },
                playing: false,
                markers: Map::empty(),
            }),
    {
        EditorTimeline::new(1, Single { bits: THIRTY })
    }
}

impl EditorTimeline {
    /// A timeline at its first frame, without markers.
    pub fn new(total_frames: u64, fps: Single) -> (r: Self)
        ensures
            r@ == (Timeline {
                total: total_frames,
                current: 0,
                fps,
                playing: false,
                markers: Map::empty(),
            }),
    {
        let r = EditorTimeline {
            total_frames,
            current_frame: 0,
            fps,
            playing: false,
            markers: BTreeMap::new(),
        };
        proof {
            assert(r@.markers =~= Map::<u64, Marker>::empty());
        }
        r
    }

    /// The timeline that holds the given parts, such as those of a file.
    pub fn from_parts(
        total_frames: u64,
        current_frame: u64,
        fps: Single,
        playing: bool,
        markers: BTreeMap<u64, EditorMarker>,
    ) -> (r: Self)
        ensures
            r@ == (Timeline {
                total: total_frames,
                current: current_frame,
                fps,
                playing,
                markers: markers@.map_values(|m: EditorMarker| m@),
            }),
    {
        EditorTimeline { total_frames, current_frame, fps, playing, markers }
    }

    /// A timeline with the same state.
    pub fn duplicate(&self) -> (r: Self)
        ensures
            r@ == self@,
    {
        let frames: Vec<u64> = self.markers();
        let mut markers: BTreeMap<u64, EditorMarker> = BTreeMap::new();
        let ghost all = self@.markers;
        let mut i: usize = 0;
        while i < frames.len()
            invariant
                i <= frames.len(),
                all == self@.markers,
                forall|k: u64| frames@.contains(k) <==> #[trigger] all.dom().contains(k),
                forall|k: u64| #[trigger]
                    markers@.dom().contains(k) <==> exists|j: int|
                        0 <= j < i && #[trigger] frames@[j] == k,
                forall|k: u64| #[trigger]
                    markers@.dom().contains(k) ==> all.dom().contains(k) && markers@[k]@ == all[k],
            decreases frames.len() - i,
        {
            let frame: u64 = frames[i];
            proof {
                assert(frames@.contains(frame));
            }
            if let Some(marker) = self.marker_at(frame) {
                let ghost before = markers@;
                let _ = markers.insert(frame, marker.duplicate());
                proof {
                    assert forall|k: u64| #[trigger] markers@.dom().contains(k) <==> exists|j: int|
                        0 <= j < i + 1 && #[trigger] frames@[j] == k by {
                        if before.dom().contains(k) {
                            let j = choose|j: int| 0 <= j < i && #[trigger] frames@[j] == k;
                            assert(frames@[j] == k);
                        }
                        assert(frames@[i as int] == frame);
                    }
                }
            }
            i = i + 1;
        }
        let r = EditorTimeline {
            total_frames: self.total_frames,
            current_frame: self.current_frame,
            fps: self.fps,
            playing: self.playing,
            markers,
        };
        proof {
            assert forall|k: u64| #[trigger] all.dom().contains(k) implies r@.markers.dom().contains(
                k,
            ) by {
                assert(frames@.contains(k));
                let j = choose|j: int| 0 <= j < frames@.len() && frames@[j] == k;
                assert(frames@[j] == k);
                assert(markers@.dom().contains(k));
            }
            assert(r@.markers =~= all);
        }
        r
    }

    /// The current frame.
    pub fn current_frame(&self) -> (r: u64)
        ensures
            r == self@.current,
    {
        self.current_frame
    }

    /// The number of frames.
    pub fn total_frames(&self) -> (r: u64)
        ensures
            r == self@.total,
    {
        self.total_frames
    }

    /// Frames per second.
    pub fn fps(&self) -> (r: Single)
        ensures
            r == self@.fps,
    {
        self.fps
    }

    /// Whether the video plays.
    pub fn is_playing(&self) -> (r: bool)
        ensures
            r == self@.playing,
    {
        self.playing
    }

    /// Starts or stops playing.
    pub fn toggle_playback(&mut self)
        ensures
            final(self)@ == (Timeline { playing: !old(self)@.playing, ..old(self)@ }),
    {
        self.playing = !self.playing;
    }

    /// Starts or stops playing.
    pub fn set_playing(&mut self, playing: bool)
        ensures
            final(self)@ == (Timeline { playing, ..old(self)@ }),
    {
        self.playing = playing;
    }

    /// Goes to a frame, at most to the last one.
    pub fn seek(&mut self, frame: u64)
        ensures
            final(self)@ == (Timeline { current: reached(frame, old(self)@.total), ..old(self)@ }),
    {
        let last: u64 = if self.total_frames == 0 { 0 } else { self.total_frames - 1 };
        self.current_frame = if frame < last { frame } else { last };
    }

    /// Goes forward or backward by a number of frames, within the video.
    pub fn step(&mut self, delta: i64)
        ensures
            final(self)@ == (Timeline {
                current: reached(stepped(old(self)@.current, delta), old(self)@.total),
                ..old(self)@
            }),
    {
        let wide: i128 = self.current_frame as i128 + delta as i128;
        let frame: u64 = if wide < 0 {
            0
        } else if wide > u64::MAX as i128 {
            u64::MAX
        } else {
            wide as u64
        };
        self.seek(frame);
    }

    /// Sets a marker without values for single faces at the current frame.
    pub fn add_marker(&mut self, controls: ControlState)
        ensures
            final(self)@ == (Timeline {
                markers: old(self)@.markers.insert(
                    old(self)@.current,
                    Marker { controls: controls@, faces: Map::empty() },
                ),
                ..old(self)@
            }),
    {
        let none: TextMap<ControlState> = TextMap::new();
        proof {
            assert(none@.map_values(|c: ControlState| c@) =~= Map::<
                Seq<char>,
                Map<Seq<char>, ControlValue>,
            >::empty());
        }
        self.add_marker_snapshot(controls, none);
    }

    /// Sets a marker at the current frame, in place of one that is there.
    pub fn add_marker_snapshot(
        &mut self,
        controls: ControlState,
        face_controls: TextMap<ControlState>,
    )
        ensures
            final(self)@ == (Timeline {
                markers: old(self)@.markers.insert(
                    old(self)@.current,
                    Marker {
                        controls: controls@,
                        faces: face_controls@.map_values(|c: ControlState| c@),
                    },
                ),
                ..old(self)@
            }),
    {
        let marker = EditorMarker { controls, face_controls };
        let ghost content = marker@;
        let _ = self.markers.insert(self.current_frame, marker);
        proof {
            assert(self@.markers =~= old(self)@.markers.insert(old(self)@.current, content));
        }
    }

    /// Takes the marker at a frame out.
    pub fn remove_marker(&mut self, frame: u64) -> (r: Option<EditorMarker>)
        ensures
            final(self)@ == (Timeline { markers: old(self)@.markers.remove(frame), ..old(self)@ }),
            match r {
                Some(marker) => old(self)@.markers.dom().contains(frame) && marker@
                    == old(self)@.markers[frame],
                None => !old(self)@.markers.dom().contains(frame),
            },
    {
        let removed = self.markers.remove(&frame);
        proof {
            assert(self@.markers =~= old(self)@.markers.remove(frame));
        }
        removed
    }

    /// Takes all markers out and says how many there were.
    pub fn clear_markers(&mut self) -> (r: usize)
        ensures
            r == old(self)@.markers.dom().len(),
            final(self)@ == (Timeline { markers: Map::empty(), ..old(self)@ }),
    {
        let removed: usize = self.markers.len();
        proof {
            assert(self@.markers.dom() =~= self.markers@.dom());
        }
        self.markers.clear();
        proof {
            assert(self@.markers =~= Map::<u64, Marker>::empty());
        }
        removed
    }

    /// The marker at a frame.
    pub fn marker_at(&self, frame: u64) -> (r: Option<&EditorMarker>)
        ensures
            match r {
                Some(marker) => self@.markers.dom().contains(frame) && marker@
                    == self@.markers[frame],
                None => !self@.markers.dom().contains(frame),
            },
    {
        self.markers.get(&frame)
    }

    /// The frames that have a marker, in ascending order.
    pub fn markers(&self) -> (r: Vec<u64>)
        ensures
            forall|i: int, j: int| 0 <= i < j < r@.len() ==> r@[i] < r@[j],
            forall|k: u64| r@.contains(k) <==> #[trigger] self@.markers.dom().contains(k),
    {
        let mut frames: Vec<u64> = Vec::new();
        let mut sorted: Vec<u64> = Vec::new();
        for key in it: self.markers.keys()
            invariant
                it.seq().unref().to_set() == self.markers@.dom(),
                frames@ == it.seq().unref().take(it.index() as int),
                it.index() == it.seq().len() ==> frames@ == it.seq().unref(),
                forall|i: int, j: int| 0 <= i < j < sorted@.len() ==> sorted@[i] < sorted@[j],
                forall|k: u64| sorted@.contains(k) <==> #[trigger] frames@.contains(k),
        {
            let ghost before = frames@;
            frames.push(*key);
            insert_frame(&mut sorted, *key);
            proof {
                assert(frames@ =~= it.seq().unref().take(it.index() + 1));
                assert(it.index() + 1 == it.seq().len() ==> frames@ =~= it.seq().unref());
                assert forall|k: u64| sorted@.contains(k) <==> #[trigger] frames@.contains(k) by {
                    pushed_contains(before, *key, k);
                }
            }
        }
        proof {
            assert(frames@.to_set() == self.markers@.dom());
            assert forall|k: u64| sorted@.contains(k) <==> #[trigger] self@.markers.dom().contains(
                k,
            ) by {
                assert(frames@.to_set().contains(k) <==> frames@.contains(k));
            }
        }
        sorted
    }

    /// The last marker before the current frame.
    pub fn previous_marker(&self) -> (r: Option<u64>)
        ensures
            match r {
                Some(frame) => is_previous(self@.markers, self@.current, frame),
                None => forall|k: u64| #[trigger]
                    self@.markers.dom().contains(k) ==> k >= self@.current,
            },
    {
        let frames: Vec<u64> = self.markers();
        let mut i: usize = frames.len();
        while i > 0
            invariant
                i <= frames.len(),
                forall|a: int, b: int| 0 <= a < b < frames@.len() ==> frames@[a] < frames@[b],
                forall|k: u64| frames@.contains(k) <==> #[trigger] self@.markers.dom().contains(k),
                forall|j: int| i <= j < frames@.len() ==> frames@[j] >= self@.current,
            decreases i,
        {
            if frames[i - 1] < self.current_frame {
                proof {
                    let frame = frames@[i - 1];
                    assert(frames@.contains(frame));
                    assert forall|k: u64| #[trigger] self@.markers.dom().contains(k) && k
                        < self@.current implies k <= frame by {
                        let j = choose|j: int| 0 <= j < frames@.len() && frames@[j] == k;
                        assert(frames@.contains(k));
                        if j > i - 1 {
                            assert(frames@[j] >= self@.current);
                        }
                    }
                }
                return Some(frames[i - 1]);
            }
            i = i - 1;
        }
        proof {
            assert forall|k: u64| #[trigger] self@.markers.dom().contains(k) implies k
                >= self@.current by {
                assert(frames@.contains(k));
            }
        }
        None
    }

    /// The first marker after the current frame.
    pub fn next_marker(&self) -> (r: Option<u64>)
        ensures
            match r {
                Some(frame) => is_next(self@.markers, self@.current, frame),
                None => forall|k: u64| #[trigger]
                    self@.markers.dom().contains(k) ==> k <= self@.current,
            },
    {
        let frames: Vec<u64> = self.markers();
        let mut i: usize = 0;
        while i < frames.len()
            invariant
                i <= frames.len(),
                forall|a: int, b: int| 0 <= a < b < frames@.len() ==> frames@[a] < frames@[b],
                forall|k: u64| frames@.contains(k) <==> #[trigger] self@.markers.dom().contains(k),
                forall|j: int| 0 <= j < i ==> frames@[j] <= self@.current,
            decreases frames.len() - i,
        {
            if frames[i] > self.current_frame {
                proof {
                    let frame = frames@[i as int];
                    assert(frames@.contains(frame));
                    assert forall|k: u64| #[trigger] self@.markers.dom().contains(k) && k
                        > self@.current implies k >= frame by {
                        assert(frames@.contains(k));
                        let j = choose|j: int| 0 <= j < frames@.len() && frames@[j] == k;
                        if j < i {
                            assert(frames@[j] <= self@.current);
                        }
                    }
                }
                return Some(frames[i]);
            }
            i = i + 1;
        }
        proof {
            assert forall|k: u64| #[trigger] self@.markers.dom().contains(k) implies k
                <= self@.current by {
                assert(frames@.contains(k));
            }
        }
        None
    }
}

proof fn pushed_contains(frames: Seq<u64>, key: u64, k: u64)
    ensures
        frames.push(key).contains(k) <==> frames.contains(k) || k == key,
{
    let after = frames.push(key);
    if frames.contains(k) {
        let i = choose|i: int| 0 <= i < frames.len() && frames[i] == k;
        assert(after[i] == k);
    }
    if k == key {
        assert(after[frames.len() as int] == k);
    }
}

/// Puts a frame into its place among frames in ascending order.
fn insert_frame(frames: &mut Vec<u64>, frame: u64)
    requires
        forall|i: int, j: int| 0 <= i < j < old(frames)@.len() ==> old(frames)@[i] < old(
            frames,
        )@[j],
    ensures
        forall|i: int, j: int|
            0 <= i < j < final(frames)@.len() ==> final(frames)@[i] < final(frames)@[j],
        forall|k: u64| #[trigger] final(frames)@.contains(k) <==> old(frames)@.contains(k) || k
            == frame,
{
    let ghost before = frames@;
    let mut i: usize = 0;
    while i < frames.len() && frames[i] < frame
        invariant
            i <= frames.len(),
            frames@ == before,
            forall|j: int| 0 <= j < i ==> before[j] < frame,
        decreases frames.len() - i,
    {
        i = i + 1;
    }
    if i < frames.len() && frames[i] == frame {
        assert(before[i as int] == frame);
        return;
    }
    frames.insert(i, frame);
    proof {
        let after = frames@;
        assert(after =~= before.insert(i as int, frame));
        assert forall|a: int, b: int| 0 <= a < b < after.len() implies after[a] < after[b] by {
            let x = if a < i { a } else { a - 1 };
            let y = if b < i { b } else { b - 1 };
            if a != i {
                assert(after[a] == before[x]);
            }
            if b != i {
                assert(after[b] == before[y]);
            }
        }
        assert forall|k: u64| #[trigger] after.contains(k) <==> before.contains(k) || k == frame by {
            if after.contains(k) {
                let p = choose|p: int| 0 <= p < after.len() && after[p] == k;
                if p != i {
                    let q = if p < i { p } else { p - 1 };
                    assert(before[q] == k);
                }
            }
            if before.contains(k) {
                let p = choose|p: int| 0 <= p < before.len() && before[p] == k;
                let q = if p < i { p } else { p + 1 };
                assert(after[q] == k);
            }
            if k == frame {
                assert(after[i as int] == k);
            }
        }
    }
}

/// Seeking stays inside the video, and does not move where the frame asked for is inside.
pub proof fn seeking_stays_inside(frame: u64, total: u64)
    ensures
        total > 0 ==> reached(frame, total) < total,
        frame < total ==> reached(frame, total) == frame,
        reached(reached(frame, total), total) == reached(frame, total),
{
}

/// A step forward and the same step back lead to the same frame, where neither end of the video is
/// in the way.
pub proof fn step_back_undoes_step(frame: u64, total: u64, delta: i64)
    requires
        delta != i64::MIN,
        frame < total,
        0 <= frame + delta < total,
    ensures
        reached(stepped(reached(stepped(frame, delta), total), (-delta) as i64), total) == frame,
{
}

/// A marker that lies before the current frame is not passed over on the way back: going to the
/// previous marker and from there to the next marker leads to no earlier frame.
pub proof fn markers_are_passed_in_order<T>(
    markers: Map<u64, T>,
    current: u64,
    previous: u64,
    next: u64,
)
    requires
        is_previous(markers, current, previous),
        is_next(markers, previous, next),
    ensures
        next >= current,
{
    if next < current {
        assert(markers.dom().contains(next));
    }
}

} // verus!
