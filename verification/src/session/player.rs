//! The player of a session: its timeline, its markers and its keys.

use vstd::prelude::*;

use crate::controls::ControlValue;
use crate::controls::ControlState;
use crate::faces::{Faces, Target};
use crate::faces::{FaceWorkspace, TargetFace};
use crate::media::find_item;
use crate::media::{MediaKind, MediaRole};
use crate::ordered::{entry_is_unique, keys_are_listed, keys_of, listed, map_of};
use crate::ordered::{ascending, TextMap};
use crate::session::state::Session;
use crate::session::state::{EditorView, ExtraGuiState, Intents};
use crate::text::numeral;
use crate::text::{decimal, join2};
use crate::timeline::{is_next, is_previous, reached, stepped, Marker, Timeline};
use crate::viewport::whole_picture;
use crate::viewport::PreviewViewport;

verus! {

/// The control values of faces by the ids of the faces.
pub type FaceValues = Map<Seq<char>, Map<Seq<char>, ControlValue>>;

impl Faces {
    /// The faces where those that `values` names have their control values from it.
    pub open spec fn with_face_values(self, values: FaceValues) -> Faces {
        Faces {
            targets: Map::new(
                |key: Seq<char>| self.targets.dom().contains(key),
                |key: Seq<char>|
                    if values.dom().contains(key) {
                        Target { controls: values[key], ..self.targets[key] }
                    } else {
                        self.targets[key]
                    },
            ),
            ..self
        }
    }
}

/// The control values of the targets `keys`.
pub open spec fn values_among(targets: Map<Seq<char>, Target>, keys: Seq<Seq<char>>) -> FaceValues
    decreases keys.len(),
{
    if keys.len() == 0 {
        Map::empty()
    } else {
        let last = targets[keys.last()];
        values_among(targets, keys.drop_last()).insert(last.id, last.controls)
    }
}

/// The control values of all targets.
pub open spec fn face_values(faces: Faces) -> FaceValues {
    values_among(faces.targets, listed(faces.targets.dom()))
}

/// The last marker before the current frame.
pub open spec fn marker_before(t: Timeline) -> Option<u64> {
    if exists|frame: u64| is_previous(t.markers, t.current, frame) {
        Some(choose|frame: u64| is_previous(t.markers, t.current, frame))
    } else {
        None
    }
}

/// The first marker after the current frame.
pub open spec fn marker_after(t: Timeline) -> Option<u64> {
    if exists|frame: u64| is_next(t.markers, t.current, frame) {
        Some(choose|frame: u64| is_next(t.markers, t.current, frame))
    } else {
        None
    }
}

/// The last frame.
pub open spec fn last_frame(t: Timeline) -> u64 {
    if t.total == 0 {
        0
    } else {
        (t.total - 1) as u64
    }
}

impl Session {
    /// The session at another frame.
    pub open spec fn sought(self, frame: u64) -> Session {
        Session {
            timeline: Timeline { current: reached(frame, self.timeline.total), ..self.timeline },
            ..self
        }
    }

    /// The session some frames on or back.
    pub open spec fn moved(self, delta: i64) -> Session {
        self.sought(stepped(self.timeline.current, delta))
    }

    /// A marker stands at the current frame.
    pub open spec fn at_marker(self) -> bool {
        self.timeline.markers.dom().contains(self.timeline.current)
    }

    /// The session with the control values of the marker at its frame, where there is one.
    pub open spec fn marked(self) -> Session {
        if self.at_marker() {
            let marker = self.timeline.markers[self.timeline.current];
            Session {
                controls: marker.controls,
                faces: self.faces.with_face_values(marker.faces),
                ..self
            }
        } else {
            self
        }
    }

    /// The session with the control values of the marker at its frame, which it tells of.
    pub open spec fn told_marked(self) -> Session {
        if self.at_marker() {
            self.marked().saying(
                "Loaded marker at frame "@ + numeral(self.timeline.current as nat),
            )
        } else {
            self
        }
    }

    /// The session with a marker that holds its control values.
    pub open spec fn with_marker(self) -> Session {
        Session {
            timeline: Timeline {
                markers: self.timeline.markers.insert(
                    self.timeline.current,
                    Marker { controls: self.controls, faces: face_values(self.faces) },
                ),
                ..self.timeline
            },
            ..self
        }
    }

    /// The session without the marker at its frame.
    pub open spec fn without_marker(self) -> Session {
        Session {
            timeline: Timeline {
                markers: self.timeline.markers.remove(self.timeline.current),
                ..self.timeline
            },
            ..self
        }
    }

    /// The session that plays where it paused, or pauses where it played.
    pub open spec fn toggled(self) -> Session {
        let playing = !self.timeline.playing;
        Session {
            timeline: Timeline { playing, ..self.timeline },
            intents: if playing {
                Intents { play: true, ..self.intents }
            } else {
                Intents { pause: true, ..self.intents }
            },
            ..self
        }
    }
}

proof fn marker_before_is(t: Timeline, frame: u64)
    requires
        is_previous(t.markers, t.current, frame),
    ensures
        marker_before(t) == Some(frame),
{
    let chosen = choose|frame: u64| is_previous(t.markers, t.current, frame);
    assert(is_previous(t.markers, t.current, chosen));
}

proof fn marker_after_is(t: Timeline, frame: u64)
    requires
        is_next(t.markers, t.current, frame),
    ensures
        marker_after(t) == Some(frame),
{
    let chosen = choose|frame: u64| is_next(t.markers, t.current, frame);
    assert(is_next(t.markers, t.current, chosen));
}

/// What the user does to the timeline.
#[derive(Debug, Clone, Copy, PartialEq, Eq)]
pub enum TimelineAction {
    Seek(u64),
    First,
    PreviousFrame,
    PlayOrPause,
    NextFrame,
    Last,
    Record,
    AddMarker,
    PreviousMarker,
    NextMarker,
    RemoveMarker,
}

/// What an action on the timeline leads to.
pub open spec fn timeline_acted(s: Session, action: TimelineAction) -> Session {
    match action {
        TimelineAction::Seek(frame) => s.sought(frame).told_marked().changed(),
        TimelineAction::First => s.sought(0).told_marked(),
        TimelineAction::PreviousFrame => s.moved(-1i64 as i64).told_marked(),
        TimelineAction::PlayOrPause => s.toggled(),
        TimelineAction::NextFrame => s.moved(1).told_marked(),
        TimelineAction::Last => s.sought(last_frame(s.timeline)).told_marked(),
        TimelineAction::Record => Session { intents: Intents { record: true, ..s.intents }, ..s },
        TimelineAction::AddMarker => s.with_marker().saying(
            "Marker at frame "@ + numeral(s.timeline.current as nat),
        ).changed(),
        TimelineAction::PreviousMarker => match marker_before(s.timeline) {
            Some(frame) => s.sought(frame).told_marked(),
            None => s,
        },
        TimelineAction::NextMarker => match marker_after(s.timeline) {
            Some(frame) => s.sought(frame).told_marked(),
            None => s,
        },
        TimelineAction::RemoveMarker => s.without_marker().changed(),
    }
}

/// The keys that were pressed, and whether the alternate key was held.
#[derive(Debug, Clone, Copy, PartialEq, Eq)]
pub struct PressedKeys {
    pub f11: bool,
    pub space: bool,
    pub c: bool,
    pub v: bool,
    pub a: bool,
    pub d: bool,
    pub z: bool,
    pub q: bool,
    pub w: bool,
    pub f: bool,
    pub alt: bool,
    pub p: bool,
    pub s: bool,
    pub r: bool,
}

/// What the keys ask for beside the changes of the session.
#[derive(Debug, Clone, Copy, PartialEq, Eq)]
pub struct KeyRequests {
    /// The window has to fill the screen, or no longer.
    pub fullscreen: Option<bool>,
    pub preview: bool,
    pub record: bool,
}

/// The frames that the keys go on by.
pub open spec fn key_delta(keys: PressedKeys) -> i64 {
    if keys.c {
        -1i64 as i64
    } else if keys.v {
        1
    } else if keys.a {
        -30i64 as i64
    } else if keys.d {
        30
    } else {
        0
    }
}

/// The session after the keys for windows and playback.
pub open spec fn window_keys(s: Session, keys: PressedKeys) -> Session {
    let s = if keys.f11 {
        Session { view: EditorView { fullscreen: !s.view.fullscreen, ..s.view }, ..s }
    } else {
        s
    };
    if keys.space {
        s.toggled()
    } else {
        s
    }
}

/// The session after the keys that go to other frames.
pub open spec fn frame_keys(s: Session, keys: PressedKeys) -> Session {
    let s = if key_delta(keys) != 0 {
        s.moved(key_delta(keys)).marked()
    } else {
        s
    };
    if keys.z {
        s.sought(0).marked()
    } else {
        s
    }
}

/// The session after the keys that go to markers.
pub open spec fn marker_keys(s: Session, keys: PressedKeys) -> Session {
    let s = match marker_before(s.timeline) {
        Some(frame) => if keys.q {
            s.sought(frame).marked()
        } else {
            s
        },
        None => s,
    };
    match marker_after(s.timeline) {
        Some(frame) => if keys.w {
            s.sought(frame).marked()
        } else {
            s
        },
        None => s,
    }
}

/// The session after the keys that set markers and detach the preview.
pub open spec fn editing_keys(s: Session, keys: PressedKeys) -> Session {
    let s = if !keys.f {
        s
    } else if keys.alt {
        s.without_marker().changed()
    } else {
        s.with_marker().changed()
    };
    if keys.p {
        Session { preview: PreviewViewport { detached: !s.preview.detached, ..s.preview }, ..s }
    } else {
        s
    }
}

/// The session after all keys, in the order in which they are looked at.
pub open spec fn keys_pressed(s: Session, keys: PressedKeys) -> Session {
    editing_keys(marker_keys(frame_keys(window_keys(s, keys), keys), keys), keys)
}

/// What there is to load for the preview.
#[derive(Debug, PartialEq, Eq)]
pub enum PreviewLoad {
    Nothing,
    /// The image at a path.
    Image(String),
}

/// Gives faces the control values that a marker holds.
pub fn give_values(faces: &mut FaceWorkspace, values: &TextMap<ControlState>)
    ensures
        final(faces)@ == old(faces)@.with_face_values(
            values@.map_values(|c: ControlState| c@),
        ),
{
    let ghost start = faces@;
    let ghost given = values@.map_values(|c: ControlState| c@);
    let n: usize = values.len();
    let ghost pairs = values.pairs();
    proof {
        assert(start.targets =~= partly(start, pairs, 0).targets);
    }
    let mut i: usize = 0;
    while i < n
        invariant
            i <= n,
            n == pairs.len(),
            pairs == values.pairs(),
            ascending(pairs),
            faces@ == partly(start, pairs, i as int),
        decreases n - i,
    {
        let id = values.key_at(i);
        let controls = values.value_at(i);
        let ghost before = faces@;
        let _ = faces.set_target_controls(id.as_str(), controls.duplicate());
        proof {
            entry_is_unique(pairs, i as int);
            let next = partly(start, pairs, i + 1);
            assert forall|key: Seq<char>| #[trigger] next.targets.dom().contains(
                key,
            ) implies faces@.targets[key] == next.targets[key] by {
                if key == pairs[i as int].0 {
                    assert(named_before(pairs, i + 1, key));
                } else {
                    if named_before(pairs, i + 1, key) {
                        let j = choose|j: int|
                            0 <= j < i + 1 && (#[trigger] pairs[j]).0 == key;
                        assert(pairs[j].0 == key);
                        assert(named_before(pairs, i as int, key));
                    }
                    if named_before(pairs, i as int, key) {
                        let j = choose|j: int| 0 <= j < i && (#[trigger] pairs[j]).0 == key;
                        assert(pairs[j].0 == key);
                        assert(named_before(pairs, i + 1, key));
                    }
                }
            }
            assert(faces@.targets =~= next.targets);
            assert(faces@ =~= next);
        }
        i = i + 1;
    }
    proof {
        let end = start.with_face_values(given);
        let now = partly(start, pairs, n as int);
        assert forall|key: Seq<char>| #[trigger] end.targets.dom().contains(
            key,
        ) implies now.targets[key] == end.targets[key] by {
            if given.dom().contains(key) {
                let p = crate::ordered::place_of(pairs, key);
                assert(pairs[p].0 == key);
                assert(named_before(pairs, n as int, key));
            }
            if named_before(pairs, n as int, key) {
                let j = choose|j: int| 0 <= j < n && (#[trigger] pairs[j]).0 == key;
                entry_is_unique(pairs, j);
                assert(given.dom().contains(key));
            }
        }
        assert(now.targets =~= end.targets);
        assert(now =~= end);
    }
}

impl ExtraGuiState {
    /// Gives faces the control values that a marker holds.
    fn give_face_values(&mut self, values: &TextMap<ControlState>)
        ensures
            final(self)@ == old(self)@.with_faces(
                old(self)@.faces.with_face_values(values@.map_values(|c: ControlState| c@)),
            ),
    {
        give_values(&mut self.faces, values);
    }

    /// Takes the control values of the marker at the current frame. Gives back whether there is
    /// one.
    pub fn apply_exact_marker(&mut self) -> (r: bool)
        ensures
            r == old(self)@.at_marker(),
            final(self)@ == old(self)@.marked(),
    {
        let ghost start = self@;
        let frame: u64 = self.timeline.current_frame();
        let marker = match self.timeline.marker_at(frame) {
            Some(marker) => marker.duplicate(),
            None => return false,
        };
        self.controls = marker.controls;
        self.give_face_values(&marker.face_controls);
        true
    }

    /// Takes the control values of the marker at the current frame, and tells of it.
    fn show_exact_marker(&mut self)
        ensures
            final(self)@ == old(self)@.told_marked(),
    {
        let frame: u64 = self.timeline.current_frame();
        if self.apply_exact_marker() {
            let number = decimal(frame);
            let text = join2("Loaded marker at frame ", number.as_str());
            self.say(text.as_str());
        }
    }

    /// The control values of all targets.
    fn take_face_values(&self) -> (r: TextMap<ControlState>)
        ensures
            r@.map_values(|c: ControlState| c@) == face_values(self@.faces),
    {
        let targets = self.faces.targets();
        let ghost faces = self.faces@;
        let ghost entries = self.faces.target_entries();
        let ghost keys = keys_of(entries);
        proof {
            self.faces.entries_are_the_view();
            keys_are_listed(entries);
            assert(faces.targets.dom() =~= map_of(entries).dom());
        }
        let mut r: TextMap<ControlState> = TextMap::new();
        proof {
            assert(r@.map_values(|c: ControlState| c@) =~= values_among(
                faces.targets,
                keys.take(0),
            ));
        }
        let mut i: usize = 0;
        while i < targets.len()
            invariant
                i <= targets.len(),
                ascending(entries),
                keys == keys_of(entries),
                targets@.len() == entries.len(),
                faces.targets == map_of(entries).map_values(|t: TargetFace| t@),
                forall|j: int| 0 <= j < targets@.len() ==> *(#[trigger] targets@[j]) == entries[j].1,
                r@.map_values(|c: ControlState| c@) == values_among(
                    faces.targets,
                    keys.take(i as int),
                ),
            decreases targets.len() - i,
        {
            let target = targets[i];
            let ghost before = r@.map_values(|c: ControlState| c@);
            proof {
                entry_is_unique(entries, i as int);
                assert(keys.take(i + 1).drop_last() =~= keys.take(i as int));
                assert(keys[i as int] == entries[i as int].0);
                assert(faces.targets[keys[i as int]] == target@);
            }
            let _ = r.insert(target.id.clone(), target.controls.duplicate());
            proof {
                assert(r@.map_values(|c: ControlState| c@) =~= before.insert(
                    target.id@,
                    target.controls@,
                ));
            }
            i = i + 1;
        }
        proof {
            assert(keys.take(keys.len() as int) =~= keys);
        }
        r
    }

    /// Sets a marker with the control values of the session at the current frame.
    pub fn add_marker(&mut self)
        ensures
            final(self)@ == old(self)@.with_marker(),
    {
        let faces = self.take_face_values();
        let controls = self.controls.duplicate();
        self.timeline.add_marker_snapshot(controls, faces);
    }

    /// Plays where the session paused, or pauses where it played.
    pub fn toggle_playback(&mut self)
        ensures
            final(self)@ == old(self)@.toggled(),
    {
        self.timeline.toggle_playback();
        if self.timeline.is_playing() {
            self.intents.play = true;
        } else {
            self.intents.pause = true;
        }
    }

    fn previous_marker(&self) -> (r: Option<u64>)
        ensures
            r == marker_before(self@.timeline),
    {
        let found = self.timeline.previous_marker();
        proof {
            match found {
                Some(frame) => marker_before_is(self@.timeline, frame),
                None => {},
            }
        }
        found
    }

    fn next_marker(&self) -> (r: Option<u64>)
        ensures
            r == marker_after(self@.timeline),
    {
        let found = self.timeline.next_marker();
        proof {
            match found {
                Some(frame) => marker_after_is(self@.timeline, frame),
                None => {},
            }
        }
        found
    }

    /// Does what the user does to the timeline.
    pub fn timeline_action(&mut self, action: TimelineAction)
        ensures
            final(self)@ == timeline_acted(old(self)@, action),
    {
        match action {
            TimelineAction::Seek(frame) => {
                self.timeline.seek(frame);
                self.show_exact_marker();
                self.touch();
            },
            TimelineAction::First => {
                self.timeline.seek(0);
                self.show_exact_marker();
            },
            TimelineAction::PreviousFrame => {
                self.timeline.step(-1);
                self.show_exact_marker();
            },
            TimelineAction::PlayOrPause => self.toggle_playback(),
            TimelineAction::NextFrame => {
                self.timeline.step(1);
                self.show_exact_marker();
            },
            TimelineAction::Last => {
                let last: u64 = self.timeline.total_frames().saturating_sub(1);
                self.timeline.seek(last);
                self.show_exact_marker();
            },
            TimelineAction::Record => {
                self.intents.record = true;
            },
            TimelineAction::AddMarker => {
                self.add_marker();
                let number = decimal(self.timeline.current_frame());
                let text = join2("Marker at frame ", number.as_str());
                self.say(text.as_str());
                self.touch();
            },
            TimelineAction::PreviousMarker => {
                if let Some(frame) = self.previous_marker() {
                    self.timeline.seek(frame);
                    self.show_exact_marker();
                }
            },
            TimelineAction::NextMarker => {
                if let Some(frame) = self.next_marker() {
                    self.timeline.seek(frame);
                    self.show_exact_marker();
                }
            },
            TimelineAction::RemoveMarker => {
                let frame: u64 = self.timeline.current_frame();
                let _ = self.timeline.remove_marker(frame);
                self.touch();
            },
        }
    }

    fn press_window_keys(&mut self, keys: PressedKeys)
        ensures
            final(self)@ == window_keys(old(self)@, keys),
    {
        if keys.f11 {
            self.view.fullscreen = !self.view.fullscreen;
        }
        if keys.space {
            self.toggle_playback();
        }
    }

    fn press_frame_keys(&mut self, keys: PressedKeys)
        ensures
            final(self)@ == frame_keys(old(self)@, keys),
    {
        let delta: i64 = if keys.c {
            -1
        } else if keys.v {
            1
        } else if keys.a {
            -30
        } else if keys.d {
            30
        } else {
            0
        };
        if delta != 0 {
            self.timeline.step(delta);
            let _ = self.apply_exact_marker();
        }
        if keys.z {
            self.timeline.seek(0);
            let _ = self.apply_exact_marker();
        }
    }

    fn press_marker_keys(&mut self, keys: PressedKeys)
        ensures
            final(self)@ == marker_keys(old(self)@, keys),
    {
        if keys.q {
            if let Some(frame) = self.previous_marker() {
                self.timeline.seek(frame);
                let _ = self.apply_exact_marker();
            }
        }
        if keys.w {
            if let Some(frame) = self.next_marker() {
                self.timeline.seek(frame);
                let _ = self.apply_exact_marker();
            }
        }
    }

    fn press_editing_keys(&mut self, keys: PressedKeys)
        ensures
            final(self)@ == editing_keys(old(self)@, keys),
    {
        if keys.f {
            if keys.alt {
                let frame: u64 = self.timeline.current_frame();
                let _ = self.timeline.remove_marker(frame);
            } else {
                self.add_marker();
            }
            self.touch();
        }
        if keys.p {
            self.preview.detached = !self.preview.detached;
        }
    }

    /// Does what keys ask for. While a text is being typed, they ask for nothing.
    pub fn keyboard_shortcuts(&mut self, typing: bool, keys: PressedKeys) -> (r: KeyRequests)
        ensures
            if typing {
                &&& final(self)@ == old(self)@
                &&& r == (KeyRequests { fullscreen: None, preview: false, record: false })
            } else {
                &&& final(self)@ == keys_pressed(old(self)@, keys)
                &&& r == (KeyRequests {
                    fullscreen: if keys.f11 {
                        Some(!old(self)@.view.fullscreen)
                    } else {
                        None
                    },
                    preview: keys.s,
                    record: keys.r,
                })
            },
    {
        if typing {
            return KeyRequests { fullscreen: None, preview: false, record: false };
        }
        self.press_window_keys(keys);
        let fullscreen: Option<bool> = if keys.f11 {
            Some(self.view.fullscreen)
        } else {
            None
        };
        self.press_frame_keys(keys);
        self.press_marker_keys(keys);
        self.press_editing_keys(keys);
        KeyRequests { fullscreen, preview: keys.s, record: keys.r }
    }

    /// Shows the whole picture again.
    pub fn fit_preview(&mut self)
        ensures
            final(self)@ == (Session { preview: whole_picture(), ..old(self)@ }).changed(),
    {
        self.preview.reset();
        self.touch();
    }

    /// Shows the picture beside the one that it was made from, or no longer.
    pub fn compare_preview(&mut self, compare: bool)
        ensures
            final(self)@ == (Session {
                preview: PreviewViewport { compare, ..old(self)@.preview },
                ..old(self)@
            }).changed(),
    {
        self.preview.compare = compare;
        self.touch();
    }

    /// Shows the preview in a window of its own.
    pub fn detach_preview(&mut self)
        ensures
            final(self)@ == (Session {
                preview: PreviewViewport { detached: true, ..old(self)@.preview },
                ..old(self)@
            }).changed(),
    {
        self.preview.detached = true;
        self.touch();
    }

    /// Sees whether another target was selected, and what there is to load for it.
    pub fn sync_preview(&mut self) -> (r: PreviewLoad)
        ensures
            ({
                let s = old(self)@;
                let chosen = s.media.target;
                let seen = Session {
                    view: EditorView { preview_loaded: chosen, ..s.view },
                    ..s
                };
                if chosen == s.view.preview_loaded {
                    final(self)@ == s && r is Nothing
                } else if chosen is Some && find_item(s.media.items, chosen->0) is Some {
                    let item = find_item(s.media.items, chosen->0)->0;
                    match item.kind {
                        MediaKind::Image => final(self)@ == seen && (r matches PreviewLoad::Image(
                            path,
                        ) && path@ == item.path@),
                        MediaKind::Video => r is Nothing && final(self)@ == seen.saying(
                            "Video target ready for timeline decoding"@,
                        ),
                    }
                } else {
                    final(self)@ == seen && r is Nothing
                }
            }),
    {
        let selected = self.media.selected(MediaRole::Target);
        let same = match (selected, self.view.preview_loaded) {
            (Some(a), Some(b)) => a.0 == b.0,
            (None, None) => true,
            _ => false,
        };
        if same {
            return PreviewLoad::Nothing;
        }
        self.view.preview_loaded = selected;
        let id = match selected {
            Some(id) => id,
            None => return PreviewLoad::Nothing,
        };
        let load = match self.media.item(id) {
            None => return PreviewLoad::Nothing,
            Some(item) => match item.kind {
                MediaKind::Image => PreviewLoad::Image(item.path.clone()),
                MediaKind::Video => PreviewLoad::Nothing,
            },
        };
        if let PreviewLoad::Nothing = &load {
            self.say("Video target ready for timeline decoding");
        }
        load
    }

    /// The image of the target was opened, or could not be.
    pub fn preview_opened(&mut self, path: &str, error: Option<String>)
        ensures
            final(self)@ == match error {
                None => (Session { preview: whole_picture(), ..old(self)@ }).saying(
                    "Loaded "@ + path@,
                ),
                Some(reason) => old(self)@.saying("Could not open "@ + path@ + ": "@ + reason@),
            },
    {
        match error {
            None => {
                let text = join2("Loaded ", path);
                self.say(text.as_str());
                self.preview.reset();
            },
            Some(reason) => {
                let front = join2("Could not open ", path);
                let colon = join2(front.as_str(), ": ");
                let text = join2(colon.as_str(), reason.as_str());
                self.say(text.as_str());
            },
        }
    }
}

/// The first `n` entries name `key`.
spec fn named_before<V>(pairs: Seq<(Seq<char>, V)>, n: int, key: Seq<char>) -> bool {
    exists|j: int| 0 <= j < n && (#[trigger] pairs[j]).0 == key
}

/// The faces where those that the first `n` entries name have their control values.
spec fn partly(faces: Faces, pairs: Seq<(Seq<char>, ControlState)>, n: int) -> Faces {
    Faces {
        targets: Map::new(
            |key: Seq<char>| faces.targets.dom().contains(key),
            |key: Seq<char>|
                if named_before(pairs, n, key) {
                    Target { controls: map_of(pairs)[key]@, ..faces.targets[key] }
                } else {
                    faces.targets[key]
                },
        ),
        ..faces
    }
}

/// A marker gives back the control values that it was set with.
pub proof fn marker_reads_back(s: Session)
    requires
        s.faces.targets.dom().finite(),
        forall|key: Seq<char>| #[trigger]
            s.faces.targets.dom().contains(key) ==> s.faces.targets[key].id == key,
    ensures
        s.with_marker().at_marker(),
        s.with_marker().marked() == s.with_marker(),
{
    let targets = s.faces.targets;
    let keys = listed(targets.dom());
    crate::ordered::every_set_is_listed(targets.dom());
    assert forall|i: int| 0 <= i < keys.len() implies targets.dom().contains(#[trigger] keys[i]) by {
        assert(keys.contains(keys[i]));
    }
    values_are_those(targets, keys);
    let values = face_values(s.faces);
    assert forall|key: Seq<char>| #[trigger] targets.dom().contains(key) implies values.dom().contains(
        key,
    ) && values[key] == targets[key].controls by {
        assert(keys.contains(key));
    }
    assert(s.faces.with_face_values(values).targets =~= targets);
    assert(s.faces.with_face_values(values) =~= s.faces);
    assert(s.with_marker().marked() =~= s.with_marker());
}

proof fn values_are_those(targets: Map<Seq<char>, Target>, keys: Seq<Seq<char>>)
    requires
        forall|i: int| 0 <= i < keys.len() ==> targets[#[trigger] keys[i]].id == keys[i],
    ensures
        forall|key: Seq<char>| #[trigger]
            keys.contains(key) ==> values_among(targets, keys).dom().contains(key)
                && values_among(targets, keys)[key] == targets[key].controls,
    decreases keys.len(),
{
    if keys.len() > 0 {
        let front = keys.drop_last();
        assert forall|i: int| 0 <= i < front.len() implies targets[#[trigger] front[i]].id
            == front[i] by {
            assert(front[i] == keys[i]);
        }
        values_are_those(targets, front);
        assert(keys[keys.len() - 1] == keys.last());
        assert forall|key: Seq<char>| #[trigger] keys.contains(key) implies values_among(
            targets,
            keys,
        ).dom().contains(key) && values_among(targets, keys)[key] == targets[key].controls by {
            let i = choose|i: int| 0 <= i < keys.len() && keys[i] == key;
            if i < front.len() {
                assert(front[i] == key);
                assert(front.contains(key));
            }
        }
    }
}

} // verus!
