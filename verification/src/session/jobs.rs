//! The jobs that a session gives to its worker.

use std::collections::BTreeMap;

use vstd::prelude::*;

use crate::bridge::read::{ControlBridgeError, Values};
use crate::bridge::request::{requested, settings_read};
use crate::bridge::request::EditorEngineRequest;
use crate::bridge::settings::EditorRuntimeConfig;
use crate::config::{DetectorModel, ExecutionProvider, FaceSwapParams};
use crate::controls::ControlState;
use crate::engine::spec::EngineSpec;
use crate::faces::Faces;
use crate::faces::{FaceWorkspace, SourceIdentity};
use crate::media::{find_item, Library};
use crate::media::{MediaId, MediaItem, MediaKind, MediaRole};
use crate::number::Single;
use crate::ordered::{entry_is_unique, keys_are_listed, keys_of, listed, map_of};
use crate::ordered::ascending;
use crate::paths::parent;
use crate::paths::parent_of;
use crate::runtime::{cancellable, startable};
use crate::runtime::{EditorJobPhase, EditorJobState, EditorRuntimeError};
use crate::session::routes::merge_method;
use crate::session::routes::method_of;
use crate::session::state::{Place, Said, Session};
use crate::session::state::{EditorView, ExtraGuiPanel, ExtraGuiState, Intents, Notice};
use crate::timeline::{Marker, Timeline};

verus! {

broadcast use vstd::std_specs::btree::group_btree_axioms;

/// What the engine computes for a session: the mean of numbers, the number between two, the digest
/// of an embedding and of a file, and the generation for a digest.
pub struct EngineServices<F, G, D, P, B> {
    pub mean: F,
    pub midpoint: G,
    pub digest: D,
    pub file: P,
    pub build: B,
}

/// The services can be asked for anything.
pub open spec fn served<F, G, D, P, B>(services: EngineServices<F, G, D, P, B>) -> bool where
    F: Fn(Vec<Single>) -> Single,
    G: Fn(Single, Single) -> Single,
    D: Fn(&Vec<Single>) -> Result<String, String>,
    P: Fn(&String) -> Result<String, String>,
    B: Fn(String, FaceSwapParams, ExecutionProvider, DetectorModel) -> Result<EngineSpec, String>,
 {
    &&& forall|v: Vec<Single>| call_requires(services.mean, (v,))
    &&& forall|a: Single, b: Single| call_requires(services.midpoint, (a, b))
    &&& forall|v: &Vec<Single>| call_requires(services.digest, (v,))
    &&& forall|path: &String| call_requires(services.file, (path,))
    &&& forall|text: String, p: FaceSwapParams, e: ExecutionProvider, m: DetectorModel|
        call_requires(services.build, (text, p, e, m))
}

/// The outcome of making a request of control values and faces.
pub open spec fn request_made<F, G, D, P, B>(
    values: Values,
    faces: FaceWorkspace,
    services: EngineServices<F, G, D, P, B>,
    r: Result<EditorEngineRequest, ControlBridgeError>,
) -> bool where
    F: Fn(Vec<Single>) -> Single,
    G: Fn(Single, Single) -> Single,
    D: Fn(&Vec<Single>) -> Result<String, String>,
    P: Fn(&String) -> Result<String, String>,
    B: Fn(String, FaceSwapParams, ExecutionProvider, DetectorModel) -> Result<EngineSpec, String>,
 {
    exists|read: Result<EditorRuntimeConfig, ControlBridgeError>| #[trigger]
        settings_read(values, read) && request_of(read, values, faces, services, r)
}

/// The outcome of making a request with settings that were read, or could not be.
pub open spec fn request_of<F, G, D, P, B>(
    read: Result<EditorRuntimeConfig, ControlBridgeError>,
    values: Values,
    faces: FaceWorkspace,
    services: EngineServices<F, G, D, P, B>,
    r: Result<EditorEngineRequest, ControlBridgeError>,
) -> bool where
    F: Fn(Vec<Single>) -> Single,
    G: Fn(Single, Single) -> Single,
    D: Fn(&Vec<Single>) -> Result<String, String>,
    P: Fn(&String) -> Result<String, String>,
    B: Fn(String, FaceSwapParams, ExecutionProvider, DetectorModel) -> Result<EngineSpec, String>,
 {
    match read {
        Err(e) => r == Err::<EditorEngineRequest, ControlBridgeError>(e),
        Ok(config) => requested(
            config,
            faces,
            method_of(values),
            services.mean,
            services.midpoint,
            services.digest,
            services.file,
            services.build,
            r,
        ),
    }
}

/// The outcome of making the request of a marker: that of the session, with the control values
/// that the marker holds.
pub open spec fn marker_request<F, G, D, P, B>(
    faces: Faces,
    marker: Marker,
    services: EngineServices<F, G, D, P, B>,
    r: Result<EditorEngineRequest, ControlBridgeError>,
) -> bool where
    F: Fn(Vec<Single>) -> Single,
    G: Fn(Single, Single) -> Single,
    D: Fn(&Vec<Single>) -> Result<String, String>,
    P: Fn(&String) -> Result<String, String>,
    B: Fn(String, FaceSwapParams, ExecutionProvider, DetectorModel) -> Result<EngineSpec, String>,
 {
    exists|workspace: FaceWorkspace|
        workspace@ == faces.with_face_values(marker.faces) && #[trigger] request_made(
            marker.controls,
            workspace,
            services,
            r,
        )
}

/// The outcome of making the requests of all markers. The first marker that makes none ends it.
pub open spec fn marker_requests<F, G, D, P, B>(
    s: Session,
    services: EngineServices<F, G, D, P, B>,
    r: Result<Map<u64, EditorEngineRequest>, (u64, ControlBridgeError)>,
) -> bool where
    F: Fn(Vec<Single>) -> Single,
    G: Fn(Single, Single) -> Single,
    D: Fn(&Vec<Single>) -> Result<String, String>,
    P: Fn(&String) -> Result<String, String>,
    B: Fn(String, FaceSwapParams, ExecutionProvider, DetectorModel) -> Result<EngineSpec, String>,
 {
    let markers = s.timeline.markers;
    match r {
        Ok(requests) => {
            &&& requests.dom() == markers.dom()
            &&& forall|frame: u64| #[trigger]
                requests.dom().contains(frame) ==> marker_request(
                    s.faces,
                    markers[frame],
                    services,
                    Ok(requests[frame]),
                )
        },
        Err((frame, e)) => {
            &&& markers.dom().contains(frame)
            &&& marker_request(s.faces, markers[frame], services, Err(e))
            &&& forall|earlier: u64| #[trigger]
                markers.dom().contains(earlier) && earlier < frame ==> makes_request(
                    s.faces,
                    markers[earlier],
                    services,
                )
        },
    }
}

/// A marker makes a request.
pub open spec fn makes_request<F, G, D, P, B>(
    faces: Faces,
    marker: Marker,
    services: EngineServices<F, G, D, P, B>,
) -> bool where
    F: Fn(Vec<Single>) -> Single,
    G: Fn(Single, Single) -> Single,
    D: Fn(&Vec<Single>) -> Result<String, String>,
    P: Fn(&String) -> Result<String, String>,
    B: Fn(String, FaceSwapParams, ExecutionProvider, DetectorModel) -> Result<EngineSpec, String>,
 {
    exists|request: EditorEngineRequest| #[trigger]
        marker_request(faces, marker, services, Ok(request))
}

/// A result whose requests are taken as a map.
pub open spec fn mapped(
    r: Result<BTreeMap<u64, EditorEngineRequest>, (u64, ControlBridgeError)>,
) -> Result<Map<u64, EditorEngineRequest>, (u64, ControlBridgeError)> {
    match r {
        Ok(requests) => Ok(requests@),
        Err(e) => Err(e),
    }
}

/// The target medium.
pub open spec fn target_item(media: Library) -> Option<MediaItem> {
    match media.target {
        Some(id) => find_item(media.items, id),
        None => None,
    }
}

/// The media of the sources `keys`, with the ids of the sources, as far as there are any.
pub open spec fn source_media(faces: Faces, media: Library, keys: Seq<Seq<char>>) -> Seq<
    (Seq<char>, Seq<char>),
>
    decreases keys.len(),
{
    if keys.len() == 0 {
        Seq::empty()
    } else {
        let before = source_media(faces, media, keys.drop_last());
        let source = faces.sources[keys.last()];
        if source.media_id is Some && find_item(media.items, source.media_id->0) is Some {
            before.push((source.id, (find_item(media.items, source.media_id->0)->0).path@))
        } else {
            before
        }
    }
}

/// Pairs of texts.
pub open spec fn text_pairs(list: Seq<(String, String)>) -> Seq<(Seq<char>, Seq<char>)> {
    list.map_values(|pair: (String, String)| (pair.0@, pair.1@))
}

/// What the worker has to analyze.
#[derive(Debug)]
pub struct AnalyzeRequest {
    pub target_media: MediaId,
    pub target_path: String,
    pub target_kind: MediaKind,
    pub frame_index: u64,
    pub source_paths: Vec<(String, String)>,
    pub runtime: EditorRuntimeConfig,
}

/// What the worker has to show.
#[derive(Debug)]
pub struct PreviewRequest {
    pub path: String,
    pub kind: MediaKind,
    pub frame_index: u64,
    pub request: EditorEngineRequest,
}

/// What the worker has to play.
#[derive(Debug)]
pub struct PlaybackRequest {
    pub path: String,
    pub start_frame: u64,
    pub fps: Option<Single>,
    pub request: EditorEngineRequest,
    pub markers: BTreeMap<u64, EditorEngineRequest>,
}

/// What the worker has to record.
#[derive(Debug)]
pub struct RecordRequest {
    pub path: String,
    pub output: String,
    pub request: EditorEngineRequest,
    pub markers: BTreeMap<u64, EditorEngineRequest>,
}

/// An editor session with its job.
#[derive(Debug)]
pub struct ExtraGuiApp {
    pub state: ExtraGuiState,
    pub job: EditorJobState,
}

/// A session with the phase of its job.
#[verifier::ext_equal]
pub ghost struct Working {
    pub session: Session,
    pub phase: EditorJobPhase,
}

impl View for ExtraGuiApp {
    type V = Working;

    open spec fn view(&self) -> Working {
        Working { session: self.state@, phase: self.job.current() }
    }
}

impl Working {
    /// The session tells of something, in another phase.
    pub open spec fn telling(self, phase: EditorJobPhase, status: Said) -> Working {
        Working { session: Session { status, ..self.session }, phase }
    }

    /// The session in another phase.
    pub open spec fn entering(self, phase: EditorJobPhase) -> Working {
        Working { phase, ..self }
    }

    /// The session that does not play.
    pub open spec fn paused(self) -> Working {
        Working {
            session: Session {
                timeline: Timeline { playing: false, ..self.session.timeline },
                ..self.session
            },
            ..self
        }
    }
}

/// A worker that does something else is not asked again.
pub open spec fn busy(w: Working) -> Working {
    w.telling(w.phase, Said::Job(EditorRuntimeError::Busy(w.phase)))
}

/// The outcome of asking for an analysis.
pub open spec fn analysis_begun(w: Working, after: Working, r: Option<AnalyzeRequest>) -> bool {
    let s = w.session;
    if !startable(w.phase) {
        after == busy(w) && r is None
    } else if target_item(s.media) is None {
        after == w.telling(EditorJobPhase::Idle, Said::Text("Select target media first"@)) && r
            is None
    } else {
        let item = target_item(s.media)->0;
        exists|read: Result<EditorRuntimeConfig, ControlBridgeError>|
            {
                &&& #[trigger] settings_read(s.controls, read)
                &&& match read {
                    Err(e) => after == w.telling(EditorJobPhase::Failed, Said::Bridge(e)) && r
                        is None,
                    Ok(config) => {
                        &&& after == w.entering(EditorJobPhase::Analyzing)
                        &&& r matches Some(request)
                        &&& request.target_media == item.id
                        &&& request.target_path@ == item.path@
                        &&& request.target_kind == item.kind
                        &&& request.frame_index == s.timeline.current
                        &&& text_pairs(request.source_paths@) == source_media(
                            s.faces,
                            s.media,
                            listed(s.faces.sources.dom()),
                        )
                        &&& request.runtime == config
                    },
                }
            }
    }
}

/// The outcome of asking for a preview.
pub open spec fn preview_begun<F, G, D, P, B>(
    w: Working,
    faces: FaceWorkspace,
    services: EngineServices<F, G, D, P, B>,
    after: Working,
    r: Option<PreviewRequest>,
) -> bool where
    F: Fn(Vec<Single>) -> Single,
    G: Fn(Single, Single) -> Single,
    D: Fn(&Vec<Single>) -> Result<String, String>,
    P: Fn(&String) -> Result<String, String>,
    B: Fn(String, FaceSwapParams, ExecutionProvider, DetectorModel) -> Result<EngineSpec, String>,
 {
    let s = w.session;
    if !startable(w.phase) {
        after == busy(w) && r is None
    } else if target_item(s.media) is None {
        after == w.telling(EditorJobPhase::Idle, Said::Text("Select target media first"@)) && r
            is None
    } else {
        let item = target_item(s.media)->0;
        exists|made: Result<EditorEngineRequest, ControlBridgeError>|
            {
                &&& #[trigger] request_made(s.controls, faces, services, made)
                &&& match made {
                    Err(e) => after == w.telling(EditorJobPhase::Failed, Said::Bridge(e)) && r
                        is None,
                    Ok(request) => {
                        &&& after == w.entering(EditorJobPhase::Building)
                        &&& r matches Some(asked)
                        &&& asked.path@ == item.path@
                        &&& asked.kind == item.kind
                        &&& asked.frame_index == s.timeline.current
                        &&& asked.request == request
                    },
                }
            }
    }
}

/// The outcome of asking for a playback of a video, once its settings were read, or could not be.
pub open spec fn playback_made<F, G, D, P, B>(
    w: Working,
    faces: FaceWorkspace,
    path: Seq<char>,
    read: Result<EditorRuntimeConfig, ControlBridgeError>,
    services: EngineServices<F, G, D, P, B>,
    after: Working,
    r: Option<PlaybackRequest>,
) -> bool where
    F: Fn(Vec<Single>) -> Single,
    G: Fn(Single, Single) -> Single,
    D: Fn(&Vec<Single>) -> Result<String, String>,
    P: Fn(&String) -> Result<String, String>,
    B: Fn(String, FaceSwapParams, ExecutionProvider, DetectorModel) -> Result<EngineSpec, String>,
 {
    let s = w.session;
    exists|made: Result<EditorEngineRequest, ControlBridgeError>|
        {
            &&& #[trigger] request_of(read, s.controls, faces, services, made)
            &&& match made {
                Err(e) => after == w.telling(EditorJobPhase::Failed, Said::Bridge(e)).paused() && r
                    is None,
                Ok(request) => exists|
                    marked: Result<Map<u64, EditorEngineRequest>, (u64, ControlBridgeError)>,
                |
                    {
                        &&& #[trigger] marker_requests(s, services, marked)
                        &&& match marked {
                            Err((frame, e)) => after == w.telling(
                                EditorJobPhase::Failed,
                                Said::Marker(frame, e),
                            ).paused() && r is None,
                            Ok(markers) => {
                                &&& after == w.entering(EditorJobPhase::Building)
                                &&& r matches Some(asked)
                                &&& asked.path@ == path
                                &&& asked.start_frame == s.timeline.current
                                &&& asked.fps == (read->Ok_0).playback_fps
                                &&& asked.request == request
                                &&& asked.markers@ == markers
                            },
                        }
                    },
            }
        }
}

/// The outcome of asking for a playback.
pub open spec fn playback_begun<F, G, D, P, B>(
    w: Working,
    faces: FaceWorkspace,
    services: EngineServices<F, G, D, P, B>,
    after: Working,
    r: Option<PlaybackRequest>,
) -> bool where
    F: Fn(Vec<Single>) -> Single,
    G: Fn(Single, Single) -> Single,
    D: Fn(&Vec<Single>) -> Result<String, String>,
    P: Fn(&String) -> Result<String, String>,
    B: Fn(String, FaceSwapParams, ExecutionProvider, DetectorModel) -> Result<EngineSpec, String>,
 {
    let s = w.session;
    if !startable(w.phase) {
        after == busy(w).paused() && r is None
    } else if target_item(s.media) is None {
        after == w.telling(
            EditorJobPhase::Idle,
            Said::Text("Select target video first"@),
        ).paused() && r is None
    } else if (target_item(s.media)->0).kind != MediaKind::Video {
        after == w.telling(
            EditorJobPhase::Idle,
            Said::Text("Playback requires a video target"@),
        ).paused() && r is None
    } else {
        exists|read: Result<EditorRuntimeConfig, ControlBridgeError>| #[trigger]
            settings_read(s.controls, read) && playback_made(
                w,
                faces,
                (target_item(s.media)->0).path@,
                read,
                services,
                after,
                r,
            )
    }
}

/// The outcome of asking for a recording, before it is known where to.
pub open spec fn record_begun(w: Working, after: Working, r: Option<String>) -> bool {
    let s = w.session;
    if !startable(w.phase) {
        after == busy(w) && r is None
    } else if target_item(s.media) is None {
        after == w.telling(EditorJobPhase::Idle, Said::Text("Select target video first"@)) && r
            is None
    } else if (target_item(s.media)->0).kind != MediaKind::Video {
        after == w.telling(
            EditorJobPhase::Idle,
            Said::Text("Recording requires a video target"@),
        ) && r is None
    } else {
        &&& after == w.entering(EditorJobPhase::Building)
        &&& r matches Some(path) && path@ == (target_item(s.media)->0).path@
    }
}

/// The session where the next output goes to the directory of `output`.
pub open spec fn with_output(w: Working, output: Seq<char>) -> Working {
    Working {
        session: Session {
            place: Place { output: parent_of(output), ..w.session.place },
            ..w.session
        },
        ..w
    }
}

/// The outcome of asking for a recording, once it is known where to.
pub open spec fn record_made<F, G, D, P, B>(
    w: Working,
    faces: FaceWorkspace,
    path: Seq<char>,
    output: Seq<char>,
    services: EngineServices<F, G, D, P, B>,
    after: Working,
    r: Option<RecordRequest>,
) -> bool where
    F: Fn(Vec<Single>) -> Single,
    G: Fn(Single, Single) -> Single,
    D: Fn(&Vec<Single>) -> Result<String, String>,
    P: Fn(&String) -> Result<String, String>,
    B: Fn(String, FaceSwapParams, ExecutionProvider, DetectorModel) -> Result<EngineSpec, String>,
 {
    let s = w.session;
    let placed = with_output(w, output);
    exists|made: Result<EditorEngineRequest, ControlBridgeError>|
        {
            &&& #[trigger] request_made(s.controls, faces, services, made)
            &&& match made {
                Err(e) => after == placed.telling(EditorJobPhase::Failed, Said::Bridge(e)) && r
                    is None,
                Ok(request) => exists|
                    marked: Result<Map<u64, EditorEngineRequest>, (u64, ControlBridgeError)>,
                |
                    {
                        &&& #[trigger] marker_requests(s, services, marked)
                        &&& match marked {
                            Err((frame, e)) => after == placed.telling(
                                EditorJobPhase::Failed,
                                Said::Marker(frame, e),
                            ) && r is None,
                            Ok(markers) => {
                                &&& after == placed
                                &&& r matches Some(asked)
                                &&& asked.path@ == path
                                &&& asked.output@ == output
                                &&& asked.request == request
                                &&& asked.markers@ == markers
                            },
                        }
                    },
            }
        }
}

/// The kinds of jobs that are told of once they were sent.
#[derive(Debug, Clone, Copy, PartialEq, Eq)]
pub enum JobKind {
    Analysis,
    Preview,
    Playback,
    Recording,
}

/// The session once a job was sent to the worker, or could not be.
pub open spec fn job_sent(w: Working, kind: JobKind, error: Option<EditorRuntimeError>) -> Working {
    match error {
        Some(e) => {
            let failed = w.telling(EditorJobPhase::Failed, Said::Job(e));
            if kind == JobKind::Playback {
                failed.paused()
            } else {
                failed
            }
        },
        None => match kind {
            JobKind::Analysis => w.telling(
                w.phase,
                Said::Text("Analyzing target and source identities"@),
            ),
            JobKind::Preview => w.telling(
                w.phase,
                Said::Text("Building atomic preview generation"@),
            ),
            JobKind::Playback => w,
            JobKind::Recording => w.telling(
                w.phase,
                Said::Text("Building recording generation"@),
            ),
        },
    }
}

/// What was asked for on the timeline.
#[derive(Debug, Clone, Copy, PartialEq, Eq)]
pub struct TimelineIntents {
    pub pause: bool,
    pub play: bool,
    pub record: bool,
}

/// Reads the settings from controls, and makes a request with them.
fn make_request<F, G, D, P, B>(
    controls: &ControlState,
    faces: &FaceWorkspace,
    services: &EngineServices<F, G, D, P, B>,
) -> (r: Result<EditorEngineRequest, ControlBridgeError>) where
    F: Fn(Vec<Single>) -> Single,
    G: Fn(Single, Single) -> Single,
    D: Fn(&Vec<Single>) -> Result<String, String>,
    P: Fn(&String) -> Result<String, String>,
    B: Fn(String, FaceSwapParams, ExecutionProvider, DetectorModel) -> Result<EngineSpec, String>,

    requires
        served(*services),
    ensures
        request_made(controls@, *faces, *services, r),
{
    let read = EditorRuntimeConfig::from_controls(controls);
    proof {
        assert(settings_read(controls@, read));
    }
    match read {
        Err(e) => Err(e),
        Ok(config) => config.compile_engine_request(
            faces,
            merge_method(controls),
            &services.mean,
            &services.midpoint,
            &services.digest,
            &services.file,
            &services.build,
        ),
    }
}

impl ExtraGuiState {
    /// The target medium.
    pub fn target_medium(&self) -> (r: Option<&MediaItem>)
        ensures
            match r {
                Some(item) => target_item(self@.media) == Some(*item),
                None => target_item(self@.media) is None,
            },
    {
        match self.media.selected(MediaRole::Target) {
            Some(id) => self.media.item(id),
            None => None,
        }
    }

    /// The media of the sources.
    pub(crate) fn source_paths(&self) -> (r: Vec<(String, String)>)
        ensures
            text_pairs(r@) == source_media(
                self@.faces,
                self@.media,
                listed(self@.faces.sources.dom()),
            ),
    {
        let sources = self.faces.sources();
        let ghost faces = self.faces@;
        let ghost media = self.media@;
        let ghost entries = self.faces.source_entries();
        let ghost keys = keys_of(entries);
        proof {
            self.faces.entries_are_the_view();
            keys_are_listed(entries);
            assert(faces.sources.dom() =~= map_of(entries).dom());
        }
        let mut r: Vec<(String, String)> = Vec::new();
        proof {
            assert(text_pairs(r@) =~= source_media(faces, media, keys.take(0)));
        }
        let mut i: usize = 0;
        while i < sources.len()
            invariant
                i <= sources.len(),
                ascending(entries),
                keys == keys_of(entries),
                media == self.media@,
                sources@.len() == entries.len(),
                faces.sources == map_of(entries).map_values(|s: SourceIdentity| s@),
                forall|j: int| 0 <= j < sources@.len() ==> *(#[trigger] sources@[j]) == entries[j].1,
                text_pairs(r@) == source_media(faces, media, keys.take(i as int)),
            decreases sources.len() - i,
        {
            let source = sources[i];
            let ghost before = r@;
            proof {
                entry_is_unique(entries, i as int);
                assert(keys.take(i + 1).drop_last() =~= keys.take(i as int));
                assert(keys[i as int] == entries[i as int].0);
                assert(faces.sources[keys[i as int]] == source@);
            }
            if let Some(id) = source.media_id {
                if let Some(item) = self.media.item(id) {
                    r.push((source.id.clone(), item.path.clone()));
                    proof {
                        assert(text_pairs(r@) =~= text_pairs(before).push(
                            (source.id@, item.path@),
                        ));
                    }
                }
            }
            i = i + 1;
        }
        proof {
            assert(keys.take(keys.len() as int) =~= keys);
        }
        r
    }

    /// Makes the request of the marker at a frame.
    fn compile_marker<F, G, D, P, B>(
        &self,
        frame: u64,
        services: &EngineServices<F, G, D, P, B>,
    ) -> (r: Result<EditorEngineRequest, ControlBridgeError>) where
        F: Fn(Vec<Single>) -> Single,
        G: Fn(Single, Single) -> Single,
        D: Fn(&Vec<Single>) -> Result<String, String>,
        P: Fn(&String) -> Result<String, String>,
        B: Fn(String, FaceSwapParams, ExecutionProvider, DetectorModel) -> Result<
            EngineSpec,
            String,
        >,

        requires
            served(*services),
            self@.timeline.markers.dom().contains(frame),
        ensures
            marker_request(self@.faces, self@.timeline.markers[frame], *services, r),
    {
        match self.timeline.marker_at(frame) {
            None => Err(ControlBridgeError::NoFaceAssignments),
            Some(marker) => {
                let mut faces = self.faces.duplicate();
                crate::session::player::give_values(&mut faces, &marker.face_controls);
                let made = make_request(&marker.controls, &faces, services);
                proof {
                    assert(request_made(marker@.controls, faces, *services, made));
                }
                made
            },
        }
    }

    /// Makes the requests of all markers.
    pub fn compile_marker_requests<F, G, D, P, B>(
        &self,
        services: &EngineServices<F, G, D, P, B>,
    ) -> (r: Result<BTreeMap<u64, EditorEngineRequest>, (u64, ControlBridgeError)>) where
        F: Fn(Vec<Single>) -> Single,
        G: Fn(Single, Single) -> Single,
        D: Fn(&Vec<Single>) -> Result<String, String>,
        P: Fn(&String) -> Result<String, String>,
        B: Fn(String, FaceSwapParams, ExecutionProvider, DetectorModel) -> Result<
            EngineSpec,
            String,
        >,

        requires
            served(*services),
        ensures
            marker_requests(self@, *services, mapped(r)),
    {
        let frames: Vec<u64> = self.timeline.markers();
        let ghost s = self@;
        let ghost markers = s.timeline.markers;
        let mut requests: BTreeMap<u64, EditorEngineRequest> = BTreeMap::new();
        let mut i: usize = 0;
        while i < frames.len()
            invariant
                i <= frames.len(),
                s == self@,
                markers == s.timeline.markers,
                served(*services),
                forall|a: int, b: int| 0 <= a < b < frames@.len() ==> frames@[a] < frames@[b],
                forall|k: u64| frames@.contains(k) <==> #[trigger] markers.dom().contains(k),
                forall|k: u64| #[trigger]
                    requests@.dom().contains(k) <==> exists|j: int|
                        0 <= j < i && #[trigger] frames@[j] == k,
                forall|k: u64| #[trigger]
                    requests@.dom().contains(k) ==> marker_request(
                        s.faces,
                        markers[k],
                        *services,
                        Ok(requests@[k]),
                    ),
            decreases frames.len() - i,
        {
            let frame: u64 = frames[i];
            proof {
                assert(frames@.contains(frame));
            }
            match self.compile_marker(frame, services) {
                Err(e) => {
                    proof {
                        assert forall|earlier: u64| #[trigger] markers.dom().contains(earlier)
                            && earlier < frame implies makes_request(
                            s.faces,
                            markers[earlier],
                            *services,
                        ) by {
                            assert(frames@.contains(earlier));
                            let j = choose|j: int| 0 <= j < frames@.len() && frames@[j] == earlier;
                            if j > i {
                                assert(frames@[i as int] < frames@[j]);
                            }
                            assert(frames@[j] == earlier);
                            assert(requests@.dom().contains(earlier));
                        }
                    }
                    return Err((frame, e));
                },
                Ok(request) => {
                    let ghost before = requests@;
                    let _ = requests.insert(frame, request);
                    proof {
                        assert forall|k: u64| #[trigger] requests@.dom().contains(k) <==> exists|
                            j: int,
                        | 0 <= j < i + 1 && #[trigger] frames@[j] == k by {
                            if before.dom().contains(k) {
                                let j = choose|j: int| 0 <= j < i && #[trigger] frames@[j] == k;
                                assert(frames@[j] == k);
                            }
                            assert(frames@[i as int] == frame);
                        }
                    }
                },
            }
            i = i + 1;
        }
        proof {
            assert forall|k: u64| #[trigger] markers.dom().contains(k) implies requests@.dom().contains(
                k,
            ) by {
                assert(frames@.contains(k));
                let j = choose|j: int| 0 <= j < frames@.len() && frames@[j] == k;
                assert(frames@[j] == k);
            }
            assert forall|k: u64| #[trigger] requests@.dom().contains(k) implies markers.dom().contains(
                k,
            ) by {
                let j = choose|j: int| 0 <= j < frames@.len() && #[trigger] frames@[j] == k;
                assert(frames@.contains(k));
            }
            assert(requests@.dom() =~= markers.dom());
        }
        Ok(requests)
    }
}

impl ExtraGuiApp {
    /// A session without a job.
    pub fn new(state: ExtraGuiState) -> (r: Self)
        ensures
            r@ == (Working { session: state@, phase: EditorJobPhase::Idle }),
    {
        ExtraGuiApp { state, job: EditorJobState::default() }
    }

    /// The active panel.
    pub fn active_panel(&self) -> (r: ExtraGuiPanel)
        ensures
            r == self@.session.view.active_panel,
    {
        self.state.view.active_panel
    }

    /// Shows a panel.
    pub fn select_panel(&mut self, panel: ExtraGuiPanel)
        ensures
            final(self)@ == (Working {
                session: Session {
                    view: EditorView { active_panel: panel, ..old(self)@.session.view },
                    ..old(self)@.session
                },
                ..old(self)@
            }),
    {
        self.state.view.active_panel = panel;
    }

    /// Whether a job can be begun.
    pub fn is_idle(&self) -> (r: bool)
        ensures
            r == startable(self@.phase),
    {
        match self.job.phase() {
            EditorJobPhase::Idle | EditorJobPhase::Failed => true,
            _ => false,
        }
    }

    /// Asks for an analysis of the target and the sources.
    pub fn begin_analysis(&mut self) -> (r: Option<AnalyzeRequest>)
        ensures
            analysis_begun(old(self)@, final(self)@, r),
    {
        let ghost start = self@;
        if let Err(e) = self.job.begin(EditorJobPhase::Analyzing) {
            self.state.status = Notice::Job(e);
            return None;
        }
        let (media, path, kind) = match self.state.target_medium() {
            Some(item) => (item.id, item.path.clone(), item.kind),
            None => {
                self.job.settle();
                self.state.say("Select target media first");
                return None;
            },
        };
        let read = EditorRuntimeConfig::from_controls(&self.state.controls);
        proof {
            assert(settings_read(start.session.controls, read));
        }
        match read {
            Err(e) => {
                self.job.fail();
                self.state.status = Notice::Bridge(e);
                None
            },
            Ok(runtime) => {
                let source_paths = self.state.source_paths();
                Some(
                    AnalyzeRequest {
                        target_media: media,
                        target_path: path,
                        target_kind: kind,
                        frame_index: self.state.timeline.current_frame(),
                        source_paths,
                        runtime,
                    },
                )
            },
        }
    }

    /// Asks for a preview of the current frame.
    pub fn begin_preview<F, G, D, P, B>(&mut self, services: &EngineServices<F, G, D, P, B>) -> (r:
        Option<PreviewRequest>) where
        F: Fn(Vec<Single>) -> Single,
        G: Fn(Single, Single) -> Single,
        D: Fn(&Vec<Single>) -> Result<String, String>,
        P: Fn(&String) -> Result<String, String>,
        B: Fn(String, FaceSwapParams, ExecutionProvider, DetectorModel) -> Result<
            EngineSpec,
            String,
        >,

        requires
            served(*services),
        ensures
            preview_begun(old(self)@, old(self).state.faces, *services, final(self)@, r),
    {
        let ghost start = self@;
        if let Err(e) = self.job.begin(EditorJobPhase::Building) {
            self.state.status = Notice::Job(e);
            return None;
        }
        let (path, kind) = match self.state.target_medium() {
            Some(item) => (item.path.clone(), item.kind),
            None => {
                self.job.settle();
                self.state.say("Select target media first");
                return None;
            },
        };
        let made = make_request(&self.state.controls, &self.state.faces, services);
        proof {
            assert(request_made(
                start.session.controls,
                old(self).state.faces,
                *services,
                made,
            ));
        }
        match made {
            Err(e) => {
                self.job.fail();
                self.state.status = Notice::Bridge(e);
                None
            },
            Ok(request) => Some(
                PreviewRequest {
                    path,
                    kind,
                    frame_index: self.state.timeline.current_frame(),
                    request,
                },
            ),
        }
    }

    /// Asks for a playback from the current frame on.
    pub fn begin_playback<F, G, D, P, B>(&mut self, services: &EngineServices<F, G, D, P, B>) -> (r:
        Option<PlaybackRequest>) where
        F: Fn(Vec<Single>) -> Single,
        G: Fn(Single, Single) -> Single,
        D: Fn(&Vec<Single>) -> Result<String, String>,
        P: Fn(&String) -> Result<String, String>,
        B: Fn(String, FaceSwapParams, ExecutionProvider, DetectorModel) -> Result<
            EngineSpec,
            String,
        >,

        requires
            served(*services),
        ensures
            playback_begun(old(self)@, old(self).state.faces, *services, final(self)@, r),
    {
        let ghost start = self@;
        if let Err(e) = self.job.begin(EditorJobPhase::Building) {
            self.state.timeline.set_playing(false);
            self.state.status = Notice::Job(e);
            return None;
        }
        let (path, kind) = match self.state.target_medium() {
            Some(item) => (item.path.clone(), item.kind),
            None => {
                self.job.settle();
                self.state.timeline.set_playing(false);
                self.state.say("Select target video first");
                return None;
            },
        };
        if kind != MediaKind::Video {
            self.job.settle();
            self.state.timeline.set_playing(false);
            self.state.say("Playback requires a video target");
            return None;
        }
        let read = EditorRuntimeConfig::from_controls(&self.state.controls);
        proof {
            assert(settings_read(start.session.controls, read));
        }
        let r = self.plan_playback(path, read, services);
        r
    }

    /// Makes the requests of a playback.
    fn plan_playback<F, G, D, P, B>(
        &mut self,
        path: String,
        read: Result<EditorRuntimeConfig, ControlBridgeError>,
        services: &EngineServices<F, G, D, P, B>,
    ) -> (r: Option<PlaybackRequest>) where
        F: Fn(Vec<Single>) -> Single,
        G: Fn(Single, Single) -> Single,
        D: Fn(&Vec<Single>) -> Result<String, String>,
        P: Fn(&String) -> Result<String, String>,
        B: Fn(String, FaceSwapParams, ExecutionProvider, DetectorModel) -> Result<
            EngineSpec,
            String,
        >,

        requires
            served(*services),
            old(self)@.phase == EditorJobPhase::Building,
        ensures
            playback_made(
                old(self)@,
                old(self).state.faces,
                path@,
                read,
                *services,
                final(self)@,
                r,
            ),
    {
        let ghost start = self@;
        let runtime = match read {
            Ok(runtime) => runtime,
            Err(e) => {
                self.job.fail();
                self.state.timeline.set_playing(false);
                self.state.status = Notice::Bridge(e);
                proof {
                    assert(request_of(
                        read,
                        start.session.controls,
                        old(self).state.faces,
                        *services,
                        Err(e),
                    ));
                }
                return None;
            },
        };
        let made = runtime.compile_engine_request(
            &self.state.faces,
            merge_method(&self.state.controls),
            &services.mean,
            &services.midpoint,
            &services.digest,
            &services.file,
            &services.build,
        );
        proof {
            assert(request_of(
                read,
                start.session.controls,
                old(self).state.faces,
                *services,
                made,
            ));
        }
        let request = match made {
            Ok(request) => request,
            Err(e) => {
                self.job.fail();
                self.state.timeline.set_playing(false);
                self.state.status = Notice::Bridge(e);
                return None;
            },
        };
        let marked = self.state.compile_marker_requests(services);
        proof {
            assert(marker_requests(start.session, *services, mapped(marked)));
        }
        match marked {
            Ok(markers) => Some(
                PlaybackRequest {
                    path,
                    start_frame: self.state.timeline.current_frame(),
                    fps: runtime.playback_fps,
                    request,
                    markers,
                },
            ),
            Err((frame, e)) => {
                self.job.fail();
                self.state.timeline.set_playing(false);
                self.state.status = Notice::Marker(frame, e);
                None
            },
        }
    }

    /// Asks for a recording. Gives back the video to record, where there is one.
    pub fn begin_record(&mut self) -> (r: Option<String>)
        ensures
            record_begun(old(self)@, final(self)@, r),
    {
        if let Err(e) = self.job.begin(EditorJobPhase::Building) {
            self.state.status = Notice::Job(e);
            return None;
        }
        let (path, kind) = match self.state.target_medium() {
            Some(item) => (item.path.clone(), item.kind),
            None => {
                self.job.settle();
                self.state.say("Select target video first");
                return None;
            },
        };
        if kind != MediaKind::Video {
            self.job.settle();
            self.state.say("Recording requires a video target");
            return None;
        }
        Some(path)
    }

    /// No output was chosen for the recording.
    pub fn abandon_record(&mut self)
        ensures
            final(self)@ == old(self)@.entering(EditorJobPhase::Idle),
    {
        self.job.settle();
    }

    /// Makes the requests of a recording to `output`.
    pub fn record_to<F, G, D, P, B>(
        &mut self,
        path: String,
        output: String,
        services: &EngineServices<F, G, D, P, B>,
    ) -> (r: Option<RecordRequest>) where
        F: Fn(Vec<Single>) -> Single,
        G: Fn(Single, Single) -> Single,
        D: Fn(&Vec<Single>) -> Result<String, String>,
        P: Fn(&String) -> Result<String, String>,
        B: Fn(String, FaceSwapParams, ExecutionProvider, DetectorModel) -> Result<
            EngineSpec,
            String,
        >,

        requires
            served(*services),
        ensures
            record_made(
                old(self)@,
                old(self).state.faces,
                path@,
                output@,
                *services,
                final(self)@,
                r,
            ),
    {
        let ghost start = self@;
        self.state.place.output_directory = parent(output.as_str());
        let made = make_request(&self.state.controls, &self.state.faces, services);
        proof {
            assert(self@ =~= with_output(start, output@));
            assert(request_made(
                start.session.controls,
                old(self).state.faces,
                *services,
                made,
            ));
        }
        let request = match made {
            Ok(request) => request,
            Err(e) => {
                self.job.fail();
                self.state.status = Notice::Bridge(e);
                return None;
            },
        };
        let marked = self.state.compile_marker_requests(services);
        proof {
            assert(marker_requests(start.session, *services, mapped(marked)));
        }
        match marked {
            Ok(markers) => Some(RecordRequest { path, output, request, markers }),
            Err((frame, e)) => {
                self.job.fail();
                self.state.status = Notice::Marker(frame, e);
                None
            },
        }
    }

    /// A job was sent to the worker, or could not be.
    pub fn sent(&mut self, kind: JobKind, error: Option<EditorRuntimeError>)
        ensures
            final(self)@ == job_sent(old(self)@, kind, error),
    {
        match error {
            Some(e) => {
                self.job.fail();
                if let JobKind::Playback = kind {
                    self.state.timeline.set_playing(false);
                }
                self.state.status = Notice::Job(e);
            },
            None => match kind {
                JobKind::Analysis => self.state.say("Analyzing target and source identities"),
                JobKind::Preview => self.state.say("Building atomic preview generation"),
                JobKind::Playback => {},
                JobKind::Recording => self.state.say("Building recording generation"),
            },
        }
    }

    /// Asks the job that runs to stop. Gives back whether the worker has to be told.
    pub fn cancel_job(&mut self) -> (r: bool)
        ensures
            r == cancellable(old(self)@.phase),
            final(self)@ == if r {
                old(self)@.telling(
                    EditorJobPhase::Cancelling,
                    Said::Text("Cancelling at the next frame boundary"@),
                )
            } else {
                old(self)@
            },
    {
        match self.job.cancel() {
            Ok(()) => {
                self.state.say("Cancelling at the next frame boundary");
                true
            },
            Err(_) => false,
        }
    }

    /// The memory of the worker was asked to be released, or could not be.
    pub fn release_sent(&mut self, error: Option<EditorRuntimeError>)
        ensures
            final(self)@ == match error {
                None => old(self)@.telling(
                    old(self)@.phase,
                    Said::Text("Releasing editor GPU memory"@),
                ),
                Some(e) => old(self)@.telling(old(self)@.phase, Said::Job(e)),
            },
    {
        match error {
            None => self.state.say("Releasing editor GPU memory"),
            Some(e) => self.state.status = Notice::Job(e),
        }
    }

    /// Takes what was asked for on the timeline.
    pub fn take_timeline_intents(&mut self) -> (r: TimelineIntents)
        ensures
            ({
                let intents = old(self)@.session.intents;
                &&& r == (TimelineIntents {
                    pause: intents.pause,
                    play: intents.play,
                    record: intents.record,
                })
                &&& final(self)@ == (Working {
                    session: Session {
                        intents: Intents { play: false, pause: false, record: false, ..intents },
                        ..old(self)@.session
                    },
                    ..old(self)@
                })
            }),
    {
        let r = TimelineIntents {
            pause: self.state.intents.pause,
            play: self.state.intents.play,
            record: self.state.intents.record,
        };
        self.state.intents.pause = false;
        self.state.intents.play = false;
        self.state.intents.record = false;
        r
    }

    /// Takes the wish for an analysis, once no job runs.
    pub fn take_analysis_intent(&mut self) -> (r: bool)
        ensures
            r == (old(self)@.session.intents.analysis && startable(old(self)@.phase)),
            final(self)@ == if r {
                Working {
                    session: Session {
                        intents: Intents { analysis: false, ..old(self)@.session.intents },
                        ..old(self)@.session
                    },
                    ..old(self)@
                }
            } else {
                old(self)@
            },
    {
        if !self.state.intents.analysis || !self.is_idle() {
            return false;
        }
        self.state.intents.analysis = false;
        true
    }
}

/// The role that dropped media get.
pub fn dropped_role(shift: bool) -> (r: MediaRole)
    ensures
        r == if shift {
            MediaRole::Source
        } else {
            MediaRole::Target
        },
{
    if shift {
        MediaRole::Source
    } else {
        MediaRole::Target
    }
}

/// A job that was begun keeps others from being begun, until it ends.
pub proof fn one_job_at_a_time(w: Working, after: Working, r: Option<AnalyzeRequest>)
    requires
        analysis_begun(w, after, r),
        r is Some,
    ensures
        startable(w.phase),
        !startable(after.phase),
        cancellable(after.phase),
{
}

} // verus!
