//! The state of an editor session.

use std::sync::Arc;

use vstd::prelude::*;

use crate::bridge::read::ControlBridgeError;
use crate::controls::{defaults, defaults_given};
use crate::controls::{ChoiceSource, ControlKind, ControlScope, ControlSpec, ControlState};
use crate::controls::{ControlStateError, ControlValue};
use crate::faces::{no_faces, optional_text, texts, Faces};
use crate::faces::{FaceWorkspace, FaceWorkspaceError};
use crate::media::Library;
use crate::media::{MediaError, MediaId, MediaLibrary};
use crate::number::{Single, THIRTY};
use crate::ordered::{TextMap, TextSet};
use crate::runtime::{EditorJobPhase, EditorRuntimeError};
use crate::timeline::EditorTimeline;
use crate::timeline::Timeline;
use crate::viewport::whole_picture;
use crate::viewport::PreviewViewport;
use crate::workspace::document::no_media;
use crate::workspace::document::WorkspaceError;

verus! {

/// A panel of the editor.
#[derive(Debug, Clone, Copy, PartialEq, Eq, Structural)]
pub enum ExtraGuiPanel {
    Media,
    Faces,
    Preview,
    Timeline,
    Parameters,
    Settings,
}

impl Default for ExtraGuiPanel {
    fn default() -> (r: Self)
        ensures
            r == ExtraGuiPanel::Media,
    {
        ExtraGuiPanel::Media
    }
}

impl ExtraGuiPanel {
    /// All panels, in the order in which they are listed.
    pub const ALL: [ExtraGuiPanel; 6] = [
        ExtraGuiPanel::Media,
        ExtraGuiPanel::Faces,
        ExtraGuiPanel::Preview,
        ExtraGuiPanel::Timeline,
        ExtraGuiPanel::Parameters,
        ExtraGuiPanel::Settings,
    ];

    /// The name of the panel.
    pub open spec fn name(self) -> Seq<char> {
        match self {
            ExtraGuiPanel::Media => "Media"@,
            ExtraGuiPanel::Faces => "Faces"@,
            ExtraGuiPanel::Preview => "Preview"@,
            ExtraGuiPanel::Timeline => "Timeline"@,
            ExtraGuiPanel::Parameters => "Parameters"@,
            ExtraGuiPanel::Settings => "Settings"@,
        }
    }

    /// The name of the panel.
    pub fn label(self) -> (r: &'static str)
        ensures
            r@ == self.name(),
    {
        match self {
            ExtraGuiPanel::Media => "Media",
            ExtraGuiPanel::Faces => "Faces",
            ExtraGuiPanel::Preview => "Preview",
            ExtraGuiPanel::Timeline => "Timeline",
            ExtraGuiPanel::Parameters => "Parameters",
            ExtraGuiPanel::Settings => "Settings",
        }
    }
}

/// Where the inspector stands.
#[derive(Debug, Clone, Copy, PartialEq, Eq, Structural)]
pub enum InspectorDock {
    Left,
    Right,
    Floating,
}

impl Default for InspectorDock {
    fn default() -> (r: Self)
        ensures
            r == InspectorDock::Right,
    {
        InspectorDock::Right
    }
}

impl InspectorDock {
    /// What the button says that moves the inspector here.
    pub open spec fn name(self) -> Seq<char> {
        match self {
            InspectorDock::Left => "Dock left"@,
            InspectorDock::Right => "Dock right"@,
            InspectorDock::Floating => "Detach inspector"@,
        }
    }

    /// What the button says that moves the inspector here.
    pub fn label(self) -> (r: &'static str)
        ensures
            r@ == self.name(),
    {
        match self {
            InspectorDock::Left => "Dock left",
            InspectorDock::Right => "Dock right",
            InspectorDock::Floating => "Detach inspector",
        }
    }
}

/// What the status line tells.
#[derive(Debug, PartialEq, Eq)]
pub enum Notice {
    Text(String),
    Faces(FaceWorkspaceError),
    Controls(ControlStateError),
    Bridge(ControlBridgeError),
    Media(MediaError),
    Job(EditorRuntimeError),
    Workspace(WorkspaceError),
    /// The control values of the marker at a frame make no request.
    Marker(u64, ControlBridgeError),
}

/// What the status line tells, its text as a sequence of characters.
pub ghost enum Said {
    Text(Seq<char>),
    Faces(FaceWorkspaceError),
    Controls(ControlStateError),
    Bridge(ControlBridgeError),
    Media(MediaError),
    Job(EditorRuntimeError),
    Workspace(WorkspaceError),
    Marker(u64, ControlBridgeError),
}

impl View for Notice {
    type V = Said;

    open spec fn view(&self) -> Said {
        match self {
            Notice::Text(text) => Said::Text(text@),
            Notice::Faces(e) => Said::Faces(*e),
            Notice::Controls(e) => Said::Controls(*e),
            Notice::Bridge(e) => Said::Bridge(*e),
            Notice::Media(e) => Said::Media(*e),
            Notice::Job(e) => Said::Job(*e),
            Notice::Workspace(e) => Said::Workspace(*e),
            Notice::Marker(frame, e) => Said::Marker(*frame, *e),
        }
    }
}

/// A notice of a text.
pub fn text_notice(text: &str) -> (r: Notice)
    ensures
        r@ == Said::Text(text@),
{
    Notice::Text(text.to_owned())
}

/// What the windows show and how they are arranged.
#[derive(Debug)]
pub struct EditorView {
    pub active_panel: ExtraGuiPanel,
    pub inspector_scope: ControlScope,
    pub inspector_dock: InspectorDock,
    pub inspector_open: bool,
    pub fullscreen: bool,
    pub show_target_images: bool,
    pub show_target_videos: bool,
    pub preview_loaded: Option<MediaId>,
}

/// What was typed to find entries.
#[derive(Debug, PartialEq, Eq)]
pub struct EditorFilters {
    pub parameters: String,
    pub targets: String,
    pub sources: String,
    pub embeddings: String,
}

/// Where the session is kept, and whether it has changed since.
#[derive(Debug, PartialEq, Eq)]
pub struct EditorPlace {
    pub name: String,
    pub path: Option<String>,
    pub dirty: bool,
    pub output_directory: Option<String>,
    pub embeddings_path: Option<String>,
    pub last_output: Option<String>,
}

/// Where a session is kept.
#[verifier::ext_equal]
pub ghost struct Place {
    pub name: Seq<char>,
    pub path: Option<Seq<char>>,
    pub dirty: bool,
    pub output: Option<Seq<char>>,
    pub embeddings: Option<Seq<char>>,
    pub last_output: Option<Seq<char>>,
}

impl View for EditorPlace {
    type V = Place;

    open spec fn view(&self) -> Place {
        Place {
            name: self.name@,
            path: optional_text(self.path),
            dirty: self.dirty,
            output: optional_text(self.output_directory),
            embeddings: optional_text(self.embeddings_path),
            last_output: optional_text(self.last_output),
        }
    }
}

/// What the worker reports of its job.
#[derive(Debug, Clone, Copy, PartialEq, Eq)]
pub struct JobProgress {
    pub phase: EditorJobPhase,
    pub frames: Option<(u64, Option<u64>)>,
}

/// What was asked for and is not done yet.
#[derive(Debug, Clone, Copy, PartialEq, Eq)]
pub struct Intents {
    pub play: bool,
    pub pause: bool,
    pub record: bool,
    pub analysis: bool,
}

/// The sources from which an embedding is going to be merged, and its name.
#[derive(Debug)]
pub struct MergeDraft {
    pub selection: TextSet,
    pub name: String,
}

/// A merge that is being prepared.
#[verifier::ext_equal]
pub ghost struct Draft {
    pub selection: Set<Seq<char>>,
    pub name: Seq<char>,
}

impl View for MergeDraft {
    type V = Draft;

    open spec fn view(&self) -> Draft {
        Draft { selection: self.selection@.dom(), name: self.name@ }
    }
}

/// The identities that new target faces get where they are swapped by themselves.
#[derive(Debug)]
pub struct PendingRoutes {
    pub sources: TextSet,
    pub merged: TextSet,
}

/// The identities that new target faces get.
#[verifier::ext_equal]
pub ghost struct Pending {
    pub sources: Set<Seq<char>>,
    pub merged: Set<Seq<char>>,
}

impl View for PendingRoutes {
    type V = Pending;

    open spec fn view(&self) -> Pending {
        Pending { sources: self.sources@.dom(), merged: self.merged@.dom() }
    }
}

/// No identities are pending.
pub open spec fn nothing_pending() -> Pending {
    Pending { sources: Set::empty(), merged: Set::empty() }
}

impl PendingRoutes {
    /// No identities.
    pub fn none() -> (r: Self)
        ensures
            r@ == nothing_pending(),
    {
        let r = PendingRoutes { sources: TextMap::new(), merged: TextMap::new() };
        proof {
            assert(r@ =~= nothing_pending());
        }
        r
    }
}

/// The state of an editor session.
#[derive(Debug)]
pub struct ExtraGuiState {
    pub view: EditorView,
    pub filters: EditorFilters,
    pub place: EditorPlace,
    pub status: Notice,
    pub progress: JobProgress,
    pub catalog: Arc<Vec<ControlSpec>>,
    pub dynamic_choices: TextMap<Vec<String>>,
    pub controls: ControlState,
    pub media: MediaLibrary,
    pub faces: FaceWorkspace,
    pub timeline: EditorTimeline,
    pub preview: PreviewViewport,
    pub merge: MergeDraft,
    pub intents: Intents,
    pub pending: PendingRoutes,
}

/// The content of an editor session.
#[verifier::ext_equal]
pub ghost struct Session {
    pub view: EditorView,
    pub filters: EditorFilters,
    pub place: Place,
    pub status: Said,
    pub progress: JobProgress,
    pub catalog: Seq<ControlSpec>,
    pub choices: Map<Seq<char>, Seq<Seq<char>>>,
    pub controls: Map<Seq<char>, ControlValue>,
    pub media: Library,
    pub faces: Faces,
    pub timeline: Timeline,
    pub preview: PreviewViewport,
    pub merge: Draft,
    pub intents: Intents,
    pub pending: Pending,
}

impl View for ExtraGuiState {
    type V = Session;

    open spec fn view(&self) -> Session {
        Session {
            view: self.view,
            filters: self.filters,
            place: self.place@,
            status: self.status@,
            progress: self.progress,
            catalog: self.catalog@,
            choices: self.dynamic_choices@.map_values(|list: Vec<String>| texts(list@)),
            controls: self.controls@,
            media: self.media@,
            faces: self.faces@,
            timeline: self.timeline@,
            preview: self.preview,
            merge: self.merge@,
            intents: self.intents,
            pending: self.pending@,
        }
    }
}

impl Session {
    /// The session with unsaved changes.
    pub open spec fn changed(self) -> Session {
        Session { place: Place { dirty: true, ..self.place }, ..self }
    }

    /// The session with a text in its status line.
    pub open spec fn saying(self, text: Seq<char>) -> Session {
        Session { status: Said::Text(text), ..self }
    }

    /// The session with other faces.
    pub open spec fn with_faces(self, faces: Faces) -> Session {
        Session { faces, ..self }
    }
}

/// A timeline that shows nothing yet.
pub open spec fn blank_timeline() -> Timeline {
    Timeline {
        total: 1,
        current: 0,
        fps: Single { bits: THIRTY },
        playing: false,
        markers: Map::empty(),
    }
}

/// What a control offers that is not in the catalog.
pub open spec fn source_choices(source: ChoiceSource, models: Seq<Seq<char>>) -> Seq<Seq<char>> {
    match source {
        ChoiceSource::DfmModels => models,
        ChoiceSource::Cameras => seq!["Choose camera"@],
    }
}

/// What the first `n` controls of a catalog offer that is not in it.
pub open spec fn found_choices(catalog: Seq<ControlSpec>, models: Seq<Seq<char>>, n: nat) -> Map<
    Seq<char>,
    Seq<Seq<char>>,
>
    decreases n,
{
    if n == 0 {
        Map::empty()
    } else {
        let before = found_choices(catalog, models, (n - 1) as nat);
        match catalog[n - 1].kind {
            ControlKind::Choice { options, default, source: Some(source) } => before.insert(
                catalog[n - 1].id@,
                source_choices(source, models),
            ),
            _ => before,
        }
    }
}

/// A session as it begins.
pub open spec fn new_session(
    s: Session,
    catalog: Seq<ControlSpec>,
    models: Seq<Seq<char>>,
) -> bool {
    &&& s.view == (EditorView {
        active_panel: ExtraGuiPanel::Media,
        inspector_scope: ControlScope::Swapper,
        inspector_dock: InspectorDock::Right,
        inspector_open: true,
        fullscreen: false,
        show_target_images: true,
        show_target_videos: true,
        preview_loaded: None,
    })
    &&& s.filters.parameters@ == Seq::<char>::empty()
    &&& s.filters.targets@ == Seq::<char>::empty()
    &&& s.filters.sources@ == Seq::<char>::empty()
    &&& s.filters.embeddings@ == Seq::<char>::empty()
    &&& s.place == (Place {
        name: "Untitled workspace"@,
        path: None,
        dirty: false,
        output: None,
        embeddings: None,
        last_output: None,
    })
    &&& s.status == Said::Text("Editor ready"@)
    &&& s.progress == (JobProgress { phase: EditorJobPhase::Idle, frames: None })
    &&& s.catalog == catalog
    &&& s.choices == found_choices(catalog, models, catalog.len())
    &&& s.controls == defaults(catalog, catalog.len())
    &&& s.media == no_media()
    &&& s.faces == no_faces()
    &&& s.timeline == blank_timeline()
    &&& s.preview == whole_picture()
    &&& s.merge == (Draft { selection: Set::empty(), name: Seq::empty() })
    &&& s.intents == (Intents { play: false, pause: false, record: false, analysis: false })
    &&& s.pending == nothing_pending()
}

/// A list of the same texts.
pub fn copy_list(list: &Vec<String>) -> (r: Vec<String>)
    ensures
        texts(r@) == texts(list@),
{
    let mut r: Vec<String> = Vec::new();
    let mut i: usize = 0;
    while i < list.len()
        invariant
            i <= list.len(),
            r@.len() == i,
            forall|j: int| 0 <= j < i ==> (#[trigger] r@[j])@ == list@[j]@,
        decreases list.len() - i,
    {
        r.push(list[i].clone());
        i = i + 1;
    }
    proof {
        assert(texts(r@) =~= texts(list@));
    }
    r
}

/// What the controls of a catalog offer that is not in it.
fn find_choices(catalog: &[ControlSpec], models: &Vec<String>) -> (r: TextMap<Vec<String>>)
    ensures
        r@.map_values(|list: Vec<String>| texts(list@)) == found_choices(
            catalog@,
            texts(models@),
            catalog@.len(),
        ),
{
    let mut r: TextMap<Vec<String>> = TextMap::new();
    proof {
        assert(r@.map_values(|list: Vec<String>| texts(list@)) =~= found_choices(
            catalog@,
            texts(models@),
            0,
        ));
    }
    let mut i: usize = 0;
    while i < catalog.len()
        invariant
            i <= catalog@.len(),
            r@.map_values(|list: Vec<String>| texts(list@)) == found_choices(
                catalog@,
                texts(models@),
                i as nat,
            ),
        decreases catalog@.len() - i,
    {
        let control: &ControlSpec = &catalog[i];
        let ghost before = r@.map_values(|list: Vec<String>| texts(list@));
        if let ControlKind::Choice { options: _, default: _, source: Some(source) } = &control.kind {
            let choices: Vec<String> = match source {
                ChoiceSource::DfmModels => copy_list(models),
                ChoiceSource::Cameras => {
                    let list: Vec<String> = vec!["Choose camera".to_owned()];
                    proof {
                        assert(texts(list@) =~= seq!["Choose camera"@]);
                    }
                    list
                },
            };
            let ghost given = texts(choices@);
            let _ = r.insert(control.id.clone(), choices);
            proof {
                assert(r@.map_values(|list: Vec<String>| texts(list@)) =~= before.insert(
                    control.id@,
                    given,
                ));
            }
        }
        i = i + 1;
    }
    r
}

impl ExtraGuiState {
    /// A session over a catalog of controls, with the DFM models that were found.
    pub fn new(catalog: Arc<Vec<ControlSpec>>, models: &Vec<String>) -> (r: Result<
        Self,
        ControlStateError,
    >)
        ensures
            match r {
                Ok(state) => {
                    &&& defaults_given(catalog@, Ok(defaults(catalog@, catalog@.len())))
                    &&& new_session(state@, catalog@, texts(models@))
                },
                Err(e) => defaults_given(catalog@, Err(e)),
            },
    {
        let controls = match ControlState::from_catalog(catalog.as_slice()) {
            Ok(controls) => controls,
            Err(e) => return Err(e),
        };
        let dynamic_choices = find_choices(catalog.as_slice(), models);
        let state = ExtraGuiState {
            view: EditorView {
                active_panel: ExtraGuiPanel::Media,
                inspector_scope: ControlScope::Swapper,
                inspector_dock: InspectorDock::Right,
                inspector_open: true,
                fullscreen: false,
                show_target_images: true,
                show_target_videos: true,
                preview_loaded: None,
            },
            filters: EditorFilters {
                parameters: String::new(),
                targets: String::new(),
                sources: String::new(),
                embeddings: String::new(),
            },
            place: EditorPlace {
                name: "Untitled workspace".to_owned(),
                path: None,
                dirty: false,
                output_directory: None,
                embeddings_path: None,
                last_output: None,
            },
            status: text_notice("Editor ready"),
            progress: JobProgress { phase: EditorJobPhase::Idle, frames: None },
            catalog,
            dynamic_choices,
            controls,
            media: MediaLibrary::default(),
            faces: FaceWorkspace::new(),
            timeline: EditorTimeline::default(),
            preview: PreviewViewport::default(),
            merge: MergeDraft { selection: TextMap::new(), name: String::new() },
            intents: Intents { play: false, pause: false, record: false, analysis: false },
            pending: PendingRoutes::none(),
        };
        proof {
            assert(state@.merge.selection =~= Set::<Seq<char>>::empty());
            assert(state@.place =~= (Place {
                name: "Untitled workspace"@,
                path: None,
                dirty: false,
                output: None,
                embeddings: None,
                last_output: None,
            }));
        }
        Ok(state)
    }

    /// Marks the session as changed.
    pub fn touch(&mut self)
        ensures
            final(self)@ == old(self)@.changed(),
    {
        self.place.dirty = true;
    }

    /// Puts a text in the status line.
    pub fn say(&mut self, text: &str)
        ensures
            final(self)@ == old(self)@.saying(text@),
    {
        self.status = text_notice(text);
    }
}

} // verus!
