//! The document that an editor session is saved as.

use vstd::prelude::*;

use crate::controls::{complete, defaults, defaults_given, incompleteness};
use crate::controls::{ControlSpec, ControlState, ControlStateError, ControlValue};
use crate::faces::{checked, no_faces, Faces};
use crate::faces::{FaceWorkspace, FaceWorkspaceError};
use crate::media::Library;
use crate::media::{MediaError, MediaLibrary};
use crate::number::{Single, THIRTY};
use crate::ordered::ascending;
use crate::text::join2;
use crate::timeline::Timeline;
use crate::timeline::EditorTimeline;
use crate::viewport::whole_picture;
use crate::viewport::PreviewViewport;

verus! {

/// The version of the documents that this library writes.
pub const WORKSPACE_VERSION: u32 = 1;

/// Why a workspace is refused.
#[derive(Debug, PartialEq, Eq)]
pub enum WorkspaceError {
    Controls(ControlStateError),
    Faces(FaceWorkspaceError),
    Media(MediaError),
    UnsupportedVersion(u32),
    InvalidCrossSwap(&'static str),
}

/// An editor session as it is saved.
#[derive(Debug)]
pub struct WorkspaceDocument {
    pub version: u32,
    pub name: String,
    pub media: MediaLibrary,
    pub faces: FaceWorkspace,
    pub controls: ControlState,
    pub preview: PreviewViewport,
    pub timeline: EditorTimeline,
    pub output_directory: Option<String>,
}

/// The content of a workspace.
#[verifier::ext_equal]
pub ghost struct Document {
    pub version: u32,
    pub name: Seq<char>,
    pub media: Library,
    pub faces: Faces,
    pub controls: Map<Seq<char>, ControlValue>,
    pub preview: PreviewViewport,
    pub timeline: Timeline,
    pub output: Option<Seq<char>>,
}

impl View for WorkspaceDocument {
    type V = Document;

    open spec fn view(&self) -> Document {
        Document {
            version: self.version,
            name: self.name@,
            media: self.media@,
            faces: self.faces@,
            controls: self.controls@,
            preview: self.preview,
            timeline: self.timeline@,
            output: crate::faces::optional_text(self.output_directory),
        }
    }
}

/// A workspace without media.
pub open spec fn no_media() -> Library {
    Library { items: Seq::empty(), target: None, source: None, directory: None, next: 0 }
}

/// A workspace without media, faces and markers, in which all controls have their defaults.
pub open spec fn fresh_document(name: Seq<char>, catalog: Seq<ControlSpec>) -> Document {
    Document {
        version: WORKSPACE_VERSION,
        name,
        media: no_media(),
        faces: no_faces(),
        controls: defaults(catalog, catalog.len()),
        preview: whole_picture(),
        timeline: Timeline {
            total: 1,
            current: 0,
            fps: Single { bits: THIRTY },
            playing: false,
            markers: Map::empty(),
        },
        output: None,
    }
}

/// A result whose workspace is taken by its content.
pub open spec fn content(r: Result<WorkspaceDocument, WorkspaceError>) -> Result<
    Document,
    WorkspaceError,
> {
    match r {
        Ok(document) => Ok(document@),
        Err(e) => Err(e),
    }
}

/// The outcome of opening a fresh workspace.
pub open spec fn opened(
    name: Seq<char>,
    catalog: Seq<ControlSpec>,
    r: Result<Document, WorkspaceError>,
) -> bool {
    match r {
        Ok(document) => {
            &&& defaults_given(catalog, Ok(defaults(catalog, catalog.len())))
            &&& document == fresh_document(name, catalog)
        },
        Err(WorkspaceError::Controls(e)) => defaults_given(catalog, Err(e)),
        Err(_) => false,
    }
}

/// The outcome of checking a workspace that was loaded: its version, its controls, its faces.
pub open spec fn admitted(
    document: WorkspaceDocument,
    catalog: Seq<ControlSpec>,
    r: Result<(), WorkspaceError>,
) -> bool {
    let entries = document.controls.entries();
    if document.version != WORKSPACE_VERSION {
        r == Err::<(), WorkspaceError>(WorkspaceError::UnsupportedVersion(document.version))
    } else if !complete(entries, catalog) {
        r matches Err(WorkspaceError::Controls(e)) && incompleteness(e, entries, catalog)
    } else {
        sound_faces(document.faces, catalog, r)
    }
}

/// The outcome of checking the faces of a workspace.
pub open spec fn sound_faces(
    faces: FaceWorkspace,
    catalog: Seq<ControlSpec>,
    r: Result<(), WorkspaceError>,
) -> bool {
    match r {
        Ok(()) => checked(faces.checks(), faces@, catalog, Ok(())),
        Err(WorkspaceError::Faces(e)) => checked(faces.checks(), faces@, catalog, Err(e)),
        Err(_) => false,
    }
}

impl WorkspaceDocument {
    /// A workspace without media, faces and markers, in which all controls have their defaults.
    pub fn new(name: String, catalog: &[ControlSpec]) -> (r: Result<Self, WorkspaceError>)
        ensures
            opened(name@, catalog@, content(r)),
    {
        match ControlState::from_catalog(catalog) {
            Err(e) => Err(WorkspaceError::Controls(e)),
            Ok(controls) => {
                let document = WorkspaceDocument {
                    version: WORKSPACE_VERSION,
                    name,
                    media: MediaLibrary::default(),
                    faces: FaceWorkspace::new(),
                    controls,
                    preview: PreviewViewport::default(),
                    timeline: EditorTimeline::default(),
                    output_directory: None,
                };
                proof {
                    assert(document@ =~= fresh_document(name@, catalog@));
                }
                Ok(document)
            },
        }
    }

    /// Checks a workspace that was loaded: its version, its controls and its faces.
    pub fn check_loaded(&self, catalog: &[ControlSpec]) -> (r: Result<(), WorkspaceError>)
        ensures
            admitted(*self, catalog@, r),
    {
        if self.version != WORKSPACE_VERSION {
            return Err(WorkspaceError::UnsupportedVersion(self.version));
        }
        self.check_content(catalog)
    }

    /// Checks the controls and the faces of a workspace.
    pub fn check_content(&self, catalog: &[ControlSpec]) -> (r: Result<(), WorkspaceError>)
        ensures
            r is Ok ==> ascending(self.controls.entries()),
            if !complete(self.controls.entries(), catalog@) {
                r matches Err(WorkspaceError::Controls(e)) && incompleteness(
                    e,
                    self.controls.entries(),
                    catalog@,
                )
            } else {
                sound_faces(self.faces, catalog@, r)
            },
    {
        if let Err(e) = self.controls.validate_against(catalog) {
            return Err(WorkspaceError::Controls(e));
        }
        match self.faces.validate(catalog) {
            Ok(()) => Ok(()),
            Err(e) => Err(WorkspaceError::Faces(e)),
        }
    }
}

/// The file that a workspace is written to before it replaces the one at `path`.
pub fn temporary_workspace(path: &str) -> (r: String)
    ensures
        r@ == path@ + ".tmp"@,
{
    join2(path, ".tmp")
}

} // verus!
