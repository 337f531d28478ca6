//! The files of a session: its workspace, and the models that are found for it.

use vstd::prelude::*;

use crate::faces::{optional_text, texts};
use crate::ordered::{in_ascending_order, keys_are_listed, listed};
use crate::ordered::{TextMap, TextSet};
use crate::paths::{extension, file_name, file_stem, parent};
use crate::paths::{extension_of, file_name_of, parent_of, stem_of};
use crate::session::state::{Place, Said, Session};
use crate::session::state::{EditorView, ExtraGuiState, Notice};
use crate::text::lowered;
use crate::text::{join2, same_text, to_lowered};
use crate::workspace::document::{Document, WORKSPACE_VERSION};
use crate::workspace::document::{WorkspaceDocument, WorkspaceError};

verus! {

/// The content of a session, as it is saved.
pub open spec fn document_of(s: Session) -> Document {
    Document {
        version: WORKSPACE_VERSION,
        name: s.place.name,
        media: s.media,
        faces: s.faces,
        controls: s.controls,
        preview: s.preview,
        timeline: s.timeline,
        output: s.place.output,
    }
}

/// The session after a workspace was opened.
pub open spec fn document_opened(s: Session, path: Option<Seq<char>>, document: Document) -> Session {
    (Session {
        place: Place {
            name: document.name,
            path,
            dirty: false,
            output: document.output,
            ..s.place
        },
        media: document.media,
        faces: document.faces,
        controls: document.controls,
        preview: document.preview,
        timeline: document.timeline,
        view: EditorView { preview_loaded: None, ..s.view },
        ..s
    }).saying("Workspace loaded"@)
}

/// The name of the workspace at a path.
pub open spec fn workspace_name(path: Seq<char>, otherwise: Seq<char>) -> Seq<char> {
    match stem_of(path) {
        Some(stem) => stem,
        None => otherwise,
    }
}

/// The session after it was saved at a path.
pub open spec fn session_saved(s: Session, path: Seq<char>) -> Session {
    (Session {
        place: Place {
            name: workspace_name(path, "workspace"@),
            path: Some(path),
            dirty: false,
            ..s.place
        },
        ..s
    }).saying("Saved "@ + path)
}

/// How many seconds lie between two automatic saves.
pub const AUTOSAVE_SECONDS: u64 = 30;

fn copy_text(text: &Option<String>) -> (r: Option<String>)
    ensures
        optional_text(r) == optional_text(*text),
{
    match text {
        Some(text) => Some(text.clone()),
        None => None,
    }
}

impl ExtraGuiState {
    /// The content of the session, as it is saved.
    pub fn document(&self) -> (r: WorkspaceDocument)
        ensures
            r@ == document_of(self@),
    {
        WorkspaceDocument {
            version: WORKSPACE_VERSION,
            name: self.place.name.clone(),
            media: self.media.duplicate(),
            faces: self.faces.duplicate(),
            controls: self.controls.duplicate(),
            preview: self.preview,
            timeline: self.timeline.duplicate(),
            output_directory: copy_text(&self.place.output_directory),
        }
    }

    /// Opens a workspace.
    pub fn apply_document(&mut self, path: Option<String>, document: WorkspaceDocument)
        ensures
            final(self)@ == document_opened(old(self)@, optional_text(path), document@),
    {
        self.place.name = document.name;
        self.place.path = path;
        self.place.output_directory = document.output_directory;
        self.place.dirty = false;
        self.media = document.media;
        self.faces = document.faces;
        self.controls = document.controls;
        self.preview = document.preview;
        self.timeline = document.timeline;
        self.view.preview_loaded = None;
        self.say("Workspace loaded");
    }

    /// A workspace could not be opened, saved or exported.
    pub fn workspace_refused(&mut self, error: WorkspaceError)
        ensures
            final(self)@ == (Session { status: Said::Workspace(error), ..old(self)@ }),
    {
        self.status = Notice::Workspace(error);
    }

    /// Where the session is saved without asking.
    pub fn save_path(&self, ask: bool) -> (r: Option<String>)
        ensures
            optional_text(r) == if ask {
                None
            } else {
                self@.place.path
            },
    {
        if ask {
            None
        } else {
            copy_text(&self.place.path)
        }
    }

    /// The session was saved.
    pub fn workspace_saved(&mut self, path: String)
        ensures
            final(self)@ == session_saved(old(self)@, path@),
    {
        let text = join2("Saved ", path.as_str());
        self.place.name = name_of_workspace(path.as_str(), "workspace");
        self.place.path = Some(path);
        self.place.dirty = false;
        self.say(text.as_str());
    }

    /// The session was exported.
    pub fn workspace_exported(&mut self, path: &str)
        ensures
            final(self)@ == old(self)@.saying("Exported "@ + path@),
    {
        let text = join2("Exported ", path);
        self.say(text.as_str());
    }

    /// Where the session is to be saved by itself: beside its file, where it has changed and the
    /// last time is long ago.
    pub fn autosave_path(&self, elapsed_seconds: u64) -> (r: Option<String>)
        ensures
            optional_text(r) == match self@.place.path {
                Some(path) => if self@.place.dirty && elapsed_seconds >= AUTOSAVE_SECONDS {
                    Some(path + ".autosave"@)
                } else {
                    None
                },
                None => None,
            },
    {
        if !self.place.dirty || elapsed_seconds < AUTOSAVE_SECONDS {
            return None;
        }
        match &self.place.path {
            Some(path) => Some(join2(path.as_str(), ".autosave")),
            None => None,
        }
    }

    /// The session could not be saved by itself.
    pub fn autosave_failed(&mut self, error: &str)
        ensures
            final(self)@ == old(self)@.saying("Autosave failed: "@ + error@),
    {
        let text = join2("Autosave failed: ", error);
        self.say(text.as_str());
    }

    /// The directory of outputs was chosen.
    pub fn choose_output(&mut self, directory: String)
        ensures
            final(self)@ == (Session {
                place: Place { output: Some(directory@), ..old(self)@.place },
                ..old(self)@
            }).changed(),
    {
        self.place.output_directory = Some(directory);
        self.touch();
    }

    /// A frame was saved.
    pub fn frame_saved(&mut self, path: &str)
        ensures
            final(self)@ == (Session {
                place: Place { output: parent_of(path@), ..old(self)@.place },
                ..old(self)@
            }).saying("Saved "@ + path@),
    {
        self.place.output_directory = parent(path);
        let text = join2("Saved ", path);
        self.say(text.as_str());
    }
}

/// The name of the workspace at a path.
pub fn name_of_workspace(path: &str, otherwise: &str) -> (r: String)
    ensures
        r@ == workspace_name(path@, otherwise@),
{
    match file_stem(path) {
        Some(stem) => stem,
        None => otherwise.to_owned(),
    }
}

/// Opening what was saved gives the same content back, under the name that it was saved with.
pub proof fn saved_session_opens_again(s: Session, path: Seq<char>, other: Session)
    ensures
        ({
            let saved = document_of(s);
            let after = document_opened(other, Some(path), saved);
            &&& document_of(after) == saved
            &&& !after.place.dirty
            &&& after.place.path == Some(path)
        }),
{
}

/// An entry of a directory of models.
#[derive(Debug, PartialEq, Eq)]
pub enum ModelEntry {
    /// A file, or something that cannot be read as a directory.
    File(String),
    /// A directory and its entries.
    Directory(String, Vec<ModelEntry>),
}

/// The name of a DFM model: a file name that ends in `.dfm`, whatever the case.
pub open spec fn model_name(path: Seq<char>) -> Option<Seq<char>> {
    match extension_of(path) {
        Some(extension) => if lowered(extension) == "dfm"@ {
            file_name_of(path)
        } else {
            None
        },
        None => None,
    }
}

/// `name` is a DFM model among the entries of a directory, or of a directory in it, down to a
/// depth. What is deeper counts by its own name.
pub open spec fn has_model(entries: Seq<ModelEntry>, depth: nat, name: Seq<char>) -> bool
    decreases entries,
{
    exists|i: int|
        0 <= i < entries.len() && (match #[trigger] entries[i] {
            ModelEntry::File(path) => model_name(path@) == Some(name),
            ModelEntry::Directory(path, inner) => if depth > 0 {
                has_model(inner@, (depth - 1) as nat, name)
            } else {
                model_name(path@) == Some(name)
            },
        })
}

/// The name of a DFM model.
fn name_of_model(path: &str) -> (r: Option<String>)
    ensures
        optional_text(r) == model_name(path@),
{
    match extension(path) {
        Some(extension) => {
            let low = to_lowered(extension.as_str());
            if same_text(low.as_str(), "dfm") {
                file_name(path)
            } else {
                None
            }
        },
        None => None,
    }
}

fn add_model(models: &mut TextSet, path: &str)
    ensures
        forall|name: Seq<char>| #[trigger]
            final(models)@.dom().contains(name) <==> old(models)@.dom().contains(name)
                || model_name(path@) == Some(name),
{
    if let Some(name) = name_of_model(path) {
        let _ = models.insert(name, ());
    }
}

/// Collects the DFM models among the entries of a directory.
fn collect_dfm_models(entries: &Vec<ModelEntry>, depth: usize, models: &mut TextSet)
    ensures
        forall|name: Seq<char>| #[trigger]
            final(models)@.dom().contains(name) <==> old(models)@.dom().contains(name) || has_model(
                entries@,
                depth as nat,
                name,
            ),
    decreases entries,
{
    let ghost before = models@.dom();
    let mut i: usize = 0;
    while i < entries.len()
        invariant
            i <= entries.len(),
            forall|name: Seq<char>| #[trigger]
                models@.dom().contains(name) <==> before.contains(name) || has_model_before(
                    entries@,
                    i as int,
                    depth as nat,
                    name,
                ),
        decreases entries.len() - i,
    {
        let ghost held = models@.dom();
        match &entries[i] {
            ModelEntry::File(path) => add_model(models, path.as_str()),
            ModelEntry::Directory(path, inner) => {
                if depth > 0 {
                    proof {
                        assert(decreases_to!(entries@ => entries@[i as int]));
                        assert(entries@[i as int] == ModelEntry::Directory(*path, *inner));
                        assert(decreases_to!(entries@[i as int] => inner));
                    }
                    collect_dfm_models(inner, depth - 1, models);
                } else {
                    add_model(models, path.as_str());
                }
            },
        }
        proof {
            assert forall|name: Seq<char>| #[trigger] models@.dom().contains(name)
                <==> before.contains(name) || has_model_before(
                entries@,
                i + 1,
                depth as nat,
                name,
            ) by {
                let here = is_model(entries@[i as int], depth as nat, name);
                assert(models@.dom().contains(name) <==> held.contains(name) || here);
                if has_model_before(entries@, i as int, depth as nat, name) {
                    let j = choose|j: int|
                        0 <= j < i && is_model(#[trigger] entries@[j], depth as nat, name);
                    assert(is_model(entries@[j], depth as nat, name));
                }
                if has_model_before(entries@, i + 1, depth as nat, name) {
                    let j = choose|j: int|
                        0 <= j < i + 1 && is_model(#[trigger] entries@[j], depth as nat, name);
                    if j < i {
                        assert(is_model(entries@[j], depth as nat, name));
                        assert(has_model_before(entries@, i as int, depth as nat, name));
                    }
                }
            }
        }
        i = i + 1;
    }
    proof {
        assert forall|name: Seq<char>| has_model_before(
            entries@,
            entries@.len() as int,
            depth as nat,
            name,
        ) <==> #[trigger] has_model(entries@, depth as nat, name) by {
            if has_model_before(entries@, entries@.len() as int, depth as nat, name) {
                let j = choose|j: int|
                    0 <= j < entries@.len() && is_model(
                        #[trigger] entries@[j],
                        depth as nat,
                        name,
                    );
                assert(entries@[j] == entries@[j]);
            }
            if has_model(entries@, depth as nat, name) {
                let j = choose|j: int|
                    0 <= j < entries@.len() && (match #[trigger] entries@[j] {
                        ModelEntry::File(path) => model_name(path@) == Some(name),
                        ModelEntry::Directory(path, inner) => if depth > 0 {
                            has_model(inner@, (depth - 1) as nat, name)
                        } else {
                            model_name(path@) == Some(name)
                        },
                    });
                assert(is_model(entries@[j], depth as nat, name));
            }
        }
    }
}

/// `name` is a DFM model that an entry gives.
spec fn is_model(entry: ModelEntry, depth: nat, name: Seq<char>) -> bool {
    match entry {
        ModelEntry::File(path) => model_name(path@) == Some(name),
        ModelEntry::Directory(path, inner) => if depth > 0 {
            has_model(inner@, (depth - 1) as nat, name)
        } else {
            model_name(path@) == Some(name)
        },
    }
}

/// `name` is a DFM model that one of the first `n` entries gives.
spec fn has_model_before(entries: Seq<ModelEntry>, n: int, depth: nat, name: Seq<char>) -> bool {
    exists|j: int| 0 <= j < n && is_model(#[trigger] entries[j], depth, name)
}

/// The DFM models in a directory and in the directories in it, two levels down: each once, in
/// ascending order.
pub fn find_dfm_models(entries: &Vec<ModelEntry>) -> (r: Vec<String>)
    ensures
        in_ascending_order(texts(r@)),
        forall|name: Seq<char>| #[trigger]
            texts(r@).contains(name) <==> has_model(entries@, 2, name),
{
    let mut models: TextSet = TextMap::new();
    collect_dfm_models(entries, 2, &mut models);
    let r = models.keys();
    proof {
        keys_are_listed(models.pairs());
        let order = texts(r@);
        assert(order == listed(models@.dom()));
        assert forall|name: Seq<char>| #[trigger] order.contains(name) <==> has_model(
            entries@,
            2,
            name,
        ) by {
            assert(models@.dom().contains(name) <==> order.contains(name));
        }
    }
    r
}

} // verus!
