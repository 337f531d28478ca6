//! The faces of a session: identities to swap in, target faces, and what is assigned to which.

use vstd::prelude::*;

use crate::controls::{ControlSpec, ControlState, ControlStateError, ControlValue};
use crate::controls::{complete, defaults, defaults_given, incompleteness};
use crate::embeddings::{
    copy_values, merge_stores, validate_store, EmbeddingMergeMethod, EmbeddingStore, EvenMedian,
};
use crate::embeddings::{all_embedded, embedded, merge_result, sound_store, store_refusal};
use crate::media::MediaId;
use crate::number::Single;
use crate::ordered::{TextMap, TextSet};
use crate::ordered::{
    ascending, entry_is_unique, first_of, holds_key, is_least, keys_are_listed, keys_of,
    least_is_unique, listed, map_of,
};
use crate::text::{same_text, text_before, text_order_total, text_order_transitive};

verus! {

/// The model whose embeddings identify a face.
pub const ARC_FACE_MODEL: &'static str = "Inswapper128ArcFace";

/// Why an operation on faces is refused.
#[derive(Debug, PartialEq, Eq)]
pub enum FaceWorkspaceError {
    DuplicateIdentity(String),
    DuplicateTarget(String),
    UnknownSource(String),
    UnknownMerged(String),
    UnknownTarget(String),
    EmptySelection,
    EmptyEmbeddingStore,
    DimensionMismatch(String),
    NonFinite(String),
    MissingModel(String),
    Controls(ControlStateError),
}

/// The picture of a face.
#[derive(Debug, PartialEq, Eq)]
pub struct FaceCrop {
    pub width: u32,
    pub height: u32,
    pub rgb: Vec<u8>,
}

/// The content of a picture.
#[verifier::ext_equal]
pub ghost struct Crop {
    pub width: u32,
    pub height: u32,
    pub rgb: Seq<u8>,
}

impl View for FaceCrop {
    type V = Crop;

    open spec fn view(&self) -> Crop {
        Crop { width: self.width, height: self.height, rgb: self.rgb@ }
    }
}

/// The content of a picture, where there is one.
pub open spec fn optional_crop(crop: Option<FaceCrop>) -> Option<Crop> {
    match crop {
        Some(picture) => Some(picture@),
        None => None,
    }
}

/// An identity that comes from a picture.
#[derive(Debug)]
pub struct SourceIdentity {
    pub id: String,
    pub name: String,
    pub media_id: Option<MediaId>,
    pub embeddings: EmbeddingStore,
}

/// An identity that was merged from others, or loaded.
#[derive(Debug)]
pub struct MergedIdentity {
    pub id: String,
    pub name: String,
    pub source_ids: Vec<String>,
    pub embeddings: EmbeddingStore,
}

/// A face that is replaced.
#[derive(Debug)]
pub struct TargetFace {
    pub id: String,
    pub media_id: Option<MediaId>,
    pub embeddings: EmbeddingStore,
    pub crop: Option<FaceCrop>,
    pub assigned_sources: TextSet,
    pub assigned_merged: TextSet,
    pub assigned_embedding_cache: EmbeddingStore,
    pub controls: ControlState,
}

/// The content of a source identity.
#[verifier::ext_equal]
pub ghost struct Source {
    pub id: Seq<char>,
    pub name: Seq<char>,
    pub media_id: Option<MediaId>,
    pub embeddings: Map<Seq<char>, Seq<Single>>,
}

/// The content of a merged identity.
#[verifier::ext_equal]
pub ghost struct Merged {
    pub id: Seq<char>,
    pub name: Seq<char>,
    pub source_ids: Seq<Seq<char>>,
    pub embeddings: Map<Seq<char>, Seq<Single>>,
}

/// The content of a target face.
#[verifier::ext_equal]
pub ghost struct Target {
    pub id: Seq<char>,
    pub media_id: Option<MediaId>,
    pub embeddings: Map<Seq<char>, Seq<Single>>,
    pub crop: Option<Crop>,
    pub sources: Set<Seq<char>>,
    pub merged: Set<Seq<char>>,
    pub cache: Map<Seq<char>, Seq<Single>>,
    pub controls: Map<Seq<char>, ControlValue>,
}

/// The content of a face workspace.
#[verifier::ext_equal]
pub ghost struct Faces {
    pub sources: Map<Seq<char>, Source>,
    pub merged: Map<Seq<char>, Merged>,
    pub targets: Map<Seq<char>, Target>,
    pub selected: Option<Seq<char>>,
    pub swap_all: bool,
    pub swap_sources: Set<Seq<char>>,
    pub swap_merged: Set<Seq<char>>,
}

impl View for SourceIdentity {
    type V = Source;

    open spec fn view(&self) -> Source {
        Source {
            id: self.id@,
            name: self.name@,
            media_id: self.media_id,
            embeddings: embedded(self.embeddings),
        }
    }
}

/// The texts of a list.
pub open spec fn texts(list: Seq<String>) -> Seq<Seq<char>> {
    list.map_values(|s: String| s@)
}

impl View for MergedIdentity {
    type V = Merged;

    open spec fn view(&self) -> Merged {
        Merged {
            id: self.id@,
            name: self.name@,
            source_ids: texts(self.source_ids@),
            embeddings: embedded(self.embeddings),
        }
    }
}

impl View for TargetFace {
    type V = Target;

    open spec fn view(&self) -> Target {
        Target {
            id: self.id@,
            media_id: self.media_id,
            embeddings: embedded(self.embeddings),
            crop: optional_crop(self.crop),
            sources: self.assigned_sources@.dom(),
            merged: self.assigned_merged@.dom(),
            cache: embedded(self.assigned_embedding_cache),
            controls: self.controls@,
        }
    }
}

/// Identities, targets and assignments.
#[derive(Debug)]
pub struct FaceWorkspace {
    sources: TextMap<SourceIdentity>,
    merged: TextMap<MergedIdentity>,
    targets: TextMap<TargetFace>,
    selected_target: Option<String>,
    swap_all: bool,
    swap_all_sources: TextSet,
    swap_all_merged: TextSet,
}

/// The text of an optional string.
pub open spec fn optional_text(s: Option<String>) -> Option<Seq<char>> {
    match s {
        Some(text) => Some(text@),
        None => None,
    }
}

/// The text of an optional string slice.
pub open spec fn optional_str(s: Option<&str>) -> Option<Seq<char>> {
    match s {
        Some(text) => Some(text@),
        None => None,
    }
}

impl View for FaceWorkspace {
    type V = Faces;

    closed spec fn view(&self) -> Faces {
        Faces {
            sources: self.sources@.map_values(|s: SourceIdentity| s@),
            merged: self.merged@.map_values(|m: MergedIdentity| m@),
            targets: self.targets@.map_values(|t: TargetFace| t@),
            selected: optional_text(self.selected_target),
            swap_all: self.swap_all,
            swap_sources: self.swap_all_sources@.dom(),
            swap_merged: self.swap_all_merged@.dom(),
        }
    }
}

/// No identities, no targets.
pub open spec fn no_faces() -> Faces {
    Faces {
        sources: Map::empty(),
        merged: Map::empty(),
        targets: Map::empty(),
        selected: None,
        swap_all: false,
        swap_sources: Set::empty(),
        swap_merged: Set::empty(),
    }
}

impl Faces {
    /// An identity has this id.
    pub open spec fn names_identity(self, id: Seq<char>) -> bool {
        self.sources.dom().contains(id) || self.merged.dom().contains(id)
    }

    /// The sources assigned to a target, or to all faces.
    pub open spec fn assigned_sources(self, target: Option<Seq<char>>) -> Set<Seq<char>> {
        match target {
            None => self.swap_sources,
            Some(id) => if self.targets.dom().contains(id) {
                self.targets[id].sources
            } else {
                Set::empty()
            },
        }
    }

    /// The merged identities assigned to a target, or to all faces.
    pub open spec fn assigned_merged(self, target: Option<Seq<char>>) -> Set<Seq<char>> {
        match target {
            None => self.swap_merged,
            Some(id) => if self.targets.dom().contains(id) {
                self.targets[id].merged
            } else {
                Set::empty()
            },
        }
    }

    /// Something is assigned to a target, or to all faces.
    pub open spec fn assigns(self, target: Option<Seq<char>>) -> bool {
        ||| self.assigned_sources(target) != Set::<Seq<char>>::empty()
        ||| self.assigned_merged(target) != Set::<Seq<char>>::empty()
    }

    /// With other sources assigned.
    pub open spec fn with_sources(self, target: Option<Seq<char>>, ids: Set<Seq<char>>) -> Faces {
        match target {
            None => Faces { swap_sources: ids, ..self },
            Some(id) => Faces {
                targets: self.targets.insert(id, Target { sources: ids, ..self.targets[id] }),
                ..self
            },
        }
    }

    /// With other merged identities assigned.
    pub open spec fn with_merged(self, target: Option<Seq<char>>, ids: Set<Seq<char>>) -> Faces {
        match target {
            None => Faces { swap_merged: ids, ..self },
            Some(id) => Faces {
                targets: self.targets.insert(id, Target { merged: ids, ..self.targets[id] }),
                ..self
            },
        }
    }

    /// Without the target `id`. Where it was selected, the first remaining target is.
    pub open spec fn without_target(self, id: Seq<char>) -> Faces {
        let targets = self.targets.remove(id);
        Faces {
            targets,
            selected: if self.selected == Some(id) {
                first_of(targets.dom())
            } else {
                self.selected
            },
            ..self
        }
    }

    /// Without the first `n` of the targets `ids`, removed one after the other.
    pub open spec fn without_targets(self, ids: Seq<Seq<char>>, n: nat) -> Faces
        decreases n,
    {
        if n == 0 {
            self
        } else {
            self.without_targets(ids, (n - 1) as nat).without_target(ids[n - 1])
        }
    }

    /// The merged identities that were not merged from the source `id`.
    pub open spec fn merged_without(self, id: Seq<char>) -> Map<Seq<char>, Merged> {
        self.merged.restrict(
            Set::new(
                |key: Seq<char>|
                    self.merged.dom().contains(key) && !self.merged[key].source_ids.contains(id),
            ),
        )
    }

    /// Without the source `id`, what was merged from it, and their assignments to targets.
    pub open spec fn without_source(self, id: Seq<char>) -> Faces {
        let merged = self.merged_without(id);
        Faces {
            sources: self.sources.remove(id),
            merged,
            targets: self.targets.map_values(
                |t: Target|
                    Target {
                        sources: t.sources.remove(id),
                        merged: t.merged.intersect(merged.dom()),
                        ..t
                    },
            ),
            swap_sources: self.swap_sources.remove(id),
            ..self
        }
    }

    /// Without the merged identity `id` and its assignments.
    pub open spec fn without_merged(self, id: Seq<char>) -> Faces {
        Faces {
            merged: self.merged.remove(id),
            targets: self.targets.map_values(
                |t: Target| Target { merged: t.merged.remove(id), ..t },
            ),
            swap_merged: self.swap_merged.remove(id),
            ..self
        }
    }

    /// Without merged identities.
    pub open spec fn without_all_merged(self) -> Faces {
        Faces {
            merged: Map::empty(),
            targets: self.targets.map_values(|t: Target| Target { merged: Set::empty(), ..t }),
            swap_merged: Set::empty(),
            ..self
        }
    }

    /// The embeddings of the given sources that exist, in order.
    pub open spec fn source_stores(self, ids: Seq<Seq<char>>) -> Seq<Map<Seq<char>, Seq<Single>>>
        decreases ids.len(),
    {
        if ids.len() == 0 {
            Seq::empty()
        } else {
            let before = self.source_stores(ids.drop_last());
            if self.sources.dom().contains(ids.last()) {
                before.push(self.sources[ids.last()].embeddings)
            } else {
                before
            }
        }
    }

    /// The embeddings of the given merged identities that exist, in order.
    pub open spec fn merged_stores(self, ids: Seq<Seq<char>>) -> Seq<Map<Seq<char>, Seq<Single>>>
        decreases ids.len(),
    {
        if ids.len() == 0 {
            Seq::empty()
        } else {
            let before = self.merged_stores(ids.drop_last());
            if self.merged.dom().contains(ids.last()) {
                before.push(self.merged[ids.last()].embeddings)
            } else {
                before
            }
        }
    }

    /// The embeddings assigned to a target, or to all faces: those of sources, then those of
    /// merged identities, each in ascending order of their ids.
    pub open spec fn assigned_stores(self, target: Option<Seq<char>>) -> Seq<
        Map<Seq<char>, Seq<Single>>,
    > {
        self.source_stores(listed(self.assigned_sources(target))) + self.merged_stores(
            listed(self.assigned_merged(target)),
        )
    }

    /// Ids and references agree: an id names one identity, what is referred to exists, and no
    /// target is selected while all faces are swapped.
    pub open spec fn intact(self) -> bool {
        &&& self.sources.dom().disjoint(self.merged.dom())
        &&& forall|key: Seq<char>| #[trigger]
            self.sources.dom().contains(key) ==> self.sources[key].id == key
        &&& forall|key: Seq<char>| #[trigger]
            self.merged.dom().contains(key) ==> self.merged[key].id == key
        &&& forall|key: Seq<char>| #[trigger]
            self.targets.dom().contains(key) ==> self.targets[key].id == key
        &&& forall|key: Seq<char>, source: Seq<char>|
            #![trigger self.merged[key].source_ids.contains(source)]
            self.merged.dom().contains(key) && self.merged[key].source_ids.contains(source)
                ==> self.sources.dom().contains(source)
        &&& forall|key: Seq<char>| #[trigger]
            self.targets.dom().contains(key) ==> self.targets[key].sources.subset_of(
                self.sources.dom(),
            )
        &&& forall|key: Seq<char>| #[trigger]
            self.targets.dom().contains(key) ==> self.targets[key].merged.subset_of(
                self.merged.dom(),
            )
        &&& self.selected matches Some(id) ==> self.targets.dom().contains(id)
        &&& self.swap_all ==> self.selected is None
        &&& self.swap_sources.subset_of(self.sources.dom())
        &&& self.swap_merged.subset_of(self.merged.dom())
    }

    /// No identity that is assigned to all faces was merged from the source `id`.
    pub open spec fn unused_by_swap_all(self, id: Seq<char>) -> bool {
        self.swap_merged.subset_of(self.merged_without(id).dom())
    }
}

/// What is made of the embeddings assigned to a face: the embedding of one model in their merger.
pub open spec fn chosen_embedding<F: Fn(Vec<Single>) -> Single, G: Fn(Single, Single) -> Single>(
    stores: Seq<Map<Seq<char>, Seq<Single>>>,
    model: Seq<char>,
    method: EmbeddingMergeMethod,
    mean: F,
    midpoint: G,
    r: Result<Vec<Single>, FaceWorkspaceError>,
) -> bool {
    exists|merged: Result<EmbeddingStore, FaceWorkspaceError>|
        {
            &&& #[trigger] merge_result(stores, method, EvenMedian::Lower, mean, midpoint, merged)
            &&& match merged {
                Err(e) => r == Err::<Vec<Single>, FaceWorkspaceError>(e),
                Ok(store) => if embedded(store).dom().contains(model) {
                    r matches Ok(values) && values@ == embedded(store)[model]
                } else {
                    r matches Err(FaceWorkspaceError::MissingModel(name)) && name@ == model
                },
            }
        }
}

/// The embedding of one model that replaces the face of a target. Where no assigned identity
/// exists, it is the one that was kept for the target.
pub open spec fn embedding_assigned<
    F: Fn(Vec<Single>) -> Single,
    G: Fn(Single, Single) -> Single,
>(
    faces: Faces,
    target: Seq<char>,
    model: Seq<char>,
    method: EmbeddingMergeMethod,
    mean: F,
    midpoint: G,
    r: Result<Vec<Single>, FaceWorkspaceError>,
) -> bool {
    let stores = faces.assigned_stores(Some(target));
    if !faces.targets.dom().contains(target) {
        r matches Err(FaceWorkspaceError::UnknownTarget(given)) && given@ == target
    } else if stores.len() == 0 && faces.targets[target].cache.dom().contains(model) {
        r matches Ok(values) && values@ == faces.targets[target].cache[model]
    } else {
        chosen_embedding(stores, model, method, mean, midpoint, r)
    }
}

/// Whether a set has a text, from now on.
pub fn set_membership(values: &mut TextSet, id: &str, assigned: bool)
    ensures
        final(values)@.dom() == if assigned {
            old(values)@.dom().insert(id@)
        } else {
            old(values)@.dom().remove(id@)
        },
{
    if assigned {
        let _ = values.insert(id.to_owned(), ());
    } else {
        let _ = values.remove(id);
    }
}

/// Leaves the texts that are keys of a map.
fn keep_known<V>(values: &mut TextSet, known: &TextMap<V>)
    ensures
        final(values)@.dom() == old(values)@.dom().intersect(known@.dom()),
{
    let keys: Vec<String> = values.keys();
    let ghost before = values@.dom();
    let mut i: usize = 0;
    while i < keys.len()
        invariant
            i <= keys.len(),
            forall|key: Seq<char>| #[trigger]
                before.contains(key) <==> exists|j: int|
                    0 <= j < keys@.len() && (#[trigger] keys@[j])@ == key,
            forall|key: Seq<char>| #[trigger] values@.dom().contains(key) ==> before.contains(key),
            forall|key: Seq<char>|
                before.contains(key) && known@.dom().contains(key) ==> #[trigger]
                values@.dom().contains(key),
            forall|j: int|
                0 <= j < i && !known@.dom().contains((#[trigger] keys@[j])@)
                    ==> !values@.dom().contains(keys@[j]@),
        decreases keys.len() - i,
    {
        if !known.contains_key(keys[i].as_str()) {
            let _ = values.remove(keys[i].as_str());
        }
        i = i + 1;
    }
    proof {
        assert forall|key: Seq<char>| #[trigger] values@.dom().contains(key) <==> before.intersect(
            known@.dom(),
        ).contains(key) by {
            if values@.dom().contains(key) {
                assert(before.contains(key));
                let j = choose|j: int| 0 <= j < keys@.len() && (#[trigger] keys@[j])@ == key;
                assert(keys@[j]@ == key);
            }
        }
        assert(values@.dom() =~= before.intersect(known@.dom()));
    }
}

/// Whether one of `ids` is `id`.
fn is_listed(ids: &Vec<String>, id: &str) -> (r: bool)
    ensures
        r == texts(ids@).contains(id@),
{
    let mut i: usize = 0;
    while i < ids.len()
        invariant
            i <= ids.len(),
            forall|j: int| 0 <= j < i ==> (#[trigger] ids@[j])@ != id@,
        decreases ids.len() - i,
    {
        if same_text(ids[i].as_str(), id) {
            assert(texts(ids@)[i as int] == id@);
            return true;
        }
        i = i + 1;
    }
    proof {
        if texts(ids@).contains(id@) {
            let j = choose|j: int| 0 <= j < ids@.len() && texts(ids@)[j] == id@;
            assert(ids@[j]@ == id@);
        }
    }
    false
}

/// A copy of a list of texts.
fn copy_texts(list: &Vec<String>) -> (r: Vec<String>)
    ensures
        texts(r@) == texts(list@),
{
    let mut r: Vec<String> = Vec::new();
    let mut i: usize = 0;
    while i < list.len()
        invariant
            i <= list.len(),
            r@.len() == i,
            forall|j: int| 0 <= j < i ==> (#[trigger] r@[j])@ == list@[j]@,
        decreases list.len() - i,
    {
        r.push(list[i].clone());
        i = i + 1;
    }
    proof {
        assert(texts(r@) =~= texts(list@));
    }
    r
}

/// The same embeddings.
pub fn copy_store(store: &EmbeddingStore) -> (r: EmbeddingStore)
    ensures
        embedded(r) == embedded(*store),
{
    let copy = |values: &Vec<Single>| -> (r: Vec<Single>)
        ensures
            r@ == values@,
        { copy_values(values) };
    let r: EmbeddingStore = store.copied(copy);
    proof {
        assert forall|key: Seq<char>| #[trigger] store@.dom().contains(key) implies embedded(r)[key]
            == embedded(*store)[key] by {}
        assert(embedded(r) =~= embedded(*store));
    }
    r
}

fn copy_bytes(bytes: &Vec<u8>) -> (r: Vec<u8>)
    ensures
        r@ == bytes@,
{
    let mut r: Vec<u8> = Vec::new();
    let mut i: usize = 0;
    while i < bytes.len()
        invariant
            i <= bytes.len(),
            r@ == bytes@.take(i as int),
        decreases bytes.len() - i,
    {
        r.push(bytes[i]);
        i = i + 1;
    }
    proof {
        assert(bytes@.take(bytes.len() as int) =~= bytes@);
    }
    r
}

impl SourceIdentity {
    /// An identity with the same content.
    pub fn duplicate(&self) -> (r: Self)
        ensures
            r@ == self@,
    {
        SourceIdentity {
            id: self.id.clone(),
            name: self.name.clone(),
            media_id: self.media_id,
            embeddings: copy_store(&self.embeddings),
        }
    }
}

impl MergedIdentity {
    /// An identity with the same content.
    pub fn duplicate(&self) -> (r: Self)
        ensures
            r@ == self@,
    {
        MergedIdentity {
            id: self.id.clone(),
            name: self.name.clone(),
            source_ids: copy_texts(&self.source_ids),
            embeddings: copy_store(&self.embeddings),
        }
    }
}

fn copy_set(set: &TextSet) -> (r: TextSet)
    ensures
        r@.dom() == set@.dom(),
{
    let copy = |unit: &()| -> (r: ()) { () };
    set.copied(copy)
}

impl TargetFace {
    /// A face with the same content.
    pub fn duplicate(&self) -> (r: Self)
        ensures
            r@ == self@,
    {
        TargetFace {
            id: self.id.clone(),
            media_id: self.media_id,
            embeddings: copy_store(&self.embeddings),
            crop: match &self.crop {
                Some(crop) => Some(
                    FaceCrop {
                        width: crop.width,
                        height: crop.height,
                        rgb: copy_bytes(&crop.rgb),
                    },
                ),
                None => None,
            },
            assigned_sources: copy_set(&self.assigned_sources),
            assigned_merged: copy_set(&self.assigned_merged),
            assigned_embedding_cache: copy_store(&self.assigned_embedding_cache),
            controls: self.controls.duplicate(),
        }
    }
}

impl FaceWorkspace {
    /// A workspace with the same content.
    pub fn duplicate(&self) -> (r: Self)
        ensures
            r@ == self@,
    {
        let source = |s: &SourceIdentity| -> (r: SourceIdentity)
            ensures
                r@ == s@,
            { s.duplicate() };
        let merged = |m: &MergedIdentity| -> (r: MergedIdentity)
            ensures
                r@ == m@,
            { m.duplicate() };
        let target = |t: &TargetFace| -> (r: TargetFace)
            ensures
                r@ == t@,
            { t.duplicate() };
        let r = FaceWorkspace {
            sources: self.sources.copied(source),
            merged: self.merged.copied(merged),
            targets: self.targets.copied(target),
            selected_target: match &self.selected_target {
                Some(id) => Some(id.clone()),
                None => None,
            },
            swap_all: self.swap_all,
            swap_all_sources: copy_set(&self.swap_all_sources),
            swap_all_merged: copy_set(&self.swap_all_merged),
        };
        proof {
            assert forall|key: Seq<char>| #[trigger] self.sources@.dom().contains(
                key,
            ) implies r@.sources[key] == self@.sources[key] by {}
            assert forall|key: Seq<char>| #[trigger] self.merged@.dom().contains(
                key,
            ) implies r@.merged[key] == self@.merged[key] by {}
            assert forall|key: Seq<char>| #[trigger] self.targets@.dom().contains(
                key,
            ) implies r@.targets[key] == self@.targets[key] by {}
            assert(r@.sources =~= self@.sources);
            assert(r@.merged =~= self@.merged);
            assert(r@.targets =~= self@.targets);
        }
        r
    }

    /// No identities, no targets.
    pub fn new() -> (r: Self)
        ensures
            r@ == no_faces(),
    {
        let r = FaceWorkspace {
            sources: TextMap::new(),
            merged: TextMap::new(),
            targets: TextMap::new(),
            selected_target: None,
            swap_all: false,
            swap_all_sources: TextMap::new(),
            swap_all_merged: TextMap::new(),
        };
        proof {
            assert(r@ =~= no_faces());
        }
        r
    }

    /// The workspace that holds the given parts, such as those of a file.
    pub fn from_parts(
        sources: TextMap<SourceIdentity>,
        merged: TextMap<MergedIdentity>,
        targets: TextMap<TargetFace>,
        selected_target: Option<String>,
        swap_all: bool,
        swap_all_sources: TextSet,
        swap_all_merged: TextSet,
    ) -> (r: Self)
        ensures
            r@ == (Faces {
                sources: sources@.map_values(|s: SourceIdentity| s@),
                merged: merged@.map_values(|m: MergedIdentity| m@),
                targets: targets@.map_values(|t: TargetFace| t@),
                selected: optional_text(selected_target),
                swap_all,
                swap_sources: swap_all_sources@.dom(),
                swap_merged: swap_all_merged@.dom(),
            }),
    {
        FaceWorkspace {
            sources,
            merged,
            targets,
            selected_target,
            swap_all,
            swap_all_sources,
            swap_all_merged,
        }
    }

    /// The sources in ascending order of their ids.
    pub closed spec fn source_entries(&self) -> Seq<(Seq<char>, SourceIdentity)> {
        self.sources.pairs()
    }

    /// The merged identities in ascending order of their ids.
    pub closed spec fn merged_entries(&self) -> Seq<(Seq<char>, MergedIdentity)> {
        self.merged.pairs()
    }

    /// The targets in ascending order of their ids.
    pub closed spec fn target_entries(&self) -> Seq<(Seq<char>, TargetFace)> {
        self.targets.pairs()
    }

    /// Without content there are no entries.
    pub proof fn no_content_has_no_entries(&self)
        requires
            self@.sources.dom() == Set::<Seq<char>>::empty(),
            self@.merged.dom() == Set::<Seq<char>>::empty(),
            self@.targets.dom() == Set::<Seq<char>>::empty(),
        ensures
            self.source_entries().len() == 0,
            self.merged_entries().len() == 0,
            self.target_entries().len() == 0,
    {
        if self.source_entries().len() > 0 {
            assert(holds_key(self.sources.pairs(), self.sources.pairs()[0].0));
            assert(self@.sources.dom().contains(self.sources.pairs()[0].0));
        }
        if self.merged_entries().len() > 0 {
            assert(holds_key(self.merged.pairs(), self.merged.pairs()[0].0));
            assert(self@.merged.dom().contains(self.merged.pairs()[0].0));
        }
        if self.target_entries().len() > 0 {
            assert(holds_key(self.targets.pairs(), self.targets.pairs()[0].0));
            assert(self@.targets.dom().contains(self.targets.pairs()[0].0));
        }
    }

    /// The entries are the content.
    pub proof fn entries_are_the_view(&self)
        ensures
            self@.sources == map_of(self.source_entries()).map_values(|s: SourceIdentity| s@),
            self@.merged == map_of(self.merged_entries()).map_values(|m: MergedIdentity| m@),
            self@.targets == map_of(self.target_entries()).map_values(|t: TargetFace| t@),
    {
    }

    /// The sources in ascending order of their ids.
    pub fn sources(&self) -> (r: Vec<&SourceIdentity>)
        ensures
            ascending(self.source_entries()),
            r@.len() == self.source_entries().len(),
            forall|i: int| 0 <= i < r@.len() ==> *(#[trigger] r@[i]) == self.source_entries()[i].1,
    {
        self.sources.values()
    }

    /// The merged identities in ascending order of their ids.
    pub fn merged_identities(&self) -> (r: Vec<&MergedIdentity>)
        ensures
            ascending(self.merged_entries()),
            r@.len() == self.merged_entries().len(),
            forall|i: int| 0 <= i < r@.len() ==> *(#[trigger] r@[i]) == self.merged_entries()[i].1,
    {
        self.merged.values()
    }

    /// The targets in ascending order of their ids.
    pub fn targets(&self) -> (r: Vec<&TargetFace>)
        ensures
            ascending(self.target_entries()),
            r@.len() == self.target_entries().len(),
            forall|i: int| 0 <= i < r@.len() ==> *(#[trigger] r@[i]) == self.target_entries()[i].1,
    {
        self.targets.values()
    }

    /// The source `id`.
    pub fn source(&self, id: &str) -> (r: Option<&SourceIdentity>)
        ensures
            match r {
                Some(source) => self@.sources.dom().contains(id@) && source@
                    == self@.sources[id@],
                None => !self@.sources.dom().contains(id@),
            },
    {
        self.sources.get(id)
    }

    /// The merged identity `id`.
    pub fn merged(&self, id: &str) -> (r: Option<&MergedIdentity>)
        ensures
            match r {
                Some(merged) => self@.merged.dom().contains(id@) && merged@ == self@.merged[id@],
                None => !self@.merged.dom().contains(id@),
            },
    {
        self.merged.get(id)
    }

    /// The target `id`.
    pub fn target(&self, id: &str) -> (r: Option<&TargetFace>)
        ensures
            match r {
                Some(target) => self@.targets.dom().contains(id@) && target@
                    == self@.targets[id@],
                None => !self@.targets.dom().contains(id@),
            },
    {
        self.targets.get(id)
    }

    /// The selected target.
    pub fn selected_target(&self) -> (r: Option<&str>)
        ensures
            optional_str(r) == self@.selected,
    {
        match &self.selected_target {
            Some(id) => Some(id.as_str()),
            None => None,
        }
    }

    /// Whether all faces are swapped.
    pub fn swap_all(&self) -> (r: bool)
        ensures
            r == self@.swap_all,
    {
        self.swap_all
    }

    /// The sources that every face takes, in ascending order.
    pub fn swap_all_sources(&self) -> (r: Vec<String>)
        ensures
            texts(r@) == listed(self@.swap_sources),
    {
        let r: Vec<String> = self.swap_all_sources.keys();
        proof {
            assert(texts(r@) =~= r@.map_values(|s: String| s@));
        }
        r
    }

    /// The merged identities that every face takes, in ascending order.
    pub fn swap_all_merged(&self) -> (r: Vec<String>)
        ensures
            texts(r@) == listed(self@.swap_merged),
    {
        let r: Vec<String> = self.swap_all_merged.keys();
        proof {
            assert(texts(r@) =~= r@.map_values(|s: String| s@));
        }
        r
    }

    /// Replaces the embeddings of a source.
    pub fn set_source_embeddings(&mut self, id: &str, embeddings: EmbeddingStore) -> (r: Result<
        (),
        FaceWorkspaceError,
    >)
        ensures
            embeddings_given(old(self)@, final(self)@, id@, embedded(embeddings), r),
            old(self)@.intact() ==> final(self)@.intact(),
    {
        if let Err(e) = validate_store(&embeddings) {
            return Err(e);
        }
        match self.sources.remove(id) {
            None => {
                proof {
                    assert(self@ =~= old(self)@);
                }
                Err(FaceWorkspaceError::UnknownSource(id.to_owned()))
            },
            Some(source) => {
                let updated = SourceIdentity { embeddings, ..source };
                let _ = self.sources.insert(id.to_owned(), updated);
                proof {
                    assert(self@.sources =~= old(self)@.sources.insert(id@, updated@));
                }
                Ok(())
            },
        }
    }

    /// Whether all faces are swapped, from now on. No target is selected where they are.
    pub fn set_swap_all(&mut self, enabled: bool)
        ensures
            final(self)@ == (Faces {
                swap_all: enabled,
                selected: if enabled {
                    None
                } else {
                    old(self)@.selected
                },
                ..old(self)@
            }),
            old(self)@.intact() ==> final(self)@.intact(),
    {
        self.swap_all = enabled;
        if enabled {
            self.selected_target = None;
        }
    }

    /// Selects a target, so that only its face is swapped.
    pub fn select_target(&mut self, id: &str) -> (r: Result<(), FaceWorkspaceError>)
        ensures
            target_selected(old(self)@, final(self)@, id@, r),
            old(self)@.intact() ==> final(self)@.intact(),
    {
        if !self.targets.contains_key(id) {
            return Err(FaceWorkspaceError::UnknownTarget(id.to_owned()));
        }
        self.selected_target = Some(id.to_owned());
        self.swap_all = false;
        Ok(())
    }

    /// Adds an identity with its embeddings.
    pub fn add_source(
        &mut self,
        id: String,
        name: String,
        media_id: Option<MediaId>,
        embeddings: EmbeddingStore,
    ) -> (r: Result<(), FaceWorkspaceError>)
        ensures
            match r {
                Ok(()) => {
                    &&& sound_store(embedded(embeddings))
                    &&& !old(self)@.names_identity(id@)
                    &&& final(self)@ == (Faces {
                        sources: old(self)@.sources.insert(
                            id@,
                            Source {
                                id: id@,
                                name: name@,
                                media_id,
                                embeddings: embedded(embeddings),
                            },
                        ),
                        ..old(self)@
                    })
                },
                Err(e) => final(self)@ == old(self)@ && if sound_store(embedded(embeddings)) {
                    &&& old(self)@.names_identity(id@)
                    &&& e matches FaceWorkspaceError::DuplicateIdentity(given) && given@ == id@
                } else {
                    store_refusal(e, embedded(embeddings))
                },
            },
            old(self)@.intact() ==> final(self)@.intact(),
    {
        if let Err(e) = validate_store(&embeddings) {
            return Err(e);
        }
        if self.sources.contains_key(id.as_str()) || self.merged.contains_key(id.as_str()) {
            return Err(FaceWorkspaceError::DuplicateIdentity(id));
        }
        let source = SourceIdentity { id: id.clone(), name, media_id, embeddings };
        let _ = self.sources.insert(id, source);
        proof {
            assert(self@.sources =~= old(self)@.sources.insert(id@, source@));
        }
        Ok(())
    }

    /// Adds an identity whose embeddings are not known yet.
    pub fn add_pending_source(
        &mut self,
        id: String,
        name: String,
        media_id: Option<MediaId>,
    ) -> (r: Result<(), FaceWorkspaceError>)
        ensures
            pending_added(old(self)@, final(self)@, id@, name@, media_id, r),
            old(self)@.intact() ==> final(self)@.intact(),
    {
        if self.sources.contains_key(id.as_str()) || self.merged.contains_key(id.as_str()) {
            return Err(FaceWorkspaceError::DuplicateIdentity(id));
        }
        let source = SourceIdentity { id: id.clone(), name, media_id, embeddings: TextMap::new() };
        let _ = self.sources.insert(id, source);
        proof {
            assert(source@.embeddings =~= Map::<Seq<char>, Seq<Single>>::empty());
            assert(self@.sources =~= old(self)@.sources.insert(id@, source@));
        }
        Ok(())
    }

    /// Adds a target face.
    pub fn add_target(
        &mut self,
        id: String,
        media_id: Option<MediaId>,
        embeddings: EmbeddingStore,
        catalog: &[ControlSpec],
    ) -> (r: Result<(), FaceWorkspaceError>)
        ensures
            target_added(old(self)@, final(self)@, id@, media_id, embedded(embeddings), None, catalog@, r),
            old(self)@.intact() ==> final(self)@.intact(),
    {
        self.add_target_with_crop(id, media_id, embeddings, None, catalog)
    }

    /// Adds a target face with its picture. Its controls have their defaults. It is selected where
    /// no other is and not all faces are swapped.
    pub fn add_target_with_crop(
        &mut self,
        id: String,
        media_id: Option<MediaId>,
        embeddings: EmbeddingStore,
        crop: Option<FaceCrop>,
        catalog: &[ControlSpec],
    ) -> (r: Result<(), FaceWorkspaceError>)
        ensures
            target_added(old(self)@, final(self)@, id@, media_id, embedded(embeddings), optional_crop(crop), catalog@, r),
            old(self)@.intact() ==> final(self)@.intact(),
    {
        if let Err(e) = validate_store(&embeddings) {
            return Err(e);
        }
        if self.targets.contains_key(id.as_str()) {
            return Err(FaceWorkspaceError::DuplicateTarget(id));
        }
        match ControlState::from_catalog(catalog) {
            Err(e) => Err(FaceWorkspaceError::Controls(e)),
            Ok(controls) => {
                let target = TargetFace {
                    id: id.clone(),
                    media_id,
                    embeddings,
                    crop,
                    assigned_sources: TextMap::new(),
                    assigned_merged: TextMap::new(),
                    assigned_embedding_cache: TextMap::new(),
                    controls,
                };
                let ghost added = target@;
                let _ = self.targets.insert(id.clone(), target);
                if self.selected_target.is_none() && !self.swap_all {
                    self.selected_target = Some(id);
                }
                proof {
                    assert(added.cache =~= Map::<Seq<char>, Seq<Single>>::empty());
                    assert(added =~= new_target(
                        id@,
                        media_id,
                        embedded(embeddings),
                        optional_crop(crop),
                        catalog@,
                    ));
                    assert(self@.targets =~= old(self)@.targets.insert(id@, added));
                }
                Ok(())
            },
        }
    }

    /// Adds an identity that was loaded.
    pub fn add_merged_store(&mut self, id: String, name: String, embeddings: EmbeddingStore) -> (r:
        Result<(), FaceWorkspaceError>)
        ensures
            store_added(old(self)@, final(self)@, id@, name@, embedded(embeddings), r),
            old(self)@.intact() ==> final(self)@.intact(),
    {
        if let Err(e) = validate_store(&embeddings) {
            return Err(e);
        }
        if self.sources.contains_key(id.as_str()) || self.merged.contains_key(id.as_str()) {
            return Err(FaceWorkspaceError::DuplicateIdentity(id));
        }
        let merged = MergedIdentity { id: id.clone(), name, source_ids: Vec::new(), embeddings };
        let ghost added = merged@;
        let _ = self.merged.insert(id, merged);
        proof {
            assert(added.source_ids =~= Seq::<Seq<char>>::empty());
            assert(self@.merged =~= old(self)@.merged.insert(id@, added));
        }
        Ok(())
    }
}

/// The outcome of replacing the embeddings of a source.
pub open spec fn embeddings_given(
    before: Faces,
    after: Faces,
    id: Seq<char>,
    embeddings: Map<Seq<char>, Seq<Single>>,
    r: Result<(), FaceWorkspaceError>,
) -> bool {
    if !sound_store(embeddings) {
        &&& after == before
        &&& r matches Err(e) && store_refusal(e, embeddings)
    } else if !before.sources.dom().contains(id) {
        &&& after == before
        &&& r matches Err(FaceWorkspaceError::UnknownSource(name)) && name@ == id
    } else {
        &&& r is Ok
        &&& after == (Faces {
            sources: before.sources.insert(id, Source { embeddings, ..before.sources[id] }),
            ..before
        })
    }
}

/// The outcome of selecting a target.
pub open spec fn target_selected(
    before: Faces,
    after: Faces,
    id: Seq<char>,
    r: Result<(), FaceWorkspaceError>,
) -> bool {
    if before.targets.dom().contains(id) {
        r is Ok && after == (Faces { selected: Some(id), swap_all: false, ..before })
    } else {
        &&& after == before
        &&& r matches Err(FaceWorkspaceError::UnknownTarget(name)) && name@ == id
    }
}

/// The outcome of adding an identity whose embeddings are not known yet.
pub open spec fn pending_added(
    before: Faces,
    after: Faces,
    id: Seq<char>,
    name: Seq<char>,
    media_id: Option<MediaId>,
    r: Result<(), FaceWorkspaceError>,
) -> bool {
    if before.names_identity(id) {
        &&& after == before
        &&& r matches Err(FaceWorkspaceError::DuplicateIdentity(given)) && given@ == id
    } else {
        &&& r is Ok
        &&& after == (Faces {
            sources: before.sources.insert(
                id,
                Source { id, name, media_id, embeddings: Map::empty() },
            ),
            ..before
        })
    }
}

/// The outcome of adding an identity that was loaded.
pub open spec fn store_added(
    before: Faces,
    after: Faces,
    id: Seq<char>,
    name: Seq<char>,
    embeddings: Map<Seq<char>, Seq<Single>>,
    r: Result<(), FaceWorkspaceError>,
) -> bool {
    if !sound_store(embeddings) {
        &&& after == before
        &&& r matches Err(e) && store_refusal(e, embeddings)
    } else if before.names_identity(id) {
        &&& after == before
        &&& r matches Err(FaceWorkspaceError::DuplicateIdentity(given)) && given@ == id
    } else {
        &&& r is Ok
        &&& after == (Faces {
            merged: before.merged.insert(
                id,
                Merged { id, name, source_ids: Seq::empty(), embeddings },
            ),
            ..before
        })
    }
}

/// A target face as it is added.
pub open spec fn new_target(
    id: Seq<char>,
    media_id: Option<MediaId>,
    embeddings: Map<Seq<char>, Seq<Single>>,
    crop: Option<Crop>,
    catalog: Seq<ControlSpec>,
) -> Target {
    Target {
        id,
        media_id,
        embeddings,
        crop,
        sources: Set::empty(),
        merged: Set::empty(),
        cache: Map::empty(),
        controls: defaults(catalog, catalog.len()),
    }
}

/// The outcome of adding a target face.
pub open spec fn target_added(
    before: Faces,
    after: Faces,
    id: Seq<char>,
    media_id: Option<MediaId>,
    embeddings: Map<Seq<char>, Seq<Single>>,
    crop: Option<Crop>,
    catalog: Seq<ControlSpec>,
    r: Result<(), FaceWorkspaceError>,
) -> bool {
    match r {
        Ok(()) => {
            &&& sound_store(embeddings)
            &&& !before.targets.dom().contains(id)
            &&& defaults_given(catalog, Ok(defaults(catalog, catalog.len())))
            &&& after == (Faces {
                targets: before.targets.insert(
                    id,
                    new_target(id, media_id, embeddings, crop, catalog),
                ),
                selected: if before.selected is None && !before.swap_all {
                    Some(id)
                } else {
                    before.selected
                },
                ..before
            })
        },
        Err(e) => after == before && if !sound_store(embeddings) {
            store_refusal(e, embeddings)
        } else if before.targets.dom().contains(id) {
            e matches FaceWorkspaceError::DuplicateTarget(given) && given@ == id
        } else {
            e matches FaceWorkspaceError::Controls(inner) && defaults_given(catalog, Err(inner))
        },
    }
}


/// The first of `ids` that is not a source.
pub open spec fn first_unknown(faces: Faces, ids: Seq<Seq<char>>, i: int) -> bool {
    &&& 0 <= i < ids.len()
    &&& !faces.sources.dom().contains(ids[i])
    &&& forall|j: int| 0 <= j < i ==> faces.sources.dom().contains(#[trigger] ids[j])
}

/// The outcome of merging sources into an identity.
pub open spec fn merged_created<F: Fn(Vec<Single>) -> Single, G: Fn(Single, Single) -> Single>(
    before: Faces,
    after: Faces,
    id: Seq<char>,
    name: Seq<char>,
    source_ids: Seq<Seq<char>>,
    method: EmbeddingMergeMethod,
    mean: F,
    midpoint: G,
    r: Result<(), FaceWorkspaceError>,
) -> bool {
    if before.names_identity(id) {
        &&& after == before
        &&& r matches Err(FaceWorkspaceError::DuplicateIdentity(given)) && given@ == id
    } else if source_ids.len() == 0 {
        &&& after == before
        &&& r matches Err(FaceWorkspaceError::EmptySelection)
    } else if exists|i: int| first_unknown(before, source_ids, i) {
        &&& after == before
        &&& exists|i: int| #[trigger]
            first_unknown(before, source_ids, i) && (r matches Err(
                FaceWorkspaceError::UnknownSource(given),
            ) && given@ == source_ids[i])
    } else {
        exists|outcome: Result<EmbeddingStore, FaceWorkspaceError>|
            {
                &&& #[trigger] merge_result(
                    before.source_stores(source_ids),
                    method,
                    EvenMedian::Average,
                    mean,
                    midpoint,
                    outcome,
                )
                &&& match outcome {
                    Err(e) => after == before && r == Err::<(), FaceWorkspaceError>(e),
                    Ok(store) => r is Ok && after == (Faces {
                        merged: before.merged.insert(
                            id,
                            Merged { id, name, source_ids, embeddings: embedded(store) },
                        ),
                        ..before
                    }),
                }
            }
    }
}

/// The outcome of assigning an identity, or taking the assignment back.
pub open spec fn source_assigned(
    before: Faces,
    after: Faces,
    target: Option<Seq<char>>,
    source: Seq<char>,
    assigned: bool,
    r: Result<(), FaceWorkspaceError>,
) -> bool {
    if !before.sources.dom().contains(source) {
        &&& after == before
        &&& r matches Err(FaceWorkspaceError::UnknownSource(given)) && given@ == source
    } else if target matches Some(id) && !before.targets.dom().contains(id) {
        &&& after == before
        &&& r matches Err(FaceWorkspaceError::UnknownTarget(given)) && Some(given@) == target
    } else {
        let ids = before.assigned_sources(target);
        &&& r is Ok
        &&& after == before.with_sources(
            target,
            if assigned {
                ids.insert(source)
            } else {
                ids.remove(source)
            },
        )
    }
}

/// The outcome of assigning a merged identity, or taking the assignment back.
pub open spec fn merged_assigned(
    before: Faces,
    after: Faces,
    target: Option<Seq<char>>,
    merged: Seq<char>,
    assigned: bool,
    r: Result<(), FaceWorkspaceError>,
) -> bool {
    if !before.merged.dom().contains(merged) {
        &&& after == before
        &&& r matches Err(FaceWorkspaceError::UnknownMerged(given)) && given@ == merged
    } else if target matches Some(id) && !before.targets.dom().contains(id) {
        &&& after == before
        &&& r matches Err(FaceWorkspaceError::UnknownTarget(given)) && Some(given@) == target
    } else {
        let ids = before.assigned_merged(target);
        &&& r is Ok
        &&& after == before.with_merged(
            target,
            if assigned {
                ids.insert(merged)
            } else {
                ids.remove(merged)
            },
        )
    }
}

/// Stores that follow others are embedded after them.
proof fn embedded_grows(stores: Seq<&EmbeddingStore>, store: &EmbeddingStore)
    ensures
        all_embedded(stores.push(store)) == all_embedded(stores).push(embedded(*store)),
{
    assert(all_embedded(stores.push(store)) =~= all_embedded(stores).push(embedded(*store)));
}

impl FaceWorkspace {
    /// Merges sources into an identity.
    pub fn create_merged<F: Fn(Vec<Single>) -> Single, G: Fn(Single, Single) -> Single>(
        &mut self,
        id: String,
        name: String,
        source_ids: &Vec<String>,
        method: EmbeddingMergeMethod,
        mean: &F,
        midpoint: &G,
    ) -> (r: Result<(), FaceWorkspaceError>)
        requires
            forall|v: Vec<Single>| call_requires(mean, (v,)),
            forall|a: Single, b: Single| call_requires(midpoint, (a, b)),
        ensures
            merged_created(
                old(self)@,
                final(self)@,
                id@,
                name@,
                texts(source_ids@),
                method,
                *mean,
                *midpoint,
                r,
            ),
            old(self)@.intact() ==> final(self)@.intact(),
    {
        if self.sources.contains_key(id.as_str()) || self.merged.contains_key(id.as_str()) {
            return Err(FaceWorkspaceError::DuplicateIdentity(id));
        }
        if source_ids.len() == 0 {
            return Err(FaceWorkspaceError::EmptySelection);
        }
        let ghost ids = texts(source_ids@);
        let ghost faces = self@;
        let mut stores: Vec<&EmbeddingStore> = Vec::new();
        let mut i: usize = 0;
        proof {
            assert(ids.take(0) =~= Seq::<Seq<char>>::empty());
            assert(all_embedded(stores@) =~= faces.source_stores(ids.take(0)));
        }
        while i < source_ids.len()
            invariant
                i <= source_ids.len(),
                ids == texts(source_ids@),
                ids.len() > 0,
                *self == *old(self),
                faces == self@,
                !faces.names_identity(id@),
                all_embedded(stores@) == faces.source_stores(ids.take(i as int)),
                forall|j: int| 0 <= j < i ==> faces.sources.dom().contains(#[trigger] ids[j]),
            decreases source_ids.len() - i,
        {
            let source_id: &String = &source_ids[i];
            assert(ids[i as int] == source_id@);
            match self.sources.get(source_id.as_str()) {
                None => {
                    assert(first_unknown(faces, ids, i as int));
                    return Err(FaceWorkspaceError::UnknownSource(source_id.clone()));
                },
                Some(source) => {
                    proof {
                        embedded_grows(stores@, &source.embeddings);
                        assert(ids.take(i + 1).drop_last() =~= ids.take(i as int));
                        assert(ids.take(i + 1).last() == ids[i as int]);
                    }
                    stores.push(&source.embeddings);
                },
            }
            i = i + 1;
        }
        proof {
            assert(ids.take(ids.len() as int) =~= ids);
            assert(forall|k: int| !first_unknown(faces, ids, k));
        }
        let outcome = merge_stores(&stores, method, EvenMedian::Average, mean, midpoint);
        assert(merge_result(
            faces.source_stores(ids),
            method,
            EvenMedian::Average,
            *mean,
            *midpoint,
            outcome,
        ));
        match outcome {
            Err(e) => Err(e),
            Ok(embeddings) => {
                let merged = MergedIdentity {
                    id: id.clone(),
                    name,
                    source_ids: copy_texts(source_ids),
                    embeddings,
                };
                let ghost added = merged@;
                let _ = self.merged.insert(id, merged);
                proof {
                    assert(self@.merged =~= faces.merged.insert(id@, added));
                    if faces.intact() {
                        let after = self@;
                        assert forall|key: Seq<char>, source: Seq<char>|
                            #![trigger after.merged[key].source_ids.contains(source)]
                            after.merged.dom().contains(key)
                                && after.merged[key].source_ids.contains(
                                source,
                            ) implies after.sources.dom().contains(source) by {
                            if key == id@ {
                                let k = choose|k: int| 0 <= k < ids.len() && ids[k] == source;
                                assert(faces.sources.dom().contains(ids[k]));
                            } else {
                                assert(faces.merged[key].source_ids.contains(source));
                            }
                        }
                    }
                }
                Ok(())
            },
        }
    }

    /// Assigns a source to a target, or takes the assignment back.
    pub fn assign_source(&mut self, target_id: &str, source_id: &str, assigned: bool) -> (r: Result<
        (),
        FaceWorkspaceError,
    >)
        ensures
            source_assigned(old(self)@, final(self)@, Some(target_id@), source_id@, assigned, r),
            old(self)@.intact() ==> final(self)@.intact(),
    {
        self.set_source_assignment(Some(target_id), source_id, assigned)
    }

    /// Assigns a source to a target, or to all faces, or takes the assignment back.
    pub fn set_source_assignment(
        &mut self,
        target_id: Option<&str>,
        source_id: &str,
        assigned: bool,
    ) -> (r: Result<(), FaceWorkspaceError>)
        ensures
            source_assigned(
                old(self)@,
                final(self)@,
                optional_str(target_id),
                source_id@,
                assigned,
                r,
            ),
            old(self)@.intact() ==> final(self)@.intact(),
    {
        if !self.sources.contains_key(source_id) {
            return Err(FaceWorkspaceError::UnknownSource(source_id.to_owned()));
        }
        match target_id {
            None => {
                set_membership(&mut self.swap_all_sources, source_id, assigned);
                Ok(())
            },
            Some(id) => match self.targets.remove(id) {
                None => {
                    proof {
                        assert(self@ =~= old(self)@);
                    }
                    Err(FaceWorkspaceError::UnknownTarget(id.to_owned()))
                },
                Some(mut target) => {
                    let ghost before = target@;
                    set_membership(&mut target.assigned_sources, source_id, assigned);
                    let ghost after = target@;
                    let _ = self.targets.insert(id.to_owned(), target);
                    proof {
                        assert(self@.targets =~= old(self)@.targets.insert(id@, after));
                    }
                    Ok(())
                },
            },
        }
    }

    /// Assigns a merged identity to a target, or takes the assignment back.
    pub fn assign_merged(&mut self, target_id: &str, merged_id: &str, assigned: bool) -> (r: Result<
        (),
        FaceWorkspaceError,
    >)
        ensures
            merged_assigned(old(self)@, final(self)@, Some(target_id@), merged_id@, assigned, r),
            old(self)@.intact() ==> final(self)@.intact(),
    {
        self.set_merged_assignment(Some(target_id), merged_id, assigned)
    }

    /// Assigns a merged identity to a target, or to all faces, or takes the assignment back.
    pub fn set_merged_assignment(
        &mut self,
        target_id: Option<&str>,
        merged_id: &str,
        assigned: bool,
    ) -> (r: Result<(), FaceWorkspaceError>)
        ensures
            merged_assigned(
                old(self)@,
                final(self)@,
                optional_str(target_id),
                merged_id@,
                assigned,
                r,
            ),
            old(self)@.intact() ==> final(self)@.intact(),
    {
        if !self.merged.contains_key(merged_id) {
            return Err(FaceWorkspaceError::UnknownMerged(merged_id.to_owned()));
        }
        match target_id {
            None => {
                set_membership(&mut self.swap_all_merged, merged_id, assigned);
                Ok(())
            },
            Some(id) => match self.targets.remove(id) {
                None => {
                    proof {
                        assert(self@ =~= old(self)@);
                    }
                    Err(FaceWorkspaceError::UnknownTarget(id.to_owned()))
                },
                Some(mut target) => {
                    set_membership(&mut target.assigned_merged, merged_id, assigned);
                    let ghost after = target@;
                    let _ = self.targets.insert(id.to_owned(), target);
                    proof {
                        assert(self@.targets =~= old(self)@.targets.insert(id@, after));
                    }
                    Ok(())
                },
            },
        }
    }

    /// Whether a source is assigned to a target, or to all faces.
    pub fn source_is_assigned(&self, target_id: Option<&str>, source_id: &str) -> (r: bool)
        ensures
            r == self@.assigned_sources(optional_str(target_id)).contains(source_id@),
    {
        match target_id {
            None => self.swap_all_sources.contains_key(source_id),
            Some(id) => match self.targets.get(id) {
                Some(target) => target.assigned_sources.contains_key(source_id),
                None => false,
            },
        }
    }

    /// Whether a merged identity is assigned to a target, or to all faces.
    pub fn merged_is_assigned(&self, target_id: Option<&str>, merged_id: &str) -> (r: bool)
        ensures
            r == self@.assigned_merged(optional_str(target_id)).contains(merged_id@),
    {
        match target_id {
            None => self.swap_all_merged.contains_key(merged_id),
            Some(id) => match self.targets.get(id) {
                Some(target) => target.assigned_merged.contains_key(merged_id),
                None => false,
            },
        }
    }

    /// Whether anything is assigned to a target, or to all faces.
    pub fn has_assignment(&self, target_id: Option<&str>) -> (r: bool)
        ensures
            r == self@.assigns(optional_str(target_id)),
    {
        match target_id {
            None => !self.swap_all_sources.is_empty() || !self.swap_all_merged.is_empty(),
            Some(id) => match self.targets.get(id) {
                Some(target) => !target.assigned_sources.is_empty()
                    || !target.assigned_merged.is_empty(),
                None => false,
            },
        }
    }

    /// The embeddings of the given identities that exist.
    fn stores_of<'a>(&'a self, sources: &TextSet, merged: &TextSet) -> (r: Vec<&'a EmbeddingStore>)
        ensures
            all_embedded(r@) == self@.source_stores(listed(sources@.dom()))
                + self@.merged_stores(listed(merged@.dom())),
    {
        let mut stores: Vec<&EmbeddingStore> = Vec::new();
        let source_ids: Vec<String> = sources.keys();
        let ghost ids = listed(sources@.dom());
        let ghost faces = self@;
        let mut i: usize = 0;
        proof {
            assert(ids.take(0) =~= Seq::<Seq<char>>::empty());
            assert(all_embedded(stores@) =~= faces.source_stores(ids.take(0)));
        }
        while i < source_ids.len()
            invariant
                i <= source_ids.len(),
                ids == texts(source_ids@),
                faces == self@,
                all_embedded(stores@) == faces.source_stores(ids.take(i as int)),
            decreases source_ids.len() - i,
        {
            proof {
                assert(ids[i as int] == source_ids@[i as int]@);
                assert(ids.take(i + 1).drop_last() =~= ids.take(i as int));
                assert(ids.take(i + 1).last() == ids[i as int]);
            }
            if let Some(source) = self.sources.get(source_ids[i].as_str()) {
                proof {
                    embedded_grows(stores@, &source.embeddings);
                }
                stores.push(&source.embeddings);
            }
            i = i + 1;
        }
        let ghost first = all_embedded(stores@);
        let merged_ids: Vec<String> = merged.keys();
        let ghost others = listed(merged@.dom());
        let mut i: usize = 0;
        proof {
            assert(ids.take(ids.len() as int) =~= ids);
            assert(others.take(0) =~= Seq::<Seq<char>>::empty());
            assert(first + faces.merged_stores(others.take(0)) =~= first);
        }
        while i < merged_ids.len()
            invariant
                i <= merged_ids.len(),
                others == texts(merged_ids@),
                faces == self@,
                all_embedded(stores@) == first + faces.merged_stores(others.take(i as int)),
            decreases merged_ids.len() - i,
        {
            proof {
                assert(others[i as int] == merged_ids@[i as int]@);
                assert(others.take(i + 1).drop_last() =~= others.take(i as int));
                assert(others.take(i + 1).last() == others[i as int]);
            }
            if let Some(identity) = self.merged.get(merged_ids[i].as_str()) {
                proof {
                    embedded_grows(stores@, &identity.embeddings);
                    assert(first + faces.merged_stores(others.take(i + 1)) =~= (first
                        + faces.merged_stores(others.take(i as int))).push(
                        embedded(identity.embeddings),
                    ));
                }
                stores.push(&identity.embeddings);
            }
            i = i + 1;
        }
        proof {
            assert(others.take(others.len() as int) =~= others);
        }
        stores
    }

    /// The embedding that replaces the face of a target. Where no assigned identity exists, it is
    /// the one that was kept for the target.
    pub fn assigned_embedding<F: Fn(Vec<Single>) -> Single, G: Fn(Single, Single) -> Single>(
        &self,
        target_id: &str,
        model: &str,
        method: EmbeddingMergeMethod,
        mean: &F,
        midpoint: &G,
    ) -> (r: Result<Vec<Single>, FaceWorkspaceError>)
        requires
            forall|v: Vec<Single>| call_requires(mean, (v,)),
            forall|a: Single, b: Single| call_requires(midpoint, (a, b)),
        ensures
            embedding_assigned(self@, target_id@, model@, method, *mean, *midpoint, r),
    {
        match self.targets.get(target_id) {
            None => Err(FaceWorkspaceError::UnknownTarget(target_id.to_owned())),
            Some(target) => {
                let stores: Vec<&EmbeddingStore> = self.stores_of(
                    &target.assigned_sources,
                    &target.assigned_merged,
                );
                assert(all_embedded(stores@) == self@.assigned_stores(Some(target_id@)));
                if stores.len() == 0 {
                    if let Some(cached) = target.assigned_embedding_cache.get(model) {
                        return Ok(copy_values(cached));
                    }
                }
                Self::merged_embedding(&stores, model, method, mean, midpoint)
            },
        }
    }

    /// The embedding that replaces all faces.
    pub fn swap_all_embedding<F: Fn(Vec<Single>) -> Single, G: Fn(Single, Single) -> Single>(
        &self,
        model: &str,
        method: EmbeddingMergeMethod,
        mean: &F,
        midpoint: &G,
    ) -> (r: Result<Vec<Single>, FaceWorkspaceError>)
        requires
            forall|v: Vec<Single>| call_requires(mean, (v,)),
            forall|a: Single, b: Single| call_requires(midpoint, (a, b)),
        ensures
            chosen_embedding(
                self@.assigned_stores(None),
                model@,
                method,
                *mean,
                *midpoint,
                r,
            ),
    {
        let stores: Vec<&EmbeddingStore> = self.stores_of(
            &self.swap_all_sources,
            &self.swap_all_merged,
        );
        Self::merged_embedding(&stores, model, method, mean, midpoint)
    }

    fn merged_embedding<F: Fn(Vec<Single>) -> Single, G: Fn(Single, Single) -> Single>(
        stores: &Vec<&EmbeddingStore>,
        model: &str,
        method: EmbeddingMergeMethod,
        mean: &F,
        midpoint: &G,
    ) -> (r: Result<Vec<Single>, FaceWorkspaceError>)
        requires
            forall|v: Vec<Single>| call_requires(mean, (v,)),
            forall|a: Single, b: Single| call_requires(midpoint, (a, b)),
        ensures
            chosen_embedding(all_embedded(stores@), model@, method, *mean, *midpoint, r),
    {
        let merged = merge_stores(stores, method, EvenMedian::Lower, mean, midpoint);
        assert(merge_result(
            all_embedded(stores@),
            method,
            EvenMedian::Lower,
            *mean,
            *midpoint,
            merged,
        ));
        match merged {
            Err(e) => Err(e),
            Ok(store) => match store.get(model) {
                Some(values) => Ok(copy_values(values)),
                None => Err(FaceWorkspaceError::MissingModel(model.to_owned())),
            },
        }
    }
}


/// The ids of those among the targets `keys` that come from a medium, in their order.
pub open spec fn ids_among(
    targets: Map<Seq<char>, Target>,
    keys: Seq<Seq<char>>,
    media_id: MediaId,
) -> Seq<Seq<char>>
    decreases keys.len(),
{
    if keys.len() == 0 {
        Seq::empty()
    } else {
        let before = ids_among(targets, keys.drop_last(), media_id);
        let last = targets[keys.last()];
        if last.media_id == Some(media_id) {
            before.push(last.id)
        } else {
            before
        }
    }
}

/// The ids of the targets that come from a medium, in ascending order of their keys.
pub open spec fn ids_for_media(targets: Map<Seq<char>, Target>, media_id: MediaId) -> Seq<
    Seq<char>,
> {
    ids_among(targets, listed(targets.dom()), media_id)
}

/// `media_id` is this medium.
fn is_medium(media_id: Option<MediaId>, medium: MediaId) -> (r: bool)
    ensures
        r == (media_id == Some(medium)),
{
    match media_id {
        Some(id) => id.0 == medium.0,
        None => false,
    }
}

impl FaceWorkspace {
    /// Replaces the controls of a target. Gives back whether there is such a target.
    pub fn set_target_controls(&mut self, id: &str, controls: ControlState) -> (r: bool)
        ensures
            r == old(self)@.targets.dom().contains(id@),
            final(self)@ == if r {
                Faces {
                    targets: old(self)@.targets.insert(
                        id@,
                        Target { controls: controls@, ..old(self)@.targets[id@] },
                    ),
                    ..old(self)@
                }
            } else {
                old(self)@
            },
            old(self)@.intact() ==> final(self)@.intact(),
    {
        match self.targets.remove(id) {
            None => {
                proof {
                    assert(self@ =~= old(self)@);
                }
                false
            },
            Some(target) => {
                let updated = TargetFace { controls, ..target };
                let ghost after = updated@;
                let _ = self.targets.insert(id.to_owned(), updated);
                proof {
                    assert(self@.targets =~= old(self)@.targets.insert(id@, after));
                }
                true
            },
        }
    }

    /// Replaces the embeddings that are kept for a target. Gives back whether there is such a
    /// target.
    pub fn set_target_cache(&mut self, id: &str, cache: EmbeddingStore) -> (r: bool)
        ensures
            r == old(self)@.targets.dom().contains(id@),
            final(self)@ == if r {
                Faces {
                    targets: old(self)@.targets.insert(
                        id@,
                        Target { cache: embedded(cache), ..old(self)@.targets[id@] },
                    ),
                    ..old(self)@
                }
            } else {
                old(self)@
            },
            old(self)@.intact() ==> final(self)@.intact(),
    {
        match self.targets.remove(id) {
            None => {
                proof {
                    assert(self@ =~= old(self)@);
                }
                false
            },
            Some(target) => {
                let updated = TargetFace { assigned_embedding_cache: cache, ..target };
                let ghost after = updated@;
                let _ = self.targets.insert(id.to_owned(), updated);
                proof {
                    assert(self@.targets =~= old(self)@.targets.insert(id@, after));
                }
                true
            },
        }
    }

    /// Takes out the merged identities that were merged from the source `id`.
    fn drop_merged_from(&mut self, id: &str)
        ensures
            final(self)@ == (Faces { merged: old(self)@.merged_without(id@), ..old(self)@ }),
    {
        let keys: Vec<String> = self.merged.keys();
        let ghost before = self@.merged;
        let mut i: usize = 0;
        while i < keys.len()
            invariant
                i <= keys.len(),
                before == old(self)@.merged,
                self@ == (Faces { merged: self@.merged, ..old(self)@ }),
                forall|key: Seq<char>| #[trigger]
                    before.dom().contains(key) <==> exists|j: int|
                        0 <= j < keys@.len() && (#[trigger] keys@[j])@ == key,
                forall|key: Seq<char>| #[trigger]
                    self@.merged.dom().contains(key) ==> before.dom().contains(key)
                        && self@.merged[key] == before[key],
                forall|key: Seq<char>|
                    before.dom().contains(key) && !before[key].source_ids.contains(id@)
                        ==> #[trigger] self@.merged.dom().contains(key),
                forall|j: int|
                    0 <= j < i && before[(#[trigger] keys@[j])@].source_ids.contains(id@)
                        ==> !self@.merged.dom().contains(keys@[j]@),
            decreases keys.len() - i,
        {
            let key: &String = &keys[i];
            let built = match self.merged.get(key.as_str()) {
                Some(merged) => is_listed(&merged.source_ids, id),
                None => false,
            };
            let ghost step = self@;
            if built {
                let _ = self.merged.remove(key.as_str());
                proof {
                    assert(step.merged.dom().contains(key@));
                    assert(before[key@].source_ids.contains(id@));
                    assert(self@.merged =~= step.merged.remove(key@));
                }
            }
            i = i + 1;
        }
        proof {
            let kept = old(self)@.merged_without(id@);
            assert forall|key: Seq<char>| #[trigger] self@.merged.dom().contains(key)
                <==> kept.dom().contains(key) by {
                if self@.merged.dom().contains(key) {
                    assert(before.dom().contains(key));
                    let j = choose|j: int| 0 <= j < keys@.len() && (#[trigger] keys@[j])@ == key;
                    assert(keys@[j]@ == key);
                }
            }
            assert(self@.merged =~= kept);
        }
    }

    /// Removes a source, what was merged from it, and their assignments to targets. Gives back
    /// whether there was such a source.
    pub fn remove_source(&mut self, id: &str) -> (r: bool)
        ensures
            r == old(self)@.sources.dom().contains(id@),
            final(self)@ == if r {
                old(self)@.without_source(id@)
            } else {
                old(self)@
            },
            old(self)@.intact() && old(self)@.unused_by_swap_all(id@) ==> final(self)@.intact(),
    {
        let ghost before = self@;
        match self.sources.remove(id) {
            None => {
                proof {
                    assert(self@ =~= before);
                }
                false
            },
            Some(_) => {
                proof {
                    assert(self@.sources =~= before.sources.remove(id@));
                }
                self.drop_merged_from(id);
                let ghost kept = before.merged_without(id@);
                let ghost targets = self.targets@;
                let known: &TextMap<MergedIdentity> = &self.merged;
                assert(known@.dom() =~= kept.dom());
                let adjust = |target: TargetFace| -> (r: TargetFace)
                    ensures
                        r@ == (Target {
                            sources: target@.sources.remove(id@),
                            merged: target@.merged.intersect(known@.dom()),
                            ..target@
                        }),
                    {
                        let mut target = target;
                        let _ = target.assigned_sources.remove(id);
                        keep_known(&mut target.assigned_merged, known);
                        target
                    };
                self.targets.change_values(adjust);
                let _ = self.swap_all_sources.remove(id);
                proof {
                    assert(self@.targets =~= before.without_source(id@).targets) by {
                        assert(self@.targets.dom() =~= before.targets.dom());
                        assert forall|key: Seq<char>| #[trigger]
                            self@.targets.dom().contains(key) implies self@.targets[key]
                            == before.without_source(id@).targets[key] by {
                            assert(targets.dom().contains(key));
                            assert(before.targets[key] == targets[key]@);
                        }
                    }
                    assert(self@ =~= before.without_source(id@));
                }
                true
            },
        }
    }

    /// Removes a merged identity and its assignments. Gives back whether there was one.
    pub fn remove_merged(&mut self, id: &str) -> (r: bool)
        ensures
            r == old(self)@.merged.dom().contains(id@),
            final(self)@ == if r {
                old(self)@.without_merged(id@)
            } else {
                old(self)@
            },
            old(self)@.intact() ==> final(self)@.intact(),
    {
        let ghost before = self@;
        match self.merged.remove(id) {
            None => {
                proof {
                    assert(self@ =~= before);
                }
                false
            },
            Some(_) => {
                let ghost targets = self.targets@;
                let adjust = |target: TargetFace| -> (r: TargetFace)
                    ensures
                        r@ == (Target { merged: target@.merged.remove(id@), ..target@ }),
                    {
                        let mut target = target;
                        let _ = target.assigned_merged.remove(id);
                        target
                    };
                self.targets.change_values(adjust);
                let _ = self.swap_all_merged.remove(id);
                proof {
                    assert(self@.merged =~= before.merged.remove(id@));
                    assert(self@.targets =~= before.without_merged(id@).targets) by {
                        assert(self@.targets.dom() =~= before.targets.dom());
                        assert forall|key: Seq<char>| #[trigger]
                            self@.targets.dom().contains(key) implies self@.targets[key]
                            == before.without_merged(id@).targets[key] by {
                            assert(targets.dom().contains(key));
                            assert(before.targets[key] == targets[key]@);
                        }
                    }
                    assert(self@ =~= before.without_merged(id@));
                }
                true
            },
        }
    }

    /// Removes all merged identities and their assignments. Gives back how many there were.
    pub fn clear_merged(&mut self) -> (r: usize)
        ensures
            r == old(self).merged_entries().len(),
            r == old(self)@.merged.dom().len(),
            final(self)@ == old(self)@.without_all_merged(),
            old(self)@.intact() ==> final(self)@.intact(),
    {
        let ghost before = self@;
        let removed: usize = self.merged.len();
        proof {
            crate::ordered::map_size(self.merged.pairs());
            assert(before.merged.dom() =~= self.merged@.dom());
        }
        self.merged = TextMap::new();
        self.swap_all_merged = TextMap::new();
        let ghost targets = self.targets@;
        let adjust = |target: TargetFace| -> (r: TargetFace)
            ensures
                r@ == (Target { merged: Set::empty(), ..target@ }),
            {
                let cleared = TargetFace { assigned_merged: TextMap::new(), ..target };
                assert(cleared@.merged =~= Set::<Seq<char>>::empty());
                cleared
            };
        self.targets.change_values(adjust);
        proof {
            assert(self@.merged =~= Map::<Seq<char>, Merged>::empty());
            assert(self@.swap_merged =~= Set::<Seq<char>>::empty());
            assert(self@.targets =~= before.without_all_merged().targets) by {
                assert(self@.targets.dom() =~= before.targets.dom());
                assert forall|key: Seq<char>| #[trigger]
                    self@.targets.dom().contains(key) implies self@.targets[key]
                    == before.without_all_merged().targets[key] by {
                    assert(targets.dom().contains(key));
                    assert(before.targets[key] == targets[key]@);
                }
            }
            assert(self@ =~= before.without_all_merged());
        }
        removed
    }

    /// Removes a target. Where it was selected, the first remaining target is. Gives back whether
    /// there was such a target.
    pub fn remove_target(&mut self, id: &str) -> (r: bool)
        ensures
            r == old(self)@.targets.dom().contains(id@),
            final(self)@ == old(self)@.without_target(id@),
            old(self)@.intact() ==> final(self)@.intact(),
    {
        let ghost before = self@;
        let removed = self.targets.remove(id).is_some();
        let selected = match &self.selected_target {
            Some(selected) => same_text(selected.as_str(), id),
            None => false,
        };
        proof {
            assert(self@.targets =~= before.targets.remove(id@));
            assert(self@.targets.dom() =~= self.targets@.dom());
        }
        if selected {
            self.selected_target = match self.targets.first_key() {
                Some(key) => Some(key.clone()),
                None => None,
            };
        }
        removed
    }

    /// Removes all targets. Gives back how many there were.
    pub fn clear_targets(&mut self) -> (r: usize)
        ensures
            r == old(self).target_entries().len(),
            r == old(self)@.targets.dom().len(),
            final(self)@ == (Faces { targets: Map::empty(), selected: None, ..old(self)@ }),
            old(self)@.intact() ==> final(self)@.intact(),
    {
        let removed: usize = self.targets.len();
        proof {
            crate::ordered::map_size(self.targets.pairs());
            assert(self@.targets.dom() =~= self.targets@.dom());
        }
        self.targets = TextMap::new();
        self.selected_target = None;
        proof {
            assert(self@.targets =~= Map::<Seq<char>, Target>::empty());
        }
        removed
    }

    /// Removes the targets that come from a medium. Gives back how many there were.
    pub fn remove_targets_for_media(&mut self, media_id: MediaId) -> (r: usize)
        ensures
            ({
                let ids = ids_for_media(old(self)@.targets, media_id);
                &&& r == ids.len()
                &&& final(self)@ == old(self)@.without_targets(ids, ids.len())
            }),
            old(self)@.intact() ==> final(self)@.intact(),
    {
        let n: usize = self.targets.len();
        let ghost entries = self.target_entries();
        let ghost targets = self@.targets;
        let ghost keys = listed(targets.dom());
        proof {
            keys_are_listed(entries);
            assert(targets.dom() =~= map_of(entries).dom());
        }
        let mut removed: Vec<String> = Vec::new();
        let mut i: usize = 0;
        while i < n
            invariant
                i <= n,
                *self == *old(self),
                entries == self.target_entries(),
                ascending(entries),
                targets == self@.targets,
                n == entries.len(),
                keys == keys_of(entries),
                texts(removed@) == ids_among(targets, keys.take(i as int), media_id),
            decreases n - i,
        {
            let target: &TargetFace = self.targets.value_at(i);
            let ghost earlier = removed@;
            proof {
                entry_is_unique(entries, i as int);
                assert(keys.take(i + 1).drop_last() =~= keys.take(i as int));
                assert(keys[i as int] == entries[i as int].0);
                assert(targets[keys[i as int]] == target@);
            }
            if is_medium(target.media_id, media_id) {
                removed.push(target.id.clone());
                proof {
                    assert(texts(removed@) =~= texts(earlier).push(target.id@));
                }
            }
            i = i + 1;
        }
        proof {
            assert(keys.take(n as int) =~= keys);
        }
        let ghost ids = texts(removed@);
        let mut k: usize = 0;
        while k < removed.len()
            invariant
                k <= removed.len(),
                ids == texts(removed@),
                self@ == old(self)@.without_targets(ids, k as nat),
                old(self)@.intact() ==> self@.intact(),
            decreases removed.len() - k,
        {
            assert(ids[k as int] == removed@[k as int]@);
            let _ = self.remove_target(removed[k].as_str());
            k = k + 1;
        }
        removed.len()
    }
}


/// Something that a valid workspace fulfils.
pub ghost enum FaceCheck {
    /// The embeddings are sound, or not known yet.
    PendingStore(Map<Seq<char>, Seq<Single>>),
    /// The embeddings are sound.
    Store(Map<Seq<char>, Seq<Single>>),
    /// There is such a source.
    KnownSource(Seq<char>),
    /// There is such a merged identity.
    KnownMerged(Seq<char>),
    /// There is such a target.
    KnownTarget(Seq<char>),
    /// The controls are complete.
    Controls(ControlState),
}

impl FaceCheck {
    /// The workspace fulfils this.
    pub open spec fn passes(self, faces: Faces, catalog: Seq<ControlSpec>) -> bool {
        match self {
            FaceCheck::PendingStore(store) => store.dom() == Set::<Seq<char>>::empty()
                || sound_store(store),
            FaceCheck::Store(store) => sound_store(store),
            FaceCheck::KnownSource(id) => faces.sources.dom().contains(id),
            FaceCheck::KnownMerged(id) => faces.merged.dom().contains(id),
            FaceCheck::KnownTarget(id) => faces.targets.dom().contains(id),
            FaceCheck::Controls(controls) => complete(controls.entries(), catalog),
        }
    }

    /// `e` says that the workspace does not fulfil this.
    pub open spec fn explains(self, catalog: Seq<ControlSpec>, e: FaceWorkspaceError) -> bool {
        match self {
            FaceCheck::PendingStore(store) => store_refusal(e, store),
            FaceCheck::Store(store) => store_refusal(e, store),
            FaceCheck::KnownSource(id) => e matches FaceWorkspaceError::UnknownSource(name)
                && name@ == id,
            FaceCheck::KnownMerged(id) => e matches FaceWorkspaceError::UnknownMerged(name)
                && name@ == id,
            FaceCheck::KnownTarget(id) => e matches FaceWorkspaceError::UnknownTarget(name)
                && name@ == id,
            FaceCheck::Controls(controls) => e matches FaceWorkspaceError::Controls(inner)
                && incompleteness(inner, controls.entries(), catalog),
        }
    }
}

/// All checks pass.
pub open spec fn all_pass(
    checks: Seq<FaceCheck>,
    faces: Faces,
    catalog: Seq<ControlSpec>,
) -> bool {
    forall|i: int| 0 <= i < checks.len() ==> (#[trigger] checks[i]).passes(faces, catalog)
}

/// The outcome of checks that are made one after the other.
pub open spec fn checked(
    checks: Seq<FaceCheck>,
    faces: Faces,
    catalog: Seq<ControlSpec>,
    r: Result<(), FaceWorkspaceError>,
) -> bool {
    match r {
        Ok(()) => all_pass(checks, faces, catalog),
        Err(e) => exists|i: int|
            {
                &&& 0 <= i < checks.len()
                &&& !(#[trigger] checks[i]).passes(faces, catalog)
                &&& all_pass(checks.take(i), faces, catalog)
                &&& checks[i].explains(catalog, e)
            },
    }
}

/// Checks after others that passed.
proof fn checks_follow(
    first: Seq<FaceCheck>,
    second: Seq<FaceCheck>,
    faces: Faces,
    catalog: Seq<ControlSpec>,
    r: Result<(), FaceWorkspaceError>,
)
    requires
        checked(first, faces, catalog, Ok(())),
        checked(second, faces, catalog, r),
    ensures
        checked(first + second, faces, catalog, r),
{
    let both = first + second;
    let n = first.len();
    match r {
        Ok(()) => {
            assert forall|i: int| 0 <= i < both.len() implies (#[trigger] both[i]).passes(
                faces,
                catalog,
            ) by {
                if i < n {
                    assert(both[i] == first[i]);
                } else {
                    assert(both[i] == second[i - n]);
                }
            }
        },
        Err(e) => {
            let i = choose|i: int|
                {
                    &&& 0 <= i < second.len()
                    &&& !(#[trigger] second[i]).passes(faces, catalog)
                    &&& all_pass(second.take(i), faces, catalog)
                    &&& second[i].explains(catalog, e)
                };
            assert(both[n + i] == second[i]);
            let front = both.take(n + i);
            assert forall|j: int| 0 <= j < front.len() implies (#[trigger] front[j]).passes(
                faces,
                catalog,
            ) by {
                if j < n {
                    assert(front[j] == first[j]);
                } else {
                    assert(front[j] == second.take(i)[j - n]);
                }
            }
        },
    }
}

/// Checks that do not come to be made.
proof fn checks_stop(
    first: Seq<FaceCheck>,
    second: Seq<FaceCheck>,
    faces: Faces,
    catalog: Seq<ControlSpec>,
    e: FaceWorkspaceError,
)
    requires
        checked(first, faces, catalog, Err(e)),
    ensures
        checked(first + second, faces, catalog, Err(e)),
{
    let i = choose|i: int|
        {
            &&& 0 <= i < first.len()
            &&& !(#[trigger] first[i]).passes(faces, catalog)
            &&& all_pass(first.take(i), faces, catalog)
            &&& first[i].explains(catalog, e)
        };
    assert((first + second)[i] == first[i]);
    assert((first + second).take(i) =~= first.take(i));
}

/// One check.
proof fn check_once(
    check: FaceCheck,
    faces: Faces,
    catalog: Seq<ControlSpec>,
    r: Result<(), FaceWorkspaceError>,
)
    requires
        match r {
            Ok(()) => check.passes(faces, catalog),
            Err(e) => !check.passes(faces, catalog) && check.explains(catalog, e),
        },
    ensures
        checked(seq![check], faces, catalog, r),
{
    let checks = seq![check];
    assert(checks[0] == check);
    assert(checks.take(0) =~= Seq::<FaceCheck>::empty());
}

/// The checks of the first `n` sources.
pub open spec fn source_checks(entries: Seq<(Seq<char>, SourceIdentity)>, n: nat) -> Seq<FaceCheck>
    decreases n,
{
    if n == 0 {
        Seq::empty()
    } else {
        source_checks(entries, (n - 1) as nat) + seq![
            FaceCheck::PendingStore(entries[n - 1].1@.embeddings),
        ]
    }
}

/// The sources are known.
pub open spec fn sources_known(ids: Seq<Seq<char>>) -> Seq<FaceCheck> {
    ids.map_values(|id: Seq<char>| FaceCheck::KnownSource(id))
}

/// The merged identities are known.
pub open spec fn merged_known(ids: Seq<Seq<char>>) -> Seq<FaceCheck> {
    ids.map_values(|id: Seq<char>| FaceCheck::KnownMerged(id))
}

/// The checks of a merged identity.
pub open spec fn merged_check(merged: Merged) -> Seq<FaceCheck> {
    seq![FaceCheck::Store(merged.embeddings)] + sources_known(merged.source_ids)
}

/// The checks of the first `n` merged identities.
pub open spec fn merged_checks(entries: Seq<(Seq<char>, MergedIdentity)>, n: nat) -> Seq<FaceCheck>
    decreases n,
{
    if n == 0 {
        Seq::empty()
    } else {
        merged_checks(entries, (n - 1) as nat) + merged_check(entries[n - 1].1@)
    }
}

/// The checks of a target.
pub open spec fn target_check(target: TargetFace) -> Seq<FaceCheck> {
    seq![FaceCheck::Store(target@.embeddings)] + seq![FaceCheck::Controls(target.controls)]
        + sources_known(listed(target@.sources)) + merged_known(listed(target@.merged))
}

/// The checks of the first `n` targets.
pub open spec fn target_checks(entries: Seq<(Seq<char>, TargetFace)>, n: nat) -> Seq<FaceCheck>
    decreases n,
{
    if n == 0 {
        Seq::empty()
    } else {
        target_checks(entries, (n - 1) as nat) + target_check(entries[n - 1].1)
    }
}

/// The check of the selection.
pub open spec fn selection_check(selected: Option<Seq<char>>) -> Seq<FaceCheck> {
    match selected {
        Some(id) => seq![FaceCheck::KnownTarget(id)],
        None => Seq::empty(),
    }
}

impl FaceWorkspace {
    /// What makes the workspace valid, in the order in which it is checked.
    pub open spec fn checks(&self) -> Seq<FaceCheck> {
        source_checks(self.source_entries(), self.source_entries().len()) + merged_checks(
            self.merged_entries(),
            self.merged_entries().len(),
        ) + target_checks(self.target_entries(), self.target_entries().len()) + selection_check(
            self@.selected,
        ) + sources_known(listed(self@.swap_sources)) + merged_known(listed(self@.swap_merged))
    }

    fn check_known_sources(&self, ids: &Vec<String>, catalog: &[ControlSpec]) -> (r: Result<
        (),
        FaceWorkspaceError,
    >)
        ensures
            checked(sources_known(texts(ids@)), self@, catalog@, r),
    {
        let ghost checks = sources_known(texts(ids@));
        let mut i: usize = 0;
        while i < ids.len()
            invariant
                i <= ids.len(),
                checks == sources_known(texts(ids@)),
                all_pass(checks.take(i as int), self@, catalog@),
            decreases ids.len() - i,
        {
            assert(checks[i as int] == FaceCheck::KnownSource(ids@[i as int]@));
            if !self.sources.contains_key(ids[i].as_str()) {
                return Err(FaceWorkspaceError::UnknownSource(ids[i].clone()));
            }
            proof {
                let front = checks.take(i + 1);
                assert forall|j: int| 0 <= j < front.len() implies (#[trigger] front[j]).passes(
                    self@,
                    catalog@,
                ) by {
                    if j < i {
                        assert(front[j] == checks.take(i as int)[j]);
                    }
                }
            }
            i = i + 1;
        }
        proof {
            assert(checks.take(i as int) =~= checks);
        }
        Ok(())
    }

    fn check_known_merged(&self, ids: &Vec<String>, catalog: &[ControlSpec]) -> (r: Result<
        (),
        FaceWorkspaceError,
    >)
        ensures
            checked(merged_known(texts(ids@)), self@, catalog@, r),
    {
        let ghost checks = merged_known(texts(ids@));
        let mut i: usize = 0;
        while i < ids.len()
            invariant
                i <= ids.len(),
                checks == merged_known(texts(ids@)),
                all_pass(checks.take(i as int), self@, catalog@),
            decreases ids.len() - i,
        {
            assert(checks[i as int] == FaceCheck::KnownMerged(ids@[i as int]@));
            if !self.merged.contains_key(ids[i].as_str()) {
                return Err(FaceWorkspaceError::UnknownMerged(ids[i].clone()));
            }
            proof {
                let front = checks.take(i + 1);
                assert forall|j: int| 0 <= j < front.len() implies (#[trigger] front[j]).passes(
                    self@,
                    catalog@,
                ) by {
                    if j < i {
                        assert(front[j] == checks.take(i as int)[j]);
                    }
                }
            }
            i = i + 1;
        }
        proof {
            assert(checks.take(i as int) =~= checks);
        }
        Ok(())
    }

    fn check_sources(&self, catalog: &[ControlSpec]) -> (r: Result<(), FaceWorkspaceError>)
        ensures
            checked(
                source_checks(self.source_entries(), self.source_entries().len()),
                self@,
                catalog@,
                r,
            ),
    {
        let n: usize = self.sources.len();
        let ghost entries = self.source_entries();
        let mut i: usize = 0;
        while i < n
            invariant
                i <= n,
                n == entries.len(),
                entries == self.source_entries(),
                checked(source_checks(entries, i as nat), self@, catalog@, Ok(())),
            decreases n - i,
        {
            let source: &SourceIdentity = self.sources.value_at(i);
            let ghost check = FaceCheck::PendingStore(source@.embeddings);
            let r = if source.embeddings.is_empty() {
                Ok(())
            } else {
                validate_store(&source.embeddings)
            };
            proof {
                assert(embedded(source.embeddings).dom() =~= source.embeddings@.dom());
                check_once(check, self@, catalog@, r);
                checks_follow(source_checks(entries, i as nat), seq![check], self@, catalog@, r);
            }
            if let Err(e) = r {
                proof {
                    source_checks_stop(entries, (i + 1) as nat, n as nat, self@, catalog@, e);
                }
                return Err(e);
            }
            i = i + 1;
        }
        Ok(())
    }

    fn check_merged(&self, catalog: &[ControlSpec]) -> (r: Result<(), FaceWorkspaceError>)
        ensures
            checked(
                merged_checks(self.merged_entries(), self.merged_entries().len()),
                self@,
                catalog@,
                r,
            ),
    {
        let n: usize = self.merged.len();
        let ghost entries = self.merged_entries();
        let mut i: usize = 0;
        while i < n
            invariant
                i <= n,
                n == entries.len(),
                entries == self.merged_entries(),
                checked(merged_checks(entries, i as nat), self@, catalog@, Ok(())),
            decreases n - i,
        {
            let merged: &MergedIdentity = self.merged.value_at(i);
            let ghost store = FaceCheck::Store(merged@.embeddings);
            let first = validate_store(&merged.embeddings);
            proof {
                check_once(store, self@, catalog@, first);
            }
            let r = match first {
                Err(e) => {
                    proof {
                        checks_stop(
                            seq![store],
                            sources_known(merged@.source_ids),
                            self@,
                            catalog@,
                            e,
                        );
                    }
                    Err(e)
                },
                Ok(()) => {
                    let known = self.check_known_sources(&merged.source_ids, catalog);
                    proof {
                        checks_follow(
                            seq![store],
                            sources_known(merged@.source_ids),
                            self@,
                            catalog@,
                            known,
                        );
                    }
                    known
                },
            };
            proof {
                checks_follow(
                    merged_checks(entries, i as nat),
                    merged_check(merged@),
                    self@,
                    catalog@,
                    r,
                );
            }
            if let Err(e) = r {
                proof {
                    merged_checks_stop(entries, (i + 1) as nat, n as nat, self@, catalog@, e);
                }
                return Err(e);
            }
            i = i + 1;
        }
        Ok(())
    }

    fn check_target(&self, target: &TargetFace, catalog: &[ControlSpec]) -> (r: Result<
        (),
        FaceWorkspaceError,
    >)
        ensures
            checked(target_check(*target), self@, catalog@, r),
    {
        let ghost store = seq![FaceCheck::Store(target@.embeddings)];
        let ghost controls = seq![FaceCheck::Controls(target.controls)];
        let ghost sources = sources_known(listed(target@.sources));
        let ghost merged = merged_known(listed(target@.merged));
        let r = validate_store(&target.embeddings);
        proof {
            check_once(FaceCheck::Store(target@.embeddings), self@, catalog@, r);
        }
        if let Err(e) = r {
            proof {
                checks_stop(store, controls, self@, catalog@, e);
                checks_stop(store + controls, sources, self@, catalog@, e);
                checks_stop(store + controls + sources, merged, self@, catalog@, e);
            }
            return Err(e);
        }
        let r = match target.controls.validate_against(catalog) {
            Ok(()) => Ok(()),
            Err(e) => Err(FaceWorkspaceError::Controls(e)),
        };
        proof {
            check_once(FaceCheck::Controls(target.controls), self@, catalog@, r);
            checks_follow(store, controls, self@, catalog@, r);
        }
        if let Err(e) = r {
            proof {
                checks_stop(store + controls, sources, self@, catalog@, e);
                checks_stop(store + controls + sources, merged, self@, catalog@, e);
            }
            return Err(e);
        }
        let source_ids: Vec<String> = target.assigned_sources.keys();
        let r = self.check_known_sources(&source_ids, catalog);
        proof {
            checks_follow(store + controls, sources, self@, catalog@, r);
        }
        if let Err(e) = r {
            proof {
                checks_stop(store + controls + sources, merged, self@, catalog@, e);
            }
            return Err(e);
        }
        let merged_ids: Vec<String> = target.assigned_merged.keys();
        let r = self.check_known_merged(&merged_ids, catalog);
        proof {
            checks_follow(store + controls + sources, merged, self@, catalog@, r);
        }
        r
    }

    fn check_targets(&self, catalog: &[ControlSpec]) -> (r: Result<(), FaceWorkspaceError>)
        ensures
            checked(
                target_checks(self.target_entries(), self.target_entries().len()),
                self@,
                catalog@,
                r,
            ),
    {
        let n: usize = self.targets.len();
        let ghost entries = self.target_entries();
        let mut i: usize = 0;
        while i < n
            invariant
                i <= n,
                n == entries.len(),
                entries == self.target_entries(),
                checked(target_checks(entries, i as nat), self@, catalog@, Ok(())),
            decreases n - i,
        {
            let target: &TargetFace = self.targets.value_at(i);
            let r = self.check_target(target, catalog);
            proof {
                checks_follow(
                    target_checks(entries, i as nat),
                    target_check(*target),
                    self@,
                    catalog@,
                    r,
                );
            }
            if let Err(e) = r {
                proof {
                    target_checks_stop(entries, (i + 1) as nat, n as nat, self@, catalog@, e);
                }
                return Err(e);
            }
            i = i + 1;
        }
        Ok(())
    }

    /// Whether embeddings are sound, controls complete, and what is referred to exists. The error
    /// is that of the first check that fails.
    pub fn validate(&self, catalog: &[ControlSpec]) -> (r: Result<(), FaceWorkspaceError>)
        ensures
            checked(self.checks(), self@, catalog@, r),
    {
        let ghost a = source_checks(self.source_entries(), self.source_entries().len());
        let ghost b = merged_checks(self.merged_entries(), self.merged_entries().len());
        let ghost c = target_checks(self.target_entries(), self.target_entries().len());
        let ghost d = selection_check(self@.selected);
        let ghost e5 = sources_known(listed(self@.swap_sources));
        let ghost e6 = merged_known(listed(self@.swap_merged));
        let r = self.check_sources(catalog);
        if let Err(e) = r {
            proof {
                checks_stop(a, b, self@, catalog@, e);
                checks_stop(a + b, c, self@, catalog@, e);
                checks_stop(a + b + c, d, self@, catalog@, e);
                checks_stop(a + b + c + d, e5, self@, catalog@, e);
                checks_stop(a + b + c + d + e5, e6, self@, catalog@, e);
            }
            return Err(e);
        }
        let r = self.check_merged(catalog);
        proof {
            checks_follow(a, b, self@, catalog@, r);
        }
        if let Err(e) = r {
            proof {
                checks_stop(a + b, c, self@, catalog@, e);
                checks_stop(a + b + c, d, self@, catalog@, e);
                checks_stop(a + b + c + d, e5, self@, catalog@, e);
                checks_stop(a + b + c + d + e5, e6, self@, catalog@, e);
            }
            return Err(e);
        }
        let r = self.check_targets(catalog);
        proof {
            checks_follow(a + b, c, self@, catalog@, r);
        }
        if let Err(e) = r {
            proof {
                checks_stop(a + b + c, d, self@, catalog@, e);
                checks_stop(a + b + c + d, e5, self@, catalog@, e);
                checks_stop(a + b + c + d + e5, e6, self@, catalog@, e);
            }
            return Err(e);
        }
        let r = match &self.selected_target {
            None => Ok(()),
            Some(selected) => {
                let known = if self.targets.contains_key(selected.as_str()) {
                    Ok(())
                } else {
                    Err(FaceWorkspaceError::UnknownTarget(selected.clone()))
                };
                proof {
                    check_once(FaceCheck::KnownTarget(selected@), self@, catalog@, known);
                }
                known
            },
        };
        proof {
            checks_follow(a + b + c, d, self@, catalog@, r);
        }
        if let Err(e) = r {
            proof {
                checks_stop(a + b + c + d, e5, self@, catalog@, e);
                checks_stop(a + b + c + d + e5, e6, self@, catalog@, e);
            }
            return Err(e);
        }
        let source_ids: Vec<String> = self.swap_all_sources.keys();
        let r = self.check_known_sources(&source_ids, catalog);
        proof {
            checks_follow(a + b + c + d, e5, self@, catalog@, r);
        }
        if let Err(e) = r {
            proof {
                checks_stop(a + b + c + d + e5, e6, self@, catalog@, e);
            }
            return Err(e);
        }
        let merged_ids: Vec<String> = self.swap_all_merged.keys();
        let r = self.check_known_merged(&merged_ids, catalog);
        proof {
            checks_follow(a + b + c + d + e5, e6, self@, catalog@, r);
        }
        r
    }
}

proof fn source_checks_stop(
    entries: Seq<(Seq<char>, SourceIdentity)>,
    k: nat,
    n: nat,
    faces: Faces,
    catalog: Seq<ControlSpec>,
    e: FaceWorkspaceError,
)
    requires
        k <= n,
        checked(source_checks(entries, k), faces, catalog, Err(e)),
    ensures
        checked(source_checks(entries, n), faces, catalog, Err(e)),
    decreases n,
{
    if k < n {
        source_checks_stop(entries, k, (n - 1) as nat, faces, catalog, e);
        checks_stop(
            source_checks(entries, (n - 1) as nat),
            seq![FaceCheck::PendingStore(entries[n - 1].1@.embeddings)],
            faces,
            catalog,
            e,
        );
    }
}

proof fn merged_checks_stop(
    entries: Seq<(Seq<char>, MergedIdentity)>,
    k: nat,
    n: nat,
    faces: Faces,
    catalog: Seq<ControlSpec>,
    e: FaceWorkspaceError,
)
    requires
        k <= n,
        checked(merged_checks(entries, k), faces, catalog, Err(e)),
    ensures
        checked(merged_checks(entries, n), faces, catalog, Err(e)),
    decreases n,
{
    if k < n {
        merged_checks_stop(entries, k, (n - 1) as nat, faces, catalog, e);
        checks_stop(
            merged_checks(entries, (n - 1) as nat),
            merged_check(entries[n - 1].1@),
            faces,
            catalog,
            e,
        );
    }
}

proof fn target_checks_stop(
    entries: Seq<(Seq<char>, TargetFace)>,
    k: nat,
    n: nat,
    faces: Faces,
    catalog: Seq<ControlSpec>,
    e: FaceWorkspaceError,
)
    requires
        k <= n,
        checked(target_checks(entries, k), faces, catalog, Err(e)),
    ensures
        checked(target_checks(entries, n), faces, catalog, Err(e)),
    decreases n,
{
    if k < n {
        target_checks_stop(entries, k, (n - 1) as nat, faces, catalog, e);
        checks_stop(
            target_checks(entries, (n - 1) as nat),
            target_check(entries[n - 1].1),
            faces,
            catalog,
            e,
        );
    }
}


/// What was assigned to a target, or to all faces, is assigned, and what was taken back is not. The
/// other assignments stay.
pub proof fn assignment_reads_back(
    before: Faces,
    after: Faces,
    target: Option<Seq<char>>,
    source: Seq<char>,
    assigned: bool,
    r: Result<(), FaceWorkspaceError>,
)
    requires
        source_assigned(before, after, target, source, assigned, r),
        r is Ok,
    ensures
        after.assigned_sources(target).contains(source) == assigned,
        forall|other: Seq<char>|
            other != source ==> (#[trigger] after.assigned_sources(target).contains(other)
                == before.assigned_sources(target).contains(other)),
        forall|place: Option<Seq<char>>|
            place != target ==> #[trigger] after.assigned_sources(place)
                == before.assigned_sources(place),
        forall|place: Option<Seq<char>>| #[trigger]
            after.assigned_merged(place) == before.assigned_merged(place),
{
}

/// Nothing refers to a source that was removed.
pub proof fn removed_source_leaves_no_trace(before: Faces, id: Seq<char>)
    requires
        before.intact(),
    ensures
        ({
            let after = before.without_source(id);
            &&& !after.sources.dom().contains(id)
            &&& !after.swap_sources.contains(id)
            &&& forall|key: Seq<char>| #[trigger]
                after.targets.dom().contains(key) ==> !after.targets[key].sources.contains(id)
            &&& forall|key: Seq<char>| #[trigger]
                after.merged.dom().contains(key) ==> !after.merged[key].source_ids.contains(id)
        }),
{
}

/// A workspace in which ids and references agree, embeddings are sound and controls are complete
/// is valid.
pub proof fn intact_workspace_is_valid(workspace: &FaceWorkspace, catalog: Seq<ControlSpec>)
    requires
        workspace@.intact(),
        ascending(workspace.source_entries()),
        ascending(workspace.merged_entries()),
        ascending(workspace.target_entries()),
        workspace@.swap_sources.finite(),
        workspace@.swap_merged.finite(),
        forall|i: int|
            0 <= i < workspace.source_entries().len() ==> {
                let store = (#[trigger] workspace.source_entries()[i]).1@.embeddings;
                store.dom() == Set::<Seq<char>>::empty() || sound_store(store)
            },
        forall|i: int|
            0 <= i < workspace.merged_entries().len() ==> sound_store(
                (#[trigger] workspace.merged_entries()[i]).1@.embeddings,
            ),
        forall|i: int|
            0 <= i < workspace.target_entries().len() ==> sound_target(
                (#[trigger] workspace.target_entries()[i]).1,
                catalog,
            ),
    ensures
        all_pass(workspace.checks(), workspace@, catalog),
{
    let faces = workspace@;
    let sources = workspace.source_entries();
    let merged = workspace.merged_entries();
    let targets = workspace.target_entries();
    workspace.entries_are_the_view();
    sources_pass(sources, sources.len(), faces, catalog);
    assert forall|i: int| 0 <= i < merged.len() implies all_pass(
        merged_check((#[trigger] merged[i]).1@),
        faces,
        catalog,
    ) by {
        entry_is_unique(merged, i);
        let key = merged[i].0;
        assert(faces.merged[key] == merged[i].1@);
        let ids = merged[i].1@.source_ids;
        let checks = merged_check(merged[i].1@);
        assert forall|j: int| 0 <= j < checks.len() implies (#[trigger] checks[j]).passes(
            faces,
            catalog,
        ) by {
            if j > 0 {
                assert(checks[j] == FaceCheck::KnownSource(ids[j - 1]));
                assert(faces.merged[key].source_ids.contains(ids[j - 1]));
            }
        }
    }
    merged_pass(merged, merged.len(), faces, catalog);
    assert forall|i: int| 0 <= i < targets.len() implies all_pass(
        target_check((#[trigger] targets[i]).1),
        faces,
        catalog,
    ) by {
        entry_is_unique(targets, i);
        let key = targets[i].0;
        assert(faces.targets.dom().contains(key));
        assert(faces.targets[key] == targets[i].1@);
        assert(sound_target(targets[i].1, catalog));
        target_passes(targets[i].1, faces, catalog);
    }
    targets_pass(targets, targets.len(), faces, catalog);
    known_pass(faces.swap_sources, faces, catalog);
    known_pass(faces.swap_merged, faces, catalog);
}

/// The embeddings of a target are sound and its controls complete.
pub open spec fn sound_target(target: TargetFace, catalog: Seq<ControlSpec>) -> bool {
    &&& sound_store(target@.embeddings)
    &&& complete(target.controls.entries(), catalog)
    &&& target@.sources.finite()
    &&& target@.merged.finite()
}

proof fn sources_pass(
    entries: Seq<(Seq<char>, SourceIdentity)>,
    n: nat,
    faces: Faces,
    catalog: Seq<ControlSpec>,
)
    requires
        n <= entries.len(),
        forall|i: int|
            0 <= i < entries.len() ==> {
                let store = (#[trigger] entries[i]).1@.embeddings;
                store.dom() == Set::<Seq<char>>::empty() || sound_store(store)
            },
    ensures
        all_pass(source_checks(entries, n), faces, catalog),
    decreases n,
{
    if n > 0 {
        sources_pass(entries, (n - 1) as nat, faces, catalog);
        check_once(
            FaceCheck::PendingStore(entries[n - 1].1@.embeddings),
            faces,
            catalog,
            Ok(()),
        );
        checks_follow(
            source_checks(entries, (n - 1) as nat),
            seq![FaceCheck::PendingStore(entries[n - 1].1@.embeddings)],
            faces,
            catalog,
            Ok(()),
        );
    }
}

proof fn merged_pass(
    entries: Seq<(Seq<char>, MergedIdentity)>,
    n: nat,
    faces: Faces,
    catalog: Seq<ControlSpec>,
)
    requires
        n <= entries.len(),
        forall|i: int|
            0 <= i < entries.len() ==> all_pass(
                merged_check((#[trigger] entries[i]).1@),
                faces,
                catalog,
            ),
    ensures
        all_pass(merged_checks(entries, n), faces, catalog),
    decreases n,
{
    if n > 0 {
        merged_pass(entries, (n - 1) as nat, faces, catalog);
        assert(all_pass(merged_check(entries[n - 1].1@), faces, catalog));
        checks_follow(
            merged_checks(entries, (n - 1) as nat),
            merged_check(entries[n - 1].1@),
            faces,
            catalog,
            Ok(()),
        );
    }
}

proof fn targets_pass(
    entries: Seq<(Seq<char>, TargetFace)>,
    n: nat,
    faces: Faces,
    catalog: Seq<ControlSpec>,
)
    requires
        n <= entries.len(),
        forall|i: int|
            0 <= i < entries.len() ==> all_pass(
                target_check((#[trigger] entries[i]).1),
                faces,
                catalog,
            ),
    ensures
        all_pass(target_checks(entries, n), faces, catalog),
    decreases n,
{
    if n > 0 {
        targets_pass(entries, (n - 1) as nat, faces, catalog);
        assert(all_pass(target_check(entries[n - 1].1), faces, catalog));
        checks_follow(
            target_checks(entries, (n - 1) as nat),
            target_check(entries[n - 1].1),
            faces,
            catalog,
            Ok(()),
        );
    }
}

proof fn target_passes(target: TargetFace, faces: Faces, catalog: Seq<ControlSpec>)
    requires
        sound_target(target, catalog),
        target@.sources.subset_of(faces.sources.dom()),
        target@.merged.subset_of(faces.merged.dom()),
    ensures
        all_pass(target_check(target), faces, catalog),
{
    known_pass(target@.sources, faces, catalog);
    known_pass(target@.merged, faces, catalog);
}

proof fn known_pass(ids: Set<Seq<char>>, faces: Faces, catalog: Seq<ControlSpec>)
    requires
        ids.finite(),
    ensures
        ids.subset_of(faces.sources.dom()) ==> all_pass(
            sources_known(listed(ids)),
            faces,
            catalog,
        ),
        ids.subset_of(faces.merged.dom()) ==> all_pass(merged_known(listed(ids)), faces, catalog),
{
    crate::ordered::every_set_is_listed(ids);
    let order = listed(ids);
    assert forall|i: int| 0 <= i < order.len() implies ids.contains(#[trigger] order[i]) by {
        assert(order.contains(order[i]));
    }
}

/// After the targets of a medium were removed, exactly the others are left, and a selection that
/// was removed has moved to the first that is left.
pub proof fn only_other_targets_stay(before: Faces, media_id: MediaId)
    requires
        before.intact(),
        before.targets.dom().finite(),
    ensures
        ({
            let ids = ids_for_media(before.targets, media_id);
            let after = before.without_targets(ids, ids.len());
            &&& forall|key: Seq<char>| #[trigger]
                after.targets.dom().contains(key) <==> before.targets.dom().contains(key)
                    && before.targets[key].media_id != Some(media_id)
            &&& forall|key: Seq<char>| #[trigger]
                after.targets.dom().contains(key) ==> after.targets[key] == before.targets[key]
            &&& after.selected == match before.selected {
                Some(id) => if before.targets[id].media_id == Some(media_id) {
                    first_of(after.targets.dom())
                } else {
                    Some(id)
                },
                None => None,
            }
        }),
{
    let targets = before.targets;
    let keys = listed(targets.dom());
    let ids = ids_for_media(targets, media_id);
    crate::ordered::every_set_is_listed(targets.dom());
    ids_are_those_of_the_medium(targets, keys, media_id);
    assert forall|key: Seq<char>| ids.contains(key) <==> #[trigger] targets.dom().contains(key)
        && targets[key].media_id == Some(media_id) by {
        if targets.dom().contains(key) {
            assert(keys.contains(key));
            let p = choose|p: int| 0 <= p < keys.len() && keys[p] == key;
            assert(targets[keys[p]].id == key);
        }
        if ids.contains(key) {
            let p = choose|p: int|
                #![trigger keys[p]]
                0 <= p < keys.len() && targets[keys[p]].id == key && targets[keys[p]].media_id
                    == Some(media_id);
            assert(keys.contains(keys[p]));
            assert(targets.dom().contains(keys[p]));
        }
    }
    removal_adds_up(before, ids, ids.len());
    assert(ids.take(ids.len() as int) =~= ids);
    if let Some(id) = before.selected {
        assert(before.targets.dom().contains(id));
    }
}

proof fn ids_are_those_of_the_medium(
    targets: Map<Seq<char>, Target>,
    keys: Seq<Seq<char>>,
    media_id: MediaId,
)
    ensures
        forall|i: int|
            #![trigger keys[i]]
            0 <= i < keys.len() && targets[keys[i]].media_id == Some(media_id) ==> ids_among(
                targets,
                keys,
                media_id,
            ).contains(targets[keys[i]].id),
        forall|id: Seq<char>| #[trigger]
            ids_among(targets, keys, media_id).contains(id) ==> exists|i: int|
                #![trigger keys[i]]
                0 <= i < keys.len() && targets[keys[i]].id == id && targets[keys[i]].media_id
                    == Some(media_id),
    decreases keys.len(),
{
    if keys.len() > 0 {
        let front = keys.drop_last();
        ids_are_those_of_the_medium(targets, front, media_id);
        let before = ids_among(targets, front, media_id);
        let after = ids_among(targets, keys, media_id);
        assert forall|i: int|
            #![trigger keys[i]]
            0 <= i < keys.len() && targets[keys[i]].media_id == Some(media_id) implies after.contains(
            targets[keys[i]].id,
        ) by {
            if i < front.len() {
                assert(front[i] == keys[i]);
                let k = choose|k: int| 0 <= k < before.len() && before[k] == targets[keys[i]].id;
                assert(after[k] == targets[keys[i]].id);
            } else {
                assert(after[before.len() as int] == targets[keys[i]].id);
            }
        }
        assert forall|id: Seq<char>| #[trigger] after.contains(id) implies exists|i: int|
            #![trigger keys[i]]
            0 <= i < keys.len() && targets[keys[i]].id == id && targets[keys[i]].media_id == Some(
                media_id,
            ) by {
            let k = choose|k: int| 0 <= k < after.len() && after[k] == id;
            if k < before.len() {
                assert(before[k] == id);
                assert(before.contains(id));
                let i = choose|i: int|
                    #![trigger front[i]]
                    0 <= i < front.len() && targets[front[i]].id == id && targets[front[i]].media_id
                        == Some(media_id);
                assert(front[i] == keys[i]);
            } else {
                assert(targets[keys[keys.len() - 1]].id == id);
            }
        }
    }
}

proof fn removal_adds_up(before: Faces, ids: Seq<Seq<char>>, n: nat)
    requires
        n <= ids.len(),
        before.intact(),
    ensures
        ({
            let after = before.without_targets(ids, n);
            &&& forall|key: Seq<char>| #[trigger]
                after.targets.dom().contains(key) <==> before.targets.dom().contains(key)
                    && !ids.take(n as int).contains(key)
            &&& forall|key: Seq<char>| #[trigger]
                after.targets.dom().contains(key) ==> after.targets[key] == before.targets[key]
            &&& after.selected == match before.selected {
                Some(id) => if ids.take(n as int).contains(id) {
                    first_of(after.targets.dom())
                } else {
                    Some(id)
                },
                None => None,
            }
        }),
    decreases n,
{
    if n > 0 {
        let m = (n - 1) as nat;
        removal_adds_up(before, ids, m);
        let mid = before.without_targets(ids, m);
        let after = before.without_targets(ids, n);
        let id = ids[m as int];
        let earlier = ids.take(m as int);
        let now = ids.take(n as int);
        assert forall|key: Seq<char>| #[trigger] now.contains(key) <==> earlier.contains(key) || key
            == id by {
            if now.contains(key) {
                let k = choose|k: int| 0 <= k < now.len() && now[k] == key;
                if k < m {
                    assert(earlier[k] == key);
                }
            }
            if earlier.contains(key) {
                let k = choose|k: int| 0 <= k < earlier.len() && earlier[k] == key;
                assert(now[k] == key);
            }
            assert(now[m as int] == id);
        }
        assert(after.targets =~= mid.targets.remove(id));
        match before.selected {
            Some(selected) => {
                if earlier.contains(selected) {
                    if mid.selected != Some(id) {
                        first_stays(mid.targets.dom(), id);
                    }
                }
            },
            None => {},
        }
    } else {
        assert(ids.take(0) =~= Seq::<Seq<char>>::empty());
    }
}

/// The first of a set stays the first when another one leaves.
proof fn first_stays(keys: Set<Seq<char>>, id: Seq<char>)
    requires
        first_of(keys) != Some(id),
    ensures
        first_of(keys.remove(id)) == first_of(keys),
{
    let others = keys.remove(id);
    if exists|key: Seq<char>| is_least(keys, key) {
        let first = choose|key: Seq<char>| is_least(keys, key);
        assert(is_least(others, first));
        let chosen = choose|key: Seq<char>| is_least(others, key);
        least_is_unique(others, chosen, first);
    } else if exists|key: Seq<char>| is_least(others, key) {
        let first = choose|key: Seq<char>| is_least(others, key);
        if keys.contains(id) {
            text_order_total(first, id);
            if text_before(id, first) {
                assert forall|other: Seq<char>| #[trigger] keys.contains(other) implies other == id
                    || text_before(id, other) by {
                    if other != id {
                        assert(others.contains(other));
                        if other != first {
                            text_order_transitive(id, first, other);
                        }
                    }
                }
                assert(is_least(keys, id));
            } else {
                assert forall|other: Seq<char>| #[trigger] keys.contains(other) implies other
                    == first || text_before(first, other) by {
                    if other != id {
                        assert(others.contains(other));
                    }
                }
                assert(is_least(keys, first));
            }
        } else {
            assert(others =~= keys);
        }
    }
}

} // verus!
