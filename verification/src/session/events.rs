//! What the worker reports, and what it does to a session.

use vstd::prelude::*;

use crate::controls::{defaults, defaults_given};
use crate::controls::{ControlSpec, ControlState, ControlValue};
use crate::embeddings::{embedded, sound_store};
use crate::embeddings::{copy_values, EmbeddingStore};
use crate::faces::{new_target, texts, Crop, Faces, Source, Target};
use crate::faces::{FaceCrop, FaceWorkspace, TargetFace, ARC_FACE_MODEL};
use crate::media::MediaId;
use crate::number::Single;
use crate::ordered::{entry_is_unique, keys_are_listed, keys_of, listed, map_of};
use crate::ordered::{ascending, TextMap};
use crate::runtime::EditorJobPhase;
use crate::session::jobs::Working;
use crate::session::jobs::ExtraGuiApp;
use crate::session::media::swaps_by_itself;
use crate::session::state::{nothing_pending, Place, Session};
use crate::session::state::{
    EditorView, ExtraGuiPanel, ExtraGuiState, JobProgress, Notice, PendingRoutes,
};
use crate::text::numeral;
use crate::text::{chars_of, decimal, join2, join3, text_of};
use crate::timeline::Timeline;
use crate::timeline::EditorTimeline;
use crate::viewport::whole_picture;

verus! {

/// A face that was found in a picture.
#[derive(Debug, PartialEq, Eq)]
pub struct AnalyzedIdentity {
    pub embedding: Vec<Single>,
    pub crop_width: u32,
    pub crop_height: u32,
    pub crop_rgb: Vec<u8>,
}

/// A report of the worker. Pictures do not pass through here.
#[derive(Debug)]
pub enum EditorRuntimeEvent {
    Phase(EditorJobPhase),
    Analyzed {
        target_media: MediaId,
        target_faces: Vec<AnalyzedIdentity>,
        source_faces: TextMap<AnalyzedIdentity>,
        total_frames: u64,
        fps: Single,
    },
    Preview { faces_detected: usize, faces_swapped: usize, playback: bool },
    Progress { processed: u64, total: Option<u64> },
    PredecodeProgress { decoded: u64, total: Option<u64> },
    Completed(String),
    CacheCleared,
    Failed(String),
}

/// The embeddings of a face that was found.
pub open spec fn found_store(face: AnalyzedIdentity) -> Map<Seq<char>, Seq<Single>> {
    Map::<Seq<char>, Seq<Single>>::empty().insert(ARC_FACE_MODEL@, face.embedding@)
}

/// The picture of a face that was found.
pub open spec fn found_crop(face: AnalyzedIdentity) -> Crop {
    Crop { width: face.crop_width, height: face.crop_height, rgb: face.crop_rgb@ }
}

impl Faces {
    /// The faces where a source has embeddings, where they are sound and there is such a source.
    pub open spec fn with_embeddings(self, id: Seq<char>, store: Map<Seq<char>, Seq<Single>>) -> Faces {
        if sound_store(store) && self.sources.dom().contains(id) {
            Faces {
                sources: self.sources.insert(id, Source { embeddings: store, ..self.sources[id] }),
                ..self
            }
        } else {
            self
        }
    }

    /// The faces where the first `n` sources of an analysis have their embeddings.
    pub open spec fn with_analyzed(
        self,
        found: Seq<(Seq<char>, AnalyzedIdentity)>,
        n: nat,
    ) -> Faces
        decreases n,
    {
        if n == 0 {
            self
        } else {
            self.with_analyzed(found, (n - 1) as nat).with_embeddings(
                found[n - 1].0,
                found_store(found[n - 1].1),
            )
        }
    }

    /// The faces with a target that was found, unless it is not sound or there already. Its
    /// control values are those of the session.
    pub open spec fn with_found(
        self,
        id: Seq<char>,
        media: MediaId,
        face: AnalyzedIdentity,
        catalog: Seq<ControlSpec>,
        controls: Map<Seq<char>, ControlValue>,
    ) -> Faces {
        if sound_store(found_store(face)) && !self.targets.dom().contains(id) && defaults_given(
            catalog,
            Ok(defaults(catalog, catalog.len())),
        ) {
            Faces {
                targets: self.targets.insert(
                    id,
                    Target {
                        controls,
                        ..new_target(
                            id,
                            Some(media),
                            found_store(face),
                            Some(found_crop(face)),
                            catalog,
                        )
                    },
                ),
                selected: if self.selected is None && !self.swap_all {
                    Some(id)
                } else {
                    self.selected
                },
                ..self
            }
        } else {
            self
        }
    }

    /// The faces with the first `n` targets that were found, as far as their digests are known.
    pub open spec fn with_all_found(
        self,
        media: MediaId,
        found: Seq<AnalyzedIdentity>,
        digests: Seq<Option<Seq<char>>>,
        catalog: Seq<ControlSpec>,
        controls: Map<Seq<char>, ControlValue>,
        n: nat,
    ) -> Faces
        decreases n,
    {
        if n == 0 {
            self
        } else {
            let before = self.with_all_found(
                media,
                found,
                digests,
                catalog,
                controls,
                (n - 1) as nat,
            );
            match digests[n - 1] {
                Some(digest) => before.with_found(
                    found_id(digest, (n - 1) as nat),
                    media,
                    found[n - 1],
                    catalog,
                    controls,
                ),
                None => before,
            }
        }
    }

    /// The faces where a source is assigned to a target, where there are both.
    pub open spec fn routing_source(self, target: Seq<char>, id: Seq<char>) -> Faces {
        if self.sources.dom().contains(id) && self.targets.dom().contains(target) {
            self.with_sources(Some(target), self.assigned_sources(Some(target)).insert(id))
        } else {
            self
        }
    }

    /// The faces where a merged identity is assigned to a target, where there are both.
    pub open spec fn routing_merged(self, target: Seq<char>, id: Seq<char>) -> Faces {
        if self.merged.dom().contains(id) && self.targets.dom().contains(target) {
            self.with_merged(Some(target), self.assigned_merged(Some(target)).insert(id))
        } else {
            self
        }
    }

    /// The faces where the first `n` sources are assigned to a target.
    pub open spec fn routing_sources(self, target: Seq<char>, ids: Seq<Seq<char>>, n: nat) -> Faces
        decreases n,
    {
        if n == 0 {
            self
        } else {
            self.routing_sources(target, ids, (n - 1) as nat).routing_source(target, ids[n - 1])
        }
    }

    /// The faces where the first `n` merged identities are assigned to a target.
    pub open spec fn routing_all_merged(
        self,
        target: Seq<char>,
        ids: Seq<Seq<char>>,
        n: nat,
    ) -> Faces
        decreases n,
    {
        if n == 0 {
            self
        } else {
            self.routing_all_merged(target, ids, (n - 1) as nat).routing_merged(target, ids[n - 1])
        }
    }

    /// The faces where identities are assigned to the first `n` targets.
    pub open spec fn routing_targets(
        self,
        targets: Seq<Seq<char>>,
        sources: Seq<Seq<char>>,
        merged: Seq<Seq<char>>,
        n: nat,
    ) -> Faces
        decreases n,
    {
        if n == 0 {
            self
        } else {
            let target = targets[n - 1];
            self.routing_targets(targets, sources, merged, (n - 1) as nat).routing_sources(
                target,
                sources,
                sources.len(),
            ).routing_all_merged(target, merged, merged.len())
        }
    }

    /// The ids of all targets, in ascending order of their keys.
    pub open spec fn target_ids(self) -> Seq<Seq<char>> {
        listed(self.targets.dom()).map_values(|key: Seq<char>| self.targets[key].id)
    }
}

/// The id of the `i`-th target that was found.
pub open spec fn found_id(digest: Seq<char>, i: nat) -> Seq<char> {
    digest.take(12) + "-"@ + numeral(i)
}

/// A digest that an id can be made of: its first twelve characters are ASCII.
pub open spec fn nameable(digest: Seq<char>) -> bool {
    digest.len() >= 12 && forall|i: int| 0 <= i < 12 ==> (#[trigger] digest[i]) as u32 <= 0x7f
}

/// The digests of embeddings are known, or not, as `digest` says.
pub open spec fn digests_given<D: Fn(&Vec<Single>) -> Result<String, String>>(
    digest: D,
    found: Seq<AnalyzedIdentity>,
    digests: Seq<Option<Seq<char>>>,
    n: nat,
) -> bool {
    &&& digests.len() == n
    &&& forall|i: int| 0 <= i < n ==> digest_given(digest, found[i].embedding, #[trigger] digests[i])
}

/// The digest of an embedding is known, or not, as `digest` says.
pub open spec fn digest_given<D: Fn(&Vec<Single>) -> Result<String, String>>(
    digest: D,
    embedding: Vec<Single>,
    known: Option<Seq<char>>,
) -> bool {
    exists|r: Result<String, String>| #[trigger]
        call_ensures(digest, (&embedding,), r) && known == known_text(r)
}

/// A digest that is known.
pub open spec fn known_text(r: Result<String, String>) -> Option<Seq<char>> {
    match r {
        Ok(text) => Some(text@),
        Err(_) => None,
    }
}

/// The sources that new targets get.
pub open spec fn kept_sources(s: Session) -> Seq<Seq<char>> {
    if s.pending.sources == Set::<Seq<char>>::empty() {
        s.faces.routed_sources()
    } else {
        listed(s.pending.sources)
    }
}

/// The merged identities that new targets get.
pub open spec fn kept_merged(s: Session) -> Seq<Seq<char>> {
    if s.pending.merged == Set::<Seq<char>>::empty() {
        s.faces.routed_merged()
    } else {
        listed(s.pending.merged)
    }
}

/// The faces after an analysis.
pub open spec fn analyzed_faces(
    s: Session,
    media: MediaId,
    targets: Seq<AnalyzedIdentity>,
    sources: Seq<(Seq<char>, AnalyzedIdentity)>,
    digests: Seq<Option<Seq<char>>>,
) -> Faces {
    let known = s.faces.with_analyzed(sources, sources.len()).without_any_target();
    let found = known.with_all_found(
        media,
        targets,
        digests,
        s.catalog,
        s.controls,
        targets.len(),
    );
    if swaps_by_itself(s) {
        let ids = found.target_ids();
        found.routing_targets(ids, kept_sources(s), kept_merged(s), ids.len())
    } else {
        found
    }
}

/// The session after an analysis.
pub open spec fn analyzed(s: Session, faces: Faces, total: u64, fps: Single) -> Session {
    (Session {
        faces,
        pending: nothing_pending(),
        timeline: Timeline {
            total: if total == 0 {
                1
            } else {
                total
            },
            current: 0,
            fps,
            playing: false,
            markers: Map::empty(),
        },
        ..s
    }).saying("Identity analysis complete"@).changed()
}

/// What is told of a job that goes on.
pub open spec fn progress_text(recording: bool, processed: u64, total: Option<u64>) -> Seq<char> {
    let action = if recording {
        "Recording "@
    } else {
        "Playback "@
    };
    match total {
        None => action + numeral(processed as nat) + " frames"@,
        Some(total) => action + numeral(processed as nat) + "/"@ + numeral(total as nat),
    }
}

/// What is told of a video that is decoded ahead.
pub open spec fn predecode_text(decoded: u64, total: Option<u64>) -> Seq<char> {
    match total {
        None => "Pre-decoding "@ + numeral(decoded as nat) + " frames to VRAM"@,
        Some(total) => "Pre-decoding "@ + numeral(decoded as nat) + "/"@ + numeral(total as nat)
            + " frames to VRAM"@,
    }
}

/// What is told of a preview.
pub open spec fn preview_text(detected: usize, swapped: usize) -> Seq<char> {
    "Preview ready · "@ + numeral(detected as nat) + " detected · "@ + numeral(swapped as nat)
        + " swapped"@
}

/// What a report does.
pub open spec fn event_handled<D: Fn(&Vec<Single>) -> Result<String, String>>(
    w: Working,
    event: EditorRuntimeEvent,
    digest: D,
    after: Working,
) -> bool {
    let s = w.session;
    match event {
        EditorRuntimeEvent::Phase(phase) => {
            let seen = Session { progress: JobProgress { phase, ..s.progress }, ..s };
            after == Working {
                phase,
                session: if phase == EditorJobPhase::Idle {
                    Session { timeline: Timeline { playing: false, ..s.timeline }, ..seen }
                } else {
                    seen.saying(phase.name())
                },
            }
        },
        EditorRuntimeEvent::Analyzed {
            target_media,
            target_faces,
            source_faces,
            total_frames,
            fps,
        } => exists|digests: Seq<Option<Seq<char>>>|
            {
                &&& #[trigger] digests_given(
                    digest,
                    target_faces@,
                    digests,
                    target_faces@.len(),
                )
                &&& after == (Working {
                    session: analyzed(
                        s,
                        analyzed_faces(
                            s,
                            target_media,
                            target_faces@,
                            source_faces.pairs(),
                            digests,
                        ),
                        total_frames,
                        fps,
                    ),
                    ..w
                })
            },
        EditorRuntimeEvent::Preview { faces_detected, faces_swapped, playback } => {
            let told = s.saying(preview_text(faces_detected, faces_swapped));
            after == Working {
                session: if playback {
                    told
                } else {
                    Session {
                        preview: whole_picture(),
                        view: EditorView { active_panel: ExtraGuiPanel::Preview, ..s.view },
                        ..told
                    }
                },
                ..w
            }
        },
        EditorRuntimeEvent::Progress { processed, total } => {
            let frame = if processed == 0 {
                0
            } else {
                (processed - 1) as u64
            };
            after == Working {
                session: (Session {
                    progress: JobProgress { frames: Some((processed, total)), ..s.progress },
                    ..s.sought(frame)
                }).saying(
                    progress_text(w.phase == EditorJobPhase::Recording, processed, total),
                ),
                ..w
            }
        },
        EditorRuntimeEvent::PredecodeProgress { decoded, total } => after == (Working {
            session: (Session {
                progress: JobProgress { frames: Some((decoded, total)), ..s.progress },
                ..s
            }).saying(predecode_text(decoded, total)),
            ..w
        }),
        EditorRuntimeEvent::Completed(path) => after == (Working {
            session: (Session {
                place: Place { last_output: Some(path@), ..s.place },
                progress: JobProgress { frames: None, ..s.progress },
                ..s
            }).saying("Recorded "@ + path@),
            ..w
        }),
        EditorRuntimeEvent::CacheCleared => after == (Working {
            session: (Session {
                progress: JobProgress { frames: None, ..s.progress },
                ..s
            }).saying("Editor GPU memory released"@),
            ..w
        }),
        EditorRuntimeEvent::Failed(error) => after == (Working {
            session: s.saying(error@),
            phase: EditorJobPhase::Failed,
        }),
    }
}

/// The store of one embedding.
fn store_of(embedding: &Vec<Single>) -> (r: EmbeddingStore)
    ensures
        embedded(r) == Map::<Seq<char>, Seq<Single>>::empty().insert(ARC_FACE_MODEL@, embedding@),
{
    let mut store: EmbeddingStore = TextMap::new();
    let _ = store.insert(ARC_FACE_MODEL.to_owned(), copy_values(embedding));
    proof {
        assert(embedded(store) =~= Map::<Seq<char>, Seq<Single>>::empty().insert(
            ARC_FACE_MODEL@,
            embedding@,
        ));
    }
    store
}

/// The picture of a face that was found.
fn crop_of(face: &AnalyzedIdentity) -> (r: FaceCrop)
    ensures
        r@ == found_crop(*face),
{
    let mut rgb: Vec<u8> = Vec::new();
    let mut i: usize = 0;
    while i < face.crop_rgb.len()
        invariant
            i <= face.crop_rgb.len(),
            rgb@ == face.crop_rgb@.take(i as int),
        decreases face.crop_rgb.len() - i,
    {
        rgb.push(face.crop_rgb[i]);
        i = i + 1;
    }
    proof {
        assert(face.crop_rgb@.take(i as int) =~= face.crop_rgb@);
    }
    FaceCrop { width: face.crop_width, height: face.crop_height, rgb }
}

/// The id of a target that was found.
fn id_of(digest: &str, i: u64) -> (r: String)
    requires
        nameable(digest@),
    ensures
        r@ == found_id(digest@, i as nat),
{
    let chars: Vec<char> = chars_of(digest);
    let mut front: Vec<char> = Vec::new();
    let mut k: usize = 0;
    while k < 12
        invariant
            k <= 12,
            chars@ == digest@,
            chars@.len() >= 12,
            front@ == chars@.take(k as int),
        decreases 12 - k,
    {
        front.push(chars[k]);
        k = k + 1;
    }
    let name = text_of(&front);
    let number = decimal(i);
    join3(name.as_str(), "-", number.as_str())
}

fn give_embeddings(faces: &mut FaceWorkspace, found: &TextMap<AnalyzedIdentity>)
    ensures
        final(faces)@ == old(faces)@.with_analyzed(found.pairs(), found.pairs().len()),
{
    let ghost start = faces@;
    let ghost pairs = found.pairs();
    let n: usize = found.len();
    let mut i: usize = 0;
    while i < n
        invariant
            i <= n,
            n == pairs.len(),
            pairs == found.pairs(),
            faces@ == start.with_analyzed(pairs, i as nat),
        decreases n - i,
    {
        let id = found.key_at(i);
        let face = found.value_at(i);
        let store = store_of(&face.embedding);
        let _ = faces.set_source_embeddings(id.as_str(), store);
        i = i + 1;
    }
}

fn add_found<D: Fn(&Vec<Single>) -> Result<String, String>>(
    faces: &mut FaceWorkspace,
    media: MediaId,
    found: &Vec<AnalyzedIdentity>,
    catalog: &[ControlSpec],
    controls: &ControlState,
    digest: &D,
)
    requires
        forall|v: &Vec<Single>| call_requires(digest, (v,)),
        forall|v: &Vec<Single>, text: String| #[trigger]
            call_ensures(digest, (v,), Ok::<String, String>(text)) ==> nameable(text@),
    ensures
        exists|digests: Seq<Option<Seq<char>>>|
            {
                &&& #[trigger] digests_given(*digest, found@, digests, found@.len())
                &&& final(faces)@ == old(faces)@.with_all_found(
                    media,
                    found@,
                    digests,
                    catalog@,
                    controls@,
                    found@.len(),
                )
            },
{
    let ghost start = faces@;
    let ghost mut digests: Seq<Option<Seq<char>>> = Seq::empty();
    let mut i: usize = 0;
    while i < found.len()
        invariant
            i <= found.len(),
            forall|v: &Vec<Single>| call_requires(digest, (v,)),
            forall|v: &Vec<Single>, text: String| #[trigger]
                call_ensures(digest, (v,), Ok::<String, String>(text)) ==> nameable(text@),
            digests_given(*digest, found@, digests, i as nat),
            faces@ == start.with_all_found(
                media,
                found@,
                digests,
                catalog@,
                controls@,
                i as nat,
            ),
        decreases found.len() - i,
    {
        let face = &found[i];
        let ghost before = faces@;
        let ghost earlier = digests;
        let known = digest(&face.embedding);
        proof {
            let one = known_text(known);
            assert(call_ensures(*digest, (&found@[i as int].embedding,), known));
            assert(digest_given(*digest, found@[i as int].embedding, one));
            digests = earlier.push(one);
            assert forall|j: int| 0 <= j < i + 1 implies digest_given(
                *digest,
                found@[j].embedding,
                #[trigger] digests[j],
            ) by {
                if j < i {
                    assert(digests[j] == earlier[j]);
                }
            }
            found_so_far(start, media, found@, earlier, digests, catalog@, controls@, i as nat);
        }
        if let Ok(text) = known {
            let id = id_of(text.as_str(), i as u64);
            let store = store_of(&face.embedding);
            let crop = crop_of(face);
            let outcome = faces.add_target_with_crop(
                id.clone(),
                Some(media),
                store,
                Some(crop),
                catalog,
            );
            if outcome.is_ok() {
                let _ = faces.set_target_controls(id.as_str(), controls.duplicate());
                proof {
                    assert(faces@.targets =~= before.with_found(
                        id@,
                        media,
                        *face,
                        catalog@,
                        controls@,
                    ).targets);
                }
            }
            proof {
                assert(faces@ =~= before.with_found(id@, media, *face, catalog@, controls@));
            }
        }
        i = i + 1;
    }
    proof {
        assert(digests_given(*digest, found@, digests, found@.len()));
    }
}

/// What was found first does not depend on what is found later.
proof fn found_so_far(
    faces: Faces,
    media: MediaId,
    found: Seq<AnalyzedIdentity>,
    digests: Seq<Option<Seq<char>>>,
    more: Seq<Option<Seq<char>>>,
    catalog: Seq<ControlSpec>,
    controls: Map<Seq<char>, ControlValue>,
    n: nat,
)
    requires
        n <= digests.len() <= more.len(),
        forall|i: int| 0 <= i < digests.len() ==> digests[i] == more[i],
    ensures
        faces.with_all_found(media, found, digests, catalog, controls, n) == faces.with_all_found(
            media,
            found,
            more,
            catalog,
            controls,
            n,
        ),
    decreases n,
{
    if n > 0 {
        found_so_far(faces, media, found, digests, more, catalog, controls, (n - 1) as nat);
    }
}

fn route_to(faces: &mut FaceWorkspace, target: &str, sources: &Vec<String>, merged: &Vec<String>)
    ensures
        final(faces)@ == old(faces)@.routing_sources(
            target@,
            texts(sources@),
            sources@.len(),
        ).routing_all_merged(target@, texts(merged@), merged@.len()),
{
    let ghost start = faces@;
    let ghost source_ids = texts(sources@);
    let ghost merged_ids = texts(merged@);
    let mut i: usize = 0;
    while i < sources.len()
        invariant
            i <= sources.len(),
            source_ids == texts(sources@),
            faces@ == start.routing_sources(target@, source_ids, i as nat),
        decreases sources.len() - i,
    {
        proof {
            assert(source_ids[i as int] == sources@[i as int]@);
        }
        let _ = faces.assign_source(target, sources[i].as_str(), true);
        i = i + 1;
    }
    let ghost mid = faces@;
    let mut k: usize = 0;
    while k < merged.len()
        invariant
            k <= merged.len(),
            merged_ids == texts(merged@),
            faces@ == mid.routing_all_merged(target@, merged_ids, k as nat),
        decreases merged.len() - k,
    {
        proof {
            assert(merged_ids[k as int] == merged@[k as int]@);
        }
        let _ = faces.assign_merged(target, merged[k].as_str(), true);
        k = k + 1;
    }
}

/// The ids of all targets.
fn ids_of_targets(faces: &FaceWorkspace) -> (r: Vec<String>)
    ensures
        texts(r@) == faces@.target_ids(),
{
    let targets = faces.targets();
    let ghost entries = faces.target_entries();
    let ghost ids = faces@.target_ids();
    proof {
        faces.entries_are_the_view();
        keys_are_listed(entries);
        assert(faces@.targets.dom() =~= map_of(entries).dom());
    }
    let mut r: Vec<String> = Vec::new();
    let mut i: usize = 0;
    while i < targets.len()
        invariant
            i <= targets.len(),
            ascending(entries),
            targets@.len() == entries.len(),
            ids == faces@.target_ids(),
            ids.len() == entries.len(),
            listed(faces@.targets.dom()) == keys_of(entries),
            faces@.targets == map_of(entries).map_values(|t: TargetFace| t@),
            forall|j: int| 0 <= j < targets@.len() ==> *(#[trigger] targets@[j]) == entries[j].1,
            r@.len() == i,
            forall|j: int| 0 <= j < i ==> (#[trigger] r@[j])@ == ids[j],
        decreases targets.len() - i,
    {
        let target = targets[i];
        proof {
            entry_is_unique(entries, i as int);
            assert(keys_of(entries)[i as int] == entries[i as int].0);
            assert(ids[i as int] == target.id@);
        }
        r.push(target.id.clone());
        i = i + 1;
    }
    proof {
        assert(texts(r@) =~= ids);
    }
    r
}

fn route_all(faces: &mut FaceWorkspace, sources: &Vec<String>, merged: &Vec<String>)
    ensures
        final(faces)@ == old(faces)@.routing_targets(
            old(faces)@.target_ids(),
            texts(sources@),
            texts(merged@),
            old(faces)@.target_ids().len(),
        ),
{
    let ghost start = faces@;
    let targets = ids_of_targets(faces);
    let ghost ids = texts(targets@);
    let mut i: usize = 0;
    while i < targets.len()
        invariant
            i <= targets.len(),
            ids == texts(targets@),
            faces@ == start.routing_targets(ids, texts(sources@), texts(merged@), i as nat),
        decreases targets.len() - i,
    {
        proof {
            assert(ids[i as int] == targets@[i as int]@);
        }
        route_to(faces, targets[i].as_str(), sources, merged);
        i = i + 1;
    }
}

impl ExtraGuiState {
    /// The sources that new targets get.
    fn sources_kept(&self) -> (r: Vec<String>)
        ensures
            texts(r@) == kept_sources(self@),
    {
        if self.pending.sources.is_empty() {
            self.routed_sources()
        } else {
            self.pending.sources.keys()
        }
    }

    /// The merged identities that new targets get.
    fn merged_kept(&self) -> (r: Vec<String>)
        ensures
            texts(r@) == kept_merged(self@),
    {
        if self.pending.merged.is_empty() {
            self.routed_merged()
        } else {
            self.pending.merged.keys()
        }
    }

    /// Takes the faces that were found. Where targets are swapped by themselves, they get the
    /// identities that the active target had.
    pub fn take_analysis<D: Fn(&Vec<Single>) -> Result<String, String>>(
        &mut self,
        target_media: MediaId,
        target_faces: &Vec<AnalyzedIdentity>,
        source_faces: &TextMap<AnalyzedIdentity>,
        total_frames: u64,
        fps: Single,
        digest: &D,
    )
        requires
            forall|v: &Vec<Single>| call_requires(digest, (v,)),
            forall|v: &Vec<Single>, text: String| #[trigger]
                call_ensures(digest, (v,), Ok::<String, String>(text)) ==> nameable(text@),
        ensures
            exists|digests: Seq<Option<Seq<char>>>|
                {
                    &&& #[trigger] digests_given(
                        *digest,
                        target_faces@,
                        digests,
                        target_faces@.len(),
                    )
                    &&& final(self)@ == analyzed(
                        old(self)@,
                        analyzed_faces(
                            old(self)@,
                            target_media,
                            target_faces@,
                            source_faces.pairs(),
                            digests,
                        ),
                        total_frames,
                        fps,
                    )
                },
    {
        let ghost start = self@;
        let by_itself = self.auto_swap_enabled();
        let sources = self.sources_kept();
        let merged = self.merged_kept();
        give_embeddings(&mut self.faces, source_faces);
        let _ = self.faces.clear_targets();
        let ghost known = self@.faces;
        add_found(
            &mut self.faces,
            target_media,
            target_faces,
            self.catalog.as_slice(),
            &self.controls,
            digest,
        );
        let ghost digests = choose|digests: Seq<Option<Seq<char>>>|
            {
                &&& #[trigger] digests_given(
                    *digest,
                    target_faces@,
                    digests,
                    target_faces@.len(),
                )
                &&& self@.faces == known.with_all_found(
                    target_media,
                    target_faces@,
                    digests,
                    start.catalog,
                    start.controls,
                    target_faces@.len(),
                )
            };
        if by_itself {
            route_all(&mut self.faces, &sources, &merged);
        }
        self.pending = PendingRoutes::none();
        let total: u64 = if total_frames == 0 {
            1
        } else {
            total_frames
        };
        self.timeline = EditorTimeline::new(total, fps);
        self.touch();
        self.say("Identity analysis complete");
        proof {
            assert(self@.faces == analyzed_faces(
                start,
                target_media,
                target_faces@,
                source_faces.pairs(),
                digests,
            ));
        }
    }
}

/// What is told of a job that goes on.
fn tell_progress(recording: bool, processed: u64, total: Option<u64>) -> (r: String)
    ensures
        r@ == progress_text(recording, processed, total),
{
    let action = if recording {
        "Recording "
    } else {
        "Playback "
    };
    let number = decimal(processed);
    let front = join2(action, number.as_str());
    match total {
        None => join2(front.as_str(), " frames"),
        Some(total) => {
            let all = decimal(total);
            join3(front.as_str(), "/", all.as_str())
        },
    }
}

/// What is told of a video that is decoded ahead.
fn tell_predecode(decoded: u64, total: Option<u64>) -> (r: String)
    ensures
        r@ == predecode_text(decoded, total),
{
    let number = decimal(decoded);
    let front = join2("Pre-decoding ", number.as_str());
    match total {
        None => join2(front.as_str(), " frames to VRAM"),
        Some(total) => {
            let all = decimal(total);
            let both = join3(front.as_str(), "/", all.as_str());
            join2(both.as_str(), " frames to VRAM")
        },
    }
}

/// What is told of a preview.
fn tell_preview(detected: usize, swapped: usize) -> (r: String)
    ensures
        r@ == preview_text(detected, swapped),
{
    let found = decimal(detected as u64);
    let front = join3("Preview ready · ", found.as_str(), " detected · ");
    let changed = decimal(swapped as u64);
    join3(front.as_str(), changed.as_str(), " swapped")
}

impl ExtraGuiApp {
    /// Takes a report of the worker.
    pub fn handle_event<D: Fn(&Vec<Single>) -> Result<String, String>>(
        &mut self,
        event: EditorRuntimeEvent,
        digest: &D,
    )
        requires
            forall|v: &Vec<Single>| call_requires(digest, (v,)),
            forall|v: &Vec<Single>, text: String| #[trigger]
                call_ensures(digest, (v,), Ok::<String, String>(text)) ==> nameable(text@),
        ensures
            event_handled(old(self)@, event, *digest, final(self)@),
    {
        match event {
            EditorRuntimeEvent::Phase(phase) => {
                self.job.observe(phase);
                self.state.progress.phase = phase;
                match phase {
                    EditorJobPhase::Idle => self.state.timeline.set_playing(false),
                    _ => self.state.say(phase.label()),
                }
            },
            EditorRuntimeEvent::Analyzed {
                target_media,
                target_faces,
                source_faces,
                total_frames,
                fps,
            } => {
                self.state.take_analysis(
                    target_media,
                    &target_faces,
                    &source_faces,
                    total_frames,
                    fps,
                    digest,
                );
            },
            EditorRuntimeEvent::Preview { faces_detected, faces_swapped, playback } => {
                if !playback {
                    self.state.preview.reset();
                    self.state.view.active_panel = ExtraGuiPanel::Preview;
                }
                let text = tell_preview(faces_detected, faces_swapped);
                self.state.say(text.as_str());
            },
            EditorRuntimeEvent::Progress { processed, total } => {
                self.state.progress.frames = Some((processed, total));
                self.state.timeline.seek(processed.saturating_sub(1));
                let recording = self.job.phase() == EditorJobPhase::Recording;
                let text = tell_progress(recording, processed, total);
                self.state.say(text.as_str());
            },
            EditorRuntimeEvent::PredecodeProgress { decoded, total } => {
                self.state.progress.frames = Some((decoded, total));
                let text = tell_predecode(decoded, total);
                self.state.say(text.as_str());
            },
            EditorRuntimeEvent::Completed(path) => {
                let text = join2("Recorded ", path.as_str());
                self.state.place.last_output = Some(path);
                self.state.progress.frames = None;
                self.state.say(text.as_str());
            },
            EditorRuntimeEvent::CacheCleared => {
                self.state.progress.frames = None;
                self.state.say("Editor GPU memory released");
            },
            EditorRuntimeEvent::Failed(error) => {
                self.job.fail();
                self.state.status = Notice::Text(error);
            },
        }
    }
}

} // verus!
