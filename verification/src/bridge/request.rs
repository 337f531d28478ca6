//! The request for an engine generation: identities, parameters and models for every face.

use vstd::prelude::*;

use crate::bridge::read::ControlBridgeError;
use crate::bridge::settings::EditorRuntimeConfig;
use crate::bridge::settings::{control_needs, settings_match};
use crate::config::{DetectorModel, ExecutionProvider, FaceSwapParams};
use crate::embeddings::{copy_values, EmbeddingMergeMethod};
use crate::engine::models::own_models;
use crate::engine::models::{ModelRole, ModelSet};
use crate::engine::spec::share_generation;
use crate::engine::spec::EngineSpec;
use crate::faces::{chosen_embedding, embedding_assigned, Faces};
use crate::faces::{FaceWorkspace, FaceWorkspaceError, TargetFace, ARC_FACE_MODEL};
use crate::number::{clamped, Single};
use crate::ordered::map_size;
use crate::ordered::{TextMap, TextSet};
use crate::reports::first_fault;
use crate::runtime::PredecodeMode;

verus! {

/// Where an identity comes from.
#[derive(Debug, PartialEq, Eq)]
pub enum FaceIdentityInput {
    /// The face in a picture.
    Image(String),
    /// An embedding that is known already.
    Embedding(Vec<Single>),
}

/// One identity that is rendered into a face.
#[derive(Debug, PartialEq, Eq)]
pub struct FaceAssignmentInputs {
    pub source: FaceIdentityInput,
    /// The face that is replaced. `None` means all faces.
    pub target: Option<FaceIdentityInput>,
    pub similarity_threshold: Single,
    pub params: Option<FaceSwapParams>,
    pub models: ModelSet,
}

/// What an editor session asks an engine for.
#[derive(Debug, PartialEq, Eq)]
pub struct EditorEngineRequest {
    pub spec: EngineSpec,
    pub assignments: Vec<FaceAssignmentInputs>,
    /// Threads granted to decoding and encoding. The pipeline itself is one ordered worker, so
    /// that models and memory are never duplicated.
    pub worker_threads: u64,
    pub predecode: PredecodeMode,
}

/// Takes over what a whole generation shares.
pub fn copy_generation_controls(source: &FaceSwapParams, target: &mut FaceSwapParams)
    ensures
        *final(target) == (FaceSwapParams {
            detection: source.detection,
            enhancer: source.enhancer,
            ..*old(target)
        }),
{
    target.detection = source.detection;
    target.enhancer = source.enhancer;
}

/// Parameters that took over what a generation shares belong to that generation. A score or a
/// blend that is not a number equals nothing, not even itself.
pub proof fn copied_controls_share_the_generation(source: FaceSwapParams, target: FaceSwapParams)
    requires
        !source.detection.score.nan(),
        !source.enhancer.blend.nan(),
    ensures
        share_generation(
            source,
            FaceSwapParams { detection: source.detection, enhancer: source.enhancer, ..target },
        ),
{
}

/// The outcome of reading the settings from controls.
pub open spec fn settings_read(
    v: crate::bridge::read::Values,
    r: Result<EditorRuntimeConfig, ControlBridgeError>,
) -> bool {
    match r {
        Ok(config) => first_fault(control_needs(v)) is None && settings_match(config, v),
        Err(e) => first_fault(control_needs(v)) == Some(e@),
    }
}

/// The assignment of one embedding to one face, or to all.
pub open spec fn assigns_embedding(
    inputs: FaceAssignmentInputs,
    source: Vec<Single>,
    target: Option<Seq<Single>>,
    params: FaceSwapParams,
) -> bool {
    &&& inputs.source == FaceIdentityInput::Embedding(source)
    &&& match target {
        None => inputs.target is None,
        Some(values) => inputs.target matches Some(FaceIdentityInput::Embedding(given)) && given@
            == values,
    }
    &&& inputs.similarity_threshold == params.identity.similarity_threshold
    &&& inputs.params == Some(params)
    &&& inputs.models.vacant()
}

/// The outcome for all faces.
pub open spec fn routes_all<F, G, D>(
    config: EditorRuntimeConfig,
    faces: Faces,
    method: EmbeddingMergeMethod,
    mean: F,
    midpoint: G,
    digest: D,
    r: Result<Seq<FaceAssignmentInputs>, ControlBridgeError>,
) -> bool where
    F: Fn(Vec<Single>) -> Single,
    G: Fn(Single, Single) -> Single,
    D: Fn(&Vec<Single>) -> Result<String, String>,
 {
    if !faces.assigns(None) {
        r == Err::<Seq<FaceAssignmentInputs>, ControlBridgeError>(
            ControlBridgeError::NoFaceAssignments,
        )
    } else {
        exists|embedding: Result<Vec<Single>, FaceWorkspaceError>|
            {
                &&& #[trigger] chosen_embedding(
                    faces.assigned_stores(None),
                    ARC_FACE_MODEL@,
                    method,
                    mean,
                    midpoint,
                    embedding,
                )
                &&& match embedding {
                    Err(e) => r == Err::<Seq<FaceAssignmentInputs>, ControlBridgeError>(
                        ControlBridgeError::Faces(e),
                    ),
                    Ok(source) => exists|found: Result<String, String>|
                        {
                            &&& #[trigger] call_ensures(digest, (&source,), found)
                            &&& match found {
                                Err(reason) => r == Err::<
                                    Seq<FaceAssignmentInputs>,
                                    ControlBridgeError,
                                >(ControlBridgeError::InvalidEmbedding(reason)),
                                Ok(_) => r matches Ok(list) && list.len() == 1
                                    && assigns_embedding(list[0], source, None, config.params),
                            }
                        },
                }
            }
    }
}

/// The outcome for the identities of one target once both are known.
pub open spec fn routes_known<D>(
    config: EditorRuntimeConfig,
    target: TargetFace,
    source: Vec<Single>,
    digest: D,
    r: Result<Option<FaceAssignmentInputs>, ControlBridgeError>,
) -> bool where D: Fn(&Vec<Single>) -> Result<String, String> {
    let values = target@.embeddings[ARC_FACE_MODEL@];
    exists|found: Result<String, String>|
        {
            &&& #[trigger] call_ensures(digest, (&source,), found)
            &&& match found {
                Err(reason) => r == Err::<Option<FaceAssignmentInputs>, ControlBridgeError>(
                    ControlBridgeError::InvalidEmbedding(reason),
                ),
                Ok(_) => exists|copy: Vec<Single>, other: Result<String, String>|
                    {
                        &&& copy@ == values
                        &&& #[trigger] call_ensures(digest, (&copy,), other)
                        &&& match other {
                            Err(reason) => r == Err::<
                                Option<FaceAssignmentInputs>,
                                ControlBridgeError,
                            >(ControlBridgeError::InvalidEmbedding(reason)),
                            Ok(_) => exists|read: Result<EditorRuntimeConfig, ControlBridgeError>|
                                {
                                    &&& #[trigger] settings_read(target@.controls, read)
                                    &&& match read {
                                        Err(e) => r == Err::<
                                            Option<FaceAssignmentInputs>,
                                            ControlBridgeError,
                                        >(e),
                                        Ok(own) => r matches Ok(Some(inputs))
                                            && assigns_embedding(
                                            inputs,
                                            source,
                                            Some(values),
                                            FaceSwapParams {
                                                detection: config.params.detection,
                                                enhancer: config.params.enhancer,
                                                ..own.params
                                            },
                                        ),
                                    }
                                },
                        }
                    },
            }
        }
}

/// The outcome for one target. A target without assignments is passed over.
pub open spec fn routes_target<F, G, D>(
    config: EditorRuntimeConfig,
    faces: Faces,
    target: TargetFace,
    method: EmbeddingMergeMethod,
    mean: F,
    midpoint: G,
    digest: D,
    r: Result<Option<FaceAssignmentInputs>, ControlBridgeError>,
) -> bool where
    F: Fn(Vec<Single>) -> Single,
    G: Fn(Single, Single) -> Single,
    D: Fn(&Vec<Single>) -> Result<String, String>,
 {
    if !faces.assigns(Some(target@.id)) {
        r == Ok::<Option<FaceAssignmentInputs>, ControlBridgeError>(None)
    } else {
        exists|embedding: Result<Vec<Single>, FaceWorkspaceError>|
            {
                &&& #[trigger] embedding_assigned(
                    faces,
                    target@.id,
                    ARC_FACE_MODEL@,
                    method,
                    mean,
                    midpoint,
                    embedding,
                )
                &&& match embedding {
                    Err(e) => r == Err::<Option<FaceAssignmentInputs>, ControlBridgeError>(
                        ControlBridgeError::Faces(e),
                    ),
                    Ok(source) => if target@.embeddings.dom().contains(ARC_FACE_MODEL@) {
                        routes_known(config, target, source, digest, r)
                    } else {
                        r matches Err(ControlBridgeError::MissingTargetEmbedding(id)) && id@
                            == target@.id
                    },
                }
            }
    }
}

/// What comes of outcomes that were gathered in order: the first error, or all values.
pub open spec fn collected<T, E>(ones: Seq<Result<Option<T>, E>>) -> Result<Seq<T>, E>
    decreases ones.len(),
{
    if ones.len() == 0 {
        Ok(Seq::empty())
    } else {
        match collected(ones.drop_last()) {
            Err(e) => Err(e),
            Ok(list) => match ones.last() {
                Err(e) => Err(e),
                Ok(None) => Ok(list),
                Ok(Some(value)) => Ok(list.push(value)),
            },
        }
    }
}

/// The outcomes for targets, one after the other, up to the first that is refused.
pub open spec fn routes_targets<F, G, D>(
    config: EditorRuntimeConfig,
    faces: Faces,
    entries: Seq<(Seq<char>, TargetFace)>,
    method: EmbeddingMergeMethod,
    mean: F,
    midpoint: G,
    digest: D,
    ones: Seq<Result<Option<FaceAssignmentInputs>, ControlBridgeError>>,
) -> bool where
    F: Fn(Vec<Single>) -> Single,
    G: Fn(Single, Single) -> Single,
    D: Fn(&Vec<Single>) -> Result<String, String>,
 {
    &&& ones.len() <= entries.len()
    &&& forall|i: int|
        0 <= i < ones.len() ==> routes_target(
            config,
            faces,
            entries[i].1,
            method,
            mean,
            midpoint,
            digest,
            #[trigger] ones[i],
        )
    &&& ones.len() < entries.len() ==> ones.len() > 0 && ones.last() is Err
}

/// The outcome for a session: all faces, or every target that has an assignment.
pub open spec fn routes<F, G, D>(
    config: EditorRuntimeConfig,
    workspace: FaceWorkspace,
    method: EmbeddingMergeMethod,
    mean: F,
    midpoint: G,
    digest: D,
    r: Result<Seq<FaceAssignmentInputs>, ControlBridgeError>,
) -> bool where
    F: Fn(Vec<Single>) -> Single,
    G: Fn(Single, Single) -> Single,
    D: Fn(&Vec<Single>) -> Result<String, String>,
 {
    let entries = workspace.target_entries();
    if workspace@.swap_all {
        routes_all(config, workspace@, method, mean, midpoint, digest, r)
    } else {
        exists|ones: Seq<Result<Option<FaceAssignmentInputs>, ControlBridgeError>>|
            {
                &&& #[trigger] routes_targets(
                    config,
                    workspace@,
                    entries,
                    method,
                    mean,
                    midpoint,
                    digest,
                    ones,
                )
                &&& r == match collected(ones) {
                    Ok(inputs) => if inputs.len() == 0 {
                        Err(ControlBridgeError::NoFaceAssignments)
                    } else {
                        Ok(inputs)
                    },
                    Err(e) => Err::<Seq<FaceAssignmentInputs>, ControlBridgeError>(e),
                }
            }
    }
}

/// A result whose list is taken by its contents.
pub open spec fn listed_result(
    r: Result<Vec<FaceAssignmentInputs>, ControlBridgeError>,
) -> Result<Seq<FaceAssignmentInputs>, ControlBridgeError> {
    match r {
        Ok(list) => Ok(list@),
        Err(e) => Err(e),
    }
}

impl EditorRuntimeConfig {
    fn route_all<F, G, D>(
        &self,
        faces: &FaceWorkspace,
        merge_method: EmbeddingMergeMethod,
        mean: &F,
        midpoint: &G,
        digest: &D,
    ) -> (r: Result<Vec<FaceAssignmentInputs>, ControlBridgeError>) where
        F: Fn(Vec<Single>) -> Single,
        G: Fn(Single, Single) -> Single,
        D: Fn(&Vec<Single>) -> Result<String, String>,

        requires
            forall|v: Vec<Single>| call_requires(mean, (v,)),
            forall|a: Single, b: Single| call_requires(midpoint, (a, b)),
            forall|v: &Vec<Single>| call_requires(digest, (v,)),
        ensures
            routes_all(*self, faces@, merge_method, *mean, *midpoint, *digest, listed_result(r)),
    {
        if !faces.has_assignment(None) {
            return Err(ControlBridgeError::NoFaceAssignments);
        }
        let embedding = faces.swap_all_embedding(ARC_FACE_MODEL, merge_method, mean, midpoint);
        assert(chosen_embedding(
            faces@.assigned_stores(None),
            ARC_FACE_MODEL@,
            merge_method,
            *mean,
            *midpoint,
            embedding,
        ));
        match embedding {
            Err(e) => Err(ControlBridgeError::Faces(e)),
            Ok(source) => {
                let found = digest(&source);
                assert(call_ensures(*digest, (&source,), found));
                match found {
                    Err(reason) => Err(ControlBridgeError::InvalidEmbedding(reason)),
                    Ok(_) => {
                        let inputs = FaceAssignmentInputs {
                            source: FaceIdentityInput::Embedding(source),
                            target: None,
                            similarity_threshold: self.params.identity.similarity_threshold,
                            params: Some(self.params.clone()),
                            models: ModelSet::new(),
                        };
                        let mut list: Vec<FaceAssignmentInputs> = Vec::new();
                        list.push(inputs);
                        Ok(list)
                    },
                }
            },
        }
    }

    fn route_known<D>(&self, target: &TargetFace, source: Vec<Single>, digest: &D) -> (r: Result<
        Option<FaceAssignmentInputs>,
        ControlBridgeError,
    >) where D: Fn(&Vec<Single>) -> Result<String, String>
        requires
            forall|v: &Vec<Single>| call_requires(digest, (v,)),
            target@.embeddings.dom().contains(ARC_FACE_MODEL@),
        ensures
            routes_known(*self, *target, source, *digest, r),
    {
        let copy: Vec<Single> = match target.embeddings.get(ARC_FACE_MODEL) {
            Some(values) => copy_values(values),
            None => Vec::new(),
        };
        assert(copy@ == target@.embeddings[ARC_FACE_MODEL@]);
        let found = digest(&source);
        assert(call_ensures(*digest, (&source,), found));
        if let Err(reason) = found {
            return Err(ControlBridgeError::InvalidEmbedding(reason));
        }
        let other = digest(&copy);
        assert(call_ensures(*digest, (&copy,), other));
        if let Err(reason) = other {
            return Err(ControlBridgeError::InvalidEmbedding(reason));
        }
        let read = EditorRuntimeConfig::from_controls(&target.controls);
        assert(settings_read(target@.controls, read));
        match read {
            Err(e) => Err(e),
            Ok(own) => {
                let mut params = own.params;
                copy_generation_controls(&self.params, &mut params);
                Ok(
                    Some(
                        FaceAssignmentInputs {
                            source: FaceIdentityInput::Embedding(source),
                            target: Some(FaceIdentityInput::Embedding(copy)),
                            similarity_threshold: params.identity.similarity_threshold,
                            params: Some(params),
                            models: ModelSet::new(),
                        },
                    ),
                )
            },
        }
    }

    fn route_target<F, G, D>(
        &self,
        faces: &FaceWorkspace,
        target: &TargetFace,
        merge_method: EmbeddingMergeMethod,
        mean: &F,
        midpoint: &G,
        digest: &D,
    ) -> (r: Result<Option<FaceAssignmentInputs>, ControlBridgeError>) where
        F: Fn(Vec<Single>) -> Single,
        G: Fn(Single, Single) -> Single,
        D: Fn(&Vec<Single>) -> Result<String, String>,

        requires
            forall|v: Vec<Single>| call_requires(mean, (v,)),
            forall|a: Single, b: Single| call_requires(midpoint, (a, b)),
            forall|v: &Vec<Single>| call_requires(digest, (v,)),
        ensures
            routes_target(*self, faces@, *target, merge_method, *mean, *midpoint, *digest, r),
    {
        if !faces.has_assignment(Some(target.id.as_str())) {
            return Ok(None);
        }
        let embedding = faces.assigned_embedding(
            target.id.as_str(),
            ARC_FACE_MODEL,
            merge_method,
            mean,
            midpoint,
        );
        assert(embedding_assigned(
            faces@,
            target@.id,
            ARC_FACE_MODEL@,
            merge_method,
            *mean,
            *midpoint,
            embedding,
        ));
        match embedding {
            Err(e) => Err(ControlBridgeError::Faces(e)),
            Ok(source) => {
                if !target.embeddings.contains_key(ARC_FACE_MODEL) {
                    return Err(ControlBridgeError::MissingTargetEmbedding(target.id.clone()));
                }
                self.route_known(target, source, digest)
            },
        }
    }

    /// The identities that are rendered into faces: one for all faces, or one for every target
    /// that has an assignment. Embeddings have to have a digest.
    pub fn assignment_inputs<F, G, D>(
        &self,
        faces: &FaceWorkspace,
        merge_method: EmbeddingMergeMethod,
        mean: &F,
        midpoint: &G,
        digest: &D,
    ) -> (r: Result<Vec<FaceAssignmentInputs>, ControlBridgeError>) where
        F: Fn(Vec<Single>) -> Single,
        G: Fn(Single, Single) -> Single,
        D: Fn(&Vec<Single>) -> Result<String, String>,

        requires
            forall|v: Vec<Single>| call_requires(mean, (v,)),
            forall|a: Single, b: Single| call_requires(midpoint, (a, b)),
            forall|v: &Vec<Single>| call_requires(digest, (v,)),
        ensures
            routes(*self, *faces, merge_method, *mean, *midpoint, *digest, listed_result(r)),
    {
        if faces.swap_all() {
            return self.route_all(faces, merge_method, mean, midpoint, digest);
        }
        let targets: Vec<&TargetFace> = faces.targets();
        let ghost entries = faces.target_entries();
        let mut list: Vec<FaceAssignmentInputs> = Vec::new();
        let ghost mut ones: Seq<Result<Option<FaceAssignmentInputs>, ControlBridgeError>> =
            Seq::empty();
        let mut i: usize = 0;
        while i < targets.len()
            invariant
                i <= targets.len(),
                targets@.len() == entries.len(),
                entries == faces.target_entries(),
                forall|j: int| 0 <= j < targets@.len() ==> *(#[trigger] targets@[j]) == entries[j].1,
                forall|v: Vec<Single>| call_requires(mean, (v,)),
                forall|a: Single, b: Single| call_requires(midpoint, (a, b)),
                forall|v: &Vec<Single>| call_requires(digest, (v,)),
                !faces@.swap_all,
                ones.len() == i,
                forall|j: int|
                    0 <= j < ones.len() ==> routes_target(
                        *self,
                        faces@,
                        entries[j].1,
                        merge_method,
                        *mean,
                        *midpoint,
                        *digest,
                        #[trigger] ones[j],
                    ),
                collected(ones) == Ok::<Seq<FaceAssignmentInputs>, ControlBridgeError>(list@),
            decreases targets.len() - i,
        {
            let target: &TargetFace = targets[i];
            assert(*target == entries[i as int].1);
            let one = self.route_target(faces, target, merge_method, mean, midpoint, digest);
            let ghost earlier = ones;
            proof {
                ones = ones.push(one);
                assert(ones.drop_last() =~= earlier);
            }
            match one {
                Err(e) => {
                    assert(routes_targets(
                        *self,
                        faces@,
                        entries,
                        merge_method,
                        *mean,
                        *midpoint,
                        *digest,
                        ones,
                    ));
                    return Err(e);
                },
                Ok(None) => {},
                Ok(Some(inputs)) => {
                    list.push(inputs);
                },
            }
            i = i + 1;
        }
        assert(routes_targets(
            *self,
            faces@,
            entries,
            merge_method,
            *mean,
            *midpoint,
            *digest,
            ones,
        ));
        if list.len() == 0 {
            return Err(ControlBridgeError::NoFaceAssignments);
        }
        Ok(list)
    }
}


/// The digest of an identity: that of its embedding, or that of its picture.
pub open spec fn source_digest<D, P>(
    source: FaceIdentityInput,
    digest: D,
    file: P,
    r: Result<String, ControlBridgeError>,
) -> bool where
    D: Fn(&Vec<Single>) -> Result<String, String>,
    P: Fn(&String) -> Result<String, String>,
 {
    match source {
        FaceIdentityInput::Embedding(values) => exists|found: Result<String, String>| #[trigger]
            call_ensures(digest, (&values,), found) && r == match found {
                Ok(text) => Ok(text),
                Err(reason) => Err(ControlBridgeError::InvalidEmbedding(reason)),
            },
        FaceIdentityInput::Image(path) => exists|found: Result<String, String>| #[trigger]
            call_ensures(file, (&path,), found) && r == match found {
                Ok(text) => Ok(text),
                Err(reason) => Err(ControlBridgeError::EngineRequest(reason)),
            },
    }
}

/// The digest of the identity that an assignment renders.
pub fn assignment_source_digest<D, P>(
    assignment: &FaceAssignmentInputs,
    digest: &D,
    file: &P,
) -> (r: Result<String, ControlBridgeError>) where
    D: Fn(&Vec<Single>) -> Result<String, String>,
    P: Fn(&String) -> Result<String, String>,

    requires
        forall|v: &Vec<Single>| call_requires(digest, (v,)),
        forall|path: &String| call_requires(file, (path,)),
    ensures
        source_digest(assignment.source, *digest, *file, r),
{
    match &assignment.source {
        FaceIdentityInput::Embedding(values) => {
            let found = digest(values);
            assert(call_ensures(*digest, (values,), found));
            match found {
                Ok(text) => Ok(text),
                Err(reason) => Err(ControlBridgeError::InvalidEmbedding(reason)),
            }
        },
        FaceIdentityInput::Image(path) => {
            let found = file(path);
            assert(call_ensures(*file, (path,), found));
            match found {
                Ok(text) => Ok(text),
                Err(reason) => Err(ControlBridgeError::EngineRequest(reason)),
            }
        },
    }
}

/// A specification is built for an identity and parameters.
pub open spec fn builds<D, P, B>(
    config: EditorRuntimeConfig,
    source: FaceIdentityInput,
    params: FaceSwapParams,
    digest: D,
    file: P,
    build: B,
    r: Result<EngineSpec, ControlBridgeError>,
) -> bool where
    D: Fn(&Vec<Single>) -> Result<String, String>,
    P: Fn(&String) -> Result<String, String>,
    B: Fn(String, FaceSwapParams, ExecutionProvider, DetectorModel) -> Result<EngineSpec, String>,
 {
    exists|found: Result<String, ControlBridgeError>|
        {
            &&& #[trigger] source_digest(source, digest, file, found)
            &&& match found {
                Err(e) => r == Err::<EngineSpec, ControlBridgeError>(e),
                Ok(text) => exists|spec: Result<EngineSpec, String>| #[trigger]
                    call_ensures(build, (text, params, config.provider, config.detector), spec) && r
                        == match spec {
                        Ok(spec) => Ok(spec),
                        Err(reason) => Err(ControlBridgeError::EngineRequest(reason)),
                    },
            }
        }
}

/// The parameters of an assignment: its own, or those of the session.
pub open spec fn effective_params(
    config: EditorRuntimeConfig,
    inputs: FaceAssignmentInputs,
) -> FaceSwapParams {
    match inputs.params {
        Some(params) => params,
        None => config.params,
    }
}

/// An assignment gets the models that it adds to those of its generation.
pub open spec fn localizes<D, P, B>(
    config: EditorRuntimeConfig,
    spec: EngineSpec,
    before: FaceAssignmentInputs,
    digest: D,
    file: P,
    build: B,
    r: Result<Option<FaceAssignmentInputs>, ControlBridgeError>,
) -> bool where
    D: Fn(&Vec<Single>) -> Result<String, String>,
    P: Fn(&String) -> Result<String, String>,
    B: Fn(String, FaceSwapParams, ExecutionProvider, DetectorModel) -> Result<EngineSpec, String>,
 {
    exists|local: Result<EngineSpec, ControlBridgeError>|
        {
            &&& #[trigger] builds(
                config,
                before.source,
                effective_params(config, before),
                digest,
                file,
                build,
                local,
            )
            &&& match local {
                Err(e) => r == Err::<Option<FaceAssignmentInputs>, ControlBridgeError>(e),
                Ok(own) => r matches Ok(Some(after)) && after == (FaceAssignmentInputs {
                    models: after.models,
                    ..before
                }) && own_models(after.models, own.models, spec.models),
            }
        }
}

/// Assignments get their models one after the other, up to the first that is refused.
pub open spec fn localizes_all<D, P, B>(
    config: EditorRuntimeConfig,
    spec: EngineSpec,
    before: Seq<FaceAssignmentInputs>,
    digest: D,
    file: P,
    build: B,
    ones: Seq<Result<Option<FaceAssignmentInputs>, ControlBridgeError>>,
) -> bool where
    D: Fn(&Vec<Single>) -> Result<String, String>,
    P: Fn(&String) -> Result<String, String>,
    B: Fn(String, FaceSwapParams, ExecutionProvider, DetectorModel) -> Result<EngineSpec, String>,
 {
    &&& ones.len() <= before.len()
    &&& forall|i: int|
        0 <= i < ones.len() ==> localizes(
            config,
            spec,
            before[i],
            digest,
            file,
            build,
            #[trigger] ones[i],
        )
    &&& ones.len() < before.len() ==> ones.len() > 0 && ones.last() is Err
}

/// The digest of the DFM among models.
pub open spec fn dfm_of(models: ModelSet) -> Set<Seq<char>> {
    match models.artifact(ModelRole::Dfm) {
        Some(artifact) => set![artifact.blake3@],
        None => Set::empty(),
    }
}

/// The digests of the DFMs of a generation and its first `n` assignments.
pub open spec fn dfm_digests(
    spec: EngineSpec,
    assignments: Seq<FaceAssignmentInputs>,
    n: nat,
) -> Set<Seq<char>>
    decreases n,
{
    if n == 0 {
        dfm_of(spec.models)
    } else {
        dfm_digests(spec, assignments, (n - 1) as nat).union(dfm_of(assignments[n - 1].models))
    }
}

/// The request that is made of assignments: the generation of the first identity, every
/// assignment with its models, and no more DFMs than the session allows.
pub open spec fn compiles<D, P, B>(
    config: EditorRuntimeConfig,
    assignments: Seq<FaceAssignmentInputs>,
    digest: D,
    file: P,
    build: B,
    r: Result<EditorEngineRequest, ControlBridgeError>,
) -> bool where
    D: Fn(&Vec<Single>) -> Result<String, String>,
    P: Fn(&String) -> Result<String, String>,
    B: Fn(String, FaceSwapParams, ExecutionProvider, DetectorModel) -> Result<EngineSpec, String>,
 {
    exists|primary: Result<EngineSpec, ControlBridgeError>|
        {
            &&& #[trigger] builds(
                config,
                assignments[0].source,
                config.params,
                digest,
                file,
                build,
                primary,
            )
            &&& match primary {
                Err(e) => r == Err::<EditorEngineRequest, ControlBridgeError>(e),
                Ok(spec) => exists|
                    ones: Seq<Result<Option<FaceAssignmentInputs>, ControlBridgeError>>,
                |
                    {
                        &&& #[trigger] localizes_all(
                            config,
                            spec,
                            assignments,
                            digest,
                            file,
                            build,
                            ones,
                        )
                        &&& match collected(ones) {
                            Err(e) => r == Err::<EditorEngineRequest, ControlBridgeError>(e),
                            Ok(list) => {
                                let dfms = dfm_digests(spec, list, list.len()).len();
                                if dfms > config.max_dfm_models {
                                    r matches Err(
                                        ControlBridgeError::TooManyDfmModels { requested, maximum },
                                    ) && requested == dfms && maximum == config.max_dfm_models
                                } else {
                                    &&& r matches Ok(request)
                                    &&& request.spec == spec
                                    &&& request.assignments@ == list
                                    &&& request.worker_threads == clamped(
                                        config.worker_threads as int,
                                        1,
                                        32,
                                    )
                                    &&& request.predecode == PredecodeMode::Auto
                                }
                            },
                        }
                    },
            }
        }
}

fn add_dfm(digests: &mut TextSet, models: &ModelSet)
    ensures
        final(digests)@.dom() == old(digests)@.dom().union(dfm_of(*models)),
{
    let ghost before = digests@.dom();
    match models.get(ModelRole::Dfm) {
        Some(artifact) => {
            let _ = digests.insert(artifact.blake3.clone(), ());
            proof {
                assert(digests@.dom() =~= before.union(dfm_of(*models)));
            }
        },
        None => {
            proof {
                assert(before.union(dfm_of(*models)) =~= before);
            }
        },
    }
}

/// The number of DFMs of a generation and its assignments.
fn count_dfms(spec: &EngineSpec, assignments: &Vec<FaceAssignmentInputs>) -> (r: usize)
    ensures
        r == dfm_digests(*spec, assignments@, assignments@.len()).len(),
{
    let mut digests: TextSet = TextMap::new();
    add_dfm(&mut digests, &spec.models);
    proof {
        assert(digests@.dom() =~= dfm_digests(*spec, assignments@, 0));
    }
    let mut i: usize = 0;
    while i < assignments.len()
        invariant
            i <= assignments.len(),
            digests@.dom() == dfm_digests(*spec, assignments@, i as nat),
        decreases assignments.len() - i,
    {
        add_dfm(&mut digests, &assignments[i].models);
        i = i + 1;
    }
    let count: usize = digests.len();
    proof {
        map_size(digests.pairs());
    }
    count
}

/// The outcome of making the request of a session: its identities are routed, and what they are
/// routed to is compiled.
pub open spec fn requested<F, G, D, P, B>(
    config: EditorRuntimeConfig,
    faces: FaceWorkspace,
    method: EmbeddingMergeMethod,
    mean: F,
    midpoint: G,
    digest: D,
    file: P,
    build: B,
    r: Result<EditorEngineRequest, ControlBridgeError>,
) -> bool where
    F: Fn(Vec<Single>) -> Single,
    G: Fn(Single, Single) -> Single,
    D: Fn(&Vec<Single>) -> Result<String, String>,
    P: Fn(&String) -> Result<String, String>,
    B: Fn(String, FaceSwapParams, ExecutionProvider, DetectorModel) -> Result<EngineSpec, String>,
 {
    exists|found: Result<Seq<FaceAssignmentInputs>, ControlBridgeError>|
        {
            &&& #[trigger] routes(config, faces, method, mean, midpoint, digest, found)
            &&& match found {
                Err(e) => r == Err::<EditorEngineRequest, ControlBridgeError>(e),
                Ok(list) => compiles(config, list, digest, file, build, r),
            }
        }
}

impl EditorRuntimeConfig {
    fn build_for<D, P, B>(
        &self,
        assignment: &FaceAssignmentInputs,
        params: FaceSwapParams,
        digest: &D,
        file: &P,
        build: &B,
    ) -> (r: Result<EngineSpec, ControlBridgeError>) where
        D: Fn(&Vec<Single>) -> Result<String, String>,
        P: Fn(&String) -> Result<String, String>,
        B: Fn(String, FaceSwapParams, ExecutionProvider, DetectorModel) -> Result<
            EngineSpec,
            String,
        >,

        requires
            forall|v: &Vec<Single>| call_requires(digest, (v,)),
            forall|path: &String| call_requires(file, (path,)),
            forall|text: String, p: FaceSwapParams, e: ExecutionProvider, m: DetectorModel|
                call_requires(build, (text, p, e, m)),
        ensures
            builds(*self, assignment.source, params, *digest, *file, *build, r),
    {
        let found = assignment_source_digest(assignment, digest, file);
        assert(source_digest(assignment.source, *digest, *file, found));
        match found {
            Err(e) => Err(e),
            Ok(text) => {
                let ghost name = text;
                let ghost given = params;
                let spec = build(text, params, self.provider, self.detector);
                assert(call_ensures(
                    *build,
                    (name, given, self.provider, self.detector),
                    spec,
                ));
                match spec {
                    Ok(spec) => Ok(spec),
                    Err(reason) => Err(ControlBridgeError::EngineRequest(reason)),
                }
            },
        }
    }

    fn localize<D, P, B>(
        &self,
        spec: &EngineSpec,
        assignment: FaceAssignmentInputs,
        digest: &D,
        file: &P,
        build: &B,
    ) -> (r: Result<Option<FaceAssignmentInputs>, ControlBridgeError>) where
        D: Fn(&Vec<Single>) -> Result<String, String>,
        P: Fn(&String) -> Result<String, String>,
        B: Fn(String, FaceSwapParams, ExecutionProvider, DetectorModel) -> Result<
            EngineSpec,
            String,
        >,

        requires
            forall|v: &Vec<Single>| call_requires(digest, (v,)),
            forall|path: &String| call_requires(file, (path,)),
            forall|text: String, p: FaceSwapParams, e: ExecutionProvider, m: DetectorModel|
                call_requires(build, (text, p, e, m)),
        ensures
            localizes(*self, *spec, assignment, *digest, *file, *build, r),
    {
        let params: FaceSwapParams = match &assignment.params {
            Some(params) => params.clone(),
            None => self.params.clone(),
        };
        let local = self.build_for(&assignment, params, digest, file, build);
        match local {
            Err(e) => Err(e),
            Ok(own) => {
                let models = own.models.own(&spec.models);
                Ok(Some(FaceAssignmentInputs { models, ..assignment }))
            },
        }
    }

    /// The request that is made of assignments.
    pub fn compile_assignments<D, P, B>(
        &self,
        assignments: Vec<FaceAssignmentInputs>,
        digest: &D,
        file: &P,
        build: &B,
    ) -> (r: Result<EditorEngineRequest, ControlBridgeError>) where
        D: Fn(&Vec<Single>) -> Result<String, String>,
        P: Fn(&String) -> Result<String, String>,
        B: Fn(String, FaceSwapParams, ExecutionProvider, DetectorModel) -> Result<
            EngineSpec,
            String,
        >,

        requires
            assignments@.len() > 0,
            forall|v: &Vec<Single>| call_requires(digest, (v,)),
            forall|path: &String| call_requires(file, (path,)),
            forall|text: String, p: FaceSwapParams, e: ExecutionProvider, m: DetectorModel|
                call_requires(build, (text, p, e, m)),
        ensures
            compiles(*self, assignments@, *digest, *file, *build, r),
    {
        let ghost all = assignments@;
        let primary = self.build_for(&assignments[0], self.params.clone(), digest, file, build);
        assert(builds(*self, all[0].source, self.params, *digest, *file, *build, primary));
        let spec: EngineSpec = match primary {
            Err(e) => {
                return Err(e);
            },
            Ok(spec) => spec,
        };
        let mut left: Vec<FaceAssignmentInputs> = assignments;
        let mut list: Vec<FaceAssignmentInputs> = Vec::new();
        let ghost mut ones: Seq<Result<Option<FaceAssignmentInputs>, ControlBridgeError>> =
            Seq::empty();
        proof {
            assert(all.skip(0) =~= all);
        }
        while left.len() > 0
            invariant
                all == assignments@,
                ones.len() <= all.len(),
                left@ == all.skip(ones.len() as int),
                forall|v: &Vec<Single>| call_requires(digest, (v,)),
                forall|path: &String| call_requires(file, (path,)),
                forall|text: String, p: FaceSwapParams, e: ExecutionProvider, m: DetectorModel|
                    call_requires(build, (text, p, e, m)),
                forall|i: int|
                    0 <= i < ones.len() ==> localizes(
                        *self,
                        spec,
                        all[i],
                        *digest,
                        *file,
                        *build,
                        #[trigger] ones[i],
                    ),
                collected(ones) == Ok::<Seq<FaceAssignmentInputs>, ControlBridgeError>(list@),
                builds(*self, all[0].source, self.params, *digest, *file, *build, Ok(spec)),
            decreases left.len(),
        {
            let assignment: FaceAssignmentInputs = left.remove(0);
            let ghost at = ones.len() as int;
            assert(assignment == all[at]);
            let one = self.localize(&spec, assignment, digest, file, build);
            let ghost earlier = ones;
            proof {
                ones = ones.push(one);
                assert(ones.drop_last() =~= earlier);
                assert(left@ =~= all.skip(at + 1));
            }
            match one {
                Err(e) => {
                    assert(collected(ones) == Err::<Seq<FaceAssignmentInputs>, ControlBridgeError>(e));
                    assert(localizes_all(*self, spec, all, *digest, *file, *build, ones));
                    return Err(e);
                },
                Ok(None) => {},
                Ok(Some(inputs)) => {
                    list.push(inputs);
                },
            }
        }
        assert(localizes_all(*self, spec, all, *digest, *file, *build, ones));
        let dfms: u64 = count_dfms(&spec, &list) as u64;
        if dfms > self.max_dfm_models {
            return Err(
                ControlBridgeError::TooManyDfmModels {
                    requested: dfms,
                    maximum: self.max_dfm_models,
                },
            );
        }
        let worker_threads: u64 = if self.worker_threads < 1 {
            1
        } else if self.worker_threads > 32 {
            32
        } else {
            self.worker_threads
        };
        Ok(
            EditorEngineRequest {
                spec,
                assignments: list,
                worker_threads,
                predecode: PredecodeMode::Auto,
            },
        )
    }

    /// The request that an editor session makes: every identity that is rendered into a face, with
    /// its parameters and models.
    pub fn compile_engine_request<F, G, D, P, B>(
        &self,
        faces: &FaceWorkspace,
        merge_method: EmbeddingMergeMethod,
        mean: &F,
        midpoint: &G,
        digest: &D,
        file: &P,
        build: &B,
    ) -> (r: Result<EditorEngineRequest, ControlBridgeError>) where
        F: Fn(Vec<Single>) -> Single,
        G: Fn(Single, Single) -> Single,
        D: Fn(&Vec<Single>) -> Result<String, String>,
        P: Fn(&String) -> Result<String, String>,
        B: Fn(String, FaceSwapParams, ExecutionProvider, DetectorModel) -> Result<
            EngineSpec,
            String,
        >,

        requires
            forall|v: Vec<Single>| call_requires(mean, (v,)),
            forall|a: Single, b: Single| call_requires(midpoint, (a, b)),
            forall|v: &Vec<Single>| call_requires(digest, (v,)),
            forall|path: &String| call_requires(file, (path,)),
            forall|text: String, p: FaceSwapParams, e: ExecutionProvider, m: DetectorModel|
                call_requires(build, (text, p, e, m)),
        ensures
            requested(*self, *faces, merge_method, *mean, *midpoint, *digest, *file, *build, r),
    {
        let found = self.assignment_inputs(faces, merge_method, mean, midpoint, digest);
        assert(routes(
            *self,
            *faces,
            merge_method,
            *mean,
            *midpoint,
            *digest,
            listed_result(found),
        ));
        match found {
            Err(e) => Err(e),
            Ok(assignments) => self.compile_assignments(assignments, digest, file, build),
        }
    }
}

} // verus!
