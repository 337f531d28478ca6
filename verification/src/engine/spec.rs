//! The complete immutable configuration of one engine generation.

use vstd::prelude::*;

use crate::config::{DetectorModel, ExecutionProvider, FaceSwapParams, RestorerAlignment, RestorerSize, SwapperModel};
use crate::engine::digest::digest_of;
use crate::engine::digest::{blake3_of, lower_hex};
use crate::engine::models::{ModelArtifact, ModelRole, ModelSet, ROLE_COUNT};
use crate::engine::models::{overlay, role_at};
use crate::engine::rules::{
    check_params, validate_blake3, validate_float_range, validate_restorer, EngineSpecError,
};
use crate::engine::rules::{
    digest_fault, float_fault, is_digest, params_rules, restorer_fault, SpecFault,
};
use crate::reports::first_error;
use crate::reports::{fault_of, faults, faults_grow, first_fault};
use crate::number::{Single, ONE, ZERO};
use crate::ordered::TextMap;
use crate::paths::is_inside;
use crate::paths::stays_inside;
use crate::text::{decimal, is_blank, join3, same_text};
use crate::text::{blank, numeral};

verus! {

/// One immutable source-to-target identity assignment.
#[derive(Debug, PartialEq, Eq)]
pub struct FaceAssignmentSpec {
    /// Identity to render into the selected target face.
    pub source_identity_blake3: String,
    /// Reference identity used to select a target. `None` explicitly means all faces.
    pub target_identity_blake3: Option<String>,
    /// Similarity score between zero and one.
    pub similarity_threshold: Single,
    /// Target-local controls. `None` inherits the generation's.
    pub params: Option<FaceSwapParams>,
    /// Model overrides used only by this assignment.
    pub models: ModelSet,
}

/// Complete immutable configuration for a buildable engine generation.
#[derive(Debug, PartialEq, Eq)]
pub struct EngineSpec {
    pub provider: ExecutionProvider,
    pub device_id: i32,
    pub detector: DetectorModel,
    pub identity_blake3: String,
    /// Empty for one source that is swapped into all faces.
    pub assignments: Vec<FaceAssignmentSpec>,
    pub models: ModelSet,
    pub params: FaceSwapParams,
}

/// Two parameter sets that agree on what one generation shares: detection, rotation and
/// enhancement.
pub open spec fn share_generation(a: FaceSwapParams, b: FaceSwapParams) -> bool {
    &&& a.detection.score.equals(b.detection.score)
    &&& a.detection.max_faces == b.detection.max_faces
    &&& a.detection.auto_rotation == b.detection.auto_rotation
    &&& a.detection.manual_rotation_enabled == b.detection.manual_rotation_enabled
    &&& a.detection.manual_rotation_angle == b.detection.manual_rotation_angle
    &&& a.enhancer.enabled == b.enhancer.enabled
    &&& a.enhancer.model == b.enhancer.model
    &&& a.enhancer.blend.equals(b.enhancer.blend)
}

/// Whether two parameter sets agree on what one generation shares.
pub fn same_generation_controls(a: &FaceSwapParams, b: &FaceSwapParams) -> (r: bool)
    ensures
        r == share_generation(*a, *b),
{
    a.detection.score.same_number(b.detection.score) && a.detection.max_faces
        == b.detection.max_faces && a.detection.auto_rotation == b.detection.auto_rotation
        && a.detection.manual_rotation_enabled == b.detection.manual_rotation_enabled
        && a.detection.manual_rotation_angle == b.detection.manual_rotation_angle
        && a.enhancer.enabled == b.enhancer.enabled && a.enhancer.model == b.enhancer.model
        && a.enhancer.blend.same_number(b.enhancer.blend)
}

/// The role is played.
pub open spec fn require_fault(models: ModelSet, role: ModelRole) -> Option<SpecFault> {
    if models.artifact(role) is Some {
        None
    } else {
        Some(SpecFault::MissingModel(role))
    }
}

fn require(models: &ModelSet, role: ModelRole) -> (r: Result<(), EngineSpecError>)
    ensures
        fault_of(r) == require_fault(*models, role),
{
    match models.get(role) {
        Some(_) => Ok(()),
        None => Err(EngineSpecError::MissingModel(role)),
    }
}

/// The role is played where it is needed.
pub open spec fn need_fault(needed: bool, models: ModelSet, role: ModelRole) -> Option<SpecFault> {
    if needed {
        require_fault(models, role)
    } else {
        None
    }
}

fn require_if(needed: bool, models: &ModelSet, role: ModelRole) -> (r: Result<(), EngineSpecError>)
    ensures
        fault_of(r) == need_fault(needed, *models, role),
{
    if needed {
        require(models, role)
    } else {
        Ok(())
    }
}

/// The device has an id.
pub open spec fn device_fault(device_id: i32) -> Option<SpecFault> {
    if device_id < 0 {
        Some(SpecFault::InvalidDeviceId(device_id))
    } else {
        None
    }
}

fn check_device(device_id: i32) -> (r: Result<(), EngineSpecError>)
    ensures
        fault_of(r) == device_fault(device_id),
{
    if device_id < 0 {
        Err(EngineSpecError::InvalidDeviceId(device_id))
    } else {
        Ok(())
    }
}

/// The landmark model that is selected is the one that plays the role.
pub open spec fn landmark_fault(p: FaceSwapParams, models: ModelSet) -> Option<SpecFault> {
    if !p.landmark.enabled {
        None
    } else {
        match models.artifact(ModelRole::Landmark) {
            None => Some(SpecFault::MissingModel(ModelRole::Landmark)),
            Some(a) => if a.logical_name@ == p.landmark.mode.registry() {
                None
            } else {
                Some(
                    SpecFault::LandmarkModelMismatch {
                        selected: p.landmark.mode.registry(),
                        artifact: a.logical_name@,
                    },
                )
            },
        }
    }
}

fn check_landmark(p: &FaceSwapParams, models: &ModelSet) -> (r: Result<(), EngineSpecError>)
    ensures
        fault_of(r) == landmark_fault(*p, *models),
{
    if !p.landmark.enabled {
        return Ok(());
    }
    match models.get(ModelRole::Landmark) {
        None => Err(EngineSpecError::MissingModel(ModelRole::Landmark)),
        Some(artifact) => {
            let selected: &'static str = p.landmark.mode.registry_name();
            if same_text(artifact.logical_name.as_str(), selected) {
                Ok(())
            } else {
                Err(
                    EngineSpecError::LandmarkModelMismatch {
                        selected: selected.to_owned(),
                        artifact: artifact.logical_name.clone(),
                    },
                )
            }
        },
    }
}

/// A restorer that is on aligns its face to a reference.
pub open spec fn needs_reference(p: FaceSwapParams) -> bool {
    ||| p.restoration.first.enabled && p.restoration.first.alignment == RestorerAlignment::Reference
    ||| p.restoration.second.enabled && p.restoration.second.alignment
        == RestorerAlignment::Reference
}

/// The device, and the models that the selected stages cannot do without.
#[verifier::opaque]
pub open spec fn head_rules(device_id: i32, p: FaceSwapParams, models: ModelSet) -> Seq<
    Option<SpecFault>,
> {
    let inswapper = p.swapper.model == SwapperModel::Inswapper128;
    seq![
        device_fault(device_id),
        require_fault(models, ModelRole::Detector),
        need_fault(inswapper, models, ModelRole::Recognizer),
        need_fault(inswapper, models, ModelRole::Swapper),
        need_fault(inswapper, models, ModelRole::Emap),
        need_fault(!inswapper, models, ModelRole::Dfm),
        landmark_fault(p, models),
        need_fault(needs_reference(p), models, ModelRole::RestorerLandmark),
    ]
}

fn check_head(device_id: i32, p: &FaceSwapParams, models: &ModelSet) -> (r: Result<
    (),
    EngineSpecError,
>)
    ensures
        fault_of(r) == first_fault(head_rules(device_id, *p, *models)),
{
    let inswapper = p.swapper.model == SwapperModel::Inswapper128;
    let reference = (p.restoration.first.enabled && p.restoration.first.alignment
        == RestorerAlignment::Reference) || (p.restoration.second.enabled
        && p.restoration.second.alignment == RestorerAlignment::Reference);
    let results: Vec<Result<(), EngineSpecError>> = vec![
        check_device(device_id),
        require(models, ModelRole::Detector),
        require_if(inswapper, models, ModelRole::Recognizer),
        require_if(inswapper, models, ModelRole::Swapper),
        require_if(inswapper, models, ModelRole::Emap),
        require_if(!inswapper, models, ModelRole::Dfm),
        check_landmark(p, models),
        require_if(reference, models, ModelRole::RestorerLandmark),
    ];
    proof {
        reveal(head_rules);
        assert(faults(results@) =~= head_rules(device_id, *p, *models));
    }
    first_error(results)
}

/// The rules for the artifact that plays `role`: its names are not blank, its file stays inside
/// the generation's directory, its contents have a digest, and a restorer is a supported one.
#[verifier::opaque]
pub open spec fn artifact_rules(role: ModelRole, a: ModelArtifact) -> Seq<Option<SpecFault>> {
    seq![
        if blank(a.logical_name@) {
            Some(SpecFault::EmptyField("models."@ + role.name() + ".logical_name"@))
        } else {
            None
        },
        if blank(a.filename@) {
            Some(SpecFault::EmptyField("models."@ + role.name() + ".filename"@))
        } else {
            None
        },
        if stays_inside(a.filename@) {
            None
        } else {
            Some(SpecFault::InvalidFilename { role, filename: a.filename@ })
        },
        digest_fault("models."@ + role.name() + ".blake3"@, a.blake3@),
        if role == ModelRole::Restorer || role == ModelRole::Restorer2 {
            restorer_fault(a.logical_name@)
        } else {
            None
        },
    ]
}

/// The rules for whoever plays `role`.
pub open spec fn role_fault(models: ModelSet, role: ModelRole) -> Option<SpecFault> {
    match models.artifact(role) {
        Some(a) => first_fault(artifact_rules(role, a)),
        None => None,
    }
}

fn check_not_blank(value: &str, role: ModelRole, field: &str) -> (r: Result<(), EngineSpecError>)
    ensures
        fault_of(r) == if blank(value@) {
            Some(SpecFault::EmptyField("models."@ + role.name() + field@))
        } else {
            None
        },
{
    if is_blank(value) {
        Err(EngineSpecError::EmptyField(join3("models.", role.as_str(), field)))
    } else {
        Ok(())
    }
}

fn check_role(models: &ModelSet, role: ModelRole) -> (r: Result<(), EngineSpecError>)
    ensures
        fault_of(r) == role_fault(*models, role),
{
    match models.get(role) {
        None => Ok(()),
        Some(artifact) => {
            let inside: Result<(), EngineSpecError> = if is_inside(artifact.filename.as_str()) {
                Ok(())
            } else {
                Err(EngineSpecError::InvalidFilename { role, filename: artifact.filename.clone() })
            };
            let restorer: Result<(), EngineSpecError> = if role == ModelRole::Restorer || role
                == ModelRole::Restorer2 {
                validate_restorer(artifact.logical_name.as_str())
            } else {
                Ok(())
            };
            let field: String = join3("models.", role.as_str(), ".blake3");
            let results: Vec<Result<(), EngineSpecError>> = vec![
                check_not_blank(artifact.logical_name.as_str(), role, ".logical_name"),
                check_not_blank(artifact.filename.as_str(), role, ".filename"),
                inside,
                validate_blake3(field.as_str(), artifact.blake3.as_str()),
                restorer,
            ];
            proof {
                reveal(artifact_rules);
                assert(faults(results@) =~= artifact_rules(role, *artifact));
            }
            first_error(results)
        },
    }
}

/// The rules for all artifacts, in the order of their roles.
#[verifier::opaque]
pub open spec fn models_rules(models: ModelSet) -> Seq<Option<SpecFault>> {
    Seq::new(ROLE_COUNT as nat, |i: int| role_fault(models, role_at(i)))
}

fn check_models(models: &ModelSet) -> (r: Result<(), EngineSpecError>)
    ensures
        fault_of(r) == first_fault(models_rules(*models)),
{
    let mut results: Vec<Result<(), EngineSpecError>> = Vec::new();
    let mut i: usize = 0;
    proof {
        reveal(models_rules);
        assert(faults(results@) =~= models_rules(*models).take(0));
    }
    while i < ROLE_COUNT
        invariant
            i <= ROLE_COUNT,
            models_rules(*models).len() == ROLE_COUNT,
            faults(results@) == models_rules(*models).take(i as int),
        decreases ROLE_COUNT - i,
    {
        let result = check_role(models, ModelRole::at(i));
        proof {
            reveal(models_rules);
            faults_grow(results@, result, models_rules(*models), i as int);
        }
        results.push(result);
        i = i + 1;
    }
    proof {
        assert(models_rules(*models).take(ROLE_COUNT as int) =~= models_rules(*models));
    }
    first_error(results)
}

/// The enhancer that is selected is the one that plays the role.
pub open spec fn enhancer_fault(p: FaceSwapParams, models: ModelSet) -> Option<SpecFault> {
    match models.artifact(ModelRole::Enhancer) {
        Some(a) => if p.enhancer.enabled && a.logical_name@ != p.enhancer.model.registry() {
            Some(
                SpecFault::EnhancerModelMismatch {
                    selected: p.enhancer.model.registry(),
                    artifact: a.logical_name@,
                },
            )
        } else {
            None
        },
        None => None,
    }
}

fn check_enhancer(p: &FaceSwapParams, models: &ModelSet) -> (r: Result<(), EngineSpecError>)
    ensures
        fault_of(r) == enhancer_fault(*p, *models),
{
    match models.get(ModelRole::Enhancer) {
        Some(artifact) => {
            let selected: &'static str = p.enhancer.model.registry_name();
            if p.enhancer.enabled && !same_text(artifact.logical_name.as_str(), selected) {
                Err(
                    EngineSpecError::EnhancerModelMismatch {
                        selected: selected.to_owned(),
                        artifact: artifact.logical_name.clone(),
                    },
                )
            } else {
                Ok(())
            }
        },
        None => Ok(()),
    }
}

/// The DFM that is selected is the one that plays the role.
pub open spec fn dfm_fault(p: FaceSwapParams, models: ModelSet) -> Option<SpecFault> {
    match models.artifact(ModelRole::Dfm) {
        Some(a) => if p.swapper.model == SwapperModel::Dfm && a.filename@ != p.swapper.dfm_model@ {
            Some(
                SpecFault::DfmModelMismatch {
                    selected: p.swapper.dfm_model@,
                    artifact: a.filename@,
                },
            )
        } else {
            None
        },
        None => None,
    }
}

fn check_dfm(p: &FaceSwapParams, models: &ModelSet) -> (r: Result<(), EngineSpecError>)
    ensures
        fault_of(r) == dfm_fault(*p, *models),
{
    match models.get(ModelRole::Dfm) {
        Some(artifact) => {
            if p.swapper.model == SwapperModel::Dfm && !same_text(
                artifact.filename.as_str(),
                p.swapper.dfm_model.as_str(),
            ) {
                Err(
                    EngineSpecError::DfmModelMismatch {
                        selected: p.swapper.dfm_model.clone(),
                        artifact: artifact.filename.clone(),
                    },
                )
            } else {
                Ok(())
            }
        },
        None => Ok(()),
    }
}

/// The models of the stages that are on, and the selections that name a model.
#[verifier::opaque]
pub open spec fn stage_rules(p: FaceSwapParams, models: ModelSet) -> Seq<Option<SpecFault>> {
    seq![
        need_fault(p.restoration.first.enabled, models, ModelRole::Restorer),
        need_fault(p.restoration.second.enabled, models, ModelRole::Restorer2),
        need_fault(p.masks.segmentation.occluder_enabled, models, ModelRole::Occluder),
        need_fault(p.masks.segmentation.xseg_enabled, models, ModelRole::Xseg),
        need_fault(p.masks.faceparser.enabled, models, ModelRole::FaceParser),
        need_fault(p.enhancer.enabled, models, ModelRole::Enhancer),
        enhancer_fault(p, models),
        dfm_fault(p, models),
    ]
}

fn check_stages(p: &FaceSwapParams, models: &ModelSet) -> (r: Result<(), EngineSpecError>)
    ensures
        fault_of(r) == first_fault(stage_rules(*p, *models)),
{
    let results: Vec<Result<(), EngineSpecError>> = vec![
        require_if(p.restoration.first.enabled, models, ModelRole::Restorer),
        require_if(p.restoration.second.enabled, models, ModelRole::Restorer2),
        require_if(p.masks.segmentation.occluder_enabled, models, ModelRole::Occluder),
        require_if(p.masks.segmentation.xseg_enabled, models, ModelRole::Xseg),
        require_if(p.masks.faceparser.enabled, models, ModelRole::FaceParser),
        require_if(p.enhancer.enabled, models, ModelRole::Enhancer),
        check_enhancer(p, models),
        check_dfm(p, models),
    ];
    proof {
        reveal(stage_rules);
        assert(faults(results@) =~= stage_rules(*p, *models));
    }
    first_error(results)
}

/// The runtime session of a restorer of the given size.
pub open spec fn restorer_session(size: RestorerSize, second: bool) -> Seq<char> {
    match (size, second) {
        (RestorerSize::Gpen256, false) => "GPENBFR256"@,
        (RestorerSize::Gpen512, false) => "GPENBFR512"@,
        (RestorerSize::Gpen1024, false) => "GPENBFR1024"@,
        (RestorerSize::Gpen256, true) => "GPENBFR256_2"@,
        (RestorerSize::Gpen512, true) => "GPENBFR512_2"@,
        (RestorerSize::Gpen1024, true) => "GPENBFR1024_2"@,
    }
}

fn restorer_session_name(size: RestorerSize, second: bool) -> (r: &'static str)
    ensures
        r@ == restorer_session(size, second),
{
    match (size, second) {
        (RestorerSize::Gpen256, false) => "GPENBFR256",
        (RestorerSize::Gpen512, false) => "GPENBFR512",
        (RestorerSize::Gpen1024, false) => "GPENBFR1024",
        (RestorerSize::Gpen256, true) => "GPENBFR256_2",
        (RestorerSize::Gpen512, true) => "GPENBFR512_2",
        (RestorerSize::Gpen1024, true) => "GPENBFR1024_2",
    }
}

/// `entry` alone where `present`, nothing otherwise.
pub open spec fn optional<T>(present: bool, entry: T) -> Seq<T> {
    if present {
        seq![entry]
    } else {
        Seq::empty()
    }
}

/// The runtime sessions that parameters ask for, each with the role whose model it runs.
#[verifier::opaque]
pub open spec fn session_roles(p: FaceSwapParams) -> Seq<(Seq<char>, ModelRole)> {
    let inswapper = p.swapper.model == SwapperModel::Inswapper128;
    optional(inswapper, ("Inswapper128ArcFace"@, ModelRole::Recognizer)) + optional(
        inswapper,
        ("Inswapper128"@, ModelRole::Swapper),
    ) + optional(inswapper, ("InswapperEMap"@, ModelRole::Emap)) + optional(
        p.landmark.enabled,
        (p.landmark.mode.registry(), ModelRole::Landmark),
    ) + optional(
        p.restoration.first.enabled,
        (restorer_session(p.restoration.first.size, false), ModelRole::Restorer),
    ) + optional(
        p.restoration.second.enabled,
        (restorer_session(p.restoration.second.size, true), ModelRole::Restorer2),
    ) + optional(
        p.masks.segmentation.occluder_enabled,
        ("Occluder"@, ModelRole::Occluder),
    ) + optional(p.masks.segmentation.xseg_enabled, ("XSeg"@, ModelRole::Xseg)) + optional(
        p.masks.faceparser.enabled,
        ("FaceParser"@, ModelRole::FaceParser),
    )
}

/// A session name and its role, the name as characters.
pub open spec fn role_views(roles: Seq<(&'static str, ModelRole)>) -> Seq<(Seq<char>, ModelRole)> {
    roles.map_values(|e: (&'static str, ModelRole)| (e.0@, e.1))
}

fn add_session(
    roles: &mut Vec<(&'static str, ModelRole)>,
    present: bool,
    name: &'static str,
    role: ModelRole,
)
    ensures
        role_views(final(roles)@) == role_views(old(roles)@) + optional(present, (name@, role)),
{
    let ghost before = roles@;
    if present {
        roles.push((name, role));
    }
    proof {
        assert(role_views(roles@) =~= role_views(before) + optional(present, (name@, role)));
    }
}

fn sessions_wanted(p: &FaceSwapParams) -> (r: Vec<(&'static str, ModelRole)>)
    ensures
        role_views(r@) == session_roles(*p),
{
    let inswapper = p.swapper.model == SwapperModel::Inswapper128;
    proof {
        reveal(session_roles);
    }
    let mut roles: Vec<(&'static str, ModelRole)> = Vec::new();
    let first = restorer_session_name(p.restoration.first.size, false);
    let second = restorer_session_name(p.restoration.second.size, true);
    proof {
        assert(role_views(roles@) =~= Seq::<(Seq<char>, ModelRole)>::empty());
    }
    add_session(&mut roles, inswapper, "Inswapper128ArcFace", ModelRole::Recognizer);
    proof {
        assert(role_views(roles@) =~= optional(
            inswapper,
            ("Inswapper128ArcFace"@, ModelRole::Recognizer),
        ));
    }
    add_session(&mut roles, inswapper, "Inswapper128", ModelRole::Swapper);
    add_session(&mut roles, inswapper, "InswapperEMap", ModelRole::Emap);
    add_session(
        &mut roles,
        p.landmark.enabled,
        p.landmark.mode.registry_name(),
        ModelRole::Landmark,
    );
    add_session(&mut roles, p.restoration.first.enabled, first, ModelRole::Restorer);
    add_session(&mut roles, p.restoration.second.enabled, second, ModelRole::Restorer2);
    add_session(
        &mut roles,
        p.masks.segmentation.occluder_enabled,
        "Occluder",
        ModelRole::Occluder,
    );
    add_session(&mut roles, p.masks.segmentation.xseg_enabled, "XSeg", ModelRole::Xseg);
    add_session(&mut roles, p.masks.faceparser.enabled, "FaceParser", ModelRole::FaceParser);
    roles
}

/// The sessions whose role is played, each with the digest of the model that it runs.
pub open spec fn bound_sessions(
    roles: Seq<(Seq<char>, ModelRole)>,
    models: ModelSet,
) -> Seq<(Seq<char>, Seq<char>)>
    decreases roles.len(),
{
    if roles.len() == 0 {
        Seq::empty()
    } else {
        let before = bound_sessions(roles.drop_last(), models);
        match models.artifact(roles.last().1) {
            Some(a) => before.push((roles.last().0, a.blake3@)),
            None => before,
        }
    }
}

/// The sessions of one parameter set, each with the digest of the model that it runs.
pub open spec fn sessions_of(p: FaceSwapParams, models: ModelSet) -> Seq<(Seq<char>, Seq<char>)> {
    bound_sessions(session_roles(p), models)
}

/// Some earlier session has the name of `entry` and runs another model.
pub open spec fn clashes(
    earlier: Seq<(Seq<char>, Seq<char>)>,
    entry: (Seq<char>, Seq<char>),
) -> bool {
    exists|i: int|
        0 <= i < earlier.len() && (#[trigger] earlier[i]).0 == entry.0 && earlier[i].1 != entry.1
}

/// A session name stands for one model. The fault names the first session that breaks this.
pub open spec fn session_fault(entries: Seq<(Seq<char>, Seq<char>)>) -> Option<SpecFault>
    decreases entries.len(),
{
    if entries.len() == 0 {
        None
    } else {
        let before = session_fault(entries.drop_last());
        if before is Some {
            before
        } else if clashes(entries.drop_last(), entries.last()) {
            Some(
                SpecFault::InvalidAssignments(
                    "runtime session "@ + entries.last().0 + " maps to multiple model digests"@,
                ),
            )
        } else {
            None
        }
    }
}

proof fn bound_sessions_split(
    a: Seq<(Seq<char>, ModelRole)>,
    b: Seq<(Seq<char>, ModelRole)>,
    models: ModelSet,
)
    ensures
        bound_sessions(a + b, models) == bound_sessions(a, models) + bound_sessions(b, models),
    decreases b.len(),
{
    if b.len() == 0 {
        assert(a + b =~= a);
        assert(bound_sessions(a, models) + bound_sessions(b, models) =~= bound_sessions(a, models));
    } else {
        assert((a + b).drop_last() =~= a + b.drop_last());
        assert((a + b).last() == b.last());
        bound_sessions_split(a, b.drop_last(), models);
        assert(bound_sessions(a + b, models) =~= bound_sessions(a, models) + bound_sessions(
            b,
            models,
        ));
    }
}

/// A fault among the first sessions is the fault of all of them.
proof fn session_fault_persists(a: Seq<(Seq<char>, Seq<char>)>, b: Seq<(Seq<char>, Seq<char>)>)
    requires
        session_fault(a) is Some,
    ensures
        session_fault(a + b) == session_fault(a),
    decreases b.len(),
{
    if b.len() == 0 {
        assert(a + b =~= a);
    } else {
        assert((a + b).drop_last() =~= a + b.drop_last());
        session_fault_persists(a, b.drop_last());
    }
}

/// `sessions` maps every name of `entries` to its digest, and holds no other name.
spec fn records(sessions: Map<Seq<char>, String>, entries: Seq<(Seq<char>, Seq<char>)>) -> bool {
    &&& forall|i: int|
        0 <= i < entries.len() ==> sessions.dom().contains((#[trigger] entries[i]).0)
            && sessions[entries[i].0]@ == entries[i].1
    &&& forall|name: Seq<char>| #[trigger]
        sessions.dom().contains(name) ==> exists|i: int|
            0 <= i < entries.len() && (#[trigger] entries[i]).0 == name
}

/// A recorded session that runs another model than `entry` clashes with it.
proof fn recorded_clash(
    sessions: Map<Seq<char>, String>,
    entries: Seq<(Seq<char>, Seq<char>)>,
    entry: (Seq<char>, Seq<char>),
)
    requires
        records(sessions, entries),
        sessions.dom().contains(entry.0),
        sessions[entry.0]@ != entry.1,
    ensures
        clashes(entries, entry),
{
    let k = choose|k: int| 0 <= k < entries.len() && (#[trigger] entries[k]).0 == entry.0;
    assert(entries[k].1 == sessions[entry.0]@);
}

/// One more session that agrees with those recorded.
proof fn records_grow(
    sessions: Map<Seq<char>, String>,
    entries: Seq<(Seq<char>, Seq<char>)>,
    entry: (Seq<char>, Seq<char>),
    digest: String,
)
    requires
        records(sessions, entries),
        digest@ == entry.1,
        sessions.dom().contains(entry.0) ==> sessions[entry.0]@ == entry.1,
    ensures
        records(sessions.insert(entry.0, digest), entries.push(entry)),
        !clashes(entries, entry),
{
    let after = sessions.insert(entry.0, digest);
    let next = entries.push(entry);
    assert forall|k: int| 0 <= k < next.len() implies after.dom().contains((#[trigger] next[k]).0)
        && after[next[k].0]@ == next[k].1 by {
        if k < entries.len() {
            assert(next[k] == entries[k]);
        }
    }
    assert forall|n: Seq<char>| #[trigger] after.dom().contains(n) implies exists|k: int|
        0 <= k < next.len() && (#[trigger] next[k]).0 == n by {
        if n == entry.0 {
            assert(next[entries.len() as int].0 == n);
        } else {
            assert(sessions.dom().contains(n));
            let k = choose|k: int| 0 <= k < entries.len() && (#[trigger] entries[k]).0 == n;
            assert(next[k].0 == n);
        }
    }
    if clashes(entries, entry) {
        let k = choose|k: int|
            0 <= k < entries.len() && (#[trigger] entries[k]).0 == entry.0 && entries[k].1
                != entry.1;
        assert(sessions.dom().contains(entries[k].0));
    }
}

/// Enters the sessions of one parameter set after those that were `seen`.
fn register_runtime_sessions(
    sessions: &mut TextMap<String>,
    p: &FaceSwapParams,
    models: &ModelSet,
    Ghost(seen): Ghost<Seq<(Seq<char>, Seq<char>)>>,
) -> (r: Result<(), EngineSpecError>)
    requires
        session_fault(seen) is None,
        records(old(sessions)@, seen),
    ensures
        fault_of(r) == session_fault(seen + sessions_of(*p, *models)),
        r is Ok ==> records(final(sessions)@, seen + sessions_of(*p, *models)),
{
    let roles: Vec<(&'static str, ModelRole)> = sessions_wanted(p);
    let ghost wanted = role_views(roles@);
    let mut i: usize = 0;
    proof {
        assert(wanted.take(0) =~= Seq::<(Seq<char>, ModelRole)>::empty());
        assert(seen + bound_sessions(wanted.take(0), *models) =~= seen);
    }
    while i < roles.len()
        invariant
            i <= roles.len(),
            wanted == role_views(roles@),
            wanted == session_roles(*p),
            session_fault(seen + bound_sessions(wanted.take(i as int), *models)) is None,
            records(sessions@, seen + bound_sessions(wanted.take(i as int), *models)),
        decreases roles.len() - i,
    {
        let name: &'static str = roles[i].0;
        let ghost done = seen + bound_sessions(wanted.take(i as int), *models);
        let ghost next = seen + bound_sessions(wanted.take(i + 1), *models);
        proof {
            assert(wanted.take(i + 1).drop_last() =~= wanted.take(i as int));
            assert(wanted.take(i + 1).last() == wanted[i as int]);
            assert(wanted[i as int] == (name@, roles@[i as int].1));
        }
        match models.get(roles[i].1) {
            Some(artifact) => {
                let ghost entry = (name@, artifact.blake3@);
                proof {
                    assert(next =~= done.push(entry));
                    assert(next.drop_last() =~= done);
                }
                let ghost before = sessions@;
                let previous: Option<String> = sessions.insert(
                    name.to_owned(),
                    artifact.blake3.clone(),
                );
                if let Some(digest) = previous {
                    if !same_text(digest.as_str(), artifact.blake3.as_str()) {
                        proof {
                            recorded_clash(before, done, entry);
                            let rest = bound_sessions(wanted.skip(i + 1), *models);
                            assert(wanted.take(i + 1) + wanted.skip(i + 1) =~= wanted);
                            bound_sessions_split(wanted.take(i + 1), wanted.skip(i + 1), *models);
                            assert(seen + sessions_of(*p, *models) =~= next + rest);
                            session_fault_persists(next, rest);
                        }
                        return Err(
                            EngineSpecError::InvalidAssignments(
                                join3(
                                    "runtime session ",
                                    name,
                                    " maps to multiple model digests",
                                ),
                            ),
                        );
                    }
                }
                proof {
                    records_grow(before, done, entry, artifact.blake3);
                }
            },
            None => {
                proof {
                    assert(next =~= done);
                }
            },
        }
        i = i + 1;
    }
    proof {
        assert(wanted.take(roles.len() as int) =~= wanted);
    }
    Ok(())
}

/// The sessions of the generation and of its first `n` assignments.
pub open spec fn sessions_up_to(spec: EngineSpec, n: nat) -> Seq<(Seq<char>, Seq<char>)>
    decreases n,
{
    if n == 0 {
        sessions_of(spec.params, spec.models)
    } else {
        let before = sessions_up_to(spec, (n - 1) as nat);
        match spec.assignments@[n - 1].params {
            Some(p) => before + sessions_of(p, overlay(spec.models, spec.assignments@[n - 1].models)),
            None => before,
        }
    }
}

/// A fault among the first sessions of a generation is the fault of all of them.
proof fn sessions_fault_persists(spec: EngineSpec, k: nat, n: nat)
    requires
        k <= n,
        session_fault(sessions_up_to(spec, k)) is Some,
    ensures
        session_fault(sessions_up_to(spec, n)) == session_fault(sessions_up_to(spec, k)),
    decreases n - k,
{
    if k < n {
        sessions_fault_persists(spec, k, (n - 1) as nat);
        match spec.assignments@[n - 1].params {
            Some(p) => {
                session_fault_persists(
                    sessions_up_to(spec, (n - 1) as nat),
                    sessions_of(p, overlay(spec.models, spec.assignments@[n - 1].models)),
                );
            },
            None => {},
        }
    }
}

/// Everything that holds of one parameter set and its models, whatever its assignments.
#[verifier::opaque]
pub open spec fn scoped_rules(
    device_id: i32,
    identity: Seq<char>,
    p: FaceSwapParams,
    models: ModelSet,
) -> Seq<Option<SpecFault>> {
    seq![
        first_fault(head_rules(device_id, p, models)),
        digest_fault("identity_blake3"@, identity),
        session_fault(sessions_of(p, models)),
        first_fault(params_rules(p, false)),
        first_fault(models_rules(models)),
        first_fault(stage_rules(p, models)),
    ]
}

fn check_sessions_of(p: &FaceSwapParams, models: &ModelSet) -> (r: Result<(), EngineSpecError>)
    ensures
        fault_of(r) == session_fault(sessions_of(*p, *models)),
{
    let mut sessions: TextMap<String> = TextMap::new();
    let ghost none = Seq::<(Seq<char>, Seq<char>)>::empty();
    proof {
        assert(none + sessions_of(*p, *models) =~= sessions_of(*p, *models));
    }
    register_runtime_sessions(&mut sessions, p, models, Ghost(none))
}

fn check_scoped(device_id: i32, identity: &str, p: &FaceSwapParams, models: &ModelSet) -> (r: Result<
    (),
    EngineSpecError,
>)
    ensures
        fault_of(r) == first_fault(scoped_rules(device_id, identity@, *p, *models)),
{
    let results: Vec<Result<(), EngineSpecError>> = vec![
        check_head(device_id, p, models),
        validate_blake3("identity_blake3", identity),
        check_sessions_of(p, models),
        check_params(p, false),
        check_models(models),
        check_stages(p, models),
    ];
    proof {
        reveal(scoped_rules);
        assert(faults(results@) =~= scoped_rules(device_id, identity@, *p, *models));
    }
    first_error(results)
}

/// The name of a field of the `i`-th assignment.
pub open spec fn assignment_field(i: int, field: Seq<char>) -> Seq<char> {
    "assignments["@ + numeral(i as nat) + field
}

fn assignment_text(i: usize, field: &str) -> (r: String)
    ensures
        r@ == assignment_field(i as int, field@),
{
    let index: String = decimal(i as u64);
    join3("assignments[", index.as_str(), field)
}

/// The rules for the target-local controls and models of the `i`-th assignment.
pub open spec fn override_fault(spec: EngineSpec, i: int) -> Option<SpecFault> {
    let a = spec.assignments@[i];
    match a.params {
        Some(p) => if !share_generation(spec.params, p) {
            Some(
                SpecFault::InvalidAssignments(
                    assignment_field(
                        i,
                        "] overrides generation-wide detection, rotation, or enhancement controls"@,
                    ),
                ),
            )
        } else if p.identity.likeness_enabled && a.target_identity_blake3 is None {
            Some(
                SpecFault::InvalidAssignments(
                    assignment_field(i, "] enables face likeness without a target identity"@),
                ),
            )
        } else {
            first_fault(
                scoped_rules(spec.device_id, spec.identity_blake3@, p, overlay(spec.models, a.models)),
            )
        },
        None => if a.models.vacant() {
            None
        } else {
            Some(
                SpecFault::InvalidAssignments(
                    assignment_field(
                        i,
                        "] provides model overrides without target-local parameters"@,
                    ),
                ),
            )
        },
    }
}

/// The rules for the `i`-th assignment.
#[verifier::opaque]
pub open spec fn assignment_rules(spec: EngineSpec, i: int) -> Seq<Option<SpecFault>> {
    let a = spec.assignments@[i];
    seq![
        digest_fault(
            assignment_field(i, "].source_identity_blake3"@),
            a.source_identity_blake3@,
        ),
        match a.target_identity_blake3 {
            Some(target) => digest_fault(
                assignment_field(i, "].target_identity_blake3"@),
                target@,
            ),
            None => None,
        },
        float_fault(
            assignment_field(i, "].similarity_threshold"@),
            a.similarity_threshold,
            ZERO,
            ONE,
        ),
        if a.target_identity_blake3 is None && i + 1 != spec.assignments@.len() {
            Some(
                SpecFault::InvalidAssignments("an unscoped swap-all assignment must be last"@),
            )
        } else {
            None
        },
        override_fault(spec, i),
    ]
}

/// The rules for all assignments, in their order.
#[verifier::opaque]
pub open spec fn assignments_rules(spec: EngineSpec) -> Seq<Option<SpecFault>> {
    Seq::new(spec.assignments@.len(), |i: int| first_fault(assignment_rules(spec, i)))
}

/// Some assignment selects its target by an identity.
pub open spec fn has_target(spec: EngineSpec) -> bool {
    exists|i: int|
        0 <= i < spec.assignments@.len() && (
        #[trigger] spec.assignments@[i]).target_identity_blake3 is Some
}

/// Some assignment brings its own recognizer.
pub open spec fn brings_recognizer(spec: EngineSpec) -> bool {
    exists|i: int|
        0 <= i < spec.assignments@.len() && (#[trigger] spec.assignments@[i]).models.artifact(
            ModelRole::Recognizer,
        ) is Some
}

/// Where targets are selected by identity, somebody recognizes faces.
pub open spec fn recognizer_fault(spec: EngineSpec) -> Option<SpecFault> {
    if has_target(spec) && spec.models.artifact(ModelRole::Recognizer) is None
        && !brings_recognizer(spec) {
        Some(SpecFault::MissingModel(ModelRole::Recognizer))
    } else {
        None
    }
}

/// Face likeness is on, and some face that it applies to has no target identity.
pub open spec fn likeness_unmet(spec: EngineSpec) -> bool {
    &&& spec.params.identity.likeness_enabled
    &&& spec.assignments@.len() == 0 || exists|i: int|
        0 <= i < spec.assignments@.len() && (
        #[trigger] spec.assignments@[i]).target_identity_blake3 is None
}

/// All rules of a generation, in the order in which they are reported.
#[verifier::opaque]
pub open spec fn spec_rules(spec: EngineSpec) -> Seq<Option<SpecFault>> {
    seq![
        first_fault(head_rules(spec.device_id, spec.params, spec.models)),
        digest_fault("identity_blake3"@, spec.identity_blake3@),
        first_fault(assignments_rules(spec)),
        recognizer_fault(spec),
        session_fault(sessions_up_to(spec, spec.assignments@.len())),
        first_fault(params_rules(spec.params, likeness_unmet(spec))),
        first_fault(models_rules(spec.models)),
        first_fault(stage_rules(spec.params, spec.models)),
    ]
}

impl EngineSpec {
    /// The generation breaks no rule.
    pub open spec fn valid(self) -> bool {
        first_fault(spec_rules(self)) is None
    }

    fn check_override(&self, i: usize) -> (r: Result<(), EngineSpecError>)
        requires
            i < self.assignments.len(),
        ensures
            fault_of(r) == override_fault(*self, i as int),
    {
        let assignment: &FaceAssignmentSpec = &self.assignments[i];
        match &assignment.params {
            Some(params) => {
                if !same_generation_controls(&self.params, params) {
                    return Err(
                        EngineSpecError::InvalidAssignments(
                            assignment_text(
                                i,
                                "] overrides generation-wide detection, rotation, or enhancement controls",
                            ),
                        ),
                    );
                }
                if params.identity.likeness_enabled && assignment.target_identity_blake3.is_none() {
                    return Err(
                        EngineSpecError::InvalidAssignments(
                            assignment_text(
                                i,
                                "] enables face likeness without a target identity",
                            ),
                        ),
                    );
                }
                let models: ModelSet = self.models.overlaid(&assignment.models);
                check_scoped(self.device_id, self.identity_blake3.as_str(), params, &models)
            },
            None => {
                if assignment.models.is_empty() {
                    Ok(())
                } else {
                    Err(
                        EngineSpecError::InvalidAssignments(
                            assignment_text(
                                i,
                                "] provides model overrides without target-local parameters",
                            ),
                        ),
                    )
                }
            },
        }
    }

    fn check_assignment(&self, i: usize) -> (r: Result<(), EngineSpecError>)
        requires
            i < self.assignments.len(),
        ensures
            fault_of(r) == first_fault(assignment_rules(*self, i as int)),
    {
        let assignment: &FaceAssignmentSpec = &self.assignments[i];
        let source_field: String = assignment_text(i, "].source_identity_blake3");
        let target_field: String = assignment_text(i, "].target_identity_blake3");
        let threshold_field: String = assignment_text(i, "].similarity_threshold");
        let target: Result<(), EngineSpecError> = match &assignment.target_identity_blake3 {
            Some(digest) => validate_blake3(target_field.as_str(), digest.as_str()),
            None => Ok(()),
        };
        let order: Result<(), EngineSpecError> = if assignment.target_identity_blake3.is_none() && i
            + 1 != self.assignments.len() {
            Err(
                EngineSpecError::InvalidAssignments(
                    "an unscoped swap-all assignment must be last".to_owned(),
                ),
            )
        } else {
            Ok(())
        };
        let results: Vec<Result<(), EngineSpecError>> = vec![
            validate_blake3(
                source_field.as_str(),
                assignment.source_identity_blake3.as_str(),
            ),
            target,
            validate_float_range(
                threshold_field.as_str(),
                assignment.similarity_threshold,
                ZERO,
                ONE,
            ),
            order,
            self.check_override(i),
        ];
        proof {
            reveal(assignment_rules);
            assert(faults(results@) =~= assignment_rules(*self, i as int));
        }
        first_error(results)
    }

    fn check_assignments(&self) -> (r: Result<(), EngineSpecError>)
        ensures
            fault_of(r) == first_fault(assignments_rules(*self)),
    {
        let mut results: Vec<Result<(), EngineSpecError>> = Vec::new();
        let mut i: usize = 0;
        proof {
            reveal(assignments_rules);
            assert(faults(results@) =~= assignments_rules(*self).take(0));
        }
        while i < self.assignments.len()
            invariant
                i <= self.assignments.len(),
                assignments_rules(*self).len() == self.assignments.len(),
                faults(results@) == assignments_rules(*self).take(i as int),
            decreases self.assignments.len() - i,
        {
            let result = self.check_assignment(i);
            proof {
                reveal(assignments_rules);
                faults_grow(results@, result, assignments_rules(*self), i as int);
            }
            results.push(result);
            i = i + 1;
        }
        proof {
            assert(assignments_rules(*self).take(self.assignments.len() as int)
                =~= assignments_rules(*self));
        }
        first_error(results)
    }

    fn check_recognizer(&self) -> (r: Result<(), EngineSpecError>)
        ensures
            fault_of(r) == recognizer_fault(*self),
    {
        let mut targeted = false;
        let mut brought = false;
        let mut i: usize = 0;
        while i < self.assignments.len()
            invariant
                i <= self.assignments.len(),
                targeted == exists|j: int|
                    0 <= j < i && (#[trigger] self.assignments@[j]).target_identity_blake3 is Some,
                brought == exists|j: int|
                    0 <= j < i && (#[trigger] self.assignments@[j]).models.artifact(
                        ModelRole::Recognizer,
                    ) is Some,
            decreases self.assignments.len() - i,
        {
            let assignment: &FaceAssignmentSpec = &self.assignments[i];
            proof {
                assert(self.assignments@[i as int] == *assignment);
            }
            if assignment.target_identity_blake3.is_some() {
                targeted = true;
            }
            if assignment.models.get(ModelRole::Recognizer).is_some() {
                brought = true;
            }
            i = i + 1;
        }
        if targeted && self.models.get(ModelRole::Recognizer).is_none() && !brought {
            Err(EngineSpecError::MissingModel(ModelRole::Recognizer))
        } else {
            Ok(())
        }
    }

    fn check_sessions(&self) -> (r: Result<(), EngineSpecError>)
        ensures
            fault_of(r) == session_fault(sessions_up_to(*self, self.assignments@.len())),
    {
        let mut sessions: TextMap<String> = TextMap::new();
        let ghost none = Seq::<(Seq<char>, Seq<char>)>::empty();
        let ghost total = self.assignments@.len();
        proof {
            assert(none + sessions_of(self.params, self.models) =~= sessions_up_to(*self, 0));
        }
        if let Err(e) = register_runtime_sessions(
            &mut sessions,
            &self.params,
            &self.models,
            Ghost(none),
        ) {
            proof {
                sessions_fault_persists(*self, 0, total);
            }
            return Err(e);
        }
        let mut i: usize = 0;
        while i < self.assignments.len()
            invariant
                i <= self.assignments.len(),
                total == self.assignments@.len(),
                session_fault(sessions_up_to(*self, i as nat)) is None,
                records(sessions@, sessions_up_to(*self, i as nat)),
            decreases self.assignments.len() - i,
        {
            let assignment: &FaceAssignmentSpec = &self.assignments[i];
            if let Some(params) = &assignment.params {
                let models: ModelSet = self.models.overlaid(&assignment.models);
                let ghost seen = sessions_up_to(*self, i as nat);
                if let Err(e) = register_runtime_sessions(
                    &mut sessions,
                    params,
                    &models,
                    Ghost(seen),
                ) {
                    proof {
                        sessions_fault_persists(*self, (i + 1) as nat, total);
                    }
                    return Err(e);
                }
            }
            i = i + 1;
        }
        Ok(())
    }

    fn misses_target(&self) -> (r: bool)
        ensures
            r == likeness_unmet(*self),
    {
        if !self.params.identity.likeness_enabled {
            return false;
        }
        if self.assignments.len() == 0 {
            return true;
        }
        let mut i: usize = 0;
        while i < self.assignments.len()
            invariant
                i <= self.assignments.len(),
                self.params.identity.likeness_enabled,
                forall|j: int|
                    0 <= j < i ==> (#[trigger] self.assignments@[j]).target_identity_blake3 is Some,
            decreases self.assignments.len() - i,
        {
            if self.assignments[i].target_identity_blake3.is_none() {
                assert(self.assignments@[i as int].target_identity_blake3 is None);
                return true;
            }
            i = i + 1;
        }
        false
    }

    /// Rejects incomplete or unsupported generations before GPU memory is allocated: the error is
    /// the first rule that is broken.
    pub fn validate(&self) -> (r: Result<(), EngineSpecError>)
        ensures
            fault_of(r) == first_fault(spec_rules(*self)),
            r is Ok <==> self.valid(),
    {
        let unmet = self.misses_target();
        let results: Vec<Result<(), EngineSpecError>> = vec![
            check_head(self.device_id, &self.params, &self.models),
            validate_blake3("identity_blake3", self.identity_blake3.as_str()),
            self.check_assignments(),
            self.check_recognizer(),
            self.check_sessions(),
            check_params(&self.params, unmet),
            check_models(&self.models),
            check_stages(&self.params, &self.models),
        ];
        proof {
            reveal(spec_rules);
            assert(faults(results@) =~= spec_rules(*self));
        }
        first_error(results)
    }

    /// Stable identifier used to coalesce and compare generation requests: the digest of the
    /// serialized form of a valid specification.
    pub fn generation_digest<F>(&self, serialize: &F) -> (r: Result<String, EngineSpecError>) where
        F: Fn(&EngineSpec) -> Result<Vec<u8>, String>,

        requires
            call_requires(*serialize, (self,)),
        ensures
            match r {
                Ok(id) => self.valid() && identifies(*serialize, *self, id@),
                Err(e) => digest_refused(*serialize, *self, e),
            },
    {
        match self.validate() {
            Ok(()) => match serialize(self) {
                Ok(bytes) => Ok(digest_of(bytes.as_slice())),
                Err(reason) => Err(EngineSpecError::Serialization(reason)),
            },
            Err(e) => Err(e),
        }
    }
}

/// `id` is the digest of a serialized form of `spec`.
pub open spec fn identifies<F>(serialize: F, spec: EngineSpec, id: Seq<char>) -> bool where
    F: Fn(&EngineSpec) -> Result<Vec<u8>, String>,
 {
    exists|bytes: Vec<u8>|
        #![trigger call_ensures(serialize, (&spec,), Ok::<Vec<u8>, String>(bytes))]
        call_ensures(serialize, (&spec,), Ok::<Vec<u8>, String>(bytes)) && id == lower_hex(
            blake3_of(bytes@),
        ) && is_digest(id)
}

/// Why a specification has no identifier: its first fault, or else that it cannot be serialized.
pub open spec fn digest_refused<F>(serialize: F, spec: EngineSpec, e: EngineSpecError) -> bool where
    F: Fn(&EngineSpec) -> Result<Vec<u8>, String>,
 {
    if spec.valid() {
        e matches EngineSpecError::Serialization(reason) && call_ensures(
            serialize,
            (&spec,),
            Err::<Vec<u8>, String>(reason),
        )
    } else {
        first_fault(spec_rules(spec)) == Some(e@)
    }
}

/// A serializer has at most one result for a specification.
pub open spec fn serializes_one_way<F>(serialize: F, spec: EngineSpec) -> bool where
    F: Fn(&EngineSpec) -> Result<Vec<u8>, String>,
 {
    forall|x: Result<Vec<u8>, String>, y: Result<Vec<u8>, String>| #[trigger]
        call_ensures(serialize, (&spec,), x) && #[trigger] call_ensures(serialize, (&spec,), y)
            ==> x == y
}

/// The identifier of a specification is stable: every call gives the same one, whatever was asked
/// in between.
pub proof fn digest_is_stable<F>(serialize: F, spec: EngineSpec, a: Seq<char>, b: Seq<char>) where
    F: Fn(&EngineSpec) -> Result<Vec<u8>, String>,

    requires
        serializes_one_way(serialize, spec),
        identifies(serialize, spec, a),
        identifies(serialize, spec, b),
    ensures
        a == b,
{
}

/// So is its refusal: a specification that is refused is refused again, for the same reason, and
/// has no identifier.
pub proof fn refusal_is_stable<F>(
    serialize: F,
    spec: EngineSpec,
    a: EngineSpecError,
    b: EngineSpecError,
    id: Seq<char>,
) where F: Fn(&EngineSpec) -> Result<Vec<u8>, String>
    requires
        serializes_one_way(serialize, spec),
        digest_refused(serialize, spec, a),
        digest_refused(serialize, spec, b),
    ensures
        a@ == b@,
        !(spec.valid() && identifies(serialize, spec, id)),
{
}

} // verus!
