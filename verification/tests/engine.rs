use noperson::config::{
    DetectorModel, EnhancerModel, ExecutionProvider, FaceSwapParams, LandmarkMode,
    RestorerAlignment, RestorerSize, SwapDim, SwapperModel,
};
use noperson::engine::builder::{
    BuildCancellation, BuildEnd, BuildFlags, BuildPhase, BuildRequestOutcome, ShadowBuildQueue,
};
use noperson::engine::digest::digest_of;
use noperson::engine::models::{ModelArtifact, ModelRole, ModelSet, ROLE_COUNT};
use noperson::engine::rules::{
    validate_blake3, validate_float_range, validate_range, validate_restorer, EngineSpecError,
};
use noperson::engine::spec::{same_generation_controls, EngineSpec, FaceAssignmentSpec};
use noperson::engine::supervisor::{
    ActivationError, ActivationOutcome, EngineGeneration, EngineSupervisor, FrameOutcome,
    ProbationUpdate, SupervisorPhase,
};
use noperson::number::Single;

fn single(value: f32) -> Single {
    Single { bits: value.to_bits() }
}

fn artifact(name: &str, file: &str, digit: char) -> ModelArtifact {
    ModelArtifact {
        logical_name: name.to_owned(),
        filename: file.to_owned(),
        blake3: digit.to_string().repeat(64),
    }
}

fn base_models() -> ModelSet {
    let mut models = ModelSet::new();
    models.set(ModelRole::Detector, Some(artifact("YoloFace8n", "yolo.onnx", '1')));
    models.set(ModelRole::Recognizer, Some(artifact("ArcFace", "arc.onnx", '2')));
    models.set(ModelRole::Swapper, Some(artifact("Inswapper128", "swap.onnx", '3')));
    models.set(ModelRole::Emap, Some(artifact("Emap", "emap.bin", '4')));
    models
}

fn plain_params() -> FaceSwapParams {
    let mut params = FaceSwapParams::default();
    params.landmark.enabled = false;
    params.restoration.first.enabled = false;
    params.restoration.second.enabled = false;
    params.masks.segmentation.occluder_enabled = false;
    params.masks.segmentation.xseg_enabled = false;
    params.masks.faceparser.enabled = false;
    params.masks.restore_mouth.enabled = false;
    params.masks.restore_eyes.enabled = false;
    params.enhancer.enabled = false;
    params
}

fn valid_spec() -> EngineSpec {
    EngineSpec {
        provider: ExecutionProvider::Cuda,
        device_id: 0,
        detector: DetectorModel::YoloFace8n,
        identity_blake3: "a".repeat(64),
        assignments: Vec::new(),
        models: base_models(),
        params: plain_params(),
    }
}

fn assignment(source: char, target: Option<char>) -> FaceAssignmentSpec {
    FaceAssignmentSpec {
        source_identity_blake3: source.to_string().repeat(64),
        target_identity_blake3: target.map(|c| c.to_string().repeat(64)),
        similarity_threshold: single(0.6),
        params: None,
        models: ModelSet::new(),
    }
}

fn refused(spec: &EngineSpec) -> EngineSpecError {
    spec.validate().expect_err("the specification should be refused")
}

#[test]
fn a_complete_specification_is_accepted() {
    assert_eq!(valid_spec().validate(), Ok(()));
}

#[test]
fn a_missing_model_is_reported_by_role() {
    for role in [ModelRole::Detector, ModelRole::Recognizer, ModelRole::Swapper, ModelRole::Emap] {
        let mut spec = valid_spec();
        spec.models.set(role, None);
        assert_eq!(refused(&spec), EngineSpecError::MissingModel(role));
    }
    let mut spec = valid_spec();
    spec.params.swapper.model = SwapperModel::Dfm;
    assert_eq!(refused(&spec), EngineSpecError::MissingModel(ModelRole::Dfm));
}

#[test]
fn a_device_needs_an_id() {
    let mut spec = valid_spec();
    spec.device_id = -1;
    assert_eq!(refused(&spec), EngineSpecError::InvalidDeviceId(-1));
}

#[test]
fn digests_are_lowercase_hexadecimal() {
    let mut spec = valid_spec();
    spec.identity_blake3 = "A".repeat(64);
    assert_eq!(
        refused(&spec),
        EngineSpecError::InvalidBlake3 {
            field: "identity_blake3".to_owned(),
            value: "A".repeat(64)
        }
    );
    assert!(validate_blake3("x", &"0".repeat(63)).is_err());
    assert!(validate_blake3("x", &"f".repeat(64)).is_ok());
    assert!(validate_blake3("x", &"g".repeat(64)).is_err());
}

#[test]
fn names_of_models_are_not_blank_and_files_stay_inside() {
    let mut spec = valid_spec();
    spec.models.set(ModelRole::Swapper, Some(artifact("  ", "swap.onnx", '3')));
    assert_eq!(
        refused(&spec),
        EngineSpecError::EmptyField("models.swapper.logical_name".to_owned())
    );
    for file in ["/etc/passwd", "../swap.onnx", "a/../../b"] {
        let mut spec = valid_spec();
        spec.models.set(ModelRole::Swapper, Some(artifact("Inswapper128", file, '3')));
        assert_eq!(
            refused(&spec),
            EngineSpecError::InvalidFilename {
                role: ModelRole::Swapper,
                filename: file.to_owned()
            }
        );
    }
    let mut spec = valid_spec();
    spec.models.set(ModelRole::Swapper, Some(artifact("Inswapper128", "dir/swap.onnx", '3')));
    assert_eq!(spec.validate(), Ok(()));
}

#[test]
fn the_selected_landmark_model_plays_the_role() {
    let mut spec = valid_spec();
    spec.params.landmark.enabled = true;
    spec.params.landmark.mode = LandmarkMode::Points203;
    assert_eq!(refused(&spec), EngineSpecError::MissingModel(ModelRole::Landmark));
    spec.models.set(ModelRole::Landmark, Some(artifact("Other", "l.onnx", '5')));
    assert_eq!(
        refused(&spec),
        EngineSpecError::LandmarkModelMismatch {
            selected: LandmarkMode::Points203.registry_name().to_owned(),
            artifact: "Other".to_owned()
        }
    );
    let name = LandmarkMode::Points203.registry_name();
    spec.models.set(ModelRole::Landmark, Some(artifact(name, "l.onnx", '5')));
    assert_eq!(spec.validate(), Ok(()));
}

#[test]
fn a_reference_alignment_needs_its_landmark_model() {
    let mut spec = valid_spec();
    spec.params.restoration.first.enabled = true;
    spec.params.restoration.first.alignment = RestorerAlignment::Reference;
    assert_eq!(refused(&spec), EngineSpecError::MissingModel(ModelRole::RestorerLandmark));
}

#[test]
fn restorers_are_known_by_their_letters_and_digits() {
    for name in ["GPEN-BFR-256", "gpen 512", "GPENBFR512", "gpen_256"] {
        assert!(validate_restorer(name).is_ok(), "{name}");
    }
    assert_eq!(
        validate_restorer("CodeFormer"),
        Err(EngineSpecError::UnsupportedRestorer("CodeFormer".to_owned()))
    );
}

#[test]
fn numbers_stay_in_their_ranges() {
    let mut spec = valid_spec();
    spec.params.detection.max_faces = 51;
    assert_eq!(
        refused(&spec),
        EngineSpecError::InvalidMaskControl {
            control: "max_faces".to_owned(),
            value: 51,
            min: 1,
            max: 50
        }
    );
    let mut spec = valid_spec();
    spec.params.color.adjust.hue = single(0.75);
    assert_eq!(
        refused(&spec),
        EngineSpecError::InvalidFloatControl {
            control: "color_adjust.hue".to_owned(),
            value: single(0.75),
            min: single(-0.5),
            max: single(0.5)
        }
    );
    let mut spec = valid_spec();
    spec.params.identity.strength = single(f32::NAN);
    assert!(matches!(refused(&spec), EngineSpecError::InvalidFloatControl { .. }));
    assert!(validate_range("x", 0, -1, 1).is_ok());
    assert!(validate_range("x", 2, -1, 1).is_err());
    assert!(validate_float_range("x", single(1.0), 0, single(1.0).bits).is_ok());
}

#[test]
fn an_enhancer_blends_between_nothing_and_all() {
    let mut spec = valid_spec();
    spec.params.enhancer.blend = single(1.5);
    assert_eq!(refused(&spec), EngineSpecError::InvalidEnhancerBlend(single(1.5)));
}

#[test]
fn the_selected_enhancer_plays_the_role() {
    let mut spec = valid_spec();
    spec.params.enhancer.enabled = true;
    spec.params.enhancer.model = EnhancerModel::UltraMixX4;
    assert_eq!(refused(&spec), EngineSpecError::MissingModel(ModelRole::Enhancer));
    spec.models.set(ModelRole::Enhancer, Some(artifact("Other", "e.onnx", '6')));
    assert_eq!(
        refused(&spec),
        EngineSpecError::EnhancerModelMismatch {
            selected: EnhancerModel::UltraMixX4.registry_name().to_owned(),
            artifact: "Other".to_owned()
        }
    );
}

#[test]
fn the_selected_dfm_plays_the_role() {
    let mut spec = valid_spec();
    spec.params.swapper.model = SwapperModel::Dfm;
    spec.params.swapper.dfm_model = "wanted.dfm".to_owned();
    spec.models.set(ModelRole::Dfm, Some(artifact("Dfm", "other.dfm", '7')));
    assert_eq!(
        refused(&spec),
        EngineSpecError::DfmModelMismatch {
            selected: "wanted.dfm".to_owned(),
            artifact: "other.dfm".to_owned()
        }
    );
    spec.models.set(ModelRole::Dfm, Some(artifact("Dfm", "wanted.dfm", '7')));
    assert_eq!(spec.validate(), Ok(()));
}

#[test]
fn assignments_name_their_targets_before_the_one_for_all_faces() {
    let mut spec = valid_spec();
    spec.assignments = vec![assignment('b', Some('c')), assignment('d', None)];
    spec.assignments[0].source_identity_blake3 = "a".repeat(64);
    spec.identity_blake3 = "a".repeat(64);
    assert_eq!(spec.validate(), Ok(()));
    spec.assignments = vec![assignment('a', None), assignment('d', Some('c'))];
    assert!(matches!(refused(&spec), EngineSpecError::InvalidAssignments(_)));
}

#[test]
fn a_generation_shares_detection_and_enhancement() {
    let a = plain_params();
    let mut b = plain_params();
    assert!(same_generation_controls(&a, &b));
    b.dim = SwapDim::Dim4;
    assert!(same_generation_controls(&a, &b));
    b.detection.auto_rotation = !b.detection.auto_rotation;
    assert!(!same_generation_controls(&a, &b));
}

#[test]
fn digests_come_from_the_hash_of_the_content() {
    assert_eq!(
        digest_of(b""),
        "af1349b9f5f9a1a6a0404dea36dcc9499bcb25c9adc112b7cc9a93cae41f3262"
    );
    assert_ne!(digest_of(b"a"), digest_of(b"b"));
    let spec = valid_spec();
    assert_eq!(spec.generation_digest(&form), Ok(digest_of(b"0")));
    assert_eq!(spec_on(7).generation_digest(&form), Ok(digest_of(b"7")));
    let mut wrong = valid_spec();
    wrong.device_id = -1;
    assert_eq!(wrong.generation_digest(&form), Err(EngineSpecError::InvalidDeviceId(-1)));
    let failing = |_: &EngineSpec| -> Result<Vec<u8>, String> { Err("no writer".to_owned()) };
    assert_eq!(
        spec.generation_digest(&failing),
        Err(EngineSpecError::Serialization("no writer".to_owned()))
    );
    assert_eq!(wrong.generation_digest(&failing), Err(EngineSpecError::InvalidDeviceId(-1)));
}

#[test]
fn every_role_has_its_model_and_name() {
    let names: Vec<&str> = (0..ROLE_COUNT).map(|i| ModelRole::at(i).as_str()).collect();
    let mut sorted = names.clone();
    sorted.sort();
    sorted.dedup();
    assert_eq!(sorted.len(), 13);
    assert_eq!(names[0], "detector");
    let mut models = ModelSet::new();
    assert!(models.is_empty());
    models.set(ModelRole::Xseg, Some(artifact("X", "x", '0')));
    assert!(!models.is_empty());
    assert_eq!(models.get(ModelRole::Xseg), Some(&artifact("X", "x", '0')));
    let over = base_models().overlaid(&models);
    assert_eq!(over.get(ModelRole::Xseg), Some(&artifact("X", "x", '0')));
    assert!(over.get(ModelRole::Detector).is_some());
    let own = over.own(&base_models());
    assert!(own.get(ModelRole::Detector).is_none());
    assert!(own.get(ModelRole::Xseg).is_some());
}

/// The device alone tells these specifications apart.
fn form(spec: &EngineSpec) -> Result<Vec<u8>, String> {
    Ok(spec.device_id.to_string().into_bytes())
}

fn spec_on(device: i32) -> EngineSpec {
    let mut spec = valid_spec();
    spec.device_id = device;
    spec
}

fn generation(device: i32, engine: u32) -> EngineGeneration<u32> {
    EngineGeneration::new(spec_on(device), engine, &form).expect("a valid generation")
}

#[test]
fn a_candidate_is_promoted_after_its_probation() {
    let mut supervisor = EngineSupervisor::new(generation(1, 1), 2);
    assert_eq!(supervisor.snapshot().phase, SupervisorPhase::Stable);
    let old_frame = supervisor.begin_frame();
    assert_eq!(
        supervisor.activate(generation(1, 9)),
        Ok(ActivationOutcome::AlreadyActive)
    );
    assert_eq!(supervisor.activate(generation(2, 2)), Ok(ActivationOutcome::Activated));
    assert_eq!(*old_frame.engine(), 1);
    assert_eq!(*supervisor.begin_frame().engine(), 2);
    let two = digest_of(b"2");
    assert_eq!(
        supervisor.activate(generation(3, 3)),
        Err(ActivationError::ProbationInProgress { candidate_generation: two.clone() })
    );
    assert_eq!(
        supervisor.record_frame(old_frame.id(), FrameOutcome::Failure),
        ProbationUpdate::Ignored
    );
    assert_eq!(
        supervisor.record_frame(&two, FrameOutcome::Success),
        ProbationUpdate::Pending { remaining_frames: 1 }
    );
    assert_eq!(
        supervisor.record_frame(&two, FrameOutcome::Success),
        ProbationUpdate::Promoted { generation: two.clone() }
    );
    let snapshot = supervisor.snapshot();
    assert_eq!(snapshot.phase, SupervisorPhase::Stable);
    assert_eq!(snapshot.active_generation, two);
    assert_eq!(snapshot.rollback_generation, None);
}

#[test]
fn a_failing_candidate_is_rolled_back() {
    let mut supervisor = EngineSupervisor::new(generation(1, 1), 3);
    let one = digest_of(b"1");
    let two = digest_of(b"2");
    assert_eq!(supervisor.activate(generation(2, 2)), Ok(ActivationOutcome::Activated));
    assert_eq!(supervisor.snapshot().probation_remaining_frames, Some(3));
    let _ = supervisor.record_frame(&two, FrameOutcome::Success);
    assert_eq!(
        supervisor.record_frame(&two, FrameOutcome::Failure),
        ProbationUpdate::RolledBack {
            rejected_generation: two,
            restored_generation: one.clone()
        }
    );
    assert_eq!(*supervisor.begin_frame().engine(), 1);
    assert_eq!(supervisor.snapshot().active_generation, one);
}

#[test]
fn a_later_request_takes_the_place_of_an_earlier_one() {
    let mut queue: ShadowBuildQueue<u32> = ShadowBuildQueue::new();
    assert_eq!(queue.snapshot().phase, BuildPhase::Idle);
    let first = digest_of(b"1");
    let second = digest_of(b"2");
    assert_eq!(
        queue.request(spec_on(1), &form),
        Ok(BuildRequestOutcome::Queued { generation: first.clone() })
    );
    assert_eq!(
        queue.request(spec_on(1), &form),
        Ok(BuildRequestOutcome::Coalesced { generation: first.clone() })
    );
    let (pending, _) = queue.begin_build().expect("a build was asked for");
    assert_eq!(pending.generation(), first);
    assert_eq!(pending.spec().device_id, 1);
    assert!(!queue.build_cancelled());
    assert_eq!(
        queue.request(spec_on(1), &form),
        Ok(BuildRequestOutcome::Coalesced { generation: first })
    );
    assert_eq!(
        queue.request(spec_on(2), &form),
        Ok(BuildRequestOutcome::Queued { generation: second.clone() })
    );
    assert!(queue.build_cancelled());
    assert_eq!(queue.finish_build(pending, Ok(1)), BuildEnd::Discarded);
    let (pending, _) = queue.begin_build().expect("the later build");
    assert_eq!(pending.generation(), second);
    assert_eq!(queue.snapshot().phase, BuildPhase::Building);
    assert_eq!(queue.finish_build(pending, Ok(2)), BuildEnd::Settled);
    assert_eq!(queue.snapshot().phase, BuildPhase::Ready);
    assert_eq!(queue.snapshot().ready_generation, Some(second.clone()));
    assert!(queue.is_settled());
    let ready = queue.take_ready().expect("the later generation");
    assert_eq!(ready.id(), second);
    assert_eq!(ready.spec().device_id, 2);
    assert_eq!(*ready.engine(), 2);
    assert_eq!(queue.snapshot().phase, BuildPhase::Idle);
}

#[test]
fn a_renewed_request_is_built_again() {
    let mut queue: ShadowBuildQueue<u32> = ShadowBuildQueue::new();
    let first = digest_of(b"1");
    let _ = queue.request(spec_on(1), &form);
    let (stopped, _) = queue.begin_build().expect("the first build");
    let _ = queue.request(spec_on(2), &form);
    assert_eq!(
        queue.request(spec_on(1), &form),
        Ok(BuildRequestOutcome::Queued { generation: first.clone() })
    );
    assert_eq!(queue.snapshot().queued_generation, Some(first.clone()));
    assert!(queue.build_cancelled());
    assert_eq!(queue.finish_build(stopped, Ok(1)), BuildEnd::Discarded);
    let (renewed, _) = queue.begin_build().expect("the first build again");
    assert_eq!(renewed.generation(), first);
    assert_eq!(queue.finish_build(renewed, Ok(3)), BuildEnd::Settled);
    assert_eq!(queue.take_ready().map(|g| *g.engine()), Some(3));
}

#[test]
fn a_request_after_cancelling_is_not_lost() {
    let mut queue: ShadowBuildQueue<u32> = ShadowBuildQueue::new();
    let first = digest_of(b"1");
    let _ = queue.request(spec_on(1), &form);
    let (stopped, _) = queue.begin_build().expect("the first build");
    queue.cancel_pending();
    assert_eq!(
        queue.request(spec_on(1), &form),
        Ok(BuildRequestOutcome::Queued { generation: first.clone() })
    );
    assert_eq!(queue.finish_build(stopped, Ok(1)), BuildEnd::Discarded);
    assert_eq!(queue.begin_build().expect("the build").0.generation(), first);
}

#[test]
fn only_the_build_that_runs_can_end() {
    let mut queue: ShadowBuildQueue<u32> = ShadowBuildQueue::new();
    let _ = queue.request(spec_on(1), &form);
    let (first, _) = queue.begin_build().expect("the first build");
    let mut other: ShadowBuildQueue<u32> = ShadowBuildQueue::new();
    let _ = other.request(spec_on(2), &form);
    let (foreign, _) = other.begin_build().expect("a build elsewhere");
    assert_eq!(queue.finish_build(foreign, Ok(9)), BuildEnd::Discarded);
    assert_eq!(queue.snapshot().phase, BuildPhase::Building);
    assert_eq!(queue.finish_build(first, Ok(1)), BuildEnd::Settled);
    assert_eq!(queue.snapshot().ready_generation, Some(digest_of(b"1")));
}

#[test]
fn a_failed_build_tells_why() {
    let mut queue: ShadowBuildQueue<u32> = ShadowBuildQueue::new();
    let _ = queue.request(spec_on(1), &form);
    let (pending, _) = queue.begin_build().expect("a build");
    assert_eq!(queue.finish_build(pending, Err("no memory".to_owned())), BuildEnd::Settled);
    let snapshot = queue.snapshot();
    assert_eq!(snapshot.phase, BuildPhase::Failed);
    assert_eq!(snapshot.last_failure.as_deref(), Some("no memory"));
    assert_eq!(queue.request(spec_on(-2), &form), Err(EngineSpecError::InvalidDeviceId(-2)));
}

#[test]
fn a_cancelled_build_leaves_nothing() {
    let mut queue: ShadowBuildQueue<u32> = ShadowBuildQueue::new();
    let _ = queue.request(spec_on(1), &form);
    let (pending, _) = queue.begin_build().expect("a build");
    queue.cancel_pending();
    assert!(queue.build_cancelled());
    assert_eq!(queue.finish_build(pending, Ok(1)), BuildEnd::Discarded);
    assert_eq!(queue.snapshot().phase, BuildPhase::Idle);
    let _ = queue.request(spec_on(1), &form);
    let (pending, _) = queue.begin_build().expect("a build");
    queue.shut_down();
    assert!(queue.is_shut_down());
    assert_eq!(queue.finish_build(pending, Ok(1)), BuildEnd::Stopped);
    assert!(queue.begin_build().is_none());
}

#[test]
fn clones_of_a_cancellation_share_its_flag() {
    let mut flags = BuildFlags::new();
    let first = flags.fresh();
    let second = flags.fresh();
    let clone: BuildCancellation = first.clone();
    assert!(!first.is_cancelled(&flags) && !clone.is_cancelled(&flags));
    clone.cancel(&mut flags);
    assert!(first.is_cancelled(&flags) && clone.is_cancelled(&flags));
    assert!(!second.is_cancelled(&flags));
    let third = flags.fresh();
    assert!(first.is_cancelled(&flags));
    assert!(!third.is_cancelled(&flags));
}

#[test]
fn the_worker_sees_that_its_build_was_cancelled() {
    let mut queue: ShadowBuildQueue<u32> = ShadowBuildQueue::new();
    let _ = queue.request(spec_on(1), &form);
    let (first, stopped) = queue.begin_build().expect("the first build");
    assert!(!stopped.is_cancelled(queue.flags()));
    let _ = queue.request(spec_on(2), &form);
    assert!(stopped.is_cancelled(queue.flags()));
    let _ = queue.finish_build(first, Ok(1));
    let (_, runs) = queue.begin_build().expect("the second build");
    assert!(!runs.is_cancelled(queue.flags()));
    assert!(stopped.is_cancelled(queue.flags()));
}

#[test]
fn a_digest_is_the_same_at_every_call() {
    let spec = spec_on(3);
    let once = spec.generation_digest(&form);
    let _ = spec_on(4).generation_digest(&form);
    assert_eq!(spec.generation_digest(&form), once);
    assert_eq!(spec_on(3).generation_digest(&form), once);
    let refused = spec_on(-1);
    assert_eq!(refused.generation_digest(&form), refused.generation_digest(&form));
}

#[test]
fn the_size_of_a_restorer_is_supported() {
    let mut spec = valid_spec();
    spec.params.restoration.first.enabled = true;
    spec.params.restoration.first.size = RestorerSize::Gpen1024;
    assert!(matches!(refused(&spec), EngineSpecError::UnsupportedRestorer(_)));
}
