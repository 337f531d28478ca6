use noperson::bridge::choices::{restorer_alignment, restorer_size};
use noperson::bridge::read::ControlBridgeError;
use noperson::bridge::request::{copy_generation_controls, EditorEngineRequest, FaceIdentityInput};
use noperson::bridge::settings::EditorRuntimeConfig;
use noperson::config::{
    AutoColorMode, DetectorModel, ExecutionProvider, FaceSwapParams, LandmarkMode,
    RestorerAlignment, RestorerSize, SimilarityType, SwapDim, SwapperModel,
};
use noperson::controls::{
    control_catalog, ChoiceSource, ControlKind, ControlScope, ControlSpec, ControlState,
    ControlValue, Visibility,
};
use noperson::embeddings::{EmbeddingMergeMethod, EmbeddingStore};
use noperson::engine::models::{ModelArtifact, ModelRole, ModelSet};
use noperson::engine::spec::EngineSpec;
use noperson::faces::{FaceWorkspace, ARC_FACE_MODEL};
use noperson::number::{Double, NumberText, Single};
use noperson::ordered::TextMap;
use noperson::runtime::PredecodeMode;

const TOGGLES: &[&str] = &[
    "AutoColorEnableToggle",
    "AutoRotationToggle",
    "AutoSwapToggle",
    "ColorEnableToggle",
    "DFLXSegEnableToggle",
    "DFMRCTColorToggle",
    "DetectFromPointsToggle",
    "DifferencingEnableToggle",
    "FaceAdjEnableToggle",
    "FaceLikenessEnableToggle",
    "FaceParserEnableToggle",
    "FaceParserHairMakeupEnableToggle",
    "FaceParserLipsMakeupEnableToggle",
    "FaceRestorerEnable2Toggle",
    "FaceRestorerEnableToggle",
    "FinalBlendAdjEnableToggle",
    "FrameEnhancerEnableToggle",
    "InputFacesFolderRecursiveToggle",
    "JPEGCompressionEnableToggle",
    "LandmarkDetectToggle",
    "LandmarksPositionAdjEnableToggle",
    "ManualRotationEnableToggle",
    "OccluderEnableToggle",
    "RestoreEyesEnableToggle",
    "RestoreMouthEnableToggle",
    "ScrollChangesValuesToggle",
    "ShowAllDetectedFacesBBoxToggle",
    "ShowLandmarksEnableToggle",
    "StrengthEnableToggle",
    "TargetMediaFolderRecursiveToggle",
    "VideoPlaybackCustomFpsToggle",
];

const SLIDERS: &[&str] = &[
    "AutoColorBlendAmountSlider",
    "BackgroundBlurParserSlider",
    "BackgroundParserSlider",
    "BorderBlurSlider",
    "BorderBottomSlider",
    "BorderLeftSlider",
    "BorderRightSlider",
    "BorderTopSlider",
    "ColorBlueSlider",
    "ColorBrightnessDecimalSlider",
    "ColorContrastDecimalSlider",
    "ColorGammaDecimalSlider",
    "ColorGreenSlider",
    "ColorHueDecimalSlider",
    "ColorNoiseDecimalSlider",
    "ColorRedSlider",
    "ColorSaturationDecimalSlider",
    "ColorSharpnessDecimalSlider",
    "DFLXSegSizeSlider",
    "DFMAmpMorphSlider",
    "DetectorScoreSlider",
    "DifferencingAmountSlider",
    "DifferencingBlendAmountSlider",
    "EyeGlassesParserSlider",
    "EyeLeftXAmountSlider",
    "EyeLeftYAmountSlider",
    "EyeRightXAmountSlider",
    "EyeRightYAmountSlider",
    "FaceBlurParserSlider",
    "FaceFidelityWeight2DecimalSlider",
    "FaceFidelityWeightDecimalSlider",
    "FaceLikenessFactorDecimalSlider",
    "FaceParserHairMakeupBlendAmountDecimalSlider",
    "FaceParserHairMakeupBlueSlider",
    "FaceParserHairMakeupGreenSlider",
    "FaceParserHairMakeupRedSlider",
    "FaceParserLipsMakeupBlendAmountDecimalSlider",
    "FaceParserLipsMakeupBlueSlider",
    "FaceParserLipsMakeupGreenSlider",
    "FaceParserLipsMakeupRedSlider",
    "FaceParserSlider",
    "FaceRestorerBlend2Slider",
    "FaceRestorerBlendSlider",
    "FaceScaleAmountSlider",
    "FinalBlendAmountSlider",
    "FrameEnhancerBlendSlider",
    "HairParserSlider",
    "JPEGCompressionAmountSlider",
    "KpsScaleSlider",
    "KpsXSlider",
    "KpsYSlider",
    "LandmarkDetectScoreSlider",
    "LeftEyeParserSlider",
    "LeftEyebrowParserSlider",
    "LowerLipParserSlider",
    "ManualRotationAngleSlider",
    "MaxDFMModelsSlider",
    "MaxFacesToDetectSlider",
    "MouthLeftXAmountSlider",
    "MouthLeftYAmountSlider",
    "MouthParserSlider",
    "MouthRightXAmountSlider",
    "MouthRightYAmountSlider",
    "NeckParserSlider",
    "NoseParserSlider",
    "NoseXAmountSlider",
    "NoseYAmountSlider",
    "OccluderSizeSlider",
    "OccluderXSegBlurSlider",
    "OverallMaskBlendAmountSlider",
    "RestoreEyesBlendAmountSlider",
    "RestoreEyesFeatherBlendSlider",
    "RestoreEyesMouthBlurSlider",
    "RestoreEyesSizeFactorDecimalSlider",
    "RestoreEyesSpacingOffsetSlider",
    "RestoreMouthBlendAmountSlider",
    "RestoreMouthFeatherBlendSlider",
    "RestoreMouthSizeFactorSlider",
    "RestoreXEyesOffsetSlider",
    "RestoreXEyesRadiusFactorDecimalSlider",
    "RestoreXMouthOffsetSlider",
    "RestoreXMouthRadiusFactorDecimalSlider",
    "RestoreYEyesOffsetSlider",
    "RestoreYEyesRadiusFactorDecimalSlider",
    "RestoreYMouthOffsetSlider",
    "RestoreYMouthRadiusFactorDecimalSlider",
    "RightEyeParserSlider",
    "RightEyebrowParserSlider",
    "SimilarityThresholdSlider",
    "StrengthAmountSlider",
    "UpperLipParserSlider",
    "VideoPlaybackCustomFpsSlider",
    "nThreadsSlider",
];

const CHOICES: &[(&str, &[&str])] = &[
    ("AutoColorTransferTypeSelection", &["Test", "Test_Mask", "DFL_Test", "DFL_Orig"]),
    ("DFMModelSelection", &[]),
    ("DetectorModelSelection", &["Yolov8", "RetinaFace", "SCRFD"]),
    ("EmbMergeMethodSelection", &["Mean", "Median"]),
    ("FaceRestorerDetType2Selection", &["Blend", "Original", "Reference"]),
    ("FaceRestorerDetTypeSelection", &["Original", "Blend", "Reference"]),
    ("FaceRestorerType2Selection", &["GPEN-512", "GPEN-256"]),
    ("FaceRestorerTypeSelection", &["GPEN-256", "GPEN-512", "CodeFormer"]),
    ("FrameEnhancerTypeSelection", &["RealEsrgan-x2-Plus"]),
    ("LandmarkDetectModelSelection", &["203", "5", "68"]),
    ("ProvidersPrioritySelection", &["CUDA", "TensorRT", "Vulkan"]),
    ("SimilarityTypeSelection", &["Opal", "Pearl", "Optimal"]),
    ("SwapModelSelection", &["Inswapper128", "DeepFaceLive (DFM)"]),
    ("SwapperResSelection", &["128", "256", "384", "512"]),
];

fn double(value: f64) -> Double {
    Double {
        bits: value.to_bits(),
        single: Single { bits: (value as f32).to_bits() },
        percent: Single { bits: ((value / 100.0) as f32).to_bits() },
        whole: value as i128,
        text: NumberText::new(&format!("{value:?}")).unwrap_or(NumberText { code: 0 }),
    }
}

fn control(id: &str, scope: ControlScope, kind: ControlKind) -> ControlSpec {
    ControlSpec {
        id: id.to_owned(),
        scope,
        section: "Section".to_owned(),
        label: format!("Label of {id}"),
        level: 1,
        help: String::new(),
        kind,
        visibility: Visibility::default(),
    }
}

fn catalog() -> Vec<ControlSpec> {
    let mut controls = Vec::new();
    for id in TOGGLES {
        controls.push(control(id, ControlScope::Settings, ControlKind::Toggle { default: false }));
    }
    for id in SLIDERS {
        controls.push(control(
            id,
            ControlScope::Common,
            ControlKind::Slider {
                min: double(-1000.0),
                max: double(1000.0),
                default: double(1.0),
                step: double(0.1),
            },
        ));
    }
    for (id, options) in CHOICES {
        let options: Vec<String> = options.iter().map(|option| option.to_string()).collect();
        let default = options.first().cloned().unwrap_or_default();
        let source = if options.is_empty() { Some(ChoiceSource::DfmModels) } else { None };
        controls.push(control(
            id,
            ControlScope::Swapper,
            ControlKind::Choice { options, default, source },
        ));
    }
    control_catalog(controls).expect("a valid catalog")
}

fn single(value: f32) -> Single {
    Single { bits: value.to_bits() }
}

fn controls() -> ControlState {
    ControlState::from_catalog(&catalog()).expect("defaults")
}

fn pick(controls: &mut ControlState, id: &str, value: &str) {
    controls
        .set(id, ControlValue::Choice(value.to_owned()), &catalog())
        .expect("a value of the control");
}

fn slide(controls: &mut ControlState, id: &str, value: f64) {
    controls.set(id, ControlValue::Slider(double(value)), &catalog()).expect("in range");
}

fn switch(controls: &mut ControlState, id: &str, value: bool) {
    controls.set(id, ControlValue::Toggle(value), &catalog()).expect("a toggle");
}

#[test]
fn settings_follow_the_controls() {
    let mut state = controls();
    pick(&mut state, "ProvidersPrioritySelection", "TensorRT");
    pick(&mut state, "DetectorModelSelection", "SCRFD");
    pick(&mut state, "SwapperResSelection", "384");
    pick(&mut state, "FaceRestorerTypeSelection", "GPEN-512");
    pick(&mut state, "FaceRestorerDetTypeSelection", "Reference");
    pick(&mut state, "AutoColorTransferTypeSelection", "DFL_Orig");
    pick(&mut state, "SimilarityTypeSelection", "Pearl");
    pick(&mut state, "EmbMergeMethodSelection", "Median");
    slide(&mut state, "DetectorScoreSlider", 50.0);
    slide(&mut state, "MaxFacesToDetectSlider", 7.9);
    slide(&mut state, "nThreadsSlider", 4.0);
    slide(&mut state, "OccluderSizeSlider", -12.0);
    slide(&mut state, "ColorHueDecimalSlider", 0.25);
    switch(&mut state, "AutoSwapToggle", true);
    switch(&mut state, "OccluderEnableToggle", true);
    let config = EditorRuntimeConfig::from_controls(&state).expect("all controls are there");
    assert_eq!(config.provider, ExecutionProvider::TensorRT);
    assert_eq!(config.detector, DetectorModel::Scrfd2_5g);
    assert_eq!(config.params.dim, SwapDim::Dim3);
    assert_eq!(config.params.restoration.first.size, RestorerSize::Gpen512);
    assert_eq!(config.params.restoration.first.alignment, RestorerAlignment::Reference);
    assert_eq!(config.params.restoration.second.size, RestorerSize::Gpen512);
    assert_eq!(config.params.color.auto.mode, AutoColorMode::DflMasked);
    assert_eq!(config.similarity_type, SimilarityType::Pearl);
    assert_eq!(config.embedding_merge_method, "Median");
    assert_eq!(config.params.landmark.mode, LandmarkMode::Points203);
    assert_eq!(config.params.detection.score, single(0.5));
    assert_eq!(config.params.detection.max_faces, 7);
    assert_eq!(config.worker_threads, 4);
    assert_eq!(config.params.masks.segmentation.occluder_size, -12);
    assert_eq!(config.params.color.adjust.hue, single(0.25));
    assert!(config.auto_swap);
    assert!(config.params.masks.segmentation.occluder_enabled);
    assert!(!config.params.masks.segmentation.xseg_enabled);
    assert_eq!(config.playback_fps, None);
}

#[test]
fn a_rate_for_playback_is_taken_where_it_is_on() {
    let mut state = controls();
    switch(&mut state, "VideoPlaybackCustomFpsToggle", true);
    slide(&mut state, "VideoPlaybackCustomFpsSlider", 24.0);
    let config = EditorRuntimeConfig::from_controls(&state).expect("all controls are there");
    assert_eq!(config.playback_fps, Some(single(24.0)));
}

#[test]
fn controls_that_are_not_there_are_reported() {
    let empty = ControlState::new();
    assert!(matches!(
        EditorRuntimeConfig::from_controls(&empty),
        Err(ControlBridgeError::MissingOrWrongType("ProvidersPrioritySelection"))
    ));
}

#[test]
fn an_unknown_choice_is_reported_by_name() {
    let mut state = controls();
    pick(&mut state, "ProvidersPrioritySelection", "Vulkan");
    assert!(matches!(
        EditorRuntimeConfig::from_controls(&state),
        Err(ControlBridgeError::InvalidChoice { control: "ProvidersPrioritySelection", value })
            if value == "Vulkan"
    ));
    let mut state = controls();
    pick(&mut state, "FaceRestorerTypeSelection", "CodeFormer");
    assert!(matches!(
        EditorRuntimeConfig::from_controls(&state),
        Err(ControlBridgeError::InvalidChoice { control: "FaceRestorerTypeSelection", .. })
    ));
}

#[test]
fn a_deep_face_swapper_needs_its_model() {
    let mut state = controls();
    pick(&mut state, "SwapModelSelection", "DeepFaceLive (DFM)");
    assert!(matches!(
        EditorRuntimeConfig::from_controls(&state),
        Err(ControlBridgeError::MissingDfmModel)
    ));
    pick(&mut state, "DFMModelSelection", "face.dfm");
    let config = EditorRuntimeConfig::from_controls(&state).expect("a model is selected");
    assert_eq!(config.params.swapper.model, SwapperModel::Dfm);
    assert_eq!(config.params.swapper.dfm_model, "face.dfm");
}

fn store(values: &[f32]) -> EmbeddingStore {
    let mut store = TextMap::new();
    let _ = store.insert(
        ARC_FACE_MODEL.to_owned(),
        values.iter().map(|value| single(*value)).collect(),
    );
    store
}

fn value_of(number: Single) -> f32 {
    f32::from_bits(number.bits)
}

fn mean(values: Vec<Single>) -> Single {
    let sum: f32 = values.iter().map(|value| value_of(*value)).sum();
    single(sum / values.len() as f32)
}

fn midpoint(a: Single, b: Single) -> Single {
    single((value_of(a) + value_of(b)) / 2.0)
}

fn digest(values: &Vec<Single>) -> Result<String, String> {
    if values.is_empty() {
        return Err("empty".to_owned());
    }
    let hex: String = values.iter().map(|value| format!("{:08x}", value.bits)).collect();
    Ok(hex)
}

fn artifact(name: &str) -> ModelArtifact {
    ModelArtifact {
        logical_name: name.to_owned(),
        filename: format!("{name}.onnx"),
        blake3: "0".repeat(64),
    }
}

fn build(
    identity: String,
    params: FaceSwapParams,
    provider: ExecutionProvider,
    detector: DetectorModel,
) -> Result<EngineSpec, String> {
    let mut models = ModelSet::new();
    models.set(ModelRole::Detector, Some(artifact("Detector")));
    if params.dim == SwapDim::Dim4 {
        models.set(ModelRole::Swapper, Some(artifact("Large")));
    } else {
        models.set(ModelRole::Swapper, Some(artifact("Swapper")));
    }
    if params.swapper.model == SwapperModel::Dfm {
        let mut dfm = artifact("Dfm");
        dfm.filename = params.swapper.dfm_model.clone();
        models.set(ModelRole::Dfm, Some(dfm));
    }
    Ok(EngineSpec {
        provider,
        device_id: 0,
        detector,
        identity_blake3: identity,
        assignments: Vec::new(),
        models,
        params,
    })
}

fn file(_path: &String) -> Result<String, String> {
    Err("no file is read here".to_owned())
}

fn compile(
    config: &EditorRuntimeConfig,
    faces: &FaceWorkspace,
) -> Result<EditorEngineRequest, ControlBridgeError> {
    config.compile_engine_request(
        faces,
        EmbeddingMergeMethod::Mean,
        &mean,
        &midpoint,
        &digest,
        &file,
        &build,
    )
}

#[test]
fn a_request_needs_a_route() {
    let config = EditorRuntimeConfig::from_controls(&controls()).expect("defaults");
    let mut faces = FaceWorkspace::new();
    assert!(matches!(compile(&config, &faces), Err(ControlBridgeError::NoFaceAssignments)));
    faces.set_swap_all(true);
    assert!(matches!(compile(&config, &faces), Err(ControlBridgeError::NoFaceAssignments)));
}

#[test]
fn one_identity_for_all_faces_makes_one_assignment() {
    let mut state = controls();
    slide(&mut state, "nThreadsSlider", 99.0);
    let config = EditorRuntimeConfig::from_controls(&state).expect("defaults");
    let mut faces = FaceWorkspace::new();
    faces.add_source("a".to_owned(), "A".to_owned(), None, store(&[1.0, 3.0])).unwrap();
    faces.add_source("b".to_owned(), "B".to_owned(), None, store(&[3.0, 5.0])).unwrap();
    faces.set_swap_all(true);
    faces.set_source_assignment(None, "a", true).unwrap();
    faces.set_source_assignment(None, "b", true).unwrap();
    let request = compile(&config, &faces).expect("a request");
    assert_eq!(request.assignments.len(), 1);
    assert_eq!(
        request.assignments[0].source,
        FaceIdentityInput::Embedding(vec![single(2.0), single(4.0)])
    );
    assert_eq!(request.assignments[0].target, None);
    assert!(request.assignments[0].models.is_empty());
    assert_eq!(request.spec.identity_blake3, "4000000040800000");
    assert_eq!(request.worker_threads, 32);
    assert_eq!(request.predecode, PredecodeMode::Auto);
}

#[test]
fn each_target_gets_its_own_controls_but_shares_the_generation() {
    let config = EditorRuntimeConfig::from_controls(&controls()).expect("defaults");
    let mut faces = FaceWorkspace::new();
    faces.add_source("a".to_owned(), "A".to_owned(), None, store(&[1.0, 0.0])).unwrap();
    faces.add_target("t".to_owned(), None, store(&[0.0, 1.0]), &catalog()).unwrap();
    faces.add_target("u".to_owned(), None, store(&[0.5, 0.5]), &catalog()).unwrap();
    faces.assign_source("t", "a", true).unwrap();
    let mut own = controls();
    pick(&mut own, "SwapperResSelection", "512");
    slide(&mut own, "DetectorScoreSlider", 77.0);
    slide(&mut own, "SimilarityThresholdSlider", 42.0);
    assert!(faces.set_target_controls("t", own));
    let request = compile(&config, &faces).expect("a request");
    assert_eq!(request.assignments.len(), 1);
    let given = &request.assignments[0];
    assert_eq!(given.target, Some(FaceIdentityInput::Embedding(vec![single(0.0), single(1.0)])));
    assert_eq!(given.similarity_threshold, single(0.42));
    let params = given.params.as_ref().expect("own controls");
    assert_eq!(params.dim, SwapDim::Dim4);
    assert_eq!(params.detection.score, config.params.detection.score);
    assert!(given.models.get(ModelRole::Detector).is_none());
    assert_eq!(
        given.models.get(ModelRole::Swapper).map(|model| model.logical_name.as_str()),
        Some("Large")
    );
}

#[test]
fn a_target_without_its_embedding_is_reported() {
    let config = EditorRuntimeConfig::from_controls(&controls()).expect("defaults");
    let mut faces = FaceWorkspace::new();
    faces.add_source("a".to_owned(), "A".to_owned(), None, store(&[1.0])).unwrap();
    let mut other = TextMap::new();
    let _ = other.insert("Other".to_owned(), vec![single(1.0)]);
    faces.add_target("t".to_owned(), None, other, &catalog()).unwrap();
    faces.assign_source("t", "a", true).unwrap();
    assert!(matches!(
        compile(&config, &faces),
        Err(ControlBridgeError::MissingTargetEmbedding(id)) if id == "t"
    ));
}

#[test]
fn too_many_deep_face_models_are_refused() {
    let mut state = controls();
    pick(&mut state, "SwapModelSelection", "DeepFaceLive (DFM)");
    pick(&mut state, "DFMModelSelection", "one.dfm");
    slide(&mut state, "MaxDFMModelsSlider", 0.0);
    let config = EditorRuntimeConfig::from_controls(&state).expect("a model is selected");
    let mut faces = FaceWorkspace::new();
    faces.add_source("a".to_owned(), "A".to_owned(), None, store(&[1.0])).unwrap();
    faces.set_swap_all(true);
    faces.set_source_assignment(None, "a", true).unwrap();
    assert!(matches!(
        compile(&config, &faces),
        Err(ControlBridgeError::TooManyDfmModels { requested: 1, maximum: 0 })
    ));
}

#[test]
fn what_a_generation_shares_is_copied() {
    let mut source = FaceSwapParams::default();
    source.detection.max_faces = 9;
    source.enhancer.enabled = true;
    source.dim = SwapDim::Dim1;
    let mut target = FaceSwapParams::default();
    target.dim = SwapDim::Dim2;
    copy_generation_controls(&source, &mut target);
    assert_eq!(target.detection.max_faces, 9);
    assert!(target.enhancer.enabled);
    assert_eq!(target.dim, SwapDim::Dim2);
}

#[test]
fn restorers_are_chosen_by_name() {
    assert_eq!(restorer_size("GPEN-256").ok(), Some(RestorerSize::Gpen256));
    assert_eq!(restorer_size("GPEN-512").ok(), Some(RestorerSize::Gpen512));
    match restorer_size("GPEN-1024") {
        Err(ControlBridgeError::InvalidChoice { control, value }) => {
            assert_eq!(control, "FaceRestorerTypeSelection");
            assert_eq!(value, "GPEN-1024");
        }
        other => panic!("{other:?}"),
    }
    assert_eq!(restorer_alignment("Original").ok(), Some(RestorerAlignment::Original));
    assert_eq!(restorer_alignment("Blend").ok(), Some(RestorerAlignment::Blend));
    assert_eq!(restorer_alignment("Reference").ok(), Some(RestorerAlignment::Reference));
    match restorer_alignment("original") {
        Err(ControlBridgeError::InvalidChoice { control, value }) => {
            assert_eq!(control, "FaceRestorerDetTypeSelection");
            assert_eq!(value, "original");
        }
        other => panic!("{other:?}"),
    }
}

#[test]
fn a_fresh_face_has_every_optional_stage_off() {
    let params = FaceSwapParams::default();
    assert!(params.enabled);
    assert_eq!(params.dim, SwapDim::Dim1);
    assert_eq!(params.swapper.dfm_model, "");
    assert_eq!(params.detection.score.bits, 0.5f32.to_bits());
    assert_eq!(params.detection.max_faces, 20);
    assert_eq!(params.landmark.mode, LandmarkMode::Points203);
    assert_eq!(params.restoration.first, params.restoration.second);
    assert!(!params.restoration.first.enabled);
    assert_eq!(params.masks.restore_mouth.size_factor.bits, 0.25f32.to_bits());
    assert_eq!(params.masks.restore_eyes.size_factor.bits, 3.0f32.to_bits());
    assert_eq!(params.masks.border.top, 10);
    assert_eq!(params.color.adjust.gamma.bits, 1.0f32.to_bits());
    assert_eq!(params.finish.jpeg_quality, 50);
    assert_eq!(params.identity.similarity_threshold.bits, 0.6f32.to_bits());
}
