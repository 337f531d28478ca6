use noperson::config::{DetectorModel, ExecutionProvider, FaceSwapParams};
use noperson::controls::{
    control_catalog, ChoiceSource, ControlKind, ControlScope, ControlSpec, ControlState, ControlValue,
    FrontendMode, Visibility,
};
use noperson::embeddings::{EmbeddingStore, SavedEmbedding};
use noperson::engine::models::{ModelArtifact, ModelRole, ModelSet};
use noperson::engine::spec::EngineSpec;
use noperson::faces::{FaceCrop, FaceWorkspace, SourceIdentity, TargetFace, ARC_FACE_MODEL};
use noperson::media::{DirectoryEntry, MediaId, MediaRole};
use noperson::number::{Double, NumberText, Single};
use noperson::ordered::TextMap;
use noperson::runtime::{EditorJobPhase, EditorRuntimeError};
use noperson::session::events::{AnalyzedIdentity, EditorRuntimeEvent};
use noperson::session::files::{find_dfm_models, name_of_workspace, ModelEntry};
use noperson::session::inspector::{
    dock_choices, section_groups, section_is_open, slider_decimals, turn_choice, ControlInput,
    InspectorTab, Wheel,
};
use noperson::session::jobs::{dropped_role, EngineServices, ExtraGuiApp, JobKind};
use noperson::session::media::Dropped;
use noperson::session::player::{PressedKeys, PreviewLoad, TimelineAction};
use noperson::session::state::{ExtraGuiPanel, ExtraGuiState, InspectorDock, Notice};
use noperson::session::textures::stale_pictures;
use noperson::timeline::{EditorMarker, EditorTimeline};
use noperson::workspace::document::WorkspaceError;
use std::collections::BTreeMap;
use std::sync::Arc;

const TOGGLES: &[&str] = &[
    "AutoColorEnableToggle",
    "AutoRotationToggle",
    "AutoSwapToggle",
    "ColorEnableToggle",
    "DFLXSegEnableToggle",
    "DFMRCTColorToggle",
    "DetectFromPointsToggle",
    "DifferencingEnableToggle",
    "FaceAdjEnableToggle",
    "FaceLikenessEnableToggle",
    "FaceParserEnableToggle",
    "FaceParserHairMakeupEnableToggle",
    "FaceParserLipsMakeupEnableToggle",
    "FaceRestorerEnable2Toggle",
    "FaceRestorerEnableToggle",
    "FinalBlendAdjEnableToggle",
    "FrameEnhancerEnableToggle",
    "InputFacesFolderRecursiveToggle",
    "JPEGCompressionEnableToggle",
    "LandmarkDetectToggle",
    "LandmarksPositionAdjEnableToggle",
    "ManualRotationEnableToggle",
    "OccluderEnableToggle",
    "RestoreEyesEnableToggle",
    "RestoreMouthEnableToggle",
    "ScrollChangesValuesToggle",
    "ShowAllDetectedFacesBBoxToggle",
    "ShowLandmarksEnableToggle",
    "StrengthEnableToggle",
    "TargetMediaFolderRecursiveToggle",
    "VideoPlaybackCustomFpsToggle",
];

const SLIDERS: &[&str] = &[
    "AutoColorBlendAmountSlider",
    "BackgroundBlurParserSlider",
    "BackgroundParserSlider",
    "BorderBlurSlider",
    "BorderBottomSlider",
    "BorderLeftSlider",
    "BorderRightSlider",
    "BorderTopSlider",
    "ColorBlueSlider",
    "ColorBrightnessDecimalSlider",
    "ColorContrastDecimalSlider",
    "ColorGammaDecimalSlider",
    "ColorGreenSlider",
    "ColorHueDecimalSlider",
    "ColorNoiseDecimalSlider",
    "ColorRedSlider",
    "ColorSaturationDecimalSlider",
    "ColorSharpnessDecimalSlider",
    "DFLXSegSizeSlider",
    "DFMAmpMorphSlider",
    "DetectorScoreSlider",
    "DifferencingAmountSlider",
    "DifferencingBlendAmountSlider",
    "EyeGlassesParserSlider",
    "EyeLeftXAmountSlider",
    "EyeLeftYAmountSlider",
    "EyeRightXAmountSlider",
    "EyeRightYAmountSlider",
    "FaceBlurParserSlider",
    "FaceFidelityWeight2DecimalSlider",
    "FaceFidelityWeightDecimalSlider",
    "FaceLikenessFactorDecimalSlider",
    "FaceParserHairMakeupBlendAmountDecimalSlider",
    "FaceParserHairMakeupBlueSlider",
    "FaceParserHairMakeupGreenSlider",
    "FaceParserHairMakeupRedSlider",
    "FaceParserLipsMakeupBlendAmountDecimalSlider",
    "FaceParserLipsMakeupBlueSlider",
    "FaceParserLipsMakeupGreenSlider",
    "FaceParserLipsMakeupRedSlider",
    "FaceParserSlider",
    "FaceRestorerBlend2Slider",
    "FaceRestorerBlendSlider",
    "FaceScaleAmountSlider",
    "FinalBlendAmountSlider",
    "FrameEnhancerBlendSlider",
    "HairParserSlider",
    "JPEGCompressionAmountSlider",
    "KpsScaleSlider",
    "KpsXSlider",
    "KpsYSlider",
    "LandmarkDetectScoreSlider",
    "LeftEyeParserSlider",
    "LeftEyebrowParserSlider",
    "LowerLipParserSlider",
    "ManualRotationAngleSlider",
    "MaxDFMModelsSlider",
    "MaxFacesToDetectSlider",
    "MouthLeftXAmountSlider",
    "MouthLeftYAmountSlider",
    "MouthParserSlider",
    "MouthRightXAmountSlider",
    "MouthRightYAmountSlider",
    "NeckParserSlider",
    "NoseParserSlider",
    "NoseXAmountSlider",
    "NoseYAmountSlider",
    "OccluderSizeSlider",
    "OccluderXSegBlurSlider",
    "OverallMaskBlendAmountSlider",
    "RestoreEyesBlendAmountSlider",
    "RestoreEyesFeatherBlendSlider",
    "RestoreEyesMouthBlurSlider",
    "RestoreEyesSizeFactorDecimalSlider",
    "RestoreEyesSpacingOffsetSlider",
    "RestoreMouthBlendAmountSlider",
    "RestoreMouthFeatherBlendSlider",
    "RestoreMouthSizeFactorSlider",
    "RestoreXEyesOffsetSlider",
    "RestoreXEyesRadiusFactorDecimalSlider",
    "RestoreXMouthOffsetSlider",
    "RestoreXMouthRadiusFactorDecimalSlider",
    "RestoreYEyesOffsetSlider",
    "RestoreYEyesRadiusFactorDecimalSlider",
    "RestoreYMouthOffsetSlider",
    "RestoreYMouthRadiusFactorDecimalSlider",
    "RightEyeParserSlider",
    "RightEyebrowParserSlider",
    "SimilarityThresholdSlider",
    "StrengthAmountSlider",
    "UpperLipParserSlider",
    "VideoPlaybackCustomFpsSlider",
    "nThreadsSlider",
];

const CHOICES: &[(&str, &[&str])] = &[
    ("AutoColorTransferTypeSelection", &["Test", "Test_Mask", "DFL_Test", "DFL_Orig"]),
    ("DFMModelSelection", &[]),
    ("DetectorModelSelection", &["Yolov8", "RetinaFace", "SCRFD"]),
    ("EmbMergeMethodSelection", &["Mean", "Median"]),
    ("FaceRestorerDetType2Selection", &["Blend", "Original", "Reference"]),
    ("FaceRestorerDetTypeSelection", &["Original", "Blend", "Reference"]),
    ("FaceRestorerType2Selection", &["GPEN-512", "GPEN-256"]),
    ("FaceRestorerTypeSelection", &["GPEN-256", "GPEN-512", "CodeFormer"]),
    ("FrameEnhancerTypeSelection", &["RealEsrgan-x2-Plus"]),
    ("LandmarkDetectModelSelection", &["203", "5", "68"]),
    ("ProvidersPrioritySelection", &["CUDA", "TensorRT", "Vulkan"]),
    ("SimilarityTypeSelection", &["Opal", "Pearl", "Optimal"]),
    ("SwapModelSelection", &["Inswapper128", "DeepFaceLive (DFM)"]),
    ("SwapperResSelection", &["128", "256", "384", "512"]),
];

fn double(value: f64) -> Double {
    Double {
        bits: value.to_bits(),
        single: Single { bits: (value as f32).to_bits() },
        percent: Single { bits: ((value / 100.0) as f32).to_bits() },
        whole: value as i128,
        text: NumberText::new(&format!("{value:?}")).unwrap_or(NumberText { code: 0 }),
    }
}

fn control(id: &str, scope: ControlScope, kind: ControlKind) -> ControlSpec {
    ControlSpec {
        id: id.to_owned(),
        scope,
        section: "Section".to_owned(),
        label: format!("Label of {id}"),
        level: 1,
        help: String::new(),
        kind,
        visibility: Visibility::default(),
    }
}

fn catalog() -> Vec<ControlSpec> {
    let mut controls = Vec::new();
    for id in TOGGLES {
        controls.push(control(id, ControlScope::Settings, ControlKind::Toggle { default: false }));
    }
    for id in SLIDERS {
        controls.push(control(
            id,
            ControlScope::Common,
            ControlKind::Slider {
                min: double(-1000.0),
                max: double(1000.0),
                default: double(1.0),
                step: double(0.1),
            },
        ));
    }
    for (id, options) in CHOICES {
        let options: Vec<String> = options.iter().map(|option| option.to_string()).collect();
        let default = options.first().cloned().unwrap_or_default();
        let source = if options.is_empty() { Some(ChoiceSource::DfmModels) } else { None };
        controls.push(control(
            id,
            ControlScope::Swapper,
            ControlKind::Choice { options, default, source },
        ));
    }
    control_catalog(controls).expect("a valid catalog")
}

fn single(value: f32) -> Single {
    Single { bits: value.to_bits() }
}

fn value_of(number: Single) -> f32 {
    f32::from_bits(number.bits)
}

fn state() -> ExtraGuiState {
    let models = vec!["one.dfm".to_owned(), "two.dfm".to_owned()];
    ExtraGuiState::new(Arc::new(catalog()), &models).expect("a valid catalog")
}

fn store(values: &[f32]) -> EmbeddingStore {
    let mut store = TextMap::new();
    let _ = store.insert(
        ARC_FACE_MODEL.to_owned(),
        values.iter().map(|value| single(*value)).collect(),
    );
    store
}

fn mean(values: Vec<Single>) -> Single {
    let sum: f32 = values.iter().map(|value| value_of(*value)).sum();
    single(sum / values.len() as f32)
}

fn midpoint(a: Single, b: Single) -> Single {
    single((value_of(a) + value_of(b)) / 2.0)
}

fn digest(values: &Vec<Single>) -> Result<String, String> {
    if values.is_empty() {
        return Err("empty".to_owned());
    }
    let hex: String = values.iter().map(|value| format!("{:08x}", value.bits)).collect();
    Ok(format!("{hex:0<64}"))
}

fn file(_path: &String) -> Result<String, String> {
    Err("no file is read here".to_owned())
}

fn build(
    identity: String,
    params: FaceSwapParams,
    provider: ExecutionProvider,
    detector: DetectorModel,
) -> Result<EngineSpec, String> {
    let mut models = ModelSet::new();
    models.set(
        ModelRole::Detector,
        Some(ModelArtifact {
            logical_name: "Detector".to_owned(),
            filename: "detector.onnx".to_owned(),
            blake3: "0".repeat(64),
        }),
    );
    Ok(EngineSpec {
        provider,
        device_id: 0,
        detector,
        identity_blake3: identity,
        assignments: Vec::new(),
        models,
        params,
    })
}

fn said(state: &ExtraGuiState) -> String {
    match &state.status {
        Notice::Text(text) => text.clone(),
        other => format!("{other:?}"),
    }
}

#[test]
fn inspector_dock_defaults_to_open_on_the_right() {
    let state = state();

    assert_eq!(state.view.inspector_dock, InspectorDock::Right);
    assert!(state.view.inspector_open);
}

#[test]
fn inspector_dock_supports_both_sides_and_a_floating_window() {
    assert_eq!(InspectorDock::Left.label(), "Dock left");
    assert_eq!(InspectorDock::Right.label(), "Dock right");
    assert_eq!(InspectorDock::Floating.label(), "Detach inspector");
}

#[test]
fn control_catalog_is_shared_instead_of_deep_cloned_for_rendering() {
    let state = state();
    let catalog = state.catalog.clone();

    assert!(std::sync::Arc::ptr_eq(&catalog, &state.catalog));
}

#[test]
fn every_panel_has_its_name() {
    let names: Vec<&str> = ExtraGuiPanel::ALL.iter().map(|panel| panel.label()).collect();
    assert_eq!(
        names,
        vec!["Media", "Faces", "Preview", "Timeline", "Parameters", "Settings"]
    );
}

#[test]
fn models_that_were_found_are_offered() {
    let state = state();
    let catalog = state.catalog.clone();
    let control = catalog.iter().find(|control| control.id == "DFMModelSelection").unwrap();
    assert_eq!(
        state.offered_choices(control),
        Some(&vec!["one.dfm".to_owned(), "two.dfm".to_owned()])
    );
    let other = catalog.iter().find(|control| control.id == "SwapperResSelection").unwrap();
    assert_eq!(state.offered_choices(other).map(|choices| choices.len()), Some(4));
}

#[test]
fn media_come_and_go_with_their_identities() {
    let mut state = state();
    state.add_media_paths(
        MediaRole::Source,
        vec!["s/anna.png".to_owned(), "s/notes.txt".to_owned(), "s/ben.png".to_owned()],
    );
    assert_eq!(state.media.items(MediaRole::Source).len(), 2);
    assert_eq!(state.faces.sources().len(), 2);
    assert!(state.place.dirty);
    state.add_media_paths(MediaRole::Target, vec!["t/clip.mp4".to_owned()]);
    assert_eq!(state.media.items(MediaRole::Target).len(), 1);
    let anna = state.media.items(MediaRole::Source)[0].id;
    state.remove_media(MediaRole::Source, anna);
    assert_eq!(state.media.items(MediaRole::Source).len(), 1);
    assert_eq!(state.faces.sources().len(), 1);
    state.clear_media(MediaRole::Source);
    assert_eq!(state.faces.sources().len(), 0);
}

#[test]
fn media_are_found_whatever_the_case() {
    let mut state = state();
    state.add_media_paths(
        MediaRole::Target,
        vec!["t/\u{c4}PFEL.mp4".to_owned(), "t/birne.png".to_owned()],
    );
    state.filters.targets = "  \u{e4}pfel ".to_owned();
    let found: Vec<String> =
        state.listed_media(MediaRole::Target).iter().map(|item| item.path.clone()).collect();
    assert_eq!(found, vec!["t/\u{c4}PFEL.mp4".to_owned()]);
    state.filters.targets = String::new();
    assert_eq!(state.listed_media(MediaRole::Target).len(), 2);
    state.view.show_target_videos = false;
    assert_eq!(state.listed_media(MediaRole::Target).len(), 1);
    state.view.show_target_images = false;
    assert_eq!(state.listed_media(MediaRole::Target).len(), 0);
}

#[test]
fn identities_are_merged_under_a_new_name() {
    let mut state = state();
    state.faces.add_source("a".to_owned(), "A".to_owned(), None, store(&[1.0])).unwrap();
    state.faces.add_source("b".to_owned(), "B".to_owned(), None, store(&[3.0])).unwrap();
    state.merge_selected(&mean, &midpoint);
    assert!(matches!(state.status, Notice::Faces(_)));
    state.set_merge_selection("a", true);
    state.set_merge_selection("b", true);
    state.merge.name = "  Both ".to_owned();
    state.merge_selected(&mean, &midpoint);
    assert_eq!(said(&state), "Created reusable embedding");
    let merged = state.faces.merged_identities();
    assert_eq!(merged.len(), 1);
    assert_eq!(merged[0].name, "Both");
    assert_eq!(merged[0].embeddings.get(ARC_FACE_MODEL), Some(&vec![single(2.0)]));
    let id = merged[0].id.clone();
    assert_eq!(state.listed_embeddings(), vec![id.clone()]);
    state.filters.embeddings = "other".to_owned();
    assert_eq!(state.listed_embeddings(), Vec::<String>::new());
    state.remove_embedding(&id);
    assert_eq!(state.faces.merged_identities().len(), 0);
}

#[test]
fn embeddings_are_loaded_and_saved() {
    let mut state = state();
    let loaded = vec![
        SavedEmbedding { name: "one".to_owned(), embedding_store: store(&[1.0]) },
        SavedEmbedding { name: "two".to_owned(), embedding_store: store(&[2.0]) },
    ];
    state.load_embeddings("e.json".to_owned(), loaded);
    assert_eq!(state.faces.merged_identities().len(), 2);
    let saved = state.saved_embeddings();
    let names: Vec<&str> = saved.iter().map(|entry| entry.name.as_str()).collect();
    assert_eq!(names, vec!["one", "two"]);
    state.embeddings_saved("f.json".to_owned());
    assert_eq!(state.place.embeddings_path.as_deref(), Some("f.json"));
    state.clear_embeddings();
    assert!(state.saved_embeddings().is_empty());
}

#[test]
fn routes_go_to_the_selected_target_or_to_all() {
    let catalog = catalog();
    let mut state = state();
    state.faces.add_source("a".to_owned(), "A".to_owned(), None, store(&[1.0])).unwrap();
    state.faces.add_target("t".to_owned(), None, store(&[0.0]), &catalog).unwrap();
    state.select_target("t");
    state.assign_source("a", true);
    assert!(state.faces.source_is_assigned(Some("t"), "a"));
    assert_eq!(state.routed_sources(), vec!["a".to_owned()]);
    state.set_swap_all(true);
    assert_eq!(state.active_target(), None);
    assert!(state.routed_sources().is_empty());
    state.assign_source("a", true);
    assert!(state.faces.source_is_assigned(None, "a"));
    state.select_target("gone");
    assert!(matches!(state.status, Notice::Faces(_)));
    state.remove_source_identity("a");
    assert!(!state.faces.source_is_assigned(None, "a"));
    state.remove_target("t");
    assert!(state.faces.targets().is_empty());
}

#[test]
fn a_marker_gives_its_values_back() {
    let catalog = catalog();
    let mut state = state();
    state.timeline = noperson::timeline::EditorTimeline::new(100, single(30.0));
    state.faces.add_target("t".to_owned(), None, store(&[0.0]), &catalog).unwrap();
    state.timeline_action(TimelineAction::Seek(10));
    state
        .controls
        .set("AutoSwapToggle", ControlValue::Toggle(true), &catalog)
        .unwrap();
    state.add_marker();
    state
        .controls
        .set("AutoSwapToggle", ControlValue::Toggle(false), &catalog)
        .unwrap();
    state.timeline_action(TimelineAction::First);
    assert!(!state.auto_swap_enabled());
    assert!(!state.apply_exact_marker());
    state.timeline_action(TimelineAction::NextMarker);
    assert_eq!(state.timeline.current_frame(), 10);
    assert!(state.auto_swap_enabled());
    state.timeline_action(TimelineAction::RemoveMarker);
    assert_eq!(state.timeline.markers(), Vec::<u64>::new());
    state.timeline_action(TimelineAction::Last);
    assert_eq!(state.timeline.current_frame(), 99);
    state.timeline_action(TimelineAction::PreviousFrame);
    assert_eq!(state.timeline.current_frame(), 98);
}

fn no_keys() -> PressedKeys {
    PressedKeys {
        f11: false,
        space: false,
        c: false,
        v: false,
        a: false,
        d: false,
        z: false,
        q: false,
        w: false,
        f: false,
        alt: false,
        p: false,
        s: false,
        r: false,
    }
}

#[test]
fn keys_move_the_timeline_unless_one_is_typing() {
    let mut state = state();
    state.timeline = noperson::timeline::EditorTimeline::new(200, single(30.0));
    let mut keys = no_keys();
    keys.v = true;
    let _ = state.keyboard_shortcuts(true, keys);
    assert_eq!(state.timeline.current_frame(), 0);
    let _ = state.keyboard_shortcuts(false, keys);
    assert_eq!(state.timeline.current_frame(), 1);
    let mut keys = no_keys();
    keys.f11 = true;
    let requests = state.keyboard_shortcuts(false, keys);
    assert_eq!(requests.fullscreen, Some(true));
    assert!(state.view.fullscreen);
}

#[test]
fn the_inspector_offers_the_other_docks() {
    assert_eq!(
        dock_choices(InspectorDock::Right),
        (InspectorDock::Left, InspectorDock::Floating)
    );
    assert_eq!(
        dock_choices(InspectorDock::Floating),
        (InspectorDock::Right, InspectorDock::Left)
    );
    let mut state = state();
    state.select_tab(InspectorTab::Common);
    assert_eq!(state.view.inspector_scope, ControlScope::Common);
    let listed = state.listed_controls(ControlScope::Common);
    assert_eq!(listed.len(), SLIDERS.len());
    state.filters.parameters = "LABEL OF KPSX".to_owned();
    let listed = state.listed_controls(ControlScope::Common);
    assert_eq!(listed.len(), 1);
    assert_eq!(state.catalog[listed[0]].id, "KpsXSlider");
}

#[test]
fn sections_are_grouped_in_their_order() {
    let sections: Vec<String> =
        ["A", "A", "B", "A"].iter().map(|section| section.to_string()).collect();
    assert_eq!(section_groups(&sections), vec![(0, 2), (2, 3), (3, 4)]);
    assert_eq!(section_groups(&Vec::new()), Vec::<(usize, usize)>::new());
    assert!(section_is_open("Anything", true));
}

#[test]
fn sliders_show_as_many_decimals_as_they_need() {
    assert_eq!(slider_decimals(double(1.0)), 0);
    assert_eq!(slider_decimals(double(0.1)), 1);
    assert_eq!(slider_decimals(double(0.01)), 2);
}

#[test]
fn the_wheel_turns_choices() {
    let choices: Vec<String> =
        ["a", "b", "c"].iter().map(|choice| choice.to_string()).collect();
    assert_eq!(turn_choice(&choices, "b".to_owned(), Wheel::Up), "a");
    assert_eq!(turn_choice(&choices, "b".to_owned(), Wheel::Down), "c");
    assert_eq!(turn_choice(&choices, "c".to_owned(), Wheel::Down), "c");
    assert_eq!(turn_choice(&choices, "a".to_owned(), Wheel::Up), "a");
    assert_eq!(turn_choice(&choices, "b".to_owned(), Wheel::Still), "b");
}

#[test]
fn a_control_takes_what_is_entered_or_its_default() {
    let mut state = state();
    let catalog = state.catalog.clone();
    let control = catalog.iter().find(|control| control.id == "KpsXSlider").unwrap();
    let still = ControlInput { entered: None, reset: false, wheel: Wheel::Still };
    assert_eq!(state.control_used(control, &still), None);
    let entered = ControlInput {
        entered: Some(ControlValue::Slider(double(7.0))),
        reset: false,
        wheel: Wheel::Still,
    };
    let value = state.control_used(control, &entered).expect("a new value");
    state.apply_control(control, value);
    assert_eq!(state.controls.get("KpsXSlider"), Some(&ControlValue::Slider(double(7.0))));
    assert!(state.place.dirty);
    let reset = ControlInput { entered: None, reset: true, wheel: Wheel::Still };
    let value = state.control_used(control, &reset).expect("the default");
    assert_eq!(value, ControlValue::Slider(double(1.0)));
    assert!(state.controls.is_visible("KpsXSlider", FrontendMode::Editor, &catalog));
}

fn app() -> ExtraGuiApp {
    ExtraGuiApp::new(state())
}

#[test]
fn one_job_runs_at_a_time() {
    let mut app = app();
    assert!(app.is_idle());
    assert!(app.begin_analysis().is_none());
    assert_eq!(said(&app.state), "Select target media first");
    app.state.add_media_paths(MediaRole::Target, vec!["t/clip.mp4".to_owned()]);
    let request = app.begin_analysis().expect("an analysis");
    assert_eq!(request.target_path, "t/clip.mp4");
    app.sent(JobKind::Analysis, None);
    assert!(!app.is_idle());
    assert!(app.begin_analysis().is_none());
    assert!(matches!(
        app.state.status,
        Notice::Job(EditorRuntimeError::Busy(EditorJobPhase::Analyzing))
    ));
    assert!(app.cancel_job());
    app.handle_event(EditorRuntimeEvent::Phase(EditorJobPhase::Idle), &digest);
    assert!(app.is_idle());
    assert!(!app.cancel_job());
}

#[test]
fn a_preview_asks_for_the_current_frame() {
    let services = EngineServices { mean, midpoint, digest, file, build };
    let mut app = app();
    assert!(app.begin_preview(&services).is_none());
    app.state.add_media_paths(MediaRole::Target, vec!["t/clip.mp4".to_owned()]);
    app.state
        .faces
        .add_source("a".to_owned(), "A".to_owned(), None, store(&[1.0]))
        .unwrap();
    app.state.set_swap_all(true);
    app.state.assign_source("a", true);
    let request = app.begin_preview(&services).expect("a preview");
    assert_eq!(request.path, "t/clip.mp4");
    assert_eq!(request.frame_index, app.state.timeline.current_frame());
    assert_eq!(request.request.assignments.len(), 1);
    app.sent(JobKind::Preview, Some(EditorRuntimeError::WorkerStopped));
    assert!(matches!(app.state.status, Notice::Job(EditorRuntimeError::WorkerStopped)));
}

fn identity(value: f32) -> AnalyzedIdentity {
    AnalyzedIdentity {
        embedding: vec![single(value)],
        crop_width: 1,
        crop_height: 1,
        crop_rgb: vec![1, 2, 3],
    }
}

#[test]
fn faces_that_were_found_become_targets() {
    let mut app = app();
    app.state.add_media_paths(MediaRole::Target, vec!["t/clip.mp4".to_owned()]);
    app.state.add_media_paths(MediaRole::Source, vec!["s/anna.png".to_owned()]);
    let source = app.state.faces.sources()[0].id.clone();
    let mut sources = TextMap::new();
    let _ = sources.insert(source.clone(), identity(4.0));
    app.handle_event(
        EditorRuntimeEvent::Analyzed {
            target_media: MediaId(0),
            target_faces: vec![identity(1.0), identity(2.0)],
            source_faces: sources,
            total_frames: 50,
            fps: single(25.0),
        },
        &digest,
    );
    assert_eq!(app.state.faces.targets().len(), 2);
    assert_eq!(app.state.timeline.total_frames(), 50);
    assert_eq!(app.state.timeline.fps(), single(25.0));
    assert_eq!(
        app.state.faces.source(&source).unwrap().embeddings.get(ARC_FACE_MODEL),
        Some(&vec![single(4.0)])
    );
    app.handle_event(
        EditorRuntimeEvent::Progress { processed: 3, total: Some(10) },
        &digest,
    );
    assert_eq!(app.state.progress.frames, Some((3, Some(10))));
    app.handle_event(EditorRuntimeEvent::Failed("no device".to_owned()), &digest);
    assert!(said(&app.state).contains("no device"));
}

#[test]
fn a_saved_session_opens_again() {
    let mut app = app();
    app.state.add_media_paths(MediaRole::Target, vec!["t/clip.mp4".to_owned()]);
    assert_eq!(app.state.save_path(false), None);
    app.state.workspace_saved("w/demo.json".to_owned());
    assert!(!app.state.place.dirty);
    assert_eq!(app.state.save_path(false).as_deref(), Some("w/demo.json"));
    let document = app.state.document();
    let mut other = state();
    other.apply_document(Some("w/demo.json".to_owned()), document);
    assert_eq!(other.media.items(MediaRole::Target).len(), 1);
    assert!(!other.place.dirty);
    assert_eq!(name_of_workspace("w/demo.json", "x"), "demo");
    assert_eq!(name_of_workspace("/", "x"), "x");
}

#[test]
fn a_changed_session_is_saved_beside_itself() {
    let mut state = state();
    assert_eq!(state.autosave_path(100), None);
    state.workspace_saved("w/demo.json".to_owned());
    state.touch();
    assert_eq!(state.autosave_path(29), None);
    let path = state.autosave_path(30).expect("it is time");
    assert!(path.contains("autosave"), "{path}");
}

#[test]
fn deep_face_models_are_found_in_directories() {
    let entries = vec![
        ModelEntry::File("b.dfm".to_owned()),
        ModelEntry::File("c.onnx".to_owned()),
        ModelEntry::Directory("sub".to_owned(), vec![ModelEntry::File("a.DFM".to_owned())]),
    ];
    let found = find_dfm_models(&entries);
    assert!(found.contains(&"b.dfm".to_owned()), "{found:?}");
    assert!(!found.contains(&"c.onnx".to_owned()));
}

#[test]
fn dropped_media_are_targets_unless_shift_is_held() {
    assert_eq!(dropped_role(false), MediaRole::Target);
    assert_eq!(dropped_role(true), MediaRole::Source);
}

#[test]
fn a_picture_is_loaded_for_the_selected_target() {
    let mut state = state();
    assert_eq!(state.sync_preview(), PreviewLoad::Nothing);
    state.add_media_paths(MediaRole::Target, vec!["t/still.png".to_owned()]);
    assert_eq!(state.sync_preview(), PreviewLoad::Image("t/still.png".to_owned()));
    assert_eq!(state.sync_preview(), PreviewLoad::Nothing);
    state.preview_opened("t/still.png", Some("broken".to_owned()));
    assert!(said(&state).contains("broken"));
}

#[test]
fn intents_are_taken_once() {
    let mut app = app();
    app.state.timeline_action(TimelineAction::Record);
    let intents = app.take_timeline_intents();
    assert!(intents.record);
    assert!(!app.take_timeline_intents().record);
    app.state.intents.analysis = true;
    assert!(app.take_analysis_intent());
    assert!(!app.take_analysis_intent());
}

#[test]
fn what_is_dropped_is_added_in_one_go() {
    let mut state = state();
    state.take_dropped(MediaRole::Target, vec![]);
    assert!(!state.place.dirty);
    state.take_dropped(
        MediaRole::Target,
        vec![
            Dropped::File("t/clip.mp4".to_owned()),
            Dropped::Directory(vec![
                DirectoryEntry::File("d/still.png".to_owned()),
                DirectoryEntry::File("d/notes.txt".to_owned()),
                DirectoryEntry::Directory(vec![DirectoryEntry::File("d/e/deep.png".to_owned())]),
                DirectoryEntry::Other,
            ]),
        ],
    );
    let paths: Vec<String> =
        state.media.items(MediaRole::Target).iter().map(|item| item.path.clone()).collect();
    assert_eq!(paths, vec!["t/clip.mp4".to_owned(), "d/still.png".to_owned()]);
    assert!(state.place.dirty);
}

#[test]
fn a_directory_that_cannot_be_read_is_told() {
    let mut state = state();
    state.take_dropped(MediaRole::Source, vec![Dropped::Unreadable("not allowed".to_owned())]);
    assert_eq!(state.media.items(MediaRole::Source).len(), 0);
    assert!(said(&state).contains("not allowed"), "{:?}", state.status);
}

fn target_with_crop(id: &str, crop: bool, controls: &ControlState) -> TargetFace {
    TargetFace {
        id: id.to_owned(),
        media_id: None,
        embeddings: store(&[1.0]),
        crop: if crop {
            Some(FaceCrop { width: 1, height: 1, rgb: vec![1, 2, 3] })
        } else {
            None
        },
        assigned_sources: TextMap::new(),
        assigned_merged: TextMap::new(),
        assigned_embedding_cache: TextMap::new(),
        controls: controls.duplicate(),
    }
}

#[test]
fn pictures_are_loaded_once() {
    let mut state = state();
    state.add_media_paths(
        MediaRole::Source,
        vec!["s/anna.png".to_owned(), "s/ben.png".to_owned()],
    );
    let sources: Vec<String> = state.faces.sources().iter().map(|s| s.id.clone()).collect();
    let missing = state.missing_source_pictures(&vec![]);
    assert_eq!(
        missing,
        vec![
            (sources[0].clone(), "s/anna.png".to_owned()),
            (sources[1].clone(), "s/ben.png".to_owned()),
        ]
    );
    let missing = state.missing_source_pictures(&vec![sources[0].clone()]);
    assert_eq!(missing, vec![(sources[1].clone(), "s/ben.png".to_owned())]);

    let mut targets = TextMap::new();
    for (id, crop) in [("a", true), ("b", false), ("c", true)] {
        let _ = targets.insert(id.to_owned(), target_with_crop(id, crop, &state.controls));
    }
    state.faces = FaceWorkspace::from_parts(
        TextMap::new(),
        TextMap::new(),
        targets,
        Some("c".to_owned()),
        false,
        TextMap::new(),
        TextMap::new(),
    );
    assert_eq!(state.missing_target_pictures(&vec![]), vec!["a".to_owned(), "c".to_owned()]);
    assert_eq!(state.missing_target_pictures(&vec!["a".to_owned()]), vec!["c".to_owned()]);

    let held = vec!["a".to_owned(), "b".to_owned(), "c".to_owned()];
    let shown = vec!["c".to_owned(), "a".to_owned()];
    assert_eq!(stale_pictures(&held, &shown), vec!["b".to_owned()]);
    assert!(stale_pictures(&held, &held).is_empty());
}

#[test]
fn faces_hold_the_parts_that_they_are_made_of() {
    let mut sources = TextMap::new();
    let _ = sources.insert(
        "s1".to_owned(),
        SourceIdentity {
            id: "s1".to_owned(),
            name: "Anna".to_owned(),
            media_id: Some(MediaId(7)),
            embeddings: store(&[0.5]),
        },
    );
    let mut everywhere = TextMap::new();
    let _ = everywhere.insert("s1".to_owned(), ());
    let faces = FaceWorkspace::from_parts(
        sources,
        TextMap::new(),
        TextMap::new(),
        None,
        true,
        everywhere,
        TextMap::new(),
    );
    assert!(faces.swap_all());
    assert_eq!(faces.source("s1").map(|source| source.name.clone()), Some("Anna".to_owned()));
    assert_eq!(faces.swap_all_sources(), vec!["s1".to_owned()]);
    assert!(faces.swap_all_merged().is_empty());
    assert_eq!(faces.selected_target(), None);
    assert!(faces.source_is_assigned(None, "s1"));
}

#[test]
fn a_timeline_holds_the_parts_that_it_is_made_of() {
    let mut values = TextMap::new();
    let _ = values.insert("AutoSwapToggle".to_owned(), ControlValue::Toggle(true));
    let controls = ControlState::from_values(values);
    assert_eq!(controls.get("AutoSwapToggle"), Some(&ControlValue::Toggle(true)));
    let mut markers = BTreeMap::new();
    let _ = markers.insert(4, EditorMarker { controls, face_controls: TextMap::new() });
    let timeline = EditorTimeline::from_parts(10, 3, single(24.0), true, markers);
    assert_eq!(timeline.total_frames(), 10);
    assert_eq!(timeline.current_frame(), 3);
    assert_eq!(timeline.fps(), single(24.0));
    assert!(timeline.is_playing());
    assert_eq!(timeline.markers(), vec![4]);
    assert_eq!(timeline.next_marker(), Some(4));
}

#[test]
fn a_refused_workspace_is_told_and_changes_nothing_else() {
    let mut state = state();
    state.workspace_refused(WorkspaceError::UnsupportedVersion(7));
    assert!(matches!(
        &state.status,
        Notice::Workspace(WorkspaceError::UnsupportedVersion(7))
    ));
    assert_eq!(state.media.all().len(), 0);
}

#[test]
fn panels_are_selected_one_at_a_time() {
    let mut app = ExtraGuiApp::new(state());
    app.select_panel(ExtraGuiPanel::Settings);
    assert_eq!(app.active_panel(), ExtraGuiPanel::Settings);
    app.select_panel(ExtraGuiPanel::Parameters);
    assert_eq!(app.active_panel(), ExtraGuiPanel::Parameters);
}
