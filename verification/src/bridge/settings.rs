//! The settings of an editor session, read from its controls.

use vstd::prelude::*;

use crate::bridge::choices::{
    detector_value, provider_value, similarity_value, swap_dim_value, swapper_model_value,
};
use crate::bridge::choices::{
    detector_of, provider_of, similarity_of, swap_dim_of, swapper_model_of,
};
use crate::bridge::groups::{
    auto_color_checks, auto_color_value, border_checks, border_value, color_adjust_checks,
    color_adjust_value, detection_checks, detection_value, differencing_checks, differencing_value,
    enhancer_checks, enhancer_value, eyes_checks, eyes_value, finish_checks, finish_value,
    first_restorer_checks, first_restorer_value, geometry_checks, geometry_value, hair_checks,
    hair_value, identity_checks, landmark_checks, landmark_value, lips_checks, lips_value,
    mouth_checks, mouth_value, offsets_checks, parser_checks, regions_value, routing_checks,
    second_restorer_checks, second_restorer_value, segmentation_checks, segmentation_value,
    session_checks, swapper_checks,
};
use crate::bridge::groups::{
    auto_color_needs, auto_color_of, border_needs, border_of, color_adjust_needs, color_adjust_of,
    detection_needs, detection_of, differencing_needs, differencing_of, enhancer_needs, enhancer_of,
    eyes_needs, eyes_of, finish_needs, finish_of, first_restorer_needs, first_restorer_of,
    geometry_needs, geometry_of, hair_needs, hair_of, identity_needs, landmark_needs, landmark_of,
    lips_needs, lips_of, mouth_needs, mouth_of, offsets_needs, parser_needs, regions_of,
    routing_needs, second_restorer_needs, second_restorer_of, segmentation_needs, segmentation_of,
    session_needs, swapper_needs,
};
use crate::bridge::read::{
    choice_value, i32_value, percent_value, single_value, toggle_value, u32_value, u64_value,
    ControlBridgeError,
};
use crate::bridge::read::{
    choice_of, i32_of, percent_of, single_of, toggle_of, u32_of, u64_of, BridgeFault, Values,
};
use crate::config::{
    ColorParams, DetectorModel, ExecutionProvider, FaceParserParams, FaceSwapParams,
    IdentityParams, MaskParams, RestorationParams, RestorerMode, SimilarityType, SwapperModel,
    SwapperParams,
};
use crate::controls::ControlState;
use crate::number::{Single, ONE};
use crate::reports::first_error;
use crate::reports::{faults, first_fault};

verus! {

/// The settings of an editor session.
#[derive(Debug, PartialEq, Eq)]
pub struct EditorRuntimeConfig {
    pub provider: ExecutionProvider,
    pub detector: DetectorModel,
    pub worker_threads: u64,
    pub playback_fps: Option<Single>,
    pub auto_swap: bool,
    pub show_landmarks: bool,
    pub show_bounding_boxes: bool,
    pub max_dfm_models: u64,
    pub similarity_type: SimilarityType,
    pub embedding_merge_method: String,
    pub target_media_recursive: bool,
    pub source_media_recursive: bool,
    pub scroll_changes_values: bool,
    pub params: FaceSwapParams,
}

/// Everything that is read, in order.
pub open spec fn control_needs(v: Values) -> Seq<Option<BridgeFault>> {
    routing_needs(v)
        + detection_needs(v)
        + landmark_needs(v)
        + enhancer_needs(v)
        + first_restorer_needs(v)
        + second_restorer_needs(v)
        + swapper_needs(v)
        + geometry_needs(v)
        + offsets_needs(v)
        + identity_needs(v)
        + differencing_needs(v)
        + border_needs(v)
        + segmentation_needs(v)
        + parser_needs(v)
        + hair_needs(v)
        + lips_needs(v)
        + eyes_needs(v)
        + mouth_needs(v)
        + auto_color_needs(v)
        + color_adjust_needs(v)
        + finish_needs(v)
        + session_needs(v)
}

/// The masks.
pub open spec fn masks_of(v: Values) -> MaskParams {
    MaskParams {
        segmentation: segmentation_of(v),
        faceparser: FaceParserParams {
            enabled: toggle_of(v, "FaceParserEnableToggle"@),
            background: i32_of(v, "BackgroundParserSlider"@),
            regions: regions_of(v),
            background_blur: u32_of(v, "BackgroundBlurParserSlider"@),
            face_blur: u32_of(v, "FaceBlurParserSlider"@),
            hair_makeup: hair_of(v),
            lips_makeup: lips_of(v),
        },
        restore_mouth: mouth_of(v),
        restore_eyes: eyes_of(v),
        restore_blur: u32_of(v, "RestoreEyesMouthBlurSlider"@),
        differencing: differencing_of(v),
        border: border_of(v),
    }
}

fn masks_value(controls: &ControlState) -> (r: MaskParams)
    ensures
        r == masks_of(controls@),
{
    MaskParams {
        segmentation: segmentation_value(controls),
        faceparser: FaceParserParams {
            enabled: toggle_value(controls, "FaceParserEnableToggle"),
            background: i32_value(controls, "BackgroundParserSlider"),
            regions: regions_value(controls),
            background_blur: u32_value(controls, "BackgroundBlurParserSlider"),
            face_blur: u32_value(controls, "FaceBlurParserSlider"),
            hair_makeup: hair_value(controls),
            lips_makeup: lips_value(controls),
        },
        restore_mouth: mouth_value(controls),
        restore_eyes: eyes_value(controls),
        restore_blur: u32_value(controls, "RestoreEyesMouthBlurSlider"),
        differencing: differencing_value(controls),
        border: border_value(controls),
    }
}

/// Strength, likeness and similarity. The strength is one where it is off.
pub open spec fn identity_of(v: Values) -> IdentityParams {
    IdentityParams {
        strength: if toggle_of(v, "StrengthEnableToggle"@) {
            percent_of(v, "StrengthAmountSlider"@)
        } else {
            Single { bits: ONE }
        },
        likeness_enabled: toggle_of(v, "FaceLikenessEnableToggle"@),
        likeness_factor: single_of(v, "FaceLikenessFactorDecimalSlider"@),
        similarity_type: similarity_of(v),
        similarity_threshold: percent_of(v, "SimilarityThresholdSlider"@),
    }
}

fn identity_value(controls: &ControlState) -> (r: IdentityParams)
    ensures
        r == identity_of(controls@),
{
    IdentityParams {
        strength: if toggle_value(controls, "StrengthEnableToggle") {
            percent_value(controls, "StrengthAmountSlider")
        } else {
            Single { bits: ONE }
        },
        likeness_enabled: toggle_value(controls, "FaceLikenessEnableToggle"),
        likeness_factor: single_value(controls, "FaceLikenessFactorDecimalSlider"),
        similarity_type: similarity_value(controls),
        similarity_threshold: percent_value(controls, "SimilarityThresholdSlider"),
    }
}

/// The swapper is the one that the controls name. A DFM has a model.
pub open spec fn swapper_matches(swapper: SwapperParams, v: Values) -> bool {
    &&& swapper.model == swapper_model_of(v)
    &&& swapper.dfm_model@ == if swapper_model_of(v) == SwapperModel::Dfm {
        choice_of(v, "DFMModelSelection"@)
    } else {
        Seq::empty()
    }
    &&& swapper.dfm_morph == percent_of(v, "DFMAmpMorphSlider"@)
    &&& swapper.dfm_rct == toggle_of(v, "DFMRCTColorToggle"@)
}

fn swapper_value(controls: &ControlState) -> (r: SwapperParams)
    ensures
        swapper_matches(r, controls@),
{
    let model = swapper_model_value(controls);
    SwapperParams {
        model,
        dfm_model: if model == SwapperModel::Dfm {
            choice_value(controls, "DFMModelSelection")
        } else {
            String::new()
        },
        dfm_morph: percent_value(controls, "DFMAmpMorphSlider"),
        dfm_rct: toggle_value(controls, "DFMRCTColorToggle"),
    }
}

/// The parameters are those that the controls give. What no control sets has its default.
pub open spec fn params_match(p: FaceSwapParams, v: Values) -> bool {
    &&& p.enabled
    &&& p.dim == swap_dim_of(v)
    &&& swapper_matches(p.swapper, v)
    &&& p.detection == detection_of(v)
    &&& p.landmark == landmark_of(v)
    &&& p.restoration == (RestorationParams {
        first: first_restorer_of(v),
        second: second_restorer_of(v),
        mode: RestorerMode::Realtime,
    })
    &&& p.enhancer == enhancer_of(v)
    &&& p.geometry == geometry_of(v)
    &&& p.masks == masks_of(v)
    &&& p.color == (ColorParams {
        correction: false,
        histogram_matching: false,
        auto: auto_color_of(v),
        adjust: color_adjust_of(v),
    })
    &&& p.finish == finish_of(v)
    &&& p.identity == identity_of(v)
}

fn params_value(controls: &ControlState) -> (r: FaceSwapParams)
    ensures
        params_match(r, controls@),
{
    let base = FaceSwapParams::default();
    FaceSwapParams {
        enabled: base.enabled,
        dim: swap_dim_value(controls),
        swapper: swapper_value(controls),
        detection: detection_value(controls),
        landmark: landmark_value(controls),
        restoration: RestorationParams {
            first: first_restorer_value(controls),
            second: second_restorer_value(controls),
            mode: base.restoration.mode,
        },
        enhancer: enhancer_value(controls),
        geometry: geometry_value(controls),
        masks: masks_value(controls),
        color: ColorParams {
            correction: base.color.correction,
            histogram_matching: base.color.histogram_matching,
            auto: auto_color_value(controls),
            adjust: color_adjust_value(controls),
        },
        finish: finish_value(controls),
        identity: identity_value(controls),
    }
}

/// The settings are those that the controls give.
pub open spec fn settings_match(c: EditorRuntimeConfig, v: Values) -> bool {
    &&& c.provider == provider_of(v)
    &&& c.detector == detector_of(v)
    &&& c.worker_threads == u64_of(v, "nThreadsSlider"@)
    &&& c.playback_fps == if toggle_of(v, "VideoPlaybackCustomFpsToggle"@) {
        Some(single_of(v, "VideoPlaybackCustomFpsSlider"@))
    } else {
        None
    }
    &&& c.auto_swap == toggle_of(v, "AutoSwapToggle"@)
    &&& c.show_landmarks == toggle_of(v, "ShowLandmarksEnableToggle"@)
    &&& c.show_bounding_boxes == toggle_of(v, "ShowAllDetectedFacesBBoxToggle"@)
    &&& c.max_dfm_models == u64_of(v, "MaxDFMModelsSlider"@)
    &&& c.similarity_type == similarity_of(v)
    &&& c.embedding_merge_method@ == choice_of(v, "EmbMergeMethodSelection"@)
    &&& c.target_media_recursive == toggle_of(v, "TargetMediaFolderRecursiveToggle"@)
    &&& c.source_media_recursive == toggle_of(v, "InputFacesFolderRecursiveToggle"@)
    &&& c.scroll_changes_values == toggle_of(v, "ScrollChangesValuesToggle"@)
    &&& params_match(c.params, v)
}

/// Adds results to others.
fn gather(
    results: &mut Vec<Result<(), ControlBridgeError>>,
    more: Vec<Result<(), ControlBridgeError>>,
)
    ensures
        faults(final(results)@) == faults(old(results)@) + faults(more@),
{
    let mut more = more;
    let ghost before = results@;
    let ghost added = more@;
    results.append(&mut more);
    proof {
        assert(faults(before + added) =~= faults(before) + faults(added));
    }
}

impl EditorRuntimeConfig {
    /// The settings that the controls give. Where a control is missing, is of another kind or has
    /// an unknown choice, the error is that of the first such control.
    pub fn from_controls(controls: &ControlState) -> (r: Result<Self, ControlBridgeError>)
        ensures
            match r {
                Ok(config) => {
                    &&& first_fault(control_needs(controls@)) is None
                    &&& settings_match(config, controls@)
                },
                Err(e) => first_fault(control_needs(controls@)) == Some(e@),
            },
    {
        let mut results: Vec<Result<(), ControlBridgeError>> = routing_checks(controls);
        gather(&mut results, detection_checks(controls));
        gather(&mut results, landmark_checks(controls));
        gather(&mut results, enhancer_checks(controls));
        gather(&mut results, first_restorer_checks(controls));
        gather(&mut results, second_restorer_checks(controls));
        gather(&mut results, swapper_checks(controls));
        gather(&mut results, geometry_checks(controls));
        gather(&mut results, offsets_checks(controls));
        gather(&mut results, identity_checks(controls));
        gather(&mut results, differencing_checks(controls));
        gather(&mut results, border_checks(controls));
        gather(&mut results, segmentation_checks(controls));
        gather(&mut results, parser_checks(controls));
        gather(&mut results, hair_checks(controls));
        gather(&mut results, lips_checks(controls));
        gather(&mut results, eyes_checks(controls));
        gather(&mut results, mouth_checks(controls));
        gather(&mut results, auto_color_checks(controls));
        gather(&mut results, color_adjust_checks(controls));
        gather(&mut results, finish_checks(controls));
        gather(&mut results, session_checks(controls));
        if let Err(e) = first_error(results) {
            return Err(e);
        }
        Ok(
            EditorRuntimeConfig {
                provider: provider_value(controls),
                detector: detector_value(controls),
                worker_threads: u64_value(controls, "nThreadsSlider"),
                playback_fps: if toggle_value(controls, "VideoPlaybackCustomFpsToggle") {
                    Some(single_value(controls, "VideoPlaybackCustomFpsSlider"))
                } else {
                    None
                },
                auto_swap: toggle_value(controls, "AutoSwapToggle"),
                show_landmarks: toggle_value(controls, "ShowLandmarksEnableToggle"),
                show_bounding_boxes: toggle_value(controls, "ShowAllDetectedFacesBBoxToggle"),
                max_dfm_models: u64_value(controls, "MaxDFMModelsSlider"),
                similarity_type: similarity_value(controls),
                embedding_merge_method: choice_value(controls, "EmbMergeMethodSelection"),
                target_media_recursive: toggle_value(controls, "TargetMediaFolderRecursiveToggle"),
                source_media_recursive: toggle_value(controls, "InputFacesFolderRecursiveToggle"),
                scroll_changes_values: toggle_value(controls, "ScrollChangesValuesToggle"),
                params: params_value(controls),
            },
        )
    }
}

} // verus!
