//! Groups of controls that are read together.

use vstd::prelude::*;

use crate::bridge::choices::{
    check_color_mode, check_detector, check_dfm_model, check_enhancer_model, check_first_alignment,
    check_first_size, check_landmark_mode, check_merge_choice, check_playback_fps, check_provider,
    check_second_alignment, check_second_size, check_similarity, check_strength, check_swap_dim,
    check_swapper_model, color_mode_value, enhancer_model_value, first_alignment_value,
    first_size_value, landmark_mode_value, second_alignment_value, second_size_value,
};
use crate::bridge::choices::{
    color_mode_need, color_mode_of, detector_need, dfm_model_need, enhancer_model_need,
    enhancer_model_of, first_alignment_need, first_alignment_of, first_size_need, first_size_of,
    landmark_mode_need, landmark_mode_of, merge_choice_need, playback_fps_need, provider_need,
    second_alignment_need, second_alignment_of, second_size_need, second_size_of, similarity_need,
    strength_need, swap_dim_need, swapper_model_need,
};
use crate::bridge::read::{
    check_number, check_toggle, i32_value, percent_value, single_value, toggle_value, u16_value,
    u32_value, u64_value, u8_value, ControlBridgeError,
};
use crate::bridge::read::{
    i32_of, number_need, percent_of, single_of, toggle_need, toggle_of, u16_of, u32_of, u64_of,
    u8_of, BridgeFault, Values,
};
use crate::config::{
    AutoColorParams, BorderParams, ColorAdjustParams, DetectionParams, DifferencingParams,
    EnhancerParams, FinishParams, GeometryParams, LandmarkOffsets, LandmarkParams, MakeupParams,
    Offset, ParserRegions, RestoreRegionParams, RestorerParams, SegmentationParams,
};
use crate::controls::ControlState;
use crate::reports::faults;

verus! {

/// What is read for face detection, in order.
#[verifier::opaque]
pub open spec fn detection_needs(v: Values) -> Seq<Option<BridgeFault>> {
    seq![
        number_need(v, "DetectorScoreSlider"@),
        number_need(v, "MaxFacesToDetectSlider"@),
        toggle_need(v, "AutoRotationToggle"@),
        toggle_need(v, "ManualRotationEnableToggle"@),
        number_need(v, "ManualRotationAngleSlider"@),
    ]
}

pub(crate) fn detection_checks(controls: &ControlState) -> (r: Vec<Result<(), ControlBridgeError>>)
    ensures
        faults(r@) == detection_needs(controls@),
{
    let r: Vec<Result<(), ControlBridgeError>> = vec![
        check_number(controls, "DetectorScoreSlider"),
        check_number(controls, "MaxFacesToDetectSlider"),
        check_toggle(controls, "AutoRotationToggle"),
        check_toggle(controls, "ManualRotationEnableToggle"),
        check_number(controls, "ManualRotationAngleSlider"),
    ];
    proof {
        reveal(detection_needs);
        assert(faults(r@) =~= detection_needs(controls@));
    }
    r
}

/// Face detection.
pub open spec fn detection_of(v: Values) -> DetectionParams {
    DetectionParams {
        score: percent_of(v, "DetectorScoreSlider"@),
        max_faces: u64_of(v, "MaxFacesToDetectSlider"@),
        auto_rotation: toggle_of(v, "AutoRotationToggle"@),
        manual_rotation_enabled: toggle_of(v, "ManualRotationEnableToggle"@),
        manual_rotation_angle: u16_of(v, "ManualRotationAngleSlider"@),
    }
}

pub(crate) fn detection_value(controls: &ControlState) -> (r: DetectionParams)
    ensures
        r == detection_of(controls@),
{
    DetectionParams {
        score: percent_value(controls, "DetectorScoreSlider"),
        max_faces: u64_value(controls, "MaxFacesToDetectSlider"),
        auto_rotation: toggle_value(controls, "AutoRotationToggle"),
        manual_rotation_enabled: toggle_value(controls, "ManualRotationEnableToggle"),
        manual_rotation_angle: u16_value(controls, "ManualRotationAngleSlider"),
    }
}

/// What is read for landmark detection, in order.
#[verifier::opaque]
pub open spec fn landmark_needs(v: Values) -> Seq<Option<BridgeFault>> {
    seq![
        toggle_need(v, "LandmarkDetectToggle"@),
        landmark_mode_need(v),
        number_need(v, "LandmarkDetectScoreSlider"@),
        toggle_need(v, "DetectFromPointsToggle"@),
    ]
}

pub(crate) fn landmark_checks(controls: &ControlState) -> (r: Vec<Result<(), ControlBridgeError>>)
    ensures
        faults(r@) == landmark_needs(controls@),
{
    let r: Vec<Result<(), ControlBridgeError>> = vec![
        check_toggle(controls, "LandmarkDetectToggle"),
        check_landmark_mode(controls),
        check_number(controls, "LandmarkDetectScoreSlider"),
        check_toggle(controls, "DetectFromPointsToggle"),
    ];
    proof {
        reveal(landmark_needs);
        assert(faults(r@) =~= landmark_needs(controls@));
    }
    r
}

/// Landmark detection.
pub open spec fn landmark_of(v: Values) -> LandmarkParams {
    LandmarkParams {
        enabled: toggle_of(v, "LandmarkDetectToggle"@),
        mode: landmark_mode_of(v),
        score: percent_of(v, "LandmarkDetectScoreSlider"@),
        from_points: toggle_of(v, "DetectFromPointsToggle"@),
    }
}

pub(crate) fn landmark_value(controls: &ControlState) -> (r: LandmarkParams)
    ensures
        r == landmark_of(controls@),
{
    LandmarkParams {
        enabled: toggle_value(controls, "LandmarkDetectToggle"),
        mode: landmark_mode_value(controls),
        score: percent_value(controls, "LandmarkDetectScoreSlider"),
        from_points: toggle_value(controls, "DetectFromPointsToggle"),
    }
}

/// What is read for full-frame enhancement, in order.
#[verifier::opaque]
pub open spec fn enhancer_needs(v: Values) -> Seq<Option<BridgeFault>> {
    seq![
        toggle_need(v, "FrameEnhancerEnableToggle"@),
        enhancer_model_need(v),
        number_need(v, "FrameEnhancerBlendSlider"@),
    ]
}

pub(crate) fn enhancer_checks(controls: &ControlState) -> (r: Vec<Result<(), ControlBridgeError>>)
    ensures
        faults(r@) == enhancer_needs(controls@),
{
    let r: Vec<Result<(), ControlBridgeError>> = vec![
        check_toggle(controls, "FrameEnhancerEnableToggle"),
        check_enhancer_model(controls),
        check_number(controls, "FrameEnhancerBlendSlider"),
    ];
    proof {
        reveal(enhancer_needs);
        assert(faults(r@) =~= enhancer_needs(controls@));
    }
    r
}

/// Full-frame enhancement.
pub open spec fn enhancer_of(v: Values) -> EnhancerParams {
    EnhancerParams {
        enabled: toggle_of(v, "FrameEnhancerEnableToggle"@),
        model: enhancer_model_of(v),
        blend: percent_of(v, "FrameEnhancerBlendSlider"@),
    }
}

pub(crate) fn enhancer_value(controls: &ControlState) -> (r: EnhancerParams)
    ensures
        r == enhancer_of(controls@),
{
    EnhancerParams {
        enabled: toggle_value(controls, "FrameEnhancerEnableToggle"),
        model: enhancer_model_value(controls),
        blend: percent_value(controls, "FrameEnhancerBlendSlider"),
    }
}

/// What is read for the first face restorer, in order.
#[verifier::opaque]
pub open spec fn first_restorer_needs(v: Values) -> Seq<Option<BridgeFault>> {
    seq![
        toggle_need(v, "FaceRestorerEnableToggle"@),
        first_size_need(v),
        first_alignment_need(v),
        number_need(v, "FaceRestorerBlendSlider"@),
        number_need(v, "FaceFidelityWeightDecimalSlider"@),
    ]
}

pub(crate) fn first_restorer_checks(controls: &ControlState) -> (r: Vec<Result<(), ControlBridgeError>>)
    ensures
        faults(r@) == first_restorer_needs(controls@),
{
    let r: Vec<Result<(), ControlBridgeError>> = vec![
        check_toggle(controls, "FaceRestorerEnableToggle"),
        check_first_size(controls),
        check_first_alignment(controls),
        check_number(controls, "FaceRestorerBlendSlider"),
        check_number(controls, "FaceFidelityWeightDecimalSlider"),
    ];
    proof {
        reveal(first_restorer_needs);
        assert(faults(r@) =~= first_restorer_needs(controls@));
    }
    r
}

/// The first face restorer.
pub open spec fn first_restorer_of(v: Values) -> RestorerParams {
    RestorerParams {
        enabled: toggle_of(v, "FaceRestorerEnableToggle"@),
        size: first_size_of(v),
        alignment: first_alignment_of(v),
        alpha: percent_of(v, "FaceRestorerBlendSlider"@),
        fidelity: single_of(v, "FaceFidelityWeightDecimalSlider"@),
    }
}

pub(crate) fn first_restorer_value(controls: &ControlState) -> (r: RestorerParams)
    ensures
        r == first_restorer_of(controls@),
{
    RestorerParams {
        enabled: toggle_value(controls, "FaceRestorerEnableToggle"),
        size: first_size_value(controls),
        alignment: first_alignment_value(controls),
        alpha: percent_value(controls, "FaceRestorerBlendSlider"),
        fidelity: single_value(controls, "FaceFidelityWeightDecimalSlider"),
    }
}

/// What is read for the second face restorer, in order.
#[verifier::opaque]
pub open spec fn second_restorer_needs(v: Values) -> Seq<Option<BridgeFault>> {
    seq![
        toggle_need(v, "FaceRestorerEnable2Toggle"@),
        second_size_need(v),
        second_alignment_need(v),
        number_need(v, "FaceRestorerBlend2Slider"@),
        number_need(v, "FaceFidelityWeight2DecimalSlider"@),
    ]
}

pub(crate) fn second_restorer_checks(controls: &ControlState) -> (r: Vec<Result<(), ControlBridgeError>>)
    ensures
        faults(r@) == second_restorer_needs(controls@),
{
    let r: Vec<Result<(), ControlBridgeError>> = vec![
        check_toggle(controls, "FaceRestorerEnable2Toggle"),
        check_second_size(controls),
        check_second_alignment(controls),
        check_number(controls, "FaceRestorerBlend2Slider"),
        check_number(controls, "FaceFidelityWeight2DecimalSlider"),
    ];
    proof {
        reveal(second_restorer_needs);
        assert(faults(r@) =~= second_restorer_needs(controls@));
    }
    r
}

/// The second face restorer.
pub open spec fn second_restorer_of(v: Values) -> RestorerParams {
    RestorerParams {
        enabled: toggle_of(v, "FaceRestorerEnable2Toggle"@),
        size: second_size_of(v),
        alignment: second_alignment_of(v),
        alpha: percent_of(v, "FaceRestorerBlend2Slider"@),
        fidelity: single_of(v, "FaceFidelityWeight2DecimalSlider"@),
    }
}

pub(crate) fn second_restorer_value(controls: &ControlState) -> (r: RestorerParams)
    ensures
        r == second_restorer_of(controls@),
{
    RestorerParams {
        enabled: toggle_value(controls, "FaceRestorerEnable2Toggle"),
        size: second_size_value(controls),
        alignment: second_alignment_value(controls),
        alpha: percent_value(controls, "FaceRestorerBlend2Slider"),
        fidelity: single_value(controls, "FaceFidelityWeight2DecimalSlider"),
    }
}

/// What is read for the swapper, in order.
#[verifier::opaque]
pub open spec fn swapper_needs(v: Values) -> Seq<Option<BridgeFault>> {
    seq![
        swapper_model_need(v),
        swap_dim_need(v),
        dfm_model_need(v),
        number_need(v, "DFMAmpMorphSlider"@),
        toggle_need(v, "DFMRCTColorToggle"@),
    ]
}

pub(crate) fn swapper_checks(controls: &ControlState) -> (r: Vec<Result<(), ControlBridgeError>>)
    ensures
        faults(r@) == swapper_needs(controls@),
{
    let r: Vec<Result<(), ControlBridgeError>> = vec![
        check_swapper_model(controls),
        check_swap_dim(controls),
        check_dfm_model(controls),
        check_number(controls, "DFMAmpMorphSlider"),
        check_toggle(controls, "DFMRCTColorToggle"),
    ];
    proof {
        reveal(swapper_needs);
        assert(faults(r@) =~= swapper_needs(controls@));
    }
    r
}

/// What is read for shifts and scales, in order.
#[verifier::opaque]
pub open spec fn geometry_needs(v: Values) -> Seq<Option<BridgeFault>> {
    seq![
        toggle_need(v, "FaceAdjEnableToggle"@),
        number_need(v, "KpsXSlider"@),
        number_need(v, "KpsYSlider"@),
        number_need(v, "KpsScaleSlider"@),
        number_need(v, "FaceScaleAmountSlider"@),
    ]
}

pub(crate) fn geometry_checks(controls: &ControlState) -> (r: Vec<Result<(), ControlBridgeError>>)
    ensures
        faults(r@) == geometry_needs(controls@),
{
    let r: Vec<Result<(), ControlBridgeError>> = vec![
        check_toggle(controls, "FaceAdjEnableToggle"),
        check_number(controls, "KpsXSlider"),
        check_number(controls, "KpsYSlider"),
        check_number(controls, "KpsScaleSlider"),
        check_number(controls, "FaceScaleAmountSlider"),
    ];
    proof {
        reveal(geometry_needs);
        assert(faults(r@) =~= geometry_needs(controls@));
    }
    r
}

/// What is read for shifts of landmarks, in order.
#[verifier::opaque]
pub open spec fn offsets_needs(v: Values) -> Seq<Option<BridgeFault>> {
    seq![
        toggle_need(v, "LandmarksPositionAdjEnableToggle"@),
        number_need(v, "EyeLeftXAmountSlider"@),
        number_need(v, "EyeLeftYAmountSlider"@),
        number_need(v, "EyeRightXAmountSlider"@),
        number_need(v, "EyeRightYAmountSlider"@),
        number_need(v, "NoseXAmountSlider"@),
        number_need(v, "NoseYAmountSlider"@),
        number_need(v, "MouthLeftXAmountSlider"@),
        number_need(v, "MouthLeftYAmountSlider"@),
        number_need(v, "MouthRightXAmountSlider"@),
        number_need(v, "MouthRightYAmountSlider"@),
    ]
}

pub(crate) fn offsets_checks(controls: &ControlState) -> (r: Vec<Result<(), ControlBridgeError>>)
    ensures
        faults(r@) == offsets_needs(controls@),
{
    let r: Vec<Result<(), ControlBridgeError>> = vec![
        check_toggle(controls, "LandmarksPositionAdjEnableToggle"),
        check_number(controls, "EyeLeftXAmountSlider"),
        check_number(controls, "EyeLeftYAmountSlider"),
        check_number(controls, "EyeRightXAmountSlider"),
        check_number(controls, "EyeRightYAmountSlider"),
        check_number(controls, "NoseXAmountSlider"),
        check_number(controls, "NoseYAmountSlider"),
        check_number(controls, "MouthLeftXAmountSlider"),
        check_number(controls, "MouthLeftYAmountSlider"),
        check_number(controls, "MouthRightXAmountSlider"),
        check_number(controls, "MouthRightYAmountSlider"),
    ];
    proof {
        reveal(offsets_needs);
        assert(faults(r@) =~= offsets_needs(controls@));
    }
    r
}

/// Shifts of landmarks.
pub open spec fn offsets_of(v: Values) -> LandmarkOffsets {
    LandmarkOffsets {
        enabled: toggle_of(v, "LandmarksPositionAdjEnableToggle"@),
        left_eye: Offset { x: single_of(v, "EyeLeftXAmountSlider"@), y: single_of(v, "EyeLeftYAmountSlider"@) },
        right_eye: Offset { x: single_of(v, "EyeRightXAmountSlider"@), y: single_of(v, "EyeRightYAmountSlider"@) },
        nose: Offset { x: single_of(v, "NoseXAmountSlider"@), y: single_of(v, "NoseYAmountSlider"@) },
        mouth_left: Offset { x: single_of(v, "MouthLeftXAmountSlider"@), y: single_of(v, "MouthLeftYAmountSlider"@) },
        mouth_right: Offset { x: single_of(v, "MouthRightXAmountSlider"@), y: single_of(v, "MouthRightYAmountSlider"@) },
    }
}

pub(crate) fn offsets_value(controls: &ControlState) -> (r: LandmarkOffsets)
    ensures
        r == offsets_of(controls@),
{
    LandmarkOffsets {
        enabled: toggle_value(controls, "LandmarksPositionAdjEnableToggle"),
        left_eye: Offset { x: single_value(controls, "EyeLeftXAmountSlider"), y: single_value(controls, "EyeLeftYAmountSlider") },
        right_eye: Offset { x: single_value(controls, "EyeRightXAmountSlider"), y: single_value(controls, "EyeRightYAmountSlider") },
        nose: Offset { x: single_value(controls, "NoseXAmountSlider"), y: single_value(controls, "NoseYAmountSlider") },
        mouth_left: Offset { x: single_value(controls, "MouthLeftXAmountSlider"), y: single_value(controls, "MouthLeftYAmountSlider") },
        mouth_right: Offset { x: single_value(controls, "MouthRightXAmountSlider"), y: single_value(controls, "MouthRightYAmountSlider") },
    }
}

/// Shifts and scales.
pub open spec fn geometry_of(v: Values) -> GeometryParams {
    GeometryParams {
        enabled: toggle_of(v, "FaceAdjEnableToggle"@),
        keypoints_x: single_of(v, "KpsXSlider"@),
        keypoints_y: single_of(v, "KpsYSlider"@),
        keypoints_scale: single_of(v, "KpsScaleSlider"@),
        face_scale: single_of(v, "FaceScaleAmountSlider"@),
        offsets: offsets_of(v),
    }
}

pub(crate) fn geometry_value(controls: &ControlState) -> (r: GeometryParams)
    ensures
        r == geometry_of(controls@),
{
    GeometryParams {
        enabled: toggle_value(controls, "FaceAdjEnableToggle"),
        keypoints_x: single_value(controls, "KpsXSlider"),
        keypoints_y: single_value(controls, "KpsYSlider"),
        keypoints_scale: single_value(controls, "KpsScaleSlider"),
        face_scale: single_value(controls, "FaceScaleAmountSlider"),
        offsets: offsets_value(controls),
    }
}

/// What is read for identity and likeness, in order.
#[verifier::opaque]
pub open spec fn identity_needs(v: Values) -> Seq<Option<BridgeFault>> {
    seq![
        number_need(v, "SimilarityThresholdSlider"@),
        toggle_need(v, "StrengthEnableToggle"@),
        strength_need(v),
        toggle_need(v, "FaceLikenessEnableToggle"@),
        number_need(v, "FaceLikenessFactorDecimalSlider"@),
    ]
}

pub(crate) fn identity_checks(controls: &ControlState) -> (r: Vec<Result<(), ControlBridgeError>>)
    ensures
        faults(r@) == identity_needs(controls@),
{
    let r: Vec<Result<(), ControlBridgeError>> = vec![
        check_number(controls, "SimilarityThresholdSlider"),
        check_toggle(controls, "StrengthEnableToggle"),
        check_strength(controls),
        check_toggle(controls, "FaceLikenessEnableToggle"),
        check_number(controls, "FaceLikenessFactorDecimalSlider"),
    ];
    proof {
        reveal(identity_needs);
        assert(faults(r@) =~= identity_needs(controls@));
    }
    r
}

/// What is read for the differencing mask, in order.
#[verifier::opaque]
pub open spec fn differencing_needs(v: Values) -> Seq<Option<BridgeFault>> {
    seq![
        toggle_need(v, "DifferencingEnableToggle"@),
        number_need(v, "DifferencingAmountSlider"@),
        number_need(v, "DifferencingBlendAmountSlider"@),
    ]
}

pub(crate) fn differencing_checks(controls: &ControlState) -> (r: Vec<Result<(), ControlBridgeError>>)
    ensures
        faults(r@) == differencing_needs(controls@),
{
    let r: Vec<Result<(), ControlBridgeError>> = vec![
        check_toggle(controls, "DifferencingEnableToggle"),
        check_number(controls, "DifferencingAmountSlider"),
        check_number(controls, "DifferencingBlendAmountSlider"),
    ];
    proof {
        reveal(differencing_needs);
        assert(faults(r@) =~= differencing_needs(controls@));
    }
    r
}

/// The differencing mask.
pub open spec fn differencing_of(v: Values) -> DifferencingParams {
    DifferencingParams {
        enabled: toggle_of(v, "DifferencingEnableToggle"@),
        amount: u32_of(v, "DifferencingAmountSlider"@),
        blur: u32_of(v, "DifferencingBlendAmountSlider"@),
    }
}

pub(crate) fn differencing_value(controls: &ControlState) -> (r: DifferencingParams)
    ensures
        r == differencing_of(controls@),
{
    DifferencingParams {
        enabled: toggle_value(controls, "DifferencingEnableToggle"),
        amount: u32_value(controls, "DifferencingAmountSlider"),
        blur: u32_value(controls, "DifferencingBlendAmountSlider"),
    }
}

/// What is read for the border mask, in order.
#[verifier::opaque]
pub open spec fn border_needs(v: Values) -> Seq<Option<BridgeFault>> {
    seq![
        number_need(v, "BorderBottomSlider"@),
        number_need(v, "BorderLeftSlider"@),
        number_need(v, "BorderRightSlider"@),
        number_need(v, "BorderTopSlider"@),
        number_need(v, "BorderBlurSlider"@),
    ]
}

pub(crate) fn border_checks(controls: &ControlState) -> (r: Vec<Result<(), ControlBridgeError>>)
    ensures
        faults(r@) == border_needs(controls@),
{
    let r: Vec<Result<(), ControlBridgeError>> = vec![
        check_number(controls, "BorderBottomSlider"),
        check_number(controls, "BorderLeftSlider"),
        check_number(controls, "BorderRightSlider"),
        check_number(controls, "BorderTopSlider"),
        check_number(controls, "BorderBlurSlider"),
    ];
    proof {
        reveal(border_needs);
        assert(faults(r@) =~= border_needs(controls@));
    }
    r
}

/// The border mask.
pub open spec fn border_of(v: Values) -> BorderParams {
    BorderParams {
        bottom: u32_of(v, "BorderBottomSlider"@),
        left: u32_of(v, "BorderLeftSlider"@),
        right: u32_of(v, "BorderRightSlider"@),
        top: u32_of(v, "BorderTopSlider"@),
        blur: u32_of(v, "BorderBlurSlider"@),
    }
}

pub(crate) fn border_value(controls: &ControlState) -> (r: BorderParams)
    ensures
        r == border_of(controls@),
{
    BorderParams {
        bottom: u32_value(controls, "BorderBottomSlider"),
        left: u32_value(controls, "BorderLeftSlider"),
        right: u32_value(controls, "BorderRightSlider"),
        top: u32_value(controls, "BorderTopSlider"),
        blur: u32_value(controls, "BorderBlurSlider"),
    }
}

/// What is read for the occluder and XSeg masks, in order.
#[verifier::opaque]
pub open spec fn segmentation_needs(v: Values) -> Seq<Option<BridgeFault>> {
    seq![
        toggle_need(v, "OccluderEnableToggle"@),
        number_need(v, "OccluderSizeSlider"@),
        toggle_need(v, "DFLXSegEnableToggle"@),
        number_need(v, "DFLXSegSizeSlider"@),
        number_need(v, "OccluderXSegBlurSlider"@),
    ]
}

pub(crate) fn segmentation_checks(controls: &ControlState) -> (r: Vec<Result<(), ControlBridgeError>>)
    ensures
        faults(r@) == segmentation_needs(controls@),
{
    let r: Vec<Result<(), ControlBridgeError>> = vec![
        check_toggle(controls, "OccluderEnableToggle"),
        check_number(controls, "OccluderSizeSlider"),
        check_toggle(controls, "DFLXSegEnableToggle"),
        check_number(controls, "DFLXSegSizeSlider"),
        check_number(controls, "OccluderXSegBlurSlider"),
    ];
    proof {
        reveal(segmentation_needs);
        assert(faults(r@) =~= segmentation_needs(controls@));
    }
    r
}

/// The occluder and XSeg masks.
pub open spec fn segmentation_of(v: Values) -> SegmentationParams {
    SegmentationParams {
        occluder_enabled: toggle_of(v, "OccluderEnableToggle"@),
        occluder_size: i32_of(v, "OccluderSizeSlider"@),
        xseg_enabled: toggle_of(v, "DFLXSegEnableToggle"@),
        xseg_size: i32_of(v, "DFLXSegSizeSlider"@),
        blur: u32_of(v, "OccluderXSegBlurSlider"@),
    }
}

pub(crate) fn segmentation_value(controls: &ControlState) -> (r: SegmentationParams)
    ensures
        r == segmentation_of(controls@),
{
    SegmentationParams {
        occluder_enabled: toggle_value(controls, "OccluderEnableToggle"),
        occluder_size: i32_value(controls, "OccluderSizeSlider"),
        xseg_enabled: toggle_value(controls, "DFLXSegEnableToggle"),
        xseg_size: i32_value(controls, "DFLXSegSizeSlider"),
        blur: u32_value(controls, "OccluderXSegBlurSlider"),
    }
}

/// What is read for the face parser, in order.
#[verifier::opaque]
pub open spec fn parser_needs(v: Values) -> Seq<Option<BridgeFault>> {
    seq![
        toggle_need(v, "FaceParserEnableToggle"@),
        number_need(v, "BackgroundParserSlider"@),
        number_need(v, "FaceParserSlider"@),
        number_need(v, "LeftEyebrowParserSlider"@),
        number_need(v, "RightEyebrowParserSlider"@),
        number_need(v, "LeftEyeParserSlider"@),
        number_need(v, "RightEyeParserSlider"@),
        number_need(v, "EyeGlassesParserSlider"@),
        number_need(v, "NoseParserSlider"@),
        number_need(v, "MouthParserSlider"@),
        number_need(v, "UpperLipParserSlider"@),
        number_need(v, "LowerLipParserSlider"@),
        number_need(v, "NeckParserSlider"@),
        number_need(v, "HairParserSlider"@),
        number_need(v, "BackgroundBlurParserSlider"@),
        number_need(v, "FaceBlurParserSlider"@),
    ]
}

pub(crate) fn parser_checks(controls: &ControlState) -> (r: Vec<Result<(), ControlBridgeError>>)
    ensures
        faults(r@) == parser_needs(controls@),
{
    let r: Vec<Result<(), ControlBridgeError>> = vec![
        check_toggle(controls, "FaceParserEnableToggle"),
        check_number(controls, "BackgroundParserSlider"),
        check_number(controls, "FaceParserSlider"),
        check_number(controls, "LeftEyebrowParserSlider"),
        check_number(controls, "RightEyebrowParserSlider"),
        check_number(controls, "LeftEyeParserSlider"),
        check_number(controls, "RightEyeParserSlider"),
        check_number(controls, "EyeGlassesParserSlider"),
        check_number(controls, "NoseParserSlider"),
        check_number(controls, "MouthParserSlider"),
        check_number(controls, "UpperLipParserSlider"),
        check_number(controls, "LowerLipParserSlider"),
        check_number(controls, "NeckParserSlider"),
        check_number(controls, "HairParserSlider"),
        check_number(controls, "BackgroundBlurParserSlider"),
        check_number(controls, "FaceBlurParserSlider"),
    ];
    proof {
        reveal(parser_needs);
        assert(faults(r@) =~= parser_needs(controls@));
    }
    r
}

/// Growth of the parsed regions.
pub open spec fn regions_of(v: Values) -> ParserRegions {
    ParserRegions {
        face: u32_of(v, "FaceParserSlider"@),
        left_eyebrow: u32_of(v, "LeftEyebrowParserSlider"@),
        right_eyebrow: u32_of(v, "RightEyebrowParserSlider"@),
        left_eye: u32_of(v, "LeftEyeParserSlider"@),
        right_eye: u32_of(v, "RightEyeParserSlider"@),
        eyeglasses: u32_of(v, "EyeGlassesParserSlider"@),
        nose: u32_of(v, "NoseParserSlider"@),
        mouth: u32_of(v, "MouthParserSlider"@),
        upper_lip: u32_of(v, "UpperLipParserSlider"@),
        lower_lip: u32_of(v, "LowerLipParserSlider"@),
        neck: u32_of(v, "NeckParserSlider"@),
        hair: u32_of(v, "HairParserSlider"@),
    }
}

pub(crate) fn regions_value(controls: &ControlState) -> (r: ParserRegions)
    ensures
        r == regions_of(controls@),
{
    ParserRegions {
        face: u32_value(controls, "FaceParserSlider"),
        left_eyebrow: u32_value(controls, "LeftEyebrowParserSlider"),
        right_eyebrow: u32_value(controls, "RightEyebrowParserSlider"),
        left_eye: u32_value(controls, "LeftEyeParserSlider"),
        right_eye: u32_value(controls, "RightEyeParserSlider"),
        eyeglasses: u32_value(controls, "EyeGlassesParserSlider"),
        nose: u32_value(controls, "NoseParserSlider"),
        mouth: u32_value(controls, "MouthParserSlider"),
        upper_lip: u32_value(controls, "UpperLipParserSlider"),
        lower_lip: u32_value(controls, "LowerLipParserSlider"),
        neck: u32_value(controls, "NeckParserSlider"),
        hair: u32_value(controls, "HairParserSlider"),
    }
}

/// What is read for the tint of the hair, in order.
#[verifier::opaque]
pub open spec fn hair_needs(v: Values) -> Seq<Option<BridgeFault>> {
    seq![
        toggle_need(v, "FaceParserHairMakeupEnableToggle"@),
        number_need(v, "FaceParserHairMakeupRedSlider"@),
        number_need(v, "FaceParserHairMakeupGreenSlider"@),
        number_need(v, "FaceParserHairMakeupBlueSlider"@),
        number_need(v, "FaceParserHairMakeupBlendAmountDecimalSlider"@),
    ]
}

pub(crate) fn hair_checks(controls: &ControlState) -> (r: Vec<Result<(), ControlBridgeError>>)
    ensures
        faults(r@) == hair_needs(controls@),
{
    let r: Vec<Result<(), ControlBridgeError>> = vec![
        check_toggle(controls, "FaceParserHairMakeupEnableToggle"),
        check_number(controls, "FaceParserHairMakeupRedSlider"),
        check_number(controls, "FaceParserHairMakeupGreenSlider"),
        check_number(controls, "FaceParserHairMakeupBlueSlider"),
        check_number(controls, "FaceParserHairMakeupBlendAmountDecimalSlider"),
    ];
    proof {
        reveal(hair_needs);
        assert(faults(r@) =~= hair_needs(controls@));
    }
    r
}

/// The tint of the hair.
pub open spec fn hair_of(v: Values) -> MakeupParams {
    MakeupParams {
        enabled: toggle_of(v, "FaceParserHairMakeupEnableToggle"@),
        red: single_of(v, "FaceParserHairMakeupRedSlider"@),
        green: single_of(v, "FaceParserHairMakeupGreenSlider"@),
        blue: single_of(v, "FaceParserHairMakeupBlueSlider"@),
        blend: single_of(v, "FaceParserHairMakeupBlendAmountDecimalSlider"@),
    }
}

pub(crate) fn hair_value(controls: &ControlState) -> (r: MakeupParams)
    ensures
        r == hair_of(controls@),
{
    MakeupParams {
        enabled: toggle_value(controls, "FaceParserHairMakeupEnableToggle"),
        red: single_value(controls, "FaceParserHairMakeupRedSlider"),
        green: single_value(controls, "FaceParserHairMakeupGreenSlider"),
        blue: single_value(controls, "FaceParserHairMakeupBlueSlider"),
        blend: single_value(controls, "FaceParserHairMakeupBlendAmountDecimalSlider"),
    }
}

/// What is read for the tint of the lips, in order.
#[verifier::opaque]
pub open spec fn lips_needs(v: Values) -> Seq<Option<BridgeFault>> {
    seq![
        toggle_need(v, "FaceParserLipsMakeupEnableToggle"@),
        number_need(v, "FaceParserLipsMakeupRedSlider"@),
        number_need(v, "FaceParserLipsMakeupGreenSlider"@),
        number_need(v, "FaceParserLipsMakeupBlueSlider"@),
        number_need(v, "FaceParserLipsMakeupBlendAmountDecimalSlider"@),
    ]
}

pub(crate) fn lips_checks(controls: &ControlState) -> (r: Vec<Result<(), ControlBridgeError>>)
    ensures
        faults(r@) == lips_needs(controls@),
{
    let r: Vec<Result<(), ControlBridgeError>> = vec![
        check_toggle(controls, "FaceParserLipsMakeupEnableToggle"),
        check_number(controls, "FaceParserLipsMakeupRedSlider"),
        check_number(controls, "FaceParserLipsMakeupGreenSlider"),
        check_number(controls, "FaceParserLipsMakeupBlueSlider"),
        check_number(controls, "FaceParserLipsMakeupBlendAmountDecimalSlider"),
    ];
    proof {
        reveal(lips_needs);
        assert(faults(r@) =~= lips_needs(controls@));
    }
    r
}

/// The tint of the lips.
pub open spec fn lips_of(v: Values) -> MakeupParams {
    MakeupParams {
        enabled: toggle_of(v, "FaceParserLipsMakeupEnableToggle"@),
        red: single_of(v, "FaceParserLipsMakeupRedSlider"@),
        green: single_of(v, "FaceParserLipsMakeupGreenSlider"@),
        blue: single_of(v, "FaceParserLipsMakeupBlueSlider"@),
        blend: single_of(v, "FaceParserLipsMakeupBlendAmountDecimalSlider"@),
    }
}

pub(crate) fn lips_value(controls: &ControlState) -> (r: MakeupParams)
    ensures
        r == lips_of(controls@),
{
    MakeupParams {
        enabled: toggle_value(controls, "FaceParserLipsMakeupEnableToggle"),
        red: single_value(controls, "FaceParserLipsMakeupRedSlider"),
        green: single_value(controls, "FaceParserLipsMakeupGreenSlider"),
        blue: single_value(controls, "FaceParserLipsMakeupBlueSlider"),
        blend: single_value(controls, "FaceParserLipsMakeupBlendAmountDecimalSlider"),
    }
}

/// What is read for the eyes of the target, in order.
#[verifier::opaque]
pub open spec fn eyes_needs(v: Values) -> Seq<Option<BridgeFault>> {
    seq![
        toggle_need(v, "RestoreEyesEnableToggle"@),
        number_need(v, "RestoreEyesBlendAmountSlider"@),
        number_need(v, "RestoreEyesSizeFactorDecimalSlider"@),
        number_need(v, "RestoreEyesFeatherBlendSlider"@),
        number_need(v, "RestoreXEyesRadiusFactorDecimalSlider"@),
        number_need(v, "RestoreYEyesRadiusFactorDecimalSlider"@),
        number_need(v, "RestoreXEyesOffsetSlider"@),
        number_need(v, "RestoreYEyesOffsetSlider"@),
        number_need(v, "RestoreEyesSpacingOffsetSlider"@),
    ]
}

pub(crate) fn eyes_checks(controls: &ControlState) -> (r: Vec<Result<(), ControlBridgeError>>)
    ensures
        faults(r@) == eyes_needs(controls@),
{
    let r: Vec<Result<(), ControlBridgeError>> = vec![
        check_toggle(controls, "RestoreEyesEnableToggle"),
        check_number(controls, "RestoreEyesBlendAmountSlider"),
        check_number(controls, "RestoreEyesSizeFactorDecimalSlider"),
        check_number(controls, "RestoreEyesFeatherBlendSlider"),
        check_number(controls, "RestoreXEyesRadiusFactorDecimalSlider"),
        check_number(controls, "RestoreYEyesRadiusFactorDecimalSlider"),
        check_number(controls, "RestoreXEyesOffsetSlider"),
        check_number(controls, "RestoreYEyesOffsetSlider"),
        check_number(controls, "RestoreEyesSpacingOffsetSlider"),
    ];
    proof {
        reveal(eyes_needs);
        assert(faults(r@) =~= eyes_needs(controls@));
    }
    r
}

/// The eyes of the target.
pub open spec fn eyes_of(v: Values) -> RestoreRegionParams {
    RestoreRegionParams {
        enabled: toggle_of(v, "RestoreEyesEnableToggle"@),
        blend: percent_of(v, "RestoreEyesBlendAmountSlider"@),
        size_factor: single_of(v, "RestoreEyesSizeFactorDecimalSlider"@),
        feather: u32_of(v, "RestoreEyesFeatherBlendSlider"@),
        radius_x: single_of(v, "RestoreXEyesRadiusFactorDecimalSlider"@),
        radius_y: single_of(v, "RestoreYEyesRadiusFactorDecimalSlider"@),
        offset_x: i32_of(v, "RestoreXEyesOffsetSlider"@),
        offset_y: i32_of(v, "RestoreYEyesOffsetSlider"@),
        spacing_offset: i32_of(v, "RestoreEyesSpacingOffsetSlider"@),
    }
}

pub(crate) fn eyes_value(controls: &ControlState) -> (r: RestoreRegionParams)
    ensures
        r == eyes_of(controls@),
{
    RestoreRegionParams {
        enabled: toggle_value(controls, "RestoreEyesEnableToggle"),
        blend: percent_value(controls, "RestoreEyesBlendAmountSlider"),
        size_factor: single_value(controls, "RestoreEyesSizeFactorDecimalSlider"),
        feather: u32_value(controls, "RestoreEyesFeatherBlendSlider"),
        radius_x: single_value(controls, "RestoreXEyesRadiusFactorDecimalSlider"),
        radius_y: single_value(controls, "RestoreYEyesRadiusFactorDecimalSlider"),
        offset_x: i32_value(controls, "RestoreXEyesOffsetSlider"),
        offset_y: i32_value(controls, "RestoreYEyesOffsetSlider"),
        spacing_offset: i32_value(controls, "RestoreEyesSpacingOffsetSlider"),
    }
}

/// What is read for the mouth and the blur around both, in order.
#[verifier::opaque]
pub open spec fn mouth_needs(v: Values) -> Seq<Option<BridgeFault>> {
    seq![
        toggle_need(v, "RestoreMouthEnableToggle"@),
        number_need(v, "RestoreMouthBlendAmountSlider"@),
        number_need(v, "RestoreMouthSizeFactorSlider"@),
        number_need(v, "RestoreMouthFeatherBlendSlider"@),
        number_need(v, "RestoreXMouthRadiusFactorDecimalSlider"@),
        number_need(v, "RestoreYMouthRadiusFactorDecimalSlider"@),
        number_need(v, "RestoreXMouthOffsetSlider"@),
        number_need(v, "RestoreYMouthOffsetSlider"@),
        number_need(v, "RestoreEyesMouthBlurSlider"@),
    ]
}

pub(crate) fn mouth_checks(controls: &ControlState) -> (r: Vec<Result<(), ControlBridgeError>>)
    ensures
        faults(r@) == mouth_needs(controls@),
{
    let r: Vec<Result<(), ControlBridgeError>> = vec![
        check_toggle(controls, "RestoreMouthEnableToggle"),
        check_number(controls, "RestoreMouthBlendAmountSlider"),
        check_number(controls, "RestoreMouthSizeFactorSlider"),
        check_number(controls, "RestoreMouthFeatherBlendSlider"),
        check_number(controls, "RestoreXMouthRadiusFactorDecimalSlider"),
        check_number(controls, "RestoreYMouthRadiusFactorDecimalSlider"),
        check_number(controls, "RestoreXMouthOffsetSlider"),
        check_number(controls, "RestoreYMouthOffsetSlider"),
        check_number(controls, "RestoreEyesMouthBlurSlider"),
    ];
    proof {
        reveal(mouth_needs);
        assert(faults(r@) =~= mouth_needs(controls@));
    }
    r
}

/// The mouth of the target.
pub open spec fn mouth_of(v: Values) -> RestoreRegionParams {
    RestoreRegionParams {
        enabled: toggle_of(v, "RestoreMouthEnableToggle"@),
        blend: percent_of(v, "RestoreMouthBlendAmountSlider"@),
        size_factor: percent_of(v, "RestoreMouthSizeFactorSlider"@),
        feather: u32_of(v, "RestoreMouthFeatherBlendSlider"@),
        radius_x: single_of(v, "RestoreXMouthRadiusFactorDecimalSlider"@),
        radius_y: single_of(v, "RestoreYMouthRadiusFactorDecimalSlider"@),
        offset_x: i32_of(v, "RestoreXMouthOffsetSlider"@),
        offset_y: i32_of(v, "RestoreYMouthOffsetSlider"@),
        spacing_offset: 0,
    }
}

pub(crate) fn mouth_value(controls: &ControlState) -> (r: RestoreRegionParams)
    ensures
        r == mouth_of(controls@),
{
    RestoreRegionParams {
        enabled: toggle_value(controls, "RestoreMouthEnableToggle"),
        blend: percent_value(controls, "RestoreMouthBlendAmountSlider"),
        size_factor: percent_value(controls, "RestoreMouthSizeFactorSlider"),
        feather: u32_value(controls, "RestoreMouthFeatherBlendSlider"),
        radius_x: single_value(controls, "RestoreXMouthRadiusFactorDecimalSlider"),
        radius_y: single_value(controls, "RestoreYMouthRadiusFactorDecimalSlider"),
        offset_x: i32_value(controls, "RestoreXMouthOffsetSlider"),
        offset_y: i32_value(controls, "RestoreYMouthOffsetSlider"),
        spacing_offset: 0,
    }
}

/// What is read for automatic color transfer, in order.
#[verifier::opaque]
pub open spec fn auto_color_needs(v: Values) -> Seq<Option<BridgeFault>> {
    seq![
        toggle_need(v, "AutoColorEnableToggle"@),
        color_mode_need(v),
        number_need(v, "AutoColorBlendAmountSlider"@),
    ]
}

pub(crate) fn auto_color_checks(controls: &ControlState) -> (r: Vec<Result<(), ControlBridgeError>>)
    ensures
        faults(r@) == auto_color_needs(controls@),
{
    let r: Vec<Result<(), ControlBridgeError>> = vec![
        check_toggle(controls, "AutoColorEnableToggle"),
        check_color_mode(controls),
        check_number(controls, "AutoColorBlendAmountSlider"),
    ];
    proof {
        reveal(auto_color_needs);
        assert(faults(r@) =~= auto_color_needs(controls@));
    }
    r
}

/// Automatic color transfer.
pub open spec fn auto_color_of(v: Values) -> AutoColorParams {
    AutoColorParams {
        enabled: toggle_of(v, "AutoColorEnableToggle"@),
        mode: color_mode_of(v),
        blend: percent_of(v, "AutoColorBlendAmountSlider"@),
    }
}

pub(crate) fn auto_color_value(controls: &ControlState) -> (r: AutoColorParams)
    ensures
        r == auto_color_of(controls@),
{
    AutoColorParams {
        enabled: toggle_value(controls, "AutoColorEnableToggle"),
        mode: color_mode_value(controls),
        blend: percent_value(controls, "AutoColorBlendAmountSlider"),
    }
}

/// What is read for manual color adjustment, in order.
#[verifier::opaque]
pub open spec fn color_adjust_needs(v: Values) -> Seq<Option<BridgeFault>> {
    seq![
        toggle_need(v, "ColorEnableToggle"@),
        number_need(v, "ColorRedSlider"@),
        number_need(v, "ColorGreenSlider"@),
        number_need(v, "ColorBlueSlider"@),
        number_need(v, "ColorBrightnessDecimalSlider"@),
        number_need(v, "ColorContrastDecimalSlider"@),
        number_need(v, "ColorSaturationDecimalSlider"@),
        number_need(v, "ColorSharpnessDecimalSlider"@),
        number_need(v, "ColorHueDecimalSlider"@),
        number_need(v, "ColorGammaDecimalSlider"@),
        number_need(v, "ColorNoiseDecimalSlider"@),
    ]
}

pub(crate) fn color_adjust_checks(controls: &ControlState) -> (r: Vec<Result<(), ControlBridgeError>>)
    ensures
        faults(r@) == color_adjust_needs(controls@),
{
    let r: Vec<Result<(), ControlBridgeError>> = vec![
        check_toggle(controls, "ColorEnableToggle"),
        check_number(controls, "ColorRedSlider"),
        check_number(controls, "ColorGreenSlider"),
        check_number(controls, "ColorBlueSlider"),
        check_number(controls, "ColorBrightnessDecimalSlider"),
        check_number(controls, "ColorContrastDecimalSlider"),
        check_number(controls, "ColorSaturationDecimalSlider"),
        check_number(controls, "ColorSharpnessDecimalSlider"),
        check_number(controls, "ColorHueDecimalSlider"),
        check_number(controls, "ColorGammaDecimalSlider"),
        check_number(controls, "ColorNoiseDecimalSlider"),
    ];
    proof {
        reveal(color_adjust_needs);
        assert(faults(r@) =~= color_adjust_needs(controls@));
    }
    r
}

/// Manual color adjustment.
pub open spec fn color_adjust_of(v: Values) -> ColorAdjustParams {
    ColorAdjustParams {
        enabled: toggle_of(v, "ColorEnableToggle"@),
        red: single_of(v, "ColorRedSlider"@),
        green: single_of(v, "ColorGreenSlider"@),
        blue: single_of(v, "ColorBlueSlider"@),
        brightness: single_of(v, "ColorBrightnessDecimalSlider"@),
        contrast: single_of(v, "ColorContrastDecimalSlider"@),
        saturation: single_of(v, "ColorSaturationDecimalSlider"@),
        sharpness: single_of(v, "ColorSharpnessDecimalSlider"@),
        hue: single_of(v, "ColorHueDecimalSlider"@),
        gamma: single_of(v, "ColorGammaDecimalSlider"@),
        noise: single_of(v, "ColorNoiseDecimalSlider"@),
    }
}

pub(crate) fn color_adjust_value(controls: &ControlState) -> (r: ColorAdjustParams)
    ensures
        r == color_adjust_of(controls@),
{
    ColorAdjustParams {
        enabled: toggle_value(controls, "ColorEnableToggle"),
        red: single_value(controls, "ColorRedSlider"),
        green: single_value(controls, "ColorGreenSlider"),
        blue: single_value(controls, "ColorBlueSlider"),
        brightness: single_value(controls, "ColorBrightnessDecimalSlider"),
        contrast: single_value(controls, "ColorContrastDecimalSlider"),
        saturation: single_value(controls, "ColorSaturationDecimalSlider"),
        sharpness: single_value(controls, "ColorSharpnessDecimalSlider"),
        hue: single_value(controls, "ColorHueDecimalSlider"),
        gamma: single_value(controls, "ColorGammaDecimalSlider"),
        noise: single_value(controls, "ColorNoiseDecimalSlider"),
    }
}

/// What is read for the last touches, in order.
#[verifier::opaque]
pub open spec fn finish_needs(v: Values) -> Seq<Option<BridgeFault>> {
    seq![
        toggle_need(v, "JPEGCompressionEnableToggle"@),
        number_need(v, "JPEGCompressionAmountSlider"@),
        toggle_need(v, "FinalBlendAdjEnableToggle"@),
        number_need(v, "FinalBlendAmountSlider"@),
        number_need(v, "OverallMaskBlendAmountSlider"@),
    ]
}

pub(crate) fn finish_checks(controls: &ControlState) -> (r: Vec<Result<(), ControlBridgeError>>)
    ensures
        faults(r@) == finish_needs(controls@),
{
    let r: Vec<Result<(), ControlBridgeError>> = vec![
        check_toggle(controls, "JPEGCompressionEnableToggle"),
        check_number(controls, "JPEGCompressionAmountSlider"),
        check_toggle(controls, "FinalBlendAdjEnableToggle"),
        check_number(controls, "FinalBlendAmountSlider"),
        check_number(controls, "OverallMaskBlendAmountSlider"),
    ];
    proof {
        reveal(finish_needs);
        assert(faults(r@) =~= finish_needs(controls@));
    }
    r
}

/// The last touches.
pub open spec fn finish_of(v: Values) -> FinishParams {
    FinishParams {
        jpeg_compression_enabled: toggle_of(v, "JPEGCompressionEnableToggle"@),
        jpeg_quality: u8_of(v, "JPEGCompressionAmountSlider"@),
        final_blur_enabled: toggle_of(v, "FinalBlendAdjEnableToggle"@),
        final_blur: u32_of(v, "FinalBlendAmountSlider"@),
        overall_mask_blur: u32_of(v, "OverallMaskBlendAmountSlider"@),
    }
}

pub(crate) fn finish_value(controls: &ControlState) -> (r: FinishParams)
    ensures
        r == finish_of(controls@),
{
    FinishParams {
        jpeg_compression_enabled: toggle_value(controls, "JPEGCompressionEnableToggle"),
        jpeg_quality: u8_value(controls, "JPEGCompressionAmountSlider"),
        final_blur_enabled: toggle_value(controls, "FinalBlendAdjEnableToggle"),
        final_blur: u32_value(controls, "FinalBlendAmountSlider"),
        overall_mask_blur: u32_value(controls, "OverallMaskBlendAmountSlider"),
    }
}

/// What is read for provider, detector and playback, in order.
#[verifier::opaque]
pub open spec fn routing_needs(v: Values) -> Seq<Option<BridgeFault>> {
    seq![
        provider_need(v),
        detector_need(v),
        toggle_need(v, "VideoPlaybackCustomFpsToggle"@),
        playback_fps_need(v),
    ]
}

pub(crate) fn routing_checks(controls: &ControlState) -> (r: Vec<Result<(), ControlBridgeError>>)
    ensures
        faults(r@) == routing_needs(controls@),
{
    let r: Vec<Result<(), ControlBridgeError>> = vec![
        check_provider(controls),
        check_detector(controls),
        check_toggle(controls, "VideoPlaybackCustomFpsToggle"),
        check_playback_fps(controls),
    ];
    proof {
        reveal(routing_needs);
        assert(faults(r@) =~= routing_needs(controls@));
    }
    r
}

/// What is read for the session, in order.
#[verifier::opaque]
pub open spec fn session_needs(v: Values) -> Seq<Option<BridgeFault>> {
    seq![
        similarity_need(v),
        number_need(v, "nThreadsSlider"@),
        toggle_need(v, "AutoSwapToggle"@),
        toggle_need(v, "ShowLandmarksEnableToggle"@),
        toggle_need(v, "ShowAllDetectedFacesBBoxToggle"@),
        number_need(v, "MaxDFMModelsSlider"@),
        merge_choice_need(v),
        toggle_need(v, "TargetMediaFolderRecursiveToggle"@),
        toggle_need(v, "InputFacesFolderRecursiveToggle"@),
        toggle_need(v, "ScrollChangesValuesToggle"@),
    ]
}

pub(crate) fn session_checks(controls: &ControlState) -> (r: Vec<Result<(), ControlBridgeError>>)
    ensures
        faults(r@) == session_needs(controls@),
{
    let r: Vec<Result<(), ControlBridgeError>> = vec![
        check_similarity(controls),
        check_number(controls, "nThreadsSlider"),
        check_toggle(controls, "AutoSwapToggle"),
        check_toggle(controls, "ShowLandmarksEnableToggle"),
        check_toggle(controls, "ShowAllDetectedFacesBBoxToggle"),
        check_number(controls, "MaxDFMModelsSlider"),
        check_merge_choice(controls),
        check_toggle(controls, "TargetMediaFolderRecursiveToggle"),
        check_toggle(controls, "InputFacesFolderRecursiveToggle"),
        check_toggle(controls, "ScrollChangesValuesToggle"),
    ];
    proof {
        reveal(session_needs);
        assert(faults(r@) =~= session_needs(controls@));
    }
    r
}

} // verus!
