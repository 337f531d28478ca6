//! What each control sets: every setting is read from its own control, and from no other.

use vstd::prelude::*;

use crate::bridge::groups::{
    auto_color_needs, border_needs, color_adjust_needs, detection_needs, differencing_needs,
    enhancer_needs, eyes_needs, finish_needs, first_restorer_needs, geometry_needs, hair_needs,
    identity_needs, landmark_needs, lips_needs, mouth_needs, offsets_needs, parser_needs,
    routing_needs, second_restorer_needs, segmentation_needs, session_needs, swapper_needs,
};
use crate::bridge::read::ControlBridgeError;
use crate::bridge::read::{choice_of, number_of, toggle_of, Values};
use crate::bridge::request::{builds, compiles, dfm_digests, localizes, localizes_all};
use crate::bridge::request::{collected, routes, routes_target, routes_targets};
use crate::bridge::request::{EditorEngineRequest, FaceAssignmentInputs, FaceIdentityInput};
use crate::bridge::settings::{control_needs, settings_match, EditorRuntimeConfig};
use crate::config::{
    AutoColorMode, DetectorModel, EnhancerModel, ExecutionProvider, FaceSwapParams, LandmarkMode,
    RestorerAlignment, RestorerSize, SimilarityType, SwapDim, SwapperModel,
};
use crate::controls::ControlValue;
use crate::embeddings::EmbeddingMergeMethod;
use crate::engine::spec::EngineSpec;
use crate::faces::Faces;
use crate::faces::{FaceWorkspace, TargetFace, ARC_FACE_MODEL};
use crate::number::{clamped, Double, Single};
use crate::reports::{first_fault, first_fault_of_both, no_first_fault_means_none};

verus! {

/// `x` is the whole part of `d`, held between `low` and `high`.
pub open spec fn holds(x: int, d: Double, low: int, high: int) -> bool {
    &&& low <= x <= high
    &&& low <= d.whole <= high ==> x == d.whole
    &&& d.whole < low ==> x == low
    &&& d.whole > high ==> x == high
}

proof fn other_control_stays(v: Values, id: Seq<char>, value: ControlValue, other: Seq<char>)
    ensures
        id != other ==> {
            &&& toggle_of(v.insert(id, value), other) == toggle_of(v, other)
            &&& number_of(v.insert(id, value), other) == number_of(v, other)
            &&& choice_of(v.insert(id, value), other) == choice_of(v, other)
        },
{
}

proof fn every_group_is_read(v: Values)
    requires
        first_fault(control_needs(v)) is None,
    ensures
        first_fault(routing_needs(v)) is None,
        first_fault(detection_needs(v)) is None,
        first_fault(landmark_needs(v)) is None,
        first_fault(enhancer_needs(v)) is None,
        first_fault(first_restorer_needs(v)) is None,
        first_fault(second_restorer_needs(v)) is None,
        first_fault(swapper_needs(v)) is None,
        first_fault(geometry_needs(v)) is None,
        first_fault(offsets_needs(v)) is None,
        first_fault(identity_needs(v)) is None,
        first_fault(differencing_needs(v)) is None,
        first_fault(border_needs(v)) is None,
        first_fault(segmentation_needs(v)) is None,
        first_fault(parser_needs(v)) is None,
        first_fault(hair_needs(v)) is None,
        first_fault(lips_needs(v)) is None,
        first_fault(eyes_needs(v)) is None,
        first_fault(mouth_needs(v)) is None,
        first_fault(auto_color_needs(v)) is None,
        first_fault(color_adjust_needs(v)) is None,
        first_fault(finish_needs(v)) is None,
        first_fault(session_needs(v)) is None,
{
    let s0 = routing_needs(v);
    let s1 = s0 + detection_needs(v);
    first_fault_of_both(s0, detection_needs(v));
    let s2 = s1 + landmark_needs(v);
    first_fault_of_both(s1, landmark_needs(v));
    let s3 = s2 + enhancer_needs(v);
    first_fault_of_both(s2, enhancer_needs(v));
    let s4 = s3 + first_restorer_needs(v);
    first_fault_of_both(s3, first_restorer_needs(v));
    let s5 = s4 + second_restorer_needs(v);
    first_fault_of_both(s4, second_restorer_needs(v));
    let s6 = s5 + swapper_needs(v);
    first_fault_of_both(s5, swapper_needs(v));
    let s7 = s6 + geometry_needs(v);
    first_fault_of_both(s6, geometry_needs(v));
    let s8 = s7 + offsets_needs(v);
    first_fault_of_both(s7, offsets_needs(v));
    let s9 = s8 + identity_needs(v);
    first_fault_of_both(s8, identity_needs(v));
    let s10 = s9 + differencing_needs(v);
    first_fault_of_both(s9, differencing_needs(v));
    let s11 = s10 + border_needs(v);
    first_fault_of_both(s10, border_needs(v));
    let s12 = s11 + segmentation_needs(v);
    first_fault_of_both(s11, segmentation_needs(v));
    let s13 = s12 + parser_needs(v);
    first_fault_of_both(s12, parser_needs(v));
    let s14 = s13 + hair_needs(v);
    first_fault_of_both(s13, hair_needs(v));
    let s15 = s14 + lips_needs(v);
    first_fault_of_both(s14, lips_needs(v));
    let s16 = s15 + eyes_needs(v);
    first_fault_of_both(s15, eyes_needs(v));
    let s17 = s16 + mouth_needs(v);
    first_fault_of_both(s16, mouth_needs(v));
    let s18 = s17 + auto_color_needs(v);
    first_fault_of_both(s17, auto_color_needs(v));
    let s19 = s18 + color_adjust_needs(v);
    first_fault_of_both(s18, color_adjust_needs(v));
    let s20 = s19 + finish_needs(v);
    first_fault_of_both(s19, finish_needs(v));
    let s21 = s20 + session_needs(v);
    first_fault_of_both(s20, session_needs(v));
    assert(s21 == control_needs(v));
}

/// The detection of faces and landmarks, where the controls are accepted: each parameter is what
/// its own control holds.
pub proof fn detection_is_read(c: EditorRuntimeConfig, v: Values)
    requires
        first_fault(control_needs(v)) is None,
        settings_match(c, v),
    ensures
        v["DetectorScoreSlider"@] matches ControlValue::Slider(d) && c.params.detection.score == d.percent,
        v["MaxFacesToDetectSlider"@] matches ControlValue::Slider(d) && holds(c.params.detection.max_faces as int, d, 0, u64::MAX as int),
        v["AutoRotationToggle"@] == ControlValue::Toggle(c.params.detection.auto_rotation),
        v["ManualRotationEnableToggle"@] == ControlValue::Toggle(c.params.detection.manual_rotation_enabled),
        v["ManualRotationAngleSlider"@] matches ControlValue::Slider(d) && holds(c.params.detection.manual_rotation_angle as int, d, 0, 65535),
        v["LandmarkDetectToggle"@] == ControlValue::Toggle(c.params.landmark.enabled),
        v["LandmarkDetectModelSelection"@] matches ControlValue::Choice(t) && t@ == match c.params.landmark.mode {
            LandmarkMode::Points5 => "5"@,
            LandmarkMode::Points68 => "68"@,
            LandmarkMode::Points3d68 => "3d68"@,
            LandmarkMode::Points98 => "98"@,
            LandmarkMode::Points106 => "106"@,
            LandmarkMode::Points203 => "203"@,
            LandmarkMode::Points478 => "478"@,
        },
        v["LandmarkDetectScoreSlider"@] matches ControlValue::Slider(d) && c.params.landmark.score == d.percent,
        v["DetectFromPointsToggle"@] == ControlValue::Toggle(c.params.landmark.from_points),
{
    every_group_is_read(v);
    reveal(detection_needs);
    no_first_fault_means_none(detection_needs(v));
    assert(detection_needs(v)[0] is None);
    assert(detection_needs(v)[1] is None);
    assert(detection_needs(v)[2] is None);
    assert(detection_needs(v)[3] is None);
    assert(detection_needs(v)[4] is None);
    reveal(landmark_needs);
    no_first_fault_means_none(landmark_needs(v));
    assert(landmark_needs(v)[0] is None);
    assert(landmark_needs(v)[1] is None);
    assert(landmark_needs(v)[2] is None);
    assert(landmark_needs(v)[3] is None);
}

/// The enhancer and the two restorers, where the controls are accepted: each parameter is what its
/// own control holds.
pub proof fn enhancer_and_restorers_are_read(c: EditorRuntimeConfig, v: Values)
    requires
        first_fault(control_needs(v)) is None,
        settings_match(c, v),
    ensures
        v["FrameEnhancerEnableToggle"@] == ControlValue::Toggle(c.params.enhancer.enabled),
        v["FrameEnhancerBlendSlider"@] matches ControlValue::Slider(d) && c.params.enhancer.blend == d.percent,
        v["FrameEnhancerTypeSelection"@] matches ControlValue::Choice(t) && t@ == match c.params.enhancer.model {
            EnhancerModel::RealEsrganX2Plus => "RealEsrgan-x2-Plus"@,
            EnhancerModel::RealEsrganX4Plus => "RealEsrgan-x4-Plus"@,
            EnhancerModel::RealEsrGeneralX4V3 => "RealEsr-General-x4v3"@,
            EnhancerModel::BsrganX2 => "BSRGan-x2"@,
            EnhancerModel::BsrganX4 => "BSRGan-x4"@,
            EnhancerModel::UltraSharpX4 => "UltraSharp-x4"@,
            EnhancerModel::UltraMixX4 => "UltraMix-x4"@,
        },
        v["FaceRestorerEnableToggle"@] == ControlValue::Toggle(c.params.restoration.first.enabled),
        v["FaceRestorerTypeSelection"@] matches ControlValue::Choice(t) && t@ == match c.params.restoration.first.size {
            RestorerSize::Gpen256 => "GPEN-256"@,
            RestorerSize::Gpen512 => "GPEN-512"@,
            RestorerSize::Gpen1024 => Seq::empty(),
        },
        v["FaceRestorerDetTypeSelection"@] matches ControlValue::Choice(t) && t@ == match c.params.restoration.first.alignment {
            RestorerAlignment::Original => "Original"@,
            RestorerAlignment::Blend => "Blend"@,
            RestorerAlignment::Reference => "Reference"@,
        },
        v["FaceRestorerBlendSlider"@] matches ControlValue::Slider(d) && c.params.restoration.first.alpha == d.percent,
        v["FaceFidelityWeightDecimalSlider"@] matches ControlValue::Slider(d) && c.params.restoration.first.fidelity == d.single,
        v["FaceRestorerEnable2Toggle"@] == ControlValue::Toggle(c.params.restoration.second.enabled),
        v["FaceRestorerType2Selection"@] matches ControlValue::Choice(t) && t@ == match c.params.restoration.second.size {
            RestorerSize::Gpen256 => "GPEN-256"@,
            RestorerSize::Gpen512 => "GPEN-512"@,
            RestorerSize::Gpen1024 => Seq::empty(),
        },
        v["FaceRestorerDetType2Selection"@] matches ControlValue::Choice(t) && t@ == match c.params.restoration.second.alignment {
            RestorerAlignment::Original => "Original"@,
            RestorerAlignment::Blend => "Blend"@,
            RestorerAlignment::Reference => "Reference"@,
        },
        v["FaceRestorerBlend2Slider"@] matches ControlValue::Slider(d) && c.params.restoration.second.alpha == d.percent,
        v["FaceFidelityWeight2DecimalSlider"@] matches ControlValue::Slider(d) && c.params.restoration.second.fidelity == d.single,
{
    every_group_is_read(v);
    reveal(enhancer_needs);
    no_first_fault_means_none(enhancer_needs(v));
    assert(enhancer_needs(v)[0] is None);
    assert(enhancer_needs(v)[1] is None);
    assert(enhancer_needs(v)[2] is None);
    reveal(first_restorer_needs);
    no_first_fault_means_none(first_restorer_needs(v));
    assert(first_restorer_needs(v)[0] is None);
    assert(first_restorer_needs(v)[1] is None);
    assert(first_restorer_needs(v)[2] is None);
    assert(first_restorer_needs(v)[3] is None);
    assert(first_restorer_needs(v)[4] is None);
    reveal(second_restorer_needs);
    no_first_fault_means_none(second_restorer_needs(v));
    assert(second_restorer_needs(v)[0] is None);
    assert(second_restorer_needs(v)[1] is None);
    assert(second_restorer_needs(v)[2] is None);
    assert(second_restorer_needs(v)[3] is None);
    assert(second_restorer_needs(v)[4] is None);
}

/// The swapper and what it makes of an identity, where the controls are accepted: each parameter is
/// what its own control holds.
pub proof fn swapper_and_identity_are_read(c: EditorRuntimeConfig, v: Values)
    requires
        first_fault(control_needs(v)) is None,
        settings_match(c, v),
    ensures
        v["SwapModelSelection"@] matches ControlValue::Choice(t) && t@ == match c.params.swapper.model {
            SwapperModel::Inswapper128 => "Inswapper128"@,
            SwapperModel::Dfm => "DeepFaceLive (DFM)"@,
        },
        v["SwapperResSelection"@] matches ControlValue::Choice(t) && t@ == match c.params.dim {
            SwapDim::Dim1 => "128"@,
            SwapDim::Dim2 => "256"@,
            SwapDim::Dim3 => "384"@,
            SwapDim::Dim4 => "512"@,
        },
        c.params.swapper.model is Dfm ==> (v["DFMModelSelection"@] matches ControlValue::Choice(t)
            && c.params.swapper.dfm_model@ == t@ && t@.len() > 0),
        c.params.swapper.model is Inswapper128 ==> c.params.swapper.dfm_model@.len() == 0,
        v["DFMAmpMorphSlider"@] matches ControlValue::Slider(d) && c.params.swapper.dfm_morph == d.percent,
        v["DFMRCTColorToggle"@] == ControlValue::Toggle(c.params.swapper.dfm_rct),
        v["SimilarityThresholdSlider"@] matches ControlValue::Slider(d) && c.params.identity.similarity_threshold == d.percent,
        v["StrengthEnableToggle"@] == ControlValue::Toggle(true) ==> (v["StrengthAmountSlider"@]
            matches ControlValue::Slider(d) && c.params.identity.strength == d.percent),
        v["StrengthEnableToggle"@] == ControlValue::Toggle(false)
            ==> c.params.identity.strength.bits == 0x3f80_0000,
        v["StrengthEnableToggle"@] is Toggle,
        v["FaceLikenessEnableToggle"@] == ControlValue::Toggle(c.params.identity.likeness_enabled),
        v["FaceLikenessFactorDecimalSlider"@] matches ControlValue::Slider(d) && c.params.identity.likeness_factor == d.single,
        v["SimilarityTypeSelection"@] matches ControlValue::Choice(t) && t@ == match c.params.identity.similarity_type {
            SimilarityType::Opal => "Opal"@,
            SimilarityType::Pearl => "Pearl"@,
            SimilarityType::Optimal => "Optimal"@,
        },
{
    every_group_is_read(v);
    reveal(swapper_needs);
    no_first_fault_means_none(swapper_needs(v));
    assert(swapper_needs(v)[0] is None);
    assert(swapper_needs(v)[1] is None);
    assert(swapper_needs(v)[2] is None);
    assert(swapper_needs(v)[3] is None);
    assert(swapper_needs(v)[4] is None);
    reveal(identity_needs);
    no_first_fault_means_none(identity_needs(v));
    assert(identity_needs(v)[0] is None);
    assert(identity_needs(v)[1] is None);
    assert(identity_needs(v)[2] is None);
    assert(identity_needs(v)[3] is None);
    assert(identity_needs(v)[4] is None);
    reveal(session_needs);
    no_first_fault_means_none(session_needs(v));
    assert(session_needs(v)[0] is None);
    assert(session_needs(v)[1] is None);
    assert(session_needs(v)[2] is None);
    assert(session_needs(v)[3] is None);
    assert(session_needs(v)[4] is None);
    assert(session_needs(v)[5] is None);
    assert(session_needs(v)[6] is None);
    assert(session_needs(v)[7] is None);
    assert(session_needs(v)[8] is None);
    assert(session_needs(v)[9] is None);
}

/// Shifts and scales, where the controls are accepted: each parameter is what its own control
/// holds.
pub proof fn geometry_is_read(c: EditorRuntimeConfig, v: Values)
    requires
        first_fault(control_needs(v)) is None,
        settings_match(c, v),
    ensures
        v["FaceAdjEnableToggle"@] == ControlValue::Toggle(c.params.geometry.enabled),
        v["KpsXSlider"@] matches ControlValue::Slider(d) && c.params.geometry.keypoints_x == d.single,
        v["KpsYSlider"@] matches ControlValue::Slider(d) && c.params.geometry.keypoints_y == d.single,
        v["KpsScaleSlider"@] matches ControlValue::Slider(d) && c.params.geometry.keypoints_scale == d.single,
        v["FaceScaleAmountSlider"@] matches ControlValue::Slider(d) && c.params.geometry.face_scale == d.single,
        v["LandmarksPositionAdjEnableToggle"@] == ControlValue::Toggle(c.params.geometry.offsets.enabled),
        v["EyeLeftXAmountSlider"@] matches ControlValue::Slider(d) && c.params.geometry.offsets.left_eye.x == d.single,
        v["EyeLeftYAmountSlider"@] matches ControlValue::Slider(d) && c.params.geometry.offsets.left_eye.y == d.single,
        v["EyeRightXAmountSlider"@] matches ControlValue::Slider(d) && c.params.geometry.offsets.right_eye.x == d.single,
        v["EyeRightYAmountSlider"@] matches ControlValue::Slider(d) && c.params.geometry.offsets.right_eye.y == d.single,
        v["NoseXAmountSlider"@] matches ControlValue::Slider(d) && c.params.geometry.offsets.nose.x == d.single,
        v["NoseYAmountSlider"@] matches ControlValue::Slider(d) && c.params.geometry.offsets.nose.y == d.single,
        v["MouthLeftXAmountSlider"@] matches ControlValue::Slider(d) && c.params.geometry.offsets.mouth_left.x == d.single,
        v["MouthLeftYAmountSlider"@] matches ControlValue::Slider(d) && c.params.geometry.offsets.mouth_left.y == d.single,
        v["MouthRightXAmountSlider"@] matches ControlValue::Slider(d) && c.params.geometry.offsets.mouth_right.x == d.single,
        v["MouthRightYAmountSlider"@] matches ControlValue::Slider(d) && c.params.geometry.offsets.mouth_right.y == d.single,
{
    every_group_is_read(v);
    reveal(geometry_needs);
    no_first_fault_means_none(geometry_needs(v));
    assert(geometry_needs(v)[0] is None);
    assert(geometry_needs(v)[1] is None);
    assert(geometry_needs(v)[2] is None);
    assert(geometry_needs(v)[3] is None);
    assert(geometry_needs(v)[4] is None);
    reveal(offsets_needs);
    no_first_fault_means_none(offsets_needs(v));
    assert(offsets_needs(v)[0] is None);
    assert(offsets_needs(v)[1] is None);
    assert(offsets_needs(v)[2] is None);
    assert(offsets_needs(v)[3] is None);
    assert(offsets_needs(v)[4] is None);
    assert(offsets_needs(v)[5] is None);
    assert(offsets_needs(v)[6] is None);
    assert(offsets_needs(v)[7] is None);
    assert(offsets_needs(v)[8] is None);
    assert(offsets_needs(v)[9] is None);
    assert(offsets_needs(v)[10] is None);
}

/// The masks, where the controls are accepted: each parameter is what its own control holds.
pub proof fn masks_are_read(c: EditorRuntimeConfig, v: Values)
    requires
        first_fault(control_needs(v)) is None,
        settings_match(c, v),
    ensures
        v["DifferencingEnableToggle"@] == ControlValue::Toggle(c.params.masks.differencing.enabled),
        v["DifferencingAmountSlider"@] matches ControlValue::Slider(d) && holds(c.params.masks.differencing.amount as int, d, 0, u32::MAX as int),
        v["DifferencingBlendAmountSlider"@] matches ControlValue::Slider(d) && holds(c.params.masks.differencing.blur as int, d, 0, u32::MAX as int),
        v["BorderBottomSlider"@] matches ControlValue::Slider(d) && holds(c.params.masks.border.bottom as int, d, 0, u32::MAX as int),
        v["BorderLeftSlider"@] matches ControlValue::Slider(d) && holds(c.params.masks.border.left as int, d, 0, u32::MAX as int),
        v["BorderRightSlider"@] matches ControlValue::Slider(d) && holds(c.params.masks.border.right as int, d, 0, u32::MAX as int),
        v["BorderTopSlider"@] matches ControlValue::Slider(d) && holds(c.params.masks.border.top as int, d, 0, u32::MAX as int),
        v["BorderBlurSlider"@] matches ControlValue::Slider(d) && holds(c.params.masks.border.blur as int, d, 0, u32::MAX as int),
        v["OccluderEnableToggle"@] == ControlValue::Toggle(c.params.masks.segmentation.occluder_enabled),
        v["OccluderSizeSlider"@] matches ControlValue::Slider(d) && holds(c.params.masks.segmentation.occluder_size as int, d, i32::MIN as int, i32::MAX as int),
        v["DFLXSegEnableToggle"@] == ControlValue::Toggle(c.params.masks.segmentation.xseg_enabled),
        v["DFLXSegSizeSlider"@] matches ControlValue::Slider(d) && holds(c.params.masks.segmentation.xseg_size as int, d, i32::MIN as int, i32::MAX as int),
        v["OccluderXSegBlurSlider"@] matches ControlValue::Slider(d) && holds(c.params.masks.segmentation.blur as int, d, 0, u32::MAX as int),
        v["FaceParserEnableToggle"@] == ControlValue::Toggle(c.params.masks.faceparser.enabled),
        v["BackgroundParserSlider"@] matches ControlValue::Slider(d) && holds(c.params.masks.faceparser.background as int, d, i32::MIN as int, i32::MAX as int),
        v["FaceParserSlider"@] matches ControlValue::Slider(d) && holds(c.params.masks.faceparser.regions.face as int, d, 0, u32::MAX as int),
        v["LeftEyebrowParserSlider"@] matches ControlValue::Slider(d) && holds(c.params.masks.faceparser.regions.left_eyebrow as int, d, 0, u32::MAX as int),
        v["RightEyebrowParserSlider"@] matches ControlValue::Slider(d) && holds(c.params.masks.faceparser.regions.right_eyebrow as int, d, 0, u32::MAX as int),
        v["LeftEyeParserSlider"@] matches ControlValue::Slider(d) && holds(c.params.masks.faceparser.regions.left_eye as int, d, 0, u32::MAX as int),
        v["RightEyeParserSlider"@] matches ControlValue::Slider(d) && holds(c.params.masks.faceparser.regions.right_eye as int, d, 0, u32::MAX as int),
        v["EyeGlassesParserSlider"@] matches ControlValue::Slider(d) && holds(c.params.masks.faceparser.regions.eyeglasses as int, d, 0, u32::MAX as int),
        v["NoseParserSlider"@] matches ControlValue::Slider(d) && holds(c.params.masks.faceparser.regions.nose as int, d, 0, u32::MAX as int),
        v["MouthParserSlider"@] matches ControlValue::Slider(d) && holds(c.params.masks.faceparser.regions.mouth as int, d, 0, u32::MAX as int),
        v["UpperLipParserSlider"@] matches ControlValue::Slider(d) && holds(c.params.masks.faceparser.regions.upper_lip as int, d, 0, u32::MAX as int),
        v["LowerLipParserSlider"@] matches ControlValue::Slider(d) && holds(c.params.masks.faceparser.regions.lower_lip as int, d, 0, u32::MAX as int),
        v["NeckParserSlider"@] matches ControlValue::Slider(d) && holds(c.params.masks.faceparser.regions.neck as int, d, 0, u32::MAX as int),
        v["HairParserSlider"@] matches ControlValue::Slider(d) && holds(c.params.masks.faceparser.regions.hair as int, d, 0, u32::MAX as int),
        v["BackgroundBlurParserSlider"@] matches ControlValue::Slider(d) && holds(c.params.masks.faceparser.background_blur as int, d, 0, u32::MAX as int),
        v["FaceBlurParserSlider"@] matches ControlValue::Slider(d) && holds(c.params.masks.faceparser.face_blur as int, d, 0, u32::MAX as int),
{
    every_group_is_read(v);
    reveal(differencing_needs);
    no_first_fault_means_none(differencing_needs(v));
    assert(differencing_needs(v)[0] is None);
    assert(differencing_needs(v)[1] is None);
    assert(differencing_needs(v)[2] is None);
    reveal(border_needs);
    no_first_fault_means_none(border_needs(v));
    assert(border_needs(v)[0] is None);
    assert(border_needs(v)[1] is None);
    assert(border_needs(v)[2] is None);
    assert(border_needs(v)[3] is None);
    assert(border_needs(v)[4] is None);
    reveal(segmentation_needs);
    no_first_fault_means_none(segmentation_needs(v));
    assert(segmentation_needs(v)[0] is None);
    assert(segmentation_needs(v)[1] is None);
    assert(segmentation_needs(v)[2] is None);
    assert(segmentation_needs(v)[3] is None);
    assert(segmentation_needs(v)[4] is None);
    reveal(parser_needs);
    no_first_fault_means_none(parser_needs(v));
    assert(parser_needs(v)[0] is None);
    assert(parser_needs(v)[1] is None);
    assert(parser_needs(v)[2] is None);
    assert(parser_needs(v)[3] is None);
    assert(parser_needs(v)[4] is None);
    assert(parser_needs(v)[5] is None);
    assert(parser_needs(v)[6] is None);
    assert(parser_needs(v)[7] is None);
    assert(parser_needs(v)[8] is None);
    assert(parser_needs(v)[9] is None);
    assert(parser_needs(v)[10] is None);
    assert(parser_needs(v)[11] is None);
    assert(parser_needs(v)[12] is None);
    assert(parser_needs(v)[13] is None);
    assert(parser_needs(v)[14] is None);
    assert(parser_needs(v)[15] is None);
}

/// The tints of hair and lips, where the controls are accepted: each parameter is what its own
/// control holds.
pub proof fn makeup_is_read(c: EditorRuntimeConfig, v: Values)
    requires
        first_fault(control_needs(v)) is None,
        settings_match(c, v),
    ensures
        v["FaceParserHairMakeupEnableToggle"@] == ControlValue::Toggle(c.params.masks.faceparser.hair_makeup.enabled),
        v["FaceParserHairMakeupRedSlider"@] matches ControlValue::Slider(d) && c.params.masks.faceparser.hair_makeup.red == d.single,
        v["FaceParserHairMakeupGreenSlider"@] matches ControlValue::Slider(d) && c.params.masks.faceparser.hair_makeup.green == d.single,
        v["FaceParserHairMakeupBlueSlider"@] matches ControlValue::Slider(d) && c.params.masks.faceparser.hair_makeup.blue == d.single,
        v["FaceParserHairMakeupBlendAmountDecimalSlider"@] matches ControlValue::Slider(d) && c.params.masks.faceparser.hair_makeup.blend == d.single,
        v["FaceParserLipsMakeupEnableToggle"@] == ControlValue::Toggle(c.params.masks.faceparser.lips_makeup.enabled),
        v["FaceParserLipsMakeupRedSlider"@] matches ControlValue::Slider(d) && c.params.masks.faceparser.lips_makeup.red == d.single,
        v["FaceParserLipsMakeupGreenSlider"@] matches ControlValue::Slider(d) && c.params.masks.faceparser.lips_makeup.green == d.single,
        v["FaceParserLipsMakeupBlueSlider"@] matches ControlValue::Slider(d) && c.params.masks.faceparser.lips_makeup.blue == d.single,
        v["FaceParserLipsMakeupBlendAmountDecimalSlider"@] matches ControlValue::Slider(d) && c.params.masks.faceparser.lips_makeup.blend == d.single,
{
    every_group_is_read(v);
    reveal(hair_needs);
    no_first_fault_means_none(hair_needs(v));
    assert(hair_needs(v)[0] is None);
    assert(hair_needs(v)[1] is None);
    assert(hair_needs(v)[2] is None);
    assert(hair_needs(v)[3] is None);
    assert(hair_needs(v)[4] is None);
    reveal(lips_needs);
    no_first_fault_means_none(lips_needs(v));
    assert(lips_needs(v)[0] is None);
    assert(lips_needs(v)[1] is None);
    assert(lips_needs(v)[2] is None);
    assert(lips_needs(v)[3] is None);
    assert(lips_needs(v)[4] is None);
}

/// The eyes and the mouth that are restored, where the controls are accepted: each parameter is
/// what its own control holds.
pub proof fn restored_regions_are_read(c: EditorRuntimeConfig, v: Values)
    requires
        first_fault(control_needs(v)) is None,
        settings_match(c, v),
    ensures
        v["RestoreEyesEnableToggle"@] == ControlValue::Toggle(c.params.masks.restore_eyes.enabled),
        v["RestoreEyesBlendAmountSlider"@] matches ControlValue::Slider(d) && c.params.masks.restore_eyes.blend == d.percent,
        v["RestoreEyesSizeFactorDecimalSlider"@] matches ControlValue::Slider(d) && c.params.masks.restore_eyes.size_factor == d.single,
        v["RestoreEyesFeatherBlendSlider"@] matches ControlValue::Slider(d) && holds(c.params.masks.restore_eyes.feather as int, d, 0, u32::MAX as int),
        v["RestoreXEyesRadiusFactorDecimalSlider"@] matches ControlValue::Slider(d) && c.params.masks.restore_eyes.radius_x == d.single,
        v["RestoreYEyesRadiusFactorDecimalSlider"@] matches ControlValue::Slider(d) && c.params.masks.restore_eyes.radius_y == d.single,
        v["RestoreXEyesOffsetSlider"@] matches ControlValue::Slider(d) && holds(c.params.masks.restore_eyes.offset_x as int, d, i32::MIN as int, i32::MAX as int),
        v["RestoreYEyesOffsetSlider"@] matches ControlValue::Slider(d) && holds(c.params.masks.restore_eyes.offset_y as int, d, i32::MIN as int, i32::MAX as int),
        v["RestoreEyesSpacingOffsetSlider"@] matches ControlValue::Slider(d) && holds(c.params.masks.restore_eyes.spacing_offset as int, d, i32::MIN as int, i32::MAX as int),
        v["RestoreMouthEnableToggle"@] == ControlValue::Toggle(c.params.masks.restore_mouth.enabled),
        v["RestoreMouthBlendAmountSlider"@] matches ControlValue::Slider(d) && c.params.masks.restore_mouth.blend == d.percent,
        v["RestoreMouthSizeFactorSlider"@] matches ControlValue::Slider(d) && c.params.masks.restore_mouth.size_factor == d.percent,
        v["RestoreMouthFeatherBlendSlider"@] matches ControlValue::Slider(d) && holds(c.params.masks.restore_mouth.feather as int, d, 0, u32::MAX as int),
        v["RestoreXMouthRadiusFactorDecimalSlider"@] matches ControlValue::Slider(d) && c.params.masks.restore_mouth.radius_x == d.single,
        v["RestoreYMouthRadiusFactorDecimalSlider"@] matches ControlValue::Slider(d) && c.params.masks.restore_mouth.radius_y == d.single,
        v["RestoreXMouthOffsetSlider"@] matches ControlValue::Slider(d) && holds(c.params.masks.restore_mouth.offset_x as int, d, i32::MIN as int, i32::MAX as int),
        v["RestoreYMouthOffsetSlider"@] matches ControlValue::Slider(d) && holds(c.params.masks.restore_mouth.offset_y as int, d, i32::MIN as int, i32::MAX as int),
        v["RestoreEyesMouthBlurSlider"@] matches ControlValue::Slider(d) && holds(c.params.masks.restore_blur as int, d, 0, u32::MAX as int),
{
    every_group_is_read(v);
    reveal(eyes_needs);
    no_first_fault_means_none(eyes_needs(v));
    assert(eyes_needs(v)[0] is None);
    assert(eyes_needs(v)[1] is None);
    assert(eyes_needs(v)[2] is None);
    assert(eyes_needs(v)[3] is None);
    assert(eyes_needs(v)[4] is None);
    assert(eyes_needs(v)[5] is None);
    assert(eyes_needs(v)[6] is None);
    assert(eyes_needs(v)[7] is None);
    assert(eyes_needs(v)[8] is None);
    reveal(mouth_needs);
    no_first_fault_means_none(mouth_needs(v));
    assert(mouth_needs(v)[0] is None);
    assert(mouth_needs(v)[1] is None);
    assert(mouth_needs(v)[2] is None);
    assert(mouth_needs(v)[3] is None);
    assert(mouth_needs(v)[4] is None);
    assert(mouth_needs(v)[5] is None);
    assert(mouth_needs(v)[6] is None);
    assert(mouth_needs(v)[7] is None);
    assert(mouth_needs(v)[8] is None);
}

/// Color, where the controls are accepted: each parameter is what its own control holds.
pub proof fn color_is_read(c: EditorRuntimeConfig, v: Values)
    requires
        first_fault(control_needs(v)) is None,
        settings_match(c, v),
    ensures
        v["AutoColorEnableToggle"@] == ControlValue::Toggle(c.params.color.auto.enabled),
        v["AutoColorTransferTypeSelection"@] matches ControlValue::Choice(t) && t@ == match c.params.color.auto.mode {
            AutoColorMode::Histogram => "Test"@,
            AutoColorMode::HistogramMasked => "Test_Mask"@,
            AutoColorMode::Dfl => "DFL_Test"@,
            AutoColorMode::DflMasked => "DFL_Orig"@,
        },
        v["AutoColorBlendAmountSlider"@] matches ControlValue::Slider(d) && c.params.color.auto.blend == d.percent,
        v["ColorEnableToggle"@] == ControlValue::Toggle(c.params.color.adjust.enabled),
        v["ColorRedSlider"@] matches ControlValue::Slider(d) && c.params.color.adjust.red == d.single,
        v["ColorGreenSlider"@] matches ControlValue::Slider(d) && c.params.color.adjust.green == d.single,
        v["ColorBlueSlider"@] matches ControlValue::Slider(d) && c.params.color.adjust.blue == d.single,
        v["ColorBrightnessDecimalSlider"@] matches ControlValue::Slider(d) && c.params.color.adjust.brightness == d.single,
        v["ColorContrastDecimalSlider"@] matches ControlValue::Slider(d) && c.params.color.adjust.contrast == d.single,
        v["ColorSaturationDecimalSlider"@] matches ControlValue::Slider(d) && c.params.color.adjust.saturation == d.single,
        v["ColorSharpnessDecimalSlider"@] matches ControlValue::Slider(d) && c.params.color.adjust.sharpness == d.single,
        v["ColorHueDecimalSlider"@] matches ControlValue::Slider(d) && c.params.color.adjust.hue == d.single,
        v["ColorGammaDecimalSlider"@] matches ControlValue::Slider(d) && c.params.color.adjust.gamma == d.single,
        v["ColorNoiseDecimalSlider"@] matches ControlValue::Slider(d) && c.params.color.adjust.noise == d.single,
{
    every_group_is_read(v);
    reveal(auto_color_needs);
    no_first_fault_means_none(auto_color_needs(v));
    assert(auto_color_needs(v)[0] is None);
    assert(auto_color_needs(v)[1] is None);
    assert(auto_color_needs(v)[2] is None);
    reveal(color_adjust_needs);
    no_first_fault_means_none(color_adjust_needs(v));
    assert(color_adjust_needs(v)[0] is None);
    assert(color_adjust_needs(v)[1] is None);
    assert(color_adjust_needs(v)[2] is None);
    assert(color_adjust_needs(v)[3] is None);
    assert(color_adjust_needs(v)[4] is None);
    assert(color_adjust_needs(v)[5] is None);
    assert(color_adjust_needs(v)[6] is None);
    assert(color_adjust_needs(v)[7] is None);
    assert(color_adjust_needs(v)[8] is None);
    assert(color_adjust_needs(v)[9] is None);
    assert(color_adjust_needs(v)[10] is None);
}

/// The last touches, where the controls are accepted: each parameter is what its own control holds.
pub proof fn finish_is_read(c: EditorRuntimeConfig, v: Values)
    requires
        first_fault(control_needs(v)) is None,
        settings_match(c, v),
    ensures
        v["JPEGCompressionEnableToggle"@] == ControlValue::Toggle(c.params.finish.jpeg_compression_enabled),
        v["JPEGCompressionAmountSlider"@] matches ControlValue::Slider(d) && holds(c.params.finish.jpeg_quality as int, d, 0, 255),
        v["FinalBlendAdjEnableToggle"@] == ControlValue::Toggle(c.params.finish.final_blur_enabled),
        v["FinalBlendAmountSlider"@] matches ControlValue::Slider(d) && holds(c.params.finish.final_blur as int, d, 0, u32::MAX as int),
        v["OverallMaskBlendAmountSlider"@] matches ControlValue::Slider(d) && holds(c.params.finish.overall_mask_blur as int, d, 0, u32::MAX as int),
{
    every_group_is_read(v);
    reveal(finish_needs);
    no_first_fault_means_none(finish_needs(v));
    assert(finish_needs(v)[0] is None);
    assert(finish_needs(v)[1] is None);
    assert(finish_needs(v)[2] is None);
    assert(finish_needs(v)[3] is None);
    assert(finish_needs(v)[4] is None);
}

/// The settings of the session itself, where the controls are accepted: each parameter is what its
/// own control holds.
pub proof fn session_is_read(c: EditorRuntimeConfig, v: Values)
    requires
        first_fault(control_needs(v)) is None,
        settings_match(c, v),
    ensures
        v["ProvidersPrioritySelection"@] matches ControlValue::Choice(t) && t@ == match c.provider {
            ExecutionProvider::Cuda => "CUDA"@,
            ExecutionProvider::TensorRT => "TensorRT"@,
        },
        v["DetectorModelSelection"@] matches ControlValue::Choice(t) && t@ == match c.detector {
            DetectorModel::YoloFace8n => "Yolov8"@,
            DetectorModel::RetinaFace => "RetinaFace"@,
            DetectorModel::Scrfd2_5g => "SCRFD"@,
        },
        v["nThreadsSlider"@] matches ControlValue::Slider(d) && holds(c.worker_threads as int, d, 0, u64::MAX as int),
        v["VideoPlaybackCustomFpsToggle"@] == ControlValue::Toggle(c.playback_fps is Some),
        c.playback_fps matches Some(rate) ==> (v["VideoPlaybackCustomFpsSlider"@]
            matches ControlValue::Slider(d) && rate == d.single),
        v["AutoSwapToggle"@] == ControlValue::Toggle(c.auto_swap),
        v["ShowLandmarksEnableToggle"@] == ControlValue::Toggle(c.show_landmarks),
        v["ShowAllDetectedFacesBBoxToggle"@] == ControlValue::Toggle(c.show_bounding_boxes),
        v["MaxDFMModelsSlider"@] matches ControlValue::Slider(d) && holds(c.max_dfm_models as int, d, 0, u64::MAX as int),
        v["SimilarityTypeSelection"@] matches ControlValue::Choice(t) && t@ == match c.similarity_type {
            SimilarityType::Opal => "Opal"@,
            SimilarityType::Pearl => "Pearl"@,
            SimilarityType::Optimal => "Optimal"@,
        },
        v["EmbMergeMethodSelection"@] matches ControlValue::Choice(t) && c.embedding_merge_method@ == t@,
        v["TargetMediaFolderRecursiveToggle"@] == ControlValue::Toggle(c.target_media_recursive),
        v["InputFacesFolderRecursiveToggle"@] == ControlValue::Toggle(c.source_media_recursive),
        v["ScrollChangesValuesToggle"@] == ControlValue::Toggle(c.scroll_changes_values),
{
    every_group_is_read(v);
    reveal(routing_needs);
    no_first_fault_means_none(routing_needs(v));
    assert(routing_needs(v)[0] is None);
    assert(routing_needs(v)[1] is None);
    assert(routing_needs(v)[2] is None);
    assert(routing_needs(v)[3] is None);
    reveal(session_needs);
    no_first_fault_means_none(session_needs(v));
    assert(session_needs(v)[0] is None);
    assert(session_needs(v)[1] is None);
    assert(session_needs(v)[2] is None);
    assert(session_needs(v)[3] is None);
    assert(session_needs(v)[4] is None);
    assert(session_needs(v)[5] is None);
    assert(session_needs(v)[6] is None);
    assert(session_needs(v)[7] is None);
    assert(session_needs(v)[8] is None);
    assert(session_needs(v)[9] is None);
}

/// The detection of faces and landmarks hangs on no control but its own: where one other control
/// changes, it stays as it is.
#[verifier::spinoff_prover]
pub proof fn detection_from_nowhere_else(
    c: EditorRuntimeConfig,
    d: EditorRuntimeConfig,
    v: Values,
    id: Seq<char>,
    value: ControlValue,
)
    requires
        settings_match(c, v),
        settings_match(d, v.insert(id, value)),
    ensures
        id != "DetectorScoreSlider"@ ==> d.params.detection.score == c.params.detection.score,
        id != "MaxFacesToDetectSlider"@ ==> d.params.detection.max_faces == c.params.detection.max_faces,
        id != "AutoRotationToggle"@ ==> d.params.detection.auto_rotation == c.params.detection.auto_rotation,
        id != "ManualRotationEnableToggle"@ ==> d.params.detection.manual_rotation_enabled == c.params.detection.manual_rotation_enabled,
        id != "ManualRotationAngleSlider"@ ==> d.params.detection.manual_rotation_angle == c.params.detection.manual_rotation_angle,
        id != "LandmarkDetectToggle"@ ==> d.params.landmark.enabled == c.params.landmark.enabled,
        id != "LandmarkDetectModelSelection"@ ==> d.params.landmark.mode == c.params.landmark.mode,
        id != "LandmarkDetectScoreSlider"@ ==> d.params.landmark.score == c.params.landmark.score,
        id != "DetectFromPointsToggle"@ ==> d.params.landmark.from_points == c.params.landmark.from_points,
{
    other_control_stays(v, id, value, "DetectorScoreSlider"@);
    other_control_stays(v, id, value, "MaxFacesToDetectSlider"@);
    other_control_stays(v, id, value, "AutoRotationToggle"@);
    other_control_stays(v, id, value, "ManualRotationEnableToggle"@);
    other_control_stays(v, id, value, "ManualRotationAngleSlider"@);
    other_control_stays(v, id, value, "LandmarkDetectToggle"@);
    other_control_stays(v, id, value, "LandmarkDetectModelSelection"@);
    other_control_stays(v, id, value, "LandmarkDetectScoreSlider"@);
    other_control_stays(v, id, value, "DetectFromPointsToggle"@);
}

/// The enhancer and the two restorers hang on no control but their own: where one other control
/// changes, they stay as they are.
#[verifier::spinoff_prover]
pub proof fn enhancer_and_restorers_from_nowhere_else(
    c: EditorRuntimeConfig,
    d: EditorRuntimeConfig,
    v: Values,
    id: Seq<char>,
    value: ControlValue,
)
    requires
        settings_match(c, v),
        settings_match(d, v.insert(id, value)),
    ensures
        id != "FrameEnhancerEnableToggle"@ ==> d.params.enhancer.enabled == c.params.enhancer.enabled,
        id != "FrameEnhancerBlendSlider"@ ==> d.params.enhancer.blend == c.params.enhancer.blend,
        id != "FrameEnhancerTypeSelection"@ ==> d.params.enhancer.model == c.params.enhancer.model,
        id != "FaceRestorerEnableToggle"@ ==> d.params.restoration.first.enabled == c.params.restoration.first.enabled,
        id != "FaceRestorerTypeSelection"@ ==> d.params.restoration.first.size == c.params.restoration.first.size,
        id != "FaceRestorerDetTypeSelection"@ ==> d.params.restoration.first.alignment == c.params.restoration.first.alignment,
        id != "FaceRestorerBlendSlider"@ ==> d.params.restoration.first.alpha == c.params.restoration.first.alpha,
        id != "FaceFidelityWeightDecimalSlider"@ ==> d.params.restoration.first.fidelity == c.params.restoration.first.fidelity,
        id != "FaceRestorerEnable2Toggle"@ ==> d.params.restoration.second.enabled == c.params.restoration.second.enabled,
        id != "FaceRestorerType2Selection"@ ==> d.params.restoration.second.size == c.params.restoration.second.size,
        id != "FaceRestorerDetType2Selection"@ ==> d.params.restoration.second.alignment == c.params.restoration.second.alignment,
        id != "FaceRestorerBlend2Slider"@ ==> d.params.restoration.second.alpha == c.params.restoration.second.alpha,
        id != "FaceFidelityWeight2DecimalSlider"@ ==> d.params.restoration.second.fidelity == c.params.restoration.second.fidelity,
        d.params.restoration.mode == c.params.restoration.mode,
{
    other_control_stays(v, id, value, "FrameEnhancerEnableToggle"@);
    other_control_stays(v, id, value, "FrameEnhancerBlendSlider"@);
    other_control_stays(v, id, value, "FrameEnhancerTypeSelection"@);
    other_control_stays(v, id, value, "FaceRestorerEnableToggle"@);
    other_control_stays(v, id, value, "FaceRestorerTypeSelection"@);
    other_control_stays(v, id, value, "FaceRestorerDetTypeSelection"@);
    other_control_stays(v, id, value, "FaceRestorerBlendSlider"@);
    other_control_stays(v, id, value, "FaceFidelityWeightDecimalSlider"@);
    other_control_stays(v, id, value, "FaceRestorerEnable2Toggle"@);
    other_control_stays(v, id, value, "FaceRestorerType2Selection"@);
    other_control_stays(v, id, value, "FaceRestorerDetType2Selection"@);
    other_control_stays(v, id, value, "FaceRestorerBlend2Slider"@);
    other_control_stays(v, id, value, "FaceFidelityWeight2DecimalSlider"@);
}

/// The swapper and what it makes of an identity hang on no control but their own: where one other
/// control changes, they stay as they are.
#[verifier::spinoff_prover]
pub proof fn swapper_and_identity_from_nowhere_else(
    c: EditorRuntimeConfig,
    d: EditorRuntimeConfig,
    v: Values,
    id: Seq<char>,
    value: ControlValue,
)
    requires
        settings_match(c, v),
        settings_match(d, v.insert(id, value)),
    ensures
        id != "SwapModelSelection"@ ==> d.params.swapper.model == c.params.swapper.model,
        id != "SwapperResSelection"@ ==> d.params.dim == c.params.dim,
        id != "SwapModelSelection"@ && id != "DFMModelSelection"@ ==> d.params.swapper.dfm_model@ == c.params.swapper.dfm_model@,
        id != "DFMAmpMorphSlider"@ ==> d.params.swapper.dfm_morph == c.params.swapper.dfm_morph,
        id != "DFMRCTColorToggle"@ ==> d.params.swapper.dfm_rct == c.params.swapper.dfm_rct,
        id != "SimilarityThresholdSlider"@ ==> d.params.identity.similarity_threshold == c.params.identity.similarity_threshold,
        id != "StrengthEnableToggle"@ && id != "StrengthAmountSlider"@ ==> d.params.identity.strength == c.params.identity.strength,
        id != "FaceLikenessEnableToggle"@ ==> d.params.identity.likeness_enabled == c.params.identity.likeness_enabled,
        id != "FaceLikenessFactorDecimalSlider"@ ==> d.params.identity.likeness_factor == c.params.identity.likeness_factor,
        id != "SimilarityTypeSelection"@ ==> d.params.identity.similarity_type == c.params.identity.similarity_type,
        d.params.enabled == c.params.enabled,
{
    other_control_stays(v, id, value, "SwapModelSelection"@);
    other_control_stays(v, id, value, "SwapperResSelection"@);
    other_control_stays(v, id, value, "SwapModelSelection"@);
    other_control_stays(v, id, value, "DFMModelSelection"@);
    other_control_stays(v, id, value, "DFMAmpMorphSlider"@);
    other_control_stays(v, id, value, "DFMRCTColorToggle"@);
    other_control_stays(v, id, value, "SimilarityThresholdSlider"@);
    other_control_stays(v, id, value, "StrengthEnableToggle"@);
    other_control_stays(v, id, value, "StrengthAmountSlider"@);
    other_control_stays(v, id, value, "FaceLikenessEnableToggle"@);
    other_control_stays(v, id, value, "FaceLikenessFactorDecimalSlider"@);
    other_control_stays(v, id, value, "SimilarityTypeSelection"@);
}

/// Shifts and scales hang on no control but their own: where one other control changes, they stay
/// as they are.
#[verifier::spinoff_prover]
pub proof fn geometry_from_nowhere_else(
    c: EditorRuntimeConfig,
    d: EditorRuntimeConfig,
    v: Values,
    id: Seq<char>,
    value: ControlValue,
)
    requires
        settings_match(c, v),
        settings_match(d, v.insert(id, value)),
    ensures
        id != "FaceAdjEnableToggle"@ ==> d.params.geometry.enabled == c.params.geometry.enabled,
        id != "KpsXSlider"@ ==> d.params.geometry.keypoints_x == c.params.geometry.keypoints_x,
        id != "KpsYSlider"@ ==> d.params.geometry.keypoints_y == c.params.geometry.keypoints_y,
        id != "KpsScaleSlider"@ ==> d.params.geometry.keypoints_scale == c.params.geometry.keypoints_scale,
        id != "FaceScaleAmountSlider"@ ==> d.params.geometry.face_scale == c.params.geometry.face_scale,
        id != "LandmarksPositionAdjEnableToggle"@ ==> d.params.geometry.offsets.enabled == c.params.geometry.offsets.enabled,
        id != "EyeLeftXAmountSlider"@ ==> d.params.geometry.offsets.left_eye.x == c.params.geometry.offsets.left_eye.x,
        id != "EyeLeftYAmountSlider"@ ==> d.params.geometry.offsets.left_eye.y == c.params.geometry.offsets.left_eye.y,
        id != "EyeRightXAmountSlider"@ ==> d.params.geometry.offsets.right_eye.x == c.params.geometry.offsets.right_eye.x,
        id != "EyeRightYAmountSlider"@ ==> d.params.geometry.offsets.right_eye.y == c.params.geometry.offsets.right_eye.y,
        id != "NoseXAmountSlider"@ ==> d.params.geometry.offsets.nose.x == c.params.geometry.offsets.nose.x,
        id != "NoseYAmountSlider"@ ==> d.params.geometry.offsets.nose.y == c.params.geometry.offsets.nose.y,
        id != "MouthLeftXAmountSlider"@ ==> d.params.geometry.offsets.mouth_left.x == c.params.geometry.offsets.mouth_left.x,
        id != "MouthLeftYAmountSlider"@ ==> d.params.geometry.offsets.mouth_left.y == c.params.geometry.offsets.mouth_left.y,
        id != "MouthRightXAmountSlider"@ ==> d.params.geometry.offsets.mouth_right.x == c.params.geometry.offsets.mouth_right.x,
        id != "MouthRightYAmountSlider"@ ==> d.params.geometry.offsets.mouth_right.y == c.params.geometry.offsets.mouth_right.y,
{
    other_control_stays(v, id, value, "FaceAdjEnableToggle"@);
    other_control_stays(v, id, value, "KpsXSlider"@);
    other_control_stays(v, id, value, "KpsYSlider"@);
    other_control_stays(v, id, value, "KpsScaleSlider"@);
    other_control_stays(v, id, value, "FaceScaleAmountSlider"@);
    other_control_stays(v, id, value, "LandmarksPositionAdjEnableToggle"@);
    other_control_stays(v, id, value, "EyeLeftXAmountSlider"@);
    other_control_stays(v, id, value, "EyeLeftYAmountSlider"@);
    other_control_stays(v, id, value, "EyeRightXAmountSlider"@);
    other_control_stays(v, id, value, "EyeRightYAmountSlider"@);
    other_control_stays(v, id, value, "NoseXAmountSlider"@);
    other_control_stays(v, id, value, "NoseYAmountSlider"@);
    other_control_stays(v, id, value, "MouthLeftXAmountSlider"@);
    other_control_stays(v, id, value, "MouthLeftYAmountSlider"@);
    other_control_stays(v, id, value, "MouthRightXAmountSlider"@);
    other_control_stays(v, id, value, "MouthRightYAmountSlider"@);
}

/// The masks hang on no control but their own: where one other control changes, they stay as they
/// are.
#[verifier::spinoff_prover]
pub proof fn masks_from_nowhere_else(
    c: EditorRuntimeConfig,
    d: EditorRuntimeConfig,
    v: Values,
    id: Seq<char>,
    value: ControlValue,
)
    requires
        settings_match(c, v),
        settings_match(d, v.insert(id, value)),
    ensures
        id != "DifferencingEnableToggle"@ ==> d.params.masks.differencing.enabled == c.params.masks.differencing.enabled,
        id != "DifferencingAmountSlider"@ ==> d.params.masks.differencing.amount == c.params.masks.differencing.amount,
        id != "DifferencingBlendAmountSlider"@ ==> d.params.masks.differencing.blur == c.params.masks.differencing.blur,
        id != "BorderBottomSlider"@ ==> d.params.masks.border.bottom == c.params.masks.border.bottom,
        id != "BorderLeftSlider"@ ==> d.params.masks.border.left == c.params.masks.border.left,
        id != "BorderRightSlider"@ ==> d.params.masks.border.right == c.params.masks.border.right,
        id != "BorderTopSlider"@ ==> d.params.masks.border.top == c.params.masks.border.top,
        id != "BorderBlurSlider"@ ==> d.params.masks.border.blur == c.params.masks.border.blur,
        id != "OccluderEnableToggle"@ ==> d.params.masks.segmentation.occluder_enabled == c.params.masks.segmentation.occluder_enabled,
        id != "OccluderSizeSlider"@ ==> d.params.masks.segmentation.occluder_size == c.params.masks.segmentation.occluder_size,
        id != "DFLXSegEnableToggle"@ ==> d.params.masks.segmentation.xseg_enabled == c.params.masks.segmentation.xseg_enabled,
        id != "DFLXSegSizeSlider"@ ==> d.params.masks.segmentation.xseg_size == c.params.masks.segmentation.xseg_size,
        id != "OccluderXSegBlurSlider"@ ==> d.params.masks.segmentation.blur == c.params.masks.segmentation.blur,
        id != "FaceParserEnableToggle"@ ==> d.params.masks.faceparser.enabled == c.params.masks.faceparser.enabled,
        id != "BackgroundParserSlider"@ ==> d.params.masks.faceparser.background == c.params.masks.faceparser.background,
        id != "FaceParserSlider"@ ==> d.params.masks.faceparser.regions.face == c.params.masks.faceparser.regions.face,
        id != "LeftEyebrowParserSlider"@ ==> d.params.masks.faceparser.regions.left_eyebrow == c.params.masks.faceparser.regions.left_eyebrow,
        id != "RightEyebrowParserSlider"@ ==> d.params.masks.faceparser.regions.right_eyebrow == c.params.masks.faceparser.regions.right_eyebrow,
        id != "LeftEyeParserSlider"@ ==> d.params.masks.faceparser.regions.left_eye == c.params.masks.faceparser.regions.left_eye,
        id != "RightEyeParserSlider"@ ==> d.params.masks.faceparser.regions.right_eye == c.params.masks.faceparser.regions.right_eye,
        id != "EyeGlassesParserSlider"@ ==> d.params.masks.faceparser.regions.eyeglasses == c.params.masks.faceparser.regions.eyeglasses,
        id != "NoseParserSlider"@ ==> d.params.masks.faceparser.regions.nose == c.params.masks.faceparser.regions.nose,
        id != "MouthParserSlider"@ ==> d.params.masks.faceparser.regions.mouth == c.params.masks.faceparser.regions.mouth,
        id != "UpperLipParserSlider"@ ==> d.params.masks.faceparser.regions.upper_lip == c.params.masks.faceparser.regions.upper_lip,
        id != "LowerLipParserSlider"@ ==> d.params.masks.faceparser.regions.lower_lip == c.params.masks.faceparser.regions.lower_lip,
        id != "NeckParserSlider"@ ==> d.params.masks.faceparser.regions.neck == c.params.masks.faceparser.regions.neck,
        id != "HairParserSlider"@ ==> d.params.masks.faceparser.regions.hair == c.params.masks.faceparser.regions.hair,
        id != "BackgroundBlurParserSlider"@ ==> d.params.masks.faceparser.background_blur == c.params.masks.faceparser.background_blur,
        id != "FaceBlurParserSlider"@ ==> d.params.masks.faceparser.face_blur == c.params.masks.faceparser.face_blur,
{
    other_control_stays(v, id, value, "DifferencingEnableToggle"@);
    other_control_stays(v, id, value, "DifferencingAmountSlider"@);
    other_control_stays(v, id, value, "DifferencingBlendAmountSlider"@);
    other_control_stays(v, id, value, "BorderBottomSlider"@);
    other_control_stays(v, id, value, "BorderLeftSlider"@);
    other_control_stays(v, id, value, "BorderRightSlider"@);
    other_control_stays(v, id, value, "BorderTopSlider"@);
    other_control_stays(v, id, value, "BorderBlurSlider"@);
    other_control_stays(v, id, value, "OccluderEnableToggle"@);
    other_control_stays(v, id, value, "OccluderSizeSlider"@);
    other_control_stays(v, id, value, "DFLXSegEnableToggle"@);
    other_control_stays(v, id, value, "DFLXSegSizeSlider"@);
    other_control_stays(v, id, value, "OccluderXSegBlurSlider"@);
    other_control_stays(v, id, value, "FaceParserEnableToggle"@);
    other_control_stays(v, id, value, "BackgroundParserSlider"@);
    other_control_stays(v, id, value, "FaceParserSlider"@);
    other_control_stays(v, id, value, "LeftEyebrowParserSlider"@);
    other_control_stays(v, id, value, "RightEyebrowParserSlider"@);
    other_control_stays(v, id, value, "LeftEyeParserSlider"@);
    other_control_stays(v, id, value, "RightEyeParserSlider"@);
    other_control_stays(v, id, value, "EyeGlassesParserSlider"@);
    other_control_stays(v, id, value, "NoseParserSlider"@);
    other_control_stays(v, id, value, "MouthParserSlider"@);
    other_control_stays(v, id, value, "UpperLipParserSlider"@);
    other_control_stays(v, id, value, "LowerLipParserSlider"@);
    other_control_stays(v, id, value, "NeckParserSlider"@);
    other_control_stays(v, id, value, "HairParserSlider"@);
    other_control_stays(v, id, value, "BackgroundBlurParserSlider"@);
    other_control_stays(v, id, value, "FaceBlurParserSlider"@);
}

/// The tints of hair and lips hang on no control but their own: where one other control changes,
/// they stay as they are.
#[verifier::spinoff_prover]
pub proof fn makeup_from_nowhere_else(
    c: EditorRuntimeConfig,
    d: EditorRuntimeConfig,
    v: Values,
    id: Seq<char>,
    value: ControlValue,
)
    requires
        settings_match(c, v),
        settings_match(d, v.insert(id, value)),
    ensures
        id != "FaceParserHairMakeupEnableToggle"@ ==> d.params.masks.faceparser.hair_makeup.enabled == c.params.masks.faceparser.hair_makeup.enabled,
        id != "FaceParserHairMakeupRedSlider"@ ==> d.params.masks.faceparser.hair_makeup.red == c.params.masks.faceparser.hair_makeup.red,
        id != "FaceParserHairMakeupGreenSlider"@ ==> d.params.masks.faceparser.hair_makeup.green == c.params.masks.faceparser.hair_makeup.green,
        id != "FaceParserHairMakeupBlueSlider"@ ==> d.params.masks.faceparser.hair_makeup.blue == c.params.masks.faceparser.hair_makeup.blue,
        id != "FaceParserHairMakeupBlendAmountDecimalSlider"@ ==> d.params.masks.faceparser.hair_makeup.blend == c.params.masks.faceparser.hair_makeup.blend,
        id != "FaceParserLipsMakeupEnableToggle"@ ==> d.params.masks.faceparser.lips_makeup.enabled == c.params.masks.faceparser.lips_makeup.enabled,
        id != "FaceParserLipsMakeupRedSlider"@ ==> d.params.masks.faceparser.lips_makeup.red == c.params.masks.faceparser.lips_makeup.red,
        id != "FaceParserLipsMakeupGreenSlider"@ ==> d.params.masks.faceparser.lips_makeup.green == c.params.masks.faceparser.lips_makeup.green,
        id != "FaceParserLipsMakeupBlueSlider"@ ==> d.params.masks.faceparser.lips_makeup.blue == c.params.masks.faceparser.lips_makeup.blue,
        id != "FaceParserLipsMakeupBlendAmountDecimalSlider"@ ==> d.params.masks.faceparser.lips_makeup.blend == c.params.masks.faceparser.lips_makeup.blend,
{
    other_control_stays(v, id, value, "FaceParserHairMakeupEnableToggle"@);
    other_control_stays(v, id, value, "FaceParserHairMakeupRedSlider"@);
    other_control_stays(v, id, value, "FaceParserHairMakeupGreenSlider"@);
    other_control_stays(v, id, value, "FaceParserHairMakeupBlueSlider"@);
    other_control_stays(v, id, value, "FaceParserHairMakeupBlendAmountDecimalSlider"@);
    other_control_stays(v, id, value, "FaceParserLipsMakeupEnableToggle"@);
    other_control_stays(v, id, value, "FaceParserLipsMakeupRedSlider"@);
    other_control_stays(v, id, value, "FaceParserLipsMakeupGreenSlider"@);
    other_control_stays(v, id, value, "FaceParserLipsMakeupBlueSlider"@);
    other_control_stays(v, id, value, "FaceParserLipsMakeupBlendAmountDecimalSlider"@);
}

/// The eyes and the mouth that are restored hang on no control but their own: where one other
/// control changes, they stay as they are.
#[verifier::spinoff_prover]
pub proof fn restored_regions_from_nowhere_else(
    c: EditorRuntimeConfig,
    d: EditorRuntimeConfig,
    v: Values,
    id: Seq<char>,
    value: ControlValue,
)
    requires
        settings_match(c, v),
        settings_match(d, v.insert(id, value)),
    ensures
        id != "RestoreEyesEnableToggle"@ ==> d.params.masks.restore_eyes.enabled == c.params.masks.restore_eyes.enabled,
        id != "RestoreEyesBlendAmountSlider"@ ==> d.params.masks.restore_eyes.blend == c.params.masks.restore_eyes.blend,
        id != "RestoreEyesSizeFactorDecimalSlider"@ ==> d.params.masks.restore_eyes.size_factor == c.params.masks.restore_eyes.size_factor,
        id != "RestoreEyesFeatherBlendSlider"@ ==> d.params.masks.restore_eyes.feather == c.params.masks.restore_eyes.feather,
        id != "RestoreXEyesRadiusFactorDecimalSlider"@ ==> d.params.masks.restore_eyes.radius_x == c.params.masks.restore_eyes.radius_x,
        id != "RestoreYEyesRadiusFactorDecimalSlider"@ ==> d.params.masks.restore_eyes.radius_y == c.params.masks.restore_eyes.radius_y,
        id != "RestoreXEyesOffsetSlider"@ ==> d.params.masks.restore_eyes.offset_x == c.params.masks.restore_eyes.offset_x,
        id != "RestoreYEyesOffsetSlider"@ ==> d.params.masks.restore_eyes.offset_y == c.params.masks.restore_eyes.offset_y,
        id != "RestoreEyesSpacingOffsetSlider"@ ==> d.params.masks.restore_eyes.spacing_offset == c.params.masks.restore_eyes.spacing_offset,
        id != "RestoreMouthEnableToggle"@ ==> d.params.masks.restore_mouth.enabled == c.params.masks.restore_mouth.enabled,
        id != "RestoreMouthBlendAmountSlider"@ ==> d.params.masks.restore_mouth.blend == c.params.masks.restore_mouth.blend,
        id != "RestoreMouthSizeFactorSlider"@ ==> d.params.masks.restore_mouth.size_factor == c.params.masks.restore_mouth.size_factor,
        id != "RestoreMouthFeatherBlendSlider"@ ==> d.params.masks.restore_mouth.feather == c.params.masks.restore_mouth.feather,
        id != "RestoreXMouthRadiusFactorDecimalSlider"@ ==> d.params.masks.restore_mouth.radius_x == c.params.masks.restore_mouth.radius_x,
        id != "RestoreYMouthRadiusFactorDecimalSlider"@ ==> d.params.masks.restore_mouth.radius_y == c.params.masks.restore_mouth.radius_y,
        id != "RestoreXMouthOffsetSlider"@ ==> d.params.masks.restore_mouth.offset_x == c.params.masks.restore_mouth.offset_x,
        id != "RestoreYMouthOffsetSlider"@ ==> d.params.masks.restore_mouth.offset_y == c.params.masks.restore_mouth.offset_y,
        id != "RestoreEyesMouthBlurSlider"@ ==> d.params.masks.restore_blur == c.params.masks.restore_blur,
        d.params.masks.restore_mouth.spacing_offset == c.params.masks.restore_mouth.spacing_offset,
{
    other_control_stays(v, id, value, "RestoreEyesEnableToggle"@);
    other_control_stays(v, id, value, "RestoreEyesBlendAmountSlider"@);
    other_control_stays(v, id, value, "RestoreEyesSizeFactorDecimalSlider"@);
    other_control_stays(v, id, value, "RestoreEyesFeatherBlendSlider"@);
    other_control_stays(v, id, value, "RestoreXEyesRadiusFactorDecimalSlider"@);
    other_control_stays(v, id, value, "RestoreYEyesRadiusFactorDecimalSlider"@);
    other_control_stays(v, id, value, "RestoreXEyesOffsetSlider"@);
    other_control_stays(v, id, value, "RestoreYEyesOffsetSlider"@);
    other_control_stays(v, id, value, "RestoreEyesSpacingOffsetSlider"@);
    other_control_stays(v, id, value, "RestoreMouthEnableToggle"@);
    other_control_stays(v, id, value, "RestoreMouthBlendAmountSlider"@);
    other_control_stays(v, id, value, "RestoreMouthSizeFactorSlider"@);
    other_control_stays(v, id, value, "RestoreMouthFeatherBlendSlider"@);
    other_control_stays(v, id, value, "RestoreXMouthRadiusFactorDecimalSlider"@);
    other_control_stays(v, id, value, "RestoreYMouthRadiusFactorDecimalSlider"@);
    other_control_stays(v, id, value, "RestoreXMouthOffsetSlider"@);
    other_control_stays(v, id, value, "RestoreYMouthOffsetSlider"@);
    other_control_stays(v, id, value, "RestoreEyesMouthBlurSlider"@);
}

/// Color hangs on no control but its own: where one other control changes, it stays as it is.
#[verifier::spinoff_prover]
pub proof fn color_from_nowhere_else(
    c: EditorRuntimeConfig,
    d: EditorRuntimeConfig,
    v: Values,
    id: Seq<char>,
    value: ControlValue,
)
    requires
        settings_match(c, v),
        settings_match(d, v.insert(id, value)),
    ensures
        id != "AutoColorEnableToggle"@ ==> d.params.color.auto.enabled == c.params.color.auto.enabled,
        id != "AutoColorTransferTypeSelection"@ ==> d.params.color.auto.mode == c.params.color.auto.mode,
        id != "AutoColorBlendAmountSlider"@ ==> d.params.color.auto.blend == c.params.color.auto.blend,
        id != "ColorEnableToggle"@ ==> d.params.color.adjust.enabled == c.params.color.adjust.enabled,
        id != "ColorRedSlider"@ ==> d.params.color.adjust.red == c.params.color.adjust.red,
        id != "ColorGreenSlider"@ ==> d.params.color.adjust.green == c.params.color.adjust.green,
        id != "ColorBlueSlider"@ ==> d.params.color.adjust.blue == c.params.color.adjust.blue,
        id != "ColorBrightnessDecimalSlider"@ ==> d.params.color.adjust.brightness == c.params.color.adjust.brightness,
        id != "ColorContrastDecimalSlider"@ ==> d.params.color.adjust.contrast == c.params.color.adjust.contrast,
        id != "ColorSaturationDecimalSlider"@ ==> d.params.color.adjust.saturation == c.params.color.adjust.saturation,
        id != "ColorSharpnessDecimalSlider"@ ==> d.params.color.adjust.sharpness == c.params.color.adjust.sharpness,
        id != "ColorHueDecimalSlider"@ ==> d.params.color.adjust.hue == c.params.color.adjust.hue,
        id != "ColorGammaDecimalSlider"@ ==> d.params.color.adjust.gamma == c.params.color.adjust.gamma,
        id != "ColorNoiseDecimalSlider"@ ==> d.params.color.adjust.noise == c.params.color.adjust.noise,
        d.params.color.correction == c.params.color.correction,
        d.params.color.histogram_matching == c.params.color.histogram_matching,
{
    other_control_stays(v, id, value, "AutoColorEnableToggle"@);
    other_control_stays(v, id, value, "AutoColorTransferTypeSelection"@);
    other_control_stays(v, id, value, "AutoColorBlendAmountSlider"@);
    other_control_stays(v, id, value, "ColorEnableToggle"@);
    other_control_stays(v, id, value, "ColorRedSlider"@);
    other_control_stays(v, id, value, "ColorGreenSlider"@);
    other_control_stays(v, id, value, "ColorBlueSlider"@);
    other_control_stays(v, id, value, "ColorBrightnessDecimalSlider"@);
    other_control_stays(v, id, value, "ColorContrastDecimalSlider"@);
    other_control_stays(v, id, value, "ColorSaturationDecimalSlider"@);
    other_control_stays(v, id, value, "ColorSharpnessDecimalSlider"@);
    other_control_stays(v, id, value, "ColorHueDecimalSlider"@);
    other_control_stays(v, id, value, "ColorGammaDecimalSlider"@);
    other_control_stays(v, id, value, "ColorNoiseDecimalSlider"@);
}

/// The last touches hang on no control but their own: where one other control changes, they stay as
/// they are.
#[verifier::spinoff_prover]
pub proof fn finish_from_nowhere_else(
    c: EditorRuntimeConfig,
    d: EditorRuntimeConfig,
    v: Values,
    id: Seq<char>,
    value: ControlValue,
)
    requires
        settings_match(c, v),
        settings_match(d, v.insert(id, value)),
    ensures
        id != "JPEGCompressionEnableToggle"@ ==> d.params.finish.jpeg_compression_enabled == c.params.finish.jpeg_compression_enabled,
        id != "JPEGCompressionAmountSlider"@ ==> d.params.finish.jpeg_quality == c.params.finish.jpeg_quality,
        id != "FinalBlendAdjEnableToggle"@ ==> d.params.finish.final_blur_enabled == c.params.finish.final_blur_enabled,
        id != "FinalBlendAmountSlider"@ ==> d.params.finish.final_blur == c.params.finish.final_blur,
        id != "OverallMaskBlendAmountSlider"@ ==> d.params.finish.overall_mask_blur == c.params.finish.overall_mask_blur,
{
    other_control_stays(v, id, value, "JPEGCompressionEnableToggle"@);
    other_control_stays(v, id, value, "JPEGCompressionAmountSlider"@);
    other_control_stays(v, id, value, "FinalBlendAdjEnableToggle"@);
    other_control_stays(v, id, value, "FinalBlendAmountSlider"@);
    other_control_stays(v, id, value, "OverallMaskBlendAmountSlider"@);
}

/// The settings of the session itself hang on no control but their own: where one other control
/// changes, they stay as they are.
#[verifier::spinoff_prover]
pub proof fn session_from_nowhere_else(
    c: EditorRuntimeConfig,
    d: EditorRuntimeConfig,
    v: Values,
    id: Seq<char>,
    value: ControlValue,
)
    requires
        settings_match(c, v),
        settings_match(d, v.insert(id, value)),
    ensures
        id != "ProvidersPrioritySelection"@ ==> d.provider == c.provider,
        id != "DetectorModelSelection"@ ==> d.detector == c.detector,
        id != "nThreadsSlider"@ ==> d.worker_threads == c.worker_threads,
        id != "VideoPlaybackCustomFpsToggle"@ && id != "VideoPlaybackCustomFpsSlider"@ ==> d.playback_fps == c.playback_fps,
        id != "AutoSwapToggle"@ ==> d.auto_swap == c.auto_swap,
        id != "ShowLandmarksEnableToggle"@ ==> d.show_landmarks == c.show_landmarks,
        id != "ShowAllDetectedFacesBBoxToggle"@ ==> d.show_bounding_boxes == c.show_bounding_boxes,
        id != "MaxDFMModelsSlider"@ ==> d.max_dfm_models == c.max_dfm_models,
        id != "SimilarityTypeSelection"@ ==> d.similarity_type == c.similarity_type,
        id != "EmbMergeMethodSelection"@ ==> d.embedding_merge_method@ == c.embedding_merge_method@,
        id != "TargetMediaFolderRecursiveToggle"@ ==> d.target_media_recursive == c.target_media_recursive,
        id != "InputFacesFolderRecursiveToggle"@ ==> d.source_media_recursive == c.source_media_recursive,
        id != "ScrollChangesValuesToggle"@ ==> d.scroll_changes_values == c.scroll_changes_values,
{
    other_control_stays(v, id, value, "ProvidersPrioritySelection"@);
    other_control_stays(v, id, value, "DetectorModelSelection"@);
    other_control_stays(v, id, value, "nThreadsSlider"@);
    other_control_stays(v, id, value, "VideoPlaybackCustomFpsToggle"@);
    other_control_stays(v, id, value, "VideoPlaybackCustomFpsSlider"@);
    other_control_stays(v, id, value, "AutoSwapToggle"@);
    other_control_stays(v, id, value, "ShowLandmarksEnableToggle"@);
    other_control_stays(v, id, value, "ShowAllDetectedFacesBBoxToggle"@);
    other_control_stays(v, id, value, "MaxDFMModelsSlider"@);
    other_control_stays(v, id, value, "SimilarityTypeSelection"@);
    other_control_stays(v, id, value, "EmbMergeMethodSelection"@);
    other_control_stays(v, id, value, "TargetMediaFolderRecursiveToggle"@);
    other_control_stays(v, id, value, "InputFacesFolderRecursiveToggle"@);
    other_control_stays(v, id, value, "ScrollChangesValuesToggle"@);
}

proof fn collected_are_those<T, E>(ones: Seq<Result<Option<T>, E>>, list: Seq<T>)
    requires
        collected(ones) == Ok::<Seq<T>, E>(list),
    ensures
        forall|i: int|
            0 <= i < list.len() ==> exists|j: int|
                0 <= j < ones.len() && #[trigger] ones[j] == Ok::<Option<T>, E>(
                    Some(#[trigger] list[i]),
                ),
        forall|j: int| 0 <= j < ones.len() ==> #[trigger] ones[j] is Ok,
        forall|j: int|
            0 <= j < ones.len() ==> ((#[trigger] ones[j]) matches Ok(Some(value)) ==> list.contains(
                value,
            )),
    decreases ones.len(),
{
    if ones.len() > 0 {
        let front = ones.drop_last();
        let n = front.len() as int;
        let before = collected(front)->Ok_0;
        collected_are_those(front, before);
        assert forall|i: int| 0 <= i < list.len() implies exists|j: int|
            0 <= j < ones.len() && #[trigger] ones[j] == Ok::<Option<T>, E>(
                Some(#[trigger] list[i]),
            ) by {
            if i < before.len() {
                assert(list[i] == before[i]);
                let j = choose|j: int|
                    0 <= j < front.len() && #[trigger] front[j] == Ok::<Option<T>, E>(
                        Some(before[i]),
                    );
                assert(ones[j] == front[j]);
            } else {
                assert(ones[n] == Ok::<Option<T>, E>(Some(list[i])));
            }
        }
        assert forall|j: int| 0 <= j < ones.len() implies #[trigger] ones[j] is Ok by {
            if j < n {
                assert(front[j] == ones[j]);
            }
        }
        assert forall|j: int| 0 <= j < ones.len() implies ((#[trigger] ones[j]) matches Ok(
            Some(value),
        ) ==> list.contains(value)) by {
            if let Ok(Some(value)) = ones[j] {
                if j < n {
                    assert(front[j] == ones[j]);
                    let k = choose|k: int| 0 <= k < before.len() && before[k] == value;
                    assert(list[k] == value);
                } else {
                    assert(list[before.len() as int] == value);
                }
            }
        }
    }
}

/// Where all faces are swapped, there is one assignment: it selects no target and has the
/// parameters of the session.
pub proof fn one_assignment_swaps_all<F, G, D>(
    config: EditorRuntimeConfig,
    workspace: FaceWorkspace,
    method: EmbeddingMergeMethod,
    mean: F,
    midpoint: G,
    digest: D,
    list: Seq<FaceAssignmentInputs>,
) where
    F: Fn(Vec<Single>) -> Single,
    G: Fn(Single, Single) -> Single,
    D: Fn(&Vec<Single>) -> Result<String, String>,

    requires
        workspace@.swap_all,
        routes(config, workspace, method, mean, midpoint, digest, Ok(list)),
    ensures
        list.len() == 1,
        list[0].target is None,
        list[0].params == Some(config.params),
        list[0].similarity_threshold == config.params.identity.similarity_threshold,
        list[0].source is Embedding,
        list[0].models.vacant(),
{
}

/// An assignment that selects a target by its own embedding.
pub open spec fn selects_by_embedding(
    config: EditorRuntimeConfig,
    target: TargetFace,
    inputs: FaceAssignmentInputs,
) -> bool {
    &&& inputs.target matches Some(FaceIdentityInput::Embedding(given)) && given@
        == target@.embeddings[ARC_FACE_MODEL@]
    &&& inputs.source is Embedding
    &&& inputs.models.vacant()
    &&& inputs.params matches Some(p) && p.detection == config.params.detection && p.enhancer
        == config.params.enhancer && inputs.similarity_threshold == p.identity.similarity_threshold
}

#[verifier::spinoff_prover]
proof fn routed_target_is_selected<F, G, D>(
    config: EditorRuntimeConfig,
    faces: Faces,
    target: TargetFace,
    method: EmbeddingMergeMethod,
    mean: F,
    midpoint: G,
    digest: D,
    one: Result<Option<FaceAssignmentInputs>, ControlBridgeError>,
) where
    F: Fn(Vec<Single>) -> Single,
    G: Fn(Single, Single) -> Single,
    D: Fn(&Vec<Single>) -> Result<String, String>,

    requires
        routes_target(config, faces, target, method, mean, midpoint, digest, one),
        one is Ok,
    ensures
        one matches Ok(Some(inputs)) ==> selects_by_embedding(config, target, inputs),
        faces.assigns(Some(target@.id)) ==> one matches Ok(Some(_)),
{
}

/// Where faces are swapped one by one, every target to which something is assigned has an
/// assignment, which selects it by its own embedding. Every assignment has the threshold of its own
/// parameters, and shares detection and enhancement with the session.
pub proof fn every_routed_target_is_assigned<F, G, D>(
    config: EditorRuntimeConfig,
    workspace: FaceWorkspace,
    method: EmbeddingMergeMethod,
    mean: F,
    midpoint: G,
    digest: D,
    list: Seq<FaceAssignmentInputs>,
    k: int,
) where
    F: Fn(Vec<Single>) -> Single,
    G: Fn(Single, Single) -> Single,
    D: Fn(&Vec<Single>) -> Result<String, String>,

    requires
        !workspace@.swap_all,
        routes(config, workspace, method, mean, midpoint, digest, Ok(list)),
        0 <= k < workspace.target_entries().len(),
        workspace@.assigns(Some(workspace.target_entries()[k].1@.id)),
    ensures
        list.len() > 0,
        exists|i: int|
            0 <= i < list.len() && selects_by_embedding(
                config,
                workspace.target_entries()[k].1,
                #[trigger] list[i],
            ),
        forall|i: int|
            0 <= i < list.len() ==> exists|j: int|
                0 <= j < workspace.target_entries().len() && selects_by_embedding(
                    config,
                    (#[trigger] workspace.target_entries()[j]).1,
                    #[trigger] list[i],
                ),
{
    let entries = workspace.target_entries();
    let ones = choose|ones: Seq<Result<Option<FaceAssignmentInputs>, ControlBridgeError>>|
        {
            &&& #[trigger] routes_targets(
                config,
                workspace@,
                entries,
                method,
                mean,
                midpoint,
                digest,
                ones,
            )
            &&& Ok::<Seq<FaceAssignmentInputs>, ControlBridgeError>(list) == match collected(ones) {
                Ok(inputs) => if inputs.len() == 0 {
                    Err(ControlBridgeError::NoFaceAssignments)
                } else {
                    Ok(inputs)
                },
                Err(e) => Err::<Seq<FaceAssignmentInputs>, ControlBridgeError>(e),
            }
        };
    collected_are_those(ones, list);
    if ones.len() < entries.len() {
        assert(ones[ones.len() - 1] is Ok);
    }
    assert(ones[k] is Ok);
    routed_target_is_selected(
        config,
        workspace@,
        entries[k].1,
        method,
        mean,
        midpoint,
        digest,
        ones[k],
    );
    let inputs = (ones[k]->Ok_0)->0;
    assert(list.contains(inputs));
    let at = choose|at: int| 0 <= at < list.len() && list[at] == inputs;
    assert(selects_by_embedding(config, entries[k].1, list[at]));
    assert forall|i: int| 0 <= i < list.len() implies exists|j: int|
        0 <= j < entries.len() && selects_by_embedding(
            config,
            (#[trigger] entries[j]).1,
            #[trigger] list[i],
        ) by {
        let j = choose|j: int|
            0 <= j < ones.len() && #[trigger] ones[j] == Ok::<
                Option<FaceAssignmentInputs>,
                ControlBridgeError,
            >(Some(list[i]));
        routed_target_is_selected(
            config,
            workspace@,
            entries[j].1,
            method,
            mean,
            midpoint,
            digest,
            ones[j],
        );
        assert(selects_by_embedding(config, entries[j].1, list[i]));
    }
}

proof fn all_are_collected<T, E>(ones: Seq<Result<Option<T>, E>>, list: Seq<T>)
    requires
        collected(ones) == Ok::<Seq<T>, E>(list),
        forall|j: int|
            0 <= j < ones.len() ==> ((#[trigger] ones[j]) matches Ok(one) && one is Some),
    ensures
        list.len() == ones.len(),
        forall|j: int|
            0 <= j < ones.len() ==> #[trigger] ones[j] == Ok::<Option<T>, E>(Some(list[j])),
    decreases ones.len(),
{
    if ones.len() > 0 {
        let front = ones.drop_last();
        let before = collected(front)->Ok_0;
        assert forall|j: int| 0 <= j < front.len() implies ((#[trigger] front[j]) matches Ok(one)
            && one is Some) by {
            assert(front[j] == ones[j]);
        }
        all_are_collected(front, before);
        assert(ones[ones.len() - 1] == ones.last());
        assert forall|j: int| 0 <= j < ones.len() implies #[trigger] ones[j] == Ok::<Option<T>, E>(
            Some(list[j]),
        ) by {
            if j < front.len() {
                assert(front[j] == ones[j]);
                assert(list[j] == before[j]);
            }
        }
    }
}

/// A request that is made has every assignment that was asked for, in order, and none of them is
/// changed but for the models that it adds. It runs on one to thirty-two threads, as many as were
/// asked for where that is one of these numbers, and no more models of DeepFaceLive are in it than
/// allowed.
pub proof fn request_keeps_its_assignments<D, P, B>(
    config: EditorRuntimeConfig,
    assignments: Seq<FaceAssignmentInputs>,
    digest: D,
    file: P,
    build: B,
    request: EditorEngineRequest,
    i: int,
) where
    D: Fn(&Vec<Single>) -> Result<String, String>,
    P: Fn(&String) -> Result<String, String>,
    B: Fn(String, FaceSwapParams, ExecutionProvider, DetectorModel) -> Result<EngineSpec, String>,

    requires
        compiles(config, assignments, digest, file, build, Ok(request)),
        0 <= i < assignments.len(),
    ensures
        request.assignments@.len() == assignments.len(),
        request.assignments@[i].source == assignments[i].source,
        request.assignments@[i].target == assignments[i].target,
        request.assignments@[i].params == assignments[i].params,
        request.assignments@[i].similarity_threshold == assignments[i].similarity_threshold,
        1 <= request.worker_threads <= 32,
        1 <= config.worker_threads <= 32 ==> request.worker_threads == config.worker_threads,
        config.worker_threads > 32 ==> request.worker_threads == 32,
        request.predecode is Auto,
        dfm_digests(request.spec, request.assignments@, request.assignments@.len()).len()
            <= config.max_dfm_models,
{
    let primary = choose|primary: Result<EngineSpec, ControlBridgeError>|
        {
            &&& #[trigger] builds(
                config,
                assignments[0].source,
                config.params,
                digest,
                file,
                build,
                primary,
            )
            &&& match primary {
                Err(e) => false,
                Ok(spec) => exists|
                    ones: Seq<Result<Option<FaceAssignmentInputs>, ControlBridgeError>>,
                |
                    #[trigger] localizes_all(
                        config,
                        spec,
                        assignments,
                        digest,
                        file,
                        build,
                        ones,
                    ) && collected(ones) == Ok::<Seq<FaceAssignmentInputs>, ControlBridgeError>(
                        request.assignments@,
                    ) && request.spec == spec && dfm_digests(
                        spec,
                        request.assignments@,
                        request.assignments@.len(),
                    ).len() <= config.max_dfm_models && request.worker_threads == clamped(
                        config.worker_threads as int,
                        1,
                        32,
                    ) && request.predecode is Auto,
            }
        };
    let spec = primary->Ok_0;
    let ones = choose|ones: Seq<Result<Option<FaceAssignmentInputs>, ControlBridgeError>>|
        #[trigger] localizes_all(config, spec, assignments, digest, file, build, ones) && collected(
            ones,
        ) == Ok::<Seq<FaceAssignmentInputs>, ControlBridgeError>(request.assignments@);
    collected_are_those(ones, request.assignments@);
    assert forall|j: int| 0 <= j < ones.len() implies ((#[trigger] ones[j]) matches Ok(one) && one
        is Some) by {
        assert(localizes(config, spec, assignments[j], digest, file, build, ones[j]));
        assert(ones[j] is Ok);
    }
    all_are_collected(ones, request.assignments@);
    if ones.len() < assignments.len() {
        assert(ones[ones.len() - 1] is Ok);
    }
    assert(localizes(config, spec, assignments[i], digest, file, build, ones[i]));
}

} // verus!
