//! What a specification that is accepted holds, and what one that is refused lacks.

use vstd::prelude::*;

use crate::config::fresh_params;
use crate::config::{EnhancerModel, FaceSwapParams, LandmarkMode, RestorerSize, SwapperModel};
use crate::engine::models::{every_role_has_its_place, overlay, overlay_prefers_over, role_at};
use crate::engine::models::{own_artifact, own_models};
use crate::engine::models::{ModelArtifact, ModelRole, ModelSet};
use crate::engine::rules::{
    color_rules, digest_fault, geometry_rules, hex_digit, is_digest, mask_rules, params_rules,
    restore_rules, restorer_key, scalar_rules, supported_restorer, SpecFault,
};
use crate::engine::spec::EngineSpec;
use crate::engine::spec::{
    artifact_rules, assignment_field, assignment_rules, assignments_rules, bound_sessions,
    brings_recognizer, head_rules, likeness_unmet, models_rules, optional, override_fault,
    recognizer_fault, restorer_session, role_fault, scoped_rules, session_fault, session_roles,
    sessions_of, sessions_up_to, share_generation, spec_rules, stage_rules,
};
use crate::number::Single;
use crate::paths::stays_inside;
use crate::reports::{first_fault, first_fault_is_reported, no_first_fault_means_none};
use crate::text::{blank, white_space};

verus! {

/// A finite number between the numbers with the patterns `min` and `max`.
pub open spec fn within(value: Single, min: u32, max: u32) -> bool {
    value.within(Single { bits: min }, Single { bits: max })
}

/// Detection, swap and identity are accepted exactly where every one of them is in its range.
pub proof fn detection_swap_and_identity_are_in_range(p: FaceSwapParams)
    ensures
        first_fault(scalar_rules(p)) is None <==> {
            &&& within(p.swapper.dfm_morph, 0x3c23_d70a, 0x3f80_0000)
            &&& within(p.detection.score, 0x3c23_d70a, 0x3f80_0000)
            &&& 1 <= p.detection.max_faces <= 50
            &&& p.detection.manual_rotation_angle == 0 || p.detection.manual_rotation_angle == 90 || p.detection.manual_rotation_angle == 180 || p.detection.manual_rotation_angle == 270
            &&& within(p.landmark.score, 0x3c23_d70a, 0x3f80_0000)
            &&& within(p.identity.strength, 0, 0x40a0_0000)
            &&& within(p.identity.likeness_factor, 0xbf80_0000, 0x3f80_0000)
        },
{
    reveal(scalar_rules);
    let reports = scalar_rules(p);
    no_first_fault_means_none(reports);
    assert(reports.len() == 7);
    assert(reports[0] is None <==> (within(p.swapper.dfm_morph, 0x3c23_d70a, 0x3f80_0000)));
    assert(reports[1] is None <==> (within(p.detection.score, 0x3c23_d70a, 0x3f80_0000)));
    let faces = p.detection.max_faces;
    assert(1 <= faces as i64 <= 50 <==> 1 <= faces <= 50) by (bit_vector);
    assert(reports[2] is None <==> (1 <= p.detection.max_faces <= 50));
    assert(reports[3] is None <==> (p.detection.manual_rotation_angle == 0 || p.detection.manual_rotation_angle == 90 || p.detection.manual_rotation_angle == 180 || p.detection.manual_rotation_angle == 270));
    assert(reports[4] is None <==> (within(p.landmark.score, 0x3c23_d70a, 0x3f80_0000)));
    assert(reports[5] is None <==> (within(p.identity.strength, 0, 0x40a0_0000)));
    assert(reports[6] is None <==> (within(p.identity.likeness_factor, 0xbf80_0000, 0x3f80_0000)));
}

/// Color and the last touches are accepted exactly where every one of them is in its range.
pub proof fn color_and_finish_are_in_range(p: FaceSwapParams)
    ensures
        first_fault(color_rules(p)) is None <==> {
            &&& within(p.color.auto.blend, 0, 0x3f80_0000)
            &&& within(p.restoration.first.alpha, 0, 0x3f80_0000)
            &&& within(p.restoration.second.alpha, 0, 0x3f80_0000)
            &&& within(p.color.adjust.red, 0xc2c8_0000, 0x42c8_0000)
            &&& within(p.color.adjust.green, 0xc2c8_0000, 0x42c8_0000)
            &&& within(p.color.adjust.blue, 0xc2c8_0000, 0x42c8_0000)
            &&& within(p.color.adjust.brightness, 0, 0x4000_0000)
            &&& within(p.color.adjust.contrast, 0, 0x4000_0000)
            &&& within(p.color.adjust.saturation, 0, 0x4000_0000)
            &&& within(p.color.adjust.sharpness, 0, 0x4000_0000)
            &&& within(p.color.adjust.hue, 0xbf00_0000, 0x3f00_0000)
            &&& within(p.color.adjust.gamma, 0, 0x4000_0000)
            &&& within(p.color.adjust.noise, 0, 0x41a0_0000)
            &&& 1 <= p.finish.jpeg_quality <= 100
            &&& 1 <= p.finish.final_blur <= 50
            &&& 0 <= p.finish.overall_mask_blur <= 100
        },
{
    reveal(color_rules);
    let reports = color_rules(p);
    no_first_fault_means_none(reports);
    assert(reports.len() == 16);
    assert(reports[0] is None <==> (within(p.color.auto.blend, 0, 0x3f80_0000)));
    assert(reports[1] is None <==> (within(p.restoration.first.alpha, 0, 0x3f80_0000)));
    assert(reports[2] is None <==> (within(p.restoration.second.alpha, 0, 0x3f80_0000)));
    assert(reports[3] is None <==> (within(p.color.adjust.red, 0xc2c8_0000, 0x42c8_0000)));
    assert(reports[4] is None <==> (within(p.color.adjust.green, 0xc2c8_0000, 0x42c8_0000)));
    assert(reports[5] is None <==> (within(p.color.adjust.blue, 0xc2c8_0000, 0x42c8_0000)));
    assert(reports[6] is None <==> (within(p.color.adjust.brightness, 0, 0x4000_0000)));
    assert(reports[7] is None <==> (within(p.color.adjust.contrast, 0, 0x4000_0000)));
    assert(reports[8] is None <==> (within(p.color.adjust.saturation, 0, 0x4000_0000)));
    assert(reports[9] is None <==> (within(p.color.adjust.sharpness, 0, 0x4000_0000)));
    assert(reports[10] is None <==> (within(p.color.adjust.hue, 0xbf00_0000, 0x3f00_0000)));
    assert(reports[11] is None <==> (within(p.color.adjust.gamma, 0, 0x4000_0000)));
    assert(reports[12] is None <==> (within(p.color.adjust.noise, 0, 0x41a0_0000)));
    assert(reports[13] is None <==> (1 <= p.finish.jpeg_quality <= 100));
    assert(reports[14] is None <==> (1 <= p.finish.final_blur <= 50));
    assert(reports[15] is None <==> (0 <= p.finish.overall_mask_blur <= 100));
}

/// Geometry is accepted exactly where every shift and scale is in its range.
pub proof fn geometry_is_in_range(p: FaceSwapParams)
    ensures
        first_fault(geometry_rules(p)) is None <==> {
            &&& within(p.geometry.keypoints_x, 0xc2c8_0000, 0x42c8_0000)
            &&& within(p.geometry.keypoints_y, 0xc2c8_0000, 0x42c8_0000)
            &&& within(p.geometry.keypoints_scale, 0xc2c8_0000, 0x42c8_0000)
            &&& within(p.geometry.face_scale, 0xc1a0_0000, 0x41a0_0000)
            &&& within(p.geometry.offsets.left_eye.x, 0xc2c8_0000, 0x42c8_0000)
            &&& within(p.geometry.offsets.left_eye.y, 0xc2c8_0000, 0x42c8_0000)
            &&& within(p.geometry.offsets.right_eye.x, 0xc2c8_0000, 0x42c8_0000)
            &&& within(p.geometry.offsets.right_eye.y, 0xc2c8_0000, 0x42c8_0000)
            &&& within(p.geometry.offsets.nose.x, 0xc2c8_0000, 0x42c8_0000)
            &&& within(p.geometry.offsets.nose.y, 0xc2c8_0000, 0x42c8_0000)
            &&& within(p.geometry.offsets.mouth_left.x, 0xc2c8_0000, 0x42c8_0000)
            &&& within(p.geometry.offsets.mouth_left.y, 0xc2c8_0000, 0x42c8_0000)
            &&& within(p.geometry.offsets.mouth_right.x, 0xc2c8_0000, 0x42c8_0000)
            &&& within(p.geometry.offsets.mouth_right.y, 0xc2c8_0000, 0x42c8_0000)
        },
{
    reveal(geometry_rules);
    let reports = geometry_rules(p);
    no_first_fault_means_none(reports);
    assert(reports.len() == 14);
    assert(reports[0] is None <==> (within(p.geometry.keypoints_x, 0xc2c8_0000, 0x42c8_0000)));
    assert(reports[1] is None <==> (within(p.geometry.keypoints_y, 0xc2c8_0000, 0x42c8_0000)));
    assert(reports[2] is None <==> (within(p.geometry.keypoints_scale, 0xc2c8_0000, 0x42c8_0000)));
    assert(reports[3] is None <==> (within(p.geometry.face_scale, 0xc1a0_0000, 0x41a0_0000)));
    assert(reports[4] is None <==> (within(p.geometry.offsets.left_eye.x, 0xc2c8_0000, 0x42c8_0000)));
    assert(reports[5] is None <==> (within(p.geometry.offsets.left_eye.y, 0xc2c8_0000, 0x42c8_0000)));
    assert(reports[6] is None <==> (within(p.geometry.offsets.right_eye.x, 0xc2c8_0000, 0x42c8_0000)));
    assert(reports[7] is None <==> (within(p.geometry.offsets.right_eye.y, 0xc2c8_0000, 0x42c8_0000)));
    assert(reports[8] is None <==> (within(p.geometry.offsets.nose.x, 0xc2c8_0000, 0x42c8_0000)));
    assert(reports[9] is None <==> (within(p.geometry.offsets.nose.y, 0xc2c8_0000, 0x42c8_0000)));
    assert(reports[10] is None <==> (within(p.geometry.offsets.mouth_left.x, 0xc2c8_0000, 0x42c8_0000)));
    assert(reports[11] is None <==> (within(p.geometry.offsets.mouth_left.y, 0xc2c8_0000, 0x42c8_0000)));
    assert(reports[12] is None <==> (within(p.geometry.offsets.mouth_right.x, 0xc2c8_0000, 0x42c8_0000)));
    assert(reports[13] is None <==> (within(p.geometry.offsets.mouth_right.y, 0xc2c8_0000, 0x42c8_0000)));
}

/// Segmentation and face parser are accepted exactly where every size and blur is in its range.
pub proof fn segmentation_and_parser_are_in_range(p: FaceSwapParams)
    ensures
        first_fault(mask_rules(p)) is None <==> {
            &&& within(p.identity.similarity_threshold, 0, 0x3f80_0000)
            &&& -100 <= p.masks.segmentation.occluder_size <= 100
            &&& -100 <= p.masks.segmentation.xseg_size <= 100
            &&& 0 <= p.masks.segmentation.blur <= 100
            &&& -50 <= p.masks.faceparser.background <= 50
            &&& 0 <= p.masks.faceparser.regions.face <= 30
            &&& 0 <= p.masks.faceparser.regions.left_eyebrow <= 30
            &&& 0 <= p.masks.faceparser.regions.right_eyebrow <= 30
            &&& 0 <= p.masks.faceparser.regions.left_eye <= 30
            &&& 0 <= p.masks.faceparser.regions.right_eye <= 30
            &&& 0 <= p.masks.faceparser.regions.eyeglasses <= 30
            &&& 0 <= p.masks.faceparser.regions.nose <= 30
            &&& 0 <= p.masks.faceparser.regions.mouth <= 30
            &&& 0 <= p.masks.faceparser.regions.upper_lip <= 30
            &&& 0 <= p.masks.faceparser.regions.lower_lip <= 30
            &&& 0 <= p.masks.faceparser.regions.neck <= 30
            &&& 0 <= p.masks.faceparser.regions.hair <= 30
            &&& 0 <= p.masks.faceparser.background_blur <= 100
            &&& 0 <= p.masks.faceparser.face_blur <= 100
        },
{
    reveal(mask_rules);
    let reports = mask_rules(p);
    no_first_fault_means_none(reports);
    assert(reports.len() == 19);
    assert(reports[0] is None <==> (within(p.identity.similarity_threshold, 0, 0x3f80_0000)));
    assert(reports[1] is None <==> (-100 <= p.masks.segmentation.occluder_size <= 100));
    assert(reports[2] is None <==> (-100 <= p.masks.segmentation.xseg_size <= 100));
    assert(reports[3] is None <==> (0 <= p.masks.segmentation.blur <= 100));
    assert(reports[4] is None <==> (-50 <= p.masks.faceparser.background <= 50));
    assert(reports[5] is None <==> (0 <= p.masks.faceparser.regions.face <= 30));
    assert(reports[6] is None <==> (0 <= p.masks.faceparser.regions.left_eyebrow <= 30));
    assert(reports[7] is None <==> (0 <= p.masks.faceparser.regions.right_eyebrow <= 30));
    assert(reports[8] is None <==> (0 <= p.masks.faceparser.regions.left_eye <= 30));
    assert(reports[9] is None <==> (0 <= p.masks.faceparser.regions.right_eye <= 30));
    assert(reports[10] is None <==> (0 <= p.masks.faceparser.regions.eyeglasses <= 30));
    assert(reports[11] is None <==> (0 <= p.masks.faceparser.regions.nose <= 30));
    assert(reports[12] is None <==> (0 <= p.masks.faceparser.regions.mouth <= 30));
    assert(reports[13] is None <==> (0 <= p.masks.faceparser.regions.upper_lip <= 30));
    assert(reports[14] is None <==> (0 <= p.masks.faceparser.regions.lower_lip <= 30));
    assert(reports[15] is None <==> (0 <= p.masks.faceparser.regions.neck <= 30));
    assert(reports[16] is None <==> (0 <= p.masks.faceparser.regions.hair <= 30));
    assert(reports[17] is None <==> (0 <= p.masks.faceparser.background_blur <= 100));
    assert(reports[18] is None <==> (0 <= p.masks.faceparser.face_blur <= 100));
}

/// Restored regions and differencing are accepted exactly where every one of them is in its range.
pub proof fn restored_regions_are_in_range(p: FaceSwapParams)
    ensures
        first_fault(restore_rules(p)) is None <==> {
            &&& within(p.masks.restore_mouth.blend, 0, 0x3f80_0000)
            &&& within(p.masks.restore_mouth.size_factor, 0x3d4c_cccd, 0x3f19_999a)
            &&& within(p.masks.restore_mouth.radius_x, 0x3e99_999a, 0x4040_0000)
            &&& within(p.masks.restore_mouth.radius_y, 0x3e99_999a, 0x4040_0000)
            &&& within(p.masks.restore_eyes.blend, 0, 0x3f80_0000)
            &&& within(p.masks.restore_eyes.size_factor, 0x4000_0000, 0x4080_0000)
            &&& within(p.masks.restore_eyes.radius_x, 0x3e99_999a, 0x4040_0000)
            &&& within(p.masks.restore_eyes.radius_y, 0x3e99_999a, 0x4040_0000)
            &&& 1 <= p.masks.restore_mouth.feather <= 100
            &&& -300 <= p.masks.restore_mouth.offset_x <= 300
            &&& -300 <= p.masks.restore_mouth.offset_y <= 300
            &&& 1 <= p.masks.restore_eyes.feather <= 100
            &&& -300 <= p.masks.restore_eyes.offset_x <= 300
            &&& -300 <= p.masks.restore_eyes.offset_y <= 300
            &&& -200 <= p.masks.restore_eyes.spacing_offset <= 200
            &&& 0 <= p.masks.restore_blur <= 50
            &&& 0 <= p.masks.differencing.amount <= 100
            &&& 0 <= p.masks.differencing.blur <= 100
        },
{
    reveal(restore_rules);
    let reports = restore_rules(p);
    no_first_fault_means_none(reports);
    assert(reports.len() == 18);
    assert(reports[0] is None <==> (within(p.masks.restore_mouth.blend, 0, 0x3f80_0000)));
    assert(reports[1] is None <==> (within(p.masks.restore_mouth.size_factor, 0x3d4c_cccd, 0x3f19_999a)));
    assert(reports[2] is None <==> (within(p.masks.restore_mouth.radius_x, 0x3e99_999a, 0x4040_0000)));
    assert(reports[3] is None <==> (within(p.masks.restore_mouth.radius_y, 0x3e99_999a, 0x4040_0000)));
    assert(reports[4] is None <==> (within(p.masks.restore_eyes.blend, 0, 0x3f80_0000)));
    assert(reports[5] is None <==> (within(p.masks.restore_eyes.size_factor, 0x4000_0000, 0x4080_0000)));
    assert(reports[6] is None <==> (within(p.masks.restore_eyes.radius_x, 0x3e99_999a, 0x4040_0000)));
    assert(reports[7] is None <==> (within(p.masks.restore_eyes.radius_y, 0x3e99_999a, 0x4040_0000)));
    assert(reports[8] is None <==> (1 <= p.masks.restore_mouth.feather <= 100));
    assert(reports[9] is None <==> (-300 <= p.masks.restore_mouth.offset_x <= 300));
    assert(reports[10] is None <==> (-300 <= p.masks.restore_mouth.offset_y <= 300));
    assert(reports[11] is None <==> (1 <= p.masks.restore_eyes.feather <= 100));
    assert(reports[12] is None <==> (-300 <= p.masks.restore_eyes.offset_x <= 300));
    assert(reports[13] is None <==> (-300 <= p.masks.restore_eyes.offset_y <= 300));
    assert(reports[14] is None <==> (-200 <= p.masks.restore_eyes.spacing_offset <= 200));
    assert(reports[15] is None <==> (0 <= p.masks.restore_blur <= 50));
    assert(reports[16] is None <==> (0 <= p.masks.differencing.amount <= 100));
    assert(reports[17] is None <==> (0 <= p.masks.differencing.blur <= 100));
}

/// Parameters by themselves are accepted exactly where no restorer has the size that generations
/// exclude, the enhancer's blend is between zero and one, and everything else is in its range. Face
/// likeness without a target identity is never accepted.
pub proof fn parameters_are_accepted_in_range(p: FaceSwapParams, likeness_unmet: bool)
    ensures
        first_fault(params_rules(p, likeness_unmet)) is None <==> {
            &&& !likeness_unmet
            &&& !(p.restoration.first.size is Gpen1024)
            &&& !(p.restoration.second.size is Gpen1024)
            &&& within(p.enhancer.blend, 0, 0x3f80_0000)
            &&& first_fault(scalar_rules(p)) is None
            &&& first_fault(color_rules(p)) is None
            &&& first_fault(geometry_rules(p)) is None
            &&& first_fault(mask_rules(p)) is None
            &&& first_fault(restore_rules(p)) is None
        },
{
    reveal(params_rules);
    let reports = params_rules(p, likeness_unmet);
    no_first_fault_means_none(reports);
    assert(reports.len() == 8);
    assert(reports[0] is None <==> !(p.restoration.first.size is Gpen1024)
        && !(p.restoration.second.size is Gpen1024));
    assert(reports[1] is None <==> within(p.enhancer.blend, 0, 0x3f80_0000));
    assert(reports[2] == first_fault(scalar_rules(p)));
    assert(reports[3] is None <==> !likeness_unmet);
    assert(reports[4] == first_fault(color_rules(p)));
    assert(reports[5] == first_fault(geometry_rules(p)));
    assert(reports[6] == first_fault(mask_rules(p)));
    assert(reports[7] == first_fault(restore_rules(p)));
}

/// One parameter set has the models that it runs, and only these are asked for: a stage that is on
/// has its own model, a selection that names a model has the model of that name, and nothing is
/// asked of a stage that is off.
pub proof fn stages_have_their_models(device_id: i32, p: FaceSwapParams, models: ModelSet)
    ensures
        first_fault(head_rules(device_id, p, models)) is None && first_fault(
            stage_rules(p, models),
        ) is None <==> {
            &&& device_id >= 0
            &&& models.face.detector is Some
            &&& p.swapper.model is Inswapper128 ==> models.face.recognizer is Some
                && models.face.swapper is Some && models.face.emap is Some
            &&& p.swapper.model is Dfm ==> (models.face.dfm matches Some(a) && a.filename@
                == p.swapper.dfm_model@)
            &&& p.landmark.enabled ==> (models.face.landmark matches Some(a) && a.logical_name@
                == match p.landmark.mode {
                LandmarkMode::Points5 => "FaceLandmark5"@,
                LandmarkMode::Points68 => "FaceLandmark68"@,
                LandmarkMode::Points3d68 => "FaceLandmark3d68"@,
                LandmarkMode::Points98 => "FaceLandmark98"@,
                LandmarkMode::Points106 => "FaceLandmark106"@,
                LandmarkMode::Points203 => "FaceLandmark203"@,
                LandmarkMode::Points478 => "FaceLandmark478"@,
            })
            &&& p.restoration.first.enabled ==> models.finish.restorer is Some
            &&& p.restoration.second.enabled ==> models.finish.restorer2 is Some
            &&& p.restoration.first.enabled && p.restoration.first.alignment is Reference
                ==> models.finish.restorer_landmark is Some
            &&& p.restoration.second.enabled && p.restoration.second.alignment is Reference
                ==> models.finish.restorer_landmark is Some
            &&& p.masks.segmentation.occluder_enabled ==> models.finish.occluder is Some
            &&& p.masks.segmentation.xseg_enabled ==> models.finish.xseg is Some
            &&& p.masks.faceparser.enabled ==> models.finish.face_parser is Some
            &&& p.enhancer.enabled ==> (models.finish.enhancer matches Some(a) && a.logical_name@
                == match p.enhancer.model {
                EnhancerModel::RealEsrganX2Plus => "RealEsrganx2Plus"@,
                EnhancerModel::RealEsrganX4Plus => "RealEsrganx4Plus"@,
                EnhancerModel::RealEsrGeneralX4V3 => "RealEsrx4v3"@,
                EnhancerModel::BsrganX2 => "BSRGANx2"@,
                EnhancerModel::BsrganX4 => "BSRGANx4"@,
                EnhancerModel::UltraSharpX4 => "UltraSharpx4"@,
                EnhancerModel::UltraMixX4 => "UltraMixx4"@,
            })
        },
{
    reveal(head_rules);
    reveal(stage_rules);
    let head = head_rules(device_id, p, models);
    let stages = stage_rules(p, models);
    no_first_fault_means_none(head);
    no_first_fault_means_none(stages);
    assert(head.len() == 8 && stages.len() == 8);
    assert(head[0] is None <==> device_id >= 0);
    assert(head[1] is None <==> models.face.detector is Some);
    assert(head[2] is None <==> (p.swapper.model is Inswapper128 ==> models.face.recognizer is Some));
    assert(head[3] is None <==> (p.swapper.model is Inswapper128 ==> models.face.swapper is Some));
    assert(head[4] is None <==> (p.swapper.model is Inswapper128 ==> models.face.emap is Some));
    assert(head[5] is None <==> (p.swapper.model is Dfm ==> models.face.dfm is Some));
    assert(head[6] is None <==> (p.landmark.enabled ==> (models.face.landmark matches Some(a)
        && a.logical_name@ == p.landmark.mode.registry())));
    assert(head[7] is None <==> ((p.restoration.first.enabled && p.restoration.first.alignment is Reference
        || p.restoration.second.enabled && p.restoration.second.alignment is Reference)
        ==> models.finish.restorer_landmark is Some));
    assert(stages[0] is None <==> (p.restoration.first.enabled ==> models.finish.restorer is Some));
    assert(stages[1] is None <==> (p.restoration.second.enabled ==> models.finish.restorer2 is Some));
    assert(stages[2] is None <==> (p.masks.segmentation.occluder_enabled ==> models.finish.occluder is Some));
    assert(stages[3] is None <==> (p.masks.segmentation.xseg_enabled ==> models.finish.xseg is Some));
    assert(stages[4] is None <==> (p.masks.faceparser.enabled ==> models.finish.face_parser is Some));
    assert(stages[5] is None <==> (p.enhancer.enabled ==> models.finish.enhancer is Some));
    assert(stages[6] is None <==> (models.finish.enhancer matches Some(a) ==> (p.enhancer.enabled
        ==> a.logical_name@ == p.enhancer.model.registry())));
    assert(stages[7] is None <==> (models.face.dfm matches Some(a) ==> (p.swapper.model is Dfm
        ==> a.filename@ == p.swapper.dfm_model@)));
}

/// One parameter set runs the model of a role that nobody plays.
pub open spec fn lacks(p: FaceSwapParams, models: ModelSet, role: ModelRole) -> bool {
    match role {
        ModelRole::Detector => models.face.detector is None,
        ModelRole::Recognizer => p.swapper.model is Inswapper128 && models.face.recognizer is None,
        ModelRole::Swapper => p.swapper.model is Inswapper128 && models.face.swapper is None,
        ModelRole::Emap => p.swapper.model is Inswapper128 && models.face.emap is None,
        ModelRole::Dfm => p.swapper.model is Dfm && models.face.dfm is None,
        ModelRole::Landmark => p.landmark.enabled && models.face.landmark is None,
        ModelRole::Restorer => p.restoration.first.enabled && models.finish.restorer is None,
        ModelRole::Restorer2 => p.restoration.second.enabled && models.finish.restorer2 is None,
        ModelRole::RestorerLandmark => models.finish.restorer_landmark is None && (
        p.restoration.first.enabled && p.restoration.first.alignment is Reference
            || p.restoration.second.enabled && p.restoration.second.alignment is Reference),
        ModelRole::Occluder => p.masks.segmentation.occluder_enabled && models.finish.occluder is None,
        ModelRole::Xseg => p.masks.segmentation.xseg_enabled && models.finish.xseg is None,
        ModelRole::FaceParser => p.masks.faceparser.enabled && models.finish.face_parser is None,
        ModelRole::Enhancer => p.enhancer.enabled && models.finish.enhancer is None,
    }
}

proof fn missing_in_head(device_id: i32, p: FaceSwapParams, models: ModelSet, role: ModelRole)
    requires
        first_fault(head_rules(device_id, p, models)) == Some(SpecFault::MissingModel(role)),
    ensures
        lacks(p, models, role),
{
    reveal(head_rules);
    let reports = head_rules(device_id, p, models);
    let i = first_fault_is_reported(reports);
    assert(reports.len() == 8);
}

proof fn missing_in_stages(p: FaceSwapParams, models: ModelSet, role: ModelRole)
    requires
        first_fault(stage_rules(p, models)) == Some(SpecFault::MissingModel(role)),
    ensures
        lacks(p, models, role),
{
    reveal(stage_rules);
    let reports = stage_rules(p, models);
    let i = first_fault_is_reported(reports);
    assert(reports.len() == 8);
}

/// Rules of parameters by themselves tell of no missing model.
proof fn no_model_is_missing_in_parameters(p: FaceSwapParams, unmet: bool, role: ModelRole)
    ensures
        first_fault(params_rules(p, unmet)) != Some(SpecFault::MissingModel(role)),
{
    reveal(params_rules);
    reveal(scalar_rules);
    reveal(color_rules);
    reveal(geometry_rules);
    reveal(mask_rules);
    reveal(restore_rules);
    let reports = params_rules(p, unmet);
    assert(reports.len() == 8);
    if first_fault(scalar_rules(p)) is Some {
        let i = first_fault_is_reported(scalar_rules(p));
        assert(scalar_rules(p).len() == 7);
    }
    if first_fault(color_rules(p)) is Some {
        let i = first_fault_is_reported(color_rules(p));
        assert(color_rules(p).len() == 16);
    }
    if first_fault(geometry_rules(p)) is Some {
        let i = first_fault_is_reported(geometry_rules(p));
        assert(geometry_rules(p).len() == 14);
    }
    if first_fault(mask_rules(p)) is Some {
        let i = first_fault_is_reported(mask_rules(p));
        assert(mask_rules(p).len() == 19);
    }
    if first_fault(restore_rules(p)) is Some {
        let i = first_fault_is_reported(restore_rules(p));
        assert(restore_rules(p).len() == 18);
    }
    if first_fault(reports) is Some {
        let i = first_fault_is_reported(reports);
        assert(reports[i] != Some(SpecFault::MissingModel(role)));
    }
}

proof fn no_model_is_missing_in_artifacts(models: ModelSet, role: ModelRole)
    ensures
        first_fault(models_rules(models)) != Some(SpecFault::MissingModel(role)),
{
    reveal(models_rules);
    reveal(artifact_rules);
    if first_fault(models_rules(models)) is Some {
        let i = first_fault_is_reported(models_rules(models));
        let other = role_at(i);
        let a = models.artifact(other)->0;
        let j = first_fault_is_reported(artifact_rules(other, a));
        assert(artifact_rules(other, a).len() == 5);
    }
}

proof fn no_model_is_missing_in_sessions(entries: Seq<(Seq<char>, Seq<char>)>, role: ModelRole)
    ensures
        session_fault(entries) != Some(SpecFault::MissingModel(role)),
    decreases entries.len(),
{
    if entries.len() > 0 {
        no_model_is_missing_in_sessions(entries.drop_last(), role);
    }
}

/// A model is told to be missing only where a stage that is on runs it and nobody plays its role,
/// or where targets are selected by identity and nobody recognizes faces.
pub proof fn missing_model_is_one_that_is_run(spec: EngineSpec, role: ModelRole)
    requires
        first_fault(spec_rules(spec)) == Some(SpecFault::MissingModel(role)),
    ensures
        ({
            ||| lacks(spec.params, spec.models, role)
            ||| exists|i: int|
                0 <= i < spec.assignments@.len() && ((
                #[trigger] spec.assignments@[i]).params matches Some(p) && lacks(
                    p,
                    overlay(spec.models, spec.assignments@[i].models),
                    role,
                ))
            ||| {
                &&& role is Recognizer
                &&& spec.models.face.recognizer is None
                &&& exists|i: int|
                    0 <= i < spec.assignments@.len() && (
                    #[trigger] spec.assignments@[i]).target_identity_blake3 is Some
            }
        }),
{
    reveal(spec_rules);
    let reports = spec_rules(spec);
    assert(reports.len() == 8);
    no_model_is_missing_in_parameters(
        spec.params,
        likeness_unmet(spec),
        role,
    );
    no_model_is_missing_in_artifacts(spec.models, role);
    no_model_is_missing_in_sessions(sessions_up_to(spec, spec.assignments@.len()), role);
    let i = first_fault_is_reported(reports);
    if i == 0 {
        missing_in_head(spec.device_id, spec.params, spec.models, role);
    } else if i == 2 {
        reveal(assignments_rules);
        reveal(assignment_rules);
        let k = first_fault_is_reported(assignments_rules(spec));
        let own = assignment_rules(spec, k);
        let j = first_fault_is_reported(own);
        assert(own.len() == 5);
        assert(j == 4);
        let p = spec.assignments@[k].params->0;
        let models = overlay(spec.models, spec.assignments@[k].models);
        reveal(scoped_rules);
        let scoped = scoped_rules(spec.device_id, spec.identity_blake3@, p, models);
        assert(scoped.len() == 6);
        no_model_is_missing_in_parameters(p, false, role);
        no_model_is_missing_in_artifacts(models, role);
        no_model_is_missing_in_sessions(sessions_of(p, models), role);
        let s = first_fault_is_reported(scoped);
        if s == 0 {
            missing_in_head(spec.device_id, p, models, role);
        } else {
            assert(s == 5);
            missing_in_stages(p, models, role);
        }
        assert(spec.assignments@[k].params == Some(p));
    } else if i == 3 {
    } else {
        assert(i == 7);
        missing_in_stages(spec.params, spec.models, role);
    }
}

/// Sixty-four lowercase hexadecimal digits.
pub open spec fn hexadecimal(s: Seq<char>) -> bool {
    s.len() == 64 && forall|i: int|
        0 <= i < 64 ==> ('0' <= #[trigger] s[i] <= '9' || 'a' <= s[i] <= 'f')
}

proof fn hexadecimal_digit(c: char)
    ensures
        hex_digit(c) <==> ('0' <= c <= '9' || 'a' <= c <= 'f'),
{
}

proof fn digest_is_hexadecimal(field: Seq<char>, s: Seq<char>)
    ensures
        digest_fault(field, s) is None <==> hexadecimal(s),
{
    if is_digest(s) {
        assert forall|i: int| 0 <= i < 64 implies ('0' <= #[trigger] s[i] <= '9' || 'a' <= s[i]
            <= 'f') by {
            hexadecimal_digit(s[i]);
        }
    }
    if hexadecimal(s) {
        assert forall|i: int| 0 <= i < s.len() implies hex_digit(
            #[trigger] s[i],
        ) by {
            hexadecimal_digit(s[i]);
            assert('0' <= s[i] <= '9' || 'a' <= s[i] <= 'f');
        }
    }
}

/// What one parameter set with its models is refused for has nothing to do with assignments.
pub open spec fn in_order(device_id: i32, p: FaceSwapParams, models: ModelSet) -> bool {
    &&& first_fault(head_rules(device_id, p, models)) is None
    &&& first_fault(stage_rules(p, models)) is None
    &&& first_fault(params_rules(p, false)) is None
    &&& first_fault(models_rules(models)) is None
}

/// One assignment of a generation that is accepted.
pub open spec fn assignment_in_order(spec: EngineSpec, i: int) -> bool {
    let a = spec.assignments@[i];
    &&& hexadecimal(a.source_identity_blake3@)
    &&& a.target_identity_blake3 matches Some(target) ==> hexadecimal(target@)
    &&& within(a.similarity_threshold, 0, 0x3f80_0000)
    &&& a.target_identity_blake3 is None ==> i == spec.assignments@.len() - 1
    &&& match a.params {
        Some(p) => {
            &&& p.detection.score.equals(spec.params.detection.score)
            &&& p.detection.max_faces == spec.params.detection.max_faces
            &&& p.detection.auto_rotation == spec.params.detection.auto_rotation
            &&& p.detection.manual_rotation_enabled
                == spec.params.detection.manual_rotation_enabled
            &&& p.detection.manual_rotation_angle == spec.params.detection.manual_rotation_angle
            &&& p.enhancer.enabled == spec.params.enhancer.enabled
            &&& p.enhancer.model == spec.params.enhancer.model
            &&& p.enhancer.blend.equals(spec.params.enhancer.blend)
            &&& p.identity.likeness_enabled ==> a.target_identity_blake3 is Some
            &&& in_order(spec.device_id, p, overlay(spec.models, a.models))
        },
        None => forall|role: ModelRole| #[trigger] a.models.artifact(role) is None,
    }
}

proof fn override_is_in_order(spec: EngineSpec, i: int)
    requires
        0 <= i < spec.assignments@.len(),
        hexadecimal(spec.identity_blake3@),
    ensures
        override_fault(spec, i) is None <==> match spec.assignments@[i].params {
            Some(p) => {
                &&& share_generation(spec.params, p)
                &&& p.identity.likeness_enabled ==> spec.assignments@[i].target_identity_blake3
                    is Some
                &&& in_order(spec.device_id, p, overlay(spec.models, spec.assignments@[i].models))
                &&& session_fault(
                    sessions_of(p, overlay(spec.models, spec.assignments@[i].models)),
                ) is None
            },
            None => spec.assignments@[i].models.vacant(),
        },
{
    reveal(scoped_rules);
    digest_is_hexadecimal("identity_blake3"@, spec.identity_blake3@);
    if let Some(p) = spec.assignments@[i].params {
        let models = overlay(spec.models, spec.assignments@[i].models);
        let reports = scoped_rules(spec.device_id, spec.identity_blake3@, p, models);
        no_first_fault_means_none(reports);
        assert(reports.len() == 6);
        assert(reports[0] == first_fault(head_rules(spec.device_id, p, models)));
        assert(reports[1] is None);
        assert(reports[2] == session_fault(sessions_of(p, models)));
        assert(reports[3] == first_fault(params_rules(p, false)));
        assert(reports[4] == first_fault(models_rules(models)));
        assert(reports[5] == first_fault(stage_rules(p, models)));
    }
}

proof fn assignment_reports(spec: EngineSpec, i: int)
    requires
        0 <= i < spec.assignments@.len(),
        hexadecimal(spec.identity_blake3@),
        forall|k: int|
            0 <= k < spec.assignments@.len() ==> ((#[trigger] spec.assignments@[k]).params matches Some(p)
                ==> session_fault(sessions_of(p, overlay(spec.models, spec.assignments@[k].models)))
                is None),
    ensures
        first_fault(assignment_rules(spec, i)) is None <==> assignment_in_order(spec, i),
{
    reveal(assignment_rules);
    let a = spec.assignments@[i];
    let reports = assignment_rules(spec, i);
    no_first_fault_means_none(reports);
    assert(reports.len() == 5);
    digest_is_hexadecimal(
        assignment_field(i, "].source_identity_blake3"@),
        a.source_identity_blake3@,
    );
    if let Some(target) = a.target_identity_blake3 {
        digest_is_hexadecimal(
            assignment_field(i, "].target_identity_blake3"@),
            target@,
        );
    }
    override_is_in_order(spec, i);
    assert(reports[0] is None <==> hexadecimal(a.source_identity_blake3@));
    assert(reports[1] is None <==> (a.target_identity_blake3 matches Some(target) ==> hexadecimal(
        target@,
    )));
    assert(reports[2] is None <==> within(a.similarity_threshold, 0, 0x3f80_0000));
    assert(reports[3] is None <==> (a.target_identity_blake3 is None ==> i
        == spec.assignments@.len() - 1));
    assert(reports[4] == override_fault(spec, i));
}

/// No two sessions of a generation and its assignments clash where those of each part do not.
proof fn parts_do_not_clash(spec: EngineSpec, n: nat, k: int)
    requires
        n <= spec.assignments@.len(),
        0 <= k < n,
        spec.assignments@[k].params is Some,
        session_fault(sessions_up_to(spec, n)) is None,
    ensures
        session_fault(
            sessions_of(
                spec.assignments@[k].params->0,
                overlay(spec.models, spec.assignments@[k].models),
            ),
        ) is None,
    decreases n,
{
    let before = sessions_up_to(spec, (n - 1) as nat);
    let a = spec.assignments@[n - 1];
    match a.params {
        Some(p) => {
            let own = sessions_of(p, overlay(spec.models, a.models));
            faultless_parts(before, own);
            if k < n - 1 {
                parts_do_not_clash(spec, (n - 1) as nat, k);
            }
        },
        None => {
            parts_do_not_clash(spec, (n - 1) as nat, k);
        },
    }
}

/// Where sessions do not clash, neither do those before nor those behind any place.
proof fn faultless_parts(a: Seq<(Seq<char>, Seq<char>)>, b: Seq<(Seq<char>, Seq<char>)>)
    requires
        session_fault(a + b) is None,
    ensures
        session_fault(a) is None,
        session_fault(b) is None,
{
    one_model_for_each_name(a + b);
    assert forall|i: int, j: int| 0 <= i < j < a.len() && (#[trigger] a[i]).0 == (#[trigger] a[j]).0
        implies a[i].1 == a[j].1 by {
        assert((a + b)[i] == a[i] && (a + b)[j] == a[j]);
    }
    assert forall|i: int, j: int| 0 <= i < j < b.len() && (#[trigger] b[i]).0 == (#[trigger] b[j]).0
        implies b[i].1 == b[j].1 by {
        assert((a + b)[a.len() + i] == b[i] && (a + b)[a.len() + j] == b[j]);
    }
    one_model_for_each_name(a);
    one_model_for_each_name(b);
}

/// Sessions are accepted exactly where two of the same name run the same model.
pub proof fn one_model_for_each_name(entries: Seq<(Seq<char>, Seq<char>)>)
    ensures
        session_fault(entries) is None <==> forall|i: int, j: int|
            0 <= i < j < entries.len() && (#[trigger] entries[i]).0 == (#[trigger] entries[j]).0
                ==> entries[i].1 == entries[j].1,
    decreases entries.len(),
{
    if entries.len() > 0 {
        let front = entries.drop_last();
        let n = front.len() as int;
        one_model_for_each_name(front);
        if session_fault(entries) is None {
            assert forall|i: int, j: int|
                0 <= i < j < entries.len() && (#[trigger] entries[i]).0 == (
                #[trigger] entries[j]).0 implies entries[i].1 == entries[j].1 by {
                assert(front[i] == entries[i]);
                if j < n {
                    assert(front[j] == entries[j]);
                }
            }
        } else if forall|i: int, j: int|
            0 <= i < j < entries.len() && (#[trigger] entries[i]).0 == (#[trigger] entries[j]).0
                ==> entries[i].1 == entries[j].1 {
            assert forall|i: int, j: int|
                0 <= i < j < front.len() && (#[trigger] front[i]).0 == (#[trigger] front[j]).0
                implies front[i].1 == front[j].1 by {
                assert(front[i] == entries[i] && front[j] == entries[j]);
            }
            let i = choose|i: int|
                0 <= i < front.len() && (#[trigger] front[i]).0 == entries.last().0 && front[i].1
                    != entries.last().1;
            assert(entries[i] == front[i] && entries[n] == entries.last());
            assert(false);
        }
    }
}

/// A generation is accepted exactly where its identity is a digest, its parameters and models are
/// in order, every assignment is, somebody recognizes faces where targets are selected by identity,
/// face likeness has a target everywhere, and no runtime session stands for two models.
pub proof fn generation_is_accepted_in_order(spec: EngineSpec)
    ensures
        spec.valid() <==> {
            &&& in_order(spec.device_id, spec.params, spec.models)
            &&& hexadecimal(spec.identity_blake3@)
            &&& forall|i: int|
                0 <= i < spec.assignments@.len() ==> #[trigger] assignment_in_order(spec, i)
            &&& (exists|i: int|
                0 <= i < spec.assignments@.len() && (
                #[trigger] spec.assignments@[i]).target_identity_blake3 is Some) ==> (
            spec.models.face.recognizer is Some || exists|i: int|
                0 <= i < spec.assignments@.len() && (
                #[trigger] spec.assignments@[i]).models.face.recognizer is Some)
            &&& spec.params.identity.likeness_enabled ==> spec.assignments@.len() > 0 && forall|i: int|
                0 <= i < spec.assignments@.len() ==> (
                #[trigger] spec.assignments@[i]).target_identity_blake3 is Some
            &&& session_fault(sessions_up_to(spec, spec.assignments@.len())) is None
        },
{
    reveal(spec_rules);
    reveal(assignments_rules);
    let n = spec.assignments@.len();
    let reports = spec_rules(spec);
    let own = assignments_rules(spec);
    no_first_fault_means_none(reports);
    no_first_fault_means_none(own);
    digest_is_hexadecimal("identity_blake3"@, spec.identity_blake3@);
    assert(reports.len() == 8);
    let unmet = likeness_unmet(spec);
    parameters_are_accepted_in_range(spec.params, unmet);
    parameters_are_accepted_in_range(spec.params, false);
    assert(reports[0] == first_fault(head_rules(spec.device_id, spec.params, spec.models)));
    assert(reports[1] is None <==> hexadecimal(spec.identity_blake3@));
    assert(reports[2] == first_fault(own));
    assert(reports[3] == recognizer_fault(spec));
    assert(reports[4] == session_fault(sessions_up_to(spec, n)));
    assert(reports[5] == first_fault(params_rules(spec.params, unmet)));
    assert(reports[6] == first_fault(models_rules(spec.models)));
    assert(reports[7] == first_fault(stage_rules(spec.params, spec.models)));
    if session_fault(sessions_up_to(spec, n)) is None && hexadecimal(spec.identity_blake3@) {
        assert forall|k: int| 0 <= k < n implies ((#[trigger] spec.assignments@[k]).params matches Some(p)
            ==> session_fault(sessions_of(p, overlay(spec.models, spec.assignments@[k].models)))
            is None) by {
            if spec.assignments@[k].params is Some {
                parts_do_not_clash(spec, n, k);
            }
        }
        assert forall|i: int| 0 <= i < n implies (#[trigger] own[i] is None <==> assignment_in_order(
            spec,
            i,
        )) by {
            assignment_reports(spec, i);
        }
        if first_fault(own) is None {
            assert forall|i: int| 0 <= i < n implies #[trigger] assignment_in_order(spec, i) by {
                assert(own[i] is None);
            }
        }
        if forall|i: int| 0 <= i < n ==> #[trigger] assignment_in_order(spec, i) {
            assert forall|i: int| 0 <= i < own.len() implies #[trigger] own[i] is None by {
                assert(assignment_in_order(spec, i));
            }
        }
    }
    assert(brings_recognizer(spec) <==> exists|i: int|
        0 <= i < n && (#[trigger] spec.assignments@[i]).models.face.recognizer is Some) by {
        if brings_recognizer(spec) {
            let i = choose|i: int|
                0 <= i < n && (#[trigger] spec.assignments@[i]).models.artifact(
                    ModelRole::Recognizer,
                ) is Some;
            assert(spec.assignments@[i].models.face.recognizer is Some);
        }
        if exists|i: int| 0 <= i < n && (#[trigger] spec.assignments@[i]).models.face.recognizer
            is Some {
            let i = choose|i: int|
                0 <= i < n && (#[trigger] spec.assignments@[i]).models.face.recognizer is Some;
            assert(spec.assignments@[i].models.artifact(ModelRole::Recognizer) is Some);
        }
    }
}

/// A stage that is on has its own model in every generation that is accepted: no engine is built
/// whose occluder, parser, restorer or enhancer has nothing to run.
pub proof fn accepted_generation_runs_its_stages(spec: EngineSpec)
    requires
        spec.valid(),
    ensures
        spec.device_id >= 0,
        spec.models.face.detector is Some,
        spec.params.masks.segmentation.occluder_enabled ==> spec.models.finish.occluder is Some,
        spec.params.masks.segmentation.xseg_enabled ==> spec.models.finish.xseg is Some,
        spec.params.masks.faceparser.enabled ==> spec.models.finish.face_parser is Some,
        spec.params.restoration.first.enabled ==> spec.models.finish.restorer is Some,
        spec.params.restoration.second.enabled ==> spec.models.finish.restorer2 is Some,
        spec.params.enhancer.enabled ==> spec.models.finish.enhancer is Some,
        spec.params.landmark.enabled ==> spec.models.face.landmark is Some,
        spec.params.swapper.model is Inswapper128 ==> spec.models.face.recognizer is Some
            && spec.models.face.swapper is Some && spec.models.face.emap is Some,
        spec.params.swapper.model is Dfm ==> spec.models.face.dfm is Some,
        forall|i: int|
            0 <= i < spec.assignments@.len() ==> ((#[trigger] spec.assignments@[i]).params
                matches Some(p) ==> {
                let own = spec.assignments@[i].models;
                &&& p.masks.segmentation.occluder_enabled ==> own.finish.occluder is Some
                    || spec.models.finish.occluder is Some
                &&& p.masks.segmentation.xseg_enabled ==> own.finish.xseg is Some
                    || spec.models.finish.xseg is Some
                &&& p.masks.faceparser.enabled ==> own.finish.face_parser is Some
                    || spec.models.finish.face_parser is Some
                &&& p.restoration.first.enabled ==> own.finish.restorer is Some
                    || spec.models.finish.restorer is Some
                &&& p.restoration.second.enabled ==> own.finish.restorer2 is Some
                    || spec.models.finish.restorer2 is Some
                &&& p.landmark.enabled ==> own.face.landmark is Some || spec.models.face.landmark
                    is Some
                &&& p.swapper.model is Dfm ==> own.face.dfm is Some || spec.models.face.dfm is Some
            }),
{
    generation_is_accepted_in_order(spec);
    stages_have_their_models(spec.device_id, spec.params, spec.models);
    assert forall|i: int| 0 <= i < spec.assignments@.len() implies ((
    #[trigger] spec.assignments@[i]).params matches Some(p) ==> {
        let own = spec.assignments@[i].models;
        &&& p.masks.segmentation.occluder_enabled ==> own.finish.occluder is Some
            || spec.models.finish.occluder is Some
        &&& p.masks.segmentation.xseg_enabled ==> own.finish.xseg is Some
            || spec.models.finish.xseg is Some
        &&& p.masks.faceparser.enabled ==> own.finish.face_parser is Some
            || spec.models.finish.face_parser is Some
        &&& p.restoration.first.enabled ==> own.finish.restorer is Some
            || spec.models.finish.restorer is Some
        &&& p.restoration.second.enabled ==> own.finish.restorer2 is Some
            || spec.models.finish.restorer2 is Some
        &&& p.landmark.enabled ==> own.face.landmark is Some || spec.models.face.landmark is Some
        &&& p.swapper.model is Dfm ==> own.face.dfm is Some || spec.models.face.dfm is Some
    }) by {
        assert(assignment_in_order(spec, i));
        if let Some(p) = spec.assignments@[i].params {
            stages_have_their_models(
                spec.device_id,
                p,
                overlay(spec.models, spec.assignments@[i].models),
            );
        }
    }
}

/// The models of a generation are accepted exactly where every one of them has a name and a file
/// that are not blank, the file stays below the directory of models, its digest is sixty-four
/// lowercase hexadecimal digits, and a restorer is one of those that are supported.
pub proof fn artifacts_are_in_order(models: ModelSet)
    ensures
        first_fault(models_rules(models)) is None <==> forall|role: ModelRole|
            (#[trigger] models.artifact(role)) matches Some(a) ==> {
                &&& exists|i: int|
                    0 <= i < a.logical_name@.len() && !white_space(#[trigger] a.logical_name@[i])
                &&& exists|i: int|
                    0 <= i < a.filename@.len() && !white_space(#[trigger] a.filename@[i])
                &&& stays_inside(a.filename@)
                &&& hexadecimal(a.blake3@)
                &&& role is Restorer || role is Restorer2 ==> supported_restorer(a.logical_name@)
            },
{
    reveal(models_rules);
    let reports = models_rules(models);
    no_first_fault_means_none(reports);
    assert forall|role: ModelRole| #[trigger] models.artifact(role) is Some implies (role_fault(
        models,
        role,
    ) is None <==> {
        let a = models.artifact(role)->0;
        &&& exists|i: int|
            0 <= i < a.logical_name@.len() && !white_space(#[trigger] a.logical_name@[i])
        &&& exists|i: int| 0 <= i < a.filename@.len() && !white_space(#[trigger] a.filename@[i])
        &&& stays_inside(a.filename@)
        &&& hexadecimal(a.blake3@)
        &&& role is Restorer || role is Restorer2 ==> supported_restorer(a.logical_name@)
    }) by {
        let a = models.artifact(role)->0;
        reveal(artifact_rules);
        let own = artifact_rules(role, a);
        no_first_fault_means_none(own);
        digest_is_hexadecimal("models."@ + role.name() + ".blake3"@, a.blake3@);
        assert(own.len() == 5);
        assert(own[0] is None <==> !blank(a.logical_name@));
        assert(own[1] is None <==> !blank(a.filename@));
        assert(own[2] is None <==> stays_inside(a.filename@));
        assert(own[3] is None <==> hexadecimal(a.blake3@));
        assert(own[4] is None <==> (role is Restorer || role is Restorer2 ==> supported_restorer(
            a.logical_name@,
        )));
    }
    if first_fault(reports) is None {
        assert forall|role: ModelRole| #[trigger] models.artifact(role) is Some implies role_fault(
            models,
            role,
        ) is None by {
            every_role_has_its_place(role);
            assert(reports[role.place()] == role_fault(models, role));
        }
    }
    if forall|role: ModelRole| #[trigger] models.artifact(role) is Some ==> role_fault(models, role)
        is None {
        assert forall|i: int| 0 <= i < reports.len() implies #[trigger] reports[i] is None by {
            assert(reports[i] == role_fault(models, role_at(i)));
            assert(models.artifact(role_at(i)) is Some || models.artifact(role_at(i)) is None);
        }
    }
}

/// Restorers are told by the letters and digits of their names, letter case aside: what else
/// stands between them does not count.
pub proof fn restorers_are_told_by_letters(a: Seq<char>, b: Seq<char>, c: char)
    ensures
        restorer_key(a + b) == restorer_key(a) + restorer_key(b),
        restorer_key(seq![c]) == if '0' <= c <= '9' || 'A' <= c <= 'Z' {
            seq![c]
        } else if 'a' <= c <= 'z' {
            seq![(c as u32 - 32) as char]
        } else {
            Seq::empty()
        },
        restorer_key(Seq::empty()) == Seq::<char>::empty(),
    decreases b.len(),
{
    assert(seq![c].drop_last() =~= Seq::<char>::empty());
    assert(seq![c].last() == c);
    assert(restorer_key(seq![c].drop_last()) =~= Seq::<char>::empty());
    assert(Seq::<char>::empty().push(c) =~= seq![c]);
    if 'a' <= c <= 'z' {
        assert(restorer_key(seq![c]) =~= seq![(c as u32 - 32) as char]);
    } else if '0' <= c <= '9' || 'A' <= c <= 'Z' {
        assert(restorer_key(seq![c]) =~= seq![c]);
    }
    if b.len() == 0 {
        assert(a + b =~= a);
        assert(restorer_key(a) + restorer_key(b) =~= restorer_key(a));
    } else {
        restorers_are_told_by_letters(a, b.drop_last(), c);
        assert((a + b).drop_last() =~= a + b.drop_last());
        assert((a + b).last() == b.last());
        assert(restorer_key(a + b) =~= restorer_key(a) + restorer_key(b));
    }
}

/// A parameter set with its models runs a session of the given name on the model of the given
/// digest.
pub open spec fn runs(
    p: FaceSwapParams,
    models: ModelSet,
    name: Seq<char>,
    digest: Seq<char>,
) -> bool {
    ||| p.swapper.model is Inswapper128 && name == "Inswapper128ArcFace"@ && is_model(
        models.face.recognizer,
        digest,
    )
    ||| p.swapper.model is Inswapper128 && name == "Inswapper128"@ && is_model(
        models.face.swapper,
        digest,
    )
    ||| p.swapper.model is Inswapper128 && name == "InswapperEMap"@ && is_model(
        models.face.emap,
        digest,
    )
    ||| p.landmark.enabled && name == p.landmark.mode.registry() && is_model(
        models.face.landmark,
        digest,
    )
    ||| p.restoration.first.enabled && is_model(models.finish.restorer, digest) && name
        == match p.restoration.first.size {
        RestorerSize::Gpen256 => "GPENBFR256"@,
        RestorerSize::Gpen512 => "GPENBFR512"@,
        RestorerSize::Gpen1024 => "GPENBFR1024"@,
    }
    ||| p.restoration.second.enabled && is_model(models.finish.restorer2, digest) && name
        == match p.restoration.second.size {
        RestorerSize::Gpen256 => "GPENBFR256_2"@,
        RestorerSize::Gpen512 => "GPENBFR512_2"@,
        RestorerSize::Gpen1024 => "GPENBFR1024_2"@,
    }
    ||| p.masks.segmentation.occluder_enabled && name == "Occluder"@ && is_model(
        models.finish.occluder,
        digest,
    )
    ||| p.masks.segmentation.xseg_enabled && name == "XSeg"@ && is_model(
        models.finish.xseg,
        digest,
    )
    ||| p.masks.faceparser.enabled && name == "FaceParser"@ && is_model(
        models.finish.face_parser,
        digest,
    )
}

/// There is a model, and it has the given digest.
pub open spec fn is_model(artifact: Option<ModelArtifact>, digest: Seq<char>) -> bool {
    artifact matches Some(a) && a.blake3@ == digest
}

proof fn bound_sessions_are_those(
    roles: Seq<(Seq<char>, ModelRole)>,
    models: ModelSet,
    name: Seq<char>,
    digest: Seq<char>,
)
    ensures
        bound_sessions(roles, models).contains((name, digest)) <==> exists|i: int|
            0 <= i < roles.len() && (#[trigger] roles[i]).0 == name && is_model(
                models.artifact(roles[i].1),
                digest,
            ),
    decreases roles.len(),
{
    if roles.len() > 0 {
        let front = roles.drop_last();
        let n = front.len() as int;
        bound_sessions_are_those(front, models, name, digest);
        let before = bound_sessions(front, models);
        let all = bound_sessions(roles, models);
        if all.contains((name, digest)) {
            let k = choose|k: int| 0 <= k < all.len() && all[k] == (name, digest);
            if k < before.len() {
                assert(before[k] == all[k]);
                assert(before.contains((name, digest)));
                let i = choose|i: int|
                    0 <= i < front.len() && (#[trigger] front[i]).0 == name && is_model(
                        models.artifact(front[i].1),
                        digest,
                    );
                assert(roles[i] == front[i]);
            } else {
                assert(roles[n].0 == name);
            }
        }
        if exists|i: int|
            0 <= i < roles.len() && (#[trigger] roles[i]).0 == name && is_model(
                models.artifact(roles[i].1),
                digest,
            ) {
            let i = choose|i: int|
                0 <= i < roles.len() && (#[trigger] roles[i]).0 == name && is_model(
                    models.artifact(roles[i].1),
                    digest,
                );
            if i < n {
                assert(front[i] == roles[i]);
                let k = choose|k: int| 0 <= k < before.len() && before[k] == (name, digest);
                assert(all[k] == before[k]);
            } else {
                assert(all[before.len() as int] == (name, digest));
            }
        }
    }
}

proof fn optional_entry<T>(present: bool, entry: T, other: Seq<T>, x: T)
    ensures
        (other + optional(present, entry)).contains(x) <==> other.contains(x) || (present && x
            == entry),
{
    let all = other + optional(present, entry);
    if other.contains(x) {
        let i = choose|i: int| 0 <= i < other.len() && other[i] == x;
        assert(all[i] == x);
    }
    if present {
        assert(all[other.len() as int] == entry);
    }
}

/// The sessions of a parameter set are those that its stages run.
#[verifier::spinoff_prover]
pub proof fn sessions_are_run(
    p: FaceSwapParams,
    models: ModelSet,
    name: Seq<char>,
    digest: Seq<char>,
)
    ensures
        sessions_of(p, models).contains((name, digest)) <==> runs(p, models, name, digest),
{
    let roles = session_roles(p);
    assert forall|x: (Seq<char>, ModelRole)| #[trigger] roles.contains(x) <==> {
        let inswapper = p.swapper.model is Inswapper128;
        ||| inswapper && x == ("Inswapper128ArcFace"@, ModelRole::Recognizer)
        ||| inswapper && x == ("Inswapper128"@, ModelRole::Swapper)
        ||| inswapper && x == ("InswapperEMap"@, ModelRole::Emap)
        ||| p.landmark.enabled && x == (p.landmark.mode.registry(), ModelRole::Landmark)
        ||| p.restoration.first.enabled && x == (
            restorer_session(p.restoration.first.size, false),
            ModelRole::Restorer,
        )
        ||| p.restoration.second.enabled && x == (
            restorer_session(p.restoration.second.size, true),
            ModelRole::Restorer2,
        )
        ||| p.masks.segmentation.occluder_enabled && x == ("Occluder"@, ModelRole::Occluder)
        ||| p.masks.segmentation.xseg_enabled && x == ("XSeg"@, ModelRole::Xseg)
        ||| p.masks.faceparser.enabled && x == ("FaceParser"@, ModelRole::FaceParser)
    } by {
        reveal(session_roles);
        let inswapper = p.swapper.model == SwapperModel::Inswapper128;
        let s0 = Seq::<(Seq<char>, ModelRole)>::empty();
        optional_entry(inswapper, ("Inswapper128ArcFace"@, ModelRole::Recognizer), s0, x);
        let s1 = optional(inswapper, ("Inswapper128ArcFace"@, ModelRole::Recognizer));
        assert(s0 + s1 =~= s1);
        optional_entry(inswapper, ("Inswapper128"@, ModelRole::Swapper), s1, x);
        let s2 = s1 + optional(inswapper, ("Inswapper128"@, ModelRole::Swapper));
        optional_entry(inswapper, ("InswapperEMap"@, ModelRole::Emap), s2, x);
        let s3 = s2 + optional(inswapper, ("InswapperEMap"@, ModelRole::Emap));
        let mark = (p.landmark.mode.registry(), ModelRole::Landmark);
        optional_entry(p.landmark.enabled, mark, s3, x);
        let s4 = s3 + optional(p.landmark.enabled, mark);
        let first = (restorer_session(p.restoration.first.size, false), ModelRole::Restorer);
        optional_entry(p.restoration.first.enabled, first, s4, x);
        let s5 = s4 + optional(p.restoration.first.enabled, first);
        let second = (restorer_session(p.restoration.second.size, true), ModelRole::Restorer2);
        optional_entry(p.restoration.second.enabled, second, s5, x);
        let s6 = s5 + optional(p.restoration.second.enabled, second);
        let occluder = ("Occluder"@, ModelRole::Occluder);
        optional_entry(p.masks.segmentation.occluder_enabled, occluder, s6, x);
        let s7 = s6 + optional(p.masks.segmentation.occluder_enabled, occluder);
        let xseg = ("XSeg"@, ModelRole::Xseg);
        optional_entry(p.masks.segmentation.xseg_enabled, xseg, s7, x);
        let s8 = s7 + optional(p.masks.segmentation.xseg_enabled, xseg);
        let parser = ("FaceParser"@, ModelRole::FaceParser);
        optional_entry(p.masks.faceparser.enabled, parser, s8, x);
    }
    bound_sessions_are_those(roles, models, name, digest);
    if sessions_of(p, models).contains((name, digest)) {
        let i = choose|i: int|
            0 <= i < roles.len() && (#[trigger] roles[i]).0 == name && is_model(
                models.artifact(roles[i].1),
                digest,
            );
        assert(roles.contains(roles[i]));
    }
    if runs(p, models, name, digest) {
        let role = if p.swapper.model is Inswapper128 && name == "Inswapper128ArcFace"@ && is_model(
            models.face.recognizer,
            digest,
        ) {
            ModelRole::Recognizer
        } else if p.swapper.model is Inswapper128 && name == "Inswapper128"@ && is_model(
            models.face.swapper,
            digest,
        ) {
            ModelRole::Swapper
        } else if p.swapper.model is Inswapper128 && name == "InswapperEMap"@ && is_model(
            models.face.emap,
            digest,
        ) {
            ModelRole::Emap
        } else if p.landmark.enabled && name == p.landmark.mode.registry() && is_model(
            models.face.landmark,
            digest,
        ) {
            ModelRole::Landmark
        } else if p.restoration.first.enabled && is_model(models.finish.restorer, digest) && name
            == restorer_session(p.restoration.first.size, false) {
            ModelRole::Restorer
        } else if p.restoration.second.enabled && is_model(models.finish.restorer2, digest) && name
            == restorer_session(p.restoration.second.size, true) {
            ModelRole::Restorer2
        } else if p.masks.segmentation.occluder_enabled && name == "Occluder"@ && is_model(
            models.finish.occluder,
            digest,
        ) {
            ModelRole::Occluder
        } else if p.masks.segmentation.xseg_enabled && name == "XSeg"@ && is_model(
            models.finish.xseg,
            digest,
        ) {
            ModelRole::Xseg
        } else {
            ModelRole::FaceParser
        };
        assert(roles.contains((name, role)));
        let i = choose|i: int| 0 <= i < roles.len() && roles[i] == (name, role);
        assert(roles[i].0 == name && is_model(models.artifact(roles[i].1), digest));
    }
}

/// A parameter set with its models that is in force somewhere in a generation.
pub open spec fn in_force(spec: EngineSpec, p: FaceSwapParams, models: ModelSet) -> bool {
    ||| p == spec.params && models == spec.models
    ||| exists|i: int|
        0 <= i < spec.assignments@.len() && (#[trigger] spec.assignments@[i]).params == Some(p)
            && models == overlay(spec.models, spec.assignments@[i].models)
}

proof fn part_is_among_all(spec: EngineSpec, n: nat, i: int, e: (Seq<char>, Seq<char>))
    requires
        n <= spec.assignments@.len(),
        -1 <= i < n,
        i == -1 ==> sessions_of(spec.params, spec.models).contains(e),
        i >= 0 ==> (spec.assignments@[i].params matches Some(p) && sessions_of(
            p,
            overlay(spec.models, spec.assignments@[i].models),
        ).contains(e)),
    ensures
        sessions_up_to(spec, n).contains(e),
    decreases n,
{
    if n > 0 {
        let before = sessions_up_to(spec, (n - 1) as nat);
        let all = sessions_up_to(spec, n);
        if i < n - 1 {
            part_is_among_all(spec, (n - 1) as nat, i, e);
            let k = choose|k: int| 0 <= k < before.len() && before[k] == e;
            assert(all[k] == e);
        } else {
            let p = spec.assignments@[i].params->0;
            let own = sessions_of(p, overlay(spec.models, spec.assignments@[i].models));
            let k = choose|k: int| 0 <= k < own.len() && own[k] == e;
            assert(all[before.len() + k] == e);
        }
    }
}

/// In a generation that is accepted, a runtime session runs one model, whoever asks for it.
pub proof fn accepted_sessions_run_one_model(
    spec: EngineSpec,
    p: FaceSwapParams,
    models: ModelSet,
    q: FaceSwapParams,
    others: ModelSet,
    name: Seq<char>,
    a: Seq<char>,
    b: Seq<char>,
)
    requires
        spec.valid(),
        in_force(spec, p, models),
        in_force(spec, q, others),
        runs(p, models, name, a),
        runs(q, others, name, b),
    ensures
        a == b,
{
    generation_is_accepted_in_order(spec);
    let n = spec.assignments@.len();
    let all = sessions_up_to(spec, n);
    sessions_are_run(p, models, name, a);
    sessions_are_run(q, others, name, b);
    let i = if p == spec.params && models == spec.models {
        -1
    } else {
        choose|i: int|
            0 <= i < spec.assignments@.len() && (#[trigger] spec.assignments@[i]).params == Some(p)
                && models == overlay(spec.models, spec.assignments@[i].models)
    };
    let j = if q == spec.params && others == spec.models {
        -1
    } else {
        choose|j: int|
            0 <= j < spec.assignments@.len() && (#[trigger] spec.assignments@[j]).params == Some(q)
                && others == overlay(spec.models, spec.assignments@[j].models)
    };
    part_is_among_all(spec, n, i, (name, a));
    part_is_among_all(spec, n, j, (name, b));
    one_model_for_each_name(all);
    let x = choose|x: int| 0 <= x < all.len() && all[x] == (name, a);
    let y = choose|y: int| 0 <= y < all.len() && all[y] == (name, b);
    assert(all[x].0 == all[y].0);
    if x < y {
        assert(all[x].1 == all[y].1);
    } else if y < x {
        assert(all[y].1 == all[x].1);
    }
}

/// The sessions of one parameter set never clash: each has a name of its own.
#[verifier::spinoff_prover]
pub proof fn one_parameter_set_never_clashes(p: FaceSwapParams, models: ModelSet)
    ensures
        session_fault(sessions_of(p, models)) is None,
{
    let all = sessions_of(p, models);
    one_model_for_each_name(all);
    assert forall|i: int, j: int|
        0 <= i < j < all.len() && (#[trigger] all[i]).0 == (#[trigger] all[j]).0 implies all[i].1
        == all[j].1 by {
        let name = all[i].0;
        assert(all.contains(all[i]) && all.contains(all[j]));
        sessions_are_run(p, models, name, all[i].1);
        sessions_are_run(p, models, name, all[j].1);
        assert(all[i] == (name, all[i].1) && all[j] == (name, all[j].1));
        session_names_differ();
    }
}

proof fn session_names_differ()
    ensures
        "Inswapper128ArcFace"@.len() == 19 && "Inswapper128ArcFace"@[0] == 'I',
        "Inswapper128"@.len() == 12 && "Inswapper128"@[0] == 'I',
        "InswapperEMap"@.len() == 13 && "InswapperEMap"@[0] == 'I',
        "GPENBFR256"@.len() == 10 && "GPENBFR256"@[0] == 'G',
        "GPENBFR512"@.len() == 10 && "GPENBFR512"@[0] == 'G',
        "GPENBFR1024"@.len() == 11 && "GPENBFR1024"@[0] == 'G',
        "GPENBFR256_2"@.len() == 12 && "GPENBFR256_2"@[0] == 'G',
        "GPENBFR512_2"@.len() == 12 && "GPENBFR512_2"@[0] == 'G',
        "GPENBFR1024_2"@.len() == 13 && "GPENBFR1024_2"@[0] == 'G',
        "Occluder"@.len() == 8 && "Occluder"@[0] == 'O',
        "XSeg"@.len() == 4 && "XSeg"@[0] == 'X',
        "FaceParser"@.len() == 10 && "FaceParser"@[0] == 'F',
        forall|mode: LandmarkMode| #[trigger] mode.registry().len() >= 13 && mode.registry()[0] == 'F',
{
    reveal_strlit("Inswapper128ArcFace");
    reveal_strlit("Inswapper128");
    reveal_strlit("InswapperEMap");
    reveal_strlit("GPENBFR256");
    reveal_strlit("GPENBFR512");
    reveal_strlit("GPENBFR1024");
    reveal_strlit("GPENBFR256_2");
    reveal_strlit("GPENBFR512_2");
    reveal_strlit("GPENBFR1024_2");
    reveal_strlit("Occluder");
    reveal_strlit("XSeg");
    reveal_strlit("FaceParser");
    reveal_strlit("FaceLandmark5");
    reveal_strlit("FaceLandmark68");
    reveal_strlit("FaceLandmark3d68");
    reveal_strlit("FaceLandmark98");
    reveal_strlit("FaceLandmark106");
    reveal_strlit("FaceLandmark203");
    reveal_strlit("FaceLandmark478");
}

/// A fresh session is in order on any device, once the models that it runs are there: the
/// detector, the recognizer, the swapper and its map.
#[verifier::spinoff_prover]
pub proof fn fresh_parameters_are_in_order(p: FaceSwapParams, device_id: i32, models: ModelSet)
    requires
        fresh_params(p),
        device_id >= 0,
    ensures
        first_fault(params_rules(p, false)) is None,
        first_fault(head_rules(device_id, p, models)) is None && first_fault(
            stage_rules(p, models),
        ) is None <==> models.face.detector is Some && models.face.recognizer is Some
            && models.face.swapper is Some && models.face.emap is Some,
{
    parameters_are_accepted_in_range(p, false);
    detection_swap_and_identity_are_in_range(p);
    color_and_finish_are_in_range(p);
    geometry_is_in_range(p);
    segmentation_and_parser_are_in_range(p);
    restored_regions_are_in_range(p);
    stages_have_their_models(device_id, p, models);
}

/// The artifacts that an assignment adds bring its own models back: laid over those of the
/// generation they play every role as the assignment's own do, the detector and the enhancer aside,
/// which belong to the generation. Nothing is added that the generation has already.
pub proof fn added_models_bring_their_own_back(
    added: ModelSet,
    local: ModelSet,
    base: ModelSet,
    role: ModelRole,
)
    requires
        own_models(added, local, base),
    ensures
        added.face.detector is None && added.finish.enhancer is None,
        !(role is Detector) && !(role is Enhancer) ==> (local.artifact(role) matches Some(a) ==> (
        overlay(base, added).artifact(role) matches Some(b) && b.logical_name@ == a.logical_name@
            && b.filename@ == a.filename@ && b.blake3@ == a.blake3@)),
        added.artifact(role) matches Some(a) ==> local.artifact(role) == Some(a) && (base.artifact(
            role,
        ) matches Some(b) ==> !(b.logical_name@ == a.logical_name@ && b.filename@ == a.filename@
            && b.blake3@ == a.blake3@)),
{
    assert(added.artifact(ModelRole::Detector) == own_artifact(local, base, ModelRole::Detector));
    assert(added.artifact(ModelRole::Enhancer) == own_artifact(local, base, ModelRole::Enhancer));
    assert(added.artifact(role) == own_artifact(local, base, role));
    overlay_prefers_over(base, added, role);
}

} // verus!
