//! How a refused set of parameters is told: by the name of a setting that is out of range, and its
//! value.

use vstd::prelude::*;

use crate::config::FaceSwapParams;
use crate::engine::rules::{
    color_rules, geometry_rules, mask_rules, restore_rules, scalar_rules, SpecFault,
};
use crate::number::Single;
use crate::reports::{first_fault, first_fault_is_reported};

verus! {

/// The setting `control` is refused, whose value is `x`.
pub open spec fn real_refused(fault: SpecFault, control: Seq<char>, x: Single) -> bool {
    fault matches SpecFault::InvalidFloatControl { control: named, value, min, max } && named
        == control && value == x && !x.within(min, max)
}

/// The setting `control` is refused, whose value is `n`.
pub open spec fn whole_refused(fault: SpecFault, control: Seq<char>, n: int) -> bool {
    fault matches SpecFault::InvalidMaskControl { control: named, value, .. } && named == control
        && value == n
}

/// A setting of the swapper, of detection or of the identity that is refused is told by its
/// name and its value.
pub proof fn refused_detection_and_identity_are_named(p: FaceSwapParams)
    requires
        first_fault(scalar_rules(p)) is Some,
    ensures
        ({
            let fault = first_fault(scalar_rules(p))->0;
            ||| real_refused(fault, "dfm_morph"@, p.swapper.dfm_morph)
            ||| real_refused(fault, "detector_score"@, p.detection.score)
            ||| whole_refused(fault, "max_faces"@, p.detection.max_faces as i64 as int)
            ||| whole_refused(
                fault,
                "manual_rotation_angle"@,
                p.detection.manual_rotation_angle as int,
            )
            ||| real_refused(fault, "landmark_score"@, p.landmark.score)
            ||| real_refused(fault, "strength"@, p.identity.strength)
            ||| real_refused(fault, "face_likeness_factor"@, p.identity.likeness_factor)
        }),
{
    reveal(scalar_rules);
    let reports = scalar_rules(p);
    assert(reports.len() == 7);
    assert(reports[0] is Some ==> real_refused(reports[0]->0, "dfm_morph"@, p.swapper.dfm_morph));
    assert(reports[1] is Some ==> real_refused(
        reports[1]->0,
        "detector_score"@,
        p.detection.score,
    ));
    assert(reports[2] is Some ==> whole_refused(
        reports[2]->0,
        "max_faces"@,
        p.detection.max_faces as i64 as int,
    ));
    assert(reports[3] is Some ==> whole_refused(
        reports[3]->0,
        "manual_rotation_angle"@,
        p.detection.manual_rotation_angle as int,
    ));
    assert(reports[4] is Some ==> real_refused(
        reports[4]->0,
        "landmark_score"@,
        p.landmark.score,
    ));
    assert(reports[5] is Some ==> real_refused(reports[5]->0, "strength"@, p.identity.strength));
    assert(reports[6] is Some ==> real_refused(
        reports[6]->0,
        "face_likeness_factor"@,
        p.identity.likeness_factor,
    ));
    let i = first_fault_is_reported(reports);
}

/// A setting of the colors or of the finish that is refused is told by its name and its value.
pub proof fn refused_color_and_finish_are_named(p: FaceSwapParams)
    requires
        first_fault(color_rules(p)) is Some,
    ensures
        ({
            let fault = first_fault(color_rules(p))->0;
            ||| real_refused(fault, "auto_color.blend"@, p.color.auto.blend)
            ||| real_refused(fault, "restorer_alpha"@, p.restoration.first.alpha)
            ||| real_refused(fault, "restorer2_alpha"@, p.restoration.second.alpha)
            ||| real_refused(fault, "color_adjust.red"@, p.color.adjust.red)
            ||| real_refused(fault, "color_adjust.green"@, p.color.adjust.green)
            ||| real_refused(fault, "color_adjust.blue"@, p.color.adjust.blue)
            ||| real_refused(fault, "color_adjust.brightness"@, p.color.adjust.brightness)
            ||| real_refused(fault, "color_adjust.contrast"@, p.color.adjust.contrast)
            ||| real_refused(fault, "color_adjust.saturation"@, p.color.adjust.saturation)
            ||| real_refused(fault, "color_adjust.sharpness"@, p.color.adjust.sharpness)
            ||| real_refused(fault, "color_adjust.hue"@, p.color.adjust.hue)
            ||| real_refused(fault, "color_adjust.gamma"@, p.color.adjust.gamma)
            ||| real_refused(fault, "color_adjust.noise"@, p.color.adjust.noise)
            ||| whole_refused(fault, "jpeg_quality"@, p.finish.jpeg_quality as int)
            ||| whole_refused(fault, "final_blur"@, p.finish.final_blur as int)
            ||| whole_refused(fault, "overall_mask_blur"@, p.finish.overall_mask_blur as int)
        }),
{
    reveal(color_rules);
    let reports = color_rules(p);
    assert(reports.len() == 16);
    assert(reports[0] is Some ==> real_refused(
        reports[0]->0,
        "auto_color.blend"@,
        p.color.auto.blend,
    ));
    assert(reports[1] is Some ==> real_refused(
        reports[1]->0,
        "restorer_alpha"@,
        p.restoration.first.alpha,
    ));
    assert(reports[2] is Some ==> real_refused(
        reports[2]->0,
        "restorer2_alpha"@,
        p.restoration.second.alpha,
    ));
    assert(reports[3] is Some ==> real_refused(
        reports[3]->0,
        "color_adjust.red"@,
        p.color.adjust.red,
    ));
    assert(reports[4] is Some ==> real_refused(
        reports[4]->0,
        "color_adjust.green"@,
        p.color.adjust.green,
    ));
    assert(reports[5] is Some ==> real_refused(
        reports[5]->0,
        "color_adjust.blue"@,
        p.color.adjust.blue,
    ));
    assert(reports[6] is Some ==> real_refused(
        reports[6]->0,
        "color_adjust.brightness"@,
        p.color.adjust.brightness,
    ));
    assert(reports[7] is Some ==> real_refused(
        reports[7]->0,
        "color_adjust.contrast"@,
        p.color.adjust.contrast,
    ));
    assert(reports[8] is Some ==> real_refused(
        reports[8]->0,
        "color_adjust.saturation"@,
        p.color.adjust.saturation,
    ));
    assert(reports[9] is Some ==> real_refused(
        reports[9]->0,
        "color_adjust.sharpness"@,
        p.color.adjust.sharpness,
    ));
    assert(reports[10] is Some ==> real_refused(
        reports[10]->0,
        "color_adjust.hue"@,
        p.color.adjust.hue,
    ));
    assert(reports[11] is Some ==> real_refused(
        reports[11]->0,
        "color_adjust.gamma"@,
        p.color.adjust.gamma,
    ));
    assert(reports[12] is Some ==> real_refused(
        reports[12]->0,
        "color_adjust.noise"@,
        p.color.adjust.noise,
    ));
    assert(reports[13] is Some ==> whole_refused(
        reports[13]->0,
        "jpeg_quality"@,
        p.finish.jpeg_quality as int,
    ));
    assert(reports[14] is Some ==> whole_refused(
        reports[14]->0,
        "final_blur"@,
        p.finish.final_blur as int,
    ));
    assert(reports[15] is Some ==> whole_refused(
        reports[15]->0,
        "overall_mask_blur"@,
        p.finish.overall_mask_blur as int,
    ));
    let i = first_fault_is_reported(reports);
}

/// A setting of the geometry that is refused is told by its name and its value.
pub proof fn refused_geometry_are_named(p: FaceSwapParams)
    requires
        first_fault(geometry_rules(p)) is Some,
    ensures
        ({
            let fault = first_fault(geometry_rules(p))->0;
            ||| real_refused(fault, "geometry.keypoints_x"@, p.geometry.keypoints_x)
            ||| real_refused(fault, "geometry.keypoints_y"@, p.geometry.keypoints_y)
            ||| real_refused(fault, "geometry.keypoints_scale"@, p.geometry.keypoints_scale)
            ||| real_refused(fault, "geometry.face_scale"@, p.geometry.face_scale)
            ||| real_refused(
                fault,
                "geometry.landmark_offsets[0].x"@,
                p.geometry.offsets.left_eye.x,
            )
            ||| real_refused(
                fault,
                "geometry.landmark_offsets[0].y"@,
                p.geometry.offsets.left_eye.y,
            )
            ||| real_refused(
                fault,
                "geometry.landmark_offsets[1].x"@,
                p.geometry.offsets.right_eye.x,
            )
            ||| real_refused(
                fault,
                "geometry.landmark_offsets[1].y"@,
                p.geometry.offsets.right_eye.y,
            )
            ||| real_refused(fault, "geometry.landmark_offsets[2].x"@, p.geometry.offsets.nose.x)
            ||| real_refused(fault, "geometry.landmark_offsets[2].y"@, p.geometry.offsets.nose.y)
            ||| real_refused(
                fault,
                "geometry.landmark_offsets[3].x"@,
                p.geometry.offsets.mouth_left.x,
            )
            ||| real_refused(
                fault,
                "geometry.landmark_offsets[3].y"@,
                p.geometry.offsets.mouth_left.y,
            )
            ||| real_refused(
                fault,
                "geometry.landmark_offsets[4].x"@,
                p.geometry.offsets.mouth_right.x,
            )
            ||| real_refused(
                fault,
                "geometry.landmark_offsets[4].y"@,
                p.geometry.offsets.mouth_right.y,
            )
        }),
{
    reveal(geometry_rules);
    let reports = geometry_rules(p);
    assert(reports.len() == 14);
    assert(reports[0] is Some ==> real_refused(
        reports[0]->0,
        "geometry.keypoints_x"@,
        p.geometry.keypoints_x,
    ));
    assert(reports[1] is Some ==> real_refused(
        reports[1]->0,
        "geometry.keypoints_y"@,
        p.geometry.keypoints_y,
    ));
    assert(reports[2] is Some ==> real_refused(
        reports[2]->0,
        "geometry.keypoints_scale"@,
        p.geometry.keypoints_scale,
    ));
    assert(reports[3] is Some ==> real_refused(
        reports[3]->0,
        "geometry.face_scale"@,
        p.geometry.face_scale,
    ));
    assert(reports[4] is Some ==> real_refused(
        reports[4]->0,
        "geometry.landmark_offsets[0].x"@,
        p.geometry.offsets.left_eye.x,
    ));
    assert(reports[5] is Some ==> real_refused(
        reports[5]->0,
        "geometry.landmark_offsets[0].y"@,
        p.geometry.offsets.left_eye.y,
    ));
    assert(reports[6] is Some ==> real_refused(
        reports[6]->0,
        "geometry.landmark_offsets[1].x"@,
        p.geometry.offsets.right_eye.x,
    ));
    assert(reports[7] is Some ==> real_refused(
        reports[7]->0,
        "geometry.landmark_offsets[1].y"@,
        p.geometry.offsets.right_eye.y,
    ));
    assert(reports[8] is Some ==> real_refused(
        reports[8]->0,
        "geometry.landmark_offsets[2].x"@,
        p.geometry.offsets.nose.x,
    ));
    assert(reports[9] is Some ==> real_refused(
        reports[9]->0,
        "geometry.landmark_offsets[2].y"@,
        p.geometry.offsets.nose.y,
    ));
    assert(reports[10] is Some ==> real_refused(
        reports[10]->0,
        "geometry.landmark_offsets[3].x"@,
        p.geometry.offsets.mouth_left.x,
    ));
    assert(reports[11] is Some ==> real_refused(
        reports[11]->0,
        "geometry.landmark_offsets[3].y"@,
        p.geometry.offsets.mouth_left.y,
    ));
    assert(reports[12] is Some ==> real_refused(
        reports[12]->0,
        "geometry.landmark_offsets[4].x"@,
        p.geometry.offsets.mouth_right.x,
    ));
    assert(reports[13] is Some ==> real_refused(
        reports[13]->0,
        "geometry.landmark_offsets[4].y"@,
        p.geometry.offsets.mouth_right.y,
    ));
    let i = first_fault_is_reported(reports);
}

/// A setting of the masks that is refused is told by its name and its value.
pub proof fn refused_masks_are_named(p: FaceSwapParams)
    requires
        first_fault(mask_rules(p)) is Some,
    ensures
        ({
            let fault = first_fault(mask_rules(p))->0;
            ||| real_refused(fault, "similarity_threshold"@, p.identity.similarity_threshold)
            ||| whole_refused(fault, "occluder_size"@, p.masks.segmentation.occluder_size as int)
            ||| whole_refused(fault, "xseg_size"@, p.masks.segmentation.xseg_size as int)
            ||| whole_refused(fault, "occluder_xseg_blur"@, p.masks.segmentation.blur as int)
            ||| whole_refused(fault, "faceparser.background"@, p.masks.faceparser.background as int)
            ||| whole_refused(fault, "faceparser.face"@, p.masks.faceparser.regions.face as int)
            ||| whole_refused(
                fault,
                "faceparser.left_eyebrow"@,
                p.masks.faceparser.regions.left_eyebrow as int,
            )
            ||| whole_refused(
                fault,
                "faceparser.right_eyebrow"@,
                p.masks.faceparser.regions.right_eyebrow as int,
            )
            ||| whole_refused(
                fault,
                "faceparser.left_eye"@,
                p.masks.faceparser.regions.left_eye as int,
            )
            ||| whole_refused(
                fault,
                "faceparser.right_eye"@,
                p.masks.faceparser.regions.right_eye as int,
            )
            ||| whole_refused(
                fault,
                "faceparser.eyeglasses"@,
                p.masks.faceparser.regions.eyeglasses as int,
            )
            ||| whole_refused(fault, "faceparser.nose"@, p.masks.faceparser.regions.nose as int)
            ||| whole_refused(fault, "faceparser.mouth"@, p.masks.faceparser.regions.mouth as int)
            ||| whole_refused(
                fault,
                "faceparser.upper_lip"@,
                p.masks.faceparser.regions.upper_lip as int,
            )
            ||| whole_refused(
                fault,
                "faceparser.lower_lip"@,
                p.masks.faceparser.regions.lower_lip as int,
            )
            ||| whole_refused(fault, "faceparser.neck"@, p.masks.faceparser.regions.neck as int)
            ||| whole_refused(fault, "faceparser.hair"@, p.masks.faceparser.regions.hair as int)
            ||| whole_refused(
                fault,
                "faceparser.background_blur"@,
                p.masks.faceparser.background_blur as int,
            )
            ||| whole_refused(fault, "faceparser.face_blur"@, p.masks.faceparser.face_blur as int)
        }),
{
    reveal(mask_rules);
    let reports = mask_rules(p);
    assert(reports.len() == 19);
    assert(reports[0] is Some ==> real_refused(
        reports[0]->0,
        "similarity_threshold"@,
        p.identity.similarity_threshold,
    ));
    assert(reports[1] is Some ==> whole_refused(
        reports[1]->0,
        "occluder_size"@,
        p.masks.segmentation.occluder_size as int,
    ));
    assert(reports[2] is Some ==> whole_refused(
        reports[2]->0,
        "xseg_size"@,
        p.masks.segmentation.xseg_size as int,
    ));
    assert(reports[3] is Some ==> whole_refused(
        reports[3]->0,
        "occluder_xseg_blur"@,
        p.masks.segmentation.blur as int,
    ));
    assert(reports[4] is Some ==> whole_refused(
        reports[4]->0,
        "faceparser.background"@,
        p.masks.faceparser.background as int,
    ));
    assert(reports[5] is Some ==> whole_refused(
        reports[5]->0,
        "faceparser.face"@,
        p.masks.faceparser.regions.face as int,
    ));
    assert(reports[6] is Some ==> whole_refused(
        reports[6]->0,
        "faceparser.left_eyebrow"@,
        p.masks.faceparser.regions.left_eyebrow as int,
    ));
    assert(reports[7] is Some ==> whole_refused(
        reports[7]->0,
        "faceparser.right_eyebrow"@,
        p.masks.faceparser.regions.right_eyebrow as int,
    ));
    assert(reports[8] is Some ==> whole_refused(
        reports[8]->0,
        "faceparser.left_eye"@,
        p.masks.faceparser.regions.left_eye as int,
    ));
    assert(reports[9] is Some ==> whole_refused(
        reports[9]->0,
        "faceparser.right_eye"@,
        p.masks.faceparser.regions.right_eye as int,
    ));
    assert(reports[10] is Some ==> whole_refused(
        reports[10]->0,
        "faceparser.eyeglasses"@,
        p.masks.faceparser.regions.eyeglasses as int,
    ));
    assert(reports[11] is Some ==> whole_refused(
        reports[11]->0,
        "faceparser.nose"@,
        p.masks.faceparser.regions.nose as int,
    ));
    assert(reports[12] is Some ==> whole_refused(
        reports[12]->0,
        "faceparser.mouth"@,
        p.masks.faceparser.regions.mouth as int,
    ));
    assert(reports[13] is Some ==> whole_refused(
        reports[13]->0,
        "faceparser.upper_lip"@,
        p.masks.faceparser.regions.upper_lip as int,
    ));
    assert(reports[14] is Some ==> whole_refused(
        reports[14]->0,
        "faceparser.lower_lip"@,
        p.masks.faceparser.regions.lower_lip as int,
    ));
    assert(reports[15] is Some ==> whole_refused(
        reports[15]->0,
        "faceparser.neck"@,
        p.masks.faceparser.regions.neck as int,
    ));
    assert(reports[16] is Some ==> whole_refused(
        reports[16]->0,
        "faceparser.hair"@,
        p.masks.faceparser.regions.hair as int,
    ));
    assert(reports[17] is Some ==> whole_refused(
        reports[17]->0,
        "faceparser.background_blur"@,
        p.masks.faceparser.background_blur as int,
    ));
    assert(reports[18] is Some ==> whole_refused(
        reports[18]->0,
        "faceparser.face_blur"@,
        p.masks.faceparser.face_blur as int,
    ));
    let i = first_fault_is_reported(reports);
}

/// A setting of the restored regions or of the differencing that is refused is told by its name
/// and its value.
pub proof fn refused_restored_regions_are_named(p: FaceSwapParams)
    requires
        first_fault(restore_rules(p)) is Some,
    ensures
        ({
            let fault = first_fault(restore_rules(p))->0;
            ||| real_refused(fault, "restore_mouth.blend"@, p.masks.restore_mouth.blend)
            ||| real_refused(fault, "restore_mouth.size_factor"@, p.masks.restore_mouth.size_factor)
            ||| real_refused(fault, "restore_mouth.radius_x"@, p.masks.restore_mouth.radius_x)
            ||| real_refused(fault, "restore_mouth.radius_y"@, p.masks.restore_mouth.radius_y)
            ||| real_refused(fault, "restore_eyes.blend"@, p.masks.restore_eyes.blend)
            ||| real_refused(fault, "restore_eyes.size_factor"@, p.masks.restore_eyes.size_factor)
            ||| real_refused(fault, "restore_eyes.radius_x"@, p.masks.restore_eyes.radius_x)
            ||| real_refused(fault, "restore_eyes.radius_y"@, p.masks.restore_eyes.radius_y)
            ||| whole_refused(fault, "restore_mouth.feather"@, p.masks.restore_mouth.feather as int)
            ||| whole_refused(
                fault,
                "restore_mouth.offset_x"@,
                p.masks.restore_mouth.offset_x as int,
            )
            ||| whole_refused(
                fault,
                "restore_mouth.offset_y"@,
                p.masks.restore_mouth.offset_y as int,
            )
            ||| whole_refused(fault, "restore_eyes.feather"@, p.masks.restore_eyes.feather as int)
            ||| whole_refused(fault, "restore_eyes.offset_x"@, p.masks.restore_eyes.offset_x as int)
            ||| whole_refused(fault, "restore_eyes.offset_y"@, p.masks.restore_eyes.offset_y as int)
            ||| whole_refused(
                fault,
                "restore_eyes.spacing_offset"@,
                p.masks.restore_eyes.spacing_offset as int,
            )
            ||| whole_refused(fault, "restore_eyes_mouth_blur"@, p.masks.restore_blur as int)
            ||| whole_refused(fault, "differencing_amount"@, p.masks.differencing.amount as int)
            ||| whole_refused(fault, "differencing_blur"@, p.masks.differencing.blur as int)
        }),
{
    reveal(restore_rules);
    let reports = restore_rules(p);
    assert(reports.len() == 18);
    assert(reports[0] is Some ==> real_refused(
        reports[0]->0,
        "restore_mouth.blend"@,
        p.masks.restore_mouth.blend,
    ));
    assert(reports[1] is Some ==> real_refused(
        reports[1]->0,
        "restore_mouth.size_factor"@,
        p.masks.restore_mouth.size_factor,
    ));
    assert(reports[2] is Some ==> real_refused(
        reports[2]->0,
        "restore_mouth.radius_x"@,
        p.masks.restore_mouth.radius_x,
    ));
    assert(reports[3] is Some ==> real_refused(
        reports[3]->0,
        "restore_mouth.radius_y"@,
        p.masks.restore_mouth.radius_y,
    ));
    assert(reports[4] is Some ==> real_refused(
        reports[4]->0,
        "restore_eyes.blend"@,
        p.masks.restore_eyes.blend,
    ));
    assert(reports[5] is Some ==> real_refused(
        reports[5]->0,
        "restore_eyes.size_factor"@,
        p.masks.restore_eyes.size_factor,
    ));
    assert(reports[6] is Some ==> real_refused(
        reports[6]->0,
        "restore_eyes.radius_x"@,
        p.masks.restore_eyes.radius_x,
    ));
    assert(reports[7] is Some ==> real_refused(
        reports[7]->0,
        "restore_eyes.radius_y"@,
        p.masks.restore_eyes.radius_y,
    ));
    assert(reports[8] is Some ==> whole_refused(
        reports[8]->0,
        "restore_mouth.feather"@,
        p.masks.restore_mouth.feather as int,
    ));
    assert(reports[9] is Some ==> whole_refused(
        reports[9]->0,
        "restore_mouth.offset_x"@,
        p.masks.restore_mouth.offset_x as int,
    ));
    assert(reports[10] is Some ==> whole_refused(
        reports[10]->0,
        "restore_mouth.offset_y"@,
        p.masks.restore_mouth.offset_y as int,
    ));
    assert(reports[11] is Some ==> whole_refused(
        reports[11]->0,
        "restore_eyes.feather"@,
        p.masks.restore_eyes.feather as int,
    ));
    assert(reports[12] is Some ==> whole_refused(
        reports[12]->0,
        "restore_eyes.offset_x"@,
        p.masks.restore_eyes.offset_x as int,
    ));
    assert(reports[13] is Some ==> whole_refused(
        reports[13]->0,
        "restore_eyes.offset_y"@,
        p.masks.restore_eyes.offset_y as int,
    ));
    assert(reports[14] is Some ==> whole_refused(
        reports[14]->0,
        "restore_eyes.spacing_offset"@,
        p.masks.restore_eyes.spacing_offset as int,
    ));
    assert(reports[15] is Some ==> whole_refused(
        reports[15]->0,
        "restore_eyes_mouth_blur"@,
        p.masks.restore_blur as int,
    ));
    assert(reports[16] is Some ==> whole_refused(
        reports[16]->0,
        "differencing_amount"@,
        p.masks.differencing.amount as int,
    ));
    assert(reports[17] is Some ==> whole_refused(
        reports[17]->0,
        "differencing_blur"@,
        p.masks.differencing.blur as int,
    ));
    let i = first_fault_is_reported(reports);
}

} // verus!
