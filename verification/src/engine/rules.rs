//! The rules that a generation's parameters obey, and how a breach is reported.

use vstd::prelude::*;

use crate::config::{FaceSwapParams, RestorerSize};
use crate::engine::models::ModelRole;
use crate::number::{Single, FIVE, FOUR, HALF, HUNDRED, HUNDREDTH, MINUS_HALF, MINUS_HUNDRED, MINUS_ONE, MINUS_TWENTY, ONE, SIX_TENTHS, THREE, THREE_TENTHS, TWENTIETH, TWENTY, TWO, ZERO};
use crate::reports::first_error;
use crate::reports::{fault_of, faults, first_fault};
use crate::text::{chars_of, is_ascii_alphanumeric, same_text, to_ascii_upper};
use crate::text::{ascii_alphanumeric, ascii_upper};

verus! {

/// Why an engine specification is refused.
#[derive(Debug, PartialEq, Eq)]
#[allow(inconsistent_fields)]
pub enum EngineSpecError {
    MissingModel(ModelRole),
    InvalidBlake3 { field: String, value: String },
    EmptyField(String),
    InvalidFilename { role: ModelRole, filename: String },
    InvalidDeviceId(i32),
    UnsupportedRestorer(String),
    InvalidEnhancerBlend(Single),
    EnhancerModelMismatch { selected: String, artifact: String },
    LandmarkModelMismatch { selected: String, artifact: String },
    DfmModelMismatch { selected: String, artifact: String },
    InvalidMaskControl { control: String, value: i64, min: i64, max: i64 },
    InvalidFloatControl { control: String, value: Single, min: Single, max: Single },
    Serialization(String),
    InvalidAssignments(String),
}

/// An error of an engine specification, its texts as sequences of characters.
#[allow(inconsistent_fields)]
pub enum SpecFault {
    MissingModel(ModelRole),
    InvalidBlake3 { field: Seq<char>, value: Seq<char> },
    EmptyField(Seq<char>),
    InvalidFilename { role: ModelRole, filename: Seq<char> },
    InvalidDeviceId(i32),
    UnsupportedRestorer(Seq<char>),
    InvalidEnhancerBlend(Single),
    EnhancerModelMismatch { selected: Seq<char>, artifact: Seq<char> },
    LandmarkModelMismatch { selected: Seq<char>, artifact: Seq<char> },
    DfmModelMismatch { selected: Seq<char>, artifact: Seq<char> },
    InvalidMaskControl { control: Seq<char>, value: int, min: int, max: int },
    InvalidFloatControl { control: Seq<char>, value: Single, min: Single, max: Single },
    Serialization(Seq<char>),
    InvalidAssignments(Seq<char>),
}

impl View for EngineSpecError {
    type V = SpecFault;

    open spec fn view(&self) -> SpecFault {
        match self {
            EngineSpecError::MissingModel(role) => SpecFault::MissingModel(*role),
            EngineSpecError::InvalidBlake3 { field, value } => SpecFault::InvalidBlake3 {
                field: field@,
                value: value@,
            },
            EngineSpecError::EmptyField(field) => SpecFault::EmptyField(field@),
            EngineSpecError::InvalidFilename { role, filename } => SpecFault::InvalidFilename {
                role: *role,
                filename: filename@,
            },
            EngineSpecError::InvalidDeviceId(id) => SpecFault::InvalidDeviceId(*id),
            EngineSpecError::UnsupportedRestorer(name) => SpecFault::UnsupportedRestorer(name@),
            EngineSpecError::InvalidEnhancerBlend(blend) => SpecFault::InvalidEnhancerBlend(*blend),
            EngineSpecError::EnhancerModelMismatch { selected, artifact } => {
                SpecFault::EnhancerModelMismatch { selected: selected@, artifact: artifact@ }
            },
            EngineSpecError::LandmarkModelMismatch { selected, artifact } => {
                SpecFault::LandmarkModelMismatch { selected: selected@, artifact: artifact@ }
            },
            EngineSpecError::DfmModelMismatch { selected, artifact } => {
                SpecFault::DfmModelMismatch { selected: selected@, artifact: artifact@ }
            },
            EngineSpecError::InvalidMaskControl { control, value, min, max } => {
                SpecFault::InvalidMaskControl {
                    control: control@,
                    value: *value as int,
                    min: *min as int,
                    max: *max as int,
                }
            },
            EngineSpecError::InvalidFloatControl { control, value, min, max } => {
                SpecFault::InvalidFloatControl {
                    control: control@,
                    value: *value,
                    min: *min,
                    max: *max,
                }
            },
            EngineSpecError::Serialization(reason) => SpecFault::Serialization(reason@),
            EngineSpecError::InvalidAssignments(reason) => SpecFault::InvalidAssignments(reason@),
        }
    }
}

/// An integer control between `min` and `max`.
pub open spec fn range_fault(control: Seq<char>, value: int, min: int, max: int) -> Option<
    SpecFault,
> {
    if min <= value <= max {
        None
    } else {
        Some(SpecFault::InvalidMaskControl { control, value, min, max })
    }
}

/// A finite control between the numbers with the patterns `min` and `max`.
pub open spec fn float_fault(control: Seq<char>, value: Single, min: u32, max: u32) -> Option<
    SpecFault,
> {
    if value.within(Single { bits: min }, Single { bits: max }) {
        None
    } else {
        Some(
            SpecFault::InvalidFloatControl {
                control,
                value,
                min: Single { bits: min },
                max: Single { bits: max },
            },
        )
    }
}

/// Checks an integer control against its range.
pub fn validate_range(control: &str, value: i64, min: i64, max: i64) -> (r: Result<
    (),
    EngineSpecError,
>)
    ensures
        fault_of(r) == range_fault(control@, value as int, min as int, max as int),
{
    if min <= value && value <= max {
        Ok(())
    } else {
        Err(
            EngineSpecError::InvalidMaskControl {
                control: control.to_owned(),
                value,
                min,
                max,
            },
        )
    }
}

/// Checks a floating-point control against its range, whose ends are given as bit patterns.
pub fn validate_float_range(control: &str, value: Single, min: u32, max: u32) -> (r: Result<
    (),
    EngineSpecError,
>)
    ensures
        fault_of(r) == float_fault(control@, value, min, max),
{
    let low = Single { bits: min };
    let high = Single { bits: max };
    if value.is_within(low, high) {
        Ok(())
    } else {
        Err(
            EngineSpecError::InvalidFloatControl {
                control: control.to_owned(),
                value,
                min: low,
                max: high,
            },
        )
    }
}

/// A digit of a lowercase hexadecimal number.
pub open spec fn hex_digit(c: char) -> bool {
    48 <= c as u32 <= 57 || 97 <= c as u32 <= 102
}

/// A digest: sixty-four lowercase hexadecimal digits.
pub open spec fn is_digest(s: Seq<char>) -> bool {
    s.len() == 64 && forall|i: int| 0 <= i < s.len() ==> hex_digit(#[trigger] s[i])
}

/// A field that holds a digest.
pub open spec fn digest_fault(field: Seq<char>, value: Seq<char>) -> Option<SpecFault> {
    if is_digest(value) {
        None
    } else {
        Some(SpecFault::InvalidBlake3 { field, value })
    }
}

/// Checks that a field holds a lowercase BLAKE3 digest.
pub fn validate_blake3(field: &str, value: &str) -> (r: Result<(), EngineSpecError>)
    ensures
        fault_of(r) == digest_fault(field@, value@),
{
    let chars: Vec<char> = chars_of(value);
    let mut valid = chars.len() == 64;
    let mut i: usize = 0;
    while i < chars.len()
        invariant
            i <= chars.len(),
            chars@ == value@,
            valid == (chars.len() == 64 && forall|j: int|
                0 <= j < i ==> hex_digit(#[trigger] value@[j])),
        decreases chars.len() - i,
    {
        let c: u32 = chars[i] as u32;
        valid = valid && ((c >= 48 && c <= 57) || (c >= 97 && c <= 102));
        assert(hex_digit(value@[i as int]) == ((c >= 48 && c <= 57) || (c >= 97 && c <= 102)));
        i = i + 1;
    }
    if valid {
        Ok(())
    } else {
        Err(EngineSpecError::InvalidBlake3 { field: field.to_owned(), value: value.to_owned() })
    }
}

/// The ASCII letters and digits of a restorer's name, as capitals.
pub open spec fn restorer_key(name: Seq<char>) -> Seq<char>
    decreases name.len(),
{
    if name.len() == 0 {
        Seq::empty()
    } else {
        let before = restorer_key(name.drop_last());
        if ascii_alphanumeric(name.last()) {
            before.push(ascii_upper(name.last()))
        } else {
            before
        }
    }
}

/// Restorers that a generation may use.
pub open spec fn supported_restorer(name: Seq<char>) -> bool {
    let key = restorer_key(name);
    key == "GPEN256"@ || key == "GPENBFR256"@ || key == "GPEN512"@ || key == "GPENBFR512"@
}

/// A restorer that a generation may use.
pub open spec fn restorer_fault(name: Seq<char>) -> Option<SpecFault> {
    if supported_restorer(name) {
        None
    } else {
        Some(SpecFault::UnsupportedRestorer(name))
    }
}

/// Checks that a restorer, by its logical name, may be used.
pub fn validate_restorer(logical_name: &str) -> (r: Result<(), EngineSpecError>)
    ensures
        fault_of(r) == restorer_fault(logical_name@),
{
    let chars: Vec<char> = chars_of(logical_name);
    let mut key: String = String::new();
    let mut i: usize = 0;
    proof {
        assert(logical_name@.take(0) =~= Seq::<char>::empty());
    }
    while i < chars.len()
        invariant
            i <= chars.len(),
            chars@ == logical_name@,
            key@ == restorer_key(logical_name@.take(i as int)),
        decreases chars.len() - i,
    {
        proof {
            assert(logical_name@.take(i + 1).drop_last() =~= logical_name@.take(i as int));
            assert(logical_name@.take(i + 1).last() == chars@[i as int]);
        }
        if is_ascii_alphanumeric(chars[i]) {
            key.push(to_ascii_upper(chars[i]));
        }
        i = i + 1;
    }
    proof {
        assert(logical_name@.take(chars.len() as int) =~= logical_name@);
    }
    if same_text(key.as_str(), "GPEN256") || same_text(key.as_str(), "GPENBFR256") || same_text(
        key.as_str(),
        "GPEN512",
    ) || same_text(key.as_str(), "GPENBFR512") {
        Ok(())
    } else {
        Err(EngineSpecError::UnsupportedRestorer(logical_name.to_owned()))
    }
}

/// A quarter turn, a half turn, three quarters or none.
pub open spec fn rotation_fault(angle: u16) -> Option<SpecFault> {
    if angle <= 270 && angle % 90 == 0 {
        None
    } else {
        Some(
            SpecFault::InvalidMaskControl {
                control: "manual_rotation_angle"@,
                value: angle as int,
                min: 0,
                max: 270,
            },
        )
    }
}

fn check_rotation(angle: u16) -> (r: Result<(), EngineSpecError>)
    ensures
        fault_of(r) == rotation_fault(angle),
{
    if angle <= 270 && angle % 90 == 0 {
        Ok(())
    } else {
        Err(
            EngineSpecError::InvalidMaskControl {
                control: "manual_rotation_angle".to_owned(),
                value: angle as i64,
                min: 0,
                max: 270,
            },
        )
    }
}

/// Neither restorer is of the excluded size.
pub open spec fn restorer_size_fault(p: FaceSwapParams) -> Option<SpecFault> {
    if p.restoration.first.size == RestorerSize::Gpen1024 || p.restoration.second.size
        == RestorerSize::Gpen1024 {
        Some(SpecFault::UnsupportedRestorer("GPEN-1024"@))
    } else {
        None
    }
}

fn check_restorer_size(p: &FaceSwapParams) -> (r: Result<(), EngineSpecError>)
    ensures
        fault_of(r) == restorer_size_fault(*p),
{
    if p.restoration.first.size == RestorerSize::Gpen1024 || p.restoration.second.size
        == RestorerSize::Gpen1024 {
        Err(EngineSpecError::UnsupportedRestorer("GPEN-1024".to_owned()))
    } else {
        Ok(())
    }
}

/// The enhancer's blend is a finite number between zero and one.
pub open spec fn enhancer_blend_fault(blend: Single) -> Option<SpecFault> {
    if blend.within(Single { bits: ZERO }, Single { bits: ONE }) {
        None
    } else {
        Some(SpecFault::InvalidEnhancerBlend(blend))
    }
}

fn check_enhancer_blend(blend: Single) -> (r: Result<(), EngineSpecError>)
    ensures
        fault_of(r) == enhancer_blend_fault(blend),
{
    if blend.is_within(Single { bits: ZERO }, Single { bits: ONE }) {
        Ok(())
    } else {
        Err(EngineSpecError::InvalidEnhancerBlend(blend))
    }
}

/// Face likeness needs a target identity wherever it applies.
pub open spec fn likeness_fault(missing: bool) -> Option<SpecFault> {
    if missing {
        Some(
            SpecFault::InvalidAssignments(
                "face likeness requires a target identity for every assignment"@,
            ),
        )
    } else {
        None
    }
}

fn check_likeness(missing: bool) -> (r: Result<(), EngineSpecError>)
    ensures
        fault_of(r) == likeness_fault(missing),
{
    if missing {
        Err(
            EngineSpecError::InvalidAssignments(
                "face likeness requires a target identity for every assignment".to_owned(),
            ),
        )
    } else {
        Ok(())
    }
}

/// The rules for detection, swap and identity, in their order.
#[verifier::opaque]
pub open spec fn scalar_rules(p: FaceSwapParams) -> Seq<Option<SpecFault>> {
    seq![
        float_fault("dfm_morph"@, p.swapper.dfm_morph, HUNDREDTH, ONE),
        float_fault("detector_score"@, p.detection.score, HUNDREDTH, ONE),
        range_fault("max_faces"@, p.detection.max_faces as i64 as int, 1, 50),
        rotation_fault(p.detection.manual_rotation_angle),
        float_fault("landmark_score"@, p.landmark.score, HUNDREDTH, ONE),
        float_fault("strength"@, p.identity.strength, ZERO, FIVE),
        float_fault("face_likeness_factor"@, p.identity.likeness_factor, MINUS_ONE, ONE),
    ]
}

fn check_scalar(p: &FaceSwapParams) -> (r: Result<(), EngineSpecError>)
    ensures
        fault_of(r) == first_fault(scalar_rules(*p)),
{
    let results: Vec<Result<(), EngineSpecError>> = vec![
        validate_float_range("dfm_morph", p.swapper.dfm_morph, HUNDREDTH, ONE),
        validate_float_range("detector_score", p.detection.score, HUNDREDTH, ONE),
        validate_range("max_faces", p.detection.max_faces as i64, 1, 50),
        check_rotation(p.detection.manual_rotation_angle),
        validate_float_range("landmark_score", p.landmark.score, HUNDREDTH, ONE),
        validate_float_range("strength", p.identity.strength, ZERO, FIVE),
        validate_float_range("face_likeness_factor", p.identity.likeness_factor, MINUS_ONE, ONE),
    ];
    proof {
        reveal(scalar_rules);
        assert(faults(results@) =~= scalar_rules(*p));
    }
    first_error(results)
}

/// The rules for color and the last touches, in their order.
#[verifier::opaque]
pub open spec fn color_rules(p: FaceSwapParams) -> Seq<Option<SpecFault>> {
    seq![
        float_fault("auto_color.blend"@, p.color.auto.blend, ZERO, ONE),
        float_fault("restorer_alpha"@, p.restoration.first.alpha, ZERO, ONE),
        float_fault("restorer2_alpha"@, p.restoration.second.alpha, ZERO, ONE),
        float_fault("color_adjust.red"@, p.color.adjust.red, MINUS_HUNDRED, HUNDRED),
        float_fault("color_adjust.green"@, p.color.adjust.green, MINUS_HUNDRED, HUNDRED),
        float_fault("color_adjust.blue"@, p.color.adjust.blue, MINUS_HUNDRED, HUNDRED),
        float_fault("color_adjust.brightness"@, p.color.adjust.brightness, ZERO, TWO),
        float_fault("color_adjust.contrast"@, p.color.adjust.contrast, ZERO, TWO),
        float_fault("color_adjust.saturation"@, p.color.adjust.saturation, ZERO, TWO),
        float_fault("color_adjust.sharpness"@, p.color.adjust.sharpness, ZERO, TWO),
        float_fault("color_adjust.hue"@, p.color.adjust.hue, MINUS_HALF, HALF),
        float_fault("color_adjust.gamma"@, p.color.adjust.gamma, ZERO, TWO),
        float_fault("color_adjust.noise"@, p.color.adjust.noise, ZERO, TWENTY),
        range_fault("jpeg_quality"@, p.finish.jpeg_quality as int, 1, 100),
        range_fault("final_blur"@, p.finish.final_blur as int, 1, 50),
        range_fault("overall_mask_blur"@, p.finish.overall_mask_blur as int, 0, 100),
    ]
}

fn check_color(p: &FaceSwapParams) -> (r: Result<(), EngineSpecError>)
    ensures
        fault_of(r) == first_fault(color_rules(*p)),
{
    let results: Vec<Result<(), EngineSpecError>> = vec![
        validate_float_range("auto_color.blend", p.color.auto.blend, ZERO, ONE),
        validate_float_range("restorer_alpha", p.restoration.first.alpha, ZERO, ONE),
        validate_float_range("restorer2_alpha", p.restoration.second.alpha, ZERO, ONE),
        validate_float_range("color_adjust.red", p.color.adjust.red, MINUS_HUNDRED, HUNDRED),
        validate_float_range("color_adjust.green", p.color.adjust.green, MINUS_HUNDRED, HUNDRED),
        validate_float_range("color_adjust.blue", p.color.adjust.blue, MINUS_HUNDRED, HUNDRED),
        validate_float_range("color_adjust.brightness", p.color.adjust.brightness, ZERO, TWO),
        validate_float_range("color_adjust.contrast", p.color.adjust.contrast, ZERO, TWO),
        validate_float_range("color_adjust.saturation", p.color.adjust.saturation, ZERO, TWO),
        validate_float_range("color_adjust.sharpness", p.color.adjust.sharpness, ZERO, TWO),
        validate_float_range("color_adjust.hue", p.color.adjust.hue, MINUS_HALF, HALF),
        validate_float_range("color_adjust.gamma", p.color.adjust.gamma, ZERO, TWO),
        validate_float_range("color_adjust.noise", p.color.adjust.noise, ZERO, TWENTY),
        validate_range("jpeg_quality", p.finish.jpeg_quality as i64, 1, 100),
        validate_range("final_blur", p.finish.final_blur as i64, 1, 50),
        validate_range("overall_mask_blur", p.finish.overall_mask_blur as i64, 0, 100),
    ];
    proof {
        reveal(color_rules);
        assert(faults(results@) =~= color_rules(*p));
    }
    first_error(results)
}

/// The rules for geometry, in their order.
#[verifier::opaque]
pub open spec fn geometry_rules(p: FaceSwapParams) -> Seq<Option<SpecFault>> {
    seq![
        float_fault("geometry.keypoints_x"@, p.geometry.keypoints_x, MINUS_HUNDRED, HUNDRED),
        float_fault("geometry.keypoints_y"@, p.geometry.keypoints_y, MINUS_HUNDRED, HUNDRED),
        float_fault("geometry.keypoints_scale"@, p.geometry.keypoints_scale, MINUS_HUNDRED, HUNDRED),
        float_fault("geometry.face_scale"@, p.geometry.face_scale, MINUS_TWENTY, TWENTY),
        float_fault("geometry.landmark_offsets[0].x"@, p.geometry.offsets.left_eye.x, MINUS_HUNDRED, HUNDRED),
        float_fault("geometry.landmark_offsets[0].y"@, p.geometry.offsets.left_eye.y, MINUS_HUNDRED, HUNDRED),
        float_fault("geometry.landmark_offsets[1].x"@, p.geometry.offsets.right_eye.x, MINUS_HUNDRED, HUNDRED),
        float_fault("geometry.landmark_offsets[1].y"@, p.geometry.offsets.right_eye.y, MINUS_HUNDRED, HUNDRED),
        float_fault("geometry.landmark_offsets[2].x"@, p.geometry.offsets.nose.x, MINUS_HUNDRED, HUNDRED),
        float_fault("geometry.landmark_offsets[2].y"@, p.geometry.offsets.nose.y, MINUS_HUNDRED, HUNDRED),
        float_fault("geometry.landmark_offsets[3].x"@, p.geometry.offsets.mouth_left.x, MINUS_HUNDRED, HUNDRED),
        float_fault("geometry.landmark_offsets[3].y"@, p.geometry.offsets.mouth_left.y, MINUS_HUNDRED, HUNDRED),
        float_fault("geometry.landmark_offsets[4].x"@, p.geometry.offsets.mouth_right.x, MINUS_HUNDRED, HUNDRED),
        float_fault("geometry.landmark_offsets[4].y"@, p.geometry.offsets.mouth_right.y, MINUS_HUNDRED, HUNDRED),
    ]
}

fn check_geometry(p: &FaceSwapParams) -> (r: Result<(), EngineSpecError>)
    ensures
        fault_of(r) == first_fault(geometry_rules(*p)),
{
    let results: Vec<Result<(), EngineSpecError>> = vec![
        validate_float_range("geometry.keypoints_x", p.geometry.keypoints_x, MINUS_HUNDRED, HUNDRED),
        validate_float_range("geometry.keypoints_y", p.geometry.keypoints_y, MINUS_HUNDRED, HUNDRED),
        validate_float_range("geometry.keypoints_scale", p.geometry.keypoints_scale, MINUS_HUNDRED, HUNDRED),
        validate_float_range("geometry.face_scale", p.geometry.face_scale, MINUS_TWENTY, TWENTY),
        validate_float_range("geometry.landmark_offsets[0].x", p.geometry.offsets.left_eye.x, MINUS_HUNDRED, HUNDRED),
        validate_float_range("geometry.landmark_offsets[0].y", p.geometry.offsets.left_eye.y, MINUS_HUNDRED, HUNDRED),
        validate_float_range("geometry.landmark_offsets[1].x", p.geometry.offsets.right_eye.x, MINUS_HUNDRED, HUNDRED),
        validate_float_range("geometry.landmark_offsets[1].y", p.geometry.offsets.right_eye.y, MINUS_HUNDRED, HUNDRED),
        validate_float_range("geometry.landmark_offsets[2].x", p.geometry.offsets.nose.x, MINUS_HUNDRED, HUNDRED),
        validate_float_range("geometry.landmark_offsets[2].y", p.geometry.offsets.nose.y, MINUS_HUNDRED, HUNDRED),
        validate_float_range("geometry.landmark_offsets[3].x", p.geometry.offsets.mouth_left.x, MINUS_HUNDRED, HUNDRED),
        validate_float_range("geometry.landmark_offsets[3].y", p.geometry.offsets.mouth_left.y, MINUS_HUNDRED, HUNDRED),
        validate_float_range("geometry.landmark_offsets[4].x", p.geometry.offsets.mouth_right.x, MINUS_HUNDRED, HUNDRED),
        validate_float_range("geometry.landmark_offsets[4].y", p.geometry.offsets.mouth_right.y, MINUS_HUNDRED, HUNDRED),
    ];
    proof {
        reveal(geometry_rules);
        assert(faults(results@) =~= geometry_rules(*p));
    }
    first_error(results)
}

/// The rules for segmentation and face parser, in their order.
#[verifier::opaque]
pub open spec fn mask_rules(p: FaceSwapParams) -> Seq<Option<SpecFault>> {
    seq![
        float_fault("similarity_threshold"@, p.identity.similarity_threshold, ZERO, ONE),
        range_fault("occluder_size"@, p.masks.segmentation.occluder_size as int, -100, 100),
        range_fault("xseg_size"@, p.masks.segmentation.xseg_size as int, -100, 100),
        range_fault("occluder_xseg_blur"@, p.masks.segmentation.blur as int, 0, 100),
        range_fault("faceparser.background"@, p.masks.faceparser.background as int, -50, 50),
        range_fault("faceparser.face"@, p.masks.faceparser.regions.face as int, 0, 30),
        range_fault("faceparser.left_eyebrow"@, p.masks.faceparser.regions.left_eyebrow as int, 0, 30),
        range_fault("faceparser.right_eyebrow"@, p.masks.faceparser.regions.right_eyebrow as int, 0, 30),
        range_fault("faceparser.left_eye"@, p.masks.faceparser.regions.left_eye as int, 0, 30),
        range_fault("faceparser.right_eye"@, p.masks.faceparser.regions.right_eye as int, 0, 30),
        range_fault("faceparser.eyeglasses"@, p.masks.faceparser.regions.eyeglasses as int, 0, 30),
        range_fault("faceparser.nose"@, p.masks.faceparser.regions.nose as int, 0, 30),
        range_fault("faceparser.mouth"@, p.masks.faceparser.regions.mouth as int, 0, 30),
        range_fault("faceparser.upper_lip"@, p.masks.faceparser.regions.upper_lip as int, 0, 30),
        range_fault("faceparser.lower_lip"@, p.masks.faceparser.regions.lower_lip as int, 0, 30),
        range_fault("faceparser.neck"@, p.masks.faceparser.regions.neck as int, 0, 30),
        range_fault("faceparser.hair"@, p.masks.faceparser.regions.hair as int, 0, 30),
        range_fault("faceparser.background_blur"@, p.masks.faceparser.background_blur as int, 0, 100),
        range_fault("faceparser.face_blur"@, p.masks.faceparser.face_blur as int, 0, 100),
    ]
}

fn check_mask(p: &FaceSwapParams) -> (r: Result<(), EngineSpecError>)
    ensures
        fault_of(r) == first_fault(mask_rules(*p)),
{
    let results: Vec<Result<(), EngineSpecError>> = vec![
        validate_float_range("similarity_threshold", p.identity.similarity_threshold, ZERO, ONE),
        validate_range("occluder_size", p.masks.segmentation.occluder_size as i64, -100, 100),
        validate_range("xseg_size", p.masks.segmentation.xseg_size as i64, -100, 100),
        validate_range("occluder_xseg_blur", p.masks.segmentation.blur as i64, 0, 100),
        validate_range("faceparser.background", p.masks.faceparser.background as i64, -50, 50),
        validate_range("faceparser.face", p.masks.faceparser.regions.face as i64, 0, 30),
        validate_range("faceparser.left_eyebrow", p.masks.faceparser.regions.left_eyebrow as i64, 0, 30),
        validate_range("faceparser.right_eyebrow", p.masks.faceparser.regions.right_eyebrow as i64, 0, 30),
        validate_range("faceparser.left_eye", p.masks.faceparser.regions.left_eye as i64, 0, 30),
        validate_range("faceparser.right_eye", p.masks.faceparser.regions.right_eye as i64, 0, 30),
        validate_range("faceparser.eyeglasses", p.masks.faceparser.regions.eyeglasses as i64, 0, 30),
        validate_range("faceparser.nose", p.masks.faceparser.regions.nose as i64, 0, 30),
        validate_range("faceparser.mouth", p.masks.faceparser.regions.mouth as i64, 0, 30),
        validate_range("faceparser.upper_lip", p.masks.faceparser.regions.upper_lip as i64, 0, 30),
        validate_range("faceparser.lower_lip", p.masks.faceparser.regions.lower_lip as i64, 0, 30),
        validate_range("faceparser.neck", p.masks.faceparser.regions.neck as i64, 0, 30),
        validate_range("faceparser.hair", p.masks.faceparser.regions.hair as i64, 0, 30),
        validate_range("faceparser.background_blur", p.masks.faceparser.background_blur as i64, 0, 100),
        validate_range("faceparser.face_blur", p.masks.faceparser.face_blur as i64, 0, 100),
    ];
    proof {
        reveal(mask_rules);
        assert(faults(results@) =~= mask_rules(*p));
    }
    first_error(results)
}

/// The rules for restored regions and differencing, in their order.
#[verifier::opaque]
pub open spec fn restore_rules(p: FaceSwapParams) -> Seq<Option<SpecFault>> {
    seq![
        float_fault("restore_mouth.blend"@, p.masks.restore_mouth.blend, ZERO, ONE),
        float_fault("restore_mouth.size_factor"@, p.masks.restore_mouth.size_factor, TWENTIETH, SIX_TENTHS),
        float_fault("restore_mouth.radius_x"@, p.masks.restore_mouth.radius_x, THREE_TENTHS, THREE),
        float_fault("restore_mouth.radius_y"@, p.masks.restore_mouth.radius_y, THREE_TENTHS, THREE),
        float_fault("restore_eyes.blend"@, p.masks.restore_eyes.blend, ZERO, ONE),
        float_fault("restore_eyes.size_factor"@, p.masks.restore_eyes.size_factor, TWO, FOUR),
        float_fault("restore_eyes.radius_x"@, p.masks.restore_eyes.radius_x, THREE_TENTHS, THREE),
        float_fault("restore_eyes.radius_y"@, p.masks.restore_eyes.radius_y, THREE_TENTHS, THREE),
        range_fault("restore_mouth.feather"@, p.masks.restore_mouth.feather as int, 1, 100),
        range_fault("restore_mouth.offset_x"@, p.masks.restore_mouth.offset_x as int, -300, 300),
        range_fault("restore_mouth.offset_y"@, p.masks.restore_mouth.offset_y as int, -300, 300),
        range_fault("restore_eyes.feather"@, p.masks.restore_eyes.feather as int, 1, 100),
        range_fault("restore_eyes.offset_x"@, p.masks.restore_eyes.offset_x as int, -300, 300),
        range_fault("restore_eyes.offset_y"@, p.masks.restore_eyes.offset_y as int, -300, 300),
        range_fault("restore_eyes.spacing_offset"@, p.masks.restore_eyes.spacing_offset as int, -200, 200),
        range_fault("restore_eyes_mouth_blur"@, p.masks.restore_blur as int, 0, 50),
        range_fault("differencing_amount"@, p.masks.differencing.amount as int, 0, 100),
        range_fault("differencing_blur"@, p.masks.differencing.blur as int, 0, 100),
    ]
}

fn check_restore(p: &FaceSwapParams) -> (r: Result<(), EngineSpecError>)
    ensures
        fault_of(r) == first_fault(restore_rules(*p)),
{
    let results: Vec<Result<(), EngineSpecError>> = vec![
        validate_float_range("restore_mouth.blend", p.masks.restore_mouth.blend, ZERO, ONE),
        validate_float_range("restore_mouth.size_factor", p.masks.restore_mouth.size_factor, TWENTIETH, SIX_TENTHS),
        validate_float_range("restore_mouth.radius_x", p.masks.restore_mouth.radius_x, THREE_TENTHS, THREE),
        validate_float_range("restore_mouth.radius_y", p.masks.restore_mouth.radius_y, THREE_TENTHS, THREE),
        validate_float_range("restore_eyes.blend", p.masks.restore_eyes.blend, ZERO, ONE),
        validate_float_range("restore_eyes.size_factor", p.masks.restore_eyes.size_factor, TWO, FOUR),
        validate_float_range("restore_eyes.radius_x", p.masks.restore_eyes.radius_x, THREE_TENTHS, THREE),
        validate_float_range("restore_eyes.radius_y", p.masks.restore_eyes.radius_y, THREE_TENTHS, THREE),
        validate_range("restore_mouth.feather", p.masks.restore_mouth.feather as i64, 1, 100),
        validate_range("restore_mouth.offset_x", p.masks.restore_mouth.offset_x as i64, -300, 300),
        validate_range("restore_mouth.offset_y", p.masks.restore_mouth.offset_y as i64, -300, 300),
        validate_range("restore_eyes.feather", p.masks.restore_eyes.feather as i64, 1, 100),
        validate_range("restore_eyes.offset_x", p.masks.restore_eyes.offset_x as i64, -300, 300),
        validate_range("restore_eyes.offset_y", p.masks.restore_eyes.offset_y as i64, -300, 300),
        validate_range("restore_eyes.spacing_offset", p.masks.restore_eyes.spacing_offset as i64, -200, 200),
        validate_range("restore_eyes_mouth_blur", p.masks.restore_blur as i64, 0, 50),
        validate_range("differencing_amount", p.masks.differencing.amount as i64, 0, 100),
        validate_range("differencing_blur", p.masks.differencing.blur as i64, 0, 100),
    ];
    proof {
        reveal(restore_rules);
        assert(faults(results@) =~= restore_rules(*p));
    }
    first_error(results)
}

/// The rules that hold of parameters by themselves. `likeness_unmet` says that face likeness is
/// on and some face that it applies to has no target identity.
#[verifier::opaque]
pub open spec fn params_rules(p: FaceSwapParams, likeness_unmet: bool) -> Seq<Option<SpecFault>> {
    seq![
        restorer_size_fault(p),
        enhancer_blend_fault(p.enhancer.blend),
        first_fault(scalar_rules(p)),
        likeness_fault(likeness_unmet),
        first_fault(color_rules(p)),
        first_fault(geometry_rules(p)),
        first_fault(mask_rules(p)),
        first_fault(restore_rules(p)),
    ]
}

/// Checks the rules that hold of parameters by themselves.
pub(crate) fn check_params(p: &FaceSwapParams, likeness_unmet: bool) -> (r: Result<
    (),
    EngineSpecError,
>)
    ensures
        fault_of(r) == first_fault(params_rules(*p, likeness_unmet)),
{
    let results: Vec<Result<(), EngineSpecError>> = vec![
        check_restorer_size(p),
        check_enhancer_blend(p.enhancer.blend),
        check_scalar(p),
        check_likeness(likeness_unmet),
        check_color(p),
        check_geometry(p),
        check_mask(p),
        check_restore(p),
    ];
    proof {
        reveal(params_rules);
        assert(faults(results@) =~= params_rules(*p, likeness_unmet));
    }
    first_error(results)
}

} // verus!
