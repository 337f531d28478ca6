//! Typed per-face swap parameters and the settings of the pipeline.

use vstd::prelude::*;

use crate::number::{Single, HALF, ONE, SIX_TENTHS};
use crate::text::same_text;

verus! {

/// Full-frame enhancement model selected for photo and video output.
#[derive(Debug, Clone, Copy, PartialEq, Eq, Structural)]
pub enum EnhancerModel {
    RealEsrganX2Plus,
    RealEsrganX4Plus,
    RealEsrGeneralX4V3,
    BsrganX2,
    BsrganX4,
    UltraSharpX4,
    UltraMixX4,
}

impl Default for EnhancerModel {
    fn default() -> (r: Self)
        ensures
            r == EnhancerModel::RealEsrganX2Plus,
    {
        EnhancerModel::RealEsrganX2Plus
    }
}

/// A name that no enhancement model has.
#[derive(Debug, Clone, PartialEq, Eq)]
pub struct EnhancerModelParseError(pub String);

impl EnhancerModel {
    /// The name of the model in CrossSwap workspaces.
    pub open spec fn crossswap(self) -> Seq<char> {
        match self {
            EnhancerModel::RealEsrganX2Plus => "RealEsrgan-x2-Plus"@,
            EnhancerModel::RealEsrganX4Plus => "RealEsrgan-x4-Plus"@,
            EnhancerModel::RealEsrGeneralX4V3 => "RealEsr-General-x4v3"@,
            EnhancerModel::BsrganX2 => "BSRGan-x2"@,
            EnhancerModel::BsrganX4 => "BSRGan-x4"@,
            EnhancerModel::UltraSharpX4 => "UltraSharp-x4"@,
            EnhancerModel::UltraMixX4 => "UltraMix-x4"@,
        }
    }

    /// The name of the model in the model registry.
    pub open spec fn registry(self) -> Seq<char> {
        match self {
            EnhancerModel::RealEsrganX2Plus => "RealEsrganx2Plus"@,
            EnhancerModel::RealEsrganX4Plus => "RealEsrganx4Plus"@,
            EnhancerModel::RealEsrGeneralX4V3 => "RealEsrx4v3"@,
            EnhancerModel::BsrganX2 => "BSRGANx2"@,
            EnhancerModel::BsrganX4 => "BSRGANx4"@,
            EnhancerModel::UltraSharpX4 => "UltraSharpx4"@,
            EnhancerModel::UltraMixX4 => "UltraMixx4"@,
        }
    }

    /// The model that CrossSwap calls `name`; the error carries a name that none has.
    pub fn from_crosswap_name(name: &str) -> (r: Result<Self, EnhancerModelParseError>)
        ensures
            match r {
                Ok(model) => model.crossswap() == name@,
                Err(e) => e.0@ == name@ && forall|model: EnhancerModel|
                    #[trigger] model.crossswap() != name@,
            },
    {
        if same_text(name, "RealEsrgan-x2-Plus") {
            Ok(EnhancerModel::RealEsrganX2Plus)
        } else if same_text(name, "RealEsrgan-x4-Plus") {
            Ok(EnhancerModel::RealEsrganX4Plus)
        } else if same_text(name, "RealEsr-General-x4v3") {
            Ok(EnhancerModel::RealEsrGeneralX4V3)
        } else if same_text(name, "BSRGan-x2") {
            Ok(EnhancerModel::BsrganX2)
        } else if same_text(name, "BSRGan-x4") {
            Ok(EnhancerModel::BsrganX4)
        } else if same_text(name, "UltraSharp-x4") {
            Ok(EnhancerModel::UltraSharpX4)
        } else if same_text(name, "UltraMix-x4") {
            Ok(EnhancerModel::UltraMixX4)
        } else {
            Err(EnhancerModelParseError(name.to_owned()))
        }
    }

    /// The name of the model in CrossSwap workspaces.
    pub fn crosswap_name(self) -> (r: &'static str)
        ensures
            r@ == self.crossswap(),
    {
        match self {
            EnhancerModel::RealEsrganX2Plus => "RealEsrgan-x2-Plus",
            EnhancerModel::RealEsrganX4Plus => "RealEsrgan-x4-Plus",
            EnhancerModel::RealEsrGeneralX4V3 => "RealEsr-General-x4v3",
            EnhancerModel::BsrganX2 => "BSRGan-x2",
            EnhancerModel::BsrganX4 => "BSRGan-x4",
            EnhancerModel::UltraSharpX4 => "UltraSharp-x4",
            EnhancerModel::UltraMixX4 => "UltraMix-x4",
        }
    }

    /// The name of the model in the model registry.
    pub fn registry_name(self) -> (r: &'static str)
        ensures
            r@ == self.registry(),
    {
        match self {
            EnhancerModel::RealEsrganX2Plus => "RealEsrganx2Plus",
            EnhancerModel::RealEsrganX4Plus => "RealEsrganx4Plus",
            EnhancerModel::RealEsrGeneralX4V3 => "RealEsrx4v3",
            EnhancerModel::BsrganX2 => "BSRGANx2",
            EnhancerModel::BsrganX4 => "BSRGANx4",
            EnhancerModel::UltraSharpX4 => "UltraSharpx4",
            EnhancerModel::UltraMixX4 => "UltraMixx4",
        }
    }

    /// The factor by which the model enlarges a frame.
    pub fn scale(self) -> (r: u32)
        ensures
            r == match self {
                EnhancerModel::RealEsrganX2Plus | EnhancerModel::BsrganX2 => 2,
                _ => 4u32,
            },
    {
        match self {
            EnhancerModel::RealEsrganX2Plus | EnhancerModel::BsrganX2 => 2,
            EnhancerModel::RealEsrganX4Plus
            | EnhancerModel::RealEsrGeneralX4V3
            | EnhancerModel::BsrganX4
            | EnhancerModel::UltraSharpX4
            | EnhancerModel::UltraMixX4 => 4,
        }
    }
}

/// No two enhancement models share their CrossSwap name, so a name read back gives the model
/// that was written.
pub proof fn crossswap_names_are_distinct(a: EnhancerModel, b: EnhancerModel)
    requires
        a.crossswap() == b.crossswap(),
    ensures
        a == b,
{
    reveal_strlit("RealEsrgan-x2-Plus");
    reveal_strlit("RealEsrgan-x4-Plus");
    reveal_strlit("RealEsr-General-x4v3");
    reveal_strlit("BSRGan-x2");
    reveal_strlit("BSRGan-x4");
    reveal_strlit("UltraSharp-x4");
    reveal_strlit("UltraMix-x4");
    assert("RealEsrgan-x2-Plus"@.len() == 18);
    assert("RealEsrgan-x2-Plus"@[12] == '2');
    assert("RealEsrgan-x4-Plus"@.len() == 18);
    assert("RealEsrgan-x4-Plus"@[12] == '4');
    assert("RealEsr-General-x4v3"@.len() == 20);
    assert("BSRGan-x2"@.len() == 9);
    assert("BSRGan-x2"@[8] == '2');
    assert("BSRGan-x4"@.len() == 9);
    assert("BSRGan-x4"@[8] == '4');
    assert("UltraSharp-x4"@.len() == 13);
    assert("UltraMix-x4"@.len() == 11);
}

/// No two enhancement models share their registry name.
pub proof fn registry_names_are_distinct(a: EnhancerModel, b: EnhancerModel)
    requires
        a.registry() == b.registry(),
    ensures
        a == b,
{
    reveal_strlit("RealEsrganx2Plus");
    reveal_strlit("RealEsrganx4Plus");
    reveal_strlit("RealEsrx4v3");
    reveal_strlit("BSRGANx2");
    reveal_strlit("BSRGANx4");
    reveal_strlit("UltraSharpx4");
    reveal_strlit("UltraMixx4");
    assert("RealEsrganx2Plus"@.len() == 16);
    assert("RealEsrganx2Plus"@[11] == '2');
    assert("RealEsrganx4Plus"@.len() == 16);
    assert("RealEsrganx4Plus"@[11] == '4');
    assert("RealEsrx4v3"@.len() == 11);
    assert("BSRGANx2"@.len() == 8);
    assert("BSRGANx2"@[7] == '2');
    assert("BSRGANx4"@.len() == 8);
    assert("BSRGANx4"@[7] == '4');
    assert("UltraSharpx4"@.len() == 12);
    assert("UltraMixx4"@.len() == 10);
}

/// Swap resolution: how many tiles of 128 by 128 make up the swapped face.
#[derive(Debug, Clone, Copy, PartialEq, Eq, Structural)]
pub enum SwapDim {
    /// One tile, 128 by 128.
    Dim1,
    /// Four tiles, 256 by 256.
    Dim2,
    /// Nine tiles, 384 by 384.
    Dim3,
    /// Sixteen tiles, 512 by 512.
    Dim4,
}

impl SwapDim {
    /// Tiles along one side.
    pub open spec fn side(self) -> nat {
        match self {
            SwapDim::Dim1 => 1,
            SwapDim::Dim2 => 2,
            SwapDim::Dim3 => 3,
            SwapDim::Dim4 => 4,
        }
    }

    /// Tiles along one side.
    pub fn tiles_per_side(self) -> (r: u32)
        ensures
            r == self.side(),
    {
        match self {
            SwapDim::Dim1 => 1,
            SwapDim::Dim2 => 2,
            SwapDim::Dim3 => 3,
            SwapDim::Dim4 => 4,
        }
    }

    /// The dimension whose face has `resolution` pixels along one side.
    pub fn from_resolution(resolution: u32) -> (r: Option<Self>)
        ensures
            match r {
                Some(dim) => resolution == 128 * dim.side(),
                None => forall|dim: SwapDim| resolution != 128 * #[trigger] dim.side(),
            },
    {
        if resolution == 128 {
            Some(SwapDim::Dim1)
        } else if resolution == 256 {
            Some(SwapDim::Dim2)
        } else if resolution == 384 {
            Some(SwapDim::Dim3)
        } else if resolution == 512 {
            Some(SwapDim::Dim4)
        } else {
            None
        }
    }
}

/// Face restorer model size.
#[derive(Debug, Clone, Copy, PartialEq, Eq, Structural)]
pub enum RestorerSize {
    Gpen256,
    Gpen512,
    Gpen1024,
}

/// Restorer hot-path policy.
#[derive(Debug, Clone, Copy, PartialEq, Eq, Structural)]
pub enum RestorerMode {
    /// Run the restorer for every frame.
    Quality,
    /// Run the restorer on keyframes and reuse its aligned output in between.
    Realtime,
}

impl Default for RestorerMode {
    fn default() -> (r: Self)
        ensures
            r == RestorerMode::Realtime,
    {
        RestorerMode::Realtime
    }
}

/// How the restorer aligns the face that it is given.
#[derive(Debug, Clone, Copy, PartialEq, Eq, Structural)]
pub enum RestorerAlignment {
    Original,
    Blend,
    Reference,
}

/// The model that swaps a face.
#[derive(Debug, Clone, Copy, PartialEq, Eq, Structural)]
pub enum SwapperModel {
    Inswapper128,
    Dfm,
}

/// The landmark model, by the number of points that it gives.
#[derive(Debug, Clone, Copy, PartialEq, Eq, Structural)]
pub enum LandmarkMode {
    Points5,
    Points68,
    Points3d68,
    Points98,
    Points106,
    Points203,
    Points478,
}

impl LandmarkMode {
    /// The name of the model in the model registry.
    pub open spec fn registry(self) -> Seq<char> {
        match self {
            LandmarkMode::Points5 => "FaceLandmark5"@,
            LandmarkMode::Points68 => "FaceLandmark68"@,
            LandmarkMode::Points3d68 => "FaceLandmark3d68"@,
            LandmarkMode::Points98 => "FaceLandmark98"@,
            LandmarkMode::Points106 => "FaceLandmark106"@,
            LandmarkMode::Points203 => "FaceLandmark203"@,
            LandmarkMode::Points478 => "FaceLandmark478"@,
        }
    }

    /// The name of the model in the model registry.
    pub fn registry_name(self) -> (r: &'static str)
        ensures
            r@ == self.registry(),
    {
        match self {
            LandmarkMode::Points5 => "FaceLandmark5",
            LandmarkMode::Points68 => "FaceLandmark68",
            LandmarkMode::Points3d68 => "FaceLandmark3d68",
            LandmarkMode::Points98 => "FaceLandmark98",
            LandmarkMode::Points106 => "FaceLandmark106",
            LandmarkMode::Points203 => "FaceLandmark203",
            LandmarkMode::Points478 => "FaceLandmark478",
        }
    }
}

/// How the similarity of two faces is measured.
#[derive(Debug, Clone, Copy, PartialEq, Eq, Structural)]
pub enum SimilarityType {
    Opal,
    Pearl,
    Optimal,
}

impl SimilarityType {
    /// The name of the measure in CrossSwap workspaces.
    pub open spec fn crossswap(self) -> Seq<char> {
        match self {
            SimilarityType::Opal => "Opal"@,
            SimilarityType::Pearl => "Pearl"@,
            SimilarityType::Optimal => "Optimal"@,
        }
    }

    /// The measure that CrossSwap calls `name`.
    pub fn from_crossswap_name(name: &str) -> (r: Option<Self>)
        ensures
            match r {
                Some(measure) => measure.crossswap() == name@,
                None => forall|measure: SimilarityType| #[trigger] measure.crossswap() != name@,
            },
    {
        if same_text(name, "Opal") {
            Some(SimilarityType::Opal)
        } else if same_text(name, "Pearl") {
            Some(SimilarityType::Pearl)
        } else if same_text(name, "Optimal") {
            Some(SimilarityType::Optimal)
        } else {
            None
        }
    }
}

/// How colors are taken over from the target face.
#[derive(Debug, Clone, Copy, PartialEq, Eq, Structural)]
pub enum AutoColorMode {
    Histogram,
    HistogramMasked,
    Dfl,
    DflMasked,
}

/// Face detection model.
#[derive(Debug, Clone, Copy, PartialEq, Eq, Structural)]
pub enum DetectorModel {
    YoloFace8n,
    RetinaFace,
    Scrfd2_5g,
}

/// Execution provider of an engine.
#[derive(Debug, Clone, Copy, PartialEq, Eq, Structural)]
pub enum ExecutionProvider {
    Cuda,
    TensorRT,
}

/// The model that swaps a face, with the settings of a DFM.
#[derive(Debug, PartialEq, Eq)]
pub struct SwapperParams {
    pub model: SwapperModel,
    /// File name of the selected model where the swapper is a DFM.
    pub dfm_model: String,
    pub dfm_morph: Single,
    pub dfm_rct: bool,
}

impl Clone for SwapperParams {
    fn clone(&self) -> (r: Self)
        ensures
            r == *self,
    {
        SwapperParams { dfm_model: self.dfm_model.clone(), ..*self }
    }
}

/// Face detection; these settings hold for a whole engine generation.
#[derive(Debug, Clone, Copy, PartialEq, Eq, Structural)]
pub struct DetectionParams {
    pub score: Single,
    pub max_faces: u64,
    pub auto_rotation: bool,
    pub manual_rotation_enabled: bool,
    pub manual_rotation_angle: u16,
}

/// Landmark detection.
#[derive(Debug, Clone, Copy, PartialEq, Eq, Structural)]
pub struct LandmarkParams {
    pub enabled: bool,
    pub mode: LandmarkMode,
    pub score: Single,
    pub from_points: bool,
}

/// One face restorer.
#[derive(Debug, Clone, Copy, PartialEq, Eq, Structural)]
pub struct RestorerParams {
    pub enabled: bool,
    pub size: RestorerSize,
    pub alignment: RestorerAlignment,
    pub alpha: Single,
    pub fidelity: Single,
}

/// The two face restorers, one after the other.
#[derive(Debug, Clone, Copy, PartialEq, Eq, Structural)]
pub struct RestorationParams {
    pub first: RestorerParams,
    pub second: RestorerParams,
    pub mode: RestorerMode,
}

/// Full-frame enhancement; these settings hold for a whole engine generation.
#[derive(Debug, Clone, Copy, PartialEq, Eq, Structural)]
pub struct EnhancerParams {
    pub enabled: bool,
    pub model: EnhancerModel,
    pub blend: Single,
}

/// A shift in the plane of the image.
#[derive(Debug, Clone, Copy, PartialEq, Eq, Structural)]
pub struct Offset {
    pub x: Single,
    pub y: Single,
}

/// Shifts of the five landmarks.
#[derive(Debug, Clone, Copy, PartialEq, Eq, Structural)]
pub struct LandmarkOffsets {
    pub enabled: bool,
    pub left_eye: Offset,
    pub right_eye: Offset,
    pub nose: Offset,
    pub mouth_left: Offset,
    pub mouth_right: Offset,
}

/// Shifts and scales of the detected face.
#[derive(Debug, Clone, Copy, PartialEq, Eq, Structural)]
pub struct GeometryParams {
    pub enabled: bool,
    pub keypoints_x: Single,
    pub keypoints_y: Single,
    pub keypoints_scale: Single,
    pub face_scale: Single,
    pub offsets: LandmarkOffsets,
}

/// The occluder and XSeg masks.
#[derive(Debug, Clone, Copy, PartialEq, Eq, Structural)]
pub struct SegmentationParams {
    pub occluder_enabled: bool,
    pub occluder_size: i32,
    pub xseg_enabled: bool,
    pub xseg_size: i32,
    pub blur: u32,
}

/// A tint of one face region.
#[derive(Debug, Clone, Copy, PartialEq, Eq, Structural)]
pub struct MakeupParams {
    pub enabled: bool,
    pub red: Single,
    pub green: Single,
    pub blue: Single,
    pub blend: Single,
}

/// Growth of the masks of the parsed face regions.
#[derive(Debug, Clone, Copy, PartialEq, Eq, Structural)]
pub struct ParserRegions {
    pub face: u32,
    pub left_eyebrow: u32,
    pub right_eyebrow: u32,
    pub left_eye: u32,
    pub right_eye: u32,
    pub eyeglasses: u32,
    pub nose: u32,
    pub mouth: u32,
    pub upper_lip: u32,
    pub lower_lip: u32,
    pub neck: u32,
    pub hair: u32,
}

/// The face parser.
#[derive(Debug, Clone, Copy, PartialEq, Eq, Structural)]
pub struct FaceParserParams {
    pub enabled: bool,
    pub background: i32,
    pub regions: ParserRegions,
    pub background_blur: u32,
    pub face_blur: u32,
    pub hair_makeup: MakeupParams,
    pub lips_makeup: MakeupParams,
}

/// The region around the eyes or the mouth that is taken from the target.
#[derive(Debug, Clone, Copy, PartialEq, Eq, Structural)]
pub struct RestoreRegionParams {
    pub enabled: bool,
    pub blend: Single,
    pub size_factor: Single,
    pub feather: u32,
    pub radius_x: Single,
    pub radius_y: Single,
    pub offset_x: i32,
    pub offset_y: i32,
    /// Distance between the two regions; zero for the mouth.
    pub spacing_offset: i32,
}

/// The mask of what differs between the swapped and the target face.
#[derive(Debug, Clone, Copy, PartialEq, Eq, Structural)]
pub struct DifferencingParams {
    pub enabled: bool,
    pub amount: u32,
    pub blur: u32,
}

/// The border mask.
#[derive(Debug, Clone, Copy, PartialEq, Eq, Structural)]
pub struct BorderParams {
    pub top: u32,
    pub bottom: u32,
    pub left: u32,
    pub right: u32,
    pub blur: u32,
}

/// Everything that masks the swapped face.
#[derive(Debug, Clone, Copy, PartialEq, Eq, Structural)]
pub struct MaskParams {
    pub segmentation: SegmentationParams,
    pub faceparser: FaceParserParams,
    pub restore_mouth: RestoreRegionParams,
    pub restore_eyes: RestoreRegionParams,
    pub restore_blur: u32,
    pub differencing: DifferencingParams,
    pub border: BorderParams,
}

/// Automatic color transfer.
#[derive(Debug, Clone, Copy, PartialEq, Eq, Structural)]
pub struct AutoColorParams {
    pub enabled: bool,
    pub mode: AutoColorMode,
    pub blend: Single,
}

/// Manual color adjustment.
#[derive(Debug, Clone, Copy, PartialEq, Eq, Structural)]
pub struct ColorAdjustParams {
    pub enabled: bool,
    pub red: Single,
    pub green: Single,
    pub blue: Single,
    pub brightness: Single,
    pub contrast: Single,
    pub saturation: Single,
    pub sharpness: Single,
    pub hue: Single,
    pub gamma: Single,
    pub noise: Single,
}

/// The color stage.
#[derive(Debug, Clone, Copy, PartialEq, Eq, Structural)]
pub struct ColorParams {
    pub correction: bool,
    pub histogram_matching: bool,
    pub auto: AutoColorParams,
    pub adjust: ColorAdjustParams,
}

/// The last touches on the swapped face.
#[derive(Debug, Clone, Copy, PartialEq, Eq, Structural)]
pub struct FinishParams {
    pub jpeg_compression_enabled: bool,
    pub jpeg_quality: u8,
    pub final_blur_enabled: bool,
    pub final_blur: u32,
    pub overall_mask_blur: u32,
}

/// How strongly a face is swapped, and which faces count as the target.
#[derive(Debug, Clone, Copy, PartialEq, Eq, Structural)]
pub struct IdentityParams {
    pub strength: Single,
    pub likeness_enabled: bool,
    pub likeness_factor: Single,
    pub similarity_type: SimilarityType,
    /// Similarity from which a face counts as the target.
    pub similarity_threshold: Single,
}

/// Per-face swap parameters.
#[derive(Debug, PartialEq, Eq)]
pub struct FaceSwapParams {
    pub enabled: bool,
    pub dim: SwapDim,
    pub swapper: SwapperParams,
    pub detection: DetectionParams,
    pub landmark: LandmarkParams,
    pub restoration: RestorationParams,
    pub enhancer: EnhancerParams,
    pub geometry: GeometryParams,
    pub masks: MaskParams,
    pub color: ColorParams,
    pub finish: FinishParams,
    pub identity: IdentityParams,
}

impl Clone for FaceSwapParams {
    fn clone(&self) -> (r: Self)
        ensures
            r == *self,
    {
        FaceSwapParams { swapper: self.swapper.clone(), ..*self }
    }
}

/// The single-precision number with the given bit pattern.
pub fn single(bits: u32) -> (r: Single)
    ensures
        r == (Single { bits }),
{
    Single { bits }
}

/// A face where it was found.
pub open spec fn fresh_geometry() -> GeometryParams {
    let zero = Single { bits: 0 };
    let still = Offset { x: zero, y: zero };
    GeometryParams {
        enabled: false,
        keypoints_x: zero,
        keypoints_y: zero,
        keypoints_scale: zero,
        face_scale: zero,
        offsets: LandmarkOffsets {
            enabled: false,
            left_eye: still,
            right_eye: still,
            nose: still,
            mouth_left: still,
            mouth_right: still,
        },
    }
}

fn default_geometry() -> (r: GeometryParams)
    ensures
        r == fresh_geometry(),
{
    let zero = single(0);
    let still = Offset { x: zero, y: zero };
    GeometryParams {
        enabled: false,
        keypoints_x: zero,
        keypoints_y: zero,
        keypoints_scale: zero,
        face_scale: zero,
        offsets: LandmarkOffsets {
            enabled: false,
            left_eye: still,
            right_eye: still,
            nose: still,
            mouth_left: still,
            mouth_right: still,
        },
    }
}

/// A region of the given size that is not restored.
pub open spec fn fresh_region(size_factor: Single) -> RestoreRegionParams {
    RestoreRegionParams {
        enabled: false,
        blend: Single { bits: HALF },
        size_factor,
        feather: 10,
        radius_x: Single { bits: ONE },
        radius_y: Single { bits: ONE },
        offset_x: 0,
        offset_y: 0,
        spacing_offset: 0,
    }
}

fn default_region(size_factor: Single) -> (r: RestoreRegionParams)
    ensures
        r == fresh_region(size_factor),
{
    RestoreRegionParams {
        enabled: false,
        blend: single(HALF),
        size_factor,
        feather: 10,
        radius_x: single(ONE),
        radius_y: single(ONE),
        offset_x: 0,
        offset_y: 0,
        spacing_offset: 0,
    }
}

/// The border mask alone.
pub open spec fn fresh_masks() -> MaskParams {
    let zero = Single { bits: 0 };
    let makeup = MakeupParams { enabled: false, red: zero, green: zero, blue: zero, blend: zero };
    MaskParams {
        segmentation: SegmentationParams {
            occluder_enabled: false,
            occluder_size: 0,
            xseg_enabled: false,
            xseg_size: 0,
            blur: 0,
        },
        faceparser: FaceParserParams {
            enabled: false,
            background: 0,
            regions: ParserRegions {
                face: 0,
                left_eyebrow: 0,
                right_eyebrow: 0,
                left_eye: 0,
                right_eye: 0,
                eyeglasses: 0,
                nose: 0,
                mouth: 0,
                upper_lip: 0,
                lower_lip: 0,
                neck: 0,
                hair: 0,
            },
            background_blur: 0,
            face_blur: 0,
            hair_makeup: makeup,
            lips_makeup: makeup,
        },
        restore_mouth: fresh_region(Single { bits: 0x3e80_0000 }),
        restore_eyes: fresh_region(Single { bits: 0x4040_0000 }),
        restore_blur: 0,
        differencing: DifferencingParams { enabled: false, amount: 4, blur: 5 },
        border: BorderParams { top: 10, bottom: 10, left: 10, right: 10, blur: 10 },
    }
}

fn default_masks() -> (r: MaskParams)
    ensures
        r == fresh_masks(),
{
    let zero = single(0);
    let makeup = MakeupParams { enabled: false, red: zero, green: zero, blue: zero, blend: zero };
    MaskParams {
        segmentation: SegmentationParams {
            occluder_enabled: false,
            occluder_size: 0,
            xseg_enabled: false,
            xseg_size: 0,
            blur: 0,
        },
        faceparser: FaceParserParams {
            enabled: false,
            background: 0,
            regions: ParserRegions {
                face: 0,
                left_eyebrow: 0,
                right_eyebrow: 0,
                left_eye: 0,
                right_eye: 0,
                eyeglasses: 0,
                nose: 0,
                mouth: 0,
                upper_lip: 0,
                lower_lip: 0,
                neck: 0,
                hair: 0,
            },
            background_blur: 0,
            face_blur: 0,
            hair_makeup: makeup,
            lips_makeup: makeup,
        },
        restore_mouth: default_region(single(0x3e80_0000)),
        restore_eyes: default_region(single(0x4040_0000)),
        restore_blur: 0,
        differencing: DifferencingParams { enabled: false, amount: 4, blur: 5 },
        border: BorderParams { top: 10, bottom: 10, left: 10, right: 10, blur: 10 },
    }
}

/// Colors as they are.
pub open spec fn fresh_color() -> ColorParams {
    let zero = Single { bits: 0 };
    let one = Single { bits: ONE };
    ColorParams {
        correction: false,
        histogram_matching: false,
        auto: AutoColorParams { enabled: false, mode: AutoColorMode::Histogram, blend: one },
        adjust: ColorAdjustParams {
            enabled: false,
            red: zero,
            green: zero,
            blue: zero,
            brightness: one,
            contrast: one,
            saturation: one,
            sharpness: one,
            hue: zero,
            gamma: one,
            noise: zero,
        },
    }
}

fn default_color() -> (r: ColorParams)
    ensures
        r == fresh_color(),
{
    let zero = single(0);
    let one = single(ONE);
    ColorParams {
        correction: false,
        histogram_matching: false,
        auto: AutoColorParams { enabled: false, mode: AutoColorMode::Histogram, blend: one },
        adjust: ColorAdjustParams {
            enabled: false,
            red: zero,
            green: zero,
            blue: zero,
            brightness: one,
            contrast: one,
            saturation: one,
            sharpness: one,
            hue: zero,
            gamma: one,
            noise: zero,
        },
    }
}

/// The parameters of a fresh session: every optional stage is off.
pub open spec fn fresh_params(r: FaceSwapParams) -> bool {
    let one = Single { bits: ONE };
    let half = Single { bits: HALF };
    let restorer = RestorerParams {
        enabled: false,
        size: RestorerSize::Gpen512,
        alignment: RestorerAlignment::Original,
        alpha: one,
        fidelity: one,
    };
    &&& r.enabled
    &&& r.dim == SwapDim::Dim1
    &&& r.swapper.model == SwapperModel::Inswapper128
    &&& r.swapper.dfm_model@ == Seq::<char>::empty()
    &&& r.swapper.dfm_morph == half
    &&& !r.swapper.dfm_rct
    &&& r.detection == (DetectionParams {
        score: half,
        max_faces: 20,
        auto_rotation: false,
        manual_rotation_enabled: false,
        manual_rotation_angle: 0,
    })
    &&& r.landmark == (LandmarkParams {
        enabled: false,
        mode: LandmarkMode::Points203,
        score: half,
        from_points: false,
    })
    &&& r.restoration == (RestorationParams {
        first: restorer,
        second: restorer,
        mode: RestorerMode::Realtime,
    })
    &&& r.enhancer == (EnhancerParams {
        enabled: false,
        model: EnhancerModel::RealEsrganX2Plus,
        blend: one,
    })
    &&& r.geometry == fresh_geometry()
    &&& r.masks == fresh_masks()
    &&& r.color == fresh_color()
    &&& r.finish == (FinishParams {
        jpeg_compression_enabled: false,
        jpeg_quality: 50,
        final_blur_enabled: false,
        final_blur: 1,
        overall_mask_blur: 0,
    })
    &&& r.identity == (IdentityParams {
        strength: one,
        likeness_enabled: false,
        likeness_factor: Single { bits: 0 },
        similarity_type: SimilarityType::Opal,
        similarity_threshold: Single { bits: SIX_TENTHS },
    })
}

impl Default for FaceSwapParams {
    /// The parameters of a fresh session: every optional stage is off.
    fn default() -> (r: Self)
        ensures
            fresh_params(r),
    {
        let one = single(ONE);
        let half = single(HALF);
        let restorer = RestorerParams {
            enabled: false,
            size: RestorerSize::Gpen512,
            alignment: RestorerAlignment::Original,
            alpha: one,
            fidelity: one,
        };
        FaceSwapParams {
            enabled: true,
            dim: SwapDim::Dim1,
            swapper: SwapperParams {
                model: SwapperModel::Inswapper128,
                dfm_model: String::new(),
                dfm_morph: half,
                dfm_rct: false,
            },
            detection: DetectionParams {
                score: half,
                max_faces: 20,
                auto_rotation: false,
                manual_rotation_enabled: false,
                manual_rotation_angle: 0,
            },
            landmark: LandmarkParams {
                enabled: false,
                mode: LandmarkMode::Points203,
                score: half,
                from_points: false,
            },
            restoration: RestorationParams {
                first: restorer,
                second: restorer,
                mode: RestorerMode::Realtime,
            },
            enhancer: EnhancerParams {
                enabled: false,
                model: EnhancerModel::default(),
                blend: one,
            },
            geometry: default_geometry(),
            masks: default_masks(),
            color: default_color(),
            finish: FinishParams {
                jpeg_compression_enabled: false,
                jpeg_quality: 50,
                final_blur_enabled: false,
                final_blur: 1,
                overall_mask_blur: 0,
            },
            identity: IdentityParams {
                strength: one,
                likeness_enabled: false,
                likeness_factor: single(0),
                similarity_type: SimilarityType::Opal,
                similarity_threshold: single(SIX_TENTHS),
            },
        }
    }
}

/// Settings of the whole pipeline.
#[derive(Debug, Clone, Copy, PartialEq, Eq)]
pub struct PipelineSettings {
    pub detector: DetectorModel,
    pub provider: ExecutionProvider,
    pub device_id: i32,
    /// Detection confidence threshold.
    pub detect_threshold: Single,
    /// Faces to process per frame; zero for no limit.
    pub max_faces: u64,
    /// Frames for which detections are reused.
    pub detect_interval: u32,
}

impl Default for PipelineSettings {
    fn default() -> (r: Self)
        ensures
            r.detector == DetectorModel::YoloFace8n,
            r.provider == ExecutionProvider::Cuda,
            r.device_id == 0,
            r.detect_threshold.bits == HALF,
            r.max_faces == 0,
            r.detect_interval == 1,
    {
        PipelineSettings {
            detector: DetectorModel::YoloFace8n,
            provider: ExecutionProvider::Cuda,
            device_id: 0,
            detect_threshold: single(HALF),
            max_faces: 0,
            detect_interval: 1,
        }
    }
}

} // verus!
