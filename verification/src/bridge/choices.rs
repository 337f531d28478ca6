//! Controls that choose one of a few things by name.

use vstd::prelude::*;

use crate::bridge::read::{
    check_choice, check_named, check_number, choice, choice_value, toggle_value, unknown_choice,
    ControlBridgeError,
};
use crate::bridge::read::{
    choice_need, choice_of, has_choice, named_need, number_need, toggle_of, BridgeFault, Values,
};
use crate::config::crossswap_names_are_distinct;
use crate::config::{
    AutoColorMode, DetectorModel, EnhancerModel, ExecutionProvider, LandmarkMode,
    RestorerAlignment, RestorerSize, SimilarityType, SwapDim, SwapperModel,
};
use crate::controls::ControlState;
use crate::reports::fault_of;
use crate::text::{join2, same_text};

verus! {

/// The execution provider that a control calls `text`.
pub open spec fn provider_named(text: Seq<char>) -> Option<ExecutionProvider> {
    if text == "CUDA"@ {
        Some(ExecutionProvider::Cuda)
    } else if text == "TensorRT"@ {
        Some(ExecutionProvider::TensorRT)
    } else {
        None
    }
}

pub(crate) fn provider_from(text: &str) -> (r: Option<ExecutionProvider>)
    ensures
        r == provider_named(text@),
{
    if same_text(text, "CUDA") {
        Some(ExecutionProvider::Cuda)
    } else if same_text(text, "TensorRT") {
        Some(ExecutionProvider::TensorRT)
    } else {
        None
    }
}

/// The face detector that a control calls `text`.
pub open spec fn detector_named(text: Seq<char>) -> Option<DetectorModel> {
    if text == "Yolov8"@ {
        Some(DetectorModel::YoloFace8n)
    } else if text == "RetinaFace"@ {
        Some(DetectorModel::RetinaFace)
    } else if text == "SCRFD"@ {
        Some(DetectorModel::Scrfd2_5g)
    } else {
        None
    }
}

pub(crate) fn detector_from(text: &str) -> (r: Option<DetectorModel>)
    ensures
        r == detector_named(text@),
{
    if same_text(text, "Yolov8") {
        Some(DetectorModel::YoloFace8n)
    } else if same_text(text, "RetinaFace") {
        Some(DetectorModel::RetinaFace)
    } else if same_text(text, "SCRFD") {
        Some(DetectorModel::Scrfd2_5g)
    } else {
        None
    }
}

/// The landmark model that a control calls `text`.
pub open spec fn landmark_mode_named(text: Seq<char>) -> Option<LandmarkMode> {
    if text == "5"@ {
        Some(LandmarkMode::Points5)
    } else if text == "68"@ {
        Some(LandmarkMode::Points68)
    } else if text == "3d68"@ {
        Some(LandmarkMode::Points3d68)
    } else if text == "98"@ {
        Some(LandmarkMode::Points98)
    } else if text == "106"@ {
        Some(LandmarkMode::Points106)
    } else if text == "203"@ {
        Some(LandmarkMode::Points203)
    } else if text == "478"@ {
        Some(LandmarkMode::Points478)
    } else {
        None
    }
}

pub(crate) fn landmark_mode_from(text: &str) -> (r: Option<LandmarkMode>)
    ensures
        r == landmark_mode_named(text@),
{
    if same_text(text, "5") {
        Some(LandmarkMode::Points5)
    } else if same_text(text, "68") {
        Some(LandmarkMode::Points68)
    } else if same_text(text, "3d68") {
        Some(LandmarkMode::Points3d68)
    } else if same_text(text, "98") {
        Some(LandmarkMode::Points98)
    } else if same_text(text, "106") {
        Some(LandmarkMode::Points106)
    } else if same_text(text, "203") {
        Some(LandmarkMode::Points203)
    } else if same_text(text, "478") {
        Some(LandmarkMode::Points478)
    } else {
        None
    }
}

/// The restorer that a control calls `text`.
pub open spec fn restorer_size_named(text: Seq<char>) -> Option<RestorerSize> {
    if text == "GPEN-256"@ {
        Some(RestorerSize::Gpen256)
    } else if text == "GPEN-512"@ {
        Some(RestorerSize::Gpen512)
    } else {
        None
    }
}

pub(crate) fn restorer_size_from(text: &str) -> (r: Option<RestorerSize>)
    ensures
        r == restorer_size_named(text@),
{
    if same_text(text, "GPEN-256") {
        Some(RestorerSize::Gpen256)
    } else if same_text(text, "GPEN-512") {
        Some(RestorerSize::Gpen512)
    } else {
        None
    }
}

/// The alignment that a control calls `text`.
pub open spec fn restorer_alignment_named(text: Seq<char>) -> Option<RestorerAlignment> {
    if text == "Original"@ {
        Some(RestorerAlignment::Original)
    } else if text == "Blend"@ {
        Some(RestorerAlignment::Blend)
    } else if text == "Reference"@ {
        Some(RestorerAlignment::Reference)
    } else {
        None
    }
}

pub(crate) fn restorer_alignment_from(text: &str) -> (r: Option<RestorerAlignment>)
    ensures
        r == restorer_alignment_named(text@),
{
    if same_text(text, "Original") {
        Some(RestorerAlignment::Original)
    } else if same_text(text, "Blend") {
        Some(RestorerAlignment::Blend)
    } else if same_text(text, "Reference") {
        Some(RestorerAlignment::Reference)
    } else {
        None
    }
}

/// The swapper that a control calls `text`.
pub open spec fn swapper_model_named(text: Seq<char>) -> Option<SwapperModel> {
    if text == "Inswapper128"@ {
        Some(SwapperModel::Inswapper128)
    } else if text == "DeepFaceLive (DFM)"@ {
        Some(SwapperModel::Dfm)
    } else {
        None
    }
}

pub(crate) fn swapper_model_from(text: &str) -> (r: Option<SwapperModel>)
    ensures
        r == swapper_model_named(text@),
{
    if same_text(text, "Inswapper128") {
        Some(SwapperModel::Inswapper128)
    } else if same_text(text, "DeepFaceLive (DFM)") {
        Some(SwapperModel::Dfm)
    } else {
        None
    }
}

/// The swap resolution that a control calls `text`.
pub open spec fn swap_dim_named(text: Seq<char>) -> Option<SwapDim> {
    if text == "128"@ {
        Some(SwapDim::Dim1)
    } else if text == "256"@ {
        Some(SwapDim::Dim2)
    } else if text == "384"@ {
        Some(SwapDim::Dim3)
    } else if text == "512"@ {
        Some(SwapDim::Dim4)
    } else {
        None
    }
}

pub(crate) fn swap_dim_from(text: &str) -> (r: Option<SwapDim>)
    ensures
        r == swap_dim_named(text@),
{
    if same_text(text, "128") {
        Some(SwapDim::Dim1)
    } else if same_text(text, "256") {
        Some(SwapDim::Dim2)
    } else if same_text(text, "384") {
        Some(SwapDim::Dim3)
    } else if same_text(text, "512") {
        Some(SwapDim::Dim4)
    } else {
        None
    }
}

/// The color transfer that a control calls `text`.
pub open spec fn color_mode_named(text: Seq<char>) -> Option<AutoColorMode> {
    if text == "Test"@ {
        Some(AutoColorMode::Histogram)
    } else if text == "Test_Mask"@ {
        Some(AutoColorMode::HistogramMasked)
    } else if text == "DFL_Test"@ {
        Some(AutoColorMode::Dfl)
    } else if text == "DFL_Orig"@ {
        Some(AutoColorMode::DflMasked)
    } else {
        None
    }
}

pub(crate) fn color_mode_from(text: &str) -> (r: Option<AutoColorMode>)
    ensures
        r == color_mode_named(text@),
{
    if same_text(text, "Test") {
        Some(AutoColorMode::Histogram)
    } else if same_text(text, "Test_Mask") {
        Some(AutoColorMode::HistogramMasked)
    } else if same_text(text, "DFL_Test") {
        Some(AutoColorMode::Dfl)
    } else if same_text(text, "DFL_Orig") {
        Some(AutoColorMode::DflMasked)
    } else {
        None
    }
}

/// The execution provider.
pub open spec fn provider_of(v: Values) -> ExecutionProvider {
    match provider_named(choice_of(v, "ProvidersPrioritySelection"@)) {
        Some(value) => value,
        None => ExecutionProvider::Cuda,
    }
}

/// The control for it has a known choice.
pub open spec fn provider_need(v: Values) -> Option<BridgeFault> {
    named_need(
        v,
        "ProvidersPrioritySelection"@,
        "ProvidersPrioritySelection"@,
        provider_named(choice_of(v, "ProvidersPrioritySelection"@)) is Some,
    )
}

pub(crate) fn provider_value(controls: &ControlState) -> (r: ExecutionProvider)
    ensures
        r == provider_of(controls@),
{
    match provider_from(choice_value(controls, "ProvidersPrioritySelection").as_str()) {
        Some(value) => value,
        None => ExecutionProvider::Cuda,
    }
}

pub(crate) fn check_provider(controls: &ControlState) -> (r: Result<(), ControlBridgeError>)
    ensures
        fault_of(r) == provider_need(controls@),
{
    let text: String = choice_value(controls, "ProvidersPrioritySelection");
    let known = provider_from(text.as_str()).is_some();
    check_named(controls, "ProvidersPrioritySelection", "ProvidersPrioritySelection", known)
}

/// The face detector.
pub open spec fn detector_of(v: Values) -> DetectorModel {
    match detector_named(choice_of(v, "DetectorModelSelection"@)) {
        Some(value) => value,
        None => DetectorModel::YoloFace8n,
    }
}

/// The control for it has a known choice.
pub open spec fn detector_need(v: Values) -> Option<BridgeFault> {
    named_need(
        v,
        "DetectorModelSelection"@,
        "DetectorModelSelection"@,
        detector_named(choice_of(v, "DetectorModelSelection"@)) is Some,
    )
}

pub(crate) fn detector_value(controls: &ControlState) -> (r: DetectorModel)
    ensures
        r == detector_of(controls@),
{
    match detector_from(choice_value(controls, "DetectorModelSelection").as_str()) {
        Some(value) => value,
        None => DetectorModel::YoloFace8n,
    }
}

pub(crate) fn check_detector(controls: &ControlState) -> (r: Result<(), ControlBridgeError>)
    ensures
        fault_of(r) == detector_need(controls@),
{
    let text: String = choice_value(controls, "DetectorModelSelection");
    let known = detector_from(text.as_str()).is_some();
    check_named(controls, "DetectorModelSelection", "DetectorModelSelection", known)
}

/// The landmark model.
pub open spec fn landmark_mode_of(v: Values) -> LandmarkMode {
    match landmark_mode_named(choice_of(v, "LandmarkDetectModelSelection"@)) {
        Some(value) => value,
        None => LandmarkMode::Points5,
    }
}

/// The control for it has a known choice.
pub open spec fn landmark_mode_need(v: Values) -> Option<BridgeFault> {
    named_need(
        v,
        "LandmarkDetectModelSelection"@,
        "LandmarkDetectModelSelection"@,
        landmark_mode_named(choice_of(v, "LandmarkDetectModelSelection"@)) is Some,
    )
}

pub(crate) fn landmark_mode_value(controls: &ControlState) -> (r: LandmarkMode)
    ensures
        r == landmark_mode_of(controls@),
{
    match landmark_mode_from(choice_value(controls, "LandmarkDetectModelSelection").as_str()) {
        Some(value) => value,
        None => LandmarkMode::Points5,
    }
}

pub(crate) fn check_landmark_mode(controls: &ControlState) -> (r: Result<(), ControlBridgeError>)
    ensures
        fault_of(r) == landmark_mode_need(controls@),
{
    let text: String = choice_value(controls, "LandmarkDetectModelSelection");
    let known = landmark_mode_from(text.as_str()).is_some();
    check_named(controls, "LandmarkDetectModelSelection", "LandmarkDetectModelSelection", known)
}

/// The first restorer.
pub open spec fn first_size_of(v: Values) -> RestorerSize {
    match restorer_size_named(choice_of(v, "FaceRestorerTypeSelection"@)) {
        Some(value) => value,
        None => RestorerSize::Gpen256,
    }
}

/// The control for it has a known choice.
pub open spec fn first_size_need(v: Values) -> Option<BridgeFault> {
    named_need(
        v,
        "FaceRestorerTypeSelection"@,
        "FaceRestorerTypeSelection"@,
        restorer_size_named(choice_of(v, "FaceRestorerTypeSelection"@)) is Some,
    )
}

pub(crate) fn first_size_value(controls: &ControlState) -> (r: RestorerSize)
    ensures
        r == first_size_of(controls@),
{
    match restorer_size_from(choice_value(controls, "FaceRestorerTypeSelection").as_str()) {
        Some(value) => value,
        None => RestorerSize::Gpen256,
    }
}

pub(crate) fn check_first_size(controls: &ControlState) -> (r: Result<(), ControlBridgeError>)
    ensures
        fault_of(r) == first_size_need(controls@),
{
    let text: String = choice_value(controls, "FaceRestorerTypeSelection");
    let known = restorer_size_from(text.as_str()).is_some();
    check_named(controls, "FaceRestorerTypeSelection", "FaceRestorerTypeSelection", known)
}

/// The first restorer's alignment.
pub open spec fn first_alignment_of(v: Values) -> RestorerAlignment {
    match restorer_alignment_named(choice_of(v, "FaceRestorerDetTypeSelection"@)) {
        Some(value) => value,
        None => RestorerAlignment::Original,
    }
}

/// The control for it has a known choice.
pub open spec fn first_alignment_need(v: Values) -> Option<BridgeFault> {
    named_need(
        v,
        "FaceRestorerDetTypeSelection"@,
        "FaceRestorerDetTypeSelection"@,
        restorer_alignment_named(choice_of(v, "FaceRestorerDetTypeSelection"@)) is Some,
    )
}

pub(crate) fn first_alignment_value(controls: &ControlState) -> (r: RestorerAlignment)
    ensures
        r == first_alignment_of(controls@),
{
    match restorer_alignment_from(choice_value(controls, "FaceRestorerDetTypeSelection").as_str()) {
        Some(value) => value,
        None => RestorerAlignment::Original,
    }
}

pub(crate) fn check_first_alignment(controls: &ControlState) -> (r: Result<(), ControlBridgeError>)
    ensures
        fault_of(r) == first_alignment_need(controls@),
{
    let text: String = choice_value(controls, "FaceRestorerDetTypeSelection");
    let known = restorer_alignment_from(text.as_str()).is_some();
    check_named(controls, "FaceRestorerDetTypeSelection", "FaceRestorerDetTypeSelection", known)
}

/// The second restorer.
pub open spec fn second_size_of(v: Values) -> RestorerSize {
    match restorer_size_named(choice_of(v, "FaceRestorerType2Selection"@)) {
        Some(value) => value,
        None => RestorerSize::Gpen256,
    }
}

/// The control for it has a known choice.
pub open spec fn second_size_need(v: Values) -> Option<BridgeFault> {
    named_need(
        v,
        "FaceRestorerType2Selection"@,
        "FaceRestorerTypeSelection"@,
        restorer_size_named(choice_of(v, "FaceRestorerType2Selection"@)) is Some,
    )
}

pub(crate) fn second_size_value(controls: &ControlState) -> (r: RestorerSize)
    ensures
        r == second_size_of(controls@),
{
    match restorer_size_from(choice_value(controls, "FaceRestorerType2Selection").as_str()) {
        Some(value) => value,
        None => RestorerSize::Gpen256,
    }
}

pub(crate) fn check_second_size(controls: &ControlState) -> (r: Result<(), ControlBridgeError>)
    ensures
        fault_of(r) == second_size_need(controls@),
{
    let text: String = choice_value(controls, "FaceRestorerType2Selection");
    let known = restorer_size_from(text.as_str()).is_some();
    check_named(controls, "FaceRestorerType2Selection", "FaceRestorerTypeSelection", known)
}

/// The second restorer's alignment.
pub open spec fn second_alignment_of(v: Values) -> RestorerAlignment {
    match restorer_alignment_named(choice_of(v, "FaceRestorerDetType2Selection"@)) {
        Some(value) => value,
        None => RestorerAlignment::Original,
    }
}

/// The control for it has a known choice.
pub open spec fn second_alignment_need(v: Values) -> Option<BridgeFault> {
    named_need(
        v,
        "FaceRestorerDetType2Selection"@,
        "FaceRestorerDetTypeSelection"@,
        restorer_alignment_named(choice_of(v, "FaceRestorerDetType2Selection"@)) is Some,
    )
}

pub(crate) fn second_alignment_value(controls: &ControlState) -> (r: RestorerAlignment)
    ensures
        r == second_alignment_of(controls@),
{
    match restorer_alignment_from(choice_value(controls, "FaceRestorerDetType2Selection").as_str()) {
        Some(value) => value,
        None => RestorerAlignment::Original,
    }
}

pub(crate) fn check_second_alignment(controls: &ControlState) -> (r: Result<(), ControlBridgeError>)
    ensures
        fault_of(r) == second_alignment_need(controls@),
{
    let text: String = choice_value(controls, "FaceRestorerDetType2Selection");
    let known = restorer_alignment_from(text.as_str()).is_some();
    check_named(controls, "FaceRestorerDetType2Selection", "FaceRestorerDetTypeSelection", known)
}

/// The swapper.
pub open spec fn swapper_model_of(v: Values) -> SwapperModel {
    match swapper_model_named(choice_of(v, "SwapModelSelection"@)) {
        Some(value) => value,
        None => SwapperModel::Inswapper128,
    }
}

/// The control for it has a known choice.
pub open spec fn swapper_model_need(v: Values) -> Option<BridgeFault> {
    named_need(
        v,
        "SwapModelSelection"@,
        "SwapModelSelection"@,
        swapper_model_named(choice_of(v, "SwapModelSelection"@)) is Some,
    )
}

pub(crate) fn swapper_model_value(controls: &ControlState) -> (r: SwapperModel)
    ensures
        r == swapper_model_of(controls@),
{
    match swapper_model_from(choice_value(controls, "SwapModelSelection").as_str()) {
        Some(value) => value,
        None => SwapperModel::Inswapper128,
    }
}

pub(crate) fn check_swapper_model(controls: &ControlState) -> (r: Result<(), ControlBridgeError>)
    ensures
        fault_of(r) == swapper_model_need(controls@),
{
    let text: String = choice_value(controls, "SwapModelSelection");
    let known = swapper_model_from(text.as_str()).is_some();
    check_named(controls, "SwapModelSelection", "SwapModelSelection", known)
}

/// The swap resolution.
pub open spec fn swap_dim_of(v: Values) -> SwapDim {
    match swap_dim_named(choice_of(v, "SwapperResSelection"@)) {
        Some(value) => value,
        None => SwapDim::Dim1,
    }
}

/// The control for it has a known choice.
pub open spec fn swap_dim_need(v: Values) -> Option<BridgeFault> {
    named_need(
        v,
        "SwapperResSelection"@,
        "SwapperResSelection"@,
        swap_dim_named(choice_of(v, "SwapperResSelection"@)) is Some,
    )
}

pub(crate) fn swap_dim_value(controls: &ControlState) -> (r: SwapDim)
    ensures
        r == swap_dim_of(controls@),
{
    match swap_dim_from(choice_value(controls, "SwapperResSelection").as_str()) {
        Some(value) => value,
        None => SwapDim::Dim1,
    }
}

pub(crate) fn check_swap_dim(controls: &ControlState) -> (r: Result<(), ControlBridgeError>)
    ensures
        fault_of(r) == swap_dim_need(controls@),
{
    let text: String = choice_value(controls, "SwapperResSelection");
    let known = swap_dim_from(text.as_str()).is_some();
    check_named(controls, "SwapperResSelection", "SwapperResSelection", known)
}

/// The color transfer.
pub open spec fn color_mode_of(v: Values) -> AutoColorMode {
    match color_mode_named(choice_of(v, "AutoColorTransferTypeSelection"@)) {
        Some(value) => value,
        None => AutoColorMode::Histogram,
    }
}

/// The control for it has a known choice.
pub open spec fn color_mode_need(v: Values) -> Option<BridgeFault> {
    named_need(
        v,
        "AutoColorTransferTypeSelection"@,
        "AutoColorTransferTypeSelection"@,
        color_mode_named(choice_of(v, "AutoColorTransferTypeSelection"@)) is Some,
    )
}

pub(crate) fn color_mode_value(controls: &ControlState) -> (r: AutoColorMode)
    ensures
        r == color_mode_of(controls@),
{
    match color_mode_from(choice_value(controls, "AutoColorTransferTypeSelection").as_str()) {
        Some(value) => value,
        None => AutoColorMode::Histogram,
    }
}

pub(crate) fn check_color_mode(controls: &ControlState) -> (r: Result<(), ControlBridgeError>)
    ensures
        fault_of(r) == color_mode_need(controls@),
{
    let text: String = choice_value(controls, "AutoColorTransferTypeSelection");
    let known = color_mode_from(text.as_str()).is_some();
    check_named(controls, "AutoColorTransferTypeSelection", "AutoColorTransferTypeSelection", known)
}

/// The restorer that a control calls `value`.
pub fn restorer_size(value: &str) -> (r: Result<RestorerSize, ControlBridgeError>)
    ensures
        match r {
            Ok(size) => restorer_size_named(value@) == Some(size),
            Err(e) => restorer_size_named(value@) is None && e@ == (BridgeFault::InvalidChoice {
                control: "FaceRestorerTypeSelection"@,
                value: value@,
            }),
        },
{
    match restorer_size_from(value) {
        Some(size) => Ok(size),
        None => Err(unknown_choice("FaceRestorerTypeSelection", value)),
    }
}

/// The alignment that a control calls `value`.
pub fn restorer_alignment(value: &str) -> (r: Result<RestorerAlignment, ControlBridgeError>)
    ensures
        match r {
            Ok(alignment) => restorer_alignment_named(value@) == Some(alignment),
            Err(e) => restorer_alignment_named(value@) is None && e@
                == (BridgeFault::InvalidChoice {
                control: "FaceRestorerDetTypeSelection"@,
                value: value@,
            }),
        },
{
    match restorer_alignment_from(value) {
        Some(alignment) => Ok(alignment),
        None => Err(unknown_choice("FaceRestorerDetTypeSelection", value)),
    }
}

/// A model has the CrossSwap name `text`.
pub open spec fn names_enhancer(text: Seq<char>) -> bool {
    exists|model: EnhancerModel| #[trigger] model.crossswap() == text
}

/// The enhancement model with the CrossSwap name `text`.
pub open spec fn enhancer_model_named(text: Seq<char>) -> EnhancerModel {
    if names_enhancer(text) {
        choose|model: EnhancerModel| #[trigger] model.crossswap() == text
    } else {
        EnhancerModel::RealEsrganX2Plus
    }
}

/// The enhancement model.
pub open spec fn enhancer_model_of(v: Values) -> EnhancerModel {
    enhancer_model_named(choice_of(v, "FrameEnhancerTypeSelection"@))
}

/// The control for it has a known choice.
pub open spec fn enhancer_model_need(v: Values) -> Option<BridgeFault> {
    let text = choice_of(v, "FrameEnhancerTypeSelection"@);
    if !has_choice(v, "FrameEnhancerTypeSelection"@) {
        Some(BridgeFault::MissingOrWrongType("FrameEnhancerTypeSelection"@))
    } else if !names_enhancer(text) {
        Some(
            BridgeFault::InvalidChoice {
                control: "FrameEnhancerTypeSelection"@,
                value: "unknown CrossSwap frame enhancer "@ + text,
            },
        )
    } else {
        None
    }
}

pub(crate) fn enhancer_model_value(controls: &ControlState) -> (r: EnhancerModel)
    ensures
        r == enhancer_model_of(controls@),
{
    let text: String = choice_value(controls, "FrameEnhancerTypeSelection");
    match EnhancerModel::from_crosswap_name(text.as_str()) {
        Ok(model) => {
            proof {
                assert(names_enhancer(text@));
                let chosen = choose|other: EnhancerModel| #[trigger] other.crossswap() == text@;
                crossswap_names_are_distinct(model, chosen);
            }
            model
        },
        Err(_) => EnhancerModel::RealEsrganX2Plus,
    }
}

pub(crate) fn check_enhancer_model(controls: &ControlState) -> (r: Result<(), ControlBridgeError>)
    ensures
        fault_of(r) == enhancer_model_need(controls@),
{
    match choice(controls, "FrameEnhancerTypeSelection") {
        Err(e) => Err(e),
        Ok(text) => match EnhancerModel::from_crosswap_name(text) {
            Ok(model) => {
                assert(model.crossswap() == text@);
                Ok(())
            },
            Err(e) => Err(
                ControlBridgeError::InvalidChoice {
                    control: "FrameEnhancerTypeSelection",
                    value: join2("unknown CrossSwap frame enhancer ", e.0.as_str()),
                },
            ),
        },
    }
}

/// A measure has the CrossSwap name `text`.
pub open spec fn names_similarity(text: Seq<char>) -> bool {
    exists|measure: SimilarityType| #[trigger] measure.crossswap() == text
}

/// The measure with the CrossSwap name `text`.
pub open spec fn similarity_named(text: Seq<char>) -> SimilarityType {
    if names_similarity(text) {
        choose|measure: SimilarityType| #[trigger] measure.crossswap() == text
    } else {
        SimilarityType::Opal
    }
}

/// The similarity measure.
pub open spec fn similarity_of(v: Values) -> SimilarityType {
    similarity_named(choice_of(v, "SimilarityTypeSelection"@))
}

/// The control for it has a known choice.
pub open spec fn similarity_need(v: Values) -> Option<BridgeFault> {
    let text = choice_of(v, "SimilarityTypeSelection"@);
    if !has_choice(v, "SimilarityTypeSelection"@) {
        Some(BridgeFault::MissingOrWrongType("SimilarityTypeSelection"@))
    } else if !names_similarity(text) {
        Some(
            BridgeFault::InvalidChoice {
                control: "SimilarityTypeSelection"@,
                value: "unknown CrossSwap similarity type "@ + text,
            },
        )
    } else {
        None
    }
}

pub(crate) fn similarity_value(controls: &ControlState) -> (r: SimilarityType)
    ensures
        r == similarity_of(controls@),
{
    let text: String = choice_value(controls, "SimilarityTypeSelection");
    match SimilarityType::from_crossswap_name(text.as_str()) {
        Some(measure) => {
            proof {
                assert(names_similarity(text@));
                let chosen = choose|other: SimilarityType| #[trigger] other.crossswap() == text@;
                measures_are_distinct(measure, chosen);
            }
            measure
        },
        None => SimilarityType::Opal,
    }
}

pub(crate) fn check_similarity(controls: &ControlState) -> (r: Result<(), ControlBridgeError>)
    ensures
        fault_of(r) == similarity_need(controls@),
{
    match choice(controls, "SimilarityTypeSelection") {
        Err(e) => Err(e),
        Ok(text) => match SimilarityType::from_crossswap_name(text) {
            Some(measure) => {
                assert(measure.crossswap() == text@);
                Ok(())
            },
            None => Err(
                ControlBridgeError::InvalidChoice {
                    control: "SimilarityTypeSelection",
                    value: join2("unknown CrossSwap similarity type ", text),
                },
            ),
        },
    }
}

/// No two measures share their CrossSwap name.
pub proof fn measures_are_distinct(a: SimilarityType, b: SimilarityType)
    requires
        a.crossswap() == b.crossswap(),
    ensures
        a == b,
{
    reveal_strlit("Opal");
    reveal_strlit("Pearl");
    reveal_strlit("Optimal");
    assert("Opal"@.len() == 4);
    assert("Pearl"@.len() == 5);
    assert("Optimal"@.len() == 7);
}

/// The control for the DFM has a model, where the swapper is a DFM.
pub open spec fn dfm_model_need(v: Values) -> Option<BridgeFault> {
    if swapper_model_of(v) != SwapperModel::Dfm {
        None
    } else if !has_choice(v, "DFMModelSelection"@) {
        Some(BridgeFault::MissingOrWrongType("DFMModelSelection"@))
    } else if choice_of(v, "DFMModelSelection"@).len() == 0 {
        Some(BridgeFault::MissingDfmModel)
    } else {
        None
    }
}

pub(crate) fn check_dfm_model(controls: &ControlState) -> (r: Result<(), ControlBridgeError>)
    ensures
        fault_of(r) == dfm_model_need(controls@),
{
    if swapper_model_value(controls) != SwapperModel::Dfm {
        return Ok(());
    }
    match choice(controls, "DFMModelSelection") {
        Err(e) => Err(e),
        Ok(model) => {
            if same_text(model, "") {
                proof {
                    reveal_strlit("");
                }
                Err(ControlBridgeError::MissingDfmModel)
            } else {
                proof {
                    reveal_strlit("");
                    assert(model@.len() == 0 ==> model@ =~= ""@);
                }
                Ok(())
            }
        },
    }
}

/// The strength is read where it is on.
pub open spec fn strength_need(v: Values) -> Option<BridgeFault> {
    if toggle_of(v, "StrengthEnableToggle"@) {
        number_need(v, "StrengthAmountSlider"@)
    } else {
        None
    }
}

pub(crate) fn check_strength(controls: &ControlState) -> (r: Result<(), ControlBridgeError>)
    ensures
        fault_of(r) == strength_need(controls@),
{
    if toggle_value(controls, "StrengthEnableToggle") {
        check_number(controls, "StrengthAmountSlider")
    } else {
        Ok(())
    }
}

/// The frame rate is read where it is chosen.
pub open spec fn playback_fps_need(v: Values) -> Option<BridgeFault> {
    if toggle_of(v, "VideoPlaybackCustomFpsToggle"@) {
        number_need(v, "VideoPlaybackCustomFpsSlider"@)
    } else {
        None
    }
}

pub(crate) fn check_playback_fps(controls: &ControlState) -> (r: Result<(), ControlBridgeError>)
    ensures
        fault_of(r) == playback_fps_need(controls@),
{
    if toggle_value(controls, "VideoPlaybackCustomFpsToggle") {
        check_number(controls, "VideoPlaybackCustomFpsSlider")
    } else {
        Ok(())
    }
}

/// The way to merge embeddings is read.
pub open spec fn merge_choice_need(v: Values) -> Option<BridgeFault> {
    choice_need(v, "EmbMergeMethodSelection"@)
}

pub(crate) fn check_merge_choice(controls: &ControlState) -> (r: Result<(), ControlBridgeError>)
    ensures
        fault_of(r) == merge_choice_need(controls@),
{
    check_choice(controls, "EmbMergeMethodSelection")
}

} // verus!
