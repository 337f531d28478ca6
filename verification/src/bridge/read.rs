//! Reading one control, and why that fails.

use vstd::prelude::*;

use crate::controls::{ControlState, ControlValue};
use crate::faces::FaceWorkspaceError;
use crate::number::{clamped, Double, NumberText, Single};
use crate::reports::fault_of;

verus! {

/// The values of controls by their ids.
pub type Values = Map<Seq<char>, ControlValue>;

/// Why controls and faces do not make an engine request.
#[derive(Debug, PartialEq, Eq)]
pub enum ControlBridgeError {
    MissingOrWrongType(&'static str),
    InvalidChoice { control: &'static str, value: String },
    MissingDfmModel,
    TooManyDfmModels { requested: u64, maximum: u64 },
    NoFaceAssignments,
    MissingTargetEmbedding(String),
    InvalidEmbedding(String),
    EngineRequest(String),
    Faces(FaceWorkspaceError),
}

/// An error of the bridge, its texts as sequences of characters.
pub ghost enum BridgeFault {
    MissingOrWrongType(Seq<char>),
    InvalidChoice { control: Seq<char>, value: Seq<char> },
    MissingDfmModel,
    TooManyDfmModels { requested: int, maximum: int },
    NoFaceAssignments,
    MissingTargetEmbedding(Seq<char>),
    InvalidEmbedding(Seq<char>),
    EngineRequest(Seq<char>),
    Faces(FaceWorkspaceError),
}

impl View for ControlBridgeError {
    type V = BridgeFault;

    open spec fn view(&self) -> BridgeFault {
        match self {
            ControlBridgeError::MissingOrWrongType(id) => BridgeFault::MissingOrWrongType(id@),
            ControlBridgeError::InvalidChoice { control, value } => BridgeFault::InvalidChoice {
                control: control@,
                value: value@,
            },
            ControlBridgeError::MissingDfmModel => BridgeFault::MissingDfmModel,
            ControlBridgeError::TooManyDfmModels {
                requested,
                maximum,
            } => BridgeFault::TooManyDfmModels {
                requested: *requested as int,
                maximum: *maximum as int,
            },
            ControlBridgeError::NoFaceAssignments => BridgeFault::NoFaceAssignments,
            ControlBridgeError::MissingTargetEmbedding(id) => BridgeFault::MissingTargetEmbedding(
                id@,
            ),
            ControlBridgeError::InvalidEmbedding(reason) => BridgeFault::InvalidEmbedding(reason@),
            ControlBridgeError::EngineRequest(reason) => BridgeFault::EngineRequest(reason@),
            ControlBridgeError::Faces(e) => BridgeFault::Faces(*e),
        }
    }
}

/// The control `id` is a toggle.
pub open spec fn has_toggle(v: Values, id: Seq<char>) -> bool {
    v.dom().contains(id) && v[id] is Toggle
}

/// The control `id` is a slider.
pub open spec fn has_number(v: Values, id: Seq<char>) -> bool {
    v.dom().contains(id) && v[id] is Slider
}

/// The control `id` is a choice.
pub open spec fn has_choice(v: Values, id: Seq<char>) -> bool {
    v.dom().contains(id) && v[id] is Choice
}

/// The value of a toggle.
pub open spec fn toggle_of(v: Values, id: Seq<char>) -> bool {
    has_toggle(v, id) && v[id]->Toggle_0
}

/// The value of a slider.
pub open spec fn number_of(v: Values, id: Seq<char>) -> Double {
    if has_number(v, id) {
        v[id]->Slider_0
    } else {
        Double {
            bits: 0,
            single: Single { bits: 0 },
            percent: Single { bits: 0 },
            whole: 0,
            text: NumberText { code: 0x1c1 },
        }
    }
}

/// The text of a choice.
pub open spec fn choice_of(v: Values, id: Seq<char>) -> Seq<char> {
    if has_choice(v, id) {
        v[id]->Choice_0@
    } else {
        Seq::empty()
    }
}

/// The value of a slider in single precision.
pub open spec fn single_of(v: Values, id: Seq<char>) -> Single {
    number_of(v, id).single
}

/// The hundredth of the value of a slider in single precision.
pub open spec fn percent_of(v: Values, id: Seq<char>) -> Single {
    number_of(v, id).percent
}

/// The value of a slider as `u64`.
pub open spec fn u64_of(v: Values, id: Seq<char>) -> u64 {
    clamped(number_of(v, id).whole as int, 0, u64::MAX as int) as u64
}

/// The value of a slider as `u32`.
pub open spec fn u32_of(v: Values, id: Seq<char>) -> u32 {
    clamped(number_of(v, id).whole as int, 0, u32::MAX as int) as u32
}

/// The value of a slider as `u16`.
pub open spec fn u16_of(v: Values, id: Seq<char>) -> u16 {
    clamped(number_of(v, id).whole as int, 0, u16::MAX as int) as u16
}

/// The value of a slider as `u8`.
pub open spec fn u8_of(v: Values, id: Seq<char>) -> u8 {
    clamped(number_of(v, id).whole as int, 0, u8::MAX as int) as u8
}

/// The value of a slider as `i32`.
pub open spec fn i32_of(v: Values, id: Seq<char>) -> i32 {
    clamped(number_of(v, id).whole as int, i32::MIN as int, i32::MAX as int) as i32
}

/// A toggle is read.
pub open spec fn toggle_need(v: Values, id: Seq<char>) -> Option<BridgeFault> {
    if has_toggle(v, id) {
        None
    } else {
        Some(BridgeFault::MissingOrWrongType(id))
    }
}

/// A slider is read.
pub open spec fn number_need(v: Values, id: Seq<char>) -> Option<BridgeFault> {
    if has_number(v, id) {
        None
    } else {
        Some(BridgeFault::MissingOrWrongType(id))
    }
}

/// A choice is read.
pub open spec fn choice_need(v: Values, id: Seq<char>) -> Option<BridgeFault> {
    if has_choice(v, id) {
        None
    } else {
        Some(BridgeFault::MissingOrWrongType(id))
    }
}

/// A choice is read that has to be known. One that is not is reported for the control `reported`.
pub open spec fn named_need(v: Values, id: Seq<char>, reported: Seq<char>, known: bool) -> Option<
    BridgeFault,
> {
    if !has_choice(v, id) {
        Some(BridgeFault::MissingOrWrongType(id))
    } else if !known {
        Some(BridgeFault::InvalidChoice { control: reported, value: choice_of(v, id) })
    } else {
        None
    }
}

/// The value of a toggle.
pub fn toggle(controls: &ControlState, id: &'static str) -> (r: Result<bool, ControlBridgeError>)
    ensures
        match r {
            Ok(value) => toggle_need(controls@, id@) is None && value == toggle_of(controls@, id@),
            Err(e) => toggle_need(controls@, id@) == Some(e@),
        },
{
    match controls.get(id) {
        Some(ControlValue::Toggle(value)) => Ok(*value),
        _ => Err(ControlBridgeError::MissingOrWrongType(id)),
    }
}

/// The value of a slider.
pub fn number(controls: &ControlState, id: &'static str) -> (r: Result<Double, ControlBridgeError>)
    ensures
        match r {
            Ok(value) => number_need(controls@, id@) is None && value == number_of(controls@, id@),
            Err(e) => number_need(controls@, id@) == Some(e@),
        },
{
    match controls.get(id) {
        Some(ControlValue::Slider(value)) => Ok(*value),
        _ => Err(ControlBridgeError::MissingOrWrongType(id)),
    }
}

/// The hundredth of the value of a slider.
pub fn percent(controls: &ControlState, id: &'static str) -> (r: Result<Single, ControlBridgeError>)
    ensures
        match r {
            Ok(value) => number_need(controls@, id@) is None && value == percent_of(
                controls@,
                id@,
            ),
            Err(e) => number_need(controls@, id@) == Some(e@),
        },
{
    match number(controls, id) {
        Ok(value) => Ok(value.percent),
        Err(e) => Err(e),
    }
}

/// The text of a choice.
pub fn choice<'a>(controls: &'a ControlState, id: &'static str) -> (r: Result<
    &'a str,
    ControlBridgeError,
>)
    ensures
        match r {
            Ok(value) => choice_need(controls@, id@) is None && value@ == choice_of(
                controls@,
                id@,
            ),
            Err(e) => choice_need(controls@, id@) == Some(e@),
        },
{
    match controls.get(id) {
        Some(ControlValue::Choice(value)) => Ok(value.as_str()),
        _ => Err(ControlBridgeError::MissingOrWrongType(id)),
    }
}

/// A choice that is not known.
pub fn unknown_choice(control: &'static str, value: &str) -> (r: ControlBridgeError)
    ensures
        r@ == (BridgeFault::InvalidChoice { control: control@, value: value@ }),
{
    ControlBridgeError::InvalidChoice { control, value: value.to_owned() }
}

pub(crate) fn check_toggle(controls: &ControlState, id: &'static str) -> (r: Result<
    (),
    ControlBridgeError,
>)
    ensures
        fault_of(r) == toggle_need(controls@, id@),
{
    match toggle(controls, id) {
        Ok(_) => Ok(()),
        Err(e) => Err(e),
    }
}

pub(crate) fn check_number(controls: &ControlState, id: &'static str) -> (r: Result<
    (),
    ControlBridgeError,
>)
    ensures
        fault_of(r) == number_need(controls@, id@),
{
    match number(controls, id) {
        Ok(_) => Ok(()),
        Err(e) => Err(e),
    }
}

pub(crate) fn check_choice(controls: &ControlState, id: &'static str) -> (r: Result<
    (),
    ControlBridgeError,
>)
    ensures
        fault_of(r) == choice_need(controls@, id@),
{
    match choice(controls, id) {
        Ok(_) => Ok(()),
        Err(e) => Err(e),
    }
}

pub(crate) fn check_named(
    controls: &ControlState,
    id: &'static str,
    reported: &'static str,
    known: bool,
) -> (r: Result<(), ControlBridgeError>)
    ensures
        fault_of(r) == named_need(controls@, id@, reported@, known),
{
    match choice(controls, id) {
        Err(e) => Err(e),
        Ok(text) => {
            if known {
                Ok(())
            } else {
                Err(unknown_choice(reported, text))
            }
        },
    }
}

pub(crate) fn toggle_value(controls: &ControlState, id: &'static str) -> (r: bool)
    ensures
        r == toggle_of(controls@, id@),
{
    match toggle(controls, id) {
        Ok(value) => value,
        Err(_) => false,
    }
}

pub(crate) fn number_value(controls: &ControlState, id: &'static str) -> (r: Double)
    ensures
        r == number_of(controls@, id@),
{
    match number(controls, id) {
        Ok(value) => value,
        Err(_) => Double {
            bits: 0,
            single: Single { bits: 0 },
            percent: Single { bits: 0 },
            whole: 0,
            text: NumberText { code: 0x1c1 },
        },
    }
}

pub(crate) fn choice_value(controls: &ControlState, id: &'static str) -> (r: String)
    ensures
        r@ == choice_of(controls@, id@),
{
    match choice(controls, id) {
        Ok(value) => value.to_owned(),
        Err(_) => String::new(),
    }
}

pub(crate) fn single_value(controls: &ControlState, id: &'static str) -> (r: Single)
    ensures
        r == single_of(controls@, id@),
{
    number_value(controls, id).single
}

pub(crate) fn percent_value(controls: &ControlState, id: &'static str) -> (r: Single)
    ensures
        r == percent_of(controls@, id@),
{
    number_value(controls, id).percent
}

pub(crate) fn u64_value(controls: &ControlState, id: &'static str) -> (r: u64)
    ensures
        r == u64_of(controls@, id@),
{
    number_value(controls, id).to_u64()
}

pub(crate) fn u32_value(controls: &ControlState, id: &'static str) -> (r: u32)
    ensures
        r == u32_of(controls@, id@),
{
    number_value(controls, id).to_u32()
}

pub(crate) fn u16_value(controls: &ControlState, id: &'static str) -> (r: u16)
    ensures
        r == u16_of(controls@, id@),
{
    number_value(controls, id).to_u16()
}

pub(crate) fn u8_value(controls: &ControlState, id: &'static str) -> (r: u8)
    ensures
        r == u8_of(controls@, id@),
{
    number_value(controls, id).to_u8()
}

pub(crate) fn i32_value(controls: &ControlState, id: &'static str) -> (r: i32)
    ensures
        r == i32_of(controls@, id@),
{
    number_value(controls, id).to_i32()
}

} // verus!
