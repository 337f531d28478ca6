//! Plain values of the NVIDIA image primitives: sizes, rectangles and status codes.

use vstd::prelude::*;

verus! {

/// The status code of a primitive; zero is success, negative codes are errors.
pub type NppStatus = i32;

/// The status code of success.
pub const NPP_SUCCESS: i32 = 0;

/// A size in pixels.
#[derive(Debug, Clone, Copy, PartialEq, Eq, Structural)]
pub struct NppiSize {
    pub width: i32,
    pub height: i32,
}

/// A rectangle in pixels.
#[derive(Debug, Clone, Copy, PartialEq, Eq, Structural)]
pub struct NppiRect {
    pub x: i32,
    pub y: i32,
    pub width: i32,
    pub height: i32,
}

/// A point in pixels.
#[derive(Debug, Clone, Copy, PartialEq, Eq, Structural)]
pub struct NppiPoint {
    pub x: i32,
    pub y: i32,
}

/// Why a primitive could not be run.
#[derive(Debug, PartialEq, Eq)]
pub enum NppError {
    Status { status: NppStatus, op: String },
    NotInitialized,
    NullStream,
}

/// Turns the status of the operation `op` into a result: everything but success is an error.
pub fn check_npp(status: NppStatus, op: &str) -> (r: Result<(), NppError>)
    ensures
        match r {
            Ok(()) => status == NPP_SUCCESS,
            Err(e) => status != NPP_SUCCESS && match e {
                NppError::Status { status: s, op: o } => s == status && o@ == op@,
                _ => false,
            },
        },
{
    if status == NPP_SUCCESS {
        Ok(())
    } else {
        Err(NppError::Status { status, op: op.to_owned() })
    }
}

/// How an image of three planes lies in memory.
#[derive(Debug, Clone, Copy, PartialEq, Eq)]
pub struct PlaneLayout {
    /// Where the planes begin, in numbers.
    pub first: usize,
    pub second: usize,
    pub third: usize,
    /// The bytes of a row.
    pub step: i32,
    pub size: NppiSize,
    pub roi: NppiRect,
}

/// How an image of three planes of four-byte numbers lies in memory.
pub fn plane_layout(width: i32, height: i32) -> (r: PlaneLayout)
    requires
        0 <= width,
        0 <= height,
        width * 4 <= i32::MAX,
        2 * (width * height) <= usize::MAX,
    ensures
        r.first == 0,
        r.second == width * height,
        r.third == 2 * (width * height),
        r.step == 4 * width,
        r.size == (NppiSize { width, height }),
        r.roi == (NppiRect { x: 0, y: 0, width, height }),
{
    proof {
        assert(0 <= width * height && height * width == width * height) by (nonlinear_arith)
            requires
                0 <= width,
                0 <= height,
        ;
    }
    let plane: usize = height as usize * width as usize;
    PlaneLayout {
        first: 0,
        second: plane,
        third: 2 * plane,
        step: width * 4,
        size: NppiSize { width, height },
        roi: NppiRect { x: 0, y: 0, width, height },
    }
}

} // verus!
