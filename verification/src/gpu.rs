//! What is decided before work goes to the device: sizes, shapes of launches, and the numbers that
//! color conversions take.

use vstd::prelude::*;

use crate::number::magnitude32;
use crate::number::{Single, ONE};
use crate::recording::PixelFormat;

verus! {

/// How the colors of a video are coded.
#[derive(Debug, Clone, Copy, PartialEq, Eq, Structural)]
pub enum ColorMatrix {
    Unspecified,
    Bt601,
    Bt709,
    Bt2020NonConstantLuminance,
}

/// Which values the samples of a video use.
#[derive(Debug, Clone, Copy, PartialEq, Eq, Structural)]
pub enum ColorRange {
    Unspecified,
    Limited,
    Full,
}

/// From this width on, a video that does not say so is taken for high definition.
pub const HIGH_DEFINITION_WIDTH: u32 = 1280;

/// The matrix of a video: the one it names, or the usual one for its width.
pub open spec fn matrix_for(matrix: ColorMatrix, width: u32) -> ColorMatrix {
    match matrix {
        ColorMatrix::Unspecified => if width < HIGH_DEFINITION_WIDTH {
            ColorMatrix::Bt601
        } else {
            ColorMatrix::Bt709
        },
        _ => matrix,
    }
}

/// The matrix of a video.
pub fn effective_matrix(matrix: ColorMatrix, width: u32) -> (r: ColorMatrix)
    ensures
        r == matrix_for(matrix, width),
        r != ColorMatrix::Unspecified,
{
    match matrix {
        ColorMatrix::Unspecified => if width < HIGH_DEFINITION_WIDTH {
            ColorMatrix::Bt601
        } else {
            ColorMatrix::Bt709
        },
        _ => matrix,
    }
}

/// The numbers that turn a decoded picture into red, green and blue.
#[derive(Debug, Clone, Copy, PartialEq, Eq, Structural)]
pub struct DecodeColor {
    pub y_offset: Single,
    pub y_scale: Single,
    pub red_v: Single,
    pub green_u: Single,
    pub green_v: Single,
    pub blue_u: Single,
}

/// Four numbers by their bit patterns.
pub open spec fn pattern4(a: u32, b: u32, c: u32, d: u32) -> (Single, Single, Single, Single) {
    (Single { bits: a }, Single { bits: b }, Single { bits: c }, Single { bits: d })
}

fn four(a: u32, b: u32, c: u32, d: u32) -> (r: (Single, Single, Single, Single))
    ensures
        r == pattern4(a, b, c, d),
{
    (Single { bits: a }, Single { bits: b }, Single { bits: c }, Single { bits: d })
}

/// Sixteen, as a single-precision pattern.
pub const SIXTEEN: u32 = 0x4180_0000;

/// The nearest single-precision number to 255 / 219, as a single-precision pattern.
pub const LIMITED_SCALE: u32 = 0x3f95_0a85;

/// The factors of the color samples, by the matrix and whether the range is limited.
pub open spec fn decode_factors(matrix: ColorMatrix, limited: bool) -> (
    Single,
    Single,
    Single,
    Single,
) {
    match (matrix, limited) {
        (ColorMatrix::Bt601, true) => pattern4(0x3fcc_49ba, 0xbec8_b439, 0xbf50_20c5, 0x4001_1687),
        (ColorMatrix::Bt709, true) => pattern4(0x3fe5_8106, 0xbe5a_1cac, 0xbf08_72b0, 0x4007_2b02),
        (ColorMatrix::Bt2020NonConstantLuminance, true) => pattern4(0x3fd6_e979, 0xbe3f_7cee, 0xbf26_6666, 0x4009_1687),
        (ColorMatrix::Bt601, false) => pattern4(0x3fb3_74bc, 0xbeb0_3298, 0xbf36_d19e, 0x3fe2_d0e5),
        (ColorMatrix::Bt709, false) => pattern4(0x3fc9_930c, 0xbe3f_d1dd, 0xbeef_adf3, 0x3fed_844d),
        (ColorMatrix::Bt2020NonConstantLuminance, false) => pattern4(0x3fbc_bfb1, 0xbe28_8095, 0xbf12_4431, 0x3ff0_d1b7),
        (ColorMatrix::Unspecified, _) => pattern4(0, 0, 0, 0),
    }
}

/// The numbers for a video with a matrix and a range.
pub open spec fn decode_numbers(matrix: ColorMatrix, range: ColorRange, width: u32) -> DecodeColor {
    let limited = range != ColorRange::Full;
    let factors = decode_factors(matrix_for(matrix, width), limited);
    DecodeColor {
        y_offset: Single {
            bits: if limited {
                SIXTEEN
            } else {
                0
            },
        },
        y_scale: Single {
            bits: if limited {
                LIMITED_SCALE
            } else {
                ONE
            },
        },
        red_v: factors.0,
        green_u: factors.1,
        green_v: factors.2,
        blue_u: factors.3,
    }
}

/// The numbers that turn a decoded picture into red, green and blue.
pub fn decode_color(matrix: ColorMatrix, range: ColorRange, width: u32) -> (r: DecodeColor)
    ensures
        r == decode_numbers(matrix, range, width),
{
    let limited: bool = match range {
        ColorRange::Full => false,
        _ => true,
    };
    let factors = match (effective_matrix(matrix, width), limited) {
        (ColorMatrix::Bt601, true) => four(0x3fcc_49ba, 0xbec8_b439, 0xbf50_20c5, 0x4001_1687),
        (ColorMatrix::Bt709, true) => four(0x3fe5_8106, 0xbe5a_1cac, 0xbf08_72b0, 0x4007_2b02),
        (ColorMatrix::Bt2020NonConstantLuminance, true) => four(0x3fd6_e979, 0xbe3f_7cee, 0xbf26_6666, 0x4009_1687),
        (ColorMatrix::Bt601, false) => four(0x3fb3_74bc, 0xbeb0_3298, 0xbf36_d19e, 0x3fe2_d0e5),
        (ColorMatrix::Bt709, false) => four(0x3fc9_930c, 0xbe3f_d1dd, 0xbeef_adf3, 0x3fed_844d),
        (ColorMatrix::Bt2020NonConstantLuminance, false) => four(0x3fbc_bfb1, 0xbe28_8095, 0xbf12_4431, 0x3ff0_d1b7),
        (ColorMatrix::Unspecified, _) => four(0, 0, 0, 0),
    };
    DecodeColor {
        y_offset: Single {
            bits: if limited {
                SIXTEEN
            } else {
                0
            },
        },
        y_scale: Single {
            bits: if limited {
                LIMITED_SCALE
            } else {
                ONE
            },
        },
        red_v: factors.0,
        green_u: factors.1,
        green_v: factors.2,
        blue_u: factors.3,
    }
}

/// The numbers that turn red, green and blue into the samples of a video: three factors and an
/// offset of the brightness, six factors of the color samples, and their offset.
#[derive(Debug, Clone, Copy, PartialEq, Eq)]
pub struct EncodeColor {
    pub y: (Single, Single, Single, Single),
    pub uv: (Single, Single, Single, Single),
    pub v: (Single, Single, Single),
}

/// Eleven numbers by their bit patterns.
pub open spec fn pattern11(
    y: (u32, u32, u32, u32),
    uv: (u32, u32, u32, u32),
    v: (u32, u32, u32),
) -> EncodeColor {
    EncodeColor {
        y: pattern4(y.0, y.1, y.2, y.3),
        uv: pattern4(uv.0, uv.1, uv.2, uv.3),
        v: (Single { bits: v.0 }, Single { bits: v.1 }, Single { bits: v.2 }),
    }
}

fn eleven(y: (u32, u32, u32, u32), uv: (u32, u32, u32, u32), v: (u32, u32, u32)) -> (r: EncodeColor)
    ensures
        r == pattern11(y, uv, v),
{
    EncodeColor {
        y: four(y.0, y.1, y.2, y.3),
        uv: four(uv.0, uv.1, uv.2, uv.3),
        v: (Single { bits: v.0 }, Single { bits: v.1 }, Single { bits: v.2 }),
    }
}

/// The numbers for a matrix, and whether the full range is used.
pub open spec fn encode_numbers(matrix: ColorMatrix, full: bool) -> EncodeColor {
    match (matrix, full) {
        (ColorMatrix::Bt601, true) => pattern11(
            (0x3e99_1687, 0x3f16_45a2, 0x3de9_78d5, 0x0000_0000),
            (0xbe2c_c921, 0xbea9_9b6f, 0x3f00_0000, 0x3f00_0000),
            (0xbed6_5e46, 0xbda6_86e8, 0x4300_0000),
        ),
        (ColorMatrix::Bt709, true) => pattern11(
            (0x3e59_b3d0, 0x3f37_1759, 0x3d93_dd98, 0x0000_0000),
            (0xbdea_a4ba, 0xbec5_56d2, 0x3f00_0000, 0x3f00_0000),
            (0xbee8_86be, 0xbd3b_ca10, 0x4300_0000),
        ),
        (ColorMatrix::Bt2020NonConstantLuminance, true) => pattern11(
            (0x3e86_809d, 0x3f2d_9168, 0x3d72_e48f, 0x0000_0000),
            (0xbe0e_fb2b, 0xbeb8_826b, 0x3f00_0000, 0x3f00_0000),
            (0xbeeb_6912, 0xbd24_b76f, 0x4300_0000),
        ),
        (ColorMatrix::Bt601, false) => pattern11(
            (0x3e83_9581, 0x3f01_0625, 0x3dc8_b439, 0x4180_0000),
            (0xbe17_8d50, 0xbe94_fdf4, 0x3ee0_c49c, 0x3ee0_c49c),
            (0xbebc_6a7f, 0xbd91_6873, 0x4300_0000),
        ),
        (ColorMatrix::Bt709, false) => pattern11(
            (0x3e3b_645a, 0x3f1d_2f1b, 0x3d7d_f3b6, 0x4180_0000),
            (0xbdce_d917, 0xbead_9168, 0x3ee0_c49c, 0x3ee0_c49c),
            (0xbecc_49ba, 0xbd23_d70a, 0x4300_0000),
        ),
        (ColorMatrix::Bt2020NonConstantLuminance, false) => pattern11(
            (0x3e67_03b0, 0x3f15_119d, 0x3d50_7c85, 0x4180_0000),
            (0xbdfb_4a23, 0xbea2_1965, 0x3ee0_ded3, 0x3ee0_ded3),
            (0xbece_cbfb, 0xbd10_96bc, 0x4300_0000),
        ),
        (ColorMatrix::Unspecified, _) => pattern11((0, 0, 0, 0), (0, 0, 0, 0), (0, 0, 0)),
    }
}

/// The numbers that turn red, green and blue into the samples of a video.
pub fn encode_color(matrix: ColorMatrix, range: ColorRange, width: u32) -> (r: EncodeColor)
    ensures
        r == encode_numbers(matrix_for(matrix, width), range == ColorRange::Full),
{
    let full: bool = match range {
        ColorRange::Full => true,
        _ => false,
    };
    match (effective_matrix(matrix, width), full) {
        (ColorMatrix::Bt601, true) => eleven(
            (0x3e99_1687, 0x3f16_45a2, 0x3de9_78d5, 0x0000_0000),
            (0xbe2c_c921, 0xbea9_9b6f, 0x3f00_0000, 0x3f00_0000),
            (0xbed6_5e46, 0xbda6_86e8, 0x4300_0000),
        ),
        (ColorMatrix::Bt709, true) => eleven(
            (0x3e59_b3d0, 0x3f37_1759, 0x3d93_dd98, 0x0000_0000),
            (0xbdea_a4ba, 0xbec5_56d2, 0x3f00_0000, 0x3f00_0000),
            (0xbee8_86be, 0xbd3b_ca10, 0x4300_0000),
        ),
        (ColorMatrix::Bt2020NonConstantLuminance, true) => eleven(
            (0x3e86_809d, 0x3f2d_9168, 0x3d72_e48f, 0x0000_0000),
            (0xbe0e_fb2b, 0xbeb8_826b, 0x3f00_0000, 0x3f00_0000),
            (0xbeeb_6912, 0xbd24_b76f, 0x4300_0000),
        ),
        (ColorMatrix::Bt601, false) => eleven(
            (0x3e83_9581, 0x3f01_0625, 0x3dc8_b439, 0x4180_0000),
            (0xbe17_8d50, 0xbe94_fdf4, 0x3ee0_c49c, 0x3ee0_c49c),
            (0xbebc_6a7f, 0xbd91_6873, 0x4300_0000),
        ),
        (ColorMatrix::Bt709, false) => eleven(
            (0x3e3b_645a, 0x3f1d_2f1b, 0x3d7d_f3b6, 0x4180_0000),
            (0xbdce_d917, 0xbead_9168, 0x3ee0_c49c, 0x3ee0_c49c),
            (0xbecc_49ba, 0xbd23_d70a, 0x4300_0000),
        ),
        (ColorMatrix::Bt2020NonConstantLuminance, false) => eleven(
            (0x3e67_03b0, 0x3f15_119d, 0x3d50_7c85, 0x4180_0000),
            (0xbdfb_4a23, 0xbea2_1965, 0x3ee0_ded3, 0x3ee0_ded3),
            (0xbece_cbfb, 0xbd10_96bc, 0x4300_0000),
        ),
        (ColorMatrix::Unspecified, _) => eleven((0, 0, 0, 0), (0, 0, 0, 0), (0, 0, 0)),
    }
}

proof fn pixels_fit(height: u32, width: u32)
    ensures
        0 <= height * width <= 0xffff_ffff * 0xffff_ffff,
{
    assert(0 <= height * width && height * width <= 0xffff_ffff * 0xffff_ffff) by (nonlinear_arith)
        requires
            height <= 0xffff_ffff,
            width <= 0xffff_ffff,
    ;
}

/// Whether a decoded surface can be read into a buffer of numbers.
pub fn surface_is_readable(
    pointer: u64,
    pitch: u32,
    width: u32,
    height: u32,
    numbers: u64,
) -> (r: bool)
    ensures
        r == (pointer != 0 && pitch >= width && width > 0 && height > 0 && numbers >= 3 * (height
            * width)),
{
    proof {
        pixels_fit(height, width);
    }
    let needed: u128 = 3 * (height as u128 * width as u128);
    pointer != 0 && pitch >= width && width > 0 && height > 0 && numbers as u128 >= needed
}

/// The bytes of a row of samples.
pub open spec fn sample_row(width: u32, format: PixelFormat) -> int {
    match format {
        PixelFormat::Nv12 => width as int,
        PixelFormat::P010 => 2 * width,
    }
}

/// Whether a picture can be written to a surface of even size.
pub fn surface_is_writable(
    pointer: u64,
    pitch: u32,
    source: (u32, u32),
    numbers: u64,
    width: u32,
    height: u32,
    format: PixelFormat,
) -> (r: bool)
    ensures
        r == (pointer != 0 && source.0 > 0 && source.1 > 0 && width > 0 && height > 0 && width % 2
            == 0 && height % 2 == 0 && numbers >= 3 * (source.1 * source.0) && pitch
            >= sample_row(width, format)),
{
    proof {
        pixels_fit(source.1, source.0);
    }
    let needed: u128 = 3 * (source.1 as u128 * source.0 as u128);
    let row: u64 = match format {
        PixelFormat::Nv12 => width as u64,
        PixelFormat::P010 => 2 * width as u64,
    };
    pointer != 0 && source.0 > 0 && source.1 > 0 && width > 0 && height > 0 && width % 2 == 0
        && height % 2 == 0 && numbers as u128 >= needed && pitch as u64 >= row
}

/// Whether a buffer holds a picture of even size whose rows follow each other without a gap: a row
/// of samples for each line, and one more for every two lines.
pub fn buffer_is_writable(bytes: u64, width: u32, height: u32, format: PixelFormat) -> (r: bool)
    ensures
        r == (width > 0 && height > 0 && width % 2 == 0 && height % 2 == 0 && bytes >= sample_row(
            width,
            format,
        ) * (height * 3 / 2)),
{
    let row: u64 = match format {
        PixelFormat::Nv12 => width as u64,
        PixelFormat::P010 => 2 * width as u64,
    };
    let lines: u64 = height as u64 * 3 / 2;
    proof {
        assert(0 <= row * lines <= 0x1_ffff_ffff * 0x1_ffff_ffff) by (nonlinear_arith)
            requires
                0 <= row <= 0x1_ffff_ffff,
                0 <= lines <= 0x1_ffff_ffff,
        ;
    }
    let needed: u128 = row as u128 * lines as u128;
    width > 0 && height > 0 && width % 2 == 0 && height % 2 == 0 && bytes as u128 >= needed
}

/// The numbers that a face of `dim` by `dim` tiles takes.
pub fn tile_numbers(dim: u32, tile_size: u32) -> (r: Option<u32>)
    ensures
        r == if dim * dim * 3 * tile_size * tile_size <= u32::MAX {
            Some((dim * dim * 3 * tile_size * tile_size) as u32)
        } else {
            None
        },
{
    proof {
        assert(0 <= dim * dim && dim * dim <= 0xffff_ffff * 0xffff_ffff) by (nonlinear_arith)
            requires
                dim <= 0xffff_ffff,
        ;
    }
    let tiles: u128 = dim as u128 * dim as u128;
    if tiles * 3 > u32::MAX as u128 {
        proof {
            assert(tile_size >= 1 ==> dim * dim * 3 * tile_size * tile_size >= dim * dim * 3)
                by (nonlinear_arith)
                requires
                    0 <= dim * dim,
            ;
            assert(tile_size == 0 ==> dim * dim * 3 * tile_size * tile_size == 0)
                by (nonlinear_arith);
        }
        if tile_size == 0 {
            return Some(0);
        }
        return None;
    }
    let channels: u128 = tiles * 3;
    proof {
        assert(0 <= channels * tile_size && channels * tile_size <= 0xffff_ffff * 0xffff_ffff)
            by (nonlinear_arith)
            requires
                0 <= channels <= 0xffff_ffff,
                tile_size <= 0xffff_ffff,
        ;
        let rows = channels * tile_size;
        assert(0 <= rows * tile_size && rows * tile_size <= 0xffff_ffff * 0xffff_ffff
            * 0xffff_ffff) by (nonlinear_arith)
            requires
                0 <= rows <= 0xffff_ffff * 0xffff_ffff,
                tile_size <= 0xffff_ffff,
        ;
    }
    let numbers: u128 = channels * tile_size as u128 * tile_size as u128;
    if numbers > u32::MAX as u128 {
        None
    } else {
        Some(numbers as u32)
    }
}

/// How many pixels of a frame a face is pasted over. Nothing is launched for none.
pub fn pasted_pixels(left: u32, top: u32, right: u32, bottom: u32) -> (r: u64)
    requires
        left <= right,
        top <= bottom,
    ensures
        r == (right - left) * (bottom - top),
{
    proof {
        assert(0 <= (right - left) * (bottom - top) && (right - left) * (bottom - top) <= 0xffff_ffff
            * 0xffff_ffff) by (nonlinear_arith)
            requires
                0 <= right - left <= 0xffff_ffff,
                0 <= bottom - top <= 0xffff_ffff,
        ;
    }
    (right - left) as u64 * (bottom - top) as u64
}

/// Where the borders of a mask end on its far sides.
pub fn far_borders(size: u32, bottom: u32, right: u32) -> (r: Option<(u32, u32)>)
    ensures
        r == if bottom <= size && right <= size {
            Some(((size - bottom) as u32, (size - right) as u32))
        } else {
            None
        },
{
    if bottom <= size && right <= size {
        Some((size - bottom, size - right))
    } else {
        None
    }
}

/// The largest kernel of a blur.
pub const MAX_BLUR: u32 = 65;

/// How many groups of threads cover `n` items.
pub open spec fn groups_for(n: u32, per_group: int) -> int {
    (n + per_group - 1) / per_group
}

/// The launches of a blur: one over the rows and one over the columns.
#[derive(Debug, Clone, Copy, PartialEq, Eq)]
pub struct BlurLaunch {
    pub grid: (u32, u32, u32),
    pub row_shared_bytes: u32,
    pub column_shared_bytes: u32,
}

/// The launches of a blur in groups of 32 by 8 threads. A kernel of one number changes nothing, so
/// nothing is launched for it.
pub fn blur_launch(width: u32, height: u32, kernel: u32, channels: u32) -> (r: Option<BlurLaunch>)
    requires
        kernel <= MAX_BLUR,
    ensures
        r is None <==> kernel <= 1,
        r matches Some(launch) ==> {
            &&& launch.grid.0 == groups_for(width, 32)
            &&& launch.grid.1 == groups_for(height, 8)
            &&& launch.grid.2 == channels
            &&& launch.row_shared_bytes == (32 + kernel - 1) * 8 * 4
            &&& launch.column_shared_bytes == 32 * (8 + kernel - 1) * 4
        },
{
    if kernel <= 1 {
        return None;
    }
    let columns: u32 = ((width as u64 + 31) / 32) as u32;
    let rows: u32 = ((height as u64 + 7) / 8) as u32;
    Some(
        BlurLaunch {
            grid: (columns, rows, channels),
            row_shared_bytes: (32 + kernel - 1) * 8 * 4,
            column_shared_bytes: 32 * (8 + kernel - 1) * 4,
        },
    )
}

/// The groups of a launch cover all items, and none of them is idle.
pub proof fn groups_cover_everything(n: u32, per_group: int)
    requires
        per_group > 0,
    ensures
        groups_for(n, per_group) * per_group >= n,
        n > 0 ==> (groups_for(n, per_group) - 1) * per_group < n,
{
    let groups = groups_for(n, per_group);
    vstd::arithmetic::div_mod::lemma_fundamental_div_mod(n + per_group - 1, per_group);
    vstd::arithmetic::div_mod::lemma_mod_bound(n + per_group - 1, per_group);
    assert(groups * per_group == per_group * groups) by (nonlinear_arith);
    assert((groups - 1) * per_group == groups * per_group - per_group) by (nonlinear_arith);
}

/// The passes that grow or shrink a mask.
#[derive(Debug, Clone, Copy, PartialEq, Eq, Structural)]
pub struct Morphology {
    pub passes: u32,
    pub grow: bool,
    /// The last pass went to the other buffer, so that it is copied back.
    pub copy_back: bool,
}

/// The most passes that are made over a mask.
pub const MAX_PASSES: u32 = 100;

/// The passes that grow a mask by `amount`, or shrink it where that is negative.
pub fn morphology(amount: i32) -> (r: Morphology)
    ensures
        r.passes == if amount > MAX_PASSES || amount < -(MAX_PASSES as int) {
            MAX_PASSES as int
        } else if amount < 0 {
            -amount
        } else {
            amount as int
        },
        r.grow == (amount > 0),
        r.copy_back == (r.passes % 2 == 1),
{
    let size: u32 = if amount < 0 {
        (-(amount as i64)) as u32
    } else {
        amount as u32
    };
    let passes: u32 = if size < MAX_PASSES {
        size
    } else {
        MAX_PASSES
    };
    Morphology { passes, grow: amount > 0, copy_back: passes % 2 == 1 }
}

/// Which buffer holds the mask after `n` passes that go back and forth between two.
pub open spec fn holds_mask(n: nat) -> bool
    decreases n,
{
    n == 0 || !holds_mask((n - 1) as nat)
}

/// The mask is copied back exactly where the last pass left it in the other buffer.
pub proof fn mask_ends_in_its_buffer(n: nat)
    ensures
        holds_mask(n) == (n % 2 == 0),
    decreases n,
{
    if n > 0 {
        mask_ends_in_its_buffer((n - 1) as nat);
    }
}

/// The stages that are measured.
pub const PROFILE_STAGES: usize = 8;

/// When the times of stages are reported.
#[derive(Debug, Clone, Copy, PartialEq, Eq, Structural)]
pub struct ProfilingState {
    pub frame_count: u64,
    pub report_every: u64,
    /// The last stage that a frame reached.
    pub last_active_idx: usize,
}

impl ProfilingState {
    /// No frame was measured.
    pub fn new() -> (r: Self)
        ensures
            r == (ProfilingState { frame_count: 0, report_every: 30, last_active_idx: 0 }),
    {
        ProfilingState { frame_count: 0, report_every: 30, last_active_idx: 0 }
    }

    /// Whether a stage is one that is measured.
    pub fn marks(&self, index: usize) -> (r: bool)
        ensures
            r == (index < PROFILE_STAGES),
    {
        index < PROFILE_STAGES
    }

    /// A frame ended. Gives back how many stages are to be reported, where it is time to.
    pub fn tick(&mut self) -> (r: Option<usize>)
        requires
            old(self).report_every > 0,
            old(self).frame_count < u64::MAX,
        ensures
            *final(self) == (ProfilingState {
                frame_count: (old(self).frame_count + 1) as u64,
                ..*old(self)
            }),
            r == if (old(self).frame_count + 1) % (old(self).report_every as int) == 0 && old(
                self,
            ).last_active_idx != 0 {
                Some(old(self).last_active_idx)
            } else {
                None
            },
    {
        self.frame_count = self.frame_count + 1;
        if self.frame_count % self.report_every != 0 {
            return None;
        }
        if self.last_active_idx == 0 {
            return None;
        }
        Some(self.last_active_idx)
    }
}

/// `n`, doubled `times` times.
pub open spec fn doubled(n: int, times: nat) -> int
    decreases times,
{
    if times == 0 {
        n
    } else {
        2 * doubled(n, (times - 1) as nat)
    }
}

proof fn doubled_often(n: int)
    ensures
        doubled(n, 19) == 524288 * n,
        doubled(n, 20) == 1048576 * n,
        doubled(n, 21) == 2097152 * n,
        doubled(n, 22) == 4194304 * n,
        doubled(n, 23) == 8388608 * n,
        doubled(n, 24) == 16777216 * n,
        doubled(n, 25) == 33554432 * n,
        doubled(n, 26) == 67108864 * n,
        doubled(n, 27) == 134217728 * n,
        doubled(n, 28) == 268435456 * n,
        doubled(n, 29) == 536870912 * n,
        doubled(n, 30) == 1073741824 * n,
        doubled(n, 31) == 2147483648 * n,
{
    assert(doubled(n, 0) == n);
    assert(doubled(n, 1) == 2 * n);
    assert(doubled(n, 2) == 4 * n);
    assert(doubled(n, 3) == 8 * n);
    assert(doubled(n, 4) == 16 * n);
    assert(doubled(n, 5) == 32 * n);
    assert(doubled(n, 6) == 64 * n);
    assert(doubled(n, 7) == 128 * n);
    assert(doubled(n, 8) == 256 * n);
    assert(doubled(n, 9) == 512 * n);
    assert(doubled(n, 10) == 1024 * n);
    assert(doubled(n, 11) == 2048 * n);
    assert(doubled(n, 12) == 4096 * n);
    assert(doubled(n, 13) == 8192 * n);
    assert(doubled(n, 14) == 16384 * n);
    assert(doubled(n, 15) == 32768 * n);
    assert(doubled(n, 16) == 65536 * n);
    assert(doubled(n, 17) == 131072 * n);
    assert(doubled(n, 18) == 262144 * n);
    assert(doubled(n, 19) == 524288 * n);
    assert(doubled(n, 20) == 1048576 * n);
    assert(doubled(n, 21) == 2097152 * n);
    assert(doubled(n, 22) == 4194304 * n);
    assert(doubled(n, 23) == 8388608 * n);
    assert(doubled(n, 24) == 16777216 * n);
    assert(doubled(n, 25) == 33554432 * n);
    assert(doubled(n, 26) == 67108864 * n);
    assert(doubled(n, 27) == 134217728 * n);
    assert(doubled(n, 28) == 268435456 * n);
    assert(doubled(n, 29) == 536870912 * n);
    assert(doubled(n, 30) == 1073741824 * n);
    assert(doubled(n, 31) == 2147483648 * n);
}

proof fn doublings()
    ensures
        forall|n: int| #[trigger] doubled(n, 19) == 524288 * n,
        forall|n: int| #[trigger] doubled(n, 20) == 1048576 * n,
        forall|n: int| #[trigger] doubled(n, 21) == 2097152 * n,
        forall|n: int| #[trigger] doubled(n, 22) == 4194304 * n,
        forall|n: int| #[trigger] doubled(n, 23) == 8388608 * n,
        forall|n: int| #[trigger] doubled(n, 24) == 16777216 * n,
        forall|n: int| #[trigger] doubled(n, 25) == 33554432 * n,
        forall|n: int| #[trigger] doubled(n, 26) == 67108864 * n,
        forall|n: int| #[trigger] doubled(n, 27) == 134217728 * n,
        forall|n: int| #[trigger] doubled(n, 28) == 268435456 * n,
        forall|n: int| #[trigger] doubled(n, 29) == 536870912 * n,
        forall|n: int| #[trigger] doubled(n, 30) == 1073741824 * n,
        forall|n: int| #[trigger] doubled(n, 31) == 2147483648 * n,
{
    assert forall|n: int| #[trigger] doubled(n, 19) == 524288 * n by {
        doubled_often(n);
    }
    assert forall|n: int| #[trigger] doubled(n, 20) == 1048576 * n by {
        doubled_often(n);
    }
    assert forall|n: int| #[trigger] doubled(n, 21) == 2097152 * n by {
        doubled_often(n);
    }
    assert forall|n: int| #[trigger] doubled(n, 22) == 4194304 * n by {
        doubled_often(n);
    }
    assert forall|n: int| #[trigger] doubled(n, 23) == 8388608 * n by {
        doubled_often(n);
    }
    assert forall|n: int| #[trigger] doubled(n, 24) == 16777216 * n by {
        doubled_often(n);
    }
    assert forall|n: int| #[trigger] doubled(n, 25) == 33554432 * n by {
        doubled_often(n);
    }
    assert forall|n: int| #[trigger] doubled(n, 26) == 67108864 * n by {
        doubled_often(n);
    }
    assert forall|n: int| #[trigger] doubled(n, 27) == 134217728 * n by {
        doubled_often(n);
    }
    assert forall|n: int| #[trigger] doubled(n, 28) == 268435456 * n by {
        doubled_often(n);
    }
    assert forall|n: int| #[trigger] doubled(n, 29) == 536870912 * n by {
        doubled_often(n);
    }
    assert forall|n: int| #[trigger] doubled(n, 30) == 1073741824 * n by {
        doubled_often(n);
    }
    assert forall|n: int| #[trigger] doubled(n, 31) == 2147483648 * n by {
        doubled_often(n);
    }
}

/// The number that a pattern stands for, in units of two to the power -47, where it is zero or at
/// least two to the power -24.
pub open spec fn fine(x: Single) -> int {
    let magnitude = magnitude32(x.bits);
    let size = doubled(0x80_0000 + magnitude % 0x80_0000, (magnitude / 0x80_0000 - 103) as nat);
    if magnitude == 0 {
        0
    } else if x.bits >= 0x8000_0000 {
        -size
    } else {
        size
    }
}

/// `x` is within a millionth of `millionths` millionths.
pub open spec fn near(x: int, millionths: int) -> bool {
    let unit: int = 0x8000_0000_0000;
    -unit <= 1_000_000 * x - millionths * unit <= unit
}

proof fn finely(bits: u32, times: nat, digits: int)
    requires
        magnitude32(bits) == 0x80_0000 * (times + 103) + digits,
        0 <= digits < 0x80_0000,
    ensures
        fine(Single { bits }) == if bits >= 0x8000_0000 {
            -doubled(0x80_0000 + digits, times)
        } else {
            doubled(0x80_0000 + digits, times)
        },
{
    let m = magnitude32(bits);
    assert(m / 0x80_0000 == times + 103 && m % 0x80_0000 == digits);
}

proof fn decoding_factors()
    ensures
        fine(Single { bits: 0x3f80_0000 }) == 140737488355328,
        fine(Single { bits: 0x3f95_0a85 }) == 163872413581312,
        fine(Single { bits: 0x3fb3_74bc }) == 197313951694848,
        fine(Single { bits: 0x3fbc_bfb1 }) == 207531494342656,
        fine(Single { bits: 0x3fc9_930c }) == 221633398702080,
        fine(Single { bits: 0x3fcc_49ba }) == 224617025241088,
        fine(Single { bits: 0x3fd6_e979 }) == 236298245767168,
        fine(Single { bits: 0x3fe2_d0e5 }) == 249386823057408,
        fine(Single { bits: 0x3fe5_8106 }) == 252342314205184,
        fine(Single { bits: 0x3fed_844d }) == 261152483311616,
        fine(Single { bits: 0x3ff0_d1b7 }) == 264783509061632,
        fine(Single { bits: 0x4001_1687 }) == 283867508375552,
        fine(Single { bits: 0x4007_2b02 }) == 297237573795840,
        fine(Single { bits: 0x4009_1687 }) == 301459694419968,
        fine(Single { bits: 0x4180_0000 }) == 2251799813685248,
        fine(Single { bits: 0xbe28_8095 }) == -23158776135680,
        fine(Single { bits: 0xbe3f_7cee }) == -26317911228416,
        fine(Single { bits: 0xbe3f_d1dd }) == -26363509604352,
        fine(Single { bits: 0xbe5a_1cac }) == -29977084952576,
        fine(Single { bits: 0xbeb0_3298 }) == -48432836247552,
        fine(Single { bits: 0xbec8_b439 }) == -55169093992448,
        fine(Single { bits: 0xbeef_adf3 }) == -65882596311040,
        fine(Single { bits: 0xbf08_72b0 }) == -75013080219648,
        fine(Single { bits: 0xbf12_4431 }) == -80410788757504,
        fine(Single { bits: 0xbf26_6666 }) == -91479364075520,
        fine(Single { bits: 0xbf36_d19e }) == -100505707610112,
        fine(Single { bits: 0xbf50_20c5 }) == -114419581321216,
{
    doublings();
    assert(fine(Single { bits: 0x3f80_0000 }) == 140737488355328) by {
        finely(0x3f80_0000, 24, 0);
    }
    assert(fine(Single { bits: 0x3f95_0a85 }) == 163872413581312) by {
        finely(0x3f95_0a85, 24, 1378949);
    }
    assert(fine(Single { bits: 0x3fb3_74bc }) == 197313951694848) by {
        finely(0x3fb3_74bc, 24, 3372220);
    }
    assert(fine(Single { bits: 0x3fbc_bfb1 }) == 207531494342656) by {
        finely(0x3fbc_bfb1, 24, 3981233);
    }
    assert(fine(Single { bits: 0x3fc9_930c }) == 221633398702080) by {
        finely(0x3fc9_930c, 24, 4821772);
    }
    assert(fine(Single { bits: 0x3fcc_49ba }) == 224617025241088) by {
        finely(0x3fcc_49ba, 24, 4999610);
    }
    assert(fine(Single { bits: 0x3fd6_e979 }) == 236298245767168) by {
        finely(0x3fd6_e979, 24, 5695865);
    }
    assert(fine(Single { bits: 0x3fe2_d0e5 }) == 249386823057408) by {
        finely(0x3fe2_d0e5, 24, 6476005);
    }
    assert(fine(Single { bits: 0x3fe5_8106 }) == 252342314205184) by {
        finely(0x3fe5_8106, 24, 6652166);
    }
    assert(fine(Single { bits: 0x3fed_844d }) == 261152483311616) by {
        finely(0x3fed_844d, 24, 7177293);
    }
    assert(fine(Single { bits: 0x3ff0_d1b7 }) == 264783509061632) by {
        finely(0x3ff0_d1b7, 24, 7393719);
    }
    assert(fine(Single { bits: 0x4001_1687 }) == 283867508375552) by {
        finely(0x4001_1687, 25, 71303);
    }
    assert(fine(Single { bits: 0x4007_2b02 }) == 297237573795840) by {
        finely(0x4007_2b02, 25, 469762);
    }
    assert(fine(Single { bits: 0x4009_1687 }) == 301459694419968) by {
        finely(0x4009_1687, 25, 595591);
    }
    assert(fine(Single { bits: 0x4180_0000 }) == 2251799813685248) by {
        finely(0x4180_0000, 28, 0);
    }
    assert(fine(Single { bits: 0xbe28_8095 }) == -23158776135680) by {
        finely(0xbe28_8095, 21, 2654357);
    }
    assert(fine(Single { bits: 0xbe3f_7cee }) == -26317911228416) by {
        finely(0xbe3f_7cee, 21, 4160750);
    }
    assert(fine(Single { bits: 0xbe3f_d1dd }) == -26363509604352) by {
        finely(0xbe3f_d1dd, 21, 4182493);
    }
    assert(fine(Single { bits: 0xbe5a_1cac }) == -29977084952576) by {
        finely(0xbe5a_1cac, 21, 5905580);
    }
    assert(fine(Single { bits: 0xbeb0_3298 }) == -48432836247552) by {
        finely(0xbeb0_3298, 22, 3158680);
    }
    assert(fine(Single { bits: 0xbec8_b439 }) == -55169093992448) by {
        finely(0xbec8_b439, 22, 4764729);
    }
    assert(fine(Single { bits: 0xbeef_adf3 }) == -65882596311040) by {
        finely(0xbeef_adf3, 22, 7319027);
    }
    assert(fine(Single { bits: 0xbf08_72b0 }) == -75013080219648) by {
        finely(0xbf08_72b0, 23, 553648);
    }
    assert(fine(Single { bits: 0xbf12_4431 }) == -80410788757504) by {
        finely(0xbf12_4431, 23, 1197105);
    }
    assert(fine(Single { bits: 0xbf26_6666 }) == -91479364075520) by {
        finely(0xbf26_6666, 23, 2516582);
    }
    assert(fine(Single { bits: 0xbf36_d19e }) == -100505707610112) by {
        finely(0xbf36_d19e, 23, 3592606);
    }
    assert(fine(Single { bits: 0xbf50_20c5 }) == -114419581321216) by {
        finely(0xbf50_20c5, 23, 5251269);
    }
}

proof fn encoding_factors()
    ensures
        fine(Single { bits: 0x0000_0000 }) == 0,
        fine(Single { bits: 0x3d50_7c85 }) == 7163538309120,
        fine(Single { bits: 0x3d72_e48f }) == 8345733300224,
        fine(Single { bits: 0x3d7d_f3b6 }) == 8725724135424,
        fine(Single { bits: 0x3d93_dd98 }) == 10161246699520,
        fine(Single { bits: 0x3dc8_b439 }) == 13792273498112,
        fine(Single { bits: 0x3de9_78d5 }) == 16044073680896,
        fine(Single { bits: 0x3e3b_645a }) == 25754960134144,
        fine(Single { bits: 0x3e59_b3d0 }) == 29920789004288,
        fine(Single { bits: 0x3e67_03b0 }) == 31750377963520,
        fine(Single { bits: 0x3e83_9581 }) == 36169534406656,
        fine(Single { bits: 0x3e86_809d }) == 36971736989696,
        fine(Single { bits: 0x3e99_1687 }) == 42080508313600,
        fine(Single { bits: 0x3ee0_c49c }) == 61783758864384,
        fine(Single { bits: 0x3ee0_ded3 }) == 61811906838528,
        fine(Single { bits: 0x3f00_0000 }) == 70368744177664,
        fine(Single { bits: 0x3f01_0625 }) == 70931695271936,
        fine(Single { bits: 0x3f15_119d }) == 81951440502784,
        fine(Single { bits: 0x3f16_45a2 }) == 82612907409408,
        fine(Single { bits: 0x3f1d_2f1b }) == 86412821004288,
        fine(Single { bits: 0x3f2d_9168 }) == 95420013346816,
        fine(Single { bits: 0x3f37_1759 }) == 100655452651520,
        fine(Single { bits: 0x4180_0000 }) == 2251799813685248,
        fine(Single { bits: 0x4300_0000 }) == 18014398509481984,
        fine(Single { bits: 0xbd10_96bc }) == -4968033550336,
        fine(Single { bits: 0xbd23_d70a }) == -5629499408384,
        fine(Single { bits: 0xbd24_b76f }) == -5659617132544,
        fine(Single { bits: 0xbd3b_ca10 }) == -6452391444480,
        fine(Single { bits: 0xbd91_6873 }) == -9992362000384,
        fine(Single { bits: 0xbda6_86e8 }) == -11443646758912,
        fine(Single { bits: 0xbdce_d917 }) == -14214486818816,
        fine(Single { bits: 0xbdea_a4ba }) == -16124576006144,
        fine(Single { bits: 0xbdfb_4a23 }) == -17268489584640,
        fine(Single { bits: 0xbe0e_fb2b }) == -19651176169472,
        fine(Single { bits: 0xbe17_8d50 }) == -20829148545024,
        fine(Single { bits: 0xbe2c_c921 }) == -23747480256512,
        fine(Single { bits: 0xbe94_fdf4 }) == -40954610319360,
        fine(Single { bits: 0xbea2_1965 }) == -44557488095232,
        fine(Single { bits: 0xbea9_9b6f }) == -46621261824000,
        fine(Single { bits: 0xbead_9168 }) == -47710006673408,
        fine(Single { bits: 0xbeb8_826b }) == -50717570105344,
        fine(Single { bits: 0xbebc_6a7f }) == -51791395815424,
        fine(Single { bits: 0xbec5_56d2 }) == -54244170268672,
        fine(Single { bits: 0xbecc_49ba }) == -56154256310272,
        fine(Single { bits: 0xbece_cbfb }) == -56843871191040,
        fine(Single { bits: 0xbed6_5e46 }) == -58925097418752,
        fine(Single { bits: 0xbee8_86be }) == -63916352733184,
        fine(Single { bits: 0xbeeb_6912 }) == -64709126520832,
{
    doublings();
    assert(fine(Single { bits: 0 }) == 0);
    assert(fine(Single { bits: 0x3d50_7c85 }) == 7163538309120) by {
        finely(0x3d50_7c85, 19, 5274757);
    }
    assert(fine(Single { bits: 0x3d72_e48f }) == 8345733300224) by {
        finely(0x3d72_e48f, 19, 7529615);
    }
    assert(fine(Single { bits: 0x3d7d_f3b6 }) == 8725724135424) by {
        finely(0x3d7d_f3b6, 19, 8254390);
    }
    assert(fine(Single { bits: 0x3d93_dd98 }) == 10161246699520) by {
        finely(0x3d93_dd98, 20, 1301912);
    }
    assert(fine(Single { bits: 0x3dc8_b439 }) == 13792273498112) by {
        finely(0x3dc8_b439, 20, 4764729);
    }
    assert(fine(Single { bits: 0x3de9_78d5 }) == 16044073680896) by {
        finely(0x3de9_78d5, 20, 6912213);
    }
    assert(fine(Single { bits: 0x3e3b_645a }) == 25754960134144) by {
        finely(0x3e3b_645a, 21, 3892314);
    }
    assert(fine(Single { bits: 0x3e59_b3d0 }) == 29920789004288) by {
        finely(0x3e59_b3d0, 21, 5878736);
    }
    assert(fine(Single { bits: 0x3e67_03b0 }) == 31750377963520) by {
        finely(0x3e67_03b0, 21, 6751152);
    }
    assert(fine(Single { bits: 0x3e83_9581 }) == 36169534406656) by {
        finely(0x3e83_9581, 22, 234881);
    }
    assert(fine(Single { bits: 0x3e86_809d }) == 36971736989696) by {
        finely(0x3e86_809d, 22, 426141);
    }
    assert(fine(Single { bits: 0x3e99_1687 }) == 42080508313600) by {
        finely(0x3e99_1687, 22, 1644167);
    }
    assert(fine(Single { bits: 0x3ee0_c49c }) == 61783758864384) by {
        finely(0x3ee0_c49c, 22, 6341788);
    }
    assert(fine(Single { bits: 0x3ee0_ded3 }) == 61811906838528) by {
        finely(0x3ee0_ded3, 22, 6348499);
    }
    assert(fine(Single { bits: 0x3f00_0000 }) == 70368744177664) by {
        finely(0x3f00_0000, 23, 0);
    }
    assert(fine(Single { bits: 0x3f01_0625 }) == 70931695271936) by {
        finely(0x3f01_0625, 23, 67109);
    }
    assert(fine(Single { bits: 0x3f15_119d }) == 81951440502784) by {
        finely(0x3f15_119d, 23, 1380765);
    }
    assert(fine(Single { bits: 0x3f16_45a2 }) == 82612907409408) by {
        finely(0x3f16_45a2, 23, 1459618);
    }
    assert(fine(Single { bits: 0x3f1d_2f1b }) == 86412821004288) by {
        finely(0x3f1d_2f1b, 23, 1912603);
    }
    assert(fine(Single { bits: 0x3f2d_9168 }) == 95420013346816) by {
        finely(0x3f2d_9168, 23, 2986344);
    }
    assert(fine(Single { bits: 0x3f37_1759 }) == 100655452651520) by {
        finely(0x3f37_1759, 23, 3610457);
    }
    assert(fine(Single { bits: 0x4180_0000 }) == 2251799813685248) by {
        finely(0x4180_0000, 28, 0);
    }
    assert(fine(Single { bits: 0x4300_0000 }) == 18014398509481984) by {
        finely(0x4300_0000, 31, 0);
    }
    assert(fine(Single { bits: 0xbd10_96bc }) == -4968033550336) by {
        finely(0xbd10_96bc, 19, 1087164);
    }
    assert(fine(Single { bits: 0xbd23_d70a }) == -5629499408384) by {
        finely(0xbd23_d70a, 19, 2348810);
    }
    assert(fine(Single { bits: 0xbd24_b76f }) == -5659617132544) by {
        finely(0xbd24_b76f, 19, 2406255);
    }
    assert(fine(Single { bits: 0xbd3b_ca10 }) == -6452391444480) by {
        finely(0xbd3b_ca10, 19, 3918352);
    }
    assert(fine(Single { bits: 0xbd91_6873 }) == -9992362000384) by {
        finely(0xbd91_6873, 20, 1140851);
    }
    assert(fine(Single { bits: 0xbda6_86e8 }) == -11443646758912) by {
        finely(0xbda6_86e8, 20, 2524904);
    }
    assert(fine(Single { bits: 0xbdce_d917 }) == -14214486818816) by {
        finely(0xbdce_d917, 20, 5167383);
    }
    assert(fine(Single { bits: 0xbdea_a4ba }) == -16124576006144) by {
        finely(0xbdea_a4ba, 20, 6988986);
    }
    assert(fine(Single { bits: 0xbdfb_4a23 }) == -17268489584640) by {
        finely(0xbdfb_4a23, 20, 8079907);
    }
    assert(fine(Single { bits: 0xbe0e_fb2b }) == -19651176169472) by {
        finely(0xbe0e_fb2b, 21, 981803);
    }
    assert(fine(Single { bits: 0xbe17_8d50 }) == -20829148545024) by {
        finely(0xbe17_8d50, 21, 1543504);
    }
    assert(fine(Single { bits: 0xbe2c_c921 }) == -23747480256512) by {
        finely(0xbe2c_c921, 21, 2935073);
    }
    assert(fine(Single { bits: 0xbe94_fdf4 }) == -40954610319360) by {
        finely(0xbe94_fdf4, 22, 1375732);
    }
    assert(fine(Single { bits: 0xbea2_1965 }) == -44557488095232) by {
        finely(0xbea2_1965, 22, 2234725);
    }
    assert(fine(Single { bits: 0xbea9_9b6f }) == -46621261824000) by {
        finely(0xbea9_9b6f, 22, 2726767);
    }
    assert(fine(Single { bits: 0xbead_9168 }) == -47710006673408) by {
        finely(0xbead_9168, 22, 2986344);
    }
    assert(fine(Single { bits: 0xbeb8_826b }) == -50717570105344) by {
        finely(0xbeb8_826b, 22, 3703403);
    }
    assert(fine(Single { bits: 0xbebc_6a7f }) == -51791395815424) by {
        finely(0xbebc_6a7f, 22, 3959423);
    }
    assert(fine(Single { bits: 0xbec5_56d2 }) == -54244170268672) by {
        finely(0xbec5_56d2, 22, 4544210);
    }
    assert(fine(Single { bits: 0xbecc_49ba }) == -56154256310272) by {
        finely(0xbecc_49ba, 22, 4999610);
    }
    assert(fine(Single { bits: 0xbece_cbfb }) == -56843871191040) by {
        finely(0xbece_cbfb, 22, 5164027);
    }
    assert(fine(Single { bits: 0xbed6_5e46 }) == -58925097418752) by {
        finely(0xbed6_5e46, 22, 5660230);
    }
    assert(fine(Single { bits: 0xbee8_86be }) == -63916352733184) by {
        finely(0xbee8_86be, 22, 6850238);
    }
    assert(fine(Single { bits: 0xbeeb_6912 }) == -64709126520832) by {
        finely(0xbeeb_6912, 22, 7039250);
    }
}

/// A video that does not name its colors has those of standard definition where it is less than
/// 1280 pixels wide and those of high definition otherwise; a video that does keeps them.
pub proof fn unnamed_colors_go_by_width(matrix: ColorMatrix, width: u32)
    ensures
        matrix_for(ColorMatrix::Unspecified, width) == if width < 1280 {
            ColorMatrix::Bt601
        } else {
            ColorMatrix::Bt709
        },
        !(matrix is Unspecified) ==> matrix_for(matrix, width) == matrix,
{
}

/// Decoding of the full range: the factors of each matrix in millionths.
#[verifier::spinoff_prover]
pub proof fn full_range_is_decoded(width: u32)
    ensures
        ({
            let c = decode_numbers(ColorMatrix::Bt601, ColorRange::Full, width);
            &&& near(fine(c.red_v), 1_402_000) && near(fine(c.green_u), -344_136)
            &&& near(fine(c.green_v), -714_136) && near(fine(c.blue_u), 1_772_000)
            &&& fine(c.y_offset) == 0 && near(fine(c.y_scale), 1_000_000)
        }),
        ({
            let c = decode_numbers(ColorMatrix::Bt709, ColorRange::Full, width);
            &&& near(fine(c.red_v), 1_574_800) && near(fine(c.green_u), -187_324)
            &&& near(fine(c.green_v), -468_124) && near(fine(c.blue_u), 1_855_600)
            &&& fine(c.y_offset) == 0 && near(fine(c.y_scale), 1_000_000)
        }),
        ({
            let c = decode_numbers(
                ColorMatrix::Bt2020NonConstantLuminance,
                ColorRange::Full,
                width,
            );
            &&& near(fine(c.red_v), 1_474_600) && near(fine(c.green_u), -164_553)
            &&& near(fine(c.green_v), -571_353) && near(fine(c.blue_u), 1_881_400)
            &&& fine(c.y_offset) == 0 && near(fine(c.y_scale), 1_000_000)
        }),
{
    decoding_factors();
}

/// Decoding of a limited range: the factors of each matrix in millionths. Black is at sixteen, and
/// 219 steps are stretched to 255.
#[verifier::spinoff_prover]
pub proof fn limited_range_is_decoded(range: ColorRange, width: u32)
    requires
        !(range is Full),
    ensures
        ({
            let c = decode_numbers(ColorMatrix::Bt601, range, width);
            &&& near(fine(c.red_v), 1_596_000) && near(fine(c.green_u), -392_000)
            &&& near(fine(c.green_v), -813_000) && near(fine(c.blue_u), 2_017_000)
            &&& near(fine(c.y_offset), 16_000_000) && near(fine(c.y_scale), 1_164_384)
        }),
        ({
            let c = decode_numbers(ColorMatrix::Bt709, range, width);
            &&& near(fine(c.red_v), 1_793_000) && near(fine(c.green_u), -213_000)
            &&& near(fine(c.green_v), -533_000) && near(fine(c.blue_u), 2_112_000)
            &&& near(fine(c.y_offset), 16_000_000) && near(fine(c.y_scale), 1_164_384)
        }),
        ({
            let c = decode_numbers(ColorMatrix::Bt2020NonConstantLuminance, range, width);
            &&& near(fine(c.red_v), 1_679_000) && near(fine(c.green_u), -187_000)
            &&& near(fine(c.green_v), -650_000) && near(fine(c.blue_u), 2_142_000)
            &&& near(fine(c.y_offset), 16_000_000) && near(fine(c.y_scale), 1_164_384)
        }),
{
    decoding_factors();
}

/// Encoding and decoding of the full range belong together. White has full luma, grey has no
/// color, and the factors by which color is decoded are twice what luma lacks of red and of blue.
#[verifier::spinoff_prover]
pub proof fn encoding_belongs_to_decoding(matrix: ColorMatrix, width: u32)
    requires
        !(matrix is Unspecified),
    ensures
        ({
            let e = encode_numbers(matrix, true);
            let d = decode_numbers(matrix, ColorRange::Full, width);
            &&& near(fine(e.y.0) + fine(e.y.1) + fine(e.y.2), 1_000_000)
            &&& fine(e.y.3) == 0
            &&& near(fine(e.uv.0) + fine(e.uv.1) + fine(e.uv.2), 0)
            &&& near(fine(e.uv.3) + fine(e.v.0) + fine(e.v.1), 0)
            &&& near(fine(e.uv.2), 500_000) && near(fine(e.uv.3), 500_000)
            &&& near(fine(e.v.2), 128_000_000)
            &&& near(fine(d.red_v) + 2 * fine(e.y.0), 2_000_000)
            &&& near(fine(d.blue_u) + 2 * fine(e.y.2), 2_000_000)
        }),
        ({
            let e = encode_numbers(matrix, false);
            &&& near(fine(e.y.3), 16_000_000)
            &&& near(fine(e.v.2), 128_000_000)
            &&& near(fine(e.y.0) + fine(e.y.1) + fine(e.y.2), 859_000) || near(
                fine(e.y.0) + fine(e.y.1) + fine(e.y.2),
                858_800,
            )
        }),
{
    decoding_factors();
    encoding_factors();
}

} // verus!
