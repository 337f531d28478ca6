//! Recording a processed video: the plan, the time stamps, the decoder surfaces in flight and the
//! archive of decoded frames.

use vstd::prelude::*;

use crate::runtime::{full_predecode_allowed, PredecodeError, PredecodeMode};
use crate::runtime::{enough_free, leaves_headroom};

verus! {

/// The pixel format of a decoded or encoded frame.
#[derive(Debug, Clone, Copy, PartialEq, Eq, Structural)]
pub enum PixelFormat {
    Nv12,
    P010,
}

/// The codec of the recorded video.
#[derive(Debug, Clone, Copy, PartialEq, Eq, Structural)]
pub enum RecordCodec {
    H264,
    Hevc,
}

/// The quotient of two integers, cut off towards zero.
pub open spec fn quotient(a: int, b: int) -> int {
    if (a >= 0) == (b >= 0) {
        magnitude(a) / magnitude(b)
    } else {
        -(magnitude(a) / magnitude(b))
    }
}

/// The absolute value.
pub open spec fn magnitude(a: int) -> int {
    if a >= 0 {
        a
    } else {
        -a
    }
}

fn divide(a: i128, b: i128) -> (r: i128)
    requires
        b != 0,
        a > i128::MIN,
        b > i128::MIN,
    ensures
        r == quotient(a as int, b as int),
{
    let x: u128 = if a >= 0 { a as u128 } else { (0 - a) as u128 };
    let y: u128 = if b >= 0 { b as u128 } else { (0 - b) as u128 };
    let q: u128 = x / y;
    proof {
        assert(x as int / y as int <= x as int) by (nonlinear_arith)
            requires
                x as int >= 0,
                y as int >= 1,
        ;
    }
    if (a >= 0) == (b >= 0) {
        q as i128
    } else {
        0 - q as i128
    }
}

/// The time base and the frame rate of a video stream.
#[derive(Debug, Clone, Copy, PartialEq, Eq, Structural)]
pub struct StreamTiming {
    pub time_base_num: i32,
    pub time_base_den: i32,
    pub frame_rate_num: i32,
    pub frame_rate_den: i32,
}

/// The larger of two integers.
pub open spec fn larger(a: int, b: int) -> int {
    if a < b {
        b
    } else {
        a
    }
}

impl StreamTiming {
    /// The time base is a fraction of a second.
    pub open spec fn wf(self) -> bool {
        self.time_base_num != 0
    }

    /// The duration of a frame in units of the time base, rounded to the nearest and at least
    /// one.
    pub open spec fn frame_length(self) -> int {
        let rate_num = larger(self.frame_rate_num as int, 1);
        let rate_den = larger(self.frame_rate_den as int, 1);
        let unit = self.time_base_num * rate_num;
        larger(quotient(self.time_base_den * rate_den + quotient(unit, 2), unit), 1)
    }

    /// A time in units of 100 nanoseconds as a number of units of the time base, held in 64 bits.
    pub open spec fn stamp_of(self, timestamp_100ns: i64) -> i64 {
        quotient(timestamp_100ns * self.time_base_den, 10_000_000 * self.time_base_num) as i64
    }

    /// The duration of a frame in units of the time base.
    pub fn frame_duration(self) -> (r: i64)
        requires
            self.wf(),
        ensures
            r == self.frame_length(),
            r >= 1,
    {
        let rate_num: i128 = if self.frame_rate_num < 1 { 1 } else { self.frame_rate_num as i128 };
        let rate_den: i128 = if self.frame_rate_den < 1 { 1 } else { self.frame_rate_den as i128 };
        let base_num: i128 = self.time_base_num as i128;
        let base_den: i128 = self.time_base_den as i128;
        proof {
            product_bound(base_num as int, rate_num as int);
            product_bound(base_den as int, rate_den as int);
            assert(base_num as int * rate_num as int != 0) by (nonlinear_arith)
                requires
                    base_num as int != 0,
                    rate_num as int != 0,
            ;
        }
        let unit: i128 = base_num * rate_num;
        let span: i128 = base_den * rate_den;
        let half: i128 = divide(unit, 2);
        proof {
            assert(magnitude(half as int) <= magnitude(unit as int));
        }
        let total: i128 = span + half;
        let length: i128 = divide(total, unit);
        proof {
            quotient_shrinks(total as int, unit as int);
        }
        if length < 1 {
            1
        } else {
            length as i64
        }
    }

    /// A time in units of 100 nanoseconds as a number of units of the time base.
    pub fn time_stamp(self, timestamp_100ns: i64) -> (r: i64)
        requires
            self.wf(),
        ensures
            r == self.stamp_of(timestamp_100ns),
    {
        let base_num: i128 = self.time_base_num as i128;
        let base_den: i128 = self.time_base_den as i128;
        proof {
            wide_product_bound(timestamp_100ns as int, base_den as int);
        }
        let scaled: i128 = timestamp_100ns as i128 * base_den;
        let unit: i128 = 10_000_000 * base_num;
        let units: i128 = divide(scaled, unit);
        #[verifier::truncate]
        (units as i64)
    }
}

/// A quotient of numbers that are not negative is the largest number of whole divisors in it.
proof fn quotient_is_below(a: int, b: int)
    requires
        a >= 0,
        b > 0,
    ensures
        quotient(a, b) * b <= a < (quotient(a, b) + 1) * b,
        quotient(a, b) >= 0,
{
    let q = a / b;
    assert(q * b <= a < (q + 1) * b && q >= 0) by (nonlinear_arith)
        requires
            a >= 0,
            b > 0,
            q == a / b,
    ;
}

/// The stamp of a time is that time to within one unit of the time base: `stamp` units are not
/// later than the time, and one more is. Ten million units of 100 nanoseconds are a second, and
/// `time_base_den` units of the time base are `time_base_num` seconds.
pub proof fn stamp_is_the_time(timing: StreamTiming, timestamp_100ns: i64)
    requires
        timing.time_base_num > 0,
        timing.time_base_den > 0,
        timestamp_100ns >= 0,
        timestamp_100ns * timing.time_base_den <= i64::MAX * (10_000_000 * timing.time_base_num),
    ensures
        timing.stamp_of(timestamp_100ns) * (10_000_000 * timing.time_base_num) <= timestamp_100ns
            * timing.time_base_den,
        timestamp_100ns * timing.time_base_den < (timing.stamp_of(timestamp_100ns) + 1) * (
        10_000_000 * timing.time_base_num),
        timing.stamp_of(timestamp_100ns) >= 0,
{
    let a = timestamp_100ns * timing.time_base_den;
    let b = 10_000_000 * timing.time_base_num;
    assert(a >= 0) by (nonlinear_arith)
        requires
            a == timestamp_100ns * timing.time_base_den,
            timestamp_100ns >= 0,
            timing.time_base_den > 0,
    ;
    quotient_is_below(a, b);
    let q = quotient(a, b);
    assert(q <= i64::MAX) by (nonlinear_arith)
        requires
            q * b <= a,
            a <= i64::MAX * b,
            b > 0,
    ;
}

/// A whole number of seconds is stamped with the units of the time base that are over by then.
pub proof fn seconds_are_stamped_as_seconds(timing: StreamTiming, seconds: int)
    requires
        timing.time_base_num > 0,
        timing.time_base_den > 0,
        0 <= seconds,
        10_000_000 * seconds <= i64::MAX,
        seconds * timing.time_base_den <= i64::MAX * timing.time_base_num,
    ensures
        timing.stamp_of((10_000_000 * seconds) as i64) * timing.time_base_num <= seconds
            * timing.time_base_den,
        seconds * timing.time_base_den < (timing.stamp_of((10_000_000 * seconds) as i64) + 1)
            * timing.time_base_num,
{
    let t = (10_000_000 * seconds) as i64;
    let num = timing.time_base_num as int;
    let den = timing.time_base_den as int;
    assert(t * den == 10_000_000 * (seconds * den)) by (nonlinear_arith)
        requires
            t == 10_000_000 * seconds,
    ;
    assert(i64::MAX * (10_000_000 * num) == 10_000_000 * (i64::MAX * num)) by (nonlinear_arith);
    stamp_is_the_time(timing, t);
    let stamp = timing.stamp_of(t) as int;
    assert(stamp * (10_000_000 * num) == 10_000_000 * (stamp * num)) by (nonlinear_arith);
    assert((stamp + 1) * (10_000_000 * num) == 10_000_000 * ((stamp + 1) * num))
        by (nonlinear_arith);
}

/// Later times have later stamps, or the same one.
pub proof fn stamps_keep_the_order(timing: StreamTiming, a: i64, b: i64)
    requires
        timing.time_base_num > 0,
        timing.time_base_den > 0,
        0 <= a <= b,
        b * timing.time_base_den <= i64::MAX * (10_000_000 * timing.time_base_num),
    ensures
        timing.stamp_of(a) <= timing.stamp_of(b),
{
    let den = timing.time_base_den as int;
    let unit = 10_000_000 * timing.time_base_num;
    assert(a * den <= b * den) by (nonlinear_arith)
        requires
            a <= b,
            den > 0,
    ;
    stamp_is_the_time(timing, a);
    stamp_is_the_time(timing, b);
    let x = timing.stamp_of(a) as int;
    let y = timing.stamp_of(b) as int;
    assert(x <= y) by (nonlinear_arith)
        requires
            x * unit < (y + 1) * unit,
            unit > 0,
    ;
}

/// A time before the start has the stamp of the time as far behind it, with the other sign.
pub proof fn stamps_are_symmetric(timing: StreamTiming, timestamp_100ns: i64)
    requires
        timing.time_base_num > 0,
        timing.time_base_den > 0,
        timestamp_100ns > 0,
        timestamp_100ns * timing.time_base_den <= i64::MAX * (10_000_000 * timing.time_base_num),
    ensures
        timing.stamp_of((-timestamp_100ns) as i64) == -timing.stamp_of(timestamp_100ns),
{
    stamp_is_the_time(timing, timestamp_100ns);
    let t = timestamp_100ns as int;
    let den = timing.time_base_den as int;
    assert((-t) * den == -(t * den)) by (nonlinear_arith);
    assert(t * den > 0) by (nonlinear_arith)
        requires
            t > 0,
            den > 0,
    ;
    let unit = 10_000_000 * timing.time_base_num;
    quotient_is_below(t * den, unit);
    let q = quotient(t * den, unit);
    assert(q <= i64::MAX) by (nonlinear_arith)
        requires
            q * unit <= t * den,
            t * den <= i64::MAX * unit,
            unit > 0,
    ;
}

/// The duration of a frame is the number of units of the time base that is nearest to the time
/// between two frames, and at least one unit.
pub proof fn frame_length_is_nearest(timing: StreamTiming)
    requires
        timing.time_base_num > 0,
        timing.time_base_den > 0,
        timing.frame_rate_num > 0,
        timing.frame_rate_den > 0,
    ensures
        timing.frame_length() >= 1,
        2 * (timing.time_base_den * timing.frame_rate_den) <= (2 * timing.frame_length() + 1) * (
        timing.time_base_num * timing.frame_rate_num),
        timing.frame_length() > 1 ==> (2 * timing.frame_length() - 1) * (timing.time_base_num
            * timing.frame_rate_num) <= 2 * (timing.time_base_den * timing.frame_rate_den),
{
    let unit = timing.time_base_num * timing.frame_rate_num;
    let span = timing.time_base_den * timing.frame_rate_den;
    assert(unit >= 1 && span >= 1) by (nonlinear_arith)
        requires
            unit == timing.time_base_num * timing.frame_rate_num,
            span == timing.time_base_den * timing.frame_rate_den,
            timing.time_base_num >= 1,
            timing.frame_rate_num >= 1,
            timing.time_base_den >= 1,
            timing.frame_rate_den >= 1,
    ;
    let half = quotient(unit, 2);
    assert(magnitude(unit) == unit && magnitude(2) == 2);
    assert(half == unit / 2);
    assert(unit - 1 <= 2 * half <= unit);
    quotient_is_below(span + half, unit);
    let q = quotient(span + half, unit);
    let length = timing.frame_length();
    assert(length == larger(q, 1));
    assert(2 * span <= (2 * q + 1) * unit) by (nonlinear_arith)
        requires
            span + half < (q + 1) * unit,
            unit - 1 <= 2 * half,
    ;
    assert((2 * q - 1) * unit <= 2 * span) by (nonlinear_arith)
        requires
            q * unit <= span + half,
            2 * half <= unit,
    ;
    assert((2 * q + 1) * unit <= (2 * length + 1) * unit) by (nonlinear_arith)
        requires
            q <= length,
            unit >= 1,
    ;
}

proof fn product_bound(a: int, b: int)
    requires
        -0x8000_0000 <= a <= 0x7fff_ffff,
        -0x8000_0000 <= b <= 0x7fff_ffff,
    ensures
        -0x4000_0000_0000_0000 <= a * b <= 0x4000_0000_0000_0000,
{
    assert(-0x4000_0000_0000_0000 <= a * b <= 0x4000_0000_0000_0000) by (nonlinear_arith)
        requires
            -0x8000_0000 <= a <= 0x7fff_ffff,
            -0x8000_0000 <= b <= 0x7fff_ffff,
    ;
}

proof fn wide_product_bound(a: int, b: int)
    requires
        -0x8000_0000_0000_0000 <= a <= 0x7fff_ffff_ffff_ffff,
        -0x8000_0000 <= b <= 0x7fff_ffff,
    ensures
        -0x4000_0000_0000_0000_0000_0000 <= a * b <= 0x4000_0000_0000_0000_0000_0000,
{
    assert(-0x4000_0000_0000_0000_0000_0000 <= a * b <= 0x4000_0000_0000_0000_0000_0000)
        by (nonlinear_arith)
        requires
            -0x8000_0000_0000_0000 <= a <= 0x7fff_ffff_ffff_ffff,
            -0x8000_0000 <= b <= 0x7fff_ffff,
    ;
}

proof fn quotient_shrinks(a: int, b: int)
    requires
        b != 0,
    ensures
        magnitude(quotient(a, b)) <= magnitude(a),
{
    let x = magnitude(a);
    let y = magnitude(b);
    assert(0 <= x / y <= x) by (nonlinear_arith)
        requires
            x >= 0,
            y >= 1,
    ;
}

/// Why a recording cannot be begun.
#[derive(Debug, Clone, Copy, PartialEq, Eq, Structural)]
pub enum RecordError {
    /// The encoder takes even dimensions only.
    OddDimensions { width: u32, height: u32 },
    /// A decoded frame is larger than can be addressed.
    FrameSizeOverflow,
    /// The decoded video is larger than can be addressed.
    ArchiveSizeOverflow,
    /// The video cannot be decoded ahead although that was asked for.
    Predecode(PredecodeError),
}

/// What is known of the video that is recorded.
#[derive(Debug, Clone, Copy, PartialEq, Eq, Structural)]
pub struct RecordSource {
    pub width: u32,
    pub height: u32,
    pub bit_depth: u32,
    pub frame_count: Option<u64>,
    pub timing: StreamTiming,
}

/// The decisions made before a recording begins.
#[derive(Debug, Clone, Copy, PartialEq, Eq, Structural)]
pub struct RecordPlan {
    pub pixel_format: PixelFormat,
    pub codec: RecordCodec,
    pub frame_duration: i64,
    /// Frames that the archive has room for.
    pub archive_capacity: u64,
    pub archive_bytes: u64,
    /// The whole video is decoded before it is processed.
    pub predecode: bool,
}

/// Frames beyond the estimate that the archive has room for.
pub const ARCHIVE_RESERVE: u64 = 64;

/// Surfaces that frames are encoded from, one after the other.
pub const ENCODE_SURFACES: u64 = 5;

/// Decoder surfaces that may be in flight.
pub const PENDING_SURFACES: usize = 6;

/// Bytes of one sample.
pub open spec fn sample_bytes(format: PixelFormat) -> int {
    match format {
        PixelFormat::Nv12 => 1,
        PixelFormat::P010 => 2,
    }
}

/// Bytes of one row of a plane.
pub open spec fn plane_row(width: u32, format: PixelFormat) -> int {
    width * sample_bytes(format)
}

/// Bytes of one frame: the luma plane and a chroma plane of half its height.
pub open spec fn frame_bytes(width: u32, height: u32, format: PixelFormat) -> int {
    plane_row(width, format) * (height + height / 2)
}

/// The format of the frames that are encoded.
pub open spec fn encoded_format(bit_depth: u32) -> PixelFormat {
    if bit_depth > 8 {
        PixelFormat::P010
    } else {
        PixelFormat::Nv12
    }
}

/// Frames that the archive has room for: none where the length of the video is not known.
pub open spec fn archive_frames(frame_count: Option<u64>) -> int {
    match frame_count {
        Some(frames) => if frames + ARCHIVE_RESERVE <= u64::MAX {
            frames + ARCHIVE_RESERVE
        } else {
            0
        },
        None => 0,
    }
}

fn samples(format: PixelFormat) -> (r: u64)
    ensures
        r == sample_bytes(format),
{
    match format {
        PixelFormat::Nv12 => 1,
        PixelFormat::P010 => 2,
    }
}

/// The place of decoded frames in one stretch of memory, one after the other.
#[derive(Debug, Clone, Copy, PartialEq, Eq)]
pub struct GpuFrameArchive {
    storage_bytes: u64,
    frame_stride: u64,
    row_bytes: u64,
    height: u64,
    pixel_format: PixelFormat,
}

/// Why a frame has no place in the archive.
#[derive(Debug, Clone, Copy, PartialEq, Eq, Structural)]
pub enum ArchiveError {
    /// The frame is of another pixel format.
    FormatChanged,
    /// The frame lies beyond what the archive has room for.
    OutOfBounds,
}

/// The two planes of an archived frame, as offsets into the archive and numbers of rows.
#[derive(Debug, Clone, Copy, PartialEq, Eq, Structural)]
pub struct FramePlanes {
    pub luma_offset: u64,
    pub luma_rows: u64,
    pub chroma_offset: u64,
    pub chroma_rows: u64,
}

impl GpuFrameArchive {
    /// Bytes of the archive.
    pub closed spec fn storage(self) -> int {
        self.storage_bytes as int
    }

    /// Bytes from the beginning of one frame to that of the next.
    pub closed spec fn stride(self) -> int {
        self.frame_stride as int
    }

    /// Bytes of one row.
    pub closed spec fn row(self) -> int {
        self.row_bytes as int
    }

    /// Rows of the luma plane.
    pub closed spec fn rows(self) -> int {
        self.height as int
    }

    /// The format of the archived frames.
    pub closed spec fn format(self) -> PixelFormat {
        self.pixel_format
    }

    /// A frame takes its two planes.
    pub open spec fn wf(self) -> bool {
        self.row() >= 0 && self.rows() >= 0 && self.stride() == self.row() * (self.rows()
            + self.rows() / 2)
    }

    /// The frame `index` lies inside the archive.
    pub open spec fn holds(self, index: int) -> bool {
        self.stride() * index + self.stride() <= self.storage()
    }

    /// Bytes of an archive of `frames` frames.
    pub fn required_bytes(width: u32, height: u32, pixel_format: PixelFormat, frames: u64) -> (r: Result<
        u64,
        RecordError,
    >)
        ensures
            match r {
                Ok(bytes) => bytes == frame_bytes(width, height, pixel_format) * frames
                    && frame_bytes(width, height, pixel_format) <= u64::MAX,
                Err(RecordError::FrameSizeOverflow) => frame_bytes(width, height, pixel_format)
                    > u64::MAX,
                Err(RecordError::ArchiveSizeOverflow) => {
                    &&& frame_bytes(width, height, pixel_format) <= u64::MAX
                    &&& frame_bytes(width, height, pixel_format) * frames > u64::MAX
                },
                Err(_) => false,
            },
    {
        let row_bytes: u64 = width as u64 * samples(pixel_format);
        let rows: u64 = height as u64 + height as u64 / 2;
        let stride: u64 = match row_bytes.checked_mul(rows) {
            Some(stride) => stride,
            None => return Err(RecordError::FrameSizeOverflow),
        };
        match stride.checked_mul(frames) {
            Some(bytes) => Ok(bytes),
            None => Err(RecordError::ArchiveSizeOverflow),
        }
    }

    /// An archive of `frames` frames.
    pub fn new(width: u32, height: u32, pixel_format: PixelFormat, frames: u64) -> (r: Result<
        Self,
        RecordError,
    >)
        ensures
            match r {
                Ok(archive) => {
                    &&& archive.wf()
                    &&& archive.stride() == frame_bytes(width, height, pixel_format)
                    &&& archive.storage() == frame_bytes(width, height, pixel_format) * frames
                    &&& archive.row() == plane_row(width, pixel_format)
                    &&& archive.rows() == height
                    &&& archive.format() == pixel_format
                },
                Err(RecordError::FrameSizeOverflow) => frame_bytes(width, height, pixel_format)
                    > u64::MAX,
                Err(RecordError::ArchiveSizeOverflow) => {
                    &&& frame_bytes(width, height, pixel_format) <= u64::MAX
                    &&& frame_bytes(width, height, pixel_format) * frames > u64::MAX
                },
                Err(_) => false,
            },
    {
        let storage_bytes: u64 = match Self::required_bytes(width, height, pixel_format, frames) {
            Ok(bytes) => bytes,
            Err(e) => return Err(e),
        };
        let row_bytes: u64 = width as u64 * samples(pixel_format);
        let rows: u64 = height as u64 + height as u64 / 2;
        let frame_stride: u64 = row_bytes * rows;
        Ok(
            GpuFrameArchive {
                storage_bytes,
                frame_stride,
                row_bytes,
                height: height as u64,
                pixel_format,
            },
        )
    }

    /// Where frame `index` begins.
    pub fn frame_offset(&self, index: u64) -> (r: Result<u64, ArchiveError>)
        ensures
            match r {
                Ok(offset) => self.holds(index as int) && offset == self.stride() * index,
                Err(e) => !self.holds(index as int) && e == ArchiveError::OutOfBounds,
            },
    {
        let offset: u64 = match self.frame_stride.checked_mul(index) {
            Some(offset) => offset,
            None => return Err(ArchiveError::OutOfBounds),
        };
        match offset.checked_add(self.frame_stride) {
            Some(end) => if end <= self.storage_bytes {
                Ok(offset)
            } else {
                Err(ArchiveError::OutOfBounds)
            },
            None => Err(ArchiveError::OutOfBounds),
        }
    }

    /// Where the planes of frame `index` are copied to, for a frame of format `format`.
    pub fn place_frame(&self, index: u64, format: PixelFormat) -> (r: Result<
        FramePlanes,
        ArchiveError,
    >)
        requires
            self.wf(),
        ensures
            match r {
                Ok(planes) => {
                    &&& format == self.format()
                    &&& self.holds(index as int)
                    &&& planes.luma_offset == self.stride() * index
                    &&& planes.luma_rows == self.rows()
                    &&& planes.chroma_offset == self.stride() * index + self.row() * self.rows()
                    &&& planes.chroma_rows == self.rows() / 2
                    &&& planes.chroma_offset + self.row() * planes.chroma_rows == self.stride()
                        * index + self.stride()
                },
                Err(ArchiveError::FormatChanged) => format != self.format(),
                Err(ArchiveError::OutOfBounds) => format == self.format() && !self.holds(
                    index as int,
                ),
            },
    {
        if format != self.pixel_format {
            return Err(ArchiveError::FormatChanged);
        }
        let offset: u64 = match self.frame_offset(index) {
            Ok(offset) => offset,
            Err(e) => return Err(e),
        };
        let half: u64 = self.height / 2;
        proof {
            let row = self.row();
            let rows = self.rows();
            let half_rows = rows / 2;
            assert(row * (rows + half_rows) == row * rows + row * half_rows) by (nonlinear_arith);
            assert(row * rows >= 0) by (nonlinear_arith)
                requires
                    row >= 0,
                    rows >= 0,
            ;
            assert(row * half_rows >= 0) by (nonlinear_arith)
                requires
                    row >= 0,
                    half_rows >= 0,
            ;
            assert(row * rows <= self.stride());
        }
        let luma: u64 = self.row_bytes * self.height;
        Ok(
            FramePlanes {
                luma_offset: offset,
                luma_rows: self.height,
                chroma_offset: offset + luma,
                chroma_rows: half,
            },
        )
    }
}

/// Archived frames do not overlap: one ends at or before the beginning of the next.
pub proof fn archived_frames_are_apart(archive: GpuFrameArchive, i: int, j: int)
    requires
        archive.stride() >= 0,
        0 <= i < j,
    ensures
        archive.stride() * i + archive.stride() <= archive.stride() * j,
{
    let s = archive.stride();
    assert(s * i + s <= s * j) by (nonlinear_arith)
        requires
            s >= 0,
            0 <= i,
            i + 1 <= j,
    ;
}

/// An archive of `frames` frames holds each of them.
pub proof fn archive_holds_its_frames(archive: GpuFrameArchive, frames: int, i: int)
    requires
        archive.stride() >= 0,
        archive.storage() == archive.stride() * frames,
        0 <= i < frames,
    ensures
        archive.holds(i),
{
    archived_frames_are_apart(archive, i, frames);
}

/// What the plan of a recording is, or why there is none: first the output's dimensions, then the
/// archive's size, then the memory for decoding ahead.
pub open spec fn planned(
    source: RecordSource,
    output_width: u32,
    output_height: u32,
    mode: PredecodeMode,
    free_bytes: u64,
) -> Result<RecordPlan, RecordError> {
    let format = encoded_format(source.bit_depth);
    let capacity = archive_frames(source.frame_count);
    let stride = frame_bytes(source.width, source.height, format);
    let bytes = stride * capacity;
    let memory = enough_free(free_bytes) && leaves_headroom(free_bytes, bytes as u64);
    if output_width % 2 != 0 || output_height % 2 != 0 {
        Err(RecordError::OddDimensions { width: output_width, height: output_height })
    } else if stride > u64::MAX {
        Err(RecordError::FrameSizeOverflow)
    } else if bytes > u64::MAX {
        Err(RecordError::ArchiveSizeOverflow)
    } else if mode == PredecodeMode::Full && source.frame_count is None {
        Err(RecordError::Predecode(PredecodeError::MissingMetadata))
    } else if mode == PredecodeMode::Full && !enough_free(free_bytes) {
        Err(RecordError::Predecode(PredecodeError::TooLittleFree { free_bytes }))
    } else if mode == PredecodeMode::Full && !memory {
        Err(
            RecordError::Predecode(
                PredecodeError::DoesNotFit { required_bytes: bytes as u64, free_bytes },
            ),
        )
    } else {
        Ok(
            RecordPlan {
                pixel_format: format,
                codec: if format == PixelFormat::P010 {
                    RecordCodec::Hevc
                } else {
                    RecordCodec::H264
                },
                frame_duration: source.timing.frame_length() as i64,
                archive_capacity: capacity as u64,
                archive_bytes: bytes as u64,
                predecode: source.frame_count is Some && mode != PredecodeMode::Off && memory,
            },
        )
    }
}

/// Plans the recording of `source` with an output of the given size. `free_bytes` is the GPU
/// memory that is free.
pub fn plan_recording(
    source: RecordSource,
    output_width: u32,
    output_height: u32,
    mode: PredecodeMode,
    free_bytes: u64,
) -> (r: Result<RecordPlan, RecordError>)
    requires
        source.timing.wf(),
    ensures
        r == planned(source, output_width, output_height, mode, free_bytes),
{
    if output_width % 2 != 0 || output_height % 2 != 0 {
        return Err(RecordError::OddDimensions { width: output_width, height: output_height });
    }
    let pixel_format = if source.bit_depth > 8 { PixelFormat::P010 } else { PixelFormat::Nv12 };
    let archive_capacity: u64 = match source.frame_count {
        Some(frames) => match frames.checked_add(ARCHIVE_RESERVE) {
            Some(capacity) => capacity,
            None => 0,
        },
        None => 0,
    };
    let archive_bytes: u64 = match GpuFrameArchive::required_bytes(
        source.width,
        source.height,
        pixel_format,
        archive_capacity,
    ) {
        Ok(bytes) => bytes,
        Err(e) => return Err(e),
    };
    let predecode: bool = if source.frame_count.is_some() {
        match full_predecode_allowed(mode, free_bytes, archive_bytes) {
            Ok(allowed) => allowed,
            Err(e) => return Err(RecordError::Predecode(e)),
        }
    } else {
        false
    };
    if mode == PredecodeMode::Full && source.frame_count.is_none() {
        return Err(RecordError::Predecode(PredecodeError::MissingMetadata));
    }
    let codec = if pixel_format == PixelFormat::P010 {
        RecordCodec::Hevc
    } else {
        RecordCodec::H264
    };
    Ok(
        RecordPlan {
            pixel_format,
            codec,
            frame_duration: source.timing.frame_duration(),
            archive_capacity,
            archive_bytes,
            predecode,
        },
    )
}

/// Where and when the next frame is encoded.
#[derive(Debug, Clone, Copy, PartialEq, Eq, Structural)]
pub struct EncodeOrder {
    /// The surface to encode from.
    pub surface: u64,
    pub pts: i64,
    pub duration: i64,
    /// Frames processed once this one is.
    pub processed: u64,
}

/// The progress of a recording: the index of the next frame and the earliest time it may have.
#[derive(Debug, Clone, Copy, PartialEq, Eq)]
pub struct RecordSession {
    timing: StreamTiming,
    frame_duration: i64,
    index: u64,
    next_pts: i64,
}

/// `a + b`, held to 64 bits.
pub open spec fn held_sum(a: i64, b: i64) -> int {
    if a + b > i64::MAX {
        i64::MAX as int
    } else if a + b < i64::MIN {
        i64::MIN as int
    } else {
        a + b
    }
}

impl RecordSession {
    /// The timing of the recorded stream.
    pub closed spec fn clock(self) -> StreamTiming {
        self.timing
    }

    /// The duration of a frame.
    pub closed spec fn length(self) -> i64 {
        self.frame_duration
    }

    /// Frames encoded so far.
    pub closed spec fn frames(self) -> u64 {
        self.index
    }

    /// The earliest time of the next frame.
    pub closed spec fn earliest(self) -> i64 {
        self.next_pts
    }

    /// The stream has a time base and its frames last.
    pub open spec fn wf(self) -> bool {
        self.clock().wf() && self.length() >= 1
    }

    /// A recording before its first frame.
    pub fn new(timing: StreamTiming) -> (r: Self)
        requires
            timing.wf(),
        ensures
            r.wf(),
            r.clock() == timing,
            r.length() == timing.frame_length(),
            r.frames() == 0,
            r.earliest() == 0,
    {
        RecordSession {
            timing,
            frame_duration: timing.frame_duration(),
            index: 0,
            next_pts: 0,
        }
    }

    /// Frames encoded so far, which is the index of the next one.
    pub fn index(&self) -> (r: u64)
        ensures
            r == self.frames(),
    {
        self.index
    }

    /// Orders the encoding of the next frame, which was decoded with the given time. Frames keep
    /// their time unless the frame before them is not over by then.
    pub fn next_frame(&mut self, timestamp_100ns: i64) -> (r: EncodeOrder)
        requires
            old(self).wf(),
        ensures
            final(self).wf(),
            final(self).clock() == old(self).clock(),
            final(self).length() == old(self).length(),
            r.surface == old(self).frames() % ENCODE_SURFACES,
            r.pts == larger(
                old(self).clock().stamp_of(timestamp_100ns) as int,
                old(self).earliest() as int,
            ),
            r.duration == old(self).length(),
            r.processed == if old(self).frames() == u64::MAX {
                u64::MAX as int
            } else {
                old(self).frames() + 1
            },
            final(self).frames() == r.processed,
            final(self).earliest() == held_sum(r.pts, old(self).length()),
            ({
                let clock = old(self).clock();
                let time = timestamp_100ns * clock.time_base_den;
                let unit = 10_000_000 * clock.time_base_num;
                clock.time_base_num > 0 && clock.time_base_den > 0 && timestamp_100ns >= 0 && time
                    <= i64::MAX * unit ==> {
                    &&& time < (r.pts + 1) * unit
                    &&& r.pts * unit <= time || r.pts == old(self).earliest()
                }
            }),
    {
        proof {
            frame_keeps_its_time(self.timing, timestamp_100ns, self.next_pts);
        }
        let stamp: i64 = self.timing.time_stamp(timestamp_100ns);
        let pts: i64 = if stamp < self.next_pts { self.next_pts } else { stamp };
        let surface: u64 = self.index % ENCODE_SURFACES;
        let processed: u64 = self.index.saturating_add(1);
        self.next_pts = if pts > i64::MAX - self.frame_duration {
            i64::MAX
        } else {
            pts + self.frame_duration
        };
        self.index = processed;
        EncodeOrder { surface, pts, duration: self.frame_duration, processed }
    }
}

proof fn frame_keeps_its_time(clock: StreamTiming, timestamp_100ns: i64, earliest: i64)
    ensures
        ({
            let time = timestamp_100ns * clock.time_base_den;
            let unit = 10_000_000 * clock.time_base_num;
            let pts = larger(clock.stamp_of(timestamp_100ns) as int, earliest as int);
            clock.time_base_num > 0 && clock.time_base_den > 0 && timestamp_100ns >= 0 && time
                <= i64::MAX * unit ==> {
                &&& time < (pts + 1) * unit
                &&& pts * unit <= time || pts == earliest
            }
        }),
{
    let time = timestamp_100ns * clock.time_base_den;
    let unit = 10_000_000 * clock.time_base_num;
    if clock.time_base_num > 0 && clock.time_base_den > 0 && timestamp_100ns >= 0 && time
        <= i64::MAX * unit {
        stamp_is_the_time(clock, timestamp_100ns);
        let stamp = clock.stamp_of(timestamp_100ns) as int;
        let pts = larger(stamp, earliest as int);
        assert((stamp + 1) * unit <= (pts + 1) * unit) by (nonlinear_arith)
            requires
                stamp <= pts,
                unit > 0,
        ;
    }
}

/// A frame begins when the one before it is over, short of the end of the 64-bit range: `earliest`
/// is what a frame at `pts` leaves to the next one, whose own time is `stamp`.
pub proof fn frames_follow_each_other(pts: i64, length: i64, stamp: i64)
    requires
        length >= 1,
        pts + length <= i64::MAX,
    ensures
        larger(stamp as int, held_sum(pts, length)) >= pts + length,
{
}

/// What has to be released before the next decoded surface is mapped, in this order.
#[derive(Debug, Clone, Copy, PartialEq, Eq, Structural)]
pub struct SurfaceRelease {
    /// The place of the pending surface whose picture slot the decoder reuses.
    pub reused: Option<usize>,
    /// The oldest pending surface goes too.
    pub oldest: bool,
}

/// The decoder surfaces in flight, oldest first, by their picture slots.
#[derive(Debug)]
pub struct PendingSurfaces {
    pictures: Vec<i32>,
}

/// The number of leading flags that are set.
pub open spec fn leading(flags: Seq<bool>) -> int
    decreases flags.len(),
{
    if flags.len() == 0 || !flags[0] {
        0
    } else {
        1 + leading(flags.drop_first())
    }
}

/// The pending pictures without the one that is reused, and without the oldest where too many are
/// left.
pub open spec fn room_made(pictures: Seq<i32>, release: SurfaceRelease) -> Seq<i32> {
    let rest = match release.reused {
        Some(at) => pictures.remove(at as int),
        None => pictures,
    };
    if release.oldest {
        rest.drop_first()
    } else {
        rest
    }
}

impl View for PendingSurfaces {
    type V = Seq<i32>;

    closed spec fn view(&self) -> Seq<i32> {
        self.pictures@
    }
}

impl PendingSurfaces {
    /// No more surfaces are in flight than allowed, and no picture slot twice.
    pub open spec fn wf(&self) -> bool {
        self@.len() <= PENDING_SURFACES && self@.no_duplicates()
    }

    /// No surface in flight.
    pub fn new() -> (r: Self)
        ensures
            r.wf(),
            r@ == Seq::<i32>::empty(),
    {
        PendingSurfaces { pictures: Vec::new() }
    }

    /// The number of surfaces in flight.
    pub fn len(&self) -> (r: usize)
        ensures
            r == self@.len(),
    {
        self.pictures.len()
    }

    /// Drops the oldest surfaces that are done, up to the first that is not, and says how many.
    pub fn drop_completed(&mut self, completed: &Vec<bool>) -> (r: usize)
        requires
            old(self).wf(),
            completed@.len() == old(self)@.len(),
        ensures
            final(self).wf(),
            r == leading(completed@),
            r <= old(self)@.len(),
            final(self)@ == old(self)@.skip(r as int),
    {
        let mut n: usize = 0;
        let ghost before = self.pictures@;
        proof {
            assert(before.skip(0) =~= before);
            assert(completed@.skip(0) =~= completed@);
        }
        while n < completed.len() && completed[n]
            invariant
                n <= completed.len(),
                completed@.len() == before.len(),
                before.no_duplicates(),
                before.len() <= PENDING_SURFACES,
                self.pictures@ == before.skip(n as int),
                leading(completed@) == n + leading(completed@.skip(n as int)),
            decreases completed.len() - n,
        {
            let _ = self.pictures.remove(0);
            proof {
                assert(self.pictures@ =~= before.skip(n + 1));
                assert(completed@.skip(n as int).drop_first() =~= completed@.skip(n + 1));
            }
            n = n + 1;
        }
        n
    }

    fn place_of(&self, picture: i32) -> (r: Option<usize>)
        ensures
            match r {
                Some(at) => at < self@.len() && self@[at as int] == picture,
                None => !self@.contains(picture),
            },
    {
        let mut i: usize = 0;
        while i < self.pictures.len()
            invariant
                i <= self.pictures.len(),
                forall|j: int| 0 <= j < i ==> self@[j] != picture,
            decreases self.pictures.len() - i,
        {
            if self.pictures[i] == picture {
                return Some(i);
            }
            i = i + 1;
        }
        None
    }

    /// Makes room for the picture slot that the decoder fills next: a pending surface in that slot
    /// is released, and the oldest one where as many as allowed are still in flight.
    pub fn make_room(&mut self, next_picture: i32) -> (r: SurfaceRelease)
        requires
            old(self).wf(),
        ensures
            final(self).wf(),
            final(self)@.len() < PENDING_SURFACES,
            !final(self)@.contains(next_picture),
            final(self)@ == room_made(old(self)@, r),
            match r.reused {
                Some(at) => at < old(self)@.len() && old(self)@[at as int] == next_picture,
                None => !old(self)@.contains(next_picture),
            },
            r.oldest == (r.reused is None && old(self)@.len() == PENDING_SURFACES),
    {
        let ghost before = self.pictures@;
        let reused: Option<usize> = self.place_of(next_picture);
        if let Some(at) = reused {
            let _ = self.pictures.remove(at);
            proof {
                removed_is_gone(before, at as int);
            }
        }
        let oldest = self.pictures.len() >= PENDING_SURFACES;
        if oldest {
            let ghost full = self.pictures@;
            let _ = self.pictures.remove(0);
            proof {
                assert(self.pictures@ =~= full.drop_first());
                removed_is_gone(full, 0);
                assert(full.remove(0) =~= full.drop_first());
            }
        }
        SurfaceRelease { reused, oldest }
    }

    /// Adds the surface that was just mapped.
    pub fn push(&mut self, picture: i32)
        requires
            old(self).wf(),
            old(self)@.len() < PENDING_SURFACES,
            !old(self)@.contains(picture),
        ensures
            final(self).wf(),
            final(self)@ == old(self)@.push(picture),
    {
        self.pictures.push(picture);
    }
}

proof fn removed_is_gone(pictures: Seq<i32>, at: int)
    requires
        pictures.no_duplicates(),
        0 <= at < pictures.len(),
    ensures
        pictures.remove(at).no_duplicates(),
        !pictures.remove(at).contains(pictures[at]),
{
    let rest = pictures.remove(at);
    assert forall|i: int, j: int| 0 <= i < rest.len() && 0 <= j < rest.len() && i
        != j implies rest[i] != rest[j] by {
        let x = if i < at { i } else { i + 1 };
        let y = if j < at { j } else { j + 1 };
        assert(rest[i] == pictures[x] && rest[j] == pictures[y]);
    }
    if rest.contains(pictures[at]) {
        let i = choose|i: int| 0 <= i < rest.len() && rest[i] == pictures[at];
        let x = if i < at { i } else { i + 1 };
        assert(rest[i] == pictures[x]);
    }
}

/// Frames that are in the encoder at the same time are encoded from different surfaces: a surface
/// comes up again after five frames and not before.
pub proof fn surfaces_take_turns(i: int, j: int)
    requires
        0 <= i < j,
    ensures
        j - i < 5 ==> i % (ENCODE_SURFACES as int) != j % (ENCODE_SURFACES as int),
        j - i == 5 ==> i % (ENCODE_SURFACES as int) == j % (ENCODE_SURFACES as int),
        0 <= i % (ENCODE_SURFACES as int) < 5,
{
}

/// A frame of even height has one and a half samples for each pixel, of one byte each, or of two
/// where there are more than eight bits to a sample.
pub proof fn frame_has_its_samples(width: u32, height: u32)
    requires
        height % 2 == 0,
    ensures
        2 * frame_bytes(width, height, PixelFormat::Nv12) == 3 * (width * height),
        frame_bytes(width, height, PixelFormat::P010) == 3 * (width * height),
{
    let w = width as int;
    let h = height as int;
    let half = h / 2;
    assert(2 * ((w * 1) * (h + half)) == 3 * (w * h)) by (nonlinear_arith)
        requires
            h == 2 * half,
    ;
    assert((w * 2) * (h + half) == 3 * (w * h)) by (nonlinear_arith)
        requires
            h == 2 * half,
    ;
}

/// A recording that is planned writes a video of even dimensions; more than eight bits to a sample
/// are kept, and encoded as HEVC. The archive has room for every frame that was told of and for
/// sixty-four more, none of it is lost to overflow, and the video is decoded ahead only where its
/// length is known, decoding ahead is not off, and 16 GiB are free and 2 GiB of them stay so.
pub proof fn planned_recording_fits(
    source: RecordSource,
    output_width: u32,
    output_height: u32,
    mode: PredecodeMode,
    free_bytes: u64,
    plan: RecordPlan,
)
    requires
        planned(source, output_width, output_height, mode, free_bytes) == Ok::<
            RecordPlan,
            RecordError,
        >(plan),
    ensures
        output_width % 2 == 0 && output_height % 2 == 0,
        plan.pixel_format is P010 <==> source.bit_depth > 8,
        plan.codec is Hevc <==> source.bit_depth > 8,
        source.frame_count matches Some(n) ==> (n + 64 <= u64::MAX ==> plan.archive_capacity == n
            + 64),
        source.frame_count is None ==> plan.archive_capacity == 0 && plan.archive_bytes == 0,
        plan.archive_bytes == frame_bytes(source.width, source.height, plan.pixel_format)
            * plan.archive_capacity,
        plan.predecode ==> source.frame_count is Some && !(mode is Off) && plan.archive_bytes + 2
            * 1024 * 1024 * 1024 <= free_bytes && 16 * 1024 * 1024 * 1024 <= free_bytes,
        source.frame_count is Some && mode is Auto && plan.archive_bytes + 2 * 1024 * 1024 * 1024
            <= free_bytes && 16 * 1024 * 1024 * 1024 <= free_bytes ==> plan.predecode,
        mode is Full ==> plan.predecode,
{
    let stride = frame_bytes(source.width, source.height, encoded_format(source.bit_depth));
    let capacity = archive_frames(source.frame_count);
    assert(stride * 0 == 0) by (nonlinear_arith);
    assert(stride * capacity >= 0) by (nonlinear_arith)
        requires
            stride >= 0,
            capacity >= 0,
    ;
}

/// Surfaces are dropped from the oldest on, each of them done, up to the first that is not.
pub proof fn leading_flags_are_set(flags: Seq<bool>)
    ensures
        0 <= leading(flags) <= flags.len(),
        forall|i: int| 0 <= i < leading(flags) ==> #[trigger] flags[i],
        leading(flags) < flags.len() ==> !flags[leading(flags)],
    decreases flags.len(),
{
    if flags.len() > 0 && flags[0] {
        let rest = flags.drop_first();
        leading_flags_are_set(rest);
        assert forall|i: int| 0 <= i < leading(flags) implies #[trigger] flags[i] by {
            if i > 0 {
                assert(rest[i - 1] == flags[i]);
            }
        }
    }
}

} // verus!
