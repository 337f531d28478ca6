//! Processing files without a window.

use vstd::prelude::*;

use crate::bridge::request::{EditorEngineRequest, FaceAssignmentInputs, FaceIdentityInput};
use crate::config::fresh_params;
use crate::config::{DetectionParams, ExecutionProvider, FaceSwapParams, SwapDim};
use crate::engine::models::ModelSet;
use crate::engine::spec::EngineSpec;
use crate::number::{Single, HALF};
use crate::paths::{extension_ends_the_path, extension_reads_back};
use crate::paths::{extension_of, free_of, is_dot, segments};
use crate::runtime::PredecodeMode;
use crate::text::{lowered, lowering_leaves_the_letters, spells};
use crate::text::{join2, join3, same_text, to_lowered};

verus! {

/// What kind of file is processed.
#[derive(Debug, Clone, Copy, PartialEq, Eq, Structural)]
pub enum FileWorkflow {
    Image,
    Video,
}

/// Why files are not processed.
#[derive(Debug, PartialEq, Eq)]
pub enum HeadlessError {
    SourceMustBeImage,
    ImageOutputRequired,
    VideoOutputRequired,
    UnsupportedTarget(String),
    UnsupportedProvider(String),
    UnsupportedResolution(u32),
    SourceNotFound(String),
    TargetNotFound(String),
    OutputIsInput,
}

/// What was asked for on the command line.
#[derive(Debug, PartialEq, Eq)]
pub struct HeadlessOptions {
    pub source_path: String,
    pub target_path: String,
    pub output_path: String,
    pub execution_provider: String,
    pub device_id: i32,
    pub worker_threads: u64,
    pub predecode: PredecodeMode,
    pub swap_resolution: u32,
    pub face_detector_score: Single,
    pub max_faces: u64,
}

/// What is going to be done.
#[derive(Debug)]
pub struct HeadlessPlan {
    pub workflow: FileWorkflow,
    pub source_path: String,
    pub target_path: String,
    pub output_path: String,
    pub provider: ExecutionProvider,
    pub device_id: i32,
    pub worker_threads: u64,
    pub predecode: PredecodeMode,
    pub params: FaceSwapParams,
}

/// The extension of a path in lower case.
pub open spec fn low_extension(path: Seq<char>) -> Option<Seq<char>> {
    match extension_of(path) {
        Some(extension) => Some(lowered(extension)),
        None => None,
    }
}

/// The path names an image.
pub open spec fn names_image(path: Seq<char>) -> bool {
    low_extension(path) matches Some(e) && (e == "jpg"@ || e == "jpeg"@ || e == "png"@ || e
        == "bmp"@ || e == "webp"@)
}

/// The path names a video.
pub open spec fn names_video(path: Seq<char>) -> bool {
    low_extension(path) matches Some(e) && (e == "mp4"@ || e == "mkv"@ || e == "mov"@ || e
        == "avi"@ || e == "webm"@)
}

/// The extension of a path in lower case.
pub fn extension(path: &str) -> (r: Option<String>)
    ensures
        crate::faces::optional_text(r) == low_extension(path@),
{
    match crate::paths::extension(path) {
        Some(extension) => Some(to_lowered(extension.as_str())),
        None => None,
    }
}

/// Whether the path names an image.
pub fn is_image(path: &str) -> (r: bool)
    ensures
        r == names_image(path@),
{
    match extension(path) {
        Some(e) => same_text(e.as_str(), "jpg") || same_text(e.as_str(), "jpeg") || same_text(
            e.as_str(),
            "png",
        ) || same_text(e.as_str(), "bmp") || same_text(e.as_str(), "webp"),
        None => false,
    }
}

/// Whether the path names a video.
pub fn is_video(path: &str) -> (r: bool)
    ensures
        r == names_video(path@),
{
    match extension(path) {
        Some(e) => same_text(e.as_str(), "mp4") || same_text(e.as_str(), "mkv") || same_text(
            e.as_str(),
            "mov",
        ) || same_text(e.as_str(), "avi") || same_text(e.as_str(), "webm"),
        None => false,
    }
}

/// The outcome of telling what kind of file is processed.
pub open spec fn classified(
    source: Seq<char>,
    target: Seq<char>,
    output: Seq<char>,
    r: Result<FileWorkflow, HeadlessError>,
) -> bool {
    if !names_image(source) {
        r matches Err(HeadlessError::SourceMustBeImage)
    } else if names_image(target) {
        if names_image(output) {
            r matches Ok(FileWorkflow::Image)
        } else {
            r matches Err(HeadlessError::ImageOutputRequired)
        }
    } else if names_video(target) {
        if names_video(output) {
            r matches Ok(FileWorkflow::Video)
        } else {
            r matches Err(HeadlessError::VideoOutputRequired)
        }
    } else {
        r matches Err(HeadlessError::UnsupportedTarget(path)) && path@ == target
    }
}

/// Tells what kind of file is processed.
pub fn classify_workflow(source_path: &str, target_path: &str, output_path: &str) -> (r: Result<
    FileWorkflow,
    HeadlessError,
>)
    ensures
        classified(source_path@, target_path@, output_path@, r),
{
    if !is_image(source_path) {
        return Err(HeadlessError::SourceMustBeImage);
    }
    if is_image(target_path) {
        if !is_image(output_path) {
            return Err(HeadlessError::ImageOutputRequired);
        }
        return Ok(FileWorkflow::Image);
    }
    if is_video(target_path) {
        if !is_video(output_path) {
            return Err(HeadlessError::VideoOutputRequired);
        }
        return Ok(FileWorkflow::Video);
    }
    Err(HeadlessError::UnsupportedTarget(target_path.to_owned()))
}

/// The provider that is named.
pub open spec fn named_provider(name: Seq<char>) -> Option<ExecutionProvider> {
    if name == "cuda"@ {
        Some(ExecutionProvider::Cuda)
    } else if name == "tensorrt"@ {
        Some(ExecutionProvider::TensorRT)
    } else {
        None
    }
}

/// The parameters of a fresh session, with those that the command line sets.
pub open spec fn headless_params(params: FaceSwapParams, options: HeadlessOptions) -> bool {
    &&& options.swap_resolution == 128 * params.dim.side()
    &&& params.detection.score == options.face_detector_score
    &&& params.detection.max_faces == options.max_faces
    &&& fresh_params(
        FaceSwapParams {
            dim: SwapDim::Dim1,
            detection: DetectionParams {
                score: Single { bits: HALF },
                max_faces: 20,
                ..params.detection
            },
            ..params
        },
    )
}

/// The plan for what was asked for.
pub open spec fn plans(plan: HeadlessPlan, options: HeadlessOptions) -> bool {
    &&& classified(
        options.source_path@,
        options.target_path@,
        options.output_path@,
        Ok(plan.workflow),
    )
    &&& plan.source_path@ == options.source_path@
    &&& plan.target_path@ == options.target_path@
    &&& plan.output_path@ == options.output_path@
    &&& named_provider(options.execution_provider@) == Some(plan.provider)
    &&& plan.device_id == options.device_id
    &&& plan.worker_threads == if options.worker_threads < 1 {
        1
    } else if options.worker_threads > 32 {
        32
    } else {
        options.worker_threads
    }
    &&& plan.predecode == options.predecode
    &&& headless_params(plan.params, options)
}

/// A swap resolution that there is.
pub open spec fn has_resolution(resolution: u32) -> bool {
    resolution == 128 || resolution == 256 || resolution == 384 || resolution == 512
}

/// Why there is no plan: the files, else the provider, else the resolution.
pub open spec fn plan_refused(options: HeadlessOptions, e: HeadlessError) -> bool {
    let source = options.source_path@;
    let target = options.target_path@;
    let output = options.output_path@;
    ||| classified(source, target, output, Err(e))
    ||| exists|w: FileWorkflow| #[trigger]
        classified(source, target, output, Ok(w)) && if named_provider(
            options.execution_provider@,
        ) is None {
            e matches HeadlessError::UnsupportedProvider(name) && name@
                == options.execution_provider@
        } else {
            !has_resolution(options.swap_resolution) && e == HeadlessError::UnsupportedResolution(
                options.swap_resolution,
            )
        }
}

/// Plans what was asked for.
pub fn build_plan(options: &HeadlessOptions) -> (r: Result<HeadlessPlan, HeadlessError>)
    ensures
        match r {
            Ok(plan) => plans(plan, *options),
            Err(e) => plan_refused(*options, e),
        },
{
    let outcome = classify_workflow(
        options.source_path.as_str(),
        options.target_path.as_str(),
        options.output_path.as_str(),
    );
    let workflow = match outcome {
        Ok(workflow) => workflow,
        Err(e) => return Err(e),
    };
    proof {
        assert(classified(
            options.source_path@,
            options.target_path@,
            options.output_path@,
            Ok(workflow),
        ));
    }
    let provider = if same_text(options.execution_provider.as_str(), "cuda") {
        ExecutionProvider::Cuda
    } else if same_text(options.execution_provider.as_str(), "tensorrt") {
        ExecutionProvider::TensorRT
    } else {
        return Err(HeadlessError::UnsupportedProvider(options.execution_provider.clone()));
    };
    let dim = match SwapDim::from_resolution(options.swap_resolution) {
        Some(dim) => dim,
        None => {
            proof {
                assert(128 * SwapDim::Dim1.side() == 128);
                assert(128 * SwapDim::Dim2.side() == 256);
                assert(128 * SwapDim::Dim3.side() == 384);
                assert(128 * SwapDim::Dim4.side() == 512);
            }
            return Err(HeadlessError::UnsupportedResolution(options.swap_resolution));
        },
    };
    let base = FaceSwapParams::default();
    let params = FaceSwapParams {
        dim,
        detection: DetectionParams {
            score: options.face_detector_score,
            max_faces: options.max_faces,
            ..base.detection
        },
        ..base
    };
    let worker_threads: u64 = if options.worker_threads < 1 {
        1
    } else if options.worker_threads > 32 {
        32
    } else {
        options.worker_threads
    };
    Ok(
        HeadlessPlan {
            workflow,
            source_path: options.source_path.clone(),
            target_path: options.target_path.clone(),
            output_path: options.output_path.clone(),
            provider,
            device_id: options.device_id,
            worker_threads,
            predecode: options.predecode,
            params,
        },
    )
}

/// What is on disk where a plan reads and writes. The paths are canonical ones.
#[derive(Debug, PartialEq, Eq)]
pub struct FileFacts {
    pub source: Option<String>,
    pub target: Option<String>,
    pub output: Option<String>,
}

/// Checks that the inputs are there and that the output does not overwrite one of them.
pub fn validate_files(plan: &HeadlessPlan, facts: &FileFacts) -> (r: Result<(), HeadlessError>)
    ensures
        match (facts.source, facts.target) {
            (None, _) => r matches Err(HeadlessError::SourceNotFound(path)) && path@
                == plan.source_path@,
            (Some(_), None) => r matches Err(HeadlessError::TargetNotFound(path)) && path@
                == plan.target_path@,
            (Some(source), Some(target)) => if facts.output matches Some(output) && (output@
                == source@ || output@ == target@) {
                r matches Err(HeadlessError::OutputIsInput)
            } else {
                r is Ok
            },
        },
{
    let source = match &facts.source {
        Some(source) => source,
        None => return Err(HeadlessError::SourceNotFound(plan.source_path.clone())),
    };
    let target = match &facts.target {
        Some(target) => target,
        None => return Err(HeadlessError::TargetNotFound(plan.target_path.clone())),
    };
    if let Some(output) = &facts.output {
        if same_text(output.as_str(), source.as_str()) || same_text(
            output.as_str(),
            target.as_str(),
        ) {
            return Err(HeadlessError::OutputIsInput);
        }
    }
    Ok(())
}

/// The directory that has to be there before the output is written.
pub fn output_directory(plan: &HeadlessPlan) -> (r: Option<String>)
    ensures
        crate::faces::optional_text(r) == match crate::paths::parent_of(plan.output_path@) {
            Some(directory) => if directory.len() > 0 {
                Some(directory)
            } else {
                None
            },
            None => None,
        },
{
    match crate::paths::parent(plan.output_path.as_str()) {
        Some(directory) => if directory.as_str().is_empty() {
            None
        } else {
            Some(directory)
        },
        None => None,
    }
}

/// The request of a plan: the source image into every face.
pub fn engine_request(plan: &HeadlessPlan, spec: EngineSpec) -> (r: EditorEngineRequest)
    ensures
        r.spec == spec,
        r.assignments@.len() == 1,
        r.assignments@[0].source matches FaceIdentityInput::Image(path) && path@
            == plan.source_path@,
        r.assignments@[0].target is None,
        r.assignments@[0].similarity_threshold == plan.params.identity.similarity_threshold,
        r.assignments@[0].params is None,
        r.assignments@[0].models.vacant(),
        r.worker_threads == plan.worker_threads,
        r.predecode == plan.predecode,
{
    let assignments: Vec<FaceAssignmentInputs> = vec![
        FaceAssignmentInputs {
            source: FaceIdentityInput::Image(plan.source_path.clone()),
            target: None,
            similarity_threshold: plan.params.identity.similarity_threshold,
            params: None,
            models: ModelSet::new(),
        },
    ];
    EditorEngineRequest {
        spec,
        assignments,
        worker_threads: plan.worker_threads,
        predecode: plan.predecode,
    }
}

/// The texts on the bar that shows how far a video is.
#[derive(Debug, Clone, Copy, PartialEq, Eq)]
pub enum BarStyle {
    Waiting,
    Running,
    Finished,
}

/// How far the processing of a video is.
#[derive(Debug, PartialEq, Eq)]
pub struct VideoProgress {
    pub style: BarStyle,
    pub length: Option<u64>,
    pub position: u64,
    /// The time of the last frame, in nanoseconds.
    pub last: Option<u64>,
    /// The times between frames, in nanoseconds.
    pub intervals: Vec<u64>,
}

impl VideoProgress {
    /// A video that was not begun.
    pub fn new(length: Option<u64>) -> (r: Self)
        ensures
            r.style == BarStyle::Waiting,
            r.length == length,
            r.position == 0,
            r.last is None,
            r.intervals@.len() == 0,
    {
        VideoProgress {
            style: BarStyle::Waiting,
            length,
            position: 0,
            last: None,
            intervals: Vec::new(),
        }
    }

    /// Frames were decoded ahead.
    pub fn decoded(&mut self, decoded: u64, total: Option<u64>)
        ensures
            *final(self) == (VideoProgress {
                position: decoded,
                length: if total is Some {
                    total
                } else {
                    old(self).length
                },
                ..*old(self)
            }),
    {
        if total.is_some() {
            self.length = total;
        }
        self.position = decoded;
    }

    /// A frame was processed at the time `now`.
    pub fn processed(&mut self, processed: u64, total: Option<u64>, now: u64)
        ensures
            final(self).position == processed,
            final(self).length == if total is Some {
                total
            } else {
                old(self).length
            },
            final(self).style == if processed > 0 {
                if old(self).style == BarStyle::Waiting {
                    BarStyle::Running
                } else {
                    old(self).style
                }
            } else {
                old(self).style
            },
            final(self).last == Some(now),
            final(self).intervals@ == match old(self).last {
                Some(last) => old(self).intervals@.push(
                    if now < last {
                        0
                    } else {
                        (now - last) as u64
                    },
                ),
                None => old(self).intervals@,
            },
    {
        if total.is_some() {
            self.length = total;
        }
        if processed > 0 {
            if let BarStyle::Waiting = self.style {
                self.style = BarStyle::Running;
            }
        }
        if let Some(last) = self.last {
            self.intervals.push(now.saturating_sub(last));
        }
        self.last = Some(now);
        self.position = processed;
    }
}

/// Numbers in ascending order.
pub open spec fn in_order(values: Seq<u64>) -> bool {
    forall|i: int, j: int| 0 <= i <= j < values.len() ==> values[i] <= values[j]
}

/// Those of `values` that are not zero.
pub open spec fn positive(values: Seq<u64>) -> Seq<u64>
    decreases values.len(),
{
    if values.len() == 0 {
        Seq::empty()
    } else if values.last() > 0 {
        positive(values.drop_last()).push(values.last())
    } else {
        positive(values.drop_last())
    }
}

/// `a` and `b` stand in the middle of `values`, once those are in order: one value where their
/// number is odd, two where it is even.
pub open spec fn middle_values(values: Seq<u64>, a: u64, b: u64) -> bool {
    exists|sorted: Seq<u64>|
        {
            &&& sorted.to_multiset() == values.to_multiset()
            &&& #[trigger] in_order(sorted)
            &&& sorted.len() > 0
            &&& b == sorted[sorted.len() as int / 2]
            &&& a == if sorted.len() % 2 == 0 {
                sorted[sorted.len() as int / 2 - 1]
            } else {
                b
            }
        }
}

/// Puts a value in its place among values in order.
fn place_value(sorted: &mut Vec<u64>, value: u64)
    requires
        in_order(old(sorted)@),
    ensures
        in_order(final(sorted)@),
        final(sorted)@.to_multiset() == old(sorted)@.to_multiset().insert(value),
        final(sorted)@.len() == old(sorted)@.len() + 1,
{
    let ghost before = sorted@;
    let mut i: usize = sorted.len();
    while i > 0 && sorted[i - 1] > value
        invariant
            i <= sorted.len(),
            sorted@ == before,
            in_order(before),
            forall|j: int| i <= j < sorted@.len() ==> sorted@[j] > value,
        decreases i,
    {
        i = i - 1;
    }
    sorted.insert(i, value);
    proof {
        vstd::seq_lib::to_multiset_insert(before, i as int, value);
        assert(sorted@ =~= before.insert(i as int, value));
        assert forall|a: int, b: int| 0 <= a <= b < sorted@.len() implies sorted@[a]
            <= sorted@[b] by {
            if a < i && b > i {
                assert(before[a] <= before[b - 1]);
            }
            if a < i && b == i {
                assert(before[a] <= before[i - 1]);
            }
            if a == i && b > i {
                assert(before[b - 1] > value);
            }
            if a > i {
                assert(before[a - 1] <= before[b - 1]);
            }
            if b < i {
                assert(before[a] <= before[b]);
            }
        }
    }
}

/// The middle of the times between frames that are not zero.
pub fn median_interval(intervals: &Vec<u64>) -> (r: Option<(u64, u64)>)
    ensures
        match r {
            Some((a, b)) => positive(intervals@).len() > 0 && middle_values(
                positive(intervals@),
                a,
                b,
            ),
            None => positive(intervals@).len() == 0,
        },
{
    let mut sorted: Vec<u64> = Vec::new();
    let mut i: usize = 0;
    proof {
        assert(sorted@ =~= Seq::<u64>::empty());
        assert(positive(intervals@.take(0)) =~= Seq::<u64>::empty());
    }
    while i < intervals.len()
        invariant
            i <= intervals.len(),
            in_order(sorted@),
            sorted@.to_multiset() == positive(intervals@.take(i as int)).to_multiset(),
            sorted@.len() == positive(intervals@.take(i as int)).len(),
        decreases intervals.len() - i,
    {
        proof {
            assert(intervals@.take(i + 1).drop_last() =~= intervals@.take(i as int));
        }
        if intervals[i] > 0 {
            proof {
                let front = positive(intervals@.take(i as int));
                front.to_multiset_ensures();
                assert(front.push(intervals@[i as int]).to_multiset() =~= front.to_multiset().insert(
                    intervals@[i as int],
                ));
            }
            place_value(&mut sorted, intervals[i]);
        }
        i = i + 1;
    }
    proof {
        assert(intervals@.take(intervals@.len() as int) =~= intervals@);
    }
    if sorted.len() == 0 {
        return None;
    }
    let middle: usize = sorted.len() / 2;
    let b: u64 = sorted[middle];
    let a: u64 = if sorted.len() % 2 == 0 {
        sorted[middle - 1]
    } else {
        b
    };
    proof {
        assert(in_order(sorted@));
    }
    Some((a, b))
}

/// What is told once a video was saved: where, and at how many frames a second, where that is
/// known.
pub fn video_completion_message(path: &str, median_rate: Option<&str>) -> (r: String)
    ensures
        r@ == match median_rate {
            Some(rate) => "Saved "@ + path@ + " \u{b7} median "@ + rate@ + " FPS"@,
            None => "Saved "@ + path@,
        },
{
    let saved: String = join2("Saved ", path);
    match median_rate {
        Some(rate) => {
            let text: String = join3(saved.as_str(), " \u{b7} median ", rate);
            join2(text.as_str(), " FPS")
        },
        None => saved,
    }
}

/// The extensions of images and videos, by name: `e` spells one of them, letter case aside.
proof fn extensions_by_name(e: Seq<char>)
    ensures
        lowered(e) == "jpg"@ <==> spells(e, "jpg"@),
        lowered(e) == "jpeg"@ <==> spells(e, "jpeg"@),
        lowered(e) == "png"@ <==> spells(e, "png"@),
        lowered(e) == "bmp"@ <==> spells(e, "bmp"@),
        lowered(e) == "webp"@ <==> spells(e, "webp"@),
        lowered(e) == "mp4"@ <==> spells(e, "mp4"@),
        lowered(e) == "mkv"@ <==> spells(e, "mkv"@),
        lowered(e) == "mov"@ <==> spells(e, "mov"@),
        lowered(e) == "avi"@ <==> spells(e, "avi"@),
        lowered(e) == "webm"@ <==> spells(e, "webm"@),
{
    reveal_strlit("jpg");
    reveal_strlit("jpeg");
    reveal_strlit("png");
    reveal_strlit("bmp");
    reveal_strlit("webp");
    reveal_strlit("mp4");
    reveal_strlit("mkv");
    reveal_strlit("mov");
    reveal_strlit("avi");
    reveal_strlit("webm");
    lowering_leaves_the_letters(e, "jpg"@);
    lowering_leaves_the_letters(e, "jpeg"@);
    lowering_leaves_the_letters(e, "png"@);
    lowering_leaves_the_letters(e, "bmp"@);
    lowering_leaves_the_letters(e, "webp"@);
    lowering_leaves_the_letters(e, "mp4"@);
    lowering_leaves_the_letters(e, "mkv"@);
    lowering_leaves_the_letters(e, "mov"@);
    lowering_leaves_the_letters(e, "avi"@);
    lowering_leaves_the_letters(e, "webm"@);
}

/// Whatever stands before the dot, a file is an image where its name ends in `.jpg`, `.jpeg`,
/// `.png`, `.bmp` or `.webp` and a video where it ends in `.mp4`, `.mkv`, `.mov`, `.avi` or `.webm`,
/// letter case aside, and neither with any other extension.
pub proof fn media_are_told_by_extension(front: Seq<char>, ending: Seq<char>)
    requires
        front.len() > 0,
        front.last() != '/',
        ending.len() > 0,
        free_of(ending, '.'),
        free_of(ending, '/'),
    ensures
        names_image(front + seq!['.'] + ending) <==> {
            ||| spells(ending, "jpg"@)
            ||| spells(ending, "jpeg"@)
            ||| spells(ending, "png"@)
            ||| spells(ending, "bmp"@)
            ||| spells(ending, "webp"@)
        },
        names_video(front + seq!['.'] + ending) <==> {
            ||| spells(ending, "mp4"@)
            ||| spells(ending, "mkv"@)
            ||| spells(ending, "mov"@)
            ||| spells(ending, "avi"@)
            ||| spells(ending, "webm"@)
        },
{
    extension_reads_back(front, ending);
    extensions_by_name(ending);
}

/// A path that names an image or a video and ends in a name ends in a dot and one of the ten
/// extensions; nothing else is either.
pub proof fn media_have_an_extension(path: Seq<char>) -> (split: (Seq<char>, Seq<char>))
    requires
        names_image(path) || names_video(path),
        path.len() > 0,
        path.last() != '/',
        !is_dot(segments(path).last()),
    ensures
        path == split.0 + seq!['.'] + split.1,
        split.0.len() > 0,
        split.0.last() != '/',
        names_image(path) ==> {
            ||| spells(split.1, "jpg"@)
            ||| spells(split.1, "jpeg"@)
            ||| spells(split.1, "png"@)
            ||| spells(split.1, "bmp"@)
            ||| spells(split.1, "webp"@)
        },
        names_video(path) ==> {
            ||| spells(split.1, "mp4"@)
            ||| spells(split.1, "mkv"@)
            ||| spells(split.1, "mov"@)
            ||| spells(split.1, "avi"@)
            ||| spells(split.1, "webm"@)
        },
{
    let front = extension_ends_the_path(path);
    let ending = extension_of(path)->0;
    extensions_by_name(ending);
    (front, ending)
}

/// No path names both an image and a video.
pub proof fn no_image_is_a_video(path: Seq<char>)
    ensures
        !(names_image(path) && names_video(path)),
{
    reveal_strlit("jpg");
    reveal_strlit("jpeg");
    reveal_strlit("png");
    reveal_strlit("bmp");
    reveal_strlit("webp");
    reveal_strlit("mp4");
    reveal_strlit("mkv");
    reveal_strlit("mov");
    reveal_strlit("avi");
    reveal_strlit("webm");
    if names_image(path) && names_video(path) {
        let e = low_extension(path)->0;
        assert(e.len() == 3 || e.len() == 4);
        assert(e[0] == 'j' || e[0] == 'p' || e[0] == 'b' || e[0] == 'w');
        assert(e[0] == 'm' || e[0] == 'a' || e[0] == 'w');
        assert(e[3] == 'p' && e[3] == 'm');
    }
}

/// Files are processed as images exactly where all three are images and as a video exactly where an
/// image goes into a video that is written as a video; everything else is refused.
pub proof fn workflow_is_that_of_the_files(source: Seq<char>, target: Seq<char>, output: Seq<char>)
    ensures
        classified(source, target, output, Ok(FileWorkflow::Image)) <==> names_image(source)
            && names_image(target) && names_image(output),
        classified(source, target, output, Ok(FileWorkflow::Video)) <==> names_image(source)
            && names_video(target) && names_video(output),
        forall|e: HeadlessError| #[trigger]
            classified(source, target, output, Err(e)) ==> !(names_image(source) && (names_image(
                target,
            ) && names_image(output) || names_video(target) && names_video(output))),
{
    no_image_is_a_video(target);
}

/// A plan runs on the provider that was named, at the resolution that was named, with as many
/// threads as were asked for where there are one to thirty-two of them.
pub proof fn plan_does_what_was_asked(plan: HeadlessPlan, options: HeadlessOptions)
    requires
        plans(plan, options),
    ensures
        plan.provider is Cuda && options.execution_provider@ == "cuda"@ || plan.provider is TensorRT
            && options.execution_provider@ == "tensorrt"@,
        plan.params.dim is Dim1 <==> options.swap_resolution == 128,
        plan.params.dim is Dim2 <==> options.swap_resolution == 256,
        plan.params.dim is Dim3 <==> options.swap_resolution == 384,
        plan.params.dim is Dim4 <==> options.swap_resolution == 512,
        1 <= plan.worker_threads <= 32,
        1 <= options.worker_threads <= 32 ==> plan.worker_threads == options.worker_threads,
        plan.workflow is Image ==> names_image(options.target_path@) && names_image(
            options.output_path@,
        ),
        plan.workflow is Video ==> names_video(options.target_path@) && names_video(
            options.output_path@,
        ),
        names_image(options.source_path@),
        plan.source_path@ == options.source_path@ && plan.target_path@ == options.target_path@
            && plan.output_path@ == options.output_path@,
        plan.device_id == options.device_id && plan.predecode == options.predecode,
        plan.params.detection.score == options.face_detector_score,
        plan.params.detection.max_faces == options.max_faces,
        plan.params.swapper.model is Inswapper128 && !plan.params.landmark.enabled
            && !plan.params.enhancer.enabled && !plan.params.restoration.first.enabled
            && !plan.params.restoration.second.enabled,
{
    workflow_is_that_of_the_files(
        options.source_path@,
        options.target_path@,
        options.output_path@,
    );
}

/// Nothing is refused where the files fit together, the provider is one of the two and the
/// resolution is one to four times 128.
pub proof fn fitting_files_are_planned(options: HeadlessOptions, tiles: int)
    requires
        names_image(options.source_path@),
        names_image(options.target_path@) && names_image(options.output_path@) || names_video(
            options.target_path@,
        ) && names_video(options.output_path@),
        options.execution_provider@ == "cuda"@ || options.execution_provider@ == "tensorrt"@,
        1 <= tiles <= 4,
        options.swap_resolution == 128 * tiles,
    ensures
        forall|e: HeadlessError| !#[trigger] plan_refused(options, e),
{
    workflow_is_that_of_the_files(
        options.source_path@,
        options.target_path@,
        options.output_path@,
    );
    assert forall|e: HeadlessError| !#[trigger] plan_refused(options, e) by {
        assert(!classified(
            options.source_path@,
            options.target_path@,
            options.output_path@,
            Err(e),
        ));
    }
}

/// Times that are zero are left out of the median and no others.
pub proof fn only_zeros_are_left_out(values: Seq<u64>, x: u64)
    ensures
        positive(values).contains(x) <==> x > 0 && values.contains(x),
        positive(values).len() <= values.len(),
    decreases values.len(),
{
    if values.len() > 0 {
        let front = values.drop_last();
        only_zeros_are_left_out(front, x);
        let before = positive(front);
        let all = positive(values);
        if before.contains(x) {
            let i = choose|i: int| 0 <= i < before.len() && before[i] == x;
            assert(all[i] == x);
        }
        if all.contains(x) && !before.contains(x) {
            let i = choose|i: int| 0 <= i < all.len() && all[i] == x;
            assert(i < before.len() ==> before[i] == x);
            assert(values[values.len() - 1] == x);
        }
        if front.contains(x) {
            let i = choose|i: int| 0 <= i < front.len() && front[i] == x;
            assert(values[i] == x);
        }
        if values.contains(x) && !front.contains(x) {
            let i = choose|i: int| 0 <= i < values.len() && values[i] == x;
            assert(i < front.len() ==> front[i] == x);
            if x > 0 {
                assert(all[before.len() as int] == x);
            }
        }
    }
}

/// The middle of times is made of times that were measured, the first not above the second; it is
/// one time where their number is odd.
pub proof fn middle_is_among_the_times(values: Seq<u64>, a: u64, b: u64)
    requires
        middle_values(values, a, b),
    ensures
        values.contains(a) && values.contains(b),
        a <= b,
        values.len() % 2 == 1 ==> a == b,
        values.len() == 2 ==> (a == values[0] && b == values[1]) || (a == values[1] && b
            == values[0]),
{
    broadcast use vstd::seq_lib::group_to_multiset_ensures;

    let sorted = choose|sorted: Seq<u64>|
        {
            &&& sorted.to_multiset() == values.to_multiset()
            &&& #[trigger] in_order(sorted)
            &&& sorted.len() > 0
            &&& b == sorted[sorted.len() as int / 2]
            &&& a == if sorted.len() % 2 == 0 {
                sorted[sorted.len() as int / 2 - 1]
            } else {
                b
            }
        };
    assert(sorted.to_multiset().len() == sorted.len());
    assert(values.to_multiset().len() == values.len());
    assert(sorted.contains(a) && sorted.contains(b));
    assert(sorted.to_multiset().count(a) > 0 && sorted.to_multiset().count(b) > 0);
    if values.len() == 2 {
        assert(values.contains(values[0]) && values.contains(values[1]));
        assert(values.to_multiset().count(values[0]) > 0 && values.to_multiset().count(values[1])
            > 0);
        assert(sorted.contains(values[0]) && sorted.contains(values[1]));
    }
}

} // verus!
