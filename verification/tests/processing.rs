use noperson::backend::{
    device_capabilities, engine_cache_path, execution_providers, BuildFeatures,
    CompatibilityError, CompiledCapabilities, ComputeBackendKind, DeviceArchitecture,
    DeviceAttributes, InferenceProvider, KernelArtifactDescriptor, KernelTarget, LaunchGeometry, SubgroupRequirement, SubgroupWidth, Toolchain,
};
use noperson::config::{EnhancerModel, ExecutionProvider, SwapDim};
use noperson::engine::builder::BuildPhase;
use noperson::engine::digest::digest_of;
use noperson::gpu::{
    blur_launch, decode_color, effective_matrix, encode_color, far_borders, morphology,
    buffer_is_writable, pasted_pixels, surface_is_readable, surface_is_writable, tile_numbers, BlurLaunch,
    ColorMatrix, ColorRange, Morphology, ProfilingState,
};
use noperson::headless::{
    build_plan, classify_workflow, engine_request, extension, is_image, is_video, median_interval,
    output_directory, validate_files, video_completion_message, BarStyle, FileFacts, FileWorkflow,
    HeadlessError, HeadlessOptions, VideoProgress,
};
use noperson::kernel_manifest::{
    fatbin_path, fatbins_are_tracked, inventory_is_complete, lines, read_blake3_manifest,
    source_path, verify_manifest_file, ManifestError, ManifestRecordError,
};
use noperson::npp::{check_npp, plane_layout, NppError};
use noperson::number::Single;
use noperson::pictures::color_preview_from_rgb;
use noperson::recording::{
    plan_recording, ArchiveError, GpuFrameArchive, PendingSurfaces, PixelFormat, RecordCodec,
    RecordError, RecordSession, RecordSource, StreamTiming,
};
use noperson::runtime::{
    after_build_wait, job_notices, BuildWait, EditorJobPhase, EditorJobState, EditorRuntimeError,
    JobNotice, PredecodeMode,
};
use noperson::session::events::AnalyzedIdentity;
use noperson::worker::{
    build_is_pending, playback_rate, preview_changes, remaining_time, AnalysisRun, AnalysisStep,
    FrameRun, FrameStep,
};
use std::collections::BTreeMap;

fn single(value: f32) -> Single {
    Single { bits: value.to_bits() }
}

fn options() -> HeadlessOptions {
    HeadlessOptions {
        source_path: "face.png".to_owned(),
        target_path: "clip.mp4".to_owned(),
        output_path: "out/result.mp4".to_owned(),
        execution_provider: "cuda".to_owned(),
        device_id: 0,
        worker_threads: 4,
        predecode: PredecodeMode::Off,
        swap_resolution: 256,
        face_detector_score: single(0.5),
        max_faces: 3,
    }
}

#[test]
fn a_workflow_follows_the_files() {
    assert_eq!(classify_workflow("a.png", "b.jpg", "c.png"), Ok(FileWorkflow::Image));
    assert_eq!(classify_workflow("a.png", "b.mp4", "c.mkv"), Ok(FileWorkflow::Video));
    assert_eq!(
        classify_workflow("a.mp4", "b.mp4", "c.mkv"),
        Err(HeadlessError::SourceMustBeImage)
    );
    assert_eq!(
        classify_workflow("a.png", "b.png", "c.mkv"),
        Err(HeadlessError::ImageOutputRequired)
    );
    assert_eq!(
        classify_workflow("a.png", "b.mp4", "c.png"),
        Err(HeadlessError::VideoOutputRequired)
    );
    assert_eq!(
        classify_workflow("a.png", "b.txt", "c.png"),
        Err(HeadlessError::UnsupportedTarget("b.txt".to_owned()))
    );
    assert_eq!(extension("a/B.JPEG").as_deref(), Some("jpeg"));
    assert!(is_image("x.WEBP"));
    assert!(is_video("x.mov"));
    assert!(!is_video("x.png"));
}

#[test]
fn a_plan_takes_its_options() {
    let plan = build_plan(&options()).expect("a plan");
    assert_eq!(plan.workflow, FileWorkflow::Video);
    assert_eq!(plan.provider, ExecutionProvider::Cuda);
    assert_eq!(plan.params.dim, SwapDim::Dim2);
    assert_eq!(plan.params.detection.max_faces, 3);
    assert_eq!(plan.params.detection.score, single(0.5));
    assert_eq!(output_directory(&plan).as_deref(), Some("out"));
    let mut wrong = options();
    wrong.execution_provider = "vulkan".to_owned();
    assert_eq!(
        build_plan(&wrong).err(),
        Some(HeadlessError::UnsupportedProvider("vulkan".to_owned()))
    );
    let mut wrong = options();
    wrong.swap_resolution = 100;
    assert_eq!(build_plan(&wrong).err(), Some(HeadlessError::UnsupportedResolution(100)));
}

#[test]
fn files_must_exist_and_stay_apart() {
    let plan = build_plan(&options()).expect("a plan");
    let facts = |source: Option<&str>, target: Option<&str>, output: Option<&str>| FileFacts {
        source: source.map(str::to_owned),
        target: target.map(str::to_owned),
        output: output.map(str::to_owned),
    };
    assert_eq!(validate_files(&plan, &facts(Some("/a"), Some("/b"), None)), Ok(()));
    assert_eq!(
        validate_files(&plan, &facts(None, Some("/b"), None)),
        Err(HeadlessError::SourceNotFound("face.png".to_owned()))
    );
    assert_eq!(
        validate_files(&plan, &facts(Some("/a"), None, None)),
        Err(HeadlessError::TargetNotFound("clip.mp4".to_owned()))
    );
    assert_eq!(
        validate_files(&plan, &facts(Some("/a"), Some("/b"), Some("/b"))),
        Err(HeadlessError::OutputIsInput)
    );
}

#[test]
fn median_frame_rate_uses_completed_frame_intervals() {
    let intervals = vec![10_000_000, 100_000_000, 10_000_000];
    let (low, high) = median_interval(&intervals).expect("intervals");
    let seconds = (low as f64 / 1e9 + high as f64 / 1e9) / 2.0;

    assert_eq!(Some(1.0 / seconds), Some(100.0));
    assert_eq!(median_interval(&vec![0, 0]), None);
    assert_eq!(median_interval(&vec![4, 0, 8, 2, 6]), Some((4, 6)));
}

#[test]
fn completion_message_reports_median_instead_of_wall_clock_rate() {
    let rate = format!("{:.2}", 89.734);
    assert_eq!(
        video_completion_message("out.mp4", Some(&rate)),
        "Saved out.mp4 \u{b7} median 89.73 FPS"
    );
    assert_eq!(video_completion_message("out.mp4", None), "Saved out.mp4");
}

#[test]
fn a_bar_follows_the_frames() {
    let mut progress = VideoProgress::new(None);
    assert_eq!(progress.style, BarStyle::Waiting);
    progress.processed(1, Some(10), 1_000);
    progress.processed(2, Some(10), 3_500);
    assert_eq!(progress.style, BarStyle::Running);
    assert_eq!(progress.length, Some(10));
    assert_eq!(progress.position, 2);
    assert_eq!(progress.intervals, vec![2_500]);
}

#[test]
fn requests_of_a_plan_hold_one_identity() {
    let plan = build_plan(&options()).expect("a plan");
    let spec = noperson::engine::spec::EngineSpec {
        provider: plan.provider,
        device_id: 0,
        detector: noperson::config::DetectorModel::YoloFace8n,
        identity_blake3: "a".repeat(64),
        assignments: Vec::new(),
        models: noperson::engine::models::ModelSet::new(),
        params: noperson::config::FaceSwapParams::default(),
    };
    let request = engine_request(&plan, spec);
    assert_eq!(request.worker_threads, 4);
    assert_eq!(request.predecode, PredecodeMode::Off);
}

#[test]
fn markers_take_force_at_their_frames() {
    let markers = BTreeMap::from([(3u64, "three"), (5, "five")]);
    let (mut run, first) = FrameRun::begin("base", markers, 3);
    assert_eq!(first, "three");
    assert_eq!(run.next(true, false), FrameStep::Process);
    assert_eq!(run.frame_done(), 4);
    assert_eq!(run.next(true, false), FrameStep::Process);
    assert_eq!(run.frame_done(), 5);
    assert_eq!(run.next(true, false), FrameStep::Configure("five"));
    assert_eq!(run.next(true, false), FrameStep::Process);
    assert_eq!(run.next(true, true), FrameStep::Cancelled);
    assert_eq!(run.next(false, false), FrameStep::End);
}

#[test]
fn playback_keeps_its_rate() {
    assert_eq!(playback_rate(None, single(30.0)), single(30.0));
    assert_eq!(playback_rate(Some(single(12.0)), single(30.0)), single(12.0));
    assert_eq!(remaining_time(40, 15), Some(25));
    assert_eq!(remaining_time(40, 60), None);
    assert!(build_is_pending(BuildPhase::Building));
    assert!(build_is_pending(BuildPhase::Ready));
    assert!(!build_is_pending(BuildPhase::Idle));
    assert_eq!(preview_changes(None, None, (4, 4)), (true, true));
    assert_eq!(preview_changes(Some((4, 4)), Some((4, 4)), (4, 4)), (false, false));
}

#[test]
fn jobs_follow_one_another() {
    let mut job = EditorJobState::default();
    assert_eq!(job.begin(EditorJobPhase::Recording), Ok(()));
    assert_eq!(
        job.begin(EditorJobPhase::Analyzing),
        Err(EditorRuntimeError::Busy(EditorJobPhase::Recording))
    );
    assert_eq!(job.cancel(), Ok(()));
    assert_eq!(job.phase(), EditorJobPhase::Cancelling);
    job.settle();
    assert_eq!(job.cancel(), Err(EditorRuntimeError::NotRunning));
    job.fail();
    assert_eq!(job.phase(), EditorJobPhase::Failed);
    job.observe(EditorJobPhase::Building);
    assert_eq!(job.phase().label(), EditorJobPhase::Building.label());
    assert_eq!(after_build_wait(BuildPhase::Ready, false), BuildWait::Activate);
    assert_eq!(after_build_wait(BuildPhase::Failed, false), BuildWait::Failed);
    assert_eq!(after_build_wait(BuildPhase::Building, true), BuildWait::TimedOut);
    assert_eq!(after_build_wait(BuildPhase::Building, false), BuildWait::KeepWaiting);
    assert_eq!(job_notices(Ok(())), vec![JobNotice::Phase(EditorJobPhase::Idle)]);
    assert!(job_notices(Err("x".to_owned())).contains(&JobNotice::Failed("x".to_owned())));
}

fn timing() -> StreamTiming {
    StreamTiming { time_base_num: 1, time_base_den: 15360, frame_rate_num: 30, frame_rate_den: 1 }
}

#[test]
fn a_recording_is_planned_by_its_source() {
    let source = RecordSource {
        width: 1920,
        height: 1080,
        bit_depth: 10,
        frame_count: Some(100),
        timing: timing(),
    };
    let plan = plan_recording(source, 1920, 1080, PredecodeMode::Off, 0).expect("a plan");
    assert_eq!(plan.pixel_format, PixelFormat::P010);
    assert_eq!(plan.codec, RecordCodec::Hevc);
    assert_eq!(plan.frame_duration, 512);
    assert!(!plan.predecode);
    assert!(matches!(
        plan_recording(source, 1919, 1080, PredecodeMode::Off, 0),
        Err(RecordError::OddDimensions { width: 1919, height: 1080 })
    ));
    assert!(matches!(
        plan_recording(source, 1920, 1080, PredecodeMode::Full, 1),
        Err(RecordError::Predecode(_))
    ));
}

#[test]
fn frames_of_an_archive_lie_apart() {
    assert_eq!(
        GpuFrameArchive::required_bytes(4, 2, PixelFormat::Nv12, 3).expect("a size"),
        36
    );
    let archive = GpuFrameArchive::new(4, 2, PixelFormat::Nv12, 3).expect("an archive");
    assert_eq!(archive.frame_offset(2), Ok(24));
    assert_eq!(archive.frame_offset(3), Err(ArchiveError::OutOfBounds));
    let planes = archive.place_frame(1, PixelFormat::Nv12).expect("a frame");
    assert_eq!((planes.luma_offset, planes.luma_rows), (12, 2));
    assert_eq!((planes.chroma_offset, planes.chroma_rows), (20, 1));
    assert_eq!(archive.place_frame(1, PixelFormat::P010), Err(ArchiveError::FormatChanged));
}

#[test]
fn recorded_frames_never_go_back_in_time() {
    let mut session = RecordSession::new(timing());
    let first = session.next_frame(0);
    let second = session.next_frame(0);
    assert_eq!(first.surface, 0);
    assert_eq!(second.surface, 1);
    assert!(second.pts > first.pts);
    assert_eq!(session.index(), 2);
}

#[test]
fn surfaces_wait_until_they_are_done() {
    let mut pending = PendingSurfaces::new();
    for picture in 0..3 {
        pending.push(picture);
    }
    assert_eq!(pending.len(), 3);
    assert_eq!(pending.drop_completed(&vec![true, false, true]), 1);
    assert_eq!(pending.len(), 2);
    let release = pending.make_room(2);
    assert_eq!(release.reused, Some(1));
}

fn device() -> noperson::backend::DeviceCapabilities {
    device_capabilities(DeviceAttributes {
        major: 8,
        minor: 6,
        warp_size: 32,
        max_threads: 1024,
        max_block: (1024, 1024, 64),
        shared_memory: 49152,
        total_memory: 1 << 33,
    })
    .expect("a device")
}

fn kernel(minimum_sm: u16) -> KernelArtifactDescriptor {
    KernelArtifactDescriptor {
        name: "resize",
        backend: ComputeBackendKind::Cuda,
        toolchain: Toolchain::Cuda { major: 12, minor: 8 },
        target: KernelTarget::NvidiaFatbin { minimum_sm },
        subgroup: SubgroupRequirement::Exact(SubgroupWidth::wave32()),
    }
}

#[test]
fn kernels_fit_their_device() {
    let device = device();
    assert_eq!(device.architecture, DeviceArchitecture::NvidiaSm(86));
    assert_eq!(device.native_subgroup_width.get(), 32);
    assert_eq!(kernel(75).validate_for(&device, LaunchGeometry::new([32, 8, 1], 0)), Ok(()));
    assert!(matches!(
        kernel(90).validate_for(&device, LaunchGeometry::new([32, 8, 1], 0)),
        Err(CompatibilityError::ArchitectureMismatch { .. })
    ));
    assert!(matches!(
        kernel(75).validate_for(&device, LaunchGeometry::new([1024, 2, 1], 0)),
        Err(CompatibilityError::WorkgroupTooLarge { .. })
    ));
    assert_eq!(
        kernel(75).validate_for(&device, LaunchGeometry::new([u32::MAX; 3], 0)),
        Err(CompatibilityError::WorkgroupTooLarge {
            requested: [u32::MAX; 3],
            maximum_threads: device.max_workgroup_size,
            maximum_dimensions: device.max_workgroup_dimensions,
        })
    );
    assert_eq!(
        kernel(75).validate_for(&device, LaunchGeometry::new([32, 1, 1], 49153)),
        Err(CompatibilityError::SharedMemoryTooLarge { requested: 49153, maximum: 49152 })
    );
    let mut wave64 = kernel(75);
    wave64.subgroup = SubgroupRequirement::Exact(SubgroupWidth::wave64());
    assert!(matches!(
        wave64.validate_for(&device, LaunchGeometry::new([32, 1, 1], 0)),
        Err(CompatibilityError::SubgroupMismatch { .. })
    ));
    let mut other = kernel(75);
    other.backend = ComputeBackendKind::Rocm;
    assert!(matches!(
        other.validate_for(&device, LaunchGeometry::new([32, 1, 1], 0)),
        Err(CompatibilityError::BackendMismatch { .. })
    ));
    assert!(device_capabilities(DeviceAttributes {
        major: 8,
        minor: 6,
        warp_size: 0,
        max_threads: 1,
        max_block: (1, 1, 1),
        shared_memory: 0,
        total_memory: 0,
    })
    .is_none());
}

#[test]
fn providers_belong_to_their_backends() {
    assert_eq!(InferenceProvider::TensorRt.compute_backend(), ComputeBackendKind::Cuda);
    assert_eq!(InferenceProvider::MiGraphX.compute_backend(), ComputeBackendKind::Rocm);
    let compiled = CompiledCapabilities::current();
    assert!(compiled.supports(InferenceProvider::Cuda));
    assert!(CompiledCapabilities::current().require(InferenceProvider::Rocm).is_err());
}

#[test]
fn colors_have_the_numbers_of_their_standard() {
    assert_eq!(effective_matrix(ColorMatrix::Unspecified, 1279), ColorMatrix::Bt601);
    assert_eq!(effective_matrix(ColorMatrix::Unspecified, 1280), ColorMatrix::Bt709);
    let limited = decode_color(ColorMatrix::Bt709, ColorRange::Unspecified, 10);
    assert_eq!(limited.y_offset, single(16.0));
    assert_eq!(limited.y_scale, single(255.0 / 219.0));
    assert_eq!(limited.red_v, single(1.793));
    assert_eq!(limited.green_u, single(-0.213));
    assert_eq!(limited.green_v, single(-0.533));
    assert_eq!(limited.blue_u, single(2.112));
    let full = decode_color(ColorMatrix::Bt2020NonConstantLuminance, ColorRange::Full, 10);
    assert_eq!(full.y_offset, single(0.0));
    assert_eq!(full.y_scale, single(1.0));
    assert_eq!(full.red_v, single(1.474_6));
    assert_eq!(full.green_u, single(-0.164_553));
    assert_eq!(full.green_v, single(-0.571_353));
    assert_eq!(full.blue_u, single(1.881_4));
    let written = encode_color(ColorMatrix::Bt601, ColorRange::Limited, 10);
    assert_eq!(
        written.y,
        (single(0.257), single(0.504), single(0.098), single(16.0))
    );
    assert_eq!(
        written.uv,
        (single(-0.148), single(-0.291), single(0.439), single(0.439))
    );
    assert_eq!(written.v, (single(-0.368), single(-0.071), single(128.0)));
    let other = encode_color(ColorMatrix::Bt2020NonConstantLuminance, ColorRange::Limited, 10);
    assert_eq!(
        other.y,
        (single(0.2256), single(0.5823), single(0.0509), single(16.0))
    );
    let full = encode_color(ColorMatrix::Bt601, ColorRange::Full, 10);
    assert_eq!(full.y, (single(0.299), single(0.587), single(0.114), single(0.0)));
    assert_eq!(
        full.uv,
        (single(-0.168_736), single(-0.331_264), single(0.5), single(0.5))
    );
    assert_eq!(full.v, (single(-0.418_688), single(-0.081_312), single(128.0)));
}

#[test]
fn launches_cover_their_pictures() {
    assert_eq!(blur_launch(64, 9, 1, 1), None);
    assert_eq!(
        blur_launch(65, 9, 5, 3),
        Some(BlurLaunch {
            grid: (3, 2, 3),
            row_shared_bytes: 36 * 8 * 4,
            column_shared_bytes: 32 * 12 * 4
        })
    );
    assert_eq!(morphology(-7), Morphology { passes: 7, grow: false, copy_back: true });
    assert_eq!(morphology(1000), Morphology { passes: 100, grow: true, copy_back: false });
    assert_eq!(tile_numbers(2, 128), Some(196608));
    assert_eq!(tile_numbers(u32::MAX, 2), None);
    assert_eq!(pasted_pixels(1, 2, 5, 4), 8);
    assert_eq!(far_borders(128, 10, 28), Some((118, 100)));
    assert_eq!(far_borders(10, 11, 0), None);
    assert!(surface_is_readable(1, 16, 16, 4, 192));
    assert!(!surface_is_readable(0, 16, 16, 4, 192));
    assert!(!surface_is_readable(1, 15, 16, 4, 192));
    assert!(!surface_is_readable(1, 16, 16, 4, 191));
    assert!(surface_is_writable(1, 32, (8, 8), 192, 16, 4, PixelFormat::P010));
    assert!(!surface_is_writable(1, 31, (8, 8), 192, 16, 4, PixelFormat::P010));
    assert!(!surface_is_writable(1, 32, (8, 8), 192, 15, 4, PixelFormat::Nv12));
    assert!(buffer_is_writable(96, 16, 4, PixelFormat::Nv12));
    assert!(!buffer_is_writable(95, 16, 4, PixelFormat::Nv12));
    assert!(buffer_is_writable(192, 16, 4, PixelFormat::P010));
    assert!(!buffer_is_writable(191, 16, 4, PixelFormat::P010));
    assert!(!buffer_is_writable(96, 15, 4, PixelFormat::Nv12));
    assert!(!buffer_is_writable(96, 16, 0, PixelFormat::Nv12));
}

#[test]
fn stages_are_reported_now_and_then() {
    let mut state = ProfilingState::new();
    assert!(state.marks(7));
    assert!(!state.marks(8));
    state.last_active_idx = 3;
    for _ in 0..29 {
        assert_eq!(state.tick(), None);
    }
    assert_eq!(state.tick(), Some(3));
}

#[test]
fn planes_lie_one_behind_the_other() {
    let layout = plane_layout(8, 4);
    assert_eq!((layout.first, layout.second, layout.third), (0, 32, 64));
    assert_eq!(layout.step, 32);
    assert_eq!(check_npp(0, "resize"), Ok(()));
    assert_eq!(
        check_npp(-5, "resize"),
        Err(NppError::Status { status: -5, op: "resize".to_owned() })
    );
}

const HEADER: &str = "# kernels\ncuda_release=12.8\nsass=sm75,sm80,sm86,sm89,sm90,sm100,sm120\n\
                      ptx=compute_75\nnvcc_version=12.8.93\n";

#[test]
fn a_manifest_records_digests_by_path() {
    let stems = vec!["resize".to_owned()];
    let source = source_path("resize");
    let fatbin = fatbin_path("resize");
    assert_eq!(source, "gpu_kernels/nvidia/resize.cu");
    assert_eq!(fatbin, "gpu_kernels/prebuilt/nvidia/cuda-12.8/resize.fatbin");
    let body = format!(
        "{HEADER}\r\n{}  {source}\r\n{}  {fatbin}",
        digest_of(b"source"),
        digest_of(b"binary")
    );
    let manifest = read_blake3_manifest(&body).expect("a manifest");
    assert_eq!(manifest.len(), 2);
    assert!(inventory_is_complete(&manifest, &stems));
    assert!(!inventory_is_complete(&manifest, &Vec::new()));
    assert!(fatbins_are_tracked(&vec![fatbin.clone()], &stems));
    assert!(!fatbins_are_tracked(&Vec::new(), &stems));
    assert_eq!(verify_manifest_file(&manifest, &source, b"source"), Ok(()));
    assert_eq!(
        verify_manifest_file(&manifest, &source, b"other"),
        Err(ManifestRecordError::Mismatch {
            expected: digest_of(b"source"),
            actual: digest_of(b"other")
        })
    );
    assert_eq!(verify_manifest_file(&manifest, "gone", b""), Err(ManifestRecordError::Missing));
}

fn manifest_error(body: &str) -> Option<ManifestError> {
    read_blake3_manifest(body).err()
}

#[test]
fn wrong_manifests_are_refused() {
    let digest = "a".repeat(64);
    assert_eq!(
        manifest_error("a=1\na=2\n"),
        Some(ManifestError::DuplicateKey("a".to_owned()))
    );
    assert_eq!(manifest_error("\n\nnothing\n"), Some(ManifestError::NotARecord { line: 3 }));
    assert_eq!(manifest_error("abc  path\n"), Some(ManifestError::InvalidDigest { line: 1 }));
    assert_eq!(
        manifest_error(&format!("{digest}  p\n{digest}  p\n")),
        Some(ManifestError::DuplicatePath("p".to_owned()))
    );
    assert_eq!(
        manifest_error("cuda_release=12.9\n"),
        Some(ManifestError::Mismatch("cuda_release".to_owned()))
    );
    let without = HEADER.replace("nvcc_version=12.8.93\n", "");
    assert_eq!(manifest_error(&without), Some(ManifestError::NoCompilerVersion));
    let other = HEADER.replace("12.8.93", "12.9");
    assert_eq!(manifest_error(&other), Some(ManifestError::WrongCompilerVersion));
}

#[test]
fn lines_end_as_the_system_splits_them() {
    for text in ["", "\n", "a", "a\n", "a\n\nb", "a\r\nb\r", "\r\n", "a\rb\n", "\n\n"] {
        let known: Vec<String> = text.lines().map(str::to_owned).collect();
        assert_eq!(lines(text), known, "{text:?}");
    }
}

fn scaled(side: u32, longest: u32, most: u32) -> u32 {
    let scale = most as f32 / longest as f32;
    (side as f32 * scale).round() as u32
}

#[test]
fn large_pictures_are_scaled_down() {
    let data: Vec<u8> = (0..24).collect();
    let same = color_preview_from_rgb(&data, 4, 2, 8, &scaled).expect("a picture");
    assert_eq!((same.width, same.height, same.data), (4, 2, data.clone()));
    let half = color_preview_from_rgb(&data, 4, 2, 2, &scaled).expect("a picture");
    assert_eq!((half.width, half.height), (2, 1));
    let source = image::RgbImage::from_raw(4, 2, data.clone()).expect("a picture");
    let expected =
        image::imageops::resize(&source, 2, 1, image::imageops::FilterType::Triangle);
    assert_eq!(half.data, expected.into_raw());
    assert!(half.data != data);
    assert!(color_preview_from_rgb(&data, 4, 3, 8, &scaled).is_none());
    let thin = color_preview_from_rgb(&vec![7; 300], 100, 1, 10, &scaled).expect("a picture");
    assert_eq!((thin.width, thin.height), (10, 1));
}

#[test]
fn enhancers_have_their_names_and_scales() {
    for model in [
        EnhancerModel::RealEsrganX2Plus,
        EnhancerModel::RealEsrganX4Plus,
        EnhancerModel::RealEsrGeneralX4V3,
        EnhancerModel::BsrganX2,
        EnhancerModel::BsrganX4,
        EnhancerModel::UltraSharpX4,
        EnhancerModel::UltraMixX4,
    ] {
        assert_eq!(EnhancerModel::from_crosswap_name(model.crosswap_name()), Ok(model));
        assert!(model.scale() == 2 || model.scale() == 4);
    }
    assert!(EnhancerModel::from_crosswap_name("Nothing").is_err());
    assert_eq!(SwapDim::Dim3.tiles_per_side(), 3);
    assert_eq!(SwapDim::from_resolution(512), Some(SwapDim::Dim4));
    assert_eq!(SwapDim::from_resolution(500), None);
}

#[test]
fn sessions_try_the_providers_of_the_build() {
    let plain = BuildFeatures { cuda: true, tensorrt: false, rocm: false, migraphx: false };
    let full = BuildFeatures { tensorrt: true, ..plain };
    let other = BuildFeatures { cuda: false, tensorrt: false, rocm: true, migraphx: true };
    assert_eq!(
        execution_providers(CompiledCapabilities::for_features(full), InferenceProvider::TensorRt),
        Ok(vec![InferenceProvider::TensorRt, InferenceProvider::Cuda])
    );
    assert_eq!(
        execution_providers(CompiledCapabilities::for_features(full), InferenceProvider::Cuda),
        Ok(vec![InferenceProvider::Cuda])
    );
    assert_eq!(
        execution_providers(CompiledCapabilities::for_features(other), InferenceProvider::Rocm),
        Ok(vec![])
    );
    let refused =
        execution_providers(CompiledCapabilities::for_features(plain), InferenceProvider::TensorRt)
            .unwrap_err();
    assert_eq!(refused.requested, InferenceProvider::TensorRt);
    assert_eq!(refused.compiled, CompiledCapabilities::for_features(plain));
}

#[test]
fn built_engines_have_a_directory_of_their_own() {
    assert_eq!(engine_cache_path("/home/a/.cache"), "/home/a/.cache/trt-cache-fp32-parity");
    assert_eq!(engine_cache_path("cache/"), "cache/trt-cache-fp32-parity");
}

fn found_face(width: u32) -> AnalyzedIdentity {
    AnalyzedIdentity {
        embedding: vec![single(1.0)],
        crop_width: width,
        crop_height: 1,
        crop_rgb: vec![0; 3],
    }
}

#[test]
fn an_analysis_takes_the_first_face_of_each_source() {
    let mut run = AnalysisRun::begin(vec![
        ("a".to_owned(), "a.png".to_owned()),
        ("b".to_owned(), "b.png".to_owned()),
    ]);
    assert_eq!(run.next(true), AnalysisStep::Cancelled);
    assert_eq!(run.next(false), AnalysisStep::Find("a.png".to_owned()));
    assert_eq!(run.took(vec![found_face(1), found_face(2)]), Ok(()));
    assert_eq!(run.next(false), AnalysisStep::Find("b.png".to_owned()));
    assert_eq!(run.took(vec![]), Err("no source face detected in b.png".to_owned()));
    assert_eq!(run.next(false), AnalysisStep::Find("b.png".to_owned()));
    assert_eq!(run.took(vec![found_face(3)]), Ok(()));
    assert_eq!(run.next(true), AnalysisStep::Done);
    let found = run.into_found();
    assert_eq!(found.len(), 2);
    assert_eq!(found.get("a"), Some(&found_face(1)));
    assert_eq!(found.get("b"), Some(&found_face(3)));
}

#[test]
fn providers_have_a_name() {
    assert_eq!(InferenceProvider::Cuda.display_name(), "Native CUDA");
    assert_eq!(InferenceProvider::TensorRt.display_name(), "TensorRT");
    assert_eq!(InferenceProvider::Rocm.display_name(), "ROCm");
    assert_eq!(InferenceProvider::MiGraphX.display_name(), "MIGraphX");
}
