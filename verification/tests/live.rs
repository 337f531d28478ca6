use noperson::config::{ExecutionProvider, SwapDim};
use noperson::live::{
    camera_size, frame_file, missing_models, photo_output, profiling_requested, provider_at,
    provider_index, required_models, resolution_at, resolution_index, App, CameraLoop, CameraStep,
    InputSource, OutputDest, Pill, StartStep, WorkerMsg, RATE_MILLIS, SILENCE_MILLIS, WARM_UP_PASSES,
};
use noperson::number::Single;
use noperson::preview::{PreviewGeometry, PreviewRingState, RealtimePreviewState, SlotState};

fn single(value: f32) -> Single {
    Single { bits: value.to_bits() }
}

#[test]
fn webcam_start_state_opens_realtime_preview_and_clears_metrics() {
    let mut app = App::new();
    app.fps = single(42.0);
    app.face_count = 3;

    app.begin_realtime_preview(&InputSource::Webcam(0));

    assert!(app.realtime_preview.is_open());
    assert_eq!(app.fps, single(0.0));
    assert_eq!(app.face_count, 0);
}

#[test]
fn photo_start_state_does_not_open_realtime_preview() {
    let mut app = App::new();

    app.begin_realtime_preview(&InputSource::Photo("face.jpg".to_owned()));

    assert!(!app.realtime_preview.is_open());
}

#[test]
fn manual_preview_close_does_not_stop_live_worker() {
    let mut app = App::new();
    app.running = true;
    app.realtime_preview.open();
    app.realtime_preview.mark_close_requested();

    app.apply_realtime_preview_close_request();

    assert!(!app.realtime_preview.is_open());
    assert!(app.running);
}

#[test]
fn worker_done_closes_realtime_preview() {
    let mut app = App::new();
    app.running = true;
    app.realtime_preview.open();

    assert!(app.handle_message(WorkerMsg::Done(None)));

    assert!(!app.realtime_preview.is_open());
    assert!(!app.running);
}

#[test]
fn gpu_profiling_is_explicitly_opt_in() {
    assert!(!profiling_requested(None));
    assert!(!profiling_requested(Some("0")));
    assert!(!profiling_requested(Some("false")));
    assert!(profiling_requested(Some("1")));
    assert!(profiling_requested(Some("TRUE")));
}

#[test]
fn a_session_starts_once_all_is_chosen() {
    let mut app = App::new();
    app.input_source = InputSource::Nothing;
    assert_eq!(app.start(), StartStep::Refused);
    assert_eq!(app.status, "Select a target face first");
    app.select_face("face.png".to_owned(), None);
    assert_eq!(app.start(), StartStep::Refused);
    assert_eq!(app.status, "Select an input source first");
    app.select_photo("photo.png".to_owned(), None);
    assert_eq!(app.start(), StartStep::FindModels);
    app.models_found(&vec!["swapper.onnx".to_owned()]);
    assert!(!app.models_loaded);
    app.models_found(&Vec::new());
    assert!(app.models_loaded);
    assert!(app.ready());
    assert_eq!(app.start(), StartStep::Ready);
    app.worker_started();
    assert!(app.running);
    assert_eq!(app.start(), StartStep::Refused);
    assert!(!app.stop());
    assert_eq!(app.status, "Stopped");
    app.gpu_failed("no driver");
    assert_eq!(app.status, "GPU init failed: no driver");
}

#[test]
fn what_the_worker_tells_is_shown() {
    let mut app = App::new();
    app.running = true;
    let _ = app.handle_message(WorkerMsg::Frame(640, 480));
    let _ = app.handle_message(WorkerMsg::Fps(single(24.0)));
    let _ = app.handle_message(WorkerMsg::FaceCount(2));
    let _ = app.handle_message(WorkerMsg::Status("Processing".to_owned()));
    assert_eq!(app.output_size, Some((640, 480)));
    assert_eq!(app.fps, single(24.0));
    assert_eq!(app.face_count, 2);
    assert_eq!(app.status, "Processing");
    assert!(!app.tells_error());
    let _ = app.handle_message(WorkerMsg::Done(Some("gone".to_owned())));
    assert_eq!(app.status, "Error: gone");
    assert!(app.tells_error());
    let _ = app.handle_message(WorkerMsg::Done(None));
    assert_eq!(app.status, "Error: gone");
}

#[test]
fn choices_have_their_places() {
    for provider in [ExecutionProvider::Cuda, ExecutionProvider::TensorRT] {
        assert_eq!(provider_at(provider_index(provider)), provider);
    }
    for dim in [SwapDim::Dim1, SwapDim::Dim2, SwapDim::Dim3, SwapDim::Dim4] {
        assert_eq!(resolution_at(resolution_index(dim)), dim);
    }
    let mut app = App::new();
    app.running = true;
    assert_eq!(app.pill(), Pill::Live);
    app.output_dest = OutputDest::VirtualCamera(10);
    assert!(app.output_label().contains("10"));
    assert_eq!(photo_output(""), "swapped_output.png");
    assert_eq!(photo_output("x.png"), "x.png");
    assert_eq!(camera_size(320, 900), (640, 900));
    assert_ne!(frame_file("out.png", 1), frame_file("out.png", 2));
}

#[test]
fn the_camera_warms_up_before_frames_count() {
    let mut camera = CameraLoop::new(0);
    assert_eq!(camera.next(true, true, 1), CameraStep::Stop);
    assert_eq!(camera.next(false, false, 1), CameraStep::Wait);
    assert_eq!(camera.next(false, false, SILENCE_MILLIS + 1), CameraStep::Fail);
    let mut camera = CameraLoop::new(0);
    assert_eq!(camera.next(false, true, 10), CameraStep::Process(WARM_UP_PASSES));
    camera.warmed_up(20);
    assert_eq!(camera.next(false, true, 30), CameraStep::Process(0));
    assert_eq!(camera.frame_done(40), None);
    let (frames, elapsed) = camera.frame_done(20 + RATE_MILLIS).expect("time to tell");
    assert_eq!((frames, elapsed), (2, RATE_MILLIS));
}

#[test]
fn a_ring_hands_out_the_newest_frame() {
    let mut ring = PreviewRingState::new(3);
    let first = ring.acquire().expect("a free slot");
    ring.publish(first);
    let second = ring.acquire().expect("a free slot");
    assert_ne!(first, second);
    ring.publish(second);
    assert_eq!(ring.take_latest(), Some(second));
    assert!(ring.is_free(first));
    assert_eq!(ring.slot_state(second), SlotState::Reading);
    let third = ring.acquire().expect("a free slot");
    assert_ne!(third, second);
    ring.discard_write(third);
    assert!(ring.is_free(third));
    assert_eq!(ring.take_latest(), None);
    ring.release(second);
    assert!(ring.is_free(second));
}

#[test]
fn rows_are_aligned_for_copies() {
    let geometry = PreviewGeometry::new(65, 3).expect("a size");
    assert_eq!(geometry.row_bytes(), 512);
    assert_eq!(geometry.buffer_size(), 1536);
    assert_eq!((geometry.width(), geometry.height()), (65, 3));
    assert!(PreviewGeometry::new(0, 3).is_none());
    assert!(PreviewGeometry::new(u32::MAX, 3).is_none());
    let mut window = RealtimePreviewState::default();
    window.open();
    window.mark_close_requested();
    assert!(window.apply_close_request());
    assert!(!window.is_open());
    assert!(!window.close());
}

#[test]
fn a_photo_and_the_face_trade_places() {
    let mut app = App::new();
    app.input_source = InputSource::Photo("target.jpg".to_owned());
    app.target_face_path = Some("face.jpg".to_owned());
    app.swap_paths();
    assert!(matches!(&app.input_source, InputSource::Photo(path) if path == "face.jpg"));
    assert_eq!(app.target_face_path.as_deref(), Some("target.jpg"));

    app.input_source = InputSource::Webcam(0);
    app.swap_paths();
    assert!(matches!(app.input_source, InputSource::Webcam(0)));
    assert_eq!(app.target_face_path.as_deref(), Some("target.jpg"));
}

#[test]
fn a_live_session_needs_three_models() {
    let names = |list: &[&str]| list.iter().map(|name| name.to_string()).collect::<Vec<_>>();
    assert_eq!(
        required_models("swap.onnx"),
        names(&["yoloface_8n.onnx", "w600k_r50.onnx", "swap.onnx"])
    );
    assert_eq!(
        missing_models(&names(&["other.onnx", "w600k_r50.onnx"]), "swap.onnx"),
        names(&["yoloface_8n.onnx", "swap.onnx"])
    );
    let all = required_models("swap.onnx");
    assert!(missing_models(&all, "swap.onnx").is_empty());

    let mut app = App::new();
    app.load_models(&names(&["w600k_r50.onnx"]), "swap.onnx");
    assert!(!app.models_loaded);
    assert_eq!(app.status, "Missing: yoloface_8n.onnx, swap.onnx");
    app.load_models(&all, "swap.onnx");
    assert!(app.models_loaded);
    assert_eq!(app.status, "Models ready");
}
