//! The live session: a camera or a photo into which one face is rendered.

use vstd::prelude::*;

use crate::config::fresh_params;
use crate::config::{ExecutionProvider, FaceSwapParams, SwapDim};
use crate::faces::{optional_text, texts};
use crate::number::Single;
use crate::paths::{file_name, file_stem};
use crate::paths::{file_name_of, stem_of};
use crate::preview::provider_name;
use crate::preview::{provider_label, RealtimePreviewState};
use crate::text::{lowered, numeral};
use crate::text::{chars_of, decimal, join2, join3, same_text, to_lowered};

verus! {

/// Where frames come from.
#[derive(Debug, PartialEq, Eq)]
pub enum InputSource {
    Nothing,
    Webcam(usize),
    Photo(String),
}

/// Where frames go to.
#[derive(Debug, PartialEq, Eq)]
pub enum OutputDest {
    VirtualCamera(u32),
    File(String),
}

/// Where frames come from, its path as a sequence of characters.
pub ghost enum Input {
    Nothing,
    Webcam(usize),
    Photo(Seq<char>),
}

/// Where frames go to, its path as a sequence of characters.
pub ghost enum Output {
    VirtualCamera(u32),
    File(Seq<char>),
}

impl View for InputSource {
    type V = Input;

    open spec fn view(&self) -> Input {
        match self {
            InputSource::Nothing => Input::Nothing,
            InputSource::Webcam(index) => Input::Webcam(*index),
            InputSource::Photo(path) => Input::Photo(path@),
        }
    }
}

impl View for OutputDest {
    type V = Output;

    open spec fn view(&self) -> Output {
        match self {
            OutputDest::VirtualCamera(device) => Output::VirtualCamera(*device),
            OutputDest::File(path) => Output::File(path@),
        }
    }
}

/// The virtual camera that frames go to at first.
pub const VIRTUAL_CAMERA: u32 = 10;

/// A report of the worker. Pictures do not pass through here.
#[derive(Debug, PartialEq, Eq)]
pub enum WorkerMsg {
    /// A frame of this size was processed.
    Frame(u32, u32),
    Status(String),
    Fps(Single),
    FaceCount(usize),
    /// The worker ended, well or with an error.
    Done(Option<String>),
}

/// The state of a live session.
#[derive(Debug)]
pub struct App {
    pub input_source: InputSource,
    pub target_face_path: Option<String>,
    pub output_dest: OutputDest,
    pub output_size: Option<(u32, u32)>,
    pub provider: ExecutionProvider,
    pub running: bool,
    pub fps: Single,
    pub face_count: usize,
    pub status: String,
    pub models_loaded: bool,
    pub params: FaceSwapParams,
    pub realtime_preview: RealtimePreviewState,
}

/// The content of a live session.
#[verifier::ext_equal]
pub ghost struct Live {
    pub input: Input,
    pub face: Option<Seq<char>>,
    pub output: Output,
    pub size: Option<(u32, u32)>,
    pub provider: ExecutionProvider,
    pub running: bool,
    pub fps: Single,
    pub faces: usize,
    pub status: Seq<char>,
    pub models: bool,
    pub params: FaceSwapParams,
    pub shown: bool,
    pub closing: bool,
}

impl View for App {
    type V = Live;

    open spec fn view(&self) -> Live {
        Live {
            input: self.input_source@,
            face: optional_text(self.target_face_path),
            output: self.output_dest@,
            size: self.output_size,
            provider: self.provider,
            running: self.running,
            fps: self.fps,
            faces: self.face_count,
            status: self.status@,
            models: self.models_loaded,
            params: self.params,
            shown: self.realtime_preview.shown(),
            closing: self.realtime_preview.closing(),
        }
    }
}

/// What a start leads to.
#[derive(Debug, Clone, Copy, PartialEq, Eq, Structural)]
pub enum StartStep {
    /// Nothing is started.
    Refused,
    /// The models have to be looked for first.
    FindModels,
    /// The worker can be started.
    Ready,
}

/// What a start leads to.
pub open spec fn start_step(live: Live) -> StartStep {
    if live.running || live.face is None || live.input is Nothing {
        StartStep::Refused
    } else if !live.models {
        StartStep::FindModels
    } else {
        StartStep::Ready
    }
}

/// The session after a start was asked for.
pub open spec fn start_asked(live: Live) -> Live {
    if live.running {
        live
    } else if live.face is None {
        Live { status: "Select a target face first"@, ..live }
    } else if live.input is Nothing {
        Live { status: "Select an input source first"@, ..live }
    } else if !live.models {
        Live { status: "Loading models"@, ..live }
    } else {
        live
    }
}

/// Texts with commas between them.
pub open spec fn comma_list(names: Seq<Seq<char>>) -> Seq<char>
    decreases names.len(),
{
    if names.len() == 0 {
        Seq::empty()
    } else if names.len() == 1 {
        names[0]
    } else {
        comma_list(names.drop_last()) + ", "@ + names.last()
    }
}

/// Texts with commas between them.
fn list_names(names: &Vec<String>) -> (r: String)
    ensures
        r@ == comma_list(texts(names@)),
{
    if names.len() == 0 {
        return String::new();
    }
    let ghost all = texts(names@);
    let mut r = names[0].clone();
    let mut i: usize = 1;
    proof {
        assert(all.take(1)[0] == names@[0]@);
    }
    while i < names.len()
        invariant
            1 <= i <= names.len(),
            all == texts(names@),
            r@ == comma_list(all.take(i as int)),
        decreases names.len() - i,
    {
        proof {
            assert(all.take(i + 1).drop_last() =~= all.take(i as int));
            assert(all.take(i + 1).last() == names@[i as int]@);
        }
        r = join3(r.as_str(), ", ", names[i].as_str());
        i = i + 1;
    }
    proof {
        assert(all.take(names@.len() as int) =~= all);
    }
    r
}

/// The files of the models that a live session needs: the detector, the recognizer and the swapper.
pub open spec fn models_needed(swapper: Seq<char>) -> Seq<Seq<char>> {
    seq!["yoloface_8n.onnx"@, "w600k_r50.onnx"@, swapper]
}

/// Those of the models that a live session needs that were not found, in their order.
pub open spec fn models_lacking(found: Seq<Seq<char>>, swapper: Seq<char>) -> Seq<Seq<char>> {
    models_needed(swapper).filter(|name: Seq<char>| !found.contains(name))
}

/// The files of the models that a live session needs.
pub fn required_models(swapper: &str) -> (r: Vec<String>)
    ensures
        texts(r@) == models_needed(swapper@),
{
    let r: Vec<String> = vec![
        "yoloface_8n.onnx".to_owned(),
        "w600k_r50.onnx".to_owned(),
        swapper.to_owned(),
    ];
    proof {
        assert(texts(r@) =~= models_needed(swapper@));
    }
    r
}

fn is_among(names: &Vec<String>, name: &str) -> (r: bool)
    ensures
        r == texts(names@).contains(name@),
{
    let mut i: usize = 0;
    while i < names.len()
        invariant
            i <= names.len(),
            forall|j: int| 0 <= j < i ==> (#[trigger] names@[j])@ != name@,
        decreases names.len() - i,
    {
        if same_text(names[i].as_str(), name) {
            assert(texts(names@)[i as int] == name@);
            return true;
        }
        i = i + 1;
    }
    false
}

/// The models that a live session needs and that were not found.
pub fn missing_models(found: &Vec<String>, swapper: &str) -> (r: Vec<String>)
    ensures
        texts(r@) == models_lacking(texts(found@), swapper@),
{
    let needed: Vec<String> = required_models(swapper);
    let ghost all = models_needed(swapper@);
    let ghost lacks = |name: Seq<char>| !texts(found@).contains(name);
    let mut r: Vec<String> = Vec::new();
    let mut i: usize = 0;
    proof {
        reveal(Seq::filter);
        assert(all.take(0).filter(lacks) =~= Seq::<Seq<char>>::empty());
        assert(texts(r@) =~= Seq::<Seq<char>>::empty());
    }
    while i < needed.len()
        invariant
            i <= needed.len(),
            texts(needed@) == all,
            needed@.len() == all.len(),
            lacks == (|name: Seq<char>| !texts(found@).contains(name)),
            texts(r@) == all.take(i as int).filter(lacks),
        decreases needed.len() - i,
    {
        let ghost before = r@;
        proof {
            reveal(Seq::filter);
            assert(texts(needed@)[i as int] == needed@[i as int]@);
            assert(all.take(i + 1).drop_last() =~= all.take(i as int));
            assert(all.take(i + 1).last() == needed@[i as int]@);
        }
        if !is_among(found, needed[i].as_str()) {
            r.push(needed[i].clone());
            proof {
                assert(texts(r@) =~= texts(before).push(needed@[i as int]@));
            }
        }
        i = i + 1;
    }
    proof {
        assert(all.take(all.len() as int) =~= all);
    }
    r
}

/// The session after it was looked for models, of which these are missing.
pub open spec fn models_told(live: Live, missing: Seq<Seq<char>>) -> Live {
    if missing.len() == 0 {
        Live { models: true, status: "Models ready"@, ..live }
    } else {
        Live { status: "Missing: "@ + comma_list(missing), ..live }
    }
}

/// The session after the worker was started. A camera is shown in a window of its own.
pub open spec fn started(live: Live) -> Live {
    begun(Live { running: true, status: "Running"@, ..live }, live.input)
}

/// The session as the window of a camera is opened.
pub open spec fn begun(live: Live, input: Input) -> Live {
    if input is Webcam {
        Live {
            fps: Single { bits: 0 },
            faces: 0,
            size: None,
            shown: true,
            closing: false,
            ..live
        }
    } else {
        live
    }
}

/// The session whose window is closed.
pub open spec fn closed_window(live: Live) -> Live {
    Live { shown: false, closing: false, ..live }
}

/// `front` stands at the start of `s`.
pub open spec fn begins_with(s: Seq<char>, front: Seq<char>) -> bool {
    s.len() >= front.len() && s.take(front.len() as int) == front
}

/// What a report of the worker does.
pub open spec fn message_handled(live: Live, message: WorkerMsg) -> Live {
    match message {
        WorkerMsg::Frame(width, height) => Live { size: Some((width, height)), ..live },
        WorkerMsg::Status(status) => Live { status: status@, ..live },
        WorkerMsg::Fps(fps) => Live { fps, ..live },
        WorkerMsg::FaceCount(faces) => Live { faces, ..live },
        WorkerMsg::Done(error) => {
            let ended = closed_window(Live { running: false, ..live });
            match error {
                Some(reason) => Live { status: "Error: "@ + reason@, ..ended },
                None => if begins_with(live.status, "Error"@) {
                    ended
                } else {
                    Live { status: "Done"@, ..ended }
                },
            }
        },
    }
}

/// A face and an input were chosen.
pub open spec fn is_ready(live: Live) -> bool {
    live.face is Some && !(live.input is Nothing)
}

/// Whether `front` stands at the start of `s`.
fn starts_with(s: &str, front: &str) -> (r: bool)
    ensures
        r == begins_with(s@, front@),
{
    let text: Vec<char> = chars_of(s);
    let wanted: Vec<char> = chars_of(front);
    if text.len() < wanted.len() {
        return false;
    }
    let mut i: usize = 0;
    while i < wanted.len()
        invariant
            i <= wanted@.len() <= text@.len(),
            text@ == s@,
            wanted@ == front@,
            forall|j: int| 0 <= j < i ==> text@[j] == #[trigger] wanted@[j],
        decreases wanted.len() - i,
    {
        if text[i] != wanted[i] {
            proof {
                assert(s@.take(front@.len() as int)[i as int] != front@[i as int]);
            }
            return false;
        }
        i = i + 1;
    }
    proof {
        assert(s@.take(front@.len() as int) =~= front@);
    }
    true
}

/// What the header tells of the session.
#[derive(Debug, Clone, Copy, PartialEq, Eq, Structural)]
pub enum Pill {
    /// Frames are processed; their rate is shown.
    Live,
    Ready,
    NativeCuda,
    TensorRt,
}

/// What the header tells of the session.
pub open spec fn pill_of(live: Live) -> Pill {
    if live.running {
        Pill::Live
    } else if live.models {
        Pill::Ready
    } else {
        match live.provider {
            ExecutionProvider::Cuda => Pill::NativeCuda,
            ExecutionProvider::TensorRT => Pill::TensorRt,
        }
    }
}

impl Pill {
    /// What stands in the header, where no rate is shown.
    pub fn label(self) -> (r: &'static str)
        ensures
            r@ == match self {
                Pill::Live => "LIVE"@,
                Pill::Ready => "READY"@,
                Pill::NativeCuda => "NATIVE CUDA · LOCAL"@,
                Pill::TensorRt => "TENSORRT · LOCAL"@,
            },
    {
        match self {
            Pill::Live => "LIVE",
            Pill::Ready => "READY",
            Pill::NativeCuda => "NATIVE CUDA · LOCAL",
            Pill::TensorRt => "TENSORRT · LOCAL",
        }
    }
}

/// The place of a provider among the buttons.
pub fn provider_index(provider: ExecutionProvider) -> (r: usize)
    ensures
        r == match provider {
            ExecutionProvider::Cuda => 0int,
            ExecutionProvider::TensorRT => 1int,
        },
{
    match provider {
        ExecutionProvider::Cuda => 0,
        ExecutionProvider::TensorRT => 1,
    }
}

/// The provider at a place among the buttons.
pub fn provider_at(index: usize) -> (r: ExecutionProvider)
    ensures
        r == if index == 0 {
            ExecutionProvider::Cuda
        } else {
            ExecutionProvider::TensorRT
        },
{
    if index == 0 {
        ExecutionProvider::Cuda
    } else {
        ExecutionProvider::TensorRT
    }
}

/// The place of a resolution among the buttons.
pub fn resolution_index(dim: SwapDim) -> (r: usize)
    ensures
        r + 1 == dim.side(),
{
    match dim {
        SwapDim::Dim1 => 0,
        SwapDim::Dim2 => 1,
        SwapDim::Dim3 => 2,
        SwapDim::Dim4 => 3,
    }
}

/// The resolution at a place among the buttons.
pub fn resolution_at(index: usize) -> (r: SwapDim)
    ensures
        r.side() == if index < 3 {
            index + 1
        } else {
            4
        },
{
    match index {
        0 => SwapDim::Dim1,
        1 => SwapDim::Dim2,
        2 => SwapDim::Dim3,
        _ => SwapDim::Dim4,
    }
}

impl App {
    /// A session before anything was chosen.
    pub fn new() -> (r: Self)
        ensures
            fresh_params(r@.params),
            r@ == (Live {
                input: Input::Nothing,
                face: None,
                output: Output::VirtualCamera(VIRTUAL_CAMERA),
                size: None,
                provider: ExecutionProvider::Cuda,
                running: false,
                fps: Single { bits: 0 },
                faces: 0,
                status: "Ready"@,
                models: false,
                params: r@.params,
                shown: false,
                closing: false,
            }),
    {
        App {
            input_source: InputSource::Nothing,
            target_face_path: None,
            output_dest: OutputDest::VirtualCamera(VIRTUAL_CAMERA),
            output_size: None,
            provider: ExecutionProvider::Cuda,
            running: false,
            fps: Single { bits: 0 },
            face_count: 0,
            status: "Ready".to_owned(),
            models_loaded: false,
            params: FaceSwapParams::default(),
            realtime_preview: RealtimePreviewState::default(),
        }
    }

    /// Takes the names of the models that are missing.
    pub fn models_found(&mut self, missing: &Vec<String>)
        ensures
            final(self)@ == models_told(old(self)@, texts(missing@)),
    {
        if missing.len() == 0 {
            self.models_loaded = true;
            self.status = "Models ready".to_owned();
        } else {
            let names = list_names(missing);
            self.status = join2("Missing: ", names.as_str());
        }
    }

    /// Takes the names of the models that were found.
    pub fn load_models(&mut self, found: &Vec<String>, swapper: &str)
        ensures
            final(self)@ == models_told(old(self)@, models_lacking(texts(found@), swapper@)),
    {
        let missing = missing_models(found, swapper);
        self.models_found(&missing);
    }

    /// Opens the window of a camera.
    pub fn begin_realtime_preview(&mut self, source: &InputSource)
        ensures
            final(self)@ == begun(old(self)@, source@),
    {
        if let InputSource::Webcam(_) = source {
            self.fps = Single { bits: 0 };
            self.face_count = 0;
            self.output_size = None;
            self.realtime_preview.open();
        }
    }

    /// Closes the window, if that was asked for. The worker goes on.
    pub fn apply_realtime_preview_close_request(&mut self)
        ensures
            final(self)@ == (Live {
                shown: old(self)@.shown && !old(self)@.closing,
                closing: false,
                ..old(self)@
            }),
    {
        let _ = self.realtime_preview.apply_close_request();
    }

    /// Asks for a start.
    pub fn start(&mut self) -> (r: StartStep)
        ensures
            r == start_step(old(self)@),
            final(self)@ == start_asked(old(self)@),
    {
        if self.running {
            return StartStep::Refused;
        }
        if self.target_face_path.is_none() {
            self.status = "Select a target face first".to_owned();
            return StartStep::Refused;
        }
        if let InputSource::Nothing = self.input_source {
            self.status = "Select an input source first".to_owned();
            return StartStep::Refused;
        }
        if !self.models_loaded {
            self.status = "Loading models".to_owned();
            return StartStep::FindModels;
        }
        StartStep::Ready
    }

    /// The device could not be opened.
    pub fn gpu_failed(&mut self, error: &str)
        ensures
            final(self)@ == (Live { status: "GPU init failed: "@ + error@, ..old(self)@ }),
    {
        self.status = join2("GPU init failed: ", error);
    }

    /// The worker was started.
    pub fn worker_started(&mut self)
        ensures
            final(self)@ == started(old(self)@),
    {
        self.running = true;
        self.status = "Running".to_owned();
        if let InputSource::Webcam(_) = self.input_source {
            self.fps = Single { bits: 0 };
            self.face_count = 0;
            self.output_size = None;
            self.realtime_preview.open();
        }
    }

    /// Stops the worker. Gives back whether the window has to be closed.
    pub fn stop(&mut self) -> (r: bool)
        ensures
            r == old(self)@.shown,
            final(self)@ == closed_window(
                Live { running: false, status: "Stopped"@, ..old(self)@ },
            ),
    {
        self.running = false;
        self.status = "Stopped".to_owned();
        self.realtime_preview.close()
    }

    /// Takes a report of the worker. Gives back whether the window has to be closed.
    pub fn handle_message(&mut self, message: WorkerMsg) -> (r: bool)
        ensures
            r == (message is Done && old(self)@.shown),
            final(self)@ == message_handled(old(self)@, message),
    {
        match message {
            WorkerMsg::Frame(width, height) => {
                self.output_size = Some((width, height));
                false
            },
            WorkerMsg::Status(status) => {
                self.status = status;
                false
            },
            WorkerMsg::Fps(fps) => {
                self.fps = fps;
                false
            },
            WorkerMsg::FaceCount(faces) => {
                self.face_count = faces;
                false
            },
            WorkerMsg::Done(error) => {
                self.running = false;
                let was_open = self.realtime_preview.close();
                match error {
                    Some(reason) => {
                        self.status = join2("Error: ", reason.as_str());
                    },
                    None => {
                        if !starts_with(self.status.as_str(), "Error") {
                            self.status = "Done".to_owned();
                        }
                    },
                }
                was_open
            },
        }
    }

    /// Chooses the face that is rendered. Where its picture cannot be read, that is told.
    pub fn select_face(&mut self, path: String, error: Option<String>)
        ensures
            final(self)@ == (Live {
                face: Some(path@),
                status: match error {
                    Some(reason) => "Error: "@ + reason@,
                    None => old(self)@.status,
                },
                ..old(self)@
            }),
    {
        self.target_face_path = Some(path);
        if let Some(reason) = error {
            self.status = join2("Error: ", reason.as_str());
        }
    }

    /// Chooses a photo, unless it cannot be read.
    pub fn select_photo(&mut self, path: String, error: Option<String>)
        ensures
            final(self)@ == match error {
                None => Live {
                    input: Input::Photo(path@),
                    output: Output::File(Seq::empty()),
                    ..old(self)@
                },
                Some(reason) => Live { status: "Error: "@ + reason@, ..old(self)@ },
            },
    {
        match error {
            None => {
                self.input_source = InputSource::Photo(path);
                self.output_dest = OutputDest::File(String::new());
            },
            Some(reason) => {
                self.status = join2("Error: ", reason.as_str());
            },
        }
    }

    /// Chooses the first camera.
    pub fn select_camera(&mut self)
        ensures
            final(self)@ == (Live {
                input: Input::Webcam(0),
                output: Output::VirtualCamera(VIRTUAL_CAMERA),
                ..old(self)@
            }),
    {
        self.input_source = InputSource::Webcam(0);
        self.output_dest = OutputDest::VirtualCamera(VIRTUAL_CAMERA);
    }

    /// Exchanges the photo and the face.
    pub fn swap_paths(&mut self)
        ensures
            final(self)@ == match (old(self)@.input, old(self)@.face) {
                (Input::Photo(photo), Some(face)) => Live {
                    input: Input::Photo(face),
                    face: Some(photo),
                    ..old(self)@
                },
                _ => old(self)@,
            },
    {
        let photo: Option<String> = match &self.input_source {
            InputSource::Photo(path) => Some(path.clone()),
            _ => None,
        };
        let face: Option<String> = match &self.target_face_path {
            Some(path) => Some(path.clone()),
            None => None,
        };
        if let (Some(photo), Some(face)) = (photo, face) {
            self.input_source = InputSource::Photo(face);
            self.target_face_path = Some(photo);
        }
    }

    /// Whether a face and an input were chosen.
    pub fn ready(&self) -> (r: bool)
        ensures
            r == is_ready(self@),
    {
        let chosen = match &self.input_source {
            InputSource::Nothing => false,
            _ => true,
        };
        self.target_face_path.is_some() && chosen
    }

    /// What the button says.
    pub fn action_label(&self) -> (r: &'static str)
        ensures
            r@ == if self@.running {
                "Stop live"@
            } else if self@.input is Photo {
                "Process photo"@
            } else {
                "Start live"@
            },
    {
        if self.running {
            return "Stop live";
        }
        match &self.input_source {
            InputSource::Photo(_) => "Process photo",
            _ => "Start live",
        }
    }

    /// Whether the button can be pressed.
    pub fn action_enabled(&self) -> (r: bool)
        ensures
            r == (self@.running || is_ready(self@)),
    {
        self.running || self.ready()
    }

    /// What the status line says.
    pub fn shown_status(&self) -> (r: String)
        ensures
            r@ == if is_ready(self@) {
                self@.status
            } else {
                "Select a source face and target"@
            },
    {
        if self.ready() {
            self.status.clone()
        } else {
            "Select a source face and target".to_owned()
        }
    }

    /// Whether the status tells of an error.
    pub fn tells_error(&self) -> (r: bool)
        ensures
            r == begins_with(self@.status, "Error"@),
    {
        starts_with(self.status.as_str(), "Error")
    }

    /// Where frames go to, for people.
    pub fn output_label(&self) -> (r: String)
        ensures
            r@ == match self@.output {
                Output::VirtualCamera(device) => "/dev/video"@ + numeral(device as nat),
                Output::File(_) => "swapped_output.png"@,
            },
    {
        match &self.output_dest {
            OutputDest::VirtualCamera(device) => {
                let number = decimal(*device as u64);
                join2("/dev/video", number.as_str())
            },
            OutputDest::File(_) => "swapped_output.png".to_owned(),
        }
    }

    /// Where frames come from, for people.
    pub fn input_label(&self) -> (r: String)
        ensures
            r@ == match self@.input {
                Input::Nothing => "No target selected"@,
                Input::Photo(path) => match file_name_of(path) {
                    Some(name) => name,
                    None => Seq::empty(),
                },
                Input::Webcam(index) => "Camera "@ + numeral(index as nat),
            },
    {
        match &self.input_source {
            InputSource::Nothing => "No target selected".to_owned(),
            InputSource::Photo(path) => match file_name(path.as_str()) {
                Some(name) => name,
                None => String::new(),
            },
            InputSource::Webcam(index) => {
                let number = decimal(*index as u64);
                join2("Camera ", number.as_str())
            },
        }
    }

    /// What the header tells of the session.
    pub fn pill(&self) -> (r: Pill)
        ensures
            r == pill_of(self@),
    {
        if self.running {
            Pill::Live
        } else if self.models_loaded {
            Pill::Ready
        } else {
            match self.provider {
                ExecutionProvider::Cuda => Pill::NativeCuda,
                ExecutionProvider::TensorRT => Pill::TensorRt,
            }
        }
    }

    /// What stands over the video: the rate, the provider and the number of faces.
    pub fn overlay_text(&self, rate: &str) -> (r: String)
        ensures
            r@ == "● "@ + rate@ + " FPS · "@ + provider_name(self@.provider) + " · "@ + numeral(
                self@.faces as nat,
            ) + (if self@.faces == 1 {
                " face"@
            } else {
                " faces"@
            }),
    {
        let front = join3("● ", rate, " FPS · ");
        let provider = join2(front.as_str(), provider_label(self.provider));
        let number = decimal(self.face_count as u64);
        let count = join3(provider.as_str(), " · ", number.as_str());
        if self.face_count == 1 {
            join2(count.as_str(), " face")
        } else {
            join2(count.as_str(), " faces")
        }
    }
}

/// A session that was closed by hand goes on.
pub proof fn closing_the_window_stops_nothing(live: Live)
    ensures
        (Live { shown: live.shown && !live.closing, closing: false, ..live }).running
            == live.running,
        live.closing ==> !(Live {
            shown: live.shown && !live.closing,
            closing: false,
            ..live
        }).shown,
{
}

/// A session that was started is not started again before it ended.
pub proof fn started_session_is_not_started_again(live: Live)
    requires
        start_step(live) == StartStep::Ready,
    ensures
        start_step(started(live)) == StartStep::Refused,
        start_asked(started(live)) == started(live),
{
}

/// The file that a processed photo goes to.
pub fn photo_output(path: &str) -> (r: String)
    ensures
        r@ == if path@.len() == 0 {
            "swapped_output.png"@
        } else {
            path@
        },
{
    if path.is_empty() {
        "swapped_output.png".to_owned()
    } else {
        path.to_owned()
    }
}

/// The size of the virtual camera for a picture.
pub fn camera_size(width: u32, height: u32) -> (r: (u32, u32))
    ensures
        r.0 == if width < 640 {
            640
        } else {
            width
        },
        r.1 == if height < 480 {
            480
        } else {
            height
        },
{
    (
        if width < 640 {
            640
        } else {
            width
        },
        if height < 480 {
            480
        } else {
            height
        },
    )
}

/// A number with at least four digits.
pub open spec fn four_digits(n: nat) -> Seq<char> {
    if n < 10 {
        "000"@ + numeral(n)
    } else if n < 100 {
        "00"@ + numeral(n)
    } else if n < 1000 {
        "0"@ + numeral(n)
    } else {
        numeral(n)
    }
}

/// The file that a frame goes to.
pub fn frame_file(path: &str, frame: u64) -> (r: String)
    ensures
        r@ == if path@.len() == 0 {
            "frame_"@ + four_digits(frame as nat) + ".png"@
        } else {
            (match stem_of(path@) {
                Some(stem) => stem,
                None => Seq::empty(),
            }) + "_"@ + numeral(frame as nat) + ".png"@
        },
{
    let number = decimal(frame);
    if path.is_empty() {
        let padded = if frame < 10 {
            join2("000", number.as_str())
        } else if frame < 100 {
            join2("00", number.as_str())
        } else if frame < 1000 {
            join2("0", number.as_str())
        } else {
            number
        };
        join3("frame_", padded.as_str(), ".png")
    } else {
        let stem = match file_stem(path) {
            Some(stem) => stem,
            None => String::new(),
        };
        let named = join3(stem.as_str(), "_", number.as_str());
        join2(named.as_str(), ".png")
    }
}

/// How long a camera may be silent, in milliseconds.
pub const SILENCE_MILLIS: u64 = 5000;

/// How long is waited for the next frame, in milliseconds.
pub const WAIT_MILLIS: u64 = 16;

/// How often the rate is measured, in milliseconds.
pub const RATE_MILLIS: u64 = 500;

/// How many passes are made over the first frame before it counts.
pub const WARM_UP_PASSES: u32 = 3;

/// What the loop over the frames of a camera does next.
#[derive(Debug, Clone, Copy, PartialEq, Eq, Structural)]
pub enum CameraStep {
    /// The loop ends.
    Stop,
    /// The camera was silent for too long.
    Fail,
    /// The loop waits for a frame.
    Wait,
    /// The frame is processed, after so many passes to warm up.
    Process(u32),
}

/// The loop over the frames of a camera. Times are in milliseconds.
#[derive(Debug, Clone, Copy, PartialEq, Eq, Structural)]
pub struct CameraLoop {
    pub warmed: bool,
    pub frames: u64,
    pub rate_since: u64,
    pub last_frame: u64,
}

/// The time that went by.
pub open spec fn since(now: u64, earlier: u64) -> u64 {
    if now < earlier {
        0
    } else {
        (now - earlier) as u64
    }
}

impl CameraLoop {
    /// A loop that begins at the time `now`.
    pub fn new(now: u64) -> (r: Self)
        ensures
            r == (CameraLoop { warmed: false, frames: 0, rate_since: now, last_frame: now }),
    {
        CameraLoop { warmed: false, frames: 0, rate_since: now, last_frame: now }
    }

    /// What is done next, where a frame came or none.
    pub fn next(&mut self, stopped: bool, frame: bool, now: u64) -> (r: CameraStep)
        ensures
            r == if stopped {
                CameraStep::Stop
            } else if !frame {
                if since(now, old(self).last_frame) < SILENCE_MILLIS {
                    CameraStep::Wait
                } else {
                    CameraStep::Fail
                }
            } else if old(self).warmed {
                CameraStep::Process(0)
            } else {
                CameraStep::Process(WARM_UP_PASSES)
            },
            *final(self) == if !stopped && frame {
                CameraLoop { last_frame: now, ..*old(self) }
            } else {
                *old(self)
            },
    {
        if stopped {
            return CameraStep::Stop;
        }
        if !frame {
            if now.saturating_sub(self.last_frame) < SILENCE_MILLIS {
                return CameraStep::Wait;
            }
            return CameraStep::Fail;
        }
        self.last_frame = now;
        if self.warmed {
            CameraStep::Process(0)
        } else {
            CameraStep::Process(WARM_UP_PASSES)
        }
    }

    /// The passes to warm up were made.
    pub fn warmed_up(&mut self, now: u64)
        ensures
            *final(self) == (CameraLoop {
                warmed: true,
                frames: 0,
                rate_since: now,
                ..*old(self)
            }),
    {
        self.warmed = true;
        self.rate_since = now;
        self.frames = 0;
    }

    /// A frame was processed. Gives back how many frames were processed in how many milliseconds,
    /// where it is time to measure the rate.
    pub fn frame_done(&mut self, now: u64) -> (r: Option<(u64, u64)>)
        requires
            old(self).frames < u64::MAX,
        ensures
            ({
                let count = (old(self).frames + 1) as u64;
                let time = since(now, old(self).rate_since);
                if time >= RATE_MILLIS {
                    &&& r == Some((count, time))
                    &&& *final(self) == (CameraLoop { frames: 0, rate_since: now, ..*old(self) })
                } else {
                    &&& r is None
                    &&& *final(self) == (CameraLoop { frames: count, ..*old(self) })
                }
            }),
    {
        self.frames = self.frames + 1;
        let time: u64 = now.saturating_sub(self.rate_since);
        if time >= RATE_MILLIS {
            let count: u64 = self.frames;
            self.frames = 0;
            self.rate_since = now;
            Some((count, time))
        } else {
            None
        }
    }
}

/// Whether the profiling of the device was asked for.
pub fn profiling_requested(value: Option<&str>) -> (r: bool)
    ensures
        r == match value {
            Some(text) => text@ == "1"@ || lowered(text@) == "true"@,
            None => false,
        },
{
    match value {
        Some(text) => {
            if same_text(text, "1") {
                return true;
            }
            let low = to_lowered(text);
            same_text(low.as_str(), "true")
        },
        None => false,
    }
}

/// A session starts exactly where it is ready and does not run; without its models it looks for
/// them first.
pub proof fn only_a_ready_session_starts(live: Live)
    ensures
        start_step(live) is Refused <==> live.running || live.face is None || live.input is Nothing,
        start_step(live) is Ready <==> !live.running && live.face is Some && !(live.input is Nothing)
            && live.models,
        start_step(live) is Refused <==> live.running || !is_ready(live),
        start_asked(live).running == live.running,
        start_asked(live).face == live.face && start_asked(live).input == live.input,
{
}

/// The worker's messages change what they tell of and nothing else; only the last one ends the
/// session, and it closes the window of the camera.
pub proof fn messages_change_what_they_tell(live: Live, message: WorkerMsg)
    ensures
        message_handled(live, message).running == (live.running && !(message is Done)),
        message_handled(live, message).shown == (live.shown && !(message is Done)),
        message_handled(live, message).face == live.face,
        message_handled(live, message).input == live.input,
        message_handled(live, message).output == live.output,
        message_handled(live, message).params == live.params,
        message_handled(live, message).models == live.models,
        message_handled(live, message).provider == live.provider,
        message_handled(live, message).size == match message {
            WorkerMsg::Frame(width, height) => Some((width, height)),
            _ => live.size,
        },
        message_handled(live, message).fps == match message {
            WorkerMsg::Fps(rate) => rate,
            _ => live.fps,
        },
        message_handled(live, message).faces == match message {
            WorkerMsg::FaceCount(faces) => faces,
            _ => live.faces,
        },
{
}

/// No model is missing exactly where all three are found: the detector, the recognizer and the
/// swapper.
pub proof fn nothing_is_missing_where_all_are_found(found: Seq<Seq<char>>, swapper: Seq<char>)
    ensures
        models_lacking(found, swapper).len() == 0 <==> found.contains("yoloface_8n.onnx"@)
            && found.contains("w600k_r50.onnx"@) && found.contains(swapper),
{
    let lacks = |name: Seq<char>| !found.contains(name);
    let three = models_needed(swapper);
    let two = three.drop_last();
    let one = two.drop_last();
    let none = one.drop_last();
    reveal(Seq::filter);
    assert(three.last() == swapper && two.last() == "w600k_r50.onnx"@ && one.last()
        == "yoloface_8n.onnx"@);
    assert(none.filter(lacks).len() == 0);
    assert(one.filter(lacks).len() == 0 <==> found.contains("yoloface_8n.onnx"@));
    assert(two.filter(lacks).len() == 0 <==> found.contains("yoloface_8n.onnx"@) && found.contains(
        "w600k_r50.onnx"@,
    ));
    assert(models_lacking(found, swapper) == three.filter(lacks));
}

/// Numbers below ten thousand are shown in four digits that add up to them.
pub proof fn four_digits_add_up(n: nat)
    requires
        n < 10_000,
    ensures
        four_digits(n).len() == 4,
        forall|k: int| 0 <= k < 4 ==> 48 <= #[trigger] four_digits(n)[k] as u32 <= 57,
        1000 * (four_digits(n)[0] as u32 - 48) + 100 * (four_digits(n)[1] as u32 - 48) + 10 * (
        four_digits(n)[2] as u32 - 48) + (four_digits(n)[3] as u32 - 48) == n,
{
    reveal_strlit("000");
    reveal_strlit("00");
    reveal_strlit("0");
    reveal_with_fuel(numeral, 5);
}

} // verus!
