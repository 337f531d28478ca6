use noperson::controls::{
    control_catalog, ChoiceSource, ControlCatalogError, ControlDependency, ControlKind,
    ControlScope, ControlSpec, ControlState, ControlStateError, ControlValue, DependencyMode,
    DependencyValue, FrontendMode, Visibility,
};
use noperson::embeddings::{
    check_embeddings, merge_stores, temporary_path, validate_store, EmbeddingMergeMethod,
    EmbeddingStore, EvenMedian, SavedEmbedding,
};
use noperson::faces::{FaceWorkspace, FaceWorkspaceError, ARC_FACE_MODEL};
use noperson::json::{Json, JsonNumber};
use noperson::media::{
    classify, discover_media, DirectoryEntry, MediaError, MediaId, MediaKind, MediaLibrary,
    MediaRole,
};
use noperson::number::{Double, NumberText, Single};
use noperson::ordered::TextMap;
use noperson::timeline::EditorTimeline;
use noperson::viewport::{PreviewViewport, MAX_ZOOM, MIN_ZOOM};

fn single(value: f32) -> Single {
    Single { bits: value.to_bits() }
}

fn value_of(number: Single) -> f32 {
    f32::from_bits(number.bits)
}

fn double(value: f64) -> Double {
    Double {
        bits: value.to_bits(),
        single: single(value as f32),
        percent: single((value / 100.0) as f32),
        whole: value as i128,
        text: NumberText::new(&format!("{value:?}")).unwrap_or(NumberText { code: 0 }),
    }
}

fn control(id: &str, scope: ControlScope, kind: ControlKind) -> ControlSpec {
    ControlSpec {
        id: id.to_owned(),
        scope,
        section: "Section".to_owned(),
        label: id.to_owned(),
        level: 1,
        help: String::new(),
        kind,
        visibility: Visibility::default(),
    }
}

fn slider(min: f64, max: f64, default: f64, step: f64) -> ControlKind {
    ControlKind::Slider {
        min: double(min),
        max: double(max),
        default: double(default),
        step: double(step),
    }
}

fn choice(options: &[&str], default: &str) -> ControlKind {
    ControlKind::Choice {
        options: options.iter().map(|option| option.to_string()).collect(),
        default: default.to_owned(),
        source: None,
    }
}

fn small_catalog() -> Vec<ControlSpec> {
    let mut hidden = control("Hidden", ControlScope::Common, ControlKind::Toggle { default: true });
    hidden.visibility = Visibility {
        mode: DependencyMode::All,
        dependencies: Vec::new(),
        hidden_modes: vec![FrontendMode::Realtime],
    };
    let mut shown = control("Shown", ControlScope::Swapper, slider(0.0, 10.0, 5.0, 1.0));
    shown.visibility = Visibility {
        mode: DependencyMode::All,
        dependencies: vec![
            ControlDependency {
                control: "Toggle".to_owned(),
                value: DependencyValue::Toggle(true),
            },
            ControlDependency {
                control: "Choice".to_owned(),
                value: DependencyValue::Choice("b".to_owned()),
            },
        ],
        hidden_modes: Vec::new(),
    };
    vec![
        control("Toggle", ControlScope::Settings, ControlKind::Toggle { default: false }),
        control("Slider", ControlScope::Common, slider(-1.0, 1.0, 0.5, 0.1)),
        control("Choice", ControlScope::Swapper, choice(&["a", "b"], "a")),
        hidden,
        shown,
    ]
}

#[test]
fn a_catalog_is_checked() {
    assert!(control_catalog(small_catalog()).is_ok());
    let mut twice = small_catalog();
    twice.push(control("Toggle", ControlScope::Common, ControlKind::Toggle { default: true }));
    assert!(matches!(
        control_catalog(twice),
        Err(ControlCatalogError::DuplicateId(id)) if id == "Toggle"
    ));
    for kind in [
        slider(0.0, 1.0, 2.0, 0.1),
        slider(0.0, 1.0, 0.5, 0.0),
        slider(0.0, f64::INFINITY, 0.5, 0.1),
        slider(f64::NAN, 1.0, 0.5, 0.1),
    ] {
        let wrong = vec![control("S", ControlScope::Common, kind)];
        assert!(matches!(
            control_catalog(wrong),
            Err(ControlCatalogError::InvalidSlider(id)) if id == "S"
        ));
    }
    for kind in [choice(&["a"], "b"), choice(&[], "")] {
        let wrong = vec![control("C", ControlScope::Common, kind)];
        assert!(matches!(
            control_catalog(wrong),
            Err(ControlCatalogError::InvalidChoice(id)) if id == "C"
        ));
    }
    let open = ControlKind::Choice {
        options: Vec::new(),
        default: String::new(),
        source: Some(ChoiceSource::Cameras),
    };
    assert!(control_catalog(vec![control("C", ControlScope::Common, open)]).is_ok());
    let mut lonely = control("L", ControlScope::Common, ControlKind::Toggle { default: true });
    lonely.visibility.dependencies = vec![ControlDependency {
        control: "Gone".to_owned(),
        value: DependencyValue::Toggle(true),
    }];
    assert!(matches!(
        control_catalog(vec![lonely]),
        Err(ControlCatalogError::MissingDependency { control, dependency })
            if control == "L" && dependency == "Gone"
    ));
}

#[test]
fn values_are_held_to_their_controls() {
    let catalog = small_catalog();
    let mut state = ControlState::from_catalog(&catalog).expect("defaults");
    assert_eq!(state.len(), 5);
    assert_eq!(state.get("Toggle"), Some(&ControlValue::Toggle(false)));
    assert!(state.set("Slider", ControlValue::Slider(double(1.0)), &catalog).is_ok());
    assert!(matches!(
        state.set("Slider", ControlValue::Slider(double(1.5)), &catalog),
        Err(ControlStateError::InvalidValue { control, .. }) if control == "Slider"
    ));
    assert!(matches!(
        state.set("Choice", ControlValue::Toggle(true), &catalog),
        Err(ControlStateError::InvalidValue { .. })
    ));
    assert!(matches!(
        state.set("Nothing", ControlValue::Toggle(true), &catalog),
        Err(ControlStateError::UnknownControl(id)) if id == "Nothing"
    ));
    assert_eq!(state.get("Slider"), Some(&ControlValue::Slider(double(1.0))));
    assert!(state.validate_against(&catalog).is_ok());
    assert!(matches!(
        ControlState::new().validate_against(&catalog),
        Err(ControlStateError::Incomplete { expected: 5, actual: 0 })
    ));
}

#[test]
fn controls_show_where_what_they_depend_on_is_so() {
    let catalog = small_catalog();
    let mut state = ControlState::from_catalog(&catalog).expect("defaults");
    assert!(state.is_visible("Toggle", FrontendMode::Editor, &catalog));
    assert!(!state.is_visible("Gone", FrontendMode::Editor, &catalog));
    assert!(!state.is_visible("Hidden", FrontendMode::Realtime, &catalog));
    assert!(state.is_visible("Hidden", FrontendMode::Editor, &catalog));
    assert!(!state.is_visible("Shown", FrontendMode::Editor, &catalog));
    state.set("Toggle", ControlValue::Toggle(true), &catalog).unwrap();
    assert!(!state.is_visible("Shown", FrontendMode::Editor, &catalog));
    state.set("Choice", ControlValue::Choice("b".to_owned()), &catalog).unwrap();
    assert!(state.is_visible("Shown", FrontendMode::Editor, &catalog));
    let any = Visibility {
        mode: DependencyMode::Any,
        dependencies: vec![
            ControlDependency {
                control: "Toggle".to_owned(),
                value: DependencyValue::Toggle(false),
            },
            ControlDependency {
                control: "Choice".to_owned(),
                value: DependencyValue::Choice("b".to_owned()),
            },
        ],
        hidden_modes: Vec::new(),
    };
    assert!(state.is_spec_visible(&any, FrontendMode::Editor));
}

#[test]
fn a_scope_is_written_and_read_back() {
    let catalog = small_catalog();
    let mut state = ControlState::from_catalog(&catalog).expect("defaults");
    state.set("Slider", ControlValue::Slider(double(-0.25)), &catalog).unwrap();
    state.set("Choice", ControlValue::Choice("b".to_owned()), &catalog).unwrap();
    let written = state.plain_json_for_scope(ControlScope::Common, &catalog);
    assert_eq!(written.keys(), vec!["Hidden".to_owned(), "Slider".to_owned()]);
    let mut other = ControlState::from_catalog(&catalog).expect("defaults");
    other.apply_plain_json(&written, &catalog).expect("values that fit");
    assert_eq!(other.get("Slider"), Some(&ControlValue::Slider(double(-0.25))));
    assert_eq!(other.get("Choice"), Some(&ControlValue::Choice("a".to_owned())));
}

#[test]
fn values_of_the_wrong_kind_are_refused() {
    let catalog = small_catalog();
    let mut state = ControlState::from_catalog(&catalog).expect("defaults");
    let mut values = TextMap::new();
    let _ = values.insert("Slider".to_owned(), Json::Text("one".to_owned()));
    assert!(matches!(
        state.apply_plain_json(&values, &catalog),
        Err(ControlStateError::InvalidPlainJson(id)) if id == "Slider"
    ));
    let mut values = TextMap::new();
    let _ = values.insert("Unknown".to_owned(), Json::Null);
    assert!(state.apply_plain_json(&values, &catalog).is_ok());
    let mut values = TextMap::new();
    let _ = values.insert("Slider".to_owned(), Json::Number(JsonNumber::Real(double(7.0))));
    assert!(matches!(
        state.apply_plain_json(&values, &catalog),
        Err(ControlStateError::InvalidValue { .. })
    ));
}

#[test]
fn media_are_known_by_their_extensions() {
    assert_eq!(classify("a/b.JPG"), Some(MediaKind::Image));
    assert_eq!(classify("b.webp"), Some(MediaKind::Image));
    assert_eq!(classify("b.mkv"), Some(MediaKind::Video));
    assert_eq!(classify("b.txt"), None);
    assert_eq!(classify(".png"), None);
    assert_eq!(classify("png"), None);
}

#[test]
fn a_library_selects_what_it_takes() {
    let mut library = MediaLibrary::default();
    let first = library.add(MediaRole::Target, "dir/a.mp4".to_owned()).expect("a video");
    let second = library.add(MediaRole::Target, "dir/b.png".to_owned()).expect("a picture");
    assert_eq!((first.get(), second.get()), (0, 1));
    assert_eq!(library.selected(MediaRole::Target), Some(second));
    assert_eq!(library.last_directory().map(|path| path.as_str()), Some("dir"));
    assert_eq!(library.add(MediaRole::Target, "dir/a.mp4".to_owned()), Ok(first));
    assert_eq!(library.selected(MediaRole::Target), Some(first));
    assert_eq!(library.items(MediaRole::Target).len(), 2);
    assert_eq!(
        library.add(MediaRole::Source, "dir/a.mp4".to_owned()),
        Err(MediaError::SourceMustBeImage { path: "dir/a.mp4".to_owned() })
    );
    assert_eq!(
        library.add(MediaRole::Source, "x.doc".to_owned()),
        Err(MediaError::Unsupported { path: "x.doc".to_owned() })
    );
    assert_eq!(
        library.select(MediaRole::Source, first),
        Err(MediaError::WrongRole { id: first, role: MediaRole::Source })
    );
    assert_eq!(
        library.select(MediaRole::Target, MediaId(9)),
        Err(MediaError::UnknownId(MediaId(9)))
    );
    assert!(library.remove(first));
    assert!(!library.remove(first));
    assert_eq!(library.selected(MediaRole::Target), None);
    let source = library.add(MediaRole::Source, "f.png".to_owned()).expect("a picture");
    assert_eq!(source.get(), 2);
    assert_eq!(library.last_directory().map(|path| path.as_str()), Some("dir"));
    assert_eq!(library.clear(MediaRole::Target), vec![second]);
    assert_eq!(library.all().len(), 1);
}

#[test]
fn media_of_a_directory_come_sorted_and_once() {
    let entries = vec![
        DirectoryEntry::File("d/z.png".to_owned()),
        DirectoryEntry::Other,
        DirectoryEntry::Directory(vec![
            DirectoryEntry::File("d/sub/b.mp4".to_owned()),
            DirectoryEntry::File("d/sub/c.txt".to_owned()),
        ]),
        DirectoryEntry::File("d/a.jpg".to_owned()),
        DirectoryEntry::File("d/a.jpg".to_owned()),
    ];
    assert_eq!(
        discover_media(&entries, MediaRole::Target, true),
        vec!["d/a.jpg".to_owned(), "d/sub/b.mp4".to_owned(), "d/z.png".to_owned()]
    );
    assert_eq!(
        discover_media(&entries, MediaRole::Source, true),
        vec!["d/a.jpg".to_owned(), "d/z.png".to_owned()]
    );
    assert_eq!(
        discover_media(&entries, MediaRole::Target, false),
        vec!["d/a.jpg".to_owned(), "d/z.png".to_owned()]
    );
}

#[test]
fn a_timeline_stays_within_its_frames() {
    let catalog = small_catalog();
    let controls = ControlState::from_catalog(&catalog).expect("defaults");
    let mut timeline = EditorTimeline::new(10, single(25.0));
    timeline.seek(99);
    assert_eq!(timeline.current_frame(), 9);
    timeline.step(-100);
    assert_eq!(timeline.current_frame(), 0);
    for frame in [2, 5, 8] {
        timeline.seek(frame);
        timeline.add_marker(controls.duplicate());
    }
    assert_eq!(timeline.markers(), vec![2, 5, 8]);
    timeline.seek(5);
    assert_eq!(timeline.previous_marker(), Some(2));
    assert_eq!(timeline.next_marker(), Some(8));
    timeline.seek(0);
    assert_eq!(timeline.previous_marker(), None);
    assert!(timeline.marker_at(5).is_some());
    assert!(timeline.remove_marker(5).is_some());
    assert!(timeline.remove_marker(5).is_none());
    assert_eq!(timeline.clear_markers(), 2);
    timeline.toggle_playback();
    assert!(timeline.is_playing());
    assert_eq!(timeline.fps(), single(25.0));
    assert_eq!(EditorTimeline::default().total_frames(), 1);
    let mut empty = EditorTimeline::new(0, single(1.0));
    empty.seek(3);
    assert_eq!(empty.current_frame(), 0);
}

fn product(a: Single, b: Single) -> Single {
    single(value_of(a) * value_of(b))
}

fn quotient(a: Single, b: Single) -> Single {
    single(value_of(a) / value_of(b))
}

fn shift(anchor: Single, pan: Single, scale: Single) -> Single {
    single(value_of(anchor) - (value_of(anchor) - value_of(pan)) * value_of(scale))
}

#[test]
fn zooming_keeps_to_its_limits() {
    assert_eq!(value_of(Single { bits: MIN_ZOOM }), 0.1);
    assert_eq!(value_of(Single { bits: MAX_ZOOM }), 16.0);
    let mut viewport = PreviewViewport::default();
    let anchor = (single(10.0), single(20.0));
    viewport.zoom_by(single(2.0), anchor, product, quotient, shift);
    assert_eq!(viewport.zoom(), single(2.0));
    assert_eq!(viewport.pan(), (single(-10.0), single(-20.0)));
    assert_eq!(viewport.anchor(), anchor);
    viewport.zoom_by(single(100.0), anchor, product, quotient, shift);
    assert_eq!(viewport.zoom(), single(16.0));
    let before = viewport.pan();
    for factor in [single(0.0), single(-1.0), single(f32::NAN), single(f32::INFINITY)] {
        viewport.zoom_by(factor, anchor, product, quotient, shift);
    }
    assert_eq!(viewport.zoom(), single(16.0));
    assert_eq!(viewport.pan(), before);
    viewport.zoom_by(single(0.000001), anchor, product, quotient, shift);
    assert_eq!(viewport.zoom(), single(0.1));
    viewport.reset();
    viewport.pan_by((single(1.5), single(-2.0)), |a, b| single(value_of(a) + value_of(b)));
    assert_eq!(viewport.pan(), (single(1.5), single(-2.0)));
}

fn mean(values: Vec<Single>) -> Single {
    let sum: f32 = values.iter().map(|value| value_of(*value)).sum();
    single(sum / values.len() as f32)
}

fn midpoint(a: Single, b: Single) -> Single {
    single((value_of(a) + value_of(b)) / 2.0)
}

fn named(model: &str, values: &[f32]) -> EmbeddingStore {
    let mut store = TextMap::new();
    let _ =
        store.insert(model.to_owned(), values.iter().map(|value| single(*value)).collect());
    store
}

fn store(values: &[f32]) -> EmbeddingStore {
    named(ARC_FACE_MODEL, values)
}

fn numbers(store: &EmbeddingStore, model: &str) -> Vec<f32> {
    store.get(model).expect("the model").iter().map(|value| value_of(*value)).collect()
}

#[test]
fn embeddings_are_merged_by_mean_and_median() {
    let (a, b, c, d) =
        (store(&[1.0, 9.0]), store(&[2.0, 5.0]), store(&[6.0, 1.0]), store(&[7.0, 0.0]));
    let three = vec![&a, &b, &c];
    let four = vec![&a, &b, &c, &d];
    let merged =
        merge_stores(&three, EmbeddingMergeMethod::Mean, EvenMedian::Lower, &mean, &midpoint);
    assert_eq!(numbers(&merged.unwrap(), ARC_FACE_MODEL), vec![3.0, 5.0]);
    let merged =
        merge_stores(&three, EmbeddingMergeMethod::Median, EvenMedian::Average, &mean, &midpoint);
    assert_eq!(numbers(&merged.unwrap(), ARC_FACE_MODEL), vec![2.0, 5.0]);
    let merged =
        merge_stores(&four, EmbeddingMergeMethod::Median, EvenMedian::Average, &mean, &midpoint);
    assert_eq!(numbers(&merged.unwrap(), ARC_FACE_MODEL), vec![4.0, 3.0]);
    let merged =
        merge_stores(&four, EmbeddingMergeMethod::Median, EvenMedian::Lower, &mean, &midpoint);
    assert_eq!(numbers(&merged.unwrap(), ARC_FACE_MODEL), vec![2.0, 1.0]);
}

#[test]
fn embeddings_that_do_not_match_are_refused() {
    let (a, b) = (store(&[1.0, 2.0]), store(&[1.0]));
    assert!(matches!(
        merge_stores(
            &vec![&a, &b],
            EmbeddingMergeMethod::Mean,
            EvenMedian::Lower,
            &mean,
            &midpoint
        ),
        Err(FaceWorkspaceError::DimensionMismatch(model)) if model == ARC_FACE_MODEL
    ));
    assert!(matches!(validate_store(&TextMap::new()), Err(FaceWorkspaceError::EmptyEmbeddingStore)));
    assert!(matches!(
        validate_store(&store(&[f32::NAN])),
        Err(FaceWorkspaceError::NonFinite(model)) if model == ARC_FACE_MODEL
    ));
    let saved = vec![SavedEmbedding { name: "x".to_owned(), embedding_store: store(&[1.0]) }];
    assert!(check_embeddings(&saved).is_ok());
    let wrong = vec![SavedEmbedding { name: "x".to_owned(), embedding_store: TextMap::new() }];
    assert!(check_embeddings(&wrong).is_err());
    assert_eq!(temporary_path("dir/faces.json"), "dir/faces.json.tmp".to_owned());
}

#[test]
fn identities_are_routed_to_targets() {
    let catalog = small_catalog();
    let mut faces = FaceWorkspace::new();
    faces.add_source("s".to_owned(), "S".to_owned(), None, store(&[1.0])).unwrap();
    assert!(matches!(
        faces.add_source("s".to_owned(), "S".to_owned(), None, store(&[1.0])),
        Err(FaceWorkspaceError::DuplicateIdentity(id)) if id == "s"
    ));
    faces.add_source("r".to_owned(), "R".to_owned(), None, store(&[3.0])).unwrap();
    faces.add_target("t".to_owned(), None, store(&[0.0]), &catalog).unwrap();
    assert!(matches!(
        faces.add_target("t".to_owned(), None, store(&[0.0]), &catalog),
        Err(FaceWorkspaceError::DuplicateTarget(id)) if id == "t"
    ));
    assert_eq!(faces.selected_target(), Some("t"));
    assert!(matches!(
        faces.assign_source("t", "x", true),
        Err(FaceWorkspaceError::UnknownSource(id)) if id == "x"
    ));
    assert!(matches!(
        faces.assign_source("x", "s", true),
        Err(FaceWorkspaceError::UnknownTarget(id)) if id == "x"
    ));
    assert!(matches!(
        faces.assign_merged("t", "m", true),
        Err(FaceWorkspaceError::UnknownMerged(id)) if id == "m"
    ));
    assert!(!faces.has_assignment(Some("t")));
    faces.assign_source("t", "s", true).unwrap();
    faces.assign_source("t", "r", true).unwrap();
    assert!(faces.source_is_assigned(Some("t"), "s"));
    let embedding =
        faces.assigned_embedding("t", ARC_FACE_MODEL, EmbeddingMergeMethod::Mean, &mean, &midpoint);
    assert_eq!(embedding.unwrap(), vec![single(2.0)]);
    assert!(matches!(
        faces.assigned_embedding("t", "Other", EmbeddingMergeMethod::Mean, &mean, &midpoint),
        Err(FaceWorkspaceError::MissingModel(model)) if model == "Other"
    ));
    assert!(matches!(
        faces.create_merged(
            "m".to_owned(),
            "M".to_owned(),
            &Vec::new(),
            EmbeddingMergeMethod::Mean,
            &mean,
            &midpoint
        ),
        Err(FaceWorkspaceError::EmptySelection)
    ));
    faces
        .create_merged(
            "m".to_owned(),
            "M".to_owned(),
            &vec!["s".to_owned(), "r".to_owned()],
            EmbeddingMergeMethod::Mean,
            &mean,
            &midpoint,
        )
        .unwrap();
    assert_eq!(numbers(&faces.merged("m").unwrap().embeddings, ARC_FACE_MODEL), vec![2.0]);
    faces.assign_merged("t", "m", true).unwrap();
    assert!(faces.merged_is_assigned(Some("t"), "m"));
    assert!(faces.remove_source("s"));
    assert!(!faces.source_is_assigned(Some("t"), "s"));
    assert!(faces.source_is_assigned(Some("t"), "r"));
    assert!(faces.merged("m").is_none());
    assert!(!faces.merged_is_assigned(Some("t"), "m"));
    assert_eq!(faces.clear_merged(), 0);
    assert!(faces.validate(&catalog).is_ok());
    assert!(faces.remove_target("t"));
    assert_eq!(faces.selected_target(), None);
}

#[test]
fn targets_leave_with_their_medium() {
    let catalog = small_catalog();
    let mut faces = FaceWorkspace::new();
    faces.add_target("t".to_owned(), Some(MediaId(1)), store(&[0.0]), &catalog).unwrap();
    faces.add_target("u".to_owned(), Some(MediaId(2)), store(&[0.0]), &catalog).unwrap();
    faces.add_target("v".to_owned(), None, store(&[0.0]), &catalog).unwrap();
    assert_eq!(faces.remove_targets_for_media(MediaId(1)), 1);
    let left: Vec<&str> = faces.targets().iter().map(|target| target.id.as_str()).collect();
    assert_eq!(left, vec!["u", "v"]);
    assert_eq!(faces.clear_targets(), 2);
}

#[test]
fn a_pending_source_waits_for_its_embedding() {
    let mut faces = FaceWorkspace::new();
    faces.add_pending_source("p".to_owned(), "P".to_owned(), Some(MediaId(0))).unwrap();
    assert!(faces.source("p").unwrap().embeddings.is_empty());
    assert!(faces.set_source_embeddings("p", TextMap::new()).is_err());
    faces.set_source_embeddings("p", store(&[2.0])).unwrap();
    assert_eq!(numbers(&faces.source("p").unwrap().embeddings, ARC_FACE_MODEL), vec![2.0]);
    assert!(matches!(
        faces.set_source_embeddings("q", store(&[2.0])),
        Err(FaceWorkspaceError::UnknownSource(id)) if id == "q"
    ));
}

#[test]
fn only_choices_have_options() {
    let picked = control("Choice", ControlScope::Swapper, choice(&["a", "b"], "a"));
    assert_eq!(picked.choice_options().map(|list| list.len()), Some(2));
    let switched =
        control("Toggle", ControlScope::Swapper, ControlKind::Toggle { default: false });
    assert!(switched.choice_options().is_none());
}

#[test]
fn no_two_media_of_a_role_share_a_path() {
    let mut library = MediaLibrary::default();
    let a = library.add(MediaRole::Target, "m/a.png".to_owned()).unwrap();
    let b = library.add(MediaRole::Target, "m/b.png".to_owned()).unwrap();
    let c = library.add(MediaRole::Source, "m/a.png".to_owned()).unwrap();
    assert_eq!(library.add(MediaRole::Target, "m//a.png".to_owned()), Ok(a));
    assert_eq!(library.all().len(), 3);
    assert!(library.remove(a));
    assert_eq!(library.selected(MediaRole::Target), None);
    assert_eq!(library.selected(MediaRole::Source), Some(c));
    library.select(MediaRole::Target, b).unwrap();
    assert_eq!(library.clear(MediaRole::Source), vec![c]);
    assert_eq!(library.selected(MediaRole::Source), None);
    assert_eq!(library.selected(MediaRole::Target), Some(b));
}
