use noperson::controls::{
    control_catalog, ControlKind, ControlScope, ControlSpec, ControlState, ControlValue,
    Visibility,
};
use noperson::embeddings::EmbeddingStore;
use noperson::faces::{FaceCrop, FaceWorkspace, ARC_FACE_MODEL};
use noperson::json::{Json, JsonNumber};
use noperson::media::MediaRole;
use noperson::number::{Double, NumberText, Single};
use noperson::ordered::TextMap;
use noperson::workspace::document::{
    temporary_workspace, WorkspaceDocument, WorkspaceError, WORKSPACE_VERSION,
};
use noperson::workspace::values::{
    embedding_store_value, face_crop_value, legacy_id, parse_embedding_store,
    parse_embedding_store_or_empty, parse_face_crop, string_array,
};

fn single(value: f32) -> Single {
    Single { bits: value.to_bits() }
}

fn double(value: f64) -> Double {
    Double {
        bits: value.to_bits(),
        single: single(value as f32),
        percent: single((value / 100.0) as f32),
        whole: value as i128,
        text: NumberText::new(&format!("{value:?}")).unwrap_or(NumberText { code: 0 }),
    }
}

fn precise(value: u64) -> Double {
    double(value as f64)
}

fn widened(value: Single) -> Double {
    double(f64::from(f32::from_bits(value.bits)))
}

fn control(id: &str, scope: ControlScope, kind: ControlKind) -> ControlSpec {
    ControlSpec {
        id: id.to_owned(),
        scope,
        section: "Section".to_owned(),
        label: id.to_owned(),
        level: 1,
        help: String::new(),
        kind,
        visibility: Visibility::default(),
    }
}

fn catalog() -> Vec<ControlSpec> {
    let slider = ControlKind::Slider {
        min: double(0.0),
        max: double(100.0),
        default: double(50.0),
        step: double(1.0),
    };
    control_catalog(vec![
        control("Enable", ControlScope::Settings, ControlKind::Toggle { default: false }),
        control("Blend", ControlScope::Common, slider),
        control("Fast", ControlScope::Swapper, ControlKind::Toggle { default: true }),
    ])
    .expect("a valid catalog")
}

fn text(value: &str) -> Json {
    Json::Text(value.to_owned())
}

fn whole(value: u64) -> Json {
    Json::Number(JsonNumber::Whole { value, wide: precise(value) })
}

fn object(members: Vec<(&str, Json)>) -> Json {
    let mut map = TextMap::new();
    for (key, value) in members {
        let _ = map.insert(key.to_owned(), value);
    }
    Json::Object(map)
}

fn store(values: &[f32]) -> EmbeddingStore {
    let mut store = TextMap::new();
    let _ = store.insert(
        ARC_FACE_MODEL.to_owned(),
        values.iter().map(|value| single(*value)).collect(),
    );
    store
}

fn crop() -> FaceCrop {
    FaceCrop { width: 2, height: 2, rgb: (1..13).collect() }
}

#[test]
fn identifiers_are_texts_or_numbers() {
    assert_eq!(legacy_id(&text("x")), Some("x".to_owned()));
    assert_eq!(legacy_id(&whole(7)), Some("7".to_owned()));
    assert_eq!(legacy_id(&Json::Bool(false)), None);
    let half = Json::Number(JsonNumber::Real(double(0.5)));
    assert_eq!(legacy_id(&half), Some("0.5".to_owned()));
    let near = JsonNumber::Exact { value: single(0.1), wide: widened(single(0.1)) };
    assert_eq!(legacy_id(&Json::Number(near)), Some("0.10000000149011612".to_owned()));
    let list = Json::Array(vec![text("a"), whole(1), text("b")]);
    assert_eq!(string_array(Some(&list)), vec!["a".to_owned(), "b".to_owned()]);
    assert_eq!(string_array(None), Vec::<String>::new());
}

#[test]
fn a_picture_of_a_face_is_written_and_read_back() {
    let value = face_crop_value(&crop(), &precise);
    let read = parse_face_crop(&value).expect("what was written");
    assert_eq!((read.width, read.height, read.rgb), (2, 2, (1..13).collect::<Vec<u8>>()));
}

#[test]
fn pictures_of_the_wrong_shape_are_refused() {
    assert!(parse_face_crop(&Json::Null).is_err());
    assert!(parse_face_crop(&Json::Array(Vec::new())).is_err());
    let pixel = || Json::Array(vec![whole(1), whole(2), whole(3)]);
    let uneven = Json::Array(vec![
        Json::Array(vec![pixel(), pixel()]),
        Json::Array(vec![pixel()]),
    ]);
    assert!(parse_face_crop(&uneven).is_err());
    let large = Json::Array(vec![Json::Array(vec![Json::Array(vec![
        whole(1),
        whole(256),
        whole(3),
    ])])]);
    assert!(parse_face_crop(&large).is_err());
}

#[test]
fn embeddings_are_written_and_read_back() {
    let value = embedding_store_value(&store(&[1.5, -2.25]), &widened);
    let read = parse_embedding_store(Some(&value)).expect("what was written");
    assert_eq!(read.get(ARC_FACE_MODEL), Some(&vec![single(1.5), single(-2.25)]));
    assert!(parse_embedding_store(None).is_err());
    assert!(parse_embedding_store_or_empty(None).expect("nothing").is_empty());
    let wrong = object(vec![("model", text("x"))]);
    assert!(parse_embedding_store(Some(&wrong)).is_err());
}

fn filled() -> WorkspaceDocument {
    let catalog = catalog();
    let mut document =
        WorkspaceDocument::new("demo".to_owned(), &catalog).expect("a fresh workspace");
    let target = document.media.add(MediaRole::Target, "m/clip.mp4".to_owned()).unwrap();
    let _ = document.media.add(MediaRole::Target, "m/still.png".to_owned()).unwrap();
    document.media.select(MediaRole::Target, target).unwrap();
    let source = document.media.add(MediaRole::Source, "m/face.png".to_owned()).unwrap();
    document
        .faces
        .add_source("src".to_owned(), "face".to_owned(), Some(source), store(&[1.0]))
        .unwrap();
    document
        .faces
        .add_merged_store("mix".to_owned(), "Mixed".to_owned(), store(&[0.5]))
        .unwrap();
    document
        .faces
        .add_target_with_crop("t".to_owned(), Some(target), store(&[2.0]), Some(crop()), &catalog)
        .unwrap();
    document.faces.assign_source("t", "src", true).unwrap();
    document.faces.assign_merged("t", "mix", true).unwrap();
    let mut own = ControlState::from_catalog(&catalog).expect("defaults");
    own.set("Blend", ControlValue::Slider(double(25.0)), &catalog).unwrap();
    assert!(document.faces.set_target_controls("t", own));
    document.controls.set("Enable", ControlValue::Toggle(true), &catalog).unwrap();
    document.controls.set("Blend", ControlValue::Slider(double(75.0)), &catalog).unwrap();
    document.timeline = noperson::timeline::EditorTimeline::new(100, single(30.0));
    document.timeline.seek(12);
    document.timeline.add_marker(document.controls.duplicate());
    document.output_directory = Some("out".to_owned());
    document
}

#[test]
fn what_is_exported_is_read_back() {
    let catalog = catalog();
    let document = filled();
    assert!(document.check_content(&catalog).is_ok());
    let value = document.to_crossswap_value(&catalog, &precise, &widened).expect("a document");
    let read = WorkspaceDocument::from_crossswap_value("again".to_owned(), &value, &catalog)
        .expect("what was exported");
    assert_eq!(read.name, "again");
    let paths = |document: &WorkspaceDocument, role: MediaRole| -> Vec<String> {
        document.media.items(role).iter().map(|item| item.path.clone()).collect()
    };
    assert_eq!(paths(&read, MediaRole::Target), paths(&document, MediaRole::Target));
    assert_eq!(paths(&read, MediaRole::Source), paths(&document, MediaRole::Source));
    let selected = read.media.selected(MediaRole::Target).expect("a selection");
    assert_eq!(read.media.item(selected).expect("an item").path, "m/clip.mp4");
    assert_eq!(read.output_directory.as_deref(), Some("out"));
    assert_eq!(read.controls.get("Enable"), Some(&ControlValue::Toggle(true)));
    assert_eq!(read.controls.get("Blend"), Some(&ControlValue::Slider(double(75.0))));
    let merged = read.faces.merged("mix").expect("the merged identity");
    assert_eq!(merged.name, "Mixed");
    assert_eq!(merged.embeddings.get(ARC_FACE_MODEL), Some(&vec![single(0.5)]));
    let target = read.faces.target("t").expect("the target");
    assert_eq!(target.embeddings.get(ARC_FACE_MODEL), Some(&vec![single(2.0)]));
    assert_eq!(target.controls.get("Blend"), Some(&ControlValue::Slider(double(25.0))));
    assert!(read.faces.source_is_assigned(Some("t"), "src"));
    assert!(read.faces.merged_is_assigned(Some("t"), "mix"));
    let picture = target.crop.as_ref().expect("the picture");
    assert_eq!((picture.width, picture.height), (2, 2));
    assert_eq!(read.timeline.markers(), vec![12]);
    let marker = read.timeline.marker_at(12).expect("the marker");
    assert_eq!(marker.controls.get("Enable"), Some(&ControlValue::Toggle(true)));
    assert_eq!(
        marker.face_controls.get("default").and_then(|own| own.get("Blend")),
        Some(&ControlValue::Slider(double(75.0)))
    );
}

#[test]
fn documents_of_another_shape_are_refused() {
    let catalog = catalog();
    let read = |value: &Json| WorkspaceDocument::from_crossswap_value("x".to_owned(), value, &catalog);
    assert!(matches!(
        read(&Json::Null),
        Err(WorkspaceError::InvalidCrossSwap("workspace root must be an object"))
    ));
    assert!(read(&object(Vec::new())).is_ok());
    let media = object(vec![(
        "target_medias_data",
        Json::Array(vec![object(vec![("media_path", text("x.doc"))])]),
    )]);
    assert!(matches!(read(&media), Err(WorkspaceError::Media(_))));
    let controls = object(vec![(
        "control",
        object(vec![("Enable", text("yes"))]),
    )]);
    assert!(matches!(read(&controls), Err(WorkspaceError::Controls(_))));
    let faces = object(vec![(
        "target_faces_data",
        object(vec![("t", object(vec![("embedding_store", object(Vec::new()))]))]),
    )]);
    assert!(read(&faces).is_err());
}

#[test]
fn a_face_without_a_picture_is_not_read_back() {
    let catalog = catalog();
    let mut document =
        WorkspaceDocument::new("demo".to_owned(), &catalog).expect("a fresh workspace");
    document.faces.add_target("t".to_owned(), None, store(&[2.0]), &catalog).unwrap();
    let value = document.to_crossswap_value(&catalog, &precise, &widened).expect("a document");
    assert!(matches!(
        WorkspaceDocument::from_crossswap_value("x".to_owned(), &value, &catalog),
        Err(WorkspaceError::InvalidCrossSwap(_))
    ));
}

#[test]
fn workspaces_of_another_version_are_refused() {
    let catalog = catalog();
    let mut document = filled();
    assert_eq!(document.version, WORKSPACE_VERSION);
    document.version = 2;
    assert!(matches!(
        document.check_loaded(&catalog),
        Err(WorkspaceError::UnsupportedVersion(2))
    ));
    let mut document = filled();
    document.controls = ControlState::new();
    assert!(matches!(document.check_loaded(&catalog), Err(WorkspaceError::Controls(_))));
    let mut document = filled();
    document.faces = FaceWorkspace::new();
    assert!(document.check_loaded(&catalog).is_ok());
    assert_eq!(temporary_workspace("a/w.json"), "a/w.json.tmp".to_owned());
}

#[test]
fn numbers_of_every_form_are_read() {
    let numbers = || {
        vec![
            whole(3),
            Json::Number(JsonNumber::Real(double(0.25))),
            Json::Number(JsonNumber::Exact { value: single(1.5), wide: widened(single(1.5)) }),
        ]
    };
    let embedding = object(vec![("model", Json::Array(numbers()))]);
    let read = parse_embedding_store(Some(&embedding)).expect("numbers");
    assert_eq!(read.get("model"), Some(&vec![single(3.0), single(0.25), single(1.5)]));
    let doubles: Vec<Option<Double>> = numbers().iter().map(Json::as_real).collect();
    assert_eq!(doubles, vec![Some(double(3.0)), Some(double(0.25)), Some(double(1.5))]);
    assert_eq!(numbers()[1].as_u64(), None);
    assert_eq!(numbers()[0].as_u64(), Some(3));
}

#[test]
fn a_plain_workspace_is_read_back_whole() {
    let catalog = catalog();
    let mut document =
        WorkspaceDocument::new("plain".to_owned(), &catalog).expect("a fresh workspace");
    let first = document.media.add(MediaRole::Target, "m/b.mp4".to_owned()).unwrap();
    let _ = document.media.add(MediaRole::Target, "m/a.png".to_owned()).unwrap();
    document.media.select(MediaRole::Target, first).unwrap();
    document.output_directory = Some("out".to_owned());
    let value = document.to_crossswap_value(&catalog, &precise, &widened).expect("a document");
    let read = WorkspaceDocument::from_crossswap_value("plain".to_owned(), &value, &catalog)
        .expect("what was written");
    assert_eq!(read.name, "plain");
    assert_eq!(read.output_directory.as_deref(), Some("out"));
    let paths: Vec<&str> = read.media.all().iter().map(|item| item.path.as_str()).collect();
    assert_eq!(paths, vec!["m/b.mp4", "m/a.png"]);
    let chosen = read.media.selected(MediaRole::Target).expect("a selection");
    assert_eq!(read.media.item(chosen).expect("an item").path, "m/b.mp4");
    assert_eq!(read.controls.len(), document.controls.len());
    for i in 0..read.controls.len() {
        assert_eq!(read.controls.id_at(i), document.controls.id_at(i));
        assert_eq!(read.controls.value_at(i), document.controls.value_at(i));
    }
}
