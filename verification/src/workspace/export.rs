//! Writing CrossSwap workspaces.

use vstd::prelude::*;

use crate::controls::{complete, incompleteness, scope_json};
use crate::controls::{ControlScope, ControlSpec, ControlState, ControlValue};
use crate::faces::{optional_crop, Crop, Merged, Target};
use crate::faces::{FaceCrop, FaceWorkspace, MergedIdentity, SourceIdentity, TargetFace};
use crate::json::Json;
use crate::media::{find_item, of_role, Library};
use crate::media::{MediaId, MediaItem, MediaLibrary, MediaRole};
use crate::number::{Double, Single};
use crate::ordered::{ascending, listed};
use crate::ordered::{TextMap, TextSet};
use crate::text::decimal;
use crate::text::{numeral, numerals_are_distinct};
use crate::timeline::Marker;
use crate::timeline::{EditorMarker, EditorTimeline};
use crate::workspace::document::sound_faces;
use crate::workspace::document::{WorkspaceDocument, WorkspaceError};
use crate::workspace::values::{embedding_store_value, face_crop_value};
use crate::workspace::values::{crop_given, is_crop, is_store, store_given};

verus! {

/// The values of the controls of faces, as a document holds them.
pub open spec fn parameters_of(
    values: Map<Seq<char>, ControlValue>,
    catalog: Seq<ControlSpec>,
) -> Map<Seq<char>, Json> {
    scope_json(values, ControlScope::Common, catalog).union_prefer_right(
        scope_json(values, ControlScope::Swapper, catalog),
    )
}

/// An object with exactly these members, in order.
pub open spec fn is_object(value: Json, members: Map<Seq<char>, Json>) -> bool {
    value matches Json::Object(o) && o@ == members && ascending(o.pairs())
}

fn parameters_value(controls: &ControlState, catalog: &[ControlSpec]) -> (r: Json)
    ensures
        is_object(r, parameters_of(controls@, catalog@)),
{
    let mut r: TextMap<Json> = controls.plain_json_for_scope(ControlScope::Common, catalog);
    controls.add_scope_json(ControlScope::Swapper, catalog, &mut r);
    Json::Object(r)
}

fn settings_value(controls: &ControlState, catalog: &[ControlSpec]) -> (r: Json)
    ensures
        is_object(r, scope_json(controls@, ControlScope::Settings, catalog@)),
{
    Json::Object(controls.plain_json_for_scope(ControlScope::Settings, catalog))
}

/// The settings of a document: the values of controls and the output directory, which is empty
/// where there is none.
pub open spec fn is_control(
    value: Json,
    values: Map<Seq<char>, ControlValue>,
    output: Option<Seq<char>>,
    catalog: Seq<ControlSpec>,
) -> bool {
    let folder = "OutputMediaFolder"@;
    &&& value matches Json::Object(o)
    &&& ascending(o.pairs())
    &&& o@ == scope_json(values, ControlScope::Settings, catalog).insert(folder, o@[folder])
    &&& o@[folder].text() == Some(
        match output {
            Some(path) => path,
            None => Seq::empty(),
        },
    )
}

fn control_value(
    controls: &ControlState,
    output: &Option<String>,
    catalog: &[ControlSpec],
) -> (r: Json)
    ensures
        is_control(r, controls@, crate::faces::optional_text(*output), catalog@),
{
    let mut r: TextMap<Json> = controls.plain_json_for_scope(ControlScope::Settings, catalog);
    let folder: Json = match output {
        Some(path) => Json::Text(path.clone()),
        None => Json::Text(String::new()),
    };
    let ghost before = r@;
    let ghost given = folder;
    let _ = r.insert("OutputMediaFolder".to_owned(), folder);
    proof {
        assert(r@["OutputMediaFolder"@] == given);
        assert(r@ =~= before.insert("OutputMediaFolder"@, r@["OutputMediaFolder"@]));
    }
    Json::Object(r)
}

/// A target medium as a document holds it.
pub open spec fn is_target_medium(value: Json, item: MediaItem) -> bool {
    &&& value matches Json::Object(o)
    &&& o@.dom() == set!["media_id"@, "media_path"@]
    &&& o@["media_id"@].text() == Some(numeral(item.id.0 as nat))
    &&& o@["media_path"@].text() == Some(item.path@)
}

/// The target media as a document holds them.
pub open spec fn are_target_media(value: Json, items: Seq<MediaItem>) -> bool {
    &&& value matches Json::Array(list)
    &&& list@.len() == items.len()
    &&& forall|i: int| 0 <= i < items.len() ==> is_target_medium(#[trigger] list@[i], items[i])
}

proof fn media_keys_differ()
    ensures
        "media_id"@ != "media_path"@,
{
    reveal_strlit("media_id");
    reveal_strlit("media_path");
    assert("media_id"@.len() == 8);
    assert("media_path"@.len() == 10);
}

fn target_medium_value(item: &MediaItem) -> (r: Json)
    ensures
        is_target_medium(r, *item),
{
    let mut o: TextMap<Json> = TextMap::new();
    let _ = o.insert("media_id".to_owned(), Json::Text(decimal(item.id.get())));
    let _ = o.insert("media_path".to_owned(), Json::Text(item.path.clone()));
    proof {
        media_keys_differ();
        assert(o@.dom() =~= set!["media_id"@, "media_path"@]);
    }
    Json::Object(o)
}

fn target_media_value(media: &MediaLibrary) -> (r: Json)
    ensures
        are_target_media(r, of_role(media@.items, MediaRole::Target)),
{
    let items: Vec<&MediaItem> = media.items(MediaRole::Target);
    let ghost all = of_role(media@.items, MediaRole::Target);
    let mut list: Vec<Json> = Vec::new();
    let mut i: usize = 0;
    proof {
        assert(items@.unref().len() == items@.len());
    }
    while i < items.len()
        invariant
            i <= items.len(),
            items@.unref() == all,
            items@.len() == all.len(),
            list@.len() == i,
            forall|j: int| 0 <= j < i ==> is_target_medium(#[trigger] list@[j], all[j]),
        decreases items.len() - i,
    {
        assert(items@.unref()[i as int] == *items@[i as int]);
        list.push(target_medium_value(items[i]));
        i = i + 1;
    }
    Json::Array(list)
}

/// The path of the picture of a source, where it has one.
pub open spec fn picture_of(source: SourceIdentity, media: Library) -> Option<Seq<char>> {
    match source.media_id {
        Some(id) => match find_item(media.items, id) {
            Some(item) => Some(item.path@),
            None => None,
        },
        None => None,
    }
}

/// The paths of the pictures of the first `n` sources, by the ids of the sources.
pub open spec fn source_pictures(
    entries: Seq<(Seq<char>, SourceIdentity)>,
    media: Library,
    n: nat,
) -> Map<Seq<char>, Seq<char>>
    decreases n,
{
    if n == 0 {
        Map::empty()
    } else {
        let before = source_pictures(entries, media, (n - 1) as nat);
        match picture_of(entries[n - 1].1, media) {
            Some(path) => before.insert(entries[n - 1].1.id@, path),
            None => before,
        }
    }
}

/// One of the sources has this picture.
pub open spec fn is_pictured(
    entries: Seq<(Seq<char>, SourceIdentity)>,
    media: Library,
    id: MediaId,
) -> bool {
    find_item(media.items, id) is Some && exists|i: int|
        0 <= i < entries.len() && (#[trigger] entries[i]).1.media_id == Some(id)
}

/// The paths of pictures, with those of the first `n` source media that no source has.
pub open spec fn with_spare_pictures(
    pictures: Map<Seq<char>, Seq<char>>,
    entries: Seq<(Seq<char>, SourceIdentity)>,
    media: Library,
    items: Seq<MediaItem>,
    n: nat,
) -> Map<Seq<char>, Seq<char>>
    decreases n,
{
    if n == 0 {
        pictures
    } else {
        let before = with_spare_pictures(pictures, entries, media, items, (n - 1) as nat);
        let item = items[n - 1];
        if is_pictured(entries, media, item.id) {
            before
        } else {
            before.insert(numeral(item.id.0 as nat), item.path@)
        }
    }
}

/// The paths of source media, by the ids of their sources. A medium that no source has is there
/// by its own id.
pub open spec fn all_pictures(
    entries: Seq<(Seq<char>, SourceIdentity)>,
    media: Library,
) -> Map<Seq<char>, Seq<char>> {
    let items = of_role(media.items, MediaRole::Source);
    with_spare_pictures(
        source_pictures(entries, media, entries.len()),
        entries,
        media,
        items,
        items.len(),
    )
}

/// A path as a document holds it.
pub open spec fn is_media_path(value: Json, path: Seq<char>) -> bool {
    &&& value matches Json::Object(o)
    &&& o@.dom() == set!["media_path"@]
    &&& o@["media_path"@].text() == Some(path)
}

/// Paths as a document holds them.
pub open spec fn holds_paths(o: Map<Seq<char>, Json>, paths: Map<Seq<char>, Seq<char>>) -> bool {
    &&& o.dom() == paths.dom()
    &&& forall|key: Seq<char>| #[trigger]
        paths.dom().contains(key) ==> is_media_path(o[key], paths[key])
}

fn media_path_value(path: &String) -> (r: Json)
    ensures
        is_media_path(r, path@),
{
    let mut o: TextMap<Json> = TextMap::new();
    let _ = o.insert("media_path".to_owned(), Json::Text(path.clone()));
    proof {
        assert(o@.dom() =~= set!["media_path"@]);
    }
    Json::Object(o)
}

/// One more path.
proof fn paths_grow(
    before: Map<Seq<char>, Json>,
    paths: Map<Seq<char>, Seq<char>>,
    key: Seq<char>,
    value: Json,
    path: Seq<char>,
)
    requires
        holds_paths(before, paths),
        is_media_path(value, path),
    ensures
        holds_paths(before.insert(key, value), paths.insert(key, path)),
{
    assert(before.insert(key, value).dom() =~= paths.insert(key, path).dom());
}

fn sources_value(faces: &FaceWorkspace, media: &MediaLibrary) -> (r: Json)
    ensures
        r matches Json::Object(o) && ascending(o.pairs()) && holds_paths(
            o@,
            all_pictures(faces.source_entries(), media@),
        ),
{
    let sources: Vec<&SourceIdentity> = faces.sources();
    let ghost entries = faces.source_entries();
    let mut o: TextMap<Json> = TextMap::new();
    let mut i: usize = 0;
    proof {
        assert(o@.dom() =~= Map::<Seq<char>, Seq<char>>::empty().dom());
    }
    while i < sources.len()
        invariant
            i <= sources.len(),
            sources@.len() == entries.len(),
            forall|j: int| 0 <= j < sources@.len() ==> *(#[trigger] sources@[j]) == entries[j].1,
            ascending(o.pairs()),
            holds_paths(o@, source_pictures(entries, media@, i as nat)),
        decreases sources.len() - i,
    {
        let source: &SourceIdentity = sources[i];
        assert(*source == entries[i as int].1);
        if let Some(id) = source.media_id {
            if let Some(item) = media.item(id) {
                let value: Json = media_path_value(&item.path);
                proof {
                    paths_grow(
                        o@,
                        source_pictures(entries, media@, i as nat),
                        source.id@,
                        value,
                        item.path@,
                    );
                }
                let _ = o.insert(source.id.clone(), value);
            }
        }
        i = i + 1;
    }
    let items: Vec<&MediaItem> = media.items(MediaRole::Source);
    let ghost all = of_role(media@.items, MediaRole::Source);
    let ghost pictures = source_pictures(entries, media@, entries.len());
    let mut i: usize = 0;
    proof {
        assert(items@.unref().len() == items@.len());
    }
    while i < items.len()
        invariant
            i <= items.len(),
            items@.unref() == all,
            items@.len() == all.len(),
            sources@.len() == entries.len(),
            forall|j: int| 0 <= j < sources@.len() ==> *(#[trigger] sources@[j]) == entries[j].1,
            ascending(o.pairs()),
            holds_paths(o@, with_spare_pictures(pictures, entries, media@, all, i as nat)),
        decreases items.len() - i,
    {
        let item: &MediaItem = items[i];
        assert(items@.unref()[i as int] == *items@[i as int]);
        if !has_picture(&sources, media, item.id, Ghost(entries)) {
            let value: Json = media_path_value(&item.path);
            let key: String = decimal(item.id.get());
            proof {
                paths_grow(
                    o@,
                    with_spare_pictures(pictures, entries, media@, all, i as nat),
                    key@,
                    value,
                    item.path@,
                );
            }
            let _ = o.insert(key, value);
        }
        i = i + 1;
    }
    Json::Object(o)
}

fn has_picture(
    sources: &Vec<&SourceIdentity>,
    media: &MediaLibrary,
    id: MediaId,
    Ghost(entries): Ghost<Seq<(Seq<char>, SourceIdentity)>>,
) -> (r: bool)
    requires
        sources@.len() == entries.len(),
        forall|j: int| 0 <= j < sources@.len() ==> *(#[trigger] sources@[j]) == entries[j].1,
    ensures
        r == is_pictured(entries, media@, id),
{
    if media.item(id).is_none() {
        return false;
    }
    let mut i: usize = 0;
    while i < sources.len()
        invariant
            i <= sources.len(),
            sources@.len() == entries.len(),
            find_item(media@.items, id) is Some,
            forall|j: int| 0 <= j < sources@.len() ==> *(#[trigger] sources@[j]) == entries[j].1,
            forall|j: int| 0 <= j < i ==> (#[trigger] entries[j]).1.media_id != Some(id),
        decreases sources.len() - i,
    {
        assert(*sources@[i as int] == entries[i as int].1);
        if let Some(other) = sources[i].media_id {
            if other.0 == id.0 {
                return true;
            }
        }
        i = i + 1;
    }
    false
}

/// The selected target as a document holds it.
pub open spec fn is_selection(value: Json, selected: Option<MediaId>) -> bool {
    match selected {
        Some(id) => value.text() == Some(numeral(id.0 as nat)),
        None => value == Json::Bool(false),
    }
}

fn selection_value(media: &MediaLibrary) -> (r: Json)
    ensures
        is_selection(r, media@.target),
{
    match media.selected(MediaRole::Target) {
        Some(id) => Json::Text(decimal(id.get())),
        None => Json::Bool(false),
    }
}

/// A directory as a document holds it.
pub open spec fn is_directory(value: Json, directory: Option<Seq<char>>) -> bool {
    match directory {
        Some(path) => value.text() == Some(path),
        None => value is Null,
    }
}

fn directory_value(media: &MediaLibrary) -> (r: Json)
    ensures
        is_directory(r, media@.directory),
{
    match media.last_directory() {
        Some(directory) => Json::Text(directory.clone()),
        None => Json::Null,
    }
}

/// What a marker has for faces, as a document holds it. Where it has nothing for single faces,
/// its own values stand for all of them.
pub open spec fn is_marker_parameters(
    value: Json,
    marker: Marker,
    catalog: Seq<ControlSpec>,
) -> bool {
    &&& value matches Json::Object(o)
    &&& ascending(o.pairs())
    &&& if marker.faces.dom() == Set::<Seq<char>>::empty() {
        &&& o@.dom() == set!["default"@]
        &&& is_object(o@["default"@], parameters_of(marker.controls, catalog))
    } else {
        &&& o@.dom() == marker.faces.dom()
        &&& forall|id: Seq<char>| #[trigger]
            marker.faces.dom().contains(id) ==> is_object(
                o@[id],
                parameters_of(marker.faces[id], catalog),
            )
    }
}

/// A marker as a document holds it.
pub open spec fn is_marker(value: Json, marker: Marker, catalog: Seq<ControlSpec>) -> bool {
    &&& value matches Json::Object(o)
    &&& o@.dom() == set!["parameters"@, "control"@]
    &&& is_marker_parameters(o@["parameters"@], marker, catalog)
    &&& is_object(
        o@["control"@],
        scope_json(marker.controls, ControlScope::Settings, catalog),
    )
}

fn marker_parameters_value(marker: &EditorMarker, catalog: &[ControlSpec]) -> (r: Json)
    ensures
        is_marker_parameters(r, marker@, catalog@),
{
    let keys: Vec<String> = marker.face_controls.keys();
    let ghost faces = marker.face_controls@;
    let mut o: TextMap<Json> = TextMap::new();
    proof {
        assert(marker@.faces.dom() =~= faces.dom());
    }
    if marker.face_controls.is_empty() {
        let _ = o.insert("default".to_owned(), parameters_value(&marker.controls, catalog));
        proof {
            assert(o@.dom() =~= set!["default"@]);
        }
        return Json::Object(o);
    }
    let mut i: usize = 0;
    while i < keys.len()
        invariant
            i <= keys.len(),
            faces == marker.face_controls@,
            ascending(o.pairs()),
            marker@.faces.dom() == faces.dom(),
            forall|key: Seq<char>| #[trigger]
                faces.dom().contains(key) <==> exists|j: int|
                    0 <= j < keys@.len() && (#[trigger] keys@[j])@ == key,
            forall|key: Seq<char>| #[trigger]
                o@.dom().contains(key) <==> exists|j: int|
                    0 <= j < i && (#[trigger] keys@[j])@ == key,
            forall|key: Seq<char>| #[trigger]
                o@.dom().contains(key) ==> is_object(
                    o@[key],
                    parameters_of(marker@.faces[key], catalog@),
                ),
        decreases keys.len() - i,
    {
        let key: &String = &keys[i];
        assert(faces.dom().contains(keys@[i as int]@));
        if let Some(controls) = marker.face_controls.get(key.as_str()) {
            let ghost before = o@;
            let value: Json = parameters_value(controls, catalog);
            let _ = o.insert(key.clone(), value);
            proof {
                assert(marker@.faces[key@] == controls@);
                assert forall|k: Seq<char>| #[trigger] o@.dom().contains(k) <==> exists|j: int|
                    0 <= j < i + 1 && (#[trigger] keys@[j])@ == k by {
                    assert(before.dom().contains(k) <==> exists|j: int|
                        0 <= j < i && (#[trigger] keys@[j])@ == k);
                    assert(keys@[i as int]@ == key@);
                }
                assert forall|k: Seq<char>| #[trigger] o@.dom().contains(k) implies is_object(
                    o@[k],
                    parameters_of(marker@.faces[k], catalog@),
                ) by {
                    if k != key@ {
                        assert(before.dom().contains(k));
                    }
                }
            }
        }
        i = i + 1;
    }
    proof {
        assert forall|key: Seq<char>| #[trigger] o@.dom().contains(key)
            <==> marker@.faces.dom().contains(key) by {
            assert(faces.dom().contains(key) <==> marker@.faces.dom().contains(key));
        }
        assert(o@.dom() =~= marker@.faces.dom());
    }
    Json::Object(o)
}

proof fn marker_keys_differ()
    ensures
        "parameters"@ != "control"@,
{
    reveal_strlit("parameters");
    reveal_strlit("control");
    assert("parameters"@.len() == 10);
    assert("control"@.len() == 7);
}

fn marker_value(marker: &EditorMarker, catalog: &[ControlSpec]) -> (r: Json)
    ensures
        is_marker(r, marker@, catalog@),
{
    let mut o: TextMap<Json> = TextMap::new();
    let _ = o.insert("parameters".to_owned(), marker_parameters_value(marker, catalog));
    let _ = o.insert("control".to_owned(), settings_value(&marker.controls, catalog));
    proof {
        marker_keys_differ();
        assert(o@.dom() =~= set!["parameters"@, "control"@]);
    }
    Json::Object(o)
}

/// Markers as a document holds them, by the digits of their frames.
pub open spec fn are_markers(
    o: Map<Seq<char>, Json>,
    markers: Map<u64, Marker>,
    catalog: Seq<ControlSpec>,
) -> bool {
    &&& forall|key: Seq<char>| #[trigger]
        o.dom().contains(key) <==> exists|frame: u64| #[trigger]
            markers.dom().contains(frame) && key == numeral(frame as nat)
    &&& forall|frame: u64| #[trigger]
        markers.dom().contains(frame) ==> is_marker(
            o[numeral(frame as nat)],
            markers[frame],
            catalog,
        )
}

fn markers_value(timeline: &EditorTimeline, catalog: &[ControlSpec]) -> (r: Json)
    ensures
        r matches Json::Object(o) && ascending(o.pairs()) && are_markers(o@, timeline@.markers, catalog@),
{
    let frames: Vec<u64> = timeline.markers();
    let ghost markers = timeline@.markers;
    let mut o: TextMap<Json> = TextMap::new();
    let mut i: usize = 0;
    while i < frames.len()
        invariant
            i <= frames.len(),
            markers == timeline@.markers,
            ascending(o.pairs()),
            forall|a: int, b: int| 0 <= a < b < frames@.len() ==> frames@[a] < frames@[b],
            forall|k: u64| frames@.contains(k) <==> #[trigger] markers.dom().contains(k),
            forall|key: Seq<char>| #[trigger]
                o@.dom().contains(key) <==> exists|j: int|
                    0 <= j < i && key == numeral(#[trigger] frames@[j] as nat),
            forall|j: int|
                0 <= j < i ==> is_marker(
                    o@[numeral(#[trigger] frames@[j] as nat)],
                    markers[frames@[j]],
                    catalog@,
                ),
        decreases frames.len() - i,
    {
        let frame: u64 = frames[i];
        proof {
            assert(frames@.contains(frame));
            assert(markers.dom().contains(frame));
        }
        if let Some(marker) = timeline.marker_at(frame) {
            let ghost before = o@;
            let value: Json = marker_value(marker, catalog);
            let _ = o.insert(decimal(frame), value);
            proof {
                assert forall|key: Seq<char>| #[trigger] o@.dom().contains(key) <==> exists|j: int|
                    0 <= j < i + 1 && key == numeral(#[trigger] frames@[j] as nat) by {
                    assert(before.dom().contains(key) <==> exists|j: int|
                        0 <= j < i && key == numeral(#[trigger] frames@[j] as nat));
                    assert(frames@[i as int] == frame);
                }
                assert forall|j: int| 0 <= j < i + 1 implies is_marker(
                    o@[numeral(#[trigger] frames@[j] as nat)],
                    markers[frames@[j]],
                    catalog@,
                ) by {
                    if j < i {
                        assert(frames@[j] < frames@[i as int]);
                        if numeral(frames@[j] as nat) == numeral(frame as nat) {
                            numerals_are_distinct(frames@[j] as nat, frame as nat);
                        }
                    }
                }
            }
        }
        i = i + 1;
    }
    proof {
        assert forall|key: Seq<char>| #[trigger] o@.dom().contains(key) <==> exists|frame: u64|
            #[trigger] markers.dom().contains(frame) && key == numeral(frame as nat) by {
            if o@.dom().contains(key) {
                let j = choose|j: int|
                    0 <= j < frames@.len() && key == numeral(#[trigger] frames@[j] as nat);
                assert(frames@.contains(frames@[j]));
                assert(markers.dom().contains(frames@[j]));
            }
            if exists|frame: u64| #[trigger]
                markers.dom().contains(frame) && key == numeral(frame as nat) {
                let frame = choose|frame: u64| #[trigger]
                    markers.dom().contains(frame) && key == numeral(frame as nat);
                assert(frames@.contains(frame));
                let j = choose|j: int| 0 <= j < frames@.len() && frames@[j] == frame;
                assert(frames@[j] == frame);
            }
        }
        assert forall|frame: u64| #[trigger] markers.dom().contains(frame) implies is_marker(
            o@[numeral(frame as nat)],
            markers[frame],
            catalog@,
        ) by {
            assert(frames@.contains(frame));
            let j = choose|j: int| 0 <= j < frames@.len() && frames@[j] == frame;
            assert(frames@[j] == frame);
        }
    }
    Json::Object(o)
}

/// A merged identity as a document holds it.
pub open spec fn is_identity(value: Json, merged: Merged) -> bool {
    &&& value matches Json::Object(o)
    &&& o@.dom() == set!["embedding_name"@, "embedding_store"@]
    &&& o@["embedding_name"@].text() == Some(merged.name)
    &&& is_store(o@["embedding_store"@], merged.embeddings)
}

/// The first `n` merged identities by their ids.
pub open spec fn identities_by_id(
    entries: Seq<(Seq<char>, MergedIdentity)>,
    n: nat,
) -> Map<Seq<char>, Merged>
    decreases n,
{
    if n == 0 {
        Map::empty()
    } else {
        identities_by_id(entries, (n - 1) as nat).insert(entries[n - 1].1.id@, entries[n - 1].1@)
    }
}

/// Merged identities as a document holds them.
pub open spec fn holds_identities(
    o: Map<Seq<char>, Json>,
    identities: Map<Seq<char>, Merged>,
) -> bool {
    &&& o.dom() == identities.dom()
    &&& forall|id: Seq<char>| #[trigger]
        identities.dom().contains(id) ==> is_identity(o[id], identities[id])
}

proof fn identity_keys_differ()
    ensures
        "embedding_name"@ != "embedding_store"@,
{
    reveal_strlit("embedding_name");
    reveal_strlit("embedding_store");
    assert("embedding_name"@.len() == 14);
    assert("embedding_store"@.len() == 15);
}

/// The numbers of a merged identity are those that `widen` gives.
pub open spec fn identity_given<W: Fn(Single) -> Double>(value: Json, widen: W) -> bool {
    value matches Json::Object(o) ==> store_given(o@["embedding_store"@], widen)
}

fn identity_value<W: Fn(Single) -> Double>(merged: &MergedIdentity, widen: &W) -> (r: Json)
    requires
        forall|s: Single| call_requires(*widen, (s,)),
    ensures
        is_identity(r, merged@),
        identity_given(r, *widen),
{
    let mut o: TextMap<Json> = TextMap::new();
    let _ = o.insert("embedding_name".to_owned(), Json::Text(merged.name.clone()));
    let _ = o.insert("embedding_store".to_owned(), embedding_store_value(&merged.embeddings, widen));
    proof {
        identity_keys_differ();
        assert(o@.dom() =~= set!["embedding_name"@, "embedding_store"@]);
    }
    Json::Object(o)
}

/// The numbers of all members of an object are those that `widen` gives.
pub open spec fn identities_given<W: Fn(Single) -> Double>(value: Json, widen: W) -> bool {
    value matches Json::Object(o) ==> forall|id: Seq<char>| #[trigger]
        o@.dom().contains(id) ==> identity_given(o@[id], widen)
}

fn identities_value<W: Fn(Single) -> Double>(faces: &FaceWorkspace, widen: &W) -> (r: Json)
    requires
        forall|s: Single| call_requires(*widen, (s,)),
    ensures
        identities_given(r, *widen),
        r matches Json::Object(o) && ascending(o.pairs()) && holds_identities(
            o@,
            identities_by_id(faces.merged_entries(), faces.merged_entries().len()),
        ),
{
    let merged: Vec<&MergedIdentity> = faces.merged_identities();
    let ghost entries = faces.merged_entries();
    let mut o: TextMap<Json> = TextMap::new();
    let mut i: usize = 0;
    proof {
        assert(o@.dom() =~= Map::<Seq<char>, Merged>::empty().dom());
    }
    while i < merged.len()
        invariant
            i <= merged.len(),
            merged@.len() == entries.len(),
            forall|j: int| 0 <= j < merged@.len() ==> *(#[trigger] merged@[j]) == entries[j].1,
            ascending(o.pairs()),
            holds_identities(o@, identities_by_id(entries, i as nat)),
            forall|s: Single| call_requires(*widen, (s,)),
            forall|id: Seq<char>| #[trigger]
                o@.dom().contains(id) ==> identity_given(o@[id], *widen),
        decreases merged.len() - i,
    {
        let identity: &MergedIdentity = merged[i];
        assert(*identity == entries[i as int].1);
        let ghost before = identities_by_id(entries, i as nat);
        let value: Json = identity_value(identity, widen);
        let _ = o.insert(identity.id.clone(), value);
        proof {
            assert(o@.dom() =~= before.insert(identity.id@, identity@).dom());
        }
        i = i + 1;
    }
    Json::Object(o)
}

/// A list of texts as a document holds it.
pub open spec fn is_list(value: Json, list: Seq<Seq<char>>) -> bool {
    &&& value matches Json::Array(elements)
    &&& elements@.len() == list.len()
    &&& forall|i: int|
        0 <= i < list.len() ==> (#[trigger] elements@[i]).text() == Some(list[i])
}

fn list_value(set: &TextSet) -> (r: Json)
    ensures
        is_list(r, listed(set@.dom())),
{
    let keys: Vec<String> = set.keys();
    let ghost list = listed(set@.dom());
    let mut elements: Vec<Json> = Vec::new();
    let mut i: usize = 0;
    proof {
        assert(keys@.map_values(|s: String| s@).len() == keys@.len());
    }
    while i < keys.len()
        invariant
            i <= keys.len(),
            keys@.map_values(|s: String| s@) == list,
            keys@.len() == list.len(),
            elements@.len() == i,
            forall|j: int| 0 <= j < i ==> (#[trigger] elements@[j]).text() == Some(list[j]),
        decreases keys.len() - i,
    {
        assert(keys@.map_values(|s: String| s@)[i as int] == keys@[i as int]@);
        elements.push(Json::Text(keys[i].clone()));
        i = i + 1;
    }
    Json::Array(elements)
}

/// The picture of a face as a document holds it: no rows, where there is none.
pub open spec fn is_optional_crop(value: Json, crop: Option<Crop>) -> bool {
    match crop {
        Some(crop) => is_crop(value, crop),
        None => value matches Json::Array(rows) && rows@.len() == 0,
    }
}

/// A target face as a document holds it.
pub open spec fn is_target_face(value: Json, target: Target, catalog: Seq<ControlSpec>) -> bool {
    &&& value matches Json::Object(o)
    &&& o@.dom() == set![
        "cropped_face"@,
        "embedding_store"@,
        "parameters"@,
        "control"@,
        "assigned_input_faces"@,
        "assigned_merged_embeddings"@,
        "assigned_input_embedding"@,
    ]
    &&& is_optional_crop(o@["cropped_face"@], target.crop)
    &&& is_store(o@["embedding_store"@], target.embeddings)
    &&& is_object(o@["parameters"@], parameters_of(target.controls, catalog))
    &&& is_object(
        o@["control"@],
        scope_json(target.controls, ControlScope::Settings, catalog),
    )
    &&& is_list(o@["assigned_input_faces"@], listed(target.sources))
    &&& is_list(o@["assigned_merged_embeddings"@], listed(target.merged))
    &&& is_store(o@["assigned_input_embedding"@], target.cache)
}

/// A picture has pixels.
pub open spec fn has_width(crop: Option<FaceCrop>) -> bool {
    crop matches Some(picture) ==> picture.width > 0
}

proof fn face_keys_differ()
    ensures
        "cropped_face"@.len() == 12,
        "embedding_store"@.len() == 15,
        "parameters"@.len() == 10,
        "control"@.len() == 7,
        "assigned_input_faces"@.len() == 20,
        "assigned_merged_embeddings"@.len() == 26,
        "assigned_input_embedding"@.len() == 24,
{
    reveal_strlit("cropped_face");
    reveal_strlit("embedding_store");
    reveal_strlit("parameters");
    reveal_strlit("control");
    reveal_strlit("assigned_input_faces");
    reveal_strlit("assigned_merged_embeddings");
    reveal_strlit("assigned_input_embedding");
}

fn crop_value<B: Fn(u64) -> Double>(crop: &Option<FaceCrop>, precise: &B) -> (r: Json)
    requires
        has_width(*crop),
        forall|n: u64| call_requires(*precise, (n,)),
    ensures
        crop_given(r, *precise),
        is_optional_crop(r, optional_crop(*crop)),
{
    match crop {
        Some(crop) => face_crop_value(crop, precise),
        None => Json::Array(Vec::new()),
    }
}

/// The numbers of a target face are those that `precise` and `widen` give.
pub open spec fn target_given<B: Fn(u64) -> Double, W: Fn(Single) -> Double>(
    value: Json,
    precise: B,
    widen: W,
) -> bool {
    value matches Json::Object(o) ==> {
        &&& crop_given(o@["cropped_face"@], precise)
        &&& store_given(o@["embedding_store"@], widen)
        &&& store_given(o@["assigned_input_embedding"@], widen)
    }
}

fn target_face_value<B: Fn(u64) -> Double, W: Fn(Single) -> Double>(
    target: &TargetFace,
    catalog: &[ControlSpec],
    precise: &B,
    widen: &W,
) -> (r: Json)
    requires
        has_width(target.crop),
        forall|n: u64| call_requires(*precise, (n,)),
        forall|s: Single| call_requires(*widen, (s,)),
    ensures
        target_given(r, *precise, *widen),
        is_target_face(r, target@, catalog@),
{
    let mut o: TextMap<Json> = TextMap::new();
    let _ = o.insert("cropped_face".to_owned(), crop_value(&target.crop, precise));
    let _ = o.insert("embedding_store".to_owned(), embedding_store_value(&target.embeddings, widen));
    let _ = o.insert("parameters".to_owned(), parameters_value(&target.controls, catalog));
    let _ = o.insert("control".to_owned(), settings_value(&target.controls, catalog));
    let _ = o.insert("assigned_input_faces".to_owned(), list_value(&target.assigned_sources));
    let _ = o.insert(
        "assigned_merged_embeddings".to_owned(),
        list_value(&target.assigned_merged),
    );
    let _ = o.insert(
        "assigned_input_embedding".to_owned(),
        embedding_store_value(&target.assigned_embedding_cache, widen),
    );
    proof {
        face_keys_differ();
        assert(o@.dom() =~= set![
            "cropped_face"@,
            "embedding_store"@,
            "parameters"@,
            "control"@,
            "assigned_input_faces"@,
            "assigned_merged_embeddings"@,
            "assigned_input_embedding"@,
        ]);
    }
    Json::Object(o)
}

/// The first `n` target faces by their ids.
pub open spec fn targets_by_id(
    entries: Seq<(Seq<char>, TargetFace)>,
    n: nat,
) -> Map<Seq<char>, Target>
    decreases n,
{
    if n == 0 {
        Map::empty()
    } else {
        targets_by_id(entries, (n - 1) as nat).insert(entries[n - 1].1.id@, entries[n - 1].1@)
    }
}

/// Target faces as a document holds them.
pub open spec fn holds_targets(
    o: Map<Seq<char>, Json>,
    targets: Map<Seq<char>, Target>,
    catalog: Seq<ControlSpec>,
) -> bool {
    &&& o.dom() == targets.dom()
    &&& forall|id: Seq<char>| #[trigger]
        targets.dom().contains(id) ==> is_target_face(o[id], targets[id], catalog)
}

/// All pictures of faces have pixels.
pub open spec fn pictures_have_width(entries: Seq<(Seq<char>, TargetFace)>) -> bool {
    forall|i: int| 0 <= i < entries.len() ==> has_width((#[trigger] entries[i]).1.crop)
}

/// The numbers of all target faces are those that `precise` and `widen` give.
pub open spec fn targets_given<B: Fn(u64) -> Double, W: Fn(Single) -> Double>(
    value: Json,
    precise: B,
    widen: W,
) -> bool {
    value matches Json::Object(o) ==> forall|id: Seq<char>| #[trigger]
        o@.dom().contains(id) ==> target_given(o@[id], precise, widen)
}

fn target_faces_value<B: Fn(u64) -> Double, W: Fn(Single) -> Double>(
    faces: &FaceWorkspace,
    catalog: &[ControlSpec],
    precise: &B,
    widen: &W,
) -> (r: Json)
    requires
        pictures_have_width(faces.target_entries()),
        forall|n: u64| call_requires(*precise, (n,)),
        forall|s: Single| call_requires(*widen, (s,)),
    ensures
        targets_given(r, *precise, *widen),
        r matches Json::Object(o) && ascending(o.pairs()) && holds_targets(
            o@,
            targets_by_id(faces.target_entries(), faces.target_entries().len()),
            catalog@,
        ),
{
    let targets: Vec<&TargetFace> = faces.targets();
    let ghost entries = faces.target_entries();
    let mut o: TextMap<Json> = TextMap::new();
    let mut i: usize = 0;
    proof {
        assert(o@.dom() =~= Map::<Seq<char>, Target>::empty().dom());
    }
    while i < targets.len()
        invariant
            i <= targets.len(),
            targets@.len() == entries.len(),
            pictures_have_width(entries),
            forall|j: int| 0 <= j < targets@.len() ==> *(#[trigger] targets@[j]) == entries[j].1,
            ascending(o.pairs()),
            holds_targets(o@, targets_by_id(entries, i as nat), catalog@),
            forall|n: u64| call_requires(*precise, (n,)),
            forall|s: Single| call_requires(*widen, (s,)),
            forall|id: Seq<char>| #[trigger]
                o@.dom().contains(id) ==> target_given(o@[id], *precise, *widen),
        decreases targets.len() - i,
    {
        let target: &TargetFace = targets[i];
        assert(*target == entries[i as int].1);
        let ghost before = targets_by_id(entries, i as nat);
        let value: Json = target_face_value(target, catalog, precise, widen);
        let _ = o.insert(target.id.clone(), value);
        proof {
            assert(o@.dom() =~= before.insert(target.id@, target@).dom());
        }
        i = i + 1;
    }
    Json::Object(o)
}

/// The members of a CrossSwap document.
pub open spec fn document_keys() -> Set<Seq<char>> {
    set![
        "selected_media_id"@,
        "target_medias_data"@,
        "target_faces_data"@,
        "embeddings_data"@,
        "input_faces_data"@,
        "markers"@,
        "control"@,
        "last_target_media_folder_path"@,
        "last_input_media_folder_path"@,
        "loaded_embedding_filename"@,
        "current_widget_parameters"@,
    ]
}

/// A workspace as a CrossSwap document holds it, every object in order.
pub open spec fn is_document(
    value: Json,
    document: WorkspaceDocument,
    catalog: Seq<ControlSpec>,
) -> bool {
    let sources = document.faces.source_entries();
    let merged = document.faces.merged_entries();
    let targets = document.faces.target_entries();
    let media = document.media@;
    &&& value matches Json::Object(o)
    &&& o@.dom() == document_keys()
    &&& is_selection(o@["selected_media_id"@], media.target)
    &&& are_target_media(o@["target_medias_data"@], of_role(media.items, MediaRole::Target))
    &&& o@["target_faces_data"@] matches Json::Object(faces) && ascending(
        faces.pairs(),
    ) && holds_targets(
        faces@,
        targets_by_id(targets, targets.len()),
        catalog,
    )
    &&& o@["embeddings_data"@] matches Json::Object(identities) && ascending(
        identities.pairs(),
    ) && holds_identities(
        identities@,
        identities_by_id(merged, merged.len()),
    )
    &&& o@["input_faces_data"@] matches Json::Object(paths) && ascending(
        paths.pairs(),
    ) && holds_paths(
        paths@,
        all_pictures(sources, media),
    )
    &&& o@["markers"@] matches Json::Object(markers) && ascending(
        markers.pairs(),
    ) && are_markers(
        markers@,
        document.timeline@.markers,
        catalog,
    )
    &&& is_control(
        o@["control"@],
        document.controls@,
        document@.output,
        catalog,
    )
    &&& is_directory(o@["last_target_media_folder_path"@], media.directory)
    &&& is_directory(o@["last_input_media_folder_path"@], media.directory)
    &&& o@["loaded_embedding_filename"@].text() == Some(Seq::<char>::empty())
    &&& is_object(
        o@["current_widget_parameters"@],
        parameters_of(document.controls@, catalog),
    )
}

proof fn document_keys_differ()
    ensures
        "selected_media_id"@.len() == 17,
        "selected_media_id"@[0] == 's',
        "target_medias_data"@.len() == 18,
        "target_faces_data"@.len() == 17,
        "target_faces_data"@[0] == 't',
        "embeddings_data"@.len() == 15,
        "input_faces_data"@.len() == 16,
        "markers"@.len() == 7,
        "markers"@[0] == 'm',
        "control"@.len() == 7,
        "control"@[0] == 'c',
        "last_target_media_folder_path"@.len() == 29,
        "last_input_media_folder_path"@.len() == 28,
        "loaded_embedding_filename"@.len() == 25,
        "loaded_embedding_filename"@[0] == 'l',
        "current_widget_parameters"@.len() == 25,
        "current_widget_parameters"@[0] == 'c',
{
    reveal_strlit("selected_media_id");
    reveal_strlit("target_medias_data");
    reveal_strlit("target_faces_data");
    reveal_strlit("embeddings_data");
    reveal_strlit("input_faces_data");
    reveal_strlit("markers");
    reveal_strlit("control");
    reveal_strlit("last_target_media_folder_path");
    reveal_strlit("last_input_media_folder_path");
    reveal_strlit("loaded_embedding_filename");
    reveal_strlit("current_widget_parameters");
}

/// A valid workspace and the CrossSwap document that it is written as.
pub open spec fn is_exported(
    document: WorkspaceDocument,
    value: Json,
    catalog: Seq<ControlSpec>,
) -> bool {
    &&& ascending(document.controls.entries())
    &&& complete(document.controls.entries(), catalog)
    &&& sound_faces(document.faces, catalog, Ok(()))
    &&& is_document(value, document, catalog)
}

/// The pixels and embeddings of a document are the double-precision numbers that `precise` and `widen`
/// give.
pub open spec fn document_given<B: Fn(u64) -> Double, W: Fn(Single) -> Double>(
    value: Json,
    precise: B,
    widen: W,
) -> bool {
    value matches Json::Object(o) ==> {
        &&& identities_given(o@["embeddings_data"@], widen)
        &&& targets_given(o@["target_faces_data"@], precise, widen)
    }
}

impl WorkspaceDocument {
    /// The workspace as a CrossSwap document holds it. Controls and faces have to be valid. `precise`
    /// and `widen` give whole and single-precision numbers in double precision.
    pub fn to_crossswap_value<B: Fn(u64) -> Double, W: Fn(Single) -> Double>(
        &self,
        catalog: &[ControlSpec],
        precise: &B,
        widen: &W,
    ) -> (r: Result<Json, WorkspaceError>)
        requires
            pictures_have_width(self.faces.target_entries()),
            forall|n: u64| call_requires(*precise, (n,)),
            forall|s: Single| call_requires(*widen, (s,)),
        ensures
            match r {
                Ok(value) => is_exported(*self, value, catalog@) && document_given(
                    value,
                    *precise,
                    *widen,
                ),
                Err(e) => if !complete(self.controls.entries(), catalog@) {
                    e matches WorkspaceError::Controls(inner) && incompleteness(
                        inner,
                        self.controls.entries(),
                        catalog@,
                    )
                } else {
                    sound_faces(self.faces, catalog@, Err(e))
                },
            },
    {
        if let Err(e) = self.check_content(catalog) {
            return Err(e);
        }
        let mut o: TextMap<Json> = TextMap::new();
        let _ = o.insert("selected_media_id".to_owned(), selection_value(&self.media));
        let _ = o.insert("target_medias_data".to_owned(), target_media_value(&self.media));
        let _ = o.insert(
            "target_faces_data".to_owned(),
            target_faces_value(&self.faces, catalog, precise, widen),
        );
        let _ = o.insert("embeddings_data".to_owned(), identities_value(&self.faces, widen));
        let _ = o.insert(
            "input_faces_data".to_owned(),
            sources_value(&self.faces, &self.media),
        );
        let _ = o.insert("markers".to_owned(), markers_value(&self.timeline, catalog));
        let _ = o.insert(
            "control".to_owned(),
            control_value(&self.controls, &self.output_directory, catalog),
        );
        let _ = o.insert(
            "last_target_media_folder_path".to_owned(),
            directory_value(&self.media),
        );
        let _ = o.insert("last_input_media_folder_path".to_owned(), directory_value(&self.media));
        let _ = o.insert("loaded_embedding_filename".to_owned(), Json::Text(String::new()));
        let _ = o.insert(
            "current_widget_parameters".to_owned(),
            parameters_value(&self.controls, catalog),
        );
        proof {
            document_keys_differ();
            assert(o@.dom() =~= document_keys());
        }
        Ok(Json::Object(o))
    }
}

} // verus!
