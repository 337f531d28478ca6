//! Reading CrossSwap workspaces.

use vstd::prelude::*;

use crate::controls::plain_json_applied;
use crate::controls::{ControlSpec, ControlState, ControlStateError, ControlValue};
use crate::embeddings::embedded;
use crate::embeddings::EmbeddingStore;
use crate::faces::{
    merged_assigned, optional_crop, pending_added, source_assigned, store_added, target_added,
    texts, Faces, Target,
};
use crate::faces::{FaceCrop, FaceWorkspace, FaceWorkspaceError};
use crate::json::Json;
use crate::media::{media_added, media_selected, Library};
use crate::media::{MediaError, MediaId, MediaLibrary, MediaRole};
use crate::number::{Single, THIRTY};
use crate::ordered::TextMap;
use crate::paths::file_stem;
use crate::paths::stem_of;
use crate::text::parse_number;
use crate::text::whole_number;
use crate::timeline::{reached, Marker, Timeline};
use crate::timeline::EditorTimeline;
use crate::trace::{reaching, run_begins, run_ends, run_grows, runs};
use crate::workspace::document::{content, opened, Document};
use crate::workspace::document::{WorkspaceDocument, WorkspaceError};
use crate::workspace::values::{
    array_member, crop_read, identifier, listed_texts, member, object_member, optional_json,
    some_store_read, store_read, text_member,
};
use crate::workspace::values::{
    get_array, get_object, get_text, legacy_id, parse_embedding_store,
    parse_embedding_store_or_empty, parse_face_crop, string_array,
};

verus! {

/// The elements of an array, where there is one.
pub open spec fn elements_of(array: Option<Vec<Json>>) -> Seq<Json> {
    match array {
        Some(a) => a@,
        None => Seq::empty(),
    }
}

/// The entries of an object, where there is one, in ascending order.
pub open spec fn entries_of(object: Option<TextMap<Json>>) -> Seq<(Seq<char>, Json)> {
    match object {
        Some(o) => o.pairs(),
        None => Seq::empty(),
    }
}

/// Target media that were read, and the identifiers that the document has for them.
#[verifier::ext_equal]
pub ghost struct TargetsRead {
    pub media: Library,
    pub ids: Map<Seq<char>, MediaId>,
}

/// The identifier of a member, where it has one.
pub open spec fn identifier_member(object: TextMap<Json>, key: Seq<char>) -> Option<Seq<char>> {
    match member(object, key) {
        Some(value) => identifier(value),
        None => None,
    }
}

/// A target medium is read. What names no path is passed over.
pub open spec fn target_medium_read(
    before: TargetsRead,
    item: Json,
    r: Result<TargetsRead, WorkspaceError>,
) -> bool {
    match item {
        Json::Object(o) => match text_member(o, "media_path"@) {
            Some(path) => exists|after: Library, added: Result<MediaId, MediaError>|
                {
                    &&& #[trigger] media_added(before.media, MediaRole::Target, path, after, added)
                    &&& match added {
                        Err(e) => r == Err::<TargetsRead, WorkspaceError>(WorkspaceError::Media(e)),
                        Ok(id) => r == Ok::<TargetsRead, WorkspaceError>(
                            TargetsRead {
                                media: after,
                                ids: match identifier_member(o, "media_id"@) {
                                    Some(name) => before.ids.insert(name, id),
                                    None => before.ids,
                                },
                            },
                        ),
                    }
                },
            None => r == Ok::<TargetsRead, WorkspaceError>(before),
        },
        _ => r == Ok::<TargetsRead, WorkspaceError>(before),
    }
}

/// Reading one target medium after the other.
pub open spec fn target_media_step() -> spec_fn(
    TargetsRead,
    Json,
    Result<TargetsRead, WorkspaceError>,
) -> bool {
    |before: TargetsRead, item: Json, r: Result<TargetsRead, WorkspaceError>|
        target_medium_read(before, item, r)
}

fn read_identifier(object: &TextMap<Json>, key: &str) -> (r: Option<String>)
    ensures
        match r {
            Some(id) => identifier_member(*object, key@) == Some(id@),
            None => identifier_member(*object, key@) is None,
        },
{
    match object.get(key) {
        Some(value) => legacy_id(value),
        None => None,
    }
}

fn read_target_medium(media: &mut MediaLibrary, ids: &mut TextMap<MediaId>, item: &Json) -> (r:
    Result<(), WorkspaceError>)
    ensures
        target_medium_read(
            TargetsRead { media: old(media)@, ids: old(ids)@ },
            *item,
            reaching(r, TargetsRead { media: final(media)@, ids: final(ids)@ }),
        ),
{
    let object: &TextMap<Json> = match item.as_object() {
        Some(object) => object,
        None => return Ok(()),
    };
    let path: &String = match get_text(object, "media_path") {
        Some(path) => path,
        None => return Ok(()),
    };
    let added = media.add(MediaRole::Target, path.clone());
    let ghost o = item->Object_0;
    proof {
        let given = text_member(o, "media_path"@)->0;
        assert(media_added(old(media)@, MediaRole::Target, given, media@, added));
    }
    match added {
        Err(e) => Err(WorkspaceError::Media(e)),
        Ok(id) => {
            let name: Option<String> = read_identifier(object, "media_id");
            assert(name is Some == identifier_member(o, "media_id"@) is Some);
            if let Some(name) = name {
                let _ = ids.insert(name, id);
            }
            Ok(())
        },
    }
}

/// Source media that were read, and the identities for them.
#[verifier::ext_equal]
pub ghost struct SourcesRead {
    pub media: Library,
    pub faces: Faces,
}

/// The name of the identity in the picture at `path`.
pub open spec fn source_name(path: Seq<char>, id: Seq<char>) -> Seq<char> {
    match stem_of(path) {
        Some(stem) => stem,
        None => id,
    }
}

/// A source medium is read, and an identity added for it. What names no path is passed over.
pub open spec fn source_medium_read(
    before: SourcesRead,
    entry: (Seq<char>, Json),
    r: Result<SourcesRead, WorkspaceError>,
) -> bool {
    match source_path(entry.1) {
        Some(path) => exists|media: Library, added: Result<MediaId, MediaError>|
            {
                &&& #[trigger] media_added(before.media, MediaRole::Source, path, media, added)
                &&& match added {
                    Err(e) => r == Err::<SourcesRead, WorkspaceError>(WorkspaceError::Media(e)),
                    Ok(id) => exists|faces: Faces, named: Result<(), FaceWorkspaceError>|
                        {
                            &&& #[trigger] pending_added(
                                before.faces,
                                faces,
                                entry.0,
                                source_name(path@, entry.0),
                                Some(id),
                                named,
                            )
                            &&& r == match named {
                                Ok(()) => Ok::<SourcesRead, WorkspaceError>(
                                    SourcesRead { media, faces },
                                ),
                                Err(e) => Err(WorkspaceError::Faces(e)),
                            }
                        },
                }
            },
        None => r == Ok::<SourcesRead, WorkspaceError>(before),
    }
}

/// The path of a source medium.
pub open spec fn source_path(value: Json) -> Option<String> {
    match value {
        Json::Object(o) => text_member(o, "media_path"@),
        _ => None,
    }
}

/// Reading one source medium after the other.
pub open spec fn source_media_step() -> spec_fn(
    SourcesRead,
    (Seq<char>, Json),
    Result<SourcesRead, WorkspaceError>,
) -> bool {
    |before: SourcesRead, entry: (Seq<char>, Json), r: Result<SourcesRead, WorkspaceError>|
        source_medium_read(before, entry, r)
}

fn read_source_medium(
    media: &mut MediaLibrary,
    faces: &mut FaceWorkspace,
    id: &String,
    value: &Json,
) -> (r: Result<(), WorkspaceError>)
    ensures
        source_medium_read(
            SourcesRead { media: old(media)@, faces: old(faces)@ },
            (id@, *value),
            reaching(r, SourcesRead { media: final(media)@, faces: final(faces)@ }),
        ),
{
    let path: &String = match value.as_object() {
        Some(object) => match get_text(object, "media_path") {
            Some(path) => path,
            None => return Ok(()),
        },
        None => return Ok(()),
    };
    let added = media.add(MediaRole::Source, path.clone());
    let ghost given = source_path(*value)->0;
    assert(media_added(old(media)@, MediaRole::Source, given, media@, added));
    match added {
        Err(e) => Err(WorkspaceError::Media(e)),
        Ok(media_id) => {
            let name: String = match file_stem(path.as_str()) {
                Some(stem) => stem,
                None => id.clone(),
            };
            let ghost called = name@;
            let named = faces.add_pending_source(id.clone(), name, Some(media_id));
            proof {
                let entry = (id@, *value);
                assert(called == source_name(given@, entry.0));
                assert(pending_added(
                    old(faces)@,
                    faces@,
                    entry.0,
                    source_name(given@, entry.0),
                    Some(media_id),
                    named,
                ));
            }
            match named {
                Ok(()) => Ok(()),
                Err(e) => Err(WorkspaceError::Faces(e)),
            }
        },
    }
}

/// The target that the document selects is selected.
pub open spec fn selection_read(
    media: Library,
    ids: Map<Seq<char>, MediaId>,
    root: TextMap<Json>,
    r: Result<Library, WorkspaceError>,
) -> bool {
    match identifier_member(root, "selected_media_id"@) {
        Some(name) => if ids.dom().contains(name) {
            exists|after: Library, selected: Result<(), MediaError>|
                {
                    &&& #[trigger] media_selected(
                        media,
                        MediaRole::Target,
                        ids[name],
                        after,
                        selected,
                    )
                    &&& r == match selected {
                        Ok(()) => Ok::<Library, WorkspaceError>(after),
                        Err(e) => Err(WorkspaceError::Media(e)),
                    }
                }
        } else {
            r == Ok::<Library, WorkspaceError>(media)
        },
        None => r == Ok::<Library, WorkspaceError>(media),
    }
}

/// The media of the document are read: targets, sources with their identities, the selection.
pub open spec fn media_read(
    before: Document,
    root: TextMap<Json>,
    r: Result<Document, WorkspaceError>,
) -> bool {
    exists|targets: Result<TargetsRead, WorkspaceError>|
        {
            &&& #[trigger] runs(
                target_media_step(),
                TargetsRead { media: before.media, ids: Map::empty() },
                elements_of(array_member(root, "target_medias_data"@)),
                targets,
            )
            &&& match targets {
                Err(e) => r == Err::<Document, WorkspaceError>(e),
                Ok(found) => sources_read(before, root, found, r),
            }
        }
}

/// The sources of the document are read, and the selection, once its targets were.
pub open spec fn sources_read(
    before: Document,
    root: TextMap<Json>,
    targets: TargetsRead,
    r: Result<Document, WorkspaceError>,
) -> bool {
    exists|sources: Result<SourcesRead, WorkspaceError>|
        {
            &&& #[trigger] runs(
                source_media_step(),
                SourcesRead { media: targets.media, faces: before.faces },
                entries_of(object_member(root, "input_faces_data"@)),
                sources,
            )
            &&& match sources {
                Err(e) => r == Err::<Document, WorkspaceError>(e),
                Ok(found) => exists|selected: Result<Library, WorkspaceError>|
                    {
                        &&& #[trigger] selection_read(found.media, targets.ids, root, selected)
                        &&& r == match selected {
                            Ok(media) => Ok::<Document, WorkspaceError>(
                                Document { media, faces: found.faces, ..before },
                            ),
                            Err(e) => Err(e),
                        }
                    },
            }
        }
}

fn read_targets(document: &mut WorkspaceDocument, ids: &mut TextMap<MediaId>, root: &TextMap<Json>)
    -> (r: Result<(), WorkspaceError>)
    requires
        old(ids)@ == Map::<Seq<char>, MediaId>::empty(),
    ensures
        runs(
            target_media_step(),
            TargetsRead { media: old(document)@.media, ids: Map::empty() },
            elements_of(array_member(*root, "target_medias_data"@)),
            reaching(r, TargetsRead { media: final(document)@.media, ids: final(ids)@ }),
        ),
        final(document)@ == (Document { media: final(document)@.media, ..old(document)@ }),
{
    let ghost step = target_media_step();
    let ghost start = TargetsRead { media: document@.media, ids: Map::empty() };
    let ghost items = elements_of(array_member(*root, "target_medias_data"@));
    proof {
        run_begins(step, start, items);
    }
    if let Some(targets) = get_array(root, "target_medias_data") {
        let mut i: usize = 0;
        while i < targets.len()
            invariant
                i <= targets.len(),
                items == targets@,
                step == target_media_step(),
                start == (TargetsRead { media: old(document)@.media, ids: Map::empty() }),
                runs(
                    step,
                    start,
                    items.take(i as int),
                    Ok(TargetsRead { media: document@.media, ids: ids@ }),
                ),
                document@ == (Document { media: document@.media, ..old(document)@ }),
                items == elements_of(array_member(*root, "target_medias_data"@)),
            decreases targets.len() - i,
        {
            let ghost before = TargetsRead { media: document@.media, ids: ids@ };
            let one = read_target_medium(&mut document.media, ids, &targets[i]);
            let ghost out = reaching(one, TargetsRead { media: document@.media, ids: ids@ });
            proof {
                assert(step(before, items[i as int], out));
                run_grows(step, start, items, i as int, before, out);
            }
            if let Err(e) = one {
                return Err(e);
            }
            i = i + 1;
        }
    }
    proof {
        run_ends::<TargetsRead, Json, WorkspaceError>(
            step,
            start,
            items,
            TargetsRead { media: document@.media, ids: ids@ },
        );
    }
    Ok(())
}

fn read_sources(document: &mut WorkspaceDocument, root: &TextMap<Json>) -> (r: Result<
    (),
    WorkspaceError,
>)
    ensures
        runs(
            source_media_step(),
            SourcesRead { media: old(document)@.media, faces: old(document)@.faces },
            entries_of(object_member(*root, "input_faces_data"@)),
            reaching(
                r,
                SourcesRead { media: final(document)@.media, faces: final(document)@.faces },
            ),
        ),
        final(document)@ == (Document {
            media: final(document)@.media,
            faces: final(document)@.faces,
            ..old(document)@
        }),
{
    let ghost step = source_media_step();
    let ghost start = SourcesRead { media: document@.media, faces: document@.faces };
    let ghost items = entries_of(object_member(*root, "input_faces_data"@));
    proof {
        run_begins(step, start, items);
    }
    if let Some(sources) = get_object(root, "input_faces_data") {
        let n: usize = sources.len();
        let mut i: usize = 0;
        while i < n
            invariant
                i <= n,
                n == items.len(),
                items == sources.pairs(),
                step == source_media_step(),
                start == (SourcesRead {
                    media: old(document)@.media,
                    faces: old(document)@.faces,
                }),
                runs(
                    step,
                    start,
                    items.take(i as int),
                    Ok(SourcesRead { media: document@.media, faces: document@.faces }),
                ),
                document@ == (Document {
                    media: document@.media,
                    faces: document@.faces,
                    ..old(document)@
                }),
                items == entries_of(object_member(*root, "input_faces_data"@)),
            decreases n - i,
        {
            let ghost before = SourcesRead { media: document@.media, faces: document@.faces };
            let one = read_source_medium(
                &mut document.media,
                &mut document.faces,
                sources.key_at(i),
                sources.value_at(i),
            );
            let ghost out = reaching(
                one,
                SourcesRead { media: document@.media, faces: document@.faces },
            );
            proof {
                assert(items[i as int] == (items[i as int].0, items[i as int].1));
                assert(step(before, items[i as int], out));
                run_grows(step, start, items, i as int, before, out);
            }
            if let Err(e) = one {
                return Err(e);
            }
            i = i + 1;
        }
    }
    proof {
        run_ends::<SourcesRead, (Seq<char>, Json), WorkspaceError>(
            step,
            start,
            items,
            SourcesRead { media: document@.media, faces: document@.faces },
        );
    }
    Ok(())
}

fn read_selection(media: &mut MediaLibrary, ids: &TextMap<MediaId>, root: &TextMap<Json>) -> (r:
    Result<(), WorkspaceError>)
    ensures
        selection_read(
            old(media)@,
            ids@,
            *root,
            reaching(r, final(media)@),
        ),
{
    match read_identifier(root, "selected_media_id") {
        None => Ok(()),
        Some(name) => match ids.get(name.as_str()) {
            None => Ok(()),
            Some(id) => {
                let selected = media.select(MediaRole::Target, *id);
                assert(media_selected(old(media)@, MediaRole::Target, *id, media@, selected));
                match selected {
                    Ok(()) => Ok(()),
                    Err(e) => Err(WorkspaceError::Media(e)),
                }
            },
        },
    }
}

fn read_sources_and_selection(
    document: WorkspaceDocument,
    ids: &TextMap<MediaId>,
    root: &TextMap<Json>,
) -> (r: Result<WorkspaceDocument, WorkspaceError>)
    ensures
        sources_read(
            document@,
            *root,
            TargetsRead { media: document@.media, ids: ids@ },
            content(r),
        ),
{
    let mut document: WorkspaceDocument = document;
    let ghost before = document@;
    if let Err(e) = read_sources(&mut document, root) {
        return Err(e);
    }
    let ghost found = SourcesRead { media: document@.media, faces: document@.faces };
    let selected = read_selection(&mut document.media, ids, root);
    let ghost media = document@.media;
    let ghost out = reaching(selected, media);
    proof {
        assert(document@ =~= (Document { media, faces: found.faces, ..before }));
    }
    let r = match selected {
        Ok(()) => Ok(document),
        Err(e) => Err(e),
    };
    proof {
        let targets = TargetsRead { media: before.media, ids: ids@ };
        assert(runs::<SourcesRead, (Seq<char>, Json), WorkspaceError>(
            source_media_step(),
            SourcesRead { media: targets.media, faces: before.faces },
            entries_of(object_member(*root, "input_faces_data"@)),
            Ok(found),
        ));
        assert(selection_read(found.media, targets.ids, *root, out));
        assert(content(r) == (match out {
            Ok(media) => Ok::<Document, WorkspaceError>(
                Document { media, faces: found.faces, ..before },
            ),
            Err(e) => Err(e),
        }));
    }
    r
}

/// The sources and the selection replace what media a document had before.
proof fn media_are_replaced(
    before: Document,
    media: Library,
    root: TextMap<Json>,
    targets: TargetsRead,
    r: Result<Document, WorkspaceError>,
)
    requires
        sources_read(Document { media, ..before }, root, targets, r),
    ensures
        sources_read(before, root, targets, r),
{
    let moved = Document { media, ..before };
    let sources = choose|sources: Result<SourcesRead, WorkspaceError>|
        {
            &&& #[trigger] runs(
                source_media_step(),
                SourcesRead { media: targets.media, faces: moved.faces },
                entries_of(object_member(root, "input_faces_data"@)),
                sources,
            )
            &&& match sources {
                Err(e) => r == Err::<Document, WorkspaceError>(e),
                Ok(found) => exists|selected: Result<Library, WorkspaceError>|
                    {
                        &&& #[trigger] selection_read(found.media, targets.ids, root, selected)
                        &&& r == match selected {
                            Ok(media) => Ok::<Document, WorkspaceError>(
                                Document { media, faces: found.faces, ..moved },
                            ),
                            Err(e) => Err(e),
                        }
                    },
            }
        };
    assert(runs(
        source_media_step(),
        SourcesRead { media: targets.media, faces: before.faces },
        entries_of(object_member(root, "input_faces_data"@)),
        sources,
    ));
}

fn read_media(document: WorkspaceDocument, root: &TextMap<Json>) -> (r: Result<
    WorkspaceDocument,
    WorkspaceError,
>)
    ensures
        media_read(document@, *root, content(r)),
{
    let mut document: WorkspaceDocument = document;
    let ghost before = document@;
    let mut ids: TextMap<MediaId> = TextMap::new();
    if let Err(e) = read_targets(&mut document, &mut ids, root) {
        return Err(e);
    }
    let ghost targets = TargetsRead { media: document@.media, ids: ids@ };
    let r = read_sources_and_selection(document, &ids, root);
    proof {
        media_are_replaced(before, targets.media, *root, targets, content(r));
    }
    r
}

/// The values of controls after those of a document were taken over, where it has any.
pub open spec fn controls_read(
    before: Map<Seq<char>, ControlValue>,
    values: Option<TextMap<Json>>,
    catalog: Seq<ControlSpec>,
    r: Result<Map<Seq<char>, ControlValue>, ControlStateError>,
) -> bool {
    match values {
        None => r == Ok::<Map<Seq<char>, ControlValue>, ControlStateError>(before),
        Some(o) => exists|after: Map<Seq<char>, ControlValue>, taken: Result<(), ControlStateError>|
            {
                &&& #[trigger] plain_json_applied(before, o.pairs(), catalog, after, taken)
                &&& r == match taken {
                    Ok(()) => Ok::<Map<Seq<char>, ControlValue>, ControlStateError>(after),
                    Err(e) => Err(e),
                }
            },
    }
}

/// The values of controls after those of two documents were taken over.
pub open spec fn controls_read_twice(
    before: Map<Seq<char>, ControlValue>,
    first: Option<TextMap<Json>>,
    second: Option<TextMap<Json>>,
    catalog: Seq<ControlSpec>,
    r: Result<Map<Seq<char>, ControlValue>, ControlStateError>,
) -> bool {
    exists|taken: Result<Map<Seq<char>, ControlValue>, ControlStateError>|
        {
            &&& #[trigger] controls_read(before, first, catalog, taken)
            &&& match taken {
                Err(e) => r == Err::<Map<Seq<char>, ControlValue>, ControlStateError>(e),
                Ok(values) => controls_read(values, second, catalog, r),
            }
        }
}

/// An object, where there is one.
pub open spec fn optional_object(object: Option<&TextMap<Json>>) -> Option<TextMap<Json>> {
    match object {
        Some(o) => Some(*o),
        None => None,
    }
}

fn read_controls(
    controls: &mut ControlState,
    values: Option<&TextMap<Json>>,
    catalog: &[ControlSpec],
) -> (r: Result<(), ControlStateError>)
    ensures
        controls_read(
            old(controls)@,
            optional_object(values),
            catalog@,
            reaching(r, final(controls)@),
        ),
{
    match values {
        None => Ok(()),
        Some(object) => {
            let taken = controls.apply_plain_json(object, catalog);
            proof {
                let o = optional_object(values)->0;
                assert(plain_json_applied(
                    old(controls)@,
                    o.pairs(),
                    catalog@,
                    controls@,
                    taken,
                ));
            }
            taken
        },
    }
}

fn read_controls_twice(
    controls: &mut ControlState,
    first: Option<&TextMap<Json>>,
    second: Option<&TextMap<Json>>,
    catalog: &[ControlSpec],
) -> (r: Result<(), ControlStateError>)
    ensures
        controls_read_twice(
            old(controls)@,
            optional_object(first),
            optional_object(second),
            catalog@,
            reaching(r, final(controls)@),
        ),
{
    if let Err(e) = read_controls(controls, first, catalog) {
        return Err(e);
    }
    read_controls(controls, second, catalog)
}

/// The output directory that a document sets: none, where it has none.
pub open spec fn output_read(before: Option<Seq<char>>, root: TextMap<Json>) -> Option<Seq<char>> {
    match object_member(root, "control"@) {
        None => before,
        Some(control) => match text_member(control, "OutputMediaFolder"@) {
            Some(path) => if path@.len() > 0 {
                Some(path@)
            } else {
                None
            },
            None => None,
        },
    }
}

/// The settings of the document are read: the output directory and the values of controls.
pub open spec fn settings_read(
    before: Document,
    root: TextMap<Json>,
    catalog: Seq<ControlSpec>,
    r: Result<Document, WorkspaceError>,
) -> bool {
    exists|taken: Result<Map<Seq<char>, ControlValue>, ControlStateError>|
        {
            &&& #[trigger] controls_read_twice(
                before.controls,
                object_member(root, "control"@),
                object_member(root, "current_widget_parameters"@),
                catalog,
                taken,
            )
            &&& r == match taken {
                Ok(controls) => Ok::<Document, WorkspaceError>(
                    Document { controls, output: output_read(before.output, root), ..before },
                ),
                Err(e) => Err(WorkspaceError::Controls(e)),
            }
        }
}

fn read_settings(document: WorkspaceDocument, root: &TextMap<Json>, catalog: &[ControlSpec]) -> (r:
    Result<WorkspaceDocument, WorkspaceError>)
    ensures
        settings_read(document@, *root, catalog@, content(r)),
{
    let mut document: WorkspaceDocument = document;
    let ghost before = document@;
    let control: Option<&TextMap<Json>> = get_object(root, "control");
    if let Some(object) = control {
        document.output_directory = match get_text(object, "OutputMediaFolder") {
            Some(path) => {
                if path.as_str().is_empty() {
                    None
                } else {
                    Some(path.clone())
                }
            },
            None => None,
        };
    }
    let parameters: Option<&TextMap<Json>> = get_object(root, "current_widget_parameters");
    let taken = read_controls_twice(&mut document.controls, control, parameters, catalog);
    proof {
        let out = reaching(taken, document@.controls);
        assert(optional_object(control) == object_member(*root, "control"@));
        assert(optional_object(parameters) == object_member(*root, "current_widget_parameters"@));
        assert(controls_read_twice(
            before.controls,
            object_member(*root, "control"@),
            object_member(*root, "current_widget_parameters"@),
            catalog@,
            out,
        ));
        assert(document@.output == output_read(before.output, *root));
    }
    match taken {
        Ok(()) => Ok(document),
        Err(e) => Err(WorkspaceError::Controls(e)),
    }
}

/// The name of a merged identity.
pub open spec fn embedding_name(object: TextMap<Json>, id: Seq<char>) -> Seq<char> {
    match text_member(object, "embedding_name"@) {
        Some(name) => name@,
        None => id,
    }
}

/// A merged identity is read. What is no object is passed over.
pub open spec fn identity_read(
    before: Faces,
    entry: (Seq<char>, Json),
    r: Result<Faces, WorkspaceError>,
) -> bool {
    match entry.1 {
        Json::Object(o) => exists|store: Result<EmbeddingStore, &'static str>|
            {
                &&& #[trigger] some_store_read(member(o, "embedding_store"@), store)
                &&& match store {
                    Err(message) => r == Err::<Faces, WorkspaceError>(
                        WorkspaceError::InvalidCrossSwap(message),
                    ),
                    Ok(store) => exists|after: Faces, added: Result<(), FaceWorkspaceError>|
                        {
                            &&& #[trigger] store_added(
                                before,
                                after,
                                entry.0,
                                embedding_name(o, entry.0),
                                embedded(store),
                                added,
                            )
                            &&& r == match added {
                                Ok(()) => Ok::<Faces, WorkspaceError>(after),
                                Err(e) => Err(WorkspaceError::Faces(e)),
                            }
                        },
                }
            },
        _ => r == Ok::<Faces, WorkspaceError>(before),
    }
}

/// Reading one merged identity after the other.
pub open spec fn identities_step() -> spec_fn(
    Faces,
    (Seq<char>, Json),
    Result<Faces, WorkspaceError>,
) -> bool {
    |before: Faces, entry: (Seq<char>, Json), r: Result<Faces, WorkspaceError>|
        identity_read(before, entry, r)
}

fn read_identity(faces: &mut FaceWorkspace, id: &String, value: &Json) -> (r: Result<
    (),
    WorkspaceError,
>)
    ensures
        identity_read(old(faces)@, (id@, *value), reaching(r, final(faces)@)),
{
    let object: &TextMap<Json> = match value.as_object() {
        Some(object) => object,
        None => return Ok(()),
    };
    let given: Option<&Json> = object.get("embedding_store");
    let store = parse_embedding_store(given);
    let ghost entry = (id@, *value);
    let ghost o = entry.1->Object_0;
    assert(optional_json(given) == member(o, "embedding_store"@));
    assert(some_store_read(member(o, "embedding_store"@), store));
    match store {
        Err(message) => Err(WorkspaceError::InvalidCrossSwap(message)),
        Ok(store) => {
            let name: String = match get_text(object, "embedding_name") {
                Some(name) => name.clone(),
                None => id.clone(),
            };
            let ghost called = name@;
            let ghost content = embedded(store);
            let added = faces.add_merged_store(id.clone(), name, store);
            assert(called == embedding_name(o, entry.0));
            assert(store_added(
                old(faces)@,
                faces@,
                entry.0,
                embedding_name(o, entry.0),
                content,
                added,
            ));
            match added {
                Ok(()) => Ok(()),
                Err(e) => Err(WorkspaceError::Faces(e)),
            }
        },
    }
}

fn read_identities(faces: &mut FaceWorkspace, root: &TextMap<Json>) -> (r: Result<
    (),
    WorkspaceError,
>)
    ensures
        runs(
            identities_step(),
            old(faces)@,
            entries_of(object_member(*root, "embeddings_data"@)),
            reaching(r, final(faces)@),
        ),
{
    let ghost step = identities_step();
    let ghost start = faces@;
    let ghost items = entries_of(object_member(*root, "embeddings_data"@));
    proof {
        run_begins(step, start, items);
    }
    if let Some(embeddings) = get_object(root, "embeddings_data") {
        let n: usize = embeddings.len();
        let mut i: usize = 0;
        while i < n
            invariant
                i <= n,
                n == items.len(),
                items == embeddings.pairs(),
                step == identities_step(),
                start == old(faces)@,
                runs(step, start, items.take(i as int), Ok(faces@)),
                items == entries_of(object_member(*root, "embeddings_data"@)),
            decreases n - i,
        {
            let ghost before = faces@;
            let one = read_identity(faces, embeddings.key_at(i), embeddings.value_at(i));
            proof {
                assert(items[i as int] == (items[i as int].0, items[i as int].1));
                assert(step(before, items[i as int], reaching(one, faces@)));
                run_grows(step, start, items, i as int, before, reaching(one, faces@));
            }
            if let Err(e) = one {
                return Err(e);
            }
            i = i + 1;
        }
    }
    proof {
        run_ends::<Faces, (Seq<char>, Json), WorkspaceError>(step, start, items, faces@);
    }
    Ok(())
}

/// The picture of a face is read, where it has one.
pub open spec fn optional_crop_read(
    value: Option<Json>,
    r: Result<Option<FaceCrop>, &'static str>,
) -> bool {
    match value {
        None => r == Ok::<Option<FaceCrop>, &'static str>(None),
        Some(Json::Null) => r == Ok::<Option<FaceCrop>, &'static str>(None),
        Some(json) => exists|crop: Result<FaceCrop, &'static str>| #[trigger]
            crop_read(json, crop) && r == match crop {
                Ok(crop) => Ok::<Option<FaceCrop>, &'static str>(Some(crop)),
                Err(message) => Err(message),
            },
    }
}

fn read_optional_crop(value: Option<&Json>) -> (r: Result<Option<FaceCrop>, &'static str>)
    ensures
        optional_crop_read(optional_json(value), r),
{
    match value {
        None => Ok(None),
        Some(Json::Null) => Ok(None),
        Some(json) => {
            let crop = parse_face_crop(json);
            assert(crop_read(*json, crop));
            match crop {
                Ok(crop) => Ok(Some(crop)),
                Err(message) => Err(message),
            }
        },
    }
}

/// A source is assigned to a target.
pub open spec fn source_given(
    target: Seq<char>,
    before: Faces,
    source: Seq<char>,
    r: Result<Faces, WorkspaceError>,
) -> bool {
    exists|after: Faces, given: Result<(), FaceWorkspaceError>|
        {
            &&& #[trigger] source_assigned(before, after, Some(target), source, true, given)
            &&& r == match given {
                Ok(()) => Ok::<Faces, WorkspaceError>(after),
                Err(e) => Err(WorkspaceError::Faces(e)),
            }
        }
}

/// A merged identity is assigned to a target.
pub open spec fn merged_given(
    target: Seq<char>,
    before: Faces,
    merged: Seq<char>,
    r: Result<Faces, WorkspaceError>,
) -> bool {
    exists|after: Faces, given: Result<(), FaceWorkspaceError>|
        {
            &&& #[trigger] merged_assigned(before, after, Some(target), merged, true, given)
            &&& r == match given {
                Ok(()) => Ok::<Faces, WorkspaceError>(after),
                Err(e) => Err(WorkspaceError::Faces(e)),
            }
        }
}

/// Assigning one source after the other.
pub open spec fn sources_given_step(target: Seq<char>) -> spec_fn(
    Faces,
    Seq<char>,
    Result<Faces, WorkspaceError>,
) -> bool {
    |before: Faces, source: Seq<char>, r: Result<Faces, WorkspaceError>|
        source_given(target, before, source, r)
}

/// Assigning one merged identity after the other.
pub open spec fn merged_given_step(target: Seq<char>) -> spec_fn(
    Faces,
    Seq<char>,
    Result<Faces, WorkspaceError>,
) -> bool {
    |before: Faces, merged: Seq<char>, r: Result<Faces, WorkspaceError>|
        merged_given(target, before, merged, r)
}

fn give_sources(faces: &mut FaceWorkspace, target: &str, ids: &Vec<String>) -> (r: Result<
    (),
    WorkspaceError,
>)
    ensures
        runs(
            sources_given_step(target@),
            old(faces)@,
            texts(ids@),
            reaching(r, final(faces)@),
        ),
{
    let ghost step = sources_given_step(target@);
    let ghost start = faces@;
    let ghost items = texts(ids@);
    proof {
        run_begins(step, start, items);
    }
    let mut i: usize = 0;
    while i < ids.len()
        invariant
            i <= ids.len(),
            items == texts(ids@),
            step == sources_given_step(target@),
            start == old(faces)@,
            runs(step, start, items.take(i as int), Ok(faces@)),
        decreases ids.len() - i,
    {
        let ghost before = faces@;
        let given = faces.assign_source(target, ids[i].as_str(), true);
        assert(source_assigned(before, faces@, Some(target@), items[i as int], true, given));
        let one = match given {
            Ok(()) => Ok(()),
            Err(e) => Err(WorkspaceError::Faces(e)),
        };
        proof {
            assert(step(before, items[i as int], reaching(one, faces@)));
            run_grows(step, start, items, i as int, before, reaching(one, faces@));
        }
        if let Err(e) = one {
            return Err(e);
        }
        i = i + 1;
    }
    proof {
        run_ends::<Faces, Seq<char>, WorkspaceError>(step, start, items, faces@);
    }
    Ok(())
}

fn give_merged(faces: &mut FaceWorkspace, target: &str, ids: &Vec<String>) -> (r: Result<
    (),
    WorkspaceError,
>)
    ensures
        runs(merged_given_step(target@), old(faces)@, texts(ids@), reaching(r, final(faces)@)),
{
    let ghost step = merged_given_step(target@);
    let ghost start = faces@;
    let ghost items = texts(ids@);
    proof {
        run_begins(step, start, items);
    }
    let mut i: usize = 0;
    while i < ids.len()
        invariant
            i <= ids.len(),
            items == texts(ids@),
            step == merged_given_step(target@),
            start == old(faces)@,
            runs(step, start, items.take(i as int), Ok(faces@)),
        decreases ids.len() - i,
    {
        let ghost before = faces@;
        let given = faces.assign_merged(target, ids[i].as_str(), true);
        assert(merged_assigned(before, faces@, Some(target@), items[i as int], true, given));
        let one = match given {
            Ok(()) => Ok(()),
            Err(e) => Err(WorkspaceError::Faces(e)),
        };
        proof {
            assert(step(before, items[i as int], reaching(one, faces@)));
            run_grows(step, start, items, i as int, before, reaching(one, faces@));
        }
        if let Err(e) = one {
            return Err(e);
        }
        i = i + 1;
    }
    proof {
        run_ends::<Faces, Seq<char>, WorkspaceError>(step, start, items, faces@);
    }
    Ok(())
}

/// A target with its own controls and the embeddings that are kept for it.
pub open spec fn filled_target(
    faces: Faces,
    id: Seq<char>,
    controls: Map<Seq<char>, ControlValue>,
    cache: Map<Seq<char>, Seq<Single>>,
) -> Faces {
    Faces {
        targets: faces.targets.insert(id, Target { controls, cache, ..faces.targets[id] }),
        ..faces
    }
}

/// The identities of a target are assigned: sources, then merged identities.
pub open spec fn assignments_read(
    before: Faces,
    id: Seq<char>,
    object: TextMap<Json>,
    r: Result<Faces, WorkspaceError>,
) -> bool {
    exists|given: Result<Faces, WorkspaceError>|
        {
            &&& #[trigger] runs(
                sources_given_step(id),
                before,
                listed_texts(member(object, "assigned_input_faces"@)),
                given,
            )
            &&& match given {
                Err(e) => r == Err::<Faces, WorkspaceError>(e),
                Ok(faces) => runs(
                    merged_given_step(id),
                    faces,
                    listed_texts(member(object, "assigned_merged_embeddings"@)),
                    r,
                ),
            }
        }
}

/// The controls, the kept embeddings and the assignments of a target that was added.
pub open spec fn target_filled(
    before: Faces,
    id: Seq<char>,
    object: TextMap<Json>,
    controls: Map<Seq<char>, ControlValue>,
    catalog: Seq<ControlSpec>,
    r: Result<Faces, WorkspaceError>,
) -> bool {
    exists|taken: Result<Map<Seq<char>, ControlValue>, ControlStateError>|
        {
            &&& #[trigger] controls_read_twice(
                controls,
                object_member(object, "control"@),
                object_member(object, "parameters"@),
                catalog,
                taken,
            )
            &&& match taken {
                Err(e) => r == Err::<Faces, WorkspaceError>(WorkspaceError::Controls(e)),
                Ok(values) => exists|cache: Result<EmbeddingStore, &'static str>|
                    {
                        &&& #[trigger] store_read(
                            member(object, "assigned_input_embedding"@),
                            cache,
                        )
                        &&& match cache {
                            Err(message) => r == Err::<Faces, WorkspaceError>(
                                WorkspaceError::InvalidCrossSwap(message),
                            ),
                            Ok(store) => assignments_read(
                                filled_target(before, id, values, embedded(store)),
                                id,
                                object,
                                r,
                            ),
                        }
                    },
            }
        }
}

/// A target face is read. What is no object is passed over.
pub open spec fn target_face_read(
    controls: Map<Seq<char>, ControlValue>,
    catalog: Seq<ControlSpec>,
    before: Faces,
    entry: (Seq<char>, Json),
    r: Result<Faces, WorkspaceError>,
) -> bool {
    match entry.1 {
        Json::Object(o) => exists|store: Result<EmbeddingStore, &'static str>|
            {
                &&& #[trigger] some_store_read(member(o, "embedding_store"@), store)
                &&& match store {
                    Err(message) => r == Err::<Faces, WorkspaceError>(
                        WorkspaceError::InvalidCrossSwap(message),
                    ),
                    Ok(store) => pictured_face_read(
                        controls,
                        catalog,
                        before,
                        entry.0,
                        o,
                        embedded(store),
                        r,
                    ),
                }
            },
        _ => r == Ok::<Faces, WorkspaceError>(before),
    }
}

/// The picture of a target face is read, and the face added and filled.
pub open spec fn pictured_face_read(
    controls: Map<Seq<char>, ControlValue>,
    catalog: Seq<ControlSpec>,
    before: Faces,
    id: Seq<char>,
    object: TextMap<Json>,
    embeddings: Map<Seq<char>, Seq<Single>>,
    r: Result<Faces, WorkspaceError>,
) -> bool {
    exists|crop: Result<Option<FaceCrop>, &'static str>|
        {
            &&& #[trigger] optional_crop_read(member(object, "cropped_face"@), crop)
            &&& match crop {
                Err(message) => r == Err::<Faces, WorkspaceError>(
                    WorkspaceError::InvalidCrossSwap(message),
                ),
                Ok(crop) => exists|after: Faces, added: Result<(), FaceWorkspaceError>|
                    {
                        &&& #[trigger] target_added(
                            before,
                            after,
                            id,
                            None,
                            embeddings,
                            optional_crop(crop),
                            catalog,
                            added,
                        )
                        &&& match added {
                            Err(e) => r == Err::<Faces, WorkspaceError>(WorkspaceError::Faces(e)),
                            Ok(()) => target_filled(after, id, object, controls, catalog, r),
                        }
                    },
            }
        }
}

/// Reading one target face after the other.
pub open spec fn target_faces_step(
    controls: Map<Seq<char>, ControlValue>,
    catalog: Seq<ControlSpec>,
) -> spec_fn(Faces, (Seq<char>, Json), Result<Faces, WorkspaceError>) -> bool {
    |before: Faces, entry: (Seq<char>, Json), r: Result<Faces, WorkspaceError>|
        target_face_read(controls, catalog, before, entry, r)
}

fn give_identities(faces: &mut FaceWorkspace, id: &str, object: &TextMap<Json>) -> (r: Result<
    (),
    WorkspaceError,
>)
    ensures
        assignments_read(old(faces)@, id@, *object, reaching(r, final(faces)@)),
{
    let given: Option<&Json> = object.get("assigned_input_faces");
    let sources: Vec<String> = string_array(given);
    assert(optional_json(given) == member(*object, "assigned_input_faces"@));
    if let Err(e) = give_sources(faces, id, &sources) {
        return Err(e);
    }
    let given: Option<&Json> = object.get("assigned_merged_embeddings");
    let merged: Vec<String> = string_array(given);
    assert(optional_json(given) == member(*object, "assigned_merged_embeddings"@));
    give_merged(faces, id, &merged)
}

fn fill_target(
    faces: &mut FaceWorkspace,
    id: &str,
    object: &TextMap<Json>,
    controls: &ControlState,
    catalog: &[ControlSpec],
) -> (r: Result<(), WorkspaceError>)
    requires
        old(faces)@.targets.dom().contains(id@),
    ensures
        target_filled(
            old(faces)@,
            id@,
            *object,
            controls@,
            catalog@,
            reaching(r, final(faces)@),
        ),
{
    let ghost before = faces@;
    let mut own: ControlState = controls.duplicate();
    let control: Option<&TextMap<Json>> = get_object(object, "control");
    let parameters: Option<&TextMap<Json>> = get_object(object, "parameters");
    let taken = read_controls_twice(&mut own, control, parameters, catalog);
    let ghost values = own@;
    proof {
        assert(optional_object(control) == object_member(*object, "control"@));
        assert(optional_object(parameters) == object_member(*object, "parameters"@));
    }
    if let Err(e) = taken {
        assert(controls_read_twice(
            controls@,
            object_member(*object, "control"@),
            object_member(*object, "parameters"@),
            catalog@,
            Err(e),
        ));
        return Err(WorkspaceError::Controls(e));
    }
    assert(controls_read_twice(
        controls@,
        object_member(*object, "control"@),
        object_member(*object, "parameters"@),
        catalog@,
        Ok(values),
    ));
    let given: Option<&Json> = object.get("assigned_input_embedding");
    let cache = parse_embedding_store_or_empty(given);
    assert(optional_json(given) == member(*object, "assigned_input_embedding"@));
    assert(store_read(member(*object, "assigned_input_embedding"@), cache));
    match cache {
        Err(message) => Err(WorkspaceError::InvalidCrossSwap(message)),
        Ok(store) => {
            let ghost kept = embedded(store);
            let _ = faces.set_target_controls(id, own);
            let _ = faces.set_target_cache(id, store);
            proof {
                assert(faces@ =~= filled_target(before, id@, values, kept)) by {
                    assert(faces@.targets =~= filled_target(before, id@, values, kept).targets);
                }
            }
            let ghost filled = faces@;
            let r = give_identities(faces, id, object);
            assert(assignments_read(filled, id@, *object, reaching(r, faces@)));
            r
        },
    }
}

fn read_target_face(
    faces: &mut FaceWorkspace,
    id: &String,
    value: &Json,
    controls: &ControlState,
    catalog: &[ControlSpec],
) -> (r: Result<(), WorkspaceError>)
    ensures
        target_face_read(
            controls@,
            catalog@,
            old(faces)@,
            (id@, *value),
            reaching(r, final(faces)@),
        ),
{
    let object: &TextMap<Json> = match value.as_object() {
        Some(object) => object,
        None => return Ok(()),
    };
    let ghost before = faces@;
    let given: Option<&Json> = object.get("embedding_store");
    let store = parse_embedding_store(given);
    assert(optional_json(given) == member(*object, "embedding_store"@));
    assert(some_store_read(member(*object, "embedding_store"@), store));
    let store: EmbeddingStore = match store {
        Err(message) => return Err(WorkspaceError::InvalidCrossSwap(message)),
        Ok(store) => store,
    };
    let ghost known = embedded(store);
    let given: Option<&Json> = object.get("cropped_face");
    let crop = read_optional_crop(given);
    assert(optional_json(given) == member(*object, "cropped_face"@));
    assert(optional_crop_read(member(*object, "cropped_face"@), crop));
    let crop: Option<FaceCrop> = match crop {
        Err(message) => {
            assert(pictured_face_read(
                controls@,
                catalog@,
                before,
                id@,
                *object,
                known,
                Err(WorkspaceError::InvalidCrossSwap(message)),
            ));
            return Err(WorkspaceError::InvalidCrossSwap(message));
        },
        Ok(crop) => crop,
    };
    let ghost picture = crop;
    let added = faces.add_target_with_crop(id.clone(), None, store, crop, catalog);
    let ghost mid = faces@;
    assert(target_added(
        before,
        mid,
        id@,
        None,
        known,
        optional_crop(picture),
        catalog@,
        added,
    ));
    match added {
        Err(e) => {
            assert(pictured_face_read(
                controls@,
                catalog@,
                before,
                id@,
                *object,
                known,
                Err(WorkspaceError::Faces(e)),
            ));
            Err(WorkspaceError::Faces(e))
        },
        Ok(()) => {
            let r = fill_target(faces, id.as_str(), object, controls, catalog);
            assert(target_filled(mid, id@, *object, controls@, catalog@, reaching(r, faces@)));
            assert(pictured_face_read(
                controls@,
                catalog@,
                before,
                id@,
                *object,
                known,
                reaching(r, faces@),
            ));
            r
        },
    }
}

fn read_target_faces(
    faces: &mut FaceWorkspace,
    root: &TextMap<Json>,
    controls: &ControlState,
    catalog: &[ControlSpec],
) -> (r: Result<(), WorkspaceError>)
    ensures
        runs(
            target_faces_step(controls@, catalog@),
            old(faces)@,
            entries_of(object_member(*root, "target_faces_data"@)),
            reaching(r, final(faces)@),
        ),
{
    let ghost step = target_faces_step(controls@, catalog@);
    let ghost start = faces@;
    let ghost items = entries_of(object_member(*root, "target_faces_data"@));
    proof {
        run_begins(step, start, items);
    }
    if let Some(targets) = get_object(root, "target_faces_data") {
        let n: usize = targets.len();
        let mut i: usize = 0;
        while i < n
            invariant
                i <= n,
                n == items.len(),
                items == targets.pairs(),
                step == target_faces_step(controls@, catalog@),
                start == old(faces)@,
                runs(step, start, items.take(i as int), Ok(faces@)),
                items == entries_of(object_member(*root, "target_faces_data"@)),
            decreases n - i,
        {
            let ghost before = faces@;
            let one = read_target_face(
                faces,
                targets.key_at(i),
                targets.value_at(i),
                controls,
                catalog,
            );
            proof {
                assert(items[i as int] == (items[i as int].0, items[i as int].1));
                assert(step(before, items[i as int], reaching(one, faces@)));
                run_grows(step, start, items, i as int, before, reaching(one, faces@));
            }
            if let Err(e) = one {
                return Err(e);
            }
            i = i + 1;
        }
    }
    proof {
        run_ends::<Faces, (Seq<char>, Json), WorkspaceError>(step, start, items, faces@);
    }
    Ok(())
}

/// The faces of the document are read: merged identities, then target faces.
pub open spec fn faces_read(
    before: Document,
    root: TextMap<Json>,
    catalog: Seq<ControlSpec>,
    r: Result<Document, WorkspaceError>,
) -> bool {
    exists|identities: Result<Faces, WorkspaceError>|
        {
            &&& #[trigger] runs(
                identities_step(),
                before.faces,
                entries_of(object_member(root, "embeddings_data"@)),
                identities,
            )
            &&& match identities {
                Err(e) => r == Err::<Document, WorkspaceError>(e),
                Ok(named) => exists|targets: Result<Faces, WorkspaceError>|
                    {
                        &&& #[trigger] runs(
                            target_faces_step(before.controls, catalog),
                            named,
                            entries_of(object_member(root, "target_faces_data"@)),
                            targets,
                        )
                        &&& r == match targets {
                            Ok(faces) => Ok::<Document, WorkspaceError>(
                                Document { faces, ..before },
                            ),
                            Err(e) => Err(e),
                        }
                    },
            }
        }
}

fn read_faces(document: WorkspaceDocument, root: &TextMap<Json>, catalog: &[ControlSpec]) -> (r:
    Result<WorkspaceDocument, WorkspaceError>)
    ensures
        faces_read(document@, *root, catalog@, content(r)),
{
    let mut document: WorkspaceDocument = document;
    let ghost before = document@;
    if let Err(e) = read_identities(&mut document.faces, root) {
        return Err(e);
    }
    let ghost named = document@.faces;
    let r = read_target_faces(&mut document.faces, root, &document.controls, catalog);
    proof {
        assert(runs(
            target_faces_step(before.controls, catalog@),
            named,
            entries_of(object_member(*root, "target_faces_data"@)),
            reaching(r, document@.faces),
        ));
    }
    match r {
        Ok(()) => Ok(document),
        Err(e) => Err(e),
    }
}


/// The values of controls that a marker has for single faces.
pub open spec fn values_by_face(faces: TextMap<ControlState>) -> Map<
    Seq<char>,
    Map<Seq<char>, ControlValue>,
> {
    faces@.map_values(|c: ControlState| c@)
}

/// The values that a face has before a marker changes them.
pub open spec fn values_before(
    faces: Faces,
    controls: Map<Seq<char>, ControlValue>,
    id: Seq<char>,
) -> Map<Seq<char>, ControlValue> {
    if faces.targets.dom().contains(id) {
        faces.targets[id].controls
    } else {
        controls
    }
}

/// The values that a marker has for one face are read. What is no object is passed over.
pub open spec fn face_marker_read(
    faces: Faces,
    controls: Map<Seq<char>, ControlValue>,
    control: Option<TextMap<Json>>,
    catalog: Seq<ControlSpec>,
    before: Map<Seq<char>, Map<Seq<char>, ControlValue>>,
    entry: (Seq<char>, Json),
    r: Result<Map<Seq<char>, Map<Seq<char>, ControlValue>>, WorkspaceError>,
) -> bool {
    match entry.1 {
        Json::Object(o) => exists|taken: Result<Map<Seq<char>, ControlValue>, ControlStateError>|
            {
                &&& #[trigger] controls_read_twice(
                    values_before(faces, controls, entry.0),
                    control,
                    Some(o),
                    catalog,
                    taken,
                )
                &&& r == match taken {
                    Ok(values) => Ok::<
                        Map<Seq<char>, Map<Seq<char>, ControlValue>>,
                        WorkspaceError,
                    >(before.insert(entry.0, values)),
                    Err(e) => Err(WorkspaceError::Controls(e)),
                }
            },
        _ => r == Ok::<Map<Seq<char>, Map<Seq<char>, ControlValue>>, WorkspaceError>(before),
    }
}

/// Reading what a marker has for one face after the other.
pub open spec fn face_markers_step(
    faces: Faces,
    controls: Map<Seq<char>, ControlValue>,
    control: Option<TextMap<Json>>,
    catalog: Seq<ControlSpec>,
) -> spec_fn(
    Map<Seq<char>, Map<Seq<char>, ControlValue>>,
    (Seq<char>, Json),
    Result<Map<Seq<char>, Map<Seq<char>, ControlValue>>, WorkspaceError>,
) -> bool {
    |
        before: Map<Seq<char>, Map<Seq<char>, ControlValue>>,
        entry: (Seq<char>, Json),
        r: Result<Map<Seq<char>, Map<Seq<char>, ControlValue>>, WorkspaceError>,
    | face_marker_read(faces, controls, control, catalog, before, entry, r)
}

/// The timeline with a marker at a frame, at which it stands.
pub open spec fn with_marker(before: Timeline, frame: u64, marker: Marker) -> Timeline {
    let at = reached(frame, before.total);
    Timeline { current: at, markers: before.markers.insert(at, marker), ..before }
}

/// What a marker has for single faces is read, and the marker put at its frame.
pub open spec fn marker_placed(
    faces: Faces,
    values: Map<Seq<char>, ControlValue>,
    catalog: Seq<ControlSpec>,
    before: Timeline,
    frame: u64,
    object: TextMap<Json>,
    r: Result<Timeline, WorkspaceError>,
) -> bool {
    exists|own: Result<Map<Seq<char>, Map<Seq<char>, ControlValue>>, WorkspaceError>|
        {
            &&& #[trigger] runs(
                face_markers_step(faces, values, object_member(object, "control"@), catalog),
                Map::empty(),
                entries_of(object_member(object, "parameters"@)),
                own,
            )
            &&& r == match own {
                Ok(by_face) => Ok::<Timeline, WorkspaceError>(
                    with_marker(before, frame, Marker { controls: values, faces: by_face }),
                ),
                Err(e) => Err(e),
            }
        }
}

/// A marker is read. What has no frame or is no object is passed over.
pub open spec fn marker_read(
    faces: Faces,
    controls: Map<Seq<char>, ControlValue>,
    catalog: Seq<ControlSpec>,
    before: Timeline,
    entry: (Seq<char>, Json),
    r: Result<Timeline, WorkspaceError>,
) -> bool {
    match (whole_number(entry.0), entry.1) {
        (Some(frame), Json::Object(o)) => exists|
            taken: Result<Map<Seq<char>, ControlValue>, ControlStateError>,
        |
            {
                &&& #[trigger] controls_read(controls, object_member(o, "control"@), catalog, taken)
                &&& match taken {
                    Err(e) => r == Err::<Timeline, WorkspaceError>(WorkspaceError::Controls(e)),
                    Ok(values) => marker_placed(faces, values, catalog, before, frame, o, r),
                }
            },
        _ => r == Ok::<Timeline, WorkspaceError>(before),
    }
}

/// Reading one marker after the other.
pub open spec fn markers_step(
    faces: Faces,
    controls: Map<Seq<char>, ControlValue>,
    catalog: Seq<ControlSpec>,
) -> spec_fn(Timeline, (Seq<char>, Json), Result<Timeline, WorkspaceError>) -> bool {
    |before: Timeline, entry: (Seq<char>, Json), r: Result<Timeline, WorkspaceError>|
        marker_read(faces, controls, catalog, before, entry, r)
}

/// The last frame among the first `n` markers.
pub open spec fn last_frame(entries: Seq<(Seq<char>, Json)>, n: nat) -> u64
    decreases n,
{
    if n == 0 {
        0
    } else {
        let before = last_frame(entries, (n - 1) as nat);
        match whole_number(entries[n - 1].0) {
            Some(frame) => if frame > before {
                frame
            } else {
                before
            },
            None => before,
        }
    }
}

/// The timeline that markers are put on: it ends after the last of them.
pub open spec fn empty_timeline(last: u64) -> Timeline {
    Timeline {
        total: if last == u64::MAX {
            u64::MAX
        } else {
            (last + 1) as u64
        },
        current: 0,
        fps: Single { bits: THIRTY },
        playing: false,
        markers: Map::empty(),
    }
}

/// The markers of the document are read, where it has any.
pub open spec fn markers_read(
    before: Document,
    root: TextMap<Json>,
    catalog: Seq<ControlSpec>,
    r: Result<Document, WorkspaceError>,
) -> bool {
    match object_member(root, "markers"@) {
        None => r == Ok::<Document, WorkspaceError>(before),
        Some(o) => exists|timeline: Result<Timeline, WorkspaceError>|
            {
                &&& #[trigger] runs(
                    markers_step(before.faces, before.controls, catalog),
                    empty_timeline(last_frame(o.pairs(), o.pairs().len())),
                    o.pairs(),
                    timeline,
                )
                &&& r == match timeline {
                    Ok(end) => Ok::<Document, WorkspaceError>(
                        Document { timeline: Timeline { current: 0, ..end }, ..before },
                    ),
                    Err(e) => Err(e),
                }
            },
    }
}

fn read_face_marker(
    by_face: &mut TextMap<ControlState>,
    faces: &FaceWorkspace,
    controls: &ControlState,
    control: Option<&TextMap<Json>>,
    catalog: &[ControlSpec],
    id: &String,
    value: &Json,
) -> (r: Result<(), WorkspaceError>)
    ensures
        face_marker_read(
            faces@,
            controls@,
            optional_object(control),
            catalog@,
            values_by_face(*old(by_face)),
            (id@, *value),
            reaching(r, values_by_face(*final(by_face))),
        ),
{
    let parameters: &TextMap<Json> = match value.as_object() {
        Some(object) => object,
        None => return Ok(()),
    };
    let mut snapshot: ControlState = match faces.target(id.as_str()) {
        Some(face) => face.controls.duplicate(),
        None => controls.duplicate(),
    };
    let ghost entry = (id@, *value);
    let ghost o = entry.1->Object_0;
    let ghost base = values_before(faces@, controls@, entry.0);
    assert(snapshot@ == base);
    let taken = read_controls_twice(&mut snapshot, control, Some(parameters), catalog);
    let ghost values = snapshot@;
    proof {
        assert(optional_object(Some(parameters)) == Some(o));
        assert(controls_read_twice(
            values_before(faces@, controls@, entry.0),
            optional_object(control),
            Some(o),
            catalog@,
            reaching(taken, values),
        ));
    }
    match taken {
        Err(e) => Err(WorkspaceError::Controls(e)),
        Ok(()) => {
            let ghost before = values_by_face(*by_face);
            let _ = by_face.insert(id.clone(), snapshot);
            proof {
                assert(values_by_face(*by_face) =~= before.insert(entry.0, values));
            }
            Ok(())
        },
    }
}

fn read_face_markers(
    faces: &FaceWorkspace,
    controls: &ControlState,
    control: Option<&TextMap<Json>>,
    parameters: Option<&TextMap<Json>>,
    catalog: &[ControlSpec],
) -> (r: Result<TextMap<ControlState>, WorkspaceError>)
    ensures
        runs(
            face_markers_step(faces@, controls@, optional_object(control), catalog@),
            Map::empty(),
            entries_of(optional_object(parameters)),
            match r {
                Ok(by_face) => Ok(values_by_face(by_face)),
                Err(e) => Err(e),
            },
        ),
{
    let ghost step = face_markers_step(faces@, controls@, optional_object(control), catalog@);
    let ghost items = entries_of(optional_object(parameters));
    let ghost start = Map::<Seq<char>, Map<Seq<char>, ControlValue>>::empty();
    let mut by_face: TextMap<ControlState> = TextMap::new();
    proof {
        assert(values_by_face(by_face) =~= start);
        run_begins(step, start, items);
    }
    if let Some(object) = parameters {
        let n: usize = object.len();
        let mut i: usize = 0;
        while i < n
            invariant
                i <= n,
                n == items.len(),
                items == object.pairs(),
                step == face_markers_step(faces@, controls@, optional_object(control), catalog@),
                start == Map::<Seq<char>, Map<Seq<char>, ControlValue>>::empty(),
                runs(step, start, items.take(i as int), Ok(values_by_face(by_face))),
                items == entries_of(optional_object(parameters)),
            decreases n - i,
        {
            let ghost before = values_by_face(by_face);
            let one = read_face_marker(
                &mut by_face,
                faces,
                controls,
                control,
                catalog,
                object.key_at(i),
                object.value_at(i),
            );
            proof {
                let after = values_by_face(by_face);
                assert(items[i as int] == (items[i as int].0, items[i as int].1));
                assert(step(before, items[i as int], reaching(one, after)));
                run_grows(step, start, items, i as int, before, reaching(one, after));
            }
            if let Err(e) = one {
                return Err(e);
            }
            i = i + 1;
        }
    }
    proof {
        run_ends::<
            Map<Seq<char>, Map<Seq<char>, ControlValue>>,
            (Seq<char>, Json),
            WorkspaceError,
        >(step, start, items, values_by_face(by_face));
    }
    Ok(by_face)
}

fn read_marker(
    timeline: &mut EditorTimeline,
    faces: &FaceWorkspace,
    controls: &ControlState,
    catalog: &[ControlSpec],
    key: &String,
    value: &Json,
) -> (r: Result<(), WorkspaceError>)
    ensures
        marker_read(
            faces@,
            controls@,
            catalog@,
            old(timeline)@,
            (key@, *value),
            reaching(r, final(timeline)@),
        ),
{
    let frame: u64 = match parse_number(key.as_str()) {
        Some(frame) => frame,
        None => return Ok(()),
    };
    let marker: &TextMap<Json> = match value.as_object() {
        Some(object) => object,
        None => return Ok(()),
    };
    let ghost entry = (key@, *value);
    let ghost o = entry.1->Object_0;
    let ghost before = timeline@;
    let control: Option<&TextMap<Json>> = get_object(marker, "control");
    assert(optional_object(control) == object_member(o, "control"@));
    let mut own: ControlState = controls.duplicate();
    let taken = read_controls(&mut own, control, catalog);
    let ghost values = own@;
    assert(controls_read(
        controls@,
        object_member(o, "control"@),
        catalog@,
        reaching(taken, values),
    ));
    if let Err(e) = taken {
        return Err(WorkspaceError::Controls(e));
    }
    let parameters: Option<&TextMap<Json>> = get_object(marker, "parameters");
    assert(optional_object(parameters) == object_member(o, "parameters"@));
    match read_face_markers(faces, &own, control, parameters, catalog) {
        Err(e) => {
            assert(runs::<
                Map<Seq<char>, Map<Seq<char>, ControlValue>>,
                (Seq<char>, Json),
                WorkspaceError,
            >(
                face_markers_step(faces@, values, object_member(o, "control"@), catalog@),
                Map::empty(),
                entries_of(object_member(o, "parameters"@)),
                Err(e),
            ));
            assert(marker_placed(faces@, values, catalog@, before, frame, o, Err(e)));
            Err(e)
        },
        Ok(by_face) => {
            let ghost known = values_by_face(by_face);
            assert(runs::<
                Map<Seq<char>, Map<Seq<char>, ControlValue>>,
                (Seq<char>, Json),
                WorkspaceError,
            >(
                face_markers_step(faces@, values, object_member(o, "control"@), catalog@),
                Map::empty(),
                entries_of(object_member(o, "parameters"@)),
                Ok(known),
            ));
            timeline.seek(frame);
            timeline.add_marker_snapshot(own, by_face);
            proof {
                assert(timeline@ =~= with_marker(
                    before,
                    frame,
                    Marker { controls: values, faces: known },
                ));
                assert(marker_placed(faces@, values, catalog@, before, frame, o, Ok(timeline@)));
            }
            Ok(())
        },
    }
}

fn find_last_frame(markers: &TextMap<Json>) -> (r: u64)
    ensures
        r == last_frame(markers.pairs(), markers.pairs().len()),
{
    let n: usize = markers.len();
    let mut last: u64 = 0;
    let mut i: usize = 0;
    while i < n
        invariant
            i <= n,
            n == markers.pairs().len(),
            last == last_frame(markers.pairs(), i as nat),
        decreases n - i,
    {
        if let Some(frame) = parse_number(markers.key_at(i).as_str()) {
            if frame > last {
                last = frame;
            }
        }
        i = i + 1;
    }
    last
}

fn read_all_markers(
    timeline: &mut EditorTimeline,
    faces: &FaceWorkspace,
    controls: &ControlState,
    catalog: &[ControlSpec],
    markers: &TextMap<Json>,
) -> (r: Result<(), WorkspaceError>)
    ensures
        runs(
            markers_step(faces@, controls@, catalog@),
            old(timeline)@,
            markers.pairs(),
            reaching(r, final(timeline)@),
        ),
{
    let ghost step = markers_step(faces@, controls@, catalog@);
    let ghost start = timeline@;
    let n: usize = markers.len();
    let ghost items = markers.pairs();
    proof {
        run_begins(step, start, items);
    }
    let mut i: usize = 0;
    while i < n
        invariant
            i <= n,
            n == items.len(),
            items == markers.pairs(),
            step == markers_step(faces@, controls@, catalog@),
            start == old(timeline)@,
            runs(step, start, items.take(i as int), Ok(timeline@)),
        decreases n - i,
    {
        let ghost before = timeline@;
        let one = read_marker(
            timeline,
            faces,
            controls,
            catalog,
            markers.key_at(i),
            markers.value_at(i),
        );
        proof {
            assert(items[i as int] == (items[i as int].0, items[i as int].1));
            assert(step(before, items[i as int], reaching(one, timeline@)));
            run_grows(step, start, items, i as int, before, reaching(one, timeline@));
        }
        if let Err(e) = one {
            return Err(e);
        }
        i = i + 1;
    }
    proof {
        run_ends::<Timeline, (Seq<char>, Json), WorkspaceError>(step, start, items, timeline@);
    }
    Ok(())
}

fn read_markers(document: WorkspaceDocument, root: &TextMap<Json>, catalog: &[ControlSpec]) -> (r:
    Result<WorkspaceDocument, WorkspaceError>)
    ensures
        markers_read(document@, *root, catalog@, content(r)),
{
    let markers: &TextMap<Json> = match get_object(root, "markers") {
        Some(markers) => markers,
        None => return Ok(document),
    };
    let mut document: WorkspaceDocument = document;
    let ghost before = document@;
    let ghost o = object_member(*root, "markers"@)->0;
    let last: u64 = find_last_frame(markers);
    let mut timeline: EditorTimeline = EditorTimeline::new(
        if last == u64::MAX { u64::MAX } else { last + 1 },
        Single { bits: THIRTY },
    );
    proof {
        assert(timeline@ =~= empty_timeline(last_frame(o.pairs(), o.pairs().len())));
    }
    let read = read_all_markers(
        &mut timeline,
        &document.faces,
        &document.controls,
        catalog,
        markers,
    );
    let ghost end = timeline@;
    assert(runs(
        markers_step(before.faces, before.controls, catalog@),
        empty_timeline(last_frame(o.pairs(), o.pairs().len())),
        o.pairs(),
        reaching(read, end),
    ));
    match read {
        Err(e) => Err(e),
        Ok(()) => {
            timeline.seek(0);
            document.timeline = timeline;
            proof {
                assert(document@ =~= (Document {
                    timeline: Timeline { current: 0, ..end },
                    ..before
                }));
            }
            Ok(document)
        },
    }
}

/// A document is read into a fresh workspace: its media, its settings, its faces, its markers.
pub open spec fn parts_read(
    before: Document,
    root: TextMap<Json>,
    catalog: Seq<ControlSpec>,
    r: Result<Document, WorkspaceError>,
) -> bool {
    exists|first: Result<Document, WorkspaceError>|
        {
            &&& #[trigger] media_read(before, root, first)
            &&& match first {
                Err(e) => r == Err::<Document, WorkspaceError>(e),
                Ok(document) => later_parts_read(document, root, catalog, r),
            }
        }
}

/// The settings, the faces and the markers of a document are read, once its media were.
pub open spec fn later_parts_read(
    before: Document,
    root: TextMap<Json>,
    catalog: Seq<ControlSpec>,
    r: Result<Document, WorkspaceError>,
) -> bool {
    exists|second: Result<Document, WorkspaceError>|
        {
            &&& #[trigger] settings_read(before, root, catalog, second)
            &&& match second {
                Err(e) => r == Err::<Document, WorkspaceError>(e),
                Ok(document) => exists|third: Result<Document, WorkspaceError>|
                    {
                        &&& #[trigger] faces_read(document, root, catalog, third)
                        &&& match third {
                            Err(e) => r == Err::<Document, WorkspaceError>(e),
                            Ok(document) => markers_read(document, root, catalog, r),
                        }
                    },
            }
        }
}

/// The outcome of reading a CrossSwap document as a workspace.
pub open spec fn imported(
    name: Seq<char>,
    value: Json,
    catalog: Seq<ControlSpec>,
    r: Result<Document, WorkspaceError>,
) -> bool {
    match value {
        Json::Object(root) => exists|fresh: Result<Document, WorkspaceError>|
            {
                &&& #[trigger] opened(name, catalog, fresh)
                &&& match fresh {
                    Err(e) => r == Err::<Document, WorkspaceError>(e),
                    Ok(document) => parts_read(document, root, catalog, r),
                }
            },
        _ => r matches Err(WorkspaceError::InvalidCrossSwap(message)) && message@
            == "workspace root must be an object"@,
    }
}

fn read_parts(document: WorkspaceDocument, root: &TextMap<Json>, catalog: &[ControlSpec]) -> (r:
    Result<WorkspaceDocument, WorkspaceError>)
    ensures
        parts_read(document@, *root, catalog@, content(r)),
{
    let ghost before = document@;
    let first = read_media(document, root);
    assert(media_read(before, *root, content(first)));
    match first {
        Err(e) => Err(e),
        Ok(document) => {
            let ghost known = document@;
            let r = read_later_parts(document, root, catalog);
            assert(later_parts_read(known, *root, catalog@, content(r)));
            r
        },
    }
}

fn read_later_parts(document: WorkspaceDocument, root: &TextMap<Json>, catalog: &[ControlSpec]) -> (r:
    Result<WorkspaceDocument, WorkspaceError>)
    ensures
        later_parts_read(document@, *root, catalog@, content(r)),
{
    let ghost before = document@;
    let second = read_settings(document, root, catalog);
    assert(settings_read(before, *root, catalog@, content(second)));
    match second {
        Err(e) => Err(e),
        Ok(document) => {
            let ghost known = document@;
            let third = read_faces(document, root, catalog);
            assert(faces_read(known, *root, catalog@, content(third)));
            match third {
                Err(e) => Err(e),
                Ok(document) => {
                    let ghost faces = document@;
                    let r = read_markers(document, root, catalog);
                    assert(markers_read(faces, *root, catalog@, content(r)));
                    r
                },
            }
        },
    }
}

impl WorkspaceDocument {
    /// The workspace that a CrossSwap document holds.
    pub fn from_crossswap_value(name: String, value: &Json, catalog: &[ControlSpec]) -> (r: Result<
        Self,
        WorkspaceError,
    >)
        ensures
            imported(name@, *value, catalog@, content(r)),
    {
        let root: &TextMap<Json> = match value.as_object() {
            Some(root) => root,
            None => return Err(WorkspaceError::InvalidCrossSwap("workspace root must be an object")),
        };
        let ghost called = name@;
        let fresh = WorkspaceDocument::new(name, catalog);
        assert(opened(called, catalog@, content(fresh)));
        match fresh {
            Err(e) => Err(e),
            Ok(document) => {
                let ghost known = document@;
                let r = read_parts(document, root, catalog);
                assert(parts_read(known, value->Object_0, catalog@, content(r)));
                r
            },
        }
    }
}

} // verus!
