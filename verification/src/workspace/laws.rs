//! What a CrossSwap document that was exported gives back when it is read.

use vstd::prelude::*;

use crate::controls::{
    complete_values_are_for_controls, default_fits, defaults, defaults_given, find, fits, in_scope,
    plain_accepted, plain_applied, plain_entry, plain_json_applied, plain_refusal, scope_json,
    writes, written_values_are_read,
};
use crate::controls::{ControlScope, ControlSpec, ControlStateError, ControlValue};
use crate::embeddings::{all_finite, embedded, sound_embedding, sound_store, EmbeddingStore};
use crate::faces::{
    no_faces, optional_crop, pending_added, store_added, target_added, Crop, Faces, Merged, Source,
    Target,
};
use crate::faces::{FaceCrop, FaceWorkspaceError};
use crate::json::Json;
use crate::media::{
    added_medium_is_selected, find_item, find_path, found_item_is_there, found_path_is_an_item,
    kept_in_order, kind_of, media_added, of_role, role_keeps_order, selection_survives_growth,
    unique_item_is_found, Library,
};
use crate::media::{MediaError, MediaId, MediaItem, MediaKind, MediaRole};
use crate::number::Single;
use crate::paths::path_equals;
use crate::text::{numeral, numeral_reads_back, numerals_are_distinct, whole_number};
use crate::timeline::{Marker, Timeline};
use crate::ordered::{
    ascending, entry_is_unique, every_set_is_listed, listed, map_grows, map_of, map_size,
};
use crate::ordered::TextMap;
use crate::trace::{folded, run_is_determined, runs};
use crate::workspace::document::{no_media, opened, Document};
use crate::workspace::document::{WorkspaceDocument, WorkspaceError};
use crate::workspace::export::{
    all_pictures, document_keys, identities_by_id, is_document, is_exported, is_selection,
    targets_by_id,
};
use crate::workspace::export::{
    are_markers, are_target_media, holds_paths, is_marker, is_marker_parameters, is_media_path,
    is_object, is_target_medium,
};
use crate::workspace::export::{
    holds_identities, holds_targets, is_control, is_identity, is_list, is_target_face,
    parameters_of,
};
use crate::workspace::import::{
    elements_of, faces_read, imported, later_parts_read, media_read, parts_read, selection_read,
    settings_read, sources_read,
};
use crate::workspace::import::{
    identifier_member, source_media_step, source_medium_read, source_name, source_path,
    target_media_step, target_medium_read, SourcesRead, TargetsRead,
};
use crate::workspace::import::{
    empty_timeline, entries_of, face_marker_read, face_markers_step, last_frame, marker_placed,
    marker_read, markers_read, markers_step, values_before, with_marker,
};
use crate::workspace::import::{
    assignments_read, controls_read, controls_read_twice, embedding_name, filled_target,
    identities_step, identity_read, merged_given_step, optional_crop_read, output_read,
    pictured_face_read, sources_given_step, target_face_read, target_faces_step, target_filled,
};
use crate::workspace::values::{
    array_member, crop_read, crop_reads_back, is_crop, is_store, listed_texts, member, object_member,
    some_store_read, store_read, store_reads_back, text_member, texts_among,
};

verus! {

/// Every value is one that its control can have.
pub open spec fn all_fit(values: Map<Seq<char>, ControlValue>, catalog: Seq<ControlSpec>) -> bool {
    forall|id: Seq<char>| #[trigger] values.dom().contains(id) ==> fits(catalog, id, values[id])
}

/// The values of an object that is read, over those that were there.
pub open spec fn over(
    target: Map<Seq<char>, ControlValue>,
    values: Map<Seq<char>, ControlValue>,
    o: Map<Seq<char>, Json>,
    catalog: Seq<ControlSpec>,
    read: Map<Seq<char>, ControlValue>,
) -> bool {
    &&& forall|id: Seq<char>| #[trigger]
        read.dom().contains(id) <==> target.dom().contains(id) || (o.dom().contains(id) && find(
            catalog,
            id,
        ) is Some)
    &&& forall|id: Seq<char>| #[trigger]
        read.dom().contains(id) ==> read[id] == if o.dom().contains(id) && find(catalog, id)
            is Some {
            values[id]
        } else {
            target[id]
        }
}

proof fn written_object_is_read(
    values: Map<Seq<char>, ControlValue>,
    target: Map<Seq<char>, ControlValue>,
    o: TextMap<Json>,
    catalog: Seq<ControlSpec>,
    r: Result<Map<Seq<char>, ControlValue>, ControlStateError>,
)
    requires
        ascending(o.pairs()),
        writes(o@, values, catalog),
        controls_read(target, Some(o), catalog, r),
    ensures
        r matches Ok(read) && over(target, values, o@, catalog, read),
{
    let entries = o.pairs();
    written_values_are_read(values, target, entries, catalog, entries.len());
    assert(entries.take(entries.len() as int) =~= entries);
    let (after, taken) = choose|
        after: Map<Seq<char>, ControlValue>,
        taken: Result<(), ControlStateError>,
    |
        {
            &&& #[trigger] plain_json_applied(target, entries, catalog, after, taken)
            &&& r == match taken {
                Ok(()) => Ok::<Map<Seq<char>, ControlValue>, ControlStateError>(after),
                Err(e) => Err(e),
            }
        };
    if let Err(e) = taken {
        let i = choose|i: int|
            {
                &&& 0 <= i < entries.len()
                &&& plain_accepted(entries, catalog, i)
                &&& plain_refusal(e, catalog, (#[trigger] entries[i]).0, entries[i].1)
                &&& after == plain_applied(target, entries, catalog, i as nat)
            };
        assert(!(plain_entry(catalog, entries[i].0, entries[i].1) is Refused));
        assert(false);
    }
}

/// The settings and the parameters of a document give every control its value back, whatever
/// values the reader starts from. No control may have the name under which the output directory
/// stands.
pub proof fn controls_read_back(
    values: Map<Seq<char>, ControlValue>,
    output: Option<Seq<char>>,
    target: Map<Seq<char>, ControlValue>,
    control: TextMap<Json>,
    parameters: TextMap<Json>,
    catalog: Seq<ControlSpec>,
    r: Result<Map<Seq<char>, ControlValue>, ControlStateError>,
)
    requires
        is_control(Json::Object(control), values, output, catalog),
        parameters@ == parameters_of(values, catalog),
        ascending(control.pairs()),
        ascending(parameters.pairs()),
        all_fit(values, catalog),
        find(catalog, "OutputMediaFolder"@) is None,
        controls_read_twice(target, Some(control), Some(parameters), catalog, r),
    ensures
        r == Ok::<Map<Seq<char>, ControlValue>, ControlStateError>(
            target.union_prefer_right(values),
        ),
{
    let settings = scope_json(values, ControlScope::Settings, catalog);
    let folder = "OutputMediaFolder"@;
    assert(control@ == settings.insert(folder, control@[folder]));
    assert(writes(control@, values, catalog)) by {
        assert forall|id: Seq<char>| #[trigger] control@.dom().contains(id) implies find(
            catalog,
            id,
        ) is None || {
            &&& values.dom().contains(id)
            &&& control@[id] == crate::controls::plain_json(values[id])
            &&& fits(catalog, id, values[id])
        } by {
            if id != folder {
                assert(settings.dom().contains(id));
            }
        }
    }
    assert(writes(parameters@, values, catalog));
    two_objects_are_read(values, target, control, parameters, catalog, r);
}

/// Two objects that together hold every value give every control its value back.
proof fn two_objects_are_read(
    values: Map<Seq<char>, ControlValue>,
    target: Map<Seq<char>, ControlValue>,
    control: TextMap<Json>,
    parameters: TextMap<Json>,
    catalog: Seq<ControlSpec>,
    r: Result<Map<Seq<char>, ControlValue>, ControlStateError>,
)
    requires
        ascending(control.pairs()),
        ascending(parameters.pairs()),
        all_fit(values, catalog),
        writes(control@, values, catalog),
        writes(parameters@, values, catalog),
        forall|id: Seq<char>| #[trigger]
            scope_json(values, ControlScope::Settings, catalog).dom().contains(id)
                ==> control@.dom().contains(id),
        forall|id: Seq<char>| #[trigger]
            parameters_of(values, catalog).dom().contains(id) ==> parameters@.dom().contains(id),
        controls_read_twice(target, Some(control), Some(parameters), catalog, r),
    ensures
        r == Ok::<Map<Seq<char>, ControlValue>, ControlStateError>(
            target.union_prefer_right(values),
        ),
{
    let taken = choose|taken: Result<Map<Seq<char>, ControlValue>, ControlStateError>|
        {
            &&& #[trigger] controls_read(target, Some(control), catalog, taken)
            &&& match taken {
                Err(e) => r == Err::<Map<Seq<char>, ControlValue>, ControlStateError>(e),
                Ok(found) => controls_read(found, Some(parameters), catalog, r),
            }
        };
    written_object_is_read(values, target, control, catalog, taken);
    let first = taken->Ok_0;
    written_object_is_read(values, first, parameters, catalog, r);
    let read = r->Ok_0;
    let whole = target.union_prefer_right(values);
    assert forall|id: Seq<char>| #[trigger] values.dom().contains(id) implies control@.dom().contains(
        id,
    ) || parameters@.dom().contains(id) by {
        assert(fits(catalog, id, values[id]));
        has_a_scope(catalog, id);
        if in_scope(catalog, ControlScope::Settings, id) {
            assert(scope_json(values, ControlScope::Settings, catalog).dom().contains(id));
        } else if in_scope(catalog, ControlScope::Common, id) {
            assert(scope_json(values, ControlScope::Common, catalog).dom().contains(id));
            assert(parameters_of(values, catalog).dom().contains(id));
        } else {
            assert(scope_json(values, ControlScope::Swapper, catalog).dom().contains(id));
            assert(parameters_of(values, catalog).dom().contains(id));
        }
    }
    assert forall|id: Seq<char>| #[trigger] read.dom().contains(id) <==> whole.dom().contains(
        id,
    ) by {
        assert(first.dom().contains(id) <==> target.dom().contains(id) || (control@.dom().contains(
            id,
        ) && find(catalog, id) is Some));
        if values.dom().contains(id) {
            assert(fits(catalog, id, values[id]));
        }
    }
    assert forall|id: Seq<char>| #[trigger] read.dom().contains(id) implies read[id] == whole[id] by {
        if values.dom().contains(id) {
            assert(fits(catalog, id, values[id]));
            if !parameters@.dom().contains(id) {
                assert(first.dom().contains(id));
            }
        } else {
            assert(!(parameters@.dom().contains(id) && find(catalog, id) is Some));
            assert(!(control@.dom().contains(id) && find(catalog, id) is Some));
            assert(first.dom().contains(id));
        }
    }
    assert(read =~= whole);
}

/// A control that the catalog has is of one of the scopes.
proof fn has_a_scope(catalog: Seq<ControlSpec>, id: Seq<char>)
    requires
        find(catalog, id) is Some,
    ensures
        in_scope(catalog, ControlScope::Settings, id) || in_scope(
            catalog,
            ControlScope::Common,
            id,
        ) || in_scope(catalog, ControlScope::Swapper, id),
    decreases catalog.len(),
{
    if catalog.len() > 0 {
        if catalog[0].id@ == id {
            assert(in_scope(catalog, catalog[0].scope, id));
        } else {
            let rest = catalog.drop_first();
            has_a_scope(rest, id);
            let scope = choose|scope: ControlScope| in_scope(rest, scope, id);
            let i = choose|i: int|
                0 <= i < rest.len() && (#[trigger] rest[i]).id@ == id && rest[i].scope == scope;
            assert(catalog[i + 1] == rest[i]);
            assert(in_scope(catalog, scope, id));
        }
    }
}

/// The output directory of a document is read back, unless its name is empty: an empty name stands
/// for none.
pub proof fn output_reads_back(
    values: Map<Seq<char>, ControlValue>,
    output: Option<Seq<char>>,
    root: TextMap<Json>,
    before: Option<Seq<char>>,
    catalog: Seq<ControlSpec>,
)
    requires
        object_member(root, "control"@) matches Some(control) && is_control(
            Json::Object(control),
            values,
            output,
            catalog,
        ),
        output matches Some(path) ==> path.len() > 0,
    ensures
        output_read(before, root) == output,
{
    let control = object_member(root, "control"@)->0;
    let folder = "OutputMediaFolder"@;
    assert(control@.dom().contains(folder));
    assert(control@[folder].text() is Some);
}

/// The embeddings in a document are held in order.
pub open spec fn store_in_order(value: Json) -> bool {
    value matches Json::Object(store) ==> ascending(store.pairs())
}

/// A merged identity as it is after it was read: which sources it came from is not kept.
pub open spec fn loaded(id: Seq<char>, merged: Merged) -> Merged {
    Merged { id, name: merged.name, source_ids: Seq::empty(), embeddings: merged.embeddings }
}

/// Merged identities as they are after they were read.
pub open spec fn all_loaded(identities: Map<Seq<char>, Merged>) -> Map<Seq<char>, Merged> {
    Map::new(
        |id: Seq<char>| identities.dom().contains(id),
        |id: Seq<char>| loaded(id, identities[id]),
    )
}

/// A face workspace with one more merged identity.
pub open spec fn with_loaded(faces: Faces, id: Seq<char>, merged: Merged) -> Faces {
    Faces { merged: faces.merged.insert(id, loaded(id, merged)), ..faces }
}

/// A store that was written is read back, by the reader that asks for embeddings.
proof fn sound_store_reads_back(
    store: Map<Seq<char>, Seq<Single>>,
    value: Json,
    r: Result<EmbeddingStore, &'static str>,
)
    requires
        is_store(value, store),
        sound_store(store),
        store_in_order(value),
        some_store_read(Some(value), r),
    ensures
        r matches Ok(read) && embedded(read) == store,
{
    let found = choose|found: Result<EmbeddingStore, &'static str>|
        {
            &&& #[trigger] store_read(Some(value), found)
            &&& match found {
                Err(message) => r == Err::<EmbeddingStore, &'static str>(message),
                Ok(store) => if embedded(store).dom() == Set::<Seq<char>>::empty() {
                    r matches Err(message) && message@
                        == "embedding_store must contain at least one model"@
                } else {
                    r == Ok::<EmbeddingStore, &'static str>(store)
                },
            }
        };
    assert forall|key: Seq<char>| #[trigger] store.dom().contains(key) implies all_finite(
        store[key],
    ) by {
        assert(sound_embedding(store[key]));
    }
    store_reads_back(store, value, found);
}

proof fn identity_reads_back(
    before: Faces,
    id: Seq<char>,
    value: Json,
    merged: Merged,
    r: Result<Faces, WorkspaceError>,
)
    requires
        is_identity(value, merged),
        sound_store(merged.embeddings),
        value matches Json::Object(o) ==> store_in_order(o@["embedding_store"@]),
        !before.names_identity(id),
        identity_read(before, (id, value), r),
    ensures
        r == Ok::<Faces, WorkspaceError>(with_loaded(before, id, merged)),
{
    let o = value->Object_0;
    let json = o@["embedding_store"@];
    assert(o@.dom().contains("embedding_store"@));
    assert(o@.dom().contains("embedding_name"@));
    assert(member(o, "embedding_store"@) == Some(json));
    let store = choose|store: Result<EmbeddingStore, &'static str>|
        {
            &&& #[trigger] some_store_read(member(o, "embedding_store"@), store)
            &&& match store {
                Err(message) => r == Err::<Faces, WorkspaceError>(
                    WorkspaceError::InvalidCrossSwap(message),
                ),
                Ok(store) => exists|after: Faces, added: Result<(), FaceWorkspaceError>|
                    {
                        &&& #[trigger] store_added(
                            before,
                            after,
                            id,
                            embedding_name(o, id),
                            embedded(store),
                            added,
                        )
                        &&& r == match added {
                            Ok(()) => Ok::<Faces, WorkspaceError>(after),
                            Err(e) => Err(WorkspaceError::Faces(e)),
                        }
                    },
            }
        };
    sound_store_reads_back(merged.embeddings, json, store);
    assert(embedding_name(o, id) == merged.name);
}

/// Merged identities that were exported are read back with their names and embeddings, where no
/// identity has one of their ids already.
pub proof fn identities_read_back(
    identities: Map<Seq<char>, Merged>,
    o: TextMap<Json>,
    before: Faces,
    r: Result<Faces, WorkspaceError>,
)
    requires
        holds_identities(o@, identities),
        ascending(o.pairs()),
        forall|id: Seq<char>| #[trigger]
            identities.dom().contains(id) ==> {
                &&& sound_store(identities[id].embeddings)
                &&& o@[id] matches Json::Object(entry) ==> store_in_order(
                    entry@["embedding_store"@],
                )
                &&& !before.names_identity(id)
            },
        runs(identities_step(), before, o.pairs(), r),
    ensures
        r == Ok::<Faces, WorkspaceError>(
            Faces { merged: before.merged.union_prefer_right(all_loaded(identities)), ..before },
        ),
{
    let items = o.pairs();
    let next = |faces: Faces, entry: (Seq<char>, Json)|
        with_loaded(faces, entry.0, identities[entry.0]);
    assert forall|i: int, out: Result<Faces, WorkspaceError>|
        0 <= i < items.len() && #[trigger] identities_step()(
            folded(next, before, items, i as nat),
            items[i],
            out,
        ) implies out == Ok::<Faces, WorkspaceError>(
        next(folded(next, before, items, i as nat), items[i]),
    ) by {
        identities_so_far(identities, o, before, i as nat);
        entry_is_unique(items, i);
        let id = items[i].0;
        assert(identities.dom().contains(id));
        assert(!before.names_identity(id));
        let here = folded(next, before, items, i as nat);
        map_grows(items, i);
        identity_reads_back(here, id, items[i].1, identities[id], out);
    }
    run_is_determined(identities_step(), next, before, items, r);
    identities_so_far(identities, o, before, items.len());
    let end = folded(next, before, items, items.len());
    assert(items.take(items.len() as int) =~= items);
    assert(end.merged =~= before.merged.union_prefer_right(all_loaded(identities)));
}

proof fn identities_so_far(
    identities: Map<Seq<char>, Merged>,
    o: TextMap<Json>,
    before: Faces,
    n: nat,
)
    requires
        holds_identities(o@, identities),
        ascending(o.pairs()),
        n <= o.pairs().len(),
    ensures
        ({
            let next = |faces: Faces, entry: (Seq<char>, Json)|
                with_loaded(faces, entry.0, identities[entry.0]);
            let here = folded(next, before, o.pairs(), n);
            let keys = map_of(o.pairs().take(n as int)).dom();
            &&& here == (Faces { merged: here.merged, ..before })
            &&& forall|id: Seq<char>| #[trigger]
                here.merged.dom().contains(id) <==> before.merged.dom().contains(id)
                    || keys.contains(id)
            &&& forall|id: Seq<char>| #[trigger]
                here.merged.dom().contains(id) ==> here.merged[id] == if keys.contains(id) {
                    loaded(id, identities[id])
                } else {
                    before.merged[id]
                }
        }),
    decreases n,
{
    let items = o.pairs();
    if n == 0 {
        assert(map_of(items.take(0)).dom() =~= Set::<Seq<char>>::empty());
    } else {
        identities_so_far(identities, o, before, (n - 1) as nat);
        map_grows(items, n - 1);
        assert(map_of(items.take(n as int)) == map_of(items.take(n - 1)).insert(
            items[n - 1].0,
            items[n - 1].1,
        ));
    }
}

/// A list of texts is read back.
proof fn list_reads_back(value: Json, list: Seq<Seq<char>>)
    requires
        is_list(value, list),
    ensures
        listed_texts(Some(value)) == list,
{
    let elements = value->Array_0@;
    texts_are_read(elements, list, list.len());
    assert(list.take(list.len() as int) =~= list);
}

proof fn texts_are_read(elements: Seq<Json>, list: Seq<Seq<char>>, n: nat)
    requires
        elements.len() == list.len(),
        forall|i: int| 0 <= i < list.len() ==> (#[trigger] elements[i]).text() == Some(list[i]),
        n <= list.len(),
    ensures
        texts_among(elements, n) == list.take(n as int),
    decreases n,
{
    if n == 0 {
        assert(list.take(0) =~= Seq::<Seq<char>>::empty());
    } else {
        texts_are_read(elements, list, (n - 1) as nat);
        assert(elements[n - 1].text() == Some(list[n - 1]));
        assert(list.take(n as int) =~= list.take(n - 1).push(list[n - 1]));
    }
}

/// The texts that stand among the first `n` of a list.
pub open spec fn among_first(list: Seq<Seq<char>>, n: nat) -> Set<Seq<char>> {
    Set::new(|text: Seq<char>| exists|i: int| 0 <= i < n && #[trigger] list[i] == text)
}

proof fn among_more(list: Seq<Seq<char>>, n: nat)
    requires
        n > 0,
    ensures
        among_first(list, n) == among_first(list, (n - 1) as nat).insert(list[n - 1]),
{
    let more = among_first(list, n);
    let fewer = among_first(list, (n - 1) as nat);
    assert forall|text: Seq<char>| #[trigger] more.contains(text) <==> fewer.insert(
        list[n - 1],
    ).contains(text) by {
        if more.contains(text) {
            let i = choose|i: int| 0 <= i < n && #[trigger] list[i] == text;
            if i < n - 1 {
                assert(fewer.contains(text));
            }
        }
        if fewer.contains(text) {
            let i = choose|i: int| 0 <= i < n - 1 && #[trigger] list[i] == text;
            assert(list[i] == text);
        }
        if text == list[n - 1] {
            assert(list[n - 1] == text);
        }
    }
    assert(more =~= fewer.insert(list[n - 1]));
}

/// A finite set of texts is what its listing lists.
proof fn listing_has_all(texts: Set<Seq<char>>)
    requires
        texts.finite(),
    ensures
        among_first(listed(texts), listed(texts).len()) == texts,
        forall|i: int| 0 <= i < listed(texts).len() ==> texts.contains(#[trigger] listed(texts)[i]),
{
    every_set_is_listed(texts);
    let list = listed(texts);
    assert forall|i: int| 0 <= i < list.len() implies texts.contains(#[trigger] list[i]) by {
        assert(list.contains(list[i]));
    }
    assert forall|text: Seq<char>| #[trigger] texts.contains(text) <==> among_first(
        list,
        list.len(),
    ).contains(text) by {
        if texts.contains(text) {
            assert(list.contains(text));
            let i = list.index_of(text);
            assert(list[i] == text);
        }
    }
    assert(among_first(list, list.len()) =~= texts);
}

proof fn sources_are_given(
    before: Faces,
    id: Seq<char>,
    list: Seq<Seq<char>>,
    r: Result<Faces, WorkspaceError>,
)
    requires
        before.targets.dom().contains(id),
        before.targets[id].sources == Set::<Seq<char>>::empty(),
        forall|i: int| 0 <= i < list.len() ==> before.sources.dom().contains(#[trigger] list[i]),
        runs(sources_given_step(id), before, list, r),
    ensures
        r == Ok::<Faces, WorkspaceError>(
            before.with_sources(Some(id), among_first(list, list.len())),
        ),
{
    let next = |faces: Faces, source: Seq<char>|
        faces.with_sources(Some(id), faces.assigned_sources(Some(id)).insert(source));
    assert forall|i: int, out: Result<Faces, WorkspaceError>|
        0 <= i < list.len() && #[trigger] sources_given_step(id)(
            folded(next, before, list, i as nat),
            list[i],
            out,
        ) implies out == Ok::<Faces, WorkspaceError>(
        next(folded(next, before, list, i as nat), list[i]),
    ) by {
        sources_given_so_far(before, id, list, i as nat);
        assert(before.sources.dom().contains(list[i]));
    }
    run_is_determined(sources_given_step(id), next, before, list, r);
    sources_given_so_far(before, id, list, list.len());
}

proof fn sources_given_so_far(before: Faces, id: Seq<char>, list: Seq<Seq<char>>, n: nat)
    requires
        before.targets.dom().contains(id),
        before.targets[id].sources == Set::<Seq<char>>::empty(),
        n <= list.len(),
    ensures
        ({
            let next = |faces: Faces, source: Seq<char>|
                faces.with_sources(Some(id), faces.assigned_sources(Some(id)).insert(source));
            folded(next, before, list, n) == before.with_sources(
                Some(id),
                among_first(list, n),
            )
        }),
    decreases n,
{
    let next = |faces: Faces, source: Seq<char>|
        faces.with_sources(Some(id), faces.assigned_sources(Some(id)).insert(source));
    if n == 0 {
        assert(among_first(list, 0) =~= Set::<Seq<char>>::empty());
        assert(before.with_sources(Some(id), Set::empty()) =~= before) by {
            assert(before.targets.insert(id, before.targets[id]) =~= before.targets);
        }
    } else {
        sources_given_so_far(before, id, list, (n - 1) as nat);
        among_more(list, n);
        let here = folded(next, before, list, (n - 1) as nat);
        assert(folded(next, before, list, n) =~= before.with_sources(
            Some(id),
            among_first(list, n),
        )) by {
            assert(here.assigned_sources(Some(id)) == among_first(list, (n - 1) as nat));
            assert(folded(next, before, list, n).targets =~= before.with_sources(
                Some(id),
                among_first(list, n),
            ).targets);
        }
    }
}

proof fn merged_are_given(
    before: Faces,
    id: Seq<char>,
    list: Seq<Seq<char>>,
    r: Result<Faces, WorkspaceError>,
)
    requires
        before.targets.dom().contains(id),
        before.targets[id].merged == Set::<Seq<char>>::empty(),
        forall|i: int| 0 <= i < list.len() ==> before.merged.dom().contains(#[trigger] list[i]),
        runs(merged_given_step(id), before, list, r),
    ensures
        r == Ok::<Faces, WorkspaceError>(
            before.with_merged(Some(id), among_first(list, list.len())),
        ),
{
    let next = |faces: Faces, merged: Seq<char>|
        faces.with_merged(Some(id), faces.assigned_merged(Some(id)).insert(merged));
    assert forall|i: int, out: Result<Faces, WorkspaceError>|
        0 <= i < list.len() && #[trigger] merged_given_step(id)(
            folded(next, before, list, i as nat),
            list[i],
            out,
        ) implies out == Ok::<Faces, WorkspaceError>(
        next(folded(next, before, list, i as nat), list[i]),
    ) by {
        merged_given_so_far(before, id, list, i as nat);
        assert(before.merged.dom().contains(list[i]));
    }
    run_is_determined(merged_given_step(id), next, before, list, r);
    merged_given_so_far(before, id, list, list.len());
}

proof fn merged_given_so_far(before: Faces, id: Seq<char>, list: Seq<Seq<char>>, n: nat)
    requires
        before.targets.dom().contains(id),
        before.targets[id].merged == Set::<Seq<char>>::empty(),
        n <= list.len(),
    ensures
        ({
            let next = |faces: Faces, merged: Seq<char>|
                faces.with_merged(Some(id), faces.assigned_merged(Some(id)).insert(merged));
            folded(next, before, list, n) == before.with_merged(
                Some(id),
                among_first(list, n),
            )
        }),
    decreases n,
{
    let next = |faces: Faces, merged: Seq<char>|
        faces.with_merged(Some(id), faces.assigned_merged(Some(id)).insert(merged));
    if n == 0 {
        assert(among_first(list, 0) =~= Set::<Seq<char>>::empty());
        assert(before.with_merged(Some(id), Set::empty()) =~= before) by {
            assert(before.targets.insert(id, before.targets[id]) =~= before.targets);
        }
    } else {
        merged_given_so_far(before, id, list, (n - 1) as nat);
        among_more(list, n);
        let here = folded(next, before, list, (n - 1) as nat);
        assert(folded(next, before, list, n) =~= before.with_merged(
            Some(id),
            among_first(list, n),
        )) by {
            assert(here.assigned_merged(Some(id)) == among_first(list, (n - 1) as nat));
            assert(folded(next, before, list, n).targets =~= before.with_merged(
                Some(id),
                among_first(list, n),
            ).targets);
        }
    }
}

proof fn assignments_read_back(
    before: Faces,
    id: Seq<char>,
    o: TextMap<Json>,
    target: Target,
    r: Result<Faces, WorkspaceError>,
)
    requires
        before.targets.dom().contains(id),
        before.targets[id].sources == Set::<Seq<char>>::empty(),
        before.targets[id].merged == Set::<Seq<char>>::empty(),
        member(o, "assigned_input_faces"@) matches Some(value) && is_list(
            value,
            listed(target.sources),
        ),
        member(o, "assigned_merged_embeddings"@) matches Some(value) && is_list(
            value,
            listed(target.merged),
        ),
        target.sources.finite(),
        target.merged.finite(),
        target.sources.subset_of(before.sources.dom()),
        target.merged.subset_of(before.merged.dom()),
        assignments_read(before, id, o, r),
    ensures
        r == Ok::<Faces, WorkspaceError>(
            Faces {
                targets: before.targets.insert(
                    id,
                    Target {
                        sources: target.sources,
                        merged: target.merged,
                        ..before.targets[id]
                    },
                ),
                ..before
            },
        ),
{
    list_reads_back(member(o, "assigned_input_faces"@)->0, listed(target.sources));
    list_reads_back(member(o, "assigned_merged_embeddings"@)->0, listed(target.merged));
    listing_has_all(target.sources);
    listing_has_all(target.merged);
    let given = choose|given: Result<Faces, WorkspaceError>|
        {
            &&& #[trigger] runs(
                sources_given_step(id),
                before,
                listed_texts(member(o, "assigned_input_faces"@)),
                given,
            )
            &&& match given {
                Err(e) => r == Err::<Faces, WorkspaceError>(e),
                Ok(faces) => runs(
                    merged_given_step(id),
                    faces,
                    listed_texts(member(o, "assigned_merged_embeddings"@)),
                    r,
                ),
            }
        };
    sources_are_given(before, id, listed(target.sources), given);
    let faces = given->Ok_0;
    merged_are_given(faces, id, listed(target.merged), r);
    let end = r->Ok_0;
    assert(end.targets =~= before.targets.insert(
        id,
        Target { sources: target.sources, merged: target.merged, ..before.targets[id] },
    ));
}

/// A target face as it is after it was read: its medium is not kept, and its controls stand over
/// those of the workspace.
pub open spec fn kept_target(
    controls: Map<Seq<char>, ControlValue>,
    id: Seq<char>,
    target: Target,
) -> Target {
    Target {
        id,
        media_id: None,
        controls: controls.union_prefer_right(target.controls),
        ..target
    }
}

/// A face workspace with one more target face. It is selected where none is.
pub open spec fn with_kept(
    faces: Faces,
    controls: Map<Seq<char>, ControlValue>,
    id: Seq<char>,
    target: Target,
) -> Faces {
    Faces {
        targets: faces.targets.insert(id, kept_target(controls, id, target)),
        selected: if faces.selected is None && !faces.swap_all {
            Some(id)
        } else {
            faces.selected
        },
        ..faces
    }
}

/// A target face that can be read back: it has a whole picture, its embeddings are sound, its
/// values fit, and the identities that it refers to are there.
pub open spec fn readable_target(target: Target, faces: Faces, catalog: Seq<ControlSpec>) -> bool {
    &&& target.crop matches Some(crop) && crop.width > 0 && crop.height > 0 && crop.rgb.len()
        == crop.width * crop.height * 3
    &&& sound_store(target.embeddings)
    &&& forall|model: Seq<char>| #[trigger]
        target.cache.dom().contains(model) ==> all_finite(target.cache[model])
    &&& all_fit(target.controls, catalog)
    &&& target.sources.finite()
    &&& target.merged.finite()
    &&& target.sources.subset_of(faces.sources.dom())
    &&& target.merged.subset_of(faces.merged.dom())
}

/// The objects within the entry of a target face are held in order.
pub open spec fn target_in_order(value: Json) -> bool {
    value matches Json::Object(o) ==> {
        &&& store_in_order(o@["embedding_store"@])
        &&& store_in_order(o@["assigned_input_embedding"@])
        &&& store_in_order(o@["control"@])
        &&& store_in_order(o@["parameters"@])
    }
}

proof fn target_is_filled(
    before: Faces,
    id: Seq<char>,
    o: TextMap<Json>,
    target: Target,
    controls: Map<Seq<char>, ControlValue>,
    catalog: Seq<ControlSpec>,
    r: Result<Faces, WorkspaceError>,
)
    requires
        is_target_face(Json::Object(o), target, catalog),
        target_in_order(Json::Object(o)),
        readable_target(target, before, catalog),
        before.targets.dom().contains(id),
        before.targets[id].sources == Set::<Seq<char>>::empty(),
        before.targets[id].merged == Set::<Seq<char>>::empty(),
        target_filled(before, id, o, controls, catalog, r),
    ensures
        r == Ok::<Faces, WorkspaceError>(
            Faces {
                targets: before.targets.insert(
                    id,
                    Target {
                        controls: controls.union_prefer_right(target.controls),
                        cache: target.cache,
                        sources: target.sources,
                        merged: target.merged,
                        ..before.targets[id]
                    },
                ),
                ..before
            },
        ),
{
    let taken = choose|taken: Result<Map<Seq<char>, ControlValue>, ControlStateError>|
        {
            &&& #[trigger] controls_read_twice(
                controls,
                object_member(o, "control"@),
                object_member(o, "parameters"@),
                catalog,
                taken,
            )
            &&& match taken {
                Err(e) => r == Err::<Faces, WorkspaceError>(WorkspaceError::Controls(e)),
                Ok(values) => exists|cache: Result<EmbeddingStore, &'static str>|
                    {
                        &&& #[trigger] store_read(
                            member(o, "assigned_input_embedding"@),
                            cache,
                        )
                        &&& match cache {
                            Err(message) => r == Err::<Faces, WorkspaceError>(
                                WorkspaceError::InvalidCrossSwap(message),
                            ),
                            Ok(store) => assignments_read(
                                filled_target(before, id, values, embedded(store)),
                                id,
                                o,
                                r,
                            ),
                        }
                    },
            }
        };
    target_members(o, target, catalog);
    let control = object_member(o, "control"@)->0;
    let parameters = object_member(o, "parameters"@)->0;
    assert(writes(control@, target.controls, catalog));
    assert(writes(parameters@, target.controls, catalog));
    two_objects_are_read(target.controls, controls, control, parameters, catalog, taken);
    let values = taken->Ok_0;
    let cache = choose|cache: Result<EmbeddingStore, &'static str>|
        {
            &&& #[trigger] store_read(member(o, "assigned_input_embedding"@), cache)
            &&& match cache {
                Err(message) => r == Err::<Faces, WorkspaceError>(
                    WorkspaceError::InvalidCrossSwap(message),
                ),
                Ok(store) => assignments_read(
                    filled_target(before, id, values, embedded(store)),
                    id,
                    o,
                    r,
                ),
            }
        };
    store_reads_back(target.cache, o@["assigned_input_embedding"@], cache);
    let filled = filled_target(before, id, values, embedded(cache->Ok_0));
    assignments_read_back(filled, id, o, target, r);
    assert((r->Ok_0).targets =~= before.targets.insert(
        id,
        Target {
            controls: controls.union_prefer_right(target.controls),
            cache: target.cache,
            sources: target.sources,
            merged: target.merged,
            ..before.targets[id]
        },
    ));
}

/// The members of the entry of a target face.
proof fn target_members(o: TextMap<Json>, target: Target, catalog: Seq<ControlSpec>)
    requires
        is_target_face(Json::Object(o), target, catalog),
        target_in_order(Json::Object(o)),
    ensures
        object_member(o, "control"@) matches Some(control) && control@ == scope_json(
            target.controls,
            ControlScope::Settings,
            catalog,
        ) && ascending(control.pairs()),
        object_member(o, "parameters"@) matches Some(parameters) && parameters@ == parameters_of(
            target.controls,
            catalog,
        ) && ascending(parameters.pairs()),
        member(o, "embedding_store"@) == Some(o@["embedding_store"@]),
        member(o, "cropped_face"@) == Some(o@["cropped_face"@]),
        member(o, "assigned_input_embedding"@) == Some(o@["assigned_input_embedding"@]),
        member(o, "assigned_input_faces"@) == Some(o@["assigned_input_faces"@]),
        member(o, "assigned_merged_embeddings"@) == Some(o@["assigned_merged_embeddings"@]),
{
    assert(o@.dom().contains("control"@));
    assert(o@.dom().contains("parameters"@));
    assert(o@.dom().contains("embedding_store"@));
    assert(o@.dom().contains("cropped_face"@));
    assert(o@.dom().contains("assigned_input_embedding"@));
    assert(o@.dom().contains("assigned_input_faces"@));
    assert(o@.dom().contains("assigned_merged_embeddings"@));
}

proof fn target_reads_back(
    before: Faces,
    id: Seq<char>,
    value: Json,
    target: Target,
    controls: Map<Seq<char>, ControlValue>,
    catalog: Seq<ControlSpec>,
    r: Result<Faces, WorkspaceError>,
)
    requires
        is_target_face(value, target, catalog),
        target_in_order(value),
        readable_target(target, before, catalog),
        !before.targets.dom().contains(id),
        forall|i: int| 0 <= i < catalog.len() ==> #[trigger] default_fits(catalog, i),
        target_face_read(controls, catalog, before, (id, value), r),
    ensures
        r == Ok::<Faces, WorkspaceError>(with_kept(before, controls, id, target)),
{
    let o = value->Object_0;
    assert(value == Json::Object(o));
    target_members(o, target, catalog);
    let store = choose|store: Result<EmbeddingStore, &'static str>|
        {
            &&& #[trigger] some_store_read(member(o, "embedding_store"@), store)
            &&& match store {
                Err(message) => r == Err::<Faces, WorkspaceError>(
                    WorkspaceError::InvalidCrossSwap(message),
                ),
                Ok(store) => pictured_face_read(
                    controls,
                    catalog,
                    before,
                    id,
                    o,
                    embedded(store),
                    r,
                ),
            }
        };
    sound_store_reads_back(target.embeddings, o@["embedding_store"@], store);
    let crop = choose|crop: Result<Option<FaceCrop>, &'static str>|
        {
            &&& #[trigger] optional_crop_read(member(o, "cropped_face"@), crop)
            &&& match crop {
                Err(message) => r == Err::<Faces, WorkspaceError>(
                    WorkspaceError::InvalidCrossSwap(message),
                ),
                Ok(crop) => exists|after: Faces, added: Result<(), FaceWorkspaceError>|
                    {
                        &&& #[trigger] target_added(
                            before,
                            after,
                            id,
                            None,
                            target.embeddings,
                            optional_crop(crop),
                            catalog,
                            added,
                        )
                        &&& match added {
                            Err(e) => r == Err::<Faces, WorkspaceError>(WorkspaceError::Faces(e)),
                            Ok(()) => target_filled(after, id, o, controls, catalog, r),
                        }
                    },
            }
        };
    picture_reads_back(o@["cropped_face"@], target.crop->0, crop);
    let picture = crop->Ok_0;
    let (after, added) = choose|after: Faces, added: Result<(), FaceWorkspaceError>|
        {
            &&& #[trigger] target_added(
                before,
                after,
                id,
                None,
                target.embeddings,
                optional_crop(picture),
                catalog,
                added,
            )
            &&& match added {
                Err(e) => r == Err::<Faces, WorkspaceError>(WorkspaceError::Faces(e)),
                Ok(()) => target_filled(after, id, o, controls, catalog, r),
            }
        };
    if let Err(e) = added {
        assert(e is Controls);
        let inner = e->Controls_0;
        assert(defaults_given(catalog, Err(inner)));
        assert(false);
    }
    target_is_filled(after, id, o, target, controls, catalog, r);
    assert((r->Ok_0).targets =~= with_kept(before, controls, id, target).targets);
}

proof fn picture_reads_back(value: Json, crop: Crop, r: Result<Option<FaceCrop>, &'static str>)
    requires
        is_crop(value, crop),
        crop.width > 0,
        crop.height > 0,
        crop.rgb.len() == crop.width * crop.height * 3,
        optional_crop_read(Some(value), r),
    ensures
        r matches Ok(read) && optional_crop(read) == Some(crop),
{
    let found = choose|found: Result<FaceCrop, &'static str>| #[trigger]
        crop_read(value, found) && r == match found {
            Ok(crop) => Ok::<Option<FaceCrop>, &'static str>(Some(crop)),
            Err(message) => Err(message),
        };
    crop_reads_back(crop, value, found);
}

/// Target faces as they are after they were read.
pub open spec fn all_kept(
    controls: Map<Seq<char>, ControlValue>,
    targets: Map<Seq<char>, Target>,
) -> Map<Seq<char>, Target> {
    Map::new(
        |id: Seq<char>| targets.dom().contains(id),
        |id: Seq<char>| kept_target(controls, id, targets[id]),
    )
}

/// Target faces that were exported are read back with their pictures, embeddings, controls and
/// assignments, where each of them can be and none has one of their ids already.
pub proof fn targets_read_back(
    targets: Map<Seq<char>, Target>,
    o: TextMap<Json>,
    controls: Map<Seq<char>, ControlValue>,
    catalog: Seq<ControlSpec>,
    before: Faces,
    r: Result<Faces, WorkspaceError>,
)
    requires
        holds_targets(o@, targets, catalog),
        ascending(o.pairs()),
        forall|i: int| 0 <= i < catalog.len() ==> #[trigger] default_fits(catalog, i),
        forall|id: Seq<char>| #[trigger]
            targets.dom().contains(id) ==> {
                &&& readable_target(targets[id], before, catalog)
                &&& target_in_order(o@[id])
                &&& !before.targets.dom().contains(id)
            },
        runs(target_faces_step(controls, catalog), before, o.pairs(), r),
    ensures
        r matches Ok(read) && read == (Faces {
            targets: before.targets.union_prefer_right(all_kept(controls, targets)),
            selected: read.selected,
            ..before
        }),
{
    let items = o.pairs();
    let next = |faces: Faces, entry: (Seq<char>, Json)|
        with_kept(faces, controls, entry.0, targets[entry.0]);
    assert forall|i: int, out: Result<Faces, WorkspaceError>|
        0 <= i < items.len() && #[trigger] target_faces_step(controls, catalog)(
            folded(next, before, items, i as nat),
            items[i],
            out,
        ) implies out == Ok::<Faces, WorkspaceError>(
        next(folded(next, before, items, i as nat), items[i]),
    ) by {
        targets_so_far(targets, o, controls, before, i as nat);
        entry_is_unique(items, i);
        map_grows(items, i);
        let id = items[i].0;
        assert(targets.dom().contains(id));
        let here = folded(next, before, items, i as nat);
        target_reads_back(here, id, items[i].1, targets[id], controls, catalog, out);
    }
    run_is_determined(target_faces_step(controls, catalog), next, before, items, r);
    targets_so_far(targets, o, controls, before, items.len());
    let end = folded(next, before, items, items.len());
    assert(items.take(items.len() as int) =~= items);
    assert(end.targets =~= before.targets.union_prefer_right(all_kept(controls, targets)));
}

proof fn targets_so_far(
    targets: Map<Seq<char>, Target>,
    o: TextMap<Json>,
    controls: Map<Seq<char>, ControlValue>,
    before: Faces,
    n: nat,
)
    requires
        ascending(o.pairs()),
        n <= o.pairs().len(),
    ensures
        ({
            let next = |faces: Faces, entry: (Seq<char>, Json)|
                with_kept(faces, controls, entry.0, targets[entry.0]);
            let here = folded(next, before, o.pairs(), n);
            let keys = map_of(o.pairs().take(n as int)).dom();
            &&& here == (Faces { targets: here.targets, selected: here.selected, ..before })
            &&& forall|id: Seq<char>| #[trigger]
                here.targets.dom().contains(id) <==> before.targets.dom().contains(id)
                    || keys.contains(id)
            &&& forall|id: Seq<char>| #[trigger]
                here.targets.dom().contains(id) ==> here.targets[id] == if keys.contains(id) {
                    kept_target(controls, id, targets[id])
                } else {
                    before.targets[id]
                }
        }),
    decreases n,
{
    let items = o.pairs();
    if n == 0 {
        assert(map_of(items.take(0)).dom() =~= Set::<Seq<char>>::empty());
    } else {
        targets_so_far(targets, o, controls, before, (n - 1) as nat);
        map_grows(items, n - 1);
        assert(map_of(items.take(n as int)) == map_of(items.take(n - 1)).insert(
            items[n - 1].0,
            items[n - 1].1,
        ));
    }
}

/// Values over others: those for which a document has an entry.
pub open spec fn taken_over(
    target: Map<Seq<char>, ControlValue>,
    values: Map<Seq<char>, ControlValue>,
    document: Map<Seq<char>, Json>,
) -> Map<Seq<char>, ControlValue> {
    target.union_prefer_right(values.restrict(document.dom()))
}

proof fn scope_is_read(
    values: Map<Seq<char>, ControlValue>,
    target: Map<Seq<char>, ControlValue>,
    o: TextMap<Json>,
    catalog: Seq<ControlSpec>,
    r: Result<Map<Seq<char>, ControlValue>, ControlStateError>,
)
    requires
        ascending(o.pairs()),
        all_fit(values, catalog),
        writes(o@, values, catalog),
        o@.dom().subset_of(values.dom()),
        controls_read(target, Some(o), catalog, r),
    ensures
        r == Ok::<Map<Seq<char>, ControlValue>, ControlStateError>(
            taken_over(target, values, o@),
        ),
{
    written_object_is_read(values, target, o, catalog, r);
    let read = r->Ok_0;
    let whole = taken_over(target, values, o@);
    assert forall|id: Seq<char>| #[trigger] read.dom().contains(id) <==> whole.dom().contains(
        id,
    ) by {
        if o@.dom().contains(id) {
            assert(values.dom().contains(id));
            assert(fits(catalog, id, values[id]));
        }
    }
    assert forall|id: Seq<char>| #[trigger] read.dom().contains(id) implies read[id] == whole[id] by {
        if o@.dom().contains(id) {
            assert(values.dom().contains(id));
            assert(fits(catalog, id, values[id]));
        }
    }
    assert(read =~= whole);
}

/// What a marker stands with in a document for single faces: its own values under `default`,
/// where it has none for them.
pub open spec fn shown_faces(marker: Marker) -> Map<Seq<char>, Map<Seq<char>, ControlValue>> {
    if marker.faces.dom() == Set::<Seq<char>>::empty() {
        map!["default"@ => marker.controls]
    } else {
        marker.faces
    }
}

/// The values of a marker after it was read: its settings over the values of the workspace.
pub open spec fn restored_controls(
    controls: Map<Seq<char>, ControlValue>,
    marker: Marker,
    catalog: Seq<ControlSpec>,
) -> Map<Seq<char>, ControlValue> {
    taken_over(
        controls,
        marker.controls,
        scope_json(marker.controls, ControlScope::Settings, catalog),
    )
}

/// The values of a marker for one face after it was read: its settings and the parameters of the
/// face over the values that the face has.
pub open spec fn restored_face(
    faces: Faces,
    controls: Map<Seq<char>, ControlValue>,
    marker: Marker,
    id: Seq<char>,
    catalog: Seq<ControlSpec>,
) -> Map<Seq<char>, ControlValue> {
    let own = shown_faces(marker)[id];
    taken_over(
        taken_over(
            values_before(faces, restored_controls(controls, marker, catalog), id),
            marker.controls,
            scope_json(marker.controls, ControlScope::Settings, catalog),
        ),
        own,
        parameters_of(own, catalog),
    )
}

/// A marker after it was read.
pub open spec fn restored(
    faces: Faces,
    controls: Map<Seq<char>, ControlValue>,
    marker: Marker,
    catalog: Seq<ControlSpec>,
) -> Marker {
    Marker {
        controls: restored_controls(controls, marker, catalog),
        faces: Map::new(
            |id: Seq<char>| shown_faces(marker).dom().contains(id),
            |id: Seq<char>| restored_face(faces, controls, marker, id, catalog),
        ),
    }
}

/// All values of a marker are ones that their controls can have.
pub open spec fn marker_fits(marker: Marker, catalog: Seq<ControlSpec>) -> bool {
    &&& all_fit(marker.controls, catalog)
    &&& forall|id: Seq<char>| #[trigger]
        marker.faces.dom().contains(id) ==> all_fit(marker.faces[id], catalog)
}

/// The objects within the entry of a marker are held in order.
pub open spec fn marker_in_order(value: Json) -> bool {
    value matches Json::Object(o) ==> {
        &&& store_in_order(o@["control"@])
        &&& o@["parameters"@] matches Json::Object(parameters) ==> {
            &&& ascending(parameters.pairs())
            &&& forall|id: Seq<char>| #[trigger]
                parameters@.dom().contains(id) ==> store_in_order(parameters@[id])
        }
    }
}

proof fn faces_of_marker_so_far(
    faces: Faces,
    controls: Map<Seq<char>, ControlValue>,
    marker: Marker,
    catalog: Seq<ControlSpec>,
    items: Seq<(Seq<char>, Json)>,
    n: nat,
)
    requires
        ascending(items),
        n <= items.len(),
    ensures
        ({
            let next = |
                before: Map<Seq<char>, Map<Seq<char>, ControlValue>>,
                entry: (Seq<char>, Json),
            | before.insert(entry.0, restored_face(faces, controls, marker, entry.0, catalog));
            let here = folded(next, Map::empty(), items, n);
            &&& here.dom() == map_of(items.take(n as int)).dom()
            &&& forall|id: Seq<char>| #[trigger]
                here.dom().contains(id) ==> here[id] == restored_face(
                    faces,
                    controls,
                    marker,
                    id,
                    catalog,
                )
        }),
    decreases n,
{
    let next = |
        before: Map<Seq<char>, Map<Seq<char>, ControlValue>>,
        entry: (Seq<char>, Json),
    | before.insert(entry.0, restored_face(faces, controls, marker, entry.0, catalog));
    if n == 0 {
        assert(folded(next, Map::empty(), items, 0).dom() =~= map_of(items.take(0)).dom());
    } else {
        faces_of_marker_so_far(faces, controls, marker, catalog, items, (n - 1) as nat);
        map_grows(items, n - 1);
        assert(map_of(items.take(n as int)) == map_of(items.take(n - 1)).insert(
            items[n - 1].0,
            items[n - 1].1,
        ));
        assert(folded(next, Map::empty(), items, n).dom() =~= map_of(items.take(n as int)).dom());
    }
}

proof fn faces_of_marker_read_back(
    faces: Faces,
    controls: Map<Seq<char>, ControlValue>,
    marker: Marker,
    catalog: Seq<ControlSpec>,
    control: TextMap<Json>,
    parameters: TextMap<Json>,
    r: Result<Map<Seq<char>, Map<Seq<char>, ControlValue>>, WorkspaceError>,
)
    requires
        marker_fits(marker, catalog),
        control@ == scope_json(marker.controls, ControlScope::Settings, catalog),
        ascending(control.pairs()),
        ascending(parameters.pairs()),
        is_marker_parameters(Json::Object(parameters), marker, catalog),
        forall|id: Seq<char>| #[trigger]
            parameters@.dom().contains(id) ==> store_in_order(parameters@[id]),
        runs(
            face_markers_step(
                faces,
                restored_controls(controls, marker, catalog),
                Some(control),
                catalog,
            ),
            Map::empty(),
            parameters.pairs(),
            r,
        ),
    ensures
        r == Ok::<Map<Seq<char>, Map<Seq<char>, ControlValue>>, WorkspaceError>(
            restored(faces, controls, marker, catalog).faces,
        ),
{
    let values = restored_controls(controls, marker, catalog);
    let step = face_markers_step(faces, values, Some(control), catalog);
    let items = parameters.pairs();
    let next = |
        before: Map<Seq<char>, Map<Seq<char>, ControlValue>>,
        entry: (Seq<char>, Json),
    | before.insert(entry.0, restored_face(faces, controls, marker, entry.0, catalog));
    assert(parameters@.dom() =~= shown_faces(marker).dom());
    assert forall|
        i: int,
        out: Result<Map<Seq<char>, Map<Seq<char>, ControlValue>>, WorkspaceError>,
    |
        0 <= i < items.len() && #[trigger] step(
            folded(next, Map::empty(), items, i as nat),
            items[i],
            out,
        ) implies out == Ok::<Map<Seq<char>, Map<Seq<char>, ControlValue>>, WorkspaceError>(
        next(folded(next, Map::empty(), items, i as nat), items[i]),
    ) by {
        entry_is_unique(items, i);
        let id = items[i].0;
        assert(parameters@.dom().contains(id));
        assert(store_in_order(parameters@[id]));
        face_of_marker_reads_back(
            faces,
            controls,
            marker,
            catalog,
            control,
            folded(next, Map::empty(), items, i as nat),
            id,
            items[i].1,
            out,
        );
    }
    run_is_determined(step, next, Map::empty(), items, r);
    faces_of_marker_so_far(faces, controls, marker, catalog, items, items.len());
    assert(items.take(items.len() as int) =~= items);
    assert(folded(next, Map::empty(), items, items.len()) =~= restored(
        faces,
        controls,
        marker,
        catalog,
    ).faces);
}

proof fn face_of_marker_reads_back(
    faces: Faces,
    controls: Map<Seq<char>, ControlValue>,
    marker: Marker,
    catalog: Seq<ControlSpec>,
    control: TextMap<Json>,
    before: Map<Seq<char>, Map<Seq<char>, ControlValue>>,
    id: Seq<char>,
    value: Json,
    r: Result<Map<Seq<char>, Map<Seq<char>, ControlValue>>, WorkspaceError>,
)
    requires
        marker_fits(marker, catalog),
        control@ == scope_json(marker.controls, ControlScope::Settings, catalog),
        ascending(control.pairs()),
        shown_faces(marker).dom().contains(id),
        is_object(value, parameters_of(shown_faces(marker)[id], catalog)),
        store_in_order(value),
        face_marker_read(
            faces,
            restored_controls(controls, marker, catalog),
            Some(control),
            catalog,
            before,
            (id, value),
            r,
        ),
    ensures
        r == Ok::<Map<Seq<char>, Map<Seq<char>, ControlValue>>, WorkspaceError>(
            before.insert(id, restored_face(faces, controls, marker, id, catalog)),
        ),
{
    let own = shown_faces(marker)[id];
    let o = value->Object_0;
    let base = values_before(faces, restored_controls(controls, marker, catalog), id);
    let taken = choose|taken: Result<Map<Seq<char>, ControlValue>, ControlStateError>|
        {
            &&& #[trigger] controls_read_twice(base, Some(control), Some(o), catalog, taken)
            &&& r == match taken {
                Ok(values) => Ok::<Map<Seq<char>, Map<Seq<char>, ControlValue>>, WorkspaceError>(
                    before.insert(id, values),
                ),
                Err(e) => Err(WorkspaceError::Controls(e)),
            }
        };
    let first = choose|first: Result<Map<Seq<char>, ControlValue>, ControlStateError>|
        {
            &&& #[trigger] controls_read(base, Some(control), catalog, first)
            &&& match first {
                Err(e) => taken == Err::<Map<Seq<char>, ControlValue>, ControlStateError>(e),
                Ok(found) => controls_read(found, Some(o), catalog, taken),
            }
        };
    assert(all_fit(own, catalog));
    assert(writes(control@, marker.controls, catalog));
    scope_is_read(marker.controls, base, control, catalog, first);
    assert(writes(o@, own, catalog));
    scope_is_read(own, first->Ok_0, o, catalog, taken);
}

/// A timeline with a marker that was read.
pub open spec fn with_restored(
    timeline: Timeline,
    frame: u64,
    faces: Faces,
    controls: Map<Seq<char>, ControlValue>,
    marker: Marker,
    catalog: Seq<ControlSpec>,
) -> Timeline {
    Timeline {
        current: frame,
        markers: timeline.markers.insert(frame, restored(faces, controls, marker, catalog)),
        ..timeline
    }
}

proof fn marker_entry_reads_back(
    faces: Faces,
    controls: Map<Seq<char>, ControlValue>,
    catalog: Seq<ControlSpec>,
    before: Timeline,
    frame: u64,
    value: Json,
    marker: Marker,
    r: Result<Timeline, WorkspaceError>,
)
    requires
        is_marker(value, marker, catalog),
        marker_fits(marker, catalog),
        marker_in_order(value),
        frame < before.total,
        marker_read(faces, controls, catalog, before, (numeral(frame as nat), value), r),
    ensures
        r == Ok::<Timeline, WorkspaceError>(
            with_restored(before, frame, faces, controls, marker, catalog),
        ),
{
    numeral_reads_back(frame);
    let o = value->Object_0;
    assert(o@.dom().contains("control"@));
    assert(o@.dom().contains("parameters"@));
    let control = o@["control"@]->Object_0;
    let parameters = o@["parameters"@]->Object_0;
    assert(object_member(o, "control"@) == Some(control));
    assert(object_member(o, "parameters"@) == Some(parameters));
    let taken = choose|taken: Result<Map<Seq<char>, ControlValue>, ControlStateError>|
        {
            &&& #[trigger] controls_read(controls, object_member(o, "control"@), catalog, taken)
            &&& match taken {
                Err(e) => r == Err::<Timeline, WorkspaceError>(WorkspaceError::Controls(e)),
                Ok(values) => marker_placed(faces, values, catalog, before, frame, o, r),
            }
        };
    assert(writes(control@, marker.controls, catalog));
    scope_is_read(marker.controls, controls, control, catalog, taken);
    let values = taken->Ok_0;
    assert(values == restored_controls(controls, marker, catalog));
    let own = choose|own: Result<Map<Seq<char>, Map<Seq<char>, ControlValue>>, WorkspaceError>|
        {
            &&& #[trigger] runs(
                face_markers_step(faces, values, object_member(o, "control"@), catalog),
                Map::empty(),
                entries_of(object_member(o, "parameters"@)),
                own,
            )
            &&& r == match own {
                Ok(by_face) => Ok::<Timeline, WorkspaceError>(
                    with_marker(before, frame, Marker { controls: values, faces: by_face }),
                ),
                Err(e) => Err(e),
            }
        };
    assert(o@["parameters"@] == Json::Object(parameters));
    faces_of_marker_read_back(faces, controls, marker, catalog, control, parameters, own);
}

/// The frame whose digits are the key of an entry.
pub open spec fn frame_of(key: Seq<char>) -> u64 {
    whole_number(key)->0
}

proof fn markers_so_far(
    markers: Map<u64, Marker>,
    o: TextMap<Json>,
    faces: Faces,
    controls: Map<Seq<char>, ControlValue>,
    catalog: Seq<ControlSpec>,
    start: Timeline,
    n: nat,
)
    requires
        are_markers(o@, markers, catalog),
        ascending(o.pairs()),
        start.markers == Map::<u64, Marker>::empty(),
        n <= o.pairs().len(),
    ensures
        ({
            let next = |timeline: Timeline, entry: (Seq<char>, Json)|
                with_restored(
                    timeline,
                    frame_of(entry.0),
                    faces,
                    controls,
                    markers[frame_of(entry.0)],
                    catalog,
                );
            let here = folded(next, start, o.pairs(), n);
            let keys = map_of(o.pairs().take(n as int)).dom();
            &&& here == (Timeline { current: here.current, markers: here.markers, ..start })
            &&& forall|frame: u64| #[trigger]
                here.markers.dom().contains(frame) <==> markers.dom().contains(frame)
                    && keys.contains(numeral(frame as nat))
            &&& forall|frame: u64| #[trigger]
                here.markers.dom().contains(frame) ==> here.markers[frame] == restored(
                    faces,
                    controls,
                    markers[frame],
                    catalog,
                )
        }),
    decreases n,
{
    let items = o.pairs();
    let next = |timeline: Timeline, entry: (Seq<char>, Json)|
        with_restored(
            timeline,
            frame_of(entry.0),
            faces,
            controls,
            markers[frame_of(entry.0)],
            catalog,
        );
    if n == 0 {
        assert(map_of(items.take(0)).dom() =~= Set::<Seq<char>>::empty());
    } else {
        markers_so_far(markers, o, faces, controls, catalog, start, (n - 1) as nat);
        map_grows(items, n - 1);
        entry_is_unique(items, n - 1);
        let key = items[n - 1].0;
        let f = choose|f: u64| #[trigger] markers.dom().contains(f) && key == numeral(f as nat);
        numeral_reads_back(f);
        assert(frame_of(key) == f);
        let before = folded(next, start, items, (n - 1) as nat);
        let here = folded(next, start, items, n);
        let keys = map_of(items.take(n as int)).dom();
        let fewer = map_of(items.take(n - 1)).dom();
        assert(keys == fewer.insert(key));
        assert(here.markers == before.markers.insert(
            f,
            restored(faces, controls, markers[f], catalog),
        ));
        assert forall|frame: u64| #[trigger] here.markers.dom().contains(frame)
            <==> markers.dom().contains(frame) && keys.contains(numeral(frame as nat)) by {
            if frame != f {
                if numeral(frame as nat) == numeral(f as nat) {
                    numerals_are_distinct(frame as nat, f as nat);
                }
                assert(before.markers.dom().contains(frame) <==> markers.dom().contains(frame)
                    && fewer.contains(numeral(frame as nat)));
            }
        }
    }
}

proof fn frames_lie_before(entries: Seq<(Seq<char>, Json)>, i: int, n: nat)
    requires
        0 <= i < n <= entries.len(),
        whole_number(entries[i].0) is Some,
    ensures
        whole_number(entries[i].0)->0 <= last_frame(entries, n),
    decreases n,
{
    if i < n - 1 {
        frames_lie_before(entries, i, (n - 1) as nat);
    }
}

proof fn last_frame_is_one(entries: Seq<(Seq<char>, Json)>, n: nat, limit: u64)
    requires
        n <= entries.len(),
        0 < limit,
        forall|i: int|
            0 <= i < entries.len() && whole_number((#[trigger] entries[i]).0) is Some
                ==> whole_number(entries[i].0)->0 < limit,
    ensures
        last_frame(entries, n) < limit,
    decreases n,
{
    if n > 0 {
        last_frame_is_one(entries, (n - 1) as nat, limit);
    }
}

/// Markers that were exported are read back at their frames: each with its settings, and the
/// parameters that it has for single faces. The last possible frame has no marker.
pub proof fn markers_read_back(
    markers: Map<u64, Marker>,
    o: TextMap<Json>,
    before: Document,
    root: TextMap<Json>,
    catalog: Seq<ControlSpec>,
    r: Result<Document, WorkspaceError>,
)
    requires
        object_member(root, "markers"@) == Some(o),
        are_markers(o@, markers, catalog),
        ascending(o.pairs()),
        !markers.dom().contains(u64::MAX),
        forall|frame: u64| #[trigger]
            markers.dom().contains(frame) ==> {
                &&& marker_fits(markers[frame], catalog)
                &&& marker_in_order(o@[numeral(frame as nat)])
            },
        markers_read(before, root, catalog, r),
    ensures
        r matches Ok(read) && read == (Document { timeline: read.timeline, ..before })
            && read.timeline.current == 0 && read.timeline.markers == Map::new(
            |frame: u64| markers.dom().contains(frame),
            |frame: u64| restored(before.faces, before.controls, markers[frame], catalog),
        ),
{
    let items = o.pairs();
    let last = last_frame(items, items.len());
    let start = empty_timeline(last);
    let step = markers_step(before.faces, before.controls, catalog);
    let timeline = choose|timeline: Result<Timeline, WorkspaceError>|
        {
            &&& #[trigger] runs(step, start, items, timeline)
            &&& r == match timeline {
                Ok(end) => Ok::<Document, WorkspaceError>(
                    Document { timeline: Timeline { current: 0, ..end }, ..before },
                ),
                Err(e) => Err(e),
            }
        };
    let next = |timeline: Timeline, entry: (Seq<char>, Json)|
        with_restored(
            timeline,
            frame_of(entry.0),
            before.faces,
            before.controls,
            markers[frame_of(entry.0)],
            catalog,
        );
    assert forall|i: int|
        0 <= i < items.len() && whole_number((#[trigger] items[i]).0) is Some implies whole_number(
        items[i].0,
    )->0 < u64::MAX by {
        entry_is_unique(items, i);
        let f = choose|f: u64| #[trigger]
            markers.dom().contains(f) && items[i].0 == numeral(f as nat);
        numeral_reads_back(f);
    }
    last_frame_is_one(items, items.len(), u64::MAX);
    assert forall|i: int, out: Result<Timeline, WorkspaceError>|
        0 <= i < items.len() && #[trigger] step(
            folded(next, start, items, i as nat),
            items[i],
            out,
        ) implies out == Ok::<Timeline, WorkspaceError>(
        next(folded(next, start, items, i as nat), items[i]),
    ) by {
        markers_so_far(markers, o, before.faces, before.controls, catalog, start, i as nat);
        entry_is_unique(items, i);
        let f = choose|f: u64| #[trigger]
            markers.dom().contains(f) && items[i].0 == numeral(f as nat);
        numeral_reads_back(f);
        frames_lie_before(items, i, items.len());
        let here = folded(next, start, items, i as nat);
        assert(f < here.total);
        assert(is_marker(o@[numeral(f as nat)], markers[f], catalog));
        marker_entry_reads_back(
            before.faces,
            before.controls,
            catalog,
            here,
            f,
            items[i].1,
            markers[f],
            out,
        );
    }
    run_is_determined(step, next, start, items, timeline);
    markers_so_far(markers, o, before.faces, before.controls, catalog, start, items.len());
    assert(items.take(items.len() as int) =~= items);
    let end = folded(next, start, items, items.len());
    let expected = Map::new(
        |frame: u64| markers.dom().contains(frame),
        |frame: u64| restored(before.faces, before.controls, markers[frame], catalog),
    );
    assert forall|frame: u64| #[trigger] end.markers.dom().contains(frame)
        <==> expected.dom().contains(frame) by {
        if markers.dom().contains(frame) {
            assert(o@.dom().contains(numeral(frame as nat)));
        }
    }
    assert(end.markers =~= expected);
}

/// Target media that can be read back: their paths name media, no two are the same, and they have
/// different ids.
pub open spec fn readable_media(items: Seq<MediaItem>) -> bool {
    &&& items.len() < u64::MAX
    &&& forall|i: int|
        0 <= i < items.len() ==> kind_of((#[trigger] items[i]).path@) == Some(items[i].kind)
            && items[i].role == MediaRole::Target
    &&& forall|i: int, j: int|
        0 <= i < j < items.len() ==> !path_equals(
            (#[trigger] items[i]).path@,
            (#[trigger] items[j]).path@,
        ) && items[i].id != items[j].id
}

/// Items are numbered in their order.
pub open spec fn numbered(read: Seq<MediaItem>, items: Seq<MediaItem>) -> bool {
    &&& read.len() == items.len()
    &&& forall|i: int|
        0 <= i < items.len() ==> {
            &&& (#[trigger] read[i]).id == MediaId(i as u64)
            &&& read[i].path@ == items[i].path@
            &&& read[i].kind == items[i].kind
            &&& read[i].role == items[i].role
        }
}

/// The first `n` target media were read.
pub open spec fn targets_taken(t: TargetsRead, items: Seq<MediaItem>, n: int) -> bool {
    &&& t.media.wf()
    &&& t.media.next == n
    &&& t.media.source is None
    &&& numbered(t.media.items, items.take(n))
    &&& forall|i: int|
        0 <= i < n ==> t.ids.dom().contains(#[trigger] media_name(items, i)) && t.ids[media_name(
            items,
            i,
        )] == MediaId(i as u64)
}

/// The name by which a document refers to an item.
pub open spec fn media_name(items: Seq<MediaItem>, i: int) -> Seq<char> {
    numeral(items[i].id.0 as nat)
}

/// What reading one more target medium leads to.
pub open spec fn next_target(t: TargetsRead, value: Json) -> TargetsRead {
    let o = value->Object_0;
    let path = text_member(o, "media_path"@)->0;
    let (library, id) = t.media.placed(MediaRole::Target, kind_of(path@)->0, path);
    TargetsRead {
        media: library.with_chosen(MediaRole::Target, Some(id)),
        ids: t.ids.insert(identifier_member(o, "media_id"@)->0, id),
    }
}

proof fn target_medium_is_taken(
    t: TargetsRead,
    items: Seq<MediaItem>,
    n: int,
    value: Json,
    r: Result<TargetsRead, WorkspaceError>,
)
    requires
        readable_media(items),
        0 <= n < items.len(),
        targets_taken(t, items, n),
        is_target_medium(value, items[n]),
        target_medium_read(t, value, r),
    ensures
        r == Ok::<TargetsRead, WorkspaceError>(next_target(t, value)),
        targets_taken(next_target(t, value), items, n + 1),
{
    let o = value->Object_0;
    assert(o@.dom().contains("media_path"@));
    assert(o@.dom().contains("media_id"@));
    let path = text_member(o, "media_path"@)->0;
    assert(path@ == items[n].path@);
    let kind = items[n].kind;
    assert(identifier_member(o, "media_id"@) == Some(media_name(items, n)));
    added_medium_is_selected(t.media, MediaRole::Target, kind, path);
    found_path_is_an_item(t.media.items, MediaRole::Target, path@);
    if let Some(item) = find_path(t.media.items, MediaRole::Target, path@) {
        let j = t.media.items.index_of(item);
        assert(t.media.items[j] == item);
        assert(items.take(n)[j] == items[j]);
        assert(path_equals(items[j].path@, items[n].path@));
        assert(false);
    }
    let after = next_target(t, value);
    let front = items.take(n);
    let more = items.take(n + 1);
    assert forall|i: int| 0 <= i < more.len() implies {
        &&& (#[trigger] after.media.items[i]).id == MediaId(i as u64)
        &&& after.media.items[i].path@ == more[i].path@
        &&& after.media.items[i].kind == more[i].kind
        &&& after.media.items[i].role == more[i].role
    } by {
        if i < n {
            assert(after.media.items[i] == t.media.items[i]);
            assert(front[i] == more[i]);
        }
    }
    assert forall|i: int| 0 <= i < n + 1 implies after.ids.dom().contains(
        #[trigger] media_name(items, i),
    ) && after.ids[media_name(items, i)] == MediaId(i as u64) by {
        if i < n {
            if media_name(items, i) == media_name(items, n) {
                numerals_are_distinct(items[i].id.0 as nat, items[n].id.0 as nat);
                assert(items[i].id == items[n].id);
                assert(false);
            }
        }
    }
}

proof fn target_media_so_far(
    items: Seq<MediaItem>,
    values: Seq<Json>,
    start: TargetsRead,
    n: nat,
)
    requires
        readable_media(items),
        values.len() == items.len(),
        forall|i: int| 0 <= i < items.len() ==> is_target_medium(#[trigger] values[i], items[i]),
        targets_taken(start, items, 0),
        n <= items.len(),
    ensures
        targets_taken(
            folded(|t: TargetsRead, value: Json| next_target(t, value), start, values, n),
            items,
            n as int,
        ),
    decreases n,
{
    let next = |t: TargetsRead, value: Json| next_target(t, value);
    if n > 0 {
        target_media_so_far(items, values, start, (n - 1) as nat);
        let here = folded(next, start, values, (n - 1) as nat);
        let value = values[n - 1];
        assert(is_target_medium(value, items[n - 1]));
        let o = value->Object_0;
        assert(o@.dom().contains("media_path"@));
        let path = text_member(o, "media_path"@)->0;
        let (library, id) = here.media.placed(MediaRole::Target, kind_of(path@)->0, path);
        added_medium_is_selected(here.media, MediaRole::Target, items[n - 1].kind, path);
        let added = Ok::<MediaId, MediaError>(id);
        assert(media_added(
            here.media,
            MediaRole::Target,
            path,
            library.with_chosen(MediaRole::Target, Some(id)),
            added,
        ));
        assert(o@.dom().contains("media_id"@));
        assert(target_medium_read(
            here,
            value,
            Ok::<TargetsRead, WorkspaceError>(next_target(here, value)),
        ));
        target_medium_is_taken(
            here,
            items,
            n - 1,
            value,
            Ok::<TargetsRead, WorkspaceError>(next_target(here, value)),
        );
    }
}

/// Target media that were exported are read back in their order, under the numbers of their
/// places, and the names that the document has for them lead to them.
pub proof fn target_media_read_back(
    items: Seq<MediaItem>,
    value: Json,
    start: TargetsRead,
    r: Result<TargetsRead, WorkspaceError>,
)
    requires
        are_target_media(value, items),
        readable_media(items),
        start.media.wf(),
        start.media.next == 0,
        start.media.source is None,
        start.media.items == Seq::<MediaItem>::empty(),
        runs(target_media_step(), start, (value->Array_0)@, r),
    ensures
        r matches Ok(read) && targets_taken(read, items, items.len() as int),
{
    let values = (value->Array_0)@;
    let next = |t: TargetsRead, value: Json| next_target(t, value);
    assert(items.take(0) =~= Seq::<MediaItem>::empty());
    assert forall|i: int, out: Result<TargetsRead, WorkspaceError>|
        0 <= i < values.len() && #[trigger] target_media_step()(
            folded(next, start, values, i as nat),
            values[i],
            out,
        ) implies out == Ok::<TargetsRead, WorkspaceError>(
        next(folded(next, start, values, i as nat), values[i]),
    ) by {
        target_media_so_far(items, values, start, i as nat);
        assert(is_target_medium(values[i], items[i]));
        target_medium_is_taken(
            folded(next, start, values, i as nat),
            items,
            i,
            values[i],
            out,
        );
    }
    run_is_determined(target_media_step(), next, start, values, r);
    target_media_so_far(items, values, start, items.len());
}

/// Sources and their pictures were read: the media that were there stay, and every source has its
/// picture.
pub open spec fn sources_taken(
    s: SourcesRead,
    start: SourcesRead,
    paths: Map<Seq<char>, Seq<char>>,
    keys: Set<Seq<char>>,
    n: int,
) -> bool {
    &&& s.media.wf()
    &&& s.media.next <= start.media.next + n
    &&& s.media.target == start.media.target
    &&& start.media.items.is_prefix_of(s.media.items)
    &&& s.faces == (Faces { sources: s.faces.sources, ..start.faces })
    &&& s.faces.sources.dom() == start.faces.sources.dom().union(keys)
    &&& forall|id: Seq<char>| #[trigger]
        keys.contains(id) ==> has_picture(s, id, paths[id])
    &&& forall|i: int|
        start.media.items.len() <= i < s.media.items.len() ==> is_picture(
            s.faces,
            keys,
            #[trigger] s.media.items[i],
        )
}

/// A medium is the picture of a source.
pub open spec fn is_picture(faces: Faces, keys: Set<Seq<char>>, item: MediaItem) -> bool {
    &&& item.role == MediaRole::Source
    &&& exists|id: Seq<char>| #[trigger]
        keys.contains(id) && faces.sources[id].media_id == Some(item.id)
}

/// A source has the picture at a path.
pub open spec fn has_picture(s: SourcesRead, id: Seq<char>, path: Seq<char>) -> bool {
    &&& s.faces.sources.dom().contains(id)
    &&& s.faces.sources[id].name == source_name(path, id)
    &&& s.faces.sources[id].media_id matches Some(media) && find_item(s.media.items, media)
        matches Some(item) && item.role == MediaRole::Source && path_equals(item.path@, path)
}

/// What reading one more source leads to.
pub open spec fn next_source(s: SourcesRead, entry: (Seq<char>, Json)) -> SourcesRead {
    let path = source_path(entry.1)->0;
    let (library, id) = s.media.placed(MediaRole::Source, MediaKind::Image, path);
    SourcesRead {
        media: library.with_chosen(MediaRole::Source, Some(id)),
        faces: Faces {
            sources: s.faces.sources.insert(
                entry.0,
                Source {
                    id: entry.0,
                    name: source_name(path@, entry.0),
                    media_id: Some(id),
                    embeddings: Map::empty(),
                },
            ),
            ..s.faces
        },
    }
}

proof fn source_is_taken(
    s: SourcesRead,
    start: SourcesRead,
    paths: Map<Seq<char>, Seq<char>>,
    keys: Set<Seq<char>>,
    n: int,
    id: Seq<char>,
    value: Json,
)
    requires
        sources_taken(s, start, paths, keys, n),
        0 <= n,
        start.media.next + n < u64::MAX,
        !keys.contains(id),
        !start.faces.names_identity(id),
        is_media_path(value, paths[id]),
        kind_of(paths[id]) == Some(MediaKind::Image),
    ensures
        sources_taken(next_source(s, (id, value)), start, paths, keys.insert(id), n + 1),
        source_medium_read(
            s,
            (id, value),
            Ok::<SourcesRead, WorkspaceError>(next_source(s, (id, value))),
        ),
        forall|r: Result<SourcesRead, WorkspaceError>| #[trigger]
            source_medium_read(s, (id, value), r) ==> r == Ok::<SourcesRead, WorkspaceError>(
                next_source(s, (id, value)),
            ),
{
    let o = value->Object_0;
    assert(o@.dom().contains("media_path"@));
    let path = source_path(value)->0;
    assert(path@ == paths[id]);
    let (library, media) = s.media.placed(MediaRole::Source, MediaKind::Image, path);
    added_medium_is_selected(s.media, MediaRole::Source, MediaKind::Image, path);
    found_path_is_an_item(s.media.items, MediaRole::Source, path@);
    let after = next_source(s, (id, value));
    let chosen = library.with_chosen(MediaRole::Source, Some(media));
    let added = Ok::<MediaId, MediaError>(media);
    assert(media_added(s.media, MediaRole::Source, path, chosen, added));
    assert(!s.faces.names_identity(id));
    let named = Ok::<(), FaceWorkspaceError>(());
    let entry = (id, value);
    assert(source_path(entry.1) == Some(path));
    assert(pending_added(
        s.faces,
        after.faces,
        entry.0,
        source_name(path@, entry.0),
        Some(media),
        named,
    ));
    assert(Ok::<SourcesRead, WorkspaceError>(after) == match named {
        Ok(()) => Ok::<SourcesRead, WorkspaceError>(
            SourcesRead { media: chosen, faces: after.faces },
        ),
        Err(e) => Err(WorkspaceError::Faces(e)),
    });
    let r = Ok::<SourcesRead, WorkspaceError>(after);
    assert(added->Ok_0 == media);
    assert(pending_added(
        s.faces,
        after.faces,
        entry.0,
        source_name(path@, entry.0),
        Some(added->Ok_0),
        named,
    ));
    assert(source_medium_read(s, entry, r));
    assert(start.media.items.is_prefix_of(after.media.items));
    assert(after.faces.sources.dom() =~= start.faces.sources.dom().union(keys.insert(id)));
    match find_path(s.media.items, MediaRole::Source, path@) {
        Some(item) => {
            assert(after.media.items == s.media.items);
            let j = s.media.items.index_of(item);
            unique_item_is_found(s.media.items, j);
        },
        None => {
            let item = MediaItem {
                id: media,
                role: MediaRole::Source,
                kind: MediaKind::Image,
                path,
            };
            assert(after.media.items == s.media.items.push(item));
            assert(after.media.items[s.media.items.len() as int] == item);
            unique_item_is_found(after.media.items, s.media.items.len() as int);
            assert(path_equals(item.path@, path@));
        },
    }
    assert forall|i: int| start.media.items.len() <= i < after.media.items.len() implies is_picture(
        after.faces,
        keys.insert(id),
        #[trigger] after.media.items[i],
    ) by {
        if i < s.media.items.len() {
            assert(after.media.items[i] == s.media.items[i]);
            assert(is_picture(s.faces, keys, s.media.items[i]));
            let key = choose|key: Seq<char>| #[trigger]
                keys.contains(key) && s.faces.sources[key].media_id == Some(
                    s.media.items[i].id,
                );
            assert(keys.insert(id).contains(key) && key != id);
        } else {
            assert(keys.insert(id).contains(id));
        }
    }
    assert forall|key: Seq<char>| #[trigger] keys.insert(id).contains(key) implies has_picture(
        after,
        key,
        paths[key],
    ) by {
        if key != id {
            assert(has_picture(s, key, paths[key]));
            let held = s.faces.sources[key].media_id->0;
            if find_path(s.media.items, MediaRole::Source, path@) is None {
                selection_survives_growth(
                    s.media.items,
                    MediaItem {
                        id: media,
                        role: MediaRole::Source,
                        kind: MediaKind::Image,
                        path,
                    },
                    held,
                );
            }
        }
    }
}

proof fn sources_so_far(
    paths: Map<Seq<char>, Seq<char>>,
    o: TextMap<Json>,
    start: SourcesRead,
    n: nat,
)
    requires
        holds_paths(o@, paths),
        ascending(o.pairs()),
        start.media.wf(),
        start.media.next + o.pairs().len() < u64::MAX,
        forall|id: Seq<char>| #[trigger]
            paths.dom().contains(id) ==> kind_of(paths[id]) == Some(MediaKind::Image)
                && !start.faces.names_identity(id),
        n <= o.pairs().len(),
    ensures
        sources_taken(
            folded(
                |s: SourcesRead, entry: (Seq<char>, Json)| next_source(s, entry),
                start,
                o.pairs(),
                n,
            ),
            start,
            paths,
            map_of(o.pairs().take(n as int)).dom(),
            n as int,
        ),
    decreases n,
{
    let items = o.pairs();
    let next = |s: SourcesRead, entry: (Seq<char>, Json)| next_source(s, entry);
    if n == 0 {
        assert(map_of(items.take(0)).dom() =~= Set::<Seq<char>>::empty());
        assert(start.faces.sources.dom() =~= start.faces.sources.dom().union(Set::empty()));
    } else {
        sources_so_far(paths, o, start, (n - 1) as nat);
        map_grows(items, n - 1);
        entry_is_unique(items, n - 1);
        let id = items[n - 1].0;
        assert(paths.dom().contains(id));
        assert(map_of(items.take(n as int)) == map_of(items.take(n - 1)).insert(
            id,
            items[n - 1].1,
        ));
        assert(map_of(items.take(n as int)).dom() =~= map_of(items.take(n - 1)).dom().insert(id));
        source_is_taken(
            folded(next, start, items, (n - 1) as nat),
            start,
            paths,
            map_of(items.take(n - 1)).dom(),
            n - 1,
            id,
            items[n - 1].1,
        );
        assert(items[n - 1] == (id, items[n - 1].1));
    }
}

/// Sources that were exported with their pictures are read back, each with its picture. Their
/// names come from the pictures, and their embeddings have to be found again.
pub proof fn sources_read_back(
    paths: Map<Seq<char>, Seq<char>>,
    o: TextMap<Json>,
    start: SourcesRead,
    r: Result<SourcesRead, WorkspaceError>,
)
    requires
        holds_paths(o@, paths),
        ascending(o.pairs()),
        start.media.wf(),
        start.media.next + o.pairs().len() < u64::MAX,
        forall|id: Seq<char>| #[trigger]
            paths.dom().contains(id) ==> kind_of(paths[id]) == Some(MediaKind::Image)
                && !start.faces.names_identity(id),
        runs(source_media_step(), start, o.pairs(), r),
    ensures
        r matches Ok(read) && sources_taken(
            read,
            start,
            paths,
            paths.dom(),
            o.pairs().len() as int,
        ),
{
    let items = o.pairs();
    let next = |s: SourcesRead, entry: (Seq<char>, Json)| next_source(s, entry);
    assert forall|i: int, out: Result<SourcesRead, WorkspaceError>|
        0 <= i < items.len() && #[trigger] source_media_step()(
            folded(next, start, items, i as nat),
            items[i],
            out,
        ) implies out == Ok::<SourcesRead, WorkspaceError>(
        next(folded(next, start, items, i as nat), items[i]),
    ) by {
        sources_so_far(paths, o, start, i as nat);
        map_grows(items, i);
        entry_is_unique(items, i);
        let id = items[i].0;
        assert(paths.dom().contains(id));
        assert(items[i] == (id, items[i].1));
        source_is_taken(
            folded(next, start, items, i as nat),
            start,
            paths,
            map_of(items.take(i)).dom(),
            i,
            id,
            items[i].1,
        );
        assert(source_medium_read(folded(next, start, items, i as nat), (id, items[i].1), out));
    }
    run_is_determined(source_media_step(), next, start, items, r);
    sources_so_far(paths, o, start, items.len());
    assert(items.take(items.len() as int) =~= items);
    assert(map_of(items).dom() =~= paths.dom());
}

/// The parts of a document.
#[verifier::ext_equal]
pub ghost struct Parts {
    /// The target media, in their order.
    pub media: Seq<MediaItem>,
    pub selected: Option<MediaId>,
    /// The pictures of the sources, by the ids of the sources.
    pub pictures: Map<Seq<char>, Seq<char>>,
    pub identities: Map<Seq<char>, Merged>,
    pub targets: Map<Seq<char>, Target>,
    pub markers: Map<u64, Marker>,
    pub controls: Map<Seq<char>, ControlValue>,
    pub output: Option<Seq<char>>,
}

/// The parts of a workspace that stand in a document.
pub open spec fn parts_of(document: WorkspaceDocument) -> Parts {
    let media = document.media@;
    let merged = document.faces.merged_entries();
    let targets = document.faces.target_entries();
    Parts {
        media: of_role(media.items, MediaRole::Target),
        selected: media.target,
        pictures: all_pictures(document.faces.source_entries(), media),
        identities: identities_by_id(merged, merged.len()),
        targets: targets_by_id(targets, targets.len()),
        markers: document.timeline@.markers,
        controls: document.controls@,
        output: document@.output,
    }
}

/// A catalog whose controls can have their defaults. None of them has the name under which a
/// document holds the output directory.
pub open spec fn usable_catalog(catalog: Seq<ControlSpec>) -> bool {
    &&& forall|i: int| 0 <= i < catalog.len() ==> #[trigger] default_fits(catalog, i)
    &&& find(catalog, "OutputMediaFolder"@) is None
}

/// Parts that can be read back. Every part is sound, what it refers to stands in the document too,
/// every control has a value, and every face has a whole picture.
pub open spec fn readable_parts(p: Parts, catalog: Seq<ControlSpec>) -> bool {
    &&& readable_media(p.media)
    &&& p.selected matches Some(id) ==> exists|i: int|
        0 <= i < p.media.len() && (#[trigger] p.media[i]).id == id
    &&& forall|id: Seq<char>| #[trigger]
        p.pictures.dom().contains(id) ==> kind_of(p.pictures[id]) == Some(MediaKind::Image)
    &&& forall|id: Seq<char>| #[trigger]
        p.identities.dom().contains(id) ==> sound_store(p.identities[id].embeddings)
            && !p.pictures.dom().contains(id)
    &&& forall|id: Seq<char>| #[trigger]
        p.targets.dom().contains(id) ==> whole_target(p.targets[id], p, catalog)
    &&& forall|frame: u64| #[trigger]
        p.markers.dom().contains(frame) ==> marker_fits(p.markers[frame], catalog)
    &&& !p.markers.dom().contains(u64::MAX)
    &&& all_fit(p.controls, catalog)
    &&& defaults(catalog, catalog.len()).dom().subset_of(p.controls.dom())
    &&& p.output matches Some(path) ==> path.len() > 0
}

/// A target face of which everything can be read back.
pub open spec fn whole_target(target: Target, p: Parts, catalog: Seq<ControlSpec>) -> bool {
    &&& target.crop matches Some(crop) && crop.width > 0 && crop.height > 0 && crop.rgb.len()
        == crop.width * crop.height * 3
    &&& sound_store(target.embeddings)
    &&& forall|model: Seq<char>| #[trigger]
        target.cache.dom().contains(model) ==> all_finite(target.cache[model])
    &&& all_fit(target.controls, catalog)
    &&& target.sources.finite()
    &&& target.merged.finite()
    &&& target.sources.subset_of(p.pictures.dom())
    &&& target.merged.subset_of(p.identities.dom())
}

/// A document holds its objects in order, as every object does, and is not too large.
spec fn tidy(root: TextMap<Json>, p: Parts) -> bool {
    &&& store_in_order(root@["control"@])
    &&& store_in_order(root@["current_widget_parameters"@])
    &&& root@["embeddings_data"@] matches Json::Object(o) ==> {
        &&& ascending(o.pairs())
        &&& forall|id: Seq<char>| #[trigger]
            p.identities.dom().contains(id) ==> (o@[id] matches Json::Object(entry)
                ==> store_in_order(entry@["embedding_store"@]))
    }
    &&& root@["target_faces_data"@] matches Json::Object(o) ==> {
        &&& ascending(o.pairs())
        &&& forall|id: Seq<char>| #[trigger]
            p.targets.dom().contains(id) ==> target_in_order(o@[id])
    }
    &&& root@["input_faces_data"@] matches Json::Object(o) ==> {
        &&& ascending(o.pairs())
        &&& p.media.len() + o.pairs().len() < u64::MAX
    }
    &&& root@["markers"@] matches Json::Object(o) ==> {
        &&& ascending(o.pairs())
        &&& forall|frame: u64| #[trigger]
            p.markers.dom().contains(frame) ==> marker_in_order(o@[numeral(frame as nat)])
    }
}

/// A document that was written holds its objects in order.
proof fn document_is_tidy(root: TextMap<Json>, p: Parts, catalog: Seq<ControlSpec>)
    requires
        holds_parts(root, p, catalog),
        few_media(p),
    ensures
        tidy(root, p),
{
    let sources = root@["input_faces_data"@]->Object_0;
    map_size(sources.pairs());
    let identities = root@["embeddings_data"@]->Object_0;
    assert forall|id: Seq<char>| #[trigger] p.identities.dom().contains(id) implies (identities@[id]
        matches Json::Object(entry) ==> store_in_order(entry@["embedding_store"@])) by {
        assert(is_identity(identities@[id], p.identities[id]));
    }
    let targets = root@["target_faces_data"@]->Object_0;
    assert forall|id: Seq<char>| #[trigger] p.targets.dom().contains(id) implies target_in_order(
        targets@[id],
    ) by {
        assert(is_target_face(targets@[id], p.targets[id], catalog));
    }
    let markers = root@["markers"@]->Object_0;
    assert forall|frame: u64| #[trigger] p.markers.dom().contains(frame) implies marker_in_order(
        markers@[numeral(frame as nat)],
    ) by {
        assert(is_marker(markers@[numeral(frame as nat)], p.markers[frame], catalog));
    }
}

/// There are fewer media than identifiers.
pub open spec fn few_media(p: Parts) -> bool {
    p.media.len() + p.pictures.dom().len() < u64::MAX
}

/// The document holds the parts.
pub open spec fn holds_parts(root: TextMap<Json>, p: Parts, catalog: Seq<ControlSpec>) -> bool {
    &&& root@.dom() == document_keys()
    &&& is_selection(root@["selected_media_id"@], p.selected)
    &&& are_target_media(root@["target_medias_data"@], p.media)
    &&& root@["target_faces_data"@] matches Json::Object(o) && ascending(o.pairs()) && holds_targets(o@, p.targets, catalog)
    &&& root@["embeddings_data"@] matches Json::Object(o) && ascending(o.pairs()) && holds_identities(o@, p.identities)
    &&& root@["input_faces_data"@] matches Json::Object(o) && ascending(o.pairs()) && holds_paths(o@, p.pictures)
    &&& root@["markers"@] matches Json::Object(o) && ascending(o.pairs()) && are_markers(o@, p.markers, catalog)
    &&& is_control(root@["control"@], p.controls, p.output, catalog)
    &&& is_object(root@["current_widget_parameters"@], parameters_of(p.controls, catalog))
}

/// The media that sources have as their pictures.
pub open spec fn pictures_used(faces: Faces) -> Set<Option<MediaId>> {
    faces.sources.dom().map(|id: Seq<char>| faces.sources[id].media_id)
}

/// A workspace has the parts: the target media in their order and no others, the same one selected,
/// the sources with their pictures and no other source media, the merged identities, the target faces, the controls, the
/// output directory and the markers.
pub open spec fn has_parts(read: Document, p: Parts, catalog: Seq<ControlSpec>) -> bool {
    &&& read.controls == p.controls
    &&& read.output == p.output
    &&& numbered(of_role(read.media.items, MediaRole::Target), p.media)
    &&& read.media.items.len() == p.media.len() + pictures_used(read.faces).len()
    &&& forall|i: int|
        0 <= i < p.media.len() && Some((#[trigger] p.media[i]).id) == p.selected
            ==> read.media.target == Some(MediaId(i as u64))
    &&& read.faces.sources.dom() == p.pictures.dom()
    &&& forall|id: Seq<char>| #[trigger]
        p.pictures.dom().contains(id) ==> has_picture(
            SourcesRead { media: read.media, faces: read.faces },
            id,
            p.pictures[id],
        )
    &&& read.faces.merged == all_loaded(p.identities)
    &&& read.faces.targets == all_kept(p.controls, p.targets)
    &&& read.timeline.markers == Map::new(
        |frame: u64| p.markers.dom().contains(frame),
        |frame: u64| restored(read.faces, p.controls, p.markers[frame], catalog),
    )
}

proof fn root_members(root: TextMap<Json>, p: Parts, catalog: Seq<ControlSpec>)
    requires
        holds_parts(root, p, catalog),
    ensures
        member(root, "selected_media_id"@) == Some(root@["selected_media_id"@]),
        array_member(root, "target_medias_data"@) == Some(root@["target_medias_data"@]->Array_0),
        object_member(root, "target_faces_data"@) == Some(root@["target_faces_data"@]->Object_0),
        object_member(root, "embeddings_data"@) == Some(root@["embeddings_data"@]->Object_0),
        object_member(root, "input_faces_data"@) == Some(root@["input_faces_data"@]->Object_0),
        object_member(root, "markers"@) == Some(root@["markers"@]->Object_0),
        object_member(root, "control"@) == Some(root@["control"@]->Object_0),
        object_member(root, "current_widget_parameters"@) == Some(
            root@["current_widget_parameters"@]->Object_0,
        ),
        root@["control"@] == Json::Object(root@["control"@]->Object_0),
{
    assert(root@.dom().contains("selected_media_id"@));
    assert(root@.dom().contains("target_medias_data"@));
    assert(root@.dom().contains("target_faces_data"@));
    assert(root@.dom().contains("embeddings_data"@));
    assert(root@.dom().contains("input_faces_data"@));
    assert(root@.dom().contains("markers"@));
    assert(root@.dom().contains("control"@));
    assert(root@.dom().contains("current_widget_parameters"@));
}

/// Where target media stand before all others, they are the first ones.
proof fn targets_come_first(items: Seq<MediaItem>, n: int)
    requires
        0 <= n <= items.len(),
        forall|i: int| 0 <= i < n ==> (#[trigger] items[i]).role == MediaRole::Target,
        forall|i: int| n <= i < items.len() ==> (#[trigger] items[i]).role == MediaRole::Source,
    ensures
        of_role(items, MediaRole::Target) == items.take(n),
    decreases items.len(),
{
    if items.len() == 0 {
        assert(items.take(n) =~= Seq::<MediaItem>::empty());
    } else {
        let front = items.drop_last();
        let m = if n == items.len() {
            n - 1
        } else {
            n
        };
        assert forall|i: int| 0 <= i < m implies (#[trigger] front[i]).role == MediaRole::Target by {
            assert(front[i] == items[i]);
        }
        assert forall|i: int| m <= i < front.len() implies (#[trigger] front[i]).role
            == MediaRole::Source by {
            assert(front[i] == items[i]);
        }
        targets_come_first(front, m);
        if n == items.len() {
            assert(items.take(n) =~= front.take(m).push(items.last()));
        } else {
            assert(items.take(n) =~= front.take(m));
        }
    }
}

/// There are as many source media as pictures that sources have.
proof fn pictures_are_counted(s: SourcesRead, start: SourcesRead, paths: Map<Seq<char>, Seq<char>>, n: int)
    requires
        sources_taken(s, start, paths, s.faces.sources.dom(), n),
        forall|i: int|
            0 <= i < start.media.items.len() ==> (#[trigger] start.media.items[i]).role
                == MediaRole::Target,
    ensures
        s.media.items.len() == start.media.items.len() + pictures_used(s.faces).len(),
        of_role(s.media.items, MediaRole::Target) == start.media.items,
{
    let m = start.media.items.len() as int;
    let items = s.media.items;
    assert forall|i: int| 0 <= i < m implies (#[trigger] items[i]).role == MediaRole::Target by {
        assert(items[i] == start.media.items[i]);
    }
    targets_come_first(items, m);
    assert(items.take(m) =~= start.media.items);
    let own = Seq::new((items.len() - m) as nat, |i: int| Some(items[m + i].id));
    let used = pictures_used(s.faces);
    assert forall|i: int, j: int| 0 <= i < j < own.len() implies own[i] != own[j] by {
        assert(items[m + i].id != items[m + j].id);
    }
    own.unique_seq_to_set();
    assert forall|id: Option<MediaId>| own.to_set().contains(id) <==> #[trigger] used.contains(
        id,
    ) by {
        if own.to_set().contains(id) {
            let i = choose|i: int| 0 <= i < own.len() && own[i] == id;
            assert(is_picture(s.faces, s.faces.sources.dom(), items[m + i]));
            let key = choose|key: Seq<char>| #[trigger]
                s.faces.sources.dom().contains(key) && s.faces.sources[key].media_id == Some(
                    items[m + i].id,
                );
            assert(used.contains(s.faces.sources[key].media_id));
        }
        if used.contains(id) {
            let key = choose|key: Seq<char>|
                s.faces.sources.dom().contains(key) && id == s.faces.sources[key].media_id;
            assert(has_picture(s, key, paths[key]));
            let k = found_item_is_there(items, id->0);
            assert(k >= m);
            assert(own[k - m] == id);
        }
    }
    assert(own.to_set() =~= used);
}

/// The media were read: the targets in their order, the selection, the sources.
pub open spec fn has_media(read: Document, fresh: Document, p: Parts) -> bool {
    &&& read == (Document { media: read.media, faces: read.faces, ..fresh })
    &&& read.faces == (Faces { sources: read.faces.sources, ..fresh.faces })
    &&& numbered(of_role(read.media.items, MediaRole::Target), p.media)
    &&& read.media.items.len() == p.media.len() + pictures_used(read.faces).len()
    &&& forall|i: int|
        0 <= i < p.media.len() && Some((#[trigger] p.media[i]).id) == p.selected
            ==> read.media.target == Some(MediaId(i as u64))
    &&& read.faces.sources.dom() == p.pictures.dom()
    &&& forall|id: Seq<char>| #[trigger]
        p.pictures.dom().contains(id) ==> has_picture(
            SourcesRead { media: read.media, faces: read.faces },
            id,
            p.pictures[id],
        )
}

proof fn media_reads_back(
    p: Parts,
    root: TextMap<Json>,
    fresh: Document,
    catalog: Seq<ControlSpec>,
    r: Result<Document, WorkspaceError>,
)
    requires
        holds_parts(root, p, catalog),
        readable_parts(p, catalog),
        tidy(root, p),
        fresh.media == no_media(),
        fresh.faces == no_faces(),
        media_read(fresh, root, r),
    ensures
        r matches Ok(read) && has_media(read, fresh, p),
{
    root_members(root, p, catalog);
    let start = TargetsRead { media: fresh.media, ids: Map::empty() };
    let list = root@["target_medias_data"@];
    let targets = choose|targets: Result<TargetsRead, WorkspaceError>|
        {
            &&& #[trigger] runs(
                target_media_step(),
                TargetsRead { media: fresh.media, ids: Map::empty() },
                elements_of(array_member(root, "target_medias_data"@)),
                targets,
            )
            &&& match targets {
                Err(e) => r == Err::<Document, WorkspaceError>(e),
                Ok(found) => sources_read(fresh, root, found, r),
            }
        };
    target_media_read_back(p.media, list, start, targets);
    let found = targets->Ok_0;
    let o = root@["input_faces_data"@]->Object_0;
    let begin = SourcesRead { media: found.media, faces: fresh.faces };
    let sources = choose|sources: Result<SourcesRead, WorkspaceError>|
        {
            &&& #[trigger] runs(
                source_media_step(),
                SourcesRead { media: found.media, faces: fresh.faces },
                entries_of(object_member(root, "input_faces_data"@)),
                sources,
            )
            &&& match sources {
                Err(e) => r == Err::<Document, WorkspaceError>(e),
                Ok(read) => exists|selected: Result<Library, WorkspaceError>|
                    {
                        &&& #[trigger] selection_read(read.media, found.ids, root, selected)
                        &&& r == match selected {
                            Ok(media) => Ok::<Document, WorkspaceError>(
                                Document { media, faces: read.faces, ..fresh },
                            ),
                            Err(e) => Err(e),
                        }
                    },
            }
        };
    sources_read_back(p.pictures, o, begin, sources);
    let read = sources->Ok_0;
    let selected = choose|selected: Result<Library, WorkspaceError>|
        {
            &&& #[trigger] selection_read(read.media, found.ids, root, selected)
            &&& r == match selected {
                Ok(media) => Ok::<Document, WorkspaceError>(
                    Document { media, faces: read.faces, ..fresh },
                ),
                Err(e) => Err(e),
            }
        };
    selection_reads_back(p, root, found, read.media, selected);
    let media = selected->Ok_0;
    let n = p.media.len() as int;
    assert(p.media.take(n) =~= p.media);
    assert(read.faces.sources.dom() =~= p.pictures.dom());
    assert forall|i: int| 0 <= i < found.media.items.len() implies (
    #[trigger] found.media.items[i]).role == MediaRole::Target by {
        assert(found.media.items[i].role == p.media[i].role);
    }
    pictures_are_counted(read, begin, p.pictures, o.pairs().len() as int);
    assert forall|id: Seq<char>| #[trigger] p.pictures.dom().contains(id) implies has_picture(
        SourcesRead { media, faces: read.faces },
        id,
        p.pictures[id],
    ) by {
        assert(has_picture(read, id, p.pictures[id]));
    }
}

proof fn selection_reads_back(
    p: Parts,
    root: TextMap<Json>,
    found: TargetsRead,
    media: Library,
    r: Result<Library, WorkspaceError>,
)
    requires
        member(root, "selected_media_id"@) == Some(root@["selected_media_id"@]),
        is_selection(root@["selected_media_id"@], p.selected),
        readable_media(p.media),
        p.selected matches Some(id) ==> exists|i: int|
            0 <= i < p.media.len() && (#[trigger] p.media[i]).id == id,
        targets_taken(found, p.media, p.media.len() as int),
        media.wf(),
        found.media.items.is_prefix_of(media.items),
        selection_read(media, found.ids, root, r),
    ensures
        r matches Ok(after) && after.items == media.items && forall|i: int|
            0 <= i < p.media.len() && Some((#[trigger] p.media[i]).id) == p.selected
                ==> after.target == Some(MediaId(i as u64)),
{
    let value = root@["selected_media_id"@];
    if let Some(id) = p.selected {
        let k = choose|k: int| 0 <= k < p.media.len() && (#[trigger] p.media[k]).id == id;
        let name = media_name(p.media, k);
        assert(identifier_member(root, "selected_media_id"@) == Some(name));
        assert(found.ids.dom().contains(name) && found.ids[name] == MediaId(k as u64));
        assert(p.media.take(p.media.len() as int)[k] == p.media[k]);
        assert(found.media.items[k].id == MediaId(k as u64));
        assert(media.items[k] == found.media.items[k]);
        unique_item_is_found(media.items, k);
        assert forall|i: int|
            0 <= i < p.media.len() && Some((#[trigger] p.media[i]).id) == p.selected implies i
            == k by {
            if i < k {
                assert(p.media[i].id != p.media[k].id);
            } else if k < i {
                assert(p.media[k].id != p.media[i].id);
            }
        }
    } else {
        assert(identifier_member(root, "selected_media_id"@) is None);
    }
}

/// A workspace that was exported is read back with all of its parts, where these can be: see
/// `readable_parts` for what that asks of them, and `has_parts` for what comes back.
pub proof fn exported_workspace_reads_back(
    document: WorkspaceDocument,
    name: Seq<char>,
    value: Json,
    catalog: Seq<ControlSpec>,
    r: Result<Document, WorkspaceError>,
)
    requires
        is_document(value, document, catalog),
        usable_catalog(catalog),
        readable_parts(parts_of(document), catalog),
        few_media(parts_of(document)),
        imported(name, value, catalog, r),
    ensures
        r matches Ok(read) && read.name == name && has_parts(read, parts_of(document), catalog),
{
    let p = parts_of(document);
    let root = value->Object_0;
    assert(holds_parts(root, p, catalog));
    document_is_tidy(root, p, catalog);
    let opening = choose|fresh: Result<Document, WorkspaceError>|
        {
            &&& #[trigger] opened(name, catalog, fresh)
            &&& match fresh {
                Err(e) => r == Err::<Document, WorkspaceError>(e),
                Ok(document) => parts_read(document, root, catalog, r),
            }
        };
    if let Err(WorkspaceError::Controls(e)) = opening {
        assert(defaults_given(catalog, Err(e)));
        assert(false);
    }
    let fresh = opening->Ok_0;
    let first = choose|first: Result<Document, WorkspaceError>|
        {
            &&& #[trigger] media_read(fresh, root, first)
            &&& match first {
                Err(e) => r == Err::<Document, WorkspaceError>(e),
                Ok(document) => later_parts_read(document, root, catalog, r),
            }
        };
    media_reads_back(p, root, fresh, catalog, first);
    later_parts_read_back(p, root, fresh, first->Ok_0, catalog, r);
}

/// The paths of media, in their order.
pub open spec fn paths_of(items: Seq<MediaItem>) -> Seq<Seq<char>> {
    items.map_values(|item: MediaItem| item.path@)
}

/// The path of the item with an identifier.
pub open spec fn path_of(items: Seq<MediaItem>, id: MediaId) -> Option<Seq<char>> {
    match find_item(items, id) {
        Some(item) => Some(item.path@),
        None => None,
    }
}

/// A workspace that holds no more than target media, controls and an output directory.
pub open spec fn is_plain(document: Document) -> bool {
    &&& document.faces == no_faces()
    &&& of_role(document.media.items, MediaRole::Source).len() == 0
    &&& document.timeline.markers == Map::<u64, Marker>::empty()
    &&& document.output matches Some(path) ==> path.len() > 0
}

/// Where nothing is of the other role, the items of a role are all of them.
proof fn only_role_is_everything(items: Seq<MediaItem>)
    requires
        of_role(items, MediaRole::Source).len() == 0,
    ensures
        of_role(items, MediaRole::Target) == items,
{
    let _ = role_keeps_order(items, MediaRole::Source);
    assert forall|i: int| 0 <= i < items.len() implies (#[trigger] items[i]).role
        == MediaRole::Target by {
        if items[i].role == MediaRole::Source {
            assert(of_role(items, MediaRole::Source).contains(items[i]));
        }
    }
    targets_come_first(items, items.len() as int);
    assert(items.take(items.len() as int) =~= items);
}

/// The parts of a plain workspace can be read back.
proof fn plain_parts_are_readable(
    document: WorkspaceDocument,
    value: Json,
    catalog: Seq<ControlSpec>,
)
    requires
        is_exported(document, value, catalog),
        is_plain(document@),
        document.media@.wf(),
        document.media@.sorted_out(),
        document.media@.items.len() < u64::MAX,
    ensures
        readable_parts(parts_of(document), catalog),
        few_media(parts_of(document)),
        parts_of(document).media == document.media@.items,
        parts_of(document).pictures == Map::<Seq<char>, Seq<char>>::empty(),
{
    let p = parts_of(document);
    let media = document.media@;
    only_role_is_everything(media.items);
    let _ = role_keeps_order(media.items, MediaRole::Target);
    document.faces.no_content_has_no_entries();
    assert(p.pictures =~= Map::<Seq<char>, Seq<char>>::empty());
    assert(p.identities =~= Map::<Seq<char>, Merged>::empty());
    assert(p.targets =~= Map::<Seq<char>, Target>::empty());
    if let Some(id) = p.selected {
        let i = found_item_is_there(media.items, id);
        assert(p.media[i].id == id);
    }
    document.controls.entries_are_the_view();
    complete_values_are_for_controls(catalog, document.controls.entries());
}

/// Importing undoes exporting: a workspace of target media, controls and an output directory comes
/// back with its name, its controls, its output directory, its media in their order and no others,
/// and the same one selected.
pub proof fn plain_workspace_reads_back(
    document: WorkspaceDocument,
    value: Json,
    catalog: Seq<ControlSpec>,
    r: Result<Document, WorkspaceError>,
)
    requires
        is_exported(document, value, catalog),
        usable_catalog(catalog),
        is_plain(document@),
        document.media@.wf(),
        document.media@.sorted_out(),
        document.media@.items.len() < u64::MAX,
        imported(document@.name, value, catalog, r),
    ensures
        r matches Ok(read) && {
            &&& read.name == document@.name
            &&& read.controls == document@.controls
            &&& read.output == document@.output
            &&& paths_of(read.media.items) == paths_of(document@.media.items)
            &&& of_role(read.media.items, MediaRole::Target) == read.media.items
            &&& document@.media.target matches Some(id) ==> read.media.target matches Some(chosen)
                && path_of(read.media.items, chosen) == path_of(document@.media.items, id)
        },
{
    let p = parts_of(document);
    plain_parts_are_readable(document, value, catalog);
    exported_workspace_reads_back(document, document@.name, value, catalog, r);
    let read = r->Ok_0;
    let items = read.media.items;
    assert(pictures_used(read.faces) =~= Set::<Option<MediaId>>::empty());
    let at = role_keeps_order(items, MediaRole::Target);
    all_kept_is_everything(of_role(items, MediaRole::Target), items, at);
    assert(paths_of(items) =~= paths_of(document@.media.items));
    if let Some(id) = document@.media.target {
        let k = found_item_is_there(document@.media.items, id);
        assert(Some(p.media[k].id) == p.selected);
        assert(items[k].id == MediaId(k as u64));
        assert forall|a: int, b: int| 0 <= a < b < items.len() implies (#[trigger] items[a]).id != (
        #[trigger] items[b]).id by {
            assert(items[a].id == MediaId(a as u64) && items[b].id == MediaId(b as u64));
        }
        unique_item_is_found(items, k);
    }
}

/// As many items as there are, in their order, are all of them.
proof fn all_kept_is_everything(kept: Seq<MediaItem>, items: Seq<MediaItem>, at: Seq<int>)
    requires
        kept_in_order(kept, items, at),
        kept.len() == items.len(),
    ensures
        kept == items,
{
    assert forall|i: int| 0 <= i < kept.len() implies kept[i] == items[i] by {
        places_are_not_less(at, i, items.len() as int);
    }
    assert(kept =~= items);
}

proof fn places_are_not_less(at: Seq<int>, i: int, n: int)
    requires
        0 <= i < at.len(),
        at.len() == n,
        forall|a: int| 0 <= a < at.len() ==> 0 <= #[trigger] at[a] < n,
        forall|a: int, b: int| 0 <= a < b < at.len() ==> #[trigger] at[a] < #[trigger] at[b],
    ensures
        at[i] == i,
{
    places_rise(at, 0, i);
    places_rise(at, i, n - 1);
}

proof fn places_rise(at: Seq<int>, a: int, b: int)
    requires
        0 <= a <= b < at.len(),
        forall|a: int, b: int| 0 <= a < b < at.len() ==> #[trigger] at[a] < #[trigger] at[b],
    ensures
        at[b] - at[a] >= b - a,
    decreases b - a,
{
    if a < b {
        places_rise(at, a, b - 1);
        assert(at[b - 1] < at[b]);
    }
}

proof fn later_parts_read_back(
    p: Parts,
    root: TextMap<Json>,
    fresh: Document,
    before: Document,
    catalog: Seq<ControlSpec>,
    r: Result<Document, WorkspaceError>,
)
    requires
        holds_parts(root, p, catalog),
        readable_parts(p, catalog),
        tidy(root, p),
        usable_catalog(catalog),
        fresh.faces == no_faces(),
        fresh.controls == defaults(catalog, catalog.len()),
        has_media(before, fresh, p),
        later_parts_read(before, root, catalog, r),
    ensures
        r matches Ok(read) && read.name == fresh.name && has_parts(read, p, catalog),
{
    root_members(root, p, catalog);
    let second = choose|second: Result<Document, WorkspaceError>|
        {
            &&& #[trigger] settings_read(before, root, catalog, second)
            &&& match second {
                Err(e) => r == Err::<Document, WorkspaceError>(e),
                Ok(document) => exists|third: Result<Document, WorkspaceError>|
                    {
                        &&& #[trigger] faces_read(document, root, catalog, third)
                        &&& match third {
                            Err(e) => r == Err::<Document, WorkspaceError>(e),
                            Ok(document) => markers_read(document, root, catalog, r),
                        }
                    },
            }
        };
    settings_read_back(p, root, before, catalog, second);
    let settled = second->Ok_0;
    let third = choose|third: Result<Document, WorkspaceError>|
        {
            &&& #[trigger] faces_read(settled, root, catalog, third)
            &&& match third {
                Err(e) => r == Err::<Document, WorkspaceError>(e),
                Ok(document) => markers_read(document, root, catalog, r),
            }
        };
    faces_read_back(p, root, settled, catalog, third);
    let faced = third->Ok_0;
    let o = root@["markers"@]->Object_0;
    markers_read_back(p.markers, o, faced, root, catalog, r);
    let read = r->Ok_0;
    assert forall|id: Seq<char>| #[trigger] p.pictures.dom().contains(id) implies has_picture(
        SourcesRead { media: read.media, faces: read.faces },
        id,
        p.pictures[id],
    ) by {
        assert(has_picture(
            SourcesRead { media: before.media, faces: before.faces },
            id,
            p.pictures[id],
        ));
    }
    assert(pictures_used(read.faces) =~= pictures_used(before.faces));
}

proof fn settings_read_back(
    p: Parts,
    root: TextMap<Json>,
    before: Document,
    catalog: Seq<ControlSpec>,
    r: Result<Document, WorkspaceError>,
)
    requires
        holds_parts(root, p, catalog),
        readable_parts(p, catalog),
        tidy(root, p),
        usable_catalog(catalog),
        before.controls == defaults(catalog, catalog.len()),
        settings_read(before, root, catalog, r),
    ensures
        r == Ok::<Document, WorkspaceError>(
            Document { controls: p.controls, output: p.output, ..before },
        ),
{
    root_members(root, p, catalog);
    let control = root@["control"@]->Object_0;
    let parameters = root@["current_widget_parameters"@]->Object_0;
    let taken = choose|taken: Result<Map<Seq<char>, ControlValue>, ControlStateError>|
        {
            &&& #[trigger] controls_read_twice(
                before.controls,
                object_member(root, "control"@),
                object_member(root, "current_widget_parameters"@),
                catalog,
                taken,
            )
            &&& r == match taken {
                Ok(controls) => Ok::<Document, WorkspaceError>(
                    Document { controls, output: output_read(before.output, root), ..before },
                ),
                Err(e) => Err(WorkspaceError::Controls(e)),
            }
        };
    controls_read_back(p.controls, p.output, before.controls, control, parameters, catalog, taken);
    output_reads_back(p.controls, p.output, root, before.output, catalog);
    assert(before.controls.union_prefer_right(p.controls) =~= p.controls);
}

proof fn faces_read_back(
    p: Parts,
    root: TextMap<Json>,
    before: Document,
    catalog: Seq<ControlSpec>,
    r: Result<Document, WorkspaceError>,
)
    requires
        holds_parts(root, p, catalog),
        readable_parts(p, catalog),
        tidy(root, p),
        usable_catalog(catalog),
        before.controls == p.controls,
        before.faces == (Faces { sources: before.faces.sources, ..no_faces() }),
        before.faces.sources.dom() == p.pictures.dom(),
        faces_read(before, root, catalog, r),
    ensures
        r matches Ok(read) && read == (Document { faces: read.faces, ..before })
            && read.faces.sources == before.faces.sources && read.faces.merged == all_loaded(
            p.identities,
        ) && read.faces.targets == all_kept(p.controls, p.targets),
{
    root_members(root, p, catalog);
    let named = root@["embeddings_data"@]->Object_0;
    let shown = root@["target_faces_data"@]->Object_0;
    let identities = choose|identities: Result<Faces, WorkspaceError>|
        {
            &&& #[trigger] runs(
                identities_step(),
                before.faces,
                entries_of(object_member(root, "embeddings_data"@)),
                identities,
            )
            &&& match identities {
                Err(e) => r == Err::<Document, WorkspaceError>(e),
                Ok(found) => exists|targets: Result<Faces, WorkspaceError>|
                    {
                        &&& #[trigger] runs(
                            target_faces_step(before.controls, catalog),
                            found,
                            entries_of(object_member(root, "target_faces_data"@)),
                            targets,
                        )
                        &&& r == match targets {
                            Ok(faces) => Ok::<Document, WorkspaceError>(
                                Document { faces, ..before },
                            ),
                            Err(e) => Err(e),
                        }
                    },
            }
        };
    identities_read_back(p.identities, named, before.faces, identities);
    let found = identities->Ok_0;
    assert(found.merged =~= all_loaded(p.identities));
    let targets = choose|targets: Result<Faces, WorkspaceError>|
        {
            &&& #[trigger] runs(
                target_faces_step(before.controls, catalog),
                found,
                entries_of(object_member(root, "target_faces_data"@)),
                targets,
            )
            &&& r == match targets {
                Ok(faces) => Ok::<Document, WorkspaceError>(Document { faces, ..before }),
                Err(e) => Err(e),
            }
        };
    assert(found.merged.dom() =~= p.identities.dom());
    assert forall|id: Seq<char>| #[trigger] p.targets.dom().contains(id) implies {
        &&& readable_target(p.targets[id], found, catalog)
        &&& target_in_order(shown@[id])
        &&& !found.targets.dom().contains(id)
    } by {
        assert(whole_target(p.targets[id], p, catalog));
    }
    targets_read_back(p.targets, shown, before.controls, catalog, found, targets);
    assert((targets->Ok_0).targets =~= all_kept(p.controls, p.targets));
}

} // verus!
