//! Where an exported workspace keeps what it holds: the members of its document, by name.

use vstd::prelude::*;

use crate::controls::{ControlScope, ControlSpec, ControlValue};
use crate::faces::{Crop, Merged, Target};
use crate::json::{Json, JsonNumber};
use crate::media::{of_role, MediaRole};
use crate::ordered::listed;
use crate::text::numeral;
use crate::workspace::document::WorkspaceDocument;
use crate::workspace::export::{all_pictures, identities_by_id, is_document, targets_by_id};
use crate::workspace::values::{is_crop, is_pixel, is_row, is_store};

verus! {

/// The member `key` of a document's object.
pub open spec fn at(value: Json, key: Seq<char>) -> Json {
    value->Object_0@[key]
}

/// A document's object has the member `key`.
pub open spec fn has(value: Json, key: Seq<char>) -> bool {
    value is Object && value->Object_0@.dom().contains(key)
}

/// `value` writes the value of a control: a toggle as true or false, a slider as its number, or
/// nothing where that is not finite, and a choice as its text.
pub open spec fn written(value: Json, control: ControlValue) -> bool {
    match control {
        ControlValue::Toggle(on) => value == Json::Bool(on),
        ControlValue::Slider(d) => if d.finite() {
            value == Json::Number(JsonNumber::Real(d))
        } else {
            value is Null
        },
        ControlValue::Choice(text) => value.text() == Some(text@),
    }
}

/// A document that was exported says under their names which target was selected, which media were
/// there, in order, where output goes and which folder was last used.
pub proof fn media_stand_in_their_places(
    value: Json,
    document: WorkspaceDocument,
    catalog: Seq<ControlSpec>,
    i: int,
)
    requires
        is_document(value, document, catalog),
    ensures
        document.media@.target matches Some(id) ==> at(value, "selected_media_id"@).text() == Some(
            numeral(id.0 as nat),
        ),
        document.media@.target is None ==> at(value, "selected_media_id"@) == Json::Bool(false),
        at(value, "target_medias_data"@) matches Json::Array(list) && list@.len() == of_role(
            document.media@.items,
            MediaRole::Target,
        ).len(),
        0 <= i < of_role(document.media@.items, MediaRole::Target).len() ==> {
            let list = at(value, "target_medias_data"@)->Array_0@;
            let item = of_role(document.media@.items, MediaRole::Target)[i];
            &&& at(list[i], "media_path"@).text() == Some(item.path@)
            &&& at(list[i], "media_id"@).text() == Some(numeral(item.id.0 as nat))
        },
        document@.output matches Some(path) ==> at(
            at(value, "control"@),
            "OutputMediaFolder"@,
        ).text() == Some(path),
        document.media@.directory matches Some(path) ==> at(
            value,
            "last_target_media_folder_path"@,
        ).text() == Some(path) && at(value, "last_input_media_folder_path"@).text() == Some(path),
        document.media@.directory is None ==> at(value, "last_target_media_folder_path"@) is Null
            && at(value, "last_input_media_folder_path"@) is Null,
{
    if 0 <= i < of_role(document.media@.items, MediaRole::Target).len() {
        let list = at(value, "target_medias_data"@)->Array_0@;
        assert(crate::workspace::export::is_target_medium(
            list[i],
            of_role(document.media@.items, MediaRole::Target)[i],
        ));
    }
}

/// Controls of the settings stand under `control`, and those of faces under
/// `current_widget_parameters`.
pub proof fn controls_stand_in_their_places(
    value: Json,
    document: WorkspaceDocument,
    catalog: Seq<ControlSpec>,
    k: int,
)
    requires
        is_document(value, document, catalog),
        0 <= k < catalog.len(),
        document.controls@.dom().contains(catalog[k].id@),
    ensures
        catalog[k].scope is Settings && catalog[k].id@ != "OutputMediaFolder"@ ==> has(
            at(value, "control"@),
            catalog[k].id@,
        ) && written(
            at(at(value, "control"@), catalog[k].id@),
            document.controls@[catalog[k].id@],
        ),
        catalog[k].scope is Common || catalog[k].scope is Swapper ==> has(
            at(value, "current_widget_parameters"@),
            catalog[k].id@,
        ) && written(
            at(at(value, "current_widget_parameters"@), catalog[k].id@),
            document.controls@[catalog[k].id@],
        ),
{
    let id = catalog[k].id@;
    assert(crate::controls::in_scope(catalog, catalog[k].scope, id));
    if catalog[k].scope is Settings && id != "OutputMediaFolder"@ {
        let settings = crate::controls::scope_json(
            document.controls@,
            ControlScope::Settings,
            catalog,
        );
        assert(settings.dom().contains(id));
    }
}

/// Every target face stands under its id, with its picture, its embeddings, its controls and what
/// is assigned to it; every merged identity stands under its own with its name and embeddings.
pub proof fn faces_stand_in_their_places(
    value: Json,
    document: WorkspaceDocument,
    catalog: Seq<ControlSpec>,
    id: Seq<char>,
    i: int,
)
    requires
        is_document(value, document, catalog),
    ensures
        ({
            let targets = targets_by_id(
                document.faces.target_entries(),
                document.faces.target_entries().len(),
            );
            let face = at(at(value, "target_faces_data"@), id);
            targets.dom().contains(id) ==> {
                let target: Target = targets[id];
                &&& has(at(value, "target_faces_data"@), id)
                &&& is_store(at(face, "embedding_store"@), target.embeddings)
                &&& is_store(at(face, "assigned_input_embedding"@), target.cache)
                &&& at(face, "assigned_input_faces"@) matches Json::Array(list) && list@.len()
                    == listed(target.sources).len()
                &&& 0 <= i < listed(target.sources).len() ==> (at(
                    face,
                    "assigned_input_faces"@,
                )->Array_0@[i]).text() == Some(listed(target.sources)[i])
                &&& at(face, "assigned_merged_embeddings"@) matches Json::Array(list) && list@.len()
                    == listed(target.merged).len()
                &&& 0 <= i < listed(target.merged).len() ==> (at(
                    face,
                    "assigned_merged_embeddings"@,
                )->Array_0@[i]).text() == Some(listed(target.merged)[i])
            }
        }),
        ({
            let identities = identities_by_id(
                document.faces.merged_entries(),
                document.faces.merged_entries().len(),
            );
            let identity = at(at(value, "embeddings_data"@), id);
            identities.dom().contains(id) ==> {
                let merged: Merged = identities[id];
                &&& has(at(value, "embeddings_data"@), id)
                &&& at(identity, "embedding_name"@).text() == Some(merged.name)
                &&& is_store(at(identity, "embedding_store"@), merged.embeddings)
            }
        }),
{
    let targets = targets_by_id(
        document.faces.target_entries(),
        document.faces.target_entries().len(),
    );
    if targets.dom().contains(id) {
        assert(crate::workspace::export::is_target_face(
            at(at(value, "target_faces_data"@), id),
            targets[id],
            catalog,
        ));
    }
    let identities = identities_by_id(
        document.faces.merged_entries(),
        document.faces.merged_entries().len(),
    );
    if identities.dom().contains(id) {
        assert(crate::workspace::export::is_identity(
            at(at(value, "embeddings_data"@), id),
            identities[id],
        ));
    }
}

/// Every marker stands under the number of its frame, with its settings under `control` and its
/// other controls under `parameters`, by face, or under `default` where it knows no face.
pub proof fn markers_stand_in_their_places(
    value: Json,
    document: WorkspaceDocument,
    catalog: Seq<ControlSpec>,
    frame: u64,
    k: int,
)
    requires
        is_document(value, document, catalog),
        document.timeline@.markers.dom().contains(frame),
        0 <= k < catalog.len(),
        document.timeline@.markers[frame].controls.dom().contains(catalog[k].id@),
    ensures
        ({
            let marker = document.timeline@.markers[frame];
            let place = at(at(value, "markers"@), numeral(frame as nat));
            let id = catalog[k].id@;
            &&& catalog[k].scope is Settings ==> has(at(place, "control"@), id) && written(
                at(at(place, "control"@), id),
                marker.controls[id],
            )
            &&& (catalog[k].scope is Common || catalog[k].scope is Swapper) && marker.faces.dom()
                == Set::<Seq<char>>::empty() ==> has(at(at(place, "parameters"@), "default"@), id)
                && written(at(at(at(place, "parameters"@), "default"@), id), marker.controls[id])
        }),
{
    let marker = document.timeline@.markers[frame];
    let place = at(at(value, "markers"@), numeral(frame as nat));
    let id = catalog[k].id@;
    assert(crate::workspace::export::is_marker(place, marker, catalog));
    assert(crate::controls::in_scope(catalog, catalog[k].scope, id));
}

/// A picture is written row by row, each row pixel by pixel, each pixel as its red, its green and
/// its blue.
pub proof fn pixels_stand_in_their_places(value: Json, crop: Crop, x: int, y: int)
    requires
        is_crop(value, crop),
        0 <= x < crop.width,
        0 <= y < crop.height,
        crop.rgb.len() == crop.width * crop.height * 3,
    ensures
        ({
            let pixel = value->Array_0@[y]->Array_0@[x]->Array_0@;
            let first = 3 * (y * crop.width + x);
            &&& value->Array_0@.len() == crop.height
            &&& value->Array_0@[y]->Array_0@.len() == crop.width
            &&& pixel.len() == 3
            &&& forall|k: int|
                0 <= k < 3 ==> (#[trigger] pixel[k] matches Json::Number(
                    JsonNumber::Whole { value: n, .. },
                ) && n == crop.rgb[first + k])
        }),
{
    let w = crop.width as int;
    let h = crop.height as int;
    let n = crop.rgb.len() as int;
    assert(n / (w * 3) == h) by (nonlinear_arith)
        requires
            n == w * h * 3,
            w > 0,
    ;
    let rows = value->Array_0@;
    assert(is_row(rows[y], crop.rgb, w, y));
    assert(is_pixel(rows[y]->Array_0@[x], crop.rgb, (y * w + x) * 3));
}

/// A face has its picture under `cropped_face`, and every source that has a picture has its path
/// under `input_faces_data`.
pub proof fn pictures_stand_in_their_places(
    value: Json,
    document: WorkspaceDocument,
    catalog: Seq<ControlSpec>,
    id: Seq<char>,
)
    requires
        is_document(value, document, catalog),
    ensures
        ({
            let pictures = all_pictures(document.faces.source_entries(), document.media@);
            let paths = at(value, "input_faces_data"@);
            &&& has(paths, id) <==> pictures.dom().contains(id)
            &&& pictures.dom().contains(id) ==> at(at(paths, id), "media_path"@).text() == Some(
                pictures[id],
            )
        }),
        at(value, "loaded_embedding_filename"@).text() == Some(Seq::<char>::empty()),
        ({
            let targets = targets_by_id(
                document.faces.target_entries(),
                document.faces.target_entries().len(),
            );
            let picture = at(at(at(value, "target_faces_data"@), id), "cropped_face"@);
            targets.dom().contains(id) ==> if targets[id].crop is Some {
                is_crop(picture, targets[id].crop->0)
            } else {
                picture is Array && picture->Array_0@.len() == 0
            }
        }),
{
    let targets = targets_by_id(
        document.faces.target_entries(),
        document.faces.target_entries().len(),
    );
    if targets.dom().contains(id) {
        assert(crate::workspace::export::is_target_face(
            at(at(value, "target_faces_data"@), id),
            targets[id],
            catalog,
        ));
    }
}

} // verus!
