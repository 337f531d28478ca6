//! What a session keeps to, whatever its user and its worker do.

use vstd::prelude::*;

use crate::bridge::read::ControlBridgeError;
use crate::bridge::request::settings_read;
use crate::bridge::settings::{settings_match, EditorRuntimeConfig};
use crate::config::{DetectorModel, ExecutionProvider, FaceSwapParams};
use crate::controls::{defaults, defaults_given, fits, shown};
use crate::controls::{ControlScope, ControlSpec, ControlValue, FrontendMode};
use crate::embeddings::{sound_store, EmbeddingMergeMethod};
use crate::engine::spec::EngineSpec;
use crate::faces::{FaceWorkspace, Faces, Target};
use crate::media::{find_item, Library, MediaId, MediaItem, MediaKind, MediaRole};
use crate::number::Single;
use crate::ordered::{every_set_is_listed, listed};
use crate::paths::{extension_reads_back, file_name_reads_back, free_of, parent_of};
use crate::runtime::EditorJobPhase;
use crate::search::{has_part, lower_case_of, stripped, wanted};
use crate::session::events::{analyzed_faces, found_id, found_store, kept_merged, kept_sources};
use crate::session::events::{event_handled, AnalyzedIdentity, EditorRuntimeEvent};
use crate::session::files::{document_opened, model_name};
use crate::session::inspector::{control_applied, found_control, listed_places, scoped_values};
use crate::session::inspector::{tab_selected, wheel_choice, InspectorTab, Wheel};
use crate::session::jobs::{analysis_begun, playback_begun, playback_made, preview_begun};
use crate::session::jobs::{record_begun, record_made, source_media, target_item, Working};
use crate::session::jobs::{
    AnalyzeRequest, EngineServices, PlaybackRequest, PreviewRequest, RecordRequest,
};
use crate::session::media::{captured, kept, kind_shown, listed_among, media_chosen};
use crate::session::media::recursion_toggle;
use crate::session::media::{swaps_by_itself, typed};
use crate::session::player::{keys_pressed, timeline_acted, PressedKeys, TimelineAction};
use crate::session::routes::{found_merged, method_of};
use crate::session::state::{EditorView, Said, Session};
use crate::text::{lowering_leaves_the_letters, numeral, numerals_are_distinct, spells};
use crate::timeline::{is_next, is_previous, Marker};
use crate::workspace::document::Document;

verus! {

/// No key is pressed.
pub open spec fn no_keys() -> PressedKeys {
    PressedKeys {
        f11: false,
        space: false,
        c: false,
        v: false,
        a: false,
        d: false,
        z: false,
        q: false,
        w: false,
        f: false,
        alt: false,
        p: false,
        s: false,
        r: false,
    }
}

/// `a`, or `b` where that is less.
pub open spec fn least(a: int, b: int) -> int {
    if a < b {
        a
    } else {
        b
    }
}

/// C and V go back and forth by one frame, A and D by thirty, and Z goes to the first one; none of
/// them leaves the video.
pub proof fn keys_move_the_playhead(s: Session)
    requires
        s.timeline.current < s.timeline.total,
    ensures
        keys_pressed(s, no_keys()) == s,
        keys_pressed(s, PressedKeys { c: true, ..no_keys() }).timeline.current == if s.timeline.current
            < 1 {
            0
        } else {
            s.timeline.current - 1
        },
        keys_pressed(s, PressedKeys { v: true, ..no_keys() }).timeline.current == least(
            s.timeline.current + 1,
            s.timeline.total - 1,
        ),
        keys_pressed(s, PressedKeys { a: true, ..no_keys() }).timeline.current == if s.timeline.current
            < 30 {
            0
        } else {
            s.timeline.current - 30
        },
        keys_pressed(s, PressedKeys { d: true, ..no_keys() }).timeline.current == least(
            s.timeline.current + 30,
            s.timeline.total - 1,
        ),
        keys_pressed(s, PressedKeys { z: true, ..no_keys() }).timeline.current == 0,
{
}

/// F puts a marker at the playhead, which holds the controls of the session, and removes it
/// together with Alt; Q and W go to the marker before and behind the playhead.
pub proof fn keys_set_and_reach_markers(s: Session, frame: u64)
    requires
        s.timeline.current < s.timeline.total,
        frame < s.timeline.total,
    ensures
        ({
            let marked = keys_pressed(s, PressedKeys { f: true, ..no_keys() }).timeline.markers;
            &&& marked.dom() == s.timeline.markers.dom().insert(s.timeline.current)
            &&& marked[s.timeline.current].controls == s.controls
            &&& forall|k: u64|
                k != s.timeline.current && s.timeline.markers.dom().contains(k)
                    ==> #[trigger] marked[k] == s.timeline.markers[k]
        }),
        keys_pressed(s, PressedKeys { f: true, alt: true, ..no_keys() }).timeline.markers
            == s.timeline.markers.remove(s.timeline.current),
        is_previous(s.timeline.markers, s.timeline.current, frame) ==> keys_pressed(
            s,
            PressedKeys { q: true, ..no_keys() },
        ).timeline.current == frame,
        is_next(s.timeline.markers, s.timeline.current, frame) ==> keys_pressed(
            s,
            PressedKeys { w: true, ..no_keys() },
        ).timeline.current == frame,
{
    if is_previous(s.timeline.markers, s.timeline.current, frame) {
        let found = choose|f: u64| is_previous(s.timeline.markers, s.timeline.current, f);
        assert(is_previous(s.timeline.markers, s.timeline.current, found));
        assert(found == frame);
    }
    if is_next(s.timeline.markers, s.timeline.current, frame) {
        let found = choose|f: u64| is_next(s.timeline.markers, s.timeline.current, f);
        assert(is_next(s.timeline.markers, s.timeline.current, found));
        assert(found == frame);
    }
}

/// Space plays or pauses and asks for just that, F11 fills the screen or no longer, and P detaches
/// the preview or attaches it.
pub proof fn keys_switch(s: Session)
    ensures
        ({
            let after = keys_pressed(s, PressedKeys { space: true, ..no_keys() });
            &&& after.timeline.playing == !s.timeline.playing
            &&& after.intents.play == (s.intents.play || !s.timeline.playing)
            &&& after.intents.pause == (s.intents.pause || s.timeline.playing)
            &&& after.intents.record == s.intents.record
            &&& after.intents.analysis == s.intents.analysis
        }),
        keys_pressed(s, PressedKeys { f11: true, ..no_keys() }).view.fullscreen
            == !s.view.fullscreen,
        keys_pressed(s, PressedKeys { p: true, ..no_keys() }).preview.detached
            == !s.preview.detached,
{
}

/// The buttons of the timeline go where they say, inside the video.
pub proof fn buttons_move_the_playhead(s: Session, frame: u64)
    requires
        s.timeline.current < s.timeline.total,
    ensures
        timeline_acted(s, TimelineAction::First).timeline.current == 0,
        timeline_acted(s, TimelineAction::Last).timeline.current == s.timeline.total - 1,
        timeline_acted(s, TimelineAction::NextFrame).timeline.current == least(
            s.timeline.current + 1,
            s.timeline.total - 1,
        ),
        timeline_acted(s, TimelineAction::PreviousFrame).timeline.current
            == if s.timeline.current < 1 {
            0
        } else {
            s.timeline.current - 1
        },
        timeline_acted(s, TimelineAction::Seek(frame)).timeline.current == least(
            frame as int,
            s.timeline.total - 1,
        ),
        is_previous(s.timeline.markers, s.timeline.current, frame) ==> timeline_acted(
            s,
            TimelineAction::PreviousMarker,
        ).timeline.current == frame,
        is_next(s.timeline.markers, s.timeline.current, frame) && frame < s.timeline.total
            ==> timeline_acted(s, TimelineAction::NextMarker).timeline.current == frame,
        timeline_acted(s, TimelineAction::Record).intents.record,
        timeline_acted(s, TimelineAction::PlayOrPause).timeline.playing == !s.timeline.playing,
        timeline_acted(s, TimelineAction::AddMarker).timeline.markers.dom()
            == s.timeline.markers.dom().insert(s.timeline.current),
        timeline_acted(s, TimelineAction::RemoveMarker).timeline.markers
            == s.timeline.markers.remove(s.timeline.current),
{
    if is_previous(s.timeline.markers, s.timeline.current, frame) {
        let found = choose|f: u64| is_previous(s.timeline.markers, s.timeline.current, f);
        assert(is_previous(s.timeline.markers, s.timeline.current, found));
        assert(found == frame);
    }
    if is_next(s.timeline.markers, s.timeline.current, frame) {
        let found = choose|f: u64| is_next(s.timeline.markers, s.timeline.current, f);
        assert(is_next(s.timeline.markers, s.timeline.current, found));
        assert(found == frame);
    }
}

/// Going to a frame that has a marker brings back the controls that the marker holds, and those of
/// every face that it knows; going elsewhere changes no control.
pub proof fn markers_bring_their_controls_back(s: Session, frame: u64, id: Seq<char>)
    requires
        frame < s.timeline.total,
        s.faces.targets.dom().contains(id),
    ensures
        ({
            let after = timeline_acted(s, TimelineAction::Seek(frame));
            if s.timeline.markers.dom().contains(frame) {
                let marker = s.timeline.markers[frame];
                &&& after.controls == marker.controls
                &&& after.faces.targets[id].controls == if marker.faces.dom().contains(id) {
                    marker.faces[id]
                } else {
                    s.faces.targets[id].controls
                }
                &&& after.faces.targets.dom() == s.faces.targets.dom()
            } else {
                after.controls == s.controls && after.faces == s.faces
            }
        }),
{
    let after = timeline_acted(s, TimelineAction::Seek(frame));
    assert(after.faces.targets.dom() =~= s.faces.targets.dom());
}

/// Identities are merged by the median exactly where that is what the control says.
pub proof fn merge_method_is_chosen(values: Map<Seq<char>, ControlValue>, text: String)
    requires
        values.dom().contains("EmbMergeMethodSelection"@),
        values["EmbMergeMethodSelection"@] == ControlValue::Choice(text),
    ensures
        method_of(values) == EmbeddingMergeMethod::Median <==> text@ == "Median"@,
        method_of(values) == EmbeddingMergeMethod::Mean <==> text@ != "Median"@,
{
}

/// Target folders and source folders are searched by switches of their own.
pub proof fn folders_have_their_own_switches()
    ensures
        recursion_toggle(MediaRole::Target) == "TargetMediaFolderRecursiveToggle"@,
        recursion_toggle(MediaRole::Source) == "InputFacesFolderRecursiveToggle"@,
        recursion_toggle(MediaRole::Target) != recursion_toggle(MediaRole::Source),
{
    reveal_strlit("TargetMediaFolderRecursiveToggle");
    reveal_strlit("InputFacesFolderRecursiveToggle");
    assert("TargetMediaFolderRecursiveToggle"@[0] == 'T');
    assert("InputFacesFolderRecursiveToggle"@[0] == 'I');
}

/// Exactly those media are listed whose kind is shown and whose path has what is looked for.
pub proof fn media_are_listed_by_filter(
    s: Session,
    items: Seq<MediaItem>,
    role: MediaRole,
    item: MediaItem,
)
    ensures
        listed_among(s, items, role).contains(item) <==> items.contains(item) && kind_shown(
            s.view,
            item,
        ) && has_part(lower_case_of(item.path@), wanted(typed(s, role))),
        listed_among(s, items, role).len() <= items.len(),
    decreases items.len(),
{
    if items.len() > 0 {
        let front = items.drop_last();
        media_are_listed_by_filter(s, front, role, item);
        let before = listed_among(s, front, role);
        let all = listed_among(s, items, role);
        if before.contains(item) {
            let i = choose|i: int| 0 <= i < before.len() && before[i] == item;
            assert(all[i] == item);
        }
        if all.contains(item) && !before.contains(item) {
            let i = choose|i: int| 0 <= i < all.len() && all[i] == item;
            assert(i >= before.len() || before[i] == item);
            assert(items[items.len() - 1] == item);
        }
        if front.contains(item) {
            let i = choose|i: int| 0 <= i < front.len() && front[i] == item;
            assert(items[i] == item);
        }
        if items.contains(item) && !front.contains(item) {
            let i = choose|i: int| 0 <= i < items.len() && items[i] == item;
            assert(i < front.len() ==> front[i] == item);
            if all.len() > before.len() {
                assert(all[before.len() as int] == items.last());
            }
        }
    }
}

/// The identity of a target, aside from what is assigned to it.
pub open spec fn same_face(a: Target, b: Target) -> bool {
    &&& a.id == b.id
    &&& a.media_id == b.media_id
    &&& a.embeddings == b.embeddings
    &&& a.crop == b.crop
    &&& a.controls == b.controls
}

/// Nothing but what is assigned to targets differs, and nothing is taken away from any.
pub open spec fn only_assigned(before: Faces, after: Faces) -> bool {
    &&& after.sources == before.sources
    &&& after.merged == before.merged
    &&& after.targets.dom() == before.targets.dom()
    &&& forall|t: Seq<char>| #[trigger]
        before.targets.dom().contains(t) ==> same_face(before.targets[t], after.targets[t])
            && before.targets[t].sources.subset_of(after.targets[t].sources)
            && before.targets[t].merged.subset_of(after.targets[t].merged)
}

proof fn sources_are_routed(f: Faces, target: Seq<char>, ids: Seq<Seq<char>>, n: nat)
    requires
        f.targets.dom().contains(target),
        n <= ids.len(),
    ensures
        only_assigned(f, f.routing_sources(target, ids, n)),
        forall|j: int|
            0 <= j < n && f.sources.dom().contains(#[trigger] ids[j]) ==> f.routing_sources(
                target,
                ids,
                n,
            ).targets[target].sources.contains(ids[j]),
    decreases n,
{
    if n > 0 {
        sources_are_routed(f, target, ids, (n - 1) as nat);
        let before = f.routing_sources(target, ids, (n - 1) as nat);
        let after = f.routing_sources(target, ids, n);
        assert(only_assigned(before, after)) by {
            assert(after.targets.dom() =~= before.targets.dom());
        }
        assert forall|t: Seq<char>| #[trigger] f.targets.dom().contains(t) implies same_face(
            f.targets[t],
            after.targets[t],
        ) && f.targets[t].sources.subset_of(after.targets[t].sources)
            && f.targets[t].merged.subset_of(after.targets[t].merged) by {
            assert(before.targets.dom().contains(t));
        }
    }
}

proof fn merged_are_routed(f: Faces, target: Seq<char>, ids: Seq<Seq<char>>, n: nat)
    requires
        f.targets.dom().contains(target),
        n <= ids.len(),
    ensures
        only_assigned(f, f.routing_all_merged(target, ids, n)),
        forall|j: int|
            0 <= j < n && f.merged.dom().contains(#[trigger] ids[j]) ==> f.routing_all_merged(
                target,
                ids,
                n,
            ).targets[target].merged.contains(ids[j]),
    decreases n,
{
    if n > 0 {
        merged_are_routed(f, target, ids, (n - 1) as nat);
        let before = f.routing_all_merged(target, ids, (n - 1) as nat);
        let after = f.routing_all_merged(target, ids, n);
        assert(only_assigned(before, after)) by {
            assert(after.targets.dom() =~= before.targets.dom());
        }
        assert forall|t: Seq<char>| #[trigger] f.targets.dom().contains(t) implies same_face(
            f.targets[t],
            after.targets[t],
        ) && f.targets[t].sources.subset_of(after.targets[t].sources)
            && f.targets[t].merged.subset_of(after.targets[t].merged) by {
            assert(before.targets.dom().contains(t));
        }
    }
}

proof fn only_assigned_goes_on(a: Faces, b: Faces, c: Faces)
    requires
        only_assigned(a, b),
        only_assigned(b, c),
    ensures
        only_assigned(a, c),
{
    assert forall|t: Seq<char>| #[trigger] a.targets.dom().contains(t) implies same_face(
        a.targets[t],
        c.targets[t],
    ) && a.targets[t].sources.subset_of(c.targets[t].sources) && a.targets[t].merged.subset_of(
        c.targets[t].merged,
    ) by {
        assert(b.targets.dom().contains(t));
    }
}

/// Routing gives every one of the targets every one of the identities that exist, and takes nothing
/// away from anybody.
pub proof fn everything_is_routed(
    f: Faces,
    targets: Seq<Seq<char>>,
    sources: Seq<Seq<char>>,
    merged: Seq<Seq<char>>,
    n: nat,
)
    requires
        n <= targets.len(),
        forall|k: int| 0 <= k < n ==> f.targets.dom().contains(#[trigger] targets[k]),
    ensures
        only_assigned(f, f.routing_targets(targets, sources, merged, n)),
        forall|k: int, j: int|
            0 <= k < n && 0 <= j < sources.len() && f.sources.dom().contains(#[trigger] sources[j])
                ==> f.routing_targets(targets, sources, merged, n).targets[
            #[trigger] targets[k]].sources.contains(sources[j]),
        forall|k: int, j: int|
            0 <= k < n && 0 <= j < merged.len() && f.merged.dom().contains(#[trigger] merged[j])
                ==> f.routing_targets(targets, sources, merged, n).targets[
            #[trigger] targets[k]].merged.contains(merged[j]),
    decreases n,
{
    if n > 0 {
        everything_is_routed(f, targets, sources, merged, (n - 1) as nat);
        let before = f.routing_targets(targets, sources, merged, (n - 1) as nat);
        let target = targets[n - 1];
        let halfway = before.routing_sources(target, sources, sources.len());
        let after = f.routing_targets(targets, sources, merged, n);
        assert(f.targets.dom().contains(targets[n - 1]));
        sources_are_routed(before, target, sources, sources.len());
        merged_are_routed(halfway, target, merged, merged.len());
        only_assigned_goes_on(f, before, halfway);
        only_assigned_goes_on(f, halfway, after);
        assert forall|k: int, j: int|
            0 <= k < n && 0 <= j < sources.len() && f.sources.dom().contains(
                #[trigger] sources[j],
            ) implies after.targets[#[trigger] targets[k]].sources.contains(sources[j]) by {
            assert(f.targets.dom().contains(targets[k]));
            assert(before.targets.dom().contains(targets[k]));
            assert(halfway.targets.dom().contains(targets[k]));
            if k < n - 1 {
                assert(before.targets[targets[k]].sources.contains(sources[j]));
                assert(halfway.targets[targets[k]].sources.contains(sources[j]));
            } else {
                assert(halfway.targets[target].sources.contains(sources[j]));
            }
        }
        assert forall|k: int, j: int|
            0 <= k < n && 0 <= j < merged.len() && f.merged.dom().contains(
                #[trigger] merged[j],
            ) implies after.targets[#[trigger] targets[k]].merged.contains(merged[j]) by {
            assert(f.targets.dom().contains(targets[k]));
            assert(before.targets.dom().contains(targets[k]));
            assert(halfway.targets.dom().contains(targets[k]));
            if k < n - 1 {
                assert(before.targets[targets[k]].merged.contains(merged[j]));
                assert(halfway.targets[targets[k]].merged.contains(merged[j]));
            }
        }
    }
}

/// A target that stands for one of the faces that were found.
pub open spec fn is_found(
    t: Target,
    key: Seq<char>,
    media: MediaId,
    found: Seq<AnalyzedIdentity>,
    controls: Map<Seq<char>, ControlValue>,
) -> bool {
    &&& t.id == key
    &&& t.media_id == Some(media)
    &&& t.controls == controls
    &&& exists|i: int| 0 <= i < found.len() && t.embeddings == found_store(#[trigger] found[i])
}

proof fn found_faces_become_targets(
    f: Faces,
    media: MediaId,
    found: Seq<AnalyzedIdentity>,
    digests: Seq<Option<Seq<char>>>,
    catalog: Seq<ControlSpec>,
    controls: Map<Seq<char>, ControlValue>,
    n: nat,
)
    requires
        f.targets == Map::<Seq<char>, Target>::empty(),
        n <= found.len(),
        digests.len() == found.len(),
    ensures
        ({
            let r = f.with_all_found(media, found, digests, catalog, controls, n);
            &&& r.sources == f.sources
            &&& r.merged == f.merged
            &&& r.targets.dom().finite()
            &&& forall|key: Seq<char>| #[trigger]
                r.targets.dom().contains(key) ==> is_found(
                    r.targets[key],
                    key,
                    media,
                    found,
                    controls,
                ) && r.targets[key].sources == Set::<Seq<char>>::empty() && r.targets[key].merged
                    == Set::<Seq<char>>::empty()
            &&& defaults_given(catalog, Ok(defaults(catalog, catalog.len()))) ==> forall|i: int|
                0 <= i < n && (#[trigger] digests[i]) is Some && sound_store(found_store(found[i]))
                    ==> r.targets.dom().contains(found_id(digests[i]->0, i as nat))
        }),
    decreases n,
{
    if n > 0 {
        found_faces_become_targets(f, media, found, digests, catalog, controls, (n - 1) as nat);
        let before = f.with_all_found(media, found, digests, catalog, controls, (n - 1) as nat);
        let r = f.with_all_found(media, found, digests, catalog, controls, n);
        assert forall|key: Seq<char>| #[trigger] r.targets.dom().contains(key) implies is_found(
            r.targets[key],
            key,
            media,
            found,
            controls,
        ) && r.targets[key].sources == Set::<Seq<char>>::empty() && r.targets[key].merged
            == Set::<Seq<char>>::empty() by {
            if !before.targets.dom().contains(key) {
                assert(r.targets[key].embeddings == found_store(found[n - 1]));
            }
        }
    }
}

proof fn embeddings_leave_the_rest(f: Faces, found: Seq<(Seq<char>, AnalyzedIdentity)>, n: nat)
    requires
        n <= found.len(),
    ensures
        f.with_analyzed(found, n).sources.dom() == f.sources.dom(),
        f.with_analyzed(found, n).merged == f.merged,
        f.with_analyzed(found, n).swap_all == f.swap_all,
    decreases n,
{
    if n > 0 {
        embeddings_leave_the_rest(f, found, (n - 1) as nat);
        assert(f.with_analyzed(found, n).sources.dom() =~= f.sources.dom());
    }
}

/// Once a medium is analyzed, its faces are all the targets there are. Every face that has a sound
/// embedding and a digest is one, with the controls of the session. No source and no merged
/// identity is lost.
pub proof fn analysis_finds_its_own_faces(
    s: Session,
    media: MediaId,
    targets: Seq<AnalyzedIdentity>,
    sources: Seq<(Seq<char>, AnalyzedIdentity)>,
    digests: Seq<Option<Seq<char>>>,
)
    requires
        digests.len() == targets.len(),
    ensures
        ({
            let r = analyzed_faces(s, media, targets, sources, digests);
            &&& r.sources.dom() == s.faces.sources.dom()
            &&& r.merged == s.faces.merged
            &&& forall|key: Seq<char>| #[trigger]
                r.targets.dom().contains(key) ==> is_found(
                    r.targets[key],
                    key,
                    media,
                    targets,
                    s.controls,
                )
            &&& defaults_given(s.catalog, Ok(defaults(s.catalog, s.catalog.len()))) ==> forall|
                i: int,
            |
                0 <= i < targets.len() && (#[trigger] digests[i]) is Some && sound_store(
                    found_store(targets[i]),
                ) ==> r.targets.dom().contains(found_id(digests[i]->0, i as nat))
        }),
{
    let known = s.faces.with_analyzed(sources, sources.len()).without_any_target();
    embeddings_leave_the_rest(s.faces, sources, sources.len());
    found_faces_become_targets(
        known,
        media,
        targets,
        digests,
        s.catalog,
        s.controls,
        targets.len(),
    );
    let found = known.with_all_found(
        media,
        targets,
        digests,
        s.catalog,
        s.controls,
        targets.len(),
    );
    if swaps_by_itself(s) {
        let ids = found.target_ids();
        ids_are_keys(found);
        everything_is_routed(found, ids, kept_sources(s), kept_merged(s), ids.len());
        let r = analyzed_faces(s, media, targets, sources, digests);
        assert forall|key: Seq<char>| #[trigger] r.targets.dom().contains(key) implies is_found(
            r.targets[key],
            key,
            media,
            targets,
            s.controls,
        ) by {
            assert(found.targets.dom().contains(key));
            let i = choose|i: int|
                0 <= i < targets.len() && found.targets[key].embeddings == found_store(
                    #[trigger] targets[i],
                );
            assert(r.targets[key].embeddings == found_store(targets[i]));
        }
    }
}

proof fn ids_are_keys(f: Faces)
    requires
        f.targets.dom().finite(),
        forall|key: Seq<char>| #[trigger]
            f.targets.dom().contains(key) ==> f.targets[key].id == key,
    ensures
        f.target_ids() == listed(f.targets.dom()),
        forall|k: int|
            0 <= k < f.target_ids().len() ==> f.targets.dom().contains(
                #[trigger] f.target_ids()[k],
            ),
        forall|key: Seq<char>| #[trigger]
            f.targets.dom().contains(key) ==> f.target_ids().contains(key),
{
    let keys = listed(f.targets.dom());
    every_set_is_listed(f.targets.dom());
    assert forall|k: int| 0 <= k < keys.len() implies f.targets.dom().contains(
        #[trigger] keys[k],
    ) by {
        assert(keys.contains(keys[k]));
    }
    assert(f.target_ids() =~= keys) by {
        assert forall|k: int| 0 <= k < keys.len() implies #[trigger] f.target_ids()[k]
            == keys[k] by {
            assert(f.targets.dom().contains(keys[k]));
        }
    }
}

/// With automatic swapping, every identity that was routed before the analysis and still exists is
/// assigned to every face that was found. Without it, nothing is assigned to any.
pub proof fn found_faces_are_swapped_by_themselves(
    s: Session,
    media: MediaId,
    targets: Seq<AnalyzedIdentity>,
    sources: Seq<(Seq<char>, AnalyzedIdentity)>,
    digests: Seq<Option<Seq<char>>>,
    face: Seq<char>,
    id: Seq<char>,
)
    requires
        digests.len() == targets.len(),
        s.controls.dom().contains("AutoSwapToggle"@),
        analyzed_faces(s, media, targets, sources, digests).targets.dom().contains(face),
    ensures
        s.controls["AutoSwapToggle"@] == ControlValue::Toggle(true) && kept_sources(s).contains(id)
            && s.faces.sources.dom().contains(id) ==> analyzed_faces(
            s,
            media,
            targets,
            sources,
            digests,
        ).targets[face].sources.contains(id),
        s.controls["AutoSwapToggle"@] == ControlValue::Toggle(true) && kept_merged(s).contains(id)
            && s.faces.merged.dom().contains(id) ==> analyzed_faces(
            s,
            media,
            targets,
            sources,
            digests,
        ).targets[face].merged.contains(id),
        s.controls["AutoSwapToggle"@] == ControlValue::Toggle(false) ==> analyzed_faces(
            s,
            media,
            targets,
            sources,
            digests,
        ).targets[face].sources == Set::<Seq<char>>::empty() && analyzed_faces(
            s,
            media,
            targets,
            sources,
            digests,
        ).targets[face].merged == Set::<Seq<char>>::empty(),
{
    let known = s.faces.with_analyzed(sources, sources.len()).without_any_target();
    embeddings_leave_the_rest(s.faces, sources, sources.len());
    found_faces_become_targets(
        known,
        media,
        targets,
        digests,
        s.catalog,
        s.controls,
        targets.len(),
    );
    let found = known.with_all_found(
        media,
        targets,
        digests,
        s.catalog,
        s.controls,
        targets.len(),
    );
    if swaps_by_itself(s) {
        let ids = found.target_ids();
        ids_are_keys(found);
        let own = kept_sources(s);
        let blended = kept_merged(s);
        everything_is_routed(found, ids, own, blended, ids.len());
        assert(found.targets.dom().contains(face));
        assert(ids.contains(face));
        let k = choose|k: int| 0 <= k < ids.len() && ids[k] == face;
        if own.contains(id) && s.faces.sources.dom().contains(id) {
            let j = choose|j: int| 0 <= j < own.len() && own[j] == id;
            assert(found.sources.dom().contains(own[j]));
            assert(analyzed_faces(s, media, targets, sources, digests).targets[
            ids[k]].sources.contains(own[j]));
        }
        if blended.contains(id) && s.faces.merged.dom().contains(id) {
            let j = choose|j: int| 0 <= j < blended.len() && blended[j] == id;
            assert(found.merged.dom().contains(blended[j]));
            assert(analyzed_faces(s, media, targets, sources, digests).targets[
            ids[k]].merged.contains(blended[j]));
        }
    }
}

/// A control that is changed for the selected face changes that face and nobody else; one of the
/// settings, or any where no face is selected, changes the session alone. A value that the control
/// does not take changes nothing but what is told.
pub proof fn controls_change_their_own_scope(
    s: Session,
    control: ControlSpec,
    value: ControlValue,
    after: Session,
    other: Seq<char>,
)
    requires
        control_applied(s, control, value, after),
        s.faces.targets.dom().contains(other),
    ensures
        !fits(s.catalog, control.id@, value) ==> after.controls == s.controls && after.faces
            == s.faces && after.place == s.place,
        fits(s.catalog, control.id@, value) && (control.scope is Settings || s.faces.selected is None)
            ==> after.faces == s.faces && after.controls == s.controls.insert(control.id@, value),
        fits(s.catalog, control.id@, value) && !(control.scope is Settings) && s.faces.selected
            == Some(other) ==> after.controls == s.controls && after.faces.targets[other].controls
            == s.faces.targets[other].controls.insert(control.id@, value),
        s.faces.selected != Some(other) ==> after.faces.targets[other] == s.faces.targets[other],
        fits(s.catalog, control.id@, value) ==> after.place.dirty,
        after.media == s.media && after.timeline == s.timeline,
{
}

/// Exactly those controls are listed that are in the scope, shown by the editor and found.
pub proof fn controls_are_listed_by_scope(s: Session, scope: ControlScope, n: nat, i: int)
    requires
        n <= s.catalog.len(),
    ensures
        listed_places(s, scope, n).contains(i) <==> 0 <= i < n && s.catalog[i].scope == scope
            && shown(scoped_values(s, scope), s.catalog[i].visibility, FrontendMode::Editor)
            && found_control(s.catalog[i], s.filters.parameters@),
    decreases n,
{
    if n > 0 {
        controls_are_listed_by_scope(s, scope, (n - 1) as nat, i);
        let before = listed_places(s, scope, (n - 1) as nat);
        let all = listed_places(s, scope, n);
        if before.contains(i) {
            let k = choose|k: int| 0 <= k < before.len() && before[k] == i;
            assert(all[k] == i);
        }
        if all.contains(i) && !before.contains(i) {
            let k = choose|k: int| 0 <= k < all.len() && all[k] == i;
            assert(k < before.len() ==> before[k] == i);
        }
        if all.len() > before.len() {
            assert(all[before.len() as int] == n - 1);
        }
    }
}

/// Every tab shows its own panel, and those of parameters their own scope.
pub proof fn tabs_show_their_panels(view: EditorView)
    ensures
        tab_selected(view, InspectorTab::Faces).active_panel is Faces,
        tab_selected(view, InspectorTab::Settings).active_panel is Settings,
        tab_selected(view, InspectorTab::Swapper).active_panel is Parameters,
        tab_selected(view, InspectorTab::Swapper).inspector_scope is Swapper,
        tab_selected(view, InspectorTab::Common).active_panel is Parameters,
        tab_selected(view, InspectorTab::Common).inspector_scope is Common,
{
}

/// The wheel goes through the choices one by one and stays among them; down and up again leads
/// back, except at the end.
pub proof fn wheel_goes_one_by_one(choices: Seq<String>, i: int)
    requires
        0 <= i < choices.len(),
    ensures
        i > 0 ==> wheel_choice(choices, i, Wheel::Up) == choices[i - 1],
        i == 0 ==> wheel_choice(choices, i, Wheel::Up) == choices[0],
        i + 1 < choices.len() ==> wheel_choice(choices, i, Wheel::Down) == choices[i + 1]
            && wheel_choice(choices, i + 1, Wheel::Up) == choices[i],
        i + 1 == choices.len() ==> wheel_choice(choices, i, Wheel::Down) == choices[i],
        wheel_choice(choices, i, Wheel::Still) == choices[i],
{
}

/// A file is a model of DeepFaceLive exactly where its name ends in `.dfm`, letter case aside, and
/// it goes by that name.
pub proof fn dfm_models_are_told_by_extension(
    directory: Seq<char>,
    stem: Seq<char>,
    ending: Seq<char>,
)
    requires
        stem.len() > 0,
        free_of(stem, '/'),
        ending.len() > 0,
        free_of(ending, '.'),
        free_of(ending, '/'),
    ensures
        spells(ending, "dfm"@) ==> model_name(directory + seq!['/'] + (stem + seq!['.'] + ending))
            == Some(stem + seq!['.'] + ending),
        !spells(ending, "dfm"@) ==> model_name(
            directory + seq!['/'] + (stem + seq!['.'] + ending),
        ) is None,
{
    let name = stem + seq!['.'] + ending;
    let front = directory + seq!['/'] + stem;
    let path = directory + seq!['/'] + name;
    assert(path =~= front + seq!['.'] + ending);
    assert(front.last() == stem.last());
    assert(stem[stem.len() - 1] != '/');
    extension_reads_back(front, ending);
    assert(name.len() >= 3);
    assert forall|i: int| 0 <= i < name.len() implies #[trigger] name[i] != '/' by {
        if i < stem.len() {
            assert(name[i] == stem[i]);
        } else if i > stem.len() {
            assert(name[i] == ending[i - stem.len() - 1]);
        }
    }
    file_name_reads_back(directory, name);
    reveal_strlit("dfm");
    lowering_leaves_the_letters(ending, "dfm"@);
}

/// Opening a document brings all of it into the session: media, faces, controls, preview and
/// timeline; nothing in it counts as changed.
pub proof fn opened_document_is_the_session(
    s: Session,
    path: Option<Seq<char>>,
    document: Document,
)
    ensures
        document_opened(s, path, document).media == document.media,
        document_opened(s, path, document).faces == document.faces,
        document_opened(s, path, document).controls == document.controls,
        document_opened(s, path, document).preview == document.preview,
        document_opened(s, path, document).timeline == document.timeline,
        document_opened(s, path, document).place.name == document.name,
        document_opened(s, path, document).place.output == document.output,
        document_opened(s, path, document).place.path == path,
        !document_opened(s, path, document).place.dirty,
        document_opened(s, path, document).catalog == s.catalog,
{
}

/// A recording begins only where nothing runs and the target is a video, and it is of that video.
pub proof fn only_videos_are_recorded(w: Working, after: Working, r: Option<String>)
    requires
        record_begun(w, after, r),
    ensures
        r matches Some(path) ==> {
            &&& w.phase is Idle || w.phase is Failed
            &&& after.phase is Building
            &&& w.session.media.target is Some
            &&& find_item(w.session.media.items, w.session.media.target->0) matches Some(item)
                && item.kind is Video && item.path@ == path@
        },
        r is None ==> after.phase == w.phase || after.phase is Idle,
        after.session.timeline == w.session.timeline && after.session.faces == w.session.faces,
{
}

/// Progress moves the playhead to the frame that was processed last, inside the video, and touches
/// neither controls nor faces nor media.
pub proof fn progress_moves_the_playhead<D: Fn(&Vec<Single>) -> Result<String, String>>(
    w: Working,
    processed: u64,
    total: Option<u64>,
    digest: D,
    after: Working,
)
    requires
        event_handled(w, EditorRuntimeEvent::Progress { processed, total }, digest, after),
        0 < processed <= w.session.timeline.total,
    ensures
        after.session.timeline.current == processed - 1,
        after.session.progress.frames == Some((processed, total)),
        after.session.controls == w.session.controls && after.session.faces == w.session.faces
            && after.session.media == w.session.media && after.phase == w.phase,
        after.session.timeline.markers == w.session.timeline.markers,
{
}

/// What the worker reports of its phase is the phase of the job; once it is idle, nothing plays.
/// A failure is told and ends the job.
pub proof fn reported_phases_are_taken<D: Fn(&Vec<Single>) -> Result<String, String>>(
    w: Working,
    phase: EditorJobPhase,
    error: String,
    digest: D,
    after: Working,
    failed: Working,
)
    requires
        event_handled(w, EditorRuntimeEvent::Phase(phase), digest, after),
        event_handled(w, EditorRuntimeEvent::Failed(error), digest, failed),
    ensures
        after.phase == phase && after.session.progress.phase == phase,
        phase is Idle ==> !after.session.timeline.playing,
        !(phase is Idle) ==> after.session.timeline == w.session.timeline,
        failed.phase is Failed && failed.session.status == Said::Text(error@),
        failed.session.faces == w.session.faces && failed.session.controls == w.session.controls,
{
}

/// A face that was found goes by the first twelve characters of its digest and its place among
/// those that were found, so no two of them share a name.
pub proof fn found_faces_have_names_of_their_own(
    a: Seq<char>,
    b: Seq<char>,
    i: nat,
    j: nat,
)
    requires
        a.len() >= 12,
        b.len() >= 12,
    ensures
        found_id(a, i).take(12) == a.take(12),
        found_id(a, i)[12] == '-',
        found_id(a, i).skip(13) == numeral(i),
        i != j ==> found_id(a, i) != found_id(b, j),
{
    reveal_strlit("-");
    assert(found_id(a, i).take(12) =~= a.take(12));
    assert(found_id(a, i).skip(13) =~= numeral(i));
    assert(found_id(b, j).skip(13) =~= numeral(j));
    if i != j && found_id(a, i) == found_id(b, j) {
        numerals_are_distinct(i, j);
    }
}

/// The medium that is the target.
pub open spec fn is_target(s: Session, path: Seq<char>, kind: MediaKind) -> bool {
    s.media.target is Some && (find_item(s.media.items, s.media.target->0) matches Some(item)
        && item.path@ == path && item.kind == kind)
}

/// Playback begins only where nothing runs and the target is a video. It is of that video, from the
/// playhead on, at the rate that the controls ask for, and with a request for every marker. Where
/// it does not begin, nothing plays.
pub proof fn playback_is_of_the_target<F, G, D, P, B>(
    w: Working,
    faces: FaceWorkspace,
    services: EngineServices<F, G, D, P, B>,
    after: Working,
    r: Option<PlaybackRequest>,
) where
    F: Fn(Vec<Single>) -> Single,
    G: Fn(Single, Single) -> Single,
    D: Fn(&Vec<Single>) -> Result<String, String>,
    P: Fn(&String) -> Result<String, String>,
    B: Fn(String, FaceSwapParams, ExecutionProvider, DetectorModel) -> Result<EngineSpec, String>,

    requires
        playback_begun(w, faces, services, after, r),
    ensures
        r matches Some(asked) ==> {
            &&& w.phase is Idle || w.phase is Failed
            &&& after.phase is Building
            &&& is_target(w.session, asked.path@, MediaKind::Video)
            &&& asked.start_frame == w.session.timeline.current
            &&& asked.markers@.dom() == w.session.timeline.markers.dom()
            &&& exists|config: EditorRuntimeConfig| #[trigger]
                settings_match(config, w.session.controls) && asked.fps == config.playback_fps
        },
        r is None ==> !after.session.timeline.playing,
        after.session.faces == w.session.faces && after.session.controls == w.session.controls
            && after.session.media == w.session.media,
{
    if r is Some {
        let item = target_item(w.session.media)->0;
        let read = choose|read: Result<EditorRuntimeConfig, ControlBridgeError>| #[trigger]
            settings_read(w.session.controls, read) && playback_made(
                w,
                faces,
                item.path@,
                read,
                services,
                after,
                r,
            );
        assert(read is Ok);
        assert(settings_match(read->Ok_0, w.session.controls));
    }
}

/// A recording that was begun is made of the medium it was begun with, into the file that was
/// chosen, with a request for every marker, and the folder of that file is kept.
pub proof fn recording_goes_where_it_was_asked<F, G, D, P, B>(
    w: Working,
    faces: FaceWorkspace,
    path: Seq<char>,
    output: Seq<char>,
    services: EngineServices<F, G, D, P, B>,
    after: Working,
    r: Option<RecordRequest>,
) where
    F: Fn(Vec<Single>) -> Single,
    G: Fn(Single, Single) -> Single,
    D: Fn(&Vec<Single>) -> Result<String, String>,
    P: Fn(&String) -> Result<String, String>,
    B: Fn(String, FaceSwapParams, ExecutionProvider, DetectorModel) -> Result<EngineSpec, String>,

    requires
        record_made(w, faces, path, output, services, after, r),
    ensures
        r matches Some(asked) ==> asked.path@ == path && asked.output@ == output
            && asked.markers@.dom() == w.session.timeline.markers.dom() && after.phase == w.phase,
        r is None ==> after.phase is Failed,
        after.session.place.output == parent_of(output),
        after.session.timeline == w.session.timeline,
{
}

/// A preview is of the target, at the playhead.
pub proof fn preview_is_of_the_target<F, G, D, P, B>(
    w: Working,
    faces: FaceWorkspace,
    services: EngineServices<F, G, D, P, B>,
    after: Working,
    r: Option<PreviewRequest>,
) where
    F: Fn(Vec<Single>) -> Single,
    G: Fn(Single, Single) -> Single,
    D: Fn(&Vec<Single>) -> Result<String, String>,
    P: Fn(&String) -> Result<String, String>,
    B: Fn(String, FaceSwapParams, ExecutionProvider, DetectorModel) -> Result<EngineSpec, String>,

    requires
        preview_begun(w, faces, services, after, r),
    ensures
        r matches Some(asked) ==> {
            &&& w.phase is Idle || w.phase is Failed
            &&& after.phase is Building
            &&& is_target(w.session, asked.path@, asked.kind)
            &&& asked.frame_index == w.session.timeline.current
        },
        after.session.timeline == w.session.timeline && after.session.faces == w.session.faces,
{
}

/// An analysis is of the target, at the playhead, and knows where the picture of every source is
/// that comes from a medium.
pub proof fn analysis_is_of_the_target(w: Working, after: Working, r: Option<AnalyzeRequest>)
    requires
        analysis_begun(w, after, r),
    ensures
        r matches Some(asked) ==> {
            &&& w.phase is Idle || w.phase is Failed
            &&& after.phase is Analyzing
            &&& Some(asked.target_media) == w.session.media.target || (find_item(
                w.session.media.items,
                w.session.media.target->0,
            )->0).id == asked.target_media
            &&& is_target(w.session, asked.target_path@, asked.target_kind)
            &&& asked.frame_index == w.session.timeline.current
            &&& settings_match(asked.runtime, w.session.controls)
        },
{
}

/// Every source that comes from a medium which is there is looked for in the file of that medium,
/// and nothing else is.
pub proof fn sources_are_looked_for_in_their_files(
    faces: Faces,
    media: Library,
    keys: Seq<Seq<char>>,
    id: Seq<char>,
    path: Seq<char>,
)
    ensures
        source_media(faces, media, keys).contains((id, path)) <==> exists|k: int|
            0 <= k < keys.len() && {
                let source = faces.sources[#[trigger] keys[k]];
                &&& source.id == id
                &&& source.media_id is Some
                &&& find_item(media.items, source.media_id->0) matches Some(item) && item.path@
                    == path
            },
    decreases keys.len(),
{
    if keys.len() > 0 {
        let front = keys.drop_last();
        let n = front.len() as int;
        sources_are_looked_for_in_their_files(faces, media, front, id, path);
        let before = source_media(faces, media, front);
        let all = source_media(faces, media, keys);
        let last = faces.sources[keys.last()];
        if before.contains((id, path)) {
            let i = choose|i: int| 0 <= i < before.len() && before[i] == (id, path);
            assert(all[i] == (id, path));
        }
        if all.contains((id, path)) && !before.contains((id, path)) {
            let i = choose|i: int| 0 <= i < all.len() && all[i] == (id, path);
            assert(i < before.len() ==> before[i] == (id, path));
            assert(faces.sources[keys[n]] == last);
        }
        if all.contains((id, path)) && before.contains((id, path)) {
            let k = choose|k: int|
                0 <= k < front.len() && {
                    let source = faces.sources[#[trigger] front[k]];
                    &&& source.id == id
                    &&& source.media_id is Some
                    &&& find_item(media.items, source.media_id->0) matches Some(item) && item.path@
                        == path
                };
            assert(keys[k] == front[k]);
        }
        if exists|k: int|
            0 <= k < keys.len() && {
                let source = faces.sources[#[trigger] keys[k]];
                &&& source.id == id
                &&& source.media_id is Some
                &&& find_item(media.items, source.media_id->0) matches Some(item) && item.path@
                    == path
            } {
            let k = choose|k: int|
                0 <= k < keys.len() && {
                    let source = faces.sources[#[trigger] keys[k]];
                    &&& source.id == id
                    &&& source.media_id is Some
                    &&& find_item(media.items, source.media_id->0) matches Some(item) && item.path@
                        == path
                };
            if k < n {
                assert(front[k] == keys[k]);
            } else {
                assert(all[before.len() as int] == (id, path));
            }
        }
    }
}

/// Another target that is chosen begins anew: no face is known of it yet, the playhead is at the
/// start, no marker is left, and it is analyzed where faces are swapped by themselves. A source
/// that is chosen leaves all of that.
pub proof fn chosen_target_begins_anew(s: Session, role: MediaRole, id: MediaId, after: Session)
    requires
        media_chosen(s, role, id, after),
        find_item(s.media.items, id) matches Some(item) && item.role == role,
        s.media.chosen(role) != Some(id),
        s.controls.dom().contains("AutoSwapToggle"@),
    ensures
        after.media.chosen(role) == Some(id),
        role is Target ==> {
            &&& after.faces.targets == Map::<Seq<char>, Target>::empty()
            &&& after.faces.sources == s.faces.sources && after.faces.merged == s.faces.merged
            &&& after.timeline.current == 0 && after.timeline.markers == Map::<u64, Marker>::empty()
            &&& !after.timeline.playing
            &&& s.controls["AutoSwapToggle"@] == ControlValue::Toggle(true)
                ==> after.intents.analysis
            &&& s.controls["AutoSwapToggle"@] == ControlValue::Toggle(false)
                ==> after.intents.analysis == s.intents.analysis
        },
        role is Source ==> after.faces == s.faces && after.timeline == s.timeline
            && after.intents == s.intents,
        after.controls == s.controls && after.place.dirty,
{
}

/// A control is found by a part of its label, of its section or of its id, and always where nothing
/// is looked for.
pub proof fn controls_are_found_by_their_texts(control: ControlSpec, query: Seq<char>)
    ensures
        stripped(query).len() == 0 ==> found_control(control, query),
        has_part(lower_case_of(control.label@), lower_case_of(stripped(query))) ==> found_control(
            control,
            query,
        ),
        has_part(lower_case_of(control.section@), lower_case_of(stripped(query)))
            ==> found_control(control, query),
        has_part(lower_case_of(control.id@), lower_case_of(stripped(query))) ==> found_control(
            control,
            query,
        ),
        found_control(control, query) && stripped(query).len() > 0 ==> has_part(
            lower_case_of(control.label@),
            lower_case_of(stripped(query)),
        ) || has_part(lower_case_of(control.section@), lower_case_of(stripped(query))) || has_part(
            lower_case_of(control.id@),
            lower_case_of(stripped(query)),
        ),
{
}

/// Sources are always listed by kind; target images and target videos have switches of their own,
/// and targets and sources have searches of their own.
pub proof fn kinds_have_their_own_switches(s: Session, item: MediaItem)
    ensures
        item.role is Source ==> kind_shown(s.view, item),
        item.role is Target && item.kind is Image ==> kind_shown(s.view, item)
            == s.view.show_target_images,
        item.role is Target && item.kind is Video ==> kind_shown(s.view, item)
            == s.view.show_target_videos,
        typed(s, MediaRole::Target) == s.filters.targets@,
        typed(s, MediaRole::Source) == s.filters.sources@,
{
}

/// Exactly those merged identities are listed whose name or id has what is looked for.
pub proof fn mergers_are_listed_by_filter(
    faces: Faces,
    keys: Seq<Seq<char>>,
    part: Seq<char>,
    id: Seq<char>,
)
    ensures
        found_merged(faces, keys, part).contains(id) <==> exists|k: int|
            0 <= k < keys.len() && faces.merged[#[trigger] keys[k]].id == id && (has_part(
                lower_case_of(faces.merged[keys[k]].name),
                part,
            ) || has_part(lower_case_of(id), part)),
    decreases keys.len(),
{
    if keys.len() > 0 {
        let front = keys.drop_last();
        let n = front.len() as int;
        mergers_are_listed_by_filter(faces, front, part, id);
        let before = found_merged(faces, front, part);
        let all = found_merged(faces, keys, part);
        if before.contains(id) {
            let i = choose|i: int| 0 <= i < before.len() && before[i] == id;
            assert(all[i] == id);
            let k = choose|k: int|
                0 <= k < front.len() && faces.merged[#[trigger] front[k]].id == id && (has_part(
                    lower_case_of(faces.merged[front[k]].name),
                    part,
                ) || has_part(lower_case_of(id), part));
            assert(keys[k] == front[k]);
        }
        if all.contains(id) && !before.contains(id) {
            let i = choose|i: int| 0 <= i < all.len() && all[i] == id;
            assert(i < before.len() ==> before[i] == id);
            assert(faces.merged[keys[n]].id == id);
        }
        if exists|k: int|
            0 <= k < keys.len() && faces.merged[#[trigger] keys[k]].id == id && (has_part(
                lower_case_of(faces.merged[keys[k]].name),
                part,
            ) || has_part(lower_case_of(id), part)) {
            let k = choose|k: int|
                0 <= k < keys.len() && faces.merged[#[trigger] keys[k]].id == id && (has_part(
                    lower_case_of(faces.merged[keys[k]].name),
                    part,
                ) || has_part(lower_case_of(id), part));
            if k < n {
                assert(front[k] == keys[k]);
            } else {
                assert(all[before.len() as int] == id);
            }
        }
    }
}

proof fn kept_are_those(ids: Seq<Seq<char>>, set: Set<Seq<char>>, id: Seq<char>)
    ensures
        kept(ids, set).contains(id) <==> ids.contains(id) && set.contains(id),
    decreases ids.len(),
{
    if ids.len() > 0 {
        let front = ids.drop_last();
        kept_are_those(front, set, id);
        let before = kept(front, set);
        let all = kept(ids, set);
        if before.contains(id) {
            let i = choose|i: int| 0 <= i < before.len() && before[i] == id;
            assert(all[i] == id);
        }
        if all.contains(id) && !before.contains(id) {
            let i = choose|i: int| 0 <= i < all.len() && all[i] == id;
            assert(i < before.len() ==> before[i] == id);
            assert(ids[ids.len() - 1] == id);
        }
        if front.contains(id) {
            let i = choose|i: int| 0 <= i < front.len() && front[i] == id;
            assert(ids[i] == id);
        }
        if ids.contains(id) && !front.contains(id) {
            let i = choose|i: int| 0 <= i < ids.len() && ids[i] == id;
            assert(i < front.len() ==> front[i] == id);
            if set.contains(id) {
                assert(all[before.len() as int] == id);
            }
        }
    }
}

/// What is kept for the faces of the next target is what is assigned to the face that is worked on,
/// or to all of them where they are swapped all at once.
pub proof fn routes_are_kept_for_the_next_target(faces: Faces, id: Seq<char>)
    requires
        faces.intact(),
        faces.sources.dom().finite(),
        faces.merged.dom().finite(),
    ensures
        captured(faces).sources.contains(id) <==> faces.sources.dom().contains(id) && (
        if faces.swap_all {
            faces.swap_sources.contains(id)
        } else {
            faces.selected is Some && faces.targets[faces.selected->0].sources.contains(id)
                || faces.selected is None && faces.swap_sources.contains(id)
        }),
        captured(faces).merged.contains(id) <==> faces.merged.dom().contains(id) && (
        if faces.swap_all {
            faces.swap_merged.contains(id)
        } else {
            faces.selected is Some && faces.targets[faces.selected->0].merged.contains(id)
                || faces.selected is None && faces.swap_merged.contains(id)
        }),
{
    let own = listed(faces.sources.dom());
    let blended = listed(faces.merged.dom());
    every_set_is_listed(faces.sources.dom());
    every_set_is_listed(faces.merged.dom());
    assert(faces.source_ids() =~= own) by {
        assert forall|k: int| 0 <= k < own.len() implies #[trigger] faces.source_ids()[k]
            == own[k] by {
            assert(own.contains(own[k]));
            assert(faces.sources.dom().contains(own[k]));
        }
    }
    assert(faces.merged_ids() =~= blended) by {
        assert forall|k: int| 0 <= k < blended.len() implies #[trigger] faces.merged_ids()[k]
            == blended[k] by {
            assert(blended.contains(blended[k]));
            assert(faces.merged.dom().contains(blended[k]));
        }
    }
    kept_are_those(own, faces.assigned_sources(faces.active()), id);
    kept_are_those(blended, faces.assigned_merged(faces.active()), id);
    assert(captured(faces).sources.contains(id) <==> faces.routed_sources().contains(id));
    assert(captured(faces).merged.contains(id) <==> faces.routed_merged().contains(id));
}

} // verus!
