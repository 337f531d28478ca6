//! What is done to a face workspace leaves it intact: ids and references go on to agree.

use vstd::prelude::*;

use crate::controls::ControlSpec;
use crate::embeddings::EmbeddingMergeMethod;
use crate::faces::{merged_assigned, pending_added, source_assigned, store_added, target_added};
use crate::faces::{merged_created, no_faces, target_selected, Crop, FaceWorkspaceError, Faces};
use crate::media::MediaId;
use crate::number::Single;
use crate::ordered::{every_set_is_listed, is_least, listed};
use crate::text::text_before;

verus! {

/// An empty workspace is intact.
pub proof fn nothing_is_intact()
    ensures
        no_faces().intact(),
{
}

/// Selecting a target keeps a workspace intact; it is selected, and faces are no longer swapped all
/// at once.
pub proof fn selecting_keeps_it_intact(
    before: Faces,
    after: Faces,
    id: Seq<char>,
    r: Result<(), FaceWorkspaceError>,
)
    requires
        before.intact(),
        target_selected(before, after, id, r),
    ensures
        after.intact(),
        r is Ok <==> before.targets.dom().contains(id),
        r is Ok ==> after.selected == Some(id) && !after.swap_all,
        after.targets == before.targets && after.sources == before.sources && after.merged
            == before.merged,
{
}

/// Assigning a source, or taking it back, keeps a workspace intact and concerns that source and
/// that target alone.
pub proof fn assigning_a_source_keeps_it_intact(
    before: Faces,
    after: Faces,
    target: Option<Seq<char>>,
    source: Seq<char>,
    assigned: bool,
    r: Result<(), FaceWorkspaceError>,
)
    requires
        before.intact(),
        source_assigned(before, after, target, source, assigned, r),
    ensures
        after.intact(),
        r is Ok ==> after.assigned_sources(target).contains(source) == assigned,
        r is Err ==> after == before,
        forall|other: Seq<char>|
            other != source ==> (#[trigger] after.assigned_sources(target).contains(other)
                <==> before.assigned_sources(target).contains(other)),
        after.assigned_merged(target) == before.assigned_merged(target),
        forall|other: Seq<char>|
            #![trigger after.targets[other]]
            Some(other) != target && before.targets.dom().contains(other) ==> after.targets[other]
                == before.targets[other],
{
    if r is Ok {
        assert forall|key: Seq<char>| #[trigger] after.targets.dom().contains(
            key,
        ) implies after.targets[key].sources.subset_of(after.sources.dom())
            && after.targets[key].merged.subset_of(after.merged.dom()) && after.targets[key].id
            == key by {
            assert(before.targets.dom().contains(key));
        }
    }
}

/// Assigning a merged identity, or taking it back, keeps a workspace intact and concerns that
/// identity and that target alone.
pub proof fn assigning_a_merger_keeps_it_intact(
    before: Faces,
    after: Faces,
    target: Option<Seq<char>>,
    merged: Seq<char>,
    assigned: bool,
    r: Result<(), FaceWorkspaceError>,
)
    requires
        before.intact(),
        merged_assigned(before, after, target, merged, assigned, r),
    ensures
        after.intact(),
        r is Ok ==> after.assigned_merged(target).contains(merged) == assigned,
        r is Err ==> after == before,
        forall|other: Seq<char>|
            other != merged ==> (#[trigger] after.assigned_merged(target).contains(other)
                <==> before.assigned_merged(target).contains(other)),
        after.assigned_sources(target) == before.assigned_sources(target),
{
    if r is Ok {
        assert forall|key: Seq<char>| #[trigger] after.targets.dom().contains(
            key,
        ) implies after.targets[key].sources.subset_of(after.sources.dom())
            && after.targets[key].merged.subset_of(after.merged.dom()) && after.targets[key].id
            == key by {
            assert(before.targets.dom().contains(key));
        }
    }
}

/// A target that is added keeps a workspace intact. Nothing is assigned to it, and it is selected
/// where no other is and faces are not swapped all at once.
pub proof fn adding_a_target_keeps_it_intact(
    before: Faces,
    after: Faces,
    id: Seq<char>,
    media_id: Option<MediaId>,
    embeddings: Map<Seq<char>, Seq<Single>>,
    crop: Option<Crop>,
    catalog: Seq<ControlSpec>,
    r: Result<(), FaceWorkspaceError>,
)
    requires
        before.intact(),
        target_added(before, after, id, media_id, embeddings, crop, catalog, r),
    ensures
        after.intact(),
        r is Ok ==> after.targets.dom() == before.targets.dom().insert(id) && !after.assigns(
            Some(id),
        ) && after.targets[id].embeddings == embeddings && after.targets[id].media_id == media_id,
        r is Ok && before.selected is None && !before.swap_all ==> after.selected == Some(id),
        before.selected is Some || before.swap_all || r is Err ==> after.selected
            == before.selected,
{
    if r is Ok {
        assert forall|key: Seq<char>| #[trigger] after.targets.dom().contains(
            key,
        ) implies after.targets[key].sources.subset_of(after.sources.dom())
            && after.targets[key].merged.subset_of(after.merged.dom()) && after.targets[key].id
            == key by {
            assert(key == id || before.targets.dom().contains(key));
        }
    }
}

/// A source that is added before its face is found keeps a workspace intact, and no id is given
/// twice.
pub proof fn adding_a_source_keeps_it_intact(
    before: Faces,
    after: Faces,
    id: Seq<char>,
    name: Seq<char>,
    media_id: Option<MediaId>,
    r: Result<(), FaceWorkspaceError>,
)
    requires
        before.intact(),
        pending_added(before, after, id, name, media_id, r),
    ensures
        after.intact(),
        r is Ok <==> !before.sources.dom().contains(id) && !before.merged.dom().contains(id),
        r is Ok ==> after.sources.dom() == before.sources.dom().insert(id),
        after.targets == before.targets && after.merged == before.merged,
{
}

/// A merged identity that is added keeps a workspace intact, and no id is given twice.
pub proof fn adding_a_merger_keeps_it_intact(
    before: Faces,
    after: Faces,
    id: Seq<char>,
    name: Seq<char>,
    embeddings: Map<Seq<char>, Seq<Single>>,
    r: Result<(), FaceWorkspaceError>,
)
    requires
        before.intact(),
        store_added(before, after, id, name, embeddings, r),
    ensures
        after.intact(),
        r is Ok ==> !before.sources.dom().contains(id) && !before.merged.dom().contains(id)
            && after.merged.dom() == before.merged.dom().insert(id) && after.merged[id].embeddings
            == embeddings,
        after.targets == before.targets && after.sources == before.sources,
{
}

/// A merger of sources keeps a workspace intact: it knows the sources that it was made from, which
/// all exist.
pub proof fn merging_keeps_it_intact<
    F: Fn(Vec<Single>) -> Single,
    G: Fn(Single, Single) -> Single,
>(
    before: Faces,
    after: Faces,
    id: Seq<char>,
    name: Seq<char>,
    source_ids: Seq<Seq<char>>,
    method: EmbeddingMergeMethod,
    mean: F,
    midpoint: G,
    r: Result<(), FaceWorkspaceError>,
)
    requires
        before.intact(),
        merged_created(before, after, id, name, source_ids, method, mean, midpoint, r),
    ensures
        after.intact(),
        r is Ok ==> after.merged.dom() == before.merged.dom().insert(id)
            && after.merged[id].source_ids == source_ids && source_ids.len() > 0,
        r is Err ==> after == before,
{
    if r is Ok {
        assert forall|source: Seq<char>| source_ids.contains(
            source,
        ) implies before.sources.dom().contains(source) by {
            let i = choose|i: int| 0 <= i < source_ids.len() && source_ids[i] == source;
            if !before.sources.dom().contains(source) {
                let first = first_missing(before, source_ids, i);
                assert(crate::faces::first_unknown(before, source_ids, first));
            }
        }
    }
}

proof fn first_missing(faces: Faces, ids: Seq<Seq<char>>, i: int) -> (first: int)
    requires
        0 <= i < ids.len(),
        !faces.sources.dom().contains(ids[i]),
    ensures
        crate::faces::first_unknown(faces, ids, first),
    decreases i,
{
    if exists|j: int| 0 <= j < i && !faces.sources.dom().contains(#[trigger] ids[j]) {
        let j = choose|j: int| 0 <= j < i && !faces.sources.dom().contains(#[trigger] ids[j]);
        first_missing(faces, ids, j)
    } else {
        i
    }
}

/// Removing a target keeps a workspace intact: what is selected is still there.
pub proof fn removing_a_target_keeps_it_intact(before: Faces, id: Seq<char>)
    requires
        before.intact(),
        before.targets.dom().finite(),
    ensures
        before.without_target(id).intact(),
        !before.without_target(id).targets.dom().contains(id),
        before.selected != Some(id) ==> before.without_target(id).selected == before.selected,
        before.selected == Some(id) && before.targets.dom() != Set::<Seq<char>>::empty().insert(id)
            ==> before.without_target(id).selected is Some,
{
    let after = before.without_target(id);
    let rest = after.targets.dom();
    every_set_is_listed(rest);
    if before.selected == Some(id) {
        if listed(rest).len() > 0 {
            assert(listed(rest).contains(listed(rest)[0]));
            let first = listed(rest)[0];
            assert(rest.contains(first));
            assert(is_least(rest, first)) by {
                assert forall|key: Seq<char>| rest.contains(key) && key != first implies text_before(
                    first,
                    key,
                ) by {
                    assert(listed(rest).contains(key));
                    let i = choose|i: int| 0 <= i < listed(rest).len() && listed(rest)[i] == key;
                    assert(text_before(listed(rest)[0], listed(rest)[i]));
                }
            }
        } else {
            assert forall|key: Seq<char>| !rest.contains(key) by {
                if rest.contains(key) {
                    assert(listed(rest).contains(key));
                }
            }
            assert(before.targets.dom() =~= Set::<Seq<char>>::empty().insert(id));
        }
    }
    assert forall|key: Seq<char>| #[trigger] after.targets.dom().contains(
        key,
    ) implies after.targets[key] == before.targets[key] && before.targets.dom().contains(key) by {}
}

/// Removing merged identities keeps a workspace intact: no target refers to them any longer.
pub proof fn removing_mergers_keeps_it_intact(before: Faces, id: Seq<char>)
    requires
        before.intact(),
    ensures
        before.without_merged(id).intact(),
        before.without_all_merged().intact(),
        !before.without_merged(id).merged.dom().contains(id),
        forall|key: Seq<char>| #[trigger]
            before.targets.dom().contains(key) ==> before.without_merged(id).targets[key].merged
                == before.targets[key].merged.remove(id)
                && before.without_merged(id).targets[key].sources == before.targets[key].sources,
{
    let after = before.without_merged(id);
    let bare = before.without_all_merged();
    assert forall|key: Seq<char>| #[trigger] after.targets.dom().contains(
        key,
    ) implies after.targets[key].merged.subset_of(after.merged.dom()) && after.targets[key].id
        == key && after.targets[key].sources.subset_of(after.sources.dom()) by {
        assert(before.targets.dom().contains(key));
    }
    assert forall|key: Seq<char>| #[trigger] bare.targets.dom().contains(
        key,
    ) implies bare.targets[key].merged.subset_of(bare.merged.dom()) && bare.targets[key].id == key
        && bare.targets[key].sources.subset_of(bare.sources.dom()) by {
        assert(before.targets.dom().contains(key));
    }
}

/// Removing a source keeps a workspace intact where no merger made from it is assigned to all
/// faces: what was merged from it goes with it.
pub proof fn removing_a_source_keeps_it_intact(before: Faces, id: Seq<char>)
    requires
        before.intact(),
        before.unused_by_swap_all(id),
    ensures
        before.without_source(id).intact(),
        !before.without_source(id).sources.dom().contains(id),
        forall|key: Seq<char>| #[trigger]
            before.without_source(id).merged.dom().contains(key) <==> before.merged.dom().contains(
                key,
            ) && !before.merged[key].source_ids.contains(id),
{
    let after = before.without_source(id);
    assert forall|key: Seq<char>| #[trigger] after.targets.dom().contains(
        key,
    ) implies after.targets[key].merged.subset_of(after.merged.dom()) && after.targets[key].id
        == key && after.targets[key].sources.subset_of(after.sources.dom()) by {
        assert(before.targets.dom().contains(key));
    }
    assert forall|key: Seq<char>, source: Seq<char>|
        #![trigger after.merged[key].source_ids.contains(source)]
        after.merged.dom().contains(key) && after.merged[key].source_ids.contains(
            source,
        ) implies after.sources.dom().contains(source) by {
        assert(before.merged[key].source_ids.contains(source));
    }
}

} // verus!
