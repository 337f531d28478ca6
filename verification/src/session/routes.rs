//! Which identity is rendered into which face, and the embeddings that are kept.

use vstd::prelude::*;

use crate::controls::ControlValue;
use crate::embeddings::embedded;
use crate::embeddings::{EmbeddingMergeMethod, SavedEmbedding};
use crate::faces::{
    merged_assigned, merged_created, source_assigned, store_added, target_selected, texts, Faces,
};
use crate::faces::{copy_store, set_membership, FaceWorkspaceError};
use crate::number::Single;
use crate::ordered::{entry_is_unique, keys_are_listed, keys_of, listed, map_of, map_size};
use crate::ordered::{ascending, TextMap};
use crate::controls::ControlState;
use crate::search::{has_part, lower_case_of, stripped, wanted};
use crate::search::{is_found, query_of, strip};
use crate::session::state::{Draft, Place, Said, Session};
use crate::session::state::{ExtraGuiState, MergeDraft, Notice};
use crate::text::{numeral, numerals_are_distinct};
use crate::text::{decimal, join2, same_text};
use crate::trace::{run_begins, run_grows, runs};

verus! {

/// How embeddings are merged: by their median where that is chosen, else by their mean.
pub open spec fn method_of(values: Map<Seq<char>, ControlValue>) -> EmbeddingMergeMethod {
    let id = "EmbMergeMethodSelection"@;
    if values.dom().contains(id) && (values[id] matches ControlValue::Choice(choice) && choice@
        == "Median"@) {
        EmbeddingMergeMethod::Median
    } else {
        EmbeddingMergeMethod::Mean
    }
}

/// How embeddings are merged.
pub fn merge_method(controls: &ControlState) -> (r: EmbeddingMergeMethod)
    ensures
        r == method_of(controls@),
{
    match controls.get("EmbMergeMethodSelection") {
        Some(ControlValue::Choice(choice)) => if same_text(choice.as_str(), "Median") {
            EmbeddingMergeMethod::Median
        } else {
            EmbeddingMergeMethod::Mean
        },
        _ => EmbeddingMergeMethod::Mean,
    }
}

/// What a change of the faces does to the session: it is told of where it was refused.
pub open spec fn faces_changed(
    s: Session,
    faces: Faces,
    r: Result<(), FaceWorkspaceError>,
) -> Session {
    match r {
        Ok(()) => s.with_faces(faces).changed(),
        Err(e) => Session { faces, status: Said::Faces(e), ..s },
    }
}

/// The identity that a merge gets as the `k`-th.
pub open spec fn merged_name(k: nat) -> Seq<char> {
    "merged-"@ + numeral(k)
}

/// `k` is the first number behind the count of merged identities whose name is free.
pub open spec fn is_next_merged(faces: Faces, k: nat) -> bool {
    &&& k > faces.merged.dom().len()
    &&& !faces.merged.dom().contains(merged_name(k))
    &&& forall|j: nat|
        faces.merged.dom().len() < j < k ==> faces.merged.dom().contains(#[trigger] merged_name(j))
}

/// The name that a merge gets: what was typed, or its id.
pub open spec fn draft_name(s: Session, k: nat) -> Seq<char> {
    if stripped(s.merge.name).len() == 0 {
        merged_name(k)
    } else {
        stripped(s.merge.name)
    }
}

/// The outcome of merging the selected sources.
pub open spec fn merge_made<F: Fn(Vec<Single>) -> Single, G: Fn(Single, Single) -> Single>(
    s: Session,
    mean: F,
    midpoint: G,
    after: Session,
) -> bool {
    exists|k: nat, r: Result<(), FaceWorkspaceError>|
        {
            &&& is_next_merged(s.faces, k)
            &&& #[trigger] merged_created(
                s.faces,
                after.faces,
                merged_name(k),
                draft_name(s, k),
                listed(s.merge.selection),
                method_of(s.controls),
                mean,
                midpoint,
                r,
            )
            &&& match r {
                Ok(()) => after == (Session {
                    faces: after.faces,
                    merge: Draft { selection: Set::empty(), name: Seq::empty() },
                    ..s
                }).saying("Created reusable embedding"@).changed(),
                Err(e) => after == (Session { faces: after.faces, status: Said::Faces(e), ..s }),
            }
        }
}

/// The names of merges are distinct.
proof fn merged_names_are_distinct(a: nat, b: nat)
    requires
        merged_name(a) == merged_name(b),
    ensures
        a == b,
{
    let n = "merged-"@.len() as int;
    assert(merged_name(a).skip(n) =~= numeral(a));
    assert(merged_name(b).skip(n) =~= numeral(b));
    if a != b {
        numerals_are_distinct(a, b);
    }
}

/// The names from `from` up to `to`.
spec fn merged_names(from: nat, to: nat) -> Set<Seq<char>>
    decreases to,
{
    if to <= from {
        Set::empty()
    } else {
        merged_names(from, (to - 1) as nat).insert(merged_name((to - 1) as nat))
    }
}

proof fn merged_names_are_counted(from: nat, to: nat)
    requires
        from <= to,
    ensures
        merged_names(from, to).finite(),
        merged_names(from, to).len() == to - from,
        forall|name: Seq<char>| #[trigger]
            merged_names(from, to).contains(name) ==> exists|j: nat|
                from <= j < to && name == #[trigger] merged_name(j),
    decreases to,
{
    if to > from {
        let m = (to - 1) as nat;
        merged_names_are_counted(from, m);
        let before = merged_names(from, m);
        if before.contains(merged_name(m)) {
            let j = choose|j: nat| from <= j < m && merged_name(m) == #[trigger] merged_name(j);
            merged_names_are_distinct(m, j);
        }
        assert forall|name: Seq<char>| #[trigger] merged_names(from, to).contains(
            name,
        ) implies exists|j: nat| from <= j < to && name == #[trigger] merged_name(j) by {
            if before.contains(name) {
                let j = choose|j: nat| from <= j < m && name == #[trigger] merged_name(j);
                assert(name == merged_name(j));
            } else {
                assert(name == merged_name(m));
            }
        }
    }
}

/// A free name comes after at most as many as there are identities.
proof fn a_name_is_free(faces: Faces, k: nat)
    requires
        faces.merged.dom().finite(),
        k > faces.merged.dom().len(),
        forall|j: nat|
            faces.merged.dom().len() < j < k ==> faces.merged.dom().contains(
                #[trigger] merged_name(j),
            ),
    ensures
        k <= 2 * faces.merged.dom().len() + 1,
{
    let count = faces.merged.dom().len();
    merged_names_are_counted((count + 1) as nat, k);
    let tried = merged_names((count + 1) as nat, k);
    assert(tried.subset_of(faces.merged.dom())) by {
        assert forall|name: Seq<char>| #[trigger] tried.contains(name) implies faces.merged.dom().contains(
            name,
        ) by {
            let j = choose|j: nat| count + 1 <= j < k && name == #[trigger] merged_name(j);
            assert(faces.merged.dom().contains(merged_name(j)));
        }
    }
    vstd::set_lib::lemma_len_subset(tried, faces.merged.dom());
}

/// What the panel says of where assignments go.
pub open spec fn route_text(faces: Faces) -> Seq<char> {
    if faces.swap_all {
        "Assignments below are the unscoped, final engine route"@
    } else if faces.selected is Some {
        "Assignments and parameters belong only to the selected face"@
    } else {
        "Load or import detected target faces"@
    }
}

/// The merged identities that are listed: found by their name or their id.
pub open spec fn found_merged(faces: Faces, keys: Seq<Seq<char>>, part: Seq<char>) -> Seq<Seq<char>>
    decreases keys.len(),
{
    if keys.len() == 0 {
        Seq::empty()
    } else {
        let before = found_merged(faces, keys.drop_last(), part);
        let last = faces.merged[keys.last()];
        if has_part(lower_case_of(last.name), part) || has_part(lower_case_of(last.id), part) {
            before.push(last.id)
        } else {
            before
        }
    }
}

/// What loading embeddings changes.
#[verifier::ext_equal]
pub ghost struct Loading {
    pub faces: Faces,
    pub count: nat,
}

/// The id of the `i`-th embedding that was loaded.
pub open spec fn loaded_name(i: nat) -> Seq<char> {
    "loaded-"@ + numeral(i)
}

/// One embedding was taken.
pub open spec fn embedding_step() -> spec_fn(
    Loading,
    SavedEmbedding,
    Result<Loading, FaceWorkspaceError>,
) -> bool {
    |before: Loading, item: SavedEmbedding, out: Result<Loading, FaceWorkspaceError>|
        embedding_taken(before, item, out)
}

/// The outcome of taking one embedding.
pub open spec fn embedding_taken(
    before: Loading,
    item: SavedEmbedding,
    out: Result<Loading, FaceWorkspaceError>,
) -> bool {
    match out {
        Ok(after) => after.count == before.count + 1 && store_added(
            before.faces,
            after.faces,
            loaded_name(before.count),
            item.name@,
            embedded(item.embedding_store),
            Ok(()),
        ),
        Err(e) => store_added(
            before.faces,
            before.faces,
            loaded_name(before.count),
            item.name@,
            embedded(item.embedding_store),
            Err(e),
        ),
    }
}

/// The outcome of loading embeddings in place of those that are kept. The first that is refused
/// ends it.
pub open spec fn embeddings_loaded(
    s: Session,
    path: Seq<char>,
    items: Seq<SavedEmbedding>,
    after: Session,
) -> bool {
    exists|n: int, end: Loading|
        {
            &&& 0 <= n <= items.len()
            &&& #[trigger] runs(
                embedding_step(),
                Loading { faces: s.faces.without_all_merged(), count: 0 },
                items.take(n),
                Ok::<Loading, FaceWorkspaceError>(end),
            )
            &&& if n == items.len() {
                after == (Session {
                    faces: end.faces,
                    place: Place { embeddings: Some(path), ..s.place },
                    ..s
                }).saying("Loaded embeddings from "@ + path).changed()
            } else {
                exists|e: FaceWorkspaceError| #[trigger]
                    embedding_taken(end, items[n], Err(e)) && after == (Session {
                        faces: end.faces,
                        status: Said::Faces(e),
                        ..s
                    })
            }
        }
}

impl ExtraGuiState {
    /// Whether all faces are swapped, from now on.
    pub fn set_swap_all(&mut self, enabled: bool)
        ensures
            final(self)@ == old(self)@.with_faces(
                Faces {
                    swap_all: enabled,
                    selected: if enabled {
                        None
                    } else {
                        old(self)@.faces.selected
                    },
                    ..old(self)@.faces
                },
            ).changed(),
    {
        self.faces.set_swap_all(enabled);
        self.touch();
    }

    /// What the panel says of where assignments go.
    pub fn route_hint(&self) -> (r: &'static str)
        ensures
            r@ == route_text(self@.faces),
    {
        if self.faces.swap_all() {
            "Assignments below are the unscoped, final engine route"
        } else if self.faces.selected_target().is_some() {
            "Assignments and parameters belong only to the selected face"
        } else {
            "Load or import detected target faces"
        }
    }

    /// Removes a target face.
    pub fn remove_target(&mut self, id: &str)
        ensures
            final(self)@ == old(self)@.with_faces(old(self)@.faces.without_target(id@)).changed(),
    {
        let _ = self.faces.remove_target(id);
        self.touch();
    }

    /// Selects a target face.
    pub fn select_target(&mut self, id: &str)
        ensures
            exists|r: Result<(), FaceWorkspaceError>| #[trigger]
                target_selected(old(self)@.faces, final(self)@.faces, id@, r) && final(self)@
                    == faces_changed(old(self)@, final(self)@.faces, r),
    {
        let ghost start = self@;
        let outcome = self.faces.select_target(id);
        proof {
            assert(target_selected(start.faces, self@.faces, id@, outcome));
        }
        match outcome {
            Ok(()) => self.touch(),
            Err(e) => self.status = Notice::Faces(e),
        }
    }

    /// Assigns a source to the active target, or takes the assignment back.
    pub fn assign_source(&mut self, id: &str, assigned: bool)
        ensures
            exists|r: Result<(), FaceWorkspaceError>| #[trigger]
                source_assigned(
                    old(self)@.faces,
                    final(self)@.faces,
                    old(self)@.faces.active(),
                    id@,
                    assigned,
                    r,
                ) && final(self)@ == faces_changed(old(self)@, final(self)@.faces, r),
    {
        let ghost start = self@;
        let target: Option<String> = match self.active_target() {
            Some(target) => Some(target.to_owned()),
            None => None,
        };
        let outcome = match &target {
            Some(target) => self.faces.set_source_assignment(Some(target.as_str()), id, assigned),
            None => self.faces.set_source_assignment(None, id, assigned),
        };
        proof {
            assert(source_assigned(
                start.faces,
                self@.faces,
                start.faces.active(),
                id@,
                assigned,
                outcome,
            ));
        }
        match outcome {
            Ok(()) => self.touch(),
            Err(e) => self.status = Notice::Faces(e),
        }
    }

    /// Assigns a merged identity to the active target, or takes the assignment back.
    pub fn assign_merged(&mut self, id: &str, assigned: bool)
        ensures
            exists|r: Result<(), FaceWorkspaceError>| #[trigger]
                merged_assigned(
                    old(self)@.faces,
                    final(self)@.faces,
                    old(self)@.faces.active(),
                    id@,
                    assigned,
                    r,
                ) && final(self)@ == faces_changed(old(self)@, final(self)@.faces, r),
    {
        let ghost start = self@;
        let target: Option<String> = match self.active_target() {
            Some(target) => Some(target.to_owned()),
            None => None,
        };
        let outcome = match &target {
            Some(target) => self.faces.set_merged_assignment(Some(target.as_str()), id, assigned),
            None => self.faces.set_merged_assignment(None, id, assigned),
        };
        proof {
            assert(merged_assigned(
                start.faces,
                self@.faces,
                start.faces.active(),
                id@,
                assigned,
                outcome,
            ));
        }
        match outcome {
            Ok(()) => self.touch(),
            Err(e) => self.status = Notice::Faces(e),
        }
    }

    /// Removes a source with the medium it comes from.
    pub fn remove_source_identity(&mut self, id: &str)
        ensures
            final(self)@ == ({
                let s = old(self)@;
                let there = s.faces.sources.dom().contains(id@);
                (Session {
                    faces: if there {
                        s.faces.without_source(id@)
                    } else {
                        s.faces
                    },
                    media: if there && s.faces.sources[id@].media_id is Some {
                        s.media.without(s.faces.sources[id@].media_id->0)
                    } else {
                        s.media
                    },
                    merge: Draft { selection: s.merge.selection.remove(id@), ..s.merge },
                    ..s
                }).changed()
            }),
    {
        let media_id = match self.faces.source(id) {
            Some(source) => source.media_id,
            None => None,
        };
        let _ = self.faces.remove_source(id);
        if let Some(medium) = media_id {
            let _ = self.media.remove(medium);
        }
        let ghost before = self.merge.selection@;
        let _ = self.merge.selection.remove(id);
        proof {
            assert(self.merge.selection@.dom() =~= before.dom().remove(id@));
        }
        self.touch();
    }

    /// Takes a source into the next merge, or out of it.
    pub fn set_merge_selection(&mut self, id: &str, selected: bool)
        ensures
            final(self)@ == (Session {
                merge: Draft {
                    selection: if selected {
                        old(self)@.merge.selection.insert(id@)
                    } else {
                        old(self)@.merge.selection.remove(id@)
                    },
                    ..old(self)@.merge
                },
                ..old(self)@
            }),
    {
        set_membership(&mut self.merge.selection, id, selected);
    }

    /// Removes all embeddings that are kept.
    pub fn clear_embeddings(&mut self)
        ensures
            final(self)@ == old(self)@.with_faces(
                old(self)@.faces.without_all_merged(),
            ).changed(),
    {
        let _ = self.faces.clear_merged();
        self.touch();
    }

    /// Removes an embedding that is kept.
    pub fn remove_embedding(&mut self, id: &str)
        ensures
            final(self)@ == old(self)@.with_faces(
                if old(self)@.faces.merged.dom().contains(id@) {
                    old(self)@.faces.without_merged(id@)
                } else {
                    old(self)@.faces
                },
            ).changed(),
    {
        let _ = self.faces.remove_merged(id);
        self.touch();
    }

    /// The number of the next merge.
    fn next_merge(&self) -> (r: u64)
        requires
            self@.faces.merged.dom().len() <= i64::MAX,
        ensures
            is_next_merged(self@.faces, r as nat),
    {
        let merged = self.faces.merged_identities();
        let ghost faces = self.faces@;
        let ghost count = faces.merged.dom().len();
        proof {
            let entries = self.faces.merged_entries();
            self.faces.entries_are_the_view();
            map_size(entries);
            assert(faces.merged.dom() =~= map_of(entries).dom());
        }
        let mut k: u64 = merged.len() as u64 + 1;
        let mut free = false;
        while !free
            invariant
                faces == self.faces@,
                faces.merged.dom().finite(),
                count == faces.merged.dom().len(),
                count <= i64::MAX,
                k > count,
                forall|j: nat|
                    count < j < k ==> faces.merged.dom().contains(#[trigger] merged_name(j)),
                free ==> !faces.merged.dom().contains(merged_name(k as nat)),
            decreases
                2 * count + 1 - k,
                if free {
                    0int
                } else {
                    1int
                },
        {
            proof {
                a_name_is_free(faces, k as nat);
            }
            let number = decimal(k);
            let name = join2("merged-", number.as_str());
            if self.faces.merged(name.as_str()).is_none() {
                free = true;
            } else {
                proof {
                    assert forall|j: nat| count < j < k + 1 implies faces.merged.dom().contains(
                        #[trigger] merged_name(j),
                    ) by {}
                    a_name_is_free(faces, (k + 1) as nat);
                }
                k = k + 1;
            }
        }
        k
    }

    /// Merges the selected sources into an identity.
    pub fn merge_selected<F: Fn(Vec<Single>) -> Single, G: Fn(Single, Single) -> Single>(
        &mut self,
        mean: &F,
        midpoint: &G,
    )
        requires
            old(self)@.faces.merged.dom().len() <= i64::MAX,
            forall|v: Vec<Single>| call_requires(mean, (v,)),
            forall|a: Single, b: Single| call_requires(midpoint, (a, b)),
        ensures
            merge_made(old(self)@, *mean, *midpoint, final(self)@),
    {
        let ghost start = self@;
        let method = merge_method(&self.controls);
        let k: u64 = self.next_merge();
        let number = decimal(k);
        let id = join2("merged-", number.as_str());
        let sources = self.merge.selection.keys();
        proof {
            assert(texts(sources@) == listed(start.merge.selection));
        }
        let typed = strip(self.merge.name.as_str());
        let name = if typed.as_str().is_empty() {
            id.clone()
        } else {
            typed
        };
        let outcome = self.faces.create_merged(id, name, &sources, method, mean, midpoint);
        proof {
            assert(merged_created(
                start.faces,
                self@.faces,
                merged_name(k as nat),
                draft_name(start, k as nat),
                listed(start.merge.selection),
                method_of(start.controls),
                *mean,
                *midpoint,
                outcome,
            ));
        }
        match outcome {
            Ok(()) => {
                self.merge = MergeDraft { selection: TextMap::new(), name: String::new() };
                proof {
                    assert(self@.merge =~= (Draft { selection: Set::empty(), name: Seq::empty() }));
                }
                self.say("Created reusable embedding");
                self.touch();
            },
            Err(e) => {
                self.status = Notice::Faces(e);
            },
        }
    }

    /// The ids of the embeddings that are listed.
    pub fn listed_embeddings(&self) -> (r: Vec<String>)
        ensures
            texts(r@) == found_merged(
                self@.faces,
                listed(self@.faces.merged.dom()),
                wanted(self@.filters.embeddings@),
            ),
    {
        let part = query_of(self.filters.embeddings.as_str());
        let merged = self.faces.merged_identities();
        let ghost faces = self.faces@;
        let ghost entries = self.faces.merged_entries();
        let ghost keys = keys_of(entries);
        proof {
            self.faces.entries_are_the_view();
            keys_are_listed(entries);
            assert(faces.merged.dom() =~= map_of(entries).dom());
        }
        let mut r: Vec<String> = Vec::new();
        proof {
            assert(texts(r@) =~= found_merged(faces, keys.take(0), part@));
        }
        let mut i: usize = 0;
        while i < merged.len()
            invariant
                i <= merged.len(),
                ascending(entries),
                keys == keys_of(entries),
                merged@.len() == entries.len(),
                faces.merged == map_of(entries).map_values(
                    |m: crate::faces::MergedIdentity| m@,
                ),
                forall|j: int| 0 <= j < merged@.len() ==> *(#[trigger] merged@[j]) == entries[j].1,
                texts(r@) == found_merged(faces, keys.take(i as int), part@),
            decreases merged.len() - i,
        {
            let identity = merged[i];
            let ghost before = r@;
            proof {
                entry_is_unique(entries, i as int);
                assert(keys.take(i + 1).drop_last() =~= keys.take(i as int));
                assert(keys[i as int] == entries[i as int].0);
                assert(faces.merged[keys[i as int]] == identity@);
            }
            if is_found(identity.name.as_str(), part.as_str()) || is_found(
                identity.id.as_str(),
                part.as_str(),
            ) {
                r.push(identity.id.clone());
                proof {
                    assert(texts(r@) =~= texts(before).push(identity.id@));
                }
            }
            i = i + 1;
        }
        proof {
            assert(keys.take(keys.len() as int) =~= keys);
        }
        r
    }

    /// Takes embeddings that were loaded, in place of those that are kept.
    pub fn load_embeddings(&mut self, path: String, embeddings: Vec<SavedEmbedding>)
        ensures
            embeddings_loaded(old(self)@, path@, embeddings@, final(self)@),
    {
        let ghost start = self@;
        let ghost items = embeddings@;
        let ghost step = embedding_step();
        let _ = self.faces.clear_merged();
        let ghost cleared = Loading { faces: self@.faces, count: 0 };
        proof {
            run_begins::<Loading, SavedEmbedding, FaceWorkspaceError>(step, cleared, items);
        }
        let mut rest = embeddings;
        let mut i: u64 = 0;
        proof {
            assert(items.skip(0) =~= items);
        }
        let total: usize = rest.len();
        while rest.len() > 0
            invariant
                start == old(self)@,
                items == embeddings@,
                total == items.len(),
                i <= total,
                rest@ == items.skip(i as int),
                step == embedding_step(),
                cleared == (Loading { faces: start.faces.without_all_merged(), count: 0 }),
                self@ == start.with_faces(self@.faces),
                runs(
                    step,
                    cleared,
                    items.take(i as int),
                    Ok::<Loading, FaceWorkspaceError>(
                        Loading { faces: self@.faces, count: i as nat },
                    ),
                ),
            decreases rest.len(),
        {
            let ghost before = Loading { faces: self@.faces, count: i as nat };
            let item: SavedEmbedding = rest.remove(0);
            proof {
                assert(item == items[i as int]);
                assert(rest@ =~= items.skip(i + 1));
            }
            let number = decimal(i);
            let id = join2("loaded-", number.as_str());
            let outcome = self.faces.add_merged_store(id, item.name, item.embedding_store);
            match outcome {
                Err(e) => {
                    self.status = Notice::Faces(e);
                    proof {
                        assert(embedding_taken(before, items[i as int], Err(e)));
                        assert(runs(
                            embedding_step(),
                            Loading { faces: start.faces.without_all_merged(), count: 0 },
                            items.take(i as int),
                            Ok::<Loading, FaceWorkspaceError>(before),
                        ));
                        assert(self@ =~= (Session {
                            faces: before.faces,
                            status: Said::Faces(e),
                            ..start
                        }));
                    }
                    return;
                },
                Ok(()) => {
                    proof {
                        let after = Loading { faces: self@.faces, count: (i + 1) as nat };
                        assert(embedding_taken(before, items[i as int], Ok(after)));
                        assert(step(before, items[i as int], Ok(after)));
                        run_grows(
                            step,
                            cleared,
                            items,
                            i as int,
                            before,
                            Ok::<Loading, FaceWorkspaceError>(after),
                        );
                    }
                },
            }
            i = i + 1;
        }
        let ghost end = Loading { faces: self@.faces, count: i as nat };
        proof {
            assert(i == items.len());
            assert(runs(
                embedding_step(),
                Loading { faces: start.faces.without_all_merged(), count: 0 },
                items.take(items.len() as int),
                Ok::<Loading, FaceWorkspaceError>(end),
            ));
        }
        let text = join2("Loaded embeddings from ", path.as_str());
        self.place.embeddings_path = Some(path);
        self.say(text.as_str());
        self.touch();
    }

    /// The embeddings that are kept, as they are saved.
    pub fn saved_embeddings(&self) -> (r: Vec<SavedEmbedding>)
        ensures
            ({
                let merged = self@.faces.merged;
                let keys = listed(merged.dom());
                &&& r@.len() == keys.len()
                &&& forall|i: int|
                    0 <= i < r@.len() ==> (#[trigger] r@[i]).name@ == merged[keys[i]].name
                        && embedded(r@[i].embedding_store) == merged[keys[i]].embeddings
            }),
    {
        let identities = self.faces.merged_identities();
        let ghost entries = self.faces.merged_entries();
        let ghost merged = self.faces@.merged;
        let ghost keys = keys_of(entries);
        proof {
            self.faces.entries_are_the_view();
            keys_are_listed(entries);
            assert(merged.dom() =~= map_of(entries).dom());
        }
        let mut r: Vec<SavedEmbedding> = Vec::new();
        let mut i: usize = 0;
        while i < identities.len()
            invariant
                i <= identities.len(),
                ascending(entries),
                keys == keys_of(entries),
                identities@.len() == entries.len(),
                merged == map_of(entries).map_values(|m: crate::faces::MergedIdentity| m@),
                forall|j: int|
                    0 <= j < identities@.len() ==> *(#[trigger] identities@[j]) == entries[j].1,
                r@.len() == i,
                forall|j: int|
                    0 <= j < i ==> (#[trigger] r@[j]).name@ == merged[keys[j]].name && embedded(
                        r@[j].embedding_store,
                    ) == merged[keys[j]].embeddings,
            decreases identities.len() - i,
        {
            let identity = identities[i];
            proof {
                entry_is_unique(entries, i as int);
                assert(keys[i as int] == entries[i as int].0);
                assert(merged[keys[i as int]] == identity@);
            }
            r.push(
                SavedEmbedding {
                    name: identity.name.clone(),
                    embedding_store: copy_store(&identity.embeddings),
                },
            );
            i = i + 1;
        }
        r
    }

    /// The embeddings were saved at a path.
    pub fn embeddings_saved(&mut self, path: String)
        ensures
            final(self)@ == (Session {
                place: Place { embeddings: Some(path@), ..old(self)@.place },
                ..old(self)@
            }).saying("Saved embeddings to "@ + path@),
    {
        let text = join2("Saved embeddings to ", path.as_str());
        self.place.embeddings_path = Some(path);
        self.say(text.as_str());
    }
}

} // verus!
