//! The media of a session, and the identities and faces that come from them.

use vstd::prelude::*;

use crate::controls::ControlValue;
use crate::faces::{ids_for_media, optional_str, pending_added, texts, Faces};
use crate::faces::FaceWorkspaceError;
use crate::media::{discovered, media_added, media_selected, of_role, Library};
use crate::media::{discover_media, DirectoryEntry};
use crate::media::{MediaError, MediaId, MediaItem, MediaKind, MediaRole};
use crate::ordered::{ascending, entry_is_unique, keys_are_listed, keys_of, listed, map_of};
use crate::ordered::{TextMap, TextSet};
use crate::paths::file_stem;
use crate::paths::stem_of;
use crate::search::{has_part, lower_case_of, wanted};
use crate::search::{is_found, query_of};
use crate::session::state::{blank_timeline, nothing_pending, Pending, Said, Session};
use crate::session::state::{
    text_notice, EditorView, ExtraGuiState, Intents, Notice, PendingRoutes,
};
use crate::text::numeral;
use crate::text::{decimal, join2, join3};
use crate::timeline::EditorTimeline;
use crate::trace::{run_begins, run_ends, run_grows, runs};

verus! {

/// The toggle `id` is switched on.
pub open spec fn switched_on(values: Map<Seq<char>, ControlValue>, id: Seq<char>) -> bool {
    values.dom().contains(id) && values[id] == ControlValue::Toggle(true)
}

/// New target faces are swapped by themselves.
pub open spec fn swaps_by_itself(s: Session) -> bool {
    switched_on(s.controls, "AutoSwapToggle"@)
}

/// The toggle that says whether folders are searched with the folders in them.
pub open spec fn recursion_toggle(role: MediaRole) -> Seq<char> {
    match role {
        MediaRole::Target => "TargetMediaFolderRecursiveToggle"@,
        MediaRole::Source => "InputFacesFolderRecursiveToggle"@,
    }
}

impl Faces {
    /// The target that assignments go to: none where all faces are swapped.
    pub open spec fn active(self) -> Option<Seq<char>> {
        if self.swap_all {
            None
        } else {
            self.selected
        }
    }

    /// The ids of all sources, in ascending order of their keys.
    pub open spec fn source_ids(self) -> Seq<Seq<char>> {
        listed(self.sources.dom()).map_values(|key: Seq<char>| self.sources[key].id)
    }

    /// The ids of all merged identities, in ascending order of their keys.
    pub open spec fn merged_ids(self) -> Seq<Seq<char>> {
        listed(self.merged.dom()).map_values(|key: Seq<char>| self.merged[key].id)
    }

    /// The sources that are assigned to the active target.
    pub open spec fn routed_sources(self) -> Seq<Seq<char>> {
        kept(self.source_ids(), self.assigned_sources(self.active()))
    }

    /// The merged identities that are assigned to the active target.
    pub open spec fn routed_merged(self) -> Seq<Seq<char>> {
        kept(self.merged_ids(), self.assigned_merged(self.active()))
    }

    /// The faces without those that come from a medium, or from an image of a source.
    pub open spec fn without_medium(self, role: MediaRole, id: MediaId) -> Faces {
        match role {
            MediaRole::Target => {
                let ids = ids_for_media(self.targets, id);
                self.without_targets(ids, ids.len())
            },
            MediaRole::Source => if self.sources.dom().contains(source_id(id)) {
                self.without_source(source_id(id))
            } else {
                self
            },
        }
    }

    /// The faces without those that come from the first `n` media.
    pub open spec fn without_media(self, role: MediaRole, ids: Seq<MediaId>, n: nat) -> Faces
        decreases n,
    {
        if n == 0 {
            self
        } else {
            self.without_media(role, ids, (n - 1) as nat).without_medium(role, ids[n - 1])
        }
    }

    /// The faces without targets.
    pub open spec fn without_any_target(self) -> Faces {
        Faces { targets: Map::empty(), selected: None, ..self }
    }
}

/// Those of `ids` that are in a set, in their order.
pub open spec fn kept(ids: Seq<Seq<char>>, set: Set<Seq<char>>) -> Seq<Seq<char>>
    decreases ids.len(),
{
    if ids.len() == 0 {
        Seq::empty()
    } else if set.contains(ids.last()) {
        kept(ids.drop_last(), set).push(ids.last())
    } else {
        kept(ids.drop_last(), set)
    }
}

/// The identity that comes from the image of a source.
pub open spec fn source_id(id: MediaId) -> Seq<char> {
    "source-"@ + numeral(id.0 as nat)
}

/// The routes that are kept for new targets.
pub open spec fn captured(faces: Faces) -> Pending {
    Pending {
        sources: faces.routed_sources().to_set(),
        merged: faces.routed_merged().to_set(),
    }
}

fn source_name(id: MediaId) -> (r: String)
    ensures
        r@ == source_id(id),
{
    let number = decimal(id.0);
    join2("source-", number.as_str())
}

/// The set of listed texts.
fn set_of(list: &Vec<String>) -> (r: TextSet)
    ensures
        r@.dom() == texts(list@).to_set(),
{
    let mut r: TextSet = TextMap::new();
    let ghost all = texts(list@);
    let mut i: usize = 0;
    while i < list.len()
        invariant
            i <= list.len(),
            all == texts(list@),
            forall|key: Seq<char>| #[trigger]
                r@.dom().contains(key) <==> exists|j: int| 0 <= j < i && #[trigger] all[j] == key,
        decreases list.len() - i,
    {
        let ghost before = r@.dom();
        let _ = r.insert(list[i].clone(), ());
        proof {
            assert(all[i as int] == list@[i as int]@);
            assert forall|key: Seq<char>| #[trigger] r@.dom().contains(key) <==> exists|j: int|
                0 <= j < i + 1 && #[trigger] all[j] == key by {
                if before.contains(key) {
                    let j = choose|j: int| 0 <= j < i && #[trigger] all[j] == key;
                    assert(all[j] == key);
                }
            }
        }
        i = i + 1;
    }
    proof {
        assert forall|key: Seq<char>| r@.dom().contains(key) <==> all.to_set().contains(key) by {
            if all.contains(key) {
                let j = choose|j: int| 0 <= j < all.len() && all[j] == key;
                assert(all[j] == key);
                assert(r@.dom().contains(key));
            }
        }
        assert(r@.dom() =~= all.to_set());
    }
    r
}

impl ExtraGuiState {
    /// Whether a toggle is switched on.
    pub fn is_switched_on(&self, id: &str) -> (r: bool)
        ensures
            r == switched_on(self@.controls, id@),
    {
        match self.controls.get(id) {
            Some(ControlValue::Toggle(on)) => *on,
            _ => false,
        }
    }

    /// Whether new target faces are swapped by themselves.
    pub fn auto_swap_enabled(&self) -> (r: bool)
        ensures
            r == swaps_by_itself(self@),
    {
        self.is_switched_on("AutoSwapToggle")
    }

    /// Whether folders are searched with the folders in them.
    pub fn recursive_media_selection(&self, role: MediaRole) -> (r: bool)
        ensures
            r == switched_on(self@.controls, recursion_toggle(role)),
    {
        match role {
            MediaRole::Target => self.is_switched_on("TargetMediaFolderRecursiveToggle"),
            MediaRole::Source => self.is_switched_on("InputFacesFolderRecursiveToggle"),
        }
    }

    /// The target that assignments go to.
    pub fn active_target(&self) -> (r: Option<&str>)
        ensures
            optional_str(r) == self@.faces.active(),
    {
        if self.faces.swap_all() {
            None
        } else {
            self.faces.selected_target()
        }
    }

    /// The sources that are assigned to the active target.
    pub fn routed_sources(&self) -> (r: Vec<String>)
        ensures
            texts(r@) == self@.faces.routed_sources(),
    {
        let active = self.active_target();
        let sources = self.faces.sources();
        let ghost faces = self.faces@;
        let ghost entries = self.faces.source_entries();
        let ghost ids = faces.source_ids();
        let ghost assigned = faces.assigned_sources(faces.active());
        proof {
            self.faces.entries_are_the_view();
            keys_are_listed(entries);
            assert(faces.sources.dom() =~= map_of(entries).dom());
        }
        let mut r: Vec<String> = Vec::new();
        proof {
            assert(texts(r@) =~= kept(ids.take(0), assigned));
        }
        let mut i: usize = 0;
        while i < sources.len()
            invariant
                i <= sources.len(),
                ascending(entries),
                sources@.len() == entries.len(),
                ids.len() == entries.len(),
                ids == faces.source_ids(),
                faces == self.faces@,
                assigned == faces.assigned_sources(faces.active()),
                optional_str(active) == faces.active(),
                listed(faces.sources.dom()) == keys_of(entries),
                faces.sources == map_of(entries).map_values(
                    |s: crate::faces::SourceIdentity| s@,
                ),
                forall|j: int| 0 <= j < sources@.len() ==> *(#[trigger] sources@[j]) == entries[j].1,
                texts(r@) == kept(ids.take(i as int), assigned),
            decreases sources.len() - i,
        {
            let source = sources[i];
            let ghost before = r@;
            proof {
                entry_is_unique(entries, i as int);
                assert(keys_of(entries)[i as int] == entries[i as int].0);
                assert(ids[i as int] == source.id@);
                assert(ids.take(i + 1).drop_last() =~= ids.take(i as int));
            }
            if self.faces.source_is_assigned(active, source.id.as_str()) {
                r.push(source.id.clone());
                proof {
                    assert(texts(r@) =~= texts(before).push(source.id@));
                }
            }
            i = i + 1;
        }
        proof {
            assert(ids.take(ids.len() as int) =~= ids);
        }
        r
    }

    /// The merged identities that are assigned to the active target.
    pub fn routed_merged(&self) -> (r: Vec<String>)
        ensures
            texts(r@) == self@.faces.routed_merged(),
    {
        let active = self.active_target();
        let merged = self.faces.merged_identities();
        let ghost faces = self.faces@;
        let ghost entries = self.faces.merged_entries();
        let ghost ids = faces.merged_ids();
        let ghost assigned = faces.assigned_merged(faces.active());
        proof {
            self.faces.entries_are_the_view();
            keys_are_listed(entries);
            assert(faces.merged.dom() =~= map_of(entries).dom());
        }
        let mut r: Vec<String> = Vec::new();
        proof {
            assert(texts(r@) =~= kept(ids.take(0), assigned));
        }
        let mut i: usize = 0;
        while i < merged.len()
            invariant
                i <= merged.len(),
                ascending(entries),
                merged@.len() == entries.len(),
                ids.len() == entries.len(),
                ids == faces.merged_ids(),
                faces == self.faces@,
                assigned == faces.assigned_merged(faces.active()),
                optional_str(active) == faces.active(),
                listed(faces.merged.dom()) == keys_of(entries),
                faces.merged == map_of(entries).map_values(
                    |m: crate::faces::MergedIdentity| m@,
                ),
                forall|j: int| 0 <= j < merged@.len() ==> *(#[trigger] merged@[j]) == entries[j].1,
                texts(r@) == kept(ids.take(i as int), assigned),
            decreases merged.len() - i,
        {
            let identity = merged[i];
            let ghost before = r@;
            proof {
                entry_is_unique(entries, i as int);
                assert(keys_of(entries)[i as int] == entries[i as int].0);
                assert(ids[i as int] == identity.id@);
                assert(ids.take(i + 1).drop_last() =~= ids.take(i as int));
            }
            if self.faces.merged_is_assigned(active, identity.id.as_str()) {
                r.push(identity.id.clone());
                proof {
                    assert(texts(r@) =~= texts(before).push(identity.id@));
                }
            }
            i = i + 1;
        }
        proof {
            assert(ids.take(ids.len() as int) =~= ids);
        }
        r
    }

    /// Keeps the routes of the active target for new targets.
    pub fn capture_auto_swap_routes(&mut self)
        ensures
            final(self)@ == (Session { pending: captured(old(self)@.faces), ..old(self)@ }),
    {
        let sources = self.routed_sources();
        let merged = self.routed_merged();
        self.pending = PendingRoutes { sources: set_of(&sources), merged: set_of(&merged) };
    }

    /// Keeps the routes of the active target where new targets are swapped by themselves, or none.
    fn renew_routes(&mut self)
        ensures
            final(self)@ == renewed(old(self)@),
    {
        if self.auto_swap_enabled() {
            self.capture_auto_swap_routes();
        } else {
            self.pending = PendingRoutes::none();
        }
    }
}

/// The session with the routes for new targets.
pub open spec fn renewed(s: Session) -> Session {
    Session {
        pending: if swaps_by_itself(s) {
            captured(s.faces)
        } else {
            nothing_pending()
        },
        ..s
    }
}

/// What adding media changes.
#[verifier::ext_equal]
pub ghost struct Adding {
    pub media: Library,
    pub faces: Faces,
    pub status: Said,
    pub analysis: bool,
    pub added: nat,
}

/// The name that the identity of a source gets.
pub open spec fn name_from(path: Seq<char>) -> Seq<char> {
    match stem_of(path) {
        Some(stem) => stem,
        None => "Source face"@,
    }
}

/// The outcome of giving a source its identity. One that has it already keeps it.
pub open spec fn identity_given(before: Adding, path: Seq<char>, id: MediaId, after: Adding) -> bool {
    if before.faces.sources.dom().contains(source_id(id)) {
        after == (Adding { media: after.media, added: before.added + 1, ..before })
    } else {
        exists|r: Result<(), FaceWorkspaceError>|
            {
                &&& #[trigger] pending_added(
                    before.faces,
                    after.faces,
                    source_id(id),
                    name_from(path),
                    Some(id),
                    r,
                )
                &&& match r {
                    Ok(()) => after == (Adding {
                        media: after.media,
                        faces: after.faces,
                        added: before.added + 1,
                        ..before
                    }),
                    Err(e) => after == (Adding {
                        media: after.media,
                        faces: after.faces,
                        status: Said::Faces(e),
                        ..before
                    }),
                }
            }
    }
}

/// The outcome of adding one medium.
pub open spec fn medium_taken(
    role: MediaRole,
    by_itself: bool,
    before: Adding,
    path: String,
    after: Adding,
) -> bool {
    exists|r: Result<MediaId, MediaError>|
        {
            &&& #[trigger] media_added(before.media, role, path, after.media, r)
            &&& match r {
                Err(e) => after == (Adding {
                    media: after.media,
                    status: Said::Media(e),
                    ..before
                }),
                Ok(id) => match role {
                    MediaRole::Source => identity_given(before, path@, id, after),
                    MediaRole::Target => after == (Adding {
                        media: after.media,
                        analysis: before.analysis || by_itself,
                        added: before.added + 1,
                        ..before
                    }),
                },
            }
        }
}

/// One step of adding media.
pub open spec fn medium_step(role: MediaRole, by_itself: bool) -> spec_fn(
    Adding,
    String,
    Result<Adding, ()>,
) -> bool {
    |before: Adding, path: String, out: Result<Adding, ()>|
        out is Ok && medium_taken(role, by_itself, before, path, out->Ok_0)
}

/// What adding media changes, as the session stands.
pub open spec fn adding(s: Session, added: nat) -> Adding {
    Adding {
        media: s.media,
        faces: s.faces,
        status: s.status,
        analysis: s.intents.analysis,
        added,
    }
}

/// The session after media were added: where there were any, a new target begins anew.
pub open spec fn media_taken(s: Session, role: MediaRole, end: Adding) -> Session {
    let held = Session {
        media: end.media,
        faces: end.faces,
        status: end.status,
        intents: Intents { analysis: end.analysis, ..s.intents },
        ..s
    };
    if end.added == 0 {
        held
    } else {
        let told = held.saying("Added "@ + numeral(end.added) + " media item(s)"@).changed();
        match role {
            MediaRole::Target => Session {
                faces: told.faces.without_any_target(),
                timeline: blank_timeline(),
                ..told
            },
            MediaRole::Source => told,
        }
    }
}

/// The session as media are going to be added.
pub open spec fn ready_for(s: Session, role: MediaRole) -> Session {
    match role {
        MediaRole::Target => renewed(s),
        MediaRole::Source => s,
    }
}

/// The outcome of adding media.
pub open spec fn media_added_to(s: Session, role: MediaRole, paths: Seq<String>, after: Session) -> bool {
    exists|end: Adding|
        {
            &&& #[trigger] runs(
                medium_step(role, swaps_by_itself(s)),
                adding(ready_for(s, role), 0),
                paths,
                Ok::<Adding, ()>(end),
            )
            &&& after == media_taken(ready_for(s, role), role, end)
        }
}

impl ExtraGuiState {
    /// Adds one medium. Gives back whether it was added.
    fn add_medium(&mut self, role: MediaRole, path: String, by_itself: bool) -> (r: bool)
        ensures
            forall|added: nat|
                #![trigger adding(old(self)@, added)]
                medium_taken(
                    role,
                    by_itself,
                    adding(old(self)@, added),
                    path,
                    adding(
                        final(self)@,
                        if r {
                            added + 1
                        } else {
                            added
                        },
                    ),
                ),
            final(self)@ == (Session {
                media: final(self)@.media,
                faces: final(self)@.faces,
                status: final(self)@.status,
                intents: Intents {
                    analysis: final(self)@.intents.analysis,
                    ..old(self)@.intents
                },
                ..old(self)@
            }),
    {
        let ghost start = self@;
        let name = match file_stem(path.as_str()) {
            Some(stem) => stem,
            None => "Source face".to_owned(),
        };
        let outcome = self.media.add(role, path);
        let ghost held = self@.media;
        match outcome {
            Err(e) => {
                self.status = Notice::Media(e);
                proof {
                    assert forall|added: nat|
                        #![trigger adding(start, added)]
                        medium_taken(
                            role,
                            by_itself,
                            adding(start, added),
                            path,
                            adding(self@, added),
                        ) by {
                        assert(media_added(
                            adding(start, added).media,
                            role,
                            path,
                            adding(self@, added).media,
                            outcome,
                        ));
                    }
                }
                false
            },
            Ok(id) => {
                if role == MediaRole::Source {
                    let identity = source_name(id);
                    if self.faces.source(identity.as_str()).is_none() {
                        let given = self.faces.add_pending_source(identity, name, Some(id));
                        let ghost faces = self@.faces;
                        let refused = match given {
                            Ok(()) => false,
                            Err(e) => {
                                self.status = Notice::Faces(e);
                                true
                            },
                        };
                        proof {
                            let now = self@;
                            assert forall|added: nat|
                                #![trigger adding(start, added)]
                                medium_taken(
                                    role,
                                    by_itself,
                                    adding(start, added),
                                    path,
                                    adding(
                                        now,
                                        if refused {
                                            added
                                        } else {
                                            added + 1
                                        },
                                    ),
                                ) by {
                                let before = adding(start, added);
                                let after = adding(
                                    now,
                                    if refused {
                                        added
                                    } else {
                                        added + 1
                                    },
                                );
                                assert(media_added(before.media, role, path, after.media, outcome));
                                assert(pending_added(
                                    before.faces,
                                    after.faces,
                                    source_id(id),
                                    name_from(path@),
                                    Some(id),
                                    given,
                                ));
                                assert(identity_given(before, path@, id, after));
                            }
                        }
                        return !refused;
                    }
                    proof {
                        assert forall|added: nat|
                            #![trigger adding(start, added)]
                            medium_taken(
                                role,
                                by_itself,
                                adding(start, added),
                                path,
                                adding(self@, added + 1),
                            ) by {
                            let before = adding(start, added);
                            let after = adding(self@, added + 1);
                            assert(media_added(before.media, role, path, after.media, outcome));
                            assert(identity_given(before, path@, id, after));
                        }
                    }
                    return true;
                }
                if by_itself {
                    self.intents.analysis = true;
                }
                proof {
                    assert forall|added: nat|
                        #![trigger adding(start, added)]
                        medium_taken(
                            role,
                            by_itself,
                            adding(start, added),
                            path,
                            adding(self@, added + 1),
                        ) by {
                        let before = adding(start, added);
                        let after = adding(self@, added + 1);
                        assert(media_added(before.media, role, path, after.media, outcome));
                    }
                }
                true
            },
        }
    }

    /// Adds media. Where a target was added, the faces and the timeline begin anew, and where new
    /// targets are swapped by themselves, they are going to be analyzed.
    pub fn add_media_paths(&mut self, role: MediaRole, paths: Vec<String>)
        ensures
            media_added_to(old(self)@, role, paths@, final(self)@),
    {
        let ghost start = self@;
        let by_itself = self.auto_swap_enabled();
        if role == MediaRole::Target {
            self.renew_routes();
        }
        let ghost begun = self@;
        let ghost items = paths@;
        let ghost step = medium_step(role, by_itself);
        let mut added: usize = 0;
        let mut i: usize = 0;
        proof {
            run_begins::<Adding, String, ()>(step, adding(begun, 0), items);
        }
        while i < paths.len()
            invariant
                i <= paths.len(),
                added <= i,
                items == paths@,
                step == medium_step(role, by_itself),
                runs(
                    step,
                    adding(begun, 0),
                    items.take(i as int),
                    Ok::<Adding, ()>(adding(self@, added as nat)),
                ),
                self@ == (Session {
                    media: self@.media,
                    faces: self@.faces,
                    status: self@.status,
                    intents: Intents { analysis: self@.intents.analysis, ..begun.intents },
                    ..begun
                }),
            decreases paths.len() - i,
        {
            let ghost before = adding(self@, added as nat);
            let taken = self.add_medium(role, paths[i].clone(), by_itself);
            if taken {
                added = added + 1;
            }
            proof {
                let after = adding(self@, added as nat);
                assert(medium_taken(role, by_itself, before, items[i as int], after));
                assert(step(before, items[i as int], Ok(after)));
                run_grows(step, adding(begun, 0), items, i as int, before, Ok::<Adding, ()>(after));
            }
            i = i + 1;
        }
        let ghost end = adding(self@, added as nat);
        proof {
            run_ends::<Adding, String, ()>(step, adding(begun, 0), items, end);
        }
        if added > 0 {
            if role == MediaRole::Target {
                let _ = self.faces.clear_targets();
                self.timeline = EditorTimeline::default();
            }
            let number = decimal(added as u64);
            let text = join3("Added ", number.as_str(), " media item(s)");
            self.say(text.as_str());
            self.touch();
        }
        proof {
            assert(self@ =~= media_taken(begun, role, end));
            assert(begun == ready_for(start, role));
            assert(runs(
                medium_step(role, swaps_by_itself(start)),
                adding(ready_for(start, role), 0),
                paths@,
                Ok::<Adding, ()>(end),
            ));
        }
    }

    /// Removes what came from a medium.
    pub fn cleanup_media_identity(&mut self, role: MediaRole, id: MediaId)
        ensures
            final(self)@ == old(self)@.with_faces(old(self)@.faces.without_medium(role, id)),
    {
        match role {
            MediaRole::Target => {
                let _ = self.faces.remove_targets_for_media(id);
            },
            MediaRole::Source => {
                let identity = source_name(id);
                let _ = self.faces.remove_source(identity.as_str());
            },
        }
    }

    /// Removes a medium and what came from it.
    pub fn remove_media(&mut self, role: MediaRole, id: MediaId)
        ensures
            final(self)@ == ({
                let s = old(self)@.with_faces(old(self)@.faces.without_medium(role, id));
                if crate::media::find_item(s.media.items, id) is Some {
                    (Session {
                        media: s.media.without(id),
                        ..s
                    }).saying("Removed media item"@).changed()
                } else {
                    Session { media: s.media.without(id), ..s }
                }
            }),
    {
        self.cleanup_media_identity(role, id);
        if self.media.remove(id) {
            self.say("Removed media item");
            self.touch();
        }
    }

    /// Removes all media of a role and what came from them.
    pub fn clear_media(&mut self, role: MediaRole)
        ensures
            final(self)@ == ({
                let s = old(self)@;
                let ids = of_role(s.media.items, role).map_values(|item: MediaItem| item.id);
                (Session {
                    media: s.media.without_all(role),
                    faces: s.faces.without_media(role, ids, ids.len()),
                    ..s
                }).changed()
            }),
    {
        let ghost start = self@;
        let removed = self.media.clear(role);
        let ghost cleared = self@;
        let ghost ids = removed@;
        let mut i: usize = 0;
        while i < removed.len()
            invariant
                i <= removed.len(),
                ids == removed@,
                self@ == cleared.with_faces(cleared.faces.without_media(role, ids, i as nat)),
            decreases removed.len() - i,
        {
            self.cleanup_media_identity(role, removed[i]);
            i = i + 1;
        }
        self.touch();
    }

    /// Selects a medium. Where another target is, the faces and the timeline begin anew.
    pub fn select_media(&mut self, role: MediaRole, id: MediaId)
        ensures
            media_chosen(old(self)@, role, id, final(self)@),
    {
        let ghost start = self@;
        let selected = self.media.selected(role);
        let changed = match selected {
            Some(other) => other.0 != id.0,
            None => true,
        };
        let outcome = self.media.select(role, id);
        let ghost held = self@;
        proof {
            assert(media_selected(start.media, role, id, held.media, outcome));
        }
        match outcome {
            Err(e) => {
                self.status = Notice::Media(e);
            },
            Ok(()) => {
                if changed {
                    self.touch();
                    if role == MediaRole::Target {
                        self.renew_routes();
                        let _ = self.faces.clear_targets();
                        self.timeline = EditorTimeline::default();
                        if self.auto_swap_enabled() {
                            self.intents.analysis = true;
                        }
                    }
                }
            },
        }
    }

    /// Whether a medium is listed: of a kind that is shown, and found by what was typed.
    fn is_listed(&self, item: &MediaItem, part: &str) -> (r: bool)
        ensures
            r == (kind_shown(self@.view, *item) && has_part(lower_case_of(item.path@), part@)),
    {
        let kind = item.role == MediaRole::Source || match item.kind {
            MediaKind::Image => self.view.show_target_images,
            MediaKind::Video => self.view.show_target_videos,
        };
        kind && is_found(item.path.as_str(), part)
    }

    /// The media of a role that are listed.
    pub fn listed_media(&self, role: MediaRole) -> (r: Vec<&MediaItem>)
        ensures
            r@.unref() == listed_among(self@, of_role(self@.media.items, role), role),
    {
        let items = self.media.items(role);
        let part = match role {
            MediaRole::Target => query_of(self.filters.targets.as_str()),
            MediaRole::Source => query_of(self.filters.sources.as_str()),
        };
        let ghost all = items@.unref();
        let mut r: Vec<&MediaItem> = Vec::new();
        let mut i: usize = 0;
        proof {
            assert(r@.unref() =~= listed_among(self@, all.take(0), role));
        }
        while i < items.len()
            invariant
                i <= items.len(),
                all == items@.unref(),
                all == of_role(self@.media.items, role),
                part@ == wanted(typed(self@, role)),
                r@.unref() == listed_among(self@, all.take(i as int), role),
            decreases items.len() - i,
        {
            let ghost before = r@;
            proof {
                assert(all.take(i + 1).drop_last() =~= all.take(i as int));
                assert(all[i as int] == *items@[i as int]);
            }
            if self.is_listed(items[i], part.as_str()) {
                r.push(items[i]);
                proof {
                    assert(r@.unref() =~= before.unref().push(all[i as int]));
                }
            }
            i = i + 1;
        }
        proof {
            assert(all.take(all.len() as int) =~= all);
        }
        r
    }
}

/// The outcome of selecting a medium.
pub open spec fn media_chosen(s: Session, role: MediaRole, id: MediaId, after: Session) -> bool {
    exists|r: Result<(), MediaError>|
        {
            &&& #[trigger] media_selected(s.media, role, id, after.media, r)
            &&& match r {
                Err(e) => after == (Session {
                    media: after.media,
                    status: Said::Media(e),
                    ..s
                }),
                Ok(()) => {
                    let held = Session { media: after.media, ..s };
                    if s.media.chosen(role) == Some(id) {
                        after == held
                    } else if role == MediaRole::Source {
                        after == held.changed()
                    } else {
                        after == (Session {
                            pending: renewed(s).pending,
                            faces: s.faces.without_any_target(),
                            timeline: blank_timeline(),
                            intents: Intents {
                                analysis: s.intents.analysis || swaps_by_itself(s),
                                ..s.intents
                            },
                            ..held.changed()
                        })
                    }
                },
            }
        }
}

/// What was typed to find media of a role.
pub open spec fn typed(s: Session, role: MediaRole) -> Seq<char> {
    match role {
        MediaRole::Target => s.filters.targets@,
        MediaRole::Source => s.filters.sources@,
    }
}

/// Media of this kind are shown. Sources always are.
pub open spec fn kind_shown(view: EditorView, item: MediaItem) -> bool {
    item.role == MediaRole::Source || match item.kind {
        MediaKind::Image => view.show_target_images,
        MediaKind::Video => view.show_target_videos,
    }
}

/// Those of `items` that are listed.
pub open spec fn listed_among(s: Session, items: Seq<MediaItem>, role: MediaRole) -> Seq<MediaItem>
    decreases items.len(),
{
    if items.len() == 0 {
        Seq::empty()
    } else {
        let before = listed_among(s, items.drop_last(), role);
        let last = items.last();
        if kind_shown(s.view, last) && has_part(
            lower_case_of(last.path@),
            wanted(typed(s, role)),
        ) {
            before.push(last)
        } else {
            before
        }
    }
}

/// Something that was dropped on the window.
#[derive(Debug)]
pub enum Dropped {
    File(String),
    Directory(Vec<DirectoryEntry>),
    /// A directory that could not be read, and why.
    Unreadable(String),
}

/// Files that were gathered, and what is told.
#[verifier::ext_equal]
pub ghost struct Gathered {
    pub files: Seq<String>,
    pub status: Said,
}

/// One more thing that was dropped is gathered: a file, or the media of a directory.
pub open spec fn dropped_gathered(
    role: MediaRole,
    recursive: bool,
    before: Gathered,
    item: Dropped,
    r: Result<Gathered, ()>,
) -> bool {
    match item {
        Dropped::File(path) => r == Ok::<Gathered, ()>(
            Gathered { files: before.files.push(path), ..before },
        ),
        Dropped::Directory(entries) => exists|paths: Seq<String>|
            {
                &&& #[trigger] discovered(entries@, role, recursive, paths)
                &&& r == Ok::<Gathered, ()>(Gathered { files: before.files + paths, ..before })
            },
        Dropped::Unreadable(error) => r == Ok::<Gathered, ()>(
            Gathered { status: Said::Text(error@), ..before },
        ),
    }
}

/// Gathering one thing after the other.
pub open spec fn dropped_step(role: MediaRole, recursive: bool) -> spec_fn(
    Gathered,
    Dropped,
    Result<Gathered, ()>,
) -> bool {
    |before: Gathered, item: Dropped, r: Result<Gathered, ()>|
        dropped_gathered(role, recursive, before, item, r)
}

/// The outcome of dropping things on the window.
pub open spec fn media_dropped(
    s: Session,
    role: MediaRole,
    dropped: Seq<Dropped>,
    after: Session,
) -> bool {
    if dropped.len() == 0 {
        after == s
    } else {
        exists|end: Gathered|
            {
                &&& #[trigger] runs(
                    dropped_step(role, switched_on(s.controls, recursion_toggle(role))),
                    Gathered { files: Seq::empty(), status: s.status },
                    dropped,
                    Ok::<Gathered, ()>(end),
                )
                &&& media_added_to(Session { status: end.status, ..s }, role, end.files, after)
            }
    }
}

impl ExtraGuiState {
    /// Adds the media that were dropped on the window.
    pub fn take_dropped(&mut self, role: MediaRole, dropped: Vec<Dropped>)
        ensures
            media_dropped(old(self)@, role, dropped@, final(self)@),
    {
        if dropped.len() == 0 {
            return;
        }
        let ghost start = self@;
        let recursive: bool = self.recursive_media_selection(role);
        let ghost items = dropped@;
        let ghost step = dropped_step(role, recursive);
        let ghost begin = Gathered { files: Seq::empty(), status: start.status };
        let mut files: Vec<String> = Vec::new();
        let mut i: usize = 0;
        proof {
            run_begins::<Gathered, Dropped, ()>(step, begin, items);
            assert(files@ =~= Seq::<String>::empty());
        }
        while i < dropped.len()
            invariant
                i <= dropped.len(),
                items == dropped@,
                step == dropped_step(role, recursive),
                self@ == (Session { status: self@.status, ..start }),
                runs(
                    step,
                    begin,
                    items.take(i as int),
                    Ok::<Gathered, ()>(Gathered { files: files@, status: self@.status }),
                ),
            decreases dropped.len() - i,
        {
            let ghost before = Gathered { files: files@, status: self@.status };
            match &dropped[i] {
                Dropped::File(path) => {
                    files.push(path.clone());
                },
                Dropped::Directory(entries) => {
                    let mut paths: Vec<String> = discover_media(entries, role, recursive);
                    let ghost found = paths@;
                    proof {
                        assert(discovered(entries@, role, recursive, found));
                    }
                    files.append(&mut paths);
                    proof {
                        assert(files@ =~= before.files + found);
                    }
                },
                Dropped::Unreadable(error) => {
                    self.status = text_notice(error.as_str());
                },
            }
            proof {
                let after = Gathered { files: files@, status: self@.status };
                assert(step(before, items[i as int], Ok(after)));
                run_grows(step, begin, items, i as int, before, Ok::<Gathered, ()>(after));
            }
            i = i + 1;
        }
        proof {
            run_ends::<Gathered, Dropped, ()>(
                step,
                begin,
                items,
                Gathered { files: files@, status: self@.status },
            );
        }
        let ghost end = Gathered { files: files@, status: self@.status };
        let ghost told = self@;
        self.add_media_paths(role, files);
        proof {
            assert(told == (Session { status: end.status, ..start }));
            assert(media_added_to(told, role, end.files, self@));
        }
    }
}

} // verus!
