//! The media that a workspace works on: images and videos by their paths.

use vstd::prelude::*;

use crate::headless::{media_are_told_by_extension, names_image, names_video, no_image_is_a_video};
use crate::paths::{extension, parent, same_path, sorted_paths};
use crate::paths::{extension_reads_back, free_of};
use crate::paths::{extension_of, holds_path, parent_of, path_equals, paths_ascending};
use crate::text::{same_text, to_lowered};
use crate::text::{lowered, spells};

verus! {

/// Whether a medium is worked on or gives a face.
#[derive(Debug, Clone, Copy, PartialEq, Eq, Structural)]
pub enum MediaRole {
    Target,
    Source,
}

/// What kind of medium a file holds.
#[derive(Debug, Clone, Copy, PartialEq, Eq, Structural)]
pub enum MediaKind {
    Image,
    Video,
}

/// The identifier of a medium in its library.
#[derive(Debug, Clone, Copy, PartialEq, Eq, Structural)]
pub struct MediaId(pub u64);

impl MediaId {
    /// The identifier as a number.
    pub fn get(self) -> (r: u64)
        ensures
            r == self.0,
    {
        self.0
    }
}

/// One medium.
#[derive(Debug, PartialEq, Eq)]
pub struct MediaItem {
    pub id: MediaId,
    pub role: MediaRole,
    pub kind: MediaKind,
    pub path: String,
}

/// Why a medium is refused.
#[derive(Debug, PartialEq, Eq)]
#[allow(inconsistent_fields)]
pub enum MediaError {
    Unsupported { path: String },
    SourceMustBeImage { path: String },
    UnknownId(MediaId),
    WrongRole { id: MediaId, role: MediaRole },
}

/// The kind of medium that a file extension stands for, letter case aside.
pub open spec fn kind_of_extension(extension: Seq<char>) -> Option<MediaKind> {
    let e = lowered(extension);
    if e == "jpg"@ || e == "jpeg"@ || e == "png"@ || e == "bmp"@ || e == "webp"@ {
        Some(MediaKind::Image)
    } else if e == "mp4"@ || e == "avi"@ || e == "mkv"@ || e == "mov"@ || e == "webm"@ {
        Some(MediaKind::Video)
    } else {
        None
    }
}

/// The kind of medium that a path names.
pub open spec fn kind_of(path: Seq<char>) -> Option<MediaKind> {
    match extension_of(path) {
        Some(ending) => kind_of_extension(ending),
        None => None,
    }
}

/// The kind of medium that a path names, by its extension.
pub fn classify(path: &str) -> (r: Option<MediaKind>)
    ensures
        r == kind_of(path@),
{
    match extension(path) {
        None => None,
        Some(ending) => {
            let e: String = to_lowered(ending.as_str());
            let e: &str = e.as_str();
            if same_text(e, "jpg") || same_text(e, "jpeg") || same_text(e, "png") || same_text(
                e,
                "bmp",
            ) || same_text(e, "webp") {
                Some(MediaKind::Image)
            } else if same_text(e, "mp4") || same_text(e, "avi") || same_text(e, "mkv")
                || same_text(e, "mov") || same_text(e, "webm") {
                Some(MediaKind::Video)
            } else {
                None
            }
        },
    }
}

/// The first item with the given identifier.
pub open spec fn find_item(items: Seq<MediaItem>, id: MediaId) -> Option<MediaItem>
    decreases items.len(),
{
    if items.len() == 0 {
        None
    } else if items[0].id == id {
        Some(items[0])
    } else {
        find_item(items.drop_first(), id)
    }
}

/// The first item of a role whose path is the path `path`.
pub open spec fn find_path(items: Seq<MediaItem>, role: MediaRole, path: Seq<char>) -> Option<
    MediaItem,
>
    decreases items.len(),
{
    if items.len() == 0 {
        None
    } else if items[0].role == role && path_equals(items[0].path@, path) {
        Some(items[0])
    } else {
        find_path(items.drop_first(), role, path)
    }
}

/// The items of a role, in their order.
pub open spec fn of_role(items: Seq<MediaItem>, role: MediaRole) -> Seq<MediaItem>
    decreases items.len(),
{
    if items.len() == 0 {
        Seq::empty()
    } else if items.last().role == role {
        of_role(items.drop_last(), role).push(items.last())
    } else {
        of_role(items.drop_last(), role)
    }
}

/// The items without those of a role.
pub open spec fn without_role(items: Seq<MediaItem>, role: MediaRole) -> Seq<MediaItem>
    decreases items.len(),
{
    if items.len() == 0 {
        Seq::empty()
    } else if items.last().role != role {
        without_role(items.drop_last(), role).push(items.last())
    } else {
        without_role(items.drop_last(), role)
    }
}

/// The items without those of an identifier.
pub open spec fn without_id(items: Seq<MediaItem>, id: MediaId) -> Seq<MediaItem>
    decreases items.len(),
{
    if items.len() == 0 {
        Seq::empty()
    } else if items.last().id != id {
        without_id(items.drop_last(), id).push(items.last())
    } else {
        without_id(items.drop_last(), id)
    }
}

/// The contents of a media library.
pub struct Library {
    pub items: Seq<MediaItem>,
    pub target: Option<MediaId>,
    pub source: Option<MediaId>,
    pub directory: Option<Seq<char>>,
    pub next: u64,
}

impl Library {
    /// The selected item of a role.
    pub open spec fn chosen(self, role: MediaRole) -> Option<MediaId> {
        match role {
            MediaRole::Target => self.target,
            MediaRole::Source => self.source,
        }
    }

    /// The library with another selection for a role.
    pub open spec fn with_chosen(self, role: MediaRole, id: Option<MediaId>) -> Library {
        match role {
            MediaRole::Target => Library { target: id, ..self },
            MediaRole::Source => Library { source: id, ..self },
        }
    }

    /// The item `id` can be selected for `role`.
    pub open spec fn selectable(self, role: MediaRole, id: MediaId) -> bool {
        find_item(self.items, id) is Some && (find_item(self.items, id)->0).role == role
    }

    /// The library where the directory of `path` was the last one used.
    pub open spec fn visited(self, path: Seq<char>) -> Library {
        match parent_of(path) {
            Some(directory) => if directory.len() > 0 {
                Library { directory: Some(directory), ..self }
            } else {
                self
            },
            None => self,
        }
    }

    /// The library with one more item.
    pub open spec fn grown(self, role: MediaRole, kind: MediaKind, path: String) -> Library {
        Library {
            items: self.items.push(MediaItem { id: MediaId(self.next), role, kind, path }),
            next: if self.next == u64::MAX {
                u64::MAX
            } else {
                (self.next + 1) as u64
            },
            ..self
        }
    }

    /// The library after a path was added, and the item it went to: the one that has the path
    /// already, or a new one.
    pub open spec fn placed(self, role: MediaRole, kind: MediaKind, path: String) -> (
        Library,
        MediaId,
    ) {
        let here = self.visited(path@);
        match find_path(self.items, role, path@) {
            Some(item) => (here, item.id),
            None => (here.grown(role, kind, path), MediaId(self.next)),
        }
    }

    /// The library without an item. Where it was selected nothing is any more.
    pub open spec fn without(self, id: MediaId) -> Library {
        Library {
            items: without_id(self.items, id),
            target: if self.target == Some(id) {
                None
            } else {
                self.target
            },
            source: if self.source == Some(id) {
                None
            } else {
                self.source
            },
            ..self
        }
    }

    /// The library without the items of a role.
    pub open spec fn without_all(self, role: MediaRole) -> Library {
        (Library { items: without_role(self.items, role), ..self }).with_chosen(role, None)
    }

    /// What a library keeps as long as identifiers are left: identifiers are unique and below the
    /// next one, and a selection is an item of its role.
    pub open spec fn wf(self) -> bool {
        &&& forall|i: int| 0 <= i < self.items.len() ==> (#[trigger] self.items[i]).id.0 < self.next
        &&& forall|i: int, j: int|
            0 <= i < j < self.items.len() ==> (#[trigger] self.items[i]).id != (
            #[trigger] self.items[j]).id
        &&& self.target is Some ==> self.selectable(MediaRole::Target, self.target->0)
        &&& self.source is Some ==> self.selectable(MediaRole::Source, self.source->0)
    }

    /// What every library keeps: no two items of a role have the same path, every item is of the
    /// kind that its path names, and every source is an image.
    pub open spec fn sorted_out(self) -> bool {
        &&& forall|i: int, j: int|
            0 <= i < j < self.items.len() && self.items[i].role == self.items[j].role
                ==> !path_equals(
                (#[trigger] self.items[i]).path@,
                (#[trigger] self.items[j]).path@,
            )
        &&& forall|i: int|
            0 <= i < self.items.len() ==> {
                &&& kind_of((#[trigger] self.items[i]).path@) == Some(self.items[i].kind)
                &&& self.items[i].role == MediaRole::Source ==> self.items[i].kind
                    == MediaKind::Image
            }
    }
}

/// The outcome of adding the medium at `path`. A source has to be an image.
pub open spec fn media_added(
    before: Library,
    role: MediaRole,
    path: String,
    after: Library,
    r: Result<MediaId, MediaError>,
) -> bool {
    match kind_of(path@) {
        None => r == Err::<MediaId, MediaError>(MediaError::Unsupported { path }) && after == before,
        Some(kind) => if role == MediaRole::Source && kind != MediaKind::Image {
            r == Err::<MediaId, MediaError>(MediaError::SourceMustBeImage { path }) && after
                == before
        } else {
            let (library, id) = before.placed(role, kind, path);
            if library.selectable(role, id) {
                r == Ok::<MediaId, MediaError>(id) && after == library.with_chosen(role, Some(id))
            } else {
                r == Err::<MediaId, MediaError>(MediaError::WrongRole { id, role }) && after
                    == library
            }
        },
    }
}

/// The outcome of selecting an item.
pub open spec fn media_selected(
    before: Library,
    role: MediaRole,
    id: MediaId,
    after: Library,
    r: Result<(), MediaError>,
) -> bool {
    match find_item(before.items, id) {
        None => r == Err::<(), MediaError>(MediaError::UnknownId(id)) && after == before,
        Some(item) => if item.role == role {
            r == Ok::<(), MediaError>(()) && after == before.with_chosen(role, Some(id))
        } else {
            r == Err::<(), MediaError>(MediaError::WrongRole { id, role }) && after == before
        },
    }
}

/// The media of a workspace, with one selected item for each role.
#[derive(Debug)]
pub struct MediaLibrary {
    items: Vec<MediaItem>,
    selected_target: Option<MediaId>,
    selected_source: Option<MediaId>,
    last_directory: Option<String>,
    next_id: u64,
}

impl View for MediaLibrary {
    type V = Library;

    closed spec fn view(&self) -> Library {
        Library {
            items: self.items@,
            target: self.selected_target,
            source: self.selected_source,
            directory: match self.last_directory {
                Some(directory) => Some(directory@),
                None => None,
            },
            next: self.next_id,
        }
    }
}

impl Default for MediaLibrary {
    fn default() -> (r: Self)
        ensures
            r@ == (Library {
                items: Seq::empty(),
                target: None,
                source: None,
                directory: None,
                next: 0,
            }),
            r@.wf(),
    {
        MediaLibrary {
            items: Vec::new(),
            selected_target: None,
            selected_source: None,
            last_directory: None,
            next_id: 0,
        }
    }
}

impl MediaLibrary {
    /// A library with the given contents.
    pub fn from_parts(
        items: Vec<MediaItem>,
        selected_target: Option<MediaId>,
        selected_source: Option<MediaId>,
        last_directory: Option<String>,
        next_id: u64,
    ) -> (r: Self)
        ensures
            r@ == (Library {
                items: items@,
                target: selected_target,
                source: selected_source,
                directory: match last_directory {
                    Some(directory) => Some(directory@),
                    None => None,
                },
                next: next_id,
            }),
    {
        MediaLibrary { items, selected_target, selected_source, last_directory, next_id }
    }

    /// A library with the same contents.
    pub fn duplicate(&self) -> (r: Self)
        ensures
            r@ == self@,
    {
        let mut items: Vec<MediaItem> = Vec::new();
        let mut i: usize = 0;
        while i < self.items.len()
            invariant
                i <= self.items.len(),
                items@ == self.items@.take(i as int),
            decreases self.items.len() - i,
        {
            let item: &MediaItem = &self.items[i];
            items.push(
                MediaItem {
                    id: item.id,
                    role: item.role,
                    kind: item.kind,
                    path: item.path.clone(),
                },
            );
            i = i + 1;
        }
        proof {
            assert(self.items@.take(self.items@.len() as int) =~= self.items@);
        }
        MediaLibrary {
            items,
            selected_target: self.selected_target,
            selected_source: self.selected_source,
            last_directory: match &self.last_directory {
                Some(directory) => Some(directory.clone()),
                None => None,
            },
            next_id: self.next_id,
        }
    }

    /// The number that the next item gets.
    pub fn next_id(&self) -> (r: u64)
        ensures
            r == self@.next,
    {
        self.next_id
    }

    /// All items, in the order in which they were added.
    pub fn all(&self) -> (r: &Vec<MediaItem>)
        ensures
            r@ == self@.items,
    {
        &self.items
    }

    fn place_of_path(&self, role: MediaRole, path: &str) -> (r: Option<usize>)
        ensures
            match r {
                Some(i) => i < self@.items.len() && find_path(self@.items, role, path@) == Some(
                    self@.items[i as int],
                ),
                None => find_path(self@.items, role, path@) is None,
            },
    {
        let mut i: usize = 0;
        proof {
            assert(self.items@.skip(0) =~= self.items@);
        }
        while i < self.items.len()
            invariant
                i <= self.items.len(),
                find_path(self.items@, role, path@) == find_path(
                    self.items@.skip(i as int),
                    role,
                    path@,
                ),
            decreases self.items.len() - i,
        {
            proof {
                assert(self.items@.skip(i as int)[0] == self.items@[i as int]);
                assert(self.items@.skip(i as int).drop_first() =~= self.items@.skip(i + 1));
            }
            if self.items[i].role == role && same_path(self.items[i].path.as_str(), path) {
                return Some(i);
            }
            i = i + 1;
        }
        None
    }

    /// Adds the medium at `path` and selects it. A path that the library has already is selected
    /// again.
    pub fn add(&mut self, role: MediaRole, path: String) -> (r: Result<MediaId, MediaError>)
        ensures
            media_added(old(self)@, role, path, final(self)@, r),
    {
        let kind = match classify(path.as_str()) {
            Some(kind) => kind,
            None => return Err(MediaError::Unsupported { path }),
        };
        if role == MediaRole::Source && kind != MediaKind::Image {
            return Err(MediaError::SourceMustBeImage { path });
        }
        if let Some(directory) = parent(path.as_str()) {
            if !directory.as_str().is_empty() {
                self.last_directory = Some(directory);
            }
        }
        match self.place_of_path(role, path.as_str()) {
            Some(i) => {
                let id = self.items[i].id;
                proof {
                    found_path_is_an_item(self.items@, role, path@);
                }
                match self.select(role, id) {
                    Ok(()) => Ok(id),
                    Err(e) => Err(e),
                }
            },
            None => {
                let id = MediaId(self.next_id);
                self.next_id = self.next_id.saturating_add(1);
                self.items.push(MediaItem { id, role, kind, path });
                proof {
                    assert(self.items@.last().id == id);
                    item_is_found(self.items@, self.items@.len() - 1);
                }
                match self.select(role, id) {
                    Ok(()) => Ok(id),
                    Err(e) => Err(e),
                }
            },
        }
    }

    /// The items of a role, in the order in which they were added.
    pub fn items(&self, role: MediaRole) -> (r: Vec<&MediaItem>)
        ensures
            r@.unref() == of_role(self@.items, role),
    {
        let mut r: Vec<&MediaItem> = Vec::new();
        let mut i: usize = 0;
        proof {
            assert(self.items@.take(0) =~= Seq::<MediaItem>::empty());
            assert(r@.unref() =~= Seq::<MediaItem>::empty());
        }
        while i < self.items.len()
            invariant
                i <= self.items.len(),
                r@.unref() == of_role(self.items@.take(i as int), role),
            decreases self.items.len() - i,
        {
            proof {
                assert(self.items@.take(i + 1).drop_last() =~= self.items@.take(i as int));
                assert(self.items@.take(i + 1).last() == self.items@[i as int]);
            }
            let ghost before = r@;
            if self.items[i].role == role {
                r.push(&self.items[i]);
                proof {
                    assert(r@.unref() =~= before.unref().push(self.items@[i as int]));
                }
            }
            i = i + 1;
        }
        proof {
            assert(self.items@.take(self.items.len() as int) =~= self.items@);
        }
        r
    }

    /// The item with the given identifier.
    pub fn item(&self, id: MediaId) -> (r: Option<&MediaItem>)
        ensures
            match r {
                Some(item) => find_item(self@.items, id) == Some(*item),
                None => find_item(self@.items, id) is None,
            },
    {
        let mut i: usize = 0;
        proof {
            assert(self.items@.skip(0) =~= self.items@);
        }
        while i < self.items.len()
            invariant
                i <= self.items.len(),
                find_item(self.items@, id) == find_item(self.items@.skip(i as int), id),
            decreases self.items.len() - i,
        {
            proof {
                assert(self.items@.skip(i as int)[0] == self.items@[i as int]);
                assert(self.items@.skip(i as int).drop_first() =~= self.items@.skip(i + 1));
            }
            if self.items[i].id == id {
                return Some(&self.items[i]);
            }
            i = i + 1;
        }
        None
    }

    /// The selected item of a role.
    pub fn selected(&self, role: MediaRole) -> (r: Option<MediaId>)
        ensures
            r == self@.chosen(role),
    {
        match role {
            MediaRole::Target => self.selected_target,
            MediaRole::Source => self.selected_source,
        }
    }

    /// Selects an item for a role.
    pub fn select(&mut self, role: MediaRole, id: MediaId) -> (r: Result<(), MediaError>)
        ensures
            media_selected(old(self)@, role, id, final(self)@, r),
    {
        match self.item(id) {
            None => return Err(MediaError::UnknownId(id)),
            Some(item) => {
                if item.role != role {
                    return Err(MediaError::WrongRole { id, role });
                }
            },
        }
        match role {
            MediaRole::Target => self.selected_target = Some(id),
            MediaRole::Source => self.selected_source = Some(id),
        }
        Ok(())
    }

    /// Removes an item; where it was selected nothing is any more. Says whether it was there.
    pub fn remove(&mut self, id: MediaId) -> (r: bool)
        ensures
            r == (find_item(old(self)@.items, id) is Some),
            final(self)@ == old(self)@.without(id),
    {
        let there = self.item(id).is_some();
        let ghost before = self.items@;
        let mut all: Vec<MediaItem> = Vec::new();
        std::mem::swap(&mut all, &mut self.items);
        let mut kept: Vec<MediaItem> = Vec::new();
        let ghost mut done: int = 0;
        proof {
            assert(before.take(0) =~= Seq::<MediaItem>::empty());
            assert(before.skip(0) =~= before);
        }
        while all.len() > 0
            invariant
                0 <= done <= before.len(),
                all@ == before.skip(done),
                kept@ == without_id(before.take(done), id),
            decreases all.len(),
        {
            let item: MediaItem = all.remove(0);
            proof {
                assert(item == before[done]);
                assert(before.take(done + 1).drop_last() =~= before.take(done));
                assert(all@ =~= before.skip(done + 1));
                done = done + 1;
            }
            if item.id != id {
                kept.push(item);
            }
        }
        proof {
            assert(before.take(done) =~= before);
        }
        self.items = kept;
        if let Some(selected) = self.selected_target {
            if selected == id {
                self.selected_target = None;
            }
        }
        if let Some(selected) = self.selected_source {
            if selected == id {
                self.selected_source = None;
            }
        }
        there
    }

    /// Removes all items of a role and gives their identifiers back.
    pub fn clear(&mut self, role: MediaRole) -> (r: Vec<MediaId>)
        ensures
            r@ == of_role(old(self)@.items, role).map_values(|item: MediaItem| item.id),
            final(self)@ == old(self)@.without_all(role),
    {
        let ghost before = self.items@;
        let mut all: Vec<MediaItem> = Vec::new();
        std::mem::swap(&mut all, &mut self.items);
        let mut kept: Vec<MediaItem> = Vec::new();
        let mut removed: Vec<MediaId> = Vec::new();
        let ghost mut done: int = 0;
        proof {
            assert(before.take(0) =~= Seq::<MediaItem>::empty());
            assert(before.skip(0) =~= before);
            assert(removed@ =~= of_role(before.take(0), role).map_values(
                |item: MediaItem| item.id,
            ));
        }
        while all.len() > 0
            invariant
                0 <= done <= before.len(),
                all@ == before.skip(done),
                kept@ == without_role(before.take(done), role),
                removed@ == of_role(before.take(done), role).map_values(
                    |item: MediaItem| item.id,
                ),
            decreases all.len(),
        {
            let item: MediaItem = all.remove(0);
            let ghost ids = removed@;
            proof {
                assert(item == before[done]);
                assert(before.take(done + 1).drop_last() =~= before.take(done));
                assert(before.take(done + 1).last() == item);
                assert(all@ =~= before.skip(done + 1));
                done = done + 1;
            }
            if item.role == role {
                removed.push(item.id);
                proof {
                    assert(removed@ =~= of_role(before.take(done), role).map_values(
                        |item: MediaItem| item.id,
                    ));
                }
            } else {
                kept.push(item);
            }
        }
        proof {
            assert(before.take(done) =~= before);
        }
        self.items = kept;
        match role {
            MediaRole::Target => self.selected_target = None,
            MediaRole::Source => self.selected_source = None,
        }
        removed
    }

    /// The directory that a medium was added from last.
    pub fn last_directory(&self) -> (r: Option<&String>)
        ensures
            match r {
                Some(directory) => self@.directory == Some(directory@),
                None => self@.directory is None,
            },
    {
        match &self.last_directory {
            Some(directory) => Some(directory),
            None => None,
        }
    }
}

/// Something is found under the identifier of every item.
proof fn item_is_found(items: Seq<MediaItem>, i: int)
    requires
        0 <= i < items.len(),
    ensures
        find_item(items, items[i].id) is Some,
    decreases items.len(),
{
    if items[0].id != items[i].id {
        assert(items.drop_first()[i - 1] == items[i]);
        item_is_found(items.drop_first(), i - 1);
    }
}

/// What is found by its path is an item of the library.
pub proof fn found_path_is_an_item(items: Seq<MediaItem>, role: MediaRole, path: Seq<char>)
    ensures
        match find_path(items, role, path) {
            Some(item) => item.role == role && path_equals(item.path@, path) && find_item(
                items,
                item.id,
            ) is Some && items.contains(item),
            None => true,
        },
    decreases items.len(),
{
    if items.len() > 0 {
        if items[0].role == role && path_equals(items[0].path@, path) {
            assert(items.contains(items[0]));
        } else {
            let rest = items.drop_first();
            found_path_is_an_item(rest, role, path);
            if let Some(item) = find_path(rest, role, path) {
                let i = choose|i: int| 0 <= i < rest.len() && rest[i] == item;
                assert(items[i + 1] == item);
                item_is_found(items, i + 1);
            }
        }
    }
}

/// Where identifiers are unique, every item is found under its own.
pub proof fn unique_item_is_found(items: Seq<MediaItem>, i: int)
    requires
        forall|a: int, b: int|
            0 <= a < b < items.len() ==> (#[trigger] items[a]).id != (#[trigger] items[b]).id,
        0 <= i < items.len(),
    ensures
        find_item(items, items[i].id) == Some(items[i]),
    decreases items.len(),
{
    if i > 0 {
        assert(items[0].id != items[i].id);
        let rest = items.drop_first();
        assert forall|a: int, b: int| 0 <= a < b < rest.len() implies (#[trigger] rest[a]).id != (
        #[trigger] rest[b]).id by {
            assert(rest[a] == items[a + 1] && rest[b] == items[b + 1]);
        }
        assert(rest[i - 1] == items[i]);
        unique_item_is_found(rest, i - 1);
    }
}

/// An added medium of a well-formed library is selected, and the library stays well-formed while
/// identifiers are left.
pub proof fn added_medium_is_selected(
    library: Library,
    role: MediaRole,
    kind: MediaKind,
    path: String,
)
    requires
        library.wf(),
        library.next < u64::MAX,
    ensures
        ({
            let (after, id) = library.placed(role, kind, path);
            &&& after.selectable(role, id)
            &&& after.with_chosen(role, Some(id)).wf()
        }),
{
    let (after, id) = library.placed(role, kind, path);
    let items = library.items;
    match find_path(items, role, path@) {
        Some(item) => {
            found_path_is_an_item(items, role, path@);
            let i = choose|i: int| 0 <= i < items.len() && items[i] == item;
            unique_item_is_found(items, i);
        },
        None => {
            let last = after.items.len() - 1;
            assert forall|a: int, b: int| 0 <= a < b < after.items.len() implies (
            #[trigger] after.items[a]).id != (#[trigger] after.items[b]).id by {
                assert(after.items[a] == items[a]);
                assert(items[a].id.0 < library.next);
            }
            unique_item_is_found(after.items, last);
            if library.target is Some {
                selection_survives_growth(items, after.items.last(), library.target->0);
            }
            if library.source is Some {
                selection_survives_growth(items, after.items.last(), library.source->0);
            }
            assert(after.items =~= items.push(after.items.last()));
        },
    }
}

/// What is found by its identifier stays found when an item is added.
pub proof fn selection_survives_growth(items: Seq<MediaItem>, item: MediaItem, id: MediaId)
    requires
        find_item(items, id) is Some,
    ensures
        find_item(items.push(item), id) == find_item(items, id),
    decreases items.len(),
{
    if items.len() > 0 {
        assert(items.push(item)[0] == items[0]);
        if items[0].id != id {
            assert(items.push(item).drop_first() =~= items.drop_first().push(item));
            selection_survives_growth(items.drop_first(), item, id);
        }
    }
}

/// No item has a path that is not found.
proof fn path_is_not_there(items: Seq<MediaItem>, role: MediaRole, path: Seq<char>, i: int)
    requires
        find_path(items, role, path) is None,
        0 <= i < items.len(),
        items[i].role == role,
    ensures
        !path_equals(items[i].path@, path),
    decreases items.len(),
{
    if i > 0 {
        assert(items.drop_first()[i - 1] == items[i]);
        path_is_not_there(items.drop_first(), role, path, i - 1);
    }
}

/// Adding a medium keeps what every library keeps: no two items of a role share a path, and every
/// source is an image.
pub proof fn adding_keeps_paths_apart(
    before: Library,
    role: MediaRole,
    path: String,
    after: Library,
    r: Result<MediaId, MediaError>,
)
    requires
        before.sorted_out(),
        media_added(before, role, path, after, r),
    ensures
        after.sorted_out(),
{
    if find_path(before.items, role, path@) is None && after.items.len() > before.items.len() {
        let n = before.items.len() as int;
        assert forall|i: int, j: int|
            0 <= i < j < after.items.len() && after.items[i].role
                == after.items[j].role implies !path_equals(
            (#[trigger] after.items[i]).path@,
            (#[trigger] after.items[j]).path@,
        ) by {
            assert(after.items[i] == before.items[i]);
            if j == n {
                path_is_not_there(before.items, role, path@, i);
            } else {
                assert(after.items[j] == before.items[j]);
            }
        }
        assert forall|i: int| 0 <= i < after.items.len() implies {
            &&& kind_of((#[trigger] after.items[i]).path@) == Some(after.items[i].kind)
            &&& after.items[i].role == MediaRole::Source ==> after.items[i].kind
                == MediaKind::Image
        } by {
            if i < n {
                assert(after.items[i] == before.items[i]);
            }
        }
    }
}

/// Selecting an item keeps a library well-formed, and changes no item.
pub proof fn selecting_keeps_a_library(
    before: Library,
    role: MediaRole,
    id: MediaId,
    after: Library,
    r: Result<(), MediaError>,
)
    requires
        media_selected(before, role, id, after, r),
    ensures
        after.items == before.items,
        before.wf() ==> after.wf(),
        before.sorted_out() ==> after.sorted_out(),
{
}

/// `kept` are some of `items`, in their order.
pub open spec fn kept_in_order(kept: Seq<MediaItem>, items: Seq<MediaItem>, at: Seq<int>) -> bool {
    &&& at.len() == kept.len()
    &&& forall|i: int|
        0 <= i < kept.len() ==> 0 <= #[trigger] at[i] < items.len() && items[at[i]] == kept[i]
    &&& forall|i: int, j: int| 0 <= i < j < kept.len() ==> #[trigger] at[i] < #[trigger] at[j]
}

/// One item more than those that are kept.
proof fn keeping_goes_on(kept: Seq<MediaItem>, items: Seq<MediaItem>, at: Seq<int>)
    requires
        items.len() > 0,
        kept_in_order(kept, items.drop_last(), at),
    ensures
        kept_in_order(kept, items, at),
        kept_in_order(kept.push(items.last()), items, at.push(items.len() - 1)),
{
    let more = kept.push(items.last());
    let there = at.push(items.len() - 1);
    assert forall|i: int| 0 <= i < more.len() implies 0 <= #[trigger] there[i] < items.len()
        && items[there[i]] == more[i] by {
        if i < kept.len() {
            assert(there[i] == at[i] && items.drop_last()[at[i]] == kept[i]);
        }
    }
    assert forall|i: int| 0 <= i < kept.len() implies 0 <= #[trigger] at[i] < items.len()
        && items[at[i]] == kept[i] by {
        assert(items.drop_last()[at[i]] == kept[i]);
    }
    assert forall|i: int, j: int| 0 <= i < j < more.len() implies #[trigger] there[i]
        < #[trigger] there[j] by {
        assert(there[i] == at[i]);
        if j < kept.len() {
            assert(there[j] == at[j]);
        }
    }
}

/// The items of a role are some of the items, in their order, and none of another role.
pub proof fn role_keeps_order(items: Seq<MediaItem>, role: MediaRole) -> (at: Seq<int>)
    ensures
        kept_in_order(of_role(items, role), items, at),
        forall|i: int|
            0 <= i < of_role(items, role).len() ==> (#[trigger] of_role(items, role)[i]).role
                == role,
        forall|k: int|
            0 <= k < items.len() && items[k].role == role ==> of_role(items, role).contains(
                #[trigger] items[k],
            ),
    decreases items.len(),
{
    if items.len() == 0 {
        Seq::empty()
    } else {
        let front = items.drop_last();
        let before = of_role(front, role);
        let at = role_keeps_order(front, role);
        keeping_goes_on(before, items, at);
        let all = of_role(items, role);
        assert forall|k: int|
            0 <= k < items.len() && items[k].role == role implies all.contains(
            #[trigger] items[k],
        ) by {
            if k < front.len() {
                assert(front[k] == items[k]);
                let i = before.index_of(items[k]);
                assert(all[i] == items[k]);
            } else {
                assert(all[before.len() as int] == items[k]);
            }
        }
        if items.last().role == role {
            at.push(items.len() - 1)
        } else {
            at
        }
    }
}

/// The items that stay when a role is cleared are some of the items, in their order, and all of
/// another role.
proof fn other_roles_keep_order(items: Seq<MediaItem>, role: MediaRole) -> (at: Seq<int>)
    ensures
        kept_in_order(without_role(items, role), items, at),
        forall|k: int|
            0 <= k < items.len() && items[k].role != role ==> without_role(items, role).contains(
                #[trigger] items[k],
            ),
    decreases items.len(),
{
    if items.len() == 0 {
        Seq::empty()
    } else {
        let front = items.drop_last();
        let before = without_role(front, role);
        let at = other_roles_keep_order(front, role);
        keeping_goes_on(before, items, at);
        let all = without_role(items, role);
        assert forall|k: int|
            0 <= k < items.len() && items[k].role != role implies all.contains(
            #[trigger] items[k],
        ) by {
            if k < front.len() {
                assert(front[k] == items[k]);
                let i = before.index_of(items[k]);
                assert(all[i] == items[k]);
            } else {
                assert(all[before.len() as int] == items[k]);
            }
        }
        if items.last().role != role {
            at.push(items.len() - 1)
        } else {
            at
        }
    }
}

/// The items that stay when one is removed are some of the items, in their order.
proof fn other_ids_keep_order(items: Seq<MediaItem>, id: MediaId) -> (at: Seq<int>)
    ensures
        kept_in_order(without_id(items, id), items, at),
        forall|k: int|
            0 <= k < items.len() && items[k].id != id ==> without_id(items, id).contains(
                #[trigger] items[k],
            ),
    decreases items.len(),
{
    if items.len() == 0 {
        Seq::empty()
    } else {
        let front = items.drop_last();
        let before = without_id(front, id);
        let at = other_ids_keep_order(front, id);
        keeping_goes_on(before, items, at);
        let all = without_id(items, id);
        assert forall|k: int| 0 <= k < items.len() && items[k].id != id implies all.contains(
            #[trigger] items[k],
        ) by {
            if k < front.len() {
                assert(front[k] == items[k]);
                let i = before.index_of(items[k]);
                assert(all[i] == items[k]);
            } else {
                assert(all[before.len() as int] == items[k]);
            }
        }
        if items.last().id != id {
            at.push(items.len() - 1)
        } else {
            at
        }
    }
}

/// An item that is found is one of the items.
pub proof fn found_item_is_there(items: Seq<MediaItem>, id: MediaId) -> (i: int)
    requires
        find_item(items, id) is Some,
    ensures
        0 <= i < items.len(),
        items[i] == find_item(items, id)->0,
        items[i].id == id,
    decreases items.len(),
{
    if items[0].id == id {
        0
    } else {
        let i = found_item_is_there(items.drop_first(), id);
        assert(items.drop_first()[i] == items[i + 1]);
        i + 1
    }
}

/// A library with fewer items, in their order, keeps what a library keeps. So does its selection,
/// where the item that is selected stays.
proof fn fewer_items_keep_a_library(before: Library, after: Library, at: Seq<int>)
    requires
        kept_in_order(after.items, before.items, at),
        after.next == before.next,
    ensures
        before.sorted_out() ==> after.sorted_out(),
        before.wf() && (after.target is None || after.target == before.target && (
        before.selectable(MediaRole::Target, after.target->0) ==> after.items.contains(
            find_item(before.items, after.target->0)->0,
        ))) && (after.source is None || after.source == before.source && (before.selectable(
            MediaRole::Source,
            after.source->0,
        ) ==> after.items.contains(find_item(before.items, after.source->0)->0))) ==> after.wf(),
{
    let items = after.items;
    if before.sorted_out() {
        assert forall|i: int, j: int|
            0 <= i < j < items.len() && items[i].role == items[j].role implies !path_equals(
            (#[trigger] items[i]).path@,
            (#[trigger] items[j]).path@,
        ) by {
            assert(at[i] < at[j]);
            assert(before.items[at[i]] == items[i] && before.items[at[j]] == items[j]);
        }
        assert forall|i: int| 0 <= i < items.len() implies {
            &&& kind_of((#[trigger] items[i]).path@) == Some(items[i].kind)
            &&& items[i].role == MediaRole::Source ==> items[i].kind == MediaKind::Image
        } by {
            assert(before.items[at[i]] == items[i]);
        }
    }
    if before.wf() {
        assert forall|i: int| 0 <= i < items.len() implies (#[trigger] items[i]).id.0
            < after.next by {
            assert(before.items[at[i]] == items[i]);
        }
        assert forall|i: int, j: int| 0 <= i < j < items.len() implies (#[trigger] items[i]).id != (
        #[trigger] items[j]).id by {
            assert(at[i] < at[j]);
            assert(before.items[at[i]] == items[i] && before.items[at[j]] == items[j]);
        }
        if let Some(id) = after.target {
            if after.target == before.target && items.contains(find_item(before.items, id)->0) {
                let k = found_item_is_there(before.items, id);
                unique_item_is_found(items, items.index_of(before.items[k]));
            }
        }
        if let Some(id) = after.source {
            if after.source == before.source && items.contains(find_item(before.items, id)->0) {
                let k = found_item_is_there(before.items, id);
                unique_item_is_found(items, items.index_of(before.items[k]));
            }
        }
    }
}

/// Removing an item keeps a library well-formed, the paths of a role apart, and sources images.
pub proof fn removing_keeps_a_library(library: Library, id: MediaId)
    ensures
        library.wf() ==> library.without(id).wf(),
        library.sorted_out() ==> library.without(id).sorted_out(),
{
    let at = other_ids_keep_order(library.items, id);
    fewer_items_keep_a_library(library, library.without(id), at);
    if library.wf() {
        if let Some(selected) = library.target {
            let _ = found_item_is_there(library.items, selected);
        }
        if let Some(selected) = library.source {
            let _ = found_item_is_there(library.items, selected);
        }
    }
}

/// Clearing a role keeps a library well-formed, the paths of a role apart, and sources images.
pub proof fn clearing_keeps_a_library(library: Library, role: MediaRole)
    ensures
        library.wf() ==> library.without_all(role).wf(),
        library.sorted_out() ==> library.without_all(role).sorted_out(),
{
    let at = other_roles_keep_order(library.items, role);
    fewer_items_keep_a_library(library, library.without_all(role), at);
    if library.wf() {
        if let Some(selected) = library.target {
            let _ = found_item_is_there(library.items, selected);
        }
        if let Some(selected) = library.source {
            let _ = found_item_is_there(library.items, selected);
        }
    }
}

proof fn path_is_found_again(items: Seq<MediaItem>, item: MediaItem, path: Seq<char>)
    requires
        path_equals(item.path@, path),
    ensures
        find_path(items, item.role, path) is None ==> find_path(items.push(item), item.role, path)
            == Some(item),
        find_path(items, item.role, path) is Some ==> find_path(items.push(item), item.role, path)
            == find_path(items, item.role, path),
    decreases items.len(),
{
    if items.len() > 0 {
        assert(items.push(item)[0] == items[0]);
        assert(items.push(item).drop_first() =~= items.drop_first().push(item));
        path_is_found_again(items.drop_first(), item, path);
    } else {
        assert(items.push(item)[0] == item);
    }
}

/// Adding a path that the library has already adds no item: the item that it went to the first
/// time is the one it goes to again.
pub proof fn adding_again_adds_nothing(
    library: Library,
    role: MediaRole,
    kind: MediaKind,
    path: String,
)
    ensures
        ({
            let (after, id) = library.placed(role, kind, path);
            let (again, same) = after.placed(role, kind, path);
            same == id && again.items == after.items
        }),
{
    let (after, id) = library.placed(role, kind, path);
    if find_path(library.items, role, path@) is None {
        path_is_found_again(library.items, after.items.last(), path@);
    }
}

/// An entry of a directory: a file, a directory with its own entries, or something else.
#[derive(Debug, PartialEq, Eq)]
pub enum DirectoryEntry {
    File(String),
    Directory(Vec<DirectoryEntry>),
    Other,
}

/// A file that can be added for a role.
pub open spec fn addable(path: Seq<char>, role: MediaRole) -> bool {
    match kind_of(path) {
        Some(kind) => role == MediaRole::Target || kind == MediaKind::Image,
        None => false,
    }
}

/// The paths that an entry gives for a role.
pub open spec fn found_in(entry: DirectoryEntry, role: MediaRole, recursive: bool) -> Seq<String>
    decreases entry, 0nat,
{
    match entry {
        DirectoryEntry::File(path) => if addable(path@, role) {
            seq![path]
        } else {
            Seq::empty()
        },
        DirectoryEntry::Directory(entries) => if recursive {
            found_among(entries@, role, recursive)
        } else {
            Seq::empty()
        },
        DirectoryEntry::Other => Seq::empty(),
    }
}

/// The paths that entries give for a role, in their order.
pub open spec fn found_among(
    entries: Seq<DirectoryEntry>,
    role: MediaRole,
    recursive: bool,
) -> Seq<String>
    decreases entries, entries.len(),
{
    if entries.len() == 0 {
        Seq::empty()
    } else {
        found_among(entries.drop_last(), role, recursive) + found_in(
            entries.last(),
            role,
            recursive,
        )
    }
}

fn discover_media_into(
    entries: &Vec<DirectoryEntry>,
    role: MediaRole,
    recursive: bool,
    paths: &mut Vec<String>,
)
    ensures
        final(paths)@ == old(paths)@ + found_among(entries@, role, recursive),
    decreases entries,
{
    let ghost before = paths@;
    let mut i: usize = 0;
    proof {
        assert(entries@.take(0) =~= Seq::<DirectoryEntry>::empty());
        assert(paths@ =~= before + found_among(entries@.take(0), role, recursive));
    }
    while i < entries.len()
        invariant
            i <= entries.len(),
            paths@ == before + found_among(entries@.take(i as int), role, recursive),
        decreases entries.len() - i,
    {
        proof {
            assert(entries@.take(i + 1).drop_last() =~= entries@.take(i as int));
            assert(entries@.take(i + 1).last() == entries@[i as int]);
            reveal_with_fuel(found_in, 2);
            reveal_with_fuel(found_among, 2);
            assert(found_among(entries@.take(i + 1), role, recursive) == found_among(
                entries@.take(i as int),
                role,
                recursive,
            ) + found_in(entries@[i as int], role, recursive));
        }
        match &entries[i] {
            DirectoryEntry::File(path) => {
                let wanted = match classify(path.as_str()) {
                    Some(kind) => role == MediaRole::Target || kind == MediaKind::Image,
                    None => false,
                };
                if wanted {
                    paths.push(path.clone());
                }
            },
            DirectoryEntry::Directory(inner) => {
                if recursive {
                    discover_media_into(inner, role, recursive, paths);
                }
            },
            DirectoryEntry::Other => {},
        }
        proof {
            assert(paths@ =~= before + found_among(entries@.take(i + 1), role, recursive));
        }
        i = i + 1;
    }
    proof {
        assert(entries@.take(entries.len() as int) =~= entries@);
    }
}

/// `paths` are the media of a directory, in ascending order and each once.
pub open spec fn discovered(
    entries: Seq<DirectoryEntry>,
    role: MediaRole,
    recursive: bool,
    paths: Seq<String>,
) -> bool {
    let found = found_among(entries, role, recursive);
    &&& paths_ascending(paths)
    &&& forall|i: int| 0 <= i < paths.len() ==> found.contains(#[trigger] paths[i])
    &&& forall|i: int| 0 <= i < found.len() ==> holds_path(paths, (#[trigger] found[i])@)
}

/// The media among the entries of a directory that can be added for a role, in the order of their
/// paths and none twice. Inner directories are looked into where that is wanted.
pub fn discover_media(entries: &Vec<DirectoryEntry>, role: MediaRole, recursive: bool) -> (r: Vec<
    String,
>)
    ensures
        discovered(entries@, role, recursive, r@),
{
    let mut paths: Vec<String> = Vec::new();
    discover_media_into(entries, role, recursive, &mut paths);
    proof {
        assert(paths@ =~= found_among(entries@, role, recursive));
    }
    sorted_paths(paths)
}

/// Whatever stands before the dot, a file is added as an image where its name ends in `.jpg`,
/// `.jpeg`, `.png`, `.bmp` or `.webp` and as a video where it ends in `.mp4`, `.avi`, `.mkv`, `.mov`
/// or `.webm`, letter case aside, and not at all with any other extension.
pub proof fn files_are_added_by_extension(front: Seq<char>, ending: Seq<char>)
    requires
        front.len() > 0,
        front.last() != '/',
        ending.len() > 0,
        free_of(ending, '.'),
        free_of(ending, '/'),
    ensures
        kind_of(front + seq!['.'] + ending) == Some(MediaKind::Image) <==> {
            ||| spells(ending, "jpg"@)
            ||| spells(ending, "jpeg"@)
            ||| spells(ending, "png"@)
            ||| spells(ending, "bmp"@)
            ||| spells(ending, "webp"@)
        },
        kind_of(front + seq!['.'] + ending) == Some(MediaKind::Video) <==> {
            ||| spells(ending, "mp4"@)
            ||| spells(ending, "avi"@)
            ||| spells(ending, "mkv"@)
            ||| spells(ending, "mov"@)
            ||| spells(ending, "webm"@)
        },
{
    let path = front + seq!['.'] + ending;
    extension_reads_back(front, ending);
    media_are_told_by_extension(front, ending);
    no_image_is_a_video(path);
}

/// The editor and the command line tell the same files for images and for videos.
pub proof fn editor_and_command_line_agree(path: Seq<char>)
    ensures
        kind_of(path) == Some(MediaKind::Image) <==> names_image(path),
        kind_of(path) == Some(MediaKind::Video) <==> names_video(path),
{
    no_image_is_a_video(path);
}

} // verus!
