//! Which pictures of faces have to be loaded to be shown, and which are no longer shown.

use vstd::prelude::*;

use crate::faces::TargetFace;
use crate::faces::{texts, Faces};
use crate::ordered::{entry_is_unique, keys_are_listed, keys_of, listed, map_of};
use crate::ordered::ascending;
use crate::session::jobs::{source_media, text_pairs};
use crate::session::state::ExtraGuiState;
use crate::text::same_text;

verus! {

/// The texts of a list that are not among others, in their order.
pub open spec fn not_among(list: Seq<Seq<char>>, others: Seq<Seq<char>>) -> Seq<Seq<char>>
    decreases list.len(),
{
    if list.len() == 0 {
        Seq::empty()
    } else if others.contains(list.last()) {
        not_among(list.drop_last(), others)
    } else {
        not_among(list.drop_last(), others).push(list.last())
    }
}

/// The pairs of a list whose first text is not among others, in their order.
pub open spec fn pairs_not_among(
    list: Seq<(Seq<char>, Seq<char>)>,
    others: Seq<Seq<char>>,
) -> Seq<(Seq<char>, Seq<char>)>
    decreases list.len(),
{
    if list.len() == 0 {
        Seq::empty()
    } else if others.contains(list.last().0) {
        pairs_not_among(list.drop_last(), others)
    } else {
        pairs_not_among(list.drop_last(), others).push(list.last())
    }
}

fn is_held(list: &Vec<String>, id: &str) -> (r: bool)
    ensures
        r == texts(list@).contains(id@),
{
    let mut i: usize = 0;
    while i < list.len()
        invariant
            i <= list.len(),
            forall|j: int| 0 <= j < i ==> (#[trigger] list@[j])@ != id@,
        decreases list.len() - i,
    {
        if same_text(list[i].as_str(), id) {
            proof {
                assert(texts(list@)[i as int] == id@);
            }
            return true;
        }
        i = i + 1;
    }
    false
}

/// The pictures that are held but no longer shown.
pub fn stale_pictures(held: &Vec<String>, shown: &Vec<String>) -> (r: Vec<String>)
    ensures
        texts(r@) == not_among(texts(held@), texts(shown@)),
{
    let mut r: Vec<String> = Vec::new();
    let mut i: usize = 0;
    let ghost list = texts(held@);
    proof {
        assert(texts(r@) =~= not_among(list.take(0), texts(shown@)));
    }
    while i < held.len()
        invariant
            i <= held.len(),
            list == texts(held@),
            texts(r@) == not_among(list.take(i as int), texts(shown@)),
        decreases held.len() - i,
    {
        proof {
            assert(list.take(i + 1).drop_last() =~= list.take(i as int));
            assert(list.take(i + 1).last() == held@[i as int]@);
        }
        if !is_held(shown, held[i].as_str()) {
            let ghost before = r@;
            r.push(held[i].clone());
            proof {
                assert(texts(r@) =~= texts(before).push(held@[i as int]@));
            }
        }
        i = i + 1;
    }
    proof {
        assert(list.take(held@.len() as int) =~= list);
    }
    r
}

/// The targets among the first ids that have a picture that is not held.
pub open spec fn pictures_missing(
    faces: Faces,
    ids: Seq<Seq<char>>,
    held: Seq<Seq<char>>,
) -> Seq<Seq<char>>
    decreases ids.len(),
{
    if ids.len() == 0 {
        Seq::empty()
    } else {
        let before = pictures_missing(faces, ids.drop_last(), held);
        let id = ids.last();
        if faces.targets[id].crop is Some && !held.contains(faces.targets[id].id) {
            before.push(faces.targets[id].id)
        } else {
            before
        }
    }
}

impl ExtraGuiState {
    /// The target faces whose pictures have to be loaded.
    pub fn missing_target_pictures(&self, held: &Vec<String>) -> (r: Vec<String>)
        ensures
            texts(r@) == pictures_missing(
                self@.faces,
                listed(self@.faces.targets.dom()),
                texts(held@),
            ),
    {
        let targets: Vec<&TargetFace> = self.faces.targets();
        let ghost faces = self.faces@;
        let ghost entries = self.faces.target_entries();
        let ghost keys = keys_of(entries);
        proof {
            self.faces.entries_are_the_view();
            keys_are_listed(entries);
            assert(faces.targets.dom() =~= map_of(entries).dom());
        }
        let mut r: Vec<String> = Vec::new();
        let mut i: usize = 0;
        proof {
            assert(texts(r@) =~= pictures_missing(faces, keys.take(0), texts(held@)));
        }
        while i < targets.len()
            invariant
                i <= targets.len(),
                ascending(entries),
                keys == keys_of(entries),
                targets@.len() == entries.len(),
                faces.targets == map_of(entries).map_values(|t: TargetFace| t@),
                forall|j: int| 0 <= j < targets@.len() ==> *(#[trigger] targets@[j]) == entries[j].1,
                texts(r@) == pictures_missing(faces, keys.take(i as int), texts(held@)),
            decreases targets.len() - i,
        {
            let target: &TargetFace = targets[i];
            proof {
                entry_is_unique(entries, i as int);
                assert(keys.take(i + 1).drop_last() =~= keys.take(i as int));
                assert(keys.take(i + 1).last() == entries[i as int].0);
                assert(faces.targets[entries[i as int].0] == target@);
            }
            if target.crop.is_some() && !is_held(held, target.id.as_str()) {
                let ghost before = r@;
                r.push(target.id.clone());
                proof {
                    assert(texts(r@) =~= texts(before).push(target.id@));
                }
            }
            i = i + 1;
        }
        proof {
            assert(keys.take(targets@.len() as int) =~= keys);
        }
        r
    }

    /// The sources whose pictures have to be loaded, with the paths of these.
    pub fn missing_source_pictures(&self, held: &Vec<String>) -> (r: Vec<(String, String)>)
        ensures
            text_pairs(r@) == pairs_not_among(
                source_media(self@.faces, self@.media, listed(self@.faces.sources.dom())),
                texts(held@),
            ),
    {
        let all: Vec<(String, String)> = self.source_paths();
        let ghost list = text_pairs(all@);
        let mut r: Vec<(String, String)> = Vec::new();
        let mut i: usize = 0;
        proof {
            assert(text_pairs(r@) =~= pairs_not_among(list.take(0), texts(held@)));
        }
        while i < all.len()
            invariant
                i <= all.len(),
                list == text_pairs(all@),
                text_pairs(r@) == pairs_not_among(list.take(i as int), texts(held@)),
            decreases all.len() - i,
        {
            proof {
                assert(list.take(i + 1).drop_last() =~= list.take(i as int));
                assert(list.take(i + 1).last() == (all@[i as int].0@, all@[i as int].1@));
            }
            if !is_held(held, all[i].0.as_str()) {
                let ghost before = r@;
                r.push((all[i].0.clone(), all[i].1.clone()));
                proof {
                    assert(text_pairs(r@) =~= text_pairs(before).push(
                        (all@[i as int].0@, all@[i as int].1@),
                    ));
                }
            }
            i = i + 1;
        }
        proof {
            assert(list.take(all@.len() as int) =~= list);
        }
        r
    }
}

/// Once all missing pictures are loaded, none is missing.
pub proof fn loaded_pictures_are_not_missing(
    faces: Faces,
    ids: Seq<Seq<char>>,
    held: Seq<Seq<char>>,
)
    ensures
        pictures_missing(faces, ids, held + pictures_missing(faces, ids, held)) == Seq::<
            Seq<char>,
        >::empty(),
    decreases ids.len(),
{
    more_is_held(faces, ids, held, pictures_missing(faces, ids, held));
}

proof fn more_is_held(
    faces: Faces,
    ids: Seq<Seq<char>>,
    held: Seq<Seq<char>>,
    loaded: Seq<Seq<char>>,
)
    requires
        forall|i: int|
            0 <= i < pictures_missing(faces, ids, held).len() ==> loaded.contains(
                #[trigger] pictures_missing(faces, ids, held)[i],
            ),
    ensures
        pictures_missing(faces, ids, held + loaded) == Seq::<Seq<char>>::empty(),
    decreases ids.len(),
{
    if ids.len() > 0 {
        let rest = ids.drop_last();
        let missing = pictures_missing(faces, ids, held);
        let before = pictures_missing(faces, rest, held);
        assert forall|i: int| 0 <= i < before.len() implies loaded.contains(
            #[trigger] before[i],
        ) by {
            assert(missing[i] == before[i]);
        }
        more_is_held(faces, rest, held, loaded);
        let id = faces.targets[ids.last()].id;
        if faces.targets[ids.last()].crop is Some {
            if held.contains(id) {
                let k = held.index_of(id);
                assert((held + loaded)[k] == id);
            } else {
                assert(missing[missing.len() - 1] == id);
                let k = loaded.index_of(id);
                assert((held + loaded)[held.len() + k] == id);
            }
        }
    }
}

} // verus!
