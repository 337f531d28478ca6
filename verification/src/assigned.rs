//! Which embedding replaces a face: that of the identities assigned to it, and only where there is
//! none of them the one that was kept.

use vstd::prelude::*;

use crate::embeddings::{column, kth, merges, names_model, sorted, sound_embedding, vectors_of};
use crate::embeddings::{merge_result, mergeable, reduces, EvenMedian};
use crate::embeddings::{embedded, EmbeddingMergeMethod, EmbeddingStore};
use crate::faces::{chosen_embedding, embedding_assigned, merged_created};
use crate::faces::{FaceWorkspaceError, Faces, Merged, Target};
use crate::number::Single;
use crate::ordered::{every_set_is_listed, listed, lists};

verus! {

/// Some identity that is assigned to a target exists.
pub open spec fn has_identity(faces: Faces, target: Seq<char>) -> bool {
    ||| exists|id: Seq<char>| #[trigger]
        faces.targets[target].sources.contains(id) && faces.sources.dom().contains(id)
    ||| exists|id: Seq<char>| #[trigger]
        faces.targets[target].merged.contains(id) && faces.merged.dom().contains(id)
}

/// The identities assigned to a target are finitely many.
pub open spec fn countable(faces: Faces, target: Seq<char>) -> bool {
    faces.targets[target].sources.finite() && faces.targets[target].merged.finite()
}

proof fn sources_are_there(faces: Faces, ids: Seq<Seq<char>>)
    ensures
        faces.source_stores(ids).len() > 0 <==> exists|i: int|
            0 <= i < ids.len() && faces.sources.dom().contains(#[trigger] ids[i]),
    decreases ids.len(),
{
    if ids.len() > 0 {
        let front = ids.drop_last();
        sources_are_there(faces, front);
        let n = front.len() as int;
        if faces.sources.dom().contains(ids.last()) {
            assert(faces.sources.dom().contains(ids[n]));
        } else {
            if exists|i: int| 0 <= i < ids.len() && faces.sources.dom().contains(#[trigger] ids[i]) {
                let i = choose|i: int|
                    0 <= i < ids.len() && faces.sources.dom().contains(#[trigger] ids[i]);
                assert(front[i] == ids[i]);
            }
            if exists|i: int|
                0 <= i < front.len() && faces.sources.dom().contains(#[trigger] front[i]) {
                let i = choose|i: int|
                    0 <= i < front.len() && faces.sources.dom().contains(#[trigger] front[i]);
                assert(front[i] == ids[i]);
            }
        }
    }
}

proof fn merged_are_there(faces: Faces, ids: Seq<Seq<char>>)
    ensures
        faces.merged_stores(ids).len() > 0 <==> exists|i: int|
            0 <= i < ids.len() && faces.merged.dom().contains(#[trigger] ids[i]),
    decreases ids.len(),
{
    if ids.len() > 0 {
        let front = ids.drop_last();
        merged_are_there(faces, front);
        let n = front.len() as int;
        if faces.merged.dom().contains(ids.last()) {
            assert(faces.merged.dom().contains(ids[n]));
        } else {
            if exists|i: int| 0 <= i < ids.len() && faces.merged.dom().contains(#[trigger] ids[i]) {
                let i = choose|i: int|
                    0 <= i < ids.len() && faces.merged.dom().contains(#[trigger] ids[i]);
                assert(front[i] == ids[i]);
            }
            if exists|i: int|
                0 <= i < front.len() && faces.merged.dom().contains(#[trigger] front[i]) {
                let i = choose|i: int|
                    0 <= i < front.len() && faces.merged.dom().contains(#[trigger] front[i]);
                assert(front[i] == ids[i]);
            }
        }
    }
}

/// Embeddings are assigned to a target exactly where some identity that is assigned to it exists.
pub proof fn identities_bring_embeddings(faces: Faces, target: Seq<char>)
    requires
        faces.targets.dom().contains(target),
        countable(faces, target),
    ensures
        faces.assigned_stores(Some(target)).len() > 0 <==> has_identity(faces, target),
{
    let sources = faces.targets[target].sources;
    let merged = faces.targets[target].merged;
    every_set_is_listed(sources);
    every_set_is_listed(merged);
    let own = listed(sources);
    let blended = listed(merged);
    sources_are_there(faces, own);
    merged_are_there(faces, blended);
    if exists|id: Seq<char>| #[trigger] sources.contains(id) && faces.sources.dom().contains(id) {
        let id = choose|id: Seq<char>| #[trigger]
            sources.contains(id) && faces.sources.dom().contains(id);
        assert(own.contains(id));
        let i = choose|i: int| 0 <= i < own.len() && own[i] == id;
        assert(faces.sources.dom().contains(own[i]));
    }
    if exists|id: Seq<char>| #[trigger] merged.contains(id) && faces.merged.dom().contains(id) {
        let id = choose|id: Seq<char>| #[trigger]
            merged.contains(id) && faces.merged.dom().contains(id);
        assert(blended.contains(id));
        let i = choose|i: int| 0 <= i < blended.len() && blended[i] == id;
        assert(faces.merged.dom().contains(blended[i]));
    }
    if faces.source_stores(own).len() > 0 {
        let i = choose|i: int| 0 <= i < own.len() && faces.sources.dom().contains(#[trigger] own[i]);
        assert(own.contains(own[i]));
        assert(sources.contains(own[i]));
    }
    if faces.merged_stores(blended).len() > 0 {
        let i = choose|i: int|
            0 <= i < blended.len() && faces.merged.dom().contains(#[trigger] blended[i]);
        assert(blended.contains(blended[i]));
        assert(merged.contains(blended[i]));
    }
}

proof fn stores_do_not_hang_on_targets(a: Faces, b: Faces, ids: Seq<Seq<char>>)
    requires
        a.sources == b.sources,
        a.merged == b.merged,
    ensures
        a.source_stores(ids) == b.source_stores(ids),
        a.merged_stores(ids) == b.merged_stores(ids),
    decreases ids.len(),
{
    if ids.len() > 0 {
        stores_do_not_hang_on_targets(a, b, ids.drop_last());
    }
}

/// Where an identity assigned to a target exists, what was kept for the target counts for nothing:
/// with anything else kept in its place, the same outcomes are right.
pub proof fn kept_embedding_gives_way<
    F: Fn(Vec<Single>) -> Single,
    G: Fn(Single, Single) -> Single,
>(
    faces: Faces,
    target: Seq<char>,
    kept: Map<Seq<char>, Seq<Single>>,
    model: Seq<char>,
    method: EmbeddingMergeMethod,
    mean: F,
    midpoint: G,
    r: Result<Vec<Single>, FaceWorkspaceError>,
)
    requires
        faces.targets.dom().contains(target),
        countable(faces, target),
        has_identity(faces, target),
    ensures
        ({
            let other = Faces {
                targets: faces.targets.insert(
                    target,
                    Target { cache: kept, ..faces.targets[target] },
                ),
                ..faces
            };
            embedding_assigned(faces, target, model, method, mean, midpoint, r)
                <==> embedding_assigned(other, target, model, method, mean, midpoint, r)
        }),
{
    let other = Faces {
        targets: faces.targets.insert(target, Target { cache: kept, ..faces.targets[target] }),
        ..faces
    };
    identities_bring_embeddings(faces, target);
    stores_do_not_hang_on_targets(faces, other, listed(faces.targets[target].sources));
    stores_do_not_hang_on_targets(faces, other, listed(faces.targets[target].merged));
    assert(other.assigned_stores(Some(target)) == faces.assigned_stores(Some(target)));
}

/// Where no identity assigned to a target exists, what was kept for the target is what is used,
/// whatever the method.
pub proof fn kept_embedding_stands_in<
    F: Fn(Vec<Single>) -> Single,
    G: Fn(Single, Single) -> Single,
>(
    faces: Faces,
    target: Seq<char>,
    model: Seq<char>,
    method: EmbeddingMergeMethod,
    mean: F,
    midpoint: G,
    r: Result<Vec<Single>, FaceWorkspaceError>,
)
    requires
        faces.targets.dom().contains(target),
        countable(faces, target),
        !has_identity(faces, target),
        embedding_assigned(faces, target, model, method, mean, midpoint, r),
    ensures
        faces.targets[target].cache.dom().contains(model) ==> (r matches Ok(values) && values@
            == faces.targets[target].cache[model]),
        !faces.targets[target].cache.dom().contains(model) ==> r
            == Err::<Vec<Single>, FaceWorkspaceError>(FaceWorkspaceError::EmptySelection),
{
    identities_bring_embeddings(faces, target);
    let stores = faces.assigned_stores(Some(target));
    if !faces.targets[target].cache.dom().contains(model) {
        assert forall|m: Seq<char>| !(#[trigger] names_model(stores, m)) by {}
        let merged = choose|merged: Result<EmbeddingStore, FaceWorkspaceError>|
            {
                &&& #[trigger] merge_result(
                    stores,
                    method,
                    EvenMedian::Lower,
                    mean,
                    midpoint,
                    merged,
                )
                &&& match merged {
                    Err(e) => r == Err::<Vec<Single>, FaceWorkspaceError>(e),
                    Ok(store) => if embedded(store).dom().contains(model) {
                        r matches Ok(values) && values@ == embedded(store)[model]
                    } else {
                        r matches Err(FaceWorkspaceError::MissingModel(name)) && name@ == model
                    },
                }
            };
        if merged is Ok {
            let m = choose|m: Seq<char>| #[trigger] names_model(stores, m);
            assert(!names_model(stores, m));
        }
    }
}

/// Embeddings that can be used: of some length, and finite.
pub open spec fn sound(store: Map<Seq<char>, Seq<Single>>) -> bool {
    forall|m: Seq<char>| #[trigger]
        store.dom().contains(m) ==> sound_embedding(store[m])
}

proof fn only_value_is_the_median(x: Single, out: Single)
    requires
        kth(seq![x], 0, out),
    ensures
        out == x,
{
    broadcast use vstd::seq_lib::group_to_multiset_ensures;

    let s = choose|s: Seq<Single>|
        sorted(s) && s.to_multiset() == seq![x].to_multiset() && s[0] == out;
    let one = seq![x];
    assert(one.len() == 1 && s.len() == 1) by {
        assert(s.to_multiset().len() == s.len());
        assert(one.to_multiset().len() == one.len());
    }
    assert(s.contains(s[0]));
    assert(s.to_multiset().count(s[0]) > 0);
    assert(one.to_multiset().count(s[0]) > 0);
    assert(one.contains(s[0]));
}

/// The median of one store is what the store holds.
proof fn one_store_is_kept<F: Fn(Vec<Single>) -> Single, G: Fn(Single, Single) -> Single>(
    store: Map<Seq<char>, Seq<Single>>,
    model: Seq<char>,
    mean: F,
    midpoint: G,
    r: Result<Vec<Single>, FaceWorkspaceError>,
)
    requires
        sound(store),
        store.dom().contains(model),
        chosen_embedding(seq![store], model, EmbeddingMergeMethod::Median, mean, midpoint, r),
    ensures
        r matches Ok(values) && values@ == store[model],
{
    let stores = seq![store];
    let merged = choose|merged: Result<EmbeddingStore, FaceWorkspaceError>|
        {
            &&& #[trigger] merge_result(
                stores,
                EmbeddingMergeMethod::Median,
                EvenMedian::Lower,
                mean,
                midpoint,
                merged,
            )
            &&& match merged {
                Err(e) => r == Err::<Vec<Single>, FaceWorkspaceError>(e),
                Ok(s) => if embedded(s).dom().contains(model) {
                    r matches Ok(values) && values@ == embedded(s)[model]
                } else {
                    r matches Err(FaceWorkspaceError::MissingModel(name)) && name@ == model
                },
            }
        };
    assert(stores[0].dom().contains(model));
    assert(names_model(stores, model));
    assert forall|m: Seq<char>| #[trigger] names_model(stores, m) implies vectors_of(stores, m)
        == seq![store[m]] && mergeable(stores, m) by {
        assert(store.dom().contains(m));
        assert(stores.drop_last() =~= Seq::empty());
        assert(vectors_of(stores.drop_last(), m) =~= Seq::<Seq<Single>>::empty());
        assert(stores.last() == store);
        assert(vectors_of(stores, m) =~= seq![store[m]]);
    }
    match merged {
        Ok(s) => {
            let out = embedded(s)[model];
            assert(embedded(s).dom().contains(model));
            assert(merges(
                stores,
                model,
                EmbeddingMergeMethod::Median,
                EvenMedian::Lower,
                mean,
                midpoint,
                out,
            ));
            assert forall|i: int| 0 <= i < out.len() implies #[trigger] out[i]
                == store[model][i] by {
                let values = column(vectors_of(stores, model), i);
                assert(values =~= seq![store[model][i]]);
                assert(reduces(
                    EmbeddingMergeMethod::Median,
                    EvenMedian::Lower,
                    mean,
                    midpoint,
                    values,
                    out[i],
                ));
                only_value_is_the_median(store[model][i], out[i]);
            }
            assert(out =~= store[model]);
        },
        Err(FaceWorkspaceError::DimensionMismatch(m)) => {
            assert(mergeable(stores, m@));
        },
        Err(FaceWorkspaceError::NonFinite(m)) => {
            assert(mergeable(stores, m@));
        },
        Err(_) => {},
    }
}

proof fn one_id_is_listed(ids: Set<Seq<char>>, id: Seq<char>)
    requires
        ids == Set::<Seq<char>>::empty().insert(id),
    ensures
        listed(ids) == seq![id],
        ids.finite(),
{
    every_set_is_listed(ids);
    assert(lists(seq![id], ids)) by {
        assert forall|key: Seq<char>| #[trigger] ids.contains(key) <==> seq![id].contains(key) by {
            assert(seq![id][0] == id);
        }
    }
    crate::ordered::listing_is_unique(listed(ids), seq![id], ids);
}

proof fn nothing_is_listed(ids: Set<Seq<char>>)
    requires
        ids == Set::<Seq<char>>::empty(),
    ensures
        listed(ids) == Seq::<Seq<char>>::empty(),
{
    every_set_is_listed(ids);
    if listed(ids).len() > 0 {
        assert(listed(ids).contains(listed(ids)[0]));
        assert(ids.contains(listed(ids)[0]));
    }
    assert(listed(ids) =~= Seq::empty());
}

/// One source assigned to a target, and nothing else, replaces it with exactly the source's own
/// embedding, where the embeddings of the source are sound.
pub proof fn one_source_is_itself<F: Fn(Vec<Single>) -> Single, G: Fn(Single, Single) -> Single>(
    faces: Faces,
    target: Seq<char>,
    id: Seq<char>,
    model: Seq<char>,
    mean: F,
    midpoint: G,
    r: Result<Vec<Single>, FaceWorkspaceError>,
)
    requires
        faces.targets.dom().contains(target),
        faces.targets[target].sources == Set::<Seq<char>>::empty().insert(id),
        faces.targets[target].merged == Set::<Seq<char>>::empty(),
        faces.sources.dom().contains(id),
        faces.sources[id].embeddings.dom().contains(model),
        sound(faces.sources[id].embeddings),
        embedding_assigned(
            faces,
            target,
            model,
            EmbeddingMergeMethod::Median,
            mean,
            midpoint,
            r,
        ),
    ensures
        r matches Ok(values) && values@ == faces.sources[id].embeddings[model],
{
    one_id_is_listed(faces.targets[target].sources, id);
    nothing_is_listed(faces.targets[target].merged);
    let store = faces.sources[id].embeddings;
    assert(seq![id].drop_last() =~= Seq::<Seq<char>>::empty());
    assert(seq![id].last() == id);
    assert(faces.source_stores(seq![id].drop_last()) =~= Seq::empty());
    assert(faces.source_stores(seq![id]) =~= seq![store]);
    assert(faces.assigned_stores(Some(target)) =~= seq![store]);
    one_store_is_kept(store, model, mean, midpoint, r);
}

/// One source assigned to all faces, and nothing else, replaces them with exactly the source's own
/// embedding, where the embeddings of the source are sound.
pub proof fn one_source_for_all_is_itself<
    F: Fn(Vec<Single>) -> Single,
    G: Fn(Single, Single) -> Single,
>(
    faces: Faces,
    id: Seq<char>,
    model: Seq<char>,
    mean: F,
    midpoint: G,
    r: Result<Vec<Single>, FaceWorkspaceError>,
)
    requires
        faces.swap_sources == Set::<Seq<char>>::empty().insert(id),
        faces.swap_merged == Set::<Seq<char>>::empty(),
        faces.sources.dom().contains(id),
        faces.sources[id].embeddings.dom().contains(model),
        sound(faces.sources[id].embeddings),
        chosen_embedding(
            faces.assigned_stores(None),
            model,
            EmbeddingMergeMethod::Median,
            mean,
            midpoint,
            r,
        ),
    ensures
        r matches Ok(values) && values@ == faces.sources[id].embeddings[model],
{
    one_id_is_listed(faces.swap_sources, id);
    nothing_is_listed(faces.swap_merged);
    let store = faces.sources[id].embeddings;
    assert(seq![id].drop_last() =~= Seq::<Seq<char>>::empty());
    assert(seq![id].last() == id);
    assert(faces.source_stores(seq![id].drop_last()) =~= Seq::empty());
    assert(faces.source_stores(seq![id]) =~= seq![store]);
    assert(faces.assigned_stores(None) =~= seq![store]);
    one_store_is_kept(store, model, mean, midpoint, r);
}

/// The lower of two numbers in their total order.
pub open spec fn lower(a: Single, b: Single) -> Single {
    if a.total_rank() <= b.total_rank() {
        a
    } else {
        b
    }
}

/// The higher of two numbers in their total order.
pub open spec fn higher(a: Single, b: Single) -> Single {
    if a.total_rank() <= b.total_rank() {
        b
    } else {
        a
    }
}

proof fn order_of_two(a: Single, b: Single, k: int, x: Single)
    requires
        kth(seq![a, b], k, x),
    ensures
        k == 0 ==> x == lower(a, b),
        k == 1 ==> x == higher(a, b),
{
    broadcast use vstd::seq_lib::group_to_multiset_ensures;

    let two = seq![a, b];
    let s = choose|s: Seq<Single>|
        #![trigger sorted(s)]
        sorted(s) && s.to_multiset() == two.to_multiset() && 0 <= k < s.len() && s[k] == x;
    assert(two.len() == 2);
    assert(s.to_multiset().len() == s.len());
    assert(two.to_multiset().len() == 2);
    assert(s.len() == 2);
    assert(s.contains(s[0]) && s.contains(s[1]));
    assert(s.to_multiset().count(s[0]) > 0 && s.to_multiset().count(s[1]) > 0);
    assert(two.contains(s[0]) && two.contains(s[1]));
    assert(two[0] == a && two[1] == b);
    assert(two.contains(a) && two.contains(b));
    assert(two.to_multiset().count(a) > 0 && two.to_multiset().count(b) > 0);
    assert(s.contains(a) && s.contains(b));
    assert(s[0].total_rank() <= s[1].total_rank());
    if a.total_rank() == b.total_rank() {
        crate::number::total_rank_is_injective(a, b);
    }
}

proof fn median_of_two<F: Fn(Vec<Single>) -> Single, G: Fn(Single, Single) -> Single>(
    a: Map<Seq<char>, Seq<Single>>,
    b: Map<Seq<char>, Seq<Single>>,
    model: Seq<char>,
    even: EvenMedian,
    mean: F,
    midpoint: G,
    out: Seq<Single>,
    i: int,
)
    requires
        a.dom().contains(model),
        b.dom().contains(model),
        a[model].len() == b[model].len(),
        0 <= i < a[model].len(),
        merges(seq![a, b], model, EmbeddingMergeMethod::Median, even, mean, midpoint, out),
    ensures
        out.len() == a[model].len(),
        even is Average ==> call_ensures(
            midpoint,
            (lower(a[model][i], b[model][i]), higher(a[model][i], b[model][i])),
            out[i],
        ),
        even is Lower ==> out[i] == lower(a[model][i], b[model][i]),
{
    two_vectors(a, b, model);
    let values = column(vectors_of(seq![a, b], model), i);
    assert(values =~= seq![a[model][i], b[model][i]]);
    assert(reduces(EmbeddingMergeMethod::Median, even, mean, midpoint, values, out[i]));
    if even is Average {
        let (low, high) = choose|low: Single, high: Single|
            kth(values, 0, low) && kth(values, 1, high) && #[trigger] call_ensures(
                midpoint,
                (low, high),
                out[i],
            );
        order_of_two(a[model][i], b[model][i], 0, low);
        order_of_two(a[model][i], b[model][i], 1, high);
    } else {
        order_of_two(a[model][i], b[model][i], 0, out[i]);
    }
}

/// The median of two identities that replace a face is, value by value, the lower one.
pub proof fn replacing_pair_is_the_lower<
    F: Fn(Vec<Single>) -> Single,
    G: Fn(Single, Single) -> Single,
>(
    a: Map<Seq<char>, Seq<Single>>,
    b: Map<Seq<char>, Seq<Single>>,
    model: Seq<char>,
    mean: F,
    midpoint: G,
    values: Vec<Single>,
    i: int,
)
    requires
        a.dom().contains(model),
        b.dom().contains(model),
        a[model].len() == b[model].len(),
        0 <= i < a[model].len(),
        chosen_embedding(
            seq![a, b],
            model,
            EmbeddingMergeMethod::Median,
            mean,
            midpoint,
            Ok(values),
        ),
    ensures
        values@.len() == a[model].len(),
        values@[i] == lower(a[model][i], b[model][i]),
{
    let stores = seq![a, b];
    let merged = choose|merged: Result<EmbeddingStore, FaceWorkspaceError>|
        {
            &&& #[trigger] merge_result(
                stores,
                EmbeddingMergeMethod::Median,
                EvenMedian::Lower,
                mean,
                midpoint,
                merged,
            )
            &&& match merged {
                Err(e) => false,
                Ok(s) => embedded(s).dom().contains(model) && values@ == embedded(s)[model],
            }
        };
    assert(stores[0].dom().contains(model));
    assert(names_model(stores, model));
    median_of_two(a, b, model, EvenMedian::Lower, mean, midpoint, values@, i);
}

/// The median of two sources that are merged for good is, value by value, what the given function
/// makes of the lower and the higher one.
pub proof fn merged_pair_is_the_midpoint<
    F: Fn(Vec<Single>) -> Single,
    G: Fn(Single, Single) -> Single,
>(
    before: Faces,
    after: Faces,
    id: Seq<char>,
    name: Seq<char>,
    x: Seq<char>,
    y: Seq<char>,
    model: Seq<char>,
    mean: F,
    midpoint: G,
    i: int,
)
    requires
        before.sources.dom().contains(x),
        before.sources.dom().contains(y),
        before.sources[x].embeddings.dom().contains(model),
        before.sources[y].embeddings.dom().contains(model),
        before.sources[x].embeddings[model].len() == before.sources[y].embeddings[model].len(),
        0 <= i < before.sources[x].embeddings[model].len(),
        merged_created(
            before,
            after,
            id,
            name,
            seq![x, y],
            EmbeddingMergeMethod::Median,
            mean,
            midpoint,
            Ok(()),
        ),
    ensures
        after.merged.dom().contains(id),
        ({
            let a = before.sources[x].embeddings[model][i];
            let b = before.sources[y].embeddings[model][i];
            call_ensures(
                midpoint,
                (lower(a, b), higher(a, b)),
                after.merged[id].embeddings[model][i],
            )
        }),
{
    let ids = seq![x, y];
    let a = before.sources[x].embeddings;
    let b = before.sources[y].embeddings;
    let one = ids.drop_last();
    let none = one.drop_last();
    assert(ids.last() == y && one.last() == x && none.len() == 0);
    assert(before.source_stores(none) =~= Seq::empty());
    assert(before.source_stores(one) =~= seq![a]);
    assert(before.source_stores(ids) =~= seq![a, b]);
    let stores = seq![a, b];
    let outcome = choose|outcome: Result<EmbeddingStore, FaceWorkspaceError>|
        {
            &&& #[trigger] merge_result(
                stores,
                EmbeddingMergeMethod::Median,
                EvenMedian::Average,
                mean,
                midpoint,
                outcome,
            )
            &&& match outcome {
                Err(e) => false,
                Ok(store) => after == (Faces {
                    merged: before.merged.insert(
                        id,
                        Merged { id, name, source_ids: ids, embeddings: embedded(store) },
                    ),
                    ..before
                }),
            }
        };
    assert(stores[0].dom().contains(model));
    assert(names_model(stores, model));
    let out = embedded(outcome->Ok_0)[model];
    median_of_two(a, b, model, EvenMedian::Average, mean, midpoint, out, i);
}

proof fn two_vectors(
    a: Map<Seq<char>, Seq<Single>>,
    b: Map<Seq<char>, Seq<Single>>,
    model: Seq<char>,
)
    requires
        a.dom().contains(model),
        b.dom().contains(model),
    ensures
        vectors_of(seq![a, b], model) == seq![a[model], b[model]],
{
    let stores = seq![a, b];
    let one = stores.drop_last();
    let none = one.drop_last();
    assert(stores.last() == b && one.last() == a && none.len() == 0);
    assert(vectors_of(none, model) =~= Seq::<Seq<Single>>::empty());
    assert(vectors_of(one, model) =~= seq![a[model]]);
    assert(vectors_of(stores, model) =~= seq![a[model], b[model]]);
}

/// The mean of two identities is, value by value, what the given function makes of the two, the
/// first one first.
pub proof fn mean_of_two<F: Fn(Vec<Single>) -> Single, G: Fn(Single, Single) -> Single>(
    a: Map<Seq<char>, Seq<Single>>,
    b: Map<Seq<char>, Seq<Single>>,
    model: Seq<char>,
    mean: F,
    midpoint: G,
    values: Vec<Single>,
    i: int,
)
    requires
        a.dom().contains(model),
        b.dom().contains(model),
        a[model].len() == b[model].len(),
        0 <= i < a[model].len(),
        chosen_embedding(
            seq![a, b],
            model,
            EmbeddingMergeMethod::Mean,
            mean,
            midpoint,
            Ok(values),
        ),
    ensures
        values@.len() == a[model].len(),
        exists|v: Vec<Single>|
            v@ == seq![a[model][i], b[model][i]] && #[trigger] call_ensures(mean, (v,), values@[i]),
{
    let stores = seq![a, b];
    let merged = choose|merged: Result<EmbeddingStore, FaceWorkspaceError>|
        {
            &&& #[trigger] merge_result(
                stores,
                EmbeddingMergeMethod::Mean,
                EvenMedian::Lower,
                mean,
                midpoint,
                merged,
            )
            &&& match merged {
                Err(e) => false,
                Ok(s) => embedded(s).dom().contains(model) && values@ == embedded(s)[model],
            }
        };
    assert(stores[0].dom().contains(model));
    assert(names_model(stores, model));
    two_vectors(a, b, model);
    let both = column(vectors_of(stores, model), i);
    assert(both =~= seq![a[model][i], b[model][i]]);
    assert(reduces(
        EmbeddingMergeMethod::Mean,
        EvenMedian::Lower,
        mean,
        midpoint,
        both,
        values@[i],
    ));
}

} // verus!
