//! Face embeddings by the model that computed them, and how several of them are merged into one.

use vstd::prelude::*;

use crate::faces::FaceWorkspaceError;
use crate::number::Single;
use crate::ordered::{TextMap, TextSet};
use crate::ordered::{ascending, entry_is_unique, place_of};
use crate::paths::{file_name, join, parent};
use crate::paths::{file_name_of, joined, parent_of};
use crate::text::join2;
use crate::text::{text_before, text_order_irreflexive, text_order_transitive};

verus! {

/// Embeddings by the name of their model.
pub type EmbeddingStore = TextMap<Vec<Single>>;

/// An embedding that was saved under a name.
#[derive(Debug)]
pub struct SavedEmbedding {
    pub name: String,
    pub embedding_store: EmbeddingStore,
}

/// How several embeddings become one.
#[derive(Debug, Clone, Copy, PartialEq, Eq, Structural)]
pub enum EmbeddingMergeMethod {
    Mean,
    Median,
}

/// What the median of an even number of values is.
#[derive(Debug, Clone, Copy, PartialEq, Eq, Structural)]
pub enum EvenMedian {
    Lower,
    Average,
}

/// Every value is finite.
pub open spec fn all_finite(values: Seq<Single>) -> bool {
    forall|i: int| 0 <= i < values.len() ==> (#[trigger] values[i]).finite()
}

/// An embedding has values, and they are finite.
pub open spec fn sound_embedding(values: Seq<Single>) -> bool {
    values.len() > 0 && all_finite(values)
}

/// The embeddings of a store by the name of their model.
pub open spec fn embedded(store: EmbeddingStore) -> Map<Seq<char>, Seq<Single>> {
    store@.map_values(|values: Vec<Single>| values@)
}

/// A store has embeddings, and they are sound.
pub open spec fn sound_store(store: Map<Seq<char>, Seq<Single>>) -> bool {
    &&& store.dom() != Set::<Seq<char>>::empty()
    &&& forall|model: Seq<char>| #[trigger]
        store.dom().contains(model) ==> sound_embedding(store[model])
}

/// The embedding of `model` is the first that is not sound.
pub open spec fn first_unsound(store: Map<Seq<char>, Seq<Single>>, model: Seq<char>) -> bool {
    &&& store.dom().contains(model)
    &&& !sound_embedding(store[model])
    &&& forall|other: Seq<char>| #[trigger]
        store.dom().contains(other) && text_before(other, model) ==> sound_embedding(store[other])
}

/// `e` is why a store is refused: it is empty, or it names the first model whose embedding is
/// empty or not finite.
pub open spec fn store_refusal(e: FaceWorkspaceError, store: Map<Seq<char>, Seq<Single>>) -> bool {
    match e {
        FaceWorkspaceError::EmptyEmbeddingStore => store.dom() == Set::<Seq<char>>::empty(),
        FaceWorkspaceError::DimensionMismatch(model) => first_unsound(store, model@)
            && store[model@].len() == 0,
        FaceWorkspaceError::NonFinite(model) => first_unsound(store, model@) && store[model@].len()
            > 0,
        _ => false,
    }
}

/// Whether every value is finite.
pub fn is_all_finite(values: &Vec<Single>) -> (r: bool)
    ensures
        r == all_finite(values@),
{
    let mut i: usize = 0;
    while i < values.len()
        invariant
            i <= values.len(),
            forall|j: int| 0 <= j < i ==> (#[trigger] values@[j]).finite(),
        decreases values.len() - i,
    {
        if !values[i].is_finite() {
            assert(!values@[i as int].finite());
            return false;
        }
        i = i + 1;
    }
    true
}

/// Checks that a store has embeddings, that none is empty, and that their values are finite.
pub fn validate_store(store: &EmbeddingStore) -> (r: Result<(), FaceWorkspaceError>)
    ensures
        match r {
            Ok(()) => sound_store(embedded(*store)),
            Err(e) => !sound_store(embedded(*store)) && store_refusal(e, embedded(*store)),
        },
{
    let n: usize = store.len();
    let ghost pairs = store.pairs();
    let ghost all = embedded(*store);
    if store.is_empty() {
        proof {
            assert(all.dom() =~= store@.dom());
        }
        return Err(FaceWorkspaceError::EmptyEmbeddingStore);
    }
    let mut i: usize = 0;
    while i < n
        invariant
            i <= n,
            n == pairs.len(),
            pairs == store.pairs(),
            all == embedded(*store),
            ascending(pairs),
            forall|j: int| 0 <= j < i ==> sound_embedding((#[trigger] pairs[j]).1@),
        decreases n - i,
    {
        let embedding: &Vec<Single> = store.value_at(i);
        let model: &String = store.key_at(i);
        proof {
            assert(all.dom().contains(model@));
            assert(all[model@] == embedding@);
            assert forall|other: Seq<char>| #[trigger]
                all.dom().contains(other) && text_before(other, model@) implies sound_embedding(
                all[other],
            ) by {
                let p = place_of(pairs, other);
                assert(pairs[p].0 == other);
                entry_is_unique(pairs, p);
                text_order_irreflexive(other);
                if p > i {
                    text_order_transitive(other, model@, other);
                }
            }
        }
        if embedding.len() == 0 {
            assert(first_unsound(all, model@));
            return Err(FaceWorkspaceError::DimensionMismatch(model.clone()));
        }
        if !is_all_finite(embedding) {
            assert(first_unsound(all, model@));
            return Err(FaceWorkspaceError::NonFinite(model.clone()));
        }
        i = i + 1;
    }
    proof {
        assert(all.dom() =~= store@.dom());
        assert forall|model: Seq<char>| #[trigger] all.dom().contains(model) implies sound_embedding(
            all[model],
        ) by {
            let p = place_of(pairs, model);
            assert(pairs[p].0 == model);
            entry_is_unique(pairs, p);
        }
    }
    Ok(())
}

/// Every saved embedding is sound.
pub open spec fn sound_saved(embeddings: Seq<SavedEmbedding>) -> bool {
    forall|i: int|
        0 <= i < embeddings.len() ==> sound_store(
            embedded((#[trigger] embeddings[i]).embedding_store),
        )
}

/// Checks embeddings before they are saved and after they were loaded. The error is that of the
/// first one that is refused.
pub fn check_embeddings(embeddings: &Vec<SavedEmbedding>) -> (r: Result<(), FaceWorkspaceError>)
    ensures
        match r {
            Ok(()) => sound_saved(embeddings@),
            Err(e) => exists|i: int|
                {
                    &&& 0 <= i < embeddings@.len()
                    &&& !sound_store(embedded((#[trigger] embeddings@[i]).embedding_store))
                    &&& sound_saved(embeddings@.take(i))
                    &&& store_refusal(e, embedded(embeddings@[i].embedding_store))
                },
        },
{
    let mut i: usize = 0;
    while i < embeddings.len()
        invariant
            i <= embeddings.len(),
            sound_saved(embeddings@.take(i as int)),
        decreases embeddings.len() - i,
    {
        if let Err(e) = validate_store(&embeddings[i].embedding_store) {
            assert(store_refusal(e, embedded(embeddings@[i as int].embedding_store)));
            return Err(e);
        }
        proof {
            assert forall|j: int| 0 <= j < i + 1 implies sound_store(
                embedded((#[trigger] embeddings@.take(i + 1)[j]).embedding_store),
            ) by {
                if j < i {
                    assert(embeddings@.take(i as int)[j] == embeddings@[j]);
                }
            }
        }
        i = i + 1;
    }
    proof {
        assert(embeddings@.take(embeddings.len() as int) =~= embeddings@);
    }
    Ok(())
}

/// Values in the total order of numbers.
pub open spec fn sorted(values: Seq<Single>) -> bool {
    forall|i: int, j: int|
        0 <= i < j < values.len() ==> (#[trigger] values[i]).total_rank() <= (
        #[trigger] values[j]).total_rank()
}

/// `x` is at place `k` where `values` are sorted.
pub open spec fn kth(values: Seq<Single>, k: int, x: Single) -> bool {
    exists|s: Seq<Single>|
        #![trigger sorted(s)]
        sorted(s) && s.to_multiset() == values.to_multiset() && 0 <= k < s.len() && s[k] == x
}

/// The values in the total order of numbers.
fn sort_values(values: &Vec<Single>) -> (r: Vec<Single>)
    ensures
        sorted(r@),
        r@.to_multiset() == values@.to_multiset(),
        r@.len() == values@.len(),
{
    broadcast use vstd::seq_lib::group_to_multiset_ensures;

    let mut r: Vec<Single> = Vec::new();
    let mut i: usize = 0;
    proof {
        assert(values@.take(0) =~= Seq::<Single>::empty());
    }
    while i < values.len()
        invariant
            i <= values.len(),
            r@.len() == i,
            sorted(r@),
            r@.to_multiset() == values@.take(i as int).to_multiset(),
        decreases values.len() - i,
    {
        let value: Single = values[i];
        let ghost before = r@;
        let mut at: usize = 0;
        while at < r.len() && !value.precedes(r[at])
            invariant
                at <= r.len(),
                r@ == before,
                forall|j: int| 0 <= j < at ==> (#[trigger] before[j]).total_rank()
                    <= value.total_rank(),
            decreases r.len() - at,
        {
            at = at + 1;
        }
        r.insert(at, value);
        proof {
            let after = r@;
            assert(after =~= before.insert(at as int, value));
            assert forall|a: int, b: int| 0 <= a < b < after.len() implies (
            #[trigger] after[a]).total_rank() <= (#[trigger] after[b]).total_rank() by {
                let x = if a < at { a } else { a - 1 };
                let y = if b < at { b } else { b - 1 };
                if a != at {
                    assert(after[a] == before[x]);
                }
                if b != at {
                    assert(after[b] == before[y]);
                }
                if a == at && b > at {
                    assert(value.total_rank() < before[at as int].total_rank());
                }
            }
            vstd::seq_lib::to_multiset_insert(before, at as int, value);
            assert(values@.take(i + 1) =~= values@.take(i as int).push(value));
            vstd::seq_lib::to_multiset_build(values@.take(i as int), value);
        }
        i = i + 1;
    }
    proof {
        assert(values@.take(values.len() as int) =~= values@);
    }
    r
}

/// `out` is what the values become. The mean, and the middle of two values, are computed by the
/// given functions.
pub open spec fn reduces<F: Fn(Vec<Single>) -> Single, G: Fn(Single, Single) -> Single>(
    method: EmbeddingMergeMethod,
    even: EvenMedian,
    mean: F,
    midpoint: G,
    values: Seq<Single>,
    out: Single,
) -> bool {
    let middle = values.len() as int / 2;
    match method {
        EmbeddingMergeMethod::Mean => exists|v: Vec<Single>|
            v@ == values && #[trigger] call_ensures(mean, (v,), out),
        EmbeddingMergeMethod::Median => if values.len() % 2 == 1 {
            kth(values, middle, out)
        } else {
            match even {
                EvenMedian::Lower => kth(values, middle - 1, out),
                EvenMedian::Average => exists|low: Single, high: Single|
                    kth(values, middle - 1, low) && kth(values, middle, high)
                        && #[trigger] call_ensures(midpoint, (low, high), out),
            }
        },
    }
}

fn reduce<F: Fn(Vec<Single>) -> Single, G: Fn(Single, Single) -> Single>(
    method: EmbeddingMergeMethod,
    even: EvenMedian,
    mean: &F,
    midpoint: &G,
    values: Vec<Single>,
) -> (out: Single)
    requires
        values@.len() > 0,
        forall|v: Vec<Single>| call_requires(mean, (v,)),
        forall|a: Single, b: Single| call_requires(midpoint, (a, b)),
    ensures
        reduces(method, even, *mean, *midpoint, values@, out),
{
    match method {
        EmbeddingMergeMethod::Mean => {
            let out = mean(values);
            assert(call_ensures(*mean, (values,), out));
            out
        },
        EmbeddingMergeMethod::Median => {
            let ordered: Vec<Single> = sort_values(&values);
            let middle: usize = ordered.len() / 2;
            proof {
                assert(sorted(ordered@));
            }
            if ordered.len() % 2 == 1 {
                assert(kth(values@, middle as int, ordered@[middle as int]));
                ordered[middle]
            } else {
                assert(kth(values@, middle - 1, ordered@[middle - 1]));
                match even {
                    EvenMedian::Lower => ordered[middle - 1],
                    EvenMedian::Average => {
                        let low = ordered[middle - 1];
                        let high = ordered[middle];
                        assert(kth(values@, middle as int, high));
                        let out = midpoint(low, high);
                        assert(call_ensures(*midpoint, (low, high), out));
                        out
                    },
                }
            }
        },
    }
}

/// The embeddings of `model` in the stores that have one, in the order of the stores.
pub open spec fn vectors_of(stores: Seq<Map<Seq<char>, Seq<Single>>>, model: Seq<char>) -> Seq<Seq<Single>>
    decreases stores.len(),
{
    if stores.len() == 0 {
        Seq::empty()
    } else {
        let before = vectors_of(stores.drop_last(), model);
        if stores.last().dom().contains(model) {
            before.push(stores.last()[model])
        } else {
            before
        }
    }
}

/// Some store has an embedding of `model`.
pub open spec fn names_model(stores: Seq<Map<Seq<char>, Seq<Single>>>, model: Seq<char>) -> bool {
    exists|i: int| 0 <= i < stores.len() && (#[trigger] stores[i]).dom().contains(model)
}

/// The embeddings of every store.
pub open spec fn all_embedded(stores: Seq<&EmbeddingStore>) -> Seq<Map<Seq<char>, Seq<Single>>> {
    stores.map_values(|store: &EmbeddingStore| embedded(*store))
}

/// The embeddings have the same number of values, which is not zero.
pub open spec fn same_dimension(vectors: Seq<Seq<Single>>) -> bool {
    &&& vectors.len() > 0
    &&& vectors[0].len() > 0
    &&& forall|k: int| 0 <= k < vectors.len() ==> (#[trigger] vectors[k]).len() == vectors[0].len()
}

/// All values of all embeddings are finite.
pub open spec fn finite_vectors(vectors: Seq<Seq<Single>>) -> bool {
    forall|k: int| 0 <= k < vectors.len() ==> all_finite(#[trigger] vectors[k])
}

/// The values at one place of all embeddings.
pub open spec fn column(vectors: Seq<Seq<Single>>, i: int) -> Seq<Single> {
    Seq::new(vectors.len(), |k: int| vectors[k][i])
}

/// The embeddings of `model` can be merged.
pub open spec fn mergeable(stores: Seq<Map<Seq<char>, Seq<Single>>>, model: Seq<char>) -> bool {
    same_dimension(vectors_of(stores, model)) && finite_vectors(vectors_of(stores, model))
}

/// The embeddings of every model that comes before `model` can be merged.
pub open spec fn mergeable_before(stores: Seq<Map<Seq<char>, Seq<Single>>>, model: Seq<char>) -> bool {
    forall|m: Seq<char>| #[trigger]
        names_model(stores, m) && text_before(m, model) ==> mergeable(stores, m)
}

/// `out` is the merger of the embeddings of `model`.
pub open spec fn merges<F: Fn(Vec<Single>) -> Single, G: Fn(Single, Single) -> Single>(
    stores: Seq<Map<Seq<char>, Seq<Single>>>,
    model: Seq<char>,
    method: EmbeddingMergeMethod,
    even: EvenMedian,
    mean: F,
    midpoint: G,
    out: Seq<Single>,
) -> bool {
    let vectors = vectors_of(stores, model);
    &&& out.len() == vectors[0].len()
    &&& forall|i: int|
        0 <= i < out.len() ==> reduces(
            method,
            even,
            mean,
            midpoint,
            column(vectors, i),
            #[trigger] out[i],
        )
}

/// What merging stores gives: a store with every model that one of them has, or why there is none.
/// Models are merged in their order.
pub open spec fn merge_result<F: Fn(Vec<Single>) -> Single, G: Fn(Single, Single) -> Single>(
    stores: Seq<Map<Seq<char>, Seq<Single>>>,
    method: EmbeddingMergeMethod,
    even: EvenMedian,
    mean: F,
    midpoint: G,
    r: Result<EmbeddingStore, FaceWorkspaceError>,
) -> bool {
    match r {
        Ok(store) => {
            &&& exists|model: Seq<char>| #[trigger] names_model(stores, model)
            &&& forall|model: Seq<char>| #[trigger]
                embedded(store).dom().contains(model) <==> names_model(stores, model)
            &&& forall|model: Seq<char>| #[trigger]
                names_model(stores, model) ==> mergeable(stores, model) && merges(
                    stores,
                    model,
                    method,
                    even,
                    mean,
                    midpoint,
                    embedded(store)[model],
                )
        },
        Err(FaceWorkspaceError::EmptySelection) => forall|model: Seq<char>|
            !(#[trigger] names_model(stores, model)),
        Err(FaceWorkspaceError::DimensionMismatch(model)) => {
            &&& names_model(stores, model@)
            &&& !same_dimension(vectors_of(stores, model@))
            &&& mergeable_before(stores, model@)
        },
        Err(FaceWorkspaceError::NonFinite(model)) => {
            &&& names_model(stores, model@)
            &&& same_dimension(vectors_of(stores, model@))
            &&& !finite_vectors(vectors_of(stores, model@))
            &&& mergeable_before(stores, model@)
        },
        Err(_) => false,
    }
}

proof fn vectors_exist(stores: Seq<Map<Seq<char>, Seq<Single>>>, model: Seq<char>)
    ensures
        vectors_of(stores, model).len() > 0 <==> names_model(stores, model),
    decreases stores.len(),
{
    if stores.len() > 0 {
        let front = stores.drop_last();
        vectors_exist(front, model);
        if names_model(front, model) {
            let i = choose|i: int| 0 <= i < front.len() && (#[trigger] front[i]).dom().contains(model);
            assert(stores[i].dom().contains(model));
        }
        if names_model(stores, model) && !stores.last().dom().contains(model) {
            let i = choose|i: int|
                0 <= i < stores.len() && (#[trigger] stores[i]).dom().contains(model);
            assert(front[i].dom().contains(model));
        }
        if stores.last().dom().contains(model) {
            assert(stores[stores.len() - 1].dom().contains(model));
        }
    }
}

/// The models that the stores name.
fn model_names(stores: &Vec<&EmbeddingStore>) -> (r: TextSet)
    ensures
        forall|model: Seq<char>| #[trigger]
            r@.dom().contains(model) <==> names_model(all_embedded(stores@), model),
{
    let mut r: TextSet = TextMap::new();
    let mut i: usize = 0;
    while i < stores.len()
        invariant
            i <= stores.len(),
            forall|model: Seq<char>| #[trigger]
                r@.dom().contains(model) <==> exists|k: int|
                    0 <= k < i && (#[trigger] stores@[k])@.dom().contains(model),
        decreases stores.len() - i,
    {
        let store: &EmbeddingStore = stores[i];
        let keys: Vec<String> = store.keys();
        let ghost before = r@;
        let mut j: usize = 0;
        while j < keys.len()
            invariant
                j <= keys.len(),
                forall|model: Seq<char>| #[trigger]
                    r@.dom().contains(model) <==> before.dom().contains(model) || exists|k: int|
                        0 <= k < j && (#[trigger] keys@[k])@ == model,
            decreases keys.len() - j,
        {
            let ghost step = r@;
            let _ = r.insert(keys[j].clone(), ());
            proof {
                assert forall|model: Seq<char>| #[trigger]
                    r@.dom().contains(model) <==> before.dom().contains(model) || exists|k: int|
                        0 <= k < j + 1 && (#[trigger] keys@[k])@ == model by {
                    assert(step.dom().contains(model) <==> before.dom().contains(model)
                        || exists|k: int| 0 <= k < j && (#[trigger] keys@[k])@ == model);
                    assert(keys@[j as int]@ == keys@[j as int]@);
                }
            }
            j = j + 1;
        }
        proof {
            assert(stores@[i as int] == store);
            assert forall|model: Seq<char>| #[trigger]
                r@.dom().contains(model) <==> exists|k: int|
                    0 <= k < i + 1 && (#[trigger] stores@[k])@.dom().contains(model) by {
                assert(store@.dom().contains(model) <==> exists|k: int|
                    0 <= k < keys@.len() && (#[trigger] keys@[k])@ == model);
                assert(before.dom().contains(model) <==> exists|k: int|
                    0 <= k < i && (#[trigger] stores@[k])@.dom().contains(model));
                if store@.dom().contains(model) {
                    assert(stores@[i as int]@.dom().contains(model));
                }
            }
        }
        i = i + 1;
    }
    proof {
        let all = all_embedded(stores@);
        assert forall|model: Seq<char>| #[trigger] r@.dom().contains(model) <==> names_model(
            all,
            model,
        ) by {
            if names_model(all, model) {
                let k = choose|k: int| 0 <= k < all.len() && (#[trigger] all[k]).dom().contains(model);
                assert(stores@[k]@.dom().contains(model));
            }
            if exists|k: int|
                0 <= k < stores@.len() && (#[trigger] stores@[k])@.dom().contains(model) {
                let k = choose|k: int|
                    0 <= k < stores@.len() && (#[trigger] stores@[k])@.dom().contains(model);
                assert(all[k].dom().contains(model));
            }
        }
    }
    r
}

/// The embeddings of `model` in the stores that have one.
fn gather<'a>(stores: &Vec<&'a EmbeddingStore>, model: &str) -> (r: Vec<&'a Vec<Single>>)
    ensures
        r@.len() == vectors_of(all_embedded(stores@), model@).len(),
        forall|k: int| 0 <= k < r@.len() ==> (#[trigger] r@[k])@ == vectors_of(all_embedded(stores@), model@)[k],
{
    let mut r: Vec<&'a Vec<Single>> = Vec::new();
    let mut i: usize = 0;
    let ghost all = all_embedded(stores@);
    proof {
        assert(all.take(0) =~= Seq::<Map<Seq<char>, Seq<Single>>>::empty());
    }
    while i < stores.len()
        invariant
            i <= stores.len(),
            all == all_embedded(stores@),
            r@.len() == vectors_of(all.take(i as int), model@).len(),
            forall|k: int|
                0 <= k < r@.len() ==> (#[trigger] r@[k])@ == vectors_of(
                    all.take(i as int),
                    model@,
                )[k],
        decreases stores.len() - i,
    {
        proof {
            assert(all.take(i + 1).drop_last() =~= all.take(i as int));
            assert(all.take(i + 1).last() == embedded(*stores@[i as int]));
        }
        if let Some(vector) = stores[i].get(model) {
            r.push(vector);
        }
        i = i + 1;
    }
    proof {
        assert(all.take(stores.len() as int) =~= all);
    }
    r
}

fn column_of(vectors: &Vec<&Vec<Single>>, i: usize) -> (r: Vec<Single>)
    requires
        forall|k: int| 0 <= k < vectors@.len() ==> i < (#[trigger] vectors@[k])@.len(),
    ensures
        r@.len() == vectors@.len(),
        forall|k: int| 0 <= k < r@.len() ==> #[trigger] r@[k] == vectors@[k]@[i as int],
{
    let mut r: Vec<Single> = Vec::new();
    let mut k: usize = 0;
    while k < vectors.len()
        invariant
            k <= vectors.len(),
            forall|j: int| 0 <= j < vectors@.len() ==> i < (#[trigger] vectors@[j])@.len(),
            r@.len() == k,
            forall|j: int| 0 <= j < k ==> #[trigger] r@[j] == vectors@[j]@[i as int],
        decreases vectors.len() - k,
    {
        let vector: &Vec<Single> = vectors[k];
        assert(i < vectors@[k as int]@.len());
        r.push(vector[i]);
        k = k + 1;
    }
    r
}

/// Why the embeddings of one model cannot be merged.
enum Unmergeable {
    Dimension,
    Infinite,
}

fn merge_model<F: Fn(Vec<Single>) -> Single, G: Fn(Single, Single) -> Single>(
    stores: &Vec<&EmbeddingStore>,
    model: &str,
    method: EmbeddingMergeMethod,
    even: EvenMedian,
    mean: &F,
    midpoint: &G,
) -> (r: Result<Vec<Single>, Unmergeable>)
    requires
        names_model(all_embedded(stores@), model@),
        forall|v: Vec<Single>| call_requires(mean, (v,)),
        forall|a: Single, b: Single| call_requires(midpoint, (a, b)),
    ensures
        match r {
            Ok(out) => mergeable(all_embedded(stores@), model@) && merges(
                all_embedded(stores@),
                model@,
                method,
                even,
                *mean,
                *midpoint,
                out@,
            ),
            Err(Unmergeable::Dimension) => !same_dimension(vectors_of(all_embedded(stores@), model@)),
            Err(Unmergeable::Infinite) => same_dimension(vectors_of(all_embedded(stores@), model@))
                && !finite_vectors(vectors_of(all_embedded(stores@), model@)),
        },
{
    let vectors: Vec<&Vec<Single>> = gather(stores, model);
    let ghost all = vectors_of(all_embedded(stores@), model@);
    proof {
        vectors_exist(all_embedded(stores@), model@);
    }
    let dimension: usize = vectors[0].len();
    assert(vectors@[0]@ == all[0]);
    if dimension == 0 {
        return Err(Unmergeable::Dimension);
    }
    let mut k: usize = 0;
    while k < vectors.len()
        invariant
            k <= vectors.len(),
            vectors@.len() == all.len(),
            dimension == all[0].len(),
            dimension > 0,
            all == vectors_of(all_embedded(stores@), model@),
            forall|j: int| 0 <= j < vectors@.len() ==> (#[trigger] vectors@[j])@ == all[j],
            forall|j: int| 0 <= j < k ==> (#[trigger] all[j]).len() == dimension,
        decreases vectors.len() - k,
    {
        assert(vectors@[k as int]@ == all[k as int]);
        if vectors[k].len() != dimension {
            return Err(Unmergeable::Dimension);
        }
        k = k + 1;
    }
    let mut k: usize = 0;
    while k < vectors.len()
        invariant
            k <= vectors.len(),
            vectors@.len() == all.len(),
            all == vectors_of(all_embedded(stores@), model@),
            same_dimension(all),
            forall|j: int| 0 <= j < vectors@.len() ==> (#[trigger] vectors@[j])@ == all[j],
            forall|j: int| 0 <= j < k ==> all_finite(#[trigger] all[j]),
        decreases vectors.len() - k,
    {
        assert(vectors@[k as int]@ == all[k as int]);
        if !is_all_finite(vectors[k]) {
            return Err(Unmergeable::Infinite);
        }
        k = k + 1;
    }
    let mut out: Vec<Single> = Vec::new();
    let mut i: usize = 0;
    while i < dimension
        invariant
            i <= dimension,
            dimension == all[0].len(),
            vectors@.len() == all.len(),
            same_dimension(all),
            forall|j: int| 0 <= j < vectors@.len() ==> (#[trigger] vectors@[j])@ == all[j],
            forall|v: Vec<Single>| call_requires(mean, (v,)),
            forall|a: Single, b: Single| call_requires(midpoint, (a, b)),
            out@.len() == i,
            forall|j: int|
                0 <= j < i ==> reduces(
                    method,
                    even,
                    *mean,
                    *midpoint,
                    column(all, j),
                    #[trigger] out@[j],
                ),
        decreases dimension - i,
    {
        proof {
            assert forall|j: int| 0 <= j < vectors@.len() implies i < (#[trigger] vectors@[j])@.len() by {
                assert(vectors@[j]@ == all[j]);
                assert(all[j].len() == all[0].len());
            }
        }
        let values: Vec<Single> = column_of(&vectors, i);
        proof {
            assert(values@ =~= column(all, i as int)) by {
                assert forall|j: int| 0 <= j < values@.len() implies values@[j] == column(
                    all,
                    i as int,
                )[j] by {
                    assert(vectors@[j]@ == all[j]);
                }
            }
        }
        let value = reduce(method, even, mean, midpoint, values);
        out.push(value);
        i = i + 1;
    }
    Ok(out)
}

/// Merges stores model by model.
pub fn merge_stores<F: Fn(Vec<Single>) -> Single, G: Fn(Single, Single) -> Single>(
    stores: &Vec<&EmbeddingStore>,
    method: EmbeddingMergeMethod,
    even: EvenMedian,
    mean: &F,
    midpoint: &G,
) -> (r: Result<EmbeddingStore, FaceWorkspaceError>)
    requires
        forall|v: Vec<Single>| call_requires(mean, (v,)),
        forall|a: Single, b: Single| call_requires(midpoint, (a, b)),
    ensures
        merge_result(all_embedded(stores@), method, even, *mean, *midpoint, r),
{
    let models: TextSet = model_names(stores);
    let n: usize = models.len();
    let ghost pairs = models.pairs();
    let mut result: EmbeddingStore = TextMap::new();
    let mut i: usize = 0;
    while i < n
        invariant
            i <= n,
            n == pairs.len(),
            pairs == models.pairs(),
            ascending(pairs),
            forall|model: Seq<char>| #[trigger]
                models@.dom().contains(model) <==> names_model(all_embedded(stores@), model),
            forall|v: Vec<Single>| call_requires(mean, (v,)),
            forall|a: Single, b: Single| call_requires(midpoint, (a, b)),
            forall|model: Seq<char>| #[trigger]
                result@.dom().contains(model) <==> exists|k: int|
                    0 <= k < i && (#[trigger] pairs[k]).0 == model,
            forall|k: int|
                0 <= k < i ==> mergeable(all_embedded(stores@), (#[trigger] pairs[k]).0) && merges(
                    all_embedded(stores@),
                    pairs[k].0,
                    method,
                    even,
                    *mean,
                    *midpoint,
                    result@[pairs[k].0]@,
                ),
        decreases n - i,
    {
        let model: &String = models.key_at(i);
        proof {
            entry_is_unique(pairs, i as int);
            assert(models@.dom().contains(model@));
            assert(mergeable_before(all_embedded(stores@), model@)) by {
                assert forall|m: Seq<char>| #[trigger] names_model(all_embedded(stores@), m) && text_before(
                    m,
                    model@,
                ) implies mergeable(all_embedded(stores@), m) by {
                    assert(models@.dom().contains(m));
                    let p = place_of(pairs, m);
                    assert(pairs[p].0 == m);
                    if p == i {
                        text_order_irreflexive(m);
                    } else if p > i {
                        text_order_transitive(m, model@, m);
                        text_order_irreflexive(m);
                    }
                }
            }
        }
        match merge_model(stores, model.as_str(), method, even, mean, midpoint) {
            Ok(vector) => {
                let ghost before = result@;
                let ghost out = vector;
                let _ = result.insert(model.clone(), vector);
                proof {
                    assert forall|m: Seq<char>| #[trigger]
                        result@.dom().contains(m) <==> exists|k: int|
                            0 <= k < i + 1 && (#[trigger] pairs[k]).0 == m by {
                        assert(before.dom().contains(m) <==> exists|k: int|
                            0 <= k < i && (#[trigger] pairs[k]).0 == m);
                        assert(pairs[i as int].0 == model@);
                    }
                    assert forall|k: int| 0 <= k < i + 1 implies mergeable(
                        all_embedded(stores@),
                        (#[trigger] pairs[k]).0,
                    ) && merges(
                        all_embedded(stores@),
                        pairs[k].0,
                        method,
                        even,
                        *mean,
                        *midpoint,
                        result@[pairs[k].0]@,
                    ) by {
                        if k < i {
                            assert(text_before(pairs[k].0, pairs[i as int].0));
                            text_order_irreflexive(pairs[k].0);
                            assert(result@[pairs[k].0] == before[pairs[k].0]);
                        } else {
                            assert(result@[pairs[k].0] == out);
                        }
                    }
                }
            },
            Err(Unmergeable::Dimension) => {
                return Err(FaceWorkspaceError::DimensionMismatch(model.clone()));
            },
            Err(Unmergeable::Infinite) => {
                return Err(FaceWorkspaceError::NonFinite(model.clone()));
            },
        }
        i = i + 1;
    }
    proof {
        assert(embedded(result).dom() =~= result@.dom());
        assert forall|model: Seq<char>| #[trigger] result@.dom().contains(model) <==> names_model(
            all_embedded(stores@),
            model,
        ) by {
            if names_model(all_embedded(stores@), model) {
                assert(models@.dom().contains(model));
                let p = place_of(pairs, model);
                assert(pairs[p].0 == model);
            }
            if exists|k: int| 0 <= k < n && (#[trigger] pairs[k]).0 == model {
                let k = choose|k: int| 0 <= k < n && (#[trigger] pairs[k]).0 == model;
                entry_is_unique(pairs, k);
                assert(models@.dom().contains(model));
            }
        }
        assert forall|model: Seq<char>| #[trigger] names_model(all_embedded(stores@), model) implies mergeable(
            all_embedded(stores@),
            model,
        ) && merges(all_embedded(stores@), model, method, even, *mean, *midpoint, result@[model]@) by {
            assert(models@.dom().contains(model));
            let p = place_of(pairs, model);
            assert(pairs[p].0 == model);
        }
    }
    if n == 0 {
        proof {
            assert forall|model: Seq<char>| !(#[trigger] names_model(all_embedded(stores@), model)) by {
                if names_model(all_embedded(stores@), model) {
                    assert(models@.dom().contains(model));
                    let p = place_of(pairs, model);
                    assert(0 <= p < pairs.len());
                }
            }
        }
        return Err(FaceWorkspaceError::EmptySelection);
    }
    proof {
        entry_is_unique(pairs, 0);
        assert(models@.dom().contains(pairs[0].0));
        assert(names_model(all_embedded(stores@), pairs[0].0));
    }
    Ok(result)
}

/// A copy of an embedding.
pub fn copy_values(values: &Vec<Single>) -> (r: Vec<Single>)
    ensures
        r@ == values@,
{
    let mut r: Vec<Single> = Vec::new();
    let mut i: usize = 0;
    while i < values.len()
        invariant
            i <= values.len(),
            r@ == values@.take(i as int),
        decreases values.len() - i,
    {
        r.push(values[i]);
        i = i + 1;
    }
    proof {
        assert(values@.take(values.len() as int) =~= values@);
    }
    r
}

/// The median of an odd number of values is one of them, and so is the lower median of an even
/// number.
pub proof fn median_is_one_of_the_values(values: Seq<Single>, k: int, x: Single)
    requires
        kth(values, k, x),
    ensures
        values.contains(x),
{
    broadcast use vstd::seq_lib::group_to_multiset_ensures;

    let s = choose|s: Seq<Single>|
        #![trigger sorted(s)]
        sorted(s) && s.to_multiset() == values.to_multiset() && 0 <= k < s.len() && s[k] == x;
    assert(s.contains(x));
    assert(s.to_multiset().count(x) > 0);
    assert(values.to_multiset().count(x) > 0);
}

/// The file that embeddings are written to before it replaces the one at `path`: beside it, or in
/// it where it has no file name.
pub open spec fn temporary_of(path: Seq<char>) -> Seq<char> {
    match file_name_of(path) {
        Some(name) => joined(
            match parent_of(path) {
                Some(directory) => directory,
                None => Seq::empty(),
            },
            name + ".tmp"@,
        ),
        None => joined(path, "embeddings.json"@ + ".tmp"@),
    }
}

/// The file that embeddings are written to before it replaces the one at `path`.
pub fn temporary_path(path: &str) -> (r: String)
    ensures
        r@ == temporary_of(path@),
{
    match file_name(path) {
        Some(name) => {
            let temporary = join2(name.as_str(), ".tmp");
            match parent(path) {
                Some(directory) => join(directory.as_str(), temporary.as_str()),
                None => {
                    proof {
                        reveal_strlit("");
                        assert(""@ =~= Seq::<char>::empty());
                    }
                    join("", temporary.as_str())
                },
            }
        },
        None => {
            let temporary = join2("embeddings.json", ".tmp");
            join(path, temporary.as_str())
        },
    }
}

/// A store is accepted exactly where it has an embedding, and every embedding has numbers, all of
/// them finite.
pub proof fn sound_stores_hold_finite_numbers(store: Map<Seq<char>, Seq<Single>>)
    ensures
        sound_store(store) <==> {
            &&& exists|model: Seq<char>| store.dom().contains(model)
            &&& forall|model: Seq<char>| #[trigger]
                store.dom().contains(model) ==> store[model].len() > 0
            &&& forall|model: Seq<char>, i: int|
                store.dom().contains(model) && 0 <= i < store[model].len() ==> (
                #[trigger] store[model][i]).finite()
        },
{
    let none = Set::<Seq<char>>::empty();
    if store.dom() != none {
        if forall|model: Seq<char>| !store.dom().contains(model) {
            assert(store.dom() =~= none);
        }
    }
    if sound_store(store) {
        assert forall|model: Seq<char>, i: int|
            store.dom().contains(model) && 0 <= i < store[model].len() implies (
        #[trigger] store[model][i]).finite() by {
            assert(sound_embedding(store[model]));
        }
    }
    if forall|model: Seq<char>, i: int|
        store.dom().contains(model) && 0 <= i < store[model].len() ==> (
        #[trigger] store[model][i]).finite() {
        assert forall|model: Seq<char>| store.dom().contains(model) implies all_finite(
            #[trigger] store[model],
        ) by {
            assert forall|i: int| 0 <= i < store[model].len() implies (
            #[trigger] store[model][i]).finite() by {}
        }
    }
}

} // verus!
