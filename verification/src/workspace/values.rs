//! Embeddings, pictures and lists in CrossSwap documents.

use vstd::prelude::*;

use crate::embeddings::embedded;
use crate::embeddings::EmbeddingStore;
use crate::faces::FaceCrop;
use crate::faces::{texts, Crop};
use crate::json::{Json, JsonNumber};
use crate::number::{Double, Single};
use crate::ordered::{ascending, entry_is_unique, map_grows, map_of, place_of};
use crate::ordered::TextMap;

verus! {

/// The text by which CrossSwap identifies something: a text, or that of a number.
pub open spec fn identifier(value: Json) -> Option<Seq<char>> {
    match value {
        Json::Text(s) => Some(s@),
        Json::Number(n) => Some(n.text()),
        _ => None,
    }
}

/// The text by which CrossSwap identifies something.
pub fn legacy_id(value: &Json) -> (r: Option<String>)
    ensures
        match r {
            Some(id) => identifier(*value) == Some(id@),
            None => identifier(*value) is None,
        },
{
    match value {
        Json::Text(s) => Some(s.clone()),
        Json::Number(n) => Some(n.to_text()),
        _ => None,
    }
}

/// A member of an object.
pub open spec fn member(object: TextMap<Json>, key: Seq<char>) -> Option<Json> {
    if object@.dom().contains(key) {
        Some(object@[key])
    } else {
        None
    }
}

/// The entries of an object that is a member of an object.
pub open spec fn object_member(object: TextMap<Json>, key: Seq<char>) -> Option<TextMap<Json>> {
    match member(object, key) {
        Some(Json::Object(o)) => Some(o),
        _ => None,
    }
}

/// A text that is a member of an object.
pub open spec fn text_member(object: TextMap<Json>, key: Seq<char>) -> Option<String> {
    match member(object, key) {
        Some(Json::Text(s)) => Some(s),
        _ => None,
    }
}

/// The elements of an array that is a member of an object.
pub open spec fn array_member(object: TextMap<Json>, key: Seq<char>) -> Option<Vec<Json>> {
    match member(object, key) {
        Some(Json::Array(a)) => Some(a),
        _ => None,
    }
}

/// A member of an object that is an object.
pub(crate) fn get_object<'a>(object: &'a TextMap<Json>, key: &str) -> (r: Option<&'a TextMap<Json>>)
    ensures
        match r {
            Some(o) => object_member(*object, key@) == Some(*o),
            None => object_member(*object, key@) is None,
        },
{
    match object.get(key) {
        Some(value) => value.as_object(),
        None => None,
    }
}

/// A member of an object that is a text.
pub(crate) fn get_text<'a>(object: &'a TextMap<Json>, key: &str) -> (r: Option<&'a String>)
    ensures
        match r {
            Some(s) => text_member(*object, key@) == Some(*s),
            None => text_member(*object, key@) is None,
        },
{
    match object.get(key) {
        Some(value) => value.as_str(),
        None => None,
    }
}

/// A member of an object that is an array.
pub(crate) fn get_array<'a>(object: &'a TextMap<Json>, key: &str) -> (r: Option<&'a Vec<Json>>)
    ensures
        match r {
            Some(a) => array_member(*object, key@) == Some(*a),
            None => array_member(*object, key@) is None,
        },
{
    match object.get(key) {
        Some(value) => value.as_array(),
        None => None,
    }
}

/// The texts among the first `n` elements.
pub open spec fn texts_among(elements: Seq<Json>, n: nat) -> Seq<Seq<char>>
    decreases n,
{
    if n == 0 {
        Seq::empty()
    } else {
        match elements[n - 1] {
            Json::Text(s) => texts_among(elements, (n - 1) as nat).push(s@),
            _ => texts_among(elements, (n - 1) as nat),
        }
    }
}

/// The texts of a list; no texts where this is no list.
pub open spec fn listed_texts(value: Option<Json>) -> Seq<Seq<char>> {
    match value {
        Some(Json::Array(a)) => texts_among(a@, a@.len()),
        _ => Seq::empty(),
    }
}

/// The value itself, where there is one.
pub open spec fn optional_json(value: Option<&Json>) -> Option<Json> {
    match value {
        Some(json) => Some(*json),
        None => None,
    }
}

/// The texts of a list; no texts where this is no list.
pub fn string_array(value: Option<&Json>) -> (r: Vec<String>)
    ensures
        texts(r@) == listed_texts(optional_json(value)),
{
    let mut r: Vec<String> = Vec::new();
    proof {
        assert(texts(r@) =~= Seq::<Seq<char>>::empty());
    }
    if let Some(json) = value {
        if let Some(elements) = json.as_array() {
            let mut i: usize = 0;
            while i < elements.len()
                invariant
                    i <= elements.len(),
                    texts(r@) == texts_among(elements@, i as nat),
                decreases elements.len() - i,
            {
                let ghost before = r@;
                if let Some(s) = elements[i].as_str() {
                    r.push(s.clone());
                    proof {
                        assert(texts(r@) =~= texts(before).push(s@));
                    }
                }
                i = i + 1;
            }
        }
    }
    r
}

/// A list of numbers.
pub open spec fn numbers(value: Json) -> bool {
    value matches Json::Array(a) && forall|i: int|
        0 <= i < a@.len() ==> (#[trigger] a@[i]).single() is Some
}

/// The numbers of a list.
pub open spec fn numbers_of(value: Json) -> Seq<Single> {
    match value {
        Json::Array(a) => a@.map_values(|v: Json| v.single()->0),
        _ => Seq::empty(),
    }
}

/// What a document that is not as expected is refused with.
pub open spec fn number_fault(value: Json) -> Seq<char> {
    if value is Array {
        "embedding values must be numbers"@
    } else {
        "embedding values must be arrays"@
    }
}

/// The embeddings that a document holds.
pub open spec fn read_store(value: Option<Json>) -> Map<Seq<char>, Seq<Single>> {
    match value {
        Some(Json::Object(o)) => o@.map_values(|v: Json| numbers_of(v)),
        _ => Map::empty(),
    }
}

/// The outcome of reading embeddings: the first entry that is no list of numbers is refused.
pub open spec fn store_read(
    value: Option<Json>,
    r: Result<EmbeddingStore, &'static str>,
) -> bool {
    match r {
        Ok(store) => {
            &&& embedded(store) == read_store(value)
            &&& value matches Some(Json::Object(o)) ==> forall|key: Seq<char>| #[trigger]
                o@.dom().contains(key) ==> numbers(o@[key])
        },
        Err(message) => {
            &&& value matches Some(Json::Object(o))
            &&& exists|i: int|
                {
                    &&& 0 <= i < o.pairs().len()
                    &&& !numbers((#[trigger] o.pairs()[i]).1)
                    &&& forall|j: int| 0 <= j < i ==> numbers((#[trigger] o.pairs()[j]).1)
                    &&& message@ == number_fault(o.pairs()[i].1)
                }
        },
    }
}

fn read_numbers(value: &Json) -> (r: Result<Vec<Single>, &'static str>)
    ensures
        match r {
            Ok(values) => numbers(*value) && values@ == numbers_of(*value),
            Err(message) => !numbers(*value) && message@ == number_fault(*value),
        },
{
    match value.as_array() {
        None => Err("embedding values must be arrays"),
        Some(elements) => {
            let mut r: Vec<Single> = Vec::new();
            let mut i: usize = 0;
            while i < elements.len()
                invariant
                    i <= elements.len(),
                    *value == Json::Array(*elements),
                    r@.len() == i,
                    forall|j: int| 0 <= j < i ==> (#[trigger] elements@[j]).single() is Some,
                    forall|j: int| 0 <= j < i ==> r@[j] == (#[trigger] elements@[j]).single()->0,
                decreases elements.len() - i,
            {
                match elements[i].as_single() {
                    Some(single) => {
                        r.push(single);
                    },
                    None => {
                        assert(!(elements@[i as int].single() is Some));
                        return Err("embedding values must be numbers");
                    },
                }
                i = i + 1;
            }
            proof {
                assert(r@ =~= numbers_of(*value));
            }
            Ok(r)
        },
    }
}

/// The embeddings that a document holds; none where this is no object.
pub fn parse_embedding_store_or_empty(value: Option<&Json>) -> (r: Result<
    EmbeddingStore,
    &'static str,
>)
    ensures
        store_read(optional_json(value), r),
{
    let mut store: EmbeddingStore = TextMap::new();
    proof {
        assert(embedded(store) =~= Map::<Seq<char>, Seq<Single>>::empty());
    }
    let object: &TextMap<Json> = match value {
        None => return Ok(store),
        Some(json) => match json.as_object() {
            None => return Ok(store),
            Some(object) => object,
        },
    };
    let n: usize = object.len();
    let ghost pairs = object.pairs();
    let mut i: usize = 0;
    proof {
        assert(pairs.take(0) =~= Seq::<(Seq<char>, Json)>::empty());
        assert(embedded(store) =~= map_of(pairs.take(0)).map_values(|v: Json| numbers_of(v)));
    }
    while i < n
        invariant
            i <= n,
            n == pairs.len(),
            pairs == object.pairs(),
            ascending(pairs),
            optional_json(value) == Some(Json::Object(*object)),
            forall|j: int| 0 <= j < i ==> numbers((#[trigger] pairs[j]).1),
            embedded(store) == map_of(pairs.take(i as int)).map_values(|v: Json| numbers_of(v)),
        decreases n - i,
    {
        let entry: &Json = object.value_at(i);
        match read_numbers(entry) {
            Err(message) => {
                proof {
                    let o = optional_json(value)->0->Object_0;
                    assert(o == *object);
                    assert(!numbers(o.pairs()[i as int].1));
                    assert(forall|j: int| 0 <= j < i ==> numbers((#[trigger] o.pairs()[j]).1));
                    assert(message@ == number_fault(o.pairs()[i as int].1));
                }
                return Err(message);
            },
            Ok(values) => {
                let ghost before = embedded(store);
                let ghost list = values@;
                let key: String = object.key_at(i).clone();
                let ghost name = key@;
                let _ = store.insert(key, values);
                proof {
                    map_grows(pairs, i as int);
                    assert(embedded(store) =~= before.insert(name, list));
                    assert(map_of(pairs.take(i + 1)).map_values(|v: Json| numbers_of(v))
                        =~= before.insert(name, list));
                }
            },
        }
        i = i + 1;
    }
    proof {
        assert(pairs.take(n as int) =~= pairs);
        assert(embedded(store) =~= read_store(optional_json(value)));
        assert forall|key: Seq<char>| #[trigger] object@.dom().contains(key) implies numbers(
            object@[key],
        ) by {
            let p = place_of(pairs, key);
            assert(pairs[p].0 == key);
            entry_is_unique(pairs, p);
        }
    }
    Ok(store)
}

/// The outcome of reading embeddings of which there has to be one.
pub open spec fn some_store_read(
    value: Option<Json>,
    r: Result<EmbeddingStore, &'static str>,
) -> bool {
    exists|found: Result<EmbeddingStore, &'static str>|
        {
            &&& #[trigger] store_read(value, found)
            &&& match found {
                Err(message) => r == Err::<EmbeddingStore, &'static str>(message),
                Ok(store) => if embedded(store).dom() == Set::<Seq<char>>::empty() {
                    r matches Err(message) && message@
                        == "embedding_store must contain at least one model"@
                } else {
                    r == Ok::<EmbeddingStore, &'static str>(store)
                },
            }
        }
}

/// The embeddings that a document holds, of which there has to be one.
pub fn parse_embedding_store(value: Option<&Json>) -> (r: Result<EmbeddingStore, &'static str>)
    ensures
        some_store_read(optional_json(value), r),
{
    let found = parse_embedding_store_or_empty(value);
    assert(store_read(optional_json(value), found));
    match found {
        Err(message) => Err(message),
        Ok(store) => {
            proof {
                assert(embedded(store).dom() =~= store@.dom());
            }
            if store.is_empty() {
                Err("embedding_store must contain at least one model")
            } else {
                Ok(store)
            }
        },
    }
}

/// A number between 0 and 255.
pub open spec fn is_byte(channel: Json) -> bool {
    channel.whole() matches Some(n) && n <= 255
}

/// Three numbers between 0 and 255.
pub open spec fn pixel_fault(pixel: Json) -> Option<Seq<char>> {
    match pixel {
        Json::Array(channels) => if channels@.len() != 3 {
            Some("cropped_face pixels must contain RGB triples"@)
        } else if is_byte(channels@[0]) && is_byte(channels@[1]) && is_byte(channels@[2]) {
            None
        } else {
            Some("cropped_face channels must be bytes"@)
        },
        _ => Some("cropped_face pixels must contain RGB triples"@),
    }
}

/// The first fault of the first `n` pixels.
pub open spec fn pixels_fault(pixels: Seq<Json>, n: nat) -> Option<Seq<char>>
    decreases n,
{
    if n == 0 {
        None
    } else {
        match pixels_fault(pixels, (n - 1) as nat) {
            Some(fault) => Some(fault),
            None => pixel_fault(pixels[n - 1]),
        }
    }
}

/// A row of `width` pixels.
pub open spec fn row_fault(row: Json, width: nat) -> Option<Seq<char>> {
    match row {
        Json::Array(pixels) => if pixels@.len() != width {
            Some("cropped_face rows must have equal width"@)
        } else {
            pixels_fault(pixels@, pixels@.len())
        },
        _ => Some("cropped_face rows must be arrays"@),
    }
}

/// The first fault of the first `n` rows.
pub open spec fn rows_fault(rows: Seq<Json>, width: nat, n: nat) -> Option<Seq<char>>
    decreases n,
{
    if n == 0 {
        None
    } else {
        match rows_fault(rows, width, (n - 1) as nat) {
            Some(fault) => Some(fault),
            None => row_fault(rows[n - 1], width),
        }
    }
}

/// The number of pixels in the first row.
pub open spec fn first_width(rows: Seq<Json>) -> nat {
    if rows.len() == 0 {
        0
    } else {
        match rows[0] {
            Json::Array(pixels) => pixels@.len(),
            _ => 0,
        }
    }
}

/// Why a picture is refused.
pub open spec fn crop_fault(value: Json) -> Option<Seq<char>> {
    match value {
        Json::Array(rows) => if first_width(rows@) == 0 {
            Some("cropped_face must not be empty"@)
        } else {
            rows_fault(rows@, first_width(rows@), rows@.len())
        },
        _ => Some("cropped_face must be an RGB row array"@),
    }
}

/// A channel as a byte.
pub open spec fn byte_of(channel: Json) -> u8 {
    match channel.whole() {
        Some(n) => n as u8,
        None => 0,
    }
}

/// The bytes of a pixel.
pub open spec fn pixel_bytes(pixel: Json) -> Seq<u8> {
    match pixel {
        Json::Array(channels) => seq![
            byte_of(channels@[0]),
            byte_of(channels@[1]),
            byte_of(channels@[2]),
        ],
        _ => Seq::empty(),
    }
}

/// The bytes of the first `n` pixels.
pub open spec fn pixels_bytes(pixels: Seq<Json>, n: nat) -> Seq<u8>
    decreases n,
{
    if n == 0 {
        Seq::empty()
    } else {
        pixels_bytes(pixels, (n - 1) as nat) + pixel_bytes(pixels[n - 1])
    }
}

/// The bytes of a row.
pub open spec fn row_bytes(row: Json) -> Seq<u8> {
    match row {
        Json::Array(pixels) => pixels_bytes(pixels@, pixels@.len()),
        _ => Seq::empty(),
    }
}

/// The bytes of the first `n` rows.
pub open spec fn rows_bytes(rows: Seq<Json>, n: nat) -> Seq<u8>
    decreases n,
{
    if n == 0 {
        Seq::empty()
    } else {
        rows_bytes(rows, (n - 1) as nat) + row_bytes(rows[n - 1])
    }
}

/// The picture that a document holds, row by row.
pub open spec fn crop_read(value: Json, r: Result<FaceCrop, &'static str>) -> bool {
    match r {
        Ok(crop) => {
            &&& crop_fault(value) is None
            &&& value matches Json::Array(rows)
            &&& crop.width == first_width(rows@) as u32
            &&& crop.height == rows@.len() as u32
            &&& crop.rgb@ == rows_bytes(rows@, rows@.len())
        },
        Err(message) => crop_fault(value) == Some(message@),
    }
}

fn read_pixel(pixel: &Json, rgb: &mut Vec<u8>) -> (r: Result<(), &'static str>)
    ensures
        match r {
            Ok(()) => pixel_fault(*pixel) is None && final(rgb)@ == old(rgb)@ + pixel_bytes(*pixel),
            Err(message) => pixel_fault(*pixel) == Some(message@),
        },
{
    match pixel.as_array() {
        None => Err("cropped_face pixels must contain RGB triples"),
        Some(channels) => {
            if channels.len() != 3 {
                return Err("cropped_face pixels must contain RGB triples");
            }
            let ghost before = rgb@;
            let mut i: usize = 0;
            while i < 3
                invariant
                    i <= 3,
                    channels@.len() == 3,
                    *pixel == Json::Array(*channels),
                    forall|j: int| 0 <= j < i ==> is_byte(#[trigger] channels@[j]),
                    rgb@ == before + pixel_bytes(*pixel).take(i as int),
                decreases 3 - i,
            {
                match channels[i].as_u64() {
                    Some(n) => {
                        if n > 255 {
                            assert(!is_byte(channels@[i as int]));
                            return Err("cropped_face channels must be bytes");
                        }
                        rgb.push(n as u8);
                        proof {
                            assert(byte_of(channels@[i as int]) == n as u8);
                            assert(pixel_bytes(*pixel)[i as int] == n as u8);
                            assert(pixel_bytes(*pixel).take(i + 1) =~= pixel_bytes(*pixel).take(
                                i as int,
                            ).push(n as u8));
                            assert(rgb@ =~= before + pixel_bytes(*pixel).take(i + 1));
                        }
                    },
                    None => {
                        assert(!is_byte(channels@[i as int]));
                        return Err("cropped_face channels must be bytes");
                    },
                }
                i = i + 1;
            }
            proof {
                assert(is_byte(channels@[0]) && is_byte(channels@[1]) && is_byte(channels@[2]));
                assert(pixel_bytes(*pixel).take(3) =~= pixel_bytes(*pixel));
            }
            Ok(())
        },
    }
}

proof fn pixels_fault_stays(pixels: Seq<Json>, k: nat, n: nat)
    requires
        k <= n,
        pixels_fault(pixels, k) is Some,
    ensures
        pixels_fault(pixels, n) == pixels_fault(pixels, k),
    decreases n,
{
    if k < n {
        pixels_fault_stays(pixels, k, (n - 1) as nat);
    }
}

proof fn rows_fault_stays(rows: Seq<Json>, width: nat, k: nat, n: nat)
    requires
        k <= n,
        rows_fault(rows, width, k) is Some,
    ensures
        rows_fault(rows, width, n) == rows_fault(rows, width, k),
    decreases n,
{
    if k < n {
        rows_fault_stays(rows, width, k, (n - 1) as nat);
    }
}

fn read_row(row: &Json, width: usize, rgb: &mut Vec<u8>) -> (r: Result<(), &'static str>)
    ensures
        match r {
            Ok(()) => row_fault(*row, width as nat) is None && final(rgb)@ == old(rgb)@ + row_bytes(
                *row,
            ),
            Err(message) => row_fault(*row, width as nat) == Some(message@),
        },
{
    match row.as_array() {
        None => Err("cropped_face rows must be arrays"),
        Some(pixels) => {
            if pixels.len() != width {
                return Err("cropped_face rows must have equal width");
            }
            let ghost before = rgb@;
            let mut i: usize = 0;
            proof {
                assert(before + pixels_bytes(pixels@, 0) =~= before);
            }
            while i < pixels.len()
                invariant
                    i <= pixels.len(),
                    *row == Json::Array(*pixels),
                    pixels@.len() == width,
                    pixels_fault(pixels@, i as nat) is None,
                    rgb@ == before + pixels_bytes(pixels@, i as nat),
                decreases pixels.len() - i,
            {
                if let Err(message) = read_pixel(&pixels[i], rgb) {
                    proof {
                        assert(pixels_fault(pixels@, (i + 1) as nat) == Some(message@));
                        pixels_fault_stays(pixels@, (i + 1) as nat, pixels@.len());
                    }
                    return Err(message);
                }
                proof {
                    assert(rgb@ =~= before + pixels_bytes(pixels@, (i + 1) as nat));
                }
                i = i + 1;
            }
            Ok(())
        },
    }
}

/// The picture that a document holds: rows of pixels of three bytes.
pub fn parse_face_crop(value: &Json) -> (r: Result<FaceCrop, &'static str>)
    ensures
        crop_read(*value, r),
{
    match value.as_array() {
        None => Err("cropped_face must be an RGB row array"),
        Some(rows) => {
            let width: usize = if rows.len() == 0 {
                0
            } else {
                match rows[0].as_array() {
                    Some(pixels) => pixels.len(),
                    None => 0,
                }
            };
            assert(width == first_width(rows@));
            if width == 0 {
                return Err("cropped_face must not be empty");
            }
            let mut rgb: Vec<u8> = Vec::new();
            let mut i: usize = 0;
            while i < rows.len()
                invariant
                    i <= rows.len(),
                    *value == Json::Array(*rows),
                    width == first_width(rows@),
                    width > 0,
                    rows_fault(rows@, width as nat, i as nat) is None,
                    rgb@ == rows_bytes(rows@, i as nat),
                decreases rows.len() - i,
            {
                if let Err(message) = read_row(&rows[i], width, &mut rgb) {
                    proof {
                        assert(rows_fault(rows@, width as nat, (i + 1) as nat) == Some(message@));
                        rows_fault_stays(rows@, width as nat, (i + 1) as nat, rows@.len());
                    }
                    return Err(message);
                }
                i = i + 1;
            }
            let height: usize = rows.len();
            Ok(
                FaceCrop {
                    width: #[verifier::truncate] (width as u32),
                    height: #[verifier::truncate] (height as u32),
                    rgb,
                },
            )
        },
    }
}

/// A byte of a picture as a document holds it.
pub open spec fn is_channel(value: Json, byte: u8) -> bool {
    value matches Json::Number(JsonNumber::Whole { value: n, .. }) && n == byte
}

/// A pixel as a document holds it.
pub open spec fn is_pixel(value: Json, rgb: Seq<u8>, at: int) -> bool {
    &&& value matches Json::Array(channels)
    &&& channels@.len() == 3
    &&& is_channel(channels@[0], rgb[at])
    &&& is_channel(channels@[1], rgb[at + 1])
    &&& is_channel(channels@[2], rgb[at + 2])
}

/// A row of pixels as a document holds it.
pub open spec fn is_row(value: Json, rgb: Seq<u8>, width: int, row: int) -> bool {
    &&& value matches Json::Array(pixels)
    &&& pixels@.len() == width
    &&& forall|i: int|
        0 <= i < width ==> is_pixel(#[trigger] pixels@[i], rgb, (row * width + i) * 3)
}

/// The number of whole rows that a picture has, at most its height.
pub open spec fn whole_rows(crop: Crop) -> int {
    let rows = crop.rgb.len() as int / (crop.width * 3);
    if rows < crop.height {
        rows
    } else {
        crop.height as int
    }
}

/// A picture as a document holds it.
pub open spec fn is_crop(value: Json, crop: Crop) -> bool {
    &&& value matches Json::Array(rows)
    &&& rows@.len() == whole_rows(crop)
    &&& forall|i: int|
        0 <= i < rows@.len() ==> is_row(#[trigger] rows@[i], crop.rgb, crop.width as int, i)
}

/// A whole number has the double-precision number that `precise` gives for it.
pub open spec fn whole_given<B: Fn(u64) -> Double>(value: Json, precise: B) -> bool {
    value matches Json::Number(JsonNumber::Whole { value: n, wide: d }) ==> call_ensures(
        precise,
        (n,),
        d,
    )
}

/// So have all those of a pixel.
pub open spec fn pixel_given<B: Fn(u64) -> Double>(value: Json, precise: B) -> bool {
    value matches Json::Array(channels) ==> forall|i: int|
        0 <= i < channels@.len() ==> whole_given(#[trigger] channels@[i], precise)
}

/// So have all those of a row.
pub open spec fn row_given<B: Fn(u64) -> Double>(value: Json, precise: B) -> bool {
    value matches Json::Array(pixels) ==> forall|i: int|
        0 <= i < pixels@.len() ==> pixel_given(#[trigger] pixels@[i], precise)
}

/// So have all those of a picture.
pub open spec fn crop_given<B: Fn(u64) -> Double>(value: Json, precise: B) -> bool {
    value matches Json::Array(rows) ==> forall|i: int|
        0 <= i < rows@.len() ==> row_given(#[trigger] rows@[i], precise)
}

fn channel_value<B: Fn(u64) -> Double>(byte: u8, precise: &B) -> (r: Json)
    requires
        forall|n: u64| call_requires(*precise, (n,)),
    ensures
        is_channel(r, byte),
        whole_given(r, *precise),
{
    let value: u64 = byte as u64;
    Json::Number(JsonNumber::Whole { value, wide: precise(value) })
}

/// The picture as a document holds it. `precise` gives a whole number in double precision.
pub fn face_crop_value<B: Fn(u64) -> Double>(crop: &FaceCrop, precise: &B) -> (r: Json)
    requires
        crop.width > 0,
        forall|n: u64| call_requires(*precise, (n,)),
    ensures
        is_crop(r, crop@),
        crop_given(r, *precise),
{
    let width: usize = crop.width as usize;
    let mut rows: Vec<Json> = Vec::new();
    let total: usize = crop.rgb.len();
    let mut left: usize = total;
    let mut at: usize = 0;
    let ghost size = crop.width as int * 3;
    proof {
        assert(0int * size == 0) by (nonlinear_arith);
    }
    while rows.len() < crop.height as usize && left / 3 >= width
        invariant
            width == crop.width,
            width > 0,
            size == crop.width as int * 3,
            rows@.len() <= crop.height,
            at == rows@.len() * size,
            at + left == total,
            total == crop.rgb@.len(),
            forall|i: int|
                0 <= i < rows@.len() ==> is_row(
                    #[trigger] rows@[i],
                    crop.rgb@,
                    crop.width as int,
                    i,
                ),
            forall|n: u64| call_requires(*precise, (n,)),
            forall|i: int| 0 <= i < rows@.len() ==> row_given(#[trigger] rows@[i], *precise),
        decreases left,
    {
        let ghost row = rows@.len() as int;
        let mut pixels: Vec<Json> = Vec::new();
        let mut p: usize = at;
        assert(left >= size);
        while pixels.len() < width
            invariant
                width == crop.width,
                at + left == total,
                total == crop.rgb@.len(),
                left >= width * 3,
                pixels@.len() <= width,
                p == at + pixels@.len() * 3,
                at == row * size,
                size == crop.width as int * 3,
                forall|i: int|
                    0 <= i < pixels@.len() ==> is_pixel(
                        #[trigger] pixels@[i],
                        crop.rgb@,
                        (row * crop.width + i) * 3,
                    ),
                forall|n: u64| call_requires(*precise, (n,)),
                forall|i: int|
                    0 <= i < pixels@.len() ==> pixel_given(#[trigger] pixels@[i], *precise),
            decreases width - pixels.len(),
        {
            let mut channels: Vec<Json> = Vec::new();
            channels.push(channel_value(crop.rgb[p], precise));
            channels.push(channel_value(crop.rgb[p + 1], precise));
            channels.push(channel_value(crop.rgb[p + 2], precise));
            proof {
                let i = pixels@.len() as int;
                assert(p == (row * crop.width + i) * 3) by (nonlinear_arith)
                    requires
                        p == at + i * 3,
                        at == row * size,
                        size == crop.width as int * 3,
                ;
            }
            pixels.push(Json::Array(channels));
            p = p + 3;
        }
        rows.push(Json::Array(pixels));
        proof {
            assert((row + 1) * size == row * size + size) by (nonlinear_arith);
        }
        at = p;
        left = left - width * 3;
    }
    proof {
        let n = rows@.len() as int;
        let total = total as int;
        assert(total == n * size + left);
        if n < crop.height {
            assert(left < size);
            assert(total / size == n) by (nonlinear_arith)
                requires
                    total == n * size + left,
                    0 <= left < size,
            ;
        } else {
            assert(total / size >= n) by (nonlinear_arith)
                requires
                    total == n * size + left,
                    0 <= left,
                    size > 0,
            ;
        }
    }
    Json::Array(rows)
}

/// A picture that was written is read back as it was, where it has a byte for every channel.
pub proof fn crop_reads_back(crop: Crop, value: Json, r: Result<FaceCrop, &'static str>)
    requires
        crop.width > 0,
        crop.height > 0,
        crop.rgb.len() == crop.width * crop.height * 3,
        is_crop(value, crop),
        crop_read(value, r),
    ensures
        r matches Ok(read) && read@ == crop,
{
    let rows = value->Array_0@;
    let w = crop.width as int;
    let h = crop.height as int;
    let rgb = crop.rgb;
    assert(rgb.len() as int / (w * 3) == h) by (nonlinear_arith)
        requires
            rgb.len() as int == w * h * 3,
            w > 0,
    ;
    assert(rows.len() == h);
    assert(is_row(rows[0], rgb, w, 0));
    rows_are_read(rows, rgb, w, h, h as nat);
    assert(w * h * 3 == h * w * 3) by (nonlinear_arith);
    assert(rgb.take(h * w * 3) =~= rgb);
    assert((r->Ok_0)@ =~= crop);
}

proof fn rows_are_read(rows: Seq<Json>, rgb: Seq<u8>, w: int, h: int, n: nat)
    requires
        n <= h,
        w > 0,
        rows.len() == h,
        rgb.len() == w * h * 3,
        forall|i: int| 0 <= i < rows.len() ==> is_row(#[trigger] rows[i], rgb, w, i),
    ensures
        rows_fault(rows, w as nat, n) is None,
        n * w * 3 <= rgb.len(),
        rows_bytes(rows, n) == rgb.take(n * w * 3),
    decreases n,
{
    assert(n * w * 3 <= w * h * 3) by (nonlinear_arith)
        requires
            n <= h,
            w > 0,
    ;
    if n == 0 {
        assert(0 * w * 3 == 0) by (nonlinear_arith);
        assert(rgb.take(0) =~= Seq::<u8>::empty());
    } else {
        let m = (n - 1) as nat;
        rows_are_read(rows, rgb, w, h, m);
        let row = rows[m as int];
        assert(is_row(row, rgb, w, m as int));
        let pixels = row->Array_0@;
        assert(m * w * 3 + w * 3 == n * w * 3) by (nonlinear_arith)
            requires
                n == m + 1,
        ;
        pixels_are_read(pixels, rgb, m as int * w, w as nat);
        assert((m * w) * 3 == m * w * 3) by (nonlinear_arith);
        assert(rgb.take(n * w * 3) =~= rgb.take(m * w * 3) + rgb.subrange(
            m * w * 3,
            m * w * 3 + w * 3,
        ));
    }
}

proof fn pixels_are_read(pixels: Seq<Json>, rgb: Seq<u8>, start: int, n: nat)
    requires
        n <= pixels.len(),
        start >= 0,
        start * 3 + pixels.len() * 3 <= rgb.len(),
        forall|i: int|
            0 <= i < pixels.len() ==> is_pixel(#[trigger] pixels[i], rgb, (start + i) * 3),
    ensures
        pixels_fault(pixels, n) is None,
        pixels_bytes(pixels, n) == rgb.subrange(start * 3, start * 3 + n * 3),
    decreases n,
{
    if n > 0 {
        let m = (n - 1) as nat;
        pixels_are_read(pixels, rgb, start, m);
        let pixel = pixels[m as int];
        assert(is_pixel(pixel, rgb, (start + m) * 3));
        let channels = pixel->Array_0@;
        assert(is_byte(channels[0]) && is_byte(channels[1]) && is_byte(channels[2]));
        let at = start * 3 + m * 3;
        assert(pixel_bytes(pixel) =~= seq![rgb[at], rgb[at + 1], rgb[at + 2]]);
        assert(rgb.subrange(start * 3, start * 3 + n * 3) =~= rgb.subrange(start * 3, at)
            + pixel_bytes(pixel));
    } else {
        assert(rgb.subrange(start * 3, start * 3) =~= Seq::<u8>::empty());
    }
}

/// A number of an embedding as a document holds it.
pub open spec fn is_number(value: Json, single: Single) -> bool {
    if single.finite() {
        value matches Json::Number(JsonNumber::Exact { value: s, .. }) && s == single
    } else {
        value is Null
    }
}

/// An embedding as a document holds it.
pub open spec fn is_embedding(value: Json, values: Seq<Single>) -> bool {
    &&& value matches Json::Array(list)
    &&& list@.len() == values.len()
    &&& forall|i: int| 0 <= i < values.len() ==> is_number(#[trigger] list@[i], values[i])
}

/// Embeddings as a document holds them.
pub open spec fn is_store(value: Json, store: Map<Seq<char>, Seq<Single>>) -> bool {
    &&& value matches Json::Object(o)
    &&& ascending(o.pairs())
    &&& o@.dom() == store.dom()
    &&& forall|key: Seq<char>| #[trigger]
        store.dom().contains(key) ==> is_embedding(o@[key], store[key])
}

/// A single-precision number has the double-precision number that `widen` gives for it.
pub open spec fn single_given<W: Fn(Single) -> Double>(value: Json, widen: W) -> bool {
    value matches Json::Number(JsonNumber::Exact { value: s, wide: d }) ==> call_ensures(
        widen,
        (s,),
        d,
    )
}

/// So have all those of an embedding.
pub open spec fn embedding_given<W: Fn(Single) -> Double>(value: Json, widen: W) -> bool {
    value matches Json::Array(list) ==> forall|i: int|
        0 <= i < list@.len() ==> single_given(#[trigger] list@[i], widen)
}

/// So have all those of embeddings.
pub open spec fn store_given<W: Fn(Single) -> Double>(value: Json, widen: W) -> bool {
    value matches Json::Object(o) ==> forall|key: Seq<char>| #[trigger]
        o@.dom().contains(key) ==> embedding_given(o@[key], widen)
}

fn embedding_value<W: Fn(Single) -> Double>(values: &Vec<Single>, widen: &W) -> (r: Json)
    requires
        forall|s: Single| call_requires(*widen, (s,)),
    ensures
        is_embedding(r, values@),
        embedding_given(r, *widen),
{
    let mut list: Vec<Json> = Vec::new();
    let mut i: usize = 0;
    while i < values.len()
        invariant
            i <= values.len(),
            list@.len() == i,
            forall|s: Single| call_requires(*widen, (s,)),
            forall|j: int| 0 <= j < i ==> is_number(#[trigger] list@[j], values@[j]),
            forall|j: int| 0 <= j < i ==> single_given(#[trigger] list@[j], *widen),
        decreases values.len() - i,
    {
        if values[i].is_finite() {
            let value: Single = values[i];
            list.push(Json::Number(JsonNumber::Exact { value, wide: widen(value) }));
        } else {
            list.push(Json::Null);
        }
        i = i + 1;
    }
    Json::Array(list)
}

/// Embeddings as a document holds them. A number that is not finite is null; `widen` gives the
/// others in double precision.
pub fn embedding_store_value<W: Fn(Single) -> Double>(store: &EmbeddingStore, widen: &W) -> (r: Json)
    requires
        forall|s: Single| call_requires(*widen, (s,)),
    ensures
        is_store(r, embedded(*store)),
        store_given(r, *widen),
{
    let mut object: TextMap<Json> = TextMap::new();
    let n: usize = store.len();
    let ghost pairs = store.pairs();
    let mut i: usize = 0;
    while i < n
        invariant
            i <= n,
            n == pairs.len(),
            pairs == store.pairs(),
            ascending(pairs),
            ascending(object.pairs()),
            forall|s: Single| call_requires(*widen, (s,)),
            forall|key: Seq<char>| #[trigger]
                object@.dom().contains(key) ==> embedding_given(object@[key], *widen),
            forall|key: Seq<char>| #[trigger]
                object@.dom().contains(key) <==> exists|j: int|
                    0 <= j < i && (#[trigger] pairs[j]).0 == key,
            forall|j: int| 0 <= j < i ==> is_embedding(object@[(#[trigger] pairs[j]).0], pairs[j].1@),
        decreases n - i,
    {
        let ghost before = object@;
        let value: Json = embedding_value(store.value_at(i), widen);
        let _ = object.insert(store.key_at(i).clone(), value);
        proof {
            assert forall|key: Seq<char>| #[trigger] object@.dom().contains(key) <==> exists|j: int|
                0 <= j < i + 1 && (#[trigger] pairs[j]).0 == key by {
                assert(before.dom().contains(key) <==> exists|j: int|
                    0 <= j < i && (#[trigger] pairs[j]).0 == key);
                assert(pairs[i as int].0 == pairs[i as int].0);
            }
            assert forall|j: int| 0 <= j < i + 1 implies is_embedding(
                object@[(#[trigger] pairs[j]).0],
                pairs[j].1@,
            ) by {
                if j < i {
                    entry_is_unique(pairs, j);
                    entry_is_unique(pairs, i as int);
                    assert(pairs[j].0 != pairs[i as int].0);
                }
            }
        }
        i = i + 1;
    }
    proof {
        let all = embedded(*store);
        assert forall|key: Seq<char>| #[trigger] object@.dom().contains(key)
            <==> all.dom().contains(key) by {
            if all.dom().contains(key) {
                let p = place_of(pairs, key);
                assert(pairs[p].0 == key);
            }
            if exists|j: int| 0 <= j < n && (#[trigger] pairs[j]).0 == key {
                let j = choose|j: int| 0 <= j < n && (#[trigger] pairs[j]).0 == key;
                entry_is_unique(pairs, j);
            }
        }
        assert(object@.dom() =~= all.dom());
        assert forall|key: Seq<char>| #[trigger] all.dom().contains(key) implies is_embedding(
            object@[key],
            all[key],
        ) by {
            let p = place_of(pairs, key);
            assert(pairs[p].0 == key);
            entry_is_unique(pairs, p);
        }
    }
    Json::Object(object)
}

/// Embeddings that were written are read back as they were, where they are finite.
pub proof fn store_reads_back(
    store: Map<Seq<char>, Seq<Single>>,
    value: Json,
    r: Result<EmbeddingStore, &'static str>,
)
    requires
        is_store(value, store),
        store_read(Some(value), r),
        forall|key: Seq<char>| #[trigger]
            store.dom().contains(key) ==> crate::embeddings::all_finite(store[key]),
    ensures
        r matches Ok(read) && embedded(read) == store,
{
    let o = value->Object_0;
    assert forall|key: Seq<char>| #[trigger] store.dom().contains(key) implies numbers(o@[key])
        && numbers_of(o@[key]) == store[key] by {
        assert(is_embedding(o@[key], store[key]));
        let list = (o@[key]->Array_0)@;
        assert forall|i: int| 0 <= i < list.len() implies (#[trigger] list[i]).single() == Some(
            store[key][i],
        ) by {
            assert(is_number(list[i], store[key][i]));
            assert(store[key][i].finite());
        }
        assert(numbers_of(o@[key]) =~= store[key]);
    }
    match r {
        Ok(read) => {
            assert(embedded(read) =~= store);
        },
        Err(_) => {
            let pairs = o.pairs();
            let i = choose|i: int| 0 <= i < pairs.len() && !numbers((#[trigger] pairs[i]).1);
            entry_is_unique(pairs, i);
            assert(store.dom().contains(pairs[i].0));
        },
    }
}

} // verus!
