//! Pictures as bytes: three of them, red, green and blue, for each pixel.

use vstd::prelude::*;

verus! {

/// The longest side on which a single-precision number still tells the middle of every pixel.
pub const LONGEST_SIDE: u32 = 0x40_0000;

/// The bytes of a picture of `width` by `height` pixels that `image::imageops::resize` scales to
/// `new_width` by `new_height` with its triangle filter.
pub uninterp spec fn resized_rgb(
    bytes: Seq<u8>,
    width: u32,
    height: u32,
    new_width: u32,
    new_height: u32,
) -> Seq<u8>;

/// `image::RgbImage::from_raw`, then `image::imageops::resize` with the triangle filter. The first
/// gives nothing where the bytes are too few for the size. The bytes of the second depend on the
/// picture and the sizes alone; what they are is left unsaid but for their number, three for each
/// pixel of the new size. It panics where a buffer between the two sizes, with four numbers for
/// each pixel, is too large to count.
#[verifier::external_body]
fn resize_rgb(bytes: Vec<u8>, width: u32, height: u32, new_width: u32, new_height: u32) -> (r:
    Option<Vec<u8>>)
    requires
        width <= LONGEST_SIDE,
        height <= LONGEST_SIDE,
        1 <= new_width <= LONGEST_SIDE,
        1 <= new_height <= LONGEST_SIDE,
        4 * (width * new_height) <= usize::MAX,
        4 * (new_width * new_height) <= usize::MAX,
    ensures
        r is Some <==> 3 * (width * height) <= bytes@.len(),
        r matches Some(scaled) ==> {
            &&& scaled@ == resized_rgb(bytes@, width, height, new_width, new_height)
            &&& scaled@.len() == 3 * (new_width * new_height)
        },
{
    let source = image::RgbImage::from_raw(width, height, bytes)?;
    let filter = image::imageops::FilterType::Triangle;
    Some(image::imageops::resize(&source, new_width, new_height, filter).into_raw())
}

/// A picture to show.
#[derive(Debug, Clone, PartialEq, Eq)]
pub struct EditorPreviewImage {
    pub data: Vec<u8>,
    pub width: u32,
    pub height: u32,
}

/// The longer side.
pub open spec fn longer(width: u32, height: u32) -> u32 {
    if width > height {
        width
    } else {
        height
    }
}

/// A side is at least one pixel long.
pub open spec fn at_least_one(side: u32) -> u32 {
    if side < 1 {
        1
    } else {
        side
    }
}

/// `picture` is the picture scaled to sides that `scaled` gives, each at least one.
pub open spec fn scaled_down<F: Fn(u32, u32, u32) -> u32>(
    picture: EditorPreviewImage,
    bytes: Seq<u8>,
    width: u32,
    height: u32,
    max_side: u32,
    scaled: &F,
) -> bool {
    let longest = longer(width, height);
    exists|w: u32, h: u32|
        #![trigger at_least_one(w), at_least_one(h)]
        {
            &&& scaled.ensures((width, longest, max_side), w)
            &&& scaled.ensures((height, longest, max_side), h)
            &&& picture.width == at_least_one(w)
            &&& picture.height == at_least_one(h)
            &&& picture.data@ == resized_rgb(bytes, width, height, picture.width, picture.height)
        }
}

proof fn product_grows(a: u32, b: u32, c: int)
    requires
        b <= c,
    ensures
        a * b <= a * c,
{
    assert(a * b <= a * c) by (nonlinear_arith)
        requires
            b <= c,
            0 <= a,
    ;
}

proof fn pixels_fit(width: u32, height: u32)
    ensures
        0 <= width * height <= 0xffff_ffff * 0xffff_ffff,
{
    assert(0 <= width * height && width * height <= 0xffff_ffff * 0xffff_ffff) by (nonlinear_arith)
        requires
            width <= 0xffff_ffff,
            height <= 0xffff_ffff,
    ;
}

/// The picture to show for a picture: the same one where no side is longer than `max_side`, else
/// one that is scaled down. `scaled` gives the length of a side, from the side, the longer side and
/// the longest side that is shown, and gives none that is longer than that. None where the bytes
/// do not match the size.
pub fn color_preview_from_rgb<F: Fn(u32, u32, u32) -> u32>(
    data: &Vec<u8>,
    width: u32,
    height: u32,
    max_side: u32,
    scaled: &F,
) -> (r: Option<EditorPreviewImage>)
    requires
        width <= LONGEST_SIDE,
        height <= LONGEST_SIDE,
        max_side < LONGEST_SIDE,
        4 * (width * (max_side + 1)) <= usize::MAX,
        4 * ((max_side + 1) * (max_side + 1)) <= usize::MAX,
        forall|side: u32, longest: u32, most: u32| scaled.requires((side, longest, most)),
        forall|side: u32, longest: u32, most: u32, got: u32| #[trigger]
            scaled.ensures((side, longest, most), got) ==> got <= most,
    ensures
        match r {
            None => data@.len() != 3 * (width * height),
            Some(picture) => {
                &&& data@.len() == 3 * (width * height)
                &&& if longer(width, height) <= max_side {
                    picture.width == width && picture.height == height && picture.data@ == data@
                } else {
                    &&& scaled_down(picture, data@, width, height, max_side, scaled)
                    &&& picture.data@.len() == 3 * (picture.width * picture.height)
                }
            },
        },
{
    proof {
        pixels_fit(width, height);
    }
    let expected: u128 = 3 * (width as u128 * height as u128);
    if data.len() as u128 != expected {
        return None;
    }
    let longest: u32 = if width > height {
        width
    } else {
        height
    };
    let mut bytes: Vec<u8> = Vec::new();
    bytes.extend_from_slice(data.as_slice());
    proof {
        assert(bytes@ =~= data@);
    }
    if longest <= max_side {
        return Some(EditorPreviewImage { data: bytes, width, height });
    }
    let w: u32 = scaled(width, longest, max_side);
    let h: u32 = scaled(height, longest, max_side);
    let new_width: u32 = if w < 1 {
        1
    } else {
        w
    };
    let new_height: u32 = if h < 1 {
        1
    } else {
        h
    };
    proof {
        product_grows(width, new_height, max_side + 1);
        product_grows(new_width, new_height, max_side + 1);
        assert(new_width * (max_side + 1) <= (max_side + 1) * (max_side + 1)) by (nonlinear_arith)
            requires
                new_width <= max_side + 1,
                0 <= max_side,
        ;
        assert(new_width == at_least_one(w) && new_height == at_least_one(h));
    }
    match resize_rgb(bytes, width, height, new_width, new_height) {
        Some(data) => Some(EditorPreviewImage { data, width: new_width, height: new_height }),
        None => None,
    }
}

} // verus!
