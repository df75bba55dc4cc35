//! The right panel's background: which image of the backgrounds directory
//! is used, and its pixels scaled to fill the panel.

use vstd::prelude::*;

use crate::paths::{extension_of, path_extension};
use crate::text::{chars_eq_str, chars_less, chars_lt, chars_of, lemma_chars_lt_transitive, lower_text, string_views, to_lowercase};

verus! {

/// An image format the panel can show, by the path's extension in
/// lowercase: jpg, jpeg, png, webp.
pub open spec fn supported_image(path: Seq<char>) -> bool {
    match path_extension(path) {
        Some(e) => {
            let l = lower_text(e);
            l == "jpg"@ || l == "jpeg"@ || l == "png"@ || l == "webp"@
        },
        None => false,
    }
}

fn is_supported_image(path: &str) -> (b: bool)
    ensures
        b == supported_image(path@),
{
    match extension_of(path) {
        Some(e) => {
            let ec = chars_of(e.as_str());
            let l = to_lowercase(ec.as_slice());
            let s = l.as_slice();
            chars_eq_str(s, "jpg") || chars_eq_str(s, "jpeg") || chars_eq_str(s, "png")
                || chars_eq_str(s, "webp")
        },
        None => false,
    }
}

/// Entry `i` is the first supported image in path order.
pub open spec fn first_image_at(entries: Seq<Seq<char>>, i: int) -> bool {
    &&& 0 <= i < entries.len()
    &&& supported_image(entries[i])
    &&& forall|j: int| 0 <= j < entries.len() && supported_image(#[trigger] entries[j]) ==> !chars_lt(entries[j], entries[i])
}

/// The first supported image, in path order, among the entries of the
/// backgrounds directory (for entries of one directory, path order is the
/// order of their texts).
pub fn pick_background(entries: &[String]) -> (r: Option<String>)
    ensures
        match r {
            Some(p) => exists|i: int| first_image_at(string_views(entries@), i) && p@ == entries@[i]@,
            None => forall|j: int| 0 <= j < entries@.len() ==> !supported_image(#[trigger] entries@[j]@),
        },
{
    let ghost es = string_views(entries@);
    let mut best: Option<usize> = None;
    let mut k: usize = 0;
    while k < entries.len()
        invariant
            k <= entries@.len(),
            es == string_views(entries@),
            match best {
                Some(b) => b < k && supported_image(es[b as int]) && forall|j: int| 0 <= j < k && supported_image(#[trigger] es[j]) ==> !chars_lt(es[j], es[b as int]),
                None => forall|j: int| 0 <= j < k ==> !supported_image(#[trigger] es[j]),
            },
        decreases entries@.len() - k,
    {
        assert(es[k as int] == entries@[k as int]@);
        if is_supported_image(entries[k].as_str()) {
            match best {
                None => {
                    best = Some(k);
                    proof {
                        crate::text::lemma_chars_lt_irreflexive(es[k as int]);
                    }
                },
                Some(b) => {
                    let kc = chars_of(entries[k].as_str());
                    let bc = chars_of(entries[b].as_str());
                    assert(es[b as int] == entries@[b as int]@);
                    if chars_less(kc.as_slice(), bc.as_slice()) {
                        proof {
                            assert forall|j: int| 0 <= j < k + 1 && supported_image(#[trigger] es[j]) implies !chars_lt(es[j], es[k as int]) by {
                                if j < k && chars_lt(es[j], es[k as int]) {
                                    lemma_chars_lt_transitive(es[j], es[k as int], es[b as int]);
                                }
                                if j == k {
                                    crate::text::lemma_chars_lt_irreflexive(es[k as int]);
                                }
                            }
                        }
                        best = Some(k);
                    }
                },
            }
        }
        k = k + 1;
    }
    match best {
        Some(b) => {
            assert(first_image_at(es, b as int));
            let out = entries[b].clone();
            assert(out@ == entries@[b as int]@);
            assert(exists|i: int| first_image_at(string_views(entries@), i) && out@ == entries@[i]@);
            Some(out)
        },
        None => {
            assert forall|j: int| 0 <= j < entries@.len() implies !supported_image(#[trigger] entries@[j]@) by {
                assert(es[j] == entries@[j]@);
            }
            None
        },
    }
}

/// RGBA bytes of at most `width` × `height` pixels.
pub open spec fn rgba_within(v: Seq<u8>, width: u32, height: u32) -> bool {
    v.len() % 4 == 0 && v.len() <= 4 * (width as nat) * (height as nat)
}

/// Calls `image::ImageFormat::from_path`, `image::load_from_memory_with_format`
/// and `DynamicImage::resize_to_fill` with the Lanczos3 filter, then
/// `to_rgba8`. Stated: the bytes are RGBA, four a pixel, and the crop that
/// ends `resize_to_fill` keeps at most `width` × `height` pixels. Which
/// pixels come out is not stated: the filter computes with the platform's
/// `f32` sine, so the bytes need not be the same on every machine; nor is
/// which files decode.
#[verifier::external_body]
fn decode_and_fill(path: &str, bytes: &[u8], width: u32, height: u32) -> (r: Option<Vec<u8>>)
    ensures
        r matches Some(v) ==> rgba_within(v@, width, height),
{
    let format = image::ImageFormat::from_path(path).ok()?;
    let img = image::load_from_memory_with_format(bytes, format).ok()?;
    let filled = img.resize_to_fill(width, height, image::imageops::FilterType::Lanczos3);
    Some(filled.to_rgba8().into_raw())
}

/// The background's pixels, scaled to the panel's size, from the file's
/// path and contents: RGBA of at most `width` × `height` pixels, or `None`
/// when the image crate cannot decode it.
pub fn load_background_rgba(path: &str, bytes: &[u8], width: u32, height: u32) -> (r: Option<Vec<u8>>)
    ensures
        r matches Some(v) ==> rgba_within(v@, width, height),
{
    decode_and_fill(path, bytes, width, height)
}

} // verus!
