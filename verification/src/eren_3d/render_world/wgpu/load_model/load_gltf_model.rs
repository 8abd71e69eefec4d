use vstd::prelude::*;

use image::RgbaImage;

verus! {

/// The pixel layout of an image embedded in a glTF file.
#[derive(Clone, Copy, PartialEq, Eq, Structural)]
pub enum ImageFormat {
    R8,
    R8G8,
    R8G8B8,
    R8G8B8A8,
    R16,
    R16G16,
    R16G16B16,
    R16G16B16A16,
    R32G32B32FLOAT,
    R32G32B32A32FLOAT,
}

/// An image of a glTF file, decoded: its pixel bytes, their layout, and its size.
pub struct ImageData {
    pub pixels: Vec<u8>,
    pub format: ImageFormat,
    pub width: u32,
    pub height: u32,
}

/// Whether `len` bytes hold a `width` by `height` RGBA8 image, four bytes a pixel,
/// with the bytes of a row and of the whole image representable.
pub open spec fn rgba_buffer_fits(width: u32, height: u32, len: nat) -> bool {
    &&& 4 * width <= usize::MAX
    &&& 4 * width * height <= usize::MAX
    &&& 4 * width * height <= len
}

/// An RGBA8 image as plain values: its size and its pixel bytes, row after row.
pub struct RgbaPixels {
    pub width: u32,
    pub height: u32,
    pub data: Vec<u8>,
}

/// Calls `image::ImageBuffer::from_raw` for RGBA8 pixels, then reads the image back
/// with `dimensions` and `into_raw`. Their source makes an image exactly when
/// `4 * width * height`, computed with checked `usize` products, fits in
/// `pixels`, and the image keeps the given size and bytes.
#[verifier::external_body]
fn rgba_image_from_raw(width: u32, height: u32, pixels: Vec<u8>) -> (image: Option<RgbaPixels>)
    ensures
        image is Some <==> rgba_buffer_fits(width, height, pixels@.len()),
        image matches Some(img) ==> img.width == width && img.height == height && img.data@
            == pixels@,
{
    match RgbaImage::from_raw(width, height, pixels) {
        Some(img) => {
            let (w, h) = img.dimensions();
            Some(RgbaPixels { width: w, height: h, data: img.into_raw() })
        },
        None => None,
    }
}

/// The RGBA bytes of the first `chunks` RGB pixels of `rgb`: each gains an opaque
/// alpha byte.
pub open spec fn rgb_to_rgba(rgb: Seq<u8>, chunks: nat) -> Seq<u8>
    decreases chunks,
{
    if chunks == 0 {
        Seq::empty()
    } else {
        let c = chunks - 1;
        rgb_to_rgba(rgb, c as nat) + seq![rgb[3 * c], rgb[3 * c + 1], rgb[3 * c + 2], 255u8]
    }
}

proof fn lemma_rgb_to_rgba_len(rgb: Seq<u8>, chunks: nat)
    ensures
        rgb_to_rgba(rgb, chunks).len() == 4 * chunks,
    decreases chunks,
{
    if chunks > 0 {
        lemma_rgb_to_rgba_len(rgb, (chunks - 1) as nat);
    }
}

/// Every whole RGB pixel of `rgb` with an opaque alpha byte added; a trailing
/// partial pixel is dropped.
pub fn expand_rgb_to_rgba(rgb: &Vec<u8>) -> (rgba: Vec<u8>)
    ensures
        rgba@ == rgb_to_rgba(rgb@, rgb@.len() / 3),
        rgba@.len() == 4 * (rgb@.len() / 3),
{
    let n = rgb.len();
    let mut rgba: Vec<u8> = Vec::new();
    let mut j: usize = 0;
    let ghost mut c: nat = 0;
    while n - j >= 3
        invariant
            n == rgb@.len(),
            j == 3 * c,
            j <= n,
            rgba@ == rgb_to_rgba(rgb@, c),
        decreases n - j,
    {
        rgba.push(rgb[j]);
        rgba.push(rgb[j + 1]);
        rgba.push(rgb[j + 2]);
        rgba.push(255u8);
        proof {
            c = c + 1;
            assert(rgba@ =~= rgb_to_rgba(rgb@, c));
        }
        j = j + 3;
    }
    assert(c == n / 3);
    proof {
        lemma_rgb_to_rgba_len(rgb@, c);
    }
    rgba
}

/// The RGBA bytes of an embedded image, for the layouts the engine takes: RGBA8 as
/// is, RGB8 with an opaque alpha added; `None` for every other layout.
pub open spec fn rgba_pixels_of(format: ImageFormat, pixels: Seq<u8>) -> Option<Seq<u8>> {
    match format {
        ImageFormat::R8G8B8A8 => Some(pixels),
        ImageFormat::R8G8B8 => Some(rgb_to_rgba(pixels, pixels.len() / 3)),
        _ => None,
    }
}

/// The texture image for glTF image `source_index` of `images`: `None` when its
/// layout is not taken or its pixels are fewer than its size needs.
pub fn load_texture_image(source_index: usize, images: &Vec<ImageData>) -> (image: Option<
    RgbaPixels,
>)
    requires
        source_index < images@.len(),
        images@[source_index as int].format == ImageFormat::R8G8B8 ==> images@[source_index as int].width
            * images@[source_index as int].height * 4 <= u32::MAX,
    ensures
        ({
            let img = images@[source_index as int];
            match rgba_pixels_of(img.format, img.pixels@) {
                Some(rgba) => if rgba_buffer_fits(img.width, img.height, rgba.len()) {
                    image matches Some(out) && out.width == img.width && out.height == img.height
                        && out.data@ == rgba
                } else {
                    image is None
                },
                None => image is None,
            }
        }),
        ({
            let img = images@[source_index as int];
            &&& img.format == ImageFormat::R8G8B8A8 && rgba_buffer_fits(
                img.width,
                img.height,
                img.pixels@.len(),
            ) ==> (image matches Some(out) && out.data@ == img.pixels@)
            &&& img.format == ImageFormat::R8G8B8 ==> (image matches Some(out) ==> {
                &&& out.data@.len() == 4 * (img.pixels@.len() / 3)
                &&& forall|t: int|
                    0 <= t < out.data@.len() ==> #[trigger] out.data@[t] == rgba_byte_from_rgb(
                        img.pixels@,
                        t,
                    )
            })
            &&& img.format != ImageFormat::R8G8B8A8 && img.format != ImageFormat::R8G8B8 ==> image is None
        }),
{
    proof {
        law_texture_bytes(images@[source_index as int].format, images@[source_index as int].pixels@);
    }
    let img = &images[source_index];
    match img.format {
        ImageFormat::R8G8B8A8 => rgba_image_from_raw(img.width, img.height, img.pixels.clone()),
        ImageFormat::R8G8B8 => {
            let rgba = expand_rgb_to_rgba(&img.pixels);
            rgba_image_from_raw(img.width, img.height, rgba)
        },
        _ => None,
    }
}

} // verus!

verus! {

/// The RGBA byte at position `t` of the expansion of `rgb`: the `t % 4`-th byte of
/// pixel `t / 4`, or an opaque alpha.
pub open spec fn rgba_byte_from_rgb(rgb: Seq<u8>, t: int) -> u8 {
    if t % 4 == 3 {
        255u8
    } else {
        rgb[3 * (t / 4) + t % 4]
    }
}

proof fn lemma_rgb_to_rgba_bytes(rgb: Seq<u8>, chunks: nat)
    requires
        3 * chunks <= rgb.len(),
    ensures
        rgb_to_rgba(rgb, chunks).len() == 4 * chunks,
        forall|t: int|
            0 <= t < 4 * chunks ==> #[trigger] rgb_to_rgba(rgb, chunks)[t] == rgba_byte_from_rgb(rgb, t),
    decreases chunks,
{
    if chunks > 0 {
        let c = (chunks - 1) as nat;
        lemma_rgb_to_rgba_bytes(rgb, c);
        let before = rgb_to_rgba(rgb, c);
        let all = rgb_to_rgba(rgb, chunks);
        assert forall|t: int| 0 <= t < 4 * chunks implies #[trigger] all[t] == rgba_byte_from_rgb(rgb, t) by {
            if t < 4 * c {
                assert(all[t] == before[t]);
            } else {
                let r = t - 4 * c;
                assert(t / 4 == c && t % 4 == r) by (nonlinear_arith)
                    requires
                        t == 4 * c + r,
                        0 <= r < 4,
                ;
            }
        }
    }
}

/// How a texture's bytes follow from an embedded image's: RGBA8 pixels are kept
/// byte for byte; each whole RGB8 pixel becomes its three bytes and an opaque
/// alpha, a trailing partial pixel being dropped; no other layout gives a texture.
pub proof fn law_texture_bytes(format: ImageFormat, pixels: Seq<u8>)
    ensures
        format == ImageFormat::R8G8B8A8 ==> rgba_pixels_of(format, pixels) == Some(pixels),
        format == ImageFormat::R8G8B8 ==> (rgba_pixels_of(format, pixels) matches Some(rgba) && {
            &&& rgba.len() == 4 * (pixels.len() / 3)
            &&& forall|t: int| 0 <= t < rgba.len() ==> #[trigger] rgba[t] == rgba_byte_from_rgb(pixels, t)
        }),
        format != ImageFormat::R8G8B8A8 && format != ImageFormat::R8G8B8 ==> rgba_pixels_of(
            format,
            pixels,
        ) is None,
{
    if format == ImageFormat::R8G8B8 {
        lemma_rgb_to_rgba_bytes(pixels, pixels.len() / 3);
    }
}

} // verus!
