//! Which images of a page belong to the article.

use crate::page::{Image, ImageView};
use crate::sequences::{capped, lemma_full_prefix_is_capped};
use crate::text::{
    begins_with, char_texts, chars_of, contains, followed_by, has_text, opt_chars, opt_text,
    parse_number, parse_u32, starts_with, string_of, strings_of, texts,
};
use vstd::prelude::*;

verus! {

/// The image is as small as an icon: it states a width and a height, both are
/// numbers, and one of them is below `min` pixels.
pub open spec fn is_icon_sized(
    width: Option<Seq<char>>,
    height: Option<Seq<char>>,
    min: u32,
) -> bool {
    &&& width is Some
    &&& height is Some
    &&& parse_u32(width->0) is Some
    &&& parse_u32(height->0) is Some
    &&& (parse_u32(width->0)->0 < min || parse_u32(height->0)->0 < min)
}

/// The source names its site: it is absolute, or relative to the protocol.
pub open spec fn names_site(src: Seq<char>) -> bool {
    starts_with(src, "//"@) || starts_with(src, "http"@)
}

/// The source names a file of one of the accepted kinds.
pub open spec fn has_image_extension(src: Seq<char>) -> bool {
    ||| contains(src, ".jpg"@)
    ||| contains(src, ".jpeg"@)
    ||| contains(src, ".png"@)
    ||| contains(src, ".svg"@)
    ||| contains(src, ".gif"@)
}

/// The source carries one of the marks of icons and logos.
pub open spec fn has_icon_marker(src: Seq<char>) -> bool {
    ||| contains(src, "/static/images/"@)
    ||| contains(src, "/icons/"@)
    ||| contains(src, "Icon_"@)
    ||| contains(src, "icon"@)
    ||| contains(src, "logo"@)
    ||| contains(src, "20px-"@)
    ||| contains(src, "15px-"@)
}

/// The absolute form of a source that names its site.
pub open spec fn absolute_source(src: Seq<char>) -> Seq<char> {
    if starts_with(src, "//"@) {
        "https:"@ + src
    } else {
        src
    }
}

/// The address lies on the host of the media files.
pub open spec fn on_media_host(url: Seq<char>) -> bool {
    contains(url, "upload.wikimedia.org"@)
}

/// What an image gives to the images of a page: the absolute address of its
/// source, unless the image is as small as an icon, its source does not name
/// its site, is no image file, carries a mark of icons, or lies elsewhere
/// than on the host of the media files.
pub open spec fn image_target(img: ImageView, min_side: u32) -> Option<Seq<char>> {
    match img.src {
        Some(src) => if is_icon_sized(img.width, img.height, min_side) {
            None
        } else if !names_site(src) {
            None
        } else if !has_image_extension(src) {
            None
        } else if has_icon_marker(src) {
            None
        } else if !on_media_host(absolute_source(src)) {
            None
        } else {
            Some(absolute_source(src))
        },
        None => None,
    }
}

/// The images of a page: what its images give, in their order, and no more
/// than `max` of them.
pub open spec fn images_of(images: Seq<ImageView>, min_side: u32, max: nat) -> Seq<Seq<char>> {
    capped(images.filter_map(|i: ImageView| image_target(i, min_side)), max)
}

fn number_of(attribute: &Option<String>) -> (r: Option<u32>)
    ensures
        r == match opt_text(*attribute) {
            Some(t) => parse_u32(t),
            None => None,
        },
{
    match attribute {
        Some(s) => {
            let chars = chars_of(s.as_str());
            parse_number(chars.as_slice())
        },
        None => None,
    }
}

fn icon_sized(image: &Image, min: u32) -> (r: bool)
    ensures
        r == is_icon_sized(image@.width, image@.height, min),
{
    match number_of(&image.width) {
        Some(w) => match number_of(&image.height) {
            Some(h) => w < min || h < min,
            None => false,
        },
        None => false,
    }
}

fn image_extension(src: &[char]) -> (r: bool)
    ensures
        r == has_image_extension(src@),
{
    let jpg = chars_of(".jpg");
    let jpeg = chars_of(".jpeg");
    let png = chars_of(".png");
    let svg = chars_of(".svg");
    let gif = chars_of(".gif");
    has_text(src, jpg.as_slice()) || has_text(src, jpeg.as_slice()) || has_text(
        src,
        png.as_slice(),
    ) || has_text(src, svg.as_slice()) || has_text(src, gif.as_slice())
}

fn icon_marker(src: &[char]) -> (r: bool)
    ensures
        r == has_icon_marker(src@),
{
    let a = chars_of("/static/images/");
    let b = chars_of("/icons/");
    let c = chars_of("Icon_");
    let d = chars_of("icon");
    let e = chars_of("logo");
    let f = chars_of("20px-");
    let g = chars_of("15px-");
    has_text(src, a.as_slice()) || has_text(src, b.as_slice()) || has_text(src, c.as_slice())
        || has_text(src, d.as_slice()) || has_text(src, e.as_slice()) || has_text(
        src,
        f.as_slice(),
    ) || has_text(src, g.as_slice())
}

fn image_chars(image: &Image, min_side: u32) -> (r: Option<Vec<char>>)
    ensures
        opt_chars(r) == image_target(image@, min_side),
{
    match &image.src {
        Some(s) => {
            if icon_sized(image, min_side) {
                return None;
            }
            let src = chars_of(s.as_str());
            let relative = chars_of("//");
            let absolute = chars_of("http");
            let is_relative = begins_with(src.as_slice(), relative.as_slice());
            if !(is_relative || begins_with(src.as_slice(), absolute.as_slice())) {
                return None;
            }
            if !image_extension(src.as_slice()) {
                return None;
            }
            if icon_marker(src.as_slice()) {
                return None;
            }
            let url = if is_relative {
                let scheme = chars_of("https:");
                followed_by(scheme.as_slice(), src.as_slice())
            } else {
                src
            };
            let host = chars_of("upload.wikimedia.org");
            if has_text(url.as_slice(), host.as_slice()) {
                Some(url)
            } else {
                None
            }
        },
        None => None,
    }
}

/// What an image gives to the images of a page.
pub fn image_of(image: &Image, min_side: u32) -> (r: Option<String>)
    ensures
        opt_text(r) == image_target(image@, min_side),
{
    match image_chars(image, min_side) {
        Some(url) => Some(string_of(url.as_slice())),
        None => None,
    }
}

/// The images of a page, from its image elements.
pub fn select_images(images: &Vec<Image>, min_side: u32, max: usize) -> (r: Vec<String>)
    ensures
        texts(r@) == images_of(images@.map_values(|i: Image| i@), min_side, max as nat),
        r.len() <= max,
{
    let ghost views = images@.map_values(|i: Image| i@);
    let ghost rule = |i: ImageView| image_target(i, min_side);
    let mut out: Vec<Vec<char>> = Vec::new();
    let mut i: usize = 0;
    while i < images.len() && out.len() < max
        invariant
            i <= images.len(),
            out.len() <= max,
            views == images@.map_values(|i: Image| i@),
            rule == (|i: ImageView| image_target(i, min_side)),
            char_texts(out@) == views.take(i as int).filter_map(rule),
        decreases images.len() - i,
    {
        proof {
            views.lemma_filter_map_take_succ(rule, i as int);
        }
        match image_chars(&images[i], min_side) {
            Some(url) => {
                out.push(url);
            },
            None => {
            },
        }
        i += 1;
    }
    proof {
        lemma_full_prefix_is_capped(views, rule, i as int, max as nat);
    }
    strings_of(&out)
}

// ---------------------------------------------------------------------------
// Laws
// ---------------------------------------------------------------------------

/// An image that states both sides as numbers, one of them below the bound,
/// is dropped, whatever its source.
pub proof fn lemma_small_image_is_dropped(img: ImageView, min_side: u32)
    requires
        is_icon_sized(img.width, img.height, min_side),
    ensures
        image_target(img, min_side) is None,
{
}

/// An image whose source carries a mark of icons is dropped, whatever its
/// size.
pub proof fn lemma_marked_image_is_dropped(img: ImageView, min_side: u32)
    requires
        img.src is Some ==> has_icon_marker(img.src->0),
    ensures
        image_target(img, min_side) is None,
{
}

/// An image file on the host of the media files that is not small and
/// carries no mark of icons is kept, with its absolute address.
pub proof fn lemma_media_image_is_kept(img: ImageView, min_side: u32)
    requires
        img.src is Some,
        !is_icon_sized(img.width, img.height, min_side),
        names_site(img.src->0),
        has_image_extension(img.src->0),
        !has_icon_marker(img.src->0),
        on_media_host(absolute_source(img.src->0)),
    ensures
        image_target(img, min_side) == Some(absolute_source(img.src->0)),
{
}

/// The images of a page are no more than the bound, and each of them is an
/// absolute address on the host of the media files.
pub proof fn lemma_images_are_absolute(images: Seq<ImageView>, min_side: u32, max: nat, i: int)
    requires
        0 <= i < images_of(images, min_side, max).len(),
    ensures
        images_of(images, min_side, max).len() <= max,
        starts_with(images_of(images, min_side, max)[i], "http"@),
        on_media_host(images_of(images, min_side, max)[i]),
{
    let rule = |i: ImageView| image_target(i, min_side);
    let url = images_of(images, min_side, max)[i];
    images.lemma_filter_map_contains(rule, url);
    let img = choose|img: ImageView| #[trigger] images.contains(img) && rule(img) == Some(url);
    let src = img.src->0;
    if starts_with(src, "//"@) {
        reveal_strlit("https:");
        reveal_strlit("http");
        assert(url.subrange(0, "http"@.len() as int) =~= "http"@);
    }
}

} // verus!
