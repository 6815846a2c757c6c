//! What the rules read of a parsed page, and the record that they produce.
//!
//! The rules of the extractor do not walk the parser's tree. They work on the
//! plain values below, which hold the texts and attributes of the elements
//! that matter, in the order of the document.

use crate::text::{opt_text, texts};
use vstd::prelude::*;

verus! {

/// An element directly below the content container of a page.
#[derive(Debug, PartialEq, Eq)]
pub struct Block {
    /// The tag name, in lower case as the parser gives it.
    pub tag: String,
    /// The `class` attribute, empty where there is none.
    pub class: String,
    /// The `id` attribute, empty where there is none.
    pub id: String,
    /// The text inside the element.
    pub text: String,
}

/// A block, with its texts as sequences of characters.
pub struct BlockView {
    pub tag: Seq<char>,
    pub class: Seq<char>,
    pub id: Seq<char>,
    pub text: Seq<char>,
}

impl View for Block {
    type V = BlockView;

    open spec fn view(&self) -> BlockView {
        BlockView { tag: self.tag@, class: self.class@, id: self.id@, text: self.text@ }
    }
}

/// An anchor inside the content of a page.
#[derive(Debug, PartialEq, Eq)]
pub struct Anchor {
    /// The `href` attribute.
    pub href: Option<String>,
    /// The `title` attribute, empty where there is none.
    pub title: String,
    /// The text of the link.
    pub text: String,
    /// The text of the nearest paragraph around the anchor, if it stands in
    /// one.
    pub paragraph: Option<String>,
}

/// An anchor, with its texts as sequences of characters.
pub struct AnchorView {
    pub href: Option<Seq<char>>,
    pub title: Seq<char>,
    pub text: Seq<char>,
    pub paragraph: Option<Seq<char>>,
}

impl View for Anchor {
    type V = AnchorView;

    open spec fn view(&self) -> AnchorView {
        AnchorView {
            href: opt_text(self.href),
            title: self.title@,
            text: self.text@,
            paragraph: opt_text(self.paragraph),
        }
    }
}

/// An image of a page.
#[derive(Debug, PartialEq, Eq)]
pub struct Image {
    /// The `src` attribute.
    pub src: Option<String>,
    /// The `width` attribute.
    pub width: Option<String>,
    /// The `height` attribute.
    pub height: Option<String>,
}

/// An image, with its texts as sequences of characters.
pub struct ImageView {
    pub src: Option<Seq<char>>,
    pub width: Option<Seq<char>>,
    pub height: Option<Seq<char>>,
}

impl View for Image {
    type V = ImageView;

    open spec fn view(&self) -> ImageView {
        ImageView {
            src: opt_text(self.src),
            width: opt_text(self.width),
            height: opt_text(self.height),
        }
    }
}

/// The blocks, as the rules see them.
pub open spec fn block_views(blocks: Seq<Block>) -> Seq<BlockView> {
    blocks.map_values(|b: Block| b@)
}

/// The anchors, as the rules see them.
pub open spec fn anchor_views(anchors: Seq<Anchor>) -> Seq<AnchorView> {
    anchors.map_values(|a: Anchor| a@)
}

/// The images, as the rules see them.
pub open spec fn image_views(images: Seq<Image>) -> Seq<ImageView> {
    images.map_values(|i: Image| i@)
}

/// What the rules read of one parsed page.
#[derive(Debug, PartialEq, Eq)]
pub struct PageElements {
    /// The texts of the top-level headings that carry the title.
    pub headings: Vec<String>,
    /// The elements directly below the first content container.
    pub blocks: Vec<Block>,
    /// The texts of the section headlines.
    pub headlines: Vec<String>,
    /// The anchors inside the content that point below the article prefix.
    pub anchors: Vec<Anchor>,
    /// The images that have a source.
    pub images: Vec<Image>,
}

/// The elements of a page, with their texts as sequences of characters.
pub struct PageElementsView {
    pub headings: Seq<Seq<char>>,
    pub blocks: Seq<BlockView>,
    pub headlines: Seq<Seq<char>>,
    pub anchors: Seq<AnchorView>,
    pub images: Seq<ImageView>,
}

impl View for PageElements {
    type V = PageElementsView;

    open spec fn view(&self) -> PageElementsView {
        PageElementsView {
            headings: texts(self.headings@),
            blocks: block_views(self.blocks@),
            headlines: texts(self.headlines@),
            anchors: anchor_views(self.anchors@),
            images: image_views(self.images@),
        }
    }
}

/// The record of one article.
#[derive(Debug, PartialEq, Eq)]
pub struct WikipediaPage {
    /// The address at which the page was found.
    pub url: String,
    /// The title, or a placeholder where the page shows none.
    pub title: String,
    /// The lead of the article: its blocks before the first section, with an
    /// empty line between each two.
    pub summary: String,
    /// The section headings, in the order of the page.
    pub sections: Vec<String>,
    /// The addresses of the articles that the page links to.
    pub links: Vec<String>,
    /// The addresses of the images of the article.
    pub images: Vec<String>,
}

/// A record, with its texts as sequences of characters.
pub struct WikipediaPageView {
    pub url: Seq<char>,
    pub title: Seq<char>,
    pub summary: Seq<char>,
    pub sections: Seq<Seq<char>>,
    pub links: Seq<Seq<char>>,
    pub images: Seq<Seq<char>>,
}

impl View for WikipediaPage {
    type V = WikipediaPageView;

    open spec fn view(&self) -> WikipediaPageView {
        WikipediaPageView {
            url: self.url@,
            title: self.title@,
            summary: self.summary@,
            sections: texts(self.sections@),
            links: texts(self.links@),
            images: texts(self.images@),
        }
    }
}

/// The bounds of an extraction.
#[derive(Clone, Copy, Debug)]
pub struct Limits {
    /// How many links a record holds at most.
    pub max_links: usize,
    /// How many images a record holds at most.
    pub max_images: usize,
    /// The width and height in pixels below which an image counts as an icon.
    pub min_image_side: u32,
}

/// The bounds that apply where none are given: fifty links, twenty images,
/// and a hundred pixels.
pub open spec fn default_limits() -> Limits {
    Limits { max_links: 50, max_images: 20, min_image_side: 100 }
}

impl Default for Limits {
    fn default() -> (r: Limits)
        ensures
            r == default_limits(),
    {
        Limits { max_links: 50, max_images: 20, min_image_side: 100 }
    }
}

} // verus!
