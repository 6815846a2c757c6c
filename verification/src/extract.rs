//! From a parsed page to the record of its article.

use crate::dom::{
    ancestor_elements, ancestors_of, attribute, child_elements, children_of, element_attribute,
    element_tag, element_text, matched, parse_document, parse_selector, parsed_document, select,
    tag_name, text_content,
};
use crate::images::{images_of, lemma_images_are_absolute, on_media_host, select_images};
use crate::links::{lemma_links_are_absolute, links_of, select_links, site_origin};
use crate::page::{
    anchor_views, block_views, default_limits, image_views, Anchor, AnchorView, Block, BlockView,
    Image, ImageView, Limits, PageElements, PageElementsView, WikipediaPage, WikipediaPageView,
};
use crate::summary::{summary_of, summary_of_blocks};
use crate::text::{
    char_texts, chars_of, opt_str, opt_text, starts_with, str_is, strings_of, texts, trim, trimmed,
};
use crate::http::{
    body_of, delivers, fetch_outcome, lemma_redirect_then_success, location_of, redirect_target,
    redirects, resolved_url, ExchangeView, Fetched, ProgressView,
};
use crate::url::{url_host, url_path};
use vstd::prelude::*;
use vstd::slice::slice_to_vec;

verus! {

// ---------------------------------------------------------------------------
// Title and sections
// ---------------------------------------------------------------------------

/// The title of a page: the text of its first title heading, and a
/// placeholder where it has none.
pub open spec fn title_of(headings: Seq<Seq<char>>) -> Seq<char> {
    if headings.len() > 0 {
        headings[0]
    } else {
        "Sans titre"@
    }
}

/// What a headline gives to the sections of a page: its trimmed text, unless
/// that is empty or a single character.
pub open spec fn section_title(headline: Seq<char>) -> Option<Seq<char>> {
    let t = trim(headline);
    if t.len() > 1 {
        Some(t)
    } else {
        None
    }
}

/// The sections of a page: what its headlines give, in their order. A heading
/// that occurs twice is listed twice.
pub open spec fn sections_of(headlines: Seq<Seq<char>>) -> Seq<Seq<char>> {
    headlines.filter_map(|h: Seq<char>| section_title(h))
}

/// The title of a page, from the texts of its title headings.
pub fn select_title(headings: &Vec<String>) -> (r: String)
    ensures
        r@ == title_of(texts(headings@)),
{
    if headings.len() > 0 {
        headings[0].clone()
    } else {
        "Sans titre".to_owned()
    }
}

/// The sections of a page, from the texts of its headlines.
pub fn select_sections(headlines: &Vec<String>) -> (r: Vec<String>)
    ensures
        texts(r@) == sections_of(texts(headlines@)),
{
    let ghost views = texts(headlines@);
    let ghost rule = |h: Seq<char>| section_title(h);
    let mut out: Vec<Vec<char>> = Vec::new();
    let mut i: usize = 0;
    while i < headlines.len()
        invariant
            i <= headlines.len(),
            views == texts(headlines@),
            rule == (|h: Seq<char>| section_title(h)),
            char_texts(out@) == views.take(i as int).filter_map(rule),
        decreases headlines.len() - i,
    {
        proof {
            views.lemma_filter_map_take_succ(rule, i as int);
        }
        let text = chars_of(headlines[i].as_str());
        let t = trimmed(text.as_slice());
        if t.len() > 1 {
            let kept = slice_to_vec(t);
            out.push(kept);
        }
        i += 1;
    }
    assert(views.take(headlines.len() as int) =~= views);
    strings_of(&out)
}

// ---------------------------------------------------------------------------
// The record
// ---------------------------------------------------------------------------

/// The record of the article on a page found at `url`.
pub open spec fn record_of(
    url: Seq<char>,
    page: PageElementsView,
    keyword: Option<Seq<char>>,
    limits: Limits,
) -> WikipediaPageView {
    WikipediaPageView {
        url,
        title: title_of(page.headings),
        summary: summary_of(page.blocks),
        sections: sections_of(page.headlines),
        links: links_of(page.anchors, keyword, limits.max_links as nat),
        images: images_of(page.images, limits.min_image_side, limits.max_images as nat),
    }
}

/// Builds the record of the article on a page found at `url`. With a keyword,
/// only the links that it fits are kept.
pub fn build_record(
    url: &str,
    page: &PageElements,
    keyword: Option<&str>,
    limits: &Limits,
) -> (r: WikipediaPage)
    ensures
        r@ == record_of(url@, page@, opt_str(keyword), *limits),
        r.links.len() <= limits.max_links,
        r.images.len() <= limits.max_images,
{
    WikipediaPage {
        url: url.to_owned(),
        title: select_title(&page.headings),
        summary: summary_of_blocks(&page.blocks),
        sections: select_sections(&page.headlines),
        links: select_links(&page.anchors, keyword, limits.max_links),
        images: select_images(&page.images, limits.min_image_side, limits.max_images),
    }
}

// ---------------------------------------------------------------------------
// Reading the parsed page
// ---------------------------------------------------------------------------

/// The position of the nearest paragraph among the elements around an
/// element, given by their tag names from the nearest outwards.
pub open spec fn is_nearest_paragraph(tags: Seq<Seq<char>>, i: int) -> bool {
    &&& 0 <= i < tags.len()
    &&& tags[i] == "p"@
    &&& forall|j: int| 0 <= j < i ==> tags[j] != "p"@
}

/// Finds the nearest paragraph among the elements around an element.
pub fn nearest_paragraph(tags: &Vec<String>) -> (r: Option<usize>)
    ensures
        match r {
            Some(i) => is_nearest_paragraph(texts(tags@), i as int),
            None => forall|j: int| 0 <= j < tags.len() ==> texts(tags@)[j] != "p"@,
        },
{
    let mut i: usize = 0;
    while i < tags.len()
        invariant
            i <= tags.len(),
            forall|j: int| 0 <= j < i ==> texts(tags@)[j] != "p"@,
        decreases tags.len() - i,
    {
        if str_is(tags[i].as_str(), "p") {
            return Some(i);
        }
        i += 1;
    }
    None
}

/// An optional text, with the empty text where there is none.
pub open spec fn text_or_empty(o: Option<Seq<char>>) -> Seq<char> {
    match o {
        Some(t) => t,
        None => Seq::empty(),
    }
}

/// The texts inside elements, one for one.
pub open spec fn element_texts(elements: Seq<scraper::ElementRef>) -> Seq<Seq<char>> {
    elements.map_values(|e: scraper::ElementRef| element_text(e))
}

/// The block that an element makes: its tag name, its `class` and its `id`,
/// each empty where the element has none, and the text inside it.
pub open spec fn block_of(element: scraper::ElementRef) -> BlockView {
    BlockView {
        tag: element_tag(element),
        class: text_or_empty(element_attribute(element, "class"@)),
        id: text_or_empty(element_attribute(element, "id"@)),
        text: element_text(element),
    }
}

/// The blocks that elements make, one for one.
pub open spec fn element_blocks(elements: Seq<scraper::ElementRef>) -> Seq<BlockView> {
    elements.map_values(|e: scraper::ElementRef| block_of(e))
}

/// The blocks of a document: those that the elements directly below its
/// first content container make, and none where it has no such container.
pub open spec fn blocks_below(document: scraper::Html) -> Seq<BlockView> {
    let containers = matched(document, "div.mw-parser-output"@);
    if containers.len() == 0 {
        Seq::empty()
    } else {
        element_blocks(children_of(containers[0]))
    }
}

/// The text of the nearest paragraph among the elements around an element,
/// given from the nearest outwards: the text inside the first of them that
/// is a `p`.
pub open spec fn paragraph_among(around: Seq<scraper::ElementRef>) -> Option<Seq<char>>
    decreases around.len(),
{
    if around.len() == 0 {
        None
    } else if element_tag(around.first()) == "p"@ {
        Some(element_text(around.first()))
    } else {
        paragraph_among(around.drop_first())
    }
}

/// The anchor that an element makes: its `href`, its `title`, empty where it
/// has none, the text inside it, and the text of the nearest paragraph among
/// the elements around it.
pub open spec fn anchor_of(element: scraper::ElementRef) -> AnchorView {
    AnchorView {
        href: element_attribute(element, "href"@),
        title: text_or_empty(element_attribute(element, "title"@)),
        text: element_text(element),
        paragraph: paragraph_among(ancestors_of(element)),
    }
}

/// The anchors that elements make, one for one.
pub open spec fn element_anchors(elements: Seq<scraper::ElementRef>) -> Seq<AnchorView> {
    elements.map_values(|e: scraper::ElementRef| anchor_of(e))
}

/// The image that an element makes: its `src`, its `width` and its `height`.
pub open spec fn image_of_element(element: scraper::ElementRef) -> ImageView {
    ImageView {
        src: element_attribute(element, "src"@),
        width: element_attribute(element, "width"@),
        height: element_attribute(element, "height"@),
    }
}

/// The images that elements make, one for one.
pub open spec fn element_images(elements: Seq<scraper::ElementRef>) -> Seq<ImageView> {
    elements.map_values(|e: scraper::ElementRef| image_of_element(e))
}

/// What the rules read of a document: the texts of its title headings, the
/// blocks below its content container, the texts of its section headlines,
/// the anchors of its content that point below the article prefix, and its
/// images that have a source.
pub open spec fn page_of(document: scraper::Html) -> PageElementsView {
    PageElementsView {
        headings: element_texts(matched(document, "h1#firstHeading, h1.firstHeading"@)),
        blocks: blocks_below(document),
        headlines: element_texts(matched(document, ".mw-headline"@)),
        anchors: element_anchors(matched(document, "#mw-content-text a[href^='/wiki/']"@)),
        images: element_images(matched(document, "img[src]"@)),
    }
}

/// The record of the article on the page `html` found at `url`: the record
/// of what the rules read of the parsed page, within the default bounds.
pub open spec fn scraped(
    url: Seq<char>,
    html: Seq<char>,
    keyword: Option<Seq<char>>,
) -> WikipediaPageView {
    record_of(url, page_of(parsed_document(html)), keyword, default_limits())
}

/// Where a `p` is the nearest among the elements, its text is that of the
/// nearest paragraph; where none of them is a `p`, there is none.
proof fn lemma_paragraph_among(around: Seq<scraper::ElementRef>, tags: Seq<Seq<char>>)
    requires
        tags.len() == around.len(),
        forall|j: int| 0 <= j < around.len() ==> tags[j] == element_tag(#[trigger] around[j]),
    ensures
        forall|k: int|
            is_nearest_paragraph(tags, k) ==> paragraph_among(around) == Some(
                element_text(#[trigger] around[k]),
            ),
        (forall|j: int| 0 <= j < tags.len() ==> tags[j] != "p"@) ==> paragraph_among(around)
            is None,
    decreases around.len(),
{
    if around.len() > 0 {
        let rest = around.drop_first();
        let rest_tags = tags.drop_first();
        lemma_paragraph_among(rest, rest_tags);
        assert(tags[0] == element_tag(around[0]));
        assert forall|k: int| is_nearest_paragraph(tags, k) implies paragraph_among(around)
            == Some(element_text(#[trigger] around[k])) by {
            if k > 0 {
                assert(tags[0] != "p"@);
                assert(is_nearest_paragraph(rest_tags, k - 1)) by {
                    assert forall|j: int| 0 <= j < k - 1 implies rest_tags[j] != "p"@ by {
                        assert(rest_tags[j] == tags[j + 1]);
                    }
                }
                assert(rest[k - 1] == around[k]);
            }
        }
        if forall|j: int| 0 <= j < tags.len() ==> tags[j] != "p"@ {
            assert forall|j: int| 0 <= j < rest_tags.len() implies rest_tags[j] != "p"@ by {
                assert(rest_tags[j] == tags[j + 1]);
            }
        }
    }
}

/// The text of an attribute, empty where the element has none.
fn or_empty(value: Option<String>) -> (r: String)
    ensures
        r@ == text_or_empty(opt_text(value)),
{
    match value {
        Some(s) => s,
        None => String::new(),
    }
}

/// The elements that a selector matches in a document; none where the text
/// is no selector.
fn matching<'a>(document: &'a scraper::Html, selector: &str) -> (r: Vec<scraper::ElementRef<'a>>)
    ensures
        r@ == matched(*document, selector@),
{
    match parse_selector(selector) {
        Some(s) => select(document, &s),
        None => Vec::new(),
    }
}

/// The texts inside the elements that a selector matches.
fn texts_matching(document: &scraper::Html, selector: &str) -> (r: Vec<String>)
    ensures
        texts(r@) == element_texts(matched(*document, selector@)),
{
    let elements = matching(document, selector);
    let mut out: Vec<String> = Vec::new();
    let mut i: usize = 0;
    while i < elements.len()
        invariant
            i <= elements.len(),
            texts(out@) == element_texts(elements@.take(i as int)),
        decreases elements.len() - i,
    {
        let ghost before = out@;
        let text = text_content(&elements[i]);
        out.push(text);
        assert(texts(out@) =~= texts(before).push(text@));
        i += 1;
    }
    assert(elements@.take(elements.len() as int) =~= elements@);
    out
}

/// Reads off an element the block that it makes.
fn block_from(element: &scraper::ElementRef) -> (r: Block)
    ensures
        r@ == block_of(*element),
{
    Block {
        tag: tag_name(element),
        class: or_empty(attribute(element, "class")),
        id: or_empty(attribute(element, "id")),
        text: text_content(element),
    }
}

/// The blocks that the elements directly below the first content container
/// make; none where the page has no such container.
fn content_blocks(document: &scraper::Html) -> (r: Vec<Block>)
    ensures
        block_views(r@) == blocks_below(*document),
{
    let containers = matching(document, "div.mw-parser-output");
    let mut out: Vec<Block> = Vec::new();
    if containers.len() == 0 {
        assert(block_views(out@) =~= Seq::<BlockView>::empty());
        return out;
    }
    let children = child_elements(&containers[0]);
    let mut i: usize = 0;
    while i < children.len()
        invariant
            i <= children.len(),
            block_views(out@) == element_blocks(children@.take(i as int)),
        decreases children.len() - i,
    {
        let ghost before = out@;
        let block = block_from(&children[i]);
        out.push(block);
        assert(block_views(out@) =~= block_views(before).push(block@));
        i += 1;
    }
    assert(children@.take(children.len() as int) =~= children@);
    out
}

/// The text of the nearest paragraph among the elements around an element.
fn paragraph_among_elements(around: &Vec<scraper::ElementRef>) -> (r: Option<String>)
    ensures
        opt_text(r) == paragraph_among(around@),
{
    let mut tags: Vec<String> = Vec::new();
    let mut i: usize = 0;
    while i < around.len()
        invariant
            i <= around.len(),
            tags.len() == i,
            forall|j: int| 0 <= j < i ==> texts(tags@)[j] == element_tag(#[trigger] around@[j]),
        decreases around.len() - i,
    {
        let ghost before = tags@;
        let tag = tag_name(&around[i]);
        tags.push(tag);
        assert forall|j: int| 0 <= j < i + 1 implies texts(tags@)[j] == element_tag(
            #[trigger] around@[j],
        ) by {
            if j < i {
                assert(texts(tags@)[j] == texts(before)[j]);
            }
        }
        i += 1;
    }
    proof {
        lemma_paragraph_among(around@, texts(tags@));
    }
    match nearest_paragraph(&tags) {
        Some(k) => Some(text_content(&around[k])),
        None => None,
    }
}

/// The text of the nearest paragraph around an element.
fn paragraph_around(element: &scraper::ElementRef) -> (r: Option<String>)
    ensures
        opt_text(r) == paragraph_among(ancestors_of(*element)),
{
    let around = ancestor_elements(element);
    paragraph_among_elements(&around)
}

/// Reads off an element the anchor that it makes.
fn anchor_from(element: &scraper::ElementRef) -> (r: Anchor)
    ensures
        r@ == anchor_of(*element),
{
    Anchor {
        href: attribute(element, "href"),
        title: or_empty(attribute(element, "title")),
        text: text_content(element),
        paragraph: paragraph_around(element),
    }
}

/// The anchors that the links of the content make.
fn content_anchors(document: &scraper::Html) -> (r: Vec<Anchor>)
    ensures
        anchor_views(r@) == element_anchors(
            matched(*document, "#mw-content-text a[href^='/wiki/']"@),
        ),
{
    let elements = matching(document, "#mw-content-text a[href^='/wiki/']");
    let mut out: Vec<Anchor> = Vec::new();
    let mut i: usize = 0;
    while i < elements.len()
        invariant
            i <= elements.len(),
            anchor_views(out@) == element_anchors(elements@.take(i as int)),
        decreases elements.len() - i,
    {
        let ghost before = out@;
        let anchor = anchor_from(&elements[i]);
        out.push(anchor);
        assert(anchor_views(out@) =~= anchor_views(before).push(anchor@));
        i += 1;
    }
    assert(elements@.take(elements.len() as int) =~= elements@);
    out
}

/// Reads off an element the image that it makes.
fn image_from(element: &scraper::ElementRef) -> (r: Image)
    ensures
        r@ == image_of_element(*element),
{
    Image {
        src: attribute(element, "src"),
        width: attribute(element, "width"),
        height: attribute(element, "height"),
    }
}

/// The images that the image elements with a source make.
fn page_images(document: &scraper::Html) -> (r: Vec<Image>)
    ensures
        image_views(r@) == element_images(matched(*document, "img[src]"@)),
{
    let elements = matching(document, "img[src]");
    let mut out: Vec<Image> = Vec::new();
    let mut i: usize = 0;
    while i < elements.len()
        invariant
            i <= elements.len(),
            image_views(out@) == element_images(elements@.take(i as int)),
        decreases elements.len() - i,
    {
        let ghost before = out@;
        let image = image_from(&elements[i]);
        out.push(image);
        assert(image_views(out@) =~= image_views(before).push(image@));
        i += 1;
    }
    assert(elements@.take(elements.len() as int) =~= elements@);
    out
}

/// Reads off a parsed page what the rules need.
fn read_page(document: &scraper::Html) -> (r: PageElements)
    ensures
        r@ == page_of(*document),
{
    PageElements {
        headings: texts_matching(document, "h1#firstHeading, h1.firstHeading"),
        blocks: content_blocks(document),
        headlines: texts_matching(document, ".mw-headline"),
        anchors: content_anchors(document),
        images: page_images(document),
    }
}

/// The summary of a parsed page: that of the elements directly below its
/// first content container; empty where the page has no such container.
pub fn extract_summary(document: &scraper::Html) -> (r: String)
    ensures
        r@ == summary_of(blocks_below(*document)),
{
    let blocks = content_blocks(document);
    summary_of_blocks(&blocks)
}

/// The record of the article on the page `html` that was found at `url`,
/// within the default bounds. With a keyword, only the links that it fits
/// are kept.
pub fn scrape_wikipedia(url: &str, html: &str, mot_cle: Option<&str>) -> (r: WikipediaPage)
    ensures
        r@ == scraped(url@, html@, opt_str(mot_cle)),
        is_well_formed(r@, url@, default_limits()),
{
    let document = parse_document(html);
    let page = read_page(&document);
    let limits = Limits::default();
    let r = build_record(url, &page, mot_cle, &limits);
    proof {
        lemma_record_is_well_formed(url@, page@, opt_str(mot_cle), limits);
    }
    r
}

/// The record of the article on a page that was fetched: it names the
/// address at which the page was found in the end.
pub fn scrape_fetched(page: &Fetched, mot_cle: Option<&str>) -> (r: WikipediaPage)
    ensures
        r@ == scraped(page.url@, page.body@, opt_str(mot_cle)),
        is_well_formed(r@, page.url@, default_limits()),
{
    scrape_wikipedia(page.url.as_str(), page.body.as_str(), mot_cle)
}

// ---------------------------------------------------------------------------
// Laws
// ---------------------------------------------------------------------------

/// What holds of every record made for the address `url` within `limits`: it
/// names that address; its links are no more than the bound, each the
/// absolute address of an article on the site; its images are no more than
/// the bound, each an absolute address on the host of the media files.
pub open spec fn is_well_formed(r: WikipediaPageView, url: Seq<char>, limits: Limits) -> bool {
    &&& r.url == url
    &&& r.links.len() <= limits.max_links
    &&& r.images.len() <= limits.max_images
    &&& forall|i: int|
        0 <= i < r.links.len() ==> starts_with(#[trigger] r.links[i], site_origin() + "/wiki/"@)
    &&& forall|i: int|
        0 <= i < r.images.len() ==> starts_with(#[trigger] r.images[i], "http"@) && on_media_host(
            r.images[i],
        )
}

/// Every record that the rules make is well formed.
pub proof fn lemma_record_is_well_formed(
    url: Seq<char>,
    page: PageElementsView,
    keyword: Option<Seq<char>>,
    limits: Limits,
)
    ensures
        is_well_formed(record_of(url, page, keyword, limits), url, limits),
{
    let r = record_of(url, page, keyword, limits);
    assert forall|i: int| 0 <= i < r.links.len() implies starts_with(
        #[trigger] r.links[i],
        site_origin() + "/wiki/"@,
    ) by {
        lemma_links_are_absolute(page.anchors, keyword, limits.max_links as nat, i);
    }
    assert forall|i: int| 0 <= i < r.images.len() implies starts_with(
        #[trigger] r.images[i],
        "http"@,
    ) && on_media_host(r.images[i]) by {
        lemma_images_are_absolute(page.images, limits.min_image_side, limits.max_images as nat, i);
    }
    if r.links.len() > 0 {
        lemma_links_are_absolute(page.anchors, keyword, limits.max_links as nat, 0);
    }
    if r.images.len() > 0 {
        lemma_images_are_absolute(page.images, limits.min_image_side, limits.max_images as nat, 0);
    }
}

/// Extraction has no memory: two records made of the same page, for the
/// same address and keyword, are the same.
pub proof fn lemma_extraction_is_repeatable(
    url: Seq<char>,
    html: Seq<char>,
    keyword: Option<Seq<char>>,
    first: WikipediaPage,
    second: WikipediaPage,
)
    requires
        first@ == scraped(url, html, keyword),
        second@ == scraped(url, html, keyword),
    ensures
        first@ == second@,
{
}

/// A redirect followed by a page gives the record of that page, and the
/// record names the place that the redirect named, not the place that was
/// asked first.
pub proof fn lemma_record_after_redirect(
    ex: ExchangeView,
    first: Seq<char>,
    second: Seq<char>,
    keyword: Option<Seq<char>>,
)
    requires
        redirects(ex, first),
        delivers(redirect_target(ex, first), second),
    ensures
        fetch_outcome(ex, seq![first, second]) matches ProgressView::Done(page) && scraped(
            page.url,
            page.body,
            keyword,
        ) == scraped(
            resolved_url(redirect_target(ex, first).host, redirect_target(ex, first).path),
            body_of(second)->0,
            keyword,
        ),
        scraped(
            resolved_url(redirect_target(ex, first).host, redirect_target(ex, first).path),
            body_of(second)->0,
            keyword,
        ).url == resolved_url(url_host(location_of(first)->0), url_path(location_of(first)->0)),
{
    lemma_redirect_then_success(ex, first, second);
}

} // verus!
