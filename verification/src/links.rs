//! Which links of a page count as links to articles.

use crate::page::{Anchor, AnchorView};
use crate::sequences::{capped, lemma_full_prefix_is_capped};
use crate::text::{
    begins_with, char_texts, chars_of, contains, followed_by, has_char, has_text, lowercase,
    lowercase_of, opt_chars, opt_str, opt_text, replace_char, starts_with, string_of, strings_of,
    texts, with_replaced,
};
use vstd::prelude::*;

verus! {

/// Where the encyclopedia lives: scheme and host.
pub open spec fn site_origin() -> Seq<char> {
    "https://fr.wikipedia.org"@
}

/// The address points to an article: it lies below the article prefix, in no
/// other namespace (no colon) and at no place inside a page (no `#`).
pub open spec fn is_article_href(href: Seq<char>) -> bool {
    &&& starts_with(href, "/wiki/"@)
    &&& !href.contains(':')
    &&& !href.contains('#')
}

/// The absolute address of an article, from its address on the site.
pub open spec fn article_url(href: Seq<char>) -> Seq<char> {
    site_origin() + href
}

/// The keyword shows in a link. All four texts are in lower case. The keyword
/// counts in the address also in the form in which addresses write it, with
/// `_` for each space.
pub open spec fn mentions(
    text: Seq<char>,
    title: Seq<char>,
    href: Seq<char>,
    keyword: Seq<char>,
) -> bool {
    let in_address = replace_char(keyword, ' ', '_');
    ||| contains(text, keyword)
    ||| contains(title, keyword)
    ||| contains(href, keyword)
    ||| in_address.len() > 0 && contains(href, in_address)
}

/// The keyword, given in lower case, fits an anchor: it shows in the link
/// itself, or else in the paragraph around it. Case does not count.
pub open spec fn keyword_fits(a: AnchorView, href: Seq<char>, keyword_lower: Seq<char>) -> bool {
    ||| mentions(lowercase(a.text), lowercase(a.title), lowercase(href), keyword_lower)
    ||| a.paragraph is Some && contains(lowercase(a.paragraph->0), keyword_lower)
}

/// What an anchor gives to the links of a page, for a keyword in lower case:
/// the absolute address of the article it points to, if it points to one and
/// the keyword, where there is one, fits.
pub open spec fn link_rule(a: AnchorView, keyword_lower: Option<Seq<char>>) -> Option<Seq<char>> {
    match a.href {
        Some(href) => if !is_article_href(href) {
            None
        } else if keyword_lower is Some && !keyword_fits(a, href, keyword_lower->0) {
            None
        } else {
            Some(article_url(href))
        },
        None => None,
    }
}

/// The lower-case form of an optional keyword.
pub open spec fn lowered(keyword: Option<Seq<char>>) -> Option<Seq<char>> {
    match keyword {
        Some(k) => Some(lowercase(k)),
        None => None,
    }
}

/// What an anchor gives to the links of a page.
pub open spec fn link_target(a: AnchorView, keyword: Option<Seq<char>>) -> Option<Seq<char>> {
    link_rule(a, lowered(keyword))
}

/// The links of a page: what its anchors give, in their order, and no more
/// than `max` of them.
pub open spec fn links_of(anchors: Seq<AnchorView>, keyword: Option<Seq<char>>, max: nat) -> Seq<
    Seq<char>,
> {
    capped(anchors.filter_map(|a: AnchorView| link_target(a, keyword)), max)
}

/// Tells whether an address points to an article.
pub(crate) fn article_href(href: &[char]) -> (r: bool)
    ensures
        r == is_article_href(href@),
{
    let prefix = chars_of("/wiki/");
    begins_with(href, prefix.as_slice()) && !has_char(href, ':') && !has_char(href, '#')
}

/// The absolute address of an article, from its address on the site.
pub(crate) fn absolute_article(href: &[char]) -> (r: Vec<char>)
    ensures
        r@ == article_url(href@),
{
    let origin = chars_of("https://fr.wikipedia.org");
    followed_by(origin.as_slice(), href)
}

fn mentions_chars(text: &[char], title: &[char], href: &[char], keyword: &[char]) -> (r: bool)
    ensures
        r == mentions(text@, title@, href@, keyword@),
{
    if has_text(text, keyword) || has_text(title, keyword) || has_text(href, keyword) {
        return true;
    }
    let in_address = with_replaced(keyword, ' ', '_');
    in_address.len() > 0 && has_text(href, in_address.as_slice())
}

/// Tells whether a keyword shows in a link, all texts given in lower case.
pub fn mentions_keyword(text: &str, title: &str, href: &str, keyword: &str) -> (r: bool)
    ensures
        r == mentions(text@, title@, href@, keyword@),
{
    let a = chars_of(text);
    let b = chars_of(title);
    let c = chars_of(href);
    let k = chars_of(keyword);
    mentions_chars(a.as_slice(), b.as_slice(), c.as_slice(), k.as_slice())
}

fn keyword_fits_anchor(anchor: &Anchor, href: &[char], keyword_lower: &[char]) -> (r: bool)
    ensures
        r == keyword_fits(anchor@, href@, keyword_lower@),
{
    let text = chars_of(anchor.text.as_str());
    let title = chars_of(anchor.title.as_str());
    let text_lower = lowercase_of(text.as_slice());
    let title_lower = lowercase_of(title.as_slice());
    let href_lower = lowercase_of(href);
    if mentions_chars(
        text_lower.as_slice(),
        title_lower.as_slice(),
        href_lower.as_slice(),
        keyword_lower,
    ) {
        return true;
    }
    match &anchor.paragraph {
        Some(p) => {
            let around = chars_of(p.as_str());
            let around_lower = lowercase_of(around.as_slice());
            has_text(around_lower.as_slice(), keyword_lower)
        },
        None => false,
    }
}

fn link_chars(anchor: &Anchor, keyword_lower: &Option<Vec<char>>) -> (r: Option<Vec<char>>)
    ensures
        opt_chars(r) == link_rule(anchor@, opt_chars(*keyword_lower)),
{
    match &anchor.href {
        Some(h) => {
            let href = chars_of(h.as_str());
            if !article_href(href.as_slice()) {
                return None;
            }
            match keyword_lower {
                Some(k) => {
                    if !keyword_fits_anchor(anchor, href.as_slice(), k.as_slice()) {
                        return None;
                    }
                },
                None => {},
            }
            Some(absolute_article(href.as_slice()))
        },
        None => None,
    }
}

fn lowered_keyword(keyword: Option<&str>) -> (r: Option<Vec<char>>)
    ensures
        opt_chars(r) == lowered(opt_str(keyword)),
{
    match keyword {
        Some(k) => {
            let chars = chars_of(k);
            Some(lowercase_of(chars.as_slice()))
        },
        None => None,
    }
}

/// What an anchor gives to the links of a page.
pub fn link_of(anchor: &Anchor, keyword: Option<&str>) -> (r: Option<String>)
    ensures
        opt_text(r) == link_target(anchor@, opt_str(keyword)),
{
    let k = lowered_keyword(keyword);
    match link_chars(anchor, &k) {
        Some(url) => Some(string_of(url.as_slice())),
        None => None,
    }
}

/// The links of a page, from the anchors of its content.
pub fn select_links(anchors: &Vec<Anchor>, keyword: Option<&str>, max: usize) -> (r: Vec<String>)
    ensures
        texts(r@) == links_of(anchors@.map_values(|a: Anchor| a@), opt_str(keyword), max as nat),
        r.len() <= max,
{
    let ghost views = anchors@.map_values(|a: Anchor| a@);
    let ghost rule = |a: AnchorView| link_target(a, opt_str(keyword));
    let k = lowered_keyword(keyword);
    let mut out: Vec<Vec<char>> = Vec::new();
    let mut i: usize = 0;
    while i < anchors.len() && out.len() < max
        invariant
            i <= anchors.len(),
            out.len() <= max,
            views == anchors@.map_values(|a: Anchor| a@),
            rule == (|a: AnchorView| link_target(a, opt_str(keyword))),
            opt_chars(k) == lowered(opt_str(keyword)),
            char_texts(out@) == views.take(i as int).filter_map(rule),
        decreases anchors.len() - i,
    {
        proof {
            views.lemma_filter_map_take_succ(rule, i as int);
        }
        match link_chars(&anchors[i], &k) {
            Some(url) => {
                out.push(url);
            },
            None => {
            },
        }
        i += 1;
    }
    proof {
        lemma_full_prefix_is_capped(views, rule, i as int, max as nat);
    }
    strings_of(&out)
}

// ---------------------------------------------------------------------------
// Laws
// ---------------------------------------------------------------------------

/// Without a keyword, a link to an article is kept, as an absolute address.
pub proof fn lemma_article_link_is_kept(a: AnchorView, href: Seq<char>)
    requires
        a.href == Some(href),
        is_article_href(href),
    ensures
        link_target(a, None) == Some(article_url(href)),
{
}

/// A link into another namespace, to a place inside a page, or to anything
/// that lies not below the article prefix is dropped, whatever the keyword.
pub proof fn lemma_other_link_is_dropped(
    a: AnchorView,
    href: Seq<char>,
    keyword: Option<Seq<char>>,
)
    requires
        a.href == Some(href),
        href.contains(':') || href.contains('#') || !starts_with(href, "/wiki/"@),
    ensures
        link_target(a, keyword) is None,
{
}

/// A link to an article whose text holds the keyword, in whatever case, is
/// kept.
pub proof fn lemma_keyword_in_text_keeps_link(a: AnchorView, href: Seq<char>, keyword: Seq<char>)
    requires
        a.href == Some(href),
        is_article_href(href),
        contains(lowercase(a.text), lowercase(keyword)),
    ensures
        link_target(a, Some(keyword)) == Some(article_url(href)),
{
}

/// A link that shows the keyword nowhere, and whose paragraph does not show
/// it either, is dropped.
pub proof fn lemma_keyword_nowhere_drops_link(a: AnchorView, href: Seq<char>, keyword: Seq<char>)
    requires
        a.href == Some(href),
        !mentions(lowercase(a.text), lowercase(a.title), lowercase(href), lowercase(keyword)),
        a.paragraph is Some ==> !contains(lowercase(a.paragraph->0), lowercase(keyword)),
    ensures
        link_target(a, Some(keyword)) is None,
{
}

/// The absolute address of an article begins with the origin of the site
/// and the article prefix.
pub proof fn lemma_article_url_is_absolute(href: Seq<char>)
    requires
        starts_with(href, "/wiki/"@),
    ensures
        starts_with(article_url(href), site_origin() + "/wiki/"@),
{
    let prefix = "/wiki/"@;
    assert(article_url(href).subrange(0, (site_origin() + prefix).len() as int) =~= site_origin()
        + prefix);
}

/// The links of a page are no more than the bound, and each of them is the
/// absolute address of an article on the site.
pub proof fn lemma_links_are_absolute(
    anchors: Seq<AnchorView>,
    keyword: Option<Seq<char>>,
    max: nat,
    i: int,
)
    requires
        0 <= i < links_of(anchors, keyword, max).len(),
    ensures
        links_of(anchors, keyword, max).len() <= max,
        starts_with(links_of(anchors, keyword, max)[i], "https://"@),
        starts_with(links_of(anchors, keyword, max)[i], site_origin() + "/wiki/"@),
{
    let rule = |a: AnchorView| link_target(a, keyword);
    let link = links_of(anchors, keyword, max)[i];
    anchors.lemma_filter_map_contains(rule, link);
    let a = choose|a: AnchorView| #[trigger] anchors.contains(a) && rule(a) == Some(link);
    let href = a.href->0;
    lemma_article_url_is_absolute(href);
    reveal_strlit("https://");
    reveal_strlit("https://fr.wikipedia.org");
    assert(link.subrange(0, "https://"@.len() as int) =~= "https://"@);
}

} // verus!
