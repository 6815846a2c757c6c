//! The lead of an article: the text before its first section.

use crate::page::{Block, BlockView};
use crate::sequences::{lemma_filter_map_concat, lemma_filter_map_keeps};
use crate::text::{
    begins_with, char_texts, chars_of, contains, join, joined, lemma_join_contains, lowercase,
    lowercase_of, opt_chars, opt_text, starts_with, str_has, str_is, string_of, trim, trimmed,
};
use vstd::prelude::*;
use vstd::slice::slice_to_vec;

verus! {

/// The block opens a section: it is a second-level heading, or a container
/// marked as the heading of a section.
pub open spec fn starts_section(b: BlockView) -> bool {
    ||| b.tag == "h2"@
    ||| b.tag == "div"@ && (contains(b.class, "mw-heading"@) || contains(
        b.class,
        "mw-headline"@,
    ))
}

/// The block is a banner above the lead: a hatnote, a notice or a box of
/// metadata.
pub open spec fn is_banner(b: BlockView) -> bool {
    &&& b.tag == "div"@
    &&& (contains(b.class, "hatnote"@) || contains(b.class, "bandeau-container"@) || contains(
        b.class,
        "metadata"@,
    ))
}

/// A banner is the notice of a disambiguation page: its id says so, or its
/// text, in lower case, speaks of a `page` of `homonymie`.
pub open spec fn is_disambiguation(id: Seq<char>, text_lower: Seq<char>) -> bool {
    id == "homonymie"@ || (contains(text_lower, "page"@) && contains(text_lower, "homonymie"@))
}

/// What a block gives to the summary, if anything: the trimmed text of a
/// banner that is no disambiguation notice, or of a paragraph that does not
/// begin with the words that introduce a maintenance note; never an empty
/// text.
pub open spec fn fragment(b: BlockView) -> Option<Seq<char>> {
    let t = trim(b.text);
    if is_banner(b) {
        if !is_disambiguation(b.id, lowercase(t)) && t.len() > 0 {
            Some(t)
        } else {
            None
        }
    } else if b.tag == "p"@ {
        if t.len() > 0 && !starts_with(t, "Cet article"@) {
            Some(t)
        } else {
            None
        }
    } else {
        None
    }
}

/// `i` is where the lead ends: no block before it opens a section, and the
/// block at `i`, if there is one, does.
pub open spec fn is_lead_end(blocks: Seq<BlockView>, i: int) -> bool {
    &&& 0 <= i <= blocks.len()
    &&& forall|j: int| 0 <= j < i ==> !starts_section(#[trigger] blocks[j])
    &&& i < blocks.len() ==> starts_section(blocks[i])
}

/// The blocks of the lead: those before the first one that opens a section.
pub open spec fn lead(blocks: Seq<BlockView>) -> Seq<BlockView> {
    blocks.take(choose|i: int| is_lead_end(blocks, i))
}

/// The summary of a page: what the blocks of its lead give, with an empty
/// line between each two.
pub open spec fn summary_of(blocks: Seq<BlockView>) -> Seq<char> {
    join(lead(blocks).filter_map(|b: BlockView| fragment(b)), "\n\n"@)
}

/// The lead ends at one place only.
pub proof fn lemma_lead_end_unique(blocks: Seq<BlockView>, i: int)
    requires
        is_lead_end(blocks, i),
    ensures
        lead(blocks) == blocks.take(i),
{
}

/// Tells whether a block opens a section.
pub fn opens_section(block: &Block) -> (r: bool)
    ensures
        r == starts_section(block@),
{
    if str_is(block.tag.as_str(), "h2") {
        return true;
    }
    str_is(block.tag.as_str(), "div") && (str_has(block.class.as_str(), "mw-heading") || str_has(
        block.class.as_str(),
        "mw-headline",
    ))
}

/// Tells whether a banner is the notice of a disambiguation page, from its id
/// and its text in lower case.
pub fn announces_disambiguation(id: &str, text_lower: &str) -> (r: bool)
    ensures
        r == is_disambiguation(id@, text_lower@),
{
    str_is(id, "homonymie") || (str_has(text_lower, "page") && str_has(text_lower, "homonymie"))
}

fn banner(block: &Block) -> (r: bool)
    ensures
        r == is_banner(block@),
{
    str_is(block.tag.as_str(), "div") && (str_has(block.class.as_str(), "hatnote") || str_has(
        block.class.as_str(),
        "bandeau-container",
    ) || str_has(block.class.as_str(), "metadata"))
}

fn fragment_chars(block: &Block) -> (r: Option<Vec<char>>)
    ensures
        opt_chars(r) == fragment(block@),
{
    let text = chars_of(block.text.as_str());
    let t = trimmed(text.as_slice());
    if banner(block) {
        let lower = lowercase_of(t);
        let lower_text = string_of(lower.as_slice());
        if !announces_disambiguation(block.id.as_str(), lower_text.as_str()) && t.len() > 0 {
            Some(slice_to_vec(t))
        } else {
            None
        }
    } else if str_is(block.tag.as_str(), "p") {
        let marker = chars_of("Cet article");
        if t.len() > 0 && !begins_with(t, marker.as_slice()) {
            Some(slice_to_vec(t))
        } else {
            None
        }
    } else {
        None
    }
}

/// What a block gives to the summary, if anything.
pub fn block_fragment(block: &Block) -> (r: Option<String>)
    ensures
        opt_text(r) == fragment(block@),
{
    match fragment_chars(block) {
        Some(t) => Some(string_of(t.as_slice())),
        None => None,
    }
}

/// The summary of a page, from the elements directly below its content
/// container.
pub fn summary_of_blocks(blocks: &Vec<Block>) -> (r: String)
    ensures
        r@ == summary_of(blocks@.map_values(|b: Block| b@)),
{
    let ghost views = blocks@.map_values(|b: Block| b@);
    let ghost rule = |b: BlockView| fragment(b);
    let mut parts: Vec<Vec<char>> = Vec::new();
    let mut i: usize = 0;
    while i < blocks.len() && !opens_section(&blocks[i])
        invariant
            i <= blocks.len(),
            views == blocks@.map_values(|b: Block| b@),
            rule == (|b: BlockView| fragment(b)),
            forall|j: int| 0 <= j < i ==> !starts_section(#[trigger] views[j]),
            char_texts(parts@) == views.take(i as int).filter_map(rule),
        decreases blocks.len() - i,
    {
        proof {
            views.lemma_filter_map_take_succ(rule, i as int);
        }
        match fragment_chars(&blocks[i]) {
            Some(t) => {
                parts.push(t);
            },
            None => {
            },
        }
        i += 1;
    }
    proof {
        lemma_lead_end_unique(views, i as int);
    }
    let sep = chars_of("\n\n");
    let all = joined(&parts, sep.as_slice());
    string_of(all.as_slice())
}

// ---------------------------------------------------------------------------
// Laws
// ---------------------------------------------------------------------------

/// Every sequence of blocks has a place where its lead ends.
pub proof fn lemma_lead_end_exists(blocks: Seq<BlockView>) -> (i: int)
    ensures
        is_lead_end(blocks, i),
    decreases blocks.len(),
{
    if blocks.len() == 0 {
        0
    } else {
        let k = lemma_lead_end_exists(blocks.drop_last());
        assert(forall|j: int| 0 <= j < blocks.len() - 1 ==> blocks.drop_last()[j] == blocks[j]);
        if k < blocks.len() - 1 {
            k
        } else if starts_section(blocks.last()) {
            k
        } else {
            k + 1
        }
    }
}

/// The summary ends at the first block that opens a section: it is the
/// summary of the blocks before it, whatever follows.
pub proof fn lemma_summary_stops_at_section(
    before: Seq<BlockView>,
    boundary: BlockView,
    after: Seq<BlockView>,
)
    requires
        forall|j: int| 0 <= j < before.len() ==> !starts_section(#[trigger] before[j]),
        starts_section(boundary),
    ensures
        summary_of(before + seq![boundary] + after) == summary_of(before),
{
    let whole = before + seq![boundary] + after;
    let n = before.len() as int;
    lemma_lead_end_unique(whole, n);
    lemma_lead_end_unique(before, n);
    assert(whole.take(n) =~= before.take(n));
}

/// A block that gives nothing and opens no section leaves no trace in the
/// summary.
pub proof fn lemma_summary_skips_silent_block(
    before: Seq<BlockView>,
    b: BlockView,
    after: Seq<BlockView>,
)
    requires
        fragment(b) is None,
        !starts_section(b),
    ensures
        summary_of(before + seq![b] + after) == summary_of(before + after),
{
    let rule = |x: BlockView| fragment(x);
    let with = before + seq![b] + after;
    let without = before + after;
    let n = before.len() as int;
    let i = lemma_lead_end_exists(without);
    lemma_lead_end_unique(without, i);
    if i < n {
        assert(forall|j: int| 0 <= j <= i ==> with[j] == without[j]);
        lemma_lead_end_unique(with, i);
        assert(with.take(i) =~= without.take(i));
    } else {
        assert(is_lead_end(with, i + 1)) by {
            assert forall|j: int| 0 <= j < i + 1 implies !starts_section(#[trigger] with[j]) by {
                if j < n {
                    assert(with[j] == without[j]);
                } else if j > n {
                    assert(with[j] == without[j - 1]);
                }
            }
        }
        lemma_lead_end_unique(with, i + 1);
        let tail = after.take(i - n);
        assert(with.take(i + 1) =~= (before + seq![b]) + tail);
        assert(without.take(i) =~= before + tail);
        lemma_filter_map_concat(before + seq![b], tail, rule);
        lemma_filter_map_concat(before, seq![b], rule);
        lemma_filter_map_concat(before, tail, rule);
        Seq::lemma_filter_map_singleton(b, rule);
    }
}

/// The notice of a disambiguation page gives nothing to the summary.
pub proof fn lemma_notice_is_left_out(b: BlockView)
    requires
        is_banner(b),
        is_disambiguation(b.id, lowercase(trim(b.text))),
    ensures
        fragment(b) is None,
{
}

/// A banner that is no such notice gives its text, and that text stands in
/// the summary when the banner belongs to the lead.
pub proof fn lemma_banner_is_included(
    before: Seq<BlockView>,
    b: BlockView,
    after: Seq<BlockView>,
)
    requires
        is_banner(b),
        !is_disambiguation(b.id, lowercase(trim(b.text))),
        trim(b.text).len() > 0,
        !starts_section(b),
        forall|j: int| 0 <= j < before.len() ==> !starts_section(#[trigger] before[j]),
    ensures
        fragment(b) == Some(trim(b.text)),
        contains(summary_of(before + seq![b] + after), trim(b.text)),
{
    let rule = |x: BlockView| fragment(x);
    let whole = before + seq![b] + after;
    let n = before.len() as int;
    let i = lemma_lead_end_exists(whole);
    lemma_lead_end_unique(whole, i);
    let lead_blocks = whole.take(i);
    lemma_filter_map_keeps(lead_blocks, rule, n);
    let parts = lead_blocks.filter_map(rule);
    let k = choose|k: int| 0 <= k < parts.len() && parts[k] == trim(b.text);
    lemma_join_contains(parts, "\n\n"@, k);
}

} // verus!
