//! From a search query to the addresses of articles.

use crate::dom::{
    attribute, element_attribute, matched, parse_document, parse_selector, parsed_document, select,
};
use crate::links::{
    absolute_article, article_href, article_url, is_article_href, lemma_article_url_is_absolute,
    site_origin,
};
use crate::sequences::{capped, lemma_filter_map_first};
use crate::text::{
    begins_with, char_texts, chars_of, first_index, last_index, last_position_of, lowercase,
    lowercase_of, next_part, opt_str, position_of, replace_char, same_text, split, starts_with,
    string_of, strings_of, strip, strip_end, texts, trim, trimmed, with_replaced,
    without_surrounding, without_trailing,
};
use crate::url::{url_encode, url_encoded};
use vstd::prelude::*;
use vstd::slice::{slice_subrange, slice_to_vec};
use vstd::string::*;

verus! {

// ---------------------------------------------------------------------------
// The request
// ---------------------------------------------------------------------------

/// The path of the page that lists the results of a search.
pub open spec fn search_path_of(query: Seq<char>) -> Seq<char> {
    "/w/index.php?search="@ + url_encoded(query) + "&title=Special%3ASearch&fulltext=1"@
}

/// The address at which the article on `query` would stand if it had the
/// query as its title: the query below the article prefix, with `_` for each
/// space.
pub open spec fn direct_url(query: Seq<char>) -> Seq<char> {
    site_origin() + "/wiki/"@ + replace_char(query, ' ', '_')
}

/// The path to ask the site for, to search for `query`.
pub fn search_path(query: &str) -> (r: String)
    ensures
        r@ == search_path_of(query@),
{
    let mut r = "/w/index.php?search=".to_owned();
    let encoded = url_encode(query);
    r.append(encoded.as_str());
    r.append("&title=Special%3ASearch&fulltext=1");
    r
}

/// The address to try where a search gave nothing.
pub fn direct_guess(query: &str) -> (r: String)
    ensures
        r@ == direct_url(query@),
{
    let mut r = "https://fr.wikipedia.org".to_owned();
    let words = chars_of(query);
    let title = string_of(with_replaced(words.as_slice(), ' ', '_').as_slice());
    r.append("/wiki/");
    r.append(title.as_str());
    r
}

// ---------------------------------------------------------------------------
// Candidates
// ---------------------------------------------------------------------------

/// The candidates `found` so far, extended by those among `hrefs`: each
/// address of an article, made absolute, that is not among the candidates
/// yet.
pub open spec fn add_candidates(found: Seq<Seq<char>>, hrefs: Seq<Seq<char>>) -> Seq<Seq<char>>
    decreases hrefs.len(),
{
    if hrefs.len() == 0 {
        found
    } else {
        let before = add_candidates(found, hrefs.drop_last());
        let url = article_url(hrefs.last());
        if is_article_href(hrefs.last()) && !before.contains(url) {
            before.push(url)
        } else {
            before
        }
    }
}

/// The candidates among the groups of addresses. The groups come in the order
/// of their priority: a group counts in full, and a later group counts only
/// where the earlier ones gave fewer than `max` candidates.
pub open spec fn candidates_in(groups: Seq<Seq<Seq<char>>>, max: nat) -> Seq<Seq<char>>
    decreases groups.len(),
{
    if groups.len() == 0 {
        Seq::empty()
    } else {
        let before = candidates_in(groups.drop_last(), max);
        if before.len() < max {
            add_candidates(before, groups.last())
        } else {
            before
        }
    }
}

/// The texts of groups of strings.
pub open spec fn group_texts(groups: Seq<Vec<String>>) -> Seq<Seq<Seq<char>>> {
    groups.map_values(|g: Vec<String>| texts(g@))
}

fn is_among(found: &Vec<Vec<char>>, url: &[char]) -> (r: bool)
    ensures
        r == char_texts(found@).contains(url@),
{
    let mut i: usize = 0;
    while i < found.len()
        invariant
            i <= found.len(),
            forall|j: int| 0 <= j < i ==> char_texts(found@)[j] != url@,
        decreases found.len() - i,
    {
        if same_text(found[i].as_slice(), url) {
            assert(char_texts(found@)[i as int] == url@);
            return true;
        }
        i += 1;
    }
    false
}

fn extend_candidates(found: &mut Vec<Vec<char>>, hrefs: &Vec<String>)
    ensures
        char_texts(final(found)@) == add_candidates(char_texts(old(found)@), texts(hrefs@)),
{
    let ghost start = char_texts(found@);
    let mut i: usize = 0;
    while i < hrefs.len()
        invariant
            i <= hrefs.len(),
            char_texts(found@) == add_candidates(start, texts(hrefs@).take(i as int)),
        decreases hrefs.len() - i,
    {
        proof {
            assert(texts(hrefs@).take(i + 1).drop_last() =~= texts(hrefs@).take(i as int));
        }
        let href = chars_of(hrefs[i].as_str());
        if article_href(href.as_slice()) {
            let url = absolute_article(href.as_slice());
            if !is_among(found, url.as_slice()) {
                found.push(url);
            }
        }
        i += 1;
    }
    assert(texts(hrefs@).take(hrefs.len() as int) =~= texts(hrefs@));
}

/// The candidates among groups of addresses, the groups given in the order
/// of their priority.
pub fn collect_candidates(groups: &Vec<Vec<String>>, max: usize) -> (r: Vec<String>)
    ensures
        texts(r@) == candidates_in(group_texts(groups@), max as nat),
{
    let mut found: Vec<Vec<char>> = Vec::new();
    let mut i: usize = 0;
    while i < groups.len()
        invariant
            i <= groups.len(),
            char_texts(found@) == candidates_in(group_texts(groups@).take(i as int), max as nat),
        decreases groups.len() - i,
    {
        proof {
            assert(group_texts(groups@).take(i + 1).drop_last() =~= group_texts(groups@).take(
                i as int,
            ));
        }
        if found.len() < max {
            extend_candidates(&mut found, &groups[i]);
        }
        i += 1;
    }
    assert(group_texts(groups@).take(groups.len() as int) =~= group_texts(groups@));
    strings_of(&found)
}

// ---------------------------------------------------------------------------
// Duplicates
// ---------------------------------------------------------------------------

/// By what two addresses count as the same: the address in lower case,
/// without the slashes at its end.
pub open spec fn dedup_key(url: Seq<char>) -> Seq<char> {
    strip_end(lowercase(url), '/')
}

/// The keys of addresses, one for one.
pub open spec fn dedup_keys(urls: Seq<Seq<char>>) -> Seq<Seq<char>> {
    urls.map_values(|u: Seq<char>| dedup_key(u))
}

/// No key before the one at `i` equals it.
pub open spec fn is_first_of_key(keys: Seq<Seq<char>>, i: int) -> bool {
    forall|j: int| 0 <= j < i ==> #[trigger] keys[j] != keys[i]
}

/// The addresses that are the first of their key, in their order.
pub open spec fn distinct_by(urls: Seq<Seq<char>>, keys: Seq<Seq<char>>) -> Seq<Seq<char>>
    decreases urls.len(),
{
    if urls.len() == 0 {
        Seq::empty()
    } else {
        let before = distinct_by(urls.drop_last(), keys.take(urls.len() - 1));
        if is_first_of_key(keys, urls.len() - 1) {
            before.push(urls.last())
        } else {
            before
        }
    }
}

/// The hits of a search among addresses: of those that differ only in case
/// or in slashes at the end the first one, in their order, and no more than
/// `max`.
pub open spec fn search_hits(urls: Seq<Seq<char>>, max: nat) -> Seq<Seq<char>> {
    capped(distinct_by(urls, dedup_keys(urls)), max)
}

/// The first addresses of their key among the first `i` stand at the start
/// of those among all.
pub proof fn lemma_distinct_prefix(urls: Seq<Seq<char>>, keys: Seq<Seq<char>>, i: int)
    requires
        keys.len() == urls.len(),
        0 <= i <= urls.len(),
    ensures
        distinct_by(urls.take(i), keys.take(i)).len() <= distinct_by(urls, keys).len(),
        distinct_by(urls, keys).take(distinct_by(urls.take(i), keys.take(i)).len() as int)
            == distinct_by(urls.take(i), keys.take(i)),
    decreases urls.len() - i,
{
    if i == urls.len() {
        assert(urls.take(i) =~= urls);
        assert(keys.take(i) =~= keys);
    } else {
        lemma_distinct_prefix(urls, keys, i + 1);
        assert(urls.take(i + 1).drop_last() =~= urls.take(i));
        assert(keys.take(i + 1).take(i) =~= keys.take(i));
    }
}

fn first_of_key(keys: &Vec<Vec<char>>, i: usize) -> (r: bool)
    requires
        i < keys.len(),
    ensures
        r == is_first_of_key(char_texts(keys@), i as int),
{
    let mut j: usize = 0;
    while j < i
        invariant
            j <= i,
            i < keys.len(),
            forall|k: int|
                0 <= k < j ==> #[trigger] char_texts(keys@)[k] != char_texts(keys@)[i as int],
        decreases i - j,
    {
        if same_text(keys[j].as_slice(), keys[i].as_slice()) {
            assert(char_texts(keys@)[j as int] == char_texts(keys@)[i as int]);
            return false;
        }
        j += 1;
    }
    true
}

fn distinct_chars(urls: &Vec<String>, keys: &Vec<Vec<char>>, max: usize) -> (r: Vec<String>)
    requires
        keys.len() == urls.len(),
    ensures
        texts(r@) == capped(distinct_by(texts(urls@), char_texts(keys@)), max as nat),
        r.len() <= max,
{
    let ghost u = texts(urls@);
    let ghost k = char_texts(keys@);
    let mut out: Vec<String> = Vec::new();
    let mut i: usize = 0;
    while i < urls.len() && out.len() < max
        invariant
            i <= urls.len(),
            keys.len() == urls.len(),
            out.len() <= max,
            u == texts(urls@),
            k == char_texts(keys@),
            texts(out@) == distinct_by(u.take(i as int), k.take(i as int)),
        decreases urls.len() - i,
    {
        proof {
            assert(u.take(i + 1).drop_last() =~= u.take(i as int));
            assert(k.take(i + 1).take(i as int) =~= k.take(i as int));
            assert(is_first_of_key(k.take(i + 1), i as int) == is_first_of_key(k, i as int)) by {
                assert(forall|j: int| 0 <= j <= i ==> k.take(i + 1)[j] == k[j]);
            }
        }
        if first_of_key(keys, i) {
            let url = urls[i].clone();
            out.push(url);
        }
        i += 1;
    }
    proof {
        lemma_distinct_prefix(u, k, i as int);
        if i == urls.len() {
            assert(u.take(i as int) =~= u);
            assert(k.take(i as int) =~= k);
        }
    }
    out
}

/// The addresses that are the first of their key, the keys given beside
/// them, and no more than `max`.
pub fn deduplicate_by_keys(urls: &Vec<String>, keys: &Vec<String>, max: usize) -> (r: Vec<String>)
    requires
        keys.len() == urls.len(),
    ensures
        texts(r@) == capped(distinct_by(texts(urls@), texts(keys@)), max as nat),
        r.len() <= max,
{
    let mut chars: Vec<Vec<char>> = Vec::new();
    let mut i: usize = 0;
    while i < keys.len()
        invariant
            i <= keys.len(),
            char_texts(chars@) == texts(keys@).take(i as int),
        decreases keys.len() - i,
    {
        let key = chars_of(keys[i].as_str());
        chars.push(key);
        assert(texts(keys@).take(i + 1) =~= texts(keys@).take(i as int).push(keys@[i as int]@));
        i += 1;
    }
    assert(texts(keys@).take(keys.len() as int) =~= texts(keys@));
    distinct_chars(urls, &chars, max)
}

/// The hits of a search among addresses.
pub fn deduplicate(urls: &Vec<String>, max: usize) -> (r: Vec<String>)
    ensures
        texts(r@) == search_hits(texts(urls@), max as nat),
        r.len() <= max,
{
    let mut keys: Vec<String> = Vec::new();
    let mut i: usize = 0;
    while i < urls.len()
        invariant
            i <= urls.len(),
            texts(keys@) == dedup_keys(texts(urls@)).take(i as int),
        decreases urls.len() - i,
    {
        let url = chars_of(urls[i].as_str());
        let lower = lowercase_of(url.as_slice());
        let key = string_of(without_trailing(lower.as_slice(), '/'));
        keys.push(key);
        assert(dedup_keys(texts(urls@)).take(i + 1) =~= dedup_keys(texts(urls@)).take(
            i as int,
        ).push(dedup_key(urls@[i as int]@)));
        i += 1;
    }
    assert(dedup_keys(texts(urls@)).take(urls.len() as int) =~= dedup_keys(texts(urls@)));
    deduplicate_by_keys(urls, &keys, max)
}

// ---------------------------------------------------------------------------
// The resolution
// ---------------------------------------------------------------------------

/// The addresses that a search for `query` resolves to, given the addresses
/// that the page of results links to, in groups by priority: the hits among
/// the candidates, or the direct guess where there is no candidate.
pub open spec fn search_results(
    query: Seq<char>,
    groups: Seq<Seq<Seq<char>>>,
    max: nat,
) -> Seq<Seq<char>> {
    let found = candidates_in(groups, max);
    if found.len() == 0 {
        search_hits(seq![direct_url(query)], max)
    } else {
        search_hits(found, max)
    }
}

/// Resolves a search, given the addresses that the page of results links to.
pub fn resolve_search(query: &str, groups: &Vec<Vec<String>>, max: usize) -> (r: Vec<String>)
    ensures
        texts(r@) == search_results(query@, group_texts(groups@), max as nat),
        r.len() <= max,
{
    let mut found = collect_candidates(groups, max);
    if found.len() == 0 {
        let guess = direct_guess(query);
        found.push(guess);
        assert(texts(found@) =~= seq![direct_url(query@)]);
    }
    deduplicate(&found, max)
}

/// The addresses that elements link to: the `href` of each that has one.
pub open spec fn element_hrefs(elements: Seq<scraper::ElementRef>) -> Seq<Seq<char>> {
    elements.filter_map(|e: scraper::ElementRef| element_attribute(e, "href"@))
}

/// The addresses that a page of results links to, in three groups by
/// priority: the links under the heading of a result first, then those of
/// the two older forms of the list.
pub open spec fn link_groups_of(document: scraper::Html) -> Seq<Seq<Seq<char>>> {
    seq![
        element_hrefs(matched(document, "div.mw-search-result-heading a"@)),
        element_hrefs(matched(document, "div.mw-search-results li a"@)),
        element_hrefs(matched(document, "ul.mw-search-results li a"@)),
    ]
}

/// The addresses that a search for `query` resolves to, given the page of
/// results, if the site gave one: those that the links of the page resolve
/// to, and the direct guess without a page.
pub open spec fn search_results_on(
    query: Seq<char>,
    page: Option<Seq<char>>,
    max: nat,
) -> Seq<Seq<char>> {
    match page {
        Some(html) => search_results(query, link_groups_of(parsed_document(html)), max),
        None => search_results(query, Seq::empty(), max),
    }
}

/// The addresses that the elements matched by a selector link to.
fn result_links(document: &scraper::Html, selector: &str) -> (r: Vec<String>)
    ensures
        texts(r@) == element_hrefs(matched(*document, selector@)),
{
    let ghost rule = |e: scraper::ElementRef| element_attribute(e, "href"@);
    let mut out: Vec<String> = Vec::new();
    match parse_selector(selector) {
        Some(s) => {
            let elements = select(document, &s);
            let mut i: usize = 0;
            assert(elements@.take(0).filter_map(rule) =~= Seq::<Seq<char>>::empty());
            while i < elements.len()
                invariant
                    i <= elements.len(),
                    rule == (|e: scraper::ElementRef| element_attribute(e, "href"@)),
                    texts(out@) == elements@.take(i as int).filter_map(rule),
                decreases elements.len() - i,
            {
                let ghost before = out@;
                proof {
                    elements@.lemma_filter_map_take_succ(rule, i as int);
                }
                match attribute(&elements[i], "href") {
                    Some(href) => {
                        out.push(href);
                        assert(texts(out@) =~= texts(before) + seq![href@]);
                    },
                    None => {
                        assert(texts(before) + Seq::<Seq<char>>::empty() =~= texts(before));
                    },
                }
                i += 1;
            }
            assert(elements@.take(elements.len() as int) =~= elements@);
        },
        None => {
            assert(texts(out@) =~= Seq::<Seq<char>>::empty());
        },
    }
    out
}

/// Resolves a search for `mot_cle` into at most `max_resultats` addresses of
/// articles. `page` is the page of results that the site gave, if it gave
/// one. Without a page, or without one usable link on it, the search
/// resolves to the direct guess.
pub fn rechercher_wikipedia(mot_cle: &str, max_resultats: usize, page: Option<&str>) -> (r: Vec<
    String,
>)
    ensures
        texts(r@) == search_results_on(mot_cle@, opt_str(page), max_resultats as nat),
        are_search_results(texts(r@), max_resultats as nat),
{
    let mut groups: Vec<Vec<String>> = Vec::new();
    match page {
        Some(html) => {
            let document = parse_document(html);
            let first = result_links(&document, "div.mw-search-result-heading a");
            let second = result_links(&document, "div.mw-search-results li a");
            let third = result_links(&document, "ul.mw-search-results li a");
            groups.push(first);
            groups.push(second);
            groups.push(third);
            assert(group_texts(groups@) =~= link_groups_of(document));
        },
        None => {
            assert(group_texts(groups@) =~= Seq::<Seq<Seq<char>>>::empty());
        },
    }
    proof {
        lemma_search_results(mot_cle@, group_texts(groups@), max_resultats as nat);
    }
    resolve_search(mot_cle, &groups, max_resultats)
}

// ---------------------------------------------------------------------------
// Addresses in an answer of the suggestion service
// ---------------------------------------------------------------------------

/// The list of addresses in an answer: what stands between the last `[` of
/// the answer and the first `]` behind it.
pub open spec fn opensearch_section(json: Seq<char>) -> Option<Seq<char>> {
    match last_index(json, '[') {
        Some(a) => match first_index(json.skip(a), ']') {
            Some(e) => Some(json.subrange(a + 1, a + e)),
            None => None,
        },
        None => None,
    }
}

/// What one entry of the list gives: the entry without the whitespace and
/// then the quotes around it, if that begins with `http`.
pub open spec fn opensearch_entry(part: Seq<char>) -> Option<Seq<char>> {
    let entry = strip(trim(part), '"');
    if starts_with(entry, "http"@) {
        Some(entry)
    } else {
        None
    }
}

/// The addresses in an answer of the suggestion service: what the entries of
/// its list give, the entries being separated by commas.
pub open spec fn opensearch_urls(json: Seq<char>) -> Seq<Seq<char>> {
    match opensearch_section(json) {
        Some(section) => split(section, ',').filter_map(|p: Seq<char>| opensearch_entry(p)),
        None => Seq::empty(),
    }
}

fn entries_of(section: &[char]) -> (r: Vec<String>)
    ensures
        texts(r@) == split(section@, ',').filter_map(|p: Seq<char>| opensearch_entry(p)),
{
    let ghost rule = |p: Seq<char>| opensearch_entry(p);
    let ghost all = split(section@, ',').filter_map(rule);
    let http = chars_of("http");
    let mut out: Vec<Vec<char>> = Vec::new();
    let mut pos: usize = 0;
    let mut more: bool = true;
    assert(section@.skip(0) =~= section@);
    while more
        invariant
            pos <= section.len(),
            http@ == "http"@,
            rule == (|p: Seq<char>| opensearch_entry(p)),
            all == split(section@, ',').filter_map(rule),
            more ==> char_texts(out@) + split(section@.skip(pos as int), ',').filter_map(rule)
                == all,
            !more ==> char_texts(out@) == all,
        decreases
                (if more {
                    section.len() - pos + 1
                } else {
                    0
                }),
    {
        let (part, next) = next_part(section, pos, ',');
        let entry = without_surrounding(trimmed(part), '"');
        let keep = begins_with(entry, http.as_slice());
        if keep {
            out.push(slice_to_vec(entry));
        }
        match next {
            Some(n) => {
                proof {
                    lemma_filter_map_first(part@, split(section@.skip(n as int), ','), rule);
                }
                pos = n;
            },
            None => {
                proof {
                    lemma_filter_map_first(part@, Seq::empty(), rule);
                }
                more = false;
            },
        }
    }
    strings_of(&out)
}

/// Reads the addresses out of an answer of the suggestion service.
pub fn extract_urls_from_opensearch(json: &str) -> (r: Vec<String>)
    ensures
        texts(r@) == opensearch_urls(json@),
{
    let text = chars_of(json);
    let s = text.as_slice();
    match last_position_of(s, '[') {
        Some(a) => {
            let tail = slice_subrange(s, a, s.len());
            match position_of(tail, ']') {
                Some(e) => {
                    let section = slice_subrange(s, a + 1, a + e);
                    entries_of(section)
                },
                None => Vec::new(),
            }
        },
        None => Vec::new(),
    }
}

// ---------------------------------------------------------------------------
// Laws
// ---------------------------------------------------------------------------

/// The positions of the keys that are the first of their kind, ascending.
pub open spec fn hit_positions(keys: Seq<Seq<char>>) -> Seq<int>
    decreases keys.len(),
{
    if keys.len() == 0 {
        Seq::empty()
    } else {
        let before = hit_positions(keys.drop_last());
        if is_first_of_key(keys, keys.len() - 1) {
            before.push(keys.len() - 1)
        } else {
            before
        }
    }
}

/// The positions of the first keys lie in the sequence, ascend, and each of
/// them holds the first key of its kind.
pub proof fn lemma_hit_positions_ascend(keys: Seq<Seq<char>>)
    ensures
        forall|k: int|
            0 <= k < hit_positions(keys).len() ==> 0 <= #[trigger] hit_positions(keys)[k]
                < keys.len() && is_first_of_key(keys, hit_positions(keys)[k]),
        forall|a: int, b: int|
            0 <= a < b < hit_positions(keys).len() ==> #[trigger] hit_positions(keys)[a]
                < #[trigger] hit_positions(keys)[b],
    decreases keys.len(),
{
    if keys.len() > 0 {
        let shorter = keys.drop_last();
        lemma_hit_positions_ascend(shorter);
        let before = hit_positions(shorter);
        assert forall|k: int| 0 <= k < before.len() implies is_first_of_key(
            keys,
            #[trigger] before[k],
        ) by {
            let p = before[k];
            assert(forall|j: int| 0 <= j <= p ==> shorter[j] == keys[j]);
        }
    }
}

/// Every key has the first of its kind among the positions, at or before its
/// own place.
pub proof fn lemma_every_key_is_hit(keys: Seq<Seq<char>>, i: int)
    requires
        0 <= i < keys.len(),
    ensures
        exists|k: int|
            0 <= k < hit_positions(keys).len() && 0 <= #[trigger] hit_positions(keys)[k] <= i
                && keys[hit_positions(keys)[k]] == keys[i],
    decreases keys.len(), i,
{
    let n = keys.len() as int;
    let shorter = keys.drop_last();
    let before = hit_positions(shorter);
    let all = hit_positions(keys);
    lemma_hit_positions_ascend(shorter);
    if i < n - 1 {
        lemma_every_key_is_hit(shorter, i);
        let k = choose|k: int|
            0 <= k < before.len() && 0 <= #[trigger] before[k] <= i && shorter[before[k]]
                == shorter[i];
        assert(all[k] == before[k]);
    } else if is_first_of_key(keys, n - 1) {
        assert(all[all.len() - 1] == n - 1);
    } else {
        let j = choose|j: int| 0 <= j < n - 1 && #[trigger] keys[j] == keys[n - 1];
        lemma_every_key_is_hit(keys, j);
    }
}

/// The addresses that are the first of their key are those at the positions
/// of the first keys.
pub proof fn lemma_distinct_follows_positions(urls: Seq<Seq<char>>, keys: Seq<Seq<char>>)
    requires
        keys.len() == urls.len(),
    ensures
        distinct_by(urls, keys).len() == hit_positions(keys).len(),
        forall|k: int|
            0 <= k < hit_positions(keys).len() ==> 0 <= #[trigger] hit_positions(keys)[k]
                < urls.len() && distinct_by(urls, keys)[k] == urls[hit_positions(keys)[k]],
    decreases urls.len(),
{
    if urls.len() > 0 {
        lemma_distinct_follows_positions(urls.drop_last(), keys.drop_last());
        lemma_hit_positions_ascend(keys);
    }
}

/// The hits of a search are no more than asked for. They are addresses of
/// the input, in the order of the input, each the first of its key there;
/// no two hits have the same key; and unless the bound cut the hits short,
/// every address of the input has its key among them.
pub proof fn lemma_search_hits(urls: Seq<Seq<char>>, max: nat)
    ensures
        search_hits(urls, max).len() <= max,
        search_hits(urls, max).len() <= hit_positions(dedup_keys(urls)).len(),
        forall|k: int|
            0 <= k < search_hits(urls, max).len() ==> 0 <= #[trigger] hit_positions(
                dedup_keys(urls),
            )[k] < urls.len() && search_hits(urls, max)[k] == urls[hit_positions(
                dedup_keys(urls),
            )[k]],
        forall|a: int, b: int|
            0 <= a < b < search_hits(urls, max).len() ==> hit_positions(dedup_keys(urls))[a]
                < hit_positions(dedup_keys(urls))[b] && dedup_key(
                #[trigger] search_hits(urls, max)[a],
            ) != dedup_key(#[trigger] search_hits(urls, max)[b]),
        distinct_by(urls, dedup_keys(urls)).len() <= max ==> forall|i: int|
            #![trigger urls[i]]
            0 <= i < urls.len() ==> exists|k: int|
                0 <= k < search_hits(urls, max).len() && dedup_key(
                    #[trigger] search_hits(urls, max)[k],
                ) == dedup_key(urls[i]),
{
    let keys = dedup_keys(urls);
    let pos = hit_positions(keys);
    let hits = search_hits(urls, max);
    lemma_distinct_follows_positions(urls, keys);
    lemma_hit_positions_ascend(keys);
    assert forall|a: int, b: int| 0 <= a < b < hits.len() implies pos[a] < pos[b] && dedup_key(
        #[trigger] hits[a],
    ) != dedup_key(#[trigger] hits[b]) by {
        assert(keys[pos[a]] != keys[pos[b]]);
    }
    assert forall|i: int|
        #![trigger urls[i]]
        0 <= i < urls.len() && distinct_by(urls, keys).len() <= max implies exists|k: int|
        0 <= k < hits.len() && dedup_key(#[trigger] hits[k]) == dedup_key(urls[i]) by {
        lemma_every_key_is_hit(keys, i);
    }
}

/// A search always resolves to something when something is asked for, and
/// never to more than was asked for.
pub proof fn lemma_search_resolves(query: Seq<char>, groups: Seq<Seq<Seq<char>>>, max: nat)
    ensures
        search_results(query, groups, max).len() <= max,
        max > 0 ==> search_results(query, groups, max).len() > 0,
{
    let found = candidates_in(groups, max);
    let urls = if found.len() == 0 {
        seq![direct_url(query)]
    } else {
        found
    };
    let keys = dedup_keys(urls);
    lemma_every_key_is_hit(keys, 0);
    lemma_distinct_follows_positions(urls, keys);
}

/// The address of an article on the site: it begins with the origin of the
/// site and the article prefix.
pub open spec fn is_article_address(url: Seq<char>) -> bool {
    starts_with(url, site_origin() + "/wiki/"@)
}

/// Every candidate is the address of an article on the site.
pub proof fn lemma_candidates_are_articles(found: Seq<Seq<char>>, hrefs: Seq<Seq<char>>)
    requires
        forall|i: int| 0 <= i < found.len() ==> is_article_address(#[trigger] found[i]),
    ensures
        forall|i: int|
            0 <= i < add_candidates(found, hrefs).len() ==> is_article_address(
                #[trigger] add_candidates(found, hrefs)[i],
            ),
    decreases hrefs.len(),
{
    if hrefs.len() > 0 {
        lemma_candidates_are_articles(found, hrefs.drop_last());
        if is_article_href(hrefs.last()) {
            lemma_article_url_is_absolute(hrefs.last());
        }
        let before = add_candidates(found, hrefs.drop_last());
        let all = add_candidates(found, hrefs);
        assert forall|i: int| 0 <= i < all.len() implies is_article_address(#[trigger] all[i]) by {
            if i < before.len() {
                assert(all[i] == before[i]);
            }
        }
    }
}

/// Every candidate among groups is the address of an article on the site.
pub proof fn lemma_group_candidates_are_articles(groups: Seq<Seq<Seq<char>>>, max: nat)
    ensures
        forall|i: int|
            0 <= i < candidates_in(groups, max).len() ==> is_article_address(
                #[trigger] candidates_in(groups, max)[i],
            ),
    decreases groups.len(),
{
    if groups.len() > 0 {
        lemma_group_candidates_are_articles(groups.drop_last(), max);
        lemma_candidates_are_articles(candidates_in(groups.drop_last(), max), groups.last());
    }
}

/// What holds of the addresses that a search resolves to, whatever the page
/// of results held: they are no more than asked for, and at least one where
/// one is asked for; each is the address of an article on the site; and no
/// two of them differ only in case or in slashes at the end.
pub open spec fn are_search_results(r: Seq<Seq<char>>, max: nat) -> bool {
    &&& r.len() <= max
    &&& max > 0 ==> r.len() > 0
    &&& forall|i: int| 0 <= i < r.len() ==> is_article_address(#[trigger] r[i])
    &&& forall|a: int, b: int|
        0 <= a < b < r.len() ==> dedup_key(#[trigger] r[a]) != dedup_key(#[trigger] r[b])
}

/// Every resolution of a search has these properties.
pub proof fn lemma_search_results(query: Seq<char>, groups: Seq<Seq<Seq<char>>>, max: nat)
    ensures
        are_search_results(search_results(query, groups, max), max),
{
    let found = candidates_in(groups, max);
    let urls = if found.len() == 0 {
        seq![direct_url(query)]
    } else {
        found
    };
    let r = search_results(query, groups, max);
    lemma_search_resolves(query, groups, max);
    lemma_search_hits(urls, max);
    lemma_group_candidates_are_articles(groups, max);
    assert(is_article_address(direct_url(query))) by {
        let prefix = site_origin() + "/wiki/"@;
        assert(direct_url(query).subrange(0, prefix.len() as int) =~= prefix);
    }
    assert forall|i: int| 0 <= i < r.len() implies is_article_address(#[trigger] r[i]) by {
        assert(r[i] == urls[hit_positions(dedup_keys(urls))[i]]);
    }
}

} // verus!
