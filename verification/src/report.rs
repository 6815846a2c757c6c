//! Reports on what was fetched: the page of one article, and the overview of
//! a run.
//!
//! The texts are built here; the date and the figures that need the clock or
//! fractions are handed in as texts.

use crate::page::{WikipediaPage, WikipediaPageView};
use crate::sequences::capped;
use crate::text::{char_texts, chars_of, join, joined, opt_str, string_of, texts};
use vstd::prelude::*;
use vstd::slice::slice_subrange;
use vstd::string::*;
use vstd::utf8::encode_utf8;

verus! {

// ---------------------------------------------------------------------------
// Numbers and names
// ---------------------------------------------------------------------------

/// The digit that writes a number below ten.
pub open spec fn digit_char(d: nat) -> char {
    ((0x30 + d) as u8) as char
}

/// A number written in base ten.
pub open spec fn number_text(n: nat) -> Seq<char>
    decreases n,
{
    if n < 10 {
        seq![digit_char(n)]
    } else {
        number_text(n / 10).push(digit_char(n % 10))
    }
}

/// Appends a number, written in base ten.
pub fn push_number(out: &mut String, n: u128)
    ensures
        final(out)@ == old(out)@ + number_text(n as nat),
    decreases n,
{
    if n >= 10 {
        push_number(out, n / 10);
    }
    let d: u8 = (n % 10) as u8;
    out.push((0x30 + d) as char);
}

/// The characters that a file name must not hold: those that separate or
/// quote in paths and patterns, and the control characters.
pub open spec fn is_unsafe_in_name(c: char) -> bool {
    ||| c == '/'
    ||| c == '?'
    ||| c == '<'
    ||| c == '>'
    ||| c == '\\'
    ||| c == ':'
    ||| c == '*'
    ||| c == '|'
    ||| c == '"'
    ||| c as u32 <= 0x1f
    ||| 0x80 <= c as u32 <= 0x9f
}

/// A name that holds no character that is unsafe in a file name.
pub open spec fn is_safe_name(name: Seq<char>) -> bool {
    forall|i: int| 0 <= i < name.len() ==> !is_unsafe_in_name(#[trigger] name[i])
}

/// Names that are all safe.
pub open spec fn are_safe_names(names: Seq<Seq<char>>) -> bool {
    forall|k: int| 0 <= k < names.len() ==> is_safe_name(#[trigger] names[k])
}

/// `sanitize_filename::sanitize`: a file name made from a text. What it
/// makes depends on the system that the program is built for. On every
/// system it leaves none of the characters in the name that it takes for
/// unsafe.
#[verifier::external_body]
pub(crate) fn sanitize_name(name: &str) -> (r: String)
    ensures
        is_safe_name(r@),
{
    sanitize_filename::sanitize(name)
}

// ---------------------------------------------------------------------------
// The page of one article
// ---------------------------------------------------------------------------

/// The sections as a list, one line each.
pub open spec fn bullet_list(sections: Seq<Seq<char>>) -> Seq<char>
    decreases sections.len(),
{
    if sections.len() == 0 {
        Seq::empty()
    } else {
        bullet_list(sections.drop_last()) + ("- "@ + sections.last() + "\n"@)
    }
}

/// The summary as a report shows it, with a note in place of an empty one.
pub open spec fn shown_summary(summary: Seq<char>) -> Seq<char> {
    if summary.len() > 0 {
        summary + "\n\n"@
    } else {
        "*Résumé non disponible*\n\n"@
    }
}

/// The sections as the page of an article shows them: nothing where there
/// are none.
pub open spec fn shown_sections(sections: Seq<Seq<char>>) -> Seq<char> {
    if sections.len() > 0 {
        "## Sections\n\n"@ + bullet_list(sections) + "\n"@
    } else {
        Seq::empty()
    }
}

/// The page of one article: title, source, date, summary and sections.
pub open spec fn markdown_of(page: WikipediaPageView, date: Seq<char>) -> Seq<char> {
    "# "@ + page.title + "\n\n"@ + "**Source:** [Wikipedia]("@ + page.url + ")  \n"@
        + "**Date:** "@ + date + "  \n\n"@ + "## Résumé\n\n"@ + shown_summary(page.summary)
        + shown_sections(page.sections)
}

fn push_shown_summary(out: &mut String, summary: &String)
    ensures
        final(out)@ == old(out)@ + shown_summary(summary@),
{
    if !summary.as_str().is_empty() {
        out.append(summary.as_str());
        out.append("\n\n");
    } else {
        out.append("*Résumé non disponible*\n\n");
    }
}

fn push_bullet_list(out: &mut String, sections: &Vec<String>)
    ensures
        final(out)@ == old(out)@ + bullet_list(texts(sections@)),
{
    let ghost start = out@;
    let mut i: usize = 0;
    while i < sections.len()
        invariant
            i <= sections.len(),
            out@ == start + bullet_list(texts(sections@).take(i as int)),
        decreases sections.len() - i,
    {
        let ghost done = texts(sections@).take(i as int);
        let ghost next = texts(sections@).take(i + 1);
        assert(next.drop_last() =~= done);
        out.append("- ");
        out.append(sections[i].as_str());
        out.append("\n");
        i += 1;
    }
    assert(texts(sections@).take(sections.len() as int) =~= texts(sections@));
}

/// Writes the page of one article. `date` says when the article was fetched.
pub fn generate_markdown(page: &WikipediaPage, date: &str) -> (r: String)
    ensures
        r@ == markdown_of(page@, date@),
{
    let mut r = "# ".to_owned();
    r.append(page.title.as_str());
    r.append("\n\n");
    r.append("**Source:** [Wikipedia](");
    r.append(page.url.as_str());
    r.append(")  \n");
    r.append("**Date:** ");
    r.append(date);
    r.append("  \n\n");
    r.append("## Résumé\n\n");
    push_shown_summary(&mut r, &page.summary);
    if page.sections.len() > 0 {
        r.append("## Sections\n\n");
        push_bullet_list(&mut r, &page.sections);
        r.append("\n");
    }
    r
}

/// The note on one article that is stored beside its data: title, address
/// and summary.
pub open spec fn digest_of(page: WikipediaPageView) -> Seq<char> {
    "Titre: "@ + page.title + "\n\nURL: "@ + page.url + "\n\nRésumé:\n"@ + page.summary + "\n"@
}

/// Writes the note on one article.
pub fn page_digest(page: &WikipediaPage) -> (r: String)
    ensures
        r@ == digest_of(page@),
{
    let mut r = "Titre: ".to_owned();
    r.append(page.title.as_str());
    r.append("\n\nURL: ");
    r.append(page.url.as_str());
    r.append("\n\nRésumé:\n");
    r.append(page.summary.as_str());
    r.append("\n");
    r
}

// ---------------------------------------------------------------------------
// The overview of a run
// ---------------------------------------------------------------------------

/// How many characters of a summary the overview shows.
pub const SHOWN_CHARS: usize = 300;

/// How many sections of an article the overview names.
pub const SHOWN_SECTIONS: usize = 5;

/// Where the page of an article lies, seen from the overview: beside it
/// after a search by keyword, in a folder of its own otherwise.
pub open spec fn article_link(name: Seq<char>, by_keyword: bool) -> Seq<char> {
    if by_keyword {
        "./"@ + name + ".md"@
    } else {
        "./"@ + name + "/article.md"@
    }
}

/// Where the data of an article lie, seen from the overview.
pub open spec fn data_link(name: Seq<char>, by_keyword: bool) -> Seq<char> {
    if by_keyword {
        "./"@ + name + ".md"@
    } else {
        "./"@ + name + "/"@
    }
}

/// The sign of a page or of a folder.
pub open spec fn place_icon(by_keyword: bool) -> Seq<char> {
    if by_keyword {
        "📄"@
    } else {
        "📁"@
    }
}

/// The heading of the overview.
pub open spec fn overview_head(term: Option<Seq<char>>, date: Seq<char>, count: nat) -> Seq<
    char,
> {
    (match term {
        Some(t) => "# 🔍 Résumé de recherche : \""@ + t + "\"\n\n"@,
        None => "# 📚 Résumé de scraping\n\n"@,
    }) + "**Date** : "@ + date + "\n\n"@ + "**Nombre d'articles** : "@ + number_text(count)
        + "\n\n"@ + "---\n\n"@
}

/// The line of the table for the article at position `i`.
pub open spec fn table_row(
    i: nat,
    page: WikipediaPageView,
    name: Seq<char>,
    by_keyword: bool,
) -> Seq<char> {
    "| "@ + number_text(i + 1) + " | ["@ + page.title + "]("@ + page.url + ") | "@ + number_text(
        page.sections.len(),
    ) + " | "@ + number_text(page.links.len()) + " | "@ + number_text(page.images.len())
        + " | ["@ + place_icon(by_keyword) + "]("@ + article_link(name, by_keyword) + ") |\n"@
}

/// The lines of the table for the first `n` articles.
pub open spec fn table_rows(
    pages: Seq<WikipediaPageView>,
    names: Seq<Seq<char>>,
    by_keyword: bool,
    n: nat,
) -> Seq<char>
    decreases n,
{
    if n == 0 {
        Seq::empty()
    } else {
        table_rows(pages, names, by_keyword, (n - 1) as nat) + table_row(
            (n - 1) as nat,
            pages[n - 1],
            names[n - 1],
            by_keyword,
        )
    }
}

/// The summary as the overview shows it: its first characters, and three
/// dots where it has more.
pub open spec fn short_summary(summary: Seq<char>) -> Seq<char> {
    if summary.len() > SHOWN_CHARS {
        summary.take(SHOWN_CHARS as int) + "..."@
    } else {
        summary
    }
}

/// The sections as the overview names them: the first ones, and how many
/// more there are.
pub open spec fn sections_preview(sections: Seq<Seq<char>>) -> Seq<char> {
    join(capped(sections, SHOWN_SECTIONS as nat), ", "@) + (if sections.len() > SHOWN_SECTIONS {
        " (et "@ + number_text((sections.len() - SHOWN_SECTIONS) as nat) + " autres...)"@
    } else {
        Seq::empty()
    })
}

/// What the overview says of the summary of an article.
pub open spec fn entry_summary(
    page: WikipediaPageView,
    name: Seq<char>,
    by_keyword: bool,
) -> Seq<char> {
    if page.summary.len() > 0 {
        short_summary(page.summary) + "\n\n"@ + "> 📄 [Lire l'article complet]("@ + article_link(
            name,
            by_keyword,
        ) + ")\n\n"@
    } else {
        "*Résumé non disponible*\n\n"@ + "> 📄 [Consulter les données]("@ + data_link(
            name,
            by_keyword,
        ) + ")\n\n"@
    }
}

/// What the overview says of the sections of an article.
pub open spec fn entry_sections(sections: Seq<Seq<char>>) -> Seq<char> {
    if sections.len() > 0 {
        "**Sections principales** : "@ + sections_preview(sections) + "\n\n"@
    } else {
        Seq::empty()
    }
}

/// The entry of the overview for the article at position `i`.
pub open spec fn entry(i: nat, page: WikipediaPageView, name: Seq<char>, by_keyword: bool) -> Seq<
    char,
> {
    "### "@ + number_text(i + 1) + ". "@ + page.title + "\n\n"@ + "**URL** : ["@ + page.title
        + "]("@ + page.url + ")\n\n"@ + entry_summary(page, name, by_keyword) + entry_sections(
        page.sections,
    ) + "---\n\n"@
}

/// The entries for the first `n` articles.
pub open spec fn entries(
    pages: Seq<WikipediaPageView>,
    names: Seq<Seq<char>>,
    by_keyword: bool,
    n: nat,
) -> Seq<char>
    decreases n,
{
    if n == 0 {
        Seq::empty()
    } else {
        entries(pages, names, by_keyword, (n - 1) as nat) + entry(
            (n - 1) as nat,
            pages[n - 1],
            names[n - 1],
            by_keyword,
        )
    }
}

/// The figures of a run.
pub struct Totals {
    pub sections: nat,
    pub links: nat,
    pub images: nat,
    /// The length of all summaries, in bytes of UTF-8.
    pub bytes: nat,
}

/// The figures of the first `n` articles.
pub open spec fn totals_of(pages: Seq<WikipediaPageView>, n: nat) -> Totals
    decreases n,
{
    if n == 0 {
        Totals { sections: 0, links: 0, images: 0, bytes: 0 }
    } else {
        let before = totals_of(pages, (n - 1) as nat);
        let page = pages[n - 1];
        Totals {
            sections: before.sections + page.sections.len(),
            links: before.links + page.links.len(),
            images: before.images + page.images.len(),
            bytes: before.bytes + encode_utf8(page.summary).len(),
        }
    }
}

/// The figures at the end of the overview.
pub open spec fn statistics(count: nat, totals: Totals, average: Seq<char>) -> Seq<char> {
    "## 📊 Statistiques globales\n\n"@ + "```\n"@ + "Total articles       : "@ + number_text(
        count,
    ) + "\n"@ + "Total sections       : "@ + number_text(totals.sections) + "\n"@
        + "Total liens          : "@ + number_text(totals.links) + "\n"@
        + "Total images         : "@ + number_text(totals.images) + "\n"@
        + "Moyenne sections     : "@ + average + "\n"@ + "Total caractères     : "@
        + number_text(totals.bytes) + "\n"@ + "```\n\n"@
}

/// The overview of a run: heading, table, one entry for each article,
/// figures, and a closing note. `names` holds the file name of each article,
/// `average` the mean number of sections as it is to be shown.
pub open spec fn overview_of(
    pages: Seq<WikipediaPageView>,
    names: Seq<Seq<char>>,
    term: Option<Seq<char>>,
    date: Seq<char>,
    average: Seq<char>,
) -> Seq<char> {
    overview_head(term, date, pages.len()) + "## 📋 Articles scrapés\n\n"@
        + "| # | Article | Sections | Liens | Images | Dossier |\n"@
        + "|---|---------|----------|-------|--------|----------|\n"@ + table_rows(
        pages,
        names,
        term is Some,
        pages.len(),
    ) + "\n---\n\n"@ + "## 📖 Résumés des articles\n\n"@ + entries(
        pages,
        names,
        term is Some,
        pages.len(),
    ) + statistics(pages.len(), totals_of(pages, pages.len()), average) + "---\n\n"@
        + "*Résumé généré automatiquement par le Scrappeur Wikipedia en Rust*\n"@
        + "*ESGI - BAC +4 RUST*\n"@
}

/// The records of articles, as the rules see them.
pub open spec fn page_views(pages: Seq<WikipediaPage>) -> Seq<WikipediaPageView> {
    pages.map_values(|p: WikipediaPage| p@)
}

fn push_count(out: &mut String, n: usize)
    ensures
        final(out)@ == old(out)@ + number_text(n as nat),
{
    push_number(out, n as u128);
}

fn push_article_link(out: &mut String, name: &str, by_keyword: bool)
    ensures
        final(out)@ == old(out)@ + article_link(name@, by_keyword),
{
    out.append("./");
    out.append(name);
    if by_keyword {
        out.append(".md");
    } else {
        out.append("/article.md");
    }
}

fn push_data_link(out: &mut String, name: &str, by_keyword: bool)
    ensures
        final(out)@ == old(out)@ + data_link(name@, by_keyword),
{
    out.append("./");
    out.append(name);
    if by_keyword {
        out.append(".md");
    } else {
        out.append("/");
    }
}

fn head_text(term: Option<&str>, date: &str, count: usize) -> (r: String)
    ensures
        r@ == overview_head(opt_str(term), date@, count as nat),
{
    let mut r = match term {
        Some(t) => {
            let mut h = "# 🔍 Résumé de recherche : \"".to_owned();
            h.append(t);
            h.append("\"\n\n");
            h
        },
        None => "# 📚 Résumé de scraping\n\n".to_owned(),
    };
    r.append("**Date** : ");
    r.append(date);
    r.append("\n\n");
    r.append("**Nombre d'articles** : ");
    push_count(&mut r, count);
    r.append("\n\n");
    r.append("---\n\n");
    r
}

fn row_text(i: usize, page: &WikipediaPage, name: &str, by_keyword: bool) -> (r: String)
    requires
        i < usize::MAX,
    ensures
        r@ == table_row(i as nat, page@, name@, by_keyword),
{
    let mut r = "| ".to_owned();
    push_count(&mut r, i + 1);
    r.append(" | [");
    r.append(page.title.as_str());
    r.append("](");
    r.append(page.url.as_str());
    r.append(") | ");
    push_count(&mut r, page.sections.len());
    r.append(" | ");
    push_count(&mut r, page.links.len());
    r.append(" | ");
    push_count(&mut r, page.images.len());
    r.append(" | [");
    if by_keyword {
        r.append("📄");
    } else {
        r.append("📁");
    }
    r.append("](");
    push_article_link(&mut r, name, by_keyword);
    r.append(") |\n");
    r
}

fn short_summary_text(summary: &str) -> (r: String)
    ensures
        r@ == short_summary(summary@),
{
    let all = chars_of(summary);
    if all.len() > SHOWN_CHARS {
        let mut r = string_of(slice_subrange(all.as_slice(), 0, SHOWN_CHARS));
        r.append("...");
        r
    } else {
        string_of(all.as_slice())
    }
}

fn sections_preview_text(sections: &Vec<String>) -> (r: String)
    ensures
        r@ == sections_preview(texts(sections@)),
{
    let shown: usize = if sections.len() > SHOWN_SECTIONS {
        SHOWN_SECTIONS
    } else {
        sections.len()
    };
    let mut parts: Vec<Vec<char>> = Vec::new();
    let mut k: usize = 0;
    while k < shown
        invariant
            k <= shown <= sections.len(),
            char_texts(parts@) == texts(sections@).take(k as int),
        decreases shown - k,
    {
        let part = chars_of(sections[k].as_str());
        parts.push(part);
        assert(texts(sections@).take(k + 1) =~= texts(sections@).take(k as int).push(
            sections@[k as int]@,
        ));
        k += 1;
    }
    assert(texts(sections@).take(shown as int) =~= capped(
        texts(sections@),
        SHOWN_SECTIONS as nat,
    ));
    let sep = chars_of(", ");
    let first = joined(&parts, sep.as_slice());
    let mut r = string_of(first.as_slice());
    if sections.len() > SHOWN_SECTIONS {
        r.append(" (et ");
        push_count(&mut r, sections.len() - SHOWN_SECTIONS);
        r.append(" autres...)");
    }
    r
}

fn entry_summary_text(page: &WikipediaPage, name: &str, by_keyword: bool) -> (r: String)
    ensures
        r@ == entry_summary(page@, name@, by_keyword),
{
    if !page.summary.as_str().is_empty() {
        let mut r = short_summary_text(page.summary.as_str());
        r.append("\n\n");
        r.append("> 📄 [Lire l'article complet](");
        push_article_link(&mut r, name, by_keyword);
        r.append(")\n\n");
        r
    } else {
        let mut r = "*Résumé non disponible*\n\n".to_owned();
        r.append("> 📄 [Consulter les données](");
        push_data_link(&mut r, name, by_keyword);
        r.append(")\n\n");
        r
    }
}

fn entry_text(i: usize, page: &WikipediaPage, name: &str, by_keyword: bool) -> (r: String)
    requires
        i < usize::MAX,
    ensures
        r@ == entry(i as nat, page@, name@, by_keyword),
{
    let mut r = "### ".to_owned();
    push_count(&mut r, i + 1);
    r.append(". ");
    r.append(page.title.as_str());
    r.append("\n\n");
    r.append("**URL** : [");
    r.append(page.title.as_str());
    r.append("](");
    r.append(page.url.as_str());
    r.append(")\n\n");
    let summary = entry_summary_text(page, name, by_keyword);
    r.append(summary.as_str());
    if page.sections.len() > 0 {
        let preview = sections_preview_text(&page.sections);
        r.append("**Sections principales** : ");
        r.append(preview.as_str());
        r.append("\n\n");
    }
    r.append("---\n\n");
    r
}

fn statistics_text(
    count: usize,
    sections: u128,
    links: u128,
    images: u128,
    bytes: u128,
    average: &str,
) -> (r: String)
    ensures
        r@ == statistics(
            count as nat,
            Totals {
                sections: sections as nat,
                links: links as nat,
                images: images as nat,
                bytes: bytes as nat,
            },
            average@,
        ),
{
    let mut r = "## 📊 Statistiques globales\n\n".to_owned();
    r.append("```\n");
    r.append("Total articles       : ");
    push_count(&mut r, count);
    r.append("\n");
    r.append("Total sections       : ");
    push_number(&mut r, sections);
    r.append("\n");
    r.append("Total liens          : ");
    push_number(&mut r, links);
    r.append("\n");
    r.append("Total images         : ");
    push_number(&mut r, images);
    r.append("\n");
    r.append("Moyenne sections     : ");
    r.append(average);
    r.append("\n");
    r.append("Total caractères     : ");
    push_number(&mut r, bytes);
    r.append("\n");
    r.append("```\n\n");
    r
}

/// Writes the overview of a run, given the file name of each article.
pub fn overview_text(
    articles: &Vec<WikipediaPage>,
    names: &Vec<String>,
    search_term: Option<&str>,
    date: &str,
    average: &str,
) -> (r: String)
    requires
        names.len() == articles.len(),
    ensures
        r@ == overview_of(
            page_views(articles@),
            texts(names@),
            opt_str(search_term),
            date@,
            average@,
        ),
{
    let ghost pages = page_views(articles@);
    let ghost file_names = texts(names@);
    let by_keyword = search_term.is_some();
    let n: usize = articles.len();
    let mut r = head_text(search_term, date, n);
    r.append("## 📋 Articles scrapés\n\n");
    r.append("| # | Article | Sections | Liens | Images | Dossier |\n");
    r.append("|---|---------|----------|-------|--------|----------|\n");
    let mut rows = String::new();
    let mut details = String::new();
    let mut sections: u128 = 0;
    let mut links: u128 = 0;
    let mut images: u128 = 0;
    let mut bytes: u128 = 0;
    let mut i: usize = 0;
    while i < n
        invariant
            i <= n,
            n == articles.len(),
            names.len() == articles.len(),
            pages == page_views(articles@),
            file_names == texts(names@),
            by_keyword == (opt_str(search_term) is Some),
            rows@ == table_rows(pages, file_names, by_keyword, i as nat),
            details@ == entries(pages, file_names, by_keyword, i as nat),
            sections == totals_of(pages, i as nat).sections,
            links == totals_of(pages, i as nat).links,
            images == totals_of(pages, i as nat).images,
            bytes == totals_of(pages, i as nat).bytes,
            sections <= i * usize::MAX,
            links <= i * usize::MAX,
            images <= i * usize::MAX,
            bytes <= i * usize::MAX,
        decreases n - i,
    {
        let page = &articles[i];
        let name = names[i].as_str();
        assert((i + 1) * usize::MAX <= usize::MAX * usize::MAX < u128::MAX) by (nonlinear_arith)
            requires
                i < usize::MAX,
                usize::MAX <= 0xffff_ffff_ffff_ffff,
        ;
        assert(i * usize::MAX + usize::MAX == (i + 1) * usize::MAX) by (nonlinear_arith);
        let row = row_text(i, page, name, by_keyword);
        rows.append(row.as_str());
        let detail = entry_text(i, page, name, by_keyword);
        details.append(detail.as_str());
        sections = sections + page.sections.len() as u128;
        links = links + page.links.len() as u128;
        images = images + page.images.len() as u128;
        bytes = bytes + page.summary.as_str().as_bytes().len() as u128;
        i += 1;
    }
    r.append(rows.as_str());
    r.append("\n---\n\n");
    r.append("## 📖 Résumés des articles\n\n");
    r.append(details.as_str());
    let figures = statistics_text(n, sections, links, images, bytes, average);
    r.append(figures.as_str());
    r.append("---\n\n");
    r.append("*Résumé généré automatiquement par le Scrappeur Wikipedia en Rust*\n");
    r.append("*ESGI - BAC +4 RUST*\n");
    r
}

/// Writes the overview of a run. The file name of each article is made from
/// its title. `search_term` is the keyword of the run, if it had one; `date`
/// says when the run was made.
pub fn generate_search_summary(
    articles: &Vec<WikipediaPage>,
    search_term: Option<&str>,
    date: &str,
    average: &str,
) -> (r: String)
    ensures
        exists|names: Seq<Seq<char>>|
            are_safe_names(names) && names.len() == articles.len() && r@ == overview_of(
                page_views(articles@),
                names,
                opt_str(search_term),
                date@,
                average@,
            ),
{
    let mut names: Vec<String> = Vec::new();
    let mut i: usize = 0;
    while i < articles.len()
        invariant
            i <= articles.len(),
            names.len() == i,
            are_safe_names(texts(names@)),
        decreases articles.len() - i,
    {
        let ghost before = names@;
        let name = sanitize_name(articles[i].title.as_str());
        names.push(name);
        assert forall|k: int| 0 <= k < names.len() implies is_safe_name(
            #[trigger] texts(names@)[k],
        ) by {
            if k < i {
                assert(texts(names@)[k] == texts(before)[k]);
            }
        }
        i += 1;
    }
    let r = overview_text(articles, &names, search_term, date, average);
    r
}

} // verus!
