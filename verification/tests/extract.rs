use scraper::Html;
use wikipedia_scraper::extract::{
    build_record, extract_summary, nearest_paragraph, scrape_fetched, scrape_wikipedia,
    select_sections, select_title,
};
use wikipedia_scraper::http::{http_get, Progress};
use wikipedia_scraper::images::{image_of, select_images};
use wikipedia_scraper::links::{link_of, mentions_keyword, select_links};
use wikipedia_scraper::page::{Anchor, Block, Image, Limits, PageElements};
use wikipedia_scraper::summary::{
    announces_disambiguation, block_fragment, opens_section, summary_of_blocks,
};

fn block(tag: &str, class: &str, id: &str, text: &str) -> Block {
    Block {
        tag: tag.to_string(),
        class: class.to_string(),
        id: id.to_string(),
        text: text.to_string(),
    }
}

fn anchor(href: &str, title: &str, text: &str, paragraph: Option<&str>) -> Anchor {
    Anchor {
        href: Some(href.to_string()),
        title: title.to_string(),
        text: text.to_string(),
        paragraph: paragraph.map(|p| p.to_string()),
    }
}

fn image(src: &str, width: Option<&str>, height: Option<&str>) -> Image {
    Image {
        src: Some(src.to_string()),
        width: width.map(|w| w.to_string()),
        height: height.map(|h| h.to_string()),
    }
}

fn page(body: &str) -> String {
    format!(
        "<!DOCTYPE html><html><head><title>t</title></head><body>{}</body></html>",
        body
    )
}

fn summary_of_html(body: &str) -> String {
    extract_summary(&Html::parse_document(&page(body)))
}

// ----- summary -------------------------------------------------------------

#[test]
fn summary_stops_at_the_first_second_level_heading() {
    let html = "<div class=\"mw-parser-output\"><p>First.</p><p>Second.</p>\
                <h2>History</h2><p>Third.</p></div>";
    assert_eq!(summary_of_html(html), "First.\n\nSecond.");
}

#[test]
fn summary_stops_at_a_section_heading_container() {
    let html = "<div class=\"mw-parser-output\"><p>Lead.</p>\
                <div class=\"mw-heading mw-heading2\"><h2>History</h2></div><p>Later.</p></div>";
    assert_eq!(summary_of_html(html), "Lead.");
}

#[test]
fn summary_never_resumes_after_the_boundary() {
    let blocks = vec![
        block("p", "", "", "a"),
        block("h2", "", "", "H"),
        block("p", "", "", "b"),
        block("div", "hatnote", "", "c"),
    ];
    assert_eq!(summary_of_blocks(&blocks), "a");
}

#[test]
fn summary_leaves_out_the_disambiguation_notice() {
    let html = "<div class=\"mw-parser-output\">\
                <div class=\"hatnote\">Cette page d’homonymie répertorie les différents sujets.</div>\
                <div class=\"hatnote\">Pour les articles homonymes, voir Rust.</div>\
                <p>Rust est un langage.</p></div>";
    assert_eq!(
        summary_of_html(html),
        "Pour les articles homonymes, voir Rust.\n\nRust est un langage."
    );
}

#[test]
fn summary_leaves_out_a_banner_with_the_disambiguation_id() {
    let blocks = vec![
        block("div", "bandeau-container", "homonymie", "Voir aussi."),
        block("div", "metadata", "", "  Note.  "),
    ];
    assert_eq!(summary_of_blocks(&blocks), "Note.");
}

#[test]
fn summary_matches_the_notice_in_any_case() {
    let b = block("div", "hatnote", "", "PAGE D'HOMONYMIE");
    assert_eq!(block_fragment(&b), None);
    assert!(announces_disambiguation("", "cette page d'homonymie"));
    assert!(announces_disambiguation("homonymie", ""));
    assert!(!announces_disambiguation("", "page seule"));
    assert!(!announces_disambiguation("Homonymie", "homonymie seule"));
}

#[test]
fn summary_leaves_out_boilerplate_and_empty_paragraphs() {
    let blocks = vec![
        block("p", "", "", "Cet article est une ébauche."),
        block("p", "", "", "   \n "),
        block("p", "", "", " Cet article, précédé d'un blanc. "),
        block("p", "", "", "Texte."),
    ];
    assert_eq!(summary_of_blocks(&blocks), "Texte.");
}

#[test]
fn summary_ignores_other_elements() {
    let blocks = vec![
        block("table", "infobox", "", "Infobox"),
        block("div", "thumb", "", "Figure"),
        block("ul", "", "", "List"),
        block("p", "", "", "Lead"),
    ];
    assert_eq!(summary_of_blocks(&blocks), "Lead");
}

#[test]
fn summary_is_empty_without_container_or_blocks() {
    assert_eq!(summary_of_html("<p>Outside.</p>"), "");
    assert_eq!(summary_of_blocks(&Vec::new()), "");
}

#[test]
fn summary_reads_only_direct_children_of_the_first_container() {
    let html = "<div class=\"mw-parser-output\"><div class=\"box\"><p>Nested.</p></div>\
                <p>Direct.</p></div><div class=\"mw-parser-output\"><p>Other.</p></div>";
    assert_eq!(summary_of_html(html), "Direct.");
}

#[test]
fn summary_joins_with_one_blank_line() {
    let blocks = vec![
        block("p", "", "", "a"),
        block("p", "", "", "b"),
        block("p", "", "", "c"),
    ];
    assert_eq!(summary_of_blocks(&blocks), "a\n\nb\n\nc");
}

#[test]
fn section_start_is_a_heading_or_a_marked_container() {
    assert!(opens_section(&block("h2", "", "", "")));
    assert!(opens_section(&block("div", "x mw-heading2", "", "")));
    assert!(opens_section(&block("div", "mw-headline", "", "")));
    assert!(!opens_section(&block("h3", "", "", "")));
    assert!(!opens_section(&block("span", "mw-heading", "", "")));
    assert!(!opens_section(&block("div", "hatnote", "", "")));
}

// ----- title and sections --------------------------------------------------

#[test]
fn title_is_the_first_heading_or_the_placeholder() {
    assert_eq!(select_title(&vec!["Rust".to_string(), "Other".to_string()]), "Rust");
    assert_eq!(select_title(&Vec::new()), "Sans titre");
}

#[test]
fn sections_are_trimmed_and_keep_duplicates() {
    let headlines = vec![
        " Histoire ".to_string(),
        "".to_string(),
        "x".to_string(),
        " é ".to_string(),
        "Histoire".to_string(),
        "ab".to_string(),
    ];
    assert_eq!(select_sections(&headlines), vec!["Histoire", "Histoire", "ab"]);
}

// ----- links ---------------------------------------------------------------

#[test]
fn link_to_an_article_is_kept() {
    let a = anchor("/wiki/Foo", "", "Foo", None);
    assert_eq!(link_of(&a, None), Some("https://fr.wikipedia.org/wiki/Foo".to_string()));
}

#[test]
fn link_into_another_namespace_is_dropped() {
    let a = anchor("/wiki/Spécial:Recherche", "", "Recherche", None);
    assert_eq!(link_of(&a, None), None);
}

#[test]
fn link_to_a_fragment_is_dropped() {
    let a = anchor("/wiki/Foo#Section", "", "Foo", None);
    assert_eq!(link_of(&a, None), None);
}

#[test]
fn link_outside_the_article_prefix_is_dropped() {
    assert_eq!(link_of(&anchor("/w/index.php", "", "x", None), None), None);
    assert_eq!(link_of(&anchor("https://example.org/wiki/Foo", "", "x", None), None), None);
    let no_href = Anchor { href: None, title: String::new(), text: "x".to_string(), paragraph: None };
    assert_eq!(link_of(&no_href, None), None);
}

#[test]
fn keyword_in_the_link_text_keeps_the_link() {
    let a = anchor("/wiki/Autre", "", "Rust (langage)", None);
    assert_eq!(
        link_of(&a, Some("rust")),
        Some("https://fr.wikipedia.org/wiki/Autre".to_string())
    );
}

#[test]
fn keyword_nowhere_drops_the_link() {
    let a = anchor("/wiki/Python", "Python", "Python", Some("Un autre langage."));
    assert_eq!(link_of(&a, Some("rust")), None);
    let b = anchor("/wiki/Python", "Python", "Python", None);
    assert_eq!(link_of(&b, Some("rust")), None);
}

#[test]
fn keyword_in_title_or_address_keeps_the_link() {
    let by_title = anchor("/wiki/X", "Le langage RUST", "ici", None);
    assert!(link_of(&by_title, Some("Rust")).is_some());
    let by_href = anchor("/wiki/Rust_(langage)", "", "ici", None);
    assert!(link_of(&by_href, Some("rust")).is_some());
    let by_underscores = anchor("/wiki/Langage_Rust", "", "ici", None);
    assert!(link_of(&by_underscores, Some("Langage Rust")).is_some());
}

#[test]
fn keyword_in_the_paragraph_around_keeps_the_link() {
    let a = anchor("/wiki/Mozilla", "Mozilla", "Mozilla", Some("Rust est développé par Mozilla."));
    assert_eq!(
        link_of(&a, Some("rust")),
        Some("https://fr.wikipedia.org/wiki/Mozilla".to_string())
    );
}

#[test]
fn keyword_rule_on_lowered_texts() {
    assert!(mentions_keyword("rust (langage)", "", "/wiki/x", "rust"));
    assert!(mentions_keyword("", "rust", "/wiki/x", "rust"));
    assert!(mentions_keyword("", "", "/wiki/rust", "rust"));
    assert!(mentions_keyword("", "", "/wiki/langage_rust", "langage rust"));
    assert!(!mentions_keyword("python", "python", "/wiki/python", "rust"));
    assert!(mentions_keyword("anything", "", "", ""));
}

#[test]
fn links_keep_their_order_and_duplicates_up_to_the_bound() {
    let anchors = vec![
        anchor("/wiki/A", "", "A", None),
        anchor("/wiki/B#x", "", "B", None),
        anchor("/wiki/A", "", "A", None),
        anchor("/wiki/C", "", "C", None),
        anchor("/wiki/D", "", "D", None),
    ];
    assert_eq!(
        select_links(&anchors, None, 50),
        vec![
            "https://fr.wikipedia.org/wiki/A",
            "https://fr.wikipedia.org/wiki/A",
            "https://fr.wikipedia.org/wiki/C",
            "https://fr.wikipedia.org/wiki/D"
        ]
    );
    assert_eq!(
        select_links(&anchors, None, 2),
        vec!["https://fr.wikipedia.org/wiki/A", "https://fr.wikipedia.org/wiki/A"]
    );
    assert!(select_links(&anchors, None, 0).is_empty());
}

#[test]
fn nearest_paragraph_is_the_first_p_outwards() {
    let tags: Vec<String> = ["span", "p", "div", "p", "body"].iter().map(|t| t.to_string()).collect();
    assert_eq!(nearest_paragraph(&tags), Some(1));
    let none: Vec<String> = ["li", "ul", "div"].iter().map(|t| t.to_string()).collect();
    assert_eq!(nearest_paragraph(&none), None);
    assert_eq!(nearest_paragraph(&Vec::new()), None);
}

// ----- images --------------------------------------------------------------

#[test]
fn small_image_is_dropped() {
    let i = image("//upload.wikimedia.org/a/b/Flag.svg", Some("12"), Some("12"));
    assert_eq!(image_of(&i, 100), None);
}

#[test]
fn image_with_an_icon_marker_is_dropped() {
    let i = image("//upload.wikimedia.org/thumb/a/20px-Foo.png", None, None);
    assert_eq!(image_of(&i, 100), None);
    for src in [
        "//upload.wikimedia.org/static/images/x.png",
        "//upload.wikimedia.org/icons/x.png",
        "//upload.wikimedia.org/Icon_x.png",
        "//upload.wikimedia.org/an-icon.png",
        "//upload.wikimedia.org/logo.png",
        "//upload.wikimedia.org/15px-x.png",
    ] {
        assert_eq!(image_of(&image(src, None, None), 100), None);
    }
}

#[test]
fn large_image_on_the_media_host_is_kept() {
    let i = image(
        "//upload.wikimedia.org/wikipedia/commons/thumb/a/ab/Photo.jpg/250px-Photo.jpg",
        Some("250"),
        Some("180"),
    );
    assert_eq!(
        image_of(&i, 100),
        Some(
            "https://upload.wikimedia.org/wikipedia/commons/thumb/a/ab/Photo.jpg/250px-Photo.jpg"
                .to_string()
        )
    );
    let absolute = image("https://upload.wikimedia.org/x/Photo.jpeg", None, None);
    assert_eq!(
        image_of(&absolute, 100),
        Some("https://upload.wikimedia.org/x/Photo.jpeg".to_string())
    );
}

#[test]
fn image_sizes_count_only_when_both_are_numbers() {
    let src = "//upload.wikimedia.org/x/Photo.png";
    assert!(image_of(&image(src, Some("12"), None), 100).is_some());
    assert!(image_of(&image(src, None, Some("12")), 100).is_some());
    assert!(image_of(&image(src, Some("12px"), Some("12")), 100).is_some());
    assert!(image_of(&image(src, Some(" 12"), Some("12")), 100).is_some());
    assert!(image_of(&image(src, Some("-1"), Some("12")), 100).is_some());
    assert!(image_of(&image(src, Some("4294967296"), Some("12")), 100).is_some());
    assert!(image_of(&image(src, Some("+12"), Some("500")), 100).is_none());
    assert!(image_of(&image(src, Some("0099"), Some("500")), 100).is_none());
    assert!(image_of(&image(src, Some("100"), Some("99")), 100).is_none());
    assert!(image_of(&image(src, Some("100"), Some("100")), 100).is_some());
    assert!(image_of(&image(src, Some("4294967295"), Some("100")), 100).is_some());
    assert!(image_of(&image(src, Some("100"), Some("100")), 101).is_none());
}

#[test]
fn image_needs_site_extension_and_media_host() {
    assert_eq!(image_of(&image("/local/Photo.jpg", None, None), 100), None);
    assert_eq!(image_of(&image("//upload.wikimedia.org/x/Photo.webp", None, None), 100), None);
    assert_eq!(image_of(&image("//example.org/x/Photo.jpg", None, None), 100), None);
    let none = Image { src: None, width: None, height: None };
    assert_eq!(image_of(&none, 100), None);
    assert!(image_of(&image("//upload.wikimedia.org/x/Anim.gif", None, None), 100).is_some());
}

#[test]
fn images_are_bounded_in_order() {
    let mut images = Vec::new();
    for n in 0..30 {
        images.push(image(&format!("//upload.wikimedia.org/x/P{}.jpg", n), None, None));
        images.push(image("//upload.wikimedia.org/x/logo.jpg", None, None));
    }
    let kept = select_images(&images, 100, 20);
    assert_eq!(kept.len(), 20);
    for (n, url) in kept.iter().enumerate() {
        assert_eq!(url, &format!("https://upload.wikimedia.org/x/P{}.jpg", n));
    }
    assert_eq!(select_images(&images, 100, 50).len(), 30);
}

// ----- the record ----------------------------------------------------------

fn article() -> String {
    page(
        "<h1 id=\"firstHeading\" class=\"firstHeading\">Rust</h1>\
         <div id=\"mw-content-text\"><div class=\"mw-parser-output\">\
         <p>Rust est un <a href=\"/wiki/Langage_de_programmation\" title=\"Langage de programmation\">langage</a> \
         développé par <a href=\"/wiki/Mozilla\">Mozilla</a>.</p>\
         <h2><span class=\"mw-headline\" id=\"History\">History</span></h2>\
         <p>Depuis 2010, voir <a href=\"/wiki/Graydon_Hoare\">son auteur</a> et \
         <a href=\"/wiki/Aide:Accueil\">l'aide</a> ou <a href=\"/wiki/Rust#Syntax\">plus bas</a>.</p>\
         <h2><span class=\"mw-headline\" id=\"Syntax\">Syntax</span></h2>\
         <p>Accolades.</p>\
         <img src=\"//upload.wikimedia.org/x/20px-Flag.svg.png\" width=\"20\" height=\"12\">\
         </div></div>",
    )
}

#[test]
fn record_of_a_whole_page() {
    let url = "https://fr.wikipedia.org/wiki/Rust";
    let record = scrape_wikipedia(url, &article(), None);
    assert_eq!(record.url, url);
    assert_eq!(record.title, "Rust");
    assert_eq!(record.summary, "Rust est un langage développé par Mozilla.");
    assert_eq!(record.sections, vec!["History", "Syntax"]);
    assert_eq!(
        record.links,
        vec![
            "https://fr.wikipedia.org/wiki/Langage_de_programmation",
            "https://fr.wikipedia.org/wiki/Mozilla",
            "https://fr.wikipedia.org/wiki/Graydon_Hoare"
        ]
    );
    assert!(record.images.is_empty());
}

#[test]
fn record_with_a_keyword_keeps_the_links_that_fit() {
    let record = scrape_wikipedia("u", &article(), Some("Mozilla"));
    assert_eq!(
        record.links,
        vec![
            "https://fr.wikipedia.org/wiki/Langage_de_programmation",
            "https://fr.wikipedia.org/wiki/Mozilla"
        ]
    );
    let none = scrape_wikipedia("u", &article(), Some("introuvable"));
    assert!(none.links.is_empty());
    assert_eq!(none.sections, vec!["History", "Syntax"]);
}

#[test]
fn record_is_the_same_on_every_extraction() {
    let first = scrape_wikipedia("u", &article(), Some("rust"));
    let second = scrape_wikipedia("u", &article(), Some("rust"));
    assert_eq!(format!("{:?}", first), format!("{:?}", second));
}

#[test]
fn record_of_an_empty_page_has_defaults() {
    let record = scrape_wikipedia("u", "", None);
    assert_eq!(record.title, "Sans titre");
    assert_eq!(record.summary, "");
    assert!(record.sections.is_empty());
    assert!(record.links.is_empty());
    assert!(record.images.is_empty());
}

#[test]
fn record_reads_links_only_inside_the_content() {
    let html = page(
        "<a href=\"/wiki/Dehors\">x</a><div id=\"mw-content-text\">\
         <a href=\"/wiki/Dedans\">y</a><a href=\"/w/autre\">z</a></div>\
         <img src=\"//upload.wikimedia.org/x/Grande.jpg\" width=\"300\" height=\"200\">",
    );
    let record = scrape_wikipedia("u", &html, None);
    assert_eq!(record.links, vec!["https://fr.wikipedia.org/wiki/Dedans"]);
    assert_eq!(record.images, vec!["https://upload.wikimedia.org/x/Grande.jpg"]);
}

#[test]
fn record_from_plain_elements_within_given_bounds() {
    let elements = PageElements {
        headings: vec!["T".to_string()],
        blocks: vec![block("p", "", "", "Lead")],
        headlines: vec!["One".to_string()],
        anchors: vec![anchor("/wiki/A", "", "A", None), anchor("/wiki/B", "", "B", None)],
        images: vec![image("//upload.wikimedia.org/x/P.jpg", Some("50"), Some("50"))],
    };
    let limits = Limits { max_links: 1, max_images: 5, min_image_side: 10 };
    let record = build_record("u", &elements, None, &limits);
    assert_eq!(record.title, "T");
    assert_eq!(record.summary, "Lead");
    assert_eq!(record.sections, vec!["One"]);
    assert_eq!(record.links, vec!["https://fr.wikipedia.org/wiki/A"]);
    assert_eq!(record.images, vec!["https://upload.wikimedia.org/x/P.jpg"]);
    let usual = Limits::default();
    assert_eq!((usual.max_links, usual.max_images, usual.min_image_side), (50, 20, 100));
}

#[test]
fn keyword_matches_the_link_text_in_any_case() {
    let body = "<div id='mw-content-text'><ul><li>\
                <a href='/wiki/Langage_R'>Rust (langage)</a></li></ul></div>";
    let record = scrape_wikipedia("https://fr.wikipedia.org/wiki/X", body, Some("rust"));
    assert_eq!(record.links, vec!["https://fr.wikipedia.org/wiki/Langage_R"]);
}

#[test]
fn keyword_in_no_place_of_the_page_drops_the_link() {
    let body = "<div id='mw-content-text'><p>Un compilateur. \
                <a href='/wiki/Paris' title='Paris'>Paris</a></p></div>";
    let record = scrape_wikipedia("https://fr.wikipedia.org/wiki/X", body, Some("rust"));
    assert!(record.links.is_empty());
}

#[test]
fn record_names_the_address_after_the_redirect() {
    let first = http_get("fr.wikipedia.org", "/wiki/A");
    let second = match first.on_response(
        "HTTP/1.1 302 Found\r\nLocation: https://fr.wikipedia.org/wiki/B\r\n\r\n",
    ) {
        Progress::Follow(next) => next,
        other => panic!("{:?}", other),
    };
    let response = format!("HTTP/1.1 200 OK\r\n\r\n{}", article());
    let fetched = match second.on_response(&response) {
        Progress::Done(page) => page,
        other => panic!("{:?}", other),
    };
    let record = scrape_fetched(&fetched, None);
    assert_eq!(record.url, "https://fr.wikipedia.org/wiki/B");
    assert_eq!(record.title, "Rust");
    assert_eq!(record.sections, vec!["History", "Syntax"]);
    assert_eq!(record.links.len(), 3);
    assert_eq!(record, scrape_wikipedia("https://fr.wikipedia.org/wiki/B", &article(), None));
}
