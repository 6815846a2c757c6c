use wikipedia_scraper::search::{
    collect_candidates, deduplicate, deduplicate_by_keys, direct_guess,
    extract_urls_from_opensearch, rechercher_wikipedia, resolve_search, search_path,
};

fn strings(items: &[&str]) -> Vec<String> {
    items.iter().map(|s| s.to_string()).collect()
}

fn results_page(items: &str) -> String {
    format!(
        "<html><body><div class=\"mw-search-results-container\">\
         <ul class=\"mw-search-results\">{}</ul></div></body></html>",
        items
    )
}

fn result(href: &str) -> String {
    format!(
        "<li class=\"mw-search-result\"><div class=\"mw-search-result-heading\">\
         <a href=\"{}\" title=\"t\">t</a></div><div class=\"searchresult\">…</div></li>",
        href
    )
}

#[test]
fn search_path_carries_the_encoded_query() {
    assert_eq!(
        search_path("Rust langage"),
        "/w/index.php?search=Rust_langage&title=Special%3ASearch&fulltext=1"
    );
    assert_eq!(
        search_path("été & hiver"),
        "/w/index.php?search=%C3%A9t%C3%A9_%26_hiver&title=Special%3ASearch&fulltext=1"
    );
}

#[test]
fn direct_guess_puts_underscores_for_spaces() {
    assert_eq!(direct_guess("Tour Eiffel"), "https://fr.wikipedia.org/wiki/Tour_Eiffel");
}

#[test]
fn direct_guess_changes_nothing_but_spaces() {
    assert_eq!(direct_guess("C++"), "https://fr.wikipedia.org/wiki/C++");
    assert_eq!(direct_guess("Été à Paris"), "https://fr.wikipedia.org/wiki/Été_à_Paris");
    assert_eq!(direct_guess(""), "https://fr.wikipedia.org/wiki/");
}

#[test]
fn dedup_collapses_case_and_trailing_slash() {
    let urls = strings(&["https://x/wiki/Foo", "https://x/wiki/Foo/", "HTTPS://X/WIKI/FOO"]);
    assert_eq!(deduplicate(&urls, 10), strings(&["https://x/wiki/Foo"]));
}

#[test]
fn dedup_keeps_the_first_of_each_and_the_order() {
    let urls = strings(&[
        "https://x/wiki/B/",
        "https://x/wiki/A",
        "https://x/wiki/b",
        "https://x/wiki/C",
        "https://x/wiki/a///",
        "https://x/wiki/É",
        "https://x/wiki/é",
    ]);
    assert_eq!(
        deduplicate(&urls, 10),
        strings(&["https://x/wiki/B/", "https://x/wiki/A", "https://x/wiki/C", "https://x/wiki/É"])
    );
}

#[test]
fn dedup_truncates_to_the_maximum() {
    let urls = strings(&["a", "A", "b", "c", "d"]);
    assert_eq!(deduplicate(&urls, 2), strings(&["a", "b"]));
    assert_eq!(deduplicate(&urls, 4), strings(&["a", "b", "c", "d"]));
    assert!(deduplicate(&urls, 0).is_empty());
    assert!(deduplicate(&Vec::new(), 3).is_empty());
}

#[test]
fn dedup_by_given_keys() {
    let urls = strings(&["u1", "u2", "u3", "u4"]);
    let keys = strings(&["k", "l", "k", "m"]);
    assert_eq!(deduplicate_by_keys(&urls, &keys, 10), strings(&["u1", "u2", "u4"]));
    assert_eq!(deduplicate_by_keys(&urls, &keys, 2), strings(&["u1", "u2"]));
}

#[test]
fn candidates_are_article_links_made_absolute() {
    let groups = vec![strings(&[
        "/wiki/Rust",
        "/wiki/Aide:Recherche",
        "/wiki/Rust#Histoire",
        "/w/index.php?title=Rust",
        "/wiki/Rust",
        "/wiki/Rust_(langage)",
    ])];
    assert_eq!(
        collect_candidates(&groups, 10),
        strings(&["https://fr.wikipedia.org/wiki/Rust", "https://fr.wikipedia.org/wiki/Rust_(langage)"])
    );
}

#[test]
fn later_groups_only_fill_up() {
    let groups = vec![
        strings(&["/wiki/A", "/wiki/B"]),
        strings(&["/wiki/B", "/wiki/C", "/wiki/D"]),
        strings(&["/wiki/E"]),
    ];
    assert_eq!(
        collect_candidates(&groups, 3),
        strings(&[
            "https://fr.wikipedia.org/wiki/A",
            "https://fr.wikipedia.org/wiki/B",
            "https://fr.wikipedia.org/wiki/C",
            "https://fr.wikipedia.org/wiki/D"
        ])
    );
    assert_eq!(
        collect_candidates(&groups, 2),
        strings(&["https://fr.wikipedia.org/wiki/A", "https://fr.wikipedia.org/wiki/B"])
    );
    assert_eq!(collect_candidates(&groups, 1).len(), 2);
    assert_eq!(collect_candidates(&groups, 10).len(), 5);
    assert!(collect_candidates(&groups, 0).is_empty());
}

#[test]
fn a_group_counts_in_full_before_the_cut() {
    let groups = vec![strings(&["/wiki/Foo", "/wiki/FOO", "/wiki/Bar"])];
    assert_eq!(
        resolve_search("foo", &groups, 2),
        strings(&["https://fr.wikipedia.org/wiki/Foo", "https://fr.wikipedia.org/wiki/Bar"])
    );
}

#[test]
fn search_removes_duplicates_before_it_cuts() {
    let html = results_page(&format!(
        "{}{}{}",
        result("/wiki/Foo"),
        result("/wiki/FOO"),
        result("/wiki/Bar")
    ));
    assert_eq!(
        rechercher_wikipedia("foo", 2, Some(&html)),
        strings(&["https://fr.wikipedia.org/wiki/Foo", "https://fr.wikipedia.org/wiki/Bar"])
    );
}

#[test]
fn search_collapses_case_and_trailing_slash() {
    let html = results_page(&format!(
        "{}{}{}",
        result("/wiki/Foo"),
        result("/wiki/Foo/"),
        result("/wiki/FOO")
    ));
    assert_eq!(
        rechercher_wikipedia("foo", 5, Some(&html)),
        strings(&["https://fr.wikipedia.org/wiki/Foo"])
    );
}

#[test]
fn search_without_candidates_falls_back_to_the_guess() {
    let none: Vec<Vec<String>> = vec![strings(&["/w/x", "/wiki/Aide:Y"])];
    assert_eq!(
        resolve_search("Tour Eiffel", &none, 5),
        strings(&["https://fr.wikipedia.org/wiki/Tour_Eiffel"])
    );
    assert_eq!(
        resolve_search("Tour Eiffel", &Vec::new(), 5),
        strings(&["https://fr.wikipedia.org/wiki/Tour_Eiffel"])
    );
}

#[test]
fn search_hits_are_deduplicated_candidates() {
    let groups = vec![strings(&["/wiki/Foo", "/wiki/foo", "/wiki/Bar", "/wiki/FOO/", "/wiki/Baz"])];
    assert_eq!(
        resolve_search("foo", &groups, 3),
        strings(&[
            "https://fr.wikipedia.org/wiki/Foo",
            "https://fr.wikipedia.org/wiki/Bar",
            "https://fr.wikipedia.org/wiki/Baz"
        ])
    );
    assert_eq!(
        resolve_search("foo", &groups, 2),
        strings(&["https://fr.wikipedia.org/wiki/Foo", "https://fr.wikipedia.org/wiki/Bar"])
    );
}

#[test]
fn search_never_returns_more_than_asked() {
    let groups = vec![strings(&["/wiki/A", "/wiki/B", "/wiki/C"])];
    assert_eq!(resolve_search("q", &groups, 2).len(), 2);
    assert!(resolve_search("q", &groups, 0).is_empty());
    assert!(resolve_search("q", &Vec::new(), 0).is_empty());
}

#[test]
fn search_reads_the_results_page() {
    let html = results_page(&format!(
        "{}{}{}{}",
        result("/wiki/Rust_(langage)"),
        result("/wiki/Rust_(jeu_vid%C3%A9o)"),
        result("/wiki/Sp%C3%A9cial:Recherche"),
        result("/wiki/Rust_(langage)")
    ));
    assert_eq!(
        rechercher_wikipedia("rust", 5, Some(&html)),
        strings(&[
            "https://fr.wikipedia.org/wiki/Rust_(langage)",
            "https://fr.wikipedia.org/wiki/Rust_(jeu_vid%C3%A9o)",
            "https://fr.wikipedia.org/wiki/Sp%C3%A9cial"
        ][..2])
    );
}

#[test]
fn search_prefers_result_headings_over_other_list_links() {
    let html = "<html><body><ul class=\"mw-search-results\">\
                <li><a href=\"/wiki/Dans_la_liste\">l</a>\
                <div class=\"mw-search-result-heading\"><a href=\"/wiki/Titre\">t</a></div></li>\
                </ul></body></html>";
    assert_eq!(
        rechercher_wikipedia("q", 5, Some(html)),
        strings(&["https://fr.wikipedia.org/wiki/Titre", "https://fr.wikipedia.org/wiki/Dans_la_liste"])
    );
    assert_eq!(
        rechercher_wikipedia("q", 1, Some(html)),
        strings(&["https://fr.wikipedia.org/wiki/Titre"])
    );
}

#[test]
fn search_without_page_or_results_gives_the_guess() {
    assert_eq!(
        rechercher_wikipedia("Langage Rust", 5, None),
        strings(&["https://fr.wikipedia.org/wiki/Langage_Rust"])
    );
    assert_eq!(
        rechercher_wikipedia("Langage Rust", 5, Some("<html><body><p>Aucun résultat</p></body></html>")),
        strings(&["https://fr.wikipedia.org/wiki/Langage_Rust"])
    );
    assert!(rechercher_wikipedia("Langage Rust", 0, None).is_empty());
}

#[test]
fn opensearch_urls_are_read_from_the_last_list() {
    let json = "[\"rust\",[\"Rust\",\"Rust (langage)\"],[\"\",\"\"],\
                [\"https://fr.wikipedia.org/wiki/Rust\", \"https://fr.wikipedia.org/wiki/Rust_(langage)\"]]";
    assert_eq!(
        extract_urls_from_opensearch(json),
        strings(&["https://fr.wikipedia.org/wiki/Rust", "https://fr.wikipedia.org/wiki/Rust_(langage)"])
    );
}

#[test]
fn opensearch_keeps_only_entries_that_begin_with_http() {
    assert_eq!(
        extract_urls_from_opensearch("x [ \"http://a\" ,b, \"\"https://c\"\" , \"ftp://d\",http] y"),
        strings(&["http://a", "https://c", "http"])
    );
}

#[test]
fn opensearch_without_a_closed_list_is_empty() {
    assert!(extract_urls_from_opensearch("").is_empty());
    assert!(extract_urls_from_opensearch("no list").is_empty());
    assert!(extract_urls_from_opensearch("[\"http://a\"").is_empty());
    assert!(extract_urls_from_opensearch("\"http://a\"]").is_empty());
    assert!(extract_urls_from_opensearch("[]").is_empty());
    assert!(extract_urls_from_opensearch("[\"http://a\"] [").is_empty());
}
