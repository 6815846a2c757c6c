//! The decisions of a run: what the user asked for, which articles are new,
//! and how the files of a run are named.

use crate::page::WikipediaPage;
use crate::report::{number_text, push_number};
use crate::text::{
    char_texts, chars_of, lines, lowercase, lowercase_of, next_line, next_part, opt_str, opt_text,
    parse_bounded, parse_upto, same_text, split, string_of, strings_of, texts, trim, trimmed,
};
use vstd::prelude::*;
use vstd::slice::slice_to_vec;
use vstd::string::*;

verus! {

// ---------------------------------------------------------------------------
// What the user asked for
// ---------------------------------------------------------------------------

/// What the user picks in the menu.
#[derive(Clone, Copy, Debug, PartialEq, Eq, Structural)]
pub enum Choice {
    /// To enter addresses.
    Urls,
    /// To search by a keyword.
    Keyword,
    /// Anything else.
    Invalid,
}

/// The choice that a line of input makes: `1` for addresses, `2` for a
/// keyword, with whitespace around it or without.
pub open spec fn choice_of(line: Seq<char>) -> Choice {
    if trim(line) == "1"@ {
        Choice::Urls
    } else if trim(line) == "2"@ {
        Choice::Keyword
    } else {
        Choice::Invalid
    }
}

/// Reads the choice of the user.
pub fn read_choice(line: &str) -> (r: Choice)
    ensures
        r == choice_of(line@),
{
    let all = chars_of(line);
    let t = trimmed(all.as_slice());
    let one = chars_of("1");
    let two = chars_of("2");
    if same_text(t, one.as_slice()) {
        Choice::Urls
    } else if same_text(t, two.as_slice()) {
        Choice::Keyword
    } else {
        Choice::Invalid
    }
}

/// What a line of input enters: its text without the whitespace around it,
/// and nothing where that is empty.
pub open spec fn entry_of(line: Seq<char>) -> Option<Seq<char>> {
    if trim(line).len() > 0 {
        Some(trim(line))
    } else {
        None
    }
}

/// Reads what the user entered on a line.
pub fn read_entry(line: &str) -> (r: Option<String>)
    ensures
        opt_text(r) == entry_of(line@),
{
    let all = chars_of(line);
    let t = trimmed(all.as_slice());
    if t.len() > 0 {
        Some(string_of(t))
    } else {
        None
    }
}

/// How many results a search may be asked for at the prompt.
pub const MAX_ASKED: usize = 20;

/// The smaller of two numbers.
pub open spec fn at_most(n: nat, bound: nat) -> nat {
    if n <= bound {
        n
    } else {
        bound
    }
}

/// How many results the user asks for: the default where the line is empty;
/// else the number on the line, or the default where the line holds no
/// number, and never more than `MAX_ASKED`.
pub open spec fn count_of(line: Seq<char>, default: nat) -> nat {
    if trim(line).len() == 0 {
        default
    } else {
        match parse_upto(trim(line), usize::MAX as nat) {
            Some(n) => at_most(n, MAX_ASKED as nat),
            None => at_most(default, MAX_ASKED as nat),
        }
    }
}

/// Reads how many results the user asks for.
pub fn requested_count(line: &str, default: usize) -> (r: usize)
    ensures
        r == count_of(line@, default as nat),
{
    let all = chars_of(line);
    let t = trimmed(all.as_slice());
    if t.len() == 0 {
        return default;
    }
    let n: usize = match parse_bounded(t, usize::MAX as u64) {
        Some(n) => n as usize,
        None => default,
    };
    if n <= MAX_ASKED {
        n
    } else {
        MAX_ASKED
    }
}

/// The addresses in a list: its parts between commas, each without the
/// whitespace around it.
pub open spec fn url_list(list: Seq<char>) -> Seq<Seq<char>> {
    split(list, ',').map_values(|p: Seq<char>| trim(p))
}

/// Reads the addresses out of a list separated by commas.
pub fn split_url_list(list: &str) -> (r: Vec<String>)
    ensures
        texts(r@) == url_list(list@),
{
    let all = chars_of(list);
    let s = all.as_slice();
    let ghost rule = |p: Seq<char>| trim(p);
    let mut out: Vec<Vec<char>> = Vec::new();
    let mut pos: usize = 0;
    let mut more: bool = true;
    assert(s@.skip(0) =~= s@);
    while more
        invariant
            pos <= s.len(),
            s@ == list@,
            rule == (|p: Seq<char>| trim(p)),
            more ==> char_texts(out@) + split(s@.skip(pos as int), ',').map_values(rule)
                == url_list(list@),
            !more ==> char_texts(out@) == url_list(list@),
        decreases
                (if more {
                    s.len() - pos + 1
                } else {
                    0
                }),
    {
        let (part, next) = next_part(s, pos, ',');
        let item = slice_to_vec(trimmed(part));
        out.push(item);
        match next {
            Some(n) => {
                pos = n;
            },
            None => {
                more = false;
            },
        }
    }
    strings_of(&out)
}

/// Reads the addresses out of a text that holds one on each line.
pub fn url_lines(content: &str) -> (r: Vec<String>)
    ensures
        texts(r@) == lines(content@),
{
    let all = chars_of(content);
    let s = all.as_slice();
    let mut out: Vec<Vec<char>> = Vec::new();
    let mut pos: usize = 0;
    assert(s@.skip(0) =~= s@);
    while pos < s.len()
        invariant
            pos <= s.len(),
            s@ == content@,
            char_texts(out@) + lines(s@.skip(pos as int)) == lines(content@),
        decreases s.len() - pos,
    {
        let (line, next) = next_line(s, pos);
        let item = slice_to_vec(line);
        out.push(item);
        pos = next;
    }
    strings_of(&out)
}

// ---------------------------------------------------------------------------
// Which articles are new
// ---------------------------------------------------------------------------

/// An article with this title, in whatever case, is among the articles.
pub open spec fn has_title(titles: Seq<Seq<char>>, title: Seq<char>) -> bool {
    exists|i: int| 0 <= i < titles.len() && lowercase(#[trigger] titles[i]) == lowercase(title)
}

/// The titles of articles.
pub open spec fn titles_of(articles: Seq<WikipediaPage>) -> Seq<Seq<char>> {
    articles.map_values(|a: WikipediaPage| a.title@)
}

/// Tells whether an article with this title, in whatever case, was scraped
/// already.
pub fn already_scraped(articles: &Vec<WikipediaPage>, title: &str) -> (r: bool)
    ensures
        r == has_title(titles_of(articles@), title@),
{
    let wanted = chars_of(title);
    let wanted_lower = lowercase_of(wanted.as_slice());
    let mut i: usize = 0;
    while i < articles.len()
        invariant
            i <= articles.len(),
            wanted_lower@ == lowercase(title@),
            forall|j: int|
                0 <= j < i ==> lowercase(#[trigger] titles_of(articles@)[j]) != lowercase(title@),
        decreases articles.len() - i,
    {
        let known = chars_of(articles[i].title.as_str());
        let known_lower = lowercase_of(known.as_slice());
        if same_text(known_lower.as_slice(), wanted_lower.as_slice()) {
            assert(lowercase(titles_of(articles@)[i as int]) == lowercase(title@));
            return true;
        }
        i += 1;
    }
    false
}

// ---------------------------------------------------------------------------
// How the files of a run are named
// ---------------------------------------------------------------------------

/// The name of the page of an article: its base name, and from the second
/// attempt on the number of the attempt behind it.
pub open spec fn page_file_of(base: Seq<char>, attempt: nat) -> Seq<char> {
    if attempt == 0 {
        base + ".md"@
    } else {
        base + "_"@ + number_text(attempt) + ".md"@
    }
}

/// Names the page of an article. `attempt` counts the names that were taken
/// already.
pub fn page_file(base: &str, attempt: usize) -> (r: String)
    ensures
        r@ == page_file_of(base@, attempt as nat),
{
    let mut r = base.to_owned();
    if attempt > 0 {
        r.append("_");
        push_number(&mut r, attempt as u128);
    }
    r.append(".md");
    r
}

/// The folder of a run below the folder of all output: named after the
/// keyword and the time for a search, after the time alone for several
/// addresses, and the folder of all output itself for a single address.
pub open spec fn run_folder_of(
    output: Seq<char>,
    keyword_name: Option<Seq<char>>,
    count: nat,
    stamp: Seq<char>,
) -> Seq<char> {
    match keyword_name {
        Some(k) => output + "/"@ + k + "_"@ + stamp,
        None => if count > 1 {
            output + "/batch_"@ + stamp
        } else {
            output
        },
    }
}

/// Names the folder of a run. `keyword_name` is the keyword as a file name,
/// `count` the number of addresses, `stamp` the time of the run.
pub fn run_folder(output: &str, keyword_name: Option<&str>, count: usize, stamp: &str) -> (r:
    String)
    ensures
        r@ == run_folder_of(output@, opt_str(keyword_name), count as nat, stamp@),
{
    let mut r = output.to_owned();
    match keyword_name {
        Some(k) => {
            r.append("/");
            r.append(k);
            r.append("_");
            r.append(stamp);
        },
        None => {
            if count > 1 {
                r.append("/batch_");
                r.append(stamp);
            }
        },
    }
    r
}

} // verus!
