//! The HTTP/1.1 exchange over a secure transport: the request that is sent,
//! the framing of the response, and the following of redirects.
//!
//! Nothing here touches a socket. An [`Exchange`] says what to send to which
//! host; the caller performs the transfer and reports what came of it as a
//! [`Reply`]; the exchange then decides whether the fetch is finished, has
//! failed, or goes on at another place.

use crate::text::{
    begins_with, char_is_digit, chars_of, contains, find, first_index, first_line, first_line_of,
    followed_by, has_text, is_digit, lines, lowercase, lowercase_of, next_line, opt_chars, opt_text,
    position_of, position_of_text, starts_with, string_of, trim, trimmed,
};
use crate::url::{parse_url, url_host, url_path};
use vstd::prelude::*;
use vstd::slice::{slice_subrange, slice_to_vec};
use vstd::string::*;

verus! {

// ---------------------------------------------------------------------------
// Failures
// ---------------------------------------------------------------------------

/// Why a fetch failed.
#[derive(Debug, PartialEq, Eq)]
pub enum FetchError {
    /// No connection to the host could be opened.
    ConnectionFailed { host: String },
    /// The secure session could not be set up or broke down.
    TlsFailed,
    /// The server answered with a status that is neither a success nor a
    /// redirect that could be followed; `line` is its status line.
    HttpStatus { line: String },
    /// The response has no boundary between headers and body.
    MalformedResponse,
}

/// A failure, with its texts as sequences of characters.
pub enum FetchErrorView {
    ConnectionFailed { host: Seq<char> },
    TlsFailed,
    HttpStatus { line: Seq<char> },
    MalformedResponse,
}

impl View for FetchError {
    type V = FetchErrorView;

    open spec fn view(&self) -> FetchErrorView {
        match self {
            FetchError::ConnectionFailed { host } => FetchErrorView::ConnectionFailed {
                host: host@,
            },
            FetchError::TlsFailed => FetchErrorView::TlsFailed,
            FetchError::HttpStatus { line } => FetchErrorView::HttpStatus { line: line@ },
            FetchError::MalformedResponse => FetchErrorView::MalformedResponse,
        }
    }
}

/// The reason of a failure in words.
pub open spec fn reason(e: FetchErrorView) -> Seq<char> {
    match e {
        FetchErrorView::ConnectionFailed { host } => "Connexion impossible à "@ + host,
        FetchErrorView::TlsFailed => "Échec de la session TLS"@,
        FetchErrorView::HttpStatus { line } => "Erreur HTTP: "@ + line,
        FetchErrorView::MalformedResponse => "Impossible de séparer headers et body"@,
    }
}

impl FetchError {
    /// The reason of the failure in words, for a report to the user.
    pub fn message(&self) -> (r: String)
        ensures
            r@ == reason(self@),
    {
        match self {
            FetchError::ConnectionFailed { host } => {
                let mut r = "Connexion impossible à ".to_owned();
                r.append(host.as_str());
                r
            },
            FetchError::TlsFailed => "Échec de la session TLS".to_owned(),
            FetchError::HttpStatus { line } => {
                let mut r = "Erreur HTTP: ".to_owned();
                r.append(line.as_str());
                r
            },
            FetchError::MalformedResponse => "Impossible de séparer headers et body".to_owned(),
        }
    }
}

// ---------------------------------------------------------------------------
// The request
// ---------------------------------------------------------------------------

/// The request for `path` at `host`, as it goes over the wire: one `GET` with
/// the headers of a desktop browser, asking the server to close the connection
/// after the response.
pub open spec fn request_text(host: Seq<char>, path: Seq<char>) -> Seq<char> {
    "GET "@ + path + " HTTP/1.1\r\n"@ + "Host: "@ + host + "\r\n"@
        + "User-Agent: Mozilla/5.0 (Windows NT 10.0; Win64; x64) AppleWebKit/537.36\r\n"@
        + "Accept: text/html,application/xhtml+xml,application/xml;q=0.9,*/*;q=0.8\r\n"@
        + "Accept-Language: fr,fr-FR;q=0.8,en-US;q=0.5,en;q=0.3\r\n"@
        + "Connection: close\r\n"@ + "\r\n"@
}

/// Writes the request for `path` at `host`.
pub fn build_request(host: &str, path: &str) -> (r: String)
    ensures
        r@ == request_text(host@, path@),
{
    let mut r = "GET ".to_owned();
    r.append(path);
    r.append(" HTTP/1.1\r\n");
    r.append("Host: ");
    r.append(host);
    r.append("\r\n");
    r.append("User-Agent: Mozilla/5.0 (Windows NT 10.0; Win64; x64) AppleWebKit/537.36\r\n");
    r.append("Accept: text/html,application/xhtml+xml,application/xml;q=0.9,*/*;q=0.8\r\n");
    r.append("Accept-Language: fr,fr-FR;q=0.8,en-US;q=0.5,en;q=0.3\r\n");
    r.append("Connection: close\r\n");
    r.append("\r\n");
    r
}

// ---------------------------------------------------------------------------
// Framing the response
// ---------------------------------------------------------------------------

/// The status line of a response: its first line.
pub open spec fn status_line(response: Seq<char>) -> Seq<char> {
    first_line(response)
}

/// The status line announces a redirect: it holds `301` or `302`.
pub open spec fn is_redirect(line: Seq<char>) -> bool {
    contains(line, "301"@) || contains(line, "302"@)
}

/// The status code of a status line: what stands between its first space and
/// the next one, or the end of the line.
pub open spec fn status_code(line: Seq<char>) -> Seq<char> {
    match first_index(line, ' ') {
        Some(i) => {
            let rest = line.skip(i + 1);
            match first_index(rest, ' ') {
                Some(j) => rest.take(j),
                None => rest,
            }
        },
        None => Seq::empty(),
    }
}

/// The status line announces a success: its code has three digits, the first
/// of them a `2`.
pub open spec fn is_success(line: Seq<char>) -> bool {
    let code = status_code(line);
    &&& code.len() == 3
    &&& code[0] == '2'
    &&& is_digit(code[1])
    &&& is_digit(code[2])
}

/// The body of a response: what follows the first empty line. A boundary of
/// carriage returns and line feeds goes before one of line feeds alone.
pub open spec fn body_of(response: Seq<char>) -> Option<Seq<char>> {
    match find(response, "\r\n\r\n"@) {
        Some(i) => Some(response.skip(i + "\r\n\r\n"@.len())),
        None => match find(response, "\n\n"@) {
            Some(i) => Some(response.skip(i + "\n\n"@.len())),
            None => None,
        },
    }
}

/// The line begins with the prefix, as it is written or when both are put in
/// lower case.
pub open spec fn names_header(line: Seq<char>, prefix: Seq<char>) -> bool {
    starts_with(line, prefix) || starts_with(lowercase(line), lowercase(prefix))
}

/// What follows the first `n` characters of a line, without the whitespace
/// around it.
pub open spec fn value_after(line: Seq<char>, n: nat) -> Seq<char> {
    if n <= line.len() {
        trim(line.skip(n as int))
    } else {
        Seq::empty()
    }
}

/// The value of the first of the lines that begins with the prefix.
pub open spec fn first_header(ls: Seq<Seq<char>>, prefix: Seq<char>) -> Option<Seq<char>>
    decreases ls.len(),
{
    if ls.len() == 0 {
        None
    } else if names_header(ls[0], prefix) {
        Some(value_after(ls[0], prefix.len()))
    } else {
        first_header(ls.drop_first(), prefix)
    }
}

/// The value of a header in a response: of the first line that begins with
/// the header's name, a colon and a space, what follows these, trimmed. The
/// name matches in any case.
pub open spec fn header_value(response: Seq<char>, name: Seq<char>) -> Option<Seq<char>> {
    first_header(lines(response), name + ": "@)
}

/// Whether a line begins with a prefix, given the lower-case forms of both.
pub fn line_names_header(
    line: &[char],
    prefix: &[char],
    line_lower: &[char],
    prefix_lower: &[char],
) -> (r: bool)
    ensures
        r == (starts_with(line@, prefix@) || starts_with(line_lower@, prefix_lower@)),
{
    begins_with(line, prefix) || begins_with(line_lower, prefix_lower)
}

fn is_header_line(line: &[char], prefix: &[char]) -> (r: bool)
    ensures
        r == names_header(line@, prefix@),
{
    if begins_with(line, prefix) {
        return true;
    }
    let line_lower = lowercase_of(line);
    let prefix_lower = lowercase_of(prefix);
    line_names_header(line, prefix, line_lower.as_slice(), prefix_lower.as_slice())
}

fn header_of(response: &[char], name: &[char]) -> (r: Option<Vec<char>>)
    ensures
        opt_chars(r) == header_value(response@, name@),
{
    let sep = chars_of(": ");
    let prefix = followed_by(name, sep.as_slice());
    let mut pos: usize = 0;
    assert(response@.skip(0) =~= response@);
    while pos < response.len()
        invariant
            pos <= response.len(),
            prefix@ == name@ + ": "@,
            header_value(response@, name@) == first_header(
                lines(response@.skip(pos as int)),
                prefix@,
            ),
        decreases response.len() - pos,
    {
        let (line, next) = next_line(response, pos);
        proof {
            let ls = lines(response@.skip(pos as int));
            assert(ls.drop_first() =~= lines(response@.skip(next as int)));
        }
        if is_header_line(line, prefix.as_slice()) {
            if prefix.len() <= line.len() {
                let value = trimmed(slice_subrange(line, prefix.len(), line.len()));
                return Some(slice_to_vec(value));
            } else {
                return Some(Vec::new());
            }
        }
        pos = next;
    }
    None
}

/// Looks a header up in a response.
pub fn extract_header(response: &str, header_name: &str) -> (r: Option<String>)
    ensures
        opt_text(r) == header_value(response@, header_name@),
{
    let text = chars_of(response);
    let name = chars_of(header_name);
    match header_of(text.as_slice(), name.as_slice()) {
        Some(v) => Some(string_of(v.as_slice())),
        None => None,
    }
}

fn announces_redirect(line: &[char]) -> (r: bool)
    ensures
        r == is_redirect(line@),
{
    let moved = chars_of("301");
    let found = chars_of("302");
    has_text(line, moved.as_slice()) || has_text(line, found.as_slice())
}

fn announces_success(line: &[char]) -> (r: bool)
    ensures
        r == is_success(line@),
{
    match position_of(line, ' ') {
        Some(i) => {
            assert(i < line.len());
            let rest = slice_subrange(line, i + 1, line.len());
            let code = match position_of(rest, ' ') {
                Some(j) => slice_subrange(rest, 0, j),
                None => rest,
            };
            code.len() == 3 && code[0] == '2' && char_is_digit(code[1]) && char_is_digit(code[2])
        },
        None => false,
    }
}

fn body_after(response: &[char]) -> (r: Option<&[char]>)
    ensures
        r is Some == body_of(response@) is Some,
        r is Some ==> r->0@ == body_of(response@)->0,
{
    let wide = chars_of("\r\n\r\n");
    let narrow = chars_of("\n\n");
    match position_of_text(response, wide.as_slice()) {
        Some(i) => {
            assert(i + wide.len() <= response.len());
            Some(slice_subrange(response, i + wide.len(), response.len()))
        },
        None => match position_of_text(response, narrow.as_slice()) {
            Some(i) => {
                assert(i + narrow.len() <= response.len());
                Some(slice_subrange(response, i + narrow.len(), response.len()))
            },
            None => None,
        },
    }
}

// ---------------------------------------------------------------------------
// The exchange
// ---------------------------------------------------------------------------

/// How many redirects one fetch follows before it gives up.
pub const MAX_REDIRECTS: usize = 10;

/// One request on its way: to which host, for which path, and after how many
/// redirects.
#[derive(Debug, PartialEq, Eq)]
pub struct Exchange {
    /// The host to connect to.
    pub host: String,
    /// The path to ask the host for.
    pub path: String,
    /// How many redirects the fetch has followed to get here.
    pub hops: usize,
}

/// An exchange, with its texts as sequences of characters.
pub struct ExchangeView {
    pub host: Seq<char>,
    pub path: Seq<char>,
    pub hops: nat,
}

impl View for Exchange {
    type V = ExchangeView;

    open spec fn view(&self) -> ExchangeView {
        ExchangeView { host: self.host@, path: self.path@, hops: self.hops as nat }
    }
}

/// What the transport reports of one request.
#[derive(Debug, PartialEq, Eq)]
pub enum Reply {
    /// No connection to the host could be opened.
    ConnectionFailed,
    /// The secure session failed.
    TlsFailed,
    /// The peer closed the stream after these bytes.
    Received(Vec<u8>),
}

/// A page that was fetched: where it was found in the end, and its body.
#[derive(Debug, PartialEq, Eq)]
pub struct Fetched {
    /// The address at which the page was found, after all redirects.
    pub url: String,
    /// The body of the response.
    pub body: String,
}

/// A fetched page, with its texts as sequences of characters.
pub struct FetchedView {
    pub url: Seq<char>,
    pub body: Seq<char>,
}

impl View for Fetched {
    type V = FetchedView;

    open spec fn view(&self) -> FetchedView {
        FetchedView { url: self.url@, body: self.body@ }
    }
}

/// Where a fetch stands after a reply.
#[derive(Debug, PartialEq, Eq)]
pub enum Progress {
    /// The server sent the client elsewhere: this request is to be made next.
    Follow(Exchange),
    /// The page is there.
    Done(Fetched),
    /// The fetch has failed.
    Failed(FetchError),
}

/// The progress of a fetch, with its texts as sequences of characters.
pub enum ProgressView {
    Follow(ExchangeView),
    Done(FetchedView),
    Failed(FetchErrorView),
}

impl View for Progress {
    type V = ProgressView;

    open spec fn view(&self) -> ProgressView {
        match self {
            Progress::Follow(e) => ProgressView::Follow(e@),
            Progress::Done(f) => ProgressView::Done(f@),
            Progress::Failed(e) => ProgressView::Failed(e@),
        }
    }
}

/// What `String::from_utf8_lossy` of the standard library makes of bytes: their
/// text, with a replacement character for each part that is no UTF-8.
pub uninterp spec fn lossy_text(bytes: Seq<u8>) -> Seq<char>;

/// `String::from_utf8_lossy` of the standard library never fails, and its
/// result depends on the bytes alone.
#[verifier::external_body]
fn decode_lossy(bytes: &[u8]) -> (r: String)
    ensures
        r@ == lossy_text(bytes@),
{
    String::from_utf8_lossy(bytes).into_owned()
}

/// The address of a page at `host` under `path`.
pub open spec fn resolved_url(host: Seq<char>, path: Seq<char>) -> Seq<char> {
    "https://"@ + host + path
}

/// What follows the status line of a response: its headers and its body.
pub open spec fn after_status_line(response: Seq<char>) -> Seq<char> {
    match first_index(response, '\n') {
        Some(i) => response.skip(i + 1),
        None => Seq::empty(),
    }
}

/// The place that a response sends the client to: the value of its
/// `Location` header. The status line is no header.
pub open spec fn location_of(response: Seq<char>) -> Option<Seq<char>> {
    header_value(after_status_line(response), "Location"@)
}

/// The place that a redirect names.
pub open spec fn redirect_target(ex: ExchangeView, response: Seq<char>) -> ExchangeView {
    let location = location_of(response)->0;
    ExchangeView { host: url_host(location), path: url_path(location), hops: ex.hops + 1 }
}

/// The response sends the client elsewhere, and the fetch may still follow.
pub open spec fn redirects(ex: ExchangeView, response: Seq<char>) -> bool {
    &&& is_redirect(status_line(response))
    &&& location_of(response) is Some
    &&& ex.hops < MAX_REDIRECTS
}

/// The response delivers a page.
pub open spec fn delivers(ex: ExchangeView, response: Seq<char>) -> bool {
    &&& !redirects(ex, response)
    &&& is_success(status_line(response))
    &&& body_of(response) is Some
}

/// Where an exchange stands once the response is there as text.
///
/// A redirect with a `Location` header is followed at the place that the
/// header names, unless the fetch has followed `MAX_REDIRECTS` already. Any
/// other response must be a success, or the fetch fails with its status line;
/// and a success must have a body.
pub open spec fn after_response(ex: ExchangeView, response: Seq<char>) -> ProgressView {
    if redirects(ex, response) {
        ProgressView::Follow(redirect_target(ex, response))
    } else if !is_success(status_line(response)) {
        ProgressView::Failed(FetchErrorView::HttpStatus { line: status_line(response) })
    } else {
        match body_of(response) {
            Some(body) => ProgressView::Done(
                FetchedView { url: resolved_url(ex.host, ex.path), body },
            ),
            None => ProgressView::Failed(FetchErrorView::MalformedResponse),
        }
    }
}

/// Where an exchange stands after a reply of the transport.
pub open spec fn after_reply(ex: ExchangeView, reply: Reply) -> ProgressView {
    match reply {
        Reply::ConnectionFailed => ProgressView::Failed(
            FetchErrorView::ConnectionFailed { host: ex.host },
        ),
        Reply::TlsFailed => ProgressView::Failed(FetchErrorView::TlsFailed),
        Reply::Received(bytes) => after_response(ex, lossy_text(bytes@)),
    }
}

/// Begins the fetch of `path` at `host`: the first exchange, with no redirect
/// behind it.
pub fn http_get(host: &str, path: &str) -> (ex: Exchange)
    ensures
        ex@ == (ExchangeView { host: host@, path: path@, hops: 0 }),
{
    Exchange { host: host.to_owned(), path: path.to_owned(), hops: 0 }
}

impl Exchange {
    /// The request to send to `self.host`.
    pub fn request(&self) -> (r: String)
        ensures
            r@ == request_text(self.host@, self.path@),
    {
        build_request(self.host.as_str(), self.path.as_str())
    }

    /// The address that this exchange asks for.
    pub fn url(&self) -> (r: String)
        ensures
            r@ == resolved_url(self.host@, self.path@),
    {
        let mut r = "https://".to_owned();
        r.append(self.host.as_str());
        r.append(self.path.as_str());
        r
    }

    /// Decides how the fetch goes on once the response is there as text.
    pub fn on_response(self, response: &str) -> (r: Progress)
        ensures
            r@ == after_response(self@, response@),
            r matches Progress::Follow(next) ==> next.hops == self.hops + 1 && next.hops
                <= MAX_REDIRECTS,
    {
        let text = chars_of(response);
        let line = first_line_of(text.as_slice());
        if announces_redirect(line) && self.hops < MAX_REDIRECTS {
            let name = chars_of("Location");
            let rest: &[char] = match position_of(text.as_slice(), '\n') {
                Some(i) => {
                    assert(i < text.len());
                    slice_subrange(text.as_slice(), i + 1, text.len())
                },
                None => slice_subrange(text.as_slice(), 0, 0),
            };
            assert(rest@ =~= after_status_line(response@));
            match header_of(rest, name.as_slice()) {
                Some(location) => {
                    let target = string_of(location.as_slice());
                    let (host, path) = parse_url(target.as_str());
                    return Progress::Follow(Exchange { host, path, hops: self.hops + 1 });
                },
                None => {},
            }
        }
        if !announces_success(line) {
            return Progress::Failed(FetchError::HttpStatus { line: string_of(line) });
        }
        match body_after(text.as_slice()) {
            Some(body) => {
                let url = self.url();
                Progress::Done(Fetched { url, body: string_of(body) })
            },
            None => Progress::Failed(FetchError::MalformedResponse),
        }
    }

    /// Decides how the fetch goes on after a reply of the transport. The bytes
    /// of a response are read as text first, with a replacement character for
    /// whatever in them is no UTF-8.
    pub fn on_reply(self, reply: Reply) -> (r: Progress)
        ensures
            r@ == after_reply(self@, reply),
            r matches Progress::Follow(next) ==> next.hops == self.hops + 1 && next.hops
                <= MAX_REDIRECTS,
    {
        match reply {
            Reply::ConnectionFailed => Progress::Failed(
                FetchError::ConnectionFailed { host: self.host },
            ),
            Reply::TlsFailed => Progress::Failed(FetchError::TlsFailed),
            Reply::Received(bytes) => {
                let text = decode_lossy(bytes.as_slice());
                self.on_response(text.as_str())
            },
        }
    }
}

// ---------------------------------------------------------------------------
// Laws
// ---------------------------------------------------------------------------

/// Where a fetch stands after the responses to its requests, taken one after
/// the other: each redirect that is followed makes the next response answer
/// the request at the new place. A fetch that still waits for a response
/// stands at `Follow`.
pub open spec fn fetch_outcome(ex: ExchangeView, responses: Seq<Seq<char>>) -> ProgressView
    decreases responses.len(),
{
    if responses.len() == 0 {
        ProgressView::Follow(ex)
    } else {
        match after_response(ex, responses.first()) {
            ProgressView::Follow(next) => fetch_outcome(next, responses.drop_first()),
            ended => ended,
        }
    }
}

/// A redirect is followed at the place that its `Location` header names.
pub proof fn lemma_redirect_is_followed(ex: ExchangeView, response: Seq<char>)
    requires
        redirects(ex, response),
    ensures
        after_response(ex, response) == ProgressView::Follow(redirect_target(ex, response)),
{
}

/// A success that is no redirect ends the fetch with its body, found at the
/// place that was asked.
pub proof fn lemma_success_is_delivered(ex: ExchangeView, response: Seq<char>)
    requires
        delivers(ex, response),
    ensures
        after_response(ex, response) == ProgressView::Done(
            FetchedView { url: resolved_url(ex.host, ex.path), body: body_of(response)->0 },
        ),
{
}

/// A redirect followed by a success gives the body of the second response,
/// and as its address the place that the redirect named.
pub proof fn lemma_redirect_then_success(ex: ExchangeView, first: Seq<char>, second: Seq<char>)
    requires
        redirects(ex, first),
        delivers(redirect_target(ex, first), second),
    ensures
        fetch_outcome(ex, seq![first, second]) == ProgressView::Done(
            FetchedView {
                url: resolved_url(
                    redirect_target(ex, first).host,
                    redirect_target(ex, first).path,
                ),
                body: body_of(second)->0,
            },
        ),
{
    let responses = seq![first, second];
    let next = redirect_target(ex, first);
    assert(responses.drop_first() =~= seq![second]);
    assert(fetch_outcome(next, seq![second]) == after_response(next, second)) by {
        reveal_with_fuel(fetch_outcome, 2);
    }
}

/// No fetch follows more than `MAX_REDIRECTS` redirects: after one response
/// more than it has redirects left, it has ended.
pub proof fn lemma_fetch_ends(ex: ExchangeView, responses: Seq<Seq<char>>)
    requires
        ex.hops <= MAX_REDIRECTS,
        responses.len() > MAX_REDIRECTS - ex.hops,
    ensures
        !(fetch_outcome(ex, responses) is Follow),
    decreases responses.len(),
{
    match after_response(ex, responses.first()) {
        ProgressView::Follow(next) => {
            lemma_fetch_ends(next, responses.drop_first());
        },
        _ => {},
    }
}

} // verus!
