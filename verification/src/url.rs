//! Addresses: splitting one into host and path, and encoding a query for use
//! inside one.

use crate::text::{
    begins_with, chars_of, first_index, is_first_index, lemma_first_index_exists, position_of,
    starts_with, string_of,
};
use vstd::prelude::*;
use vstd::slice::slice_subrange;
use vstd::utf8::encode_utf8;

verus! {

// ---------------------------------------------------------------------------
// Splitting
// ---------------------------------------------------------------------------

/// The address without a leading `https://` or `http://`. Only these two
/// prefixes, written exactly so, count as a scheme.
pub open spec fn strip_scheme(url: Seq<char>) -> Seq<char> {
    if starts_with(url, "https://"@) {
        url.skip("https://"@.len() as int)
    } else if starts_with(url, "http://"@) {
        url.skip("http://"@.len() as int)
    } else {
        url
    }
}

/// The host of an address: what stands before the first `/` behind the scheme.
pub open spec fn url_host(url: Seq<char>) -> Seq<char> {
    let rest = strip_scheme(url);
    match first_index(rest, '/') {
        Some(i) => rest.take(i),
        None => rest,
    }
}

/// The path of an address: everything from the first `/` behind the scheme,
/// and `/` where there is none.
pub open spec fn url_path(url: Seq<char>) -> Seq<char> {
    let rest = strip_scheme(url);
    match first_index(rest, '/') {
        Some(i) => rest.skip(i),
        None => "/"@,
    }
}

/// Splits an address into host and path. Every text is accepted: one without
/// scheme and without `/` is a host with the path `/`.
pub fn parse_url(url: &str) -> (r: (String, String))
    ensures
        r.0@ == url_host(url@),
        r.1@ == url_path(url@),
        !r.0@.contains('/'),
        first_index(strip_scheme(url@), '/') is Some ==> r.0@ + r.1@ == strip_scheme(url@),
        first_index(strip_scheme(url@), '/') is None ==> r.0@ == strip_scheme(url@) && r.1@
            == "/"@,
{
    let all = chars_of(url);
    let secure = chars_of("https://");
    let plain = chars_of("http://");
    let rest: &[char] = if begins_with(all.as_slice(), secure.as_slice()) {
        slice_subrange(all.as_slice(), secure.len(), all.len())
    } else if begins_with(all.as_slice(), plain.as_slice()) {
        slice_subrange(all.as_slice(), plain.len(), all.len())
    } else {
        all.as_slice()
    };
    match position_of(rest, '/') {
        Some(i) => {
            let host = string_of(slice_subrange(rest, 0, i));
            let path = string_of(slice_subrange(rest, i, rest.len()));
            (host, path)
        },
        None => (string_of(rest), "/".to_owned()),
    }
}

// ---------------------------------------------------------------------------
// Encoding
// ---------------------------------------------------------------------------

/// The bytes that stand for themselves in an encoded query: the letters and
/// digits of ASCII and `-`, `_`, `.`, `~`.
pub open spec fn is_unreserved(b: u8) -> bool {
    ||| 0x30 <= b <= 0x39
    ||| 0x41 <= b <= 0x5A
    ||| 0x61 <= b <= 0x7A
    ||| b == 0x2D
    ||| b == 0x5F
    ||| b == 0x2E
    ||| b == 0x7E
}

/// The upper-case hexadecimal digit of a number below sixteen.
pub open spec fn hex_digit(n: u8) -> char {
    if n < 10 {
        ((0x30 + n) as u8) as char
    } else {
        ((0x37 + n) as u8) as char
    }
}

/// One byte of a query, encoded: itself where it is unreserved, `_` for a
/// space, and `%` with its two hexadecimal digits otherwise.
pub open spec fn encode_byte(b: u8) -> Seq<char> {
    if is_unreserved(b) {
        seq![b as char]
    } else if b == 0x20 {
        seq!['_']
    } else {
        seq!['%', hex_digit(b / 16), hex_digit(b % 16)]
    }
}

/// The encodings of the bytes, one after the other.
pub open spec fn encode_bytes(bytes: Seq<u8>) -> Seq<char>
    decreases bytes.len(),
{
    if bytes.len() == 0 {
        Seq::empty()
    } else {
        encode_bytes(bytes.drop_last()) + encode_byte(bytes.last())
    }
}

/// A query encoded for an address: each byte of its UTF-8 form, encoded.
pub open spec fn url_encoded(s: Seq<char>) -> Seq<char> {
    encode_bytes(encode_utf8(s))
}

fn hex_char(n: u8) -> (c: char)
    requires
        n < 16,
    ensures
        c == hex_digit(n),
{
    if n < 10 {
        (0x30 + n) as char
    } else {
        (0x37 + n) as char
    }
}

fn unreserved(b: u8) -> (r: bool)
    ensures
        r == is_unreserved(b),
{
    (0x30 <= b && b <= 0x39) || (0x41 <= b && b <= 0x5A) || (0x61 <= b && b <= 0x7A) || b == 0x2D
        || b == 0x5F || b == 0x2E || b == 0x7E
}

/// Encodes a query for use in an address.
pub fn url_encode(s: &str) -> (r: String)
    ensures
        r@ == url_encoded(s@),
{
    let bytes = s.as_bytes();
    let mut out = String::new();
    let mut i: usize = 0;
    while i < bytes.len()
        invariant
            i <= bytes.len(),
            bytes@ == encode_utf8(s@),
            out@ == encode_bytes(bytes@.take(i as int)),
        decreases bytes.len() - i,
    {
        let b: u8 = bytes[i];
        proof {
            let next = bytes@.take(i + 1);
            assert(next.drop_last() =~= bytes@.take(i as int));
        }
        if unreserved(b) {
            out.push(b as char);
        } else if b == 0x20 {
            out.push('_');
        } else {
            out.push('%');
            out.push(hex_char(b / 16));
            out.push(hex_char(b % 16));
        }
        i += 1;
    }
    assert(bytes@.take(bytes.len() as int) =~= bytes@);
    out
}

// ---------------------------------------------------------------------------
// Laws
// ---------------------------------------------------------------------------

/// Every text splits: the host holds no `/`, the path begins with one, and
/// the two together are the address behind its scheme, unless that holds no
/// `/` at all: then it is the host, and the path is `/`.
pub proof fn lemma_every_url_splits(url: Seq<char>)
    ensures
        !url_host(url).contains('/'),
        url_path(url).len() > 0 && url_path(url)[0] == '/',
        first_index(strip_scheme(url), '/') is Some ==> url_host(url) + url_path(url)
            == strip_scheme(url),
        first_index(strip_scheme(url), '/') is None ==> url_host(url) == strip_scheme(url)
            && url_path(url) == "/"@,
{
    reveal_strlit("/");
    let rest = strip_scheme(url);
    if exists|i: int| is_first_index(rest, '/', i) {
        let i = choose|i: int| is_first_index(rest, '/', i);
        if rest.take(i).contains('/') {
            let j = choose|j: int| 0 <= j < rest.take(i).len() && rest.take(i)[j] == '/';
        }
    } else {
        if rest.contains('/') {
            let j = choose|j: int| 0 <= j < rest.len() && rest[j] == '/';
            lemma_first_index_exists(rest, '/', j);
        }
    }
}

} // verus!
