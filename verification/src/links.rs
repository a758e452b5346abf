//! Address resolution for the document archive: the search address for a
//! query, and absolute addresses for page-relative locators. The `url` crate
//! does the serialization; its results are named, and everything around the
//! calls is verified. On the constant base addresses the serializer is
//! total, so these functions owe success on every input below the length
//! ceiling.

use vstd::prelude::*;
use crate::ScrapeError;

verus! {

/// An input-length ceiling under which the address serializer cannot reach
/// its internal limit of 2^32 serialized bytes: one character expands to at
/// most twelve bytes (four UTF-8 bytes, each percent-encoded to three).
pub const MAX_LOCATOR_LEN: usize = 0x10000000;

/// The serialization of the archive search address carrying `book` as its
/// query text, as the `url` crate produces it (percent-encoding included).
pub uninterp spec fn search_url_chars(book: Seq<char>) -> Seq<char>;

/// The serialization of the archive base address with its path replaced by
/// `path`, as the `url` crate produces it (percent-encoding included).
pub uninterp spec fn archive_url_chars(path: Seq<char>) -> Seq<char>;

/// Relies on url::Url::parse, url::Url::set_query and the url crate's
/// String conversion: the parse of the constant base address always
/// succeeds, the query setter and the conversion are total below the
/// serializer's internal length limit, and the serialized address depends
/// on the query text alone.
#[verifier::external_body]
fn search_url_raw(book: &str) -> (r: String)
    requires
        book@.len() < MAX_LOCATOR_LEN,
    ensures
        r@ == search_url_chars(book@),
{
    let mut u = url::Url::parse("https://annas-archive.org/search")
        .expect("the constant base address parses");
    u.set_query(Some(&format!("q={}", book)));
    String::from(u)
}

/// Relies on url::Url::parse, url::Url::set_path and the url crate's String
/// conversion: the parse of the constant base address always succeeds, the
/// path setter and the conversion are total below the serializer's internal
/// length limit, and the serialized address depends on the path alone.
#[verifier::external_body]
fn archive_url_raw(path: &str) -> (r: String)
    requires
        path@.len() < MAX_LOCATOR_LEN,
    ensures
        r@ == archive_url_chars(path@),
{
    let mut u = url::Url::parse("https://annas-archive.org/")
        .expect("the constant base address parses");
    u.set_path(path);
    String::from(u)
}

/// The search address for one query text.
pub fn generate_url(book: &str) -> (r: String)
    requires
        book@.len() < MAX_LOCATOR_LEN,
    ensures
        r@ == search_url_chars(book@),
{
    search_url_raw(book)
}

/// A page-relative locator made absolute against the archive base address.
pub fn append_to_base_url(path: &str) -> (r: String)
    requires
        path@.len() < MAX_LOCATOR_LEN,
    ensures
        r@ == archive_url_chars(path@),
{
    archive_url_raw(path)
}

/// Resolves the challenge link read off a document page: absence of the
/// attribute is fatal, and a present locator is made absolute against the
/// archive base — success exactly when the attribute is present.
pub fn resolve_challenge_link(href: Option<String>) -> (r: Result<String, ScrapeError>)
    requires
        href matches Some(p) ==> p@.len() < MAX_LOCATOR_LEN,
    ensures
        r is Ok <==> href is Some,
        match r {
            Ok(u) => href matches Some(p) && u@ == archive_url_chars(p@),
            Err(e) => e == ScrapeError::LinkAttributeAbsent && href is None,
        },
{
    match href {
        Some(p) => Ok(append_to_base_url(p.as_str())),
        None => Err(ScrapeError::LinkAttributeAbsent),
    }
}

} // verus!
