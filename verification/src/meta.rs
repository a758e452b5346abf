//! Document records for the archive site: parsing the comma-delimited
//! metadata line of a result into positional fields, and assembling the
//! typed record that the download pipeline consumes.

use vstd::prelude::*;
use vstd::string::*;
use crate::ScrapeError;
use crate::text::{spec_split, spec_trim, spec_join_trimmed, split_text, trim_text, join_trimmed};
use crate::links::{archive_url_chars, resolve_challenge_link, MAX_LOCATOR_LEN};

verus! {

/// The extension field of a metadata line: the second comma-delimited field,
/// trimmed; absent fields fall back to the empty placeholder.
pub open spec fn spec_extension(info: Seq<char>) -> Seq<char> {
    let parts = spec_split(info, ',');
    if parts.len() >= 2 {
        spec_trim(parts[1])
    } else {
        Seq::empty()
    }
}

/// The filename of a metadata line: the fourth field onward, re-joined,
/// because filenames may themselves contain commas; absent fields fall back
/// to the empty placeholder.
pub open spec fn spec_filename(info: Seq<char>) -> Seq<char> {
    let parts = spec_split(info, ',');
    if parts.len() >= 4 {
        spec_join_trimmed(parts.skip(3), ", "@)
    } else {
        Seq::empty()
    }
}

/// The positional fields read out of one metadata line. The language and
/// size fields are discarded: no consumer in scope needs them.
pub struct BookMeta {
    pub extension: String,
    pub filename: String,
}

/// Parses one comma-delimited metadata line into its positional fields.
pub fn parse_document_meta(info: &str) -> (r: BookMeta)
    ensures
        r.extension@ == spec_extension(info@),
        r.filename@ == spec_filename(info@),
{
    let parts = split_text(info, ',');
    let ghost mapped = parts@.map_values(|p: String| p@);
    let extension = if parts.len() >= 2 {
        proof {
            assert(mapped[1] == parts@[1]@);
        }
        trim_text(parts[1].as_str())
    } else {
        String::new()
    };
    let filename = if parts.len() >= 4 {
        join_trimmed(&parts, 3, ", ")
    } else {
        String::new()
    };
    BookMeta { extension, filename }
}

/// One result of the archive search: the text and attribute values that the
/// per-result queries returned.
pub struct BookElement {
    /// The comma-delimited metadata line of the result.
    pub info: String,
    /// The page-relative locator of the result, if the attribute was present.
    pub href: Option<String>,
}

/// One selected document: its name (the filename reassembled out of its
/// metadata line), its file extension, and the resolved absolute locator of
/// its page.
#[derive(Debug)]
pub struct BookInfo {
    pub name: String,
    pub extension: String,
    pub download_link: String,
}

impl BookInfo {
    /// Assembles a record from already-resolved parts.
    pub fn new(name: String, extension: String, download_link: String) -> (r: BookInfo)
        ensures
            r.name == name,
            r.extension == extension,
            r.download_link == download_link,
    {
        BookInfo { name, extension, download_link }
    }
}

/// What a well-formed record states of the element it came from: the name
/// and the extension both come out of the metadata line — the name is the
/// reassembled filename — and the link is the element's locator made
/// absolute.
pub open spec fn book_info_matches(b: BookElement, r: BookInfo) -> bool {
    &&& r.name@ == spec_filename(b.info@)
    &&& r.extension@ == spec_extension(b.info@)
    &&& b.href matches Some(p) && r.download_link@ == archive_url_chars(p@)
}

/// Maps every search result to a document record, in order: success exactly
/// when every result carries its locator attribute, and a result without it
/// fails the whole pass.
pub fn get_books_info(books: &Vec<BookElement>) -> (r: Result<Vec<BookInfo>, ScrapeError>)
    requires
        forall|k: int|
            #![auto]
            0 <= k < books@.len() ==> (books@[k].href is Some ==> books@[k].href.unwrap()@.len()
                < MAX_LOCATOR_LEN),
    ensures
        r is Ok <==> (forall|k: int| #![auto] 0 <= k < books@.len() ==> books@[k].href is Some),
        match r {
            Ok(v) => {
                &&& v@.len() == books@.len()
                &&& forall|k: int| 0 <= k < v@.len() ==> book_info_matches(books@[k], v@[k])
            },
            Err(e) => e == ScrapeError::LinkAttributeAbsent,
        },
{
    let mut out: Vec<BookInfo> = Vec::new();
    let mut i: usize = 0;
    while i < books.len()
        invariant
            0 <= i <= books@.len(),
            out@.len() == i,
            forall|k: int|
                #![auto]
                0 <= k < books@.len() ==> (books@[k].href is Some
                    ==> books@[k].href.unwrap()@.len() < MAX_LOCATOR_LEN),
            forall|k: int| 0 <= k < i ==> book_info_matches(books@[k], out@[k]),
            forall|k: int| #![auto] 0 <= k < i ==> books@[k].href is Some,
        decreases books@.len() - i,
    {
        let b = &books[i];
        let meta = parse_document_meta(b.info.as_str());
        let href: Option<String> = match &b.href {
            Some(p) => Some(p.clone()),
            None => None,
        };
        let link = match resolve_challenge_link(href) {
            Ok(u) => u,
            Err(e) => {
                proof {
                    assert(books@[i as int].href is None);
                }
                return Err(e);
            },
        };
        out.push(BookInfo::new(meta.filename, meta.extension, link));
        i += 1;
    }
    Ok(out)
}

/// The explicit select-first-candidate policy: of the records a search
/// produced, the first — in result order — is the one downloaded; no
/// ranking is applied. An empty result set selects nothing.
pub fn select_candidate(books: &Vec<BookInfo>) -> (r: Option<&BookInfo>)
    ensures
        match r {
            Some(b) => books@.len() > 0 && *b == books@[0],
            None => books@.len() == 0,
        },
{
    if books.len() == 0 {
        None
    } else {
        Some(&books[0])
    }
}

/// The name of the file a downloaded document is stored under:
/// the document's name, a dot, and its extension.
pub fn output_filename(name: &str, extension: &str) -> (r: String)
    ensures
        r@ == name@ + "."@ + extension@,
{
    let mut r = String::from_str(name);
    r.append(".");
    r.append(extension);
    r
}

} // verus!
