//! Listing extraction for the lodging site: per-container field queries with
//! fallback chains, assembled into typed records. A page's containers are
//! extracted independently and in document order; a missing required field
//! fails its whole record, while an absent rating badge falls back to a
//! sentinel value.

use vstd::prelude::*;
use vstd::string::*;
use crate::ListingField;
use crate::ScrapeError;

verus! {

/// What the per-field queries returned for one listing container. A `None`
/// means the query (and its fallback, where the chain is folded into one
/// value) found nothing. The host field keeps its two-step chain: the nested
/// query is tried first, the plain one second.
pub struct ListingFields {
    pub title: Option<String>,
    pub description: Option<String>,
    pub host_nested: Option<String>,
    pub host_plain: Option<String>,
    pub availability: Option<String>,
    pub price: Option<String>,
    pub rating: Option<String>,
}

/// One extracted listing, immutable once built, written once to the sink.
#[derive(Debug)]
pub struct ListingRecord {
    pub title: String,
    pub description: String,
    pub host: String,
    pub availability: String,
    pub price: String,
    pub rating: String,
}

/// The mathematical content of a record: its six fields as character
/// sequences.
pub ghost struct RecordSnapshot {
    pub title: Seq<char>,
    pub description: Seq<char>,
    pub host: Seq<char>,
    pub availability: Seq<char>,
    pub price: Seq<char>,
    pub rating: Seq<char>,
}

impl View for ListingRecord {
    type V = RecordSnapshot;

    open spec fn view(&self) -> RecordSnapshot {
        RecordSnapshot {
            title: self.title@,
            description: self.description@,
            host: self.host@,
            availability: self.availability@,
            price: self.price@,
            rating: self.rating@,
        }
    }
}

/// The sentinel text standing in for an absent rating badge.
pub open spec fn rating_sentinel() -> Seq<char> {
    "No ratings available"@
}

/// Whether every required field of a container is present. The rating is not
/// required: its absence has a defined fallback.
pub open spec fn required_ok(f: ListingFields) -> bool {
    &&& f.title is Some
    &&& f.description is Some
    &&& f.host_nested is Some || f.host_plain is Some
    &&& f.availability is Some
    &&& f.price is Some
}

/// The first required field missing from a container, in query order.
pub open spec fn first_missing(f: ListingFields) -> ListingField {
    if f.title is None {
        ListingField::Title
    } else if f.description is None {
        ListingField::Description
    } else if f.host_nested is None && f.host_plain is None {
        ListingField::Host
    } else if f.availability is None {
        ListingField::Availability
    } else {
        ListingField::Price
    }
}

/// The host text: the nested query's result where it found something, the
/// plain query's result otherwise.
pub open spec fn spec_host(f: ListingFields) -> Seq<char> {
    if f.host_nested is Some {
        f.host_nested.unwrap()@
    } else {
        f.host_plain.unwrap()@
    }
}

/// The rating text: the badge where present, the sentinel otherwise.
pub open spec fn spec_rating(f: ListingFields) -> Seq<char> {
    if f.rating is Some {
        f.rating.unwrap()@
    } else {
        rating_sentinel()
    }
}

/// The record a well-formed container extracts to.
pub open spec fn spec_record(f: ListingFields) -> RecordSnapshot {
    RecordSnapshot {
        title: f.title.unwrap()@,
        description: f.description.unwrap()@,
        host: spec_host(f),
        availability: f.availability.unwrap()@,
        price: f.price.unwrap()@,
        rating: spec_rating(f),
    }
}

/// An ordered two-step fallback chain: the primary result where it found
/// something, the fallback otherwise.
pub fn resolve_fallback(primary: Option<String>, fallback: Option<String>) -> (r: Option<String>)
    ensures
        primary is Some ==> r == primary,
        primary is None ==> r == fallback,
{
    match primary {
        Some(v) => Some(v),
        None => fallback,
    }
}

/// Builds one record from one container's field results. Success exactly
/// when every required field is present; the error names the first missing
/// field in query order.
pub fn build_record(f: ListingFields) -> (r: Result<ListingRecord, ScrapeError>)
    ensures
        match r {
            Ok(rec) => required_ok(f) && rec@ == spec_record(f),
            Err(e) => !required_ok(f) && e == ScrapeError::MissingField(first_missing(f)),
        },
{
    let ListingFields { title, description, host_nested, host_plain, availability, price, rating } =
        f;
    let title = match title {
        Some(t) => t,
        None => {
            return Err(ScrapeError::MissingField(ListingField::Title));
        },
    };
    let description = match description {
        Some(d) => d,
        None => {
            return Err(ScrapeError::MissingField(ListingField::Description));
        },
    };
    let host = match resolve_fallback(host_nested, host_plain) {
        Some(h) => h,
        None => {
            return Err(ScrapeError::MissingField(ListingField::Host));
        },
    };
    let availability = match availability {
        Some(a) => a,
        None => {
            return Err(ScrapeError::MissingField(ListingField::Availability));
        },
    };
    let price = match price {
        Some(p) => p,
        None => {
            return Err(ScrapeError::MissingField(ListingField::Price));
        },
    };
    let rating = match rating {
        Some(s) => s,
        None => String::from_str("No ratings available"),
    };
    Ok(ListingRecord { title, description, host, availability, price, rating })
}

/// Whether every container on a page has its required fields.
pub open spec fn all_ok(cs: Seq<ListingFields>) -> bool {
    forall|k: int| 0 <= k < cs.len() ==> required_ok(cs[k])
}

/// The index of the first container missing a required field.
pub open spec fn first_bad(cs: Seq<ListingFields>) -> int
    decreases cs.len(),
{
    if cs.len() == 0 {
        0
    } else if !required_ok(cs[0]) {
        0
    } else {
        1 + first_bad(cs.skip(1))
    }
}

/// The error a page with a bad container extracts to.
pub open spec fn page_error(cs: Seq<ListingFields>) -> ScrapeError {
    ScrapeError::MissingField(first_missing(cs[first_bad(cs)]))
}

/// The records a page of well-formed containers extracts to, in document
/// order.
pub open spec fn spec_extract(cs: Seq<ListingFields>) -> Seq<RecordSnapshot> {
    cs.map_values(|f: ListingFields| spec_record(f))
}

proof fn lemma_first_bad_at(cs: Seq<ListingFields>, i: int)
    requires
        0 <= i < cs.len(),
        forall|j: int| 0 <= j < i ==> required_ok(cs[j]),
        !required_ok(cs[i]),
    ensures
        first_bad(cs) == i,
    decreases i,
{
    if i > 0 {
        lemma_first_bad_at(cs.skip(1), i - 1);
    }
}

/// An owned copy of one container's field results.
fn clone_opt(o: &Option<String>) -> (r: Option<String>)
    ensures
        r == *o,
{
    match o {
        Some(s) => Some(s.clone()),
        None => None,
    }
}

/// Extracts every container of one page, in document order. Succeeds exactly
/// when every container has its required fields, with one record per
/// container; otherwise fails with the first bad container's error, leaving
/// no partial output.
pub fn extract_page(containers: &Vec<ListingFields>) -> (r: Result<
    Vec<ListingRecord>,
    ScrapeError,
>)
    ensures
        match r {
            Ok(recs) => {
                &&& all_ok(containers@)
                &&& recs@.map_values(|rec: ListingRecord| rec@) == spec_extract(containers@)
            },
            Err(e) => !all_ok(containers@) && e == page_error(containers@),
        },
{
    let mut recs: Vec<ListingRecord> = Vec::new();
    let mut i: usize = 0;
    while i < containers.len()
        invariant
            0 <= i <= containers@.len(),
            recs@.len() == i,
            forall|k: int| 0 <= k < i ==> required_ok(containers@[k]),
            forall|k: int| 0 <= k < i ==> recs@[k]@ == spec_record(containers@[k]),
        decreases containers@.len() - i,
    {
        let c = &containers[i];
        let f = ListingFields {
            title: clone_opt(&c.title),
            description: clone_opt(&c.description),
            host_nested: clone_opt(&c.host_nested),
            host_plain: clone_opt(&c.host_plain),
            availability: clone_opt(&c.availability),
            price: clone_opt(&c.price),
            rating: clone_opt(&c.rating),
        };
        proof {
            assert(f == containers@[i as int]);
        }
        match build_record(f) {
            Ok(rec) => {
                recs.push(rec);
                i += 1;
            },
            Err(e) => {
                proof {
                    lemma_first_bad_at(containers@, i as int);
                }
                return Err(e);
            },
        }
    }
    proof {
        assert(recs@.map_values(|rec: ListingRecord| rec@) =~= spec_extract(containers@));
    }
    Ok(recs)
}

/// Extraction is deterministic: any two outputs that meet `extract_page`'s
/// contract on the same unchanged page agree on every character of every
/// record, so re-running extraction yields byte-identical records.
pub proof fn lemma_extract_deterministic(
    cs: Seq<ListingFields>,
    r1: Seq<RecordSnapshot>,
    r2: Seq<RecordSnapshot>,
)
    requires
        r1 == spec_extract(cs),
        r2 == spec_extract(cs),
    ensures
        r1 == r2,
{
}

} // verus!
