use scraper::ListingField;
use scraper::ScrapeError;
use scraper::listing::{ListingFields, build_record, extract_page, resolve_fallback};
use scraper::pager::{NextControl, PageObservation, PagerState, pager_step, run_pagination};

fn full_fields(tag: &str) -> ListingFields {
    ListingFields {
        title: Some(format!("title-{}", tag)),
        description: Some(format!("desc-{}", tag)),
        host_nested: Some(format!("host-{}", tag)),
        host_plain: None,
        availability: Some(format!("avail-{}", tag)),
        price: Some(format!("price-{}", tag)),
        rating: Some(format!("stars-{}", tag)),
    }
}

#[test]
fn build_record_keeps_every_field() {
    let rec = build_record(full_fields("a")).unwrap();
    assert_eq!(rec.title, "title-a");
    assert_eq!(rec.description, "desc-a");
    assert_eq!(rec.host, "host-a");
    assert_eq!(rec.availability, "avail-a");
    assert_eq!(rec.price, "price-a");
    assert_eq!(rec.rating, "stars-a");
}

#[test]
fn absent_rating_yields_sentinel() {
    let mut f = full_fields("a");
    f.rating = None;
    let rec = build_record(f).unwrap();
    assert_eq!(rec.rating, "No ratings available");
}

#[test]
fn host_fallback_prefers_nested_then_plain() {
    let mut f = full_fields("a");
    f.host_nested = None;
    f.host_plain = Some(String::from("plain-host"));
    let rec = build_record(f).unwrap();
    assert_eq!(rec.host, "plain-host");

    let mut g = full_fields("b");
    g.host_plain = Some(String::from("plain-host"));
    let rec = build_record(g).unwrap();
    assert_eq!(rec.host, "host-b");
}

#[test]
fn resolve_fallback_takes_first_hit() {
    assert_eq!(
        resolve_fallback(Some(String::from("x")), Some(String::from("y"))),
        Some(String::from("x"))
    );
    assert_eq!(resolve_fallback(None, Some(String::from("y"))), Some(String::from("y")));
    assert_eq!(resolve_fallback(None, None), None);
}

#[test]
fn missing_required_field_fails_record() {
    let mut f = full_fields("a");
    f.title = None;
    assert_eq!(build_record(f).unwrap_err(), ScrapeError::MissingField(ListingField::Title));

    let mut f = full_fields("a");
    f.description = None;
    assert_eq!(build_record(f).unwrap_err(), ScrapeError::MissingField(ListingField::Description));

    let mut f = full_fields("a");
    f.host_nested = None;
    assert_eq!(build_record(f).unwrap_err(), ScrapeError::MissingField(ListingField::Host));

    let mut f = full_fields("a");
    f.availability = None;
    assert_eq!(build_record(f).unwrap_err(), ScrapeError::MissingField(ListingField::Availability));

    let mut f = full_fields("a");
    f.price = None;
    assert_eq!(build_record(f).unwrap_err(), ScrapeError::MissingField(ListingField::Price));
}

#[test]
fn extract_page_returns_one_record_per_container_in_order() {
    let containers = vec![full_fields("a"), full_fields("b"), full_fields("c")];
    let recs = extract_page(&containers).unwrap();
    assert_eq!(recs.len(), 3);
    assert_eq!(recs[0].title, "title-a");
    assert_eq!(recs[1].title, "title-b");
    assert_eq!(recs[2].title, "title-c");
}

#[test]
fn extract_page_fails_on_first_bad_container() {
    let mut bad = full_fields("b");
    bad.price = None;
    let containers = vec![full_fields("a"), bad, full_fields("c")];
    assert_eq!(
        extract_page(&containers).unwrap_err(),
        ScrapeError::MissingField(ListingField::Price)
    );
}

#[test]
fn extraction_is_idempotent_on_unchanged_page() {
    let containers = vec![full_fields("a"), full_fields("b")];
    let once = extract_page(&containers).unwrap();
    let twice = extract_page(&containers).unwrap();
    assert_eq!(once.len(), twice.len());
    for (r1, r2) in once.iter().zip(twice.iter()) {
        assert_eq!(r1.title, r2.title);
        assert_eq!(r1.description, r2.description);
        assert_eq!(r1.host, r2.host);
        assert_eq!(r1.availability, r2.availability);
        assert_eq!(r1.price, r2.price);
        assert_eq!(r1.rating, r2.rating);
    }
}

#[test]
fn pager_step_advances_only_on_interactive() {
    assert_eq!(pager_step(NextControl::Interactive), PagerState::MorePages);
    assert_eq!(pager_step(NextControl::Disabled), PagerState::Done);
    assert_eq!(pager_step(NextControl::Absent), PagerState::Done);
}

#[test]
fn pagination_visits_every_page_once_in_order() {
    let pages = vec![
        PageObservation { listings: vec![full_fields("p1")], next: NextControl::Interactive },
        PageObservation { listings: vec![full_fields("p2")], next: NextControl::Interactive },
        PageObservation { listings: vec![full_fields("p3")], next: NextControl::Disabled },
    ];
    let recs = run_pagination(&pages).unwrap();
    assert_eq!(recs.len(), 3);
    assert_eq!(recs[0].title, "title-p1");
    assert_eq!(recs[1].title, "title-p2");
    assert_eq!(recs[2].title, "title-p3");
}

#[test]
fn pagination_single_page_without_control_extracts_once() {
    let pages = vec![
        PageObservation { listings: vec![full_fields("only")], next: NextControl::Absent },
    ];
    let recs = run_pagination(&pages).unwrap();
    assert_eq!(recs.len(), 1);
    assert_eq!(recs[0].title, "title-only");
}

#[test]
fn pagination_fails_when_promised_page_never_arrives() {
    let pages: Vec<PageObservation> = vec![];
    assert_eq!(run_pagination(&pages).unwrap_err(), ScrapeError::PageUnavailable);

    let pages = vec![
        PageObservation { listings: vec![full_fields("p1")], next: NextControl::Interactive },
    ];
    assert_eq!(run_pagination(&pages).unwrap_err(), ScrapeError::PageUnavailable);
}

#[test]
fn pagination_propagates_a_bad_listing() {
    let mut bad = full_fields("p2");
    bad.host_nested = None;
    bad.host_plain = None;
    let pages = vec![
        PageObservation { listings: vec![full_fields("p1")], next: NextControl::Interactive },
        PageObservation { listings: vec![bad], next: NextControl::Disabled },
    ];
    assert_eq!(
        run_pagination(&pages).unwrap_err(),
        ScrapeError::MissingField(ListingField::Host)
    );
}
