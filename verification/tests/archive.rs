use scraper::ScrapeError;
use scraper::download::{ChunkEvent, run_transfer, start_download, record_chunk};
use scraper::links::{append_to_base_url, generate_url, resolve_challenge_link};
use scraper::meta::{
    BookElement, BookInfo, get_books_info, output_filename, parse_document_meta, select_candidate,
};
use scraper::session::{SessionContext, bypass_challenge, resolve_direct_link};
use scraper::text::{join_trimmed, split_text, trim_text};

#[test]
fn metadata_parse_repairs_comma_in_filename() {
    let meta = parse_document_meta("English [US], PDF, 4.2MB, My Book, Part Two");
    assert_eq!(meta.extension, "PDF");
    assert_eq!(meta.filename, "My Book, Part Two");
}

#[test]
fn metadata_parse_two_fields_falls_back_to_placeholder_name() {
    let meta = parse_document_meta("English [US], PDF");
    assert_eq!(meta.extension, "PDF");
    assert_eq!(meta.filename, "");
}

#[test]
fn metadata_parse_empty_and_long_inputs() {
    let meta = parse_document_meta("");
    assert_eq!(meta.extension, "");
    assert_eq!(meta.filename, "");

    let meta = parse_document_meta("lang, epub , 1MB , One , Two , Three");
    assert_eq!(meta.extension, "epub");
    assert_eq!(meta.filename, "One, Two, Three");
}

#[test]
fn text_helpers_split_trim_join() {
    let parts = split_text("a, b,c", ',');
    assert_eq!(parts, vec!["a", " b", "c"]);
    assert_eq!(split_text("plain", ','), vec!["plain"]);
    assert_eq!(split_text("x,", ','), vec!["x", ""]);
    assert_eq!(trim_text("  padded \t"), "padded");
    assert_eq!(trim_text("   "), "");
    assert_eq!(trim_text("\u{A0}padded\u{A0}"), "padded");
    let parts = vec![String::from(" a "), String::from(" b ")];
    assert_eq!(join_trimmed(&parts, 0, ", "), "a, b");
    assert_eq!(join_trimmed(&parts, 2, ", "), "");
}

#[test]
fn search_address_carries_query() {
    assert_eq!(
        generate_url("dune"),
        "https://annas-archive.org/search?q=dune"
    );
}

#[test]
fn relative_locator_is_made_absolute() {
    assert_eq!(
        append_to_base_url("/md5/abc123"),
        "https://annas-archive.org/md5/abc123"
    );
    assert_eq!(
        resolve_challenge_link(Some(String::from("/md5/abc123"))).unwrap(),
        "https://annas-archive.org/md5/abc123"
    );
    assert_eq!(
        resolve_challenge_link(None).unwrap_err(),
        ScrapeError::LinkAttributeAbsent
    );
}

#[test]
fn books_are_mapped_in_order_with_parsed_extension() {
    let books = vec![
        BookElement {
            info: String::from("English, PDF, 2MB, First Book"),
            href: Some(String::from("/md5/one")),
        },
        BookElement {
            info: String::from("German, EPUB, 1MB, Second, Book"),
            href: Some(String::from("/md5/two")),
        },
    ];
    let infos = get_books_info(&books).unwrap();
    assert_eq!(infos.len(), 2);
    assert_eq!(infos[0].name, "First Book");
    assert_eq!(infos[0].extension, "PDF");
    assert_eq!(infos[0].download_link, "https://annas-archive.org/md5/one");
    assert_eq!(infos[1].name, "Second, Book");
    assert_eq!(infos[1].extension, "EPUB");
    assert_eq!(infos[1].download_link, "https://annas-archive.org/md5/two");
}

#[test]
fn book_without_locator_fails_the_pass() {
    let books = vec![BookElement {
        info: String::from("English, PDF"),
        href: None,
    }];
    assert_eq!(get_books_info(&books).unwrap_err(), ScrapeError::LinkAttributeAbsent);
}

#[test]
fn book_info_new_keeps_parts() {
    let b = BookInfo::new(
        String::from("n"),
        String::from("pdf"),
        String::from("https://annas-archive.org/md5/x"),
    );
    assert_eq!(b.name, "n");
    assert_eq!(b.extension, "pdf");
    assert_eq!(b.download_link, "https://annas-archive.org/md5/x");
}

#[test]
fn first_candidate_is_selected() {
    let books = vec![
        BookInfo::new(String::from("a"), String::from("pdf"), String::from("l1")),
        BookInfo::new(String::from("b"), String::from("epub"), String::from("l2")),
    ];
    let chosen = select_candidate(&books).unwrap();
    assert_eq!(chosen.name, "a");
    assert!(select_candidate(&Vec::new()).is_none());
}

#[test]
fn output_filename_joins_name_and_extension() {
    assert_eq!(output_filename("book", "pdf"), "book.pdf");
}

#[test]
fn bypass_window_protocol_counts() {
    // A mock driver with deterministic window identifiers: one open window.
    let mut ctx = SessionContext::new(10);
    assert_eq!(ctx.windows.len(), 1);

    // Opening the candidate tab makes two windows.
    ctx.open_tab(20);
    assert_eq!(ctx.windows.len(), 2);

    // The full protocol: the originally-first window is closed, one window
    // remains, and the remaining (newly opened) window becomes active.
    let mut ctx = SessionContext::new(10);
    bypass_challenge(&mut ctx, 20, 1, true).unwrap();
    assert_eq!(ctx.windows.len(), 1);
    assert_eq!(ctx.windows[0], 20);
    assert_eq!(ctx.active, Some(20));
    assert_eq!(ctx.frame_depth, 1);
}

#[test]
fn bypass_fails_step_by_step() {
    let mut ctx = SessionContext { windows: Vec::new(), active: None, frame_depth: 0 };
    assert_eq!(bypass_challenge(&mut ctx, 20, 1, true).unwrap_err(), ScrapeError::WindowMissing);

    let mut ctx = SessionContext::new(10);
    assert_eq!(bypass_challenge(&mut ctx, 20, 0, true).unwrap_err(), ScrapeError::FrameMissing);

    let mut ctx = SessionContext::new(10);
    assert_eq!(
        bypass_challenge(&mut ctx, 20, 1, false).unwrap_err(),
        ScrapeError::ControlNotInteractive
    );
}

#[test]
fn direct_link_resolution_switches_to_last_window() {
    let mut ctx = SessionContext::new(10);
    ctx.open_tab(20);
    let link = resolve_direct_link(&mut ctx, Some(String::from("https://example.com/file")));
    assert_eq!(link.unwrap(), "https://example.com/file");
    assert_eq!(ctx.active, Some(20));

    let mut ctx = SessionContext::new(10);
    assert_eq!(
        resolve_direct_link(&mut ctx, None).unwrap_err(),
        ScrapeError::LinkAttributeAbsent
    );

    let mut ctx = SessionContext { windows: Vec::new(), active: None, frame_depth: 0 };
    assert_eq!(
        resolve_direct_link(&mut ctx, Some(String::from("x"))).unwrap_err(),
        ScrapeError::WindowMissing
    );
}

#[test]
fn transfer_reports_are_monotone_and_complete() {
    let chunks = vec![
        ChunkEvent::Data(1000),
        ChunkEvent::Data(1000),
        ChunkEvent::Data(500),
    ];
    let (reports, outcome) = run_transfer(Some(2500), &chunks);
    outcome.unwrap();
    assert_eq!(reports, vec![1000u64, 2000, 2500]);
    for w in reports.windows(2) {
        assert!(w[0] <= w[1]);
    }
    assert_eq!(*reports.last().unwrap(), 2500);
}

#[test]
fn transfer_without_content_length_fails_before_any_byte() {
    let chunks = vec![ChunkEvent::Data(1000)];
    let (reports, outcome) = run_transfer(None, &chunks);
    assert!(reports.is_empty());
    assert_eq!(outcome.unwrap_err(), ScrapeError::MissingContentLength);
}

#[test]
fn transfer_stops_at_first_interruption() {
    let chunks = vec![
        ChunkEvent::Data(1000),
        ChunkEvent::Interrupted,
        ChunkEvent::Data(500),
    ];
    let (reports, outcome) = run_transfer(Some(2500), &chunks);
    assert_eq!(reports, vec![1000u64]);
    assert_eq!(outcome.unwrap_err(), ScrapeError::TransferInterrupted);
}

#[test]
fn progress_accounting_grows_by_each_chunk() {
    let mut p = start_download(Some(2500)).unwrap();
    assert_eq!(p.total, 2500);
    assert_eq!(p.received, 0);
    record_chunk(&mut p, 1000);
    assert_eq!(p.received, 1000);
    record_chunk(&mut p, 1500);
    assert_eq!(p.received, 2500);
    assert_eq!(start_download(None).unwrap_err(), ScrapeError::MissingContentLength);
}
