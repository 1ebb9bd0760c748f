use axonerai::tools::calculator::{factorial, Calculator};
use axonerai::tools::context7::{
    cap_docs, clamp_input, clamp_page, docs_url, format_search_results, i64_to_string, library_name_input,
    normalize_library_id, LibraryHit, MAX_DOCS_OUTPUT_CHARS,
};
use axonerai::tools::context7_mcp::{Context7McpGetLibraryDocs, Context7McpResolveLibraryId};
use axonerai::tools::file_reader::{
    binary_message, entry_line, format_listing, is_directory_message, lexical_rejection, looks_binary,
    path_starts_with, read_output, read_rejection_message, EntryKind, PathRejection, REJECT_ABSOLUTE,
};
use axonerai::tools::file_writer::{success_message, write_rejection_message};
use axonerai::tools::tavily::{api_url, clamp_max_results, format_extract, format_results, ExtractedPage, SearchHit};
use axonerai::tools::web_fetch::WebFetch;
use axonerai::tools::web_scraper::{page_text, scrape_blob};
use axonerai::tools::websearch::WebSearch;

#[test]
fn lexical_jail_rules() {
    assert_eq!(lexical_rejection("/etc/passwd"), Some(PathRejection::Absolute));
    assert_eq!(lexical_rejection("a/../b"), Some(PathRejection::ParentDir));
    assert_eq!(lexical_rejection(".."), Some(PathRejection::ParentDir));
    assert_eq!(lexical_rejection("a/..b/c"), None);
    assert_eq!(lexical_rejection("src/lib.rs"), None);
    assert_eq!(read_rejection_message(PathRejection::Absolute), REJECT_ABSOLUTE);
    assert!(write_rejection_message(PathRejection::ParentDir).contains("(..) is not allowed"));
}

#[test]
fn path_containment_is_by_component() {
    assert!(path_starts_with("/repo/src/lib.rs", "/repo"));
    assert!(path_starts_with("/repo", "/repo/"));
    assert!(!path_starts_with("/repository/x", "/repo"));
    assert!(!path_starts_with("/other", "/repo"));
}

#[test]
fn binary_sniffing_and_read_output() {
    assert!(looks_binary(b"ab\0cd"));
    assert!(!looks_binary(b"plain text"));
    let mut late_nul = vec![b'a'; 9000];
    late_nul[8500] = 0;
    assert!(!looks_binary(&late_nul));
    assert_eq!(read_output(b"hello", "f.txt"), "hello");
    assert_eq!(read_output(b"a\xffb", "f.txt"), "a\u{FFFD}b");
    assert_eq!(read_output(b"\0", "bin"), binary_message("bin"));
    let big = vec![b'x'; 204_801];
    let out = read_output(&big, "big.txt");
    assert!(out.ends_with("\n\n[TRUNCATED: showing the first 204800 of 204801 bytes of 'big.txt']"));
    assert!(out.starts_with(&"x".repeat(204_800)));
}

#[test]
fn listing_lines_are_sorted() {
    assert_eq!(entry_line("src", EntryKind::Dir, 4096), "src\tdir\t0");
    assert_eq!(entry_line("a.rs", EntryKind::File, 12), "a.rs\tfile\t12");
    assert_eq!(entry_line("l", EntryKind::Symlink, 3), "l\tsymlink\t3");
    let listing = format_listing(vec!["b\tfile\t1".into(), "a\tdir\t0".into()]);
    assert_eq!(listing, "a\tdir\t0\nb\tfile\t1");
    assert_eq!(is_directory_message("src"), "Error: 'src' is a directory, not a file; use ListDir to list it");
    assert_eq!(success_message(5, "out.txt"), "Successfully wrote 5 bytes to 'out.txt'");
}

#[test]
fn tavily_urls_and_clamps() {
    assert_eq!(api_url("https://api.tavily.com//", "/search"), "https://api.tavily.com/search");
    assert_eq!(clamp_max_results(None), 5);
    assert_eq!(clamp_max_results(Some(0)), 1);
    assert_eq!(clamp_max_results(Some(50)), 10);
    assert_eq!(WebSearch::new().with_base_url("http://h/").search_url(), "http://h/search");
    assert_eq!(WebFetch::new().with_base_url("http://h").extract_url(), "http://h/extract");
}

#[test]
fn tavily_results_are_numbered_blocks() {
    let hits = vec![
        SearchHit { title: "Rust".into(), url: "https://www.rust-lang.org".into(), content: "A language.".into() },
        SearchHit { title: "Go".into(), url: "https://go.dev".into(), content: "y".repeat(600) },
    ];
    let out = format_results(Some(&hits), "q").ok().expect("formats");
    assert!(out.starts_with("1. Rust\n   https://www.rust-lang.org\n   A language.\n2. Go\n   https://go.dev\n   "));
    assert!(out.ends_with(&"y".repeat(500)) && !out.ends_with(&"y".repeat(501)));
    assert_eq!(format_results(Some(&vec![]), "q").ok().as_deref(), Some("No results found for: q"));
    assert_eq!(format_results(None, "q").err().as_deref(), Some("Missing results in Tavily response"));
}

#[test]
fn tavily_extract_caps_and_lists_failures() {
    let pages = vec![
        ExtractedPage { url: "u1".into(), raw_content: "body".into() },
        ExtractedPage { url: "u2".into(), raw_content: "".into() },
    ];
    let out = format_extract(Some(&pages), &vec!["u3".into(), "u4".into()]).ok().expect("formats");
    assert_eq!(out, "== u1 ==\nbody\n== u2 ==\n(no content extracted)\n\nFailed to fetch: u3, u4");
    let long = vec![ExtractedPage { url: "u".into(), raw_content: "z".repeat(9000) }];
    let out = format_extract(Some(&long), &vec![]).ok().expect("formats");
    assert_eq!(out.chars().count(), 8000);
    assert!(out.ends_with("[… truncated]"));
}

#[test]
fn context7_inputs() {
    assert_eq!((clamp_page(0), clamp_page(7), clamp_page(1000)), (1, 7, 100));
    assert_eq!(clamp_input(&"k".repeat(600)).chars().count(), 512);
    assert_eq!(normalize_library_id("  //tokio-rs/tokio ").ok().as_deref(), Some("tokio-rs/tokio"));
    assert_eq!(normalize_library_id(" / ").err(), Some("context7_compatible_library_id must not be empty"));
    assert_eq!(library_name_input("tokio").ok().as_deref(), Some("tokio"));
    assert_eq!(library_name_input("   ").err(), Some("library_name must not be empty"));
    assert_eq!(docs_url("https://context7.com/", "tokio-rs/tokio"), "https://context7.com/api/v1/tokio-rs/tokio");
    assert_eq!(Context7McpResolveLibraryId::new().search_url(), "https://context7.com/api/v1/search");
    assert_eq!(Context7McpGetLibraryDocs::new().mcp_server(), Some("context7"));
}

#[test]
fn context7_docs_are_capped() {
    assert_eq!(cap_docs("short"), "short");
    let out = cap_docs(&"d".repeat(MAX_DOCS_OUTPUT_CHARS + 1));
    assert_eq!(out.chars().count(), MAX_DOCS_OUTPUT_CHARS);
    assert!(out.ends_with("[… truncated: docs payload exceeded the 100 KB cap]"));
}

fn hit(id: &str, tokens: i64, verified: bool) -> LibraryHit {
    LibraryHit {
        id: id.into(),
        title: "Tokio".into(),
        description: "Async runtime".into(),
        trust: "7.5".into(),
        benchmark: "77.98".into(),
        total_tokens: tokens,
        verified,
    }
}

#[test]
fn context7_search_results_show_the_first_five() {
    let out = format_search_results(Some(&vec![hit("/tokio-rs/tokio", 39354, false)]), "tokio").ok().expect("formats");
    assert_eq!(
        out,
        "1. Tokio (/tokio-rs/tokio)\n   trust 7.5, benchmark 77.98, tokens 39354, verified: false\n   Async runtime"
    );
    let many: Vec<LibraryHit> = (0..7).map(|i| hit(&format!("/l{i}"), -i, i % 2 == 0)).collect();
    let out = format_search_results(Some(&many), "x").ok().expect("formats");
    assert!(out.contains("5. Tokio (/l4)") && !out.contains("/l5"));
    assert!(out.contains("tokens -3, verified: false"));
    assert_eq!(
        format_search_results(Some(&vec![]), "zzz").ok().as_deref(),
        Some("No Context7 libraries found for: zzz")
    );
    assert_eq!(format_search_results(None, "x").err().as_deref(), Some("Missing results in Context7 response"));
    assert_eq!(i64_to_string(i64::MIN), "-9223372036854775808");
}

#[test]
fn scraped_pages_keep_only_text_blocks() {
    let html = "<html><head><title>T</title></head><body><div>skip</div><p>Hello <b>bold</b></p><h2>Sub</h2><li>no</li></body></html>";
    assert_eq!(page_text(html).as_deref(), Some("Hello <b>bold</b>Sub"));
    assert_eq!(page_text("no markup").as_deref(), Some(""));
    assert_eq!(
        scrape_blob(&vec!["A".into(), "B".into(), "C".into()], &vec!["a".into(), "b".into()]),
        "Title, WebpageContent\nA: a\nB: b"
    );
}

#[test]
fn factorials_up_to_twenty() {
    assert_eq!(factorial(0), 1);
    assert_eq!(factorial(5), 120);
    assert_eq!(factorial(20), 2_432_902_008_176_640_000);
    assert_eq!(Calculator.name(), "calculator");
}
