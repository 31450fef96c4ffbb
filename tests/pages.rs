use readable::assets::{route, same_text, Route, StaticAsset};
use readable::page::{failure_page, Failure, FetchError, Page};
use readable::pipeline::{article_page, begin, finish, index, retrieved_line, Start, Target};
use readable::template::render;

fn count(hay: &str, needle: &str) -> usize {
    hay.matches(needle).count()
}

fn target_for(url: &str) -> Target {
    match begin(&format!("/{url}")) {
        Start::Fetch(t) => t,
        Start::Respond(p) => panic!("expected a URL to fetch, got status {}", p.status),
    }
}

fn respond(s: Start) -> Page {
    match s {
        Start::Respond(p) => p,
        Start::Fetch(t) => panic!("expected a response, got a fetch of {}", t.as_str()),
    }
}

#[test]
fn render_without_canonical_has_no_canonical_link() {
    let html = render("T", "H", "<p>C</p>", None);
    assert_eq!(count(&html, "rel=\"canonical\""), 0);
    assert!(html.contains("<title>T</title>"));
    assert!(html.contains("<p>C</p>"));
    assert!(html.contains("H"));
}

#[test]
fn render_with_canonical_has_one_link() {
    let html = render("T", "H", "C", Some("https://example.com/x"));
    assert_eq!(count(&html, "rel=\"canonical\""), 1);
    assert_eq!(count(&html, "<link rel=\"canonical\" href=\"https://example.com/x\" />"), 1);
}

#[test]
fn render_is_pure() {
    let a = render("Title", "Header", "<b>x</b>", Some("https://a.b/"));
    let b = render("Title", "Header", "<b>x</b>", Some("https://a.b/"));
    assert_eq!(a.as_bytes(), b.as_bytes());
    let c = render("Title", "Header", "<b>x</b>", None);
    let d = render("Title", "Header", "<b>x</b>", None);
    assert_eq!(c, d);
    assert_ne!(a, c);
}

#[test]
fn render_does_not_escape() {
    let html = render("<i>t</i>", "<a href=x>y</a>", "<script>z</script>", None);
    assert!(html.contains("<i>t</i>"));
    assert!(html.contains("<a href=x>y</a>"));
    assert!(html.contains("<script>z</script>"));
}

#[test]
fn index_page_text() {
    let html = index();
    assert!(html.contains("Append any URL to the address bar to get started."));
    assert!(html.contains("<title>Readable.</title>"));
    assert!(!html.contains("rel=\"canonical\""));
}

#[test]
fn empty_path_gives_home_page() {
    let p = respond(begin(""));
    assert_eq!(p.status, 200);
    assert!(p.html.contains("Append any URL to the address bar to get started."));
    assert_eq!(p.html, index());
}

#[test]
fn root_path_gives_home_page() {
    let p = respond(begin("/"));
    assert_eq!(p.status, 200);
    assert!(p.html.contains("Append any URL to the address bar to get started."));
}

#[test]
fn unparsable_path_is_invalid_url() {
    let p = respond(begin("/not a url"));
    assert_eq!(p.status, 400);
    assert!(p.html.contains("Invalid URL"));
    assert!(p.html.contains("Check if the path represents a valid URL"));
    assert!(p.html.contains("relative URL without a base"));
    assert!(!p.html.contains("rel=\"canonical\""));
}

#[test]
fn only_one_separator_is_stripped() {
    let p = respond(begin("//"));
    assert_eq!(p.status, 400);
    assert!(p.html.contains("Invalid URL"));
}

#[test]
fn garbage_after_slash_is_invalid_url() {
    let p = respond(begin("/http://[::1"));
    assert_eq!(p.status, 400);
    assert!(p.html.contains("Invalid URL"));
}

#[test]
fn absolute_url_is_fetched() {
    let t = target_for("https://example.com/a/b?q=1");
    assert_eq!(t.as_str(), "https://example.com/a/b?q=1");
    assert_eq!(t.url().as_str(), "https://example.com/a/b?q=1");
}

#[test]
fn parsed_url_is_normalized() {
    let t = target_for("HTTPS://Example.COM");
    assert_eq!(t.as_str(), "https://example.com/");
}

#[test]
fn request_failure_is_yikes() {
    let t = target_for("https://unreachable.invalid/");
    let p = finish(&t, Err(FetchError::Request("error sending request".to_string())));
    assert_eq!(p.status, 400);
    assert!(p.html.contains("Yikes!"));
    assert!(p.html.contains("Couldn't render article. (It is an article, right?)"));
    assert!(p.html.contains("Can't fetch URL: error sending request"));
    assert!(!p.html.contains("rel=\"canonical\""));
}

#[test]
fn body_failure_is_yikes() {
    let t = target_for("https://example.com/");
    let p = finish(&t, Err(FetchError::Body("invalid utf-8".to_string())));
    assert_eq!(p.status, 400);
    assert!(p.html.contains("Yikes!"));
    assert!(p.html.contains("Can't fetch response body text: invalid utf-8"));
}

#[test]
fn extraction_failure_is_ouch() {
    let p = failure_page(&Failure::Extraction("UnexpectedError".to_string()));
    assert_eq!(p.status, 400);
    assert!(p.html.contains("<title>Ouch</title>"));
    assert!(p.html.contains("Couldn't extract content from the article. (It is an article, right?)"));
    assert!(p.html.contains("UnexpectedError"));
}

#[test]
fn invalid_url_failure_page() {
    let p = failure_page(&Failure::InvalidUrl("empty host".to_string()));
    assert_eq!(p.status, 400);
    assert!(p.html.contains("<title>Invalid URL</title>"));
    assert!(p.html.contains("empty host"));
}

#[test]
fn fetched_article_is_rendered() {
    let t = target_for("https://example.com/story");
    let doc = "<html><head><title>A Fine Story</title></head><body>\
        <div id=\"nav\"><a href=\"/\">Home</a></div>\
        <article><p>Once upon a time, there was a paragraph long enough to be scored as the \
        main content of this page, with commas, clauses, and plenty of words in it.</p>\
        <p>And then there was another one, just as long, so that the extractor has no doubt \
        at all about which part of the page holds the article.</p></article></body></html>";
    let p = finish(&t, Ok(doc.to_string()));
    assert_eq!(p.status, 200);
    assert!(p.html.contains("A Fine Story"));
    assert!(p.html.contains("Once upon a time"));
    assert!(p.html.contains("retrieved on "));
    assert!(p.html.contains(
        "A readable version of <a class=\"shortened\" href=https://example.com/story>https://example.com/story</a><br />retrieved on "
    ));
    assert_eq!(count(&p.html, "<link rel=\"canonical\" href=\"https://example.com/story\" />"), 1);
}

#[test]
fn article_page_exact() {
    let t = target_for("https://example.com/p");
    let p = article_page(&t, "T", "<p>C</p>", "Monday, January  5, 2024, 14:03:22");
    assert_eq!(p.status, 200);
    let header = "A readable version of <a class=\"shortened\" href=https://example.com/p>https://example.com/p</a><br />retrieved on Monday, January  5, 2024, 14:03:22";
    assert_eq!(p.html, render("T", header, "<p>C</p>", Some("https://example.com/p")));
}

#[test]
fn retrieved_line_text() {
    assert_eq!(
        retrieved_line("https://a.b/", "now"),
        "A readable version of <a class=\"shortened\" href=https://a.b/>https://a.b/</a><br />retrieved on now"
    );
}

#[test]
fn static_routes_are_fixed() {
    for _ in 0..3 {
        assert_eq!(route("/static/Crimson.woff2"), Route::Asset(StaticAsset::Crimson));
        assert_eq!(route("/static/JetBrainsMono.woff2"), Route::Asset(StaticAsset::JetBrainsMono));
        assert_eq!(StaticAsset::Crimson.content_type(), "text/woff2");
        assert_eq!(StaticAsset::JetBrainsMono.content_type(), "font/woff2");
        assert_eq!(StaticAsset::Crimson.file_name(), "Crimson.woff2");
        assert_eq!(StaticAsset::JetBrainsMono.path(), "/static/JetBrainsMono.woff2");
    }
}

#[test]
fn other_paths_go_to_the_reader() {
    assert_eq!(route("/"), Route::Article);
    assert_eq!(route("/static/Crimson.woff"), Route::Article);
    assert_eq!(route("/https://example.com/static/Crimson.woff2"), Route::Article);
    assert_eq!(route(""), Route::Article);
}

#[test]
fn same_text_compares_characters() {
    assert!(same_text("", ""));
    assert!(same_text("äbc", "äbc"));
    assert!(!same_text("abc", "abd"));
    assert!(!same_text("ab", "abc"));
}

#[test]
fn canonical_mark_in_title_is_kept_verbatim() {
    let html = render("a rel=\"canonical\" b", "H", "C", None);
    assert_eq!(count(&html, "rel=\"canonical\""), 2);
}

#[test]
fn article_page_has_one_canonical_element() {
    let t = target_for("https://example.com/q?a=1");
    let p = article_page(&t, "T", "C", "now");
    assert_eq!(count(&p.html, "rel=\"canonical\""), 1);
    assert!(p.html.contains("<link rel=\"canonical\" href=\"https://example.com/q?a=1\" />"));
}
