use vstd::prelude::*;
use crate::template::{contains, lemma_contains_middle, lemma_contains_within, lemma_page_shows, page_text, render};

verus! {

pub const OK: u16 = 200;

pub const BAD_REQUEST: u16 = 400;

pub const INVALID_URL_TITLE: &'static str = "Invalid URL";

pub const INVALID_URL_HEADER: &'static str = "Check if the path represents a valid URL";

pub const FETCH_TITLE: &'static str = "Yikes!";

pub const FETCH_HEADER: &'static str = "Couldn't render article. (It is an article, right?)";

pub const REQUEST_PREFIX: &'static str = "Can't fetch URL: ";

pub const BODY_PREFIX: &'static str = "Can't fetch response body text: ";

pub const EXTRACT_TITLE: &'static str = "Ouch";

pub const EXTRACT_HEADER: &'static str =
    "Couldn't extract content from the article. (It is an article, right?)";

/// A finished response: its HTTP status and its HTML text.
pub struct Page {
    pub status: u16,
    pub html: String,
}

/// How fetching a page went wrong, with the transport's own words.
pub enum FetchError {
    /// The request itself failed (name lookup, connection, time-out, status).
    Request(String),
    /// The response came, but its body could not be read as text.
    Body(String),
}

/// Every way in which a request can end in an error page.
pub enum Failure {
    /// The path is not an absolute URL; the parser's message.
    InvalidUrl(String),
    /// The page could not be fetched.
    Fetch(FetchError),
    /// No article could be extracted from the page; the extractor's message.
    Extraction(String),
}

pub open spec fn failure_title(f: Failure) -> Seq<char> {
    match f {
        Failure::InvalidUrl(_) => INVALID_URL_TITLE@,
        Failure::Fetch(_) => FETCH_TITLE@,
        Failure::Extraction(_) => EXTRACT_TITLE@,
    }
}

pub open spec fn failure_header(f: Failure) -> Seq<char> {
    match f {
        Failure::InvalidUrl(_) => INVALID_URL_HEADER@,
        Failure::Fetch(_) => FETCH_HEADER@,
        Failure::Extraction(_) => EXTRACT_HEADER@,
    }
}

/// The text shown in the body of the error page: the underlying message,
/// after a short note for fetch errors.
pub open spec fn failure_detail(f: Failure) -> Seq<char> {
    match f {
        Failure::InvalidUrl(m) => m@,
        Failure::Fetch(FetchError::Request(m)) => REQUEST_PREFIX@ + m@,
        Failure::Fetch(FetchError::Body(m)) => BODY_PREFIX@ + m@,
        Failure::Extraction(m) => m@,
    }
}

/// An error page: the usual skeleton, never with a canonical link.
pub open spec fn error_html(title: Seq<char>, header: Seq<char>, detail: Seq<char>) -> Seq<char> {
    page_text(title, header, detail, Seq::empty())
}

pub open spec fn failure_html(f: Failure) -> Seq<char> {
    error_html(failure_title(f), failure_header(f), failure_detail(f))
}

/// The message that caused a failure, as it came from below.
pub open spec fn failure_message(f: Failure) -> Seq<char> {
    match f {
        Failure::InvalidUrl(m) => m@,
        Failure::Fetch(FetchError::Request(m)) => m@,
        Failure::Fetch(FetchError::Body(m)) => m@,
        Failure::Extraction(m) => m@,
    }
}

/// An error page shows the title of its kind ("Invalid URL", "Yikes!",
/// "Ouch") and, in its body, the underlying error text.
pub proof fn lemma_failure_page_shows(f: Failure)
    ensures
        contains(failure_html(f), failure_title(f)),
        contains(failure_html(f), failure_message(f)),
        failure_title(f) == match f {
            Failure::InvalidUrl(_) => "Invalid URL"@,
            Failure::Fetch(_) => "Yikes!"@,
            Failure::Extraction(_) => "Ouch"@,
        },
{
    lemma_page_shows(failure_title(f), failure_header(f), failure_detail(f), Seq::empty());
    let detail = failure_detail(f);
    let m = failure_message(f);
    match f {
        Failure::Fetch(FetchError::Request(_)) => {
            assert(detail =~= REQUEST_PREFIX@ + m + Seq::empty());
            lemma_contains_middle(REQUEST_PREFIX@, m, Seq::empty());
        },
        Failure::Fetch(FetchError::Body(_)) => {
            assert(detail =~= BODY_PREFIX@ + m + Seq::empty());
            lemma_contains_middle(BODY_PREFIX@, m, Seq::empty());
        },
        _ => {
            assert(detail =~= Seq::empty() + m + Seq::empty());
            lemma_contains_middle(Seq::empty(), m, Seq::empty());
        },
    }
    lemma_contains_within(failure_html(f), detail, m);
}

/// Turns a failure into its response: status 400 and the error page for its kind.
pub fn failure_page(f: &Failure) -> (p: Page)
    ensures
        p.status == BAD_REQUEST,
        p.html@ == failure_html(*f),
{
    let html = match f {
        Failure::InvalidUrl(m) => render(INVALID_URL_TITLE, INVALID_URL_HEADER, m.as_str(), None),
        Failure::Fetch(e) => {
            let detail = match e {
                FetchError::Request(m) => String::from_str(REQUEST_PREFIX).concat(m.as_str()),
                FetchError::Body(m) => String::from_str(BODY_PREFIX).concat(m.as_str()),
            };
            render(FETCH_TITLE, FETCH_HEADER, detail.as_str(), None)
        },
        Failure::Extraction(m) => render(EXTRACT_TITLE, EXTRACT_HEADER, m.as_str(), None),
    };
    Page { status: BAD_REQUEST, html }
}

} // verus!
