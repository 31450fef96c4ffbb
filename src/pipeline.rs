use vstd::prelude::*;
use crate::page::{
    error_html, failure_html, failure_page, Failure, FetchError, Page, BAD_REQUEST,
    EXTRACT_HEADER, EXTRACT_TITLE, INVALID_URL_HEADER, INVALID_URL_TITLE, OK,
};
use crate::template::{
    canonical_tag, contains, lemma_contains_middle, lemma_contains_within, lemma_page_shows, page_text,
    render,
};

verus! {

/// The URL type of the `url` crate, carried through as an opaque value.
#[verifier::external_type_specification]
#[verifier::external_body]
pub struct ExUrl(url::Url);

/// What `url::Url::parse` makes of a text: the serialization of the URL it
/// reads there, or the parser's message.
pub uninterp spec fn parsed_url(s: Seq<char>) -> Result<Seq<char>, Seq<char>>;

/// What `readability::extractor::extract` finds in a document read against a
/// base URL: the article's title and content, or the extractor's message.
pub uninterp spec fn extracted(document: Seq<char>, base: Seq<char>) -> Result<
    (Seq<char>, Seq<char>),
    Seq<char>,
>;

/// Relies on `url::Url::parse`: it reads `s` as an absolute URL, whose text is
/// then `Url::as_str`, or fails with a `ParseError` shown by its `Display`.
/// The outcome depends on `s` alone.
#[verifier::external_body]
fn parse_url(s: &str) -> (r: Result<(url::Url, String), String>)
    ensures
        match r {
            Ok((_, text)) => parsed_url(s@) == Ok::<Seq<char>, Seq<char>>(text@),
            Err(m) => parsed_url(s@) == Err::<Seq<char>, Seq<char>>(m@),
        },
{
    match url::Url::parse(s) {
        Ok(u) => {
            let text = u.as_str().to_string();
            Ok((u, text))
        },
        Err(e) => Err(e.to_string()),
    }
}

/// Relies on `readability::extractor::extract`: it parses the document and
/// picks the article's title and content, or fails with an `Error` shown by its
/// `Display`. The outcome depends on the document and on the base URL, which a
/// `Url` holds as its text.
#[verifier::external_body]
fn extract_article(document: &str, base: &Target) -> (r: Result<(String, String), String>)
    ensures
        match r {
            Ok((title, content)) => extracted(document@, base@) == Ok::<
                (Seq<char>, Seq<char>),
                Seq<char>,
            >((title@, content@)),
            Err(m) => extracted(document@, base@) == Err::<(Seq<char>, Seq<char>), Seq<char>>(
                m@,
            ),
        },
{
    let mut input = document.as_bytes();
    match readability::extractor::extract(&mut input, &base.url) {
        Ok(product) => Ok((product.title, product.content)),
        Err(e) => Err(e.to_string()),
    }
}

/// Relies on `chrono::Local::now` and its `format`: the local date and time now,
/// as weekday, month name, day, year and time of day. Nothing is known of
/// which moment that is.
#[verifier::external_body]
fn get_time() -> (r: String) {
    chrono::Local::now().format("%A, %B %e, %Y, %H:%M:%S").to_string()
}

/// An absolute URL that the parser accepted, with its text.
pub struct Target {
    url: url::Url,
    text: String,
}

impl View for Target {
    type V = Seq<char>;

    closed spec fn view(&self) -> Seq<char> {
        self.text@
    }
}

impl Target {
    /// The parsed URL, for the transport that fetches it.
    pub fn url(&self) -> &url::Url {
        &self.url
    }

    pub fn as_str(&self) -> (r: &str)
        ensures
            r@ == self@,
    {
        self.text.as_str()
    }
}

/// Where a request goes after its path has been read.
pub enum Start {
    /// It is answered at once.
    Respond(Page),
    /// The page at this URL must be fetched, and then `finish` called.
    Fetch(Target),
}

pub const INDEX_TITLE: &'static str = "Readable.";

pub const INDEX_HEADER: &'static str = "A simple web service to extract the main content from an article<br /> and format it for <i>reading</i>.
        Source code <a href=\"https://github.com/mre/readable\">here</a>.
        ";

pub const INDEX_CONTENT: &'static str = "Append any URL to the address bar to get started.
        <h2>Examples</h2>
        <ul>
            <li>
                <a href=\"/https://www.shuttle.rs/blog/2022/10/21/shuttle-next\">Blog Post</a>
            </li>
            <li>
                <a href=\"/https://www.nytimes.com/2022/06/30/opinion/internet-speech-reform-facebook.html\">New York Times Article</a>
            </li>
            <li>
                <a href=\"/https://en.wikipedia.org/wiki/Alan_Turing\">Wikipedia &raquo; Alan_Turing</a>
            </li>
            <li>
                <a href=\"/https://www.reddit.com/r/WritingPrompts/comments/xe9shf/pi_youre_a_mimic_you_were_disguised_as_a_chair_in/\">Reddit <i>/r/WritingPrompts</i></a>
            </li>
        </ul>
        <h2>Use-Cases</h2>
        <ul>
            <li>Revive your old ebook reader</li>
            <li>Distraction-free reading</li>
            <li>Zero ads and tracking</li>
            <li>Faster browsing on low-bandwidth connections</li>
            <li>Read articles in your terminal (e.g. with lynx)</li>
            <li>Deploy your own version to learn some Rust</li>
        </ul>
        <p>
            Built by <a href=\"https://endler.dev/2022/readable\">Matthias</a> with Rust and <a href=\"https://shuttle.rs\">shuttle.rs</a>.
        ";

pub const HEADER_OPEN: &'static str = "A readable version of <a class=\"shortened\" href=";

pub const HEADER_MIDDLE: &'static str = ">";

pub const HEADER_RETRIEVED: &'static str = "</a><br />retrieved on ";

pub open spec fn index_html() -> Seq<char> {
    page_text(INDEX_TITLE@, INDEX_HEADER@, INDEX_CONTENT@, Seq::empty())
}

/// The home page, which explains the service and links a few examples.
pub fn index() -> (r: String)
    ensures
        r@ == index_html(),
{
    render(INDEX_TITLE, INDEX_HEADER, INDEX_CONTENT, None)
}

/// The request path with one leading separator taken off.
pub open spec fn candidate(path: Seq<char>) -> Seq<char> {
    if path.len() > 0 && path[0] == '/' {
        path.subrange(1, path.len() as int)
    } else {
        path
    }
}

/// The line above an article: a link to where it came from, and when.
pub open spec fn header_line(url: Seq<char>, stamp: Seq<char>) -> Seq<char> {
    HEADER_OPEN@ + url + HEADER_MIDDLE@ + url + HEADER_RETRIEVED@ + stamp
}

/// The page for an article taken from `url` at the time `stamp`.
pub open spec fn article_html(
    url: Seq<char>,
    title: Seq<char>,
    content: Seq<char>,
    stamp: Seq<char>,
) -> Seq<char> {
    page_text(title, header_line(url, stamp), content, canonical_tag(url))
}

/// An article page shows the article's title and content, and the line that
/// links its source URL and gives the time it was retrieved.
pub proof fn lemma_article_page_shows(
    url: Seq<char>,
    title: Seq<char>,
    content: Seq<char>,
    stamp: Seq<char>,
)
    ensures
        contains(article_html(url, title, content, stamp), title),
        contains(article_html(url, title, content, stamp), content),
        contains(article_html(url, title, content, stamp), header_line(url, stamp)),
        contains(article_html(url, title, content, stamp), url),
        contains(article_html(url, title, content, stamp), stamp),
{
    let line = header_line(url, stamp);
    lemma_page_shows(title, line, content, canonical_tag(url));
    let front = HEADER_OPEN@ + url + HEADER_MIDDLE@ + url + HEADER_RETRIEVED@;
    assert(line =~= front + stamp + Seq::empty());
    lemma_contains_middle(front, stamp, Seq::empty());
    lemma_contains_within(article_html(url, title, content, stamp), line, stamp);
    let back = HEADER_MIDDLE@ + url + HEADER_RETRIEVED@ + stamp;
    assert(line =~= HEADER_OPEN@ + url + back);
    lemma_contains_middle(HEADER_OPEN@, url, back);
    lemma_contains_within(article_html(url, title, content, stamp), line, url);
}

/// Reads a request path: the home page for an empty one, an error page for
/// one that is not an absolute URL, else the URL to fetch.
pub fn begin(path: &str) -> (r: Start)
    ensures
        candidate(path@).len() == 0 ==> (r matches Start::Respond(p) && p.status == OK
            && p.html@ == index_html()),
        candidate(path@).len() > 0 ==> match parsed_url(candidate(path@)) {
            Ok(text) => r matches Start::Fetch(t) && t@ == text,
            Err(m) => r matches Start::Respond(p) && p.status == BAD_REQUEST && p.html@
                == error_html(INVALID_URL_TITLE@, INVALID_URL_HEADER@, m),
        },
{
    let n = path.unicode_len();
    let rest: &str = if n > 0 && path.get_char(0) == '/' {
        path.substring_char(1, n)
    } else {
        path
    };
    if rest.unicode_len() == 0 {
        return Start::Respond(Page { status: OK, html: index() });
    }
    match parse_url(rest) {
        Ok((url, text)) => Start::Fetch(Target { url, text }),
        Err(m) => {
            let f = Failure::InvalidUrl(m);
            let p = failure_page(&f);
            Start::Respond(p)
        },
    }
}

/// The header line for an article from `url` retrieved at `stamp`.
pub fn retrieved_line(url: &str, stamp: &str) -> (r: String)
    ensures
        r@ == header_line(url@, stamp@),
{
    let mut line = String::from_str(HEADER_OPEN);
    line.append(url);
    line.append(HEADER_MIDDLE);
    line.append(url);
    line.append(HEADER_RETRIEVED);
    line.append(stamp);
    proof {
        assert(line@ =~= header_line(url@, stamp@));
    }
    line
}

/// The response for an article found at `target` and retrieved at `stamp`.
pub fn article_page(target: &Target, title: &str, content: &str, stamp: &str) -> (p: Page)
    ensures
        p.status == OK,
        p.html@ == article_html(target@, title@, content@, stamp@),
{
    let url = target.as_str();
    let header = retrieved_line(url, stamp);
    Page { status: OK, html: render(title, header.as_str(), content, Some(url)) }
}

/// Ends a request once the page at `target` was fetched, or failed to be:
/// the article page, or the error page for what went wrong.
pub fn finish(target: &Target, fetched: Result<String, FetchError>) -> (p: Page)
    ensures
        fetched matches Err(e) ==> p.status == BAD_REQUEST && p.html@ == failure_html(
            Failure::Fetch(e),
        ),
        fetched matches Ok(document) ==> match extracted(document@, target@) {
            Err(m) => p.status == BAD_REQUEST && p.html@ == error_html(
                EXTRACT_TITLE@,
                EXTRACT_HEADER@,
                m,
            ),
            Ok((title, content)) => p.status == OK && exists|stamp: Seq<char>|
                #![trigger header_line(target@, stamp)]
                p.html@ == article_html(target@, title, content, stamp),
        },
{
    match fetched {
        Err(e) => {
            let f = Failure::Fetch(e);
            failure_page(&f)
        },
        Ok(document) => match extract_article(document.as_str(), target) {
            Err(m) => {
                let f = Failure::Extraction(m);
                failure_page(&f)
            },
            Ok((title, content)) => {
                let stamp = get_time();
                let p = article_page(target, title.as_str(), content.as_str(), stamp.as_str());
                assert(p.html@ == article_html(target@, title@, content@, stamp@));
                p
            },
        },
    }
}

} // verus!
