use vstd::prelude::*;

verus! {

/// The page skeleton, cut at the places where the title (twice), the
/// canonical link, the header line and the content go.
pub const HEAD: &'static str = "<!DOCTYPE html>\n<html lang='en'>\n<head>\n<meta charset='utf-8' />\n<meta name='viewport' content='width=device-width, initial-scale=1' />\n<title>";

pub const AFTER_TITLE: &'static str = "</title>\n";

pub const AFTER_CANONICAL: &'static str = "\n<style>\n@font-face { font-family: Crimson; src: url(/static/Crimson.woff2); }\n@font-face { font-family: JetBrainsMono; src: url(/static/JetBrainsMono.woff2); }\nbody { font-family: Crimson, serif; max-width: 40em; margin: 0 auto; padding: 1em; line-height: 1.5; }\ncode, pre { font-family: JetBrainsMono, monospace; }\n.shortened { word-break: break-all; }\n</style>\n</head>\n<body>\n<main>\n<h1>";

pub const AFTER_HEADING: &'static str = "</h1>\n<p class='header'>";

pub const AFTER_HEADER: &'static str = "</p>\n<article>\n";

pub const TAIL: &'static str = "\n</article>\n</main>\n</body>\n</html>\n";

pub const CANONICAL_OPEN: &'static str = "<link rel=\"canonical\" href=\"";

pub const CANONICAL_CLOSE: &'static str = "\" />";

/// The whole page for the given title, header line, content and text of the
/// canonical slot: each value is put in literally, without escaping.
pub open spec fn page_text(
    title: Seq<char>,
    header: Seq<char>,
    content: Seq<char>,
    canonical: Seq<char>,
) -> Seq<char> {
    HEAD@ + title + AFTER_TITLE@ + canonical + AFTER_CANONICAL@ + title + AFTER_HEADING@ + header
        + AFTER_HEADER@ + content + TAIL@
}

/// The element that names `url` as the authoritative source of the page.
pub open spec fn canonical_tag(url: Seq<char>) -> Seq<char> {
    CANONICAL_OPEN@ + url + CANONICAL_CLOSE@
}

/// What goes in the canonical slot: nothing, or the element for the given URL.
pub open spec fn canonical_slot(canonical: Option<Seq<char>>) -> Seq<char> {
    match canonical {
        Some(url) => canonical_tag(url),
        None => Seq::empty(),
    }
}

pub open spec fn opt_view(canonical: Option<&str>) -> Option<Seq<char>> {
    match canonical {
        Some(url) => Some(url@),
        None => None,
    }
}

/// `part` occurs in `s` as a contiguous run of characters.
pub open spec fn contains(s: Seq<char>, part: Seq<char>) -> bool {
    exists|i: int| 0 <= i && i + part.len() <= s.len() && #[trigger] s.subrange(i, i + part.len()) == part
}

/// A text holds whatever stands between two other texts in it.
pub proof fn lemma_contains_middle(front: Seq<char>, part: Seq<char>, back: Seq<char>)
    ensures
        contains(front + part + back, part),
{
    let s = front + part + back;
    assert(s.subrange(front.len() as int, (front.len() + part.len()) as int) =~= part);
}

/// What a part of a text holds, the text holds too.
pub proof fn lemma_contains_within(s: Seq<char>, mid: Seq<char>, part: Seq<char>)
    requires
        contains(s, mid),
        contains(mid, part),
    ensures
        contains(s, part),
{
    let i = choose|i: int| 0 <= i && i + mid.len() <= s.len() && #[trigger] s.subrange(i, i + mid.len()) == mid;
    let j = choose|j: int| 0 <= j && j + part.len() <= mid.len() && #[trigger] mid.subrange(j, j + part.len()) == part;
    assert(s.subrange(i + j, i + j + part.len()) =~= mid.subrange(j, j + part.len()));
}

/// Every page shows its title and its content.
pub proof fn lemma_page_shows(title: Seq<char>, header: Seq<char>, content: Seq<char>, canonical: Seq<char>)
    ensures
        contains(page_text(title, header, content, canonical), title),
        contains(page_text(title, header, content, canonical), header),
        contains(page_text(title, header, content, canonical), content),
{
    let page = page_text(title, header, content, canonical);
    let after_title = AFTER_TITLE@ + canonical + AFTER_CANONICAL@ + title + AFTER_HEADING@ + header
        + AFTER_HEADER@ + content + TAIL@;
    assert(page =~= HEAD@ + title + after_title);
    lemma_contains_middle(HEAD@, title, after_title);
    let before_header = HEAD@ + title + AFTER_TITLE@ + canonical + AFTER_CANONICAL@ + title
        + AFTER_HEADING@;
    let after_header = AFTER_HEADER@ + content + TAIL@;
    assert(page =~= before_header + header + after_header);
    lemma_contains_middle(before_header, header, after_header);
    let before_content = before_header + header + AFTER_HEADER@;
    assert(page =~= before_content + content + TAIL@);
    lemma_contains_middle(before_content, content, TAIL@);
}

/// Fills the page skeleton with the given values.
pub fn render(title: &str, header: &str, content: &str, canonical: Option<&str>) -> (r: String)
    ensures
        r@ == page_text(title@, header@, content@, canonical_slot(opt_view(canonical))),
{
    let mut out = String::from_str(HEAD);
    out.append(title);
    out.append(AFTER_TITLE);
    match canonical {
        Some(url) => {
            out.append(CANONICAL_OPEN);
            out.append(url);
            out.append(CANONICAL_CLOSE);
        },
        None => {},
    }
    out.append(AFTER_CANONICAL);
    out.append(title);
    out.append(AFTER_HEADING);
    out.append(header);
    out.append(AFTER_HEADER);
    out.append(content);
    out.append(TAIL);
    proof {
        assert(out@ =~= page_text(title@, header@, content@, canonical_slot(opt_view(canonical))));
    }
    out
}

/// Rendering depends on its arguments alone: two renderings of the same
/// title, header, content and canonical URL are the same text.
pub proof fn lemma_render_is_pure(
    title: Seq<char>,
    header: Seq<char>,
    content: Seq<char>,
    canonical: Option<Seq<char>>,
    first: Seq<char>,
    second: Seq<char>,
)
    requires
        first == page_text(title, header, content, canonical_slot(canonical)),
        second == page_text(title, header, content, canonical_slot(canonical)),
    ensures
        first == second,
{
}

/// Supplying a canonical URL inserts exactly one canonical element, with that
/// URL as its target, into the page that omitting it gives; omitting it leaves
/// the slot empty.
pub proof fn lemma_canonical_link(title: Seq<char>, header: Seq<char>, content: Seq<char>, url: Seq<char>)
    ensures
        ({
            let bare = page_text(title, header, content, canonical_slot(None));
            let linked = page_text(title, header, content, canonical_slot(Some(url)));
            let at: int = (HEAD@.len() + title.len() + AFTER_TITLE@.len()) as int;
            &&& bare == page_text(title, header, content, Seq::empty())
            &&& linked == bare.subrange(0, at) + canonical_tag(url) + bare.subrange(at, bare.len() as int)
            &&& linked.subrange(at, at + canonical_tag(url).len() as int) == canonical_tag(url)
            &&& contains(linked, canonical_tag(url))
        }),
{
    let bare = page_text(title, header, content, canonical_slot(None));
    let linked = page_text(title, header, content, canonical_slot(Some(url)));
    let at: int = (HEAD@.len() + title.len() + AFTER_TITLE@.len()) as int;
    let front = HEAD@ + title + AFTER_TITLE@;
    let back = AFTER_CANONICAL@ + title + AFTER_HEADING@ + header + AFTER_HEADER@ + content + TAIL@;
    assert(bare =~= front + back);
    assert(linked =~= front + canonical_tag(url) + back);
    assert(bare.subrange(0, at) =~= front);
    assert(bare.subrange(at, bare.len() as int) =~= back);
    assert(linked.subrange(at, at + canonical_tag(url).len() as int) =~= canonical_tag(url));
}

/// The attribute that marks a canonical link.
pub const CANONICAL_MARK: &'static str = "rel=\"canonical\"";

/// No character of `s` is `c`.
pub open spec fn lacks_char(s: Seq<char>, c: char) -> bool {
    forall|j: int| 0 <= j < s.len() ==> s[j] != c
}

/// A piece of the skeleton that cannot take part in a canonical mark: it has
/// no double quote, and it begins and ends with characters that the mark lacks.
pub open spec fn inert_piece(s: Seq<char>) -> bool {
    &&& s.len() > 0
    &&& lacks_char(s, '"')
    &&& lacks_char(CANONICAL_MARK@, s[0])
    &&& lacks_char(CANONICAL_MARK@, s[s.len() - 1])
}

proof fn lemma_pieces_inert()
    ensures
        inert_piece(HEAD@),
        inert_piece(AFTER_TITLE@),
        inert_piece(AFTER_CANONICAL@),
        inert_piece(AFTER_HEADING@),
        inert_piece(AFTER_HEADER@),
        inert_piece(TAIL@),
        CANONICAL_MARK@.len() == 15,
        CANONICAL_MARK@[4] == '"',
{
    reveal_strlit("rel=\"canonical\"");
    reveal_strlit("<!DOCTYPE html>\n<html lang='en'>\n<head>\n<meta charset='utf-8' />\n<meta name='viewport' content='width=device-width, initial-scale=1' />\n<title>");
    reveal_strlit("</title>\n");
    reveal_strlit("\n<style>\n@font-face { font-family: Crimson; src: url(/static/Crimson.woff2); }\n@font-face { font-family: JetBrainsMono; src: url(/static/JetBrainsMono.woff2); }\nbody { font-family: Crimson, serif; max-width: 40em; margin: 0 auto; padding: 1em; line-height: 1.5; }\ncode, pre { font-family: JetBrainsMono, monospace; }\n.shortened { word-break: break-all; }\n</style>\n</head>\n<body>\n<main>\n<h1>");
    reveal_strlit("</h1>\n<p class='header'>");
    reveal_strlit("</p>\n<article>\n");
    reveal_strlit("\n</article>\n</main>\n</body>\n</html>\n");
}

/// A text without a double quote holds no canonical mark.
proof fn lemma_inert_lacks_mark(s: Seq<char>)
    requires
        lacks_char(s, '"'),
        CANONICAL_MARK@.len() == 15,
        CANONICAL_MARK@[4] == '"',
    ensures
        !contains(s, CANONICAL_MARK@),
{
    let p = CANONICAL_MARK@;
    if contains(s, p) {
        let i = choose|i: int| 0 <= i && i + p.len() <= s.len() && #[trigger] s.subrange(i, i + p.len()) == p;
        assert(s.subrange(i, i + p.len())[4] == s[i + 4]);
    }
}

/// Joining two texts that lack `p` gives one that lacks it too, when the
/// character on one side of the seam is not in `p`.
proof fn lemma_join_lacks(a: Seq<char>, b: Seq<char>, p: Seq<char>)
    requires
        !contains(a, p),
        !contains(b, p),
        (a.len() > 0 && lacks_char(p, a[a.len() - 1])) || (b.len() > 0 && lacks_char(p, b[0])),
    ensures
        !contains(a + b, p),
{
    let s = a + b;
    let n = p.len() as int;
    if contains(s, p) {
        let i = choose|i: int| 0 <= i && i + n <= s.len() && #[trigger] s.subrange(i, i + n) == p;
        if i + n <= a.len() {
            assert(a.subrange(i, i + n) =~= s.subrange(i, i + n));
        } else if i >= a.len() {
            assert(b.subrange(i - a.len(), i - a.len() + n) =~= s.subrange(i, i + n));
        } else {
            assert(s.subrange(i, i + n)[a.len() - 1 - i] == a[a.len() - 1]);
            assert(s.subrange(i, i + n)[a.len() - i] == b[0]);
        }
    }
}

/// A part of a text that lacks `p` lacks it too.
proof fn lemma_part_lacks(s: Seq<char>, from: int, to: int, p: Seq<char>)
    requires
        !contains(s, p),
        0 <= from <= to <= s.len(),
    ensures
        !contains(s.subrange(from, to), p),
{
    let t = s.subrange(from, to);
    if contains(t, p) {
        let i = choose|i: int| 0 <= i && i + p.len() <= t.len() && #[trigger] t.subrange(i, i + p.len()) == p;
        assert(s.subrange(from + i, from + i + p.len()) =~= t.subrange(i, i + p.len()));
    }
}

/// A page whose title, header and content hold no canonical mark holds none
/// when no canonical URL is given.
pub proof fn lemma_no_canonical_when_omitted(title: Seq<char>, header: Seq<char>, content: Seq<char>)
    requires
        !contains(title, CANONICAL_MARK@),
        !contains(header, CANONICAL_MARK@),
        !contains(content, CANONICAL_MARK@),
    ensures
        !contains(page_text(title, header, content, canonical_slot(None)), CANONICAL_MARK@),
{
    let p = CANONICAL_MARK@;
    lemma_pieces_inert();
    lemma_inert_lacks_mark(HEAD@);
    lemma_inert_lacks_mark(AFTER_TITLE@);
    lemma_inert_lacks_mark(AFTER_CANONICAL@);
    lemma_inert_lacks_mark(AFTER_HEADING@);
    lemma_inert_lacks_mark(AFTER_HEADER@);
    lemma_inert_lacks_mark(TAIL@);
    let s1 = HEAD@ + title;
    lemma_join_lacks(HEAD@, title, p);
    let s2 = s1 + AFTER_TITLE@;
    lemma_join_lacks(s1, AFTER_TITLE@, p);
    let s4 = s2 + AFTER_CANONICAL@;
    lemma_join_lacks(s2, AFTER_CANONICAL@, p);
    let s5 = s4 + title;
    assert(s4[s4.len() - 1] == AFTER_CANONICAL@[AFTER_CANONICAL@.len() - 1]);
    lemma_join_lacks(s4, title, p);
    let s6 = s5 + AFTER_HEADING@;
    lemma_join_lacks(s5, AFTER_HEADING@, p);
    let s7 = s6 + header;
    assert(s6[s6.len() - 1] == AFTER_HEADING@[AFTER_HEADING@.len() - 1]);
    lemma_join_lacks(s6, header, p);
    let s8 = s7 + AFTER_HEADER@;
    lemma_join_lacks(s7, AFTER_HEADER@, p);
    let s9 = s8 + content;
    assert(s8[s8.len() - 1] == AFTER_HEADER@[AFTER_HEADER@.len() - 1]);
    lemma_join_lacks(s8, content, p);
    let s10 = s9 + TAIL@;
    lemma_join_lacks(s9, TAIL@, p);
    assert(page_text(title, header, content, canonical_slot(None)) =~= s10);
}

/// With a canonical URL given, every canonical mark in the page lies inside
/// the one canonical element put in, provided the title, header and content
/// hold none.
pub proof fn lemma_canonical_only_in_its_element(
    title: Seq<char>,
    header: Seq<char>,
    content: Seq<char>,
    url: Seq<char>,
)
    requires
        !contains(title, CANONICAL_MARK@),
        !contains(header, CANONICAL_MARK@),
        !contains(content, CANONICAL_MARK@),
    ensures
        ({
            let linked = page_text(title, header, content, canonical_slot(Some(url)));
            let at: int = (HEAD@.len() + title.len() + AFTER_TITLE@.len()) as int;
            let n = CANONICAL_MARK@.len() as int;
            &&& linked.subrange(at, at + canonical_tag(url).len() as int) == canonical_tag(url)
            &&& forall|i: int|
                0 <= i && i + n <= linked.len() && #[trigger] linked.subrange(i, i + n) == CANONICAL_MARK@
                    ==> at <= i && i + n <= at + canonical_tag(url).len()
        }),
{
    let p = CANONICAL_MARK@;
    let n = p.len() as int;
    let tag = canonical_tag(url);
    lemma_canonical_link(title, header, content, url);
    lemma_no_canonical_when_omitted(title, header, content);
    lemma_pieces_inert();
    let bare = page_text(title, header, content, canonical_slot(None));
    let linked = page_text(title, header, content, canonical_slot(Some(url)));
    let at: int = (HEAD@.len() + title.len() + AFTER_TITLE@.len()) as int;
    let front = bare.subrange(0, at);
    let back = bare.subrange(at, bare.len() as int);
    lemma_part_lacks(bare, 0, at, p);
    lemma_part_lacks(bare, at, bare.len() as int, p);
    assert(front =~= HEAD@ + title + AFTER_TITLE@);
    assert(front[at - 1] == AFTER_TITLE@[AFTER_TITLE@.len() - 1]);
    assert(back =~= AFTER_CANONICAL@ + title + AFTER_HEADING@ + header + AFTER_HEADER@ + content + TAIL@);
    assert(back[0] == AFTER_CANONICAL@[0]);
    assert forall|i: int|
        0 <= i && i + n <= linked.len() && #[trigger] linked.subrange(i, i + n) == p implies at <= i
            && i + n <= at + tag.len() by {
        if i + n <= at {
            assert(front.subrange(i, i + n) =~= linked.subrange(i, i + n));
        } else if i >= at + tag.len() {
            let j = i - at - tag.len();
            assert(back.subrange(j, j + n) =~= linked.subrange(i, i + n));
        } else if i < at {
            assert(linked =~= front + tag + back);
            assert(linked.subrange(i, i + n)[at - 1 - i] == front[at - 1]);
        } else if i + n > at + tag.len() {
            assert(linked =~= front + tag + back);
            assert(linked[at + tag.len()] == back[0]);
            assert(linked.subrange(i, i + n)[at + tag.len() - i] == back[0]);
        }
    }
}

} // verus!
