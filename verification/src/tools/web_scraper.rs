//! The `WebScrape` tool: for each (title, link) pair of a search, the page
//! text (the inner HTML of its `p, h1, h2, h3, h4` elements, in document
//! order) gathered under the title.
use vstd::prelude::*;

use crate::text::{to_owned, views};
use crate::tool::{ToolMeta, ToolSource};

verus! {

/// The tool's description.
pub const WEB_SCRAPE_DESCRIPTION: &'static str = "This tool gives the actual content of the page and returns text for which the user has asked";

/// The elements of a page's text that make up its content: paragraphs
/// and headings of the first four levels.
pub const PAGE_SELECTOR: &'static str = "p, h1, h2, h3, h4";

/// The inner HTML of every element of a page that a CSS selector matches,
/// in document order; `None` when scraper refuses the selector (named
/// result of scraper's parse and select).
pub uninterp spec fn html_select(html: Seq<char>, selector: Seq<char>) -> Option<Seq<Seq<char>>>;

/// `scraper::Html::parse_document`, `scraper::Selector::parse` of the
/// selector, then `select` and `inner_html` of each match, in document
/// order; `None` when the selector does not parse. What the parser makes of
/// a page is named, not stated.
#[verifier::external_body]
fn select_inner_html(html: &str, selector: &str) -> (r: Option<Vec<String>>)
    ensures
        match r {
            None => html_select(html@, selector@) is None,
            Some(v) => html_select(html@, selector@) == Some(views(v@)),
        },
{
    let selector = match scraper::Selector::parse(selector) {
        Ok(s) => s,
        Err(_) => return None,
    };
    let document = scraper::Html::parse_document(html);
    Some(document.select(&selector).map(|element| element.inner_html()).collect())
}

/// The concatenation of some texts.
pub open spec fn concat_all(parts: Seq<Seq<char>>) -> Seq<char>
    decreases parts.len(),
{
    if parts.len() == 0 {
        Seq::empty()
    } else {
        concat_all(parts.drop_last()) + parts.last()
    }
}

/// The text of a page: the inner HTML of its `PAGE_SELECTOR` elements,
/// concatenated; `None` only if scraper refuses the selector.
pub fn page_text(html: &str) -> (r: Option<String>)
    ensures
        match html_select(html@, PAGE_SELECTOR@) {
            None => r is None,
            Some(b) => r matches Some(t) && t@ == concat_all(b),
        },
{
    let blocks = match select_inner_html(html, PAGE_SELECTOR) {
        Some(b) => b,
        None => return None,
    };
    let mut out = String::new();
    let mut i: usize = 0;
    while i < blocks.len()
        invariant
            0 <= i <= blocks@.len(),
            out@ == concat_all(views(blocks@.take(i as int))),
        decreases blocks.len() - i,
    {
        proof {
            assert(views(blocks@.take(i + 1)).drop_last() =~= views(blocks@.take(i as int)));
            assert(views(blocks@.take(i + 1)).last() == blocks@[i as int]@);
        }
        out.append(blocks[i].as_str());
        i += 1;
    }
    proof {
        assert(blocks@.take(blocks@.len() as int) =~= blocks@);
    }
    Some(out)
}

/// The answer: a header line, then `<title>: <content>` per page.
pub open spec fn blob_spec(titles: Seq<String>, contents: Seq<String>) -> Seq<char>
    decreases titles.len(),
{
    if titles.len() == 0 || contents.len() == 0 {
        "Title, WebpageContent"@
    } else {
        let n = if titles.len() < contents.len() {
            titles.len()
        } else {
            contents.len()
        };
        blob_spec(titles.take(n - 1), contents.take(n - 1)) + "\n"@ + titles[n - 1]@ + ": "@ + contents[n
            - 1]@
    }
}

/// Gather pages under their titles, pairing titles with contents in order
/// (extra titles or contents are ignored).
pub fn scrape_blob(titles: &Vec<String>, contents: &Vec<String>) -> (r: String)
    ensures
        r@ == blob_spec(titles@, contents@),
{
    let n = if titles.len() < contents.len() {
        titles.len()
    } else {
        contents.len()
    };
    let mut out = to_owned("Title, WebpageContent");
    let mut i: usize = 0;
    proof {
        assert(titles@.take(0) =~= Seq::<String>::empty());
    }
    while i < n
        invariant
            n <= titles@.len(),
            n <= contents@.len(),
            0 <= i <= n,
            out@ == blob_spec(titles@.take(i as int), contents@.take(i as int)),
        decreases n - i,
    {
        proof {
            assert(titles@.take(i + 1).take(i as int) =~= titles@.take(i as int));
            assert(contents@.take(i + 1).take(i as int) =~= contents@.take(i as int));
        }
        out.append("\n");
        out.append(titles[i].as_str());
        out.append(": ");
        out.append(contents[i].as_str());
        i += 1;
    }
    proof {
        if n == titles@.len() && n == contents@.len() {
            assert(titles@.take(n as int) =~= titles@);
            assert(contents@.take(n as int) =~= contents@);
        }
        lemma_blob_prefix(titles@, contents@, n as int);
    }
    out
}

/// Only the first `min` pairs matter.
proof fn lemma_blob_prefix(titles: Seq<String>, contents: Seq<String>, n: int)
    requires
        n == if titles.len() < contents.len() {
            titles.len()
        } else {
            contents.len()
        },
    ensures
        blob_spec(titles, contents) == blob_spec(titles.take(n), contents.take(n)),
{
    if n > 0 {
        assert(titles.take(n).take(n - 1) =~= titles.take(n - 1));
        assert(contents.take(n).take(n - 1) =~= contents.take(n - 1));
    } else {
        if titles.len() == 0 {
            assert(titles.take(n) =~= titles);
        } else {
            assert(contents.take(n) =~= contents);
        }
    }
}

/// Page scraping.
#[derive(Debug, Clone, Copy)]
pub struct WebScrape;

impl WebScrape {
    /// The tool's name.
    pub fn name(&self) -> (r: &'static str)
        ensures
            r@ == "WebScrape"@,
    {
        "WebScrape"
    }

    /// The tool's description.
    pub fn description(&self) -> (r: &'static str)
        ensures
            r@ == WEB_SCRAPE_DESCRIPTION@,
    {
        WEB_SCRAPE_DESCRIPTION
    }

    /// What the registry knows of the tool.
    pub fn meta(&self) -> (r: ToolMeta)
        ensures
            r.name@ == "WebScrape"@,
            r.source == ToolSource::Builtin,
            r.mcp_server is None,
            r.read_only,
    {
        ToolMeta { name: to_owned("WebScrape"), source: ToolSource::Builtin, mcp_server: None, read_only: true }
    }
}

} // verus!
