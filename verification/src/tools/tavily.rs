//! Shared Tavily REST API rules: the endpoints, the result-count clamp and
//! the rendering of search results and extracted pages, shared by the
//! built-in WebSearch/WebFetch tools and the Tavily MCP facade tools so
//! their output stays identical.
use vstd::prelude::*;

use crate::text::{dec, take_chars, to_owned, u64_to_string};

verus! {

/// The Tavily API base URL.
pub const DEFAULT_TAVILY_BASE_URL: &'static str = "https://api.tavily.com";

/// Results asked for when the input names no count.
pub const DEFAULT_MAX_RESULTS: i64 = 5;

/// Characters of a result's content shown in its snippet.
pub const MAX_SNIPPET_CHARS: usize = 500;

/// Cap on the characters of an extract answer.
pub const MAX_OUTPUT_CHARS: usize = 8000;

/// Appended where an extract answer was cut.
pub const TRUNCATION_MARKER: &'static str = "[… truncated]";

/// `s` without its trailing slashes (`trim_end_matches('/')`).
pub open spec fn trim_trailing_slashes(s: Seq<char>) -> Seq<char>
    decreases s.len(),
{
    if s.len() > 0 && s.last() == '/' {
        trim_trailing_slashes(s.drop_last())
    } else {
        s
    }
}

/// `<base without trailing slashes><path>`.
pub fn api_url(base_url: &str, path: &str) -> (r: String)
    ensures
        r@ == trim_trailing_slashes(base_url@) + path@,
{
    let v = crate::text::str_chars(base_url);
    let mut end = v.len();
    proof {
        assert(v@.take(v@.len() as int) =~= v@);
    }
    while end > 0 && v[end - 1] == '/'
        invariant
            end <= v@.len(),
            trim_trailing_slashes(v@) == trim_trailing_slashes(v@.take(end as int)),
        decreases end,
    {
        proof {
            assert(v@.take(end as int).drop_last() =~= v@.take(end - 1));
        }
        end -= 1;
    }
    proof {
        assert(v@.take(v@.len() as int) =~= v@);
    }
    let mut s = crate::text::chars_slice_to_string(&v, 0, end);
    proof {
        assert(s@ =~= v@.take(end as int));
    }
    s.append(path);
    s
}

/// How many results a search asks for: the requested count (default 5)
/// clamped to 1..=10.
pub fn clamp_max_results(requested: Option<i64>) -> (r: i64)
    ensures
        r == ({
            let n = match requested {
                Some(n) => n,
                None => DEFAULT_MAX_RESULTS,
            };
            if n < 1 {
                1
            } else if n > 10 {
                10
            } else {
                n
            }
        }),
{
    let n = match requested {
        Some(n) => n,
        None => DEFAULT_MAX_RESULTS,
    };
    if n < 1 {
        1
    } else if n > 10 {
        10
    } else {
        n
    }
}

/// One search result: title, URL and content (empty when absent).
#[derive(Debug, Clone)]
pub struct SearchHit {
    pub title: String,
    pub url: String,
    pub content: String,
}

/// The `min(n, len)` first characters of `s`.
pub open spec fn prefix_chars(s: Seq<char>, n: nat) -> Seq<char> {
    s.take(
        if n < s.len() {
            n as int
        } else {
            s.len() as int
        },
    )
}

/// One rendered result: `<n>. <title>\n   <url>\n   <snippet>`.
pub open spec fn hit_block(n: nat, h: SearchHit) -> Seq<char> {
    dec(n) + ". "@ + h.title@ + "\n   "@ + h.url@ + "\n   "@ + prefix_chars(h.content@, MAX_SNIPPET_CHARS as nat)
}

/// The results rendered one per block, numbered from 1, separated by
/// newlines.
pub open spec fn results_text(hits: Seq<SearchHit>) -> Seq<char>
    decreases hits.len(),
{
    if hits.len() == 0 {
        Seq::empty()
    } else if hits.len() == 1 {
        hit_block(1, hits[0])
    } else {
        results_text(hits.drop_last()) + "\n"@ + hit_block(hits.len(), hits.last())
    }
}

/// Render search results: `No results found for: <query>` when there are
/// none, else the numbered blocks. A response without a results array is
/// an error.
pub fn format_results(results: Option<&Vec<SearchHit>>, query: &str) -> (r: Result<String, String>)
    ensures
        match results {
            None => r matches Err(e) && e@ == "Missing results in Tavily response"@,
            Some(hits) => r matches Ok(s) && s@ == if hits@.len() == 0 {
                "No results found for: "@ + query@
            } else {
                results_text(hits@)
            },
        },
{
    let hits = match results {
        None => return Err(to_owned("Missing results in Tavily response")),
        Some(h) => h,
    };
    if hits.len() == 0 {
        let mut s = to_owned("No results found for: ");
        s.append(query);
        return Ok(s);
    }
    let mut out = String::new();
    let mut i: usize = 0;
    while i < hits.len()
        invariant
            0 <= i <= hits@.len(),
            out@ == results_text(hits@.take(i as int)),
        decreases hits.len() - i,
    {
        proof {
            assert(hits@.take(i + 1).drop_last() =~= hits@.take(i as int));
            assert(hits@.take(i + 1).last() == hits@[i as int]);
            if i == 0 {
                assert(hits@.take(1)[0] == hits@[0]);
            }
        }
        let h = &hits[i];
        if i > 0 {
            out.append("\n");
        }
        out.append(u64_to_string((i + 1) as u64).as_str());
        out.append(". ");
        out.append(h.title.as_str());
        out.append("\n   ");
        out.append(h.url.as_str());
        out.append("\n   ");
        out.append(take_chars(h.content.as_str(), MAX_SNIPPET_CHARS).as_str());
        proof {
            assert(hits@.take(0) =~= Seq::<SearchHit>::empty());
        }
        i += 1;
    }
    proof {
        assert(hits@.take(hits@.len() as int) =~= hits@);
    }
    Ok(out)
}

/// One extracted page: its URL and raw content (empty when absent).
#[derive(Debug, Clone)]
pub struct ExtractedPage {
    pub url: String,
    pub raw_content: String,
}

/// One rendered page: `== <url> ==\n` and the content, or
/// `(no content extracted)`.
pub open spec fn page_block(p: ExtractedPage) -> Seq<char> {
    "== "@ + p.url@ + " ==\n"@ + if p.raw_content@.len() == 0 {
        "(no content extracted)"@
    } else {
        p.raw_content@
    }
}

/// The pages rendered, separated by newlines.
pub open spec fn pages_text(pages: Seq<ExtractedPage>) -> Seq<char>
    decreases pages.len(),
{
    if pages.len() == 0 {
        Seq::empty()
    } else if pages.len() == 1 {
        page_block(pages[0])
    } else {
        pages_text(pages.drop_last()) + "\n"@ + page_block(pages.last())
    }
}

/// Text capped at `MAX_OUTPUT_CHARS` characters: a longer text keeps its
/// first characters and ends with the truncation marker, exactly at the
/// cap.
pub open spec fn capped(text: Seq<char>) -> Seq<char> {
    if text.len() > MAX_OUTPUT_CHARS {
        text.take(MAX_OUTPUT_CHARS - 13) + TRUNCATION_MARKER@
    } else {
        text
    }
}

/// The failed URLs joined by `, `.
pub open spec fn comma_join(urls: Seq<String>) -> Seq<char>
    decreases urls.len(),
{
    if urls.len() == 0 {
        Seq::empty()
    } else if urls.len() == 1 {
        urls[0]@
    } else {
        comma_join(urls.drop_last()) + ", "@ + urls.last()@
    }
}

/// What an extract answer is.
pub open spec fn extract_text(pages: Seq<ExtractedPage>, failed: Seq<String>) -> Seq<char> {
    capped(pages_text(pages)) + if failed.len() == 0 {
        Seq::empty()
    } else {
        "\n\nFailed to fetch: "@ + comma_join(failed)
    }
}

/// Render extracted pages, capped at 8000 characters, then the URLs that
/// failed. A response without a results array is an error.
pub fn format_extract(results: Option<&Vec<ExtractedPage>>, failed_urls: &Vec<String>) -> (r: Result<String, String>)
    ensures
        match results {
            None => r matches Err(e) && e@ == "Missing results in Tavily response"@,
            Some(pages) => r matches Ok(s) && s@ == extract_text(pages@, failed_urls@),
        },
{
    let pages = match results {
        None => return Err(to_owned("Missing results in Tavily response")),
        Some(p) => p,
    };
    let mut out = String::new();
    let mut i: usize = 0;
    while i < pages.len()
        invariant
            0 <= i <= pages@.len(),
            out@ == pages_text(pages@.take(i as int)),
        decreases pages.len() - i,
    {
        proof {
            assert(pages@.take(i + 1).drop_last() =~= pages@.take(i as int));
            assert(pages@.take(i + 1).last() == pages@[i as int]);
            if i == 0 {
                assert(pages@.take(1)[0] == pages@[0]);
                assert(pages@.take(0) =~= Seq::<ExtractedPage>::empty());
            }
        }
        let p = &pages[i];
        if i > 0 {
            out.append("\n");
        }
        out.append("== ");
        out.append(p.url.as_str());
        out.append(" ==\n");
        if p.raw_content.unicode_len() == 0 {
            out.append("(no content extracted)");
        } else {
            out.append(p.raw_content.as_str());
        }
        i += 1;
    }
    proof {
        assert(pages@.take(pages@.len() as int) =~= pages@);
        reveal_strlit("[… truncated]");
    }
    let n = out.unicode_len();
    if n > MAX_OUTPUT_CHARS {
        let mut cut = take_chars(out.as_str(), MAX_OUTPUT_CHARS - 13);
        cut.append(TRUNCATION_MARKER);
        out = cut;
    }
    if failed_urls.len() > 0 {
        out.append("\n\nFailed to fetch: ");
        let mut j: usize = 0;
        let ghost base = out@;
        while j < failed_urls.len()
            invariant
                0 <= j <= failed_urls@.len(),
                out@ == base + comma_join(failed_urls@.take(j as int)),
            decreases failed_urls.len() - j,
        {
            proof {
                assert(failed_urls@.take(j + 1).drop_last() =~= failed_urls@.take(j as int));
                assert(failed_urls@.take(j + 1).last() == failed_urls@[j as int]);
                if j == 0 {
                    assert(failed_urls@.take(1)[0] == failed_urls@[0]);
                    assert(failed_urls@.take(0) =~= Seq::<String>::empty());
                }
            }
            if j > 0 {
                out.append(", ");
            }
            out.append(failed_urls[j].as_str());
            j += 1;
        }
        proof {
            assert(failed_urls@.take(failed_urls@.len() as int) =~= failed_urls@);
        }
    }
    Ok(out)
}

} // verus!
