//! Shared Context7 REST API rules: input clamps (page, free-text length),
//! library-id normalisation, and the cap on the docs payload returned to
//! the model.
use vstd::prelude::*;

use crate::text::{dec, is_ws, str_chars, take_chars, to_owned, trim, trim_string, u64_to_string};
use crate::tools::tavily::prefix_chars;

verus! {

/// The Context7 API base URL.
pub const DEFAULT_CONTEXT7_BASE_URL: &'static str = "https://context7.com";

/// How many search hits are rendered.
pub const MAX_SEARCH_RESULTS: usize = 5;

/// Cap on the docs payload returned to the model, in characters.
pub const MAX_DOCS_OUTPUT_CHARS: usize = 100000;

/// Upper bound of the `page` parameter.
pub const MAX_PAGE: i64 = 100;

/// Cap on free-text inputs (library name, id, topic), in characters.
pub const MAX_INPUT_CHARS: usize = 512;

/// Appended where the docs payload was cut.
pub const TRUNCATION_MARKER: &'static str = "[… truncated: docs payload exceeded the 100 KB cap]";

/// Clamp a page parameter to 1..=100.
pub fn clamp_page(page: i64) -> (r: i64)
    ensures
        r == if page < 1 {
            1
        } else if page > MAX_PAGE {
            MAX_PAGE
        } else {
            page
        },
{
    if page < 1 {
        1
    } else if page > MAX_PAGE {
        MAX_PAGE
    } else {
        page
    }
}

/// A free-text input cut to its first 512 characters.
pub fn clamp_input(text: &str) -> (r: String)
    ensures
        r@ == prefix_chars(text@, MAX_INPUT_CHARS as nat),
{
    take_chars(text, MAX_INPUT_CHARS)
}

/// `s` without its leading slashes (`trim_start_matches('/')`).
pub open spec fn trim_leading_slashes(s: Seq<char>) -> Seq<char>
    decreases s.len(),
{
    if s.len() > 0 && s[0] == '/' {
        trim_leading_slashes(s.drop_first())
    } else {
        s
    }
}

/// The library id sent to the docs endpoint: trimmed, leading slashes
/// removed, cut to 512 characters.
pub open spec fn library_id_spec(id: Seq<char>) -> Seq<char> {
    prefix_chars(trim_leading_slashes(trim(id)), MAX_INPUT_CHARS as nat)
}

/// Normalise a library id for the docs endpoint; an empty result is
/// refused.
pub fn normalize_library_id(id: &str) -> (r: Result<String, &'static str>)
    ensures
        if library_id_spec(id@).len() == 0 {
            r matches Err(e) && e@ == "context7_compatible_library_id must not be empty"@
        } else {
            r matches Ok(s) && s@ == library_id_spec(id@)
        },
{
    let t = trim_string(id);
    let v = str_chars(t.as_str());
    let mut start: usize = 0;
    proof {
        assert(v@.skip(0) =~= v@);
    }
    while start < v.len() && v[start] == '/'
        invariant
            v@ == trim(id@),
            0 <= start <= v@.len(),
            trim_leading_slashes(v@) == trim_leading_slashes(v@.skip(start as int)),
        decreases v.len() - start,
    {
        proof {
            assert(v@.skip(start as int).drop_first() =~= v@.skip(start + 1));
        }
        start += 1;
    }
    proof {
        assert(v@.skip(0) =~= v@);
    }
    let rest = crate::text::chars_slice_to_string(&v, start, v.len());
    proof {
        assert(rest@ =~= v@.skip(start as int));
    }
    let out = take_chars(rest.as_str(), MAX_INPUT_CHARS);
    if out.unicode_len() == 0 {
        return Err("context7_compatible_library_id must not be empty");
    }
    Ok(out)
}

/// The library name sent to the search endpoint: cut to 512 characters;
/// one that is blank after trimming is refused.
pub fn library_name_input(name: &str) -> (r: Result<String, &'static str>)
    ensures
        if trim(prefix_chars(name@, MAX_INPUT_CHARS as nat)).len() == 0 {
            r matches Err(e) && e@ == "library_name must not be empty"@
        } else {
            r matches Ok(s) && s@ == prefix_chars(name@, MAX_INPUT_CHARS as nat)
        },
{
    let n = take_chars(name, MAX_INPUT_CHARS);
    let t = trim_string(n.as_str());
    if t.unicode_len() == 0 {
        return Err("library_name must not be empty");
    }
    Ok(n)
}

/// The docs payload capped at 100000 characters: a longer body keeps its
/// first characters and ends with the truncation marker, exactly at the
/// cap.
pub open spec fn capped_docs(body: Seq<char>) -> Seq<char> {
    if body.len() > MAX_DOCS_OUTPUT_CHARS {
        body.take(MAX_DOCS_OUTPUT_CHARS - 51) + TRUNCATION_MARKER@
    } else {
        body
    }
}

/// Cap the docs payload returned to the model.
pub fn cap_docs(body: &str) -> (r: String)
    ensures
        r@ == capped_docs(body@),
        r@.len() <= MAX_DOCS_OUTPUT_CHARS,
{
    proof {
        reveal_strlit("[… truncated: docs payload exceeded the 100 KB cap]");
    }
    if body.unicode_len() > MAX_DOCS_OUTPUT_CHARS {
        let mut s = take_chars(body, MAX_DOCS_OUTPUT_CHARS - 51);
        s.append(TRUNCATION_MARKER);
        s
    } else {
        to_owned(body)
    }
}

/// The docs endpoint of a library: `<base>/api/v1/<id>`.
pub fn docs_url(base_url: &str, library_id: &str) -> (r: String)
    ensures
        r@ == crate::tools::tavily::trim_trailing_slashes(base_url@) + "/api/v1/"@ + library_id@,
{
    let mut s = crate::tools::tavily::api_url(base_url, "/api/v1/");
    s.append(library_id);
    s
}


/// One library of a Context7 search response: its id, title and
/// description (empty when absent), its two scores already rendered with
/// one and two decimals, its token count and whether it is verified.
#[derive(Debug, Clone)]
pub struct LibraryHit {
    pub id: String,
    pub title: String,
    pub description: String,
    pub trust: String,
    pub benchmark: String,
    pub total_tokens: i64,
    pub verified: bool,
}

/// The decimal rendering of a signed integer.
pub open spec fn int_text(n: int) -> Seq<char> {
    if n < 0 {
        "-"@ + dec((-n) as nat)
    } else {
        dec(n as nat)
    }
}

/// `true` or `false`.
pub open spec fn bool_text(b: bool) -> Seq<char> {
    if b {
        "true"@
    } else {
        "false"@
    }
}

/// One rendered library:
/// `<n>. <title> (<id>)\n   trust <t>, benchmark <b>, tokens <k>, verified: <v>\n   <snippet>`.
pub open spec fn library_block(n: nat, h: LibraryHit) -> Seq<char> {
    dec(n) + ". "@ + h.title@ + " ("@ + h.id@ + ")\n   trust "@ + h.trust@ + ", benchmark "@ + h.benchmark@
        + ", tokens "@ + int_text(h.total_tokens as int) + ", verified: "@ + bool_text(h.verified) + "\n   "@
        + prefix_chars(h.description@, 500)
}

/// The libraries rendered one per block, numbered from 1, separated by
/// newlines.
pub open spec fn libraries_text(hits: Seq<LibraryHit>) -> Seq<char>
    decreases hits.len(),
{
    if hits.len() == 0 {
        Seq::empty()
    } else if hits.len() == 1 {
        library_block(1, hits[0])
    } else {
        libraries_text(hits.drop_last()) + "\n"@ + library_block(hits.len(), hits.last())
    }
}

/// Decimal rendering of a signed integer (`n.to_string()`).
pub fn i64_to_string(n: i64) -> (r: String)
    ensures
        r@ == int_text(n as int),
{
    if n < 0 {
        let m: u64 = ((-(n + 1)) as u64) + 1;
        let mut s = to_owned("-");
        s.append(u64_to_string(m).as_str());
        s
    } else {
        u64_to_string(n as u64)
    }
}

/// One library rendered as a block (see `library_block`).
fn render_library(n: u64, h: &LibraryHit) -> (r: String)
    ensures
        r@ == library_block(n as nat, *h),
{
    let mut out = u64_to_string(n);
    out.append(". ");
    out.append(h.title.as_str());
    out.append(" (");
    out.append(h.id.as_str());
    out.append(")\n   trust ");
    out.append(h.trust.as_str());
    out.append(", benchmark ");
    out.append(h.benchmark.as_str());
    out.append(", tokens ");
    out.append(i64_to_string(h.total_tokens).as_str());
    out.append(", verified: ");
    if h.verified {
        out.append("true");
    } else {
        out.append("false");
    }
    out.append("\n   ");
    out.append(take_chars(h.description.as_str(), 500).as_str());
    out
}

/// Render a library search: `No Context7 libraries found for: <name>` when
/// there are none, else the first five libraries as numbered blocks. A
/// response without a results array is an error.
pub fn format_search_results(results: Option<&Vec<LibraryHit>>, library_name: &str) -> (r: Result<String, String>)
    ensures
        match results {
            None => r matches Err(e) && e@ == "Missing results in Context7 response"@,
            Some(hits) => r matches Ok(s) && s@ == if hits@.len() == 0 {
                "No Context7 libraries found for: "@ + library_name@
            } else {
                libraries_text(prefix_hits(hits@))
            },
        },
{
    let hits = match results {
        None => return Err(to_owned("Missing results in Context7 response")),
        Some(h) => h,
    };
    if hits.len() == 0 {
        let mut s = to_owned("No Context7 libraries found for: ");
        s.append(library_name);
        return Ok(s);
    }
    let n: usize = if hits.len() < MAX_SEARCH_RESULTS {
        hits.len()
    } else {
        MAX_SEARCH_RESULTS
    };
    let mut out = String::new();
    let mut i: usize = 0;
    while i < n
        invariant
            n == prefix_hits(hits@).len(),
            n <= hits@.len(),
            0 <= i <= n,
            out@ == libraries_text(hits@.take(i as int)),
        decreases n - i,
    {
        proof {
            assert(hits@.take(i + 1).drop_last() =~= hits@.take(i as int));
            assert(hits@.take(i + 1).last() == hits@[i as int]);
            if i == 0 {
                assert(hits@.take(1)[0] == hits@[0]);
            }
        }
        let block = render_library((i + 1) as u64, &hits[i]);
        if i > 0 {
            out.append("\n");
        }
        out.append(block.as_str());
        proof {
            assert(hits@.take(0) =~= Seq::<LibraryHit>::empty());
        }
        i += 1;
    }
    proof {
        assert(hits@.take(n as int) =~= prefix_hits(hits@));
    }
    Ok(out)
}

/// The first five hits (all of them when there are fewer).
pub open spec fn prefix_hits(hits: Seq<LibraryHit>) -> Seq<LibraryHit> {
    hits.take(
        if hits.len() < MAX_SEARCH_RESULTS {
            hits.len() as int
        } else {
            MAX_SEARCH_RESULTS as int
        },
    )
}

} // verus!
