//! The `web_fetch` tool: what it keeps of a fetched page, and its report.
use vstd::prelude::*;
use vstd::utf8::{encode_utf8, is_char_boundary};
use crate::text::{byte_len, byte_prefix, cat, join, join_seq, lines, lines_of, owned, prefix_bytes};
use crate::text::{trim, trimmed, views};
use crate::tools::ToolResult;

verus! {

/// The `web_fetch` tool.
pub struct WebFetchTool;

/// How many bytes of page text the report shows at most.
pub const PAGE_TEXT_LIMIT: usize = 4000;

/// Whether a trimmed line of a page is kept: it is not empty, does not start with `<` and
/// does not end with `>`.
pub open spec fn shows_line(l: Seq<char>) -> bool {
    &&& l.len() > 0
    &&& l[0] != '<'
    &&& l[l.len() - 1] != '>'
}

/// The kept lines of a page, each trimmed, in order.
pub open spec fn kept_lines(ls: Seq<Seq<char>>) -> Seq<Seq<char>>
    decreases ls.len(),
{
    if ls.len() == 0 {
        seq![]
    } else {
        let rest = kept_lines(ls.drop_last());
        let t = trimmed(ls.last());
        if shows_line(t) {
            rest.push(t)
        } else {
            rest
        }
    }
}

/// The text of a page: its kept lines joined by newlines.
pub open spec fn page_text(body: Seq<char>) -> Seq<char> {
    join_seq(kept_lines(lines_of(body)), "\n"@)
}

/// Where the page text can be cut: it fits, or its limit falls on a character boundary.
pub open spec fn cuttable(text: Seq<char>) -> bool {
    byte_len(text) > PAGE_TEXT_LIMIT ==> is_char_boundary(encode_utf8(text), PAGE_TEXT_LIMIT as int)
}

/// The page text as shown: whole when it fits in the limit, else its first bytes and a note.
pub open spec fn page_summary(text: Seq<char>) -> Seq<char> {
    if byte_len(text) > PAGE_TEXT_LIMIT {
        byte_prefix(text, PAGE_TEXT_LIMIT as int) + "...\n（内容过长，已截断展示前 4000 字符）"@
    } else {
        text
    }
}

/// The tool's report on a fetched page.
pub open spec fn fetch_report(status: Seq<char>, url: Seq<char>, text: Seq<char>) -> Seq<char> {
    "HTTP "@ + status + " 来自 "@ + url + ":\n"@ + page_summary(text)
}

impl WebFetchTool {
    /// The text of a fetched page: its lines trimmed, without the empty ones and those that
    /// start with `<` or end with `>`, joined by newlines.
    pub fn page_text(body: &str) -> (r: String)
        ensures
            r@ == page_text(body@),
    {
        let ls = lines(body);
        let ghost src = lines_of(body@);
        let mut kept: Vec<String> = Vec::new();
        let mut i: usize = 0;
        while i < ls.len()
            invariant
                i <= ls.len(),
                ls@.len() == src.len(),
                forall|k: int| 0 <= k < ls@.len() ==> #[trigger] ls@[k]@ == src[k],
                views(kept@) == kept_lines(src.take(i as int)),
            decreases ls.len() - i,
        {
            let t = trim(ls[i].as_str());
            let n = t.as_str().unicode_len();
            let keep = n > 0 && t.as_str().get_char(0) != '<' && t.as_str().get_char(n - 1) != '>';
            proof {
                let nxt = src.take(i + 1);
                assert(nxt.drop_last() =~= src.take(i as int));
                assert(nxt.last() == ls@[i as int]@);
                assert(keep == shows_line(t@));
            }
            if keep {
                proof {
                    crate::text::lemma_views_push(kept@, t);
                }
                kept.push(t);
            }
            i = i + 1;
        }
        assert(src.take(ls.len() as int) =~= src);
        join(&kept, "\n")
    }

    /// The page text as the report shows it: whole when it is at most 4000 bytes long, else
    /// its first 4000 bytes and a note that it was cut.
    pub fn summary(text: &str) -> (r: String)
        requires
            cuttable(text@),
        ensures
            r@ == page_summary(text@),
    {
        if text.len() > PAGE_TEXT_LIMIT {
            let head = prefix_bytes(text, PAGE_TEXT_LIMIT);
            cat(head.as_str(), "...\n（内容过长，已截断展示前 4000 字符）")
        } else {
            owned(text)
        }
    }

    /// The report on a fetched page, from the response's status line (such as `200 OK`), the
    /// URL and the page text.
    pub fn report(status: &str, url: &str, text: &str) -> (r: ToolResult)
        requires
            cuttable(text@),
        ensures
            !r.is_error,
            r.output@ == fetch_report(status@, url@, text@),
    {
        let summary = Self::summary(text);
        let a = cat("HTTP ", status);
        let b = cat(a.as_str(), " 来自 ");
        let c = cat(b.as_str(), url);
        let d = cat(c.as_str(), ":\n");
        ToolResult::success(cat(d.as_str(), summary.as_str()))
    }
}

} // verus!
