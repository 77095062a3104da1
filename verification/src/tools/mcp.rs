//! Tools served by an MCP server over JSON-RPC: request ids, tool definitions, and what a
//! tool call hands back.
use vstd::prelude::*;
use crate::text::{cat, cat3, owned, views};
use crate::tools::ToolResult;

verus! {

/// The ids of the JSON-RPC requests to one server: 1, 2, 3, ... (wrapping like an atomic
/// `fetch_add`).
#[derive(Debug)]
pub struct RequestIds {
    pub next: u64,
}

/// A tool as an MCP server describes it; its input schema is kept as JSON text.
#[derive(Debug, Clone)]
pub struct McpToolDefinition {
    pub name: String,
    pub description: Option<String>,
    pub input_schema: String,
}

/// A tool of an MCP server as the agent offers it.
#[derive(Debug, Clone)]
pub struct McpToolWrapper {
    pub name: String,
    pub description: String,
    pub schema: String,
}

/// The text parts of a tool call's content, one per line, skipping the separator while the
/// text so far is empty.
pub open spec fn content_text(texts: Seq<Seq<char>>) -> Seq<char>
    decreases texts.len(),
{
    if texts.len() == 0 {
        seq![]
    } else {
        let before = content_text(texts.drop_last());
        if before.len() == 0 {
            texts.last()
        } else {
            before + "\n"@ + texts.last()
        }
    }
}

impl RequestIds {
    /// Ids starting at 1.
    pub fn new() -> (r: RequestIds)
        ensures
            r.next == 1,
    {
        RequestIds { next: 1 }
    }

    /// The id of the next request; the one after it follows, wrapping at `u64::MAX`.
    pub fn take(&mut self) -> (id: u64)
        ensures
            id_step(*old(self), *final(self), id),
    {
        let id = self.next;
        self.next = if id == u64::MAX {
            0
        } else {
            id + 1
        };
        id
    }
}

impl McpToolWrapper {
    /// The tool as offered: the server's name and schema, and its description or an empty one.
    pub fn new(def: McpToolDefinition) -> (w: McpToolWrapper)
        ensures
            w.name@ == def.name@,
            w.schema@ == def.input_schema@,
            w.description@ == match def.description {
                Some(d) => d@,
                None => Seq::<char>::empty(),
            },
    {
        let description = match def.description {
            Some(d) => d,
            None => String::new(),
        };
        McpToolWrapper { name: def.name, description, schema: def.input_schema }
    }

    /// The joined text parts of a tool call's content.
    pub fn content_text(texts: &Vec<String>) -> (r: String)
        ensures
            r@ == content_text(views(texts@)),
    {
        let mut out = String::new();
        let mut i: usize = 0;
        while i < texts.len()
            invariant
                i <= texts@.len(),
                out@ == content_text(views(texts@).take(i as int)),
            decreases texts.len() - i,
        {
            let ghost pre = views(texts@).take(i as int);
            if out.as_str().unicode_len() == 0 {
                out = cat(out.as_str(), texts[i].as_str());
            } else {
                out = cat3(out.as_str(), "\n", texts[i].as_str());
            }
            proof {
                let nxt = views(texts@).take(i + 1);
                assert(nxt.drop_last() =~= pre);
                assert(nxt.last() == texts@[i as int]@);
            }
            i = i + 1;
        }
        assert(views(texts@).take(texts@.len() as int) =~= views(texts@));
        out
    }

    /// What a tool call hands back: the joined text parts of its content, or the whole reply
    /// as pretty JSON when they are empty; an error when the server flagged one.
    pub fn call_result(texts: &Vec<String>, is_error: bool, reply_json: &str) -> (r: ToolResult)
        ensures
            r.is_error == is_error,
            r.output@ == if content_text(views(texts@)).len() == 0 {
                reply_json@
            } else {
                content_text(views(texts@))
            },
    {
        let out = Self::content_text(texts);
        let output = if out.as_str().unicode_len() == 0 {
            owned(reply_json)
        } else {
            out
        };
        ToolResult { output, is_error }
    }
}

/// Taking one id: `id` is the next one, and the one after it follows, wrapping at `u64::MAX`.
pub open spec fn id_step(r0: RequestIds, r1: RequestIds, id: u64) -> bool {
    &&& id == r0.next
    &&& r1.next == if r0.next == u64::MAX {
        0
    } else {
        (r0.next + 1) as u64
    }
}

/// The id taken into position `i` of a run.
pub open spec fn id_at(rs: Seq<RequestIds>, ids: Seq<u64>, i: int) -> bool {
    id_step(rs[i], rs[i + 1], ids[i])
}

/// The requests to a server are numbered 1, 2, 3, ... in the order they are sent: the `i`-th
/// id taken (counted from 0) from fresh ids is `i + 1`, as long as no wrap-around happened.
pub proof fn law_request_ids_count_up(rs: Seq<RequestIds>, ids: Seq<u64>)
    requires
        rs.len() == ids.len() + 1,
        rs[0].next == 1,
        ids.len() < u64::MAX,
        forall|i: int| 0 <= i < ids.len() ==> #[trigger] id_at(rs, ids, i),
    ensures
        forall|i: int| 0 <= i < ids.len() ==> #[trigger] ids[i] == i + 1,
{
    assert forall|i: int| 0 <= i < ids.len() implies #[trigger] ids[i] == i + 1 by {
        lemma_ids_prefix(rs, ids, i);
        assert(id_at(rs, ids, i));
    }
}

proof fn lemma_ids_prefix(rs: Seq<RequestIds>, ids: Seq<u64>, k: int)
    requires
        rs.len() == ids.len() + 1,
        rs[0].next == 1,
        ids.len() < u64::MAX,
        forall|i: int| 0 <= i < ids.len() ==> #[trigger] id_at(rs, ids, i),
        0 <= k < rs.len(),
    ensures
        rs[k].next == k + 1,
    decreases k,
{
    if k > 0 {
        lemma_ids_prefix(rs, ids, k - 1);
        assert(id_at(rs, ids, k - 1));
    }
}

} // verus!
