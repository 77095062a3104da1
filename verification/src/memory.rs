//! The long-term memory: a Markdown file of remembered facts, one per line.
pub mod tools;

use vstd::prelude::*;
use crate::clock::{minute_utc, utc_minute_text};
use crate::paths::{join, join_path};
use crate::text::{
    cat3, contains, contains_seq, lemma_views_push, lines, lines_of, lowercased, owned,
    to_lowercase, trim, trimmed, views,
};

verus! {

/// Where the memory file lives.
#[derive(Debug, Clone)]
pub struct MemoryStore {
    file_path: String,
}

/// The lines of the memory that mention the query, ignoring case.
pub open spec fn matching_lines(ls: Seq<Seq<char>>, query: Seq<char>) -> Seq<Seq<char>>
    decreases ls.len(),
{
    if ls.len() == 0 {
        seq![]
    } else {
        let rest = matching_lines(ls.drop_last(), query);
        if contains_seq(lowercased(ls.last()), lowercased(query)) {
            rest.push(ls.last())
        } else {
            rest
        }
    }
}

/// Whether a line mentions the query, case set aside on both sides.
pub open spec fn mentions(line: Seq<char>, query: Seq<char>) -> bool {
    contains_seq(lowercased(line), lowercased(query))
}

proof fn lemma_matching_is_filter(ls: Seq<Seq<char>>, query: Seq<char>)
    ensures
        matching_lines(ls, query) == ls.filter(|l: Seq<char>| mentions(l, query)),
    decreases ls.len(),
{
    reveal(Seq::filter);
    if ls.len() > 0 {
        lemma_matching_is_filter(ls.drop_last(), query);
    }
}

/// Searching the memory ignores case on both sides: the lines found are exactly the lines of
/// the memory that, lowered, contain the lowered query, in the order of the memory. Every line
/// found is such a line of the memory, and every such line is found.
pub proof fn law_search_ignores_case(ls: Seq<Seq<char>>, query: Seq<char>)
    ensures
        matching_lines(ls, query) == ls.filter(|l: Seq<char>| mentions(l, query)),
        forall|k: int|
            0 <= k < matching_lines(ls, query).len() ==> mentions(
                #[trigger] matching_lines(ls, query)[k],
                query,
            ) && ls.contains(matching_lines(ls, query)[k]),
        forall|i: int|
            0 <= i < ls.len() && mentions(ls[i], query) ==> #[trigger] matching_lines(ls, query).contains(
                ls[i],
            ),
{
    broadcast use vstd::seq_lib::group_filter_ensures;

    lemma_matching_is_filter(ls, query);
    let pred = |l: Seq<char>| mentions(l, query);
    let f = ls.filter(pred);
    assert forall|k: int| 0 <= k < f.len() implies mentions(#[trigger] f[k], query) && ls.contains(f[k]) by {
        ls.lemma_filter_pred(pred, k);
        assert(f.contains(f[k]));
        ls.lemma_filter_contains_rev(pred, f[k]);
    }
    assert forall|i: int| 0 <= i < ls.len() && mentions(ls[i], query) implies #[trigger] f.contains(ls[i]) by {
        ls.lemma_filter_contains(pred, i);
    }
}

/// The memory file under a storage directory: `memory/MEMORY.md`.
pub open spec fn memory_file_of(dir: Seq<char>) -> Seq<char> {
    join_path(join_path(dir, "memory"@), "MEMORY.md"@)
}

impl MemoryStore {
    /// The memory kept in `file_path` (which the caller creates).
    pub fn at(file_path: &str) -> (m: MemoryStore)
        ensures
            m.path() == file_path@,
    {
        MemoryStore { file_path: owned(file_path) }
    }

    /// The memory file.
    pub closed spec fn path(&self) -> Seq<char> {
        self.file_path@
    }

    /// The memory file.
    pub fn file_path(&self) -> (r: &str)
        ensures
            r@ == self.path(),
    {
        self.file_path.as_str()
    }

    /// The memory file of a storage directory.
    pub fn memory_file(storage_dir: &str) -> (r: String)
        ensures
            r@ == memory_file_of(storage_dir@),
    {
        let d = join(storage_dir, "memory");
        join(d.as_str(), "MEMORY.md")
    }

    /// The text of a new memory file.
    pub fn initial_text() -> (r: String)
        ensures
            r@ == "# 长期记忆库 (Long-term Memories)\n\n"@,
    {
        owned("# 长期记忆库 (Long-term Memories)\n\n")
    }

    /// The line appended for a fact: `- [stamp] fact`, the fact trimmed.
    pub fn entry_line(stamp: &str, fact: &str) -> (r: String)
        ensures
            r@ == "- ["@ + stamp@ + "] "@ + trimmed(fact@) + "\n"@,
    {
        let t = trim(fact);
        let a = cat3("- [", stamp, "] ");
        cat3(a.as_str(), t.as_str(), "\n")
    }

    /// The memory line for `fact` recorded at `now` (milliseconds since the epoch), stamped to
    /// the minute; `None` where chrono has no instant for `now`.
    pub fn entry_at(now: i64, fact: &str) -> (r: Option<String>)
        ensures
            r is Some <==> utc_minute_text(now) is Some,
            r matches Some(l) ==> l@ == "- ["@ + utc_minute_text(now)->0 + "] "@ + trimmed(fact@)
                + "\n"@,
    {
        match minute_utc(now) {
            Some(stamp) => Some(Self::entry_line(stamp.as_str(), fact)),
            None => None,
        }
    }

    /// The lines of the memory text `content` that contain `query`, both compared in lower
    /// case.
    pub fn search(content: &str, query: &str) -> (r: Vec<String>)
        ensures
            views(r@) == matching_lines(lines_of(content@), query@),
    {
        let q_lower = to_lowercase(query);
        let ls = lines(content);
        let ghost lsv = lines_of(content@);
        assert(views(ls@) =~= lsv);
        let mut out: Vec<String> = Vec::new();
        let mut i: usize = 0;
        while i < ls.len()
            invariant
                views(ls@) == lsv,
                q_lower@ == lowercased(query@),
                i <= ls@.len(),
                views(out@) == matching_lines(lsv.take(i as int), query@),
            decreases ls@.len() - i,
        {
            proof {
                assert(lsv.take(i + 1).drop_last() =~= lsv.take(i as int));
                assert(lsv.take(i + 1).last() == ls@[i as int]@);
            }
            let l = to_lowercase(ls[i].as_str());
            if contains(l.as_str(), q_lower.as_str()) {
                let s = owned(ls[i].as_str());
                proof {
                    lemma_views_push(out@, s);
                }
                out.push(s);
            }
            i = i + 1;
        }
        assert(lsv.take(ls@.len() as int) =~= lsv);
        out
    }
}

} // verus!
