//! Where sessions are stored: one JSON-lines file per session, named after its key.
use vstd::prelude::*;
use crate::paths::{join, join_path};
use crate::text::{cat, cat3, chars_of, i64_to_string, lines, lines_of, owned, signed_decimal, string_of};
use crate::text::{lemma_views_push, trim, trimmed, views};

verus! {

/// A directory of session files.
#[derive(Debug, Clone)]
pub struct JsonlStore {
    base_dir: String,
}

/// What one character of a key becomes in a file name: `:` becomes `__`; `/`, `\` and space
/// become `_`; other characters stay.
pub open spec fn encode_char(c: char) -> Seq<char> {
    if c == ':' {
        seq!['_', '_']
    } else if c == '/' || c == '\\' || c == ' ' {
        seq!['_']
    } else {
        seq![c]
    }
}

/// The file-name form of a session key.
pub open spec fn safe_name(k: Seq<char>) -> Seq<char>
    decreases k.len(),
{
    if k.len() == 0 {
        seq![]
    } else {
        encode_char(k[0]) + safe_name(k.drop_first())
    }
}

/// The session key read back from a file name: each `__`, left to right, becomes `:`.
pub open spec fn decode_name(s: Seq<char>) -> Seq<char>
    decreases s.len(),
{
    if s.len() == 0 {
        seq![]
    } else if s.len() >= 2 && s[0] == '_' && s[1] == '_' {
        seq![':'] + decode_name(s.skip(2))
    } else {
        seq![s[0]] + decode_name(s.drop_first())
    }
}

/// The temporary-file form of a key: `/`, `:`, `\` and space become `_`.
pub open spec fn temp_char(c: char) -> char {
    if c == '/' || c == ':' || c == '\\' || c == ' ' {
        '_'
    } else {
        c
    }
}

/// A key read back exactly from its file name: it has no `/`, `\` or space, and no `_`
/// followed by `_` or `:`.
pub open spec fn key_round_trips(k: Seq<char>) -> bool {
    &&& forall|i: int| 0 <= i < k.len() ==> k[i] != '/' && k[i] != '\\' && k[i] != ' '
    &&& forall|i: int| 0 <= i < k.len() - 1 && #[trigger] k[i] == '_' ==> k[i + 1] != '_' && k[i + 1] != ':'
}

proof fn lemma_safe_name_first(k: Seq<char>)
    requires
        k.len() > 0,
        key_round_trips(k),
    ensures
        safe_name(k).len() > 0 && (safe_name(k)[0] == '_' <==> (k[0] == '_' || k[0] == ':')),
        k[0] == ':' ==> safe_name(k).len() >= 2 && safe_name(k)[1] == '_',
{
}

/// Reading a key back from its file name gives the key, for every key that `key_round_trips`
/// accepts.
pub proof fn law_session_key_round_trip(k: Seq<char>)
    requires
        key_round_trips(k),
    ensures
        decode_name(safe_name(k)) == k,
    decreases k.len(),
{
    if k.len() > 0 {
        let rest = k.drop_first();
        assert(key_round_trips(rest)) by {
            assert forall|i: int| 0 <= i < rest.len() implies rest[i] != '/' && rest[i] != '\\'
                && rest[i] != ' ' by {
                assert(rest[i] == k[i + 1]);
            }
            assert forall|i: int| 0 <= i < rest.len() - 1 && #[trigger] rest[i] == '_' implies rest[i + 1]
                != '_' && rest[i + 1] != ':' by {
                assert(rest[i] == k[i + 1]);
                assert(rest[i + 1] == k[i + 2]);
            }
        }
        law_session_key_round_trip(rest);
        let s = safe_name(k);
        let sr = safe_name(rest);
        if k[0] == ':' {
            assert(s == seq!['_', '_'] + sr);
            assert(s.skip(2) =~= sr);
            assert(decode_name(s) =~= seq![':'] + decode_name(sr));
            assert(k =~= seq![':'] + rest);
        } else {
            assert(s == seq![k[0]] + sr);
            assert(s.drop_first() =~= sr);
            if k[0] == '_' && sr.len() > 0 {
                lemma_safe_name_first(rest);
                assert(k[1] == rest[0]);
                assert(sr[0] != '_');
            }
            assert(decode_name(s) =~= seq![k[0]] + decode_name(sr));
            assert(k =~= seq![k[0]] + rest);
        }
    }
}

/// The file-name form of a key.
pub fn encode_key(key: &str) -> (r: String)
    ensures
        r@ == safe_name(key@),
{
    let v = chars_of(key);
    let mut out: Vec<char> = Vec::new();
    let mut i: usize = v.len();
    let ghost k = key@;
    assert(k.skip(v.len() as int) =~= Seq::<char>::empty());
    while i > 0
        invariant
            v@ == k,
            i <= v.len(),
            out@ == safe_name(k.skip(i as int)).reverse(),
        decreases i,
    {
        i = i - 1;
        let c = v[i];
        proof {
            assert(k.skip(i as int).drop_first() =~= k.skip(i + 1));
            assert(k.skip(i as int)[0] == c);
        }
        let ghost before = out@;
        if c == ':' {
            out.push('_');
            out.push('_');
        } else if c == '/' || c == '\\' || c == ' ' {
            out.push('_');
        } else {
            out.push(c);
        }
        proof {
            assert(out@ =~= (encode_char(c) + safe_name(k.skip(i + 1))).reverse());
        }
    }
    assert(k.skip(0) =~= k);
    let mut fwd: Vec<char> = Vec::new();
    let mut j: usize = out.len();
    while j > 0
        invariant
            j <= out@.len(),
            fwd@ == out@.skip(j as int).reverse(),
        decreases j,
    {
        j = j - 1;
        fwd.push(out[j]);
        assert(fwd@ =~= out@.skip(j as int).reverse());
    }
    assert(out@.skip(0) =~= out@);
    assert(fwd@ =~= safe_name(k));
    string_of(fwd.as_slice())
}

/// The session key of a file name: each `__`, left to right, becomes `:`.
pub fn decode_key(name: &str) -> (r: String)
    ensures
        r@ == decode_name(name@),
{
    let v = chars_of(name);
    let mut out: Vec<char> = Vec::new();
    let mut i: usize = 0;
    let ghost s = name@;
    assert(s.skip(0) =~= s);
    while i < v.len()
        invariant
            v@ == s,
            i <= v.len(),
            decode_name(s) == out@ + decode_name(s.skip(i as int)),
        decreases v.len() - i,
    {
        let ghost t = s.skip(i as int);
        if i + 1 < v.len() && v[i] == '_' && v[i + 1] == '_' {
            proof {
                assert(t.skip(2) =~= s.skip(i + 2));
                assert(out@.push(':') + decode_name(s.skip(i + 2)) =~= out@ + (seq![':'] + decode_name(t.skip(2))));
            }
            out.push(':');
            i = i + 2;
        } else {
            proof {
                assert(t.drop_first() =~= s.skip(i + 1));
                assert(out@.push(v@[i as int]) + decode_name(s.skip(i + 1)) =~= out@ + (seq![t[0]]
                    + decode_name(t.drop_first())));
            }
            out.push(v[i]);
            i = i + 1;
        }
    }
    assert(s.skip(v.len() as int) =~= Seq::<char>::empty());
    assert(out@ + Seq::<char>::empty() =~= out@);
    string_of(out.as_slice())
}

/// The temporary file name of an atomic save: `.tmp_<key>_<nanos>`, the key with `/`, `:`,
/// `\` and space replaced by `_`.
pub open spec fn temp_name(key: Seq<char>, nanos: i64) -> Seq<char> {
    ".tmp_"@ + key.map_values(|c: char| temp_char(c)) + "_"@ + signed_decimal(nanos as int)
}

/// A stored session as listed: key, message count, last change (milliseconds since the Unix
/// epoch) and file size.
#[derive(Debug, Clone)]
pub struct SessionSummaryInfo {
    pub session_key: String,
    pub message_count: usize,
    pub updated_at: i64,
    pub file_size_bytes: u64,
}

/// The lines of a session file that hold records: those that are not blank once trimmed, in
/// order.
pub open spec fn record_lines(ls: Seq<Seq<char>>) -> Seq<Seq<char>>
    decreases ls.len(),
{
    if ls.len() == 0 {
        seq![]
    } else if trimmed(ls.last()).len() == 0 {
        record_lines(ls.drop_last())
    } else {
        record_lines(ls.drop_last()).push(ls.last())
    }
}

/// Newest first.
pub open spec fn newest_first(s: Seq<SessionSummaryInfo>) -> bool {
    forall|i: int, j: int| 0 <= i < j < s.len() ==> s[i].updated_at >= s[j].updated_at
}

/// The entries changed at time `t`, in order.
pub open spec fn at_time(s: Seq<SessionSummaryInfo>, t: i64) -> Seq<SessionSummaryInfo>
    decreases s.len(),
{
    if s.len() == 0 {
        seq![]
    } else if s.last().updated_at == t {
        at_time(s.drop_last(), t).push(s.last())
    } else {
        at_time(s.drop_last(), t)
    }
}

impl SessionSummaryInfo {
    fn duplicate(&self) -> (r: SessionSummaryInfo)
        ensures
            r == *self,
    {
        SessionSummaryInfo {
            session_key: self.session_key.clone(),
            message_count: self.message_count,
            updated_at: self.updated_at,
            file_size_bytes: self.file_size_bytes,
        }
    }
}

proof fn lemma_at_time_push(s: Seq<SessionSummaryInfo>, x: SessionSummaryInfo, t: i64)
    ensures
        at_time(s.push(x), t) == if x.updated_at == t {
            at_time(s, t).push(x)
        } else {
            at_time(s, t)
        },
{
    assert(s.push(x).drop_last() =~= s);
}

proof fn lemma_at_time_concat(a: Seq<SessionSummaryInfo>, b: Seq<SessionSummaryInfo>, t: i64)
    ensures
        at_time(a + b, t) == at_time(a, t) + at_time(b, t),
    decreases b.len(),
{
    if b.len() == 0 {
        assert(a + b =~= a);
        assert(at_time(a, t) + at_time(b, t) =~= at_time(a, t));
    } else {
        lemma_at_time_concat(a, b.drop_last(), t);
        assert((a + b).drop_last() =~= a + b.drop_last());
        assert((a + b).last() == b.last());
        if b.last().updated_at == t {
            assert(at_time(a, t) + at_time(b.drop_last(), t).push(b.last()) =~= (at_time(a, t)
                + at_time(b.drop_last(), t)).push(b.last()));
        }
    }
}

proof fn lemma_at_time_none(s: Seq<SessionSummaryInfo>, t: i64)
    requires
        forall|i: int| 0 <= i < s.len() ==> s[i].updated_at != t,
    ensures
        at_time(s, t) == Seq::<SessionSummaryInfo>::empty(),
    decreases s.len(),
{
    if s.len() > 0 {
        lemma_at_time_none(s.drop_last(), t);
    }
}

/// Sorts listed sessions newest first, keeping the order of those changed at the same time
/// (as a stable sort by descending change time does).
pub fn sort_newest_first(list: Vec<SessionSummaryInfo>) -> (r: Vec<SessionSummaryInfo>)
    ensures
        newest_first(r@),
        r@.to_multiset() == list@.to_multiset(),
        forall|t: i64| at_time(r@, t) == at_time(list@, t),
{
    broadcast use vstd::seq_lib::group_to_multiset_ensures;

    let mut out: Vec<SessionSummaryInfo> = Vec::new();
    let mut i: usize = 0;
    assert(list@.take(0) =~= out@);
    while i < list.len()
        invariant
            i <= list@.len(),
            newest_first(out@),
            out@.to_multiset() == list@.take(i as int).to_multiset(),
            forall|t: i64| at_time(out@, t) == at_time(list@.take(i as int), t),
        decreases list@.len() - i,
    {
        let x = list[i].duplicate();
        // insertion point: after every entry at least as new as x
        let mut p: usize = 0;
        while p < out.len() && out[p].updated_at >= x.updated_at
            invariant
                p <= out@.len(),
                forall|k: int| 0 <= k < p ==> out@[k].updated_at >= x.updated_at,
            decreases out@.len() - p,
        {
            p = p + 1;
        }
        let ghost before = out@;
        proof {
            // everything from p on is strictly older than x
            assert forall|k: int| p <= k < before.len() implies before[k].updated_at < x.updated_at by {
                if p < before.len() {
                    assert(before[p as int].updated_at < x.updated_at);
                }
            }
        }
        out.insert(p, x);
        proof {
            let pre = before.take(p as int);
            let post = before.skip(p as int);
            assert(before =~= pre + post);
            assert(out@ =~= pre.push(x) + post);
            assert(list@.take(i + 1) =~= list@.take(i as int).push(list@[i as int]));
            assert forall|t: i64| at_time(out@, t) == at_time(list@.take(i + 1), t) by {
                lemma_at_time_concat(pre, post, t);
                lemma_at_time_concat(pre.push(x), post, t);
                lemma_at_time_push(pre, x, t);
                lemma_at_time_push(list@.take(i as int), x, t);
                if x.updated_at == t {
                    assert forall|k: int| 0 <= k < post.len() implies post[k].updated_at != t by {
                        assert(post[k] == before[p + k]);
                    }
                    lemma_at_time_none(post, t);
                    assert(at_time(pre, t) + at_time(post, t) =~= at_time(pre, t));
                    assert(at_time(pre, t).push(x) + at_time(post, t) =~= at_time(pre, t).push(x));
                }
            }
            assert(out@ == before.insert(p as int, x));
            vstd::seq_lib::to_multiset_insert(before, p as int, x);
            vstd::seq_lib::to_multiset_build(list@.take(i as int), x);
            assert(list@.take(i + 1).to_multiset() =~= list@.take(i as int).to_multiset().insert(x));
            assert forall|a: int, b: int| 0 <= a < b < out@.len() implies out@[a].updated_at
                >= out@[b].updated_at by {
                if b < p {
                } else if b == p {
                } else if a < p {
                    assert(out@[b] == before[b - 1]);
                } else if a == p {
                    assert(out@[b] == before[b - 1]);
                } else {
                    assert(out@[a] == before[a - 1]);
                    assert(out@[b] == before[b - 1]);
                }
            }
        }
        i = i + 1;
    }
    assert(list@.take(list@.len() as int) =~= list@);
    out
}

impl JsonlStore {
    /// A store rooted at `dir` (which the caller creates).
    /// The record lines of a session file's content: its lines that are not blank, in order.
    pub fn records(content: &str) -> (r: Vec<String>)
        ensures
            views(r@) == record_lines(lines_of(content@)),
    {
        let ls = lines(content);
        let ghost src = lines_of(content@);
        let mut out: Vec<String> = Vec::new();
        let mut i: usize = 0;
        while i < ls.len()
            invariant
                i <= ls@.len(),
                ls@.len() == src.len(),
                forall|k: int| 0 <= k < ls@.len() ==> #[trigger] ls@[k]@ == src[k],
                views(out@) == record_lines(src.take(i as int)),
            decreases ls@.len() - i,
        {
            proof {
                assert(src.take(i + 1).drop_last() =~= src.take(i as int));
                assert(src.take(i + 1).last() == ls@[i as int]@);
            }
            let t = trim(ls[i].as_str());
            if t.as_str().unicode_len() > 0 {
                let l = ls[i].clone();
                proof {
                    lemma_views_push(out@, l);
                }
                out.push(l);
            }
            i = i + 1;
        }
        assert(src.take(src.len() as int) =~= src);
        out
    }

    /// A store whose session files lie in `dir`.
    pub fn with_base_dir(dir: &str) -> (s: JsonlStore)
        ensures
            s.base() == dir@,
    {
        JsonlStore { base_dir: owned(dir) }
    }

    /// The directory.
    pub closed spec fn base(&self) -> Seq<char> {
        self.base_dir@
    }

    /// The directory.
    pub fn base_dir(&self) -> (r: &str)
        ensures
            r@ == self.base(),
    {
        self.base_dir.as_str()
    }

    /// The file of a session: `<safe name>.jsonl` in the directory.
    pub fn file_path(&self, session_key: &str) -> (r: String)
        ensures
            r@ == join_path(self.base(), safe_name(session_key@) + ".jsonl"@),
    {
        let safe = encode_key(session_key);
        let name = cat(safe.as_str(), ".jsonl");
        join(self.base_dir.as_str(), name.as_str())
    }

    /// The temporary file of an atomic save of a session, marked with `nanos`.
    pub fn temp_path(&self, session_key: &str, nanos: i64) -> (r: String)
        ensures
            r@ == join_path(self.base(), temp_name(session_key@, nanos)),
    {
        let v = chars_of(session_key);
        let mut out: Vec<char> = Vec::new();
        let mut i: usize = 0;
        while i < v.len()
            invariant
                v@ == session_key@,
                i <= v.len(),
                out@ == session_key@.take(i as int).map_values(|c: char| temp_char(c)),
            decreases v.len() - i,
        {
            let c = v[i];
            let d = if c == '/' || c == ':' || c == '\\' || c == ' ' {
                '_'
            } else {
                c
            };
            out.push(d);
            i = i + 1;
            assert(out@ =~= session_key@.take(i as int).map_values(|c: char| temp_char(c)));
        }
        assert(session_key@.take(v.len() as int) =~= session_key@);
        let k = string_of(out.as_slice());
        let n = i64_to_string(nanos);
        let a = cat3(".tmp_", k.as_str(), "_");
        let name = cat(a.as_str(), n.as_str());
        join(self.base_dir.as_str(), name.as_str())
    }
}

} // verus!
