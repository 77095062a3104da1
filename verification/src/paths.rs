//! Unix path text: joining, and the component-wise queries taken from `std::path`.
use vstd::prelude::*;
use crate::text::{cat, cat3, chars_of, join_seq, opt_chars, owned, str_eq, string_of, views};

verus! {

/// `Path::join` on Unix: an absolute `rel` replaces `base`; otherwise `rel` is appended, with a
/// `/` between them unless `base` is empty or already ends with one.
pub open spec fn join_path(base: Seq<char>, rel: Seq<char>) -> Seq<char> {
    if rel.len() > 0 && rel[0] == '/' {
        rel
    } else if base.len() == 0 || base.last() == '/' {
        base + rel
    } else {
        base + "/"@ + rel
    }
}

/// Joins two paths as `Path::join` does on Unix.
pub fn join(base: &str, rel: &str) -> (r: String)
    ensures
        r@ == join_path(base@, rel@),
{
    let b = chars_of(base);
    let rv = chars_of(rel);
    if rv.len() > 0 && rv[0] == '/' {
        owned(rel)
    } else if b.len() == 0 || b[b.len() - 1] == '/' {
        cat(base, rel)
    } else {
        cat3(base, "/", rel)
    }
}

/// What `Path::parent` gives for a path, as text (the component rules are std's own).
pub uninterp spec fn parent_of(p: Seq<char>) -> Option<Seq<char>>;

/// What `Path::file_name` gives for a path, as text.
pub uninterp spec fn file_name_of(p: Seq<char>) -> Option<Seq<char>>;

/// What `Path::starts_with` answers: `base` is a component-wise prefix of `p`.
pub uninterp spec fn has_path_prefix(p: Seq<char>, base: Seq<char>) -> bool;

/// `Path::parent`, as text; named `parent_of` of the argument.
#[verifier::external_body]
pub fn parent(p: &str) -> (r: Option<String>)
    ensures
        opt_chars(r) == parent_of(p@),
{
    std::path::Path::new(p).parent().map(|q| q.to_string_lossy().into_owned())
}

/// `Path::file_name`, as text; named `file_name_of` of the argument.
#[verifier::external_body]
pub fn file_name(p: &str) -> (r: Option<String>)
    ensures
        opt_chars(r) == file_name_of(p@),
{
    std::path::Path::new(p).file_name().map(|q| q.to_string_lossy().into_owned())
}

/// `Path::starts_with`; named `has_path_prefix` of the arguments.
#[verifier::external_body]
pub fn starts_with(p: &str, base: &str) -> (r: bool)
    ensures
        r == has_path_prefix(p@, base@),
{
    std::path::Path::new(p).starts_with(base)
}

/// A path is absolute when it starts with `/`.
pub open spec fn is_absolute(p: Seq<char>) -> bool {
    p.len() > 0 && p[0] == '/'
}

/// The segments after taking in one more segment: empty and `.` segments are skipped; `..`
/// drops the segment before it, stays at the root of an absolute path, and is kept at the start
/// of a relative one.
pub open spec fn push_segment(st: Seq<Seq<char>>, seg: Seq<char>, abs: bool) -> Seq<Seq<char>> {
    if seg.len() == 0 || seg == "."@ {
        st
    } else if seg == ".."@ {
        if st.len() > 0 && st.last() != ".."@ {
            st.drop_last()
        } else if abs {
            st
        } else {
            st.push(seg)
        }
    } else {
        st.push(seg)
    }
}

/// The segments resolved so far and the segment being read, after the characters of `p`.
pub open spec fn scan_segments(p: Seq<char>, abs: bool) -> (Seq<Seq<char>>, Seq<char>)
    decreases p.len(),
{
    if p.len() == 0 {
        (seq![], seq![])
    } else {
        let sc = scan_segments(p.drop_last(), abs);
        if p.last() == '/' {
            (push_segment(sc.0, sc.1, abs), seq![])
        } else {
            (sc.0, sc.1.push(p.last()))
        }
    }
}

/// The segments of `p` with empty, `.` and `..` segments resolved lexically.
pub open spec fn resolved_segments(p: Seq<char>) -> Seq<Seq<char>> {
    let sc = scan_segments(p, is_absolute(p));
    push_segment(sc.0, sc.1, is_absolute(p))
}

/// The text of resolved segments: joined by `/`, after a leading `/` for an absolute path.
pub open spec fn segments_text(segs: Seq<Seq<char>>, abs: bool) -> Seq<char> {
    if abs {
        seq!['/'] + join_seq(segs, "/"@)
    } else {
        join_seq(segs, "/"@)
    }
}

/// `p` with empty, `.` and `..` segments resolved lexically.
pub open spec fn resolved_path(p: Seq<char>) -> Seq<char> {
    segments_text(resolved_segments(p), is_absolute(p))
}

/// No segment is `..`.
pub open spec fn no_parent_segment(segs: Seq<Seq<char>>) -> bool {
    forall|i: int| 0 <= i < segs.len() ==> segs[i] != ".."@
}

fn push_segment_exec(st: &mut Vec<String>, seg: &Vec<char>, abs: bool)
    ensures
        views(final(st)@) == push_segment(views(old(st)@), seg@, abs),
{
    let s = string_of(seg.as_slice());
    if seg.len() == 0 || str_eq(s.as_str(), ".") {
        return;
    }
    if str_eq(s.as_str(), "..") {
        if st.len() > 0 && !str_eq(st[st.len() - 1].as_str(), "..") {
            let ghost before = st@;
            st.pop();
            assert(views(st@) =~= views(before).drop_last());
        } else if !abs {
            let ghost before = st@;
            st.push(s);
            assert(views(st@) =~= views(before).push(seg@));
        }
    } else {
        let ghost before = st@;
        st.push(s);
        assert(views(st@) =~= views(before).push(seg@));
    }
}

/// The segments of `p`, resolved lexically: empty and `.` segments skipped, each `..`
/// dropping the segment before it (at the root of an absolute path it is dropped itself).
pub fn resolve_segments(p: &str) -> (r: Vec<String>)
    ensures
        views(r@) == resolved_segments(p@),
{
    let cs = chars_of(p);
    let abs = cs.len() > 0 && cs[0] == '/';
    assert(abs == is_absolute(p@));
    let mut st: Vec<String> = Vec::new();
    let mut cur: Vec<char> = Vec::new();
    let mut i: usize = 0;
    while i < cs.len()
        invariant
            cs@ == p@,
            abs == is_absolute(p@),
            i <= cs.len(),
            (views(st@), cur@) == scan_segments(p@.take(i as int), abs),
        decreases cs.len() - i,
    {
        proof {
            assert(p@.take(i + 1).drop_last() =~= p@.take(i as int));
            assert(p@.take(i + 1).last() == cs@[i as int]);
        }
        if cs[i] == '/' {
            push_segment_exec(&mut st, &cur, abs);
            cur = Vec::new();
            assert(cur@ =~= Seq::<char>::empty());
        } else {
            cur.push(cs[i]);
        }
        i = i + 1;
    }
    assert(p@.take(cs.len() as int) =~= p@);
    push_segment_exec(&mut st, &cur, abs);
    st
}

/// The text of resolved segments: joined by `/`, after a leading `/` when `abs`.
pub fn segments_path(segs: &Vec<String>, abs: bool) -> (r: String)
    ensures
        r@ == segments_text(views(segs@), abs),
{
    let body = crate::text::join(segs, "/");
    if abs {
        let r = cat("/", body.as_str());
        proof {
            reveal_strlit("/");
            assert("/"@ =~= seq!['/']);
        }
        r
    } else {
        body
    }
}

/// Whether no segment is `..`.
pub fn has_no_parent_segment(segs: &Vec<String>) -> (r: bool)
    ensures
        r == no_parent_segment(views(segs@)),
{
    let mut i: usize = 0;
    while i < segs.len()
        invariant
            i <= segs@.len(),
            forall|k: int| 0 <= k < i ==> views(segs@)[k] != ".."@,
        decreases segs@.len() - i,
    {
        if str_eq(segs[i].as_str(), "..") {
            assert(views(segs@)[i as int] == ".."@);
            return false;
        }
        i = i + 1;
    }
    true
}

/// `p` with empty, `.` and `..` segments resolved lexically.
pub fn resolve(p: &str) -> (r: String)
    ensures
        r@ == resolved_path(p@),
{
    let segs = resolve_segments(p);
    let abs = p.unicode_len() > 0 && p.get_char(0) == '/';
    segments_path(&segs, abs)
}

proof fn lemma_push_keeps_no_parent(st: Seq<Seq<char>>, seg: Seq<char>)
    requires
        no_parent_segment(st),
    ensures
        no_parent_segment(push_segment(st, seg, true)),
{
    let r = push_segment(st, seg, true);
    assert forall|i: int| 0 <= i < r.len() implies r[i] != ".."@ by {
        if seg.len() == 0 || seg == "."@ || seg == ".."@ {
            assert(r[i] == st[i]);
        } else if i < st.len() {
            assert(r[i] == st[i]);
        }
    }
}

proof fn lemma_scan_no_parent(p: Seq<char>)
    ensures
        no_parent_segment(scan_segments(p, true).0),
    decreases p.len(),
{
    if p.len() > 0 {
        lemma_scan_no_parent(p.drop_last());
        let sc = scan_segments(p.drop_last(), true);
        if p.last() == '/' {
            lemma_push_keeps_no_parent(sc.0, sc.1);
        }
    }
}

/// Resolving an absolute path leaves no `..` segment: at the root, `..` stays at the root.
pub proof fn law_absolute_resolution_has_no_parent(p: Seq<char>)
    requires
        is_absolute(p),
    ensures
        no_parent_segment(resolved_segments(p)),
{
    lemma_scan_no_parent(p);
    let sc = scan_segments(p, true);
    lemma_push_keeps_no_parent(sc.0, sc.1);
}

} // verus!
