//! The search tools: file names and file lines matching a regular expression.
use vstd::prelude::*;
use crate::text::{
    cat, cat3, decimal, join, join_seq, lemma_views_push, lines, lines_of, owned, trim, trimmed,
    u64_to_string, views,
};
use crate::tools::ToolResult;

verus! {

/// `regex::Regex`, carried opaquely.
#[verifier::external_type_specification]
#[verifier::external_body]
pub struct ExRegex(regex::Regex);

/// What `regex::Regex::new` reports for a pattern: `None` when it compiles, else the
/// `Display` text of its error (the regex grammar and size limits are the crate's own).
pub uninterp spec fn regex_new_error(pattern: Seq<char>) -> Option<Seq<char>>;

/// What `regex::Regex::is_match` answers: the compiled `pattern` matches somewhere in
/// `haystack`.
pub uninterp spec fn regex_is_match(pattern: Seq<char>, haystack: Seq<char>) -> bool;

/// A compiled regular expression together with its source pattern.
pub struct Pattern {
    source: String,
    re: regex::Regex,
}

impl Pattern {
    /// The source pattern.
    pub closed spec fn source(&self) -> Seq<char> {
        self.source@
    }

    /// `regex::Regex::new`: the compiled pattern, or the error's text. Both outcomes are named
    /// by `regex_new_error` of the pattern.
    #[verifier::external_body]
    pub fn compile(pattern: &str) -> (r: Result<Pattern, String>)
        ensures
            match r {
                Ok(p) => p.source() == pattern@ && regex_new_error(pattern@) is None,
                Err(e) => regex_new_error(pattern@) == Some(e@),
            },
    {
        match regex::Regex::new(pattern) {
            Ok(re) => Ok(Pattern { source: pattern.to_string(), re }),
            Err(e) => Err(e.to_string()),
        }
    }

    /// `regex::Regex::is_match`; named `regex_is_match` of the source pattern and haystack.
    #[verifier::external_body]
    pub fn is_match(&self, haystack: &str) -> (r: bool)
        ensures
            r == regex_is_match(self.source(), haystack@),
    {
        self.re.is_match(haystack)
    }
}

/// The `find_files` tool.
pub struct FindTool;

/// The `grep_content` tool.
pub struct GrepTool;

/// A walked directory entry: its file name (when it has one) and how its path displays.
#[derive(Debug, Clone)]
pub struct FileEntry {
    pub file_name: Option<String>,
    pub display: String,
}

/// A walked file: how its path displays, and its text when it could be read as text.
#[derive(Debug, Clone)]
pub struct FileText {
    pub display: String,
    pub content: Option<String>,
}

/// The most matches that are reported.
pub open spec fn max_hits() -> nat {
    100
}

/// The line that stands for the matches beyond the limit.
pub open spec fn limit_marker() -> Seq<char> {
    "... (已达到最大 100 条匹配上限)"@
}

/// The hits cut to the limit, with the marker when the limit is reached.
pub open spec fn capped(h: Seq<Seq<char>>) -> Seq<Seq<char>> {
    if h.len() >= max_hits() {
        h.take(max_hits() as int).push(limit_marker())
    } else {
        h
    }
}

/// The tool output for a list of hits.
pub open spec fn hits_output(h: Seq<Seq<char>>, none_text: Seq<char>) -> Seq<char> {
    if capped(h).len() == 0 {
        none_text
    } else {
        join_seq(capped(h), "\n"@)
    }
}

/// The entries whose file name matches, by display.
pub open spec fn find_hits(p: Seq<char>, es: Seq<FileEntry>) -> Seq<Seq<char>>
    decreases es.len(),
{
    if es.len() == 0 {
        seq![]
    } else {
        let rest = find_hits(p, es.drop_last());
        match es.last().file_name {
            Some(n) => if regex_is_match(p, n@) {
                rest.push(es.last().display@)
            } else {
                rest
            },
            None => rest,
        }
    }
}

/// Whether the pattern matches the entry's file name (an entry without one never matches).
pub open spec fn name_matches(p: Seq<char>, e: FileEntry) -> bool {
    e.file_name matches Some(n) && regex_is_match(p, n@)
}

proof fn lemma_find_is_filter(p: Seq<char>, es: Seq<FileEntry>)
    ensures
        find_hits(p, es) == es.filter(|e: FileEntry| name_matches(p, e)).map_values(
            |e: FileEntry| e.display@,
        ),
    decreases es.len(),
{
    reveal(Seq::filter);
    if es.len() > 0 {
        lemma_find_is_filter(p, es.drop_last());
        let pred = |e: FileEntry| name_matches(p, e);
        let sub = es.drop_last().filter(pred);
        assert(sub.push(es.last()).map_values(|e: FileEntry| e.display@) =~= sub.map_values(
            |e: FileEntry| e.display@,
        ).push(es.last().display@));
    }
}

/// Finding files matches the pattern against file names only: the hits are the displayed
/// paths of exactly the entries whose file name matches, in the order walked. Each hit is the
/// display of a walked entry whose file name matches; an entry whose file name matches is
/// always reported; one whose file name does not match (or that has none) is never the source
/// of a hit, whatever its displayed path.
pub proof fn law_find_matches_file_names(p: Seq<char>, es: Seq<FileEntry>)
    ensures
        find_hits(p, es) == es.filter(|e: FileEntry| name_matches(p, e)).map_values(
            |e: FileEntry| e.display@,
        ),
        forall|k: int|
            0 <= k < find_hits(p, es).len() ==> exists|i: int|
                0 <= i < es.len() && name_matches(p, es[i]) && #[trigger] find_hits(p, es)[k]
                    == es[i].display@,
        forall|i: int|
            0 <= i < es.len() && name_matches(p, es[i]) ==> #[trigger] find_hits(p, es).contains(
                es[i].display@,
            ),
{
    broadcast use vstd::seq_lib::group_filter_ensures;

    lemma_find_is_filter(p, es);
    let pred = |e: FileEntry| name_matches(p, e);
    let f = es.filter(pred);
    let h = find_hits(p, es);
    assert forall|k: int| 0 <= k < h.len() implies exists|i: int|
        0 <= i < es.len() && name_matches(p, es[i]) && #[trigger] h[k] == es[i].display@ by {
        es.lemma_filter_pred(pred, k);
        assert(f.contains(f[k]));
        es.lemma_filter_contains_rev(pred, f[k]);
        let i = choose|i: int| 0 <= i < es.len() && es[i] == f[k];
        assert(h[k] == f[k].display@);
        assert(name_matches(p, es[i]));
    }
    assert forall|i: int| 0 <= i < es.len() && name_matches(p, es[i]) implies #[trigger] h.contains(
        es[i].display@,
    ) by {
        es.lemma_filter_contains(pred, i);
        let j = choose|j: int| 0 <= j < f.len() && f[j] == es[i];
        assert(h[j] == es[i].display@);
    }
}

/// One grep hit: `display:number: trimmed line`.
pub open spec fn grep_hit(display: Seq<char>, number: nat, line: Seq<char>) -> Seq<char> {
    display + ":"@ + decimal(number) + ": "@ + trimmed(line)
}

/// The hits among the first `k` lines `ls` of a file.
pub open spec fn line_hits(p: Seq<char>, display: Seq<char>, ls: Seq<Seq<char>>, k: nat) -> Seq<
    Seq<char>,
>
    decreases k,
{
    if k == 0 {
        seq![]
    } else {
        let rest = line_hits(p, display, ls, (k - 1) as nat);
        if regex_is_match(p, ls[k - 1]) {
            rest.push(grep_hit(display, k, ls[k - 1]))
        } else {
            rest
        }
    }
}

/// The report of line `i` (0-based) of a file: `display:number: trimmed line`, numbered from 1.
pub open spec fn numbered_hit(display: Seq<char>, ls: Seq<Seq<char>>, i: int) -> Seq<char> {
    display + ":"@ + decimal((i + 1) as nat) + ": "@ + trimmed(ls[i])
}

/// Searching a file's lines reports exactly its lines that the pattern matches, in the order of
/// the file, each with its own 1-based line number: the hits among the first `k` lines are the
/// indices below `k` whose line matches, each reported as `numbered_hit`.
pub proof fn law_grep_reports_matching_lines(p: Seq<char>, display: Seq<char>, ls: Seq<Seq<char>>, k: nat)
    requires
        k <= ls.len(),
    ensures
        line_hits(p, display, ls, k) == Seq::new(k, |i: int| i).filter(|i: int| regex_is_match(p, ls[i])).map_values(
            |i: int| numbered_hit(display, ls, i),
        ),
    decreases k,
{
    reveal(Seq::filter);
    if k > 0 {
        law_grep_reports_matching_lines(p, display, ls, (k - 1) as nat);
        let idx = Seq::new(k, |i: int| i);
        let pred = |i: int| regex_is_match(p, ls[i]);
        assert(idx.drop_last() =~= Seq::new((k - 1) as nat, |i: int| i));
        assert(idx.last() == k - 1);
        let sub = idx.drop_last().filter(pred);
        assert(sub.push(k - 1).map_values(|i: int| numbered_hit(display, ls, i)) =~= sub.map_values(
            |i: int| numbered_hit(display, ls, i),
        ).push(numbered_hit(display, ls, k - 1)));
    }
}

/// The hits of one file: none when it could not be read.
pub open spec fn file_hits(p: Seq<char>, f: FileText) -> Seq<Seq<char>> {
    match f.content {
        Some(c) => line_hits(p, f.display@, lines_of(c@), lines_of(c@).len()),
        None => seq![],
    }
}

/// The hits of all files, in order.
pub open spec fn grep_hits(p: Seq<char>, fs: Seq<FileText>) -> Seq<Seq<char>>
    decreases fs.len(),
{
    if fs.len() == 0 {
        seq![]
    } else {
        grep_hits(p, fs.drop_last()) + file_hits(p, fs.last())
    }
}

/// What the tools report for an invalid pattern.
pub open spec fn invalid_pattern_text(e: Seq<char>) -> Seq<char> {
    "正则表达式无效: "@ + e
}

proof fn lemma_find_prefix(p: Seq<char>, es: Seq<FileEntry>, k: int)
    requires
        0 <= k <= es.len(),
    ensures
        find_hits(p, es.take(k)).len() <= find_hits(p, es).len(),
        find_hits(p, es).take(find_hits(p, es.take(k)).len() as int) == find_hits(p, es.take(k)),
    decreases es.len() - k,
{
    if k == es.len() {
        assert(es.take(k) =~= es);
        assert(find_hits(p, es).take(find_hits(p, es).len() as int) =~= find_hits(p, es));
    } else {
        lemma_find_prefix(p, es.drop_last(), k);
        assert(es.drop_last().take(k) =~= es.take(k));
        let a = find_hits(p, es.take(k));
        let b = find_hits(p, es.drop_last());
        let c = find_hits(p, es);
        assert(c.take(a.len() as int) =~= b.take(a.len() as int));
    }
}

proof fn lemma_capped_prefix(h: Seq<Seq<char>>, part: Seq<Seq<char>>)
    requires
        part.len() == max_hits(),
        part.len() <= h.len(),
        h.take(part.len() as int) == part,
    ensures
        capped(h) == part.push(limit_marker()),
{
}

impl FindTool {
    /// Reports the entries whose file name matches `pattern`, by display, at most 100 and then
    /// a marker line; `未找到匹配的文件` when none does. An invalid pattern is reported as an
    /// error.
    pub fn collect(pattern: &str, entries: &Vec<FileEntry>) -> (r: ToolResult)
        ensures
            match regex_new_error(pattern@) {
                Some(e) => r.is_error && r.output@ == invalid_pattern_text(e),
                None => !r.is_error && r.output@ == hits_output(
                    find_hits(pattern@, entries@),
                    "未找到匹配的文件"@,
                ),
            },
    {
        let re = match Pattern::compile(pattern) {
            Ok(r) => r,
            Err(e) => return ToolResult::error(cat("正则表达式无效: ", e.as_str())),
        };
        let ghost es = entries@;
        let ghost p = pattern@;
        let mut results: Vec<String> = Vec::new();
        let mut i: usize = 0;
        let mut stopped = false;
        while i < entries.len() && !stopped
            invariant
                es == entries@,
                p == re.source(),
                i <= es.len(),
                !stopped ==> views(results@) == find_hits(p, es.take(i as int)),
                !stopped ==> results@.len() < max_hits(),
                stopped ==> views(results@) == capped(find_hits(p, es)),
            decreases es.len() - i,
        {
            proof {
                assert(es.take(i + 1).drop_last() =~= es.take(i as int));
                assert(es.take(i + 1).last() == es[i as int]);
            }
            match &entries[i].file_name {
                Some(name) => {
                    if re.is_match(name.as_str()) {
                        let d = entries[i].display.clone();
                        proof {
                            lemma_views_push(results@, d);
                        }
                        results.push(d);
                        if results.len() >= 100 {
                            proof {
                                lemma_find_prefix(p, es, i + 1);
                                lemma_capped_prefix(find_hits(p, es), views(results@));
                            }
                            let m = owned("... (已达到最大 100 条匹配上限)");
                            proof {
                                lemma_views_push(results@, m);
                            }
                            results.push(m);
                            stopped = true;
                        }
                    }
                },
                None => {},
            }
            i = i + 1;
        }
        proof {
            if !stopped {
                assert(es.take(es.len() as int) =~= es);
            }
        }
        if results.len() == 0 {
            ToolResult::success(owned("未找到匹配的文件"))
        } else {
            ToolResult::success(join(&results, "\n"))
        }
    }
}

proof fn lemma_line_hits_prefix(p: Seq<char>, d: Seq<char>, ls: Seq<Seq<char>>, k: nat, m: nat)
    requires
        k <= m,
    ensures
        line_hits(p, d, ls, k).len() <= line_hits(p, d, ls, m).len(),
        line_hits(p, d, ls, m).take(line_hits(p, d, ls, k).len() as int) == line_hits(p, d, ls, k),
    decreases m - k,
{
    if k == m {
        assert(line_hits(p, d, ls, m).take(line_hits(p, d, ls, m).len() as int) =~= line_hits(
            p,
            d,
            ls,
            m,
        ));
    } else {
        lemma_line_hits_prefix(p, d, ls, k, (m - 1) as nat);
        let a = line_hits(p, d, ls, k);
        let b = line_hits(p, d, ls, (m - 1) as nat);
        let c = line_hits(p, d, ls, m);
        assert(c.take(a.len() as int) =~= b.take(a.len() as int));
    }
}

proof fn lemma_grep_prefix(p: Seq<char>, fs: Seq<FileText>, k: int)
    requires
        0 <= k <= fs.len(),
    ensures
        grep_hits(p, fs.take(k)).len() <= grep_hits(p, fs).len(),
        grep_hits(p, fs).take(grep_hits(p, fs.take(k)).len() as int) == grep_hits(p, fs.take(k)),
    decreases fs.len() - k,
{
    if k == fs.len() {
        assert(fs.take(k) =~= fs);
        assert(grep_hits(p, fs).take(grep_hits(p, fs).len() as int) =~= grep_hits(p, fs));
    } else {
        lemma_grep_prefix(p, fs.drop_last(), k);
        assert(fs.drop_last().take(k) =~= fs.take(k));
        let a = grep_hits(p, fs.take(k));
        let b = grep_hits(p, fs.drop_last());
        let c = grep_hits(p, fs);
        assert(c.take(a.len() as int) =~= b.take(a.len() as int));
    }
}

/// A partial scan of file `k` is a prefix of all the hits.
proof fn lemma_grep_partial_prefix(p: Seq<char>, fs: Seq<FileText>, k: int, c: String, j: nat)
    requires
        0 <= k < fs.len(),
        fs[k].content == Some(c),
        j <= lines_of(c@).len(),
    ensures
        ({
            let part = grep_hits(p, fs.take(k)) + line_hits(p, fs[k].display@, lines_of(c@), j);
            &&& part.len() <= grep_hits(p, fs).len()
            &&& grep_hits(p, fs).take(part.len() as int) == part
        }),
{
    let ls = lines_of(c@);
    let d = fs[k].display@;
    lemma_line_hits_prefix(p, d, ls, j, ls.len());
    lemma_grep_prefix(p, fs, k + 1);
    assert(fs.take(k + 1).drop_last() =~= fs.take(k));
    assert(fs.take(k + 1).last() == fs[k]);
    let whole = grep_hits(p, fs.take(k + 1));
    let part = grep_hits(p, fs.take(k)) + line_hits(p, d, ls, j);
    assert(whole.take(part.len() as int) =~= part);
    assert(grep_hits(p, fs).take(part.len() as int) =~= part);
}

/// The text of one grep hit.
fn hit_text(display: &str, number: u64, line: &str) -> (r: String)
    ensures
        r@ == grep_hit(display@, number as nat, line@),
{
    let n = u64_to_string(number);
    let t = trim(line);
    let a = cat3(display, ":", n.as_str());
    cat3(a.as_str(), ": ", t.as_str())
}

impl GrepTool {
    /// Reports the lines of the files that match `pattern`, as `display:number: trimmed line`,
    /// at most 100 and then a marker line; `未找到匹配的内容` when none does. Files that could
    /// not be read are skipped. An invalid pattern is reported as an error.
    pub fn collect(pattern: &str, files: &Vec<FileText>) -> (r: ToolResult)
        ensures
            match regex_new_error(pattern@) {
                Some(e) => r.is_error && r.output@ == invalid_pattern_text(e),
                None => !r.is_error && r.output@ == hits_output(
                    grep_hits(pattern@, files@),
                    "未找到匹配的内容"@,
                ),
            },
    {
        let re = match Pattern::compile(pattern) {
            Ok(r) => r,
            Err(e) => return ToolResult::error(cat("正则表达式无效: ", e.as_str())),
        };
        let ghost fs = files@;
        let ghost p = pattern@;
        let mut matches: Vec<String> = Vec::new();
        let mut fi: usize = 0;
        let mut stopped = false;
        while fi < files.len() && !stopped
            invariant
                fs == files@,
                p == re.source(),
                fi <= fs.len(),
                !stopped ==> views(matches@) == grep_hits(p, fs.take(fi as int)),
                !stopped ==> matches@.len() < max_hits(),
                stopped ==> views(matches@) == capped(grep_hits(p, fs)),
            decreases fs.len() - fi,
        {
            proof {
                assert(fs.take(fi + 1).drop_last() =~= fs.take(fi as int));
                assert(fs.take(fi + 1).last() == fs[fi as int]);
            }
            match &files[fi].content {
                Some(content) => {
                    let ls = lines(content.as_str());
                    let ghost lsv = lines_of(content@);
                    let ghost d = files[fi as int].display@;
                    let ghost base = views(matches@);
                    assert(views(ls@) =~= lsv);
                    let mut li: usize = 0;
                    while li < ls.len() && !stopped
                        invariant
                            !stopped ==> views(matches@) == base + line_hits(p, d, lsv, li as nat),
                            !stopped ==> matches@.len() < max_hits(),
                            stopped ==> views(matches@) == capped(grep_hits(p, fs)),
                            fs == files@,
                            p == re.source(),
                            fi < fs.len(),
                            fs[fi as int].content == Some(*content),
                            d == fs[fi as int].display@,
                            base == grep_hits(p, fs.take(fi as int)),
                            views(ls@) == lsv,
                            lsv == lines_of(content@),
                            li <= lsv.len(),
                        decreases lsv.len() - li,
                    {
                        proof {
                            assert(views(ls@)[li as int] == ls@[li as int]@);
                        }
                        if re.is_match(ls[li].as_str()) {
                            let h = hit_text(files[fi].display.as_str(), (li as u64) + 1, ls[li].as_str());
                            proof {
                                lemma_views_push(matches@, h);
                                assert(base + line_hits(p, d, lsv, (li + 1) as nat) =~= (base
                                    + line_hits(p, d, lsv, li as nat)).push(h@));
                            }
                            matches.push(h);
                            if matches.len() >= 100 {
                                proof {
                                    lemma_grep_partial_prefix(p, fs, fi as int, *content, (li + 1) as nat);
                                    lemma_capped_prefix(grep_hits(p, fs), views(matches@));
                                }
                                let m = owned("... (已达到最大 100 条匹配上限)");
                                proof {
                                    lemma_views_push(matches@, m);
                                }
                                matches.push(m);
                                stopped = true;
                            }
                        } else {
                            proof {
                                assert(base + line_hits(p, d, lsv, (li + 1) as nat) =~= base
                                    + line_hits(p, d, lsv, li as nat));
                            }
                        }
                        li = li + 1;
                    }
                },
                None => {
                    proof {
                        assert(grep_hits(p, fs.take(fi + 1)) =~= grep_hits(p, fs.take(fi as int)));
                    }
                },
            }
            fi = fi + 1;
        }
        proof {
            if !stopped {
                assert(fs.take(fs.len() as int) =~= fs);
            }
        }
        if matches.len() == 0 {
            ToolResult::success(owned("未找到匹配的内容"))
        } else {
            ToolResult::success(join(&matches, "\n"))
        }
    }
}

} // verus!
