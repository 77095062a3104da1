//! Applying a unified-diff hunk to a file's text.
use vstd::prelude::*;
use crate::paths::{join, join_path};
use crate::security::sandbox::{debug_quoted, debug_text};
use crate::text::{cat, cat3};
use crate::tools::ToolResult;
use crate::text::{
    contains, contains_seq, first_index, has_prefix, join as join_lines, join_seq, lemma_contains_iff_found,
    lemma_find_from_facts, lines, lines_of, occurs_at, owned,
    replace_first, replace_first_str, starts_with, str_eq, views, lemma_views_push,
};

verus! {

/// The `apply_patch` tool.
pub struct ApplyPatchTool;

/// What applying a patch does to a file's text.
pub enum PatchOutcome {
    /// The patch holds no `+` or `-` line.
    NoChanges,
    /// The new text of the file.
    Applied(String),
    /// The lines to remove were not found.
    Unlocated,
}

/// What applying a patch does, in terms of views.
pub enum PatchEffect {
    NoChanges,
    Applied(Seq<char>),
    Unlocated,
}

/// A header line of a diff (`---`, `+++`, `@@`), which carries no change.
pub open spec fn is_header(l: Seq<char>) -> bool {
    has_prefix(l, "---"@) || has_prefix(l, "+++"@) || has_prefix(l, "@@"@)
}

/// The lines that a patch removes (its `-` lines, without the `-`), in order.
pub open spec fn removals(ls: Seq<Seq<char>>) -> Seq<Seq<char>>
    decreases ls.len(),
{
    if ls.len() == 0 {
        seq![]
    } else {
        let l = ls.last();
        let rest = removals(ls.drop_last());
        if !is_header(l) && has_prefix(l, "-"@) {
            rest.push(l.drop_first())
        } else {
            rest
        }
    }
}

/// The lines that a patch adds (its `+` lines, without the `+`), in order.
pub open spec fn additions(ls: Seq<Seq<char>>) -> Seq<Seq<char>>
    decreases ls.len(),
{
    if ls.len() == 0 {
        seq![]
    } else {
        let l = ls.last();
        let rest = additions(ls.drop_last());
        if !is_header(l) && !has_prefix(l, "-"@) && has_prefix(l, "+"@) {
            rest.push(l.drop_first())
        } else {
            rest
        }
    }
}

/// A line of a patch that removes a line: a `-` line that is not a header.
pub open spec fn is_removal(l: Seq<char>) -> bool {
    !is_header(l) && has_prefix(l, "-"@)
}

/// A line of a patch that adds a line: a `+` line that is neither a header nor a removal.
pub open spec fn is_addition(l: Seq<char>) -> bool {
    !is_header(l) && !has_prefix(l, "-"@) && has_prefix(l, "+"@)
}

proof fn lemma_changes_are_filters(ls: Seq<Seq<char>>)
    ensures
        removals(ls) == ls.filter(|l: Seq<char>| is_removal(l)).map_values(|l: Seq<char>| l.drop_first()),
        additions(ls) == ls.filter(|l: Seq<char>| is_addition(l)).map_values(|l: Seq<char>| l.drop_first()),
    decreases ls.len(),
{
    reveal(Seq::filter);
    if ls.len() > 0 {
        lemma_changes_are_filters(ls.drop_last());
        let r = ls.drop_last().filter(|l: Seq<char>| is_removal(l));
        let a = ls.drop_last().filter(|l: Seq<char>| is_addition(l));
        assert(r.push(ls.last()).map_values(|l: Seq<char>| l.drop_first()) =~= r.map_values(
            |l: Seq<char>| l.drop_first(),
        ).push(ls.last().drop_first()));
        assert(a.push(ls.last()).map_values(|l: Seq<char>| l.drop_first()) =~= a.map_values(
            |l: Seq<char>| l.drop_first(),
        ).push(ls.last().drop_first()));
    }
}

/// A patch's changes keep the patch's order: the lines it removes are its `-` lines (headers
/// aside) and the lines it adds are its other `+` lines, each without its first character, in
/// the order they stand in the patch; so the `i`-th removal or addition comes from the `i`-th
/// such line, and every such line gives one.
pub proof fn law_changes_in_patch_order(ls: Seq<Seq<char>>)
    ensures
        removals(ls) == ls.filter(|l: Seq<char>| is_removal(l)).map_values(|l: Seq<char>| l.drop_first()),
        additions(ls) == ls.filter(|l: Seq<char>| is_addition(l)).map_values(|l: Seq<char>| l.drop_first()),
        forall|i: int|
            0 <= i < ls.len() && is_addition(ls[i]) ==> #[trigger] additions(ls.take(i + 1)) == additions(
                ls.take(i),
            ).push(ls[i].drop_first()),
        forall|i: int|
            0 <= i < ls.len() && is_removal(ls[i]) ==> #[trigger] removals(ls.take(i + 1)) == removals(
                ls.take(i),
            ).push(ls[i].drop_first()),
        forall|i: int|
            0 <= i < ls.len() && !is_addition(ls[i]) ==> #[trigger] additions(ls.take(i + 1)) == additions(
                ls.take(i),
            ),
        forall|i: int|
            0 <= i < ls.len() && !is_removal(ls[i]) ==> #[trigger] removals(ls.take(i + 1)) == removals(
                ls.take(i),
            ),
{
    lemma_changes_are_filters(ls);
    assert forall|i: int| 0 <= i < ls.len() implies #[trigger] ls.take(i + 1).drop_last() == ls.take(i)
        && ls.take(i + 1).last() == ls[i] by {
        assert(ls.take(i + 1).drop_last() =~= ls.take(i));
    }
}

/// Every run of lines equal to `rem` (when `rem` is not empty) replaced by `add`, scanning
/// from the start; and whether any run was replaced.
pub open spec fn replace_runs(orig: Seq<Seq<char>>, rem: Seq<Seq<char>>, add: Seq<Seq<char>>) -> (
    Seq<Seq<char>>,
    bool,
)
    decreases orig.len(),
{
    if orig.len() == 0 {
        (seq![], false)
    } else if rem.len() > 0 && rem.len() <= orig.len() && orig.take(rem.len() as int) == rem {
        let r = replace_runs(orig.skip(rem.len() as int), rem, add);
        (add + r.0, true)
    } else {
        let r = replace_runs(orig.drop_first(), rem, add);
        (seq![orig[0]] + r.0, r.1)
    }
}

/// What applying `patch` to `original` gives. When the removed lines, joined by newlines,
/// occur in the text, their first occurrence is replaced by the added lines joined by newlines;
/// otherwise every run of whole lines equal to the removed lines is replaced by the added
/// lines, and the lines are joined by newlines.
pub open spec fn patch_effect(original: Seq<char>, patch: Seq<char>) -> PatchEffect {
    let pl = lines_of(patch);
    let rem = removals(pl);
    let add = additions(pl);
    if rem.len() == 0 && add.len() == 0 {
        PatchEffect::NoChanges
    } else {
        let rb = join_seq(rem, "\n"@);
        let ab = join_seq(add, "\n"@);
        if rb.len() > 0 && contains_seq(original, rb) {
            PatchEffect::Applied(replace_first(original, rb, ab))
        } else {
            let r = replace_runs(lines_of(original), rem, add);
            if r.1 {
                PatchEffect::Applied(join_seq(r.0, "\n"@))
            } else {
                PatchEffect::Unlocated
            }
        }
    }
}

/// The outcome matches the effect.
pub open spec fn outcome_is(o: PatchOutcome, e: PatchEffect) -> bool {
    match (o, e) {
        (PatchOutcome::NoChanges, PatchEffect::NoChanges) => true,
        (PatchOutcome::Applied(s), PatchEffect::Applied(t)) => s@ == t,
        (PatchOutcome::Unlocated, PatchEffect::Unlocated) => true,
        _ => false,
    }
}

/// The target file of the tool: the path taken as is when absolute, else under the workspace.
pub fn resolve_path(workspace: &str, file_path: &str) -> (r: String)
    ensures
        r@ == join_path(workspace@, file_path@),
{
    join(workspace, file_path)
}

/// Do the lines `orig[i..i + rem.len()]` equal `rem`?
fn run_matches(orig: &Vec<String>, i: usize, rem: &Vec<String>) -> (r: bool)
    requires
        i <= orig@.len(),
    ensures
        r == (i + rem@.len() <= orig@.len() && views(orig@).subrange(i as int, i + rem@.len())
            == views(rem@)),
{
    if rem.len() > orig.len() - i {
        return false;
    }
    let mut k: usize = 0;
    while k < rem.len()
        invariant
            i + rem@.len() <= orig@.len(),
            k <= rem@.len(),
            forall|q: int| 0 <= q < k ==> orig@[i + q]@ == rem@[q]@,
        decreases rem@.len() - k,
    {
        assert(i + k < orig.len());
        if !str_eq(orig[i + k].as_str(), rem[k].as_str()) {
            assert(views(orig@).subrange(i as int, i + rem@.len())[k as int] != views(rem@)[k as int]);
            return false;
        }
        k = k + 1;
    }
    assert(views(orig@).subrange(i as int, i + rem@.len()) =~= views(rem@));
    true
}

impl ApplyPatchTool {
    /// The `-` and `+` lines of a patch, without their prefixes.
    fn split_patch(patch: &str) -> (r: (Vec<String>, Vec<String>))
        ensures
            views(r.0@) == removals(lines_of(patch@)),
            views(r.1@) == additions(lines_of(patch@)),
    {
        let pl = lines(patch);
        let ghost pls = lines_of(patch@);
        assert(views(pl@) =~= pls);
        let mut to_remove: Vec<String> = Vec::new();
        let mut to_add: Vec<String> = Vec::new();
        let mut i: usize = 0;
        while i < pl.len()
            invariant
                views(pl@) == pls,
                i <= pl@.len(),
                views(to_remove@) == removals(pls.take(i as int)),
                views(to_add@) == additions(pls.take(i as int)),
            decreases pl@.len() - i,
        {
            let line = pl[i].as_str();
            proof {
                assert(pls.take(i + 1).drop_last() =~= pls.take(i as int));
                assert(pls.take(i + 1).last() == line@);
            }
            let header = starts_with(line, "---") || starts_with(line, "+++") || starts_with(line, "@@");
            if !header {
                if starts_with(line, "-") {
                    proof {
                        reveal_strlit("-");
                    }
                    let cs = crate::text::chars_of(line);
                    let rest = crate::text::string_of(cs.as_slice().split_at(1).1);
                    proof {
                        assert(cs@.skip(1) =~= line@.drop_first());
                        lemma_views_push(to_remove@, rest);
                    }
                    to_remove.push(rest);
                } else if starts_with(line, "+") {
                    proof {
                        reveal_strlit("+");
                    }
                    let cs = crate::text::chars_of(line);
                    let rest = crate::text::string_of(cs.as_slice().split_at(1).1);
                    proof {
                        assert(cs@.skip(1) =~= line@.drop_first());
                        lemma_views_push(to_add@, rest);
                    }
                    to_add.push(rest);
                }
            }
            i = i + 1;
        }
        proof {
            assert(pls.take(pl@.len() as int) =~= pls);
        }
        (to_remove, to_add)
    }

    /// Applies a unified-diff hunk to `original`: see `patch_effect`.
    pub fn apply(original: &str, patch: &str) -> (r: PatchOutcome)
        ensures
            outcome_is(r, patch_effect(original@, patch@)),
    {
        let (to_remove, to_add) = Self::split_patch(patch);
        if to_remove.len() == 0 && to_add.len() == 0 {
            return PatchOutcome::NoChanges;
        }
        let remove_block = join_lines(&to_remove, "\n");
        let add_block = join_lines(&to_add, "\n");
        let rb = crate::text::chars_of(remove_block.as_str());
        if rb.len() > 0 && contains(original, remove_block.as_str()) {
            let replaced = replace_first_str(original, remove_block.as_str(), add_block.as_str());
            return PatchOutcome::Applied(replaced);
        }
        let orig_lines = lines(original);
        let ghost ol = lines_of(original@);
        let ghost rem = views(to_remove@);
        let ghost add = views(to_add@);
        assert(views(orig_lines@) =~= ol);
        let mut new_lines: Vec<String> = Vec::new();
        let mut i: usize = 0;
        let mut applied = false;
        assert(ol.skip(0) =~= ol);
        assert(views(new_lines@) + replace_runs(ol, rem, add).0 =~= replace_runs(ol, rem, add).0);
        while i < orig_lines.len()
            invariant
                views(orig_lines@) == ol,
                rem == views(to_remove@),
                add == views(to_add@),
                i <= ol.len(),
                replace_runs(ol, rem, add).0 == views(new_lines@) + replace_runs(
                    ol.skip(i as int),
                    rem,
                    add,
                ).0,
                replace_runs(ol, rem, add).1 == (applied || replace_runs(
                    ol.skip(i as int),
                    rem,
                    add,
                ).1),
            decreases ol.len() - i,
        {
            let ghost tail = ol.skip(i as int);
            if to_remove.len() > 0 && run_matches(&orig_lines, i, &to_remove) {
                proof {
                    assert(tail.take(rem.len() as int) =~= ol.subrange(i as int, i + rem.len()));
                    assert(tail.skip(rem.len() as int) =~= ol.skip(i + rem.len()));
                }
                let mut a: usize = 0;
                let ghost base = views(new_lines@);
                while a < to_add.len()
                    invariant
                        add == views(to_add@),
                        a <= to_add@.len(),
                        views(new_lines@) == base + add.take(a as int),
                    decreases to_add@.len() - a,
                {
                    let s = owned(to_add[a].as_str());
                    proof {
                        lemma_views_push(new_lines@, s);
                        assert(add.take(a + 1) =~= add.take(a as int).push(add[a as int]));
                    }
                    new_lines.push(s);
                    a = a + 1;
                }
                proof {
                    assert(add.take(add.len() as int) =~= add);
                }
                i = i + to_remove.len();
                applied = true;
            } else {
                proof {
                    assert(tail.drop_first() =~= ol.skip(i + 1));
                    assert(tail[0] == ol[i as int]);
                    if rem.len() > 0 && rem.len() <= tail.len() {
                        assert(tail.take(rem.len() as int) =~= ol.subrange(i as int, i + rem.len()));
                    }
                }
                let s = owned(orig_lines[i].as_str());
                proof {
                    lemma_views_push(new_lines@, s);
                }
                new_lines.push(s);
                i = i + 1;
            }
        }
        proof {
            assert(ol.skip(ol.len() as int) =~= Seq::<Seq<char>>::empty());
        }
        if applied {
            let result_content = join_lines(&new_lines, "\n");
            PatchOutcome::Applied(result_content)
        } else {
            PatchOutcome::Unlocated
        }
    }
}

impl ApplyPatchTool {
    /// The report of a patched file.
    pub fn patched(path: &str) -> (r: ToolResult)
        ensures
            !r.is_error,
            r.output@ == "已成功对 "@ + debug_text(path@) + " 应用补丁"@,
    {
        let p = debug_quoted(path);
        ToolResult::success(cat3("已成功对 ", p.as_str(), " 应用补丁"))
    }

    /// The error for a target file that does not exist.
    pub fn target_missing(path: &str) -> (r: ToolResult)
        ensures
            r.is_error,
            r.output@ == "目标文件不存在: "@ + debug_text(path@),
    {
        let p = debug_quoted(path);
        ToolResult::error(cat("目标文件不存在: ", p.as_str()))
    }
}

impl ApplyPatchTool {
    /// The patch tool on its target `path`, given the `patch` argument and the file's text
    /// (`None` when the file does not exist): the tool's reply, and the new text to write to the
    /// file, if any. Only an applied patch writes; a missing patch, an absent file, a patch
    /// without changes and one that cannot be located are errors and leave the file alone.
    pub fn execute_on(path: &str, patch: Option<&str>, original: Option<&str>) -> (r: (
        ToolResult,
        Option<String>,
    ))
        ensures
            r.1 is Some <==> !r.0.is_error,
            patch is None ==> r.0.output@ == "缺少 "@ + "patch"@ + " 参数"@,
            patch is Some && original is None ==> r.0.output@ == "目标文件不存在: "@ + debug_text(
                path@,
            ),
            patch matches Some(p) ==> (original matches Some(o) ==> match patch_effect(o@, p@) {
                PatchEffect::Applied(t) => r.1 matches Some(s) && s@ == t && r.0.output@
                    == "已成功对 "@ + debug_text(path@) + " 应用补丁"@,
                PatchEffect::NoChanges => r.1 is None && r.0.output@
                    == "未识别到有效的补丁变更内容（缺少 +/- 前缀）"@,
                PatchEffect::Unlocated => r.1 is None && r.0.output@ == "无法定位补丁中的上下文行，应用失败"@,
            }),
    {
        match patch {
            None => (ToolResult::missing_argument("patch"), None),
            Some(p) => match original {
                None => (Self::target_missing(path), None),
                Some(o) => match Self::apply(o, p) {
                    PatchOutcome::Applied(text) => (Self::patched(path), Some(text)),
                    PatchOutcome::NoChanges => (
                        ToolResult::error(owned("未识别到有效的补丁变更内容（缺少 +/- 前缀）")),
                        None,
                    ),
                    PatchOutcome::Unlocated => (
                        ToolResult::error(owned("无法定位补丁中的上下文行，应用失败")),
                        None,
                    ),
                },
            },
        }
    }
}

impl PatchOutcome {
    /// The tool's error text for an outcome that changes nothing.
    pub fn failure_message(&self) -> (m: Option<String>)
        ensures
            match self {
                PatchOutcome::NoChanges => m matches Some(s) && s@ == "未识别到有效的补丁变更内容（缺少 +/- 前缀）"@,
                PatchOutcome::Unlocated => m matches Some(s) && s@ == "无法定位补丁中的上下文行，应用失败"@,
                PatchOutcome::Applied(_) => m is None,
            },
    {
        match self {
            PatchOutcome::NoChanges => Some(owned("未识别到有效的补丁变更内容（缺少 +/- 前缀）")),
            PatchOutcome::Unlocated => Some(owned("无法定位补丁中的上下文行，应用失败")),
            PatchOutcome::Applied(_) => None,
        }
    }
}

/// A patch whose removed lines, joined by newlines, occur in the text applies there: the
/// first occurrence of that block is replaced by the added lines joined by newlines, and the
/// text before and after it is kept as it was.
pub proof fn law_patch_replaces_first_block(original: Seq<char>, patch: Seq<char>)
    requires
        join_seq(removals(lines_of(patch)), "\n"@).len() > 0,
        contains_seq(original, join_seq(removals(lines_of(patch)), "\n"@)),
    ensures
        ({
            let rb = join_seq(removals(lines_of(patch)), "\n"@);
            let ab = join_seq(additions(lines_of(patch)), "\n"@);
            exists|i: int|
                {
                    &&& occurs_at(original, rb, i)
                    &&& forall|j: int| 0 <= j < i ==> !occurs_at(original, rb, j)
                    &&& #[trigger] patch_effect(original, patch) == PatchEffect::Applied(
                        original.take(i) + ab + original.skip(i + rb.len()),
                    )
                }
        }),
{
    let rb = join_seq(removals(lines_of(patch)), "\n"@);
    assert(removals(lines_of(patch)).len() > 0);
    lemma_find_from_facts(original, rb, 0);
    lemma_contains_iff_found(original, rb);
    let i = first_index(original, rb);
    assert(occurs_at(original, rb, i));
}

/// With no lines to remove, no run of lines is ever replaced.
proof fn lemma_empty_runs_never_replace(
    orig: Seq<Seq<char>>,
    rem: Seq<Seq<char>>,
    add: Seq<Seq<char>>,
)
    requires
        rem.len() == 0,
    ensures
        !replace_runs(orig, rem, add).1,
    decreases orig.len(),
{
    if orig.len() > 0 {
        lemma_empty_runs_never_replace(orig.drop_first(), rem, add);
    }
}

/// A patch that adds lines but removes none is never applied: with no removed lines there is
/// no place in the file to put the added ones, whatever the file holds.
pub proof fn law_additions_alone_are_unlocated(original: Seq<char>, patch: Seq<char>)
    requires
        removals(lines_of(patch)).len() == 0,
        additions(lines_of(patch)).len() > 0,
    ensures
        patch_effect(original, patch) == PatchEffect::Unlocated,
{
    let rem = removals(lines_of(patch));
    assert(join_seq(rem, "\n"@).len() == 0);
    lemma_empty_runs_never_replace(lines_of(original), rem, additions(lines_of(patch)));
}

} // verus!
