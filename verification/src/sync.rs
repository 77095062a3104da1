//! Following the upstream project: the sync state, the templates pulled, and the report.
use vstd::prelude::*;
use vstd::utf8::{encode_utf8, is_char_boundary};
use crate::clock::now_rfc3339;
use crate::paths::{join, join_path};
use crate::text::{cat, cat3, has_prefix, lines, lines_of, owned, u64_to_string, decimal};
use crate::text::{byte_len, byte_prefix, chars_of, prefix_bytes};
use crate::text::string_of;

verus! {

/// What was last synced from upstream.
#[derive(Debug, Clone)]
pub struct SyncState {
    pub upstream_repo: String,
    pub tracked_branch: String,
    pub last_synced_commit: String,
    pub last_check_time: String,
    pub synced_files: Vec<String>,
}

/// An upstream commit.
#[derive(Debug, Clone)]
pub struct UpstreamCommit {
    pub sha: String,
    pub message: String,
    pub author: String,
    pub date: String,
}

/// Pulls upstream templates.
pub struct AssetSyncer;

/// Asks GitHub about the upstream repository, with a token when one is configured.
#[derive(Debug, Clone)]
pub struct UpstreamTracker {
    pub token: Option<String>,
}

/// Reports on upstream changes.
pub struct DiffReporter;

/// `s` without every leading copy of `p` (what `trim_start_matches` with a string gives).
pub open spec fn trim_prefixes(s: Seq<char>, p: Seq<char>) -> Seq<char>
    decreases s.len(),
{
    if p.len() > 0 && has_prefix(s, p) {
        trim_prefixes(s.skip(p.len() as int), p)
    } else {
        s
    }
}

/// The short form of a commit id: its first 7 bytes when longer.
pub open spec fn short_sha(sha: Seq<char>) -> Seq<char> {
    if byte_len(sha) > 7 {
        byte_prefix(sha, 7)
    } else {
        sha
    }
}

/// The commits can be shown: a long id is cut at a character boundary, and a date has a
/// character boundary at byte 10 (slicing panics otherwise).
pub open spec fn commit_showable(c: UpstreamCommit) -> bool {
    &&& byte_len(c.sha@) > 7 ==> is_char_boundary(encode_utf8(c.sha@), 7)
    &&& is_char_boundary(encode_utf8(c.date@), 10)
}

/// The first line of a text, or empty.
pub open spec fn first_line(s: Seq<char>) -> Seq<char> {
    if lines_of(s).len() > 0 {
        lines_of(s)[0]
    } else {
        seq![]
    }
}

/// The report line of the commit at 1-based position `n`.
pub open spec fn commit_line(n: nat, c: UpstreamCommit) -> Seq<char> {
    " "@ + decimal(n) + ". ["@ + short_sha(c.sha@) + "] "@ + first_line(c.message@) + " (by "@
        + c.author@ + ", "@ + byte_prefix(c.date@, 10) + ")\n"@
}

/// The report lines of the commits, numbered from 1.
pub open spec fn commit_lines(cs: Seq<UpstreamCommit>) -> Seq<char>
    decreases cs.len(),
{
    if cs.len() == 0 {
        seq![]
    } else {
        commit_lines(cs.drop_last()) + commit_line(cs.len(), cs.last())
    }
}

/// The report lines of the synced files.
pub open spec fn file_lines(fs: Seq<String>) -> Seq<char>
    decreases fs.len(),
{
    if fs.len() == 0 {
        seq![]
    } else {
        file_lines(fs.drop_last()) + " - "@ + fs.last()@ + "\n"@
    }
}

/// The report.
pub open spec fn report_text(state: SyncState, commits: Seq<UpstreamCommit>, tag: Option<String>) -> Seq<
    char,
> {
    "====================================================\n"@
        + "   🔄 HKUDS/nanobot 上游版本同步检测报告\n"@
        + "====================================================\n\n"@
        + "* 上游仓库: https://github.com/"@ + state.upstream_repo@ + "\n"@
        + "* 监控分支: "@ + state.tracked_branch@ + "\n"@
        + "* 本地记录上次同步 Commit: "@ + (if state.last_synced_commit@.len() == 0 {
            "无 (首发版本)"@
        } else {
            state.last_synced_commit@
        }) + "\n"@
        + "* 最新发布 Release Tag: "@ + (match tag {
            Some(t) => t@,
            None => "none"@,
        }) + "\n\n"@
        + "【上游最新 10 次提交记录】:\n"@ + commit_lines(commits)
        + "\n【已同步嵌入的静态 Prompt 模板】:\n"@ + file_lines(state.synced_files@)
        + "\n【建议】: 可运行 `nanobot sync pull-assets` 自动更新模板文件，或查看 Diff 适配逻辑变更。\n"@
}

/// The upstream address of a template.
pub open spec fn template_url(rel: Seq<char>) -> Seq<char> {
    "https://raw.githubusercontent.com/HKUDS/nanobot/main/nanobot"@ + "/"@ + rel
}

/// Where a template is written: under the target directory, without its `templates/` prefix.
pub open spec fn template_target(dir: Seq<char>, rel: Seq<char>) -> Seq<char> {
    join_path(dir, trim_prefixes(rel, "templates/"@))
}

/// The report line of one commit.
fn commit_text(n: u64, c: &UpstreamCommit) -> (r: String)
    requires
        commit_showable(*c),
    ensures
        r@ == commit_line(n as nat, *c),
{
    let short: String = if c.sha.as_str().len() > 7 {
        prefix_bytes(c.sha.as_str(), 7)
    } else {
        c.sha.clone()
    };
    let ls = lines(c.message.as_str());
    let first: String = if ls.len() > 0 {
        ls[0].clone()
    } else {
        String::new()
    };
    let date = prefix_bytes(c.date.as_str(), 10);
    let num = u64_to_string(n);
    let a = cat3(" ", num.as_str(), ". [");
    let b = cat3(a.as_str(), short.as_str(), "] ");
    let d = cat3(b.as_str(), first.as_str(), " (by ");
    let e = cat3(d.as_str(), c.author.as_str(), ", ");
    cat3(e.as_str(), date.as_str(), ")\n")
}

impl Default for SyncState {
    /// The initial state, checked now.
    fn default() -> (s: Self)
        ensures
            s.upstream_repo@ == "HKUDS/nanobot"@,
            s.tracked_branch@ == "main"@,
            s.last_synced_commit@.len() == 0,
            s.synced_files@.len() == 0,
    {
        SyncState::initial(now_rfc3339())
    }
}

impl SyncState {
    /// The initial state, checked at `check_time`: repository `HKUDS/nanobot`, branch `main`,
    /// nothing synced yet.
    pub fn initial(check_time: String) -> (s: SyncState)
        ensures
            s.upstream_repo@ == "HKUDS/nanobot"@,
            s.tracked_branch@ == "main"@,
            s.last_synced_commit@.len() == 0,
            s.last_check_time == check_time,
            s.synced_files@.len() == 0,
    {
        SyncState {
            upstream_repo: owned("HKUDS/nanobot"),
            tracked_branch: owned("main"),
            last_synced_commit: String::new(),
            last_check_time: check_time,
            synced_files: Vec::new(),
        }
    }

    /// The state after pulling templates now: the check time and the synced files replaced,
    /// the rest kept.
    pub fn record_pull_now(&mut self, updated: Vec<String>)
        ensures
            final(self).synced_files == updated,
            final(self).upstream_repo == old(self).upstream_repo,
            final(self).tracked_branch == old(self).tracked_branch,
            final(self).last_synced_commit == old(self).last_synced_commit,
    {
        self.record_pull(now_rfc3339(), updated);
    }

    /// The state after pulling templates at `check_time`: the check time and the synced files
    /// replaced, the rest kept.
    pub fn record_pull(&mut self, check_time: String, updated: Vec<String>)
        ensures
            final(self).last_check_time == check_time,
            final(self).synced_files == updated,
            final(self).upstream_repo == old(self).upstream_repo,
            final(self).tracked_branch == old(self).tracked_branch,
            final(self).last_synced_commit == old(self).last_synced_commit,
    {
        self.last_check_time = check_time;
        self.synced_files = updated;
    }
}

impl UpstreamTracker {
    /// A tracker using `token`.
    pub fn with_token(token: Option<String>) -> (t: UpstreamTracker)
        ensures
            t.token == token,
    {
        UpstreamTracker { token }
    }

    /// The address of the latest `limit` commits on the upstream `main` branch.
    pub fn commits_url(limit: usize) -> (r: String)
        ensures
            r@ == "https://api.github.com/repos/HKUDS/nanobot/commits?sha=main&per_page="@ + decimal(
                limit as nat,
            ),
    {
        let n = u64_to_string(limit as u64);
        cat("https://api.github.com/repos/HKUDS/nanobot/commits?sha=main&per_page=", n.as_str())
    }

    /// The address of the latest upstream release.
    pub fn latest_release_url() -> (r: String)
        ensures
            r@ == "https://api.github.com/repos/HKUDS/nanobot/releases/latest"@,
    {
        owned("https://api.github.com/repos/HKUDS/nanobot/releases/latest")
    }

    /// The `Authorization` header value, `Bearer <token>`, when a token is configured.
    pub fn authorization(&self) -> (r: Option<String>)
        ensures
            match self.token {
                Some(t) => r matches Some(h) && h@ == "Bearer "@ + t@,
                None => r is None,
            },
    {
        match &self.token {
            Some(t) => Some(cat("Bearer ", t.as_str())),
            None => None,
        }
    }
}

impl AssetSyncer {
    /// The templates that are pulled.
    pub fn template_files() -> (r: Vec<String>)
        ensures
            r@.len() == 6,
            r@[0]@ == "templates/SOUL.md"@,
            r@[1]@ == "templates/AGENTS.md"@,
            r@[2]@ == "templates/USER.md"@,
            r@[3]@ == "templates/HEARTBEAT.md"@,
            r@[4]@ == "templates/agent/identity.md"@,
            r@[5]@ == "templates/agent/tool_contract.md"@,
    {
        let mut r: Vec<String> = Vec::new();
        r.push(owned("templates/SOUL.md"));
        r.push(owned("templates/AGENTS.md"));
        r.push(owned("templates/USER.md"));
        r.push(owned("templates/HEARTBEAT.md"));
        r.push(owned("templates/agent/identity.md"));
        r.push(owned("templates/agent/tool_contract.md"));
        r
    }

    /// The upstream address of a template.
    pub fn template_url(rel: &str) -> (r: String)
        ensures
            r@ == template_url(rel@),
    {
        cat3("https://raw.githubusercontent.com/HKUDS/nanobot/main/nanobot", "/", rel)
    }

    /// Where a template is written under `target_dir`.
    pub fn template_target(target_dir: &str, rel: &str) -> (r: String)
        ensures
            r@ == template_target(target_dir@, rel@),
    {
        let v = chars_of(rel);
        let p = chars_of("templates/");
        let mut start: usize = 0;
        let ghost pre = "templates/"@;
        proof {
            reveal_strlit("templates/");
            assert(v@.skip(0) =~= v@);
        }
        while p.len() <= v.len() - start && crate::text::matches_at(&v, &p, start)
            invariant
                v@ == rel@,
                p@ == pre,
                p@.len() > 0,
                start <= v@.len(),
                trim_prefixes(rel@, pre) == trim_prefixes(v@.skip(start as int), pre),
            decreases v@.len() - start,
        {
            proof {
                let t = v@.skip(start as int);
                assert(t.take(p@.len() as int) =~= v@.subrange(start as int, start + p@.len()));
                assert(t.skip(p@.len() as int) =~= v@.skip(start + p@.len()));
            }
            start = start + p.len();
        }
        proof {
            let t = v@.skip(start as int);
            if p@.len() <= t.len() {
                assert(t.take(p@.len() as int) =~= v@.subrange(start as int, start + p@.len()));
            }
        }
        let rest = string_of(v.as_slice().split_at(start).1);
        proof {
            assert(v@.subrange(start as int, v@.len() as int) =~= v@.skip(start as int));
        }
        join(target_dir, rest.as_str())
    }
}

impl DiffReporter {
    /// The report on upstream: repository, branch, last synced commit (or a first-release
    /// note), latest release tag (or `none`), the commits numbered from 1 with short id, first
    /// message line, author and date, the synced templates, and a suggestion.
    pub fn render_report(state: &SyncState, commits: &Vec<UpstreamCommit>, latest_tag: Option<String>) -> (r:
        String)
        requires
            forall|i: int| 0 <= i < commits@.len() ==> commit_showable(#[trigger] commits@[i]),
        ensures
            r@ == report_text(*state, commits@, latest_tag),
    {
        let mut report = owned("====================================================\n");
        report.append("   🔄 HKUDS/nanobot 上游版本同步检测报告\n");
        report.append("====================================================\n\n");
        report.append("* 上游仓库: https://github.com/");
        report.append(state.upstream_repo.as_str());
        report.append("\n");
        report.append("* 监控分支: ");
        report.append(state.tracked_branch.as_str());
        report.append("\n");
        report.append("* 本地记录上次同步 Commit: ");
        if state.last_synced_commit.as_str().unicode_len() == 0 {
            report.append("无 (首发版本)");
        } else {
            report.append(state.last_synced_commit.as_str());
        }
        report.append("\n");
        report.append("* 最新发布 Release Tag: ");
        match &latest_tag {
            Some(t) => report.append(t.as_str()),
            None => report.append("none"),
        }
        report.append("\n\n");
        report.append("【上游最新 10 次提交记录】:\n");
        let ghost head = report@;
        let mut i: usize = 0;
        while i < commits.len()
            invariant
                i <= commits@.len(),
                forall|k: int| 0 <= k < commits@.len() ==> commit_showable(#[trigger] commits@[k]),
                report@ == head + commit_lines(commits@.take(i as int)),
            decreases commits@.len() - i,
        {
            proof {
                assert(commits@.take(i + 1).drop_last() =~= commits@.take(i as int));
                assert(commits@.take(i + 1).last() == commits@[i as int]);
                assert(commit_showable(commits@[i as int]));
            }
            let line = commit_text((i as u64) + 1, &commits[i]);
            report.append(line.as_str());
            i = i + 1;
        }
        assert(commits@.take(commits@.len() as int) =~= commits@);
        report.append("\n【已同步嵌入的静态 Prompt 模板】:\n");
        let ghost head2 = report@;
        let mut j: usize = 0;
        while j < state.synced_files.len()
            invariant
                j <= state.synced_files@.len(),
                report@ == head2 + file_lines(state.synced_files@.take(j as int)),
            decreases state.synced_files@.len() - j,
        {
            proof {
                assert(state.synced_files@.take(j + 1).drop_last() =~= state.synced_files@.take(j as int));
            }
            report.append(" - ");
            report.append(state.synced_files[j].as_str());
            report.append("\n");
            j = j + 1;
        }
        assert(state.synced_files@.take(state.synced_files@.len() as int) =~= state.synced_files@);
        report.append("\n【建议】: 可运行 `nanobot sync pull-assets` 自动更新模板文件，或查看 Diff 适配逻辑变更。\n");
        report
    }
}

} // verus!
