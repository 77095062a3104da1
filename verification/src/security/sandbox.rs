//! The sandbox: which paths tools may touch and which shell commands they may run.
use vstd::prelude::*;
use crate::paths::{
    file_name, file_name_of, has_no_parent_segment, has_path_prefix, join, join_path,
    no_parent_segment, parent, parent_of, resolve, resolve_segments, resolved_path,
    resolved_segments, segments_path, starts_with,
};
use crate::text::{cat3, contains, contains_seq, opt_chars, owned, trim, trimmed, views};

verus! {

/// The sandbox rules.
#[derive(Debug, Clone)]
pub struct SecurityPolicy {
    pub allow_outside_workspace: bool,
    pub command_blacklist: Vec<String>,
}

/// Why the sandbox refused.
#[derive(Debug, Clone)]
pub enum SandboxError {
    /// The checked path lies outside the (canonical) workspace.
    OutsideWorkspace { path: String, workspace: String },
    /// The command contains a blacklisted pattern.
    DangerousCommand { pattern: String },
}

/// What the file system says about a requested path: the workspace and the path in canonical
/// form where they resolve, whether the path exists, and its parent in canonical form.
#[derive(Debug, Clone)]
pub struct PathProbe {
    pub workspace_canonical: Option<String>,
    pub requested_exists: bool,
    pub requested_canonical: Option<String>,
    pub parent_canonical: Option<String>,
}

/// The requested path joined onto the workspace.
pub open spec fn requested_path(requested: Seq<char>, workspace: Seq<char>) -> Seq<char> {
    join_path(workspace, requested)
}

/// The path that is checked: the canonical form of an existing path; otherwise the canonical
/// parent (or the parent as written) joined with the file name; otherwise the path as written.
pub open spec fn checked_path(req: Seq<char>, probe: PathProbe) -> Seq<char> {
    if probe.requested_exists {
        match opt_chars(probe.requested_canonical) {
            Some(c) => c,
            None => req,
        }
    } else {
        match parent_of(req) {
            Some(p) => {
                let cp = match opt_chars(probe.parent_canonical) {
                    Some(c) => c,
                    None => p,
                };
                match file_name_of(req) {
                    Some(n) => join_path(cp, n),
                    None => cp,
                }
            },
            None => req,
        }
    }
}

/// The workspace that paths must stay inside: its canonical form, or as written.
pub open spec fn workspace_root(workspace: Seq<char>, probe: PathProbe) -> Seq<char> {
    match opt_chars(probe.workspace_canonical) {
        Some(c) => c,
        None => workspace,
    }
}

/// The index of the first blacklist pattern that occurs in the trimmed command, or -1.
pub open spec fn first_blocked(cmd: Seq<char>, bl: Seq<Seq<char>>, from: int) -> int
    decreases bl.len() - from,
{
    if from < 0 || from >= bl.len() {
        -1
    } else if contains_seq(trimmed(cmd), bl[from]) {
        from
    } else {
        first_blocked(cmd, bl, from + 1)
    }
}

/// The default blacklist: wiping the root, making file systems, a fork bomb, zeroing a disk,
/// opening every permission from the root.
pub open spec fn default_patterns() -> Seq<Seq<char>> {
    seq!["rm -rf /"@, "mkfs"@, ":(){ :|:& };:"@, "dd if=/dev/zero"@, "chmod -R 777 /"@]
}

impl Default for SecurityPolicy {
    fn default() -> (p: Self)
        ensures
            !p.allow_outside_workspace,
            views(p.command_blacklist@) == default_patterns(),
    {
        let mut bl: Vec<String> = Vec::new();
        bl.push(owned("rm -rf /"));
        bl.push(owned("mkfs"));
        bl.push(owned(":(){ :|:& };:"));
        bl.push(owned("dd if=/dev/zero"));
        bl.push(owned("chmod -R 777 /"));
        assert(views(bl@) =~= default_patterns());
        SecurityPolicy { allow_outside_workspace: false, command_blacklist: bl }
    }
}

impl SecurityPolicy {
    /// The path a request names: taken as is when absolute, else under the workspace. This is
    /// the path whose existence and canonical form the caller probes.
    pub fn request_path(requested: &str, workspace: &str) -> (r: String)
        ensures
            r@ == requested_path(requested@, workspace@),
    {
        join(workspace, requested)
    }

    /// Checks that a requested path stays inside the workspace. With `allow_outside_workspace`
    /// the joined path is returned unchecked. Otherwise the checked path (see `checked_path`) is
    /// returned when, with its `.` and `..` segments resolved, no `..` segment is left and it
    /// lies, component-wise, under the resolved workspace root; it is refused, naming the checked
    /// path and the workspace root, when not.
    pub fn validate_path(&self, requested: &str, workspace: &str, probe: &PathProbe) -> (r: Result<
        String,
        SandboxError,
    >)
        ensures
            ({
                let req = requested_path(requested@, workspace@);
                let check = checked_path(req, *probe);
                let root = workspace_root(workspace@, *probe);
                let resolved = resolved_path(check);
                if self.allow_outside_workspace {
                    r matches Ok(p) && p@ == req
                } else if no_parent_segment(resolved_segments(check)) && has_path_prefix(
                    resolved,
                    resolved_path(root),
                ) {
                    r matches Ok(p) && p@ == check
                } else {
                    r matches Err(SandboxError::OutsideWorkspace { path, workspace: w }) && path@
                        == check && w@ == root
                }
            }),
    {
        let ws_canon = match &probe.workspace_canonical {
            Some(c) => c.clone(),
            None => owned(workspace),
        };
        let req_path = Self::request_path(requested, workspace);
        if self.allow_outside_workspace {
            return Ok(req_path);
        }
        let check_path: String = if probe.requested_exists {
            match &probe.requested_canonical {
                Some(c) => c.clone(),
                None => req_path,
            }
        } else {
            match parent(req_path.as_str()) {
                Some(p) => {
                    let cp = match &probe.parent_canonical {
                        Some(c) => c.clone(),
                        None => p,
                    };
                    match file_name(req_path.as_str()) {
                        Some(n) => join(cp.as_str(), n.as_str()),
                        None => cp,
                    }
                },
                None => req_path,
            }
        };
        let root = resolve(ws_canon.as_str());
        let segs = resolve_segments(check_path.as_str());
        let abs = check_path.as_str().unicode_len() > 0 && check_path.as_str().get_char(0) == '/';
        let resolved = segments_path(&segs, abs);
        if !has_no_parent_segment(&segs) || !starts_with(resolved.as_str(), root.as_str()) {
            return Err(SandboxError::OutsideWorkspace { path: check_path, workspace: ws_canon });
        }
        Ok(check_path)
    }

    /// Checks a shell command against the blacklist: refused with the first pattern that occurs
    /// in the trimmed command, accepted when none does.
    pub fn validate_command(&self, cmd: &str) -> (r: Result<(), SandboxError>)
        ensures
            ({
                let k = first_blocked(cmd@, views(self.command_blacklist@), 0);
                if k < 0 {
                    r is Ok
                } else {
                    r matches Err(SandboxError::DangerousCommand { pattern }) && pattern@
                        == self.command_blacklist@[k]@
                }
            }),
    {
        let trimmed_cmd = trim(cmd);
        let mut i: usize = 0;
        while i < self.command_blacklist.len()
            invariant
                i <= self.command_blacklist@.len(),
                trimmed_cmd@ == trimmed(cmd@),
                first_blocked(cmd@, views(self.command_blacklist@), 0) == first_blocked(
                    cmd@,
                    views(self.command_blacklist@),
                    i as int,
                ),
            decreases self.command_blacklist@.len() - i,
        {
            if contains(trimmed_cmd.as_str(), self.command_blacklist[i].as_str()) {
                return Err(
                    SandboxError::DangerousCommand { pattern: self.command_blacklist[i].clone() },
                );
            }
            i = i + 1;
        }
        Ok(())
    }
}

/// What `format!("{:?}", path)` writes for a path: the text quoted, with `Debug` escapes.
pub uninterp spec fn debug_text(s: Seq<char>) -> Seq<char>;

/// `Debug` formatting of a path; named `debug_text` of the argument.
#[verifier::external_body]
pub fn debug_quoted(s: &str) -> (r: String)
    ensures
        r@ == debug_text(s@),
{
    format!("{:?}", std::path::Path::new(s))
}

impl SandboxError {
    /// The message that tools report for the refusal.
    pub fn message(&self) -> (m: String)
        ensures
            match self {
                SandboxError::OutsideWorkspace { path, workspace } => m@ == "安全沙箱拒绝访问：路径 "@
                    + debug_text(path@) + " 超出允许的工作区范围 "@ + debug_text(workspace@),
                SandboxError::DangerousCommand { pattern } => m@ == "安全审计拦截：命令包含危险指令模式 '"@
                    + pattern@ + "'，拒绝执行"@,
            },
    {
        match self {
            SandboxError::OutsideWorkspace { path, workspace } => {
                let p = debug_quoted(path.as_str());
                let w = debug_quoted(workspace.as_str());
                let a = cat3("安全沙箱拒绝访问：路径 ", p.as_str(), " 超出允许的工作区范围 ");
                crate::text::cat(a.as_str(), w.as_str())
            },
            SandboxError::DangerousCommand { pattern } => {
                cat3("安全审计拦截：命令包含危险指令模式 '", pattern.as_str(), "'，拒绝执行")
            },
        }
    }
}

} // verus!
