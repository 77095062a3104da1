//! The system prompt of a new conversation.
use vstd::prelude::*;
use crate::text::{owned, trim, trimmed};

verus! {

/// Builds system prompts.
pub struct ContextBuilder;

/// What the prompt says about its surroundings: platform, date, and the persona and tool
/// contract templates.
#[derive(Debug, Clone)]
pub struct PromptEnvironment {
    pub os: String,
    pub arch: String,
    pub date: String,
    pub soul: String,
    pub tool_contract: String,
}

/// The memories as shown: a placeholder when they are blank.
pub open spec fn memories_shown(memories: Seq<char>) -> Seq<char> {
    if trimmed(memories).len() == 0 {
        "（暂无持久化记忆）"@
    } else {
        memories
    }
}

/// The system prompt.
pub open spec fn system_prompt(
    env: PromptEnvironment,
    workspace: Seq<char>,
    memories: Seq<char>,
    skills_section: Seq<char>,
) -> Seq<char> {
    "You are nanobot-rs, an ultra-lightweight, high-performance personal AI agent rewritten in Rust.\nCurrent Platform: "@
        + env.os@ + " "@ + env.arch@ + "\nCurrent Date: "@ + env.date@ + "\nCurrent Workspace: "@
        + workspace + "\n\n# Core Persona & Guidelines\n"@ + env.soul@ + "\n\n# Tool Contract\n"@
        + env.tool_contract@ + "\n\n# Long-term Memories\n"@ + memories_shown(memories) + "\n\n"@
        + skills_section
        + "\n\nAlways be direct, action-oriented, and concise. When asked to perform tasks, prefer dedicated tools over talking."@
}

impl ContextBuilder {
    /// The system prompt: identity, platform, date, workspace, persona, tool contract, the
    /// long-term memories (or a placeholder when blank), the skills section and a closing
    /// instruction.
    pub fn build_system_prompt(
        env: &PromptEnvironment,
        workspace: &str,
        memories: &str,
        skills_section: &str,
    ) -> (r: String)
        ensures
            r@ == system_prompt(*env, workspace@, memories@, skills_section@),
    {
        let t = trim(memories);
        let mem: String = if t.as_str().unicode_len() == 0 {
            owned("（暂无持久化记忆）")
        } else {
            owned(memories)
        };
        let mut out = owned(
            "You are nanobot-rs, an ultra-lightweight, high-performance personal AI agent rewritten in Rust.\nCurrent Platform: ",
        );
        out.append(env.os.as_str());
        out.append(" ");
        out.append(env.arch.as_str());
        out.append("\nCurrent Date: ");
        out.append(env.date.as_str());
        out.append("\nCurrent Workspace: ");
        out.append(workspace);
        out.append("\n\n# Core Persona & Guidelines\n");
        out.append(env.soul.as_str());
        out.append("\n\n# Tool Contract\n");
        out.append(env.tool_contract.as_str());
        out.append("\n\n# Long-term Memories\n");
        out.append(mem.as_str());
        out.append("\n\n");
        out.append(skills_section);
        out.append(
            "\n\nAlways be direct, action-oriented, and concise. When asked to perform tasks, prefer dedicated tools over talking.",
        );
        out
    }
}

} // verus!
