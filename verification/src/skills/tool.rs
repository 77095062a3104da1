//! The `load_skill` tool.
use vstd::prelude::*;
use std::sync::Arc;
use super::{Skill, SkillsManager};
use crate::text::{cat, cat3};
use crate::tools::ToolResult;

verus! {

/// The `load_skill` tool.
pub struct LoadSkillTool {
    manager: Arc<SkillsManager>,
}

impl LoadSkillTool {
    /// The tool over `manager`.
    pub fn new(manager: Arc<SkillsManager>) -> (t: Self)
        ensures
            t.skills() == *manager,
    {
        LoadSkillTool { manager }
    }

    /// The skills it loads from.
    pub closed spec fn skills(&self) -> SkillsManager {
        *self.manager
    }

    /// Loads the skill `name`: its full text under a heading, or an error when unknown.
    pub fn load(&self, name: &str) -> (r: ToolResult)
        ensures
            !r.is_error ==> exists|i: int|
                0 <= i < self.skills().entries().len() && #[trigger] self.skills().entries()[i].name@
                    == name@ && r.output@ == "=== Skill: "@ + name@ + " ===\n\n"@
                    + self.skills().entries()[i].content@,
            r.is_error ==> (forall|i: int|
                0 <= i < self.skills().entries().len() ==> #[trigger] self.skills().entries()[i].name@
                    != name@) && r.output@ == "未找到名为 '"@ + name@ + "' 的技能"@,
    {
        let m: &SkillsManager = &*self.manager;
        assert(*m == self.skills());
        match m.get(name) {
            Some(s) => {
                let a = cat3("=== Skill: ", s.name.as_str(), " ===\n\n");
                ToolResult::success(cat(a.as_str(), s.content.as_str()))
            },
            None => ToolResult::error(cat3("未找到名为 '", name, "' 的技能")),
        }
    }
}

} // verus!
