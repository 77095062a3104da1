//! Skills: named instruction documents (`SKILL.md`) the agent can load on demand.
pub mod tool;

use vstd::prelude::*;
use crate::text::{cat3, has_prefix, lines, lines_of, owned, starts_with, str_eq, trim, trimmed, views};

verus! {

/// A skill: its name (the directory holding its `SKILL.md`), a one-line description, the
/// file's path and its full text.
#[derive(Debug, Clone)]
pub struct Skill {
    pub name: String,
    pub description: String,
    pub path: String,
    pub content: String,
}

/// The known skills, in the order their names were first seen.
#[derive(Debug)]
pub struct SkillsManager {
    skills: Vec<Skill>,
}

/// The first line that is not blank once trimmed and does not start with `#`.
pub open spec fn first_plain_line(ls: Seq<Seq<char>>) -> Option<Seq<char>>
    decreases ls.len(),
{
    if ls.len() == 0 {
        None
    } else if trimmed(ls[0]).len() > 0 && !has_prefix(ls[0], "#"@) {
        Some(ls[0])
    } else {
        first_plain_line(ls.drop_first())
    }
}

/// The description of a skill text: its first plain line, trimmed; `无描述` trimmed when none.
pub open spec fn description_of(content: Seq<char>) -> Seq<char> {
    trimmed(
        match first_plain_line(lines_of(content)) {
            Some(l) => l,
            None => "无描述"@,
        },
    )
}

/// Names are unique.
pub open spec fn unique_names(s: Seq<Skill>) -> bool {
    forall|i: int, j: int| 0 <= i < j < s.len() ==> s[i].name@ != s[j].name@
}

/// The skills after adding `k`: it replaces a skill of the same name in place, or is appended.
pub open spec fn with_skill(s: Seq<Skill>, k: Skill) -> Seq<Skill> {
    if exists|i: int| 0 <= i < s.len() && s[i].name@ == k.name@ {
        s.update(choose|i: int| 0 <= i < s.len() && s[i].name@ == k.name@, k)
    } else {
        s.push(k)
    }
}

/// The skills after adding each of `ks` in order.
pub open spec fn with_skills(s: Seq<Skill>, ks: Seq<Skill>) -> Seq<Skill>
    decreases ks.len(),
{
    if ks.len() == 0 {
        s
    } else {
        with_skill(with_skills(s, ks.drop_last()), ks.last())
    }
}

/// The line of a skill in the system prompt.
pub open spec fn skill_line(k: Skill) -> Seq<char> {
    "- **"@ + k.name@ + "**: "@ + k.description@ + "\n"@
}

/// The lines of all skills.
pub open spec fn skill_lines(s: Seq<Skill>) -> Seq<char>
    decreases s.len(),
{
    if s.len() == 0 {
        seq![]
    } else {
        skill_lines(s.drop_last()) + skill_line(s.last())
    }
}

/// The heading of the skills section.
pub open spec fn skills_heading() -> Seq<char> {
    "# Available Skills\n\nWhen user requests a matching skill, call `load_skill` to read its full instructions before proceeding:\n\n"@
}

impl Skill {
    /// A copy of the skill.
    pub fn duplicate(&self) -> (r: Skill)
        ensures
            r == *self,
    {
        Skill {
            name: self.name.clone(),
            description: self.description.clone(),
            path: self.path.clone(),
            content: self.content.clone(),
        }
    }

    /// The skill read from a `SKILL.md` at `path` whose directory is named `dir_name` (or
    /// `unknown` when it has none) and whose text is `content`.
    pub fn from_file(dir_name: Option<String>, path: &str, content: &str) -> (k: Skill)
        ensures
            k.name@ == match dir_name {
                Some(d) => d@,
                None => "unknown"@,
            },
            k.description@ == description_of(content@),
            k.path@ == path@,
            k.content@ == content@,
    {
        let name = match dir_name {
            Some(d) => d,
            None => owned("unknown"),
        };
        let ls = lines(content);
        let ghost lsv = lines_of(content@);
        assert(views(ls@) =~= lsv);
        let mut i: usize = 0;
        let mut found: Option<usize> = None;
        assert(lsv.skip(0) =~= lsv);
        while i < ls.len() && found.is_none()
            invariant
                views(ls@) == lsv,
                i <= ls@.len(),
                found is None ==> first_plain_line(lsv) == first_plain_line(lsv.skip(i as int)),
                found matches Some(j) ==> j < ls@.len() && first_plain_line(lsv) == Some(lsv[j as int]),
            decreases ls@.len() - i,
        {
            proof {
                assert(lsv.skip(i as int)[0] == ls@[i as int]@);
                assert(lsv.skip(i as int).drop_first() =~= lsv.skip(i + 1));
            }
            let t = trim(ls[i].as_str());
            if t.as_str().unicode_len() > 0 && !starts_with(ls[i].as_str(), "#") {
                found = Some(i);
            }
            i = i + 1;
        }
        let desc = match found {
            Some(j) => {
                proof {
                    assert(views(ls@)[j as int] == ls@[j as int]@);
                }
                trim(ls[j].as_str())
            },
            None => {
                proof {
                    assert(lsv.skip(ls@.len() as int) =~= Seq::<Seq<char>>::empty());
                }
                trim("无描述")
            },
        };
        Skill { name, description: desc, path: owned(path), content: owned(content) }
    }
}

impl SkillsManager {
    #[verifier::type_invariant]
    spec fn wf(self) -> bool {
        unique_names(self.skills@)
    }

    /// The skills, in order.
    pub closed spec fn entries(&self) -> Seq<Skill> {
        self.skills@
    }

    /// No skills.
    pub fn new() -> (m: SkillsManager)
        ensures
            m.entries().len() == 0,
    {
        let v: Vec<Skill> = Vec::new();
        assert(v@.len() == 0);
        SkillsManager { skills: v }
    }

    /// The skills `ks`, added in order; a later skill replaces an earlier one of the same
    /// name.
    pub fn from_skills(ks: Vec<Skill>) -> (m: SkillsManager)
        ensures
            m.entries() == with_skills(Seq::<Skill>::empty(), ks@),
    {
        let mut m = SkillsManager::new();
        let mut i: usize = 0;
        while i < ks.len()
            invariant
                i <= ks@.len(),
                m.entries() == with_skills(Seq::<Skill>::empty(), ks@.take(i as int)),
            decreases ks@.len() - i,
        {
            proof {
                assert(ks@.take(i + 1).drop_last() =~= ks@.take(i as int));
            }
            m.add(ks[i].duplicate());
            i = i + 1;
        }
        assert(ks@.take(ks@.len() as int) =~= ks@);
        m
    }

    fn position(&self, name: &str) -> (r: Option<usize>)
        ensures
            match r {
                Some(i) => i < self.skills@.len() && self.skills@[i as int].name@ == name@,
                None => forall|i: int| 0 <= i < self.skills@.len() ==> self.skills@[i].name@ != name@,
            },
    {
        let mut i: usize = 0;
        while i < self.skills.len()
            invariant
                i <= self.skills@.len(),
                forall|j: int| 0 <= j < i ==> self.skills@[j].name@ != name@,
            decreases self.skills@.len() - i,
        {
            if str_eq(self.skills[i].name.as_str(), name) {
                return Some(i);
            }
            i = i + 1;
        }
        None
    }

    /// Adds a skill; one of the same name is replaced in place.
    pub fn add(&mut self, k: Skill)
        ensures
            final(self).entries() == with_skill(old(self).entries(), k),
    {
        proof {
            use_type_invariant(&*self);
        }
        let pos = self.position(k.name.as_str());
        let ghost before = self.skills@;
        let mut skills: Vec<Skill> = Vec::new();
        std::mem::swap(&mut skills, &mut self.skills);
        assert(skills@ == before);
        match pos {
            Some(i) => {
                proof {
                    let j = choose|j: int| 0 <= j < skills@.len() && skills@[j].name@ == k.name@;
                    assert(j == i);
                    assert forall|a: int, b: int| 0 <= a < b < skills@.len() implies
                        #[trigger] skills@.update(i as int, k)[a].name@ != #[trigger] skills@.update(i as int, k)[b].name@ by {}
                }
                skills.set(i, k);
            },
            None => {
                proof {
                    assert forall|a: int, b: int| 0 <= a < b < skills@.len() + 1 implies
                        #[trigger] skills@.push(k)[a].name@ != #[trigger] skills@.push(k)[b].name@ by {
                        if b == skills@.len() {
                            assert(skills@[a].name@ != k.name@);
                        }
                    }
                }
                skills.push(k);
            },
        }
        self.skills = skills;
    }

    /// The skill named `name`.
    pub fn get(&self, name: &str) -> (r: Option<Skill>)
        ensures
            match r {
                Some(k) => exists|i: int|
                    0 <= i < self.entries().len() && self.entries()[i] == k && k.name@ == name@,
                None => forall|i: int|
                    0 <= i < self.entries().len() ==> self.entries()[i].name@ != name@,
            },
    {
        match self.position(name) {
            Some(i) => {
                let k = self.skills[i].duplicate();
                assert(self.entries()[i as int] == k);
                Some(k)
            },
            None => None,
        }
    }

    /// All skills, in order; no two share a name.
    pub fn list(&self) -> (r: Vec<Skill>)
        ensures
            r@ == self.entries(),
            unique_names(r@),
    {
        proof {
            use_type_invariant(self);
        }
        let mut r: Vec<Skill> = Vec::new();
        let mut i: usize = 0;
        while i < self.skills.len()
            invariant
                i <= self.skills@.len(),
                r@ == self.skills@.take(i as int),
            decreases self.skills@.len() - i,
        {
            r.push(self.skills[i].duplicate());
            i = i + 1;
            assert(r@ =~= self.skills@.take(i as int));
        }
        assert(self.skills@.take(self.skills@.len() as int) =~= self.skills@);
        r
    }

    /// The skills section of the system prompt: empty without skills; otherwise a heading,
    /// one `- **name**: description` line per skill, and a blank line.
    pub fn render_system_prompt_section(&self) -> (r: String)
        ensures
            self.entries().len() == 0 ==> r@.len() == 0,
            self.entries().len() > 0 ==> r@ == skills_heading() + skill_lines(self.entries()) + "\n"@,
    {
        if self.skills.len() == 0 {
            return String::new();
        }
        let mut out = owned("# Available Skills\n\nWhen user requests a matching skill, call `load_skill` to read its full instructions before proceeding:\n\n");
        let mut i: usize = 0;
        while i < self.skills.len()
            invariant
                i <= self.skills@.len(),
                out@ == skills_heading() + skill_lines(self.skills@.take(i as int)),
            decreases self.skills@.len() - i,
        {
            proof {
                assert(self.skills@.take(i + 1).drop_last() =~= self.skills@.take(i as int));
            }
            let s = &self.skills[i];
            let a = cat3("- **", s.name.as_str(), "**: ");
            let b = cat3(a.as_str(), s.description.as_str(), "\n");
            out.append(b.as_str());
            i = i + 1;
        }
        assert(self.skills@.take(self.skills@.len() as int) =~= self.skills@);
        out.append("\n");
        out
    }
}

/// Adding a skill makes it the one found under its name: afterwards the skills hold it, no other
/// skill has its name, names stay unique, and every skill of another name is kept.
pub proof fn law_skill_found_after_add(s: Seq<Skill>, k: Skill)
    requires
        unique_names(s),
    ensures
        unique_names(with_skill(s, k)),
        with_skill(s, k).contains(k),
        forall|i: int|
            0 <= i < with_skill(s, k).len() && (#[trigger] with_skill(s, k)[i]).name@ == k.name@
                ==> with_skill(s, k)[i] == k,
        forall|i: int| 0 <= i < s.len() && s[i].name@ != k.name@ ==> with_skill(s, k).contains(#[trigger] s[i]),
{
    let w = with_skill(s, k);
    if exists|i: int| 0 <= i < s.len() && s[i].name@ == k.name@ {
        let p = choose|i: int| 0 <= i < s.len() && s[i].name@ == k.name@;
        assert(w[p] == k);
        assert forall|i: int| 0 <= i < s.len() && s[i].name@ != k.name@ implies w.contains(#[trigger] s[i]) by {
            assert(w[i] == s[i]);
        }
    } else {
        assert(w[s.len() as int] == k);
        assert forall|i: int| 0 <= i < s.len() && s[i].name@ != k.name@ implies w.contains(#[trigger] s[i]) by {
            assert(w[i] == s[i]);
        }
        assert forall|a: int, b: int| 0 <= a < b < w.len() implies w[a].name@ != w[b].name@ by {
            if b == s.len() {
                assert(w[a] == s[a]);
            }
        }
    }
}

} // verus!
