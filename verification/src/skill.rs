//! Study skills: abilities that gather XP across sessions.
use vstd::prelude::*;
use crate::player::saturating_add_spec;
use crate::xp::{LevelProgress, level_progress_of, progress_from_total_xp};

verus! {

#[derive(Debug, PartialEq, Eq)]
pub struct Skill {
    pub id: u64,
    pub name: String,
    pub parent_id: Option<u64>,
    pub total_xp: u32,
    pub unlocked: bool,
}

impl Clone for Skill {
    fn clone(&self) -> (r: Self)
        ensures
            r == *self,
    {
        Skill {
            id: self.id,
            name: self.name.clone(),
            parent_id: self.parent_id,
            total_xp: self.total_xp,
            unlocked: self.unlocked,
        }
    }
}

/// What a skill is, with its name as a character sequence.
#[verifier::ext_equal]
pub struct SkillView {
    pub id: u64,
    pub name: Seq<char>,
    pub parent_id: Option<u64>,
    pub total_xp: u32,
    pub unlocked: bool,
}

impl View for Skill {
    type V = SkillView;

    open spec fn view(&self) -> SkillView {
        SkillView {
            id: self.id,
            name: self.name@,
            parent_id: self.parent_id,
            total_xp: self.total_xp,
            unlocked: self.unlocked,
        }
    }
}

/// A skill after gaining `amount` XP (saturating).
pub open spec fn skill_after_grant(skill: SkillView, amount: int) -> SkillView {
    SkillView { total_xp: saturating_add_spec(skill.total_xp as int, amount) as u32, ..skill }
}

/// Mastery shown for a level: five percent a level, at most one hundred.
pub open spec fn mastery_spec(level: u32) -> u8 {
    if level * 5 >= 100 {
        100
    } else {
        (level * 5) as u8
    }
}

impl Skill {
    /// A skill with no XP; a root skill starts unlocked, a child skill locked.
    pub fn new(id: u64, name: &str, parent_id: Option<u64>) -> (skill: Self)
        ensures
            skill@ == (SkillView {
                id,
                name: name@,
                parent_id,
                total_xp: 0,
                unlocked: parent_id is None,
            }),
    {
        Skill {
            id,
            name: String::from_str(name),
            parent_id,
            total_xp: 0,
            unlocked: parent_id.is_none(),
        }
    }

    /// Adds XP (saturating) and returns the skill's new level progress.
    pub fn grant_xp(&mut self, amount: u32) -> (p: LevelProgress)
        ensures
            final(self)@ == skill_after_grant(old(self)@, amount as int),
            *final(self) == (Skill { total_xp: final(self).total_xp, ..*old(self) }),
            p == level_progress_of(final(self).total_xp),
    {
        self.total_xp = self.total_xp.saturating_add(amount);
        progress_from_total_xp(self.total_xp)
    }

    /// Mastery in percent: five a level, capped at one hundred.
    pub fn mastery_percent(&self) -> (m: u8)
        ensures
            m == mastery_spec(level_progress_of(self.total_xp).level),
    {
        let level = progress_from_total_xp(self.total_xp).level;
        if level >= 20 {
            100
        } else {
            (level * 5) as u8
        }
    }
}

} // verus!
