//! The player: identity, title and total XP.
use vstd::prelude::*;
use crate::xp::{LevelProgress, level_progress_of, progress_from_total_xp};

verus! {

pub const MAX_ENERGY: u8 = 100;

/// The class chosen at character creation; it is shown, it changes no rule.
#[derive(Debug, Clone, Copy, PartialEq, Eq, Structural)]
pub enum CharacterClass {
    Scholar,
    Engineer,
    Mage,
    Warrior,
    Archer,
}

#[derive(Debug, Clone, Copy, PartialEq, Eq, Structural)]
pub enum Mood {
    Focused,
    Tired,
    Happy,
}

#[derive(Debug, PartialEq, Eq)]
pub struct Player {
    pub name: String,
    pub class: CharacterClass,
    pub title: String,
    pub total_xp: u32,
    pub energy: u8,
    pub mood: Mood,
}

impl Clone for Player {
    fn clone(&self) -> (r: Self)
        ensures
            r == *self,
    {
        Player {
            name: self.name.clone(),
            class: self.class,
            title: self.title.clone(),
            total_xp: self.total_xp,
            energy: self.energy,
            mood: self.mood,
        }
    }
}

/// What a player is, with its texts as character sequences.
#[verifier::ext_equal]
pub struct PlayerView {
    pub name: Seq<char>,
    pub class: CharacterClass,
    pub title: Seq<char>,
    pub total_xp: u32,
    pub energy: u8,
    pub mood: Mood,
}

impl View for Player {
    type V = PlayerView;

    open spec fn view(&self) -> PlayerView {
        PlayerView {
            name: self.name@,
            class: self.class,
            title: self.title@,
            total_xp: self.total_xp,
            energy: self.energy,
            mood: self.mood,
        }
    }
}

/// A player after gaining `amount` XP: the total saturates and the title follows the level.
pub open spec fn player_after_grant(player: PlayerView, amount: int) -> PlayerView {
    let total = saturating_add_spec(player.total_xp as int, amount) as u32;
    PlayerView { total_xp: total, title: title_spec(level_progress_of(total).level), ..player }
}

/// The outcome of granting XP: how much, and the level progress before and after.
#[derive(Debug, Clone, Copy, PartialEq, Eq)]
pub struct XpGrant {
    pub gained_xp: u32,
    pub before: LevelProgress,
    pub after: LevelProgress,
}

/// `a + b`, saturating at `u32::MAX`.
pub open spec fn saturating_add_spec(a: int, b: int) -> int {
    if a + b > u32::MAX {
        u32::MAX as int
    } else {
        a + b
    }
}

/// The title that goes with a level: levels 1 to 4, 5 to 9, 10 to 19, 20 to 39, and any other.
pub open spec fn title_spec(level: u32) -> Seq<char> {
    if level == 0 {
        "Legendary Learner"@
    } else if level <= 4 {
        "Novice Learner"@
    } else if level <= 9 {
        "Knowledge Hunter"@
    } else if level <= 19 {
        "Scholar Adventurer"@
    } else if level <= 39 {
        "Master Student"@
    } else {
        "Legendary Learner"@
    }
}

/// The title of a player at `level`.
pub fn title_for_level(level: u32) -> (title: &'static str)
    ensures
        title@ == title_spec(level),
{
    if level == 0 {
        "Legendary Learner"
    } else if level <= 4 {
        "Novice Learner"
    } else if level <= 9 {
        "Knowledge Hunter"
    } else if level <= 19 {
        "Scholar Adventurer"
    } else if level <= 39 {
        "Master Student"
    } else {
        "Legendary Learner"
    }
}

impl Player {
    /// A fresh player: no XP, full energy, focused, with the first title.
    pub fn new(name: &str, class: CharacterClass) -> (player: Self)
        ensures
            player@ == (PlayerView {
                name: name@,
                class,
                title: title_spec(1),
                total_xp: 0,
                energy: MAX_ENERGY,
                mood: Mood::Focused,
            }),
    {
        Player {
            name: String::from_str(name),
            class,
            title: String::from_str(title_for_level(1)),
            total_xp: 0,
            energy: MAX_ENERGY,
            mood: Mood::Focused,
        }
    }

    pub fn level_progress(&self) -> (p: LevelProgress)
        ensures
            p == level_progress_of(self.total_xp),
    {
        progress_from_total_xp(self.total_xp)
    }

    /// Adds XP (saturating) and moves the title to the one of the level reached.
    pub fn grant_xp(&mut self, amount: u32) -> (grant: XpGrant)
        ensures
            final(self)@ == player_after_grant(old(self)@, amount as int),
            grant.gained_xp == amount,
            grant.before == level_progress_of(old(self).total_xp),
            grant.after == level_progress_of(final(self).total_xp),
    {
        let before = self.level_progress();
        self.total_xp = self.total_xp.saturating_add(amount);
        let after = self.level_progress();
        self.title = String::from_str(title_for_level(after.level));
        XpGrant { gained_xp: amount, before, after }
    }
}

} // verus!
