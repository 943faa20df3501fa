//! Study RPG: study sessions earn XP, raise levels, advance daily quests and feed statistics.
pub mod xp;
pub mod text;
pub mod session;
pub mod player;
pub mod skill;
pub mod growth;
pub mod quest;
pub mod calendar;
pub mod statistics;
pub mod study_rpg;
pub mod skill_tree;
pub mod dashboard;
pub mod codec;
pub mod desktop;
pub mod feedback;
pub mod companion;
pub mod laws;

pub use companion::{CompanionWindowBounds, place_companion_window};
pub use dashboard::{
    Dashboard, DashboardActiveSession, DashboardDailyQuestCompletion, DashboardQuest,
    DashboardSession, DashboardSkill,
};
pub use calendar::CalendarDate;
pub use desktop::{CompanionMode, CompanionPreferences, DesktopController, DesktopError};
pub use growth::{GrowthEvent, GrowthEventKind};
pub use player::{CharacterClass, MAX_ENERGY, Mood, Player};
pub use quest::{Quest, QuestTarget};
pub use session::{ActiveStudySession, StudySession};
pub use skill::Skill;
pub use statistics::{DailyStudyStatistics, StudyStatistics, StudyStatisticsReport};
pub use study_rpg::{
    StudyRpg, StudyRpgError, StudyRpgSnapshot, StudySessionInput, StudySessionResult,
    StudySessionStartInput,
};
pub use study_rpg::{default_daily_quests, default_daily_quests_for_day};
