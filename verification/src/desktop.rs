//! The desktop controller: what the desktop shell asks of the game, decided here, while the
//! shell does the saving. Every call that changes the game leaves the new state in the
//! controller; the shell then saves it, and on a failed save hands the previous state back
//! with `restore`.
use vstd::prelude::*;
use crate::dashboard::{Dashboard, dashboard_fits, dashboard_of};
use crate::player::CharacterClass;
use crate::skill::SkillView;
use crate::session::day_of;
use crate::statistics::{StudyStatisticsReport, report_of};
use crate::study_rpg::{
    StudyRpg, StudyRpgError, StudyRpgModel, StudySessionResult, StudySessionStartInput, can_finish,
    create_skill_error, has_skill, max_skill_id, new_game, quests_are_of_day, record_spec, refreshed,
    timer_input, with_new_skill,
};
use crate::session::completed_minutes_spec;
use crate::text::{eq_ignore_ascii_case, eq_ignore_ascii_case_spec, trim_spec, trim_text};

verus! {

#[derive(Debug, Clone, Copy, PartialEq, Eq, Structural)]
pub enum CompanionMode {
    Compact,
    Expanded,
}

impl CompanionMode {
    /// The word that saves a mode.
    pub fn as_str(self) -> (text: &'static str)
        ensures
            text@ == mode_text(self),
    {
        match self {
            CompanionMode::Compact => "compact",
            CompanionMode::Expanded => "expanded",
        }
    }

    /// The mode a saved word names; anything but "expanded" reads as compact.
    pub fn from_str(value: &str) -> (mode: CompanionMode)
        ensures
            mode == (if value@ == "expanded"@ {
                CompanionMode::Expanded
            } else {
                CompanionMode::Compact
            }),
    {
        if crate::codec::text_equals(value, "expanded") {
            CompanionMode::Expanded
        } else {
            CompanionMode::Compact
        }
    }
}

pub open spec fn mode_text(mode: CompanionMode) -> Seq<char> {
    match mode {
        CompanionMode::Compact => "compact"@,
        CompanionMode::Expanded => "expanded"@,
    }
}

/// Reading back the word saved for a mode gives the mode.
pub proof fn lemma_mode_round_trip(mode: CompanionMode)
    ensures
        (if mode_text(mode) == "expanded"@ {
            CompanionMode::Expanded
        } else {
            CompanionMode::Compact
        }) == mode,
{
    reveal_strlit("compact");
    reveal_strlit("expanded");
    assert("compact"@ != "expanded"@) by {
        assert("compact"@[0] != "expanded"@[0]);
    }
}

#[derive(Debug, Clone, Copy, PartialEq, Eq, Structural)]
pub struct CompanionPreferences {
    pub mode: CompanionMode,
    pub y_position: Option<i32>,
}

impl Default for CompanionPreferences {
    fn default() -> (r: Self)
        ensures
            r == (CompanionPreferences { mode: CompanionMode::Compact, y_position: None }),
    {
        CompanionPreferences { mode: CompanionMode::Compact, y_position: None }
    }
}

#[derive(Debug, PartialEq, Eq)]
pub enum DesktopError {
    EmptyPlayerName,
    EmptyTopic,
    CharacterAlreadyCreated,
    CharacterNotCreated,
    StudyRpg(StudyRpgError),
    /// A start request named a skill both by id and by name.
    AmbiguousSkill,
    /// Saving failed; the text says why.
    Storage(String),
}

pub open spec fn study_error_text(error: StudyRpgError) -> Seq<char> {
    match error {
        StudyRpgError::StudySessionAlreadyActive => "已有正在进行的学习计时"@,
        StudyRpgError::NoActiveStudySession => "当前没有正在进行的学习计时"@,
        StudyRpgError::StudySessionTooShort => "至少学习满一分钟后才能结算"@,
        StudyRpgError::EmptySkillName => "请先输入技能名称"@,
        StudyRpgError::UnknownSkillParent => "所选的上级技能不存在"@,
        StudyRpgError::DuplicateSkillName => "同一上级技能下已有同名技能"@,
        StudyRpgError::UnknownSkill => "所选技能不存在"@,
    }
}

/// The message shown for an error.
pub open spec fn error_text(error: DesktopError) -> Seq<char> {
    match error {
        DesktopError::EmptyPlayerName => "请先输入角色名称"@,
        DesktopError::EmptyTopic => "请先输入学习主题"@,
        DesktopError::CharacterAlreadyCreated => "角色已经创建"@,
        DesktopError::CharacterNotCreated => "请先创建角色"@,
        DesktopError::StudyRpg(e) => study_error_text(e),
        DesktopError::AmbiguousSkill => "请选择已有技能或填写新技能名称"@,
        DesktopError::Storage(detail) => "无法保存本地数据："@ + detail@,
    }
}

fn study_error_message(error: StudyRpgError) -> (text: &'static str)
    ensures
        text@ == study_error_text(error),
{
    match error {
        StudyRpgError::StudySessionAlreadyActive => "已有正在进行的学习计时",
        StudyRpgError::NoActiveStudySession => "当前没有正在进行的学习计时",
        StudyRpgError::StudySessionTooShort => "至少学习满一分钟后才能结算",
        StudyRpgError::EmptySkillName => "请先输入技能名称",
        StudyRpgError::UnknownSkillParent => "所选的上级技能不存在",
        StudyRpgError::DuplicateSkillName => "同一上级技能下已有同名技能",
        StudyRpgError::UnknownSkill => "所选技能不存在",
    }
}

impl DesktopError {
    /// The message shown to the player.
    pub fn message(&self) -> (text: String)
        ensures
            text@ == error_text(*self),
    {
        match self {
            DesktopError::EmptyPlayerName => String::from_str("请先输入角色名称"),
            DesktopError::EmptyTopic => String::from_str("请先输入学习主题"),
            DesktopError::CharacterAlreadyCreated => String::from_str("角色已经创建"),
            DesktopError::CharacterNotCreated => String::from_str("请先创建角色"),
            DesktopError::StudyRpg(error) => String::from_str(study_error_message(*error)),
            DesktopError::AmbiguousSkill => String::from_str("请选择已有技能或填写新技能名称"),
            DesktopError::Storage(detail) => {
                let mut text = String::from_str("无法保存本地数据：");
                text.append(detail.as_str());
                text
            },
        }
    }
}

impl From<StudyRpgError> for DesktopError {
    fn from(error: StudyRpgError) -> (r: Self) {
        DesktopError::StudyRpg(error)
    }
}

impl vstd::std_specs::convert::FromSpecImpl<StudyRpgError> for DesktopError {
    open spec fn obeys_from_spec() -> bool {
        true
    }

    open spec fn from_spec(error: StudyRpgError) -> DesktopError {
        DesktopError::StudyRpg(error)
    }
}

/// The state the desktop works on: the game, once a character exists, and the companion
/// window preferences.
pub struct DesktopController {
    app: Option<StudyRpg>,
    companion_preferences: CompanionPreferences,
}

/// The game, if a character has been created, as mathematical values.
pub open spec fn app_model(app: Option<StudyRpg>) -> Option<StudyRpgModel> {
    match app {
        Some(a) => Some(a@),
        None => None,
    }
}

/// The id of the first root skill named `name` (ignoring ASCII case), if any.
pub open spec fn root_skill_named(skills: Seq<SkillView>, name: Seq<char>) -> Option<u64>
    decreases skills.len(),
{
    if skills.len() == 0 {
        None
    } else if skills[0].parent_id is None && eq_ignore_ascii_case_spec(skills[0].name, name) {
        Some(skills[0].id)
    } else {
        root_skill_named(skills.drop_first(), name)
    }
}

proof fn lemma_root_skill_named_is_a_skill(skills: Seq<SkillView>, name: Seq<char>)
    ensures
        root_skill_named(skills, name) matches Some(id) ==> has_skill(skills, id),
    decreases skills.len(),
{
    if skills.len() > 0 {
        lemma_root_skill_named_is_a_skill(skills.drop_first(), name);
        if let Some(id) = root_skill_named(skills.drop_first(), name) {
            let k = choose|k: int| 0 <= k < skills.drop_first().len() && skills.drop_first()[k].id == id;
            assert(skills[k + 1].id == id);
        }
    }
}

impl DesktopController {
    pub closed spec fn state(&self) -> Option<StudyRpgModel> {
        app_model(self.app)
    }

    pub closed spec fn preferences(&self) -> CompanionPreferences {
        self.companion_preferences
    }

    pub closed spec fn wf(&self) -> bool {
        match self.app {
            Some(a) => a.wf(),
            None => true,
        }
    }

    /// The controller over a loaded game (if any): the game's quests are moved to today. The
    /// flag says whether that changed the game, so that it must be saved.
    pub fn load(app: Option<StudyRpg>, companion_preferences: CompanionPreferences, current_epoch_seconds: u64) -> (r: (Self, bool))
        requires
            match app {
                Some(a) => a.wf(),
                None => true,
            },
        ensures
            r.0.wf(),
            r.0.preferences() == companion_preferences,
            r.0.state() == match app_model(app) {
                Some(m) => Some(refreshed(m, current_epoch_seconds)),
                None => None,
            },
            r.1 == match app_model(app) {
                Some(m) => !quests_are_of_day(m.daily_quests, day_of(current_epoch_seconds)),
                None => false,
            },
    {
        match app {
            Some(mut existing) => {
                let changed = existing.refresh_daily_quests_at(current_epoch_seconds);
                (DesktopController { app: Some(existing), companion_preferences }, changed)
            },
            None => (DesktopController { app: None, companion_preferences }, false),
        }
    }

    /// Loads, and creates the character when none exists yet; the flag says whether the game
    /// must be saved.
    pub fn load_or_create(
        app: Option<StudyRpg>,
        companion_preferences: CompanionPreferences,
        player_name: &str,
        class: CharacterClass,
        current_epoch_seconds: u64,
    ) -> (r: Result<(Self, bool), DesktopError>)
        requires
            match app {
                Some(a) => a.wf(),
                None => true,
            },
        ensures
            match r {
                Ok((c, must_save)) => {
                    &&& c.wf()
                    &&& c.preferences() == companion_preferences
                    &&& match app_model(app) {
                        Some(m) => c.state() == Some(refreshed(m, current_epoch_seconds)) && must_save
                            == !quests_are_of_day(m.daily_quests, day_of(current_epoch_seconds)),
                        None => trim_spec(player_name@).len() > 0 && must_save && c.state() == Some(
                            refreshed(new_game(trim_spec(player_name@), class), current_epoch_seconds),
                        ),
                    }
                },
                Err(e) => app is None && trim_spec(player_name@).len() == 0 && e
                    == DesktopError::EmptyPlayerName,
            },
    {
        let (mut controller, changed) = Self::load(app, companion_preferences, current_epoch_seconds);
        if controller.needs_character_creation() {
            match controller.create_character(player_name, class, current_epoch_seconds) {
                Ok(()) => Ok((controller, true)),
                Err(e) => Err(e),
            }
        } else {
            Ok((controller, changed))
        }
    }

    pub fn needs_character_creation(&self) -> (r: bool)
        ensures
            r == (self.state() is None),
    {
        self.app.is_none()
    }

    /// Creates the character from a trimmed name, with the quests of today.
    pub fn create_character(&mut self, player_name: &str, class: CharacterClass, current_epoch_seconds: u64) -> (r: Result<(), DesktopError>)
        requires
            old(self).wf(),
        ensures
            final(self).wf(),
            final(self).preferences() == old(self).preferences(),
            old(self).state() is Some ==> r == Err::<(), DesktopError>(DesktopError::CharacterAlreadyCreated)
                && final(self).state() == old(self).state(),
            old(self).state() is None && trim_spec(player_name@).len() == 0 ==> r == Err::<(), DesktopError>(
                DesktopError::EmptyPlayerName,
            ) && final(self).state() == old(self).state(),
            old(self).state() is None && trim_spec(player_name@).len() > 0 ==> r == Ok::<(), DesktopError>(())
                && final(self).state() == Some(
                refreshed(new_game(trim_spec(player_name@), class), current_epoch_seconds),
            ),
    {
        if self.app.is_some() {
            return Err(DesktopError::CharacterAlreadyCreated);
        }
        let name = trim_text(player_name);
        if name.unicode_len() == 0 {
            return Err(DesktopError::EmptyPlayerName);
        }
        let mut app = StudyRpg::new(name, class);
        app.refresh_daily_quests_at(current_epoch_seconds);
        self.app = Some(app);
        Ok(())
    }

    /// Creates a skill in the game.
    pub fn create_skill(&mut self, name: &str, parent_id: Option<u64>) -> (r: Result<u64, DesktopError>)
        requires
            old(self).wf(),
            match old(self).state() {
                Some(m) => create_skill_error(m, name@, parent_id) is None ==> max_skill_id(m.skills) + 2
                    <= u64::MAX,
                None => true,
            },
        ensures
            final(self).wf(),
            final(self).preferences() == old(self).preferences(),
            match old(self).state() {
                None => r == Err::<u64, DesktopError>(DesktopError::CharacterNotCreated)
                    && final(self).state() is None,
                Some(m) => match create_skill_error(m, name@, parent_id) {
                    Some(e) => r == Err::<u64, DesktopError>(DesktopError::StudyRpg(e))
                        && final(self).state() == Some(m),
                    None => r == Ok::<u64, DesktopError>((max_skill_id(m.skills) + 1) as u64)
                        && final(self).state() == Some(with_new_skill(m, trim_spec(name@), parent_id)),
                },
            },
    {
        match &mut self.app {
            Some(app) => match app.create_skill(name, parent_id) {
                Ok(id) => Ok(id),
                Err(e) => Err(DesktopError::StudyRpg(e)),
            },
            None => Err(DesktopError::CharacterNotCreated),
        }
    }

    /// Starts the timer on a trimmed topic, without a skill.
    pub fn start_session(&mut self, topic: &str, started_at_epoch_seconds: u64) -> (r: Result<(), DesktopError>)
        requires
            old(self).wf(),
        ensures
            final(self).wf(),
            final(self).preferences() == old(self).preferences(),
            start_outcome(old(self).state(), final(self).state(), topic@, None, started_at_epoch_seconds, r),
    {
        self.start_session_with_skill_id(topic, None, started_at_epoch_seconds)
    }

    /// Starts the timer on a trimmed topic for the skill with id `skill_id` (or none).
    pub fn start_session_with_skill_id(&mut self, topic: &str, skill_id: Option<u64>, started_at_epoch_seconds: u64) -> (r: Result<(), DesktopError>)
        requires
            old(self).wf(),
        ensures
            final(self).wf(),
            final(self).preferences() == old(self).preferences(),
            start_outcome(old(self).state(), final(self).state(), topic@, skill_id, started_at_epoch_seconds, r),
    {
        let topic = trim_text(topic);
        if topic.unicode_len() == 0 {
            return Err(DesktopError::EmptyTopic);
        }
        match &mut self.app {
            Some(app) => {
                match app.start_study_session(
                    StudySessionStartInput { topic: String::from_str(topic), skill_id },
                    started_at_epoch_seconds,
                ) {
                    Ok(_) => Ok(()),
                    Err(e) => Err(DesktopError::StudyRpg(e)),
                }
            },
            None => Err(DesktopError::CharacterNotCreated),
        }
    }

    /// Starts the timer on a trimmed topic for the root skill with the given (trimmed) name,
    /// compared ignoring ASCII case; the skill is created at the root when none has that name.
    /// An empty name means no skill.
    pub fn start_session_with_skill(&mut self, topic: &str, skill_name: Option<&str>, started_at_epoch_seconds: u64) -> (r: Result<(), DesktopError>)
        requires
            old(self).wf(),
            match old(self).state() {
                Some(m) => creates_named_skill(m, topic@, match skill_name {
                    Some(n) => Some(n@),
                    None => None,
                }) ==> max_skill_id(m.skills) + 2 <= u64::MAX,
                None => true,
            },
        ensures
            final(self).wf(),
            final(self).preferences() == old(self).preferences(),
            named_start_outcome(old(self).state(), final(self).state(), topic@, match skill_name {
                Some(n) => Some(n@),
                None => None,
            }, started_at_epoch_seconds, r),
    {
        let trimmed_topic = trim_text(topic);
        if trimmed_topic.unicode_len() == 0 {
            return Err(DesktopError::EmptyTopic);
        }
        let ghost before = self.state();
        let name = match skill_name {
            Some(raw) => trim_text(raw),
            None => "",
        };
        proof {
            reveal_strlit("");
        }
        assert(name@ == match skill_name {
            Some(n) => trim_spec(n@),
            None => Seq::<char>::empty(),
        });
        let skill_id = match &mut self.app {
            None => return Err(DesktopError::CharacterNotCreated),
            Some(app) => {
                if app.active_session().is_some() {
                    return Err(DesktopError::StudyRpg(StudyRpgError::StudySessionAlreadyActive));
                }
                if name.unicode_len() == 0 {
                    None
                } else {
                    match find_root_named(app, name) {
                        Some(id) => {
                            proof {
                                lemma_root_skill_named_is_a_skill(app@.skills, name@);
                            }
                            Some(id)
                        },
                        None => {
                            let id = app.add_skill(name, None);
                            proof {
                                let last = app@.skills.len() - 1;
                                assert(app@.skills[last].id == id);
                                assert(has_skill(app@.skills, id));
                            }
                            Some(id)
                        },
                    }
                }
            },
        };
        let ghost mid = self.state();
        let ghost m = before->0;
        let ghost g = mid->0;
        assert(skill_id is Some ==> has_skill(g.skills, skill_id->0));
        assert(name@.len() == 0 ==> g == m && skill_id is None);
        assert(name@.len() > 0 ==> match root_skill_named(m.skills, name@) {
            Some(id) => g == m && skill_id == Some(id),
            None => g == with_new_skill(m, name@, None) && skill_id == Some(
                (max_skill_id(m.skills) + 1) as u64,
            ),
        });
        let r = match &mut self.app {
            Some(app) => match app.start_study_session(
                StudySessionStartInput { topic: String::from_str(trimmed_topic), skill_id },
                started_at_epoch_seconds,
            ) {
                Ok(_) => Ok(()),
                Err(e) => Err(DesktopError::StudyRpg(e)),
            },
            None => Err(DesktopError::CharacterNotCreated),
        };
        r
    }

    /// Starts the timer for a request that names its skill by id or by name (a blank name
    /// counts as none); a request that names both is refused.
    pub fn start_session_for_request(
        &mut self,
        topic: &str,
        skill_name: Option<&str>,
        skill_id: Option<u64>,
        started_at_epoch_seconds: u64,
    ) -> (r: Result<(), DesktopError>)
        requires
            old(self).wf(),
            match old(self).state() {
                Some(m) => skill_id is None && creates_named_skill(m, topic@, match skill_name {
                    Some(n) => Some(n@),
                    None => None,
                }) ==> max_skill_id(m.skills) + 2 <= u64::MAX,
                None => true,
            },
        ensures
            final(self).wf(),
            final(self).preferences() == old(self).preferences(),
            ({
                let named = match skill_name {
                    Some(n) => trim_spec(n@).len() > 0,
                    None => false,
                };
                if skill_id is Some && named {
                    r == Err::<(), DesktopError>(DesktopError::AmbiguousSkill) && final(self).state()
                        == old(self).state()
                } else if skill_id is Some {
                    start_outcome(old(self).state(), final(self).state(), topic@, skill_id, started_at_epoch_seconds, r)
                } else {
                    named_start_outcome(old(self).state(), final(self).state(), topic@, match skill_name {
                        Some(n) => Some(n@),
                        None => None,
                    }, started_at_epoch_seconds, r)
                }
            }),
    {
        let named = match skill_name {
            Some(raw) => trim_text(raw).unicode_len() > 0,
            None => false,
        };
        match skill_id {
            Some(id) => if named {
                Err(DesktopError::AmbiguousSkill)
            } else {
                self.start_session_with_skill_id(topic, Some(id), started_at_epoch_seconds)
            },
            None => self.start_session_with_skill(topic, skill_name, started_at_epoch_seconds),
        }
    }

    /// The dashboard at `current_epoch_seconds`, after moving the quests to that day; the flag
    /// says whether that changed the game, so that it must be saved.
    pub fn dashboard_at(&mut self, current_epoch_seconds: u64) -> (r: Result<(Dashboard, bool), DesktopError>)
        requires
            old(self).wf(),
            match old(self).state() {
                Some(m) => dashboard_fits(m),
                None => true,
            },
        ensures
            final(self).wf(),
            final(self).preferences() == old(self).preferences(),
            match old(self).state() {
                None => r == Err::<(Dashboard, bool), DesktopError>(DesktopError::CharacterNotCreated)
                    && final(self).state() is None,
                Some(m) => {
                    let after = refreshed(m, current_epoch_seconds);
                    &&& final(self).state() == Some(after)
                    &&& r is Ok
                    &&& dashboard_of(r->Ok_0.0@, after, Some(current_epoch_seconds))
                    &&& r->Ok_0.1 == !quests_are_of_day(m.daily_quests, day_of(current_epoch_seconds))
                },
            },
    {
        match &mut self.app {
            Some(app) => {
                let changed = app.refresh_daily_quests_at(current_epoch_seconds);
                Ok((app.dashboard_at(current_epoch_seconds), changed))
            },
            None => Err(DesktopError::CharacterNotCreated),
        }
    }

    /// The statistics report at `current_epoch_seconds`.
    pub fn statistics_at(&self, current_epoch_seconds: u64) -> (r: Result<StudyStatisticsReport, DesktopError>)
        ensures
            match self.state() {
                None => r == Err::<StudyStatisticsReport, DesktopError>(DesktopError::CharacterNotCreated),
                Some(m) => r is Ok && report_of(r->Ok_0, m.sessions, current_epoch_seconds),
            },
    {
        match &self.app {
            Some(app) => Ok(app.statistics_at(current_epoch_seconds)),
            None => Err(DesktopError::CharacterNotCreated),
        }
    }

    /// Stops the timer and records the session.
    pub fn finish_session(&mut self, ended_at_epoch_seconds: u64) -> (r: Result<StudySessionResult, DesktopError>)
        requires
            old(self).wf(),
            match old(self).state() {
                Some(m) => can_finish(m, ended_at_epoch_seconds),
                None => true,
            },
        ensures
            final(self).wf(),
            final(self).preferences() == old(self).preferences(),
            match old(self).state() {
                None => r == Err::<StudySessionResult, DesktopError>(DesktopError::CharacterNotCreated)
                    && final(self).state() is None,
                Some(m) => match m.active_session {
                    None => r == Err::<StudySessionResult, DesktopError>(
                        DesktopError::StudyRpg(StudyRpgError::NoActiveStudySession),
                    ) && final(self).state() == Some(m),
                    Some(active) => match completed_minutes_spec(
                        active.started_at_epoch_seconds,
                        ended_at_epoch_seconds,
                    ) {
                        None => r == Err::<StudySessionResult, DesktopError>(
                            DesktopError::StudyRpg(StudyRpgError::StudySessionTooShort),
                        ) && final(self).state() == Some(m),
                        Some(minutes) => {
                            let outcome = record_spec(
                                refreshed(StudyRpgModel { active_session: None, ..m }, ended_at_epoch_seconds),
                                timer_input(active, minutes),
                                Some(active.started_at_epoch_seconds),
                                Some(ended_at_epoch_seconds),
                            );
                            &&& r is Ok
                            &&& r->Ok_0@ == outcome.1
                            &&& final(self).state() == Some(outcome.0)
                        },
                    },
                },
            },
    {
        match &mut self.app {
            Some(app) => match app.finish_active_study_session(ended_at_epoch_seconds) {
                Ok(result) => Ok(result),
                Err(e) => Err(DesktopError::StudyRpg(e)),
            },
            None => Err(DesktopError::CharacterNotCreated),
        }
    }

    /// Whether finishing the timer at `ended_at_epoch_seconds` stays within the limits of
    /// recording; true when there is no game.
    pub fn can_finish_session_at(&self, ended_at_epoch_seconds: u64) -> (r: bool)
        requires
            self.wf(),
        ensures
            match self.state() {
                Some(m) => r == can_finish(m, ended_at_epoch_seconds),
                None => r,
            },
    {
        match &self.app {
            Some(app) => app.can_finish_at(ended_at_epoch_seconds),
            None => true,
        }
    }

    /// Whether the sums of the dashboard fit; true when there is no game.
    pub fn dashboard_fits_now(&self) -> (r: bool)
        ensures
            match self.state() {
                Some(m) => r == dashboard_fits(m),
                None => r,
            },
    {
        match &self.app {
            Some(app) => app.dashboard_fits_now(),
            None => true,
        }
    }

    /// Whether a skill can still be added; true when there is no game.
    pub fn has_room_for_skill(&self) -> (r: bool)
        requires
            self.wf(),
        ensures
            match self.state() {
                Some(m) => r == (max_skill_id(m.skills) + 2 <= u64::MAX),
                None => r,
            },
    {
        match &self.app {
            Some(app) => app.has_room_for_skill(),
            None => true,
        }
    }

    pub fn companion_preferences(&self) -> (p: CompanionPreferences)
        ensures
            p == self.preferences(),
    {
        self.companion_preferences
    }

    /// Keeps new companion preferences; the shell saves them.
    pub fn set_companion_preferences(&mut self, preferences: CompanionPreferences)
        ensures
            final(self).preferences() == preferences,
            final(self).state() == old(self).state(),
            final(self).wf() == old(self).wf(),
    {
        self.companion_preferences = preferences;
    }

    /// The game to save, if a character exists.
    pub fn app(&self) -> (app: Option<&StudyRpg>)
        ensures
            match app {
                Some(a) => self.state() == Some(a@) && a.wf() == self.wf(),
                None => self.state() is None,
            },
    {
        match &self.app {
            Some(app) => Some(app),
            None => None,
        }
    }

    /// Settles a change once the shell has tried to save it: kept when saving succeeded; when it
    /// failed, the game goes back to `previous` and the failure is answered as a storage error.
    pub fn settle_save(&mut self, previous: Option<StudyRpg>, saved: Result<(), String>) -> (r: Result<(), DesktopError>)
        requires
            old(self).wf(),
            match previous {
                Some(a) => a.wf(),
                None => true,
            },
        ensures
            final(self).wf(),
            final(self).preferences() == old(self).preferences(),
            match saved {
                Ok(()) => r == Ok::<(), DesktopError>(()) && final(self).state() == old(self).state(),
                Err(detail) => r == Err::<(), DesktopError>(DesktopError::Storage(detail))
                    && final(self).state() == app_model(previous),
            },
    {
        match saved {
            Ok(()) => Ok(()),
            Err(detail) => {
                self.app = previous;
                Err(DesktopError::Storage(detail))
            },
        }
    }

    /// Puts back the game as it was before a change whose saving failed.
    pub fn restore(&mut self, previous: Option<StudyRpg>)
        requires
            match previous {
                Some(a) => a.wf(),
                None => true,
            },
        ensures
            final(self).wf(),
            final(self).state() == app_model(previous),
            final(self).preferences() == old(self).preferences(),
    {
        self.app = previous;
    }
}

/// What starting the timer answers and leaves, for a topic and a skill id.
pub open spec fn start_outcome(
    before: Option<StudyRpgModel>,
    after: Option<StudyRpgModel>,
    topic: Seq<char>,
    skill_id: Option<u64>,
    started: u64,
    r: Result<(), DesktopError>,
) -> bool {
    if trim_spec(topic).len() == 0 {
        r == Err::<(), DesktopError>(DesktopError::EmptyTopic) && after == before
    } else {
        match before {
            None => r == Err::<(), DesktopError>(DesktopError::CharacterNotCreated) && after is None,
            Some(m) => if m.active_session is Some {
                r == Err::<(), DesktopError>(
                    DesktopError::StudyRpg(StudyRpgError::StudySessionAlreadyActive),
                ) && after == before
            } else if skill_id is Some && !has_skill(m.skills, skill_id->0) {
                r == Err::<(), DesktopError>(DesktopError::StudyRpg(StudyRpgError::UnknownSkill))
                    && after == before
            } else {
                &&& r == Ok::<(), DesktopError>(())
                &&& after matches Some(a) && a.active_session matches Some(active)
                    && active.topic@ == trim_spec(topic) && active.skill_id == skill_id
                    && active.started_at_epoch_seconds == started
                    && a == (StudyRpgModel { active_session: Some(active), ..m })
            },
        }
    }
}

/// Starting the timer for a named skill adds that skill: the topic is not blank, no timer
/// runs, and no root skill has the (trimmed, non-blank) name.
pub open spec fn creates_named_skill(m: StudyRpgModel, topic: Seq<char>, skill_name: Option<Seq<char>>) -> bool {
    let name = match skill_name {
        Some(n) => trim_spec(n),
        None => Seq::<char>::empty(),
    };
    &&& trim_spec(topic).len() > 0
    &&& m.active_session is None
    &&& name.len() > 0
    &&& root_skill_named(m.skills, name) is None
}

/// What starting the timer for a named skill answers and leaves.
pub open spec fn named_start_outcome(
    before: Option<StudyRpgModel>,
    after: Option<StudyRpgModel>,
    topic: Seq<char>,
    skill_name: Option<Seq<char>>,
    started: u64,
    r: Result<(), DesktopError>,
) -> bool {
    let name = match skill_name {
        Some(n) => trim_spec(n),
        None => Seq::<char>::empty(),
    };
    if trim_spec(topic).len() == 0 {
        r == Err::<(), DesktopError>(DesktopError::EmptyTopic) && after == before
    } else {
        match before {
            None => r == Err::<(), DesktopError>(DesktopError::CharacterNotCreated) && after is None,
            Some(m) => if m.active_session is Some {
                r == Err::<(), DesktopError>(
                    DesktopError::StudyRpg(StudyRpgError::StudySessionAlreadyActive),
                ) && after == before
            } else if name.len() == 0 {
                start_outcome(before, after, topic, None, started, r)
            } else {
                match root_skill_named(m.skills, name) {
                    Some(id) => start_outcome(before, after, topic, Some(id), started, r),
                    None => start_outcome(
                        Some(with_new_skill(m, name, None)),
                        after,
                        topic,
                        Some((max_skill_id(m.skills) + 1) as u64),
                        started,
                        r,
                    ),
                }
            },
        }
    }
}

/// The id of the first root skill named `name`, ignoring ASCII case.
fn find_root_named(app: &StudyRpg, name: &str) -> (r: Option<u64>)
    ensures
        r == root_skill_named(app@.skills, name@),
{
    let skills = app.skills();
    let ghost views = app@.skills;
    let mut i: usize = 0;
    assert(views.subrange(0, views.len() as int) =~= views);
    while i < skills.len()
        invariant
            crate::study_rpg::skill_views(skills@) == views,
            views == app@.skills,
            i <= skills@.len(),
            root_skill_named(views, name@) == root_skill_named(
                views.subrange(i as int, views.len() as int),
                name@,
            ),
        decreases skills@.len() - i,
    {
        assert(views[i as int] == skills@[i as int]@);
        assert(views.subrange(i as int, views.len() as int).drop_first() =~= views.subrange(
            i as int + 1,
            views.len() as int,
        ));
        if skills[i].parent_id.is_none() && eq_ignore_ascii_case(skills[i].name.as_str(), name) {
            return Some(skills[i].id);
        }
        i = i + 1;
    }
    None
}

} // verus!
