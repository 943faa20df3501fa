//! The dashboard: everything the desktop shows about the game at a glance.
use vstd::prelude::*;
use crate::growth::{GrowthEvent, GrowthEventView};
use crate::player::CharacterClass;
use crate::quest::{
    Quest, QuestTarget, QuestView, day_totals, lemma_minutes_on_day_bounds, minutes_on_day,
    minutes_total, progress_for_quest, quest_progress_spec, quest_views,
};
use crate::session::{
    ActiveStudySession, StudySession, day_of, elapsed_minutes_since, elapsed_minutes_spec, epoch_day,
    xp_for_duration, xp_for_duration_spec,
};
use crate::skill::{Skill, SkillView, mastery_spec};
use crate::skill_tree::{is_skill_tree_order, skill_tree_order};
use crate::statistics::xp_total;
use crate::study_rpg::{
    DAILY_COMPLETION_BONUS_XP, StudyRpg, StudyRpgModel, all_quests_completed, event_views,
    is_first_with_id, skill_position, skill_views,
};
use crate::xp::{LevelProgress, level_progress_of, progress_from_total_xp};

verus! {

#[derive(Debug, PartialEq, Eq)]
pub struct Dashboard {
    pub player_name: String,
    pub player_class: CharacterClass,
    pub title: String,
    pub energy: u8,
    pub level: LevelProgress,
    pub total_xp: u32,
    pub xp_progress_percent: u8,
    pub today_minutes: u32,
    pub total_sessions: u32,
    pub skills: Vec<DashboardSkill>,
    pub quest_progress: Vec<DashboardQuest>,
    pub daily_quest_completion: DashboardDailyQuestCompletion,
    pub recent_sessions: Vec<DashboardSession>,
    pub growth_history: Vec<GrowthEvent>,
    pub active_session: Option<DashboardActiveSession>,
}

#[derive(Debug, PartialEq, Eq)]
pub struct DashboardSkill {
    pub id: u64,
    pub name: String,
    pub parent_id: Option<u64>,
    pub depth: u32,
    pub unlocked: bool,
    pub level: u32,
    pub total_xp: u32,
    pub xp_into_level: u32,
    pub xp_for_next_level: u32,
    pub xp_progress_percent: u8,
    pub mastery_percent: u8,
}

#[derive(Debug, PartialEq, Eq)]
pub struct DashboardQuest {
    pub id: u64,
    pub epoch_day: u64,
    pub title: String,
    pub quest_target: QuestTarget,
    pub current: u32,
    pub target: u32,
    pub progress_percent: u8,
    pub reward_xp: u32,
    pub completed: bool,
}

#[derive(Debug, Clone, Copy, PartialEq, Eq, Structural)]
pub struct DashboardDailyQuestCompletion {
    pub completed: bool,
    pub completed_count: u32,
    pub total_count: u32,
    pub remaining_count: u32,
    pub progress_percent: u8,
    pub reward_xp: u32,
}

#[derive(Debug, PartialEq, Eq)]
pub struct DashboardSession {
    pub id: u64,
    pub topic: String,
    pub skill_name: Option<String>,
    pub duration_minutes: u32,
    pub earned_xp: u32,
}

#[derive(Debug, PartialEq, Eq)]
pub struct DashboardActiveSession {
    pub topic: String,
    pub skill_id: Option<u64>,
    pub skill_name: Option<String>,
    pub started_at_epoch_seconds: u64,
    pub elapsed_minutes: u32,
    pub estimated_xp: u32,
}

pub struct DashboardSkillView {
    pub id: u64,
    pub name: Seq<char>,
    pub parent_id: Option<u64>,
    pub depth: u32,
    pub unlocked: bool,
    pub level: u32,
    pub total_xp: u32,
    pub xp_into_level: u32,
    pub xp_for_next_level: u32,
    pub xp_progress_percent: u8,
    pub mastery_percent: u8,
}

pub struct DashboardQuestView {
    pub id: u64,
    pub epoch_day: u64,
    pub title: Seq<char>,
    pub quest_target: QuestTarget,
    pub current: u32,
    pub target: u32,
    pub progress_percent: u8,
    pub reward_xp: u32,
    pub completed: bool,
}

pub struct DashboardSessionView {
    pub id: u64,
    pub topic: Seq<char>,
    pub skill_name: Option<Seq<char>>,
    pub duration_minutes: u32,
    pub earned_xp: u32,
}

pub struct DashboardActiveView {
    pub topic: Seq<char>,
    pub skill_id: Option<u64>,
    pub skill_name: Option<Seq<char>>,
    pub started_at_epoch_seconds: u64,
    pub elapsed_minutes: u32,
    pub estimated_xp: u32,
}

/// The dashboard as mathematical values.
#[verifier::ext_equal]
pub struct DashboardModel {
    pub player_name: Seq<char>,
    pub player_class: CharacterClass,
    pub title: Seq<char>,
    pub energy: u8,
    pub level: LevelProgress,
    pub total_xp: u32,
    pub xp_progress_percent: u8,
    pub today_minutes: u32,
    pub total_sessions: u32,
    pub skills: Seq<DashboardSkillView>,
    pub quest_progress: Seq<DashboardQuestView>,
    pub daily_quest_completion: DashboardDailyQuestCompletion,
    pub recent_sessions: Seq<DashboardSessionView>,
    pub growth_history: Seq<GrowthEventView>,
    pub active_session: Option<DashboardActiveView>,
}

pub open spec fn text_view(text: Option<String>) -> Option<Seq<char>> {
    match text {
        Some(t) => Some(t@),
        None => None,
    }
}

impl View for DashboardSkill {
    type V = DashboardSkillView;

    open spec fn view(&self) -> DashboardSkillView {
        DashboardSkillView {
            id: self.id,
            name: self.name@,
            parent_id: self.parent_id,
            depth: self.depth,
            unlocked: self.unlocked,
            level: self.level,
            total_xp: self.total_xp,
            xp_into_level: self.xp_into_level,
            xp_for_next_level: self.xp_for_next_level,
            xp_progress_percent: self.xp_progress_percent,
            mastery_percent: self.mastery_percent,
        }
    }
}

impl View for DashboardQuest {
    type V = DashboardQuestView;

    open spec fn view(&self) -> DashboardQuestView {
        DashboardQuestView {
            id: self.id,
            epoch_day: self.epoch_day,
            title: self.title@,
            quest_target: self.quest_target,
            current: self.current,
            target: self.target,
            progress_percent: self.progress_percent,
            reward_xp: self.reward_xp,
            completed: self.completed,
        }
    }
}

impl View for DashboardSession {
    type V = DashboardSessionView;

    open spec fn view(&self) -> DashboardSessionView {
        DashboardSessionView {
            id: self.id,
            topic: self.topic@,
            skill_name: text_view(self.skill_name),
            duration_minutes: self.duration_minutes,
            earned_xp: self.earned_xp,
        }
    }
}

impl View for DashboardActiveSession {
    type V = DashboardActiveView;

    open spec fn view(&self) -> DashboardActiveView {
        DashboardActiveView {
            topic: self.topic@,
            skill_id: self.skill_id,
            skill_name: text_view(self.skill_name),
            started_at_epoch_seconds: self.started_at_epoch_seconds,
            elapsed_minutes: self.elapsed_minutes,
            estimated_xp: self.estimated_xp,
        }
    }
}

impl View for Dashboard {
    type V = DashboardModel;

    open spec fn view(&self) -> DashboardModel {
        DashboardModel {
            player_name: self.player_name@,
            player_class: self.player_class,
            title: self.title@,
            energy: self.energy,
            level: self.level,
            total_xp: self.total_xp,
            xp_progress_percent: self.xp_progress_percent,
            today_minutes: self.today_minutes,
            total_sessions: self.total_sessions,
            skills: Seq::new(self.skills@.len(), |k: int| self.skills@[k]@),
            quest_progress: Seq::new(self.quest_progress@.len(), |k: int| self.quest_progress@[k]@),
            daily_quest_completion: self.daily_quest_completion,
            recent_sessions: Seq::new(self.recent_sessions@.len(), |k: int| self.recent_sessions@[k]@),
            growth_history: event_views(self.growth_events_seq()),
            active_session: match self.active_session {
                Some(a) => Some(a@),
                None => None,
            },
        }
    }
}

impl Dashboard {
    pub open spec fn growth_events_seq(&self) -> Seq<GrowthEvent> {
        self.growth_history@
    }
}

/// Progress through the current level in percent, at most 100.
pub open spec fn xp_percent_spec(p: LevelProgress) -> u8 {
    if p.xp_for_next_level == 0 {
        100
    } else {
        let scaled = if p.xp_into_level * 100 > u32::MAX {
            u32::MAX as int
        } else {
            p.xp_into_level * 100
        };
        if scaled / (p.xp_for_next_level as int) > 100 {
            100
        } else {
            (scaled / (p.xp_for_next_level as int)) as u8
        }
    }
}

/// `current` out of `target` in percent, at most 100; a zero target counts as done.
pub open spec fn percent_spec(current: u32, target: u32) -> u8 {
    if target == 0 {
        100
    } else if current * 100 / (target as int) > 100 {
        100
    } else {
        (current * 100 / (target as int)) as u8
    }
}

/// The name of the first skill with id `skill_id`, if it names one.
pub open spec fn skill_name_spec(skills: Seq<SkillView>, skill_id: Option<u64>) -> Option<Seq<char>> {
    match skill_id {
        Some(id) => match skill_position(skills, id) {
            Some(i) => Some(skills[i].name),
            None => None,
        },
        None => None,
    }
}

pub open spec fn dashboard_skill_spec(skill: SkillView, depth: u32) -> DashboardSkillView {
    let p = level_progress_of(skill.total_xp);
    DashboardSkillView {
        id: skill.id,
        name: skill.name,
        parent_id: skill.parent_id,
        depth,
        unlocked: skill.unlocked,
        level: p.level,
        total_xp: skill.total_xp,
        xp_into_level: p.xp_into_level,
        xp_for_next_level: p.xp_for_next_level,
        xp_progress_percent: xp_percent_spec(p),
        mastery_percent: mastery_spec(p.level),
    }
}

/// A quest as the dashboard shows it: progress of its day, capped at the target.
pub open spec fn dashboard_quest_spec(quest: QuestView, sessions: Seq<StudySession>) -> DashboardQuestView {
    let p = quest_progress_spec(quest, sessions);
    let current = if p.current < p.target {
        p.current
    } else {
        p.target
    };
    DashboardQuestView {
        id: quest.id,
        epoch_day: quest.epoch_day,
        title: quest.title,
        quest_target: quest.target,
        current,
        target: p.target,
        progress_percent: percent_spec(current, p.target),
        reward_xp: quest.reward_xp,
        completed: p.completed,
    }
}

pub open spec fn completed_quest_count(quests: Seq<QuestView>) -> int
    decreases quests.len(),
{
    if quests.len() == 0 {
        0
    } else {
        completed_quest_count(quests.drop_last()) + if quests.last().completed {
            1int
        } else {
            0
        }
    }
}

pub open spec fn percent_total(entries: Seq<DashboardQuestView>) -> int
    decreases entries.len(),
{
    if entries.len() == 0 {
        0
    } else {
        percent_total(entries.drop_last()) + entries.last().progress_percent
    }
}

pub open spec fn quest_entries_spec(quests: Seq<QuestView>, sessions: Seq<StudySession>) -> Seq<DashboardQuestView> {
    Seq::new(quests.len(), |k: int| dashboard_quest_spec(quests[k], sessions))
}

/// The daily quest summary: done when every quest is, counts, and the mean progress in percent.
pub open spec fn completion_spec(quests: Seq<QuestView>, sessions: Seq<StudySession>) -> DashboardDailyQuestCompletion {
    let count = completed_quest_count(quests);
    DashboardDailyQuestCompletion {
        completed: all_quests_completed(quests),
        completed_count: count as u32,
        total_count: quests.len() as u32,
        remaining_count: (quests.len() - count) as u32,
        progress_percent: if quests.len() == 0 {
            0
        } else {
            (percent_total(quest_entries_spec(quests, sessions)) / (quests.len() as int)) as u8
        },
        reward_xp: DAILY_COMPLETION_BONUS_XP,
    }
}

/// The (up to) five latest sessions, latest first.
pub open spec fn recent_spec(m: StudyRpgModel) -> Seq<DashboardSessionView> {
    let n = m.sessions.len();
    Seq::new(
        if n < 5 {
            n
        } else {
            5
        },
        |k: int|
            {
                let s = m.sessions[n - 1 - k];
                DashboardSessionView {
                    id: s.id,
                    topic: s.topic@,
                    skill_name: skill_name_spec(m.skills, s.skill_id),
                    duration_minutes: s.duration_minutes,
                    earned_xp: s.earned_xp,
                }
            },
    )
}

/// The growth events, latest first.
pub open spec fn history_spec(m: StudyRpgModel) -> Seq<GrowthEventView> {
    let n = m.growth_events.len();
    Seq::new(n, |k: int| m.growth_events[n - 1 - k])
}

pub open spec fn active_spec(m: StudyRpgModel, now: Option<u64>) -> Option<DashboardActiveView> {
    match m.active_session {
        Some(a) => {
            let elapsed = match now {
                Some(t) => elapsed_minutes_spec(a.started_at_epoch_seconds, t),
                None => 0,
            };
            Some(
                DashboardActiveView {
                    topic: a.topic@,
                    skill_id: a.skill_id,
                    skill_name: skill_name_spec(m.skills, a.skill_id),
                    started_at_epoch_seconds: a.started_at_epoch_seconds,
                    elapsed_minutes: elapsed,
                    estimated_xp: xp_for_duration_spec(elapsed as int) as u32,
                },
            )
        },
        None => None,
    }
}

/// The skill rows list every skill once, in skill tree order (see `is_skill_tree_order`).
pub open spec fn skill_rows_spec(skills: Seq<SkillView>, rows: Seq<DashboardSkillView>) -> bool {
    exists|order: Seq<(usize, u32)>|
        is_skill_tree_order(skills, order) && rows.len() == order.len() && forall|k: int|
            0 <= k < rows.len() ==> #[trigger] rows[k] == dashboard_skill_spec(skills[order[k].0 as int], order[k].1)
}

/// The sums the dashboard adds up fit in a `u32`, and depths fit too.
pub open spec fn dashboard_fits(m: StudyRpgModel) -> bool {
    &&& minutes_total(m.sessions) <= u32::MAX
    &&& xp_total(m.sessions) <= u32::MAX
    &&& m.skills.len() <= u32::MAX
}

/// `d` is the dashboard of game `m`, seen at `now` (or with no clock when `now` is none).
pub open spec fn dashboard_of(d: DashboardModel, m: StudyRpgModel, now: Option<u64>) -> bool {
    let level = level_progress_of(m.player.total_xp);
    &&& d.player_name == m.player.name
    &&& d.player_class == m.player.class
    &&& d.title == m.player.title
    &&& d.energy == m.player.energy
    &&& d.level == level
    &&& d.total_xp == m.player.total_xp
    &&& d.xp_progress_percent == xp_percent_spec(level)
    &&& d.today_minutes == match now {
        Some(t) => minutes_on_day(m.sessions, day_of(t)),
        None => minutes_total(m.sessions),
    }
    &&& d.total_sessions == m.sessions.len() as u32
    &&& skill_rows_spec(m.skills, d.skills)
    &&& d.quest_progress == quest_entries_spec(m.daily_quests, m.sessions)
    &&& d.daily_quest_completion == completion_spec(m.daily_quests, m.sessions)
    &&& d.recent_sessions == recent_spec(m)
    &&& d.growth_history == history_spec(m)
    &&& d.active_session == active_spec(m, now)
}

fn xp_progress_percent(level: LevelProgress) -> (percent: u8)
    ensures
        percent == xp_percent_spec(level),
{
    if level.xp_for_next_level == 0 {
        return 100;
    }
    let scaled = match level.xp_into_level.checked_mul(100) {
        Some(v) => v,
        None => u32::MAX,
    };
    let q = scaled / level.xp_for_next_level;
    if q > 100 {
        100
    } else {
        q as u8
    }
}

fn percent(current: u32, target: u32) -> (p: u8)
    ensures
        p == percent_spec(current, target),
{
    if target == 0 {
        return 100;
    }
    let q = (current as u64) * 100 / (target as u64);
    if q > 100 {
        100
    } else {
        q as u8
    }
}

/// The name of the first skill with id `skill_id`.
pub fn skill_name(skills: &[Skill], skill_id: Option<u64>) -> (name: Option<String>)
    ensures
        text_view(name) == skill_name_spec(skill_views(skills@), skill_id),
{
    let id = match skill_id {
        Some(id) => id,
        None => return None,
    };
    let ghost views = skill_views(skills@);
    let mut i: usize = 0;
    while i < skills.len()
        invariant
            views == skill_views(skills@),
            skill_id == Some(id),
            i <= skills@.len(),
            forall|k: int| 0 <= k < i ==> views[k].id != id,
        decreases skills@.len() - i,
    {
        if skills[i].id == id {
            proof {
                assert(is_first_with_id(views, id, i as int));
                let c = choose|c: int| is_first_with_id(views, id, c);
                assert(c == i);
                assert(skill_position(views, id) == Some(i as int));
                assert(views[i as int].name == skills@[i as int].name@);
            }
            return Some(skills[i].name.clone());
        }
        i = i + 1;
    }
    proof {
        assert forall|c: int| !is_first_with_id(views, id, c) by {}
    }
    None
}

fn skill_rows(skills: &[Skill]) -> (rows: Vec<DashboardSkill>)
    requires
        skills@.len() <= u32::MAX,
    ensures
        skill_rows_spec(skill_views(skills@), Seq::new(rows@.len(), |k: int| rows@[k]@)),
{
    let order = skill_tree_order(skills);
    let ghost views = skill_views(skills@);
    let mut rows: Vec<DashboardSkill> = Vec::new();
    let mut k: usize = 0;
    while k < order.len()
        invariant
            views == skill_views(skills@),
            is_skill_tree_order(views, order@),
            k <= order@.len(),
            rows@.len() == k,
            forall|r: int| 0 <= r < k ==> #[trigger] rows@[r]@ == dashboard_skill_spec(
                views[order@[r].0 as int],
                order@[r].1,
            ),
        decreases order@.len() - k,
    {
        let (index, depth) = order[k];
        let skill = &skills[index];
        let progress = progress_from_total_xp(skill.total_xp);
        let row = DashboardSkill {
            id: skill.id,
            name: skill.name.clone(),
            parent_id: skill.parent_id,
            depth,
            unlocked: skill.unlocked,
            level: progress.level,
            total_xp: skill.total_xp,
            xp_into_level: progress.xp_into_level,
            xp_for_next_level: progress.xp_for_next_level,
            xp_progress_percent: xp_progress_percent(progress),
            mastery_percent: skill.mastery_percent(),
        };
        assert(row@ == dashboard_skill_spec(views[index as int], depth));
        rows.push(row);
        k = k + 1;
    }
    proof {
        let seen = Seq::new(rows@.len(), |k: int| rows@[k]@);
        assert forall|k: int| 0 <= k < seen.len() implies #[trigger] seen[k] == dashboard_skill_spec(
            views[order@[k].0 as int],
            order@[k].1,
        ) by {}
        assert(skill_rows_spec(views, seen));
    }
    rows
}

impl StudyRpg {
    /// The dashboard with no clock: "today" counts every session.
    pub fn dashboard(&self) -> (d: Dashboard)
        requires
            dashboard_fits(self@),
        ensures
            dashboard_of(d@, self@, None),
    {
        self.build_dashboard(None)
    }

    /// The dashboard seen at `current_epoch_seconds`.
    pub fn dashboard_at(&self, current_epoch_seconds: u64) -> (d: Dashboard)
        requires
            dashboard_fits(self@),
        ensures
            dashboard_of(d@, self@, Some(current_epoch_seconds)),
    {
        self.build_dashboard(Some(current_epoch_seconds))
    }

    /// Whether the sums the dashboard adds up fit (see `dashboard_fits`).
    pub fn dashboard_fits_now(&self) -> (r: bool)
        ensures
            r == dashboard_fits(self@),
    {
        let sessions = self.sessions();
        let skills = self.skills();
        if skills.len() > u32::MAX as usize {
            assert(self@.skills.len() == skills@.len());
            return false;
        }
        assert(self@.skills.len() == skills@.len());
        let mut minutes: u64 = 0;
        let mut xp: u64 = 0;
        let mut i: usize = 0;
        while i < sessions.len()
            invariant
                sessions@ == self@.sessions,
                self@.skills.len() <= u32::MAX,
                i <= sessions@.len(),
                minutes == minutes_total(sessions@.subrange(0, i as int)),
                xp == xp_total(sessions@.subrange(0, i as int)),
                minutes <= u32::MAX,
                xp <= u32::MAX,
            decreases sessions@.len() - i,
        {
            proof {
                assert(sessions@.subrange(0, i as int + 1).drop_last() =~= sessions@.subrange(0, i as int));
                crate::quest::lemma_minutes_total_prefix(sessions@, i as int + 1);
                crate::statistics::lemma_xp_total_prefix(sessions@, i as int + 1);
            }
            minutes = minutes + sessions[i].duration_minutes as u64;
            xp = xp + sessions[i].earned_xp as u64;
            if minutes > u32::MAX as u64 || xp > u32::MAX as u64 {
                return false;
            }
            i = i + 1;
        }
        assert(sessions@.subrange(0, sessions@.len() as int) =~= sessions@);
        true
    }

    fn build_dashboard(&self, current_epoch_seconds: Option<u64>) -> (d: Dashboard)
        requires
            dashboard_fits(self@),
        ensures
            dashboard_of(d@, self@, current_epoch_seconds),
    {
        let player = self.player();
        let statistics = self.statistics();
        let level = player.level_progress();
        let today_minutes = match current_epoch_seconds {
            Some(now) => self.study_minutes_for_day(now),
            None => statistics.total_minutes,
        };
        let skills = skill_rows(self.skills());
        let quest_progress = self.dashboard_quests();
        let daily_quest_completion = self.daily_completion(&quest_progress);
        let d = Dashboard {
            player_name: player.name.clone(),
            player_class: player.class,
            title: player.title.clone(),
            energy: player.energy,
            level,
            total_xp: player.total_xp,
            xp_progress_percent: xp_progress_percent(level),
            today_minutes,
            total_sessions: statistics.total_sessions,
            skills,
            quest_progress,
            daily_quest_completion,
            recent_sessions: self.recent_sessions(5),
            growth_history: self.growth_history(),
            active_session: self.dashboard_active_session(current_epoch_seconds),
        };
        proof {
            assert(Seq::new(d.skills@.len(), |k: int| d.skills@[k]@) == d@.skills);
        }
        d
    }

    fn study_minutes_for_day(&self, current_epoch_seconds: u64) -> (minutes: u32)
        requires
            minutes_total(self@.sessions) <= u32::MAX,
        ensures
            minutes == minutes_on_day(self@.sessions, day_of(current_epoch_seconds)),
    {
        let day = epoch_day(current_epoch_seconds);
        proof {
            lemma_minutes_on_day_bounds(self@.sessions, day);
        }
        day_totals(self.sessions(), day).0
    }

    fn dashboard_quests(&self) -> (entries: Vec<DashboardQuest>)
        requires
            minutes_total(self@.sessions) <= u32::MAX,
        ensures
            Seq::new(entries@.len(), |k: int| entries@[k]@) == quest_entries_spec(
                self@.daily_quests,
                self@.sessions,
            ),
    {
        let quests = self.daily_quests();
        let sessions = self.sessions();
        let ghost views = quest_views(quests@);
        let mut entries: Vec<DashboardQuest> = Vec::new();
        let mut k: usize = 0;
        while k < quests.len()
            invariant
                views == quest_views(quests@),
                views == self@.daily_quests,
                sessions@ == self@.sessions,
                minutes_total(sessions@) <= u32::MAX,
                k <= quests@.len(),
                entries@.len() == k,
                forall|r: int| 0 <= r < k ==> #[trigger] entries@[r]@ == dashboard_quest_spec(views[r], sessions@),
            decreases quests@.len() - k,
        {
            let quest = &quests[k];
            proof {
                lemma_minutes_on_day_bounds(sessions@, quest.epoch_day);
                assert(views[k as int] == quest@);
            }
            let progress = progress_for_quest(quest, sessions);
            let current = if progress.current < progress.target {
                progress.current
            } else {
                progress.target
            };
            let entry = DashboardQuest {
                id: quest.id,
                epoch_day: quest.epoch_day,
                title: quest.title.clone(),
                quest_target: quest.target,
                current,
                target: progress.target,
                progress_percent: percent(current, progress.target),
                reward_xp: quest.reward_xp,
                completed: progress.completed,
            };
            entries.push(entry);
            k = k + 1;
        }
        assert(Seq::new(entries@.len(), |k: int| entries@[k]@) =~= quest_entries_spec(
            self@.daily_quests,
            self@.sessions,
        ));
        entries
    }

    fn daily_completion(&self, entries: &Vec<DashboardQuest>) -> (c: DashboardDailyQuestCompletion)
        requires
            Seq::new(entries@.len(), |k: int| entries@[k]@) == quest_entries_spec(
                self@.daily_quests,
                self@.sessions,
            ),
        ensures
            c == completion_spec(self@.daily_quests, self@.sessions),
    {
        let quests = self.daily_quests();
        let ghost views = quest_views(quests@);
        let ghost rows = Seq::new(entries@.len(), |k: int| entries@[k]@);
        let mut completed: usize = 0;
        let mut percent_sum: u128 = 0;
        let mut all_done = quests.len() > 0;
        let mut k: usize = 0;
        while k < quests.len()
            invariant
                views == quest_views(quests@),
                views == self@.daily_quests,
                rows == Seq::new(entries@.len(), |k: int| entries@[k]@),
                rows.len() == views.len(),
                k <= quests@.len(),
                completed == completed_quest_count(views.subrange(0, k as int)),
                completed <= k,
                percent_sum == percent_total(rows.subrange(0, k as int)),
                percent_sum <= 100 * k,
                all_done == (views.len() > 0 && forall|r: int| 0 <= r < k ==> #[trigger] views[r].completed),
                forall|r: int| 0 <= r < rows.len() ==> #[trigger] rows[r].progress_percent <= 100,
            decreases quests@.len() - k,
        {
            proof {
                assert(views.subrange(0, k as int + 1).drop_last() =~= views.subrange(0, k as int));
                assert(rows.subrange(0, k as int + 1).drop_last() =~= rows.subrange(0, k as int));
                assert(rows[k as int] == entries@[k as int]@);
                assert(views[k as int] == quests@[k as int]@);
            }
            let done = quests[k].completed;
            assert(done == views[k as int].completed);
            if done {
                completed = completed + 1;
            } else {
                all_done = false;
            }
            assert(entries@[k as int].progress_percent == rows[k as int].progress_percent);
            percent_sum = percent_sum + entries[k].progress_percent as u128;
            k = k + 1;
        }
        proof {
            assert(views.subrange(0, views.len() as int) =~= views);
            assert(rows.subrange(0, rows.len() as int) =~= rows);
            assert(rows == quest_entries_spec(self@.daily_quests, self@.sessions));
        }
        let n = quests.len();
        let progress_percent = if n == 0 {
            0
        } else {
            proof {
                let a = percent_sum as int;
                let b = n as int;
                assert(a / b <= 100) by (nonlinear_arith)
                    requires
                        0 <= a <= 100 * b,
                        b > 0,
                ;
            }
            (percent_sum / (n as u128)) as u8
        };
        DashboardDailyQuestCompletion {
            completed: all_done,
            completed_count: completed as u32,
            total_count: n as u32,
            remaining_count: (n - completed) as u32,
            progress_percent,
            reward_xp: DAILY_COMPLETION_BONUS_XP,
        }
    }

    fn recent_sessions(&self, limit: usize) -> (rows: Vec<DashboardSession>)
        requires
            limit == 5,
        ensures
            Seq::new(rows@.len(), |k: int| rows@[k]@) == recent_spec(self@),
    {
        let sessions = self.sessions();
        let skills = self.skills();
        let n = sessions.len();
        let count = if n < limit {
            n
        } else {
            limit
        };
        let mut rows: Vec<DashboardSession> = Vec::new();
        let mut k: usize = 0;
        while k < count
            invariant
                sessions@ == self@.sessions,
                skill_views(skills@) == self@.skills,
                n == sessions@.len(),
                count <= n,
                k <= count,
                rows@.len() == k,
                forall|r: int| 0 <= r < k ==> #[trigger] rows@[r]@ == recent_spec(self@)[r],
                count == recent_spec(self@).len(),
            decreases count - k,
        {
            let session = &sessions[n - 1 - k];
            let row = DashboardSession {
                id: session.id,
                topic: session.topic.clone(),
                skill_name: skill_name(skills, session.skill_id),
                duration_minutes: session.duration_minutes,
                earned_xp: session.earned_xp,
            };
            rows.push(row);
            k = k + 1;
        }
        assert(Seq::new(rows@.len(), |k: int| rows@[k]@) =~= recent_spec(self@));
        rows
    }

    fn growth_history(&self) -> (events: Vec<GrowthEvent>)
        ensures
            event_views(events@) == history_spec(self@),
    {
        let log = self.growth_events();
        let n = log.len();
        let mut events: Vec<GrowthEvent> = Vec::new();
        let mut k: usize = 0;
        while k < n
            invariant
                event_views(log@) == self@.growth_events,
                n == log@.len(),
                k <= n,
                events@.len() == k,
                forall|r: int| 0 <= r < k ==> #[trigger] events@[r]@ == history_spec(self@)[r],
            decreases n - k,
        {
            events.push(log[n - 1 - k].clone());
            proof {
                assert(event_views(log@)[n - 1 - k] == log@[n - 1 - k]@);
            }
            k = k + 1;
        }
        assert(event_views(events@) =~= history_spec(self@));
        events
    }

    fn dashboard_active_session(&self, current_epoch_seconds: Option<u64>) -> (active: Option<DashboardActiveSession>)
        ensures
            match active {
                Some(a) => active_spec(self@, current_epoch_seconds) == Some(a@),
                None => active_spec(self@, current_epoch_seconds) is None,
            },
    {
        match self.active_session() {
            Some(active) => {
                let elapsed_minutes = match current_epoch_seconds {
                    Some(now) => elapsed_minutes_since(active.started_at_epoch_seconds, now),
                    None => 0,
                };
                Some(
                    DashboardActiveSession {
                        topic: active.topic.clone(),
                        skill_id: active.skill_id,
                        skill_name: skill_name(self.skills(), active.skill_id),
                        started_at_epoch_seconds: active.started_at_epoch_seconds,
                        elapsed_minutes,
                        estimated_xp: xp_for_duration(elapsed_minutes),
                    },
                )
            },
            None => None,
        }
    }
}

} // verus!
