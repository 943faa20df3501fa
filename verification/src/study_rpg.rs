//! The core loop: study sessions earn XP, raise the player and the chosen skill, advance the
//! daily quests and leave growth events behind.
use vstd::prelude::*;
use crate::growth::{GrowthEvent, GrowthEventKind, GrowthEventView, GrowthKindView};
use crate::player::{CharacterClass, Player, PlayerView, XpGrant, player_after_grant, saturating_add_spec, title_spec, MAX_ENERGY, Mood};
use crate::quest::{
    Quest, QuestTarget, QuestView, evaluate_quests, evaluated_quests, minutes_on_day_within,
    mark_completed, minutes_title, newly_completed, newly_reached, open_quests_fit,
    progress_for_quest, quest_fits, quest_views, sessions_title,
};
use crate::session::{
    ActiveStudySession, StudySession, completed_minutes_between, completed_minutes_spec, day_of,
    epoch_day, xp_for_duration, xp_for_duration_spec,
};
use crate::skill::{Skill, SkillView, skill_after_grant};
use crate::text::{eq_ignore_ascii_case, eq_ignore_ascii_case_spec, trim_spec, trim_text};
use crate::xp::{level_progress_of, progress_from_total_xp};

verus! {

/// XP granted once a day when every daily quest is completed.
pub const DAILY_COMPLETION_BONUS_XP: u32 = 150;

#[derive(Debug, PartialEq, Eq)]
pub struct StudySessionInput {
    pub topic: String,
    pub skill_id: Option<u64>,
    pub duration_minutes: u32,
}

#[derive(Debug, PartialEq, Eq)]
pub struct StudySessionStartInput {
    pub topic: String,
    pub skill_id: Option<u64>,
}

#[derive(Debug, PartialEq, Eq)]
pub struct StudySessionResult {
    pub session: StudySession,
    pub player_xp: XpGrant,
    pub completed_quests: Vec<Quest>,
    pub daily_completion_bonus_xp: u32,
    pub quest_reward_xp: u32,
    pub growth_events: Vec<GrowthEvent>,
}

#[derive(Debug, Clone, Copy, PartialEq, Eq, Structural)]
pub enum StudyRpgError {
    StudySessionAlreadyActive,
    NoActiveStudySession,
    StudySessionTooShort,
    EmptySkillName,
    UnknownSkillParent,
    DuplicateSkillName,
    UnknownSkill,
}

/// The whole state of the game loop.
#[derive(Debug, PartialEq, Eq)]
pub struct StudyRpg {
    player: Player,
    skills: Vec<Skill>,
    sessions: Vec<StudySession>,
    daily_quests: Vec<Quest>,
    daily_completion_bonus_claimed: bool,
    active_session: Option<ActiveStudySession>,
    growth_events: Vec<GrowthEvent>,
    next_skill_id: u64,
    next_session_id: u64,
    next_growth_event_id: u64,
}

/// Everything that is saved of a `StudyRpg`; identifiers to hand out next follow from it.
#[derive(Debug, PartialEq, Eq)]
pub struct StudyRpgSnapshot {
    pub player: Player,
    pub skills: Vec<Skill>,
    pub sessions: Vec<StudySession>,
    pub daily_quests: Vec<Quest>,
    pub daily_completion_bonus_claimed: bool,
    pub active_session: Option<ActiveStudySession>,
    pub growth_events: Vec<GrowthEvent>,
}

/// The state of the game loop as mathematical values.
#[verifier::ext_equal]
pub struct StudyRpgModel {
    pub player: PlayerView,
    pub skills: Seq<SkillView>,
    pub sessions: Seq<StudySession>,
    pub daily_quests: Seq<QuestView>,
    pub daily_completion_bonus_claimed: bool,
    pub active_session: Option<ActiveStudySession>,
    pub growth_events: Seq<GrowthEventView>,
}

/// What a finished session reports, as mathematical values.
#[verifier::ext_equal]
pub struct StudySessionOutcome {
    pub session: StudySession,
    pub player_xp: XpGrant,
    pub completed_quests: Seq<QuestView>,
    pub daily_completion_bonus_xp: u32,
    pub quest_reward_xp: u32,
    pub growth_events: Seq<GrowthEventView>,
}

pub open spec fn skill_views(skills: Seq<Skill>) -> Seq<SkillView> {
    Seq::new(skills.len(), |i: int| skills[i]@)
}

pub open spec fn event_views(events: Seq<GrowthEvent>) -> Seq<GrowthEventView> {
    Seq::new(events.len(), |i: int| events[i]@)
}

impl View for StudyRpg {
    type V = StudyRpgModel;

    closed spec fn view(&self) -> StudyRpgModel {
        StudyRpgModel {
            player: self.player@,
            skills: skill_views(self.skills@),
            sessions: self.sessions@,
            daily_quests: quest_views(self.daily_quests@),
            daily_completion_bonus_claimed: self.daily_completion_bonus_claimed,
            active_session: self.active_session,
            growth_events: event_views(self.growth_events@),
        }
    }
}

impl View for StudyRpgSnapshot {
    type V = StudyRpgModel;

    open spec fn view(&self) -> StudyRpgModel {
        StudyRpgModel {
            player: self.player@,
            skills: skill_views(self.skills@),
            sessions: self.sessions@,
            daily_quests: quest_views(self.daily_quests@),
            daily_completion_bonus_claimed: self.daily_completion_bonus_claimed,
            active_session: self.active_session,
            growth_events: event_views(self.growth_events@),
        }
    }
}

impl View for StudySessionResult {
    type V = StudySessionOutcome;

    open spec fn view(&self) -> StudySessionOutcome {
        StudySessionOutcome {
            session: self.session,
            player_xp: self.player_xp,
            completed_quests: quest_views(self.completed_quests@),
            daily_completion_bonus_xp: self.daily_completion_bonus_xp,
            quest_reward_xp: self.quest_reward_xp,
            growth_events: event_views(self.growth_events@),
        }
    }
}

/// The largest skill id, or 0 when there is none.
pub open spec fn max_skill_id(skills: Seq<SkillView>) -> int
    decreases skills.len(),
{
    if skills.len() == 0 {
        0
    } else {
        let m = max_skill_id(skills.drop_last());
        if skills.last().id > m {
            skills.last().id as int
        } else {
            m
        }
    }
}

/// Every skill id is at most the largest one.
pub proof fn lemma_ids_at_most_max(skills: Seq<SkillView>)
    ensures
        forall|i: int| 0 <= i < skills.len() ==> (#[trigger] skills[i]).id <= max_skill_id(skills),
        max_skill_id(skills) >= 0,
    decreases skills.len(),
{
    if skills.len() > 0 {
        lemma_ids_at_most_max(skills.drop_last());
        assert forall|i: int| 0 <= i < skills.len() implies (#[trigger] skills[i]).id <= max_skill_id(skills) by {
            if i < skills.len() - 1 {
                assert(skills[i] == skills.drop_last()[i]);
            }
        }
    }
}

/// The largest session id, or 0 when there is none.
pub open spec fn max_session_id(sessions: Seq<StudySession>) -> int
    decreases sessions.len(),
{
    if sessions.len() == 0 {
        0
    } else {
        let m = max_session_id(sessions.drop_last());
        if sessions.last().id > m {
            sessions.last().id as int
        } else {
            m
        }
    }
}

/// The largest growth event id, or 0 when there is none.
pub open spec fn max_event_id(events: Seq<GrowthEventView>) -> int
    decreases events.len(),
{
    if events.len() == 0 {
        0
    } else {
        let m = max_event_id(events.drop_last());
        if events.last().id > m {
            events.last().id as int
        } else {
            m
        }
    }
}

/// `i` is the first position of a skill with id `id`.
pub open spec fn is_first_with_id(skills: Seq<SkillView>, id: u64, i: int) -> bool {
    &&& 0 <= i < skills.len()
    &&& skills[i].id == id
    &&& forall|j: int| 0 <= j < i ==> skills[j].id != id
}

/// The first position of a skill with id `id`, if any.
pub open spec fn skill_position(skills: Seq<SkillView>, id: u64) -> Option<int> {
    if exists|i: int| is_first_with_id(skills, id, i) {
        Some(choose|i: int| is_first_with_id(skills, id, i))
    } else {
        None
    }
}

pub open spec fn has_skill(skills: Seq<SkillView>, id: u64) -> bool {
    exists|i: int| 0 <= i < skills.len() && skills[i].id == id
}

/// The two quests of a day: study thirty minutes for 60 XP, finish one session for 40 XP.
pub open spec fn default_quests_spec(day: u64) -> Seq<QuestView> {
    seq![
        QuestView {
            id: 1,
            epoch_day: day,
            title: minutes_title(30),
            target: QuestTarget::StudyMinutes(30),
            reward_xp: 60,
            completed: false,
        },
        QuestView {
            id: 2,
            epoch_day: day,
            title: sessions_title(1),
            target: QuestTarget::CompleteSessions(1),
            reward_xp: 40,
            completed: false,
        },
    ]
}

/// The quests are those of `day`: there is at least one, and every one is of that day.
pub open spec fn quests_are_of_day(quests: Seq<QuestView>, day: u64) -> bool {
    quests.len() > 0 && forall|i: int| 0 <= i < quests.len() ==> #[trigger] quests[i].epoch_day == day
}

/// There is at least one quest and every quest is completed.
pub open spec fn all_quests_completed(quests: Seq<QuestView>) -> bool {
    quests.len() > 0 && forall|i: int| 0 <= i < quests.len() ==> #[trigger] quests[i].completed
}

/// The sum of the rewards of `quests`.
pub open spec fn reward_total(quests: Seq<QuestView>) -> int
    decreases quests.len(),
{
    if quests.len() == 0 {
        0
    } else {
        reward_total(quests.drop_last()) + quests.last().reward_xp
    }
}

/// A fresh game for a new player.
pub open spec fn new_game(player_name: Seq<char>, class: CharacterClass) -> StudyRpgModel {
    StudyRpgModel {
        player: PlayerView {
            name: player_name,
            class,
            title: title_spec(1),
            total_xp: 0,
            energy: MAX_ENERGY,
            mood: Mood::Focused,
        },
        skills: Seq::empty(),
        sessions: Seq::empty(),
        daily_quests: default_quests_spec(0),
        daily_completion_bonus_claimed: false,
        active_session: None,
        growth_events: Seq::empty(),
    }
}

/// The game at `now`: quests of another day are replaced by the two quests of today, and the
/// daily completion bonus becomes available again.
pub open spec fn refreshed(m: StudyRpgModel, now: u64) -> StudyRpgModel {
    if quests_are_of_day(m.daily_quests, day_of(now)) {
        m
    } else {
        StudyRpgModel {
            daily_quests: default_quests_spec(day_of(now)),
            daily_completion_bonus_claimed: false,
            ..m
        }
    }
}

/// The session recorded for `input`.
pub open spec fn recorded_session(
    m: StudyRpgModel,
    input: StudySessionInput,
    started: Option<u64>,
    ended: Option<u64>,
) -> StudySession {
    StudySession {
        id: (max_session_id(m.sessions) + 1) as u64,
        topic: input.topic,
        skill_id: input.skill_id,
        duration_minutes: input.duration_minutes,
        earned_xp: xp_for_duration_spec(input.duration_minutes as int) as u32,
        started_at_epoch_seconds: started,
        ended_at_epoch_seconds: ended,
    }
}

/// The position of the skill a session is for, if it names one that exists.
pub open spec fn session_skill_position(m: StudyRpgModel, skill_id: Option<u64>) -> Option<int> {
    match skill_id {
        Some(id) => skill_position(m.skills, id),
        None => None,
    }
}

/// The limits that recording a session must stay within: identifiers left to hand out, and the
/// sums the quest evaluation adds up fitting in a `u32`.
pub open spec fn can_record(
    m: StudyRpgModel,
    input: StudySessionInput,
    started: Option<u64>,
    ended: Option<u64>,
) -> bool {
    let sessions = m.sessions.push(recorded_session(m, input, started, ended));
    &&& max_session_id(m.sessions) + 2 <= u64::MAX
    &&& max_event_id(m.growth_events) + 3 <= u64::MAX
    &&& open_quests_fit(m.daily_quests, sessions)
    &&& reward_total(newly_completed(m.daily_quests, sessions)) <= u32::MAX
}

/// Recording a finished session: the new game state and what the session reports.
///
/// The session earns XP for its minutes; the skill it names (the first with that id) gains that
/// XP; open quests of the day that the sessions now reach are completed and pay their rewards; the
/// first time in a day that every quest is completed the daily bonus is paid; the player gains
/// all of it; a skill growth event is written for the skill, and a level change event when the
/// player's level rose.
pub open spec fn record_spec(
    m: StudyRpgModel,
    input: StudySessionInput,
    started: Option<u64>,
    ended: Option<u64>,
) -> (StudyRpgModel, StudySessionOutcome) {
    let session = recorded_session(m, input, started, ended);
    let earned = session.earned_xp;
    let sessions = m.sessions.push(session);
    let position = session_skill_position(m, input.skill_id);
    let skills = match position {
        Some(i) => m.skills.update(i, skill_after_grant(m.skills[i], earned as int)),
        None => m.skills,
    };
    let quests = evaluated_quests(m.daily_quests, sessions);
    let completed = newly_completed(m.daily_quests, sessions);
    let quest_reward = reward_total(completed);
    let bonus_due = !m.daily_completion_bonus_claimed && all_quests_completed(quests);
    let bonus: u32 = if bonus_due {
        DAILY_COMPLETION_BONUS_XP
    } else {
        0
    };
    let gained = saturating_add_spec(saturating_add_spec(earned as int, quest_reward), bonus as int);
    let player = player_after_grant(m.player, gained);
    let grant = XpGrant {
        gained_xp: gained as u32,
        before: level_progress_of(m.player.total_xp),
        after: level_progress_of(player.total_xp),
    };
    let first_event = (max_event_id(m.growth_events) + 1) as u64;
    let skill_events = match position {
        Some(i) => seq![
            GrowthEventView {
                id: first_event,
                session_id: session.id,
                topic: session.topic@,
                occurred_at_epoch_seconds: ended,
                kind: GrowthKindView::SkillGrowth {
                    skill_id: m.skills[i].id,
                    skill_name: m.skills[i].name,
                    gained_xp: earned,
                    level_before: level_progress_of(m.skills[i].total_xp).level,
                    level_after: level_progress_of(skills[i].total_xp).level,
                    total_xp_after: skills[i].total_xp,
                },
            },
        ],
        None => Seq::<GrowthEventView>::empty(),
    };
    let player_events = if grant.after.level > grant.before.level {
        seq![
            GrowthEventView {
                id: (first_event + skill_events.len()) as u64,
                session_id: session.id,
                topic: session.topic@,
                occurred_at_epoch_seconds: ended,
                kind: GrowthKindView::PlayerLevelChange {
                    gained_xp: gained as u32,
                    level_before: grant.before.level,
                    level_after: grant.after.level,
                    total_xp_after: player.total_xp,
                },
            },
        ]
    } else {
        Seq::<GrowthEventView>::empty()
    };
    let events = skill_events + player_events;
    (
        StudyRpgModel {
            player,
            skills,
            sessions,
            daily_quests: quests,
            daily_completion_bonus_claimed: m.daily_completion_bonus_claimed || bonus_due,
            active_session: m.active_session,
            growth_events: m.growth_events + events,
        },
        StudySessionOutcome {
            session,
            player_xp: grant,
            completed_quests: completed,
            daily_completion_bonus_xp: bonus,
            quest_reward_xp: quest_reward as u32,
            growth_events: events,
        },
    )
}

/// The input a running timer turns into when it is finished after `minutes`.
pub open spec fn timer_input(active: ActiveStudySession, minutes: u32) -> StudySessionInput {
    StudySessionInput { topic: active.topic, skill_id: active.skill_id, duration_minutes: minutes }
}

/// Finishing the timer at `ended` stays within the limits of recording (see `can_record`).
pub open spec fn can_finish(m: StudyRpgModel, ended: u64) -> bool {
    match m.active_session {
        Some(active) => match completed_minutes_spec(active.started_at_epoch_seconds, ended) {
            Some(minutes) => can_record(
                refreshed(StudyRpgModel { active_session: None, ..m }, ended),
                timer_input(active, minutes),
                Some(active.started_at_epoch_seconds),
                Some(ended),
            ),
            None => true,
        },
        None => true,
    }
}

/// The error `create_skill` answers for a name and parent, if any.
pub open spec fn create_skill_error(m: StudyRpgModel, name: Seq<char>, parent_id: Option<u64>) -> Option<
    StudyRpgError,
> {
    let trimmed = trim_spec(name);
    if trimmed.len() == 0 {
        Some(StudyRpgError::EmptySkillName)
    } else if parent_id is Some && !has_skill(m.skills, parent_id->0) {
        Some(StudyRpgError::UnknownSkillParent)
    } else if exists|i: int|
        0 <= i < m.skills.len() && (#[trigger] m.skills[i]).parent_id == parent_id
            && eq_ignore_ascii_case_spec(m.skills[i].name, trimmed) {
        Some(StudyRpgError::DuplicateSkillName)
    } else {
        None
    }
}

/// The game with one more skill appended, named `name`, under `parent_id`.
pub open spec fn with_new_skill(m: StudyRpgModel, name: Seq<char>, parent_id: Option<u64>) -> StudyRpgModel {
    StudyRpgModel {
        skills: m.skills.push(
            SkillView {
                id: (max_skill_id(m.skills) + 1) as u64,
                name,
                parent_id,
                total_xp: 0,
                unlocked: parent_id is None,
            },
        ),
        ..m
    }
}

/// The rewards of the quests completed among the first `k` never exceed those of all.
proof fn lemma_rewards_prefix(quests: Seq<QuestView>, sessions: Seq<StudySession>, k: int)
    requires
        0 <= k <= quests.len(),
    ensures
        reward_total(newly_completed(quests.subrange(0, k), sessions)) <= reward_total(
            newly_completed(quests, sessions),
        ),
    decreases quests.len(),
{
    if k < quests.len() {
        assert(quests.drop_last().subrange(0, k) =~= quests.subrange(0, k));
        lemma_rewards_prefix(quests.drop_last(), sessions, k);
        let before = newly_completed(quests.drop_last(), sessions);
        if newly_reached(quests.last(), sessions) {
            assert(before.push(mark_completed(quests.last())).drop_last() =~= before);
        }
    } else {
        assert(quests.subrange(0, k) =~= quests);
    }
}

proof fn lemma_skill_views_push(skills: Seq<Skill>, skill: Skill)
    ensures
        skill_views(skills.push(skill)) == skill_views(skills).push(skill@),
{
    assert(skill_views(skills.push(skill)) =~= skill_views(skills).push(skill@));
}

proof fn lemma_event_views_push(events: Seq<GrowthEvent>, event: GrowthEvent)
    ensures
        event_views(events.push(event)) == event_views(events).push(event@),
{
    assert(event_views(events.push(event)) =~= event_views(events).push(event@));
}

impl StudyRpg {
    /// The identifiers to hand out next follow the largest ones in use.
    pub closed spec fn wf(&self) -> bool {
        &&& self.next_skill_id == max_skill_id(skill_views(self.skills@)) + 1
        &&& self.next_session_id == max_session_id(self.sessions@) + 1
        &&& self.next_growth_event_id == max_event_id(event_views(self.growth_events@)) + 1
    }

    /// The identifiers to hand out next are `u64` values, so the largest ones in use are below
    /// `u64::MAX`.
    pub proof fn lemma_room_for_next_ids(&self)
        requires
            self.wf(),
        ensures
            max_skill_id(self@.skills) < u64::MAX,
            max_session_id(self@.sessions) < u64::MAX,
            max_event_id(self@.growth_events) < u64::MAX,
    {
    }

    /// A new game: a fresh player, no skills or sessions, and the quests of day 0.
    pub fn new(player_name: &str, class: CharacterClass) -> (app: Self)
        ensures
            app.wf(),
            app@ == new_game(player_name@, class),
    {
        let app = StudyRpg {
            player: Player::new(player_name, class),
            skills: Vec::new(),
            sessions: Vec::new(),
            daily_quests: default_daily_quests_for_day(0),
            daily_completion_bonus_claimed: false,
            active_session: None,
            growth_events: Vec::new(),
            next_skill_id: 1,
            next_session_id: 1,
            next_growth_event_id: 1,
        };
        assert(app@ =~= new_game(player_name@, class));
        app
    }

    /// Restores a saved game; identifiers continue after the largest ones in the snapshot.
    pub fn from_snapshot(snapshot: StudyRpgSnapshot) -> (app: Self)
        requires
            max_skill_id(snapshot@.skills) < u64::MAX,
            max_session_id(snapshot@.sessions) < u64::MAX,
            max_event_id(snapshot@.growth_events) < u64::MAX,
        ensures
            app.wf(),
            app@ == snapshot@,
    {
        let next_skill_id = next_skill_id_after(&snapshot.skills);
        let next_session_id = next_session_id_after(&snapshot.sessions);
        let next_growth_event_id = next_event_id_after(&snapshot.growth_events);
        StudyRpg {
            player: snapshot.player,
            skills: snapshot.skills,
            sessions: snapshot.sessions,
            daily_quests: snapshot.daily_quests,
            daily_completion_bonus_claimed: snapshot.daily_completion_bonus_claimed,
            active_session: snapshot.active_session,
            growth_events: snapshot.growth_events,
            next_skill_id,
            next_session_id,
            next_growth_event_id,
        }
    }

    /// Everything that is saved of the game.
    pub fn snapshot(&self) -> (snapshot: StudyRpgSnapshot)
        ensures
            snapshot@ == self@,
    {
        let skills = self.skills.clone();
        let sessions = self.sessions.clone();
        let daily_quests = self.daily_quests.clone();
        let growth_events = self.growth_events.clone();
        let active_session = match &self.active_session {
            Some(active) => Some(active.clone()),
            None => None,
        };
        proof {
            assert(skills@ =~= self.skills@);
            assert(sessions@ =~= self.sessions@);
            assert(daily_quests@ =~= self.daily_quests@);
            assert(growth_events@ =~= self.growth_events@);
        }
        let snapshot = StudyRpgSnapshot {
            player: self.player.clone(),
            skills,
            sessions,
            daily_quests,
            daily_completion_bonus_claimed: self.daily_completion_bonus_claimed,
            active_session,
            growth_events,
        };
        assert(snapshot@ =~= self@);
        snapshot
    }

    pub fn player(&self) -> (player: &Player)
        ensures
            player@ == self@.player,
    {
        &self.player
    }

    pub fn skills(&self) -> (skills: &[Skill])
        ensures
            skill_views(skills@) == self@.skills,
    {
        self.skills.as_slice()
    }

    pub fn sessions(&self) -> (sessions: &[StudySession])
        ensures
            sessions@ == self@.sessions,
    {
        self.sessions.as_slice()
    }

    pub fn daily_quests(&self) -> (quests: &[Quest])
        ensures
            quest_views(quests@) == self@.daily_quests,
    {
        self.daily_quests.as_slice()
    }

    pub fn growth_events(&self) -> (events: &[GrowthEvent])
        ensures
            event_views(events@) == self@.growth_events,
    {
        self.growth_events.as_slice()
    }

    pub fn active_session(&self) -> (active: Option<&ActiveStudySession>)
        ensures
            match active {
                Some(a) => self@.active_session == Some(*a),
                None => self@.active_session is None,
            },
    {
        match &self.active_session {
            Some(active) => Some(active),
            None => None,
        }
    }

    /// Replaces the daily quests when they are not those of the day of `current_epoch_seconds`;
    /// answers whether it did.
    pub fn refresh_daily_quests_at(&mut self, current_epoch_seconds: u64) -> (changed: bool)
        requires
            old(self).wf(),
        ensures
            final(self).wf(),
            final(self)@ == refreshed(old(self)@, current_epoch_seconds),
            changed == !quests_are_of_day(old(self)@.daily_quests, day_of(current_epoch_seconds)),
    {
        let current_day = epoch_day(current_epoch_seconds);
        let mut all_current = self.daily_quests.len() > 0;
        let mut i: usize = 0;
        while i < self.daily_quests.len()
            invariant
                i <= self.daily_quests@.len(),
                all_current == (self.daily_quests@.len() > 0 && forall|k: int|
                    0 <= k < i ==> #[trigger] self.daily_quests@[k].epoch_day == current_day),
            decreases self.daily_quests@.len() - i,
        {
            if self.daily_quests[i].epoch_day != current_day {
                all_current = false;
            }
            i = i + 1;
        }
        proof {
            let views = quest_views(self.daily_quests@);
            if all_current {
                assert forall|k: int| 0 <= k < views.len() implies #[trigger] views[k].epoch_day
                    == current_day by {
                    assert(self.daily_quests@[k].epoch_day == current_day);
                }
            } else if views.len() > 0 {
                let k = choose|k: int|
                    0 <= k < i && #[trigger] self.daily_quests@[k].epoch_day != current_day;
                assert(views[k].epoch_day != current_day);
            }
        }
        if all_current {
            return false;
        }
        self.daily_quests = default_daily_quests_for_day(current_day);
        self.daily_completion_bonus_claimed = false;
        assert(self@ =~= refreshed(old(self)@, current_epoch_seconds));
        true
    }

    /// Appends a skill without checking its name or parent; returns its id.
    pub fn add_skill(&mut self, name: &str, parent_id: Option<u64>) -> (id: u64)
        requires
            old(self).wf(),
            max_skill_id(old(self)@.skills) + 2 <= u64::MAX,
        ensures
            final(self).wf(),
            id == max_skill_id(old(self)@.skills) + 1,
            forall|i: int| 0 <= i < old(self)@.skills.len() ==> (#[trigger] old(self)@.skills[i]).id < id,
            max_skill_id(final(self)@.skills) == id,
            final(self)@ == with_new_skill(old(self)@, name@, parent_id),
    {
        proof {
            lemma_ids_at_most_max(old(self)@.skills);
        }
        let id = self.next_skill_id;
        self.next_skill_id = self.next_skill_id + 1;
        let skill = Skill::new(id, name, parent_id);
        let ghost before = self.skills@;
        self.skills.push(skill);
        proof {
            lemma_skill_views_push(before, skill);
            assert(skill_views(self.skills@).drop_last() =~= skill_views(before));
        }
        assert(self@ =~= with_new_skill(old(self)@, name@, parent_id));
        id
    }

    /// Creates a skill after trimming its name: refuses an empty name, an unknown parent, and a
    /// name that a sibling already has (ignoring ASCII case); returns the new id.
    pub fn create_skill(&mut self, name: &str, parent_id: Option<u64>) -> (r: Result<u64, StudyRpgError>)
        requires
            old(self).wf(),
            create_skill_error(old(self)@, name@, parent_id) is None ==> max_skill_id(
                old(self)@.skills,
            ) + 2 <= u64::MAX,
        ensures
            final(self).wf(),
            match create_skill_error(old(self)@, name@, parent_id) {
                Some(error) => r == Err::<u64, StudyRpgError>(error) && final(self)@ == old(self)@,
                None => r == Ok::<u64, StudyRpgError>((max_skill_id(old(self)@.skills) + 1) as u64)
                    && final(self)@ == with_new_skill(old(self)@, trim_spec(name@), parent_id),
            },
            r is Ok ==> forall|i: int|
                0 <= i < old(self)@.skills.len() ==> (#[trigger] old(self)@.skills[i]).id < r->Ok_0,
    {
        let trimmed = trim_text(name);
        if trimmed.unicode_len() == 0 {
            return Err(StudyRpgError::EmptySkillName);
        }
        if let Some(parent) = parent_id {
            if !self.has_skill_id(parent) {
                return Err(StudyRpgError::UnknownSkillParent);
            }
        }
        let mut i: usize = 0;
        while i < self.skills.len()
            invariant
                self.wf(),
                self@ == old(self)@,
                i <= self.skills@.len(),
                trimmed@ == trim_spec(name@),
                trim_spec(name@).len() > 0,
                parent_id is Some ==> has_skill(old(self)@.skills, parent_id->0),
                forall|k: int|
                    0 <= k < i ==> !((#[trigger] self@.skills[k]).parent_id == parent_id
                        && eq_ignore_ascii_case_spec(self@.skills[k].name, trimmed@)),
            decreases self.skills@.len() - i,
        {
            if self.skills[i].parent_id == parent_id && eq_ignore_ascii_case(
                self.skills[i].name.as_str(),
                trimmed,
            ) {
                assert(self@.skills[i as int] == self.skills@[i as int]@);
                proof {
                    let m = old(self)@;
                    assert(m.skills[i as int].parent_id == parent_id && eq_ignore_ascii_case_spec(
                        m.skills[i as int].name,
                        trim_spec(name@),
                    ));
                }
                return Err(StudyRpgError::DuplicateSkillName);
            }
            i = i + 1;
        }
        Ok(self.add_skill(trimmed, parent_id))
    }

    fn has_skill_id(&self, id: u64) -> (r: bool)
        ensures
            r == has_skill(self@.skills, id),
    {
        match self.find_skill(id) {
            Some(_) => true,
            None => false,
        }
    }

    /// The first position of a skill with id `id`.
    fn find_skill(&self, id: u64) -> (r: Option<usize>)
        ensures
            match r {
                Some(i) => skill_position(self@.skills, id) == Some(i as int),
                None => skill_position(self@.skills, id) is None,
            },
            r is Some <==> has_skill(self@.skills, id),
    {
        let mut i: usize = 0;
        while i < self.skills.len()
            invariant
                i <= self.skills@.len(),
                forall|k: int| 0 <= k < i ==> self@.skills[k].id != id,
            decreases self.skills@.len() - i,
        {
            if self.skills[i].id == id {
                proof {
                    assert(is_first_with_id(self@.skills, id, i as int));
                    let c = choose|c: int| is_first_with_id(self@.skills, id, c);
                    assert(c == i);
                }
                return Some(i);
            }
            i = i + 1;
        }
        proof {
            assert(!has_skill(self@.skills, id));
        }
        None
    }

    /// Starts the study timer; refuses when a timer already runs or the skill does not exist.
    pub fn start_study_session(&mut self, input: StudySessionStartInput, started_at_epoch_seconds: u64) -> (r:
        Result<ActiveStudySession, StudyRpgError>)
        requires
            old(self).wf(),
        ensures
            final(self).wf(),
            old(self)@.active_session is Some ==> r == Err::<ActiveStudySession, StudyRpgError>(
                StudyRpgError::StudySessionAlreadyActive,
            ) && final(self)@ == old(self)@,
            old(self)@.active_session is None && input.skill_id is Some && !has_skill(
                old(self)@.skills,
                input.skill_id->0,
            ) ==> r == Err::<ActiveStudySession, StudyRpgError>(StudyRpgError::UnknownSkill)
                && final(self)@ == old(self)@,
            old(self)@.active_session is None && (input.skill_id is None || has_skill(
                old(self)@.skills,
                input.skill_id->0,
            )) ==> {
                let active = ActiveStudySession {
                    topic: input.topic,
                    skill_id: input.skill_id,
                    started_at_epoch_seconds,
                };
                &&& r == Ok::<ActiveStudySession, StudyRpgError>(active)
                &&& final(self)@ == StudyRpgModel { active_session: Some(active), ..old(self)@ }
            },
    {
        if self.active_session.is_some() {
            return Err(StudyRpgError::StudySessionAlreadyActive);
        }
        if let Some(skill_id) = input.skill_id {
            if !self.has_skill_id(skill_id) {
                return Err(StudyRpgError::UnknownSkill);
            }
        }
        let active = ActiveStudySession {
            topic: input.topic,
            skill_id: input.skill_id,
            started_at_epoch_seconds,
        };
        self.active_session = Some(active.clone());
        assert(self@ =~= StudyRpgModel { active_session: Some(active), ..old(self)@ });
        Ok(active)
    }

    /// Stops the timer and records the session, after moving the daily quests to the day the
    /// timer stopped; refuses when no timer runs or it ran less than a minute.
    pub fn finish_active_study_session(&mut self, ended_at_epoch_seconds: u64) -> (r: Result<
        StudySessionResult,
        StudyRpgError,
    >)
        requires
            old(self).wf(),
            can_finish(old(self)@, ended_at_epoch_seconds),
        ensures
            final(self).wf(),
            match old(self)@.active_session {
                None => r == Err::<StudySessionResult, StudyRpgError>(
                    StudyRpgError::NoActiveStudySession,
                ) && final(self)@ == old(self)@,
                Some(active) => match completed_minutes_spec(
                    active.started_at_epoch_seconds,
                    ended_at_epoch_seconds,
                ) {
                    None => r == Err::<StudySessionResult, StudyRpgError>(
                        StudyRpgError::StudySessionTooShort,
                    ) && final(self)@ == old(self)@,
                    Some(minutes) => {
                        let outcome = record_spec(
                            refreshed(
                                StudyRpgModel { active_session: None, ..old(self)@ },
                                ended_at_epoch_seconds,
                            ),
                            timer_input(active, minutes),
                            Some(active.started_at_epoch_seconds),
                            Some(ended_at_epoch_seconds),
                        );
                        &&& r is Ok
                        &&& r->Ok_0@ == outcome.1
                        &&& final(self)@ == outcome.0
                    },
                },
            },
    {
        let active = match &self.active_session {
            Some(active) => active.clone(),
            None => {
                return Err(StudyRpgError::NoActiveStudySession);
            },
        };
        let duration_minutes = match completed_minutes_between(
            active.started_at_epoch_seconds,
            ended_at_epoch_seconds,
        ) {
            Some(minutes) => minutes,
            None => {
                return Err(StudyRpgError::StudySessionTooShort);
            },
        };
        self.active_session = None;
        assert(self@ =~= StudyRpgModel { active_session: None, ..old(self)@ });
        self.refresh_daily_quests_at(ended_at_epoch_seconds);
        let started = active.started_at_epoch_seconds;
        Ok(
            self.record_completed_session(
                StudySessionInput {
                    topic: active.topic,
                    skill_id: active.skill_id,
                    duration_minutes,
                },
                Some(started),
                Some(ended_at_epoch_seconds),
            ),
        )
    }

    /// Whether recording `input` stays within the limits of `can_record`: identifiers left to
    /// hand out, and the minutes and rewards of the daily quests fitting in a `u32`.
    pub fn can_record_session(
        &self,
        input: &StudySessionInput,
        started_at_epoch_seconds: Option<u64>,
        ended_at_epoch_seconds: Option<u64>,
    ) -> (r: bool)
        requires
            self.wf(),
        ensures
            r == can_record(self@, *input, started_at_epoch_seconds, ended_at_epoch_seconds),
    {
        let ghost m = self@;
        if self.next_session_id == u64::MAX || self.next_growth_event_id > u64::MAX - 2 {
            return false;
        }
        let mut sessions = self.sessions.clone();
        proof {
            assert(sessions@ =~= self.sessions@);
        }
        sessions.push(
            StudySession {
                id: self.next_session_id,
                topic: input.topic.clone(),
                skill_id: input.skill_id,
                duration_minutes: input.duration_minutes,
                earned_xp: xp_for_duration(input.duration_minutes),
                started_at_epoch_seconds,
                ended_at_epoch_seconds,
            },
        );
        let ghost all = m.sessions.push(
            recorded_session(m, *input, started_at_epoch_seconds, ended_at_epoch_seconds),
        );
        assert(sessions@ == all);
        let ghost views = m.daily_quests;
        let mut rewards: u64 = 0;
        let mut i: usize = 0;
        while i < self.daily_quests.len()
            invariant
                self.wf(),
                m == self@,
                views == m.daily_quests,
                views == quest_views(self.daily_quests@),
                sessions@ == all,
                all == m.sessions.push(
                    recorded_session(m, *input, started_at_epoch_seconds, ended_at_epoch_seconds),
                ),
                self.next_session_id < u64::MAX,
                self.next_growth_event_id <= u64::MAX - 2,
                i <= views.len(),
                forall|k: int| 0 <= k < i && !(#[trigger] views[k]).completed ==> quest_fits(views[k], all),
                rewards == reward_total(newly_completed(views.subrange(0, i as int), all)),
                rewards <= u32::MAX,
            decreases views.len() - i,
        {
            let quest = &self.daily_quests[i];
            proof {
                assert(views[i as int] == quest@);
                assert(views.subrange(0, i as int + 1).drop_last() =~= views.subrange(0, i as int));
                assert(views.subrange(0, i as int + 1).last() == views[i as int]);
                lemma_reward_total_nonneg(newly_completed(views.subrange(0, i as int), all));
            }
            if !quest.completed {
                let fits = match quest.target {
                    QuestTarget::StudyMinutes(_) => minutes_on_day_within(
                        sessions.as_slice(),
                        quest.epoch_day,
                    ).is_some(),
                    QuestTarget::CompleteSessions(_) => true,
                };
                if !fits {
                    assert(!quest_fits(views[i as int], all));
                    assert(!open_quests_fit(m.daily_quests, all));
                    return false;
                }
                let progress = progress_for_quest(quest, sessions.as_slice());
                let ghost before = newly_completed(views.subrange(0, i as int), all);
                proof {
                    if progress.completed {
                        assert(before.push(mark_completed(views[i as int])).drop_last() =~= before);
                    }
                }
                if progress.completed {
                    rewards = rewards + quest.reward_xp as u64;
                    if rewards > u32::MAX as u64 {
                        proof {
                            assert(newly_reached(views[i as int], all));
                            assert(newly_completed(views.subrange(0, i as int + 1), all) == before.push(
                                mark_completed(views[i as int]),
                            ));
                            assert(rewards == reward_total(
                                newly_completed(views.subrange(0, i as int + 1), all),
                            ));
                            lemma_rewards_prefix(views, all, i as int + 1);
                        }
                        return false;
                    }
                }
            }
            i = i + 1;
        }
        proof {
            assert(views.subrange(0, views.len() as int) =~= views);
        }
        true
    }

    /// Whether finishing the timer at `ended_at_epoch_seconds` stays within the limits of
    /// recording (see `can_finish`).
    pub fn can_finish_at(&self, ended_at_epoch_seconds: u64) -> (r: bool)
        requires
            self.wf(),
        ensures
            r == can_finish(self@, ended_at_epoch_seconds),
    {
        match &self.active_session {
            None => true,
            Some(active) => match completed_minutes_between(
                active.started_at_epoch_seconds,
                ended_at_epoch_seconds,
            ) {
                None => true,
                Some(minutes) => {
                    proof {
                        self.lemma_room_for_next_ids();
                    }
                    let mut copy = StudyRpg::from_snapshot(self.snapshot());
                    copy.active_session = None;
                    assert(copy@ =~= StudyRpgModel { active_session: None, ..self@ });
                    copy.refresh_daily_quests_at(ended_at_epoch_seconds);
                    let input = StudySessionInput {
                        topic: active.topic.clone(),
                        skill_id: active.skill_id,
                        duration_minutes: minutes,
                    };
                    copy.can_record_session(
                        &input,
                        Some(active.started_at_epoch_seconds),
                        Some(ended_at_epoch_seconds),
                    )
                },
            },
        }
    }

    /// Whether another skill id can be handed out after the next one, as adding a skill asks.
    pub fn has_room_for_skill(&self) -> (r: bool)
        requires
            self.wf(),
        ensures
            r == (max_skill_id(self@.skills) + 2 <= u64::MAX),
    {
        self.next_skill_id < u64::MAX
    }

    /// Records a session entered by hand, without times; the daily quests are not moved.
    pub fn complete_study_session(&mut self, input: StudySessionInput) -> (r: StudySessionResult)
        requires
            old(self).wf(),
            can_record(old(self)@, input, None, None),
        ensures
            final(self).wf(),
            final(self)@ == record_spec(old(self)@, input, None, None).0,
            r@ == record_spec(old(self)@, input, None, None).1,
    {
        self.record_completed_session(input, None, None)
    }

    /// Records a session entered by hand that ended at `ended_at_epoch_seconds`, after moving the
    /// daily quests to that day.
    pub fn complete_study_session_at(&mut self, input: StudySessionInput, ended_at_epoch_seconds: u64) -> (r:
        StudySessionResult)
        requires
            old(self).wf(),
            can_record(
                refreshed(old(self)@, ended_at_epoch_seconds),
                input,
                None,
                Some(ended_at_epoch_seconds),
            ),
        ensures
            final(self).wf(),
            final(self)@ == record_spec(
                refreshed(old(self)@, ended_at_epoch_seconds),
                input,
                None,
                Some(ended_at_epoch_seconds),
            ).0,
            r@ == record_spec(
                refreshed(old(self)@, ended_at_epoch_seconds),
                input,
                None,
                Some(ended_at_epoch_seconds),
            ).1,
    {
        self.refresh_daily_quests_at(ended_at_epoch_seconds);
        self.record_completed_session(input, None, Some(ended_at_epoch_seconds))
    }

    fn record_completed_session(
        &mut self,
        input: StudySessionInput,
        started_at_epoch_seconds: Option<u64>,
        ended_at_epoch_seconds: Option<u64>,
    ) -> (r: StudySessionResult)
        requires
            old(self).wf(),
            can_record(old(self)@, input, started_at_epoch_seconds, ended_at_epoch_seconds),
        ensures
            final(self).wf(),
            final(self)@ == record_spec(
                old(self)@,
                input,
                started_at_epoch_seconds,
                ended_at_epoch_seconds,
            ).0,
            r@ == record_spec(old(self)@, input, started_at_epoch_seconds, ended_at_epoch_seconds).1,
    {
        let ghost m = self@;
        let ghost spec = record_spec(m, input, started_at_epoch_seconds, ended_at_epoch_seconds);
        let earned_xp = xp_for_duration(input.duration_minutes);
        let session = StudySession {
            id: self.next_session_id,
            topic: input.topic,
            skill_id: input.skill_id,
            duration_minutes: input.duration_minutes,
            earned_xp,
            started_at_epoch_seconds,
            ended_at_epoch_seconds,
        };
        assert(session == spec.1.session);
        self.next_session_id = self.next_session_id + 1;
        self.sessions.push(session.clone());
        let first_event_id = self.next_growth_event_id;
        let ghost log_start = event_views(self.growth_events@);
        let mut events: Vec<GrowthEvent> = Vec::new();
        let position = match session.skill_id {
            Some(skill_id) => self.find_skill(skill_id),
            None => None,
        };
        assert(match position {
            Some(i) => session_skill_position(m, input.skill_id) == Some(i as int),
            None => session_skill_position(m, input.skill_id) is None,
        });
        if let Some(index) = position {
            let mut skill = self.skills[index].clone();
            let level_before = progress_from_total_xp(skill.total_xp).level;
            let after = skill.grant_xp(earned_xp);
            let event = GrowthEvent {
                id: first_event_id,
                session_id: session.id,
                topic: session.topic.clone(),
                occurred_at_epoch_seconds: ended_at_epoch_seconds,
                kind: GrowthEventKind::SkillGrowth {
                    skill_id: skill.id,
                    skill_name: skill.name.clone(),
                    gained_xp: earned_xp,
                    level_before,
                    level_after: after.level,
                    total_xp_after: skill.total_xp,
                },
            };
            let ghost skills_before = self.skills@;
            self.skills.set(index, skill);
            proof {
                assert(skill_views(self.skills@) =~= skill_views(skills_before).update(
                    index as int,
                    skill@,
                ));
            }
            let ghost log_before = self.growth_events@;
            self.growth_events.push(event.clone());
            proof {
                lemma_event_views_push(log_before, event);
            }
            events.push(event);
        }
        assert(skill_views(self.skills@) == spec.0.skills);
        let ghost skills_after = skill_views(self.skills@);
        let ghost sessions_after = self.sessions@;
        assert(sessions_after == m.sessions.push(session));
        let completed_quests = evaluate_quests(&mut self.daily_quests, self.sessions.as_slice());
        let quest_reward_xp = reward_sum(&completed_quests);
        let all_done = all_completed(&self.daily_quests);
        let bonus = if !self.daily_completion_bonus_claimed && all_done {
            self.daily_completion_bonus_claimed = true;
            DAILY_COMPLETION_BONUS_XP
        } else {
            0
        };
        let gained = earned_xp.saturating_add(quest_reward_xp).saturating_add(bonus);
        proof {
            assert(quest_views(completed_quests@) == newly_completed(m.daily_quests, sessions_after));
            assert(quest_reward_xp == reward_total(newly_completed(m.daily_quests, sessions_after)));
            assert(quest_views(self.daily_quests@) == evaluated_quests(m.daily_quests, sessions_after));
            assert(bonus == spec.1.daily_completion_bonus_xp);
            assert(gained == saturating_add_spec(
                saturating_add_spec(earned_xp as int, quest_reward_xp as int),
                bonus as int,
            ));
            assert(self.player@ == m.player);
        }
        let player_xp = self.player.grant_xp(gained);
        if player_xp.after.level > player_xp.before.level {
            let event = GrowthEvent {
                id: first_event_id + events.len() as u64,
                session_id: session.id,
                topic: session.topic.clone(),
                occurred_at_epoch_seconds: ended_at_epoch_seconds,
                kind: GrowthEventKind::PlayerLevelChange {
                    gained_xp: player_xp.gained_xp,
                    level_before: player_xp.before.level,
                    level_after: player_xp.after.level,
                    total_xp_after: self.player.total_xp,
                },
            };
            let ghost log_before = self.growth_events@;
            self.growth_events.push(event.clone());
            proof {
                lemma_event_views_push(log_before, event);
            }
            events.push(event);
        }
        assert(event_views(events@) =~= spec.1.growth_events);
        self.next_growth_event_id = first_event_id + events.len() as u64;
        let result = StudySessionResult {
            session,
            player_xp,
            completed_quests,
            daily_completion_bonus_xp: bonus,
            quest_reward_xp,
            growth_events: events,
        };
        proof {
            lemma_max_session_push(m.sessions, session);
            lemma_max_skill_update_keeps(m.skills, spec.0.skills);
            lemma_max_event_append(m.growth_events, event_views(events@));
            assert(self.player@ == spec.0.player);
            assert(skill_views(self.skills@) == skills_after);
            assert(self.sessions@ == spec.0.sessions);
            assert(quest_views(self.daily_quests@) == spec.0.daily_quests);
            assert(self.daily_completion_bonus_claimed == spec.0.daily_completion_bonus_claimed);
            assert(event_views(self.growth_events@) =~= log_start + event_views(events@));
            assert(event_views(self.growth_events@) =~= spec.0.growth_events);
        }
        assert(result@ =~= spec.1);
        assert(self@ =~= spec.0);
        result
    }

    /// Totals over all sessions.
    pub fn statistics(&self) -> (stats: crate::statistics::StudyStatistics)
        requires
            crate::quest::minutes_total(self@.sessions) <= u32::MAX,
            crate::statistics::xp_total(self@.sessions) <= u32::MAX,
        ensures
            stats.total_sessions == self@.sessions.len() as u32,
            stats.total_minutes == crate::quest::minutes_total(self@.sessions),
            stats.total_xp == crate::statistics::xp_total(self@.sessions),
    {
        crate::statistics::StudyStatistics::from_sessions(self.sessions.as_slice())
    }

    /// The statistics report as seen at `current_epoch_seconds`.
    pub fn statistics_at(&self, current_epoch_seconds: u64) -> (report: crate::statistics::StudyStatisticsReport)
        ensures
            crate::statistics::report_of(report, self@.sessions, current_epoch_seconds),
    {
        crate::statistics::StudyStatisticsReport::from_sessions_at(
            self.sessions.as_slice(),
            current_epoch_seconds,
        )
    }
}

proof fn lemma_max_session_push(sessions: Seq<StudySession>, session: StudySession)
    ensures
        max_session_id(sessions.push(session)) == if session.id > max_session_id(sessions) {
            session.id as int
        } else {
            max_session_id(sessions)
        },
{
    assert(sessions.push(session).drop_last() =~= sessions);
}

proof fn lemma_max_skill_update_keeps(a: Seq<SkillView>, b: Seq<SkillView>)
    requires
        a.len() == b.len(),
        forall|i: int| 0 <= i < a.len() ==> #[trigger] a[i].id == b[i].id,
    ensures
        max_skill_id(a) == max_skill_id(b),
    decreases a.len(),
{
    if a.len() > 0 {
        lemma_max_skill_update_keeps(a.drop_last(), b.drop_last());
    }
}

proof fn lemma_max_event_nonneg(events: Seq<GrowthEventView>)
    ensures
        max_event_id(events) >= 0,
    decreases events.len(),
{
    if events.len() > 0 {
        lemma_max_event_nonneg(events.drop_last());
    }
}

/// Appending events whose ids keep counting up from the largest one makes the last of them
/// the largest.
proof fn lemma_max_event_append(events: Seq<GrowthEventView>, added: Seq<GrowthEventView>)
    requires
        forall|k: int| 0 <= k < added.len() ==> #[trigger] added[k].id == max_event_id(events) + 1 + k,
    ensures
        max_event_id(events + added) == max_event_id(events) + added.len(),
    decreases added.len(),
{
    lemma_max_event_nonneg(events);
    if added.len() > 0 {
        lemma_max_event_append(events, added.drop_last());
        assert((events + added).drop_last() =~= events + added.drop_last());
    } else {
        assert(events + added =~= events);
    }
}

/// The daily quests of day 0.
pub fn default_daily_quests() -> (quests: Vec<Quest>)
    ensures
        quest_views(quests@) == default_quests_spec(0),
{
    default_daily_quests_for_day(0)
}

/// The two daily quests of `epoch_day`, both open.
pub fn default_daily_quests_for_day(epoch_day: u64) -> (quests: Vec<Quest>)
    ensures
        quest_views(quests@) == default_quests_spec(epoch_day),
{
    let mut quests = Vec::new();
    quests.push(Quest::study_minutes_for_day(1, epoch_day, 30, 60));
    quests.push(Quest::complete_sessions_for_day(2, epoch_day, 1, 40));
    assert(quest_views(quests@) =~= default_quests_spec(epoch_day));
    quests
}

fn all_completed(quests: &Vec<Quest>) -> (r: bool)
    ensures
        r == all_quests_completed(quest_views(quests@)),
{
    if quests.len() == 0 {
        return false;
    }
    let mut i: usize = 0;
    while i < quests.len()
        invariant
            i <= quests@.len(),
            forall|k: int| 0 <= k < i ==> #[trigger] quests@[k].completed,
        decreases quests@.len() - i,
    {
        if !quests[i].completed {
            assert(!quest_views(quests@)[i as int].completed);
            return false;
        }
        i = i + 1;
    }
    true
}

fn reward_sum(quests: &Vec<Quest>) -> (sum: u32)
    requires
        reward_total(quest_views(quests@)) <= u32::MAX,
    ensures
        sum == reward_total(quest_views(quests@)),
{
    let mut sum: u32 = 0;
    let mut i: usize = 0;
    while i < quests.len()
        invariant
            i <= quests@.len(),
            sum == reward_total(quest_views(quests@.subrange(0, i as int))),
            reward_total(quest_views(quests@)) <= u32::MAX,
        decreases quests@.len() - i,
    {
        proof {
            assert(quest_views(quests@.subrange(0, i as int + 1)).drop_last() =~= quest_views(
                quests@.subrange(0, i as int),
            ));
            lemma_reward_total_prefix(quest_views(quests@), i as int + 1);
            assert(quest_views(quests@).subrange(0, i as int + 1) =~= quest_views(
                quests@.subrange(0, i as int + 1),
            ));
        }
        sum = sum + quests[i].reward_xp;
        i = i + 1;
    }
    assert(quests@.subrange(0, quests@.len() as int) =~= quests@);
    sum
}

proof fn lemma_reward_total_prefix(quests: Seq<QuestView>, k: int)
    requires
        0 <= k <= quests.len(),
    ensures
        0 <= reward_total(quests.subrange(0, k)) <= reward_total(quests),
    decreases quests.len(),
{
    if k < quests.len() {
        assert(quests.drop_last().subrange(0, k) =~= quests.subrange(0, k));
        lemma_reward_total_prefix(quests.drop_last(), k);
    } else {
        assert(quests.subrange(0, k) =~= quests);
        lemma_reward_total_nonneg(quests);
    }
}

proof fn lemma_reward_total_nonneg(quests: Seq<QuestView>)
    ensures
        reward_total(quests) >= 0,
    decreases quests.len(),
{
    if quests.len() > 0 {
        lemma_reward_total_nonneg(quests.drop_last());
    }
}

fn next_skill_id_after(skills: &Vec<Skill>) -> (next: u64)
    requires
        max_skill_id(skill_views(skills@)) < u64::MAX,
    ensures
        next == max_skill_id(skill_views(skills@)) + 1,
{
    let mut largest: u64 = 0;
    let mut i: usize = 0;
    while i < skills.len()
        invariant
            i <= skills@.len(),
            largest == max_skill_id(skill_views(skills@.subrange(0, i as int))),
        decreases skills@.len() - i,
    {
        proof {
            assert(skill_views(skills@.subrange(0, i as int + 1)).drop_last() =~= skill_views(
                skills@.subrange(0, i as int),
            ));
        }
        if skills[i].id > largest {
            largest = skills[i].id;
        }
        i = i + 1;
    }
    assert(skills@.subrange(0, skills@.len() as int) =~= skills@);
    largest + 1
}

fn next_session_id_after(sessions: &Vec<StudySession>) -> (next: u64)
    requires
        max_session_id(sessions@) < u64::MAX,
    ensures
        next == max_session_id(sessions@) + 1,
{
    let mut largest: u64 = 0;
    let mut i: usize = 0;
    while i < sessions.len()
        invariant
            i <= sessions@.len(),
            largest == max_session_id(sessions@.subrange(0, i as int)),
        decreases sessions@.len() - i,
    {
        proof {
            assert(sessions@.subrange(0, i as int + 1).drop_last() =~= sessions@.subrange(0, i as int));
        }
        if sessions[i].id > largest {
            largest = sessions[i].id;
        }
        i = i + 1;
    }
    assert(sessions@.subrange(0, sessions@.len() as int) =~= sessions@);
    largest + 1
}

fn next_event_id_after(events: &Vec<GrowthEvent>) -> (next: u64)
    requires
        max_event_id(event_views(events@)) < u64::MAX,
    ensures
        next == max_event_id(event_views(events@)) + 1,
{
    let mut largest: u64 = 0;
    let mut i: usize = 0;
    while i < events.len()
        invariant
            i <= events@.len(),
            largest == max_event_id(event_views(events@.subrange(0, i as int))),
        decreases events@.len() - i,
    {
        proof {
            assert(event_views(events@.subrange(0, i as int + 1)).drop_last() =~= event_views(
                events@.subrange(0, i as int),
            ));
        }
        if events[i].id > largest {
            largest = events[i].id;
        }
        i = i + 1;
    }
    assert(events@.subrange(0, events@.len() as int) =~= events@);
    largest + 1
}

} // verus!
