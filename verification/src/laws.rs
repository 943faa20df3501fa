//! What holds of the game across calls: the daily bonus, the quests of a day, the XP a session
//! brings, the levels, the growth history, saving and restoring, and the statistics report.
use vstd::prelude::*;
use crate::quest::{QuestView, evaluated_quests, newly_completed, minutes_on_day, sessions_on_day, lemma_minutes_on_day_bounds};
use crate::player::saturating_add_spec;
use crate::session::{StudySession, day_of, session_day};
use crate::study_rpg::{
    DAILY_COMPLETION_BONUS_XP, StudyRpg, StudyRpgModel, StudySessionInput, all_quests_completed,
    default_quests_spec, has_skill, max_skill_id, max_session_id, max_event_id, quests_are_of_day,
    can_record, record_spec, recorded_session, refreshed, reward_total, session_skill_position,
};
use crate::statistics::{
    Period, StudyStatisticsReport, in_period, is_run, period_count, period_minutes, period_statistics,
    period_xp, report_of,
};
use crate::xp::{level_progress_of, lemma_level_progress_of, lemma_xp_before_level_strictly_increasing};

verus! {

/// Refreshing at a moment of the quests' own day changes nothing; at a moment of another day
/// it brings the two quests of that day, all open, and makes the daily bonus available again.
pub proof fn law_refresh_moves_to_the_day(m: StudyRpgModel, now: u64)
    ensures
        quests_are_of_day(m.daily_quests, day_of(now)) ==> refreshed(m, now) == m,
        !quests_are_of_day(m.daily_quests, day_of(now)) ==> {
            let r = refreshed(m, now);
            &&& r.daily_quests == default_quests_spec(day_of(now))
            &&& !r.daily_completion_bonus_claimed
            &&& r == (StudyRpgModel { daily_quests: r.daily_quests, daily_completion_bonus_claimed: false, ..m })
        },
        quests_are_of_day(refreshed(m, now).daily_quests, day_of(now)),
{
}

/// Recording a session keeps the quests on their day.
proof fn lemma_record_keeps_quest_days(m: StudyRpgModel, input: StudySessionInput, started: Option<u64>, ended: Option<u64>, day: u64)
    requires
        quests_are_of_day(m.daily_quests, day),
    ensures
        quests_are_of_day(record_spec(m, input, started, ended).0.daily_quests, day),
{
    let after = record_spec(m, input, started, ended).0.daily_quests;
    assert forall|i: int| 0 <= i < after.len() implies #[trigger] after[i].epoch_day == day by {
        assert(m.daily_quests[i].epoch_day == day);
    }
}

/// The daily completion bonus is paid at most once a day: after a session that paid it, a
/// later session recorded while the quests are still those of the same day pays none.
pub proof fn law_bonus_paid_once_a_day(
    m: StudyRpgModel,
    first: StudySessionInput,
    first_started: Option<u64>,
    first_ended: Option<u64>,
    second: StudySessionInput,
    second_started: Option<u64>,
    second_ended: Option<u64>,
    now: u64,
)
    requires
        quests_are_of_day(m.daily_quests, day_of(now)),
    ensures
        ({
            let (m1, o1) = record_spec(m, first, first_started, first_ended);
            o1.daily_completion_bonus_xp > 0 ==> {
                &&& m1.daily_completion_bonus_claimed
                &&& refreshed(m1, now) == m1
                &&& record_spec(refreshed(m1, now), second, second_started, second_ended).1.daily_completion_bonus_xp == 0
            }
        }),
{
    lemma_record_keeps_quest_days(m, first, first_started, first_ended, day_of(now));
}

/// On the quests of a new day, one session of thirty minutes or more that ends on that day
/// completes both daily quests, pays their 100 XP of rewards and the daily bonus.
pub proof fn law_thirty_minutes_clear_a_new_day(
    m: StudyRpgModel,
    input: StudySessionInput,
    started: Option<u64>,
    ended: u64,
)
    requires
        !quests_are_of_day(m.daily_quests, day_of(ended)),
        input.duration_minutes >= 30,
        m.sessions.len() < u32::MAX,
    ensures
        ({
            let (after, outcome) = record_spec(refreshed(m, ended), input, started, Some(ended));
            &&& outcome.completed_quests.len() == 2
            &&& outcome.quest_reward_xp == 100
            &&& outcome.daily_completion_bonus_xp == DAILY_COMPLETION_BONUS_XP
            &&& all_quests_completed(after.daily_quests)
            &&& after.daily_completion_bonus_claimed
        }),
{
    let day = day_of(ended);
    let r = refreshed(m, ended);
    let session = recorded_session(r, input, started, Some(ended));
    let sessions = r.sessions.push(session);
    assert(sessions.drop_last() =~= m.sessions);
    assert(session_day(session) == day);
    lemma_minutes_on_day_bounds(m.sessions, day);
    assert(minutes_on_day(sessions, day) == minutes_on_day(m.sessions, day) + input.duration_minutes);
    assert(sessions_on_day(sessions, day) == sessions_on_day(m.sessions, day) + 1);
    let quests = default_quests_spec(day);
    assert(quests.drop_last().drop_last() =~= Seq::<QuestView>::empty());
    assert(quests.drop_last().last() == quests[0]);
    reveal_with_fuel(newly_completed, 3);
    let done = newly_completed(quests, sessions);
    assert(done.len() == 2);
    assert(done.drop_last().drop_last() =~= Seq::<QuestView>::empty());
    reveal_with_fuel(reward_total, 3);
    assert(reward_total(done) == 100);
    let after = evaluated_quests(quests, sessions);
    assert(all_quests_completed(after));
}

/// Quests that were completed stay completed when a session is recorded.
pub proof fn law_completed_quests_stay_completed(
    m: StudyRpgModel,
    input: StudySessionInput,
    started: Option<u64>,
    ended: Option<u64>,
    i: int,
)
    requires
        0 <= i < m.daily_quests.len(),
        m.daily_quests[i].completed,
    ensures
        record_spec(m, input, started, ended).0.daily_quests.len() == m.daily_quests.len(),
        record_spec(m, input, started, ended).0.daily_quests[i] == m.daily_quests[i],
{
}

/// The player gains exactly what the session reports, saturating at `u32::MAX`: the session's
/// own XP, the rewards of the quests it completed and the daily bonus, added up.
pub proof fn law_session_xp_adds_up(
    m: StudyRpgModel,
    input: StudySessionInput,
    started: Option<u64>,
    ended: Option<u64>,
)
    requires
        can_record(m, input, started, ended),
    ensures
        ({
            let (after, outcome) = record_spec(m, input, started, ended);
            &&& outcome.player_xp.gained_xp == saturating_add_spec(
                saturating_add_spec(outcome.session.earned_xp as int, outcome.quest_reward_xp as int),
                outcome.daily_completion_bonus_xp as int,
            )
            &&& after.player.total_xp == saturating_add_spec(
                m.player.total_xp as int,
                outcome.player_xp.gained_xp as int,
            )
            &&& outcome.player_xp.before == level_progress_of(m.player.total_xp)
            &&& outcome.player_xp.after == level_progress_of(after.player.total_xp)
        }),
{
    let sessions = m.sessions.push(recorded_session(m, input, started, ended));
    lemma_reward_total_nonneg(newly_completed(m.daily_quests, sessions));
}

proof fn lemma_reward_total_nonneg(quests: Seq<QuestView>)
    ensures
        reward_total(quests) >= 0,
    decreases quests.len(),
{
    if quests.len() > 0 {
        lemma_reward_total_nonneg(quests.drop_last());
    }
}

/// More XP never means a lower level.
pub proof fn law_level_grows_with_xp(a: u32, b: u32)
    requires
        a <= b,
    ensures
        level_progress_of(a).level <= level_progress_of(b).level,
{
    lemma_level_progress_of(a);
    lemma_level_progress_of(b);
    let la = level_progress_of(a).level as int;
    let lb = level_progress_of(b).level as int;
    if lb < la {
        lemma_xp_before_level_strictly_increasing(lb, la);
    }
}

/// Recording a session never lowers the player's level.
pub proof fn law_session_never_lowers_the_level(
    m: StudyRpgModel,
    input: StudySessionInput,
    started: Option<u64>,
    ended: Option<u64>,
)
    requires
        can_record(m, input, started, ended),
    ensures
        level_progress_of(m.player.total_xp).level <= level_progress_of(
            record_spec(m, input, started, ended).0.player.total_xp,
        ).level,
{
    law_session_xp_adds_up(m, input, started, ended);
    let after = record_spec(m, input, started, ended).0;
    law_level_grows_with_xp(m.player.total_xp, after.player.total_xp);
}

/// The growth history of a session: one skill growth event when the session names an existing
/// skill, then one level change event exactly when the player's level rose; the events are
/// appended to the history with fresh ids, after every id already used.
pub proof fn law_session_growth_events(
    m: StudyRpgModel,
    input: StudySessionInput,
    started: Option<u64>,
    ended: Option<u64>,
)
    requires
        can_record(m, input, started, ended),
    ensures
        ({
            let (after, outcome) = record_spec(m, input, started, ended);
            let events = outcome.growth_events;
            let skill_count: int = if session_skill_position(m, input.skill_id) is Some { 1 } else { 0 };
            let rose = outcome.player_xp.after.level > outcome.player_xp.before.level;
            &&& after.growth_events == m.growth_events + events
            &&& events.len() == skill_count + if rose { 1int } else { 0 }
            &&& (skill_count == 1 ==> events[0].kind is SkillGrowth)
            &&& (rose <==> exists|k: int| 0 <= k < events.len() && (#[trigger] events[k]).kind is PlayerLevelChange)
            &&& forall|k: int| 0 <= k < events.len() ==> (#[trigger] events[k]).id > max_event_id(m.growth_events)
                && events[k].session_id == outcome.session.id
        }),
{
    let (after, outcome) = record_spec(m, input, started, ended);
    let events = outcome.growth_events;
    if outcome.player_xp.after.level > outcome.player_xp.before.level {
        let k = events.len() - 1;
        assert(events[k].kind is PlayerLevelChange);
    }
}

/// The current streak is never longer than the longest streak.
pub proof fn law_current_streak_within_longest(
    report: StudyStatisticsReport,
    sessions: Seq<StudySession>,
    now: u64,
)
    requires
        report_of(report, sessions, now),
    ensures
        report.current_streak_days <= report.longest_streak_days,
{
    let today = day_of(now) as int;
    let days = crate::statistics::study_days(sessions, today);
    let current = crate::statistics::current_streak_of(days, today);
    let longest = crate::statistics::longest_streak_of(days);
    let start = if days.contains(today) {
        today
    } else {
        today - 1
    };
    if days.contains(start) {
        assert(is_run(days, start, current));
    }
    assert(current <= longest);
}

proof fn lemma_period_within(sessions: Seq<StudySession>, inner: Period, outer: Period)
    requires
        forall|s: StudySession| #[trigger] in_period(s, inner) ==> in_period(s, outer),
    ensures
        period_count(sessions, inner) <= period_count(sessions, outer),
        period_minutes(sessions, inner) <= period_minutes(sessions, outer),
        period_xp(sessions, inner) <= period_xp(sessions, outer),
    decreases sessions.len(),
{
    if sessions.len() > 0 {
        lemma_period_within(sessions.drop_last(), inner, outer);
        assert(in_period(sessions.last(), inner) ==> in_period(sessions.last(), outer));
    }
}

proof fn lemma_statistics_within(sessions: Seq<StudySession>, inner: Period, outer: Period)
    requires
        forall|s: StudySession| #[trigger] in_period(s, inner) ==> in_period(s, outer),
    ensures
        period_statistics(sessions, inner).total_sessions <= period_statistics(sessions, outer).total_sessions,
        period_statistics(sessions, inner).total_minutes <= period_statistics(sessions, outer).total_minutes,
        period_statistics(sessions, inner).total_xp <= period_statistics(sessions, outer).total_xp,
{
    lemma_period_within(sessions, inner, outer);
    crate::statistics::lemma_period_nonneg(sessions, inner);
}

/// Today is part of this week and of this month, and each of them part of all time: the
/// sessions, minutes and XP of the report never shrink from the smaller period to the larger.
pub proof fn law_periods_nest(report: StudyStatisticsReport, sessions: Seq<StudySession>, now: u64)
    requires
        report_of(report, sessions, now),
    ensures
        report.today.total_sessions <= report.this_week.total_sessions <= report.all_time.total_sessions,
        report.today.total_minutes <= report.this_week.total_minutes <= report.all_time.total_minutes,
        report.today.total_xp <= report.this_week.total_xp <= report.all_time.total_xp,
        report.today.total_sessions <= report.this_month.total_sessions <= report.all_time.total_sessions,
        report.today.total_minutes <= report.this_month.total_minutes <= report.all_time.total_minutes,
        report.today.total_xp <= report.this_month.total_xp <= report.all_time.total_xp,
{
    let today = day_of(now);
    lemma_statistics_within(sessions, Period::Day(today), Period::Week(today));
    lemma_statistics_within(sessions, Period::Day(today), Period::Month(today));
    lemma_statistics_within(sessions, Period::Week(today), Period::AllTime);
    lemma_statistics_within(sessions, Period::Month(today), Period::AllTime);
    assert(report.today == period_statistics(sessions, Period::Day(today)));
    assert(report.this_week == period_statistics(sessions, Period::Week(today)));
    assert(report.this_month == period_statistics(sessions, Period::Month(today)));
    assert(report.all_time == period_statistics(sessions, Period::AllTime));
}

/// A new skill gets an id that no skill has yet, so skills created through the game never
/// share an id.
pub proof fn law_new_skill_id_is_fresh(m: StudyRpgModel, name: Seq<char>, parent_id: Option<u64>)
    requires
        max_skill_id(m.skills) < u64::MAX,
    ensures
        !has_skill(m.skills, (max_skill_id(m.skills) + 1) as u64),
        ({
            let grown = crate::study_rpg::with_new_skill(m, name, parent_id);
            &&& has_skill(grown.skills, (max_skill_id(m.skills) + 1) as u64)
            &&& max_skill_id(grown.skills) == max_skill_id(m.skills) + 1
        }),
{
    crate::study_rpg::lemma_ids_at_most_max(m.skills);
    let grown = crate::study_rpg::with_new_skill(m, name, parent_id);
    assert(grown.skills.drop_last() =~= m.skills);
    assert(grown.skills[grown.skills.len() - 1].id == (max_skill_id(m.skills) + 1) as u64);
}

/// A session's XP goes to the one skill it names (the first skill with that id) and to no other;
/// no skill is added or removed.
pub proof fn law_session_xp_goes_to_the_chosen_skill(
    m: StudyRpgModel,
    input: StudySessionInput,
    started: Option<u64>,
    ended: Option<u64>,
    k: int,
)
    requires
        0 <= k < m.skills.len(),
    ensures
        ({
            let (after, outcome) = record_spec(m, input, started, ended);
            &&& after.skills.len() == m.skills.len()
            &&& session_skill_position(m, input.skill_id) == Some(k) ==> after.skills[k]
                == crate::skill::skill_after_grant(m.skills[k], outcome.session.earned_xp as int)
            &&& session_skill_position(m, input.skill_id) != Some(k) ==> after.skills[k] == m.skills[k]
        }),
{
}

/// The skill rows of a dashboard are determined by the skills: two row lists that both list the
/// skills in tree order are the same.
pub proof fn law_skill_rows_are_determined(
    skills: Seq<crate::skill::SkillView>,
    a: Seq<crate::dashboard::DashboardSkillView>,
    b: Seq<crate::dashboard::DashboardSkillView>,
)
    requires
        crate::dashboard::skill_rows_spec(skills, a),
        crate::dashboard::skill_rows_spec(skills, b),
    ensures
        a == b,
{
    let oa = choose|order: Seq<(usize, u32)>|
        crate::skill_tree::is_skill_tree_order(skills, order) && a.len() == order.len() && forall|k: int|
            0 <= k < a.len() ==> #[trigger] a[k] == crate::dashboard::dashboard_skill_spec(
                skills[order[k].0 as int],
                order[k].1,
            );
    let ob = choose|order: Seq<(usize, u32)>|
        crate::skill_tree::is_skill_tree_order(skills, order) && b.len() == order.len() && forall|k: int|
            0 <= k < b.len() ==> #[trigger] b[k] == crate::dashboard::dashboard_skill_spec(
                skills[order[k].0 as int],
                order[k].1,
            );
    crate::skill_tree::lemma_skill_tree_order_unique(skills, oa, ob);
    assert forall|k: int| 0 <= k < a.len() implies a[k] == b[k] by {
        assert(a[k] == crate::dashboard::dashboard_skill_spec(skills[oa[k].0 as int], oa[k].1));
        assert(b[k] == crate::dashboard::dashboard_skill_spec(skills[ob[k].0 as int], ob[k].1));
    }
    assert(a =~= b);
}

/// A game has one dashboard at a given moment, and its dashboards at any two moments (or with
/// no clock) differ at most in today's minutes and in the running timer's elapsed minutes.
pub proof fn law_dashboard_is_determined(
    m: StudyRpgModel,
    a: crate::dashboard::DashboardModel,
    a_now: Option<u64>,
    b: crate::dashboard::DashboardModel,
    b_now: Option<u64>,
)
    requires
        crate::dashboard::dashboard_of(a, m, a_now),
        crate::dashboard::dashboard_of(b, m, b_now),
    ensures
        a_now == b_now ==> a == b,
        a.skills == b.skills,
        (crate::dashboard::DashboardModel { today_minutes: 0, active_session: None, ..a }) == (
        crate::dashboard::DashboardModel { today_minutes: 0, active_session: None, ..b }),
        a.active_session is Some <==> b.active_session is Some,
{
    law_skill_rows_are_determined(m.skills, a.skills, b.skills);
    assert((crate::dashboard::DashboardModel { today_minutes: 0, active_session: None, ..a }) =~= (
    crate::dashboard::DashboardModel { today_minutes: 0, active_session: None, ..b }));
    if a_now == b_now {
        assert(a =~= b);
    }
}

proof fn lemma_minutes_without(s: Seq<StudySession>, j: int)
    requires
        0 <= j < s.len(),
    ensures
        crate::quest::minutes_total(s) == crate::quest::minutes_total(s.remove(j)) + s[j].duration_minutes,
    decreases s.len(),
{
    if j == s.len() - 1 {
        assert(s.remove(j) =~= s.drop_last());
    } else {
        assert(s.remove(j).drop_last() =~= s.drop_last().remove(j));
        assert(s.remove(j).last() == s.last());
        lemma_minutes_without(s.drop_last(), j);
    }
}

proof fn lemma_xp_without(s: Seq<StudySession>, j: int)
    requires
        0 <= j < s.len(),
    ensures
        crate::statistics::xp_total(s) == crate::statistics::xp_total(s.remove(j)) + s[j].earned_xp,
    decreases s.len(),
{
    if j == s.len() - 1 {
        assert(s.remove(j) =~= s.drop_last());
    } else {
        assert(s.remove(j).drop_last() =~= s.drop_last().remove(j));
        assert(s.remove(j).last() == s.last());
        lemma_xp_without(s.drop_last(), j);
    }
}

/// The totals over a list of sessions do not depend on its order: two lists holding the same
/// sessions (as a multiset) have the same count, minutes and XP, so `StudyStatistics::from_sessions`
/// gives the same statistics for both.
pub proof fn law_totals_ignore_order(a: Seq<StudySession>, b: Seq<StudySession>)
    requires
        a.to_multiset() == b.to_multiset(),
    ensures
        a.len() == b.len(),
        crate::quest::minutes_total(a) == crate::quest::minutes_total(b),
        crate::statistics::xp_total(a) == crate::statistics::xp_total(b),
    decreases a.len(),
{
    broadcast use vstd::seq_lib::group_to_multiset_ensures;
    broadcast use vstd::multiset::group_multiset_axioms;

    if a.len() == 0 {
        assert(b.to_multiset().len() == 0);
    } else {
        let x = a.last();
        let rest = a.drop_last();
        assert(a =~= rest.push(x));
        assert(a.to_multiset() =~= rest.to_multiset().insert(x));
        assert(b.to_multiset().count(x) > 0);
        assert(b.contains(x));
        let j = choose|j: int| 0 <= j < b.len() && b[j] == x;
        let others = b.remove(j);
        assert(others.to_multiset() =~= b.to_multiset().remove(x));
        assert(others.to_multiset() =~= rest.to_multiset());
        law_totals_ignore_order(rest, others);
        lemma_minutes_without(b, j);
        lemma_xp_without(b, j);
    }
}

/// A run of study days is no longer than the list of sessions it comes from.
proof fn lemma_run_within_sessions(sessions: Seq<StudySession>, today: int, end: int, len: int)
    requires
        is_run(crate::statistics::study_days(sessions, today), end, len),
    ensures
        len <= sessions.len(),
{
    let days = sessions.map_values(|x: StudySession| session_day(x) as int);
    let image = days.to_set();
    days.lemma_cardinality_of_set();
    vstd::seq_lib::seq_to_set_is_finite(days);
    let run = vstd::set_lib::set_int_range(end - len + 1, end + 1);
    vstd::set_lib::lemma_int_range(end - len + 1, end + 1);
    assert forall|d: int| run.contains(d) implies image.contains(d) by {
        let k = end - d;
        assert(crate::statistics::study_days(sessions, today).contains(end - k));
        let i = choose|i: int| 0 <= i < sessions.len() && session_day(#[trigger] sessions[i]) == d;
        assert(days[i] == d);
        assert(days.contains(d));
    }
    vstd::set_lib::lemma_len_subset(run, image);
}

/// With no more sessions than a `u32` counts, the report's streaks are the streaks themselves,
/// never cut off at `u32::MAX`.
pub proof fn law_streaks_fit(report: StudyStatisticsReport, sessions: Seq<StudySession>, now: u64)
    requires
        report_of(report, sessions, now),
        sessions.len() <= u32::MAX,
    ensures
        report.current_streak_days == crate::statistics::current_streak_of(
            crate::statistics::study_days(sessions, day_of(now) as int),
            day_of(now) as int,
        ),
        report.longest_streak_days == crate::statistics::longest_streak_of(
            crate::statistics::study_days(sessions, day_of(now) as int),
        ),
{
    let today = day_of(now) as int;
    let days = crate::statistics::study_days(sessions, today);
    let current = crate::statistics::current_streak_of(days, today);
    let longest = crate::statistics::longest_streak_of(days);
    let start = if days.contains(today) {
        today
    } else {
        today - 1
    };
    if days.contains(start) {
        lemma_run_within_sessions(sessions, today, start, current);
    }
    let end = choose|end: int| is_run(days, end, longest);
    lemma_run_within_sessions(sessions, today, end, longest);
}

/// `b` is `a` with, at most, another character class.
pub open spec fn same_but_class(a: StudyRpgModel, b: StudyRpgModel) -> bool {
    b == StudyRpgModel { player: crate::player::PlayerView { class: b.player.class, ..a.player }, ..a }
}

/// One change a call of the game makes to its state, as its contract states it: moving the
/// quests to a day, recording a session, adding a skill, starting or clearing the timer.
pub enum GameStep {
    Refresh(u64),
    Record(StudySessionInput, Option<u64>, Option<u64>),
    NewSkill(Seq<char>, Option<u64>),
    StartTimer(crate::session::ActiveStudySession),
    StopTimer,
}

pub open spec fn apply_step(m: StudyRpgModel, step: GameStep) -> StudyRpgModel {
    match step {
        GameStep::Refresh(now) => refreshed(m, now),
        GameStep::Record(input, started, ended) => record_spec(m, input, started, ended).0,
        GameStep::NewSkill(name, parent_id) => crate::study_rpg::with_new_skill(m, name, parent_id),
        GameStep::StartTimer(active) => StudyRpgModel { active_session: Some(active), ..m },
        GameStep::StopTimer => StudyRpgModel { active_session: None, ..m },
    }
}

/// The state after the steps, in order.
pub open spec fn apply_steps(m: StudyRpgModel, steps: Seq<GameStep>) -> StudyRpgModel
    decreases steps.len(),
{
    if steps.len() == 0 {
        m
    } else {
        apply_step(apply_steps(m, steps.drop_last()), steps.last())
    }
}

/// What two games that differ only in the class answer is the same: a recorded session's
/// report, whether a skill can be created, whether a session fits, and their statistics (which
/// read the sessions alone); their dashboards differ only in the class shown.
pub proof fn law_class_changes_no_answer(a: StudyRpgModel, b: StudyRpgModel)
    requires
        same_but_class(a, b),
    ensures
        forall|input: StudySessionInput, started: Option<u64>, ended: Option<u64>|
            #[trigger] record_spec(b, input, started, ended).1 == record_spec(a, input, started, ended).1,
        forall|input: StudySessionInput, started: Option<u64>, ended: Option<u64>|
            #[trigger] can_record(b, input, started, ended) == can_record(a, input, started, ended),
        forall|name: Seq<char>, parent_id: Option<u64>|
            #[trigger] crate::study_rpg::create_skill_error(b, name, parent_id)
                == crate::study_rpg::create_skill_error(a, name, parent_id),
        b.sessions == a.sessions,
        forall|da: crate::dashboard::DashboardModel, db: crate::dashboard::DashboardModel, now: Option<u64>|
            #[trigger] crate::dashboard::dashboard_of(da, a, now) && #[trigger] crate::dashboard::dashboard_of(db, b, now)
                ==> db == (crate::dashboard::DashboardModel { player_class: b.player.class, ..da }),
{
    assert forall|input: StudySessionInput, started: Option<u64>, ended: Option<u64>|
        #[trigger] record_spec(b, input, started, ended).1 == record_spec(a, input, started, ended).1 by {
        assert(record_spec(b, input, started, ended).1 =~= record_spec(a, input, started, ended).1);
    }
    assert forall|da: crate::dashboard::DashboardModel, db: crate::dashboard::DashboardModel, now: Option<u64>|
        #[trigger] crate::dashboard::dashboard_of(da, a, now) && #[trigger] crate::dashboard::dashboard_of(db, b, now)
            implies db == (crate::dashboard::DashboardModel { player_class: b.player.class, ..da }) by {
        law_skill_rows_are_determined(a.skills, da.skills, db.skills);
        assert(db =~= (crate::dashboard::DashboardModel { player_class: b.player.class, ..da }));
    }
}

/// Each step keeps two games that differ only in the class differing only in the class.
pub proof fn law_class_kept_by_a_step(a: StudyRpgModel, b: StudyRpgModel, step: GameStep)
    requires
        same_but_class(a, b),
    ensures
        same_but_class(apply_step(a, step), apply_step(b, step)),
        apply_step(b, step).player.class == b.player.class,
{
    match step {
        GameStep::Record(input, started, ended) => {
            let (after_a, _) = record_spec(a, input, started, ended);
            let (after_b, _) = record_spec(b, input, started, ended);
            assert(after_b =~= (StudyRpgModel {
                player: crate::player::PlayerView { class: b.player.class, ..after_a.player },
                ..after_a
            }));
        },
        _ => {},
    }
}

/// The character class is who the player is and nothing more: run the same steps on two games
/// that differ only in the class, and after every step they still differ only in the class (so,
/// by `law_class_changes_no_answer`, every call answers both alike).
pub proof fn law_class_changes_no_rule(a: StudyRpgModel, b: StudyRpgModel, steps: Seq<GameStep>)
    requires
        same_but_class(a, b),
    ensures
        same_but_class(apply_steps(a, steps), apply_steps(b, steps)),
        apply_steps(b, steps).player.class == b.player.class,
    decreases steps.len(),
{
    if steps.len() > 0 {
        law_class_changes_no_rule(a, b, steps.drop_last());
        law_class_kept_by_a_step(apply_steps(a, steps.drop_last()), apply_steps(b, steps.drop_last()), steps.last());
    }
}

/// The daily bonus of a recorded session: paid, once, exactly when it was not yet claimed and
/// every quest (at least one) is completed after the session; the claim is then kept.
pub proof fn law_bonus_rule(m: StudyRpgModel, input: StudySessionInput, started: Option<u64>, ended: Option<u64>)
    ensures
        ({
            let (after, outcome) = record_spec(m, input, started, ended);
            &&& outcome.daily_completion_bonus_xp == (if !m.daily_completion_bonus_claimed
                && all_quests_completed(after.daily_quests) {
                DAILY_COMPLETION_BONUS_XP
            } else {
                0
            })
            &&& after.daily_completion_bonus_claimed == (m.daily_completion_bonus_claimed
                || outcome.daily_completion_bonus_xp == DAILY_COMPLETION_BONUS_XP)
        }),
{
}

/// A saved game can always be restored: the identifiers of a running game leave room for the
/// next ones, which is all that restoring a snapshot asks.
pub proof fn law_saved_game_restores(app: &StudyRpg)
    requires
        app.wf(),
    ensures
        max_skill_id(app@.skills) < u64::MAX,
        max_session_id(app@.sessions) < u64::MAX,
        max_event_id(app@.growth_events) < u64::MAX,
{
    app.lemma_room_for_next_ids();
}

/// A session earns 1.6 XP a minute, rounded down: five times the XP is the largest multiple of
/// five not above eight times the minutes, as long as eight times the minutes fits in a `u32`;
/// beyond that the XP stays at the most a `u32` product allows.
pub proof fn law_session_xp_is_eight_fifths_of_its_minutes(minutes: u32)
    ensures
        8 * minutes <= u32::MAX ==> {
            let xp = crate::session::xp_for_duration_spec(minutes as int);
            5 * xp <= 8 * minutes < 5 * xp + 5
        },
        8 * minutes > u32::MAX ==> crate::session::xp_for_duration_spec(minutes as int) == u32::MAX / 5,
{
}

/// Five more minutes of study always earn exactly eight more XP, until the product saturates.
pub proof fn law_five_more_minutes_earn_eight_more_xp(minutes: u32)
    requires
        8 * (minutes + 5) <= u32::MAX,
    ensures
        crate::session::xp_for_duration_spec(minutes + 5) == crate::session::xp_for_duration_spec(
            minutes as int,
        ) + 8,
{
}

/// A timer counts the whole minutes it ran: when it ran for at least a minute the result is the
/// number `m` of whole minutes (`60 * m <= elapsed < 60 * (m + 1)`), capped at `u32::MAX`;
/// a timer that ran less than a minute, or ended before it started, gives none.
pub proof fn law_timer_counts_whole_minutes(started: u64, ended: u64)
    ensures
        ended - started < 60 ==> crate::session::completed_minutes_spec(started, ended) is None,
        ended - started >= 60 ==> {
            let r = crate::session::completed_minutes_spec(started, ended);
            &&& r is Some
            &&& r->0 >= 1
            &&& r->0 < u32::MAX ==> 60 * r->0 <= ended - started < 60 * (r->0 + 1)
            &&& r->0 == u32::MAX ==> 60 * u32::MAX <= ended - started
        },
{
}

/// The week of a day runs from Monday to Sunday: from day 4 on (1970-01-05, the first Monday of
/// the day count), the week's start is the one Monday `w` with `w <= day < w + 7`; the days
/// before that first Monday all count from day 0.
pub proof fn law_week_starts_on_the_monday_before(day: int, monday: int)
    requires
        day >= 0,
    ensures
        day >= 4 ==> {
            let w = crate::calendar::week_start_spec(day);
            &&& w <= day < w + 7
            &&& (w + 3) % 7 == 0
            &&& w >= 4
        },
        day >= 4 && (monday + 3) % 7 == 0 && monday <= day < monday + 7 ==> crate::calendar::week_start_spec(
            day,
        ) == monday,
        day < 4 ==> crate::calendar::week_start_spec(day) == 0,
{
}

/// Two days from the first Monday on share a week exactly when no Monday falls after the
/// earlier and on or before the later one.
pub proof fn law_days_share_a_week_between_mondays(a: int, b: int)
    requires
        4 <= a <= b,
    ensures
        crate::calendar::week_start_spec(a) == crate::calendar::week_start_spec(b) <==> !exists|m: int|
            a < m <= b && #[trigger] ((m + 3) % 7) == 0,
{
    let wa = crate::calendar::week_start_spec(a);
    let wb = crate::calendar::week_start_spec(b);
    if wa == wb {
        assert forall|m: int| a < m <= b implies #[trigger] ((m + 3) % 7) != 0 by {
            if (m + 3) % 7 == 0 {
                assert(wa <= a < m <= b < wa + 7);
            }
        }
    } else {
        assert(a < wb <= b && (wb + 3) % 7 == 0);
    }
}

/// The dashboard's XP percent is the share of the current level already done, rounded down:
/// `percent * needed <= 100 * done < (percent + 1) * needed`, so it stays below 100 (the level
/// is never complete). When `100 * done` does not fit in a `u32` the product saturates, as the
/// multiplication does, and the percent is the share of `u32::MAX` instead.
pub proof fn law_dashboard_xp_percent_is_share_of_the_level(
    d: crate::dashboard::DashboardModel,
    m: StudyRpgModel,
    now: Option<u64>,
)
    requires
        crate::dashboard::dashboard_of(d, m, now),
    ensures
        d.level.total_xp == m.player.total_xp,
        d.xp_progress_percent < 100,
        100 * d.level.xp_into_level <= u32::MAX ==> d.xp_progress_percent * d.level.xp_for_next_level
            <= 100 * d.level.xp_into_level < (d.xp_progress_percent + 1) * d.level.xp_for_next_level,
        100 * d.level.xp_into_level > u32::MAX ==> d.xp_progress_percent * d.level.xp_for_next_level
            <= u32::MAX < (d.xp_progress_percent + 1) * d.level.xp_for_next_level,
{
    lemma_level_progress_of(m.player.total_xp);
    law_xp_percent_is_share_of_the_level(d.level);
}

/// The XP percent of a level progress is the share of the level done, rounded down, and below
/// 100 while the level is not complete; `100 * done` saturates at `u32::MAX`.
pub proof fn law_xp_percent_is_share_of_the_level(p: crate::xp::LevelProgress)
    requires
        p.xp_into_level < p.xp_for_next_level,
    ensures
        crate::dashboard::xp_percent_spec(p) < 100,
        100 * p.xp_into_level <= u32::MAX ==> crate::dashboard::xp_percent_spec(p) * p.xp_for_next_level
            <= 100 * p.xp_into_level < (crate::dashboard::xp_percent_spec(p) + 1) * p.xp_for_next_level,
        100 * p.xp_into_level > u32::MAX ==> crate::dashboard::xp_percent_spec(p) * p.xp_for_next_level
            <= u32::MAX < (crate::dashboard::xp_percent_spec(p) + 1) * p.xp_for_next_level,
{
    let n = p.xp_for_next_level as int;
    let s: int = if 100 * p.xp_into_level > u32::MAX { u32::MAX as int } else { 100 * p.xp_into_level };
    let q = s / n;
    assert(q * n <= s < (q + 1) * n) by (nonlinear_arith)
        requires
            n > 0,
            s >= 0,
            q == s / n,
    ;
    assert(s < 100 * n);
    assert(q < 100) by (nonlinear_arith)
        requires
            q * n <= s,
            s < 100 * n,
            n > 0,
    ;
}

} // verus!
