//! Daily quests and how far the sessions of their day carry them.
use vstd::prelude::*;
use crate::session::{StudySession, session_day, session_epoch_day};
use crate::text::{decimal_spec, push_decimal};

verus! {

#[derive(Debug, PartialEq, Eq)]
pub struct Quest {
    pub id: u64,
    pub epoch_day: u64,
    pub title: String,
    pub target: QuestTarget,
    pub reward_xp: u32,
    pub completed: bool,
}

impl Clone for Quest {
    fn clone(&self) -> (r: Self)
        ensures
            r == *self,
    {
        Quest {
            id: self.id,
            epoch_day: self.epoch_day,
            title: self.title.clone(),
            target: self.target,
            reward_xp: self.reward_xp,
            completed: self.completed,
        }
    }
}

/// What a quest is, with its title as a character sequence.
#[verifier::ext_equal]
pub struct QuestView {
    pub id: u64,
    pub epoch_day: u64,
    pub title: Seq<char>,
    pub target: QuestTarget,
    pub reward_xp: u32,
    pub completed: bool,
}

impl View for Quest {
    type V = QuestView;

    open spec fn view(&self) -> QuestView {
        QuestView {
            id: self.id,
            epoch_day: self.epoch_day,
            title: self.title@,
            target: self.target,
            reward_xp: self.reward_xp,
            completed: self.completed,
        }
    }
}

/// The views of a list of quests.
pub open spec fn quest_views(quests: Seq<Quest>) -> Seq<QuestView> {
    Seq::new(quests.len(), |i: int| quests[i]@)
}

#[derive(Debug, Clone, Copy, PartialEq, Eq, Structural)]
pub enum QuestTarget {
    StudyMinutes(u32),
    CompleteSessions(u32),
}

#[derive(Debug, Clone, Copy, PartialEq, Eq, Structural)]
pub struct QuestProgress {
    pub quest_id: u64,
    pub current: u32,
    pub target: u32,
    pub completed: bool,
}

/// Minutes studied in all of `sessions`.
pub open spec fn minutes_total(sessions: Seq<StudySession>) -> int
    decreases sessions.len(),
{
    if sessions.len() == 0 {
        0
    } else {
        minutes_total(sessions.drop_last()) + sessions.last().duration_minutes
    }
}

/// Minutes studied in the sessions that count for `day`.
pub open spec fn minutes_on_day(sessions: Seq<StudySession>, day: u64) -> int
    decreases sessions.len(),
{
    if sessions.len() == 0 {
        0
    } else {
        minutes_on_day(sessions.drop_last(), day) + if session_day(sessions.last()) == day {
            sessions.last().duration_minutes as int
        } else {
            0
        }
    }
}

/// How many of `sessions` count for `day`.
pub open spec fn sessions_on_day(sessions: Seq<StudySession>, day: u64) -> int
    decreases sessions.len(),
{
    if sessions.len() == 0 {
        0
    } else {
        sessions_on_day(sessions.drop_last(), day) + if session_day(sessions.last()) == day {
            1int
        } else {
            0
        }
    }
}

/// Progress towards `target` given the minutes studied and the sessions finished
/// (the session count is taken modulo 2^32, as a `u32`).
pub open spec fn target_progress(target: QuestTarget, minutes: int, sessions: int) -> QuestProgress {
    match target {
        QuestTarget::StudyMinutes(t) => QuestProgress {
            quest_id: 0,
            current: minutes as u32,
            target: t,
            completed: minutes >= t,
        },
        QuestTarget::CompleteSessions(t) => QuestProgress {
            quest_id: 0,
            current: sessions as u32,
            target: t,
            completed: sessions as u32 >= t,
        },
    }
}

/// Progress of `quest`, counting only the sessions of the quest's day.
pub open spec fn quest_progress_spec(quest: QuestView, sessions: Seq<StudySession>) -> QuestProgress {
    let p = target_progress(
        quest.target,
        minutes_on_day(sessions, quest.epoch_day),
        sessions_on_day(sessions, quest.epoch_day),
    );
    QuestProgress { quest_id: quest.id, current: p.current, target: p.target, completed: quest.completed || p.completed }
}

/// The sums that measuring `quest` adds up fit in a `u32`.
pub open spec fn quest_fits(quest: QuestView, sessions: Seq<StudySession>) -> bool {
    quest.target is StudyMinutes ==> minutes_on_day(sessions, quest.epoch_day) <= u32::MAX
}

/// The sums needed to evaluate every open quest fit in a `u32`.
pub open spec fn open_quests_fit(quests: Seq<QuestView>, sessions: Seq<StudySession>) -> bool {
    forall|i: int| 0 <= i < quests.len() && !(#[trigger] quests[i]).completed ==> quest_fits(quests[i], sessions)
}

/// An open quest whose target the sessions of its day reach.
pub open spec fn newly_reached(quest: QuestView, sessions: Seq<StudySession>) -> bool {
    !quest.completed && quest_progress_spec(quest, sessions).completed
}

pub open spec fn mark_completed(quest: QuestView) -> QuestView {
    QuestView { completed: true, ..quest }
}

/// The quests after evaluation: each open quest whose target is reached is marked completed.
pub open spec fn evaluated_quests(quests: Seq<QuestView>, sessions: Seq<StudySession>) -> Seq<QuestView> {
    quests.map_values(
        |q: QuestView|
            if newly_reached(q, sessions) {
                mark_completed(q)
            } else {
                q
            },
    )
}

/// The quests an evaluation completes, in list order, as they are after completion.
pub open spec fn newly_completed(quests: Seq<QuestView>, sessions: Seq<StudySession>) -> Seq<QuestView>
    decreases quests.len(),
{
    if quests.len() == 0 {
        Seq::empty()
    } else if newly_reached(quests.last(), sessions) {
        newly_completed(quests.drop_last(), sessions).push(mark_completed(quests.last()))
    } else {
        newly_completed(quests.drop_last(), sessions)
    }
}

/// The title of a study-minutes quest.
pub open spec fn minutes_title(minutes: u32) -> Seq<char> {
    "Study "@ + decimal_spec(minutes as nat) + " minutes"@
}

/// The title of a session-count quest.
pub open spec fn sessions_title(sessions: u32) -> Seq<char> {
    "Complete "@ + decimal_spec(sessions as nat) + " study session"@
}

impl Quest {
    /// A quest of day 0 to study `minutes` minutes.
    pub fn study_minutes(id: u64, minutes: u32, reward_xp: u32) -> (q: Self)
        ensures
            q@ == (QuestView {
                id,
                epoch_day: 0,
                title: minutes_title(minutes),
                target: QuestTarget::StudyMinutes(minutes),
                reward_xp,
                completed: false,
            }),
    {
        Self::study_minutes_for_day(id, 0, minutes, reward_xp)
    }

    /// A quest of day 0 to finish `sessions` sessions.
    pub fn complete_sessions(id: u64, sessions: u32, reward_xp: u32) -> (q: Self)
        ensures
            q@ == (QuestView {
                id,
                epoch_day: 0,
                title: sessions_title(sessions),
                target: QuestTarget::CompleteSessions(sessions),
                reward_xp,
                completed: false,
            }),
    {
        Self::complete_sessions_for_day(id, 0, sessions, reward_xp)
    }

    /// A quest for `epoch_day` to study `minutes` minutes.
    pub fn study_minutes_for_day(id: u64, epoch_day: u64, minutes: u32, reward_xp: u32) -> (q: Self)
        ensures
            q@ == (QuestView {
                id,
                epoch_day: epoch_day,
                title: minutes_title(minutes),
                target: QuestTarget::StudyMinutes(minutes),
                reward_xp,
                completed: false,
            }),
    {
        let mut title = String::from_str("Study ");
        push_decimal(&mut title, minutes as u64);
        title.append(" minutes");
        Quest {
            id,
            epoch_day,
            title,
            target: QuestTarget::StudyMinutes(minutes),
            reward_xp,
            completed: false,
        }
    }

    /// A quest for `epoch_day` to finish `sessions` sessions.
    pub fn complete_sessions_for_day(id: u64, epoch_day: u64, sessions: u32, reward_xp: u32) -> (q:
        Self)
        ensures
            q@ == (QuestView {
                id,
                epoch_day: epoch_day,
                title: sessions_title(sessions),
                target: QuestTarget::CompleteSessions(sessions),
                reward_xp,
                completed: false,
            }),
    {
        let mut title = String::from_str("Complete ");
        push_decimal(&mut title, sessions as u64);
        title.append(" study session");
        Quest {
            id,
            epoch_day,
            title,
            target: QuestTarget::CompleteSessions(sessions),
            reward_xp,
            completed: false,
        }
    }
}

/// Progress towards `target` over all of `sessions`.
pub fn progress_for_target(target: QuestTarget, sessions: &[StudySession]) -> (p: QuestProgress)
    requires
        target is StudyMinutes ==> minutes_total(sessions@) <= u32::MAX,
    ensures
        p == target_progress(target, minutes_total(sessions@), sessions@.len() as int),
{
    let mut minutes: u32 = 0;
    let mut i: usize = 0;
    let is_minutes = match target {
        QuestTarget::StudyMinutes(_) => true,
        QuestTarget::CompleteSessions(_) => false,
    };
    if is_minutes {
        while i < sessions.len()
            invariant
                i <= sessions@.len(),
                minutes == minutes_total(sessions@.subrange(0, i as int)),
                minutes_total(sessions@) <= u32::MAX,
            decreases sessions@.len() - i,
        {
            proof {
                assert(sessions@.subrange(0, i as int + 1).drop_last() =~= sessions@.subrange(
                    0,
                    i as int,
                ));
                lemma_minutes_total_prefix(sessions@, i as int + 1);
            }
            minutes = minutes + sessions[i].duration_minutes;
            i = i + 1;
        }
        assert(sessions@.subrange(0, sessions@.len() as int) =~= sessions@);
    }
    match target {
        QuestTarget::StudyMinutes(target_minutes) => QuestProgress {
            quest_id: 0,
            current: minutes,
            target: target_minutes,
            completed: minutes >= target_minutes,
        },
        QuestTarget::CompleteSessions(target_sessions) => QuestProgress {
            quest_id: 0,
            current: sessions.len() as u32,
            target: target_sessions,
            completed: sessions.len() as u32 >= target_sessions,
        },
    }
}

/// A prefix never holds more minutes than the whole.
pub proof fn lemma_minutes_total_prefix(sessions: Seq<StudySession>, k: int)
    requires
        0 <= k <= sessions.len(),
    ensures
        minutes_total(sessions.subrange(0, k)) <= minutes_total(sessions),
        minutes_total(sessions.subrange(0, k)) >= 0,
    decreases sessions.len(),
{
    if k < sessions.len() {
        assert(sessions.drop_last().subrange(0, k) =~= sessions.subrange(0, k));
        lemma_minutes_total_prefix(sessions.drop_last(), k);
    } else {
        assert(sessions.subrange(0, k) =~= sessions);
        lemma_minutes_total_nonneg(sessions);
    }
}

pub proof fn lemma_minutes_total_nonneg(sessions: Seq<StudySession>)
    ensures
        minutes_total(sessions) >= 0,
    decreases sessions.len(),
{
    if sessions.len() > 0 {
        lemma_minutes_total_nonneg(sessions.drop_last());
    }
}

/// The minutes of one day never exceed the minutes of all days.
pub proof fn lemma_minutes_on_day_bounds(sessions: Seq<StudySession>, day: u64)
    ensures
        0 <= minutes_on_day(sessions, day) <= minutes_total(sessions),
        0 <= sessions_on_day(sessions, day) <= sessions.len(),
    decreases sessions.len(),
{
    if sessions.len() > 0 {
        lemma_minutes_on_day_bounds(sessions.drop_last(), day);
    }
}

/// Minutes and session count of `day` over a prefix, as the loop below gathers them.
pub fn day_totals(sessions: &[StudySession], day: u64) -> (r: (u32, usize))
    requires
        minutes_on_day(sessions@, day) <= u32::MAX,
    ensures
        r.0 == minutes_on_day(sessions@, day),
        r.1 == sessions_on_day(sessions@, day),
{
    let mut minutes: u32 = 0;
    let mut count: usize = 0;
    let mut i: usize = 0;
    while i < sessions.len()
        invariant
            i <= sessions@.len(),
            minutes == minutes_on_day(sessions@.subrange(0, i as int), day),
            count == sessions_on_day(sessions@.subrange(0, i as int), day),
            minutes_on_day(sessions@, day) <= u32::MAX,
        decreases sessions@.len() - i,
    {
        proof {
            assert(sessions@.subrange(0, i as int + 1).drop_last() =~= sessions@.subrange(0, i as int));
            lemma_minutes_on_day_prefix(sessions@, i as int + 1, day);
            lemma_minutes_on_day_bounds(sessions@.subrange(0, i as int), day);
        }
        if session_epoch_day(&sessions[i]) == day {
            minutes = minutes + sessions[i].duration_minutes;
            count = count + 1;
        }
        i = i + 1;
    }
    assert(sessions@.subrange(0, sessions@.len() as int) =~= sessions@);
    (minutes, count)
}

/// Minutes studied on `day` across `sessions`, or none when they do not fit in a `u32`.
pub fn minutes_on_day_within(sessions: &[StudySession], day: u64) -> (r: Option<u32>)
    ensures
        match r {
            Some(minutes) => minutes == minutes_on_day(sessions@, day),
            None => minutes_on_day(sessions@, day) > u32::MAX,
        },
{
    let mut total: u64 = 0;
    let mut i: usize = 0;
    while i < sessions.len()
        invariant
            i <= sessions@.len(),
            total == minutes_on_day(sessions@.subrange(0, i as int), day),
            total <= u32::MAX,
        decreases sessions@.len() - i,
    {
        proof {
            assert(sessions@.subrange(0, i as int + 1).drop_last() =~= sessions@.subrange(0, i as int));
        }
        if session_epoch_day(&sessions[i]) == day {
            total = total + sessions[i].duration_minutes as u64;
            if total > u32::MAX as u64 {
                proof {
                    lemma_minutes_on_day_prefix(sessions@, i as int + 1, day);
                }
                return None;
            }
        }
        i = i + 1;
    }
    assert(sessions@.subrange(0, sessions@.len() as int) =~= sessions@);
    Some(total as u32)
}

pub proof fn lemma_minutes_on_day_prefix(sessions: Seq<StudySession>, k: int, day: u64)
    requires
        0 <= k <= sessions.len(),
    ensures
        0 <= minutes_on_day(sessions.subrange(0, k), day) <= minutes_on_day(sessions, day),
    decreases sessions.len(),
{
    if k < sessions.len() {
        assert(sessions.drop_last().subrange(0, k) =~= sessions.subrange(0, k));
        lemma_minutes_on_day_prefix(sessions.drop_last(), k, day);
    } else {
        assert(sessions.subrange(0, k) =~= sessions);
        lemma_minutes_on_day_bounds(sessions, day);
    }
}

/// Progress of `quest`, counting only the sessions of the quest's day.
pub fn progress_for_quest(quest: &Quest, sessions: &[StudySession]) -> (p: QuestProgress)
    requires
        quest_fits(quest@, sessions@),
    ensures
        p == quest_progress_spec(quest@, sessions@),
{
    let is_minutes = match quest.target {
        QuestTarget::StudyMinutes(_) => true,
        QuestTarget::CompleteSessions(_) => false,
    };
    let (minutes, count) = if is_minutes {
        day_totals(sessions, quest.epoch_day)
    } else {
        // Only the count matters here, so the minutes are not summed.
        let c = count_on_day(sessions, quest.epoch_day);
        (0, c)
    };
    match quest.target {
        QuestTarget::StudyMinutes(target_minutes) => QuestProgress {
            quest_id: quest.id,
            current: minutes,
            target: target_minutes,
            completed: quest.completed || minutes >= target_minutes,
        },
        QuestTarget::CompleteSessions(target_sessions) => QuestProgress {
            quest_id: quest.id,
            current: count as u32,
            target: target_sessions,
            completed: quest.completed || count as u32 >= target_sessions,
        },
    }
}

pub fn count_on_day(sessions: &[StudySession], day: u64) -> (count: usize)
    ensures
        count == sessions_on_day(sessions@, day),
{
    let mut count: usize = 0;
    let mut i: usize = 0;
    while i < sessions.len()
        invariant
            i <= sessions@.len(),
            count == sessions_on_day(sessions@.subrange(0, i as int), day),
        decreases sessions@.len() - i,
    {
        proof {
            assert(sessions@.subrange(0, i as int + 1).drop_last() =~= sessions@.subrange(0, i as int));
            lemma_minutes_on_day_bounds(sessions@.subrange(0, i as int), day);
        }
        if session_epoch_day(&sessions[i]) == day {
            count = count + 1;
        }
        i = i + 1;
    }
    assert(sessions@.subrange(0, sessions@.len() as int) =~= sessions@);
    count
}

/// Marks every open quest whose target the sessions of its day reach, and returns those
/// quests, completed, in list order.
pub fn evaluate_quests(quests: &mut Vec<Quest>, sessions: &[StudySession]) -> (done: Vec<Quest>)
    requires
        open_quests_fit(quest_views(old(quests)@), sessions@),
    ensures
        quest_views(final(quests)@) == evaluated_quests(quest_views(old(quests)@), sessions@),
        quest_views(done@) == newly_completed(quest_views(old(quests)@), sessions@),
{
    let ghost original = quest_views(quests@);
    let mut newly: Vec<Quest> = Vec::new();
    let mut i: usize = 0;
    while i < quests.len()
        invariant
            i <= quests@.len(),
            quests@.len() == original.len(),
            open_quests_fit(original, sessions@),
            forall|k: int|
                0 <= k < i ==> #[trigger] quests@[k]@ == evaluated_quests(original, sessions@)[k],
            forall|k: int| i <= k < quests@.len() ==> #[trigger] quests@[k]@ == original[k],
            quest_views(newly@) == newly_completed(original.subrange(0, i as int), sessions@),
        decreases original.len() - i,
    {
        proof {
            assert(original.subrange(0, i as int + 1).drop_last() =~= original.subrange(0, i as int));
            assert(original.subrange(0, i as int + 1).last() == original[i as int]);
        }
        if !quests[i].completed {
            proof {
                assert(!original[i as int].completed);
                assert(quest_fits(original[i as int], sessions@));
            }
            let progress = progress_for_quest(&quests[i], sessions);
            if progress.completed {
                quests[i].completed = true;
                let ghost before = newly@;
                newly.push(quests[i].clone());
                assert(quest_views(newly@) =~= quest_views(before).push(quests@[i as int]@));
            }
        }
        i = i + 1;
    }
    proof {
        assert(original.subrange(0, original.len() as int) =~= original);
        assert(quest_views(quests@) =~= evaluated_quests(original, sessions@));
    }
    newly
}

} // verus!
