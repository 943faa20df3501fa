//! Study statistics: totals per calendar period, a seven-day trend and study streaks.
use vstd::prelude::*;
use crate::calendar::{CalendarDate, calendar_date, date_of, week_start, week_start_spec};
use crate::quest::minutes_total;
use crate::session::{StudySession, day_of, epoch_day, session_day, session_epoch_day};

verus! {

#[derive(Debug, Clone, Copy, PartialEq, Eq, Structural)]
pub struct StudyStatistics {
    pub total_sessions: u32,
    pub total_minutes: u32,
    pub total_xp: u32,
}

impl Default for StudyStatistics {
    fn default() -> (r: Self)
        ensures
            r == (StudyStatistics { total_sessions: 0, total_minutes: 0, total_xp: 0 }),
    {
        StudyStatistics { total_sessions: 0, total_minutes: 0, total_xp: 0 }
    }
}

/// One day of the trend series.
#[derive(Debug, Clone, Copy, PartialEq, Eq)]
pub struct DailyStudyStatistics {
    pub epoch_day: u64,
    pub date: CalendarDate,
    pub statistics: StudyStatistics,
}

#[derive(Debug, Clone, PartialEq, Eq)]
pub struct StudyStatisticsReport {
    pub today: StudyStatistics,
    pub this_week: StudyStatistics,
    pub this_month: StudyStatistics,
    pub all_time: StudyStatistics,
    pub last_seven_days: Vec<DailyStudyStatistics>,
    pub current_streak_days: u32,
    pub longest_streak_days: u32,
}

/// A span of calendar days that a statistic covers, named by one day inside it.
#[derive(Debug, Clone, Copy, PartialEq, Eq)]
pub enum Period {
    Day(u64),
    Week(u64),
    Month(u64),
    AllTime,
}

/// XP earned in all of `sessions`.
pub open spec fn xp_total(sessions: Seq<StudySession>) -> int
    decreases sessions.len(),
{
    if sessions.len() == 0 {
        0
    } else {
        xp_total(sessions.drop_last()) + sessions.last().earned_xp
    }
}

/// The session counts for `period` (by the day it counts for, see `session_day`).
pub open spec fn in_period(session: StudySession, period: Period) -> bool {
    let day = session_day(session) as int;
    match period {
        Period::Day(d) => day == d,
        Period::Week(d) => week_start_spec(day) == week_start_spec(d as int),
        Period::Month(d) => date_of(day).year == date_of(d as int).year && date_of(day).month
            == date_of(d as int).month,
        Period::AllTime => true,
    }
}

pub open spec fn period_count(sessions: Seq<StudySession>, period: Period) -> int
    decreases sessions.len(),
{
    if sessions.len() == 0 {
        0
    } else {
        period_count(sessions.drop_last(), period) + if in_period(sessions.last(), period) {
            1int
        } else {
            0
        }
    }
}

pub open spec fn period_minutes(sessions: Seq<StudySession>, period: Period) -> int
    decreases sessions.len(),
{
    if sessions.len() == 0 {
        0
    } else {
        period_minutes(sessions.drop_last(), period) + if in_period(sessions.last(), period) {
            sessions.last().duration_minutes as int
        } else {
            0
        }
    }
}

pub open spec fn period_xp(sessions: Seq<StudySession>, period: Period) -> int
    decreases sessions.len(),
{
    if sessions.len() == 0 {
        0
    } else {
        period_xp(sessions.drop_last(), period) + if in_period(sessions.last(), period) {
            sessions.last().earned_xp as int
        } else {
            0
        }
    }
}

/// `x`, or `u32::MAX` when it does not fit.
pub open spec fn capped(x: int) -> u32 {
    if x > u32::MAX {
        u32::MAX
    } else {
        x as u32
    }
}

/// Sessions, minutes and XP of `period`, each capped at `u32::MAX`.
pub open spec fn period_statistics(sessions: Seq<StudySession>, period: Period) -> StudyStatistics {
    StudyStatistics {
        total_sessions: capped(period_count(sessions, period)),
        total_minutes: capped(period_minutes(sessions, period)),
        total_xp: capped(period_xp(sessions, period)),
    }
}

/// `stats` with one more session counted, each total saturating.
pub open spec fn with_session(stats: StudyStatistics, session: StudySession) -> StudyStatistics {
    StudyStatistics {
        total_sessions: capped(stats.total_sessions + 1),
        total_minutes: capped(stats.total_minutes + session.duration_minutes),
        total_xp: capped(stats.total_xp + session.earned_xp),
    }
}

/// The days, up to `today`, on which some session counts.
pub open spec fn study_days(sessions: Seq<StudySession>, today: int) -> Set<int> {
    Set::new(
        |d: int|
            0 <= d <= today && exists|i: int|
                0 <= i < sessions.len() && session_day(#[trigger] sessions[i]) == d,
    )
}

/// Every one of the `len` days ending with `end` is in `days`.
pub open spec fn is_run(days: Set<int>, end: int, len: int) -> bool {
    &&& len >= 0
    &&& forall|k: int| 0 <= k < len ==> #[trigger] days.contains(end - k)
}

/// `len` is the current streak: the unbroken run of study days that ends today, or
/// yesterday when today has no study yet; zero when neither day has study.
pub open spec fn is_current_streak(days: Set<int>, today: int, len: int) -> bool {
    let start = if days.contains(today) {
        today
    } else {
        today - 1
    };
    if !days.contains(start) {
        len == 0
    } else {
        is_run(days, start, len) && !days.contains(start - len)
    }
}

/// `len` is the longest unbroken run of study days.
pub open spec fn is_longest_streak(days: Set<int>, len: int) -> bool {
    &&& exists|end: int| is_run(days, end, len)
    &&& forall|end: int, other: int| is_run(days, end, other) ==> other <= len
}

pub open spec fn current_streak_of(days: Set<int>, today: int) -> int {
    choose|len: int| is_current_streak(days, today, len)
}

pub open spec fn longest_streak_of(days: Set<int>) -> int {
    choose|len: int| is_longest_streak(days, len)
}

/// The first day of the trend series that ends with `today`.
pub open spec fn first_trend_day(today: u64) -> u64 {
    if today >= 6 {
        (today - 6) as u64
    } else {
        0
    }
}

/// `report` is the statistics report of `sessions` as seen at `now`.
pub open spec fn report_of(report: StudyStatisticsReport, sessions: Seq<StudySession>, now: u64) -> bool {
    let today = day_of(now);
    let first = first_trend_day(today);
    &&& report.today == period_statistics(sessions, Period::Day(today))
    &&& report.this_week == period_statistics(sessions, Period::Week(today))
    &&& report.this_month == period_statistics(sessions, Period::Month(today))
    &&& report.all_time == period_statistics(sessions, Period::AllTime)
    &&& report.last_seven_days@.len() == today - first + 1
    &&& forall|k: int|
        0 <= k < report.last_seven_days@.len() ==> {
            let entry = #[trigger] report.last_seven_days@[k];
            &&& entry.epoch_day == first + k
            &&& entry.date == date_of(first + k)
            &&& entry.statistics == period_statistics(sessions, Period::Day((first + k) as u64))
        }
    &&& is_current_streak(
        study_days(sessions, today as int),
        today as int,
        current_streak_of(study_days(sessions, today as int), today as int),
    )
    &&& is_longest_streak(study_days(sessions, today as int), longest_streak_of(study_days(sessions, today as int)))
    &&& report.current_streak_days == capped(current_streak_of(study_days(sessions, today as int), today as int))
    &&& report.longest_streak_days == capped(longest_streak_of(study_days(sessions, today as int)))
}

pub proof fn lemma_current_streak_unique(days: Set<int>, today: int, a: int, b: int)
    requires
        is_current_streak(days, today, a),
        is_current_streak(days, today, b),
    ensures
        a == b,
{
    let start = if days.contains(today) {
        today
    } else {
        today - 1
    };
    if days.contains(start) {
        if a < b {
            assert(days.contains(start - a));
        } else if b < a {
            assert(days.contains(start - b));
        }
    }
}

pub proof fn lemma_longest_streak_unique(days: Set<int>, a: int, b: int)
    requires
        is_longest_streak(days, a),
        is_longest_streak(days, b),
    ensures
        a == b,
{
    let ea = choose|end: int| is_run(days, end, a);
    let eb = choose|end: int| is_run(days, end, b);
    assert(is_run(days, ea, a));
    assert(is_run(days, eb, b));
}

proof fn lemma_period_push(sessions: Seq<StudySession>, session: StudySession, period: Period)
    ensures
        period_statistics(sessions.push(session), period) == if in_period(session, period) {
            with_session(period_statistics(sessions, period), session)
        } else {
            period_statistics(sessions, period)
        },
{
    assert(sessions.push(session).drop_last() =~= sessions);
    lemma_period_nonneg(sessions, period);
}

pub proof fn lemma_period_nonneg(sessions: Seq<StudySession>, period: Period)
    ensures
        period_count(sessions, period) >= 0,
        period_minutes(sessions, period) >= 0,
        period_xp(sessions, period) >= 0,
    decreases sessions.len(),
{
    if sessions.len() > 0 {
        lemma_period_nonneg(sessions.drop_last(), period);
    }
}

pub proof fn lemma_xp_total_prefix(sessions: Seq<StudySession>, k: int)
    requires
        0 <= k <= sessions.len(),
    ensures
        0 <= xp_total(sessions.subrange(0, k)) <= xp_total(sessions),
    decreases sessions.len(),
{
    if k < sessions.len() {
        assert(sessions.drop_last().subrange(0, k) =~= sessions.subrange(0, k));
        lemma_xp_total_prefix(sessions.drop_last(), k);
    } else {
        assert(sessions.subrange(0, k) =~= sessions);
        lemma_xp_total_nonneg(sessions);
    }
}

proof fn lemma_xp_total_nonneg(sessions: Seq<StudySession>)
    ensures
        xp_total(sessions) >= 0,
    decreases sessions.len(),
{
    if sessions.len() > 0 {
        lemma_xp_total_nonneg(sessions.drop_last());
    }
}

impl StudyStatistics {
    /// Totals over all of `sessions`.
    pub fn from_sessions(sessions: &[StudySession]) -> (stats: Self)
        requires
            minutes_total(sessions@) <= u32::MAX,
            xp_total(sessions@) <= u32::MAX,
        ensures
            stats.total_sessions == sessions@.len() as u32,
            stats.total_minutes == minutes_total(sessions@),
            stats.total_xp == xp_total(sessions@),
    {
        let mut minutes: u32 = 0;
        let mut xp: u32 = 0;
        let mut i: usize = 0;
        while i < sessions.len()
            invariant
                i <= sessions@.len(),
                minutes == minutes_total(sessions@.subrange(0, i as int)),
                xp == xp_total(sessions@.subrange(0, i as int)),
                minutes_total(sessions@) <= u32::MAX,
                xp_total(sessions@) <= u32::MAX,
            decreases sessions@.len() - i,
        {
            proof {
                assert(sessions@.subrange(0, i as int + 1).drop_last() =~= sessions@.subrange(
                    0,
                    i as int,
                ));
                crate::quest::lemma_minutes_total_prefix(sessions@, i as int + 1);
                lemma_xp_total_prefix(sessions@, i as int + 1);
            }
            minutes = minutes + sessions[i].duration_minutes;
            xp = xp + sessions[i].earned_xp;
            i = i + 1;
        }
        assert(sessions@.subrange(0, sessions@.len() as int) =~= sessions@);
        StudyStatistics { total_sessions: sessions.len() as u32, total_minutes: minutes, total_xp: xp }
    }

    /// Counts one more session, each total saturating.
    pub fn add_session(&mut self, session: &StudySession)
        ensures
            *final(self) == with_session(*old(self), *session),
    {
        self.total_sessions = self.total_sessions.saturating_add(1);
        self.total_minutes = self.total_minutes.saturating_add(session.duration_minutes);
        self.total_xp = self.total_xp.saturating_add(session.earned_xp);
    }
}

/// Strictly increasing.
pub open spec fn strictly_increasing(days: Seq<u64>) -> bool {
    forall|i: int, j: int| 0 <= i < j < days.len() ==> days[i] < days[j]
}

/// Adds `day` to a strictly increasing list, keeping it strictly increasing.
fn insert_day(days: &mut Vec<u64>, day: u64)
    requires
        strictly_increasing(old(days)@),
    ensures
        strictly_increasing(final(days)@),
        forall|x: u64| final(days)@.contains(x) <==> (old(days)@.contains(x) || x == day),
        final(days)@.len() <= old(days)@.len() + 1,
{
    let mut pos: usize = 0;
    while pos < days.len() && days[pos] < day
        invariant
            pos <= days@.len(),
            forall|k: int| 0 <= k < pos ==> days@[k] < day,
        decreases days@.len() - pos,
    {
        pos = pos + 1;
    }
    if pos < days.len() && days[pos] == day {
        return;
    }
    let ghost before = days@;
    days.insert(pos, day);
    proof {
        assert forall|x: u64| days@.contains(x) <==> (before.contains(x) || x == day) by {
            if days@.contains(x) {
                let k = choose|k: int| 0 <= k < days@.len() && days@[k] == x;
                if k < pos {
                    assert(before[k] == x);
                } else if k > pos {
                    assert(before[k - 1] == x);
                }
            }
            if before.contains(x) {
                let k = choose|k: int| 0 <= k < before.len() && before[k] == x;
                if k < pos {
                    assert(days@[k] == x);
                } else {
                    assert(days@[k + 1] == x);
                }
            }
            if x == day {
                assert(days@[pos as int] == x);
            }
        }
    }
}

fn contains_day(days: &Vec<u64>, day: u64) -> (r: bool)
    ensures
        r == days@.contains(day),
{
    let mut i: usize = 0;
    while i < days.len()
        invariant
            i <= days@.len(),
            forall|k: int| 0 <= k < i ==> days@[k] != day,
        decreases days@.len() - i,
    {
        if days[i] == day {
            return true;
        }
        i = i + 1;
    }
    false
}

/// The list holds exactly the days of the set.
pub open spec fn lists_days(days: Seq<u64>, set: Set<int>) -> bool {
    forall|d: int| set.contains(d) <==> (0 <= d <= u64::MAX && days.contains(d as u64))
}

/// Length of the current streak over a list of study days.
fn current_streak(days: &Vec<u64>, current_day: u64, set: Ghost<Set<int>>) -> (streak: u64)
    requires
        lists_days(days@, set@),
        current_day < u64::MAX,
    ensures
        is_current_streak(set@, current_day as int, streak as int),
{
    let start = if contains_day(days, current_day) {
        current_day
    } else if current_day >= 1 && contains_day(days, current_day - 1) {
        current_day - 1
    } else {
        proof {
            assert(!set@.contains(current_day as int));
            if current_day == 0 {
                assert(!set@.contains(-1));
            } else {
                assert(!set@.contains(current_day - 1));
            }
        }
        return 0;
    };
    let mut streak: u64 = 0;
    let mut day: u64 = start;
    loop
        invariant
            lists_days(days@, set@),
            day + streak == start,
            start < u64::MAX,
            is_run(set@, start as int, streak as int),
            set@.contains(start as int),
            start as int == current_day || (start as int == current_day - 1 && !set@.contains(
                current_day as int,
            )),
        decreases day,
    {
        if !contains_day(days, day) {
            assert(!set@.contains(start - streak));
            return streak;
        }
        proof {
            assert(set@.contains(day as int));
            assert forall|k: int| 0 <= k < streak + 1 implies #[trigger] set@.contains(start - k) by {
                if k == streak {
                    assert(start - k == day);
                }
            }
        }
        streak = streak + 1;
        if day == 0 {
            assert(!set@.contains(start - streak));
            return streak;
        }
        day = day - 1;
    }
}

/// Length of the longest streak over a strictly increasing list of study days.
fn longest_streak(days: &Vec<u64>, set: Ghost<Set<int>>) -> (longest: u64)
    requires
        lists_days(days@, set@),
        strictly_increasing(days@),
    ensures
        is_longest_streak(set@, longest as int),
{
    let mut longest: u64 = 0;
    let mut run: u64 = 0;
    let ghost mut longest_end: int = 0;
    let mut i: usize = 0;
    while i < days.len()
        invariant
            lists_days(days@, set@),
            strictly_increasing(days@),
            i <= days@.len(),
            run <= i,
            longest <= i,
            i > 0 ==> is_run(set@, days@[i - 1] as int, run as int),
            i > 0 ==> !set@.contains(days@[i - 1] - run),
            is_run(set@, longest_end, longest as int),
            forall|j: int, len: int|
                #![trigger is_run(set@, days@[j] as int, len)]
                0 <= j < i && is_run(set@, days@[j] as int, len) ==> len <= longest,
        decreases days@.len() - i,
    {
        let day = days[i];
        if i > 0 && days[i - 1] < u64::MAX && days[i - 1] + 1 == day {
            proof {
                let prev = days@[i - 1] as int;
                assert forall|k: int| 0 <= k < run + 1 implies #[trigger] set@.contains(day - k) by {
                    if k == 0 {
                        assert(days@.contains(day));
                    } else {
                        assert(set@.contains(prev - (k - 1)));
                    }
                }
            }
            run = run + 1;
        } else {
            proof {
                assert(days@.contains(day));
                assert(set@.contains(day as int));
                if set@.contains(day - 1) {
                    let x = (day - 1) as u64;
                    assert(days@.contains(x));
                    let k = choose|k: int| 0 <= k < days@.len() && days@[k] == x;
                    if k >= i {
                        if k > i {
                            assert(days@[i as int] < days@[k]);
                        }
                    } else {
                        if k < i - 1 {
                            assert(days@[k] < days@[i - 1]);
                        }
                        assert(days@[i - 1] < days@[i as int]);
                    }
                }
                assert(set@.contains(day - 0));
            }
            run = 1;
        }
        proof {
            assert forall|len: int| is_run(set@, day as int, len) implies len <= run by {
                if len > run {
                    assert(set@.contains(day - run));
                }
            }
        }
        if run > longest {
            longest = run;
            proof {
                longest_end = day as int;
            }
        }
        i = i + 1;
    }
    proof {
        assert forall|end: int, len: int| is_run(set@, end, len) implies len <= longest by {
            if len > 0 {
                assert(set@.contains(end - 0));
                let x = end as u64;
                assert(days@.contains(x));
                let j = choose|j: int| 0 <= j < days@.len() && days@[j] == x;
                assert(is_run(set@, days@[j] as int, len));
            }
        }
    }
    longest
}

fn cap(x: u64) -> (r: u32)
    ensures
        r == capped(x as int),
{
    if x > u32::MAX as u64 {
        u32::MAX
    } else {
        x as u32
    }
}

impl StudyStatisticsReport {
    /// The report as seen at `current_epoch_seconds`.
    pub fn from_sessions_at(sessions: &[StudySession], current_epoch_seconds: u64) -> (report: Self)
        ensures
            report_of(report, sessions@, current_epoch_seconds),
    {
        let current_day = epoch_day(current_epoch_seconds);
        let current_week_start = week_start(current_day);
        let current_date = calendar_date(current_day);
        let first_day = if current_day >= 6 {
            current_day - 6
        } else {
            0
        };
        let zero = StudyStatistics { total_sessions: 0, total_minutes: 0, total_xp: 0 };
        let mut trend: Vec<DailyStudyStatistics> = Vec::new();
        let mut d = first_day;
        while d <= current_day
            invariant
                first_day <= d <= current_day + 1,
                current_day == day_of(current_epoch_seconds),
                trend@.len() == d - first_day,
                forall|k: int|
                    0 <= k < trend@.len() ==> {
                        let entry = #[trigger] trend@[k];
                        &&& entry.epoch_day == first_day + k
                        &&& entry.date == date_of(first_day + k)
                        &&& entry.statistics == zero
                    },
            decreases current_day + 1 - d,
        {
            trend.push(DailyStudyStatistics { epoch_day: d, date: calendar_date(d), statistics: zero });
            d = d + 1;
        }
        let mut today = zero;
        let mut this_week = zero;
        let mut this_month = zero;
        let mut all_time = zero;
        let mut days: Vec<u64> = Vec::new();
        let ghost s = sessions@;
        let mut i: usize = 0;
        while i < sessions.len()
            invariant
                s == sessions@,
                i <= s.len(),
                current_day == day_of(current_epoch_seconds),
                current_week_start == week_start_spec(current_day as int),
                current_date == date_of(current_day as int),
                first_day == first_trend_day(current_day),
                trend@.len() == current_day - first_day + 1,
                today == period_statistics(s.subrange(0, i as int), Period::Day(current_day)),
                this_week == period_statistics(s.subrange(0, i as int), Period::Week(current_day)),
                this_month == period_statistics(s.subrange(0, i as int), Period::Month(current_day)),
                all_time == period_statistics(s.subrange(0, i as int), Period::AllTime),
                forall|k: int|
                    0 <= k < trend@.len() ==> {
                        let entry = #[trigger] trend@[k];
                        &&& entry.epoch_day == first_day + k
                        &&& entry.date == date_of(first_day + k)
                        &&& entry.statistics == period_statistics(
                            s.subrange(0, i as int),
                            Period::Day((first_day + k) as u64),
                        )
                    },
                strictly_increasing(days@),
                lists_days(days@, study_days(s.subrange(0, i as int), current_day as int)),
            decreases s.len() - i,
        {
            let session = &sessions[i];
            let day = session_epoch_day(session);
            let ghost prefix = s.subrange(0, i as int);
            proof {
                assert(s.subrange(0, i as int + 1) =~= prefix.push(*session));
                lemma_period_push(prefix, *session, Period::Day(current_day));
                lemma_period_push(prefix, *session, Period::Week(current_day));
                lemma_period_push(prefix, *session, Period::Month(current_day));
                lemma_period_push(prefix, *session, Period::AllTime);
            }
            all_time.add_session(session);
            if day == current_day {
                today.add_session(session);
            }
            if week_start(day) == current_week_start {
                this_week.add_session(session);
            }
            let date = calendar_date(day);
            if date.year == current_date.year && date.month == current_date.month {
                this_month.add_session(session);
            }
            let ghost trend_before = trend@;
            if first_day <= day && day <= current_day {
                let index = (day - first_day) as usize;
                let mut entry = trend[index];
                entry.statistics.add_session(session);
                trend.set(index, entry);
            }
            proof {
                assert forall|k: int| 0 <= k < trend@.len() implies {
                    let entry = #[trigger] trend@[k];
                    &&& entry.epoch_day == first_day + k
                    &&& entry.date == date_of(first_day + k)
                    &&& entry.statistics == period_statistics(
                        s.subrange(0, i as int + 1),
                        Period::Day((first_day + k) as u64),
                    )
                } by {
                    lemma_period_push(prefix, *session, Period::Day((first_day + k) as u64));
                    assert(trend_before[k].epoch_day == first_day + k);
                }
            }
            let ghost days_before = days@;
            if day <= current_day {
                insert_day(&mut days, day);
            }
            proof {
                let next = s.subrange(0, i as int + 1);
                assert forall|x: int|
                    study_days(next, current_day as int).contains(x) <==> (0 <= x <= u64::MAX
                        && days@.contains(x as u64)) by {
                    if study_days(next, current_day as int).contains(x) {
                        let j = choose|j: int| 0 <= j < next.len() && session_day(#[trigger] next[j]) == x;
                        if j < i {
                            assert(prefix[j] == next[j]);
                            assert(study_days(prefix, current_day as int).contains(x));
                        }
                    }
                    if 0 <= x <= u64::MAX && days@.contains(x as u64) {
                        if days_before.contains(x as u64) {
                            assert(study_days(prefix, current_day as int).contains(x));
                            let j = choose|j: int| 0 <= j < prefix.len() && session_day(#[trigger] prefix[j]) == x;
                            assert(next[j] == prefix[j]);
                        } else {
                            assert(next[i as int] == *session);
                        }
                    }
                }
            }
            i = i + 1;
        }
        proof {
            assert(s.subrange(0, s.len() as int) =~= s);
        }
        let ghost set = study_days(s, current_day as int);
        let current = current_streak(&days, current_day, Ghost(set));
        let longest = longest_streak(&days, Ghost(set));
        proof {
            lemma_current_streak_unique(
                set,
                current_day as int,
                current as int,
                current_streak_of(set, current_day as int),
            );
            lemma_longest_streak_unique(set, longest as int, longest_streak_of(set));
        }
        StudyStatisticsReport {
            today,
            this_week,
            this_month,
            all_time,
            last_seven_days: trend,
            current_streak_days: cap(current),
            longest_streak_days: cap(longest),
        }
    }
}

} // verus!
