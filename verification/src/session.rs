//! Study sessions, the running timer, and how time turns into XP.
use vstd::prelude::*;

verus! {

pub const SECONDS_PER_DAY: u64 = 86_400;

/// A finished study session.
#[derive(Debug, PartialEq, Eq)]
pub struct StudySession {
    pub id: u64,
    pub topic: String,
    pub skill_id: Option<u64>,
    pub duration_minutes: u32,
    pub earned_xp: u32,
    pub started_at_epoch_seconds: Option<u64>,
    pub ended_at_epoch_seconds: Option<u64>,
}

impl Clone for StudySession {
    fn clone(&self) -> (r: Self)
        ensures
            r == *self,
    {
        StudySession {
            id: self.id,
            topic: self.topic.clone(),
            skill_id: self.skill_id,
            duration_minutes: self.duration_minutes,
            earned_xp: self.earned_xp,
            started_at_epoch_seconds: self.started_at_epoch_seconds,
            ended_at_epoch_seconds: self.ended_at_epoch_seconds,
        }
    }
}

/// The study timer while it runs.
#[derive(Debug, PartialEq, Eq)]
pub struct ActiveStudySession {
    pub topic: String,
    pub skill_id: Option<u64>,
    pub started_at_epoch_seconds: u64,
}

impl Clone for ActiveStudySession {
    fn clone(&self) -> (r: Self)
        ensures
            r == *self,
    {
        ActiveStudySession {
            topic: self.topic.clone(),
            skill_id: self.skill_id,
            started_at_epoch_seconds: self.started_at_epoch_seconds,
        }
    }
}

/// XP for a session of `minutes`: 1.6 XP a minute, rounded down, the product saturating at `u32::MAX`.
pub open spec fn xp_for_duration_spec(minutes: int) -> int {
    (if minutes * 8 > u32::MAX {
        u32::MAX as int
    } else {
        minutes * 8
    }) / 5
}

/// XP earned by studying `duration_minutes`.
pub fn xp_for_duration(duration_minutes: u32) -> (xp: u32)
    ensures
        xp == xp_for_duration_spec(duration_minutes as int),
        8 * duration_minutes <= u32::MAX ==> 5 * xp <= 8 * duration_minutes < 5 * xp + 5,
{
    if duration_minutes == 0 {
        return 0;
    }
    match duration_minutes.checked_mul(8) {
        Some(product) => product / 5,
        None => u32::MAX / 5,
    }
}

/// Whole minutes from `started` to `ended`, or none when that is not at least one minute.
pub open spec fn completed_minutes_spec(started: u64, ended: u64) -> Option<u32> {
    if ended <= started || (ended - started) / 60 == 0 {
        None
    } else if (ended - started) / 60 > u32::MAX {
        Some(u32::MAX)
    } else {
        Some(((ended - started) / 60) as u32)
    }
}

/// The whole minutes a timer ran, when it ran at least one full minute.
pub fn completed_minutes_between(started_at_epoch_seconds: u64, ended_at_epoch_seconds: u64) -> (r:
    Option<u32>)
    ensures
        r == completed_minutes_spec(started_at_epoch_seconds, ended_at_epoch_seconds),
        ended_at_epoch_seconds - started_at_epoch_seconds < 60 <==> r is None,
        r is Some && r->0 < u32::MAX ==> 60 * r->0 <= ended_at_epoch_seconds - started_at_epoch_seconds
            < 60 * (r->0 + 1),
{
    if ended_at_epoch_seconds <= started_at_epoch_seconds {
        return None;
    }
    let elapsed_seconds = ended_at_epoch_seconds - started_at_epoch_seconds;
    let minutes = elapsed_seconds / 60;
    if minutes == 0 {
        return None;
    }
    if minutes > u32::MAX as u64 {
        Some(u32::MAX)
    } else {
        Some(minutes as u32)
    }
}

/// Whole minutes elapsed from `started` to `now`, zero when `now` is not later.
pub open spec fn elapsed_minutes_spec(started: u64, now: u64) -> u32 {
    if now <= started {
        0
    } else if (now - started) / 60 > u32::MAX {
        u32::MAX
    } else {
        ((now - started) / 60) as u32
    }
}

/// Minutes a running timer has been going.
pub fn elapsed_minutes_since(started_at_epoch_seconds: u64, current_epoch_seconds: u64) -> (r: u32)
    ensures
        r == elapsed_minutes_spec(started_at_epoch_seconds, current_epoch_seconds),
{
    if current_epoch_seconds <= started_at_epoch_seconds {
        return 0;
    }
    let minutes = (current_epoch_seconds - started_at_epoch_seconds) / 60;
    if minutes > u32::MAX as u64 {
        u32::MAX
    } else {
        minutes as u32
    }
}

/// The calendar day (days since 1970-01-01, UTC) that holds the instant `seconds`.
pub open spec fn day_of(seconds: u64) -> u64 {
    seconds / SECONDS_PER_DAY
}

/// Days since 1970-01-01 (UTC) of an instant given in seconds since then.
pub fn epoch_day(epoch_seconds: u64) -> (day: u64)
    ensures
        day == day_of(epoch_seconds),
{
    epoch_seconds / SECONDS_PER_DAY
}

/// The day a session counts for: the day it ended, or day 0 when it carries no end time.
pub open spec fn session_day(session: StudySession) -> u64 {
    match session.ended_at_epoch_seconds {
        Some(ended) => day_of(ended),
        None => 0,
    }
}

/// The day a session counts for.
pub fn session_epoch_day(session: &StudySession) -> (day: u64)
    ensures
        day == session_day(*session),
{
    match session.ended_at_epoch_seconds {
        Some(ended) => epoch_day(ended),
        None => 0,
    }
}

} // verus!
