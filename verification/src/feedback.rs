//! The texts the desktop shows: the running timer, the reward summary of a finished session,
//! and the Chinese names of the player, the titles and the daily quests.
use vstd::prelude::*;
use crate::codec::text_equals;
use crate::text::{decimal_spec, push_decimal, push_two_digits, two_digit_spec};

verus! {

/// The seconds from `started` to `current`, or zero when the clock went back.
pub open spec fn elapsed_seconds(started: u64, current: u64) -> nat {
    if current >= started {
        (current - started) as nat
    } else {
        0
    }
}

/// `M:SS` (minutes padded to two digits) under an hour, `H:MM:SS` from an hour on.
pub open spec fn timer_text(elapsed: nat) -> Seq<char> {
    let hours = elapsed / 3600;
    let minutes = (elapsed % 3600) / 60;
    let seconds = elapsed % 60;
    if hours == 0 {
        two_digit_spec(minutes) + seq![':'] + two_digit_spec(seconds)
    } else {
        decimal_spec(hours) + seq![':'] + two_digit_spec(minutes) + seq![':'] + two_digit_spec(
            seconds,
        )
    }
}

/// The running timer's text.
pub fn elapsed_timer_text(started_at_epoch_seconds: u64, current_epoch_seconds: u64) -> (text: String)
    ensures
        text@ == timer_text(elapsed_seconds(started_at_epoch_seconds, current_epoch_seconds)),
{
    let elapsed = current_epoch_seconds.saturating_sub(started_at_epoch_seconds);
    let hours = elapsed / 3_600;
    let minutes = (elapsed % 3_600) / 60;
    let seconds = elapsed % 60;
    let mut text = String::new();
    if hours != 0 {
        push_decimal(&mut text, hours);
        text.append(":");
        proof {
            reveal_strlit(":");
        }
    }
    push_two_digits(&mut text, minutes);
    text.append(":");
    push_two_digits(&mut text, seconds);
    proof {
        reveal_strlit(":");
        assert(elapsed as nat == elapsed_seconds(started_at_epoch_seconds, current_epoch_seconds));
    }
    assert(text@ =~= timer_text(elapsed as nat));
    text
}

/// One reward part of the summary: ` · ` then the label, ` +`, the amount and ` XP`; nothing
/// for an amount of zero.
pub open spec fn reward_part(label: Seq<char>, xp: u32) -> Seq<char> {
    if xp > 0 {
        " · "@ + label + " +"@ + decimal_spec(xp as nat) + " XP"@
    } else {
        Seq::empty()
    }
}

/// The summary of a finished session: its minutes and study XP, then the quest XP and the
/// daily completion bonus where they were earned.
pub open spec fn completion_message(duration_minutes: u32, study_xp: u32, quest_xp: u32, bonus_xp: u32) -> Seq<
    char,
> {
    "学习完成："@ + decimal_spec(duration_minutes as nat) + " 分钟 · 学习 +"@ + decimal_spec(
        study_xp as nat,
    ) + " XP"@ + reward_part("任务"@, quest_xp) + reward_part("全清"@, bonus_xp)
}

fn push_reward(text: &mut String, label: &str, xp: u32)
    ensures
        final(text)@ == old(text)@ + reward_part(label@, xp),
{
    if xp > 0 {
        text.append(" · ");
        text.append(label);
        text.append(" +");
        push_decimal(text, xp as u64);
        text.append(" XP");
    }
    assert(final(text)@ =~= old(text)@ + reward_part(label@, xp));
}

/// The message shown when a session has been recorded.
pub fn session_completion_message(
    duration_minutes: u32,
    study_xp: u32,
    quest_xp: u32,
    daily_completion_bonus_xp: u32,
) -> (text: String)
    ensures
        text@ == completion_message(duration_minutes, study_xp, quest_xp, daily_completion_bonus_xp),
{
    let mut text = String::from_str("学习完成：");
    push_decimal(&mut text, duration_minutes as u64);
    text.append(" 分钟 · 学习 +");
    push_decimal(&mut text, study_xp as u64);
    text.append(" XP");
    push_reward(&mut text, "任务", quest_xp);
    push_reward(&mut text, "全清", daily_completion_bonus_xp);
    assert(text@ =~= completion_message(
        duration_minutes,
        study_xp,
        quest_xp,
        daily_completion_bonus_xp,
    ));
    text
}

/// The name shown for a player: the default English name reads as 玩家.
pub fn localized_player_name(name: &str) -> (shown: &str)
    ensures
        shown@ == (if name@ == "Player"@ {
            "玩家"@
        } else {
            name@
        }),
{
    if text_equals(name, "Player") {
        "玩家"
    } else {
        name
    }
}

/// The Chinese name of a level title; other texts are shown as they are.
pub open spec fn title_text(title: Seq<char>) -> Seq<char> {
    if title == "Novice Learner"@ {
        "见习学者"@
    } else if title == "Knowledge Hunter"@ {
        "知识猎手"@
    } else if title == "Scholar Adventurer"@ {
        "学识冒险家"@
    } else if title == "Master Student"@ {
        "求学大师"@
    } else if title == "Legendary Learner"@ {
        "传奇求知者"@
    } else {
        title
    }
}

/// The title shown for a level title.
pub fn localized_title(title: &str) -> (shown: &str)
    ensures
        shown@ == title_text(title@),
{
    if text_equals(title, "Novice Learner") {
        "见习学者"
    } else if text_equals(title, "Knowledge Hunter") {
        "知识猎手"
    } else if text_equals(title, "Scholar Adventurer") {
        "学识冒险家"
    } else if text_equals(title, "Master Student") {
        "求学大师"
    } else if text_equals(title, "Legendary Learner") {
        "传奇求知者"
    } else {
        title
    }
}

/// The part of `text` between `prefix` and `suffix`, when it starts with the one and what
/// follows ends with the other.
pub open spec fn between(text: Seq<char>, prefix: Seq<char>, suffix: Seq<char>) -> Option<Seq<char>> {
    if prefix.len() + suffix.len() <= text.len() && text.subrange(0, prefix.len() as int) == prefix
        && text.subrange(text.len() - suffix.len(), text.len() as int) == suffix {
        Some(text.subrange(prefix.len() as int, text.len() - suffix.len()))
    } else {
        None
    }
}

fn strip_between<'a>(text: &'a str, prefix: &str, suffix: &str) -> (r: Option<&'a str>)
    ensures
        match r {
            Some(middle) => between(text@, prefix@, suffix@) == Some(middle@),
            None => between(text@, prefix@, suffix@) is None,
        },
{
    let n = text.unicode_len();
    let p = prefix.unicode_len();
    let s = suffix.unicode_len();
    if p > n || s > n - p {
        return None;
    }
    if !text_equals(text.substring_char(0, p), prefix) {
        return None;
    }
    if !text_equals(text.substring_char(n - s, n), suffix) {
        return None;
    }
    Some(text.substring_char(p, n - s))
}

/// The Chinese text of a daily quest title: `Study N minutes` and `Complete N study session`
/// are shown in Chinese, other titles as they are.
pub open spec fn quest_title_text(title: Seq<char>) -> Seq<char> {
    match between(title, "Study "@, " minutes"@) {
        Some(minutes) => "学习 "@ + minutes + " 分钟"@,
        None => match between(title, "Complete "@, " study session"@) {
            Some(sessions) => "完成 "@ + sessions + " 次学习"@,
            None => title,
        },
    }
}

/// The title shown for a daily quest.
pub fn localized_quest_title(title: &str) -> (shown: String)
    ensures
        shown@ == quest_title_text(title@),
{
    if let Some(minutes) = strip_between(title, "Study ", " minutes") {
        let mut shown = String::from_str("学习 ");
        shown.append(minutes);
        shown.append(" 分钟");
        return shown;
    }
    if let Some(sessions) = strip_between(title, "Complete ", " study session") {
        let mut shown = String::from_str("完成 ");
        shown.append(sessions);
        shown.append(" 次学习");
        return shown;
    }
    String::from_str(title)
}

} // verus!
