use study_rpg::feedback::{
    elapsed_timer_text, localized_player_name, localized_quest_title, localized_title,
    session_completion_message,
};
use study_rpg::player::title_for_level;
use study_rpg::{place_companion_window, CompanionWindowBounds};

#[test]
fn active_timer_feedback_includes_running_seconds() {
    assert_eq!(elapsed_timer_text(1_000, 1_000 + 25 * 60 + 3), "25:03");
    assert_eq!(elapsed_timer_text(1_000, 1_000 + 60 * 60), "1:00:00");
}

#[test]
fn session_completion_feedback_keeps_reward_sources_separate() {
    let message = session_completion_message(30, 48, 100, 150);

    assert_eq!(message, "学习完成：30 分钟 · 学习 +48 XP · 任务 +100 XP · 全清 +150 XP");
}

#[test]
fn session_completion_feedback_omits_rewards_that_were_not_earned() {
    let message = session_completion_message(25, 40, 0, 0);

    assert_eq!(message, "学习完成：25 分钟 · 学习 +40 XP");
}

#[test]
fn the_timer_reads_zero_when_the_clock_goes_back() {
    assert_eq!(elapsed_timer_text(1_000, 900), "00:00");
    assert_eq!(elapsed_timer_text(0, 9), "00:09");
    assert_eq!(elapsed_timer_text(0, 36_000 + 61), "10:01:01");
}

#[test]
fn only_the_daily_bonus_can_be_shown_alone() {
    assert_eq!(
        session_completion_message(1, 1, 0, 150),
        "学习完成：1 分钟 · 学习 +1 XP · 全清 +150 XP"
    );
}

#[test]
fn default_names_and_titles_are_shown_in_chinese() {
    assert_eq!(localized_player_name("Player"), "玩家");
    assert_eq!(localized_player_name("Nembx"), "Nembx");
    assert_eq!(localized_title(title_for_level(1)), "见习学者");
    assert_eq!(localized_title(title_for_level(5)), "知识猎手");
    assert_eq!(localized_title(title_for_level(10)), "学识冒险家");
    assert_eq!(localized_title(title_for_level(20)), "求学大师");
    assert_eq!(localized_title(title_for_level(40)), "传奇求知者");
    assert_eq!(localized_title("Custom"), "Custom");
}

#[test]
fn quest_titles_are_shown_in_chinese() {
    assert_eq!(localized_quest_title("Study 30 minutes"), "学习 30 分钟");
    assert_eq!(localized_quest_title("Complete 1 study session"), "完成 1 次学习");
    assert_eq!(localized_quest_title("Study minutes"), "Study minutes");
    assert_eq!(localized_quest_title("Read a book"), "Read a book");
}

#[test]
fn expanded_companion_stays_on_the_right_and_clamps_its_vertical_position() {
    let bounds = place_companion_window(0, 0, 1_440, 900, 360, 620, 16, Some(800));

    assert_eq!(bounds.x, 1_080);
    assert_eq!(bounds.y, 264);
    assert_eq!(bounds.width, 360);
    assert_eq!(bounds.height, 620);
}

#[test]
fn the_companion_sits_on_the_right_edge_and_keeps_off_the_margins() {

    let centred = place_companion_window(100, 50, 1_000, 800, 280, 160, 16, None);
    assert_eq!(centred, CompanionWindowBounds { x: 820, y: 370, width: 280, height: 160 });

    let high = place_companion_window(0, 0, 1_000, 800, 280, 160, 16, Some(-50));
    assert_eq!(high.y, 16);

    let too_tall = place_companion_window(0, 0, 1_000, 100, 280, 160, 16, Some(40));
    assert_eq!(too_tall.y, 16);
}

#[test]
fn a_level_outside_the_ranges_reads_as_legendary() {
    assert_eq!(title_for_level(0), "Legendary Learner");
    assert_eq!(title_for_level(4), "Novice Learner");
    assert_eq!(title_for_level(39), "Master Student");
}
