use study_rpg::quest::progress_for_quest;
use study_rpg::session::{completed_minutes_between, xp_for_duration};
use study_rpg::xp::{progress_from_total_xp, required_xp_for_level};
use study_rpg::{
    default_daily_quests, CharacterClass, Player, Quest, Skill, StudyRpg, StudyRpgError,
    StudyRpgSnapshot, StudySession, StudySessionInput, StudySessionStartInput,
};

#[test]
fn completing_a_session_updates_the_core_loop() {
    let mut app = StudyRpg::new("Nembx", CharacterClass::Scholar);
    let rust = app.add_skill("Rust", None);

    let result = app.complete_study_session(StudySessionInput {
        topic: "Rust ownership".to_string(),
        skill_id: Some(rust),
        duration_minutes: 25,
    });

    assert_eq!(result.session.earned_xp, 40);
    assert_eq!(result.quest_reward_xp, 40);
    assert_eq!(result.player_xp.gained_xp, 80);
    assert_eq!(app.sessions().len(), 1);
    assert_eq!(app.skills()[0].total_xp, 40);
    assert_eq!(app.dashboard().today_minutes, 25);
}

#[test]
fn thirty_minutes_completes_the_daily_minutes_quest() {
    let mut app = StudyRpg::new("Nembx", CharacterClass::Scholar);

    let result = app.complete_study_session(StudySessionInput {
        topic: "Reading".to_string(),
        skill_id: None,
        duration_minutes: 30,
    });

    assert_eq!(result.session.earned_xp, 48);
    assert_eq!(result.completed_quests.len(), 2);
    assert_eq!(result.daily_completion_bonus_xp, 150);
    assert_eq!(result.quest_reward_xp, 100);
    assert!(app.dashboard().quest_progress.iter().all(|quest| quest.completed));
}

#[test]
fn restored_state_continues_allocating_ids_after_existing_records() {
    let snapshot = StudyRpgSnapshot {
        player: Player::new("Nembx", CharacterClass::Scholar),
        skills: vec![Skill::new(7, "Rust", None)],
        sessions: vec![StudySession {
            id: 12,
            topic: "Rust ownership".to_string(),
            skill_id: Some(7),
            duration_minutes: 25,
            earned_xp: 40,
            started_at_epoch_seconds: None,
            ended_at_epoch_seconds: None,
        }],
        daily_quests: default_daily_quests(),
        daily_completion_bonus_claimed: false,
        active_session: None,
        growth_events: Vec::new(),
    };
    let mut app = StudyRpg::from_snapshot(snapshot);

    let next_skill = app.add_skill("SQLite", None);
    let result = app.complete_study_session(StudySessionInput {
        topic: "Persistence".to_string(),
        skill_id: Some(next_skill),
        duration_minutes: 10,
    });

    assert_eq!(next_skill, 8);
    assert_eq!(result.session.id, 13);
}

#[test]
fn timed_session_finishes_through_the_core_loop() {
    let mut app = StudyRpg::new("Nembx", CharacterClass::Scholar);
    let rust = app.add_skill("Rust", None);

    let active = app
        .start_study_session(
            StudySessionStartInput { topic: "Rust ownership".to_string(), skill_id: Some(rust) },
            1_000,
        )
        .unwrap();
    assert_eq!(active.topic, "Rust ownership");
    assert_eq!(app.active_session().unwrap().skill_id, Some(rust));

    let result = app.finish_active_study_session(1_000 + 25 * 60).unwrap();

    assert!(app.active_session().is_none());
    assert_eq!(result.session.duration_minutes, 25);
    assert_eq!(result.session.earned_xp, 40);
    assert_eq!(result.session.started_at_epoch_seconds, Some(1_000));
    assert_eq!(result.session.ended_at_epoch_seconds, Some(1_000 + 25 * 60));
    assert_eq!(result.player_xp.gained_xp, 80);
    assert_eq!(app.skills()[0].total_xp, 40);
}

#[test]
fn timer_rejects_double_start_and_too_short_sessions() {
    let mut app = StudyRpg::new("Nembx", CharacterClass::Scholar);

    app.start_study_session(
        StudySessionStartInput { topic: "Reading".to_string(), skill_id: None },
        1_000,
    )
    .unwrap();

    assert_eq!(
        app.start_study_session(
            StudySessionStartInput { topic: "Second session".to_string(), skill_id: None },
            1_010,
        ),
        Err(StudyRpgError::StudySessionAlreadyActive)
    );

    assert_eq!(app.finish_active_study_session(1_030), Err(StudyRpgError::StudySessionTooShort));
    assert!(app.active_session().is_some());
}

#[test]
fn refresh_daily_quests_replaces_stale_quests_for_the_current_day() {
    let mut app = StudyRpg::new("Nembx", CharacterClass::Scholar);
    app.complete_study_session(StudySessionInput {
        topic: "Manual session".to_string(),
        skill_id: None,
        duration_minutes: 30,
    });
    assert!(app.daily_quests().iter().all(|quest| quest.completed));

    assert!(app.refresh_daily_quests_at(86_400));

    assert!(app.daily_quests().iter().all(|quest| quest.epoch_day == 1));
    assert!(app.daily_quests().iter().all(|quest| !quest.completed));
    assert_eq!(app.dashboard().quest_progress[0].current, 0);
}

#[test]
fn finishing_timed_session_refreshes_daily_quests_by_end_time() {
    let mut app = StudyRpg::new("Nembx", CharacterClass::Scholar);

    app.start_study_session(
        StudySessionStartInput { topic: "Day one study".to_string(), skill_id: None },
        86_400 + 10,
    )
    .unwrap();
    app.finish_active_study_session(86_400 + 10 + 30 * 60).unwrap();

    assert!(app.daily_quests().iter().all(|quest| quest.epoch_day == 1));
    assert!(app.dashboard().quest_progress.iter().all(|quest| quest.completed));
}

#[test]
fn dashboard_exposes_quest_progress_and_recent_sessions() {
    let mut app = StudyRpg::new("Nembx", CharacterClass::Scholar);
    let rust = app.add_skill("Rust", None);

    app.complete_study_session(StudySessionInput {
        topic: "Ownership".to_string(),
        skill_id: Some(rust),
        duration_minutes: 10,
    });
    app.complete_study_session(StudySessionInput {
        topic: "Borrowing".to_string(),
        skill_id: Some(rust),
        duration_minutes: 5,
    });

    let dashboard = app.dashboard();

    assert_eq!(dashboard.total_xp, 64);
    assert_eq!(dashboard.xp_progress_percent, 64);
    assert_eq!(dashboard.quest_progress[0].current, 15);
    assert_eq!(dashboard.quest_progress[0].epoch_day, 0);
    assert_eq!(dashboard.quest_progress[0].target, 30);
    assert!(!dashboard.quest_progress[0].completed);
    assert!(dashboard.quest_progress[1].completed);
    assert_eq!(dashboard.recent_sessions[0].topic, "Borrowing");
    assert_eq!(dashboard.recent_sessions[0].skill_name, Some("Rust".to_string()));
    assert_eq!(dashboard.recent_sessions[1].topic, "Ownership");
}

#[test]
fn dashboard_exposes_player_energy() {
    let app = StudyRpg::new("Nembx", CharacterClass::Scholar);

    assert_eq!(app.dashboard().energy, 100);
}

#[test]
fn dashboard_at_summarizes_active_session_progress() {
    let mut app = StudyRpg::new("Nembx", CharacterClass::Scholar);
    let rust = app.add_skill("Rust", None);

    app.start_study_session(
        StudySessionStartInput { topic: "Rust ownership".to_string(), skill_id: Some(rust) },
        1_000,
    )
    .unwrap();

    let dashboard = app.dashboard_at(1_000 + 25 * 60);
    let active = dashboard.active_session.unwrap();

    assert_eq!(active.topic, "Rust ownership");
    assert_eq!(active.skill_name, Some("Rust".to_string()));
    assert_eq!(active.elapsed_minutes, 25);
    assert_eq!(active.estimated_xp, 40);
}

#[test]
fn dashboard_at_counts_minutes_for_the_current_epoch_day() {
    let mut app = StudyRpg::new("Nembx", CharacterClass::Scholar);

    app.start_study_session(
        StudySessionStartInput { topic: "Yesterday".to_string(), skill_id: None },
        10,
    )
    .unwrap();
    app.finish_active_study_session(10 + 10 * 60).unwrap();

    app.start_study_session(
        StudySessionStartInput { topic: "Today".to_string(), skill_id: None },
        86_400 + 10,
    )
    .unwrap();
    app.finish_active_study_session(86_400 + 10 + 15 * 60).unwrap();

    assert_eq!(app.dashboard_at(86_400 + 3_600).today_minutes, 15);
}

#[test]
fn quest_progress_keeps_the_quest_identity() {
    let quest = Quest::study_minutes(42, 30, 60);
    let sessions = vec![StudySession {
        id: 1,
        topic: "Rust".to_string(),
        skill_id: None,
        duration_minutes: 10,
        earned_xp: 16,
        started_at_epoch_seconds: None,
        ended_at_epoch_seconds: None,
    }];

    let progress = progress_for_quest(&quest, &sessions);

    assert_eq!(progress.quest_id, 42);
    assert_eq!(progress.current, 10);
    assert_eq!(progress.target, 30);
    assert!(!progress.completed);
}

#[test]
fn matches_the_design_example_for_a_focus_session() {
    assert_eq!(xp_for_duration(25), 40);
}

#[test]
fn calculates_completed_minutes_from_timer_seconds() {
    assert_eq!(completed_minutes_between(100, 100 + 25 * 60), Some(25));
    assert_eq!(completed_minutes_between(100, 159), None);
    assert_eq!(completed_minutes_between(100, 99), None);
}

#[test]
fn uses_the_v1_level_curve() {
    assert_eq!(required_xp_for_level(1), 100);
    assert_eq!(required_xp_for_level(2), 150);
    assert_eq!(required_xp_for_level(3), 220);
    assert_eq!(required_xp_for_level(4), 300);
    assert!(required_xp_for_level(10) > required_xp_for_level(9));
}

#[test]
fn converts_total_xp_into_current_level_progress() {
    assert_eq!(progress_from_total_xp(0).level, 1);
    assert_eq!(progress_from_total_xp(99).level, 1);
    assert_eq!(progress_from_total_xp(100).level, 2);
    assert_eq!(progress_from_total_xp(250).level, 3);
}

fn session_of(id: u64, duration_minutes: u32, earned_xp: u32) -> StudySession {
    StudySession {
        id,
        topic: "Saved".to_string(),
        skill_id: None,
        duration_minutes,
        earned_xp,
        started_at_epoch_seconds: None,
        ended_at_epoch_seconds: None,
    }
}

fn restored_with(sessions: Vec<StudySession>, skills: Vec<Skill>) -> StudyRpg {
    StudyRpg::from_snapshot(StudyRpgSnapshot {
        player: Player::new("Nembx", CharacterClass::Scholar),
        skills,
        sessions,
        daily_quests: default_daily_quests(),
        daily_completion_bonus_claimed: false,
        active_session: None,
        growth_events: Vec::new(),
    })
}

#[test]
fn the_limits_of_a_game_can_be_asked_before_acting() {
    let mut app = StudyRpg::new("Nembx", CharacterClass::Scholar);
    assert!(app.dashboard_fits_now());
    assert!(app.has_room_for_skill());
    assert!(app.can_finish_at(5_000));
    app.start_study_session(
        StudySessionStartInput { topic: "Limits".to_string(), skill_id: None },
        1_000,
    )
    .unwrap();
    assert!(app.can_finish_at(1_000 + 30 * 60));
    let input =
        StudySessionInput { topic: "Manual".to_string(), skill_id: None, duration_minutes: 5 };
    assert!(app.can_record_session(&input, None, None));
}

#[test]
fn games_at_the_edge_of_the_counters_are_recognised() {
    let crowded = restored_with(vec![session_of(1, u32::MAX, 1), session_of(2, 1, 1)], Vec::new());
    assert!(!crowded.dashboard_fits_now());

    let last_id = restored_with(vec![session_of(u64::MAX - 1, 10, 16)], Vec::new());
    let input =
        StudySessionInput { topic: "One more".to_string(), skill_id: None, duration_minutes: 5 };
    assert!(!last_id.can_record_session(&input, None, None));

    let full_minutes = restored_with(vec![session_of(1, u32::MAX - 2, 1)], Vec::new());
    assert!(!full_minutes.can_record_session(&input, None, None));
    let small =
        StudySessionInput { topic: "Fits".to_string(), skill_id: None, duration_minutes: 2 };
    assert!(full_minutes.can_record_session(&small, None, None));

    let no_skill_room = restored_with(Vec::new(), vec![Skill::new(u64::MAX - 1, "Last", None)]);
    assert!(!no_skill_room.has_room_for_skill());
}
