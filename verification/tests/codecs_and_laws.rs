use study_rpg::codec::{
    character_class_from_id, character_class_from_str, character_class_id, character_class_to_str,
    mood_from_str, mood_to_str, quest_target_from_parts, quest_target_to_parts, quest_target_view,
};
use study_rpg::xp::progress_from_total_xp;
use study_rpg::{
    CharacterClass, Mood, QuestTarget, StudyRpg, StudySession, StudySessionInput,
    StudySessionStartInput, StudyStatistics,
};

#[test]
fn saved_words_read_back_as_the_same_values() {
    for class in [
        CharacterClass::Scholar,
        CharacterClass::Engineer,
        CharacterClass::Mage,
        CharacterClass::Warrior,
        CharacterClass::Archer,
    ] {
        assert_eq!(character_class_from_str(character_class_to_str(class)), class);
        assert_eq!(character_class_from_id(character_class_id(class)), Some(class));
    }
    assert_eq!(character_class_from_id("paladin"), None);
    for mood in [Mood::Focused, Mood::Tired, Mood::Happy] {
        assert_eq!(mood_from_str(mood_to_str(mood)), mood);
    }
    for target in [QuestTarget::StudyMinutes(30), QuestTarget::CompleteSessions(2)] {
        let (kind, value) = quest_target_to_parts(target);
        assert_eq!(quest_target_from_parts(kind, value), target);
    }
    assert_eq!(quest_target_view(QuestTarget::StudyMinutes(30)), ("studyMinutes", 30));
}

#[test]
fn a_level_never_drops_as_xp_grows() {
    let mut last = 1;
    for total in [0, 99, 100, 249, 250, 469, 470, 770, 5_000, 100_000, u32::MAX] {
        let level = progress_from_total_xp(total).level;
        assert!(level >= last);
        last = level;
    }
}

#[test]
fn the_player_gains_what_the_session_reports() {
    let mut app = StudyRpg::new("Nembx", CharacterClass::Scholar);
    let before = app.player().total_xp;
    let result = app.complete_study_session(StudySessionInput {
        topic: "Sum".to_string(),
        skill_id: None,
        duration_minutes: 31,
    });

    assert_eq!(
        result.player_xp.gained_xp,
        result.session.earned_xp + result.quest_reward_xp + result.daily_completion_bonus_xp
    );
    assert_eq!(app.player().total_xp, before + result.player_xp.gained_xp);
}

#[test]
fn a_saved_game_reads_back_unchanged() {
    let mut app = StudyRpg::new("Nembx", CharacterClass::Scholar);
    let rust = app.add_skill("Rust", None);
    app.complete_study_session(StudySessionInput {
        topic: "Saved".to_string(),
        skill_id: Some(rust),
        duration_minutes: 12,
    });
    app.start_study_session(
        StudySessionStartInput { topic: "Running".to_string(), skill_id: Some(rust) },
        5_000,
    )
    .unwrap();

    let restored = StudyRpg::from_snapshot(app.snapshot());

    assert_eq!(restored, app);
}

#[test]
fn the_current_streak_stays_within_the_longest() {
    let mut app = StudyRpg::new("Nembx", CharacterClass::Scholar);
    for day in [1u64, 2, 5, 6, 7, 8, 10, 11] {
        app.complete_study_session_at(
            StudySessionInput { topic: "Day".to_string(), skill_id: None, duration_minutes: 5 },
            day * 86_400 + 30,
        );
    }
    let report = app.statistics_at(11 * 86_400 + 30);

    assert_eq!(report.current_streak_days, 2);
    assert_eq!(report.longest_streak_days, 4);
    assert!(report.current_streak_days <= report.longest_streak_days);
    assert!(report.today.total_minutes <= report.this_week.total_minutes);
    assert!(report.this_week.total_minutes <= report.all_time.total_minutes);
    assert!(report.this_month.total_minutes <= report.all_time.total_minutes);
}

#[test]
fn new_skills_get_fresh_ids() {
    let mut app = StudyRpg::new("Nembx", CharacterClass::Scholar);
    let a = app.add_skill("A", None);
    let b = app.create_skill("B", Some(a)).unwrap();
    let c = app.create_skill("C", None).unwrap();
    assert_eq!((a, b, c), (1, 2, 3));
}

#[test]
fn the_class_changes_no_rule() {
    let mut scholar = StudyRpg::new("Nembx", CharacterClass::Scholar);
    let mut archer = StudyRpg::new("Nembx", CharacterClass::Archer);
    for app in [&mut scholar, &mut archer] {
        let rust = app.add_skill("Rust", None);
        app.complete_study_session(StudySessionInput {
            topic: "Same".to_string(),
            skill_id: Some(rust),
            duration_minutes: 45,
        });
    }

    assert_eq!(scholar.player().total_xp, archer.player().total_xp);
    assert_eq!(scholar.player().title, archer.player().title);
    assert_eq!(scholar.skills()[0].total_xp, archer.skills()[0].total_xp);
    assert_eq!(scholar.growth_events(), archer.growth_events());
    assert_eq!(archer.player().class, CharacterClass::Archer);
}

#[test]
fn completed_quests_stay_completed() {
    let mut app = StudyRpg::new("Nembx", CharacterClass::Scholar);
    app.complete_study_session(StudySessionInput {
        topic: "One".to_string(),
        skill_id: None,
        duration_minutes: 5,
    });
    assert!(!app.daily_quests()[0].completed);
    assert!(app.daily_quests()[1].completed);

    let result = app.complete_study_session(StudySessionInput {
        topic: "Two".to_string(),
        skill_id: None,
        duration_minutes: 25,
    });

    assert!(app.daily_quests().iter().all(|quest| quest.completed));
    assert_eq!(result.completed_quests.len(), 1);
    assert_eq!(result.quest_reward_xp, 60);
    assert_eq!(result.daily_completion_bonus_xp, 150);
}

#[test]
fn totals_do_not_depend_on_the_order_of_sessions() {
    let make = |id: u64, minutes: u32, xp: u32| StudySession {
        id,
        topic: "Order".to_string(),
        skill_id: None,
        duration_minutes: minutes,
        earned_xp: xp,
        started_at_epoch_seconds: None,
        ended_at_epoch_seconds: Some(id * 86_400),
    };
    let forward = vec![make(1, 10, 16), make(2, 25, 40), make(3, 7, 11)];
    let backward = vec![make(3, 7, 11), make(1, 10, 16), make(2, 25, 40)];
    assert_eq!(StudyStatistics::from_sessions(&forward), StudyStatistics::from_sessions(&backward));
    assert_eq!(StudyStatistics::from_sessions(&forward).total_minutes, 42);
}

#[test]
fn one_game_shows_one_skill_order() {
    let mut app = StudyRpg::new("Nembx", CharacterClass::Scholar);
    app.add_skill("Root", None);
    app.add_skill("Loop A", Some(3));
    app.add_skill("Loop B", Some(2));
    app.add_skill("Leaf", Some(1));

    let plain = app.dashboard().skills;
    let timed = app.dashboard_at(86_400).skills;
    assert_eq!(plain, timed);
    assert_eq!(plain.iter().map(|skill| (skill.id, skill.depth)).collect::<Vec<_>>(), vec![(1, 0), (4, 1), (2, 0), (3, 1)]);
}
