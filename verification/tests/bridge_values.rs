use study_rpg::codec::{character_class_from_id, character_class_id, quest_target_view};
use study_rpg::{
    CharacterClass, CompanionPreferences, DesktopController, GrowthEventKind, StudyRpg,
    StudySessionInput,
};

fn ready_desktop() -> DesktopController {
    DesktopController::load_or_create(
        None,
        CompanionPreferences::default(),
        "Nembx",
        CharacterClass::Scholar,
        1_000,
    )
    .unwrap()
    .0
}

#[test]
fn session_result_view_keeps_each_completed_quest_reward_for_visual_feedback() {
    let mut app = StudyRpg::new("Nembx", CharacterClass::Scholar);
    let result = app.complete_study_session(StudySessionInput {
        topic: "Complete today's quests".to_string(),
        skill_id: None,
        duration_minutes: 30,
    });

    let completed = result
        .completed_quests
        .iter()
        .map(|quest| {
            let (kind, target) = quest_target_view(quest.target);
            (kind, target, quest.title.clone(), quest.reward_xp)
        })
        .collect::<Vec<_>>();

    assert_eq!(
        completed,
        vec![
            ("studyMinutes", 30, "Study 30 minutes".to_string(), 60),
            ("completeSessions", 1, "Complete 1 study session".to_string(), 40),
        ]
    );
}

#[test]
fn session_result_view_exposes_this_session_growth_events() {
    let mut app = StudyRpg::new("Nembx", CharacterClass::Scholar);
    let rust = app.add_skill("Rust", None);
    let result = app.complete_study_session(StudySessionInput {
        topic: "Rust ownership".to_string(),
        skill_id: Some(rust),
        duration_minutes: 30,
    });

    assert!(matches!(
        &result.growth_events[0].kind,
        GrowthEventKind::SkillGrowth { skill_name, gained_xp: 48, .. } if skill_name == "Rust"
    ));
    assert!(matches!(
        result.growth_events[1].kind,
        GrowthEventKind::PlayerLevelChange { level_before: 1, level_after: 3, .. }
    ));
}

#[test]
fn dashboard_view_keeps_core_daily_quest_progress_for_ui_rendering() {
    let mut app = StudyRpg::new("Nembx", CharacterClass::Scholar);
    app.complete_study_session(StudySessionInput {
        topic: "Partial daily progress".to_string(),
        skill_id: None,
        duration_minutes: 15,
    });

    let dashboard = app.dashboard();

    assert_eq!(dashboard.daily_quest_completion.completed_count, 1);
    assert_eq!(dashboard.daily_quest_completion.total_count, 2);
    assert_eq!(dashboard.daily_quest_completion.remaining_count, 1);
    assert_eq!(dashboard.daily_quest_completion.progress_percent, 75);
    assert_eq!(quest_target_view(dashboard.quest_progress[0].quest_target).0, "studyMinutes");
    assert_eq!(dashboard.quest_progress[0].progress_percent, 50);
    assert_eq!(dashboard.quest_progress[1].progress_percent, 100);
}

#[test]
fn dashboard_view_exposes_skill_progress_and_growth_history() {
    let mut app = StudyRpg::new("Nembx", CharacterClass::Scholar);
    let rust = app.add_skill("Rust", None);
    app.complete_study_session(StudySessionInput {
        topic: "Rust ownership".to_string(),
        skill_id: Some(rust),
        duration_minutes: 30,
    });

    let dashboard = app.dashboard();

    assert_eq!(dashboard.skills[0].name, "Rust");
    assert_eq!(dashboard.skills[0].total_xp, 48);
    assert!(matches!(dashboard.growth_history[0].kind, GrowthEventKind::PlayerLevelChange { .. }));
    assert!(matches!(dashboard.growth_history[1].kind, GrowthEventKind::SkillGrowth { .. }));
}

#[test]
fn ipc_creates_the_first_run_character_and_reports_the_ready_identity() {
    let (mut desktop, _) = DesktopController::load(None, CompanionPreferences::default(), 1_000);
    assert!(desktop.needs_character_creation());

    let class = character_class_from_id("engineer").unwrap();
    desktop.create_character("Nembx", class, 1_000).unwrap();

    assert!(!desktop.needs_character_creation());
    let (dashboard, _) = desktop.dashboard_at(1_000).unwrap();
    assert_eq!(dashboard.player_name, "Nembx");
    assert_eq!(character_class_id(dashboard.player_class), "engineer");
}

#[test]
fn ipc_starts_a_session_with_an_optional_skill_name() {
    let mut desktop = ready_desktop();

    desktop.start_session_for_request("Rust ownership", Some("Rust"), None, 1_000).unwrap();
    let (dashboard, _) = desktop.dashboard_at(1_000).unwrap();

    assert_eq!(dashboard.active_session.unwrap().skill_name.as_deref(), Some("Rust"));
    assert_eq!(dashboard.skills[0].name, "Rust");
}

#[test]
fn ipc_creates_a_skill_branch_and_starts_learning_the_selected_child() {
    let mut desktop = ready_desktop();

    let parent = desktop.create_skill("编程", None).unwrap();
    let child = desktop.create_skill("Rust", Some(parent)).unwrap();
    desktop.create_skill("Rust", None).unwrap();
    desktop.start_session_for_request("Rust ownership", None, Some(child), 1_000).unwrap();
    let (dashboard, _) = desktop.dashboard_at(1_000).unwrap();

    let active = dashboard.active_session.unwrap();
    assert_eq!(active.skill_id, Some(child));
    assert_eq!(active.skill_name.as_deref(), Some("Rust"));
    assert_eq!(dashboard.skills[0].parent_id, None);
    assert_eq!(dashboard.skills[0].depth, 0);
    assert_eq!(dashboard.skills[1].id, child);
    assert_eq!(dashboard.skills[1].parent_id, Some(parent));
    assert_eq!(dashboard.skills[1].depth, 1);
    assert!(!dashboard.skills[1].unlocked);
    assert_eq!(dashboard.skills.len(), 3);
}
