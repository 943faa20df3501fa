use study_rpg::{
    CharacterClass, CompanionMode, CompanionPreferences, DesktopController, DesktopError,
    GrowthEventKind, StudyRpg, StudyRpgError,
};

fn new_desktop(now: u64) -> DesktopController {
    let (desktop, must_save) = DesktopController::load_or_create(
        None,
        CompanionPreferences::default(),
        "Nembx",
        CharacterClass::Scholar,
        now,
    )
    .unwrap();
    assert!(must_save);
    desktop
}

#[test]
fn desktop_controller_starts_a_study_session_from_the_topic_input() {
    let mut desktop = new_desktop(1_000);

    desktop.start_session("  Rust ownership  ", 1_000).unwrap();

    let (dashboard, _) = desktop.dashboard_at(1_060).unwrap();
    let active = dashboard.active_session.unwrap();
    assert_eq!(active.topic, "Rust ownership");
    assert_eq!(active.elapsed_minutes, 1);
}

#[test]
fn desktop_controller_records_growth_for_the_selected_skill_name() {
    let mut desktop = new_desktop(1_000);

    desktop.start_session_with_skill("Rust ownership", Some("  Rust  "), 1_000).unwrap();

    let active = desktop.dashboard_at(1_060).unwrap().0.active_session.unwrap();
    assert_eq!(active.skill_name.as_deref(), Some("Rust"));

    desktop.finish_session(1_000 + 30 * 60).unwrap();
    let history = desktop.dashboard_at(1_000 + 30 * 60).unwrap().0.growth_history;
    assert!(history.iter().any(|event| matches!(
        &event.kind,
        GrowthEventKind::SkillGrowth { skill_name, .. } if skill_name == "Rust"
    )));
}

#[test]
fn desktop_controller_surfaces_invalid_skill_tree_input() {
    let mut desktop = new_desktop(1_000);

    assert!(matches!(
        desktop.create_skill(" ", None),
        Err(DesktopError::StudyRpg(StudyRpgError::EmptySkillName))
    ));
}

#[test]
fn desktop_controller_grants_xp_to_the_selected_child_instead_of_a_same_named_root() {
    let mut desktop = new_desktop(1_000);
    let root = desktop.create_skill("Rust", None).unwrap();
    let programming = desktop.create_skill("编程", None).unwrap();
    let child = desktop.create_skill("Rust", Some(programming)).unwrap();

    desktop.start_session_with_skill_id("  Rust ownership  ", Some(child), 1_000).unwrap();
    let result = desktop.finish_session(1_000 + 25 * 60).unwrap();
    let (dashboard, _) = desktop.dashboard_at(1_000 + 25 * 60).unwrap();

    assert_eq!(result.session.topic, "Rust ownership");
    assert_eq!(result.session.skill_id, Some(child));
    assert_eq!(dashboard.skills.len(), 3);
    assert_eq!(dashboard.skills.iter().find(|skill| skill.id == root).unwrap().total_xp, 0);
    assert_eq!(
        dashboard.skills.iter().find(|skill| skill.id == programming).unwrap().total_xp,
        0
    );
    assert_eq!(dashboard.skills.iter().find(|skill| skill.id == child).unwrap().total_xp, 40);
    assert!(result.growth_events.iter().any(|event| matches!(
        event.kind,
        GrowthEventKind::SkillGrowth { skill_id, gained_xp: 40, .. } if skill_id == child
    )));
}

#[test]
fn desktop_controller_reuses_an_existing_skill_name_ignoring_ascii_case() {
    let mut desktop = new_desktop(1_000);

    desktop.start_session_with_skill("Rust syntax", Some("Rust"), 1_000).unwrap();
    desktop.finish_session(1_060).unwrap();
    desktop.start_session_with_skill("Rust ownership", Some("  rUsT  "), 2_000).unwrap();

    let (dashboard, _) = desktop.dashboard_at(2_000).unwrap();
    assert_eq!(dashboard.skills.len(), 1);
    assert_eq!(dashboard.skills[0].name, "Rust");
    assert_eq!(dashboard.active_session.unwrap().skill_name.as_deref(), Some("Rust"));
}

#[test]
fn desktop_controller_finishes_the_timer_through_the_core_loop() {
    let mut desktop = new_desktop(1_000);
    desktop.start_session("Rust ownership", 1_000).unwrap();

    let result = desktop.finish_session(1_000 + 25 * 60).unwrap();

    assert_eq!(result.session.duration_minutes, 25);
    assert_eq!(result.session.earned_xp, 40);
    assert_eq!(result.player_xp.gained_xp, 80);
    let (dashboard, _) = desktop.dashboard_at(1_000 + 25 * 60).unwrap();
    assert!(dashboard.active_session.is_none());
    assert_eq!(dashboard.recent_sessions[0].topic, "Rust ownership");
}

#[test]
fn desktop_controller_exposes_the_core_statistics_report() {
    const DAY: u64 = 86_400;
    let mut desktop = new_desktop(10 * DAY);
    desktop.start_session("Yesterday", 9 * DAY).unwrap();
    desktop.finish_session(9 * DAY + 20 * 60).unwrap();
    desktop.start_session("Today", 10 * DAY).unwrap();
    desktop.finish_session(10 * DAY + 30 * 60).unwrap();

    let report = desktop.statistics_at(10 * DAY + 30 * 60).unwrap();

    assert_eq!(report.today.total_minutes, 30);
    assert_eq!(report.all_time.total_minutes, 50);
    assert_eq!(report.current_streak_days, 2);
    assert_eq!(report.last_seven_days.len(), 7);
}

#[test]
fn first_run_needs_a_character_and_refuses_an_empty_name() {
    let (mut desktop, must_save) =
        DesktopController::load(None, CompanionPreferences::default(), 2_000);
    assert!(!must_save);
    assert!(desktop.needs_character_creation());
    assert_eq!(desktop.start_session("Topic", 2_000), Err(DesktopError::CharacterNotCreated));
    assert_eq!(
        desktop.create_character("   ", CharacterClass::Engineer, 2_000),
        Err(DesktopError::EmptyPlayerName)
    );
    assert!(desktop.needs_character_creation());

    desktop.create_character("  Nembx  ", CharacterClass::Engineer, 2_000).unwrap();
    assert!(!desktop.needs_character_creation());
    let (dashboard, _) = desktop.dashboard_at(2_060).unwrap();
    assert_eq!(dashboard.player_name, "Nembx");
    assert_eq!(dashboard.player_class, CharacterClass::Engineer);
    assert_eq!(
        desktop.create_character("Other", CharacterClass::Mage, 2_060),
        Err(DesktopError::CharacterAlreadyCreated)
    );
}

#[test]
fn loading_a_saved_game_moves_its_quests_to_today() {
    let saved = StudyRpg::new("Nembx", CharacterClass::Scholar).snapshot();
    let (desktop, must_save) = DesktopController::load(
        Some(StudyRpg::from_snapshot(saved)),
        CompanionPreferences { mode: CompanionMode::Expanded, y_position: Some(248) },
        3 * 86_400,
    );

    assert!(must_save);
    assert!(desktop.app().unwrap().daily_quests().iter().all(|quest| quest.epoch_day == 3));
    assert_eq!(
        desktop.companion_preferences(),
        CompanionPreferences { mode: CompanionMode::Expanded, y_position: Some(248) }
    );
}

#[test]
fn a_failed_save_puts_the_previous_game_back() {
    let mut desktop = new_desktop(3_000);
    let previous = StudyRpg::from_snapshot(desktop.app().unwrap().snapshot());

    desktop.start_session("Must persist", 3_000).unwrap();
    assert!(desktop.dashboard_at(3_000).unwrap().0.active_session.is_some());

    desktop.restore(Some(previous));
    assert!(desktop.dashboard_at(3_000).unwrap().0.active_session.is_none());
}

#[test]
fn desktop_errors_read_as_messages() {
    assert_eq!(DesktopError::EmptyTopic.message(), "请先输入学习主题");
    assert_eq!(
        DesktopError::StudyRpg(StudyRpgError::StudySessionTooShort).message(),
        "至少学习满一分钟后才能结算"
    );
    assert_eq!(
        DesktopError::Storage("disk full".to_string()).message(),
        "无法保存本地数据：disk full"
    );
    assert_eq!(DesktopError::from(StudyRpgError::UnknownSkill), DesktopError::StudyRpg(StudyRpgError::UnknownSkill));
}

#[test]
fn companion_modes_are_saved_as_words() {
    assert_eq!(CompanionMode::Compact.as_str(), "compact");
    assert_eq!(CompanionMode::Expanded.as_str(), "expanded");
    assert_eq!(CompanionMode::from_str("expanded"), CompanionMode::Expanded);
    assert_eq!(CompanionMode::from_str("anything"), CompanionMode::Compact);
    assert_eq!(
        CompanionPreferences::default(),
        CompanionPreferences { mode: CompanionMode::Compact, y_position: None }
    );
}

#[test]
fn new_preferences_are_kept() {
    let mut desktop = new_desktop(1_000);
    let preferences = CompanionPreferences { mode: CompanionMode::Expanded, y_position: Some(40) };
    desktop.set_companion_preferences(preferences);
    assert_eq!(desktop.companion_preferences(), preferences);
}

#[test]
fn a_start_request_names_its_skill_by_id_or_by_name() {
    let mut desktop = new_desktop(1_000);
    let rust = desktop.create_skill("Rust", None).unwrap();

    assert_eq!(
        desktop.start_session_for_request("Topic", Some("Rust"), Some(rust), 1_000),
        Err(DesktopError::AmbiguousSkill)
    );
    assert!(desktop.dashboard_at(1_000).unwrap().0.active_session.is_none());

    desktop.start_session_for_request("Topic", Some("   "), Some(rust), 1_000).unwrap();
    let active = desktop.dashboard_at(1_000).unwrap().0.active_session.unwrap();
    assert_eq!(active.skill_id, Some(rust));
    assert_eq!(DesktopError::AmbiguousSkill.message(), "请选择已有技能或填写新技能名称");
}

#[test]
fn a_start_request_by_name_creates_the_skill_at_the_root() {
    let mut desktop = new_desktop(1_000);
    let programming = desktop.create_skill("编程", None).unwrap();
    desktop.create_skill("Go", Some(programming)).unwrap();

    desktop.start_session_for_request("Goroutines", Some(" go "), None, 1_000).unwrap();

    let (dashboard, _) = desktop.dashboard_at(1_000).unwrap();
    assert_eq!(dashboard.skills.len(), 3);
    let created = dashboard.skills.iter().find(|skill| skill.id == 3).unwrap();
    assert_eq!(created.name, "go");
    assert_eq!(created.parent_id, None);
    assert_eq!(dashboard.active_session.unwrap().skill_id, Some(3));
}

#[test]
fn a_failed_save_is_settled_by_restoring_the_game() {
    let mut desktop = new_desktop(3_000);
    let previous = StudyRpg::from_snapshot(desktop.app().unwrap().snapshot());
    desktop.start_session("Kept", 3_000).unwrap();
    assert_eq!(desktop.settle_save(None, Ok(())), Ok(()));
    assert!(desktop.dashboard_at(3_000).unwrap().0.active_session.is_some());

    assert_eq!(
        desktop.settle_save(Some(previous), Err("disk full".to_string())),
        Err(DesktopError::Storage("disk full".to_string()))
    );
    assert!(desktop.dashboard_at(3_000).unwrap().0.active_session.is_none());
}
