use study_rpg::text::{eq_ignore_ascii_case, is_white_space, trim_text};
use study_rpg::{StudyRpg, CharacterClass};

#[test]
fn white_space_is_the_unicode_property() {
    for c in [' ', '\t', '\n', '\u{0B}', '\u{0C}', '\r', '\u{85}', '\u{A0}', '\u{1680}', '\u{2000}',
        '\u{200A}', '\u{2028}', '\u{2029}', '\u{202F}', '\u{205F}', '\u{3000}'] {
        assert!(is_white_space(c));
        assert_eq!(is_white_space(c), c.is_whitespace());
    }
    for c in ['越', 'R', '0', '\u{200B}', '\u{180E}', '\u{FEFF}', '_'] {
        assert!(!is_white_space(c));
        assert_eq!(is_white_space(c), c.is_whitespace());
    }
}

#[test]
fn trimming_matches_str_trim() {
    assert_eq!(trim_text("  Rust  "), "Rust");
    assert_eq!(trim_text("\u{3000}越南语\u{A0}"), "越南语");
    assert_eq!(trim_text(" a b "), "a b");
    assert_eq!(trim_text("   "), "");
    assert_eq!(trim_text(""), "");
    for s in ["\t x\n", "\u{2028}y\u{2029}", "zz", " \u{200B} "] {
        assert_eq!(trim_text(s), s.trim());
    }
}

#[test]
fn names_compare_without_ascii_case() {
    assert!(eq_ignore_ascii_case("Rust", "rUST"));
    assert!(!eq_ignore_ascii_case("Rust", "Rusty"));
    assert!(!eq_ignore_ascii_case("Ä", "ä"));
}

#[test]
fn skill_names_are_trimmed_of_unicode_space() {
    let mut app = StudyRpg::new("Ada", CharacterClass::Scholar);
    let id = app.create_skill("\u{3000}Rust\u{A0}", None).unwrap();
    let skill = app.skills().iter().find(|s| s.id == id).unwrap();
    assert_eq!(skill.name, "Rust");
}

#[test]
fn each_new_skill_id_exceeds_the_earlier_ones() {
    let mut app = StudyRpg::new("Ada", CharacterClass::Scholar);
    let before: Vec<u64> = app.skills().iter().map(|s| s.id).collect();
    let first = app.add_skill("Graphs", None);
    assert!(before.iter().all(|&id| id < first));
    let second = app.add_skill("Trees", Some(first));
    assert_eq!(second, first + 1);
}
