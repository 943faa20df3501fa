//! The words that stand for enumerations in saved data and in the desktop bridge.
use vstd::prelude::*;
use crate::player::{CharacterClass, Mood};
use crate::quest::QuestTarget;

verus! {

/// Compares two texts character by character.
pub fn text_equals(a: &str, b: &str) -> (r: bool)
    ensures
        r == (a@ == b@),
{
    let n = a.unicode_len();
    if n != b.unicode_len() {
        return false;
    }
    let mut i: usize = 0;
    while i < n
        invariant
            n == a@.len(),
            n == b@.len(),
            i <= n,
            forall|k: int| 0 <= k < i ==> a@[k] == b@[k],
        decreases n - i,
    {
        if a.get_char(i) != b.get_char(i) {
            return false;
        }
        i = i + 1;
    }
    assert(a@ =~= b@);
    true
}

pub open spec fn class_text(class: CharacterClass) -> Seq<char> {
    match class {
        CharacterClass::Scholar => "scholar"@,
        CharacterClass::Engineer => "engineer"@,
        CharacterClass::Mage => "mage"@,
        CharacterClass::Warrior => "warrior"@,
        CharacterClass::Archer => "archer"@,
    }
}

/// The class a word names, if it names one.
pub open spec fn class_named(text: Seq<char>) -> Option<CharacterClass> {
    if text == "scholar"@ {
        Some(CharacterClass::Scholar)
    } else if text == "engineer"@ {
        Some(CharacterClass::Engineer)
    } else if text == "mage"@ {
        Some(CharacterClass::Mage)
    } else if text == "warrior"@ {
        Some(CharacterClass::Warrior)
    } else if text == "archer"@ {
        Some(CharacterClass::Archer)
    } else {
        None
    }
}

pub open spec fn mood_text(mood: Mood) -> Seq<char> {
    match mood {
        Mood::Focused => "focused"@,
        Mood::Tired => "tired"@,
        Mood::Happy => "happy"@,
    }
}

pub open spec fn mood_named(text: Seq<char>) -> Mood {
    if text == "tired"@ {
        Mood::Tired
    } else if text == "happy"@ {
        Mood::Happy
    } else {
        Mood::Focused
    }
}

pub open spec fn target_kind_text(target: QuestTarget) -> Seq<char> {
    match target {
        QuestTarget::StudyMinutes(_) => "study_minutes"@,
        QuestTarget::CompleteSessions(_) => "complete_sessions"@,
    }
}

pub open spec fn target_value(target: QuestTarget) -> u32 {
    match target {
        QuestTarget::StudyMinutes(v) => v,
        QuestTarget::CompleteSessions(v) => v,
    }
}

pub open spec fn target_named(kind: Seq<char>, value: u32) -> QuestTarget {
    if kind == "complete_sessions"@ {
        QuestTarget::CompleteSessions(value)
    } else {
        QuestTarget::StudyMinutes(value)
    }
}

/// The word that saves a class.
pub fn character_class_to_str(class: CharacterClass) -> (text: &'static str)
    ensures
        text@ == class_text(class),
{
    match class {
        CharacterClass::Scholar => "scholar",
        CharacterClass::Engineer => "engineer",
        CharacterClass::Mage => "mage",
        CharacterClass::Warrior => "warrior",
        CharacterClass::Archer => "archer",
    }
}

/// The class a saved word names; an unknown word reads as the scholar.
pub fn character_class_from_str(value: &str) -> (class: CharacterClass)
    ensures
        class == match class_named(value@) {
            Some(c) => c,
            None => CharacterClass::Scholar,
        },
{
    match character_class_from_id(value) {
        Some(class) => class,
        None => CharacterClass::Scholar,
    }
}

/// The identifier of a class in the desktop bridge (the same word as in saved data).
pub fn character_class_id(class: CharacterClass) -> (text: &'static str)
    ensures
        text@ == class_text(class),
{
    character_class_to_str(class)
}

/// The class an identifier names, if any.
pub fn character_class_from_id(value: &str) -> (class: Option<CharacterClass>)
    ensures
        class == class_named(value@),
{
    if text_equals(value, "scholar") {
        Some(CharacterClass::Scholar)
    } else if text_equals(value, "engineer") {
        Some(CharacterClass::Engineer)
    } else if text_equals(value, "mage") {
        Some(CharacterClass::Mage)
    } else if text_equals(value, "warrior") {
        Some(CharacterClass::Warrior)
    } else if text_equals(value, "archer") {
        Some(CharacterClass::Archer)
    } else {
        None
    }
}

/// The word that saves a mood.
pub fn mood_to_str(mood: Mood) -> (text: &'static str)
    ensures
        text@ == mood_text(mood),
{
    match mood {
        Mood::Focused => "focused",
        Mood::Tired => "tired",
        Mood::Happy => "happy",
    }
}

/// The mood a saved word names; an unknown word reads as focused.
pub fn mood_from_str(value: &str) -> (mood: Mood)
    ensures
        mood == mood_named(value@),
{
    if text_equals(value, "tired") {
        Mood::Tired
    } else if text_equals(value, "happy") {
        Mood::Happy
    } else {
        Mood::Focused
    }
}

/// The kind word and the number that save a quest target.
pub fn quest_target_to_parts(target: QuestTarget) -> (parts: (&'static str, u32))
    ensures
        parts.0@ == target_kind_text(target),
        parts.1 == target_value(target),
{
    match target {
        QuestTarget::StudyMinutes(minutes) => ("study_minutes", minutes),
        QuestTarget::CompleteSessions(sessions) => ("complete_sessions", sessions),
    }
}

/// The quest target saved as a kind word and a number; an unknown kind reads as minutes.
pub fn quest_target_from_parts(kind: &str, value: u32) -> (target: QuestTarget)
    ensures
        target == target_named(kind@, value),
{
    if text_equals(kind, "complete_sessions") {
        QuestTarget::CompleteSessions(value)
    } else {
        QuestTarget::StudyMinutes(value)
    }
}

/// The identifier of a quest target kind in the desktop bridge, with its number.
pub fn quest_target_view(target: QuestTarget) -> (parts: (&'static str, u32))
    ensures
        parts.0@ == (match target {
            QuestTarget::StudyMinutes(_) => "studyMinutes"@,
            QuestTarget::CompleteSessions(_) => "completeSessions"@,
        }),
        parts.1 == target_value(target),
{
    match target {
        QuestTarget::StudyMinutes(target) => ("studyMinutes", target),
        QuestTarget::CompleteSessions(target) => ("completeSessions", target),
    }
}

/// Reading back the word saved for a class gives the class.
pub proof fn lemma_class_round_trip(class: CharacterClass)
    ensures
        class_named(class_text(class)) == Some(class),
{
    reveal_strlit("scholar");
    reveal_strlit("engineer");
    reveal_strlit("mage");
    reveal_strlit("warrior");
    reveal_strlit("archer");
    assert("scholar"@ != "engineer"@) by {
        assert("scholar"@[0] != "engineer"@[0]);
    }
    assert("scholar"@ != "mage"@) by {
        assert("scholar"@[0] != "mage"@[0]);
    }
    assert("scholar"@ != "warrior"@) by {
        assert("scholar"@[0] != "warrior"@[0]);
    }
    assert("scholar"@ != "archer"@) by {
        assert("scholar"@[0] != "archer"@[0]);
    }
    assert("engineer"@ != "mage"@) by {
        assert("engineer"@[0] != "mage"@[0]);
    }
    assert("engineer"@ != "warrior"@) by {
        assert("engineer"@[0] != "warrior"@[0]);
    }
    assert("engineer"@ != "archer"@) by {
        assert("engineer"@[0] != "archer"@[0]);
    }
    assert("mage"@ != "warrior"@) by {
        assert("mage"@[0] != "warrior"@[0]);
    }
    assert("mage"@ != "archer"@) by {
        assert("mage"@[0] != "archer"@[0]);
    }
    assert("warrior"@ != "archer"@) by {
        assert("warrior"@[0] != "archer"@[0]);
    }
}

/// Reading back the word saved for a mood gives the mood.
pub proof fn lemma_mood_round_trip(mood: Mood)
    ensures
        mood_named(mood_text(mood)) == mood,
{
    reveal_strlit("focused");
    reveal_strlit("tired");
    reveal_strlit("happy");
    assert("focused"@ != "tired"@) by {
        assert("focused"@[0] != "tired"@[0]);
    }
    assert("focused"@ != "happy"@) by {
        assert("focused"@[0] != "happy"@[0]);
    }
    assert("tired"@ != "happy"@) by {
        assert("tired"@[0] != "happy"@[0]);
    }
}

/// Reading back the parts saved for a quest target gives the target.
pub proof fn lemma_target_round_trip(target: QuestTarget)
    ensures
        target_named(target_kind_text(target), target_value(target)) == target,
{
    reveal_strlit("study_minutes");
    reveal_strlit("complete_sessions");
    assert("study_minutes"@ != "complete_sessions"@) by {
        assert("study_minutes"@[0] != "complete_sessions"@[0]);
    }
}

} // verus!
