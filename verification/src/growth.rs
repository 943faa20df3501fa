//! Growth events: the facts a finished session leaves behind.
use vstd::prelude::*;

verus! {

#[derive(Debug, PartialEq, Eq)]
pub struct GrowthEvent {
    pub id: u64,
    pub session_id: u64,
    pub topic: String,
    pub occurred_at_epoch_seconds: Option<u64>,
    pub kind: GrowthEventKind,
}

#[derive(Debug, PartialEq, Eq)]
pub enum GrowthEventKind {
    PlayerLevelChange { gained_xp: u32, level_before: u32, level_after: u32, total_xp_after: u32 },
    SkillGrowth {
        skill_id: u64,
        skill_name: String,
        gained_xp: u32,
        level_before: u32,
        level_after: u32,
        total_xp_after: u32,
    },
}

/// A growth event with its texts as character sequences.
#[verifier::ext_equal]
pub struct GrowthEventView {
    pub id: u64,
    pub session_id: u64,
    pub topic: Seq<char>,
    pub occurred_at_epoch_seconds: Option<u64>,
    pub kind: GrowthKindView,
}

pub enum GrowthKindView {
    PlayerLevelChange { gained_xp: u32, level_before: u32, level_after: u32, total_xp_after: u32 },
    SkillGrowth {
        skill_id: u64,
        skill_name: Seq<char>,
        gained_xp: u32,
        level_before: u32,
        level_after: u32,
        total_xp_after: u32,
    },
}

impl View for GrowthEventKind {
    type V = GrowthKindView;

    open spec fn view(&self) -> GrowthKindView {
        match self {
            GrowthEventKind::PlayerLevelChange {
                gained_xp,
                level_before,
                level_after,
                total_xp_after,
            } => GrowthKindView::PlayerLevelChange {
                gained_xp: *gained_xp,
                level_before: *level_before,
                level_after: *level_after,
                total_xp_after: *total_xp_after,
            },
            GrowthEventKind::SkillGrowth {
                skill_id,
                skill_name,
                gained_xp,
                level_before,
                level_after,
                total_xp_after,
            } => GrowthKindView::SkillGrowth {
                skill_id: *skill_id,
                skill_name: skill_name@,
                gained_xp: *gained_xp,
                level_before: *level_before,
                level_after: *level_after,
                total_xp_after: *total_xp_after,
            },
        }
    }
}

impl View for GrowthEvent {
    type V = GrowthEventView;

    open spec fn view(&self) -> GrowthEventView {
        GrowthEventView {
            id: self.id,
            session_id: self.session_id,
            topic: self.topic@,
            occurred_at_epoch_seconds: self.occurred_at_epoch_seconds,
            kind: self.kind@,
        }
    }
}

impl Clone for GrowthEventKind {
    fn clone(&self) -> (r: Self)
        ensures
            r == *self,
    {
        match self {
            GrowthEventKind::PlayerLevelChange {
                gained_xp,
                level_before,
                level_after,
                total_xp_after,
            } => GrowthEventKind::PlayerLevelChange {
                gained_xp: *gained_xp,
                level_before: *level_before,
                level_after: *level_after,
                total_xp_after: *total_xp_after,
            },
            GrowthEventKind::SkillGrowth {
                skill_id,
                skill_name,
                gained_xp,
                level_before,
                level_after,
                total_xp_after,
            } => GrowthEventKind::SkillGrowth {
                skill_id: *skill_id,
                skill_name: skill_name.clone(),
                gained_xp: *gained_xp,
                level_before: *level_before,
                level_after: *level_after,
                total_xp_after: *total_xp_after,
            },
        }
    }
}

impl Clone for GrowthEvent {
    fn clone(&self) -> (r: Self)
        ensures
            r == *self,
    {
        GrowthEvent {
            id: self.id,
            session_id: self.session_id,
            topic: self.topic.clone(),
            occurred_at_epoch_seconds: self.occurred_at_epoch_seconds,
            kind: self.kind.clone(),
        }
    }
}

} // verus!
