//! The level curve: how much XP each level takes, and where a total lands on it.
use vstd::prelude::*;

verus! {

/// Where a total amount of XP stands on the level curve.
#[derive(Debug, Clone, Copy, PartialEq, Eq)]
pub struct LevelProgress {
    pub level: u32,
    pub total_xp: u32,
    pub xp_into_level: u32,
    pub xp_for_next_level: u32,
}

/// `0 + 1 + ... + n`.
pub open spec fn triangular_spec(n: int) -> int
    decreases n,
{
    if n <= 0 {
        0
    } else {
        triangular_spec(n - 1) + n
    }
}

/// XP needed to go from `level` to `level + 1`; levels below 1 count as level 1.
pub open spec fn required_xp_spec(level: int) -> int {
    if level <= 1 {
        100
    } else if level == 2 {
        150
    } else if level == 3 {
        220
    } else if level == 4 {
        300
    } else {
        300 + (level - 4) * 100 + triangular_spec(level - 4) * 25
    }
}

/// Total XP a player holds on reaching `level` from level 1 with no XP.
pub open spec fn xp_before_level(level: int) -> int
    decreases level,
{
    if level <= 1 {
        0
    } else {
        xp_before_level(level - 1) + required_xp_spec(level - 1)
    }
}

/// `p` describes the total `total_xp`: the level reached, the XP gathered inside it
/// and the XP that level takes.
pub open spec fn is_progress_of(p: LevelProgress, total_xp: u32) -> bool {
    &&& p.level >= 1
    &&& p.total_xp == total_xp
    &&& xp_before_level(p.level as int) + p.xp_into_level == total_xp
    &&& p.xp_into_level < p.xp_for_next_level
    &&& p.xp_for_next_level == required_xp_spec(p.level as int)
}

/// The one progress that describes `total_xp` (see `lemma_level_progress_unique`).
pub open spec fn level_progress_of(total_xp: u32) -> LevelProgress {
    choose|p: LevelProgress| is_progress_of(p, total_xp)
}

pub proof fn lemma_triangular_closed_form(n: int)
    requires
        n >= 0,
    ensures
        2 * triangular_spec(n) == n * (n + 1),
        triangular_spec(n) >= 0,
    decreases n,
{
    if n > 0 {
        lemma_triangular_closed_form(n - 1);
        assert(n * (n + 1) == (n - 1) * n + 2 * n) by (nonlinear_arith);
    }
}

pub proof fn lemma_triangular_monotonic(a: int, b: int)
    requires
        0 <= a <= b,
    ensures
        triangular_spec(a) <= triangular_spec(b),
    decreases b - a,
{
    if a < b {
        lemma_triangular_monotonic(a, b - 1);
    }
}

/// Every level takes at least 100 XP, and each level takes at least as much as the one before.
pub proof fn lemma_required_xp_grows(level: int)
    ensures
        required_xp_spec(level) >= 100,
        required_xp_spec(level) <= required_xp_spec(level + 1),
{
    if level >= 4 {
        lemma_triangular_monotonic(level - 4, level - 3);
        lemma_triangular_closed_form(level - 4);
    }
}

/// From level 3 on, a level never takes more XP than all the levels before it together.
proof fn lemma_required_within_reached(level: int)
    requires
        level >= 3,
    ensures
        required_xp_spec(level) <= xp_before_level(level),
{
    lemma_xp_before_level_nonneg(level - 2);
    assert(xp_before_level(level) == xp_before_level(level - 1) + required_xp_spec(level - 1));
    assert(xp_before_level(level - 1) == xp_before_level(level - 2) + required_xp_spec(level - 2));
    reveal_with_fuel(triangular_spec, 3);
    if level >= 7 {
        lemma_triangular_closed_form(level - 6);
        assert(triangular_spec(level - 4) == triangular_spec(level - 5) + (level - 4));
    }
}

pub proof fn lemma_xp_before_level_nonneg(level: int)
    ensures
        xp_before_level(level) >= 0,
        level >= 1 ==> xp_before_level(level) >= 100 * (level - 1),
    decreases level,
{
    if level > 1 {
        lemma_xp_before_level_nonneg(level - 1);
        lemma_required_xp_grows(level - 1);
    }
}

/// The XP reached before a level grows strictly with the level.
pub proof fn lemma_xp_before_level_strictly_increasing(a: int, b: int)
    requires
        1 <= a < b,
    ensures
        xp_before_level(a) + required_xp_spec(a) <= xp_before_level(b),
    decreases b - a,
{
    if a + 1 < b {
        lemma_xp_before_level_strictly_increasing(a, b - 1);
        lemma_required_xp_grows(b - 1);
    }
}

/// Any total of XP is described by exactly one level progress.
pub proof fn lemma_level_progress_unique(total_xp: u32, p: LevelProgress, q: LevelProgress)
    requires
        is_progress_of(p, total_xp),
        is_progress_of(q, total_xp),
    ensures
        p == q,
{
    if p.level < q.level {
        lemma_xp_before_level_strictly_increasing(p.level as int, q.level as int);
    } else if q.level < p.level {
        lemma_xp_before_level_strictly_increasing(q.level as int, p.level as int);
    }
}

/// `level_progress_of` is well defined: it describes its total.
pub proof fn lemma_level_progress_of(total_xp: u32)
    ensures
        is_progress_of(level_progress_of(total_xp), total_xp),
{
    let p = progress_witness(total_xp, 1);
    assert(is_progress_of(p, total_xp));
}

proof fn progress_witness(total_xp: u32, level: int) -> (p: LevelProgress)
    requires
        1 <= level,
        xp_before_level(level) <= total_xp,
    ensures
        is_progress_of(p, total_xp),
    decreases total_xp - xp_before_level(level),
{
    lemma_required_xp_grows(level);
    lemma_xp_before_level_nonneg(level);
    let needed = required_xp_spec(level);
    if total_xp - xp_before_level(level) < needed {
        if level >= 3 {
            lemma_required_within_reached(level);
        }
        LevelProgress {
            level: level as u32,
            total_xp,
            xp_into_level: (total_xp - xp_before_level(level)) as u32,
            xp_for_next_level: needed as u32,
        }
    } else {
        progress_witness(total_xp, level + 1)
    }
}

/// `n * (n + 1) / 2`, saturating the product at `u32::MAX`.
fn triangular(value: u32) -> (r: u32)
    requires
        value < u32::MAX,
    ensures
        value as int * (value as int + 1) <= u32::MAX ==> r == triangular_spec(value as int),
        value as int * (value as int + 1) > u32::MAX ==> r == u32::MAX / 2,
{
    proof {
        lemma_triangular_closed_form(value as int);
    }
    match value.checked_mul(value + 1) {
        Some(product) => product / 2,
        None => u32::MAX / 2,
    }
}

/// XP needed to go from `level` to `level + 1`.
pub fn required_xp_for_level(level: u32) -> (xp: u32)
    requires
        required_xp_spec(level as int) <= u32::MAX,
    ensures
        xp == required_xp_spec(level as int),
{
    let level = if level < 1 { 1 } else { level };
    match level {
        1 => 100,
        2 => 150,
        3 => 220,
        4 => 300,
        _ => {
            let extra_levels = level - 4;
            let t = triangular(extra_levels);
            proof {
                let e = extra_levels as int;
                lemma_triangular_closed_form(e);
                if e * (e + 1) > u32::MAX {
                    assert(triangular_spec(e) * 25 > u32::MAX) by (nonlinear_arith)
                        requires
                            2 * triangular_spec(e) == e * (e + 1),
                            e * (e + 1) > u32::MAX,
                    ;
                }
                assert(t == triangular_spec(e));
                assert(e * 100 >= 0) by (nonlinear_arith)
                    requires
                        e >= 0,
                ;
            }
            300 + extra_levels * 100 + t * 25
        },
    }
}

/// The level, in-level XP and next-level requirement reached with `total_xp`.
pub fn progress_from_total_xp(total_xp: u32) -> (p: LevelProgress)
    ensures
        p == level_progress_of(total_xp),
        is_progress_of(p, total_xp),
{
    let mut level: u32 = 1;
    let mut remaining: u32 = total_xp;
    loop
        invariant
            level >= 1,
            xp_before_level(level as int) + remaining == total_xp,
        decreases remaining,
    {
        proof {
            lemma_required_xp_grows(level as int);
            lemma_xp_before_level_nonneg(level as int);
            if level >= 3 {
                lemma_required_within_reached(level as int);
            }
        }
        let needed = required_xp_for_level(level);
        if remaining < needed {
            let p = LevelProgress {
                level,
                total_xp,
                xp_into_level: remaining,
                xp_for_next_level: needed,
            };
            proof {
                lemma_level_progress_of(total_xp);
                lemma_level_progress_unique(total_xp, p, level_progress_of(total_xp));
            }
            return p;
        }
        remaining = remaining - needed;
        level = level + 1;
    }
}

} // verus!
