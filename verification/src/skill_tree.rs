//! The skill tree listing: every skill once, each child below its parent, depth-first.
use vstd::prelude::*;
use crate::skill::{Skill, SkillView};
use crate::study_rpg::{has_skill, skill_views};

verus! {

/// A skill with no parent, or whose parent id names no skill, starts a tree.
pub open spec fn is_tree_root(skills: Seq<SkillView>, i: int) -> bool {
    match skills[i].parent_id {
        None => true,
        Some(p) => !has_skill(skills, p),
    }
}

/// Skill `child` names skill `parent` as its parent.
pub open spec fn is_child_of(skills: Seq<SkillView>, child: int, parent: int) -> bool {
    skills[child].parent_id == Some(skills[parent].id)
}

/// No skill is listed twice.
pub open spec fn entries_distinct(order: Seq<(usize, u32)>) -> bool {
    forall|a: int, b: int| 0 <= a < b < order.len() ==> (#[trigger] order[a]).0 != (#[trigger] order[b]).0
}

/// The entry at `k`, when indented, sits below its parent: the nearest earlier entry one level
/// shallower is a skill that `k` names as parent, and nothing in between is shallower than `k`.
pub open spec fn hangs_below_parent(skills: Seq<SkillView>, order: Seq<(usize, u32)>, k: int) -> bool {
    order[k].1 > 0 ==> exists|p: int|
        #![trigger order[p]]
        0 <= p < k && order[p].1 + 1 == order[k].1 && is_child_of(skills, order[k].0 as int, order[p].0 as int)
            && forall|q: int| p < q < k ==> (#[trigger] order[q]).1 >= order[k].1
}

/// A skill listed after one of its parents is indented (it is not started as a new tree).
pub open spec fn children_nested(skills: Seq<SkillView>, order: Seq<(usize, u32)>) -> bool {
    forall|a: int, b: int|
        0 <= a < b < order.len() && is_child_of(skills, (#[trigger] order[b]).0 as int, (#[trigger] order[a]).0 as int)
            ==> order[b].1 > 0
}

/// The entries that start a tree: first the real roots, then the skills caught in parent cycles,
/// each group in list order.
pub open spec fn tops_ordered(skills: Seq<SkillView>, order: Seq<(usize, u32)>) -> bool {
    forall|a: int, b: int|
        0 <= a < b < order.len() && (#[trigger] order[a]).1 == 0 && (#[trigger] order[b]).1 == 0 ==> {
            ||| is_tree_root(skills, order[a].0 as int) && !is_tree_root(skills, order[b].0 as int)
            ||| is_tree_root(skills, order[a].0 as int) == is_tree_root(skills, order[b].0 as int)
                && order[a].0 < order[b].0
        }
}

/// No entry strictly between `a` and `b` is shallower than `depth`.
pub open spec fn none_shallower_between(order: Seq<(usize, u32)>, a: int, b: int, depth: u32) -> bool {
    forall|q: int| a < q < b ==> (#[trigger] order[q]).1 >= depth
}

/// Children listed under the same parent entry come in list order: two indented entries of
/// one depth with nothing shallower between them are in increasing position.
pub open spec fn siblings_in_list_order(order: Seq<(usize, u32)>) -> bool {
    forall|a: int, b: int|
        0 <= a < b < order.len() && (#[trigger] order[a]).1 == (#[trigger] order[b]).1 && order[a].1 > 0
            && none_shallower_between(order, a, b, order[a].1) ==> order[a].0 < order[b].0
}

/// `order` lists every skill exactly once, as (position, depth), parents before their children.
pub open spec fn is_skill_tree_order(skills: Seq<SkillView>, order: Seq<(usize, u32)>) -> bool {
    &&& order.len() == skills.len()
    &&& forall|k: int| 0 <= k < order.len() ==> (#[trigger] order[k]).0 < skills.len()
    &&& entries_distinct(order)
    &&& forall|k: int| 0 <= k < order.len() ==> #[trigger] hangs_below_parent(skills, order, k)
    &&& children_nested(skills, order)
    &&& tops_ordered(skills, order)
    &&& siblings_in_list_order(order)
    &&& follows_depth_first(skills, order)
}

pub open spec fn count_true(v: Seq<bool>) -> int
    decreases v.len(),
{
    if v.len() == 0 {
        0
    } else {
        count_true(v.drop_last()) + if v.last() {
            1int
        } else {
            0
        }
    }
}

proof fn lemma_count_true_bounds(v: Seq<bool>)
    ensures
        0 <= count_true(v) <= v.len(),
        (forall|j: int| 0 <= j < v.len() ==> v[j]) ==> count_true(v) == v.len(),
    decreases v.len(),
{
    if v.len() > 0 {
        lemma_count_true_bounds(v.drop_last());
    }
}

proof fn lemma_count_true_set(v: Seq<bool>, i: int)
    requires
        0 <= i < v.len(),
        !v[i],
    ensures
        count_true(v.update(i, true)) == count_true(v) + 1,
    decreases v.len(),
{
    if i < v.len() - 1 {
        assert(v.update(i, true).drop_last() =~= v.drop_last().update(i, true));
        lemma_count_true_set(v.drop_last(), i);
    } else {
        assert(v.update(i, true).drop_last() =~= v.drop_last());
    }
}

/// Skill `j` is listed in `order`.
pub open spec fn is_listed(order: Seq<(usize, u32)>, j: int) -> bool {
    exists|k: int| 0 <= k < order.len() && (#[trigger] order[k]).0 == j
}

/// `visited` marks exactly the listed skills, which are distinct and in range.
pub open spec fn tracks(n: int, visited: Seq<bool>, order: Seq<(usize, u32)>) -> bool {
    &&& visited.len() == n
    &&& forall|k: int| 0 <= k < order.len() ==> (#[trigger] order[k]).0 < n && visited[order[k].0 as int]
    &&& forall|j: int| 0 <= j < n && #[trigger] visited[j] ==> is_listed(order, j)
    &&& entries_distinct(order)
    &&& count_true(visited) == order.len()
}

/// Every child of the skills listed from `from` on is listed.
pub open spec fn complete_from(skills: Seq<SkillView>, visited: Seq<bool>, order: Seq<(usize, u32)>, from: int) -> bool {
    forall|k: int, j: int|
        from <= k < order.len() && 0 <= j < skills.len() && is_child_of(skills, j, (#[trigger] order[k]).0 as int)
            ==> #[trigger] visited[j]
}

/// Entry `p` is still open after `prefix`: every later entry lies deeper.
pub open spec fn is_open(prefix: Seq<(usize, u32)>, p: int) -> bool {
    &&& 0 <= p < prefix.len()
    &&& forall|q: int| p < q < prefix.len() ==> (#[trigger] prefix[q]).1 > prefix[p].1
}

/// Some child of the skill at entry `p` is not listed in `prefix` yet.
pub open spec fn has_unlisted_child(skills: Seq<SkillView>, prefix: Seq<(usize, u32)>, p: int) -> bool {
    exists|c: int|
        #![trigger skills[c]]
        0 <= c < skills.len() && is_child_of(skills, c, prefix[p].0 as int) && !is_listed(prefix, c)
}

/// `c` is the first skill in list order that is a child of entry `p` and not listed yet.
pub open spec fn is_first_unlisted_child(skills: Seq<SkillView>, prefix: Seq<(usize, u32)>, p: int, c: int) -> bool {
    &&& 0 <= c < skills.len()
    &&& is_child_of(skills, c, prefix[p].0 as int)
    &&& !is_listed(prefix, c)
    &&& forall|d: int| 0 <= d < c && is_child_of(skills, d, prefix[p].0 as int) ==> #[trigger] is_listed(prefix, d)
}

/// `p` is the deepest open entry that still has an unlisted child.
pub open spec fn is_deepest_open_with_child(skills: Seq<SkillView>, prefix: Seq<(usize, u32)>, p: int) -> bool {
    &&& is_open(prefix, p)
    &&& has_unlisted_child(skills, prefix, p)
    &&& forall|q: int| p < q < prefix.len() && #[trigger] is_open(prefix, q) ==> !has_unlisted_child(skills, prefix, q)
}

/// No open entry of `prefix` has an unlisted child.
pub open spec fn no_open_entry_has_child(skills: Seq<SkillView>, prefix: Seq<(usize, u32)>) -> bool {
    forall|q: int| 0 <= q < prefix.len() && #[trigger] is_open(prefix, q) ==> !has_unlisted_child(skills, prefix, q)
}

/// Some tree root is not listed in `prefix` yet.
pub open spec fn has_unlisted_root(skills: Seq<SkillView>, prefix: Seq<(usize, u32)>) -> bool {
    exists|r: int| #![trigger skills[r]] 0 <= r < skills.len() && is_tree_root(skills, r) && !is_listed(prefix, r)
}

/// `r` is the first tree root in list order that is not listed yet.
pub open spec fn is_first_unlisted_root(skills: Seq<SkillView>, prefix: Seq<(usize, u32)>, r: int) -> bool {
    &&& 0 <= r < skills.len()
    &&& is_tree_root(skills, r)
    &&& !is_listed(prefix, r)
    &&& forall|d: int| 0 <= d < r && is_tree_root(skills, d) ==> #[trigger] is_listed(prefix, d)
}

/// `r` is the first skill in list order that is not listed yet.
pub open spec fn is_first_unlisted(skills: Seq<SkillView>, prefix: Seq<(usize, u32)>, r: int) -> bool {
    &&& 0 <= r < skills.len()
    &&& !is_listed(prefix, r)
    &&& forall|d: int| 0 <= d < r ==> #[trigger] is_listed(prefix, d)
}

/// `e` is the entry that comes after `prefix` in the depth-first listing: the first unlisted
/// child of the deepest open entry that has one, one level deeper than that entry; when no open
/// entry has one, the first unlisted root; when every root is listed too, the first unlisted
/// skill, which hangs off a parent cycle (both at depth 0).
pub open spec fn is_next_entry(skills: Seq<SkillView>, prefix: Seq<(usize, u32)>, e: (usize, u32)) -> bool {
    ||| exists|p: int|
        is_deepest_open_with_child(skills, prefix, p) && is_first_unlisted_child(skills, prefix, p, e.0 as int)
            && e.1 == prefix[p].1 + 1
    ||| no_open_entry_has_child(skills, prefix) && is_first_unlisted_root(skills, prefix, e.0 as int) && e.1 == 0
    ||| no_open_entry_has_child(skills, prefix) && !has_unlisted_root(skills, prefix) && is_first_unlisted(
        skills,
        prefix,
        e.0 as int,
    ) && e.1 == 0
}

/// Each entry is the one the depth-first listing puts after the entries before it.
pub open spec fn follows_depth_first(skills: Seq<SkillView>, order: Seq<(usize, u32)>) -> bool {
    forall|k: int| 0 <= k < order.len() ==> #[trigger] is_next_entry(skills, order.subrange(0, k), order[k])
}

/// After a given prefix, at most one entry comes next.
pub proof fn lemma_next_entry_unique(skills: Seq<SkillView>, prefix: Seq<(usize, u32)>, a: (usize, u32), b: (usize, u32))
    requires
        is_next_entry(skills, prefix, a),
        is_next_entry(skills, prefix, b),
    ensures
        a == b,
{
    if exists|p: int|
        is_deepest_open_with_child(skills, prefix, p) && is_first_unlisted_child(skills, prefix, p, a.0 as int)
            && a.1 == prefix[p].1 + 1 {
        let p = choose|p: int|
            is_deepest_open_with_child(skills, prefix, p) && is_first_unlisted_child(skills, prefix, p, a.0 as int)
                && a.1 == prefix[p].1 + 1;
        assert(!no_open_entry_has_child(skills, prefix)) by {
            assert(is_open(prefix, p));
        }
        let q = choose|q: int|
            is_deepest_open_with_child(skills, prefix, q) && is_first_unlisted_child(skills, prefix, q, b.0 as int)
                && b.1 == prefix[q].1 + 1;
        if p < q {
            assert(is_open(prefix, q));
        } else if q < p {
            assert(is_open(prefix, p));
        }
        if (a.0 as int) < (b.0 as int) {
            assert(is_listed(prefix, a.0 as int));
        } else if (b.0 as int) < (a.0 as int) {
            assert(is_listed(prefix, b.0 as int));
        }
    } else if exists|p: int|
        is_deepest_open_with_child(skills, prefix, p) && is_first_unlisted_child(skills, prefix, p, b.0 as int)
            && b.1 == prefix[p].1 + 1 {
        let p = choose|p: int|
            is_deepest_open_with_child(skills, prefix, p) && is_first_unlisted_child(skills, prefix, p, b.0 as int)
                && b.1 == prefix[p].1 + 1;
        assert(is_open(prefix, p));
    } else {
        if is_first_unlisted_root(skills, prefix, a.0 as int) && is_first_unlisted_root(skills, prefix, b.0 as int) {
            if (a.0 as int) < (b.0 as int) {
                assert(is_listed(prefix, a.0 as int));
            } else if (b.0 as int) < (a.0 as int) {
                assert(is_listed(prefix, b.0 as int));
            }
        } else if is_first_unlisted_root(skills, prefix, a.0 as int) {
            assert(skills[a.0 as int] == skills[a.0 as int]);
        } else if is_first_unlisted_root(skills, prefix, b.0 as int) {
            assert(skills[b.0 as int] == skills[b.0 as int]);
        } else {
            if (a.0 as int) < (b.0 as int) {
                assert(is_listed(prefix, a.0 as int));
            } else if (b.0 as int) < (a.0 as int) {
                assert(is_listed(prefix, b.0 as int));
            }
        }
    }
}

proof fn lemma_follows_push(skills: Seq<SkillView>, order: Seq<(usize, u32)>, e: (usize, u32))
    requires
        follows_depth_first(skills, order),
        is_next_entry(skills, order, e),
    ensures
        follows_depth_first(skills, order.push(e)),
{
    let longer = order.push(e);
    assert forall|k: int| 0 <= k < longer.len() implies #[trigger] is_next_entry(
        skills,
        longer.subrange(0, k),
        longer[k],
    ) by {
        if k < order.len() {
            assert(longer.subrange(0, k) =~= order.subrange(0, k));
            assert(longer[k] == order[k]);
            assert(is_next_entry(skills, order.subrange(0, k), order[k]));
        } else {
            assert(longer.subrange(0, k) =~= order);
        }
    }
}

/// Every child of a listed entry is listed (given `complete_from` from 0).
proof fn lemma_no_open_entry_has_child(skills: Seq<SkillView>, visited: Seq<bool>, order: Seq<(usize, u32)>)
    requires
        tracks(skills.len() as int, visited, order),
        complete_from(skills, visited, order, 0),
    ensures
        no_open_entry_has_child(skills, order),
{
    assert forall|q: int| 0 <= q < order.len() && #[trigger] is_open(order, q) implies !has_unlisted_child(
        skills,
        order,
        q,
    ) by {
        if has_unlisted_child(skills, order, q) {
            let c = choose|c: int|
                #![trigger skills[c]]
                0 <= c < skills.len() && is_child_of(skills, c, order[q].0 as int) && !is_listed(order, c);
            assert(visited[c]);
        }
    }
}

/// Inside the entry at `start` for skill `i`, its next unvisited child `j` comes next.
proof fn lemma_child_comes_next(
    skills: Seq<SkillView>,
    visited: Seq<bool>,
    order: Seq<(usize, u32)>,
    start: int,
    i: usize,
    depth: u32,
    j: usize,
)
    requires
        tracks(skills.len() as int, visited, order),
        0 <= start < order.len(),
        order[start] == (i, depth),
        depth < u32::MAX,
        forall|q: int| start < q < order.len() ==> (#[trigger] order[q]).1 > depth,
        complete_from(skills, visited, order, start + 1),
        j < skills.len(),
        is_child_of(skills, j as int, i as int),
        !visited[j as int],
        forall|c: int| 0 <= c < j && is_child_of(skills, c, i as int) ==> #[trigger] visited[c],
    ensures
        is_next_entry(skills, order, (j, (depth + 1) as u32)),
{
    let n = skills.len() as int;
    assert(!is_listed(order, j as int)) by {
        if is_listed(order, j as int) {
            let k = choose|k: int| 0 <= k < order.len() && (#[trigger] order[k]).0 == j as int;
            assert(visited[order[k].0 as int]);
        }
    }
    assert(skills[j as int] == skills[j as int]);
    assert(has_unlisted_child(skills, order, start));
    assert(is_open(order, start));
    assert forall|q: int| start < q < order.len() && #[trigger] is_open(order, q) implies !has_unlisted_child(
        skills,
        order,
        q,
    ) by {
        if has_unlisted_child(skills, order, q) {
            let c = choose|c: int|
                #![trigger skills[c]]
                0 <= c < skills.len() && is_child_of(skills, c, order[q].0 as int) && !is_listed(order, c);
            assert(visited[c]);
        }
    }
    assert forall|d: int| 0 <= d < j && is_child_of(skills, d, order[start].0 as int) implies #[trigger] is_listed(
        order,
        d,
    ) by {
        assert(visited[d]);
    }
    assert(is_deepest_open_with_child(skills, order, start));
    assert(is_first_unlisted_child(skills, order, start, j as int));
}

/// With every listed entry's children listed, the first unvisited root comes next.
proof fn lemma_root_comes_next(skills: Seq<SkillView>, visited: Seq<bool>, order: Seq<(usize, u32)>, i: usize)
    requires
        tracks(skills.len() as int, visited, order),
        complete_from(skills, visited, order, 0),
        i < skills.len(),
        is_tree_root(skills, i as int),
        !visited[i as int],
        forall|r: int| 0 <= r < i && is_tree_root(skills, r) ==> #[trigger] visited[r],
    ensures
        is_next_entry(skills, order, (i, 0u32)),
{
    lemma_no_open_entry_has_child(skills, visited, order);
    assert(!is_listed(order, i as int)) by {
        if is_listed(order, i as int) {
            let k = choose|k: int| 0 <= k < order.len() && (#[trigger] order[k]).0 == i as int;
            assert(visited[order[k].0 as int]);
        }
    }
    assert forall|d: int| 0 <= d < i && is_tree_root(skills, d) implies #[trigger] is_listed(order, d) by {
        assert(visited[d]);
    }
    assert(is_first_unlisted_root(skills, order, i as int));
}

/// With every root listed, and every listed entry's children too, the first unvisited skill
/// comes next.
proof fn lemma_cycle_member_comes_next(skills: Seq<SkillView>, visited: Seq<bool>, order: Seq<(usize, u32)>, i: usize)
    requires
        tracks(skills.len() as int, visited, order),
        complete_from(skills, visited, order, 0),
        i < skills.len(),
        !visited[i as int],
        forall|r: int| 0 <= r < skills.len() && is_tree_root(skills, r) ==> #[trigger] visited[r],
        forall|r: int| 0 <= r < i ==> #[trigger] visited[r],
    ensures
        is_next_entry(skills, order, (i, 0u32)),
{
    lemma_no_open_entry_has_child(skills, visited, order);
    assert(!is_listed(order, i as int)) by {
        if is_listed(order, i as int) {
            let k = choose|k: int| 0 <= k < order.len() && (#[trigger] order[k]).0 == i as int;
            assert(visited[order[k].0 as int]);
        }
    }
    assert(!has_unlisted_root(skills, order)) by {
        if has_unlisted_root(skills, order) {
            let r = choose|r: int|
                #![trigger skills[r]]
                0 <= r < skills.len() && is_tree_root(skills, r) && !is_listed(order, r);
            assert(visited[r]);
        }
    }
    assert forall|d: int| 0 <= d < i implies #[trigger] is_listed(order, d) by {
        assert(visited[d]);
    }
    assert(is_first_unlisted(skills, order, i as int));
}

proof fn lemma_prefixes_agree(skills: Seq<SkillView>, a: Seq<(usize, u32)>, b: Seq<(usize, u32)>, k: int)
    requires
        follows_depth_first(skills, a),
        follows_depth_first(skills, b),
        0 <= k <= a.len(),
        k <= b.len(),
    ensures
        a.subrange(0, k) == b.subrange(0, k),
    decreases k,
{
    if k > 0 {
        lemma_prefixes_agree(skills, a, b, k - 1);
        assert(is_next_entry(skills, a.subrange(0, k - 1), a[k - 1]));
        assert(is_next_entry(skills, b.subrange(0, k - 1), b[k - 1]));
        lemma_next_entry_unique(skills, a.subrange(0, k - 1), a[k - 1], b[k - 1]);
        assert(a.subrange(0, k) =~= a.subrange(0, k - 1).push(a[k - 1]));
        assert(b.subrange(0, k) =~= b.subrange(0, k - 1).push(b[k - 1]));
    }
}

/// The skill tree order of a list of skills is one order: two listings that both meet
/// `is_skill_tree_order` are the same.
pub proof fn lemma_skill_tree_order_unique(skills: Seq<SkillView>, a: Seq<(usize, u32)>, b: Seq<(usize, u32)>)
    requires
        is_skill_tree_order(skills, a),
        is_skill_tree_order(skills, b),
    ensures
        a == b,
{
    lemma_prefixes_agree(skills, a, b, a.len() as int);
    assert(a =~= a.subrange(0, a.len() as int));
    assert(b =~= b.subrange(0, b.len() as int));
}

pub open spec fn all_hang(skills: Seq<SkillView>, order: Seq<(usize, u32)>) -> bool {
    forall|k: int| 0 <= k < order.len() ==> #[trigger] hangs_below_parent(skills, order, k)
}

proof fn lemma_hang_prefix(skills: Seq<SkillView>, old_order: Seq<(usize, u32)>, order: Seq<(usize, u32)>)
    requires
        all_hang(skills, old_order),
        old_order.len() <= order.len(),
        order.subrange(0, old_order.len() as int) == old_order,
    ensures
        forall|k: int| 0 <= k < old_order.len() ==> #[trigger] hangs_below_parent(skills, order, k),
{
    assert forall|k: int| 0 <= k < old_order.len() implies #[trigger] hangs_below_parent(skills, order, k) by {
        assert(hangs_below_parent(skills, old_order, k));
        assert(order[k] == old_order[k]);
        if order[k].1 > 0 {
            let p = choose|p: int|
                #![trigger old_order[p]]
                0 <= p < k && old_order[p].1 + 1 == old_order[k].1 && is_child_of(
                    skills,
                    old_order[k].0 as int,
                    old_order[p].0 as int,
                ) && forall|q: int| p < q < k ==> (#[trigger] old_order[q]).1 >= old_order[k].1;
            assert(order[p] == old_order[p]);
            assert forall|q: int| p < q < k implies (#[trigger] order[q]).1 >= order[k].1 by {
                assert(order[q] == old_order[q]);
            }
        }
    }
}

/// An entry of `depth` for skill `i` may follow `order` when every earlier sibling it would
/// get (an entry of that depth with nothing shallower after it) has a smaller position.
pub open spec fn may_follow(order: Seq<(usize, u32)>, i: usize, depth: u32) -> bool {
    depth > 0 ==> forall|a: int|
        0 <= a < order.len() && (#[trigger] order[a]).1 == depth && none_shallower_between(
            order,
            a,
            order.len() as int,
            depth,
        ) ==> order[a].0 < i
}

proof fn lemma_siblings_push(order: Seq<(usize, u32)>, i: usize, depth: u32)
    requires
        siblings_in_list_order(order),
        may_follow(order, i, depth),
    ensures
        siblings_in_list_order(order.push((i, depth))),
{
    let longer = order.push((i, depth));
    assert forall|a: int, b: int|
        0 <= a < b < longer.len() && (#[trigger] longer[a]).1 == (#[trigger] longer[b]).1 && longer[a].1 > 0
            && none_shallower_between(longer, a, b, longer[a].1) implies longer[a].0 < longer[b].0 by {
        assert(longer[a] == order[a]);
        if b < order.len() {
            assert(longer[b] == order[b]);
            assert forall|q: int| a < q < b implies (#[trigger] order[q]).1 >= order[a].1 by {
                assert(longer[q] == order[q]);
            }
            assert(none_shallower_between(order, a, b, order[a].1));
        } else {
            assert forall|q: int| a < q < order.len() implies (#[trigger] order[q]).1 >= depth by {
                assert(longer[q] == order[q]);
            }
            assert(none_shallower_between(order, a, order.len() as int, depth));
        }
    }
}

/// Inside the entry at `start`, a child of position `j` may follow once every child listed so
/// far has a smaller position.
proof fn lemma_next_child_may_follow(order: Seq<(usize, u32)>, start: int, depth: u32, j: usize)
    requires
        0 <= start < order.len(),
        order[start].1 == depth,
        depth < u32::MAX,
        forall|q: int| start < q < order.len() && (#[trigger] order[q]).1 == depth + 1 ==> order[q].0 < j,
    ensures
        may_follow(order, j, (depth + 1) as u32),
{
    assert forall|a: int|
        0 <= a < order.len() && (#[trigger] order[a]).1 == depth + 1 && none_shallower_between(
            order,
            a,
            order.len() as int,
            (depth + 1) as u32,
        ) implies order[a].0 < j by {
        if a < start {
            assert(order[start].1 >= depth + 1);
        }
    }
}

/// Lists skill `i` at `depth`, then, depth first, every unlisted child of it in list order.
#[verifier::spinoff_prover]
#[verifier::rlimit(40)]
fn visit(skills: &[Skill], i: usize, depth: u32, visited: &mut Vec<bool>, order: &mut Vec<(usize, u32)>)
    requires
        i < skills@.len(),
        tracks(skills@.len() as int, old(visited)@, old(order)@),
        !old(visited)@[i as int],
        depth + skills@.len() - old(order)@.len() <= u32::MAX,
        all_hang(skill_views(skills@), old(order)@),
        children_nested(skill_views(skills@), old(order)@),
        depth == 0 ==> forall|k: int|
            0 <= k < old(order)@.len() ==> !is_child_of(skill_views(skills@), i as int, (#[trigger] old(order)@[k]).0 as int),
        depth > 0 ==> exists|p: int|
            #![trigger old(order)@[p]]
            0 <= p < old(order)@.len() && old(order)@[p].1 + 1 == depth && is_child_of(
                skill_views(skills@),
                i as int,
                old(order)@[p].0 as int,
            ) && forall|q: int| p < q < old(order)@.len() ==> (#[trigger] old(order)@[q]).1 >= depth,
        siblings_in_list_order(old(order)@),
        may_follow(old(order)@, i, depth),
        follows_depth_first(skill_views(skills@), old(order)@),
        is_next_entry(skill_views(skills@), old(order)@, (i, depth)),
    ensures
        siblings_in_list_order(final(order)@),
        follows_depth_first(skill_views(skills@), final(order)@),
        tracks(skills@.len() as int, final(visited)@, final(order)@),
        final(order)@.len() > old(order)@.len(),
        final(order)@.subrange(0, old(order)@.len() as int) == old(order)@,
        final(order)@[old(order)@.len() as int] == (i, depth),
        forall|q: int| old(order)@.len() < q < final(order)@.len() ==> (#[trigger] final(order)@[q]).1 > depth,
        forall|j: int| 0 <= j < skills@.len() && old(visited)@[j] ==> #[trigger] final(visited)@[j],
        complete_from(skill_views(skills@), final(visited)@, final(order)@, old(order)@.len() as int),
        all_hang(skill_views(skills@), final(order)@),
        children_nested(skill_views(skills@), final(order)@),
    decreases (skills@.len() - old(order)@.len()) as nat,
{
    let ghost views = skill_views(skills@);
    let ghost n = skills@.len() as int;
    let ghost start_order = order@;
    let ghost start_visited = visited@;
    proof {
        lemma_count_true_bounds(visited@);
        lemma_count_true_set(visited@, i as int);
    }
    visited.set(i, true);
    order.push((i, depth));
    let start = order.len() - 1;
    proof {
        lemma_siblings_push(start_order, i, depth);
        lemma_follows_push(views, start_order, (i, depth));
        assert(order@.subrange(0, start as int) =~= start_order);
        lemma_hang_prefix(views, start_order, order@);
        assert(hangs_below_parent(views, order@, start as int)) by {
            if depth > 0 {
                let p = choose|p: int|
                    #![trigger start_order[p]]
                    0 <= p < start_order.len() && start_order[p].1 + 1 == depth && is_child_of(
                        views,
                        i as int,
                        start_order[p].0 as int,
                    ) && forall|q: int| p < q < start_order.len() ==> (#[trigger] start_order[q]).1 >= depth;
                assert(order@[p] == start_order[p]);
                assert forall|q: int| p < q < start implies (#[trigger] order@[q]).1 >= order@[start as int].1 by {
                    assert(order@[q] == start_order[q]);
                }
            }
        }
        assert(is_listed(order@, i as int)) by {
            assert(order@[start as int].0 == i);
        }
        assert forall|j: int| 0 <= j < n && #[trigger] visited@[j] implies is_listed(order@, j) by {
            if j != i {
                assert(start_visited[j]);
                let k = choose|k: int| 0 <= k < start_order.len() && (#[trigger] start_order[k]).0 == j;
                assert(order@[k] == start_order[k]);
            }
        }
        assert forall|a: int, b: int| 0 <= a < b < order@.len() implies (#[trigger] order@[a]).0 != (#[trigger] order@[b]).0 by {
            if b == start {
                assert(order@[a] == start_order[a]);
                assert(start_visited[start_order[a].0 as int]);
            } else {
                assert(order@[a] == start_order[a]);
                assert(order@[b] == start_order[b]);
            }
        }
        assert forall|a: int, b: int|
            0 <= a < b < order@.len() && is_child_of(views, (#[trigger] order@[b]).0 as int, (#[trigger] order@[a]).0 as int)
                implies order@[b].1 > 0 by {
            assert(order@[a] == start_order[a]);
            if b < start {
                assert(order@[b] == start_order[b]);
            }
        }
    }
    let mut j: usize = 0;
    while j < skills.len()
        invariant
            n == skills@.len(),
            views == skill_views(skills@),
            i < n,
            start == start_order.len(),
            start_order == old(order)@,
            tracks(n, visited@, order@),
            order@.len() > start,
            order@.subrange(0, start as int) == start_order,
            order@[start as int] == (i, depth),
            forall|q: int| start < q < order@.len() ==> (#[trigger] order@[q]).1 > depth,
            forall|k: int| 0 <= k < n && start_visited[k] ==> #[trigger] visited@[k],
            j <= n,
            forall|c: int| 0 <= c < j && is_child_of(views, c, i as int) ==> #[trigger] visited@[c],
            complete_from(views, visited@, order@, start + 1),
            all_hang(views, order@),
            children_nested(views, order@),
            depth + n - start_order.len() <= u32::MAX,
            siblings_in_list_order(order@),
            follows_depth_first(views, order@),
            forall|q: int| start < q < order@.len() && (#[trigger] order@[q]).1 == depth + 1 ==> order@[q].0 < j,
        decreases n - j,
    {
        if !visited[j] && skills[j].parent_id == Some(skills[i].id) {
            let ghost before_order = order@;
            let ghost before_visited = visited@;
            proof {
                lemma_count_true_bounds(visited@);
                assert(is_child_of(views, j as int, i as int));
                assert(order@[start as int].1 + 1 == depth + 1);
                assert forall|q: int| start < q < order@.len() implies (#[trigger] order@[q]).1 >= depth + 1 by {}
                assert(n - order@.len() >= 0);
                assert(n - order@.len() < n - start_order.len());
                assert(((n - order@.len()) as nat) < ((n - start_order.len()) as nat));
                lemma_next_child_may_follow(order@, start as int, depth, j);
                lemma_child_comes_next(views, visited@, order@, start as int, i, depth, j);
            }
            visit(skills, j, depth + 1, visited, order);
            proof {
                assert(order@.subrange(0, start as int) =~= start_order) by {
                    assert forall|q: int| 0 <= q < start implies order@[q] == start_order[q] by {
                        assert(order@.subrange(0, before_order.len() as int)[q] == before_order[q]);
                        assert(before_order.subrange(0, start as int)[q] == start_order[q]);
                    }
                }
                assert(order@[start as int] == before_order[start as int]) by {
                    assert(order@.subrange(0, before_order.len() as int)[start as int] == before_order[start as int]);
                }
                assert forall|q: int| start < q < order@.len() implies (#[trigger] order@[q]).1 > depth by {
                    if q < before_order.len() {
                        assert(order@.subrange(0, before_order.len() as int)[q] == before_order[q]);
                    }
                }
                assert forall|q: int| start < q < order@.len() && (#[trigger] order@[q]).1 == depth + 1 implies order@[q].0 < j + 1 by {
                    if q < before_order.len() {
                        assert(order@.subrange(0, before_order.len() as int)[q] == before_order[q]);
                    }
                }
                assert forall|k: int, c: int|
                    start + 1 <= k < order@.len() && 0 <= c < n && is_child_of(views, c, (#[trigger] order@[k]).0 as int)
                        implies #[trigger] visited@[c] by {
                    if k < before_order.len() {
                        assert(order@.subrange(0, before_order.len() as int)[k] == before_order[k]);
                        assert(before_visited[c]);
                    }
                }
            }
        }
        j = j + 1;
    }
    proof {
        assert forall|k: int, c: int|
            start_order.len() <= k < order@.len() && 0 <= c < n && is_child_of(views, c, (#[trigger] order@[k]).0 as int)
                implies #[trigger] visited@[c] by {
            if k == start {
                assert(order@[k].0 == i);
            }
        }
    }
}

fn is_root_at(skills: &[Skill], i: usize) -> (r: bool)
    requires
        i < skills@.len(),
    ensures
        r == is_tree_root(skill_views(skills@), i as int),
{
    match skills[i].parent_id {
        None => true,
        Some(parent) => {
            assert(skill_views(skills@)[i as int].parent_id == Some(parent));
            let mut k: usize = 0;
            while k < skills.len()
                invariant
                    k <= skills@.len(),
                    i < skills@.len(),
                    skill_views(skills@)[i as int].parent_id == Some(parent),
                    forall|m: int| 0 <= m < k ==> skills@[m].id != parent,
                decreases skills@.len() - k,
            {
                if skills[k].id == parent {
                    assert(skill_views(skills@)[k as int].id == parent);
                    return false;
                }
                k = k + 1;
            }
            proof {
                let views = skill_views(skills@);
                assert forall|m: int| 0 <= m < views.len() implies views[m].id != parent by {
                    assert(views[m].id == skills@[m].id);
                }
            }
            true
        },
    }
}

/// The skills in tree order: roots in list order, each followed depth first by its children in
/// list order; skills that only hang off a parent cycle come last. Each entry is the skill's
/// position and its depth.
pub fn skill_tree_order(skills: &[Skill]) -> (order: Vec<(usize, u32)>)
    requires
        skills@.len() <= u32::MAX,
    ensures
        is_skill_tree_order(skill_views(skills@), order@),
{
    let ghost views = skill_views(skills@);
    let n = skills.len();
    let mut visited: Vec<bool> = Vec::new();
    let mut k: usize = 0;
    while k < n
        invariant
            k <= n,
            visited@.len() == k,
            forall|m: int| 0 <= m < k ==> !visited@[m],
            count_true(visited@) == 0,
        decreases n - k,
    {
        let ghost before = visited@;
        visited.push(false);
        assert(visited@.drop_last() =~= before);
        k = k + 1;
    }
    let mut order: Vec<(usize, u32)> = Vec::new();
    let mut i: usize = 0;
    while i < n
        invariant
            n == skills@.len(),
            views == skill_views(skills@),
            n <= u32::MAX,
            i <= n,
            tracks(n as int, visited@, order@),
            complete_from(views, visited@, order@, 0),
            all_hang(views, order@),
            children_nested(views, order@),
            forall|r: int| 0 <= r < i && is_tree_root(views, r) ==> #[trigger] visited@[r],
            forall|q: int|
                0 <= q < order@.len() && (#[trigger] order@[q]).1 == 0 ==> is_tree_root(views, order@[q].0 as int)
                    && order@[q].0 < i,
            tops_ordered(views, order@),
            siblings_in_list_order(order@),
            follows_depth_first(views, order@),
        decreases n - i,
    {
        if !visited[i] && is_root_at(skills, i) {
            let ghost before_order = order@;
            let ghost before_visited = visited@;
            proof {
                lemma_count_true_bounds(visited@);
                assert forall|k: int| 0 <= k < order@.len() implies !is_child_of(views, i as int, (#[trigger] order@[k]).0 as int) by {
                    if is_child_of(views, i as int, order@[k].0 as int) {
                        assert(views[order@[k].0 as int].id == views[i as int].parent_id->0);
                    }
                }
                lemma_root_comes_next(views, visited@, order@, i);
            }
            visit(skills, i, 0, &mut visited, &mut order);
            proof {
                lemma_visit_frame(views, before_order, order@, before_visited, visited@, i);
            }
        }
        i = i + 1;
    }
    let mut i: usize = 0;
    while i < n
        invariant
            n == skills@.len(),
            views == skill_views(skills@),
            n <= u32::MAX,
            i <= n,
            tracks(n as int, visited@, order@),
            complete_from(views, visited@, order@, 0),
            all_hang(views, order@),
            children_nested(views, order@),
            forall|r: int| 0 <= r < n && is_tree_root(views, r) ==> #[trigger] visited@[r],
            forall|r: int| 0 <= r < i ==> #[trigger] visited@[r],
            forall|q: int|
                0 <= q < order@.len() && (#[trigger] order@[q]).1 == 0 && !is_tree_root(views, order@[q].0 as int)
                    ==> order@[q].0 < i,
            tops_ordered(views, order@),
            siblings_in_list_order(order@),
            follows_depth_first(views, order@),
        decreases n - i,
    {
        if !visited[i] {
            let ghost before_order = order@;
            let ghost before_visited = visited@;
            proof {
                lemma_count_true_bounds(visited@);
                assert forall|k: int| 0 <= k < order@.len() implies !is_child_of(views, i as int, (#[trigger] order@[k]).0 as int) by {}
                lemma_cycle_member_comes_next(views, visited@, order@, i);
            }
            visit(skills, i, 0, &mut visited, &mut order);
            proof {
                lemma_visit_frame_late(views, before_order, order@, before_visited, visited@, i);
            }
        }
        i = i + 1;
    }
    proof {
        lemma_count_true_bounds(visited@);
    }
    order
}

/// What a top-level visit of a root at `i` keeps of the first pass's invariant.
proof fn lemma_visit_frame(
    views: Seq<SkillView>,
    before: Seq<(usize, u32)>,
    after: Seq<(usize, u32)>,
    before_visited: Seq<bool>,
    after_visited: Seq<bool>,
    i: usize,
)
    requires
        0 <= i < views.len(),
        is_tree_root(views, i as int),
        after.len() > before.len(),
        after.subrange(0, before.len() as int) == before,
        after[before.len() as int] == (i, 0u32),
        forall|q: int| before.len() < q < after.len() ==> (#[trigger] after[q]).1 > 0,
        forall|j: int| 0 <= j < views.len() && before_visited[j] ==> #[trigger] after_visited[j],
        before_visited.len() == views.len(),
        complete_from(views, before_visited, before, 0),
        complete_from(views, after_visited, after, before.len() as int),
        forall|q: int|
            0 <= q < before.len() && (#[trigger] before[q]).1 == 0 ==> is_tree_root(views, before[q].0 as int)
                && before[q].0 < i,
        tops_ordered(views, before),
    ensures
        complete_from(views, after_visited, after, 0),
        forall|q: int|
            0 <= q < after.len() && (#[trigger] after[q]).1 == 0 ==> is_tree_root(views, after[q].0 as int)
                && after[q].0 < i + 1,
        tops_ordered(views, after),
{
    assert forall|q: int| 0 <= q < before.len() implies after[q] == before[q] by {
        assert(after.subrange(0, before.len() as int)[q] == before[q]);
    }
    assert forall|k: int, j: int|
        0 <= k < after.len() && 0 <= j < views.len() && is_child_of(views, j, (#[trigger] after[k]).0 as int)
            implies #[trigger] after_visited[j] by {
        if k < before.len() {
            assert(before_visited[j]);
        }
    }
}

/// What a top-level visit of a skill caught in a cycle keeps of the second pass's invariant.
proof fn lemma_visit_frame_late(
    views: Seq<SkillView>,
    before: Seq<(usize, u32)>,
    after: Seq<(usize, u32)>,
    before_visited: Seq<bool>,
    after_visited: Seq<bool>,
    i: usize,
)
    requires
        0 <= i < views.len(),
        !is_tree_root(views, i as int),
        after.len() > before.len(),
        after.subrange(0, before.len() as int) == before,
        after[before.len() as int] == (i, 0u32),
        forall|q: int| before.len() < q < after.len() ==> (#[trigger] after[q]).1 > 0,
        forall|j: int| 0 <= j < views.len() && before_visited[j] ==> #[trigger] after_visited[j],
        before_visited.len() == views.len(),
        complete_from(views, before_visited, before, 0),
        complete_from(views, after_visited, after, before.len() as int),
        forall|q: int|
            0 <= q < before.len() && (#[trigger] before[q]).1 == 0 && !is_tree_root(views, before[q].0 as int)
                ==> before[q].0 < i,
        tops_ordered(views, before),
    ensures
        complete_from(views, after_visited, after, 0),
        forall|q: int|
            0 <= q < after.len() && (#[trigger] after[q]).1 == 0 && !is_tree_root(views, after[q].0 as int)
                ==> after[q].0 < i + 1,
        tops_ordered(views, after),
{
    assert forall|q: int| 0 <= q < before.len() implies after[q] == before[q] by {
        assert(after.subrange(0, before.len() as int)[q] == before[q]);
    }
    assert forall|k: int, j: int|
        0 <= k < after.len() && 0 <= j < views.len() && is_child_of(views, j, (#[trigger] after[k]).0 as int)
            implies #[trigger] after_visited[j] by {
        if k < before.len() {
            assert(before_visited[j]);
        }
    }
}

} // verus!
