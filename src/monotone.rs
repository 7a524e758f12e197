use vstd::prelude::*;

use crate::frame::{Frame, PERCENT_UNIT};
use crate::locator::{
    damage_since, first_hit_scan, grab_walk, last_hit_end, lemma_last_hit_end_bound, spec_combo_start,
    spec_thresholds, starts_attack, starts_grab, STRICTNESS_MAX,
};

verus! {

/// Number of attack starts by the attacker in `[i, end)`.
pub open spec fn attack_starts(atk: Seq<Frame>, i: int, end: int) -> int
    decreases end - i,
{
    if i >= end {
        0
    } else {
        (if starts_attack(atk[i]) {
            1int
        } else {
            0int
        }) + attack_starts(atk, i + 1, end)
    }
}

/// The defender's damage never drops within the window.
pub open spec fn damage_never_drops(def: Seq<Frame>) -> bool {
    forall|i: int, j: int| 0 <= i <= j < def.len() ==> #[trigger] def[i].percent <= #[trigger] def[j].percent
}

/// The attacker starts no grab within the window.
pub open spec fn no_grab_starts(atk: Seq<Frame>) -> bool {
    forall|i: int| 0 <= i < atk.len() ==> !starts_grab(#[trigger] atk[i])
}

/// The five limits only tighten as strictness rises.
pub proof fn lemma_thresholds_tighten(s1: int, s2: int)
    requires
        0 <= s1 <= s2 <= STRICTNESS_MAX,
    ensures
        spec_thresholds(s2).max_defender_consecutive_actionable
            <= spec_thresholds(s1).max_defender_consecutive_actionable,
        spec_thresholds(s2).max_attacker_total_hitstun <= spec_thresholds(s1).max_attacker_total_hitstun,
        spec_thresholds(s2).max_attacker_consecutive_grabs
            <= spec_thresholds(s1).max_attacker_consecutive_grabs,
        spec_thresholds(s1).min_attacker_attacks <= spec_thresholds(s2).min_attacker_attacks,
        spec_thresholds(s1).min_defender_damage <= spec_thresholds(s2).min_defender_damage,
        spec_thresholds(s2).max_defender_consecutive_actionable >= 25,
        spec_thresholds(s2).max_attacker_total_hitstun >= 55,
        spec_thresholds(s2).max_attacker_consecutive_grabs >= 2,
{
}

proof fn lemma_scan_keeps_found(
    atk: Seq<Frame>,
    def: Seq<Frame>,
    m: int,
    f: int,
    free_left: int,
    hitstun_left: int,
    found: Option<int>,
)
    requires
        f < def.len() == atk.len(),
        found matches Some(x) ==> f < x,
    ensures
        found matches Some(x) ==> first_hit_scan(atk, def, m, f, free_left, hitstun_left, found) matches Some(
            y,
        ) && y <= x,
        first_hit_scan(atk, def, m, f, free_left, hitstun_left, found) matches Some(y) ==> (0 <= y <= f
            || found == Some(y)),
    decreases f + 1,
{
    if f >= 0 {
        let found2 = if def[f].state is Hitstun {
            Some(f)
        } else {
            found
        };
        let free2 = if def[f].state.spec_defender_free() {
            free_left - 1
        } else {
            m
        };
        let hitstun2 = if atk[f].state is Hitstun {
            hitstun_left - 1
        } else {
            hitstun_left
        };
        lemma_scan_keeps_found(atk, def, m, f - 1, free2, hitstun2, found2);
    }
}

proof fn lemma_scan_widens(
    atk: Seq<Frame>,
    def: Seq<Frame>,
    m1: int,
    m2: int,
    f: int,
    free1: int,
    free2: int,
    hit1: int,
    hit2: int,
    found: Option<int>,
)
    requires
        f < def.len() == atk.len(),
        found matches Some(x) ==> f < x,
        m2 <= m1,
        free2 <= free1,
        hit2 <= hit1,
    ensures
        first_hit_scan(atk, def, m2, f, free2, hit2, found) matches Some(x) ==> first_hit_scan(
            atk,
            def,
            m1,
            f,
            free1,
            hit1,
            found,
        ) matches Some(y) && y <= x,
    decreases f + 1,
{
    if f >= 0 {
        let found2 = if def[f].state is Hitstun {
            Some(f)
        } else {
            found
        };
        let a1 = if def[f].state.spec_defender_free() {
            free1 - 1
        } else {
            m1
        };
        let a2 = if def[f].state.spec_defender_free() {
            free2 - 1
        } else {
            m2
        };
        let h1 = if atk[f].state is Hitstun {
            hit1 - 1
        } else {
            hit1
        };
        let h2 = if atk[f].state is Hitstun {
            hit2 - 1
        } else {
            hit2
        };
        if a1 <= 0 || h1 <= 0 {
        } else if a2 <= 0 || h2 <= 0 {
            lemma_scan_keeps_found(atk, def, m1, f - 1, a1, h1, found2);
        } else {
            lemma_scan_widens(atk, def, m1, m2, f - 1, a1, a2, h1, h2, found2);
        }
    }
}

proof fn lemma_walk_without_grabs(atk: Seq<Frame>, i: int, end: int, g: int, m: int, a: int)
    requires
        0 <= i,
        end <= atk.len(),
        g >= 1,
        m >= 1,
        no_grab_starts(atk),
    ensures
        grab_walk(atk, i, end, g, m, a) == Some(a + attack_starts(atk, i, end)),
    decreases end - i,
{
    if i < end {
        let g2 = if atk[i].state.spec_is_offensive() {
            m
        } else {
            g
        };
        let a2 = if starts_attack(atk[i]) {
            a + 1
        } else {
            a
        };
        assert(!starts_grab(atk[i]));
        lemma_walk_without_grabs(atk, i + 1, end, g2, m, a2);
    }
}

proof fn lemma_attack_starts_grow(atk: Seq<Frame>, i: int, j: int, end: int)
    requires
        i <= j,
    ensures
        attack_starts(atk, j, end) <= attack_starts(atk, i, end),
    decreases j - i,
{
    if i < j {
        lemma_attack_starts_grow(atk, i + 1, j, end);
        if i < end {
        } else {
            lemma_attack_starts_empty(atk, i + 1, end);
            lemma_attack_starts_empty(atk, j, end);
        }
    }
}

proof fn lemma_attack_starts_empty(atk: Seq<Frame>, i: int, end: int)
    requires
        i >= end,
    ensures
        attack_starts(atk, i, end) == 0,
{
}

/// Raising strictness never turns a missing combo into a found one, on
/// windows in which the defender's damage never drops and the attacker starts
/// no grab.
pub proof fn lemma_stricter_finds_less(atk: Seq<Frame>, def: Seq<Frame>, s1: int, s2: int)
    requires
        0 <= s1 <= s2 <= STRICTNESS_MAX,
        atk.len() == def.len(),
        damage_never_drops(def),
        no_grab_starts(atk),
    ensures
        spec_combo_start(atk, def, s2) is Some ==> spec_combo_start(atk, def, s1) is Some,
{
    let t1 = spec_thresholds(s1);
    let t2 = spec_thresholds(s2);
    lemma_thresholds_tighten(s1, s2);
    lemma_thresholds_tighten(s1, s1);
    if spec_combo_start(atk, def, s2) is Some {
        lemma_last_hit_end_bound(def, def.len() as int);
        let e = last_hit_end(def, def.len() as int)->0;
        let m1 = t1.max_defender_consecutive_actionable as int;
        let m2 = t2.max_defender_consecutive_actionable as int;
        let h1 = t1.max_attacker_total_hitstun as int;
        let h2 = t2.max_attacker_total_hitstun as int;
        lemma_scan_widens(atk, def, m1, m2, e - 1, m1, m2, h1, h2, None);
        lemma_scan_keeps_found(atk, def, m1, e - 1, m1, h1, None);
        lemma_scan_keeps_found(atk, def, m2, e - 1, m2, h2, None);
        let first1 = first_hit_scan(atk, def, m1, e - 1, m1, h1, None)->0;
        let first2 = first_hit_scan(atk, def, m2, e - 1, m2, h2, None)->0;
        let b1 = if first1 == 0 { 0 } else { first1 - 1 };
        let b2 = if first2 == 0 { 0 } else { first2 - 1 };
        assert(def[b1].percent <= def[b2].percent);
        assert(damage_since(def, first1) >= damage_since(def, first2));
        let g1 = t1.max_attacker_consecutive_grabs as int;
        let g2 = t2.max_attacker_consecutive_grabs as int;
        lemma_walk_without_grabs(atk, first1, e, g1, g1, 0);
        lemma_walk_without_grabs(atk, first2, e, g2, g2, 0);
        lemma_attack_starts_grow(atk, first1, first2, e);
        assert(t1.min_defender_damage * PERCENT_UNIT <= t2.min_defender_damage * PERCENT_UNIT);
    }
}

} // verus!
