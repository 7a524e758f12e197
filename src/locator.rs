use vstd::prelude::*;

use crate::frame::{Frame, ANIM_FRAME_UNIT, PERCENT_UNIT};

verus! {

/// Largest strictness value; strictness is counted in thousandths, so this
/// stands for 1.
pub const STRICTNESS_MAX: u32 = 1000;

/// The five limits of the locator, derived from one strictness value.
#[derive(Clone, Copy, Debug, PartialEq, Eq, Structural)]
pub struct Thresholds {
    /// Consecutive frames in which the defender may be free before the chain breaks.
    pub max_defender_consecutive_actionable: usize,
    /// Attacker hitstun frames tolerated in the window; bounds the backward scan.
    pub max_attacker_total_hitstun: usize,
    /// Consecutive grab attempts tolerated without an attack in between.
    pub max_attacker_consecutive_grabs: usize,
    /// Attack actions the attacker must start within the window.
    pub min_attacker_attacks: usize,
    /// Damage, in whole percent, the defender must take within the window.
    pub min_defender_damage: u32,
}

/// `a / b` rounded to the nearest integer, halves away from zero, for
/// `a >= 0` and `b > 0`.
pub open spec fn round_div(a: int, b: int) -> int {
    (2 * a + b) / (2 * b)
}

/// The limits for strictness `s` thousandths: each is the rounded value of a
/// line through its loosest value at 0 and its strictest value at 1.
pub open spec fn spec_thresholds(s: int) -> Thresholds {
    Thresholds {
        max_defender_consecutive_actionable: round_div(35 * 1000 - 10 * s, 1000) as usize,
        max_attacker_total_hitstun: round_div(65 * 1000 - 10 * s, 1000) as usize,
        max_attacker_consecutive_grabs: round_div(6 * 1000 - 4 * s, 1000) as usize,
        min_attacker_attacks: round_div(3 * 1000 + 6 * s, 1000) as usize,
        min_defender_damage: round_div(20 * 1000 + 40 * s, 1000) as u32,
    }
}

/// Computes the locator's limits for a strictness given in thousandths.
pub fn thresholds(strictness: u32) -> (r: Thresholds)
    requires
        strictness <= STRICTNESS_MAX,
    ensures
        r == spec_thresholds(strictness as int),
        25 <= r.max_defender_consecutive_actionable <= 35,
        55 <= r.max_attacker_total_hitstun <= 65,
        2 <= r.max_attacker_consecutive_grabs <= 6,
        3 <= r.min_attacker_attacks <= 9,
        20 <= r.min_defender_damage <= 60,
{
    let s = strictness as usize;
    Thresholds {
        max_defender_consecutive_actionable: (2 * (35000 - 10 * s) + 1000) / 2000,
        max_attacker_total_hitstun: (2 * (65000 - 10 * s) + 1000) / 2000,
        max_attacker_consecutive_grabs: (2 * (6000 - 4 * s) + 1000) / 2000,
        min_attacker_attacks: (2 * (3000 + 6 * s) + 1000) / 2000,
        min_defender_damage: ((2 * (20000 + 40 * s) + 1000) / 2000) as u32,
    }
}

/// An optional index, as an integer.
pub open spec fn opt_int(o: Option<usize>) -> Option<int> {
    match o {
        Some(i) => Some(i as int),
        None => None,
    }
}

/// The last index below `n` at which the defender is hit, on the ground or
/// attacking.
pub open spec fn last_hit_end(def: Seq<Frame>, n: int) -> Option<int>
    decreases n,
{
    if n <= 0 {
        None
    } else if def[n - 1].state.spec_is_hit() {
        Some(n - 1)
    } else {
        last_hit_end(def, n - 1)
    }
}

/// Scans backward from `f` down to 0 with two countdowns: `free_left`, of
/// consecutive frames in which the defender is free, and `hitstun_left`, of
/// attacker hitstun frames. Returns the earliest defender hitstun frame seen,
/// starting from `found`, up to and including the frame on which a
/// countdown reaches zero.
pub open spec fn first_hit_scan(
    atk: Seq<Frame>,
    def: Seq<Frame>,
    max_free: int,
    f: int,
    free_left: int,
    hitstun_left: int,
    found: Option<int>,
) -> Option<int>
    decreases f + 1,
{
    if f < 0 {
        found
    } else {
        let found2 = if def[f].state is Hitstun {
            Some(f)
        } else {
            found
        };
        let free2 = if def[f].state.spec_defender_free() {
            free_left - 1
        } else {
            max_free
        };
        let hitstun2 = if atk[f].state is Hitstun {
            hitstun_left - 1
        } else {
            hitstun_left
        };
        if free2 <= 0 || hitstun2 <= 0 {
            found2
        } else {
            first_hit_scan(atk, def, max_free, f - 1, free2, hitstun2, found2)
        }
    }
}

/// The attacker starts a grab on this frame.
pub open spec fn starts_grab(f: Frame) -> bool {
    f.grab && f.anim_frame == 0
}

/// The attacker starts an attack or special action on this frame: the
/// frame right after its first animation frame.
pub open spec fn starts_attack(f: Frame) -> bool {
    f.state.spec_is_offensive() && f.anim_frame == ANIM_FRAME_UNIT
}

/// Walks the attacker's frames `[i, end)` forward. `grabs_left` counts down at
/// each grab start and returns to `max_grabs` on each attack or special
/// frame. Returns `None` if it reaches zero, else the number of attack starts
/// added to `attacks`.
pub open spec fn grab_walk(
    atk: Seq<Frame>,
    i: int,
    end: int,
    grabs_left: int,
    max_grabs: int,
    attacks: int,
) -> Option<int>
    decreases end - i,
{
    if i >= end {
        Some(attacks)
    } else {
        let g1 = if starts_grab(atk[i]) {
            grabs_left - 1
        } else {
            grabs_left
        };
        let g2 = if atk[i].state.spec_is_offensive() {
            max_grabs
        } else {
            g1
        };
        let a2 = if starts_attack(atk[i]) {
            attacks + 1
        } else {
            attacks
        };
        if g2 == 0 {
            None
        } else {
            grab_walk(atk, i + 1, end, g2, max_grabs, a2)
        }
    }
}

/// Damage taken by the defender from the frame before `first` to the last
/// frame of the window; from frame 0 when `first` is 0.
pub open spec fn damage_since(def: Seq<Frame>, first: int) -> int {
    let base = if first == 0 {
        0
    } else {
        first - 1
    };
    def.last().percent - def[base].percent
}

/// Where the kill combo ending with the window `atk`, `def` begins, for
/// strictness `s` thousandths, or `None` when no strong enough combo
/// precedes the end of the window.
pub open spec fn spec_combo_start(atk: Seq<Frame>, def: Seq<Frame>, s: int) -> Option<int> {
    let t = spec_thresholds(s);
    match last_hit_end(def, def.len() as int) {
        None => None,
        Some(e) => match first_hit_scan(
            atk,
            def,
            t.max_defender_consecutive_actionable as int,
            e - 1,
            t.max_defender_consecutive_actionable as int,
            t.max_attacker_total_hitstun as int,
            None,
        ) {
            None => None,
            Some(first) => if damage_since(def, first) < t.min_defender_damage * PERCENT_UNIT {
                None
            } else {
                match grab_walk(
                    atk,
                    first,
                    e,
                    t.max_attacker_consecutive_grabs as int,
                    t.max_attacker_consecutive_grabs as int,
                    0,
                ) {
                    None => None,
                    Some(a) => if a < t.min_attacker_attacks {
                        None
                    } else {
                        Some(first)
                    },
                }
            },
        },
    }
}

proof fn lemma_no_hit_end(def: Seq<Frame>, n: int)
    requires
        n <= def.len(),
        forall|i: int| 0 <= i < n ==> !(#[trigger] def[i].state.spec_is_hit()),
    ensures
        last_hit_end(def, n) is None,
    decreases n,
{
    if n > 0 {
        lemma_no_hit_end(def, n - 1);
    }
}

proof fn lemma_no_hitstun_scan(
    atk: Seq<Frame>,
    def: Seq<Frame>,
    max_free: int,
    f: int,
    free_left: int,
    hitstun_left: int,
    found: Option<int>,
)
    requires
        f < def.len(),
        forall|i: int| 0 <= i <= f ==> !(#[trigger] def[i].state is Hitstun),
    ensures
        first_hit_scan(atk, def, max_free, f, free_left, hitstun_left, found) == found,
    decreases f + 1,
{
    if f >= 0 {
        let free2 = if def[f].state.spec_defender_free() {
            free_left - 1
        } else {
            max_free
        };
        let hitstun2 = if atk[f].state is Hitstun {
            hitstun_left - 1
        } else {
            hitstun_left
        };
        lemma_no_hitstun_scan(atk, def, max_free, f - 1, free2, hitstun2, found);
    }
}

/// When the defender is never hit, on the ground or attacking in the window,
/// no combo is found, at any strictness.
pub proof fn lemma_never_hit_no_combo(atk: Seq<Frame>, def: Seq<Frame>, s: int)
    requires
        forall|i: int| 0 <= i < def.len() ==> !(#[trigger] def[i].state.spec_is_hit()),
    ensures
        spec_combo_start(atk, def, s) is None,
{
    lemma_no_hit_end(def, def.len() as int);
}

/// When the defender is never in hitstun in the window, no combo is found,
/// at any strictness.
pub proof fn lemma_no_hitstun_no_combo(atk: Seq<Frame>, def: Seq<Frame>, s: int)
    requires
        forall|i: int| 0 <= i < def.len() ==> !(#[trigger] def[i].state is Hitstun),
    ensures
        spec_combo_start(atk, def, s) is None,
{
    let t = spec_thresholds(s);
    lemma_last_hit_end_bound(def, def.len() as int);
    if let Some(e) = last_hit_end(def, def.len() as int) {
        lemma_no_hitstun_scan(
            atk,
            def,
            t.max_defender_consecutive_actionable as int,
            e - 1,
            t.max_defender_consecutive_actionable as int,
            t.max_attacker_total_hitstun as int,
            None,
        );
    }
}

pub(crate) proof fn lemma_last_hit_end_bound(def: Seq<Frame>, n: int)
    ensures
        last_hit_end(def, n) matches Some(e) ==> 0 <= e < n,
    decreases n,
{
    if n > 0 {
        lemma_last_hit_end_bound(def, n - 1);
    }
}

/// Once the two backward scans have fixed the window `[first, e)` and the
/// grab streak never runs out in it, a combo is found exactly when the
/// damage reaches the minimum and the attack starts reach theirs: the
/// minimum itself suffices, and one unit less of either gives none.
pub proof fn lemma_thresholds_are_inclusive(atk: Seq<Frame>, def: Seq<Frame>, s: int, e: int, first: int)
    requires
        last_hit_end(def, def.len() as int) == Some(e),
        first_hit_scan(
            atk,
            def,
            spec_thresholds(s).max_defender_consecutive_actionable as int,
            e - 1,
            spec_thresholds(s).max_defender_consecutive_actionable as int,
            spec_thresholds(s).max_attacker_total_hitstun as int,
            None,
        ) == Some(first),
        grab_walk(
            atk,
            first,
            e,
            spec_thresholds(s).max_attacker_consecutive_grabs as int,
            spec_thresholds(s).max_attacker_consecutive_grabs as int,
            0,
        ) is Some,
    ensures
        spec_combo_start(atk, def, s) == if damage_since(def, first) >= spec_thresholds(
            s,
        ).min_defender_damage * PERCENT_UNIT && grab_walk(
            atk,
            first,
            e,
            spec_thresholds(s).max_attacker_consecutive_grabs as int,
            spec_thresholds(s).max_attacker_consecutive_grabs as int,
            0,
        )->0 >= spec_thresholds(s).min_attacker_attacks {
            Some(first)
        } else {
            None
        },
{
}

fn find_last_hit_end(def: &[Frame]) -> (r: Option<usize>)
    ensures
        opt_int(r) == last_hit_end(def@, def@.len() as int),
        r matches Some(e) ==> e < def@.len(),
{
    let mut f: usize = def.len();
    while f > 0
        invariant
            f <= def@.len(),
            last_hit_end(def@, f as int) == last_hit_end(def@, def@.len() as int),
        decreases f,
    {
        if def[f - 1].state.is_hit() {
            return Some(f - 1);
        }
        f -= 1;
    }
    None
}

fn find_first_hit(atk: &[Frame], def: &[Frame], t: &Thresholds, end: usize) -> (r: Option<usize>)
    requires
        atk@.len() == def@.len(),
        end <= def@.len(),
        t.max_defender_consecutive_actionable >= 1,
        t.max_attacker_total_hitstun >= 1,
    ensures
        opt_int(r) == first_hit_scan(
            atk@,
            def@,
            t.max_defender_consecutive_actionable as int,
            end - 1,
            t.max_defender_consecutive_actionable as int,
            t.max_attacker_total_hitstun as int,
            None,
        ),
        r matches Some(i) ==> i < end,
{
    let max_free = t.max_defender_consecutive_actionable;
    let mut free_left: usize = max_free;
    let mut hitstun_left: usize = t.max_attacker_total_hitstun;
    let mut found: Option<usize> = None;
    let mut f: usize = end;
    while f > 0
        invariant
            f <= end <= def@.len() == atk@.len(),
            1 <= free_left <= max_free,
            1 <= hitstun_left,
            max_free == t.max_defender_consecutive_actionable,
            found matches Some(i) ==> i < end,
            first_hit_scan(
                atk@,
                def@,
                max_free as int,
                end - 1,
                max_free as int,
                t.max_attacker_total_hitstun as int,
                None,
            ) == first_hit_scan(
                atk@,
                def@,
                max_free as int,
                f - 1,
                free_left as int,
                hitstun_left as int,
                opt_int(found),
            ),
        decreases f,
    {
        f -= 1;
        let d = def[f].state;
        if d.is_hitstun() {
            found = Some(f);
        }
        if d.defender_free() {
            free_left -= 1;
        } else {
            free_left = max_free;
        }
        if atk[f].state.is_hitstun() {
            hitstun_left -= 1;
        }
        if free_left == 0 || hitstun_left == 0 {
            return found;
        }
    }
    found
}

fn count_attacks(atk: &[Frame], first: usize, end: usize, max_grabs: usize) -> (r: Option<usize>)
    requires
        first <= end <= atk@.len(),
        max_grabs >= 1,
    ensures
        opt_int(r) == grab_walk(atk@, first as int, end as int, max_grabs as int, max_grabs as int, 0),
{
    let mut grabs_left: usize = max_grabs;
    let mut attacks: usize = 0;
    let mut i: usize = first;
    while i < end
        invariant
            first <= i <= end <= atk@.len(),
            1 <= grabs_left <= max_grabs,
            attacks <= i - first,
            grab_walk(atk@, first as int, end as int, max_grabs as int, max_grabs as int, 0)
                == grab_walk(atk@, i as int, end as int, grabs_left as int, max_grabs as int, attacks as int),
        decreases end - i,
    {
        let f = atk[i];
        if f.grab && f.anim_frame == 0 {
            grabs_left -= 1;
        }
        if f.state.is_offensive() {
            grabs_left = max_grabs;
            if f.anim_frame == ANIM_FRAME_UNIT {
                attacks += 1;
            }
        }
        if grabs_left == 0 {
            return None;
        }
        i += 1;
    }
    Some(attacks)
}

/// Given the two competitors' frames up to the end of a window, finds where
/// the kill combo that ends there most plausibly began. `strictness` is in
/// thousandths: 0 is the most permissive, `STRICTNESS_MAX` the most
/// restrictive.
pub fn combo_start(atk: &[Frame], def: &[Frame], strictness: u32) -> (r: Option<usize>)
    requires
        atk@.len() == def@.len(),
        strictness <= STRICTNESS_MAX,
    ensures
        opt_int(r) == spec_combo_start(atk@, def@, strictness as int),
        r matches Some(i) ==> i < atk@.len(),
{
    let t = thresholds(strictness);
    let end = match find_last_hit_end(def) {
        Some(e) => e,
        None => return None,
    };
    let first = match find_first_hit(atk, def, &t, end) {
        Some(f) => f,
        None => return None,
    };
    let base: usize = if first == 0 {
        0
    } else {
        first - 1
    };
    let damage: i64 = def[def.len() - 1].percent as i64 - def[base].percent as i64;
    if damage < (t.min_defender_damage as i64) * (PERCENT_UNIT as i64) {
        return None;
    }
    let attacks = match count_attacks(atk, first, end, t.max_attacker_consecutive_grabs) {
        Some(a) => a,
        None => return None,
    };
    if attacks < t.min_attacker_attacks {
        return None;
    }
    Some(first)
}

} // verus!
