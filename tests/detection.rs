use slp_combo_finder::{
    combo_start, kill_combos, thresholds, BroadState, Combo, Config, Frame, Thresholds,
    ANIM_FRAME_UNIT, PERCENT_UNIT,
};

fn frame(state: BroadState, anim: u32, percent: u32) -> Frame {
    Frame { character: 0, state, grab: false, anim_frame: anim * ANIM_FRAME_UNIT, percent: percent * PERCENT_UNIT }
}

fn neutral() -> Frame {
    frame(BroadState::OtherActionable, 0, 0)
}

fn config(strictness: u32, lead_in: usize, lead_out: usize) -> Config {
    Config {
        lead_in,
        lead_out,
        strictness,
        player_character: None,
        player_code: None,
        player_name: None,
        opponent_character: None,
        opponent_code: None,
        opponent_name: None,
    }
}

/// A combo of `hitstun` hitstun frames then `ground` ground frames, then a
/// death; the attacker starts `attacks` attacks, and the defender's damage
/// goes from `from` to `to` percent. `lead` neutral frames come first.
fn combo_match(lead: usize, hitstun: usize, ground: usize, attacks: usize, from: u32, to: u32) -> (Vec<Frame>, Vec<Frame>) {
    let mut atk = Vec::new();
    let mut def = Vec::new();
    for _ in 0..lead {
        atk.push(neutral());
        def.push(frame(BroadState::OtherActionable, 0, from));
    }
    let hits = hitstun + ground;
    for i in 0..hits {
        let attacking = i % 3 == 1 && i / 3 < attacks;
        atk.push(if attacking { frame(BroadState::Attack, 1, 0) } else { neutral() });
        let state = if i < hitstun { BroadState::Hitstun } else { BroadState::Ground };
        let percent = if i + 1 == hits { to } else { from };
        def.push(frame(state, 0, percent));
    }
    atk.push(neutral());
    def.push(frame(BroadState::Dead, 0, to));
    (atk, def)
}

#[test]
fn thresholds_at_the_ends_and_middle() {
    assert_eq!(
        thresholds(0),
        Thresholds {
            max_defender_consecutive_actionable: 35,
            max_attacker_total_hitstun: 65,
            max_attacker_consecutive_grabs: 6,
            min_attacker_attacks: 3,
            min_defender_damage: 20,
        }
    );
    assert_eq!(
        thresholds(1000),
        Thresholds {
            max_defender_consecutive_actionable: 25,
            max_attacker_total_hitstun: 55,
            max_attacker_consecutive_grabs: 2,
            min_attacker_attacks: 9,
            min_defender_damage: 60,
        }
    );
    assert_eq!(
        thresholds(500),
        Thresholds {
            max_defender_consecutive_actionable: 30,
            max_attacker_total_hitstun: 60,
            max_attacker_consecutive_grabs: 4,
            min_attacker_attacks: 6,
            min_defender_damage: 40,
        }
    );
    let t = thresholds(250);
    assert_eq!(t.max_defender_consecutive_actionable, 33);
    assert_eq!(t.max_attacker_consecutive_grabs, 5);
    assert_eq!(t.min_attacker_attacks, 5);
    assert_eq!(t.min_defender_damage, 30);
}

#[test]
fn never_hit_window_has_no_combo() {
    let atk = vec![frame(BroadState::Attack, 1, 0); 40];
    let mut def = vec![frame(BroadState::OtherActionable, 0, 0); 20];
    def.extend(vec![frame(BroadState::Special, 0, 90); 20]);
    assert_eq!(combo_start(&atk, &def, 0), None);
    assert_eq!(combo_start(&atk, &def, 1000), None);
    assert_eq!(combo_start(&[], &[], 500), None);
}

#[test]
fn minimum_combo_is_found_and_one_less_damage_is_not() {
    // strictness 500: 6 attacks, 40 percent
    let (atk, def) = combo_match(10, 20, 0, 6, 10, 50);
    let n = atk.len() - 1;
    assert_eq!(combo_start(&atk[..n], &def[..n], 500), Some(10));
    let mut less = def.clone();
    less[n - 1].percent -= 1;
    assert_eq!(combo_start(&atk[..n], &less[..n], 500), None);
    let (atk5, def5) = combo_match(10, 20, 0, 5, 10, 50);
    assert_eq!(combo_start(&atk5[..n], &def5[..n], 500), None);
}

#[test]
fn first_hit_at_frame_zero_measures_from_frame_zero() {
    let (atk, def) = combo_match(0, 20, 0, 6, 0, 40);
    let n = atk.len() - 1;
    assert_eq!(combo_start(&atk[..n], &def[..n], 500), Some(0));
}

#[test]
fn too_many_grabs_break_the_combo() {
    let (mut atk, def) = combo_match(0, 30, 0, 6, 0, 60);
    for i in 20..25 {
        atk[i] = Frame { grab: true, ..neutral() };
    }
    let n = atk.len() - 1;
    // five grab starts in a row: four is the limit at strictness 500
    assert_eq!(combo_start(&atk[..n], &def[..n], 500), None);
    // six are tolerated at strictness 0
    assert_eq!(combo_start(&atk[..n], &def[..n], 0), Some(0));
}

#[test]
fn long_actionable_gap_ends_the_backward_scan() {
    let (atk, mut def) = combo_match(0, 40, 0, 9, 0, 80);
    for i in 5..40 {
        def[i].state = BroadState::OtherActionable;
    }
    def[39].state = BroadState::Hitstun;
    let n = atk.len() - 1;
    // the chain from frame 39 back breaks after 30 free frames at 500
    assert_eq!(combo_start(&atk[..n], &def[..n], 500), None);
}

#[test]
fn stricter_never_finds_what_looser_missed() {
    let (atk, def) = combo_match(5, 20, 4, 7, 10, 55);
    let n = atk.len() - 1;
    let mut found_before = true;
    for s in (0..=1000).step_by(50) {
        let found = combo_start(&atk[..n], &def[..n], s).is_some();
        assert!(found_before || !found);
        found_before = found;
    }
    assert!(combo_start(&atk[..n], &def[..n], 0).is_some());
    assert!(combo_start(&atk[..n], &def[..n], 1000).is_none());
}

#[test]
fn hitstun_then_ground_then_death_gives_one_combo() {
    let (atk, def) = combo_match(40, 20, 5, 6, 10, 60);
    let death = def.len() - 1;
    let found = kill_combos(&atk, &def, &config(500, 30, 0), &"m.slp".to_string());
    assert_eq!(found, vec![Combo { path: "m.slp".to_string(), start: 40 - 30, end: death }]);
    let (atk0, def0) = combo_match(0, 20, 5, 6, 0, 50);
    let found0 = kill_combos(&atk0, &def0, &config(500, 30, 0), &"m.slp".to_string());
    assert_eq!(found0, vec![Combo { path: "m.slp".to_string(), start: 0, end: 25 }]);
}

#[test]
fn lead_out_is_kept_within_the_match() {
    let (mut atk, mut def) = combo_match(40, 20, 5, 6, 10, 60);
    for _ in 0..3 {
        atk.push(neutral());
        def.push(frame(BroadState::Dead, 0, 0));
    }
    let death = 65;
    let found = kill_combos(&atk, &def, &config(500, 0, 2), &"a".to_string());
    assert_eq!(found, vec![Combo { path: "a".to_string(), start: 40, end: death + 2 }]);
    let found = kill_combos(&atk, &def, &config(500, 0, 100), &"a".to_string());
    assert_eq!(found, vec![Combo { path: "a".to_string(), start: 40, end: def.len() }]);
}

#[test]
fn self_destruct_gives_no_combo() {
    let mut atk = vec![frame(BroadState::Attack, 1, 0); 30];
    let mut def = vec![frame(BroadState::Ground, 0, 100); 29];
    def.push(frame(BroadState::Dead, 0, 100));
    atk.push(neutral());
    def.push(frame(BroadState::Dead, 0, 0));
    assert_eq!(kill_combos(&atk, &def, &config(0, 30, 0), &"s".to_string()), vec![]);
}

#[test]
fn each_death_counts_once_and_character_filter_applies() {
    let (mut atk, mut def) = combo_match(10, 20, 0, 6, 0, 50);
    def.push(frame(BroadState::Dead, 0, 0));
    atk.push(neutral());
    // a gap long enough to end the backward scan before the first death
    let (atk2, def2) = combo_match(40, 20, 0, 6, 0, 50);
    let base = atk.len();
    atk.extend(atk2);
    def.extend(def2);
    let found = kill_combos(&atk, &def, &config(500, 5, 0), &"p".to_string());
    assert_eq!(
        found,
        vec![
            Combo { path: "p".to_string(), start: 5, end: 30 },
            Combo { path: "p".to_string(), start: base + 35, end: base + 60 },
        ]
    );
    let mut c = config(500, 5, 0);
    c.player_character = Some(3);
    assert_eq!(kill_combos(&atk, &def, &c, &"p".to_string()), vec![]);
    c.player_character = Some(0);
    c.opponent_character = Some(0);
    assert_eq!(kill_combos(&atk, &def, &c, &"p".to_string()).len(), 2);
}
