use slp_combo_finder::{
    join_results, match_combos, orientations, partition_slices, passes, use_workers, BroadState,
    Combo, Config, Frame, Player, TargetPathError,
};

fn config() -> Config {
    Config {
        lead_in: 0,
        lead_out: 0,
        strictness: 0,
        player_character: None,
        player_code: None,
        player_name: None,
        opponent_character: None,
        opponent_code: None,
        opponent_name: None,
    }
}

fn player(character: u8, code: &str, name: &str) -> Player {
    Player { character, code: code.to_string(), name: name.to_string() }
}

fn combo(path: &str, start: usize, end: usize) -> Combo {
    Combo { path: path.to_string(), start, end }
}

#[test]
fn filter_without_constraints_passes() {
    assert!(passes(&config(), &player(1, "ABC#123", "Abe"), &player(2, "XY#9", "Xena")));
}

#[test]
fn filter_checks_characters_exactly() {
    let mut c = config();
    c.player_character = Some(1);
    assert!(passes(&c, &player(1, "", ""), &player(2, "", "")));
    assert!(!passes(&c, &player(2, "", ""), &player(1, "", "")));
    c.opponent_character = Some(7);
    assert!(!passes(&c, &player(1, "", ""), &player(2, "", "")));
    assert!(passes(&c, &player(1, "", ""), &player(7, "", "")));
}

#[test]
fn filter_checks_names_and_codes_by_containment() {
    let mut c = config();
    c.player_name = Some("be".to_string());
    c.opponent_code = Some("#9".to_string());
    assert!(passes(&c, &player(1, "ABC#123", "Abe"), &player(2, "XY#9", "Xena")));
    assert!(!passes(&c, &player(1, "ABC#123", "Ab"), &player(2, "XY#9", "Xena")));
    assert!(!passes(&c, &player(1, "ABC#123", "Abe"), &player(2, "XY#8", "Xena")));
    c.player_code = Some("ABC#123".to_string());
    c.opponent_name = Some(String::new());
    assert!(passes(&c, &player(1, "ABC#123", "Abe"), &player(2, "XY#9", "Xena")));
    c.player_code = Some("ABC#1234".to_string());
    assert!(!passes(&c, &player(1, "ABC#123", "Abe"), &player(2, "XY#9", "Xena")));
}

#[test]
fn orientations_swap_the_roles() {
    let mut c = config();
    c.player_name = Some("Abe".to_string());
    let low = player(1, "A#1", "Abe");
    let high = player(2, "B#2", "Bea");
    assert_eq!(orientations(&c, &low, &high), (true, false));
    assert_eq!(orientations(&c, &high, &low), (false, true));
    assert_eq!(orientations(&config(), &high, &low), (true, true));
}

fn kill_timeline() -> (Vec<Frame>, Vec<Frame>) {
    let f = |state, anim: u32, percent: u32| Frame { character: 0, state, grab: false, anim_frame: anim * 100, percent: percent * 100 };
    let mut atk = Vec::new();
    let mut def = Vec::new();
    for i in 0..20 {
        atk.push(if i % 3 == 1 { f(BroadState::Attack, 1, 0) } else { f(BroadState::OtherActionable, 0, 0) });
        def.push(f(BroadState::Hitstun, 0, if i == 19 { 50 } else { 0 }));
    }
    atk.push(f(BroadState::OtherActionable, 0, 0));
    def.push(f(BroadState::Dead, 0, 0));
    (atk, def)
}

#[test]
fn match_combos_follow_the_orientations_that_passed() {
    let (a, d) = kill_timeline();
    let path = "g.slp".to_string();
    assert_eq!(match_combos(&config(), &path, &a, &d, true, true), vec![combo("g.slp", 0, 20)]);
    assert_eq!(match_combos(&config(), &path, &d, &a, true, true), vec![combo("g.slp", 0, 20)]);
    assert_eq!(match_combos(&config(), &path, &a, &d, false, true), vec![]);
    assert_eq!(match_combos(&config(), &path, &a, &d, true, false), vec![combo("g.slp", 0, 20)]);
}

#[test]
fn slices_of_thirteen_files() {
    assert_eq!(
        partition_slices(13),
        vec![(0, 2), (2, 4), (4, 6), (6, 8), (8, 10), (10, 11), (11, 12), (12, 13)]
    );
}

#[test]
fn slices_cover_every_count_once() {
    for n in 8..200usize {
        let s = partition_slices(n);
        assert_eq!(s.len(), 8);
        assert_eq!(s[0].0, 0);
        assert_eq!(s[7].1, n);
        for i in 0..7 {
            assert_eq!(s[i].1, s[i + 1].0);
        }
        let lens: Vec<usize> = s.iter().map(|(a, b)| b - a).collect();
        let min = *lens.iter().min().unwrap();
        let max = *lens.iter().max().unwrap();
        assert!(max - min <= 1);
    }
    assert_eq!(partition_slices(8), (0..8).map(|i| (i, i + 1)).collect::<Vec<_>>());
    assert_eq!(partition_slices(16), (0..8).map(|i| (2 * i, 2 * i + 2)).collect::<Vec<_>>());
}

#[test]
fn workers_only_from_eight_files() {
    assert!(!use_workers(0));
    assert!(!use_workers(7));
    assert!(use_workers(8));
    assert!(use_workers(1000));
}

#[test]
fn worker_results_are_joined_in_order() {
    let parts = vec![vec![combo("a", 1, 2)], vec![], vec![combo("b", 3, 4), combo("c", 5, 6)]];
    assert_eq!(join_results(parts), vec![combo("a", 1, 2), combo("b", 3, 4), combo("c", 5, 6)]);
    assert_eq!(join_results(vec![]), vec![]);
}

#[test]
fn missing_path_error_compares() {
    assert_eq!(TargetPathError::PathNotFound, TargetPathError::PathNotFound);
}

#[test]
fn recording_extensions() {
    assert!(slp_combo_finder::is_recording_extension("slp"));
    assert!(slp_combo_finder::is_recording_extension("slpz"));
    assert!(!slp_combo_finder::is_recording_extension("SLP"));
    assert!(!slp_combo_finder::is_recording_extension("json"));
    assert!(!slp_combo_finder::is_recording_extension(""));
}

#[test]
fn default_config() {
    let c = Config::default();
    assert_eq!(c.lead_in, 30);
    assert_eq!(c.lead_out, 0);
    assert_eq!(c.strictness, 500);
    assert!(c.player_character.is_none() && c.opponent_character.is_none());
    assert!(c.player_name.is_none() && c.opponent_name.is_none());
    assert!(c.player_code.is_none() && c.opponent_code.is_none());
}
