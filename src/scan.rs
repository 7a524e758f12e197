use vstd::prelude::*;

use crate::frame::Frame;
use crate::locator::{combo_start, lemma_no_hitstun_no_combo, spec_combo_start, STRICTNESS_MAX};

verus! {

/// A detected kill combo: the match file it comes from and the window of
/// frames `[start, end)` to play, lead-in and lead-out included.
#[derive(Clone, Debug)]
pub struct Combo {
    pub path: String,
    pub start: usize,
    pub end: usize,
}

impl View for Combo {
    type V = (Seq<char>, int, int);

    open spec fn view(&self) -> (Seq<char>, int, int) {
        (self.path@, self.start as int, self.end as int)
    }
}

impl PartialEq for Combo {
    fn eq(&self, o: &Combo) -> (r: bool) {
        self.start == o.start && self.end == o.end && self.path == o.path
    }
}

impl vstd::std_specs::cmp::PartialEqSpecImpl for Combo {
    open spec fn obeys_eq_spec() -> bool {
        true
    }

    open spec fn eq_spec(&self, o: &Combo) -> bool {
        self@ == o@
    }
}

/// The views of a list of combos.
pub open spec fn combos_view(v: Seq<Combo>) -> Seq<(Seq<char>, int, int)> {
    v.map_values(|c: Combo| c@)
}

/// Settings of one detection run.
#[derive(Clone, Debug)]
pub struct Config {
    /// Frames added before the start of each combo.
    pub lead_in: usize,
    /// Frames added after each kill.
    pub lead_out: usize,
    /// How strict the locator is, in thousandths: from 0 to `STRICTNESS_MAX`.
    pub strictness: u32,
    /// Character the attacking competitor must play.
    pub player_character: Option<u8>,
    /// Text the attacking competitor's connect code must contain.
    pub player_code: Option<String>,
    /// Text the attacking competitor's display name must contain.
    pub player_name: Option<String>,
    /// Character the defending competitor must play.
    pub opponent_character: Option<u8>,
    /// Text the defending competitor's connect code must contain.
    pub opponent_code: Option<String>,
    /// Text the defending competitor's display name must contain.
    pub opponent_name: Option<String>,
}

impl Default for Config {
    /// Thirty frames of lead-in, no lead-out, middle strictness, no filter.
    fn default() -> (r: Config)
        ensures
            r.lead_in == 30,
            r.lead_out == 0,
            r.strictness == 500,
            r.player_character is None,
            r.player_code is None,
            r.player_name is None,
            r.opponent_character is None,
            r.opponent_code is None,
            r.opponent_name is None,
    {
        Config {
            lead_in: 30,
            lead_out: 0,
            strictness: 500,
            player_character: None,
            player_code: None,
            player_name: None,
            opponent_character: None,
            opponent_code: None,
            opponent_name: None,
        }
    }
}

impl Config {
    /// The strictness lies in its range.
    pub open spec fn wf(&self) -> bool {
        self.strictness <= STRICTNESS_MAX
    }
}

/// A character constraint: absent, or the character it names.
pub open spec fn character_ok(constraint: Option<u8>, character: u8) -> bool {
    constraint matches Some(c) ==> c == character
}

pub(crate) fn character_passes(constraint: Option<u8>, character: u8) -> (r: bool)
    ensures
        r == character_ok(constraint, character),
{
    match constraint {
        Some(c) => c == character,
        None => true,
    }
}

/// The defender dies on frame `f`: it is dead there and was not on the
/// frame before.
pub open spec fn is_death_start(def: Seq<Frame>, f: int) -> bool {
    &&& def[f].state is Dead
    &&& (f == 0 || !(def[f - 1].state is Dead))
}

/// The combo recorded for the death on frame `f`, if any: the locator runs on
/// the frames before `f`, and the window is widened by the lead-in and
/// lead-out and kept within the match.
pub open spec fn kill_combo_at(
    atk: Seq<Frame>,
    def: Seq<Frame>,
    c: Config,
    path: Seq<char>,
    f: int,
) -> Option<(Seq<char>, int, int)> {
    if is_death_start(def, f) && character_ok(c.player_character, atk[f].character)
        && character_ok(c.opponent_character, def[f].character) {
        match spec_combo_start(atk.take(f), def.take(f), c.strictness as int) {
            Some(s) => Some(
                (
                    path,
                    if s >= c.lead_in {
                        s - c.lead_in
                    } else {
                        0
                    },
                    if f + c.lead_out <= atk.len() {
                        f + c.lead_out
                    } else {
                        atk.len() as int
                    },
                ),
            ),
            None => None,
        }
    } else {
        None
    }
}

/// The combos recorded for the deaths on the frames before `n`, in order.
pub open spec fn kill_combos_before(
    atk: Seq<Frame>,
    def: Seq<Frame>,
    c: Config,
    path: Seq<char>,
    n: int,
) -> Seq<(Seq<char>, int, int)>
    decreases n,
{
    if n <= 0 {
        seq![]
    } else {
        let prev = kill_combos_before(atk, def, c, path, n - 1);
        match kill_combo_at(atk, def, c, path, n - 1) {
            Some(k) => prev.push(k),
            None => prev,
        }
    }
}

/// The combos of one orientation of a match.
pub open spec fn spec_kill_combos(
    atk: Seq<Frame>,
    def: Seq<Frame>,
    c: Config,
    path: Seq<char>,
) -> Seq<(Seq<char>, int, int)> {
    kill_combos_before(atk, def, c, path, atk.len() as int)
}

/// A death with no defender hitstun before it, a self-destruct, records no
/// combo.
pub proof fn lemma_self_destruct_no_combo(
    atk: Seq<Frame>,
    def: Seq<Frame>,
    c: Config,
    path: Seq<char>,
    f: int,
)
    requires
        0 <= f < def.len(),
        forall|i: int| 0 <= i < f ==> !(#[trigger] def[i].state is Hitstun),
    ensures
        kill_combo_at(atk, def, c, path, f) is None,
{
    let d = def.take(f);
    assert forall|i: int| 0 <= i < d.len() implies !(#[trigger] d[i].state is Hitstun) by {
        assert(d[i] == def[i]);
    }
    lemma_no_hitstun_no_combo(atk.take(f), d, c.strictness as int);
}

/// Scans one match forward, with `atk` attacking and `def` defending, and
/// returns a combo for each death that a strong enough combo led to.
pub fn kill_combos(atk: &[Frame], def: &[Frame], config: &Config, path: &String) -> (r: Vec<Combo>)
    requires
        atk@.len() == def@.len(),
        config.wf(),
    ensures
        combos_view(r@) == spec_kill_combos(atk@, def@, *config, path@),
{
    let n = atk.len();
    let mut out: Vec<Combo> = Vec::new();
    let mut f: usize = 0;
    while f < n
        invariant
            f <= n == atk@.len() == def@.len(),
            config.wf(),
            combos_view(out@) == kill_combos_before(atk@, def@, *config, path@, f as int),
        decreases n - f,
    {
        let ghost before = out@;
        let mut found: Option<Combo> = None;
        if def[f].state.is_dead() && (f == 0 || !def[f - 1].state.is_dead()) {
            if character_passes(config.player_character, atk[f].character) && character_passes(
                config.opponent_character,
                def[f].character,
            ) {
                let a = &atk[0..f];
                let d = &def[0..f];
                assert(a@ == atk@.take(f as int));
                assert(d@ == def@.take(f as int));
                if let Some(s) = combo_start(a, d, config.strictness) {
                    let start = if s >= config.lead_in {
                        s - config.lead_in
                    } else {
                        0
                    };
                    let end = if config.lead_out <= n - f {
                        f + config.lead_out
                    } else {
                        n
                    };
                    found = Some(Combo { path: path.clone(), start, end });
                }
            }
        }
        match found {
            Some(c) => {
                out.push(c);
                assert(combos_view(out@) =~= combos_view(before).push(c@));
            },
            None => {},
        }
        f += 1;
    }
    out
}

} // verus!
