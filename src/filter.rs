use vstd::prelude::*;

use crate::scan::{character_ok, character_passes, Config};

verus! {

/// `needle` occurs in `hay` as a run of consecutive characters.
pub open spec fn is_substring(needle: Seq<char>, hay: Seq<char>) -> bool {
    exists|i: int|
        0 <= i && i + needle.len() <= hay.len() && #[trigger] hay.subrange(i, i + needle.len())
            == needle
}

/// Relies on str::contains with a string pattern: true when the pattern
/// matches a sub-slice of the string.
#[verifier::external_body]
fn str_contains(hay: &str, needle: &str) -> (r: bool)
    ensures
        r == is_substring(needle@, hay@),
{
    hay.contains(needle)
}

/// A text constraint: absent, or text that the value must contain.
pub open spec fn text_ok(constraint: Option<String>, value: Seq<char>) -> bool {
    constraint matches Some(c) ==> is_substring(c@, value)
}

/// One competitor of a match, as the filter sees it.
#[derive(Clone, Debug)]
pub struct Player {
    pub character: u8,
    /// Connect code, decoded.
    pub code: String,
    /// Display name, decoded.
    pub name: String,
}

/// `player` attacking `opponent` meets every constraint of `c`.
pub open spec fn spec_passes(c: Config, player: Player, opponent: Player) -> bool {
    &&& character_ok(c.player_character, player.character)
    &&& character_ok(c.opponent_character, opponent.character)
    &&& text_ok(c.player_name, player.name@)
    &&& text_ok(c.opponent_name, opponent.name@)
    &&& text_ok(c.player_code, player.code@)
    &&& text_ok(c.opponent_code, opponent.code@)
}

fn text_passes(constraint: &Option<String>, value: &String) -> (r: bool)
    ensures
        r == text_ok(*constraint, value@),
{
    match constraint {
        Some(c) => str_contains(value.as_str(), c.as_str()),
        None => true,
    }
}

/// Whether a match with `player` attacking `opponent` is one to scan: exact
/// match for characters, containment for names and connect codes.
pub fn passes(config: &Config, player: &Player, opponent: &Player) -> (r: bool)
    ensures
        r == spec_passes(*config, *player, *opponent),
{
    character_passes(config.player_character, player.character)
        && character_passes(config.opponent_character, opponent.character)
        && text_passes(&config.player_name, &player.name)
        && text_passes(&config.opponent_name, &opponent.name)
        && text_passes(&config.player_code, &player.code)
        && text_passes(&config.opponent_code, &opponent.code)
}

} // verus!
